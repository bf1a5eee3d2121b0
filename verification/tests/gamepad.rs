use padflow::buttons;
use padflow::output::{build_output_report, crc32};
use padflow::pad::{remap_buttons, xinput_buttons, ConnectionType, PadKind};
use padflow::report::{parse_ds4, parse_dualsense, parse_input_report, RawReport};

// ---------------------------------------------------------------------------
// Helpers: the floating-point views the UI uses of a decoded report.
// ---------------------------------------------------------------------------

/// Normalised stick value (`-1.0..=1.0`) of a half-step axis.
fn axis(v: i16) -> f32 {
    v as f32 / 255.0
}

/// Normalised trigger value (`0.0..=1.0`).
fn trigger(v: u8) -> f32 {
    v as f32 / 255.0
}

fn gyro(r: &RawReport) -> [f32; 3] {
    [r.gyro[0] as f32 / 1024.0, r.gyro[1] as f32 / 1024.0, r.gyro[2] as f32 / 1024.0]
}

fn accel(r: &RawReport) -> [f32; 3] {
    [r.accel[0] as f32 / 8192.0, r.accel[1] as f32 / 8192.0, r.accel[2] as f32 / 8192.0]
}

fn touch(r: &RawReport, f: usize) -> [f32; 2] {
    [r.touch[f][0] as f32 / 1919.0, r.touch[f][1] as f32 / r.touch_y_max as f32]
}

/// Motor intensity byte of a `0.0..=1.0` rumble strength (clamped, truncated).
fn motor(x: f32) -> u8 {
    (x.clamp(0.0, 1.0) * 255.0) as u8
}

/// The default (identity) button map.
fn identity_map() -> [u8; 16] {
    [0, 1, 2, 3, 4, 5, 6, 7, 8, 9, 10, 11, 12, 13, 14, 15]
}

/// Deterministic splitmix64 stream.
struct SplitMix64(u64);

impl SplitMix64 {
    fn next(&mut self) -> u64 {
        self.0 = self.0.wrapping_add(0x9E37_79B9_7F4A_7C15);
        let mut z = self.0;
        z = (z ^ (z >> 30)).wrapping_mul(0xBF58_476D_1CE4_E5B9);
        z = (z ^ (z >> 27)).wrapping_mul(0x94D0_49BB_1331_11EB);
        z ^ (z >> 31)
    }
}

fn rand_buf(rng: &mut SplitMix64, buf: &mut [u8], report_id: bool) {
    for b in buf.iter_mut() {
        *b = (rng.next() & 0xFF) as u8;
    }
    if report_id && !buf.is_empty() {
        let kind = rng.next() % 3;
        buf[0] = match kind {
            0 => 0x01,
            1 => 0x11,
            _ => 0x31,
        };
    }
}

fn parse(which: usize, buf: &[u8]) -> Option<RawReport> {
    match which {
        0 => parse_ds4(buf, false),
        1 => parse_ds4(buf, true),
        2 => parse_dualsense(buf, false),
        _ => parse_dualsense(buf, true),
    }
}

// ---------------------------------------------------------------------------
// CRC-32 and output reports
// ---------------------------------------------------------------------------

#[test]
fn crc_matches_known_vector() {
    assert_eq!(crc32(&[], b"123456789"), 0xCBF4_3926);
}

#[test]
fn output_reports_are_well_formed() {
    let led = [0x12, 0x34, 0x56];
    let rumble = (motor(0.5), motor(0.25));
    let cases = [
        (PadKind::DualShock4, ConnectionType::Usb, 32usize, 0x05u8),
        (PadKind::DualShock4, ConnectionType::Bluetooth, 78, 0x11),
        (PadKind::DualSense, ConnectionType::Usb, 48, 0x02),
        (PadKind::DualSense, ConnectionType::Bluetooth, 78, 0x31),
        (PadKind::DualSenseEdge, ConnectionType::Usb, 48, 0x02),
        (PadKind::DualSenseEdge, ConnectionType::Bluetooth, 78, 0x31),
    ];
    for (kind, conn, len, id) in cases {
        let buf = build_output_report(kind, conn, led, rumble).expect("report must build");
        assert_eq!(buf.len(), len, "{kind:?}/{conn:?} length");
        assert_eq!(buf[0], id, "{kind:?}/{conn:?} report id");
        match (kind, conn) {
            (PadKind::DualShock4, ConnectionType::Usb) => {
                assert_eq!((buf[4], buf[5]), (127, 63));
                assert_eq!(&buf[6..9], &led);
            }
            (PadKind::DualShock4, ConnectionType::Bluetooth) => {
                assert_eq!((buf[6], buf[7]), (127, 63));
                assert_eq!(&buf[8..11], &led);
                let crc = crc32(&[0xA2], &buf[..74]);
                assert_eq!(&buf[74..78], &crc.to_le_bytes(), "{kind:?}/{conn:?} CRC mismatch");
            }
            (PadKind::DualSense, ConnectionType::Usb) | (PadKind::DualSenseEdge, ConnectionType::Usb) => {
                assert_eq!((buf[3], buf[4]), (127, 63));
                assert_eq!(&buf[45..48], &led);
            }
            _ => {
                assert_eq!((buf[4], buf[5]), (127, 63));
                assert_eq!(&buf[46..49], &led);
                let crc = crc32(&[0xA2], &buf[..74]);
                assert_eq!(&buf[74..78], &crc.to_le_bytes());
            }
        }
    }
    let buf = build_output_report(PadKind::DualSense, ConnectionType::Usb, [0, 0, 0], (motor(-3.0), motor(2.0)))
        .unwrap();
    assert_eq!((buf[3], buf[4]), (0, 255));
    assert!(build_output_report(PadKind::XInput, ConnectionType::Usb, led, rumble).is_none());
    assert!(build_output_report(PadKind::Generic, ConnectionType::Bluetooth, led, rumble).is_none());
}

#[test]
fn fuzz_crc32_never_panics_on_random_bytes() {
    let mut rng = SplitMix64(0xC0DE_BA5E);
    for i in 0..10_000usize {
        let seed_len = (rng.next() % 5) as usize;
        let data_len = (rng.next() % 129) as usize;
        let mut seed = vec![0u8; seed_len];
        let mut data = vec![0u8; data_len];
        rand_buf(&mut rng, &mut seed, false);
        rand_buf(&mut rng, &mut data, false);
        let crc = crc32(&seed, &data);
        assert_eq!(crc, crc32(&seed, &data), "CRC not deterministic at {i}");
    }
    assert_eq!(crc32(&[], &[]), crc32(&[], &[]));
    let mut rng = SplitMix64(0x1234);
    for _ in 0..500usize {
        let mut seed = vec![0u8; (rng.next() % 16) as usize];
        let mut data = vec![0u8; (rng.next() % 32) as usize];
        rand_buf(&mut rng, &mut seed, false);
        rand_buf(&mut rng, &mut data, false);
        let mut joined = seed.clone();
        joined.extend_from_slice(&data);
        assert_eq!(crc32(&seed, &data), crc32(&[], &joined));
    }
}

#[test]
fn crc_of_empty_input_is_zero() {
    assert_eq!(crc32(&[], &[]), 0);
    assert_eq!(crc32(b"1234", b"56789"), 0xCBF4_3926);
}

#[test]
fn bluetooth_output_report_changes_with_the_led() {
    let a = build_output_report(PadKind::DualShock4, ConnectionType::Bluetooth, [1, 2, 3], (0, 0)).unwrap();
    let b = build_output_report(PadKind::DualShock4, ConnectionType::Bluetooth, [1, 2, 4], (0, 0)).unwrap();
    assert_ne!(&a[74..78], &b[74..78]);
    assert_eq!(&a[1..4], &[0xC0, 0x20, 0xF7]);
}

// ---------------------------------------------------------------------------
// Button remapping
// ---------------------------------------------------------------------------

#[test]
fn remap_identity_preserves_mask() {
    let map = identity_map();
    let mask = buttons::CROSS | buttons::TRIANGLE | buttons::L1 | buttons::PS;
    assert_eq!(remap_buttons(mask, &map), mask);
}

#[test]
fn remap_swaps_cross_and_circle() {
    let mut map = identity_map();
    map[0] = 1;
    map[1] = 0;
    assert_eq!(remap_buttons(buttons::CROSS, &map), buttons::CIRCLE);
    assert_eq!(remap_buttons(buttons::CIRCLE, &map), buttons::CROSS);
    assert_eq!(remap_buttons(buttons::CROSS | buttons::CIRCLE, &map), buttons::CROSS | buttons::CIRCLE);
}

#[test]
fn remap_preserves_unmapped_buttons() {
    let mut map = identity_map();
    map[0] = 1;
    let out = remap_buttons(buttons::CROSS | buttons::R1 | buttons::L3, &map);
    assert_eq!(out, buttons::CIRCLE | buttons::R1 | buttons::L3);
}

#[test]
fn remap_non_xinput_source_onto_a() {
    let mut map = identity_map();
    map[13] = 0;
    assert_eq!(remap_buttons(buttons::TOUCHPAD, &map), buttons::CROSS);
    assert_eq!(remap_buttons(buttons::TOUCHPAD, &map) & buttons::TOUCHPAD, 0);
}

#[test]
fn remap_masks_target_bit_into_16() {
    let mut map = identity_map();
    map[0] = 16;
    assert_eq!(remap_buttons(buttons::CROSS, &map), buttons::CROSS);
    map[0] = 31;
    assert_eq!(remap_buttons(buttons::CROSS, &map), 1 << 15);
}

#[test]
fn remap_multiple_sources_can_share_a_target() {
    let mut map = identity_map();
    map[4] = 0;
    map[5] = 0;
    assert_eq!(remap_buttons(buttons::L1 | buttons::R1, &map), buttons::CROSS);
}

#[test]
fn remap_drops_bits_above_the_sixteen_sources() {
    let map = identity_map();
    assert_eq!(remap_buttons(1 << 20 | buttons::CROSS, &map), buttons::CROSS);
    assert_eq!(remap_buttons(0xFFFF_FFFF, &map), 0xFFFF);
}

#[test]
fn remap_of_a_union_is_the_union_of_remaps() {
    let mut map = identity_map();
    map[2] = 9;
    map[7] = 3;
    let a = buttons::SQUARE | buttons::L3;
    let b = buttons::R2 | buttons::PS;
    assert_eq!(remap_buttons(a | b, &map), remap_buttons(a, &map) | remap_buttons(b, &map));
}

// ---------------------------------------------------------------------------
// XInput button word
// ---------------------------------------------------------------------------

#[test]
fn xinput_buttons_map_face_buttons_and_dpad() {
    // A = 0x1000, B = 0x2000, X = 0x4000, Y = 0x8000; dpad 1 = up + right.
    let b = xinput_buttons(buttons::CROSS | buttons::CIRCLE | buttons::SQUARE | buttons::TRIANGLE, 1);
    assert_eq!(b, 0x1000 | 0x2000 | 0x4000 | 0x8000 | 0x0001 | 0x0008);
    // Guide, Back, Start, bumpers and thumbs; dpad 8 = neutral.
    let b = xinput_buttons(
        buttons::PS | buttons::SHARE | buttons::OPTIONS | buttons::L1 | buttons::R1 | buttons::L3 | buttons::R3,
        8,
    );
    assert_eq!(b, 0x0400 | 0x0020 | 0x0010 | 0x0100 | 0x0200 | 0x0040 | 0x0080);
    // Triggers, touchpad and mute have no XInput button.
    assert_eq!(xinput_buttons(buttons::L2 | buttons::R2 | buttons::TOUCHPAD | buttons::MUTE, 15), 0);
    assert_eq!(xinput_buttons(0, 5), 0x0002 | 0x0004);
}

// ---------------------------------------------------------------------------
// Input report parsing
// ---------------------------------------------------------------------------

const CENTRE: f32 = 0.5 / 127.5;

#[test]
fn parse_ds4_usb_sticks_triggers_and_buttons() {
    let mut buf = [0u8; 64];
    buf[0] = 0x01;
    buf[1] = 255;
    buf[2] = 0;
    buf[3] = 0;
    buf[4] = 255;
    let s = parse_ds4(&buf, false).expect("64-byte USB report must parse");
    assert!((axis(s.lx) - 1.0).abs() < 1e-4);
    assert!((axis(s.ly) - 1.0).abs() < 1e-4);
    assert!((axis(s.rx) + 1.0).abs() < 1e-4);
    assert!((axis(s.ry) + 1.0).abs() < 1e-4);
    buf[8] = 255;
    let s = parse_ds4(&buf, false).unwrap();
    assert!((trigger(s.l2) - 1.0).abs() < 1e-4);
    assert_eq!(trigger(s.r2), 0.0);
    buf[5] = 0x20;
    buf[6] = 0x80;
    buf[7] = 0x01;
    let s = parse_ds4(&buf, false).unwrap();
    assert_eq!(s.buttons, buttons::CROSS | buttons::R3 | buttons::PS);
    assert_eq!(s.dpad, 0);
}

#[test]
fn parse_ds4_usb_all_buttons() {
    let mut buf = [0u8; 64];
    buf[0] = 0x01;
    buf[5] = 0x10 | 0x20 | 0x40 | 0x80;
    buf[6] = 0x01 | 0x02 | 0x04 | 0x08 | 0x10 | 0x20 | 0x40 | 0x80;
    buf[7] = 0x01 | 0x02;
    let s = parse_ds4(&buf, false).unwrap();
    assert_eq!(
        s.buttons,
        buttons::SQUARE
            | buttons::CROSS
            | buttons::CIRCLE
            | buttons::TRIANGLE
            | buttons::L1
            | buttons::R1
            | buttons::L2
            | buttons::R2
            | buttons::SHARE
            | buttons::OPTIONS
            | buttons::L3
            | buttons::R3
            | buttons::PS
            | buttons::TOUCHPAD
    );
}

#[test]
fn parse_ds4_usb_battery_and_charging() {
    let mut buf = [0u8; 64];
    buf[0] = 0x01;
    buf[30] = 0x10 | 0x0A;
    let s = parse_ds4(&buf, false).unwrap();
    assert!(s.charging);
    assert_eq!(s.battery, 90);
    buf[30] = 0x08;
    let s = parse_ds4(&buf, false).unwrap();
    assert!(!s.charging);
    assert_eq!(s.battery, 100);
}

#[test]
fn parse_ds4_motion_block() {
    let mut buf = [0u8; 64];
    buf[0] = 0x01;
    buf[13] = 0x00;
    buf[14] = 0x04;
    buf[15] = 0x00;
    buf[16] = 0xFC;
    buf[17] = 0x00;
    buf[18] = 0x00;
    buf[19] = 0x00;
    buf[20] = 0x20;
    buf[21] = 0x00;
    buf[22] = 0x00;
    buf[23] = 0x00;
    buf[24] = 0xE0;
    let s = parse_ds4(&buf, false).unwrap();
    let g = gyro(&s);
    let a = accel(&s);
    assert!((g[0] - 1.0).abs() < 1e-3);
    assert!((g[1] + 1.0).abs() < 1e-3);
    assert!(g[2].abs() < 1e-3);
    assert!((a[0] - 1.0).abs() < 1e-3);
    assert!((a[2] + 1.0).abs() < 1e-3, "accel z must be -1.0");
}

#[test]
fn parse_ds4_touchpad_active_and_inactive() {
    let mut buf = [0u8; 64];
    buf[0] = 0x01;
    buf[35] = 0x00;
    buf[36] = 0xBF;
    buf[37] = 0x73;
    buf[38] = 0x1D;
    buf[39] = 0x80;
    let s = parse_ds4(&buf, false).unwrap();
    assert_eq!(s.touch_count, 1);
    let t = touch(&s, 0);
    assert!((t[0] - 959.0 / 1919.0).abs() < 1e-4);
    assert!((t[1] - 471.0 / 942.0).abs() < 1e-4);
    buf[35] = 0x80;
    let s = parse_ds4(&buf, false).unwrap();
    assert_eq!(s.touch_count, 0);
}

#[test]
fn parse_ds4_neutral_centre_and_idle_dpad() {
    let mut buf = [0u8; 64];
    buf[0] = 0x01;
    buf[1] = 128;
    buf[2] = 128;
    buf[3] = 128;
    buf[4] = 128;
    buf[5] = 0x08;
    let s = parse_ds4(&buf, false).unwrap();
    assert!((axis(s.lx) - CENTRE).abs() < 1e-4);
    assert!((axis(s.ly) + CENTRE).abs() < 1e-4);
    assert_eq!(s.buttons, 0);
    assert_eq!(s.dpad, 8);
}

#[test]
fn parse_ds4_bluetooth_offset() {
    let mut buf = [0u8; 78];
    buf[0] = 0x11;
    buf[3] = 255;
    buf[4] = 255;
    buf[5] = 0;
    buf[6] = 0;
    let s = parse_ds4(&buf, true).unwrap();
    assert!((axis(s.lx) - 1.0).abs() < 1e-4);
    assert!((axis(s.ly) + 1.0).abs() < 1e-4);
    assert!((axis(s.rx) + 1.0).abs() < 1e-4);
    assert!((axis(s.ry) - 1.0).abs() < 1e-4);
    buf[10] = 255;
    buf[32] = 0x10 | 0x0B;
    let s = parse_ds4(&buf, true).unwrap();
    assert!((trigger(s.l2) - 1.0).abs() < 1e-4);
    assert!(s.charging);
    assert_eq!(s.battery, 100);
}

#[test]
fn parse_ds4_short_and_minimal_buffers() {
    assert!(parse_ds4(&[0u8; 9], false).is_none());
    assert!(parse_ds4(&[0u8; 11], true).is_none());
    let mut buf = [0u8; 10];
    buf[0] = 0x01;
    let s = parse_ds4(&buf, false).expect("10-byte USB report must parse");
    assert_eq!(s.battery, -1);
    assert_eq!(gyro(&s), [0.0, 0.0, 0.0]);
    assert_eq!(s.touch_count, 0);
}

#[test]
fn parse_dualsense_usb_full_layout() {
    let mut buf = [0u8; 64];
    buf[0] = 0x01;
    buf[1] = 255;
    buf[2] = 0;
    buf[3] = 0;
    buf[4] = 255;
    buf[5] = 255;
    buf[6] = 128;
    buf[8] = 0x40 | 0x06;
    buf[9] = 0x01;
    buf[10] = 0x04;
    let s = parse_dualsense(&buf, false).unwrap();
    assert!((axis(s.lx) - 1.0).abs() < 1e-4);
    assert!((axis(s.ly) - 1.0).abs() < 1e-4);
    assert!((axis(s.rx) + 1.0).abs() < 1e-4);
    assert!((axis(s.ry) + 1.0).abs() < 1e-4);
    assert!((trigger(s.l2) - 1.0).abs() < 1e-4);
    assert!((trigger(s.r2) - 128.0 / 255.0).abs() < 1e-4);
    assert_eq!(s.buttons, buttons::CIRCLE | buttons::L1 | buttons::MUTE);
    assert_eq!(s.dpad, 6);
}

#[test]
fn parse_dualsense_usb_all_buttons() {
    let mut buf = [0u8; 64];
    buf[0] = 0x01;
    buf[8] = 0x10 | 0x20 | 0x40 | 0x80;
    buf[9] = 0x01 | 0x02 | 0x04 | 0x08 | 0x10 | 0x20 | 0x40 | 0x80;
    buf[10] = 0x01 | 0x02 | 0x04;
    let s = parse_dualsense(&buf, false).unwrap();
    assert_eq!(
        s.buttons,
        buttons::SQUARE
            | buttons::CROSS
            | buttons::CIRCLE
            | buttons::TRIANGLE
            | buttons::L1
            | buttons::R1
            | buttons::L2
            | buttons::R2
            | buttons::SHARE
            | buttons::OPTIONS
            | buttons::L3
            | buttons::R3
            | buttons::PS
            | buttons::TOUCHPAD
            | buttons::MUTE
    );
}

#[test]
fn parse_dualsense_motion_and_battery() {
    let mut buf = [0u8; 64];
    buf[0] = 0x01;
    buf[16] = 0x00;
    buf[17] = 0x04;
    buf[18] = 0x00;
    buf[19] = 0xFC;
    buf[20] = 0x00;
    buf[21] = 0x00;
    buf[22] = 0x00;
    buf[23] = 0x20;
    buf[24] = 0x00;
    buf[25] = 0x00;
    buf[26] = 0x00;
    buf[27] = 0xE0;
    let s = parse_dualsense(&buf, false).unwrap();
    let g = gyro(&s);
    let a = accel(&s);
    assert!((g[0] - 1.0).abs() < 1e-3);
    assert!((g[1] + 1.0).abs() < 1e-3);
    assert!((a[0] - 1.0).abs() < 1e-3);
    assert!((a[2] + 1.0).abs() < 1e-3, "accel z must be -1.0");
    buf[53] = 0x10 | 0x08;
    let s = parse_dualsense(&buf, false).unwrap();
    assert!(s.charging);
    assert_eq!(s.battery, 100);
    buf[53] = 0x08;
    let s = parse_dualsense(&buf, false).unwrap();
    assert!(!s.charging);
    assert_eq!(s.battery, 100);
}

#[test]
fn parse_dualsense_bluetooth_offset_and_touch() {
    let mut buf = [0u8; 78];
    buf[0] = 0x31;
    buf[2] = 255;
    buf[3] = 0;
    buf[4] = 0;
    buf[5] = 255;
    let s = parse_dualsense(&buf, true).unwrap();
    assert!((axis(s.lx) - 1.0).abs() < 1e-4);
    assert!((axis(s.ly) - 1.0).abs() < 1e-4);
    let mut buf = [0u8; 78];
    buf[0] = 0x31;
    buf[34] = 0x00;
    buf[35] = 0xBF;
    buf[36] = 0x73;
    buf[37] = 0x1D;
    buf[38] = 0x80;
    let s = parse_dualsense(&buf, true).unwrap();
    assert_eq!(s.touch_count, 1);
    let t = touch(&s, 0);
    assert!((t[0] - 959.0 / 1919.0).abs() < 1e-4);
    assert!((t[1] - 471.0 / 1079.0).abs() < 1e-4);
}

#[test]
fn parse_dualsense_short_and_truncated() {
    assert!(parse_dualsense(&[0u8; 9], false).is_none());
    assert!(parse_dualsense(&[0u8; 10], false).is_none());
    assert!(parse_dualsense(&[0u8; 10], true).is_none());
    assert!(parse_dualsense(&[0u8; 11], true).is_none());
    let mut buf = [0u8; 11];
    buf[0] = 0x01;
    let s = parse_dualsense(&buf, false).expect("11-byte USB report must parse");
    assert_eq!(s.battery, -1);
    assert_eq!(gyro(&s), [0.0, 0.0, 0.0]);
    assert_eq!(s.touch_count, 0);
}

#[test]
fn parse_dualsense_motion_floor_is_exact() {
    let s = parse_dualsense(&[0u8; 26], false).expect("26-byte USB report must parse");
    assert_eq!(gyro(&s), [0.0, 0.0, 0.0]);
    assert!(parse_dualsense(&[0u8; 27], true).is_some());
    let mut buf = [0u8; 27];
    buf[0] = 0x01;
    let s = parse_dualsense(&buf, false).expect("27-byte USB report must parse");
    assert_eq!(gyro(&s), [0.0, 0.0, 0.0]);
    assert_eq!(accel(&s), [0.0, 0.0, 0.0]);
}

#[test]
fn fuzz_parsers_never_panic_on_random_buffers() {
    for t in 0..8u64 {
        let mut rng = SplitMix64(0xF00D_5EED_u64.wrapping_add(t));
        for i in 0..6250usize {
            let len = match i % 7 {
                0..=4 => (rng.next() % 79) as usize,
                5 => 64,
                _ => 96,
            };
            let mut buf = vec![0u8; len];
            rand_buf(&mut rng, &mut buf, i % 2 == 0);
            for which in 0..4 {
                let _ = parse(which, &buf);
            }
        }
    }
}

#[test]
fn fuzz_parsers_keep_outputs_in_valid_ranges() {
    let mut rng = SplitMix64(0xC0FF_EE);
    for i in 0..20_000usize {
        let mut buf = vec![0u8; 78];
        rand_buf(&mut rng, &mut buf, i % 2 == 0);
        for which in 0..4 {
            if let Some(s) = parse(which, &buf) {
                assert!(s.battery >= -1 && s.battery <= 100, "battery {}", s.battery);
                for &g in &gyro(&s) {
                    assert!(g.is_finite() && g.abs() <= 32.0, "gyro {g}");
                }
                for &a in &accel(&s) {
                    assert!(a.is_finite() && a.abs() <= 32.0, "accel {a}");
                }
                for &v in &[axis(s.lx), axis(s.ly), axis(s.rx), axis(s.ry), trigger(s.l2), trigger(s.r2)] {
                    assert!(v.is_finite() && (-1.0..=1.0).contains(&v), "axis {v}");
                }
                assert!(s.touch_count <= 2, "touch_count {}", s.touch_count);
                for f in 0..2 {
                    let t = touch(&s, f);
                    assert!(t[0].is_finite() && (0.0..=1.0).contains(&t[0]));
                    assert!(t[1].is_finite() && (0.0..=1.0).contains(&t[1]));
                }
            }
        }
    }
}

#[test]
fn input_reports_pick_their_layout_by_report_id() {
    // A DualShock 4 on USB that sends a Bluetooth-layout report 0x11.
    let mut buf = [0u8; 78];
    buf[0] = 0x11;
    buf[3] = 255;
    let s = parse_input_report(PadKind::DualShock4, ConnectionType::Usb, &buf).unwrap();
    assert_eq!(s.lx, 255);
    // An unknown id falls back to the transport's layout.
    buf[0] = 0x55;
    let s = parse_input_report(PadKind::DualShock4, ConnectionType::Bluetooth, &buf).unwrap();
    assert_eq!(s.lx, 255);
    let s = parse_input_report(PadKind::DualShock4, ConnectionType::Usb, &buf).unwrap();
    assert_eq!(s.lx, -255);
    // DualSense 0x31 is the Bluetooth layout (data at offset 2).
    let mut buf = [0u8; 78];
    buf[0] = 0x31;
    buf[2] = 255;
    let s = parse_input_report(PadKind::DualSenseEdge, ConnectionType::Usb, &buf).unwrap();
    assert_eq!(s.lx, 255);
    // A generic pad is tried as a DualShock 4 first, then as a DualSense.
    let s = parse_input_report(PadKind::Generic, ConnectionType::Usb, &[0x01u8; 10]).unwrap();
    assert_eq!(s.touch_y_max, 942);
    assert!(parse_input_report(PadKind::Generic, ConnectionType::Usb, &[0x01u8; 9]).is_none());
}

#[test]
fn pad_families_from_ids() {
    assert_eq!(PadKind::from_ids(0x054C, 0x05C4), PadKind::DualShock4);
    assert_eq!(PadKind::from_ids(0x054C, 0x09CC), PadKind::DualShock4);
    assert_eq!(PadKind::from_ids(0x054C, 0x0BA0), PadKind::DualShock4);
    assert_eq!(PadKind::from_ids(0x054C, 0x0CE6), PadKind::DualSense);
    assert_eq!(PadKind::from_ids(0x054C, 0x0DF2), PadKind::DualSenseEdge);
    assert_eq!(PadKind::from_ids(0x045E, 0x0CE6), PadKind::Generic);
    assert_eq!(PadKind::DualSenseEdge.label(), "DualSense Edge");
    assert_eq!(PadKind::Generic.label(), "Generic HID Pad");
    assert!(PadKind::DualShock4.has_lightbar());
    assert!(!PadKind::XInput.has_lightbar());
}
