use vstd::prelude::*;
use crate::pad::{ConnectionType, PadKind};
use crate::buttons::{
    CIRCLE, CROSS, L1, L2, L3, MUTE, OPTIONS, PS, R1, R2, R3, SHARE, SQUARE, TOUCHPAD, TRIANGLE,
};

verus! {

/// Largest horizontal touchpad coordinate (both pad families).
pub const TOUCH_X_MAX: u16 = 1919;
/// Largest vertical touchpad coordinate on a DualShock 4.
pub const DS4_TOUCH_Y_MAX: u16 = 942;
/// Largest vertical touchpad coordinate on a DualSense / DualSense Edge.
pub const DUALSENSE_TOUCH_Y_MAX: u16 = 1079;

/// One decoded input report, in the integer units the pads send.
///
/// * Sticks are in half steps: `lx / 255` is the normalised deflection in
///   `-1.0..=1.0` (raw byte `b` maps to `2 * b - 255`; Y axes are flipped so
///   that up is positive).
/// * Triggers are the raw `0..=255` bytes.
/// * Gyro / accelerometer are the raw signed 16-bit samples (1024 per rate
///   unit, 8192 per g).
/// * Touch points are clamped to `TOUCH_X_MAX` / `touch_y_max`.
/// * `battery` is a percentage, `-1` when the report carries no gauge.
#[derive(Debug, Clone, Copy)]
pub struct RawReport {
    pub lx: i16,
    pub ly: i16,
    pub rx: i16,
    pub ry: i16,
    pub l2: u8,
    pub r2: u8,
    pub buttons: u32,
    pub dpad: u8,
    pub battery: i16,
    pub charging: bool,
    pub gyro: [i16; 3],
    pub accel: [i16; 3],
    pub touch: [[u16; 2]; 2],
    pub touch_count: u8,
    pub touch_y_max: u16,
}

/// Signed little-endian 16-bit value of two bytes.
pub open spec fn spec_le_i16(lo: u8, hi: u8) -> i16 {
    if hi >= 128 {
        (lo + 256 * hi - 65536) as i16
    } else {
        (lo + 256 * hi) as i16
    }
}

/// Reads the signed little-endian 16-bit value at `b[i..i + 2]`.
pub fn le_i16(b: &[u8], i: usize) -> (v: i16)
    requires
        i + 1 < b@.len(),
    ensures
        v == spec_le_i16(b@[i as int], b@[i + 1]),
{
    let lo = b[i] as i32;
    let hi = b[i + 1] as i32;
    if hi >= 128 {
        (lo + 256 * hi - 65536) as i16
    } else {
        (lo + 256 * hi) as i16
    }
}

/// Stick byte in half steps, `0 -> -255`, `255 -> 255`.
pub open spec fn axis(b: u8) -> i16 {
    (2 * b - 255) as i16
}

/// Flipped stick byte (for Y axes, up is positive).
pub open spec fn flipped_axis(b: u8) -> i16 {
    (255 - 2 * b) as i16
}

/// `btn` when any bit of `bit` is set in `b`.
pub open spec fn flag(b: u8, bit: u8, btn: u32) -> u32 {
    if b & bit != 0 {
        btn
    } else {
        0
    }
}

/// PS button mask from the three button bytes. `mute` selects whether bit 2
/// of the third byte (the DualSense microphone button) is decoded.
pub open spec fn ps_buttons(b1: u8, b2: u8, b3: u8, mute: bool) -> u32 {
    flag(b1, 0x10, SQUARE) | flag(b1, 0x20, CROSS) | flag(b1, 0x40, CIRCLE) | flag(b1, 0x80, TRIANGLE)
        | flag(b2, 0x01, L1) | flag(b2, 0x02, R1) | flag(b2, 0x04, L2) | flag(b2, 0x08, R2)
        | flag(b2, 0x10, SHARE) | flag(b2, 0x20, OPTIONS) | flag(b2, 0x40, L3) | flag(b2, 0x80, R3)
        | flag(b3, 0x01, PS) | flag(b3, 0x02, TOUCHPAD) | (if mute { flag(b3, 0x04, MUTE) } else { 0 })
}


/// Each PS button bit of the decoded mask is set exactly when its raw bit is
/// set, and no bit above the 15 PS buttons is ever set.
pub proof fn lemma_ps_buttons_bits(b1: u8, b2: u8, b3: u8, mute: bool)
    by (bit_vector)
    ensures
        ({
            let m = ps_buttons(b1, b2, b3, mute);
            &&& (m & SQUARE != 0) == (b1 & 0x10 != 0)
            &&& (m & CROSS != 0) == (b1 & 0x20 != 0)
            &&& (m & CIRCLE != 0) == (b1 & 0x40 != 0)
            &&& (m & TRIANGLE != 0) == (b1 & 0x80 != 0)
            &&& (m & L1 != 0) == (b2 & 0x01 != 0)
            &&& (m & R1 != 0) == (b2 & 0x02 != 0)
            &&& (m & L2 != 0) == (b2 & 0x04 != 0)
            &&& (m & R2 != 0) == (b2 & 0x08 != 0)
            &&& (m & SHARE != 0) == (b2 & 0x10 != 0)
            &&& (m & OPTIONS != 0) == (b2 & 0x20 != 0)
            &&& (m & L3 != 0) == (b2 & 0x40 != 0)
            &&& (m & R3 != 0) == (b2 & 0x80 != 0)
            &&& (m & PS != 0) == (b3 & 0x01 != 0)
            &&& (m & TOUCHPAD != 0) == (b3 & 0x02 != 0)
            &&& (m & MUTE != 0) == (mute && b3 & 0x04 != 0)
            &&& m < 32768
        }),
{
}

fn buttons_exec(b1: u8, b2: u8, b3: u8, mute: bool) -> (m: u32)
    ensures
        m == ps_buttons(b1, b2, b3, mute),
{
    (if b1 & 0x10 != 0 { SQUARE } else { 0 }) | (if b1 & 0x20 != 0 { CROSS } else { 0 }) | (if b1
        & 0x40 != 0 {
        CIRCLE
    } else {
        0
    }) | (if b1 & 0x80 != 0 { TRIANGLE } else { 0 }) | (if b2 & 0x01 != 0 { L1 } else { 0 }) | (if b2
        & 0x02 != 0 {
        R1
    } else {
        0
    }) | (if b2 & 0x04 != 0 { L2 } else { 0 }) | (if b2 & 0x08 != 0 { R2 } else { 0 }) | (if b2
        & 0x10 != 0 {
        SHARE
    } else {
        0
    }) | (if b2 & 0x20 != 0 { OPTIONS } else { 0 }) | (if b2 & 0x40 != 0 { L3 } else { 0 }) | (if b2
        & 0x80 != 0 {
        R3
    } else {
        0
    }) | (if b3 & 0x01 != 0 { PS } else { 0 }) | (if b3 & 0x02 != 0 { TOUCHPAD } else { 0 }) | (
    if mute {
        if b3 & 0x04 != 0 {
            MUTE
        } else {
            0
        }
    } else {
        0
    })
}

/// Unpacked 12-bit touch coordinates of the finger record at `p`, clamped.
pub open spec fn touch_point(buf: Seq<u8>, p: int, y_max: u16) -> [u16; 2] {
    let x = (buf[p + 2] & 0x0F) * 256 + buf[p + 1];
    let y = buf[p + 3] * 16 + (buf[p + 2] & 0xF0) / 16;
    [
        (if x > TOUCH_X_MAX { TOUCH_X_MAX as int } else { x }) as u16,
        (if y > y_max { y_max as int } else { y }) as u16,
    ]
}

/// A finger record is active when bit 7 of its first byte is clear.
pub open spec fn finger_active(buf: Seq<u8>, p: int) -> bool {
    buf[p] & 0x80 == 0
}

/// The touchpad block (two finger records of 4 bytes at `base`): the points
/// (an inactive slot stays `[0, 0]`) and the number of active fingers.
pub open spec fn touch_block(buf: Seq<u8>, base: int, y_max: u16) -> ([[u16; 2]; 2], u8) {
    let a0 = finger_active(buf, base);
    let a1 = finger_active(buf, base + 4);
    (
        [
            if a0 { touch_point(buf, base, y_max) } else { [0u16, 0u16] },
            if a1 { touch_point(buf, base + 4, y_max) } else { [0u16, 0u16] },
        ],
        ((if a0 { 1u8 } else { 0u8 }) + (if a1 { 1u8 } else { 0u8 })) as u8,
    )
}

/// Three little-endian signed 16-bit samples at `at`.
pub open spec fn triple_i16(buf: Seq<u8>, at: int) -> [i16; 3] {
    [
        spec_le_i16(buf[at], buf[at + 1]),
        spec_le_i16(buf[at + 2], buf[at + 3]),
        spec_le_i16(buf[at + 4], buf[at + 5]),
    ]
}

/// DualShock 4 battery byte: level nibble 0..=11 with cable (bit 4), else 0..=8.
pub open spec fn ds4_battery(raw: u8) -> i16 {
    let level = raw & 0x0F;
    if raw & 0x10 != 0 {
        ((if level > 11 { 11 } else { level as int }) * 100 / 11) as i16
    } else {
        ((if level > 8 { 8 } else { level as int }) * 100 / 8) as i16
    }
}

/// DualSense status byte: level nibble 0..=8, charge state in the high nibble.
pub open spec fn dualsense_battery(status: u8) -> i16 {
    let level = status & 0x0F;
    ((if level > 8 { 8 } else { level as int }) * 100 / 8) as i16
}

pub open spec fn dualsense_charging(status: u8) -> bool {
    let state = (status & 0xF0) / 16;
    state == 1 || state == 2
}

/// DualShock 4 — USB report `0x01` (data at 1) / Bluetooth report `0x11`
/// (data at 3).
pub open spec fn spec_parse_ds4(buf: Seq<u8>, bt: bool) -> Option<RawReport> {
    let o: int = if bt { 3 } else { 1 };
    if buf.len() < o + 9 {
        None
    } else {
        let motion = buf.len() >= o + 25;
        let has_battery = buf.len() >= o + 30;
        let has_touch = buf.len() >= o + 42;
        let t = touch_block(buf, o + 34, DS4_TOUCH_Y_MAX);
        Some(
            RawReport {
                lx: axis(buf[o]),
                ly: flipped_axis(buf[o + 1]),
                rx: axis(buf[o + 2]),
                ry: flipped_axis(buf[o + 3]),
                l2: buf[o + 7],
                r2: buf[o + 8],
                buttons: ps_buttons(buf[o + 4], buf[o + 5], buf[o + 6], false),
                dpad: buf[o + 4] & 0x0F,
                battery: if has_battery { ds4_battery(buf[o + 29]) } else { -1i16 },
                charging: has_battery && buf[o + 29] & 0x10 != 0,
                gyro: if motion { triple_i16(buf, o + 12) } else { [0i16, 0i16, 0i16] },
                accel: if motion { triple_i16(buf, o + 18) } else { [0i16, 0i16, 0i16] },
                touch: if has_touch { t.0 } else { [[0u16, 0u16], [0u16, 0u16]] },
                touch_count: if has_touch { t.1 } else { 0 },
                touch_y_max: DS4_TOUCH_Y_MAX,
            },
        )
    }
}

/// DualSense / DualSense Edge — USB report `0x01` (data at 1) / Bluetooth
/// report `0x31` (data at 2).
pub open spec fn spec_parse_dualsense(buf: Seq<u8>, bt: bool) -> Option<RawReport> {
    let o: int = if bt { 2 } else { 1 };
    if buf.len() < o + 10 {
        None
    } else {
        let motion = buf.len() >= o + 27;
        let has_touch = buf.len() >= o + 42;
        let has_status = buf.len() > o + 52;
        let t = touch_block(buf, o + 32, DUALSENSE_TOUCH_Y_MAX);
        Some(
            RawReport {
                lx: axis(buf[o]),
                ly: flipped_axis(buf[o + 1]),
                rx: axis(buf[o + 2]),
                ry: flipped_axis(buf[o + 3]),
                l2: buf[o + 4],
                r2: buf[o + 5],
                buttons: ps_buttons(buf[o + 7], buf[o + 8], buf[o + 9], true),
                dpad: buf[o + 7] & 0x0F,
                battery: if has_status { dualsense_battery(buf[o + 52]) } else { -1i16 },
                charging: has_status && dualsense_charging(buf[o + 52]),
                gyro: if motion { triple_i16(buf, o + 15) } else { [0i16, 0i16, 0i16] },
                accel: if motion { triple_i16(buf, o + 21) } else { [0i16, 0i16, 0i16] },
                touch: if has_touch { t.0 } else { [[0u16, 0u16], [0u16, 0u16]] },
                touch_count: if has_touch { t.1 } else { 0 },
                touch_y_max: DUALSENSE_TOUCH_Y_MAX,
            },
        )
    }
}

/// Every field of a decoded report lies in its physical range.
pub open spec fn report_in_range(s: RawReport) -> bool {
    &&& -255 <= s.lx <= 255 && -255 <= s.ly <= 255
    &&& -255 <= s.rx <= 255 && -255 <= s.ry <= 255
    &&& -1 <= s.battery <= 100
    &&& s.touch_count <= 2
    &&& s.touch[0][0] <= TOUCH_X_MAX && s.touch[1][0] <= TOUCH_X_MAX
    &&& s.touch[0][1] <= s.touch_y_max && s.touch[1][1] <= s.touch_y_max
}

fn read_touch(buf: &[u8], p: usize, y_max: u16) -> (t: [u16; 2])
    requires
        p + 3 < buf.len(),
    ensures
        t == touch_point(buf@, p as int, y_max),
{
    let x = ((buf[p + 2] & 0x0F) as u16) * 256 + buf[p + 1] as u16;
    let y = (buf[p + 3] as u16) * 16 + ((buf[p + 2] & 0xF0) / 16) as u16;
    let cx = if x > TOUCH_X_MAX { TOUCH_X_MAX } else { x };
    let cy = if y > y_max { y_max } else { y };
    [cx, cy]
}

fn read_touch_block(buf: &[u8], base: usize, y_max: u16) -> (r: ([[u16; 2]; 2], u8))
    requires
        base + 8 <= buf.len(),
    ensures
        r == touch_block(buf@, base as int, y_max),
{
    let a0 = buf[base] & 0x80 == 0;
    let a1 = buf[base + 4] & 0x80 == 0;
    let t0 = if a0 { read_touch(buf, base, y_max) } else { [0u16, 0u16] };
    let t1 = if a1 { read_touch(buf, base + 4, y_max) } else { [0u16, 0u16] };
    let n: u8 = (if a0 { 1u8 } else { 0u8 }) + (if a1 { 1u8 } else { 0u8 });
    ([t0, t1], n)
}

fn read_triple(buf: &[u8], at: usize) -> (r: [i16; 3])
    requires
        at + 6 <= buf.len(),
    ensures
        r == triple_i16(buf@, at as int),
{
    [le_i16(buf, at), le_i16(buf, at + 2), le_i16(buf, at + 4)]
}

/// Decodes a DualShock 4 input report; `None` when it is too short.
pub fn parse_ds4(buf: &[u8], bt: bool) -> (r: Option<RawReport>)
    ensures
        r == spec_parse_ds4(buf@, bt),
        r matches Some(s) ==> report_in_range(s),
{
    let o: usize = if bt { 3 } else { 1 };
    if buf.len() < o + 9 {
        return None;
    }
    let b1 = buf[o + 4];
    let b2 = buf[o + 5];
    let b3 = buf[o + 6];
    let motion = buf.len() >= o + 25;
    let gyro = if motion { read_triple(buf, o + 12) } else { [0i16, 0i16, 0i16] };
    let accel = if motion { read_triple(buf, o + 18) } else { [0i16, 0i16, 0i16] };
    let has_battery = buf.len() >= o + 30;
    let (battery, charging) = if has_battery {
        let raw = buf[o + 29];
        let level = (raw & 0x0F) as i32;
        if raw & 0x10 != 0 {
            ((if level > 11 { 11 } else { level }) * 100 / 11, true)
        } else {
            ((if level > 8 { 8 } else { level }) * 100 / 8, false)
        }
    } else {
        (-1i32, false)
    };
    let has_touch = buf.len() >= o + 42;
    let (touch, touch_count) = if has_touch {
        read_touch_block(buf, o + 34, DS4_TOUCH_Y_MAX)
    } else {
        ([[0u16, 0u16], [0u16, 0u16]], 0u8)
    };
    let s = RawReport {
        lx: 2 * (buf[o] as i16) - 255,
        ly: 255 - 2 * (buf[o + 1] as i16),
        rx: 2 * (buf[o + 2] as i16) - 255,
        ry: 255 - 2 * (buf[o + 3] as i16),
        l2: buf[o + 7],
        r2: buf[o + 8],
        buttons: buttons_exec(b1, b2, b3, false),
        dpad: b1 & 0x0F,
        battery: battery as i16,
        charging,
        gyro,
        accel,
        touch,
        touch_count,
        touch_y_max: DS4_TOUCH_Y_MAX,
    };
    Some(s)
}

/// Decodes a DualSense / DualSense Edge input report; `None` when it is too
/// short.
pub fn parse_dualsense(buf: &[u8], bt: bool) -> (r: Option<RawReport>)
    ensures
        r == spec_parse_dualsense(buf@, bt),
        r matches Some(s) ==> report_in_range(s),
{
    let o: usize = if bt { 2 } else { 1 };
    if buf.len() < o + 10 {
        return None;
    }
    let b1 = buf[o + 7];
    let b2 = buf[o + 8];
    let b3 = buf[o + 9];
    let motion = buf.len() >= o + 27;
    let gyro = if motion { read_triple(buf, o + 15) } else { [0i16, 0i16, 0i16] };
    let accel = if motion { read_triple(buf, o + 21) } else { [0i16, 0i16, 0i16] };
    let has_touch = buf.len() >= o + 42;
    let (touch, touch_count) = if has_touch {
        read_touch_block(buf, o + 32, DUALSENSE_TOUCH_Y_MAX)
    } else {
        ([[0u16, 0u16], [0u16, 0u16]], 0u8)
    };
    let has_status = buf.len() > o + 52;
    let (battery, charging) = if has_status {
        let status = buf[o + 52];
        let level = (status & 0x0F) as i32;
        let state = (status & 0xF0) / 16;
        ((if level > 8 { 8 } else { level }) * 100 / 8, state == 1 || state == 2)
    } else {
        (-1i32, false)
    };
    let s = RawReport {
        lx: 2 * (buf[o] as i16) - 255,
        ly: 255 - 2 * (buf[o + 1] as i16),
        rx: 2 * (buf[o + 2] as i16) - 255,
        ry: 255 - 2 * (buf[o + 3] as i16),
        l2: buf[o + 4],
        r2: buf[o + 5],
        buttons: buttons_exec(b1, b2, b3, true),
        dpad: b1 & 0x0F,
        battery: battery as i16,
        charging,
        gyro,
        accel,
        touch,
        touch_count,
        touch_y_max: DUALSENSE_TOUCH_Y_MAX,
    };
    Some(s)
}


/// Which decoder a pad's input report goes to. DualShock 4 reports `0x01`
/// and `0x11` (and DualSense reports `0x01` and `0x31`) name their own
/// layout (USB, Bluetooth); any other report id is read with the layout of
/// the pad's transport. Pads of another family are tried as a DualShock 4,
/// then as a DualSense.
pub open spec fn spec_parse_input_report(kind: PadKind, connection: ConnectionType, buf: Seq<u8>) -> Option<
    RawReport,
> {
    let bt = connection == ConnectionType::Bluetooth;
    let id = buf[0];
    match kind {
        PadKind::DualShock4 => spec_parse_ds4(
            buf,
            if id == 0x01 {
                false
            } else if id == 0x11 {
                true
            } else {
                bt
            },
        ),
        PadKind::DualSense | PadKind::DualSenseEdge => spec_parse_dualsense(
            buf,
            if id == 0x01 {
                false
            } else if id == 0x31 {
                true
            } else {
                bt
            },
        ),
        _ => match spec_parse_ds4(buf, bt) {
            Some(r) => Some(r),
            None => spec_parse_dualsense(buf, bt),
        },
    }
}

/// Decodes one input report read from a pad (the report id is its first
/// byte).
pub fn parse_input_report(kind: PadKind, connection: ConnectionType, buf: &[u8]) -> (r: Option<RawReport>)
    requires
        buf.len() >= 1,
    ensures
        r == spec_parse_input_report(kind, connection, buf@),
        r matches Some(s) ==> report_in_range(s),
{
    let bt = match connection {
        ConnectionType::Bluetooth => true,
        ConnectionType::Usb => false,
    };
    let id = buf[0];
    match kind {
        PadKind::DualShock4 => {
            let layout_bt = if id == 0x01 {
                false
            } else if id == 0x11 {
                true
            } else {
                bt
            };
            parse_ds4(buf, layout_bt)
        },
        PadKind::DualSense | PadKind::DualSenseEdge => {
            let layout_bt = if id == 0x01 {
                false
            } else if id == 0x31 {
                true
            } else {
                bt
            };
            parse_dualsense(buf, layout_bt)
        },
        _ => match parse_ds4(buf, bt) {
            Some(r) => Some(r),
            None => parse_dualsense(buf, bt),
        },
    }
}


/// Reports decode exactly from their length floor on: a DualShock 4 report
/// needs 10 bytes over USB and 12 over Bluetooth, a DualSense report 11 and
/// 12; anything shorter is refused.
pub proof fn lemma_parse_floors(buf: Seq<u8>)
    ensures
        spec_parse_ds4(buf, false) is Some <==> buf.len() >= 10,
        spec_parse_ds4(buf, true) is Some <==> buf.len() >= 12,
        spec_parse_dualsense(buf, false) is Some <==> buf.len() >= 11,
        spec_parse_dualsense(buf, true) is Some <==> buf.len() >= 12,
{
}


/// The battery and charge state of a DualSense report come from its status
/// byte `s` (data offset + 52), when the report is long enough to carry it:
/// the level is the low nibble capped at 8, as a percentage in eighths, and
/// the pad is charging exactly when the high nibble is 1 (charging) or 2
/// (fully charged on the cable). A shorter report has an unknown battery
/// and is not charging.
pub proof fn lemma_dualsense_status(buf: Seq<u8>, bt: bool)
    requires
        buf.len() >= (if bt { 12int } else { 11int }),
    ensures
        spec_parse_dualsense(buf, bt) is Some,
        ({
            let o: int = if bt { 2 } else { 1 };
            let r = spec_parse_dualsense(buf, bt)->0;
            &&& buf.len() > o + 52 ==> r.charging == (buf[o + 52] / 16 == 1 || buf[o + 52] / 16 == 2)
            &&& buf.len() > o + 52 ==> r.battery == (if buf[o + 52] % 16 >= 8 {
                100
            } else {
                buf[o + 52] % 16 * 100 / 8
            })
            &&& buf.len() <= o + 52 ==> !r.charging && r.battery == -1
        }),
{
    let o: int = if bt { 2 } else { 1 };
    if buf.len() > o + 52 {
        let st = buf[o + 52];
        assert((st & 0xF0) / 16 == st / 16 && st & 0x0F == st % 16) by (bit_vector);
    }
}

/// The battery and charge state of a DualShock 4 report come from its
/// battery byte `b` (data offset + 29), when the report is long enough to
/// carry it: the pad is charging exactly when bit 4 (0x10, the cable) is
/// set; the level is the low nibble capped at 11 on the cable and at 8 on
/// battery, as a percentage. A shorter report has an unknown battery and is
/// not charging.
pub proof fn lemma_ds4_battery(buf: Seq<u8>, bt: bool)
    requires
        buf.len() >= (if bt { 12int } else { 10int }),
    ensures
        spec_parse_ds4(buf, bt) is Some,
        ({
            let o: int = if bt { 3 } else { 1 };
            let r = spec_parse_ds4(buf, bt)->0;
            &&& buf.len() >= o + 30 ==> r.charging == (buf[o + 29] / 16 % 2 == 1)
            &&& buf.len() >= o + 30 && buf[o + 29] / 16 % 2 == 1 ==> r.battery == (if buf[o + 29] % 16 >= 11 {
                100
            } else {
                buf[o + 29] % 16 * 100 / 11
            })
            &&& buf.len() >= o + 30 && buf[o + 29] / 16 % 2 == 0 ==> r.battery == (if buf[o + 29] % 16 >= 8 {
                100
            } else {
                buf[o + 29] % 16 * 100 / 8
            })
            &&& buf.len() < o + 30 ==> !r.charging && r.battery == -1
        }),
{
    let o: int = if bt { 3 } else { 1 };
    if buf.len() >= o + 30 {
        let b = buf[o + 29];
        assert((b & 0x10 != 0) == (b / 16 % 2 == 1) && b & 0x0F == b % 16) by (bit_vector);
    }
}


/// Where a DualShock 4 report's fields sit (data offset `o`: 1 over USB, 3
/// over Bluetooth): sticks at `o..o+4` (byte `b` maps to `2b - 255`, Y axes
/// flipped), the d-pad hat in the low nibble of `o+4`, the button bytes at
/// `o+4..o+7`, the triggers at `o+7` (L2) and `o+8` (R2), and, in a report of
/// at least `o+25` bytes, the gyro at `o+12` and the accelerometer at `o+18`
/// as signed little-endian 16-bit samples.
pub proof fn lemma_ds4_layout(buf: Seq<u8>, bt: bool)
    requires
        buf.len() >= (if bt { 12int } else { 10int }),
    ensures
        spec_parse_ds4(buf, bt) is Some,
        ({
            let o: int = if bt { 3 } else { 1 };
            let r = spec_parse_ds4(buf, bt)->0;
            &&& r.lx == 2 * buf[o] - 255 && r.ly == 255 - 2 * buf[o + 1]
            &&& r.rx == 2 * buf[o + 2] - 255 && r.ry == 255 - 2 * buf[o + 3]
            &&& r.l2 == buf[o + 7] && r.r2 == buf[o + 8]
            &&& r.dpad == buf[o + 4] % 16
            &&& r.buttons == ps_buttons(buf[o + 4], buf[o + 5], buf[o + 6], false)
            &&& r.touch_y_max == 942
            &&& buf.len() >= o + 25 ==> forall|k: int|
                0 <= k < 3 ==> {
                    &&& #[trigger] r.gyro[k] == buf[o + 12 + 2 * k] + 256 * buf[o + 13 + 2 * k] - (if buf[o + 13
                        + 2 * k] >= 128 {
                        65536int
                    } else {
                        0
                    })
                    &&& r.accel[k] == buf[o + 18 + 2 * k] + 256 * buf[o + 19 + 2 * k] - (if buf[o + 19
                        + 2 * k] >= 128 {
                        65536int
                    } else {
                        0
                    })
                }
            &&& buf.len() < o + 25 ==> r.gyro == [0i16, 0i16, 0i16] && r.accel == [0i16, 0i16, 0i16]
        }),
{
    let o: int = if bt { 3 } else { 1 };
    let b = buf[o + 4];
    assert(b & 0x0F == b % 16) by (bit_vector);
}

/// Where a DualSense report's fields sit (data offset `o`: 1 over USB, 2
/// over Bluetooth): sticks at `o..o+4` (byte `b` maps to `2b - 255`, Y axes
/// flipped), the triggers at `o+4` (L2) and `o+5` (R2), the d-pad hat in the
/// low nibble of `o+7`, the button bytes at `o+7..o+10` (with the mute
/// button), and, in a report of at least `o+27` bytes, the gyro at `o+15`
/// and the accelerometer at `o+21` as signed little-endian 16-bit samples.
pub proof fn lemma_dualsense_layout(buf: Seq<u8>, bt: bool)
    requires
        buf.len() >= (if bt { 12int } else { 11int }),
    ensures
        spec_parse_dualsense(buf, bt) is Some,
        ({
            let o: int = if bt { 2 } else { 1 };
            let r = spec_parse_dualsense(buf, bt)->0;
            &&& r.lx == 2 * buf[o] - 255 && r.ly == 255 - 2 * buf[o + 1]
            &&& r.rx == 2 * buf[o + 2] - 255 && r.ry == 255 - 2 * buf[o + 3]
            &&& r.l2 == buf[o + 4] && r.r2 == buf[o + 5]
            &&& r.dpad == buf[o + 7] % 16
            &&& r.buttons == ps_buttons(buf[o + 7], buf[o + 8], buf[o + 9], true)
            &&& r.touch_y_max == 1079
            &&& buf.len() >= o + 27 ==> forall|k: int|
                0 <= k < 3 ==> {
                    &&& #[trigger] r.gyro[k] == buf[o + 15 + 2 * k] + 256 * buf[o + 16 + 2 * k] - (if buf[o + 16
                        + 2 * k] >= 128 {
                        65536int
                    } else {
                        0
                    })
                    &&& r.accel[k] == buf[o + 21 + 2 * k] + 256 * buf[o + 22 + 2 * k] - (if buf[o + 22
                        + 2 * k] >= 128 {
                        65536int
                    } else {
                        0
                    })
                }
            &&& buf.len() < o + 27 ==> r.gyro == [0i16, 0i16, 0i16] && r.accel == [0i16, 0i16, 0i16]
        }),
{
    let o: int = if bt { 2 } else { 1 };
    let b = buf[o + 7];
    assert(b & 0x0F == b % 16) by (bit_vector);
}


/// Which layout a report is read with: report id `0x01` is always the USB
/// layout; `0x11` (DualShock 4) and `0x31` (DualSense / DualSense Edge) are
/// always the Bluetooth layout; any other id is read with the layout of the
/// pad's connection.
pub proof fn lemma_input_report_layout(kind: PadKind, connection: ConnectionType, buf: Seq<u8>)
    requires
        buf.len() >= 1,
    ensures
        ({
            let r = spec_parse_input_report(kind, connection, buf);
            let bt = connection == ConnectionType::Bluetooth;
            let ds = kind == PadKind::DualSense || kind == PadKind::DualSenseEdge;
            &&& kind == PadKind::DualShock4 && buf[0] == 0x01 ==> r == spec_parse_ds4(buf, false)
            &&& kind == PadKind::DualShock4 && buf[0] == 0x11 ==> r == spec_parse_ds4(buf, true)
            &&& kind == PadKind::DualShock4 && buf[0] != 0x01 && buf[0] != 0x11 ==> r == spec_parse_ds4(buf, bt)
            &&& ds && buf[0] == 0x01 ==> r == spec_parse_dualsense(buf, false)
            &&& ds && buf[0] == 0x31 ==> r == spec_parse_dualsense(buf, true)
            &&& ds && buf[0] != 0x01 && buf[0] != 0x31 ==> r == spec_parse_dualsense(buf, bt)
        }),
{
}

} // verus!
