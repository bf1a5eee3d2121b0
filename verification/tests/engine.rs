use padflow::discovery::{connection_of, enumerate, record_for, stable_id, GamepadInfo, HidDeviceRecord};
use padflow::engine::{ids_contain, lists_pad, PadFlowEngine, MAX_PADS};
use padflow::pad::{ConnectionType, PadKind};
use padflow::poll::{
    any_filled, battery_led_colour, flip_bumpers, output_write_due, target_led, ui_snapshot_due,
    virtual_slots_to_fill, PollWindow,
};
use padflow::strmap::StrMap;
use padflow::poll::{touch_click, touch_gesture, TouchGesture};
use padflow::commands::check_open_url;
use padflow::commands::escape_single_quotes;
use padflow::commands::preview_sample_count;
use padflow::mouse::MouseDriver;
use padflow::commands::tray_tooltip;
use padflow::commands::{hidhide_installer_candidates, hidhide_installer_name, InstallerBase, InstallerDir};
use padflow::commands::{hidhide_install_command, hidhide_install_outcome, installer_is_msi};
use padflow::poll::{emit_due, pads_to_open, rates_due, rescan_due, virtual_retry_due};

fn record(pid: u16, path: &str, serial: Option<&str>, iface: i32) -> HidDeviceRecord {
    HidDeviceRecord {
        vendor_id: 0x054C,
        product_id: pid,
        usage_page: 0x01,
        usage: 0x05,
        interface_number: iface,
        path: path.to_string(),
        serial_number: serial.map(|s| s.to_string()),
        product_string: None,
    }
}

fn engine() -> PadFlowEngine<u32, String> {
    PadFlowEngine::new(7u32, String::from("blank"))
}

// ---------------------------------------------------------------------------
// Discovery
// ---------------------------------------------------------------------------

#[test]
fn stable_ids_are_hex_pairs_with_serial_or_index() {
    let r = record(0x0CE6, "p", Some("a0:b1"), 0);
    assert_eq!(stable_id(&r, 3), "054c:0ce6:a0:b1");
    assert_eq!(stable_id(&r, 9), stable_id(&r, 3));
    let r = record(0x05C4, "p", None, 0);
    assert_eq!(stable_id(&r, 12), "054c:05c4:#12");
    let r = record(0x0DF2, "p", Some(""), 0);
    assert_eq!(stable_id(&r, 0), "054c:0df2:#0");
    let mut r = record(0xABCD, "p", None, 0);
    r.vendor_id = 0xFFFF;
    assert_eq!(stable_id(&r, 1234567), "ffff:abcd:#1234567");
}

#[test]
fn connection_follows_interface_and_bthenum_path() {
    assert_eq!(connection_of(-1, r"\\?\hid#whatever"), ConnectionType::Bluetooth);
    assert_eq!(connection_of(3, r"\\?\HID#{00001124-0000}_VID&0002054c_PID&09cc#BTHENUM"), ConnectionType::Bluetooth);
    assert_eq!(connection_of(3, r"\\?\HID#BthEnum#x"), ConnectionType::Bluetooth);
    assert_eq!(connection_of(0, r"\\?\hid#vid_054c&pid_09cc&mi_03#7&1"), ConnectionType::Usb);
}

#[test]
fn enumerate_keeps_supported_input_collections_once() {
    let mut other = record(0x0CE6, "p-keyboard", None, 0);
    other.usage = 0x06; // a keyboard collection of a DualSense
    let mut xbox = record(0x02EA, "p-xbox", None, 0);
    xbox.vendor_id = 0x045E;
    let mut named = record(0x05C4, "p-ds4-bt", Some("aa"), -1);
    named.product_string = Some("Wireless Controller".to_string());
    let devices = vec![
        record(0x0CE6, "p-ds", Some("s1"), 0),
        other,
        xbox,
        record(0x0CE6, "p-ds", Some("dup"), 0),
        named,
    ];
    let mut cache: StrMap<[u8; 3]> = StrMap::new();
    cache.insert("054c:05c4:aa".to_string(), [9, 9, 9]);
    let pads = enumerate(&devices, &cache);
    assert_eq!(pads.len(), 3);
    let ds = &pads[0];
    assert_eq!(ds.id, "054c:0ce6:s1");
    assert_eq!(ds.name, "DualSense");
    assert_eq!(ds.kind, PadKind::DualSense);
    assert_eq!(ds.connection, ConnectionType::Usb);
    assert_eq!(ds.battery, -1);
    assert!(ds.charging);
    assert_eq!(ds.led, [0, 140, 255]);
    assert_eq!(ds.serial, "s1");
    assert_eq!(ds.report_rate_hz, 1000);
    assert!(ds.has_lightbar && ds.has_gyro && ds.has_touchpad);
    // A Microsoft gamepad collection is listed as an XInput controller.
    let xb = &pads[1];
    assert_eq!(xb.id, "045e:02ea:#2");
    assert_eq!(xb.name, "XInput Controller");
    assert_eq!(xb.kind, PadKind::XInput);
    assert_eq!(xb.led, [0, 140, 255]);
    assert!(!xb.has_lightbar);
    let ds4 = &pads[2];
    assert_eq!(ds4.id, "054c:05c4:aa");
    assert_eq!(ds4.name, "Wireless Controller");
    assert_eq!(ds4.connection, ConnectionType::Bluetooth);
    assert!(!ds4.charging);
    assert_eq!(ds4.led, [9, 9, 9]);
    assert_eq!(ds4.report_rate_hz, 800);
    // Without a cache entry a DualShock 4 starts blue.
    let pads = enumerate(&devices[4..], &StrMap::new());
    assert_eq!(pads[0].led, [0, 40, 255]);
    assert_eq!(pads[0].id, "054c:05c4:aa");
}

#[test]
fn xinput_gamepads_are_listed_other_vendors_are_not() {
    let mut x360 = record(0x028E, "p-x360", None, 0);
    x360.vendor_id = 0x045E;
    // A gamepad or joystick of an unsupported vendor is not listed.
    let mut generic = record(0x0001, "p-generic", Some("g1"), 0);
    generic.vendor_id = 0x1234;
    let mut joystick = record(0x0004, "p-joystick", None, 0);
    joystick.vendor_id = 0x1234;
    joystick.usage = 0x04;
    // A Microsoft collection that is not a gamepad is not listed either.
    let mut ms_mouse = record(0x0002, "p-mouse", None, 0);
    ms_mouse.vendor_id = 0x045E;
    ms_mouse.usage = 0x02;
    // With no usage page only a known Sony pad is listed.
    let mut pageless = record(0x0003, "p-pageless", None, 0);
    pageless.vendor_id = 0x045E;
    pageless.usage_page = 0;
    let mut sony_pageless = record(0x0CE6, "p-ds-pageless", None, 0);
    sony_pageless.usage_page = 0;
    sony_pageless.usage = 0;
    let devices = vec![x360, generic, joystick, ms_mouse, pageless, sony_pageless];
    let pads = enumerate(&devices, &StrMap::new());
    assert_eq!(pads.len(), 2);
    assert_eq!(pads[0].kind, PadKind::XInput);
    assert_eq!(pads[0].id, "045e:028e:#0");
    assert_eq!(pads[0].name, "XInput Controller");
    assert!(!pads[0].has_lightbar);
    assert_eq!(pads[1].kind, PadKind::DualSense);
    assert_eq!(pads[1].path, "p-ds-pageless");
    assert!(pads.iter().all(|p| p.kind != PadKind::Generic));
}

#[test]
fn records_are_found_by_path_then_by_ids() {
    let devices = vec![record(0x0CE6, "a", None, 0), record(0x09CC, "b", None, 0), record(0x09CC, "c", None, 0)];
    let pads = enumerate(&devices, &StrMap::new());
    assert_eq!(record_for(&devices, &pads[2]), Some(2));
    let mut moved: GamepadInfo = pads[1].clone();
    moved.path = "gone".to_string();
    assert_eq!(record_for(&devices, &moved), Some(1));
    moved.product_id = 0x0BA0;
    assert_eq!(record_for(&devices, &moved), None);
    assert!(lists_pad(&pads, "054c:09cc:#2"));
    assert!(!lists_pad(&pads, "054c:09cc:#7"));
    assert!(ids_contain(&["a".to_string(), "b".to_string()], "b"));
    assert!(!ids_contain(&[], "b"));
    assert_eq!(MAX_PADS, 4);
}

// ---------------------------------------------------------------------------
// Engine registry
// ---------------------------------------------------------------------------

#[test]
fn profiles_fall_back_to_active_then_default() {
    let mut e = engine();
    assert_eq!(e.profile(), 7);
    assert_eq!(e.profile_for(Some("x")), 7);
    e.set_profile_for(Some("x"), 1);
    assert_eq!(e.profile_for(Some("x")), 1);
    // Setting a pad's profile also changes the default.
    assert_eq!(e.profile_for(Some("y")), 1);
    assert_eq!(e.profile(), 1);
    e.set_active_pad("y");
    e.set_profile(2);
    assert_eq!(e.profile_for(Some("y")), 2);
    assert_eq!(e.profile_for(Some("x")), 1);
    assert_eq!(e.profile(), 2);
    let mut all = e.all_profiles();
    all.sort();
    assert_eq!(all, vec![("x".to_string(), 1), ("y".to_string(), 2)]);
}

#[test]
fn set_profile_without_active_pad_only_sets_the_default() {
    let mut e = engine();
    e.set_profile(5);
    assert_eq!(e.profile(), 5);
    assert!(e.all_profiles().is_empty());
}

#[test]
fn snapshots_fall_back_to_active_then_last() {
    let mut e = engine();
    assert_eq!(e.snapshot_for(Some("a")), "blank");
    e.store_snapshot("a".to_string(), "snap-a".to_string());
    e.store_snapshot("b".to_string(), "snap-b".to_string());
    assert_eq!(e.snapshot_for(Some("a")), "snap-a");
    assert_eq!(e.snapshot_for(Some("zz")), "blank");
    e.set_active_pad("b");
    assert_eq!(e.snapshot_for(Some("zz")), "snap-b");
    assert_eq!(e.snapshot_for(None), "snap-b");
    e.set_last_snapshot("ui".to_string());
    assert_eq!(e.snapshot(), "ui");
    assert_eq!(e.active_pad(), Some("b".to_string()));
}

#[test]
fn rescan_sets_first_pad_active_and_reuses_colours() {
    let mut e = engine();
    let devices = vec![record(0x0CE6, "a", Some("1"), 0), record(0x0CE6, "b", Some("2"), 0)];
    e.rescan(&devices);
    assert_eq!(e.devices().len(), 2);
    assert_eq!(e.active_pad(), Some("054c:0ce6:1".to_string()));
    e.queue_led("054c:0ce6:2", [1, 2, 3]);
    assert_eq!(e.devices()[1].led, [1, 2, 3]);
    assert_eq!(e.devices()[0].led, [0, 140, 255]);
    // The request is handed out once.
    assert_eq!(e.take_led_request("054c:0ce6:2"), Some([1, 2, 3]));
    assert_eq!(e.take_led_request("054c:0ce6:2"), None);
    // The colour survives a rescan; the active pad is not replaced.
    e.set_active_pad("054c:0ce6:2");
    e.rescan(&devices);
    assert_eq!(e.devices()[1].led, [1, 2, 3]);
    assert_eq!(e.active_pad(), Some("054c:0ce6:2".to_string()));
    e.commit_led("054c:0ce6:1".to_string(), [4, 5, 6]);
    e.rescan(&devices);
    assert_eq!(e.devices()[0].led, [4, 5, 6]);
}

#[test]
fn refresh_keeps_the_active_pad_listed() {
    let mut e = engine();
    let both = vec![record(0x0CE6, "a", Some("1"), 0), record(0x0CE6, "b", Some("2"), 0)];
    e.refresh_devices(&both);
    assert_eq!(e.active_pad(), Some("054c:0ce6:1".to_string()));
    e.set_active_pad("054c:0ce6:2");
    e.refresh_devices(&both);
    assert_eq!(e.active_pad(), Some("054c:0ce6:2".to_string()));
    e.refresh_devices(&both[..1]);
    assert_eq!(e.active_pad(), Some("054c:0ce6:1".to_string()));
    e.refresh_devices(&[]);
    assert_eq!(e.active_pad(), None);
    assert!(e.devices().is_empty());
}

#[test]
fn run_state_and_telemetry() {
    let mut e = engine();
    assert!(!e.is_running());
    assert!(e.claim_run().is_ok());
    assert_eq!(e.claim_run(), Err("PadFlow engine is already running".to_string()));
    e.record_poll(40);
    e.record_poll(25);
    e.record_drop();
    e.record_refresh(0, 2);
    e.record_refresh(2, 2);
    e.set_virtual_online(true);
    e.publish_rates(998, 31);
    let s = e.stats();
    assert!(s.running && s.virtual_pad_online);
    assert_eq!((s.polls, s.peak_latency_us, s.dropped_reports, s.reconnects), (2, 40, 1, 1));
    assert_eq!((s.poll_hz, s.avg_latency_us), (998, 31));
    assert_eq!(s.driver, "ViGEmBus / Xbox 360 Controller");
    e.stop();
    assert!(!e.is_running());
    e.finish_run();
    assert!(!e.stats().virtual_pad_online);
    assert!(!e.take_gyro_calibrate_request());
    e.recalibrate_gyro();
    assert!(e.take_gyro_calibrate_request());
    assert!(!e.take_gyro_calibrate_request());
}

// ---------------------------------------------------------------------------
// Input loop decisions
// ---------------------------------------------------------------------------

#[test]
fn flip_bumpers_replaces_only_the_bumper_bits() {
    let l1 = padflow::buttons::L1;
    let r1 = padflow::buttons::R1;
    let cross = padflow::buttons::CROSS;
    assert_eq!(flip_bumpers(cross | l1 | r1, false, false), cross);
    assert_eq!(flip_bumpers(cross, true, false), cross | l1);
    assert_eq!(flip_bumpers(0, true, true), l1 | r1);
}

#[test]
fn battery_colours_and_led_targets() {
    assert_eq!(battery_led_colour(100), [0, 230, 80]);
    assert_eq!(battery_led_colour(61), [0, 230, 80]);
    assert_eq!(battery_led_colour(60), [240, 180, 0]);
    assert_eq!(battery_led_colour(26), [240, 180, 0]);
    assert_eq!(battery_led_colour(25), [255, 30, 20]);
    assert_eq!(target_led(true, 50, Some([1, 1, 1]), [2, 2, 2]), [240, 180, 0]);
    assert_eq!(target_led(true, -1, Some([1, 1, 1]), [2, 2, 2]), [1, 1, 1]);
    assert_eq!(target_led(false, 50, None, [2, 2, 2]), [2, 2, 2]);
    assert!(output_write_due(true, false, false, [0, 0, 0], [0, 0, 0]));
    assert!(output_write_due(false, true, false, [0, 0, 0], [0, 0, 0]));
    assert!(!output_write_due(false, false, true, [0, 0, 0], [0, 0, 0]));
    assert!(output_write_due(false, false, true, [0, 0, 1], [0, 0, 0]));
    assert!(!output_write_due(false, false, false, [0, 0, 1], [0, 0, 0]));
}

#[test]
fn ui_snapshot_and_virtual_slots() {
    assert!(ui_snapshot_due(Some("a"), "a", true));
    assert!(!ui_snapshot_due(Some("a"), "b", true));
    assert!(ui_snapshot_due(None, "b", false));
    assert_eq!(virtual_slots_to_fill(&[false, true, false, false], 3), vec![0, 2]);
    assert!(virtual_slots_to_fill(&[true, true], 2).is_empty());
    assert!(any_filled(&[false, true]));
    assert!(!any_filled(&[false, false]));
}

#[test]
fn poll_window_averages_latency() {
    let mut w = PollWindow::new();
    assert_eq!(w.average_latency_us(), 0);
    w.record(10);
    w.record(21);
    assert_eq!(w.hz_count, 2);
    assert_eq!(w.average_latency_us(), 15);
}

#[test]
fn str_map_lists_its_entries() {
    let mut m: StrMap<u8> = StrMap::new();
    m.insert("a".to_string(), 1);
    m.insert("b".to_string(), 2);
    m.insert("a".to_string(), 3);
    assert_eq!(m.entries(), vec![("a".to_string(), 3), ("b".to_string(), 2)]);
    m.remove("a");
    assert!(!m.contains_key("a"));
    assert_eq!(m.get("b"), Some(&2));
    assert_eq!(m.take("b"), Some(2));
    assert!(m.entries().is_empty());
}

// ---------------------------------------------------------------------------
// UI command checks and the mouse driver registry
// ---------------------------------------------------------------------------

#[test]
fn set_led_color_refuses_blank_ids() {
    let mut e = engine();
    assert_eq!(padflow::commands::set_led_color(&mut e, "  ", 1, 2, 3), Err("pad_id must not be empty".to_string()));
    assert_eq!(e.take_led_request("  "), None);
    assert!(padflow::commands::set_led_color(&mut e, "pad", 1, 2, 3).is_ok());
    assert_eq!(e.take_led_request("pad"), Some([1, 2, 3]));
}

#[test]
fn only_http_links_open() {
    assert!(check_open_url("https://github.com").is_ok());
    assert!(check_open_url("http://x").is_ok());
    assert_eq!(check_open_url("file:///etc/passwd"), Err("invalid URL scheme".to_string()));
    assert!(check_open_url("HTTPS://x").is_err());
    assert!(check_open_url("http:/").is_err());
}

#[test]
fn installer_paths_are_quoted_for_powershell() {
    assert_eq!(escape_single_quotes(r"C:\Users\O'Neil\Setup.exe"), r"C:\Users\O''Neil\Setup.exe");
    assert_eq!(escape_single_quotes("''"), "''''");
    assert_eq!(escape_single_quotes(""), "");
}

#[test]
fn preview_samples_are_clamped() {
    assert_eq!(preview_sample_count(0), 8);
    assert_eq!(preview_sample_count(100), 100);
    assert_eq!(preview_sample_count(100_000), 512);
}

#[test]
fn mouse_driver_processes_with_the_active_loaded_profile() {
    let mut d: MouseDriver<u8> = MouseDriver::new();
    assert!(d.active_profile().is_none());
    assert!(d.activate_profile("fps").is_ok());
    assert!(d.active_profile().is_none());
    d.load_profile("fps".to_string(), 3);
    d.load_profile("rts".to_string(), 4);
    assert_eq!(d.active_profile(), Some(&3));
    assert_eq!(d.profile("rts"), Some(&4));
    let mut ids = d.profile_ids();
    ids.sort();
    assert_eq!(ids, vec!["fps".to_string(), "rts".to_string()]);
    assert!(!d.is_running());
    assert!(d.start().is_ok());
    assert!(d.is_running());
    d.stop();
    assert!(!d.is_running());
}

#[test]
fn tray_tooltip_shows_pad_battery_and_rate() {
    assert_eq!(
        tray_tooltip(true, Some("DualSense"), 80, true, 998),
        "PadFlow \u{2014} DualSense \u{b7} 80% \u{26a1} \u{b7} 998 Hz"
    );
    assert_eq!(tray_tooltip(true, None, -1, false, 0), "PadFlow \u{2014} no controller \u{b7} 1 Hz");
    assert_eq!(tray_tooltip(true, Some("P"), 0, false, 7), "PadFlow \u{2014} P \u{b7} 0% \u{b7} 7 Hz");
    assert_eq!(tray_tooltip(false, Some("X"), 50, false, 5), "PadFlow \u{2014} idle (X)");
}

#[test]
fn touchpad_click_follows_the_pointer_finger() {
    assert_eq!(touch_gesture(1), TouchGesture::Pointer);
    assert_eq!(touch_gesture(2), TouchGesture::Scroll);
    assert_eq!(touch_gesture(0), TouchGesture::Idle);
    assert_eq!(touch_click(TouchGesture::Pointer, true, false), (true, Some(true)));
    assert_eq!(touch_click(TouchGesture::Pointer, true, true), (true, None));
    assert_eq!(touch_click(TouchGesture::Pointer, false, true), (false, Some(false)));
    assert_eq!(touch_click(TouchGesture::Scroll, true, true), (false, Some(false)));
    assert_eq!(touch_click(TouchGesture::Idle, true, false), (false, None));
}

#[test]
fn pads_to_open_takes_the_first_four_playstation_pads_not_open() {
    let devices: Vec<HidDeviceRecord> =
        (0..6).map(|i| record(0x0CE6, &format!("p{i}"), None, 0)).collect();
    let pads = enumerate(&devices, &StrMap::new());
    assert_eq!(pads.len(), 6);
    assert_eq!(pads_to_open(&pads, &[]), vec![0, 1, 2, 3]);
    let opened = vec![pads[1].id.clone(), pads[5].id.clone()];
    assert_eq!(pads_to_open(&pads, &opened), vec![0, 2, 3]);
    assert!(pads_to_open(&[], &opened).is_empty());
    // An XInput controller is listed but not opened, and does not count
    // towards the four.
    let mut x360 = record(0x028E, "p-x360", None, 0);
    x360.vendor_id = 0x045E;
    let mut devices = vec![x360];
    devices.extend((0..5).map(|i| record(0x0CE6, &format!("q{i}"), None, 0)));
    let pads = enumerate(&devices, &StrMap::new());
    assert_eq!(pads.len(), 6);
    assert_eq!(pads_to_open(&pads, &[]), vec![1, 2, 3, 4]);
}

#[test]
fn loop_periods() {
    assert!(!rescan_due(749));
    assert!(rescan_due(750));
    assert!(!virtual_retry_due(1499));
    assert!(virtual_retry_due(1500));
    assert!(!rates_due(true, 499));
    assert!(rates_due(true, 500));
    assert!(!rates_due(false, 10_000));
    assert!(!emit_due(16_665));
    assert!(emit_due(16_666));
}

#[test]
fn installer_is_looked_for_name_by_name_per_base() {
    let c = hidhide_installer_candidates();
    assert_eq!(c.len(), 20);
    assert_eq!((c[0].base, c[0].dir, c[0].name), (InstallerBase::ResourceDir, InstallerDir::Resources, 0));
    assert_eq!((c[1].base, c[1].dir, c[1].name), (InstallerBase::ResourceDir, InstallerDir::Root, 0));
    assert_eq!((c[2].base, c[2].dir, c[2].name), (InstallerBase::ResourceDir, InstallerDir::Resources, 1));
    assert_eq!((c[7].base, c[7].dir, c[7].name), (InstallerBase::ResourceDir, InstallerDir::Root, 3));
    assert_eq!((c[8].base, c[8].dir, c[8].name), (InstallerBase::ExeDir, InstallerDir::Resources, 0));
    assert_eq!((c[10].base, c[10].dir, c[10].name), (InstallerBase::ExeDir, InstallerDir::SrcTauriResources, 0));
    assert_eq!((c[19].base, c[19].dir, c[19].name), (InstallerBase::ExeDir, InstallerDir::SrcTauriResources, 3));
    assert_eq!(hidhide_installer_name(0), "HidHide_Setup.exe");
    assert_eq!(hidhide_installer_name(2), "HidHideMSI.msi");
    assert_eq!(hidhide_installer_name(3), "HidHide.exe");
}

#[test]
fn test_driver_creation() {
    let driver: MouseDriver<serde_json::Value> = MouseDriver::new();
    assert!(!driver.is_running());
    assert!(driver.profile_ids().is_empty());
    assert!(driver.active_profile().is_none());
}

#[test]
fn test_profile_loading() {
    let mut driver: MouseDriver<serde_json::Value> = MouseDriver::new();
    let json = r#"{
        "id": "test-profile",
        "name": "Test Profile",
        "game_name": null,
        "x_axis": {"sensitivity": 1.5, "curve_type": "Linear", "enabled": true, "ai_learning_rate": null},
        "y_axis": {"sensitivity": 1.5, "curve_type": "Linear", "enabled": true, "ai_learning_rate": null},
        "scroll_axis": null,
        "performance": {
            "polling_frequency_hz": 1000,
            "hid_batch_size": 4,
            "battery_saver_mode": false,
            "thread_priority": 15,
            "ai_optimization_enabled": true
        },
        "created_at": 1234567890,
        "updated_at": 1234567890,
        "metadata": {}
    }"#;
    let profile: Result<serde_json::Value, _> = serde_json::from_str(json);
    assert!(profile.is_ok());
    let profile = profile.unwrap();
    let id = profile["id"].as_str().unwrap().to_string();
    driver.load_profile(id, profile);
    assert_eq!(driver.profile_ids(), vec!["test-profile".to_string()]);
    assert_eq!(driver.profile("test-profile").unwrap()["name"], "Test Profile");
    assert!(driver.activate_profile("test-profile").is_ok());
    assert!(driver.active_profile().is_some());
}

#[test]
fn installer_command_and_outcome() {
    assert!(installer_is_msi(Some("MSI")));
    assert!(installer_is_msi(Some("msi")));
    assert!(!installer_is_msi(Some("exe")));
    assert!(!installer_is_msi(None));
    assert_eq!(
        hidhide_install_command(true, r"C:\it's\HidHideMSI.msi"),
        r"Start-Process -FilePath 'msiexec.exe' -ArgumentList '/i', 'C:\it''s\HidHideMSI.msi', '/norestart' -Verb RunAs -Wait"
    );
    assert_eq!(
        hidhide_install_command(false, r"C:\x\HidHide.exe"),
        r"Start-Process -FilePath 'C:\x\HidHide.exe' -ArgumentList '/norestart' -Verb RunAs -Wait"
    );
    assert_eq!(
        hidhide_install_outcome(true, true),
        Ok("HidHide driver installed successfully! Anti-double-input protection active.".to_string())
    );
    assert_eq!(
        hidhide_install_outcome(true, false),
        Ok("HidHide installation completed. If shielding remains inactive, please restart Windows once to load filter driver.".to_string())
    );
    assert_eq!(
        hidhide_install_outcome(false, true),
        Err("HidHide installation was cancelled or denied Administrator permissions".to_string())
    );
}
