use padflow::hidhide::{
    auto_whitelist_current_process, extract_all_device_instance_ids, get_status, hide_device, is_installed,
    multi_sz_to_string_list, normalize_device_instance_path, set_active, string_list_to_multi_sz,
    uncloak_all_controllers, unhide_device, HidHideConfig,
};
use padflow::hidhide::auto_cloak_controllers;
use padflow::hidhide::{check_device_path, hide_device_for_current_process};
use padflow::hidhide::{device_path_from_target, device_path_query, DevicePathQuery};

const RAW: &str = r"\\?\hid#vid_054c&pid_0ce6&col01#7&3084128&0&0000#{4d1e55b2-f16f-11cf-88cb-001111000030}";

fn empty_config() -> HidHideConfig {
    HidHideConfig { active: false, blacklist: Vec::new(), whitelist: Vec::new() }
}

#[test]
fn test_normalize_device_instance_path() {
    let normalized = normalize_device_instance_path(RAW);
    assert_eq!(normalized, r"HID\VID_054C&PID_0CE6&COL01\7&3084128&0&0000");
}

#[test]
fn test_extract_all_device_instance_ids() {
    let ids = extract_all_device_instance_ids(RAW);
    assert!(ids.contains(&r"HID\VID_054C&PID_0CE6&COL01\7&3084128&0&0000".to_string()));
    assert!(ids.contains(&r"HID\VID_054C&PID_0CE6&COL02\7&3084128&0&0000".to_string()));
}

#[test]
fn test_multi_sz_roundtrip() {
    let list = vec![r"C:\Program Files\PadFlow\padflow.exe".to_string(), r"HID\VID_054C&PID_0CE6\12345".to_string()];
    let encoded = string_list_to_multi_sz(&list);
    let decoded = multi_sz_to_string_list(&encoded);
    assert_eq!(list, decoded);
}

#[test]
fn normalize_handles_device_prefix_and_plain_ids() {
    assert_eq!(normalize_device_instance_path(r"\\.\HID#VID_1&PID_2#3&4#{x}"), r"HID\VID_1&PID_2\3&4");
    // A trailing interface GUID without braces is cut too.
    assert_eq!(
        normalize_device_instance_path(r"hid#vid_1#inst#4d1e55b2-f16f-11cf-88cb-001111000030"),
        r"HID\VID_1\INST"
    );
    assert_eq!(normalize_device_instance_path("  usb#vid_054c#abc  "), r"USB\VID_054C\ABC");
    assert_eq!(normalize_device_instance_path(""), "");
}

#[test]
fn extract_lists_every_sibling_collection_once() {
    let ids = extract_all_device_instance_ids(RAW);
    let expected = [
        r"HID\VID_054C&PID_0CE6&COL01\7&3084128&0&0000",
        r"HID\VID_054C&PID_0CE6&COL02\7&3084128&0&0000",
        r"HID\VID_054C&PID_0CE6&COL03\7&3084128&0&0000",
        r"HID\VID_054C&PID_0CE6&COL04\7&3084128&0&0000",
        r"HID\VID_054C&PID_0CE6&COL05\7&3084128&0&0000",
        r"HID\VID_054C&PID_0CE6&COL06\7&3084128&0&0000",
        r"HID\VID_054C&PID_0CE6\7&3084128&0&0000",
        r"USB\VID_054C&PID_0CE6&COL01\7&3084128&0&0000",
    ];
    assert_eq!(ids, expected.iter().map(|s| s.to_string()).collect::<Vec<_>>());
    assert!(extract_all_device_instance_ids("   ").is_empty());
}

#[test]
fn multi_sz_edge_cases() {
    assert_eq!(string_list_to_multi_sz(&[]), vec![0, 0]);
    // Blank entries are skipped, entries are trimmed.
    let enc = string_list_to_multi_sz(&["  a ".to_string(), "   ".to_string(), "b".to_string()]);
    assert_eq!(enc, vec![97, 0, 98, 0, 0]);
    // Decoding stops at the empty string; a trailing unterminated entry counts.
    assert_eq!(multi_sz_to_string_list(&[104, 105, 0, 0, 120, 0]), vec!["hi".to_string()]);
    assert_eq!(multi_sz_to_string_list(&[104, 105]), vec!["hi".to_string()]);
    assert!(multi_sz_to_string_list(&[0, 104]).is_empty());
    // Unpaired surrogates decode to U+FFFD; pairs decode to one character.
    assert_eq!(multi_sz_to_string_list(&[0xD800, 0x41, 0]), vec!["\u{FFFD}A".to_string()]);
    assert_eq!(multi_sz_to_string_list(&[0xD83D, 0xDE00, 0]), vec!["\u{1F600}".to_string()]);
    assert_eq!(multi_sz_to_string_list(&[0x41, 0xDC00, 0xDBFF]), vec!["A\u{FFFD}\u{FFFD}".to_string()]);
    let round = multi_sz_to_string_list(&string_list_to_multi_sz(&["\u{1F600}x".to_string()]));
    assert_eq!(round, vec!["\u{1F600}x".to_string()]);
}

#[test]
fn hide_blacklists_every_id_once_and_activates() {
    let mut cfg = empty_config();
    assert!(hide_device(&mut cfg, RAW).is_ok());
    assert!(cfg.active);
    assert_eq!(cfg.blacklist, extract_all_device_instance_ids(RAW));
    // Hiding again (even in another case) adds nothing.
    let upper = RAW.to_uppercase();
    assert!(hide_device(&mut cfg, &upper).is_ok());
    assert_eq!(cfg.blacklist.len(), 8);
}

#[test]
fn hide_refuses_a_path_without_ids() {
    let mut cfg = empty_config();
    cfg.blacklist.push("KEEP".to_string());
    assert_eq!(hide_device(&mut cfg, "  "), Err("Invalid device path".to_string()));
    assert!(!cfg.active);
    assert_eq!(cfg.blacklist, vec!["KEEP".to_string()]);
}

#[test]
fn unhide_undoes_hide() {
    let mut cfg = empty_config();
    cfg.blacklist.push(r"HID\OTHER\1".to_string());
    hide_device(&mut cfg, RAW).unwrap();
    // A lower-case copy of one id and the raw path are dropped as well.
    cfg.blacklist.push(r"hid\vid_054c&pid_0ce6&col03\7&3084128&0&0000".to_string());
    cfg.blacklist.push(RAW.to_string());
    assert!(unhide_device(&mut cfg, RAW).is_ok());
    assert_eq!(cfg.blacklist, vec![r"HID\OTHER\1".to_string()]);
}

#[test]
fn set_active_and_installed() {
    let mut cfg = empty_config();
    assert!(set_active(&mut cfg, true).is_ok());
    assert!(cfg.active);
    assert!(set_active(&mut cfg, false).is_ok());
    assert!(!cfg.active);
    assert!(is_installed(true, false));
    assert!(is_installed(false, true));
    assert!(!is_installed(false, false));
}

#[test]
fn status_reports_whitelisting_case_insensitively() {
    let exe = r"C:\Apps\PadFlow.exe";
    let dev = r"\Device\HarddiskVolume3\Apps\PadFlow.exe";
    let mut cfg = empty_config();
    cfg.active = true;
    cfg.blacklist.push("X".to_string());
    let s = get_status(true, &cfg, exe, dev);
    assert!(s.installed && s.active && !s.whitelisted);
    assert_eq!(s.hidden_devices, vec!["X".to_string()]);
    assert_eq!(s.app_path, exe);
    cfg.whitelist.push(r"\DEVICE\HARDDISKVOLUME3\APPS\PADFLOW.EXE".to_string());
    assert!(get_status(true, &cfg, exe, dev).whitelisted);
    let mut cfg2 = empty_config();
    cfg2.whitelist.push(r"apps\padflow.exe".to_string());
    assert!(get_status(true, &cfg2, exe, dev).whitelisted);
    let s = get_status(false, &cfg, exe, dev);
    assert!(!s.installed && !s.active && !s.whitelisted && s.hidden_devices.is_empty());
}

#[test]
fn auto_whitelist_adds_both_paths_once() {
    let exe = r"C:\Apps\PadFlow.exe";
    let dev = r"\Device\HarddiskVolume3\Apps\PadFlow.exe";
    let mut cfg = empty_config();
    auto_whitelist_current_process(&mut cfg, exe, dev);
    assert_eq!(cfg.whitelist, vec![dev.to_string(), exe.to_string()]);
    auto_whitelist_current_process(&mut cfg, &exe.to_lowercase(), dev);
    assert_eq!(cfg.whitelist.len(), 2);
}

#[test]
fn uncloak_empties_the_blacklist_and_deactivates() {
    let exe = r"C:\Apps\PadFlow.exe";
    let mut cfg = empty_config();
    hide_device(&mut cfg, RAW).unwrap();
    cfg.whitelist.push(exe.to_string());
    let s = uncloak_all_controllers(&mut cfg, true, exe, exe).unwrap();
    assert!(cfg.blacklist.is_empty() && !cfg.active);
    assert!(s.installed && !s.active && s.whitelisted && s.hidden_devices.is_empty());
    assert_eq!(cfg.whitelist, vec![exe.to_string()]);
}

#[test]
fn auto_cloak_hides_every_pad_and_whitelists_once() {
    let exe = r"C:\Apps\PadFlow.exe";
    let dev = r"\Device\HarddiskVolume3\Apps\PadFlow.exe";
    let mut cfg = empty_config();
    let paths = vec![RAW.to_string(), "   ".to_string(), RAW.to_string()];
    auto_cloak_controllers(&mut cfg, &paths, exe, dev);
    assert!(cfg.active);
    assert_eq!(cfg.blacklist, extract_all_device_instance_ids(RAW));
    assert_eq!(cfg.whitelist, vec![dev.to_string(), exe.to_string()]);
}

#[test]
fn dos_paths_split_for_the_drive_lookup() {
    match device_path_query("  C:\\Apps\\PadFlow.exe ") {
        DevicePathQuery::Drive { drive, rest } => {
            assert_eq!(drive, "C:");
            assert_eq!(rest, "\\Apps\\PadFlow.exe");
        }
        other => panic!("unexpected {other:?}"),
    }
    match device_path_query("\\Device\\HarddiskVolume3\\x.exe") {
        DevicePathQuery::Ready(p) => assert_eq!(p, "\\Device\\HarddiskVolume3\\x.exe"),
        other => panic!("unexpected {other:?}"),
    }
    match device_path_query("\u{e9}:\\x") {
        DevicePathQuery::Ready(p) => assert_eq!(p, "\u{e9}:\\x"),
        other => panic!("unexpected {other:?}"),
    }
    let target: Vec<u16> = "\0\\Device\\HarddiskVolume3\0\0".encode_utf16().collect();
    assert_eq!(device_path_from_target(&target, "\\Apps\\PadFlow.exe"), "\\Device\\HarddiskVolume3\\Apps\\PadFlow.exe");
    assert_eq!(device_path_from_target(&[0, 0], "\\x"), "\\x");
}

#[test]
fn hiding_for_the_current_process_refuses_first() {
    let exe = r"C:\Apps\PadFlow.exe";
    let dev = r"\Device\HarddiskVolume3\Apps\PadFlow.exe";
    let mut cfg = empty_config();
    assert_eq!(
        hide_device_for_current_process(&mut cfg, "   ", exe, dev),
        Err("Invalid device path".to_string())
    );
    assert!(cfg.whitelist.is_empty());
    assert!(cfg.blacklist.is_empty());
    assert!(!cfg.active);
    assert_eq!(check_device_path("   "), Err("Invalid device path".to_string()));
    assert_eq!(check_device_path(RAW), Ok(()));
    assert!(hide_device_for_current_process(&mut cfg, RAW, exe, dev).is_ok());
    assert_eq!(cfg.whitelist, vec![dev.to_string(), exe.to_string()]);
    assert_eq!(cfg.blacklist, extract_all_device_instance_ids(RAW));
    assert!(cfg.active);
}

#[test]
fn ascii_paths_are_upper_cased_exactly() {
    assert_eq!(normalize_device_instance_path(r"hid\vid_1234&pid_abcd\x"), r"HID\VID_1234&PID_ABCD\X");
    assert_eq!(normalize_device_instance_path(""), "");
}
