use sha2::Digest;
use displayflow::bridge::{
    pipe_line, scan_line, suite_line, suite_line_fits, suites_config_table, suites_table, vendor_of, OutMode,
    OutputManager,
};
use displayflow::config::{ProfileManager, SuiteConfig};
use displayflow::daemon::{
    hotkey_binding, hotkey_of_config, hotkey_registrations, suite_entries, suite_name_at, window_action, DaemonAction,
    IDM_EXIT, WM_COMMAND, WM_DESTROY, WM_HOTKEY, WM_RBUTTONUP, WM_TRAY_ICON,
};
use displayflow::deployer::DeploymentManager;
use displayflow::scraper::ddc::DdcCaps;
use displayflow::scraper::scan::{live_row, live_rows, parse_edid, registry_row, LiveDevice, LiveSettings};
use displayflow::scraper::{DisplayRow, DisplayTask};
use displayflow::telemetry::{device_hash, monitor_stats, to_hex_lower, upload_headers, upload_url, TelemetryManager};

fn row() -> DisplayRow {
    DisplayRow {
        source: "synth_data".into(),
        name_id: "\\\\.\\DISPLAY1".into(),
        resolution: "1920x1080".into(),
        freq: "60Hz".into(),
        dpi: "100%".into(),
        scale_percent: 100,
        position_instance: "DISPLAY\\BNQ78A7\\5&123".into(),
        active: "YES".into(),
        primary: "YES".into(),
        serial: "ET12345".into(),
        size_mm: "600x340mm".into(),
        persistent_id: 1,
        x: 0,
        y: 0,
        is_primary: true,
        ddc: Some(DdcCaps { brightness: 50, contrast: 75, input_source: 15 }),
    }
}

fn std_vendor(hw_id: &str) -> String {
    if hw_id.contains("DISPLAY") {
        hw_id.split('\\').nth(1).and_then(|s| s.get(0..3)).unwrap_or("UNK").to_string()
    } else {
        "GEN".to_string()
    }
}

#[test]
fn output_mode_follows_daemon_flag() {
    assert_eq!(OutputManager::new(true).mode, OutMode::Pipe);
    assert_eq!(OutputManager::new(false).mode, OutMode::Console);
}

#[test]
fn vendor_from_hardware_path() {
    for p in ["DISPLAY\\BNQ78A7\\5&1", "MONITOR\\BNQ78A7", "DISPLAY", "DISPLAY\\AB", "DISPLAY\\\u{c4}1\\x", "DISPLAY\\\u{c4}\u{c4}"] {
        let v: String = vendor_of(p).into_iter().collect();
        assert_eq!(v, std_vendor(p), "path {}", p);
    }
    let v: String = vendor_of("DISPLAY\\\u{c4}1").into_iter().collect();
    assert_eq!(v, "\u{c4}1");
}

#[test]
fn scan_line_matches_console_format() {
    let r = row();
    let expected = format!(
        "{:<3} | {:<6} | {:<12} | {:<6} | {:<8} | {:<14} | B:{:>3} C:{:>3}",
        1, "BNQ", "1920x1080", "60Hz", "YES", "ET12345", "50", "75"
    );
    assert_eq!(scan_line(&r), expected);
    let mut r = row();
    r.ddc = None;
    r.persistent_id = 1234;
    r.serial = "A-VERY-LONG-SERIAL-NUMBER".into();
    r.position_instance = "MONITOR\\X".into();
    let expected = format!(
        "{:<3} | {:<6} | {:<12} | {:<6} | {:<8} | {:<14} | B:{:>3} C:{:>3}",
        1234, "GEN", "1920x1080", "60Hz", "YES", "A-VERY-LONG-SERIAL-NUMBER", "--", "--"
    );
    assert_eq!(scan_line(&r), expected);
}

#[test]
fn suite_lines_and_table() {
    assert_eq!(
        suite_line("Work", ""),
        format!("Suite: {:<18} | Hotkey: {:<12} | Konfig: {}", "Work", "Keiner", "-")
    );
    assert_eq!(
        suite_line("Work", "tasks|1:1:1:0:0;hotkey|Ctrl+W"),
        format!("Suite: {:<18} | Hotkey: {:<12} | Konfig: {}", "Work", "Ctrl+W", "1:1:1:0:0")
    );
    let long = "1:1920:1080:0:0:1:0:60:60:80:0,2:1920:1080:1920:0:0:0:60:60:80:0";
    assert_eq!(
        suite_line("Long", &format!("tasks|{}", long)),
        format!("Suite: {:<18} | Hotkey: {:<12} | Konfig: {}...", "Long", "Keiner", &long[..37])
    );
    let table = suites_table(&vec!["A".to_string()]);
    assert_eq!(table.len(), 6);
    assert_eq!(table[0], "");
    assert_eq!(table[1], "[ KONFIGURIERTE SUITES ]");
    assert_eq!(table[2], format!("{:-<85}", ""));
    assert_eq!(table[3], suite_line("A", ""));
    assert_eq!(table[4], table[2]);
    assert_eq!(table[5], "");
    assert_eq!(pipe_line("SCAN_RES", "{\"a\":1}"), "SCAN_RES:{\"a\":1}");
}

#[test]
fn suite_files_and_names() {
    assert_eq!(ProfileManager::suite_file_name("Work"), "Work.json");
    let files = vec!["a.json".to_string(), "b.txt".to_string(), "c.json.json".to_string(), ".json".to_string(), "json".to_string()];
    assert_eq!(ProfileManager::suite_names_from_files(&files), vec!["a".to_string(), "c.json".to_string(), String::new()]);
    let listed = ProfileManager::suite_names_from_files(&vec![ProfileManager::suite_file_name("Gaming")]);
    assert_eq!(listed, vec!["Gaming".to_string()]);
    let listed = ProfileManager::suite_names_from_files(&vec![ProfileManager::suite_file_name("a.json")]);
    assert_eq!(listed, vec!["a.json".to_string()]);
}

#[test]
fn new_suite_record() {
    let t = DisplayTask {
        query: "1".into(),
        width: 1,
        height: 1,
        x: 0,
        y: 0,
        is_primary: false,
        direction: None,
        freq: 0,
        brightness: None,
        contrast: None,
        animation: None,
    };
    let cfg: SuiteConfig = ProfileManager::new_suite("Work.bat", &vec![t], Some("Ctrl+Alt+W".into()), None);
    assert_eq!(cfg.name, "Work");
    assert_eq!(cfg.tasks.len(), 1);
    assert_eq!(cfg.hotkey.as_deref(), Some("Ctrl+Alt+W"));
    assert!(cfg.post_cmd.is_none());
    let d = SuiteConfig::default();
    assert!(d.name.is_empty() && d.tasks.is_empty() && d.hotkey.is_none());
}

#[test]
fn hotkey_text_from_held_keys() {
    assert_eq!(ProfileManager::hotkey_combo(true, true, false, b'D'), "Ctrl+Alt+D");
    assert_eq!(ProfileManager::hotkey_combo(false, false, true, b'Z'), "Shift+Z");
    assert_eq!(ProfileManager::hotkey_combo(false, false, false, b'A'), "A");
}

#[test]
fn hotkey_bindings() {
    assert_eq!(hotkey_binding("Ctrl+Alt+D"), (0x4000 | 0x2 | 0x1, 'D' as u32));
    assert_eq!(hotkey_binding("shift+x"), (0x4000 | 0x4, 'X' as u32));
    assert_eq!(hotkey_binding("Ctrl+Alt"), (0x4003, 0));
    assert_eq!(hotkey_binding("Ctrl+F5"), (0x4002, 0));
    assert_eq!(hotkey_binding(""), (0x4000, 0));
    let combo = ProfileManager::hotkey_combo(true, false, true, b'Q');
    assert_eq!(hotkey_binding(&combo), (0x4006, 'Q' as u32));
}

#[test]
fn hotkey_from_registry_text() {
    assert_eq!(hotkey_of_config("tasks|1:1:1:0:0;post|x;hotkey|Ctrl+Alt+D").as_deref(), Some("Ctrl+Alt+D"));
    assert_eq!(hotkey_of_config("tasks|1:1:1:0:0"), None);
    assert_eq!(hotkey_of_config("hotkey|A|B;hotkey|C").as_deref(), Some("A"));
    let text = DeploymentManager::suite_config(&vec![], &None, &Some("Shift+K".into()));
    assert_eq!(hotkey_of_config(&text).as_deref(), Some("Shift+K"));
}

#[test]
fn hotkey_registrations_for_suites() {
    let entries = vec![
        ("Work".to_string(), "tasks|;hotkey|Ctrl+Alt+W".to_string()),
        ("NoKey".to_string(), "tasks|".to_string()),
        ("Mods".to_string(), "tasks|;hotkey|Ctrl+Alt".to_string()),
        ("Game".to_string(), "tasks|;hotkey|g".to_string()),
    ];
    let regs = hotkey_registrations(&entries);
    assert_eq!(regs.len(), 2);
    assert_eq!((regs[0].id, regs[0].name.as_str(), regs[0].combo.as_str()), (0, "Work", "Ctrl+Alt+W"));
    assert_eq!((regs[0].modifiers, regs[0].key_code), (0x4003, 'W' as u32));
    assert_eq!((regs[1].id, regs[1].name.as_str()), (3, "Game"));
    assert_eq!((regs[1].modifiers, regs[1].key_code), (0x4000, 'G' as u32));
}

#[test]
fn window_messages() {
    assert_eq!(window_action(WM_TRAY_ICON, 0, WM_RBUTTONUP as isize), DaemonAction::ShowTrayMenu);
    assert_eq!(window_action(WM_TRAY_ICON, 0, 0x0201), DaemonAction::Default);
    assert_eq!(window_action(WM_COMMAND, IDM_EXIT, 0), DaemonAction::Exit);
    assert_eq!(window_action(WM_COMMAND, 7, 0), DaemonAction::Default);
    assert_eq!(window_action(WM_HOTKEY, 2, 0), DaemonAction::ApplySuite(2));
    assert_eq!(window_action(WM_DESTROY, 0, 0), DaemonAction::RemoveTrayIconAndQuit);
    assert_eq!(window_action(0x000F, 0, 0), DaemonAction::Default);
    let names = vec!["a".to_string(), "b".to_string()];
    assert_eq!(suite_name_at(&names, 1).as_deref(), Some("b"));
    assert_eq!(suite_name_at(&names, 2), None);
}

fn edid_with_serial(serial: &[u8]) -> Vec<u8> {
    let mut e = vec![0u8; 128];
    e[21] = 60;
    e[22] = 34;
    e[72..76].copy_from_slice(&[0, 0, 0, 0xff]);
    e[76..90].copy_from_slice(serial);
    e
}

fn std_parse_edid(bytes: &[u8]) -> (String, String, String) {
    if bytes.len() < 128 {
        return ("N/A".into(), "N/A".into(), "N/A".into());
    }
    let mut sn = "N/A".to_string();
    for offset in [54, 72, 90, 108] {
        if offset + 18 <= bytes.len() && &bytes[offset..offset + 4] == b"\x00\x00\x00\xff" {
            sn = String::from_utf8_lossy(&bytes[offset + 4..offset + 18]).trim().trim_matches('\0').to_string();
            break;
        }
    }
    let w_mm = (bytes[21] as u32) * 10;
    let h_mm = (bytes[22] as u32) * 10;
    (sn, format!("{}x{}mm", w_mm, h_mm), "N/A".into())
}

#[test]
fn edid_serial_and_size() {
    let e = edid_with_serial(b"SN12345\n      ");
    assert_eq!(parse_edid(&e), ("SN12345".to_string(), "600x340mm".to_string(), "N/A".to_string()));
    let e = edid_with_serial(b"\0\0AB\xffCD\0\0\0\0\0\0\0");
    assert_eq!(parse_edid(&e), std_parse_edid(&e));
    let mut e = vec![0u8; 128];
    e[21] = 255;
    assert_eq!(parse_edid(&e), ("N/A".to_string(), "2550x0mm".to_string(), "N/A".to_string()));
    assert_eq!(parse_edid(&[0u8; 10]), ("N/A".to_string(), "N/A".to_string(), "N/A".to_string()));
    let mut e = edid_with_serial(b"FIRST         ");
    e[54..58].copy_from_slice(&[0, 0, 0, 0xff]);
    e[58..72].copy_from_slice(b"EARLIER       ");
    assert_eq!(parse_edid(&e).0, "EARLIER");
}

#[test]
fn live_and_registry_rows() {
    let r = live_row("\\\\.\\DISPLAY1", "MONITOR\\X", true, true, Some(LiveSettings { width: 2560, height: 1440, frequency: 144, x: -2560, y: 0 }));
    assert_eq!(r.source, "GDI_LIVE");
    assert_eq!(r.resolution, "2560x1440");
    assert_eq!(r.freq, "144Hz");
    assert_eq!((r.x, r.y), (-2560, 0));
    assert_eq!(r.active, "YES");
    assert_eq!(r.primary, "YES");
    assert!(r.is_primary);
    let t = r.to_task();
    assert_eq!((t.width, t.height, t.freq, t.x), (2560, 1440, 144, -2560));
    let r = live_row("\\\\.\\DISPLAY2", "", false, false, Some(LiveSettings { width: 1, height: 1, frequency: 1, x: 1, y: 1 }));
    assert_eq!(r.resolution, "N/A");
    assert_eq!(r.freq, "N/A");
    assert_eq!(r.active, "NO");
    let e = edid_with_serial(b"SN9          \n");
    let g = registry_row("BNQ78A7", "5&abc", &e);
    assert_eq!(g.source, "Registry");
    assert_eq!(g.active, "STORED");
    assert_eq!(g.serial, "SN9");
    assert_eq!(g.size_mm, "600x340mm");
    assert_eq!(g.position_instance, "5&abc");
}

#[test]
fn telemetry_hash_and_payload() {
    let mut h = sha2::Sha256::new();
    h.update("Intel(R) Core(TM) i7");
    h.update(16000000u64.to_string());
    let expected = format!("{:x}", h.finalize());
    assert_eq!(device_hash("Intel(R) Core(TM) i7", 16000000), expected);
    assert_eq!(expected.len(), 64);
    assert_eq!(to_hex_lower(&vec![0x00, 0xab, 0x0f]), "00ab0f");
    let m = TelemetryManager::new(true);
    assert_eq!(m.storage_path(), "telemetry_improvement.json");
    let p = m.payload("t".into(), "h".into(), "apply", true, &vec![row()], 3).unwrap();
    assert_eq!(p.action, "apply");
    assert_eq!(p.tasks_executed, 3);
    assert_eq!(p.detected_monitors.len(), 1);
    assert_eq!(p.detected_monitors[0].hw_id, "BNQ78A7");
    assert!(p.detected_monitors[0].is_primary);
    let off = TelemetryManager::new(false);
    assert!(off.payload("t".into(), "h".into(), "apply", true, &vec![], 0).is_none());
    assert!(TelemetryManager::is_expired(2592001));
    assert!(!TelemetryManager::is_expired(2592000));
    let mut r = row();
    r.position_instance = "NOSLASH".into();
    r.primary = "NO".into();
    let s = monitor_stats(&r);
    assert_eq!(s.hw_id, "Unknown");
    assert!(!s.is_primary);
    assert_eq!(upload_url(), "https://pbuloekdtjpuiehbfypz.supabase.co/rest/v1/telemetry");
    let hs = upload_headers("KEY");
    assert_eq!(hs[1], ("Authorization".to_string(), "Bearer KEY".to_string()));
    assert_eq!(hs[3], ("Prefer".to_string(), "return=minimal".to_string()));
}

#[test]
fn saved_suite_hotkeys_are_registered_by_index() {
    let mut a = SuiteConfig::default();
    a.name = "Work".into();
    let mut b = SuiteConfig::default();
    b.name = "Gaming".into();
    b.hotkey = Some("Alt+Shift+G".into());
    b.post_cmd = Some("calc".into());
    let entries = suite_entries(&vec![a, b]);
    assert_eq!(entries.len(), 2);
    assert_eq!(entries[0], ("Work".to_string(), "tasks|".to_string()));
    assert_eq!(entries[1], ("Gaming".to_string(), "tasks|;post|calc;hotkey|Alt+Shift+G".to_string()));
    let regs = hotkey_registrations(&entries);
    assert_eq!(regs.len(), 1);
    assert_eq!(regs[0].id, 1);
    assert_eq!(regs[0].name, "Gaming");
    assert_eq!(regs[0].combo, "Alt+Shift+G");
    assert_eq!((regs[0].modifiers, regs[0].key_code), (0x4000 | 0x0001 | 0x0004, 'G' as u32));
    let names: Vec<String> = entries.iter().map(|e| e.0.clone()).collect();
    assert_eq!(suite_name_at(&names, regs[0].id as usize), Some("Gaming".to_string()));
}

#[test]
fn suites_table_with_stored_texts() {
    let config = "tasks|1:1920:1080:0:0:1:0:60:80:75:0,2:1920:1080:1920:0:0:0:60:80:75:0;hotkey|Ctrl+Alt+W";
    assert!(suite_line_fits(config));
    assert!(suite_line_fits("tasks|short"));
    let long_wide = format!("tasks|{}é{}", "a".repeat(36), "b".repeat(10));
    assert!(!suite_line_fits(&long_wide));
    let table = suites_config_table(&vec![("Work".to_string(), config.to_string())]);
    let rule = "-".repeat(85);
    assert_eq!(table.len(), 6);
    assert_eq!(table[0], "");
    assert_eq!(table[1], "[ KONFIGURIERTE SUITES ]");
    assert_eq!(table[2], rule);
    assert_eq!(
        table[3],
        format!("Suite: {:<18} | Hotkey: {:<12} | Konfig: {}...", "Work", "Ctrl+Alt+W", &config[6..43])
    );
    assert_eq!(table[3], suite_line("Work", config));
    assert_eq!(table[4], rule);
    assert_eq!(table[5], "");
}

#[test]
fn live_rows_one_per_device_at_most_64() {
    let dev = |i: usize, active: bool| LiveDevice {
        name: format!("\\\\.\\DISPLAY{}", i),
        hw_id_path: format!("MONITOR\\X{}", i),
        is_active: active,
        is_primary: i == 0,
        settings: Some(LiveSettings { width: 1920, height: 1080, frequency: 60, x: 5, y: 6 }),
    };
    let devices: Vec<LiveDevice> = (0..70).map(|i| dev(i, i % 2 == 0)).collect();
    let rows = live_rows(&devices);
    assert_eq!(rows.len(), 64);
    for (i, r) in rows.iter().enumerate() {
        assert_eq!(r.name_id, format!("\\\\.\\DISPLAY{}", i));
        assert_eq!(r.source, "GDI_LIVE");
        assert_eq!(r.is_primary, i == 0);
        if i % 2 == 0 {
            assert_eq!(r.active, "YES");
            assert_eq!(r.resolution, "1920x1080");
            assert_eq!((r.x, r.y), (5, 6));
        } else {
            assert_eq!(r.active, "NO");
            assert_eq!(r.resolution, "N/A");
            assert_eq!(r.freq, "N/A");
            assert_eq!((r.x, r.y), (0, 0));
        }
    }
    assert_eq!(live_rows(&devices[..3].to_vec()).len(), 3);
    assert!(live_rows(&vec![]).is_empty());
}

#[test]
fn deployer_hotkey_keeps_modifiers_across_polls() {
    let mut combo: Vec<String> = Vec::new();
    DeploymentManager::add_held_modifiers(&mut combo, false, true, false);
    DeploymentManager::add_held_modifiers(&mut combo, true, true, false);
    DeploymentManager::add_held_modifiers(&mut combo, false, false, false);
    assert_eq!(combo, vec!["Alt".to_string(), "Ctrl".to_string()]);
    assert_eq!(DeploymentManager::finish_hotkey(&combo, b'K'), "Alt+Ctrl+K");
    assert_eq!(DeploymentManager::finish_hotkey(&vec![], b'Z'), "Z");
}
