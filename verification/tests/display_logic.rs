use displayflow::ddc_control::{find_matching_device, vcp_writes, DdcCommand, DdcControl, VcpWrite};
use displayflow::display_apply::{
    animation_directions, map_rotation, plan_apply, resolve_target_id, ApplyStep, DdcRequest, OutputIdentity,
    Rotation,
};
use displayflow::display_controller::DisplayLogic;
use displayflow::display_snapshot::{match_display, DisplayRestorer, SavedOutput};
use displayflow::engine::{
    engine_followup, fallback_modes, find_monitor_by_name, plan_engine_apply, primary_first, restore_mode,
    restore_modes, should_commit, stage_mode, was_inactive, EngineDdc, MonitorDdc, Orientation, SnapshotEntry,
};
use displayflow::config::SuiteConfig;
use displayflow::hw_init::{inactive_names, is_active_row};
use displayflow::scraper::ddc::DdcCaps;
use displayflow::scraper::synth::{is_candidate, merge_live_row, synthesize_inventory};
use displayflow::scraper::{DisplayRow, DisplayTask};

fn task(query: &str, w: i32, h: i32) -> DisplayTask {
    DisplayTask {
        query: query.to_string(),
        width: w,
        height: h,
        x: 0,
        y: 0,
        is_primary: false,
        direction: None,
        freq: 0,
        brightness: None,
        contrast: None,
        animation: None,
    }
}

fn row(pid: u32, name: &str, serial: &str, path: &str) -> DisplayRow {
    DisplayRow {
        source: "synth_data".into(),
        name_id: name.into(),
        resolution: "1920x1080".into(),
        freq: "60Hz".into(),
        dpi: "100%".into(),
        scale_percent: 100,
        position_instance: path.into(),
        active: "YES".into(),
        primary: "NO".into(),
        serial: serial.into(),
        size_mm: "N/A".into(),
        persistent_id: pid,
        x: 0,
        y: 0,
        is_primary: false,
        ddc: None,
    }
}

#[test]
fn match_display_by_id_name_serial_and_hardware() {
    let r = row(3, "\\\\.\\DISPLAY1", "ET12345", "MONITOR\\BNQ78A7\\{4d36e96e}");
    assert!(match_display(&r, "3"));
    assert!(match_display(&r, "\\\\.\\display1"));
    assert!(match_display(&r, "et12345"));
    assert!(match_display(&r, "bnq78a7"));
    assert!(!match_display(&r, "4"));
    assert!(!match_display(&r, "MONITOR"));
    let plain = row(0, "A", "B", "NOPATH");
    assert!(!match_display(&plain, "NOPATH"));
}

#[test]
fn rotation_names() {
    assert_eq!(map_rotation(&Some("90".into())), Some(Rotation::Rotate90));
    assert_eq!(map_rotation(&Some("right".into())), Some(Rotation::Rotate90));
    assert_eq!(map_rotation(&Some("inverted".into())), Some(Rotation::Rotate180));
    assert_eq!(map_rotation(&Some("180".into())), Some(Rotation::Rotate180));
    assert_eq!(map_rotation(&Some("left".into())), Some(Rotation::Rotate270));
    assert_eq!(map_rotation(&Some("270".into())), Some(Rotation::Rotate270));
    assert_eq!(map_rotation(&Some("1".into())), Some(Rotation::Rotate90));
    assert_eq!(map_rotation(&Some("2".into())), Some(Rotation::Rotate180));
    assert_eq!(map_rotation(&Some("3".into())), Some(Rotation::Rotate270));
    assert_eq!(map_rotation(&Some("4".into())), None);
    assert_eq!(map_rotation(&Some("up".into())), None);
    assert_eq!(map_rotation(&None), None);
}

fn output(name: &str, id: &str, conn: &str, hw: Option<&str>) -> OutputIdentity {
    OutputIdentity {
        monitor_name: name.into(),
        id: id.into(),
        connector_id: conn.into(),
        hardware_uuid: hw.map(|s| s.to_string()),
    }
}

#[test]
fn resolve_target_prefers_name_then_connector_then_serial() {
    let r = row(1, "\\\\.\\DISPLAY1", "ET12345", "X\\Y");
    let outs = vec![output("  \\\\.\\DISPLAY1 ", "abc", "7", None)];
    assert_eq!(resolve_target_id(&outs, &r), Some(7));
    let outs = vec![output("\\\\.\\DISPLAY1", "12", "7", None)];
    assert_eq!(resolve_target_id(&outs, &r), Some(12));
    let outs = vec![output("other", "99", "1", Some("ET12345"))];
    assert_eq!(resolve_target_id(&outs, &r), Some(99));
    let outs = vec![output("", "5", "1", Some(""))];
    let r2 = row(1, "", "", "X\\Y");
    assert_eq!(resolve_target_id(&outs, &r2), None);
    let outs = vec![output("other", "x", "1", None), output("\\\\.\\DISPLAY1", "x", "y", Some("ET12345")), output("\\\\.\\DISPLAY1", "4", "1", None)];
    assert_eq!(resolve_target_id(&outs, &r), Some(4));
    assert_eq!(resolve_target_id(&vec![], &r), None);
}

#[test]
fn animation_directions_skip_zero() {
    let mut a = task("1", 1, 1);
    a.animation = Some("up".into());
    let mut b = task("2", 1, 1);
    b.animation = Some("0".into());
    let c = task("3", 1, 1);
    let mut d = task("4", 1, 1);
    d.animation = Some("left".into());
    assert_eq!(animation_directions(&vec![a, b, c, d]), vec!["up".to_string(), "left".to_string()]);
}

#[test]
fn plan_apply_steps() {
    let inv = vec![
        row(1, "\\\\.\\DISPLAY1", "S1", "MONITOR\\AAA0001\\x"),
        row(2, "\\\\.\\DISPLAY2", "S2", "MONITOR\\BBB0002\\x"),
    ];
    let outs = vec![output("\\\\.\\DISPLAY1", "11", "0", None)];
    let devices = vec!["Monitor on \\\\.\\DISPLAY1".to_string()];
    let mut t1 = task("1", 1920, 1080);
    t1.x = -1920;
    t1.direction = Some("left".into());
    t1.brightness = Some(30);
    t1.is_primary = true;
    t1.freq = 144;
    let t2 = task("2", 800, 600);
    let t3 = task("nothing", 800, 600);
    let plan = plan_apply(&vec![t1, t2, t3], &inv, &outs, &devices);
    assert!(plan.directions.is_empty());
    assert_eq!(plan.steps.len(), 3);
    match &plan.steps[0] {
        ApplyStep::Activate { name_id, target_id, x, y, width, height, rotation, primary, frequency, ddc } => {
            assert!(*primary);
            assert_eq!(*frequency, Some(144));
            assert_eq!(name_id, "\\\\.\\DISPLAY1");
            assert_eq!(*target_id, 11);
            assert_eq!((*x, *y, *width, *height), (-1920, 0, 1920, 1080));
            assert_eq!(*rotation, Some(Rotation::Rotate270));
            assert_eq!(*ddc, Some(DdcRequest { index: 0, brightness: Some(30), contrast: None }));
        }
        _ => panic!("expected an activation"),
    }
    match &plan.steps[1] {
        ApplyStep::NoTarget { name_id } => assert_eq!(name_id, "\\\\.\\DISPLAY2"),
        _ => panic!("expected no target"),
    }
    assert!(matches!(plan.steps[2], ApplyStep::NoMatch));
}

#[test]
fn stage_mode_swaps_and_detaches() {
    let mut t = task("1", 1920, 1080);
    t.direction = Some("90".into());
    t.freq = 144;
    t.is_primary = true;
    let m = stage_mode(&t);
    assert_eq!((m.width, m.height), (1080, 1920));
    assert_eq!(m.orientation, Orientation::Rotate90);
    assert_eq!(m.frequency, Some(144));
    assert!(m.set_primary);
    assert!(!m.detach);
    let mut t = task("1", 0, 0);
    t.direction = Some("inverted".into());
    let m = stage_mode(&t);
    assert!(m.detach);
    assert_eq!((m.width, m.height), (0, 0));
    assert_eq!(m.frequency, None);
    assert_eq!(m.orientation, Orientation::Rotate180);
    let m = stage_mode(&task("1", -5, 10));
    assert_eq!(m.width, (-5i32) as u32);
    assert_eq!(m.orientation, Orientation::Default);
}

#[test]
fn primary_tasks_come_first_in_order() {
    let mut a = task("a", 1, 1);
    let mut b = task("b", 1, 1);
    b.is_primary = true;
    let c = task("c", 1, 1);
    let mut d = task("d", 1, 1);
    d.is_primary = true;
    a.freq = 1;
    let sorted = primary_first(&vec![a, b, c, d]);
    let names: Vec<&str> = sorted.iter().map(|t| t.query.as_str()).collect();
    assert_eq!(names, vec!["b", "d", "a", "c"]);
    assert_eq!(sorted[2].freq, 1);
}

#[test]
fn snapshot_lookup_trims_nul_padding() {
    let snap = vec![
        SnapshotEntry { name: "\\\\.\\DISPLAY1\0\0\0".into(), active: false },
        SnapshotEntry { name: "\\\\.\\DISPLAY2".into(), active: true },
    ];
    assert!(was_inactive(&snap, "\\\\.\\DISPLAY1"));
    assert!(!was_inactive(&snap, "\\\\.\\DISPLAY2"));
    assert!(!was_inactive(&snap, "\\\\.\\DISPLAY3"));
}

#[test]
fn engine_plan_orders_and_delays() {
    let inv = vec![row(1, "\\\\.\\DISPLAY1", "S1", "M\\A\\x"), row(2, "\\\\.\\DISPLAY2", "S2", "M\\B\\x")];
    let snap = vec![SnapshotEntry { name: "\\\\.\\DISPLAY2\0".into(), active: false }];
    let mut t1 = task("1", 1920, 1080);
    t1.contrast = Some(40);
    let mut t2 = task("2", 1280, 720);
    t2.is_primary = true;
    t2.brightness = Some(10);
    let t3 = task("9", 1, 1);
    let mut t4 = task("1", 1, 1);
    t4.animation = Some("down".into());
    let plan = plan_engine_apply(&vec![t1, t2, t3, t4], &inv, &snap);
    assert_eq!(plan.directions, vec!["down".to_string()]);
    assert_eq!(plan.steps.len(), 3);
    assert_eq!(plan.steps[0].name_id, "\\\\.\\DISPLAY2");
    assert_eq!(plan.steps[0].ddc, Some(EngineDdc { brightness: Some(10), contrast: None, delay: true }));
    assert!(plan.steps[0].mode.set_primary);
    assert_eq!(plan.steps[1].name_id, "\\\\.\\DISPLAY1");
    assert_eq!(plan.steps[1].ddc, Some(EngineDdc { brightness: None, contrast: Some(40), delay: false }));
    assert_eq!(plan.steps[2].ddc, None);
    assert_eq!(fallback_modes(), vec![(1920, 1080), (1280, 720)]);
}

#[test]
fn ddc_device_matching_and_writes() {
    let devices = vec!["Generic PnP Monitor".to_string(), "DELL U2720Q (\\\\.\\DISPLAY2)".to_string()];
    assert_eq!(find_matching_device(&devices, "\\\\.\\DISPLAY2"), Some(1));
    assert_eq!(find_matching_device(&devices, "Generic PnP Monitor #2"), Some(0));
    assert_eq!(find_matching_device(&devices, "Other"), None);
    assert_eq!(vcp_writes(Some(30), Some(40)), vec![VcpWrite::Brightness(30), VcpWrite::Feature(0x12, 40)]);
    assert_eq!(vcp_writes(None, Some(40)), vec![VcpWrite::Feature(0x12, 40)]);
    assert!(vcp_writes(None, None).is_empty());
    let (tx, rx) = std::sync::mpsc::channel();
    let ctl = DdcControl::from_parts(tx, devices);
    assert_eq!(ctl.find_device_index_by_name("DELL"), Some(1));
    ctl.apply_by_index(1, Some(5), None, true);
    let cmd: DdcCommand = rx.recv().unwrap();
    assert_eq!(cmd.index(), 1);
    assert!(cmd.delay());
    assert_eq!(cmd.writes(), vec![VcpWrite::Brightness(5)]);
    let logic = DisplayLogic::with_ddc(ctl);
    let plan = logic.plan(&vec![], &vec![], &vec![]);
    assert!(plan.steps.is_empty());
}

#[test]
fn suite_run_from_record() {
    let mut cfg = SuiteConfig::default();
    cfg.post_cmd = Some("calc".into());
    let run = DisplayLogic::suite_run(cfg.clone());
    assert!(run.tasks.is_empty());
    assert!(run.post_cmd.is_none());
    cfg.tasks = vec![task("1", 1, 1)];
    let run = DisplayLogic::suite_run(cfg);
    assert_eq!(run.tasks.len(), 1);
    assert_eq!(run.post_cmd.as_deref(), Some("calc"));
}

#[test]
fn restorer_holds_snapshot() {
    let r = DisplayRestorer::new(vec![SavedOutput { id: "1".into(), enabled: true, x: 0, y: 0, width: 1920, height: 1080 }]);
    assert_eq!(r.len(), 1);
    assert_eq!(r.snapshot[0].width, 1920);
}

#[test]
fn merge_live_row_fills_serial_size_ddc() {
    let live = row(0, "\\\\.\\DISPLAY1", "N/A", "MONITOR\\BNQ78A7\\x");
    let reg = row(0, "BNQ78A7", "ET999", "inst");
    let mut reg = reg;
    reg.size_mm = "600x340mm".into();
    let ddc = vec![
        ("nothing".to_string(), DdcCaps { brightness: 1, contrast: 1, input_source: 1 }),
        ("BNQ78A7".to_string(), DdcCaps { brightness: 55, contrast: 45, input_source: 15 }),
    ];
    let merged = merge_live_row(live.clone(), Some(&reg), "FALLBACK", &ddc, 4);
    assert_eq!(merged.source, "synth_data");
    assert_eq!(merged.serial, "ET999");
    assert_eq!(merged.size_mm, "600x340mm");
    assert_eq!(merged.persistent_id, 4);
    assert_eq!(merged.ddc.unwrap().brightness, 55);
    let merged = merge_live_row(live.clone(), None, "FALLBACK", &vec![], 2);
    assert_eq!(merged.serial, "FALLBACK");
    assert!(merged.ddc.is_none());
    let mut empty_path = live;
    empty_path.position_instance = String::new();
    assert!(!is_candidate(&empty_path));
}

#[test]
fn inactive_rows_by_active_text() {
    let mut a = row(1, "A", "", "x");
    a.active = "yes".into();
    let mut b = row(2, "B", "", "x");
    b.active = "NO".into();
    let mut c = row(3, "C", "", "x");
    c.active = "STORED".into();
    assert!(is_active_row(&a));
    assert!(!is_active_row(&b));
    assert_eq!(inactive_names(&vec![a, b, c]), vec!["B".to_string(), "C".to_string()]);
}

#[test]
fn engine_ddc_follows_successful_stage_and_commit_needs_one() {
    let inv = vec![row(1, "\\\\.\\DISPLAY1", "S1", "M\\A\\x")];
    let mut t = task("1", 1920, 1080);
    t.brightness = Some(70);
    let plan = plan_engine_apply(&vec![t], &inv, &vec![]);
    let monitors = vec![(11isize, "\\\\.\\DISPLAY10".to_string()), (22isize, "\\\\.\\DISPLAY1".to_string())];
    assert_eq!(find_monitor_by_name(&monitors, "\\\\.\\DISPLAY1"), Some(22));
    assert_eq!(find_monitor_by_name(&monitors, "DISPLAY1"), None);
    let d = MonitorDdc { h_monitor: 22, brightness: Some(70), contrast: None, delay: false };
    assert_eq!(engine_followup(&plan.steps[0], true, &monitors), Some(d));
    assert_eq!(engine_followup(&plan.steps[0], false, &monitors), None);
    assert_eq!(engine_followup(&plan.steps[0], true, &vec![(5isize, "Monitor on \\\\.\\DISPLAY1".to_string())]), None);
    assert!(!should_commit(&vec![]));
    assert!(!should_commit(&vec![false, false]));
    assert!(should_commit(&vec![false, true, false]));
    assert_eq!(restore_mode(true).detach, false);
    assert_eq!(restore_mode(true).orientation, true);
    assert_eq!(restore_mode(false).detach, true);
    assert_eq!(restore_mode(false).orientation, false);
    let modes = restore_modes(&vec![true, false, true]);
    assert_eq!(modes, vec![restore_mode(true), restore_mode(false), restore_mode(true)]);
}

#[test]
fn inventory_keeps_order_matches_registry_and_assigns_ids() {
    let mut a = row(0, "\\\\.\\DISPLAY1", "N/A", "MONITOR\\BNQ78A7\\{x}");
    a.source = "GDI_LIVE".into();
    let mut skipped = row(0, "\\\\.\\DISPLAY2", "N/A", "");
    skipped.source = "GDI_LIVE".into();
    let mut b = row(0, "\\\\.\\DISPLAY3", "N/A", "MONITOR\\DEL0001\\{y}");
    b.source = "GDI_LIVE".into();
    let mut c = row(0, "\\\\.\\DISPLAY4", "", "MONITOR\\SAM0002\\{z}");
    c.source = "GDI_LIVE".into();
    let mut reg = row(0, "BNQ78A7", "ET999", "inst");
    reg.size_mm = "600x340mm".into();
    let registry = vec![reg];
    let ids = vec![
        ("MONITOR\\BNQ78A7\\{x}|ET999".to_string(), 3),
        ("MONITOR\\DEL0001\\{y}".to_string(), 7),
    ];
    let (rows, new_ids) = synthesize_inventory(&vec![a, skipped, b, c], &registry, &vec![], &ids);
    assert_eq!(rows.len(), 3);
    assert_eq!(rows[0].serial, "ET999");
    assert_eq!(rows[0].size_mm, "600x340mm");
    assert_eq!(rows[0].source, "synth_data");
    assert_eq!(rows[0].persistent_id, 3);
    let b_serial = "\\\\.\\DISPLAY3#MONITOR\\DEL0001\\{y}";
    assert_eq!(rows[1].serial, b_serial);
    assert_eq!(rows[1].persistent_id, 7);
    assert_eq!(rows[2].name_id, "\\\\.\\DISPLAY4");
    assert_eq!(rows[2].persistent_id, 8);
    let c_serial = "\\\\.\\DISPLAY4#MONITOR\\SAM0002\\{z}";
    assert_eq!(
        new_ids,
        vec![
            (format!("MONITOR\\DEL0001\\{{y}}|{}", b_serial), 7),
            ("MONITOR\\SAM0002\\{z}".to_string(), 8),
            (format!("MONITOR\\SAM0002\\{{z}}|{}", c_serial), 8),
        ]
    );
    let (again, more) = synthesize_inventory(&vec![], &registry, &vec![], &vec![]);
    assert!(again.is_empty() && more.is_empty());
}
