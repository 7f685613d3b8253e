use displayflow::cli::{parse_task, plan_run, tasks_from_args, Cli, RunPlan};
use displayflow::deployer::DeploymentManager;
use displayflow::engine::{parse_suite_config, suite_run_from_config};
use displayflow::scraper::ddc::DdcCaps;
use displayflow::scraper::{DisplayRow, DisplayTask};

fn task(query: &str, w: i32, h: i32, x: i32, y: i32) -> DisplayTask {
    DisplayTask {
        query: query.to_string(),
        width: w,
        height: h,
        x,
        y,
        is_primary: false,
        direction: None,
        freq: 0,
        brightness: None,
        contrast: None,
        animation: None,
    }
}

#[test]
fn parse_task_readme_first_example() {
    let t = parse_task("1:1920:1080:0:0:1:0:60:60:80:down").unwrap();
    assert_eq!(t.query, "1");
    assert_eq!((t.width, t.height, t.x, t.y), (1920, 1080, 0, 0));
    assert!(t.is_primary);
    assert_eq!(t.direction, None);
    assert_eq!(t.freq, 60);
    assert_eq!(t.brightness, Some(60));
    assert_eq!(t.contrast, Some(80));
    assert_eq!(t.animation.as_deref(), Some("down"));
}

#[test]
fn parse_task_readme_second_example() {
    let t = parse_task("2:1920:1080:0:1080:0:0:60:70:90:up").unwrap();
    assert_eq!(t.query, "2");
    assert_eq!(t.y, 1080);
    assert!(!t.is_primary);
    assert_eq!(t.brightness, Some(70));
    assert_eq!(t.contrast, Some(90));
    assert_eq!(t.animation.as_deref(), Some("up"));
}

#[test]
fn parse_task_minimal_and_optional_fields() {
    let t = parse_task("BNQ78A7:2560:1440:-1920:0").unwrap();
    assert_eq!(t.query, "BNQ78A7");
    assert_eq!(t.x, -1920);
    assert!(!t.is_primary);
    assert_eq!(t.direction, None);
    assert_eq!(t.freq, 0);
    assert_eq!(t.brightness, None);
    assert_eq!(t.contrast, None);
    assert_eq!(t.animation, None);
}

#[test]
fn parse_task_rejects_short_and_bad_numbers() {
    assert!(parse_task("1:1920:1080:0").is_none());
    assert!(parse_task("").is_none());
    assert!(parse_task("1:wide:1080:0:0").is_none());
    assert!(parse_task("1:1920:1080:0:9999999999").is_none());
    assert!(parse_task("1:+:1080:0:0").is_none());
}

#[test]
fn parse_task_numbers_follow_str_parse() {
    let t = parse_task("1:+1920:0001080:-0:+0").unwrap();
    assert_eq!((t.width, t.height, t.x, t.y), (1920, 1080, 0, 0));
    let t = parse_task("1:-2147483648:2147483647:0:0").unwrap();
    assert_eq!(t.width, i32::MIN);
    assert_eq!(t.height, i32::MAX);
    assert!(parse_task("1:2147483648:0:0:0").is_none());
}

#[test]
fn parse_task_percent_fields() {
    let t = parse_task("1:1:1:0:0:0:0:abc:101:xyz").unwrap();
    assert_eq!(t.freq, 0);
    assert_eq!(t.brightness, None);
    assert_eq!(t.contrast, None);
    let t = parse_task("1:1:1:0:0:0:0:144:100:0").unwrap();
    assert_eq!(t.freq, 144);
    assert_eq!(t.brightness, Some(100));
    assert_eq!(t.contrast, Some(0));
}

#[test]
fn parse_task_direction_and_primary_text() {
    let t = parse_task("1:1:1:0:0:yes:90").unwrap();
    assert!(!t.is_primary);
    assert_eq!(t.direction.as_deref(), Some("90"));
    let t = parse_task("1:1:1:0:0:1:left:0:0:0:0").unwrap();
    assert!(t.is_primary);
    assert_eq!(t.direction.as_deref(), Some("left"));
    assert_eq!(t.animation, None);
}

#[test]
fn format_task_args_writes_placeholders() {
    let mut a = task("1", 1920, 1080, 0, 0);
    a.is_primary = true;
    a.freq = 60;
    a.brightness = Some(60);
    let mut b = task("2", 1280, 720, -1280, 0);
    b.direction = Some("90".to_string());
    b.animation = Some("up".to_string());
    let text = DeploymentManager::format_task_args(&vec![a, b]);
    assert_eq!(text, "1:1920:1080:0:0:1:0:60:60:999:0,2:1280:720:-1280:0:0:90:0:999:999:up");
    assert_eq!(DeploymentManager::format_task_args(&vec![]), "");
}

#[test]
fn task_text_roundtrip_concrete() {
    let mut a = task("BNQ78A7", 2560, 1440, -2560, 120);
    a.is_primary = true;
    a.direction = Some("right".to_string());
    a.freq = 144;
    a.brightness = Some(100);
    a.contrast = Some(0);
    a.animation = Some("left".to_string());
    let text = DeploymentManager::format_task_args(&vec![a.clone()]);
    let back = parse_task(&text).unwrap();
    assert_eq!(back.query, a.query);
    assert_eq!((back.width, back.height, back.x, back.y), (a.width, a.height, a.x, a.y));
    assert_eq!(back.is_primary, a.is_primary);
    assert_eq!(back.direction, a.direction);
    assert_eq!(back.freq, a.freq);
    assert_eq!(back.brightness, a.brightness);
    assert_eq!(back.contrast, a.contrast);
    assert_eq!(back.animation, a.animation);
}

#[test]
fn suite_config_text_and_roundtrip() {
    let mut a = task("1", 1920, 1080, 0, 0);
    a.brightness = Some(40);
    let b = task("2", 0, 0, 1920, 0);
    let tasks = vec![a, b];
    let text = DeploymentManager::suite_config(&tasks, &Some("notepad".to_string()), &Some("Ctrl+Alt+D".to_string()));
    assert_eq!(
        text,
        "tasks|1:1920:1080:0:0:0:0:0:40:999:0,2:0:0:1920:0:0:0:0:999:999:0;post|notepad;hotkey|Ctrl+Alt+D"
    );
    let (back, post) = parse_suite_config(&text);
    assert_eq!(back.len(), 2);
    assert_eq!(back[0].brightness, Some(40));
    assert_eq!(back[1].x, 1920);
    assert_eq!(post.as_deref(), Some("notepad"));
    let empty = DeploymentManager::suite_config(&vec![], &None, &None);
    assert_eq!(empty, "tasks|");
    let (none, post) = parse_suite_config(&empty);
    assert!(none.is_empty());
    assert!(post.is_none());
}

#[test]
fn suite_config_parsing_skips_and_repeats() {
    let (tasks, post) = parse_suite_config("junk;tasks|1:1:1:0:0,bad;post|a;tasks|2:2:2:0:0;post|b");
    assert_eq!(tasks.len(), 2);
    assert_eq!(tasks[0].query, "1");
    assert_eq!(tasks[1].query, "2");
    assert_eq!(post.as_deref(), Some("b"));
}

#[test]
fn suite_run_post_command_needs_tasks() {
    let run = suite_run_from_config("tasks|1:1:1:0:0;post|calc");
    assert_eq!(run.tasks.len(), 1);
    assert_eq!(run.post_cmd.as_deref(), Some("calc"));
    let run = suite_run_from_config("tasks|;post|calc");
    assert!(run.tasks.is_empty());
    assert!(run.post_cmd.is_none());
}

#[test]
fn base_name_and_shortcut_texts() {
    assert_eq!(DeploymentManager::base_name("Gaming.bat"), "Gaming");
    assert_eq!(DeploymentManager::base_name("Gaming"), "Gaming");
    assert_eq!(DeploymentManager::base_name(".bat"), "");
    assert_eq!(DeploymentManager::apply_suite_args("Work"), "--apply-suite \"Work\"");
    assert_eq!(DeploymentManager::shortcut_hotkey(&Some("Ctrl+Alt+W".to_string()), true), "Ctrl+Alt+W");
    assert_eq!(DeploymentManager::shortcut_hotkey(&Some("Ctrl+Alt+W".to_string()), false), "");
    assert_eq!(DeploymentManager::shortcut_hotkey(&None, true), "");
    let script = DeploymentManager::shortcut_script("Work", "C:\\df.exe", "--apply-suite \"Work\"", "C:\\DF.ico", "Ctrl+Alt+W");
    let expected = format!(
        "$ws = New-Object -ComObject WScript.Shell; \
         $lnk = $ws.CreateShortcut((Join-Path ([Environment]::GetFolderPath('Desktop')) 'df_{}.lnk')); \
         $lnk.TargetPath = '{}'; $lnk.Arguments = '{}'; $lnk.Hotkey = '{}'; \
         if (Test-Path '{}') {{ $lnk.IconLocation = '{}' }}; $lnk.Save();",
        "Work", "C:\\df.exe", "--apply-suite \"Work\"", "Ctrl+Alt+W", "C:\\DF.ico", "C:\\DF.ico"
    );
    assert_eq!(script, expected);
}

fn row(pid: u32, resolution: &str, freq: &str) -> DisplayRow {
    DisplayRow {
        source: "synth_data".into(),
        name_id: "\\\\.\\DISPLAY1".into(),
        resolution: resolution.into(),
        freq: freq.into(),
        dpi: "100%".into(),
        scale_percent: 100,
        position_instance: "MONITOR\\BNQ78A7\\{4d36e96e}".into(),
        active: "YES".into(),
        primary: "YES".into(),
        serial: "ET12345".into(),
        size_mm: "600x340mm".into(),
        persistent_id: pid,
        x: -1920,
        y: 10,
        is_primary: true,
        ddc: Some(DdcCaps { brightness: 70, contrast: 50, input_source: 15 }),
    }
}

#[test]
fn to_task_reads_resolution_and_frequency() {
    let t = row(3, "2560x1440", "144Hz").to_task();
    assert_eq!(t.query, "3");
    assert_eq!((t.width, t.height, t.x, t.y), (2560, 1440, -1920, 10));
    assert!(t.is_primary);
    assert_eq!(t.freq, 144);
    assert_eq!(t.brightness, Some(70));
    assert_eq!(t.contrast, Some(50));
    assert_eq!(t.direction, None);
    assert_eq!(t.animation, None);
}

#[test]
fn to_task_defaults_on_unknown_values() {
    let mut r = row(0, "N/A", "N/A");
    r.ddc = None;
    let t = r.to_task();
    assert_eq!((t.width, t.height), (0, 0));
    assert_eq!(t.freq, 0);
    assert_eq!(t.brightness, None);
    let t = row(1, "1920", " 60 Hz ").to_task();
    assert_eq!((t.width, t.height), (1920, 0));
    assert_eq!(t.freq, 60);
    let t = row(1, "1920x", "6HHzz0").to_task();
    assert_eq!(t.height, 0);
    assert_eq!(t.freq, 0);
}

#[test]
fn saved_layout_keeps_mode() {
    let r = row(7, "1280x1024", "75Hz");
    let t = r.to_task();
    let text = DeploymentManager::format_task_args(&vec![t]);
    let back = parse_task(&text).unwrap();
    assert_eq!((back.width, back.height, back.freq), (1280, 1024, 75));
    assert_eq!(back.query, "7");
}

fn cli() -> Cli {
    Cli::default()
}

#[test]
fn tasks_from_args_skip_bad_and_set_animation() {
    let args = vec!["1:1:1:0:0".to_string(), "bad".to_string(), "2:2:2:0:0:0:0:0:0:0:up".to_string()];
    let t = tasks_from_args(&args, &Some("left".to_string()));
    assert_eq!(t.len(), 2);
    assert_eq!(t[0].animation.as_deref(), Some("left"));
    assert_eq!(t[1].animation.as_deref(), Some("left"));
    let t = tasks_from_args(&args, &None);
    assert_eq!(t[0].animation, None);
    assert_eq!(t[1].animation.as_deref(), Some("up"));
}

#[test]
fn plan_run_order_of_modes() {
    let mut c = cli();
    c.scan = true;
    c.daemon = true;
    assert!(matches!(plan_run(&c), RunPlan::Scan));
    let mut c = cli();
    c.daemon = true;
    c.apply_suite = Some("Work".into());
    assert!(matches!(plan_run(&c), RunPlan::Daemon));
    let mut c = cli();
    c.apply_suite = Some("Work".into());
    c.silent = true;
    match plan_run(&c) {
        RunPlan::ApplySuite { name, silent } => {
            assert_eq!(name, "Work");
            assert!(silent);
        }
        _ => panic!("expected ApplySuite"),
    }
    let mut c = cli();
    c.save = Some("Gaming".into());
    c.hotkey = true;
    c.linkdesktop = Some("plain".into());
    match plan_run(&c) {
        RunPlan::Save { name, tasks, from_inventory, record_hotkey, post, create_link } => {
            assert_eq!(name, "Gaming");
            assert!(tasks.is_empty());
            assert!(from_inventory);
            assert!(record_hotkey);
            assert!(post.is_none());
            assert!(create_link);
        }
        _ => panic!("expected Save"),
    }
    let mut c = cli();
    c.tasks = vec!["1:1920:1080:0:0".into()];
    match plan_run(&c) {
        RunPlan::Apply { tasks } => assert_eq!(tasks.len(), 1),
        _ => panic!("expected Apply"),
    }
    let mut c = cli();
    c.tasks = vec!["nope".into()];
    assert!(matches!(plan_run(&c), RunPlan::Nothing));
}
