use safai::commands::{
    acquire_activity, applied_config, drive_info_result, is_autostart_launch, parks_in_tray, rule_infos, tool_infos,
    wants_autostart,
};
use safai::schedule::config::ScheduleConfig;
use safai::error::SafaiError;
use safai::fast_readdir::is_dot_or_dotdot;
use safai::model::{Category, CategoryGroup, CleanupItem, SafetyTier, ScanReport};
use safai::rules::all_rules;
use safai::schedule::config::RunPhase;
use safai::schedule::decision::DiskUsage;
use safai::state::SafaiState;
use safai::schedule::runner::disk_status;
use safai::tray::{
    capitalize, format_delta, format_when, format_when_at, menu_action, secs_until, status_line, tooltip, tray_menu, TrayAction,
    TrayEntry,
};
use safai::winsys::{idle_secs, on_battery, BackgroundMode};

#[test]
fn the_activity_gate_admits_one_holder_at_a_time() {
    let mut state = SafaiState::new(vec!["C:/Users/x".to_string()]);
    assert!(!state.is_busy());
    let hold = state.try_acquire().expect("an idle gate admits");
    assert!(state.is_busy());
    assert!(state.try_acquire().is_none(), "a second claim is refused");
    match acquire_activity(&mut state) {
        Err(SafaiError::Other(m)) => assert_eq!(m, "a scan or cleanup is already running"),
        _ => panic!("expected the busy refusal"),
    }
    state.release(hold);
    assert!(!state.is_busy());
    assert!(acquire_activity(&mut state).is_ok());
}

#[test]
fn the_ui_engaged_flag_is_independent_of_the_gate() {
    let mut state = SafaiState::new(Vec::new());
    assert!(!state.is_ui_engaged());
    state.set_ui_engaged(true);
    assert!(state.is_ui_engaged());
    assert!(!state.is_busy());
    state.set_ui_engaged(false);
    assert!(!state.is_ui_engaged());
}

#[test]
fn remembered_findings_resolve_by_id() {
    let mut state = SafaiState::new(Vec::new());
    let it = CleanupItem {
        id: "abc".to_string(),
        rule_id: "npm-cache".to_string(),
        label: "npm".to_string(),
        category: Category::PackageCache,
        tier: SafetyTier::Safe,
        path: "C:/npm".to_string(),
        size_bytes: 9,
        regenerates: true,
        last_modified_secs: None,
        note: String::new(),
        selected_by_default: true,
    };
    let report = ScanReport {
        total_reclaimable_bytes: 9,
        groups: vec![CategoryGroup {
            category: Category::PackageCache,
            label: "Package caches".to_string(),
            total_bytes: 9,
            items: vec![it],
        }],
        scanned_roots: Vec::new(),
        warnings: Vec::new(),
    };
    state.remember_items(&report);
    assert_eq!(state.last_items.get("abc").map(|i| i.path.as_str()), Some("C:/npm"));
}

#[test]
fn drive_read_outs() {
    let ok = drive_info_result("C:/", "C:".to_string(), Some((10, 100)), true).ok().unwrap();
    assert_eq!((ok.mount.as_str(), ok.free_bytes, ok.total_bytes), ("C:", 10, 100));
    match drive_info_result("C:/", "C:".to_string(), None, true) {
        Err(SafaiError::Other(m)) => assert_eq!(m, "failed to query disk space for C:/"),
        _ => panic!("a failed query is an error on Windows"),
    }
    let zeros = drive_info_result("/", "/".to_string(), None, false).ok().unwrap();
    assert_eq!((zeros.free_bytes, zeros.total_bytes), (0, 0));
}

#[test]
fn tool_and_rule_listings() {
    let tools = tool_infos(vec![("npm".to_string(), "npm".to_string(), true)]);
    assert_eq!(tools.len(), 1);
    assert!(tools[0].detected);
    let rules = all_rules();
    let infos = rule_infos(&rules);
    assert_eq!(infos.len(), rules.len());
    let nm = infos.iter().find(|r| r.id == "node-modules").unwrap();
    assert!(nm.pattern_based);
    let npm = infos.iter().find(|r| r.id == "npm-cache").unwrap();
    assert!(!npm.pattern_based);
    assert_eq!(npm.category, Category::PackageCache);
}

#[test]
fn tray_text() {
    assert_eq!(capitalize("waiting for power"), "Waiting for power");
    assert_eq!(capitalize(""), "");
    assert_eq!(capitalize("\u{df}x"), "SSx");
    assert_eq!(format_delta(-5), "now");
    assert_eq!(format_delta(59), "now");
    assert_eq!(format_delta(60), "in 1m");
    assert_eq!(format_delta(40 * 60 + 59), "in 40m");
    assert_eq!(format_delta(6 * 3600 + 1), "in 6h");
    assert_eq!(format_delta(3 * 86400 + 7), "in 3d");
    assert_eq!(secs_until(1000, 900, 0), Some(100));
    assert_eq!(secs_until(1000, 900, 500), Some(99));
    assert_eq!(secs_until(900, 1000, 500), Some(-100));
    assert_eq!(format_when(0), "now");
    assert_eq!(format_when(u64::MAX), "now", "read as one second before the epoch");
    assert_eq!(format_when_at(1_000, true, Some((900, 0))), "in 1m");
    assert_eq!(format_when_at(1_000 + 6 * 3600, true, Some((1_000, 1))), "in 5h");
    assert_eq!(format_when_at(1_000, false, Some((900, 0))), "soon");
    assert_eq!(format_when_at(1_000, true, None), "soon");
    assert_eq!(format_when_at(i64::MIN, true, Some((u64::MAX, 0))), "soon");
    let reason = Some("paused while you're using the Clean screen".to_string());
    assert_eq!(
        status_line(false, RunPhase::Idle, 0, 0, &reason, true, &None),
        "Paused while you're using the Clean screen"
    );
    assert_eq!(status_line(true, RunPhase::Cleaning, 0, 2048, &None, true, &None), "Cleaning\u{2026} 2.0 KB freed");
    assert_eq!(status_line(true, RunPhase::Scanning, 512, 0, &None, true, &None), "Scanning\u{2026} 512 B found");
    assert_eq!(status_line(false, RunPhase::Idle, 0, 0, &None, false, &None), "Automation is off");
    assert_eq!(
        status_line(false, RunPhase::Idle, 0, 0, &None, true, &Some("in 3d".to_string())),
        "Next run in 3d"
    );
    assert_eq!(status_line(false, RunPhase::Idle, 0, 0, &None, true, &None), "Watching disk usage");
    assert_eq!(
        tooltip(Some(DiskUsage { used_bytes: 857, total_bytes: 1000 }), "Watching disk usage"),
        "Safai \u{2014} drive 86% full\nWatching disk usage"
    );
    assert_eq!(tooltip(None, "x"), "Safai\nx");
}

#[test]
fn system_readings() {
    assert_eq!(idle_secs(None), 0);
    assert_eq!(idle_secs(Some((10_000, 4_000))), 6);
    assert_eq!(idle_secs(Some((1_000, u32::MAX - 999))), 2, "the tick counter wraps");
    assert!(on_battery(Some(0)));
    assert!(!on_battery(Some(1)));
    assert!(!on_battery(Some(255)));
    assert!(!on_battery(None));
    assert!(BackgroundMode::enter(true).leave());
    assert!(!BackgroundMode::enter(false).leave());
}

#[test]
fn listings_skip_dot_entries() {
    assert!(is_dot_or_dotdot(&[46]));
    assert!(is_dot_or_dotdot(&[46, 46]));
    assert!(!is_dot_or_dotdot(&[46, 46, 46]));
    assert!(!is_dot_or_dotdot(&[97]));
    assert!(!is_dot_or_dotdot(&[]));
}

#[test]
fn the_tray_menu_follows_the_run_state() {
    let idle = tray_menu(&Some((true, false, "Next run in 3d".to_string())));
    assert_eq!(idle.len(), 9);
    assert_eq!(idle[0], TrayEntry::Item { id: "status", label: "Next run in 3d".to_string(), enabled: false });
    assert_eq!(idle[4], TrayEntry::Item { id: "run_now", label: "Run maintenance now".to_string(), enabled: true });
    assert_eq!(idle[5], TrayEntry::Item { id: "stop", label: "Stop".to_string(), enabled: false });
    assert_eq!(idle[6], TrayEntry::Item { id: "toggle", label: "Turn automation off".to_string(), enabled: true });
    assert_eq!(idle[7], TrayEntry::Separator);
    let running = tray_menu(&Some((false, true, "Scanning".to_string())));
    assert_eq!(running[4], TrayEntry::Item { id: "run_now", label: "Run maintenance now".to_string(), enabled: false });
    assert_eq!(running[5], TrayEntry::Item { id: "stop", label: "Stop".to_string(), enabled: true });
    assert_eq!(running[6], TrayEntry::Item { id: "toggle", label: "Turn automation on".to_string(), enabled: true });
    let first = tray_menu(&None);
    assert_eq!(first[0], TrayEntry::Item { id: "status", label: "Starting\u{2026}".to_string(), enabled: false });
    assert_eq!(menu_action("open"), TrayAction::ShowWindow);
    assert_eq!(menu_action("run_now"), TrayAction::RunNow);
    assert_eq!(menu_action("stop"), TrayAction::Stop);
    assert_eq!(menu_action("toggle"), TrayAction::ToggleAutomation);
    assert_eq!(menu_action("quit"), TrayAction::Quit);
    assert_eq!(menu_action("status"), TrayAction::Nothing);
}

#[test]
fn the_status_reads_the_watched_drive() {
    let (drive, usage) = disk_status(Some((25, 100)), "C:".to_string());
    let drive = drive.unwrap();
    assert_eq!((drive.mount.as_str(), drive.free_bytes, drive.total_bytes), ("C:", 25, 100));
    assert_eq!(usage, Some(DiskUsage { used_bytes: 75, total_bytes: 100 }));
    let (drive, usage) = disk_status(Some((0, 0)), "C:".to_string());
    assert!(drive.is_some());
    assert_eq!(usage, None);
    let (drive, usage) = disk_status(None, "C:".to_string());
    assert!(drive.is_none() && usage.is_none());
}

#[test]
fn launch_and_config_handling() {
    assert!(is_autostart_launch(&vec!["safai.exe".to_string(), "--autostart".to_string()]));
    assert!(!is_autostart_launch(&vec!["safai.exe".to_string()]));
    let on = ScheduleConfig { enabled: true, autostart: true, minimize_to_tray: true, ..Default::default() };
    assert!(parks_in_tray(&on));
    assert!(wants_autostart(&on));
    let off = ScheduleConfig { enabled: false, autostart: true, minimize_to_tray: true, ..Default::default() };
    assert!(!parks_in_tray(&off));
    assert!(!wants_autostart(&off), "automation off removes the logon entry");
    let kept = applied_config(ScheduleConfig { preferred_hour: 30, autostart: true, ..Default::default() }, false);
    assert_eq!(kept.preferred_hour, 23);
    assert!(!kept.autostart, "the registration the OS reports wins");
}
