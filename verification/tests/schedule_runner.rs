use safai::dto::DeleteEvent;
use safai::model::{Category, CategoryGroup, CleanupItem, SafetyTier, ScanEvent, ScanReport};
use safai::schedule::config::{RunPhase, RunRecord, ScheduleConfig, TriggerKind};
use safai::schedule::decision::Decision;
use safai::schedule::policy::select_auto_clean;
use safai::schedule::runner::{
    count_items, human_bytes, human_summary, is_blank, is_whitespace_char, requeue_after_lost_gate,
    runs_in_background, notification_text, plan_targets, prune_report, react,
    run_record, take_manual_request, watched_path, AutomationProgress,
};

fn item(id: &str, size_bytes: u64) -> CleanupItem {
    CleanupItem {
        id: id.to_string(),
        rule_id: "npm-cache".to_string(),
        label: id.to_string(),
        category: Category::PackageCache,
        tier: SafetyTier::Safe,
        path: format!("C:/test/{id}"),
        size_bytes,
        regenerates: true,
        last_modified_secs: None,
        note: String::new(),
        selected_by_default: true,
    }
}

fn report_of(items: Vec<CleanupItem>) -> ScanReport {
    let total: u64 = items.iter().map(|i| i.size_bytes).sum();
    ScanReport {
        total_reclaimable_bytes: total,
        groups: vec![CategoryGroup {
            category: Category::PackageCache,
            label: "Package caches".to_string(),
            total_bytes: total,
            items,
        }],
        scanned_roots: Vec::new(),
        warnings: Vec::new(),
    }
}

fn ids(v: &[&str]) -> Vec<String> {
    v.iter().map(|s| s.to_string()).collect()
}

#[test]
fn pruning_removes_deleted_items_and_retotals() {
    let report = report_of(vec![item("a", 100), item("b", 250), item("c", 50)]);
    let removed = ids(&["a", "c"]);

    let pruned = prune_report(report, &removed);

    assert_eq!(pruned.groups.len(), 1);
    assert_eq!(pruned.groups[0].items.len(), 1);
    assert_eq!(pruned.groups[0].items[0].id, "b");
    assert_eq!(pruned.groups[0].total_bytes, 250);
    assert_eq!(pruned.total_reclaimable_bytes, 250);
}

#[test]
fn pruning_drops_groups_that_end_up_empty() {
    let report = report_of(vec![item("a", 100)]);
    let removed = ids(&["a"]);

    let pruned = prune_report(report, &removed);

    assert!(pruned.groups.is_empty(), "an emptied group should not linger");
    assert_eq!(pruned.total_reclaimable_bytes, 0);
}

#[test]
fn pruning_nothing_is_a_no_op() {
    let report = report_of(vec![item("a", 100), item("b", 250)]);
    let pruned = prune_report(report, &Vec::new());

    assert_eq!(pruned.groups[0].items.len(), 2);
    assert_eq!(pruned.total_reclaimable_bytes, 350);
}

#[test]
fn pruning_ignores_ids_that_were_never_in_the_report() {
    let report = report_of(vec![item("a", 100)]);
    let removed = ids(&["ghost"]);

    let pruned = prune_report(report, &removed);
    assert_eq!(pruned.total_reclaimable_bytes, 100);
}

#[test]
fn byte_formatting_covers_the_notification_range() {
    assert_eq!(human_bytes(0), "0 B");
    assert_eq!(human_bytes(512), "512 B");
    assert_eq!(human_bytes(1024), "1.0 KB");
    assert_eq!(human_bytes(1024 * 1024 * 3 / 2), "1.5 MB");
    assert_eq!(human_bytes(1024 * 1024 * 42), "42 MB");
    assert_eq!(human_bytes(1024 * 1024 * 1024 * 7), "7.0 GB");
}

#[test]
fn byte_formatting_saturates_at_terabytes_instead_of_overflowing() {
    let formatted = human_bytes(u64::MAX);
    assert!(formatted.ends_with(" TB"), "got {formatted:?}");
}

/// The formatting the notifications use, written with floating point.
fn float_formatting(bytes: u64) -> String {
    const UNITS: [&str; 5] = ["B", "KB", "MB", "GB", "TB"];
    if bytes == 0 {
        return "0 B".to_string();
    }
    let mut value = bytes as f64;
    let mut unit = 0;
    while value >= 1024.0 && unit < UNITS.len() - 1 {
        value /= 1024.0;
        unit += 1;
    }
    if unit == 0 {
        format!("{bytes} B")
    } else if value >= 10.0 {
        format!("{value:.0} {}", UNITS[unit])
    } else {
        format!("{value:.1} {}", UNITS[unit])
    }
}

#[test]
fn byte_formatting_agrees_with_float_formatting_on_a_sweep() {
    let mut samples: Vec<u64> = vec![1, 9, 1023, 1025, 10 * 1024 - 1, 10 * 1024, 1_000_000, 123_456_789];
    let mut x: u64 = 1;
    for _ in 0..60 {
        samples.push(x);
        samples.push(x.saturating_mul(3) / 2);
        samples.push(x.saturating_mul(7) / 5);
        x = x.saturating_mul(2);
    }
    samples.push(u64::MAX);
    for b in samples {
        assert_eq!(human_bytes(b), float_formatting(b), "bytes = {b}");
    }
}

fn record(scanned: u32, reclaimable: u64, cleaned: u32, reclaimed: u64, error: Option<&str>) -> RunRecord {
    RunRecord {
        at: 0,
        trigger: TriggerKind::Cadence,
        scanned_items: scanned,
        reclaimable_bytes: reclaimable,
        cleaned_items: cleaned,
        reclaimed_bytes: reclaimed,
        auto_cleaned: true,
        skipped_items: 0,
        duration_ms: 0,
        error: error.map(|e| e.to_string()),
    }
}

#[test]
fn notifications_say_what_happened() {
    let cfg = ScheduleConfig::default();
    assert_eq!(
        notification_text(&cfg, &record(3, 10, 2, 2048, None)),
        Some(("Safai freed up space".to_string(), "Reclaimed 2.0 KB across 2 items.".to_string()))
    );
    assert_eq!(
        notification_text(&cfg, &record(1, 10, 1, 512, None)),
        Some(("Safai freed up space".to_string(), "Reclaimed 512 B across 1 item.".to_string()))
    );
    assert_eq!(
        notification_text(&cfg, &record(0, 0, 0, 0, Some("stopped early"))),
        Some(("Safai automation stopped".to_string(), "stopped early".to_string()))
    );
    assert_eq!(notification_text(&cfg, &record(4, 0, 0, 0, None)), None);
    let quiet = ScheduleConfig { notify: false, ..Default::default() };
    assert_eq!(notification_text(&quiet, &record(3, 10, 2, 2048, None)), None);
}

#[test]
fn a_found_but_not_cleaned_run_invites_a_review() {
    let cfg = ScheduleConfig::default();
    let (title, body) = notification_text(&cfg, &record(5, 3 * 1024 * 1024, 0, 0, None)).unwrap();
    assert_eq!(title, "Safai found space to reclaim");
    assert_eq!(body, "3.0 MB across 5 items \u{2014} open Safai to review.");
    assert_eq!(human_summary(&record(5, 3 * 1024 * 1024, 0, 0, None)), "Found 3.0 MB");
    assert_eq!(human_summary(&record(5, 9, 2, 2048, None)), "Reclaimed 2.0 KB");
    let (title, body) = notification_text(&cfg, &record(5, 9, 2, 2048, Some("stopped early"))).unwrap();
    assert_eq!(title, "Safai automation finished");
    assert_eq!(body, "Reclaimed 2.0 KB \u{b7} stopped early");
}

#[test]
fn run_records_explain_an_early_stop_before_a_cap() {
    let r = run_record(7, TriggerKind::Manual, 3, 300, 1, 100, true, 2, 55, true, true);
    assert_eq!(r.at, 7);
    assert_eq!(r.trigger, TriggerKind::Manual);
    assert_eq!(r.error.as_deref(), Some("stopped early"));
    let capped = run_record(7, TriggerKind::Manual, 3, 300, 1, 100, true, 2, 55, false, true);
    assert_eq!(capped.error.as_deref(), Some("hit the per-run size cap; some items were left"));
    let clean = run_record(7, TriggerKind::Manual, 3, 300, 1, 100, true, 2, 55, false, false);
    assert_eq!(clean.error, None);
}

#[test]
fn items_are_counted_across_groups() {
    let mut r = report_of(vec![item("a", 1), item("b", 2)]);
    r.groups.push(CategoryGroup {
        category: Category::Temp,
        label: "Temporary files".to_string(),
        total_bytes: 3,
        items: vec![item("c", 3)],
    });
    assert_eq!(count_items(&r), 3);
}

#[test]
fn progress_follows_scan_and_delete_events() {
    let mut p = AutomationProgress::default();
    assert_eq!(p.phase, RunPhase::Idle);
    p.on_scan_event(&ScanEvent::Progress {
        current_path: "Measuring 2 folders\u{2026}".to_string(),
        found_bytes: 10,
        rules_checked: 1,
        rules_total: 3,
    });
    p.on_scan_event(&ScanEvent::Found { item: item("a", 5) });
    assert_eq!(p.found_bytes, 15);
    assert_eq!(p.item_count, 1);
    assert_eq!(p.current_path, "Measuring 2 folders\u{2026}");
    p.on_scan_event(&ScanEvent::Finished { total_reclaimable_bytes: 99, item_count: 4 });
    assert_eq!(p.found_bytes, 99);
    assert_eq!(p.item_count, 4);
    p.on_delete_event(&DeleteEvent::Deleted { id: "a".to_string(), path: "C:/a".to_string(), size_bytes: 7 });
    p.on_delete_event(&DeleteEvent::Skipped { id: "b".to_string(), path: "C:/b".to_string(), reason: "x".to_string() });
    assert_eq!(p.deleted, 1);
    assert_eq!(p.skipped, 1);
    assert_eq!(p.reclaimed_bytes, 7);
    assert_eq!(p.current_path, "C:/b");
}

#[test]
fn a_tick_reacts_to_its_decision() {
    let run = react(Decision::Run(TriggerKind::Cadence), &None);
    assert_eq!(run.run, Some(TriggerKind::Cadence));
    assert!(!run.push_status);
    let same = react(
        Decision::Defer { reason: "wait".to_string(), requeue_manual: true },
        &Some("wait".to_string()),
    );
    assert!(same.requeue_manual);
    assert!(!same.push_status);
    assert_eq!(same.deferred.as_deref(), Some("wait"));
    let changed = react(Decision::Defer { reason: "later".to_string(), requeue_manual: false }, &Some("wait".to_string()));
    assert!(changed.push_status);
    let idle = react(Decision::Idle, &Some("wait".to_string()));
    assert!(idle.push_status);
    assert_eq!(idle.deferred, None);
    assert!(!react(Decision::Idle, &None).push_status);
}

#[test]
fn the_watched_volume_defaults_sensibly() {
    let roots = vec!["C:/Users/x".to_string()];
    let cfg = ScheduleConfig { threshold_path: "D:/data".to_string(), ..Default::default() };
    assert_eq!(watched_path(&cfg, &roots), "D:/data");
    let blank = ScheduleConfig { threshold_path: " \t\u{3000}".to_string(), ..Default::default() };
    assert_eq!(watched_path(&blank, &roots), "C:/Users/x");
    assert_eq!(watched_path(&blank, &Vec::new()), "C:/");
    assert!(is_blank(""));
    assert!(!is_blank(" x "));
}

#[test]
fn a_manual_request_waits_out_a_run_in_flight() {
    let mut pending = true;
    assert!(!take_manual_request(true, &mut pending));
    assert!(pending, "still queued");
    assert!(take_manual_request(false, &mut pending));
    assert!(!pending);
    assert!(!take_manual_request(false, &mut pending));
}

#[test]
fn an_autopilot_plan_deletes_its_own_items() {
    let cfg = ScheduleConfig::default();
    let plan = select_auto_clean(&report_of(vec![item("a", 10), item("b", 30)]), &cfg);
    let targets = plan_targets(&plan);
    assert_eq!(targets.len(), 2);
    assert_eq!(targets[0].0, "b");
    assert_eq!(targets[0].1.as_ref().map(|i| i.size_bytes), Some(30));
}

#[test]
fn white_space_is_unicode_white_space() {
    for u in 0u32..=0x10FFFF {
        if let Some(c) = char::from_u32(u) {
            assert_eq!(is_whitespace_char(c), c.is_whitespace(), "U+{u:04X}");
        }
    }
    assert!(is_blank(" \t\u{3000}\u{85}"));
    assert!(!is_blank(" x "));
}

#[test]
fn a_run_that_loses_the_gate_requeues_only_a_manual_request() {
    let mut pending = false;
    requeue_after_lost_gate(TriggerKind::Cadence, &mut pending);
    assert!(!pending);
    requeue_after_lost_gate(TriggerKind::Manual, &mut pending);
    assert!(pending);
    requeue_after_lost_gate(TriggerKind::Threshold, &mut pending);
    assert!(pending, "a scheduled run never clears a queued request");
    assert!(runs_in_background(TriggerKind::Cadence));
    assert!(runs_in_background(TriggerKind::Threshold));
    assert!(!runs_in_background(TriggerKind::Manual));
}
