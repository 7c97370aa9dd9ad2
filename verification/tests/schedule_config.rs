use chrono::{Datelike, Local, TimeZone, Timelike};
use safai::model::{Category, SafetyTier};
use safai::schedule::config::{
    describe_cadence, due_anchor, local_wall_at_hour, next_due_at, next_due_from, now_secs, resolve_due, Cadence, RunRecord, ScheduleConfig, ScheduleState,
    TriggerKind, AUTO_CLEAN_HARD_CAP_BYTES, HISTORY_LIMIT, MIN_AUTO_CLEAN_BYTES,
};

fn record_at(at: u64) -> RunRecord {
    RunRecord {
        at,
        trigger: TriggerKind::Cadence,
        scanned_items: 0,
        reclaimable_bytes: 0,
        cleaned_items: 0,
        reclaimed_bytes: 0,
        auto_cleaned: false,
        skipped_items: 0,
        duration_ms: 0,
        error: None,
    }
}

#[test]
fn manual_cadence_has_no_due_date() {
    let cfg = ScheduleConfig {
        cadence: Cadence::Manual,
        ..Default::default()
    };
    assert!(next_due_at(&cfg, Some(now_secs())).is_none());
}

#[test]
fn due_date_lands_on_preferred_hour_one_interval_later() {
    let cfg = ScheduleConfig {
        cadence: Cadence::Daily,
        preferred_hour: 3,
        ..Default::default()
    };
    let last = Local
        .with_ymd_and_hms(2026, 3, 10, 22, 30, 0)
        .single()
        .expect("valid local time")
        .timestamp() as u64;

    let due = next_due_at(&cfg, Some(last)).expect("daily cadence is due");
    let due_local = Local.timestamp_opt(due as i64, 0).single().unwrap();

    assert_eq!(due_local.hour(), 3);
    assert_eq!(due_local.day(), 11, "one day after the anchor");
    assert!(due > last);
}

#[test]
fn weekly_cadence_is_seven_days_out() {
    let cfg = ScheduleConfig {
        cadence: Cadence::Weekly,
        preferred_hour: 2,
        ..Default::default()
    };
    let last = Local
        .with_ymd_and_hms(2026, 7, 1, 12, 0, 0)
        .single()
        .unwrap()
        .timestamp() as u64;

    let due_local = Local
        .timestamp_opt(next_due_at(&cfg, Some(last)).unwrap() as i64, 0)
        .single()
        .unwrap();
    assert_eq!(due_local.day(), 8);
    assert_eq!(due_local.hour(), 2);
}

#[test]
fn sanitize_rejects_caution_tier_and_clamps_ranges() {
    let cfg = ScheduleConfig {
        preferred_hour: 99,
        threshold_percent: 5,
        idle_minutes: 0,
        max_auto_clean_bytes: u64::MAX,
        auto_clean_tiers: vec![SafetyTier::Caution],
        ..Default::default()
    }
    .sanitized();

    assert_eq!(cfg.preferred_hour, 23);
    assert_eq!(cfg.threshold_percent, 50);
    assert_eq!(cfg.idle_minutes, 1);
    assert_eq!(cfg.max_auto_clean_bytes, AUTO_CLEAN_HARD_CAP_BYTES);
    assert!(!cfg.auto_clean_tiers.contains(&SafetyTier::Caution));
    assert_eq!(cfg.auto_clean_tiers, vec![SafetyTier::Safe]);
}

#[test]
fn history_is_capped_newest_first() {
    let mut state = ScheduleState::default();
    for i in 0..(HISTORY_LIMIT as u64 + 5) {
        state.record(record_at(i));
    }
    assert_eq!(state.history.len(), HISTORY_LIMIT);
    assert_eq!(state.history[0].at, HISTORY_LIMIT as u64 + 4);
}

#[test]
fn default_config_is_off_weekly_at_two_with_a_safe_whitelist() {
    let cfg = ScheduleConfig::default();
    assert!(!cfg.enabled);
    assert_eq!(cfg.cadence, Cadence::Weekly);
    assert_eq!(cfg.preferred_hour, 2);
    assert!(cfg.threshold_enabled);
    assert_eq!(cfg.threshold_percent, 85);
    assert_eq!(cfg.idle_minutes, 5);
    assert_eq!(cfg.auto_clean_tiers, vec![SafetyTier::Safe]);
    assert_eq!(
        cfg.auto_clean_categories,
        vec![Category::PackageCache, Category::Temp, Category::Browser]
    );
    assert!(cfg.to_recycle_bin);
}

#[test]
fn sanitizing_twice_changes_nothing_more() {
    let once = ScheduleConfig {
        preferred_hour: 200,
        threshold_percent: 100,
        idle_minutes: 5000,
        max_auto_clean_bytes: 3,
        auto_clean_tiers: vec![SafetyTier::Review, SafetyTier::Caution, SafetyTier::Safe],
        ..Default::default()
    }
    .sanitized();
    assert_eq!(once.preferred_hour, 23);
    assert_eq!(once.threshold_percent, 99);
    assert_eq!(once.idle_minutes, 240);
    assert_eq!(once.max_auto_clean_bytes, MIN_AUTO_CLEAN_BYTES);
    assert_eq!(once.auto_clean_tiers, vec![SafetyTier::Review, SafetyTier::Safe]);
    let twice = ScheduleConfig {
        auto_clean_tiers: once.auto_clean_tiers.clone(),
        auto_clean_categories: once.auto_clean_categories.clone(),
        auto_clean_rule_ids: once.auto_clean_rule_ids.clone(),
        threshold_path: once.threshold_path.clone(),
        ..once
    }
    .sanitized();
    assert_eq!(twice.preferred_hour, 23);
    assert_eq!(twice.threshold_percent, 99);
    assert_eq!(twice.idle_minutes, 240);
    assert_eq!(twice.max_auto_clean_bytes, MIN_AUTO_CLEAN_BYTES);
    assert_eq!(twice.auto_clean_tiers, vec![SafetyTier::Review, SafetyTier::Safe]);
}

#[test]
fn finishing_a_threshold_run_stamps_both_clocks() {
    let mut state = ScheduleState::default();
    state.finish_run(1000, TriggerKind::Threshold, record_at(1000));
    assert_eq!(state.last_run_at, Some(1000));
    assert_eq!(state.last_threshold_run_at, Some(1000));
    state.finish_run(2000, TriggerKind::Cadence, record_at(2000));
    assert_eq!(state.last_run_at, Some(2000));
    assert_eq!(state.last_threshold_run_at, Some(1000));
    assert_eq!(state.history.len(), 2);
    assert_eq!(state.history[0].at, 2000);
}

#[test]
fn cadence_intervals_in_days() {
    assert_eq!(Cadence::Manual.interval_days(), None);
    assert_eq!(Cadence::Daily.interval_days(), Some(1));
    assert_eq!(Cadence::EveryThreeDays.interval_days(), Some(3));
    assert_eq!(Cadence::Weekly.interval_days(), Some(7));
}

#[test]
fn cadence_descriptions() {
    let weekly = ScheduleConfig::default();
    assert_eq!(describe_cadence(&weekly), "Weekly at 02:00");
    let manual = ScheduleConfig {
        cadence: Cadence::Manual,
        ..Default::default()
    };
    assert_eq!(describe_cadence(&manual), "Manual only");
    let daily = ScheduleConfig {
        cadence: Cadence::Daily,
        preferred_hour: 17,
        ..Default::default()
    };
    assert_eq!(describe_cadence(&daily), "Daily at 17:00");
}

#[test]
fn the_next_run_is_anchored_one_interval_out() {
    let daily = ScheduleConfig { cadence: Cadence::Daily, preferred_hour: 40, ..Default::default() };
    assert_eq!(due_anchor(&daily, 1_000), Some((1_000 + 86_400, 23)));
    let three = ScheduleConfig { cadence: Cadence::EveryThreeDays, preferred_hour: 6, ..Default::default() };
    assert_eq!(due_anchor(&three, 0), Some((3 * 86_400, 6)));
    assert_eq!(due_anchor(&ScheduleConfig::default(), -7 * 86_400), Some((0, 2)));
    let manual = ScheduleConfig { cadence: Cadence::Manual, ..Default::default() };
    assert_eq!(due_anchor(&manual, 0), None);
    assert_eq!(due_anchor(&daily, i64::MAX - 10), None, "beyond what an i64 holds");
}

#[test]
fn the_zone_readings_resolve_in_order() {
    assert_eq!(resolve_due(Some(500), Some(400), Some(300)), Some(500), "the single reading wins");
    assert_eq!(resolve_due(None, Some(400), Some(300)), Some(400), "else the earliest");
    assert_eq!(resolve_due(None, None, Some(300)), Some(300), "else the hour after a skipped one");
    assert_eq!(resolve_due(None, None, None), None);
    assert_eq!(resolve_due(Some(-5), None, None), Some(0), "before the epoch reads as zero");
}

#[test]
fn wall_clock_hours_land_on_the_same_day() {
    assert_eq!(local_wall_at_hour(0, 0), Some(0));
    assert_eq!(local_wall_at_hour(86_399, 2), Some(7_200));
    assert_eq!(local_wall_at_hour(86_400 + 5, 23), Some(86_400 + 23 * 3_600));
    assert_eq!(local_wall_at_hour(-1, 0), Some(-86_400), "a second before the epoch is the day before");
    assert_eq!(local_wall_at_hour(-86_400, 1), Some(-86_400 + 3_600));
    assert_eq!(local_wall_at_hour(i64::MAX, 23), None, "past what an i64 holds");
    assert!(local_wall_at_hour(i64::MIN, 23).is_some());
}

#[test]
fn the_due_time_follows_the_base_it_is_given() {
    let daily = ScheduleConfig { cadence: Cadence::Daily, preferred_hour: 3, ..Default::default() };
    let last: i64 = 1_700_000_000;
    let due = next_due_from(&daily, last).expect("daily cadence is due") as i64;
    let anchor = last + 86_400;
    assert!(anchor - 3 * 86_400 < due && due < anchor + 3 * 86_400);
    assert_eq!(Local.timestamp_opt(due, 0).unwrap().hour(), 3);
    assert_eq!(next_due_at(&daily, Some(last as u64)), Some(due as u64), "anchored on the last run");
    let manual = ScheduleConfig { cadence: Cadence::Manual, ..Default::default() };
    assert_eq!(next_due_from(&manual, last), None);
    assert_eq!(next_due_from(&daily, i64::MAX - 10), None, "an anchor past what an i64 holds");
    assert_eq!(next_due_at(&daily, Some(i64::MAX as u64)), None);
}
