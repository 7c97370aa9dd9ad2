use safai::schedule::config::{next_due_at, now_secs, Cadence, ScheduleConfig, TriggerKind};
use safai::schedule::decision::{
    decide, decide_at, Conditions, Decision, DiskUsage, CADENCE_GRACE_SECS, CRITICAL_USED_PERCENT,
    THRESHOLD_COOLDOWN_SECS,
};

/// An enabled config with the capacity trigger off, so cadence behaviour can
/// be examined in isolation.
fn cadence_only(cadence: Cadence) -> ScheduleConfig {
    ScheduleConfig {
        enabled: true,
        cadence,
        threshold_enabled: false,
        ..Default::default()
    }
    .sanitized()
}

/// An enabled config with only the capacity trigger active.
fn threshold_only(percent: u8) -> ScheduleConfig {
    ScheduleConfig {
        enabled: true,
        cadence: Cadence::Manual,
        threshold_enabled: true,
        threshold_percent: percent,
        ..Default::default()
    }
    .sanitized()
}

/// `percent`% of a volume in use.
fn used(percent: u64) -> Option<DiskUsage> {
    Some(DiskUsage { used_bytes: percent, total_bytes: 100 })
}

/// A cadence run that came due `overdue_secs` ago.
fn overdue_by(cfg: &ScheduleConfig, overdue_secs: u64) -> Conditions {
    let last = now_secs() - 60 * 60 * 24 * 30;
    let due = next_due_at(cfg, Some(last)).expect("cadence has a due date");
    Conditions {
        last_run_at: Some(last),
        ..Conditions::idle_desktop(due + overdue_secs)
    }
}

#[test]
fn disabled_config_does_nothing() {
    let cfg = ScheduleConfig::default();
    assert_eq!(decide(&cfg, &Conditions::idle_desktop(now_secs())), Decision::Idle);
}

#[test]
fn disabled_config_still_honours_an_explicit_request() {
    let cfg = ScheduleConfig::default();
    let c = Conditions {
        manual_requested: true,
        ..Conditions::idle_desktop(now_secs())
    };
    assert_eq!(decide(&cfg, &c), Decision::Run(TriggerKind::Manual));
}

#[test]
fn a_run_already_in_flight_wins() {
    let cfg = cadence_only(Cadence::Daily);
    let c = Conditions {
        run_in_flight: true,
        manual_requested: true,
        ..overdue_by(&cfg, 0)
    };
    assert_eq!(decide(&cfg, &c), Decision::Idle);
}

#[test]
fn a_busy_activity_gate_blocks_scheduled_runs_silently() {
    let cfg = cadence_only(Cadence::Daily);
    let c = Conditions {
        activity_busy: true,
        ..overdue_by(&cfg, 0)
    };
    assert_eq!(decide(&cfg, &c), Decision::Idle);
}

#[test]
fn a_busy_activity_gate_requeues_a_manual_request_instead_of_dropping_it() {
    let cfg = cadence_only(Cadence::Daily);
    let c = Conditions {
        activity_busy: true,
        manual_requested: true,
        ..Conditions::idle_desktop(now_secs())
    };
    match decide(&cfg, &c) {
        Decision::Defer { requeue_manual, .. } => {
            assert!(requeue_manual, "the request must not be lost");
        }
        other => panic!("expected a deferral, got {other:?}"),
    }
}

#[test]
fn an_engaged_ui_defers_scheduled_runs_but_not_manual_ones() {
    let cfg = cadence_only(Cadence::Daily);
    let engaged = Conditions {
        ui_engaged: true,
        ..overdue_by(&cfg, 0)
    };
    assert!(matches!(decide(&cfg, &engaged), Decision::Defer { .. }));

    let manual = Conditions {
        manual_requested: true,
        ..engaged
    };
    assert_eq!(decide(&cfg, &manual), Decision::Run(TriggerKind::Manual));
}

#[test]
fn cadence_manual_never_fires_on_time() {
    let cfg = ScheduleConfig {
        enabled: true,
        cadence: Cadence::Manual,
        threshold_enabled: false,
        ..Default::default()
    };
    let c = Conditions {
        last_run_at: Some(0),
        ..Conditions::idle_desktop(now_secs())
    };
    assert_eq!(decide(&cfg, &c), Decision::Idle);
}

#[test]
fn cadence_does_not_fire_before_it_is_due() {
    let cfg = cadence_only(Cadence::Weekly);
    let last = now_secs();
    let due = next_due_at(&cfg, Some(last)).unwrap();
    let c = Conditions {
        last_run_at: Some(last),
        ..Conditions::idle_desktop(due - 60)
    };
    assert_eq!(decide(&cfg, &c), Decision::Idle);
}

#[test]
fn cadence_fires_once_due() {
    let cfg = cadence_only(Cadence::Daily);
    assert_eq!(decide(&cfg, &overdue_by(&cfg, 0)), Decision::Run(TriggerKind::Cadence));
}

#[test]
fn cadence_catches_up_after_the_machine_was_off_for_days() {
    let cfg = cadence_only(Cadence::Daily);
    let c = overdue_by(&cfg, 60 * 60 * 24 * 5);
    assert_eq!(decide(&cfg, &c), Decision::Run(TriggerKind::Cadence));
}

#[test]
fn a_first_ever_run_is_not_immediately_due() {
    let cfg = cadence_only(Cadence::Daily);
    let c = Conditions {
        last_run_at: None,
        ..Conditions::idle_desktop(now_secs())
    };
    assert_eq!(decide(&cfg, &c), Decision::Idle);
}

#[test]
fn cadence_waits_for_idle_time() {
    let cfg = ScheduleConfig {
        run_only_when_idle: true,
        idle_minutes: 10,
        ..cadence_only(Cadence::Daily)
    };
    let c = Conditions {
        idle_secs: 60,
        ..overdue_by(&cfg, 0)
    };
    match decide(&cfg, &c) {
        Decision::Defer { reason, .. } => assert!(
            reason.contains("idle"),
            "reason should explain the wait, got {reason:?}"
        ),
        other => panic!("expected a deferral, got {other:?}"),
    }
}

#[test]
fn cadence_runs_once_the_idle_threshold_is_met() {
    let cfg = ScheduleConfig {
        run_only_when_idle: true,
        idle_minutes: 10,
        ..cadence_only(Cadence::Daily)
    };
    let c = Conditions {
        idle_secs: 11 * 60,
        ..overdue_by(&cfg, 0)
    };
    assert_eq!(decide(&cfg, &c), Decision::Run(TriggerKind::Cadence));
}

#[test]
fn cadence_waits_for_ac_power() {
    let cfg = ScheduleConfig {
        skip_on_battery: true,
        run_only_when_idle: false,
        ..cadence_only(Cadence::Daily)
    };
    let c = Conditions {
        on_battery: true,
        ..overdue_by(&cfg, 0)
    };
    match decide(&cfg, &c) {
        Decision::Defer { reason, .. } => assert!(reason.contains("power")),
        other => panic!("expected a deferral, got {other:?}"),
    }
}

#[test]
fn cadence_ignores_the_battery_constraint_when_switched_off() {
    let cfg = ScheduleConfig {
        skip_on_battery: false,
        run_only_when_idle: false,
        ..cadence_only(Cadence::Daily)
    };
    let c = Conditions {
        on_battery: true,
        ..overdue_by(&cfg, 0)
    };
    assert_eq!(decide(&cfg, &c), Decision::Run(TriggerKind::Cadence));
}

#[test]
fn constraints_stop_applying_once_past_the_grace_window() {
    let cfg = ScheduleConfig {
        run_only_when_idle: true,
        idle_minutes: 30,
        skip_on_battery: true,
        ..cadence_only(Cadence::Daily)
    };
    let hostile = Conditions {
        idle_secs: 0,
        on_battery: true,
        ..overdue_by(&cfg, CADENCE_GRACE_SECS - 60)
    };
    assert!(
        matches!(decide(&cfg, &hostile), Decision::Defer { .. }),
        "inside the grace window the constraints still hold"
    );

    let past_grace = Conditions {
        idle_secs: 0,
        on_battery: true,
        ..overdue_by(&cfg, CADENCE_GRACE_SECS + 60)
    };
    assert_eq!(
        decide(&cfg, &past_grace),
        Decision::Run(TriggerKind::Cadence),
        "past the grace window the run happens regardless"
    );
}

#[test]
fn threshold_fires_when_the_drive_is_over_the_limit() {
    let cfg = threshold_only(85);
    let c = Conditions {
        disk_used_percent: used(85),
        ..Conditions::idle_desktop(now_secs())
    };
    assert_eq!(decide(&cfg, &c), Decision::Run(TriggerKind::Threshold));
}

#[test]
fn threshold_stays_quiet_below_the_limit() {
    let cfg = threshold_only(85);
    let c = Conditions {
        disk_used_percent: Some(DiskUsage { used_bytes: 849, total_bytes: 1000 }),
        ..Conditions::idle_desktop(now_secs())
    };
    assert_eq!(decide(&cfg, &c), Decision::Idle);
}

#[test]
fn threshold_respects_its_cooldown() {
    let cfg = threshold_only(85);
    let now = now_secs();
    let hot = Conditions {
        disk_used_percent: used(97),
        last_threshold_run_at: Some(now - (THRESHOLD_COOLDOWN_SECS - 60)),
        ..Conditions::idle_desktop(now)
    };
    assert_eq!(
        decide(&cfg, &hot),
        Decision::Idle,
        "a still-full drive must not be re-scanned every tick"
    );

    let cooled = Conditions {
        last_threshold_run_at: Some(now - (THRESHOLD_COOLDOWN_SECS + 60)),
        ..hot
    };
    assert_eq!(decide(&cfg, &cooled), Decision::Run(TriggerKind::Threshold));
}

#[test]
fn threshold_ignores_the_idle_requirement() {
    let cfg = ScheduleConfig {
        run_only_when_idle: true,
        idle_minutes: 30,
        ..threshold_only(85)
    };
    let c = Conditions {
        disk_used_percent: used(90),
        idle_secs: 0,
        ..Conditions::idle_desktop(now_secs())
    };
    assert_eq!(decide(&cfg, &c), Decision::Run(TriggerKind::Threshold));
}

#[test]
fn threshold_still_waits_for_power_when_not_critical() {
    let cfg = ScheduleConfig {
        skip_on_battery: true,
        ..threshold_only(85)
    };
    let c = Conditions {
        disk_used_percent: used(90),
        on_battery: true,
        ..Conditions::idle_desktop(now_secs())
    };
    assert!(matches!(decide(&cfg, &c), Decision::Defer { .. }));
}

#[test]
fn a_nearly_full_drive_overrides_the_battery_constraint() {
    let cfg = ScheduleConfig {
        skip_on_battery: true,
        ..threshold_only(85)
    };
    let c = Conditions {
        disk_used_percent: used(CRITICAL_USED_PERCENT + 1),
        on_battery: true,
        ..Conditions::idle_desktop(now_secs())
    };
    assert_eq!(decide(&cfg, &c), Decision::Run(TriggerKind::Threshold));
}

#[test]
fn an_unreadable_drive_does_not_trigger_anything() {
    let cfg = threshold_only(85);
    let c = Conditions {
        disk_used_percent: None,
        ..Conditions::idle_desktop(now_secs())
    };
    assert_eq!(decide(&cfg, &c), Decision::Idle);
}

#[test]
fn a_disabled_threshold_ignores_a_full_drive() {
    let cfg = cadence_only(Cadence::Manual);
    let c = Conditions {
        disk_used_percent: used(99),
        ..Conditions::idle_desktop(now_secs())
    };
    assert_eq!(decide(&cfg, &c), Decision::Idle);
}

#[test]
fn a_full_drive_takes_precedence_over_an_overdue_cadence() {
    let cfg = ScheduleConfig {
        threshold_enabled: true,
        threshold_percent: 85,
        ..cadence_only(Cadence::Daily)
    };
    let c = Conditions {
        disk_used_percent: used(92),
        ..overdue_by(&cfg, 0)
    };
    assert_eq!(decide(&cfg, &c), Decision::Run(TriggerKind::Threshold));
}

#[test]
fn cadence_still_fires_when_the_threshold_is_in_cooldown() {
    let cfg = ScheduleConfig {
        threshold_enabled: true,
        threshold_percent: 85,
        run_only_when_idle: false,
        ..cadence_only(Cadence::Daily)
    };
    let base = overdue_by(&cfg, 0);
    let c = Conditions {
        disk_used_percent: used(92),
        last_threshold_run_at: Some(base.now - 60),
        ..base
    };
    assert_eq!(decide(&cfg, &c), Decision::Run(TriggerKind::Cadence));
}

#[test]
fn deferral_reasons_read_exactly() {
    let cfg = ScheduleConfig {
        run_only_when_idle: true,
        idle_minutes: 10,
        skip_on_battery: true,
        ..cadence_only(Cadence::Daily)
    };
    let base = Conditions::idle_desktop(10_000);
    let due = Some(9_000);
    let busy = Conditions { activity_busy: true, manual_requested: true, ..base };
    assert_eq!(
        decide_at(&cfg, &busy, due),
        Decision::Defer {
            reason: "waiting for the current scan or cleanup to finish".to_string(),
            requeue_manual: true
        }
    );
    let engaged = Conditions { ui_engaged: true, ..base };
    assert_eq!(
        decide_at(&cfg, &engaged, due),
        Decision::Defer {
            reason: "paused while you're using the Clean screen".to_string(),
            requeue_manual: false
        }
    );
    let battery = Conditions { on_battery: true, ..base };
    assert_eq!(
        decide_at(&cfg, &battery, due),
        Decision::Defer {
            reason: "scheduled run is waiting until you're on power".to_string(),
            requeue_manual: false
        }
    );
    let typing = Conditions { idle_secs: 30, ..base };
    assert_eq!(
        decide_at(&cfg, &typing, due),
        Decision::Defer {
            reason: "scheduled run is waiting for 10 minutes of idle time".to_string(),
            requeue_manual: false
        }
    );
}

#[test]
fn a_full_drive_on_battery_names_its_fill_level() {
    let cfg = ScheduleConfig {
        skip_on_battery: true,
        ..threshold_only(85)
    };
    let c = Conditions {
        disk_used_percent: Some(DiskUsage { used_bytes: 904, total_bytes: 1000 }),
        on_battery: true,
        ..Conditions::idle_desktop(now_secs())
    };
    // 90.4% full reads as 90%.
    assert_eq!(
        decide_at(&cfg, &c, None),
        Decision::Defer {
            reason: "drive is 90% full \u{2014} waiting until you're on power".to_string(),
            requeue_manual: false
        }
    );
}

#[test]
fn disk_usage_from_free_and_total_space() {
    assert_eq!(DiskUsage::from_free_total(10, 0), None);
    assert_eq!(
        DiskUsage::from_free_total(30, 100),
        Some(DiskUsage { used_bytes: 70, total_bytes: 100 })
    );
    assert_eq!(
        DiskUsage::from_free_total(200, 100),
        Some(DiskUsage { used_bytes: 0, total_bytes: 100 })
    );
}

#[test]
fn defer_leaves_the_manual_queue_alone() {
    assert_eq!(
        Decision::defer("x".to_string()),
        Decision::Defer { reason: "x".to_string(), requeue_manual: false }
    );
}

#[test]
fn a_first_run_counts_from_the_observed_now_not_the_clock() {
    let cfg = cadence_only(Cadence::Daily);
    let later = now_secs() + 60 * 60 * 24 * 30;
    let c = Conditions {
        last_run_at: None,
        ..Conditions::idle_desktop(later)
    };
    assert_eq!(decide(&cfg, &c), Decision::Idle, "one interval after the observed now");
    let past = Conditions {
        last_run_at: None,
        ..Conditions::idle_desktop(1_000_000)
    };
    assert_eq!(decide(&cfg, &past), Decision::Idle);
}

#[test]
fn deciding_twice_on_the_same_inputs_agrees() {
    let cfg = cadence_only(Cadence::Weekly);
    for c in [overdue_by(&cfg, 0), overdue_by(&cfg, CADENCE_GRACE_SECS + 1), Conditions::idle_desktop(5)] {
        assert_eq!(decide(&cfg, &c), decide(&cfg, &c));
    }
}
