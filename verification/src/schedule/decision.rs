//! The scheduler's decision logic, as a pure function of the configuration
//! and the observed state of the world.
//!
//! | Trigger   | Waits for idle?          | Waits for AC power?         |
//! |-----------|--------------------------|-----------------------------|
//! | Manual    | no                       | no                          |
//! | Threshold | no (the disk is filling) | yes, unless nearly full     |
//! | Cadence   | yes, if configured       | yes, if configured          |
//!
//! Cadence deferral is bounded by [`CADENCE_GRACE_SECS`]: a run held back long
//! enough happens regardless.

use vstd::prelude::*;

use crate::schedule::config::{
    due_from, next_due_from, schedule_base, ScheduleConfig,
    ScheduleConfigView, TriggerKind,
};
use crate::text::{decimal, push_decimal, push_decimal_wide, push_str};

verus! {

/// Minimum gap between two threshold-triggered runs (six hours).
pub const THRESHOLD_COOLDOWN_SECS: u64 = 21600u64;

/// How long a cadence run may be held back by idle/battery constraints before
/// it runs anyway (twelve hours).
pub const CADENCE_GRACE_SECS: u64 = 43200u64;

/// Above this used percentage a threshold run ignores the battery constraint.
pub const CRITICAL_USED_PERCENT: u64 = 95u64;

/// Used and total bytes of the watched volume. The used percentage is
/// `used_bytes * 100 / total_bytes`, compared exactly; a zero total counts as
/// an unreadable volume.
#[derive(Debug, Clone, Copy, PartialEq, Eq, Structural)]
pub struct DiskUsage {
    pub used_bytes: u64,
    pub total_bytes: u64,
}

impl DiskUsage {
    /// Usage of a volume with `free` bytes available out of `total`, `None`
    /// when the total is zero.
    pub fn from_free_total(free: u64, total: u64) -> (r: Option<DiskUsage>)
        ensures
            total == 0 ==> r is None,
            total > 0 ==> r == Some(DiskUsage {
                used_bytes: if free > total { 0 } else { (total - free) as u64 },
                total_bytes: total,
            }),
    {
        if total == 0 {
            None
        } else {
            Some(DiskUsage { used_bytes: total.saturating_sub(free), total_bytes: total })
        }
    }
}

/// Is at least `percent`% of the volume in use?
pub open spec fn used_at_least(d: DiskUsage, percent: int) -> bool {
    d.used_bytes * 100 >= percent * d.total_bytes
}

/// The used percentage, rounded to the nearest integer (ties to even).
pub open spec fn rounded_percent(d: DiskUsage) -> nat
    recommends
        d.total_bytes > 0,
{
    let num = d.used_bytes as nat * 100;
    let q = num / (d.total_bytes as nat);
    let r = num % (d.total_bytes as nat);
    if 2 * r > d.total_bytes {
        q + 1
    } else if 2 * r < d.total_bytes {
        q
    } else if q % 2 == 1 {
        q + 1
    } else {
        q
    }
}

/// Everything [`decide`] needs from the outside world.
#[derive(Debug, Clone, Copy)]
pub struct Conditions {
    /// Current unix time, in seconds.
    pub now: u64,
    /// A "Run now" request is waiting to be honoured.
    pub manual_requested: bool,
    /// An automation run is already executing.
    pub run_in_flight: bool,
    /// A scan or cleanup (from either side) holds the activity gate.
    pub activity_busy: bool,
    /// The user is mid-flow in the Clean screens.
    pub ui_engaged: bool,
    /// Usage of the watched volume, or `None` if unavailable.
    pub disk_used_percent: Option<DiskUsage>,
    /// Seconds since the last user input.
    pub idle_secs: u64,
    pub on_battery: bool,
    pub last_run_at: Option<u64>,
    pub last_threshold_run_at: Option<u64>,
}

impl Conditions {
    /// A baseline: idle machine (an hour without input), on AC, nothing
    /// running, 40% of the drive used.
    pub fn idle_desktop(now: u64) -> (r: Self)
        ensures
            r == (Conditions {
                now,
                manual_requested: false,
                run_in_flight: false,
                activity_busy: false,
                ui_engaged: false,
                disk_used_percent: Some(DiskUsage { used_bytes: 40, total_bytes: 100 }),
                idle_secs: 3600,
                on_battery: false,
                last_run_at: None,
                last_threshold_run_at: None,
            }),
    {
        Conditions {
            now,
            manual_requested: false,
            run_in_flight: false,
            activity_busy: false,
            ui_engaged: false,
            disk_used_percent: Some(DiskUsage { used_bytes: 40, total_bytes: 100 }),
            idle_secs: 3600,
            on_battery: false,
            last_run_at: None,
            last_threshold_run_at: None,
        }
    }
}

/// What the scheduler should do on this tick.
#[derive(Debug, PartialEq, Eq)]
pub enum Decision {
    /// Nothing to do.
    Idle,
    /// Something is due but a condition is not met yet.
    Defer {
        /// User-facing explanation.
        reason: String,
        /// The caller must put the manual request back: it was consumed to
        /// build the conditions but has not been honoured.
        requeue_manual: bool,
    },
    Run(TriggerKind),
}

/// The mathematical value of a [`Decision`].
pub ghost enum DecisionView {
    Idle,
    Defer { reason: Seq<char>, requeue_manual: bool },
    Run(TriggerKind),
}

impl View for Decision {
    type V = DecisionView;

    open spec fn view(&self) -> DecisionView {
        match self {
            Decision::Idle => DecisionView::Idle,
            Decision::Defer { reason, requeue_manual } => DecisionView::Defer {
                reason: reason@,
                requeue_manual: *requeue_manual,
            },
            Decision::Run(t) => DecisionView::Run(*t),
        }
    }
}

impl Decision {
    /// A deferral with `reason` that leaves the manual queue alone.
    pub fn defer(reason: String) -> (r: Self)
        ensures
            r@ == (DecisionView::Defer { reason: reason@, requeue_manual: false }),
    {
        Decision::Defer { reason, requeue_manual: false }
    }
}

pub open spec fn busy_reason() -> Seq<char> {
    "waiting for the current scan or cleanup to finish"@
}

pub open spec fn ui_reason() -> Seq<char> {
    "paused while you're using the Clean screen"@
}

pub open spec fn cadence_power_reason() -> Seq<char> {
    "scheduled run is waiting until you're on power"@
}

pub open spec fn threshold_power_reason(d: DiskUsage) -> Seq<char> {
    "drive is "@ + decimal(rounded_percent(d)) + "% full \u{2014} waiting until you're on power"@
}

pub open spec fn idle_reason(minutes: u32) -> Seq<char> {
    "scheduled run is waiting for "@ + decimal(minutes as nat) + " minutes of idle time"@
}

/// Has the threshold cooldown passed?
pub open spec fn threshold_cooled(c: Conditions) -> bool {
    match c.last_threshold_run_at {
        None => true,
        Some(t) => (if c.now >= t { c.now - t } else { 0 }) >= THRESHOLD_COOLDOWN_SECS,
    }
}

/// Does the capacity trigger fire (drive over the threshold, cooled down)?
pub open spec fn threshold_fires(cfg: ScheduleConfigView, c: Conditions) -> bool {
    &&& cfg.threshold_enabled
    &&& c.disk_used_percent matches Some(d)
    &&& d.total_bytes > 0
    &&& used_at_least(d, cfg.threshold_percent as int)
    &&& threshold_cooled(c)
}

/// The decision on a tick, given the next cadence due time `due` (`None` when
/// the cadence is manual or has no reading).
pub open spec fn decide_spec(cfg: ScheduleConfigView, c: Conditions, due: Option<u64>) -> DecisionView {
    if c.run_in_flight {
        DecisionView::Idle
    } else if c.activity_busy {
        if c.manual_requested {
            DecisionView::Defer { reason: busy_reason(), requeue_manual: true }
        } else {
            DecisionView::Idle
        }
    } else if c.ui_engaged && !c.manual_requested {
        DecisionView::Defer { reason: ui_reason(), requeue_manual: false }
    } else if c.manual_requested {
        DecisionView::Run(TriggerKind::Manual)
    } else if !cfg.enabled {
        DecisionView::Idle
    } else if threshold_fires(cfg, c) {
        let d = c.disk_used_percent.unwrap();
        if cfg.skip_on_battery && c.on_battery && !used_at_least(d, CRITICAL_USED_PERCENT as int) {
            DecisionView::Defer { reason: threshold_power_reason(d), requeue_manual: false }
        } else {
            DecisionView::Run(TriggerKind::Threshold)
        }
    } else {
        match due {
            None => DecisionView::Idle,
            Some(due) => if c.now < due {
                DecisionView::Idle
            } else if c.now - due < CADENCE_GRACE_SECS && cfg.skip_on_battery && c.on_battery {
                DecisionView::Defer { reason: cadence_power_reason(), requeue_manual: false }
            } else if c.now - due < CADENCE_GRACE_SECS && cfg.run_only_when_idle && c.idle_secs
                < cfg.idle_minutes as u64 * 60 {
                DecisionView::Defer { reason: idle_reason(cfg.idle_minutes), requeue_manual: false }
            } else {
                DecisionView::Run(TriggerKind::Cadence)
            },
        }
    }
}

fn at_least(d: DiskUsage, percent: u64) -> (r: bool)
    requires
        percent <= 255,
    ensures
        r == used_at_least(d, percent as int),
{
    let t = d.total_bytes as u128;
    assert((percent as u128) * t <= 255 * 18446744073709551615u128) by (nonlinear_arith)
        requires
            percent <= 255,
            t <= 18446744073709551615u128,
    ;
    assert((d.used_bytes as u128) * 100 <= 100 * 18446744073709551615u128);
    (d.used_bytes as u128) * 100 >= (percent as u128) * t
}

pub(crate) fn round_percent(d: DiskUsage) -> (r: u128)
    requires
        d.total_bytes > 0,
    ensures
        r as nat == rounded_percent(d),
{
    let num: u128 = (d.used_bytes as u128) * 100;
    let total: u128 = d.total_bytes as u128;
    let q: u128 = num / total;
    let rem: u128 = num % total;
    assert(q <= num) by (nonlinear_arith)
        requires
            q == num / total,
            total > 0,
    ;
    assert(num <= 100 * 18446744073709551615u128);
    let q = if 2 * rem > total {
        q + 1
    } else if 2 * rem < total {
        q
    } else if q % 2 == 1 {
        q + 1
    } else {
        q
    };
    q
}

/// Decide what to do on a tick whose next cadence due time is `due`.
pub fn decide_at(cfg: &ScheduleConfig, c: &Conditions, due: Option<u64>) -> (r: Decision)
    ensures
        r@ == decide_spec(cfg@, *c, due),
{
    if c.run_in_flight {
        return Decision::Idle;
    }
    if c.activity_busy {
        return if c.manual_requested {
            Decision::Defer {
                reason: String::from_str("waiting for the current scan or cleanup to finish"),
                requeue_manual: true,
            }
        } else {
            Decision::Idle
        };
    }
    if c.ui_engaged && !c.manual_requested {
        return Decision::Defer {
            reason: String::from_str("paused while you're using the Clean screen"),
            requeue_manual: false,
        };
    }
    if c.manual_requested {
        return Decision::Run(TriggerKind::Manual);
    }
    if !cfg.enabled {
        return Decision::Idle;
    }
    if cfg.threshold_enabled {
        if let Some(d) = c.disk_used_percent {
            if d.total_bytes > 0 {
                let over = at_least(d, cfg.threshold_percent as u64);
                let cooled = match c.last_threshold_run_at {
                    Some(t) => c.now.saturating_sub(t) >= THRESHOLD_COOLDOWN_SECS,
                    None => true,
                };
                if over && cooled {
                    if cfg.skip_on_battery && c.on_battery && !at_least(d, CRITICAL_USED_PERCENT) {
                        let mut reason = String::new();
                        push_str(&mut reason, "drive is ");
                        push_decimal_wide(&mut reason, round_percent(d));
                        push_str(&mut reason, "% full \u{2014} waiting until you're on power");
                        assert(reason@ =~= threshold_power_reason(d));
                        return Decision::defer(reason);
                    }
                    return Decision::Run(TriggerKind::Threshold);
                }
            }
        }
    }
    let due = match due {
        Some(d) => d,
        None => return Decision::Idle,
    };
    if c.now < due {
        return Decision::Idle;
    }
    if c.now - due < CADENCE_GRACE_SECS {
        if cfg.skip_on_battery && c.on_battery {
            return Decision::Defer {
                reason: String::from_str("scheduled run is waiting until you're on power"),
                requeue_manual: false,
            };
        }
        if cfg.run_only_when_idle && c.idle_secs < (cfg.idle_minutes as u64) * 60 {
            let mut reason = String::new();
            push_str(&mut reason, "scheduled run is waiting for ");
            push_decimal(&mut reason, cfg.idle_minutes as u64);
            push_str(&mut reason, " minutes of idle time");
            assert(reason@ =~= idle_reason(cfg.idle_minutes));
            return Decision::defer(reason);
        }
    }
    Decision::Run(TriggerKind::Cadence)
}

/// Decide what to do, given the config and the state of the world.
///
/// Nothing but `cfg` and `c` goes in: the cadence is counted from the last
/// completed run, or from `c.now` before the first one
/// ([`schedule_base`]), and no clock is read. The due time is
/// [`next_due_from`] that base: the preferred local hour on the local day
/// one interval later, as the local time zone reads it ([`due_from`]);
/// whatever it reads, the decision is [`decide_spec`] of it, and a manual
/// cadence never has one.
pub fn decide(cfg: &ScheduleConfig, c: &Conditions) -> (r: Decision)
    ensures
        exists|due: Option<u64>|
            due_from(cfg.cadence, cfg.preferred_hour, schedule_base(c.last_run_at, c.now), due)
                && r@ == #[trigger] decide_spec(cfg@, *c, due),
{
    let base: i64 = match c.last_run_at {
        Some(t) => t as i64,
        None => c.now as i64,
    };
    let due = next_due_from(cfg, base);
    let r = decide_at(cfg, c, due);
    assert(r@ == decide_spec(cfg@, *c, due));
    r
}

/// An automation run already in flight wins: nothing else starts.
pub proof fn law_in_flight_run_wins(cfg: ScheduleConfigView, c: Conditions, due: Option<u64>)
    requires
        c.run_in_flight,
    ensures
        decide_spec(cfg, c, due) == DecisionView::Idle,
{
}

/// An explicit "Run now" is never dropped: unless a run is already in flight
/// (which leaves the request queued), it either runs at once or is deferred
/// with the instruction to requeue it. Only a manual request is ever
/// requeued.
pub proof fn law_manual_request_is_never_lost(cfg: ScheduleConfigView, c: Conditions, due: Option<u64>)
    ensures
        c.manual_requested && !c.run_in_flight ==> (decide_spec(cfg, c, due) == DecisionView::Run(
            TriggerKind::Manual,
        ) || (decide_spec(cfg, c, due) matches DecisionView::Defer { requeue_manual: true, .. })),
        (decide_spec(cfg, c, due) matches DecisionView::Defer { requeue_manual: true, .. })
            ==> c.manual_requested,
{
}

/// An explicit request bypasses the cadence, the constraints and the master
/// switch; only a busy activity gate or a run in flight holds it back.
pub proof fn law_manual_request_bypasses_everything(cfg: ScheduleConfigView, c: Conditions, due: Option<u64>)
    requires
        c.manual_requested,
        !c.run_in_flight,
        !c.activity_busy,
    ensures
        decide_spec(cfg, c, due) == DecisionView::Run(TriggerKind::Manual),
{
}

/// With the master switch off, nothing but an explicit request ever runs.
pub proof fn law_disabled_runs_only_on_request(cfg: ScheduleConfigView, c: Conditions, due: Option<u64>)
    requires
        !cfg.enabled,
        !c.manual_requested,
    ensures
        !(decide_spec(cfg, c, due) is Run),
{
}

/// A busy activity gate blocks scheduled runs silently, and an engaged Clean
/// screen defers them.
pub proof fn law_gate_and_ui_hold_back_scheduled_runs(cfg: ScheduleConfigView, c: Conditions, due: Option<u64>)
    requires
        !c.manual_requested,
    ensures
        c.activity_busy ==> decide_spec(cfg, c, due) == DecisionView::Idle,
        c.ui_engaged && !c.activity_busy && !c.run_in_flight ==> decide_spec(cfg, c, due)
            == (DecisionView::Defer { reason: ui_reason(), requeue_manual: false }),
{
}

/// A cadence run never happens before it is due, a threshold run never
/// happens inside the cooldown or below the threshold, and an automatic run
/// never happens while the master switch is off.
pub proof fn law_runs_only_when_due(cfg: ScheduleConfigView, c: Conditions, due: Option<u64>)
    ensures
        decide_spec(cfg, c, due) == DecisionView::Run(TriggerKind::Cadence) ==> (cfg.enabled
            && (due matches Some(d) && c.now >= d)),
        decide_spec(cfg, c, due) == DecisionView::Run(TriggerKind::Threshold) ==> cfg.enabled
            && threshold_fires(cfg, c),
{
}

/// Past the grace window an overdue cadence run happens whatever the idle and
/// battery constraints say.
pub proof fn law_grace_window_bounds_deferral(cfg: ScheduleConfigView, c: Conditions, d: u64)
    requires
        cfg.enabled,
        !c.run_in_flight,
        !c.activity_busy,
        !c.ui_engaged,
        !c.manual_requested,
        !threshold_fires(cfg, c),
        c.now >= d + CADENCE_GRACE_SECS,
    ensures
        decide_spec(cfg, c, Some(d)) == DecisionView::Run(TriggerKind::Cadence),
{
}

/// Disk pressure does not wait for the user to leave, and a nearly full drive
/// does not wait for AC power either; a full drive takes precedence over an
/// overdue cadence.
pub proof fn law_full_drive_runs_now(cfg: ScheduleConfigView, c: Conditions, due: Option<u64>)
    requires
        cfg.enabled,
        !c.run_in_flight,
        !c.activity_busy,
        !c.ui_engaged,
        !c.manual_requested,
        threshold_fires(cfg, c),
        !c.on_battery || !cfg.skip_on_battery || used_at_least(
            c.disk_used_percent.unwrap(),
            CRITICAL_USED_PERCENT as int,
        ),
    ensures
        decide_spec(cfg, c, due) == DecisionView::Run(TriggerKind::Threshold),
{
}

/// A manual cadence never fires on time: whatever [`decide`] reads from the
/// clock, its decision is one with no cadence due time.
pub proof fn law_manual_cadence_never_fires_on_time(cfg: ScheduleConfigView, c: Conditions)
    ensures
        decide_spec(cfg, c, None) != DecisionView::Run(TriggerKind::Cadence),
{
}

} // verus!
