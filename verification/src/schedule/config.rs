//! Automation configuration, persisted run state, and schedule arithmetic.

use vstd::prelude::*;

use crate::model::{Category, SafetyTier};
use chrono::TimeZone;

use crate::text::{push_decimal, push_str, push_char, digit, decimal, two_digits, digit_char};

verus! {

/// How often an automatic maintenance run should happen.
#[derive(Debug, Clone, Copy, PartialEq, Eq, Structural)]
pub enum Cadence {
    /// No time-based runs (threshold triggers can still fire).
    Manual,
    Daily,
    EveryThreeDays,
    Weekly,
}

/// The interval of a cadence in days, `None` for manual-only.
pub open spec fn cadence_days(c: Cadence) -> Option<i64> {
    match c {
        Cadence::Manual => None,
        Cadence::Daily => Some(1),
        Cadence::EveryThreeDays => Some(3),
        Cadence::Weekly => Some(7),
    }
}

impl Cadence {
    /// Interval in days, or `None` for [`Cadence::Manual`].
    pub fn interval_days(self) -> (r: Option<i64>)
        ensures
            r == cadence_days(self),
    {
        match self {
            Cadence::Manual => None,
            Cadence::Daily => Some(1),
            Cadence::EveryThreeDays => Some(3),
            Cadence::Weekly => Some(7),
        }
    }
}

/// What caused a run to start.
#[derive(Debug, Clone, Copy, PartialEq, Eq, Structural)]
pub enum TriggerKind {
    /// The cadence timer came due.
    Cadence,
    /// Disk usage crossed the configured threshold.
    Threshold,
    /// The user pressed "Run now".
    Manual,
}

/// Where an automatic run currently is.
#[derive(Debug, Clone, Copy, PartialEq, Eq, Structural)]
pub enum RunPhase {
    Idle,
    Scanning,
    Cleaning,
}

impl Default for RunPhase {
    fn default() -> (r: Self)
        ensures
            r == RunPhase::Idle,
    {
        RunPhase::Idle
    }
}

/// Hard ceiling on `max_auto_clean_bytes` (200 GiB), whatever the config says.
pub const AUTO_CLEAN_HARD_CAP_BYTES: u64 = 214748364800u64;

/// Default cap on how much a single automatic cleanup may remove (50 GiB).
pub const DEFAULT_MAX_AUTO_CLEAN_BYTES: u64 = 53687091200u64;

/// Smallest byte cap a sanitized config keeps (1 MiB).
pub const MIN_AUTO_CLEAN_BYTES: u64 = 1048576u64;

/// User-facing automation settings.
#[derive(Debug)]
pub struct ScheduleConfig {
    /// Master switch. When false the scheduler tick does nothing on its own.
    pub enabled: bool,
    pub cadence: Cadence,
    /// Local hour (0-23) the cadence run prefers.
    pub preferred_hour: u8,
    /// Also run when the drive gets full, independent of the cadence.
    pub threshold_enabled: bool,
    /// Fire when used space reaches this percentage.
    pub threshold_percent: u8,
    /// Which drive to watch, as a path. Empty = the drive holding the profile.
    pub threshold_path: String,
    /// Only start a cadence run after `idle_minutes` without input.
    pub run_only_when_idle: bool,
    pub idle_minutes: u32,
    /// Defer while running on battery.
    pub skip_on_battery: bool,
    /// `false` = scan and notify only; `true` = also delete what the policy allows.
    pub auto_clean: bool,
    /// Safety tiers autopilot may remove (`Caution` is always rejected).
    pub auto_clean_tiers: Vec<SafetyTier>,
    /// Categories autopilot may remove.
    pub auto_clean_categories: Vec<Category>,
    /// Optional narrowing to specific rule ids; empty = no narrowing.
    pub auto_clean_rule_ids: Vec<String>,
    /// Byte ceiling for a single autopilot run.
    pub max_auto_clean_bytes: u64,
    /// Send autopilot deletions to the Recycle Bin.
    pub to_recycle_bin: bool,
    /// Launch at logon, hidden in the tray.
    pub autostart: bool,
    /// Closing the window hides it to the tray.
    pub minimize_to_tray: bool,
    /// Post a notification when a run finds or frees something.
    pub notify: bool,
}

/// The mathematical value of a [`ScheduleConfig`].
pub ghost struct ScheduleConfigView {
    pub enabled: bool,
    pub cadence: Cadence,
    pub preferred_hour: u8,
    pub threshold_enabled: bool,
    pub threshold_percent: u8,
    pub threshold_path: Seq<char>,
    pub run_only_when_idle: bool,
    pub idle_minutes: u32,
    pub skip_on_battery: bool,
    pub auto_clean: bool,
    pub auto_clean_tiers: Seq<SafetyTier>,
    pub auto_clean_categories: Seq<Category>,
    pub auto_clean_rule_ids: Seq<Seq<char>>,
    pub max_auto_clean_bytes: u64,
    pub to_recycle_bin: bool,
    pub autostart: bool,
    pub minimize_to_tray: bool,
    pub notify: bool,
}

impl View for ScheduleConfig {
    type V = ScheduleConfigView;

    open spec fn view(&self) -> ScheduleConfigView {
        ScheduleConfigView {
            enabled: self.enabled,
            cadence: self.cadence,
            preferred_hour: self.preferred_hour,
            threshold_enabled: self.threshold_enabled,
            threshold_percent: self.threshold_percent,
            threshold_path: self.threshold_path@,
            run_only_when_idle: self.run_only_when_idle,
            idle_minutes: self.idle_minutes,
            skip_on_battery: self.skip_on_battery,
            auto_clean: self.auto_clean,
            auto_clean_tiers: self.auto_clean_tiers@,
            auto_clean_categories: self.auto_clean_categories@,
            auto_clean_rule_ids: self.auto_clean_rule_ids.deep_view(),
            max_auto_clean_bytes: self.max_auto_clean_bytes,
            to_recycle_bin: self.to_recycle_bin,
            autostart: self.autostart,
            minimize_to_tray: self.minimize_to_tray,
            notify: self.notify,
        }
    }
}

/// The documented defaults: off, weekly at 02:00, threshold at 85%, idle five
/// minutes, skip on battery, scan-only, Safe tier of package caches, temp
/// files and browser builds, 50 GiB cap, Recycle Bin, tray, notifications.
pub open spec fn default_config() -> ScheduleConfigView {
    ScheduleConfigView {
        enabled: false,
        cadence: Cadence::Weekly,
        preferred_hour: 2,
        threshold_enabled: true,
        threshold_percent: 85,
        threshold_path: Seq::empty(),
        run_only_when_idle: true,
        idle_minutes: 5,
        skip_on_battery: true,
        auto_clean: false,
        auto_clean_tiers: seq![SafetyTier::Safe],
        auto_clean_categories: seq![Category::PackageCache, Category::Temp, Category::Browser],
        auto_clean_rule_ids: Seq::empty(),
        max_auto_clean_bytes: DEFAULT_MAX_AUTO_CLEAN_BYTES,
        to_recycle_bin: true,
        autostart: false,
        minimize_to_tray: true,
        notify: true,
    }
}

impl Default for ScheduleConfig {
    fn default() -> (r: Self)
        ensures
            r@ == default_config(),
    {
        let tiers = vec![SafetyTier::Safe];
        let cats = vec![Category::PackageCache, Category::Temp, Category::Browser];
        let ids: Vec<String> = Vec::new();
        let r = ScheduleConfig {
            enabled: false,
            cadence: Cadence::Weekly,
            preferred_hour: 2,
            threshold_enabled: true,
            threshold_percent: 85,
            threshold_path: String::new(),
            run_only_when_idle: true,
            idle_minutes: 5,
            skip_on_battery: true,
            auto_clean: false,
            auto_clean_tiers: tiers,
            auto_clean_categories: cats,
            auto_clean_rule_ids: ids,
            max_auto_clean_bytes: DEFAULT_MAX_AUTO_CLEAN_BYTES,
            to_recycle_bin: true,
            autostart: false,
            minimize_to_tray: true,
            notify: true,
        };
        assert(r@.auto_clean_tiers =~= seq![SafetyTier::Safe]);
        assert(r@.auto_clean_categories =~= seq![Category::PackageCache, Category::Temp, Category::Browser]);
        assert(r@.auto_clean_rule_ids =~= Seq::<Seq<char>>::empty());
        r
    }
}

/// `x` clamped into `[lo, hi]`.
pub open spec fn clamp(x: int, lo: int, hi: int) -> int {
    if x < lo {
        lo
    } else if x > hi {
        hi
    } else {
        x
    }
}

/// `s` without its `Caution` entries, order kept.
pub open spec fn without_caution(s: Seq<SafetyTier>) -> Seq<SafetyTier>
    decreases s.len(),
{
    if s.len() == 0 {
        s
    } else if s.last() == SafetyTier::Caution {
        without_caution(s.drop_last())
    } else {
        without_caution(s.drop_last()).push(s.last())
    }
}

/// The tier list a sanitized config keeps: `Caution` stripped, and `Safe`
/// alone when nothing is left.
pub open spec fn sanitized_tiers(s: Seq<SafetyTier>) -> Seq<SafetyTier> {
    let kept = without_caution(s);
    if kept.len() == 0 {
        seq![SafetyTier::Safe]
    } else {
        kept
    }
}

/// What [`ScheduleConfig::sanitized`] makes of a config.
pub open spec fn sanitize(c: ScheduleConfigView) -> ScheduleConfigView {
    ScheduleConfigView {
        preferred_hour: if c.preferred_hour > 23 { 23 } else { c.preferred_hour },
        threshold_percent: clamp(c.threshold_percent as int, 50, 99) as u8,
        idle_minutes: clamp(c.idle_minutes as int, 1, 240) as u32,
        max_auto_clean_bytes: clamp(
            c.max_auto_clean_bytes as int,
            MIN_AUTO_CLEAN_BYTES as int,
            AUTO_CLEAN_HARD_CAP_BYTES as int,
        ) as u64,
        auto_clean_tiers: sanitized_tiers(c.auto_clean_tiers),
        ..c
    }
}

/// A config every field of which is in its allowed range.
pub open spec fn is_sane(c: ScheduleConfigView) -> bool {
    &&& c.preferred_hour <= 23
    &&& 50 <= c.threshold_percent <= 99
    &&& 1 <= c.idle_minutes <= 240
    &&& MIN_AUTO_CLEAN_BYTES <= c.max_auto_clean_bytes <= AUTO_CLEAN_HARD_CAP_BYTES
    &&& c.auto_clean_tiers.len() > 0
    &&& !c.auto_clean_tiers.contains(SafetyTier::Caution)
}

/// Builds the sanitized tier list of `v`.
fn sanitize_tiers(v: &Vec<SafetyTier>) -> (r: Vec<SafetyTier>)
    ensures
        r@ == sanitized_tiers(v@),
{
    let mut kept: Vec<SafetyTier> = Vec::new();
    let mut i: usize = 0;
    while i < v.len()
        invariant
            i <= v.len(),
            kept@ == without_caution(v@.take(i as int)),
        decreases v.len() - i,
    {
        let t = v[i];
        assert(v@.take(i as int + 1).drop_last() =~= v@.take(i as int));
        if t != SafetyTier::Caution {
            kept.push(t);
        }
        i = i + 1;
    }
    assert(v@.take(i as int) =~= v@);
    if kept.len() == 0 {
        kept.push(SafetyTier::Safe);
        assert(kept@ =~= seq![SafetyTier::Safe]);
    }
    kept
}

impl ScheduleConfig {
    /// Clamp everything a hand-edited config could get wrong, and strip the
    /// `Caution` tier, which autopilot never touches.
    pub fn sanitized(self) -> (r: Self)
        ensures
            r@ == sanitize(self@),
    {
        let preferred_hour = if self.preferred_hour > 23 { 23 } else { self.preferred_hour };
        let threshold_percent = if self.threshold_percent < 50 {
            50
        } else if self.threshold_percent > 99 {
            99
        } else {
            self.threshold_percent
        };
        let idle_minutes = if self.idle_minutes < 1 {
            1
        } else if self.idle_minutes > 240 {
            240
        } else {
            self.idle_minutes
        };
        let max_auto_clean_bytes = if self.max_auto_clean_bytes < MIN_AUTO_CLEAN_BYTES {
            MIN_AUTO_CLEAN_BYTES
        } else if self.max_auto_clean_bytes > AUTO_CLEAN_HARD_CAP_BYTES {
            AUTO_CLEAN_HARD_CAP_BYTES
        } else {
            self.max_auto_clean_bytes
        };
        let auto_clean_tiers = sanitize_tiers(&self.auto_clean_tiers);
        ScheduleConfig {
            preferred_hour,
            threshold_percent,
            idle_minutes,
            max_auto_clean_bytes,
            auto_clean_tiers,
            ..self
        }
    }
}

/// Stripping `Caution` leaves no `Caution`, and changes nothing when there
/// was none.
pub proof fn lemma_without_caution(s: Seq<SafetyTier>)
    ensures
        !without_caution(s).contains(SafetyTier::Caution),
        !s.contains(SafetyTier::Caution) ==> without_caution(s) == s,
    decreases s.len(),
{
    if s.len() > 0 {
        let p = s.drop_last();
        lemma_without_caution(p);
        let w = without_caution(s);
        if w.contains(SafetyTier::Caution) {
            let j = choose|j: int| 0 <= j < w.len() && w[j] == SafetyTier::Caution;
            if s.last() != SafetyTier::Caution && j == w.len() - 1 {
            } else {
                assert(without_caution(p)[j] == SafetyTier::Caution);
                assert(without_caution(p).contains(SafetyTier::Caution));
            }
        }
        if !s.contains(SafetyTier::Caution) {
            if p.contains(SafetyTier::Caution) {
                let k = choose|k: int| 0 <= k < p.len() && p[k] == SafetyTier::Caution;
                assert(s[k] == SafetyTier::Caution);
            }
            assert(s[s.len() - 1] == s.last());
            assert(s == p.push(s.last()));
        }
    }
}

/// A sanitized config is sane, and sanitizing a sane config changes nothing:
/// sanitizing twice is the same as sanitizing once.
pub proof fn lemma_sanitize_is_sane_and_idempotent(c: ScheduleConfigView)
    ensures
        is_sane(sanitize(c)),
        is_sane(c) ==> sanitize(c) == c,
        sanitize(sanitize(c)) == sanitize(c),
{
    lemma_without_caution(c.auto_clean_tiers);
    let k = without_caution(c.auto_clean_tiers);
    let one = seq![SafetyTier::Safe];
    if one.contains(SafetyTier::Caution) {
        let j = choose|j: int| 0 <= j < one.len() && one[j] == SafetyTier::Caution;
        assert(one[j] == SafetyTier::Safe);
    }
    lemma_without_caution(one);
    lemma_without_caution(k);
    if is_sane(c) {
        assert(sanitize(c) =~= c);
    }
}

/// Is the default config already in its allowed ranges? It is.
pub proof fn lemma_default_config_is_sane()
    ensures
        is_sane(default_config()),
        sanitize(default_config()) == default_config(),
{
    assert(!seq![SafetyTier::Safe].contains(SafetyTier::Caution));
    lemma_sanitize_is_sane_and_idempotent(default_config());
}

} // verus!

verus! {

// ---------------------------------------------------------------------------
// Persisted run state
// ---------------------------------------------------------------------------

/// One entry in the automation audit trail.
#[derive(Debug)]
pub struct RunRecord {
    /// Unix seconds when the run started.
    pub at: u64,
    pub trigger: TriggerKind,
    /// Items the scan surfaced.
    pub scanned_items: u32,
    /// Bytes the scan reported as reclaimable.
    pub reclaimable_bytes: u64,
    /// Items autopilot actually removed.
    pub cleaned_items: u32,
    /// Bytes autopilot actually reclaimed.
    pub reclaimed_bytes: u64,
    /// Whether this run was allowed to delete.
    pub auto_cleaned: bool,
    /// Items autopilot tried but could not remove.
    pub skipped_items: u32,
    pub duration_ms: u64,
    /// Set when the run failed or stopped early.
    pub error: Option<String>,
}

impl Clone for RunRecord {
    fn clone(&self) -> (r: Self)
        ensures
            r == *self,
    {
        let error = match &self.error {
            Some(e) => Some(e.clone()),
            None => None,
        };
        RunRecord {
            at: self.at,
            trigger: self.trigger,
            scanned_items: self.scanned_items,
            reclaimable_bytes: self.reclaimable_bytes,
            cleaned_items: self.cleaned_items,
            reclaimed_bytes: self.reclaimed_bytes,
            auto_cleaned: self.auto_cleaned,
            skipped_items: self.skipped_items,
            duration_ms: self.duration_ms,
            error,
        }
    }
}

/// How many audit-trail entries are kept.
pub const HISTORY_LIMIT: usize = 20;

/// Scheduler bookkeeping that survives a restart.
#[derive(Debug)]
pub struct ScheduleState {
    /// Unix seconds of the last completed run of any kind.
    pub last_run_at: Option<u64>,
    /// Unix seconds of the last threshold-triggered run, for the cooldown.
    pub last_threshold_run_at: Option<u64>,
    /// Newest-first audit trail.
    pub history: Vec<RunRecord>,
}

impl Default for ScheduleState {
    fn default() -> (r: Self)
        ensures
            r.last_run_at is None,
            r.last_threshold_run_at is None,
            r.history@ == Seq::<RunRecord>::empty(),
    {
        ScheduleState { last_run_at: None, last_threshold_run_at: None, history: Vec::new() }
    }
}

/// The audit trail after recording `r`: newest first, at most
/// [`HISTORY_LIMIT`] entries.
pub open spec fn recorded(history: Seq<RunRecord>, r: RunRecord) -> Seq<RunRecord> {
    let all = seq![r] + history;
    if all.len() > HISTORY_LIMIT {
        all.take(HISTORY_LIMIT as int)
    } else {
        all
    }
}

impl ScheduleState {
    /// Push a record, keeping the list newest-first and capped.
    pub fn record(&mut self, record: RunRecord)
        ensures
            final(self).history@ == recorded(old(self).history@, record),
            final(self).last_run_at == old(self).last_run_at,
            final(self).last_threshold_run_at == old(self).last_threshold_run_at,
    {
        let ghost r = record;
        let ghost before = self.history@;
        self.history.insert(0, record);
        assert(self.history@ =~= seq![r] + before);
        self.history.truncate(HISTORY_LIMIT);
        assert(self.history@ =~= recorded(before, r));
    }

    /// Book a finished run: it becomes the last run (and the last threshold
    /// run when a full drive triggered it), and its record heads the trail.
    pub fn finish_run(&mut self, started_at: u64, trigger: TriggerKind, record: RunRecord)
        ensures
            final(self).last_run_at == Some(started_at),
            final(self).last_threshold_run_at == if trigger == TriggerKind::Threshold {
                Some(started_at)
            } else {
                old(self).last_threshold_run_at
            },
            final(self).history@ == recorded(old(self).history@, record),
    {
        self.last_run_at = Some(started_at);
        if trigger == TriggerKind::Threshold {
            self.last_threshold_run_at = Some(started_at);
        }
        self.record(record);
    }
}

/// The trail keeps the newest record first and never grows past the limit.
pub proof fn lemma_recorded_is_capped_newest_first(history: Seq<RunRecord>, r: RunRecord)
    ensures
        recorded(history, r).len() <= HISTORY_LIMIT,
        recorded(history, r).len() == if history.len() + 1 > HISTORY_LIMIT {
            HISTORY_LIMIT as int
        } else {
            history.len() + 1int
        },
        recorded(history, r)[0] == r,
        forall|i: int|
            1 <= i < recorded(history, r).len() ==> #[trigger] recorded(history, r)[i] == history[i - 1],
{
}

// ---------------------------------------------------------------------------
// Human summaries
// ---------------------------------------------------------------------------

/// Human summary of a cadence, e.g. "Weekly at 02:00".
pub open spec fn cadence_label(c: ScheduleConfigView) -> Seq<char> {
    let hour = if c.preferred_hour > 23 { 23nat } else { c.preferred_hour as nat };
    let at = " at "@ + two_digits(hour) + ":00"@;
    match c.cadence {
        Cadence::Manual => "Manual only"@,
        Cadence::Daily => "Daily"@ + at,
        Cadence::EveryThreeDays => "Every 3 days"@ + at,
        Cadence::Weekly => "Weekly"@ + at,
    }
}

/// Human summary of a cadence, for the tray tooltip and status line.
pub fn describe_cadence(cfg: &ScheduleConfig) -> (r: String)
    ensures
        r@ == cadence_label(cfg@),
{
    let hour: u64 = if cfg.preferred_hour > 23 { 23 } else { cfg.preferred_hour as u64 };
    let mut s = String::new();
    match cfg.cadence {
        Cadence::Manual => {
            push_str(&mut s, "Manual only");
            assert(s@ =~= cadence_label(cfg@));
            return s;
        },
        Cadence::Daily => push_str(&mut s, "Daily"),
        Cadence::EveryThreeDays => push_str(&mut s, "Every 3 days"),
        Cadence::Weekly => push_str(&mut s, "Weekly"),
    }
    push_str(&mut s, " at ");
    push_char(&mut s, digit((hour / 10) % 10));
    push_char(&mut s, digit(hour % 10));
    push_str(&mut s, ":00");
    assert(s@ =~= cadence_label(cfg@));
    s
}

// ---------------------------------------------------------------------------
// Clock and schedule arithmetic
// ---------------------------------------------------------------------------

/// The system clock as seconds and nanoseconds since the Unix epoch, or
/// `None` when the clock reads earlier than the epoch.
///
/// Trusted: calls `SystemTime::now` and measures it from `UNIX_EPOCH` with
/// `duration_since`, which fails only for an earlier instant; the parts are
/// the `Duration`'s `as_secs` and `subsec_nanos`. The reading is the
/// machine's clock, so only the documented range of `subsec_nanos` is
/// claimed of it.
#[verifier::external_body]
pub(crate) fn system_clock() -> (r: Option<(u64, u32)>)
    ensures
        r matches Some((_, nanos)) ==> nanos < 1_000_000_000,
{
    std::time::SystemTime::now()
        .duration_since(std::time::UNIX_EPOCH)
        .ok()
        .map(|d| (d.as_secs(), d.subsec_nanos()))
}

/// Current unix time in seconds, `0` when the clock is before the epoch.
pub fn now_secs() -> u64 {
    match system_clock() {
        Some((s, _)) => s,
        None => 0,
    }
}

/// How far from the epoch, in seconds, chrono is sure to represent an
/// instant: its dates run from year -262143 to year 262142, and this bound
/// (about year 255000 either way) lies inside that range.
pub open spec fn chrono_safe(secs: int) -> bool {
    -8_000_000_000_000 <= secs <= 8_000_000_000_000
}

/// The local time zone's offset from UTC, in seconds, at unix second `secs`;
/// `None` when chrono cannot represent that instant.
///
/// Trusted: calls chrono's `Local.timestamp_opt(secs, 0)`, keeps its
/// `single` result and reads `offset().local_minus_utc()`. chrono's
/// `timestamp_opt` returns a single result for every second that
/// `DateTime::from_timestamp` accepts, whatever the zone, so the result is
/// claimed to be present on [`chrono_safe`] seconds; its value is the
/// machine's time zone, so of it only what `FixedOffset` guarantees of every
/// offset (strictly less than a day either way) is claimed.
#[verifier::external_body]
fn local_offset_at(secs: i64) -> (r: Option<i32>)
    ensures
        chrono_safe(secs as int) ==> r is Some,
        r matches Some(off) ==> -86400 < off < 86400,
{
    chrono::Local.timestamp_opt(secs, 0).single().map(|dt| dt.offset().local_minus_utc())
}

/// The instants at which the local wall-clock time `wall` (seconds on the
/// naive, zone-free calendar scale) occurs, each with the zone's offset
/// there: its single reading and its earliest reading, each `None` when
/// there is none.
///
/// Trusted: builds the naive date-time with `DateTime::from_timestamp(wall,
/// 0)` and its `naive_utc`, calls chrono's `Local.from_local_datetime` once
/// and reads `single` and `earliest` of the result, each as its `timestamp`
/// and `offset().local_minus_utc()`. Which readings exist is the machine's
/// time zone, so what is claimed is what chrono's source gives for every
/// zone: a single reading is also the earliest one, and each reading is the
/// wall time less its offset (chrono subtracts the offset from the naive
/// time), the offset being strictly less than a day either way.
#[verifier::external_body]
fn local_readings(wall: i64) -> (r: (Option<(i64, i32)>, Option<(i64, i32)>))
    ensures
        r.0 matches Some(x) ==> r.1 == Some(x),
        r.0 matches Some((t, off)) ==> -86400 < off < 86400 && t + off == wall,
        r.1 matches Some((t, off)) ==> -86400 < off < 86400 && t + off == wall,
{
    match chrono::DateTime::from_timestamp(wall, 0) {
        Some(naive) => {
            let m = chrono::Local.from_local_datetime(&naive.naive_utc());
            let read = |dt: chrono::DateTime<chrono::Local>| (dt.timestamp(), dt.offset().local_minus_utc());
            (m.single().map(read), m.earliest().map(read))
        },
        None => (None, None),
    }
}

/// The hour (0-23) a cadence run prefers.
pub open spec fn run_hour(h: u8) -> u32 {
    if h > 23 {
        23
    } else {
        h as u32
    }
}

/// Where the next cadence run is anchored: one interval after `base` (unix
/// seconds), with the hour it prefers. `None` for a manual cadence, or when
/// the instant does not fit in an `i64`.
pub fn due_anchor(cfg: &ScheduleConfig, base: i64) -> (r: Option<(i64, u32)>)
    ensures
        r == due_anchor_spec(cfg.cadence, cfg.preferred_hour, base),
{
    let days = match cfg.cadence.interval_days() {
        Some(d) => d,
        None => return None,
    };
    let hour: u32 = if cfg.preferred_hour > 23 { 23 } else { cfg.preferred_hour as u32 };
    let shift: i64 = days * 86400;
    if base > 9223372036854775807i64 - shift {
        return None;
    }
    Some((base + shift, hour))
}

/// [`due_anchor`] as a spec function of the cadence, preferred hour and
/// base.
pub open spec fn due_anchor_spec(cadence: Cadence, preferred_hour: u8, base: i64) -> Option<(i64, u32)> {
    match cadence_days(cadence) {
        None => None,
        Some(d) => if base + d * 86400 > i64::MAX {
            None
        } else {
            Some(((base + d * 86400) as i64, run_hour(preferred_hour)))
        },
    }
}

/// The start (midnight) of the day holding wall-clock second `wall`.
pub open spec fn day_start(wall: int) -> int {
    (wall / 86400) * 86400
}

/// Wall-clock second `hour:00:00` on the day holding wall-clock second
/// `wall`.
pub open spec fn wall_at_hour(wall: int, hour: int) -> int {
    day_start(wall) + hour * 3600
}

/// The hour after `hour`, kept within the day.
pub open spec fn hour_after(hour: u32) -> u32 {
    if hour + 1 > 23 {
        23
    } else {
        (hour + 1) as u32
    }
}

fn wall_at_hour_wide(w: i128, hour: u32) -> (r: i128)
    requires
        -0x1_0000_0000_0000_0000 <= w <= 0x1_0000_0000_0000_0000,
        hour < 24,
    ensures
        r == wall_at_hour(w as int, hour as int),
{
    let start: i128 = if w >= 0 {
        let q: u128 = (w as u128) / 86400;
        proof {
            vstd::arithmetic::div_mod::lemma_fundamental_div_mod(w as int, 86400);
            vstd::arithmetic::div_mod::lemma_fundamental_div_mod_converse(
                w as int, 86400, q as int, w as int - q * 86400);
        }
        (q * 86400) as i128
    } else {
        let m: u128 = (-(w + 1)) as u128;
        let q: u128 = m / 86400;
        proof {
            vstd::arithmetic::div_mod::lemma_fundamental_div_mod(m as int, 86400);
            vstd::arithmetic::div_mod::lemma_fundamental_div_mod_converse(
                w as int, 86400, -(q + 1), 86399 - (m - q * 86400));
        }
        -((q as i128) + 1) * 86400
    };
    assert(start == day_start(w as int));
    start + (hour as i128) * 3600
}

/// Wall-clock second `hour:00:00` on the day holding wall-clock second
/// `wall`; `None` when that second does not fit in an `i64`.
pub fn local_wall_at_hour(wall: i64, hour: u32) -> (r: Option<i64>)
    requires
        hour < 24,
    ensures
        match r {
            Some(w) => w == wall_at_hour(wall as int, hour as int),
            None => !(i64::MIN <= wall_at_hour(wall as int, hour as int) <= i64::MAX),
        },
{
    let r: i128 = wall_at_hour_wide(wall as i128, hour);
    if r < -9223372036854775808i128 || r > 9223372036854775807i128 {
        return None;
    }
    Some(r as i64)
}

/// The wall-clock seconds a cadence run counted from `base` aims at, when
/// the zone's offset at the anchor instant is `offset`: the preferred hour,
/// and the hour after it, on the local calendar day of the anchor. `None`
/// when there is no anchor or either second does not fit in an `i64`.
pub open spec fn preferred_walls_spec(cadence: Cadence, preferred_hour: u8, base: i64, offset: int) -> Option<(i64, i64)> {
    match due_anchor_spec(cadence, preferred_hour, base) {
        None => None,
        Some((a, h)) => {
            let p = wall_at_hour(a + offset, h as int);
            let q = wall_at_hour(a + offset, hour_after(h) as int);
            if i64::MIN <= p <= i64::MAX && i64::MIN <= q <= i64::MAX {
                Some((p as i64, q as i64))
            } else {
                None
            }
        },
    }
}

/// The wall-clock seconds a cadence run counted from `base` aims at, given
/// the zone's offset at the anchor instant (see [`preferred_walls_spec`]).
pub fn preferred_walls(cfg: &ScheduleConfig, base: i64, target_offset: i32) -> (r: Option<(i64, i64)>)
    ensures
        r == preferred_walls_spec(cfg.cadence, cfg.preferred_hour, base, target_offset as int),
{
    let (a, h) = match due_anchor(cfg, base) {
        Some(x) => x,
        None => return None,
    };
    let w: i128 = a as i128 + target_offset as i128;
    let p = wall_at_hour_wide(w, h);
    let q = wall_at_hour_wide(w, if h + 1 > 23 { 23 } else { h + 1 });
    if p < -9223372036854775808i128 || p > 9223372036854775807i128 || q < -9223372036854775808i128 || q
        > 9223372036854775807i128 {
        return None;
    }
    Some((p as i64, q as i64))
}

/// The due instant a zone's readings give: the single reading of the
/// preferred wall-clock time, else its earliest reading, else the earliest
/// reading one hour later (a skipped DST hour); an instant before the epoch
/// reads as zero.
pub open spec fn resolved_due(single: Option<i64>, earliest: Option<i64>, bumped: Option<i64>) -> Option<u64> {
    let picked = match single {
        Some(t) => Some(t),
        None => match earliest {
            Some(t) => Some(t),
            None => bumped,
        },
    };
    match picked {
        None => None,
        Some(t) => Some(if t < 0 { 0u64 } else { t as u64 }),
    }
}

/// The due instant from the zone's readings of the preferred wall-clock
/// time (see [`resolved_due`]).
pub fn resolve_due(single: Option<i64>, earliest: Option<i64>, bumped: Option<i64>) -> (r: Option<u64>)
    ensures
        r == resolved_due(single, earliest, bumped),
{
    let picked = match single {
        Some(t) => Some(t),
        None => match earliest {
            Some(t) => Some(t),
            None => bumped,
        },
    };
    match picked {
        None => None,
        Some(t) => if t < 0 {
            Some(0)
        } else {
            Some(t as u64)
        },
    }
}

/// The instant of a zone reading, without its offset.
pub open spec fn instant(x: Option<(i64, i32)>) -> Option<i64> {
    match x {
        Some((t, _)) => Some(t),
        None => None,
    }
}

fn instant_of(x: Option<(i64, i32)>) -> (r: Option<i64>)
    ensures
        r == instant(x),
{
    match x {
        Some((t, _)) => Some(t),
        None => None,
    }
}

/// Due time `d` is where a cadence run counted from `base` lands when the
/// zone's offset at the anchor instant is `offset` and the zone reads the
/// aimed wall-clock second as instant `t` under offset `o`: `t` shown in
/// the zone (`t + o`) is the preferred hour on the anchor's local day (the
/// hour after it when `bumped`), and `d` is `t`, or zero before the epoch.
pub open spec fn lands_at(
    cadence: Cadence,
    preferred_hour: u8,
    base: i64,
    d: u64,
    offset: i32,
    t: i64,
    o: i32,
    bumped: bool,
) -> bool {
    &&& -86400 < offset < 86400
    &&& -86400 < o < 86400
    &&& preferred_walls_spec(cadence, preferred_hour, base, offset as int) matches Some((p, q))
    &&& t + o == if bumped { q } else { p }
    &&& d == if t < 0 { 0 } else { t }
}

/// What a due time counted from `base` is: none without an anchor
/// ([`due_anchor_spec`]); otherwise, when there is one, an instant that
/// [`lands_at`] the preferred local hour of the anchor's day for some
/// reading of the zone.
pub open spec fn due_from(cadence: Cadence, preferred_hour: u8, base: i64, r: Option<u64>) -> bool {
    &&& due_anchor_spec(cadence, preferred_hour, base) is None ==> r is None
    &&& r matches Some(d) ==> exists|offset: i32, t: i64, o: i32, bumped: bool|
        #[trigger] lands_at(cadence, preferred_hour, base, d, offset, t, o, bumped)
}

/// A due time that lands as [`lands_at`] says is, shown in the zone, on the
/// local calendar day of the anchor (shown with the zone's offset there),
/// at the preferred hour sharp (the hour after it when bumped).
pub proof fn law_due_lands_on_the_preferred_hour(
    cadence: Cadence,
    preferred_hour: u8,
    base: i64,
    d: u64,
    offset: i32,
    t: i64,
    o: i32,
    bumped: bool,
)
    requires
        lands_at(cadence, preferred_hour, base, d, offset, t, o, bumped),
    ensures
        due_anchor_spec(cadence, preferred_hour, base) matches Some((a, h)) && (t + o) / 86400 == (a + offset)
            / 86400 && (t + o) % 86400 == (if bumped { hour_after(h) } else { h }) * 3600,
{
    let (a, h) = due_anchor_spec(cadence, preferred_hour, base).unwrap();
    let w = a + offset;
    let hh: int = (if bumped { hour_after(h) } else { h }) as int;
    vstd::arithmetic::div_mod::lemma_fundamental_div_mod(w, 86400);
    assert(0 <= hh * 3600 < 86400);
    vstd::arithmetic::div_mod::lemma_fundamental_div_mod_converse(
        (w / 86400) * 86400 + hh * 3600, 86400, w / 86400, hh * 3600);
}

/// When the next cadence run is due if the interval is counted from unix
/// second `base`.
///
/// `None` for a manual cadence and when the anchor ([`due_anchor`]) does not
/// fit in an `i64`. Otherwise the anchor instant is placed on its local
/// calendar day at the preferred hour ([`preferred_walls`]) and that
/// wall-clock second is read back through the machine's time zone
/// ([`resolve_due`]): the result [`lands_at`] the preferred local hour of
/// the anchor's day. The zone decides whether such a reading exists (a
/// skipped hour and the hour after it may have none), so `None` can also
/// come from the zone.
pub fn next_due_from(cfg: &ScheduleConfig, base: i64) -> (r: Option<u64>)
    ensures
        due_from(cfg.cadence, cfg.preferred_hour, base, r),
{
    let (target, _hour) = match due_anchor(cfg, base) {
        Some(a) => a,
        None => return None,
    };
    if local_offset_at(base).is_none() {
        return None;
    }
    let off = match local_offset_at(target) {
        Some(o) => o,
        None => return None,
    };
    let (p, q) = match preferred_walls(cfg, base, off) {
        Some(w) => w,
        None => return None,
    };
    let (single, earliest) = local_readings(p);
    let bumped = if single.is_none() && earliest.is_none() {
        local_readings(q).1
    } else {
        None
    };
    let r = resolve_due(instant_of(single), instant_of(earliest), instant_of(bumped));
    proof {
        let cad = cfg.cadence;
        let ph = cfg.preferred_hour;
        match single {
            Some((t, o)) => {
                assert(lands_at(cad, ph, base, r.unwrap(), off, t, o, false));
            },
            None => match earliest {
                Some((t, o)) => {
                    assert(lands_at(cad, ph, base, r.unwrap(), off, t, o, false));
                },
                None => match bumped {
                    Some((t, o)) => {
                        assert(lands_at(cad, ph, base, r.unwrap(), off, t, o, true));
                    },
                    None => {},
                },
            },
        }
    }
    r
}

/// The unix second a schedule counts from: the last completed run (read as
/// an `i64`, wrapping), or `now` before the first run.
pub open spec fn schedule_base(last_run_at: Option<u64>, now: u64) -> i64 {
    match last_run_at {
        Some(t) => t as i64,
        None => now as i64,
    }
}

/// When the next cadence run is due, as unix seconds, or `None` for a manual
/// cadence.
///
/// The interval is anchored on the last completed run, so it means "N days
/// since it last ran"; the clock is read only to seed the very first run.
/// The result is [`next_due_from`] that base: the preferred local hour on
/// the local day one interval later.
pub fn next_due_at(cfg: &ScheduleConfig, last_run_at: Option<u64>) -> (r: Option<u64>)
    ensures
        cfg.cadence == Cadence::Manual ==> r is None,
        last_run_at matches Some(t) ==> due_from(cfg.cadence, cfg.preferred_hour, t as i64, r),
        last_run_at is None ==> exists|now: u64| #[trigger] due_from(cfg.cadence, cfg.preferred_hour, now as i64, r),
{
    match last_run_at {
        Some(secs) => next_due_from(cfg, secs as i64),
        None => {
            let now = now_secs();
            let r = next_due_from(cfg, now as i64);
            assert(due_from(cfg.cadence, cfg.preferred_hour, now as i64, r));
            r
        },
    }
}

} // verus!
