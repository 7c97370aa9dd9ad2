//! The text of the tray: the one-line automation status, the tooltip, and
//! the short "in 40m" / "in 6h" / "in 3d" form of the next run.

use vstd::prelude::*;

use chrono::TimeZone;

use crate::schedule::config::{chrono_safe, system_clock, RunPhase};
use crate::schedule::decision::{round_percent, rounded_percent, DiskUsage};
use crate::schedule::runner::{human_bytes, human_bytes_text};
use crate::text::{decimal, push_decimal, push_decimal_wide, push_str};

verus! {

/// The uppercase form of a character (one or more characters).
pub uninterp spec fn char_uppercase(c: char) -> Seq<char>;

/// Trusted: `char::to_uppercase`, collected into a string; its result is
/// named [`char_uppercase`] of the character, on which alone it depends.
#[verifier::external_body]
fn upper_of(c: char) -> (r: String)
    ensures
        r@ == char_uppercase(c),
{
    c.to_uppercase().collect::<String>()
}

/// `s` with its first character in uppercase.
pub open spec fn capitalized(s: Seq<char>) -> Seq<char> {
    if s.len() == 0 {
        s
    } else {
        char_uppercase(s[0]) + s.drop_first()
    }
}

/// `s` with its first character in uppercase.
pub fn capitalize(s: &str) -> (r: String)
    ensures
        r@ == capitalized(s@),
{
    let n = s.unicode_len();
    if n == 0 {
        return String::new();
    }
    let first = s.get_char(0);
    let rest = s.substring_char(1, n);
    let mut out = upper_of(first);
    push_str(&mut out, rest);
    proof {
        assert(s@.subrange(1, s@.len() as int) =~= s@.drop_first());
    }
    out
}

/// How far ahead `delta_secs` (whole seconds, truncated toward zero) lies,
/// in the tray's short form.
pub open spec fn when_text(delta_secs: int) -> Seq<char> {
    if delta_secs < 60 {
        "now"@
    } else if delta_secs < 3600 {
        "in "@ + decimal((delta_secs / 60) as nat) + "m"@
    } else if delta_secs < 86400 {
        "in "@ + decimal((delta_secs / 3600) as nat) + "h"@
    } else {
        "in "@ + decimal((delta_secs / 86400) as nat) + "d"@
    }
}

/// The tray's short form of a delay of `delta_secs` whole seconds.
pub fn format_delta(delta_secs: i64) -> (r: String)
    ensures
        r@ == when_text(delta_secs as int),
{
    if delta_secs < 60 {
        return String::from_str("now");
    }
    let d: u64 = delta_secs as u64;
    let mut s = String::from_str("in ");
    if d < 3600 {
        push_decimal(&mut s, d / 60);
        push_str(&mut s, "m");
    } else if d < 86400 {
        push_decimal(&mut s, d / 3600);
        push_str(&mut s, "h");
    } else {
        push_decimal(&mut s, d / 86400);
        push_str(&mut s, "d");
    }
    s
}

/// Whole seconds from `now` (unix seconds plus `now_nanos` nanoseconds) to
/// unix second `target`, truncated toward zero.
pub open spec fn whole_secs_until(target: int, now_secs: int, now_nanos: int) -> int {
    if now_nanos == 0 || target - now_secs <= 0 {
        target - now_secs
    } else {
        target - now_secs - 1
    }
}

/// Whole seconds from the instant `(now_secs, now_nanos)` to unix second
/// `target`, truncated toward zero; `None` when the difference does not fit.
pub fn secs_until(target: i64, now_secs: u64, now_nanos: u32) -> (r: Option<i64>)
    ensures
        match r {
            Some(d) => d as int == whole_secs_until(target as int, now_secs as int, now_nanos as int),
            None => !(i64::MIN <= whole_secs_until(target as int, now_secs as int, now_nanos as int)
                <= i64::MAX),
        },
{
    let t: i128 = target as i128;
    let n: i128 = now_secs as i128;
    let d: i128 = if now_nanos == 0 || t - n <= 0 { t - n } else { t - n - 1 };
    if d < -9223372036854775808i128 || d > 9223372036854775807i128 {
        None
    } else {
        Some(d as i64)
    }
}

/// Whether chrono places unix second `secs` in the local time zone.
///
/// Trusted: calls chrono's `Local.timestamp_opt(secs, 0)` and asks whether
/// it is `single`. chrono's `timestamp_opt` gives a single result for every
/// second that `DateTime::from_timestamp` accepts, whatever the zone, and
/// none for the others; the answer is claimed `true` on [`chrono_safe`]
/// seconds, which lie inside that range.
#[verifier::external_body]
fn local_reading_is_single(secs: i64) -> (r: bool)
    ensures
        chrono_safe(secs as int) ==> r,
{
    chrono::Local.timestamp_opt(secs, 0).single().is_some()
}

/// The short form of unix second `target` as seen at the clock reading
/// `clock` (seconds and nanoseconds since the epoch), when the local zone
/// reads `target` once (`zone_single`): "soon" when it does not, or when
/// there is no clock reading or the distance does not fit, else
/// [`when_text`] of the whole seconds to go.
pub open spec fn when_at_text(target: i64, zone_single: bool, clock: Option<(u64, u32)>) -> Seq<char> {
    if !zone_single {
        "soon"@
    } else {
        match clock {
            None => "soon"@,
            Some((secs, nanos)) => {
                let d = whole_secs_until(target as int, secs as int, nanos as int);
                if i64::MIN <= d <= i64::MAX {
                    when_text(d)
                } else {
                    "soon"@
                }
            },
        }
    }
}

/// The short form of unix second `target` as seen at the clock reading
/// `clock`, given whether the local zone reads `target` once.
pub fn format_when_at(target: i64, zone_single: bool, clock: Option<(u64, u32)>) -> (r: String)
    ensures
        r@ == when_at_text(target, zone_single, clock),
{
    if !zone_single {
        return String::from_str("soon");
    }
    match clock {
        None => String::from_str("soon"),
        Some((secs, nanos)) => match secs_until(target, secs, nanos) {
            Some(d) => format_delta(d),
            None => String::from_str("soon"),
        },
    }
}

/// "in 40m", "in 6h", "in 3d": how far away unix second `unix_secs` (read as
/// an `i64`, wrapping) is by the system clock, "now" once it is less than a
/// minute away, "soon" when chrono cannot place it in time or the clock
/// reads before the epoch.
pub fn format_when(unix_secs: u64) -> (r: String)
    ensures
        exists|zone_single: bool, clock: Option<(u64, u32)>|
            (chrono_safe(unix_secs as i64 as int) ==> zone_single) && r@ == #[trigger] when_at_text(
                unix_secs as i64,
                zone_single,
                clock,
            ),
{
    let target: i64 = unix_secs as i64;
    if !local_reading_is_single(target) {
        let r = String::from_str("soon");
        assert(r@ == when_at_text(target, false, None));
        return r;
    }
    let clock = system_clock();
    let r = format_when_at(target, true, clock);
    assert(r@ == when_at_text(target, true, clock));
    r
}

/// The tray's status line.
///
/// `next_run` is the short form of the next due time, when one is known.
pub open spec fn status_text(
    running: bool,
    phase: RunPhase,
    found_bytes: u64,
    reclaimed_bytes: u64,
    deferred_reason: Option<Seq<char>>,
    enabled: bool,
    next_run: Option<Seq<char>>,
) -> Seq<char> {
    if running {
        if phase == RunPhase::Cleaning {
            "Cleaning\u{2026} "@ + human_bytes_text(reclaimed_bytes as nat) + " freed"@
        } else {
            "Scanning\u{2026} "@ + human_bytes_text(found_bytes as nat) + " found"@
        }
    } else if deferred_reason is Some {
        capitalized(deferred_reason->0)
    } else if !enabled {
        "Automation is off"@
    } else if next_run is Some {
        "Next run "@ + next_run->0
    } else {
        "Watching disk usage"@
    }
}

/// The view of an optional string.
pub open spec fn opt_text(o: Option<String>) -> Option<Seq<char>> {
    match o {
        Some(s) => Some(s@),
        None => None,
    }
}

/// The tray's status line: progress while a run executes, else why a run is
/// held back, else whether automation is off, else when it runs next.
pub fn status_line(
    running: bool,
    phase: RunPhase,
    found_bytes: u64,
    reclaimed_bytes: u64,
    deferred_reason: &Option<String>,
    enabled: bool,
    next_run: &Option<String>,
) -> (r: String)
    ensures
        r@ == status_text(
            running,
            phase,
            found_bytes,
            reclaimed_bytes,
            opt_text(*deferred_reason),
            enabled,
            opt_text(*next_run),
        ),
{
    if running {
        match phase {
            RunPhase::Cleaning => {
                let mut s = String::from_str("Cleaning\u{2026} ");
                let b = human_bytes(reclaimed_bytes);
                push_str(&mut s, b.as_str());
                push_str(&mut s, " freed");
                s
            },
            _ => {
                let mut s = String::from_str("Scanning\u{2026} ");
                let b = human_bytes(found_bytes);
                push_str(&mut s, b.as_str());
                push_str(&mut s, " found");
                s
            },
        }
    } else if let Some(reason) = deferred_reason {
        capitalize(reason.as_str())
    } else if !enabled {
        String::from_str("Automation is off")
    } else if let Some(when) = next_run {
        let mut s = String::from_str("Next run ");
        push_str(&mut s, when.as_str());
        s
    } else {
        String::from_str("Watching disk usage")
    }
}

/// The tray tooltip: the drive's fill level when it could be read, then the
/// status line.
pub open spec fn tooltip_text(disk: Option<DiskUsage>, status: Seq<char>) -> Seq<char> {
    match disk {
        Some(d) => "Safai \u{2014} drive "@ + decimal(rounded_percent(d)) + "% full\n"@ + status,
        None => "Safai\n"@ + status,
    }
}

/// The tray tooltip for a drive reading `disk` (whose total is non-zero) and
/// the status line `status`.
pub fn tooltip(disk: Option<DiskUsage>, status: &str) -> (r: String)
    requires
        disk matches Some(d) ==> d.total_bytes > 0,
    ensures
        r@ == tooltip_text(disk, status@),
{
    match disk {
        Some(d) => {
            let mut s = String::from_str("Safai \u{2014} drive ");
            let p = round_percent(d);
            push_decimal_wide(&mut s, p);
            push_str(&mut s, "% full\n");
            push_str(&mut s, status);
            s
        },
        None => {
            let mut s = String::from_str("Safai\n");
            push_str(&mut s, status);
            s
        },
    }
}

/// Ids of the tray menu's items.
pub const ID_STATUS: &'static str = "status";
pub const ID_OPEN: &'static str = "open";
pub const ID_RUN_NOW: &'static str = "run_now";
pub const ID_STOP: &'static str = "stop";
pub const ID_TOGGLE: &'static str = "toggle";
pub const ID_QUIT: &'static str = "quit";

/// One line of the tray menu.
#[derive(Debug, Clone, PartialEq, Eq)]
pub enum TrayEntry {
    /// A clickable (or greyed-out) item.
    Item { id: &'static str, label: String, enabled: bool },
    /// A separator line.
    Separator,
}

/// The view of a tray entry.
pub ghost enum TrayEntryView {
    Item { id: Seq<char>, label: Seq<char>, enabled: bool },
    Separator,
}

impl View for TrayEntry {
    type V = TrayEntryView;

    open spec fn view(&self) -> TrayEntryView {
        match self {
            TrayEntry::Item { id, label, enabled } => TrayEntryView::Item { id: id@, label: label@, enabled: *enabled },
            TrayEntry::Separator => TrayEntryView::Separator,
        }
    }
}

/// The tray menu for automation that is `enabled` and `running` (or not),
/// headed by the greyed-out `status` line: open the window, run now (not
/// while running), stop (only while running), switch automation, quit.
pub open spec fn menu_of(enabled: bool, running: bool, status: Seq<char>) -> Seq<TrayEntryView> {
    seq![
        TrayEntryView::Item { id: ID_STATUS@, label: status, enabled: false },
        TrayEntryView::Separator,
        TrayEntryView::Item { id: ID_OPEN@, label: "Open Safai"@, enabled: true },
        TrayEntryView::Separator,
        TrayEntryView::Item { id: ID_RUN_NOW@, label: "Run maintenance now"@, enabled: !running },
        TrayEntryView::Item { id: ID_STOP@, label: "Stop"@, enabled: running },
        TrayEntryView::Item {
            id: ID_TOGGLE@,
            label: if enabled { "Turn automation off"@ } else { "Turn automation on"@ },
            enabled: true,
        },
        TrayEntryView::Separator,
        TrayEntryView::Item { id: ID_QUIT@, label: "Quit Safai"@, enabled: true },
    ]
}

/// The tray menu for the latest `(enabled, running, status line)` snapshot;
/// before the first one, automation reads as off and idle, "Starting…".
pub fn tray_menu(snapshot: &Option<(bool, bool, String)>) -> (r: Vec<TrayEntry>)
    ensures
        r@.map_values(|e: TrayEntry| e@) == match *snapshot {
            Some((enabled, running, status)) => menu_of(enabled, running, status@),
            None => menu_of(false, false, "Starting\u{2026}"@),
        },
{
    let (enabled, running, status) = match snapshot {
        Some((e, r, st)) => (*e, *r, st.clone()),
        None => (false, false, String::from_str("Starting\u{2026}")),
    };
    let toggle = if enabled { "Turn automation off" } else { "Turn automation on" };
    let mut v: Vec<TrayEntry> = Vec::new();
    v.push(TrayEntry::Item { id: ID_STATUS, label: status, enabled: false });
    v.push(TrayEntry::Separator);
    v.push(TrayEntry::Item { id: ID_OPEN, label: String::from_str("Open Safai"), enabled: true });
    v.push(TrayEntry::Separator);
    v.push(TrayEntry::Item { id: ID_RUN_NOW, label: String::from_str("Run maintenance now"), enabled: !running });
    v.push(TrayEntry::Item { id: ID_STOP, label: String::from_str("Stop"), enabled: running });
    v.push(TrayEntry::Item { id: ID_TOGGLE, label: String::from_str(toggle), enabled: true });
    v.push(TrayEntry::Separator);
    v.push(TrayEntry::Item { id: ID_QUIT, label: String::from_str("Quit Safai"), enabled: true });
    proof {
        let m = match snapshot {
            Some((e, r, st)) => menu_of(*e, *r, st@),
            None => menu_of(false, false, "Starting\u{2026}"@),
        };
        assert(v@.map_values(|e: TrayEntry| e@) =~= m);
    }
    v
}

/// What clicking a tray item does.
#[derive(Debug, Clone, Copy, PartialEq, Eq, Structural)]
pub enum TrayAction {
    ShowWindow,
    /// Queue a run and show the window.
    RunNow,
    Stop,
    ToggleAutomation,
    Quit,
    Nothing,
}

/// The action of the tray item with id `id`.
pub fn menu_action(id: &str) -> (r: TrayAction)
    ensures
        r == if id@ == ID_OPEN@ {
            TrayAction::ShowWindow
        } else if id@ == ID_RUN_NOW@ {
            TrayAction::RunNow
        } else if id@ == ID_STOP@ {
            TrayAction::Stop
        } else if id@ == ID_TOGGLE@ {
            TrayAction::ToggleAutomation
        } else if id@ == ID_QUIT@ {
            TrayAction::Quit
        } else {
            TrayAction::Nothing
        },
{
    if crate::text::str_eq(id, ID_OPEN) {
        TrayAction::ShowWindow
    } else if crate::text::str_eq(id, ID_RUN_NOW) {
        TrayAction::RunNow
    } else if crate::text::str_eq(id, ID_STOP) {
        TrayAction::Stop
    } else if crate::text::str_eq(id, ID_TOGGLE) {
        TrayAction::ToggleAutomation
    } else if crate::text::str_eq(id, ID_QUIT) {
        TrayAction::Quit
    } else {
        TrayAction::Nothing
    }
}

} // verus!
