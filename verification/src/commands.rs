//! The decisions of the desktop command layer, apart from the IPC plumbing:
//! the busy refusal, the drive read-out, the tool and rule listings, and how
//! a new automation config and the app's launch are handled.

use vstd::prelude::*;

use crate::dto::{DriveInfo, RuleInfo, ToolInfo};
use crate::error::SafaiError;
use crate::rules::CleanupRule;
use crate::schedule::config::{sanitize, ScheduleConfig, ScheduleConfigView};
use crate::state::{ActivityHold, SafaiState};
use crate::text::push_str;

verus! {

/// Claim the activity slot for a scan or cleanup, or refuse because one is
/// already running.
pub fn acquire_activity(state: &mut SafaiState) -> (r: Result<ActivityHold, SafaiError>)
    ensures
        r is Ok <==> !old(state).gate.busy_flag(),
        (r matches Err(SafaiError::Other(m)) && m@ == "a scan or cleanup is already running"@) || r is Ok,
        final(state).gate.busy_flag(),
        final(state).gate.engaged_flag() == old(state).gate.engaged_flag(),
        final(state).allowed_roots == old(state).allowed_roots,
        final(state).cancel == old(state).cancel,
        final(state).last_items == old(state).last_items,
{
    match state.try_acquire() {
        Some(h) => Ok(h),
        None => Err(SafaiError::Other(String::from_str("a scan or cleanup is already running"))),
    }
}

/// The drive read-out for `path`: its free and total bytes when the query
/// (`reading`) succeeded; otherwise an error on Windows, where the query is
/// expected to work, and zeros elsewhere.
pub fn drive_info_result(path: &str, mount: String, reading: Option<(u64, u64)>, on_windows: bool) -> (r: Result<
    DriveInfo,
    SafaiError,
>)
    ensures
        match reading {
            Some((free, total)) => (r matches Ok(d) && d.mount == mount && d.free_bytes == free
                && d.total_bytes == total),
            None => if on_windows {
                (r matches Err(SafaiError::Other(m)) && m@ == "failed to query disk space for "@ + path@)
            } else {
                (r matches Ok(d) && d.mount == mount && d.free_bytes == 0 && d.total_bytes == 0)
            },
        },
{
    match reading {
        Some((free_bytes, total_bytes)) => Ok(DriveInfo { mount, free_bytes, total_bytes }),
        None => {
            if on_windows {
                let mut m = String::from_str("failed to query disk space for ");
                push_str(&mut m, path);
                Err(SafaiError::Other(m))
            } else {
                Ok(DriveInfo { mount, free_bytes: 0, total_bytes: 0 })
            }
        },
    }
}

/// The tool chips: one entry per detected-tools triple, in order.
pub fn tool_infos(tools: Vec<(String, String, bool)>) -> (r: Vec<ToolInfo>)
    ensures
        r@.len() == tools@.len(),
        forall|i: int| 0 <= i < tools@.len() ==> (#[trigger] r@[i]).id == tools@[i].0 && r@[i].label
            == tools@[i].1 && r@[i].detected == tools@[i].2,
{
    let mut out: Vec<ToolInfo> = Vec::new();
    let mut i: usize = 0;
    while i < tools.len()
        invariant
            i <= tools@.len(),
            out@.len() == i,
            forall|j: int| 0 <= j < i ==> (#[trigger] out@[j]).id == tools@[j].0 && out@[j].label
                == tools@[j].1 && out@[j].detected == tools@[j].2,
        decreases tools@.len() - i,
    {
        let t = &tools[i];
        out.push(ToolInfo { id: t.0.clone(), label: t.1.clone(), detected: t.2 });
        i = i + 1;
    }
    out
}

/// The rule table as the Automation screen lists it: pattern rules are
/// marked as discovered by directory name.
pub fn rule_infos(rules: &Vec<CleanupRule>) -> (r: Vec<RuleInfo>)
    ensures
        r@.len() == rules@.len(),
        forall|i: int| 0 <= i < rules@.len() ==> {
            let ri = #[trigger] r@[i];
            let rule = rules@[i];
            &&& ri.id@ == rule.id@
            &&& ri.label@ == rule.label@
            &&& ri.category == rule.category
            &&& ri.tier == rule.tier
            &&& ri.regenerates == rule.regenerates
            &&& ri.note@ == rule.note@
            &&& ri.pattern_based == rule.pattern is Some
        },
{
    let mut out: Vec<RuleInfo> = Vec::new();
    let mut i: usize = 0;
    while i < rules.len()
        invariant
            i <= rules@.len(),
            out@.len() == i,
            forall|j: int| 0 <= j < i ==> {
                let ri = #[trigger] out@[j];
                let rule = rules@[j];
                &&& ri.id@ == rule.id@
                &&& ri.label@ == rule.label@
                &&& ri.category == rule.category
                &&& ri.tier == rule.tier
                &&& ri.regenerates == rule.regenerates
                &&& ri.note@ == rule.note@
                &&& ri.pattern_based == rule.pattern is Some
            },
        decreases rules@.len() - i,
    {
        let rule = &rules[i];
        out.push(
            RuleInfo {
                id: String::from_str(rule.id),
                label: String::from_str(rule.label),
                category: rule.category,
                tier: rule.tier,
                regenerates: rule.regenerates,
                note: String::from_str(rule.note),
                pattern_based: rule.pattern.is_some(),
            },
        );
        i = i + 1;
    }
    out
}

/// The argument the logon entry launches the app with.
pub const AUTOSTART_FLAG: &'static str = "--autostart";

/// Was the app started by its logon entry rather than by the user?
pub fn is_autostart_launch(args: &Vec<String>) -> (r: bool)
    ensures
        r == args.deep_view().contains(AUTOSTART_FLAG@),
{
    let flag = String::from_str(AUTOSTART_FLAG);
    crate::schedule::policy::contains_string(args, &flag)
}

/// Does closing the window park the app in the tray (rather than quit)?
/// Only when automation gives it a reason to stay alive.
pub fn parks_in_tray(cfg: &ScheduleConfig) -> (r: bool)
    ensures
        r == (cfg.enabled && cfg.minimize_to_tray),
{
    cfg.enabled && cfg.minimize_to_tray
}

/// Should the app be registered to launch at logon under `cfg`? Turning
/// automation off removes the entry too.
pub fn wants_autostart(cfg: &ScheduleConfig) -> (r: bool)
    ensures
        r == (cfg.enabled && cfg.autostart),
{
    cfg.enabled && cfg.autostart
}

/// A new config as it is kept: sanitized, with the logon registration the
/// OS actually reports (`registered`) in place of the one asked for.
pub fn applied_config(incoming: ScheduleConfig, registered: bool) -> (r: ScheduleConfig)
    ensures
        r@ == (ScheduleConfigView { autostart: registered, ..sanitize(incoming@) }),
{
    let mut cfg = incoming.sanitized();
    cfg.autostart = registered;
    cfg
}

} // verus!
