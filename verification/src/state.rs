//! The desktop app's shared state: the roots deletions must stay inside, the
//! cancel flag a running scan observes, the last scan's findings by id, and
//! the activity gate that keeps interactive and scheduled work apart.

use vstd::prelude::*;

use crate::model::{all_items, CleanupItem, ScanReport};
use crate::session::{index_of, ItemIndex};

verus! {

/// Proof that the holder owns the activity slot; hand it back with
/// [`SafaiState::release`].
pub struct ActivityHold {
    granted: bool,
}

/// The activity slot and the "user is mid-flow" flag.
pub struct ActivityGate {
    /// A scan or deletion is executing right now (from the UI or the
    /// scheduler); both rewrite the findings, so they never overlap.
    busy: bool,
    /// The user is mid-flow in the Clean screens; automation stays out of
    /// the way until they are done.
    ui_engaged: bool,
}

impl ActivityGate {
    /// Whether the activity slot is taken.
    pub closed spec fn busy_flag(&self) -> bool {
        self.busy
    }

    /// Whether the user is mid-flow in the Clean screens.
    pub closed spec fn engaged_flag(&self) -> bool {
        self.ui_engaged
    }
}

/// The state shared by the command handlers and the scheduler.
pub struct SafaiState {
    /// Known cleanup roots; deletions must resolve inside one of these.
    pub allowed_roots: Vec<String>,
    /// Cancellation flag checked by the running scan.
    pub cancel: bool,
    /// Last scan's findings, keyed by their stable id.
    pub last_items: ItemIndex,
    /// Who is running, and whether the user is mid-flow.
    pub gate: ActivityGate,
}

impl SafaiState {
    /// Fresh state, allowing deletions inside `allowed_roots`, idle, with no
    /// findings.
    pub fn new(allowed_roots: Vec<String>) -> (r: Self)
        ensures
            r.allowed_roots == allowed_roots,
            !r.cancel,
            r.last_items@ == Map::<Seq<char>, CleanupItem>::empty(),
            !r.gate.busy_flag(),
            !r.gate.engaged_flag(),
    {
        SafaiState {
            allowed_roots,
            cancel: false,
            last_items: ItemIndex::new(),
            gate: ActivityGate { busy: false, ui_engaged: false },
        }
    }

    /// Is a scan or deletion running?
    pub fn is_busy(&self) -> (r: bool)
        ensures
            r == self.gate.busy_flag(),
    {
        self.gate.busy
    }

    /// Is the user mid-flow in the Clean screens?
    pub fn is_ui_engaged(&self) -> (r: bool)
        ensures
            r == self.gate.engaged_flag(),
    {
        self.gate.ui_engaged
    }

    /// Mark (or clear) the user being mid-flow in the Clean screens.
    pub fn set_ui_engaged(&mut self, engaged: bool)
        ensures
            final(self).gate.engaged_flag() == engaged,
            final(self).gate.busy_flag() == old(self).gate.busy_flag(),
            final(self).allowed_roots == old(self).allowed_roots,
            final(self).cancel == old(self).cancel,
            final(self).last_items == old(self).last_items,
    {
        self.gate.ui_engaged = engaged;
    }

    /// Claim the activity slot, or `None` if something already holds it.
    pub fn try_acquire(&mut self) -> (r: Option<ActivityHold>)
        ensures
            r is Some <==> !old(self).gate.busy_flag(),
            final(self).gate.busy_flag(),
            final(self).gate.engaged_flag() == old(self).gate.engaged_flag(),
            final(self).allowed_roots == old(self).allowed_roots,
            final(self).cancel == old(self).cancel,
            final(self).last_items == old(self).last_items,
    {
        if self.gate.busy {
            None
        } else {
            self.gate.busy = true;
            Some(ActivityHold { granted: true })
        }
    }

    /// Give the activity slot back.
    pub fn release(&mut self, hold: ActivityHold)
        ensures
            !final(self).gate.busy_flag(),
            final(self).gate.engaged_flag() == old(self).gate.engaged_flag(),
            final(self).allowed_roots == old(self).allowed_roots,
            final(self).cancel == old(self).cancel,
            final(self).last_items == old(self).last_items,
    {
        let _ = hold.granted;
        self.gate.busy = false;
    }

    /// Replace the findings with those of a finished scan, so later
    /// previews and deletions resolve ids here rather than trusting a path.
    pub fn remember_items(&mut self, report: &ScanReport)
        ensures
            final(self).last_items@ == index_of(all_items(report.groups@)),
            final(self).gate == old(self).gate,
            final(self).allowed_roots == old(self).allowed_roots,
            final(self).cancel == old(self).cancel,
    {
        self.last_items = ItemIndex::of_report(report);
    }
}

} // verus!
