//! Deletion and information records shared by the desktop app, the scheduler
//! and the command line, and the dry-run deletion plan.

use vstd::prelude::*;

use crate::model::{sat_add, CleanupItem, SafetyTier};

verus! {

/// One entry in a dry-run deletion plan.
#[derive(Debug, Clone)]
pub struct DeletePlanItem {
    pub id: String,
    pub path: String,
    pub size_bytes: u64,
    pub tier: SafetyTier,
    pub allowed: bool,
    pub reason: Option<String>,
}

/// The full dry-run plan returned by a preview.
#[derive(Debug, Clone)]
pub struct DeletePlan {
    pub items: Vec<DeletePlanItem>,
    pub total_bytes: u64,
    pub blocked_count: u32,
}

/// Progress events streamed during a deletion.
#[derive(Debug, Clone)]
pub enum DeleteEvent {
    Started { total: u32 },
    Deleted { id: String, path: String, size_bytes: u64 },
    Skipped { id: String, path: String, reason: String },
    Finished { deleted: u32, reclaimed_bytes: u64, skipped: u32 },
}

/// Summary returned once all items are processed.
#[derive(Debug, Clone)]
pub struct DeleteReport {
    pub deleted: u32,
    pub reclaimed_bytes: u64,
    pub skipped: Vec<String>,
}

/// Free/total space for the drive containing a path.
#[derive(Debug, Clone)]
pub struct DriveInfo {
    pub mount: String,
    pub free_bytes: u64,
    pub total_bytes: u64,
}

/// Build a [`DriveInfo`] labelled `mount` from a volume query's
/// `(free, total)` answer; `None` when the query failed.
pub fn drive_info_for(free_total: Option<(u64, u64)>, mount: String) -> (r: Option<DriveInfo>)
    ensures
        free_total is None ==> r is None,
        free_total matches Some((f, t)) ==> (r matches Some(d) && d.mount == mount && d.free_bytes == f
            && d.total_bytes == t),
{
    match free_total {
        Some((free_bytes, total_bytes)) => Some(DriveInfo { mount, free_bytes, total_bytes }),
        None => None,
    }
}

/// Whether a given dev tool is installed.
#[derive(Debug, Clone)]
pub struct ToolInfo {
    pub id: String,
    pub label: String,
    pub detected: bool,
}

/// One entry of the cleanup rule table.
#[derive(Debug, Clone)]
pub struct RuleInfo {
    pub id: String,
    pub label: String,
    pub category: crate::model::Category,
    pub tier: SafetyTier,
    pub regenerates: bool,
    pub note: String,
    /// Discovered by directory name rather than a fixed known path.
    pub pattern_based: bool,
}

/// The mathematical value of a [`DeletePlanItem`].
pub ghost struct DeletePlanItemView {
    pub id: Seq<char>,
    pub path: Seq<char>,
    pub size_bytes: u64,
    pub tier: SafetyTier,
    pub allowed: bool,
    pub reason: Option<Seq<char>>,
}

impl View for DeletePlanItem {
    type V = DeletePlanItemView;

    open spec fn view(&self) -> DeletePlanItemView {
        DeletePlanItemView {
            id: self.id@,
            path: self.path@,
            size_bytes: self.size_bytes,
            tier: self.tier,
            allowed: self.allowed,
            reason: match self.reason {
                Some(r) => Some(r@),
                None => None,
            },
        }
    }
}

/// What the plan says of an id: the found item (allowed inside the allowed
/// roots or blocked as outside them), or a blocked placeholder for an id the
/// last scan does not know.
pub open spec fn plan_entry(id: Seq<char>, found: Option<CleanupItem>, allowed: bool) -> DeletePlanItemView {
    match found {
        Some(item) => DeletePlanItemView {
            id: item.id@,
            path: item.path@,
            size_bytes: item.size_bytes,
            tier: item.tier,
            allowed,
            reason: if allowed { None } else { Some("outside allowed roots"@) },
        },
        None => DeletePlanItemView {
            id,
            path: Seq::empty(),
            size_bytes: 0,
            tier: SafetyTier::Caution,
            allowed: false,
            reason: Some("item not found in last scan"@),
        },
    }
}

/// Is the `i`-th request allowed (found and inside the allowed roots)?
pub open spec fn entry_allowed(found: Seq<Option<CleanupItem>>, allowed: Seq<bool>, i: int) -> bool {
    found[i] is Some && allowed[i]
}

/// Saturating byte total of the allowed requests among the first `n`.
pub open spec fn allowed_total(found: Seq<Option<CleanupItem>>, allowed: Seq<bool>, n: int) -> u64
    decreases n,
{
    if n <= 0 {
        0
    } else if entry_allowed(found, allowed, n - 1) {
        sat_add(allowed_total(found, allowed, n - 1), found[n - 1].unwrap().size_bytes)
    } else {
        allowed_total(found, allowed, n - 1)
    }
}

/// Number of blocked requests among the first `n`.
pub open spec fn blocked_total(found: Seq<Option<CleanupItem>>, allowed: Seq<bool>, n: int) -> nat
    decreases n,
{
    if n <= 0 {
        0
    } else if entry_allowed(found, allowed, n - 1) {
        blocked_total(found, allowed, n - 1)
    } else {
        blocked_total(found, allowed, n - 1) + 1
    }
}

proof fn lemma_blocked_total_bound(found: Seq<Option<CleanupItem>>, allowed: Seq<bool>, n: int)
    requires
        n >= 0,
    ensures
        blocked_total(found, allowed, n) <= n,
    decreases n,
{
    if n > 0 {
        lemma_blocked_total_bound(found, allowed, n - 1);
    }
}

/// Dry run: what a deletion of the requested ids would do, without touching
/// the disk.
///
/// `ids[i]` was looked up among the last scan's findings as `found[i]`, and
/// `allowed[i]` says whether the found item's path lies inside the allowed
/// roots. Found and allowed items count towards the byte total; everything
/// else is blocked, with its reason.
pub fn preview_delete(ids: &Vec<String>, found: &Vec<Option<CleanupItem>>, allowed: &Vec<bool>) -> (plan: DeletePlan)
    requires
        ids@.len() == found@.len(),
        ids@.len() == allowed@.len(),
        ids@.len() <= u32::MAX,
    ensures
        plan.items@.len() == ids@.len(),
        forall|i: int| 0 <= i < ids@.len() ==> #[trigger] plan.items@[i]@ == plan_entry(ids@[i]@, found@[i], allowed@[i]),
        plan.total_bytes == allowed_total(found@, allowed@, ids@.len() as int),
        plan.blocked_count as nat == blocked_total(found@, allowed@, ids@.len() as int),
{
    let mut items: Vec<DeletePlanItem> = Vec::new();
    let mut total_bytes: u64 = 0;
    let mut blocked_count: u32 = 0;
    let mut i: usize = 0;
    while i < ids.len()
        invariant
            ids@.len() == found@.len(),
            ids@.len() == allowed@.len(),
            ids@.len() <= u32::MAX,
            i <= ids@.len(),
            items@.len() == i,
            forall|j: int| 0 <= j < i ==> #[trigger] items@[j]@ == plan_entry(ids@[j]@, found@[j], allowed@[j]),
            total_bytes == allowed_total(found@, allowed@, i as int),
            blocked_count as nat == blocked_total(found@, allowed@, i as int),
        decreases ids@.len() - i,
    {
        proof {
            lemma_blocked_total_bound(found@, allowed@, i as int);
        }
        match &found[i] {
            Some(item) => {
                let ok = allowed[i];
                let reason = if ok { None } else { Some(String::from_str("outside allowed roots")) };
                if ok {
                    total_bytes = total_bytes.saturating_add(item.size_bytes);
                } else {
                    blocked_count = blocked_count + 1;
                }
                items.push(DeletePlanItem {
                    id: item.id.clone(),
                    path: item.path.clone(),
                    size_bytes: item.size_bytes,
                    tier: item.tier,
                    allowed: ok,
                    reason,
                });
            },
            None => {
                blocked_count = blocked_count + 1;
                items.push(DeletePlanItem {
                    id: ids[i].clone(),
                    path: String::new(),
                    size_bytes: 0,
                    tier: SafetyTier::Caution,
                    allowed: false,
                    reason: Some(String::from_str("item not found in last scan")),
                });
            },
        }
        i = i + 1;
    }
    DeletePlan { items, total_bytes, blocked_count }
}

} // verus!
