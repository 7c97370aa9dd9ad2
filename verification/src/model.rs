//! Domain data: categories, safety tiers, findings, grouped scan reports and
//! the progress events a scan streams.

use vstd::prelude::*;

verus! {

/// What kind of space a finding occupies.
#[derive(Debug, Clone, Copy, PartialEq, Eq, Structural)]
pub enum Category {
    /// uv, npm, gradle, bun, pub, cargo registry.
    PackageCache,
    /// VS Code family workspace/global storage.
    EditorStorage,
    /// node_modules, target, build, .next, dist, .dart_tool.
    BuildArtifact,
    /// Per-user temporary files.
    Temp,
    /// Downloaded model weights.
    Model,
    /// Browser builds downloaded by test tooling.
    Browser,
    /// Anything else (large unknown folders).
    Other,
}

/// How safe removal is.
#[derive(Debug, Clone, Copy, PartialEq, Eq, Structural)]
pub enum SafetyTier {
    /// Regenerates automatically; pre-selected by default.
    Safe,
    /// Regenerable, but the user should confirm.
    Review,
    /// User data, never pre-selected.
    Caution,
}

/// One finding of a scan.
#[derive(Debug)]
pub struct CleanupItem {
    /// Stable, unique id (a hash of the display path).
    pub id: String,
    /// The rule that produced the finding.
    pub rule_id: String,
    /// Human label.
    pub label: String,
    pub category: Category,
    pub tier: SafetyTier,
    /// Normalized, forward-slash display path.
    pub path: String,
    pub size_bytes: u64,
    pub regenerates: bool,
    /// Unix seconds of the last modification, when known.
    pub last_modified_secs: Option<u64>,
    /// Why removal is safe, or what happens if it is removed.
    pub note: String,
    pub selected_by_default: bool,
}

impl Clone for CleanupItem {
    fn clone(&self) -> (r: Self)
        ensures
            r == *self,
    {
        CleanupItem {
            id: self.id.clone(),
            rule_id: self.rule_id.clone(),
            label: self.label.clone(),
            category: self.category,
            tier: self.tier,
            path: self.path.clone(),
            size_bytes: self.size_bytes,
            regenerates: self.regenerates,
            last_modified_secs: self.last_modified_secs,
            note: self.note.clone(),
            selected_by_default: self.selected_by_default,
        }
    }
}

/// The findings of one category, with their byte total.
#[derive(Debug)]
pub struct CategoryGroup {
    pub category: Category,
    pub label: String,
    pub total_bytes: u64,
    pub items: Vec<CleanupItem>,
}

/// The aggregated result of a scan.
#[derive(Debug)]
pub struct ScanReport {
    pub total_reclaimable_bytes: u64,
    pub groups: Vec<CategoryGroup>,
    pub scanned_roots: Vec<String>,
    pub warnings: Vec<String>,
}

/// Progress events streamed while a scan runs.
#[derive(Debug)]
pub enum ScanEvent {
    Started { roots: Vec<String> },
    Progress { current_path: String, found_bytes: u64, rules_checked: u32, rules_total: u32 },
    Found { item: CleanupItem },
    Finished { total_reclaimable_bytes: u64, item_count: u32 },
}

/// Every finding of a report, group by group, in report order.
pub open spec fn all_items(groups: Seq<CategoryGroup>) -> Seq<CleanupItem>
    decreases groups.len(),
{
    if groups.len() == 0 {
        Seq::empty()
    } else {
        all_items(groups.drop_last()) + groups.last().items@
    }
}

/// `a + b`, saturating at `u64::MAX`.
pub open spec fn sat_add(a: u64, b: u64) -> u64 {
    if a + b > u64::MAX {
        u64::MAX
    } else {
        (a + b) as u64
    }
}

/// The saturating sum of the sizes of `items`, added front to back.
pub open spec fn sat_total(items: Seq<CleanupItem>) -> u64
    decreases items.len(),
{
    if items.len() == 0 {
        0
    } else {
        sat_add(sat_total(items.drop_last()), items.last().size_bytes)
    }
}

/// The exact sum of the sizes of `items`.
pub open spec fn size_sum(items: Seq<CleanupItem>) -> nat
    decreases items.len(),
{
    if items.len() == 0 {
        0
    } else {
        size_sum(items.drop_last()) + items.last().size_bytes as nat
    }
}

/// The mathematical value of a [`CategoryGroup`].
pub ghost struct CategoryGroupView {
    pub category: Category,
    pub label: Seq<char>,
    pub total_bytes: u64,
    pub items: Seq<CleanupItem>,
}

impl View for CategoryGroup {
    type V = CategoryGroupView;

    open spec fn view(&self) -> CategoryGroupView {
        CategoryGroupView {
            category: self.category,
            label: self.label@,
            total_bytes: self.total_bytes,
            items: self.items@,
        }
    }
}

/// The mathematical value of a [`ScanReport`].
pub ghost struct ScanReportView {
    pub total_reclaimable_bytes: u64,
    pub groups: Seq<CategoryGroupView>,
    pub scanned_roots: Seq<Seq<char>>,
    pub warnings: Seq<Seq<char>>,
}

/// The views of a list of groups.
pub open spec fn group_views(gs: Seq<CategoryGroup>) -> Seq<CategoryGroupView> {
    gs.map_values(|g: CategoryGroup| g@)
}

impl View for ScanReport {
    type V = ScanReportView;

    open spec fn view(&self) -> ScanReportView {
        ScanReportView {
            total_reclaimable_bytes: self.total_reclaimable_bytes,
            groups: group_views(self.groups@),
            scanned_roots: self.scanned_roots.deep_view(),
            warnings: self.warnings.deep_view(),
        }
    }
}

/// Every finding of a list of group views, group by group.
pub open spec fn view_items(groups: Seq<CategoryGroupView>) -> Seq<CleanupItem>
    decreases groups.len(),
{
    if groups.len() == 0 {
        Seq::empty()
    } else {
        view_items(groups.drop_last()) + groups.last().items
    }
}

/// A report whose totals are exact sums and which has no empty group.
pub open spec fn consistent(r: ScanReportView) -> bool {
    &&& forall|i: int| 0 <= i < r.groups.len() ==> #[trigger] r.groups[i].items.len() > 0
    &&& forall|i: int| 0 <= i < r.groups.len() ==> #[trigger] r.groups[i].total_bytes as nat
        == size_sum(r.groups[i].items)
    &&& r.total_reclaimable_bytes as nat == size_sum(view_items(r.groups))
}

} // verus!
