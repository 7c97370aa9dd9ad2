//! What an autopilot run is allowed to delete.
//!
//! The filter is a whitelist with hard-coded floors: an item has to clear
//! every one of these to be eligible.
//!
//! 1. Tier is not `Caution` (enforced here, not just in the config).
//! 2. Tier is in the config's `auto_clean_tiers`.
//! 3. Category is in the config's `auto_clean_categories`.
//! 4. It regenerates on its own.
//! 5. It is not a generic large-folder discovery hit.
//! 6. If the config narrows to rule ids, its rule is one of them.
//!
//! Whatever survives is sorted largest first (ties keep scan order) and
//! accumulated up to `max_auto_clean_bytes`, skipping what does not fit.

use vstd::prelude::*;

use crate::model::{all_items, sat_add, CategoryGroup, CleanupItem, SafetyTier, ScanReport};
use crate::schedule::config::{ScheduleConfig, ScheduleConfigView};

verus! {

/// `rule_id` of the scan's generic "this folder is big" discovery pass.
pub const DISCOVERY_RULE_ID: &'static str = "large-folder";

/// The set of items an autopilot run will delete, plus why the rest were left.
#[derive(Debug)]
pub struct AutoCleanPlan {
    /// Items cleared for automatic deletion, largest first.
    pub items: Vec<CleanupItem>,
    /// Sum of the items' sizes.
    pub total_bytes: u64,
    /// Findings the policy filter excluded.
    pub excluded_by_policy: u32,
    /// Findings that passed the filter but did not fit under the byte cap.
    pub excluded_by_cap: u32,
}

impl AutoCleanPlan {
    /// Does the plan delete nothing?
    pub fn is_empty(&self) -> (r: bool)
        ensures
            r == (self.items@.len() == 0),
    {
        self.items.len() == 0
    }
}

/// Is `item` eligible for automatic deletion under `cfg`?
pub open spec fn eligible(item: CleanupItem, cfg: ScheduleConfigView) -> bool {
    &&& item.tier != SafetyTier::Caution
    &&& cfg.auto_clean_tiers.contains(item.tier)
    &&& cfg.auto_clean_categories.contains(item.category)
    &&& item.regenerates
    &&& item.rule_id@ != DISCOVERY_RULE_ID@
    &&& (cfg.auto_clean_rule_ids.len() == 0 || cfg.auto_clean_rule_ids.contains(item.rule_id@))
}

/// The eligible items of `s`, in order.
pub open spec fn eligible_items(s: Seq<CleanupItem>, cfg: ScheduleConfigView) -> Seq<CleanupItem>
    decreases s.len(),
{
    if s.len() == 0 {
        s
    } else if eligible(s.last(), cfg) {
        eligible_items(s.drop_last(), cfg).push(s.last())
    } else {
        eligible_items(s.drop_last(), cfg)
    }
}

/// Index of the first item of `s` smaller than `v` bytes (or `s.len()`).
pub open spec fn first_smaller(s: Seq<CleanupItem>, v: u64) -> int
    decreases s.len(),
{
    if s.len() == 0 {
        0
    } else if s[0].size_bytes < v {
        0
    } else {
        1 + first_smaller(s.drop_first(), v)
    }
}

/// `x` inserted into the largest-first list `s` after every item at least as
/// large as it.
pub open spec fn insert_desc(s: Seq<CleanupItem>, x: CleanupItem) -> Seq<CleanupItem> {
    let k = first_smaller(s, x.size_bytes);
    s.take(k) + seq![x] + s.skip(k)
}

/// `s` sorted largest first; items of equal size keep their order.
pub open spec fn sort_desc(s: Seq<CleanupItem>) -> Seq<CleanupItem>
    decreases s.len(),
{
    if s.len() == 0 {
        s
    } else {
        insert_desc(sort_desc(s.drop_last()), s.last())
    }
}

/// The outcome of filling the byte cap from a list.
pub ghost struct CapFill {
    pub taken: Seq<CleanupItem>,
    pub total: u64,
    pub skipped: nat,
}

/// Walk `s` front to back, taking each item whose size still fits under `cap`
/// and skipping the others.
pub open spec fn fill_cap(s: Seq<CleanupItem>, cap: u64) -> CapFill
    decreases s.len(),
{
    if s.len() == 0 {
        CapFill { taken: Seq::empty(), total: 0, skipped: 0 }
    } else {
        let f = fill_cap(s.drop_last(), cap);
        let next = sat_add(f.total, s.last().size_bytes);
        if next > cap {
            CapFill { skipped: f.skipped + 1, ..f }
        } else {
            CapFill { taken: f.taken.push(s.last()), total: next, skipped: f.skipped }
        }
    }
}

/// The mathematical value of an [`AutoCleanPlan`].
pub ghost struct AutoCleanPlanView {
    pub items: Seq<CleanupItem>,
    pub total_bytes: u64,
    pub excluded_by_policy: nat,
    pub excluded_by_cap: nat,
}

impl View for AutoCleanPlan {
    type V = AutoCleanPlanView;

    open spec fn view(&self) -> AutoCleanPlanView {
        AutoCleanPlanView {
            items: self.items@,
            total_bytes: self.total_bytes,
            excluded_by_policy: self.excluded_by_policy as nat,
            excluded_by_cap: self.excluded_by_cap as nat,
        }
    }
}

/// The autopilot plan for a report's findings.
pub open spec fn plan_for(items: Seq<CleanupItem>, cfg: ScheduleConfigView) -> AutoCleanPlanView {
    let eligible = eligible_items(items, cfg);
    let fill = fill_cap(sort_desc(eligible), cfg.max_auto_clean_bytes);
    AutoCleanPlanView {
        items: fill.taken,
        total_bytes: fill.total,
        excluded_by_policy: (items.len() - eligible.len()) as nat,
        excluded_by_cap: fill.skipped,
    }
}

fn contains_tier(v: &Vec<SafetyTier>, t: SafetyTier) -> (r: bool)
    ensures
        r == v@.contains(t),
{
    let mut i: usize = 0;
    while i < v.len()
        invariant
            i <= v.len(),
            forall|j: int| 0 <= j < i ==> v@[j] != t,
        decreases v.len() - i,
    {
        if v[i] == t {
            return true;
        }
        i = i + 1;
    }
    false
}

fn contains_category(v: &Vec<crate::model::Category>, c: crate::model::Category) -> (r: bool)
    ensures
        r == v@.contains(c),
{
    let mut i: usize = 0;
    while i < v.len()
        invariant
            i <= v.len(),
            forall|j: int| 0 <= j < i ==> v@[j] != c,
        decreases v.len() - i,
    {
        if v[i] == c {
            return true;
        }
        i = i + 1;
    }
    false
}

/// Does `v` hold a string equal to `s`?
pub fn contains_string(v: &Vec<String>, s: &String) -> (r: bool)
    ensures
        r == v.deep_view().contains(s@),
{
    let mut i: usize = 0;
    while i < v.len()
        invariant
            i <= v.len(),
            forall|j: int| 0 <= j < i ==> v.deep_view()[j] != s@,
        decreases v.len() - i,
    {
        assert(v.deep_view()[i as int] == v@[i as int]@);
        if v[i] == *s {
            return true;
        }
        i = i + 1;
    }
    proof {
        if v.deep_view().contains(s@) {
            let j = choose|j: int| 0 <= j < v.deep_view().len() && v.deep_view()[j] == s@;
            assert(v.deep_view()[j] != s@);
        }
    }
    false
}

/// Is this single item eligible for automatic deletion under `cfg`?
pub fn is_auto_eligible(item: &CleanupItem, cfg: &ScheduleConfig) -> (r: bool)
    ensures
        r == eligible(*item, cfg@),
{
    if item.tier == SafetyTier::Caution {
        return false;
    }
    if !contains_tier(&cfg.auto_clean_tiers, item.tier) {
        return false;
    }
    if !contains_category(&cfg.auto_clean_categories, item.category) {
        return false;
    }
    if !item.regenerates {
        return false;
    }
    let discovery = String::from_str(DISCOVERY_RULE_ID);
    if item.rule_id == discovery {
        return false;
    }
    if cfg.auto_clean_rule_ids.len() != 0 && !contains_string(&cfg.auto_clean_rule_ids, &item.rule_id) {
        return false;
    }
    true
}

/// Characterizes [`first_smaller`] by the positions around it.
pub proof fn lemma_first_smaller(s: Seq<CleanupItem>, v: u64, k: int)
    requires
        0 <= k <= s.len(),
        forall|j: int| 0 <= j < k ==> s[j].size_bytes >= v,
        k == s.len() || s[k].size_bytes < v,
    ensures
        first_smaller(s, v) == k,
    decreases k,
{
    if k > 0 {
        lemma_first_smaller(s.drop_first(), v, k - 1);
    }
}

fn insert_sorted(sorted: &mut Vec<CleanupItem>, x: CleanupItem)
    ensures
        final(sorted)@ == insert_desc(old(sorted)@, x),
{
    let mut k: usize = 0;
    while k < sorted.len() && sorted[k].size_bytes >= x.size_bytes
        invariant
            k <= sorted.len(),
            forall|j: int| 0 <= j < k ==> sorted@[j].size_bytes >= x.size_bytes,
        decreases sorted.len() - k,
    {
        k = k + 1;
    }
    proof {
        lemma_first_smaller(sorted@, x.size_bytes, k as int);
    }
    let ghost before = sorted@;
    sorted.insert(k, x);
    assert(sorted@ =~= insert_desc(before, x));
}

/// Build the autopilot deletion plan for a finished scan.
pub fn select_auto_clean(report: &ScanReport, cfg: &ScheduleConfig) -> (plan: AutoCleanPlan)
    requires
        all_items(report.groups@).len() <= u32::MAX,
    ensures
        plan@ == plan_for(all_items(report.groups@), cfg@),
{
    let ghost gs = report.groups@;
    let mut eligible: Vec<CleanupItem> = Vec::new();
    let mut excluded_by_policy: u32 = 0;
    let mut gi: usize = 0;
    while gi < report.groups.len()
        invariant
            gs == report.groups@,
            gi <= gs.len(),
            all_items(gs).len() <= u32::MAX,
            eligible@ == eligible_items(all_items(gs.take(gi as int)), cfg@),
            excluded_by_policy == all_items(gs.take(gi as int)).len() - eligible@.len(),
        decreases gs.len() - gi,
    {
        let group = &report.groups[gi];
        let ghost before = all_items(gs.take(gi as int));
        proof {
            assert(gs.take(gi as int + 1).drop_last() =~= gs.take(gi as int));
            assert(all_items(gs.take(gi as int + 1)) == before + group.items@);
            lemma_all_items_prefix_len(gs, gi as int + 1);
        }
        let mut ii: usize = 0;
        while ii < group.items.len()
            invariant
                gs == report.groups@,
                gi < gs.len(),
                *group == gs[gi as int],
                ii <= group.items@.len(),
                before == all_items(gs.take(gi as int)),
                before.len() + group.items@.len() <= u32::MAX,
                eligible@ == eligible_items(before + group.items@.take(ii as int), cfg@),
                excluded_by_policy == (before + group.items@.take(ii as int)).len() - eligible@.len(),
            decreases group.items@.len() - ii,
        {
            let item = &group.items[ii];
            let ghost seen = before + group.items@.take(ii as int);
            assert((before + group.items@.take(ii as int + 1)).drop_last() =~= seen);
            assert((before + group.items@.take(ii as int + 1)).last() == *item);
            proof {
                lemma_eligible_items_len(seen, cfg@);
            }
            if is_auto_eligible(item, cfg) {
                eligible.push(item.clone());
            } else {
                excluded_by_policy = excluded_by_policy + 1;
            }
            ii = ii + 1;
        }
        assert(group.items@.take(ii as int) =~= group.items@);
        gi = gi + 1;
    }
    assert(gs.take(gi as int) =~= gs);

    let ghost elig = eligible@;
    let mut sorted: Vec<CleanupItem> = Vec::new();
    let mut si: usize = 0;
    while si < eligible.len()
        invariant
            eligible@ == elig,
            si <= elig.len(),
            sorted@ == sort_desc(elig.take(si as int)),
        decreases elig.len() - si,
    {
        assert(elig.take(si as int + 1).drop_last() =~= elig.take(si as int));
        let x = eligible[si].clone();
        insert_sorted(&mut sorted, x);
        si = si + 1;
    }
    assert(elig.take(si as int) =~= elig);

    let ghost srt = sorted@;
    let cap = cfg.max_auto_clean_bytes;
    let mut items: Vec<CleanupItem> = Vec::new();
    let mut total_bytes: u64 = 0;
    let mut excluded_by_cap: u32 = 0;
    let mut k: usize = 0;
    proof {
        lemma_sort_desc_len(elig);
        lemma_eligible_items_len(all_items(gs), cfg@);
    }
    while k < sorted.len()
        invariant
            sorted@ == srt,
            srt.len() <= u32::MAX,
            k <= srt.len(),
            fill_cap(srt.take(k as int), cap) == (CapFill {
                taken: items@,
                total: total_bytes,
                skipped: excluded_by_cap as nat,
            }),
        decreases srt.len() - k,
    {
        assert(srt.take(k as int + 1).drop_last() =~= srt.take(k as int));
        proof {
            lemma_fill_cap_counts(srt.take(k as int), cap);
        }
        let x = &sorted[k];
        let next_total = total_bytes.saturating_add(x.size_bytes);
        if next_total > cap {
            excluded_by_cap = excluded_by_cap + 1;
        } else {
            total_bytes = next_total;
            items.push(x.clone());
        }
        k = k + 1;
    }
    assert(srt.take(k as int) =~= srt);
    AutoCleanPlan { items, total_bytes, excluded_by_policy, excluded_by_cap }
}

/// Flattening a prefix of the groups yields no more items than all of them.
pub proof fn lemma_all_items_prefix_len(gs: Seq<CategoryGroup>, n: int)
    requires
        0 <= n <= gs.len(),
    ensures
        all_items(gs.take(n)).len() <= all_items(gs).len(),
    decreases gs.len(),
{
    if n < gs.len() {
        assert(gs.drop_last().take(n) =~= gs.take(n));
        lemma_all_items_prefix_len(gs.drop_last(), n);
    } else {
        assert(gs.take(n) =~= gs);
    }
}

/// Filtering never lengthens a list.
pub proof fn lemma_eligible_items_len(s: Seq<CleanupItem>, cfg: ScheduleConfigView)
    ensures
        eligible_items(s, cfg).len() <= s.len(),
    decreases s.len(),
{
    if s.len() > 0 {
        lemma_eligible_items_len(s.drop_last(), cfg);
    }
}

/// Sorting keeps the length.
pub proof fn lemma_sort_desc_len(s: Seq<CleanupItem>)
    ensures
        sort_desc(s).len() == s.len(),
    decreases s.len(),
{
    if s.len() > 0 {
        lemma_sort_desc_len(s.drop_last());
        lemma_first_smaller_bounds(sort_desc(s.drop_last()), s.last().size_bytes);
    }
}

/// [`first_smaller`] is a position of the list.
pub proof fn lemma_first_smaller_bounds(s: Seq<CleanupItem>, v: u64)
    ensures
        0 <= first_smaller(s, v) <= s.len(),
    decreases s.len(),
{
    if s.len() > 0 {
        lemma_first_smaller_bounds(s.drop_first(), v);
    }
}

/// Filling the cap takes or skips every item once.
pub proof fn lemma_fill_cap_counts(s: Seq<CleanupItem>, cap: u64)
    ensures
        fill_cap(s, cap).taken.len() + fill_cap(s, cap).skipped == s.len(),
    decreases s.len(),
{
    if s.len() > 0 {
        lemma_fill_cap_counts(s.drop_last(), cap);
    }
}

/// Largest first: no item is followed by a larger one.
pub open spec fn largest_first(s: Seq<CleanupItem>) -> bool {
    forall|i: int, j: int| 0 <= i < j < s.len() ==> #[trigger] s[i].size_bytes >= #[trigger] s[j].size_bytes
}

/// The filter keeps only eligible items, each taken from the input.
pub proof fn lemma_eligible_items_members(s: Seq<CleanupItem>, cfg: ScheduleConfigView)
    ensures
        forall|x: CleanupItem| #[trigger] eligible_items(s, cfg).contains(x) ==> eligible(x, cfg) && s.contains(x),
    decreases s.len(),
{
    if s.len() > 0 {
        let p = s.drop_last();
        lemma_eligible_items_members(p, cfg);
        assert forall|x: CleanupItem| #[trigger] eligible_items(s, cfg).contains(x) implies eligible(x, cfg)
            && s.contains(x) by {
            let e = eligible_items(s, cfg);
            let j = choose|j: int| 0 <= j < e.len() && e[j] == x;
            if eligible(s.last(), cfg) && j == e.len() - 1 {
                assert(s[s.len() - 1] == x);
            } else {
                assert(eligible_items(p, cfg)[j] == x);
                assert(eligible_items(p, cfg).contains(x));
                let k = choose|k: int| 0 <= k < p.len() && p[k] == x;
                assert(s[k] == x);
            }
        }
    }
}

/// What [`first_smaller`] splits: larger-or-equal items before, and in a
/// largest-first list only smaller ones after.
pub proof fn lemma_first_smaller_split(s: Seq<CleanupItem>, v: u64)
    ensures
        0 <= first_smaller(s, v) <= s.len(),
        forall|j: int| 0 <= j < first_smaller(s, v) ==> #[trigger] s[j].size_bytes >= v,
        largest_first(s) ==> forall|j: int| first_smaller(s, v) <= j < s.len() ==> #[trigger] s[j].size_bytes < v,
    decreases s.len(),
{
    if s.len() > 0 {
        let t = s.drop_first();
        lemma_first_smaller_split(t, v);
        assert forall|j: int| 0 <= j < first_smaller(s, v) implies #[trigger] s[j].size_bytes >= v by {
            if j > 0 {
                assert(s[j] == t[j - 1]);
            }
        }
        if largest_first(s) {
            assert(largest_first(t)) by {
                assert forall|i: int, j: int| 0 <= i < j < t.len() implies #[trigger] t[i].size_bytes >= #[trigger] t[j].size_bytes by {
                    assert(t[i] == s[i + 1]);
                    assert(t[j] == s[j + 1]);
                }
            }
            assert forall|j: int| first_smaller(s, v) <= j < s.len() implies #[trigger] s[j].size_bytes < v by {
                if s[0].size_bytes < v {
                    if j > 0 {
                        assert(s[0].size_bytes >= s[j].size_bytes);
                    }
                } else {
                    assert(s[j] == t[j - 1]);
                }
            }
        }
    }
}

/// Sorting keeps exactly the items it was given and orders them largest
/// first.
pub proof fn lemma_sort_desc(s: Seq<CleanupItem>)
    ensures
        largest_first(sort_desc(s)),
        forall|x: CleanupItem| #[trigger] sort_desc(s).contains(x) <==> s.contains(x),
    decreases s.len(),
{
    if s.len() > 0 {
        let p = s.drop_last();
        let x = s.last();
        lemma_sort_desc(p);
        let q = sort_desc(p);
        lemma_first_smaller_split(q, x.size_bytes);
        let k = first_smaller(q, x.size_bytes);
        let r = sort_desc(s);
        assert(r == q.take(k) + seq![x] + q.skip(k));
        assert(r.len() == q.len() + 1);
        assert forall|i: int| 0 <= i < r.len() implies #[trigger] r[i] == (if i < k { q[i] } else if i == k { x } else { q[i - 1] }) by {
        }
        assert forall|i: int, j: int| 0 <= i < j < r.len() implies #[trigger] r[i].size_bytes >= #[trigger] r[j].size_bytes by {
            assert(r[i] == (if i < k { q[i] } else if i == k { x } else { q[i - 1] }));
            assert(r[j] == (if j < k { q[j] } else if j == k { x } else { q[j - 1] }));
        }
        assert forall|y: CleanupItem| #[trigger] r.contains(y) <==> s.contains(y) by {
            if r.contains(y) {
                let i = choose|i: int| 0 <= i < r.len() && r[i] == y;
                assert(r[i] == (if i < k { q[i] } else if i == k { x } else { q[i - 1] }));
                if i == k {
                    assert(s[s.len() - 1] == y);
                } else {
                    let qi = if i < k { i } else { i - 1 };
                    assert(q[qi] == y);
                    assert(q.contains(y));
                    assert(p.contains(y));
                    let m = choose|m: int| 0 <= m < p.len() && p[m] == y;
                    assert(s[m] == y);
                }
            }
            if s.contains(y) {
                let m = choose|m: int| 0 <= m < s.len() && s[m] == y;
                if m == s.len() - 1 {
                    assert(r[k] == y);
                } else {
                    assert(p[m] == y);
                    assert(p.contains(y));
                    assert(q.contains(y));
                    let qi = choose|qi: int| 0 <= qi < q.len() && q[qi] == y;
                    if qi < k {
                        assert(r[qi] == y);
                    } else {
                        assert(r[qi + 1] == y);
                    }
                }
            }
        }
    }
}

/// Filling the cap takes items of its input, keeps their order, never goes
/// over the cap, and totals exactly what it took.
pub proof fn lemma_fill_cap(s: Seq<CleanupItem>, cap: u64)
    ensures
        fill_cap(s, cap).total <= cap,
        fill_cap(s, cap).total == crate::model::sat_total(fill_cap(s, cap).taken),
        forall|x: CleanupItem| #[trigger] fill_cap(s, cap).taken.contains(x) ==> s.contains(x),
        largest_first(s) ==> largest_first(fill_cap(s, cap).taken),
    decreases s.len(),
{
    if s.len() > 0 {
        let p = s.drop_last();
        let x = s.last();
        lemma_fill_cap(p, cap);
        let f = fill_cap(p, cap);
        let g = fill_cap(s, cap);
        assert forall|y: CleanupItem| #[trigger] g.taken.contains(y) implies s.contains(y) by {
            let i = choose|i: int| 0 <= i < g.taken.len() && g.taken[i] == y;
            if i < f.taken.len() {
                assert(f.taken[i] == y);
                assert(f.taken.contains(y));
                let m = choose|m: int| 0 <= m < p.len() && p[m] == y;
                assert(s[m] == y);
            } else {
                assert(s[s.len() - 1] == y);
            }
        }
        if sat_add(f.total, x.size_bytes) <= cap {
            assert(g.taken.drop_last() =~= f.taken);
        }
        if largest_first(s) {
            assert(largest_first(p)) by {
                assert forall|i: int, j: int| 0 <= i < j < p.len() implies #[trigger] p[i].size_bytes >= #[trigger] p[j].size_bytes by {
                    assert(p[i] == s[i]);
                    assert(p[j] == s[j]);
                }
            }
            assert forall|i: int, j: int| 0 <= i < j < g.taken.len() implies #[trigger] g.taken[i].size_bytes >= #[trigger] g.taken[j].size_bytes by {
                if j < f.taken.len() {
                    assert(g.taken[i] == f.taken[i]);
                    assert(g.taken[j] == f.taken[j]);
                } else {
                    assert(g.taken[i] == f.taken[i]);
                    assert(f.taken.contains(f.taken[i]));
                    let m = choose|m: int| 0 <= m < p.len() && p[m] == f.taken[i];
                    assert(s[m] == p[m]);
                    assert(s[m].size_bytes >= s[s.len() - 1].size_bytes);
                }
            }
        }
    }
}

/// What the autopilot plan promises: only eligible findings of the report
/// (so never `Caution`, never anything that does not regenerate, never a
/// large-folder hit), largest first, never more than the byte cap in total,
/// and every finding accounted for as planned, excluded by the policy, or
/// excluded by the cap.
pub proof fn law_auto_clean_plan(items: Seq<CleanupItem>, cfg: ScheduleConfigView)
    ensures
        forall|x: CleanupItem| #[trigger] plan_for(items, cfg).items.contains(x) ==> eligible(x, cfg)
            && items.contains(x),
        forall|x: CleanupItem| #[trigger] plan_for(items, cfg).items.contains(x) ==> x.tier
            != SafetyTier::Caution && x.regenerates && x.rule_id@ != DISCOVERY_RULE_ID@,
        largest_first(plan_for(items, cfg).items),
        plan_for(items, cfg).total_bytes <= cfg.max_auto_clean_bytes,
        plan_for(items, cfg).total_bytes == crate::model::sat_total(plan_for(items, cfg).items),
        plan_for(items, cfg).items.len() + plan_for(items, cfg).excluded_by_policy
            + plan_for(items, cfg).excluded_by_cap == items.len(),
{
    let e = eligible_items(items, cfg);
    let srt = sort_desc(e);
    lemma_eligible_items_members(items, cfg);
    lemma_eligible_items_len(items, cfg);
    lemma_sort_desc(e);
    lemma_sort_desc_len(e);
    lemma_fill_cap(srt, cfg.max_auto_clean_bytes);
    lemma_fill_cap_counts(srt, cfg.max_auto_clean_bytes);
    let p = plan_for(items, cfg);
    assert forall|x: CleanupItem| #[trigger] p.items.contains(x) implies eligible(x, cfg) && items.contains(x) by {
        assert(srt.contains(x));
        assert(e.contains(x));
    }
}

/// The tier filter is the user's whitelist with one hard floor: an item of
/// any tier other than `Caution` that the config lists in
/// `auto_clean_tiers` is eligible once the other filters pass (its
/// category is listed, it regenerates, it is not a generic large folder,
/// and the rule-id narrowing, if any, names its rule); a `Caution` item, or
/// one whose tier is not listed, never is. So two items that differ only
/// in tier, both listed and neither `Caution`, are treated alike.
pub proof fn law_opted_in_tiers_are_eligible(item: CleanupItem, other: CleanupItem, cfg: ScheduleConfigView)
    ensures
        item.tier != SafetyTier::Caution && cfg.auto_clean_tiers.contains(item.tier)
            && cfg.auto_clean_categories.contains(item.category) && item.regenerates && item.rule_id@
            != "large-folder"@ && (cfg.auto_clean_rule_ids.len() == 0 || cfg.auto_clean_rule_ids.contains(
            item.rule_id@,
        )) ==> eligible(item, cfg),
        item.tier == SafetyTier::Caution ==> !eligible(item, cfg),
        !cfg.auto_clean_tiers.contains(item.tier) ==> !eligible(item, cfg),
        other == (CleanupItem { tier: other.tier, ..item }) && other.tier != SafetyTier::Caution
            && cfg.auto_clean_tiers.contains(other.tier) && item.tier != SafetyTier::Caution
            && cfg.auto_clean_tiers.contains(item.tier) ==> (eligible(item, cfg) <==> eligible(other, cfg)),
{
    reveal_strlit("large-folder");
}

/// A lone finding the policy admits, and that fits under the byte cap, is
/// planned: the plan deletes exactly it, with nothing excluded.
pub proof fn law_an_admitted_finding_is_planned(item: CleanupItem, cfg: ScheduleConfigView)
    requires
        eligible(item, cfg),
        item.size_bytes <= cfg.max_auto_clean_bytes,
    ensures
        plan_for(seq![item], cfg).items == seq![item],
        plan_for(seq![item], cfg).excluded_by_policy == 0,
        plan_for(seq![item], cfg).excluded_by_cap == 0,
{
    let s = seq![item];
    let e = Seq::<CleanupItem>::empty();
    assert(s.drop_last() =~= e);
    assert(s.last() == item);
    assert(eligible_items(e, cfg) == e);
    assert(eligible_items(s, cfg) == e.push(item));
    assert(e.push(item) =~= s);
    assert(sort_desc(e) == e);
    assert(sort_desc(s) == insert_desc(e, item));
    assert(first_smaller(e, item.size_bytes) == 0);
    assert(insert_desc(e, item) =~= s);
    let f0 = fill_cap(e, cfg.max_auto_clean_bytes);
    assert(f0.taken == e && f0.total == 0 && f0.skipped == 0);
    assert(sat_add(0, item.size_bytes) == item.size_bytes);
    assert(fill_cap(s, cfg.max_auto_clean_bytes).taken == e.push(item));
    assert(fill_cap(s, cfg.max_auto_clean_bytes).skipped == 0);
}

} // verus!
