//! The bookkeeping of an automation run: what the report still advertises
//! after autopilot deleted something, how bytes are summarised for people,
//! which notification a finished run posts, the live progress of a run, and
//! how a tick reacts to the scheduler's decision.

use vstd::prelude::*;

use crate::model::{
    all_items, consistent, group_views, size_sum, view_items, CategoryGroup, CategoryGroupView, CleanupItem,
    ScanReport, ScanReportView,
};
use crate::dto::{DeleteEvent, DriveInfo};
use crate::schedule::decision::DiskUsage;
use crate::model::{sat_add, ScanEvent};
use crate::schedule::config::{RunPhase, RunRecord, ScheduleConfig, TriggerKind};
use crate::schedule::decision::{Decision, DecisionView};
use crate::schedule::policy::{contains_string, AutoCleanPlan};
use crate::text::{
    decimal, digit, digit_char, div_round_half_even, push_char, push_decimal, push_decimal_wide,
    push_str, round_half_even,
};

verus! {

/// `items` without those whose id is in `removed`, order kept.
pub open spec fn kept(items: Seq<CleanupItem>, removed: Seq<Seq<char>>) -> Seq<CleanupItem>
    decreases items.len(),
{
    if items.len() == 0 {
        items
    } else if removed.contains(items.last().id@) {
        kept(items.drop_last(), removed)
    } else {
        kept(items.drop_last(), removed).push(items.last())
    }
}

/// The groups after pruning: removed items dropped, totals recomputed, and
/// groups left empty dropped.
pub open spec fn pruned_groups(gs: Seq<CategoryGroupView>, removed: Seq<Seq<char>>) -> Seq<CategoryGroupView>
    decreases gs.len(),
{
    if gs.len() == 0 {
        gs
    } else {
        let rest = pruned_groups(gs.drop_last(), removed);
        let g = gs.last();
        let items = kept(g.items, removed);
        if items.len() == 0 {
            rest
        } else {
            rest.push(CategoryGroupView { items, total_bytes: size_sum(items) as u64, ..g })
        }
    }
}

/// The report after dropping the `removed` ids and re-totalling. Pruning
/// nothing leaves the report as it is.
pub open spec fn pruned(r: ScanReportView, removed: Seq<Seq<char>>) -> ScanReportView {
    if removed.len() == 0 {
        r
    } else {
        let gs = pruned_groups(r.groups, removed);
        ScanReportView { groups: gs, total_reclaimable_bytes: size_sum(view_items(gs)) as u64, ..r }
    }
}

pub proof fn lemma_size_sum_concat(a: Seq<CleanupItem>, b: Seq<CleanupItem>)
    ensures
        size_sum(a + b) == size_sum(a) + size_sum(b),
    decreases b.len(),
{
    if b.len() > 0 {
        lemma_size_sum_concat(a, b.drop_last());
        assert((a + b).drop_last() =~= a + b.drop_last());
    } else {
        assert(a + b =~= a);
    }
}

pub proof fn lemma_kept_concat(a: Seq<CleanupItem>, b: Seq<CleanupItem>, removed: Seq<Seq<char>>)
    ensures
        kept(a + b, removed) == kept(a, removed) + kept(b, removed),
    decreases b.len(),
{
    if b.len() > 0 {
        lemma_kept_concat(a, b.drop_last(), removed);
        assert((a + b).drop_last() =~= a + b.drop_last());
        assert((a + b).last() == b.last());
        if !removed.contains(b.last().id@) {
            assert(kept(a, removed) + kept(b.drop_last(), removed).push(b.last()) =~= (kept(a, removed)
                + kept(b.drop_last(), removed)).push(b.last()));
        }
    } else {
        assert(a + b =~= a);
        assert(kept(a, removed) + kept(b, removed) =~= kept(a, removed));
    }
}

pub proof fn lemma_pruned_items(gs: Seq<CategoryGroupView>, removed: Seq<Seq<char>>)
    ensures
        view_items(pruned_groups(gs, removed)) == kept(view_items(gs), removed),
    decreases gs.len(),
{
    if gs.len() > 0 {
        let p = gs.drop_last();
        lemma_pruned_items(p, removed);
        lemma_kept_concat(view_items(p), gs.last().items, removed);
        let items = kept(gs.last().items, removed);
        if items.len() == 0 {
            assert(kept(view_items(p), removed) + items =~= kept(view_items(p), removed));
        } else {
            let pg = pruned_groups(gs, removed);
            assert(pg.drop_last() == pruned_groups(p, removed));
        }
    }
}

/// The sizes kept from a prefix never exceed those kept from the whole.
pub proof fn lemma_kept_prefix_sum(s: Seq<CleanupItem>, i: int, removed: Seq<Seq<char>>)
    requires
        0 <= i <= s.len(),
    ensures
        size_sum(kept(s.take(i), removed)) <= size_sum(kept(s, removed)),
{
    assert(s =~= s.take(i) + s.skip(i));
    lemma_kept_concat(s.take(i), s.skip(i), removed);
    lemma_size_sum_concat(kept(s.take(i), removed), kept(s.skip(i), removed));
}

fn prune_group(g: &CategoryGroup, removed: &Vec<String>, budget: Ghost<nat>) -> (r: (Vec<CleanupItem>, u64))
    requires
        size_sum(kept(g.items@, removed.deep_view())) <= budget@,
        budget@ <= u64::MAX,
    ensures
        r.0@ == kept(g.items@, removed.deep_view()),
        r.1 as nat == size_sum(r.0@),
{
    let ghost rm = removed.deep_view();
    let mut items: Vec<CleanupItem> = Vec::new();
    let mut total: u64 = 0;
    let mut i: usize = 0;
    while i < g.items.len()
        invariant
            rm == removed.deep_view(),
            i <= g.items@.len(),
            size_sum(kept(g.items@, rm)) <= budget@,
            budget@ <= u64::MAX,
            items@ == kept(g.items@.take(i as int), rm),
            total as nat == size_sum(items@),
        decreases g.items@.len() - i,
    {
        let item = &g.items[i];
        assert(g.items@.take(i as int + 1).drop_last() =~= g.items@.take(i as int));
        assert(g.items@.take(i as int + 1).last() == *item);
        proof {
            lemma_kept_prefix_sum(g.items@, i as int + 1, rm);
        }
        if !contains_string(removed, &item.id) {
            let ghost prev = items@;
            assert(kept(g.items@.take(i as int + 1), rm) == prev.push(*item));
            assert(prev.push(*item).drop_last() =~= prev);
            assert(size_sum(prev.push(*item)) == size_sum(prev) + item.size_bytes);
            total = total + item.size_bytes;
            items.push(item.clone());
        }
        i = i + 1;
    }
    assert(g.items@.take(i as int) =~= g.items@);
    (items, total)
}

/// Drop `removed` ids from a report and re-total it.
pub fn prune_report(report: ScanReport, removed: &Vec<String>) -> (r: ScanReport)
    requires
        removed@.len() > 0 ==> size_sum(kept(view_items(report@.groups), removed.deep_view())) <= u64::MAX,
    ensures
        r@ == pruned(report@, removed.deep_view()),
{
    if removed.len() == 0 {
        return report;
    }
    let ghost rm = removed.deep_view();
    let ghost whole = report@;
    let ScanReport { total_reclaimable_bytes: _, groups, scanned_roots, warnings } = report;
    let ghost views = group_views(groups@);
    let ghost bound = size_sum(kept(view_items(views), rm));
    let mut out: Vec<CategoryGroup> = Vec::new();
    let mut total: u64 = 0;
    let mut gi: usize = 0;
    while gi < groups.len()
        invariant
            rm == removed.deep_view(),
            views == group_views(groups@),
            bound == size_sum(kept(view_items(views), rm)),
            bound <= u64::MAX,
            gi <= groups@.len(),
            group_views(out@) == pruned_groups(views.take(gi as int), rm),
            total as nat == size_sum(view_items(group_views(out@))),
        decreases groups@.len() - gi,
    {
        let g = &groups[gi];
        let ghost prev = views.take(gi as int);
        proof {
            assert(views.take(gi as int + 1).drop_last() =~= prev);
            assert(views.take(gi as int + 1).last() == g@);
            lemma_pruned_items(prev, rm);
            lemma_pruned_items(views.take(gi as int + 1), rm);
            lemma_kept_concat(view_items(prev), g.items@, rm);
            lemma_size_sum_concat(kept(view_items(prev), rm), kept(g.items@, rm));
            assert(view_items(views.take(gi as int + 1)) == view_items(prev) + g.items@);
            lemma_view_items_prefix(views, gi as int + 1, rm);
        }
        let (items, gt) = prune_group(g, removed, Ghost(bound));
        if items.len() > 0 {
            let ghost out_before = group_views(out@);
            total = total + gt;
            out.push(CategoryGroup { category: g.category, label: g.label.clone(), total_bytes: gt, items });
            proof {
                assert(group_views(out@) =~= out_before.push(out@.last()@));
                assert(view_items(group_views(out@)) == view_items(out_before) + out@.last()@.items) by {
                    assert(group_views(out@).drop_last() =~= out_before);
                }
                lemma_size_sum_concat(view_items(out_before), out@.last()@.items);
            }
        } else {
            assert(pruned_groups(views.take(gi as int + 1), rm) == pruned_groups(prev, rm));
        }
        gi = gi + 1;
    }
    assert(views.take(gi as int) =~= views);
    ScanReport { total_reclaimable_bytes: total, groups: out, scanned_roots, warnings }
}

/// The items of a prefix of the groups, pruned, weigh no more than those of
/// all the groups.
pub proof fn lemma_view_items_prefix(gs: Seq<CategoryGroupView>, n: int, removed: Seq<Seq<char>>)
    requires
        0 <= n <= gs.len(),
    ensures
        size_sum(kept(view_items(gs.take(n)), removed)) <= size_sum(kept(view_items(gs), removed)),
    decreases gs.len() - n,
{
    if n < gs.len() {
        lemma_view_items_prefix(gs, n + 1, removed);
        let a = gs.take(n + 1);
        assert(a.drop_last() =~= gs.take(n));
        lemma_kept_concat(view_items(gs.take(n)), a.last().items, removed);
        lemma_size_sum_concat(kept(view_items(gs.take(n)), removed), kept(a.last().items, removed));
    } else {
        assert(gs.take(n) =~= gs);
    }
}

/// Pruning keeps no removed id, and keeps everything when nothing matches.
pub proof fn lemma_kept(items: Seq<CleanupItem>, removed: Seq<Seq<char>>)
    ensures
        forall|x: CleanupItem| #[trigger] kept(items, removed).contains(x) ==> !removed.contains(x.id@)
            && items.contains(x),
        (forall|j: int| 0 <= j < items.len() ==> !removed.contains(#[trigger] items[j].id@)) ==> kept(
            items,
            removed,
        ) == items,
    decreases items.len(),
{
    if items.len() > 0 {
        let p = items.drop_last();
        lemma_kept(p, removed);
        assert forall|x: CleanupItem| #[trigger] kept(items, removed).contains(x) implies !removed.contains(x.id@)
            && items.contains(x) by {
            let k = kept(items, removed);
            let j = choose|j: int| 0 <= j < k.len() && k[j] == x;
            if !removed.contains(items.last().id@) && j == k.len() - 1 {
                assert(items[items.len() - 1] == x);
            } else {
                assert(kept(p, removed)[j] == x);
                assert(kept(p, removed).contains(x));
                let m = choose|m: int| 0 <= m < p.len() && p[m] == x;
                assert(items[m] == x);
            }
        }
        if forall|j: int| 0 <= j < items.len() ==> !removed.contains(#[trigger] items[j].id@) {
            assert forall|j: int| 0 <= j < p.len() implies !removed.contains(#[trigger] p[j].id@) by {
                assert(p[j] == items[j]);
            }
            assert(!removed.contains(items[items.len() - 1].id@));
            assert(items =~= p.push(items.last()));
        }
    }
}

/// Every pruned group is non-empty and carries the exact sum of its items.
pub proof fn lemma_pruned_groups_shape(gs: Seq<CategoryGroupView>, removed: Seq<Seq<char>>)
    requires
        size_sum(kept(view_items(gs), removed)) <= u64::MAX,
    ensures
        forall|i: int| 0 <= i < pruned_groups(gs, removed).len() ==> #[trigger] pruned_groups(gs, removed)[i].items.len() > 0,
        forall|i: int| 0 <= i < pruned_groups(gs, removed).len() ==> #[trigger] pruned_groups(gs, removed)[i].total_bytes as nat
            == size_sum(pruned_groups(gs, removed)[i].items),
        forall|i: int, j: int| 0 <= i < pruned_groups(gs, removed).len() && 0 <= j < pruned_groups(gs, removed)[i].items.len()
            ==> !removed.contains(#[trigger] pruned_groups(gs, removed)[i].items[j].id@),
    decreases gs.len(),
{
    if gs.len() > 0 {
        let p = gs.drop_last();
        let g = gs.last();
        assert(view_items(gs) == view_items(p) + g.items);
        lemma_kept_concat(view_items(p), g.items, removed);
        lemma_size_sum_concat(kept(view_items(p), removed), kept(g.items, removed));
        lemma_pruned_groups_shape(p, removed);
        lemma_kept(g.items, removed);
        let pg = pruned_groups(gs, removed);
        let items = kept(g.items, removed);
        if items.len() > 0 {
            assert forall|i: int, j: int| 0 <= i < pg.len() && 0 <= j < pg[i].items.len() implies !removed.contains(
                #[trigger] pg[i].items[j].id@) by {
                if i == pg.len() - 1 {
                    assert(items.contains(items[j]));
                } else {
                    assert(pg[i] == pruned_groups(p, removed)[i]);
                }
            }
        }
    }
}

/// After pruning, no removed id is advertised, no group is empty, and every
/// total is the exact sum of what is left.
pub proof fn law_pruned_report_is_consistent(r: ScanReportView, removed: Seq<Seq<char>>)
    requires
        removed.len() > 0,
        size_sum(kept(view_items(r.groups), removed)) <= u64::MAX,
    ensures
        consistent(pruned(r, removed)),
        forall|x: CleanupItem| #[trigger] view_items(pruned(r, removed).groups).contains(x) ==> !removed.contains(x.id@),
{
    lemma_pruned_groups_shape(r.groups, removed);
    lemma_pruned_items(r.groups, removed);
    lemma_kept(view_items(r.groups), removed);
}

/// Pruning ids that are not in a consistent report changes nothing, and
/// pruning no ids at all changes nothing either.
pub proof fn law_pruning_absent_ids_is_a_no_op(r: ScanReportView, removed: Seq<Seq<char>>)
    requires
        consistent(r),
        forall|x: CleanupItem| #[trigger] view_items(r.groups).contains(x) ==> !removed.contains(x.id@),
    ensures
        pruned(r, removed) == r,
        pruned(r, Seq::empty()) == r,
{
    if removed.len() > 0 {
        lemma_pruned_groups_identity(r.groups, removed);
        assert(pruned(r, removed) =~= r);
    }
}

proof fn lemma_pruned_groups_identity(gs: Seq<CategoryGroupView>, removed: Seq<Seq<char>>)
    requires
        forall|i: int| 0 <= i < gs.len() ==> #[trigger] gs[i].items.len() > 0,
        forall|i: int| 0 <= i < gs.len() ==> #[trigger] gs[i].total_bytes as nat == size_sum(gs[i].items),
        forall|x: CleanupItem| #[trigger] view_items(gs).contains(x) ==> !removed.contains(x.id@),
    ensures
        pruned_groups(gs, removed) == gs,
    decreases gs.len(),
{
    if gs.len() > 0 {
        let p = gs.drop_last();
        let g = gs.last();
        assert(view_items(gs) == view_items(p) + g.items);
        assert forall|x: CleanupItem| #[trigger] view_items(p).contains(x) implies !removed.contains(x.id@) by {
            let j = choose|j: int| 0 <= j < view_items(p).len() && view_items(p)[j] == x;
            assert(view_items(gs)[j] == x);
            assert(view_items(gs).contains(x));
        }
        assert forall|i: int| 0 <= i < p.len() implies #[trigger] p[i].items.len() > 0 by {
            assert(p[i] == gs[i]);
        }
        assert forall|i: int| 0 <= i < p.len() implies #[trigger] p[i].total_bytes as nat == size_sum(p[i].items) by {
            assert(p[i] == gs[i]);
        }
        lemma_pruned_groups_identity(p, removed);
        assert forall|j: int| 0 <= j < g.items.len() implies !removed.contains(#[trigger] g.items[j].id@) by {
            let k = view_items(p).len() + j;
            assert(view_items(gs)[k] == g.items[j]);
            assert(view_items(gs).contains(g.items[j]));
        }
        lemma_kept(g.items, removed);
        assert(gs[gs.len() - 1] == g);
        assert(kept(g.items, removed) == g.items);
        assert(g.items.len() > 0);
        assert(size_sum(g.items) as u64 == g.total_bytes);
        let ng = CategoryGroupView { items: kept(g.items, removed), total_bytes: size_sum(kept(g.items, removed)) as u64, ..g };
        assert(ng == g);
        assert(pruned_groups(gs, removed) == pruned_groups(p, removed).push(ng));
        assert(gs =~= p.push(g));
    }
}

// ---------------------------------------------------------------------------
// Byte formatting
// ---------------------------------------------------------------------------

/// 2^53: integers below it are exactly representable as an `f64`.
pub open spec fn pow53() -> nat {
    9007199254740992
}

/// The power-of-two spacing `s` of the `f64` values around `b`: the smallest
/// power of two, from `s` up, with `b < 2^53 * s`.
pub open spec fn f64_spacing(b: nat, s: nat) -> nat
    decreases b + 1 - s,
    when s >= 1
{
    if b >= pow53() * s {
        f64_spacing(b, 2 * s)
    } else {
        s
    }
}

/// The value of `b as f64`: `b` rounded to 53 significant bits, ties to even.
pub open spec fn f64_value(b: nat) -> nat {
    let s = f64_spacing(b, 1);
    round_half_even(b, s) * s
}

pub open spec fn pow1024(u: nat) -> nat {
    if u == 0 {
        1
    } else if u == 1 {
        1024
    } else if u == 2 {
        1048576
    } else if u == 3 {
        1073741824
    } else {
        1099511627776
    }
}

/// The unit `m` is shown in: the largest of B, KB, MB, GB, TB (from `u` up)
/// that leaves a value of at least one.
pub open spec fn unit_from(m: nat, u: nat) -> nat
    decreases 4 - u,
{
    if u < 4 && m >= pow1024(u + 1) {
        unit_from(m, u + 1)
    } else {
        u
    }
}

pub open spec fn unit_name(u: nat) -> Seq<char> {
    if u == 0 {
        "B"@
    } else if u == 1 {
        "KB"@
    } else if u == 2 {
        "MB"@
    } else if u == 3 {
        "GB"@
    } else {
        "TB"@
    }
}

/// Compact byte formatting: whole bytes below 1 KiB, otherwise the value in
/// the largest binary unit (up to TB) with one decimal below ten and none
/// from ten up, rounded to nearest, ties to even, as `{:.1}`/`{:.0}` print
/// the `f64` value.
pub open spec fn human_bytes_text(b: nat) -> Seq<char> {
    if b == 0 {
        "0 B"@
    } else {
        let m = f64_value(b);
        let u = unit_from(m, 0);
        if u == 0 {
            decimal(b) + " B"@
        } else if m < 10 * pow1024(u) {
            let n = round_half_even(m * 10, pow1024(u));
            decimal(n / 10) + "."@ + seq![digit_char(n % 10)] + " "@ + unit_name(u)
        } else {
            decimal(round_half_even(m, pow1024(u))) + " "@ + unit_name(u)
        }
    }
}

fn push_unit(s: &mut String, u: u64)
    requires
        u <= 4,
    ensures
        final(s)@ == old(s)@ + unit_name(u as nat),
{
    if u == 0 {
        push_str(s, "B");
    } else if u == 1 {
        push_str(s, "KB");
    } else if u == 2 {
        push_str(s, "MB");
    } else if u == 3 {
        push_str(s, "GB");
    } else {
        push_str(s, "TB");
    }
}

/// Compact byte formatting for notifications and the tray tooltip.
pub fn human_bytes(bytes: u64) -> (r: String)
    ensures
        r@ == human_bytes_text(bytes as nat),
{
    if bytes == 0 {
        return String::from_str("0 B");
    }
    let b: u128 = bytes as u128;
    let mut s: u128 = 1;
    while b >= 9007199254740992u128 * s
        invariant
            s >= 1,
            s == 1 || 4503599627370496 * s <= b,
            b <= u64::MAX,
            f64_spacing(b as nat, s as nat) == f64_spacing(b as nat, 1),
        decreases b + 1 - s,
    {
        s = s * 2;
    }
    assert(s <= 4096) by (nonlinear_arith)
        requires
            s == 1 || 4503599627370496 * s <= b,
            b <= 18446744073709551615u128,
    ;
    let q = div_round_half_even(b, s);
    assert(q * s <= b + s) by (nonlinear_arith)
        requires
            q <= b / s + 1,
            s >= 1,
    ;
    let m: u128 = q * s;
    let mut u: u64 = 0;
    let mut p: u128 = 1;
    while u < 4 && m >= p * 1024
        invariant
            u <= 4,
            p as nat == pow1024(u as nat),
            unit_from(m as nat, u as nat) == unit_from(m as nat, 0),
        decreases 4 - u,
    {
        u = u + 1;
        p = p * 1024;
    }
    let mut out = String::new();
    if u == 0 {
        push_decimal(&mut out, bytes);
        push_str(&mut out, " B");
    } else if m < 10 * p {
        let n = div_round_half_even(m * 10, p);
        push_decimal_wide(&mut out, n / 10);
        push_str(&mut out, ".");
        push_char(&mut out, digit((n % 10) as u64));
        push_str(&mut out, " ");
        push_unit(&mut out, u);
    } else {
        push_decimal_wide(&mut out, div_round_half_even(m, p));
        push_str(&mut out, " ");
        push_unit(&mut out, u);
    }
    assert(out@ =~= human_bytes_text(bytes as nat));
    out
}

// ---------------------------------------------------------------------------
// Run summaries and notifications
// ---------------------------------------------------------------------------

/// "Reclaimed …" when autopilot freed something, "Found …" otherwise.
pub open spec fn summary_text(r: RunRecord) -> Seq<char> {
    if r.cleaned_items > 0 {
        "Reclaimed "@ + human_bytes_text(r.reclaimed_bytes as nat)
    } else {
        "Found "@ + human_bytes_text(r.reclaimable_bytes as nat)
    }
}

/// One-line summary of a run.
pub fn human_summary(record: &RunRecord) -> (r: String)
    ensures
        r@ == summary_text(*record),
{
    let mut s = String::new();
    if record.cleaned_items > 0 {
        push_str(&mut s, "Reclaimed ");
        let b = human_bytes(record.reclaimed_bytes);
        push_str(&mut s, b.as_str());
    } else {
        push_str(&mut s, "Found ");
        let b = human_bytes(record.reclaimable_bytes);
        push_str(&mut s, b.as_str());
    }
    s
}

/// "" for one, "s" otherwise.
pub open spec fn plural(n: nat) -> Seq<char> {
    if n == 1 {
        ""@
    } else {
        "s"@
    }
}

/// The notification a finished run posts, as (title, body), or `None` when
/// notifications are off or there is nothing worth saying.
pub open spec fn notification(notify: bool, r: RunRecord) -> Option<(Seq<char>, Seq<char>)> {
    if !notify {
        None
    } else if r.error is Some {
        let err = r.error.unwrap()@;
        if r.cleaned_items == 0 && r.scanned_items == 0 {
            Some(("Safai automation stopped"@, err))
        } else {
            Some(("Safai automation finished"@, summary_text(r) + " \u{b7} "@ + err))
        }
    } else if r.cleaned_items > 0 {
        Some((
            "Safai freed up space"@,
            "Reclaimed "@ + human_bytes_text(r.reclaimed_bytes as nat) + " across "@ + decimal(
                r.cleaned_items as nat,
            ) + " item"@ + plural(r.cleaned_items as nat) + "."@,
        ))
    } else if r.reclaimable_bytes > 0 {
        Some((
            "Safai found space to reclaim"@,
            human_bytes_text(r.reclaimable_bytes as nat) + " across "@ + decimal(r.scanned_items as nat)
                + " item"@ + plural(r.scanned_items as nat) + " \u{2014} open Safai to review."@,
        ))
    } else {
        None
    }
}

fn push_plural(s: &mut String, n: u32)
    ensures
        final(s)@ == old(s)@ + plural(n as nat),
{
    if n == 1 {
        push_str(s, "");
    } else {
        push_str(s, "s");
    }
}

/// The notification to post for a finished run, if any: the title and body
/// the user sees.
pub fn notification_text(cfg: &ScheduleConfig, record: &RunRecord) -> (r: Option<(String, String)>)
    ensures
        match r {
            Some((t, b)) => notification(cfg.notify, *record) == Some((t@, b@)),
            None => notification(cfg.notify, *record) is None,
        },
{
    if !cfg.notify {
        return None;
    }
    if let Some(err) = &record.error {
        if record.cleaned_items == 0 && record.scanned_items == 0 {
            return Some((String::from_str("Safai automation stopped"), err.clone()));
        }
        let mut body = human_summary(record);
        push_str(&mut body, " \u{b7} ");
        push_str(&mut body, err.as_str());
        return Some((String::from_str("Safai automation finished"), body));
    }
    if record.cleaned_items > 0 {
        let mut body = String::from_str("Reclaimed ");
        let b = human_bytes(record.reclaimed_bytes);
        push_str(&mut body, b.as_str());
        push_str(&mut body, " across ");
        push_decimal(&mut body, record.cleaned_items as u64);
        push_str(&mut body, " item");
        push_plural(&mut body, record.cleaned_items);
        push_str(&mut body, ".");
        return Some((String::from_str("Safai freed up space"), body));
    }
    if record.reclaimable_bytes > 0 {
        let mut body = human_bytes(record.reclaimable_bytes);
        push_str(&mut body, " across ");
        push_decimal(&mut body, record.scanned_items as u64);
        push_str(&mut body, " item");
        push_plural(&mut body, record.scanned_items);
        push_str(&mut body, " \u{2014} open Safai to review.");
        return Some((String::from_str("Safai found space to reclaim"), body));
    }
    None
}

/// The audit record of a finished run. The error line says the run was
/// stopped early (cancellation wins) or that the byte cap left items behind.
pub fn run_record(
    at: u64,
    trigger: TriggerKind,
    scanned_items: u32,
    reclaimable_bytes: u64,
    cleaned_items: u32,
    reclaimed_bytes: u64,
    auto_cleaned: bool,
    skipped_items: u32,
    duration_ms: u64,
    cancelled: bool,
    capped: bool,
) -> (r: RunRecord)
    ensures
        r.at == at,
        r.trigger == trigger,
        r.scanned_items == scanned_items,
        r.reclaimable_bytes == reclaimable_bytes,
        r.cleaned_items == cleaned_items,
        r.reclaimed_bytes == reclaimed_bytes,
        r.auto_cleaned == auto_cleaned,
        r.skipped_items == skipped_items,
        r.duration_ms == duration_ms,
        cancelled ==> (r.error matches Some(e) && e@ == "stopped early"@),
        !cancelled && capped ==> (r.error matches Some(e) && e@
            == "hit the per-run size cap; some items were left"@),
        !cancelled && !capped ==> r.error is None,
{
    let error = if cancelled {
        Some(String::from_str("stopped early"))
    } else if capped {
        Some(String::from_str("hit the per-run size cap; some items were left"))
    } else {
        None
    };
    RunRecord {
        at,
        trigger,
        scanned_items,
        reclaimable_bytes,
        cleaned_items,
        reclaimed_bytes,
        auto_cleaned,
        skipped_items,
        duration_ms,
        error,
    }
}

/// The number of findings in a report.
pub fn count_items(report: &ScanReport) -> (n: u32)
    requires
        all_items(report.groups@).len() <= u32::MAX,
    ensures
        n as nat == all_items(report.groups@).len(),
{
    let ghost gs = report.groups@;
    let mut n: u32 = 0;
    let mut i: usize = 0;
    while i < report.groups.len()
        invariant
            gs == report.groups@,
            i <= gs.len(),
            all_items(gs).len() <= u32::MAX,
            n as nat == all_items(gs.take(i as int)).len(),
        decreases gs.len() - i,
    {
        assert(gs.take(i as int + 1).drop_last() =~= gs.take(i as int));
        proof {
            crate::schedule::policy::lemma_all_items_prefix_len(gs, i as int + 1);
        }
        n = n + report.groups[i].items.len() as u32;
        i = i + 1;
    }
    assert(gs.take(i as int) =~= gs);
    n
}

// ---------------------------------------------------------------------------
// Live progress
// ---------------------------------------------------------------------------

/// Lightweight, high-frequency view of the run in flight.
#[derive(Debug)]
pub struct AutomationProgress {
    pub phase: RunPhase,
    pub current_path: String,
    pub found_bytes: u64,
    pub item_count: u32,
    pub deleted: u32,
    pub reclaimed_bytes: u64,
    pub skipped: u32,
}

impl Default for AutomationProgress {
    fn default() -> (r: Self)
        ensures
            r.phase == RunPhase::Idle,
            r.current_path@ == Seq::<char>::empty(),
            r.found_bytes == 0,
            r.item_count == 0,
            r.deleted == 0,
            r.reclaimed_bytes == 0,
            r.skipped == 0,
    {
        AutomationProgress {
            phase: RunPhase::Idle,
            current_path: String::new(),
            found_bytes: 0,
            item_count: 0,
            deleted: 0,
            reclaimed_bytes: 0,
            skipped: 0,
        }
    }
}

impl AutomationProgress {
    /// Fold a scan event into the live progress: the current path and bytes
    /// found so far, one more item per finding, and the final totals.
    pub fn on_scan_event(&mut self, event: &ScanEvent)
        requires
            event is Found ==> old(self).item_count < u32::MAX,
        ensures
            final(self).phase == old(self).phase,
            final(self).deleted == old(self).deleted,
            final(self).reclaimed_bytes == old(self).reclaimed_bytes,
            final(self).skipped == old(self).skipped,
            match *event {
                ScanEvent::Progress { current_path, found_bytes, .. } => final(self).current_path
                    == current_path && final(self).found_bytes == found_bytes && final(self).item_count
                    == old(self).item_count,
                ScanEvent::Found { item } => final(self).current_path == old(self).current_path
                    && final(self).item_count == old(self).item_count + 1 && final(self).found_bytes
                    == sat_add(old(self).found_bytes, item.size_bytes),
                ScanEvent::Finished { total_reclaimable_bytes, item_count } => final(self).current_path
                    == old(self).current_path && final(self).found_bytes == total_reclaimable_bytes
                    && final(self).item_count == item_count,
                ScanEvent::Started { .. } => final(self).current_path == old(self).current_path
                    && final(self).found_bytes == old(self).found_bytes && final(self).item_count
                    == old(self).item_count,
            },
    {
        match event {
            ScanEvent::Progress { current_path, found_bytes, .. } => {
                self.current_path = current_path.clone();
                self.found_bytes = *found_bytes;
            },
            ScanEvent::Found { item } => {
                self.item_count = self.item_count + 1;
                self.found_bytes = self.found_bytes.saturating_add(item.size_bytes);
            },
            ScanEvent::Finished { total_reclaimable_bytes, item_count } => {
                self.found_bytes = *total_reclaimable_bytes;
                self.item_count = *item_count;
            },
            ScanEvent::Started { .. } => {},
        }
    }

    /// Fold a deletion event into the live progress: one more deleted (with
    /// its bytes) or skipped item, and the path being worked on.
    pub fn on_delete_event(&mut self, event: &DeleteEvent)
        requires
            event is Deleted ==> old(self).deleted < u32::MAX,
            event is Skipped ==> old(self).skipped < u32::MAX,
        ensures
            final(self).phase == old(self).phase,
            final(self).found_bytes == old(self).found_bytes,
            final(self).item_count == old(self).item_count,
            match *event {
                DeleteEvent::Deleted { path, size_bytes, .. } => final(self).deleted == old(self).deleted + 1
                    && final(self).reclaimed_bytes == sat_add(old(self).reclaimed_bytes, size_bytes)
                    && final(self).skipped == old(self).skipped && final(self).current_path == path,
                DeleteEvent::Skipped { path, .. } => final(self).skipped == old(self).skipped + 1
                    && final(self).deleted == old(self).deleted && final(self).reclaimed_bytes == old(
                    self,
                ).reclaimed_bytes && final(self).current_path == path,
                _ => final(self).deleted == old(self).deleted && final(self).skipped == old(self).skipped
                    && final(self).reclaimed_bytes == old(self).reclaimed_bytes && final(self).current_path
                    == old(self).current_path,
            },
    {
        match event {
            DeleteEvent::Deleted { path, size_bytes, .. } => {
                self.deleted = self.deleted + 1;
                self.reclaimed_bytes = self.reclaimed_bytes.saturating_add(*size_bytes);
                self.current_path = path.clone();
            },
            DeleteEvent::Skipped { path, .. } => {
                self.skipped = self.skipped + 1;
                self.current_path = path.clone();
            },
            _ => {},
        }
    }
}

// ---------------------------------------------------------------------------
// Reacting to a decision
// ---------------------------------------------------------------------------

/// What a tick does after the scheduler decided.
#[derive(Debug)]
pub struct TickOutcome {
    /// Start a run with this trigger.
    pub run: Option<TriggerKind>,
    /// Put the manual request back in the queue.
    pub requeue_manual: bool,
    /// The deferral reason to show from now on.
    pub deferred: Option<String>,
    /// The shown status changed and must be pushed to the UI and tray.
    pub push_status: bool,
}

/// Turn a decision into the tick's actions, given the deferral reason shown
/// so far. A run clears the reason (the run itself announces its status); a
/// deferral shows its reason and requeues a manual request when asked; idle
/// clears the reason. The status is pushed only when the reason changed.
pub fn react(decision: Decision, current: &Option<String>) -> (r: TickOutcome)
    ensures
        match decision@ {
            DecisionView::Run(t) => r.run == Some(t) && !r.requeue_manual && r.deferred is None
                && !r.push_status,
            DecisionView::Defer { reason, requeue_manual } => r.run is None && r.requeue_manual
                == requeue_manual && (r.deferred matches Some(d) && d@ == reason) && r.push_status
                == !(current matches Some(c) && c@ == reason),
            DecisionView::Idle => r.run is None && !r.requeue_manual && r.deferred is None
                && r.push_status == current is Some,
        },
{
    match decision {
        Decision::Run(t) => TickOutcome { run: Some(t), requeue_manual: false, deferred: None, push_status: false },
        Decision::Defer { reason, requeue_manual } => {
            let changed = match current {
                Some(c) => !(*c == reason),
                None => true,
            };
            TickOutcome { run: None, requeue_manual, deferred: Some(reason), push_status: changed }
        },
        Decision::Idle => TickOutcome {
            run: None,
            requeue_manual: false,
            deferred: None,
            push_status: current.is_some(),
        },
    }
}

/// The manual-request flag after a run for `trigger` lost the activity gate
/// to the UI: a manual request is queued again, and any other run leaves the
/// flag as it found it, so a request queued in the meantime is never
/// cleared.
pub fn requeue_after_lost_gate(trigger: TriggerKind, pending_manual: &mut bool)
    ensures
        *final(pending_manual) == (*old(pending_manual) || trigger == TriggerKind::Manual),
{
    if trigger == TriggerKind::Manual {
        *pending_manual = true;
    }
}

/// Whether a run for `trigger` lowers its CPU and I/O priority: unattended
/// runs do, a run the user asked for does not.
pub fn runs_in_background(trigger: TriggerKind) -> (r: bool)
    ensures
        r == (trigger != TriggerKind::Manual),
{
    trigger != TriggerKind::Manual
}

// ---------------------------------------------------------------------------
// Observing and executing
// ---------------------------------------------------------------------------

/// Whether a character is white space by Unicode's `White_Space` property:
/// the controls U+0009 to U+000D, the space, U+0085, the no-break space,
/// the Ogham space mark, the spaces U+2000 to U+200A, the line and paragraph
/// separators, the narrow no-break space, the medium mathematical space and
/// the ideographic space.
pub open spec fn unicode_whitespace(c: char) -> bool {
    let u = c as u32;
    ||| 0x9 <= u <= 0xd
    ||| u == 0x20
    ||| u == 0x85
    ||| u == 0xa0
    ||| u == 0x1680
    ||| 0x2000 <= u <= 0x200a
    ||| u == 0x2028
    ||| u == 0x2029
    ||| u == 0x202f
    ||| u == 0x205f
    ||| u == 0x3000
}

/// Whether a character is white space (see [`unicode_whitespace`]).
pub fn is_whitespace_char(c: char) -> (r: bool)
    ensures
        r == unicode_whitespace(c),
{
    let u: u32 = c as u32;
    (0x9 <= u && u <= 0xd) || u == 0x20 || u == 0x85 || u == 0xa0 || u == 0x1680 || (0x2000 <= u
        && u <= 0x200a) || u == 0x2028 || u == 0x2029 || u == 0x202f || u == 0x205f || u == 0x3000
}

/// Does `s` hold nothing but white space (so that trimming empties it)?
pub open spec fn blank(s: Seq<char>) -> bool {
    forall|i: int| 0 <= i < s.len() ==> unicode_whitespace(#[trigger] s[i])
}

/// Does `s` hold nothing but white space?
pub fn is_blank(s: &str) -> (r: bool)
    ensures
        r == blank(s@),
{
    let cs = crate::text::chars_of(s);
    let mut i: usize = 0;
    while i < cs.len()
        invariant
            i <= cs@.len(),
            cs@ == s@,
            forall|j: int| 0 <= j < i ==> unicode_whitespace(#[trigger] cs@[j]),
        decreases cs@.len() - i,
    {
        if !is_whitespace_char(cs[i]) {
            return false;
        }
        i = i + 1;
    }
    true
}

/// The path whose volume the capacity trigger watches: the configured one,
/// unless it is blank; then the first default root (`roots`), else `C:/`.
pub fn watched_path(cfg: &ScheduleConfig, roots: &Vec<String>) -> (r: String)
    ensures
        !blank(cfg.threshold_path@) ==> r == cfg.threshold_path,
        blank(cfg.threshold_path@) && roots@.len() > 0 ==> r == roots@[0],
        blank(cfg.threshold_path@) && roots@.len() == 0 ==> r@ == "C:/"@,
{
    if !is_blank(cfg.threshold_path.as_str()) {
        return cfg.threshold_path.clone();
    }
    if roots.len() > 0 {
        roots[0].clone()
    } else {
        String::from_str("C:/")
    }
}

/// Take a waiting "Run now" request for this tick, unless a run is in
/// flight: then it stays queued for the tick after that run.
pub fn take_manual_request(run_in_flight: bool, pending: &mut bool) -> (r: bool)
    ensures
        r == (!run_in_flight && *old(pending)),
        *final(pending) == (run_in_flight && *old(pending)),
{
    if run_in_flight {
        false
    } else {
        let r = *pending;
        *pending = false;
        r
    }
}

/// What an autopilot cleanup deletes: each planned item, resolved to itself.
pub fn plan_targets(plan: &AutoCleanPlan) -> (r: Vec<(String, Option<CleanupItem>)>)
    ensures
        r@.len() == plan.items@.len(),
        forall|i: int| 0 <= i < r@.len() ==> (#[trigger] r@[i]).0 == plan.items@[i].id && r@[i].1 == Some(
            plan.items@[i],
        ),
{
    let mut out: Vec<(String, Option<CleanupItem>)> = Vec::new();
    let mut i: usize = 0;
    while i < plan.items.len()
        invariant
            i <= plan.items@.len(),
            out@.len() == i,
            forall|j: int| 0 <= j < i ==> (#[trigger] out@[j]).0 == plan.items@[j].id && out@[j].1 == Some(
                plan.items@[j],
            ),
        decreases plan.items@.len() - i,
    {
        let it = plan.items[i].clone();
        out.push((it.id.clone(), Some(it)));
        i = i + 1;
    }
    out
}

/// The watched drive as the status shows it: its free and total bytes when
/// the query (`reading`) worked, and how full it is when its total is known.
pub fn disk_status(reading: Option<(u64, u64)>, mount: String) -> (r: (Option<DriveInfo>, Option<DiskUsage>))
    ensures
        match reading {
            None => r.0 is None && r.1 is None,
            Some((free, total)) => (r.0 matches Some(d) && d.mount == mount && d.free_bytes == free
                && d.total_bytes == total) && (total == 0 ==> r.1 is None) && (total > 0 ==> r.1 == Some(
                DiskUsage { used_bytes: if free > total { 0 } else { (total - free) as u64 }, total_bytes: total },
            )),
        },
{
    match reading {
        None => (None, None),
        Some((free_bytes, total_bytes)) => {
            let usage = DiskUsage::from_free_total(free_bytes, total_bytes);
            (Some(DriveInfo { mount, free_bytes, total_bytes }), usage)
        },
    }
}

} // verus!
