//! The deletion guardrail: a path may be deleted only when it lies inside
//! one of the allowed roots, and a dry run says exactly which requested ids
//! pass it. Ids are resolved against the last scan's findings, never taken
//! as paths from the caller.

use vstd::prelude::*;

use crate::detect::{display_path, display_text};
use crate::dto::{allowed_total, blocked_total, plan_entry, preview_delete, DeletePlan};
use crate::model::CleanupItem;
use crate::scan::{overlap_key, overlap_key_of};
use crate::session::{resolve_ids, ItemIndex};
use crate::text::{chars_of, has_prefix, starts_with};

verus! {

/// The form of a path the guardrail compares: forward slashes, no trailing
/// slash, lowercase (Windows paths ignore case).
pub open spec fn guard_key(p: Seq<char>) -> Seq<char> {
    overlap_key(display_text(p))
}

/// Does `path` lie inside (or equal) `root`? A root whose key is empty
/// admits nothing.
pub open spec fn inside(path: Seq<char>, root: Seq<char>) -> bool {
    let k = guard_key(path);
    let r = guard_key(root);
    r.len() > 0 && (k == r || starts_with(k, r.push('/')))
}

/// Does `path` lie inside any of `roots`?
pub open spec fn inside_any(path: Seq<char>, roots: Seq<Seq<char>>) -> bool {
    exists|i: int| 0 <= i < roots.len() && inside(path, #[trigger] roots[i])
}

/// The guardrail key of `p`.
fn guard_key_of(p: &str) -> (r: Vec<char>)
    ensures
        r@ == guard_key(p@),
{
    let d = display_path(p);
    let k = overlap_key_of(d.as_str());
    chars_of(k.as_str())
}

/// Does `path` lie inside (or equal) one of `roots`?
pub fn is_within_allowed(path: &str, roots: &Vec<String>) -> (r: bool)
    ensures
        r == inside_any(path@, roots.deep_view()),
{
    let k = guard_key_of(path);
    let mut i: usize = 0;
    while i < roots.len()
        invariant
            i <= roots@.len(),
            k@ == guard_key(path@),
            forall|j: int| 0 <= j < i ==> !inside(path@, #[trigger] roots.deep_view()[j]),
        decreases roots@.len() - i,
    {
        let r = guard_key_of(roots[i].as_str());
        assert(roots.deep_view()[i as int] == roots@[i as int]@);
        if r.len() > 0 {
            let mut r_slash = guard_key_of(roots[i].as_str());
            r_slash.push('/');
            let same = k.len() == r.len() && has_prefix(&k, &r);
            if same {
                assert(k@ =~= r@) by {
                    assert(k@.take(r@.len() as int) =~= k@);
                }
                return true;
            }
            if has_prefix(&k, &r_slash) {
                return true;
            }
            proof {
                if k@ == r@ {
                    assert(k@.take(r@.len() as int) =~= r@);
                }
            }
        }
        i = i + 1;
    }
    false
}

/// The findings the requested ids resolve to in `index`, in request order
/// (`None` for an id the last scan did not find).
pub open spec fn resolved_findings(index: Map<Seq<char>, CleanupItem>, ids: Seq<Seq<char>>) -> Seq<Option<CleanupItem>> {
    Seq::new(
        ids.len(),
        |i: int| if index.contains_key(ids[i]) {
            Some(index[ids[i]])
        } else {
            None::<CleanupItem>
        },
    )
}

/// Which resolved findings lie inside the allowed roots.
pub open spec fn inside_flags(found: Seq<Option<CleanupItem>>, roots: Seq<Seq<char>>) -> Seq<bool> {
    Seq::new(found.len(), |i: int| found[i] matches Some(it) && inside_any(it.path@, roots))
}

/// Dry run of deleting `ids` from the findings `index`, with deletions
/// confined to `roots`: each id resolves to its finding (or is blocked as
/// unknown), and a found item is allowed only inside the roots. The plan's
/// byte total and blocked count are those of [`preview_delete`] over the
/// resolved findings and their flags.
pub fn preview_for(index: &ItemIndex, ids: &Vec<String>, roots: &Vec<String>) -> (plan: DeletePlan)
    requires
        ids@.len() <= u32::MAX,
    ensures
        plan.items@.len() == ids@.len(),
        forall|i: int| 0 <= i < ids@.len() ==> {
            let found = if index@.contains_key(ids@[i]@) {
                Some(index@[ids@[i]@])
            } else {
                None::<CleanupItem>
            };
            let allowed = found matches Some(it) && inside_any(it.path@, roots.deep_view());
            #[trigger] plan.items@[i]@ == plan_entry(ids@[i]@, found, allowed)
        },
        ({
            let found = resolved_findings(index@, ids.deep_view());
            let flags = inside_flags(found, roots.deep_view());
            &&& plan.total_bytes == allowed_total(found, flags, ids@.len() as int)
            &&& plan.blocked_count as nat == blocked_total(found, flags, ids@.len() as int)
        }),
{
    let found = resolve_ids(index, ids);
    let mut allowed: Vec<bool> = Vec::new();
    let mut i: usize = 0;
    while i < found.len()
        invariant
            i <= found@.len(),
            allowed@.len() == i,
            forall|j: int| 0 <= j < i ==> #[trigger] allowed@[j] == (found@[j] matches Some(it)
                && inside_any(it.path@, roots.deep_view())),
        decreases found@.len() - i,
    {
        let ok = match &found[i] {
            Some(it) => is_within_allowed(it.path.as_str(), roots),
            None => false,
        };
        allowed.push(ok);
        i = i + 1;
    }
    proof {
        let rf = resolved_findings(index@, ids.deep_view());
        assert forall|j: int| 0 <= j < ids@.len() implies found@[j] == #[trigger] rf[j] by {
            assert(ids.deep_view()[j] == ids@[j]@);
        }
        assert(found@ =~= rf);
        assert(allowed@ =~= inside_flags(rf, roots.deep_view()));
    }
    preview_delete(ids, &found, &allowed)
}

/// Nothing a dry run allows lies outside the allowed roots, and nothing it
/// allows was unknown to the last scan.
pub proof fn law_preview_never_allows_outside_the_roots(
    id: Seq<char>,
    found: Option<CleanupItem>,
    roots: Seq<Seq<char>>,
)
    ensures
        ({
            let allowed = found matches Some(it) && inside_any(it.path@, roots);
            plan_entry(id, found, allowed).allowed ==> (found matches Some(it) && inside_any(
                it.path@,
                roots,
            ))
        }),
{
}

} // verus!
