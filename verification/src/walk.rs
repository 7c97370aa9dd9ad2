//! The pruned directory walk's bookkeeping: a LIFO stack of directories
//! still to read. Every subdirectory found is reported; it is read in turn
//! unless pruned, so a pruned directory's contents are never listed. The
//! directory listings themselves are read by the caller.

use vstd::prelude::*;

use crate::text::{push_decimal, push_str};

verus! {

/// A depth-first walk over directories, pruning as told: roots are at
/// depth zero, and a directory found at depth `max_depth` is reported but
/// not read.
pub struct PrunedWalk {
    stack: Vec<(String, usize)>,
    max_depth: usize,
}

impl PrunedWalk {
    /// The directories still to read, with their depths; the last one is
    /// read next.
    pub closed spec fn pending(&self) -> Seq<(String, usize)> {
        self.stack@
    }

    /// The deepest level read.
    pub closed spec fn depth_limit(&self) -> usize {
        self.max_depth
    }

    /// A walk that starts by reading `roots` (the last root first), reading
    /// directories down to depth `max_depth`.
    pub fn new(roots: &Vec<String>, max_depth: usize) -> (r: Self)
        ensures
            r.pending() == roots@.map_values(|p: String| (p, 0usize)),
            r.depth_limit() == max_depth,
    {
        let mut stack: Vec<(String, usize)> = Vec::new();
        let mut i: usize = 0;
        while i < roots.len()
            invariant
                i <= roots@.len(),
                stack@ == roots@.take(i as int).map_values(|p: String| (p, 0usize)),
            decreases roots@.len() - i,
        {
            stack.push((roots[i].clone(), 0));
            proof {
                assert(stack@ =~= roots@.take(i + 1).map_values(|p: String| (p, 0usize)));
            }
            i = i + 1;
        }
        proof {
            assert(roots@.take(i as int) =~= roots@);
        }
        PrunedWalk { stack, max_depth }
    }

    /// The next directory to read and its depth, most recently found first;
    /// `None` when the walk is over.
    pub fn next_dir(&mut self) -> (r: Option<(String, usize)>)
        ensures
            final(self).depth_limit() == old(self).depth_limit(),
            old(self).pending().len() == 0 ==> r is None && final(self).pending() == old(self).pending(),
            old(self).pending().len() > 0 ==> r == Some(old(self).pending().last())
                && final(self).pending() == old(self).pending().drop_last(),
    {
        self.stack.pop()
    }

    /// A subdirectory `child` was found while reading a directory at depth
    /// `parent_depth`: it is read later unless `prune` says not to descend
    /// into it or it lies beyond the depth limit.
    pub fn found_dir(&mut self, child: String, parent_depth: usize, prune: bool)
        requires
            parent_depth < usize::MAX,
        ensures
            final(self).depth_limit() == old(self).depth_limit(),
            final(self).pending() == if prune || parent_depth + 1 > old(self).depth_limit() {
                old(self).pending()
            } else {
                old(self).pending().push((child, (parent_depth + 1) as usize))
            },
    {
        if !prune && parent_depth + 1 <= self.max_depth {
            self.stack.push((child, parent_depth + 1));
        }
    }
}

/// The progress line while the project walk runs.
pub open spec fn walk_progress_text(dirs_seen: nat) -> Seq<char> {
    "Scanning projects\u{2026} ("@ + crate::text::decimal(dirs_seen) + " folders)"@
}

/// The progress line after the walk has seen `dirs_seen` directories.
pub fn walk_progress_message(dirs_seen: u64) -> (r: String)
    ensures
        r@ == walk_progress_text(dirs_seen as nat),
{
    let mut s = String::from_str("Scanning projects\u{2026} (");
    push_decimal(&mut s, dirs_seen);
    push_str(&mut s, " folders)");
    s
}

} // verus!
