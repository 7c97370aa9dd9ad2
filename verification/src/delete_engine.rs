//! The decisions of robust deletion: which OS error codes mean "already
//! gone", which are worth retrying and for how long, how a pre-check failure
//! reads, and how an error code is explained to the user. The file system
//! calls themselves are made by the caller, which hands each result in.

use vstd::prelude::*;

use crate::detect::is_sep;
use crate::dto::{DeleteEvent, DeleteReport};
use crate::model::{sat_add, CleanupItem};
use crate::text::{chars_of, decimal, push_char, push_decimal, push_str, string_of};

verus! {

/// Seconds to wait for one item's deletion before moving on.
pub const DELETE_TIMEOUT_SECS: u64 = 30;

/// Attempts at removing one entry before giving up.
pub const MAX_RETRIES: u32 = 5;

/// The first back-off delay; it doubles after every wait.
pub const INITIAL_RETRY_DELAY_MS: u64 = 10;

/// The longest back-off delay.
pub const MAX_RETRY_DELAY_MS: u64 = 500;

/// `ERROR_FILE_NOT_FOUND`.
pub const ERROR_FILE_NOT_FOUND: i32 = 2;
/// `ERROR_PATH_NOT_FOUND`.
pub const ERROR_PATH_NOT_FOUND: i32 = 3;
/// `ERROR_ACCESS_DENIED`.
pub const ERROR_ACCESS_DENIED: i32 = 5;
/// `ERROR_SHARING_VIOLATION`.
pub const ERROR_SHARING_VIOLATION: i32 = 32;
/// `ERROR_LOCK_VIOLATION`.
pub const ERROR_LOCK_VIOLATION: i32 = 33;
/// `ERROR_DIR_NOT_EMPTY`.
pub const ERROR_DIR_NOT_EMPTY: i32 = 145;
/// `ERROR_FILENAME_EXCED_RANGE`.
pub const ERROR_FILENAME_EXCED_RANGE: i32 = 206;

/// The file attribute bit of a reparse point (junction, symlink, mount point).
pub const FILE_ATTRIBUTE_REPARSE_POINT: u32 = 0x400;

/// Result of attempting to delete a single item.
pub enum DeleteOutcome {
    /// Successfully deleted.
    Success,
    /// Failed with an error message.
    Error(String),
    /// Timed out: the deletion is still running but the caller moved on.
    Timeout,
}

/// What came back from the worker that deleted one item.
pub enum WorkerReply {
    /// The worker finished, with its result.
    Finished(Result<(), String>),
    /// Nothing came back within [`DELETE_TIMEOUT_SECS`].
    TimedOut,
    /// The worker went away without answering.
    Vanished,
}

/// The outcome of one item's deletion, from what its worker replied.
pub fn settle_outcome(reply: WorkerReply) -> (r: DeleteOutcome)
    ensures
        match reply {
            WorkerReply::Finished(Ok(())) => r is Success,
            WorkerReply::Finished(Err(msg)) => (r matches DeleteOutcome::Error(m) && m@ == msg@),
            WorkerReply::TimedOut => r is Timeout,
            WorkerReply::Vanished => (r matches DeleteOutcome::Error(m) && m@ == "deletion thread panicked"@),
        },
{
    match reply {
        WorkerReply::Finished(Ok(())) => DeleteOutcome::Success,
        WorkerReply::Finished(Err(msg)) => DeleteOutcome::Error(msg),
        WorkerReply::TimedOut => DeleteOutcome::Timeout,
        WorkerReply::Vanished => DeleteOutcome::Error(String::from_str("deletion thread panicked")),
    }
}

/// The last component of a path: what follows its last `/` or `\`.
pub open spec fn last_component(s: Seq<char>) -> Seq<char>
    decreases s.len(),
{
    if s.len() == 0 {
        s
    } else if is_sep(s.last()) {
        Seq::empty()
    } else {
        last_component(s.drop_last()).push(s.last())
    }
}

/// With no separator from `k` on, and a separator (or the start) just before
/// `k`, the last component is everything from `k`.
proof fn lemma_last_component_from(s: Seq<char>, k: int)
    requires
        0 <= k <= s.len(),
        forall|i: int| k <= i < s.len() ==> !is_sep(#[trigger] s[i]),
        k > 0 ==> is_sep(s[k - 1]),
    ensures
        last_component(s) == s.skip(k),
    decreases s.len(),
{
    if s.len() == k {
        if k > 0 {
            assert(s.skip(k) =~= Seq::<char>::empty());
        } else {
            assert(s.skip(0) =~= s);
        }
    } else {
        lemma_last_component_from(s.drop_last(), k);
        assert(s.drop_last().skip(k).push(s.last()) =~= s.skip(k));
    }
}

/// The last component of `path`, for display.
pub fn short_name(path: &str) -> (r: String)
    ensures
        r@ == last_component(path@),
{
    let cs = chars_of(path);
    let mut k: usize = cs.len();
    while k > 0 && !(cs[k - 1] == '/' || cs[k - 1] == '\\')
        invariant
            k <= cs@.len(),
            forall|i: int| k <= i < cs@.len() ==> !is_sep(#[trigger] cs@[i]),
        decreases k,
    {
        k = k - 1;
    }
    let mut tail: Vec<char> = Vec::new();
    let mut i: usize = k;
    while i < cs.len()
        invariant
            k <= i <= cs@.len(),
            tail@ == cs@.subrange(k as int, i as int),
        decreases cs@.len() - i,
    {
        tail.push(cs[i]);
        proof {
            assert(cs@.subrange(k as int, i + 1) =~= cs@.subrange(k as int, i as int).push(cs@[i as int]));
        }
        i = i + 1;
    }
    proof {
        lemma_last_component_from(cs@, k as int);
        assert(cs@.subrange(k as int, cs@.len() as int) =~= cs@.skip(k as int));
    }
    string_of(&tail)
}

/// The decimal notation of a signed number.
pub open spec fn signed_decimal(n: int) -> Seq<char> {
    if n < 0 {
        seq!['-'] + decimal((-n) as nat)
    } else {
        decimal(n as nat)
    }
}

/// Appends the decimal notation of `n`.
fn push_signed(s: &mut String, n: i32)
    ensures
        final(s)@ == old(s)@ + signed_decimal(n as int),
{
    if n < 0 {
        push_char(s, '-');
        let m: i64 = -(n as i64);
        push_decimal(s, m as u64);
        proof {
            assert(final(s)@ =~= old(s)@ + signed_decimal(n as int)) by {
                assert(seq!['-'] + decimal((-n) as nat) =~= signed_decimal(n as int));
            }
        }
    } else {
        push_decimal(s, n as u64);
    }
}

/// The message a failed removal with OS error `code` shows for an entry
/// named `name`.
pub open spec fn friendly_text(code: int, name: Seq<char>) -> Seq<char> {
    if code == 2 {
        "'"@ + name + "' not found (already deleted)"@
    } else if code == 3 {
        "path not found: '"@ + name + "'"@
    } else if code == 5 {
        "access denied: '"@ + name + "' may be read-only or in use"@
    } else if code == 32 {
        "'"@ + name + "' is being used by another program"@
    } else if code == 33 {
        "'"@ + name + "' is locked by another program"@
    } else if code == 145 {
        "'"@ + name + "' is not empty (files appeared during deletion)"@
    } else if code == 206 {
        "path too long: '"@ + name + "'"@
    } else {
        "failed to delete '"@ + name + "': error "@ + signed_decimal(code)
    }
}

/// Map a Windows error code to a message a user can act on.
pub fn friendly_error_message(code: i32, path: &str) -> (r: String)
    ensures
        r@ == friendly_text(code as int, last_component(path@)),
{
    let name = short_name(path);
    let mut s = String::new();
    if code == 2 {
        push_str(&mut s, "'");
        push_str(&mut s, name.as_str());
        push_str(&mut s, "' not found (already deleted)");
    } else if code == 3 {
        push_str(&mut s, "path not found: '");
        push_str(&mut s, name.as_str());
        push_str(&mut s, "'");
    } else if code == 5 {
        push_str(&mut s, "access denied: '");
        push_str(&mut s, name.as_str());
        push_str(&mut s, "' may be read-only or in use");
    } else if code == 32 {
        push_str(&mut s, "'");
        push_str(&mut s, name.as_str());
        push_str(&mut s, "' is being used by another program");
    } else if code == 33 {
        push_str(&mut s, "'");
        push_str(&mut s, name.as_str());
        push_str(&mut s, "' is locked by another program");
    } else if code == 145 {
        push_str(&mut s, "'");
        push_str(&mut s, name.as_str());
        push_str(&mut s, "' is not empty (files appeared during deletion)");
    } else if code == 206 {
        push_str(&mut s, "path too long: '");
        push_str(&mut s, name.as_str());
        push_str(&mut s, "'");
    } else {
        push_str(&mut s, "failed to delete '");
        push_str(&mut s, name.as_str());
        push_str(&mut s, "': error ");
        push_signed(&mut s, code);
    }
    assert(s@ =~= friendly_text(code as int, last_component(path@)));
    s
}

/// Why an open-for-delete probe that failed with `code` blocks a deletion;
/// `detail` is the OS's own description of the failure.
pub open spec fn access_text(code: int, detail: Seq<char>) -> Seq<char> {
    if code == 5 {
        "access denied — may require elevated permissions"@
    } else if code == 32 {
        "file is being used by another program"@
    } else if code == 33 {
        "file is locked by another program"@
    } else {
        "cannot access for deletion: "@ + detail
    }
}

/// Quick pre-check before deleting a path.
///
/// `exists` says whether the path is still there; `open_failure` is `None`
/// when opening it for delete access succeeded (or the platform has no such
/// probe), else the OS error code and its description. A path that is gone
/// reads as "already deleted", which callers treat as success.
pub fn preflight_check(exists: bool, open_failure: &Option<(i32, String)>) -> (r: Result<(), String>)
    ensures
        !exists ==> (r matches Err(m) && m@ == "already deleted"@),
        exists ==> match *open_failure {
            None => r is Ok,
            Some((code, detail)) => (r matches Err(m) && m@ == access_text(code as int, detail@)),
        },
{
    if !exists {
        return Err(String::from_str("already deleted"));
    }
    match open_failure {
        None => Ok(()),
        Some((code, detail)) => {
            let mut s = String::new();
            if *code == 5 {
                push_str(&mut s, "access denied — may require elevated permissions");
            } else if *code == 32 {
                push_str(&mut s, "file is being used by another program");
            } else if *code == 33 {
                push_str(&mut s, "file is locked by another program");
            } else {
                push_str(&mut s, "cannot access for deletion: ");
                push_str(&mut s, detail.as_str());
            }
            assert(s@ =~= access_text(*code as int, detail@));
            Err(s)
        },
    }
}

/// Does a file-attribute word mark a reparse point?
pub fn is_reparse_attribute(attributes: u32) -> (r: bool)
    ensures
        r == (attributes & FILE_ATTRIBUTE_REPARSE_POINT != 0),
{
    attributes & FILE_ATTRIBUTE_REPARSE_POINT != 0
}

/// Where a retried removal stands: the attempt about to be made (counting
/// from zero) and the delay before the next one.
#[derive(Debug, Clone, Copy, PartialEq, Eq, Structural)]
pub struct Retry {
    pub attempt: u32,
    pub delay_ms: u64,
}

/// The next move of a retried removal.
#[derive(Debug, Clone, Copy, PartialEq, Eq, Structural)]
pub enum RetryStep {
    /// The entry is gone: count it as removed.
    Removed,
    /// Give up, with the error of the attempt just made.
    GiveUp,
    /// Ask whether the file is read-only and hand the answer to
    /// [`after_readonly_probe`].
    ProbeReadOnly,
    /// Clear the read-only attribute, then try again at once.
    ClearReadOnlyAndRetry(Retry),
    /// Wait this many milliseconds, then try again.
    WaitAndRetry(u64, Retry),
}

/// The state before the first attempt.
pub open spec fn retry_start() -> Retry {
    Retry { attempt: 0, delay_ms: INITIAL_RETRY_DELAY_MS }
}

/// A state a retried removal can be in.
pub open spec fn retry_valid(r: Retry) -> bool {
    &&& r.attempt < MAX_RETRIES
    &&& 0 < r.delay_ms <= MAX_RETRY_DELAY_MS
}

/// The doubled delay, capped.
pub open spec fn backoff(d: u64) -> u64 {
    if 2 * d > MAX_RETRY_DELAY_MS {
        MAX_RETRY_DELAY_MS
    } else {
        (2 * d) as u64
    }
}

/// After a transient failure: wait and retry, or give up on the last attempt.
pub open spec fn wait_or_give_up(r: Retry) -> RetryStep {
    if r.attempt + 1 >= MAX_RETRIES {
        RetryStep::GiveUp
    } else {
        RetryStep::WaitAndRetry(
            r.delay_ms,
            Retry { attempt: (r.attempt + 1) as u32, delay_ms: backoff(r.delay_ms) },
        )
    }
}

/// The next move after removing a file failed with `code`.
pub open spec fn file_step(r: Retry, code: int) -> RetryStep {
    if code == 2 || code == 3 {
        RetryStep::Removed
    } else if code == 5 && r.attempt == 0 {
        RetryStep::ProbeReadOnly
    } else if code == 5 || code == 32 || code == 33 {
        wait_or_give_up(r)
    } else {
        RetryStep::GiveUp
    }
}

/// The next move after removing a directory failed with `code`.
pub open spec fn dir_step(r: Retry, code: int) -> RetryStep {
    if code == 2 || code == 3 {
        RetryStep::Removed
    } else if code == 5 || code == 32 || code == 145 {
        wait_or_give_up(r)
    } else {
        RetryStep::GiveUp
    }
}

/// The next move once the read-only probe answered (`None`: the probe
/// itself failed).
pub open spec fn probe_step(r: Retry, readonly: Option<bool>) -> RetryStep {
    if readonly == Some(true) {
        RetryStep::ClearReadOnlyAndRetry(Retry { attempt: (r.attempt + 1) as u32, delay_ms: r.delay_ms })
    } else {
        wait_or_give_up(r)
    }
}

/// The state before the first removal attempt.
pub fn first_attempt() -> (r: Retry)
    ensures
        r == retry_start(),
        retry_valid(r),
{
    Retry { attempt: 0, delay_ms: INITIAL_RETRY_DELAY_MS }
}

fn wait_or_give_up_exec(r: Retry) -> (s: RetryStep)
    requires
        retry_valid(r),
    ensures
        s == wait_or_give_up(r),
{
    if r.attempt + 1 >= MAX_RETRIES {
        RetryStep::GiveUp
    } else {
        let d = r.delay_ms * 2;
        let next = if d > MAX_RETRY_DELAY_MS { MAX_RETRY_DELAY_MS } else { d };
        RetryStep::WaitAndRetry(r.delay_ms, Retry { attempt: r.attempt + 1, delay_ms: next })
    }
}

/// The next move after a removal attempt failed with OS error `code`
/// (`0` when the error carries none).
pub fn after_remove_error(is_dir: bool, r: Retry, code: i32) -> (s: RetryStep)
    requires
        retry_valid(r),
    ensures
        s == if is_dir { dir_step(r, code as int) } else { file_step(r, code as int) },
{
    if code == ERROR_FILE_NOT_FOUND || code == ERROR_PATH_NOT_FOUND {
        RetryStep::Removed
    } else if is_dir {
        if code == ERROR_ACCESS_DENIED || code == ERROR_SHARING_VIOLATION || code == ERROR_DIR_NOT_EMPTY {
            wait_or_give_up_exec(r)
        } else {
            RetryStep::GiveUp
        }
    } else if code == ERROR_ACCESS_DENIED && r.attempt == 0 {
        RetryStep::ProbeReadOnly
    } else if code == ERROR_ACCESS_DENIED || code == ERROR_SHARING_VIOLATION || code == ERROR_LOCK_VIOLATION {
        wait_or_give_up_exec(r)
    } else {
        RetryStep::GiveUp
    }
}

/// The next move once the read-only probe of a file answered.
pub fn after_readonly_probe(r: Retry, readonly: Option<bool>) -> (s: RetryStep)
    requires
        retry_valid(r),
        r.attempt == 0,
    ensures
        s == probe_step(r, readonly),
{
    match readonly {
        Some(true) => RetryStep::ClearReadOnlyAndRetry(Retry { attempt: r.attempt + 1, delay_ms: r.delay_ms }),
        _ => wait_or_give_up_exec(r),
    }
}

/// Does step `s`, taken from state `r`, keep the retry loop bounded: a
/// retry moves to the next attempt, stays a valid state, and waits no longer
/// than the cap?
pub open spec fn advances(r: Retry, s: RetryStep) -> bool {
    match s {
        RetryStep::WaitAndRetry(wait, next) => wait <= MAX_RETRY_DELAY_MS && next.attempt == r.attempt
            + 1 && retry_valid(next),
        RetryStep::ClearReadOnlyAndRetry(next) => next.attempt == r.attempt + 1 && retry_valid(next),
        _ => true,
    }
}

/// Every step of a retried removal that tries again moves to the next
/// attempt and stays a valid state: an entry is tried at most
/// [`MAX_RETRIES`] times, and no wait exceeds [`MAX_RETRY_DELAY_MS`].
pub proof fn law_retries_are_bounded(r: Retry, code: int, readonly: Option<bool>)
    requires
        retry_valid(r),
    ensures
        advances(r, file_step(r, code)),
        advances(r, dir_step(r, code)),
        r.attempt == 0 ==> advances(r, probe_step(r, readonly)),
{
}

/// A removal that finds its entry already gone counts as a success, for
/// files and directories alike, at any attempt.
pub proof fn law_missing_entry_counts_as_removed(r: Retry, code: int)
    requires
        code == ERROR_FILE_NOT_FOUND || code == ERROR_PATH_NOT_FOUND,
    ensures
        file_step(r, code) == RetryStep::Removed,
        dir_step(r, code) == RetryStep::Removed,
{
}

/// Transient failures are retried with backoff, for files and directories
/// alike, until the last attempt: a sharing violation (32) and, for a
/// directory, access denied (5) or a directory not yet empty (145), or, for
/// a file, a lock violation (33) or access denied after the first attempt,
/// lead to waiting the current delay and trying attempt `r.attempt + 1`
/// with the delay doubled (capped); on the last attempt they give up. Any
/// other failure but a missing entry gives up at once.
pub proof fn law_transient_failures_are_retried(r: Retry, code: int)
    requires
        retry_valid(r),
    ensures
        (code == 32 || code == 5 || code == 145) ==> dir_step(r, code) == (if r.attempt + 1 < MAX_RETRIES {
            RetryStep::WaitAndRetry(
                r.delay_ms,
                Retry {
                    attempt: (r.attempt + 1) as u32,
                    delay_ms: if 2 * r.delay_ms > MAX_RETRY_DELAY_MS { MAX_RETRY_DELAY_MS } else { (2 * r.delay_ms) as u64 },
                },
            )
        } else {
            RetryStep::GiveUp
        }),
        (code == 32 || code == 33 || (code == 5 && r.attempt > 0)) ==> file_step(r, code) == (if r.attempt + 1
            < MAX_RETRIES {
            RetryStep::WaitAndRetry(
                r.delay_ms,
                Retry {
                    attempt: (r.attempt + 1) as u32,
                    delay_ms: if 2 * r.delay_ms > MAX_RETRY_DELAY_MS { MAX_RETRY_DELAY_MS } else { (2 * r.delay_ms) as u64 },
                },
            )
        } else {
            RetryStep::GiveUp
        }),
        code == 5 && r.attempt == 0 ==> file_step(r, code) == RetryStep::ProbeReadOnly,
        !(code == 2 || code == 3 || code == 5 || code == 32 || code == 145) ==> dir_step(r, code)
            == RetryStep::GiveUp,
        !(code == 2 || code == 3 || code == 5 || code == 32 || code == 33) ==> file_step(r, code)
            == RetryStep::GiveUp,
        dir_step(r, 32) == file_step(r, 32),
{
}

/// The move after an attempt from `r` failed with `code`, the read-only
/// probe (when asked) answering `readonly`.
pub open spec fn step_after(is_dir: bool, r: Retry, code: int, readonly: Option<bool>) -> RetryStep {
    let s = if is_dir { dir_step(r, code) } else { file_step(r, code) };
    if s == RetryStep::ProbeReadOnly {
        probe_step(r, readonly)
    } else {
        s
    }
}

/// The state of the next attempt, when step `s` tries again.
pub open spec fn retried(s: RetryStep) -> Option<Retry> {
    match s {
        RetryStep::WaitAndRetry(_, next) => Some(next),
        RetryStep::ClearReadOnlyAndRetry(next) => Some(next),
        _ => None,
    }
}

/// Is `chain` the sequence of states of one retried removal whose attempts
/// failed with `codes` (the probe answering `answers`), each failure but
/// possibly the last followed by another attempt?
pub open spec fn is_retry_chain(is_dir: bool, chain: Seq<Retry>, codes: Seq<int>, answers: Seq<Option<bool>>) -> bool {
    &&& chain.len() == codes.len() + 1
    &&& answers.len() == codes.len()
    &&& chain[0] == retry_start()
    &&& forall|k: int| 0 <= k < codes.len() ==> retried(
        #[trigger] step_after(is_dir, chain[k], codes[k], answers[k]),
    ) == Some(chain[k + 1])
}

proof fn lemma_retry_chain_counts(is_dir: bool, chain: Seq<Retry>, codes: Seq<int>, answers: Seq<Option<bool>>, k: int)
    requires
        is_retry_chain(is_dir, chain, codes, answers),
        0 <= k <= codes.len(),
    ensures
        chain[k].attempt == k,
        retry_valid(chain[k]),
    decreases k,
{
    if k > 0 {
        lemma_retry_chain_counts(is_dir, chain, codes, answers, k - 1);
        let r = chain[k - 1];
        let s = step_after(is_dir, r, codes[k - 1], answers[k - 1]);
        law_retries_are_bounded(r, codes[k - 1], answers[k - 1]);
        assert(retried(s) == Some(chain[k]));
        assert(advances(r, s));
    }
}

/// However the attempts fail, a retried removal of one entry makes at most
/// [`MAX_RETRIES`] attempts: any chain of failed attempts that each led to
/// another one is shorter than that.
pub proof fn law_removal_attempts_are_bounded(
    is_dir: bool,
    chain: Seq<Retry>,
    codes: Seq<int>,
    answers: Seq<Option<bool>>,
)
    requires
        is_retry_chain(is_dir, chain, codes, answers),
    ensures
        chain.len() <= MAX_RETRIES,
{
    lemma_retry_chain_counts(is_dir, chain, codes, answers, codes.len() as int);
}

/// Waits double from [`INITIAL_RETRY_DELAY_MS`]: the wait before attempt
/// `k + 1` is `10 * 2^k` milliseconds.
pub proof fn law_backoff_doubles()
    ensures
        backoff(10) == 20,
        backoff(20) == 40,
        backoff(40) == 80,
        backoff(80) == 160,
        forall|d: u64| 0 < d <= MAX_RETRY_DELAY_MS ==> 0 < #[trigger] backoff(d) <= MAX_RETRY_DELAY_MS,
{
}

/// Whether a requested deletion may proceed: the id must resolve to a
/// finding of the last scan, and the finding must lie inside the allowed
/// roots (`within`).
pub fn gate_item(item: &Option<CleanupItem>, within: bool) -> (r: Result<(), String>)
    ensures
        item is None ==> (r matches Err(m) && m@ == "item not found in last scan"@),
        item is Some && !within ==> (r matches Err(m) && m@ == "outside allowed roots"@),
        item is Some && within ==> r is Ok,
{
    match item {
        None => Err(String::from_str("item not found in last scan")),
        Some(_) => {
            if within {
                Ok(())
            } else {
                Err(String::from_str("outside allowed roots"))
            }
        },
    }
}

/// The running totals of a deletion pass.
pub struct DeleteTally {
    deleted: u32,
    reclaimed: u64,
    skipped: Vec<String>,
}

impl DeleteTally {
    /// How many items were deleted.
    pub closed spec fn deleted_count(&self) -> nat {
        self.deleted as nat
    }

    /// The bytes reclaimed (saturating).
    pub closed spec fn reclaimed_bytes(&self) -> u64 {
        self.reclaimed
    }

    /// The paths of the skipped items, in order.
    pub closed spec fn skipped_paths(&self) -> Seq<Seq<char>> {
        self.skipped.deep_view()
    }

    /// Nothing processed yet.
    pub fn new() -> (r: Self)
        ensures
            r.deleted_count() == 0,
            r.reclaimed_bytes() == 0,
            r.skipped_paths() == Seq::<Seq<char>>::empty(),
    {
        let r = DeleteTally { deleted: 0, reclaimed: 0, skipped: Vec::new() };
        assert(r.skipped.deep_view() =~= Seq::<Seq<char>>::empty());
        r
    }

    /// Count a deleted item (an item that was already gone counts too);
    /// returns its event.
    pub fn record_deleted(&mut self, id: String, path: String, size_bytes: u64) -> (e: DeleteEvent)
        requires
            old(self).deleted_count() < u32::MAX,
        ensures
            final(self).deleted_count() == old(self).deleted_count() + 1,
            final(self).reclaimed_bytes() == sat_add(old(self).reclaimed_bytes(), size_bytes),
            final(self).skipped_paths() == old(self).skipped_paths(),
            e == (DeleteEvent::Deleted { id, path, size_bytes }),
    {
        self.deleted = self.deleted + 1;
        self.reclaimed = self.reclaimed.saturating_add(size_bytes);
        DeleteEvent::Deleted { id, path, size_bytes }
    }

    /// Count a skipped item with its reason; returns its event.
    pub fn record_skipped(&mut self, id: String, path: String, reason: String) -> (e: DeleteEvent)
        ensures
            final(self).deleted_count() == old(self).deleted_count(),
            final(self).reclaimed_bytes() == old(self).reclaimed_bytes(),
            final(self).skipped_paths() == old(self).skipped_paths().push(path@),
            e == (DeleteEvent::Skipped { id, path, reason }),
    {
        let ghost before = self.skipped.deep_view();
        self.skipped.push(path.clone());
        assert(self.skipped.deep_view() =~= before.push(path@));
        DeleteEvent::Skipped { id, path, reason }
    }

    /// The closing event and the report of the pass.
    pub fn finish(self) -> (r: (DeleteEvent, DeleteReport))
        requires
            self.skipped_paths().len() <= u32::MAX,
        ensures
            r.0 == (DeleteEvent::Finished {
                deleted: self.deleted_count() as u32,
                reclaimed_bytes: self.reclaimed_bytes(),
                skipped: self.skipped_paths().len() as u32,
            }),
            r.1.deleted == self.deleted_count(),
            r.1.reclaimed_bytes == self.reclaimed_bytes(),
            r.1.skipped.deep_view() == self.skipped_paths(),
    {
        let n = self.skipped.len() as u32;
        let e = DeleteEvent::Finished { deleted: self.deleted, reclaimed_bytes: self.reclaimed, skipped: n };
        (e, DeleteReport { deleted: self.deleted, reclaimed_bytes: self.reclaimed, skipped: self.skipped })
    }
}

/// Why an item was left when the deletion pass was cancelled.
pub const CANCELLED_REASON: &'static str = "cancelled before deletion";

/// What to do with one requested deletion, before touching it.
pub enum RemovalStep {
    /// Leave it, for this reason.
    Skip(String),
    /// It is gone already: count it as deleted.
    AlreadyGone,
    /// Go ahead and remove it.
    Remove,
}

/// The next step for a requested deletion: left because the pass was
/// cancelled, refused by the guardrail ([`gate_item`]), already gone, blocked
/// by the open-for-delete probe ([`access_text`]), or to be removed.
pub fn next_removal_step(
    cancelled: bool,
    item: &Option<CleanupItem>,
    within: bool,
    exists: bool,
    open_failure: &Option<(i32, String)>,
) -> (r: RemovalStep)
    ensures
        cancelled ==> (r matches RemovalStep::Skip(m) && m@ == CANCELLED_REASON@),
        !cancelled && item is None ==> (r matches RemovalStep::Skip(m) && m@ == "item not found in last scan"@),
        !cancelled && item is Some && !within ==> (r matches RemovalStep::Skip(m) && m@ == "outside allowed roots"@),
        !cancelled && item is Some && within && !exists ==> r is AlreadyGone,
        !cancelled && item is Some && within && exists ==> match *open_failure {
            None => r is Remove,
            Some((code, detail)) => (r matches RemovalStep::Skip(m) && m@ == access_text(code as int, detail@)),
        },
{
    if cancelled {
        return RemovalStep::Skip(String::from_str(CANCELLED_REASON));
    }
    match gate_item(item, within) {
        Err(reason) => RemovalStep::Skip(reason),
        Ok(()) => match preflight_check(exists, open_failure) {
            Ok(()) => RemovalStep::Remove,
            Err(reason) => {
                if !exists {
                    RemovalStep::AlreadyGone
                } else {
                    RemovalStep::Skip(reason)
                }
            },
        },
    }
}

/// Why a deletion that outlived [`DELETE_TIMEOUT_SECS`] was skipped.
pub const TIMEOUT_REASON: &'static str = "deletion timed out after 30s";

impl DeleteTally {
    /// Count the outcome of removing an item: a success is a deletion, an
    /// error or a timeout a skip with its reason.
    pub fn record_outcome(&mut self, id: String, path: String, size_bytes: u64, outcome: DeleteOutcome) -> (e: DeleteEvent)
        requires
            old(self).deleted_count() < u32::MAX,
        ensures
            outcome is Success ==> final(self).deleted_count() == old(self).deleted_count() + 1
                && final(self).reclaimed_bytes() == sat_add(old(self).reclaimed_bytes(), size_bytes)
                && final(self).skipped_paths() == old(self).skipped_paths() && e == (DeleteEvent::Deleted {
                id,
                path,
                size_bytes,
            }),
            !(outcome is Success) ==> final(self).deleted_count() == old(self).deleted_count()
                && final(self).reclaimed_bytes() == old(self).reclaimed_bytes() && final(self).skipped_paths()
                == old(self).skipped_paths().push(path@) && (e matches DeleteEvent::Skipped {
                id: i,
                path: p,
                reason,
            } && i == id && p == path && reason@ == match outcome {
                DeleteOutcome::Error(m) => m@,
                _ => TIMEOUT_REASON@,
            }),
    {
        match outcome {
            DeleteOutcome::Success => self.record_deleted(id, path, size_bytes),
            DeleteOutcome::Error(m) => self.record_skipped(id, path, m),
            DeleteOutcome::Timeout => self.record_skipped(id, path, String::from_str(TIMEOUT_REASON)),
        }
    }
}

} // verus!
