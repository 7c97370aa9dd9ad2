//! The scan session that lets a preview and a later delete, in separate
//! invocations, agree on what the user saw: the report, an id → finding
//! index, the roots deletions must stay inside, and a one-shot confirm token.

use vstd::prelude::*;

use sha2::Digest;
use vstd::utf8::encode_utf8;

use crate::dto::DeletePlan;
use crate::model::{all_items, CleanupItem, ScanReport};
use crate::schedule::config::now_secs;
use crate::text::{chars_of, str_eq};

verus! {

/// The on-disk format version of a session.
pub const SESSION_VERSION: u32 = 1;

/// What a list of findings looks like when indexed by id: a later finding
/// with the same id replaces an earlier one.
pub open spec fn index_of(items: Seq<CleanupItem>) -> Map<Seq<char>, CleanupItem>
    decreases items.len(),
{
    if items.len() == 0 {
        Map::empty()
    } else {
        index_of(items.drop_last()).insert(items.last().id@, items.last())
    }
}

/// Findings looked up by their stable id.
pub struct ItemIndex {
    entries: Vec<CleanupItem>,
}

impl View for ItemIndex {
    type V = Map<Seq<char>, CleanupItem>;

    closed spec fn view(&self) -> Map<Seq<char>, CleanupItem> {
        index_of(self.entries@)
    }
}

/// When no finding after position `j` carries `k`, the index of the whole
/// list agrees on `k` with the index of its first `j` findings.
proof fn lemma_index_of_tail_free(s: Seq<CleanupItem>, k: Seq<char>, j: int)
    requires
        0 <= j <= s.len(),
        forall|i: int| j <= i < s.len() ==> #[trigger] s[i].id@ != k,
    ensures
        index_of(s).contains_key(k) == index_of(s.take(j)).contains_key(k),
        index_of(s).contains_key(k) ==> index_of(s)[k] == index_of(s.take(j))[k],
    decreases s.len(),
{
    if s.len() == j {
        assert(s.take(j) =~= s);
    } else {
        assert(s.drop_last().take(j) =~= s.take(j));
        assert(s[s.len() - 1].id@ != k);
        lemma_index_of_tail_free(s.drop_last(), k, j);
    }
}

/// The finding at `p` is the one the index keeps for its id when no later
/// finding carries the same id.
proof fn lemma_index_of_last_match(s: Seq<CleanupItem>, p: int)
    requires
        0 <= p < s.len(),
        forall|i: int| p < i < s.len() ==> #[trigger] s[i].id@ != s[p].id@,
    ensures
        index_of(s).contains_key(s[p].id@),
        index_of(s)[s[p].id@] == s[p],
{
    lemma_index_of_tail_free(s, s[p].id@, p + 1);
    assert(s.take(p + 1).drop_last() =~= s.take(p));
}

/// Every finding of an indexed list resolves by its id: to itself when no
/// later finding carries the same id, else to the last one that does.
pub proof fn law_every_finding_resolves(items: Seq<CleanupItem>, i: int)
    requires
        0 <= i < items.len(),
    ensures
        index_of(items).contains_key(items[i].id@),
        exists|p: int|
            #![trigger items[p]]
            i <= p < items.len() && items[p].id@ == items[i].id@ && index_of(items)[items[i].id@] == items[p]
                && forall|q: int| p < q < items.len() ==> #[trigger] items[q].id@ != items[i].id@,
    decreases items.len(),
{
    let n = items.len() - 1;
    if i == n || items[n].id@ == items[i].id@ {
        assert(index_of(items)[items[i].id@] == items[n]);
    } else {
        law_every_finding_resolves(items.drop_last(), i);
        let p = choose|p: int|
            #![trigger items.drop_last()[p]]
            i <= p < items.drop_last().len() && items.drop_last()[p].id@ == items.drop_last()[i].id@
                && index_of(items.drop_last())[items.drop_last()[i].id@] == items.drop_last()[p]
                && forall|q: int| p < q < items.drop_last().len() ==> #[trigger] items.drop_last()[q].id@
                    != items.drop_last()[i].id@;
        assert(items[p] == items.drop_last()[p]);
        assert forall|q: int| p < q < items.len() implies #[trigger] items[q].id@ != items[i].id@ by {
            if q < n {
                assert(items[q] == items.drop_last()[q]);
            }
        }
    }
}

impl ItemIndex {
    /// An empty index.
    pub fn new() -> (r: Self)
        ensures
            r@ == Map::<Seq<char>, CleanupItem>::empty(),
    {
        ItemIndex { entries: Vec::new() }
    }

    /// An index of `items`, later findings winning over earlier ones with the
    /// same id.
    pub fn from_entries(items: Vec<CleanupItem>) -> (r: Self)
        ensures
            r@ == index_of(items@),
    {
        ItemIndex { entries: items }
    }

    /// The indexed findings, in insertion order (an id may repeat; the last
    /// occurrence is the one the index holds).
    pub fn entries(&self) -> (r: &Vec<CleanupItem>)
        ensures
            index_of(r@) == self@,
    {
        &self.entries
    }

    /// Record `item` under its id, replacing any earlier finding with that id.
    pub fn insert(&mut self, item: CleanupItem)
        ensures
            final(self)@ == old(self)@.insert(item.id@, item),
    {
        let ghost before = self.entries@;
        self.entries.push(item);
        proof {
            assert(self.entries@.drop_last() =~= before);
        }
    }

    /// Forget every finding.
    pub fn clear(&mut self)
        ensures
            final(self)@ == Map::<Seq<char>, CleanupItem>::empty(),
    {
        self.entries = Vec::new();
    }

    /// The finding recorded under `id`, if any.
    pub fn get(&self, id: &str) -> (r: Option<&CleanupItem>)
        ensures
            match r {
                Some(v) => self@.contains_key(id@) && *v == self@[id@],
                None => !self@.contains_key(id@),
            },
    {
        let mut j: usize = self.entries.len();
        while j > 0
            invariant
                j <= self.entries@.len(),
                forall|i: int| j <= i < self.entries@.len() ==> #[trigger] self.entries@[i].id@ != id@,
            decreases j,
        {
            if str_eq(self.entries[j - 1].id.as_str(), id) {
                proof {
                    lemma_index_of_last_match(self.entries@, j - 1);
                }
                return Some(&self.entries[j - 1]);
            }
            j = j - 1;
        }
        proof {
            lemma_index_of_tail_free(self.entries@, id@, 0);
            assert(self.entries@.take(0) =~= Seq::<CleanupItem>::empty());
        }
        None
    }

    /// An index of every finding of `report`, group by group.
    pub fn of_report(report: &ScanReport) -> (r: Self)
        ensures
            r@ == index_of(all_items(report.groups@)),
    {
        let mut entries: Vec<CleanupItem> = Vec::new();
        let mut g: usize = 0;
        while g < report.groups.len()
            invariant
                g <= report.groups@.len(),
                entries@ == all_items(report.groups@.take(g as int)),
            decreases report.groups@.len() - g,
        {
            let items = &report.groups[g].items;
            let ghost start = entries@;
            let mut i: usize = 0;
            while i < items.len()
                invariant
                    i <= items@.len(),
                    items@ == report.groups@[g as int].items@,
                    entries@ == start + items@.take(i as int),
                decreases items@.len() - i,
            {
                entries.push(items[i].clone());
                proof {
                    assert(items@.take(i + 1) =~= items@.take(i as int).push(items@[i as int]));
                }
                i = i + 1;
            }
            proof {
                assert(items@.take(i as int) =~= items@);
                assert(report.groups@.take(g + 1).drop_last() =~= report.groups@.take(g as int));
            }
            g = g + 1;
        }
        proof {
            assert(report.groups@.take(g as int) =~= report.groups@);
        }
        ItemIndex { entries }
    }
}

/// How often `x` occurs in `s`.
pub open spec fn count_of(s: Seq<Seq<char>>, x: Seq<char>) -> nat
    decreases s.len(),
{
    if s.len() == 0 {
        0
    } else {
        count_of(s.drop_last(), x) + if s.last() == x { 1nat } else { 0nat }
    }
}

/// `a` and `b` hold the same ids with the same multiplicities, in any order.
pub open spec fn same_ids(a: Seq<Seq<char>>, b: Seq<Seq<char>>) -> bool {
    forall|x: Seq<char>| #[trigger] count_of(a, x) == count_of(b, x)
}

/// An id that occurs at all occurs at some position.
proof fn lemma_count_witness(s: Seq<Seq<char>>, x: Seq<char>)
    requires
        count_of(s, x) > 0,
    ensures
        exists|i: int| 0 <= i < s.len() && s[i] == x,
    decreases s.len(),
{
    if s.last() != x {
        lemma_count_witness(s.drop_last(), x);
        let i = choose|i: int| 0 <= i < s.drop_last().len() && s.drop_last()[i] == x;
        assert(s[i] == x);
    } else {
        assert(s[s.len() - 1] == x);
    }
}

/// How often `x` occurs among the ids of `v`.
pub fn count_in(v: &Vec<String>, x: &str) -> (r: usize)
    ensures
        r == count_of(v.deep_view(), x@),
{
    let mut n: usize = 0;
    let mut i: usize = 0;
    while i < v.len()
        invariant
            i <= v@.len(),
            n <= i,
            n == count_of(v.deep_view().take(i as int), x@),
        decreases v@.len() - i,
    {
        proof {
            assert(v.deep_view().take(i + 1).drop_last() =~= v.deep_view().take(i as int));
        }
        if str_eq(v[i].as_str(), x) {
            n = n + 1;
        }
        i = i + 1;
    }
    proof {
        assert(v.deep_view().take(i as int) =~= v.deep_view());
    }
    n
}

/// Do `a` and `b` hold the same ids with the same multiplicities?
pub fn same_id_multiset(a: &Vec<String>, b: &Vec<String>) -> (r: bool)
    ensures
        r == same_ids(a.deep_view(), b.deep_view()),
{
    let mut i: usize = 0;
    while i < a.len()
        invariant
            i <= a@.len(),
            forall|j: int| 0 <= j < i ==> count_of(a.deep_view(), #[trigger] a.deep_view()[j])
                == count_of(b.deep_view(), a.deep_view()[j]),
        decreases a@.len() - i,
    {
        if count_in(a, a[i].as_str()) != count_in(b, a[i].as_str()) {
            return false;
        }
        i = i + 1;
    }
    let mut j: usize = 0;
    while j < b.len()
        invariant
            j <= b@.len(),
            forall|k: int| 0 <= k < j ==> count_of(a.deep_view(), #[trigger] b.deep_view()[k])
                == count_of(b.deep_view(), b.deep_view()[k]),
        decreases b@.len() - j,
    {
        if count_in(a, b[j].as_str()) != count_in(b, b[j].as_str()) {
            return false;
        }
        j = j + 1;
    }
    proof {
        assert forall|x: Seq<char>| #[trigger] count_of(a.deep_view(), x) == count_of(b.deep_view(), x) by {
            if count_of(a.deep_view(), x) > 0 {
                lemma_count_witness(a.deep_view(), x);
            } else if count_of(b.deep_view(), x) > 0 {
                lemma_count_witness(b.deep_view(), x);
            }
        }
    }
    true
}

/// A session file: the last scan and what a pending confirmation covers.
pub struct ScanSession {
    pub version: u32,
    pub created_at_secs: u64,
    /// Deletions must resolve inside one of these roots.
    pub allowed_roots: Vec<String>,
    pub report: ScanReport,
    /// id → finding, so a delete never trusts a path from its caller.
    pub items: ItemIndex,
    /// One-shot confirm token from the last successful preview.
    pub pending_token: Option<String>,
    /// The ids that the pending token covers (order-insensitive).
    pub pending_ids: Vec<String>,
}

impl ScanSession {
    /// A fresh session for `report`, created now.
    pub fn from_report(report: ScanReport, roots: &Vec<String>) -> (r: Self)
        ensures
            r.version == SESSION_VERSION,
            r.allowed_roots@ == roots@,
            r.report == report,
            r.items@ == index_of(all_items(report.groups@)),
            r.pending_token is None,
            r.pending_ids@.len() == 0,
    {
        let now = now_secs();
        Self::from_report_at(report, roots, now)
    }

    /// A fresh session for `report`, created at `created_at_secs`.
    pub fn from_report_at(report: ScanReport, roots: &Vec<String>, created_at_secs: u64) -> (r: Self)
        ensures
            r.version == SESSION_VERSION,
            r.created_at_secs == created_at_secs,
            r.allowed_roots@ == roots@,
            r.report == report,
            r.items@ == index_of(all_items(report.groups@)),
            r.pending_token is None,
            r.pending_ids@.len() == 0,
    {
        let items = ItemIndex::of_report(&report);
        let mut allowed_roots: Vec<String> = Vec::new();
        let mut i: usize = 0;
        while i < roots.len()
            invariant
                i <= roots@.len(),
                allowed_roots@ == roots@.take(i as int),
            decreases roots@.len() - i,
        {
            allowed_roots.push(roots[i].clone());
            proof {
                assert(roots@.take(i + 1) =~= roots@.take(i as int).push(roots@[i as int]));
            }
            i = i + 1;
        }
        proof {
            assert(roots@.take(i as int) =~= roots@);
        }
        ScanSession {
            version: SESSION_VERSION,
            created_at_secs,
            allowed_roots,
            report,
            items,
            pending_token: None,
            pending_ids: Vec::new(),
        }
    }

    /// Remember that a preview of `ids` produced `token`.
    pub fn remember_preview(&mut self, token: String, ids: Vec<String>)
        ensures
            final(self).pending_token == Some(token),
            final(self).pending_ids == ids,
            final(self).version == old(self).version,
            final(self).created_at_secs == old(self).created_at_secs,
            final(self).allowed_roots == old(self).allowed_roots,
            final(self).report == old(self).report,
            final(self).items == old(self).items,
    {
        self.pending_token = Some(token);
        self.pending_ids = ids;
    }

    /// Spend the pending token: after this no token is accepted until the
    /// next preview.
    pub fn consume_token(&mut self)
        ensures
            final(self).pending_token is None,
            final(self).pending_ids@.len() == 0,
            final(self).version == old(self).version,
            final(self).created_at_secs == old(self).created_at_secs,
            final(self).allowed_roots == old(self).allowed_roots,
            final(self).report == old(self).report,
            final(self).items == old(self).items,
    {
        self.pending_token = None;
        self.pending_ids = Vec::new();
    }
}

/// The view of an optional string.
pub open spec fn token_view(t: Option<String>) -> Option<Seq<char>> {
    match t {
        Some(s) => Some(s@),
        None => None,
    }
}

/// Does a session whose pending token is `pending` for `pending_ids` accept
/// `token` for `ids`?
pub open spec fn token_accepts(
    pending: Option<Seq<char>>,
    pending_ids: Seq<Seq<char>>,
    ids: Seq<Seq<char>>,
    token: Seq<char>,
) -> bool {
    &&& pending == Some(token)
    &&& same_ids(pending_ids, ids)
}

/// Does `token` match a prior preview of the same ids (in any order) against
/// this session?
pub fn verify_token(session: &ScanSession, ids: &Vec<String>, token: &str) -> (r: bool)
    ensures
        r == token_accepts(
            token_view(session.pending_token),
            session.pending_ids.deep_view(),
            ids.deep_view(),
            token@,
        ),
{
    match &session.pending_token {
        None => false,
        Some(pending) => {
            if !str_eq(pending.as_str(), token) {
                return false;
            }
            same_id_multiset(&session.pending_ids, ids)
        },
    }
}

/// Lexicographic order of character sequences (for `String`s this is the
/// order of their UTF-8 bytes).
pub open spec fn chars_lt(a: Seq<char>, b: Seq<char>) -> bool
    decreases a.len(),
{
    if a.len() == 0 {
        b.len() > 0
    } else if b.len() == 0 {
        false
    } else if a[0] != b[0] {
        (a[0] as int) < (b[0] as int)
    } else {
        chars_lt(a.drop_first(), b.drop_first())
    }
}

/// `a.skip(i) < b.skip(i)`, compared from position `i` on.
fn chars_lt_from(a: &Vec<char>, b: &Vec<char>, i: usize) -> (r: bool)
    requires
        i <= a@.len(),
        i <= b@.len(),
    ensures
        r == chars_lt(a@.skip(i as int), b@.skip(i as int)),
    decreases a@.len() - i,
{
    if i == a.len() {
        i < b.len()
    } else if i == b.len() {
        false
    } else if a[i] != b[i] {
        a[i] < b[i]
    } else {
        proof {
            assert(a@.skip(i as int).drop_first() =~= a@.skip(i + 1));
            assert(b@.skip(i as int).drop_first() =~= b@.skip(i + 1));
        }
        chars_lt_from(a, b, i + 1)
    }
}

/// Does `a` sort before `b`?
fn str_lt(a: &str, b: &str) -> (r: bool)
    ensures
        r == chars_lt(a@, b@),
{
    let x = chars_of(a);
    let y = chars_of(b);
    proof {
        assert(x@.skip(0) =~= x@);
        assert(y@.skip(0) =~= y@);
    }
    chars_lt_from(&x, &y, 0)
}

/// `x` inserted into `s` before the first element it sorts before.
pub open spec fn insert_ordered(x: Seq<char>, s: Seq<Seq<char>>) -> Seq<Seq<char>>
    decreases s.len(),
{
    if s.len() == 0 {
        seq![x]
    } else if chars_lt(x, s[0]) {
        seq![x] + s
    } else {
        seq![s[0]] + insert_ordered(x, s.drop_first())
    }
}

/// `s` in ascending order: each element in turn inserted into the sorted
/// elements before it.
pub open spec fn sorted_ids(s: Seq<Seq<char>>) -> Seq<Seq<char>>
    decreases s.len(),
{
    if s.len() == 0 {
        Seq::empty()
    } else {
        insert_ordered(s.last(), sorted_ids(s.drop_last()))
    }
}

/// Inserting at the first element that `x` sorts before.
proof fn lemma_insert_at(x: Seq<char>, s: Seq<Seq<char>>, p: int)
    requires
        0 <= p <= s.len(),
        forall|j: int| 0 <= j < p ==> !chars_lt(x, #[trigger] s[j]),
        p < s.len() ==> chars_lt(x, s[p]),
    ensures
        insert_ordered(x, s) == s.take(p) + seq![x] + s.skip(p),
    decreases p,
{
    if p == 0 {
        assert(s.take(0) + seq![x] + s.skip(0) =~= seq![x] + s);
    } else {
        assert(!chars_lt(x, s[0]));
        assert forall|j: int| 0 <= j < p - 1 implies !chars_lt(x, #[trigger] s.drop_first()[j]) by {
            assert(s.drop_first()[j] == s[j + 1]);
        }
        lemma_insert_at(x, s.drop_first(), p - 1);
        assert(seq![s[0]] + (s.drop_first().take(p - 1) + seq![x] + s.drop_first().skip(p - 1))
            =~= s.take(p) + seq![x] + s.skip(p));
    }
}

/// The ids of `ids` in ascending order.
pub fn sort_ids(ids: &Vec<String>) -> (r: Vec<String>)
    ensures
        r.deep_view() == sorted_ids(ids.deep_view()),
{
    let mut out: Vec<String> = Vec::new();
    let mut i: usize = 0;
    while i < ids.len()
        invariant
            i <= ids@.len(),
            out.deep_view() == sorted_ids(ids.deep_view().take(i as int)),
        decreases ids@.len() - i,
    {
        let x = &ids[i];
        let mut p: usize = 0;
        while p < out.len() && !str_lt(x.as_str(), out[p].as_str())
            invariant
                p <= out@.len(),
                forall|j: int| 0 <= j < p ==> !chars_lt(x@, #[trigger] out.deep_view()[j]),
            decreases out@.len() - p,
        {
            p = p + 1;
        }
        let ghost before = out.deep_view();
        proof {
            lemma_insert_at(x@, before, p as int);
            assert(ids.deep_view().take(i + 1).drop_last() =~= ids.deep_view().take(i as int));
        }
        out.insert(p, x.clone());
        proof {
            assert(out.deep_view() =~= before.take(p as int) + seq![x@] + before.skip(p as int));
        }
        i = i + 1;
    }
    proof {
        assert(ids.deep_view().take(i as int) =~= ids.deep_view());
    }
    out
}

/// `chars_lt` is a strict total order: irreflexive, transitive, and any two
/// different sequences are ordered one way.
proof fn lemma_chars_lt_order(a: Seq<char>, b: Seq<char>, c: Seq<char>)
    ensures
        !chars_lt(a, a),
        chars_lt(a, b) ==> !chars_lt(b, a),
        chars_lt(a, b) && chars_lt(b, c) ==> chars_lt(a, c),
        a != b ==> chars_lt(a, b) || chars_lt(b, a),
    decreases a.len(),
{
    if a.len() > 0 && b.len() > 0 && c.len() > 0 {
        lemma_chars_lt_order(a.drop_first(), b.drop_first(), c.drop_first());
        if a != b && a[0] == b[0] {
            assert(a.drop_first() != b.drop_first()) by {
                if a.drop_first() == b.drop_first() {
                    assert forall|i: int| 0 <= i < a.len() implies a[i] == b[i] by {
                        if i > 0 {
                            assert(a[i] == a.drop_first()[i - 1]);
                            assert(b[i] == b.drop_first()[i - 1]);
                        }
                    }
                    assert(a =~= b);
                }
            }
        }
    } else if a.len() > 0 && b.len() > 0 {
        lemma_chars_lt_order(a.drop_first(), b.drop_first(), b.drop_first());
        if a != b && a[0] == b[0] {
            assert(a.drop_first() != b.drop_first()) by {
                if a.drop_first() == b.drop_first() {
                    assert forall|i: int| 0 <= i < a.len() implies a[i] == b[i] by {
                        if i > 0 {
                            assert(a[i] == a.drop_first()[i - 1]);
                            assert(b[i] == b.drop_first()[i - 1]);
                        }
                    }
                    assert(a =~= b);
                }
            }
        }
    } else if a.len() > 0 {
        lemma_chars_lt_order(a.drop_first(), a.drop_first(), a.drop_first());
    } else {
        if a != b {
            assert(b.len() > 0) by {
                if b.len() == 0 {
                    assert(a =~= b);
                }
            }
        }
    }
}

/// Each element no greater than the ones after it.
pub open spec fn ids_sorted(s: Seq<Seq<char>>) -> bool {
    forall|i: int, j: int| 0 <= i < j < s.len() ==> !chars_lt(#[trigger] s[j], #[trigger] s[i])
}

/// Counting over a concatenation.
proof fn lemma_count_concat(a: Seq<Seq<char>>, b: Seq<Seq<char>>, x: Seq<char>)
    ensures
        count_of(a + b, x) == count_of(a, x) + count_of(b, x),
    decreases b.len(),
{
    if b.len() == 0 {
        assert(a + b =~= a);
    } else {
        lemma_count_concat(a, b.drop_last(), x);
        assert((a + b).drop_last() =~= a + b.drop_last());
    }
}

/// Counting the first element apart.
proof fn lemma_count_first(s: Seq<Seq<char>>, x: Seq<char>)
    requires
        s.len() > 0,
    ensures
        count_of(s, x) == count_of(s.drop_first(), x) + if s[0] == x { 1nat } else { 0nat },
{
    let one = seq![s[0]];
    assert(one.drop_last() =~= Seq::<Seq<char>>::empty());
    assert(count_of(one, x) == count_of(Seq::<Seq<char>>::empty(), x) + if one.last() == x { 1nat } else { 0nat });
    lemma_count_concat(one, s.drop_first(), x);
    assert(one + s.drop_first() =~= s);
}

/// Inserting keeps the order and adds one occurrence of `x`.
proof fn lemma_insert_ordered(x: Seq<char>, s: Seq<Seq<char>>)
    requires
        ids_sorted(s),
    ensures
        ids_sorted(insert_ordered(x, s)),
        forall|y: Seq<char>| #[trigger] count_of(insert_ordered(x, s), y) == count_of(s, y) + if y == x {
            1nat
        } else {
            0nat
        },
        insert_ordered(x, s).len() == s.len() + 1,
    decreases s.len(),
{
    let r = insert_ordered(x, s);
    if s.len() == 0 {
        assert forall|y: Seq<char>| #[trigger] count_of(r, y) == count_of(s, y) + if y == x { 1nat } else { 0nat } by {
            assert(r.drop_last() =~= s);
        }
    } else if chars_lt(x, s[0]) {
        assert forall|y: Seq<char>| #[trigger] count_of(r, y) == count_of(s, y) + if y == x { 1nat } else { 0nat } by {
            lemma_count_first(r, y);
            assert(r.drop_first() =~= s);
        }
        assert forall|i: int, j: int| 0 <= i < j < r.len() implies !chars_lt(#[trigger] r[j], #[trigger] r[i]) by {
            if i == 0 {
                lemma_chars_lt_order(x, s[0], s[j - 1]);
                lemma_chars_lt_order(s[j - 1], x, s[0]);
                if j - 1 > 0 {
                    assert(!chars_lt(s[j - 1], s[0]));
                }
            } else {
                assert(r[i] == s[i - 1] && r[j] == s[j - 1]);
            }
        }
    } else {
        let t = s.drop_first();
        assert(ids_sorted(t)) by {
            assert forall|i: int, j: int| 0 <= i < j < t.len() implies !chars_lt(#[trigger] t[j], #[trigger] t[i]) by {
                assert(t[i] == s[i + 1] && t[j] == s[j + 1]);
            }
        }
        lemma_insert_ordered(x, t);
        let rt = insert_ordered(x, t);
        assert(r == seq![s[0]] + rt);
        assert forall|y: Seq<char>| #[trigger] count_of(r, y) == count_of(s, y) + if y == x { 1nat } else { 0nat } by {
            lemma_count_first(r, y);
            lemma_count_first(s, y);
            assert(r.drop_first() =~= rt);
            assert(count_of(rt, y) == count_of(t, y) + if y == x { 1nat } else { 0nat });
        }
        assert forall|i: int, j: int| 0 <= i < j < r.len() implies !chars_lt(#[trigger] r[j], #[trigger] r[i]) by {
            if i == 0 {
                // rt[j - 1] is x or an element of t, and neither sorts before s[0].
                let v = rt[j - 1];
                assert(r[j] == v);
                assert(count_of(rt, v) > 0) by {
                    lemma_count_witness_rev(rt, j - 1);
                }
                if v == x {
                    assert(!chars_lt(x, s[0]));
                } else {
                    assert(count_of(t, v) > 0);
                    lemma_count_witness(t, v);
                    let k = choose|k: int| 0 <= k < t.len() && t[k] == v;
                    assert(s[k + 1] == v);
                    assert(!chars_lt(s[k + 1], s[0]));
                }
            } else {
                assert(r[i] == rt[i - 1] && r[j] == rt[j - 1]);
            }
        }
    }
}

/// An element present at position `i` is counted.
proof fn lemma_count_witness_rev(s: Seq<Seq<char>>, i: int)
    requires
        0 <= i < s.len(),
    ensures
        count_of(s, s[i]) > 0,
    decreases s.len(),
{
    if i < s.len() - 1 {
        lemma_count_witness_rev(s.drop_last(), i);
        assert(s.drop_last()[i] == s[i]);
    }
}

/// `sorted_ids` sorts: the result is in order and holds each id as often
/// as the input does.
pub proof fn lemma_sorted_ids(s: Seq<Seq<char>>)
    ensures
        ids_sorted(sorted_ids(s)),
        forall|y: Seq<char>| #[trigger] count_of(sorted_ids(s), y) == count_of(s, y),
        sorted_ids(s).len() == s.len(),
    decreases s.len(),
{
    if s.len() > 0 {
        lemma_sorted_ids(s.drop_last());
        lemma_insert_ordered(s.last(), sorted_ids(s.drop_last()));
    }
}

/// Two sorted sequences holding the same ids as often are equal.
proof fn lemma_sorted_unique(a: Seq<Seq<char>>, b: Seq<Seq<char>>)
    requires
        ids_sorted(a),
        ids_sorted(b),
        same_ids(a, b),
    ensures
        a == b,
    decreases a.len(),
{
    if a.len() == 0 {
        if b.len() > 0 {
            lemma_count_witness_rev(b, 0);
            assert(count_of(a, b[0]) == 0);
            assert(false);
        }
        assert(a =~= b);
    } else if b.len() == 0 {
        lemma_count_witness_rev(a, 0);
        assert(count_of(b, a[0]) == 0);
        assert(false);
    } else {
        // Both heads are the least element.
        lemma_count_witness_rev(b, 0);
        lemma_count_witness(a, b[0]);
        let ka = choose|k: int| 0 <= k < a.len() && a[k] == b[0];
        lemma_count_witness_rev(a, 0);
        lemma_count_witness(b, a[0]);
        let kb = choose|k: int| 0 <= k < b.len() && b[k] == a[0];
        if ka > 0 {
            assert(!chars_lt(a[ka], a[0]));
        }
        if kb > 0 {
            assert(!chars_lt(b[kb], b[0]));
        }
        lemma_chars_lt_order(a[0], b[0], a[0]);
        assert(a[0] == b[0]);
        let ta = a.drop_first();
        let tb = b.drop_first();
        assert forall|y: Seq<char>| #[trigger] count_of(ta, y) == count_of(tb, y) by {
            lemma_count_first(a, y);
            lemma_count_first(b, y);
            assert(count_of(a, y) == count_of(b, y));
        }
        assert(ids_sorted(ta)) by {
            assert forall|i: int, j: int| 0 <= i < j < ta.len() implies !chars_lt(#[trigger] ta[j], #[trigger] ta[i]) by {
                assert(ta[i] == a[i + 1] && ta[j] == a[j + 1]);
            }
        }
        assert(ids_sorted(tb)) by {
            assert forall|i: int, j: int| 0 <= i < j < tb.len() implies !chars_lt(#[trigger] tb[j], #[trigger] tb[i]) by {
                assert(tb[i] == b[i + 1] && tb[j] == b[j + 1]);
            }
        }
        lemma_sorted_unique(ta, tb);
        assert(a =~= seq![a[0]] + ta);
        assert(b =~= seq![b[0]] + tb);
    }
}

/// A confirm token does not depend on the order of the ids: ids that
/// are the same up to order sort the same, so they give the same preimage.
pub proof fn law_token_ignores_id_order(a: Seq<Seq<char>>, b: Seq<Seq<char>>)
    requires
        same_ids(a, b),
    ensures
        sorted_ids(a) == sorted_ids(b),
{
    lemma_sorted_ids(a);
    lemma_sorted_ids(b);
    assert forall|y: Seq<char>| #[trigger] count_of(sorted_ids(a), y) == count_of(sorted_ids(b), y) by {
        assert(count_of(a, y) == count_of(b, y));
    }
    lemma_sorted_unique(sorted_ids(a), sorted_ids(b));
}

/// The `k` lowest bytes of `n`, least significant first.
pub open spec fn le_bytes(n: nat, k: nat) -> Seq<u8>
    decreases k,
{
    if k == 0 {
        Seq::empty()
    } else {
        seq![(n % 256) as u8] + le_bytes(n / 256, (k - 1) as nat)
    }
}

/// Append the `k` lowest bytes of `n`, least significant first.
fn push_le(out: &mut Vec<u8>, n: u64, k: usize)
    requires
        k <= 8,
    ensures
        final(out)@ == old(out)@ + le_bytes(n as nat, k as nat),
{
    let ghost start = out@;
    let mut x: u64 = n;
    let mut i: usize = 0;
    while i < k
        invariant
            i <= k,
            start + le_bytes(n as nat, k as nat) == out@ + le_bytes(x as nat, (k - i) as nat),
        decreases k - i,
    {
        let ghost rest = le_bytes((x / 256) as nat, (k - i - 1) as nat);
        proof {
            assert(le_bytes(x as nat, (k - i) as nat) == seq![(x % 256) as u8] + rest);
        }
        out.push((x % 256) as u8);
        proof {
            assert(out@ + rest =~= out@.drop_last() + (seq![(x % 256) as u8] + rest));
        }
        x = x / 256;
        i = i + 1;
    }
    proof {
        assert(out@ + le_bytes(x as nat, 0) =~= out@);
    }
}

/// Append the UTF-8 bytes of `s`.
fn push_utf8(out: &mut Vec<u8>, s: &String)
    ensures
        final(out)@ == old(out)@ + encode_utf8(s@),
{
    let ghost start = out@;
    let b = s.as_str().as_bytes();
    let mut i: usize = 0;
    while i < b.len()
        invariant
            i <= b@.len(),
            b@ == encode_utf8(s@),
            out@ == start + b@.take(i as int),
        decreases b@.len() - i,
    {
        out.push(b[i]);
        proof {
            assert(b@.take(i + 1) =~= b@.take(i as int).push(b@[i as int]));
        }
        i = i + 1;
    }
    proof {
        assert(b@.take(i as int) =~= b@);
    }
}

/// Each id's UTF-8 bytes followed by a zero byte.
pub open spec fn id_bytes(ids: Seq<Seq<char>>) -> Seq<u8>
    decreases ids.len(),
{
    if ids.len() == 0 {
        Seq::empty()
    } else {
        id_bytes(ids.drop_last()) + encode_utf8(ids.last()) + seq![0u8]
    }
}

/// For each id the session knows, the UTF-8 bytes of its path and its size.
pub open spec fn binding_bytes(ids: Seq<Seq<char>>, items: Map<Seq<char>, CleanupItem>) -> Seq<u8>
    decreases ids.len(),
{
    if ids.len() == 0 {
        Seq::empty()
    } else {
        binding_bytes(ids.drop_last(), items) + if items.contains_key(ids.last()) {
            encode_utf8(items[ids.last()].path@) + le_bytes(items[ids.last()].size_bytes as nat, 8)
        } else {
            Seq::empty()
        }
    }
}

/// The bytes a confirm token is the digest of: the session's creation time,
/// the plan's totals, the sorted ids, and the paths and sizes they resolve
/// to (so a re-scan invalidates old tokens even for the same ids).
pub open spec fn token_preimage(
    created_at_secs: u64,
    total_bytes: u64,
    blocked_count: u32,
    sorted: Seq<Seq<char>>,
    items: Map<Seq<char>, CleanupItem>,
) -> Seq<u8> {
    le_bytes(created_at_secs as nat, 8) + le_bytes(total_bytes as nat, 8) + le_bytes(
        blocked_count as nat,
        4,
    ) + id_bytes(sorted) + binding_bytes(sorted, items)
}

/// The bytes a confirm token for `ids` and `plan` is the digest of.
pub fn preview_token_bytes(session: &ScanSession, ids: &Vec<String>, plan: &DeletePlan) -> (r: Vec<u8>)
    ensures
        r@ == token_preimage(
            session.created_at_secs,
            plan.total_bytes,
            plan.blocked_count,
            sorted_ids(ids.deep_view()),
            session.items@,
        ),
{
    let sorted = sort_ids(ids);
    let mut out: Vec<u8> = Vec::new();
    push_le(&mut out, session.created_at_secs, 8);
    push_le(&mut out, plan.total_bytes, 8);
    push_le(&mut out, plan.blocked_count as u64, 4);
    let ghost head = out@;
    let mut i: usize = 0;
    while i < sorted.len()
        invariant
            i <= sorted@.len(),
            out@ == head + id_bytes(sorted.deep_view().take(i as int)),
        decreases sorted@.len() - i,
    {
        push_utf8(&mut out, &sorted[i]);
        out.push(0u8);
        proof {
            assert(sorted.deep_view().take(i + 1).drop_last() =~= sorted.deep_view().take(i as int));
        }
        i = i + 1;
    }
    proof {
        assert(sorted.deep_view().take(i as int) =~= sorted.deep_view());
    }
    let ghost mid = out@;
    let mut j: usize = 0;
    while j < sorted.len()
        invariant
            j <= sorted@.len(),
            out@ == mid + binding_bytes(sorted.deep_view().take(j as int), session.items@),
        decreases sorted@.len() - j,
    {
        proof {
            assert(sorted.deep_view().take(j + 1).drop_last() =~= sorted.deep_view().take(j as int));
        }
        match session.items.get(sorted[j].as_str()) {
            Some(item) => {
                push_utf8(&mut out, &item.path);
                push_le(&mut out, item.size_bytes, 8);
            },
            None => {},
        }
        j = j + 1;
    }
    proof {
        assert(sorted.deep_view().take(j as int) =~= sorted.deep_view());
    }
    out
}

/// The SHA-256 digest of a byte sequence.
pub uninterp spec fn sha256_digest(data: Seq<u8>) -> Seq<u8>;

/// Trusted: `sha2::Sha256::digest` over `data`; the digest is named
/// [`sha256_digest`] of the bytes, as it depends on them alone.
#[verifier::external_body]
fn sha256(data: &Vec<u8>) -> (r: Vec<u8>)
    ensures
        r@ == sha256_digest(data@),
{
    sha2::Sha256::digest(data.as_slice()).to_vec()
}

/// The lowercase hexadecimal digit for `n < 16`.
pub open spec fn hex_digit(n: nat) -> char {
    if n < 10 {
        (48 + n) as char
    } else {
        (87 + n) as char
    }
}

/// Two lowercase hexadecimal digits per byte, high nibble first.
pub open spec fn hex_lower(bytes: Seq<u8>) -> Seq<char>
    decreases bytes.len(),
{
    if bytes.len() == 0 {
        Seq::empty()
    } else {
        hex_lower(bytes.drop_last()) + seq![
            hex_digit(bytes.last() as nat / 16),
            hex_digit(bytes.last() as nat % 16),
        ]
    }
}

/// Trusted: `hex::encode`, which writes each byte as two lowercase
/// hexadecimal digits, high nibble first.
#[verifier::external_body]
fn hex_encode(data: &Vec<u8>) -> (r: String)
    ensures
        r@ == hex_lower(data@),
{
    hex::encode(data)
}

/// A digest in the textual form a confirm token takes.
pub fn token_text(digest: &Vec<u8>) -> (r: String)
    ensures
        r@ == hex_lower(digest@),
{
    hex_encode(digest)
}

/// The confirm token for previewing `ids` with outcome `plan` against this
/// session.
pub fn save_preview_token(session: &ScanSession, ids: &Vec<String>, plan: &DeletePlan) -> (r: String)
    ensures
        r@ == hex_lower(
            sha256_digest(
                token_preimage(
                    session.created_at_secs,
                    plan.total_bytes,
                    plan.blocked_count,
                    sorted_ids(ids.deep_view()),
                    session.items@,
                ),
            ),
        ),
{
    let bytes = preview_token_bytes(session, ids, plan);
    let digest = sha256(&bytes);
    token_text(&digest)
}

/// What the session knows of each requested id, in request order.
pub fn resolve_ids(index: &ItemIndex, ids: &Vec<String>) -> (r: Vec<Option<CleanupItem>>)
    ensures
        r@.len() == ids@.len(),
        forall|i: int| 0 <= i < ids@.len() ==> #[trigger] r@[i] == if index@.contains_key(ids@[i]@) {
            Some(index@[ids@[i]@])
        } else {
            None::<CleanupItem>
        },
{
    let mut out: Vec<Option<CleanupItem>> = Vec::new();
    let mut i: usize = 0;
    while i < ids.len()
        invariant
            i <= ids@.len(),
            out@.len() == i,
            forall|j: int| 0 <= j < i ==> #[trigger] out@[j] == if index@.contains_key(ids@[j]@) {
                Some(index@[ids@[j]@])
            } else {
                None::<CleanupItem>
            },
        decreases ids@.len() - i,
    {
        match index.get(ids[i].as_str()) {
            Some(item) => out.push(Some(item.clone())),
            None => out.push(None),
        }
        i = i + 1;
    }
    out
}

} // verus!
