//! The scan's decisions: stable ids for findings, which rules run, which
//! directories the project walk reports and descends, which large folders are
//! surfaced, how findings are built, and how they are aggregated into a
//! report. The file system walk itself runs outside, feeding these.

use vstd::prelude::*;
use vstd::string::StringSliceAdditionalSpecFns;

use crate::model::{
    sat_add, sat_total, size_sum, Category, CategoryGroup, CategoryGroupView, CleanupItem, SafetyTier,
    ScanReport,
};
use crate::detect::{display_path, display_text};
use crate::text::{
    chars_of, has_prefix, lowercase, push_char, push_str, starts_with, string_of, to_lowercase,
    trim_end, trim_end_char,
};

verus! {

/// Configuration for a scan run.
#[derive(Debug)]
pub struct ScanConfig {
    /// Roots reported to the UI, also swept one level deep for large folders.
    pub roots: Vec<String>,
    /// Where the pruned walk hunts for pattern targets.
    pub project_scan_roots: Vec<String>,
    /// Run the generic large-folder discovery pass.
    pub discover_large_folders: bool,
}

/// Minimum size for a folder surfaced by the discovery pass (1 GiB).
pub const MIN_LARGE_FOLDER_BYTES: u64 = 1073741824u64;

/// Cap on how many discovery folders are reported.
pub const MAX_LARGE_FOLDERS: usize = 20;

/// Maximum depth below a project root the pattern walk descends.
pub const PROJECT_SCAN_MAX_DEPTH: usize = 8;

/// Wall-clock budget of the pattern walk, in seconds.
pub const WALK_TIME_BUDGET_SECS: u64 = 45;

/// Wall-clock budget of the sizing pool, in seconds.
pub const SIZE_TIME_BUDGET_SECS: u64 = 90;

/// Header label of a category group.
pub open spec fn category_label(c: Category) -> Seq<char> {
    match c {
        Category::PackageCache => "Package caches"@,
        Category::EditorStorage => "Editor storage"@,
        Category::BuildArtifact => "Build artifacts"@,
        Category::Temp => "Temporary files"@,
        Category::Model => "Downloaded models"@,
        Category::Browser => "Browser binaries"@,
        Category::Other => "Other large items"@,
    }
}

/// Human-readable label for a category group header.
pub fn label_for(category: Category) -> (r: &'static str)
    ensures
        r@ == category_label(category),
{
    match category {
        Category::PackageCache => "Package caches",
        Category::EditorStorage => "Editor storage",
        Category::BuildArtifact => "Build artifacts",
        Category::Temp => "Temporary files",
        Category::Model => "Downloaded models",
        Category::Browser => "Browser binaries",
        Category::Other => "Other large items",
    }
}

/// The stable order of groups in a report.
pub open spec fn category_order() -> Seq<Category> {
    seq![
        Category::PackageCache,
        Category::EditorStorage,
        Category::BuildArtifact,
        Category::Temp,
        Category::Model,
        Category::Browser,
        Category::Other,
    ]
}

fn category_at(i: usize) -> (c: Category)
    requires
        i < 7,
    ensures
        c == category_order()[i as int],
{
    if i == 0 {
        Category::PackageCache
    } else if i == 1 {
        Category::EditorStorage
    } else if i == 2 {
        Category::BuildArtifact
    } else if i == 3 {
        Category::Temp
    } else if i == 4 {
        Category::Model
    } else if i == 5 {
        Category::Browser
    } else {
        Category::Other
    }
}

// ---------------------------------------------------------------------------
// Stable ids
// ---------------------------------------------------------------------------

pub const FNV_OFFSET: u64 = 0xcbf29ce484222325u64;

pub const FNV_PRIME: u64 = 0x100000001b3u64;

/// One FNV-1a step: xor the byte in, multiply by the prime modulo 2^64.
pub open spec fn fnv_step(h: u64, b: u8) -> u64 {
    (((h ^ (b as u64)) as nat * FNV_PRIME as nat) % 0x10000000000000000) as u64
}

/// 64-bit FNV-1a of `bytes`, continuing from hash `h`.
pub open spec fn fnv_from(h: u64, bytes: Seq<u8>) -> u64
    decreases bytes.len(),
{
    if bytes.len() == 0 {
        h
    } else {
        fnv_step(fnv_from(h, bytes.drop_last()), bytes.last())
    }
}

/// 64-bit FNV-1a of `bytes`.
pub open spec fn fnv1a(bytes: Seq<u8>) -> u64 {
    fnv_from(FNV_OFFSET, bytes)
}

pub open spec fn pow16(n: nat) -> nat
    decreases n,
{
    if n == 0 {
        1
    } else {
        16 * pow16((n - 1) as nat)
    }
}

/// The lowercase hex digit of `d` (below sixteen).
pub open spec fn hex_char(d: nat) -> char {
    if d < 10 {
        ((48 + d) as u8) as char
    } else {
        ((87 + d) as u8) as char
    }
}

/// `h` as sixteen lowercase hex digits, most significant first.
pub open spec fn hex16(h: u64) -> Seq<char> {
    Seq::new(16, |i: int| hex_char(((h as nat / pow16((15 - i) as nat)) % 16) as nat))
}

/// The id of a finding at display path `path`: FNV-1a of its UTF-8 bytes,
/// as sixteen hex digits.
pub open spec fn id_of(path: Seq<char>) -> Seq<char> {
    hex16(fnv1a(vstd::utf8::encode_utf8(path)))
}

fn hex_digit(d: u64) -> (c: char)
    requires
        d < 16,
    ensures
        c == hex_char(d as nat),
{
    if d < 10 {
        let b: u8 = 48u8 + (d as u8);
        b as char
    } else {
        let b: u8 = 87u8 + (d as u8);
        b as char
    }
}

proof fn lemma_pow16_step(n: nat)
    ensures
        pow16(n + 1) == 16 * pow16(n),
        pow16(n) >= 1,
    decreases n,
{
    if n > 0 {
        lemma_pow16_step((n - 1) as nat);
    }
}

fn fnv1a_hex(input: &str) -> (r: String)
    ensures
        r@ == hex16(fnv1a(input.spec_bytes())),
{
    let bytes = input.as_bytes();
    let mut hash: u64 = FNV_OFFSET;
    let mut i: usize = 0;
    while i < bytes.len()
        invariant
            i <= bytes@.len(),
            bytes@ == input.spec_bytes(),
            hash == fnv_from(FNV_OFFSET, bytes@.take(i as int)),
        decreases bytes@.len() - i,
    {
        assert(bytes@.take(i as int + 1).drop_last() =~= bytes@.take(i as int));
        hash = (hash ^ (bytes[i] as u64)).wrapping_mul(FNV_PRIME);
        i = i + 1;
    }
    assert(bytes@.take(i as int) =~= bytes@);
    let mut out: Vec<char> = Vec::new();
    let mut pow: u64 = 0x1000000000000000u64;
    let mut k: usize = 0;
    proof {
        reveal_with_fuel(pow16, 16);
        assert(pow16(15) == 0x1000000000000000);
    }
    while k < 16
        invariant
            k <= 16,
            k < 16 ==> pow as nat == pow16((15 - k) as nat),
            pow >= 1,
            out@.len() == k,
            forall|j: int| 0 <= j < k ==> #[trigger] out@[j] == hex16(hash)[j],
        decreases 16 - k,
    {
        let d = (hash / pow) % 16;
        out.push(hex_digit(d));
        proof {
            if k < 15 {
                lemma_pow16_step((14 - k) as nat);
                lemma_pow16_step((15 - k) as nat);
                assert((16 * pow16((14 - k) as nat)) / 16 == pow16((14 - k) as nat)) by (nonlinear_arith);
            }
        }
        if k < 15 {
            pow = pow / 16;
        }
        k = k + 1;
    }
    assert(out@ =~= hex16(hash));
    string_of(&out)
}

/// Stable, unique id for a finding: a short hash of its display path, the
/// same for the same path in every run and build.
pub fn stable_id(path: &str) -> (r: String)
    ensures
        r@ == id_of(path@),
{
    fnv1a_hex(path)
}

/// Ids are sixteen lowercase hex digits and depend on the path alone.
pub proof fn law_stable_id_shape(p: Seq<char>, q: Seq<char>)
    ensures
        id_of(p).len() == 16,
        forall|i: int| 0 <= i < 16 ==> ('0' <= #[trigger] id_of(p)[i] <= '9' || 'a' <= id_of(p)[i] <= 'f'),
        p == q ==> id_of(p) == id_of(q),
{
}

// ---------------------------------------------------------------------------
// Overlap with findings already attributed to a rule
// ---------------------------------------------------------------------------

/// The key a path is compared by: trailing slashes dropped, lower-cased.
pub open spec fn overlap_key(path: Seq<char>) -> Seq<char> {
    lowercase(trim_end(path, '/'))
}

/// The overlap key of `path`.
pub fn overlap_key_of(path: &str) -> (r: String)
    ensures
        r@ == overlap_key(path@),
{
    let t = trim_end_char(path, '/');
    to_lowercase(t.as_str())
}

/// Is `a` equal to `b`, inside it, or does it contain it?
pub open spec fn overlaps_one(a: Seq<char>, b: Seq<char>) -> bool {
    a == b || starts_with(a, b.push('/')) || starts_with(b, a.push('/'))
}

/// Does `candidate` equal, lie under, or contain any of `existing`?
pub open spec fn overlaps_any(candidate: Seq<char>, existing: Seq<Seq<char>>) -> bool {
    exists|i: int| 0 <= i < existing.len() && overlaps_one(candidate, #[trigger] existing[i])
}

/// Is `candidate` (a normalized key) equal to, an ancestor of, or a
/// descendant of any already-found key?
pub fn path_overlaps(candidate: &str, existing_lower: &Vec<String>) -> (r: bool)
    ensures
        r == overlaps_any(candidate@, existing_lower.deep_view()),
{
    let c = chars_of(candidate);
    let mut c_slash = chars_of(candidate);
    c_slash.push('/');
    let mut i: usize = 0;
    while i < existing_lower.len()
        invariant
            c@ == candidate@,
            c_slash@ == candidate@.push('/'),
            i <= existing_lower@.len(),
            forall|j: int| 0 <= j < i ==> !overlaps_one(candidate@, #[trigger] existing_lower.deep_view()[j]),
        decreases existing_lower@.len() - i,
    {
        let p = chars_of(existing_lower[i].as_str());
        let mut p_slash = chars_of(existing_lower[i].as_str());
        p_slash.push('/');
        assert(existing_lower.deep_view()[i as int] == p@);
        let same = existing_lower[i] == String::from_str(candidate);
        if same || has_prefix(&c, &p_slash) || has_prefix(&p, &c_slash) {
            return true;
        }
        i = i + 1;
    }
    false
}

/// Filter of generic large folders: never one that overlaps a finding
/// already attributed to a rule, never below [`MIN_LARGE_FOLDER_BYTES`], and
/// at most [`MAX_LARGE_FOLDERS`] in all.
#[derive(Debug)]
pub struct LargeFolderFilter {
    existing_lower: Vec<String>,
    emitted: usize,
}

impl LargeFolderFilter {
    #[verifier::type_invariant]
    spec fn within_cap(self) -> bool {
        self.emitted <= MAX_LARGE_FOLDERS
    }

    /// The overlap keys the filter compares against.
    pub closed spec fn keys(&self) -> Seq<Seq<char>> {
        self.existing_lower.deep_view()
    }

    /// How many folders were let through so far.
    pub closed spec fn passed_count(&self) -> nat {
        self.emitted as nat
    }

    /// A filter guarding the findings at the display paths `claimed`.
    pub fn new(claimed: &Vec<String>) -> (r: Self)
        ensures
            r.keys().len() == claimed@.len(),
            forall|i: int| 0 <= i < claimed@.len() ==> #[trigger] r.keys()[i] == overlap_key(claimed@[i]@),
            r.passed_count() == 0,
    {
        let mut keys: Vec<String> = Vec::new();
        let mut i: usize = 0;
        while i < claimed.len()
            invariant
                i <= claimed@.len(),
                keys@.len() == i,
                forall|j: int| 0 <= j < i ==> #[trigger] keys@[j]@ == overlap_key(claimed@[j]@),
            decreases claimed@.len() - i,
        {
            keys.push(overlap_key_of(claimed[i].as_str()));
            i = i + 1;
        }
        LargeFolderFilter { existing_lower: keys, emitted: 0 }
    }

    /// Should the discovery folder at display path `disp`, measured at `size`
    /// bytes, be surfaced?
    pub fn pass(&mut self, disp: &str, size: u64) -> (r: bool)
        ensures
            r == (!overlaps_any(overlap_key(disp@), old(self).keys()) && old(self).passed_count() < MAX_LARGE_FOLDERS
                && size >= MIN_LARGE_FOLDER_BYTES),
            final(self).keys() == old(self).keys(),
            final(self).passed_count() == old(self).passed_count() + if r { 1nat } else { 0nat },
            final(self).passed_count() <= MAX_LARGE_FOLDERS,
    {
        proof {
            use_type_invariant(&*self);
        }
        let low = overlap_key_of(disp);
        if path_overlaps(low.as_str(), &self.existing_lower) {
            return false;
        }
        if self.emitted >= MAX_LARGE_FOLDERS {
            return false;
        }
        if size < MIN_LARGE_FOLDER_BYTES {
            return false;
        }
        self.emitted = self.emitted + 1;
        true
    }
}

// ---------------------------------------------------------------------------
// Building findings
// ---------------------------------------------------------------------------

/// A directory still to be measured, with everything needed to build its
/// finding once its size is known.
#[derive(Debug)]
pub struct PendingDir {
    /// The path to measure.
    pub path: String,
    /// Its forward-slash display path.
    pub disp: String,
    pub rule_id: String,
    pub label: String,
    pub category: Category,
    pub tier: SafetyTier,
    pub regenerates: bool,
    pub note: String,
    pub selected_by_default: bool,
    /// Large-folder candidates are filtered after sizing; rule directories
    /// are always surfaced.
    pub is_large_folder: bool,
}

/// The note on every generic large-folder finding.
pub const LARGE_FOLDER_NOTE: &'static str = "A large folder that no specific rule matched. It may hold important data \u{2014} use Reveal to inspect it before removing. Never pre-selected.";

/// The rule id of generic large-folder findings.
pub const LARGE_FOLDER_RULE_ID: &'static str = "large-folder";

/// A directory job for a rule's location or pattern match. Only `Safe`
/// findings are pre-selected.
pub fn pending_for_rule(rule: &crate::rules::CleanupRule, path: String) -> (r: PendingDir)
    ensures
        r.path == path,
        r.disp@ == display_text(path@),
        r.rule_id@ == rule.id@,
        r.label@ == rule.label@,
        r.category == rule.category,
        r.tier == rule.tier,
        r.regenerates == rule.regenerates,
        r.note@ == rule.note@,
        r.selected_by_default == (rule.tier == SafetyTier::Safe),
        !r.is_large_folder,
{
    let disp = display_path(path.as_str());
    PendingDir {
        path,
        disp,
        rule_id: String::from_str(rule.id),
        label: String::from_str(rule.label),
        category: rule.category,
        tier: rule.tier,
        regenerates: rule.regenerates,
        note: String::from_str(rule.note),
        selected_by_default: rule.tier == SafetyTier::Safe,
        is_large_folder: false,
    }
}

/// A generic large-folder candidate: `Other`, `Caution`, not regenerating,
/// never pre-selected, labelled by its folder name (or "folder").
pub fn pending_large_folder(path: String, name: Option<String>) -> (r: PendingDir)
    ensures
        r.path == path,
        r.disp@ == display_text(path@),
        r.rule_id@ == LARGE_FOLDER_RULE_ID@,
        name matches Some(n) ==> r.label == n,
        name is None ==> r.label@ == "folder"@,
        r.category == Category::Other,
        r.tier == SafetyTier::Caution,
        !r.regenerates,
        r.note@ == LARGE_FOLDER_NOTE@,
        !r.selected_by_default,
        r.is_large_folder,
{
    let label = match name {
        Some(n) => n,
        None => String::from_str("folder"),
    };
    let disp = display_path(path.as_str());
    PendingDir {
        path,
        disp,
        rule_id: String::from_str(LARGE_FOLDER_RULE_ID),
        label,
        category: Category::Other,
        tier: SafetyTier::Caution,
        regenerates: false,
        note: String::from_str(LARGE_FOLDER_NOTE),
        selected_by_default: false,
        is_large_folder: true,
    }
}

/// The finding for a measured directory job.
pub fn dir_item(job: &PendingDir, size: u64, last_modified_secs: Option<u64>) -> (r: CleanupItem)
    ensures
        r.id@ == id_of(job.disp@),
        r.rule_id == job.rule_id,
        r.label == job.label,
        r.category == job.category,
        r.tier == job.tier,
        r.path == job.disp,
        r.size_bytes == size,
        r.regenerates == job.regenerates,
        r.last_modified_secs == last_modified_secs,
        r.note == job.note,
        r.selected_by_default == job.selected_by_default,
{
    CleanupItem {
        id: stable_id(job.disp.as_str()),
        rule_id: job.rule_id.clone(),
        label: job.label.clone(),
        category: job.category,
        tier: job.tier,
        path: job.disp.clone(),
        size_bytes: size,
        regenerates: job.regenerates,
        last_modified_secs,
        note: job.note.clone(),
        selected_by_default: job.selected_by_default,
    }
}

/// The finding for a rule's fixed location that is a file, measured inline.
pub fn file_item(rule: &crate::rules::CleanupRule, disp: &String, size: u64, last_modified_secs: Option<u64>) -> (r: CleanupItem)
    ensures
        r.id@ == id_of(disp@),
        r.rule_id@ == rule.id@,
        r.label@ == rule.label@,
        r.category == rule.category,
        r.tier == rule.tier,
        r.path == *disp,
        r.size_bytes == size,
        r.regenerates == rule.regenerates,
        r.last_modified_secs == last_modified_secs,
        r.note@ == rule.note@,
        r.selected_by_default == (rule.tier == SafetyTier::Safe),
{
    CleanupItem {
        id: stable_id(disp.as_str()),
        rule_id: String::from_str(rule.id),
        label: String::from_str(rule.label),
        category: rule.category,
        tier: rule.tier,
        path: disp.clone(),
        size_bytes: size,
        regenerates: rule.regenerates,
        last_modified_secs,
        note: String::from_str(rule.note),
        selected_by_default: rule.tier == SafetyTier::Safe,
    }
}

// ---------------------------------------------------------------------------
// Aggregation
// ---------------------------------------------------------------------------

/// The items of `items` in category `c`, order kept.
pub open spec fn of_category(items: Seq<CleanupItem>, c: Category) -> Seq<CleanupItem>
    decreases items.len(),
{
    if items.len() == 0 {
        items
    } else if items.last().category == c {
        of_category(items.drop_last(), c).push(items.last())
    } else {
        of_category(items.drop_last(), c)
    }
}

/// The non-empty category groups of `items`, one per category of `cats`, in
/// that order.
pub open spec fn grouped(items: Seq<CleanupItem>, cats: Seq<Category>) -> Seq<CategoryGroupView>
    decreases cats.len(),
{
    if cats.len() == 0 {
        Seq::empty()
    } else {
        let rest = grouped(items, cats.drop_last());
        let c = cats.last();
        let gi = of_category(items, c);
        if gi.len() == 0 {
            rest
        } else {
            rest.push(CategoryGroupView { category: c, label: category_label(c), total_bytes: sat_total(gi), items: gi })
        }
    }
}

fn collect_category(items: &Vec<CleanupItem>, c: Category) -> (r: (Vec<CleanupItem>, u64))
    ensures
        r.0@ == of_category(items@, c),
        r.1 == sat_total(r.0@),
{
    let mut out: Vec<CleanupItem> = Vec::new();
    let mut total: u64 = 0;
    let mut i: usize = 0;
    while i < items.len()
        invariant
            i <= items@.len(),
            out@ == of_category(items@.take(i as int), c),
            total == sat_total(out@),
        decreases items@.len() - i,
    {
        assert(items@.take(i as int + 1).drop_last() =~= items@.take(i as int));
        let it = &items[i];
        if it.category == c {
            let ghost before = out@;
            total = total.saturating_add(it.size_bytes);
            out.push(it.clone());
            assert(out@.drop_last() =~= before);
        }
        i = i + 1;
    }
    assert(items@.take(i as int) =~= items@);
    (out, total)
}

fn sum_sizes(items: &Vec<CleanupItem>) -> (r: u64)
    ensures
        r == sat_total(items@),
{
    let mut total: u64 = 0;
    let mut i: usize = 0;
    while i < items.len()
        invariant
            i <= items@.len(),
            total == sat_total(items@.take(i as int)),
        decreases items@.len() - i,
    {
        assert(items@.take(i as int + 1).drop_last() =~= items@.take(i as int));
        total = total.saturating_add(items[i].size_bytes);
        i = i + 1;
    }
    assert(items@.take(i as int) =~= items@);
    total
}

/// Aggregate findings into the report: one group per non-empty category in
/// the stable order, labelled, with saturating byte totals.
pub fn build_report(items: Vec<CleanupItem>, scanned_roots: Vec<String>, warnings: Vec<String>) -> (r: ScanReport)
    ensures
        r.total_reclaimable_bytes == sat_total(items@),
        crate::model::group_views(r.groups@) == grouped(items@, category_order()),
        r.scanned_roots@ == scanned_roots@,
        r.warnings@ == warnings@,
{
    let total = sum_sizes(&items);
    let mut groups: Vec<CategoryGroup> = Vec::new();
    let mut ci: usize = 0;
    while ci < 7
        invariant
            ci <= 7,
            crate::model::group_views(groups@) == grouped(items@, category_order().take(ci as int)),
        decreases 7 - ci,
    {
        let c = category_at(ci);
        assert(category_order().take(ci as int + 1).drop_last() =~= category_order().take(ci as int));
        let (group_items, group_total) = collect_category(&items, c);
        if group_items.len() > 0 {
            let ghost before = crate::model::group_views(groups@);
            let label = label_for(c);
            groups.push(CategoryGroup { category: c, label: String::from_str(label), total_bytes: group_total, items: group_items });
            assert(crate::model::group_views(groups@) =~= before.push(groups@.last()@));
        }
        ci = ci + 1;
    }
    assert(category_order().take(7) =~= category_order());
    ScanReport { total_reclaimable_bytes: total, groups, scanned_roots, warnings }
}

// ---------------------------------------------------------------------------
// Roots, rules and the project walk
// ---------------------------------------------------------------------------

/// `s` with later repeats of an entry dropped, first occurrences in order.
pub open spec fn dedup(s: Seq<Seq<char>>) -> Seq<Seq<char>>
    decreases s.len(),
{
    if s.len() == 0 {
        s
    } else if dedup(s.drop_last()).contains(s.last()) {
        dedup(s.drop_last())
    } else {
        dedup(s.drop_last()).push(s.last())
    }
}

/// The scanned roots reported to the UI: the display roots, each once, in
/// first-seen order.
pub fn scanned_roots(displays: &Vec<String>) -> (r: Vec<String>)
    ensures
        r.deep_view() == dedup(displays.deep_view()),
{
    let ghost d = displays.deep_view();
    let mut out: Vec<String> = Vec::new();
    let mut i: usize = 0;
    while i < displays.len()
        invariant
            d == displays.deep_view(),
            i <= displays@.len(),
            out.deep_view() == dedup(d.take(i as int)),
        decreases displays@.len() - i,
    {
        assert(d.take(i as int + 1).drop_last() =~= d.take(i as int));
        assert(d.take(i as int + 1).last() == displays@[i as int]@);
        let x = &displays[i];
        if !crate::schedule::policy::contains_string(&out, x) {
            let ghost before = out.deep_view();
            out.push(x.clone());
            assert(out.deep_view() =~= before.push(x@));
        }
        i = i + 1;
    }
    assert(d.take(i as int) =~= d);
    out
}

/// Directory names the generic discovery skips: user data folders, and
/// `appdata`, whose parts are swept as roots of their own.
pub open spec fn discovery_skip_names() -> Seq<Seq<char>> {
    seq![
        "documents"@, "pictures"@, "videos"@, "music"@, "desktop"@, "downloads"@, "favorites"@,
        "contacts"@, "links"@, "searches"@, "saved games"@, "3d objects"@, "appdata"@, "onedrive"@,
        "onedrive - personal"@, "dropbox"@, "google drive"@,
    ]
}

/// Directory names the project walk reports but never descends into.
pub open spec fn skip_descend_names() -> Seq<Seq<char>> {
    seq![
        "appdata"@, ".git"@, ".hg"@, ".svn"@, "$recycle.bin"@, "windows"@,
        "system volume information"@,
    ]
}

const DISCOVERY_SKIP_NAMES: [&'static str; 17] = [
    "documents", "pictures", "videos", "music", "desktop", "downloads", "favorites", "contacts",
    "links", "searches", "saved games", "3d objects", "appdata", "onedrive",
    "onedrive - personal", "dropbox", "google drive",
];

const SKIP_DESCEND_NAMES: [&'static str; 7] = [
    "appdata", ".git", ".hg", ".svn", "$recycle.bin", "windows", "system volume information",
];

fn in_names<const N: usize>(names: &[&'static str; N], name: &str) -> (r: bool)
    ensures
        r == names@.map_values(|n: &str| n@).contains(name@),
{
    let ghost m = names@.map_values(|n: &str| n@);
    let mut i: usize = 0;
    while i < N
        invariant
            N == names@.len(),
            m == names@.map_values(|n: &str| n@),
            i <= N,
            forall|j: int| 0 <= j < i ==> m[j] != name@,
        decreases N - i,
    {
        if crate::text::str_eq(names[i], name) {
            assert(m[i as int] == name@);
            return true;
        }
        i = i + 1;
    }
    proof {
        if m.contains(name@) {
            let j = choose|j: int| 0 <= j < m.len() && m[j] == name@;
            assert(m[j] != name@);
        }
    }
    false
}

/// Is a direct child directory named `name_lower` (already lower-cased) a
/// candidate for the generic large-folder pass?
pub fn is_discovery_candidate(name_lower: &str) -> (r: bool)
    ensures
        r == !discovery_skip_names().contains(name_lower@),
{
    let r = in_names(&DISCOVERY_SKIP_NAMES, name_lower);
    assert(DISCOVERY_SKIP_NAMES@.map_values(|n: &str| n@) =~= discovery_skip_names());
    !r
}

/// The rules a scan runs, as indices into `rules`: the fixed-location rules
/// whose required tool (if any) was detected, and the pattern rules.
pub open spec fn runs_fixed(rules: Seq<crate::rules::CleanupRule>, detected: Seq<Seq<char>>, i: int) -> bool {
    &&& rules[i].pattern is None
    &&& match rules[i].requires_tool {
        Some(t) => detected.contains(t@),
        None => true,
    }
}

/// The indices below `n` satisfying `runs_fixed`, in order.
pub open spec fn fixed_indices(rules: Seq<crate::rules::CleanupRule>, detected: Seq<Seq<char>>, n: int) -> Seq<usize>
    decreases n,
{
    if n <= 0 {
        Seq::empty()
    } else if runs_fixed(rules, detected, n - 1) {
        fixed_indices(rules, detected, n - 1).push((n - 1) as usize)
    } else {
        fixed_indices(rules, detected, n - 1)
    }
}

/// The indices below `n` of pattern rules, in order.
pub open spec fn pattern_indices(rules: Seq<crate::rules::CleanupRule>, n: int) -> Seq<usize>
    decreases n,
{
    if n <= 0 {
        Seq::empty()
    } else if rules[n - 1].pattern is Some {
        pattern_indices(rules, n - 1).push((n - 1) as usize)
    } else {
        pattern_indices(rules, n - 1)
    }
}

proof fn lemma_fixed_indices_members(rules: Seq<crate::rules::CleanupRule>, detected: Seq<Seq<char>>, n: int, k: int)
    requires
        0 <= n <= rules.len(),
        rules.len() <= usize::MAX,
    ensures
        fixed_indices(rules, detected, n).contains(k as usize) && 0 <= k <= usize::MAX <==> (0 <= k < n
            && runs_fixed(rules, detected, k)),
    decreases n,
{
    if n > 0 {
        lemma_fixed_indices_members(rules, detected, n - 1, k);
        let prev = fixed_indices(rules, detected, n - 1);
        if runs_fixed(rules, detected, n - 1) {
            let cur = prev.push((n - 1) as usize);
            if 0 <= k <= usize::MAX && cur.contains(k as usize) {
                let w = choose|w: int| 0 <= w < cur.len() && cur[w] == k as usize;
                if w < prev.len() {
                    assert(prev.contains(k as usize));
                }
            }
            if 0 <= k < n && runs_fixed(rules, detected, k) {
                if k == n - 1 {
                    assert(cur[prev.len() as int] == k as usize);
                } else {
                    let w = choose|w: int| 0 <= w < prev.len() && prev[w] == k as usize;
                    assert(cur[w] == k as usize);
                }
            }
        }
    } else {
        if 0 <= k <= usize::MAX {
            assert(!fixed_indices(rules, detected, n).contains(k as usize));
        }
    }
}

/// Which rules a scan runs at fixed locations: exactly the rules with no
/// directory pattern whose required tool, if they name one, is among the
/// detected tools. So a tool-gated rule runs as soon as its tool is
/// installed, a rule without a tool always runs, and only a rule whose tool
/// is missing is skipped.
pub proof fn law_tool_gating_skips_only_missing_tools(
    rules: Seq<crate::rules::CleanupRule>,
    detected: Seq<Seq<char>>,
    i: int,
)
    requires
        0 <= i < rules.len(),
        rules.len() <= usize::MAX,
    ensures
        fixed_indices(rules, detected, rules.len() as int).contains(i as usize) <==> (rules[i].pattern is None
            && (rules[i].requires_tool is None || detected.contains(rules[i].requires_tool.unwrap()@))),
        rules[i].pattern is None && rules[i].requires_tool is Some && detected.contains(
            rules[i].requires_tool.unwrap()@,
        ) ==> fixed_indices(rules, detected, rules.len() as int).contains(i as usize),
        rules[i].pattern is None && rules[i].requires_tool is Some && !detected.contains(
            rules[i].requires_tool.unwrap()@,
        ) ==> !fixed_indices(rules, detected, rules.len() as int).contains(i as usize),
{
    lemma_fixed_indices_members(rules, detected, rules.len() as int, i);
}

/// Partition the rules: fixed-location rules gated on their required tool
/// being among `detected`, and pattern rules (never gated).
pub fn partition_rules(rules: &Vec<crate::rules::CleanupRule>, detected: &Vec<String>) -> (r: (Vec<usize>, Vec<usize>))
    ensures
        r.0@ == fixed_indices(rules@, detected.deep_view(), rules@.len() as int),
        r.1@ == pattern_indices(rules@, rules@.len() as int),
{
    let mut fixed: Vec<usize> = Vec::new();
    let mut pattern: Vec<usize> = Vec::new();
    let mut i: usize = 0;
    while i < rules.len()
        invariant
            i <= rules@.len(),
            fixed@ == fixed_indices(rules@, detected.deep_view(), i as int),
            pattern@ == pattern_indices(rules@, i as int),
        decreases rules@.len() - i,
    {
        let rule = &rules[i];
        if rule.pattern.is_some() {
            pattern.push(i);
        } else {
            let gated_out = match rule.requires_tool {
                Some(tool) => !crate::schedule::policy::contains_string(detected, &String::from_str(tool)),
                None => false,
            };
            if !gated_out {
                fixed.push(i);
            }
        }
        i = i + 1;
    }
    (fixed, pattern)
}

/// Does rule `rule` (a pattern rule) name directories called `name`?
pub open spec fn names_dir(rule: crate::rules::CleanupRule, name: Seq<char>) -> bool {
    rule.pattern matches Some(p) && crate::rules::pattern_names(p).contains(name)
}

/// The first of the pattern rules `idx` (in order) naming `name`.
pub open spec fn first_naming(rules: Seq<crate::rules::CleanupRule>, idx: Seq<usize>, name: Seq<char>) -> Option<usize>
    decreases idx.len(),
{
    if idx.len() == 0 {
        None
    } else if names_dir(rules[idx[0] as int], name) {
        Some(idx[0])
    } else {
        first_naming(rules, idx.drop_first(), name)
    }
}

fn pattern_has(p: &crate::rules::DirPattern, name: &str) -> (r: bool)
    ensures
        r == crate::rules::pattern_names(*p).contains(name@),
{
    let ghost m = crate::rules::pattern_names(*p);
    let mut i: usize = 0;
    while i < p.names.len()
        invariant
            m == crate::rules::pattern_names(*p),
            i <= p.names@.len(),
            forall|j: int| 0 <= j < i ==> m[j] != name@,
        decreases p.names@.len() - i,
    {
        if crate::text::str_eq(p.names[i], name) {
            assert(m[i as int] == name@);
            return true;
        }
        i = i + 1;
    }
    proof {
        if m.contains(name@) {
            let j = choose|j: int| 0 <= j < m.len() && m[j] == name@;
            assert(m[j] != name@);
        }
    }
    false
}

/// The pattern rule (the first of `pattern_idx`) that claims a directory
/// named `name`, if any.
pub fn pattern_rule_for(rules: &Vec<crate::rules::CleanupRule>, pattern_idx: &Vec<usize>, name: &str) -> (r: Option<usize>)
    requires
        forall|k: int| 0 <= k < pattern_idx@.len() ==> #[trigger] pattern_idx@[k] < rules@.len(),
    ensures
        r == first_naming(rules@, pattern_idx@, name@),
{
    let mut k: usize = 0;
    assert(pattern_idx@.skip(0) =~= pattern_idx@);
    while k < pattern_idx.len()
        invariant
            k <= pattern_idx@.len(),
            forall|j: int| 0 <= j < pattern_idx@.len() ==> #[trigger] pattern_idx@[j] < rules@.len(),
            first_naming(rules@, pattern_idx@.skip(k as int), name@) == first_naming(rules@, pattern_idx@, name@),
        decreases pattern_idx@.len() - k,
    {
        let ri = pattern_idx[k];
        assert(pattern_idx@.skip(k as int)[0] == ri);
        assert(pattern_idx@.skip(k as int).drop_first() =~= pattern_idx@.skip(k as int + 1));
        let hit = match &rules[ri].pattern {
            Some(p) => pattern_has(p, name),
            None => false,
        };
        if hit {
            return Some(ri);
        }
        k = k + 1;
    }
    None
}

/// Should the project walk stop at a directory named `name` (reported, not
/// descended)? Yes for artifact directories claimed by a pattern rule and for
/// the heavy or irrelevant names of [`skip_descend_names`] (compared in ASCII
/// lower case); a directory whose name cannot be read is descended.
pub fn should_prune(rules: &Vec<crate::rules::CleanupRule>, pattern_idx: &Vec<usize>, name: Option<&str>) -> (r: bool)
    requires
        forall|k: int| 0 <= k < pattern_idx@.len() ==> #[trigger] pattern_idx@[k] < rules@.len(),
    ensures
        r == match name {
            Some(n) => first_naming(rules@, pattern_idx@, n@) is Some || skip_descend_names().contains(
                crate::text::ascii_lowercase(n@),
            ),
            None => false,
        },
{
    match name {
        Some(n) => {
            if pattern_rule_for(rules, pattern_idx, n).is_some() {
                return true;
            }
            let low = crate::text::to_ascii_lowercase(n);
            let r = in_names(&SKIP_DESCEND_NAMES, low.as_str());
            assert(SKIP_DESCEND_NAMES@.map_values(|x: &str| x@) =~= skip_descend_names());
            r
        },
        None => false,
    }
}

/// The sizing progress line: how many folders are still being measured.
pub open spec fn measuring_text(remaining: nat) -> Seq<char> {
    if remaining > 0 {
        "Measuring "@ + crate::text::decimal(remaining) + " folder"@ + (if remaining == 1 {
            ""@
        } else {
            "s"@
        }) + "\u{2026}"@
    } else {
        "Finishing up\u{2026}"@
    }
}

/// The sizing progress line for `remaining` unmeasured folders.
pub fn measuring_message(remaining: usize) -> (r: String)
    ensures
        r@ == measuring_text(remaining as nat),
{
    if remaining > 0 {
        let mut s = String::from_str("Measuring ");
        crate::text::push_decimal(&mut s, remaining as u64);
        push_str(&mut s, " folder");
        if remaining == 1 {
            push_str(&mut s, "");
        } else {
            push_str(&mut s, "s");
        }
        push_str(&mut s, "\u{2026}");
        s
    } else {
        String::from_str("Finishing up\u{2026}")
    }
}

/// Warning recorded when the project walk hit its time budget.
pub const WALK_TIMEOUT_WARNING: &'static str = "Project scan stopped after 45s; some artifact folders may not be listed.";

/// Warning recorded when sizing hit its time budget.
pub const SIZE_TIMEOUT_WARNING: &'static str = "Sizing stopped after 90s; some folder sizes may be underestimated.";

/// Warning recorded when the scan was cancelled.
pub const CANCELLED_WARNING: &'static str = "Scan was cancelled; results may be incomplete.";

// ---------------------------------------------------------------------------
// Laws of the aggregation
// ---------------------------------------------------------------------------

/// Total number of items over the groups of `cats`.
pub open spec fn grouped_len(items: Seq<CleanupItem>, cats: Seq<Category>) -> nat
    decreases cats.len(),
{
    if cats.len() == 0 {
        0
    } else {
        grouped_len(items, cats.drop_last()) + of_category(items, cats.last()).len()
    }
}

proof fn lemma_grouped_shape(items: Seq<CleanupItem>, cats: Seq<Category>)
    ensures
        crate::model::view_items(grouped(items, cats)).len() == grouped_len(items, cats),
        forall|i: int| 0 <= i < grouped(items, cats).len() ==> (#[trigger] grouped(items, cats)[i]).items.len() > 0
            && grouped(items, cats)[i].items == of_category(items, grouped(items, cats)[i].category)
            && grouped(items, cats)[i].label == category_label(grouped(items, cats)[i].category)
            && grouped(items, cats)[i].total_bytes == sat_total(grouped(items, cats)[i].items)
            && cats.contains(grouped(items, cats)[i].category),
    decreases cats.len(),
{
    if cats.len() > 0 {
        let p = cats.drop_last();
        lemma_grouped_shape(items, p);
        let g = grouped(items, cats);
        let rest = grouped(items, p);
        assert forall|i: int| 0 <= i < g.len() implies (#[trigger] g[i]).items.len() > 0 && g[i].items
            == of_category(items, g[i].category) && g[i].label == category_label(g[i].category)
            && g[i].total_bytes == sat_total(g[i].items) && cats.contains(g[i].category) by {
            if i < rest.len() {
                assert(g[i] == rest[i]);
                let k = choose|k: int| 0 <= k < p.len() && p[k] == rest[i].category;
                assert(cats[k] == p[k]);
            } else {
                assert(cats[cats.len() - 1] == cats.last());
            }
        }
        if of_category(items, cats.last()).len() > 0 {
            assert(g.drop_last() == rest);
        }
    }
}

proof fn lemma_of_category_push(items: Seq<CleanupItem>, x: CleanupItem, c: Category)
    ensures
        of_category(items.push(x), c).len() == of_category(items, c).len() + if x.category == c { 1nat } else { 0nat },
{
    assert(items.push(x).drop_last() =~= items);
}

proof fn lemma_grouped_len_push(items: Seq<CleanupItem>, x: CleanupItem, cats: Seq<Category>)
    ensures
        grouped_len(items.push(x), cats) == grouped_len(items, cats) + cats.filter(|c: Category| c == x.category).len(),
    decreases cats.len(),
{
    reveal_with_fuel(Seq::filter, 1);
    if cats.len() > 0 {
        lemma_grouped_len_push(items, x, cats.drop_last());
        lemma_of_category_push(items, x, cats.last());
    } else {
        assert(cats.filter(|c: Category| c == x.category) =~= Seq::<Category>::empty());
    }
}

proof fn lemma_order_has_each_once(c: Category)
    ensures
        category_order().filter(|d: Category| d == c).len() == 1,
{
    reveal_with_fuel(Seq::filter, 8);
    let o = category_order();
    assert(o.drop_last() =~= seq![
        Category::PackageCache,
        Category::EditorStorage,
        Category::BuildArtifact,
        Category::Temp,
        Category::Model,
        Category::Browser,
    ]);
    assert(o.drop_last().drop_last() =~= seq![
        Category::PackageCache,
        Category::EditorStorage,
        Category::BuildArtifact,
        Category::Temp,
        Category::Model,
    ]);
    assert(o.drop_last().drop_last().drop_last() =~= seq![
        Category::PackageCache,
        Category::EditorStorage,
        Category::BuildArtifact,
        Category::Temp,
    ]);
    assert(o.drop_last().drop_last().drop_last().drop_last() =~= seq![
        Category::PackageCache,
        Category::EditorStorage,
        Category::BuildArtifact,
    ]);
    assert(o.drop_last().drop_last().drop_last().drop_last().drop_last() =~= seq![
        Category::PackageCache,
        Category::EditorStorage,
    ]);
    assert(o.drop_last().drop_last().drop_last().drop_last().drop_last().drop_last() =~= seq![
        Category::PackageCache,
    ]);
    assert(o.drop_last().drop_last().drop_last().drop_last().drop_last().drop_last().drop_last() =~= Seq::<Category>::empty());
}

proof fn lemma_grouped_len_total(items: Seq<CleanupItem>)
    ensures
        grouped_len(items, category_order()) == items.len(),
    decreases items.len(),
{
    if items.len() == 0 {
        lemma_grouped_len_empty(items, category_order());
    } else {
        let p = items.drop_last();
        lemma_grouped_len_total(p);
        assert(p.push(items.last()) =~= items);
        lemma_grouped_len_push(p, items.last(), category_order());
        lemma_order_has_each_once(items.last().category);
    }
}

proof fn lemma_grouped_len_empty(items: Seq<CleanupItem>, cats: Seq<Category>)
    requires
        items.len() == 0,
    ensures
        grouped_len(items, cats) == 0,
    decreases cats.len(),
{
    if cats.len() > 0 {
        lemma_grouped_len_empty(items, cats.drop_last());
    }
}

/// The position of a category in the report's fixed order.
pub open spec fn category_rank(c: Category) -> int {
    match c {
        Category::PackageCache => 0,
        Category::EditorStorage => 1,
        Category::BuildArtifact => 2,
        Category::Temp => 3,
        Category::Model => 4,
        Category::Browser => 5,
        Category::Other => 6,
    }
}

proof fn lemma_of_category_members(items: Seq<CleanupItem>, c: Category)
    ensures
        forall|k: int| 0 <= k < of_category(items, c).len() ==> (#[trigger] of_category(items, c)[k]).category == c
            && items.contains(of_category(items, c)[k]),
    decreases items.len(),
{
    if items.len() > 0 {
        let d = items.drop_last();
        lemma_of_category_members(d, c);
        let o = of_category(items, c);
        let p = of_category(d, c);
        assert forall|k: int| 0 <= k < o.len() implies (#[trigger] o[k]).category == c && items.contains(o[k]) by {
            if k < p.len() {
                assert(o[k] == p[k]);
                let w = choose|w: int| 0 <= w < d.len() && d[w] == p[k];
                assert(items[w] == d[w]);
            } else {
                assert(o[k] == items.last());
                assert(items[items.len() - 1] == items.last());
            }
        }
    }
}

proof fn lemma_grouped_ranks(items: Seq<CleanupItem>, cats: Seq<Category>)
    requires
        forall|i: int, j: int| 0 <= i < j < cats.len() ==> category_rank(#[trigger] cats[i]) < category_rank(
            #[trigger] cats[j],
        ),
    ensures
        forall|i: int, j: int|
            0 <= i < j < grouped(items, cats).len() ==> category_rank(#[trigger] grouped(items, cats)[i].category)
                < category_rank(#[trigger] grouped(items, cats)[j].category),
    decreases cats.len(),
{
    if cats.len() > 0 {
        let p = cats.drop_last();
        assert forall|i: int, j: int| 0 <= i < j < p.len() implies category_rank(#[trigger] p[i]) < category_rank(
            #[trigger] p[j],
        ) by {
            assert(p[i] == cats[i] && p[j] == cats[j]);
        }
        lemma_grouped_ranks(items, p);
        lemma_grouped_shape(items, p);
        let g = grouped(items, cats);
        let rest = grouped(items, p);
        if of_category(items, cats.last()).len() > 0 {
            assert forall|i: int, j: int| 0 <= i < j < g.len() implies category_rank(#[trigger] g[i].category)
                < category_rank(#[trigger] g[j].category) by {
                assert(g[i] == rest[i]);
                if j < rest.len() {
                    assert(g[j] == rest[j]);
                } else {
                    let k = choose|k: int| 0 <= k < p.len() && p[k] == rest[i].category;
                    assert(cats[k] == p[k]);
                    assert(cats[cats.len() - 1] == cats.last());
                }
            }
        } else {
            assert(g == rest);
        }
    }
}

/// What aggregation promises: the groups come in the fixed category order
/// (package caches, editor storage, build artifacts, temporary files,
/// models, browsers, other), each category at most once; every group is
/// non-empty, holds exactly the findings of its category (in scan order),
/// each one a finding of the scan and of that category, under that
/// category's label, and carries their byte total; every finding lands in
/// exactly one group, so the groups hold as many findings as the scan
/// produced.
pub proof fn law_report_groups_partition_findings(items: Seq<CleanupItem>)
    ensures
        crate::model::view_items(grouped(items, category_order())).len() == items.len(),
        forall|i: int, j: int|
            0 <= i < j < grouped(items, category_order()).len() ==> category_rank(
                #[trigger] grouped(items, category_order())[i].category,
            ) < category_rank(#[trigger] grouped(items, category_order())[j].category),
        forall|i: int| 0 <= i < grouped(items, category_order()).len() ==> (#[trigger] grouped(items, category_order())[i]).items.len() > 0
            && grouped(items, category_order())[i].items == of_category(items, grouped(items, category_order())[i].category)
            && grouped(items, category_order())[i].label == category_label(grouped(items, category_order())[i].category)
            && grouped(items, category_order())[i].total_bytes == sat_total(grouped(items, category_order())[i].items)
            && (forall|k: int| 0 <= k < grouped(items, category_order())[i].items.len()
                ==> (#[trigger] grouped(items, category_order())[i].items[k]).category
                == grouped(items, category_order())[i].category && items.contains(
                grouped(items, category_order())[i].items[k],
            )),
{
    lemma_grouped_shape(items, category_order());
    lemma_grouped_len_total(items);
    lemma_grouped_ranks(items, category_order());
    let g = grouped(items, category_order());
    assert forall|i: int| 0 <= i < g.len() implies forall|k: int| 0 <= k < (#[trigger] g[i]).items.len()
        ==> (#[trigger] g[i].items[k]).category == g[i].category && items.contains(g[i].items[k]) by {
        lemma_of_category_members(items, g[i].category);
    }
}

/// The exact byte total of the findings of each category of `cats`, added.
pub open spec fn grouped_size(items: Seq<CleanupItem>, cats: Seq<Category>) -> nat
    decreases cats.len(),
{
    if cats.len() == 0 {
        0
    } else {
        grouped_size(items, cats.drop_last()) + size_sum(of_category(items, cats.last()))
    }
}

/// The byte totals of the groups `gs`, added.
pub open spec fn groups_total(gs: Seq<CategoryGroupView>) -> nat
    decreases gs.len(),
{
    if gs.len() == 0 {
        0
    } else {
        groups_total(gs.drop_last()) + gs.last().total_bytes as nat
    }
}

proof fn lemma_sat_total_exact(items: Seq<CleanupItem>)
    requires
        size_sum(items) <= u64::MAX,
    ensures
        sat_total(items) == size_sum(items),
    decreases items.len(),
{
    if items.len() > 0 {
        lemma_sat_total_exact(items.drop_last());
    }
}

proof fn lemma_of_category_size(items: Seq<CleanupItem>, c: Category)
    ensures
        size_sum(of_category(items, c)) <= size_sum(items),
    decreases items.len(),
{
    if items.len() > 0 {
        lemma_of_category_size(items.drop_last(), c);
        if items.last().category == c {
            assert(of_category(items, c).drop_last() =~= of_category(items.drop_last(), c));
        }
    }
}

proof fn lemma_grouped_size_push(items: Seq<CleanupItem>, x: CleanupItem, cats: Seq<Category>)
    ensures
        grouped_size(items.push(x), cats) == grouped_size(items, cats) + cats.filter(|c: Category| c == x.category).len()
            * x.size_bytes,
    decreases cats.len(),
{
    reveal_with_fuel(Seq::filter, 1);
    if cats.len() > 0 {
        let p = cats.drop_last();
        lemma_grouped_size_push(items, x, p);
        assert(items.push(x).drop_last() =~= items);
        let n = p.filter(|c: Category| c == x.category).len();
        let m = cats.filter(|c: Category| c == x.category).len();
        let sz = x.size_bytes as int;
        if cats.last() == x.category {
            assert(of_category(items.push(x), cats.last()).drop_last() =~= of_category(items, cats.last()));
            assert(m == n + 1);
            assert(m * sz == n * sz + sz) by (nonlinear_arith)
                requires
                    m == n + 1,
            ;
        } else {
            assert(m == n);
        }
    } else {
        assert(cats.filter(|c: Category| c == x.category) =~= Seq::<Category>::empty());
    }
}

proof fn lemma_grouped_size_empty(items: Seq<CleanupItem>, cats: Seq<Category>)
    requires
        items.len() == 0,
    ensures
        grouped_size(items, cats) == 0,
    decreases cats.len(),
{
    if cats.len() > 0 {
        lemma_grouped_size_empty(items, cats.drop_last());
    }
}

proof fn lemma_grouped_size_total(items: Seq<CleanupItem>)
    ensures
        grouped_size(items, category_order()) == size_sum(items),
    decreases items.len(),
{
    if items.len() == 0 {
        lemma_grouped_size_empty(items, category_order());
    } else {
        let p = items.drop_last();
        lemma_grouped_size_total(p);
        assert(p.push(items.last()) =~= items);
        lemma_grouped_size_push(p, items.last(), category_order());
        lemma_order_has_each_once(items.last().category);
    }
}

proof fn lemma_groups_total_exact(items: Seq<CleanupItem>, cats: Seq<Category>)
    requires
        size_sum(items) <= u64::MAX,
    ensures
        groups_total(grouped(items, cats)) == grouped_size(items, cats),
    decreases cats.len(),
{
    if cats.len() > 0 {
        let p = cats.drop_last();
        lemma_groups_total_exact(items, p);
        let gi = of_category(items, cats.last());
        lemma_of_category_size(items, cats.last());
        lemma_sat_total_exact(gi);
        if gi.len() > 0 {
            assert(grouped(items, cats).drop_last() == grouped(items, p));
        } else {
            assert(gi =~= Seq::<CleanupItem>::empty());
        }
    }
}

/// The report's totals add up: when the findings' exact byte total fits in
/// a `u64`, the group totals add up to it, and so does the report total.
pub proof fn law_report_totals_add_up(items: Seq<CleanupItem>)
    requires
        size_sum(items) <= u64::MAX,
    ensures
        groups_total(grouped(items, category_order())) == size_sum(items),
        sat_total(items) == size_sum(items),
{
    lemma_grouped_size_total(items);
    lemma_groups_total_exact(items, category_order());
    lemma_sat_total_exact(items);
}

/// The scanned roots hold every display root, and each only once.
pub proof fn law_scanned_roots_dedup(s: Seq<Seq<char>>)
    ensures
        forall|x: Seq<char>| #[trigger] dedup(s).contains(x) <==> s.contains(x),
        forall|i: int, j: int| 0 <= i < j < dedup(s).len() ==> #[trigger] dedup(s)[i] != #[trigger] dedup(s)[j],
    decreases s.len(),
{
    if s.len() > 0 {
        let p = s.drop_last();
        law_scanned_roots_dedup(p);
        let d = dedup(s);
        let dp = dedup(p);
        assert(s.last() == s[s.len() - 1]);
        if dp.contains(s.last()) {
            assert(d == dp);
        } else {
            assert(d == dp.push(s.last()));
        }
        assert forall|x: Seq<char>| #[trigger] d.contains(x) <==> s.contains(x) by {
            if d.contains(x) {
                let k = choose|k: int| 0 <= k < d.len() && d[k] == x;
                if !dp.contains(s.last()) && k == d.len() - 1 {
                    assert(s[s.len() - 1] == x);
                } else {
                    assert(dp[k] == x);
                    assert(dp.contains(x));
                    let m = choose|m: int| 0 <= m < p.len() && p[m] == x;
                    assert(s[m] == x);
                }
            }
            if s.contains(x) {
                let m = choose|m: int| 0 <= m < s.len() && s[m] == x;
                if m == s.len() - 1 {
                    if dp.contains(s.last()) {
                        let k = choose|k: int| 0 <= k < dp.len() && dp[k] == x;
                        assert(d[k] == x);
                    } else {
                        assert(d[d.len() - 1] == x);
                    }
                } else {
                    assert(p[m] == x);
                    assert(p.contains(x));
                    assert(dp.contains(x));
                    let k = choose|k: int| 0 <= k < dp.len() && dp[k] == x;
                    assert(d[k] == x);
                }
            }
        }
        assert forall|i: int, j: int| 0 <= i < j < d.len() implies #[trigger] d[i] != #[trigger] d[j] by {
            if !dp.contains(s.last()) && j == d.len() - 1 {
                assert(d[i] == dp[i]);
                if d[i] == d[j] {
                    assert(dp.contains(s.last()));
                }
            } else {
                assert(d[i] == dp[i]);
                assert(d[j] == dp[j]);
            }
        }
    }
}

} // verus!
