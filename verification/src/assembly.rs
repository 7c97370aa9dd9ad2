//! How a scan's findings come together, step by step, as the walk and the
//! sizing pool report in: file findings measured inline, directory jobs
//! queued for sizing, each job turned into a finding once its size is known
//! (generic large folders only through the overlap / size / count filter),
//! warnings, and the final report.

use vstd::prelude::*;

use crate::detect::{display_path, display_text, law_display_path_is_normal};
use crate::text::{lowercase, to_lowercase};
use crate::model::{sat_add, sat_total, CleanupItem, SafetyTier, ScanEvent, ScanReport};
use crate::rules::CleanupRule;
use crate::scan::{
    build_report, category_order, dedup, dir_item, discovery_skip_names, file_item, grouped, id_of,
    is_discovery_candidate, overlap_key, overlap_key_of, overlaps_any,
    scanned_roots, LargeFolderFilter, PendingDir, CANCELLED_WARNING, MAX_LARGE_FOLDERS, MIN_LARGE_FOLDER_BYTES,
    SIZE_TIMEOUT_WARNING, WALK_TIMEOUT_WARNING,
};

verus! {

/// Is `it` the finding for the file of `rule` at display path `disp`?
pub open spec fn file_finding(it: CleanupItem, rule: CleanupRule, disp: Seq<char>, size: u64, mtime: Option<u64>) -> bool {
    &&& it.id@ == id_of(disp)
    &&& it.rule_id@ == rule.id@
    &&& it.label@ == rule.label@
    &&& it.category == rule.category
    &&& it.tier == rule.tier
    &&& it.path@ == disp
    &&& it.size_bytes == size
    &&& it.regenerates == rule.regenerates
    &&& it.last_modified_secs == mtime
    &&& it.note@ == rule.note@
    &&& it.selected_by_default == (rule.tier == SafetyTier::Safe)
}

/// Is `it` the finding for the measured directory job `job`?
pub open spec fn dir_finding(it: CleanupItem, job: PendingDir, size: u64, mtime: Option<u64>) -> bool {
    &&& it.id@ == id_of(job.disp@)
    &&& it.rule_id == job.rule_id
    &&& it.label == job.label
    &&& it.category == job.category
    &&& it.tier == job.tier
    &&& it.path == job.disp
    &&& it.size_bytes == size
    &&& it.regenerates == job.regenerates
    &&& it.last_modified_secs == mtime
    &&& it.note == job.note
    &&& it.selected_by_default == job.selected_by_default
}

/// The display paths of the rule directories among `jobs`, in order.
pub open spec fn rule_dir_paths(jobs: Seq<PendingDir>) -> Seq<Seq<char>>
    decreases jobs.len(),
{
    if jobs.len() == 0 {
        Seq::empty()
    } else if jobs.last().is_large_folder {
        rule_dir_paths(jobs.drop_last())
    } else {
        rule_dir_paths(jobs.drop_last()).push(jobs.last().disp@)
    }
}

/// The paths already attributed to a rule when sizing starts: every finding
/// so far, then every rule directory job.
pub open spec fn claimed_paths(found: Seq<CleanupItem>, jobs: Seq<PendingDir>) -> Seq<Seq<char>> {
    found.map_values(|it: CleanupItem| it.path@) + rule_dir_paths(jobs)
}

/// A job pre-selects its finding exactly when it is `Safe`, and a generic
/// large folder is always `Caution` (so never pre-selected), as
/// [`crate::scan::pending_for_rule`] and
/// [`crate::scan::pending_large_folder`] make them.
pub open spec fn preselection_sound(job: PendingDir) -> bool {
    &&& job.selected_by_default == (job.tier == SafetyTier::Safe)
    &&& job.is_large_folder ==> job.tier == SafetyTier::Caution
}

/// The warnings a scan can record.
#[derive(Debug, Clone, Copy, PartialEq, Eq, Structural)]
pub enum ScanWarning {
    /// The project walk ran out of time.
    WalkTimedOut,
    /// Sizing ran out of time.
    SizingTimedOut,
    /// The scan was cancelled.
    Cancelled,
}

/// The text of a warning.
pub open spec fn warning_text(w: ScanWarning) -> Seq<char> {
    match w {
        ScanWarning::WalkTimedOut => WALK_TIMEOUT_WARNING@,
        ScanWarning::SizingTimedOut => SIZE_TIMEOUT_WARNING@,
        ScanWarning::Cancelled => CANCELLED_WARNING@,
    }
}

/// Does the sizing of job `job`, measured at `size`, become a finding? Rule
/// directories always do; a large-folder candidate only when it overlaps no
/// claimed path, the cap is not reached, and it is at least 1 GiB.
pub open spec fn admitted(job: PendingDir, size: u64, keys: Seq<Seq<char>>, large_count: nat) -> bool {
    !job.is_large_folder || (!overlaps_any(overlap_key(job.disp@), keys) && large_count < MAX_LARGE_FOLDERS
        && size >= MIN_LARGE_FOLDER_BYTES)
}

/// The findings of one scan as they come together.
pub struct ScanAssembly {
    items: Vec<CleanupItem>,
    found_bytes: u64,
    warnings: Vec<String>,
    jobs: Vec<PendingDir>,
    handled: Vec<bool>,
    sizing: bool,
    filter: LargeFolderFilter,
}

impl ScanAssembly {
    /// The invariant every method keeps.
    pub closed spec fn wf(&self) -> bool {
        &&& self.sizing ==> self.handled@.len() == self.jobs@.len()
        &&& self.filter.passed_count() <= MAX_LARGE_FOLDERS
        &&& forall|i: int| 0 <= i < self.items@.len() ==> !(#[trigger] self.items@[i]).path@.contains('\\')
        &&& forall|j: int| 0 <= j < self.jobs@.len() ==> !(#[trigger] self.jobs@[j]).disp@.contains('\\')
        &&& forall|i: int| 0 <= i < self.items@.len() ==> (#[trigger] self.items@[i]).selected_by_default == (
        self.items@[i].tier == SafetyTier::Safe)
        &&& forall|j: int| 0 <= j < self.jobs@.len() ==> preselection_sound(#[trigger] self.jobs@[j])
    }

    /// The findings so far, in the order they were made.
    pub closed spec fn found(&self) -> Seq<CleanupItem> {
        self.items@
    }

    /// The bytes of the file findings measured inline.
    pub closed spec fn inline_bytes(&self) -> u64 {
        self.found_bytes
    }

    /// The warnings so far.
    pub closed spec fn notes(&self) -> Seq<Seq<char>> {
        self.warnings.deep_view()
    }

    /// The directory jobs queued for sizing.
    pub closed spec fn queued(&self) -> Seq<PendingDir> {
        self.jobs@
    }

    /// Whether sizing has started (no more files or jobs can be added).
    pub closed spec fn is_sizing(&self) -> bool {
        self.sizing
    }

    /// Which jobs have been handed over already.
    pub closed spec fn done(&self) -> Seq<bool> {
        self.handled@
    }

    /// The overlap keys of the claimed paths large folders must avoid.
    pub closed spec fn claimed_keys(&self) -> Seq<Seq<char>> {
        self.filter.keys()
    }

    /// How many large-folder candidates became findings.
    pub closed spec fn large_count(&self) -> nat {
        self.filter.passed_count()
    }

    /// A scan with nothing found yet.
    pub fn new() -> (r: Self)
        ensures
            r.wf(),
            !r.is_sizing(),
            r.found() == Seq::<CleanupItem>::empty(),
            r.inline_bytes() == 0,
            r.notes() == Seq::<Seq<char>>::empty(),
            r.queued() == Seq::<PendingDir>::empty(),
            r.large_count() == 0,
    {
        let none: Vec<String> = Vec::new();
        let r = ScanAssembly {
            items: Vec::new(),
            found_bytes: 0,
            warnings: Vec::new(),
            jobs: Vec::new(),
            handled: Vec::new(),
            sizing: false,
            filter: LargeFolderFilter::new(&none),
        };
        assert(r.warnings.deep_view() =~= Seq::<Seq<char>>::empty());
        r
    }

    /// Record the file of `rule` at `path`, measured at `size` bytes, under
    /// its display path; returns the finding (to announce it).
    pub fn add_file(&mut self, rule: &CleanupRule, path: &String, size: u64, mtime: Option<u64>) -> (it: CleanupItem)
        requires
            old(self).wf(),
            !old(self).is_sizing(),
        ensures
            final(self).wf(),
            !final(self).is_sizing(),
            file_finding(it, *rule, display_text(path@), size, mtime),
            final(self).found() == old(self).found().push(it),
            final(self).inline_bytes() == sat_add(old(self).inline_bytes(), size),
            final(self).notes() == old(self).notes(),
            final(self).queued() == old(self).queued(),
            final(self).large_count() == old(self).large_count(),
    {
        let disp = display_path(path.as_str());
        proof {
            law_display_path_is_normal(path@);
        }
        let it = file_item(rule, &disp, size, mtime);
        self.found_bytes = self.found_bytes.saturating_add(size);
        self.items.push(it.clone());
        it
    }

    /// Queue a directory job for sizing; its display path is the normal form
    /// of its path (as [`crate::scan::pending_for_rule`] and
    /// [`crate::scan::pending_large_folder`] make it).
    pub fn add_job(&mut self, job: PendingDir)
        requires
            old(self).wf(),
            !old(self).is_sizing(),
            job.disp@ == display_text(job.path@),
            preselection_sound(job),
        ensures
            final(self).wf(),
            !final(self).is_sizing(),
            final(self).queued() == old(self).queued().push(job),
            final(self).found() == old(self).found(),
            final(self).inline_bytes() == old(self).inline_bytes(),
            final(self).notes() == old(self).notes(),
            final(self).large_count() == old(self).large_count(),
    {
        proof {
            law_display_path_is_normal(job.path@);
        }
        self.jobs.push(job);
    }

    /// Record a warning.
    pub fn warn(&mut self, w: ScanWarning)
        requires
            old(self).wf(),
        ensures
            final(self).wf(),
            final(self).notes() == old(self).notes().push(warning_text(w)),
            final(self).is_sizing() == old(self).is_sizing(),
            final(self).found() == old(self).found(),
            final(self).inline_bytes() == old(self).inline_bytes(),
            final(self).queued() == old(self).queued(),
            final(self).done() == old(self).done(),
            final(self).claimed_keys() == old(self).claimed_keys(),
            final(self).large_count() == old(self).large_count(),
    {
        let text = match w {
            ScanWarning::WalkTimedOut => WALK_TIMEOUT_WARNING,
            ScanWarning::SizingTimedOut => SIZE_TIMEOUT_WARNING,
            ScanWarning::Cancelled => CANCELLED_WARNING,
        };
        let ghost before = self.warnings.deep_view();
        self.warnings.push(String::from_str(text));
        assert(self.warnings.deep_view() =~= before.push(warning_text(w)));
    }

    /// The bytes of the file findings measured inline.
    pub fn found_bytes(&self) -> (r: u64)
        ensures
            r == self.inline_bytes(),
    {
        self.found_bytes
    }

    /// How many findings were made so far.
    pub fn item_count(&self) -> (r: usize)
        ensures
            r == self.found().len(),
    {
        self.items.len()
    }

    /// How many directory jobs are queued.
    pub fn job_count(&self) -> (r: usize)
        ensures
            r == self.queued().len(),
    {
        self.jobs.len()
    }

    /// The path to measure for job `idx`.
    pub fn job_path(&self, idx: usize) -> (r: &String)
        requires
            idx < self.queued().len(),
        ensures
            *r == self.queued()[idx as int].path,
    {
        &self.jobs[idx].path
    }

    /// Stop adding findings and jobs, fix the claimed paths large folders
    /// must avoid, and return how many units of work the progress counts
    /// (file findings plus directory jobs).
    pub fn start_sizing(&mut self) -> (total: u32)
        requires
            old(self).wf(),
            !old(self).is_sizing(),
            old(self).found().len() + old(self).queued().len() <= u32::MAX,
        ensures
            final(self).wf(),
            final(self).is_sizing(),
            total == old(self).found().len() + old(self).queued().len(),
            final(self).done() == Seq::new(old(self).queued().len(), |i: int| false),
            final(self).claimed_keys() == claimed_paths(old(self).found(), old(self).queued()).map_values(
                |p: Seq<char>| overlap_key(p),
            ),
            final(self).large_count() == 0,
            final(self).found() == old(self).found(),
            final(self).inline_bytes() == old(self).inline_bytes(),
            final(self).notes() == old(self).notes(),
            final(self).queued() == old(self).queued(),
    {
        let mut claimed: Vec<String> = Vec::new();
        let mut i: usize = 0;
        while i < self.items.len()
            invariant
                i <= self.items@.len(),
                claimed@.len() == i,
                forall|j: int| 0 <= j < i ==> #[trigger] claimed@[j]@ == self.items@[j].path@,
            decreases self.items@.len() - i,
        {
            claimed.push(self.items[i].path.clone());
            i = i + 1;
        }
        let ghost head = claimed@;
        let mut k: usize = 0;
        while k < self.jobs.len()
            invariant
                k <= self.jobs@.len(),
                claimed@.len() == head.len() + rule_dir_paths(self.jobs@.take(k as int)).len(),
                forall|j: int| 0 <= j < head.len() ==> #[trigger] claimed@[j] == head[j],
                forall|j: int| 0 <= j < rule_dir_paths(self.jobs@.take(k as int)).len() ==> #[trigger] claimed@[head.len()
                    + j]@ == rule_dir_paths(self.jobs@.take(k as int))[j],
            decreases self.jobs@.len() - k,
        {
            proof {
                assert(self.jobs@.take(k + 1).drop_last() =~= self.jobs@.take(k as int));
            }
            if !self.jobs[k].is_large_folder {
                claimed.push(self.jobs[k].disp.clone());
            }
            k = k + 1;
        }
        proof {
            assert(self.jobs@.take(k as int) =~= self.jobs@);
        }
        let ghost paths = claimed_paths(self.items@, self.jobs@);
        assert(claimed@.len() == paths.len());
        assert forall|j: int| 0 <= j < claimed@.len() implies #[trigger] claimed@[j]@ == paths[j] by {
            if j < head.len() {
                assert(claimed@[j] == head[j]);
            } else {
                assert(claimed@[head.len() + (j - head.len())] == claimed@[j]);
            }
        }
        self.filter = LargeFolderFilter::new(&claimed);
        let mut handled: Vec<bool> = Vec::new();
        let mut h: usize = 0;
        while h < self.jobs.len()
            invariant
                h <= self.jobs@.len(),
                handled@ == Seq::new(h as nat, |i: int| false),
            decreases self.jobs@.len() - h,
        {
            handled.push(false);
            proof {
                assert(handled@ =~= Seq::new((h + 1) as nat, |i: int| false));
            }
            h = h + 1;
        }
        self.handled = handled;
        self.sizing = true;
        proof {
            assert(self.filter.keys() =~= paths.map_values(|p: Seq<char>| overlap_key(p)));
        }
        (self.items.len() + self.jobs.len()) as u32
    }

    /// Job `idx` was measured at `size` bytes: its finding, when it becomes
    /// one. Each job is handed over once; a second hand-over is ignored.
    pub fn finish_job(&mut self, idx: usize, size: u64, mtime: Option<u64>) -> (r: Option<CleanupItem>)
        requires
            old(self).wf(),
            old(self).is_sizing(),
            idx < old(self).queued().len(),
        ensures
            final(self).wf(),
            final(self).is_sizing(),
            final(self).queued() == old(self).queued(),
            final(self).notes() == old(self).notes(),
            final(self).inline_bytes() == old(self).inline_bytes(),
            final(self).claimed_keys() == old(self).claimed_keys(),
            old(self).done()[idx as int] ==> r is None && final(self).found() == old(self).found()
                && final(self).done() == old(self).done() && final(self).large_count() == old(self).large_count(),
            !old(self).done()[idx as int] ==> {
                let job = old(self).queued()[idx as int];
                let ok = admitted(job, size, old(self).claimed_keys(), old(self).large_count());
                &&& final(self).done() == old(self).done().update(idx as int, true)
                &&& ok ==> (r matches Some(it) && dir_finding(it, job, size, mtime) && final(self).found()
                    == old(self).found().push(it))
                &&& !ok ==> r is None && final(self).found() == old(self).found()
                &&& final(self).large_count() == old(self).large_count() + if job.is_large_folder && ok {
                    1nat
                } else {
                    0nat
                }
            },
    {
        if self.handled[idx] {
            return None;
        }
        self.handled.set(idx, true);
        let job = &self.jobs[idx];
        if job.is_large_folder {
            if !self.filter.pass(job.disp.as_str(), size) {
                return None;
            }
        }
        let it = dir_item(job, size, mtime);
        self.items.push(it.clone());
        Some(it)
    }

    /// The report of everything found, with the warnings recorded.
    pub fn finish(self, scanned_roots: Vec<String>) -> (r: ScanReport)
        ensures
            r.total_reclaimable_bytes == sat_total(self.found()),
            crate::model::group_views(r.groups@) == grouped(self.found(), category_order()),
            r.scanned_roots@ == scanned_roots@,
            r.warnings.deep_view() == self.notes(),
    {
        build_report(self.items, scanned_roots, self.warnings)
    }

    /// End the scan: record the cancellation warning when it was cancelled,
    /// build the report, and give the event that closes the stream, whose
    /// totals are the report's (the count of findings as a `u32`, wrapping
    /// as the event's field does).
    pub fn conclude(self, cancelled: bool, scanned_roots: Vec<String>) -> (r: (ScanReport, ScanEvent))
        requires
            self.wf(),
        ensures
            r.0.total_reclaimable_bytes == sat_total(self.found()),
            crate::model::group_views(r.0.groups@) == grouped(self.found(), category_order()),
            r.0.scanned_roots@ == scanned_roots@,
            r.0.warnings.deep_view() == if cancelled {
                self.notes().push(warning_text(ScanWarning::Cancelled))
            } else {
                self.notes()
            },
            (r.1 matches ScanEvent::Finished { total_reclaimable_bytes: t, item_count: n } && t
                == r.0.total_reclaimable_bytes && n == self.found().len() as u32),
    {
        let mut this = self;
        if cancelled {
            this.warn(ScanWarning::Cancelled);
        }
        let n: u32 = this.items.len() as u32;
        let report = this.finish(scanned_roots);
        let total = report.total_reclaimable_bytes;
        (report, ScanEvent::Finished { total_reclaimable_bytes: total, item_count: n })
    }
}

/// The event that opens a scan over the display roots `displays`: the
/// scanned roots, each once, in first-seen order.
pub fn started_event(displays: &Vec<String>) -> (r: ScanEvent)
    ensures
        (r matches ScanEvent::Started { roots } && roots.deep_view() == dedup(displays.deep_view())),
{
    ScanEvent::Started { roots: scanned_roots(displays) }
}

impl ScanAssembly {
    /// Every finding of a scan, at every step, carries a forward-slash
    /// display path: no finding's path holds a backslash.
    pub proof fn law_findings_use_forward_slashes(&self)
        requires
            self.wf(),
        ensures
            forall|i: int| 0 <= i < self.found().len() ==> !(#[trigger] self.found()[i]).path@.contains('\\'),
    {
    }

    /// Only `Safe` findings start out selected, at every step of a scan: a
    /// finding is pre-selected exactly when its tier is `Safe`, so a generic
    /// large folder (always `Caution`) never is.
    pub proof fn law_only_safe_findings_start_selected(&self)
        requires
            self.wf(),
        ensures
            forall|i: int| 0 <= i < self.found().len() ==> (#[trigger] self.found()[i]).selected_by_default == (
            self.found()[i].tier == SafetyTier::Safe),
            forall|i: int, k: int|
                0 <= i < grouped(self.found(), category_order()).len() && 0 <= k < grouped(
                    self.found(),
                    category_order(),
                )[i].items.len() ==> (#[trigger] grouped(self.found(), category_order())[i].items[k]).selected_by_default
                    == (grouped(self.found(), category_order())[i].items[k].tier == SafetyTier::Safe),
    {
        crate::scan::law_report_groups_partition_findings(self.found());
        let g = grouped(self.found(), category_order());
        assert forall|i: int, k: int| 0 <= i < g.len() && 0 <= k < g[i].items.len() implies (
        #[trigger] g[i].items[k]).selected_by_default == (g[i].items[k].tier == SafetyTier::Safe) by {
            assert(0 <= k < g[i].items.len());
            let x = g[i].items[k];
            assert(self.found().contains(x));
            let w = choose|w: int| 0 <= w < self.found().len() && self.found()[w] == x;
            assert(self.found()[w].selected_by_default == (self.found()[w].tier == SafetyTier::Safe));
        }
    }

    /// Every finding in the report a scan ends with carries a forward-slash
    /// display path: no item of any group ([`ScanAssembly::finish`] groups
    /// [`ScanAssembly::found`]) holds a backslash.
    pub proof fn law_report_paths_use_forward_slashes(&self)
        requires
            self.wf(),
        ensures
            forall|i: int, k: int|
                0 <= i < grouped(self.found(), category_order()).len() && 0 <= k < grouped(
                    self.found(),
                    category_order(),
                )[i].items.len() ==> !(#[trigger] grouped(self.found(), category_order())[i].items[k]).path@.contains(
                    '\\',
                ),
    {
        crate::scan::law_report_groups_partition_findings(self.found());
        let g = grouped(self.found(), category_order());
        assert forall|i: int, k: int| 0 <= i < g.len() && 0 <= k < g[i].items.len() implies !(
        #[trigger] g[i].items[k]).path@.contains('\\') by {
            assert(0 <= k < g[i].items.len());
            let x = g[i].items[k];
            assert(self.found().contains(x));
            let w = choose|w: int| 0 <= w < self.found().len() && self.found()[w] == x;
            assert(!self.found()[w].path@.contains('\\'));
        }
    }
}

/// However the sizing pool reports in, a scan never surfaces more than
/// [`MAX_LARGE_FOLDERS`] generic large folders, and every one it surfaces
/// overlaps no path already attributed to a rule and holds at least
/// [`MIN_LARGE_FOLDER_BYTES`].
pub proof fn law_large_folders_are_capped(job: PendingDir, size: u64, keys: Seq<Seq<char>>, large_count: nat)
    requires
        job.is_large_folder,
        admitted(job, size, keys, large_count),
    ensures
        large_count + 1 <= MAX_LARGE_FOLDERS,
        !overlaps_any(overlap_key(job.disp@), keys),
        size >= MIN_LARGE_FOLDER_BYTES,
{
}

/// Only `Safe` findings start out selected: a rule's file finding is
/// pre-selected exactly when the rule's tier is `Safe`, and so is the
/// finding of a rule directory; a generic large folder, which is always
/// `Caution`, never is.
pub proof fn law_only_safe_findings_are_preselected(
    it: CleanupItem,
    rule: CleanupRule,
    disp: Seq<char>,
    job: PendingDir,
    size: u64,
    mtime: Option<u64>,
)
    ensures
        file_finding(it, rule, disp, size, mtime) ==> (it.selected_by_default <==> it.tier == SafetyTier::Safe),
        dir_finding(it, job, size, mtime) && !job.is_large_folder && job.selected_by_default == (job.tier
            == SafetyTier::Safe) ==> (it.selected_by_default <==> it.tier == SafetyTier::Safe),
        dir_finding(it, job, size, mtime) && job.is_large_folder && !job.selected_by_default && job.tier
            == SafetyTier::Caution ==> !it.selected_by_default && it.tier == SafetyTier::Caution,
{
}

/// The large-folder candidates gathered so far, by overlap key, so that a
/// folder reachable from two roots is listed once.
pub struct CandidateList {
    seen: Vec<String>,
}

impl CandidateList {
    /// The keys of the candidates taken so far.
    pub closed spec fn keys(&self) -> Seq<Seq<char>> {
        self.seen.deep_view()
    }

    /// No candidate yet.
    pub fn new() -> (r: Self)
        ensures
            r.keys() == Seq::<Seq<char>>::empty(),
    {
        let r = CandidateList { seen: Vec::new() };
        assert(r.seen.deep_view() =~= Seq::<Seq<char>>::empty());
        r
    }

    /// Offer the child directory named `name` at `path`: take it unless its
    /// lowercased name is on the skip list or a folder with the same key (its
    /// display path, trimmed and lowercased) was taken already.
    pub fn offer(&mut self, name: &str, path: &str) -> (r: bool)
        ensures
            r == (!discovery_skip_names().contains(lowercase(name@)) && !old(self).keys().contains(
                overlap_key(display_text(path@)),
            )),
            final(self).keys() == if r {
                old(self).keys().push(overlap_key(display_text(path@)))
            } else {
                old(self).keys()
            },
    {
        let name_lower = to_lowercase(name);
        let disp = display_path(path);
        if !is_discovery_candidate(name_lower.as_str()) {
            return false;
        }
        let key = overlap_key_of(disp.as_str());
        let mut i: usize = 0;
        while i < self.seen.len()
            invariant
                i <= self.seen@.len(),
                key@ == overlap_key(display_text(path@)),
                forall|j: int| 0 <= j < i ==> #[trigger] self.seen.deep_view()[j] != key@,
            decreases self.seen@.len() - i,
        {
            if crate::text::str_eq(self.seen[i].as_str(), key.as_str()) {
                assert(self.seen.deep_view()[i as int] == key@);
                return false;
            }
            i = i + 1;
        }
        let ghost before = self.seen.deep_view();
        self.seen.push(key);
        assert(self.seen.deep_view() =~= before.push(overlap_key(display_text(path@))));
        true
    }
}

} // verus!
