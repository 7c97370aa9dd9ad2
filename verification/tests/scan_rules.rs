use safai::assembly::{started_event, CandidateList, ScanAssembly, ScanWarning};
use safai::model::{Category, SafetyTier, ScanEvent};
use safai::rules::all_rules;
use safai::scan::{
    build_report, is_discovery_candidate, label_for, measuring_message, partition_rules, path_overlaps,
    pattern_rule_for, pending_for_rule, pending_large_folder, scanned_roots, should_prune, stable_id,
    LargeFolderFilter, CANCELLED_WARNING, LARGE_FOLDER_NOTE, MAX_LARGE_FOLDERS, MIN_LARGE_FOLDER_BYTES,
    WALK_TIMEOUT_WARNING,
};
use safai::walk::{walk_progress_message, PrunedWalk};

const GIB: u64 = 1024 * 1024 * 1024;

#[test]
fn stable_id_is_deterministic() {
    let a = stable_id("C:/Users/x/node_modules");
    let b = stable_id("C:/Users/x/node_modules");
    let c = stable_id("C:/Users/x/other");
    assert_eq!(a, b, "same path must yield same id");
    assert_ne!(a, c, "different paths should differ");
    assert_eq!(a.len(), 16, "id is 16 hex chars");
}

/// FNV-1a 64 over the UTF-8 bytes, as lowercase zero-padded hex.
fn fnv_reference(s: &str) -> String {
    let mut h: u64 = 0xcbf29ce484222325;
    for b in s.bytes() {
        h ^= b as u64;
        h = h.wrapping_mul(0x100000001b3);
    }
    format!("{h:016x}")
}

#[test]
fn stable_id_is_the_fnv1a_hash_of_the_path() {
    assert_eq!(stable_id(""), "cbf29ce484222325");
    assert_eq!(stable_id("a"), "af63dc4c8601ec8c");
    for p in ["C:/Users/x/node_modules", "D:/projects/caf\u{e9}/target", "x"] {
        assert_eq!(stable_id(p), fnv_reference(p));
    }
}

#[test]
fn category_labels() {
    assert_eq!(label_for(Category::PackageCache), "Package caches");
    assert_eq!(label_for(Category::Other), "Other large items");
    assert_eq!(label_for(Category::BuildArtifact), "Build artifacts");
}

#[test]
fn overlap_is_equality_or_ancestry_on_whole_components() {
    let existing = vec!["c:/users/x/appdata/local/npm-cache".to_string()];
    assert!(path_overlaps("c:/users/x/appdata/local/npm-cache", &existing));
    assert!(path_overlaps("c:/users/x/appdata/local", &existing));
    assert!(path_overlaps("c:/users/x/appdata/local/npm-cache/_cacache", &existing));
    assert!(!path_overlaps("c:/users/x/appdata/local/npm-cache2", &existing));
    assert!(!path_overlaps("c:/users/y", &existing));
}

#[test]
fn large_folder_filter_respects_overlap_size_and_count() {
    let mut f = LargeFolderFilter::new(&vec!["C:/Users/x/AppData/Local/npm-cache/".to_string()]);
    assert!(!f.pass("C:/Users/x/AppData/Local", 5 * GIB), "an ancestor of a finding overlaps");
    assert!(!f.pass("C:/Users/x/small", MIN_LARGE_FOLDER_BYTES - 1), "below one GiB");
    assert!(f.pass("C:/Users/x/big", MIN_LARGE_FOLDER_BYTES));
    for i in 1..MAX_LARGE_FOLDERS {
        assert!(f.pass(&format!("C:/Users/x/big{i}"), 2 * GIB));
    }
    assert!(!f.pass("C:/Users/x/one-too-many", 9 * GIB), "the cap is reached");
}

#[test]
fn findings_are_preselected_only_when_safe() {
    let rules = all_rules();
    for rule in &rules {
        let job = pending_for_rule(rule, "p".to_string());
        assert_eq!(job.selected_by_default, rule.tier == SafetyTier::Safe);
        assert!(!job.is_large_folder);
    }
    let big = pending_large_folder("D:/stuff".to_string(), Some("stuff".to_string()));
    assert!(!big.selected_by_default);
    assert_eq!(big.tier, SafetyTier::Caution);
    assert_eq!(big.rule_id, "large-folder");
    assert_eq!(big.note, LARGE_FOLDER_NOTE);
    let unnamed = pending_large_folder("D:/".to_string(), None);
    assert_eq!(unnamed.label, "folder");
}

#[test]
fn reports_group_by_category_in_the_stable_order() {
    let rules = all_rules();
    let npm = rules.iter().find(|r| r.id == "npm-cache").unwrap();
    let temp = rules.iter().find(|r| r.id == "windows-temp").unwrap();
    let mut found = ScanAssembly::new();
    found.add_file(temp, &"C:/t/a".to_string(), 5, None);
    found.add_file(npm, &"C:/n/a".to_string(), 7, Some(3));
    found.add_file(npm, &"C:/n/b".to_string(), u64::MAX, None);
    let report = found.finish(vec!["C:/".to_string()]);
    assert_eq!(report.groups.len(), 2);
    assert_eq!(report.groups[0].category, Category::PackageCache);
    assert_eq!(report.groups[0].label, "Package caches");
    assert_eq!(report.groups[0].items.len(), 2);
    assert_eq!(report.groups[0].total_bytes, u64::MAX, "totals saturate");
    assert_eq!(report.groups[1].category, Category::Temp);
    assert_eq!(report.groups[1].total_bytes, 5);
    assert_eq!(report.total_reclaimable_bytes, u64::MAX);
    assert_eq!(report.scanned_roots, vec!["C:/".to_string()]);
}

#[test]
fn an_empty_scan_has_no_groups() {
    let report = build_report(Vec::new(), Vec::new(), vec!["w".to_string()]);
    assert!(report.groups.is_empty());
    assert_eq!(report.total_reclaimable_bytes, 0);
    assert_eq!(report.warnings, vec!["w".to_string()]);
}

#[test]
fn sizing_turns_jobs_into_findings_once_each() {
    let rules = all_rules();
    let nm = rules.iter().find(|r| r.id == "node-modules").unwrap();
    let npm = rules.iter().find(|r| r.id == "npm-cache").unwrap();
    let mut found = ScanAssembly::new();
    let file = found.add_file(npm, &"C:\\Users\\x\\AppData\\Local\\npm-cache".to_string(), 100, None);
    assert_eq!(file.path, "C:/Users/x/AppData/Local/npm-cache", "findings carry the display path");
    assert_eq!(file.id, stable_id("C:/Users/x/AppData/Local/npm-cache"));
    found.add_job(pending_for_rule(nm, "C:\\p\\node_modules".to_string()));
    found.add_job(pending_large_folder("C:\\p".to_string(), Some("p".to_string())));
    found.add_job(pending_large_folder("D:\\big".to_string(), Some("big".to_string())));
    found.add_job(pending_large_folder("D:\\tiny".to_string(), Some("tiny".to_string())));
    found.warn(ScanWarning::WalkTimedOut);
    assert_eq!(found.start_sizing(), 5);
    assert_eq!(found.job_path(0), "C:\\p\\node_modules");

    let nm_item = found.finish_job(0, 10, Some(42)).expect("rule directories are always surfaced");
    assert_eq!(nm_item.path, "C:/p/node_modules");
    assert_eq!(nm_item.size_bytes, 10);
    assert_eq!(nm_item.last_modified_secs, Some(42));
    assert!(found.finish_job(0, 10, Some(42)).is_none(), "a job is handed over once");
    assert!(found.finish_job(1, 50 * GIB, None).is_none(), "C:/p contains a finding");
    let big = found.finish_job(2, 3 * GIB, None).expect("a big unclaimed folder");
    assert!(!big.selected_by_default);
    assert!(found.finish_job(3, GIB - 1, None).is_none(), "too small");
    assert_eq!(found.item_count(), 3);
    found.warn(ScanWarning::Cancelled);

    let report = found.finish(Vec::new());
    assert_eq!(report.warnings, vec![WALK_TIMEOUT_WARNING.to_string(), CANCELLED_WARNING.to_string()]);
    assert_eq!(report.total_reclaimable_bytes, 100 + 10 + 3 * GIB);
    let cats: Vec<Category> = report.groups.iter().map(|g| g.category).collect();
    assert_eq!(cats, vec![Category::PackageCache, Category::BuildArtifact, Category::Other]);
}

#[test]
fn scanned_roots_drop_repeats_and_keep_first_seen_order() {
    let roots = vec!["C:/a".to_string(), "C:/b".to_string(), "C:/a".to_string(), "C:/c".to_string(), "C:/b".to_string()];
    assert_eq!(scanned_roots(&roots), vec!["C:/a".to_string(), "C:/b".to_string(), "C:/c".to_string()]);
}

#[test]
fn discovery_skips_known_and_system_folders() {
    assert!(!is_discovery_candidate("documents"));
    assert!(!is_discovery_candidate("appdata"));
    assert!(!is_discovery_candidate("onedrive - personal"));
    assert!(is_discovery_candidate("my-datasets"));
    assert!(is_discovery_candidate("node_modules"));
}

#[test]
fn pattern_rules_are_found_by_directory_name_and_pruned() {
    let rules = all_rules();
    let (fixed, pattern) = partition_rules(&rules, &Vec::new());
    assert!(!pattern.is_empty());
    for &i in &fixed {
        assert!(rules[i].pattern.is_none());
        assert!(rules[i].requires_tool.is_none(), "no tool was detected");
    }
    let nm = pattern_rule_for(&rules, &pattern, "node_modules").expect("node_modules is a pattern target");
    assert_eq!(rules[nm].id, "node-modules");
    assert!(pattern_rule_for(&rules, &pattern, "src").is_none());
    assert!(should_prune(&rules, &pattern, Some("node_modules")));
    assert!(should_prune(&rules, &pattern, Some(".GIT")));
    assert!(should_prune(&rules, &pattern, Some("AppData")));
    assert!(!should_prune(&rules, &pattern, Some("src")));
    assert!(!should_prune(&rules, &pattern, None));
}

#[test]
fn progress_lines() {
    assert_eq!(measuring_message(0), "Finishing up\u{2026}");
    assert_eq!(measuring_message(1), "Measuring 1 folder\u{2026}");
    assert_eq!(measuring_message(12), "Measuring 12 folders\u{2026}");
    assert_eq!(walk_progress_message(340), "Scanning projects\u{2026} (340 folders)");
}

#[test]
fn the_walk_never_reads_a_pruned_directory() {
    let mut walk = PrunedWalk::new(&vec!["R1".to_string(), "R2".to_string()], 8);
    assert_eq!(walk.next_dir(), Some(("R2".to_string(), 0)));
    walk.found_dir("R2/node_modules".to_string(), 0, true);
    walk.found_dir("R2/src".to_string(), 0, false);
    assert_eq!(walk.next_dir(), Some(("R2/src".to_string(), 1)));
    assert_eq!(walk.next_dir(), Some(("R1".to_string(), 0)));
    assert_eq!(walk.next_dir(), None);
}

#[test]
fn the_walk_stops_descending_at_its_depth_limit() {
    let mut walk = PrunedWalk::new(&vec!["R".to_string()], 2);
    let (r, d) = walk.next_dir().unwrap();
    walk.found_dir(format!("{r}/a"), d, false);
    let (a, d) = walk.next_dir().unwrap();
    assert_eq!(d, 1);
    walk.found_dir(format!("{a}/b"), d, false);
    let (b, d) = walk.next_dir().unwrap();
    assert_eq!((b.as_str(), d), ("R/a/b", 2));
    walk.found_dir(format!("{b}/c"), d, false);
    assert_eq!(walk.next_dir(), None, "depth 3 is reported but not read");
}

#[test]
fn discovery_candidates_are_listed_once_each() {
    let mut c = CandidateList::new();
    assert!(c.offer("datasets", "D:/Data/datasets"));
    assert!(!c.offer("datasets", "d:/data/DATASETS/"), "the same folder by another spelling");
    assert!(!c.offer("documents", "C:/Users/x/Documents"), "on the skip list");
    assert!(c.offer("vm", "D:/vm"));
    assert!(!c.offer("VM", "D:\\VM\\"), "names and paths are normalized by the list itself");
    assert!(!c.offer("Downloads", "C:\\Users\\x\\Downloads"), "the skip list ignores case");
    assert!(c.offer("Games", "E:\\Games"));
}

#[test]
fn jobs_carry_the_display_form_of_their_path() {
    let rules = all_rules();
    let nm = rules.iter().find(|r| r.id == "node-modules").unwrap();
    let job = pending_for_rule(nm, "C:\\src\\app\\node_modules".to_string());
    assert_eq!(job.path, "C:\\src\\app\\node_modules");
    assert_eq!(job.disp, "C:/src/app/node_modules");
    let big = pending_large_folder("D:\\Media".to_string(), Some("Media".to_string()));
    assert_eq!(big.disp, "D:/Media");
    assert_eq!(big.label, "Media");
}

#[test]
fn report_totals_add_up_when_they_fit() {
    let rules = all_rules();
    let npm = rules.iter().find(|r| r.id == "npm-cache").unwrap();
    let temp = rules.iter().find(|r| r.id == "windows-temp").unwrap();
    let hf = rules.iter().find(|r| r.id == "huggingface-cache").unwrap();
    let mut found = ScanAssembly::new();
    found.add_file(hf, &"C:\\hf\\a".to_string(), 300, None);
    found.add_file(temp, &"C:\\t\\a".to_string(), 5, None);
    found.add_file(npm, &"C:\\n\\a".to_string(), 7, None);
    found.add_file(npm, &"C:\\n\\b".to_string(), 11, None);
    let report = found.finish(Vec::new());
    let cats: Vec<Category> = report.groups.iter().map(|g| g.category).collect();
    assert_eq!(cats, vec![Category::PackageCache, Category::Temp, Category::Model]);
    let sum: u64 = report.groups.iter().map(|g| g.total_bytes).sum();
    assert_eq!(sum, 323);
    assert_eq!(report.total_reclaimable_bytes, 323);
    for g in &report.groups {
        assert!(!g.items.is_empty());
        for it in &g.items {
            assert_eq!(it.category, g.category);
            assert!(!it.path.contains('\\'));
        }
    }
}

#[test]
fn a_scan_opens_and_closes_its_event_stream() {
    match started_event(&vec!["C:/".to_string(), "D:/x".to_string(), "C:/".to_string()]) {
        ScanEvent::Started { roots } => assert_eq!(roots, vec!["C:/".to_string(), "D:/x".to_string()]),
        other => panic!("unexpected {other:?}"),
    }
    let rules = all_rules();
    let npm = rules.iter().find(|r| r.id == "npm-cache").unwrap();
    let mut found = ScanAssembly::new();
    found.add_file(npm, &"C:/n/a".to_string(), 7, None);
    found.add_file(npm, &"C:/n/b".to_string(), 5, None);
    let (report, finished) = found.conclude(true, vec!["C:/".to_string()]);
    assert_eq!(report.warnings, vec![CANCELLED_WARNING.to_string()]);
    match finished {
        ScanEvent::Finished { total_reclaimable_bytes, item_count } => {
            assert_eq!(total_reclaimable_bytes, 12);
            assert_eq!(item_count, 2);
        },
        other => panic!("unexpected {other:?}"),
    }
    let (quiet, _) = ScanAssembly::new().conclude(false, Vec::new());
    assert!(quiet.warnings.is_empty());
}
