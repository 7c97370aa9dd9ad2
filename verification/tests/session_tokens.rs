use safai::cli::{authorize_delete, check_delete_request, check_preview_request, CliError};
use safai::dto::DeletePlan;
use safai::model::{Category, CategoryGroup, CleanupItem, SafetyTier, ScanReport};
use safai::session::{
    preview_token_bytes, resolve_ids, same_id_multiset, save_preview_token, sort_ids, token_text,
    verify_token, ItemIndex, ScanSession, SESSION_VERSION,
};
use sha2::{Digest, Sha256};

fn item(id: &str, path: &str, size_bytes: u64) -> CleanupItem {
    CleanupItem {
        id: id.to_string(),
        rule_id: "npm-cache".to_string(),
        label: id.to_string(),
        category: Category::PackageCache,
        tier: SafetyTier::Safe,
        path: path.to_string(),
        size_bytes,
        regenerates: true,
        last_modified_secs: None,
        note: String::new(),
        selected_by_default: true,
    }
}

fn report() -> ScanReport {
    ScanReport {
        total_reclaimable_bytes: 300,
        groups: vec![
            CategoryGroup {
                category: Category::PackageCache,
                label: "Package caches".to_string(),
                total_bytes: 100,
                items: vec![item("a", "C:/a", 100)],
            },
            CategoryGroup {
                category: Category::Temp,
                label: "Temporary files".to_string(),
                total_bytes: 200,
                items: vec![item("b", "C:/b", 200)],
            },
        ],
        scanned_roots: vec!["C:/".to_string()],
        warnings: Vec::new(),
    }
}

fn strings(v: &[&str]) -> Vec<String> {
    v.iter().map(|s| s.to_string()).collect()
}

fn plan(total_bytes: u64, blocked_count: u32) -> DeletePlan {
    DeletePlan { items: Vec::new(), total_bytes, blocked_count }
}

#[test]
fn a_session_indexes_every_finding_by_id() {
    let s = ScanSession::from_report_at(report(), &strings(&["C:/Users/x"]), 77);
    assert_eq!(s.version, SESSION_VERSION);
    assert_eq!(s.created_at_secs, 77);
    assert_eq!(s.allowed_roots, strings(&["C:/Users/x"]));
    assert_eq!(s.items.get("a").map(|i| i.size_bytes), Some(100));
    assert_eq!(s.items.get("b").map(|i| i.path.as_str()), Some("C:/b"));
    assert!(s.items.get("c").is_none());
    assert!(s.pending_token.is_none());
    assert!(s.pending_ids.is_empty());
}

#[test]
fn a_later_finding_with_the_same_id_wins() {
    let mut index = ItemIndex::new();
    index.insert(item("a", "C:/old", 1));
    index.insert(item("b", "C:/b", 2));
    index.insert(item("a", "C:/new", 3));
    assert_eq!(index.get("a").map(|i| i.path.as_str()), Some("C:/new"));
    let resolved = resolve_ids(&index, &strings(&["b", "zzz", "a"]));
    assert_eq!(resolved[0].as_ref().map(|i| i.size_bytes), Some(2));
    assert!(resolved[1].is_none());
    assert_eq!(resolved[2].as_ref().map(|i| i.size_bytes), Some(3));
    index.clear();
    assert!(index.get("a").is_none());
}

#[test]
fn ids_sort_by_their_characters() {
    let sorted = sort_ids(&strings(&["b", "a", "ab", "", "B", "a"]));
    assert_eq!(sorted, strings(&["", "B", "a", "a", "ab", "b"]));
    let mut by_std = strings(&["z\u{e9}", "za", "zz", "\u{e9}"]);
    let mine = sort_ids(&by_std);
    by_std.sort();
    assert_eq!(mine, by_std);
}

#[test]
fn the_token_preimage_binds_time_totals_ids_and_paths() {
    let s = ScanSession::from_report_at(report(), &strings(&["C:/"]), 1);
    let bytes = preview_token_bytes(&s, &strings(&["b", "x"]), &plan(256, 2));
    let mut expected: Vec<u8> = Vec::new();
    expected.extend_from_slice(&1u64.to_le_bytes());
    expected.extend_from_slice(&256u64.to_le_bytes());
    expected.extend_from_slice(&2u32.to_le_bytes());
    expected.extend_from_slice(b"b\0x\0");
    expected.extend_from_slice(b"C:/b");
    expected.extend_from_slice(&200u64.to_le_bytes());
    assert_eq!(bytes, expected);
}

#[test]
fn the_token_is_the_hex_sha256_of_its_preimage() {
    let s = ScanSession::from_report_at(report(), &strings(&["C:/"]), 1_700_000_000);
    let ids = strings(&["b", "a"]);
    let p = plan(300, 0);
    let token = save_preview_token(&s, &ids, &p);
    let digest = Sha256::digest(preview_token_bytes(&s, &ids, &p));
    let expected: String = digest.iter().map(|b| format!("{b:02x}")).collect();
    assert_eq!(token, expected);
    assert_eq!(token.len(), 64);
    // Order of the ids does not matter; their set does.
    assert_eq!(save_preview_token(&s, &strings(&["a", "b"]), &p), token);
    assert_ne!(save_preview_token(&s, &strings(&["a"]), &p), token);
    assert_ne!(save_preview_token(&s, &ids, &plan(301, 0)), token);
}

#[test]
fn tokens_are_lowercase_hex() {
    assert_eq!(token_text(&vec![0x00, 0x0f, 0xa0, 0xff]), "000fa0ff");
    assert_eq!(token_text(&Vec::new()), "");
}

#[test]
fn a_token_authorizes_its_ids_in_any_order_once() {
    let mut s = ScanSession::from_report_at(report(), &strings(&["C:/"]), 5);
    assert!(!verify_token(&s, &strings(&["a"]), "t"), "no preview yet");
    s.remember_preview("t".to_string(), strings(&["a", "b", "a"]));
    assert!(verify_token(&s, &strings(&["b", "a", "a"]), "t"));
    assert!(!verify_token(&s, &strings(&["a", "b"]), "t"), "multiplicity counts");
    assert!(!verify_token(&s, &strings(&["a", "b", "a"]), "u"));
    let ok = authorize_delete(&s, &strings(&["a", "zzz"]), "t");
    assert!(ok.is_err(), "different ids");
    let ok = authorize_delete(&s, &strings(&["a", "a", "b"]), "t").ok().expect("authorized");
    assert_eq!(ok.len(), 3);
    assert_eq!(ok[2].0, "b");
    assert_eq!(ok[2].1.as_ref().map(|i| i.size_bytes), Some(200));
    s.consume_token();
    assert!(!verify_token(&s, &strings(&["a", "b", "a"]), "t"), "the token is spent");
    match authorize_delete(&s, &strings(&["a", "b", "a"]), "t") {
        Err(CliError { code, exit, message }) => {
            assert_eq!(code, "invalid_token");
            assert_eq!(exit, 3);
            assert!(message.contains("run `safai preview` again"));
        }
        Ok(_) => panic!("a spent token must be refused"),
    }
}

#[test]
fn multisets_of_ids() {
    assert!(same_id_multiset(&strings(&[]), &strings(&[])));
    assert!(same_id_multiset(&strings(&["x", "y"]), &strings(&["y", "x"])));
    assert!(!same_id_multiset(&strings(&["x"]), &strings(&["x", "x"])));
    assert!(!same_id_multiset(&strings(&["x", "x"]), &strings(&["x", "y"])));
}

#[test]
fn the_command_line_asks_for_ids_and_a_yes() {
    let e = check_preview_request(&Vec::new()).err().unwrap();
    assert_eq!((e.code.as_str(), e.exit), ("missing_ids", 2));
    assert_eq!(e.message, "pass --ids with at least one item id from the last scan");
    assert!(check_preview_request(&strings(&["a"])).is_ok());
    let e = check_delete_request(false, &strings(&["a"])).err().unwrap();
    assert_eq!((e.code.as_str(), e.exit), ("confirmation_required", 3));
    let e = check_delete_request(true, &Vec::new()).err().unwrap();
    assert_eq!((e.code.as_str(), e.exit), ("missing_ids", 2));
    assert_eq!(e.message, "pass --ids with the same ids used in preview");
    assert!(check_delete_request(true, &strings(&["a"])).is_ok());
    let e = CliError::new("serialize", "boom".to_string(), 2);
    assert_eq!((e.code.as_str(), e.message.as_str(), e.exit), ("serialize", "boom", 2));
}
