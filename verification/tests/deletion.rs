use safai::delete_engine::{
    after_readonly_probe, after_remove_error, first_attempt, friendly_error_message, is_reparse_attribute,
    preflight_check, settle_outcome, short_name, DeleteOutcome, Retry, RetryStep, WorkerReply, MAX_RETRIES,
};
use safai::delete_engine::{next_removal_step, DeleteTally, RemovalStep, TIMEOUT_REASON};
use safai::dto::preview_delete;
use safai::dto::{DeleteEvent, DeletePlan};
use safai::guard::{is_within_allowed, preview_for};
use safai::session::ItemIndex;
use safai::model::{Category, CleanupItem, SafetyTier};

#[test]
fn short_names_are_the_last_component() {
    assert_eq!(short_name("C:/Users/x/node_modules"), "node_modules");
    assert_eq!(short_name("C:\\Users\\x\\target"), "target");
    assert_eq!(short_name("mixed/a\\b"), "b");
    assert_eq!(short_name("plain"), "plain");
    assert_eq!(short_name("ends/"), "");
    assert_eq!(short_name(""), "");
}

#[test]
fn error_codes_read_as_friendly_messages() {
    let p = "C:/Users/x/AppData/Local/npm-cache";
    assert_eq!(friendly_error_message(2, p), "'npm-cache' not found (already deleted)");
    assert_eq!(friendly_error_message(3, p), "path not found: 'npm-cache'");
    assert_eq!(friendly_error_message(5, p), "access denied: 'npm-cache' may be read-only or in use");
    assert_eq!(friendly_error_message(32, p), "'npm-cache' is being used by another program");
    assert_eq!(friendly_error_message(33, p), "'npm-cache' is locked by another program");
    assert_eq!(friendly_error_message(145, p), "'npm-cache' is not empty (files appeared during deletion)");
    assert_eq!(friendly_error_message(206, p), "path too long: 'npm-cache'");
    assert_eq!(friendly_error_message(1920, p), "failed to delete 'npm-cache': error 1920");
    assert_eq!(friendly_error_message(-7, p), "failed to delete 'npm-cache': error -7");
    assert_eq!(
        friendly_error_message(i32::MIN, "x"),
        format!("failed to delete 'x': error {}", i32::MIN)
    );
}

#[test]
fn preflight_reads_the_probe() {
    assert_eq!(preflight_check(false, &None), Err("already deleted".to_string()));
    assert_eq!(preflight_check(true, &None), Ok(()));
    assert_eq!(
        preflight_check(true, &Some((5, "Access is denied. (os error 5)".to_string()))),
        Err("access denied \u{2014} may require elevated permissions".to_string())
    );
    assert_eq!(
        preflight_check(true, &Some((32, String::new()))),
        Err("file is being used by another program".to_string())
    );
    assert_eq!(
        preflight_check(true, &Some((33, String::new()))),
        Err("file is locked by another program".to_string())
    );
    assert_eq!(
        preflight_check(true, &Some((87, "The parameter is incorrect. (os error 87)".to_string()))),
        Err("cannot access for deletion: The parameter is incorrect. (os error 87)".to_string())
    );
}

#[test]
fn a_file_retry_runs_its_course() {
    let r0 = first_attempt();
    assert_eq!(r0, Retry { attempt: 0, delay_ms: 10 });
    assert_eq!(after_remove_error(false, r0, 2), RetryStep::Removed);
    assert_eq!(after_remove_error(false, r0, 3), RetryStep::Removed);
    assert_eq!(after_remove_error(false, r0, 87), RetryStep::GiveUp);
    assert_eq!(after_remove_error(false, r0, 5), RetryStep::ProbeReadOnly);
    assert_eq!(
        after_readonly_probe(r0, Some(true)),
        RetryStep::ClearReadOnlyAndRetry(Retry { attempt: 1, delay_ms: 10 })
    );
    assert_eq!(
        after_readonly_probe(r0, Some(false)),
        RetryStep::WaitAndRetry(10, Retry { attempt: 1, delay_ms: 20 })
    );
    assert_eq!(
        after_readonly_probe(r0, None),
        RetryStep::WaitAndRetry(10, Retry { attempt: 1, delay_ms: 20 })
    );
    // A sharing violation that never clears: waits of 10, 20, 40, 80 ms, then
    // the fifth attempt gives up.
    let mut r = r0;
    let mut waits = Vec::new();
    loop {
        match after_remove_error(false, r, 32) {
            RetryStep::WaitAndRetry(wait, next) => {
                waits.push(wait);
                r = next;
            }
            RetryStep::GiveUp => break,
            other => panic!("unexpected step {other:?}"),
        }
    }
    assert_eq!(waits, vec![10, 20, 40, 80]);
    assert_eq!(r.attempt, MAX_RETRIES - 1);
}

#[test]
fn directory_retries_also_wait_out_a_delete_pending_state() {
    let r0 = first_attempt();
    assert_eq!(after_remove_error(true, r0, 145), RetryStep::WaitAndRetry(10, Retry { attempt: 1, delay_ms: 20 }));
    assert_eq!(after_remove_error(true, r0, 5), RetryStep::WaitAndRetry(10, Retry { attempt: 1, delay_ms: 20 }));
    assert_eq!(after_remove_error(true, r0, 33), RetryStep::GiveUp, "no lock-violation retry for directories");
    assert_eq!(after_remove_error(true, Retry { attempt: 4, delay_ms: 160 }, 32), RetryStep::GiveUp);
    assert_eq!(after_remove_error(true, r0, 2), RetryStep::Removed);
}

#[test]
fn worker_replies_settle_into_outcomes() {
    assert!(matches!(settle_outcome(WorkerReply::Finished(Ok(()))), DeleteOutcome::Success));
    assert!(matches!(settle_outcome(WorkerReply::TimedOut), DeleteOutcome::Timeout));
    match settle_outcome(WorkerReply::Finished(Err("nope".to_string()))) {
        DeleteOutcome::Error(m) => assert_eq!(m, "nope"),
        _ => panic!("expected an error"),
    }
    match settle_outcome(WorkerReply::Vanished) {
        DeleteOutcome::Error(m) => assert_eq!(m, "deletion thread panicked"),
        _ => panic!("expected an error"),
    }
}

#[test]
fn reparse_points_are_recognised_by_their_attribute() {
    assert!(is_reparse_attribute(0x400));
    assert!(is_reparse_attribute(0x410));
    assert!(!is_reparse_attribute(0x10));
}

fn item(id: &str, size: u64) -> CleanupItem {
    CleanupItem {
        id: id.to_string(),
        rule_id: "r".to_string(),
        label: id.to_string(),
        category: Category::Temp,
        tier: SafetyTier::Review,
        path: format!("C:/x/{id}"),
        size_bytes: size,
        regenerates: true,
        last_modified_secs: None,
        note: String::new(),
        selected_by_default: false,
    }
}

#[test]
fn a_preview_blocks_unknown_ids_and_paths_outside_the_roots() {
    let ids = vec!["a".to_string(), "b".to_string(), "ghost".to_string()];
    let found = vec![Some(item("a", 10)), Some(item("b", 20)), None];
    let allowed = vec![true, false, false];
    let plan: DeletePlan = preview_delete(&ids, &found, &allowed);
    assert_eq!(plan.total_bytes, 10);
    assert_eq!(plan.blocked_count, 2);
    assert!(plan.items[0].allowed);
    assert_eq!(plan.items[0].reason, None);
    assert_eq!(plan.items[1].reason.as_deref(), Some("outside allowed roots"));
    assert_eq!(plan.items[2].reason.as_deref(), Some("item not found in last scan"));
    assert_eq!(plan.items[2].tier, SafetyTier::Caution);
    assert_eq!(plan.items[2].path, "");
    assert_eq!(plan.items[2].id, "ghost");
}

#[test]
fn each_requested_deletion_takes_one_step() {
    let it = Some(item("a", 10));
    assert!(matches!(next_removal_step(true, &it, true, true, &None), RemovalStep::Skip(m) if m == "cancelled before deletion"));
    assert!(matches!(next_removal_step(false, &None, true, true, &None), RemovalStep::Skip(m) if m == "item not found in last scan"));
    assert!(matches!(next_removal_step(false, &it, false, true, &None), RemovalStep::Skip(m) if m == "outside allowed roots"));
    assert!(matches!(next_removal_step(false, &it, true, false, &None), RemovalStep::AlreadyGone));
    assert!(matches!(next_removal_step(false, &it, true, true, &None), RemovalStep::Remove));
    assert!(matches!(
        next_removal_step(false, &it, true, true, &Some((32, String::new()))),
        RemovalStep::Skip(m) if m == "file is being used by another program"
    ));
}

#[test]
fn a_deletion_pass_is_tallied() {
    let mut t = DeleteTally::new();
    match t.record_outcome("a".to_string(), "C:/a".to_string(), 10, DeleteOutcome::Success) {
        DeleteEvent::Deleted { id, size_bytes, .. } => assert_eq!((id.as_str(), size_bytes), ("a", 10)),
        other => panic!("unexpected {other:?}"),
    }
    t.record_deleted("b".to_string(), "C:/b".to_string(), u64::MAX);
    match t.record_outcome("c".to_string(), "C:/c".to_string(), 5, DeleteOutcome::Timeout) {
        DeleteEvent::Skipped { reason, .. } => assert_eq!(reason, TIMEOUT_REASON),
        other => panic!("unexpected {other:?}"),
    }
    t.record_outcome("d".to_string(), "C:/d".to_string(), 5, DeleteOutcome::Error("locked".to_string()));
    t.record_skipped("e".to_string(), String::new(), "item not found in last scan".to_string());
    let (fin, report) = t.finish();
    match fin {
        DeleteEvent::Finished { deleted, reclaimed_bytes, skipped } => {
            assert_eq!((deleted, reclaimed_bytes, skipped), (2, u64::MAX, 3));
        }
        other => panic!("unexpected {other:?}"),
    }
    assert_eq!(report.deleted, 2);
    assert_eq!(report.skipped, vec!["C:/c".to_string(), "C:/d".to_string(), String::new()]);
}

#[test]
fn the_guardrail_admits_only_paths_inside_the_roots() {
    let roots = vec!["C:\\Users\\x".to_string(), "D:/Cache/".to_string()];
    assert!(is_within_allowed("C:/Users/x/AppData/Local/npm-cache", &roots));
    assert!(is_within_allowed("c:/users/X", &roots), "case and separators do not matter");
    assert!(is_within_allowed("D:/cache/pip", &roots));
    assert!(!is_within_allowed("C:/Users/xy/junk", &roots), "a sibling with a longer name");
    assert!(!is_within_allowed("C:/Windows/System32", &roots));
    assert!(!is_within_allowed("C:/Users", &roots), "an ancestor of a root");
    assert!(!is_within_allowed("anything", &vec!["/".to_string()]), "an empty key admits nothing");
    let mut index = ItemIndex::new();
    let mut inside = item("in", 7);
    inside.path = "C:/Users/x/npm".to_string();
    let mut outside = item("out", 9);
    outside.path = "C:/Windows/Temp".to_string();
    index.insert(inside);
    index.insert(outside);
    let plan = preview_for(&index, &vec!["in".to_string(), "out".to_string(), "nope".to_string()], &roots);
    assert_eq!(plan.total_bytes, 7);
    assert_eq!(plan.blocked_count, 2);
    assert!(plan.items[0].allowed);
    assert!(!plan.items[1].allowed);
    assert!(!plan.items[2].allowed);
}
