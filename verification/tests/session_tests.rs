use oss_client::session::{
    reconcile, scan_sessions, scan_step, PartRecord, RemoteSession, ScanStep, SessionAction,
};
use oss_client::transfer::{CHUNK_SIZE, MAX_CHUNKS, MB};
use oss_client::UploadError;

fn record(part_number: i32, entity_tag: &str, size: u64) -> PartRecord {
    PartRecord { part_number, entity_tag: entity_tag.to_string(), size }
}

fn listing() -> Vec<RemoteSession> {
    vec![
        RemoteSession { upload_id: "empty-1".to_string(), parts: vec![] },
        RemoteSession {
            upload_id: "resumable".to_string(),
            parts: vec![record(1, "tag-1", 8 * MB), record(2, "tag-2", 8 * MB)],
        },
        RemoteSession { upload_id: "empty-2".to_string(), parts: vec![] },
    ]
}

#[test]
fn scan_takes_first_session_with_parts() {
    let outcome = scan_sessions(listing());
    assert_eq!(outcome.aborts, vec!["empty-1".to_string()]);
    let cand = outcome.resume.unwrap();
    assert_eq!(cand.upload_id, "resumable".to_string());
    assert_eq!(cand.part_size, 8 * MB);
    assert_eq!(cand.parts.len(), 2);
    assert_eq!(cand.parts[0].entity_tag, "tag-1".to_string());
}

#[test]
fn scan_aborts_every_empty_session_when_none_resumes() {
    let sessions = vec![
        RemoteSession { upload_id: "a".to_string(), parts: vec![] },
        RemoteSession { upload_id: "b".to_string(), parts: vec![] },
    ];
    let outcome = scan_sessions(sessions);
    assert!(outcome.resume.is_none());
    assert_eq!(outcome.aborts, vec!["a".to_string(), "b".to_string()]);
}

#[test]
fn scan_step_aborts_empty_and_takes_nonempty() {
    match scan_step("x".to_string(), vec![]) {
        ScanStep::Abort(id) => assert_eq!(id, "x".to_string()),
        ScanStep::Take(_) => panic!("an empty session must be aborted"),
    }
    match scan_step("y".to_string(), vec![record(3, "t", 123)]) {
        ScanStep::Abort(_) => panic!("a session with parts must be taken"),
        ScanStep::Take(c) => {
            assert_eq!(c.upload_id, "y".to_string());
            assert_eq!(c.part_size, 123);
        },
    }
}

#[test]
fn reconcile_resumes_matching_part_size() {
    let outcome = scan_sessions(listing());
    let v = reconcile(100 * MB, MAX_CHUNKS, CHUNK_SIZE, outcome.resume).unwrap();
    assert_eq!(v.action, SessionAction::Resume);
    assert_eq!(v.plan.part_size, 8 * MB);
    assert_eq!(v.known_parts.len(), 2);
    assert_eq!(v.known_parts[1].entity_tag, "tag-2".to_string());
}

#[test]
fn reconcile_discards_session_when_part_size_is_rebuilt() {
    // At most 10 chunks: the observed 8 MiB part size would need 13, so
    // the old session is aborted and its parts are discarded.
    let outcome = scan_sessions(listing());
    let v = reconcile(100 * MB, 10, CHUNK_SIZE, outcome.resume).unwrap();
    assert_eq!(v.action, SessionAction::AbortAndCreate);
    assert_eq!(v.plan.part_size, 10 * MB + 1);
    assert_eq!(v.known_parts.len(), 0);
}

#[test]
fn reconcile_creates_fresh_session_without_candidate() {
    let v = reconcile(100 * MB, MAX_CHUNKS, CHUNK_SIZE, None).unwrap();
    assert_eq!(v.action, SessionAction::CreateNew);
    assert_eq!(v.known_parts.len(), 0);
    assert_eq!(v.plan.part_size, CHUNK_SIZE);
}

#[test]
fn reconcile_rejects_empty_file() {
    assert_eq!(
        reconcile(0, MAX_CHUNKS, CHUNK_SIZE, None).unwrap_err(),
        UploadError::EmptyFile
    );
}

#[test]
fn reconcile_twice_against_untouched_listing_gives_same_known_parts() {
    let first = reconcile(100 * MB, MAX_CHUNKS, CHUNK_SIZE, scan_sessions(listing()).resume)
        .unwrap();
    let second = reconcile(100 * MB, MAX_CHUNKS, CHUNK_SIZE, scan_sessions(listing()).resume)
        .unwrap();
    assert_eq!(first.known_parts.len(), second.known_parts.len());
    for (a, b) in first.known_parts.iter().zip(second.known_parts.iter()) {
        assert_eq!(a.part_number, b.part_number);
        assert_eq!(a.entity_tag, b.entity_tag);
        assert_eq!(a.size, b.size);
    }
}
