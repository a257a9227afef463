use reviewbox::review_state::{
    decode_state, encode_state, state_file_location, MemoryReviewStore, ReviewKey, ReviewKeyError,
    ReviewMarks, ReviewStateError, ReviewStore, StateEntry,
};

fn sha(character: char) -> String {
    std::iter::repeat_n(character, 40).collect()
}

fn entry(repository: &str, reviewed: &[&str]) -> StateEntry {
    StateEntry {
        repository: repository.to_owned(),
        reviewed: reviewed.iter().map(|sha| sha.to_string()).collect(),
    }
}

#[test]
fn review_keys_accept_only_complete_hex_shas() {
    assert!(ReviewKey::new(1, &sha('a')).is_ok());
    assert!(ReviewKey::new(1, &std::iter::repeat_n('b', 64).collect::<String>()).is_ok());
    assert!(ReviewKey::new(1, "abc123").is_err());
    assert!(ReviewKey::new(1, &std::iter::repeat_n('g', 40).collect::<String>()).is_err());
}

#[test]
fn key_error_message_names_the_requirement() {
    assert_eq!(
        ReviewKey::new(1, "short").unwrap_err(),
        ReviewKeyError
    );
    assert_eq!(
        ReviewKeyError.message(),
        "commit identity must be a complete hexadecimal SHA"
    );
}

#[test]
fn uppercase_sha_is_kept_in_small_letters() {
    let uppercase = "ABCDEF0123456789ABCDEF0123456789ABCDEF01";
    let key = ReviewKey::new(7, uppercase).unwrap();
    assert_eq!(key.sha(), uppercase.to_ascii_lowercase());
    assert_eq!(key.repository_id(), 7);
    assert!(ReviewKey::new(7, &format!("{}é", &uppercase[..39])).is_err());
}

#[test]
fn marks_round_trip_across_fresh_memory_store_instances() {
    let key = ReviewKey::new(912_345, &sha('a')).unwrap();
    let mut store = MemoryReviewStore::default();
    let saved = store.set_reviewed(&key, true).unwrap();
    let loaded = store.load().unwrap();
    assert!(saved.is_reviewed(&key));
    assert_eq!(loaded, saved);
    assert_eq!(loaded.reviewed_count(), 1);
    assert_eq!(loaded.repository_count(), 1);

    let fresh = MemoryReviewStore::new(loaded.clone());
    assert_eq!(fresh.load().unwrap(), loaded);
}

#[test]
fn repository_identity_isolates_identical_shas() {
    let first = ReviewKey::new(1, &sha('b')).unwrap();
    let second = ReviewKey::new(2, &sha('b')).unwrap();
    let mut marks = ReviewMarks::new();
    marks.set_reviewed(&first, true);
    marks.set_reviewed(&second, true);
    marks.set_reviewed(&first, false);
    assert!(!marks.is_reviewed(&first));
    assert!(marks.is_reviewed(&second));
    assert_eq!(marks.repository_count(), 1);
}

#[test]
fn unmark_removes_empty_repository() {
    let key = ReviewKey::new(42, &sha('c')).unwrap();
    let mut marks = ReviewMarks::new();
    marks.set_reviewed(&key, true);
    marks.set_reviewed(&key, false);
    assert_eq!(marks, ReviewMarks::default());
    assert_eq!(marks.repository_count(), 0);
    assert!(!encode_state(&marks).contains("\"42\""));
}

#[test]
fn unmarking_an_unmarked_commit_changes_nothing() {
    let kept = ReviewKey::new(3, &sha('1')).unwrap();
    let absent = ReviewKey::new(3, &sha('2')).unwrap();
    let mut marks = ReviewMarks::new();
    marks.set_reviewed(&kept, true);
    let before = marks.clone();
    marks.set_reviewed(&absent, false);
    assert_eq!(marks, before);
    marks.set_reviewed(&kept, true);
    assert_eq!(marks, before);
    assert_eq!(marks.reviewed_count(), 1);
}

#[test]
fn serialization_is_sorted_deterministic_and_newline_terminated() {
    let mut marks = ReviewMarks::new();
    marks.set_reviewed(&ReviewKey::new(2, &sha('f')).unwrap(), true);
    marks.set_reviewed(&ReviewKey::new(11, &sha('e')).unwrap(), true);
    marks.set_reviewed(&ReviewKey::new(11, &sha('d')).unwrap(), true);
    let first = encode_state(&marks);
    marks.set_reviewed(&ReviewKey::new(11, &sha('d')).unwrap(), true);
    let second = encode_state(&marks);

    assert_eq!(first, second);
    assert!(first.ends_with('\n'));
    assert_eq!(
        first,
        format!(
            "{{\n  \"version\": 1,\n  \"repositories\": {{\n    \"11\": {{\n      \"reviewed\": [\n        \"{}\",\n        \"{}\"\n      ]\n    }},\n    \"2\": {{\n      \"reviewed\": [\n        \"{}\"\n      ]\n    }}\n  }}\n}}\n",
            sha('d'),
            sha('e'),
            sha('f')
        )
    );
    assert_eq!(marks.reviewed_count(), 3);
}

#[test]
fn empty_marks_encode_an_empty_repository_object() {
    assert_eq!(
        encode_state(&ReviewMarks::new()),
        "{\n  \"version\": 1,\n  \"repositories\": {}\n}\n"
    );
}

#[test]
fn decoded_state_matches_the_encoded_marks() {
    let mut marks = ReviewMarks::new();
    marks.set_reviewed(&ReviewKey::new(2, &sha('f')).unwrap(), true);
    marks.set_reviewed(&ReviewKey::new(11, &sha('e')).unwrap(), true);
    let decoded = decode_state(Some(1), Some(marks.state_entries())).unwrap();
    assert_eq!(decoded, marks);
}

#[test]
fn decoding_normalizes_uppercase_and_accepts_empty_lists() {
    let upper = "ABCDEF0123456789ABCDEF0123456789ABCDEF01";
    let decoded = decode_state(Some(1), Some(vec![entry("7", &[upper]), entry("8", &[])])).unwrap();
    assert!(decoded.is_reviewed(&ReviewKey::new(7, upper).unwrap()));
    assert_eq!(decoded.repository_count(), 1);
}

#[test]
fn malformed_or_unsupported_states_are_reported() {
    assert_eq!(decode_state(None, None), Err(ReviewStateError::Malformed));
    assert_eq!(
        decode_state(Some(2), Some(Vec::new())),
        Err(ReviewStateError::UnsupportedVersion)
    );
    assert_eq!(decode_state(Some(1), None), Err(ReviewStateError::Malformed));
    assert_eq!(
        decode_state(Some(1), Some(vec![entry("8", &["short"])])),
        Err(ReviewStateError::Malformed)
    );
    assert_eq!(
        decode_state(Some(1), Some(vec![entry("08", &[])])),
        Err(ReviewStateError::Malformed)
    );
    assert_eq!(
        decode_state(Some(1), Some(vec![entry("+8", &[])])),
        Err(ReviewStateError::Malformed)
    );
    assert_eq!(
        decode_state(Some(1), Some(vec![entry("18446744073709551616", &[])])),
        Err(ReviewStateError::Malformed)
    );
    assert!(decode_state(Some(1), Some(vec![entry("18446744073709551615", &[])])).is_ok());
}

#[test]
fn error_messages_are_sanitized() {
    assert!(ReviewStateError::Malformed.message().contains("malformed"));
    assert_eq!(
        ReviewStateError::Read(std::io::ErrorKind::PermissionDenied).message(),
        "could not read review state (permission denied); check user-data directory permissions"
    );
    assert!(ReviewStateError::Write(std::io::ErrorKind::InvalidData)
        .message()
        .starts_with("could not save review state ("));
    assert!(ReviewStateError::Unavailable.message().contains("XDG_DATA_HOME"));
    assert!(ReviewStateError::UnsupportedVersion.message().contains("unsupported version"));
}

#[test]
fn environment_location_uses_only_absolute_xdg_or_home() {
    assert_eq!(
        state_file_location(Some("/data/xdg"), Some("/home/me")).unwrap(),
        "/data/xdg/reviewbox/review-state.json"
    );
    for xdg in [Some("relative-data"), Some(""), None] {
        assert_eq!(
            state_file_location(xdg, Some("/home/me/")).unwrap(),
            "/home/me/.local/share/reviewbox/review-state.json"
        );
    }
    assert_eq!(
        state_file_location(None, None),
        Err(ReviewStateError::Unavailable)
    );
    assert_eq!(
        state_file_location(None, Some("relative")),
        Err(ReviewStateError::Unavailable)
    );
}
