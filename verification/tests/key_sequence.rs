use mykvm::key_sequence::RemoteKeySequenceState;

#[test]
fn key_sequence_rejects_reconnect_duplicates_and_resets_for_new_origin() {
    let mut state = RemoteKeySequenceState::default();
    assert!(state.accept_key("server-a", 0x41, 100));
    assert!(!state.accept_key("server-a", 0x41, 100));
    assert!(!state.accept_key("server-a", 0x41, 99));
    assert!(state.accept_key("server-a", 0x41, 101));
    assert!(state.accept_key("server-b", 0x41, 1));
    assert!(state.accept_key("legacy", 0x41, 0));
}

#[test]
fn key_sequence_boundary_rejects_delayed_keys_without_rejecting_newer_input() {
    let mut state = RemoteKeySequenceState::default();
    assert!(state.accept_key("server-a", 0x41, 10));
    assert!(state.accept_boundary("server-a", 20));
    assert!(!state.accept_key("server-a", 0x42, 15));
    assert!(state.accept_key("server-a", 0x42, 21));
    assert!(!state.accept_boundary("server-a", 20));
}

#[test]
fn key_sequence_high_water_is_kept_per_origin() {
    let mut state = RemoteKeySequenceState::default();
    assert!(state.accept_boundary("server-a", 20));
    assert!(state.accept_key("server-b", 0x41, 5));
    assert!(!state.accept_key("server-a", 0x41, 19));
    assert!(state.accept_key("server-a", 0x41, 21));
}

#[test]
fn key_sequence_is_ordered_per_semantic_key_across_reconnected_streams() {
    let mut state = RemoteKeySequenceState::default();
    assert!(state.accept_key("server-a", 0xA2, 10)); // Ctrl Down
    assert!(state.accept_key("server-a", 0x41, 20)); // unrelated A
    assert!(state.accept_key("server-a", 0x11, 15)); // delayed Ctrl Up
    assert!(state.accept_key("server-a", 0xA2, 30)); // new Ctrl Down
    assert!(!state.accept_key("server-a", 0xA3, 15)); // old Ctrl Up
}

#[test]
fn newer_modifier_snapshot_blocks_delayed_modifier_keys_but_not_plain_keys() {
    let mut state = RemoteKeySequenceState::default();
    assert!(state.accept_key("server-a", 0xA2, 10)); // Ctrl Down
    assert!(state.accept_snapshot("server-a", 30)); // authoritative modifier state

    // These transitions came from an older stream and would otherwise undo
    // the already-applied snapshot in either direction.
    assert!(!state.accept_key("server-a", 0xA3, 15));
    assert!(!state.accept_key("server-a", 0xA0, 29));

    // Snapshot ordering applies only to modifier families.
    assert!(state.accept_key("server-a", 0x41, 20));
    assert!(state.accept_key("server-a", 0xA2, 31));
}

#[test]
fn snapshots_are_ordered_among_themselves_and_behind_the_boundary() {
    let mut state = RemoteKeySequenceState::default();
    assert!(state.accept_snapshot("a", 5));
    assert!(!state.accept_snapshot("a", 5));
    assert!(!state.accept_boundary("a", 5));
    assert!(state.accept_boundary("a", 6));
    assert!(!state.accept_snapshot("a", 6));
    assert!(state.accept_snapshot("a", 7));
    assert!(state.accept_snapshot("a", 0));
    assert!(state.accept_boundary("a", 0));
}

#[test]
fn a_rejected_frame_is_recorded_without_marks() {
    let mut state = RemoteKeySequenceState::default();
    assert!(state.by_origin.get("a").is_none());
    assert!(state.accept_key("a", 0x41, 0));
    assert!(state.by_origin.get("a").is_none());
    assert!(state.accept_boundary("a", 9));
    assert!(!state.accept_key("a", 0x41, 9));
    let marks = state.by_origin.get("a").unwrap();
    assert_eq!(marks.boundary_sequence, 9);
    assert_eq!(marks.latest_event_sequence, 9);
    assert_eq!(marks.snapshot_sequence, 0);
    assert!(marks.last_by_key.is_empty());
}

#[test]
fn closing_an_origin_moves_its_boundary_to_its_newest_frame() {
    let mut state = RemoteKeySequenceState::default();
    assert!(state.accept_key("a", 0x41, 7));
    assert!(state.accept_key("b", 0x41, 3));
    state.close_origin("a");
    state.close_origin("unknown");
    assert_eq!(state.by_origin.get("a").unwrap().boundary_sequence, 7);
    assert_eq!(state.by_origin.get("b").unwrap().boundary_sequence, 0);
    assert!(state.by_origin.get("unknown").is_none());
    assert!(!state.accept_key("a", 0x42, 7));
    assert!(state.accept_key("a", 0x42, 8));
}

#[test]
fn an_accepted_boundary_divides_the_numbers() {
    let mut state = RemoteKeySequenceState::default();
    assert!(state.accept_key("server-a", 0x41, 7));
    assert!(state.accept_snapshot("server-a", 8));
    assert!(state.accept_boundary("server-a", 9));
    for sequence in 1..=9 {
        assert!(!state.accept_key("server-a", 0xA2, sequence));
        assert!(!state.accept_snapshot("server-a", sequence));
        assert!(!state.accept_boundary("server-a", sequence));
    }
    assert!(state.accept_key("server-a", 0x41, 10));
    assert!(state.accept_key("server-a", 0xA2, 10));
    assert!(state.accept_snapshot("server-a", 11));
    assert!(state.accept_boundary("server-a", 12));
}
