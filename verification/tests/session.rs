use mykvm::key_sequence::RemoteKeySequenceState;
use mykvm::origin_map::OriginMap;
use mykvm::remote_mouse::{
    authoritative_mouse_button_state, input_event_can_claim_origin, prepare_remote_mouse_event,
    RemoteMouseSequenceState, RemoteMouseState,
};
use mykvm::session::{
    admit_remote_input_packet_with_state, admit_remote_input_with_state,
    apply_remote_input_lease_outcome, expire_remote_input_session_with_state,
    finish_remote_input_outcome, remote_input_heartbeat_due, remote_input_outcome_for_admission,
    remote_input_session_ended, RemoteInputAdmission, RemoteInputLease, RemoteInputOutcome,
    RemoteMouseAdmission, REMOTE_INPUT_HEARTBEAT_INTERVAL, REMOTE_INPUT_LEASE_TIMEOUT,
};
use mykvm::shared_input::{
    InputEvent, MouseButton, LEFT_BUTTON_MASK, MIDDLE_BUTTON_MASK, RIGHT_BUTTON_MASK,
};

const STARTED: u64 = 77_000_000_001;
const SECOND: u64 = 1_000_000_000;
const MILLISECOND: u64 = 1_000_000;

fn marks(origin: &str, position: u64, buttons: [u64; 3]) -> OriginMap<RemoteMouseSequenceState> {
    let mut map = OriginMap::new();
    map.insert(
        origin,
        RemoteMouseSequenceState {
            last_position_sequence: position,
            last_button_snapshot_sequence: 0,
            last_scroll_sequence: 0,
            last_boundary_sequence: 0,
            last_button_sequence: buttons,
        },
    );
    map
}

fn move_event(x: i32, y: i32, drag: Option<MouseButton>, mask: u64, sequence: u64) -> InputEvent {
    InputEvent::MouseMove {
        screen_id: "local-display-1".to_string(),
        x,
        y,
        drag_button: drag,
        button_mask: Some(mask),
        sequence,
    }
}

fn park(x: i32, y: i32, sequence: u64) -> InputEvent {
    InputEvent::CursorPark {
        screen_id: "local-display-1".to_string(),
        x,
        y,
        sequence,
    }
}

#[test]
fn dropped_key_event_does_not_consume_modifier_snapshot_sequence() {
    let mut sequence_state = RemoteKeySequenceState::default();
    assert!(sequence_state.accept_key("server-a", 0xA2, 30));
    let mut mouse_state = RemoteMouseState::default();
    let mut active_origin = "server-a".to_string();
    let mut stale_ctrl_up = InputEvent::Key {
        key_code: 0x11,
        down: false,
    };
    assert!(admit_remote_input_with_state(
        &mut sequence_state,
        &mut mouse_state,
        &mut active_origin,
        "server-a",
        Some(0),
        15,
        &mut stale_ctrl_up,
    )
    .is_none());
    assert_eq!(
        sequence_state
            .by_origin
            .get("server-a")
            .unwrap()
            .snapshot_sequence,
        0
    );

    let mut delayed_other_key = InputEvent::Key {
        key_code: 0x41,
        down: false,
    };
    let admission = admit_remote_input_with_state(
        &mut sequence_state,
        &mut mouse_state,
        &mut active_origin,
        "server-a",
        Some(0),
        20,
        &mut delayed_other_key,
    )
    .expect("different-key event remains valid");
    assert_eq!(admission.effective_modifier_snapshot, Some(0));
}

#[test]
fn button_up_uses_per_button_sequence_when_modifier_snapshot_is_old() {
    let mut sequence_state = RemoteKeySequenceState::default();
    assert!(sequence_state.accept_snapshot("server-a", 20));
    let mut active_origin = "server-a".to_string();
    let mut mouse_state = RemoteMouseState {
        x: 50,
        y: 60,
        buttons: LEFT_BUTTON_MASK,
        last_origin_id: "server-a".to_string(),
        sequence_by_origin: marks("server-a", 10, [10, 0, 0]),
    };
    let mut button_up = InputEvent::MouseButton {
        button: MouseButton::Left,
        down: false,
        screen_id: "local-display-1".to_string(),
        x: Some(50),
        y: Some(60),
        sequence: 11,
    };
    let admission = admit_remote_input_with_state(
        &mut sequence_state,
        &mut mouse_state,
        &mut active_origin,
        "server-a",
        Some(0),
        15,
        &mut button_up,
    )
    .expect("per-button Up must survive an older snapshot sequence");
    assert!(admission.inject_event);
    assert_eq!(admission.effective_modifier_snapshot, None);
}

#[test]
fn only_explicit_enter_events_can_claim_an_empty_origin() {
    assert!(input_event_can_claim_origin(&InputEvent::MouseMove {
        screen_id: String::new(),
        x: 0,
        y: 0,
        drag_button: None,
        button_mask: Some(0),
        sequence: 1,
    }));
    assert!(input_event_can_claim_origin(&InputEvent::Key {
        key_code: 0x41,
        down: true,
    }));
    assert!(input_event_can_claim_origin(&InputEvent::MouseButton {
        button: MouseButton::Left,
        down: true,
        screen_id: String::new(),
        x: None,
        y: None,
        sequence: 1,
    }));
    assert!(!input_event_can_claim_origin(&InputEvent::Key {
        key_code: 0x41,
        down: false,
    }));
    assert!(!input_event_can_claim_origin(&InputEvent::MouseButton {
        button: MouseButton::Left,
        down: false,
        screen_id: String::new(),
        x: None,
        y: None,
        sequence: 1,
    }));
    assert!(!input_event_can_claim_origin(&InputEvent::Scroll {
        delta_x: 0,
        delta_y: 1,
        sequence: 1,
    }));
    assert!(!input_event_can_claim_origin(&InputEvent::CursorPark {
        screen_id: String::new(),
        x: 0,
        y: 0,
        sequence: 1,
    }));

    let mut sequence_state = RemoteKeySequenceState::default();
    let mut mouse_state = RemoteMouseState::default();
    let mut active_origin = String::new();
    let mut key_up = InputEvent::Key {
        key_code: 0x41,
        down: false,
    };
    let cleanup = admit_remote_input_with_state(
        &mut sequence_state,
        &mut mouse_state,
        &mut active_origin,
        "server-a",
        Some(0),
        10,
        &mut key_up,
    )
    .expect("idle KeyUp should advance sequence state idempotently");
    assert!(!cleanup.inject_event);
    assert_eq!(cleanup.effective_modifier_snapshot, None);
    assert!(active_origin.is_empty());

    let mut key_down = InputEvent::Key {
        key_code: 0x41,
        down: true,
    };
    let entry = admit_remote_input_with_state(
        &mut sequence_state,
        &mut mouse_state,
        &mut active_origin,
        "server-a",
        Some(0),
        11,
        &mut key_down,
    )
    .expect("KeyDown should explicitly enter from idle");
    assert!(entry.inject_event);
    assert!(entry.origin_changed);
    assert_eq!(entry.effective_modifier_snapshot, Some(0));
    assert_eq!(active_origin, "server-a");
}

#[test]
fn heartbeat_mouse_move_cannot_claim_an_empty_session() {
    let mut sequence_state = RemoteKeySequenceState::default();
    let mut mouse_state = RemoteMouseState::default();
    let mut active_origin = String::new();
    let mut heartbeat = move_event(10, 20, None, 0, 10);

    let heartbeat_admission = admit_remote_input_packet_with_state(
        &mut sequence_state,
        &mut mouse_state,
        &mut active_origin,
        "server-a",
        Some(0),
        10,
        true,
        &mut heartbeat,
    )
    .expect("authorized heartbeat should be admitted without consuming position");
    assert!(!heartbeat_admission.inject_event);
    assert_eq!(
        mouse_state
            .sequence_by_origin
            .get("server-a")
            .map(|state| state.last_position_sequence),
        Some(0)
    );
    assert!(active_origin.is_empty());

    let mut real_move = move_event(10, 20, None, 0, 9);
    let entry = admit_remote_input_packet_with_state(
        &mut sequence_state,
        &mut mouse_state,
        &mut active_origin,
        "server-a",
        None,
        9,
        false,
        &mut real_move,
    )
    .expect("a delayed real move must still enter after an overtaking heartbeat");
    assert!(entry.inject_event);
    assert!(entry.origin_changed);
    assert_eq!(active_origin, "server-a");
}

#[test]
fn handoff_regression_active_heartbeat_does_not_reinject_cursor() {
    let mut sequence_state = RemoteKeySequenceState::default();
    let mut mouse_state = RemoteMouseState::default();
    let mut active_origin = "server-a".to_string();
    let mut heartbeat = move_event(960, 540, None, 0, 10);

    let admission = admit_remote_input_packet_with_state(
        &mut sequence_state,
        &mut mouse_state,
        &mut active_origin,
        "server-a",
        Some(0),
        10,
        true,
        &mut heartbeat,
    )
    .expect("the current owner's heartbeat should be admitted");

    assert!(
        !admission.inject_event,
        "a lease heartbeat must not warp over the Mac user's physical trackpad movement"
    );
    assert!(
        admission.current_session_owner,
        "the non-injected heartbeat must still renew the active controller lease"
    );
    assert_eq!(
        mouse_state
            .sequence_by_origin
            .get("server-a")
            .unwrap()
            .last_position_sequence,
        0,
        "a reliable heartbeat must not consume the delayed datagram position"
    );
    assert_eq!(active_origin, "server-a");
}

#[test]
fn stale_origin_sequence_is_rejected_before_it_can_replace_the_active_origin() {
    let mut sequence_state = RemoteKeySequenceState::default();
    assert!(sequence_state.accept_key("server-a", 0x41, 100));
    assert!(sequence_state.accept_key("server-b", 0x41, 10));
    let mut active_origin = "server-b".to_string();
    let mut mouse_state = RemoteMouseState::default();
    let mut stale_key = InputEvent::Key {
        key_code: 0x41,
        down: false,
    };

    assert_eq!(
        admit_remote_input_with_state(
            &mut sequence_state,
            &mut mouse_state,
            &mut active_origin,
            "server-a",
            None,
            99,
            &mut stale_key,
        ),
        None
    );
    assert_eq!(active_origin, "server-b");
}

#[test]
fn park_allows_new_origin_move_but_rejects_old_origin_datagram() {
    let mut sequence_state = RemoteKeySequenceState::default();
    let mut mouse_state = RemoteMouseState::default();
    let mut active_origin = "server-a".to_string();
    let mut parked = park(100, 100, 100);
    let park_admission = admit_remote_input_with_state(
        &mut sequence_state,
        &mut mouse_state,
        &mut active_origin,
        "server-a",
        None,
        100,
        &mut parked,
    )
    .expect("A park should establish the release boundary");
    assert!(park_admission.release_keys);
    assert!(park_admission
        .mouse
        .is_some_and(|mouse| mouse.park_accepted));
    assert!(active_origin.is_empty());

    let mut first_b_move = move_event(1, 2, None, 0, 1);
    let b_admission = admit_remote_input_with_state(
        &mut sequence_state,
        &mut mouse_state,
        &mut active_origin,
        "server-b",
        None,
        0,
        &mut first_b_move,
    )
    .expect("B's first sequenced move should claim the released session");
    assert!(b_admission.origin_changed);
    assert_eq!(active_origin, "server-b");
    assert_eq!(mouse_state.last_origin_id, "server-b");

    let mut delayed_a_move = move_event(99, 99, None, 0, 99);
    assert_eq!(
        admit_remote_input_with_state(
            &mut sequence_state,
            &mut mouse_state,
            &mut active_origin,
            "server-a",
            None,
            0,
            &mut delayed_a_move,
        ),
        None
    );
    assert_eq!(active_origin, "server-b");
    assert_eq!(mouse_state.last_origin_id, "server-b");
    assert_eq!(
        mouse_state
            .sequence_by_origin
            .get("server-a")
            .unwrap()
            .last_boundary_sequence,
        100
    );
    assert_eq!(
        mouse_state
            .sequence_by_origin
            .get("server-b")
            .unwrap()
            .last_position_sequence,
        1
    );
}

#[test]
fn accepted_key_boundary_survives_stale_mouse_park_without_ending_new_drag() {
    let mut sequence_state = RemoteKeySequenceState::default();
    let mut active_origin = "server-a".to_string();
    let mut mouse_state = RemoteMouseState {
        x: 200,
        y: 200,
        buttons: LEFT_BUTTON_MASK,
        last_origin_id: "server-a".to_string(),
        sequence_by_origin: marks("server-a", 200, [200, 0, 0]),
    };
    let mut parked = park(100, 100, 100);
    let admission = admit_remote_input_with_state(
        &mut sequence_state,
        &mut mouse_state,
        &mut active_origin,
        "server-a",
        None,
        100,
        &mut parked,
    )
    .expect("keyboard boundary should be accepted");
    assert!(!admission.origin_changed);
    assert!(admission.release_keys);
    assert!(!admission.inject_event);
    assert!(!remote_input_session_ended(&admission));

    // A new drag on the mouse channel already overtook the park. Rejecting
    // only its stale coordinates must not erase that new held-button state.
    assert_eq!(mouse_state.buttons, LEFT_BUTTON_MASK);

    let mut continued_drag = move_event(201, 201, Some(MouseButton::Left), LEFT_BUTTON_MASK, 201);
    assert!(prepare_remote_mouse_event(&mut mouse_state, "server-a", &mut continued_drag).0);
    assert_eq!(
        authoritative_mouse_button_state(&mut mouse_state, "server-a", &mut continued_drag, true),
        (None, false)
    );
    assert!(matches!(
        continued_drag,
        InputEvent::MouseMove {
            drag_button: Some(MouseButton::Left),
            ..
        }
    ));
    assert_eq!(mouse_state.buttons, LEFT_BUTTON_MASK);
}

#[test]
fn foreign_key_mouse_and_park_cannot_interrupt_active_drag() {
    let mut sequence_state = RemoteKeySequenceState::default();
    let mut active_origin = "server-b".to_string();
    let mut mouse_state = RemoteMouseState {
        x: 300,
        y: 400,
        buttons: LEFT_BUTTON_MASK,
        last_origin_id: "server-b".to_string(),
        sequence_by_origin: marks("server-b", 200, [200, 0, 0]),
    };

    for (key_sequence, down) in [(1, true), (2, false)] {
        let mut foreign_key = InputEvent::Key {
            key_code: 0x41,
            down,
        };
        let admission = admit_remote_input_with_state(
            &mut sequence_state,
            &mut mouse_state,
            &mut active_origin,
            "server-a",
            Some(0),
            key_sequence,
            &mut foreign_key,
        )
        .expect("foreign key high-water should advance while the event is dropped");
        assert!(!admission.inject_event);
        assert!(!admission.origin_changed);
        assert!(!admission.release_keys);
    }

    let mut foreign_move = move_event(10, 20, None, 0, 10);
    let move_admission = admit_remote_input_with_state(
        &mut sequence_state,
        &mut mouse_state,
        &mut active_origin,
        "server-a",
        None,
        0,
        &mut foreign_move,
    )
    .expect("foreign mouse high-water should advance while the event is dropped");
    assert!(!move_admission.inject_event);
    assert!(!move_admission.origin_changed);

    let mut delayed_park = park(100, 100, 11);
    let park_admission = admit_remote_input_with_state(
        &mut sequence_state,
        &mut mouse_state,
        &mut active_origin,
        "server-a",
        None,
        3,
        &mut delayed_park,
    )
    .expect("foreign park high-water should advance while the event is dropped");
    assert!(!park_admission.inject_event);
    assert!(!park_admission.origin_changed);
    assert!(!park_admission.release_keys);

    assert_eq!(active_origin, "server-b");
    assert_eq!(mouse_state.last_origin_id, "server-b");
    assert_eq!(mouse_state.buttons, LEFT_BUTTON_MASK);
    assert_eq!((mouse_state.x, mouse_state.y), (300, 400));
    assert_eq!(
        sequence_state
            .by_origin
            .get("server-a")
            .unwrap()
            .boundary_sequence,
        3
    );
    assert_eq!(
        mouse_state
            .sequence_by_origin
            .get("server-a")
            .unwrap()
            .last_boundary_sequence,
        11
    );
    assert_eq!(
        mouse_state
            .sequence_by_origin
            .get("server-b")
            .unwrap()
            .last_position_sequence,
        200
    );
}

#[test]
fn only_an_injected_accepted_park_ends_the_clipboard_session() {
    let stale_key_only_boundary = RemoteInputAdmission {
        inject_event: false,
        current_session_owner: false,
        effective_modifier_snapshot: None,
        origin_changed: false,
        release_keys: true,
        carried_buttons: None,
        mouse: Some(RemoteMouseAdmission {
            button_reconciliation: None,
            park_accepted: false,
        }),
    };
    assert!(!remote_input_session_ended(&stale_key_only_boundary));

    let accepted_park = RemoteInputAdmission {
        inject_event: true,
        mouse: Some(RemoteMouseAdmission {
            button_reconciliation: None,
            park_accepted: true,
        }),
        ..stale_key_only_boundary
    };
    assert!(remote_input_session_ended(&accepted_park));
}

#[test]
fn stale_key_only_boundary_cannot_renew_or_rebind_a_remote_session() {
    let stale_boundary = RemoteInputOutcome {
        injected: true,
        admitted: true,
        current_session_owner: false,
        session_ended: false,
    };
    assert!(!stale_boundary.renews_session());

    let active_move = RemoteInputOutcome {
        current_session_owner: true,
        ..stale_boundary
    };
    assert!(active_move.renews_session());

    let park = RemoteInputOutcome {
        session_ended: true,
        ..active_move
    };
    assert!(!park.renews_session());
    let mut lease = RemoteInputLease::default();
    lease.renew("server-a", STARTED);
    apply_remote_input_lease_outcome(&mut lease, "server-a", park, STARTED);
    assert_eq!(
        lease.expired_origin(STARTED + REMOTE_INPUT_LEASE_TIMEOUT),
        None
    );
}

#[test]
fn only_keepalive_admission_can_renew_without_os_injection() {
    let real_input = RemoteInputAdmission {
        inject_event: true,
        current_session_owner: true,
        effective_modifier_snapshot: None,
        origin_changed: false,
        release_keys: false,
        carried_buttons: None,
        mouse: None,
    };
    let failed_real_input = remote_input_outcome_for_admission(&real_input, false);
    assert!(!failed_real_input.current_session_owner);
    assert!(!failed_real_input.renews_session());

    let heartbeat = RemoteInputAdmission {
        inject_event: false,
        ..real_input
    };
    let heartbeat_outcome = remote_input_outcome_for_admission(&heartbeat, false);
    assert!(heartbeat_outcome.current_session_owner);
    assert!(heartbeat_outcome.renews_session());
}

#[test]
fn foreign_input_cannot_extend_the_current_remote_input_lease() {
    let mut lease = RemoteInputLease::default();
    lease.renew("server-b", STARTED);
    let foreign = RemoteInputOutcome {
        injected: false,
        admitted: true,
        current_session_owner: false,
        session_ended: false,
    };

    apply_remote_input_lease_outcome(&mut lease, "server-a", foreign, STARTED + 4 * SECOND);

    assert_eq!(
        lease.expired_origin(STARTED + REMOTE_INPUT_LEASE_TIMEOUT),
        Some("server-b")
    );
}

#[test]
fn admitted_owner_heartbeats_keep_a_long_press_or_drag_alive() {
    let active_heartbeat = RemoteInputOutcome {
        injected: false,
        admitted: true,
        current_session_owner: true,
        session_ended: false,
    };
    assert!(active_heartbeat.renews_session());
    let mut lease = RemoteInputLease::default();

    for second in 0..=30 {
        let now = STARTED + second * SECOND;
        apply_remote_input_lease_outcome(&mut lease, "server-a", active_heartbeat, now);
        assert_eq!(lease.expired_origin(now), None);
    }
    assert_eq!(lease.expired_origin(STARTED + 34 * SECOND), None);
    assert_eq!(
        lease.expired_origin(STARTED + 35 * SECOND),
        Some("server-a")
    );
}

#[test]
fn remote_input_heartbeat_is_sent_at_one_second_intervals() {
    let mut last_sent = None;

    assert!(remote_input_heartbeat_due(&mut last_sent, STARTED));
    assert!(!remote_input_heartbeat_due(
        &mut last_sent,
        STARTED + REMOTE_INPUT_HEARTBEAT_INTERVAL - MILLISECOND,
    ));
    assert!(remote_input_heartbeat_due(
        &mut last_sent,
        STARTED + REMOTE_INPUT_HEARTBEAT_INTERVAL,
    ));
}

#[test]
fn remote_input_lease_expires_only_after_five_seconds_without_activity() {
    let mut lease = RemoteInputLease::default();
    lease.renew("server-a", STARTED);

    assert_eq!(lease.expired_origin(STARTED + 4 * SECOND), None);
    assert_eq!(
        lease.expired_origin(STARTED + REMOTE_INPUT_LEASE_TIMEOUT),
        Some("server-a")
    );
}

#[test]
fn remote_input_lease_end_is_scoped_to_the_current_origin() {
    let mut lease = RemoteInputLease::default();
    lease.renew("server-b", STARTED);

    assert!(!lease.end("server-a"));
    assert_eq!(
        lease.expired_origin(STARTED + REMOTE_INPUT_LEASE_TIMEOUT),
        Some("server-b")
    );
    assert!(lease.end("server-b"));
    assert_eq!(
        lease.expired_origin(STARTED + REMOTE_INPUT_LEASE_TIMEOUT),
        None
    );
}

#[test]
fn expired_remote_session_releases_buttons_and_advances_sequence_boundaries() {
    let mut lease = RemoteInputLease::default();
    lease.renew("server-a", STARTED);
    let mut keys = RemoteKeySequenceState::default();
    assert!(keys.accept_key("server-a", 0x41, 10));
    assert!(keys.accept_key("server-a", 0x42, 15));
    let mut sequence_by_origin = OriginMap::new();
    sequence_by_origin.insert(
        "server-a",
        RemoteMouseSequenceState {
            last_position_sequence: 30,
            last_button_snapshot_sequence: 45,
            last_scroll_sequence: 25,
            last_boundary_sequence: 5,
            last_button_sequence: [20, 40, 0],
        },
    );
    let mut mouse = RemoteMouseState {
        x: 50,
        y: 60,
        buttons: LEFT_BUTTON_MASK | RIGHT_BUTTON_MASK | MIDDLE_BUTTON_MASK,
        last_origin_id: "server-a".to_string(),
        sequence_by_origin,
    };
    let mut active_origin = "server-a".to_string();

    let expired = expire_remote_input_session_with_state(
        &mut lease,
        &mut keys,
        &mut mouse,
        &mut active_origin,
        STARTED + REMOTE_INPUT_LEASE_TIMEOUT,
    )
    .expect("active lease should expire");

    assert_eq!(expired.origin_id, "server-a");
    assert_eq!(
        expired.buttons,
        LEFT_BUTTON_MASK | RIGHT_BUTTON_MASK | MIDDLE_BUTTON_MASK
    );
    assert_eq!((expired.x, expired.y), (50, 60));
    assert!(active_origin.is_empty());
    assert_eq!(mouse.buttons, 0);
    assert_eq!(keys.by_origin.get("server-a").unwrap().boundary_sequence, 15);
    let mouse_boundary = *mouse.sequence_by_origin.get("server-a").unwrap();
    assert_eq!(mouse_boundary.last_position_sequence, 45);
    assert_eq!(mouse_boundary.last_button_snapshot_sequence, 45);
    assert_eq!(mouse_boundary.last_scroll_sequence, 45);
    assert_eq!(mouse_boundary.last_boundary_sequence, 45);
    assert_eq!(mouse_boundary.last_button_sequence, [45; 3]);
    assert!(!keys.accept_key("server-a", 0x43, 14));
    assert!(keys.accept_key("server-a", 0x43, 16));
    let mut delayed_button_down = InputEvent::MouseButton {
        button: MouseButton::Left,
        down: true,
        screen_id: "local-display-1".to_string(),
        x: Some(50),
        y: Some(60),
        sequence: 44,
    };
    assert!(!prepare_remote_mouse_event(&mut mouse, "server-a", &mut delayed_button_down).0);
    assert!(expire_remote_input_session_with_state(
        &mut lease,
        &mut keys,
        &mut mouse,
        &mut active_origin,
        STARTED + REMOTE_INPUT_LEASE_TIMEOUT + SECOND,
    )
    .is_none());
}

#[test]
fn an_expired_lease_of_an_inactive_origin_is_dropped_silently() {
    let mut lease = RemoteInputLease::default();
    lease.renew("server-a", STARTED);
    let mut keys = RemoteKeySequenceState::default();
    let mut mouse = RemoteMouseState::default();
    mouse.buttons = LEFT_BUTTON_MASK;
    let mut active_origin = "server-b".to_string();
    assert!(expire_remote_input_session_with_state(
        &mut lease,
        &mut keys,
        &mut mouse,
        &mut active_origin,
        STARTED + REMOTE_INPUT_LEASE_TIMEOUT,
    )
    .is_none());
    assert_eq!(lease.expires_at, None);
    assert_eq!(mouse.buttons, LEFT_BUTTON_MASK);
    assert_eq!(active_origin, "server-b");
}

#[test]
fn a_settled_outcome_renews_the_lease_of_its_owner() {
    let mut lease = RemoteInputLease::default();
    let admission = RemoteInputAdmission {
        inject_event: true,
        current_session_owner: true,
        effective_modifier_snapshot: None,
        origin_changed: true,
        release_keys: false,
        carried_buttons: None,
        mouse: None,
    };
    let outcome = finish_remote_input_outcome(&mut lease, "a", &admission, true, STARTED);
    assert_eq!(
        outcome,
        RemoteInputOutcome {
            injected: true,
            admitted: true,
            current_session_owner: true,
            session_ended: false,
        }
    );
    assert_eq!(lease.origin_id, "a");
    assert_eq!(lease.expires_at, Some(STARTED + REMOTE_INPUT_LEASE_TIMEOUT));
}
