use mykvm::origin_map::OriginMap;
use mykvm::remote_mouse::{
    authoritative_mouse_button_state, authoritative_mouse_button_state_for_packet,
    prepare_remote_mouse_event, prepare_remote_mouse_event_for_origin, primary_button_from_mask,
    update_remote_mouse_button, update_remote_mouse_position, RemoteMouseSequenceState,
    RemoteMouseState,
};
use mykvm::shared_input::{
    InputEvent, MouseButton, LEFT_BUTTON_MASK, MIDDLE_BUTTON_MASK, RIGHT_BUTTON_MASK,
};

fn marks(origin: &str, state: RemoteMouseSequenceState) -> OriginMap<RemoteMouseSequenceState> {
    let mut map = OriginMap::new();
    map.insert(origin, state);
    map
}

fn move_event(x: i32, y: i32, drag: Option<MouseButton>, mask: u64, sequence: u64) -> InputEvent {
    InputEvent::MouseMove {
        screen_id: "local-display-1".to_string(),
        x,
        y,
        drag_button: drag,
        button_mask: Some(mask),
        sequence,
    }
}

fn left(down: bool, screen_id: &str, point: Option<(i32, i32)>, sequence: u64) -> InputEvent {
    InputEvent::MouseButton {
        button: MouseButton::Left,
        down,
        screen_id: screen_id.to_string(),
        x: point.map(|point| point.0),
        y: point.map(|point| point.1),
        sequence,
    }
}

fn park(x: i32, y: i32, sequence: u64) -> InputEvent {
    InputEvent::CursorPark {
        screen_id: "local-display-1".to_string(),
        x,
        y,
        sequence,
    }
}

#[test]
fn stale_mouse_events_cannot_cross_a_reliable_handoff_boundary() {
    let mut state = RemoteMouseState::default();
    let mut parked = park(100, 100, 100);
    assert!(prepare_remote_mouse_event(&mut state, "server-a", &mut parked).0);
    assert_eq!(
        authoritative_mouse_button_state(&mut state, "server-a", &mut parked, true),
        (None, true)
    );

    let mut stale_move = move_event(90, 90, None, 0, 99);
    assert!(!prepare_remote_mouse_event(&mut state, "server-a", &mut stale_move).0);

    let mut stale_button_up = left(false, "local-display-1", Some((80, 80)), 98);
    assert!(!prepare_remote_mouse_event(&mut state, "server-a", &mut stale_button_up).0);

    let mut stale_button_down = left(true, "local-display-1", Some((70, 70)), 99);
    assert!(!prepare_remote_mouse_event(&mut state, "server-a", &mut stale_button_down).0);

    let mut other_controller_move = move_event(1, 2, None, 0, 1);
    state.buttons = LEFT_BUTTON_MASK;
    state.x = 80;
    state.y = 90;
    let (accepted, carried) =
        prepare_remote_mouse_event(&mut state, "server-b", &mut other_controller_move);
    assert!(accepted);
    assert_eq!(carried, Some((LEFT_BUTTON_MASK, 80, 90)));
    assert_eq!(state.buttons, 0);

    let mut legacy_move = InputEvent::MouseMove {
        screen_id: "local-display-1".to_string(),
        x: 3,
        y: 4,
        drag_button: None,
        button_mask: None,
        sequence: 0,
    };
    assert!(prepare_remote_mouse_event(&mut state, "legacy", &mut legacy_move).0);
}

#[test]
fn authoritative_mouse_move_repairs_a_lost_button_transition() {
    let mut state = RemoteMouseState {
        buttons: LEFT_BUTTON_MASK,
        last_origin_id: "server-a".to_string(),
        sequence_by_origin: marks(
            "server-a",
            RemoteMouseSequenceState {
                last_position_sequence: 10,
                last_button_snapshot_sequence: 0,
                last_scroll_sequence: 0,
                last_boundary_sequence: 0,
                last_button_sequence: [10, 0, 0],
            },
        ),
        x: 50,
        y: 60,
    };
    let mut released_move = move_event(51, 61, None, 0, 12);
    assert!(prepare_remote_mouse_event(&mut state, "server-a", &mut released_move).0);
    assert_eq!(
        authoritative_mouse_button_state(&mut state, "server-a", &mut released_move, true),
        (Some((LEFT_BUTTON_MASK, 0, 50, 60)), false)
    );
    assert_eq!(state.buttons, 0);
    assert_eq!(
        state
            .sequence_by_origin
            .get("server-a")
            .unwrap()
            .last_button_sequence[0],
        12
    );

    let mut delayed_up = left(false, "local-display-1", Some((50, 60)), 11);
    assert!(!prepare_remote_mouse_event(&mut state, "server-a", &mut delayed_up).0);
}

#[test]
fn latest_move_does_not_erase_reliable_click_transitions() {
    let mut state = RemoteMouseState::default();
    let mut moved = move_event(70, 80, None, 0, 30);
    assert!(prepare_remote_mouse_event(&mut state, "server-a", &mut moved).0);
    let _ = authoritative_mouse_button_state(&mut state, "server-a", &mut moved, true);

    let mut down = left(true, "stale-display", Some((10, 20)), 20);
    assert!(prepare_remote_mouse_event(&mut state, "server-a", &mut down).0);
    assert!(matches!(
        down,
        InputEvent::MouseButton {
            screen_id,
            x: None,
            y: None,
            ..
        } if screen_id.is_empty()
    ));

    let mut up = left(false, "stale-display", Some((10, 20)), 21);
    assert!(prepare_remote_mouse_event(&mut state, "server-a", &mut up).0);
}

#[test]
fn park_rejects_delayed_button_transitions_from_the_old_epoch() {
    let mut state = RemoteMouseState::default();
    let mut parked = park(70, 80, 30);
    assert!(prepare_remote_mouse_event(&mut state, "server-a", &mut parked).0);
    let _ = authoritative_mouse_button_state(&mut state, "server-a", &mut parked, true);

    let mut down = left(true, "", None, 20);
    assert!(!prepare_remote_mouse_event(&mut state, "server-a", &mut down).0);

    let mut up = left(false, "", None, 21);
    assert!(!prepare_remote_mouse_event(&mut state, "server-a", &mut up).0);
}

#[test]
fn authoritative_drag_mask_suppresses_delayed_down_but_keeps_new_up() {
    let mut state = RemoteMouseState::default();
    let mut moved = move_event(70, 80, Some(MouseButton::Left), LEFT_BUTTON_MASK, 30);
    assert!(prepare_remote_mouse_event(&mut state, "server-a", &mut moved).0);
    assert_eq!(
        authoritative_mouse_button_state(&mut state, "server-a", &mut moved, true),
        (Some((0, LEFT_BUTTON_MASK, 0, 0)), false)
    );

    let mut delayed_down = left(true, "", None, 20);
    assert!(!prepare_remote_mouse_event(&mut state, "server-a", &mut delayed_down).0);

    let mut new_up = left(false, "", None, 31);
    assert!(prepare_remote_mouse_event(&mut state, "server-a", &mut new_up).0);
}

#[test]
fn mouse_motion_does_not_discard_a_reliable_scroll() {
    let mut state = RemoteMouseState::default();
    let mut moved = move_event(10, 20, None, 0, 20);
    assert!(prepare_remote_mouse_event(&mut state, "server-a", &mut moved).0);

    let mut earlier_scroll = InputEvent::Scroll {
        delta_x: 0,
        delta_y: 1,
        sequence: 19,
    };
    assert!(
        prepare_remote_mouse_event(&mut state, "server-a", &mut earlier_scroll).0,
        "a faster latest-move datagram must not erase a discrete scroll"
    );

    let mut parked = park(100, 100, 21);
    assert!(prepare_remote_mouse_event(&mut state, "server-a", &mut parked).0);

    let mut stale_scroll = InputEvent::Scroll {
        delta_x: 0,
        delta_y: 1,
        sequence: 18,
    };
    assert!(!prepare_remote_mouse_event(&mut state, "server-a", &mut stale_scroll).0);
}

#[test]
fn an_uncommitted_move_leaves_the_position_open() {
    let mut state = RemoteMouseState::default();
    let mut heartbeat = move_event(1, 1, None, 0, 9);
    let prepared =
        prepare_remote_mouse_event_for_origin(&mut state, "a", &mut heartbeat, true, false);
    assert_eq!(prepared, (true, None));
    assert_eq!(
        state.sequence_by_origin.get("a").unwrap().last_position_sequence,
        0
    );
    assert_eq!(
        authoritative_mouse_button_state_for_packet(&mut state, "a", &mut heartbeat, true, true),
        (None, false)
    );
    assert_eq!(
        state
            .sequence_by_origin
            .get("a")
            .unwrap()
            .last_button_snapshot_sequence,
        9
    );
    let mut late = move_event(2, 2, Some(MouseButton::Left), LEFT_BUTTON_MASK, 8);
    assert!(prepare_remote_mouse_event(&mut state, "a", &mut late).0);
    assert_eq!(
        authoritative_mouse_button_state(&mut state, "a", &mut late, true),
        (None, false)
    );
    assert_eq!(late, move_event(2, 2, None, 0, 8));
}

#[test]
fn a_refused_event_applies_no_buttons() {
    let mut state = RemoteMouseState::default();
    let mut moved = move_event(1, 1, None, RIGHT_BUTTON_MASK, 3);
    assert_eq!(
        authoritative_mouse_button_state(&mut state, "a", &mut moved, false),
        (None, false)
    );
    assert_eq!(state.buttons, 0);
    let mut scroll = InputEvent::Scroll {
        delta_x: 1,
        delta_y: 1,
        sequence: 4,
    };
    assert_eq!(
        authoritative_mouse_button_state(&mut state, "a", &mut scroll, true),
        (None, false)
    );
}

#[test]
fn a_stale_heartbeat_changes_no_buttons() {
    let mut state = RemoteMouseState {
        x: 5,
        y: 6,
        buttons: LEFT_BUTTON_MASK,
        last_origin_id: "a".to_string(),
        sequence_by_origin: marks(
            "a",
            RemoteMouseSequenceState {
                last_button_snapshot_sequence: 20,
                ..RemoteMouseSequenceState::default()
            },
        ),
    };
    let mut heartbeat = move_event(1, 1, None, 0, 20);
    assert_eq!(
        authoritative_mouse_button_state_for_packet(&mut state, "a", &mut heartbeat, true, true),
        (None, false)
    );
    assert_eq!(state.buttons, LEFT_BUTTON_MASK);
}

#[test]
fn the_pointer_follows_moves_and_buttons() {
    let mut state = RemoteMouseState::default();
    assert_eq!(update_remote_mouse_position(&mut state, 12, 34), None);
    assert_eq!(
        update_remote_mouse_button(&mut state, MouseButton::Right, true, None),
        (12, 34)
    );
    assert_eq!(state.buttons, RIGHT_BUTTON_MASK);
    assert_eq!(
        update_remote_mouse_position(&mut state, 13, 35),
        Some(MouseButton::Right)
    );
    assert_eq!(
        update_remote_mouse_button(&mut state, MouseButton::Right, false, Some((7, 8))),
        (7, 8)
    );
    assert_eq!((state.x, state.y, state.buttons), (7, 8, 0));
    assert_eq!(
        primary_button_from_mask(MIDDLE_BUTTON_MASK | RIGHT_BUTTON_MASK),
        Some(MouseButton::Right)
    );
    assert_eq!(primary_button_from_mask(MIDDLE_BUTTON_MASK), Some(MouseButton::Middle));
    assert_eq!(primary_button_from_mask(8), None);
}

#[test]
fn closing_an_origin_raises_all_its_marks() {
    let mut state = RemoteMouseState {
        x: 0,
        y: 0,
        buttons: 0,
        last_origin_id: String::new(),
        sequence_by_origin: marks(
            "a",
            RemoteMouseSequenceState {
                last_position_sequence: 1,
                last_button_snapshot_sequence: 2,
                last_scroll_sequence: 3,
                last_boundary_sequence: 1,
                last_button_sequence: [4, 5, 9],
            },
        ),
    };
    state.close_origin("a");
    state.close_origin("b");
    assert_eq!(
        *state.sequence_by_origin.get("a").unwrap(),
        RemoteMouseSequenceState {
            last_position_sequence: 9,
            last_button_snapshot_sequence: 9,
            last_scroll_sequence: 9,
            last_boundary_sequence: 9,
            last_button_sequence: [9; 3],
        }
    );
    assert!(state.sequence_by_origin.get("b").is_none());
}

#[test]
fn origin_maps_insert_replace_and_remove() {
    let mut map: OriginMap<u8> = OriginMap::default();
    map.insert("a", 1);
    map.insert("b", 2);
    map.insert("a", 3);
    map.insert("ä", 4);
    assert_eq!(map.get("a"), Some(&3));
    assert_eq!(map.get("ä"), Some(&4));
    assert_eq!(map.remove("a"), Some(3));
    assert_eq!(map.remove("a"), None);
    assert_eq!(map.get("b"), Some(&2));
}

#[test]
fn an_accepted_mouse_event_blocks_its_order() {
    let mut state = RemoteMouseState::default();
    let mut accepts = |mut event: InputEvent| {
        prepare_remote_mouse_event(&mut state, "server-a", &mut event).0
    };
    assert!(accepts(move_event(1, 2, None, 0, 10)));
    assert!(!accepts(move_event(9, 9, None, 0, 10)));
    assert!(!accepts(park(3, 4, 9)));
    assert!(accepts(left(true, "local-display-1", None, 12)));
    assert!(!accepts(left(false, "local-display-1", None, 11)));
    assert!(accepts(left(false, "local-display-1", None, 13)));
}
