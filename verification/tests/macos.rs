use mykvm::capture::{ActiveTarget, RemoteMotion, RemoteStep, Span};
use mykvm::clipboard_target::ClipboardBinding;
use mykvm::layout::{
    default_modifier_map, Device, LayoutState, NativeRect, Screen, ScreenSwitchHotkeys,
};
use mykvm::macos_capture::{
    begin_macos_crossing, begin_macos_move, enter_remote_target_macos, finish_macos_crossing,
    finish_macos_event, finish_macos_move, follow_macos_move, handle_macos_event, handle_macos_mouse_move, mac_modifier_vks,
    macos_event_is_mykvm_injected, macos_raw_gesture_event_callback, macos_raw_gesture_event_mask,
    macos_raw_gesture_event_types, return_to_local_macos, GestureStep, MacCapture, MacEntry,
    MacEvent, MacEventKind, MacMoveEnd, MacMoveStep, MacStep, MoveStart, TapCall, MACOS_INJECTED_EVENT_TAG,
    MACOS_NSEVENT_TYPE_SWIPE, MACOS_NSEVENT_TYPE_SYSTEM_DEFINED,
    MACOS_RAW_EVENT_TAP_DISABLED_BY_TIMEOUT,
};
use mykvm::macos_cursor::{
    hide_macos_cursor_if_needed, macos_capture_loop_ms, macos_cursor_hide_owner_transition,
    macos_cursor_repin_policy, macos_receive_cursor_drifted, macos_receive_hide_cursor,
    macos_receive_show_cursor_if_hidden, macos_transparent_png, reassert_macos_hidden_window_cursor,
    receive_monitor_shows, repin_macos_cursor_if_drifted, repin_macos_cursor_while_remote,
    set_macos_cursor_transparent, show_macos_cursor_if_needed, MacCursor, MacCursorStackAction,
    RepinStep, MACOS_CURSOR_HIDE_OWNER_CAPTURE, MACOS_CURSOR_HIDE_OWNER_RECEIVE,
    MACOS_HIDDEN_REMOTE_CAPTURE_LOOP_MS, MACOS_IDLE_CAPTURE_LOOP_MS,
    MACOS_VISIBLE_REMOTE_CAPTURE_LOOP_MS,
};
use mykvm::macos_inject::{
    inject_macos_key_with_modifier_snapshot, inject_mouse_button, inject_mouse_move,
    macos_hid_key_event_plan, merged_macos_event_flags, next_input_source, post_macos_hid_with_recovery, reconcile_macos_injected_modifier_snapshot,
    reset_injected_keys, windows_vk_to_mac_device_flag, windows_vk_to_mac_flag, HidAction,
    HidEvent, HidPhase, InputSource, MacClickTracker, MacHidKeyEventPlan, MacInjectedKeyState,
    MacIoHidConnectionState, MacKeyAction, MacMouseEvent, MacMousePlan, MACOS_IOHID_RETRY_BACKOFF,
};
use mykvm::macos_loop::{
    run_macos_capture_loop, start_macos_capture, LoopAction, LoopEvent, LoopPhase, StartAction,
    StartPhase, TapLocation,
};
use mykvm::packets::SequenceCounter;
use mykvm::shared_input::{
    InputEvent, MouseButton, CONTROL_MODIFIER_MASK, LEFT_BUTTON_MASK, SHIFT_MODIFIER_MASK,
};
use mykvm::targets::{Edge, InputTarget};

const MS: u64 = 1_000_000;

fn around(value: f64) -> Span {
    Span {
        floor: value.floor() as i64,
        ceil: value.ceil() as i64,
    }
}

fn drifted(parked: (f64, f64), current: (f64, f64)) -> bool {
    macos_receive_cursor_drifted(around(current.0 - parked.0), around(current.1 - parked.1))
}

fn screen(device_id: &str, id: &str, x: i32, y: i32, width: i32, height: i32) -> Screen {
    Screen {
        id: id.to_string(),
        device_id: device_id.to_string(),
        name: id.to_string(),
        x,
        y,
        width,
        height,
        native: NativeRect {
            x,
            y,
            width,
            height,
        },
        is_primary: true,
    }
}

fn device(id: &str, role: &str, screens: Vec<Screen>) -> Device {
    Device {
        id: id.to_string(),
        name: id.to_string(),
        platform: "windows".to_string(),
        host: "10.0.0.2".to_string(),
        transport_port: 52000,
        quic_port: 52001,
        transport_public_key: "peer-public-key".to_string(),
        protocol_version: 3,
        online: true,
        input_ready: true,
        role: role.to_string(),
        screens,
        modifier_remap: None,
        modifier_map: None,
    }
}

fn layout() -> LayoutState {
    LayoutState {
        devices: vec![
            device(
                "local-device",
                "local",
                vec![screen("local-device", "local-display-1", 0, 0, 1920, 1080)],
            ),
            device(
                "peer-device",
                "client",
                vec![screen("peer-device", "peer-device-scr-1", 1920, 0, 1920, 1080)],
            ),
        ],
        local_peer_id: "peer-local".to_string(),
        input_mode: "control".to_string(),
        machine_role: "server".to_string(),
        cluster_id: "cluster-test".to_string(),
        pair_secret: "secret-test".to_string(),
        paired_controllers: Vec::new(),
        transport_port: 47833,
        quic_port: 47834,
        modifier_remap: true,
        modifier_map: default_modifier_map(),
        screen_switch_hotkeys: ScreenSwitchHotkeys {
            left: "alt+left".to_string(),
            right: "alt+right".to_string(),
            up: "disabled".to_string(),
            down: "disabled".to_string(),
        },
    }
}

fn active() -> ActiveTarget {
    let mut current_screen = screen("peer-device", "scr-1", 1920, 0, 1920, 1080);
    current_screen.id = "scr-1".to_string();
    ActiveTarget {
        target: InputTarget {
            device_id: "peer-device".to_string(),
            origin_device_id: "peer-local".to_string(),
            cluster_id: "cluster-test".to_string(),
            pair_secret: "secret-test".to_string(),
            target_addr: "10.0.0.2:52001".to_string(),
            target_platform: "windows".to_string(),
            modifier_remap: true,
            modifier_control: "meta".to_string(),
            modifier_alt: "same".to_string(),
            modifier_meta: "control".to_string(),
            transport_public_key: "peer-public-key".to_string(),
            protocol_version: 3,
            screen_id: "scr-1".to_string(),
            local_screen: screen("local-device", "local-display-1", 0, 0, 1920, 1080),
            layout_local_screen: screen("local-device", "local-display-1", 0, 0, 1920, 1080),
            remote_screen: screen("peer-device", "peer-device-scr-1", 1920, 0, 1920, 1080),
            edge: Edge::Right,
        },
        current_screen,
        current_screen_id: "scr-1".to_string(),
        invert_y: false,
    }
}

fn idle() -> MacCapture<(f64, f64)> {
    MacCapture::new(SequenceCounter { next: 1 })
}

fn controlling() -> MacCapture<(f64, f64)> {
    let mut capture = idle();
    let mut clipboard = ClipboardBinding::default();
    let target = active();
    let (_, hide) = begin_macos_crossing(&mut capture, &target, (2, 500));
    assert!(hide);
    let entry = finish_macos_crossing(
        &mut capture,
        target,
        (1915.0, 500.0),
        true,
        &mut clipboard,
    );
    assert!(matches!(entry, MacEntry::Entered { .. }));
    capture.just_crossed = false;
    capture
}

fn event(kind: MacEventKind, flags: u64) -> MacEvent {
    MacEvent {
        kind,
        flags,
        user_data: 0,
    }
}

const FREE: TapCall = TapCall {
    gate_busy: false,
    stopping: false,
};

#[test]
fn macos_receive_cursor_ignores_logged_window_server_drift() {
    let parked = (2495.0, 1375.0);

    assert!(!drifted(parked, (2505.0, 1370.0)));
    assert!(!drifted(parked, (2508.0, 1362.0)));
    assert!(!drifted(parked, (2519.0, 1375.0)));
    assert!(drifted(parked, (2520.0, 1375.0)));
}

#[test]
fn the_receive_watch_needs_both_places() {
    let far = (around(24.5), around(0.0));
    let near = (around(24.0), around(-24.0));
    assert!(receive_monitor_shows(true, Some(far)));
    assert!(!receive_monitor_shows(true, Some(near)));
    assert!(!receive_monitor_shows(true, None));
    assert!(!receive_monitor_shows(false, Some(far)));
    assert!(receive_monitor_shows(true, Some((around(0.0), around(-24.25)))));
}

#[test]
fn windows_vk_to_mac_flag_covers_modifiers() {
    assert!(windows_vk_to_mac_flag(0x10).is_some());
    assert!(windows_vk_to_mac_flag(0xA1).is_some());
    assert!(windows_vk_to_mac_flag(0x11).is_some());
    assert!(windows_vk_to_mac_flag(0x12).is_some());
    assert!(windows_vk_to_mac_flag(0x5B).is_some());

    assert!(windows_vk_to_mac_flag(0x41).is_none());
    assert!(windows_vk_to_mac_flag(0x20).is_none());
}

#[test]
fn device_flags_tell_the_sides_apart() {
    assert_eq!(windows_vk_to_mac_device_flag(0x10), Some(0x2));
    assert_eq!(windows_vk_to_mac_device_flag(0xA1), Some(0x4));
    assert_eq!(windows_vk_to_mac_device_flag(0xA2), Some(0x1));
    assert_eq!(windows_vk_to_mac_device_flag(0xA3), Some(0x2000));
    assert_eq!(windows_vk_to_mac_device_flag(0xA4), Some(0x20));
    assert_eq!(windows_vk_to_mac_device_flag(0xA5), Some(0x40));
    assert_eq!(windows_vk_to_mac_device_flag(0x5B), Some(0x8));
    assert_eq!(windows_vk_to_mac_device_flag(0x5C), Some(0x10));
    assert_eq!(windows_vk_to_mac_device_flag(0x41), None);
}

#[test]
fn macos_keyboard_flags_preserve_intrinsic_arrow_identity() {
    let arrow_intrinsic_flags: u64 = 0x20A0_0000;
    let control_flag: u64 = 0x0004_0000;

    let merged = merged_macos_event_flags(arrow_intrinsic_flags, control_flag);
    assert_eq!(merged & arrow_intrinsic_flags, arrow_intrinsic_flags);
    assert_eq!(merged & control_flag, control_flag);
}

#[test]
fn macos_control_arrow_uses_hid_global_modifier_state() {
    let mut state = MacInjectedKeyState::default();
    let control_down = state.transition(0x11, true, true);
    let left_down = state.transition(0x25, true, false);
    let left_up = state.transition(0x25, false, false);
    let control_up = state.transition(0x11, false, true);

    assert_eq!(
        [
            macos_hid_key_event_plan(
                59,
                true,
                true,
                control_down.tracked_flags,
                control_down.device_flags,
            ),
            macos_hid_key_event_plan(
                123,
                true,
                false,
                left_down.tracked_flags,
                left_down.device_flags,
            ),
            macos_hid_key_event_plan(
                123,
                false,
                false,
                left_up.tracked_flags,
                left_up.device_flags,
            ),
            macos_hid_key_event_plan(
                59,
                false,
                true,
                control_up.tracked_flags,
                control_up.device_flags,
            ),
        ],
        [
            MacHidKeyEventPlan {
                event_type: 12,
                key_code: 59,
                event_flags: 0x0004_0001,
                options: 1,
            },
            MacHidKeyEventPlan {
                event_type: 10,
                key_code: 123,
                event_flags: 0,
                options: 0,
            },
            MacHidKeyEventPlan {
                event_type: 11,
                key_code: 123,
                event_flags: 0,
                options: 0,
            },
            MacHidKeyEventPlan {
                event_type: 12,
                key_code: 59,
                event_flags: 0,
                options: 1,
            },
        ]
    );
    assert!(state.pressed_keys().is_empty());
}

#[test]
fn macos_hid_plain_key_repeat_remains_a_keydown() {
    let mut state = MacInjectedKeyState::default();
    let first = state.transition(0x41, true, false);
    let repeat = state.transition(0x41, true, false);
    let up = state.transition(0x41, false, false);

    let plans = [
        macos_hid_key_event_plan(0, true, false, first.tracked_flags, first.device_flags),
        macos_hid_key_event_plan(0, true, false, repeat.tracked_flags, repeat.device_flags),
        macos_hid_key_event_plan(0, false, false, up.tracked_flags, up.device_flags),
    ];
    assert_eq!(plans.map(|plan| plan.event_type), [10, 10, 11]);
    assert!(plans
        .iter()
        .all(|plan| plan.event_flags == 0 && plan.options == 0));
    assert!(state.pressed_keys().is_empty());
}

/// Posts over connections that the closures stand for.
fn post(
    state: &mut MacIoHidConnectionState,
    now: u64,
    mut open: impl FnMut() -> Option<u32>,
    mut send: impl FnMut(u32) -> bool,
    mut close: impl FnMut(u32),
) -> bool {
    let mut phase = HidPhase::Start;
    let mut event = HidEvent::Begin;
    loop {
        match post_macos_hid_with_recovery(state, &mut phase, event, now) {
            HidAction::Open => event = HidEvent::Opened(open()),
            HidAction::Post(connection) => event = HidEvent::Posted(send(connection)),
            HidAction::CloseAndOpen(connection) => {
                close(connection);
                event = HidEvent::Opened(open());
            }
            HidAction::CloseAndFail(connection) => {
                close(connection);
                return false;
            }
            HidAction::Finish(posted) => return posted,
        }
    }
}

#[test]
fn macos_iohid_reopens_a_stale_cached_connection_once() {
    let mut state = MacIoHidConnectionState {
        connection: Some(10),
        retry_after: None,
    };
    let mut opened = vec![20_u32].into_iter();
    let mut posted = Vec::new();
    let mut closed = Vec::new();

    assert!(post(
        &mut state,
        0,
        || opened.next(),
        |connection| {
            posted.push(connection);
            connection == 20
        },
        |connection| closed.push(connection),
    ));
    assert_eq!(posted, vec![10, 20]);
    assert_eq!(closed, vec![10]);
    assert_eq!(state.connection, Some(20));
    assert_eq!(state.retry_after, None);
}

#[test]
fn macos_iohid_unavailable_connection_retries_after_backoff() {
    let started: u64 = 7_000 * MS;
    let mut state = MacIoHidConnectionState::default();
    let mut open_calls = 0;

    assert!(!post(
        &mut state,
        started,
        || {
            open_calls += 1;
            None
        },
        |_| unreachable!("no connection to post"),
        |_| unreachable!("no connection to close"),
    ));
    assert_eq!(open_calls, 1);
    assert!(!post(
        &mut state,
        started + 500 * MS,
        || {
            open_calls += 1;
            Some(30)
        },
        |_| true,
        |_| {},
    ));
    assert_eq!(open_calls, 1, "typing during cooldown must stay cheap");
    assert!(post(
        &mut state,
        started + MACOS_IOHID_RETRY_BACKOFF,
        || {
            open_calls += 1;
            Some(30)
        },
        |connection| connection == 30,
        |_| {},
    ));
    assert_eq!(open_calls, 2);
    assert_eq!(state.connection, Some(30));
}

#[test]
fn a_second_failed_post_closes_and_cools_down() {
    let mut state = MacIoHidConnectionState {
        connection: Some(10),
        retry_after: None,
    };
    let mut closed = Vec::new();
    assert!(!post(
        &mut state,
        5,
        || Some(11),
        |_| false,
        |connection| closed.push(connection),
    ));
    assert_eq!(closed, vec![10, 11]);
    assert_eq!(state.connection, None);
    assert_eq!(state.retry_after, Some(5 + MACOS_IOHID_RETRY_BACKOFF));
}

#[test]
fn duplicate_macos_modifier_down_is_ignored_but_repair_up_is_posted() {
    let mut state = MacInjectedKeyState::default();
    let control = windows_vk_to_mac_flag(0x11).expect("Control flag");
    let transition = state.transition(0xA2, true, true);
    assert!(transition.should_post);
    assert_eq!(transition.tracked_flags, control);
    assert!(!state.transition(0xA2, true, true).should_post);
    assert!(state.transition(0xA3, true, true).should_post);
    assert_eq!(state.transition(0xA2, false, true).tracked_flags, control);
    assert_eq!(state.transition(0xA3, false, true).tracked_flags, 0);
    assert!(state.transition(0xA3, false, true).should_post);
}

#[test]
fn macos_generic_and_left_modifier_aliases_clear_each_other() {
    let mut state = MacInjectedKeyState::default();
    assert!(state.transition(0x11, true, true).should_post);
    assert_eq!(state.pressed_keys(), &[0xA2]);
    let up = state.transition(0xA2, false, true);
    assert!(up.should_post);
    assert_eq!(up.tracked_flags, 0);
    assert!(state.pressed_keys().is_empty());

    assert!(state.transition(0x12, true, true).should_post);
    assert_eq!(state.pressed_keys(), &[0xA4]);
    assert!(state.transition(0xA4, false, true).should_post);
    assert!(state.pressed_keys().is_empty());
}

#[test]
fn macos_unambiguous_modifier_family_up_clears_snapshot_synthetic_key() {
    let mut state = MacInjectedKeyState::default();
    assert!(state.transition(0x5B, true, true).should_post);
    assert_eq!(state.pressed_keys(), &[0x5B]);
    let right_command_up = state.transition(0x5C, false, true);
    assert!(right_command_up.should_post);
    assert_eq!(right_command_up.tracked_flags, 0);
    assert!(state.pressed_keys().is_empty());
}

#[test]
fn macos_injected_key_state_tracks_plain_keys_without_suppressing_repeat() {
    let mut state = MacInjectedKeyState::default();

    let first = state.transition(0x41, true, false);
    let repeat = state.transition(0x41, true, false);

    assert!(first.should_post);
    assert!(
        repeat.should_post,
        "ordinary key repeat must still be posted"
    );
    assert_eq!(state.pressed_keys(), &[0x41]);
    assert!(state.transition(0x41, false, false).should_post);
    assert!(state.pressed_keys().is_empty());
}

#[test]
fn macos_injected_key_state_deduplicates_modifier_downs_and_snapshots_every_key() {
    let mut state = MacInjectedKeyState::default();

    assert!(state.transition(0xA2, true, true).should_post);
    assert!(!state.transition(0xA2, true, true).should_post);
    assert!(state.transition(0x28, true, false).should_post);
    assert_eq!(state.pressed_keys(), &[0xA2, 0x28]);

    assert!(state.transition(0xA2, false, true).should_post);
    assert!(state.transition(0xA2, false, true).should_post);
    assert_eq!(state.pressed_keys(), &[0x28]);
}

#[test]
fn a_snapshot_is_applied_before_a_plain_key_and_after_a_modifier() {
    let mut state = MacInjectedKeyState::default();
    let actions =
        inject_macos_key_with_modifier_snapshot(&mut state, 0x41, true, Some(SHIFT_MODIFIER_MASK));
    assert_eq!(state.pressed_keys(), &[0xA0, 0x41]);
    assert_eq!(
        actions,
        vec![
            MacKeyAction::Post {
                plan: MacHidKeyEventPlan {
                    event_type: 12,
                    key_code: 56,
                    event_flags: 0x0002_0002,
                    options: 1,
                },
                down: true,
                fallback_flags: 0x0002_0002,
            },
            MacKeyAction::Post {
                plan: MacHidKeyEventPlan {
                    event_type: 10,
                    key_code: 0,
                    event_flags: 0,
                    options: 0,
                },
                down: true,
                fallback_flags: 0x0002_0002,
            },
        ]
    );

    let actions = inject_macos_key_with_modifier_snapshot(
        &mut state,
        0x11,
        true,
        Some(CONTROL_MODIFIER_MASK),
    );
    assert_eq!(state.pressed_keys(), &[0x41, 0xA2]);
    assert_eq!(actions.len(), 2);
    assert!(matches!(
        actions[0],
        MacKeyAction::Post {
            down: true,
            plan: MacHidKeyEventPlan { key_code: 59, .. },
            ..
        }
    ));
    assert!(matches!(
        actions[1],
        MacKeyAction::Post {
            down: false,
            plan: MacHidKeyEventPlan { key_code: 56, .. },
            ..
        }
    ));
}

#[test]
fn caps_lock_switches_the_input_source_and_unknown_keys_are_dropped() {
    let mut state = MacInjectedKeyState::default();
    assert_eq!(
        inject_macos_key_with_modifier_snapshot(&mut state, 0x14, true, None),
        vec![MacKeyAction::SwitchInputSource]
    );
    assert!(inject_macos_key_with_modifier_snapshot(&mut state, 0x14, false, None).is_empty());
    assert!(inject_macos_key_with_modifier_snapshot(&mut state, 0xFF, true, None).is_empty());
    assert!(state.pressed_keys().is_empty());
}

#[test]
fn a_snapshot_repair_reaches_the_snapshot() {
    let mut state = MacInjectedKeyState::default();
    state.transition(0xA3, true, true);
    state.transition(0x41, true, false);
    let repairs = reconcile_macos_injected_modifier_snapshot(&mut state, SHIFT_MODIFIER_MASK);
    assert_eq!(repairs.len(), 2);
    assert_eq!(state.pressed_keys(), &[0x41, 0xA0]);
    assert!(reconcile_macos_injected_modifier_snapshot(&mut state, SHIFT_MODIFIER_MASK).is_empty());
}

#[test]
fn a_reset_releases_the_last_key_first() {
    let mut state = MacInjectedKeyState::default();
    state.transition(0xA2, true, true);
    state.transition(0x41, true, false);
    let actions = reset_injected_keys(&mut state);
    assert!(state.pressed_keys().is_empty());
    assert_eq!(
        actions,
        vec![
            MacKeyAction::Post {
                plan: MacHidKeyEventPlan {
                    event_type: 11,
                    key_code: 0,
                    event_flags: 0,
                    options: 0,
                },
                down: false,
                fallback_flags: 0x0004_0001,
            },
            MacKeyAction::Post {
                plan: MacHidKeyEventPlan {
                    event_type: 12,
                    key_code: 59,
                    event_flags: 0,
                    options: 1,
                },
                down: false,
                fallback_flags: 0,
            },
        ]
    );
}

#[test]
fn macos_click_tracker_emits_matching_double_click_counts() {
    let mut tracker = MacClickTracker::default();
    let start: u64 = 1_000 * MS;
    let interval: u64 = 500 * MS;

    assert_eq!(
        tracker.event_count(MouseButton::Left, true, 100, 200, start, interval),
        1
    );
    assert_eq!(
        tracker.event_count(MouseButton::Left, false, 100, 200, start + 40 * MS, interval),
        1
    );
    assert_eq!(
        tracker.event_count(MouseButton::Left, true, 102, 201, start + 180 * MS, interval),
        2
    );
    assert_eq!(
        tracker.event_count(MouseButton::Left, false, 102, 201, start + 220 * MS, interval),
        2
    );
}

#[test]
fn macos_click_tracker_resets_after_timeout_button_change_or_drag() {
    let mut tracker = MacClickTracker::default();
    let start: u64 = 1_000 * MS;
    let interval: u64 = 500 * MS;

    assert_eq!(
        tracker.event_count(MouseButton::Left, true, 10, 10, start, interval),
        1
    );
    assert_eq!(
        tracker.event_count(MouseButton::Left, false, 30, 30, start + 40 * MS, interval),
        0,
        "a drag release is not a click"
    );
    assert_eq!(
        tracker.event_count(MouseButton::Right, true, 10, 10, start + 100 * MS, interval),
        1
    );
    assert_eq!(
        tracker.event_count(MouseButton::Left, true, 10, 10, start + 800 * MS, interval),
        1
    );
}

#[test]
fn click_counts_stop_at_three_and_survive_far_points() {
    let mut tracker = MacClickTracker::default();
    let mut counts = Vec::new();
    for turn in 0..5 {
        counts.push(tracker.event_count(MouseButton::Left, true, 5, 5, turn * MS, 500 * MS));
        tracker.event_count(MouseButton::Left, false, 5, 5, turn * MS, 500 * MS);
    }
    assert_eq!(counts, vec![1, 2, 3, 3, 3]);
    assert_eq!(
        tracker.event_count(
            MouseButton::Left,
            true,
            i32::MIN,
            i32::MAX,
            6 * MS,
            500 * MS
        ),
        1
    );
    assert_eq!(
        tracker.event_count(MouseButton::Left, true, 0, 0, 0, 500 * MS),
        1
    );
    assert_eq!(
        tracker.event_count(MouseButton::Middle, false, 0, 0, 0, 500 * MS),
        0
    );
}

#[test]
fn caps_lock_prefers_the_first_opposite_keyboard() {
    let source = |is_current, is_keyboard, is_selectable, is_ascii| InputSource {
        is_current,
        is_keyboard,
        is_selectable,
        is_ascii,
    };
    let sources = [
        source(true, true, true, true),
        source(false, false, true, false),
        source(false, true, false, false),
        source(false, true, true, true),
        source(false, true, true, false),
    ];
    assert_eq!(next_input_source(&sources, true), Some(4));
    assert_eq!(next_input_source(&sources[..4], true), None);
    assert_eq!(next_input_source(&sources, false), Some(3));
}

#[test]
fn macos_raw_gesture_mask_covers_trackpad_system_gestures() {
    let mask = macos_raw_gesture_event_mask();

    for event_type in macos_raw_gesture_event_types() {
        assert_ne!(mask & (1_u64 << event_type), 0);
    }
    assert_ne!(mask & (1_u64 << MACOS_NSEVENT_TYPE_SWIPE), 0);
    assert_ne!(mask & (1_u64 << MACOS_NSEVENT_TYPE_SYSTEM_DEFINED), 0);
    assert_eq!(mask & (1_u64 << 22), 0);
}

#[test]
fn macos_hidden_remote_loop_matches_visible_remote_loop() {
    assert_eq!(
        macos_capture_loop_ms(false, false),
        MACOS_IDLE_CAPTURE_LOOP_MS
    );
    assert_eq!(
        macos_capture_loop_ms(true, true),
        MACOS_VISIBLE_REMOTE_CAPTURE_LOOP_MS
    );
    assert_eq!(
        macos_capture_loop_ms(true, false),
        MACOS_HIDDEN_REMOTE_CAPTURE_LOOP_MS
    );
    assert_eq!(
        MACOS_HIDDEN_REMOTE_CAPTURE_LOOP_MS,
        MACOS_VISIBLE_REMOTE_CAPTURE_LOOP_MS
    );
}

#[test]
fn hidden_macos_window_uses_a_relaxed_cursor_repin_policy() {
    let policy = |visible| {
        let (half_pixels, interval_ms) = macos_cursor_repin_policy(visible);
        (half_pixels as f64 / 2.0, interval_ms)
    };
    assert_eq!(policy(true), (1.5, 8));
    assert_eq!(policy(false), (48.0, 50));
}

#[test]
fn macos_cursor_stack_waits_for_the_last_hide_owner() {
    fn overlap_actions(first: u64, second: u64) -> Vec<MacCursorStackAction> {
        let mut owners = 0;
        [
            (first, true),
            (second, true),
            (first, false),
            (second, false),
        ]
        .into_iter()
        .map(|(owner, hidden)| {
            let (next, action) = macos_cursor_hide_owner_transition(owners, owner, hidden);
            owners = next;
            action
        })
        .collect()
    }

    let expected = vec![
        MacCursorStackAction::Push,
        MacCursorStackAction::Keep,
        MacCursorStackAction::Keep,
        MacCursorStackAction::Pop,
    ];
    assert_eq!(
        overlap_actions(
            MACOS_CURSOR_HIDE_OWNER_RECEIVE,
            MACOS_CURSOR_HIDE_OWNER_CAPTURE
        ),
        expected
    );
    assert_eq!(
        overlap_actions(
            MACOS_CURSOR_HIDE_OWNER_CAPTURE,
            MACOS_CURSOR_HIDE_OWNER_RECEIVE
        ),
        expected
    );

    let (owners, action) =
        macos_cursor_hide_owner_transition(0, MACOS_CURSOR_HIDE_OWNER_RECEIVE, true);
    assert_eq!(action, MacCursorStackAction::Push);
    assert_eq!(
        macos_cursor_hide_owner_transition(owners, MACOS_CURSOR_HIDE_OWNER_RECEIVE, true),
        (owners, MacCursorStackAction::Keep)
    );
    let (owners, action) =
        macos_cursor_hide_owner_transition(owners, MACOS_CURSOR_HIDE_OWNER_RECEIVE, false);
    assert_eq!((owners, action), (0, MacCursorStackAction::Pop));
    assert_eq!(
        macos_cursor_hide_owner_transition(owners, MACOS_CURSOR_HIDE_OWNER_RECEIVE, false),
        (0, MacCursorStackAction::Keep)
    );
}

#[test]
fn a_failed_push_leaves_the_owners_alone() {
    let mut owners = 0;
    set_macos_cursor_transparent(&mut owners, 2, true, |_| false);
    assert_eq!(owners, 0);
    set_macos_cursor_transparent(&mut owners, 2, true, |action| {
        action == MacCursorStackAction::Push
    });
    assert_eq!(owners, 2);
    set_macos_cursor_transparent(&mut owners, 1, true, |_| unreachable!("already on the stack"));
    assert_eq!(owners, 3);
    set_macos_cursor_transparent(&mut owners, 2, false, |_| unreachable!("another owner is left"));
    set_macos_cursor_transparent(&mut owners, 1, false, |action| {
        action == MacCursorStackAction::Pop
    });
    assert_eq!(owners, 0);
}

#[test]
fn hides_and_shows_are_paired() {
    let mut cursor = MacCursor::default();
    assert!(hide_macos_cursor_if_needed(&mut cursor));
    assert!(!hide_macos_cursor_if_needed(&mut cursor));
    assert_eq!(show_macos_cursor_if_needed(&mut cursor), Some(1));
    assert_eq!(show_macos_cursor_if_needed(&mut cursor), None);
    assert_eq!(cursor, MacCursor::default());
}

#[test]
fn a_received_park_hides_once_and_ends_the_multi_click() {
    let mut hidden = false;
    let mut clicks = MacClickTracker::default();
    clicks.event_count(MouseButton::Left, true, 1, 1, 0, MS);
    assert!(macos_receive_hide_cursor(&mut hidden, &mut clicks));
    assert_eq!(clicks, MacClickTracker::default());
    assert!(!macos_receive_hide_cursor(&mut hidden, &mut clicks));
    assert!(macos_receive_show_cursor_if_hidden(&mut hidden));
    assert!(!macos_receive_show_cursor_if_hidden(&mut hidden));
}

#[test]
fn the_pointer_is_pinned_after_drift_and_at_a_limited_rate() {
    let mut cursor = MacCursor::default();
    let still = Some((around(3.0), around(-3.0)));
    let moved = Some((around(3.5), around(0.0)));
    assert!(!repin_macos_cursor_if_drifted(&mut cursor, still, true, 0));
    assert!(!repin_macos_cursor_if_drifted(&mut cursor, None, true, 0));
    assert!(repin_macos_cursor_if_drifted(&mut cursor, moved, true, 100 * MS));
    assert!(!repin_macos_cursor_if_drifted(&mut cursor, moved, true, 107 * MS));
    assert!(repin_macos_cursor_if_drifted(&mut cursor, moved, true, 108 * MS));
    assert!(!repin_macos_cursor_if_drifted(
        &mut cursor,
        Some((around(96.0), around(0.0))),
        false,
        500 * MS
    ));
}

#[test]
fn a_hidden_window_paints_the_pointer_transparent_again() {
    let mut cursor = MacCursor::default();
    assert!(!reassert_macos_hidden_window_cursor(&mut cursor, true, 0));
    hide_macos_cursor_if_needed(&mut cursor);
    assert!(reassert_macos_hidden_window_cursor(&mut cursor, false, 0));
    assert!(!reassert_macos_hidden_window_cursor(&mut cursor, false, 249 * MS));
    assert!(reassert_macos_hidden_window_cursor(&mut cursor, true, 249 * MS));
    assert!(reassert_macos_hidden_window_cursor(&mut cursor, false, 250 * MS));

    assert_eq!(
        repin_macos_cursor_while_remote(&mut cursor, false, None, false, 251 * MS),
        RepinStep {
            repin: true,
            set_transparent: true
        }
    );
    assert_eq!(
        repin_macos_cursor_while_remote(&mut cursor, false, None, true, 251 * MS),
        RepinStep {
            repin: false,
            set_transparent: false
        }
    );
    assert_eq!(
        follow_macos_move(
            &mut cursor,
            Some((around(200.0), around(0.0))),
            false,
            400 * MS
        ),
        RepinStep {
            repin: true,
            set_transparent: true
        }
    );
}

#[test]
fn modifiers_are_read_from_the_flags() {
    assert_eq!(mac_modifier_vks(0), Vec::<u16>::new());
    assert_eq!(mac_modifier_vks(0x2_0000 | 0x10_0000), vec![0x10, 0x5B]);
    assert_eq!(mac_modifier_vks(0x4_0000 | 0x8_0000), vec![0x11, 0x12]);
}

#[test]
fn own_injection_and_local_input_pass_the_tap() {
    let mut capture = controlling();
    let mut clipboard = ClipboardBinding::default();
    let layout = layout();
    assert!(macos_event_is_mykvm_injected(MACOS_INJECTED_EVENT_TAG));
    let own = MacEvent {
        kind: MacEventKind::Key {
            code: 0,
            down: true,
        },
        flags: 0,
        user_data: MACOS_INJECTED_EVENT_TAG,
    };
    assert_eq!(
        handle_macos_event(&mut capture, FREE, own, Some(&layout), (2, 500), &mut clipboard),
        MacStep::Keep
    );
    let mut local = idle();
    assert_eq!(
        handle_macos_event(
            &mut local,
            FREE,
            event(MacEventKind::FlagsChanged { code: 56 }, 0x2_0000),
            Some(&layout),
            (0, 0),
            &mut clipboard
        ),
        MacStep::Keep
    );
    assert_eq!(local.pressed_modifiers, vec![0x10]);
}

#[test]
fn a_busy_gate_swallows_only_remote_input() {
    let busy = TapCall {
        gate_busy: true,
        stopping: false,
    };
    let key = event(
        MacEventKind::Key {
            code: 0,
            down: true,
        },
        0,
    );
    let mut clipboard = ClipboardBinding::default();
    assert_eq!(
        handle_macos_event(&mut controlling(), busy, key, None, (0, 0), &mut clipboard),
        MacStep::Swallow
    );
    assert_eq!(
        handle_macos_event(&mut idle(), busy, key, None, (0, 0), &mut clipboard),
        MacStep::Keep
    );
    let stopping = TapCall {
        gate_busy: false,
        stopping: true,
    };
    assert_eq!(
        handle_macos_event(&mut controlling(), stopping, key, None, (0, 0), &mut clipboard),
        MacStep::Keep
    );
}

#[test]
fn a_captured_click_and_key_are_sent_with_the_modifiers() {
    let mut capture = controlling();
    let mut clipboard = ClipboardBinding::default();
    let layout = layout();
    let sequence = capture.session.sequences.next;
    let step = handle_macos_event(
        &mut capture,
        FREE,
        event(
            MacEventKind::Button {
                button: MouseButton::Left,
                down: true,
            },
            0x4_0000,
        ),
        Some(&layout),
        (10, 20),
        &mut clipboard,
    );
    let sent = InputEvent::MouseButton {
        button: MouseButton::Left,
        down: true,
        screen_id: "scr-1".to_string(),
        x: Some(10),
        y: Some(20),
        sequence,
    };
    match step {
        MacStep::Send { event, snapshot } => {
            assert_eq!(event, sent);
            assert_eq!(snapshot, CONTROL_MODIFIER_MASK);
            finish_macos_event(&mut capture, Some(&event), true, true, None, true, 0);
        }
        other => panic!("expected a send, got {other:?}"),
    }
    assert_eq!(capture.session.buttons, LEFT_BUTTON_MASK);

    let step = handle_macos_event(
        &mut capture,
        FREE,
        event(
            MacEventKind::Key {
                code: 0,
                down: true,
            },
            0,
        ),
        Some(&layout),
        (10, 20),
        &mut clipboard,
    );
    assert_eq!(
        step,
        MacStep::Send {
            event: InputEvent::Key {
                key_code: 0x41,
                down: true
            },
            snapshot: 0
        }
    );
    let unknown = event(
        MacEventKind::Key {
            code: 500,
            down: true,
        },
        0,
    );
    assert_eq!(
        handle_macos_event(&mut capture, FREE, unknown, Some(&layout), (0, 0), &mut clipboard),
        MacStep::Miss
    );
}

#[test]
fn a_finished_event_counts_what_was_sent_and_pins_the_pointer() {
    let mut capture = controlling();
    let away = Some((around(200.0), around(0.0)));
    let key = InputEvent::Key {
        key_code: 0x41,
        down: true,
    };
    let step = finish_macos_event(&mut capture, Some(&key), true, true, away, true, 400 * MS);
    assert_eq!(
        step,
        RepinStep {
            repin: true,
            set_transparent: false
        }
    );
    assert_eq!(capture.cursor.last_repin, Some(400 * MS));
    assert_eq!(capture.session.forwarded_keys, [0x41]);

    let release = InputEvent::Key {
        key_code: 0x41,
        down: false,
    };
    let step = finish_macos_event(&mut capture, Some(&release), false, true, away, true, 400 * MS);
    assert!(!step.repin, "the pointer was pinned a moment ago");
    assert_eq!(capture.session.forwarded_keys, [0x41], "a missed send counts for nothing");
    assert!(capture.session.active.is_some(), "and control stays");
    assert!(capture.session.remote_active);
}

#[test]
fn a_missed_move_gives_control_back() {
    let mut clipboard = ClipboardBinding::default();
    let mut capture = controlling();
    let away = Some((around(200.0), around(0.0)));
    let end = finish_macos_move(&mut capture, false, away, true, 400 * MS, &mut clipboard);
    assert_eq!(
        end,
        MacMoveEnd::Kept(RepinStep {
            repin: true,
            set_transparent: false
        })
    );
    assert!(capture.session.remote_active);
    let end = finish_macos_move(&mut capture, true, away, true, 500 * MS, &mut clipboard);
    assert!(matches!(end, MacMoveEnd::Returned(Some(_))));
    assert!(capture.session.active.is_none() && !capture.session.remote_active);
}

#[test]
fn forwarded_modifiers_are_released_once() {
    let mut capture = controlling();
    let mut clipboard = ClipboardBinding::default();
    let step = handle_macos_event(
        &mut capture,
        FREE,
        event(MacEventKind::FlagsChanged { code: 59 }, 0x4_0000),
        None,
        (0, 0),
        &mut clipboard,
    );
    assert!(matches!(step, MacStep::Changes(_)));
    finish_macos_event(&mut capture, None, true, true, None, true, 0);
    assert!(capture.session.forwarded_keys.is_empty());
    let returned = return_to_local_macos(&mut capture, &mut clipboard).expect("control is given back");
    let control_up = InputEvent::Key {
        key_code: 0x11,
        down: false,
    };
    let releases = returned.events.iter().filter(|event| **event == control_up);
    assert_eq!(releases.count(), 1);
}

#[test]
fn modifier_changes_send_new_presses_before_old_releases() {
    let mut capture = controlling();
    let mut clipboard = ClipboardBinding::default();
    capture.pressed_modifiers = vec![0x10];
    let step = handle_macos_event(
        &mut capture,
        FREE,
        event(MacEventKind::FlagsChanged { code: 59 }, 0x4_0000),
        None,
        (0, 0),
        &mut clipboard,
    );
    let key = |key_code, down| InputEvent::Key { key_code, down };
    assert_eq!(
        step,
        MacStep::Changes(vec![key(0x11, true), key(0x10, false)])
    );
    assert_eq!(capture.pressed_modifiers, vec![0x11]);
    let step = handle_macos_event(
        &mut capture,
        FREE,
        event(MacEventKind::FlagsChanged { code: 57 }, 0),
        None,
        (0, 0),
        &mut clipboard,
    );
    assert_eq!(
        step,
        MacStep::Changes(vec![key(0x14, true), key(0x14, false)])
    );
    assert_eq!(capture.pressed_modifiers, vec![0x11]);
}

#[test]
fn a_switch_hotkey_gives_control_back_and_releases_everything() {
    let mut capture = controlling();
    let mut clipboard = ClipboardBinding::default();
    let layout = layout();
    capture.session.forwarded_keys = vec![0x41];
    capture.session.buttons = LEFT_BUTTON_MASK;
    capture.pressed_modifiers = vec![0x12];
    capture.hotkey_return_point = Some((321.0, 654.0));
    let step = handle_macos_event(
        &mut capture,
        FREE,
        event(
            MacEventKind::Key {
                code: 123,
                down: true,
            },
            0x8_0000,
        ),
        Some(&layout),
        (10, 20),
        &mut clipboard,
    );
    let returned = match step {
        MacStep::Return(returned) => returned,
        other => panic!("expected a return, got {other:?}"),
    };
    assert_eq!(returned.recorded_point, Some((321.0, 654.0)));
    assert_eq!(returned.undo_hides, Some(1));
    assert_eq!(returned.events.len(), 4);
    assert_eq!(
        returned.events[0],
        InputEvent::Key {
            key_code: 0x12,
            down: false
        }
    );
    assert_eq!(
        returned.events[1],
        InputEvent::Key {
            key_code: 0x41,
            down: false
        }
    );
    assert!(matches!(
        returned.events[2],
        InputEvent::MouseButton {
            button: MouseButton::Left,
            down: false,
            ..
        }
    ));
    assert!(matches!(
        returned.events[3],
        InputEvent::CursorPark {
            x: 1855,
            y: 1015,
            ..
        }
    ));
    assert!(!capture.session.remote_active);
    assert_eq!(capture.pressed_modifiers, vec![0x12]);
    assert!(return_to_local_macos(&mut capture, &mut clipboard).is_none());
}

fn motion(x: i64, y: i64, dx: i64, dy: i64) -> RemoteMotion {
    let at = |value| Span {
        floor: value,
        ceil: value,
    };
    RemoteMotion {
        x: at(x),
        y: at(y),
        global_x: at(1920 + x),
        global_y: at(y),
        dx,
        dy,
    }
}

#[test]
fn movement_over_the_shared_edge_comes_back() {
    let mut capture = controlling();
    let mut clipboard = ClipboardBinding::default();
    let layout = layout();
    assert_eq!(
        handle_macos_mouse_move(
            &mut capture,
            motion(100, 500, 5, 0),
            Some(&layout),
            &mut clipboard
        ),
        MacMoveStep::Moved(RemoteStep::Stay)
    );
    assert_eq!(
        handle_macos_mouse_move(
            &mut capture,
            motion(-4, 500, -5, 0),
            None,
            &mut clipboard
        ),
        MacMoveStep::Moved(RemoteStep::Hold)
    );
    let step = handle_macos_mouse_move(
        &mut capture,
        motion(-4, 500, -5, 0),
        Some(&layout),
        &mut clipboard,
    );
    assert!(matches!(step, MacMoveStep::Returned(_)));
    assert!(capture.session.active.is_none());
    assert!(!capture.cursor.hidden);
    assert_eq!(
        handle_macos_mouse_move(
            &mut capture,
            motion(-4, 500, -5, 0),
            Some(&layout),
            &mut clipboard
        ),
        MacMoveStep::Refused
    );
}

#[test]
fn the_echo_of_a_warp_does_not_move_the_remote_pointer() {
    let mut capture = controlling();
    capture.suppress_next_delta = true;
    capture.just_crossed = true;
    assert_eq!(begin_macos_move(&mut capture, 5, 5), MoveStart::Suppressed);
    assert_eq!(begin_macos_move(&mut capture, -8, 0), MoveStart::Ignored);
    assert_eq!(
        begin_macos_move(&mut capture, -8, 0),
        MoveStart::Moving { dx: -8, dy: 0 }
    );
    if let Some(active) = &mut capture.session.active {
        active.invert_y = true;
    }
    assert_eq!(
        begin_macos_move(&mut capture, 3, 4),
        MoveStart::Moving { dx: 3, dy: -4 }
    );
    assert_eq!(begin_macos_move(&mut idle(), 3, 4), MoveStart::Local);
}

#[test]
fn an_entry_binds_the_clipboard_and_a_failed_one_shows_the_pointer() {
    let mut clipboard = ClipboardBinding::default();
    let mut capture = idle();
    capture.pressed_modifiers = vec![0x11];
    let (opening, hide) = begin_macos_crossing(&mut capture, &active(), (1, 2));
    assert!(hide);
    assert!(matches!(
        opening,
        InputEvent::MouseMove {
            x: 1,
            y: 2,
            button_mask: Some(0),
            sequence: 1,
            ..
        }
    ));
    let entry = finish_macos_crossing(&mut capture, active(), (0.0, 0.0), false, &mut clipboard);
    assert_eq!(
        entry,
        MacEntry::Failed {
            undo_hides: Some(1)
        }
    );
    assert!(clipboard.target.is_none());

    let entry = enter_remote_target_macos(
        &mut capture,
        active(),
        (0.0, 0.0),
        Some((7.0, 8.0)),
        true,
        &mut clipboard,
    );
    assert_eq!(
        entry,
        MacEntry::Entered {
            presses: vec![InputEvent::Key {
                key_code: 0x11,
                down: true
            }],
            hide: true
        }
    );
    assert_eq!(
        clipboard.target.as_ref().map(|target| target.device_id.as_str()),
        Some("peer-device")
    );
    assert!(capture.suppress_next_delta);
    assert_eq!(capture.hotkey_return_point, Some((7.0, 8.0)));
    let entry = enter_remote_target_macos(
        &mut idle(),
        active(),
        (0.0, 0.0),
        Some((7.0, 8.0)),
        false,
        &mut clipboard,
    );
    assert_eq!(entry, MacEntry::Failed { undo_hides: None });
}

#[test]
fn no_gesture_reaches_this_machine_while_another_is_controlled() {
    let mut capture = controlling();
    assert_eq!(
        macos_raw_gesture_event_callback(&mut capture, FREE, MACOS_NSEVENT_TYPE_SWIPE),
        GestureStep::RepinAndSwallow
    );
    let busy = TapCall {
        gate_busy: true,
        stopping: false,
    };
    assert_eq!(
        macos_raw_gesture_event_callback(&mut capture, busy, MACOS_NSEVENT_TYPE_SWIPE),
        GestureStep::Swallow
    );
    assert_eq!(
        macos_raw_gesture_event_callback(&mut idle(), FREE, MACOS_NSEVENT_TYPE_SWIPE),
        GestureStep::Pass
    );
    assert_eq!(
        macos_raw_gesture_event_callback(
            &mut capture,
            FREE,
            MACOS_RAW_EVENT_TAP_DISABLED_BY_TIMEOUT
        ),
        GestureStep::Pass
    );
    assert!(capture.tap_disabled);
}

#[test]
fn a_turn_of_the_capture_loop_heartbeats_mends_and_pins() {
    let mut capture = controlling();
    let mut clipboard = ClipboardBinding::default();
    let mut phase = LoopPhase::Waiting;
    capture.tap_disabled = false;
    let done = LoopEvent::Done {
        stopping: false,
        main_window_visible: true,
    };
    let action = run_macos_capture_loop(
        &mut capture,
        &mut phase,
        LoopEvent::Woken { stopping: false },
        &mut clipboard,
        0,
    );
    assert_eq!(action, LoopAction::CheckTransport);
    let transport = LoopEvent::Transport {
        failed: false,
        stopping: false,
        point: (3, 4),
    };
    let action = run_macos_capture_loop(&mut capture, &mut phase, transport, &mut clipboard, 0);
    assert!(matches!(
        action,
        LoopAction::Heartbeat {
            event: InputEvent::MouseMove { x: 3, y: 4, .. },
            snapshot: 0
        }
    ));
    let action = run_macos_capture_loop(
        &mut capture,
        &mut phase,
        LoopEvent::Sent(true),
        &mut clipboard,
        0,
    );
    assert_eq!(action, LoopAction::Drain);
    let action = run_macos_capture_loop(&mut capture, &mut phase, done, &mut clipboard, 0);
    assert_eq!(action, LoopAction::Skip);
    let action = run_macos_capture_loop(&mut capture, &mut phase, done, &mut clipboard, 0);
    assert_eq!(action, LoopAction::RepinAndWait { turn_ms: 16 });
    assert_eq!(phase, LoopPhase::Waiting);

    phase = LoopPhase::Tap;
    capture.tap_disabled = true;
    let action = run_macos_capture_loop(&mut capture, &mut phase, done, &mut clipboard, 0);
    assert!(matches!(action, LoopAction::ReturnAndEnable(Some(_))));
    let action = run_macos_capture_loop(&mut capture, &mut phase, done, &mut clipboard, 0);
    assert_eq!(action, LoopAction::Wait { turn_ms: 100 });
    let action = run_macos_capture_loop(
        &mut capture,
        &mut phase,
        LoopEvent::Woken { stopping: true },
        &mut clipboard,
        0,
    );
    assert_eq!(
        action,
        LoopAction::Stop {
            returned: None,
            undo_hides: None
        }
    );
    assert_eq!(phase, LoopPhase::Ended);
}

#[test]
fn a_loop_that_is_to_stop_waits_no_more() {
    let mut capture = controlling();
    let mut clipboard = ClipboardBinding::default();
    let mut phase = LoopPhase::Pointer;
    let action = run_macos_capture_loop(
        &mut capture,
        &mut phase,
        LoopEvent::Done {
            stopping: true,
            main_window_visible: true,
        },
        &mut clipboard,
        0,
    );
    assert!(matches!(
        action,
        LoopAction::Stop {
            returned: Some(_),
            undo_hides: None
        }
    ));
    assert_eq!(phase, LoopPhase::Ended);
    assert!(capture.session.active.is_none());
    assert!(!capture.session.remote_active);
}

#[test]
fn a_failed_transport_or_heartbeat_gives_control_back() {
    let mut clipboard = ClipboardBinding::default();
    let mut capture = controlling();
    let mut phase = LoopPhase::Checking;
    let action = run_macos_capture_loop(
        &mut capture,
        &mut phase,
        LoopEvent::Transport {
            failed: true,
            stopping: false,
            point: (0, 0),
        },
        &mut clipboard,
        0,
    );
    assert!(matches!(action, LoopAction::Return(Some(_))));
    assert!(!capture.session.remote_active);

    let mut capture = controlling();
    let mut phase = LoopPhase::Beating;
    let action = run_macos_capture_loop(
        &mut capture,
        &mut phase,
        LoopEvent::Sent(false),
        &mut clipboard,
        0,
    );
    assert!(matches!(action, LoopAction::Return(Some(_))));
}

#[test]
fn capture_on_macos_starts_tap_by_tap() {
    let mut phase = StartPhase::Tap;
    assert_eq!(start_macos_capture(&mut phase, true), StartAction::Attach);
    assert_eq!(
        start_macos_capture(&mut phase, true),
        StartAction::MakeGestureTap(TapLocation::Hid)
    );
    assert_eq!(
        start_macos_capture(&mut phase, false),
        StartAction::MakeGestureTap(TapLocation::Session)
    );
    assert_eq!(start_macos_capture(&mut phase, false), StartAction::Run);
    assert_eq!(phase, StartPhase::Over);

    let mut phase = StartPhase::Tap;
    assert!(matches!(
        start_macos_capture(&mut phase, false),
        StartAction::Fail(_)
    ));
    let mut phase = StartPhase::Source;
    assert_eq!(
        start_macos_capture(&mut phase, false),
        StartAction::Fail("failed to attach macOS event tap to run loop".to_string())
    );
    assert_eq!(phase, StartPhase::Over);
}

#[test]
fn mouse_events_are_posted_with_their_clicks() {
    assert_eq!(
        inject_mouse_move(None),
        MacMousePlan {
            event: MacMouseEvent::Moved,
            button: MouseButton::Left,
            click_count: None,
        }
    );
    assert_eq!(
        inject_mouse_move(Some(MouseButton::Middle)),
        MacMousePlan {
            event: MacMouseEvent::Dragged,
            button: MouseButton::Middle,
            click_count: None,
        }
    );
    let mut tracker = MacClickTracker::default();
    let mut click = |down, now| {
        inject_mouse_button(&mut tracker, MouseButton::Left, down, 5, 5, now, 500 * MS)
    };
    let plan = |event, count| MacMousePlan {
        event,
        button: MouseButton::Left,
        click_count: Some(count),
    };
    assert_eq!(click(true, 0), plan(MacMouseEvent::Down, 1));
    assert_eq!(click(false, 10 * MS), plan(MacMouseEvent::Up, 1));
    assert_eq!(click(true, 100 * MS), plan(MacMouseEvent::Down, 2));
    assert_eq!(click(false, 110 * MS), plan(MacMouseEvent::Up, 2));
}

#[test]
fn the_transparent_pointer_is_one_clear_pixel() {
    let rgba = image::load_from_memory(&macos_transparent_png())
        .expect("transparent cursor PNG must decode")
        .to_rgba8();
    assert_eq!(rgba.dimensions(), (1, 1));
    assert_eq!(rgba.as_raw(), &[0, 0, 0, 0]);
}
