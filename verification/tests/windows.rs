use mykvm::capture::{ActiveTarget, RemoteMotion, RemoteStep, Span};
use mykvm::clipboard_target::{set_clipboard_target, ClipboardBinding};
use mykvm::control::{note_sent, send_remote_move_if_due, ControlSession};
use mykvm::layout::{
    default_modifier_map, Device, LayoutState, NativeRect, Screen, ScreenSwitchHotkeys,
};
use mykvm::modifiers::reconcile_windows_authoritative_modifier_events;
use mykvm::packets::SequenceCounter;
use mykvm::shared_input::{
    InputCommand, InputEvent, MouseButton, CONTROL_MODIFIER_MASK, LEFT_BUTTON_MASK,
    META_MODIFIER_MASK, SHIFT_MODIFIER_MASK,
};
use mykvm::targets::{Edge, InputTarget};
use mykvm::windows_hooks::{
    accumulate_windows_delta, arm_windows_warp, clear_windows_hook_modifier_bits, finish_recenter,
    hook_notification_failed, reassert_windows_cursor_hider, set_windows_remote_anchor,
    take_modifier_snapshot, take_windows_local_mouse_move, update_windows_hook_modifier,
    windows_hooks_look_dead, windows_keyboard_proc, windows_modifier_bits_for_keys,
    windows_modifier_keys_from_bits, windows_mouse_proc, HookCall, HookState, HookStep,
    MouseHookEvent, WindowsAnchor, WindowsCapturedEvent, WindowsMouseMoveSnapshot,
    WindowsWarpGuard, WM_KEYDOWN, WM_LBUTTONDOWN, WM_MOUSEMOVE, WM_MOUSEWHEEL,
};
use mykvm::windows_inject::{
    blank_cursor_mask_bytes, finish_helper_send, inject_input_command_with_platform_routing,
    input_pipe_sessions, local_command_is_stateful, note_windows_helper_unavailable,
    reconcile_windows_injected_modifier_snapshot, release_windows_injected_keys_both_routes,
    should_route_to_windows_helper, windows_input_desktop_is_default, DispatchStep, RouteAction,
    WindowsInjectedKeyState, WindowsInjection, WindowsInputDispatcher, WindowsInputRoute,
    WindowsInputRouteState, HELPER_RETRY_DELAY,
};
use mykvm::windows_pump::{
    pump_wait_ms, run_windows_capture_pump, start_windows_pump, HookInstall, PumpAction, PumpEvent,
    PumpPhase, WindowsInputHooks, WindowsPump, HOOK_LOSS_ACK_TIMEOUT, PUMP_WAIT_MS,
    SHUTDOWN_ACK_TIMEOUT,
};
use mykvm::windows_worker::{
    begin_windows_control, check_worker_desktop, check_worker_transport, finish_windows_entry,
    finish_worker_event, finish_worker_heartbeat, handle_windows_local_mouse_move, handle_windows_remote_mouse_delta, held_windows_modifiers,
    release_windows_remote_control, run_windows_input_worker, start_worker_timers,
    take_worker_diagnostics, wait_for_worker_ack_with_pump, worker_checks_due, AckPoll, AckStep,
    DeltaStep, LocalMoveStep, TransportStep, WindowsEntry, WorkerAction, WorkerDue,
};

const MS: u64 = 1_000_000;

fn key(key_code: u16, down: bool) -> InputEvent {
    InputEvent::Key { key_code, down }
}

fn screen(device_id: &str, id: &str, x: i32, y: i32, width: i32, height: i32) -> Screen {
    Screen {
        id: id.to_string(),
        device_id: device_id.to_string(),
        name: id.to_string(),
        x,
        y,
        width,
        height,
        native: NativeRect {
            x,
            y,
            width,
            height,
        },
        is_primary: true,
    }
}

fn layout() -> LayoutState {
    LayoutState {
        devices: vec![Device {
            id: "peer-device".to_string(),
            name: "Client".to_string(),
            platform: "macos".to_string(),
            host: "10.0.0.2".to_string(),
            transport_port: 52000,
            quic_port: 52001,
            transport_public_key: "peer-public-key".to_string(),
            protocol_version: 3,
            online: true,
            input_ready: true,
            role: "client".to_string(),
            screens: vec![screen("peer-device", "peer-device-scr-1", 1920, 0, 1920, 1080)],
            modifier_remap: None,
            modifier_map: None,
        }],
        local_peer_id: "peer-local".to_string(),
        input_mode: "control".to_string(),
        machine_role: "server".to_string(),
        cluster_id: "cluster-test".to_string(),
        pair_secret: "secret-test".to_string(),
        paired_controllers: Vec::new(),
        transport_port: 47833,
        quic_port: 47834,
        modifier_remap: true,
        modifier_map: default_modifier_map(),
        screen_switch_hotkeys: ScreenSwitchHotkeys {
            left: "alt+left".to_string(),
            right: "alt+right".to_string(),
            up: "disabled".to_string(),
            down: "disabled".to_string(),
        },
    }
}

fn active() -> ActiveTarget {
    ActiveTarget {
        target: InputTarget {
            device_id: "peer-device".to_string(),
            origin_device_id: "peer-local".to_string(),
            cluster_id: "cluster-test".to_string(),
            pair_secret: "secret-test".to_string(),
            target_addr: "10.0.0.2:52001".to_string(),
            target_platform: "macos".to_string(),
            modifier_remap: true,
            modifier_control: "meta".to_string(),
            modifier_alt: "same".to_string(),
            modifier_meta: "control".to_string(),
            transport_public_key: "peer-public-key".to_string(),
            protocol_version: 3,
            screen_id: "scr-1".to_string(),
            local_screen: screen("local-device", "local-display-1", 0, 0, 1920, 1080),
            layout_local_screen: screen("local-device", "local-display-1", 0, 0, 1920, 1080),
            remote_screen: screen("peer-device", "peer-device-scr-1", 1920, 0, 1920, 1080),
            edge: Edge::Right,
        },
        current_screen: screen("peer-device", "scr-1", 1920, 0, 1920, 1080),
        current_screen_id: "scr-1".to_string(),
        invert_y: false,
    }
}

fn idle() -> ControlSession {
    ControlSession::new(SequenceCounter { next: 1 })
}

fn controlling() -> ControlSession {
    let mut session = idle();
    begin_windows_control(&mut session, active(), (2, 500));
    session
}

fn at(value: i64) -> Span {
    Span {
        floor: value,
        ceil: value,
    }
}

fn motion(x: i64, y: i64, dx: i64, dy: i64) -> RemoteMotion {
    RemoteMotion {
        x: at(x),
        y: at(y),
        global_x: at(1920 + x),
        global_y: at(y),
        dx,
        dy,
    }
}

fn hook_call(remote_active: bool) -> HookCall {
    HookCall {
        code: 0,
        tick_ms: 1000,
        desktop_is_default: true,
        stopping: false,
        remote_active,
        queue_busy: false,
    }
}

fn mouse(message: u32, x: i32, y: i32, time: u32) -> MouseHookEvent {
    MouseHookEvent {
        message,
        x,
        y,
        mouse_data: 0,
        time,
    }
}

#[test]
fn windows_desktop_loss_clears_cached_hook_modifiers() {
    let mut modifiers: u64 = (1 << 2) | (1 << 6);
    clear_windows_hook_modifier_bits(&mut modifiers);
    assert_eq!(modifiers, 0);
}

#[test]
fn authoritative_modifier_snapshot_repairs_missed_win_up_while_mouse_stays_live() {
    let hook_cache: u64 = 1 << 6;
    assert_ne!(hook_cache, 0);
    let physical: Vec<u16> = Vec::new();
    let snapshot = windows_modifier_bits_for_keys(&physical);
    let hook_cache = snapshot;

    assert_eq!(hook_cache, 0);
    assert_eq!(
        reconcile_windows_authoritative_modifier_events(&physical, &[0x5B, 0x41]),
        vec![key(0x5B, false)]
    );
}

#[test]
fn a_missed_release_is_news_for_the_worker() {
    let mut hooks = HookState::default();
    hooks.modifier_bits = 1 << 6;
    assert_eq!(
        take_modifier_snapshot(&mut hooks, &[], true),
        Some(WindowsCapturedEvent::ModifierSnapshot { modifier_bits: 0 })
    );
    assert_eq!(take_modifier_snapshot(&mut hooks, &[], true), None);
    assert_eq!(take_modifier_snapshot(&mut hooks, &[0xA2], false), None);
    assert_eq!(hooks.modifier_bits, 1 << 2);
}

#[test]
fn worker_ack_wait_pumps_messages_before_acknowledgement() {
    let timeout: u64 = 1_000 * MS;
    let mut acknowledged = false;
    let mut pump_count = 0;
    let mut elapsed: u64 = 0;

    let result = loop {
        let poll = if acknowledged {
            AckPoll::Acknowledged
        } else {
            AckPoll::Empty
        };
        match wait_for_worker_ack_with_pump(poll, elapsed, timeout) {
            AckStep::Done(done) => break done,
            AckStep::Pump(slice) => {
                pump_count += 1;
                elapsed += slice;
                if pump_count == 1 {
                    acknowledged = true;
                }
            }
        }
    };
    assert!(result);
    assert_eq!(pump_count, 1);
}

#[test]
fn the_wait_for_the_worker_ends() {
    assert_eq!(
        wait_for_worker_ack_with_pump(AckPoll::Disconnected, 0, MS),
        AckStep::Done(false)
    );
    assert_eq!(
        wait_for_worker_ack_with_pump(AckPoll::Empty, MS, MS),
        AckStep::Done(false)
    );
    assert_eq!(
        wait_for_worker_ack_with_pump(AckPoll::Empty, 995 * MS, 1000 * MS),
        AckStep::Pump(5 * MS)
    );
}

#[test]
fn windows_warp_guard_drops_pre_warp_backlog_but_keeps_real_motion() {
    let anchor = (960, 540);
    let mut guard = WindowsWarpGuard::default();
    guard.arm(10, (1919, 540));

    assert!(guard.should_drop(9, 1919, 540, anchor));
    assert!(!guard.should_drop(10, anchor.0 + 12, anchor.1, anchor));
    assert!(guard.should_drop(10, anchor.0, anchor.1, anchor));
    assert!(guard.should_drop(11, anchor.0, anchor.1, anchor));
    assert!(!guard.should_drop(12, anchor.0 + 12, anchor.1, anchor));
}

#[test]
fn handoff_regression_same_tick_edge_backlog_does_not_jump_remote_to_center() {
    let anchor = (960, 540);
    let mut guard = WindowsWarpGuard::default();
    guard.arm(10, (1919, 540));

    assert!(
        guard.should_drop(10, 1919, 540, anchor),
        "the edge sample queued before the centre warp must not become a huge remote delta"
    );
    assert!(
        guard.should_drop(10, 1919, 560, anchor),
        "same-tick tangential backlog must still be recognized along the old edge"
    );
    assert!(
        !guard.should_drop(10, anchor.0 + 12, anchor.1, anchor),
        "small same-tick physical motion near the anchor must stay responsive"
    );
    assert!(
        !guard.should_drop(10, anchor.0 + 200, anchor.1, anchor),
        "same-tick high-DPI motion away from the old edge must not be swallowed"
    );
}

#[test]
fn windows_warp_guard_handles_dword_tick_wraparound() {
    let anchor = (960, 540);
    let mut guard = WindowsWarpGuard::default();
    guard.arm(u64::from(u32::MAX), (1919, 540));

    assert!(!guard.should_drop(0, anchor.0 + 1, anchor.1, anchor));
    assert!(guard.should_drop(u64::from(u32::MAX - 1), anchor.0 + 1, anchor.1, anchor));
}

#[test]
fn windows_warp_guard_can_arm_at_zero_after_tick_wraparound() {
    let anchor = (960, 540);
    let source = (1919, 540);
    let mut guard = WindowsWarpGuard::default();
    guard.arm(0, source);

    assert!(guard.should_drop(0, source.0, source.1, anchor));
    assert!(!guard.should_drop(0, anchor.0 + 12, anchor.1, anchor));
}

#[test]
fn windows_delta_batch_never_crosses_a_button_boundary() {
    let before = WindowsCapturedEvent::RemoteMouseDelta { dx: 4, dy: 2 };
    let button = WindowsCapturedEvent::MouseButton {
        message: 1,
        modifier_bits: 0,
    };
    let after = WindowsCapturedEvent::RemoteMouseDelta { dx: 8, dy: 3 };
    let mut first_batch = (0, 0);

    assert!(accumulate_windows_delta(&mut first_batch, &before));
    assert!(!accumulate_windows_delta(&mut first_batch, &button));
    assert_eq!(first_batch, (4, 2));

    let mut second_batch = (0, 0);
    assert!(accumulate_windows_delta(&mut second_batch, &after));
    assert_eq!(second_batch, (8, 3));
}

#[test]
fn windows_modifier_tracker_converges_generic_and_sided_events() {
    let mut state = WindowsInjectedKeyState::default();
    state.track(0x5B, true);
    assert_eq!(state.transitions(0), vec![(0x5B, false)]);
    state.track(0x5B, false);
    assert_eq!(state.transitions(CONTROL_MODIFIER_MASK), vec![(0x11, true)]);
    state.track(0x11, true);
    assert!(state.transitions(CONTROL_MODIFIER_MASK).is_empty());
    state.track(0x11, false);
    assert!(state.pressed_keys.is_empty());
}

#[test]
fn windows_key_only_reset_tracks_plain_keys_without_mouse_state() {
    let mut state = WindowsInjectedKeyState::default();
    state.track(0xA2, true);
    state.track(0x41, true);
    assert_eq!(state.take_pressed_keys(), vec![0xA2, 0x41]);
    assert!(state.pressed_keys.is_empty());
}

#[test]
fn an_ambiguous_release_leaves_both_sides_held() {
    let mut state = WindowsInjectedKeyState::default();
    state.track(0xA1, true);
    state.track(0x10, false);
    assert!(state.pressed_keys.is_empty(), "the only shift is released");
    state.track(0xA1, true);
    state.track(0xA0, true);
    state.track(0xA0, false);
    assert_eq!(state.pressed_keys, vec![0xA1]);
    state.track(0xA3, true);
    state.track(0x41, false);
    assert_eq!(state.pressed_keys, vec![0xA1, 0xA3]);
}

#[test]
fn a_snapshot_repair_converges_on_windows() {
    let mut state = WindowsInjectedKeyState::default();
    state.track(0xA5, true);
    state.track(0x41, true);
    let mask = SHIFT_MODIFIER_MASK | META_MODIFIER_MASK;
    let transitions = reconcile_windows_injected_modifier_snapshot(&state, Some(mask));
    assert_eq!(transitions, vec![(0xA5, false), (0x10, true), (0x5B, true)]);
    for (key_code, down) in transitions {
        state.track(key_code, down);
    }
    assert_eq!(state.pressed_keys, vec![0x41, 0xA0, 0x5B]);
    assert!(reconcile_windows_injected_modifier_snapshot(&state, Some(mask)).is_empty());
    assert!(reconcile_windows_injected_modifier_snapshot(&state, None).is_empty());
}

#[test]
fn windows_route_state_requires_release_before_switching_injectors() {
    let mut state = WindowsInputRouteState::default();

    assert!(!state.requires_release_before(WindowsInputRoute::Local));
    state.commit(WindowsInputRoute::Local);
    assert!(!state.requires_release_before(WindowsInputRoute::Local));
    assert!(state.requires_release_before(WindowsInputRoute::Helper));

    state.commit(WindowsInputRoute::Helper);
    assert!(!state.requires_release_before(WindowsInputRoute::Helper));
    assert!(state.requires_release_before(WindowsInputRoute::Local));

    state.clear();
    assert!(!state.requires_release_before(WindowsInputRoute::Local));
}

#[test]
fn commands_follow_the_desktop_and_release_on_the_way() {
    let click = InputCommand::MouseButton {
        button: MouseButton::Left,
        down: true,
        x: 1,
        y: 2,
    };
    let release_local = RouteAction::InjectLocal(InputCommand::ReleaseAll);
    let release_helper = RouteAction::NotifyHelper(InputCommand::ReleaseAll);
    let mut injection = WindowsInjection::default();
    assert_eq!(
        inject_input_command_with_platform_routing(&mut injection, click, true),
        vec![RouteAction::InjectLocal(click)]
    );
    injection.keys.track(0x41, true);
    assert_eq!(
        inject_input_command_with_platform_routing(&mut injection, click, false),
        vec![release_local, release_helper, RouteAction::SendHelper(click)]
    );
    assert!(injection.keys.pressed_keys.is_empty());
    assert!(finish_helper_send(&mut injection, click, true).is_empty());
    assert_eq!(injection.route.current, Some(WindowsInputRoute::Helper));
    assert_eq!(
        inject_input_command_with_platform_routing(&mut injection, click, false),
        vec![RouteAction::SendHelper(click)]
    );
    assert_eq!(
        finish_helper_send(&mut injection, click, false),
        vec![release_local, release_helper, RouteAction::InjectLocal(click)]
    );
    assert_eq!(injection.route.current, Some(WindowsInputRoute::Local));
    assert_eq!(
        inject_input_command_with_platform_routing(&mut injection, InputCommand::ReleaseAll, true),
        vec![release_local, release_helper]
    );
    assert_eq!(injection.route.current, None);
}

#[test]
fn secure_attention_always_needs_the_helper() {
    assert!(should_route_to_windows_helper(&InputCommand::SecureAttention, true));
    let scroll = InputCommand::Scroll {
        delta_x: 0,
        delta_y: 1,
    };
    assert!(!should_route_to_windows_helper(&scroll, true));
    assert!(should_route_to_windows_helper(&scroll, false));
    assert!(!local_command_is_stateful(&scroll));
    assert!(local_command_is_stateful(&InputCommand::ReleaseAll));
}

#[test]
fn keys_are_released_on_both_routes_last_first() {
    let mut keys = WindowsInjectedKeyState::default();
    keys.track(0xA2, true);
    keys.track(0x41, true);
    let up = |key_code| InputCommand::Key {
        key_code,
        down: false,
    };
    assert_eq!(
        release_windows_injected_keys_both_routes(&mut keys),
        vec![
            RouteAction::InjectLocal(up(0x41)),
            RouteAction::NotifyHelper(up(0x41)),
            RouteAction::InjectLocal(up(0xA2)),
            RouteAction::NotifyHelper(up(0xA2)),
        ]
    );
    assert!(keys.pressed_keys.is_empty());
}

#[test]
fn a_closed_helper_pipe_cools_down() {
    let mut dispatcher = WindowsInputDispatcher::new(100);
    assert_eq!(dispatcher.begin_send(100), Ok(DispatchStep::Open));
    dispatcher.note_opened(false, 100);
    assert_eq!(
        dispatcher.begin_send(100 + HELPER_RETRY_DELAY - 1),
        Err("input helper pipe retry is cooling down".to_string())
    );
    assert_eq!(
        dispatcher.begin_send(100 + HELPER_RETRY_DELAY),
        Ok(DispatchStep::Open)
    );
    dispatcher.note_opened(true, 100 + HELPER_RETRY_DELAY);
    assert_eq!(dispatcher.begin_send(0), Ok(DispatchStep::Write));
    assert_eq!(dispatcher.note_written(Ok(())), Ok(()));
    assert_eq!(
        dispatcher.note_written(Err("gone".to_string())),
        Err("write input helper pipe: gone".to_string())
    );
    assert!(!dispatcher.connected);
}

#[test]
fn the_missing_helper_is_reported_every_ten_seconds() {
    let mut last = None;
    assert!(note_windows_helper_unavailable(&mut last, 0));
    assert!(!note_windows_helper_unavailable(&mut last, 9_999 * MS));
    assert!(note_windows_helper_unavailable(&mut last, 10_000 * MS));
}

#[test]
fn the_console_session_is_tried_second() {
    assert_eq!(input_pipe_sessions(2, 1), vec![2, 1]);
    assert_eq!(input_pipe_sessions(2, 2), vec![2]);
    assert_eq!(input_pipe_sessions(2, u32::MAX), vec![2]);
}

#[test]
fn the_default_desktop_is_known_by_its_name() {
    let name = |text: &str| -> Vec<u16> {
        let mut units: Vec<u16> = text.encode_utf16().collect();
        units.push(0);
        units.resize(256, 7);
        units
    };
    assert!(windows_input_desktop_is_default(&name("Default"), 16));
    assert!(windows_input_desktop_is_default(&name("DEFAULT"), 14));
    assert!(!windows_input_desktop_is_default(&name("Winlogon"), 18));
    assert!(!windows_input_desktop_is_default(&name("Default"), 0));
    assert!(!windows_input_desktop_is_default(&name("Default"), 12));
    assert!(!windows_input_desktop_is_default(&name("Defaults"), 18));
}

#[test]
fn blank_cursor_masks_have_whole_words() {
    assert_eq!(blank_cursor_mask_bytes(32, 32), 128);
    assert_eq!(blank_cursor_mask_bytes(33, 1), 8);
    assert_eq!(blank_cursor_mask_bytes(0, -5), 4);
}

#[test]
fn hook_modifiers_round_trip_through_bits() {
    let keys = [0xA0, 0xA3, 0x5B];
    let bits = windows_modifier_bits_for_keys(&keys);
    assert_eq!(windows_modifier_keys_from_bits(bits), keys.to_vec());
    let mut bits = 0;
    update_windows_hook_modifier(&mut bits, 0xA1, true);
    update_windows_hook_modifier(&mut bits, 0x41, true);
    assert_eq!(windows_modifier_keys_from_bits(bits), vec![0xA1]);
    update_windows_hook_modifier(&mut bits, 0xA1, false);
    assert_eq!(bits, 0);
}

#[test]
fn local_moves_are_queued_and_announced_once() {
    let mut hooks = HookState::default();
    let step = windows_mouse_proc(&mut hooks, hook_call(false), mouse(WM_MOUSEMOVE, 5, 6, 1));
    assert_eq!(
        step,
        HookStep::PassAndNotify(WindowsCapturedEvent::LocalMouseMoveReady)
    );
    let step = windows_mouse_proc(&mut hooks, hook_call(false), mouse(WM_MOUSEMOVE, 7, 8, 2));
    assert_eq!(step, HookStep::Pass);
    hook_notification_failed(&mut hooks, WindowsCapturedEvent::LocalMouseMoveReady);
    assert!(!hooks.move_notified);
    let moves = take_windows_local_mouse_move(&mut hooks);
    assert_eq!(
        moves,
        vec![
            WindowsMouseMoveSnapshot {
                x: 5,
                y: 6,
                modifier_bits: 0
            },
            WindowsMouseMoveSnapshot {
                x: 7,
                y: 8,
                modifier_bits: 0
            },
        ]
    );
    let busy = HookCall {
        queue_busy: true,
        ..hook_call(false)
    };
    windows_mouse_proc(&mut hooks, busy, mouse(WM_MOUSEMOVE, 9, 9, 3));
    assert_eq!(hooks.dropped_moves, 1);
    assert_eq!(take_worker_diagnostics(&mut hooks), Some((1, 0)));
    assert_eq!(take_worker_diagnostics(&mut hooks), None);
}

#[test]
fn remote_moves_are_measured_from_the_anchor() {
    let mut hooks = HookState::default();
    set_windows_remote_anchor(&mut hooks.anchor, (960, 540), (1915, 540), true, Some((1919, 540)));
    arm_windows_warp(&mut hooks.anchor, 10);
    assert_eq!(
        windows_mouse_proc(&mut hooks, hook_call(true), mouse(WM_MOUSEMOVE, 1919, 540, 10)),
        HookStep::Swallow
    );
    assert_eq!(
        windows_mouse_proc(&mut hooks, hook_call(true), mouse(WM_MOUSEMOVE, 965, 538, 11)),
        HookStep::Recenter {
            x: 960,
            y: 540,
            dx: 5,
            dy: -2
        }
    );
    assert_eq!(
        finish_recenter(&mut hooks, true, 5, -2),
        Some(WindowsCapturedEvent::RemoteMouseDelta { dx: 5, dy: -2 })
    );
    assert_eq!(hooks.anchor.warp_cutoff, 0);
    assert_eq!(finish_recenter(&mut hooks, false, 0, 0), None);
    assert_eq!(hooks.warp_failures, 1);
    assert_eq!(
        windows_mouse_proc(&mut hooks, hook_call(true), mouse(WM_LBUTTONDOWN, 1, 1, 12)),
        HookStep::Forward(WindowsCapturedEvent::MouseButton {
            message: WM_LBUTTONDOWN,
            modifier_bits: 0
        })
    );
    set_windows_remote_anchor(&mut hooks.anchor, (960, 540), (1915, 540), false, None);
    assert_eq!((hooks.anchor.x, hooks.anchor.source_x), (1915, 1915));
}

#[test]
fn a_lost_desktop_releases_control_once() {
    let mut hooks = HookState::default();
    let secure = HookCall {
        desktop_is_default: false,
        ..hook_call(true)
    };
    assert_eq!(
        windows_keyboard_proc(&mut hooks, secure, WM_KEYDOWN, 0xA2),
        HookStep::PassAndNotify(WindowsCapturedEvent::Release)
    );
    assert_eq!(
        windows_mouse_proc(&mut hooks, secure, mouse(WM_MOUSEMOVE, 0, 0, 0)),
        HookStep::Pass
    );
    assert!(check_worker_desktop(&mut hooks, false));
    assert_eq!(hooks.modifier_bits, 0);
    assert!(!check_worker_desktop(&mut hooks, true));
    let outcome = finish_worker_event(&mut hooks, &WindowsCapturedEvent::Release, true);
    assert!(outcome.release && outcome.running);
    assert!(!hooks.release_notified);
    let outcome = finish_worker_event(&mut hooks, &WindowsCapturedEvent::Shutdown, true);
    assert!(outcome.release && !outcome.running);
}

#[test]
fn silent_hooks_look_dead_only_while_input_arrives() {
    assert!(windows_hooks_look_dead(false, 0, 0, 0, None));
    assert!(!windows_hooks_look_dead(true, 1_000_000, 0, 0, None));
    assert!(windows_hooks_look_dead(true, 1_000_000, 0, 0, Some(1_000_000)));
    assert!(!windows_hooks_look_dead(true, 1_000_000, 999_999, 0, Some(1_000_000)));
    let mut last = 0;
    assert!(!reassert_windows_cursor_hider(false, &mut last, 1_000_000));
    assert!(reassert_windows_cursor_hider(true, &mut last, 1_000_000));
    assert!(!reassert_windows_cursor_hider(true, &mut last, 1_000_001));
}

#[test]
fn captured_keys_are_sent_with_the_missing_modifiers() {
    let mut session = controlling();
    let mut hooks = HookState::default();
    let layout = layout();
    let event = WindowsCapturedEvent::Key {
        key_code: 0x41,
        down: true,
        modifier_bits: 1 << 2,
    };
    let action = run_windows_input_worker(
        &mut session,
        &mut hooks,
        &event,
        Some(&layout),
        &[0xA0],
        (0, 0),
    );
    match action {
        WorkerAction::Send(plan) => {
            assert_eq!(plan.repairs, vec![key(0xA0, true), key(0xA2, true)]);
            assert_eq!(plan.event, key(0x41, true));
            assert_eq!(
                plan.snapshot,
                Some(CONTROL_MODIFIER_MASK | SHIFT_MODIFIER_MASK)
            );
            for repair in &plan.repairs {
                note_sent(&mut session, repair);
            }
            note_sent(&mut session, &plan.event);
        }
        other => panic!("expected a send, got {other:?}"),
    }
    assert_eq!(session.forwarded_keys, vec![0xA0, 0xA2, 0x41]);
    let snapshot = WindowsCapturedEvent::ModifierSnapshot { modifier_bits: 0 };
    let action = run_windows_input_worker(
        &mut session,
        &mut hooks,
        &snapshot,
        Some(&layout),
        &[],
        (0, 0),
    );
    assert_eq!(
        action,
        WorkerAction::Transitions(vec![key(0xA0, false), key(0xA2, false)])
    );
    let hotkey = WindowsCapturedEvent::Key {
        key_code: 0x25,
        down: true,
        modifier_bits: 1 << 4,
    };
    let action = run_windows_input_worker(
        &mut session,
        &mut hooks,
        &hotkey,
        Some(&layout),
        &[],
        (0, 0),
    );
    assert_eq!(action, WorkerAction::Release);
}

#[test]
fn captured_buttons_and_wheels_are_sent() {
    let mut session = controlling();
    let mut hooks = HookState::default();
    let button = WindowsCapturedEvent::MouseButton {
        message: WM_LBUTTONDOWN,
        modifier_bits: 0,
    };
    let sequence = session.sequences.next;
    let action =
        run_windows_input_worker(&mut session, &mut hooks, &button, None, &[], (11, 12));
    match action {
        WorkerAction::Send(plan) => assert_eq!(
            plan.event,
            InputEvent::MouseButton {
                button: MouseButton::Left,
                down: true,
                screen_id: "scr-1".to_string(),
                x: Some(11),
                y: Some(12),
                sequence,
            }
        ),
        other => panic!("expected a send, got {other:?}"),
    }
    let wheel = WindowsCapturedEvent::Scroll {
        message: WM_MOUSEWHEEL,
        mouse_data: 0xFF88_0000,
        modifier_bits: 0,
    };
    let action = run_windows_input_worker(&mut session, &mut hooks, &wheel, None, &[], (0, 0));
    match action {
        WorkerAction::Send(plan) => assert!(matches!(
            plan.event,
            InputEvent::Scroll {
                delta_x: 0,
                delta_y: -1,
                ..
            }
        )),
        other => panic!("expected a send, got {other:?}"),
    }
    let mut nothing = idle();
    assert_eq!(
        run_windows_input_worker(&mut nothing, &mut hooks, &button, None, &[], (0, 0)),
        WorkerAction::Release
    );
}

#[test]
fn physical_modifiers_are_added_once() {
    assert_eq!(held_windows_modifiers(1 << 2, &[0xA3, 0x5B]), vec![0xA2, 0x5B]);
}

#[test]
fn an_entry_pushes_held_modifiers_and_the_clipboard() {
    let mut session = idle();
    let mut clipboard = ClipboardBinding::default();
    let opening = begin_windows_control(&mut session, active(), (7, 8));
    assert!(matches!(
        opening,
        InputEvent::MouseMove {
            x: 7,
            y: 8,
            sequence: 1,
            button_mask: Some(0),
            ..
        }
    ));
    let mut anchor = WindowsAnchor {
        x: 1,
        y: 2,
        source_x: 3,
        source_y: 4,
        warp_cutoff: 5,
    };
    let mut last_point = Some((1, 1));
    let entry = finish_windows_entry(
        &mut session,
        &mut anchor,
        &mut last_point,
        true,
        1 << 2,
        &[],
        &mut clipboard,
        5,
    );
    assert_eq!(entry, WindowsEntry::Entered(vec![key(0xA2, true)]));
    assert_eq!((anchor.x, last_point), (1, Some((1, 1))));
    assert_eq!(session.last_move, Some(5));
    assert_eq!(
        clipboard.target.as_ref().map(|target| target.addr.as_str()),
        Some("10.0.0.2:52001")
    );
    assert!(send_remote_move_if_due(&mut session, (9, 9), 5).is_none());
    assert!(send_remote_move_if_due(&mut session, (9, 9), 5 + 4 * MS).is_some());

    begin_windows_control(&mut session, active(), (7, 8));
    let entry = finish_windows_entry(
        &mut session,
        &mut anchor,
        &mut last_point,
        false,
        0,
        &[],
        &mut clipboard,
        6,
    );
    assert!(matches!(entry, WindowsEntry::Failed(Some(_))));
    assert!(session.active.is_none() && !session.remote_active);
    assert_eq!((anchor.x, last_point), (0, None));
}

#[test]
fn a_failed_transport_or_heartbeat_releases_control() {
    let mut session = controlling();
    assert_eq!(
        check_worker_transport(&mut session, 0, true, (3, 4), 9 * MS),
        TransportStep::Release
    );
    assert!(matches!(
        check_worker_transport(&mut session, 1 << 2, false, (3, 4), 9 * MS),
        TransportStep::Heartbeat {
            event: InputEvent::MouseMove { x: 3, y: 4, .. },
            snapshot: CONTROL_MODIFIER_MASK,
        }
    ));
    assert_eq!(
        check_worker_transport(&mut session, 0, false, (3, 4), 10 * MS),
        TransportStep::Drain
    );
    assert_eq!(
        check_worker_transport(&mut idle(), 0, false, (3, 4), 10 * MS),
        TransportStep::Drain
    );
    assert_eq!(finish_worker_heartbeat(true), TransportStep::Drain);
    assert_eq!(finish_worker_heartbeat(false), TransportStep::Release);
}

#[test]
fn a_release_parks_last_and_clears_the_anchor() {
    let mut session = controlling();
    let mut anchor = WindowsAnchor {
        x: 1,
        y: 2,
        source_x: 3,
        source_y: 4,
        warp_cutoff: 5,
    };
    let mut last_point = Some((1, 1));
    let mut clipboard = ClipboardBinding::default();
    set_clipboard_target(
        &mut clipboard,
        "someone-else".to_string(),
        "10.0.0.9:1".to_string(),
        String::new(),
        3,
        String::new(),
        String::new(),
        false,
        None,
        0,
    );
    session.buttons = LEFT_BUTTON_MASK;
    session.forwarded_keys = vec![0x41];
    let ended = release_windows_remote_control(
        &mut session,
        &mut anchor,
        &mut last_point,
        &mut clipboard,
    )
    .expect("control ended");
    assert_eq!(ended.events.len(), 3);
    assert_eq!(ended.events[0], key(0x41, false));
    assert!(matches!(ended.events[2], InputEvent::CursorPark { .. }));
    assert_eq!(anchor.warp_cutoff, 0);
    assert_eq!(last_point, None);
    assert!(clipboard.target.is_some(), "another controller stays bound");
    assert!(release_windows_remote_control(
        &mut session,
        &mut anchor,
        &mut last_point,
        &mut clipboard
    )
    .is_none());
    assert!(clipboard.target.is_none());
}

#[test]
fn remote_deltas_move_or_return() {
    let mut session = controlling();
    let mut anchor = WindowsAnchor {
        x: 1,
        y: 2,
        source_x: 3,
        source_y: 4,
        warp_cutoff: 5,
    };
    let mut clipboard = ClipboardBinding::default();
    let layout = layout();
    assert_eq!(
        handle_windows_remote_mouse_delta(
            &mut session,
            motion(0, 0, 0, 0),
            Some(&layout),
            &mut anchor,
            &mut clipboard
        ),
        DeltaStep::Unmoved
    );
    assert_eq!(
        handle_windows_remote_mouse_delta(
            &mut session,
            motion(50, 60, 3, 0),
            Some(&layout),
            &mut anchor,
            &mut clipboard
        ),
        DeltaStep::Moved(RemoteStep::Stay)
    );
    assert_eq!(
        handle_windows_remote_mouse_delta(
            &mut session,
            motion(1925, 60, 8, 0),
            Some(&layout),
            &mut anchor,
            &mut clipboard
        ),
        DeltaStep::Moved(RemoteStep::Outside)
    );
    let step = handle_windows_remote_mouse_delta(
        &mut session,
        motion(-3, 60, -4, 0),
        Some(&layout),
        &mut anchor,
        &mut clipboard,
    );
    assert!(matches!(step, DeltaStep::Returned(_)));
    assert_eq!(anchor.x, 0);
    assert_eq!(
        handle_windows_remote_mouse_delta(
            &mut session,
            motion(-3, 60, -4, 0),
            Some(&layout),
            &mut anchor,
            &mut clipboard
        ),
        DeltaStep::Refused
    );
}

#[test]
fn local_moves_probe_from_the_last_point() {
    let session = idle();
    let mut last = None;
    let snapshot = |x| WindowsMouseMoveSnapshot {
        x,
        y: 10,
        modifier_bits: 0,
    };
    assert_eq!(
        handle_windows_local_mouse_move(&session, &mut last, snapshot(100)),
        LocalMoveStep::Probe {
            dx: 0,
            dy: 0,
            repeated: false
        }
    );
    assert_eq!(
        handle_windows_local_mouse_move(&session, &mut last, snapshot(130)),
        LocalMoveStep::Probe {
            dx: 30,
            dy: 0,
            repeated: false
        }
    );
    assert_eq!(
        handle_windows_local_mouse_move(&session, &mut last, snapshot(130)),
        LocalMoveStep::Probe {
            dx: 0,
            dy: 0,
            repeated: true
        }
    );
    assert_eq!(
        handle_windows_local_mouse_move(&controlling(), &mut last, snapshot(140)),
        LocalMoveStep::Ignored
    );
}

#[test]
fn the_worker_checks_what_is_due() {
    let mut timers = start_worker_timers(0);
    assert_eq!(
        worker_checks_due(&mut timers, 0),
        WorkerDue {
            desktop: true,
            transport: false,
            diagnostics: false
        }
    );
    assert_eq!(
        worker_checks_due(&mut timers, 1_000 * MS),
        WorkerDue {
            desktop: true,
            transport: true,
            diagnostics: true
        }
    );
    assert_eq!(
        worker_checks_due(&mut timers, 1_001 * MS),
        WorkerDue {
            desktop: false,
            transport: false,
            diagnostics: false
        }
    );
}

struct Thread {
    pump: WindowsPump,
    hooks: HookState,
    session: ControlSession,
    clipboard: ClipboardBinding,
}

impl Thread {
    fn new(session: ControlSession) -> Self {
        let mut clipboard = ClipboardBinding::default();
        assert!(set_clipboard_target(
            &mut clipboard,
            "peer-device".to_string(),
            "10.0.0.2:52001".to_string(),
            "peer-public-key".to_string(),
            3,
            "cluster-test".to_string(),
            "secret-test".to_string(),
            true,
            None,
            0,
        ));
        Thread {
            pump: start_windows_pump(0),
            hooks: HookState::default(),
            session,
            clipboard,
        }
    }

    fn step(&mut self, event: PumpEvent, now: u64) -> PumpAction {
        run_windows_capture_pump(
            &mut self.pump,
            &mut self.hooks,
            &mut self.session,
            &mut self.clipboard,
            event,
            now,
        )
    }
}

fn turned(stopping: bool, tick_ms: u64, last_system_input: Option<u32>) -> PumpEvent {
    PumpEvent::Turned {
        stopping,
        tick_ms,
        last_system_input,
    }
}

#[test]
fn the_capture_thread_replaces_dead_hooks_and_reads_the_modifiers() {
    let mut thread = Thread::new(controlling());
    assert_eq!(
        thread.step(PumpEvent::HiderMade(Ok(())), 0),
        PumpAction::StartWorker
    );
    let installed = PumpEvent::HooksSet {
        outcome: HookInstall::Installed,
        tick_ms: 10_000,
    };
    assert_eq!(thread.step(installed, 0), PumpAction::Ready);

    thread.hooks.modifier_bits = windows_modifier_bits_for_keys(&[0x5B]);
    let dispatch = PumpAction::Dispatch {
        wait_ms: PUMP_WAIT_MS,
    };
    assert_eq!(thread.step(turned(false, 10_500, None), 500 * MS), dispatch);
    assert_eq!(
        thread.step(PumpEvent::Dispatched, 500 * MS),
        PumpAction::ReadModifiers
    );
    assert_eq!(
        thread.step(PumpEvent::Modifiers(vec![]), 500 * MS),
        PumpAction::Notify(WindowsCapturedEvent::ModifierSnapshot { modifier_bits: 0 })
    );

    let quiet = turned(false, 13_000, Some(12_900));
    assert_eq!(
        thread.step(quiet, 3_000 * MS),
        PumpAction::ReleaseWorker {
            timeout: HOOK_LOSS_ACK_TIMEOUT
        }
    );
    thread.hooks.modifier_bits = 1;
    assert_eq!(
        thread.step(PumpEvent::Released, 3_000 * MS),
        PumpAction::Reinstall
    );
    assert_eq!(thread.hooks.modifier_bits, 0);
    let refused = PumpEvent::HooksSet {
        outcome: HookInstall::KeyboardRefused,
        tick_ms: 13_001,
    };
    assert_eq!(thread.step(refused, 3_000 * MS), dispatch);
    assert!(!thread.pump.hooks.installed);
    assert_eq!(
        thread.step(PumpEvent::Dispatched, 3_050 * MS),
        PumpAction::ReadModifiers
    );
    assert_eq!(
        thread.step(PumpEvent::Modifiers(vec![]), 3_050 * MS),
        PumpAction::Turn
    );

    assert_eq!(
        thread.step(turned(true, 13_100, None), 3_100 * MS),
        PumpAction::ShutdownWorker {
            timeout: SHUTDOWN_ACK_TIMEOUT
        }
    );
    assert!(thread.clipboard.target.is_some());
    assert_eq!(
        thread.step(PumpEvent::WorkerEnded, 3_100 * MS),
        PumpAction::Uninstall
    );
    assert_eq!(thread.pump.phase, PumpPhase::Ended);
    assert!(!thread.session.remote_active);
    assert!(thread.clipboard.target.is_none());
}

#[test]
fn capture_that_cannot_start_says_why() {
    let mut thread = Thread::new(idle());
    assert_eq!(
        thread.step(PumpEvent::HiderMade(Err("no window".to_string())), 0),
        PumpAction::Fail("no window".to_string())
    );
    assert_eq!(thread.pump.phase, PumpPhase::Ended);

    let mut thread = Thread::new(idle());
    thread.step(PumpEvent::HiderMade(Ok(())), 0);
    let refused = PumpEvent::HooksSet {
        outcome: HookInstall::MouseRefused,
        tick_ms: 0,
    };
    assert_eq!(
        thread.step(refused, 0),
        PumpAction::ShutdownWorker {
            timeout: SHUTDOWN_ACK_TIMEOUT
        }
    );
    assert_eq!(
        thread.step(PumpEvent::WorkerEnded, 0),
        PumpAction::Fail("failed to install Windows mouse hook".to_string())
    );
    assert!(thread.clipboard.target.is_none());
    assert_eq!(
        WindowsInputHooks::install(HookInstall::KeyboardRefused, 1),
        Err("failed to install Windows keyboard hook".to_string())
    );
}

#[test]
fn a_wait_for_messages_takes_at_least_a_millisecond() {
    assert_eq!(pump_wait_ms(0), 1);
    assert_eq!(pump_wait_ms(20 * MS), 20);
    assert_eq!(pump_wait_ms(u64::MAX), u32::MAX);
}
