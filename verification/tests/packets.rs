use mykvm::clipboard_target::{
    apply_remote_input_clipboard_outcome, clear_clipboard_target_if_device,
    current_clipboard_target, set_clipboard_target, wait_for_clipboard_target_change,
    ClipboardBinding, ClipboardPeer, ClipboardTarget,
};
use mykvm::key_sequence::RemoteKeySequenceState;
use mykvm::layout::{
    default_modifier_map, map_event_point_to_native, normalize_quic_port, Device, LayoutState,
    NativeRect, PairedController, Platform, Screen, ScreenSwitchHotkeys, PROTOCOL_VERSION,
};
use mykvm::origin_map::OriginMap;
use mykvm::packets::{
    control_packet_authorized, input_control_protocol, input_event_reliable_class,
    input_packet_context, input_packet_needs_key_sequence, input_packet_reliable_class,
    input_protocol, is_false, is_zero, packet_authorized, packet_clipboard_peer, packet_origin_id,
    packet_targets_local, remap_event_for_target_layout, send_packet_with_options,
    send_secure_attention_control, take_report, warn_unauthorized_control_packet,
    warn_unauthorized_packet, InputControlCommand, InputControlPacket, InputPacket,
    InputSendAdmission, LocalTransport, ReliableInputClass, SendChannel, SequenceCounter,
};
use mykvm::receiver::{
    expire_remote_input_session, inject_input_event, input_command_reveals_parked_cursor,
    input_event_to_command, reset_injected_input_state, send_secure_attention_to_helper,
    try_handle_control_packet_from_source, try_inject_packet_from_source,
    windows_input_pipe_available, InjectAction, ReceiverState,
};
use mykvm::remote_mouse::{
    update_remote_mouse_button, update_remote_mouse_position, RemoteMouseSequenceState,
    RemoteMouseState,
};
use mykvm::session::{
    admit_remote_input_packet_with_state, RemoteInputLease, RemoteInputOutcome,
    REMOTE_INPUT_LEASE_TIMEOUT,
};
use mykvm::shared_input::{
    InputCommand, InputEvent, MouseButton, CONTROL_MODIFIER_MASK, LEFT_BUTTON_MASK,
    META_MODIFIER_MASK,
};
use mykvm::targets::{build_input_targets, Edge, InputTarget};

fn screen(device_id: &str, id: &str, x: i32, y: i32, width: i32, height: i32) -> Screen {
    Screen {
        id: id.to_string(),
        device_id: device_id.to_string(),
        name: id.to_string(),
        x,
        y,
        width,
        height,
        native: NativeRect {
            x,
            y,
            width,
            height,
        },
        is_primary: true,
    }
}

fn target_with(
    screen_id: &str,
    local_screen: Screen,
    layout_local_screen: Screen,
    remote_screen: Screen,
    edge: Edge,
) -> InputTarget {
    InputTarget {
        device_id: "peer-device".to_string(),
        origin_device_id: "peer-local-192-168-66-92".to_string(),
        cluster_id: "cluster-test".to_string(),
        pair_secret: "secret-test".to_string(),
        target_addr: "10.0.0.2:47833".to_string(),
        target_platform: "windows".to_string(),
        modifier_remap: true,
        modifier_control: "meta".to_string(),
        modifier_alt: "alt".to_string(),
        modifier_meta: "control".to_string(),
        transport_public_key: "test-public-key".to_string(),
        protocol_version: PROTOCOL_VERSION,
        screen_id: screen_id.to_string(),
        local_screen,
        layout_local_screen,
        remote_screen,
        edge,
    }
}

fn target_for_coordinate_tests() -> InputTarget {
    target_with(
        "local-display-1",
        screen("local-device", "local-display-1", 0, 0, 1920, 1080),
        screen("local-device", "local-display-1", -11960, -9000, 2560, 1440),
        screen(
            "peer-device",
            "peer-device-local-display-1",
            -9400,
            -9000,
            2560,
            1440,
        ),
        Edge::Right,
    )
}

fn device(id: &str, role: &str, platform: &str, host: &str, screens: Vec<Screen>) -> Device {
    Device {
        id: id.to_string(),
        name: id.to_string(),
        platform: platform.to_string(),
        host: host.to_string(),
        transport_port: 52000,
        quic_port: 52001,
        transport_public_key: "peer-public-key".to_string(),
        protocol_version: PROTOCOL_VERSION,
        online: true,
        input_ready: true,
        role: role.to_string(),
        screens,
        modifier_remap: None,
        modifier_map: None,
    }
}

fn layout_for_target_tests() -> LayoutState {
    LayoutState {
        devices: vec![
            device(
                "local-device",
                "local",
                "macos",
                "192.168.66.92",
                vec![screen("local-device", "local-display-1", 0, 0, 1920, 1080)],
            ),
            device(
                "peer-device",
                "client",
                "windows",
                "10.0.0.2",
                vec![screen(
                    "peer-device",
                    "peer-device-local-display-1",
                    1920,
                    0,
                    1920,
                    1080,
                )],
            ),
        ],
        local_peer_id: "peer-local-192-168-66-92".to_string(),
        input_mode: "control".to_string(),
        machine_role: "server".to_string(),
        cluster_id: "cluster-test".to_string(),
        pair_secret: "secret-test".to_string(),
        paired_controllers: Vec::new(),
        transport_port: 47833,
        quic_port: 47834,
        modifier_remap: true,
        modifier_map: default_modifier_map(),
        screen_switch_hotkeys: ScreenSwitchHotkeys {
            left: String::new(),
            right: String::new(),
            up: String::new(),
            down: String::new(),
        },
    }
}


fn controller(id: &str, key: &str) -> PairedController {
    PairedController {
        id: id.to_string(),
        transport_public_key: key.to_string(),
    }
}

fn client_layout(id: &str, key: &str) -> LayoutState {
    let mut layout = layout_for_target_tests();
    layout.machine_role = "client".to_string();
    layout.paired_controllers = vec![controller(id, key)];
    layout
}

fn mouse_move(x: i32, y: i32, drag: Option<MouseButton>, mask: u64, sequence: u64) -> InputEvent {
    InputEvent::MouseMove {
        screen_id: "local-display-1".to_string(),
        x,
        y,
        drag_button: drag,
        button_mask: Some(mask),
        sequence,
    }
}

fn packet_from(layout: &LayoutState, origin: &str, key: &str, event: InputEvent) -> InputPacket {
    InputPacket {
        protocol: input_protocol().to_string(),
        target_device_id: "local-device".to_string(),
        origin_device_id: origin.to_string(),
        origin_port: 47834,
        origin_transport_public_key: key.to_string(),
        origin_protocol_version: PROTOCOL_VERSION,
        cluster_id: layout.cluster_id.clone(),
        pair_secret: layout.pair_secret.clone(),
        modifier_snapshot: None,
        key_sequence: 0,
        heartbeat: false,
        event,
    }
}

fn control_from(layout: &LayoutState, origin: &str, key: &str) -> InputControlPacket {
    InputControlPacket {
        protocol: input_control_protocol().to_string(),
        target_device_id: "local-device".to_string(),
        origin_device_id: origin.to_string(),
        origin_transport_public_key: key.to_string(),
        origin_protocol_version: PROTOCOL_VERSION,
        cluster_id: layout.cluster_id.clone(),
        pair_secret: layout.pair_secret.clone(),
        command: InputControlCommand::SecureAttention,
    }
}

fn bound_to(device_id: &str, expires_at: Option<u64>) -> ClipboardBinding {
    ClipboardBinding {
        target: Some(ClipboardTarget {
            device_id: device_id.to_string(),
            addr: "10.0.0.2:47834".to_string(),
            transport_public_key: "server-b-key".to_string(),
            protocol_version: PROTOCOL_VERSION,
            cluster_id: "cluster-test".to_string(),
            pair_secret: "secret-test".to_string(),
            push_on_bind: false,
            expires_at,
        }),
        generation: 0,
    }
}

fn fresh_receiver() -> ReceiverState {
    ReceiverState {
        lease: RemoteInputLease::default(),
        keys: RemoteKeySequenceState::default(),
        mouse: RemoteMouseState::default(),
        active_origin: String::new(),
    }
}

/// The native point of a point of an event.
fn mapped_point(layout: &LayoutState, native: &LayoutState, x: i32, y: i32) -> (i32, i32) {
    let mapping =
        map_event_point_to_native(layout, native, "local-display-1").expect("screen is known");
    let axis = |value: i32, logical: i32, origin: i32, size: i32| {
        let ratio = value as f64 / logical.max(1) as f64;
        (origin as f64 + ratio * size.max(1) as f64).round() as i32
    };
    (
        axis(x, mapping.logical_width, mapping.native.x, mapping.native.width),
        axis(y, mapping.logical_height, mapping.native.y, mapping.native.height),
    )
}

fn doubled_native_layout() -> LayoutState {
    let mut native_layout = layout_for_target_tests();
    let screen = &mut native_layout.devices[0].screens[0];
    screen.width = 3840;
    screen.height = 2160;
    screen.native.width = 3840;
    screen.native.height = 2160;
    native_layout
}

#[test]
fn heartbeat_button_repair_is_not_undone_by_a_delayed_drag_move() {
    let mut sequence_state = RemoteKeySequenceState::default();
    let mut sequence_by_origin = OriginMap::new();
    sequence_by_origin.insert(
        "server-a",
        RemoteMouseSequenceState {
            last_position_sequence: 8,
            last_button_snapshot_sequence: 0,
            last_scroll_sequence: 0,
            last_boundary_sequence: 0,
            last_button_sequence: [8, 0, 0],
        },
    );
    let mut mouse_state = RemoteMouseState {
        x: 100,
        y: 100,
        buttons: LEFT_BUTTON_MASK,
        last_origin_id: "server-a".to_string(),
        sequence_by_origin,
    };
    let mut active_origin = "server-a".to_string();
    let mut heartbeat = mouse_move(120, 120, None, 0, 11);
    let repair = admit_remote_input_packet_with_state(
        &mut sequence_state,
        &mut mouse_state,
        &mut active_origin,
        "server-a",
        Some(0),
        11,
        true,
        &mut heartbeat,
    )
    .expect("heartbeat should repair a lost button release");
    assert_eq!(
        repair.mouse.and_then(|mouse| mouse.button_reconciliation),
        Some((LEFT_BUTTON_MASK, 0, 100, 100))
    );
    assert_eq!(mouse_state.buttons, 0);

    let mut delayed_drag = mouse_move(110, 110, Some(MouseButton::Left), LEFT_BUTTON_MASK, 9);
    let delayed = admit_remote_input_packet_with_state(
        &mut sequence_state,
        &mut mouse_state,
        &mut active_origin,
        "server-a",
        None,
        9,
        false,
        &mut delayed_drag,
    )
    .expect("the delayed move coordinate is still useful");
    assert_eq!(
        delayed.mouse.and_then(|mouse| mouse.button_reconciliation),
        None,
        "the stale drag mask must not re-latch a button released by heartbeat"
    );
    assert_eq!(mouse_state.buttons, 0);
    let layout = layout_for_target_tests();
    let mapped = mapped_point(&layout, &layout, 110, 110);
    let command =
        input_event_to_command(&layout, &layout, &mut mouse_state, &delayed_drag, mapped)
            .expect("the delayed coordinate remains mappable");
    assert!(matches!(
        command,
        InputCommand::MouseMove {
            drag_button: None,
            ..
        }
    ));
}

#[test]
fn reset_and_modifier_snapshots_share_the_key_sequence_high_water() {
    assert!(input_packet_needs_key_sequence(
        &InputEvent::CursorPark {
            screen_id: "main".to_string(),
            x: 1,
            y: 2,
            sequence: 1,
        },
        None,
    ));
    assert!(input_packet_needs_key_sequence(
        &InputEvent::MouseButton {
            button: MouseButton::Left,
            down: true,
            screen_id: "main".to_string(),
            x: Some(1),
            y: Some(2),
            sequence: 2,
        },
        Some(0),
    ));
    assert!(!input_packet_needs_key_sequence(
        &InputEvent::MouseMove {
            screen_id: "main".to_string(),
            x: 1,
            y: 2,
            drag_button: None,
            button_mask: Some(0),
            sequence: 3,
        },
        None,
    ));
}

#[test]
fn only_active_mouse_input_reveals_a_parked_cursor() {
    assert!(input_command_reveals_parked_cursor(
        &InputCommand::MouseMove {
            x: 10,
            y: 20,
            drag_button: None,
        }
    ));
    assert!(input_command_reveals_parked_cursor(
        &InputCommand::MouseButton {
            button: MouseButton::Left,
            down: true,
            x: 10,
            y: 20,
        }
    ));
    assert!(!input_command_reveals_parked_cursor(
        &InputCommand::MouseButton {
            button: MouseButton::Left,
            down: false,
            x: 10,
            y: 20,
        }
    ));
    assert!(!input_command_reveals_parked_cursor(&InputCommand::Key {
        key_code: 0x11,
        down: false,
    }));
    assert!(!input_command_reveals_parked_cursor(
        &InputCommand::CursorPark { x: 10, y: 20 }
    ));
}

#[test]
fn unmappable_drag_is_rejected_before_it_can_claim_or_press() {
    let mut layout = layout_for_target_tests();
    let mut native_layout = layout_for_target_tests();
    for candidate in [&mut layout, &mut native_layout] {
        candidate
            .devices
            .iter_mut()
            .filter(|device| device.role == "local")
            .for_each(|device| device.screens.clear());
    }
    let mut state = fresh_receiver();

    let (actions, outcome) = inject_input_event(
        &mut state,
        &layout,
        &native_layout,
        Platform::Linux,
        "server-invalid-screen",
        Some(META_MODIFIER_MASK),
        1,
        false,
        InputEvent::MouseMove {
            screen_id: "missing-screen".to_string(),
            x: 100,
            y: 100,
            drag_button: Some(MouseButton::Left),
            button_mask: Some(LEFT_BUTTON_MASK),
            sequence: 1,
        },
        (100, 100),
        0,
    );

    assert!(!outcome.admitted);
    assert!(!outcome.injected);
    assert!(actions.is_empty());
    assert!(state.active_origin.is_empty());
    assert_eq!(state.mouse.buttons, 0);
    assert!(state.lease.origin_id.is_empty());
}

#[test]
fn input_packet_context_uses_stable_peer_origin_id() {
    let layout = layout_for_target_tests();
    let expected_origin_id = layout.local_peer_id.clone();
    let target = target_for_coordinate_tests();

    let context = input_packet_context(
        &target,
        mouse_move(10, 20, None, 0, 1),
        None,
        Some(&layout),
        "linux",
    );

    assert_ne!(expected_origin_id, "local-device");
    assert_eq!(context.origin_device_id, expected_origin_id);
}

#[test]
fn input_packet_context_uses_cached_target_when_layout_lock_is_busy() {
    let target = target_for_coordinate_tests();

    let context = input_packet_context(
        &target,
        mouse_move(10, 20, None, 0, 1),
        None,
        None,
        "linux",
    );

    assert_eq!(context.origin_device_id, "peer-local-192-168-66-92");
    assert_eq!(context.cluster_id, "cluster-test");
    assert_eq!(context.pair_secret, "secret-test");
    assert!(context.peer.is_some());
}

#[test]
fn input_packet_context_uses_cached_key_remap_without_waiting_for_layout() {
    let mut target = target_for_coordinate_tests();
    for current_platform in ["linux", "macos", "windows"] {
        target.target_platform = if current_platform == "windows" {
            "macos".to_string()
        } else {
            "windows".to_string()
        };
        let contexts = [true, false].map(|down| {
            input_packet_context(
                &target,
                InputEvent::Key {
                    key_code: 0x11,
                    down,
                },
                Some(CONTROL_MODIFIER_MASK),
                None,
                current_platform,
            )
        });
        for (context, down) in contexts.into_iter().zip([true, false]) {
            assert_eq!(context.modifier_snapshot, Some(META_MODIFIER_MASK));
            assert_eq!(
                context.event,
                InputEvent::Key {
                    key_code: 0x5B,
                    down,
                },
                "cached Ctrl-to-Command mapping must stay identical for Down and Up"
            );
        }
    }
}

#[test]
fn input_packet_requires_pair_secret() {
    let layout = client_layout("server", "server-key");
    let mut packet = packet_from(
        &layout,
        "server",
        "server-key",
        mouse_move(1, 1, None, 0, 1),
    );
    packet.pair_secret = "wrong".to_string();

    assert!(!packet_authorized(&layout, &packet));
    packet.pair_secret = layout.pair_secret.clone();
    assert!(packet_authorized(&layout, &packet));
    packet.origin_protocol_version = 0;
    assert!(!packet_authorized(&layout, &packet));
    packet.origin_protocol_version = PROTOCOL_VERSION;
    packet.origin_transport_public_key = "attacker-key".to_string();
    packet.origin_device_id = "attacker".to_string();
    assert!(!packet_authorized(&layout, &packet));
    packet.origin_transport_public_key.clear();
    packet.origin_device_id = "server".to_string();
    assert!(packet_authorized(&layout, &packet));
}

#[test]
fn input_packet_accepts_legacy_origin_after_transport_key_rotation() {
    let mut layout = client_layout("peer-server-local-10-0-0-1", "server-old-key");
    let packet = packet_from(
        &layout,
        "local-device",
        "server-rotated-key",
        mouse_move(1, 1, None, 0, 1),
    );

    assert!(packet_authorized(&layout, &packet));

    layout
        .paired_controllers
        .push(controller("peer-other-server", "other-key"));
    assert!(!packet_authorized(&layout, &packet));
}

#[test]
fn input_event_maps_relative_coordinates_to_native_command() {
    let layout = layout_for_target_tests();
    let native_layout = doubled_native_layout();
    let mapped = mapped_point(&layout, &native_layout, 960, 540);

    let command = input_event_to_command(
        &layout,
        &native_layout,
        &mut RemoteMouseState::default(),
        &mouse_move(960, 540, None, 0, 1),
        mapped,
    )
    .expect("mouse move should map to command");

    assert_eq!(
        command,
        InputCommand::MouseMove {
            x: 1920,
            y: 1080,
            drag_button: None,
        }
    );
}

#[test]
fn mouse_button_uses_its_reliable_coordinates_not_a_stale_datagram() {
    let layout = layout_for_target_tests();
    let native_layout = doubled_native_layout();
    let mut mouse_state = RemoteMouseState::default();
    update_remote_mouse_position(&mut mouse_state, 12, 34);
    let mapped = mapped_point(&layout, &native_layout, 960, 540);

    let command = input_event_to_command(
        &layout,
        &native_layout,
        &mut mouse_state,
        &InputEvent::MouseButton {
            button: MouseButton::Left,
            down: true,
            screen_id: "local-display-1".to_string(),
            x: Some(960),
            y: Some(540),
            sequence: 1,
        },
        mapped,
    )
    .expect("mouse button should map");

    assert_eq!(
        command,
        InputCommand::MouseButton {
            button: MouseButton::Left,
            down: true,
            x: 1920,
            y: 1080,
        }
    );
    assert_eq!(
        update_remote_mouse_button(&mut mouse_state, MouseButton::Left, false, None),
        (1920, 1080)
    );
}

#[test]
fn reliable_input_classes_prioritize_releases_and_keep_drag_latest_wins() {
    let normal_move = mouse_move(1, 2, None, 0, 1);
    let drag_move = mouse_move(2, 3, Some(MouseButton::Left), LEFT_BUTTON_MASK, 2);
    let button = InputEvent::MouseButton {
        button: MouseButton::Left,
        down: true,
        screen_id: "local-display-1".to_string(),
        x: Some(1),
        y: Some(2),
        sequence: 3,
    };

    assert_eq!(input_event_reliable_class(&normal_move), None);
    assert_eq!(input_event_reliable_class(&drag_move), None);
    assert_eq!(
        input_event_reliable_class(&button),
        Some(ReliableInputClass::State)
    );

    let button_up = InputEvent::MouseButton {
        button: MouseButton::Left,
        down: false,
        screen_id: "remote-screen".to_string(),
        x: Some(12),
        y: Some(34),
        sequence: 4,
    };
    assert_eq!(
        input_event_reliable_class(&button_up),
        Some(ReliableInputClass::Release)
    );
    assert_eq!(
        input_event_reliable_class(&InputEvent::CursorPark {
            screen_id: "remote-screen".to_string(),
            x: 99,
            y: 99,
            sequence: 5,
        }),
        Some(ReliableInputClass::ResetBoundary)
    );
    assert_eq!(
        input_packet_reliable_class(&normal_move, true),
        Some(ReliableInputClass::State)
    );
}

#[test]
fn input_control_packet_uses_pairing_authorization() {
    let layout = client_layout("server", "server-key");
    let mut packet = control_from(&layout, "server", "server-key");
    packet.pair_secret = "wrong".to_string();

    assert!(!control_packet_authorized(&layout, &packet));
    packet.pair_secret = layout.pair_secret.clone();
    assert!(control_packet_authorized(&layout, &packet));
    packet.origin_protocol_version = 0;
    assert!(!control_packet_authorized(&layout, &packet));
    packet.origin_protocol_version = PROTOCOL_VERSION;
    packet.origin_transport_public_key = "attacker-key".to_string();
    packet.origin_device_id = "attacker".to_string();
    assert!(!control_packet_authorized(&layout, &packet));
}

#[test]
fn clipboard_target_expires() {
    let mut binding = bound_to("peer-device", Some(4_999));

    assert!(current_clipboard_target(&mut binding, 5_000).is_none());
    assert!(binding.target.is_none());

    let mut binding = bound_to("peer-device", Some(5_001));
    assert!(current_clipboard_target(&mut binding, 5_000).is_some());
}

#[test]
fn clipboard_session_end_only_clears_the_matching_controller() {
    let mut binding = bound_to("server-b", None);

    assert!(!clear_clipboard_target_if_device(&mut binding, "server-a"));
    assert_eq!(
        current_clipboard_target(&mut binding, 0)
            .expect("B remains the active clipboard controller")
            .device_id,
        "server-b"
    );
    assert!(clear_clipboard_target_if_device(&mut binding, "server-b"));
    assert!(current_clipboard_target(&mut binding, 0).is_none());
}

#[test]
fn stale_key_only_park_cannot_rebind_clipboard_in_packet_routing() {
    let layout = layout_for_target_tests();
    let mut binding = bound_to("server-b", None);
    let stale_boundary = RemoteInputOutcome {
        injected: true,
        admitted: true,
        current_session_owner: false,
        session_ended: false,
    };

    apply_remote_input_clipboard_outcome(
        &mut binding,
        "server-a",
        stale_boundary,
        Some(ClipboardPeer {
            device_id: "server-a".to_string(),
            addr: "10.0.0.1:47834".to_string(),
            public_key: "server-a-key".to_string(),
            protocol_version: PROTOCOL_VERSION,
        }),
        &layout,
    );

    assert_eq!(
        current_clipboard_target(&mut binding, 0)
            .expect("stale Park must leave B bound")
            .device_id,
        "server-b"
    );
}

#[test]
fn identical_heartbeat_clipboard_binding_is_not_reapplied() {
    let mut binding = ClipboardBinding::default();
    let mut bind = || {
        set_clipboard_target(
            &mut binding,
            "server-a".to_string(),
            "10.0.0.1:47834".to_string(),
            "server-a-key".to_string(),
            PROTOCOL_VERSION,
            "cluster-test".to_string(),
            "secret-test".to_string(),
            false,
            None,
            0,
        )
    };

    assert!(bind());
    assert!(!bind());
    assert_eq!(binding.generation, 1);
}

#[test]
fn remap_skips_unknown_target_platform() {
    let layout = layout_for_target_tests();
    let mut target = build_input_targets(&layout, &layout)
        .into_iter()
        .next()
        .expect("one target");

    target.target_platform = "unknown".to_string();
    for current_platform in ["linux", "macos", "windows"] {
        let event = remap_event_for_target_layout(
            InputEvent::Key {
                key_code: 0x11,
                down: true,
            },
            &target,
            current_platform,
            &layout,
        );
        match event {
            InputEvent::Key { key_code, .. } => assert_eq!(key_code, 0x11),
            _ => panic!("expected key event"),
        }
    }
}

#[test]
fn remap_passes_through_non_key_events() {
    let layout = layout_for_target_tests();
    let target = build_input_targets(&layout, &layout)
        .into_iter()
        .next()
        .expect("one target");

    let event = remap_event_for_target_layout(
        InputEvent::Scroll {
            delta_x: 1,
            delta_y: -2,
            sequence: 1,
        },
        &target,
        "macos",
        &layout,
    );
    assert!(matches!(
        event,
        InputEvent::Scroll {
            delta_x: 1,
            delta_y: -2,
            ..
        }
    ));
}

#[test]
fn keys_are_remapped_between_platforms_only() {
    let layout = layout_for_target_tests();
    let target = build_input_targets(&layout, &layout).remove(0);
    let remapped = |current_platform| {
        remap_event_for_target_layout(
            InputEvent::Key {
                key_code: 0x5B,
                down: true,
            },
            &target,
            current_platform,
            &layout,
        )
    };
    assert_eq!(
        remapped("macos"),
        InputEvent::Key {
            key_code: 0x11,
            down: true
        }
    );
    assert_eq!(
        remapped("windows"),
        InputEvent::Key {
            key_code: 0x5B,
            down: true
        }
    );
}

#[test]
fn fields_at_their_defaults_are_recognized() {
    assert!(is_zero(&0));
    assert!(!is_zero(&7));
    assert!(is_false(&false));
    assert!(!is_false(&true));
    assert_eq!(input_protocol(), "mykvm.input.v1");
    assert_eq!(input_control_protocol(), "mykvm.input-control.v1");
    assert_eq!(normalize_quic_port(47833, 0), 47833);
    assert_eq!(normalize_quic_port(47833, 52001), 52001);
}

#[test]
fn sequences_start_at_the_clock_and_wrap() {
    let mut counter = SequenceCounter::seeded(1_700_000_000_000_000);
    assert_eq!(counter.take(), 1_700_000_000_000_000);
    assert_eq!(counter.take(), 1_700_000_000_000_001);
    let mut counter = SequenceCounter { next: u64::MAX };
    assert_eq!(counter.take(), u64::MAX);
    assert_eq!(counter.next, 0);
}

#[test]
fn events_leave_on_the_channel_of_their_kind() {
    let layout = layout_for_target_tests();
    let target = build_input_targets(&layout, &layout).remove(0);
    let transport = LocalTransport {
        port: 47834,
        public_key: "own-key".to_string(),
    };
    let mut keys = SequenceCounter { next: 5 };
    let mut send = |event, snapshot, heartbeat, platform| {
        send_packet_with_options(
            &target,
            event,
            snapshot,
            heartbeat,
            Some(&layout),
            platform,
            "macos",
            &transport,
            &mut keys,
        )
        .expect("the peer is online")
    };
    let moved = send(mouse_move(3, 4, None, 0, 8), None, false, Platform::Windows);
    assert_eq!(moved.channel, SendChannel::LatestDatagram);
    assert_eq!(moved.admission, InputSendAdmission::Confirmed);
    assert_eq!(moved.packet.key_sequence, 0);
    assert_eq!(moved.packet.target_device_id, "peer-device");
    assert_eq!(moved.packet.origin_port, 47834);
    assert_eq!(moved.packet.origin_transport_public_key, "own-key");
    assert_eq!(moved.peer.addr, "10.0.0.2:52001");
    let key = send(
        InputEvent::Key {
            key_code: 0x41,
            down: true,
        },
        Some(0),
        false,
        Platform::Windows,
    );
    assert_eq!(key.channel, SendChannel::Reliable(ReliableInputClass::State));
    assert_eq!(key.packet.key_sequence, 5);
    let beat = send(mouse_move(3, 4, None, 0, 9), Some(0), true, Platform::Windows);
    assert_eq!(beat.channel, SendChannel::Reliable(ReliableInputClass::State));
    assert!(beat.packet.heartbeat);
    assert_eq!(beat.packet.key_sequence, 6);
}

#[test]
fn a_peer_that_went_away_is_sent_nothing() {
    let mut layout = layout_for_target_tests();
    layout.devices[1].online = false;
    let target = target_for_coordinate_tests();
    let transport = LocalTransport {
        port: 47834,
        public_key: "own-key".to_string(),
    };
    let mut keys = SequenceCounter { next: 5 };
    assert!(send_packet_with_options(
        &target,
        mouse_move(3, 4, None, 0, 8),
        None,
        false,
        Some(&layout),
        Platform::Linux,
        "linux",
        &transport,
        &mut keys,
    )
    .is_none());
}

#[test]
fn secure_attention_is_refused_with_its_reason() {
    let transport = LocalTransport {
        port: 47834,
        public_key: "own-key".to_string(),
    };
    let ask = |layout: &LayoutState, id: &str| {
        send_secure_attention_control(layout, &transport, id)
            .map(|request| request.packet.target_device_id)
    };
    let refused = |text: &str| Err(text.to_string());
    let mut layout = layout_for_target_tests();
    assert_eq!(ask(&layout, "peer-device"), Ok("peer-device".to_string()));
    assert_eq!(
        ask(&layout, "nobody"),
        refused("target device is not in the layout")
    );
    assert_eq!(
        ask(&layout, "local-device"),
        refused("target device is not in the layout")
    );
    layout.pair_secret = "  ".to_string();
    assert_eq!(
        ask(&layout, "peer-device"),
        refused("this device is not paired with the target")
    );
    layout.devices[1].transport_public_key = String::new();
    assert_eq!(
        ask(&layout, "peer-device"),
        refused("target device has no QUIC transport key; re-pair it first")
    );
    layout.devices[1].input_ready = false;
    assert_eq!(
        ask(&layout, "peer-device"),
        refused("target device is not online and input-ready")
    );
    layout.devices[1].platform = "linux".to_string();
    assert_eq!(
        ask(&layout, "peer-device"),
        refused("Ctrl+Alt+Del control is only available for Windows targets.")
    );
}

#[test]
fn refused_packets_are_reported_with_a_reason() {
    let layout = client_layout("server", "server-key");
    let mut packet = packet_from(
        &layout,
        "server",
        "server-key",
        mouse_move(1, 1, None, 0, 1),
    );
    packet.origin_protocol_version = 0;
    assert_eq!(
        warn_unauthorized_packet(&layout, &packet),
        "input protocol mismatch — update MyKVM on both devices"
    );
    let mut control = control_from(&layout, "server", "server-key");
    control.pair_secret = "wrong".to_string();
    assert_eq!(
        warn_unauthorized_control_packet(&layout, &control),
        "pairing secret/cluster mismatch"
    );
    control.pair_secret = layout.pair_secret.clone();
    control.origin_transport_public_key = "attacker-key".to_string();
    control.origin_device_id = "attacker".to_string();
    assert_eq!(
        warn_unauthorized_control_packet(&layout, &control),
        "controller is not in this device's paired-controllers list"
    );
    let unpaired = LayoutState {
        cluster_id: String::new(),
        ..client_layout("server", "server-key")
    };
    assert_eq!(
        warn_unauthorized_packet(&unpaired, &packet_from(
            &layout,
            "server",
            "server-key",
            mouse_move(1, 1, None, 0, 1)
        )),
        "this device has no pairing configured (empty cluster/secret) — pair it with the controller"
    );

    let mut last = None;
    assert!(take_report(&mut last, 10, 5));
    assert!(!take_report(&mut last, 14, 5));
    assert!(take_report(&mut last, 15, 5));
}

#[test]
fn a_packet_is_attributed_to_its_device_or_its_address() {
    let layout = client_layout("server", "server-key");
    let mut packet = packet_from(
        &layout,
        "server",
        "server-key",
        mouse_move(1, 1, None, 0, 1),
    );
    assert_eq!(packet_origin_id(&packet, "10.0.0.1"), "server");
    assert_eq!(
        packet_clipboard_peer(&packet, "10.0.0.1").map(|peer| peer.addr),
        Some("10.0.0.1:47834".to_string())
    );
    packet.origin_device_id = " ".to_string();
    assert_eq!(packet_origin_id(&packet, "10.0.0.1"), "10.0.0.1");
    packet.origin_port = 0;
    assert!(packet_clipboard_peer(&packet, "10.0.0.1").is_none());
    assert!(packet_targets_local(&layout, "local-device", "own-peer"));
    assert!(packet_targets_local(&layout, "own-peer", "own-peer"));
    assert!(!packet_targets_local(&layout, "peer-device", "own-peer"));
}

#[test]
fn a_packet_is_handled_up_to_its_first_fault() {
    let layout = client_layout("server", "server-key");
    let mut state = fresh_receiver();
    let mut clipboard = ClipboardBinding::default();
    let mut events = 0;
    let mut handle = |packet, state: &mut ReceiverState, events: &mut u64, now| {
        try_inject_packet_from_source(
            &layout,
            &layout,
            packet,
            "10.0.0.1",
            events,
            "own-peer",
            &mut clipboard,
            state,
            Platform::Linux,
            (1, 1),
            now,
        )
    };
    let moved = |sequence| {
        packet_from(
            &layout,
            "server",
            "server-key",
            mouse_move(1, 1, None, 0, sequence),
        )
    };
    assert!(!handle(None, &mut state, &mut events, 0).handled);
    let mut foreign = moved(1);
    foreign.protocol = "other".to_string();
    assert!(!handle(Some(foreign), &mut state, &mut events, 0).handled);
    let mut wrong = moved(1);
    wrong.pair_secret = "wrong".to_string();
    let verdict = handle(Some(wrong), &mut state, &mut events, 0);
    assert!(verdict.handled && verdict.unauthorized && verdict.actions.is_empty());
    let mut elsewhere = moved(1);
    elsewhere.target_device_id = "peer-device".to_string();
    let verdict = handle(Some(elsewhere), &mut state, &mut events, 0);
    assert!(verdict.handled && !verdict.unauthorized && verdict.actions.is_empty());
    assert_eq!(events, 0);

    let verdict = handle(Some(moved(1)), &mut state, &mut events, 0);
    assert!(verdict.handled && !verdict.unauthorized);
    assert!(verdict
        .actions
        .contains(&InjectAction::Command(InputCommand::MouseMove {
            x: 1,
            y: 1,
            drag_button: None
        })));
    assert_eq!(events, 1);
    assert_eq!(state.active_origin, "server");
    assert_eq!(state.lease.expires_at, Some(REMOTE_INPUT_LEASE_TIMEOUT));

    let verdict = handle(Some(moved(1)), &mut state, &mut events, 1);
    assert!(verdict.handled && verdict.actions.is_empty(), "a replay is inert");
    assert_eq!(events, 1);
    assert_eq!(
        clipboard.target.as_ref().map(|target| target.device_id.as_str()),
        Some("server")
    );

    assert!(expire_remote_input_session(
        &mut state,
        &mut clipboard,
        Platform::Linux,
        REMOTE_INPUT_LEASE_TIMEOUT - 1
    )
    .is_none());
    assert!(expire_remote_input_session(
        &mut state,
        &mut clipboard,
        Platform::Linux,
        REMOTE_INPUT_LEASE_TIMEOUT
    )
    .is_some());
    assert!(state.active_origin.is_empty());
    assert!(clipboard.target.is_none());
}

#[test]
fn a_control_packet_asks_for_its_command() {
    let layout = client_layout("server", "server-key");
    let packet = control_from(&layout, "server", "server-key");
    let verdict = try_handle_control_packet_from_source(&layout, Some(&packet), "own-peer");
    assert_eq!(verdict.command, Some(InputControlCommand::SecureAttention));
    assert!(verdict.handled && !verdict.unauthorized);
    let mut wrong = control_from(&layout, "server", "server-key");
    wrong.cluster_id = "other".to_string();
    let verdict = try_handle_control_packet_from_source(&layout, Some(&wrong), "own-peer");
    assert!(verdict.handled && verdict.unauthorized && verdict.command.is_none());
    assert!(!try_handle_control_packet_from_source(&layout, None, "own-peer").handled);

    assert_eq!(
        send_secure_attention_to_helper(Platform::Windows),
        Ok(InputCommand::SecureAttention)
    );
    assert!(send_secure_attention_to_helper(Platform::Linux).is_err());
    assert!(windows_input_pipe_available(Platform::Windows, true));
    assert!(!windows_input_pipe_available(Platform::MacOs, true));
}

#[test]
fn a_reset_releases_what_was_pressed() {
    let mut state = fresh_receiver();
    state.mouse.buttons = LEFT_BUTTON_MASK;
    state.mouse.x = 7;
    state.mouse.y = 9;
    let actions = reset_injected_input_state(&mut state);
    assert!(actions.contains(&InjectAction::Command(InputCommand::MouseButton {
        button: MouseButton::Left,
        down: false,
        x: 7,
        y: 9,
    })));
    assert_eq!(state.mouse.buttons, 0);
}

#[test]
fn a_waiter_sleeps_until_the_binding_changes() {
    assert_eq!(wait_for_clipboard_target_change(3, 3, 40, 100), Some(60));
    assert_eq!(wait_for_clipboard_target_change(3, 3, 100, 100), None);
    assert_eq!(wait_for_clipboard_target_change(3, 4, 0, 100), None);
}
