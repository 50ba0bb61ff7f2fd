use mykvm::capture::{enter_target, point_in_local_bounds, Span};
use mykvm::clipboard::{
    join_pasteboard, read_unknown_content, ClipboardContent, ClipboardWrite,
};
use mykvm::clipboard_image::{
    join_windows_formats, rgba_dimensions, whole_picture, write_bgra_bottom_up, ClipboardImage,
};
use mykvm::clipboard_target::{clear_clipboard_target, ClipboardBinding};
use mykvm::control::{
    holds_key, release_remote_buttons, remove_key, send_remote_mouse_move,
    send_remote_mouse_move_with_drag, update_remote_button_mask,
};
use mykvm::injected_keys::{find_released_key, normalize_injected_modifier_vk, track_injected_key};
use mykvm::key_sequence::remote_semantic_key;
use mykvm::layout::{
    default_modifier_map, find_default_screen, find_device, find_local_role, find_screen,
    local_device, local_screen_for_event, platform_native_screen, Device, LayoutState, NativeRect,
    Platform, Screen, ScreenSwitchHotkeys, PROTOCOL_VERSION,
};
use mykvm::macos_capture::{send_modifier_changes, MAC_CAPS_LOCK};
use mykvm::macos_cursor::{reset_cursor_repin_timer, MacCursor};
use mykvm::macos_inject::{click_points_are_near, MAC_CONTROL_FLAG};
use mykvm::packets::{
    legacy_local_device_origin_allowed, packet_authorized_fields, platform_input_send_admission,
    remap_event_for_target_cached, remap_modifier_snapshot_for_target_cached,
    remap_modifier_snapshot_for_target_layout, InputSendAdmission, SequenceCounter,
};
use mykvm::receiver::{
    input_event_coordinates_mappable, reconcile_injected_mouse_buttons,
    release_injected_mouse_buttons,
};
use mykvm::remote_mouse::{
    input_event_mouse_sequence, switch_remote_mouse_origin, RemoteMouseState,
};
use mykvm::shared_input::{
    any_key_of_family, button_from_mask, modifier_mask_for_key, mouse_button_mask, InputCommand,
    InputEvent, MouseButton, ALT_MODIFIER_MASK, CONTROL_MODIFIER_MASK, LEFT_BUTTON_MASK,
    META_MODIFIER_MASK, MIDDLE_BUTTON_MASK, RIGHT_BUTTON_MASK, SHIFT_MODIFIER_MASK,
};
use mykvm::switch::{
    local_screen_switch_point, point_in_screen, screen_center_point, source_local_screen,
    HalfPoint, PointCell, SwitchDirection,
};
use mykvm::targets::{
    current_input_targets, device_address, peer_screen_id, screens_overlap, touching_edge, Edge,
    InputTarget,
};
use mykvm::text::{
    append_decimal, append_hex, chars_of, is_blank, same_text, strip_prefix, to_ascii_lower,
};
use mykvm::windows_hooks::{windows_modifier_family_bits, WM_MOUSEHWHEEL, WM_MOUSEWHEEL};
use mykvm::windows_worker::{
    handle_windows_key, handle_windows_modifier_snapshot, handle_windows_mouse_button,
    handle_windows_scroll, KeyStep,
};

fn screen(device_id: &str, id: &str, x: i32, y: i32, width: i32, height: i32) -> Screen {
    Screen {
        id: id.to_string(),
        device_id: device_id.to_string(),
        name: id.to_string(),
        x,
        y,
        width,
        height,
        native: NativeRect {
            x,
            y,
            width,
            height,
        },
        is_primary: true,
    }
}

fn target_with(
    screen_id: &str,
    local_screen: Screen,
    layout_local_screen: Screen,
    remote_screen: Screen,
    edge: Edge,
) -> InputTarget {
    InputTarget {
        device_id: "peer-device".to_string(),
        origin_device_id: "peer-local-192-168-66-92".to_string(),
        cluster_id: "cluster-test".to_string(),
        pair_secret: "secret-test".to_string(),
        target_addr: "10.0.0.2:47833".to_string(),
        target_platform: "windows".to_string(),
        modifier_remap: true,
        modifier_control: "meta".to_string(),
        modifier_alt: "alt".to_string(),
        modifier_meta: "control".to_string(),
        transport_public_key: "test-public-key".to_string(),
        protocol_version: PROTOCOL_VERSION,
        screen_id: screen_id.to_string(),
        local_screen,
        layout_local_screen,
        remote_screen,
        edge,
    }
}

fn target_for_coordinate_tests() -> InputTarget {
    target_with(
        "local-display-1",
        screen("local-device", "local-display-1", 0, 0, 1920, 1080),
        screen("local-device", "local-display-1", -11960, -9000, 2560, 1440),
        screen(
            "peer-device",
            "peer-device-local-display-1",
            -9400,
            -9000,
            2560,
            1440,
        ),
        Edge::Right,
    )
}

fn device(id: &str, role: &str, platform: &str, host: &str, screens: Vec<Screen>) -> Device {
    Device {
        id: id.to_string(),
        name: id.to_string(),
        platform: platform.to_string(),
        host: host.to_string(),
        transport_port: 52000,
        quic_port: 52001,
        transport_public_key: "peer-public-key".to_string(),
        protocol_version: PROTOCOL_VERSION,
        online: true,
        input_ready: true,
        role: role.to_string(),
        screens,
        modifier_remap: None,
        modifier_map: None,
    }
}

fn layout_for_target_tests() -> LayoutState {
    LayoutState {
        devices: vec![
            device(
                "local-device",
                "local",
                "macos",
                "192.168.66.92",
                vec![screen("local-device", "local-display-1", 0, 0, 1920, 1080)],
            ),
            device(
                "peer-device",
                "client",
                "windows",
                "10.0.0.2",
                vec![screen(
                    "peer-device",
                    "peer-device-local-display-1",
                    1920,
                    0,
                    1920,
                    1080,
                )],
            ),
        ],
        local_peer_id: "peer-local-192-168-66-92".to_string(),
        input_mode: "control".to_string(),
        machine_role: "server".to_string(),
        cluster_id: "cluster-test".to_string(),
        pair_secret: "secret-test".to_string(),
        paired_controllers: Vec::new(),
        transport_port: 47833,
        quic_port: 47834,
        modifier_remap: true,
        modifier_map: default_modifier_map(),
        screen_switch_hotkeys: ScreenSwitchHotkeys {
            left: String::new(),
            right: String::new(),
            up: String::new(),
            down: String::new(),
        },
    }
}


fn span(value: i64) -> Span {
    Span {
        floor: value,
        ceil: value,
    }
}

fn cell(x: i64, y: i64) -> PointCell {
    PointCell {
        floor_x: x,
        ceil_x: x,
        floor_y: y,
        ceil_y: y,
    }
}

#[test]
fn numbers_and_texts_are_spelled() {
    let mut text = "n=".to_string();
    append_decimal(&mut text, 0);
    append_decimal(&mut text, 18_446_744_073_709_551_615);
    assert_eq!(text, "n=018446744073709551615");
    let mut text = String::new();
    append_hex(&mut text, 0xCBF, 16);
    assert_eq!(text, "0000000000000cbf");
    assert!(same_text("屏幕", "屏幕"));
    assert!(!same_text("屏幕", "屏"));
    assert_eq!(chars_of("a屏"), ['a', '屏']);
    assert_eq!(strip_prefix("peer-scr-1", "peer-"), Some("scr-1"));
    assert_eq!(strip_prefix("peer-scr-1", "other-"), None);
    assert_eq!(to_ascii_lower('Q'), 'q');
    assert_eq!(to_ascii_lower('É'), 'É');
    assert!(is_blank(" \u{3000}\t"));
    assert!(!is_blank(" x "));
}

#[test]
fn screens_and_devices_are_looked_up() {
    let mut layout = layout_for_target_tests();
    assert_eq!(find_local_role(&layout).map(|device| device.id.as_str()), Some("local-device"));
    assert_eq!(find_device(&layout, "peer-device").map(|device| device.online), Some(true));
    assert!(find_device(&layout, "nobody").is_none());
    let screens = &layout.devices[1].screens;
    assert!(find_screen(screens, "peer-device-local-display-1").is_some());
    assert!(find_screen(screens, "local-display-1").is_none());
    assert_eq!(
        local_screen_for_event(&layout, "unknown").map(|screen| screen.id.as_str()),
        Some("local-display-1"),
        "an unknown screen falls back to the primary one"
    );
    layout.devices[0].role = "other".to_string();
    assert_eq!(
        local_device(&layout).map(|device| device.id.as_str()),
        Some("local-device"),
        "without a local role the first device stands in"
    );
    layout.devices.clear();
    assert!(local_device(&layout).is_none());
    assert!(local_screen_for_event(&layout, "local-display-1").is_none());

    let mut screens = vec![
        screen("d", "first", 0, 0, 10, 10),
        screen("d", "second", 0, 0, 10, 10),
    ];
    screens[0].is_primary = false;
    assert_eq!(find_default_screen(&screens).map(|screen| screen.id.as_str()), Some("second"));
    screens[1].is_primary = false;
    assert_eq!(find_default_screen(&screens).map(|screen| screen.id.as_str()), Some("first"));

    let mut scaled = screen("d", "first", 1, 2, 3, 4);
    scaled.native = NativeRect {
        x: 10,
        y: 20,
        width: 30,
        height: 40,
    };
    let native = platform_native_screen(&scaled);
    assert_eq!((native.x, native.y, native.width, native.height), (10, 20, 30, 40));
    assert_eq!(native.id, "first");
}

#[test]
fn edges_touch_within_the_tolerance() {
    let local = screen("l", "l", 0, 0, 1920, 1080);
    let at = |x, y| screen("r", "r", x, y, 1920, 1080);
    assert_eq!(touching_edge(&local, &at(1920 + 80, 0)), Some(Edge::Right));
    assert_eq!(touching_edge(&local, &at(1920 + 81, 0)), None);
    assert_eq!(touching_edge(&local, &at(-1920, 0)), Some(Edge::Left));
    assert_eq!(touching_edge(&local, &at(0, 1080)), Some(Edge::Bottom));
    assert_eq!(touching_edge(&local, &at(0, -1080)), Some(Edge::Top));
    assert_eq!(touching_edge(&local, &at(1920, 1000)), None, "too little of it is shared");
    assert_eq!(touching_edge(&local, &at(1920, 999)), Some(Edge::Right));
    assert!(screens_overlap(&local, &at(1919, 0)));
    assert!(!screens_overlap(&local, &at(1920, 0)));
}

#[test]
fn targets_name_their_peer() {
    let layout = layout_for_target_tests();
    let peer = &layout.devices[1];
    assert_eq!(device_address(peer), "10.0.0.2:52001");
    assert_eq!(peer_screen_id(peer, &peer.screens[0]), "local-display-1");
    assert_eq!(peer_screen_id(peer, &screen("x", "plain", 0, 0, 1, 1)), "plain");
    assert_eq!(current_input_targets(Some(&layout), &layout).len(), 1);
    assert!(current_input_targets(None, &layout).is_empty());
    let active = enter_target(&target_for_coordinate_tests(), true);
    assert_eq!(active.current_screen.id, "local-display-1");
    assert_eq!(active.current_screen.width, 2560);
    assert!(active.invert_y);
    let bounds = screen("l", "l", 0, 0, 100, 50);
    assert!(point_in_local_bounds(&bounds, span(99), span(49)));
    assert!(!point_in_local_bounds(&bounds, span(100), span(0)));
    assert!(!point_in_local_bounds(
        &bounds,
        Span {
            floor: 99,
            ceil: 100
        },
        span(0)
    ));
}

#[test]
fn a_local_switch_finds_its_source_and_its_goal() {
    let mut layout = layout_for_target_tests();
    layout.devices[0]
        .screens
        .push(screen("local-device", "local-display-2", -1920, 0, 1920, 1080));
    let second = &layout.devices[0].screens[1];
    assert!(point_in_screen(second, cell(-1920, 0)));
    assert!(!point_in_screen(second, cell(0, 0)));
    assert_eq!(
        source_local_screen(&layout, &layout, Some(cell(-5, 5))).map(|screen| screen.id.as_str()),
        Some("local-display-2")
    );
    assert_eq!(screen_center_point(second.native), HalfPoint { x: -1920, y: 1080 });
    let jump = local_screen_switch_point(
        SwitchDirection::Left,
        &layout,
        &layout,
        Some("local-display-1"),
    )
    .expect("a screen lies to the left");
    assert_eq!(jump.to_screen_id, "local-display-2");
    assert!(local_screen_switch_point(
        SwitchDirection::Up,
        &layout,
        &layout,
        Some("local-display-1")
    )
    .is_none());
    assert!(SwitchDirection::Up.matches_edge(Edge::Top));
    assert!(!SwitchDirection::Up.matches_edge(Edge::Bottom));
}

#[test]
fn buttons_and_modifiers_have_their_masks() {
    assert_eq!(mouse_button_mask(MouseButton::Middle), MIDDLE_BUTTON_MASK);
    assert_eq!(
        button_from_mask(RIGHT_BUTTON_MASK | MIDDLE_BUTTON_MASK),
        Some(MouseButton::Right)
    );
    assert_eq!(button_from_mask(8), None);
    assert_eq!(modifier_mask_for_key(0xA1), Some(SHIFT_MODIFIER_MASK));
    assert_eq!(modifier_mask_for_key(0x12), Some(ALT_MODIFIER_MASK));
    assert_eq!(modifier_mask_for_key(0x41), None);
    assert!(any_key_of_family(&[0x41, 0x5C], META_MODIFIER_MASK));
    assert!(!any_key_of_family(&[0x41, 0x5C], CONTROL_MODIFIER_MASK));
    assert_eq!(remote_semantic_key(0xA3), 0x11);
    assert_eq!(remote_semantic_key(0x5C), 0x5B);
    assert_eq!(remote_semantic_key(0x42), 0x42);
    assert_eq!(windows_modifier_family_bits(0xA5), Some((0x20, 0x30)));
    assert_eq!(windows_modifier_family_bits(0x41), None);
    assert_eq!(normalize_injected_modifier_vk(0x12), 0xA4);
    assert_eq!(normalize_injected_modifier_vk(0x5B), 0x5B);
    let mut mask = 0;
    update_remote_button_mask(&mut mask, MouseButton::Left, true);
    update_remote_button_mask(&mut mask, MouseButton::Right, true);
    update_remote_button_mask(&mut mask, MouseButton::Left, false);
    assert_eq!(mask, RIGHT_BUTTON_MASK);
}

#[test]
fn held_keys_are_kept_and_dropped() {
    let mut keys = vec![0x41, 0x42, 0x41];
    assert!(holds_key(&keys, 0x42));
    remove_key(&mut keys, 0x41);
    assert_eq!(keys, [0x42]);
    let mut injected = vec![0xA3];
    assert_eq!(
        find_released_key(&injected, 0xA2),
        0xA3,
        "the only held member of the family stands for the released key"
    );
    let ambiguous = vec![0xA3, 0x11];
    assert_eq!(find_released_key(&ambiguous, 0xA2), 0xA2);
    track_injected_key(&mut injected, 0x41, true);
    track_injected_key(&mut injected, 0x41, true);
    assert_eq!(injected, [0xA3, 0x41]);
    track_injected_key(&mut injected, 0xA3, false);
    assert_eq!(injected, [0x41]);
}

#[test]
fn moves_and_releases_carry_their_buttons() {
    let active = enter_target(&target_for_coordinate_tests(), false);
    let mut sequences = SequenceCounter { next: 3 };
    assert_eq!(
        send_remote_mouse_move(&active, (7, 8), &mut sequences),
        InputEvent::MouseMove {
            screen_id: "local-display-1".to_string(),
            x: 7,
            y: 8,
            drag_button: None,
            button_mask: Some(0),
            sequence: 3,
        }
    );
    assert!(matches!(
        send_remote_mouse_move_with_drag(&active, (7, 8), LEFT_BUTTON_MASK, &mut sequences),
        InputEvent::MouseMove {
            drag_button: Some(MouseButton::Left),
            button_mask: Some(LEFT_BUTTON_MASK),
            sequence: 4,
            ..
        }
    ));
    let mut mask = LEFT_BUTTON_MASK | MIDDLE_BUTTON_MASK;
    let mut events = Vec::new();
    release_remote_buttons(&mut mask, &mut sequences, &mut events);
    assert_eq!(mask, 0);
    assert_eq!(events.len(), 2);
    assert_eq!(input_event_mouse_sequence(&events[1]), Some(6));
    let up = |button| InputCommand::MouseButton {
        button,
        down: false,
        x: 1,
        y: 2,
    };
    assert_eq!(
        release_injected_mouse_buttons(LEFT_BUTTON_MASK | RIGHT_BUTTON_MASK, 1, 2),
        [up(MouseButton::Left), up(MouseButton::Right)]
    );
    assert_eq!(
        reconcile_injected_mouse_buttons(LEFT_BUTTON_MASK, RIGHT_BUTTON_MASK, 1, 2),
        [
            up(MouseButton::Left),
            InputCommand::MouseButton {
                button: MouseButton::Right,
                down: true,
                x: 1,
                y: 2,
            }
        ]
    );
}

#[test]
fn a_new_controller_takes_the_buttons_over() {
    let mut state = RemoteMouseState {
        buttons: LEFT_BUTTON_MASK,
        x: 4,
        y: 5,
        ..RemoteMouseState::default()
    };
    assert_eq!(
        switch_remote_mouse_origin(&mut state, "server-a"),
        Some((LEFT_BUTTON_MASK, 4, 5))
    );
    assert_eq!(state.buttons, 0);
    assert_eq!(switch_remote_mouse_origin(&mut state, "server-a"), None);
}

#[test]
fn only_whole_positions_are_mappable() {
    let layout = layout_for_target_tests();
    let button = |screen_id: &str, x, y| InputEvent::MouseButton {
        button: MouseButton::Left,
        down: true,
        screen_id: screen_id.to_string(),
        x,
        y,
        sequence: 1,
    };
    let mappable = |event: &InputEvent| input_event_coordinates_mappable(&layout, &layout, event);
    assert!(mappable(&button("", None, None)));
    assert!(mappable(&button("local-display-1", Some(1), Some(2))));
    assert!(!mappable(&button("", Some(1), Some(2))));
    assert!(!mappable(&button("local-display-1", Some(1), None)));
}

#[test]
fn credentials_are_checked_one_by_one() {
    let mut layout = layout_for_target_tests();
    layout.machine_role = "client".to_string();
    layout.paired_controllers = vec![mykvm::layout::PairedController {
        id: "server".to_string(),
        transport_public_key: "server-key".to_string(),
    }];
    let check = |layout: &LayoutState, version, cluster, secret, key, id| {
        packet_authorized_fields(layout, version, cluster, secret, key, id)
    };
    let version = PROTOCOL_VERSION;
    assert!(check(&layout, version, "cluster-test", "secret-test", "server-key", "x"));
    assert!(check(&layout, version, "cluster-test", "secret-test", "", "server"));
    assert!(!check(&layout, version, "other", "secret-test", "server-key", "x"));
    assert!(!check(&layout, version, "cluster-test", "other", "server-key", "x"));
    assert!(!check(&layout, 0, "cluster-test", "secret-test", "server-key", "x"));
    assert!(legacy_local_device_origin_allowed(&layout, "local-device", "rotated-key"));
    assert!(!legacy_local_device_origin_allowed(&layout, "stranger", "rotated-key"));
    layout.machine_role = "server".to_string();
    assert!(!legacy_local_device_origin_allowed(&layout, "local-device", "rotated-key"));
    assert_eq!(
        platform_input_send_admission(Platform::MacOs),
        InputSendAdmission::Nonblocking
    );
    assert_eq!(
        platform_input_send_admission(Platform::Windows),
        InputSendAdmission::Confirmed
    );
}

#[test]
fn snapshots_are_remapped_like_keys() {
    let layout = layout_for_target_tests();
    let target = target_for_coordinate_tests();
    assert_eq!(
        remap_modifier_snapshot_for_target_layout(CONTROL_MODIFIER_MASK, &target, "macos", &layout),
        META_MODIFIER_MASK
    );
    assert_eq!(
        remap_modifier_snapshot_for_target_cached(
            META_MODIFIER_MASK | SHIFT_MODIFIER_MASK,
            &target,
            "macos"
        ),
        CONTROL_MODIFIER_MASK | SHIFT_MODIFIER_MASK
    );
    assert_eq!(
        remap_modifier_snapshot_for_target_cached(META_MODIFIER_MASK, &target, "windows"),
        META_MODIFIER_MASK
    );
    let key = InputEvent::Key {
        key_code: 0x41,
        down: true,
    };
    assert_eq!(
        remap_event_for_target_cached(key.clone(), &target, "macos"),
        key
    );
}

#[test]
fn modifier_changes_on_a_mac_are_sent_as_keys() {
    let key = |key_code, down| InputEvent::Key { key_code, down };
    let mut pressed = Vec::new();
    let events = send_modifier_changes(&mut pressed, 59, MAC_CONTROL_FLAG);
    assert_eq!(events, [key(0x11, true)]);
    assert_eq!(pressed, [0x11]);
    let events = send_modifier_changes(&mut pressed, 59, 0);
    assert_eq!(events, [key(0x11, false)]);
    assert!(pressed.is_empty());
    let events = send_modifier_changes(&mut pressed, MAC_CAPS_LOCK, 0);
    assert_eq!(events, [key(0x14, true), key(0x14, false)]);
    assert!(click_points_are_near(0, 0, 8, 0, 8));
    assert!(!click_points_are_near(0, 0, 9, 0, 8));
    assert!(!click_points_are_near(0, 0, 8, -8, 8));
    let mut cursor = MacCursor {
        last_repin: Some(5),
        ..MacCursor::default()
    };
    reset_cursor_repin_timer(&mut cursor);
    assert_eq!(cursor.last_repin, None);
}

#[test]
fn wheels_buttons_and_keys_of_windows_become_plans() {
    let mut session = mykvm::control::ControlSession::new(SequenceCounter { next: 9 });
    assert!(handle_windows_scroll(&mut session, WM_MOUSEWHEEL, 120 << 16, 0, &[]).is_none());
    assert!(matches!(
        handle_windows_key(&session, None, 0x41, true, 0, &[]),
        KeyStep::Refused
    ));
    session.active = Some(enter_target(&target_for_coordinate_tests(), false));
    let up = (-240i32 as u32) << 16;
    let plan = handle_windows_scroll(&mut session, WM_MOUSEWHEEL, up, 0, &[]).expect("a wheel");
    assert_eq!(
        plan.event,
        InputEvent::Scroll {
            delta_x: 0,
            delta_y: -2,
            sequence: 9,
        }
    );
    let plan = handle_windows_scroll(&mut session, WM_MOUSEHWHEEL, 120 << 16, 0, &[])
        .expect("a wheel");
    assert_eq!(
        plan.event,
        InputEvent::Scroll {
            delta_x: 1,
            delta_y: 0,
            sequence: 10,
        }
    );
    assert!(handle_windows_mouse_button(&mut session, 0x9999, 0, &[], (1, 2)).is_none());
    let plan = handle_windows_mouse_button(&mut session, 0x0204, 0, &[0xA2], (1, 2))
        .expect("a button");
    assert_eq!(plan.repairs.len(), 1);
    assert_eq!(plan.snapshot, Some(CONTROL_MODIFIER_MASK));
    session.forwarded_keys = vec![0x5B];
    assert_eq!(
        handle_windows_modifier_snapshot(&session, 0),
        [InputEvent::Key {
            key_code: 0x5B,
            down: false,
        }]
    );
}

#[test]
fn clipboard_parts_are_joined() {
    assert_eq!(join_pasteboard(None, None), ClipboardWrite::Nothing);
    assert_eq!(
        join_pasteboard(Some("a".to_string()), None),
        ClipboardWrite::Pasteboard {
            text: Some("a".to_string()),
            png: None
        }
    );
    let formats = join_windows_formats(vec![1], Ok(vec![2])).expect("both parts");
    assert_eq!((formats.dib, formats.png), (vec![1], vec![2]));
    assert_eq!(
        join_windows_formats(vec![1], Err("no".to_string())).err(),
        Some("failed to encode clipboard PNG: no".to_string())
    );
    assert_eq!(rgba_dimensions(&[0; 8], 1, 2), Ok((4, 8)));
    assert_eq!(
        rgba_dimensions(&[0; 7], 1, 2),
        Err("clipboard image has invalid dimensions".to_string())
    );
    let mut bgra = [0; 3];
    assert_eq!(
        write_bgra_bottom_up(&[1, 2, 3, 4], 1, 1, &mut bgra),
        Err("clipboard image output has invalid dimensions".to_string())
    );
    let mut bgra = [0; 4];
    assert_eq!(write_bgra_bottom_up(&[1, 2, 3, 4], 1, 1, &mut bgra), Ok(()));
    assert_eq!(bgra, [3, 2, 1, 4]);
    let image = ClipboardImage {
        width: 1,
        height: 1,
        rgba_base64: "AQIDBA==".to_string(),
    };
    assert_eq!(whole_picture(&image), Some(vec![1, 2, 3, 4]));
    let text = || Some(ClipboardContent::Text("t".to_string()));
    assert!(matches!(
        read_unknown_content(Platform::Linux, text, || None),
        Some(ClipboardContent::Text(_))
    ));
    let mut binding = ClipboardBinding::default();
    clear_clipboard_target(&mut binding);
    assert!(binding.target.is_none());
}
