use mykvm::capture::{
    crossing_layout_point, crossing_target_with_transform, exited_entry_edge, local_y_bounds,
    mac_crossing_target, remote_device_screens, repeated_clamped_windows_crossing_target,
    should_ignore_initial_anchor_warp_delta, update_active_remote_screen, clamped_probes,
    ActiveTarget, CrossingMotion, Motion, RemoteStep, Span,
};
use mykvm::clipboard_target::{set_control_clipboard_target, ClipboardBinding};
use mykvm::control::{
    active_target_input_failed, release_held_remote_inputs, send_remote_cursor_park,
    send_remote_input_heartbeat, should_send_mouse_move, track_forwarded_key, ControlSession,
};
use mykvm::layout::{
    default_modifier_map, Device, LayoutState, NativeRect, Platform, Screen, ScreenSwitchHotkeys,
    PROTOCOL_VERSION,
};
use mykvm::origin_map::OriginMap;
use mykvm::packets::{send_packet_with_options, LocalTransport, SequenceCounter};
use mykvm::placement::{
    hold_on_screen, local_center_point, local_hotkey_return_point, local_return_point,
    mirror_differs, pin_active_to_entry_edge, place_entry, windows_remote_anchor_point, AxisPlace,
    Placement,
};
use mykvm::shared_input::{InputEvent, MouseButton, LEFT_BUTTON_MASK};
use mykvm::switch::{
    drain_switch_request, remembered_local_screen_point, request_screen_switch,
    request_screen_switch_from_point, HalfPoint, PointCell, SwitchDirection, SwitchOutcome,
};
use mykvm::targets::{
    build_input_targets, target_is_online, try_current_input_targets, Edge, InputTarget,
};
use mykvm::windows_hooks::{
    accumulate_windows_delta, WindowsCapturedEvent, WindowsMouseMoveSnapshot,
    WindowsPendingMouseMoves, PENDING_MOVES_CAPACITY,
};

fn screen(device_id: &str, id: &str, x: i32, y: i32, width: i32, height: i32) -> Screen {
    Screen {
        id: id.to_string(),
        device_id: device_id.to_string(),
        name: id.to_string(),
        x,
        y,
        width,
        height,
        native: NativeRect {
            x,
            y,
            width,
            height,
        },
        is_primary: true,
    }
}

fn target_with(
    screen_id: &str,
    local_screen: Screen,
    layout_local_screen: Screen,
    remote_screen: Screen,
    edge: Edge,
) -> InputTarget {
    InputTarget {
        device_id: "peer-device".to_string(),
        origin_device_id: "peer-local-192-168-66-92".to_string(),
        cluster_id: "cluster-test".to_string(),
        pair_secret: "secret-test".to_string(),
        target_addr: "10.0.0.2:47833".to_string(),
        target_platform: "windows".to_string(),
        modifier_remap: true,
        modifier_control: "meta".to_string(),
        modifier_alt: "alt".to_string(),
        modifier_meta: "control".to_string(),
        transport_public_key: "test-public-key".to_string(),
        protocol_version: PROTOCOL_VERSION,
        screen_id: screen_id.to_string(),
        local_screen,
        layout_local_screen,
        remote_screen,
        edge,
    }
}

fn target_for_coordinate_tests() -> InputTarget {
    target_with(
        "local-display-1",
        screen("local-device", "local-display-1", 0, 0, 1920, 1080),
        screen("local-device", "local-display-1", -11960, -9000, 2560, 1440),
        screen(
            "peer-device",
            "peer-device-local-display-1",
            -9400,
            -9000,
            2560,
            1440,
        ),
        Edge::Right,
    )
}

fn device(id: &str, role: &str, platform: &str, host: &str, screens: Vec<Screen>) -> Device {
    Device {
        id: id.to_string(),
        name: id.to_string(),
        platform: platform.to_string(),
        host: host.to_string(),
        transport_port: 52000,
        quic_port: 52001,
        transport_public_key: "peer-public-key".to_string(),
        protocol_version: PROTOCOL_VERSION,
        online: true,
        input_ready: true,
        role: role.to_string(),
        screens,
        modifier_remap: None,
        modifier_map: None,
    }
}

fn layout_for_target_tests() -> LayoutState {
    LayoutState {
        devices: vec![
            device(
                "local-device",
                "local",
                "macos",
                "192.168.66.92",
                vec![screen("local-device", "local-display-1", 0, 0, 1920, 1080)],
            ),
            device(
                "peer-device",
                "client",
                "windows",
                "10.0.0.2",
                vec![screen(
                    "peer-device",
                    "peer-device-local-display-1",
                    1920,
                    0,
                    1920,
                    1080,
                )],
            ),
        ],
        local_peer_id: "peer-local-192-168-66-92".to_string(),
        input_mode: "control".to_string(),
        machine_role: "server".to_string(),
        cluster_id: "cluster-test".to_string(),
        pair_secret: "secret-test".to_string(),
        paired_controllers: Vec::new(),
        transport_port: 47833,
        quic_port: 47834,
        modifier_remap: true,
        modifier_map: default_modifier_map(),
        screen_switch_hotkeys: ScreenSwitchHotkeys {
            left: String::new(),
            right: String::new(),
            up: String::new(),
            down: String::new(),
        },
    }
}

fn around(value: f64) -> Span {
    Span {
        floor: value.floor() as i64,
        ceil: value.ceil() as i64,
    }
}

fn motion(x: f64, y: f64, dx: f64, dy: f64) -> Motion {
    Motion {
        x: around(x),
        y: around(y),
        previous_x: around(x - dx),
        previous_y: around(y - dy),
        dx: around(dx),
        dy: around(dy),
        horizontal: dx.abs() >= dy.abs() * 0.5,
        vertical: dy.abs() >= dx.abs() * 0.5,
    }
}

fn mapped(target: &InputTarget, x: f64, y: f64) -> (f64, f64) {
    let native = &target.local_screen;
    let layout = &target.layout_local_screen;
    let ratio_x = (x - native.x as f64) / native.width.max(1) as f64;
    let ratio_y = (y - native.y as f64) / native.height.max(1) as f64;
    (
        layout.x as f64 + ratio_x * layout.width.max(1) as f64,
        layout.y as f64 + ratio_y * layout.height.max(1) as f64,
    )
}

fn sample(target: &InputTarget, x: f64, y: f64, dx: f64, dy: f64) -> CrossingMotion {
    let native = &target.local_screen;
    let layout = &target.layout_local_screen;
    let point = mapped(target, x, y);
    CrossingMotion {
        native: motion(x, y, dx, dy),
        mapped: motion(
            point.0,
            point.1,
            dx * layout.width.max(1) as f64 / native.width.max(1) as f64,
            dy * layout.height.max(1) as f64 / native.height.max(1) as f64,
        ),
    }
}

fn samples(targets: &[InputTarget], x: f64, y: f64, dx: f64, dy: f64) -> Vec<CrossingMotion> {
    targets
        .iter()
        .map(|target| sample(target, x, y, dx, dy))
        .collect()
}

fn crossing(target: &InputTarget, x: f64, y: f64, dx: f64, dy: f64) -> Option<(f64, f64)> {
    if crossing_layout_point(target, &sample(target, x, y, dx, dy)) {
        Some(mapped(target, x, y))
    } else {
        None
    }
}

/// The coordinate that a rule leads to.
fn place(rule: AxisPlace, value: f64, push: f64) -> f64 {
    match rule {
        AxisPlace::At(at) => at as f64 / 2.0,
        AxisPlace::Within { low, high } => value.clamp(low as f64 / 2.0, high as f64 / 2.0),
        AxisPlace::Forward { base, low, high } => {
            (base as f64 / 2.0 + push.max(0.0)).clamp(low as f64 / 2.0, high as f64 / 2.0)
        }
        AxisPlace::Backward { base, low, high } => {
            (base as f64 / 2.0 + push.min(0.0)).clamp(low as f64 / 2.0, high as f64 / 2.0)
        }
    }
}

/// The control of a machine with the pointer at a point of its screen.
struct Pointer {
    active: ActiveTarget,
    x: f64,
    y: f64,
}

fn crossing_target(
    targets: &[InputTarget],
    x: f64,
    y: f64,
    dx: f64,
    dy: f64,
    layout: &LayoutState,
) -> Option<Pointer> {
    let motions = samples(targets, x, y, dx, dy);
    crossing_target_with_transform(targets, &motions, false, Some(layout)).map(|(index, active)| {
        let target = &targets[index];
        let point = mapped(target, x, y);
        let entry = place_entry(target);
        let push = motions[index];
        let scaled = |delta: f64, to: i32, from: i32| delta * to.max(1) as f64 / from.max(1) as f64;
        assert_eq!(push.native, motion(x, y, dx, dy));
        Pointer {
            x: place(
                entry.x,
                point.0 - target.remote_screen.x as f64,
                scaled(dx, target.layout_local_screen.width, target.local_screen.width),
            ),
            y: place(
                entry.y,
                point.1 - target.remote_screen.y as f64,
                scaled(dy, target.layout_local_screen.height, target.local_screen.height),
            ),
            active,
        }
    })
}

/// Moves the pointer by a movement that was already added to it. Says whether
/// control comes back.
fn moved(pointer: &mut Pointer, dx: i64, dy: i64, layout: Option<&LayoutState>) -> bool {
    let before = (pointer.active.current_screen.x, pointer.active.current_screen.y);
    let global = (before.0 as f64 + pointer.x, before.1 as f64 + pointer.y);
    let step = update_active_remote_screen(
        &mut pointer.active,
        around(pointer.x),
        around(pointer.y),
        around(global.0),
        around(global.1),
        dx,
        dy,
        layout,
    );
    let rule = match step {
        RemoteStep::Stay | RemoteStep::Outside => return false,
        RemoteStep::Roam => {
            pointer.x = global.0 - pointer.active.current_screen.x as f64;
            pointer.y = global.1 - pointer.active.current_screen.y as f64;
            return false;
        }
        RemoteStep::Hold => hold_on_screen(&pointer.active.current_screen),
        RemoteStep::Return => pin_active_to_entry_edge(
            pointer.active.target.edge,
            &pointer.active.current_screen,
        ),
    };
    pointer.x = place(rule.x, pointer.x, 0.0);
    pointer.y = place(rule.y, pointer.y, 0.0);
    step == RemoteStep::Return
}

fn return_point(pointer: &Pointer) -> (f64, f64) {
    let target = &pointer.active.target;
    let local = &target.local_screen;
    let layout_local = &target.layout_local_screen;
    let global_x = target.remote_screen.x as f64 + pointer.x;
    let global_y = target.remote_screen.y as f64 + pointer.y;
    let ratio_x = (global_x - layout_local.x as f64) / layout_local.width.max(1) as f64;
    let ratio_y = (global_y - layout_local.y as f64) / layout_local.height.max(1) as f64;
    let rule = local_return_point(target);
    (
        place(rule.x, local.x as f64 + ratio_x * local.width.max(1) as f64, 0.0),
        place(rule.y, local.y as f64 + ratio_y * local.height.max(1) as f64, 0.0),
    )
}

fn on_entry_screen(edge: Edge, x: f64, y: f64) -> Pointer {
    let entry = screen(
        "peer-device",
        "peer-device-local-display-1",
        1920,
        0,
        1920,
        1080,
    );
    let local = screen("local-device", "local-display-1", 0, 0, 1920, 1080);
    let mut current_screen = entry.clone();
    current_screen.id = "local-display-1".to_string();
    Pointer {
        active: ActiveTarget {
            target: target_with("local-display-1", local.clone(), local, entry, edge),
            current_screen,
            current_screen_id: "local-display-1".to_string(),
            invert_y: false,
        },
        x,
        y,
    }
}

#[test]
fn windows_remote_anchor_keeps_motion_headroom() {
    let pointer = crossing_target(
        &[target_for_coordinate_tests()],
        1919.0,
        500.0,
        40.0,
        0.0,
        &layout_for_target_tests(),
    )
    .expect("target should be active");

    assert_eq!(
        windows_remote_anchor_point(&pointer.active.target),
        local_center_point(&pointer.active.target)
    );
    assert_eq!(
        windows_remote_anchor_point(&pointer.active.target),
        HalfPoint { x: 1920, y: 1080 }
    );
}

#[test]
fn windows_delta_batch_stops_before_a_direction_reversal() {
    let outward = WindowsCapturedEvent::RemoteMouseDelta { dx: -4, dy: 0 };
    let inward = WindowsCapturedEvent::RemoteMouseDelta { dx: 4, dy: 0 };
    let mut batch = (0, 0);

    assert!(accumulate_windows_delta(&mut batch, &outward));
    assert!(!accumulate_windows_delta(&mut batch, &inward));
    assert_eq!(batch, (-4, 0));

    let layout = layout_for_target_tests();
    let mut pointer = crossing_target(
        &[target_for_coordinate_tests()],
        1919.0,
        500.0,
        40.0,
        0.0,
        &layout,
    )
    .expect("enter remote before reversing");
    pointer.x = 1.0;
    pointer.x += batch.0 as f64;
    assert!(
        moved(&mut pointer, batch.0, 0, Some(&layout)),
        "the outward segment must return before the later inward segment is processed"
    );
}

#[test]
fn windows_pending_moves_preserve_the_edge_approach_and_deduplicate_clamp_points() {
    let mut pending = WindowsPendingMouseMoves::default();
    let snapshot = |x| WindowsMouseMoveSnapshot {
        x,
        y: 500,
        modifier_bits: 0,
    };
    assert!(!pending.push(snapshot(1800)));
    assert!(!pending.push(snapshot(1919)));
    assert!(!pending.push(snapshot(1919)));
    assert_eq!(pending.snapshots.len(), 2);

    let layout = layout_for_target_tests();
    let targets = [target_for_coordinate_tests()];
    let mut previous = (500.0, 500.0);
    let mut crossed = None;
    for move_snapshot in pending.drain() {
        let point = (move_snapshot.x as f64, move_snapshot.y as f64);
        let dx = point.0 - previous.0;
        let dy = point.1 - previous.1;
        crossed = crossing_target(&targets, point.0, point.1, dx, dy, &layout);
        previous = point;
    }
    assert!(crossed.is_some());

    assert!(crossing_target(&targets, 1919.0, 500.0, 1419.0, 0.0, &layout).is_none());
}

#[test]
fn windows_pending_move_overflow_keeps_a_crossable_edge_trajectory() {
    let mut pending = WindowsPendingMouseMoves::default();
    for index in 0..64 {
        let _ = pending.push(WindowsMouseMoveSnapshot {
            x: 1604 + index * 5,
            y: 500,
            modifier_bits: 0,
        });
    }
    for _ in 0..100 {
        let _ = pending.push(WindowsMouseMoveSnapshot {
            x: 1919,
            y: 500,
            modifier_bits: 0,
        });
    }
    assert_eq!(pending.snapshots.len(), PENDING_MOVES_CAPACITY);

    let layout = layout_for_target_tests();
    let targets = [target_for_coordinate_tests()];
    let mut previous = (500.0, 500.0);
    let crossed = pending.drain().into_iter().find_map(|snapshot| {
        let point = (snapshot.x as f64, snapshot.y as f64);
        let dx = point.0 - previous.0;
        let dy = point.1 - previous.1;
        previous = point;
        crossing_target(&targets, point.0, point.1, dx, dy, &layout)
    });

    assert!(
        crossed.is_some(),
        "overflow must retain enough distinct approach points to reach the shared edge"
    );
}

#[test]
fn repeated_windows_clamp_confirms_a_rejected_single_flick() {
    let layout = layout_for_target_tests();
    let targets = [target_for_coordinate_tests()];
    let repeated = |x: f64, y: f64| {
        let probes: Vec<Vec<CrossingMotion>> = clamped_probes()
            .into_iter()
            .map(|(dx, dy)| samples(&targets, x, y, dx as f64, dy as f64))
            .collect();
        repeated_clamped_windows_crossing_target(&targets, &probes, Some(&layout))
    };

    assert!(
        crossing_target(&targets, 1919.0, 500.0, 1419.0, 0.0, &layout).is_none(),
        "one middle-to-edge jump remains rejected"
    );
    assert!(
        repeated(1919.0, 500.0).is_some_and(|(probe, index, _)| probe == 0 && index == 0),
        "a second identical low-level edge event confirms continued outward intent"
    );
    assert!(
        repeated(1900.0, 500.0).is_none(),
        "the confirmation applies only at a configured shared edge"
    );
}

#[test]
fn windows_center_anchor_and_return_inset_prevent_handoff_flip_flop() {
    let layout = layout_for_target_tests();
    let targets = [target_for_coordinate_tests()];
    let mut pointer =
        crossing_target(&targets, 1919.0, 500.0, 40.0, 0.0, &layout).expect("enter remote");
    let anchor = windows_remote_anchor_point(&pointer.active.target);
    let anchor = (anchor.x as f64 / 2.0, anchor.y as f64 / 2.0);

    let stale_dx = 1919.0 - anchor.0;
    let stale_dy = 500.0 - anchor.1;
    pointer.x += stale_dx;
    pointer.y += stale_dy;
    assert!(!moved(
        &mut pointer,
        stale_dx as i64,
        stale_dy as i64,
        Some(&layout)
    ));

    pointer.x = 1.0;
    pointer.y = 500.0;
    pointer.x -= 2.0;
    assert!(moved(&mut pointer, -2, 0, Some(&layout)));
    let returned = return_point(&pointer);
    assert!(crossing_target(&targets, returned.0, returned.1, 0.0, 0.0, &layout).is_none());
    assert!(
        crossing_target(&targets, returned.0 - 10.0, returned.1, -10.0, 0.0, &layout).is_none()
    );
}

#[test]
fn cursor_roams_across_remote_device_screens() {
    let mut layout = layout_for_target_tests();
    layout.devices.retain(|device| device.id != "peer-device");
    layout.devices.push(device(
        "peer-device",
        "client",
        "windows",
        "10.0.0.2",
        vec![
            screen("peer-device", "peer-device-scr-1", 1920, 0, 1920, 1080),
            screen("peer-device", "peer-device-scr-2", 1920, 1080, 1920, 1080),
        ],
    ));

    let entry = screen("peer-device", "peer-device-scr-1", 1920, 0, 1920, 1080);
    let local = screen("local-device", "local-display-1", 0, 0, 1920, 1080);
    let mut current_screen = entry.clone();
    current_screen.id = "scr-1".to_string();
    let mut pointer = Pointer {
        active: ActiveTarget {
            target: target_with("scr-1", local.clone(), local, entry, Edge::Right),
            current_screen,
            current_screen_id: "scr-1".to_string(),
            invert_y: false,
        },
        x: 100.0,
        y: 1079.0,
    };

    pointer.y += 5.0;
    let returned = moved(&mut pointer, 0, 5, Some(&layout));
    assert!(
        !returned,
        "crossing onto a sibling screen must not return to local"
    );
    assert_eq!(pointer.active.current_screen_id, "scr-2");
    assert!((0.0..1080.0).contains(&pointer.y));
    assert_eq!(pointer.x, 100.0);

    pointer.y -= 6.0;
    let returned = moved(&mut pointer, 0, -6, Some(&layout));
    assert!(!returned);
    assert_eq!(pointer.active.current_screen_id, "scr-1");
}

#[test]
fn cursor_returns_to_local_only_from_entry_edge() {
    let layout = layout_for_target_tests();
    let mut pointer = on_entry_screen(Edge::Right, 0.0, 500.0);

    pointer.x -= 2.0;
    assert!(moved(&mut pointer, -2, 0, Some(&layout)));

    let mut pointer = on_entry_screen(Edge::Right, 500.0, -3.0);
    assert!(!moved(&mut pointer, 0, -3, Some(&layout)));
}

#[test]
fn tangential_edge_motion_does_not_return_to_local() {
    let entry = screen(
        "peer-device",
        "peer-device-local-display-1",
        1920,
        0,
        1920,
        1080,
    );
    let exits = |x: f64, dx, dy| {
        exited_entry_edge(Edge::Right, &entry, around(x), around(512.0), dx, dy)
    };

    assert!(
        !exits(-1.0, -1, 12),
        "a mostly vertical slide at the shared edge is not return intent"
    );
    assert!(!exits(-2.0, -2, 3));
    assert!(exits(-2.0, -2, 1));
    assert!(exits(-1.0, -1, 0));
}

#[test]
fn initial_anchor_warp_delta_does_not_return_to_local() {
    let layout = layout_for_target_tests();
    let dx = -8;
    let dy = 0;

    let mut unguarded = on_entry_screen(Edge::Right, 1.0, 500.0);
    unguarded.x += dx as f64;
    assert!(
        moved(&mut unguarded, dx, dy, Some(&layout)),
        "without the initial warp guard, the anchor warp delta is mistaken for returning"
    );

    let mut guarded = on_entry_screen(Edge::Right, 1.0, 500.0);
    let returned =
        if should_ignore_initial_anchor_warp_delta(guarded.active.target.edge, dx, dy) {
            false
        } else {
            guarded.x += dx as f64;
            moved(&mut guarded, dx, dy, Some(&layout))
        };

    assert!(!returned);
    assert_eq!(guarded.x, 1.0);
}

#[test]
fn screen_switch_request_enters_remote_at_screen_center() {
    let layout = layout_for_target_tests();

    match request_screen_switch(SwitchDirection::Right, Some(&layout), &layout, false) {
        SwitchOutcome::Enter { target, point } => {
            assert_eq!(target.device_id, "peer-device");
            assert_eq!(point.x as f64 / 2.0, 960.0);
            assert_eq!(point.y as f64 / 2.0, 540.0);
        }
        _ => panic!("expected right quick switch to enter the online client"),
    }
}

#[test]
fn a_switch_enters_the_first_machine_in_its_direction() {
    let mut layout = layout_for_target_tests();
    layout.devices[0]
        .screens
        .push(screen("local-device", "local-display-2", 0, 5000, 1920, 1080));
    layout.devices[0].screens[0].is_primary = false;
    layout.devices[0].screens[1].is_primary = true;
    layout.devices[1].screens.push(screen(
        "peer-device",
        "peer-device-local-display-2",
        1920,
        5000,
        1920,
        1080,
    ));
    assert_eq!(build_input_targets(&layout, &layout).len(), 2);
    match request_screen_switch(SwitchDirection::Right, Some(&layout), &layout, false) {
        SwitchOutcome::Enter { target, .. } => {
            assert_eq!(target.layout_local_screen.id, "local-display-1");
            assert_eq!(target.screen_id, "local-display-1");
        }
        _ => panic!("expected the switch to enter the first machine to the right"),
    }
    assert!(matches!(
        request_screen_switch(SwitchDirection::Left, Some(&layout), &layout, false),
        SwitchOutcome::Noop
    ));
}

#[test]
fn screen_switch_request_moves_between_local_screens() {
    let mut layout = layout_for_target_tests();
    layout.devices[0].screens.push(screen(
        "local-device",
        "local-display-2",
        512,
        1080,
        1512,
        982,
    ));
    let cell = |x: f64, y: f64| {
        Some(PointCell {
            floor_x: x.floor() as i64,
            ceil_x: x.ceil() as i64,
            floor_y: y.floor() as i64,
            ceil_y: y.ceil() as i64,
        })
    };

    match request_screen_switch_from_point(
        SwitchDirection::Down,
        Some(&layout),
        &layout,
        false,
        cell(960.0, 540.0),
    ) {
        SwitchOutcome::LocalMove(jump) => {
            assert_eq!(jump.from_screen_id, "local-display-1");
            assert_eq!(jump.to_screen_id, "local-display-2");
            assert_eq!(jump.point.x as f64 / 2.0, 1268.0);
            assert_eq!(jump.point.y as f64 / 2.0, 1571.0);
        }
        _ => panic!("expected down quick switch to move to the lower local screen"),
    }

    match request_screen_switch_from_point(
        SwitchDirection::Up,
        Some(&layout),
        &layout,
        false,
        cell(1268.0, 1571.0),
    ) {
        SwitchOutcome::LocalMove(jump) => {
            assert_eq!(jump.from_screen_id, "local-display-2");
            assert_eq!(jump.to_screen_id, "local-display-1");
            assert_eq!(jump.point.x as f64 / 2.0, 960.0);
            assert_eq!(jump.point.y as f64 / 2.0, 540.0);
        }
        _ => panic!("expected up quick switch to move back to the upper local screen"),
    }
}

#[test]
fn a_switch_request_is_taken_once() {
    let layout = layout_for_target_tests();
    let mut request = Some(SwitchDirection::Left);
    assert_eq!(
        drain_switch_request(&mut request, Some(&layout), &layout, true, None),
        Some(SwitchOutcome::Return)
    );
    assert_eq!(
        drain_switch_request(&mut request, Some(&layout), &layout, true, None),
        None
    );
    let mut request = Some(SwitchDirection::Left);
    assert_eq!(
        drain_switch_request(&mut request, Some(&layout), &layout, false, None),
        Some(SwitchOutcome::Noop)
    );
    let mut request = Some(SwitchDirection::Right);
    assert_eq!(
        drain_switch_request(&mut request, None, &layout, false, None),
        Some(SwitchOutcome::Noop)
    );
}

#[test]
fn local_screen_switch_remembers_points_by_screen_id() {
    let mut points: OriginMap<(f64, f64)> = OriginMap::new();

    let first_target = remembered_local_screen_point(
        &mut points,
        "local-display-1",
        "local-display-2",
        Some((333.0, 444.0)),
        (1268.0, 1571.0),
    );
    assert_eq!(first_target, (1268.0, 1571.0));

    let return_target = remembered_local_screen_point(
        &mut points,
        "local-display-2",
        "local-display-1",
        Some((1200.0, 1500.0)),
        (960.0, 540.0),
    );
    assert_eq!(return_target, (333.0, 444.0));

    assert_eq!(points.get("local-display-1"), Some(&(333.0, 444.0)));
    assert_eq!(points.get("local-display-2"), Some(&(1200.0, 1500.0)));
}

#[test]
fn hotkey_return_uses_recorded_point_then_edge_mapped_point() {
    let pointer = crossing_target(
        &[target_for_coordinate_tests()],
        1919.0,
        500.0,
        40.0,
        0.0,
        &layout_for_target_tests(),
    )
    .expect("target should be active");

    assert_eq!(
        local_hotkey_return_point(Some((321.0, 654.0)), return_point(&pointer)),
        (321.0, 654.0)
    );
    assert_eq!(
        local_hotkey_return_point(None, return_point(&pointer)),
        return_point(&pointer)
    );
    assert_eq!(return_point(&pointer).0, 1915.0);
}

#[test]
fn fast_return_pins_remote_cursor_to_entry_edge() {
    let layout = layout_for_target_tests();

    for (edge, x, y, dx, dy, expected_x, expected_y) in [
        (Edge::Right, 240.0, 400.0, -260, 18, 0.0, 418.0),
        (Edge::Left, 1680.0, 400.0, 260, 18, 1919.0, 418.0),
        (Edge::Bottom, 500.0, 260.0, 16, -300, 516.0, 0.0),
        (Edge::Top, 500.0, 820.0, 16, 300, 516.0, 1079.0),
    ] {
        let mut pointer = on_entry_screen(edge, x + dx as f64, y + dy as f64);
        assert!(moved(&mut pointer, dx, dy, Some(&layout)));
        assert_eq!(pointer.x, expected_x);
        assert_eq!(pointer.y, expected_y);
    }
}

#[test]
fn return_points_lie_inside_every_edge() {
    let local = screen("local-device", "local-display-1", 100, 200, 1920, 1080);
    let remote = screen("peer-device", "peer-device-scr-1", 0, 0, 800, 600);
    let rule = |edge| {
        local_return_point(&target_with(
            "scr-1",
            local.clone(),
            local.clone(),
            remote.clone(),
            edge,
        ))
    };
    let rows = AxisPlace::Within {
        low: 400,
        high: 2558,
    };
    let columns = AxisPlace::Within {
        low: 200,
        high: 4038,
    };
    assert_eq!(
        rule(Edge::Right),
        Placement {
            x: AxisPlace::At(4030),
            y: rows
        }
    );
    assert_eq!(
        rule(Edge::Left),
        Placement {
            x: AxisPlace::At(208),
            y: rows
        }
    );
    assert_eq!(
        rule(Edge::Bottom),
        Placement {
            x: columns,
            y: AxisPlace::At(2550)
        }
    );
    assert_eq!(
        rule(Edge::Top),
        Placement {
            x: columns,
            y: AxisPlace::At(408)
        }
    );
    let narrow = screen("local-device", "local-display-1", 0, 0, 4, 4);
    let target = target_with("scr-1", narrow.clone(), narrow, remote, Edge::Left);
    assert_eq!(local_return_point(&target).x, AxisPlace::At(3));
}

#[test]
fn a_mirrored_sample_differs_from_half_a_pixel_on() {
    assert!(!mirror_differs(around(0.0)));
    assert!(!mirror_differs(around(0.9)));
    assert!(!mirror_differs(around(-0.9)));
    assert!(mirror_differs(around(1.0)));
    assert!(mirror_differs(around(-1.0)));
}

#[test]
fn macos_layout_contention_defers_crossing_without_blocking() {
    let native_layout = layout_for_target_tests();

    assert!(try_current_input_targets(None, &native_layout).is_none());
    assert!(!target_is_online(&target_for_coordinate_tests(), None));
}

#[test]
fn layout_contention_clamps_remote_point_instead_of_faking_return() {
    let target = target_for_coordinate_tests();
    let mut pointer = Pointer {
        active: ActiveTarget {
            current_screen: target.remote_screen.clone(),
            current_screen_id: target.screen_id.clone(),
            target,
            invert_y: false,
        },
        x: -20.0,
        y: 400.0,
    };

    assert!(!moved(&mut pointer, -20, 0, None));
    assert_eq!(pointer.x, 0.0);
    assert_eq!(pointer.y, 400.0);
}

#[test]
fn control_clipboard_binding_uses_the_active_target_snapshot() {
    let target = target_for_coordinate_tests();
    let mut clipboard = ClipboardBinding::default();

    set_control_clipboard_target(&mut clipboard, &target);

    let bound = clipboard.target.expect("clipboard target");
    assert_eq!(bound.device_id, target.device_id);
    assert_eq!(bound.addr, target.target_addr);
    assert_eq!(bound.transport_public_key, target.transport_public_key);
    assert_eq!(bound.protocol_version, target.protocol_version);
    assert_eq!(bound.cluster_id, target.cluster_id);
    assert_eq!(bound.pair_secret, target.pair_secret);
}

#[test]
fn crossing_accepts_native_screen_coordinates() {
    let target = target_for_coordinate_tests();

    let mapped =
        crossing(&target, 1919.0, 500.0, 5.0, 0.0).expect("native edge should cross");

    assert!(mapped.0 > -9404.0);
    assert!(mapped.0 <= -9400.0);
}

#[test]
fn fast_crossing_carries_entry_delta_into_remote() {
    let pointer = crossing_target(
        &[target_for_coordinate_tests()],
        1919.0,
        500.0,
        40.0,
        0.0,
        &layout_for_target_tests(),
    )
    .expect("fast edge movement should cross");

    assert!(
        pointer.x > 1.0,
        "dropping the crossing delta makes the cursor feel stuck at the edge"
    );
}

#[test]
fn crossing_rejects_raw_layout_coordinates() {
    let target = target_for_coordinate_tests();

    assert!(crossing(&target, -9401.0, -8500.0, 5.0, 0.0).is_none());
}

fn scaled_target() -> InputTarget {
    target_with(
        "local-display-1",
        screen("local-device", "local-display-1", 0, 0, 3840, 2160),
        screen("local-device", "local-display-1", 0, 0, 1920, 1080),
        screen(
            "peer-device",
            "peer-device-local-display-1",
            1920,
            0,
            1728,
            1117,
        ),
        Edge::Right,
    )
}

#[test]
fn crossing_uses_native_edge_before_mapping_to_layout() {
    let target = scaled_target();

    assert!(crossing(&target, 1918.0, 600.0, 5.0, 0.0).is_none());

    let mapped =
        crossing(&target, 3839.0, 1200.0, 5.0, 0.0).expect("native edge should cross");

    assert!(mapped.0 > 1916.0);
    assert!(mapped.0 <= 1920.0);
}

#[test]
fn crossing_rejects_fast_jump_from_middle() {
    assert!(crossing(&scaled_target(), 3838.0, 1200.0, 900.0, 0.0).is_none());
}

#[test]
fn every_edge_is_crossed_outward_only() {
    let local = screen("local-device", "local-display-1", 0, 0, 1920, 1080);
    let remote = screen("peer-device", "peer-device-scr-1", 1920, 0, 1920, 1080);
    let crosses = |edge, x: f64, y: f64, dx: f64, dy: f64| {
        let target = target_with("scr-1", local.clone(), local.clone(), remote.clone(), edge);
        crossing(&target, x, y, dx, dy).is_some()
    };
    assert!(crosses(Edge::Left, 1.0, 500.0, -3.0, 0.0));
    assert!(!crosses(Edge::Left, 1.0, 500.0, 3.0, 0.0));
    assert!(crosses(Edge::Top, 500.0, 0.5, 0.0, -2.0));
    assert!(!crosses(Edge::Top, 500.0, 1.5, 0.0, -2.0));
    assert!(crosses(Edge::Bottom, 500.0, 1079.0, 1.0, 2.0));
    assert!(!crosses(Edge::Bottom, 500.0, 1079.0, 9.0, 2.0));
}

#[test]
fn a_mirrored_macos_sample_enters_with_a_turned_axis() {
    let local = screen("local-device", "local-display-1", 0, 0, 1920, 1080);
    let remote = screen("peer-device", "peer-device-local-display-1", 0, -1080, 1920, 1080);
    let targets = [target_with("scr-1", local.clone(), local, remote, Edge::Top)];
    let layout = layout_for_target_tests();
    assert_eq!(local_y_bounds(&targets), Some((0, 1080)));
    let plain = samples(&targets, 500.0, 1080.0, 0.0, 5.0);
    let mirrored = samples(&targets, 500.0, 0.0, 0.0, -5.0);
    let (index, active) =
        mac_crossing_target(&targets, &plain, Some(mirrored.as_slice()), Some(&layout))
            .expect("the mirrored sample crosses");
    assert_eq!(index, 0);
    assert!(active.invert_y);
    assert!(mac_crossing_target(&targets, &plain, None, Some(&layout)).is_none());
    assert!(
        mac_crossing_target(&targets, &plain, Some(mirrored.as_slice()), None).is_none(),
        "an unreadable layout blocks the crossing"
    );
}

#[test]
fn transient_input_send_failure_does_not_override_discovery_online_state() {
    let layout = layout_for_target_tests();
    let target = target_for_coordinate_tests();
    let transport = LocalTransport {
        port: 47834,
        public_key: "own-key".to_string(),
    };
    let mut keys = SequenceCounter { next: 1 };

    assert!(target_is_online(&target, Some(&layout)));
    let outgoing = send_packet_with_options(
        &target,
        InputEvent::Scroll {
            delta_x: 0,
            delta_y: 1,
            sequence: 1,
        },
        None,
        false,
        Some(&layout),
        Platform::MacOs,
        "macos",
        &transport,
        &mut keys,
    );
    assert!(outgoing.is_some(), "the transport refuses what was composed");
    assert!(target_is_online(&target, Some(&layout)));
}

#[test]
fn input_targets_use_peer_quic_port() {
    let layout = layout_for_target_tests();
    let targets = build_input_targets(&layout, &layout);

    assert_eq!(targets.len(), 1);
    assert_eq!(targets[0].target_addr, "10.0.0.2:52001");
}

#[test]
fn input_targets_cache_pairing_context_for_hot_path() {
    let layout = layout_for_target_tests();
    let targets = build_input_targets(&layout, &layout);

    assert_eq!(targets.len(), 1);
    assert_eq!(targets[0].origin_device_id, layout.local_peer_id);
    assert_eq!(targets[0].cluster_id, "cluster-test");
    assert_eq!(targets[0].pair_secret, "secret-test");
}

#[test]
fn input_targets_require_peer_input_ready() {
    let mut layout = layout_for_target_tests();
    layout.devices[1].input_ready = false;

    let targets = build_input_targets(&layout, &layout);

    assert!(targets.is_empty());
}

#[test]
fn input_targets_ignore_overlapping_remote_screens() {
    let mut layout = layout_for_target_tests();
    layout.devices[1].screens[0].x = 1860;

    let targets = build_input_targets(&layout, &layout);

    assert!(targets.is_empty());
}

#[test]
fn remote_screens_carry_the_ids_of_their_machine() {
    let layout = layout_for_target_tests();
    let screens = remote_device_screens(&layout, "peer-device");
    assert_eq!(screens.len(), 1);
    assert_eq!(screens[0].id, "local-display-1");
    assert!(remote_device_screens(&layout, "nobody").is_empty());
}

#[test]
fn held_input_is_released_before_the_park() {
    let mut session = ControlSession::new(SequenceCounter { next: 10 });
    session.buttons = LEFT_BUTTON_MASK;
    track_forwarded_key(&mut session.forwarded_keys, 0x41, true);
    track_forwarded_key(&mut session.forwarded_keys, 0x41, true);
    track_forwarded_key(&mut session.forwarded_keys, 0x42, true);
    track_forwarded_key(&mut session.forwarded_keys, 0x42, false);
    let active = on_entry_screen(Edge::Right, 0.0, 0.0).active;
    let events = release_held_remote_inputs(&mut session, &active, &[0x11]);
    assert_eq!(events.len(), 4);
    assert_eq!(
        events[1],
        InputEvent::Key {
            key_code: 0x41,
            down: false
        }
    );
    assert_eq!(
        events[2],
        InputEvent::MouseButton {
            button: MouseButton::Left,
            down: false,
            screen_id: String::new(),
            x: None,
            y: None,
            sequence: 10,
        }
    );
    assert_eq!(
        events[3],
        InputEvent::CursorPark {
            screen_id: "local-display-1".to_string(),
            x: 1855,
            y: 1015,
            sequence: 11,
        }
    );
    let mut sequences = SequenceCounter { next: 1 };
    let mut small = on_entry_screen(Edge::Right, 0.0, 0.0).active;
    small.current_screen.width = 100;
    small.current_screen.height = 0;
    assert!(matches!(
        send_remote_cursor_park(&small, &mut sequences),
        InputEvent::CursorPark { x: 50, y: 0, .. }
    ));
    small.current_screen.width = 2;
    small.current_screen.height = 3;
    assert!(
        matches!(
            send_remote_cursor_park(&small, &mut sequences),
            InputEvent::CursorPark { x: 0, y: 1, .. }
        ),
        "the last pixel is left alone"
    );
}

#[test]
fn heartbeats_and_moves_are_paced() {
    let mut session = ControlSession::new(SequenceCounter { next: 1 });
    assert!(send_remote_input_heartbeat(&mut session, (0, 0), 0).is_none());
    session.active = Some(on_entry_screen(Edge::Right, 0.0, 0.0).active);
    assert!(send_remote_input_heartbeat(&mut session, (1, 2), 0).is_some());
    assert!(send_remote_input_heartbeat(&mut session, (1, 2), 999_999_999).is_none());
    assert!(send_remote_input_heartbeat(&mut session, (1, 2), 1_000_000_000).is_some());

    let mut last = None;
    assert!(should_send_mouse_move(&mut last, false, 0));
    assert!(!should_send_mouse_move(&mut last, true, 3_999_999));
    assert!(should_send_mouse_move(&mut last, true, 4_000_000));
}

#[test]
fn only_the_controlled_peer_is_asked_after() {
    let active = on_entry_screen(Edge::Right, 0.0, 0.0).active;
    assert!(active_target_input_failed(Some(&active), |peer| {
        peer.addr == "10.0.0.2:47833" && peer.public_key == "test-public-key"
    }));
    assert!(!active_target_input_failed(None, |_| true));
}
