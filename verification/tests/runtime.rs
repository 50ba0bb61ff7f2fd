use mykvm::clipboard_target::{ClipboardBinding, ClipboardTarget};
use mykvm::control::ControlSession;
use mykvm::layout::{
    default_modifier_map, Device, LayoutState, NativeRect, Platform, Screen, ScreenSwitchHotkeys,
    PROTOCOL_VERSION,
};
use mykvm::macos_capture::MacCapture;
use mykvm::macos_inject::{MacClickTracker, MacInjectedKeyState, MacKeyAction};
use mykvm::packets::SequenceCounter;
use mykvm::runtime::{
    capture_start_status, hook_watchdog_due, inject_input_command, modifier_snapshot_due,
    reconcile_non_key_injected_modifier_snapshot, release_active_remote_control,
    reset_injected_keys, reset_injected_modifiers, set_macos_app_nap_suppressed,
    start_input_runtime, start_pump_timers, CaptureContext, CaptureReady, CaptureStart, Injection,
    InjectionPlan, NapStep, NativeInjection, ReleasedControl, WindowsCapture,
    HOOK_WATCHDOG_INTERVAL, MODIFIER_SNAPSHOT_INTERVAL,
};
use mykvm::shared_input::{InputCommand, MouseButton, CONTROL_MODIFIER_MASK};
use mykvm::status::{
    input_receive_status, input_runtime_status, no_target_status, receive_only_status,
    stopped_capture_status, stopped_inject_status, unsupported_capture_status, MacPermissions,
    StageReport,
};
use mykvm::windows_hooks::WindowsAnchor;
use mykvm::windows_inject::{
    RouteAction, WindowsInjectedKeyState, WindowsInjection, WindowsInputRoute,
    WindowsInputRouteState,
};

const GRANTED: MacPermissions = MacPermissions {
    accessibility_trusted: true,
    secure_input_enabled: false,
};

fn screen(device_id: &str, id: &str, x: i32, y: i32, width: i32, height: i32) -> Screen {
    Screen {
        id: id.to_string(),
        device_id: device_id.to_string(),
        name: id.to_string(),
        x,
        y,
        width,
        height,
        native: NativeRect {
            x,
            y,
            width,
            height,
        },
        is_primary: true,
    }
}

fn device(id: &str, role: &str, platform: &str, host: &str, screens: Vec<Screen>) -> Device {
    Device {
        id: id.to_string(),
        name: id.to_string(),
        platform: platform.to_string(),
        host: host.to_string(),
        transport_port: 52000,
        quic_port: 52001,
        transport_public_key: "peer-public-key".to_string(),
        protocol_version: PROTOCOL_VERSION,
        online: true,
        input_ready: true,
        role: role.to_string(),
        screens,
        modifier_remap: None,
        modifier_map: None,
    }
}

fn layout_for_target_tests() -> LayoutState {
    LayoutState {
        devices: vec![
            device(
                "local-device",
                "local",
                "macos",
                "192.168.66.92",
                vec![screen("local-device", "local-display-1", 0, 0, 1920, 1080)],
            ),
            device(
                "peer-device",
                "client",
                "windows",
                "10.0.0.2",
                vec![screen(
                    "peer-device",
                    "peer-device-local-display-1",
                    1920,
                    0,
                    1920,
                    1080,
                )],
            ),
        ],
        local_peer_id: "peer-local-192-168-66-92".to_string(),
        input_mode: "control".to_string(),
        machine_role: "server".to_string(),
        cluster_id: "cluster-test".to_string(),
        pair_secret: "secret-test".to_string(),
        paired_controllers: Vec::new(),
        transport_port: 47833,
        quic_port: 47834,
        modifier_remap: true,
        modifier_map: default_modifier_map(),
        screen_switch_hotkeys: ScreenSwitchHotkeys {
            left: String::new(),
            right: String::new(),
            up: String::new(),
            down: String::new(),
        },
    }
}

fn binding() -> ClipboardBinding {
    ClipboardBinding {
        target: Some(ClipboardTarget {
            device_id: "peer-device".to_string(),
            addr: "10.0.0.2:52001".to_string(),
            transport_public_key: "peer-public-key".to_string(),
            protocol_version: PROTOCOL_VERSION,
            cluster_id: "cluster-test".to_string(),
            pair_secret: "secret-test".to_string(),
            push_on_bind: true,
            expires_at: None,
        }),
        generation: 4,
    }
}

#[test]
fn capture_starts_with_the_ways_off_this_machine() {
    let layout = layout_for_target_tests();
    let mut remote_active = true;
    let mut clipboard = binding();
    let (start, inject) = start_input_runtime(
        &layout,
        &layout,
        Platform::Windows,
        GRANTED,
        &mut remote_active,
        &mut clipboard,
    );
    match start {
        CaptureStart::Capture(targets) => {
            assert_eq!(targets.len(), 1);
            assert_eq!(targets[0].device_id, "peer-device");
        }
        _ => panic!("capture should start"),
    }
    match inject {
        StageReport::Status(status) => {
            assert_eq!(status.state, "ready");
            assert_eq!(
                status.detail,
                "Receiving shared input on QUIC datagrams at UDP 47834."
            );
        }
        _ => panic!("Windows reports for itself"),
    }
    assert!(remote_active);
    assert!(clipboard.target.is_some());
}

#[test]
fn without_capture_nothing_is_controlled() {
    let mut layout = layout_for_target_tests();
    let mut remote_active = true;
    let mut clipboard = binding();
    let (start, _) = start_input_runtime(
        &layout,
        &layout,
        Platform::Other,
        GRANTED,
        &mut remote_active,
        &mut clipboard,
    );
    assert_eq!(start, CaptureStart::Unsupported(unsupported_capture_status()));
    assert!(!remote_active);
    assert!(clipboard.target.is_none());

    layout.input_mode = "receive".to_string();
    let mut remote_active = true;
    let mut clipboard = binding();
    let (start, inject) = start_input_runtime(
        &layout,
        &layout,
        Platform::Linux,
        GRANTED,
        &mut remote_active,
        &mut clipboard,
    );
    assert_eq!(start, CaptureStart::ReceiveOnly(receive_only_status()));
    assert_eq!(inject, StageReport::LinuxReceive { port: 47834 });
    assert!(!remote_active);
    assert!(clipboard.target.is_none());
}

#[test]
fn the_start_of_capture_is_told() {
    let ready = capture_start_status(Platform::MacOs, CaptureReady::Ready, 12);
    assert_eq!(ready.state, "ready");
    assert_eq!(
        ready.detail,
        "控制端已就绪，12 条远端贴边可用于鼠标和键盘切换。"
    );
    let failed = capture_start_status(
        Platform::MacOs,
        CaptureReady::Failed("no tap".to_string()),
        12,
    );
    assert_eq!((failed.state.as_str(), failed.detail.as_str()), ("error", "no tap"));
    let late = |platform| capture_start_status(platform, CaptureReady::TimedOut, 1).detail;
    assert_eq!(
        late(Platform::Windows),
        "Windows input capture did not become ready."
    );
    assert_eq!(
        late(Platform::MacOs),
        "macOS input capture did not become ready."
    );
}

#[test]
fn every_stage_words_its_status() {
    assert_eq!(stopped_capture_status().detail, "Input sharing is stopped.");
    assert_eq!(stopped_inject_status().detail, "Input injection is stopped.");
    let mut layout = layout_for_target_tests();
    assert_eq!(
        no_target_status(&layout).detail,
        "控制模式已开启，且已有在线远端设备，但屏幕还没有和本机贴边。拖动远端显示器贴住本机边缘后才会生成切屏目标。"
    );
    let (capture, _) = input_runtime_status(&layout, &layout, Platform::Windows, GRANTED);
    match capture {
        StageReport::Status(status) => assert_eq!(
            status.detail,
            "控制端已就绪，1 条远端贴边可用于鼠标和键盘切换。"
        ),
        _ => panic!("Windows reports for itself"),
    }
    let (capture, _) = input_runtime_status(&layout, &layout, Platform::Linux, GRANTED);
    assert_eq!(capture, StageReport::LinuxCapture { target_count: 1 });
    layout.devices[1].online = false;
    assert_eq!(
        no_target_status(&layout).detail,
        "控制模式已开启，但远端设备都被标记为离线。把要控制的设备切回 online 后再启动运行时。"
    );
    layout.devices.remove(1);
    assert_eq!(
        no_target_status(&layout).detail,
        "控制模式已开启，但布局里还没有远端设备。先让对方电脑运行 mykvm，再在 LAN devices 里 Scan 并 Add。"
    );
    let state = |accessibility_trusted, secure_input_enabled, platform| {
        let permissions = MacPermissions {
            accessibility_trusted,
            secure_input_enabled,
        };
        match input_receive_status(&layout, platform, permissions) {
            StageReport::Status(status) => status.state,
            _ => panic!("a plain status"),
        }
    };
    assert_eq!(state(false, false, Platform::MacOs), "error");
    assert_eq!(state(true, true, Platform::MacOs), "error");
    assert_eq!(state(true, false, Platform::MacOs), "ready");
    assert_eq!(state(false, true, Platform::Windows), "ready");
}

#[test]
fn the_pump_keeps_its_intervals() {
    let mut timers = start_pump_timers(1_000);
    assert!(modifier_snapshot_due(&mut timers, 1_000));
    assert!(!modifier_snapshot_due(
        &mut timers,
        999 + MODIFIER_SNAPSHOT_INTERVAL
    ));
    assert!(modifier_snapshot_due(
        &mut timers,
        1_000 + MODIFIER_SNAPSHOT_INTERVAL
    ));
    assert!(!hook_watchdog_due(&mut timers, 999 + HOOK_WATCHDOG_INTERVAL));
    assert!(hook_watchdog_due(&mut timers, 1_000 + HOOK_WATCHDOG_INTERVAL));
}

#[test]
fn idle_control_is_released_without_events() {
    let anchor = WindowsAnchor {
        x: 5,
        y: 6,
        source_x: 7,
        source_y: 8,
        warp_cutoff: 9,
    };
    let mut context: CaptureContext<(i32, i32)> = CaptureContext::Windows(WindowsCapture {
        session: ControlSession::new(SequenceCounter { next: 1 }),
        anchor,
        last_point: Some((1, 2)),
    });
    let mut clipboard = binding();
    assert_eq!(
        release_active_remote_control(&mut context, &mut clipboard),
        ReleasedControl::Windows(None)
    );
    match context {
        CaptureContext::Windows(capture) => {
            assert_eq!(capture.last_point, None);
            assert_ne!(capture.anchor, anchor);
        }
        _ => panic!("the platform stays"),
    }
    assert!(clipboard.target.is_none());

    let mut capture = MacCapture::new(SequenceCounter { next: 1 });
    capture.cursor.hidden = true;
    capture.cursor.depth = 3;
    let mut context: CaptureContext<(i32, i32)> = CaptureContext::MacOs(capture);
    let mut clipboard = binding();
    assert_eq!(
        release_active_remote_control(&mut context, &mut clipboard),
        ReleasedControl::MacOs {
            returned: None,
            undo_hides: Some(3)
        }
    );
    assert!(clipboard.target.is_some());

    let mut context: CaptureContext<(i32, i32)> = CaptureContext::Idle;
    assert_eq!(
        release_active_remote_control(&mut context, &mut clipboard),
        ReleasedControl::Nothing
    );
}

#[test]
fn commands_come_to_native_calls() {
    let moved = InputCommand::MouseMove {
        x: 1,
        y: 2,
        drag_button: Some(MouseButton::Right),
    };
    let native = NativeInjection::MouseMove {
        x: 1,
        y: 2,
        drag_button: Some(MouseButton::Right),
    };
    assert_eq!(
        inject_input_command(Platform::MacOs, moved),
        [NativeInjection::RevealCursor, native]
    );
    assert_eq!(inject_input_command(Platform::Windows, moved), [native]);
    let park = InputCommand::CursorPark { x: 3, y: 4 };
    assert_eq!(
        inject_input_command(Platform::Linux, park),
        [NativeInjection::HideCursor { x: 3, y: 4 }]
    );
    assert_eq!(
        inject_input_command(Platform::Windows, park),
        [NativeInjection::MouseMove {
            x: 3,
            y: 4,
            drag_button: None
        }]
    );
    assert!(inject_input_command(Platform::Windows, InputCommand::ReleaseAll).is_empty());
}

fn mac_injection(keys: Vec<u16>) -> Injection {
    let mut clicks = MacClickTracker::default();
    clicks.event_count(MouseButton::Left, true, 1, 1, 0, 500_000_000);
    Injection::MacOs {
        keys: MacInjectedKeyState { pressed_keys: keys },
        clicks,
    }
}

fn windows_injection(keys: Vec<u16>) -> Injection {
    Injection::Windows(WindowsInjection {
        route: WindowsInputRouteState {
            current: Some(WindowsInputRoute::Local),
        },
        keys: WindowsInjectedKeyState { pressed_keys: keys },
    })
}

#[test]
fn a_reset_lets_go_of_every_key() {
    let mut injection = mac_injection(vec![0xA2, 0x41]);
    match reset_injected_keys(&mut injection) {
        InjectionPlan::MacOs(actions) => {
            assert_eq!(actions.len(), 2);
            assert!(actions
                .iter()
                .all(|action| matches!(action, MacKeyAction::Post { down: false, .. })));
        }
        _ => panic!("macOS releases its own keys"),
    }
    match injection {
        Injection::MacOs { keys, clicks } => {
            assert!(keys.pressed_keys.is_empty());
            assert!(clicks.last_down.is_some());
        }
        _ => panic!("the platform stays"),
    }

    let mut injection = mac_injection(vec![]);
    reset_injected_modifiers(&mut injection);
    match injection {
        Injection::MacOs { clicks, .. } => assert!(clicks.last_down.is_none()),
        _ => panic!("the platform stays"),
    }

    let mut injection = windows_injection(vec![0x41]);
    match reset_injected_modifiers(&mut injection) {
        InjectionPlan::Windows(actions) => assert_eq!(
            actions,
            [
                RouteAction::InjectLocal(InputCommand::ReleaseAll),
                RouteAction::NotifyHelper(InputCommand::ReleaseAll)
            ]
        ),
        _ => panic!("Windows releases both routes"),
    }
    match injection {
        Injection::Windows(windows) => {
            assert!(windows.keys.pressed_keys.is_empty());
            assert_eq!(windows.route.current, None);
        }
        _ => panic!("the platform stays"),
    }
    assert_eq!(
        reset_injected_keys(&mut Injection::Linux),
        InjectionPlan::Linux
    );
    assert_eq!(
        reset_injected_modifiers(&mut Injection::Other),
        InjectionPlan::Nothing
    );
}

#[test]
fn a_snapshot_repairs_the_injected_modifiers() {
    let mut injection = windows_injection(vec![0xA0]);
    assert_eq!(
        reconcile_non_key_injected_modifier_snapshot(&mut injection, Some(CONTROL_MODIFIER_MASK)),
        InjectionPlan::WindowsKeys(vec![(0xA0, false), (0x11, true)])
    );
    assert_eq!(
        reconcile_non_key_injected_modifier_snapshot(&mut injection, None),
        InjectionPlan::Nothing
    );
    let mut injection = mac_injection(vec![0xA0]);
    reconcile_non_key_injected_modifier_snapshot(&mut injection, Some(CONTROL_MODIFIER_MASK));
    match injection {
        Injection::MacOs { keys, .. } => assert_eq!(keys.pressed_keys(), [0xA2]),
        _ => panic!("the platform stays"),
    }
}

#[test]
fn one_activity_keeps_the_process_awake() {
    assert_eq!(set_macos_app_nap_suppressed(false, true), NapStep::Begin);
    assert_eq!(set_macos_app_nap_suppressed(true, true), NapStep::Unchanged);
    assert_eq!(set_macos_app_nap_suppressed(true, false), NapStep::End);
    assert_eq!(set_macos_app_nap_suppressed(false, false), NapStep::Unchanged);
}
