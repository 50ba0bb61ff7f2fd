//! The life of the input runtime: what is started for a layout, what is told of
//! it, how a command reaches the platform, and how everything is let go of.

use vstd::prelude::*;
use vstd::string::*;

use crate::clipboard_target::{
    clear_clipboard_target, cleared, cleared_if_bound, ClipboardBinding,
};
use crate::control::{
    ended_session, event_views, release_views, ControlSession, ControlView, EndedControl,
};
use crate::layout::{LayoutState, Platform};
use crate::macos_capture::{
    gives_back, hides_of, return_to_local_macos, returned_capture, MacCapture, MacReturn, MacView,
};
use crate::macos_cursor::{show_macos_cursor_if_needed, shown_cursor};
use crate::macos_inject::{
    inject_actions, keys_after_all, reconcile_macos_injected_modifier_snapshot,
    releases_in_reverse, MacClickTracker, MacInjectedKeyState, MacKeyAction,
};
use crate::packets::{report_due, take_report};
use crate::receiver::{input_command_reveals_parked_cursor, reveals_cursor};
use crate::shared_input::{snapshot_transitions, InputCommand, MouseButton};
use crate::status::{
    input_receive_status, receive_only_status, receive_only_view, receive_report,
    unsupported_capture_status, unsupported_view, MacPermissions, NativeStageStatus, StageReport,
    StatusView,
};
use crate::targets::{build_input_targets, input_targets, target_views, InputTarget};
use crate::text::{append_decimal, decimal, same_text};
use crate::windows_hooks::{no_anchor, WindowsAnchor};
use crate::windows_inject::{
    both_released, key_release_actions, reconcile_windows_injected_modifier_snapshot,
    release_windows_injected_inputs_both_routes, release_windows_injected_keys_both_routes,
    InjectionView, RouteAction, WindowsInjection,
};
use crate::windows_worker::{quiet_session, release_windows_remote_control};

verus! {

/// How often the message pump looks at the hooks.
pub const HOOK_WATCHDOG_INTERVAL: u64 = 1_000_000_000;

/// How often the message pump reads the modifiers.
pub const MODIFIER_SNAPSHOT_INTERVAL: u64 = 100_000_000;

/// What capture starts with.
#[derive(Debug, PartialEq, Eq)]
pub enum CaptureStart {
    /// This machine only receives.
    ReceiveOnly(NativeStageStatus),
    /// The platform has no capture.
    Unsupported(NativeStageStatus),
    /// Capture with these ways off this machine.
    Capture(Vec<InputTarget>),
}

/// Whether the runtime leaves the session and the clipboard alone because
/// capture takes them over.
pub open spec fn captures(layout: LayoutState, platform: Platform) -> bool {
    layout.input_mode@ != "receive"@ && platform != Platform::Other
}

/// Decides what the runtime starts. Without capture nothing is controlled and
/// the clipboard goes nowhere.
pub fn start_input_runtime(
    layout: &LayoutState,
    native_layout: &LayoutState,
    platform: Platform,
    permissions: MacPermissions,
    remote_active: &mut bool,
    clipboard: &mut ClipboardBinding,
) -> (started: (CaptureStart, StageReport))
    ensures
        started.1@ == receive_report(*layout, platform, permissions),
        if layout.input_mode@ == "receive"@ {
            started.0 matches CaptureStart::ReceiveOnly(status) && status@ == receive_only_view()
        } else if platform == Platform::Other {
            started.0 matches CaptureStart::Unsupported(status) && status@ == unsupported_view()
        } else {
            started.0 matches CaptureStart::Capture(targets) && target_views(targets@)
                == input_targets(*layout, *native_layout)
        },
        *final(remote_active) == (captures(*layout, platform) && *old(remote_active)),
        final(clipboard)@ == if captures(*layout, platform) {
            old(clipboard)@
        } else {
            cleared(old(clipboard)@)
        },
{
    let inject = input_receive_status(layout, platform, permissions);
    if same_text(layout.input_mode.as_str(), "receive") {
        *remote_active = false;
        clear_clipboard_target(clipboard);
        return (CaptureStart::ReceiveOnly(receive_only_status()), inject);
    }
    if platform == Platform::Other {
        *remote_active = false;
        clear_clipboard_target(clipboard);
        return (CaptureStart::Unsupported(unsupported_capture_status()), inject);
    }
    (CaptureStart::Capture(build_input_targets(layout, native_layout)), inject)
}

/// How the start of capture ended.
#[derive(Debug, PartialEq, Eq)]
pub enum CaptureReady {
    Ready,
    Failed(String),
    /// Nothing was heard of it in time.
    TimedOut,
}

/// What the user is told of the start of capture.
pub open spec fn started_view(platform: Platform, outcome: CaptureReady, count: nat) -> StatusView {
    match outcome {
        CaptureReady::Ready => StatusView {
            state: "ready"@,
            detail: "控制端已就绪，"@ + decimal(count)
                + " 条远端贴边可用于鼠标和键盘切换。"@,
        },
        CaptureReady::Failed(error) => StatusView { state: "error"@, detail: error@ },
        CaptureReady::TimedOut => StatusView {
            state: "error"@,
            detail: if platform == Platform::Windows {
                "Windows input capture did not become ready."@
            } else {
                "macOS input capture did not become ready."@
            },
        },
    }
}

/// Words the start of capture on macOS or Windows.
pub fn capture_start_status(platform: Platform, outcome: CaptureReady, target_count: usize) -> (result:
    NativeStageStatus)
    requires
        platform == Platform::MacOs || platform == Platform::Windows,
    ensures
        result@ == started_view(platform, outcome, target_count as nat),
{
    match outcome {
        CaptureReady::Ready => {
            let mut detail = "控制端已就绪，".to_owned();
            append_decimal(&mut detail, target_count as u64);
            detail.append(" 条远端贴边可用于鼠标和键盘切换。");
            NativeStageStatus { state: "ready".to_owned(), detail }
        },
        CaptureReady::Failed(error) => NativeStageStatus {
            state: "error".to_owned(),
            detail: error,
        },
        CaptureReady::TimedOut => NativeStageStatus {
            state: "error".to_owned(),
            detail: if platform == Platform::Windows {
                "Windows input capture did not become ready.".to_owned()
            } else {
                "macOS input capture did not become ready.".to_owned()
            },
        },
    }
}

/// When the message pump last looked at the hooks and at the modifiers.
#[derive(Debug, Clone, Copy, PartialEq, Eq, Structural)]
pub struct PumpTimers {
    pub watchdog: Option<u64>,
    pub modifiers: Option<u64>,
}

/// The timers of a pump that starts: the modifiers are read at once.
pub fn start_pump_timers(now: u64) -> (timers: PumpTimers)
    ensures
        timers == (PumpTimers { watchdog: Some(now), modifiers: None }),
{
    PumpTimers { watchdog: Some(now), modifiers: None }
}

/// Whether the hooks are due to be looked at.
pub fn hook_watchdog_due(timers: &mut PumpTimers, now: u64) -> (due: bool)
    ensures
        due == report_due(old(timers).watchdog, now, HOOK_WATCHDOG_INTERVAL),
        *final(timers) == (PumpTimers {
            watchdog: if due {
                Some(now)
            } else {
                old(timers).watchdog
            },
            ..*old(timers)
        }),
{
    take_report(&mut timers.watchdog, now, HOOK_WATCHDOG_INTERVAL)
}

/// Whether the modifiers are due to be read.
pub fn modifier_snapshot_due(timers: &mut PumpTimers, now: u64) -> (due: bool)
    ensures
        due == report_due(old(timers).modifiers, now, MODIFIER_SNAPSHOT_INTERVAL),
        *final(timers) == (PumpTimers {
            modifiers: if due {
                Some(now)
            } else {
                old(timers).modifiers
            },
            ..*old(timers)
        }),
{
    take_report(&mut timers.modifiers, now, MODIFIER_SNAPSHOT_INTERVAL)
}

/// What the capturing side of Windows knows of the machine that it controls.
#[derive(Debug, PartialEq, Eq)]
pub struct WindowsCapture {
    pub session: ControlSession,
    pub anchor: WindowsAnchor,
    pub last_point: Option<(i32, i32)>,
}

/// The capture that is running.
#[derive(Debug, PartialEq, Eq)]
pub enum CaptureContext<P> {
    MacOs(MacCapture<P>),
    Windows(WindowsCapture),
    /// The Linux backend keeps its own.
    Linux,
    Idle,
}

/// What a release of control comes to.
#[derive(Debug, PartialEq, Eq)]
pub enum ReleasedControl<P> {
    /// The events and the pointer of macOS; with nothing controlled, only the
    /// hides of the pointer to undo. The pointer follows the mouse again.
    MacOs { returned: Option<MacReturn<P>>, undo_hides: Option<u32> },
    Windows(Option<EndedControl>),
    /// The Linux backend releases.
    Linux,
    Nothing,
}

/// Gives back whatever control there is, while the transport is still there to
/// carry the releases.
pub fn release_active_remote_control<P: Copy>(
    context: &mut CaptureContext<P>,
    clipboard: &mut ClipboardBinding,
) -> (released: ReleasedControl<P>)
    ensures
        match *old(context) {
            CaptureContext::MacOs(before) => {
                &&& released matches ReleasedControl::MacOs { returned, undo_hides }
                &&& *final(context) matches CaptureContext::MacOs(after)
                &&& match before@.control.active {
                    Some(active) => {
                        &&& returned matches Some(returned) && gives_back(
                            returned,
                            before@,
                            active,
                            before@.hotkey_return_point,
                        )
                        &&& undo_hides is None
                        &&& after@ == (MacView {
                            hotkey_return_point: None,
                            ..returned_capture(before@)
                        })
                        &&& final(clipboard)@ == cleared_if_bound(
                            old(clipboard)@,
                            active.target.device_id@,
                        )
                    },
                    None => {
                        &&& returned is None
                        &&& undo_hides == hides_of(before@.cursor)
                        &&& after@ == (MacView {
                            control: ControlView { remote_active: false, ..before@.control },
                            cursor: shown_cursor(before@.cursor),
                            ..before@
                        })
                        &&& final(clipboard)@ == old(clipboard)@
                    },
                }
            },
            CaptureContext::Windows(before) => {
                &&& released matches ReleasedControl::Windows(ended)
                &&& *final(context) matches CaptureContext::Windows(after)
                &&& after.anchor == no_anchor()
                &&& after.last_point is None
                &&& match before.session@.active {
                    Some(active) => {
                        &&& ended matches Some(ended) && ended.active == active && event_views(
                            ended.events@,
                        ) == release_views(before.session@, active, Seq::empty())
                        &&& after.session@ == ended_session(before.session@)
                        &&& final(clipboard)@ == cleared_if_bound(
                            old(clipboard)@,
                            active.target.device_id@,
                        )
                    },
                    None => {
                        &&& ended is None
                        &&& after.session@ == quiet_session(before.session@)
                        &&& final(clipboard)@ == cleared(old(clipboard)@)
                    },
                }
            },
            CaptureContext::Linux => released is Linux && *final(context) == *old(context)
                && final(clipboard)@ == old(clipboard)@,
            CaptureContext::Idle => released is Nothing && *final(context) == *old(context)
                && final(clipboard)@ == old(clipboard)@,
        },
{
    match context {
        CaptureContext::MacOs(capture) => {
            let returned = return_to_local_macos(capture, clipboard);
            capture.session.remote_active = false;
            let undo_hides = show_macos_cursor_if_needed(&mut capture.cursor);
            ReleasedControl::MacOs { returned, undo_hides }
        },
        CaptureContext::Windows(capture) => {
            let ended = release_windows_remote_control(
                &mut capture.session,
                &mut capture.anchor,
                &mut capture.last_point,
                clipboard,
            );
            ReleasedControl::Windows(ended)
        },
        CaptureContext::Linux => ReleasedControl::Linux,
        CaptureContext::Idle => ReleasedControl::Nothing,
    }
}

/// One native call that a command comes to.
#[derive(Debug, Clone, Copy, PartialEq, Eq, Structural)]
pub enum NativeInjection {
    /// Show the pointer, if it was hidden when control left.
    RevealCursor,
    MouseMove { x: i32, y: i32, drag_button: Option<MouseButton> },
    MouseButton { button: MouseButton, down: bool, x: i32, y: i32 },
    Scroll { delta_x: i32, delta_y: i32 },
    Key { key_code: u16, down: bool },
    /// Hide the pointer where it is.
    HideCursor { x: i32, y: i32 },
}

/// Whether the platform can hide the pointer of a machine that control left.
pub open spec fn hides_cursor(platform: Platform) -> bool {
    platform == Platform::MacOs || platform == Platform::Linux
}

/// The call that carries the command itself.
pub open spec fn command_call(platform: Platform, command: InputCommand) -> Seq<NativeInjection> {
    match command {
        InputCommand::MouseMove { x, y, drag_button } => seq![
            NativeInjection::MouseMove { x, y, drag_button },
        ],
        InputCommand::MouseButton { button, down, x, y } => seq![
            NativeInjection::MouseButton { button, down, x, y },
        ],
        InputCommand::Scroll { delta_x, delta_y } => seq![
            NativeInjection::Scroll { delta_x, delta_y },
        ],
        InputCommand::Key { key_code, down } => seq![NativeInjection::Key { key_code, down }],
        InputCommand::CursorPark { x, y } => if hides_cursor(platform) {
            seq![NativeInjection::HideCursor { x, y }]
        } else {
            seq![NativeInjection::MouseMove { x, y, drag_button: None }]
        },
        InputCommand::ReleaseAll | InputCommand::SecureAttention => Seq::empty(),
    }
}

/// The native calls of a command. Where the pointer can be hidden, a command
/// that shows that control is here reveals it first: a click may overtake the
/// movement before it.
pub fn inject_input_command(platform: Platform, command: InputCommand) -> (calls: Vec<
    NativeInjection,
>)
    ensures
        calls@ == (if hides_cursor(platform) && reveals_cursor(command) {
            seq![NativeInjection::RevealCursor]
        } else {
            Seq::empty()
        }) + command_call(platform, command),
{
    let mut calls: Vec<NativeInjection> = Vec::new();
    let can_hide = platform == Platform::MacOs || platform == Platform::Linux;
    if can_hide && input_command_reveals_parked_cursor(&command) {
        calls.push(NativeInjection::RevealCursor);
    }
    let ghost first = calls@;
    match command {
        InputCommand::MouseMove { x, y, drag_button } => {
            calls.push(NativeInjection::MouseMove { x, y, drag_button });
        },
        InputCommand::MouseButton { button, down, x, y } => {
            calls.push(NativeInjection::MouseButton { button, down, x, y });
        },
        InputCommand::Scroll { delta_x, delta_y } => {
            calls.push(NativeInjection::Scroll { delta_x, delta_y });
        },
        InputCommand::Key { key_code, down } => {
            calls.push(NativeInjection::Key { key_code, down });
        },
        InputCommand::CursorPark { x, y } => {
            if can_hide {
                calls.push(NativeInjection::HideCursor { x, y });
            } else {
                calls.push(NativeInjection::MouseMove { x, y, drag_button: None });
            }
        },
        InputCommand::ReleaseAll | InputCommand::SecureAttention => {},
    }
    assert(calls@ =~= first + command_call(platform, command));
    calls
}

/// What is injected on this machine, by platform.
#[derive(Debug)]
pub enum Injection {
    MacOs { keys: MacInjectedKeyState, clicks: MacClickTracker },
    Windows(WindowsInjection),
    /// The Linux backend keeps its own.
    Linux,
    Other,
}

/// What a reset or a repair of the injected input comes to.
#[derive(Debug, PartialEq, Eq)]
pub enum InjectionPlan {
    MacOs(Vec<MacKeyAction>),
    Windows(Vec<RouteAction>),
    /// Keys to deliver like any other command, each recorded afterwards.
    WindowsKeys(Vec<(u16, bool)>),
    /// The Linux backend acts.
    Linux,
    Nothing,
}

/// The tracker of a machine on which nothing was clicked.
pub open spec fn no_clicks() -> MacClickTracker {
    MacClickTracker { last_down: None, left: None, right: None, middle: None }
}

/// Releases every injected key.
pub fn reset_injected_keys(injection: &mut Injection) -> (plan: InjectionPlan)
    ensures
        match *old(injection) {
            Injection::MacOs { keys, clicks } => {
                &&& plan matches InjectionPlan::MacOs(actions) && actions@ == inject_actions(
                    keys@,
                    releases_in_reverse(keys@),
                )
                &&& *final(injection) matches Injection::MacOs {
                    keys: after,
                    clicks: clicks_after,
                } && after@ == Seq::<u16>::empty() && clicks_after == clicks
            },
            Injection::Windows(before) => {
                &&& plan matches InjectionPlan::Windows(actions) && actions@
                    == key_release_actions(before@.keys)
                &&& *final(injection) matches Injection::Windows(after) && after@ == (
                InjectionView { keys: Seq::empty(), ..before@ })
            },
            Injection::Linux => plan is Linux && *final(injection) is Linux,
            Injection::Other => plan is Nothing && *final(injection) is Other,
        },
{
    match injection {
        Injection::MacOs { keys, .. } => InjectionPlan::MacOs(
            crate::macos_inject::reset_injected_keys(keys),
        ),
        Injection::Windows(windows) => InjectionPlan::Windows(
            release_windows_injected_keys_both_routes(&mut windows.keys),
        ),
        Injection::Linux => InjectionPlan::Linux,
        Injection::Other => InjectionPlan::Nothing,
    }
}

/// Releases every injected key and forgets what else was injected: the
/// multi-click on macOS, the route on Windows.
pub fn reset_injected_modifiers(injection: &mut Injection) -> (plan: InjectionPlan)
    ensures
        match *old(injection) {
            Injection::MacOs { keys, .. } => {
                &&& plan matches InjectionPlan::MacOs(actions) && actions@ == inject_actions(
                    keys@,
                    releases_in_reverse(keys@),
                )
                &&& *final(injection) matches Injection::MacOs { keys: after, clicks } && after@
                    == Seq::<u16>::empty() && clicks == no_clicks()
            },
            Injection::Windows(_) => {
                &&& plan matches InjectionPlan::Windows(actions) && actions@ == both_released()
                &&& *final(injection) matches Injection::Windows(after) && after@ == (
                InjectionView { route: None, keys: Seq::empty() })
            },
            Injection::Linux => plan is Linux && *final(injection) is Linux,
            Injection::Other => plan is Nothing && *final(injection) is Other,
        },
{
    match injection {
        Injection::MacOs { keys, clicks } => {
            let actions = crate::macos_inject::reset_injected_keys(keys);
            *clicks = MacClickTracker::default();
            InjectionPlan::MacOs(actions)
        },
        Injection::Windows(windows) => {
            let mut actions: Vec<RouteAction> = Vec::new();
            release_windows_injected_inputs_both_routes(&mut windows.keys, &mut actions);
            windows.route.clear();
            assert(actions@ =~= both_released());
            InjectionPlan::Windows(actions)
        },
        Injection::Linux => InjectionPlan::Linux,
        Injection::Other => InjectionPlan::Nothing,
    }
}

/// Brings the injected modifiers in line with a snapshot that came with another
/// event than a key.
pub fn reconcile_non_key_injected_modifier_snapshot(injection: &mut Injection, mask: Option<u8>) -> (plan:
    InjectionPlan)
    ensures
        match mask {
            None => plan is Nothing && *final(injection) == *old(injection),
            Some(mask) => match *old(injection) {
                Injection::MacOs { keys, clicks } => {
                    let repairs = snapshot_transitions(keys@, mask);
                    &&& plan matches InjectionPlan::MacOs(actions) && actions@ == inject_actions(
                        keys@,
                        repairs,
                    )
                    &&& *final(injection) matches Injection::MacOs {
                        keys: after,
                        clicks: clicks_after,
                    } && after@ == keys_after_all(keys@, repairs) && clicks_after == clicks
                },
                Injection::Windows(before) => {
                    &&& plan matches InjectionPlan::WindowsKeys(keys) && keys@
                        == snapshot_transitions(before@.keys, mask)
                    &&& *final(injection) == *old(injection)
                },
                Injection::Linux => plan is Linux && *final(injection) is Linux,
                Injection::Other => plan is Nothing && *final(injection) is Other,
            },
        },
{
    let mask: u8 = match mask {
        Some(mask) => mask,
        None => return InjectionPlan::Nothing,
    };
    match injection {
        Injection::MacOs { keys, .. } => InjectionPlan::MacOs(
            reconcile_macos_injected_modifier_snapshot(keys, mask),
        ),
        Injection::Windows(windows) => InjectionPlan::WindowsKeys(
            reconcile_windows_injected_modifier_snapshot(&windows.keys, Some(mask)),
        ),
        Injection::Linux => InjectionPlan::Linux,
        Injection::Other => InjectionPlan::Nothing,
    }
}

/// What becomes of the activity that keeps the process awake.
#[derive(Debug, Clone, Copy, PartialEq, Eq, Structural)]
pub enum NapStep {
    Unchanged,
    Begin,
    End,
}

/// Keeps the process from being put to nap, or lets it be. One activity is held
/// at a time, and one that is held is ended once.
pub fn set_macos_app_nap_suppressed(activity_held: bool, suppress: bool) -> (step: NapStep)
    ensures
        step == if suppress == activity_held {
            NapStep::Unchanged
        } else if suppress {
            NapStep::Begin
        } else {
            NapStep::End
        },
{
    if suppress == activity_held {
        NapStep::Unchanged
    } else if suppress {
        NapStep::Begin
    } else {
        NapStep::End
    }
}

/// A command reaches the platform as it was given: moved across as far as
/// across, down as far as down, the same button, the same key, the same
/// direction. A park hides the pointer at its point, or moves it there where it
/// cannot be hidden.
pub proof fn law_commands_reach_the_platform(platform: Platform, command: InputCommand)
    ensures
        ({
            let calls = command_call(platform, command);
            &&& command matches InputCommand::MouseMove { x, y, drag_button } ==> calls == seq![
                NativeInjection::MouseMove { x, y, drag_button },
            ]
            &&& command matches InputCommand::MouseButton { button, down, x, y } ==> calls == seq![
                NativeInjection::MouseButton { button, down, x, y },
            ]
            &&& command matches InputCommand::Scroll { delta_x, delta_y } ==> calls == seq![
                NativeInjection::Scroll { delta_x, delta_y },
            ]
            &&& command matches InputCommand::Key { key_code, down } ==> calls == seq![
                NativeInjection::Key { key_code, down },
            ]
            &&& command matches InputCommand::CursorPark { x, y } ==> calls == seq![
                if platform == Platform::MacOs || platform == Platform::Linux {
                    NativeInjection::HideCursor { x, y }
                } else {
                    NativeInjection::MouseMove { x, y, drag_button: None }
                },
            ]
            &&& command is ReleaseAll || command is SecureAttention ==> calls.len() == 0
        }),
{
}

/// Capture that became ready says so with its number of ways; a failure says
/// what failed, and silence is a failure that names the platform.
pub proof fn law_start_of_capture_is_told(platform: Platform, error: String, count: nat)
    ensures
        started_view(platform, CaptureReady::Ready, count).state == "ready"@,
        started_view(platform, CaptureReady::Ready, count).detail == "控制端已就绪，"@ + decimal(
            count,
        ) + " 条远端贴边可用于鼠标和键盘切换。"@,
        started_view(platform, CaptureReady::Failed(error), count).state == "error"@,
        started_view(platform, CaptureReady::Failed(error), count).detail == error@,
        started_view(platform, CaptureReady::TimedOut, count).state == "error"@,
        platform == Platform::Windows ==> started_view(
            platform,
            CaptureReady::TimedOut,
            count,
        ).detail == "Windows input capture did not become ready."@,
        platform == Platform::MacOs ==> started_view(
            platform,
            CaptureReady::TimedOut,
            count,
        ).detail == "macOS input capture did not become ready."@,
{
}

/// The hooks are looked at every second and the modifiers ten times as often.
pub proof fn law_pump_looks_in_time(last: u64, now: u64)
    requires
        last <= now,
    ensures
        report_due(Some(last), now, HOOK_WATCHDOG_INTERVAL) <==> now - last >= 1_000_000_000,
        report_due(Some(last), now, MODIFIER_SNAPSHOT_INTERVAL) <==> now - last >= 100_000_000,
{
}

/// Only a machine that receives, or a platform without capture, starts none.
pub proof fn law_capture_is_for_controllers(layout: LayoutState, platform: Platform)
    ensures
        captures(layout, platform) <==> layout.input_mode@ != "receive"@ && (platform
            == Platform::MacOs || platform == Platform::Windows || platform == Platform::Linux),
{
}

} // verus!
