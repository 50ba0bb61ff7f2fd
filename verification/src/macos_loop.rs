//! The capture thread on macOS: how it starts, and the order in which each turn
//! looks after the controlled machine, the tap and the pointer.

use vstd::prelude::*;

use crate::clipboard_target::{cleared, cleared_if_bound, BindingView, ClipboardBinding};
use crate::control::{following_sequence, move_view, ControlView};
use crate::macos_capture::{
    check_macos_control, gives_back, hands_back, hides_of, return_to_local_macos, returned_capture,
    stop_macos_capture, take_tap_disabled, LoopStep, MacCapture, MacReturn, MacView,
};
use crate::macos_cursor::{
    macos_capture_loop_ms, shown_cursor, MACOS_HIDDEN_REMOTE_CAPTURE_LOOP_MS, MACOS_IDLE_CAPTURE_LOOP_MS,
    MACOS_VISIBLE_REMOTE_CAPTURE_LOOP_MS,
};
use crate::session::heartbeat_due;
use crate::shared_input::{families_mask, InputEvent};

verus! {

/// Where a gesture tap listens.
#[derive(Debug, Clone, Copy, PartialEq, Eq, Structural)]
pub enum TapLocation {
    Hid,
    Session,
}

/// How far the start of capture has come.
#[derive(Debug, Clone, Copy, PartialEq, Eq, Structural)]
pub enum StartPhase {
    /// The event tap is being made.
    Tap,
    /// The tap is being attached to the run loop.
    Source,
    /// A tap for gestures is being made.
    Gestures(TapLocation),
    /// The start is over.
    Over,
}

/// What the start of capture does next.
#[derive(Debug, PartialEq, Eq)]
pub enum StartAction {
    /// Attach the tap to the run loop.
    Attach,
    /// Make a tap for gestures, attach it and enable it.
    MakeGestureTap(TapLocation),
    /// Enable the tap, report that capture runs, keep the process awake, and
    /// enter the loop.
    Run,
    /// Report why capture does not start, and end.
    Fail(String),
}

/// One step of the start of capture, after `succeeded` of the step before. The
/// event tap has to be had; a tap for gestures that cannot be had is done
/// without.
pub fn start_macos_capture(phase: &mut StartPhase, succeeded: bool) -> (action: StartAction)
    requires
        *old(phase) != StartPhase::Over,
    ensures
        match *old(phase) {
            StartPhase::Tap => if succeeded {
                action is Attach && *final(phase) == StartPhase::Source
            } else {
                action matches StartAction::Fail(error) && error@
                    == "macOS 生产包需要单独授权辅助功能和输入监控。请到 系统设置 > 隐私与安全性 > 辅助功能 / 输入监控 启用 MyKVM，然后完全退出并重新打开应用。"@
                    && *final(phase) == StartPhase::Over
            },
            StartPhase::Source => if succeeded {
                action == StartAction::MakeGestureTap(TapLocation::Hid) && *final(phase)
                    == StartPhase::Gestures(TapLocation::Hid)
            } else {
                action matches StartAction::Fail(error) && error@
                    == "failed to attach macOS event tap to run loop"@ && *final(phase)
                    == StartPhase::Over
            },
            StartPhase::Gestures(TapLocation::Hid) => action == StartAction::MakeGestureTap(
                TapLocation::Session,
            ) && *final(phase) == StartPhase::Gestures(TapLocation::Session),
            StartPhase::Gestures(TapLocation::Session) => action is Run && *final(phase)
                == StartPhase::Over,
            StartPhase::Over => true,
        },
{
    match *phase {
        StartPhase::Tap => {
            if succeeded {
                *phase = StartPhase::Source;
                StartAction::Attach
            } else {
                *phase = StartPhase::Over;
                StartAction::Fail(
                    "macOS 生产包需要单独授权辅助功能和输入监控。请到 系统设置 > 隐私与安全性 > 辅助功能 / 输入监控 启用 MyKVM，然后完全退出并重新打开应用。".to_owned(),
                )
            }
        },
        StartPhase::Source => {
            if succeeded {
                *phase = StartPhase::Gestures(TapLocation::Hid);
                StartAction::MakeGestureTap(TapLocation::Hid)
            } else {
                *phase = StartPhase::Over;
                StartAction::Fail("failed to attach macOS event tap to run loop".to_owned())
            }
        },
        StartPhase::Gestures(TapLocation::Hid) => {
            *phase = StartPhase::Gestures(TapLocation::Session);
            StartAction::MakeGestureTap(TapLocation::Session)
        },
        StartPhase::Gestures(TapLocation::Session) | StartPhase::Over => {
            *phase = StartPhase::Over;
            StartAction::Run
        },
    }
}

/// How far a turn of the loop has come.
#[derive(Debug, Clone, Copy, PartialEq, Eq, Structural)]
pub enum LoopPhase {
    /// The loop waits for events.
    Waiting,
    /// The transport is looked at.
    Checking,
    /// The heartbeat is being sent.
    Beating,
    /// The tap is next.
    Tap,
    /// The pointer is next.
    Pointer,
    /// The loop is over.
    Ended,
}

/// What the platform layer reports.
#[derive(Debug, Clone, Copy, PartialEq, Eq)]
pub enum LoopEvent {
    /// The wait is over.
    Woken { stopping: bool },
    /// Whether the transport has failed, and where the pointer is on the
    /// controlled machine.
    Transport { failed: bool, stopping: bool, point: (i32, i32) },
    /// Whether the heartbeat was sent.
    Sent(bool),
    /// The last action was taken.
    Done { stopping: bool, main_window_visible: bool },
}

/// What the platform layer does next.
#[derive(Debug, PartialEq, Eq)]
pub enum LoopAction<P> {
    CheckTransport,
    Heartbeat { event: InputEvent, snapshot: u8 },
    /// Look for a switch request.
    Drain,
    /// Give control back, if there was any.
    Return(Option<MacReturn<P>>),
    /// Give control back, if there was any, and enable the taps again.
    ReturnAndEnable(Option<MacReturn<P>>),
    /// Nothing is to be done in this phase.
    Skip,
    /// Pin the pointer again, then wait.
    RepinAndWait { turn_ms: u64 },
    Wait { turn_ms: u64 },
    /// Leave: give control back, undo the hides and go.
    Stop { returned: Option<MacReturn<P>>, undo_hides: Option<u32> },
}

/// Whether the report fits the phase.
pub open spec fn fits(phase: LoopPhase, event: LoopEvent) -> bool {
    match phase {
        LoopPhase::Waiting => event is Woken,
        LoopPhase::Checking => event is Transport,
        LoopPhase::Beating => event is Sent,
        LoopPhase::Tap | LoopPhase::Pointer => event is Done,
        LoopPhase::Ended => false,
    }
}

/// The loop is left with `action`: control is given back, the pointer shown, and
/// nothing belongs to another machine any more.
pub open spec fn leaves<P>(
    action: LoopAction<P>,
    before: MacView<P>,
    after: MacView<P>,
    clipboard: BindingView,
    clipboard_after: BindingView,
) -> bool {
    &&& after.control.active is None
    &&& !after.control.remote_active
    &&& !after.cursor.hidden
    &&& match before.control.active {
        Some(active) => {
            &&& action matches LoopAction::Stop { returned: Some(returned), undo_hides }
                && undo_hides is None && gives_back(
                returned,
                before,
                active,
                before.hotkey_return_point,
            )
            &&& after == (MacView { hotkey_return_point: None, ..returned_capture(before) })
            &&& clipboard_after == cleared(cleared_if_bound(clipboard, active.target.device_id@))
        },
        None => {
            &&& action == LoopAction::<P>::Stop {
                returned: None,
                undo_hides: hides_of(before.cursor),
            }
            &&& after == (MacView {
                control: ControlView { remote_active: false, ..before.control },
                cursor: shown_cursor(before.cursor),
                ..before
            })
            &&& clipboard_after == cleared(clipboard)
        },
    }
}

pub open spec fn turn_length(remote_active: bool, main_window_visible: bool) -> u64 {
    if !remote_active {
        MACOS_IDLE_CAPTURE_LOOP_MS
    } else if main_window_visible {
        MACOS_VISIBLE_REMOTE_CAPTURE_LOOP_MS
    } else {
        MACOS_HIDDEN_REMOTE_CAPTURE_LOOP_MS
    }
}

/// One step of the capture loop. A turn looks at the transport, then sends a
/// heartbeat or answers a switch request, then mends the tap, then pins the
/// pointer; a failure on the way gives control back. A loop that is to stop does
/// so before and after its wait, and leaves nothing behind.
pub fn run_macos_capture_loop<P: Copy>(
    capture: &mut MacCapture<P>,
    phase: &mut LoopPhase,
    event: LoopEvent,
    clipboard: &mut ClipboardBinding,
    now: u64,
) -> (action: LoopAction<P>)
    requires
        fits(*old(phase), event),
    ensures
        match (*old(phase), event) {
            (LoopPhase::Waiting, LoopEvent::Woken { stopping }) => if stopping {
                *final(phase) == LoopPhase::Ended && leaves(
                    action,
                    old(capture)@,
                    final(capture)@,
                    old(clipboard)@,
                    final(clipboard)@,
                )
            } else {
                &&& *final(phase) == LoopPhase::Checking
                &&& action is CheckTransport
                &&& final(capture)@ == old(capture)@
                &&& final(clipboard)@ == old(clipboard)@
            },
            (LoopPhase::Checking, LoopEvent::Transport { failed, stopping, point }) => {
                if stopping {
                    &&& *final(phase) == LoopPhase::Tap
                    &&& action is Skip
                    &&& final(capture)@ == old(capture)@
                    &&& final(clipboard)@ == old(clipboard)@
                } else if failed {
                    &&& *final(phase) == LoopPhase::Tap
                    &&& action matches LoopAction::Return(returned) && hands_back(
                        returned,
                        old(capture)@,
                        final(capture)@,
                        old(clipboard)@,
                        final(clipboard)@,
                    )
                } else {
                    &&& final(clipboard)@ == old(clipboard)@
                    &&& match old(capture)@.control.active {
                        Some(active) if heartbeat_due(
                            old(capture)@.control.last_heartbeat,
                            now,
                        ) => {
                            &&& *final(phase) == LoopPhase::Beating
                            &&& action matches LoopAction::Heartbeat { event: beat, snapshot }
                                && snapshot == families_mask(old(capture)@.modifiers) && beat@
                                == move_view(
                                active,
                                point,
                                old(capture)@.control.buttons,
                                old(capture)@.control.next_sequence,
                            )
                            &&& final(capture)@ == (MacView {
                                control: ControlView {
                                    last_heartbeat: Some(now),
                                    next_sequence: following_sequence(
                                        old(capture)@.control.next_sequence,
                                    ),
                                    ..old(capture)@.control
                                },
                                ..old(capture)@
                            })
                        },
                        Some(_) => {
                            &&& *final(phase) == LoopPhase::Tap
                            &&& action is Drain
                            &&& final(capture)@ == old(capture)@
                        },
                        None => {
                            &&& *final(phase) == LoopPhase::Tap
                            &&& action is Drain
                            &&& final(capture)@ == (MacView {
                                control: ControlView {
                                    last_heartbeat: None,
                                    ..old(capture)@.control
                                },
                                ..old(capture)@
                            })
                        },
                    }
                }
            },
            (LoopPhase::Beating, LoopEvent::Sent(sent)) => {
                &&& *final(phase) == LoopPhase::Tap
                &&& if sent {
                    &&& action is Drain
                    &&& final(capture)@ == old(capture)@
                    &&& final(clipboard)@ == old(clipboard)@
                } else {
                    action matches LoopAction::Return(returned) && hands_back(
                        returned,
                        old(capture)@,
                        final(capture)@,
                        old(clipboard)@,
                        final(clipboard)@,
                    )
                }
            },
            (LoopPhase::Tap, _) => {
                &&& *final(phase) == LoopPhase::Pointer
                &&& if old(capture)@.tap_disabled {
                    action matches LoopAction::ReturnAndEnable(returned) && hands_back(
                        returned,
                        (MacView { tap_disabled: false, ..old(capture)@ }),
                        final(capture)@,
                        old(clipboard)@,
                        final(clipboard)@,
                    )
                } else {
                    &&& action is Skip
                    &&& final(capture)@ == old(capture)@
                    &&& final(clipboard)@ == old(clipboard)@
                }
            },
            (LoopPhase::Pointer, LoopEvent::Done { stopping, main_window_visible }) => {
                let turn_ms = turn_length(
                    old(capture)@.control.remote_active,
                    main_window_visible,
                );
                if stopping {
                    *final(phase) == LoopPhase::Ended && leaves(
                        action,
                        old(capture)@,
                        final(capture)@,
                        old(clipboard)@,
                        final(clipboard)@,
                    )
                } else {
                    &&& *final(phase) == LoopPhase::Waiting
                    &&& action == if old(capture)@.control.remote_active {
                        LoopAction::<P>::RepinAndWait { turn_ms }
                    } else {
                        LoopAction::<P>::Wait { turn_ms }
                    }
                    &&& final(capture)@ == old(capture)@
                    &&& final(clipboard)@ == old(clipboard)@
                }
            },
            _ => true,
        },
{
    let current: LoopPhase = *phase;
    match (current, event) {
        (LoopPhase::Waiting, LoopEvent::Woken { stopping }) => {
            if stopping {
                *phase = LoopPhase::Ended;
                let (returned, undo_hides) = stop_macos_capture(capture, clipboard);
                return LoopAction::Stop { returned, undo_hides };
            }
            *phase = LoopPhase::Checking;
            LoopAction::CheckTransport
        },
        (LoopPhase::Checking, LoopEvent::Transport { failed, stopping, point }) => {
            *phase = LoopPhase::Tap;
            if stopping {
                return LoopAction::Skip;
            }
            match check_macos_control(capture, failed, point, now) {
                LoopStep::Return => LoopAction::Return(return_to_local_macos(capture, clipboard)),
                LoopStep::Heartbeat { event, snapshot } => {
                    *phase = LoopPhase::Beating;
                    LoopAction::Heartbeat { event, snapshot }
                },
                LoopStep::Drain => LoopAction::Drain,
            }
        },
        (LoopPhase::Beating, LoopEvent::Sent(sent)) => {
            *phase = LoopPhase::Tap;
            if sent {
                LoopAction::Drain
            } else {
                LoopAction::Return(return_to_local_macos(capture, clipboard))
            }
        },
        (LoopPhase::Tap, _) => {
            *phase = LoopPhase::Pointer;
            let ghost before = capture@;
            if take_tap_disabled(capture) {
                LoopAction::ReturnAndEnable(return_to_local_macos(capture, clipboard))
            } else {
                assert(capture@ =~= before);
                LoopAction::Skip
            }
        },
        (LoopPhase::Pointer, LoopEvent::Done { stopping, main_window_visible }) => {
            if stopping {
                *phase = LoopPhase::Ended;
                let (returned, undo_hides) = stop_macos_capture(capture, clipboard);
                return LoopAction::Stop { returned, undo_hides };
            }
            *phase = LoopPhase::Waiting;
            let remote_active = capture.session.remote_active;
            let turn_ms: u64 = macos_capture_loop_ms(remote_active, main_window_visible);
            if remote_active {
                LoopAction::RepinAndWait { turn_ms }
            } else {
                LoopAction::Wait { turn_ms }
            }
        },
        _ => LoopAction::Skip,
    }
}

/// The loop turns ten times a second while nothing is controlled, and about
/// sixty times while another machine is.
pub proof fn law_loop_hurries_while_it_controls(main_window_visible: bool)
    ensures
        turn_length(false, main_window_visible) == 100,
        turn_length(true, main_window_visible) == 16,
{
}

/// A loop that was left controls nothing and hides nothing. What it controlled
/// is given back with everything held there released, the park last; the
/// clipboard is bound to nobody.
pub proof fn law_left_loops_leave_nothing_behind<P>(
    action: LoopAction<P>,
    before: MacView<P>,
    after: MacView<P>,
    clipboard: BindingView,
    clipboard_after: BindingView,
)
    requires
        leaves(action, before, after, clipboard, clipboard_after),
    ensures
        after.control.active is None,
        !after.control.remote_active,
        !after.cursor.hidden,
        clipboard_after.target is None,
        action is Stop,
        before.control.active matches Some(active) ==> (action matches LoopAction::Stop {
            returned: Some(returned),
            ..
        } && returned.active == active && returned.events@.len() > 0 && returned.events@.last()
            is CursorPark),
        before.control.active is None ==> (action matches LoopAction::Stop {
            returned: None,
            undo_hides,
        } && (undo_hides is Some <==> before.cursor.hidden)),
{
    if let Some(active) = before.control.active {
        if let LoopAction::Stop { returned: Some(returned), .. } = action {
            let views = crate::control::event_views(returned.events@);
            let released = crate::control::release_views(before.control, active, before.modifiers);
            assert(views == released);
            assert(released.last() is CursorPark);
            assert(views.last() == returned.events@.last()@);
        }
    }
}

/// The first report of a loop is that it woke, and each phase takes one kind of
/// report; a loop that is over takes none.
pub proof fn law_reports_fit_one_phase(phase: LoopPhase, event: LoopEvent)
    ensures
        fits(phase, event) ==> phase != LoopPhase::Ended,
        fits(LoopPhase::Waiting, event) <==> event is Woken,
        fits(LoopPhase::Checking, event) <==> event is Transport,
        fits(LoopPhase::Beating, event) <==> event is Sent,
        fits(LoopPhase::Tap, event) <==> event is Done,
        fits(LoopPhase::Pointer, event) <==> event is Done,
{
}

} // verus!
