//! The capture thread on Windows: how it starts, what each turn of its message
//! pump looks after, and how it ends.

use vstd::prelude::*;

use crate::clipboard_target::{clear_clipboard_target, cleared, ClipboardBinding};
use crate::control::{ControlSession, ControlView};
use crate::packets::report_due;
use crate::runtime::{
    hook_watchdog_due, modifier_snapshot_due, start_pump_timers, PumpTimers,
    HOOK_WATCHDOG_INTERVAL, MODIFIER_SNAPSHOT_INTERVAL,
};
use crate::windows_hooks::{
    bits_of_keys, clear_windows_hook_modifier_bits, hooks_dead, take_modifier_snapshot,
    windows_hooks_look_dead, HookState, HookView, WindowsCapturedEvent,
};

verus! {

/// How long the pump waits for the worker to let go after the hooks were lost.
pub const HOOK_LOSS_ACK_TIMEOUT: u64 = 2_000_000_000;

/// How long the pump waits for the worker to end.
pub const SHUTDOWN_ACK_TIMEOUT: u64 = 3_000_000_000;

/// How long one turn waits for messages.
pub const PUMP_WAIT_MS: u32 = 20;

/// How many messages are dispatched between two looks at an acknowledgement.
pub const PUMP_MESSAGE_LIMIT: usize = 128;

/// How many milliseconds a wait of that many nanoseconds is given: at least
/// one, at most what the call takes.
pub fn pump_wait_ms(wait_for: u64) -> (wait_ms: u32)
    ensures
        wait_ms == if wait_for < 2_000_000 {
            1int
        } else if wait_for / 1_000_000 > u32::MAX {
            u32::MAX as int
        } else {
            wait_for as int / 1_000_000
        },
{
    let whole: u64 = wait_for / 1_000_000;
    if whole < 1 {
        1
    } else if whole > u32::MAX as u64 {
        u32::MAX
    } else {
        whole as u32
    }
}

/// How the installation of both hooks ended. The keyboard is tried once the
/// mouse has its hook; without the keyboard that hook is taken out again.
#[derive(Debug, Clone, Copy, PartialEq, Eq, Structural)]
pub enum HookInstall {
    Installed,
    MouseRefused,
    KeyboardRefused,
}

/// What is told of a failed installation.
pub open spec fn install_complaint(outcome: HookInstall) -> Seq<char> {
    match outcome {
        HookInstall::Installed => Seq::empty(),
        HookInstall::MouseRefused => "failed to install Windows mouse hook"@,
        HookInstall::KeyboardRefused => "failed to install Windows keyboard hook"@,
    }
}

/// Both hooks.
#[derive(Debug, Clone, Copy, PartialEq, Eq, Structural)]
pub struct WindowsInputHooks {
    pub installed: bool,
    pub installed_at_ms: u64,
}

impl WindowsInputHooks {
    /// The hooks after their first installation, or why there are none.
    pub fn install(outcome: HookInstall, tick_ms: u64) -> (hooks: Result<Self, String>)
        ensures
            match hooks {
                Ok(hooks) => outcome == HookInstall::Installed && hooks == (WindowsInputHooks {
                    installed: true,
                    installed_at_ms: tick_ms,
                }),
                Err(error) => outcome != HookInstall::Installed && error@ == install_complaint(
                    outcome,
                ),
            },
    {
        match outcome {
            HookInstall::Installed => Ok(
                WindowsInputHooks { installed: true, installed_at_ms: tick_ms },
            ),
            HookInstall::MouseRefused => Err("failed to install Windows mouse hook".to_owned()),
            HookInstall::KeyboardRefused => Err(
                "failed to install Windows keyboard hook".to_owned(),
            ),
        }
    }

    /// Takes note of a new installation. One that failed is tried again at the
    /// next look; either way the hooks are given time to be heard of.
    pub fn reinstall(&mut self, outcome: HookInstall, tick_ms: u64, state: &mut HookState)
        ensures
            *final(self) == (WindowsInputHooks {
                installed: outcome == HookInstall::Installed,
                installed_at_ms: tick_ms,
            }),
            final(state)@ == (HookView { last_hook_ms: 0, ..old(state)@ }),
    {
        self.installed = outcome == HookInstall::Installed;
        self.installed_at_ms = tick_ms;
        state.last_hook_ms = 0;
    }
}

/// How far the thread has come.
#[derive(Debug, Clone, Copy, PartialEq, Eq, Structural)]
pub enum PumpPhase {
    /// The window that hides the pointer is being made.
    Hider,
    /// The worker runs; the hooks are being installed.
    Hooks,
    /// A turn begins.
    Turn,
    /// The worker lets go, since the hooks were lost.
    Releasing,
    /// The hooks are being installed again.
    Reinstalling,
    /// Messages are being dispatched.
    Dispatching,
    /// The modifiers are being read.
    Reading,
    /// The worker ends, since there are no hooks to start with.
    Abandoning(HookInstall),
    /// The worker ends.
    Stopping,
    /// The thread is over.
    Ended,
}

/// What the platform layer reports.
#[derive(Debug, PartialEq, Eq)]
pub enum PumpEvent {
    /// The window was made, or why not.
    HiderMade(Result<(), String>),
    HooksSet { outcome: HookInstall, tick_ms: u64 },
    /// The turn begins, at a tick, with the tick of the last input that the
    /// system saw.
    Turned { stopping: bool, tick_ms: u64, last_system_input: Option<u32> },
    /// The worker has let go, or its time is over.
    Released,
    /// The messages at hand were dispatched.
    Dispatched,
    /// The modifiers that are down.
    Modifiers(Vec<u16>),
    /// The worker has ended.
    WorkerEnded,
}

/// What the platform layer does next.
#[derive(Debug, PartialEq, Eq)]
pub enum PumpAction {
    /// Start the worker and install the hooks.
    StartWorker,
    /// Report why capture does not start, and end.
    Fail(String),
    /// Report that capture runs, then begin a turn.
    Ready,
    /// Begin a turn.
    Turn,
    /// Have the worker let go.
    ReleaseWorker { timeout: u64 },
    /// Install the hooks again.
    Reinstall,
    /// Wait for messages and dispatch them.
    Dispatch { wait_ms: u32 },
    ReadModifiers,
    /// Tell the worker, then begin a turn.
    Notify(WindowsCapturedEvent),
    /// Have the worker end.
    ShutdownWorker { timeout: u64 },
    /// Take the hooks out, show the pointer, and end.
    Uninstall,
}

/// The thread that captures.
#[derive(Debug, Clone, Copy, PartialEq, Eq, Structural)]
pub struct WindowsPump {
    pub phase: PumpPhase,
    pub timers: PumpTimers,
    pub hooks: WindowsInputHooks,
}

/// Whether the report fits the phase.
pub open spec fn report_fits(phase: PumpPhase, event: PumpEvent) -> bool {
    match phase {
        PumpPhase::Hider => event is HiderMade,
        PumpPhase::Hooks | PumpPhase::Reinstalling => event is HooksSet,
        PumpPhase::Turn => event is Turned,
        PumpPhase::Releasing => event is Released,
        PumpPhase::Dispatching => event is Dispatched,
        PumpPhase::Reading => event is Modifiers,
        PumpPhase::Abandoning(_) | PumpPhase::Stopping => event is WorkerEnded,
        PumpPhase::Ended => false,
    }
}

/// The thread before anything is made.
pub fn start_windows_pump(now: u64) -> (pump: WindowsPump)
    ensures
        pump == (WindowsPump {
            phase: PumpPhase::Hider,
            timers: PumpTimers { watchdog: Some(now), modifiers: None },
            hooks: WindowsInputHooks { installed: false, installed_at_ms: 0 },
        }),
{
    WindowsPump {
        phase: PumpPhase::Hider,
        timers: start_pump_timers(now),
        hooks: WindowsInputHooks { installed: false, installed_at_ms: 0 },
    }
}

/// One step of the capture thread. It starts with the window and the hooks. A
/// turn looks at the hooks once in a while and replaces dead ones, dispatches
/// messages, and compares the modifiers with what the hooks saw. A thread that
/// ends leaves nothing controlled and no clipboard bound.
pub fn run_windows_capture_pump(
    pump: &mut WindowsPump,
    hooks: &mut HookState,
    session: &mut ControlSession,
    clipboard: &mut ClipboardBinding,
    event: PumpEvent,
    now: u64,
) -> (action: PumpAction)
    requires
        report_fits(old(pump).phase, event),
    ensures
        old(pump).phase is Abandoning || old(pump).phase is Stopping ==> {
            &&& final(session)@ == (ControlView { remote_active: false, ..old(session)@ })
            &&& final(clipboard)@ == cleared(old(clipboard)@)
        },
        !(old(pump).phase is Abandoning || old(pump).phase is Stopping) ==> {
            &&& final(session)@ == old(session)@
            &&& final(clipboard)@ == old(clipboard)@
        },
        match (old(pump).phase, event) {
            (PumpPhase::Hider, PumpEvent::HiderMade(made)) => {
                &&& final(hooks)@ == old(hooks)@
                &&& match made {
                    Ok(_) => action is StartWorker && *final(pump) == (WindowsPump {
                        phase: PumpPhase::Hooks,
                        ..*old(pump)
                    }),
                    Err(error) => action == PumpAction::Fail(error) && *final(pump) == (WindowsPump {
                        phase: PumpPhase::Ended,
                        ..*old(pump)
                    }),
                }
            },
            (PumpPhase::Hooks, PumpEvent::HooksSet { outcome, tick_ms }) => {
                &&& final(hooks)@ == old(hooks)@
                &&& if outcome == HookInstall::Installed {
                    action is Ready && *final(pump) == (WindowsPump {
                        phase: PumpPhase::Turn,
                        timers: PumpTimers { watchdog: Some(now), modifiers: None },
                        hooks: WindowsInputHooks { installed: true, installed_at_ms: tick_ms },
                    })
                } else {
                    action == (PumpAction::ShutdownWorker { timeout: SHUTDOWN_ACK_TIMEOUT })
                        && *final(pump) == (WindowsPump {
                        phase: PumpPhase::Abandoning(outcome),
                        ..*old(pump)
                    })
                }
            },
            (PumpPhase::Abandoning(outcome), _) => {
                &&& final(hooks)@ == old(hooks)@
                &&& action matches PumpAction::Fail(error) && error@ == install_complaint(outcome)
                &&& *final(pump) == (WindowsPump { phase: PumpPhase::Ended, ..*old(pump) })
            },
            (PumpPhase::Turn, PumpEvent::Turned { stopping, tick_ms, last_system_input }) => {
                let look = report_due(old(pump).timers.watchdog, now, HOOK_WATCHDOG_INTERVAL);
                let timers = if look {
                    PumpTimers { watchdog: Some(now), ..old(pump).timers }
                } else {
                    old(pump).timers
                };
                &&& final(hooks)@ == old(hooks)@
                &&& if stopping {
                    action == (PumpAction::ShutdownWorker { timeout: SHUTDOWN_ACK_TIMEOUT })
                        && *final(pump) == (WindowsPump { phase: PumpPhase::Stopping, ..*old(pump) })
                } else if look && hooks_dead(
                    old(pump).hooks.installed,
                    tick_ms,
                    old(hooks)@.last_hook_ms,
                    old(pump).hooks.installed_at_ms,
                    last_system_input,
                ) {
                    action == (PumpAction::ReleaseWorker { timeout: HOOK_LOSS_ACK_TIMEOUT })
                        && *final(pump) == (WindowsPump {
                        phase: PumpPhase::Releasing,
                        timers,
                        ..*old(pump)
                    })
                } else {
                    action == (PumpAction::Dispatch { wait_ms: PUMP_WAIT_MS }) && *final(pump) == (
                    WindowsPump { phase: PumpPhase::Dispatching, timers, ..*old(pump) })
                }
            },
            (PumpPhase::Releasing, _) => {
                &&& action is Reinstall
                &&& final(hooks)@ == (HookView { modifier_bits: 0, ..old(hooks)@ })
                &&& *final(pump) == (WindowsPump { phase: PumpPhase::Reinstalling, ..*old(pump) })
            },
            (PumpPhase::Reinstalling, PumpEvent::HooksSet { outcome, tick_ms }) => {
                &&& action == (PumpAction::Dispatch { wait_ms: PUMP_WAIT_MS })
                &&& final(hooks)@ == (HookView { last_hook_ms: 0, ..old(hooks)@ })
                &&& *final(pump) == (WindowsPump {
                    phase: PumpPhase::Dispatching,
                    hooks: WindowsInputHooks {
                        installed: outcome == HookInstall::Installed,
                        installed_at_ms: tick_ms,
                    },
                    ..*old(pump)
                })
            },
            (PumpPhase::Dispatching, _) => {
                &&& final(hooks)@ == old(hooks)@
                &&& if report_due(old(pump).timers.modifiers, now, MODIFIER_SNAPSHOT_INTERVAL) {
                    action is ReadModifiers && *final(pump) == (WindowsPump {
                        phase: PumpPhase::Reading,
                        timers: PumpTimers { modifiers: Some(now), ..old(pump).timers },
                        ..*old(pump)
                    })
                } else {
                    action is Turn && *final(pump) == (WindowsPump {
                        phase: PumpPhase::Turn,
                        ..*old(pump)
                    })
                }
            },
            (PumpPhase::Reading, PumpEvent::Modifiers(physical)) => {
                let snapshot = bits_of_keys(physical@);
                &&& final(hooks)@ == (HookView { modifier_bits: snapshot, ..old(hooks)@ })
                &&& *final(pump) == (WindowsPump { phase: PumpPhase::Turn, ..*old(pump) })
                &&& action == if old(hooks)@.modifier_bits != snapshot && old(
                    session,
                )@.remote_active {
                    PumpAction::Notify(
                        WindowsCapturedEvent::ModifierSnapshot { modifier_bits: snapshot },
                    )
                } else {
                    PumpAction::Turn
                }
            },
            (PumpPhase::Stopping, _) => {
                &&& action is Uninstall
                &&& final(hooks)@ == old(hooks)@
                &&& *final(pump) == (WindowsPump { phase: PumpPhase::Ended, ..*old(pump) })
            },
            _ => true,
        },
{
    let current: PumpPhase = pump.phase;
    match (current, event) {
        (PumpPhase::Hider, PumpEvent::HiderMade(made)) => match made {
            Ok(_) => {
                pump.phase = PumpPhase::Hooks;
                PumpAction::StartWorker
            },
            Err(error) => {
                pump.phase = PumpPhase::Ended;
                PumpAction::Fail(error)
            },
        },
        (PumpPhase::Hooks, PumpEvent::HooksSet { outcome, tick_ms }) => {
            match WindowsInputHooks::install(outcome, tick_ms) {
                Ok(installed) => {
                    pump.phase = PumpPhase::Turn;
                    pump.timers = start_pump_timers(now);
                    pump.hooks = installed;
                    PumpAction::Ready
                },
                Err(_) => {
                    pump.phase = PumpPhase::Abandoning(outcome);
                    PumpAction::ShutdownWorker { timeout: SHUTDOWN_ACK_TIMEOUT }
                },
            }
        },
        (PumpPhase::Abandoning(outcome), _) => {
            pump.phase = PumpPhase::Ended;
            session.remote_active = false;
            clear_clipboard_target(clipboard);
            match WindowsInputHooks::install(outcome, 0) {
                Ok(_) => PumpAction::Fail(String::new()),
                Err(error) => PumpAction::Fail(error),
            }
        },
        (PumpPhase::Turn, PumpEvent::Turned { stopping, tick_ms, last_system_input }) => {
            if stopping {
                pump.phase = PumpPhase::Stopping;
                return PumpAction::ShutdownWorker { timeout: SHUTDOWN_ACK_TIMEOUT };
            }
            let look = hook_watchdog_due(&mut pump.timers, now);
            if look && windows_hooks_look_dead(
                pump.hooks.installed,
                tick_ms,
                hooks.last_hook_ms,
                pump.hooks.installed_at_ms,
                last_system_input,
            ) {
                pump.phase = PumpPhase::Releasing;
                PumpAction::ReleaseWorker { timeout: HOOK_LOSS_ACK_TIMEOUT }
            } else {
                pump.phase = PumpPhase::Dispatching;
                PumpAction::Dispatch { wait_ms: PUMP_WAIT_MS }
            }
        },
        (PumpPhase::Releasing, _) => {
            pump.phase = PumpPhase::Reinstalling;
            clear_windows_hook_modifier_bits(&mut hooks.modifier_bits);
            PumpAction::Reinstall
        },
        (PumpPhase::Reinstalling, PumpEvent::HooksSet { outcome, tick_ms }) => {
            pump.phase = PumpPhase::Dispatching;
            pump.hooks.reinstall(outcome, tick_ms, hooks);
            PumpAction::Dispatch { wait_ms: PUMP_WAIT_MS }
        },
        (PumpPhase::Dispatching, _) => {
            if modifier_snapshot_due(&mut pump.timers, now) {
                pump.phase = PumpPhase::Reading;
                PumpAction::ReadModifiers
            } else {
                pump.phase = PumpPhase::Turn;
                PumpAction::Turn
            }
        },
        (PumpPhase::Reading, PumpEvent::Modifiers(physical)) => {
            pump.phase = PumpPhase::Turn;
            match take_modifier_snapshot(hooks, physical.as_slice(), session.remote_active) {
                Some(news) => PumpAction::Notify(news),
                None => PumpAction::Turn,
            }
        },
        (PumpPhase::Stopping, _) => {
            pump.phase = PumpPhase::Ended;
            session.remote_active = false;
            clear_clipboard_target(clipboard);
            PumpAction::Uninstall
        },
        _ => PumpAction::Turn,
    }
}

} // verus!
