//! Injection on Windows: the choice between the local injector and the
//! privileged helper, and the keys that either of them holds.

use vstd::prelude::*;
use vstd::string::*;

use crate::injected_keys::{injected_after, track_injected_key};
use crate::packets::{report_due, take_report};
use crate::shared_input::{modifier_snapshot_transitions, snapshot_transitions, InputCommand};

verus! {

/// How long the helper is left alone after its pipe could not be opened.
pub const HELPER_RETRY_DELAY: u64 = 1_000_000_000;

/// How often the log says that the helper cannot be reached.
pub const HELPER_REPORT_INTERVAL: u64 = 10_000_000_000;

/// The side length of the window that covers the cursor.
pub const WINDOWS_CURSOR_HIDER_SIZE: i32 = 16;

/// Where a command is injected.
#[derive(Debug, Clone, Copy, PartialEq, Eq, Structural)]
pub enum WindowsInputRoute {
    Local,
    Helper,
}

/// The route that took the last command.
#[derive(Debug, Clone, Copy, PartialEq, Eq, Structural)]
pub struct WindowsInputRouteState {
    pub current: Option<WindowsInputRoute>,
}

/// Whether the other route took the last command.
pub open spec fn switches_route(current: Option<WindowsInputRoute>, next: WindowsInputRoute) -> bool {
    current is Some && current != Some(next)
}

impl Default for WindowsInputRouteState {
    fn default() -> (state: Self)
        ensures
            state.current == None::<WindowsInputRoute>,
    {
        WindowsInputRouteState { current: None }
    }
}

impl WindowsInputRouteState {
    /// Whether both routes must be released before `next` takes a command. The
    /// routes hold their keys and buttons apart: a press on one and its release
    /// on the other would leave the first held.
    pub fn requires_release_before(&self, next: WindowsInputRoute) -> (required: bool)
        ensures
            required == switches_route(self.current, next),
    {
        match self.current {
            Some(current) => current != next,
            None => false,
        }
    }

    pub fn commit(&mut self, route: WindowsInputRoute)
        ensures
            final(self).current == Some(route),
    {
        self.current = Some(route);
    }

    pub fn clear(&mut self)
        ensures
            final(self).current == None::<WindowsInputRoute>,
    {
        self.current = None;
    }
}

/// The keys that were injected as held.
#[derive(Debug)]
pub struct WindowsInjectedKeyState {
    pub pressed_keys: Vec<u16>,
}

impl View for WindowsInjectedKeyState {
    type V = Seq<u16>;

    open spec fn view(&self) -> Seq<u16> {
        self.pressed_keys@
    }
}

impl Default for WindowsInjectedKeyState {
    fn default() -> (state: Self)
        ensures
            state@ == Seq::<u16>::empty(),
    {
        WindowsInjectedKeyState { pressed_keys: Vec::new() }
    }
}

impl WindowsInjectedKeyState {
    /// Records a key that was injected. A generic modifier counts as its left
    /// variant, and a release that names no held key stands for the only held
    /// key of its family.
    pub fn track(&mut self, key_code: u16, down: bool)
        ensures
            final(self)@ == injected_after(old(self)@, key_code, down),
    {
        track_injected_key(&mut self.pressed_keys, key_code, down);
    }

    /// The keys to inject so that the held modifiers are those of the mask.
    pub fn transitions(&self, mask: u8) -> (transitions: Vec<(u16, bool)>)
        ensures
            transitions@ == snapshot_transitions(self@, mask),
    {
        modifier_snapshot_transitions(self.pressed_keys.as_slice(), mask)
    }

    pub fn take_pressed_keys(&mut self) -> (keys: Vec<u16>)
        ensures
            keys@ == old(self)@,
            final(self)@ == Seq::<u16>::empty(),
    {
        let mut keys: Vec<u16> = Vec::new();
        std::mem::swap(&mut keys, &mut self.pressed_keys);
        keys
    }
}

/// One delivery of a command.
#[derive(Debug, Clone, Copy, PartialEq, Eq, Structural)]
pub enum RouteAction {
    /// Inject the command as the logged-in user.
    InjectLocal(InputCommand),
    /// Send the command to the helper, whatever becomes of it.
    NotifyHelper(InputCommand),
    /// Send the command to the helper and report whether it took it.
    SendHelper(InputCommand),
}

/// What is injected on Windows: the route in use and the held keys.
#[derive(Debug)]
pub struct WindowsInjection {
    pub route: WindowsInputRouteState,
    pub keys: WindowsInjectedKeyState,
}

pub struct InjectionView {
    pub route: Option<WindowsInputRoute>,
    pub keys: Seq<u16>,
}

impl View for WindowsInjection {
    type V = InjectionView;

    open spec fn view(&self) -> InjectionView {
        InjectionView { route: self.route.current, keys: self.keys@ }
    }
}

impl Default for WindowsInjection {
    fn default() -> (injection: Self)
        ensures
            injection@ == (InjectionView { route: None, keys: Seq::empty() }),
    {
        WindowsInjection {
            route: WindowsInputRouteState::default(),
            keys: WindowsInjectedKeyState::default(),
        }
    }
}

/// Whether only the helper can deliver the command: the secure attention
/// sequence anywhere, and everything on a desktop other than the user's own.
pub open spec fn needs_helper(command: InputCommand, desktop_is_default: bool) -> bool {
    command is SecureAttention || !desktop_is_default
}

pub fn should_route_to_windows_helper(command: &InputCommand, desktop_is_default: bool) -> (helper:
    bool)
    ensures
        helper == needs_helper(*command, desktop_is_default),
{
    if matches!(command, InputCommand::SecureAttention) {
        return true;
    }
    !desktop_is_default
}

/// The deliveries that release everything on both routes.
pub open spec fn both_released() -> Seq<RouteAction> {
    seq![
        RouteAction::InjectLocal(InputCommand::ReleaseAll),
        RouteAction::NotifyHelper(InputCommand::ReleaseAll),
    ]
}

/// The deliveries that release both routes, if that is called for.
pub open spec fn released_if(condition: bool) -> Seq<RouteAction> {
    if condition {
        both_released()
    } else {
        Seq::empty()
    }
}

/// Releases everything on both routes and forgets the held keys.
pub fn release_windows_injected_inputs_both_routes(
    keys: &mut WindowsInjectedKeyState,
    actions: &mut Vec<RouteAction>,
)
    ensures
        final(actions)@ == old(actions)@ + both_released(),
        final(keys)@ == Seq::<u16>::empty(),
{
    actions.push(RouteAction::InjectLocal(InputCommand::ReleaseAll));
    actions.push(RouteAction::NotifyHelper(InputCommand::ReleaseAll));
    keys.pressed_keys = Vec::new();
    assert(actions@ =~= old(actions)@ + both_released());
}

/// The deliveries of a command.
pub open spec fn routed_actions(
    injection: InjectionView,
    command: InputCommand,
    desktop_is_default: bool,
) -> Seq<RouteAction> {
    if command is ReleaseAll {
        both_released()
    } else if needs_helper(command, desktop_is_default) {
        released_if(switches_route(injection.route, WindowsInputRoute::Helper)).push(
            RouteAction::SendHelper(command),
        )
    } else {
        released_if(switches_route(injection.route, WindowsInputRoute::Local)).push(
            RouteAction::InjectLocal(command),
        )
    }
}

/// The injection state after those deliveries. Where the helper decides, the
/// route stays open until its answer.
pub open spec fn routed_state(
    injection: InjectionView,
    command: InputCommand,
    desktop_is_default: bool,
) -> InjectionView {
    if command is ReleaseAll {
        InjectionView { route: None, keys: Seq::empty() }
    } else if needs_helper(command, desktop_is_default) {
        InjectionView {
            route: injection.route,
            keys: if switches_route(injection.route, WindowsInputRoute::Helper) {
                Seq::empty()
            } else {
                injection.keys
            },
        }
    } else {
        InjectionView {
            route: Some(WindowsInputRoute::Local),
            keys: if switches_route(injection.route, WindowsInputRoute::Local) {
                Seq::empty()
            } else {
                injection.keys
            },
        }
    }
}

/// Plans the deliveries of a command. A plan that ends with a send to the
/// helper is settled by `finish_helper_send`.
pub fn inject_input_command_with_platform_routing(
    injection: &mut WindowsInjection,
    command: InputCommand,
    desktop_is_default: bool,
) -> (actions: Vec<RouteAction>)
    ensures
        actions@ == routed_actions(old(injection)@, command, desktop_is_default),
        final(injection)@ == routed_state(old(injection)@, command, desktop_is_default),
{
    let mut actions: Vec<RouteAction> = Vec::new();
    if matches!(command, InputCommand::ReleaseAll) {
        release_windows_injected_inputs_both_routes(&mut injection.keys, &mut actions);
        injection.route.clear();
        assert(actions@ =~= both_released());
        return actions;
    }
    let helper = should_route_to_windows_helper(&command, desktop_is_default);
    let desired = if helper {
        WindowsInputRoute::Helper
    } else {
        WindowsInputRoute::Local
    };
    if injection.route.requires_release_before(desired) {
        release_windows_injected_inputs_both_routes(&mut injection.keys, &mut actions);
        assert(actions@ =~= both_released());
    }
    if helper {
        actions.push(RouteAction::SendHelper(command));
    } else {
        actions.push(RouteAction::InjectLocal(command));
        injection.route.commit(WindowsInputRoute::Local);
    }
    actions
}

/// What is left to deliver once the helper has answered.
pub open spec fn settled_actions(
    injection: InjectionView,
    command: InputCommand,
    sent: bool,
) -> Seq<RouteAction> {
    if sent {
        Seq::empty()
    } else {
        released_if(switches_route(injection.route, WindowsInputRoute::Local)).push(
            RouteAction::InjectLocal(command),
        )
    }
}

pub open spec fn settled_state(injection: InjectionView, sent: bool) -> InjectionView {
    if sent {
        InjectionView { route: Some(WindowsInputRoute::Helper), keys: injection.keys }
    } else {
        InjectionView {
            route: Some(WindowsInputRoute::Local),
            keys: if switches_route(injection.route, WindowsInputRoute::Local) {
                Seq::empty()
            } else {
                injection.keys
            },
        }
    }
}

/// Settles a send to the helper: a command that it did not take is injected
/// locally, after a release if the helper holds earlier input.
pub fn finish_helper_send(injection: &mut WindowsInjection, command: InputCommand, sent: bool) -> (
    actions: Vec<RouteAction>)
    ensures
        actions@ == settled_actions(old(injection)@, command, sent),
        final(injection)@ == settled_state(old(injection)@, sent),
{
    let mut actions: Vec<RouteAction> = Vec::new();
    if sent {
        injection.route.commit(WindowsInputRoute::Helper);
        return actions;
    }
    if injection.route.requires_release_before(WindowsInputRoute::Local) {
        release_windows_injected_inputs_both_routes(&mut injection.keys, &mut actions);
        assert(actions@ =~= both_released());
    }
    actions.push(RouteAction::InjectLocal(command));
    injection.route.commit(WindowsInputRoute::Local);
    actions
}

/// The keys to inject for a snapshot. Each is delivered like any other command
/// and then recorded with `track`.
pub fn reconcile_windows_injected_modifier_snapshot(
    keys: &WindowsInjectedKeyState,
    mask: Option<u8>,
) -> (transitions: Vec<(u16, bool)>)
    ensures
        transitions@ == match mask {
            Some(mask) => snapshot_transitions(keys@, mask),
            None => Seq::<(u16, bool)>::empty(),
        },
{
    match mask {
        Some(mask) => keys.transitions(mask),
        None => Vec::new(),
    }
}

/// Whether a local injection changes what is held.
pub fn local_command_is_stateful(command: &InputCommand) -> (stateful: bool)
    ensures
        stateful == (command is Key || command is MouseButton || command is ReleaseAll),
{
    matches!(
        command,
        InputCommand::Key { .. } | InputCommand::MouseButton { .. } | InputCommand::ReleaseAll
    )
}

/// The deliveries that release `keys` on both routes, the last key first.
pub open spec fn key_release_actions(keys: Seq<u16>) -> Seq<RouteAction>
    decreases keys.len(),
{
    if keys.len() == 0 {
        Seq::empty()
    } else {
        let up = InputCommand::Key { key_code: keys.last(), down: false };
        seq![RouteAction::InjectLocal(up), RouteAction::NotifyHelper(up)] + key_release_actions(
            keys.drop_last(),
        )
    }
}

/// Releases the held keys on both routes and leaves the mouse buttons alone.
pub fn release_windows_injected_keys_both_routes(keys: &mut WindowsInjectedKeyState) -> (actions:
    Vec<RouteAction>)
    ensures
        actions@ == key_release_actions(old(keys)@),
        final(keys)@ == Seq::<u16>::empty(),
{
    let pressed = keys.take_pressed_keys();
    let mut actions: Vec<RouteAction> = Vec::new();
    let mut left: usize = pressed.len();
    assert(pressed@.take(left as int) =~= pressed@);
    while left > 0
        invariant
            left <= pressed@.len(),
            actions@ + key_release_actions(pressed@.take(left as int)) == key_release_actions(
                pressed@,
            ),
        decreases left,
    {
        left -= 1;
        let key_code: u16 = pressed[left];
        let command = InputCommand::Key { key_code, down: false };
        proof {
            assert(pressed@.take(left + 1).drop_last() =~= pressed@.take(left as int));
        }
        let ghost before = actions@;
        actions.push(RouteAction::InjectLocal(command));
        actions.push(RouteAction::NotifyHelper(command));
        proof {
            let rest = key_release_actions(pressed@.take(left as int));
            let up = InputCommand::Key { key_code, down: false };
            assert(actions@ + rest =~= before + (seq![
                RouteAction::InjectLocal(up),
                RouteAction::NotifyHelper(up),
            ] + rest));
        }
    }
    assert(actions@ + key_release_actions(pressed@.take(0)) =~= actions@);
    actions
}

/// Whether to report that the helper cannot be reached.
pub fn note_windows_helper_unavailable(last: &mut Option<u64>, now: u64) -> (report: bool)
    ensures
        report == report_due(*old(last), now, HELPER_REPORT_INTERVAL),
        *final(last) == if report {
            Some(now)
        } else {
            *old(last)
        },
{
    take_report(last, now, HELPER_REPORT_INTERVAL)
}

/// The connection to the helper.
#[derive(Debug, Clone, Copy, PartialEq, Eq, Structural)]
pub struct WindowsInputDispatcher {
    pub connected: bool,
    /// The pipe is not opened again before this time.
    pub retry_after: u64,
}

/// What a send to the helper starts with.
#[derive(Debug, Clone, Copy, PartialEq, Eq, Structural)]
pub enum DispatchStep {
    /// Write to the open pipe.
    Write,
    /// Open the pipe first.
    Open,
}

impl WindowsInputDispatcher {
    pub fn new(now: u64) -> (dispatcher: Self)
        ensures
            dispatcher == (WindowsInputDispatcher { connected: false, retry_after: now }),
    {
        WindowsInputDispatcher { connected: false, retry_after: now }
    }

    /// How a send begins: it fails while a closed pipe cools down.
    pub fn begin_send(&self, now: u64) -> (step: Result<DispatchStep, String>)
        ensures
            match step {
                Ok(step) => if self.connected {
                    step == DispatchStep::Write
                } else {
                    step == DispatchStep::Open && self.retry_after <= now
                },
                Err(message) => !self.connected && now < self.retry_after && message@
                    == "input helper pipe retry is cooling down"@,
            },
    {
        if self.connected {
            return Ok(DispatchStep::Write);
        }
        if now < self.retry_after {
            return Err("input helper pipe retry is cooling down".to_owned());
        }
        Ok(DispatchStep::Open)
    }

    /// Records the attempt to open the pipe. After a failure the pipe is left
    /// alone for a second.
    pub fn note_opened(&mut self, opened: bool, now: u64)
        requires
            now + HELPER_RETRY_DELAY <= u64::MAX,
        ensures
            *final(self) == if opened {
                WindowsInputDispatcher { connected: true, retry_after: old(self).retry_after }
            } else {
                WindowsInputDispatcher {
                    connected: old(self).connected,
                    retry_after: (now + HELPER_RETRY_DELAY) as u64,
                }
            },
    {
        if opened {
            self.connected = true;
        } else {
            self.retry_after = now + HELPER_RETRY_DELAY;
        }
    }

    /// Records the write. After a failure the pipe counts as closed, and the
    /// next send opens it at once.
    pub fn note_written(&mut self, outcome: Result<(), String>) -> (result: Result<(), String>)
        ensures
            final(self).retry_after == old(self).retry_after,
            match outcome {
                Ok(_) => result is Ok && final(self).connected == old(self).connected,
                Err(error) => result is Err && result->Err_0@ == "write input helper pipe: "@
                    + error@ && !final(self).connected,
            },
    {
        match outcome {
            Ok(_) => Ok(()),
            Err(error) => {
                self.connected = false;
                let mut message = "write input helper pipe: ".to_owned();
                message.append(error.as_str());
                Err(message)
            },
        }
    }
}

/// The sessions whose pipe may lead to the helper, in the order in which they
/// are tried: this process's own, and that of the console if there is another.
pub fn input_pipe_sessions(own_session: u32, console_session: u32) -> (sessions: Vec<u32>)
    ensures
        sessions@ == if console_session != u32::MAX && console_session != own_session {
            seq![own_session, console_session]
        } else {
            seq![own_session]
        },
{
    let mut sessions: Vec<u32> = vec![own_session];
    if console_session != u32::MAX && console_session != own_session {
        sessions.push(console_session);
    }
    assert(sessions@ =~= if console_session != u32::MAX && console_session != own_session {
        seq![own_session, console_session]
    } else {
        seq![own_session]
    });
    sessions
}

/// The lower-case form of a UTF-16 unit, if it is an ASCII letter.
pub open spec fn lower_unit(unit: u16) -> u16 {
    if 0x41 <= unit <= 0x5A {
        (unit + 0x20) as u16
    } else {
        unit
    }
}

/// The UTF-16 units of "default".
pub open spec fn default_units() -> Seq<u16> {
    seq![0x64u16, 0x65, 0x66, 0x61, 0x75, 0x6C, 0x74]
}

/// The part of the buffer that holds the name: as many units as were reported,
/// without a closing NUL.
pub open spec fn desktop_name(buffer: Seq<u16>, reported_bytes: u32) -> Seq<u16> {
    let count = if reported_bytes as int / 2 < buffer.len() {
        reported_bytes as int / 2
    } else {
        buffer.len() as int
    };
    if count > 0 && buffer[count - 1] == 0 {
        buffer.take(count - 1)
    } else {
        buffer.take(count)
    }
}

/// Whether the name of the input desktop is that of the user's own, in any case
/// of its letters. `buffer` is the name as it was read and `reported_bytes` its
/// size; nothing was read where that is zero.
pub fn windows_input_desktop_is_default(buffer: &[u16], reported_bytes: u32) -> (is_default: bool)
    ensures
        is_default == (reported_bytes != 0 && desktop_name(buffer@, reported_bytes).map_values(
            |unit: u16| lower_unit(unit),
        ) == default_units()),
{
    if reported_bytes == 0 {
        return false;
    }
    let half: usize = (reported_bytes / 2) as usize;
    let mut count: usize = if half < buffer.len() {
        half
    } else {
        buffer.len()
    };
    if count > 0 && buffer[count - 1] == 0 {
        count -= 1;
    }
    let ghost name = desktop_name(buffer@, reported_bytes);
    let ghost lowered = name.map_values(|unit: u16| lower_unit(unit));
    assert(name == buffer@.take(count as int));
    if count != 7 {
        assert(lowered.len() != default_units().len());
        return false;
    }
    let expected: [u16; 7] = [0x64, 0x65, 0x66, 0x61, 0x75, 0x6C, 0x74];
    assert(expected@ =~= default_units());
    let mut index: usize = 0;
    while index < 7
        invariant
            index <= 7,
            count == 7,
            count <= buffer@.len(),
            reported_bytes != 0,
            name == desktop_name(buffer@, reported_bytes),
            name == buffer@.take(count as int),
            lowered == name.map_values(|unit: u16| lower_unit(unit)),
            expected@ == default_units(),
            forall|i: int| 0 <= i < index ==> lowered[i] == default_units()[i],
        decreases 7 - index,
    {
        let unit: u16 = buffer[index];
        let lower: u16 = if 0x41 <= unit && unit <= 0x5A {
            unit + 0x20
        } else {
            unit
        };
        assert(lowered[index as int] == lower);
        if lower != expected[index] {
            assert(lowered[index as int] != default_units()[index as int]);
            return false;
        }
        index += 1;
    }
    assert(lowered =~= default_units());
    true
}

/// A cursor metric, at least one pixel.
pub open spec fn cursor_extent(metric: i32) -> int {
    if metric < 1 {
        1
    } else {
        metric as int
    }
}

/// The size in bytes of each mask of a blank cursor: rows of whole 32-bit
/// words, one bit for each pixel.
pub open spec fn mask_bytes(width: i32, height: i32) -> int {
    (cursor_extent(width) + 31) / 32 * 4 * cursor_extent(height)
}

pub fn blank_cursor_mask_bytes(width: i32, height: i32) -> (size: usize)
    requires
        width + 31 <= i32::MAX,
        mask_bytes(width, height) <= usize::MAX,
    ensures
        size == mask_bytes(width, height),
{
    let width: usize = if width < 1 {
        1
    } else {
        width as usize
    };
    let height: usize = if height < 1 {
        1
    } else {
        height as usize
    };
    let stride: usize = (width + 31) / 32 * 4;
    stride * height
}

/// The route that a delivery uses.
pub open spec fn action_route(action: RouteAction) -> WindowsInputRoute {
    match action {
        RouteAction::InjectLocal(_) => WindowsInputRoute::Local,
        _ => WindowsInputRoute::Helper,
    }
}

/// A press and its release never reach different routes: whenever a command
/// goes to another route than the one before it, both routes are released
/// first, and no key counts as held across the switch.
pub proof fn law_routes_are_released_before_a_switch(
    injection: InjectionView,
    command: InputCommand,
    desktop_is_default: bool,
    sent: bool,
)
    requires
        !(command is ReleaseAll),
    ensures
        ({
            let actions = routed_actions(injection, command, desktop_is_default);
            let after = routed_state(injection, command, desktop_is_default);
            let route = action_route(actions.last());
            &&& actions.len() > 0
            &&& injection.route is Some && injection.route != Some(route) ==> actions
                == both_released().push(actions.last()) && after.keys.len() == 0
        }),
        ({
            let actions = settled_actions(injection, command, sent);
            let after = settled_state(injection, sent);
            !sent && injection.route == Some(WindowsInputRoute::Helper) ==> actions
                == both_released().push(RouteAction::InjectLocal(command)) && after.keys.len() == 0
                && after.route == Some(WindowsInputRoute::Local)
        }),
{
    let actions = routed_actions(injection, command, desktop_is_default);
    if injection.route is Some && injection.route != Some(action_route(actions.last())) {
        assert(actions =~= both_released().push(actions.last()));
    }
}

/// A release of everything leaves no route in use and no key held, and so the
/// next command needs no release before it.
pub proof fn law_release_all_frees_both_routes(
    injection: InjectionView,
    desktop_is_default: bool,
    next: WindowsInputRoute,
)
    ensures
        ({
            let after = routed_state(injection, InputCommand::ReleaseAll, desktop_is_default);
            &&& after.keys.len() == 0
            &&& !switches_route(after.route, next)
        }),
{
}

/// On the user's own desktop commands are injected locally; on any other desktop
/// they go to the helper, and the secure attention sequence always does. What the
/// helper does not take is injected locally. Either way it is the command itself
/// that is delivered last.
pub proof fn law_commands_take_the_right_route(
    injection: InjectionView,
    command: InputCommand,
    desktop_is_default: bool,
)
    requires
        !(command is ReleaseAll),
    ensures
        ({
            let actions = routed_actions(injection, command, desktop_is_default);
            let after = routed_state(injection, command, desktop_is_default);
            let refused = settled_actions(after, command, false);
            &&& desktop_is_default && !(command is SecureAttention) ==> actions.last()
                == RouteAction::InjectLocal(command) && after.route == Some(
                WindowsInputRoute::Local,
            )
            &&& !desktop_is_default || command is SecureAttention ==> actions.last()
                == RouteAction::SendHelper(command)
            &&& refused.last() == RouteAction::InjectLocal(command)
            &&& settled_actions(after, command, true).len() == 0
            &&& settled_state(after, true).route == Some(WindowsInputRoute::Helper)
            &&& settled_state(after, true).keys == after.keys
            &&& settled_state(after, false).route == Some(WindowsInputRoute::Local)
            &&& injection.route is None ==> actions.len() == 1 && after.keys == injection.keys
        }),
{
}

/// To release everything, both routes are told, this one first.
pub proof fn law_both_routes_are_released(injection: InjectionView, desktop_is_default: bool)
    ensures
        routed_actions(injection, InputCommand::ReleaseAll, desktop_is_default) == seq![
            RouteAction::InjectLocal(InputCommand::ReleaseAll),
            RouteAction::NotifyHelper(InputCommand::ReleaseAll),
        ],
{
}

/// Each held key goes up on both routes, the one that was pressed last first.
pub proof fn law_held_keys_go_up_on_both_routes(keys: Seq<u16>, i: int)
    requires
        0 <= i < keys.len(),
    ensures
        ({
            let actions = key_release_actions(keys);
            let up = InputCommand::Key { key_code: keys[keys.len() - 1 - i], down: false };
            &&& actions.len() == 2 * keys.len()
            &&& actions[2 * i] == RouteAction::InjectLocal(up)
            &&& actions[2 * i + 1] == RouteAction::NotifyHelper(up)
        }),
    decreases keys.len(),
{
    let rest = keys.drop_last();
    let actions = key_release_actions(keys);
    let later = key_release_actions(rest);
    if i > 0 {
        law_held_keys_go_up_on_both_routes(rest, i - 1);
        assert(actions[2 * i] == later[2 * (i - 1)]);
        assert(actions[2 * i + 1] == later[2 * (i - 1) + 1]);
        assert(rest[rest.len() - 1 - (i - 1)] == keys[keys.len() - 1 - i]);
    } else if rest.len() > 0 {
        law_held_keys_go_up_on_both_routes(rest, 0);
    }
}

/// The name of the user's own desktop is spelled out in UTF-16, and only its
/// letters change with the case.
pub proof fn law_desktop_name_is_spelled_out(unit: u16)
    ensures
        default_units().len() == "default"@.len(),
        forall|i: int|
            0 <= i < default_units().len() ==> #[trigger] default_units()[i] as int
                == "default"@[i] as int,
        0x41 <= unit <= 0x5A ==> lower_unit(unit) == unit + 32,
        !(0x41 <= unit <= 0x5A) ==> lower_unit(unit) == unit,
{
    reveal_strlit("default");
}

/// A name that was read with its closing NUL is the name, whatever stands behind
/// it in the buffer, and so is one that was read without.
pub proof fn law_desktop_names_end_at_the_nul(name: Seq<u16>, rest: Seq<u16>)
    requires
        2 * name.len() + 2 <= u32::MAX,
        name.len() > 0,
        name.last() != 0,
    ensures
        desktop_name(name.push(0) + rest, (2 * name.len() + 2) as u32) == name,
        desktop_name(name + rest, (2 * name.len()) as u32) == name,
        desktop_name(name, u32::MAX) == name,
{
    let closed = name.push(0) + rest;
    assert(closed[name.len() as int] == 0);
    assert(closed.take(name.len() as int) =~= name);
    let open = name + rest;
    assert(open[name.len() - 1] == name.last());
    assert(open.take(name.len() as int) =~= name);
    assert(name.take(name.len() as int) =~= name);
}

/// A mask has as many rows as the cursor is high, of whole words of four bytes,
/// and each row has a bit for every column and less than a word to spare.
pub proof fn law_masks_hold_every_pixel(width: i32, height: i32)
    requires
        width >= 1,
        height >= 1,
    ensures
        mask_bytes(width, height) == mask_bytes(width, 1) * height,
        mask_bytes(width, 1) % 4 == 0,
        width <= 8 * mask_bytes(width, 1) < width + 32,
{
    let row = (width + 31) / 32 * 4;
    assert(row * 1 == row) by (nonlinear_arith);
    assert(mask_bytes(width, 1) == row);
}

} // verus!
