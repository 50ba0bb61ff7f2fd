//! The controlled side: what is injected for each received frame.

use vstd::prelude::*;

use crate::clipboard_target::{
    apply_remote_input_clipboard_outcome, binding_after_outcome, clear_clipboard_target_if_device,
    cleared_if_bound, ClipboardBinding,
};
use crate::key_sequence::RemoteKeySequenceState;
use crate::layout::{map_event_point_to_native, point_mapping, LayoutState, Platform};
use crate::packets::{
    authorized, control_credentials, control_packet_authorized, frame_origin, input_control_protocol,
    input_credentials, input_protocol, offered_peer, packet_authorized, packet_clipboard_peer,
    packet_origin_id, packet_targets_local, targets_local, InputControlCommand,
    InputControlPacket, InputPacket,
};
use crate::remote_mouse::{
    button_point, buttons_after, fresh_mouse, update_remote_mouse_button,
    update_remote_mouse_position, EventView, MouseView, RemoteMouseState,
};
use crate::session::{
    admit_remote_input_packet_with_state, clock_in_range, considered,
    expire_remote_input_session_with_state, finish_remote_input_outcome, lease_after_outcome,
    lease_has_expired, no_lease, outcome_of, session_after_expiry, session_expires, FrameView,
    LeaseView, RemoteInputAdmission, RemoteInputLease, RemoteInputOutcome, SessionView,
};
use crate::shared_input::{
    modifier_family, modifier_mask_for_key, primary_button, InputCommand, InputEvent, MouseButton,
    LEFT_BUTTON_MASK, MIDDLE_BUTTON_MASK, RIGHT_BUTTON_MASK,
};
use crate::text::same_text;

verus! {

/// One step that the platform layer takes on behalf of a frame.
#[derive(Debug, Clone, Copy, PartialEq, Eq)]
pub enum InjectAction {
    /// Inject a command over the platform's route.
    Command(InputCommand),
    /// Inject a key over the platform's route and track it as held or not.
    TrackedKey { key_code: u16, down: bool },
    /// Inject a key together with the modifier state it was sent with.
    KeyWithSnapshot { key_code: u16, down: bool, snapshot: Option<u8> },
    /// Bring the injected modifiers in line with a snapshot.
    ReconcileModifiers(u8),
    /// Release every injected key.
    ResetKeys,
    /// Release every injected key and forget all injection state.
    ResetModifiers,
    /// Forget the running multi-click.
    ResetClickTracker,
}

/// The commands that put `button` down or up, if the mask asks for it.
pub open spec fn button_command(
    mask: u64,
    bit: u64,
    button: MouseButton,
    down: bool,
    x: i32,
    y: i32,
) -> Seq<InputCommand> {
    if mask & bit != 0 {
        seq![InputCommand::MouseButton { button, down, x, y }]
    } else {
        Seq::empty()
    }
}

/// The commands that put every button of `mask` down or up, in the order left,
/// right, middle.
pub open spec fn button_commands(mask: u64, down: bool, x: i32, y: i32) -> Seq<InputCommand> {
    button_command(mask, LEFT_BUTTON_MASK, MouseButton::Left, down, x, y) + button_command(
        mask,
        RIGHT_BUTTON_MASK,
        MouseButton::Right,
        down,
        x,
        y,
    ) + button_command(mask, MIDDLE_BUTTON_MASK, MouseButton::Middle, down, x, y)
}

fn push_buttons(mask: u64, down: bool, x: i32, y: i32, commands: &mut Vec<InputCommand>)
    ensures
        final(commands)@ == old(commands)@ + button_commands(mask, down, x, y),
{
    let ghost before = commands@;
    if mask & LEFT_BUTTON_MASK != 0 {
        commands.push(InputCommand::MouseButton { button: MouseButton::Left, down, x, y });
    }
    if mask & RIGHT_BUTTON_MASK != 0 {
        commands.push(InputCommand::MouseButton { button: MouseButton::Right, down, x, y });
    }
    if mask & MIDDLE_BUTTON_MASK != 0 {
        commands.push(InputCommand::MouseButton { button: MouseButton::Middle, down, x, y });
    }
    assert(commands@ =~= before + button_commands(mask, down, x, y));
}

/// The releases of every button in `buttons`.
pub fn release_injected_mouse_buttons(buttons: u64, x: i32, y: i32) -> (commands: Vec<InputCommand>)
    ensures
        commands@ == button_commands(buttons, false, x, y),
{
    let mut commands: Vec<InputCommand> = Vec::new();
    push_buttons(buttons, false, x, y, &mut commands);
    assert(commands@ =~= button_commands(buttons, false, x, y));
    commands
}

/// The commands that turn the held buttons `previous` into `authoritative`.
pub open spec fn reconcile_commands(
    previous: u64,
    authoritative: u64,
    x: i32,
    y: i32,
) -> Seq<InputCommand> {
    button_commands(previous & !authoritative, false, x, y) + button_commands(
        authoritative & !previous,
        true,
        x,
        y,
    )
}

pub fn reconcile_injected_mouse_buttons(
    previous: u64,
    authoritative: u64,
    x: i32,
    y: i32,
) -> (commands: Vec<InputCommand>)
    ensures
        commands@ == reconcile_commands(previous, authoritative, x, y),
{
    let mut commands = release_injected_mouse_buttons(previous & !authoritative, x, y);
    push_buttons(authoritative & !previous, true, x, y, &mut commands);
    commands
}

/// Whether this machine has a screen for a point on `screen_id`.
pub open spec fn point_is_mappable(
    layout: LayoutState,
    native_layout: LayoutState,
    screen_id: Seq<char>,
) -> bool {
    point_mapping(layout, native_layout, screen_id) is Some
}

/// Whether a button event carries coordinates of its own.
pub open spec fn button_has_point(screen_id: Seq<char>, x: Option<i32>, y: Option<i32>) -> bool {
    x is Some && y is Some && screen_id.len() > 0
}

/// Whether every coordinate of the event can be placed on this machine.
pub open spec fn event_is_mappable(
    layout: LayoutState,
    native_layout: LayoutState,
    event: EventView,
) -> bool {
    match event {
        EventView::MouseMove { screen_id, .. } => point_is_mappable(
            layout,
            native_layout,
            screen_id,
        ),
        EventView::CursorPark { screen_id, .. } => point_is_mappable(
            layout,
            native_layout,
            screen_id,
        ),
        EventView::MouseButton { screen_id, x, y, .. } => (x is None && y is None) || (
        button_has_point(screen_id, x, y) && point_is_mappable(layout, native_layout, screen_id)),
        EventView::Scroll { .. } => true,
        EventView::Key { .. } => true,
    }
}

pub fn input_event_coordinates_mappable(
    layout: &LayoutState,
    native_layout: &LayoutState,
    event: &InputEvent,
) -> (mappable: bool)
    ensures
        mappable == event_is_mappable(*layout, *native_layout, event@),
{
    match event {
        InputEvent::MouseMove { screen_id, .. } => map_event_point_to_native(
            layout,
            native_layout,
            screen_id.as_str(),
        ).is_some(),
        InputEvent::CursorPark { screen_id, .. } => map_event_point_to_native(
            layout,
            native_layout,
            screen_id.as_str(),
        ).is_some(),
        InputEvent::MouseButton { screen_id, x, y, .. } => {
            if x.is_none() && y.is_none() {
                true
            } else if x.is_some() && y.is_some() && !screen_id.as_str().is_empty() {
                map_event_point_to_native(layout, native_layout, screen_id.as_str()).is_some()
            } else {
                false
            }
        },
        InputEvent::Scroll { .. } | InputEvent::Key { .. } => true,
    }
}

/// The native position of a button event, where it has one.
pub open spec fn transmitted_point(
    layout: LayoutState,
    native_layout: LayoutState,
    event: EventView,
    mapped: (i32, i32),
) -> Option<(i32, i32)> {
    match event {
        EventView::MouseButton { screen_id, x, y, .. } => if button_has_point(screen_id, x, y)
            && point_is_mappable(layout, native_layout, screen_id) {
            Some(mapped)
        } else {
            None
        },
        _ => None,
    }
}

/// The native command for an event whose own point lies at `mapped`.
pub open spec fn event_command(
    layout: LayoutState,
    native_layout: LayoutState,
    mouse: MouseView,
    event: EventView,
    mapped: (i32, i32),
) -> Option<InputCommand> {
    match event {
        EventView::MouseMove { screen_id, drag_button, sequence, .. } => if point_is_mappable(
            layout,
            native_layout,
            screen_id,
        ) {
            Some(
                InputCommand::MouseMove {
                    x: mapped.0,
                    y: mapped.1,
                    drag_button: if sequence == 0 && drag_button is None {
                        primary_button(mouse.buttons)
                    } else {
                        drag_button
                    },
                },
            )
        } else {
            None
        },
        EventView::CursorPark { screen_id, .. } => if point_is_mappable(
            layout,
            native_layout,
            screen_id,
        ) {
            Some(InputCommand::CursorPark { x: mapped.0, y: mapped.1 })
        } else {
            None
        },
        EventView::MouseButton { button, down, .. } => {
            let point = button_point(
                mouse,
                transmitted_point(layout, native_layout, event, mapped),
            );
            Some(InputCommand::MouseButton { button, down, x: point.0, y: point.1 })
        },
        EventView::Scroll { delta_x, delta_y, .. } => Some(
            InputCommand::Scroll { delta_x, delta_y },
        ),
        EventView::Key { key_code, down } => Some(InputCommand::Key { key_code, down }),
    }
}

/// The tracked pointer after the command for an event was made.
pub open spec fn mouse_after_command(
    layout: LayoutState,
    native_layout: LayoutState,
    mouse: MouseView,
    event: EventView,
    mapped: (i32, i32),
) -> MouseView {
    match event {
        EventView::MouseMove { screen_id, .. } if point_is_mappable(
            layout,
            native_layout,
            screen_id,
        ) => MouseView { x: mapped.0, y: mapped.1, ..mouse },
        EventView::MouseButton { button, down, .. } => {
            let point = button_point(
                mouse,
                transmitted_point(layout, native_layout, event, mapped),
            );
            MouseView {
                x: point.0,
                y: point.1,
                buttons: buttons_after(mouse.buttons, button, down),
                ..mouse
            }
        },
        _ => mouse,
    }
}

/// Turns an event into a native command and tracks the pointer. `mapped` is
/// where the event's own point lies on this machine.
pub fn input_event_to_command(
    layout: &LayoutState,
    native_layout: &LayoutState,
    mouse_state: &mut RemoteMouseState,
    event: &InputEvent,
    mapped: (i32, i32),
) -> (command: Option<InputCommand>)
    ensures
        command == event_command(*layout, *native_layout, old(mouse_state)@, event@, mapped),
        final(mouse_state)@ == mouse_after_command(
            *layout,
            *native_layout,
            old(mouse_state)@,
            event@,
            mapped,
        ),
{
    match event {
        InputEvent::MouseMove { screen_id, drag_button, sequence, .. } => {
            if map_event_point_to_native(layout, native_layout, screen_id.as_str()).is_none() {
                return None;
            }
            let held = update_remote_mouse_position(mouse_state, mapped.0, mapped.1);
            let drag_button = if *sequence == 0 && drag_button.is_none() {
                held
            } else {
                *drag_button
            };
            Some(InputCommand::MouseMove { x: mapped.0, y: mapped.1, drag_button })
        },
        InputEvent::CursorPark { screen_id, .. } => {
            if map_event_point_to_native(layout, native_layout, screen_id.as_str()).is_none() {
                return None;
            }
            Some(InputCommand::CursorPark { x: mapped.0, y: mapped.1 })
        },
        InputEvent::MouseButton { button, down, screen_id, x, y, .. } => {
            let transmitted = if x.is_some() && y.is_some() && !screen_id.as_str().is_empty()
                && map_event_point_to_native(layout, native_layout, screen_id.as_str()).is_some() {
                Some(mapped)
            } else {
                None
            };
            let (x, y) = update_remote_mouse_button(mouse_state, *button, *down, transmitted);
            Some(InputCommand::MouseButton { button: *button, down: *down, x, y })
        },
        InputEvent::Scroll { delta_x, delta_y, .. } => Some(
            InputCommand::Scroll { delta_x: *delta_x, delta_y: *delta_y },
        ),
        InputEvent::Key { key_code, down } => Some(
            InputCommand::Key { key_code: *key_code, down: *down },
        ),
    }
}

/// Whether a command shows a cursor that was hidden when control left: only
/// active mouse input does.
pub open spec fn reveals_cursor(command: InputCommand) -> bool {
    match command {
        InputCommand::MouseMove { .. } => true,
        InputCommand::MouseButton { down, .. } => down,
        InputCommand::Scroll { .. } => true,
        _ => false,
    }
}

pub fn input_command_reveals_parked_cursor(command: &InputCommand) -> (reveals: bool)
    ensures
        reveals == reveals_cursor(*command),
{
    match command {
        InputCommand::MouseMove { .. } => true,
        InputCommand::MouseButton { down, .. } => *down,
        InputCommand::Scroll { .. } => true,
        _ => false,
    }
}

/// Everything that the controlled side remembers between frames.
pub struct ReceiverState {
    pub lease: RemoteInputLease,
    pub keys: RemoteKeySequenceState,
    pub mouse: RemoteMouseState,
    pub active_origin: String,
}

pub struct ReceiverView {
    pub lease: LeaseView,
    pub session: SessionView,
}

impl View for ReceiverState {
    type V = ReceiverView;

    open spec fn view(&self) -> ReceiverView {
        ReceiverView {
            lease: self.lease@,
            session: SessionView {
                keys: self.keys@,
                mouse: self.mouse@,
                active: self.active_origin@,
            },
        }
    }
}

/// A receiver that nobody has controlled yet.
pub open spec fn idle_receiver() -> ReceiverView {
    ReceiverView {
        lease: no_lease(),
        session: SessionView { keys: Map::empty(), mouse: fresh_mouse(), active: Seq::empty() },
    }
}

impl Default for ReceiverState {
    fn default() -> (state: Self)
        ensures
            state@ == idle_receiver(),
    {
        ReceiverState {
            lease: RemoteInputLease::default(),
            keys: RemoteKeySequenceState::default(),
            mouse: RemoteMouseState::default(),
            active_origin: String::new(),
        }
    }
}

/// The given commands as actions.
pub open spec fn command_actions(commands: Seq<InputCommand>) -> Seq<InjectAction> {
    commands.map_values(|command: InputCommand| InjectAction::Command(command))
}

fn push_commands(commands: Vec<InputCommand>, actions: &mut Vec<InjectAction>)
    ensures
        final(actions)@ == old(actions)@ + command_actions(commands@),
{
    let ghost before = actions@;
    let mut index: usize = 0;
    assert(actions@ =~= before + command_actions(commands@.take(0)));
    while index < commands.len()
        invariant
            index <= commands@.len(),
            actions@ == before + command_actions(commands@.take(index as int)),
        decreases commands@.len() - index,
    {
        actions.push(InjectAction::Command(commands[index]));
        proof {
            assert(actions@ =~= before + command_actions(commands@.take(index + 1)));
        }
        index += 1;
    }
    assert(commands@.take(commands@.len() as int) =~= commands@);
}

pub open spec fn one_action_if(condition: bool, action: InjectAction) -> Seq<InjectAction> {
    if condition {
        seq![action]
    } else {
        Seq::empty()
    }
}

pub open spec fn carried_actions(carried: Option<(u64, i32, i32)>) -> Seq<InjectAction> {
    match carried {
        Some((buttons, x, y)) => command_actions(button_commands(buttons, false, x, y)),
        None => Seq::empty(),
    }
}

/// What the change of owner and the end of a session ask for.
pub open spec fn handover_actions(admission: RemoteInputAdmission, platform: Platform) -> Seq<
    InjectAction,
> {
    carried_actions(admission.carried_buttons) + one_action_if(
        admission.origin_changed || admission.release_keys,
        InjectAction::ResetKeys,
    ) + one_action_if(
        admission.origin_changed && platform == Platform::MacOs,
        InjectAction::ResetClickTracker,
    )
}

/// What the authoritative button state asks for.
pub open spec fn mouse_actions(admission: RemoteInputAdmission, platform: Platform) -> Seq<
    InjectAction,
> {
    match admission.mouse {
        Some(mouse) => (match mouse.button_reconciliation {
            Some((previous, authoritative, x, y)) => command_actions(
                reconcile_commands(previous, authoritative, x, y),
            ),
            None => Seq::empty(),
        }) + one_action_if(
            mouse.park_accepted && platform == Platform::MacOs,
            InjectAction::ResetClickTracker,
        ),
        None => Seq::empty(),
    }
}

pub open spec fn snapshot_actions(snapshot: Option<u8>) -> Seq<InjectAction> {
    match snapshot {
        Some(mask) => seq![InjectAction::ReconcileModifiers(mask)],
        None => Seq::empty(),
    }
}

/// How a key is injected. A snapshot is applied before a plain key and after a
/// modifier, so that the modifier is not undone by its own snapshot.
pub open spec fn key_actions(
    platform: Platform,
    key_code: u16,
    down: bool,
    snapshot: Option<u8>,
) -> Seq<InjectAction> {
    if platform == Platform::Windows {
        if modifier_family(key_code) is Some {
            seq![InjectAction::TrackedKey { key_code, down }] + snapshot_actions(snapshot)
        } else {
            snapshot_actions(snapshot) + seq![InjectAction::TrackedKey { key_code, down }]
        }
    } else {
        seq![InjectAction::KeyWithSnapshot { key_code, down, snapshot }]
    }
}

/// Whether the platform injects keys with their modifier snapshot.
pub open spec fn keys_carry_snapshot(platform: Platform) -> bool {
    platform != Platform::Other
}

/// What a received frame comes to.
#[verifier::ext_equal]
pub struct InjectStep {
    pub state: ReceiverView,
    pub actions: Seq<InjectAction>,
    pub outcome: RemoteInputOutcome,
}

pub open spec fn refused() -> RemoteInputOutcome {
    RemoteInputOutcome {
        injected: false,
        admitted: false,
        current_session_owner: false,
        session_ended: false,
    }
}

/// The injection of an admitted event: its actions, whether it was injected,
/// and the tracked pointer.
pub open spec fn admitted_injection(
    layout: LayoutState,
    native_layout: LayoutState,
    platform: Platform,
    mouse: MouseView,
    admission: RemoteInputAdmission,
    event: EventView,
    mapped: (i32, i32),
) -> (Seq<InjectAction>, bool, MouseView) {
    let snapshot = admission.effective_modifier_snapshot;
    if !admission.inject_event {
        (
            if admission.current_session_owner {
                snapshot_actions(snapshot)
            } else {
                Seq::empty()
            },
            admission.release_keys,
            mouse,
        )
    } else if event is Key && keys_carry_snapshot(platform) {
        (key_actions(platform, event->key_code, event->Key_down, snapshot), true, mouse)
    } else {
        match event_command(layout, native_layout, mouse, event, mapped) {
            Some(command) => (
                snapshot_actions(snapshot).push(InjectAction::Command(command)),
                true,
                mouse_after_command(layout, native_layout, mouse, event, mapped),
            ),
            None => (snapshot_actions(snapshot), false, mouse),
        }
    }
}

/// What becomes of a frame: coordinates first, then admission, then injection.
pub open spec fn inject_step(
    layout: LayoutState,
    native_layout: LayoutState,
    platform: Platform,
    state: ReceiverView,
    frame: FrameView,
    mapped: (i32, i32),
    now: u64,
) -> InjectStep {
    let step = considered(state.session, frame);
    if !event_is_mappable(layout, native_layout, frame.event) {
        InjectStep { state, actions: Seq::empty(), outcome: refused() }
    } else {
        match step.admission {
            None => InjectStep {
                state: ReceiverView { session: step.session, ..state },
                actions: Seq::empty(),
                outcome: refused(),
            },
            Some(admission) => {
                let (actions, injected, mouse) = admitted_injection(
                    layout,
                    native_layout,
                    platform,
                    step.session.mouse,
                    admission,
                    step.event,
                    mapped,
                );
                let outcome = outcome_of(admission, injected);
                InjectStep {
                    state: ReceiverView {
                        lease: lease_after_outcome(state.lease, frame.origin, outcome, now),
                        session: SessionView { mouse, ..step.session },
                    },
                    actions: handover_actions(admission, platform) + mouse_actions(
                        admission,
                        platform,
                    ) + actions,
                    outcome,
                }
            },
        }
    }
}

fn push_snapshot(snapshot: Option<u8>, actions: &mut Vec<InjectAction>)
    ensures
        final(actions)@ == old(actions)@ + snapshot_actions(snapshot),
{
    let ghost before = actions@;
    if let Some(mask) = snapshot {
        actions.push(InjectAction::ReconcileModifiers(mask));
    }
    assert(actions@ =~= before + snapshot_actions(snapshot));
}

fn push_handover(
    admission: &RemoteInputAdmission,
    platform: Platform,
    actions: &mut Vec<InjectAction>,
)
    ensures
        final(actions)@ == old(actions)@ + handover_actions(*admission, platform) + mouse_actions(
            *admission,
            platform,
        ),
{
    let ghost before = actions@;
    if let Some((buttons, x, y)) = admission.carried_buttons {
        push_commands(release_injected_mouse_buttons(buttons, x, y), actions);
    }
    if admission.origin_changed || admission.release_keys {
        actions.push(InjectAction::ResetKeys);
    }
    if admission.origin_changed && platform == Platform::MacOs {
        actions.push(InjectAction::ResetClickTracker);
    }
    assert(actions@ =~= before + handover_actions(*admission, platform));
    if let Some(mouse) = admission.mouse {
        if let Some((previous, authoritative, x, y)) = mouse.button_reconciliation {
            push_commands(reconcile_injected_mouse_buttons(previous, authoritative, x, y), actions);
        }
        if mouse.park_accepted && platform == Platform::MacOs {
            actions.push(InjectAction::ResetClickTracker);
        }
    }
    assert(actions@ =~= before + handover_actions(*admission, platform) + mouse_actions(
        *admission,
        platform,
    ));
}

fn push_key(
    platform: Platform,
    key_code: u16,
    down: bool,
    snapshot: Option<u8>,
    actions: &mut Vec<InjectAction>,
)
    ensures
        final(actions)@ == old(actions)@ + key_actions(platform, key_code, down, snapshot),
{
    let ghost before = actions@;
    if platform == Platform::Windows {
        let is_modifier = modifier_mask_for_key(key_code).is_some();
        if !is_modifier {
            push_snapshot(snapshot, actions);
        }
        actions.push(InjectAction::TrackedKey { key_code, down });
        if is_modifier {
            push_snapshot(snapshot, actions);
        }
    } else {
        actions.push(InjectAction::KeyWithSnapshot { key_code, down, snapshot });
    }
    assert(actions@ =~= before + key_actions(platform, key_code, down, snapshot));
}

/// Handles one frame of `origin_id`: says what is to be injected, in order, and
/// what became of the frame. `mapped` is where the event's own point lies on
/// this machine.
pub fn inject_input_event(
    state: &mut ReceiverState,
    layout: &LayoutState,
    native_layout: &LayoutState,
    platform: Platform,
    origin_id: &str,
    modifier_snapshot: Option<u8>,
    key_sequence: u64,
    heartbeat: bool,
    event: InputEvent,
    mapped: (i32, i32),
    now: u64,
) -> (injection: (Vec<InjectAction>, RemoteInputOutcome))
    requires
        clock_in_range(now),
    ensures
        ({
            let step = inject_step(
                *layout,
                *native_layout,
                platform,
                old(state)@,
                FrameView {
                    origin: origin_id@,
                    modifier_snapshot,
                    key_sequence,
                    heartbeat,
                    event: event@,
                },
                mapped,
                now,
            );
            &&& final(state)@ == step.state
            &&& injection.0@ == step.actions
            &&& injection.1 == step.outcome
        }),
{
    let mut actions: Vec<InjectAction> = Vec::new();
    let refused = RemoteInputOutcome {
        injected: false,
        admitted: false,
        current_session_owner: false,
        session_ended: false,
    };
    if !input_event_coordinates_mappable(layout, native_layout, &event) {
        return (actions, refused);
    }
    let ghost received = event@;
    let mut event = event;
    let admission = match admit_remote_input_packet_with_state(
        &mut state.keys,
        &mut state.mouse,
        &mut state.active_origin,
        origin_id,
        modifier_snapshot,
        key_sequence,
        heartbeat,
        &mut event,
    ) {
        Some(admission) => admission,
        None => {
            return (actions, refused);
        },
    };
    let snapshot = admission.effective_modifier_snapshot;
    push_handover(&admission, platform, &mut actions);
    let ghost prefix = actions@;
    assert(prefix =~= handover_actions(admission, platform) + mouse_actions(admission, platform));
    let mut injected = admission.release_keys;
    if !admission.inject_event {
        if admission.current_session_owner {
            push_snapshot(snapshot, &mut actions);
        }
    } else {
        let mut done = false;
        if let InputEvent::Key { key_code, down } = &event {
            if platform != Platform::Other {
                push_key(platform, *key_code, *down, snapshot, &mut actions);
                injected = true;
                done = true;
            }
        }
        if !done {
            push_snapshot(snapshot, &mut actions);
            match input_event_to_command(layout, native_layout, &mut state.mouse, &event, mapped) {
                Some(command) => {
                    actions.push(InjectAction::Command(command));
                    injected = true;
                },
                None => {
                    injected = false;
                },
            }
        }
    }
    proof {
        let injection = admitted_injection(
            *layout,
            *native_layout,
            platform,
            considered(
                old(state)@.session,
                FrameView {
                    origin: origin_id@,
                    modifier_snapshot,
                    key_sequence,
                    heartbeat,
                    event: received,
                },
            ).session.mouse,
            admission,
            event@,
            mapped,
        );
        assert(actions@ =~= prefix + injection.0);
    }
    let outcome = finish_remote_input_outcome(
        &mut state.lease,
        origin_id,
        &admission,
        injected,
        now,
    );
    (actions, outcome)
}

/// What the host still has to do after a packet was handled.
#[derive(Debug, PartialEq, Eq)]
pub struct PacketVerdict {
    /// The payload was an input packet, whatever became of it.
    pub handled: bool,
    /// The packet came from a controller that is not authorized.
    pub unauthorized: bool,
    pub actions: Vec<InjectAction>,
}

/// Whether a packet gets as far as its event.
pub open spec fn packet_is_considered(
    layout: LayoutState,
    packet: InputPacket,
    local_peer_id: Seq<char>,
) -> bool {
    &&& packet.protocol@ == "mykvm.input.v1"@
    &&& authorized(layout, input_credentials(packet))
    &&& targets_local(layout, packet.target_device_id@, local_peer_id)
    &&& packet.heartbeat ==> packet.event is MouseMove
}

/// The frame that a packet from `source_ip` carries.
pub open spec fn packet_frame(packet: InputPacket, source_ip: Seq<char>) -> FrameView {
    FrameView {
        origin: frame_origin(packet, source_ip),
        modifier_snapshot: packet.modifier_snapshot,
        key_sequence: packet.key_sequence,
        heartbeat: packet.heartbeat,
        event: packet.event@,
    }
}

/// The counter after one more event.
pub open spec fn counted(events: u64) -> u64 {
    if events == u64::MAX {
        0
    } else {
        (events + 1) as u64
    }
}

/// Handles a decoded packet that came from `source_ip`. `mapped` is where the
/// event's own point lies on this machine.
pub fn try_inject_packet_from_source(
    layout: &LayoutState,
    native_layout: &LayoutState,
    packet: Option<InputPacket>,
    source_ip: &str,
    input_events: &mut u64,
    local_peer_id: &str,
    clipboard: &mut ClipboardBinding,
    state: &mut ReceiverState,
    platform: Platform,
    mapped: (i32, i32),
    now: u64,
) -> (verdict: PacketVerdict)
    requires
        clock_in_range(now),
    ensures
        verdict.handled == (packet matches Some(packet) && packet.protocol@
            == "mykvm.input.v1"@),
        verdict.unauthorized == (packet matches Some(packet) && packet.protocol@
            == "mykvm.input.v1"@ && !authorized(*layout, input_credentials(packet))),
        match packet {
            Some(packet) if packet_is_considered(*layout, packet, local_peer_id@) => {
                let step = inject_step(
                    *layout,
                    *native_layout,
                    platform,
                    old(state)@,
                    packet_frame(packet, source_ip@),
                    mapped,
                    now,
                );
                &&& verdict.actions@ == step.actions
                &&& final(state)@ == step.state
                &&& final(clipboard)@ == binding_after_outcome(
                    old(clipboard)@,
                    frame_origin(packet, source_ip@),
                    step.outcome,
                    offered_peer(packet, source_ip@),
                    *layout,
                )
                &&& *final(input_events) == if step.outcome.injected
                    && step.outcome.current_session_owner {
                    counted(*old(input_events))
                } else {
                    *old(input_events)
                }
            },
            _ => {
                &&& verdict.actions@.len() == 0
                &&& final(state)@ == old(state)@
                &&& final(clipboard)@ == old(clipboard)@
                &&& *final(input_events) == *old(input_events)
            },
        },
{
    let packet = match packet {
        Some(packet) => packet,
        None => {
            return PacketVerdict { handled: false, unauthorized: false, actions: Vec::new() };
        },
    };
    if !same_text(packet.protocol.as_str(), input_protocol()) {
        return PacketVerdict { handled: false, unauthorized: false, actions: Vec::new() };
    }
    if !packet_authorized(layout, &packet) {
        return PacketVerdict { handled: true, unauthorized: true, actions: Vec::new() };
    }
    if !packet_targets_local(layout, packet.target_device_id.as_str(), local_peer_id) {
        return PacketVerdict { handled: true, unauthorized: false, actions: Vec::new() };
    }
    if packet.heartbeat && !matches!(packet.event, InputEvent::MouseMove { .. }) {
        return PacketVerdict { handled: true, unauthorized: false, actions: Vec::new() };
    }
    let clipboard_peer = packet_clipboard_peer(&packet, source_ip);
    let origin_id = packet_origin_id(&packet, source_ip);
    let (actions, outcome) = inject_input_event(
        state,
        layout,
        native_layout,
        platform,
        origin_id.as_str(),
        packet.modifier_snapshot,
        packet.key_sequence,
        packet.heartbeat,
        packet.event,
        mapped,
        now,
    );
    apply_remote_input_clipboard_outcome(
        clipboard,
        origin_id.as_str(),
        outcome,
        clipboard_peer,
        layout,
    );
    if outcome.injected && outcome.current_session_owner {
        *input_events = (*input_events).wrapping_add(1);
    }
    PacketVerdict { handled: true, unauthorized: false, actions }
}

/// What a control packet asks this machine to do.
#[derive(Debug, PartialEq, Eq)]
pub struct ControlVerdict {
    /// The payload was a control packet, whatever became of it.
    pub handled: bool,
    /// The packet came from a controller that is not authorized.
    pub unauthorized: bool,
    pub command: Option<InputControlCommand>,
}

/// Handles a decoded control packet: the command is passed on only from an
/// authorized controller and only on the addressed machine.
pub fn try_handle_control_packet_from_source(
    layout: &LayoutState,
    packet: Option<&InputControlPacket>,
    local_peer_id: &str,
) -> (verdict: ControlVerdict)
    ensures
        match packet {
            Some(packet) => {
                let ours = packet.protocol@ == "mykvm.input-control.v1"@;
                let allowed = authorized(*layout, control_credentials(*packet));
                &&& verdict.handled == ours
                &&& verdict.unauthorized == (ours && !allowed)
                &&& verdict.command == if ours && allowed && targets_local(
                    *layout,
                    packet.target_device_id@,
                    local_peer_id@,
                ) {
                    Some(packet.command)
                } else {
                    None
                }
            },
            None => !verdict.handled && !verdict.unauthorized && verdict.command is None,
        },
{
    let packet = match packet {
        Some(packet) => packet,
        None => {
            return ControlVerdict { handled: false, unauthorized: false, command: None };
        },
    };
    if !same_text(packet.protocol.as_str(), input_control_protocol()) {
        return ControlVerdict { handled: false, unauthorized: false, command: None };
    }
    if !control_packet_authorized(layout, packet) {
        return ControlVerdict { handled: true, unauthorized: true, command: None };
    }
    if !packet_targets_local(layout, packet.target_device_id.as_str(), local_peer_id) {
        return ControlVerdict { handled: true, unauthorized: false, command: None };
    }
    ControlVerdict { handled: true, unauthorized: false, command: Some(packet.command) }
}

/// The command that raises the secure attention sequence. Only the Windows
/// input service can raise it.
pub fn send_secure_attention_to_helper(platform: Platform) -> (command: Result<InputCommand, String>)
    ensures
        match command {
            Ok(command) => platform == Platform::Windows && command
                == InputCommand::SecureAttention,
            Err(error) => platform != Platform::Windows && error@
                == "Secure Attention Sequence is only available through the Windows input service."@,
        },
{
    match platform {
        Platform::Windows => Ok(InputCommand::SecureAttention),
        _ => Err(
            "Secure Attention Sequence is only available through the Windows input service.".to_owned(),
        ),
    }
}

/// Whether the privileged input helper can be reached: on Windows, if its pipe
/// opens.
pub fn windows_input_pipe_available(platform: Platform, pipe_opens: bool) -> (available: bool)
    ensures
        available == (platform == Platform::Windows && pipe_opens),
{
    match platform {
        Platform::Windows => pipe_opens,
        _ => false,
    }
}

/// What the end of a session by the clock asks for.
pub open spec fn expiry_actions(mouse: MouseView, platform: Platform) -> Seq<InjectAction> {
    command_actions(button_commands(mouse.buttons, false, mouse.x, mouse.y)).push(
        InjectAction::ResetKeys,
    ) + one_action_if(platform == Platform::MacOs, InjectAction::ResetClickTracker)
}

/// Ends the session if its lease has run out: releases what it held and takes
/// the clipboard away from it.
pub fn expire_remote_input_session(
    state: &mut ReceiverState,
    clipboard: &mut ClipboardBinding,
    platform: Platform,
    now: u64,
) -> (expired: Option<Vec<InjectAction>>)
    ensures
        final(state)@.lease == if lease_has_expired(old(state)@.lease, now) {
            no_lease()
        } else {
            old(state)@.lease
        },
        match expired {
            Some(actions) => {
                &&& session_expires(old(state)@.session, old(state)@.lease, now)
                &&& actions@ == expiry_actions(old(state)@.session.mouse, platform)
                &&& final(state)@.session == session_after_expiry(
                    old(state)@.session,
                    old(state)@.lease.origin,
                )
                &&& final(clipboard)@ == cleared_if_bound(
                    old(clipboard)@,
                    old(state)@.lease.origin,
                )
            },
            None => {
                &&& !session_expires(old(state)@.session, old(state)@.lease, now)
                &&& final(state)@.session == old(state)@.session
                &&& final(clipboard)@ == old(clipboard)@
            },
        },
{
    let expired = match expire_remote_input_session_with_state(
        &mut state.lease,
        &mut state.keys,
        &mut state.mouse,
        &mut state.active_origin,
        now,
    ) {
        Some(expired) => expired,
        None => {
            return None;
        },
    };
    let mut actions: Vec<InjectAction> = Vec::new();
    push_commands(
        release_injected_mouse_buttons(expired.buttons, expired.x, expired.y),
        &mut actions,
    );
    actions.push(InjectAction::ResetKeys);
    if platform == Platform::MacOs {
        actions.push(InjectAction::ResetClickTracker);
    }
    clear_clipboard_target_if_device(clipboard, expired.origin_id.as_str());
    assert(actions@ =~= expiry_actions(old(state)@.session.mouse, platform));
    Some(actions)
}

/// Releases everything when input sharing stops and forgets every session.
pub fn reset_injected_input_state(state: &mut ReceiverState) -> (actions: Vec<InjectAction>)
    ensures
        final(state)@ == idle_receiver(),
        actions@ == command_actions(
            button_commands(
                old(state)@.session.mouse.buttons,
                false,
                old(state)@.session.mouse.x,
                old(state)@.session.mouse.y,
            ),
        ).push(InjectAction::ResetModifiers),
{
    let mut actions: Vec<InjectAction> = Vec::new();
    push_commands(
        release_injected_mouse_buttons(state.mouse.buttons, state.mouse.x, state.mouse.y),
        &mut actions,
    );
    *state = ReceiverState::default();
    actions.push(InjectAction::ResetModifiers);
    assert(actions@ =~= command_actions(
        button_commands(
            old(state)@.session.mouse.buttons,
            false,
            old(state)@.session.mouse.x,
            old(state)@.session.mouse.y,
        ),
    ).push(InjectAction::ResetModifiers));
    actions
}

/// A button is never pressed and released in one reconciliation, and the held
/// buttons come out as the authoritative ones.
pub proof fn law_reconciliation_reaches_the_snapshot(previous: u64, authoritative: u64)
    ensures
        (previous & !authoritative) & (authoritative & !previous) == 0,
        (previous & !(previous & !authoritative)) | (authoritative & !previous) == authoritative,
{
    assert((previous & !authoritative) & (authoritative & !previous) == 0 && (previous & !(previous
        & !authoritative)) | (authoritative & !previous) == authoritative) by (bit_vector);
}

/// An event that cannot be placed on this machine changes nothing at all.
pub proof fn law_unmappable_events_are_inert(
    layout: LayoutState,
    native_layout: LayoutState,
    platform: Platform,
    state: ReceiverView,
    frame: FrameView,
    mapped: (i32, i32),
    now: u64,
)
    requires
        !event_is_mappable(layout, native_layout, frame.event),
    ensures
        ({
            let step = inject_step(layout, native_layout, platform, state, frame, mapped, now);
            &&& step.state == state
            &&& step.actions.len() == 0
            &&& step.outcome == refused()
        }),
{
}

/// While one controller owns the input, the frames of another one are never
/// injected and never extend or end the lease.
pub proof fn law_foreign_frames_inject_nothing(
    layout: LayoutState,
    native_layout: LayoutState,
    platform: Platform,
    state: ReceiverView,
    frame: FrameView,
    mapped: (i32, i32),
    now: u64,
)
    requires
        state.session.active.len() > 0,
        state.session.active != frame.origin,
    ensures
        ({
            let step = inject_step(layout, native_layout, platform, state, frame, mapped, now);
            &&& step.actions.len() == 0
            &&& step.state.lease == state.lease
            &&& step.state.session.active == state.session.active
            &&& step.state.session.mouse.buttons == state.session.mouse.buttons
            &&& !step.outcome.injected && !step.outcome.current_session_owner
                && !step.outcome.session_ended
        }),
{
    crate::session_laws::law_foreign_frames_are_inert(
        state.session,
        frame,
        state.session.active,
    );
    let step = considered(state.session, frame);
    if let Some(admission) = step.admission {
        assert(handover_actions(admission, platform) + mouse_actions(admission, platform)
            + Seq::<InjectAction>::empty() =~= Seq::empty());
    }
}

/// A heartbeat of the owner injects no event: it repairs buttons and modifiers
/// and renews the lease.
pub proof fn law_heartbeat_renews_without_injection(
    layout: LayoutState,
    native_layout: LayoutState,
    platform: Platform,
    state: ReceiverView,
    frame: FrameView,
    mapped: (i32, i32),
    now: u64,
)
    requires
        frame.heartbeat,
        frame.event is MouseMove,
        state.session.active == frame.origin,
        event_is_mappable(layout, native_layout, frame.event),
        crate::session_laws::frame_is_new(state.session, frame),
    ensures
        ({
            let step = inject_step(layout, native_layout, platform, state, frame, mapped, now);
            &&& step.state.lease == crate::session::renewed_lease(frame.origin, now)
            &&& step.state.session.mouse.x == state.session.mouse.x
            &&& step.state.session.mouse.y == state.session.mouse.y
            &&& !step.outcome.injected && step.outcome.current_session_owner
        }),
{
}

/// The frame is an event of the owner that has not been overtaken.
pub open spec fn owner_sends(state: ReceiverView, frame: FrameView) -> bool {
    &&& !frame.heartbeat
    &&& state.session.active == frame.origin
    &&& crate::session_laws::frame_is_new(state.session, frame)
}

/// A scroll of the owner is injected last, as far across and as far down as it
/// was sent.
pub proof fn law_scrolls_are_injected_as_sent(
    layout: LayoutState,
    native_layout: LayoutState,
    platform: Platform,
    state: ReceiverView,
    frame: FrameView,
    delta_x: i32,
    delta_y: i32,
    sequence: u64,
    mapped: (i32, i32),
    now: u64,
)
    requires
        owner_sends(state, frame),
        frame.event == (InputEvent::Scroll { delta_x, delta_y, sequence })@,
    ensures
        ({
            let step = inject_step(layout, native_layout, platform, state, frame, mapped, now);
            &&& step.actions.len() > 0
            &&& step.actions.last() == InjectAction::Command(
                InputCommand::Scroll { delta_x, delta_y },
            )
            &&& step.outcome.injected
            &&& step.state.session.mouse.x == state.session.mouse.x
            &&& step.state.session.mouse.y == state.session.mouse.y
        }),
{
}

/// A key of the owner is injected with its own code, and down where it was sent
/// down. On Windows the modifiers that it was sent with are set before a plain
/// key and after a modifier.
pub proof fn law_keys_are_injected_as_sent(
    layout: LayoutState,
    native_layout: LayoutState,
    platform: Platform,
    state: ReceiverView,
    frame: FrameView,
    key_code: u16,
    down: bool,
    mapped: (i32, i32),
    now: u64,
)
    requires
        owner_sends(state, frame),
        frame.event == (InputEvent::Key { key_code, down })@,
    ensures
        ({
            let step = inject_step(layout, native_layout, platform, state, frame, mapped, now);
            let actions = step.actions;
            let modifier = 0x10 <= key_code <= 0x12 || key_code == 0x5B || key_code == 0x5C || 0xA0
                <= key_code <= 0xA5;
            let key = InjectAction::TrackedKey { key_code, down };
            &&& actions.len() > 0
            &&& step.outcome.injected
            &&& platform == Platform::Windows && frame.modifier_snapshot is None ==> actions.last()
                == key
            &&& platform == Platform::Windows && frame.key_sequence == 0
                && frame.modifier_snapshot is Some ==> {
                let repair = InjectAction::ReconcileModifiers(frame.modifier_snapshot->0);
                &&& actions.len() >= 2
                &&& actions.last() == (if modifier {
                    repair
                } else {
                    key
                })
                &&& actions[actions.len() - 2] == (if modifier {
                    key
                } else {
                    repair
                })
            }
            &&& platform == Platform::MacOs || platform == Platform::Linux ==> (actions.last()
                matches InjectAction::KeyWithSnapshot { key_code: code, down: is_down, snapshot }
                && code == key_code && is_down == down && (snapshot is Some ==> snapshot
                == frame.modifier_snapshot) && (frame.key_sequence == 0 ==> snapshot
                == frame.modifier_snapshot))
            &&& platform == Platform::Other ==> actions.last() == InjectAction::Command(
                InputCommand::Key { key_code, down },
            )
        }),
{
}

/// A move of the owner takes the pointer to the point that it was sent to, and
/// a numbered one without a button state drags the button that it names.
pub proof fn law_moves_are_injected_as_sent(
    layout: LayoutState,
    native_layout: LayoutState,
    platform: Platform,
    state: ReceiverView,
    frame: FrameView,
    event: InputEvent,
    mapped: (i32, i32),
    now: u64,
)
    requires
        owner_sends(state, frame),
        event is MouseMove,
        frame.event == event@,
        point_mapping(layout, native_layout, event->MouseMove_screen_id@) is Some,
    ensures
        ({
            let step = inject_step(layout, native_layout, platform, state, frame, mapped, now);
            &&& step.actions.len() > 0
            &&& step.outcome.injected
            &&& step.actions.last() matches InjectAction::Command(command) && (command matches
                InputCommand::MouseMove { x, y, drag_button } && x == mapped.0 && y == mapped.1 && (
            event->MouseMove_sequence != 0 && event->button_mask is None ==> drag_button
                == event->drag_button))
            &&& step.state.session.mouse.x == mapped.0
            &&& step.state.session.mouse.y == mapped.1
        }),
{
}

/// A button of the owner goes down where it was sent down and up where it was
/// sent up: at its own point, or at the tracked pointer where it has none. Of
/// the held buttons only that one changes.
pub proof fn law_buttons_are_injected_as_sent(
    layout: LayoutState,
    native_layout: LayoutState,
    platform: Platform,
    state: ReceiverView,
    frame: FrameView,
    event: InputEvent,
    mapped: (i32, i32),
    now: u64,
)
    requires
        owner_sends(state, frame),
        event is MouseButton,
        frame.event == event@,
        event->MouseButton_x is Some <==> event->MouseButton_y is Some,
        event->MouseButton_x is Some ==> event->MouseButton_screen_id@.len() > 0 && point_mapping(
            layout,
            native_layout,
            event->MouseButton_screen_id@,
        ) is Some,
    ensures
        ({
            let step = inject_step(layout, native_layout, platform, state, frame, mapped, now);
            let before = considered(state.session, frame).session.mouse.buttons;
            let after = step.state.session.mouse.buttons;
            let bit: u64 = match event->button {
                MouseButton::Left => 1,
                MouseButton::Right => 2,
                MouseButton::Middle => 4,
            };
            &&& step.actions.len() > 0
            &&& step.outcome.injected
            &&& step.actions.last() matches InjectAction::Command(command) && (command matches
                InputCommand::MouseButton { button, down, x, y } && button == event->button && down
                == event->MouseButton_down && x == step.state.session.mouse.x && y
                == step.state.session.mouse.y)
            &&& event->MouseButton_x is None ==> step.state.session.mouse.x
                == state.session.mouse.x && step.state.session.mouse.y == state.session.mouse.y
            &&& event->MouseButton_x is Some && event->MouseButton_sequence == 0
                ==> step.state.session.mouse.x == mapped.0 && step.state.session.mouse.y
                == mapped.1
            &&& event->MouseButton_down ==> after == before | bit
            &&& !event->MouseButton_down ==> after == before & !bit
        }),
{
}

/// A park of the owner leaves the pointer at the point that it was sent to.
pub proof fn law_parks_are_injected_as_sent(
    layout: LayoutState,
    native_layout: LayoutState,
    platform: Platform,
    state: ReceiverView,
    frame: FrameView,
    event: InputEvent,
    mapped: (i32, i32),
    now: u64,
)
    requires
        owner_sends(state, frame),
        event is CursorPark,
        frame.event == event@,
        point_mapping(layout, native_layout, event->CursorPark_screen_id@) is Some,
    ensures
        ({
            let step = inject_step(layout, native_layout, platform, state, frame, mapped, now);
            &&& step.actions.len() > 0
            &&& step.actions.last() == InjectAction::Command(
                InputCommand::CursorPark { x: mapped.0, y: mapped.1 },
            )
            &&& step.actions.contains(InjectAction::ResetKeys)
            &&& step.outcome.injected && step.outcome.session_ended
            &&& step.state.session.active.len() == 0
        }),
{
    let step = inject_step(layout, native_layout, platform, state, frame, mapped, now);
    let admission = considered(state.session, frame).admission->0;
    let carried = carried_actions(admission.carried_buttons);
    assert(step.actions[carried.len() as int] == InjectAction::ResetKeys);
}

/// Where a button stands when several change at once.
pub open spec fn button_rank(button: MouseButton) -> int {
    match button {
        MouseButton::Left => 0,
        MouseButton::Right => 1,
        MouseButton::Middle => 2,
    }
}

/// Of several buttons that go one way at once there is one command each: left
/// for the lowest bit, right for the next, middle for the third, in that order.
pub proof fn law_button_commands_follow_the_mask(
    mask: u64,
    down: bool,
    x: i32,
    y: i32,
    command: InputCommand,
)
    ensures
        button_commands(mask, down, x, y).contains(command) <==> (command matches
            InputCommand::MouseButton { button, down: goes_down, x: at_x, y: at_y } && goes_down
            == down && at_x == x && at_y == y && match button {
            MouseButton::Left => mask & 1 != 0,
            MouseButton::Right => mask & 2 != 0,
            MouseButton::Middle => mask & 4 != 0,
        }),
        forall|i: int, j: int|
            0 <= i < j < button_commands(mask, down, x, y).len() ==> button_rank(
                (#[trigger] button_commands(mask, down, x, y)[i])->MouseButton_button,
            ) < button_rank((#[trigger] button_commands(mask, down, x, y)[j])->MouseButton_button),
{
    let left = button_command(mask, LEFT_BUTTON_MASK, MouseButton::Left, down, x, y);
    let right = button_command(mask, RIGHT_BUTTON_MASK, MouseButton::Right, down, x, y);
    let middle = button_command(mask, MIDDLE_BUTTON_MASK, MouseButton::Middle, down, x, y);
    let commands = button_commands(mask, down, x, y);
    assert(commands == left + right + middle);
    if mask & 1 != 0 {
        assert(commands[0] == InputCommand::MouseButton { button: MouseButton::Left, down, x, y });
    }
    if mask & 2 != 0 {
        assert(commands[left.len() as int] == InputCommand::MouseButton {
            button: MouseButton::Right,
            down,
            x,
            y,
        });
    }
    if mask & 4 != 0 {
        assert(commands[(left + right).len() as int] == InputCommand::MouseButton {
            button: MouseButton::Middle,
            down,
            x,
            y,
        });
    }
}

/// To reach a button state, exactly the buttons that are held and should not be
/// go up, and exactly those that should be held and are not go down; all
/// releases come first.
pub proof fn law_reconciliation_moves_the_right_buttons(
    previous: u64,
    authoritative: u64,
    x: i32,
    y: i32,
    button: MouseButton,
    down: bool,
)
    ensures
        ({
            let bit: u64 = match button {
                MouseButton::Left => 1,
                MouseButton::Right => 2,
                MouseButton::Middle => 4,
            };
            let command = InputCommand::MouseButton { button, down, x, y };
            reconcile_commands(previous, authoritative, x, y).contains(command) <==> (previous & bit
                != 0) != down && (authoritative & bit != 0) == down
        }),
        forall|i: int, j: int|
            0 <= i < j < reconcile_commands(previous, authoritative, x, y).len() && (
            #[trigger] reconcile_commands(previous, authoritative, x, y)[i])->MouseButton_down ==> (
            #[trigger] reconcile_commands(previous, authoritative, x, y)[j])->MouseButton_down,
{
    let command = InputCommand::MouseButton { button, down, x, y };
    let gone = previous & !authoritative;
    let new = authoritative & !previous;
    let releases = button_commands(gone, false, x, y);
    let presses = button_commands(new, true, x, y);
    let commands = reconcile_commands(previous, authoritative, x, y);
    assert(gone & 1 != 0 <==> previous & 1 != 0 && authoritative & 1 == 0) by (bit_vector)
        requires
            gone == previous & !authoritative,
    ;
    assert(gone & 2 != 0 <==> previous & 2 != 0 && authoritative & 2 == 0) by (bit_vector)
        requires
            gone == previous & !authoritative,
    ;
    assert(gone & 4 != 0 <==> previous & 4 != 0 && authoritative & 4 == 0) by (bit_vector)
        requires
            gone == previous & !authoritative,
    ;
    assert(new & 1 != 0 <==> authoritative & 1 != 0 && previous & 1 == 0) by (bit_vector)
        requires
            new == authoritative & !previous,
    ;
    assert(new & 2 != 0 <==> authoritative & 2 != 0 && previous & 2 == 0) by (bit_vector)
        requires
            new == authoritative & !previous,
    ;
    assert(new & 4 != 0 <==> authoritative & 4 != 0 && previous & 4 == 0) by (bit_vector)
        requires
            new == authoritative & !previous,
    ;
    law_button_commands_follow_the_mask(gone, false, x, y, command);
    law_button_commands_follow_the_mask(new, true, x, y, command);
    if releases.contains(command) {
        let i = choose|i: int| 0 <= i < releases.len() && releases[i] == command;
        assert(commands[i] == command);
    }
    if presses.contains(command) {
        let i = choose|i: int| 0 <= i < presses.len() && presses[i] == command;
        assert(commands[releases.len() + i] == command);
    }
    if commands.contains(command) {
        let i = choose|i: int| 0 <= i < commands.len() && commands[i] == command;
        if i < releases.len() {
            assert(releases[i] == command);
        } else {
            assert(presses[i - releases.len()] == command);
        }
    }
    assert forall|i: int| 0 <= i < releases.len() implies !(
    #[trigger] releases[i])->MouseButton_down by {
        law_button_commands_follow_the_mask(gone, false, x, y, releases[i]);
        assert(releases.contains(releases[i]));
    }
    assert forall|i: int| 0 <= i < presses.len() implies (
    #[trigger] presses[i])->MouseButton_down by {
        law_button_commands_follow_the_mask(new, true, x, y, presses[i]);
        assert(presses.contains(presses[i]));
    }
}

/// Control that changes hands lets go of what the former owner left held: each
/// of the carried buttons goes up where it was held, and all keys go up.
pub proof fn law_handover_lets_go(
    layout: LayoutState,
    native_layout: LayoutState,
    platform: Platform,
    state: ReceiverView,
    frame: FrameView,
    mapped: (i32, i32),
    now: u64,
    button: MouseButton,
)
    requires
        !frame.heartbeat,
        state.session.active.len() == 0,
        state.session.mouse.last_origin != frame.origin,
        frame.event is MouseMove || (frame.event is Key && frame.event->Key_down),
        event_is_mappable(layout, native_layout, frame.event),
        crate::session_laws::frame_is_new(state.session, frame),
    ensures
        ({
            let step = inject_step(layout, native_layout, platform, state, frame, mapped, now);
            let mouse = state.session.mouse;
            let held = match button {
                MouseButton::Left => mouse.buttons & 1 != 0,
                MouseButton::Right => mouse.buttons & 2 != 0,
                MouseButton::Middle => mouse.buttons & 4 != 0,
            };
            &&& mouse.buttons != 0 && held ==> step.actions.contains(
                InjectAction::Command(
                    InputCommand::MouseButton { button, down: false, x: mouse.x, y: mouse.y },
                ),
            )
            &&& frame.origin.len() > 0 ==> step.actions.contains(InjectAction::ResetKeys)
            &&& step.state.session.active == frame.origin
        }),
{
    let mouse = state.session.mouse;
    let step = inject_step(layout, native_layout, platform, state, frame, mapped, now);
    let admission = considered(state.session, frame).admission->0;
    let carried = carried_actions(admission.carried_buttons);
    let releases = button_commands(mouse.buttons, false, mouse.x, mouse.y);
    let release = InputCommand::MouseButton { button, down: false, x: mouse.x, y: mouse.y };
    law_button_commands_follow_the_mask(mouse.buttons, false, mouse.x, mouse.y, release);
    if mouse.buttons != 0 && releases.contains(release) {
        let i = choose|i: int| 0 <= i < releases.len() && releases[i] == release;
        assert(carried == command_actions(releases));
        assert(carried[i] == InjectAction::Command(release));
        assert(step.actions[i] == InjectAction::Command(release));
    }
    assert(step.actions[carried.len() as int] == InjectAction::ResetKeys);
}

/// A parked cursor comes back with active mouse input and with nothing else.
pub proof fn law_only_active_mouse_input_shows_the_cursor(command: InputCommand)
    ensures
        command is MouseMove || command is Scroll ==> reveals_cursor(command),
        command is MouseButton ==> reveals_cursor(command) == command->MouseButton_down,
        command is Key || command is CursorPark || command is ReleaseAll || command
            is SecureAttention ==> !reveals_cursor(command),
{
}

/// A heartbeat of the owner that tells the modifiers has them repaired.
pub proof fn law_heartbeats_repair_the_modifiers(
    layout: LayoutState,
    native_layout: LayoutState,
    platform: Platform,
    state: ReceiverView,
    frame: FrameView,
    mask: u8,
    mapped: (i32, i32),
    now: u64,
)
    requires
        frame.heartbeat,
        frame.event is MouseMove,
        state.session.active == frame.origin,
        event_is_mappable(layout, native_layout, frame.event),
        crate::session_laws::frame_is_new(state.session, frame),
        frame.key_sequence == 0,
    ensures
        ({
            let step = inject_step(layout, native_layout, platform, state, frame, mapped, now);
            &&& frame.modifier_snapshot == Some(mask) ==> step.actions.len() > 0
                && step.actions.last() == InjectAction::ReconcileModifiers(mask)
            &&& !step.outcome.injected
        }),
{
}

/// A multi-click is forgotten on macOS where control changes hands or is parked,
/// and is nothing to any other platform.
pub proof fn law_multi_clicks_end_with_control(
    admission: RemoteInputAdmission,
    platform: Platform,
)
    ensures
        ({
            let actions = handover_actions(admission, platform) + mouse_actions(
                admission,
                platform,
            );
            let parked = admission.mouse matches Some(mouse) && mouse.park_accepted;
            &&& platform == Platform::MacOs && (admission.origin_changed || parked)
                ==> actions.contains(InjectAction::ResetClickTracker)
            &&& platform != Platform::MacOs || !(admission.origin_changed || parked)
                ==> !actions.contains(InjectAction::ResetClickTracker)
        }),
{
    let handover = handover_actions(admission, platform);
    let mouse = mouse_actions(admission, platform);
    let actions = handover + mouse;
    if admission.origin_changed && platform == Platform::MacOs {
        assert(handover.last() == InjectAction::ResetClickTracker);
        assert(actions[handover.len() - 1] == InjectAction::ResetClickTracker);
    }
    if (admission.mouse matches Some(verdict) && verdict.park_accepted) && platform
        == Platform::MacOs {
        assert(mouse.last() == InjectAction::ResetClickTracker);
        assert(actions[handover.len() + mouse.len() - 1] == InjectAction::ResetClickTracker);
    }
}

/// The end of a session by the clock puts every held button up where the pointer
/// is and lets go of all keys.
pub proof fn law_expiry_releases_what_was_held(
    mouse: MouseView,
    platform: Platform,
    button: MouseButton,
)
    ensures
        ({
            let actions = expiry_actions(mouse, platform);
            let held = match button {
                MouseButton::Left => mouse.buttons & 1 != 0,
                MouseButton::Right => mouse.buttons & 2 != 0,
                MouseButton::Middle => mouse.buttons & 4 != 0,
            };
            &&& held ==> actions.contains(
                InjectAction::Command(
                    InputCommand::MouseButton { button, down: false, x: mouse.x, y: mouse.y },
                ),
            )
            &&& actions.contains(InjectAction::ResetKeys)
            &&& platform == Platform::MacOs ==> actions.last() == InjectAction::ResetClickTracker
            &&& platform != Platform::MacOs ==> actions.last() == InjectAction::ResetKeys
        }),
{
    let actions = expiry_actions(mouse, platform);
    let releases = button_commands(mouse.buttons, false, mouse.x, mouse.y);
    let release = InputCommand::MouseButton { button, down: false, x: mouse.x, y: mouse.y };
    law_button_commands_follow_the_mask(mouse.buttons, false, mouse.x, mouse.y, release);
    if releases.contains(release) {
        let i = choose|i: int| 0 <= i < releases.len() && releases[i] == release;
        assert(actions[i] == InjectAction::Command(release));
    }
    assert(actions[releases.len() as int] == InjectAction::ResetKeys);
}

/// A packet is looked at where it speaks the input protocol, is authorized, is
/// for this machine, and is a position if it is a heartbeat. Its frame is what it
/// carries.
pub proof fn law_packets_carry_their_frame(
    layout: LayoutState,
    packet: InputPacket,
    local_peer_id: Seq<char>,
    source_ip: Seq<char>,
    events: u64,
)
    ensures
        packet_is_considered(layout, packet, local_peer_id) <==> packet.protocol@
            == "mykvm.input.v1"@ && authorized(layout, input_credentials(packet)) && targets_local(
            layout,
            packet.target_device_id@,
            local_peer_id,
        ) && (packet.heartbeat ==> packet.event is MouseMove),
        packet_frame(packet, source_ip).event == packet.event@,
        packet_frame(packet, source_ip).origin == frame_origin(packet, source_ip),
        packet_frame(packet, source_ip).key_sequence == packet.key_sequence,
        packet_frame(packet, source_ip).heartbeat == packet.heartbeat,
        packet_frame(packet, source_ip).modifier_snapshot == packet.modifier_snapshot,
        events < u64::MAX ==> counted(events) == events + 1,
{
}

/// A button without a point can be placed anywhere; one with a point needs both
/// coordinates, the id of a screen, and a screen of this machine. Scrolls and keys
/// have no place.
pub proof fn law_buttons_are_placed_by_a_whole_point(
    layout: LayoutState,
    native_layout: LayoutState,
    event: InputEvent,
)
    ensures
        event is Scroll || event is Key ==> event_is_mappable(layout, native_layout, event@),
        event matches InputEvent::MouseButton { screen_id, x, y, .. } ==> {
            let mappable = event_is_mappable(layout, native_layout, event@);
            let placed = point_mapping(layout, native_layout, screen_id@) is Some;
            &&& x is None && y is None ==> mappable
            &&& x is Some != y is Some ==> !mappable
            &&& x is Some && y is Some && screen_id@.len() == 0 ==> !mappable
            &&& x is Some && y is Some && screen_id@.len() > 0 ==> mappable == placed
        },
        event matches InputEvent::MouseMove { screen_id, .. } ==> event_is_mappable(
            layout,
            native_layout,
            event@,
        ) == (point_mapping(layout, native_layout, screen_id@) is Some),
        event matches InputEvent::CursorPark { screen_id, .. } ==> event_is_mappable(
            layout,
            native_layout,
            event@,
        ) == (point_mapping(layout, native_layout, screen_id@) is Some),
{
}

} // verus!
