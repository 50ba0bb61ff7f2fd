//! The Windows input worker: it turns the events of the hooks into what is sent
//! to the controlled machine, and decides when control is given back.

use vstd::prelude::*;

use crate::capture::{
    motion_step, moved_on, roams_to, update_active_remote_screen, ActiveTarget,
    RemoteMotion, RemoteStep,
};
use crate::clipboard_target::{
    bound, clear_clipboard_target, clear_clipboard_target_if_device, cleared, cleared_if_bound,
    control_target, set_control_clipboard_target, BindingView, ClipboardBinding,
};
use crate::control::{
    button_view, ended_session, event_views, following_sequence, move_view,
    release_held_remote_inputs, release_views, send_remote_input_heartbeat, send_remote_mouse_move,
    ControlSession, ControlView, EndedControl,
};
use crate::hotkeys::{is_switch_hotkey, screen_switch_hotkey_matches_vk, HotkeyModifiers};
use crate::layout::LayoutState;
use crate::modifiers::{
    key_events, missed_presses, physical_modifier, reconcile_windows_authoritative_modifier_events,
    reconcile_windows_modifier_events, stale_forwarded, windows_modifier_family,
};
use crate::packets::{layout_value, report_due, take_report};
use crate::remote_mouse::EventView;
use crate::session::heartbeat_due;
use crate::shared_input::{families_mask, modifier_mask_for_keys, InputEvent, MouseButton};
use crate::windows_hooks::{
    clear_windows_remote_anchor, keys_of_bits, no_anchor, take_windows_local_mouse_move,
    windows_modifier_keys_from_bits, HookState, HookView, WindowsAnchor, WindowsCapturedEvent,
    WindowsMouseMoveSnapshot,
    WM_LBUTTONDOWN, WM_LBUTTONUP, WM_MBUTTONDOWN, WM_MBUTTONUP, WM_MOUSEHWHEEL, WM_MOUSEWHEEL,
    WM_RBUTTONDOWN, WM_RBUTTONUP,
};

verus! {

/// How often the worker looks at the input desktop.
pub const DESKTOP_CHECK_INTERVAL: u64 = 100_000_000;

/// How often the worker looks at the transport.
pub const TRANSPORT_CHECK_INTERVAL: u64 = 100_000_000;

/// How often the worker reports what was lost.
pub const DIAGNOSTICS_INTERVAL: u64 = 1_000_000_000;

/// The longest that messages are pumped at a time while an acknowledgement is
/// awaited.
pub const PUMP_SLICE: u64 = 20_000_000;

/// Some key of `keys` is of the same modifier as `key`.
pub open spec fn modifier_is_held(keys: Seq<u16>, key: u16) -> bool {
    exists|i: int|
        0 <= i < keys.len() && physical_modifier(#[trigger] keys[i]) == physical_modifier(key)
}

/// The held keys, and those of `physical` whose modifier is not among them.
pub open spec fn with_physical(held: Seq<u16>, physical: Seq<u16>) -> Seq<u16>
    decreases physical.len(),
{
    if physical.len() == 0 {
        held
    } else {
        let rest = with_physical(held, physical.drop_last());
        if modifier_is_held(rest, physical.last()) {
            rest
        } else {
            rest.push(physical.last())
        }
    }
}

fn holds_modifier(keys: &Vec<u16>, key: u16) -> (held: bool)
    ensures
        held == modifier_is_held(keys@, key),
{
    let family = windows_modifier_family(key);
    let mut index: usize = 0;
    while index < keys.len()
        invariant
            index <= keys@.len(),
            family == physical_modifier(key),
            forall|i: int|
                0 <= i < index ==> physical_modifier(#[trigger] keys@[i]) != physical_modifier(key),
        decreases keys@.len() - index,
    {
        if windows_modifier_family(keys[index]) == family {
            return true;
        }
        index += 1;
    }
    false
}

/// The modifiers that are taken as held: those that the hooks saw go down, and
/// those that the keyboard reports besides. The keyboard never takes one away.
pub open spec fn held_modifiers(bits: u64, physical: Seq<u16>) -> Seq<u16> {
    with_physical(keys_of_bits(bits), physical)
}

pub fn held_windows_modifiers(bits: u64, physical: &[u16]) -> (held: Vec<u16>)
    ensures
        held@ == held_modifiers(bits, physical@),
{
    let mut held = windows_modifier_keys_from_bits(bits);
    let mut index: usize = 0;
    assert(physical@.take(0) =~= Seq::<u16>::empty());
    while index < physical.len()
        invariant
            index <= physical@.len(),
            held@ == with_physical(keys_of_bits(bits), physical@.take(index as int)),
        decreases physical@.len() - index,
    {
        proof {
            assert(physical@.take(index + 1).drop_last() =~= physical@.take(index as int));
        }
        if !holds_modifier(&held, physical[index]) {
            held.push(physical[index]);
        }
        index += 1;
    }
    assert(physical@.take(physical@.len() as int) =~= physical@);
    held
}

/// What is sent for one captured event: first the modifiers that the other side
/// lacks, then the event with the state of the modifiers. A send that fails
/// ends the plan.
#[derive(Debug, PartialEq, Eq)]
pub struct SendPlan {
    pub repairs: Vec<InputEvent>,
    pub event: InputEvent,
    pub snapshot: Option<u8>,
}

/// The presses that the controlled machine lacks.
pub open spec fn modifier_repairs(bits: u64, physical: Seq<u16>, forwarded: Seq<u16>) -> Seq<
    InputEvent,
> {
    key_events(missed_presses(held_modifiers(bits, physical), forwarded), true)
}

/// The plan carries `event` after the missing modifiers.
pub open spec fn plan_sends(
    plan: SendPlan,
    session: ControlView,
    bits: u64,
    physical: Seq<u16>,
    event: EventView,
) -> bool {
    &&& plan.repairs@ == modifier_repairs(bits, physical, session.forwarded_keys)
    &&& plan.event@ == event
    &&& plan.snapshot == Some(families_mask(held_modifiers(bits, physical)))
}

/// The missing modifiers, and the state of all of them as a mask.
pub fn sync_held_modifiers_windows(bits: u64, physical: &[u16], forwarded: &[u16]) -> (sync: (
    Vec<InputEvent>,
    u8,
))
    ensures
        sync.0@ == modifier_repairs(bits, physical@, forwarded@),
        sync.1 == families_mask(held_modifiers(bits, physical@)),
{
    let held = held_windows_modifiers(bits, physical);
    (
        reconcile_windows_modifier_events(held.as_slice(), forwarded),
        modifier_mask_for_keys(held.as_slice()),
    )
}

/// The modifier bits as a hotkey sees them.
pub open spec fn hotkey_modifiers(bits: u64) -> HotkeyModifiers {
    HotkeyModifiers {
        ctrl: bits & 0x0C != 0,
        alt: bits & 0x30 != 0,
        shift: bits & 0x03 != 0,
        meta: bits & 0xC0 != 0,
    }
}

/// The key switches screens.
pub open spec fn is_switch_key(layout: Option<LayoutState>, key_code: u16, bits: u64) -> bool {
    layout matches Some(layout) && layout.machine_role@ == "server"@ && is_switch_hotkey(
        layout.screen_switch_hotkeys,
        key_code,
        hotkey_modifiers(bits),
    )
}

pub fn windows_event_matches_screen_switch_hotkey(
    layout: Option<&LayoutState>,
    key_code: u16,
    bits: u64,
) -> (matched: bool)
    ensures
        matched == is_switch_key(layout_value(layout), key_code, bits),
{
    screen_switch_hotkey_matches_vk(
        layout,
        key_code,
        HotkeyModifiers {
            ctrl: bits & 0x0C != 0,
            alt: bits & 0x30 != 0,
            shift: bits & 0x03 != 0,
            meta: bits & 0xC0 != 0,
        },
    )
}

/// What a captured key comes to.
#[derive(Debug, PartialEq, Eq)]
pub enum KeyStep {
    /// No machine is controlled.
    Refused,
    /// The key gives control back.
    ReturnToLocal,
    Send(SendPlan),
}

/// Decides over a captured key. A hotkey gives control back; a modifier is sent
/// as it is; any other key goes with the state of the modifiers.
pub fn handle_windows_key(
    session: &ControlSession,
    layout: Option<&LayoutState>,
    key_code: u16,
    down: bool,
    bits: u64,
    physical: &[u16],
) -> (step: KeyStep)
    ensures
        if session@.active is None {
            step is Refused
        } else if down && is_switch_key(layout_value(layout), key_code, bits) {
            step is ReturnToLocal
        } else {
            step matches KeyStep::Send(plan) && if physical_modifier(key_code) is None {
                plan_sends(
                    plan,
                    session@,
                    bits,
                    physical@,
                    (EventView::Key { key_code, down }),
                )
            } else {
                &&& plan.repairs@.len() == 0
                &&& plan.event@ == (EventView::Key { key_code, down })
                &&& plan.snapshot is None
            }
        },
{
    if session.active.is_none() {
        return KeyStep::Refused;
    }
    if down && windows_event_matches_screen_switch_hotkey(layout, key_code, bits) {
        return KeyStep::ReturnToLocal;
    }
    let event = InputEvent::Key { key_code, down };
    if windows_modifier_family(key_code).is_none() {
        let (repairs, snapshot) = sync_held_modifiers_windows(
            bits,
            physical,
            session.forwarded_keys.as_slice(),
        );
        KeyStep::Send(SendPlan { repairs, event, snapshot: Some(snapshot) })
    } else {
        KeyStep::Send(SendPlan { repairs: Vec::new(), event, snapshot: None })
    }
}

/// The key transitions that bring the controlled machine in line with an
/// authoritative reading of the modifiers; none while nothing is controlled.
pub fn handle_windows_modifier_snapshot(session: &ControlSession, bits: u64) -> (transitions: Vec<
    InputEvent,
>)
    ensures
        transitions@ == if session@.active is None {
            Seq::empty()
        } else {
            key_events(stale_forwarded(keys_of_bits(bits), session@.forwarded_keys), false)
                + key_events(missed_presses(keys_of_bits(bits), session@.forwarded_keys), true)
        },
{
    if session.active.is_none() {
        let none: Vec<InputEvent> = Vec::new();
        assert(none@ =~= Seq::<InputEvent>::empty());
        return none;
    }
    let held = windows_modifier_keys_from_bits(bits);
    reconcile_windows_authoritative_modifier_events(
        held.as_slice(),
        session.forwarded_keys.as_slice(),
    )
}

/// The button transition that a message stands for.
pub open spec fn button_message(message: u32) -> Option<(MouseButton, bool)> {
    if message == WM_LBUTTONDOWN {
        Some((MouseButton::Left, true))
    } else if message == WM_LBUTTONUP {
        Some((MouseButton::Left, false))
    } else if message == WM_RBUTTONDOWN {
        Some((MouseButton::Right, true))
    } else if message == WM_RBUTTONUP {
        Some((MouseButton::Right, false))
    } else if message == WM_MBUTTONDOWN {
        Some((MouseButton::Middle, true))
    } else if message == WM_MBUTTONUP {
        Some((MouseButton::Middle, false))
    } else {
        None
    }
}

fn message_button(message: u32) -> (transition: Option<(MouseButton, bool)>)
    ensures
        transition == button_message(message),
{
    match message {
        WM_LBUTTONDOWN => Some((MouseButton::Left, true)),
        WM_LBUTTONUP => Some((MouseButton::Left, false)),
        WM_RBUTTONDOWN => Some((MouseButton::Right, true)),
        WM_RBUTTONUP => Some((MouseButton::Right, false)),
        WM_MBUTTONDOWN => Some((MouseButton::Middle, true)),
        WM_MBUTTONUP => Some((MouseButton::Middle, false)),
        _ => None,
    }
}

/// Decides over a captured button. There is no plan where no machine is
/// controlled or the message is no button.
pub fn handle_windows_mouse_button(
    session: &mut ControlSession,
    message: u32,
    bits: u64,
    physical: &[u16],
    point: (i32, i32),
) -> (plan: Option<SendPlan>)
    ensures
        match (old(session)@.active, button_message(message)) {
            (Some(active), Some((button, down))) => {
                &&& plan matches Some(plan) && plan_sends(
                    plan,
                    old(session)@,
                    bits,
                    physical@,
                    button_view(active, button, down, point, old(session)@.next_sequence),
                )
                &&& final(session)@ == (ControlView {
                    next_sequence: following_sequence(old(session)@.next_sequence),
                    ..old(session)@
                })
            },
            _ => plan is None && final(session)@ == old(session)@,
        },
{
    let screen_id = match &session.active {
        Some(active) => active.current_screen_id.clone(),
        None => return None,
    };
    let (button, down) = match message_button(message) {
        Some(transition) => transition,
        None => return None,
    };
    let (repairs, snapshot) = sync_held_modifiers_windows(
        bits,
        physical,
        session.forwarded_keys.as_slice(),
    );
    let sequence: u64 = session.sequences.take();
    let event = InputEvent::MouseButton {
        button,
        down,
        screen_id,
        x: Some(point.0),
        y: Some(point.1),
        sequence,
    };
    Some(SendPlan { repairs, event, snapshot: Some(snapshot) })
}

/// The signed high word of the wheel data.
pub open spec fn wheel_delta(mouse_data: u32) -> int {
    let high = (mouse_data / 65536) as int;
    if high >= 32768 {
        high - 65536
    } else {
        high
    }
}

/// The whole notches that the wheel turned.
pub open spec fn wheel_notches(mouse_data: u32) -> int {
    let delta = wheel_delta(mouse_data);
    if delta >= 0 {
        delta / 120
    } else {
        -((-delta) / 120)
    }
}

fn notches(mouse_data: u32) -> (count: i32)
    ensures
        count == wheel_notches(mouse_data),
        -273 <= count <= 273,
{
    let high: i32 = (mouse_data / 65536) as i32;
    if high >= 32768 {
        let back: i32 = 65536 - high;
        -(back / 120)
    } else {
        high / 120
    }
}

/// The turn of a wheel: the horizontal wheel moves along the first axis.
pub open spec fn scroll_view(message: u32, mouse_data: u32, sequence: u64) -> EventView {
    let notches = wheel_notches(mouse_data) as i32;
    if message == WM_MOUSEHWHEEL {
        EventView::Scroll { delta_x: notches, delta_y: 0, sequence }
    } else {
        EventView::Scroll { delta_x: 0, delta_y: notches, sequence }
    }
}

/// Decides over a captured wheel. There is no plan where no machine is
/// controlled or the message is no wheel.
pub fn handle_windows_scroll(
    session: &mut ControlSession,
    message: u32,
    mouse_data: u32,
    bits: u64,
    physical: &[u16],
) -> (plan: Option<SendPlan>)
    ensures
        if old(session)@.active is Some && (message == WM_MOUSEWHEEL || message == WM_MOUSEHWHEEL) {
            &&& plan matches Some(plan) && plan_sends(
                plan,
                old(session)@,
                bits,
                physical@,
                scroll_view(message, mouse_data, old(session)@.next_sequence),
            )
            &&& final(session)@ == (ControlView {
                next_sequence: following_sequence(old(session)@.next_sequence),
                ..old(session)@
            })
        } else {
            plan is None && final(session)@ == old(session)@
        },
{
    if session.active.is_none() {
        return None;
    }
    let delta: i32 = notches(mouse_data);
    let (delta_x, delta_y) = if message == WM_MOUSEHWHEEL {
        (delta, 0)
    } else if message == WM_MOUSEWHEEL {
        (0, delta)
    } else {
        return None;
    };
    let (repairs, snapshot) = sync_held_modifiers_windows(
        bits,
        physical,
        session.forwarded_keys.as_slice(),
    );
    let sequence: u64 = session.sequences.take();
    let event = InputEvent::Scroll { delta_x, delta_y, sequence };
    Some(SendPlan { repairs, event, snapshot: Some(snapshot) })
}

/// The session after a release that found nothing to end.
pub open spec fn quiet_session(session: ControlView) -> ControlView {
    ControlView {
        remote_active: false,
        forwarded_keys: Seq::empty(),
        buttons: 0,
        last_move: None,
        ..session
    }
}

/// Control is given back: everything held is released, the park last, and the
/// session and the clipboard no longer belong to the other machine.
pub open spec fn lets_go(
    ended: Option<EndedControl>,
    before: ControlView,
    after: ControlView,
    clipboard: BindingView,
    clipboard_after: BindingView,
) -> bool {
    match before.active {
        Some(active) => {
            &&& ended matches Some(ended) && ended.active == active && event_views(ended.events@)
                == release_views(before, active, Seq::empty())
            &&& after == ended_session(before)
            &&& clipboard_after == cleared_if_bound(clipboard, active.target.device_id@)
        },
        None => {
            &&& ended is None
            &&& after == quiet_session(before)
            &&& clipboard_after == cleared(clipboard)
        },
    }
}

/// Gives control back; the anchor and the last position are forgotten too.
pub fn release_windows_remote_control(
    session: &mut ControlSession,
    anchor: &mut WindowsAnchor,
    last_point: &mut Option<(i32, i32)>,
    clipboard: &mut ClipboardBinding,
) -> (ended: Option<EndedControl>)
    ensures
        *final(anchor) == no_anchor(),
        *final(last_point) is None,
        lets_go(ended, old(session)@, final(session)@, old(clipboard)@, final(clipboard)@),
{
    let ghost before = session@;
    clear_windows_remote_anchor(anchor);
    *last_point = None;
    session.remote_active = false;
    session.last_move = None;
    match session.active.take() {
        Some(active) => {
            let no_modifiers: Vec<u16> = Vec::new();
            let ghost waiting = session@;
            let events = release_held_remote_inputs(session, &active, no_modifiers.as_slice());
            clear_clipboard_target_if_device(clipboard, active.target.device_id.as_str());
            proof {
                assert(no_modifiers@ =~= Seq::<u16>::empty());
                assert(release_views(waiting, active, Seq::empty()) =~= release_views(
                    before,
                    active,
                    Seq::empty(),
                ));
                assert(session@ =~= ended_session(before));
            }
            Some(EndedControl { active, events })
        },
        None => {
            session.buttons = 0;
            session.forwarded_keys = Vec::new();
            clear_clipboard_target(clipboard);
            assert(session@ =~= quiet_session(before));
            None
        },
    }
}

/// What a movement on the controlled machine comes to.
#[derive(Debug, PartialEq, Eq)]
pub enum DeltaStep {
    /// No machine is controlled.
    Refused,
    /// Nothing moved.
    Unmoved,
    /// The pointer moved; it is to be held on its screen and sent.
    Moved(RemoteStep),
    /// Control came back over the shared edge.
    Returned(EndedControl),
}

/// Decides over a movement on the controlled machine. Over the shared edge
/// control comes back, and everything held is released, the park last.
pub fn handle_windows_remote_mouse_delta(
    session: &mut ControlSession,
    motion: RemoteMotion,
    layout: Option<&LayoutState>,
    anchor: &mut WindowsAnchor,
    clipboard: &mut ClipboardBinding,
) -> (step: DeltaStep)
    ensures
        match old(session)@.active {
            None => {
                &&& step is Refused
                &&& final(session)@ == old(session)@
                &&& *final(anchor) == *old(anchor)
                &&& final(clipboard)@ == old(clipboard)@
            },
            Some(active) => if motion.dx == 0 && motion.dy == 0 {
                &&& step is Unmoved
                &&& final(session)@ == old(session)@
                &&& *final(anchor) == *old(anchor)
                &&& final(clipboard)@ == old(clipboard)@
            } else {
                let led_to = motion_step(active, motion, layout_value(layout));
                if led_to == RemoteStep::Return {
                    &&& step matches DeltaStep::Returned(ended) && ended.active == active
                        && event_views(ended.events@) == release_views(
                        old(session)@,
                        active,
                        Seq::empty(),
                    )
                    &&& final(session)@ == ended_session(old(session)@)
                    &&& *final(anchor) == no_anchor()
                    &&& final(clipboard)@ == cleared_if_bound(
                        old(clipboard)@,
                        active.target.device_id@,
                    )
                } else {
                    &&& step == DeltaStep::Moved(led_to)
                    &&& final(session)@.active matches Some(after) && (led_to != RemoteStep::Roam
                        ==> after == active) && final(session)@ == (ControlView {
                        active: Some(after),
                        ..old(session)@
                    })
                    &&& led_to == RemoteStep::Roam ==> exists|i: int|
                        {
                            &&& #[trigger] roams_to(
                                layout_value(layout)->0,
                                active,
                                motion.global_x,
                                motion.global_y,
                                i,
                            )
                            &&& forall|j: int|
                                0 <= j < i ==> !#[trigger] roams_to(
                                    layout_value(layout)->0,
                                    active,
                                    motion.global_x,
                                    motion.global_y,
                                    j,
                                )
                            &&& moved_on(
                                active,
                                final(session)@.active->0,
                                layout_value(layout)->0,
                                i,
                            )
                        }
                    &&& *final(anchor) == *old(anchor)
                    &&& final(clipboard)@ == old(clipboard)@
                }
            },
        },
{
    let ghost before = session@;
    if session.active.is_none() {
        return DeltaStep::Refused;
    }
    if motion.dx == 0 && motion.dy == 0 {
        return DeltaStep::Unmoved;
    }
    let mut active = match session.active.take() {
        Some(active) => active,
        None => return DeltaStep::Refused,
    };
    let led_to = update_active_remote_screen(
        &mut active,
        motion.x,
        motion.y,
        motion.global_x,
        motion.global_y,
        motion.dx,
        motion.dy,
        layout,
    );
    match led_to {
        RemoteStep::Return => {
            let no_modifiers: Vec<u16> = Vec::new();
            let ghost waiting = session@;
            let events = release_held_remote_inputs(session, &active, no_modifiers.as_slice());
            session.remote_active = false;
            session.last_move = None;
            clear_clipboard_target_if_device(clipboard, active.target.device_id.as_str());
            clear_windows_remote_anchor(anchor);
            proof {
                assert(no_modifiers@ =~= Seq::<u16>::empty());
                assert(release_views(waiting, active, Seq::empty()) =~= release_views(
                    before,
                    active,
                    Seq::empty(),
                ));
                assert(session@ =~= ended_session(before));
            }
            DeltaStep::Returned(EndedControl { active, events })
        },
        other => {
            session.active = Some(active);
            DeltaStep::Moved(other)
        },
    }
}

/// What a movement on this machine comes to: nothing while another one is
/// controlled, else a movement from the last point that may cross an edge. A
/// point that repeats at the edge of the desktop is a push against it.
#[derive(Debug, Clone, Copy, PartialEq, Eq, Structural)]
pub enum LocalMoveStep {
    Ignored,
    Probe { dx: i64, dy: i64, repeated: bool },
}

pub fn handle_windows_local_mouse_move(
    session: &ControlSession,
    last_point: &mut Option<(i32, i32)>,
    snapshot: WindowsMouseMoveSnapshot,
) -> (step: LocalMoveStep)
    ensures
        if session@.remote_active {
            step == LocalMoveStep::Ignored && *final(last_point) == *old(last_point)
        } else {
            &&& *final(last_point) == Some((snapshot.x, snapshot.y))
            &&& step == (match *old(last_point) {
                Some((x, y)) => LocalMoveStep::Probe {
                    dx: (snapshot.x - x) as i64,
                    dy: (snapshot.y - y) as i64,
                    repeated: snapshot.x == x && snapshot.y == y,
                },
                None => LocalMoveStep::Probe { dx: 0, dy: 0, repeated: false },
            })
        },
{
    if session.remote_active {
        return LocalMoveStep::Ignored;
    }
    let previous = *last_point;
    *last_point = Some((snapshot.x, snapshot.y));
    match previous {
        Some((x, y)) => LocalMoveStep::Probe {
            dx: snapshot.x as i64 - x as i64,
            dy: snapshot.y as i64 - y as i64,
            repeated: snapshot.x == x && snapshot.y == y,
        },
        None => LocalMoveStep::Probe { dx: 0, dy: 0, repeated: false },
    }
}

/// Opens the control of another machine: the first pointer position to send.
pub fn begin_windows_control(session: &mut ControlSession, active: ActiveTarget, point: (i32, i32)) -> (opening:
    InputEvent)
    ensures
        opening@ == move_view(active, point, 0, old(session)@.next_sequence),
        final(session)@ == (ControlView {
            active: Some(active),
            remote_active: true,
            next_sequence: following_sequence(old(session)@.next_sequence),
            ..old(session)@
        }),
{
    let opening = send_remote_mouse_move(&active, point, &mut session.sequences);
    session.active = Some(active);
    session.remote_active = true;
    opening
}

/// How an entry into another machine ended.
#[derive(Debug, PartialEq, Eq)]
pub enum WindowsEntry {
    /// The other machine is controlled; these presses follow the opening.
    Entered(Vec<InputEvent>),
    /// The opening was not sent, and control is given back.
    Failed(Option<EndedControl>),
}

/// Goes on after the opening position. Where it was sent, the modifiers that are
/// held follow it, and the clipboard goes to the entered machine; otherwise
/// control is given back.
pub fn finish_windows_entry(
    session: &mut ControlSession,
    anchor: &mut WindowsAnchor,
    last_point: &mut Option<(i32, i32)>,
    sent: bool,
    bits: u64,
    physical: &[u16],
    clipboard: &mut ClipboardBinding,
    now: u64,
) -> (entry: WindowsEntry)
    ensures
        if sent {
            &&& entry matches WindowsEntry::Entered(repairs) && repairs@ == modifier_repairs(
                bits,
                physical@,
                old(session)@.forwarded_keys,
            )
            &&& *final(anchor) == *old(anchor)
            &&& *final(last_point) == *old(last_point)
            &&& final(session)@ == (ControlView { last_move: Some(now), buttons: 0, ..old(session)@ })
            &&& final(clipboard)@ == (match old(session)@.active {
                Some(active) => bound(old(clipboard)@, control_target(active.target)),
                None => old(clipboard)@,
            })
        } else {
            &&& entry matches WindowsEntry::Failed(ended) && lets_go(
                ended,
                old(session)@,
                final(session)@,
                old(clipboard)@,
                final(clipboard)@,
            )
            &&& *final(anchor) == no_anchor()
            &&& *final(last_point) is None
        },
{
    if !sent {
        return WindowsEntry::Failed(
            release_windows_remote_control(session, anchor, last_point, clipboard),
        );
    }
    session.last_move = Some(now);
    session.buttons = 0;
    let (repairs, _) = sync_held_modifiers_windows(
        bits,
        physical,
        session.forwarded_keys.as_slice(),
    );
    if let Some(active) = &session.active {
        set_control_clipboard_target(clipboard, &active.target);
    }
    WindowsEntry::Entered(repairs)
}

/// What the worker does for an event.
#[derive(Debug, PartialEq, Eq)]
pub enum WorkerAction {
    /// Look at these positions, one after the other.
    LocalMoves(Vec<WindowsMouseMoveSnapshot>),
    /// Move the pointer of the controlled machine, with the movements that
    /// follow at once.
    RemoteDelta { dx: i64, dy: i64 },
    Send(SendPlan),
    /// Send these, one after the other.
    Transitions(Vec<InputEvent>),
    /// Give control back.
    Release,
}

/// Takes up one event of the hooks. `point` is where the pointer is on the
/// controlled machine.
pub fn run_windows_input_worker(
    session: &mut ControlSession,
    hooks: &mut HookState,
    event: &WindowsCapturedEvent,
    layout: Option<&LayoutState>,
    physical: &[u16],
    point: (i32, i32),
) -> (action: WorkerAction)
    ensures
        event !is LocalMouseMoveReady ==> final(hooks)@ == old(hooks)@,
        !(event is MouseButton || event is Scroll) ==> final(session)@ == old(session)@,
        match *event {
            WindowsCapturedEvent::LocalMouseMoveReady => {
                &&& action matches WorkerAction::LocalMoves(moves) && moves@ == old(hooks)@.pending
                &&& final(hooks)@ == (HookView {
                    pending: Seq::empty(),
                    move_notified: false,
                    ..old(hooks)@
                })
            },
            WindowsCapturedEvent::RemoteMouseDelta { dx, dy } => action
                == (WorkerAction::RemoteDelta { dx, dy }),
            WindowsCapturedEvent::MouseButton { message, modifier_bits } => match (
                old(session)@.active,
                button_message(message),
            ) {
                (Some(active), Some((button, down))) => {
                    &&& action matches WorkerAction::Send(plan) && plan_sends(
                        plan,
                        old(session)@,
                        modifier_bits,
                        physical@,
                        button_view(active, button, down, point, old(session)@.next_sequence),
                    )
                    &&& final(session)@ == (ControlView {
                        next_sequence: following_sequence(old(session)@.next_sequence),
                        ..old(session)@
                    })
                },
                _ => action is Release && final(session)@ == old(session)@,
            },
            WindowsCapturedEvent::Scroll { message, mouse_data, modifier_bits } => {
                if old(session)@.active is Some && (message == WM_MOUSEWHEEL || message
                    == WM_MOUSEHWHEEL) {
                    &&& action matches WorkerAction::Send(plan) && plan_sends(
                        plan,
                        old(session)@,
                        modifier_bits,
                        physical@,
                        scroll_view(message, mouse_data, old(session)@.next_sequence),
                    )
                    &&& final(session)@ == (ControlView {
                        next_sequence: following_sequence(old(session)@.next_sequence),
                        ..old(session)@
                    })
                } else {
                    action is Release && final(session)@ == old(session)@
                }
            },
            WindowsCapturedEvent::Key { key_code, down, modifier_bits } => {
                if old(session)@.active is None || (down && is_switch_key(
                    layout_value(layout),
                    key_code,
                    modifier_bits,
                )) {
                    action is Release
                } else {
                    action matches WorkerAction::Send(plan) && if physical_modifier(
                        key_code,
                    ) is None {
                        plan_sends(
                            plan,
                            old(session)@,
                            modifier_bits,
                            physical@,
                            (EventView::Key { key_code, down }),
                        )
                    } else {
                        &&& plan.repairs@.len() == 0
                        &&& plan.event@ == (EventView::Key { key_code, down })
                        &&& plan.snapshot is None
                    }
                }
            },
            WindowsCapturedEvent::ModifierSnapshot { modifier_bits } => {
                action matches WorkerAction::Transitions(events) && events@ == if old(
                    session,
                )@.active is None {
                    Seq::empty()
                } else {
                    key_events(
                        stale_forwarded(
                            keys_of_bits(modifier_bits),
                            old(session)@.forwarded_keys,
                        ),
                        false,
                    ) + key_events(
                        missed_presses(keys_of_bits(modifier_bits), old(session)@.forwarded_keys),
                        true,
                    )
                }
            },
            WindowsCapturedEvent::Release | WindowsCapturedEvent::Shutdown => action is Release,
        },
{
    match event {
        WindowsCapturedEvent::LocalMouseMoveReady => WorkerAction::LocalMoves(
            take_windows_local_mouse_move(hooks),
        ),
        WindowsCapturedEvent::RemoteMouseDelta { dx, dy } => WorkerAction::RemoteDelta {
            dx: *dx,
            dy: *dy,
        },
        WindowsCapturedEvent::MouseButton { message, modifier_bits } => {
            match handle_windows_mouse_button(session, *message, *modifier_bits, physical, point) {
                Some(plan) => WorkerAction::Send(plan),
                None => WorkerAction::Release,
            }
        },
        WindowsCapturedEvent::Scroll { message, mouse_data, modifier_bits } => {
            match handle_windows_scroll(session, *message, *mouse_data, *modifier_bits, physical) {
                Some(plan) => WorkerAction::Send(plan),
                None => WorkerAction::Release,
            }
        },
        WindowsCapturedEvent::Key { key_code, down, modifier_bits } => {
            match handle_windows_key(session, layout, *key_code, *down, *modifier_bits, physical) {
                KeyStep::Send(plan) => WorkerAction::Send(plan),
                KeyStep::Refused | KeyStep::ReturnToLocal => WorkerAction::Release,
            }
        },
        WindowsCapturedEvent::ModifierSnapshot { modifier_bits } => WorkerAction::Transitions(
            handle_windows_modifier_snapshot(session, *modifier_bits),
        ),
        WindowsCapturedEvent::Release | WindowsCapturedEvent::Shutdown => WorkerAction::Release,
    }
}

/// What the worker does after an event.
#[derive(Debug, Clone, Copy, PartialEq, Eq, Structural)]
pub struct WorkerOutcome {
    /// Control is to be given back.
    pub release: bool,
    /// The worker goes on.
    pub running: bool,
}

/// Goes on after an event: one that could not be handled gives control back, as
/// does a request. A request also forgets the modifiers and may be made again.
pub fn finish_worker_event(hooks: &mut HookState, event: &WindowsCapturedEvent, handled: bool) -> (outcome:
    WorkerOutcome)
    ensures
        outcome == (match *event {
            WindowsCapturedEvent::LocalMouseMoveReady => WorkerOutcome {
                release: false,
                running: true,
            },
            WindowsCapturedEvent::Release => WorkerOutcome { release: true, running: true },
            WindowsCapturedEvent::Shutdown => WorkerOutcome { release: true, running: false },
            _ => WorkerOutcome { release: !handled, running: true },
        }),
        final(hooks)@ == if event is Release {
            HookView { modifier_bits: 0, release_notified: false, ..old(hooks)@ }
        } else {
            old(hooks)@
        },
{
    match event {
        WindowsCapturedEvent::LocalMouseMoveReady => WorkerOutcome {
            release: false,
            running: true,
        },
        WindowsCapturedEvent::Release => {
            hooks.modifier_bits = 0;
            hooks.release_notified = false;
            WorkerOutcome { release: true, running: true }
        },
        WindowsCapturedEvent::Shutdown => WorkerOutcome { release: true, running: false },
        _ => WorkerOutcome { release: !handled, running: true },
    }
}

/// When the worker last did what it does from time to time.
#[derive(Debug, Clone, Copy, PartialEq, Eq, Structural)]
pub struct WorkerTimers {
    pub desktop: Option<u64>,
    pub transport: Option<u64>,
    pub diagnostics: Option<u64>,
}

/// What the worker has to do now.
#[derive(Debug, Clone, Copy, PartialEq, Eq, Structural)]
pub struct WorkerDue {
    pub desktop: bool,
    pub transport: bool,
    pub diagnostics: bool,
}

/// The timers of a worker that starts: the desktop is looked at at once, the
/// rest after its interval.
pub fn start_worker_timers(now: u64) -> (timers: WorkerTimers)
    ensures
        timers == (WorkerTimers { desktop: None, transport: Some(now), diagnostics: Some(now) }),
{
    WorkerTimers { desktop: None, transport: Some(now), diagnostics: Some(now) }
}

pub open spec fn timer_after(timer: Option<u64>, now: u64, interval: u64) -> Option<u64> {
    if report_due(timer, now, interval) {
        Some(now)
    } else {
        timer
    }
}

/// What is due after an event; what is due counts as done.
pub fn worker_checks_due(timers: &mut WorkerTimers, now: u64) -> (due: WorkerDue)
    ensures
        due == (WorkerDue {
            desktop: report_due(old(timers).desktop, now, DESKTOP_CHECK_INTERVAL),
            transport: report_due(old(timers).transport, now, TRANSPORT_CHECK_INTERVAL),
            diagnostics: report_due(old(timers).diagnostics, now, DIAGNOSTICS_INTERVAL),
        }),
        *final(timers) == (WorkerTimers {
            desktop: timer_after(old(timers).desktop, now, DESKTOP_CHECK_INTERVAL),
            transport: timer_after(old(timers).transport, now, TRANSPORT_CHECK_INTERVAL),
            diagnostics: timer_after(old(timers).diagnostics, now, DIAGNOSTICS_INTERVAL),
        }),
{
    let desktop = take_report(&mut timers.desktop, now, DESKTOP_CHECK_INTERVAL);
    let transport = take_report(&mut timers.transport, now, TRANSPORT_CHECK_INTERVAL);
    let diagnostics = take_report(&mut timers.diagnostics, now, DIAGNOSTICS_INTERVAL);
    WorkerDue { desktop, transport, diagnostics }
}

/// Whether control is given back because the normal desktop is gone; the
/// modifiers are then forgotten too.
pub fn check_worker_desktop(hooks: &mut HookState, desktop_is_default: bool) -> (release: bool)
    ensures
        release == !desktop_is_default,
        final(hooks)@ == if desktop_is_default {
            old(hooks)@
        } else {
            HookView { modifier_bits: 0, ..old(hooks)@ }
        },
{
    if desktop_is_default {
        return false;
    }
    hooks.modifier_bits = 0;
    true
}

/// What a look at the transport asks for.
#[derive(Debug, PartialEq, Eq)]
pub enum TransportStep {
    /// Give control back.
    Release,
    /// Send the heartbeat with the state of the modifiers.
    Heartbeat { event: InputEvent, snapshot: u8 },
    /// Look for a switch request.
    Drain,
}

/// Looks after the controlled machine: a failed transport gives control back,
/// else a heartbeat is sent if one is due. `point` is where the pointer is there.
pub fn check_worker_transport(
    session: &mut ControlSession,
    modifier_bits: u64,
    failed: bool,
    point: (i32, i32),
    now: u64,
) -> (step: TransportStep)
    ensures
        if failed {
            step is Release && final(session)@ == old(session)@
        } else {
            match old(session)@.active {
                None => {
                    &&& step is Drain
                    &&& final(session)@ == (ControlView { last_heartbeat: None, ..old(session)@ })
                },
                Some(active) => if heartbeat_due(old(session)@.last_heartbeat, now) {
                    &&& step matches TransportStep::Heartbeat { event, snapshot } && snapshot
                        == families_mask(keys_of_bits(modifier_bits)) && event@ == move_view(
                        active,
                        point,
                        old(session)@.buttons,
                        old(session)@.next_sequence,
                    )
                    &&& final(session)@ == (ControlView {
                        last_heartbeat: Some(now),
                        next_sequence: following_sequence(old(session)@.next_sequence),
                        ..old(session)@
                    })
                } else {
                    step is Drain && final(session)@ == old(session)@
                },
            }
        },
{
    if failed {
        return TransportStep::Release;
    }
    match send_remote_input_heartbeat(session, point, now) {
        Some(event) => {
            let held = windows_modifier_keys_from_bits(modifier_bits);
            TransportStep::Heartbeat { event, snapshot: modifier_mask_for_keys(held.as_slice()) }
        },
        None => TransportStep::Drain,
    }
}

/// Goes on after a heartbeat: one that was not sent gives control back.
pub fn finish_worker_heartbeat(sent: bool) -> (step: TransportStep)
    ensures
        step == if sent {
            TransportStep::Drain
        } else {
            TransportStep::Release
        },
{
    if sent {
        TransportStep::Drain
    } else {
        TransportStep::Release
    }
}

/// Takes the counts of what was lost since the last report, if there were any.
pub fn take_worker_diagnostics(hooks: &mut HookState) -> (lost: Option<(u64, u64)>)
    ensures
        final(hooks)@ == (HookView { dropped_moves: 0, warp_failures: 0, ..old(hooks)@ }),
        lost == if old(hooks)@.dropped_moves != 0 || old(hooks)@.warp_failures != 0 {
            Some((old(hooks)@.dropped_moves, old(hooks)@.warp_failures))
        } else {
            None
        },
{
    let dropped: u64 = hooks.dropped_moves;
    let failures: u64 = hooks.warp_failures;
    hooks.dropped_moves = 0;
    hooks.warp_failures = 0;
    if dropped != 0 || failures != 0 {
        Some((dropped, failures))
    } else {
        None
    }
}

/// What a look at the acknowledgement of the worker shows.
#[derive(Debug, Clone, Copy, PartialEq, Eq, Structural)]
pub enum AckPoll {
    Acknowledged,
    Disconnected,
    Empty,
}

/// What the waiting side does next.
#[derive(Debug, Clone, Copy, PartialEq, Eq, Structural)]
pub enum AckStep {
    Done(bool),
    /// Pump messages for at most the given time and look again.
    Pump(u64),
}

/// Waits for the worker without leaving the message queue unserved, which the
/// worker may depend on.
pub fn wait_for_worker_ack_with_pump(poll: AckPoll, elapsed: u64, timeout: u64) -> (step: AckStep)
    ensures
        step == (match poll {
            AckPoll::Acknowledged => AckStep::Done(true),
            AckPoll::Disconnected => AckStep::Done(false),
            AckPoll::Empty => if elapsed >= timeout {
                AckStep::Done(false)
            } else if timeout - elapsed < PUMP_SLICE {
                AckStep::Pump((timeout - elapsed) as u64)
            } else {
                AckStep::Pump(PUMP_SLICE)
            },
        }),
{
    match poll {
        AckPoll::Acknowledged => AckStep::Done(true),
        AckPoll::Disconnected => AckStep::Done(false),
        AckPoll::Empty => {
            if elapsed >= timeout {
                AckStep::Done(false)
            } else if timeout - elapsed < PUMP_SLICE {
                AckStep::Pump(timeout - elapsed)
            } else {
                AckStep::Pump(PUMP_SLICE)
            }
        },
    }
}

/// Each button message is that of one button and one direction.
pub proof fn law_messages_name_their_button(message: u32)
    ensures
        button_message(message) == Some((MouseButton::Left, true)) <==> message == 0x0201,
        button_message(message) == Some((MouseButton::Left, false)) <==> message == 0x0202,
        button_message(message) == Some((MouseButton::Right, true)) <==> message == 0x0204,
        button_message(message) == Some((MouseButton::Right, false)) <==> message == 0x0205,
        button_message(message) == Some((MouseButton::Middle, true)) <==> message == 0x0207,
        button_message(message) == Some((MouseButton::Middle, false)) <==> message == 0x0208,
        button_message(message) is None <==> !(0x0201 <= message <= 0x0202 || 0x0204 <= message
            <= 0x0205 || 0x0207 <= message <= 0x0208),
{
}

/// The high word of the wheel data is a signed number. A full notch is a hundred
/// and twenty of it, forward or back; what is left of one does not count.
pub proof fn law_wheels_turn_both_ways(turned: i16, low: u16, mouse_data: u32)
    requires
        mouse_data == 65536 * (if turned < 0 {
            turned + 65536
        } else {
            turned as int
        }) + low,
    ensures
        wheel_delta(mouse_data) == turned,
        turned >= 0 ==> 0 <= turned - 120 * wheel_notches(mouse_data) < 120,
        turned <= 0 ==> 0 <= 120 * wheel_notches(mouse_data) - turned < 120,
{
}

/// The upright wheel scrolls down the page and the level one across it, by as
/// many notches as it turned and in the direction of the turn.
pub proof fn law_wheels_scroll_along_their_axis(mouse_data: u32, sequence: u64)
    ensures
        scroll_view(0x020A, mouse_data, sequence) matches EventView::Scroll {
            delta_x,
            delta_y,
            sequence: number,
        } && delta_x == 0 && delta_y == wheel_notches(mouse_data) && number == sequence,
        scroll_view(0x020E, mouse_data, sequence) matches EventView::Scroll {
            delta_x,
            delta_y,
            sequence: number,
        } && delta_x == wheel_notches(mouse_data) && delta_y == 0 && number == sequence,
{
}

/// A hotkey sees a modifier where either of its sides is down.
pub proof fn law_hotkeys_see_either_side(bits: u64)
    ensures
        hotkey_modifiers(bits).shift <==> bits & 0x01 != 0 || bits & 0x02 != 0,
        hotkey_modifiers(bits).ctrl <==> bits & 0x04 != 0 || bits & 0x08 != 0,
        hotkey_modifiers(bits).alt <==> bits & 0x10 != 0 || bits & 0x20 != 0,
        hotkey_modifiers(bits).meta <==> bits & 0x40 != 0 || bits & 0x80 != 0,
{
    assert((bits & 0x03 != 0 <==> bits & 0x01 != 0 || bits & 0x02 != 0) && (bits & 0x0C != 0
        <==> bits & 0x04 != 0 || bits & 0x08 != 0) && (bits & 0x30 != 0 <==> bits & 0x10 != 0 || bits
        & 0x20 != 0) && (bits & 0xC0 != 0 <==> bits & 0x40 != 0 || bits & 0x80 != 0))
        by (bit_vector);
}

/// A key switches screens only on the controlling machine, and by one of its
/// hotkeys.
pub proof fn law_worker_switches_by_hotkey(layout: LayoutState, key_code: u16, bits: u64)
    ensures
        is_switch_key(Some(layout), key_code, bits) <==> layout.machine_role@ == "server"@
            && is_switch_hotkey(layout.screen_switch_hotkeys, key_code, hotkey_modifiers(bits)),
        !is_switch_key(None, key_code, bits),
{
}

proof fn lemma_with_physical(held: Seq<u16>, physical: Seq<u16>, key: u16)
    ensures
        held.contains(key) ==> with_physical(held, physical).contains(key),
        physical.contains(key) ==> modifier_is_held(with_physical(held, physical), key),
        with_physical(held, physical).contains(key) ==> held.contains(key) || physical.contains(
            key,
        ),
        modifier_is_held(held, key) ==> modifier_is_held(with_physical(held, physical), key),
        modifier_is_held(with_physical(held, physical), key) ==> modifier_is_held(held, key)
            || modifier_is_held(physical, key),
    decreases physical.len(),
{
    if physical.len() > 0 {
        let shorter = physical.drop_last();
        let rest = with_physical(held, shorter);
        let all = with_physical(held, physical);
        lemma_with_physical(held, shorter, key);
        assert(physical[physical.len() - 1] == physical.last());
        if rest.contains(key) {
            let i = choose|i: int| 0 <= i < rest.len() && rest[i] == key;
            assert(all[i] == key);
        }
        if physical.contains(key) && key != physical.last() {
            let i = choose|i: int| 0 <= i < physical.len() && physical[i] == key;
            assert(shorter[i] == key);
        }
        if shorter.contains(key) {
            let i = choose|i: int| 0 <= i < shorter.len() && shorter[i] == key;
            assert(physical[i] == key);
        }
        if all.contains(key) && !rest.contains(key) {
            let i = choose|i: int| 0 <= i < all.len() && all[i] == key;
            if i < rest.len() {
                assert(rest[i] == key);
            }
        }
        if all.len() > rest.len() {
            assert(all[all.len() - 1] == physical.last());
        }
        if modifier_is_held(rest, key) {
            let i = choose|i: int|
                0 <= i < rest.len() && physical_modifier(#[trigger] rest[i]) == physical_modifier(
                    key,
                );
            assert(all[i] == rest[i]);
        }
        if modifier_is_held(shorter, key) {
            let i = choose|i: int|
                0 <= i < shorter.len() && physical_modifier(#[trigger] shorter[i])
                    == physical_modifier(key);
            assert(physical[i] == shorter[i]);
        }
        if modifier_is_held(all, key) && !modifier_is_held(rest, key) {
            let i = choose|i: int|
                0 <= i < all.len() && physical_modifier(#[trigger] all[i]) == physical_modifier(key);
            if i < rest.len() {
                assert(rest[i] == all[i]);
            }
        }
    }
}

/// What the hooks saw go down is held, and what the keyboard shows is held as
/// well, under that key or another of the same modifier. Nothing else is, and a
/// keyboard that shows nothing takes nothing away.
pub proof fn law_hooks_and_keyboard_add_up(bits: u64, physical: Seq<u16>, key: u16)
    ensures
        keys_of_bits(bits).contains(key) ==> held_modifiers(bits, physical).contains(key),
        physical.contains(key) ==> modifier_is_held(held_modifiers(bits, physical), key),
        held_modifiers(bits, physical).contains(key) ==> keys_of_bits(bits).contains(key)
            || physical.contains(key),
        held_modifiers(bits, Seq::empty()) == keys_of_bits(bits),
{
    lemma_with_physical(keys_of_bits(bits), physical, key);
}

/// Control that was given back leaves nothing held and nothing controlled; the
/// numbers go on.
pub proof fn law_released_sessions_hold_nothing(session: ControlView)
    ensures
        ({
            let ended = ended_session(session);
            let quiet = quiet_session(session);
            &&& ended.active is None
            &&& !ended.remote_active
            &&& ended.forwarded_keys.len() == 0
            &&& ended.buttons == 0
            &&& ended.last_move is None
            &&& !quiet.remote_active
            &&& quiet.forwarded_keys.len() == 0
            &&& quiet.buttons == 0
            &&& quiet.last_move is None
            &&& quiet.active == session.active
            &&& quiet.next_sequence == session.next_sequence
            &&& session.buttons & 7 == 0 && session.next_sequence < u64::MAX ==> ended.next_sequence
                == session.next_sequence + 1
        }),
{
    let buttons = session.buttons;
    assert(buttons & 7 == 0 ==> buttons & 1 == 0 && buttons & 2 == 0 && buttons & 4 == 0)
        by (bit_vector);
}

/// The worker looks at the desktop and the transport ten times a second, and
/// reports once.
pub proof fn law_worker_looks_in_time(last: u64, now: u64)
    requires
        last <= now,
    ensures
        report_due(Some(last), now, DESKTOP_CHECK_INTERVAL) <==> now - last >= 100_000_000,
        report_due(Some(last), now, TRANSPORT_CHECK_INTERVAL) <==> now - last >= 100_000_000,
        report_due(Some(last), now, DIAGNOSTICS_INTERVAL) <==> now - last >= 1_000_000_000,
        timer_after(Some(last), now, DESKTOP_CHECK_INTERVAL) == (if now - last >= 100_000_000 {
            Some(now)
        } else {
            Some(last)
        }),
{
}

/// Control that was let go of is nobody's any more. Every held key and button of
/// the controlled machine goes up and the park comes last; the clipboard is not
/// bound to that machine, or to nobody where none was controlled.
pub proof fn law_let_go_control_is_gone(
    ended: Option<EndedControl>,
    before: ControlView,
    after: ControlView,
    clipboard: BindingView,
    clipboard_after: BindingView,
    key_code: u16,
)
    requires
        lets_go(ended, before, after, clipboard, clipboard_after),
    ensures
        after.active is None,
        !after.remote_active,
        after.forwarded_keys.len() == 0,
        after.buttons == 0,
        before.active is None ==> ended is None && clipboard_after.target is None
            && after.next_sequence == before.next_sequence,
        before.active matches Some(active) ==> {
            &&& ended matches Some(ended) && ended.active == active && ended.events@.len() > 0
                && ended.events@.last() is CursorPark
            &&& !(clipboard_after.target matches Some(target) && target.device_id
                == active.target.device_id@)
        },
        ended matches Some(ended) ==> before.forwarded_keys.contains(key_code) ==> event_views(
            ended.events@,
        ).contains((EventView::Key { key_code, down: false })),
{
    if let Some(active) = before.active {
        let ended = ended->0;
        let views = event_views(ended.events@);
        let released = release_views(before, active, Seq::empty());
        assert(views == released);
        crate::control::law_release_leaves_nothing_held(
            before,
            active,
            Seq::empty(),
            key_code,
            MouseButton::Left,
        );
        assert(views.last() == ended.events@.last()@);
    }
}

/// Before an event the target is sent a press, and never a release, of exactly
/// those held modifiers of which it was sent none. The event itself goes as it
/// is, with the mask of all held modifiers.
pub proof fn law_plans_repair_the_missing_modifiers(
    plan: SendPlan,
    session: ControlView,
    bits: u64,
    physical: Seq<u16>,
    event: EventView,
    key: u16,
    family: u8,
)
    requires
        plan_sends(plan, session, bits, physical, event),
        family == 1 || family == 2 || family == 4 || family == 8,
    ensures
        plan.event@ == event,
        plan.repairs@.contains((InputEvent::Key { key_code: key, down: true })) <==> {
            &&& held_modifiers(bits, physical).contains(key)
            &&& crate::shared_input::modifier_family(key) matches Some(own) && !(exists|i: int|
                0 <= i < session.forwarded_keys.len() && crate::shared_input::modifier_family(
                    #[trigger] session.forwarded_keys[i],
                ) == Some(own))
        },
        !plan.repairs@.contains((InputEvent::Key { key_code: key, down: false })),
        plan.snapshot matches Some(mask) && (mask & family != 0 <==> exists|i: int|
            0 <= i < held_modifiers(bits, physical).len() && crate::shared_input::modifier_family(
                #[trigger] held_modifiers(bits, physical)[i],
            ) == Some(family)),
{
    let held = held_modifiers(bits, physical);
    let missed = missed_presses(held, session.forwarded_keys);
    crate::modifiers::law_missed_and_stale_keys_are_exact(held, session.forwarded_keys, key);
    crate::shared_input::law_masks_show_the_held_families(held, family);
    let repairs = plan.repairs@;
    assert(repairs == key_events(missed, true));
    if missed.contains(key) {
        let i = choose|i: int| 0 <= i < missed.len() && missed[i] == key;
        assert(repairs[i] == (InputEvent::Key { key_code: key, down: true }));
    }
    if repairs.contains((InputEvent::Key { key_code: key, down: true })) {
        let i = choose|i: int|
            0 <= i < repairs.len() && repairs[i] == (InputEvent::Key { key_code: key, down: true });
        assert(missed[i] == key);
    }
}

} // verus!
