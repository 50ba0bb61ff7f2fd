//! What the controlled machine knows of the remote pointer: its position and
//! buttons, and per sender which numbered mouse frames it has seen.

use vstd::prelude::*;

use crate::key_sequence::larger;
use crate::origin_map::OriginMap;
use crate::shared_input::{
    button_bit, button_from_mask, mouse_button_mask, primary_button, InputEvent, MouseButton,
    LEFT_BUTTON_MASK, MIDDLE_BUTTON_MASK, RIGHT_BUTTON_MASK,
};
use crate::text::same_text;

verus! {

/// An input event with its screen id as a character sequence.
#[allow(inconsistent_fields)]
pub enum EventView {
    MouseMove {
        screen_id: Seq<char>,
        x: i32,
        y: i32,
        drag_button: Option<MouseButton>,
        button_mask: Option<u64>,
        sequence: u64,
    },
    MouseButton {
        button: MouseButton,
        down: bool,
        screen_id: Seq<char>,
        x: Option<i32>,
        y: Option<i32>,
        sequence: u64,
    },
    Scroll { delta_x: i32, delta_y: i32, sequence: u64 },
    Key { key_code: u16, down: bool },
    CursorPark { screen_id: Seq<char>, x: i32, y: i32, sequence: u64 },
}

impl View for InputEvent {
    type V = EventView;

    open spec fn view(&self) -> EventView {
        match *self {
            InputEvent::MouseMove { screen_id, x, y, drag_button, button_mask, sequence } => {
                EventView::MouseMove {
                    screen_id: screen_id@,
                    x,
                    y,
                    drag_button,
                    button_mask,
                    sequence,
                }
            },
            InputEvent::MouseButton { button, down, screen_id, x, y, sequence } => {
                EventView::MouseButton { button, down, screen_id: screen_id@, x, y, sequence }
            },
            InputEvent::Scroll { delta_x, delta_y, sequence } => {
                EventView::Scroll { delta_x, delta_y, sequence }
            },
            InputEvent::Key { key_code, down } => EventView::Key { key_code, down },
            InputEvent::CursorPark { screen_id, x, y, sequence } => {
                EventView::CursorPark { screen_id: screen_id@, x, y, sequence }
            },
        }
    }
}

/// The mouse sequence of an event; a key has none.
pub open spec fn mouse_sequence(event: EventView) -> Option<u64> {
    match event {
        EventView::MouseMove { sequence, .. } => Some(sequence),
        EventView::MouseButton { sequence, .. } => Some(sequence),
        EventView::CursorPark { sequence, .. } => Some(sequence),
        EventView::Scroll { sequence, .. } => Some(sequence),
        EventView::Key { .. } => None,
    }
}

pub fn input_event_mouse_sequence(event: &InputEvent) -> (sequence: Option<u64>)
    ensures
        sequence == mouse_sequence(event@),
{
    match event {
        InputEvent::MouseMove { sequence, .. } => Some(*sequence),
        InputEvent::MouseButton { sequence, .. } => Some(*sequence),
        InputEvent::CursorPark { sequence, .. } => Some(*sequence),
        InputEvent::Scroll { sequence, .. } => Some(*sequence),
        InputEvent::Key { .. } => None,
    }
}

/// Only moves and presses may start a session; releases, scrolls and parks
/// are remains of an earlier one.
pub open spec fn can_claim_origin(event: EventView) -> bool {
    match event {
        EventView::MouseMove { .. } => true,
        EventView::Key { down, .. } => down,
        EventView::MouseButton { down, .. } => down,
        _ => false,
    }
}

pub fn input_event_can_claim_origin(event: &InputEvent) -> (can_claim: bool)
    ensures
        can_claim == can_claim_origin(event@),
{
    match event {
        InputEvent::MouseMove { .. } => true,
        InputEvent::Key { down, .. } => *down,
        InputEvent::MouseButton { down, .. } => *down,
        _ => false,
    }
}

#[derive(Debug, Clone, Copy, PartialEq, Eq)]
pub struct RemoteMouseSequenceState {
    pub last_position_sequence: u64,
    pub last_button_snapshot_sequence: u64,
    pub last_scroll_sequence: u64,
    pub last_boundary_sequence: u64,
    pub last_button_sequence: [u64; 3],
}

/// The mouse high-water marks of one sender.
pub struct MouseMarks {
    pub position: u64,
    pub snapshot: u64,
    pub scroll: u64,
    pub boundary: u64,
    pub left: u64,
    pub right: u64,
    pub middle: u64,
}

impl View for RemoteMouseSequenceState {
    type V = MouseMarks;

    open spec fn view(&self) -> MouseMarks {
        MouseMarks {
            position: self.last_position_sequence,
            snapshot: self.last_button_snapshot_sequence,
            scroll: self.last_scroll_sequence,
            boundary: self.last_boundary_sequence,
            left: self.last_button_sequence@[0],
            right: self.last_button_sequence@[1],
            middle: self.last_button_sequence@[2],
        }
    }
}

pub open spec fn no_mouse_marks() -> MouseMarks {
    MouseMarks { position: 0, snapshot: 0, scroll: 0, boundary: 0, left: 0, right: 0, middle: 0 }
}

impl Default for RemoteMouseSequenceState {
    fn default() -> (state: Self)
        ensures
            state@ == no_mouse_marks(),
    {
        RemoteMouseSequenceState {
            last_position_sequence: 0,
            last_button_snapshot_sequence: 0,
            last_scroll_sequence: 0,
            last_boundary_sequence: 0,
            last_button_sequence: [0, 0, 0],
        }
    }
}

pub open spec fn mouse_marks_of(
    marks: Map<Seq<char>, MouseMarks>,
    origin: Seq<char>,
) -> MouseMarks {
    if marks.contains_key(origin) {
        marks[origin]
    } else {
        no_mouse_marks()
    }
}

#[derive(Debug)]
pub struct RemoteMouseState {
    pub x: i32,
    pub y: i32,
    pub buttons: u64,
    pub last_origin_id: String,
    pub sequence_by_origin: OriginMap<RemoteMouseSequenceState>,
}

#[verifier::ext_equal]
pub struct MouseView {
    pub x: i32,
    pub y: i32,
    pub buttons: u64,
    pub last_origin: Seq<char>,
    pub marks: Map<Seq<char>, MouseMarks>,
}

impl View for RemoteMouseState {
    type V = MouseView;

    open spec fn view(&self) -> MouseView {
        MouseView {
            x: self.x,
            y: self.y,
            buttons: self.buttons,
            last_origin: self.last_origin_id@,
            marks: self.sequence_by_origin@.map_values(|state: RemoteMouseSequenceState| state@),
        }
    }
}

/// A pointer that was never driven.
pub open spec fn fresh_mouse() -> MouseView {
    MouseView { x: 0, y: 0, buttons: 0, last_origin: Seq::empty(), marks: Map::empty() }
}

impl Default for RemoteMouseState {
    fn default() -> (state: Self)
        ensures
            state@ == fresh_mouse(),
    {
        let state = RemoteMouseState {
            x: 0,
            y: 0,
            buttons: 0,
            last_origin_id: String::new(),
            sequence_by_origin: OriginMap::new(),
        };
        assert(state@ =~= fresh_mouse());
        state
    }
}

pub open spec fn button_mark(marks: MouseMarks, button: MouseButton) -> u64 {
    match button {
        MouseButton::Left => marks.left,
        MouseButton::Right => marks.right,
        MouseButton::Middle => marks.middle,
    }
}

pub open spec fn with_button_mark(
    marks: MouseMarks,
    button: MouseButton,
    sequence: u64,
) -> MouseMarks {
    match button {
        MouseButton::Left => MouseMarks { left: sequence, ..marks },
        MouseButton::Right => MouseMarks { right: sequence, ..marks },
        MouseButton::Middle => MouseMarks { middle: sequence, ..marks },
    }
}

/// Whether a mouse event numbered `sequence` is newer than what it has to
/// follow. A release may still end a press of an ended session, a press may
/// not start in one.
pub open spec fn mouse_event_is_fresh(marks: MouseMarks, event: EventView) -> bool {
    match event {
        EventView::MouseMove { sequence, .. } => sequence > marks.position,
        EventView::CursorPark { sequence, .. } => sequence > marks.position,
        EventView::Scroll { sequence, .. } => sequence > marks.scroll && sequence
            > marks.boundary,
        EventView::MouseButton { button, down, sequence, .. } => sequence > button_mark(
            marks,
            button,
        ) && (down ==> sequence > marks.boundary),
        EventView::Key { .. } => true,
    }
}

/// The marks after a fresh mouse event. A move only takes its position number
/// when `commit_position` says so.
pub open spec fn marks_after_mouse_event(
    marks: MouseMarks,
    event: EventView,
    commit_position: bool,
) -> MouseMarks {
    match event {
        EventView::MouseMove { sequence, .. } => if commit_position {
            MouseMarks { position: sequence, ..marks }
        } else {
            marks
        },
        EventView::CursorPark { sequence, .. } => MouseMarks {
            position: sequence,
            boundary: sequence,
            ..marks
        },
        EventView::Scroll { sequence, .. } => MouseMarks { scroll: sequence, ..marks },
        EventView::MouseButton { button, sequence, .. } => MouseMarks {
            position: larger(marks.position, sequence),
            ..with_button_mark(marks, button, sequence)
        },
        EventView::Key { .. } => marks,
    }
}

/// A button event that was overtaken by a newer position keeps its transition
/// and loses its coordinates.
pub open spec fn event_after_ordering(marks: MouseMarks, event: EventView) -> EventView {
    match event {
        EventView::MouseButton { button, down, sequence, .. } if sequence <= marks.position => {
            EventView::MouseButton {
                button,
                down,
                screen_id: Seq::empty(),
                x: None,
                y: None,
                sequence,
            }
        },
        _ => event,
    }
}

/// The pointer after `origin` took it over.
pub open spec fn mouse_after_switch(mouse: MouseView, origin: Seq<char>) -> MouseView {
    if mouse.last_origin == origin {
        mouse
    } else {
        MouseView { last_origin: origin, buttons: 0, ..mouse }
    }
}

/// The buttons that the previous origin left held, with where they are held.
pub open spec fn carried_by_switch(mouse: MouseView, origin: Seq<char>) -> Option<
    (u64, i32, i32),
> {
    if mouse.last_origin == origin || mouse.buttons == 0 {
        None
    } else {
        Some((mouse.buttons, mouse.x, mouse.y))
    }
}

/// Hands the pointer to `origin_id`.
pub fn switch_remote_mouse_origin(state: &mut RemoteMouseState, origin_id: &str) -> (carried:
    Option<(u64, i32, i32)>)
    ensures
        carried == carried_by_switch(old(state)@, origin_id@),
        final(state)@ == mouse_after_switch(old(state)@, origin_id@),
{
    if same_text(state.last_origin_id.as_str(), origin_id) {
        return None;
    }
    let carried = if state.buttons != 0 {
        Some((state.buttons, state.x, state.y))
    } else {
        None
    };
    state.last_origin_id = origin_id.to_owned();
    state.buttons = 0;
    carried
}

pub open spec fn numbered(event: EventView) -> bool {
    mouse_sequence(event) matches Some(sequence) && sequence != 0
}

/// Whether the ordering check lets a mouse event through.
pub open spec fn prepare_accepts(mouse: MouseView, origin: Seq<char>, event: EventView) -> bool {
    numbered(event) ==> mouse_event_is_fresh(mouse_marks_of(mouse.marks, origin), event)
}

/// The pointer state after the ordering check of `event`.
pub open spec fn prepared_mouse(
    mouse: MouseView,
    origin: Seq<char>,
    event: EventView,
    activate: bool,
    commit_position: bool,
) -> MouseView {
    let marks = mouse_marks_of(mouse.marks, origin);
    let ordered = if !numbered(event) {
        mouse
    } else if mouse_event_is_fresh(marks, event) {
        MouseView {
            marks: mouse.marks.insert(
                origin,
                marks_after_mouse_event(marks, event, commit_position),
            ),
            ..mouse
        }
    } else {
        MouseView { marks: mouse.marks.insert(origin, marks), ..mouse }
    };
    if activate && prepare_accepts(mouse, origin, event) {
        mouse_after_switch(ordered, origin)
    } else {
        ordered
    }
}

/// The event as it goes on after the ordering check.
pub open spec fn prepared_event(
    mouse: MouseView,
    origin: Seq<char>,
    event: EventView,
) -> EventView {
    let marks = mouse_marks_of(mouse.marks, origin);
    if numbered(event) && mouse_event_is_fresh(marks, event) {
        event_after_ordering(marks, event)
    } else {
        event
    }
}

/// The buttons that the ordering check of `event` takes from another origin.
pub open spec fn prepared_carry(
    mouse: MouseView,
    origin: Seq<char>,
    event: EventView,
    activate: bool,
) -> Option<(u64, i32, i32)> {
    if activate && prepare_accepts(mouse, origin, event) {
        carried_by_switch(mouse, origin)
    } else {
        None
    }
}

fn sequences_of(state: &RemoteMouseState, origin_id: &str) -> (sequences: RemoteMouseSequenceState)
    ensures
        sequences@ == mouse_marks_of(state@.marks, origin_id@),
{
    match state.sequence_by_origin.get(origin_id) {
        Some(sequences) => *sequences,
        None => RemoteMouseSequenceState::default(),
    }
}

fn record_sequences(
    state: &mut RemoteMouseState,
    origin_id: &str,
    sequences: RemoteMouseSequenceState,
)
    ensures
        final(state)@ == (MouseView {
            marks: old(state)@.marks.insert(origin_id@, sequences@),
            ..old(state)@
        }),
{
    let ghost before = state@;
    state.sequence_by_origin.insert(origin_id, sequences);
    proof {
        assert(state@.marks =~= before.marks.insert(origin_id@, sequences@));
    }
}

fn raise_button(sequences: &mut RemoteMouseSequenceState, button: MouseButton, sequence: u64)
    ensures
        final(sequences)@ == with_button_mark(
            old(sequences)@,
            button,
            larger(button_mark(old(sequences)@, button), sequence),
        ),
{
    let index: usize = match button {
        MouseButton::Left => 0,
        MouseButton::Right => 1,
        MouseButton::Middle => 2,
    };
    let mut marks: [u64; 3] = sequences.last_button_sequence;
    if sequence > marks[index] {
        marks[index] = sequence;
    }
    sequences.last_button_sequence = marks;
}

/// Orders a mouse event of the session owner.
pub fn prepare_remote_mouse_event(
    state: &mut RemoteMouseState,
    origin_id: &str,
    event: &mut InputEvent,
) -> (prepared: (bool, Option<(u64, i32, i32)>))
    ensures
        prepared.0 == prepare_accepts(old(state)@, origin_id@, old(event)@),
        prepared.1 == prepared_carry(old(state)@, origin_id@, old(event)@, true),
        final(state)@ == prepared_mouse(old(state)@, origin_id@, old(event)@, true, true),
        final(event)@ == prepared_event(old(state)@, origin_id@, old(event)@),
{
    prepare_remote_mouse_event_for_origin(state, origin_id, event, true, true)
}

/// Checks a mouse event against the marks of its sender. The first component
/// says whether it may go on, the second which buttons it takes over.
pub fn prepare_remote_mouse_event_for_origin(
    state: &mut RemoteMouseState,
    origin_id: &str,
    event: &mut InputEvent,
    activate: bool,
    commit_position_sequence: bool,
) -> (prepared: (bool, Option<(u64, i32, i32)>))
    ensures
        prepared.0 == prepare_accepts(old(state)@, origin_id@, old(event)@),
        prepared.1 == prepared_carry(old(state)@, origin_id@, old(event)@, activate),
        final(state)@ == prepared_mouse(
            old(state)@,
            origin_id@,
            old(event)@,
            activate,
            commit_position_sequence,
        ),
        final(event)@ == prepared_event(old(state)@, origin_id@, old(event)@),
{
    let sequence: u64 = match input_event_mouse_sequence(event) {
        Some(sequence) => sequence,
        None => 0,
    };
    if sequence == 0 {
        let carried = if activate {
            switch_remote_mouse_origin(state, origin_id)
        } else {
            None
        };
        return (true, carried);
    }
    let mut sequences = sequences_of(state, origin_id);
    let ghost marks = sequences@;
    let fresh: bool = match event {
        InputEvent::MouseMove { .. } => {
            let fresh = sequence > sequences.last_position_sequence;
            if fresh && commit_position_sequence {
                sequences.last_position_sequence = sequence;
            }
            fresh
        },
        InputEvent::CursorPark { .. } => {
            let fresh = sequence > sequences.last_position_sequence;
            if fresh {
                sequences.last_position_sequence = sequence;
                sequences.last_boundary_sequence = sequence;
            }
            fresh
        },
        InputEvent::Scroll { .. } => {
            let fresh = sequence > sequences.last_scroll_sequence && sequence
                > sequences.last_boundary_sequence;
            if fresh {
                sequences.last_scroll_sequence = sequence;
            }
            fresh
        },
        InputEvent::MouseButton { button, down, screen_id, x, y, .. } => {
            let last: u64 = match *button {
                MouseButton::Left => sequences.last_button_sequence[0],
                MouseButton::Right => sequences.last_button_sequence[1],
                MouseButton::Middle => sequences.last_button_sequence[2],
            };
            let fresh = sequence > last && (!*down || sequence > sequences.last_boundary_sequence);
            if fresh {
                raise_button(&mut sequences, *button, sequence);
                if sequence > sequences.last_position_sequence {
                    sequences.last_position_sequence = sequence;
                } else {
                    *screen_id = String::new();
                    *x = None;
                    *y = None;
                }
            }
            fresh
        },
        InputEvent::Key { .. } => false,
    };
    record_sequences(state, origin_id, sequences);
    if !fresh {
        return (false, None);
    }
    let carried = if activate {
        switch_remote_mouse_origin(state, origin_id)
    } else {
        None
    };
    (true, carried)
}

/// The button state that a move or park transmits, with its number and
/// whether it is a park.
pub open spec fn transmitted_buttons(event: EventView) -> Option<(u64, u64, bool)> {
    match event {
        EventView::MouseMove { button_mask: Some(mask), sequence, .. } => Some(
            (mask, sequence, false),
        ),
        EventView::CursorPark { sequence, .. } => Some((0, sequence, true)),
        _ => None,
    }
}

/// Whether the transmitted buttons are older than the last reliable button
/// snapshot of that sender.
pub open spec fn buttons_are_stale(mouse: MouseView, origin: Seq<char>, sequence: u64) -> bool {
    sequence != 0 && sequence <= mouse_marks_of(mouse.marks, origin).snapshot
}

/// A late heartbeat or an event without button state changes nothing.
pub open spec fn buttons_apply(
    mouse: MouseView,
    origin: Seq<char>,
    event: EventView,
    heartbeat: bool,
) -> bool {
    match transmitted_buttons(event) {
        Some((_, sequence, _)) => !(heartbeat && buttons_are_stale(mouse, origin, sequence)),
        None => false,
    }
}

/// The buttons that are held after `event`: its own, unless it is a move that
/// a reliable snapshot has overtaken.
pub open spec fn authoritative_buttons(
    mouse: MouseView,
    origin: Seq<char>,
    event: EventView,
    heartbeat: bool,
) -> u64 {
    match transmitted_buttons(event) {
        Some((mask, sequence, park)) => if !buttons_apply(mouse, origin, event, heartbeat) || (
        !heartbeat && !park && buttons_are_stale(mouse, origin, sequence)) {
            mouse.buttons
        } else {
            mask
        },
        None => mouse.buttons,
    }
}

pub open spec fn raised_if(mark: u64, sequence: u64, raise: bool) -> u64 {
    if raise {
        larger(mark, sequence)
    } else {
        mark
    }
}

/// The marks after the button state of `event` was applied.
pub open spec fn marks_after_buttons(
    marks: MouseMarks,
    sequence: u64,
    park: bool,
    heartbeat: bool,
    changed: u64,
) -> MouseMarks {
    MouseMarks {
        snapshot: raised_if(marks.snapshot, sequence, heartbeat || park),
        left: raised_if(marks.left, sequence, park || changed & LEFT_BUTTON_MASK != 0),
        right: raised_if(marks.right, sequence, park || changed & RIGHT_BUTTON_MASK != 0),
        middle: raised_if(marks.middle, sequence, park || changed & MIDDLE_BUTTON_MASK != 0),
        ..marks
    }
}

/// The pointer state after the button state of `event` was applied.
pub open spec fn mouse_after_buttons(
    mouse: MouseView,
    origin: Seq<char>,
    event: EventView,
    heartbeat: bool,
) -> MouseView {
    match transmitted_buttons(event) {
        Some((_, sequence, park)) if buttons_apply(mouse, origin, event, heartbeat) => {
            let buttons = authoritative_buttons(mouse, origin, event, heartbeat);
            MouseView {
                buttons,
                marks: if sequence == 0 {
                    mouse.marks
                } else {
                    mouse.marks.insert(
                        origin,
                        marks_after_buttons(
                            mouse_marks_of(mouse.marks, origin),
                            sequence,
                            park,
                            heartbeat,
                            mouse.buttons ^ buttons,
                        ),
                    )
                },
                ..mouse
            }
        },
        _ => mouse,
    }
}

/// The transition that the operating system still has to see: held before,
/// held now, and where.
pub open spec fn button_reconciliation(
    mouse: MouseView,
    origin: Seq<char>,
    event: EventView,
    heartbeat: bool,
) -> Option<(u64, u64, i32, i32)> {
    let buttons = authoritative_buttons(mouse, origin, event, heartbeat);
    if buttons == mouse.buttons {
        None
    } else {
        Some((mouse.buttons, buttons, mouse.x, mouse.y))
    }
}

/// A move with an overtaken button state goes on with the held buttons.
pub open spec fn event_after_buttons(
    mouse: MouseView,
    origin: Seq<char>,
    event: EventView,
    heartbeat: bool,
) -> EventView {
    match event {
        EventView::MouseMove { screen_id, x, y, button_mask: Some(_), sequence, .. } if !heartbeat
            && buttons_are_stale(mouse, origin, sequence) => EventView::MouseMove {
            screen_id,
            x,
            y,
            drag_button: primary_button(mouse.buttons),
            button_mask: Some(mouse.buttons),
            sequence,
        },
        _ => event,
    }
}

pub open spec fn park_applies(
    mouse: MouseView,
    origin: Seq<char>,
    event: EventView,
    heartbeat: bool,
) -> bool {
    event is CursorPark && buttons_apply(mouse, origin, event, heartbeat)
}

/// Applies the button state of an ordinary event.
pub fn authoritative_mouse_button_state(
    state: &mut RemoteMouseState,
    origin_id: &str,
    event: &mut InputEvent,
    accepted: bool,
) -> (applied: (Option<(u64, u64, i32, i32)>, bool))
    ensures
        !accepted ==> applied.0 is None && !applied.1 && final(state)@ == old(state)@
            && final(event)@ == old(event)@,
        accepted ==> applied.0 == button_reconciliation(
            old(state)@,
            origin_id@,
            old(event)@,
            false,
        ) && applied.1 == park_applies(old(state)@, origin_id@, old(event)@, false)
            && final(state)@ == mouse_after_buttons(old(state)@, origin_id@, old(event)@, false)
            && final(event)@ == event_after_buttons(old(state)@, origin_id@, old(event)@, false),
{
    authoritative_mouse_button_state_for_packet(state, origin_id, event, accepted, false)
}

/// Applies the button state that a move or park transmits. The first component
/// is what has to be reconciled, the second whether a park was applied.
pub fn authoritative_mouse_button_state_for_packet(
    state: &mut RemoteMouseState,
    origin_id: &str,
    event: &mut InputEvent,
    accepted: bool,
    heartbeat: bool,
) -> (applied: (Option<(u64, u64, i32, i32)>, bool))
    ensures
        !accepted ==> applied.0 is None && !applied.1 && final(state)@ == old(state)@
            && final(event)@ == old(event)@,
        accepted ==> applied.0 == button_reconciliation(
            old(state)@,
            origin_id@,
            old(event)@,
            heartbeat,
        ) && applied.1 == park_applies(old(state)@, origin_id@, old(event)@, heartbeat)
            && final(state)@ == mouse_after_buttons(old(state)@, origin_id@, old(event)@, heartbeat)
            && final(event)@ == event_after_buttons(
            old(state)@,
            origin_id@,
            old(event)@,
            heartbeat,
        ),
{
    if !accepted {
        return (None, false);
    }
    let (transmitted, sequence, park): (u64, u64, bool) = match &*event {
        InputEvent::MouseMove { button_mask: Some(mask), sequence, .. } => (*mask, *sequence, false),
        InputEvent::CursorPark { sequence, .. } => (0, *sequence, true),
        _ => {
            return (None, false);
        },
    };
    let previous: u64 = state.buttons;
    let mut sequences = sequences_of(state, origin_id);
    let overtaken = sequence != 0 && sequence <= sequences.last_button_snapshot_sequence;
    if heartbeat && overtaken {
        return (None, false);
    }
    let stale = !heartbeat && !park && overtaken;
    let authoritative: u64 = if stale {
        previous
    } else {
        transmitted
    };
    if stale {
        if let InputEvent::MouseMove { drag_button, button_mask, .. } = event {
            *drag_button = button_from_mask(authoritative);
            *button_mask = Some(authoritative);
        }
    }
    let reconciliation = if previous != authoritative {
        Some((previous, authoritative, state.x, state.y))
    } else {
        None
    };
    state.buttons = authoritative;
    if sequence != 0 {
        if (heartbeat || park) && sequence > sequences.last_button_snapshot_sequence {
            sequences.last_button_snapshot_sequence = sequence;
        }
        let changed: u64 = previous ^ authoritative;
        if park || changed & LEFT_BUTTON_MASK != 0 {
            raise_button(&mut sequences, MouseButton::Left, sequence);
        }
        if park || changed & RIGHT_BUTTON_MASK != 0 {
            raise_button(&mut sequences, MouseButton::Right, sequence);
        }
        if park || changed & MIDDLE_BUTTON_MASK != 0 {
            raise_button(&mut sequences, MouseButton::Middle, sequence);
        }
        record_sequences(state, origin_id, sequences);
    }
    (reconciliation, park)
}

/// Moves the pointer and names the button that a drag is attributed to.
pub fn update_remote_mouse_position(state: &mut RemoteMouseState, x: i32, y: i32) -> (drag: Option<
    MouseButton,
>)
    ensures
        drag == primary_button(old(state)@.buttons),
        final(state)@ == (MouseView { x, y, ..old(state)@ }),
{
    state.x = x;
    state.y = y;
    primary_button_from_mask(state.buttons)
}

/// The held buttons after `button` went down or up.
pub open spec fn buttons_after(buttons: u64, button: MouseButton, down: bool) -> u64 {
    if down {
        buttons | button_bit(button)
    } else {
        buttons & !button_bit(button)
    }
}

/// Where a button event takes place: at its own coordinates, else at the
/// tracked pointer.
pub open spec fn button_point(mouse: MouseView, transmitted: Option<(i32, i32)>) -> (i32, i32) {
    match transmitted {
        Some(point) => point,
        None => (mouse.x, mouse.y),
    }
}

/// Records a button transition and says where it takes place.
pub fn update_remote_mouse_button(
    state: &mut RemoteMouseState,
    button: MouseButton,
    down: bool,
    transmitted_position: Option<(i32, i32)>,
) -> (point: (i32, i32))
    ensures
        point == button_point(old(state)@, transmitted_position),
        final(state)@ == (MouseView {
            x: point.0,
            y: point.1,
            buttons: buttons_after(old(state)@.buttons, button, down),
            ..old(state)@
        }),
{
    if let Some((x, y)) = transmitted_position {
        state.x = x;
        state.y = y;
    }
    if down {
        state.buttons = state.buttons | mouse_button_mask(button);
    } else {
        state.buttons = state.buttons & !mouse_button_mask(button);
    }
    (state.x, state.y)
}

pub fn primary_button_from_mask(mask: u64) -> (button: Option<MouseButton>)
    ensures
        button == primary_button(mask),
{
    button_from_mask(mask)
}

/// The largest mark of a sender.
pub open spec fn highest_mark(marks: MouseMarks) -> u64 {
    larger(
        larger(larger(marks.position, marks.snapshot), larger(marks.scroll, marks.boundary)),
        larger(larger(marks.left, marks.right), marks.middle),
    )
}

pub open spec fn marks_all_at(sequence: u64) -> MouseMarks {
    MouseMarks {
        position: sequence,
        snapshot: sequence,
        scroll: sequence,
        boundary: sequence,
        left: sequence,
        right: sequence,
        middle: sequence,
    }
}

/// The marks after the session of `origin` was closed: every channel moves up
/// to the newest frame of that sender.
pub open spec fn mouse_marks_after_close(
    marks: Map<Seq<char>, MouseMarks>,
    origin: Seq<char>,
) -> Map<Seq<char>, MouseMarks> {
    if marks.contains_key(origin) {
        marks.insert(origin, marks_all_at(highest_mark(marks[origin])))
    } else {
        marks
    }
}

fn max_of(left: u64, right: u64) -> (max: u64)
    ensures
        max == larger(left, right),
{
    if left >= right {
        left
    } else {
        right
    }
}

impl RemoteMouseState {
    /// Ends the session of `origin_id` for every mouse channel.
    pub fn close_origin(&mut self, origin_id: &str)
        ensures
            final(self)@ == (MouseView {
                marks: mouse_marks_after_close(old(self)@.marks, origin_id@),
                ..old(self)@
            }),
    {
        let highest: Option<u64> = match self.sequence_by_origin.get(origin_id) {
            Some(marks) => {
                let first: u64 = max_of(
                    max_of(marks.last_position_sequence, marks.last_button_snapshot_sequence),
                    max_of(marks.last_scroll_sequence, marks.last_boundary_sequence),
                );
                let second: u64 = max_of(
                    max_of(marks.last_button_sequence[0], marks.last_button_sequence[1]),
                    marks.last_button_sequence[2],
                );
                Some(max_of(first, second))
            },
            None => None,
        };
        if let Some(highest) = highest {
            record_sequences(
                self,
                origin_id,
                RemoteMouseSequenceState {
                    last_position_sequence: highest,
                    last_button_snapshot_sequence: highest,
                    last_scroll_sequence: highest,
                    last_boundary_sequence: highest,
                    last_button_sequence: [highest, highest, highest],
                },
            );
        }
    }
}

/// No mark of `after` lies below its counterpart in `before`.
pub open spec fn mouse_marks_advance(before: MouseMarks, after: MouseMarks) -> bool {
    &&& before.position <= after.position
    &&& before.snapshot <= after.snapshot
    &&& before.scroll <= after.scroll
    &&& before.boundary <= after.boundary
    &&& before.left <= after.left
    &&& before.right <= after.right
    &&& before.middle <= after.middle
}

/// The park of a sender lies at or below its newest position: parks move both.
pub open spec fn boundary_covered(marks: MouseMarks) -> bool {
    marks.boundary <= marks.position
}

/// The mouse marks of every sender keep the boundary at or below the position,
/// and no frame moves a mark backwards while they do.
pub proof fn law_mouse_marks_never_regress(
    mouse: MouseView,
    origin: Seq<char>,
    other: Seq<char>,
    event: EventView,
    activate: bool,
    commit_position: bool,
    heartbeat: bool,
)
    requires
        boundary_covered(mouse_marks_of(mouse.marks, other)),
    ensures
        ({
            let before = mouse_marks_of(mouse.marks, other);
            let ordered = mouse_marks_of(
                prepared_mouse(mouse, origin, event, activate, commit_position).marks,
                other,
            );
            let applied = mouse_marks_of(
                mouse_after_buttons(mouse, origin, event, heartbeat).marks,
                other,
            );
            let closed = mouse_marks_of(mouse_marks_after_close(mouse.marks, origin), other);
            &&& mouse_marks_advance(before, ordered) && boundary_covered(ordered)
            &&& mouse_marks_advance(before, applied) && boundary_covered(applied)
            &&& mouse_marks_advance(before, closed) && boundary_covered(closed)
        }),
{
}

/// A mouse frame of one sender leaves the marks of every other sender alone.
pub proof fn law_mouse_marks_are_per_origin(
    mouse: MouseView,
    origin: Seq<char>,
    other: Seq<char>,
    event: EventView,
    activate: bool,
    commit_position: bool,
    heartbeat: bool,
)
    requires
        origin != other,
    ensures
        mouse_marks_of(
            prepared_mouse(mouse, origin, event, activate, commit_position).marks,
            other,
        ) == mouse_marks_of(mouse.marks, other),
        mouse_marks_of(mouse_after_buttons(mouse, origin, event, heartbeat).marks, other)
            == mouse_marks_of(mouse.marks, other),
        mouse_marks_of(mouse_marks_after_close(mouse.marks, origin), other) == mouse_marks_of(
            mouse.marks,
            other,
        ),
{
}

/// Whether two mouse events are ordered by the same number: moves and parks
/// share one, scrolls have one, and so does each button.
pub open spec fn same_order(left: EventView, right: EventView) -> bool {
    match (left, right) {
        (EventView::MouseMove { .. }, EventView::MouseMove { .. }) => true,
        (EventView::MouseMove { .. }, EventView::CursorPark { .. }) => true,
        (EventView::CursorPark { .. }, EventView::MouseMove { .. }) => true,
        (EventView::CursorPark { .. }, EventView::CursorPark { .. }) => true,
        (EventView::Scroll { .. }, EventView::Scroll { .. }) => true,
        (
            EventView::MouseButton { button, .. },
            EventView::MouseButton { button: other, .. },
        ) => button == other,
        _ => false,
    }
}

/// After an accepted numbered mouse event no event of its order with the same
/// or an older number passes; an event that was itself considered never passes
/// a second time.
pub proof fn law_replayed_mouse_events_are_rejected(
    mouse: MouseView,
    origin: Seq<char>,
    event: EventView,
    activate: bool,
    later: EventView,
)
    requires
        numbered(event),
    ensures
        !prepare_accepts(prepared_mouse(mouse, origin, event, activate, true), origin, event),
        prepare_accepts(mouse, origin, event) && same_order(event, later) && numbered(later)
            && mouse_sequence(later)->0 <= mouse_sequence(event)->0 ==> !prepare_accepts(
            prepared_mouse(mouse, origin, event, activate, true),
            origin,
            later,
        ),
{
}

/// After an applied park of `origin` no move, park, scroll, press or release
/// that was numbered before it passes.
pub proof fn law_park_blocks_the_old_epoch(
    mouse: MouseView,
    origin: Seq<char>,
    park: EventView,
    activate: bool,
    stale: EventView,
)
    requires
        park is CursorPark,
        numbered(park),
        prepare_accepts(mouse, origin, park),
        numbered(stale),
        mouse_sequence(stale)->0 <= mouse_sequence(park)->0,
    ensures
        ({
            let parked = mouse_after_buttons(
                prepared_mouse(mouse, origin, park, activate, true),
                origin,
                park,
                false,
            );
            !prepare_accepts(parked, origin, stale) && parked.buttons == 0
        }),
{
}

/// The cached position of a heartbeat takes no position number: a move that
/// it overtook is still accepted.
pub proof fn law_heartbeat_leaves_positions_open(
    mouse: MouseView,
    origin: Seq<char>,
    heartbeat: EventView,
    late: EventView,
    activate: bool,
)
    requires
        heartbeat is MouseMove,
        late is MouseMove,
    ensures
        prepare_accepts(
            mouse_after_buttons(
                prepared_mouse(mouse, origin, heartbeat, activate, false),
                origin,
                heartbeat,
                true,
            ),
            origin,
            late,
        ) == prepare_accepts(mouse, origin, late),
{
}

/// A drag move that is older than an applied heartbeat cannot change the
/// buttons that the heartbeat repaired.
pub proof fn law_heartbeat_repair_is_final(
    mouse: MouseView,
    origin: Seq<char>,
    heartbeat: EventView,
    late: EventView,
)
    requires
        heartbeat is MouseMove,
        late is MouseMove,
        numbered(heartbeat),
        numbered(late),
        transmitted_buttons(heartbeat) is Some,
        mouse_sequence(late)->0 <= mouse_sequence(heartbeat)->0,
    ensures
        ({
            let repaired = mouse_after_buttons(mouse, origin, heartbeat, true);
            &&& authoritative_buttons(repaired, origin, late, false) == repaired.buttons
            &&& button_reconciliation(repaired, origin, late, false) is None
        }),
{
}

/// What an event numbers itself with is its own number; keys have none here.
pub proof fn law_mouse_events_carry_their_number(event: InputEvent)
    ensures
        event is Key <==> mouse_sequence(event@) is None,
        event matches InputEvent::MouseMove { sequence, .. } ==> mouse_sequence(event@) == Some(
            sequence,
        ),
        event matches InputEvent::MouseButton { sequence, .. } ==> mouse_sequence(event@) == Some(
            sequence,
        ),
        event matches InputEvent::Scroll { sequence, .. } ==> mouse_sequence(event@) == Some(
            sequence,
        ),
        event matches InputEvent::CursorPark { sequence, .. } ==> mouse_sequence(event@) == Some(
            sequence,
        ),
{
}

/// A session is started by a move, a key that goes down or a button that goes
/// down, and by nothing else.
pub proof fn law_moves_and_presses_claim(event: InputEvent)
    ensures
        can_claim_origin(event@) <==> event is MouseMove || (event is Key && event->Key_down) || (
        event is MouseButton && event->MouseButton_down),
{
}

/// Moves, scrolls and buttons are numbered apart: an accepted scroll or move
/// holds up no event of another kind, and an accepted button holds up neither a
/// scroll nor another button.
pub proof fn law_mouse_channels_are_apart(
    mouse: MouseView,
    origin: Seq<char>,
    event: EventView,
    later: EventView,
    activate: bool,
)
    requires
        numbered(event),
        event is MouseMove || event is Scroll || event is MouseButton,
        match event {
            EventView::MouseMove { .. } => later is Scroll || later is MouseButton,
            EventView::Scroll { .. } => later is MouseMove || later is MouseButton || later
                is CursorPark,
            EventView::MouseButton { button, .. } => later is Scroll || (later
                matches EventView::MouseButton { button: other, .. } && other != button),
            _ => false,
        },
    ensures
        prepare_accepts(prepared_mouse(mouse, origin, event, activate, true), origin, later)
            == prepare_accepts(mouse, origin, later),
{
}

/// A button that a newer position has overtaken still goes down or up, without
/// its point; one that was not keeps it, and so does every other event.
pub proof fn law_overtaken_buttons_lose_their_point(
    mouse: MouseView,
    origin: Seq<char>,
    event: EventView,
)
    requires
        prepare_accepts(mouse, origin, event),
    ensures
        event !is MouseButton ==> prepared_event(mouse, origin, event) == event,
        event matches EventView::MouseButton { button, down, sequence, .. } ==> {
            let position = mouse_marks_of(mouse.marks, origin).position;
            &&& sequence == 0 || sequence > position ==> prepared_event(mouse, origin, event)
                == event
            &&& 0 < sequence <= position ==> (prepared_event(mouse, origin, event)
                matches EventView::MouseButton {
                button: kept,
                down: goes_down,
                x,
                y,
                sequence: number,
                ..
            } && kept == button && goes_down == down && x is None && y is None && number
                == sequence)
        },
{
}

/// The buttons that a new move tells of are held from then on, those that a park
/// tells of are none, and an event that tells of none changes none. What still
/// has to happen is told as held before, held now, and where the pointer is.
pub proof fn law_transmitted_buttons_take_effect(
    mouse: MouseView,
    origin: Seq<char>,
    event: InputEvent,
    heartbeat: bool,
)
    requires
        mouse_sequence(event@) matches Some(sequence) ==> sequence == 0 || sequence
            > mouse_marks_of(mouse.marks, origin).snapshot,
    ensures
        ({
            let after = mouse_after_buttons(mouse, origin, event@, heartbeat);
            let change = button_reconciliation(mouse, origin, event@, heartbeat);
            &&& event is MouseMove && event->button_mask is Some ==> after.buttons
                == event->button_mask->0
            &&& event is CursorPark ==> after.buttons == 0
            &&& event is MouseMove && event->button_mask is None ==> after.buttons == mouse.buttons
            &&& event is Scroll || event is Key || event is MouseButton ==> after.buttons
                == mouse.buttons
            &&& after.buttons == mouse.buttons ==> change is None
            &&& after.buttons != mouse.buttons ==> change == Some(
                (mouse.buttons, after.buttons, mouse.x, mouse.y),
            )
            &&& after.x == mouse.x && after.y == mouse.y
            &&& park_applies(mouse, origin, event@, heartbeat) <==> event is CursorPark
        }),
{
}

/// A move whose button state is older than a reliable one changes no button and
/// goes on with those that are held.
pub proof fn law_stale_buttons_change_nothing(
    mouse: MouseView,
    origin: Seq<char>,
    screen_id: Seq<char>,
    x: i32,
    y: i32,
    drag_button: Option<MouseButton>,
    mask: u64,
    sequence: u64,
    heartbeat: bool,
)
    requires
        0 < sequence <= mouse_marks_of(mouse.marks, origin).snapshot,
    ensures
        ({
            let event = EventView::MouseMove {
                screen_id,
                x,
                y,
                drag_button,
                button_mask: Some(mask),
                sequence,
            };
            &&& mouse_after_buttons(mouse, origin, event, heartbeat).buttons == mouse.buttons
            &&& button_reconciliation(mouse, origin, event, heartbeat) is None
            &&& !heartbeat ==> event_after_buttons(mouse, origin, event, heartbeat) == (
            EventView::MouseMove {
                screen_id,
                x,
                y,
                drag_button: primary_button(mouse.buttons),
                button_mask: Some(mouse.buttons),
                sequence,
            })
        }),
{
}

/// Control that changes hands carries over the buttons that are held, where they
/// are held, and starts with none; to the same hands nothing changes.
pub proof fn law_held_buttons_are_handed_over(mouse: MouseView, origin: Seq<char>)
    ensures
        mouse.last_origin == origin ==> mouse_after_switch(mouse, origin) == mouse
            && carried_by_switch(mouse, origin) is None,
        mouse.last_origin != origin ==> mouse_after_switch(mouse, origin).buttons == 0
            && mouse_after_switch(mouse, origin).last_origin == origin,
        mouse.last_origin != origin && mouse.buttons != 0 ==> carried_by_switch(mouse, origin)
            == Some((mouse.buttons, mouse.x, mouse.y)),
        mouse.buttons == 0 ==> carried_by_switch(mouse, origin) is None,
        mouse_after_switch(mouse, origin).x == mouse.x,
        mouse_after_switch(mouse, origin).y == mouse.y,
{
}

/// A button event without a point of its own takes place where the pointer is.
pub proof fn law_buttons_fall_back_to_the_pointer(mouse: MouseView, point: (i32, i32))
    ensures
        button_point(mouse, Some(point)) == point,
        button_point(mouse, None).0 == mouse.x,
        button_point(mouse, None).1 == mouse.y,
{
}

/// A closed session accepts nothing that is numbered up to its newest frame.
pub proof fn law_closed_mouse_channels_stay_closed(
    mouse: MouseView,
    origin: Seq<char>,
    event: EventView,
)
    requires
        mouse.marks.contains_key(origin),
        numbered(event),
        ({
            let marks = mouse.marks[origin];
            let sequence = mouse_sequence(event)->0;
            ||| sequence <= marks.position
            ||| sequence <= marks.snapshot
            ||| sequence <= marks.scroll
            ||| sequence <= marks.boundary
            ||| sequence <= marks.left
            ||| sequence <= marks.right
            ||| sequence <= marks.middle
        }),
    ensures
        !prepare_accepts(
            (MouseView { marks: mouse_marks_after_close(mouse.marks, origin), ..mouse }),
            origin,
            event,
        ),
{
}

/// A frame without a number is never held up, and only a frame with one counts
/// as numbered.
pub proof fn law_unnumbered_frames_pass(mouse: MouseView, origin: Seq<char>, event: EventView)
    ensures
        numbered(event) <==> (mouse_sequence(event) matches Some(sequence) && sequence > 0),
        mouse_sequence(event) == Some(0u64) ==> prepare_accepts(mouse, origin, event)
            && prepared_event(mouse, origin, event) == event,
        !prepare_accepts(mouse, origin, event) ==> prepared_event(mouse, origin, event) == event,
{
}

/// An accepted event that makes its sender the owner hands the pointer over to
/// it; any other leaves the pointer with its owner.
pub proof fn law_accepted_owners_take_the_pointer(
    mouse: MouseView,
    origin: Seq<char>,
    event: EventView,
    activate: bool,
    commit_position: bool,
)
    ensures
        ({
            let after = prepared_mouse(mouse, origin, event, activate, commit_position);
            let taken = activate && prepare_accepts(mouse, origin, event);
            &&& taken ==> after.last_origin == origin
            &&& taken && mouse.last_origin != origin ==> after.buttons == 0
            &&& taken && mouse.last_origin == origin ==> after.buttons == mouse.buttons
            &&& !taken ==> after.last_origin == mouse.last_origin && after.buttons == mouse.buttons
            &&& after.x == mouse.x && after.y == mouse.y
            &&& prepared_carry(mouse, origin, event, activate) == (if taken {
                carried_by_switch(mouse, origin)
            } else {
                None
            })
        }),
{
}

/// The number of a told button state counts for the buttons that it changed; a
/// park counts for all of them, and like a heartbeat for the state as a whole.
pub proof fn law_told_buttons_take_their_number(
    marks: MouseMarks,
    sequence: u64,
    park: bool,
    heartbeat: bool,
    changed: u64,
)
    ensures
        ({
            let after = marks_after_buttons(marks, sequence, park, heartbeat, changed);
            &&& after.left == (if (park || changed & 1 != 0) && sequence > marks.left {
                sequence
            } else {
                marks.left
            })
            &&& after.right == (if (park || changed & 2 != 0) && sequence > marks.right {
                sequence
            } else {
                marks.right
            })
            &&& after.middle == (if (park || changed & 4 != 0) && sequence > marks.middle {
                sequence
            } else {
                marks.middle
            })
            &&& after.snapshot == (if (park || heartbeat) && sequence > marks.snapshot {
                sequence
            } else {
                marks.snapshot
            })
            &&& after.position == marks.position
            &&& after.scroll == marks.scroll
            &&& after.boundary == marks.boundary
        }),
{
}

/// A machine that was never driven has its pointer at the origin and no button
/// held.
pub proof fn law_fresh_pointers_hold_nothing(origin: Seq<char>, event: EventView)
    ensures
        fresh_mouse().x == 0,
        fresh_mouse().y == 0,
        fresh_mouse().buttons == 0,
        fresh_mouse().last_origin.len() == 0,
        prepare_accepts(fresh_mouse(), origin, event),
        carried_by_switch(fresh_mouse(), origin) is None,
        ({
            let marks = mouse_marks_of(fresh_mouse().marks, origin);
            &&& marks.position == 0 && marks.snapshot == 0 && marks.scroll == 0
            &&& marks.boundary == 0
            &&& marks.left == 0 && marks.right == 0 && marks.middle == 0
        }),
{
}

/// An event whose button state is not older than a reliable one goes on as it
/// came, and so does every event that tells of no buttons.
pub proof fn law_current_buttons_go_on_as_they_came(
    mouse: MouseView,
    origin: Seq<char>,
    event: EventView,
    heartbeat: bool,
)
    ensures
        mouse_sequence(event) matches Some(sequence) ==> (sequence == 0 || sequence
            > mouse_marks_of(mouse.marks, origin).snapshot) ==> event_after_buttons(
            mouse,
            origin,
            event,
            heartbeat,
        ) == event,
        event !is MouseMove ==> event_after_buttons(mouse, origin, event, heartbeat) == event,
        heartbeat ==> event_after_buttons(mouse, origin, event, heartbeat) == event,
{
}

} // verus!
