//! The state of controlling another machine: what is held down there, what is
//! sent next, and what has to be sent before control is given back.

use vstd::prelude::*;

use crate::capture::{
    ActiveTarget, DRAG_MOVE_SEND_INTERVAL, MOUSE_MOVE_SEND_INTERVAL, PARK_CORNER_MARGIN,
};
use crate::packets::{report_due, take_report, PeerEndpoint, PeerView, SequenceCounter};
use crate::remote_mouse::{buttons_after, EventView};
use crate::session::{heartbeat_due, remote_input_heartbeat_due};
use crate::shared_input::{
    button_bit, button_from_mask, mouse_button_mask, primary_button, InputEvent, MouseButton,
};

verus! {

/// The number after `sequence`.
pub open spec fn following_sequence(sequence: u64) -> u64 {
    if sequence == u64::MAX {
        0
    } else {
        (sequence + 1) as u64
    }
}

/// Events as views.
pub open spec fn event_views(events: Seq<InputEvent>) -> Seq<EventView> {
    events.map_values(|event: InputEvent| event@)
}

/// The releases of `keys`, in order.
pub open spec fn key_ups(keys: Seq<u16>) -> Seq<EventView> {
    keys.map_values(|key_code: u16| EventView::Key { key_code, down: false })
}

/// Whether a pointer position is sent now; if so it counts as sent.
pub fn should_send_mouse_move(last_sent: &mut Option<u64>, dragging: bool, now: u64) -> (send: bool)
    ensures
        send == report_due(
            *old(last_sent),
            now,
            if dragging {
                DRAG_MOVE_SEND_INTERVAL
            } else {
                MOUSE_MOVE_SEND_INTERVAL
            },
        ),
        *final(last_sent) == if send {
            Some(now)
        } else {
            *old(last_sent)
        },
{
    let interval: u64 = if dragging {
        DRAG_MOVE_SEND_INTERVAL
    } else {
        MOUSE_MOVE_SEND_INTERVAL
    };
    take_report(last_sent, now, interval)
}

/// Records that a button went down or up on the other machine.
pub fn update_remote_button_mask(mask: &mut u64, button: MouseButton, down: bool)
    ensures
        *final(mask) == buttons_after(*old(mask), button, down),
{
    if down {
        *mask = *mask | mouse_button_mask(button);
    } else {
        *mask = *mask & !mouse_button_mask(button);
    }
}

/// The keys without `key_code`.
pub open spec fn without_key(keys: Seq<u16>, key_code: u16) -> Seq<u16>
    decreases keys.len(),
{
    if keys.len() == 0 {
        Seq::empty()
    } else if keys.last() == key_code {
        without_key(keys.drop_last(), key_code)
    } else {
        without_key(keys.drop_last(), key_code).push(keys.last())
    }
}

/// The held keys after `key_code` went down or up.
pub open spec fn keys_after(keys: Seq<u16>, key_code: u16, down: bool) -> Seq<u16> {
    if !down {
        without_key(keys, key_code)
    } else if keys.contains(key_code) {
        keys
    } else {
        keys.push(key_code)
    }
}

pub fn holds_key(keys: &Vec<u16>, key_code: u16) -> (held: bool)
    ensures
        held == keys@.contains(key_code),
{
    let mut index: usize = 0;
    while index < keys.len()
        invariant
            index <= keys@.len(),
            forall|i: int| 0 <= i < index ==> keys@[i] != key_code,
        decreases keys@.len() - index,
    {
        if keys[index] == key_code {
            return true;
        }
        index += 1;
    }
    false
}

/// Drops `key_code` from the keys.
pub fn remove_key(keys: &mut Vec<u16>, key_code: u16)
    ensures
        final(keys)@ == without_key(old(keys)@, key_code),
{
    let ghost before = keys@;
    let mut kept: Vec<u16> = Vec::new();
    let mut index: usize = 0;
    assert(before.take(0) =~= Seq::<u16>::empty());
    while index < keys.len()
        invariant
            index <= keys@.len(),
            keys@ == before,
            kept@ == without_key(before.take(index as int), key_code),
        decreases keys@.len() - index,
    {
        proof {
            assert(before.take(index + 1).drop_last() =~= before.take(index as int));
        }
        if keys[index] != key_code {
            kept.push(keys[index]);
        }
        index += 1;
    }
    assert(before.take(before.len() as int) =~= before);
    *keys = kept;
}

/// Remembers which keys were forwarded as held.
pub fn track_forwarded_key(pressed: &mut Vec<u16>, key_code: u16, down: bool)
    ensures
        final(pressed)@ == keys_after(old(pressed)@, key_code, down),
{
    if down {
        if !holds_key(pressed, key_code) {
            pressed.push(key_code);
        }
    } else {
        remove_key(pressed, key_code);
    }
}

proof fn lemma_without_key(keys: Seq<u16>, key_code: u16)
    ensures
        forall|key: u16|
            #[trigger] without_key(keys, key_code).contains(key) <==> keys.contains(key) && key
                != key_code,
        keys.no_duplicates() ==> without_key(keys, key_code).no_duplicates(),
    decreases keys.len(),
{
    if keys.len() > 0 {
        let rest = keys.drop_last();
        let kept = without_key(rest, key_code);
        lemma_without_key(rest, key_code);
        assert forall|key: u16| keys.contains(key) <==> rest.contains(key) || key == keys.last() by {
            if keys.contains(key) {
                let i = choose|i: int| 0 <= i < keys.len() && keys[i] == key;
                if i < rest.len() {
                    assert(rest[i] == key);
                }
            }
            if rest.contains(key) {
                let i = choose|i: int| 0 <= i < rest.len() && rest[i] == key;
                assert(keys[i] == key);
            }
            assert(keys[keys.len() - 1] == keys.last());
        }
        if keys.last() != key_code {
            let result = kept.push(keys.last());
            assert forall|key: u16| result.contains(key) <==> kept.contains(key) || key
                == keys.last() by {
                if result.contains(key) {
                    let i = choose|i: int| 0 <= i < result.len() && result[i] == key;
                    if i < kept.len() {
                        assert(kept[i] == key);
                    }
                }
                if kept.contains(key) {
                    let i = choose|i: int| 0 <= i < kept.len() && kept[i] == key;
                    assert(result[i] == key);
                }
                assert(result[result.len() - 1] == keys.last());
            }
            if keys.no_duplicates() {
                assert(rest.no_duplicates());
                assert forall|i: int, j: int| 0 <= i < result.len() && 0 <= j < result.len() && i
                    != j implies result[i] != result[j] by {
                    if i == kept.len() {
                        assert(kept.contains(kept[j]));
                        assert(rest.contains(kept[j]));
                        let k = choose|k: int| 0 <= k < rest.len() && rest[k] == kept[j];
                        assert(keys[k] != keys[keys.len() - 1]);
                    } else if j == kept.len() {
                        assert(kept.contains(kept[i]));
                        assert(rest.contains(kept[i]));
                        let k = choose|k: int| 0 <= k < rest.len() && rest[k] == kept[i];
                        assert(keys[k] != keys[keys.len() - 1]);
                    }
                }
            }
        } else if keys.no_duplicates() {
            assert(rest.no_duplicates());
        }
    }
}

/// Where one key is held after a transition of another or of itself.
pub proof fn lemma_key_transition(keys: Seq<u16>, key_code: u16, down: bool, key: u16)
    ensures
        keys_after(keys, key_code, down).contains(key) == if key == key_code {
            down
        } else {
            keys.contains(key)
        },
{
    lemma_without_key(keys, key_code);
    let after = keys_after(keys, key_code, down);
    if down && !keys.contains(key_code) {
        assert(after[after.len() - 1] == key_code);
        if after.contains(key) {
            let i = choose|i: int| 0 <= i < after.len() && after[i] == key;
            if i < keys.len() {
                assert(keys[i] == key);
            }
        }
        if keys.contains(key) {
            let i = choose|i: int| 0 <= i < keys.len() && keys[i] == key;
            assert(after[i] == key);
        }
    }
}

/// A key is held after it went down and not after it went up, the others stay
/// as they were, and no key is ever held twice.
pub proof fn law_held_keys_follow_transitions(keys: Seq<u16>, key_code: u16, down: bool)
    requires
        keys.no_duplicates(),
    ensures
        keys_after(keys, key_code, down).no_duplicates(),
        forall|key: u16|
            #[trigger] keys_after(keys, key_code, down).contains(key) <==> if key == key_code {
                down
            } else {
                keys.contains(key)
            },
{
    lemma_without_key(keys, key_code);
    assert forall|key: u16|
        #[trigger] keys_after(keys, key_code, down).contains(key) <==> if key == key_code {
            down
        } else {
            keys.contains(key)
        } by {
        lemma_key_transition(keys, key_code, down, key);
    }
}

/// The release of one button, if it is held.
pub open spec fn button_up(buttons: u64, button: MouseButton, sequence: u64) -> Seq<EventView> {
    if buttons & button_bit(button) != 0 {
        seq![
            EventView::MouseButton {
                button,
                down: false,
                screen_id: Seq::empty(),
                x: None,
                y: None,
                sequence,
            },
        ]
    } else {
        Seq::empty()
    }
}

/// The number that is next after the release of one button.
pub open spec fn sequence_after_up(buttons: u64, button: MouseButton, sequence: u64) -> u64 {
    if buttons & button_bit(button) != 0 {
        following_sequence(sequence)
    } else {
        sequence
    }
}

/// The releases of every held button, left, right, middle.
pub open spec fn button_ups(buttons: u64, sequence: u64) -> Seq<EventView> {
    let second = sequence_after_up(buttons, MouseButton::Left, sequence);
    let third = sequence_after_up(buttons, MouseButton::Right, second);
    button_up(buttons, MouseButton::Left, sequence) + button_up(
        buttons,
        MouseButton::Right,
        second,
    ) + button_up(buttons, MouseButton::Middle, third)
}

pub open spec fn sequence_after_ups(buttons: u64, sequence: u64) -> u64 {
    sequence_after_up(
        buttons,
        MouseButton::Middle,
        sequence_after_up(
            buttons,
            MouseButton::Right,
            sequence_after_up(buttons, MouseButton::Left, sequence),
        ),
    )
}

fn push_button_up(
    buttons: u64,
    button: MouseButton,
    sequences: &mut SequenceCounter,
    events: &mut Vec<InputEvent>,
)
    ensures
        event_views(final(events)@) == event_views(old(events)@) + button_up(
            buttons,
            button,
            old(sequences).next,
        ),
        final(sequences).next == sequence_after_up(buttons, button, old(sequences).next),
{
    let ghost before = events@;
    if buttons & mouse_button_mask(button) != 0 {
        let sequence: u64 = sequences.take();
        events.push(
            InputEvent::MouseButton {
                button,
                down: false,
                screen_id: String::new(),
                x: None,
                y: None,
                sequence,
            },
        );
    }
    assert(event_views(events@) =~= event_views(before) + button_up(
        buttons,
        button,
        old(sequences).next,
    ));
}

/// Releases every button that is held on the other machine and forgets them.
pub fn release_remote_buttons(
    mask: &mut u64,
    sequences: &mut SequenceCounter,
    events: &mut Vec<InputEvent>,
)
    ensures
        *final(mask) == 0,
        event_views(final(events)@) == event_views(old(events)@) + button_ups(
            *old(mask),
            old(sequences).next,
        ),
        final(sequences).next == sequence_after_ups(*old(mask), old(sequences).next),
{
    let ghost before = event_views(events@);
    let buttons: u64 = *mask;
    *mask = 0;
    push_button_up(buttons, MouseButton::Left, sequences, events);
    push_button_up(buttons, MouseButton::Right, sequences, events);
    push_button_up(buttons, MouseButton::Middle, sequences, events);
    assert(event_views(events@) =~= before + button_ups(buttons, old(sequences).next));
}

/// A pointer position on the current screen with the held buttons.
pub open spec fn move_view(
    active: ActiveTarget,
    point: (i32, i32),
    buttons: u64,
    sequence: u64,
) -> EventView {
    EventView::MouseMove {
        screen_id: active.current_screen_id@,
        x: point.0,
        y: point.1,
        drag_button: primary_button(buttons),
        button_mask: Some(buttons),
        sequence,
    }
}

pub fn send_remote_mouse_move_with_drag(
    active: &ActiveTarget,
    point: (i32, i32),
    buttons: u64,
    sequences: &mut SequenceCounter,
) -> (event: InputEvent)
    ensures
        event@ == move_view(*active, point, buttons, old(sequences).next),
        final(sequences).next == following_sequence(old(sequences).next),
{
    let sequence: u64 = sequences.take();
    InputEvent::MouseMove {
        screen_id: active.current_screen_id.clone(),
        x: point.0,
        y: point.1,
        drag_button: button_from_mask(buttons),
        button_mask: Some(buttons),
        sequence,
    }
}

/// A pointer position with no button held, as it opens the control of a machine.
pub fn send_remote_mouse_move(
    active: &ActiveTarget,
    point: (i32, i32),
    sequences: &mut SequenceCounter,
) -> (event: InputEvent)
    ensures
        event@ == move_view(*active, point, 0, old(sequences).next),
        final(sequences).next == following_sequence(old(sequences).next),
{
    send_remote_mouse_move_with_drag(active, point, 0, sequences)
}

/// Where the pointer is parked on an axis of the given length: near the far
/// end, but clear of the corner, and never on the last of several pixels.
pub open spec fn park_coordinate(size: i32) -> int {
    if size <= 2 {
        0
    } else if size - 1 - PARK_CORNER_MARGIN >= size / 2 {
        size - 1 - PARK_CORNER_MARGIN
    } else {
        size / 2
    }
}

fn park_at(size: i32) -> (coordinate: i32)
    ensures
        coordinate == park_coordinate(size),
{
    if size <= 2 {
        return 0;
    }
    let far: i64 = size as i64 - 1 - PARK_CORNER_MARGIN;
    let middle: i64 = size as i64 / 2;
    if far >= middle {
        far as i32
    } else {
        middle as i32
    }
}

/// The parked pointer is on the screen, and not on its last pixel where there is
/// another; on a screen with the room for it, it stays clear of the corner.
pub proof fn law_park_point_is_on_the_screen(size: i32)
    requires
        size > 0,
    ensures
        0 <= park_coordinate(size) < size,
        size >= 2 ==> park_coordinate(size) < size - 1,
        size >= 130 ==> size - 1 - park_coordinate(size) == PARK_CORNER_MARGIN,
{
}

/// The event that ends the control of a machine.
pub open spec fn park_view(active: ActiveTarget, sequence: u64) -> EventView {
    EventView::CursorPark {
        screen_id: active.current_screen_id@,
        x: park_coordinate(active.current_screen.width) as i32,
        y: park_coordinate(active.current_screen.height) as i32,
        sequence,
    }
}

pub fn send_remote_cursor_park(active: &ActiveTarget, sequences: &mut SequenceCounter) -> (event:
    InputEvent)
    ensures
        event@ == park_view(*active, old(sequences).next),
        final(sequences).next == following_sequence(old(sequences).next),
{
    let sequence: u64 = sequences.take();
    InputEvent::CursorPark {
        screen_id: active.current_screen_id.clone(),
        x: park_at(active.current_screen.width),
        y: park_at(active.current_screen.height),
        sequence,
    }
}

/// What the controlling side knows of the machine that it controls. Times are
/// monotonic nanoseconds.
#[derive(Debug, PartialEq, Eq)]
pub struct ControlSession {
    pub active: Option<ActiveTarget>,
    pub remote_active: bool,
    pub forwarded_keys: Vec<u16>,
    pub buttons: u64,
    pub last_move: Option<u64>,
    pub last_heartbeat: Option<u64>,
    pub sequences: SequenceCounter,
}

#[verifier::ext_equal]
pub struct ControlView {
    pub active: Option<ActiveTarget>,
    pub remote_active: bool,
    pub forwarded_keys: Seq<u16>,
    pub buttons: u64,
    pub last_move: Option<u64>,
    pub last_heartbeat: Option<u64>,
    pub next_sequence: u64,
}

impl View for ControlSession {
    type V = ControlView;

    open spec fn view(&self) -> ControlView {
        ControlView {
            active: self.active,
            remote_active: self.remote_active,
            forwarded_keys: self.forwarded_keys@,
            buttons: self.buttons,
            last_move: self.last_move,
            last_heartbeat: self.last_heartbeat,
            next_sequence: self.sequences.next,
        }
    }
}

/// A session that controls nothing.
pub open spec fn idle_control(next_sequence: u64) -> ControlView {
    ControlView {
        active: None,
        remote_active: false,
        forwarded_keys: Seq::empty(),
        buttons: 0,
        last_move: None,
        last_heartbeat: None,
        next_sequence,
    }
}

impl ControlSession {
    pub fn new(sequences: SequenceCounter) -> (session: Self)
        ensures
            session@ == idle_control(sequences.next),
    {
        let session = ControlSession {
            active: None,
            remote_active: false,
            forwarded_keys: Vec::new(),
            buttons: 0,
            last_move: None,
            last_heartbeat: None,
            sequences,
        };
        assert(session@ =~= idle_control(sequences.next));
        session
    }
}

/// What a sent event leaves held on the other machine.
pub open spec fn control_after_send(session: ControlView, event: EventView) -> ControlView {
    match event {
        EventView::Key { key_code, down } => ControlView {
            forwarded_keys: keys_after(session.forwarded_keys, key_code, down),
            ..session
        },
        EventView::MouseButton { button, down, .. } => ControlView {
            buttons: buttons_after(session.buttons, button, down),
            ..session
        },
        _ => session,
    }
}

/// Records that the transport took an event.
pub fn note_sent(session: &mut ControlSession, event: &InputEvent)
    ensures
        final(session)@ == control_after_send(old(session)@, event@),
{
    match event {
        InputEvent::Key { key_code, down } => {
            track_forwarded_key(&mut session.forwarded_keys, *key_code, *down);
        },
        InputEvent::MouseButton { button, down, .. } => {
            update_remote_button_mask(&mut session.buttons, *button, *down);
        },
        _ => {},
    }
}

/// Everything that is released when control is given back: the modifiers that
/// are held besides, the forwarded keys, the buttons, and last of all the park.
pub open spec fn release_views(
    session: ControlView,
    active: ActiveTarget,
    modifiers: Seq<u16>,
) -> Seq<EventView> {
    (key_ups(modifiers) + key_ups(session.forwarded_keys) + button_ups(
        session.buttons,
        session.next_sequence,
    )).push(park_view(active, sequence_after_ups(session.buttons, session.next_sequence)))
}

fn push_key_ups(keys: &[u16], events: &mut Vec<InputEvent>)
    ensures
        event_views(final(events)@) == event_views(old(events)@) + key_ups(keys@),
{
    let ghost before = event_views(events@);
    let mut index: usize = 0;
    assert(event_views(events@) =~= before + key_ups(keys@.take(0)));
    while index < keys.len()
        invariant
            index <= keys@.len(),
            event_views(events@) == before + key_ups(keys@.take(index as int)),
        decreases keys@.len() - index,
    {
        let ghost so_far = events@;
        let key_code: u16 = keys[index];
        events.push(InputEvent::Key { key_code, down: false });
        proof {
            let up = EventView::Key { key_code, down: false };
            assert(event_views(events@) =~= event_views(so_far).push(up));
            assert(key_ups(keys@.take(index + 1)) =~= key_ups(keys@.take(index as int)).push(up));
            assert(event_views(events@) =~= before + key_ups(keys@.take(index + 1)));
        }
        index += 1;
    }
    assert(keys@.take(keys@.len() as int) =~= keys@);
}

/// The events that release whatever is held on the controlled machine. The park
/// comes last: it is the boundary at which the other side hands over.
pub fn release_held_remote_inputs(
    session: &mut ControlSession,
    active: &ActiveTarget,
    modifiers: &[u16],
) -> (events: Vec<InputEvent>)
    ensures
        event_views(events@) == release_views(old(session)@, *active, modifiers@),
        final(session)@ == (ControlView {
            forwarded_keys: Seq::empty(),
            buttons: 0,
            next_sequence: following_sequence(
                sequence_after_ups(old(session)@.buttons, old(session)@.next_sequence),
            ),
            ..old(session)@
        }),
{
    let mut events: Vec<InputEvent> = Vec::new();
    let ghost keys = session.forwarded_keys@;
    push_key_ups(modifiers, &mut events);
    push_key_ups(session.forwarded_keys.as_slice(), &mut events);
    session.forwarded_keys = Vec::new();
    release_remote_buttons(&mut session.buttons, &mut session.sequences, &mut events);
    let ghost so_far = events@;
    let park = send_remote_cursor_park(active, &mut session.sequences);
    events.push(park);
    proof {
        assert(event_views(events@) =~= event_views(so_far).push(park@));
        assert(event_views(so_far) =~= key_ups(modifiers@) + key_ups(keys) + button_ups(
            old(session)@.buttons,
            old(session)@.next_sequence,
        ));
        assert(session@ =~= (ControlView {
            forwarded_keys: Seq::empty(),
            buttons: 0,
            next_sequence: following_sequence(
                sequence_after_ups(old(session)@.buttons, old(session)@.next_sequence),
            ),
            ..old(session)@
        }));
    }
    events
}

/// A button transition at a point of the controlled machine.
pub open spec fn button_view(
    active: ActiveTarget,
    button: MouseButton,
    down: bool,
    point: (i32, i32),
    sequence: u64,
) -> EventView {
    EventView::MouseButton {
        button,
        down,
        screen_id: active.current_screen_id@,
        x: Some(point.0),
        y: Some(point.1),
        sequence,
    }
}

/// The control that ended, and the events that release what it held.
#[derive(Debug, PartialEq, Eq)]
pub struct EndedControl {
    pub active: ActiveTarget,
    pub events: Vec<InputEvent>,
}

/// The session after its control ended, and the number that is next.
pub open spec fn ended_session(session: ControlView) -> ControlView {
    ControlView {
        active: None,
        remote_active: false,
        forwarded_keys: Seq::empty(),
        buttons: 0,
        last_move: None,
        next_sequence: following_sequence(
            sequence_after_ups(session.buttons, session.next_sequence),
        ),
        ..session
    }
}

/// The event is the release of `button`.
pub open spec fn releases_button(event: EventView, button: MouseButton) -> bool {
    event matches EventView::MouseButton { button: released, down, .. } && released == button
        && !down
}

/// A release contains an up for every forwarded key and every held button, and
/// ends with the park.
pub proof fn law_release_leaves_nothing_held(
    session: ControlView,
    active: ActiveTarget,
    modifiers: Seq<u16>,
    key_code: u16,
    button: MouseButton,
)
    ensures
        release_views(session, active, modifiers).last() is CursorPark,
        session.forwarded_keys.contains(key_code) || modifiers.contains(key_code)
            ==> release_views(session, active, modifiers).contains(
            (EventView::Key { key_code, down: false }),
        ),
        session.buttons & button_bit(button) != 0 ==> exists|i: int|
            0 <= i < release_views(session, active, modifiers).len() && releases_button(
                #[trigger] release_views(session, active, modifiers)[i],
                button,
            ),
{
    let events = release_views(session, active, modifiers);
    let up = EventView::Key { key_code, down: false };
    if modifiers.contains(key_code) {
        let i = choose|i: int| 0 <= i < modifiers.len() && modifiers[i] == key_code;
        assert(events[i] == up);
    }
    if session.forwarded_keys.contains(key_code) {
        let i = choose|i: int|
            0 <= i < session.forwarded_keys.len() && session.forwarded_keys[i] == key_code;
        assert(events[modifiers.len() + i] == up);
    }
    if session.buttons & button_bit(button) != 0 {
        let offset = modifiers.len() + session.forwarded_keys.len();
        let left = button_up(session.buttons, MouseButton::Left, session.next_sequence).len();
        let right = button_up(
            session.buttons,
            MouseButton::Right,
            sequence_after_up(session.buttons, MouseButton::Left, session.next_sequence),
        ).len();
        let ups = button_ups(session.buttons, session.next_sequence);
        match button {
            MouseButton::Left => {
                assert(releases_button(ups[0], button));
                assert(events[offset as int] == ups[0]);
            },
            MouseButton::Right => {
                assert(releases_button(ups[left as int], button));
                assert(events[(offset + left) as int] == ups[left as int]);
            },
            MouseButton::Middle => {
                assert(releases_button(ups[(left + right) as int], button));
                assert(events[(offset + left + right) as int] == ups[(left + right) as int]);
            },
        }
    }
}

/// The pointer position to send after a movement, if one is due.
pub fn send_remote_move_if_due(session: &mut ControlSession, point: (i32, i32), now: u64) -> (event:
    Option<InputEvent>)
    ensures
        match old(session)@.active {
            Some(active) if report_due(
                old(session)@.last_move,
                now,
                MOUSE_MOVE_SEND_INTERVAL,
            ) => {
                &&& event matches Some(event) && event@ == move_view(
                    active,
                    point,
                    old(session)@.buttons,
                    old(session)@.next_sequence,
                )
                &&& final(session)@ == (ControlView {
                    last_move: Some(now),
                    next_sequence: following_sequence(old(session)@.next_sequence),
                    ..old(session)@
                })
            },
            _ => event is None && final(session)@ == old(session)@,
        },
{
    match &session.active {
        Some(active) => {
            if !should_send_mouse_move(&mut session.last_move, session.buttons != 0, now) {
                return None;
            }
            Some(
                send_remote_mouse_move_with_drag(
                    active,
                    point,
                    session.buttons,
                    &mut session.sequences,
                ),
            )
        },
        None => None,
    }
}

/// The heartbeat of a control session, if one is due: the pointer and the held
/// buttons as they are. Without a session there is none, and the clock of the
/// heartbeats starts anew.
pub fn send_remote_input_heartbeat(session: &mut ControlSession, point: (i32, i32), now: u64) -> (event:
    Option<InputEvent>)
    ensures
        match old(session)@.active {
            None => {
                &&& event is None
                &&& final(session)@ == (ControlView { last_heartbeat: None, ..old(session)@ })
            },
            Some(active) => if heartbeat_due(old(session)@.last_heartbeat, now) {
                &&& event matches Some(event) && event@ == move_view(
                    active,
                    point,
                    old(session)@.buttons,
                    old(session)@.next_sequence,
                )
                &&& final(session)@ == (ControlView {
                    last_heartbeat: Some(now),
                    next_sequence: following_sequence(old(session)@.next_sequence),
                    ..old(session)@
                })
            } else {
                event is None && final(session)@ == old(session)@
            },
        },
{
    match &session.active {
        None => {
            session.last_heartbeat = None;
            None
        },
        Some(active) => {
            if !remote_input_heartbeat_due(&mut session.last_heartbeat, now) {
                return None;
            }
            Some(
                send_remote_mouse_move_with_drag(
                    active,
                    point,
                    session.buttons,
                    &mut session.sequences,
                ),
            )
        },
    }
}

/// The peer whose input stream a control session depends on.
pub open spec fn control_peer(active: ActiveTarget) -> PeerView {
    PeerView {
        addr: active.target.target_addr@,
        public_key: active.target.transport_public_key@,
        protocol_version: active.target.protocol_version,
    }
}

/// Whether the input stream to the controlled machine has failed, as
/// `peer_failed` tells of its peer.
pub fn active_target_input_failed<F: FnOnce(PeerEndpoint) -> bool>(
    active: Option<&ActiveTarget>,
    peer_failed: F,
) -> (failed: bool)
    requires
        forall|peer: PeerEndpoint| peer_failed.requires((peer,)),
    ensures
        match active {
            Some(active) => exists|peer: PeerEndpoint|
                peer@ == control_peer(*active) && #[trigger] peer_failed.ensures((peer,), failed),
            None => !failed,
        },
{
    match active {
        Some(active) => {
            let peer = PeerEndpoint {
                addr: active.target.target_addr.clone(),
                public_key: active.target.transport_public_key.clone(),
                protocol_version: active.target.protocol_version,
            };
            assert(peer@ == control_peer(*active));
            peer_failed(peer)
        },
        None => false,
    }
}

/// Numbers are given out one after the other.
pub proof fn law_numbers_follow_each_other(sequence: u64)
    ensures
        sequence < u64::MAX ==> following_sequence(sequence) == sequence + 1,
        following_sequence(u64::MAX) == 0,
{
}

/// A position that is sent names the screen, the column and the row that the
/// pointer is on and all the held buttons; the drag is that of the first one.
pub proof fn law_sent_positions_say_where_the_pointer_is(
    active: ActiveTarget,
    point: (i32, i32),
    buttons: u64,
    button: MouseButton,
    down: bool,
    sequence: u64,
)
    ensures
        move_view(active, point, buttons, sequence) matches EventView::MouseMove {
            screen_id,
            x,
            y,
            drag_button,
            button_mask,
            sequence: number,
        } && screen_id == active.current_screen_id@ && x == point.0 && y == point.1 && button_mask
            == Some(buttons) && number == sequence && (drag_button == Some(MouseButton::Left)
            <==> buttons & 1 != 0) && (drag_button is None <==> buttons & 7 == 0),
        button_view(active, button, down, point, sequence) matches EventView::MouseButton {
            button: sent,
            down: goes_down,
            screen_id,
            x,
            y,
            sequence: number,
        } && sent == button && goes_down == down && screen_id == active.current_screen_id@ && x
            == Some(point.0) && y == Some(point.1) && number == sequence,
{
    crate::shared_input::law_buttons_have_their_bits(buttons);
}

/// The pointer is parked on the screen that it was on, near its far corner:
/// across by the width and down by the height, clear of the corner where there
/// is room for it.
pub proof fn law_pointer_is_parked_near_the_far_corner(active: ActiveTarget, sequence: u64)
    ensures
        park_view(active, sequence) matches EventView::CursorPark {
            screen_id,
            x,
            y,
            sequence: number,
        } && screen_id == active.current_screen_id@ && number == sequence && (
        active.current_screen.width >= 130 ==> x == active.current_screen.width - 65) && (
        active.current_screen.height >= 130 ==> y == active.current_screen.height - 65) && (2
            < active.current_screen.width < 130 ==> x == active.current_screen.width / 2) && (2
            < active.current_screen.height < 130 ==> y == active.current_screen.height / 2) && (
        active.current_screen.width <= 2 ==> x == 0) && (active.current_screen.height <= 2 ==> y
            == 0),
{
}

/// A button that goes down is held and one that goes up is not; the other
/// buttons stay as they were.
pub proof fn law_button_masks_follow_transitions(
    buttons: u64,
    button: MouseButton,
    down: bool,
    other: MouseButton,
)
    ensures
        (buttons_after(buttons, button, down) & button_bit(other) != 0) == (if other == button {
            down
        } else {
            buttons & button_bit(other) != 0
        }),
{
    let bit = button_bit(button);
    let seen = button_bit(other);
    assert(((buttons | bit) & seen != 0) == (seen == bit || buttons & seen != 0) && ((buttons & !bit)
        & seen != 0) == (seen != bit && buttons & seen != 0)) by (bit_vector)
        requires
            bit == 1 || bit == 2 || bit == 4,
            seen == 1 || seen == 2 || seen == 4,
    ;
}

/// What the other machine is left with follows what was sent to it: a key or a
/// button that was sent down is held there until it is sent up.
pub proof fn law_sent_events_are_remembered(session: ControlView, event: InputEvent)
    ensures
        ({
            let after = control_after_send(session, event@);
            &&& event matches InputEvent::Key { key_code, down } ==> after.buttons
                == session.buttons && (forall|key: u16| #[trigger]
                after.forwarded_keys.contains(key) <==> if key == key_code {
                    down
                } else {
                    session.forwarded_keys.contains(key)
                })
            &&& event matches InputEvent::MouseButton { button, down, .. } ==> after.forwarded_keys
                == session.forwarded_keys && (after.buttons & button_bit(button) != 0) == down
            &&& event !is Key && event !is MouseButton ==> after == session
            &&& after.active == session.active
            &&& after.next_sequence == session.next_sequence
        }),
{
    match event {
        InputEvent::Key { key_code, down } => {
            assert forall|key: u16| #[trigger]
                control_after_send(session, event@).forwarded_keys.contains(key) <==> if key
                == key_code {
                down
            } else {
                session.forwarded_keys.contains(key)
            } by {
                lemma_key_transition(session.forwarded_keys, key_code, down, key);
            }
        },
        InputEvent::MouseButton { button, down, .. } => {
            law_button_masks_follow_transitions(session.buttons, button, down, button);
        },
        _ => {},
    }
}

/// Control is given back in order: the modifiers go up, then the keys, each in
/// the order in which they are held, then left, right and middle button as far
/// as they are held, then the pointer is parked. Buttons and park take numbers
/// one after the other.
pub proof fn law_release_is_in_order(
    session: ControlView,
    active: ActiveTarget,
    modifiers: Seq<u16>,
    i: int,
)
    requires
        session.next_sequence <= u64::MAX - 4,
    ensures
        ({
            let events = release_views(session, active, modifiers);
            let keys = session.forwarded_keys;
            let first = modifiers.len() + keys.len();
            let left: int = if session.buttons & 1 != 0 {
                1
            } else {
                0
            };
            let right: int = if session.buttons & 2 != 0 {
                1
            } else {
                0
            };
            let middle: int = if session.buttons & 4 != 0 {
                1
            } else {
                0
            };
            &&& events.len() == first + left + right + middle + 1
            &&& 0 <= i < modifiers.len() ==> events[i] == (EventView::Key {
                key_code: modifiers[i],
                down: false,
            })
            &&& 0 <= i < keys.len() ==> events[modifiers.len() + i] == (EventView::Key {
                key_code: keys[i],
                down: false,
            })
            &&& left == 1 ==> releases_button(events[first as int], MouseButton::Left)
            &&& right == 1 ==> releases_button(events[first + left], MouseButton::Right)
            &&& middle == 1 ==> releases_button(events[first + left + right], MouseButton::Middle)
            &&& first <= i < events.len() ==> crate::remote_mouse::mouse_sequence(events[i]) == Some(
                (session.next_sequence + (i - first)) as u64,
            )
            &&& events.last() is CursorPark
        }),
{
    let ups = button_ups(session.buttons, session.next_sequence);
    let head = key_ups(modifiers) + key_ups(session.forwarded_keys);
    let events = release_views(session, active, modifiers);
    let first = modifiers.len() as int + session.forwarded_keys.len();
    assert(head.len() == first);
    let left = button_up(session.buttons, MouseButton::Left, session.next_sequence);
    let second = sequence_after_up(session.buttons, MouseButton::Left, session.next_sequence);
    let right = button_up(session.buttons, MouseButton::Right, second);
    let third = sequence_after_up(session.buttons, MouseButton::Right, second);
    let middle = button_up(session.buttons, MouseButton::Middle, third);
    assert(ups == left + right + middle);
    assert(forall|j: int| 0 <= j < ups.len() ==> #[trigger] events[first + j] == ups[j]);
    if first <= i < events.len() - 1 {
        assert(events[first + (i - first)] == ups[i - first]);
    }
    if left.len() == 1 {
        assert(events[first + 0] == ups[0]);
    }
    if right.len() == 1 {
        assert(events[first + left.len()] == ups[left.len() as int]);
    }
    if middle.len() == 1 {
        assert(events[first + (left + right).len()] == ups[(left + right).len() as int]);
    }
}

/// The stream that control depends on is that of the machine that was entered.
pub proof fn law_control_depends_on_the_entered_machine(active: ActiveTarget)
    ensures
        control_peer(active).addr == active.target.target_addr@,
        control_peer(active).public_key == active.target.transport_public_key@,
        control_peer(active).protocol_version == active.target.protocol_version,
{
}

/// Positions are sent at most every four milliseconds, dragging or not; the
/// first one at once.
pub proof fn law_positions_are_paced(last: u64, now: u64)
    requires
        last <= now,
    ensures
        report_due(Some(last), now, MOUSE_MOVE_SEND_INTERVAL) <==> now - last >= 4_000_000,
        report_due(Some(last), now, DRAG_MOVE_SEND_INTERVAL) <==> now - last >= 4_000_000,
        report_due(None, now, MOUSE_MOVE_SEND_INTERVAL),
        report_due(None, now, DRAG_MOVE_SEND_INTERVAL),
{
}

/// A session that controls nothing holds nothing, and its first position and
/// heartbeat are due at once.
pub proof fn law_idle_sessions_hold_nothing(next_sequence: u64, now: u64)
    ensures
        ({
            let idle = idle_control(next_sequence);
            &&& idle.active is None
            &&& !idle.remote_active
            &&& idle.forwarded_keys.len() == 0
            &&& idle.buttons == 0
            &&& idle.next_sequence == next_sequence
            &&& report_due(idle.last_move, now, MOUSE_MOVE_SEND_INTERVAL)
            &&& heartbeat_due(idle.last_heartbeat, now)
        }),
{
}

} // verus!
