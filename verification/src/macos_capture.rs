//! Capture on macOS: what an event of the tap comes to, and how control of
//! another machine is entered, kept and given back.

use vstd::prelude::*;

use crate::capture::{
    motion_step, moved_on, roams_to, should_ignore_initial_anchor_warp_delta,
    undoes_entry, update_active_remote_screen, ActiveTarget, RemoteMotion, RemoteStep, Span,
};
use crate::clipboard_target::{
    bound, clear_clipboard_target, clear_clipboard_target_if_device, cleared, cleared_if_bound,
    control_target, set_control_clipboard_target, BindingView, ClipboardBinding,
};
use crate::control::{
    button_view, control_after_send, ended_session, event_views, following_sequence, holds_key,
    idle_control, move_view, note_sent, release_held_remote_inputs, release_views,
    send_remote_input_heartbeat, send_remote_mouse_move, ControlSession, ControlView,
};
use crate::hotkeys::{is_switch_hotkey, screen_switch_hotkey_matches_vk, HotkeyModifiers};
use crate::keymap::{mac_key_to_windows_vk, mac_vk};
use crate::layout::LayoutState;
use crate::macos_cursor::{
    after_reassert, after_repin, hidden_cursor, hide_macos_cursor_if_needed, kept_in_place,
    reassert_macos_hidden_window_cursor, reasserts, repin_macos_cursor_if_drifted,
    repin_macos_cursor_while_remote, repins, reset_cursor_repin_timer, show_macos_cursor_if_needed, shown_cursor, MacCursor, RepinStep,
};
use crate::macos_inject::{
    MAC_ALTERNATE_FLAG, MAC_COMMAND_FLAG, MAC_CONTROL_FLAG, MAC_SHIFT_FLAG,
};
use crate::modifiers::key_events;
use crate::packets::{layout_value, SequenceCounter};
use crate::remote_mouse::EventView;
use crate::session::heartbeat_due;
use crate::shared_input::{families_mask, modifier_mask_for_keys, InputEvent, MouseButton};

verus! {

/// The tag that events of the library's own injection carry.
pub const MACOS_INJECTED_EVENT_TAG: i64 = 0x4D_594B_564D;

/// The key code of Caps Lock.
pub const MAC_CAPS_LOCK: u16 = 57;

/// Types of raw gesture events.
pub const MACOS_NSEVENT_TYPE_SYSTEM_DEFINED: u32 = 14;

pub const MACOS_NSEVENT_TYPE_ROTATE: u32 = 18;

pub const MACOS_NSEVENT_TYPE_BEGIN_GESTURE: u32 = 19;

pub const MACOS_NSEVENT_TYPE_END_GESTURE: u32 = 20;

pub const MACOS_NSEVENT_TYPE_GESTURE: u32 = 29;

pub const MACOS_NSEVENT_TYPE_MAGNIFY: u32 = 30;

pub const MACOS_NSEVENT_TYPE_SWIPE: u32 = 31;

pub const MACOS_NSEVENT_TYPE_SMART_MAGNIFY: u32 = 32;

pub const MACOS_NSEVENT_TYPE_QUICK_LOOK: u32 = 33;

pub const MACOS_NSEVENT_TYPE_PRESSURE: u32 = 34;

pub const MACOS_NSEVENT_TYPE_DIRECT_TOUCH: u32 = 37;

pub const MACOS_NSEVENT_TYPE_CHANGE_MODE: u32 = 38;

/// The types by which a raw tap says that it was disabled.
pub const MACOS_RAW_EVENT_TAP_DISABLED_BY_TIMEOUT: u32 = 0xFFFF_FFFE;

pub const MACOS_RAW_EVENT_TAP_DISABLED_BY_USER_INPUT: u32 = 0xFFFF_FFFF;

/// The raw events that are gestures of the trackpad or of the system.
pub open spec fn gesture_types() -> Seq<u32> {
    seq![14u32, 18, 19, 20, 29, 30, 31, 32, 33, 34, 37, 38]
}

pub fn macos_raw_gesture_event_types() -> (types: Vec<u32>)
    ensures
        types@ == gesture_types(),
{
    let types: Vec<u32> = vec![
        MACOS_NSEVENT_TYPE_SYSTEM_DEFINED,
        MACOS_NSEVENT_TYPE_ROTATE,
        MACOS_NSEVENT_TYPE_BEGIN_GESTURE,
        MACOS_NSEVENT_TYPE_END_GESTURE,
        MACOS_NSEVENT_TYPE_GESTURE,
        MACOS_NSEVENT_TYPE_MAGNIFY,
        MACOS_NSEVENT_TYPE_SWIPE,
        MACOS_NSEVENT_TYPE_SMART_MAGNIFY,
        MACOS_NSEVENT_TYPE_QUICK_LOOK,
        MACOS_NSEVENT_TYPE_PRESSURE,
        MACOS_NSEVENT_TYPE_DIRECT_TOUCH,
        MACOS_NSEVENT_TYPE_CHANGE_MODE,
    ];
    assert(types@ =~= gesture_types());
    types
}

/// The mask with one bit for each type.
pub open spec fn types_mask(types: Seq<u32>) -> u64
    decreases types.len(),
{
    if types.len() == 0 {
        0
    } else {
        types_mask(types.drop_last()) | (1u64 << types.last() as u64)
    }
}

pub fn macos_raw_gesture_event_mask() -> (mask: u64)
    ensures
        mask == types_mask(gesture_types()),
{
    let types = macos_raw_gesture_event_types();
    let mut mask: u64 = 0;
    let mut index: usize = 0;
    assert(types@.take(0) =~= Seq::<u32>::empty());
    while index < types.len()
        invariant
            index <= types@.len(),
            types@ == gesture_types(),
            mask == types_mask(types@.take(index as int)),
        decreases types@.len() - index,
    {
        let bit: u64 = types[index] as u64;
        proof {
            assert(types@.take(index + 1).drop_last() =~= types@.take(index as int));
            assert(bit < 64);
        }
        mask = mask | (1u64 << bit);
        index += 1;
    }
    assert(types@.take(index as int) =~= types@);
    mask
}

proof fn lemma_one_bit(mask: u64, set: u64, bit: u64)
    by (bit_vector)
    requires
        set < 64,
        bit < 64,
    ensures
        (mask | (1u64 << set)) & (1u64 << bit) != 0 <==> mask & (1u64 << bit) != 0 || set == bit,
        0u64 & (1u64 << bit) == 0,
{
}

/// The mask of the raw tap asks for exactly the listed types.
pub proof fn law_mask_holds_its_types(types: Seq<u32>, bit: u32)
    requires
        forall|i: int| 0 <= i < types.len() ==> #[trigger] types[i] < 64,
        bit < 64,
    ensures
        types_mask(types) & (1u64 << bit as u64) != 0 <==> types.contains(bit),
    decreases types.len(),
{
    if types.len() == 0 {
        lemma_one_bit(0, 0, bit as u64);
    } else {
        let shorter = types.drop_last();
        assert forall|i: int| 0 <= i < shorter.len() implies #[trigger] shorter[i] < 64 by {
            assert(shorter[i] == types[i]);
        }
        law_mask_holds_its_types(shorter, bit);
        assert(types.last() == types[types.len() - 1]);
        lemma_one_bit(types_mask(shorter), types.last() as u64, bit as u64);
        if types.contains(bit) {
            let i = choose|i: int| 0 <= i < types.len() && types[i] == bit;
            if i < shorter.len() {
                assert(shorter[i] == bit);
            }
        }
        if shorter.contains(bit) {
            let i = choose|i: int| 0 <= i < shorter.len() && shorter[i] == bit;
            assert(types[i] == bit);
        }
    }
}

pub fn macos_event_is_mykvm_injected(user_data: i64) -> (injected: bool)
    ensures
        injected == (user_data == MACOS_INJECTED_EVENT_TAG),
{
    user_data == MACOS_INJECTED_EVENT_TAG
}

/// The modifiers that the flags of an event show.
pub open spec fn key_of_flag(flags: u64, flag: u64, key: u16) -> Seq<u16> {
    if flags & flag == flag {
        seq![key]
    } else {
        Seq::empty()
    }
}

pub open spec fn keys_of_flags(flags: u64) -> Seq<u16> {
    key_of_flag(flags, MAC_SHIFT_FLAG, 0x10) + key_of_flag(flags, MAC_CONTROL_FLAG, 0x11)
        + key_of_flag(flags, MAC_ALTERNATE_FLAG, 0x12) + key_of_flag(flags, MAC_COMMAND_FLAG, 0x5B)
}

fn push_key_of_flag(flags: u64, flag: u64, key: u16, keys: &mut Vec<u16>)
    ensures
        final(keys)@ == old(keys)@ + key_of_flag(flags, flag, key),
{
    if flags & flag == flag {
        keys.push(key);
    }
    assert(keys@ =~= old(keys)@ + key_of_flag(flags, flag, key));
}

pub fn mac_modifier_vks(flags: u64) -> (keys: Vec<u16>)
    ensures
        keys@ == keys_of_flags(flags),
{
    let mut keys: Vec<u16> = Vec::new();
    push_key_of_flag(flags, MAC_SHIFT_FLAG, 0x10, &mut keys);
    push_key_of_flag(flags, MAC_CONTROL_FLAG, 0x11, &mut keys);
    push_key_of_flag(flags, MAC_ALTERNATE_FLAG, 0x12, &mut keys);
    push_key_of_flag(flags, MAC_COMMAND_FLAG, 0x5B, &mut keys);
    assert(keys@ =~= keys_of_flags(flags));
    keys
}

/// The flags as a hotkey sees them.
pub open spec fn flag_modifiers(flags: u64) -> HotkeyModifiers {
    HotkeyModifiers {
        ctrl: flags & MAC_CONTROL_FLAG == MAC_CONTROL_FLAG,
        alt: flags & MAC_ALTERNATE_FLAG == MAC_ALTERNATE_FLAG,
        shift: flags & MAC_SHIFT_FLAG == MAC_SHIFT_FLAG,
        meta: flags & MAC_COMMAND_FLAG == MAC_COMMAND_FLAG,
    }
}

/// The key switches screens.
pub open spec fn is_mac_switch_key(layout: Option<LayoutState>, code: u16, flags: u64) -> bool {
    match (mac_vk(code), layout) {
        (Some(vk), Some(layout)) => layout.machine_role@ == "server"@ && is_switch_hotkey(
            layout.screen_switch_hotkeys,
            vk,
            flag_modifiers(flags),
        ),
        _ => false,
    }
}

pub fn macos_event_matches_screen_switch_hotkey(
    layout: Option<&LayoutState>,
    code: u16,
    flags: u64,
) -> (matched: bool)
    ensures
        matched == is_mac_switch_key(layout_value(layout), code, flags),
{
    match mac_key_to_windows_vk(code) {
        Some(key_code) => screen_switch_hotkey_matches_vk(
            layout,
            key_code,
            HotkeyModifiers {
                ctrl: flags & MAC_CONTROL_FLAG == MAC_CONTROL_FLAG,
                alt: flags & MAC_ALTERNATE_FLAG == MAC_ALTERNATE_FLAG,
                shift: flags & MAC_SHIFT_FLAG == MAC_SHIFT_FLAG,
                meta: flags & MAC_COMMAND_FLAG == MAC_COMMAND_FLAG,
            },
        ),
        None => false,
    }
}

/// The keys of `keys` that `others` does not hold.
pub open spec fn keys_besides(keys: Seq<u16>, others: Seq<u16>) -> Seq<u16>
    decreases keys.len(),
{
    if keys.len() == 0 {
        Seq::empty()
    } else if others.contains(keys.last()) {
        keys_besides(keys.drop_last(), others)
    } else {
        keys_besides(keys.drop_last(), others).push(keys.last())
    }
}

fn push_keys_besides(keys: &Vec<u16>, others: &Vec<u16>, down: bool, events: &mut Vec<InputEvent>)
    ensures
        final(events)@ == old(events)@ + key_events(keys_besides(keys@, others@), down),
{
    let ghost before = events@;
    let mut index: usize = 0;
    proof {
        assert(keys@.take(0) =~= Seq::<u16>::empty());
        assert(events@ =~= before + key_events(keys_besides(keys@.take(0), others@), down));
    }
    while index < keys.len()
        invariant
            index <= keys@.len(),
            events@ == before + key_events(keys_besides(keys@.take(index as int), others@), down),
        decreases keys@.len() - index,
    {
        let key_code: u16 = keys[index];
        proof {
            assert(keys@.take(index + 1).drop_last() =~= keys@.take(index as int));
        }
        let ghost kept = keys_besides(keys@.take(index as int), others@);
        if !holds_key(others, key_code) {
            events.push(InputEvent::Key { key_code, down });
            assert(events@ =~= before + key_events(kept.push(key_code), down));
        }
        index += 1;
    }
    assert(keys@.take(index as int) =~= keys@);
}

/// The key events that a change of the modifiers comes to: presses first.
pub open spec fn modifier_changes(previous: Seq<u16>, next: Seq<u16>) -> Seq<InputEvent> {
    key_events(keys_besides(next, previous), true) + key_events(keys_besides(previous, next), false)
}

/// The events for a change of the modifiers. Caps Lock shows no release, so its
/// change is a press and a release, and leaves the modifiers as they were.
pub fn send_modifier_changes(pressed: &mut Vec<u16>, code: u16, flags: u64) -> (events: Vec<
    InputEvent,
>)
    ensures
        code == MAC_CAPS_LOCK ==> final(pressed)@ == old(pressed)@ && events@ == seq![
            InputEvent::Key { key_code: 0x14u16, down: true },
            InputEvent::Key { key_code: 0x14u16, down: false },
        ],
        code != MAC_CAPS_LOCK ==> final(pressed)@ == keys_of_flags(flags) && events@
            == modifier_changes(old(pressed)@, keys_of_flags(flags)),
{
    let mut events: Vec<InputEvent> = Vec::new();
    if code == MAC_CAPS_LOCK {
        if let Some(key_code) = mac_key_to_windows_vk(code) {
            events.push(InputEvent::Key { key_code, down: true });
            events.push(InputEvent::Key { key_code, down: false });
        }
        assert(events@ =~= seq![
            InputEvent::Key { key_code: 0x14u16, down: true },
            InputEvent::Key { key_code: 0x14u16, down: false },
        ]);
        return events;
    }
    let next = mac_modifier_vks(flags);
    push_keys_besides(&next, pressed, true, &mut events);
    push_keys_besides(pressed, &next, false, &mut events);
    assert(events@ =~= modifier_changes(pressed@, next@));
    *pressed = next;
    events
}

proof fn lemma_keys_besides(keys: Seq<u16>, others: Seq<u16>, key: u16)
    ensures
        keys_besides(keys, others).contains(key) <==> keys.contains(key) && !others.contains(key),
    decreases keys.len(),
{
    if keys.len() > 0 {
        let shorter = keys.drop_last();
        lemma_keys_besides(shorter, others, key);
        let rest = keys_besides(shorter, others);
        let all = keys_besides(keys, others);
        assert(keys.contains(key) <==> shorter.contains(key) || keys.last() == key) by {
            if keys.contains(key) {
                let i = choose|i: int| 0 <= i < keys.len() && keys[i] == key;
                if i < shorter.len() {
                    assert(shorter[i] == key);
                }
            }
            if shorter.contains(key) {
                let i = choose|i: int| 0 <= i < shorter.len() && shorter[i] == key;
                assert(keys[i] == key);
            }
            assert(keys[keys.len() - 1] == keys.last());
        }
        if !others.contains(keys.last()) {
            assert(all.contains(key) <==> rest.contains(key) || keys.last() == key) by {
                if all.contains(key) {
                    let i = choose|i: int| 0 <= i < all.len() && all[i] == key;
                    if i < rest.len() {
                        assert(rest[i] == key);
                    }
                }
                if rest.contains(key) {
                    let i = choose|i: int| 0 <= i < rest.len() && rest[i] == key;
                    assert(all[i] == key);
                }
                assert(all[all.len() - 1] == keys.last());
            }
        }
    }
}

/// A change of the modifiers sends a press for exactly those that are new and a
/// release for exactly those that are gone.
pub proof fn law_modifier_changes_are_exact(previous: Seq<u16>, next: Seq<u16>, key: u16)
    ensures
        modifier_changes(previous, next).contains(
            (InputEvent::Key { key_code: key, down: true }),
        ) <==> next.contains(key) && !previous.contains(key),
        modifier_changes(previous, next).contains(
            (InputEvent::Key { key_code: key, down: false }),
        ) <==> previous.contains(key) && !next.contains(key),
{
    lemma_keys_besides(next, previous, key);
    lemma_keys_besides(previous, next, key);
    let new = keys_besides(next, previous);
    let gone = keys_besides(previous, next);
    let events = modifier_changes(previous, next);
    let press = InputEvent::Key { key_code: key, down: true };
    let release = InputEvent::Key { key_code: key, down: false };
    if new.contains(key) {
        let i = choose|i: int| 0 <= i < new.len() && new[i] == key;
        assert(events[i] == press);
    }
    if gone.contains(key) {
        let i = choose|i: int| 0 <= i < gone.len() && gone[i] == key;
        assert(events[new.len() + i] == release);
    }
    if events.contains(press) {
        let i = choose|i: int| 0 <= i < events.len() && events[i] == press;
        if i < new.len() {
            assert(new[i] == key);
        } else {
            assert(events[i] == key_events(gone, false)[i - new.len()]);
        }
    }
    if events.contains(release) {
        let i = choose|i: int| 0 <= i < events.len() && events[i] == release;
        if i < new.len() {
            assert(events[i] == key_events(new, true)[i]);
        } else {
            assert(gone[i - new.len()] == key);
        }
    }
}

/// The state of the capturing side. Points on the screen are carried through as
/// they are.
#[derive(Debug, PartialEq, Eq)]
pub struct MacCapture<P> {
    pub session: ControlSession,
    /// The modifiers that the keyboard last showed.
    pub pressed_modifiers: Vec<u16>,
    pub tap_disabled: bool,
    pub just_crossed: bool,
    pub suppress_next_delta: bool,
    /// Where the pointer was when a hotkey took control away from it.
    pub hotkey_return_point: Option<P>,
    /// Where the pointer is pinned while another machine is controlled.
    pub anchor: Option<P>,
    pub cursor: MacCursor,
}

#[verifier::ext_equal]
pub struct MacView<P> {
    pub control: ControlView,
    pub modifiers: Seq<u16>,
    pub tap_disabled: bool,
    pub just_crossed: bool,
    pub suppress_next_delta: bool,
    pub hotkey_return_point: Option<P>,
    pub anchor: Option<P>,
    pub cursor: MacCursor,
}

impl<P> View for MacCapture<P> {
    type V = MacView<P>;

    open spec fn view(&self) -> MacView<P> {
        MacView {
            control: self.session@,
            modifiers: self.pressed_modifiers@,
            tap_disabled: self.tap_disabled,
            just_crossed: self.just_crossed,
            suppress_next_delta: self.suppress_next_delta,
            hotkey_return_point: self.hotkey_return_point,
            anchor: self.anchor,
            cursor: self.cursor,
        }
    }
}

impl<P> MacCapture<P> {
    pub fn new(sequences: SequenceCounter) -> (capture: Self)
        ensures
            capture@ == (MacView::<P> {
                control: idle_control(sequences.next),
                modifiers: Seq::empty(),
                tap_disabled: false,
                just_crossed: false,
                suppress_next_delta: false,
                hotkey_return_point: None,
                anchor: None,
                cursor: MacCursor {
                    hidden: false,
                    depth: 0,
                    last_reassert: None,
                    last_repin: None,
                },
            }),
    {
        let capture = MacCapture {
            session: ControlSession::new(sequences),
            pressed_modifiers: Vec::new(),
            tap_disabled: false,
            just_crossed: false,
            suppress_next_delta: false,
            hotkey_return_point: None,
            anchor: None,
            cursor: MacCursor::default(),
        };
        assert(capture.pressed_modifiers@ =~= Seq::<u16>::empty());
        capture
    }
}

/// Control that was given back: the events that release what was held, where
/// the pointer goes if that was recorded, and the hides of it to undo.
#[derive(Debug, PartialEq, Eq)]
pub struct MacReturn<P> {
    pub active: ActiveTarget,
    pub events: Vec<InputEvent>,
    pub recorded_point: Option<P>,
    pub undo_hides: Option<u32>,
}

/// The hides to undo when the pointer is shown.
pub open spec fn hides_of(cursor: MacCursor) -> Option<u32> {
    if cursor.hidden {
        Some(cursor.depth)
    } else {
        None
    }
}

/// The pointer after control was given back.
pub open spec fn returned_cursor(cursor: MacCursor) -> MacCursor {
    shown_cursor(MacCursor { last_repin: None, ..cursor })
}

/// The state after control was given back. The modifiers stay: they are what
/// the keyboard shows, and go along when control is taken again.
pub open spec fn returned_capture<P>(capture: MacView<P>) -> MacView<P> {
    MacView {
        control: ended_session(capture.control),
        just_crossed: false,
        suppress_next_delta: false,
        anchor: None,
        cursor: returned_cursor(capture.cursor),
        ..capture
    }
}

/// The return releases what `capture` held on the machine of `active`.
pub open spec fn gives_back<P>(
    returned: MacReturn<P>,
    capture: MacView<P>,
    active: ActiveTarget,
    recorded_point: Option<P>,
) -> bool {
    &&& returned.active == active
    &&& event_views(returned.events@) == release_views(capture.control, active, capture.modifiers)
    &&& returned.recorded_point == recorded_point
    &&& returned.undo_hides == hides_of(capture.cursor)
}

/// Ends the control of `active`, which was taken out of the session.
fn end_control<P>(
    capture: &mut MacCapture<P>,
    active: ActiveTarget,
    recorded_point: Option<P>,
    clipboard: &mut ClipboardBinding,
) -> (returned: MacReturn<P>)
    requires
        old(capture)@.control.active is None,
    ensures
        gives_back(returned, old(capture)@, active, recorded_point),
        final(capture)@ == returned_capture(old(capture)@),
        final(clipboard)@ == cleared_if_bound(old(clipboard)@, active.target.device_id@),
{
    let ghost before = capture@;
    capture.just_crossed = false;
    capture.suppress_next_delta = false;
    let events = release_held_remote_inputs(
        &mut capture.session,
        &active,
        capture.pressed_modifiers.as_slice(),
    );
    capture.session.remote_active = false;
    capture.session.last_move = None;
    clear_clipboard_target_if_device(clipboard, active.target.device_id.as_str());
    reset_cursor_repin_timer(&mut capture.cursor);
    capture.anchor = None;
    let undo_hides = show_macos_cursor_if_needed(&mut capture.cursor);
    assert(capture@.control =~= ended_session(before.control));
    assert(capture@ =~= returned_capture(before));
    MacReturn { active, events, recorded_point, undo_hides }
}

/// Gives control back to this machine. The pointer goes back to where a hotkey
/// took it from, if one did. Nothing happens where nothing is controlled.
pub fn return_to_local_macos<P: Copy>(
    capture: &mut MacCapture<P>,
    clipboard: &mut ClipboardBinding,
) -> (returned: Option<MacReturn<P>>)
    ensures
        match old(capture)@.control.active {
            Some(active) => {
                &&& returned matches Some(returned) && gives_back(
                    returned,
                    old(capture)@,
                    active,
                    old(capture)@.hotkey_return_point,
                )
                &&& final(capture)@ == (MacView {
                    hotkey_return_point: None,
                    ..returned_capture(old(capture)@)
                })
                &&& final(clipboard)@ == cleared_if_bound(
                    old(clipboard)@,
                    active.target.device_id@,
                )
            },
            None => {
                &&& returned is None
                &&& final(capture)@ == old(capture)@
                &&& final(clipboard)@ == old(clipboard)@
            },
        },
{
    let ghost before = capture@;
    match capture.session.active.take() {
        Some(active) => {
            let recorded_point = capture.hotkey_return_point;
            capture.hotkey_return_point = None;
            let ghost waiting = capture@;
            let returned = end_control(capture, active, recorded_point, clipboard);
            proof {
                assert(release_views(waiting.control, active, waiting.modifiers) =~= release_views(
                    before.control,
                    active,
                    before.modifiers,
                ));
                assert(ended_session(waiting.control) =~= ended_session(before.control));
                assert(capture@ =~= (MacView {
                    hotkey_return_point: None,
                    ..returned_capture(before)
                }));
            }
            Some(returned)
        },
        None => {
            assert(capture@ =~= before);
            None
        },
    }
}

/// The return is that of the control that `before` had, and `after` has none.
pub open spec fn hands_back<P>(
    returned: Option<MacReturn<P>>,
    before: MacView<P>,
    after: MacView<P>,
    clipboard: BindingView,
    clipboard_after: BindingView,
) -> bool {
    match before.control.active {
        Some(active) => {
            &&& returned matches Some(returned) && gives_back(
                returned,
                before,
                active,
                before.hotkey_return_point,
            )
            &&& after == (MacView { hotkey_return_point: None, ..returned_capture(before) })
            &&& clipboard_after == cleared_if_bound(clipboard, active.target.device_id@)
        },
        None => returned is None && after == before && clipboard_after == clipboard,
    }
}

/// What an event of the tap is.
#[derive(Debug, Clone, Copy, PartialEq, Eq, Structural)]
pub enum MacEventKind {
    /// The system disabled the tap.
    TapDisabled,
    /// The pointer moved, with or without a button held.
    Moved,
    Button { button: MouseButton, down: bool },
    Scroll { delta_x: i32, delta_y: i32 },
    Key { code: u16, down: bool },
    FlagsChanged { code: u16 },
    Other,
}

/// An event of the tap.
#[derive(Debug, Clone, Copy, PartialEq, Eq, Structural)]
pub struct MacEvent {
    pub kind: MacEventKind,
    pub flags: u64,
    pub user_data: i64,
}

/// What surrounds a call of the tap: a release in progress owns the session, or
/// the capture is about to stop.
#[derive(Debug, Clone, Copy, PartialEq, Eq, Structural)]
pub struct TapCall {
    pub gate_busy: bool,
    pub stopping: bool,
}

/// What an event of the tap comes to. Everything but `Keep` and `Follow` takes
/// the event from this machine. After `Send`, `Changes` and `Miss` the event is
/// finished with `finish_macos_event`.
#[derive(Debug, PartialEq, Eq)]
pub enum MacStep<P> {
    /// The event goes on to this machine.
    Keep,
    Swallow,
    /// The movement decides.
    Follow,
    /// Give control back.
    Return(MacReturn<P>),
    /// Send the event with the state of the modifiers.
    Send { event: InputEvent, snapshot: u8 },
    /// Send each of these, whatever becomes of the others.
    Changes(Vec<InputEvent>),
    /// There is nothing to send.
    Miss,
}

/// What an event leads to while another machine is controlled.
pub open spec fn remote_event_step<P>(
    step: MacStep<P>,
    before: MacView<P>,
    after: MacView<P>,
    active: ActiveTarget,
    event: MacEvent,
    layout: Option<LayoutState>,
    point: (i32, i32),
) -> bool {
    let mask = families_mask(keys_of_flags(event.flags));
    let numbered = MacView {
        control: ControlView {
            next_sequence: following_sequence(before.control.next_sequence),
            ..before.control
        },
        ..before
    };
    match event.kind {
        MacEventKind::Button { button, down } => {
            &&& step matches MacStep::Send { event: sent, snapshot } && snapshot == mask && sent@
                == button_view(active, button, down, point, before.control.next_sequence)
            &&& after == numbered
        },
        MacEventKind::Scroll { delta_x, delta_y } => {
            &&& step matches MacStep::Send { event: sent, snapshot } && snapshot == mask && sent@
                == (EventView::Scroll {
                delta_x,
                delta_y,
                sequence: before.control.next_sequence,
            })
            &&& after == numbered
        },
        MacEventKind::Key { code, down } => if down && is_mac_switch_key(
            layout,
            code,
            event.flags,
        ) {
            &&& step matches MacStep::Return(returned) && gives_back(
                returned,
                before,
                active,
                before.hotkey_return_point,
            )
            &&& after == (MacView { hotkey_return_point: None, ..returned_capture(before) })
        } else {
            &&& after == before
            &&& match mac_vk(code) {
                Some(key_code) => step matches MacStep::Send { event: sent, snapshot } && snapshot
                    == mask && sent@ == (EventView::Key { key_code, down }),
                None => step is Miss,
            }
        },
        MacEventKind::FlagsChanged { code } => {
            step matches MacStep::Changes(events) && if code == MAC_CAPS_LOCK {
                &&& events@ == seq![
                    InputEvent::Key { key_code: 0x14u16, down: true },
                    InputEvent::Key { key_code: 0x14u16, down: false },
                ]
                &&& after == before
            } else {
                &&& events@ == modifier_changes(before.modifiers, keys_of_flags(event.flags))
                &&& after == (MacView { modifiers: keys_of_flags(event.flags), ..before })
            }
        },
        _ => step is Miss && after == before,
    }
}

/// Whether the event is looked at at all.
pub open spec fn is_examined(event: MacEvent, call: TapCall) -> bool {
    &&& event.kind != MacEventKind::TapDisabled
    &&& event.user_data != MACOS_INJECTED_EVENT_TAG
    &&& !call.gate_busy
    &&& !call.stopping
}

/// Decides over an event of the tap. `point` is where the pointer is on the
/// controlled machine.
pub fn handle_macos_event<P: Copy>(
    capture: &mut MacCapture<P>,
    call: TapCall,
    event: MacEvent,
    layout: Option<&LayoutState>,
    point: (i32, i32),
    clipboard: &mut ClipboardBinding,
) -> (step: MacStep<P>)
    ensures
        event.kind == MacEventKind::TapDisabled ==> step is Keep && final(capture)@ == (MacView {
            tap_disabled: true,
            ..old(capture)@
        }),
        event.kind != MacEventKind::TapDisabled && !is_examined(event, call) ==> final(capture)@
            == old(capture)@ && if event.user_data != MACOS_INJECTED_EVENT_TAG && call.gate_busy
            && old(capture)@.control.remote_active {
            step is Swallow
        } else {
            step is Keep
        },
        is_examined(event, call) ==> if event.kind == MacEventKind::Moved {
            step is Follow && final(capture)@ == old(capture)@
        } else {
            match old(capture)@.control.active {
                None => {
                    &&& step is Keep
                    &&& final(capture)@ == if event.kind is FlagsChanged {
                        MacView { modifiers: keys_of_flags(event.flags), ..old(capture)@ }
                    } else {
                        old(capture)@
                    }
                },
                Some(active) => remote_event_step(
                    step,
                    old(capture)@,
                    final(capture)@,
                    active,
                    event,
                    layout_value(layout),
                    point,
                ),
            }
        },
        final(clipboard)@ == match step {
            MacStep::Return(returned) => cleared_if_bound(
                old(clipboard)@,
                returned.active.target.device_id@,
            ),
            _ => old(clipboard)@,
        },
{
    let ghost before = capture@;
    if let MacEventKind::TapDisabled = event.kind {
        capture.tap_disabled = true;
        return MacStep::Keep;
    }
    if macos_event_is_mykvm_injected(event.user_data) {
        return MacStep::Keep;
    }
    if call.gate_busy {
        return if capture.session.remote_active {
            MacStep::Swallow
        } else {
            MacStep::Keep
        };
    }
    if call.stopping {
        return MacStep::Keep;
    }
    if let MacEventKind::Moved = event.kind {
        return MacStep::Follow;
    }
    let screen_id = match &capture.session.active {
        Some(active) => active.current_screen_id.clone(),
        None => {
            if let MacEventKind::FlagsChanged { .. } = event.kind {
                capture.pressed_modifiers = mac_modifier_vks(event.flags);
            }
            assert(capture@ =~= if event.kind is FlagsChanged {
                MacView { modifiers: keys_of_flags(event.flags), ..before }
            } else {
                before
            });
            return MacStep::Keep;
        },
    };
    let held = mac_modifier_vks(event.flags);
    let snapshot: u8 = modifier_mask_for_keys(held.as_slice());
    match event.kind {
        MacEventKind::Button { button, down } => {
            let sequence: u64 = capture.session.sequences.take();
            MacStep::Send {
                event: InputEvent::MouseButton {
                    button,
                    down,
                    screen_id,
                    x: Some(point.0),
                    y: Some(point.1),
                    sequence,
                },
                snapshot,
            }
        },
        MacEventKind::Scroll { delta_x, delta_y } => {
            let sequence: u64 = capture.session.sequences.take();
            MacStep::Send { event: InputEvent::Scroll { delta_x, delta_y, sequence }, snapshot }
        },
        MacEventKind::Key { code, down } => {
            if down && macos_event_matches_screen_switch_hotkey(layout, code, event.flags) {
                return match return_to_local_macos(capture, clipboard) {
                    Some(returned) => MacStep::Return(returned),
                    None => MacStep::Swallow,
                };
            }
            match mac_key_to_windows_vk(code) {
                Some(key_code) => MacStep::Send {
                    event: InputEvent::Key { key_code, down },
                    snapshot,
                },
                None => MacStep::Miss,
            }
        },
        MacEventKind::FlagsChanged { code } => {
            let events = send_modifier_changes(&mut capture.pressed_modifiers, code, event.flags);
            MacStep::Changes(events)
        },
        _ => MacStep::Miss,
    }
}

/// Finishes an event that was taken from this machine while another one is
/// controlled: `event` is the one that was to be sent, if it counts as held, and
/// `sent` whether the transport took it. A miss is borne, and control stays; the
/// pointer is kept in its place.
pub fn finish_macos_event<P>(
    capture: &mut MacCapture<P>,
    event: Option<&InputEvent>,
    sent: bool,
    known: bool,
    drift: Option<(Span, Span)>,
    main_window_visible: bool,
    now: u64,
) -> (step: RepinStep)
    ensures
        ({
            let (kept, cursor) = kept_in_place(
                old(capture)@.cursor,
                known,
                drift,
                main_window_visible,
                now,
            );
            &&& step == kept
            &&& final(capture)@ == (MacView {
                control: match event {
                    Some(event) if sent => control_after_send(old(capture)@.control, event@),
                    _ => old(capture)@.control,
                },
                cursor,
                ..old(capture)@
            })
        }),
        final(capture)@.control.active == old(capture)@.control.active,
        final(capture)@.control.remote_active == old(capture)@.control.remote_active,
{
    let ghost before = capture@;
    if let Some(event) = event {
        if sent {
            note_sent(&mut capture.session, event);
        }
    }
    let step = repin_macos_cursor_while_remote(
        &mut capture.cursor,
        known,
        drift,
        main_window_visible,
        now,
    );
    assert(capture@ =~= (MacView {
        control: capture@.control,
        cursor: capture@.cursor,
        ..before
    }));
    step
}

/// What the start of a movement comes to.
#[derive(Debug, Clone, Copy, PartialEq, Eq, Structural)]
pub enum MoveStart {
    /// No machine is controlled.
    Local,
    /// The movement is the echo of a warp: pin the pointer again if it drifted.
    Suppressed,
    /// The movement undoes the entry by a warp and counts for nothing.
    Ignored,
    /// The pointer of the controlled machine moves.
    Moving { dx: i64, dy: i64 },
}

/// The vertical movement as the controlled machine sees it.
pub open spec fn oriented(active: ActiveTarget, dy: i64) -> int {
    if active.invert_y {
        -dy
    } else {
        dy as int
    }
}

/// Decides whether a movement counts on the controlled machine.
pub fn begin_macos_move<P>(capture: &mut MacCapture<P>, dx: i64, dy: i64) -> (start: MoveStart)
    requires
        dy > i64::MIN,
    ensures
        match old(capture)@.control.active {
            None => start == MoveStart::Local && final(capture)@ == old(capture)@,
            Some(active) => if old(capture)@.suppress_next_delta {
                &&& start == MoveStart::Suppressed
                &&& final(capture)@ == (MacView { suppress_next_delta: false, ..old(capture)@ })
            } else {
                &&& final(capture)@ == (MacView { just_crossed: false, ..old(capture)@ })
                &&& start == if old(capture)@.just_crossed && undoes_entry(
                    active.target.edge,
                    dx,
                    oriented(active, dy) as i64,
                ) {
                    MoveStart::Ignored
                } else {
                    MoveStart::Moving { dx, dy: oriented(active, dy) as i64 }
                }
            },
        },
{
    match &capture.session.active {
        None => MoveStart::Local,
        Some(active) => {
            let dy: i64 = if active.invert_y {
                -dy
            } else {
                dy
            };
            if capture.suppress_next_delta {
                capture.suppress_next_delta = false;
                return MoveStart::Suppressed;
            }
            let just_crossed = capture.just_crossed;
            capture.just_crossed = false;
            if just_crossed && should_ignore_initial_anchor_warp_delta(
                active.target.edge,
                dx,
                dy,
            ) {
                return MoveStart::Ignored;
            }
            MoveStart::Moving { dx, dy }
        },
    }
}

/// What a movement on the controlled machine comes to.
#[derive(Debug, PartialEq, Eq)]
pub enum MacMoveStep<P> {
    /// No machine is controlled.
    Refused,
    /// The pointer moved; it is to be held on its screen and sent.
    Moved(RemoteStep),
    /// Control came back over the shared edge.
    Returned(MacReturn<P>),
}

/// Decides over a movement on the controlled machine. Over the shared edge
/// control comes back, and everything held is released, the park last.
pub fn handle_macos_mouse_move<P>(
    capture: &mut MacCapture<P>,
    motion: RemoteMotion,
    layout: Option<&LayoutState>,
    clipboard: &mut ClipboardBinding,
) -> (step: MacMoveStep<P>)
    ensures
        match old(capture)@.control.active {
            None => {
                &&& step is Refused
                &&& final(capture)@ == old(capture)@
                &&& final(clipboard)@ == old(clipboard)@
            },
            Some(active) => {
                let led_to = motion_step(active, motion, layout_value(layout));
                if led_to == RemoteStep::Return {
                    &&& step matches MacMoveStep::Returned(returned) && gives_back(
                        returned,
                        old(capture)@,
                        active,
                        None,
                    )
                    &&& final(capture)@ == returned_capture(old(capture)@)
                    &&& final(clipboard)@ == cleared_if_bound(
                        old(clipboard)@,
                        active.target.device_id@,
                    )
                } else {
                    &&& step == MacMoveStep::<P>::Moved(led_to)
                    &&& final(capture)@.control.active matches Some(after) && (led_to
                        != RemoteStep::Roam ==> after == active) && final(capture)@ == (MacView {
                        control: ControlView { active: Some(after), ..old(capture)@.control },
                        ..old(capture)@
                    })
                    &&& led_to == RemoteStep::Roam ==> exists|i: int|
                        {
                            &&& #[trigger] roams_to(
                                layout_value(layout)->0,
                                active,
                                motion.global_x,
                                motion.global_y,
                                i,
                            )
                            &&& forall|j: int|
                                0 <= j < i ==> !#[trigger] roams_to(
                                    layout_value(layout)->0,
                                    active,
                                    motion.global_x,
                                    motion.global_y,
                                    j,
                                )
                            &&& moved_on(
                                active,
                                final(capture)@.control.active->0,
                                layout_value(layout)->0,
                                i,
                            )
                        }
                    &&& final(clipboard)@ == old(clipboard)@
                }
            },
        },
{
    let ghost before = capture@;
    let mut active = match capture.session.active.take() {
        Some(active) => active,
        None => {
            assert(capture@ =~= before);
            return MacMoveStep::Refused;
        },
    };
    let led_to = update_active_remote_screen(
        &mut active,
        motion.x,
        motion.y,
        motion.global_x,
        motion.global_y,
        motion.dx,
        motion.dy,
        layout,
    );
    match led_to {
        RemoteStep::Return => {
            let ghost waiting = capture@;
            let returned = end_control(capture, active, None, clipboard);
            proof {
                assert(release_views(waiting.control, active, waiting.modifiers) =~= release_views(
                    before.control,
                    active,
                    before.modifiers,
                ));
                assert(ended_session(waiting.control) =~= ended_session(before.control));
                assert(capture@ =~= returned_capture(before));
            }
            MacMoveStep::Returned(returned)
        },
        other => {
            capture.session.active = Some(active);
            assert(capture@ =~= (MacView {
                control: ControlView { active: Some(active), ..before.control },
                ..before
            }));
            MacMoveStep::Moved(other)
        },
    }
}

/// What keeps the pointer of this machine in its place after a movement on the
/// other one, and the pointer after that.
pub open spec fn followed_move(
    cursor: MacCursor,
    drift: Option<(Span, Span)>,
    main_window_visible: bool,
    now: u64,
) -> (RepinStep, MacCursor) {
    let repinned = repins(cursor, drift, main_window_visible, now);
    let pinned = after_repin(cursor, repinned, now);
    if repinned && !main_window_visible {
        (
            RepinStep { repin: true, set_transparent: reasserts(pinned, true, now) },
            after_reassert(pinned, now),
        )
    } else {
        (RepinStep { repin: repinned, set_transparent: false }, pinned)
    }
}

/// Keeps the pointer of this machine in its place after a movement on the
/// other one.
pub fn follow_macos_move(
    cursor: &mut MacCursor,
    drift: Option<(Span, Span)>,
    main_window_visible: bool,
    now: u64,
) -> (step: RepinStep)
    ensures
        (step, *final(cursor)) == followed_move(*old(cursor), drift, main_window_visible, now),
{
    let repin = repin_macos_cursor_if_drifted(cursor, drift, main_window_visible, now);
    let set_transparent = if repin && !main_window_visible {
        reassert_macos_hidden_window_cursor(cursor, true, now)
    } else {
        false
    };
    RepinStep { repin, set_transparent }
}

/// How a movement on the controlled machine ended.
#[derive(Debug, PartialEq, Eq)]
pub enum MacMoveEnd<P> {
    /// Its position was not sent: give control back, if there was any.
    Returned(Option<MacReturn<P>>),
    /// The pointer of this machine stays in its place.
    Kept(RepinStep),
}

/// Finishes a movement on the controlled machine. A position that was due and
/// was `missed` by the transport gives control back.
pub fn finish_macos_move<P: Copy>(
    capture: &mut MacCapture<P>,
    missed: bool,
    drift: Option<(Span, Span)>,
    main_window_visible: bool,
    now: u64,
    clipboard: &mut ClipboardBinding,
) -> (end: MacMoveEnd<P>)
    ensures
        if missed {
            end matches MacMoveEnd::Returned(returned) && hands_back(
                returned,
                old(capture)@,
                final(capture)@,
                old(clipboard)@,
                final(clipboard)@,
            )
        } else {
            let (step, cursor) = followed_move(
                old(capture)@.cursor,
                drift,
                main_window_visible,
                now,
            );
            &&& end == MacMoveEnd::<P>::Kept(step)
            &&& final(capture)@ == (MacView { cursor, ..old(capture)@ })
            &&& final(clipboard)@ == old(clipboard)@
        },
{
    if missed {
        return MacMoveEnd::Returned(return_to_local_macos(capture, clipboard));
    }
    let ghost before = capture@;
    let step = follow_macos_move(&mut capture.cursor, drift, main_window_visible, now);
    assert(capture@ =~= (MacView { cursor: capture@.cursor, ..before }));
    MacMoveEnd::Kept(step)
}

/// How an entry into another machine ended.
#[derive(Debug, PartialEq, Eq)]
pub enum MacEntry {
    /// The other machine is controlled; these presses follow the opening.
    Entered { presses: Vec<InputEvent>, hide: bool },
    /// Nothing is controlled, and these hides are to be undone.
    Failed { undo_hides: Option<u32> },
}

/// The state after the opening position was not sent.
pub open spec fn failed_entry<P>(capture: MacView<P>) -> MacView<P> {
    MacView {
        control: ControlView { last_move: None, buttons: 0, ..capture.control },
        just_crossed: false,
        cursor: returned_cursor(capture.cursor),
        ..capture
    }
}

/// The state after the opening position was sent.
pub open spec fn entered_capture<P>(
    capture: MacView<P>,
    active: ActiveTarget,
    anchor: P,
) -> MacView<P> {
    MacView {
        control: ControlView {
            active: Some(active),
            remote_active: true,
            last_move: None,
            buttons: 0,
            ..capture.control
        },
        anchor: Some(anchor),
        cursor: MacCursor { last_repin: None, ..capture.cursor },
        ..capture
    }
}

/// Opens a crossing: the pointer is hidden before it is pinned, and the first
/// position is sent. The result also says whether the system is to hide it.
pub fn begin_macos_crossing<P>(
    capture: &mut MacCapture<P>,
    active: &ActiveTarget,
    point: (i32, i32),
) -> (opening: (InputEvent, bool))
    ensures
        opening.0@ == move_view(*active, point, 0, old(capture)@.control.next_sequence),
        opening.1 == !old(capture)@.cursor.hidden,
        final(capture)@ == (MacView {
            control: ControlView {
                next_sequence: following_sequence(old(capture)@.control.next_sequence),
                ..old(capture)@.control
            },
            cursor: hidden_cursor(old(capture)@.cursor),
            ..old(capture)@
        }),
{
    let hide = hide_macos_cursor_if_needed(&mut capture.cursor);
    let event = send_remote_mouse_move(active, point, &mut capture.session.sequences);
    (event, hide)
}

fn presses_of(keys: &Vec<u16>) -> (events: Vec<InputEvent>)
    ensures
        events@ == key_events(keys@, true),
{
    let mut events: Vec<InputEvent> = Vec::new();
    let mut index: usize = 0;
    while index < keys.len()
        invariant
            index <= keys@.len(),
            events@.len() == index,
            forall|i: int|
                0 <= i < index ==> #[trigger] events@[i] == key_events(keys@, true)[i],
        decreases keys@.len() - index,
    {
        events.push(InputEvent::Key { key_code: keys[index], down: true });
        index += 1;
    }
    assert(events@ =~= key_events(keys@, true));
    events
}

/// Takes control of the machine of `active`, whose opening position was sent.
fn take_control<P>(
    capture: &mut MacCapture<P>,
    active: ActiveTarget,
    anchor: P,
    clipboard: &mut ClipboardBinding,
) -> (presses: Vec<InputEvent>)
    ensures
        presses@ == key_events(old(capture)@.modifiers, true),
        final(capture)@ == entered_capture(old(capture)@, active, anchor),
        final(clipboard)@ == bound(old(clipboard)@, control_target(active.target)),
{
    let ghost before = capture@;
    capture.session.last_move = None;
    reset_cursor_repin_timer(&mut capture.cursor);
    capture.session.buttons = 0;
    capture.session.remote_active = true;
    let presses = presses_of(&capture.pressed_modifiers);
    set_control_clipboard_target(clipboard, &active.target);
    capture.session.active = Some(active);
    capture.anchor = Some(anchor);
    assert(capture@ =~= entered_capture(before, active, anchor));
    presses
}

/// Forgets an entry whose opening position was not sent.
fn drop_entry<P>(capture: &mut MacCapture<P>) -> (undo_hides: Option<u32>)
    ensures
        undo_hides == hides_of(old(capture)@.cursor),
        final(capture)@ == failed_entry(old(capture)@),
{
    let ghost before = capture@;
    capture.session.last_move = None;
    capture.session.buttons = 0;
    reset_cursor_repin_timer(&mut capture.cursor);
    let undo_hides = show_macos_cursor_if_needed(&mut capture.cursor);
    capture.just_crossed = false;
    assert(capture@ =~= failed_entry(before));
    undo_hides
}

/// Ends a crossing: with the opening position sent, the held modifiers follow
/// and the clipboard goes along; without it, nothing is entered.
pub fn finish_macos_crossing<P>(
    capture: &mut MacCapture<P>,
    active: ActiveTarget,
    anchor: P,
    sent: bool,
    clipboard: &mut ClipboardBinding,
) -> (entry: MacEntry)
    ensures
        sent ==> {
            &&& entry matches MacEntry::Entered { presses, hide } && presses@ == key_events(
                old(capture)@.modifiers,
                true,
            ) && !hide
            &&& final(capture)@ == (MacView {
                just_crossed: true,
                ..entered_capture(old(capture)@, active, anchor)
            })
            &&& final(clipboard)@ == bound(old(clipboard)@, control_target(active.target))
        },
        !sent ==> {
            &&& entry == (MacEntry::Failed { undo_hides: hides_of(old(capture)@.cursor) })
            &&& final(capture)@ == failed_entry(old(capture)@)
            &&& final(clipboard)@ == old(clipboard)@
        },
{
    if !sent {
        let undo_hides = drop_entry(capture);
        return MacEntry::Failed { undo_hides };
    }
    let presses = take_control(capture, active, anchor, clipboard);
    capture.just_crossed = true;
    MacEntry::Entered { presses, hide: false }
}

/// Ends an entry by hotkey. The pointer is hidden only now, the echo of its
/// warp is suppressed, and its place is remembered for the way back.
pub fn enter_remote_target_macos<P>(
    capture: &mut MacCapture<P>,
    active: ActiveTarget,
    anchor: P,
    return_point: Option<P>,
    sent: bool,
    clipboard: &mut ClipboardBinding,
) -> (entry: MacEntry)
    ensures
        sent ==> {
            &&& entry matches MacEntry::Entered { presses, hide } && presses@ == key_events(
                old(capture)@.modifiers,
                true,
            ) && hide == !old(capture)@.cursor.hidden
            &&& final(capture)@ == (MacView {
                just_crossed: false,
                suppress_next_delta: true,
                hotkey_return_point: return_point,
                ..entered_capture(
                    MacView { cursor: hidden_cursor(old(capture)@.cursor), ..old(capture)@ },
                    active,
                    anchor,
                )
            })
            &&& final(clipboard)@ == bound(old(clipboard)@, control_target(active.target))
        },
        !sent ==> {
            &&& entry == (MacEntry::Failed { undo_hides: hides_of(old(capture)@.cursor) })
            &&& final(capture)@ == (MacView {
                suppress_next_delta: false,
                hotkey_return_point: None,
                ..failed_entry(old(capture)@)
            })
            &&& final(clipboard)@ == old(clipboard)@
        },
{
    if !sent {
        let undo_hides = drop_entry(capture);
        capture.suppress_next_delta = false;
        capture.hotkey_return_point = None;
        return MacEntry::Failed { undo_hides };
    }
    let hide = hide_macos_cursor_if_needed(&mut capture.cursor);
    let presses = take_control(capture, active, anchor, clipboard);
    capture.hotkey_return_point = return_point;
    capture.just_crossed = false;
    capture.suppress_next_delta = true;
    MacEntry::Entered { presses, hide }
}

/// What a turn of the capture loop begins with.
#[derive(Debug, PartialEq, Eq)]
pub enum LoopStep {
    /// The transport failed: give control back.
    Return,
    /// Send the heartbeat with the state of the modifiers; if that fails, give
    /// control back.
    Heartbeat { event: InputEvent, snapshot: u8 },
    /// Look for a switch request.
    Drain,
}

/// Looks after the controlled machine. `point` is where the pointer is there.
pub fn check_macos_control<P>(
    capture: &mut MacCapture<P>,
    transport_failed: bool,
    point: (i32, i32),
    now: u64,
) -> (step: LoopStep)
    ensures
        transport_failed ==> step is Return && final(capture)@ == old(capture)@,
        !transport_failed ==> match old(capture)@.control.active {
            None => step is Drain && final(capture)@ == (MacView {
                control: ControlView { last_heartbeat: None, ..old(capture)@.control },
                ..old(capture)@
            }),
            Some(active) => if heartbeat_due(old(capture)@.control.last_heartbeat, now) {
                &&& step matches LoopStep::Heartbeat { event, snapshot } && snapshot
                    == families_mask(old(capture)@.modifiers) && event@ == move_view(
                    active,
                    point,
                    old(capture)@.control.buttons,
                    old(capture)@.control.next_sequence,
                )
                &&& final(capture)@ == (MacView {
                    control: ControlView {
                        last_heartbeat: Some(now),
                        next_sequence: following_sequence(old(capture)@.control.next_sequence),
                        ..old(capture)@.control
                    },
                    ..old(capture)@
                })
            } else {
                step is Drain && final(capture)@ == old(capture)@
            },
        },
{
    if transport_failed {
        return LoopStep::Return;
    }
    let snapshot: u8 = modifier_mask_for_keys(capture.pressed_modifiers.as_slice());
    match send_remote_input_heartbeat(&mut capture.session, point, now) {
        Some(event) => LoopStep::Heartbeat { event, snapshot },
        None => LoopStep::Drain,
    }
}

/// Whether the tap was disabled since the last look. If it was, releases may
/// have been lost: control is given back and the tap enabled again.
pub fn take_tap_disabled<P>(capture: &mut MacCapture<P>) -> (disabled: bool)
    ensures
        disabled == old(capture)@.tap_disabled,
        final(capture)@ == (MacView { tap_disabled: false, ..old(capture)@ }),
{
    let disabled = capture.tap_disabled;
    capture.tap_disabled = false;
    disabled
}

/// Ends the capture: control is given back, the pointer shown, and nothing
/// belongs to another machine any more.
pub fn stop_macos_capture<P: Copy>(
    capture: &mut MacCapture<P>,
    clipboard: &mut ClipboardBinding,
) -> (stopped: (Option<MacReturn<P>>, Option<u32>))
    ensures
        final(capture)@.control.active is None,
        !final(capture)@.control.remote_active,
        !final(capture)@.cursor.hidden,
        match old(capture)@.control.active {
            Some(active) => {
                &&& stopped.0 matches Some(returned) && gives_back(
                    returned,
                    old(capture)@,
                    active,
                    old(capture)@.hotkey_return_point,
                )
                &&& stopped.1 is None
                &&& final(capture)@ == (MacView {
                    hotkey_return_point: None,
                    ..returned_capture(old(capture)@)
                })
                &&& final(clipboard)@ == cleared(
                    cleared_if_bound(old(clipboard)@, active.target.device_id@),
                )
            },
            None => {
                &&& stopped.0 is None
                &&& stopped.1 == hides_of(old(capture)@.cursor)
                &&& final(capture)@ == (MacView {
                    control: ControlView { remote_active: false, ..old(capture)@.control },
                    cursor: shown_cursor(old(capture)@.cursor),
                    ..old(capture)@
                })
                &&& final(clipboard)@ == cleared(old(clipboard)@)
            },
        },
{
    let returned = return_to_local_macos(capture, clipboard);
    let undo_hides = show_macos_cursor_if_needed(&mut capture.cursor);
    capture.session.remote_active = false;
    clear_clipboard_target(clipboard);
    (returned, undo_hides)
}

/// What a raw gesture event comes to.
#[derive(Debug, Clone, Copy, PartialEq, Eq, Structural)]
pub enum GestureStep {
    Pass,
    Swallow,
    /// Pin the pointer again and swallow the event.
    RepinAndSwallow,
}

/// Decides over a raw gesture event: while another machine is controlled, no
/// gesture reaches this one.
pub fn macos_raw_gesture_event_callback<P>(
    capture: &mut MacCapture<P>,
    call: TapCall,
    event_type: u32,
) -> (step: GestureStep)
    ensures
        ({
            let disabled = event_type == MACOS_RAW_EVENT_TAP_DISABLED_BY_TIMEOUT || event_type
                == MACOS_RAW_EVENT_TAP_DISABLED_BY_USER_INPUT;
            &&& step == if disabled || call.stopping || !old(capture)@.control.remote_active {
                GestureStep::Pass
            } else if call.gate_busy {
                GestureStep::Swallow
            } else {
                GestureStep::RepinAndSwallow
            }
            &&& final(capture)@ == if disabled {
                MacView { tap_disabled: true, ..old(capture)@ }
            } else {
                old(capture)@
            }
        }),
{
    if event_type == MACOS_RAW_EVENT_TAP_DISABLED_BY_TIMEOUT || event_type
        == MACOS_RAW_EVENT_TAP_DISABLED_BY_USER_INPUT {
        capture.tap_disabled = true;
        return GestureStep::Pass;
    }
    if call.stopping || !capture.session.remote_active {
        return GestureStep::Pass;
    }
    if call.gate_busy {
        GestureStep::Swallow
    } else {
        GestureStep::RepinAndSwallow
    }
}

/// Giving control back leaves nothing of it behind: no machine is controlled,
/// nothing is held there, and the pointer is shown by as many shows as there
/// were hides.
pub proof fn law_return_leaves_nothing_behind<P>(capture: MacView<P>)
    requires
        capture.cursor.well_formed(),
    ensures
        ({
            let after = returned_capture(capture);
            &&& after.control.active is None
            &&& !after.control.remote_active
            &&& after.control.forwarded_keys.len() == 0
            &&& after.control.buttons == 0
            &&& after.anchor is None
            &&& !after.cursor.hidden
            &&& after.cursor.well_formed()
            &&& hides_of(capture.cursor) == if capture.cursor.hidden {
                Some(1u32)
            } else {
                None
            }
        }),
{
}

/// A crossing and the way back leave the pointer as it was before.
pub proof fn law_crossing_and_return_restore_the_pointer<P>(
    capture: MacView<P>,
    active: ActiveTarget,
    anchor: P,
)
    requires
        capture.cursor.well_formed(),
        !capture.cursor.hidden,
    ensures
        ({
            let opened = MacView { cursor: hidden_cursor(capture.cursor), ..capture };
            let entered = entered_capture(opened, active, anchor);
            let back = returned_capture(entered);
            &&& entered.cursor.hidden
            &&& entered.cursor.well_formed()
            &&& hides_of(entered.cursor) == Some(1u32)
            &&& back.cursor == (MacCursor {
                last_reassert: None,
                last_repin: None,
                ..capture.cursor
            })
        }),
{
}

/// The flags of an event show shift, control, option and command, in that order,
/// each under the generic key of its modifier.
pub proof fn law_flags_name_their_modifiers(flags: u64, key: u16)
    ensures
        keys_of_flags(flags).contains(key) <==> {
            ||| key == 0x10 && flags & 0x2_0000 == 0x2_0000
            ||| key == 0x11 && flags & 0x4_0000 == 0x4_0000
            ||| key == 0x12 && flags & 0x8_0000 == 0x8_0000
            ||| key == 0x5B && flags & 0x10_0000 == 0x10_0000
        },
        keys_of_flags(flags).no_duplicates(),
        flag_modifiers(flags).shift <==> flags & 0x2_0000 == 0x2_0000,
        flag_modifiers(flags).ctrl <==> flags & 0x4_0000 == 0x4_0000,
        flag_modifiers(flags).alt <==> flags & 0x8_0000 == 0x8_0000,
        flag_modifiers(flags).meta <==> flags & 0x10_0000 == 0x10_0000,
{
    let shift = key_of_flag(flags, MAC_SHIFT_FLAG, 0x10);
    let control = key_of_flag(flags, MAC_CONTROL_FLAG, 0x11);
    let alternate = key_of_flag(flags, MAC_ALTERNATE_FLAG, 0x12);
    let command = key_of_flag(flags, MAC_COMMAND_FLAG, 0x5B);
    let keys = keys_of_flags(flags);
    assert(keys == shift + control + alternate + command);
    if shift.len() > 0 {
        assert(keys[0] == 0x10);
    }
    if control.len() > 0 {
        assert(keys[shift.len() as int] == 0x11);
    }
    if alternate.len() > 0 {
        assert(keys[(shift + control).len() as int] == 0x12);
    }
    if command.len() > 0 {
        assert(keys[(shift + control + alternate).len() as int] == 0x5B);
    }
}

/// The modifier mask that goes along with an event has the lowest bit for shift,
/// the next for control, then option and command.
pub proof fn law_sent_masks_show_the_flags(flags: u64)
    ensures
        ({
            let mask = families_mask(keys_of_flags(flags));
            &&& mask & 1 != 0 <==> flags & 0x2_0000 == 0x2_0000
            &&& mask & 2 != 0 <==> flags & 0x4_0000 == 0x4_0000
            &&& mask & 4 != 0 <==> flags & 0x8_0000 == 0x8_0000
            &&& mask & 8 != 0 <==> flags & 0x10_0000 == 0x10_0000
            &&& mask < 16
        }),
{
    lemma_mask_of_flag(flags, 1, 0x10);
    lemma_mask_of_flag(flags, 2, 0x11);
    lemma_mask_of_flag(flags, 4, 0x12);
    lemma_mask_of_flag(flags, 8, 0x5B);
}

proof fn lemma_mask_of_flag(flags: u64, family: u8, key: u16)
    requires
        (family == 1 && key == 0x10) || (family == 2 && key == 0x11) || (family == 4 && key == 0x12)
            || (family == 8 && key == 0x5B),
    ensures
        families_mask(keys_of_flags(flags)) & family != 0 <==> keys_of_flags(flags).contains(key),
        keys_of_flags(flags).contains(key) <==> {
            ||| key == 0x10 && flags & 0x2_0000 == 0x2_0000
            ||| key == 0x11 && flags & 0x4_0000 == 0x4_0000
            ||| key == 0x12 && flags & 0x8_0000 == 0x8_0000
            ||| key == 0x5B && flags & 0x10_0000 == 0x10_0000
        },
        families_mask(keys_of_flags(flags)) < 16,
{
    let keys = keys_of_flags(flags);
    crate::shared_input::law_masks_show_the_held_families(keys, family);
    law_flags_name_their_modifiers(flags, key);
    if exists|i: int|
        0 <= i < keys.len() && crate::shared_input::modifier_family(#[trigger] keys[i]) == Some(
            family,
        ) {
        let i = choose|i: int|
            0 <= i < keys.len() && crate::shared_input::modifier_family(#[trigger] keys[i]) == Some(
                family,
            );
        law_flags_name_their_modifiers(flags, keys[i]);
        crate::shared_input::law_modifier_keys_have_their_family(keys[i]);
        assert(keys.contains(keys[i]));
    }
    if keys.contains(key) {
        let i = choose|i: int| 0 <= i < keys.len() && keys[i] == key;
        crate::shared_input::law_modifier_keys_have_their_family(keys[i]);
    }
}

/// While another machine is controlled, what happens at this one is sent as it
/// happened: a scroll as far across and down, a button with its direction at the
/// remote pointer, a key under its virtual key. All carry the next number, and
/// the modifiers that the event showed.
pub proof fn law_captured_events_are_sent_as_they_happened<P>(
    step: MacStep<P>,
    before: MacView<P>,
    after: MacView<P>,
    active: ActiveTarget,
    event: MacEvent,
    layout: Option<LayoutState>,
    point: (i32, i32),
)
    requires
        remote_event_step(step, before, after, active, event, layout, point),
    ensures
        event.kind matches MacEventKind::Scroll { delta_x, delta_y } ==> (step matches
            MacStep::Send { event: sent, .. } && (sent matches InputEvent::Scroll {
            delta_x: sent_x,
            delta_y: sent_y,
            sequence,
        } && sent_x == delta_x && sent_y == delta_y && sequence == before.control.next_sequence)),
        event.kind matches MacEventKind::Button { button, down } ==> (step matches MacStep::Send {
            event: sent,
            ..
        } && (sent matches InputEvent::MouseButton {
            button: sent_button,
            down: sent_down,
            screen_id,
            x,
            y,
            sequence,
        } && sent_button == button && sent_down == down && screen_id@ == active.current_screen_id@
            && x == Some(point.0) && y == Some(point.1) && sequence
            == before.control.next_sequence)),
        event.kind matches MacEventKind::Key { code, down } ==> !(down && is_mac_switch_key(
            layout,
            code,
            event.flags,
        )) ==> match mac_vk(code) {
            Some(vk) => step matches MacStep::Send { event: sent, .. } && sent == (
            InputEvent::Key { key_code: vk, down }),
            None => step is Miss,
        },
        event.kind matches MacEventKind::Key { code, down } ==> down && is_mac_switch_key(
            layout,
            code,
            event.flags,
        ) ==> step is Return && after.control.active is None,
        step matches MacStep::Send { snapshot, .. } ==> (snapshot & 1 != 0 <==> event.flags
            & 0x2_0000 == 0x2_0000) && (snapshot & 2 != 0 <==> event.flags & 0x4_0000 == 0x4_0000)
            && (snapshot & 4 != 0 <==> event.flags & 0x8_0000 == 0x8_0000) && (snapshot & 8 != 0
            <==> event.flags & 0x10_0000 == 0x10_0000),
        event.kind matches MacEventKind::FlagsChanged { code } ==> code == 57 ==> (step matches
            MacStep::Changes(events) && events@.len() == 2 && events@[0] == (InputEvent::Key {
            key_code: 0x14,
            down: true,
        }) && events@[1] == (InputEvent::Key { key_code: 0x14, down: false })),
{
    law_sent_masks_show_the_flags(event.flags);
}

/// A key switches screens only on the controlling machine, and by one of its
/// hotkeys with exactly the modifiers that the event shows.
pub proof fn law_switch_keys_are_hotkeys(layout: LayoutState, code: u16, flags: u64)
    ensures
        is_mac_switch_key(Some(layout), code, flags) <==> layout.machine_role@ == "server"@ && (
        mac_vk(code) matches Some(vk) && is_switch_hotkey(
            layout.screen_switch_hotkeys,
            vk,
            HotkeyModifiers {
                ctrl: flags & 0x4_0000 == 0x4_0000,
                alt: flags & 0x8_0000 == 0x8_0000,
                shift: flags & 0x2_0000 == 0x2_0000,
                meta: flags & 0x10_0000 == 0x10_0000,
            },
        )),
        !is_mac_switch_key(None, code, flags),
{
}

/// The events of the library's own injection, and those that arrive while
/// control is being released or capture stops, are not looked at.
pub proof fn law_own_events_are_not_looked_at(event: MacEvent, call: TapCall)
    ensures
        event.user_data == 0x4D_594B_564D ==> !is_examined(event, call),
        call.gate_busy || call.stopping ==> !is_examined(event, call),
        event.kind == MacEventKind::TapDisabled ==> !is_examined(event, call),
        event.user_data != 0x4D_594B_564D && !call.gate_busy && !call.stopping && event.kind
            != MacEventKind::TapDisabled ==> is_examined(event, call),
{
}

/// Up is down on a machine whose vertical axis is turned over, and nowhere else.
pub proof fn law_vertical_movement_is_oriented(active: ActiveTarget, dy: i64)
    ensures
        active.invert_y ==> oriented(active, dy) + dy == 0,
        !active.invert_y ==> oriented(active, dy) == dy,
{
}

/// Control that was entered is that of the entered machine, with no button held
/// and a position to be sent at once; an entry that failed leaves none.
pub proof fn law_entries_begin_afresh<P>(capture: MacView<P>, active: ActiveTarget, anchor: P)
    ensures
        ({
            let entered = entered_capture(capture, active, anchor);
            let failed = failed_entry(capture);
            &&& entered.control.active == Some(active)
            &&& entered.control.remote_active
            &&& entered.control.buttons == 0
            &&& entered.control.last_move is None
            &&& entered.anchor == Some(anchor)
            &&& entered.modifiers == capture.modifiers
            &&& entered.control.forwarded_keys == capture.control.forwarded_keys
            &&& entered.control.next_sequence == capture.control.next_sequence
            &&& failed.control.active == capture.control.active
            &&& failed.control.buttons == 0
            &&& !failed.just_crossed
            &&& !failed.cursor.hidden
            &&& failed.anchor == capture.anchor
        }),
{
}

/// The raw tap watches the gestures of the trackpad and of the system.
pub proof fn law_gestures_are_watched(event_type: u32)
    ensures
        gesture_types().contains(event_type) <==> event_type == MACOS_NSEVENT_TYPE_SYSTEM_DEFINED
            || event_type == MACOS_NSEVENT_TYPE_ROTATE || event_type
            == MACOS_NSEVENT_TYPE_BEGIN_GESTURE || event_type == MACOS_NSEVENT_TYPE_END_GESTURE
            || event_type == MACOS_NSEVENT_TYPE_GESTURE || event_type
            == MACOS_NSEVENT_TYPE_MAGNIFY || event_type == MACOS_NSEVENT_TYPE_SWIPE || event_type
            == MACOS_NSEVENT_TYPE_SMART_MAGNIFY || event_type == MACOS_NSEVENT_TYPE_QUICK_LOOK
            || event_type == MACOS_NSEVENT_TYPE_PRESSURE || event_type
            == MACOS_NSEVENT_TYPE_DIRECT_TOUCH || event_type == MACOS_NSEVENT_TYPE_CHANGE_MODE,
{
    let types = gesture_types();
    assert(types[0] == 14 && types[1] == 18 && types[2] == 19 && types[3] == 20 && types[4] == 29
        && types[5] == 30 && types[6] == 31 && types[7] == 32 && types[8] == 33 && types[9] == 34
        && types[10] == 37 && types[11] == 38);
}

/// Giving control back ends what a crossing began: nothing is suppressed, and
/// the modifiers that the keyboard shows stay known.
pub proof fn law_return_ends_the_crossing<P>(capture: MacView<P>)
    ensures
        ({
            let after = returned_capture(capture);
            &&& !after.suppress_next_delta
            &&& !after.just_crossed
            &&& after.modifiers == capture.modifiers
            &&& after.hotkey_return_point == capture.hotkey_return_point
            &&& after.tap_disabled == capture.tap_disabled
            &&& after.cursor.last_repin is None
        }),
{
}

/// After a movement the pointer is pinned by the policy; out of sight it is then
/// painted clear again, in sight it is not.
pub proof fn law_followed_moves_keep_the_pointer(
    cursor: MacCursor,
    drift: Option<(Span, Span)>,
    main_window_visible: bool,
    now: u64,
)
    ensures
        ({
            let (step, after) = followed_move(cursor, drift, main_window_visible, now);
            let repinned = repins(cursor, drift, main_window_visible, now);
            &&& step.repin == repinned
            &&& step.set_transparent <==> repinned && !main_window_visible && cursor.hidden
            &&& repinned ==> after.last_repin == Some(now)
            &&& !repinned ==> after == cursor
            &&& after.hidden == cursor.hidden && after.depth == cursor.depth
        }),
{
}

/// The return of control is that of the machine that was controlled: every key
/// and modifier that was held there goes up, every held button does, and the
/// park comes last. The pointer goes back to the recorded point.
pub proof fn law_returns_release_what_was_held<P>(
    returned: MacReturn<P>,
    capture: MacView<P>,
    active: ActiveTarget,
    recorded_point: Option<P>,
    key_code: u16,
    button: MouseButton,
)
    requires
        gives_back(returned, capture, active, recorded_point),
    ensures
        returned.active == active,
        returned.recorded_point == recorded_point,
        returned.undo_hides is Some <==> capture.cursor.hidden,
        returned.undo_hides matches Some(hides) ==> hides == capture.cursor.depth,
        returned.events@.len() > 0,
        returned.events@.last() is CursorPark,
        capture.control.forwarded_keys.contains(key_code) || capture.modifiers.contains(key_code)
            ==> event_views(returned.events@).contains(
            (EventView::Key { key_code, down: false }),
        ),
        capture.control.buttons & crate::shared_input::button_bit(button) != 0 ==> exists|i: int|
            0 <= i < event_views(returned.events@).len() && crate::control::releases_button(
                #[trigger] event_views(returned.events@)[i],
                button,
            ),
{
    let views = event_views(returned.events@);
    let released = release_views(capture.control, active, capture.modifiers);
    assert(views == released);
    crate::control::law_release_leaves_nothing_held(
        capture.control,
        active,
        capture.modifiers,
        key_code,
        button,
    );
    assert(views.last() == returned.events@.last()@);
}

/// Control that was handed back is nobody's any more, and the clipboard is not
/// bound to the machine that was controlled. Where nothing was controlled
/// nothing changes.
pub proof fn law_handed_back_control_is_gone<P>(
    returned: Option<MacReturn<P>>,
    before: MacView<P>,
    after: MacView<P>,
    clipboard: BindingView,
    clipboard_after: BindingView,
)
    requires
        hands_back(returned, before, after, clipboard, clipboard_after),
    ensures
        before.control.active is None ==> returned is None && after == before && clipboard_after
            == clipboard,
        before.control.active matches Some(active) ==> {
            &&& returned matches Some(returned) && returned.active == active
                && returned.recorded_point == before.hotkey_return_point
            &&& after.control.active is None
            &&& !after.control.remote_active
            &&& after.hotkey_return_point is None
            &&& !(clipboard_after.target matches Some(target) && target.device_id
                == active.target.device_id@)
            &&& !(clipboard.target matches Some(target) && target.device_id
                == active.target.device_id@) ==> clipboard_after == clipboard
        },
{
}

} // verus!
