//! Injection on macOS: click counts, held keys and their event flags, and the
//! connection that key events are posted over.

use vstd::prelude::*;

use crate::control::{holds_key, keys_after, remove_key};
use crate::injected_keys::{
    find_released_key, injected_after, injected_after_all, law_snapshot_repair_converges, normalize_injected_modifier_vk, released_key, sided_key,
    well_tracked,
};
use crate::keymap::{law_modifiers_have_key_codes, mac_code, windows_vk_to_mac_key};
use crate::shared_input::{
    holds_family, modifier_family, modifier_mask_for_key, modifier_snapshot_transitions,
    snapshot_transitions, stale_releases, MouseButton, ALT_MODIFIER_MASK, CONTROL_MODIFIER_MASK,
    META_MODIFIER_MASK, SHIFT_MODIFIER_MASK,
};

verus! {

/// How far apart two points of one click may be.
pub const MAX_CLICK_DISTANCE: i32 = 8;

/// The virtual key of Caps Lock.
pub const VK_CAPITAL: u16 = 0x14;

/// How long a lost connection is left alone.
pub const MACOS_IOHID_RETRY_BACKOFF: u64 = 1_000_000_000;

/// Event flags of the modifiers.
pub const MAC_SHIFT_FLAG: u64 = 0x2_0000;

pub const MAC_CONTROL_FLAG: u64 = 0x4_0000;

pub const MAC_ALTERNATE_FLAG: u64 = 0x8_0000;

pub const MAC_COMMAND_FLAG: u64 = 0x10_0000;

/// A press of a mouse button, as a step of a multi-click.
#[derive(Debug, Clone, Copy, PartialEq, Eq, Structural)]
pub struct MacClickDown {
    pub button: MouseButton,
    pub x: i32,
    pub y: i32,
    pub at: u64,
    pub count: u8,
}

/// The last press, and the press that each held button started with.
#[derive(Debug, Clone, Copy, PartialEq, Eq, Structural)]
pub struct MacClickTracker {
    pub last_down: Option<MacClickDown>,
    pub left: Option<MacClickDown>,
    pub right: Option<MacClickDown>,
    pub middle: Option<MacClickDown>,
}

/// Whether two points lie within `max_distance` of each other.
pub open spec fn points_are_near(x1: i32, y1: i32, x2: i32, y2: i32, max_distance: i32) -> bool {
    (x1 - x2) * (x1 - x2) + (y1 - y2) * (y1 - y2) <= max_distance * max_distance
}

pub fn click_points_are_near(x1: i32, y1: i32, x2: i32, y2: i32, max_distance: i32) -> (near: bool)
    ensures
        near == points_are_near(x1, y1, x2, y2, max_distance),
{
    let dx: i128 = x1 as i128 - x2 as i128;
    let dy: i128 = y1 as i128 - y2 as i128;
    let max: i128 = max_distance as i128;
    assert(-0x1_0000_0000_0000_0000 <= dx * dx <= 0x1_0000_0000_0000_0000) by (nonlinear_arith)
        requires
            -0x1_0000_0000 <= dx <= 0x1_0000_0000,
    ;
    assert(-0x1_0000_0000_0000_0000 <= dy * dy <= 0x1_0000_0000_0000_0000) by (nonlinear_arith)
        requires
            -0x1_0000_0000 <= dy <= 0x1_0000_0000,
    ;
    assert(0 <= max * max <= 0x1_0000_0000_0000_0000) by (nonlinear_arith)
        requires
            -0x1_0000_0000 <= max <= 0x1_0000_0000,
    ;
    dx * dx + dy * dy <= max * max
}

/// The press that `button` is held from.
pub open spec fn held_click(tracker: MacClickTracker, button: MouseButton) -> Option<MacClickDown> {
    match button {
        MouseButton::Left => tracker.left,
        MouseButton::Right => tracker.right,
        MouseButton::Middle => tracker.middle,
    }
}

/// The tracker with another press for `button`.
pub open spec fn with_held_click(
    tracker: MacClickTracker,
    button: MouseButton,
    click: Option<MacClickDown>,
) -> MacClickTracker {
    match button {
        MouseButton::Left => MacClickTracker { left: click, ..tracker },
        MouseButton::Right => MacClickTracker { right: click, ..tracker },
        MouseButton::Middle => MacClickTracker { middle: click, ..tracker },
    }
}

/// Whether a press continues the multi-click of the last one: the same button,
/// soon enough, close enough.
pub open spec fn continues_click(
    last: Option<MacClickDown>,
    button: MouseButton,
    x: i32,
    y: i32,
    now: u64,
    interval: u64,
) -> bool {
    match last {
        Some(last) => last.button == button && now - last.at <= interval && points_are_near(
            last.x,
            last.y,
            x,
            y,
            MAX_CLICK_DISTANCE,
        ),
        None => false,
    }
}

/// The place of a press in its multi-click, at most the third.
pub open spec fn press_count(
    last: Option<MacClickDown>,
    button: MouseButton,
    x: i32,
    y: i32,
    now: u64,
    interval: u64,
) -> u8 {
    if continues_click(last, button, x, y, now, interval) {
        if last->Some_0.count >= 2 {
            3
        } else {
            (last->Some_0.count + 1) as u8
        }
    } else {
        1
    }
}

impl Default for MacClickTracker {
    fn default() -> (tracker: Self)
        ensures
            tracker == (MacClickTracker {
                last_down: None,
                left: None,
                right: None,
                middle: None,
            }),
    {
        MacClickTracker { last_down: None, left: None, right: None, middle: None }
    }
}

/// The tracker after a press or a release, and how many clicks it counts. A
/// release far from its press counts none, and ends the multi-click.
pub open spec fn counted_click(
    tracker: MacClickTracker,
    button: MouseButton,
    down: bool,
    x: i32,
    y: i32,
    now: u64,
    double_click_interval: u64,
) -> (MacClickTracker, i64) {
    if down {
        let click = MacClickDown {
            button,
            x,
            y,
            at: now,
            count: press_count(tracker.last_down, button, x, y, now, double_click_interval),
        };
        (
            with_held_click(
                MacClickTracker { last_down: Some(click), ..tracker },
                button,
                Some(click),
            ),
            click.count as i64,
        )
    } else {
        match held_click(tracker, button) {
            Some(click) => if points_are_near(click.x, click.y, x, y, MAX_CLICK_DISTANCE) {
                (with_held_click(tracker, button, None), click.count as i64)
            } else {
                (
                    with_held_click(
                        MacClickTracker { last_down: None, ..tracker },
                        button,
                        None,
                    ),
                    0,
                )
            },
            None => (tracker, 0),
        }
    }
}

impl MacClickTracker {
    /// The click count of an event. A press starts or continues a multi-click.
    /// A release carries the count of its press; one that ends a drag counts as
    /// no click and ends the multi-click.
    pub fn event_count(
        &mut self,
        button: MouseButton,
        down: bool,
        x: i32,
        y: i32,
        now: u64,
        double_click_interval: u64,
    ) -> (count: i64)
        ensures
            (*final(self), count) == counted_click(
                *old(self),
                button,
                down,
                x,
                y,
                now,
                double_click_interval,
            ),
    {
        if down {
            let mut count: u8 = 1;
            if let Some(last) = self.last_down {
                let soon = now < last.at || now - last.at <= double_click_interval;
                if last.button == button && soon && click_points_are_near(
                    last.x,
                    last.y,
                    x,
                    y,
                    MAX_CLICK_DISTANCE,
                ) {
                    count = if last.count >= 2 {
                        3
                    } else {
                        last.count + 1
                    };
                }
            }
            let click = MacClickDown { button, x, y, at: now, count };
            self.last_down = Some(click);
            match button {
                MouseButton::Left => {
                    self.left = Some(click);
                },
                MouseButton::Right => {
                    self.right = Some(click);
                },
                MouseButton::Middle => {
                    self.middle = Some(click);
                },
            }
            return count as i64;
        }
        let held = match button {
            MouseButton::Left => {
                let held = self.left;
                self.left = None;
                held
            },
            MouseButton::Right => {
                let held = self.right;
                self.right = None;
                held
            },
            MouseButton::Middle => {
                let held = self.middle;
                self.middle = None;
                held
            },
        };
        match held {
            Some(click) => {
                if click_points_are_near(click.x, click.y, x, y, MAX_CLICK_DISTANCE) {
                    click.count as i64
                } else {
                    self.last_down = None;
                    0
                }
            },
            None => 0,
        }
    }
}

/// The event flag of a modifier.
pub open spec fn mac_flag(vk: u16) -> Option<u64> {
    match modifier_family(vk) {
        Some(family) => if family == SHIFT_MODIFIER_MASK {
            Some(MAC_SHIFT_FLAG)
        } else if family == CONTROL_MODIFIER_MASK {
            Some(MAC_CONTROL_FLAG)
        } else if family == ALT_MODIFIER_MASK {
            Some(MAC_ALTERNATE_FLAG)
        } else {
            Some(MAC_COMMAND_FLAG)
        },
        None => None,
    }
}

/// The mouse events of the platform.
#[derive(Debug, Clone, Copy, PartialEq, Eq, Structural)]
pub enum MacMouseEvent {
    Moved,
    Dragged,
    Down,
    Up,
}

/// A mouse event to post: what happened to which button, and, for a button, how
/// many clicks it counts. A movement without a button names the left one.
#[derive(Debug, Clone, Copy, PartialEq, Eq, Structural)]
pub struct MacMousePlan {
    pub event: MacMouseEvent,
    pub button: MouseButton,
    pub click_count: Option<i64>,
}

/// The event that a movement is posted as.
pub fn inject_mouse_move(drag_button: Option<MouseButton>) -> (plan: MacMousePlan)
    ensures
        plan == (match drag_button {
            Some(button) => MacMousePlan {
                event: MacMouseEvent::Dragged,
                button,
                click_count: None,
            },
            None => MacMousePlan {
                event: MacMouseEvent::Moved,
                button: MouseButton::Left,
                click_count: None,
            },
        }),
{
    match drag_button {
        Some(button) => MacMousePlan { event: MacMouseEvent::Dragged, button, click_count: None },
        None => MacMousePlan {
            event: MacMouseEvent::Moved,
            button: MouseButton::Left,
            click_count: None,
        },
    }
}

/// The event that a button is posted as, with the clicks that the tracker
/// counts for it.
pub fn inject_mouse_button(
    tracker: &mut MacClickTracker,
    button: MouseButton,
    down: bool,
    x: i32,
    y: i32,
    now: u64,
    double_click_interval: u64,
) -> (plan: MacMousePlan)
    ensures
        ({
            let counted = counted_click(
                *old(tracker),
                button,
                down,
                x,
                y,
                now,
                double_click_interval,
            );
            &&& *final(tracker) == counted.0
            &&& plan == (MacMousePlan {
                event: if down {
                    MacMouseEvent::Down
                } else {
                    MacMouseEvent::Up
                },
                button,
                click_count: Some(counted.1),
            })
        }),
{
    let count: i64 = tracker.event_count(button, down, x, y, now, double_click_interval);
    MacMousePlan {
        event: if down {
            MacMouseEvent::Down
        } else {
            MacMouseEvent::Up
        },
        button,
        click_count: Some(count),
    }
}

pub fn windows_vk_to_mac_flag(vk: u16) -> (flag: Option<u64>)
    ensures
        flag == mac_flag(vk),
{
    match vk {
        0x10 | 0xA0 | 0xA1 => Some(MAC_SHIFT_FLAG),
        0x11 | 0xA2 | 0xA3 => Some(MAC_CONTROL_FLAG),
        0x12 | 0xA4 | 0xA5 => Some(MAC_ALTERNATE_FLAG),
        0x5B | 0x5C => Some(MAC_COMMAND_FLAG),
        _ => None,
    }
}

/// The flag that tells the sides of a modifier apart. A generic modifier counts
/// as its left variant.
pub open spec fn mac_device_flag(vk: u16) -> Option<u32> {
    let key = sided_key(vk);
    if key == 0xA0 {
        Some(0x2)
    } else if key == 0xA1 {
        Some(0x4)
    } else if key == 0xA2 {
        Some(0x1)
    } else if key == 0xA3 {
        Some(0x2000)
    } else if key == 0xA4 {
        Some(0x20)
    } else if key == 0xA5 {
        Some(0x40)
    } else if key == 0x5B {
        Some(0x8)
    } else if key == 0x5C {
        Some(0x10)
    } else {
        None
    }
}

pub fn windows_vk_to_mac_device_flag(vk: u16) -> (flag: Option<u32>)
    ensures
        flag == mac_device_flag(vk),
{
    match vk {
        0x10 | 0xA0 => Some(0x0000_0002),
        0xA1 => Some(0x0000_0004),
        0x11 | 0xA2 => Some(0x0000_0001),
        0xA3 => Some(0x0000_2000),
        0x12 | 0xA4 => Some(0x0000_0020),
        0xA5 => Some(0x0000_0040),
        0x5B => Some(0x0000_0008),
        0x5C => Some(0x0000_0010),
        _ => None,
    }
}

/// The event flags of the held keys together.
pub open spec fn held_flags(keys: Seq<u16>) -> u64
    decreases keys.len(),
{
    if keys.len() == 0 {
        0
    } else {
        match mac_flag(keys.last()) {
            Some(flag) => held_flags(keys.drop_last()) | flag,
            None => held_flags(keys.drop_last()),
        }
    }
}

/// The side flags of the held keys together.
pub open spec fn held_device_flags(keys: Seq<u16>) -> u32
    decreases keys.len(),
{
    if keys.len() == 0 {
        0
    } else {
        match mac_device_flag(keys.last()) {
            Some(flag) => held_device_flags(keys.drop_last()) | flag,
            None => held_device_flags(keys.drop_last()),
        }
    }
}

/// What a key transition means for the event that reports it.
#[derive(Debug, Clone, Copy, PartialEq, Eq, Structural)]
pub struct MacInjectedKeyTransition {
    pub tracked_flags: u64,
    pub device_flags: u32,
    pub should_post: bool,
}

/// The keys that were injected as held.
#[derive(Debug)]
pub struct MacInjectedKeyState {
    pub pressed_keys: Vec<u16>,
}

impl View for MacInjectedKeyState {
    type V = Seq<u16>;

    open spec fn view(&self) -> Seq<u16> {
        self.pressed_keys@
    }
}

/// The key that a transition is recorded under.
pub open spec fn recorded_key(keys: Seq<u16>, key_code: u16, down: bool, is_modifier: bool) -> u16 {
    if !is_modifier {
        key_code
    } else if down {
        sided_key(key_code)
    } else {
        released_key(keys, sided_key(key_code))
    }
}

impl Default for MacInjectedKeyState {
    fn default() -> (state: Self)
        ensures
            state@ == Seq::<u16>::empty(),
    {
        MacInjectedKeyState { pressed_keys: Vec::new() }
    }
}

impl MacInjectedKeyState {
    /// Records a key transition. Only a repeated press of a modifier need not
    /// be posted: a repeated press of another key is native key repeat, and a
    /// release repairs a key that the system still holds.
    pub fn transition(&mut self, key_code: u16, down: bool, is_modifier: bool) -> (transition:
        MacInjectedKeyTransition)
        ensures
            ({
                let key = recorded_key(old(self)@, key_code, down, is_modifier);
                &&& final(self)@ == keys_after(old(self)@, key, down)
                &&& transition == (MacInjectedKeyTransition {
                    tracked_flags: held_flags(final(self)@),
                    device_flags: held_device_flags(final(self)@),
                    should_post: !(is_modifier && down && old(self)@.contains(key)),
                })
            }),
    {
        let mut key: u16 = key_code;
        if is_modifier {
            key = normalize_injected_modifier_vk(key_code);
            if !down {
                key = find_released_key(&self.pressed_keys, key);
            }
        }
        let already_pressed = holds_key(&self.pressed_keys, key);
        if down {
            if !already_pressed {
                self.pressed_keys.push(key);
            }
        } else {
            remove_key(&mut self.pressed_keys, key);
        }
        let mut tracked_flags: u64 = 0;
        let mut device_flags: u32 = 0;
        let mut index: usize = 0;
        assert(self.pressed_keys@.take(0) =~= Seq::<u16>::empty());
        while index < self.pressed_keys.len()
            invariant
                index <= self.pressed_keys@.len(),
                self.pressed_keys@ == keys_after(old(self)@, key, down),
                tracked_flags == held_flags(self.pressed_keys@.take(index as int)),
                device_flags == held_device_flags(self.pressed_keys@.take(index as int)),
            decreases self.pressed_keys@.len() - index,
        {
            let held: u16 = self.pressed_keys[index];
            proof {
                assert(self.pressed_keys@.take(index + 1).drop_last() =~= self.pressed_keys@.take(
                    index as int,
                ));
            }
            if let Some(flag) = windows_vk_to_mac_flag(held) {
                tracked_flags = tracked_flags | flag;
            }
            if let Some(flag) = windows_vk_to_mac_device_flag(held) {
                device_flags = device_flags | flag;
            }
            index += 1;
        }
        assert(self.pressed_keys@.take(index as int) =~= self.pressed_keys@);
        MacInjectedKeyTransition {
            tracked_flags,
            device_flags,
            should_post: !is_modifier || !down || !already_pressed,
        }
    }

    pub fn pressed_keys(&self) -> (keys: &[u16])
        ensures
            keys@ == self@,
    {
        self.pressed_keys.as_slice()
    }
}

/// The flags of a posted event: those it has by its key and those of the held
/// modifiers.
pub fn merged_macos_event_flags(intrinsic: u64, tracked_modifiers: u64) -> (flags: u64)
    ensures
        flags == intrinsic | tracked_modifiers,
{
    intrinsic | tracked_modifiers
}

/// A key event for the system's input service.
#[derive(Debug, Clone, Copy, PartialEq, Eq, Structural)]
pub struct MacHidKeyEventPlan {
    pub event_type: u32,
    pub key_code: u16,
    pub event_flags: u32,
    pub options: u32,
}

/// A modifier is posted as a change of the global flags (type 12, option 1);
/// another key as a press or a release (types 10 and 11) that the service joins
/// with those flags itself.
pub open spec fn hid_plan(
    key_code: u16,
    down: bool,
    is_modifier: bool,
    tracked_flags: u64,
    device_flags: u32,
) -> MacHidKeyEventPlan {
    if is_modifier {
        MacHidKeyEventPlan {
            event_type: 12,
            key_code,
            event_flags: (tracked_flags as u32) | device_flags,
            options: 1,
        }
    } else {
        MacHidKeyEventPlan {
            event_type: if down {
                10
            } else {
                11
            },
            key_code,
            event_flags: 0,
            options: 0,
        }
    }
}

pub fn macos_hid_key_event_plan(
    key_code: u16,
    down: bool,
    is_modifier: bool,
    tracked_flags: u64,
    device_flags: u32,
) -> (plan: MacHidKeyEventPlan)
    ensures
        plan == hid_plan(key_code, down, is_modifier, tracked_flags, device_flags),
{
    if is_modifier {
        MacHidKeyEventPlan {
            event_type: 12,
            key_code,
            event_flags: (#[verifier::truncate]
            (tracked_flags as u32)) | device_flags,
            options: 1,
        }
    } else {
        MacHidKeyEventPlan {
            event_type: if down {
                10
            } else {
                11
            },
            key_code,
            event_flags: 0,
            options: 0,
        }
    }
}

/// What one injected key comes to.
#[derive(Debug, Clone, Copy, PartialEq, Eq, Structural)]
pub enum MacKeyAction {
    /// Switch to the next keyboard input source, as Caps Lock does.
    SwitchInputSource,
    /// Post the planned event. Where the input service does not take it, an
    /// event for the same key with `fallback_flags` is posted instead.
    Post { plan: MacHidKeyEventPlan, down: bool, fallback_flags: u64 },
}

/// Whether a key reaches the system as a key event.
pub open spec fn is_posted_key(key_code: u16) -> bool {
    key_code != VK_CAPITAL && mac_code(key_code) is Some
}

/// The held keys after one injected key.
pub open spec fn keys_after_inject(keys: Seq<u16>, key_code: u16, down: bool) -> Seq<u16> {
    if is_posted_key(key_code) {
        keys_after(
            keys,
            recorded_key(keys, key_code, down, mac_flag(key_code) is Some),
            down,
        )
    } else {
        keys
    }
}

/// What one injected key comes to, if anything.
pub open spec fn inject_action(keys: Seq<u16>, key_code: u16, down: bool) -> Seq<MacKeyAction> {
    if key_code == VK_CAPITAL {
        if down {
            seq![MacKeyAction::SwitchInputSource]
        } else {
            Seq::empty()
        }
    } else {
        match mac_code(key_code) {
            Some(code) => {
                let is_modifier = mac_flag(key_code) is Some;
                let key = recorded_key(keys, key_code, down, is_modifier);
                let after = keys_after_inject(keys, key_code, down);
                if is_modifier && down && keys.contains(key) {
                    Seq::empty()
                } else {
                    seq![
                        MacKeyAction::Post {
                            plan: hid_plan(
                                code,
                                down,
                                is_modifier,
                                held_flags(after),
                                held_device_flags(after),
                            ),
                            down,
                            fallback_flags: held_flags(after) | (held_device_flags(after) as u64),
                        },
                    ]
                }
            },
            None => Seq::empty(),
        }
    }
}

/// Injects one key.
pub fn inject_key_inner(
    state: &mut MacInjectedKeyState,
    key_code: u16,
    down: bool,
    actions: &mut Vec<MacKeyAction>,
)
    ensures
        final(state)@ == keys_after_inject(old(state)@, key_code, down),
        final(actions)@ == old(actions)@ + inject_action(old(state)@, key_code, down),
{
    if key_code == VK_CAPITAL {
        if down {
            actions.push(MacKeyAction::SwitchInputSource);
        }
        assert(actions@ =~= old(actions)@ + inject_action(old(state)@, key_code, down));
        return;
    }
    let code: u16 = match windows_vk_to_mac_key(key_code) {
        Some(code) => code,
        None => {
            assert(actions@ =~= old(actions)@ + inject_action(old(state)@, key_code, down));
            return;
        },
    };
    let is_modifier = windows_vk_to_mac_flag(key_code).is_some();
    let transition = state.transition(key_code, down, is_modifier);
    if transition.should_post {
        let plan = macos_hid_key_event_plan(
            code,
            down,
            is_modifier,
            transition.tracked_flags,
            transition.device_flags,
        );
        let fallback_flags: u64 = transition.tracked_flags | transition.device_flags as u64;
        actions.push(MacKeyAction::Post { plan, down, fallback_flags });
    }
    assert(actions@ =~= old(actions)@ + inject_action(old(state)@, key_code, down));
}

/// The held keys after several injected keys.
pub open spec fn keys_after_all(keys: Seq<u16>, transitions: Seq<(u16, bool)>) -> Seq<u16>
    decreases transitions.len(),
{
    if transitions.len() == 0 {
        keys
    } else {
        keys_after_inject(
            keys_after_all(keys, transitions.drop_last()),
            transitions.last().0,
            transitions.last().1,
        )
    }
}

/// What several injected keys come to.
pub open spec fn inject_actions(keys: Seq<u16>, transitions: Seq<(u16, bool)>) -> Seq<MacKeyAction>
    decreases transitions.len(),
{
    if transitions.len() == 0 {
        Seq::empty()
    } else {
        inject_actions(keys, transitions.drop_last()) + inject_action(
            keys_after_all(keys, transitions.drop_last()),
            transitions.last().0,
            transitions.last().1,
        )
    }
}

fn inject_keys(
    state: &mut MacInjectedKeyState,
    transitions: &Vec<(u16, bool)>,
    actions: &mut Vec<MacKeyAction>,
)
    ensures
        final(state)@ == keys_after_all(old(state)@, transitions@),
        final(actions)@ == old(actions)@ + inject_actions(old(state)@, transitions@),
{
    let mut index: usize = 0;
    proof {
        assert(transitions@.take(0) =~= Seq::<(u16, bool)>::empty());
        assert(actions@ =~= old(actions)@ + inject_actions(old(state)@, transitions@.take(0)));
    }
    while index < transitions.len()
        invariant
            index <= transitions@.len(),
            state@ == keys_after_all(old(state)@, transitions@.take(index as int)),
            actions@ == old(actions)@ + inject_actions(
                old(state)@,
                transitions@.take(index as int),
            ),
        decreases transitions@.len() - index,
    {
        let transition: (u16, bool) = transitions[index];
        proof {
            assert(transitions@.take(index + 1).drop_last() =~= transitions@.take(index as int));
        }
        let ghost before = inject_actions(old(state)@, transitions@.take(index as int));
        let ghost held = state@;
        inject_key_inner(state, transition.0, transition.1, actions);
        proof {
            assert(actions@ =~= old(actions)@ + (before + inject_action(
                held,
                transition.0,
                transition.1,
            )));
        }
        index += 1;
    }
    assert(transitions@.take(index as int) =~= transitions@);
}

/// Brings the injected modifiers in line with a snapshot.
pub fn reconcile_macos_injected_modifier_snapshot(state: &mut MacInjectedKeyState, mask: u8) -> (
    actions: Vec<MacKeyAction>)
    ensures
        final(state)@ == keys_after_all(old(state)@, snapshot_transitions(old(state)@, mask)),
        actions@ == inject_actions(old(state)@, snapshot_transitions(old(state)@, mask)),
{
    let repairs = modifier_snapshot_transitions(state.pressed_keys.as_slice(), mask);
    let mut actions: Vec<MacKeyAction> = Vec::new();
    inject_keys(state, &repairs, &mut actions);
    assert(actions@ =~= inject_actions(old(state)@, snapshot_transitions(old(state)@, mask)));
    actions
}

/// The repairs for a snapshot, if one came.
pub open spec fn repairs_for(keys: Seq<u16>, mask: Option<u8>) -> Seq<(u16, bool)> {
    match mask {
        Some(mask) => snapshot_transitions(keys, mask),
        None => Seq::empty(),
    }
}

/// Injects a key with the modifiers that it was sent with. A modifier comes
/// before the repairs of its own snapshot, any other key after them.
pub fn inject_macos_key_with_modifier_snapshot(
    state: &mut MacInjectedKeyState,
    key_code: u16,
    down: bool,
    modifier_mask: Option<u8>,
) -> (actions: Vec<MacKeyAction>)
    ensures
        modifier_family(key_code) is Some ==> ({
            let keys = keys_after_inject(old(state)@, key_code, down);
            let repairs = repairs_for(keys, modifier_mask);
            &&& final(state)@ == keys_after_all(keys, repairs)
            &&& actions@ == inject_action(old(state)@, key_code, down) + inject_actions(
                keys,
                repairs,
            )
        }),
        modifier_family(key_code) is None ==> ({
            let repairs = repairs_for(old(state)@, modifier_mask);
            let keys = keys_after_all(old(state)@, repairs);
            &&& final(state)@ == keys_after_inject(keys, key_code, down)
            &&& actions@ == inject_actions(old(state)@, repairs) + inject_action(
                keys,
                key_code,
                down,
            )
        }),
{
    let mut actions: Vec<MacKeyAction> = Vec::new();
    if modifier_mask_for_key(key_code).is_some() {
        inject_key_inner(state, key_code, down, &mut actions);
        let ghost keys = state@;
        assert(actions@ =~= inject_action(old(state)@, key_code, down));
        if let Some(mask) = modifier_mask {
            let repairs = modifier_snapshot_transitions(state.pressed_keys.as_slice(), mask);
            inject_keys(state, &repairs, &mut actions);
        } else {
            assert(actions@ =~= inject_action(old(state)@, key_code, down) + inject_actions(
                keys,
                repairs_for(keys, modifier_mask),
            ));
        }
        return actions;
    }
    if let Some(mask) = modifier_mask {
        let repairs = modifier_snapshot_transitions(state.pressed_keys.as_slice(), mask);
        inject_keys(state, &repairs, &mut actions);
        assert(actions@ =~= inject_actions(old(state)@, repairs_for(old(state)@, modifier_mask)));
    }
    inject_key_inner(state, key_code, down, &mut actions);
    actions
}

/// The releases of `keys`, the last key first.
pub open spec fn releases_in_reverse(keys: Seq<u16>) -> Seq<(u16, bool)> {
    Seq::new(keys.len(), |i: int| (keys[keys.len() - 1 - i], false))
}

/// Releases every injected key, the last pressed first, and forgets them.
pub fn reset_injected_keys(state: &mut MacInjectedKeyState) -> (actions: Vec<MacKeyAction>)
    ensures
        actions@ == inject_actions(old(state)@, releases_in_reverse(old(state)@)),
        final(state)@ == Seq::<u16>::empty(),
{
    let mut releases: Vec<(u16, bool)> = Vec::new();
    let mut left: usize = state.pressed_keys.len();
    while left > 0
        invariant
            left <= state.pressed_keys@.len(),
            state.pressed_keys@ == old(state)@,
            releases@.len() == state.pressed_keys@.len() - left,
            forall|i: int|
                0 <= i < releases@.len() ==> releases@[i] == releases_in_reverse(old(state)@)[i],
        decreases left,
    {
        left -= 1;
        releases.push((state.pressed_keys[left], false));
    }
    assert(releases@ =~= releases_in_reverse(old(state)@));
    let mut actions: Vec<MacKeyAction> = Vec::new();
    inject_keys(state, &releases, &mut actions);
    assert(actions@ =~= inject_actions(old(state)@, releases_in_reverse(old(state)@)));
    state.pressed_keys = Vec::new();
    actions
}

/// The connection to the system's input service.
#[derive(Debug, Clone, Copy, PartialEq, Eq, Structural)]
pub struct MacIoHidConnectionState {
    pub connection: Option<u32>,
    pub retry_after: Option<u64>,
}

impl Default for MacIoHidConnectionState {
    fn default() -> (state: Self)
        ensures
            state == (MacIoHidConnectionState { connection: None, retry_after: None }),
    {
        MacIoHidConnectionState { connection: None, retry_after: None }
    }
}

/// How far one post has come.
#[derive(Debug, Clone, Copy, PartialEq, Eq, Structural)]
pub enum HidPhase {
    Start,
    /// The first connection is being opened.
    Opening,
    /// The event is being posted over the connection.
    Posting(u32),
    /// The stale connection was closed and another is being opened.
    Reopening,
    /// The event is being posted over the second connection.
    Reposting(u32),
    Finished,
}

/// What the platform layer answered.
#[derive(Debug, Clone, Copy, PartialEq, Eq, Structural)]
pub enum HidEvent {
    Begin,
    Opened(Option<u32>),
    Posted(bool),
}

/// What the platform layer does next. A close comes before the rest.
#[derive(Debug, Clone, Copy, PartialEq, Eq, Structural)]
pub enum HidAction {
    Open,
    Post(u32),
    CloseAndOpen(u32),
    CloseAndFail(u32),
    Finish(bool),
}

/// What one answer leads to.
pub struct HidStep {
    pub state: MacIoHidConnectionState,
    pub phase: HidPhase,
    pub action: HidAction,
}

/// A connection that failed, to be tried again after the backoff.
pub open spec fn cooling(now: u64) -> MacIoHidConnectionState {
    MacIoHidConnectionState {
        connection: None,
        retry_after: Some((now + MACOS_IOHID_RETRY_BACKOFF) as u64),
    }
}

pub open spec fn connected(connection: u32) -> MacIoHidConnectionState {
    MacIoHidConnectionState { connection: Some(connection), retry_after: None }
}

pub open spec fn hid_step(
    state: MacIoHidConnectionState,
    phase: HidPhase,
    event: HidEvent,
    now: u64,
) -> HidStep {
    match (phase, event) {
        (HidPhase::Start, HidEvent::Begin) => match state.connection {
            Some(connection) => HidStep {
                state,
                phase: HidPhase::Posting(connection),
                action: HidAction::Post(connection),
            },
            None => if state.retry_after is Some && now < state.retry_after->Some_0 {
                HidStep { state, phase: HidPhase::Finished, action: HidAction::Finish(false) }
            } else {
                HidStep {
                    state: MacIoHidConnectionState { connection: None, retry_after: None },
                    phase: HidPhase::Opening,
                    action: HidAction::Open,
                }
            },
        },
        (HidPhase::Opening, HidEvent::Opened(Some(connection))) => HidStep {
            state: MacIoHidConnectionState { connection: Some(connection), ..state },
            phase: HidPhase::Posting(connection),
            action: HidAction::Post(connection),
        },
        (HidPhase::Posting(_), HidEvent::Posted(true)) => HidStep {
            state: MacIoHidConnectionState { retry_after: None, ..state },
            phase: HidPhase::Finished,
            action: HidAction::Finish(true),
        },
        (HidPhase::Posting(connection), HidEvent::Posted(false)) => HidStep {
            state: MacIoHidConnectionState { connection: None, ..state },
            phase: HidPhase::Reopening,
            action: HidAction::CloseAndOpen(connection),
        },
        (HidPhase::Reopening, HidEvent::Opened(Some(connection))) => HidStep {
            state,
            phase: HidPhase::Reposting(connection),
            action: HidAction::Post(connection),
        },
        (HidPhase::Reposting(connection), HidEvent::Posted(true)) => HidStep {
            state: connected(connection),
            phase: HidPhase::Finished,
            action: HidAction::Finish(true),
        },
        (HidPhase::Reposting(connection), HidEvent::Posted(false)) => HidStep {
            state: cooling(now),
            phase: HidPhase::Finished,
            action: HidAction::CloseAndFail(connection),
        },
        (HidPhase::Opening, HidEvent::Opened(None)) | (
            HidPhase::Reopening,
            HidEvent::Opened(None),
        ) => HidStep {
            state: cooling(now),
            phase: HidPhase::Finished,
            action: HidAction::Finish(false),
        },
        _ => HidStep { state, phase: HidPhase::Finished, action: HidAction::Finish(false) },
    }
}

/// Whether the answer is one to what was asked for.
pub open spec fn answers(phase: HidPhase, event: HidEvent) -> bool {
    match phase {
        HidPhase::Start => event is Begin,
        HidPhase::Opening | HidPhase::Reopening => event is Opened,
        HidPhase::Posting(_) | HidPhase::Reposting(_) => event is Posted,
        HidPhase::Finished => false,
    }
}

/// One step of posting an event: a stale connection is closed and opened anew
/// once, and after a failure the service is left alone for a while.
pub fn post_macos_hid_with_recovery(
    state: &mut MacIoHidConnectionState,
    phase: &mut HidPhase,
    event: HidEvent,
    now: u64,
) -> (action: HidAction)
    requires
        answers(*old(phase), event),
        now + MACOS_IOHID_RETRY_BACKOFF <= u64::MAX,
    ensures
        (HidStep { state: *final(state), phase: *final(phase), action }) == hid_step(
            *old(state),
            *old(phase),
            event,
            now,
        ),
{
    let current: HidPhase = *phase;
    match (current, event) {
        (HidPhase::Start, HidEvent::Begin) => {
            if let Some(connection) = state.connection {
                *phase = HidPhase::Posting(connection);
                return HidAction::Post(connection);
            }
            if let Some(retry_after) = state.retry_after {
                if now < retry_after {
                    *phase = HidPhase::Finished;
                    return HidAction::Finish(false);
                }
            }
            state.retry_after = None;
            *phase = HidPhase::Opening;
            HidAction::Open
        },
        (HidPhase::Opening, HidEvent::Opened(Some(connection))) => {
            state.connection = Some(connection);
            *phase = HidPhase::Posting(connection);
            HidAction::Post(connection)
        },
        (HidPhase::Posting(connection), HidEvent::Posted(posted)) => {
            if posted {
                state.retry_after = None;
                *phase = HidPhase::Finished;
                return HidAction::Finish(true);
            }
            state.connection = None;
            *phase = HidPhase::Reopening;
            HidAction::CloseAndOpen(connection)
        },
        (HidPhase::Reopening, HidEvent::Opened(Some(connection))) => {
            *phase = HidPhase::Reposting(connection);
            HidAction::Post(connection)
        },
        (HidPhase::Reposting(connection), HidEvent::Posted(posted)) => {
            *phase = HidPhase::Finished;
            if posted {
                state.connection = Some(connection);
                state.retry_after = None;
                return HidAction::Finish(true);
            }
            state.connection = None;
            state.retry_after = Some(now + MACOS_IOHID_RETRY_BACKOFF);
            HidAction::CloseAndFail(connection)
        },
        _ => {
            state.connection = None;
            state.retry_after = Some(now + MACOS_IOHID_RETRY_BACKOFF);
            *phase = HidPhase::Finished;
            HidAction::Finish(false)
        },
    }
}

/// A keyboard input source of the user.
#[derive(Debug, Clone, Copy, PartialEq, Eq, Structural)]
pub struct InputSource {
    pub is_current: bool,
    pub is_keyboard: bool,
    pub is_selectable: bool,
    pub is_ascii: bool,
}

/// Whether Caps Lock may switch to the source: a selectable keyboard other than
/// the current one, ASCII where the current one is not and the reverse.
pub open spec fn is_opposite_source(source: InputSource, current_ascii: bool) -> bool {
    !source.is_current && source.is_keyboard && source.is_selectable && source.is_ascii
        != current_ascii
}

/// The source that Caps Lock switches to: the first one that it may.
pub fn next_input_source(sources: &[InputSource], current_ascii: bool) -> (chosen: Option<usize>)
    ensures
        match chosen {
            Some(index) => index < sources@.len() && is_opposite_source(
                sources@[index as int],
                current_ascii,
            ) && forall|i: int|
                0 <= i < index ==> !is_opposite_source(#[trigger] sources@[i], current_ascii),
            None => forall|i: int|
                0 <= i < sources@.len() ==> !is_opposite_source(
                    #[trigger] sources@[i],
                    current_ascii,
                ),
        },
{
    let mut index: usize = 0;
    while index < sources.len()
        invariant
            index <= sources@.len(),
            forall|i: int|
                0 <= i < index ==> !is_opposite_source(#[trigger] sources@[i], current_ascii),
        decreases sources@.len() - index,
    {
        let source = &sources[index];
        if !source.is_current && source.is_keyboard && source.is_selectable && source.is_ascii
            != current_ascii {
            return Some(index);
        }
        index += 1;
    }
    None
}

/// A press counts one click, two or three, and its release counts the same if
/// it comes near the press, none otherwise.
pub proof fn law_click_counts_match(
    tracker: MacClickTracker,
    button: MouseButton,
    press: (i32, i32),
    release: (i32, i32),
    now: u64,
    later: u64,
    interval: u64,
)
    ensures
        ({
            let pressed = counted_click(tracker, button, true, press.0, press.1, now, interval);
            let released = counted_click(
                pressed.0,
                button,
                false,
                release.0,
                release.1,
                later,
                interval,
            );
            &&& 1 <= pressed.1 <= 3
            &&& released.1 == if points_are_near(
                press.0,
                press.1,
                release.0,
                release.1,
                MAX_CLICK_DISTANCE,
            ) {
                pressed.1
            } else {
                0
            }
        }),
{
}

proof fn lemma_or_keeps_bits(a: u64, b: u64, m: u64)
    by (bit_vector)
    ensures
        (a | b) & m != 0 <==> a & m != 0 || b & m != 0,
        0u64 & m == 0,
{
}

proof fn lemma_flags_are_disjoint()
    by (bit_vector)
    ensures
        0x2_0000u64 & 0x2_0000 != 0,
        0x4_0000u64 & 0x4_0000 != 0,
        0x8_0000u64 & 0x8_0000 != 0,
        0x10_0000u64 & 0x10_0000 != 0,
        0x2_0000u64 & 0x4_0000 == 0,
        0x2_0000u64 & 0x8_0000 == 0,
        0x2_0000u64 & 0x10_0000 == 0,
        0x4_0000u64 & 0x2_0000 == 0,
        0x4_0000u64 & 0x8_0000 == 0,
        0x4_0000u64 & 0x10_0000 == 0,
        0x8_0000u64 & 0x2_0000 == 0,
        0x8_0000u64 & 0x4_0000 == 0,
        0x8_0000u64 & 0x10_0000 == 0,
        0x10_0000u64 & 0x2_0000 == 0,
        0x10_0000u64 & 0x4_0000 == 0,
        0x10_0000u64 & 0x8_0000 == 0,
{
}

proof fn lemma_holds_family_step(keys: Seq<u16>, family: u8)
    requires
        keys.len() > 0,
    ensures
        holds_family(keys, family) <==> holds_family(keys.drop_last(), family) || modifier_family(
            keys.last(),
        ) == Some(family),
{
    if holds_family(keys, family) {
        let i = choose|i: int|
            0 <= i < keys.len() && modifier_family(#[trigger] keys[i]) == Some(family);
        if i < keys.len() - 1 {
            assert(keys.drop_last()[i] == keys[i]);
        }
    }
    if holds_family(keys.drop_last(), family) {
        let i = choose|i: int|
            0 <= i < keys.drop_last().len() && modifier_family(#[trigger] keys.drop_last()[i])
                == Some(family);
        assert(keys[i] == keys.drop_last()[i]);
    }
    if modifier_family(keys.last()) == Some(family) {
        assert(modifier_family(keys[keys.len() - 1]) == Some(family));
    }
}

/// The flags of a posted event show exactly the modifiers that are held.
pub proof fn law_flags_show_the_held_modifiers(keys: Seq<u16>)
    ensures
        held_flags(keys) & MAC_SHIFT_FLAG != 0 <==> holds_family(keys, SHIFT_MODIFIER_MASK),
        held_flags(keys) & MAC_CONTROL_FLAG != 0 <==> holds_family(keys, CONTROL_MODIFIER_MASK),
        held_flags(keys) & MAC_ALTERNATE_FLAG != 0 <==> holds_family(keys, ALT_MODIFIER_MASK),
        held_flags(keys) & MAC_COMMAND_FLAG != 0 <==> holds_family(keys, META_MODIFIER_MASK),
    decreases keys.len(),
{
    lemma_flags_are_disjoint();
    if keys.len() == 0 {
        lemma_or_keeps_bits(0, 0, MAC_SHIFT_FLAG);
        lemma_or_keeps_bits(0, 0, MAC_CONTROL_FLAG);
        lemma_or_keeps_bits(0, 0, MAC_ALTERNATE_FLAG);
        lemma_or_keeps_bits(0, 0, MAC_COMMAND_FLAG);
    } else {
        law_flags_show_the_held_modifiers(keys.drop_last());
        let rest = held_flags(keys.drop_last());
        let flag = match mac_flag(keys.last()) {
            Some(flag) => flag,
            None => 0u64,
        };
        lemma_or_keeps_bits(rest, flag, MAC_SHIFT_FLAG);
        lemma_or_keeps_bits(rest, flag, MAC_CONTROL_FLAG);
        lemma_or_keeps_bits(rest, flag, MAC_ALTERNATE_FLAG);
        lemma_or_keeps_bits(rest, flag, MAC_COMMAND_FLAG);
        lemma_holds_family_step(keys, SHIFT_MODIFIER_MASK);
        lemma_holds_family_step(keys, CONTROL_MODIFIER_MASK);
        lemma_holds_family_step(keys, ALT_MODIFIER_MASK);
        lemma_holds_family_step(keys, META_MODIFIER_MASK);
    }
}

/// A modifier is held on macOS exactly as on Windows.
proof fn lemma_modifiers_are_posted(keys: Seq<u16>, key_code: u16, down: bool)
    requires
        modifier_family(key_code) is Some,
    ensures
        keys_after_inject(keys, key_code, down) == injected_after(keys, key_code, down),
{
    law_modifiers_have_key_codes(key_code);
    assert(key_code != VK_CAPITAL);
    assert(modifier_family(sided_key(key_code)) is Some);
}

proof fn lemma_repairs_are_posted(keys: Seq<u16>, transitions: Seq<(u16, bool)>)
    requires
        forall|i: int|
            0 <= i < transitions.len() ==> modifier_family((#[trigger] transitions[i]).0) is Some,
    ensures
        keys_after_all(keys, transitions) == injected_after_all(keys, transitions),
    decreases transitions.len(),
{
    if transitions.len() > 0 {
        let shorter = transitions.drop_last();
        assert forall|i: int| 0 <= i < shorter.len() implies modifier_family(
            (#[trigger] shorter[i]).0,
        ) is Some by {
            assert(shorter[i] == transitions[i]);
        }
        lemma_repairs_are_posted(keys, shorter);
        assert(transitions.last() == transitions[transitions.len() - 1]);
        lemma_modifiers_are_posted(
            keys_after_all(keys, shorter),
            transitions.last().0,
            transitions.last().1,
        );
    }
}

proof fn lemma_releases_name_modifiers(keys: Seq<u16>, mask: u8)
    ensures
        forall|i: int|
            0 <= i < stale_releases(keys, mask).len() ==> modifier_family(
                (#[trigger] stale_releases(keys, mask)[i]).0,
            ) is Some,
    decreases keys.len(),
{
    if keys.len() > 0 {
        lemma_releases_name_modifiers(keys.drop_last(), mask);
        let rest = stale_releases(keys.drop_last(), mask);
        let all = stale_releases(keys, mask);
        assert forall|i: int| 0 <= i < all.len() implies modifier_family(
            (#[trigger] all[i]).0,
        ) is Some by {
            if i < rest.len() {
                assert(all[i] == rest[i]);
            }
        }
    }
}

/// Repairing the injected keys by a snapshot makes the held modifiers, and with
/// them the flags of every later event, exactly those of the snapshot.
pub proof fn law_mac_snapshot_repair_converges(keys: Seq<u16>, mask: u8)
    requires
        well_tracked(keys),
    ensures
        ({
            let after = keys_after_all(keys, snapshot_transitions(keys, mask));
            &&& well_tracked(after)
            &&& held_flags(after) & MAC_SHIFT_FLAG != 0 <==> mask & SHIFT_MODIFIER_MASK != 0
            &&& held_flags(after) & MAC_CONTROL_FLAG != 0 <==> mask & CONTROL_MODIFIER_MASK != 0
            &&& held_flags(after) & MAC_ALTERNATE_FLAG != 0 <==> mask & ALT_MODIFIER_MASK != 0
            &&& held_flags(after) & MAC_COMMAND_FLAG != 0 <==> mask & META_MODIFIER_MASK != 0
            &&& forall|key: u16|
                modifier_family(key) is None ==> (#[trigger] after.contains(key) <==> keys.contains(
                    key,
                ))
        }),
{
    let transitions = snapshot_transitions(keys, mask);
    lemma_releases_name_modifiers(keys, mask);
    assert forall|i: int| 0 <= i < transitions.len() implies modifier_family(
        (#[trigger] transitions[i]).0,
    ) is Some by {
        let releases = stale_releases(keys, mask);
        if i < releases.len() {
            assert(transitions[i] == releases[i]);
        }
    }
    lemma_repairs_are_posted(keys, transitions);
    law_snapshot_repair_converges(keys, mask);
    law_flags_show_the_held_modifiers(keys_after_all(keys, transitions));
}

/// A post that fails leaves no connection open and the service alone until the
/// backoff is over: another post before that fails without opening anything.
pub proof fn law_failed_posts_back_off(
    state: MacIoHidConnectionState,
    phase: HidPhase,
    event: HidEvent,
    now: u64,
    later: u64,
)
    requires
        answers(phase, event),
        !(phase is Start),
        now + MACOS_IOHID_RETRY_BACKOFF <= u64::MAX,
        now <= later < now + MACOS_IOHID_RETRY_BACKOFF,
    ensures
        ({
            let step = hid_step(state, phase, event, now);
            let failed = step.action == HidAction::Finish(false)
                || step.action is CloseAndFail;
            let next = hid_step(step.state, HidPhase::Start, HidEvent::Begin, later);
            &&& failed ==> step.state.connection is None
            &&& failed ==> next.action == HidAction::Finish(false) && next.state == step.state
        }),
{
}

/// A stale connection is closed before it is replaced, and is replaced once: a
/// second failure ends the post.
pub proof fn law_stale_connections_are_replaced_once(
    state: MacIoHidConnectionState,
    stale: u32,
    reopened: u32,
    now: u64,
)
    requires
        now + MACOS_IOHID_RETRY_BACKOFF <= u64::MAX,
    ensures
        ({
            let lost = hid_step(state, HidPhase::Posting(stale), HidEvent::Posted(false), now);
            let opened = hid_step(lost.state, lost.phase, HidEvent::Opened(Some(reopened)), now);
            let failed = hid_step(opened.state, opened.phase, HidEvent::Posted(false), now);
            let posted = hid_step(opened.state, opened.phase, HidEvent::Posted(true), now);
            &&& lost.action == HidAction::CloseAndOpen(stale)
            &&& opened.action == HidAction::Post(reopened)
            &&& failed.action == HidAction::CloseAndFail(reopened)
            &&& posted.action == HidAction::Finish(true)
            &&& posted.state == connected(reopened)
        }),
{
}

/// Nearness does not depend on which point comes first or on which axis they
/// differ; on one axis it is the distance itself.
pub proof fn law_nearness_is_distance(x1: i32, y1: i32, x2: i32, y2: i32, max_distance: i32)
    ensures
        points_are_near(x1, y1, x2, y2, max_distance) == points_are_near(
            x2,
            y2,
            x1,
            y1,
            max_distance,
        ),
        points_are_near(x1, y1, x2, y2, max_distance) == points_are_near(
            y1,
            x1,
            y2,
            x2,
            max_distance,
        ),
        max_distance >= 0 ==> (points_are_near(x1, y1, x2, y1, max_distance) <==> -max_distance
            <= x1 - x2 <= max_distance),
        max_distance >= 0 && points_are_near(x1, y1, x2, y2, max_distance) ==> -max_distance <= x1
            - x2 <= max_distance && -max_distance <= y1 - y2 <= max_distance,
{
    let dx = x1 - x2;
    let dy = y1 - y2;
    let d = max_distance as int;
    assert((x2 - x1) * (x2 - x1) == dx * dx && (y2 - y1) * (y2 - y1) == dy * dy) by (
    nonlinear_arith)
        requires
            dx == x1 - x2,
            dy == y1 - y2,
    ;
    assert((y1 - y1) * (y1 - y1) == 0) by (nonlinear_arith);
    assert(0 <= dx * dx && 0 <= dy * dy) by (nonlinear_arith);
    if d >= 0 {
        assert(dx * dx <= d * d <==> -d <= dx <= d) by (nonlinear_arith)
            requires
                d >= 0,
        ;
        assert(dy * dy <= d * d <==> -d <= dy <= d) by (nonlinear_arith)
            requires
                d >= 0,
        ;
    }
}

/// A press of the same button at the same place within the interval counts one
/// click more than the last, up to three. A press of another button, a late one
/// or one far off counts as the first.
pub proof fn law_clicks_add_up(
    tracker: MacClickTracker,
    button: MouseButton,
    other: MouseButton,
    x: i32,
    y: i32,
    other_x: i32,
    now: u64,
    later: u64,
    interval: u64,
)
    requires
        now <= later,
    ensures
        ({
            let first = counted_click(tracker, button, true, x, y, now, interval);
            let again = counted_click(first.0, button, true, x, y, later, interval);
            let far = counted_click(first.0, button, true, other_x, y, later, interval);
            let foreign = counted_click(first.0, other, true, x, y, later, interval);
            &&& later - now <= interval ==> again.1 == (if first.1 == 3 {
                3
            } else {
                first.1 + 1
            })
            &&& later - now > interval ==> again.1 == 1
            &&& other != button ==> foreign.1 == 1
            &&& other_x > x + 8 || other_x < x - 8 ==> far.1 == 1
            &&& tracker.last_down is None ==> first.1 == 1
        }),
{
    law_nearness_is_distance(x, y, x, y, 8);
    law_nearness_is_distance(x, y, other_x, y, 8);
}

/// A release far from its press ends the multi-click: the next press counts as
/// the first. The presses of the other buttons stay as they were.
pub proof fn law_drags_end_the_clicks(
    tracker: MacClickTracker,
    button: MouseButton,
    x: i32,
    y: i32,
    now: u64,
    next: MouseButton,
    next_x: i32,
    next_y: i32,
    later: u64,
    interval: u64,
)
    ensures
        ({
            let released = counted_click(tracker, button, false, x, y, now, interval);
            let pressed = counted_click(released.0, next, true, next_x, next_y, later, interval);
            &&& held_click(released.0, button) is None
            &&& next != button ==> held_click(released.0, next) == held_click(tracker, next)
            &&& held_click(tracker, button) matches Some(press) ==> !points_are_near(
                press.x,
                press.y,
                x,
                y,
                8,
            ) ==> pressed.1 == 1 && released.1 == 0
            &&& held_click(tracker, button) is None ==> released.1 == 0
            &&& held_click(pressed.0, next) matches Some(press) && press.x == next_x && press.y
                == next_y && press.at == later && press.button == next
        }),
{
}

/// Shift, control, option and command have one event flag each, and each side of
/// a modifier has a flag of its own; a modifier without a side counts as the
/// left one.
pub proof fn law_modifiers_have_their_flags(vk: u16)
    ensures
        mac_flag(vk) == Some(0x2_0000u64) <==> vk == 0x10 || vk == 0xA0 || vk == 0xA1,
        mac_flag(vk) == Some(0x4_0000u64) <==> vk == 0x11 || vk == 0xA2 || vk == 0xA3,
        mac_flag(vk) == Some(0x8_0000u64) <==> vk == 0x12 || vk == 0xA4 || vk == 0xA5,
        mac_flag(vk) == Some(0x10_0000u64) <==> vk == 0x5B || vk == 0x5C,
        mac_flag(vk) is Some <==> mac_device_flag(vk) is Some,
        mac_device_flag(vk) == Some(0x2u32) <==> vk == 0xA0 || vk == 0x10,
        mac_device_flag(vk) == Some(0x4u32) <==> vk == 0xA1,
        mac_device_flag(vk) == Some(0x1u32) <==> vk == 0xA2 || vk == 0x11,
        mac_device_flag(vk) == Some(0x2000u32) <==> vk == 0xA3,
        mac_device_flag(vk) == Some(0x20u32) <==> vk == 0xA4 || vk == 0x12,
        mac_device_flag(vk) == Some(0x40u32) <==> vk == 0xA5,
        mac_device_flag(vk) == Some(0x8u32) <==> vk == 0x5B,
        mac_device_flag(vk) == Some(0x10u32) <==> vk == 0x5C,
{
}

/// The side flags of a posted event show exactly the sides that are held.
pub proof fn law_side_flags_show_the_held_sides(keys: Seq<u16>, flag: u32)
    requires
        flag == 0x1 || flag == 0x2 || flag == 0x4 || flag == 0x8 || flag == 0x10 || flag == 0x20
            || flag == 0x40 || flag == 0x2000,
    ensures
        held_device_flags(keys) & flag != 0 <==> exists|i: int|
            0 <= i < keys.len() && mac_device_flag(#[trigger] keys[i]) == Some(flag),
    decreases keys.len(),
{
    if keys.len() == 0 {
        assert(0u32 & flag == 0) by (bit_vector);
    } else {
        let rest = keys.drop_last();
        law_side_flags_show_the_held_sides(rest, flag);
        let below = held_device_flags(rest);
        if let Some(own) = mac_device_flag(keys.last()) {
            assert((below | own) & flag != 0 <==> below & flag != 0 || own == flag) by (bit_vector)
                requires
                    flag == 0x1 || flag == 0x2 || flag == 0x4 || flag == 0x8 || flag == 0x10 || flag
                        == 0x20 || flag == 0x40 || flag == 0x2000,
                    own == 0x1 || own == 0x2 || own == 0x4 || own == 0x8 || own == 0x10 || own
                        == 0x20 || own == 0x40 || own == 0x2000,
            ;
        }
        if below & flag != 0 {
            let i = choose|i: int|
                0 <= i < rest.len() && mac_device_flag(#[trigger] rest[i]) == Some(flag);
            assert(keys[i] == rest[i]);
        }
        if exists|i: int|
            0 <= i < keys.len() - 1 && mac_device_flag(#[trigger] keys[i]) == Some(flag) {
            let i = choose|i: int|
                0 <= i < keys.len() - 1 && mac_device_flag(#[trigger] keys[i]) == Some(flag);
            assert(rest[i] == keys[i]);
        }
        assert(keys[keys.len() - 1] == keys.last());
    }
}

/// A key is posted under its macOS code: down or up as it was sent, a modifier as
/// a change of flags with the flags that are then held. Caps Lock switches the
/// input source when it goes down, and a key without a code does nothing.
pub proof fn law_keys_are_posted_as_sent(keys: Seq<u16>, key_code: u16, down: bool)
    ensures
        ({
            let actions = inject_action(keys, key_code, down);
            let after = keys_after_inject(keys, key_code, down);
            let modifier = modifier_family(key_code) is Some;
            &&& key_code == 0x14 ==> after == keys && actions == (if down {
                seq![MacKeyAction::SwitchInputSource]
            } else {
                Seq::empty()
            })
            &&& key_code != 0x14 && mac_code(key_code) is None ==> after == keys && actions.len()
                == 0
            &&& key_code != 0x14 && mac_code(key_code) is Some && !modifier ==> actions == seq![
                MacKeyAction::Post {
                    plan: MacHidKeyEventPlan {
                        event_type: if down {
                            10
                        } else {
                            11
                        },
                        key_code: mac_code(key_code)->0,
                        event_flags: 0,
                        options: 0,
                    },
                    down,
                    fallback_flags: held_flags(after) | held_device_flags(after) as u64,
                },
            ] && (forall|key: u16| #[trigger] after.contains(key) <==> if key == key_code {
                down
            } else {
                keys.contains(key)
            })
            &&& modifier && !(down && keys.contains(sided_key(key_code))) ==> actions == seq![
                MacKeyAction::Post {
                    plan: MacHidKeyEventPlan {
                        event_type: 12,
                        key_code: mac_code(key_code)->0,
                        event_flags: (held_flags(after) as u32) | held_device_flags(after),
                        options: 1,
                    },
                    down,
                    fallback_flags: held_flags(after) | held_device_flags(after) as u64,
                },
            ]
            &&& modifier && down && keys.contains(sided_key(key_code)) ==> actions.len() == 0
                && after == keys
            &&& modifier && down ==> after.contains(sided_key(key_code))
            &&& modifier && !down ==> !after.contains(sided_key(key_code))
        }),
{
    if modifier_family(key_code) is Some {
        law_modifiers_have_key_codes(key_code);
    }
    let is_modifier = mac_flag(key_code) is Some;
    let key = recorded_key(keys, key_code, down, is_modifier);
    assert forall|other: u16| #[trigger] keys_after(keys, key, down).contains(other) == (if other
        == key {
        down
    } else {
        keys.contains(other)
    }) by {
        crate::control::lemma_key_transition(keys, key, down, other);
    }
}

/// All held keys go up in the opposite order: the one that was pressed last goes
/// first.
pub proof fn law_last_key_is_released_first(keys: Seq<u16>, last: u16)
    ensures
        releases_in_reverse(keys.push(last)) == seq![(last, false)] + releases_in_reverse(keys),
        releases_in_reverse(Seq::empty()) == Seq::<(u16, bool)>::empty(),
{
    let longer = releases_in_reverse(keys.push(last));
    let rest = seq![(last, false)] + releases_in_reverse(keys);
    assert forall|i: int| 0 <= i < longer.len() implies longer[i] == rest[i] by {
        if i > 0 {
            assert(rest[i] == releases_in_reverse(keys)[i - 1]);
        }
    }
    assert(longer =~= rest);
    assert(releases_in_reverse(Seq::empty()) =~= Seq::<(u16, bool)>::empty());
}

/// A post goes over the open connection, opens one where there is none, and does
/// neither for a second after a failure. What was posted keeps the connection.
pub proof fn law_posts_use_the_open_connection(
    state: MacIoHidConnectionState,
    connection: u32,
    now: u64,
    failed_at: u64,
)
    requires
        failed_at + MACOS_IOHID_RETRY_BACKOFF <= u64::MAX,
    ensures
        ({
            let begun = hid_step(state, HidPhase::Start, HidEvent::Begin, now);
            let opened = hid_step(state, HidPhase::Opening, HidEvent::Opened(Some(connection)), now);
            let posted = hid_step(
                opened.state,
                HidPhase::Posting(connection),
                HidEvent::Posted(true),
                now,
            );
            let cooled = hid_step(cooling(failed_at), HidPhase::Start, HidEvent::Begin, now);
            &&& state.connection matches Some(open) ==> begun.action == HidAction::Post(open)
            &&& state.connection is None && state.retry_after is None ==> begun.action
                == HidAction::Open
            &&& opened.action == HidAction::Post(connection)
            &&& posted.action == HidAction::Finish(true)
            &&& posted.state == connected(connection)
            &&& cooled.action == (if now - failed_at < 1_000_000_000 {
                HidAction::Finish(false)
            } else {
                HidAction::Open
            })
        }),
{
}

/// Caps Lock goes to a selectable keyboard that is not the current one, and from
/// ASCII to another script or back.
pub proof fn law_caps_lock_changes_the_script(source: InputSource, current_ascii: bool)
    ensures
        is_opposite_source(source, current_ascii) ==> !source.is_current && source.is_keyboard
            && source.is_selectable && source.is_ascii == !current_ascii,
        !source.is_current && source.is_keyboard && source.is_selectable ==> is_opposite_source(
            source,
            true,
        ) != is_opposite_source(source, false),
{
}

} // verus!
