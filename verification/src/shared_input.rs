//! The input vocabulary that both ends of a session share.

use vstd::prelude::*;

verus! {

pub const LEFT_BUTTON_MASK: u64 = 1;

pub const RIGHT_BUTTON_MASK: u64 = 2;

pub const MIDDLE_BUTTON_MASK: u64 = 4;

pub const SHIFT_MODIFIER_MASK: u8 = 1;

pub const CONTROL_MODIFIER_MASK: u8 = 2;

pub const ALT_MODIFIER_MASK: u8 = 4;

pub const META_MODIFIER_MASK: u8 = 8;

#[derive(Debug, Clone, Copy, PartialEq, Eq, Structural)]
pub enum MouseButton {
    Left,
    Right,
    Middle,
}

/// One input event as it travels between two machines. A mouse sequence of
/// zero marks a peer that does not number its events.
#[derive(Debug, PartialEq, Eq)]
#[allow(inconsistent_fields)]
pub enum InputEvent {
    MouseMove {
        screen_id: String,
        x: i32,
        y: i32,
        drag_button: Option<MouseButton>,
        button_mask: Option<u64>,
        sequence: u64,
    },
    MouseButton {
        button: MouseButton,
        down: bool,
        screen_id: String,
        x: Option<i32>,
        y: Option<i32>,
        sequence: u64,
    },
    Scroll { delta_x: i32, delta_y: i32, sequence: u64 },
    Key { key_code: u16, down: bool },
    CursorPark { screen_id: String, x: i32, y: i32, sequence: u64 },
}

impl Clone for InputEvent {
    fn clone(&self) -> (event: Self)
        ensures
            event == *self,
    {
        match self {
            InputEvent::MouseMove { screen_id, x, y, drag_button, button_mask, sequence } => {
                InputEvent::MouseMove {
                    screen_id: screen_id.clone(),
                    x: *x,
                    y: *y,
                    drag_button: *drag_button,
                    button_mask: *button_mask,
                    sequence: *sequence,
                }
            },
            InputEvent::MouseButton { button, down, screen_id, x, y, sequence } => {
                InputEvent::MouseButton {
                    button: *button,
                    down: *down,
                    screen_id: screen_id.clone(),
                    x: *x,
                    y: *y,
                    sequence: *sequence,
                }
            },
            InputEvent::Scroll { delta_x, delta_y, sequence } => InputEvent::Scroll {
                delta_x: *delta_x,
                delta_y: *delta_y,
                sequence: *sequence,
            },
            InputEvent::Key { key_code, down } => InputEvent::Key {
                key_code: *key_code,
                down: *down,
            },
            InputEvent::CursorPark { screen_id, x, y, sequence } => InputEvent::CursorPark {
                screen_id: screen_id.clone(),
                x: *x,
                y: *y,
                sequence: *sequence,
            },
        }
    }
}

/// One event in native coordinates, ready for injection.
#[derive(Debug, Clone, Copy, PartialEq, Eq, Structural)]
pub enum InputCommand {
    MouseMove { x: i32, y: i32, drag_button: Option<MouseButton> },
    MouseButton { button: MouseButton, down: bool, x: i32, y: i32 },
    Scroll { delta_x: i32, delta_y: i32 },
    Key { key_code: u16, down: bool },
    CursorPark { x: i32, y: i32 },
    ReleaseAll,
    SecureAttention,
}

/// The bit of `button` in a button mask.
pub open spec fn button_bit(button: MouseButton) -> u64 {
    match button {
        MouseButton::Left => LEFT_BUTTON_MASK,
        MouseButton::Right => RIGHT_BUTTON_MASK,
        MouseButton::Middle => MIDDLE_BUTTON_MASK,
    }
}

pub fn mouse_button_mask(button: MouseButton) -> (mask: u64)
    ensures
        mask == button_bit(button),
{
    match button {
        MouseButton::Left => LEFT_BUTTON_MASK,
        MouseButton::Right => RIGHT_BUTTON_MASK,
        MouseButton::Middle => MIDDLE_BUTTON_MASK,
    }
}

/// The button that a drag with `mask` held is attributed to.
pub open spec fn primary_button(mask: u64) -> Option<MouseButton> {
    if mask & LEFT_BUTTON_MASK != 0 {
        Some(MouseButton::Left)
    } else if mask & RIGHT_BUTTON_MASK != 0 {
        Some(MouseButton::Right)
    } else if mask & MIDDLE_BUTTON_MASK != 0 {
        Some(MouseButton::Middle)
    } else {
        None
    }
}

pub fn button_from_mask(mask: u64) -> (button: Option<MouseButton>)
    ensures
        button == primary_button(mask),
{
    if mask & LEFT_BUTTON_MASK != 0 {
        Some(MouseButton::Left)
    } else if mask & RIGHT_BUTTON_MASK != 0 {
        Some(MouseButton::Right)
    } else if mask & MIDDLE_BUTTON_MASK != 0 {
        Some(MouseButton::Middle)
    } else {
        None
    }
}

/// The modifier family of a virtual key: generic, left and right variants of
/// one modifier share a mask.
pub open spec fn modifier_family(key_code: u16) -> Option<u8> {
    if key_code == 0x10 || key_code == 0xA0 || key_code == 0xA1 {
        Some(SHIFT_MODIFIER_MASK)
    } else if key_code == 0x11 || key_code == 0xA2 || key_code == 0xA3 {
        Some(CONTROL_MODIFIER_MASK)
    } else if key_code == 0x12 || key_code == 0xA4 || key_code == 0xA5 {
        Some(ALT_MODIFIER_MASK)
    } else if key_code == 0x5B || key_code == 0x5C {
        Some(META_MODIFIER_MASK)
    } else {
        None
    }
}

pub fn modifier_mask_for_key(key_code: u16) -> (mask: Option<u8>)
    ensures
        mask == modifier_family(key_code),
{
    match key_code {
        0x10 | 0xA0 | 0xA1 => Some(SHIFT_MODIFIER_MASK),
        0x11 | 0xA2 | 0xA3 => Some(CONTROL_MODIFIER_MASK),
        0x12 | 0xA4 | 0xA5 => Some(ALT_MODIFIER_MASK),
        0x5B | 0x5C => Some(META_MODIFIER_MASK),
        _ => None,
    }
}

/// The families that at least one of `keys` belongs to, as a mask.
pub open spec fn families_mask(keys: Seq<u16>) -> u8
    decreases keys.len(),
{
    if keys.len() == 0 {
        0
    } else {
        match modifier_family(keys.last()) {
            Some(family) => families_mask(keys.drop_last()) | family,
            None => families_mask(keys.drop_last()),
        }
    }
}

pub fn modifier_mask_for_keys(keys: &[u16]) -> (mask: u8)
    ensures
        mask == families_mask(keys@),
{
    let mut mask: u8 = 0;
    let mut index: usize = 0;
    while index < keys.len()
        invariant
            index <= keys@.len(),
            mask == families_mask(keys@.take(index as int)),
        decreases keys@.len() - index,
    {
        proof {
            assert(keys@.take(index + 1).drop_last() =~= keys@.take(index as int));
        }
        if let Some(family) = modifier_mask_for_key(keys[index]) {
            mask = mask | family;
        }
        index += 1;
    }
    assert(keys@.take(keys@.len() as int) =~= keys@);
    mask
}

/// Whether some key of `keys` belongs to `family`.
pub open spec fn holds_family(keys: Seq<u16>, family: u8) -> bool {
    exists|i: int| 0 <= i < keys.len() && modifier_family(#[trigger] keys[i]) == Some(family)
}

pub fn any_key_of_family(keys: &[u16], family: u8) -> (held: bool)
    ensures
        held == holds_family(keys@, family),
{
    let mut index: usize = 0;
    while index < keys.len()
        invariant
            index <= keys@.len(),
            forall|i: int|
                0 <= i < index ==> modifier_family(#[trigger] keys@[i]) != Some(family),
        decreases keys@.len() - index,
    {
        if let Some(found) = modifier_mask_for_key(keys[index]) {
            if found == family {
                assert(modifier_family(keys@[index as int]) == Some(family));
                return true;
            }
        }
        index += 1;
    }
    false
}

/// The releases that bring the held `keys` down to the families of `mask`.
pub open spec fn stale_releases(keys: Seq<u16>, mask: u8) -> Seq<(u16, bool)>
    decreases keys.len(),
{
    if keys.len() == 0 {
        Seq::empty()
    } else {
        let rest = stale_releases(keys.drop_last(), mask);
        match modifier_family(keys.last()) {
            Some(family) if mask & family == 0 => rest.push((keys.last(), false)),
            _ => rest,
        }
    }
}

/// The press of `key` that is owed when `mask` asks for `family` and no held
/// key provides it.
pub open spec fn missing_press(
    keys: Seq<u16>,
    mask: u8,
    family: u8,
    key: u16,
) -> Seq<(u16, bool)> {
    if mask & family != 0 && !holds_family(keys, family) {
        seq![(key, true)]
    } else {
        Seq::empty()
    }
}

/// The key transitions that make the held `keys` agree with the authoritative
/// modifier `mask`: stale modifiers go up first, then missing ones go down.
pub open spec fn snapshot_transitions(keys: Seq<u16>, mask: u8) -> Seq<(u16, bool)> {
    stale_releases(keys, mask) + missing_press(keys, mask, SHIFT_MODIFIER_MASK, 0x10)
        + missing_press(keys, mask, CONTROL_MODIFIER_MASK, 0x11) + missing_press(
        keys,
        mask,
        ALT_MODIFIER_MASK,
        0x12,
    ) + missing_press(keys, mask, META_MODIFIER_MASK, 0x5B)
}

fn push_missing(keys: &[u16], mask: u8, family: u8, key: u16, out: &mut Vec<(u16, bool)>)
    ensures
        final(out)@ == old(out)@ + missing_press(keys@, mask, family, key),
{
    let ghost before = out@;
    if mask & family != 0 && !any_key_of_family(keys, family) {
        out.push((key, true));
    }
    assert(out@ =~= before + missing_press(keys@, mask, family, key));
}

pub fn modifier_snapshot_transitions(keys: &[u16], mask: u8) -> (transitions: Vec<(u16, bool)>)
    ensures
        transitions@ == snapshot_transitions(keys@, mask),
{
    let mut out: Vec<(u16, bool)> = Vec::new();
    let mut index: usize = 0;
    while index < keys.len()
        invariant
            index <= keys@.len(),
            out@ == stale_releases(keys@.take(index as int), mask),
        decreases keys@.len() - index,
    {
        proof {
            assert(keys@.take(index + 1).drop_last() =~= keys@.take(index as int));
        }
        if let Some(family) = modifier_mask_for_key(keys[index]) {
            if mask & family == 0 {
                out.push((keys[index], false));
            }
        }
        index += 1;
    }
    assert(keys@.take(keys@.len() as int) =~= keys@);
    push_missing(keys, mask, SHIFT_MODIFIER_MASK, 0x10, &mut out);
    push_missing(keys, mask, CONTROL_MODIFIER_MASK, 0x11, &mut out);
    push_missing(keys, mask, ALT_MODIFIER_MASK, 0x12, &mut out);
    push_missing(keys, mask, META_MODIFIER_MASK, 0x5B, &mut out);
    out
}

/// Left, right and middle are the first, second and third bit of a button mask,
/// and a drag belongs to the first of them that is held.
pub proof fn law_buttons_have_their_bits(mask: u64)
    ensures
        button_bit(MouseButton::Left) == 1,
        button_bit(MouseButton::Right) == 2,
        button_bit(MouseButton::Middle) == 4,
        primary_button(mask) == Some(MouseButton::Left) <==> mask & 1 != 0,
        primary_button(mask) == Some(MouseButton::Right) <==> mask & 1 == 0 && mask & 2 != 0,
        primary_button(mask) == Some(MouseButton::Middle) <==> mask & 1 == 0 && mask & 2 == 0
            && mask & 4 != 0,
        primary_button(mask) is None <==> mask & 7 == 0,
{
    assert(mask & 7 == 0 <==> mask & 1 == 0 && mask & 2 == 0 && mask & 4 == 0) by (bit_vector);
}

/// The generic, the left and the right key of a modifier belong to one family:
/// shift, control, alt and the meta key, from the lowest bit up. No other key
/// belongs to any.
pub proof fn law_modifier_keys_have_their_family(key_code: u16)
    ensures
        modifier_family(key_code) == Some(1u8) <==> key_code == 0x10 || key_code == 0xA0 || key_code
            == 0xA1,
        modifier_family(key_code) == Some(2u8) <==> key_code == 0x11 || key_code == 0xA2 || key_code
            == 0xA3,
        modifier_family(key_code) == Some(4u8) <==> key_code == 0x12 || key_code == 0xA4 || key_code
            == 0xA5,
        modifier_family(key_code) == Some(8u8) <==> key_code == 0x5B || key_code == 0x5C,
        modifier_family(key_code) matches Some(family) ==> family == 1 || family == 2 || family == 4
            || family == 8,
{
}

/// A mask of held keys has the bit of a family exactly where one of the keys
/// belongs to it.
pub proof fn law_masks_show_the_held_families(keys: Seq<u16>, family: u8)
    requires
        family == 1 || family == 2 || family == 4 || family == 8,
    ensures
        families_mask(keys) & family != 0 <==> exists|i: int|
            0 <= i < keys.len() && modifier_family(#[trigger] keys[i]) == Some(family),
        families_mask(keys) < 16,
    decreases keys.len(),
{
    if keys.len() == 0 {
        assert(0u8 & family == 0) by (bit_vector);
    } else {
        let rest = keys.drop_last();
        law_masks_show_the_held_families(rest, family);
        let below = families_mask(rest);
        law_modifier_keys_have_their_family(keys.last());
        if let Some(own) = modifier_family(keys.last()) {
            assert((below | own) & family != 0 <==> below & family != 0 || own == family)
                by (bit_vector)
                requires
                    family == 1 || family == 2 || family == 4 || family == 8,
                    own == 1 || own == 2 || own == 4 || own == 8,
            ;
            assert(below | own < 16) by (bit_vector)
                requires
                    below < 16,
                    own == 1 || own == 2 || own == 4 || own == 8,
            ;
        }
        if below & family != 0 {
            let i = choose|i: int|
                0 <= i < rest.len() && modifier_family(#[trigger] rest[i]) == Some(family);
            assert(keys[i] == rest[i]);
        }
        if exists|i: int| 0 <= i < keys.len() && modifier_family(#[trigger] keys[i]) == Some(family)
            && i != keys.len() - 1 {
            let i = choose|i: int|
                0 <= i < keys.len() && modifier_family(#[trigger] keys[i]) == Some(family) && i
                    != keys.len() - 1;
            assert(rest[i] == keys[i]);
        }
        assert(keys[keys.len() - 1] == keys.last());
    }
}

proof fn lemma_stale_releases(keys: Seq<u16>, mask: u8, key_code: u16)
    ensures
        stale_releases(keys, mask).contains((key_code, false)) <==> keys.contains(key_code) && (
        modifier_family(key_code) matches Some(family) && mask & family == 0),
        forall|i: int|
            0 <= i < stale_releases(keys, mask).len() ==> !(#[trigger] stale_releases(
                keys,
                mask,
            )[i]).1,
    decreases keys.len(),
{
    let all = stale_releases(keys, mask);
    if keys.len() > 0 {
        lemma_stale_releases(keys.drop_last(), mask, key_code);
        let rest = stale_releases(keys.drop_last(), mask);
        assert(keys[keys.len() - 1] == keys.last());
        if rest.contains((key_code, false)) {
            let i = choose|i: int| 0 <= i < rest.len() && rest[i] == (key_code, false);
            assert(all[i] == rest[i]);
        }
        if keys.drop_last().contains(key_code) {
            let i = choose|i: int|
                0 <= i < keys.drop_last().len() && keys.drop_last()[i] == key_code;
            assert(keys[i] == key_code);
        }
        if keys.contains(key_code) && keys.last() != key_code {
            let i = choose|i: int| 0 <= i < keys.len() && keys[i] == key_code;
            assert(keys.drop_last()[i] == key_code);
        }
        if all.contains((key_code, false)) && !rest.contains((key_code, false)) {
            let i = choose|i: int| 0 <= i < all.len() && all[i] == (key_code, false);
            if i < rest.len() {
                assert(rest[i] == all[i]);
            }
        }
        if all.len() > rest.len() {
            assert(all[all.len() - 1] == (keys.last(), false));
        }
    }
}

/// To agree with a modifier mask, exactly the held modifiers go up that the mask
/// does not have, and a shift, control, alt or meta key goes down exactly where
/// the mask has its bit and none of its keys is held. All releases come first.
pub proof fn law_snapshot_moves_the_right_keys(keys: Seq<u16>, mask: u8, key_code: u16)
    ensures
        snapshot_transitions(keys, mask).contains((key_code, false)) <==> keys.contains(key_code)
            && (modifier_family(key_code) matches Some(family) && mask & family == 0),
        snapshot_transitions(keys, mask).contains((key_code, true)) <==> {
            ||| key_code == 0x10 && mask & 1 != 0 && !holds_family(keys, 1)
            ||| key_code == 0x11 && mask & 2 != 0 && !holds_family(keys, 2)
            ||| key_code == 0x12 && mask & 4 != 0 && !holds_family(keys, 4)
            ||| key_code == 0x5B && mask & 8 != 0 && !holds_family(keys, 8)
        },
        forall|i: int, j: int|
            0 <= i < j < snapshot_transitions(keys, mask).len() && (#[trigger] snapshot_transitions(
                keys,
                mask,
            )[i]).1 ==> (#[trigger] snapshot_transitions(keys, mask)[j]).1,
{
    lemma_stale_releases(keys, mask, key_code);
    let up = stale_releases(keys, mask);
    let shift = missing_press(keys, mask, SHIFT_MODIFIER_MASK, 0x10);
    let control = missing_press(keys, mask, CONTROL_MODIFIER_MASK, 0x11);
    let alt = missing_press(keys, mask, ALT_MODIFIER_MASK, 0x12);
    let meta = missing_press(keys, mask, META_MODIFIER_MASK, 0x5B);
    let all = snapshot_transitions(keys, mask);
    if up.contains((key_code, false)) {
        let i = choose|i: int| 0 <= i < up.len() && up[i] == (key_code, false);
        assert(all[i] == up[i]);
    }
    if all.contains((key_code, false)) {
        let i = choose|i: int| 0 <= i < all.len() && all[i] == (key_code, false);
        assert(i < up.len());
        assert(up[i] == all[i]);
    }
    if shift.len() > 0 {
        assert(all[up.len() as int] == (0x10u16, true));
    }
    if control.len() > 0 {
        assert(all[(up + shift).len() as int] == (0x11u16, true));
    }
    if alt.len() > 0 {
        assert(all[(up + shift + control).len() as int] == (0x12u16, true));
    }
    if meta.len() > 0 {
        assert(all[(up + shift + control + alt).len() as int] == (0x5Bu16, true));
    }
}

} // verus!
