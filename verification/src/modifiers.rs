//! Modifier keys across platforms: remapping them for a target, and keeping
//! the forwarded ones in step with the physical keyboard.

use vstd::prelude::*;

use crate::control::{keys_after, lemma_key_transition};
use crate::shared_input::{
    any_key_of_family, holds_family, modifier_family, modifier_mask_for_key, InputEvent,
    ALT_MODIFIER_MASK, CONTROL_MODIFIER_MASK, META_MODIFIER_MASK, SHIFT_MODIFIER_MASK,
};
use crate::text::same_text;

verus! {

/// The logical modifier group of a virtual key: 0 is control, 1 is alt, 2 is
/// the Windows or command key. Shift is never remapped and has none.
pub open spec fn modifier_group(vk: u16) -> Option<u8> {
    if modifier_family(vk) == Some(CONTROL_MODIFIER_MASK) {
        Some(0)
    } else if modifier_family(vk) == Some(ALT_MODIFIER_MASK) {
        Some(1)
    } else if modifier_family(vk) == Some(META_MODIFIER_MASK) {
        Some(2)
    } else {
        None
    }
}

pub fn classify_modifier_vk(vk: u16) -> (group: Option<u8>)
    ensures
        group == modifier_group(vk),
{
    match vk {
        0x11 | 0xA2 | 0xA3 => Some(0),
        0x12 | 0xA4 | 0xA5 => Some(1),
        0x5B | 0x5C => Some(2),
        _ => None,
    }
}

/// The key that a configured target name stands for; any other name keeps the
/// original key.
pub open spec fn target_key(name: Seq<char>) -> Option<u16> {
    if name == "control"@ {
        Some(0x11)
    } else if name == "alt"@ {
        Some(0x12)
    } else if name == "meta"@ {
        Some(0x5B)
    } else {
        None
    }
}

pub fn logical_target_vk(target: &str) -> (vk: Option<u16>)
    ensures
        vk == target_key(target@),
{
    if same_text(target, "control") {
        Some(0x11)
    } else if same_text(target, "alt") {
        Some(0x12)
    } else if same_text(target, "meta") {
        Some(0x5B)
    } else {
        None
    }
}

/// The name that is configured for a modifier group.
pub open spec fn configured_target(
    group: u8,
    control: Seq<char>,
    alt: Seq<char>,
    meta: Seq<char>,
) -> Seq<char> {
    if group == 0 {
        control
    } else if group == 1 {
        alt
    } else {
        meta
    }
}

/// The key that is sent in place of `vk`.
pub open spec fn remapped_key(
    vk: u16,
    control: Seq<char>,
    alt: Seq<char>,
    meta: Seq<char>,
) -> u16 {
    match modifier_group(vk) {
        Some(group) => match target_key(configured_target(group, control, alt, meta)) {
            Some(key) => key,
            None => vk,
        },
        None => vk,
    }
}

pub fn remap_modifier_vk(vk: u16, control: &str, alt: &str, meta: &str) -> (remapped: u16)
    ensures
        remapped == remapped_key(vk, control@, alt@, meta@),
{
    let target = match classify_modifier_vk(vk) {
        Some(0) => control,
        Some(1) => alt,
        Some(_) => meta,
        None => {
            return vk;
        },
    };
    match logical_target_vk(target) {
        Some(key) => key,
        None => vk,
    }
}

/// The bit that a held modifier contributes to a remapped mask.
pub open spec fn remapped_bit(mask: u8, source: u8, target: Seq<char>) -> u8 {
    if mask & source == 0 {
        0
    } else {
        match target_key(target) {
            Some(key) => match modifier_family(key) {
                Some(family) => family,
                None => source,
            },
            None => source,
        }
    }
}

/// The modifier mask that is sent in place of `mask`.
pub open spec fn remapped_mask(
    mask: u8,
    control: Seq<char>,
    alt: Seq<char>,
    meta: Seq<char>,
) -> u8 {
    (mask & SHIFT_MODIFIER_MASK) | remapped_bit(mask, CONTROL_MODIFIER_MASK, control)
        | remapped_bit(mask, ALT_MODIFIER_MASK, alt) | remapped_bit(mask, META_MODIFIER_MASK, meta)
}

fn remap_bit(mask: u8, source: u8, target: &str) -> (bit: u8)
    ensures
        bit == remapped_bit(mask, source, target@),
{
    if mask & source == 0 {
        0
    } else {
        match logical_target_vk(target) {
            Some(key) => match modifier_mask_for_key(key) {
                Some(family) => family,
                None => source,
            },
            None => source,
        }
    }
}

pub fn remap_modifier_mask(mask: u8, control: &str, alt: &str, meta: &str) -> (remapped: u8)
    ensures
        remapped == remapped_mask(mask, control@, alt@, meta@),
{
    (mask & SHIFT_MODIFIER_MASK) | remap_bit(mask, CONTROL_MODIFIER_MASK, control) | remap_bit(
        mask,
        ALT_MODIFIER_MASK,
        alt,
    ) | remap_bit(mask, META_MODIFIER_MASK, meta)
}

/// The physical modifier of a virtual key as a number: shift, control, alt and
/// the Windows key, from 0 up.
pub open spec fn physical_modifier(vk: u16) -> Option<u8> {
    match modifier_family(vk) {
        Some(family) => if family == SHIFT_MODIFIER_MASK {
            Some(0)
        } else if family == CONTROL_MODIFIER_MASK {
            Some(1)
        } else if family == ALT_MODIFIER_MASK {
            Some(2)
        } else {
            Some(3)
        },
        None => None,
    }
}

pub fn windows_modifier_family(vk: u16) -> (family: Option<u8>)
    ensures
        family == physical_modifier(vk),
{
    match vk {
        0x10 | 0xA0 | 0xA1 => Some(0),
        0x11 | 0xA2 | 0xA3 => Some(1),
        0x12 | 0xA4 | 0xA5 => Some(2),
        0x5B | 0x5C => Some(3),
        _ => None,
    }
}

/// The keys of one family, each once, in the order of their first occurrence.
pub open spec fn distinct_of_family(keys: Seq<u16>, family: u8) -> Seq<u16>
    decreases keys.len(),
{
    if keys.len() == 0 {
        Seq::empty()
    } else {
        let rest = distinct_of_family(keys.drop_last(), family);
        if modifier_family(keys.last()) == Some(family) && !rest.contains(keys.last()) {
            rest.push(keys.last())
        } else {
            rest
        }
    }
}

/// The physically held keys of a family of which nothing was forwarded.
pub open spec fn unforwarded(physical: Seq<u16>, forwarded: Seq<u16>, family: u8) -> Seq<u16> {
    if holds_family(forwarded, family) {
        Seq::empty()
    } else {
        distinct_of_family(physical, family)
    }
}

/// The keys whose press the target has missed.
pub open spec fn missed_presses(physical: Seq<u16>, forwarded: Seq<u16>) -> Seq<u16> {
    unforwarded(physical, forwarded, SHIFT_MODIFIER_MASK) + unforwarded(
        physical,
        forwarded,
        CONTROL_MODIFIER_MASK,
    ) + unforwarded(physical, forwarded, ALT_MODIFIER_MASK) + unforwarded(
        physical,
        forwarded,
        META_MODIFIER_MASK,
    )
}

/// The given keys as key events.
pub open spec fn key_events(keys: Seq<u16>, down: bool) -> Seq<InputEvent> {
    keys.map_values(|key_code: u16| InputEvent::Key { key_code, down })
}

fn contains_key_code(keys: &Vec<u16>, key_code: u16) -> (contains: bool)
    ensures
        contains == keys@.contains(key_code),
{
    let mut index: usize = 0;
    while index < keys.len()
        invariant
            index <= keys@.len(),
            forall|i: int| 0 <= i < index ==> keys@[i] != key_code,
        decreases keys@.len() - index,
    {
        if keys[index] == key_code {
            return true;
        }
        index += 1;
    }
    false
}

fn push_unforwarded(physical: &[u16], forwarded: &[u16], family: u8, events: &mut Vec<InputEvent>)
    ensures
        final(events)@ == old(events)@ + key_events(
            unforwarded(physical@, forwarded@, family),
            true,
        ),
{
    let ghost before = events@;
    let mut keys: Vec<u16> = Vec::new();
    if any_key_of_family(forwarded, family) {
        assert(events@ =~= before + key_events(Seq::empty(), true));
        return;
    }
    let mut index: usize = 0;
    assert(physical@.take(0) =~= Seq::<u16>::empty());
    assert(events@ =~= before + key_events(Seq::empty(), true));
    while index < physical.len()
        invariant
            index <= physical@.len(),
            keys@ == distinct_of_family(physical@.take(index as int), family),
            events@ == before + key_events(keys@, true),
        decreases physical@.len() - index,
    {
        proof {
            assert(physical@.take(index + 1).drop_last() =~= physical@.take(index as int));
        }
        let key_code: u16 = physical[index];
        let ghost so_far = keys@;
        if modifier_mask_for_key(key_code) == Some(family) && !contains_key_code(&keys, key_code) {
            keys.push(key_code);
            events.push(InputEvent::Key { key_code, down: true });
            proof {
                assert(key_events(keys@, true) =~= key_events(so_far, true).push(
                    InputEvent::Key { key_code, down: true },
                ));
                assert(events@ =~= before + key_events(keys@, true));
            }
        }
        index += 1;
    }
    assert(physical@.take(physical@.len() as int) =~= physical@);
}

/// The presses that bring the target up to the physical keyboard. Nothing is
/// released: an empty reading may only mean that the system swallowed the key.
pub fn reconcile_windows_modifier_events(
    physical_down: &[u16],
    forwarded_pressed: &[u16],
) -> (presses: Vec<InputEvent>)
    ensures
        presses@ == key_events(missed_presses(physical_down@, forwarded_pressed@), true),
{
    let mut presses: Vec<InputEvent> = Vec::new();
    push_unforwarded(physical_down, forwarded_pressed, SHIFT_MODIFIER_MASK, &mut presses);
    push_unforwarded(physical_down, forwarded_pressed, CONTROL_MODIFIER_MASK, &mut presses);
    push_unforwarded(physical_down, forwarded_pressed, ALT_MODIFIER_MASK, &mut presses);
    push_unforwarded(physical_down, forwarded_pressed, META_MODIFIER_MASK, &mut presses);
    assert(presses@ =~= key_events(missed_presses(physical_down@, forwarded_pressed@), true));
    presses
}

/// The forwarded modifiers that are physically up.
pub open spec fn stale_forwarded(physical: Seq<u16>, forwarded: Seq<u16>) -> Seq<u16>
    decreases forwarded.len(),
{
    if forwarded.len() == 0 {
        Seq::empty()
    } else {
        let rest = stale_forwarded(physical, forwarded.drop_last());
        match modifier_family(forwarded.last()) {
            Some(family) if !holds_family(physical, family) => rest.push(forwarded.last()),
            _ => rest,
        }
    }
}

/// The transitions that make the target agree with an authoritative reading of
/// the physical keyboard: releases first, then missed presses.
pub fn reconcile_windows_authoritative_modifier_events(
    physical_down: &[u16],
    forwarded_pressed: &[u16],
) -> (transitions: Vec<InputEvent>)
    ensures
        transitions@ == key_events(stale_forwarded(physical_down@, forwarded_pressed@), false)
            + key_events(missed_presses(physical_down@, forwarded_pressed@), true),
{
    let mut transitions: Vec<InputEvent> = Vec::new();
    let ghost mut released: Seq<u16> = Seq::empty();
    let mut index: usize = 0;
    assert(forwarded_pressed@.take(0) =~= Seq::<u16>::empty());
    assert(transitions@ =~= key_events(Seq::empty(), false));
    while index < forwarded_pressed.len()
        invariant
            index <= forwarded_pressed@.len(),
            released == stale_forwarded(physical_down@, forwarded_pressed@.take(index as int)),
            transitions@ == key_events(released, false),
        decreases forwarded_pressed@.len() - index,
    {
        proof {
            assert(forwarded_pressed@.take(index + 1).drop_last() =~= forwarded_pressed@.take(
                index as int,
            ));
        }
        let key_code: u16 = forwarded_pressed[index];
        if let Some(family) = modifier_mask_for_key(key_code) {
            if !any_key_of_family(physical_down, family) {
                transitions.push(InputEvent::Key { key_code, down: false });
                proof {
                    let so_far = released;
                    released = released.push(key_code);
                    assert(key_events(released, false) =~= key_events(so_far, false).push(
                        InputEvent::Key { key_code, down: false },
                    ));
                }
            }
        }
        index += 1;
    }
    assert(forwarded_pressed@.take(forwarded_pressed@.len() as int) =~= forwarded_pressed@);
    let mut presses = reconcile_windows_modifier_events(physical_down, forwarded_pressed);
    transitions.append(&mut presses);
    transitions
}

/// Remapping a mask never touches shift and invents no further bits.
pub proof fn law_remap_keeps_shift(mask: u8, control: Seq<char>, alt: Seq<char>, meta: Seq<char>)
    ensures
        remapped_mask(mask, control, alt, meta) & SHIFT_MODIFIER_MASK == mask
            & SHIFT_MODIFIER_MASK,
        remapped_mask(mask, control, alt, meta) <= 15,
{
    let c = remapped_bit(mask, CONTROL_MODIFIER_MASK, control);
    let a = remapped_bit(mask, ALT_MODIFIER_MASK, alt);
    let m = remapped_bit(mask, META_MODIFIER_MASK, meta);
    assert(((mask & 1) | c | a | m) & 1 == mask & 1 && ((mask & 1) | c | a | m) <= 15)
        by (bit_vector)
        requires
            c == 0 || c == 2 || c == 4 || c == 8,
            a == 0 || a == 2 || a == 4 || a == 8,
            m == 0 || m == 2 || m == 4 || m == 8,
    ;
}

/// Swapping control and meta twice gives every mask back.
pub proof fn law_swap_remap_is_an_involution(mask: u8, alt: Seq<char>)
    requires
        mask <= 15,
        target_key(alt) is None,
    ensures
        remapped_mask(
            remapped_mask(mask, "meta"@, alt, "control"@),
            "meta"@,
            alt,
            "control"@,
        ) == mask,
{
    reveal_strlit("meta");
    reveal_strlit("control");
    reveal_strlit("alt");
    assert("meta"@.len() != "control"@.len());
    assert("meta"@.len() != "alt"@.len());
    let c: u8 = if mask & 2 == 0 { 0 } else { 8 };
    let a: u8 = if mask & 4 == 0 { 0 } else { 4 };
    let m: u8 = if mask & 8 == 0 { 0 } else { 2 };
    let once: u8 = (mask & 1) | c | a | m;
    assert(once == remapped_mask(mask, "meta"@, alt, "control"@));
    let c2: u8 = if once & 2 == 0 { 0 } else { 8 };
    let a2: u8 = if once & 4 == 0 { 0 } else { 4 };
    let m2: u8 = if once & 8 == 0 { 0 } else { 2 };
    assert(((once & 1) | c2 | a2 | m2) == mask) by (bit_vector)
        requires
            mask <= 15,
            c == if mask & 2 == 0 { 0u8 } else { 8u8 },
            a == if mask & 4 == 0 { 0u8 } else { 4u8 },
            m == if mask & 8 == 0 { 0u8 } else { 2u8 },
            once == (mask & 1) | c | a | m,
            c2 == if once & 2 == 0 { 0u8 } else { 8u8 },
            a2 == if once & 4 == 0 { 0u8 } else { 4u8 },
            m2 == if once & 8 == 0 { 0u8 } else { 2u8 },
    ;
}

/// The mask of a single modifier key is remapped to the mask of its remapped
/// key, so a key event and the snapshot beside it always agree.
pub proof fn law_key_and_mask_remap_agree(
    vk: u16,
    control: Seq<char>,
    alt: Seq<char>,
    meta: Seq<char>,
)
    requires
        modifier_family(vk) is Some,
    ensures
        Some(remapped_mask(modifier_family(vk)->0, control, alt, meta)) == modifier_family(
            remapped_key(vk, control, alt, meta),
        ),
{
    assert(1u8 & 1u8 == 1 && 1u8 & 2u8 == 0 && 1u8 & 4u8 == 0 && 1u8 & 8u8 == 0 && 2u8 & 1u8 == 0
        && 2u8 & 2u8 == 2 && 2u8 & 4u8 == 0 && 2u8 & 8u8 == 0 && 4u8 & 1u8 == 0 && 4u8 & 2u8 == 0
        && 4u8 & 4u8 == 4 && 4u8 & 8u8 == 0 && 8u8 & 1u8 == 0 && 8u8 & 2u8 == 0 && 8u8 & 4u8 == 0
        && 8u8 & 8u8 == 8) by (bit_vector);
    let c = remapped_bit(modifier_family(vk)->0, CONTROL_MODIFIER_MASK, control);
    let a = remapped_bit(modifier_family(vk)->0, ALT_MODIFIER_MASK, alt);
    let m = remapped_bit(modifier_family(vk)->0, META_MODIFIER_MASK, meta);
    assert(1u8 | 0 | 0 | 0 == 1 && 0u8 | c | 0 | 0 == c && 0u8 | 0 | a | 0 == a && 0u8 | 0 | 0 | m
        == m) by (bit_vector);
}

/// A family that is held physically, or of which something was forwarded, is
/// never pressed and released in one reconciliation.
pub proof fn law_reconciliation_does_not_flap(physical: Seq<u16>, forwarded: Seq<u16>, family: u8)
    ensures
        holds_family(forwarded, family) ==> unforwarded(physical, forwarded, family).len() == 0,
        holds_family(physical, family) ==> !holds_family(
            stale_forwarded(physical, forwarded),
            family,
        ),
    decreases forwarded.len(),
{
    if forwarded.len() > 0 && holds_family(physical, family) {
        law_reconciliation_does_not_flap(physical, forwarded.drop_last(), family);
        let rest = stale_forwarded(physical, forwarded.drop_last());
        let all = stale_forwarded(physical, forwarded);
        if holds_family(all, family) {
            let i = choose|i: int|
                0 <= i < all.len() && modifier_family(#[trigger] all[i]) == Some(family);
            if i < rest.len() {
                assert(modifier_family(rest[i]) == Some(family));
            }
        }
    }
}

proof fn lemma_bit_of_union(left: u8, right: u8, source: u8, target: Seq<char>)
    ensures
        remapped_bit(left | right, source, target) == remapped_bit(left, source, target)
            | remapped_bit(right, source, target),
{
    assert((left | right) & source == 0 <==> left & source == 0 && right & source == 0)
        by (bit_vector);
    let ours = remapped_bit(left, source, target);
    let theirs = remapped_bit(right, source, target);
    assert(ours | 0 == ours && 0 | theirs == theirs && ours | ours == ours) by (bit_vector);
}

/// Modifiers are remapped one by one: the mask of two sets together is the two
/// remapped masks together.
pub proof fn law_remap_joins_masks(
    left: u8,
    right: u8,
    control: Seq<char>,
    alt: Seq<char>,
    meta: Seq<char>,
)
    ensures
        remapped_mask(left | right, control, alt, meta) == remapped_mask(left, control, alt, meta)
            | remapped_mask(right, control, alt, meta),
{
    lemma_bit_of_union(left, right, CONTROL_MODIFIER_MASK, control);
    lemma_bit_of_union(left, right, ALT_MODIFIER_MASK, alt);
    lemma_bit_of_union(left, right, META_MODIFIER_MASK, meta);
    let c = remapped_bit(left, CONTROL_MODIFIER_MASK, control);
    let a = remapped_bit(left, ALT_MODIFIER_MASK, alt);
    let m = remapped_bit(left, META_MODIFIER_MASK, meta);
    let d = remapped_bit(right, CONTROL_MODIFIER_MASK, control);
    let b = remapped_bit(right, ALT_MODIFIER_MASK, alt);
    let n = remapped_bit(right, META_MODIFIER_MASK, meta);
    assert(((left | right) & 1) | (c | d) | (a | b) | (m | n) == ((left & 1) | c | a | m) | ((right
        & 1) | d | b | n)) by (bit_vector);
}

/// The held keys after the given keys went down or up.
pub open spec fn held_after(held: Seq<u16>, keys: Seq<u16>, down: bool) -> Seq<u16>
    decreases keys.len(),
{
    if keys.len() == 0 {
        held
    } else {
        keys_after(held_after(held, keys.drop_last(), down), keys.last(), down)
    }
}

proof fn lemma_held_after(held: Seq<u16>, keys: Seq<u16>, down: bool, key: u16)
    ensures
        held_after(held, keys, down).contains(key) == if keys.contains(key) {
            down
        } else {
            held.contains(key)
        },
    decreases keys.len(),
{
    if keys.len() > 0 {
        let front = keys.drop_last();
        lemma_held_after(held, front, down, key);
        lemma_key_transition(held_after(held, front, down), keys.last(), down, key);
        assert(keys.contains(key) <==> front.contains(key) || keys.last() == key) by {
            if keys.contains(key) {
                let i = choose|i: int| 0 <= i < keys.len() && keys[i] == key;
                if i < front.len() {
                    assert(front[i] == key);
                }
            }
            if front.contains(key) {
                let i = choose|i: int| 0 <= i < front.len() && front[i] == key;
                assert(keys[i] == key);
            }
            assert(keys[keys.len() - 1] == keys.last());
        }
    }
}

proof fn lemma_stale_forwarded(physical: Seq<u16>, forwarded: Seq<u16>, key: u16)
    ensures
        stale_forwarded(physical, forwarded).contains(key) == (forwarded.contains(key)
            && (modifier_family(key) matches Some(family) && !holds_family(physical, family))),
    decreases forwarded.len(),
{
    if forwarded.len() > 0 {
        let front = forwarded.drop_last();
        let rest = stale_forwarded(physical, front);
        let all = stale_forwarded(physical, forwarded);
        lemma_stale_forwarded(physical, front, key);
        assert(forwarded.contains(key) <==> front.contains(key) || forwarded.last() == key) by {
            if forwarded.contains(key) {
                let i = choose|i: int| 0 <= i < forwarded.len() && forwarded[i] == key;
                if i < front.len() {
                    assert(front[i] == key);
                }
            }
            if front.contains(key) {
                let i = choose|i: int| 0 <= i < front.len() && front[i] == key;
                assert(forwarded[i] == key);
            }
            assert(forwarded[forwarded.len() - 1] == forwarded.last());
        }
        assert(all == rest || all == rest.push(forwarded.last()));
        assert(rest.push(forwarded.last()).contains(key) <==> rest.contains(key)
            || forwarded.last() == key) by {
            let pushed = rest.push(forwarded.last());
            assert(pushed[rest.len() as int] == forwarded.last());
            if rest.contains(key) {
                let i = choose|i: int| 0 <= i < rest.len() && rest[i] == key;
                assert(pushed[i] == key);
            }
            if pushed.contains(key) {
                let i = choose|i: int| 0 <= i < pushed.len() && pushed[i] == key;
                if i < rest.len() {
                    assert(rest[i] == key);
                }
            }
        }
    }
}

proof fn lemma_distinct_of_family(keys: Seq<u16>, family: u8)
    ensures
        holds_family(keys, family) ==> distinct_of_family(keys, family).len() > 0,
        forall|i: int|
            0 <= i < distinct_of_family(keys, family).len() ==> modifier_family(
                #[trigger] distinct_of_family(keys, family)[i],
            ) == Some(family) && keys.contains(distinct_of_family(keys, family)[i]),
    decreases keys.len(),
{
    if keys.len() > 0 {
        let front = keys.drop_last();
        let rest = distinct_of_family(front, family);
        let all = distinct_of_family(keys, family);
        lemma_distinct_of_family(front, family);
        assert forall|i: int| 0 <= i < all.len() implies modifier_family(#[trigger] all[i]) == Some(
            family,
        ) && keys.contains(all[i]) by {
            if i < rest.len() {
                assert(front.contains(rest[i]));
                let j = choose|j: int| 0 <= j < front.len() && front[j] == rest[i];
                assert(keys[j] == rest[i]);
            } else {
                assert(keys[keys.len() - 1] == all[i]);
            }
        }
        if holds_family(keys, family) && !holds_family(front, family) {
            let i = choose|i: int|
                0 <= i < keys.len() && modifier_family(#[trigger] keys[i]) == Some(family);
            if i < front.len() {
                assert(modifier_family(front[i]) == Some(family));
            }
            assert(modifier_family(keys.last()) == Some(family));
            if rest.contains(keys.last()) {
                assert(rest.len() > 0);
            }
        }
    }
}

/// The missed presses of one family are those that nothing was forwarded of.
proof fn lemma_missed_presses(physical: Seq<u16>, forwarded: Seq<u16>, key: u16, family: u8)
    requires
        modifier_family(key) == Some(family),
    ensures
        missed_presses(physical, forwarded).contains(key) == unforwarded(
            physical,
            forwarded,
            family,
        ).contains(key),
{
    let shift = unforwarded(physical, forwarded, SHIFT_MODIFIER_MASK);
    let control = unforwarded(physical, forwarded, CONTROL_MODIFIER_MASK);
    let alt = unforwarded(physical, forwarded, ALT_MODIFIER_MASK);
    let meta = unforwarded(physical, forwarded, META_MODIFIER_MASK);
    lemma_distinct_of_family(physical, SHIFT_MODIFIER_MASK);
    lemma_distinct_of_family(physical, CONTROL_MODIFIER_MASK);
    lemma_distinct_of_family(physical, ALT_MODIFIER_MASK);
    lemma_distinct_of_family(physical, META_MODIFIER_MASK);
    vstd::seq_lib::lemma_seq_concat_contains_all_elements(shift, control, key);
    vstd::seq_lib::lemma_seq_concat_contains_all_elements(shift + control, alt, key);
    vstd::seq_lib::lemma_seq_concat_contains_all_elements(shift + control + alt, meta, key);
}

/// After an authoritative reconciliation the target holds a modifier exactly
/// where the physical keyboard does.
pub proof fn law_authoritative_reconciliation_converges(
    physical: Seq<u16>,
    forwarded: Seq<u16>,
    family: u8,
)
    ensures
        holds_family(
            held_after(
                held_after(forwarded, stale_forwarded(physical, forwarded), false),
                missed_presses(physical, forwarded),
                true,
            ),
            family,
        ) == holds_family(physical, family),
{
    let stale = stale_forwarded(physical, forwarded);
    let missed = missed_presses(physical, forwarded);
    let released = held_after(forwarded, stale, false);
    let held = held_after(released, missed, true);
    lemma_distinct_of_family(physical, family);
    if holds_family(held, family) {
        let i = choose|i: int|
            0 <= i < held.len() && modifier_family(#[trigger] held[i]) == Some(family);
        let key = held[i];
        assert(held.contains(key));
        lemma_held_after(released, missed, true, key);
        lemma_held_after(forwarded, stale, false, key);
        lemma_stale_forwarded(physical, forwarded, key);
        lemma_missed_presses(physical, forwarded, key, family);
        if missed.contains(key) {
            let j = choose|j: int| 0 <= j < physical.len() && physical[j] == key;
            assert(modifier_family(physical[j]) == Some(family));
        }
    }
    if holds_family(physical, family) {
        let key = if holds_family(forwarded, family) {
            forwarded[choose|i: int|
                0 <= i < forwarded.len() && modifier_family(#[trigger] forwarded[i]) == Some(
                    family,
                )]
        } else {
            distinct_of_family(physical, family)[0]
        };
        lemma_held_after(released, missed, true, key);
        lemma_held_after(forwarded, stale, false, key);
        lemma_stale_forwarded(physical, forwarded, key);
        lemma_missed_presses(physical, forwarded, key, family);
        assert(held.contains(key));
        let j = choose|j: int| 0 <= j < held.len() && held[j] == key;
        assert(modifier_family(held[j]) == Some(family));
    }
}

/// A configured name stands for the generic key of its modifier: control, alt
/// and meta have one, every other name keeps the key that was pressed.
pub proof fn law_names_stand_for_their_modifier(name: Seq<char>)
    ensures
        target_key(name) == Some(0x11u16) <==> name == "control"@,
        target_key(name) == Some(0x12u16) <==> name == "alt"@,
        target_key(name) == Some(0x5Bu16) <==> name == "meta"@,
        target_key(name) is None <==> name != "control"@ && name != "alt"@ && name != "meta"@,
{
    reveal_strlit("control");
    reveal_strlit("alt");
    reveal_strlit("meta");
    assert("control"@.len() == 7 && "alt"@.len() == 3 && "meta"@.len() == 4);
}

/// A control key is sent as what is configured for control, an alt key as what
/// is configured for alt, a Windows or command key as what is configured for
/// meta, the left one like the right one. Shift and all other keys are sent as
/// they are.
pub proof fn law_modifiers_are_sent_as_configured(
    vk: u16,
    control: Seq<char>,
    alt: Seq<char>,
    meta: Seq<char>,
)
    ensures
        ({
            let name = if vk == 0x11 || vk == 0xA2 || vk == 0xA3 {
                Some(control)
            } else if vk == 0x12 || vk == 0xA4 || vk == 0xA5 {
                Some(alt)
            } else if vk == 0x5B || vk == 0x5C {
                Some(meta)
            } else {
                None
            };
            let sent = remapped_key(vk, control, alt, meta);
            &&& name is None ==> sent == vk
            &&& name == Some("control"@) ==> sent == 0x11
            &&& name == Some("alt"@) ==> sent == 0x12
            &&& name == Some("meta"@) ==> sent == 0x5B
            &&& name matches Some(name) ==> name != "control"@ && name != "alt"@ && name != "meta"@
                ==> sent == vk
        }),
{
    reveal_strlit("control");
    reveal_strlit("alt");
    reveal_strlit("meta");
    assert("control"@.len() == 7 && "alt"@.len() == 3 && "meta"@.len() == 4);
}

/// The physical modifiers are counted from shift over control and alt to the
/// Windows key, and the renamed ones from control over alt to the Windows key.
pub proof fn law_modifiers_are_counted_in_order(vk: u16)
    ensures
        physical_modifier(vk) == Some(0u8) <==> vk == 0x10 || vk == 0xA0 || vk == 0xA1,
        physical_modifier(vk) == Some(1u8) <==> vk == 0x11 || vk == 0xA2 || vk == 0xA3,
        physical_modifier(vk) == Some(2u8) <==> vk == 0x12 || vk == 0xA4 || vk == 0xA5,
        physical_modifier(vk) == Some(3u8) <==> vk == 0x5B || vk == 0x5C,
        modifier_group(vk) == Some(0u8) <==> vk == 0x11 || vk == 0xA2 || vk == 0xA3,
        modifier_group(vk) == Some(1u8) <==> vk == 0x12 || vk == 0xA4 || vk == 0xA5,
        modifier_group(vk) == Some(2u8) <==> vk == 0x5B || vk == 0x5C,
        modifier_group(vk) is None <==> vk != 0x11 && vk != 0x12 && vk != 0x5B && vk != 0x5C && !(
        0xA2 <= vk <= 0xA5),
{
}

proof fn lemma_distinct_holds_all(keys: Seq<u16>, family: u8, key: u16)
    ensures
        distinct_of_family(keys, family).contains(key) <==> keys.contains(key) && modifier_family(
            key,
        ) == Some(family),
        distinct_of_family(keys, family).no_duplicates(),
    decreases keys.len(),
{
    let all = distinct_of_family(keys, family);
    if keys.len() > 0 {
        let rest = distinct_of_family(keys.drop_last(), family);
        lemma_distinct_holds_all(keys.drop_last(), family, key);
        assert(keys[keys.len() - 1] == keys.last());
        if keys.contains(key) && key != keys.last() {
            let i = choose|i: int| 0 <= i < keys.len() && keys[i] == key;
            assert(keys.drop_last()[i] == key);
        }
        if keys.drop_last().contains(key) {
            let i = choose|i: int| 0 <= i < keys.drop_last().len() && keys.drop_last()[i] == key;
            assert(keys[i] == key);
        }
        if rest.contains(key) {
            let i = choose|i: int| 0 <= i < rest.len() && rest[i] == key;
            assert(all[i] == key);
        }
        if all.contains(key) && !rest.contains(key) {
            let i = choose|i: int| 0 <= i < all.len() && all[i] == key;
            if i < rest.len() {
                assert(rest[i] == key);
            }
        }
        if all.len() > rest.len() {
            assert(all[all.len() - 1] == keys.last());
            assert forall|i: int, j: int| 0 <= i < j < all.len() implies all[i] != all[j] by {
                if j == all.len() - 1 {
                    assert(rest[i] == all[i]);
                } else {
                    assert(rest[i] == all[i] && rest[j] == all[j]);
                }
            }
        }
    }
}

/// The target has missed exactly the presses of the physically held modifiers
/// of which it was sent none, and holds on to a forwarded modifier for too long
/// exactly where none of its kind is physically held.
pub proof fn law_missed_and_stale_keys_are_exact(
    physical: Seq<u16>,
    forwarded: Seq<u16>,
    key: u16,
)
    ensures
        missed_presses(physical, forwarded).contains(key) <==> physical.contains(key) && (
        modifier_family(key) matches Some(family) && forall|i: int|
            0 <= i < forwarded.len() ==> modifier_family(#[trigger] forwarded[i]) != Some(family)),
        stale_forwarded(physical, forwarded).contains(key) <==> forwarded.contains(key) && (
        modifier_family(key) matches Some(family) && forall|i: int|
            0 <= i < physical.len() ==> modifier_family(#[trigger] physical[i]) != Some(family)),
{
    lemma_stale_forwarded(physical, forwarded, key);
    let missed = missed_presses(physical, forwarded);
    if let Some(family) = modifier_family(key) {
        lemma_missed_presses(physical, forwarded, key, family);
        lemma_distinct_holds_all(physical, family, key);
    } else {
        lemma_distinct_holds_all(physical, SHIFT_MODIFIER_MASK, key);
        lemma_distinct_holds_all(physical, CONTROL_MODIFIER_MASK, key);
        lemma_distinct_holds_all(physical, ALT_MODIFIER_MASK, key);
        lemma_distinct_holds_all(physical, META_MODIFIER_MASK, key);
        let shift = unforwarded(physical, forwarded, SHIFT_MODIFIER_MASK);
        let control = unforwarded(physical, forwarded, CONTROL_MODIFIER_MASK);
        let alt = unforwarded(physical, forwarded, ALT_MODIFIER_MASK);
        let meta = unforwarded(physical, forwarded, META_MODIFIER_MASK);
        if missed.contains(key) {
            let i = choose|i: int| 0 <= i < missed.len() && missed[i] == key;
            if i < shift.len() {
                assert(shift[i] == key);
            } else if i < shift.len() + control.len() {
                assert(control[i - shift.len()] == key);
            } else if i < shift.len() + control.len() + alt.len() {
                assert(alt[i - shift.len() - control.len()] == key);
            } else {
                assert(meta[i - shift.len() - control.len() - alt.len()] == key);
            }
        }
    }
}

} // verus!
