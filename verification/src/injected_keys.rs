//! The keys that were injected as held on this machine, and how a snapshot of
//! the modifiers repairs them.

use vstd::prelude::*;

use crate::control::{holds_key, keys_after, law_held_keys_follow_transitions, remove_key};
use crate::shared_input::{
    holds_family, missing_press, modifier_family, modifier_mask_for_key, snapshot_transitions,
    stale_releases, ALT_MODIFIER_MASK, CONTROL_MODIFIER_MASK, META_MODIFIER_MASK,
    SHIFT_MODIFIER_MASK,
};

verus! {

/// The key that a generic modifier is held as: its left variant.
pub open spec fn sided_key(key_code: u16) -> u16 {
    if key_code == 0x10 {
        0xA0
    } else if key_code == 0x11 {
        0xA2
    } else if key_code == 0x12 {
        0xA4
    } else {
        key_code
    }
}

pub fn normalize_injected_modifier_vk(key_code: u16) -> (sided: u16)
    ensures
        sided == sided_key(key_code),
{
    match key_code {
        0x10 => 0xA0,
        0x11 => 0xA2,
        0x12 => 0xA4,
        _ => key_code,
    }
}

/// The keys of `keys` that belong to `family`.
pub open spec fn family_members(keys: Seq<u16>, family: Option<u8>) -> Seq<u16>
    decreases keys.len(),
{
    if keys.len() == 0 {
        Seq::empty()
    } else if modifier_family(keys.last()) == family {
        family_members(keys.drop_last(), family).push(keys.last())
    } else {
        family_members(keys.drop_last(), family)
    }
}

/// The held key that a release stands for: the key itself, or the only held key
/// of its family. A release may come under another name than its press.
pub open spec fn released_key(keys: Seq<u16>, key: u16) -> u16 {
    let members = family_members(keys, modifier_family(key));
    if !keys.contains(key) && members.len() == 1 {
        members[0]
    } else {
        key
    }
}

/// The held keys after a transition.
pub open spec fn injected_after(keys: Seq<u16>, key_code: u16, down: bool) -> Seq<u16> {
    let key = sided_key(key_code);
    if down || modifier_family(key) is None {
        keys_after(keys, key, down)
    } else {
        keys_after(keys, released_key(keys, key), false)
    }
}

/// The held key that a release stands for.
pub fn find_released_key(keys: &Vec<u16>, key: u16) -> (released: u16)
    ensures
        released == released_key(keys@, key),
{
    if holds_key(keys, key) {
        return key;
    }
    let family = modifier_mask_for_key(key);
    let mut found: Option<u16> = None;
    let mut several = false;
    let mut index: usize = 0;
    assert(keys@.take(0) =~= Seq::<u16>::empty());
    while index < keys.len()
        invariant
            index <= keys@.len(),
            family == modifier_family(key),
            ({
                let members = family_members(keys@.take(index as int), family);
                &&& several == (members.len() > 1)
                &&& match found {
                    Some(member) => members.len() > 0 && members[0] == member,
                    None => members.len() == 0,
                }
            }),
        decreases keys@.len() - index,
    {
        proof {
            assert(keys@.take(index + 1).drop_last() =~= keys@.take(index as int));
        }
        let held: u16 = keys[index];
        if modifier_mask_for_key(held) == family {
            if found.is_some() {
                several = true;
            } else {
                found = Some(held);
            }
        }
        index += 1;
    }
    assert(keys@.take(keys@.len() as int) =~= keys@);
    match found {
        Some(member) => {
            if several {
                key
            } else {
                member
            }
        },
        None => key,
    }
}

/// Records a transition of an injected key.
pub fn track_injected_key(keys: &mut Vec<u16>, key_code: u16, down: bool)
    ensures
        final(keys)@ == injected_after(old(keys)@, key_code, down),
{
    let key: u16 = normalize_injected_modifier_vk(key_code);
    if down {
        if !holds_key(keys, key) {
            keys.push(key);
        }
        return;
    }
    if modifier_mask_for_key(key).is_some() {
        let released: u16 = find_released_key(keys, key);
        remove_key(keys, released);
    } else {
        remove_key(keys, key);
    }
}

/// The held keys after several transitions.
pub open spec fn injected_after_all(keys: Seq<u16>, transitions: Seq<(u16, bool)>) -> Seq<u16>
    decreases transitions.len(),
{
    if transitions.len() == 0 {
        keys
    } else {
        let before = injected_after_all(keys, transitions.drop_last());
        injected_after(before, transitions.last().0, transitions.last().1)
    }
}

/// What holds of every set of injected keys: none is held twice, and none under
/// its generic name.
pub open spec fn well_tracked(keys: Seq<u16>) -> bool {
    &&& keys.no_duplicates()
    &&& forall|i: int| 0 <= i < keys.len() ==> sided_key(#[trigger] keys[i]) == keys[i]
}

proof fn lemma_members(keys: Seq<u16>, family: Option<u8>)
    ensures
        forall|i: int|
            0 <= i < family_members(keys, family).len() ==> keys.contains(
                #[trigger] family_members(keys, family)[i],
            ) && modifier_family(family_members(keys, family)[i]) == family,
    decreases keys.len(),
{
    if keys.len() > 0 {
        lemma_members(keys.drop_last(), family);
        let rest = family_members(keys.drop_last(), family);
        let all = family_members(keys, family);
        assert forall|i: int| 0 <= i < all.len() implies keys.contains(#[trigger] all[i])
            && modifier_family(all[i]) == family by {
            if i < rest.len() {
                assert(all[i] == rest[i]);
                assert(keys.drop_last().contains(rest[i]));
                let j = choose|j: int|
                    0 <= j < keys.drop_last().len() && keys.drop_last()[j] == rest[i];
                assert(keys[j] == rest[i]);
            } else {
                assert(keys[keys.len() - 1] == all[i]);
            }
        }
    }
}

/// A key is held after it went down, under its sided name; every transition
/// keeps the set well formed and leaves keys of other families alone.
pub proof fn law_injected_keys_stay_well_tracked(keys: Seq<u16>, key_code: u16, down: bool)
    requires
        well_tracked(keys),
    ensures
        well_tracked(injected_after(keys, key_code, down)),
        down ==> injected_after(keys, key_code, down).contains(sided_key(key_code)),
        !down ==> !injected_after(keys, key_code, down).contains(sided_key(key_code)),
        forall|key: u16|
            modifier_family(key) != modifier_family(sided_key(key_code)) && key != sided_key(
                key_code,
            ) ==> (#[trigger] injected_after(keys, key_code, down).contains(key) <==> keys.contains(
                key,
            )),
{
    let key = sided_key(key_code);
    let target = if down || modifier_family(key) is None {
        key
    } else {
        released_key(keys, key)
    };
    lemma_members(keys, modifier_family(key));
    law_held_keys_follow_transitions(keys, target, down);
    let after = injected_after(keys, key_code, down);
    assert(after == keys_after(keys, target, down));
    assert(sided_key(key) == key);
    assert forall|i: int| 0 <= i < after.len() implies sided_key(#[trigger] after[i]) == after[i] by {
        assert(after.contains(after[i]));
        if after[i] != target {
            assert(keys.contains(after[i]));
            let j = choose|j: int| 0 <= j < keys.len() && keys[j] == after[i];
            assert(sided_key(keys[j]) == keys[j]);
        } else if !down {
            assert(!after.contains(target));
        }
    }
}

proof fn lemma_holds_family(keys: Seq<u16>, family: u8)
    ensures
        holds_family(keys, family) <==> exists|key: u16|
            #[trigger] keys.contains(key) && modifier_family(key) == Some(family),
{
    if holds_family(keys, family) {
        let i = choose|i: int|
            0 <= i < keys.len() && modifier_family(#[trigger] keys[i]) == Some(family);
        assert(keys.contains(keys[i]));
    }
    if exists|key: u16| #[trigger] keys.contains(key) && modifier_family(key) == Some(family) {
        let key = choose|key: u16|
            #[trigger] keys.contains(key) && modifier_family(key) == Some(family);
        let i = choose|i: int| 0 <= i < keys.len() && keys[i] == key;
        assert(modifier_family(keys[i]) == Some(family));
    }
}

/// The keys left after the stale modifiers of a prefix of `keys` were released.
proof fn lemma_after_releases(keys: Seq<u16>, mask: u8, count: int)
    requires
        well_tracked(keys),
        0 <= count <= keys.len(),
    ensures
        ({
            let after = injected_after_all(keys, stale_releases(keys.take(count), mask));
            &&& well_tracked(after)
            &&& forall|key: u16|
                #[trigger] after.contains(key) <==> keys.contains(key) && !(keys.take(
                    count,
                ).contains(key) && is_stale(key, mask))
        }),
    decreases count,
{
    let prefix = keys.take(count);
    if count == 0 {
        assert(prefix =~= Seq::<u16>::empty());
        assert(stale_releases(prefix, mask) =~= Seq::<(u16, bool)>::empty());
        assert(injected_after_all(keys, stale_releases(prefix, mask)) == keys);
        assert forall|key: u16| !prefix.contains(key) by {}
    } else {
        let shorter = keys.take(count - 1);
        let key = keys[count - 1];
        assert(prefix.drop_last() =~= shorter);
        assert(prefix.last() == key);
        lemma_after_releases(keys, mask, count - 1);
        let before = injected_after_all(keys, stale_releases(shorter, mask));
        let after = injected_after_all(keys, stale_releases(prefix, mask));
        assert forall|other: u16|
            #![trigger prefix.contains(other)]
            prefix.contains(other) <==> shorter.contains(other) || other == key by {
            if prefix.contains(other) {
                let i = choose|i: int| 0 <= i < prefix.len() && prefix[i] == other;
                if i < count - 1 {
                    assert(shorter[i] == other);
                }
            }
            if shorter.contains(other) {
                let i = choose|i: int| 0 <= i < shorter.len() && shorter[i] == other;
                assert(prefix[i] == other);
            }
            assert(prefix[count - 1] == key);
        }
        if is_stale(key, mask) {
            let releases = stale_releases(prefix, mask);
            assert(releases =~= stale_releases(shorter, mask).push((key, false)));
            assert(releases.drop_last() =~= stale_releases(shorter, mask));
            assert(sided_key(key) == key);
            assert(!shorter.contains(key)) by {
                if shorter.contains(key) {
                    let i = choose|i: int| 0 <= i < shorter.len() && shorter[i] == key;
                    assert(keys[i] == keys[count - 1]);
                }
            }
            assert(keys.contains(key));
            assert(before.contains(key));
            law_injected_keys_stay_well_tracked(before, key, false);
            law_held_keys_follow_transitions(before, key, false);
            assert(after == keys_after(before, key, false));
        } else {
            assert(stale_releases(prefix, mask) =~= stale_releases(shorter, mask));
        }
    }
}

/// The key is a modifier that the mask does not ask for.
pub open spec fn is_stale(key: u16, mask: u8) -> bool {
    modifier_family(key) matches Some(family) && mask & family == 0
}

proof fn lemma_all_then_one(keys: Seq<u16>, first: Seq<(u16, bool)>, key: u16)
    ensures
        injected_after_all(keys, first + seq![(key, true)]) == injected_after(
            injected_after_all(keys, first),
            key,
            true,
        ),
        injected_after_all(keys, first + Seq::<(u16, bool)>::empty()) == injected_after_all(
            keys,
            first,
        ),
{
    let longer = first + seq![(key, true)];
    assert(longer.drop_last() =~= first);
    assert(first + Seq::<(u16, bool)>::empty() =~= first);
}

/// One missing press: its family is held afterwards, the others as before.
proof fn lemma_after_press(
    keys: Seq<u16>,
    transitions: Seq<(u16, bool)>,
    original: Seq<u16>,
    mask: u8,
    family: u8,
    key: u16,
)
    requires
        well_tracked(injected_after_all(keys, transitions)),
        modifier_family(key) == Some(family),
        modifier_family(sided_key(key)) == Some(family),
        sided_key(sided_key(key)) == sided_key(key),
    ensures
        ({
            let before = injected_after_all(keys, transitions);
            let press = missing_press(original, mask, family, key);
            let after = injected_after_all(keys, transitions + press);
            &&& well_tracked(after)
            &&& forall|other: u8|
                other != family ==> (#[trigger] holds_family(after, other) <==> holds_family(
                    before,
                    other,
                ))
            &&& holds_family(after, family) <==> holds_family(before, family) || (mask & family
                != 0 && !holds_family(original, family))
            &&& forall|other: u16|
                modifier_family(other) is None ==> (#[trigger] after.contains(other)
                    <==> before.contains(other))
        }),
{
    let before = injected_after_all(keys, transitions);
    let press = missing_press(original, mask, family, key);
    let after = injected_after_all(keys, transitions + press);
    lemma_all_then_one(keys, transitions, key);
    if mask & family != 0 && !holds_family(original, family) {
        assert(after == injected_after(before, key, true));
        law_injected_keys_stay_well_tracked(before, key, true);
        law_held_keys_follow_transitions(before, sided_key(key), true);
        assert(after == keys_after(before, sided_key(key), true));
        assert forall|other: u8| other != family implies (#[trigger] holds_family(after, other)
            <==> holds_family(before, other)) by {
            lemma_holds_family(after, other);
            lemma_holds_family(before, other);
            if holds_family(after, other) {
                let held = choose|k: u16|
                    #[trigger] after.contains(k) && modifier_family(k) == Some(other);
                assert(before.contains(held));
            }
            if holds_family(before, other) {
                let held = choose|k: u16|
                    #[trigger] before.contains(k) && modifier_family(k) == Some(other);
                assert(after.contains(held));
            }
        }
        lemma_holds_family(after, family);
        assert(after.contains(sided_key(key)));
    } else {
        assert(after == before);
    }
}

/// Repairing the injected keys by a snapshot makes the held modifiers exactly
/// those of the snapshot, whatever was held before, and touches no other key.
pub proof fn law_snapshot_repair_converges(keys: Seq<u16>, mask: u8)
    requires
        well_tracked(keys),
    ensures
        ({
            let after = injected_after_all(keys, snapshot_transitions(keys, mask));
            &&& well_tracked(after)
            &&& holds_family(after, SHIFT_MODIFIER_MASK) <==> mask & SHIFT_MODIFIER_MASK != 0
            &&& holds_family(after, CONTROL_MODIFIER_MASK) <==> mask & CONTROL_MODIFIER_MASK != 0
            &&& holds_family(after, ALT_MODIFIER_MASK) <==> mask & ALT_MODIFIER_MASK != 0
            &&& holds_family(after, META_MODIFIER_MASK) <==> mask & META_MODIFIER_MASK != 0
            &&& forall|key: u16|
                modifier_family(key) is None ==> (#[trigger] after.contains(key) <==> keys.contains(
                    key,
                ))
        }),
{
    let releases = stale_releases(keys, mask);
    assert(keys.take(keys.len() as int) =~= keys);
    lemma_after_releases(keys, mask, keys.len() as int);
    let released = injected_after_all(keys, releases);
    assert forall|family: u8|
        #![trigger holds_family(released, family)]
        holds_family(released, family) <==> holds_family(keys, family) && mask & family != 0 by {
        lemma_holds_family(released, family);
        lemma_holds_family(keys, family);
        if holds_family(released, family) {
            let key = choose|key: u16|
                #[trigger] released.contains(key) && modifier_family(key) == Some(family);
            assert(keys.contains(key));
        }
        if holds_family(keys, family) && mask & family != 0 {
            let key = choose|key: u16|
                #[trigger] keys.contains(key) && modifier_family(key) == Some(family);
            assert(released.contains(key));
        }
    }
    let shift = releases + missing_press(keys, mask, SHIFT_MODIFIER_MASK, 0x10);
    let control = shift + missing_press(keys, mask, CONTROL_MODIFIER_MASK, 0x11);
    let alt = control + missing_press(keys, mask, ALT_MODIFIER_MASK, 0x12);
    let meta = alt + missing_press(keys, mask, META_MODIFIER_MASK, 0x5B);
    lemma_after_press(keys, releases, keys, mask, SHIFT_MODIFIER_MASK, 0x10);
    lemma_after_press(keys, shift, keys, mask, CONTROL_MODIFIER_MASK, 0x11);
    lemma_after_press(keys, control, keys, mask, ALT_MODIFIER_MASK, 0x12);
    lemma_after_press(keys, alt, keys, mask, META_MODIFIER_MASK, 0x5B);
    assert(meta == snapshot_transitions(keys, mask));
    assert(holds_family(released, SHIFT_MODIFIER_MASK) <==> holds_family(keys, SHIFT_MODIFIER_MASK)
        && mask & SHIFT_MODIFIER_MASK != 0);
    assert(holds_family(released, CONTROL_MODIFIER_MASK) <==> holds_family(
        keys,
        CONTROL_MODIFIER_MASK,
    ) && mask & CONTROL_MODIFIER_MASK != 0);
    assert(holds_family(released, ALT_MODIFIER_MASK) <==> holds_family(keys, ALT_MODIFIER_MASK)
        && mask & ALT_MODIFIER_MASK != 0);
    assert(holds_family(released, META_MODIFIER_MASK) <==> holds_family(keys, META_MODIFIER_MASK)
        && mask & META_MODIFIER_MASK != 0);
}

/// A modifier without a side is injected as the left one; every other key keeps
/// its code.
pub proof fn law_modifiers_are_injected_on_the_left(key_code: u16)
    ensures
        key_code == 0x10 ==> sided_key(key_code) == 0xA0,
        key_code == 0x11 ==> sided_key(key_code) == 0xA2,
        key_code == 0x12 ==> sided_key(key_code) == 0xA4,
        !(0x10 <= key_code <= 0x12) ==> sided_key(key_code) == key_code,
        modifier_family(sided_key(key_code)) == modifier_family(key_code),
{
}

proof fn lemma_only_member(keys: Seq<u16>, family: Option<u8>, at: int)
    requires
        0 <= at < keys.len(),
        modifier_family(keys[at]) == family,
        forall|i: int|
            0 <= i < keys.len() && i != at ==> modifier_family(#[trigger] keys[i]) != family,
    ensures
        family_members(keys, family) == seq![keys[at]],
    decreases keys.len(),
{
    let rest = keys.drop_last();
    if at == keys.len() - 1 {
        lemma_no_member(rest, family);
        assert(family_members(rest, family).push(keys.last()) =~= seq![keys[at]]);
    } else {
        assert(rest[at] == keys[at]);
        assert(keys[keys.len() - 1] == keys.last());
        lemma_only_member(rest, family, at);
    }
}

proof fn lemma_no_member(keys: Seq<u16>, family: Option<u8>)
    requires
        forall|i: int| 0 <= i < keys.len() ==> modifier_family(#[trigger] keys[i]) != family,
    ensures
        family_members(keys, family) == Seq::<u16>::empty(),
    decreases keys.len(),
{
    if keys.len() > 0 {
        assert(keys[keys.len() - 1] == keys.last());
        lemma_no_member(keys.drop_last(), family);
    }
}

/// A release under any name of a modifier lets go of the one key of that
/// modifier that is held; where the named key is itself held, it is the one.
pub proof fn law_releases_find_their_press(keys: Seq<u16>, key_code: u16, at: int)
    requires
        0 <= at < keys.len(),
        modifier_family(key_code) is Some,
        modifier_family(keys[at]) == modifier_family(key_code),
        forall|i: int|
            0 <= i < keys.len() && i != at ==> modifier_family(#[trigger] keys[i])
                != modifier_family(key_code),
    ensures
        !injected_after(keys, key_code, false).contains(keys[at]),
        released_key(keys, sided_key(key_code)) == keys[at],
        forall|key: u16|
            key != keys[at] ==> (#[trigger] injected_after(keys, key_code, false).contains(key)
                <==> keys.contains(key)),
{
    let key = sided_key(key_code);
    let family = modifier_family(key);
    lemma_only_member(keys, family, at);
    assert(family_members(keys, family)[0] == keys[at]);
    if keys.contains(key) {
        let i = choose|i: int| 0 <= i < keys.len() && keys[i] == key;
        assert(i == at);
    }
    assert(keys.contains(keys[at]));
    assert forall|other: u16| #[trigger] injected_after(keys, key_code, false).contains(other)
        == (if other == keys[at] {
        false
    } else {
        keys.contains(other)
    }) by {
        crate::control::lemma_key_transition(keys, keys[at], false, other);
    }
}

} // verus!
