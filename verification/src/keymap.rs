//! Translation between macOS key codes and Windows virtual keys, which are
//! the wire format.

use vstd::prelude::*;

use crate::layout::{find_first, first_where, lemma_found, lemma_not_found};
use crate::shared_input::modifier_family;

verus! {

/// The virtual key of a macOS key code. Of a modifier it is the sided one.
pub open spec fn mac_vk(code: u16) -> Option<u16> {
    match code {
        0 => Some(0x41),
        1 => Some(0x53),
        2 => Some(0x44),
        3 => Some(0x46),
        4 => Some(0x48),
        5 => Some(0x47),
        6 => Some(0x5A),
        7 => Some(0x58),
        8 => Some(0x43),
        9 => Some(0x56),
        11 => Some(0x42),
        12 => Some(0x51),
        13 => Some(0x57),
        14 => Some(0x45),
        15 => Some(0x52),
        16 => Some(0x59),
        17 => Some(0x54),
        18 => Some(0x31),
        19 => Some(0x32),
        20 => Some(0x33),
        21 => Some(0x34),
        22 => Some(0x36),
        23 => Some(0x35),
        24 => Some(0xBB),
        25 => Some(0x39),
        26 => Some(0x37),
        27 => Some(0xBD),
        28 => Some(0x38),
        29 => Some(0x30),
        30 => Some(0xDD),
        31 => Some(0x4F),
        32 => Some(0x55),
        33 => Some(0xDB),
        34 => Some(0x49),
        35 => Some(0x50),
        36 => Some(0x0D),
        37 => Some(0x4C),
        38 => Some(0x4A),
        39 => Some(0xDE),
        40 => Some(0x4B),
        41 => Some(0xBA),
        42 => Some(0xDC),
        43 => Some(0xBC),
        44 => Some(0xBF),
        45 => Some(0x4E),
        46 => Some(0x4D),
        47 => Some(0xBE),
        48 => Some(0x09),
        49 => Some(0x20),
        50 => Some(0xC0),
        51 => Some(0x08),
        53 => Some(0x1B),
        54 => Some(0x5C),
        55 => Some(0x5B),
        56 => Some(0xA0),
        57 => Some(0x14),
        58 => Some(0xA4),
        59 => Some(0xA2),
        60 => Some(0xA1),
        61 => Some(0xA5),
        62 => Some(0xA3),
        63 => Some(0x5B),
        64 => Some(0x80),
        65 => Some(0x6E),
        67 => Some(0x6A),
        69 => Some(0x6B),
        71 => Some(0x90),
        75 => Some(0x6F),
        76 => Some(0x0D),
        78 => Some(0x6D),
        81 => Some(0x6D),
        82 => Some(0x60),
        83 => Some(0x61),
        84 => Some(0x62),
        85 => Some(0x63),
        86 => Some(0x64),
        87 => Some(0x65),
        88 => Some(0x66),
        89 => Some(0x67),
        91 => Some(0x68),
        92 => Some(0x69),
        96 => Some(0x74),
        97 => Some(0x75),
        98 => Some(0x76),
        99 => Some(0x72),
        100 => Some(0x77),
        101 => Some(0x78),
        103 => Some(0x7A),
        105 => Some(0x7C),
        106 => Some(0x7F),
        107 => Some(0x7D),
        109 => Some(0x79),
        111 => Some(0x7B),
        114 => Some(0x2D),
        115 => Some(0x24),
        116 => Some(0x21),
        117 => Some(0x2E),
        118 => Some(0x73),
        119 => Some(0x23),
        120 => Some(0x71),
        121 => Some(0x22),
        122 => Some(0x70),
        123 => Some(0x25),
        124 => Some(0x27),
        125 => Some(0x28),
        126 => Some(0x26),
        _ => None,
    }
}

pub fn mac_key_to_windows_vk(code: u16) -> (vk: Option<u16>)
    ensures
        vk == mac_vk(code),
{
    match code {
        0 => Some(0x41),
        1 => Some(0x53),
        2 => Some(0x44),
        3 => Some(0x46),
        4 => Some(0x48),
        5 => Some(0x47),
        6 => Some(0x5A),
        7 => Some(0x58),
        8 => Some(0x43),
        9 => Some(0x56),
        11 => Some(0x42),
        12 => Some(0x51),
        13 => Some(0x57),
        14 => Some(0x45),
        15 => Some(0x52),
        16 => Some(0x59),
        17 => Some(0x54),
        18 => Some(0x31),
        19 => Some(0x32),
        20 => Some(0x33),
        21 => Some(0x34),
        22 => Some(0x36),
        23 => Some(0x35),
        24 => Some(0xBB),
        25 => Some(0x39),
        26 => Some(0x37),
        27 => Some(0xBD),
        28 => Some(0x38),
        29 => Some(0x30),
        30 => Some(0xDD),
        31 => Some(0x4F),
        32 => Some(0x55),
        33 => Some(0xDB),
        34 => Some(0x49),
        35 => Some(0x50),
        36 => Some(0x0D),
        37 => Some(0x4C),
        38 => Some(0x4A),
        39 => Some(0xDE),
        40 => Some(0x4B),
        41 => Some(0xBA),
        42 => Some(0xDC),
        43 => Some(0xBC),
        44 => Some(0xBF),
        45 => Some(0x4E),
        46 => Some(0x4D),
        47 => Some(0xBE),
        48 => Some(0x09),
        49 => Some(0x20),
        50 => Some(0xC0),
        51 => Some(0x08),
        53 => Some(0x1B),
        54 => Some(0x5C),
        55 => Some(0x5B),
        56 => Some(0xA0),
        57 => Some(0x14),
        58 => Some(0xA4),
        59 => Some(0xA2),
        60 => Some(0xA1),
        61 => Some(0xA5),
        62 => Some(0xA3),
        63 => Some(0x5B),
        64 => Some(0x80),
        65 => Some(0x6E),
        67 => Some(0x6A),
        69 => Some(0x6B),
        71 => Some(0x90),
        75 => Some(0x6F),
        76 => Some(0x0D),
        78 => Some(0x6D),
        81 => Some(0x6D),
        82 => Some(0x60),
        83 => Some(0x61),
        84 => Some(0x62),
        85 => Some(0x63),
        86 => Some(0x64),
        87 => Some(0x65),
        88 => Some(0x66),
        89 => Some(0x67),
        91 => Some(0x68),
        92 => Some(0x69),
        96 => Some(0x74),
        97 => Some(0x75),
        98 => Some(0x76),
        99 => Some(0x72),
        100 => Some(0x77),
        101 => Some(0x78),
        103 => Some(0x7A),
        105 => Some(0x7C),
        106 => Some(0x7F),
        107 => Some(0x7D),
        109 => Some(0x79),
        111 => Some(0x7B),
        114 => Some(0x2D),
        115 => Some(0x24),
        116 => Some(0x21),
        117 => Some(0x2E),
        118 => Some(0x73),
        119 => Some(0x23),
        120 => Some(0x71),
        121 => Some(0x22),
        122 => Some(0x70),
        123 => Some(0x25),
        124 => Some(0x27),
        125 => Some(0x28),
        126 => Some(0x26),
        _ => None,
    }
}

/// Every macOS key code with the virtual keys it stands for. The generic
/// modifiers come before the left ones.
pub open spec fn key_pairs() -> Seq<(u16, u16)> {
    seq![
        (0u16, 0x41u16),
        (1u16, 0x53u16),
        (2u16, 0x44u16),
        (3u16, 0x46u16),
        (4u16, 0x48u16),
        (5u16, 0x47u16),
        (6u16, 0x5Au16),
        (7u16, 0x58u16),
        (8u16, 0x43u16),
        (9u16, 0x56u16),
        (11u16, 0x42u16),
        (12u16, 0x51u16),
        (13u16, 0x57u16),
        (14u16, 0x45u16),
        (15u16, 0x52u16),
        (16u16, 0x59u16),
        (17u16, 0x54u16),
        (18u16, 0x31u16),
        (19u16, 0x32u16),
        (20u16, 0x33u16),
        (21u16, 0x34u16),
        (22u16, 0x36u16),
        (23u16, 0x35u16),
        (24u16, 0xBBu16),
        (25u16, 0x39u16),
        (26u16, 0x37u16),
        (27u16, 0xBDu16),
        (28u16, 0x38u16),
        (29u16, 0x30u16),
        (30u16, 0xDDu16),
        (31u16, 0x4Fu16),
        (32u16, 0x55u16),
        (33u16, 0xDBu16),
        (34u16, 0x49u16),
        (35u16, 0x50u16),
        (36u16, 0x0Du16),
        (37u16, 0x4Cu16),
        (38u16, 0x4Au16),
        (39u16, 0xDEu16),
        (40u16, 0x4Bu16),
        (41u16, 0xBAu16),
        (42u16, 0xDCu16),
        (43u16, 0xBCu16),
        (44u16, 0xBFu16),
        (45u16, 0x4Eu16),
        (46u16, 0x4Du16),
        (47u16, 0xBEu16),
        (48u16, 0x09u16),
        (49u16, 0x20u16),
        (50u16, 0xC0u16),
        (51u16, 0x08u16),
        (53u16, 0x1Bu16),
        (54u16, 0x5Cu16),
        (55u16, 0x5Bu16),
        (56u16, 0x10u16),
        (56u16, 0xA0u16),
        (57u16, 0x14u16),
        (58u16, 0x12u16),
        (58u16, 0xA4u16),
        (59u16, 0x11u16),
        (59u16, 0xA2u16),
        (60u16, 0xA1u16),
        (61u16, 0xA5u16),
        (62u16, 0xA3u16),
        (63u16, 0x5Bu16),
        (64u16, 0x80u16),
        (65u16, 0x6Eu16),
        (67u16, 0x6Au16),
        (69u16, 0x6Bu16),
        (71u16, 0x90u16),
        (75u16, 0x6Fu16),
        (76u16, 0x0Du16),
        (78u16, 0x6Du16),
        (81u16, 0x6Du16),
        (82u16, 0x60u16),
        (83u16, 0x61u16),
        (84u16, 0x62u16),
        (85u16, 0x63u16),
        (86u16, 0x64u16),
        (87u16, 0x65u16),
        (88u16, 0x66u16),
        (89u16, 0x67u16),
        (91u16, 0x68u16),
        (92u16, 0x69u16),
        (96u16, 0x74u16),
        (97u16, 0x75u16),
        (98u16, 0x76u16),
        (99u16, 0x72u16),
        (100u16, 0x77u16),
        (101u16, 0x78u16),
        (103u16, 0x7Au16),
        (105u16, 0x7Cu16),
        (106u16, 0x7Fu16),
        (107u16, 0x7Du16),
        (109u16, 0x79u16),
        (111u16, 0x7Bu16),
        (114u16, 0x2Du16),
        (115u16, 0x24u16),
        (116u16, 0x21u16),
        (117u16, 0x2Eu16),
        (118u16, 0x73u16),
        (119u16, 0x23u16),
        (120u16, 0x71u16),
        (121u16, 0x22u16),
        (122u16, 0x70u16),
        (123u16, 0x25u16),
        (124u16, 0x27u16),
        (125u16, 0x28u16),
        (126u16, 0x26u16),
    ]
}

pub fn mac_key_to_windows_vk_pairs() -> (pairs: Vec<(u16, u16)>)
    ensures
        pairs@ == key_pairs(),
{
    let pairs: Vec<(u16, u16)> = vec![
        (0, 0x41),
        (1, 0x53),
        (2, 0x44),
        (3, 0x46),
        (4, 0x48),
        (5, 0x47),
        (6, 0x5A),
        (7, 0x58),
        (8, 0x43),
        (9, 0x56),
        (11, 0x42),
        (12, 0x51),
        (13, 0x57),
        (14, 0x45),
        (15, 0x52),
        (16, 0x59),
        (17, 0x54),
        (18, 0x31),
        (19, 0x32),
        (20, 0x33),
        (21, 0x34),
        (22, 0x36),
        (23, 0x35),
        (24, 0xBB),
        (25, 0x39),
        (26, 0x37),
        (27, 0xBD),
        (28, 0x38),
        (29, 0x30),
        (30, 0xDD),
        (31, 0x4F),
        (32, 0x55),
        (33, 0xDB),
        (34, 0x49),
        (35, 0x50),
        (36, 0x0D),
        (37, 0x4C),
        (38, 0x4A),
        (39, 0xDE),
        (40, 0x4B),
        (41, 0xBA),
        (42, 0xDC),
        (43, 0xBC),
        (44, 0xBF),
        (45, 0x4E),
        (46, 0x4D),
        (47, 0xBE),
        (48, 0x09),
        (49, 0x20),
        (50, 0xC0),
        (51, 0x08),
        (53, 0x1B),
        (54, 0x5C),
        (55, 0x5B),
        (56, 0x10),
        (56, 0xA0),
        (57, 0x14),
        (58, 0x12),
        (58, 0xA4),
        (59, 0x11),
        (59, 0xA2),
        (60, 0xA1),
        (61, 0xA5),
        (62, 0xA3),
        (63, 0x5B),
        (64, 0x80),
        (65, 0x6E),
        (67, 0x6A),
        (69, 0x6B),
        (71, 0x90),
        (75, 0x6F),
        (76, 0x0D),
        (78, 0x6D),
        (81, 0x6D),
        (82, 0x60),
        (83, 0x61),
        (84, 0x62),
        (85, 0x63),
        (86, 0x64),
        (87, 0x65),
        (88, 0x66),
        (89, 0x67),
        (91, 0x68),
        (92, 0x69),
        (96, 0x74),
        (97, 0x75),
        (98, 0x76),
        (99, 0x72),
        (100, 0x77),
        (101, 0x78),
        (103, 0x7A),
        (105, 0x7C),
        (106, 0x7F),
        (107, 0x7D),
        (109, 0x79),
        (111, 0x7B),
        (114, 0x2D),
        (115, 0x24),
        (116, 0x21),
        (117, 0x2E),
        (118, 0x73),
        (119, 0x23),
        (120, 0x71),
        (121, 0x22),
        (122, 0x70),
        (123, 0x25),
        (124, 0x27),
        (125, 0x28),
        (126, 0x26),
    ];
    assert(pairs@ =~= key_pairs());
    pairs
}

/// Whether a pair names the virtual key.
pub open spec fn stands_for(vk: u16) -> spec_fn((u16, u16)) -> bool {
    |pair: (u16, u16)| pair.1 == vk
}

/// The macOS key code of a virtual key: the first pair decides.
pub open spec fn mac_code(vk: u16) -> Option<u16> {
    match find_first(key_pairs(), stands_for(vk)) {
        Some(pair) => Some(pair.0),
        None => None,
    }
}

pub fn windows_vk_to_mac_key(code: u16) -> (mac: Option<u16>)
    ensures
        mac == mac_code(code),
{
    let pairs = mac_key_to_windows_vk_pairs();
    let ghost holds = stands_for(code);
    let mut index: usize = 0;
    while index < pairs.len()
        invariant
            index <= pairs@.len(),
            pairs@ == key_pairs(),
            holds == stands_for(code),
            forall|i: int| 0 <= i < index ==> !holds(#[trigger] pairs@[i]),
        decreases pairs@.len() - index,
    {
        if pairs[index].1 == code {
            proof {
                lemma_found(pairs@, holds, index as int);
            }
            return Some(pairs[index].0);
        }
        index += 1;
    }
    proof {
        lemma_not_found(pairs@, holds);
    }
    None
}

/// The modifiers that do not say on which side they are.
pub open spec fn generic_modifier(vk: u16) -> bool {
    vk == 0x10 || vk == 0x11 || vk == 0x12
}

proof fn lemma_pairs_agree(i: int)
    requires
        0 <= i < key_pairs().len(),
    ensures
        mac_vk(key_pairs()[i].0) == Some(key_pairs()[i].1) || generic_modifier(key_pairs()[i].1),
{
}

/// A virtual key that is translated to macOS and back stays itself, except
/// that a generic modifier comes back as a sided one.
pub proof fn law_virtual_keys_survive_the_round_trip(vk: u16)
    requires
        mac_code(vk) is Some,
        !generic_modifier(vk),
    ensures
        mac_vk(mac_code(vk)->0) == Some(vk),
{
    let holds = stands_for(vk);
    let i = choose|i: int| first_where(key_pairs(), holds, i);
    assert(first_where(key_pairs(), holds, i));
    lemma_found(key_pairs(), holds, i);
    lemma_pairs_agree(i);
}

/// The position of a key code among the pairs, where its sided or only
/// virtual key stands.
spec fn pair_position(code: u16) -> int {
    match code {
        0 => 0,
        1 => 1,
        2 => 2,
        3 => 3,
        4 => 4,
        5 => 5,
        6 => 6,
        7 => 7,
        8 => 8,
        9 => 9,
        11 => 10,
        12 => 11,
        13 => 12,
        14 => 13,
        15 => 14,
        16 => 15,
        17 => 16,
        18 => 17,
        19 => 18,
        20 => 19,
        21 => 20,
        22 => 21,
        23 => 22,
        24 => 23,
        25 => 24,
        26 => 25,
        27 => 26,
        28 => 27,
        29 => 28,
        30 => 29,
        31 => 30,
        32 => 31,
        33 => 32,
        34 => 33,
        35 => 34,
        36 => 35,
        37 => 36,
        38 => 37,
        39 => 38,
        40 => 39,
        41 => 40,
        42 => 41,
        43 => 42,
        44 => 43,
        45 => 44,
        46 => 45,
        47 => 46,
        48 => 47,
        49 => 48,
        50 => 49,
        51 => 50,
        53 => 51,
        54 => 52,
        55 => 53,
        56 => 55,
        57 => 56,
        58 => 58,
        59 => 60,
        60 => 61,
        61 => 62,
        62 => 63,
        63 => 64,
        64 => 65,
        65 => 66,
        67 => 67,
        69 => 68,
        71 => 69,
        75 => 70,
        76 => 71,
        78 => 72,
        81 => 73,
        82 => 74,
        83 => 75,
        84 => 76,
        85 => 77,
        86 => 78,
        87 => 79,
        88 => 80,
        89 => 81,
        91 => 82,
        92 => 83,
        96 => 84,
        97 => 85,
        98 => 86,
        99 => 87,
        100 => 88,
        101 => 89,
        103 => 90,
        105 => 91,
        106 => 92,
        107 => 93,
        109 => 94,
        111 => 95,
        114 => 96,
        115 => 97,
        116 => 98,
        117 => 99,
        118 => 100,
        119 => 101,
        120 => 102,
        121 => 103,
        122 => 104,
        123 => 105,
        124 => 106,
        125 => 107,
        126 => 108,
        _ => -1,
    }
}

proof fn lemma_codes_are_listed(code: u16)
    requires
        mac_vk(code) is Some,
    ensures
        0 <= pair_position(code) < key_pairs().len(),
        key_pairs()[pair_position(code)] == (code, mac_vk(code)->0),
{
}

proof fn lemma_first_match<T>(items: Seq<T>, holds: spec_fn(T) -> bool, i: int)
    requires
        0 <= i < items.len(),
        holds(items[i]),
    ensures
        find_first(items, holds) is Some,
    decreases i,
{
    if forall|j: int| 0 <= j < i ==> !holds(#[trigger] items[j]) {
        assert(first_where(items, holds, i));
        lemma_found(items, holds, i);
    } else {
        let j = choose|j: int| 0 <= j < i && holds(#[trigger] items[j]);
        lemma_first_match(items, holds, j);
    }
}

/// The key codes whose virtual key stands earlier among the pairs, with another
/// key code: the function key, the Enter and the equals of the keypad.
pub open spec fn second_of_its_key(code: u16) -> bool {
    code == 63 || code == 76 || code == 81
}

/// The virtual key of an earlier pair is another one.
proof fn lemma_first_of_its_key(code: u16, i: int)
    requires
        mac_vk(code) is Some,
        !second_of_its_key(code),
        0 <= i < pair_position(code),
    ensures
        key_pairs()[i].1 != mac_vk(code)->0,
{
    lemma_codes_are_listed(code);
    lemma_pairs_agree(i);
}

/// A macOS key that is translated to a virtual key and back produces that same
/// virtual key again, and comes back itself unless an earlier key produces it
/// too.
pub proof fn law_mac_keys_survive_the_round_trip(code: u16)
    requires
        mac_vk(code) is Some,
    ensures
        mac_code(mac_vk(code)->0) is Some,
        mac_vk(mac_code(mac_vk(code)->0)->0) == mac_vk(code),
        !second_of_its_key(code) <==> mac_code(mac_vk(code)->0) == Some(code),
{
    let vk = mac_vk(code)->0;
    lemma_codes_are_listed(code);
    let holds = stands_for(vk);
    lemma_first_match(key_pairs(), holds, pair_position(code));
    assert(!generic_modifier(vk));
    law_virtual_keys_survive_the_round_trip(vk);
    if !second_of_its_key(code) {
        assert forall|i: int| 0 <= i < pair_position(code) implies !holds(
            #[trigger] key_pairs()[i],
        ) by {
            lemma_first_of_its_key(code, i);
        }
        assert(first_where(key_pairs(), holds, pair_position(code)));
        lemma_found(key_pairs(), holds, pair_position(code));
    } else {
        let earlier: int = if code == 63 {
            53
        } else if code == 76 {
            35
        } else {
            72
        };
        assert(key_pairs()[earlier].1 == vk);
        let i = choose|i: int| first_where(key_pairs(), holds, i);
        assert(first_where(key_pairs(), holds, i));
        lemma_found(key_pairs(), holds, i);
        assert(i <= earlier);
        assert(key_pairs()[i].0 <= 78);
    }
}

/// Every modifier, generic or sided, has a key code on macOS.
pub proof fn law_modifiers_have_key_codes(vk: u16)
    requires
        modifier_family(vk) is Some,
    ensures
        mac_code(vk) is Some,
{
    let position: int = if vk == 0x5C {
        52
    } else if vk == 0x5B {
        53
    } else if vk == 0x10 {
        54
    } else if vk == 0xA0 {
        55
    } else if vk == 0x12 {
        57
    } else if vk == 0xA4 {
        58
    } else if vk == 0x11 {
        59
    } else if vk == 0xA2 {
        60
    } else if vk == 0xA1 {
        61
    } else if vk == 0xA5 {
        62
    } else {
        63
    };
    assert(key_pairs()[position].1 == vk);
    lemma_first_match(key_pairs(), stands_for(vk), position);
}

/// The key codes of the keys with the letters, from A to Z.
pub open spec fn letter_keys() -> Seq<u16> {
    seq![
        0u16, 11u16, 8u16, 2u16, 14u16, 3u16, 5u16, 4u16, 34u16, 38u16, 40u16, 37u16, 46u16,
        45u16, 31u16, 35u16, 12u16, 15u16, 1u16, 17u16, 32u16, 9u16, 13u16, 7u16, 16u16, 6u16,
    ]
}

/// The key codes of the keys with the digits, from 0 to 9.
pub open spec fn digit_keys() -> Seq<u16> {
    seq![
        29u16, 18u16, 19u16, 20u16, 21u16, 23u16, 22u16, 26u16, 28u16, 25u16,
    ]
}

/// The key codes of the keypad digits, from 0 to 9.
pub open spec fn keypad_keys() -> Seq<u16> {
    seq![
        82u16, 83u16, 84u16, 85u16, 86u16, 87u16, 88u16, 89u16, 91u16, 92u16,
    ]
}

/// The key codes of the function keys, from F1 to F14.
pub open spec fn function_keys() -> Seq<u16> {
    seq![
        122u16, 120u16, 99u16, 118u16, 96u16, 97u16, 98u16, 100u16, 101u16, 109u16, 103u16,
        111u16, 105u16, 107u16,
    ]
}

/// A letter key stands for the code of its capital letter, a digit key for that
/// of its digit, and the keys of the keypad and the function keys for their
/// runs of virtual keys; each of those virtual keys leads back to its key.
pub proof fn law_keys_stand_for_what_is_printed_on_them(n: int)
    ensures
        0 <= n < 26 ==> mac_vk(letter_keys()[n]) == Some((0x41 + n) as u16) && mac_code(
            (0x41 + n) as u16,
        ) == Some(letter_keys()[n]),
        0 <= n < 10 ==> mac_vk(digit_keys()[n]) == Some((0x30 + n) as u16) && mac_code(
            (0x30 + n) as u16,
        ) == Some(digit_keys()[n]),
        0 <= n < 10 ==> mac_vk(keypad_keys()[n]) == Some((0x60 + n) as u16) && mac_code(
            (0x60 + n) as u16,
        ) == Some(keypad_keys()[n]),
        0 <= n < 14 ==> mac_vk(function_keys()[n]) == Some((0x70 + n) as u16) && mac_code(
            (0x70 + n) as u16,
        ) == Some(function_keys()[n]),
{
    if 0 <= n < 26 {
        law_mac_keys_survive_the_round_trip(letter_keys()[n]);
    }
    if 0 <= n < 10 {
        law_mac_keys_survive_the_round_trip(digit_keys()[n]);
        law_mac_keys_survive_the_round_trip(keypad_keys()[n]);
    }
    if 0 <= n < 14 {
        law_mac_keys_survive_the_round_trip(function_keys()[n]);
    }
}

/// The keys that carry no letter or digit, each with the one virtual key of the
/// same name: the arrows left, right, down and up; Home, End, Page Up, Page Down,
/// Insert and Delete.
pub proof fn law_arrows_keep_their_direction(code: u16)
    ensures
        mac_vk(code) == Some(0x25u16) <==> code == 123,
        mac_vk(code) == Some(0x27u16) <==> code == 124,
        mac_vk(code) == Some(0x28u16) <==> code == 125,
        mac_vk(code) == Some(0x26u16) <==> code == 126,
        mac_vk(code) == Some(0x24u16) <==> code == 115,
        mac_vk(code) == Some(0x23u16) <==> code == 119,
        mac_vk(code) == Some(0x21u16) <==> code == 116,
        mac_vk(code) == Some(0x22u16) <==> code == 121,
        mac_vk(code) == Some(0x2Du16) <==> code == 114,
        mac_vk(code) == Some(0x2Eu16) <==> code == 117,
{
}

/// Space, Tab, Enter, Backspace and Escape, then the marks `=`, `-`, `[`, `]`,
/// backslash, `;`, `'`, backquote, `,`, `.` and `/`, stand for themselves.
pub proof fn law_marks_stand_for_themselves(code: u16)
    ensures
        mac_vk(code) == Some(0x20u16) <==> code == 49,
        mac_vk(code) == Some(0x09u16) <==> code == 48,
        mac_vk(code) == Some(0x0Du16) <==> code == 36 || code == 76,
        mac_vk(code) == Some(0x08u16) <==> code == 51,
        mac_vk(code) == Some(0x1Bu16) <==> code == 53,
        mac_vk(code) == Some(0xBBu16) <==> code == 24,
        mac_vk(code) == Some(0xBDu16) <==> code == 27,
        mac_vk(code) == Some(0xDBu16) <==> code == 33,
        mac_vk(code) == Some(0xDDu16) <==> code == 30,
        mac_vk(code) == Some(0xDCu16) <==> code == 42,
        mac_vk(code) == Some(0xBAu16) <==> code == 41,
        mac_vk(code) == Some(0xDEu16) <==> code == 39,
        mac_vk(code) == Some(0xC0u16) <==> code == 50,
        mac_vk(code) == Some(0xBCu16) <==> code == 43,
        mac_vk(code) == Some(0xBEu16) <==> code == 47,
        mac_vk(code) == Some(0xBFu16) <==> code == 44,
{
}

/// The signs of the keypad, the lock keys, the modifiers by side and the higher
/// function keys stand for themselves: times, plus, minus, point and divide;
/// Caps Lock and Num Lock; left and right Shift, Control, Alt and Command; F16
/// and F17.
pub proof fn law_modifier_keys_keep_their_side(code: u16)
    ensures
        mac_vk(code) == Some(0x6Au16) <==> code == 67,
        mac_vk(code) == Some(0x6Bu16) <==> code == 69,
        mac_vk(code) == Some(0x6Du16) <==> code == 78 || code == 81,
        mac_vk(code) == Some(0x6Eu16) <==> code == 65,
        mac_vk(code) == Some(0x6Fu16) <==> code == 75,
        mac_vk(code) == Some(0x14u16) <==> code == 57,
        mac_vk(code) == Some(0x90u16) <==> code == 71,
        mac_vk(code) == Some(0xA0u16) <==> code == 56,
        mac_vk(code) == Some(0xA1u16) <==> code == 60,
        mac_vk(code) == Some(0xA2u16) <==> code == 59,
        mac_vk(code) == Some(0xA3u16) <==> code == 62,
        mac_vk(code) == Some(0xA4u16) <==> code == 58,
        mac_vk(code) == Some(0xA5u16) <==> code == 61,
        mac_vk(code) == Some(0x5Bu16) <==> code == 55 || code == 63,
        mac_vk(code) == Some(0x5Cu16) <==> code == 54,
        mac_vk(code) == Some(0x7Fu16) <==> code == 106,
        mac_vk(code) == Some(0x80u16) <==> code == 64,
{
}

/// On the way back a virtual key without a letter or digit leads to its own key;
/// a modifier without a side leads to the left one.
pub proof fn law_named_keys_lead_back(vk: u16)
    ensures
        vk == 0x25 ==> mac_code(vk) == Some(123u16),
        vk == 0x27 ==> mac_code(vk) == Some(124u16),
        vk == 0x28 ==> mac_code(vk) == Some(125u16),
        vk == 0x26 ==> mac_code(vk) == Some(126u16),
        vk == 0x24 ==> mac_code(vk) == Some(115u16),
        vk == 0x23 ==> mac_code(vk) == Some(119u16),
        vk == 0x21 ==> mac_code(vk) == Some(116u16),
        vk == 0x22 ==> mac_code(vk) == Some(121u16),
        vk == 0x2D ==> mac_code(vk) == Some(114u16),
        vk == 0x2E ==> mac_code(vk) == Some(117u16),
        vk == 0x20 ==> mac_code(vk) == Some(49u16),
        vk == 0x09 ==> mac_code(vk) == Some(48u16),
        vk == 0x0D ==> mac_code(vk) == Some(36u16),
        vk == 0x08 ==> mac_code(vk) == Some(51u16),
        vk == 0x1B ==> mac_code(vk) == Some(53u16),
        vk == 0xBB ==> mac_code(vk) == Some(24u16),
        vk == 0xBD ==> mac_code(vk) == Some(27u16),
        vk == 0xDB ==> mac_code(vk) == Some(33u16),
        vk == 0xDD ==> mac_code(vk) == Some(30u16),
        vk == 0xDC ==> mac_code(vk) == Some(42u16),
        vk == 0xBA ==> mac_code(vk) == Some(41u16),
        vk == 0xDE ==> mac_code(vk) == Some(39u16),
        vk == 0xC0 ==> mac_code(vk) == Some(50u16),
        vk == 0xBC ==> mac_code(vk) == Some(43u16),
        vk == 0xBE ==> mac_code(vk) == Some(47u16),
        vk == 0xBF ==> mac_code(vk) == Some(44u16),
        vk == 0x6A ==> mac_code(vk) == Some(67u16),
        vk == 0x6B ==> mac_code(vk) == Some(69u16),
        vk == 0x6D ==> mac_code(vk) == Some(78u16),
        vk == 0x6E ==> mac_code(vk) == Some(65u16),
        vk == 0x6F ==> mac_code(vk) == Some(75u16),
        vk == 0x14 ==> mac_code(vk) == Some(57u16),
        vk == 0x90 ==> mac_code(vk) == Some(71u16),
        vk == 0xA0 ==> mac_code(vk) == Some(56u16),
        vk == 0xA1 ==> mac_code(vk) == Some(60u16),
        vk == 0xA2 ==> mac_code(vk) == Some(59u16),
        vk == 0xA3 ==> mac_code(vk) == Some(62u16),
        vk == 0xA4 ==> mac_code(vk) == Some(58u16),
        vk == 0xA5 ==> mac_code(vk) == Some(61u16),
        vk == 0x5B ==> mac_code(vk) == Some(55u16),
        vk == 0x5C ==> mac_code(vk) == Some(54u16),
        vk == 0x7F ==> mac_code(vk) == Some(106u16),
        vk == 0x80 ==> mac_code(vk) == Some(64u16),
        vk == 0x10 ==> mac_code(vk) == Some(56u16),
        vk == 0x11 ==> mac_code(vk) == Some(59u16),
        vk == 0x12 ==> mac_code(vk) == Some(58u16),
{
    let code: u16 = match vk {
        0x25 => 123,
        0x27 => 124,
        0x28 => 125,
        0x26 => 126,
        0x24 => 115,
        0x23 => 119,
        0x21 => 116,
        0x22 => 121,
        0x2D => 114,
        0x2E => 117,
        0x20 => 49,
        0x09 => 48,
        0x0D => 36,
        0x08 => 51,
        0x1B => 53,
        0xBB => 24,
        0xBD => 27,
        0xDB => 33,
        0xDD => 30,
        0xDC => 42,
        0xBA => 41,
        0xDE => 39,
        0xC0 => 50,
        0xBC => 43,
        0xBE => 47,
        0xBF => 44,
        0x6A => 67,
        0x6B => 69,
        0x6D => 78,
        0x6E => 65,
        0x6F => 75,
        0x14 => 57,
        0x90 => 71,
        0xA0 => 56,
        0xA1 => 60,
        0xA2 => 59,
        0xA3 => 62,
        0xA4 => 58,
        0xA5 => 61,
        0x5B => 55,
        0x5C => 54,
        0x7F => 106,
        0x80 => 64,
        _ => 0,
    };
    law_mac_keys_survive_the_round_trip(code);
    lemma_found_at(vk);
}

/// The generic modifiers stand in the pairs before the left ones.
proof fn lemma_found_at(vk: u16)
    ensures
        vk == 0x10 ==> mac_code(vk) == Some(56u16),
        vk == 0x11 ==> mac_code(vk) == Some(59u16),
        vk == 0x12 ==> mac_code(vk) == Some(58u16),
{
    let at: int = if vk == 0x10 {
        54
    } else if vk == 0x12 {
        57
    } else {
        59
    };
    if generic_modifier(vk) {
        let holds = stands_for(vk);
        assert(key_pairs()[at].1 == vk);
        assert forall|i: int| 0 <= i < at implies !holds(#[trigger] key_pairs()[i]) by {
            lemma_pairs_agree(i);
        }
        assert(first_where(key_pairs(), holds, at));
        lemma_found(key_pairs(), holds, at);
    }
}

/// The key codes of all the keys with neither letter nor digit on them but the
/// function keys up to F14.
pub open spec fn other_keys() -> Seq<u16> {
    seq![
        123u16, 124u16, 125u16, 126u16, 115u16, 119u16, 116u16, 121u16, 114u16, 117u16,
        49u16, 48u16, 36u16, 76u16, 51u16, 53u16, 24u16, 27u16, 33u16, 30u16,
        42u16, 41u16, 39u16, 50u16, 43u16, 47u16, 44u16, 67u16, 69u16, 78u16,
        81u16, 65u16, 75u16, 57u16, 71u16, 56u16, 60u16, 59u16, 62u16, 58u16,
        61u16, 55u16, 63u16, 54u16, 106u16, 64u16,
    ]
}

/// Only a key that something known is printed on is translated at all, and a
/// virtual key that no key stands for leads nowhere.
pub proof fn law_other_keys_are_not_translated(code: u16, vk: u16)
    ensures
        mac_vk(code) is Some ==> {
            ||| letter_keys().contains(code)
            ||| digit_keys().contains(code)
            ||| keypad_keys().contains(code)
            ||| function_keys().contains(code)
            ||| other_keys().contains(code)
        },
        mac_code(vk) is Some && !generic_modifier(vk) ==> exists|code: u16|
            mac_vk(code) == Some(vk),
{
    let letters = letter_keys();
    let digits = digit_keys();
    let keypad = keypad_keys();
    let functions = function_keys();
    let others = other_keys();
    assert(letters[0] == 0);
    assert(letters[1] == 11);
    assert(letters[2] == 8);
    assert(letters[3] == 2);
    assert(letters[4] == 14);
    assert(letters[5] == 3);
    assert(letters[6] == 5);
    assert(letters[7] == 4);
    assert(letters[8] == 34);
    assert(letters[9] == 38);
    assert(letters[10] == 40);
    assert(letters[11] == 37);
    assert(letters[12] == 46);
    assert(letters[13] == 45);
    assert(letters[14] == 31);
    assert(letters[15] == 35);
    assert(letters[16] == 12);
    assert(letters[17] == 15);
    assert(letters[18] == 1);
    assert(letters[19] == 17);
    assert(letters[20] == 32);
    assert(letters[21] == 9);
    assert(letters[22] == 13);
    assert(letters[23] == 7);
    assert(letters[24] == 16);
    assert(letters[25] == 6);
    assert(digits[0] == 29);
    assert(digits[1] == 18);
    assert(digits[2] == 19);
    assert(digits[3] == 20);
    assert(digits[4] == 21);
    assert(digits[5] == 23);
    assert(digits[6] == 22);
    assert(digits[7] == 26);
    assert(digits[8] == 28);
    assert(digits[9] == 25);
    assert(keypad[0] == 82);
    assert(keypad[1] == 83);
    assert(keypad[2] == 84);
    assert(keypad[3] == 85);
    assert(keypad[4] == 86);
    assert(keypad[5] == 87);
    assert(keypad[6] == 88);
    assert(keypad[7] == 89);
    assert(keypad[8] == 91);
    assert(keypad[9] == 92);
    assert(functions[0] == 122);
    assert(functions[1] == 120);
    assert(functions[2] == 99);
    assert(functions[3] == 118);
    assert(functions[4] == 96);
    assert(functions[5] == 97);
    assert(functions[6] == 98);
    assert(functions[7] == 100);
    assert(functions[8] == 101);
    assert(functions[9] == 109);
    assert(functions[10] == 103);
    assert(functions[11] == 111);
    assert(functions[12] == 105);
    assert(functions[13] == 107);
    assert(others[0] == 123);
    assert(others[1] == 124);
    assert(others[2] == 125);
    assert(others[3] == 126);
    assert(others[4] == 115);
    assert(others[5] == 119);
    assert(others[6] == 116);
    assert(others[7] == 121);
    assert(others[8] == 114);
    assert(others[9] == 117);
    assert(others[10] == 49);
    assert(others[11] == 48);
    assert(others[12] == 36);
    assert(others[13] == 76);
    assert(others[14] == 51);
    assert(others[15] == 53);
    assert(others[16] == 24);
    assert(others[17] == 27);
    assert(others[18] == 33);
    assert(others[19] == 30);
    assert(others[20] == 42);
    assert(others[21] == 41);
    assert(others[22] == 39);
    assert(others[23] == 50);
    assert(others[24] == 43);
    assert(others[25] == 47);
    assert(others[26] == 44);
    assert(others[27] == 67);
    assert(others[28] == 69);
    assert(others[29] == 78);
    assert(others[30] == 81);
    assert(others[31] == 65);
    assert(others[32] == 75);
    assert(others[33] == 57);
    assert(others[34] == 71);
    assert(others[35] == 56);
    assert(others[36] == 60);
    assert(others[37] == 59);
    assert(others[38] == 62);
    assert(others[39] == 58);
    assert(others[40] == 61);
    assert(others[41] == 55);
    assert(others[42] == 63);
    assert(others[43] == 54);
    assert(others[44] == 106);
    assert(others[45] == 64);
    if mac_code(vk) is Some && !generic_modifier(vk) {
        law_virtual_keys_survive_the_round_trip(vk);
    }
}

} // verus!
