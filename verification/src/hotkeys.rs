//! Screen switch hotkeys: their notation, and when a pressed key is one.

use vstd::prelude::*;

use crate::layout::{LayoutState, ScreenSwitchHotkeys};
use crate::text::{
    ascii_lower_text, chars_of, decimal, is_whitespace, same_text, to_ascii_lower, whitespace,
};

verus! {

#[derive(Debug, Clone, Copy, PartialEq, Eq, Structural)]
pub struct HotkeyModifiers {
    pub ctrl: bool,
    pub alt: bool,
    pub shift: bool,
    pub meta: bool,
}

pub open spec fn no_modifiers() -> HotkeyModifiers {
    HotkeyModifiers { ctrl: false, alt: false, shift: false, meta: false }
}

impl Default for HotkeyModifiers {
    fn default() -> (modifiers: Self)
        ensures
            modifiers == no_modifiers(),
    {
        HotkeyModifiers { ctrl: false, alt: false, shift: false, meta: false }
    }
}

/// The text without leading white space.
pub open spec fn trimmed_start(text: Seq<char>) -> Seq<char>
    decreases text.len(),
{
    if text.len() > 0 && whitespace(text[0]) {
        trimmed_start(text.drop_first())
    } else {
        text
    }
}

/// The text without trailing white space.
pub open spec fn trimmed_end(text: Seq<char>) -> Seq<char>
    decreases text.len(),
{
    if text.len() > 0 && whitespace(text.last()) {
        trimmed_end(text.drop_last())
    } else {
        text
    }
}

/// The text without its spaces.
pub open spec fn without_spaces(text: Seq<char>) -> Seq<char>
    decreases text.len(),
{
    if text.len() == 0 {
        Seq::empty()
    } else if text.last() == ' ' {
        without_spaces(text.drop_last())
    } else {
        without_spaces(text.drop_last()).push(text.last())
    }
}

/// A hotkey notation in the form in which it is read: trimmed, in lower case,
/// without spaces.
pub open spec fn normalized(value: Seq<char>) -> Seq<char> {
    without_spaces(ascii_lower_text(trimmed_end(trimmed_start(value))))
}

/// The notations that switch a hotkey off.
pub open spec fn is_disabled(notation: Seq<char>) -> bool {
    ||| notation.len() == 0
    ||| notation == "disabled"@
    ||| notation == "disable"@
    ||| notation == "off"@
    ||| notation == "none"@
}

/// The parts of a text between plus signs.
pub open spec fn plus_parts(text: Seq<char>) -> Seq<Seq<char>>
    decreases text.len(),
{
    if text.len() == 0 {
        seq![Seq::empty()]
    } else {
        let parts = plus_parts(text.drop_last());
        if text.last() == '+' {
            parts.push(Seq::empty())
        } else {
            parts.drop_last().push(parts.last().push(text.last()))
        }
    }
}

pub open spec fn is_ctrl_name(part: Seq<char>) -> bool {
    part == "ctrl"@ || part == "control"@
}

pub open spec fn is_alt_name(part: Seq<char>) -> bool {
    part == "alt"@ || part == "option"@
}

pub open spec fn is_meta_name(part: Seq<char>) -> bool {
    ||| part == "meta"@
    ||| part == "cmd"@
    ||| part == "command"@
    ||| part == "win"@
    ||| part == "windows"@
    ||| part == "super"@
    ||| part == "os"@
}

pub open spec fn is_digit(character: char) -> bool {
    '0' <= character <= '9'
}

/// The value of a run of decimal digits.
pub open spec fn digits_value(digits: Seq<char>) -> nat
    decreases digits.len(),
{
    if digits.len() == 0 {
        0
    } else {
        digits_value(digits.drop_last()) * 10 + (digits.last() as u32 - '0' as u32) as nat
    }
}

pub open spec fn all_digits(text: Seq<char>) -> bool {
    text.len() > 0 && forall|i: int| 0 <= i < text.len() ==> is_digit(#[trigger] text[i])
}

/// The digits of an unsigned number, which may carry a plus sign.
pub open spec fn unsigned_digits(text: Seq<char>) -> Seq<char> {
    if text.len() > 0 && text[0] == '+' {
        text.drop_first()
    } else {
        text
    }
}

/// The number of a function key name such as `f5`.
pub open spec fn function_number(key: Seq<char>) -> Option<nat> {
    if key.len() > 0 && key[0] == 'f' && all_digits(unsigned_digits(key.drop_first())) && 1
        <= digits_value(unsigned_digits(key.drop_first())) <= 24 {
        Some(digits_value(unsigned_digits(key.drop_first())))
    } else {
        None
    }
}

pub open spec fn single_key(key: Seq<char>) -> Option<u16> {
    if key.len() != 1 {
        None
    } else if 'a' <= key[0] <= 'z' {
        Some((key[0] as u32 - 32) as u16)
    } else if 'A' <= key[0] <= 'Z' || is_digit(key[0]) {
        Some(key[0] as u16)
    } else {
        None
    }
}

pub open spec fn named_key(key: Seq<char>) -> Option<u16> {
    if key == "space"@ || key == "spacebar"@ {
        Some(0x20)
    } else if key == "tab"@ {
        Some(0x09)
    } else if key == "enter"@ || key == "return"@ {
        Some(0x0D)
    } else if key == "esc"@ || key == "escape"@ {
        Some(0x1B)
    } else if key == "scrolllock"@ || key == "scroll"@ || key == "scrlk"@ {
        Some(0x91)
    } else if key == "up"@ || key == "arrowup"@ {
        Some(0x26)
    } else if key == "down"@ || key == "arrowdown"@ {
        Some(0x28)
    } else if key == "left"@ || key == "arrowleft"@ {
        Some(0x25)
    } else if key == "right"@ || key == "arrowright"@ {
        Some(0x27)
    } else {
        None
    }
}

/// The virtual key of a key name.
pub open spec fn key_of_name(key: Seq<char>) -> Option<u16> {
    match single_key(key) {
        Some(vk) => Some(vk),
        None => match function_number(key) {
            Some(number) => Some((0x70 + number - 1) as u16),
            None => named_key(key),
        },
    }
}

/// How far a notation has been read. More than one main key makes it invalid.
pub struct HotkeyReading {
    pub required: HotkeyModifiers,
    pub main_key: Option<u16>,
    pub valid: bool,
}

pub open spec fn read_part(reading: HotkeyReading, part: Seq<char>) -> HotkeyReading {
    if !reading.valid || part.len() == 0 {
        reading
    } else if is_ctrl_name(part) {
        HotkeyReading {
            required: HotkeyModifiers { ctrl: true, ..reading.required },
            ..reading
        }
    } else if is_alt_name(part) {
        HotkeyReading { required: HotkeyModifiers { alt: true, ..reading.required }, ..reading }
    } else if part == "shift"@ {
        HotkeyReading {
            required: HotkeyModifiers { shift: true, ..reading.required },
            ..reading
        }
    } else if is_meta_name(part) {
        HotkeyReading {
            required: HotkeyModifiers { meta: true, ..reading.required },
            ..reading
        }
    } else if reading.main_key is Some {
        HotkeyReading { valid: false, ..reading }
    } else {
        HotkeyReading { main_key: key_of_name(part), ..reading }
    }
}

pub open spec fn read_parts(parts: Seq<Seq<char>>) -> HotkeyReading
    decreases parts.len(),
{
    if parts.len() == 0 {
        HotkeyReading { required: no_modifiers(), main_key: None, valid: true }
    } else {
        read_part(read_parts(parts.drop_last()), parts.last())
    }
}

/// Whether a key press with the given modifiers is the hotkey: the main key
/// and exactly its modifiers.
pub open spec fn is_hotkey(value: Seq<char>, key_code: u16, modifiers: HotkeyModifiers) -> bool {
    let notation = normalized(value);
    let reading = read_parts(plus_parts(notation));
    &&& !is_disabled(notation)
    &&& reading.valid
    &&& reading.main_key == Some(key_code)
    &&& reading.required == modifiers
}

fn chars_are(chars: &Vec<char>, text: &str) -> (same: bool)
    ensures
        same == (chars@ == text@),
{
    let wanted = chars_of(text);
    if chars.len() != wanted.len() {
        return false;
    }
    let mut index: usize = 0;
    while index < chars.len()
        invariant
            index <= chars@.len(),
            chars@.len() == wanted@.len(),
            wanted@ == text@,
            forall|i: int| 0 <= i < index ==> chars@[i] == wanted@[i],
        decreases chars@.len() - index,
    {
        if chars[index] != wanted[index] {
            return false;
        }
        index += 1;
    }
    assert(chars@ =~= text@);
    true
}

proof fn lemma_trim_start(text: Seq<char>, start: int)
    requires
        0 <= start <= text.len(),
        forall|i: int| 0 <= i < start ==> whitespace(#[trigger] text[i]),
        start < text.len() ==> !whitespace(text[start]),
    ensures
        trimmed_start(text) == text.skip(start),
    decreases text.len(),
{
    if start == 0 {
        assert(text.skip(0) =~= text);
    } else {
        assert(whitespace(text[0]));
        let rest = text.drop_first();
        assert forall|i: int| 0 <= i < start - 1 implies whitespace(#[trigger] rest[i]) by {
            assert(rest[i] == text[i + 1]);
        }
        lemma_trim_start(rest, start - 1);
        assert(rest.skip(start - 1) =~= text.skip(start));
    }
}

proof fn lemma_trim_end(text: Seq<char>, end: int)
    requires
        0 <= end <= text.len(),
        forall|i: int| end <= i < text.len() ==> whitespace(#[trigger] text[i]),
        end > 0 ==> !whitespace(text[end - 1]),
    ensures
        trimmed_end(text) == text.take(end),
    decreases text.len(),
{
    if end == text.len() {
        assert(text.take(end) =~= text);
    } else {
        assert(whitespace(text[text.len() - 1]));
        let rest = text.drop_last();
        assert forall|i: int| end <= i < rest.len() implies whitespace(#[trigger] rest[i]) by {
            assert(rest[i] == text[i]);
        }
        lemma_trim_end(rest, end);
        assert(rest.take(end) =~= text.take(end));
    }
}

fn normalize(value: &str) -> (notation: Vec<char>)
    ensures
        notation@ == normalized(value@),
{
    let chars = chars_of(value);
    let mut start: usize = 0;
    while start < chars.len() && is_whitespace(chars[start])
        invariant
            start <= chars@.len(),
            forall|i: int| 0 <= i < start ==> whitespace(#[trigger] chars@[i]),
        decreases chars@.len() - start,
    {
        start += 1;
    }
    proof {
        lemma_trim_start(chars@, start as int);
    }
    let ghost tail = chars@.skip(start as int);
    let mut end: usize = chars.len();
    while end > start && is_whitespace(chars[end - 1])
        invariant
            start <= end <= chars@.len(),
            forall|i: int| end <= i < chars@.len() ==> whitespace(#[trigger] chars@[i]),
        decreases end,
    {
        end -= 1;
    }
    proof {
        assert forall|i: int| end - start <= i < tail.len() implies whitespace(#[trigger] tail[i]) by {
            assert(tail[i] == chars@[i + start]);
        }
        lemma_trim_end(tail, end - start);
    }
    let ghost trimmed = tail.take(end - start);
    let ghost lower = ascii_lower_text(trimmed);
    let mut notation: Vec<char> = Vec::new();
    let mut index: usize = start;
    assert(lower.take(0) =~= Seq::<char>::empty());
    while index < end
        invariant
            start <= index <= end <= chars@.len(),
            trimmed == chars@.skip(start as int).take(end - start),
            lower == ascii_lower_text(trimmed),
            notation@ == without_spaces(lower.take(index - start)),
        decreases end - index,
    {
        let character = to_ascii_lower(chars[index]);
        proof {
            let done = index - start;
            assert(lower[done] == character);
            assert(lower.take(done + 1).drop_last() =~= lower.take(done));
            assert(lower.take(done + 1).last() == character);
        }
        if character != ' ' {
            notation.push(character);
        }
        index += 1;
    }
    assert(lower.take(end - start) =~= lower);
    notation
}

fn function_key_number(key: &Vec<char>) -> (number: Option<u16>)
    ensures
        match number {
            Some(number) => function_number(key@) == Some(number as nat),
            None => function_number(key@) is None,
        },
        number matches Some(number) ==> 1 <= number <= 24,
{
    if key.len() == 0 || key[0] != 'f' {
        return None;
    }
    let ghost text = key@.drop_first();
    let mut start: usize = 1;
    if key.len() > 1 && key[1] == '+' {
        start = 2;
    }
    let ghost digits = unsigned_digits(text);
    proof {
        if key@.len() > 1 {
            assert(text[0] == key@[1]);
        }
        assert(digits =~= key@.skip(start as int));
    }
    if start >= key.len() {
        return None;
    }
    let mut value: u64 = 0;
    let mut capped = false;
    let mut index: usize = start;
    assert(digits.take(0) =~= Seq::<char>::empty());
    while index < key.len()
        invariant
            start <= index <= key@.len(),
            digits == key@.skip(start as int),
            digits == unsigned_digits(key@.drop_first()),
            forall|i: int| 0 <= i < index - start ==> is_digit(#[trigger] digits[i]),
            capped ==> digits_value(digits.take(index - start)) > 24,
            !capped ==> value == digits_value(digits.take(index - start)),
            !capped ==> value <= 24,
        decreases key@.len() - index,
    {
        let character = key[index];
        proof {
            let done = index - start;
            assert(digits[done] == character);
            assert(digits.take(done + 1).drop_last() =~= digits.take(done));
        }
        if !('0' <= character && character <= '9') {
            proof {
                assert(!all_digits(digits)) by {
                    assert(!is_digit(digits[index - start]));
                }
            }
            return None;
        }
        if !capped {
            value = value * 10 + (character as u32 - '0' as u32) as u64;
            capped = value > 24;
        }
        index += 1;
    }
    proof {
        assert(digits.take(digits.len() as int) =~= digits);
        assert(all_digits(digits));
    }
    if capped || value == 0 {
        None
    } else {
        Some(value as u16)
    }
}

fn key_code_of(key: &Vec<char>) -> (vk: Option<u16>)
    ensures
        vk == key_of_name(key@),
{
    if key.len() == 1 {
        let character = key[0];
        if 'a' <= character && character <= 'z' {
            return Some((character as u32 - 32) as u16);
        }
        if ('A' <= character && character <= 'Z') || ('0' <= character && character <= '9') {
            return Some(character as u32 as u16);
        }
    }
    if let Some(number) = function_key_number(key) {
        return Some(0x70 + number - 1);
    }
    if chars_are(key, "space") || chars_are(key, "spacebar") {
        Some(0x20)
    } else if chars_are(key, "tab") {
        Some(0x09)
    } else if chars_are(key, "enter") || chars_are(key, "return") {
        Some(0x0D)
    } else if chars_are(key, "esc") || chars_are(key, "escape") {
        Some(0x1B)
    } else if chars_are(key, "scrolllock") || chars_are(key, "scroll") || chars_are(key, "scrlk") {
        Some(0x91)
    } else if chars_are(key, "up") || chars_are(key, "arrowup") {
        Some(0x26)
    } else if chars_are(key, "down") || chars_are(key, "arrowdown") {
        Some(0x28)
    } else if chars_are(key, "left") || chars_are(key, "arrowleft") {
        Some(0x25)
    } else if chars_are(key, "right") || chars_are(key, "arrowright") {
        Some(0x27)
    } else {
        None
    }
}

/// The virtual key of a key name.
pub fn hotkey_key_to_windows_vk(key: &str) -> (vk: Option<u16>)
    ensures
        vk == key_of_name(key@),
{
    key_code_of(&chars_of(key))
}

struct Reader {
    required: HotkeyModifiers,
    main_key: Option<u16>,
    valid: bool,
}

impl View for Reader {
    type V = HotkeyReading;

    closed spec fn view(&self) -> HotkeyReading {
        HotkeyReading { required: self.required, main_key: self.main_key, valid: self.valid }
    }
}

impl Reader {
    fn read(&mut self, part: &Vec<char>)
        ensures
            final(self)@ == read_part(old(self)@, part@),
    {
        if !self.valid || part.len() == 0 {
            return;
        }
        if chars_are(part, "ctrl") || chars_are(part, "control") {
            self.required.ctrl = true;
        } else if chars_are(part, "alt") || chars_are(part, "option") {
            self.required.alt = true;
        } else if chars_are(part, "shift") {
            self.required.shift = true;
        } else if chars_are(part, "meta") || chars_are(part, "cmd") || chars_are(part, "command")
            || chars_are(part, "win") || chars_are(part, "windows") || chars_are(part, "super")
            || chars_are(part, "os") {
            self.required.meta = true;
        } else if self.main_key.is_some() {
            self.valid = false;
        } else {
            self.main_key = key_code_of(part);
        }
    }
}

pub fn hotkey_matches_vk(value: &str, key_code: u16, modifiers: HotkeyModifiers) -> (matched: bool)
    ensures
        matched == is_hotkey(value@, key_code, modifiers),
{
    let notation = normalize(value);
    if notation.len() == 0 || chars_are(&notation, "disabled") || chars_are(&notation, "disable")
        || chars_are(&notation, "off") || chars_are(&notation, "none") {
        return false;
    }
    let mut reader = Reader {
        required: HotkeyModifiers::default(),
        main_key: None,
        valid: true,
    };
    let mut part: Vec<char> = Vec::new();
    let mut index: usize = 0;
    proof {
        assert(notation@.take(0) =~= Seq::<char>::empty());
        assert(plus_parts(notation@.take(0)) =~= seq![Seq::<char>::empty()]);
        assert(plus_parts(notation@.take(0)).drop_last() =~= Seq::<Seq<char>>::empty());
    }
    while index < notation.len()
        invariant
            index <= notation@.len(),
            plus_parts(notation@.take(index as int)).len() > 0,
            part@ == plus_parts(notation@.take(index as int)).last(),
            reader@ == read_parts(plus_parts(notation@.take(index as int)).drop_last()),
        decreases notation@.len() - index,
    {
        let character = notation[index];
        let ghost parts = plus_parts(notation@.take(index as int));
        let ghost next = plus_parts(notation@.take(index + 1));
        proof {
            assert(notation@.take(index + 1).drop_last() =~= notation@.take(index as int));
            assert(notation@.take(index + 1).last() == character);
        }
        if character == '+' {
            reader.read(&part);
            part = Vec::new();
            proof {
                assert(next =~= parts.push(Seq::empty()));
                assert(next.drop_last() =~= parts);
            }
        } else {
            part.push(character);
            proof {
                assert(next.drop_last() =~= parts.drop_last());
            }
        }
        index += 1;
    }
    proof {
        assert(notation@.take(notation@.len() as int) =~= notation@);
    }
    reader.read(&part);
    reader.valid && reader.main_key == Some(key_code) && reader.required == modifiers
}

/// Whether a key press is one of the four switch hotkeys.
pub open spec fn is_switch_hotkey(
    hotkeys: ScreenSwitchHotkeys,
    key_code: u16,
    modifiers: HotkeyModifiers,
) -> bool {
    ||| is_hotkey(hotkeys.left@, key_code, modifiers)
    ||| is_hotkey(hotkeys.right@, key_code, modifiers)
    ||| is_hotkey(hotkeys.up@, key_code, modifiers)
    ||| is_hotkey(hotkeys.down@, key_code, modifiers)
}

pub fn screen_switch_hotkeys_match_vk(
    hotkeys: &ScreenSwitchHotkeys,
    key_code: u16,
    modifiers: HotkeyModifiers,
) -> (matched: bool)
    ensures
        matched == is_switch_hotkey(*hotkeys, key_code, modifiers),
{
    hotkey_matches_vk(hotkeys.left.as_str(), key_code, modifiers) || hotkey_matches_vk(
        hotkeys.right.as_str(),
        key_code,
        modifiers,
    ) || hotkey_matches_vk(hotkeys.up.as_str(), key_code, modifiers) || hotkey_matches_vk(
        hotkeys.down.as_str(),
        key_code,
        modifiers,
    )
}

/// Whether a captured key press is kept from the target because it switches
/// screens. Only the controlling machine has such keys, and a layout that is
/// busy (`None`) answers no.
pub fn screen_switch_hotkey_matches_vk(
    layout: Option<&LayoutState>,
    key_code: u16,
    modifiers: HotkeyModifiers,
) -> (matched: bool)
    ensures
        matched == (layout matches Some(layout) && layout.machine_role@ == "server"@
            && is_switch_hotkey(layout.screen_switch_hotkeys, key_code, modifiers)),
{
    match layout {
        Some(layout) => same_text(layout.machine_role.as_str(), "server")
            && screen_switch_hotkeys_match_vk(&layout.screen_switch_hotkeys, key_code, modifiers),
        None => false,
    }
}

/// A hotkey answers to one key and one set of modifiers only.
pub proof fn law_hotkeys_are_exact(
    value: Seq<char>,
    key_code: u16,
    modifiers: HotkeyModifiers,
    other_key: u16,
    other_modifiers: HotkeyModifiers,
)
    requires
        is_hotkey(value, key_code, modifiers),
        is_hotkey(value, other_key, other_modifiers),
    ensures
        key_code == other_key,
        modifiers == other_modifiers,
{
}

/// Every key name but a letter, a digit and a function key.
proof fn lemma_key_names_differ()
    ensures
        "space"@ == seq!['s', 'p', 'a', 'c', 'e'],
        "spacebar"@ == seq!['s', 'p', 'a', 'c', 'e', 'b', 'a', 'r'],
        "tab"@ == seq!['t', 'a', 'b'],
        "enter"@ == seq!['e', 'n', 't', 'e', 'r'],
        "return"@ == seq!['r', 'e', 't', 'u', 'r', 'n'],
        "esc"@ == seq!['e', 's', 'c'],
        "escape"@ == seq!['e', 's', 'c', 'a', 'p', 'e'],
        "scrolllock"@ == seq!['s', 'c', 'r', 'o', 'l', 'l', 'l', 'o', 'c', 'k'],
        "scroll"@ == seq!['s', 'c', 'r', 'o', 'l', 'l'],
        "scrlk"@ == seq!['s', 'c', 'r', 'l', 'k'],
        "up"@ == seq!['u', 'p'],
        "arrowup"@ == seq!['a', 'r', 'r', 'o', 'w', 'u', 'p'],
        "down"@ == seq!['d', 'o', 'w', 'n'],
        "arrowdown"@ == seq!['a', 'r', 'r', 'o', 'w', 'd', 'o', 'w', 'n'],
        "left"@ == seq!['l', 'e', 'f', 't'],
        "arrowleft"@ == seq!['a', 'r', 'r', 'o', 'w', 'l', 'e', 'f', 't'],
        "right"@ == seq!['r', 'i', 'g', 'h', 't'],
        "arrowright"@ == seq!['a', 'r', 'r', 'o', 'w', 'r', 'i', 'g', 'h', 't'],
{
    reveal_strlit("space");
    reveal_strlit("spacebar");
    reveal_strlit("tab");
    reveal_strlit("enter");
    reveal_strlit("return");
    reveal_strlit("esc");
    reveal_strlit("escape");
    reveal_strlit("scrolllock");
    reveal_strlit("scroll");
    reveal_strlit("scrlk");
    reveal_strlit("up");
    reveal_strlit("arrowup");
    reveal_strlit("down");
    reveal_strlit("arrowdown");
    reveal_strlit("left");
    reveal_strlit("arrowleft");
    reveal_strlit("right");
    reveal_strlit("arrowright");
}

/// Each arrow key answers to its direction, with or without the word arrow, and
/// to nothing else.
pub proof fn law_arrow_names_keep_their_direction(key: Seq<char>)
    ensures
        key_of_name(key) == Some(0x25u16) <==> key == "left"@ || key == "arrowleft"@,
        key_of_name(key) == Some(0x26u16) <==> key == "up"@ || key == "arrowup"@,
        key_of_name(key) == Some(0x27u16) <==> key == "right"@ || key == "arrowright"@,
        key_of_name(key) == Some(0x28u16) <==> key == "down"@ || key == "arrowdown"@,
{
    lemma_key_names_differ();
}

/// The space bar, the tabulator, the enter, escape and scroll lock key answer
/// to their names and to nothing else.
pub proof fn law_named_keys_answer_to_their_names(key: Seq<char>)
    ensures
        key_of_name(key) == Some(0x20u16) <==> key == "space"@ || key == "spacebar"@,
        key_of_name(key) == Some(0x09u16) <==> key == "tab"@,
        key_of_name(key) == Some(0x0Du16) <==> key == "enter"@ || key == "return"@,
        key_of_name(key) == Some(0x1Bu16) <==> key == "esc"@ || key == "escape"@,
        key_of_name(key) == Some(0x91u16) <==> key == "scrolllock"@ || key == "scroll"@ || key
            == "scrlk"@,
{
    lemma_key_names_differ();
}

/// A letter names its key in either case and a digit names its own, and no
/// other name leads there.
pub proof fn law_letters_and_digits_name_themselves(key: Seq<char>, character: char)
    ensures
        'A' <= character <= 'Z' ==> (key_of_name(key) == Some(character as u16) <==> key
            == seq![character] || key == seq![(character as u32 + 32) as char]),
        '0' <= character <= '9' ==> (key_of_name(key) == Some(character as u16) <==> key
            == seq![character]),
{
    lemma_key_names_differ();
    if key.len() == 1 {
        assert(key =~= seq![key[0]]);
    }
    assert(seq![character][0] == character);
    assert(seq![(character as u32 + 32) as char][0] == (character as u32 + 32) as char);
}

proof fn lemma_digits_read_back(value: nat)
    ensures
        all_digits(decimal(value)),
        digits_value(decimal(value)) == value,
    decreases value,
{
    if value >= 10 {
        lemma_digits_read_back(value / 10);
        assert(decimal(value).drop_last() =~= decimal(value / 10));
    } else {
        assert(decimal(value).drop_last() =~= Seq::empty());
        assert(digits_value(Seq::<char>::empty()) == 0);
    }
}

/// The letter f and a number name the function key of that number, from the
/// first to the twenty-fourth; there are no others.
pub proof fn law_function_keys_are_numbered(number: nat)
    ensures
        key_of_name(seq!['f'] + decimal(number)) == (if 1 <= number <= 24 {
            Some((0x6F + number) as u16)
        } else {
            None
        }),
{
    lemma_key_names_differ();
    lemma_digits_read_back(number);
    let key = seq!['f'] + decimal(number);
    assert(key.drop_first() =~= decimal(number));
    assert(key[0] == 'f');
    assert(is_digit(decimal(number)[0]));
}

/// The text is written without white space and without capitals.
pub open spec fn is_plain(text: Seq<char>) -> bool {
    forall|i: int|
        0 <= i < text.len() ==> !whitespace(#[trigger] text[i]) && !('A' <= text[i] <= 'Z')
}

proof fn lemma_without_spaces(text: Seq<char>)
    requires
        forall|i: int| 0 <= i < text.len() ==> #[trigger] text[i] != ' ',
    ensures
        without_spaces(text) == text,
    decreases text.len(),
{
    if text.len() > 0 {
        lemma_without_spaces(text.drop_last());
        assert(text.drop_last().push(text.last()) =~= text);
    }
}

proof fn lemma_plain_is_normal(text: Seq<char>)
    requires
        is_plain(text),
    ensures
        normalized(text) == text,
{
    lemma_trim_start(text, 0);
    assert(text.skip(0) =~= text);
    lemma_trim_end(text, text.len() as int);
    assert(text.take(text.len() as int) =~= text);
    assert(ascii_lower_text(text) =~= text);
    lemma_without_spaces(text);
}

proof fn lemma_parts_of_joined(left: Seq<char>, right: Seq<char>)
    ensures
        plus_parts(left.push('+') + right) == plus_parts(left) + plus_parts(right),
        plus_parts(right).len() > 0,
    decreases right.len(),
{
    let joined = left.push('+') + right;
    if right.len() == 0 {
        assert(joined =~= left.push('+'));
        assert(joined.drop_last() =~= left);
        assert(plus_parts(left).push(Seq::empty()) =~= plus_parts(left) + seq![Seq::empty()]);
    } else {
        lemma_parts_of_joined(left, right.drop_last());
        assert(joined.drop_last() =~= left.push('+') + right.drop_last());
        let before = plus_parts(left);
        let parts = plus_parts(right.drop_last());
        if right.last() == '+' {
            assert((before + parts).push(Seq::empty()) =~= before + parts.push(Seq::empty()));
        } else {
            let last = parts.last().push(right.last());
            assert((before + parts).drop_last().push(last) =~= before + parts.drop_last().push(last));
        }
    }
}

proof fn lemma_one_part(text: Seq<char>)
    requires
        !text.contains('+'),
    ensures
        plus_parts(text) == seq![text],
    decreases text.len(),
{
    if text.len() > 0 {
        assert(text.last() != '+') by {
            assert(text[text.len() - 1] == text.last());
        }
        assert(!text.drop_last().contains('+')) by {
            if text.drop_last().contains('+') {
                let i = choose|i: int|
                    0 <= i < text.drop_last().len() && text.drop_last()[i] == '+';
                assert(text[i] == '+');
            }
        }
        lemma_one_part(text.drop_last());
        let parts = plus_parts(text.drop_last());
        assert(parts.last().push(text.last()) =~= text);
        assert(parts.drop_last().push(text) =~= seq![text]);
    } else {
        assert(text =~= Seq::empty());
    }
}

/// The reading of the parts behind a modifier is that of the parts alone, with
/// the modifier required as well.
proof fn lemma_leading_modifier(name: Seq<char>, parts: Seq<Seq<char>>)
    requires
        name.len() > 0,
        is_ctrl_name(name) || is_alt_name(name) || name == "shift"@ || is_meta_name(name),
    ensures
        ({
            let alone = read_parts(parts);
            let led = read_parts(seq![name] + parts);
            let first = read_part(
                HotkeyReading { required: no_modifiers(), main_key: None, valid: true },
                name,
            ).required;
            &&& led.valid == alone.valid
            &&& led.main_key == alone.main_key
            &&& led.required == HotkeyModifiers {
                ctrl: alone.required.ctrl || first.ctrl,
                alt: alone.required.alt || first.alt,
                shift: alone.required.shift || first.shift,
                meta: alone.required.meta || first.meta,
            }
        }),
    decreases parts.len(),
{
    let all = seq![name] + parts;
    if parts.len() == 0 {
        assert(all.drop_last() =~= Seq::empty());
        assert(all.last() == name);
        assert(read_parts(all.drop_last()) == HotkeyReading {
            required: no_modifiers(),
            main_key: None,
            valid: true,
        });
    } else {
        lemma_leading_modifier(name, parts.drop_last());
        assert(all.drop_last() =~= seq![name] + parts.drop_last());
        assert(all.last() == parts.last());
    }
}

proof fn lemma_modifier_names()
    ensures
        "ctrl"@ == seq!['c', 't', 'r', 'l'],
        "control"@ == seq!['c', 'o', 'n', 't', 'r', 'o', 'l'],
        "alt"@ == seq!['a', 'l', 't'],
        "option"@ == seq!['o', 'p', 't', 'i', 'o', 'n'],
        "shift"@ == seq!['s', 'h', 'i', 'f', 't'],
        "meta"@ == seq!['m', 'e', 't', 'a'],
        "cmd"@ == seq!['c', 'm', 'd'],
        "command"@ == seq!['c', 'o', 'm', 'm', 'a', 'n', 'd'],
        "win"@ == seq!['w', 'i', 'n'],
        "windows"@ == seq!['w', 'i', 'n', 'd', 'o', 'w', 's'],
        "super"@ == seq!['s', 'u', 'p', 'e', 'r'],
        "os"@ == seq!['o', 's'],
        "disabled"@ == seq!['d', 'i', 's', 'a', 'b', 'l', 'e', 'd'],
        "disable"@ == seq!['d', 'i', 's', 'a', 'b', 'l', 'e'],
        "off"@ == seq!['o', 'f', 'f'],
        "none"@ == seq!['n', 'o', 'n', 'e'],
{
    reveal_strlit("ctrl");
    reveal_strlit("control");
    reveal_strlit("alt");
    reveal_strlit("option");
    reveal_strlit("shift");
    reveal_strlit("meta");
    reveal_strlit("cmd");
    reveal_strlit("command");
    reveal_strlit("win");
    reveal_strlit("windows");
    reveal_strlit("super");
    reveal_strlit("os");
    reveal_strlit("disabled");
    reveal_strlit("disable");
    reveal_strlit("off");
    reveal_strlit("none");
}

/// A modifier name and a plus sign in front of a notation.
pub open spec fn led_by(name: Seq<char>, value: Seq<char>) -> Seq<char> {
    name.push('+') + value
}

proof fn lemma_led_by(name: Seq<char>, value: Seq<char>)
    requires
        is_plain(value),
        is_plain(name),
        name.len() > 0,
        !name.contains('+'),
        is_ctrl_name(name) || is_alt_name(name) || name == "shift"@ || is_meta_name(name),
    ensures
        ({
            let alone = read_parts(plus_parts(normalized(value)));
            let led = read_parts(plus_parts(normalized(led_by(name, value))));
            let first = read_part(
                HotkeyReading { required: no_modifiers(), main_key: None, valid: true },
                name,
            ).required;
            &&& led.valid == alone.valid
            &&& led.main_key == alone.main_key
            &&& led.required == HotkeyModifiers {
                ctrl: alone.required.ctrl || first.ctrl,
                alt: alone.required.alt || first.alt,
                shift: alone.required.shift || first.shift,
                meta: alone.required.meta || first.meta,
            }
        }),
        is_disabled(normalized(value)) ==> !(read_parts(
            plus_parts(normalized(value)),
        ).main_key is Some),
        !is_disabled(normalized(led_by(name, value))),
{
    let text = led_by(name, value);
    assert forall|i: int| 0 <= i < text.len() implies !whitespace(#[trigger] text[i]) && !('A'
        <= text[i] <= 'Z') by {
        if i < name.len() {
            assert(text[i] == name[i]);
        } else if i > name.len() {
            assert(text[i] == value[i - name.len() - 1]);
        }
    }
    lemma_plain_is_normal(value);
    lemma_plain_is_normal(text);
    lemma_parts_of_joined(name, value);
    lemma_one_part(name);
    lemma_leading_modifier(name, plus_parts(value));
    lemma_modifier_names();
    assert(text[name.len() as int] == '+');
    if is_disabled(value) {
        assert(!value.contains('+'));
        lemma_one_part(value);
        let parts = plus_parts(value);
        assert(parts.drop_last() =~= Seq::empty());
        assert(parts.last() == value);
        assert(read_parts(parts.drop_last()).main_key is None);
        lemma_key_names_differ();
    }
}

/// A control name in front of a notation asks for the control key as well and
/// changes nothing else; likewise for each of the other modifiers.
pub proof fn law_modifier_names_add_their_modifier(
    name: Seq<char>,
    value: Seq<char>,
    key_code: u16,
    modifiers: HotkeyModifiers,
)
    requires
        is_plain(value),
    ensures
        name == "ctrl"@ || name == "control"@ ==> (is_hotkey(led_by(name, value), key_code, modifiers)
            <==> modifiers.ctrl && (is_hotkey(value, key_code, modifiers) || is_hotkey(
            value,
            key_code,
            HotkeyModifiers { ctrl: false, ..modifiers },
        ))),
        name == "alt"@ || name == "option"@ ==> (is_hotkey(led_by(name, value), key_code, modifiers)
            <==> modifiers.alt && (is_hotkey(value, key_code, modifiers) || is_hotkey(
            value,
            key_code,
            HotkeyModifiers { alt: false, ..modifiers },
        ))),
        name == "shift"@ ==> (is_hotkey(led_by(name, value), key_code, modifiers)
            <==> modifiers.shift && (is_hotkey(value, key_code, modifiers) || is_hotkey(
            value,
            key_code,
            HotkeyModifiers { shift: false, ..modifiers },
        ))),
        name == "meta"@ || name == "cmd"@ || name == "command"@ || name == "win"@ || name
            == "windows"@ || name == "super"@ || name == "os"@ ==> (is_hotkey(
            led_by(name, value),
            key_code,
            modifiers,
        ) <==> modifiers.meta && (is_hotkey(value, key_code, modifiers) || is_hotkey(
            value,
            key_code,
            HotkeyModifiers { meta: false, ..modifiers },
        ))),
{
    lemma_modifier_names();
    if is_ctrl_name(name) || is_alt_name(name) || name == "shift"@ || is_meta_name(name) {
        lemma_led_by(name, value);
    }
}

/// A notation that is the bare name of a key is that key without modifiers, and
/// one that names two keys is none.
pub proof fn law_bare_keys_stand_alone(
    key: Seq<char>,
    other: Seq<char>,
    key_code: u16,
    modifiers: HotkeyModifiers,
)
    requires
        is_plain(key),
        is_plain(other),
        !key.contains('+'),
        !other.contains('+'),
        key_of_name(key) is Some,
        key_of_name(other) is Some,
    ensures
        is_hotkey(key, key_code, modifiers) <==> key_of_name(key) == Some(key_code)
            && !modifiers.ctrl && !modifiers.alt && !modifiers.shift && !modifiers.meta,
        !is_hotkey(led_by(key, other), key_code, modifiers),
{
    lemma_modifier_names();
    lemma_key_names_differ();
    lemma_plain_is_normal(key);
    lemma_one_part(key);
    lemma_one_part(other);
    let parts = plus_parts(key);
    assert(parts.drop_last() =~= Seq::empty());
    assert(parts.last() == key);
    assert(read_parts(parts.drop_last()).valid);
    let text = led_by(key, other);
    assert forall|i: int| 0 <= i < text.len() implies !whitespace(#[trigger] text[i]) && !('A'
        <= text[i] <= 'Z') by {
        if i < key.len() {
            assert(text[i] == key[i]);
        } else if i > key.len() {
            assert(text[i] == other[i - key.len() - 1]);
        }
    }
    lemma_plain_is_normal(text);
    lemma_parts_of_joined(key, other);
    let both = plus_parts(text);
    assert(both =~= seq![key, other]);
    assert(both.drop_last() =~= seq![key]);
    assert(both.last() == other);
    assert(read_parts(seq![key]) == read_parts(parts));
}

/// A direction behind the alt name is the arrow key of that direction with the
/// alt key held and no other.
pub proof fn law_alt_arrows_are_exact(key_code: u16, modifiers: HotkeyModifiers)
    ensures
        ({
            let alt_alone = modifiers.alt && !modifiers.ctrl && !modifiers.shift && !modifiers.meta;
            &&& is_hotkey("alt+left"@, key_code, modifiers) <==> key_code == 0x25 && alt_alone
            &&& is_hotkey("alt+up"@, key_code, modifiers) <==> key_code == 0x26 && alt_alone
            &&& is_hotkey("alt+right"@, key_code, modifiers) <==> key_code == 0x27 && alt_alone
            &&& is_hotkey("alt+down"@, key_code, modifiers) <==> key_code == 0x28 && alt_alone
        }),
{
    lemma_modifier_names();
    lemma_key_names_differ();
    reveal_strlit("alt+left");
    reveal_strlit("alt+up");
    reveal_strlit("alt+right");
    reveal_strlit("alt+down");
    assert("alt+left"@ =~= led_by("alt"@, "left"@));
    assert("alt+up"@ =~= led_by("alt"@, "up"@));
    assert("alt+right"@ =~= led_by("alt"@, "right"@));
    assert("alt+down"@ =~= led_by("alt"@, "down"@));
    let plain = HotkeyModifiers { alt: false, ..modifiers };
    law_arrow_names_keep_their_direction("left"@);
    law_arrow_names_keep_their_direction("up"@);
    law_arrow_names_keep_their_direction("right"@);
    law_arrow_names_keep_their_direction("down"@);
    law_modifier_names_add_their_modifier("alt"@, "left"@, key_code, modifiers);
    law_modifier_names_add_their_modifier("alt"@, "up"@, key_code, modifiers);
    law_modifier_names_add_their_modifier("alt"@, "right"@, key_code, modifiers);
    law_modifier_names_add_their_modifier("alt"@, "down"@, key_code, modifiers);
    law_bare_keys_stand_alone("left"@, "up"@, key_code, modifiers);
    law_bare_keys_stand_alone("left"@, "up"@, key_code, plain);
    law_bare_keys_stand_alone("up"@, "right"@, key_code, modifiers);
    law_bare_keys_stand_alone("up"@, "right"@, key_code, plain);
    law_bare_keys_stand_alone("right"@, "down"@, key_code, modifiers);
    law_bare_keys_stand_alone("right"@, "down"@, key_code, plain);
    law_bare_keys_stand_alone("down"@, "left"@, key_code, modifiers);
    law_bare_keys_stand_alone("down"@, "left"@, key_code, plain);
}

proof fn lemma_spaces_go(left: Seq<char>, right: Seq<char>)
    ensures
        without_spaces(left + right) == without_spaces(left) + without_spaces(right),
    decreases right.len(),
{
    if right.len() == 0 {
        assert(left + right =~= left);
        assert(without_spaces(left) + Seq::<char>::empty() =~= without_spaces(left));
    } else {
        lemma_spaces_go(left, right.drop_last());
        assert((left + right).drop_last() =~= left + right.drop_last());
        assert((without_spaces(left) + without_spaces(right.drop_last())).push(right.last())
            =~= without_spaces(left) + without_spaces(right.drop_last()).push(right.last()));
    }
}

/// A space before, within or behind a notation makes no difference.
pub proof fn law_spaces_make_no_difference(
    left: Seq<char>,
    right: Seq<char>,
    key_code: u16,
    modifiers: HotkeyModifiers,
)
    requires
        is_plain(left),
        is_plain(right),
    ensures
        is_hotkey(left.push(' ') + right, key_code, modifiers) == is_hotkey(
            left + right,
            key_code,
            modifiers,
        ),
{
    let spaced = left.push(' ') + right;
    let joined = left + right;
    assert forall|i: int| 0 <= i < joined.len() implies !whitespace(#[trigger] joined[i]) && !('A'
        <= joined[i] <= 'Z') by {
        if i < left.len() {
            assert(joined[i] == left[i]);
        } else {
            assert(joined[i] == right[i - left.len()]);
        }
    }
    lemma_plain_is_normal(joined);
    if left.len() == 0 {
        assert(spaced.drop_first() =~= joined);
        assert(spaced[0] == ' ');
        assert(trimmed_start(spaced) == trimmed_start(joined));
    } else if right.len() == 0 {
        assert(spaced.drop_last() =~= joined);
        assert(spaced[0] == left[0]);
        assert(spaced.last() == ' ');
        lemma_trim_start(spaced, 0);
        lemma_trim_start(joined, 0);
        assert(spaced.skip(0) =~= spaced);
        assert(joined.skip(0) =~= joined);
        assert(trimmed_end(spaced) == trimmed_end(joined));
    } else {
        assert(spaced[0] == left[0]);
        assert(spaced[spaced.len() - 1] == right[right.len() - 1]);
        lemma_trim_start(spaced, 0);
        assert(spaced.skip(0) =~= spaced);
        lemma_trim_end(spaced, spaced.len() as int);
        assert(spaced.take(spaced.len() as int) =~= spaced);
        assert forall|i: int| 0 <= i < spaced.len() implies #[trigger] ascii_lower_text(spaced)[i]
            == spaced[i] by {
            if i < left.len() {
                assert(spaced[i] == left[i]);
            } else if i > left.len() {
                assert(spaced[i] == right[i - left.len() - 1]);
            }
        }
        assert(ascii_lower_text(spaced) =~= spaced);
        lemma_spaces_go(left.push(' '), right);
        lemma_spaces_go(left, right);
        assert(left.push(' ').drop_last() =~= left);
        assert(without_spaces(left.push(' ')) == without_spaces(left));
        lemma_without_spaces(joined);
    }
}

proof fn lemma_lowered_start(text: Seq<char>)
    ensures
        trimmed_start(ascii_lower_text(text)) == ascii_lower_text(trimmed_start(text)),
    decreases text.len(),
{
    if text.len() > 0 && whitespace(text[0]) {
        lemma_lowered_start(text.drop_first());
        assert(ascii_lower_text(text).drop_first() =~= ascii_lower_text(text.drop_first()));
    }
}

proof fn lemma_lowered_end(text: Seq<char>)
    ensures
        trimmed_end(ascii_lower_text(text)) == ascii_lower_text(trimmed_end(text)),
    decreases text.len(),
{
    if text.len() > 0 && whitespace(text.last()) {
        lemma_lowered_end(text.drop_last());
        assert(ascii_lower_text(text).drop_last() =~= ascii_lower_text(text.drop_last()));
    }
}

/// A notation may be written in capitals: two that agree but for the case of
/// their letters are the same hotkey.
pub proof fn law_case_makes_no_difference(
    value: Seq<char>,
    other: Seq<char>,
    key_code: u16,
    modifiers: HotkeyModifiers,
)
    requires
        ascii_lower_text(value) == ascii_lower_text(other),
    ensures
        is_hotkey(value, key_code, modifiers) == is_hotkey(other, key_code, modifiers),
{
    lemma_lowered_start(value);
    lemma_lowered_start(other);
    lemma_lowered_end(trimmed_start(value));
    lemma_lowered_end(trimmed_start(other));
}

/// Each of the four switch hotkeys switches, and no other key press does.
pub proof fn law_every_switch_hotkey_switches(
    hotkeys: ScreenSwitchHotkeys,
    key_code: u16,
    modifiers: HotkeyModifiers,
    value: Seq<char>,
)
    requires
        value == hotkeys.left@ || value == hotkeys.right@ || value == hotkeys.up@ || value
            == hotkeys.down@,
    ensures
        is_hotkey(value, key_code, modifiers) ==> is_switch_hotkey(hotkeys, key_code, modifiers),
        is_switch_hotkey(hotkeys, key_code, modifiers) ==> exists|notation: Seq<char>|
            #[trigger] is_hotkey(notation, key_code, modifiers) && (notation == hotkeys.left@
                || notation == hotkeys.right@ || notation == hotkeys.up@ || notation
                == hotkeys.down@),
{
}

} // verus!
