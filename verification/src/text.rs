//! Small verified string operations that the other modules share.

use vstd::prelude::*;
use vstd::string::*;
use vstd::utf8::*;

verus! {

/// Whether two strings hold the same characters.
pub fn same_text(left: &str, right: &str) -> (same: bool)
    ensures
        same == (left@ == right@),
{
    let left_bytes = left.as_bytes();
    let right_bytes = right.as_bytes();
    if left_bytes.len() != right_bytes.len() {
        assert(left@ != right@);
        return false;
    }
    let mut index: usize = 0;
    while index < left_bytes.len()
        invariant
            index <= left_bytes.len(),
            left_bytes.len() == right_bytes.len(),
            left_bytes@ == encode_utf8(left@),
            right_bytes@ == encode_utf8(right@),
            forall|i: int| 0 <= i < index ==> left_bytes@[i] == right_bytes@[i],
        decreases left_bytes.len() - index,
    {
        if left_bytes[index] != right_bytes[index] {
            assert(left_bytes@ != right_bytes@);
            return false;
        }
        index += 1;
    }
    proof {
        assert(left_bytes@ =~= right_bytes@);
        encode_utf8_decode_utf8(left@);
        encode_utf8_decode_utf8(right@);
    }
    true
}

/// The decimal digit `value` as a character.
pub open spec fn digit_char(value: nat) -> char
    recommends
        value < 10,
{
    ('0' as u8 + value) as char
}

/// `value` in decimal, without leading zeros.
pub open spec fn decimal(value: nat) -> Seq<char>
    decreases value,
{
    if value < 10 {
        seq![digit_char(value)]
    } else {
        decimal(value / 10).push(digit_char(value % 10))
    }
}

/// A number is spelled with digits alone.
pub proof fn lemma_decimal_digits(value: nat)
    ensures
        decimal(value).len() > 0,
        forall|c: char| #[trigger] decimal(value).contains(c) ==> '0' <= c <= '9',
    decreases value,
{
    if value >= 10 {
        lemma_decimal_digits(value / 10);
        let front = decimal(value / 10);
        assert forall|c: char| #[trigger] decimal(value).contains(c) implies '0' <= c <= '9' by {
            let i = choose|i: int| 0 <= i < decimal(value).len() && decimal(value)[i] == c;
            if i < front.len() {
                assert(front.contains(front[i]));
            }
        }
    }
}

/// No two numbers are spelled alike.
pub proof fn lemma_decimal_is_exact(left: nat, right: nat)
    requires
        decimal(left) == decimal(right),
    ensures
        left == right,
    decreases left,
{
    assert(decimal(left).last() == digit_char(left % 10));
    assert(decimal(right).last() == digit_char(right % 10));
    lemma_decimal_digits(left / 10);
    lemma_decimal_digits(right / 10);
    if left >= 10 && right >= 10 {
        assert(decimal(left).drop_last() =~= decimal(left / 10));
        assert(decimal(right).drop_last() =~= decimal(right / 10));
        lemma_decimal_is_exact(left / 10, right / 10);
    }
}

/// The hexadecimal digit `value` as a lower case character.
pub open spec fn hex_char(value: nat) -> char
    recommends
        value < 16,
{
    if value < 10 {
        ('0' as u8 + value) as char
    } else {
        ('a' as u8 + (value - 10)) as char
    }
}

/// The lowest `digits` hexadecimal digits of `value`, most significant first.
pub open spec fn hex(value: nat, digits: nat) -> Seq<char>
    decreases digits,
{
    if digits == 0 {
        Seq::empty()
    } else {
        hex(value / 16, (digits - 1) as nat).push(hex_char(value % 16))
    }
}

fn hex_digit(value: u64) -> (digit: &'static str)
    requires
        value < 16,
    ensures
        digit@ == seq![hex_char(value as nat)],
{
    proof {
        reveal_strlit("0");
        reveal_strlit("1");
        reveal_strlit("2");
        reveal_strlit("3");
        reveal_strlit("4");
        reveal_strlit("5");
        reveal_strlit("6");
        reveal_strlit("7");
        reveal_strlit("8");
        reveal_strlit("9");
        reveal_strlit("a");
        reveal_strlit("b");
        reveal_strlit("c");
        reveal_strlit("d");
        reveal_strlit("e");
        reveal_strlit("f");
    }
    match value {
        0 => "0",
        1 => "1",
        2 => "2",
        3 => "3",
        4 => "4",
        5 => "5",
        6 => "6",
        7 => "7",
        8 => "8",
        9 => "9",
        10 => "a",
        11 => "b",
        12 => "c",
        13 => "d",
        14 => "e",
        _ => "f",
    }
}

/// Appends `value` in decimal.
pub fn append_decimal(text: &mut String, value: u64)
    ensures
        final(text)@ == old(text)@ + decimal(value as nat),
    decreases value,
{
    let ghost before = text@;
    if value >= 10 {
        append_decimal(text, value / 10);
    }
    text.append(hex_digit(value % 10));
    proof {
        if value >= 10 {
            assert(text@ =~= before + decimal(value as nat));
        }
    }
}

/// Appends the lowest `digits` hexadecimal digits of `value`.
pub fn append_hex(text: &mut String, value: u64, digits: u64)
    ensures
        final(text)@ == old(text)@ + hex(value as nat, digits as nat),
    decreases digits,
{
    let ghost before = text@;
    if digits > 0 {
        append_hex(text, value / 16, digits - 1);
        text.append(hex_digit(value % 16));
    }
    assert(text@ =~= before + hex(value as nat, digits as nat));
}

/// The characters of a string.
pub fn chars_of(text: &str) -> (chars: Vec<char>)
    ensures
        chars@ == text@,
{
    let mut chars: Vec<char> = Vec::new();
    for character in iter: text.chars()
        invariant
            chars@ == text@.take(iter.index() as int),
            iter.seq() == text@,
    {
        chars.push(character);
    }
    assert(chars@ =~= text@);
    chars
}

/// A character of the Unicode White_Space class.
pub open spec fn whitespace(character: char) -> bool {
    let code = character as u32;
    ||| 0x09 <= code <= 0x0D
    ||| code == 0x20
    ||| code == 0x85
    ||| code == 0xA0
    ||| code == 0x1680
    ||| 0x2000 <= code <= 0x200A
    ||| code == 0x2028
    ||| code == 0x2029
    ||| code == 0x202F
    ||| code == 0x205F
    ||| code == 0x3000
}

pub fn is_whitespace(character: char) -> (is: bool)
    ensures
        is == whitespace(character),
{
    let code = character as u32;
    (0x09 <= code && code <= 0x0D) || code == 0x20 || code == 0x85 || code == 0xA0 || code
        == 0x1680 || (0x2000 <= code && code <= 0x200A) || code == 0x2028 || code == 0x2029 || code
        == 0x202F || code == 0x205F || code == 0x3000
}

/// Nothing is left of the text once surrounding white space is taken off.
pub open spec fn blank(text: Seq<char>) -> bool {
    forall|i: int| 0 <= i < text.len() ==> whitespace(#[trigger] text[i])
}

pub fn is_blank(text: &str) -> (is: bool)
    ensures
        is == blank(text@),
{
    let chars = chars_of(text);
    let mut index: usize = 0;
    while index < chars.len()
        invariant
            index <= chars@.len(),
            chars@ == text@,
            forall|i: int| 0 <= i < index ==> whitespace(#[trigger] text@[i]),
        decreases chars@.len() - index,
    {
        if !is_whitespace(chars[index]) {
            assert(!whitespace(text@[index as int]));
            return false;
        }
        index += 1;
    }
    true
}

/// The text behind `prefix`, if it starts with it.
pub open spec fn after_prefix(text: Seq<char>, prefix: Seq<char>) -> Option<Seq<char>> {
    if prefix.is_prefix_of(text) {
        Some(text.skip(prefix.len() as int))
    } else {
        None
    }
}

/// Strips `prefix` off the text, if it starts with it.
pub fn strip_prefix<'a>(text: &'a str, prefix: &str) -> (rest: Option<&'a str>)
    ensures
        rest is Some <==> after_prefix(text@, prefix@) is Some,
        rest matches Some(rest) ==> Some(rest@) == after_prefix(text@, prefix@),
{
    let chars = chars_of(text);
    let wanted = chars_of(prefix);
    if wanted.len() > chars.len() {
        return None;
    }
    let mut index: usize = 0;
    while index < wanted.len()
        invariant
            index <= wanted@.len() <= chars@.len(),
            chars@ == text@,
            wanted@ == prefix@,
            forall|i: int| 0 <= i < index ==> text@[i] == prefix@[i],
        decreases wanted@.len() - index,
    {
        if chars[index] != wanted[index] {
            proof {
                if prefix@.is_prefix_of(text@) {
                    assert(text@.subrange(0, prefix@.len() as int)[index as int]
                        == text@[index as int]);
                }
            }
            return None;
        }
        index += 1;
    }
    proof {
        assert(prefix@ =~= text@.subrange(0, prefix@.len() as int));
    }
    let rest = text.substring_char(wanted.len(), chars.len());
    assert(rest@ =~= text@.skip(prefix@.len() as int));
    Some(rest)
}

/// `character` in lower case, if it is an ASCII letter.
pub open spec fn ascii_lower(character: char) -> char {
    if 'A' <= character <= 'Z' {
        (character as u32 + 32) as char
    } else {
        character
    }
}

pub open spec fn ascii_lower_text(text: Seq<char>) -> Seq<char> {
    text.map_values(|character: char| ascii_lower(character))
}

/// `character` in lower case, if it is an ASCII letter.
pub fn to_ascii_lower(character: char) -> (lower: char)
    ensures
        lower == ascii_lower(character),
{
    if 'A' <= character && character <= 'Z' {
        let code: u8 = character as u8;
        (code + 32) as char
    } else {
        character
    }
}

/// Whether two strings agree up to the case of ASCII letters.
pub fn eq_ignore_ascii_case(left: &str, right: &str) -> (same: bool)
    ensures
        same == (ascii_lower_text(left@) == ascii_lower_text(right@)),
{
    let first = chars_of(left);
    let second = chars_of(right);
    if first.len() != second.len() {
        assert(ascii_lower_text(left@).len() != ascii_lower_text(right@).len());
        return false;
    }
    let mut index: usize = 0;
    while index < first.len()
        invariant
            index <= first@.len(),
            first@ == left@,
            second@ == right@,
            left@.len() == right@.len(),
            forall|i: int|
                0 <= i < index ==> ascii_lower_text(left@)[i] == ascii_lower_text(right@)[i],
        decreases first@.len() - index,
    {
        if to_ascii_lower(first[index]) != to_ascii_lower(second[index]) {
            assert(ascii_lower_text(left@)[index as int] != ascii_lower_text(right@)[index as int]);
            return false;
        }
        index += 1;
    }
    assert(ascii_lower_text(left@) =~= ascii_lower_text(right@));
    true
}

/// The number that a run of decimal digits stands for.
pub open spec fn decimal_value(text: Seq<char>) -> int
    decreases text.len(),
{
    if text.len() == 0 {
        0
    } else {
        10 * decimal_value(text.drop_last()) + (text.last() as int - 48)
    }
}

/// A number that is written in decimal reads back as itself, and does not begin
/// with a zero unless it is zero.
pub proof fn law_decimal_reads_back(value: nat)
    ensures
        decimal_value(decimal(value)) == value,
        decimal(value).len() > 0,
        value > 0 ==> decimal(value)[0] != '0',
    decreases value,
{
    if value >= 10 {
        law_decimal_reads_back(value / 10);
        assert(decimal(value).drop_last() =~= decimal(value / 10));
        assert(decimal(value)[0] == decimal(value / 10)[0]);
    } else {
        assert(decimal(value).drop_last() =~= Seq::empty());
        assert(decimal_value(Seq::<char>::empty()) == 0);
    }
}

/// The number that a run of lower case hexadecimal digits stands for.
pub open spec fn hex_value(text: Seq<char>) -> int
    decreases text.len(),
{
    if text.len() == 0 {
        0
    } else {
        16 * hex_value(text.drop_last()) + (if '0' <= text.last() <= '9' {
            text.last() as int - 48
        } else {
            text.last() as int - 97 + 10
        })
    }
}

/// How many numbers can be written in so many hexadecimal digits.
pub open spec fn hex_range(digits: nat) -> nat
    decreases digits,
{
    if digits == 0 {
        1
    } else {
        16 * hex_range((digits - 1) as nat)
    }
}

/// A number that is written in enough hexadecimal digits reads back as itself,
/// and takes exactly those digits.
pub proof fn law_hex_reads_back(value: nat, digits: nat)
    ensures
        hex(value, digits).len() == digits,
        value < hex_range(digits) ==> hex_value(hex(value, digits)) == value,
    decreases digits,
{
    if digits > 0 {
        law_hex_reads_back(value / 16, (digits - 1) as nat);
        assert(hex(value, digits).drop_last() =~= hex(value / 16, (digits - 1) as nat));
    }
}

/// Only the capital letters of ASCII have another lower case: thirty-two places
/// on.
pub proof fn law_lower_case_is_of_letters(character: char)
    ensures
        'A' <= character <= 'Z' ==> ascii_lower(character) as int == character as int + 32,
        !('A' <= character <= 'Z') ==> ascii_lower(character) == character,
        ascii_lower(ascii_lower(character)) == ascii_lower(character),
{
}

/// What stands behind a prefix is what was put there, and a text that does not
/// start with the prefix has nothing behind it.
pub proof fn law_prefixes_come_off(text: Seq<char>, prefix: Seq<char>, rest: Seq<char>)
    ensures
        after_prefix(prefix + rest, prefix) == Some(rest),
        after_prefix(text, prefix) matches Some(tail) ==> text == prefix + tail,
{
    assert((prefix + rest).skip(prefix.len() as int) =~= rest);
    if prefix.is_prefix_of(text) {
        assert(text =~= prefix + text.skip(prefix.len() as int));
    }
}

} // verus!
