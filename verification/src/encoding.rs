//! The encodings that clipboard pictures travel and rest in.

use base64::Engine;
use image::{ImageDecoder, ImageEncoder};
use vstd::prelude::*;
use vstd::string::*;
use vstd::utf8::{char_is_scalar, char_u32_cast, encode_scalar, encode_utf8, is_ascii_chars};

verus! {

/// The character that stands for six bits in standard base64.
pub open spec fn base64_digit(value: int) -> char {
    if value < 26 {
        ('A' as u8 + value) as char
    } else if value < 52 {
        ('a' as u8 + (value - 26)) as char
    } else if value < 62 {
        ('0' as u8 + (value - 52)) as char
    } else if value == 62 {
        '+'
    } else {
        '/'
    }
}

/// `bytes` in standard base64: three bytes become four characters, and a
/// shorter last group is padded with `=`.
pub open spec fn base64_text(bytes: Seq<u8>) -> Seq<char>
    decreases bytes.len(),
{
    if bytes.len() == 0 {
        Seq::empty()
    } else {
        let first = bytes[0] as int;
        let second = if bytes.len() > 1 {
            bytes[1] as int
        } else {
            0
        };
        let third = if bytes.len() > 2 {
            bytes[2] as int
        } else {
            0
        };
        let group = seq![
            base64_digit(first / 4),
            base64_digit(first % 4 * 16 + second / 16),
            if bytes.len() > 1 {
                base64_digit(second % 16 * 4 + third / 64)
            } else {
                '='
            },
            if bytes.len() > 2 {
                base64_digit(third % 64)
            } else {
                '='
            },
        ];
        if bytes.len() > 3 {
            group + base64_text(bytes.skip(3))
        } else {
            group
        }
    }
}

/// How many `=` fill up the last group of a base64 text: none, one or two.
pub open spec fn padding(text: Seq<char>) -> int {
    if text.len() == 0 || text.last() != '=' {
        0
    } else if text.len() == 1 || text[text.len() - 2] != '=' {
        1
    } else {
        2
    }
}

proof fn lemma_encoded_last(text: Seq<char>)
    requires
        text.len() > 0,
    ensures
        encode_utf8(text) == encode_utf8(text.drop_last()) + encode_scalar(text.last() as u32),
    decreases text.len(),
{
    if text.len() == 1 {
        assert(text.drop_first() =~= Seq::<char>::empty());
        assert(encode_utf8(text.drop_first()) =~= Seq::<u8>::empty());
        assert(text.last() == text[0]);
        assert(text.drop_last() =~= Seq::<char>::empty());
        assert(encode_utf8(text) =~= encode_scalar(text.last() as u32));
        assert(encode_utf8(text.drop_last()) + encode_scalar(text.last() as u32)
            =~= encode_scalar(text.last() as u32));
    } else {
        let tail = text.drop_first();
        lemma_encoded_last(tail);
        assert(tail.drop_last() =~= text.drop_last().drop_first());
        assert(tail.last() == text.last());
        assert(text.drop_last()[0] == text[0]);
        assert(encode_utf8(text) =~= encode_utf8(text.drop_last()) + encode_scalar(
            text.last() as u32,
        ));
    }
}

/// A text ends in `=` where its bytes do.
proof fn lemma_last_byte(text: Seq<char>)
    ensures
        (encode_utf8(text).len() > 0) == (text.len() > 0),
        text.len() > 0 ==> (encode_utf8(text).last() == 0x3d) == (text.last() == '='),
        text.len() > 0 && text.last() == '=' ==> encode_utf8(text).drop_last() == encode_utf8(
            text.drop_last(),
        ),
{
    if text.len() > 0 {
        lemma_encoded_last(text);
        let scalar = text.last() as u32;
        char_is_scalar(text.last());
        assert(scalar <= 0x7f ==> (scalar & 0x7f) as u8 == scalar) by (bit_vector);
        assert(0x80u8 | ((scalar & 0x3f) as u8) != 0x3du8) by (bit_vector);
        assert(encode_utf8(text).last() == encode_scalar(scalar).last());
        assert(scalar == 0x3d ==> text.last() == '=') by {
            char_u32_cast(text.last(), scalar);
        }
        if text.last() == '=' {
            assert(encode_utf8(text).drop_last() =~= encode_utf8(text.drop_last()));
        }
    }
}

/// Counts the padding of a base64 text.
pub(crate) fn padding_count(text: &str) -> (count: usize)
    ensures
        count == padding(text@),
{
    proof {
        lemma_last_byte(text@);
        if text@.len() > 0 {
            lemma_last_byte(text@.drop_last());
        }
    }
    let bytes = text.as_bytes();
    let len: usize = bytes.len();
    if len == 0 || bytes[len - 1] != 0x3d {
        return 0;
    }
    assert(bytes@.drop_last() == encode_utf8(text@.drop_last()));
    if len == 1 || bytes[len - 2] != 0x3d {
        return 1;
    }
    2
}

/// The bytes that `text` is the encoding of.
pub open spec fn base64_bytes(text: Seq<char>) -> Option<Seq<u8>> {
    if exists|bytes: Seq<u8>| base64_text(bytes) == text {
        Some(choose|bytes: Seq<u8>| base64_text(bytes) == text)
    } else {
        None
    }
}

/// What the base64 decoder says of a text that is no base64.
pub uninterp spec fn base64_complaint(text: Seq<char>) -> Seq<char>;

/// Calls `encode` of the `base64` crate's `STANDARD` engine. The contract claims
/// that the result is the padded standard encoding of `bytes`. The bound keeps
/// the length of the result within what a `String` can hold on every machine.
#[verifier::external_body]
pub(crate) fn encode_base64(bytes: &[u8]) -> (text: String)
    requires
        bytes@.len() <= 0x2fff_ffff,
    ensures
        text@ == base64_text(bytes@),
{
    base64::engine::general_purpose::STANDARD.encode(bytes)
}

/// Calls `decode` of the `base64` crate's `STANDARD` engine. The engine insists
/// on canonical padding and on zero trailing bits, so the contract claims that
/// it gives bytes back for exactly the texts that are the encoding of some
/// bytes, and then those bytes; otherwise its complaint, as text.
#[verifier::external_body]
pub(crate) fn decode_base64(text: &str) -> (decoded: Result<Vec<u8>, String>)
    ensures
        match decoded {
            Ok(bytes) => base64_text(bytes@) == text@,
            Err(complaint) => {
                &&& forall|bytes: Seq<u8>| #[trigger] base64_text(bytes) != text@
                &&& complaint@ == base64_complaint(text@)
            },
        },
{
    match base64::engine::general_purpose::STANDARD.decode(text) {
        Ok(bytes) => Ok(bytes),
        Err(error) => Err(format!("{error}")),
    }
}

/// The picture that a PNG stream shows: width, height and RGBA pixels, top row
/// first.
pub uninterp spec fn png_picture(png: Seq<u8>) -> (u32, u32, Seq<u8>);

/// What the PNG encoder says of dimensions that no PNG can have.
pub open spec fn png_complaint(width: u32, height: u32) -> Option<Seq<char>> {
    if width == 0 {
        Some("Zero width not allowed"@)
    } else if height == 0 {
        Some("Zero height not allowed"@)
    } else {
        None
    }
}

/// Calls `write_image` of the `image` crate's `PngEncoder` on a buffer in
/// memory. The contract claims that it refuses exactly a width or a height of
/// zero, in those words, and that a stream that comes back shows exactly the
/// given picture. How the stream is compressed is left open: the crate promises
/// nothing of it. The encoder panics where the buffer does not have the size
/// that the dimensions ask for.
#[verifier::external_body]
pub(crate) fn encode_png(rgba: &[u8], width: u32, height: u32) -> (png: Result<Vec<u8>, String>)
    requires
        rgba@.len() == 4 * (width * height),
    ensures
        match png {
            Ok(png) => {
                &&& png_complaint(width, height) is None
                &&& png_picture(png@) == (width, height, rgba@)
            },
            Err(complaint) => png_complaint(width, height) == Some(complaint@),
        },
{
    let mut png = Vec::new();
    match image::codecs::png::PngEncoder::new(&mut png)
        .write_image(rgba, width, height, image::ExtendedColorType::Rgba8) {
        Ok(()) => Ok(png),
        Err(error) => Err(format!("{error}")),
    }
}

/// The picture in a bitmap that starts with its information header: width,
/// height and RGBA pixels, top row first; `None` where it cannot be read.
pub uninterp spec fn dib_picture(data: Seq<u8>) -> Option<(u32, u32, Seq<u8>)>;

/// Calls `new_without_file_header` of the `image` crate's `BmpDecoder` and turns
/// the decoder into RGBA pixels with `DynamicImage::from_decoder`. The contract
/// claims that the outcome depends on the bytes alone and that there are four
/// bytes for each pixel. Nothing is claimed of a machine without the memory for
/// the picture that the header announces.
#[verifier::external_body]
pub(crate) fn decode_dib(data: &[u8]) -> (picture: Option<(u32, u32, Vec<u8>)>)
    ensures
        match picture {
            Some((width, height, rgba)) => {
                &&& dib_picture(data@) == Some((width, height, rgba@))
                &&& rgba@.len() == 4 * (width * height)
            },
            None => dib_picture(data@) is None,
        },
{
    let cursor = std::io::Cursor::new(data);
    let decoder = image::codecs::bmp::BmpDecoder::new_without_file_header(cursor).ok()?;
    let (width, height) = decoder.dimensions();
    let rgba = image::DynamicImage::from_decoder(decoder).ok()?.into_rgba8();
    Some((width, height, rgba.into_raw()))
}

proof fn lemma_digits_differ(left: int, right: int)
    requires
        0 <= left < 64,
        0 <= right < 64,
        base64_digit(left) == base64_digit(right),
    ensures
        left == right,
        base64_digit(left) != '=',
{
}

/// Base64 loses nothing: two byte strings with the same text are equal.
pub proof fn law_base64_is_injective(left: Seq<u8>, right: Seq<u8>)
    requires
        base64_text(left) == base64_text(right),
    ensures
        left == right,
    decreases left.len(),
{
    lemma_base64_length(left);
    lemma_base64_length(right);
    if left.len() > 0 {
        let ours = base64_text(left);
        let theirs = base64_text(right);
        assert(ours[0] == theirs[0] && ours[1] == theirs[1] && ours[2] == theirs[2] && ours[3]
            == theirs[3]);
        lemma_digits_differ(left[0] as int / 4, right[0] as int / 4);
        let second = if left.len() > 1 {
            left[1] as int
        } else {
            0
        };
        let other = if right.len() > 1 {
            right[1] as int
        } else {
            0
        };
        lemma_digits_differ(
            left[0] as int % 4 * 16 + second / 16,
            right[0] as int % 4 * 16 + other / 16,
        );
        assert(left[0] == right[0]);
        let third = if left.len() > 2 {
            left[2] as int
        } else {
            0
        };
        let another = if right.len() > 2 {
            right[2] as int
        } else {
            0
        };
        lemma_digits_differ(second % 16 * 4 + third / 64, second % 16 * 4 + third / 64);
        lemma_digits_differ(other % 16 * 4 + another / 64, other % 16 * 4 + another / 64);
        lemma_digits_differ(third % 64, third % 64);
        lemma_digits_differ(another % 64, another % 64);
        assert((left.len() > 1) == (right.len() > 1));
        assert((left.len() > 2) == (right.len() > 2));
        if left.len() > 1 {
            lemma_digits_differ(second % 16 * 4 + third / 64, other % 16 * 4 + another / 64);
            assert(left[1] == right[1]);
        }
        if left.len() > 2 {
            lemma_digits_differ(third % 64, another % 64);
            assert(left[2] == right[2]);
        }
        if left.len() > 3 {
            lemma_base64_length(left.skip(3));
            lemma_base64_length(right.skip(3));
            assert(right.len() > 3);
            assert(ours.skip(4) =~= base64_text(left.skip(3)));
            assert(theirs.skip(4) =~= base64_text(right.skip(3)));
            law_base64_is_injective(left.skip(3), right.skip(3));
            assert forall|i: int| 0 <= i < left.len() implies left[i] == right[i] by {
                if i >= 3 {
                    assert(left[i] == left.skip(3)[i - 3]);
                    assert(right[i] == right.skip(3)[i - 3]);
                }
            }
        } else {
            assert(right.len() <= 3);
        }
        assert(left =~= right);
    } else {
        assert(left =~= right);
    }
}

/// Decoding what was encoded gives the bytes back.
pub proof fn law_decoding_undoes_encoding(bytes: Seq<u8>)
    ensures
        base64_bytes(base64_text(bytes)) == Some(bytes),
{
    let text = base64_text(bytes);
    let chosen = choose|other: Seq<u8>| base64_text(other) == text;
    assert(base64_text(chosen) == text);
    law_base64_is_injective(chosen, bytes);
}

/// An encoding is made of plain characters, and is padded where the last group
/// of three bytes is not full.
pub proof fn lemma_base64_padding(bytes: Seq<u8>)
    ensures
        is_ascii_chars(base64_text(bytes)),
        padding(base64_text(bytes)) == (3 - bytes.len() % 3) % 3,
    decreases bytes.len(),
{
    let text = base64_text(bytes);
    lemma_base64_length(bytes);
    if bytes.len() > 3 {
        let rest = bytes.skip(3);
        lemma_base64_padding(rest);
        lemma_base64_length(rest);
        let tail = base64_text(rest);
        assert(forall|i: int| 4 <= i < text.len() ==> text[i] == #[trigger] tail[i - 4]);
        assert forall|i: int| 0 <= i < text.len() implies '\0' <= #[trigger] text[i] <= '\u{7f}' by {
            if i >= 4 {
                assert(text[i] == tail[i - 4]);
            }
        }
        assert(text.last() == tail.last());
        assert(text[text.len() - 2] == tail[tail.len() - 2]);
    } else if bytes.len() > 0 {
        let second = if bytes.len() > 1 {
            bytes[1] as int
        } else {
            0
        };
        let third = if bytes.len() > 2 {
            bytes[2] as int
        } else {
            0
        };
        lemma_digits_differ(second % 16 * 4 + third / 64, second % 16 * 4 + third / 64);
        lemma_digits_differ(third % 64, third % 64);
    }
}

/// Every started group of three bytes takes four characters.
pub proof fn lemma_base64_length(bytes: Seq<u8>)
    ensures
        base64_text(bytes).len() == (bytes.len() + 2) / 3 * 4,
    decreases bytes.len(),
{
    if bytes.len() > 3 {
        lemma_base64_length(bytes.skip(3));
    }
}

} // verus!
