//! Clipboard pictures and the pixel formats that platforms exchange them in.

use vstd::prelude::*;
use vstd::string::*;

use crate::encoding::{
    base64_bytes, base64_complaint, base64_text, decode_base64, decode_dib, dib_picture,
    encode_base64, encode_png, law_decoding_undoes_encoding, png_picture,
};
use crate::layout::Platform;

verus! {

/// The most raw pixels that are exchanged. A copied 2560x1440 frame is about
/// 14 MB; larger pictures are skipped so that they do not flood the network.
pub const CLIPBOARD_MAX_IMAGE_BYTES: usize = 33554432;

/// A picture as it travels: RGBA pixels, top row first, in base64.
#[derive(Debug, PartialEq, Eq)]
pub struct ClipboardImage {
    pub width: u32,
    pub height: u32,
    pub rgba_base64: String,
}

impl Clone for ClipboardImage {
    fn clone(&self) -> (image: Self)
        ensures
            image == *self,
    {
        ClipboardImage {
            width: self.width,
            height: self.height,
            rgba_base64: self.rgba_base64.clone(),
        }
    }
}

/// Why `len` bytes cannot be the pixels of a picture of the given size.
pub open spec fn dimension_error(len: nat, width: u32, height: u32) -> Option<Seq<char>> {
    if 4 * width > usize::MAX || (4 * width) * height > usize::MAX {
        Some("clipboard image dimensions overflow"@)
    } else if width == 0 || height == 0 || len != (4 * width) * height {
        Some("clipboard image has invalid dimensions"@)
    } else {
        None
    }
}

/// The bytes of one row and of the whole picture, if `rgba` has its size.
pub fn rgba_dimensions(rgba: &[u8], width: u32, height: u32) -> (dimensions: Result<
    (usize, usize),
    String,
>)
    ensures
        match dimensions {
            Ok((row_bytes, total)) => {
                &&& dimension_error(rgba@.len(), width, height) is None
                &&& row_bytes == 4 * width
                &&& total == rgba@.len()
            },
            Err(error) => dimension_error(rgba@.len(), width, height) == Some(error@),
        },
{
    let row_bytes: usize = match (width as usize).checked_mul(4) {
        Some(row_bytes) => row_bytes,
        None => return Err("clipboard image dimensions overflow".to_owned()),
    };
    assert(row_bytes * (height as usize) == (4 * width) * height) by {
        assert(row_bytes == 4 * width);
    }
    let expected: usize = match row_bytes.checked_mul(height as usize) {
        Some(expected) => expected,
        None => return Err("clipboard image dimensions overflow".to_owned()),
    };
    if width == 0 || height == 0 || rgba.len() != expected {
        return Err("clipboard image has invalid dimensions".to_owned());
    }
    Ok((row_bytes, expected))
}

/// Where the byte at `index` of a BGRA row stands in the RGBA row: red and blue
/// change places.
pub open spec fn swapped_channel(index: int) -> int {
    if index % 4 == 0 {
        index + 2
    } else if index % 4 == 2 {
        index - 2
    } else {
        index
    }
}

/// One row with red and blue exchanged.
pub open spec fn bgra_row(row: Seq<u8>) -> Seq<u8> {
    Seq::new(row.len(), |i: int| row[swapped_channel(i)])
}

/// The rows of a picture in opposite order, each with red and blue exchanged.
pub open spec fn bgra_bottom_up(rgba: Seq<u8>, row_bytes: int) -> Seq<u8>
    decreases rgba.len(),
{
    if row_bytes <= 0 || rgba.len() < row_bytes {
        Seq::empty()
    } else {
        bgra_bottom_up(rgba.skip(row_bytes), row_bytes) + bgra_row(rgba.take(row_bytes))
    }
}

/// Writes the pixels of `rgba` in the row and channel order of a Windows
/// bitmap.
pub fn write_bgra_bottom_up(rgba: &[u8], width: u32, height: u32, bgra: &mut [u8]) -> (written:
    Result<(), String>)
    ensures
        match written {
            Ok(()) => {
                &&& dimension_error(rgba@.len(), width, height) is None
                &&& old(bgra)@.len() == rgba@.len()
                &&& final(bgra)@ == bgra_bottom_up(rgba@, 4 * width)
            },
            Err(error) => {
                &&& final(bgra)@ == old(bgra)@
                &&& error@ == (match dimension_error(rgba@.len(), width, height) {
                    Some(error) => error,
                    None => "clipboard image output has invalid dimensions"@,
                })
                &&& dimension_error(rgba@.len(), width, height) is None ==> old(bgra)@.len()
                    != rgba@.len()
            },
        },
{
    let (row_bytes, expected) = match rgba_dimensions(rgba, width, height) {
        Ok(dimensions) => dimensions,
        Err(error) => return Err(error),
    };
    if bgra.len() != expected {
        return Err("clipboard image output has invalid dimensions".to_owned());
    }
    let mut start: usize = expected;
    let mut offset: usize = 0;
    let ghost mut rows: int = height as int;
    proof {
        assert(bgra@.take(0) =~= Seq::<u8>::empty());
        assert(rgba@.skip(expected as int) =~= Seq::<u8>::empty());
    }
    while start > 0
        invariant
            rgba@.len() == expected,
            bgra@.len() == expected,
            start + offset == expected,
            row_bytes == 4 * width,
            row_bytes > 0,
            rows >= 0,
            start == row_bytes * rows,
            bgra@.take(offset as int) == bgra_bottom_up(
                rgba@.skip(start as int),
                row_bytes as int,
            ),
        decreases start,
    {
        let ghost done = bgra@;
        assert(start >= row_bytes && start - row_bytes == row_bytes * (rows - 1)) by (nonlinear_arith)
            requires
                start == row_bytes * rows,
                start > 0,
                row_bytes > 0,
                rows >= 0,
        ;
        assert(rows >= 1) by (nonlinear_arith)
            requires
                start == row_bytes * rows,
                start > 0,
                row_bytes > 0,
                rows >= 0,
        ;
        start = start - row_bytes;
        let ghost row = rgba@.subrange(start as int, start + row_bytes);
        let mut column: usize = 0;
        while column < row_bytes
            invariant
                rgba@.len() == expected,
                bgra@.len() == expected,
                done.len() == expected,
                start + row_bytes + offset == expected,
                row_bytes == 4 * width,
                column <= row_bytes,
                column % 4 == 0,
                row == rgba@.subrange(start as int, start + row_bytes),
                forall|i: int| 0 <= i < offset ==> bgra@[i] == done[i],
                forall|i: int|
                    0 <= i < column ==> bgra@[offset + i] == #[trigger] row[swapped_channel(i)],
            decreases row_bytes - column,
        {
            let ghost before = bgra@;
            bgra[offset + column] = rgba[start + column + 2];
            bgra[offset + column + 1] = rgba[start + column + 1];
            bgra[offset + column + 2] = rgba[start + column];
            bgra[offset + column + 3] = rgba[start + column + 3];
            proof {
                assert(swapped_channel(column as int) == column + 2);
                assert(swapped_channel(column + 1) == column + 1);
                assert(swapped_channel(column + 2) == column);
                assert(swapped_channel(column + 3) == column + 3);
                assert forall|i: int| 0 <= i < column + 4 implies bgra@[offset + i]
                    == #[trigger] row[swapped_channel(i)] by {
                    if i < column {
                        assert(bgra@[offset + i] == before[offset + i]);
                    }
                }
            }
            column = column + 4;
        }
        proof {
            let rest = rgba@.skip(start as int);
            assert(rest.take(row_bytes as int) =~= row);
            assert(rest.skip(row_bytes as int) =~= rgba@.skip(start + row_bytes));
            assert(bgra@.take(offset + row_bytes) =~= done.take(offset as int) + bgra_row(row));
            rows = rows - 1;
        }
        offset = offset + row_bytes;
    }
    proof {
        assert(bgra@.take(offset as int) =~= bgra@);
        assert(rgba@.skip(0) =~= rgba@);
    }
    Ok(())
}

/// A buffer of `len` zero bytes.
fn zeros(len: usize) -> (buffer: Vec<u8>)
    ensures
        buffer@.len() == len,
{
    let mut buffer: Vec<u8> = Vec::new();
    let mut index: usize = 0;
    while index < len
        invariant
            index <= len,
            buffer@.len() == index,
        decreases len - index,
    {
        buffer.push(0);
        index += 1;
    }
    buffer
}

/// The pixels of a picture in the row and channel order of a Windows bitmap.
pub fn rgba_to_bgra_bottom_up(rgba: &[u8], width: u32, height: u32) -> (bgra: Result<
    Vec<u8>,
    String,
>)
    ensures
        match bgra {
            Ok(bgra) => {
                &&& dimension_error(rgba@.len(), width, height) is None
                &&& bgra@ == bgra_bottom_up(rgba@, 4 * width)
            },
            Err(error) => dimension_error(rgba@.len(), width, height) == Some(error@),
        },
{
    let (_, expected) = match rgba_dimensions(rgba, width, height) {
        Ok(dimensions) => dimensions,
        Err(error) => return Err(error),
    };
    let mut bgra = zeros(expected);
    match write_bgra_bottom_up(rgba, width, height, bgra.as_mut_slice()) {
        Ok(()) => Ok(bgra),
        Err(error) => Err(error),
    }
}

proof fn lemma_bottom_up_length(rgba: Seq<u8>, row_bytes: int, rows: int)
    requires
        row_bytes > 0,
        rows >= 0,
        rgba.len() == row_bytes * rows,
    ensures
        bgra_bottom_up(rgba, row_bytes).len() == rgba.len(),
    decreases rows,
{
    if rows > 0 {
        lemma_one_row_less(row_bytes, rows);
        lemma_bottom_up_length(rgba.skip(row_bytes), row_bytes, rows - 1);
    } else {
        lemma_no_rows(row_bytes, rows);
    }
}

proof fn lemma_no_rows(row_bytes: int, rows: int)
    by (nonlinear_arith)
    requires
        rows == 0,
    ensures
        row_bytes * rows == 0,
{
}

proof fn lemma_one_row_less(row_bytes: int, rows: int)
    by (nonlinear_arith)
    requires
        row_bytes > 0,
        rows > 0,
    ensures
        row_bytes * rows >= row_bytes,
        row_bytes * rows - row_bytes == row_bytes * (rows - 1),
{
}

proof fn lemma_bottom_up_of_appended_row(
    rgba: Seq<u8>,
    row: Seq<u8>,
    row_bytes: int,
    rows: int,
)
    requires
        row_bytes > 0,
        rows >= 0,
        rgba.len() == row_bytes * rows,
        row.len() == row_bytes,
    ensures
        bgra_bottom_up(rgba + row, row_bytes) == bgra_row(row) + bgra_bottom_up(rgba, row_bytes),
    decreases rows,
{
    let whole = rgba + row;
    if rows == 0 {
        lemma_no_rows(row_bytes, rows);
        assert(whole =~= row);
        assert(row.take(row_bytes) =~= row);
        assert(bgra_bottom_up(row.skip(row_bytes), row_bytes) =~= Seq::<u8>::empty());
        assert(bgra_bottom_up(rgba, row_bytes) =~= Seq::<u8>::empty());
        assert(bgra_bottom_up(whole, row_bytes) =~= bgra_row(row) + bgra_bottom_up(
            rgba,
            row_bytes,
        ));
    } else {
        lemma_one_row_less(row_bytes, rows);
        assert(whole.take(row_bytes) =~= rgba.take(row_bytes));
        assert(whole.skip(row_bytes) =~= rgba.skip(row_bytes) + row);
        lemma_bottom_up_of_appended_row(rgba.skip(row_bytes), row, row_bytes, rows - 1);
        assert(bgra_bottom_up(whole, row_bytes) =~= bgra_row(row) + bgra_bottom_up(
            rgba,
            row_bytes,
        ));
    }
}

/// Turning a picture into bitmap order twice gives it back, and nothing is lost
/// or added on the way.
pub proof fn law_bitmap_order_is_an_involution(rgba: Seq<u8>, width: u32, height: u32)
    requires
        dimension_error(rgba.len(), width, height) is None,
    ensures
        bgra_bottom_up(bgra_bottom_up(rgba, 4 * width), 4 * width) == rgba,
        bgra_bottom_up(rgba, 4 * width).len() == rgba.len(),
{
    lemma_bottom_up_length(rgba, 4 * width, height as int);
    lemma_bottom_up_twice(rgba, 4 * width, height as int);
}

proof fn lemma_channels_swapped_twice(row: Seq<u8>)
    requires
        row.len() % 4 == 0,
    ensures
        bgra_row(bgra_row(row)) == row,
{
    assert forall|i: int| 0 <= i < row.len() implies #[trigger] bgra_row(bgra_row(row))[i]
        == row[i] by {
        assert(0 <= swapped_channel(i) < row.len());
        assert(swapped_channel(swapped_channel(i)) == i);
    }
    assert(bgra_row(bgra_row(row)) =~= row);
}

proof fn lemma_bottom_up_twice(rgba: Seq<u8>, row_bytes: int, rows: int)
    requires
        row_bytes > 0,
        row_bytes % 4 == 0,
        rows >= 0,
        rgba.len() == row_bytes * rows,
    ensures
        bgra_bottom_up(bgra_bottom_up(rgba, row_bytes), row_bytes) == rgba,
    decreases rows,
{
    if rows == 0 {
        lemma_no_rows(row_bytes, rows);
        assert(rgba =~= Seq::<u8>::empty());
        assert(bgra_bottom_up(rgba, row_bytes) =~= Seq::<u8>::empty());
    } else {
        lemma_one_row_less(row_bytes, rows);
        let head = rgba.take(row_bytes);
        let tail = rgba.skip(row_bytes);
        lemma_bottom_up_length(tail, row_bytes, rows - 1);
        lemma_bottom_up_twice(tail, row_bytes, rows - 1);
        lemma_bottom_up_of_appended_row(
            bgra_bottom_up(tail, row_bytes),
            bgra_row(head),
            row_bytes,
            rows - 1,
        );
        lemma_channels_swapped_twice(head);
        assert(head + tail =~= rgba);
    }
}

/// `value` in little-endian order.
pub open spec fn little_word(value: u32) -> Seq<u8> {
    seq![
        (value % 256) as u8,
        (value / 256 % 256) as u8,
        (value / 65536 % 256) as u8,
        (value / 16777216) as u8,
    ]
}

/// `count` words of zero.
pub open spec fn zero_words(count: nat) -> Seq<u8> {
    Seq::new(4 * count, |i: int| 0u8)
}

fn push_word(out: &mut Vec<u8>, value: u32)
    ensures
        final(out)@ == old(out)@ + little_word(value),
{
    let ghost before = out@;
    out.push((value % 256) as u8);
    out.push((value / 256 % 256) as u8);
    out.push((value / 65536 % 256) as u8);
    out.push((value / 16777216) as u8);
    assert(out@ =~= before + little_word(value));
}

fn push_zero_words(out: &mut Vec<u8>, count: usize)
    ensures
        final(out)@ == old(out)@ + zero_words(count as nat),
{
    let ghost before = out@;
    let mut index: usize = 0;
    assert(out@ =~= before + zero_words(0));
    while index < count
        invariant
            index <= count,
            out@ == before + zero_words(index as nat),
        decreases count - index,
    {
        push_word(out, 0);
        assert(out@ =~= before + zero_words((index + 1) as nat));
        index += 1;
    }
}

/// The header of a 32 bit bitmap of version 5: its own size, the dimensions, one
/// plane of 32 bits, channel masks for BGRA, the sRGB colour space and the
/// intent for pictures. Every other field is zero.
pub open spec fn bitmap_header(width: u32, height: u32, pixel_bytes: u32) -> Seq<u8> {
    little_word(124) + little_word(width) + little_word(height) + little_word(0x0020_0001)
        + little_word(3) + little_word(pixel_bytes) + zero_words(4) + little_word(0x00ff_0000)
        + little_word(0x0000_ff00) + little_word(0x0000_00ff) + little_word(0xff00_0000)
        + little_word(0x7352_4742) + zero_words(12) + little_word(4) + zero_words(3)
}

/// A picture as a version 5 bitmap without file header.
pub open spec fn windows_dib(rgba: Seq<u8>, width: u32, height: u32) -> Seq<u8> {
    bitmap_header(width, height, rgba.len() as u32) + bgra_bottom_up(rgba, 4 * width)
}

/// Why pixels cannot become a bitmap.
pub open spec fn windows_dib_error(len: nat, width: u32, height: u32) -> Option<Seq<char>> {
    match dimension_error(len, width, height) {
        Some(error) => Some(error),
        None => if len > u32::MAX {
            Some("clipboard image is too large"@)
        } else {
            None
        },
    }
}

/// Builds the version 5 bitmap of a picture.
pub fn build_windows_dib(rgba: &[u8], width: u32, height: u32) -> (dib: Result<Vec<u8>, String>)
    ensures
        match dib {
            Ok(dib) => {
                &&& windows_dib_error(rgba@.len(), width, height) is None
                &&& dib@ == windows_dib(rgba@, width, height)
            },
            Err(error) => windows_dib_error(rgba@.len(), width, height) == Some(error@),
        },
{
    let bgra = match rgba_to_bgra_bottom_up(rgba, width, height) {
        Ok(bgra) => bgra,
        Err(error) => return Err(error),
    };
    if rgba.len() > u32::MAX as usize {
        return Err("clipboard image is too large".to_owned());
    }
    let mut dib: Vec<u8> = Vec::new();
    push_word(&mut dib, 124);
    push_word(&mut dib, width);
    push_word(&mut dib, height);
    push_word(&mut dib, 0x0020_0001);
    push_word(&mut dib, 3);
    push_word(&mut dib, rgba.len() as u32);
    push_zero_words(&mut dib, 4);
    push_word(&mut dib, 0x00ff_0000);
    push_word(&mut dib, 0x0000_ff00);
    push_word(&mut dib, 0x0000_00ff);
    push_word(&mut dib, 0xff00_0000);
    push_word(&mut dib, 0x7352_4742);
    push_zero_words(&mut dib, 12);
    push_word(&mut dib, 4);
    push_zero_words(&mut dib, 3);
    assert(dib@ =~= bitmap_header(width, height, rgba@.len() as u32));
    let mut index: usize = 0;
    let ghost header = dib@;
    while index < bgra.len()
        invariant
            index <= bgra@.len(),
            dib@ == header + bgra@.take(index as int),
        decreases bgra@.len() - index,
    {
        dib.push(bgra[index]);
        assert(dib@ =~= header + bgra@.take(index + 1));
        index += 1;
    }
    assert(bgra@.take(bgra@.len() as int) =~= bgra@);
    Ok(dib)
}

/// A bitmap always starts with a header of 124 bytes and then holds every pixel
/// of the picture.
pub proof fn law_bitmap_holds_every_pixel(rgba: Seq<u8>, width: u32, height: u32)
    requires
        windows_dib_error(rgba.len(), width, height) is None,
    ensures
        windows_dib(rgba, width, height).len() == 124 + rgba.len(),
        bgra_bottom_up(windows_dib(rgba, width, height).skip(124), 4 * width) == rgba,
{
    law_bitmap_order_is_an_involution(rgba, width, height);
    assert(windows_dib(rgba, width, height).skip(124) =~= bgra_bottom_up(rgba, 4 * width));
}

/// The number that four bytes make up, the lowest first.
pub open spec fn word_at(bytes: Seq<u8>, at: int) -> int {
    bytes[at] + 256 * bytes[at + 1] + 65536 * bytes[at + 2] + 16777216 * bytes[at + 3]
}

proof fn lemma_word_reads_back(bytes: Seq<u8>, at: int, value: u32)
    requires
        0 <= at,
        at + 4 <= bytes.len(),
        bytes.subrange(at, at + 4) == little_word(value),
    ensures
        word_at(bytes, at) == value,
{
    let word = bytes.subrange(at, at + 4);
    assert(word[0] == bytes[at] && word[1] == bytes[at + 1] && word[2] == bytes[at + 2] && word[3]
        == bytes[at + 3]);
    assert(value == value % 256 + 256 * (value / 256 % 256) + 65536 * (value / 65536 % 256)
        + 16777216 * (value / 16777216)) by (nonlinear_arith);
}

/// A bitmap says of itself what it is: a header of 124 bytes, the width and the
/// height of its picture, one plane of 32 bits, the size of its pixels, and
/// where in a pixel the red, green, blue and alpha stand.
pub proof fn law_bitmap_describes_its_picture(rgba: Seq<u8>, width: u32, height: u32)
    requires
        windows_dib_error(rgba.len(), width, height) is None,
    ensures
        ({
            let dib = windows_dib(rgba, width, height);
            &&& word_at(dib, 0) == 124
            &&& word_at(dib, 4) == width
            &&& word_at(dib, 8) == height
            &&& dib[12] == 1 && dib[13] == 0
            &&& dib[14] == 32 && dib[15] == 0
            &&& word_at(dib, 16) == 3
            &&& word_at(dib, 20) == rgba.len()
            &&& word_at(dib, 40) == 0x00ff_0000
            &&& word_at(dib, 44) == 0x0000_ff00
            &&& word_at(dib, 48) == 0x0000_00ff
            &&& word_at(dib, 52) == 0xff00_0000
            &&& word_at(dib, 56) == 0x7352_4742
            &&& word_at(dib, 108) == 4
            &&& forall|i: int|
                24 <= i < 40 || 60 <= i < 108 || 112 <= i < 124 ==> #[trigger] dib[i] == 0
        }),
{
    law_bitmap_holds_every_pixel(rgba, width, height);
    let dib = windows_dib(rgba, width, height);
    let pixel_bytes = rgba.len() as u32;
    assert(dib.subrange(0, 4) =~= little_word(124));
    assert(dib.subrange(4, 8) =~= little_word(width));
    assert(dib.subrange(8, 12) =~= little_word(height));
    assert(dib.subrange(12, 16) =~= little_word(0x0020_0001));
    assert(dib.subrange(16, 20) =~= little_word(3));
    assert(dib.subrange(20, 24) =~= little_word(pixel_bytes));
    assert(dib.subrange(40, 44) =~= little_word(0x00ff_0000));
    assert(dib.subrange(44, 48) =~= little_word(0x0000_ff00));
    assert(dib.subrange(48, 52) =~= little_word(0x0000_00ff));
    assert(dib.subrange(52, 56) =~= little_word(0xff00_0000));
    assert(dib.subrange(56, 60) =~= little_word(0x7352_4742));
    assert(dib.subrange(108, 112) =~= little_word(4));
    lemma_word_reads_back(dib, 0, 124);
    lemma_word_reads_back(dib, 4, width);
    lemma_word_reads_back(dib, 8, height);
    lemma_word_reads_back(dib, 16, 3);
    lemma_word_reads_back(dib, 20, pixel_bytes);
    lemma_word_reads_back(dib, 40, 0x00ff_0000);
    lemma_word_reads_back(dib, 44, 0x0000_ff00);
    lemma_word_reads_back(dib, 48, 0x0000_00ff);
    lemma_word_reads_back(dib, 52, 0xff00_0000);
    lemma_word_reads_back(dib, 56, 0x7352_4742);
    lemma_word_reads_back(dib, 108, 4);
    let planes = dib.subrange(12, 16);
    assert(planes[0] == dib[12] && planes[1] == dib[13] && planes[2] == dib[14] && planes[3]
        == dib[15]);
}

proof fn lemma_bottom_up_byte(rgba: Seq<u8>, row_bytes: int, rows: int, row: int, index: int)
    requires
        row_bytes > 0,
        0 <= row < rows,
        0 <= index < row_bytes,
        rgba.len() == row_bytes * rows,
    ensures
        0 <= row_bytes * (rows - 1 - row) + index < rgba.len(),
        bgra_bottom_up(rgba, row_bytes)[row_bytes * (rows - 1 - row) + index] == bgra_row(
            rgba.subrange(row_bytes * row, row_bytes * row + row_bytes),
        )[index],
    decreases rows,
{
    lemma_one_row_less(row_bytes, rows);
    let rest = rgba.skip(row_bytes);
    lemma_bottom_up_length(rest, row_bytes, rows - 1);
    assert(0 <= row_bytes * (rows - 1 - row) + index < row_bytes * rows && 0 <= row_bytes * row
        && row_bytes * row + row_bytes <= row_bytes * rows) by (nonlinear_arith)
        requires
            row_bytes > 0,
            0 <= row < rows,
            0 <= index < row_bytes,
    ;
    if row == 0 {
        assert(row_bytes * row == 0) by (nonlinear_arith)
            requires
                row == 0,
        ;
        assert(rgba.subrange(0, row_bytes) =~= rgba.take(row_bytes));
    } else {
        lemma_bottom_up_byte(rest, row_bytes, rows - 1, row - 1, index);
        assert(row_bytes * (row - 1) == row_bytes * row - row_bytes) by (nonlinear_arith);
        assert(rest.subrange(row_bytes * (row - 1), row_bytes * (row - 1) + row_bytes)
            =~= rgba.subrange(row_bytes * row, row_bytes * row + row_bytes));
        assert(row_bytes * ((rows - 1) - 1 - (row - 1)) == row_bytes * (rows - 1 - row));
    }
}

proof fn lemma_bitmap_byte(rgba: Seq<u8>, width: u32, height: u32, row: int, index: int)
    requires
        windows_dib_error(rgba.len(), width, height) is None,
        0 <= row < height,
        0 <= index < 4 * width,
    ensures
        0 <= (4 * width) * row,
        (4 * width) * row + 4 * width <= rgba.len(),
        0 <= (4 * width) * (height - 1 - row),
        (4 * width) * (height - 1 - row) + index < rgba.len(),
        windows_dib(rgba, width, height)[124 + (4 * width) * (height - 1 - row) + index]
            == rgba[(4 * width) * row + swapped_channel(index)],
{
    let row_bytes = 4 * width as int;
    let rows = height as int;
    law_bitmap_holds_every_pixel(rgba, width, height);
    lemma_bottom_up_byte(rgba, row_bytes, rows, row, index);
    assert(0 <= row_bytes * (rows - 1 - row) && 0 <= row_bytes * row && row_bytes * row + row_bytes
        <= row_bytes * rows) by (nonlinear_arith)
        requires
            row_bytes > 0,
            0 <= row < rows,
    ;
    let pixels = bgra_bottom_up(rgba, row_bytes);
    let line = rgba.subrange(row_bytes * row, row_bytes * row + row_bytes);
    let at = row_bytes * (rows - 1 - row) + index;
    assert(bitmap_header(width, height, rgba.len() as u32).len() == 124);
    assert(windows_dib(rgba, width, height)[124 + at] == pixels[at]);
    assert(0 <= swapped_channel(index) < row_bytes);
    assert(bgra_row(line)[index] == line[swapped_channel(index)]);
}

/// In a bitmap the rows of the picture stand in opposite order, and of each
/// pixel blue, green, red and alpha, each column in its place.
pub proof fn law_bitmap_shows_its_picture(
    rgba: Seq<u8>,
    width: u32,
    height: u32,
    column: int,
    row: int,
)
    requires
        windows_dib_error(rgba.len(), width, height) is None,
        0 <= column < width,
        0 <= row < height,
    ensures
        ({
            let dib = windows_dib(rgba, width, height);
            let from = (4 * width) * row + 4 * column;
            let to = 124 + (4 * width) * (height - 1 - row) + 4 * column;
            &&& 0 <= from && from + 4 <= rgba.len()
            &&& 124 <= to && to + 4 <= dib.len()
            &&& dib[to] == rgba[from + 2]
            &&& dib[to + 1] == rgba[from + 1]
            &&& dib[to + 2] == rgba[from]
            &&& dib[to + 3] == rgba[from + 3]
        }),
{
    let from = (4 * width) * row + 4 * column;
    let to = 124 + (4 * width) * (height - 1 - row) + 4 * column;
    assert(windows_dib(rgba, width, height).len() == 124 + rgba.len()) by {
        law_bitmap_holds_every_pixel(rgba, width, height);
    }
    assert(windows_dib(rgba, width, height)[to] == rgba[from + 2]) by {
        lemma_bitmap_byte(rgba, width, height, row, 4 * column);
    }
    assert(windows_dib(rgba, width, height)[to + 1] == rgba[from + 1]) by {
        lemma_bitmap_byte(rgba, width, height, row, 4 * column + 1);
    }
    assert(windows_dib(rgba, width, height)[to + 2] == rgba[from]) by {
        lemma_bitmap_byte(rgba, width, height, row, 4 * column + 2);
    }
    assert(windows_dib(rgba, width, height)[to + 3] == rgba[from + 3]) by {
        lemma_bitmap_byte(rgba, width, height, row, 4 * column + 3);
    }
    assert(0 <= from && from + 4 <= rgba.len() && 124 <= to && to + 4 <= 124 + rgba.len()) by {
        lemma_bitmap_byte(rgba, width, height, row, 4 * column + 3);
    }
}

/// The forms of one picture that are placed on a Windows clipboard.
#[derive(Debug, PartialEq, Eq)]
pub struct WindowsClipboardImageFormats {
    pub png: Vec<u8>,
    pub dib: Vec<u8>,
}

/// Text of an error followed by the detail that another component gave.
fn with_detail(prefix: &str, detail: &str) -> (text: String)
    ensures
        text@ == prefix@ + detail@,
{
    let mut text = prefix.to_owned();
    text.append(detail);
    text
}

/// Joins the bitmap of a picture with what the PNG encoder gave.
pub fn join_windows_formats(dib: Vec<u8>, png: Result<Vec<u8>, String>) -> (formats: Result<
    WindowsClipboardImageFormats,
    String,
>)
    ensures
        match png {
            Ok(png) => formats == Ok::<_, String>((WindowsClipboardImageFormats { png, dib })),
            Err(detail) => formats matches Err(error) && error@
                == "failed to encode clipboard PNG: "@ + detail@,
        },
{
    match png {
        Ok(png) => Ok(WindowsClipboardImageFormats { png, dib }),
        Err(detail) => Err(with_detail("failed to encode clipboard PNG: ", detail.as_str())),
    }
}

/// The pixels of a picture in transit.
pub open spec fn pixels_of(image: ClipboardImage) -> Option<Seq<u8>> {
    base64_bytes(image.rgba_base64@)
}

/// Decodes the pixels of a picture in transit.
fn decode_pixels(image: &ClipboardImage) -> (pixels: Result<Vec<u8>, String>)
    ensures
        match pixels {
            Ok(rgba) => pixels_of(*image) == Some(rgba@),
            Err(error) => {
                &&& pixels_of(*image) is None
                &&& error@ == "failed to decode clipboard image: "@ + base64_complaint(
                    image.rgba_base64@,
                )
            },
        },
{
    match decode_base64(image.rgba_base64.as_str()) {
        Ok(rgba) => {
            proof {
                law_decoding_undoes_encoding(rgba@);
            }
            Ok(rgba)
        },
        Err(detail) => Err(with_detail("failed to decode clipboard image: ", detail.as_str())),
    }
}

/// Both Windows forms of a picture in transit.
pub fn clipboard_image_to_windows_formats(image: &ClipboardImage) -> (formats: Result<
    WindowsClipboardImageFormats,
    String,
>)
    ensures
        match pixels_of(*image) {
            None => formats matches Err(error) && error@ == "failed to decode clipboard image: "@
                + base64_complaint(image.rgba_base64@),
            Some(rgba) => match windows_dib_error(rgba.len(), image.width, image.height) {
                Some(expected) => formats matches Err(error) && error@ == expected,
                None => {
                    &&& formats matches Ok(formats)
                    &&& formats.dib@ == windows_dib(rgba, image.width, image.height)
                    &&& png_picture(formats.png@) == (image.width, image.height, rgba)
                },
            },
        },
{
    let rgba = match decode_pixels(image) {
        Ok(rgba) => rgba,
        Err(error) => return Err(error),
    };
    let dib = match build_windows_dib(rgba.as_slice(), image.width, image.height) {
        Ok(dib) => dib,
        Err(error) => return Err(error),
    };
    assert(rgba@.len() == 4 * (image.width * image.height)) by (nonlinear_arith)
        requires
            rgba@.len() == (4 * image.width) * image.height,
    ;
    let png = encode_png(rgba.as_slice(), image.width, image.height);
    join_windows_formats(dib, png)
}

/// The pixels of a picture whose size agrees with its dimensions.
pub open spec fn picture_of(image: ClipboardImage) -> Option<Seq<u8>> {
    match pixels_of(image) {
        Some(rgba) => if image.width != 0 && image.height != 0 && rgba.len() == (image.width
            * image.height) * 4 {
            Some(rgba)
        } else {
            None
        },
        None => None,
    }
}

/// The pixels of a picture in transit, if it is whole.
pub fn whole_picture(image: &ClipboardImage) -> (pixels: Option<Vec<u8>>)
    ensures
        match pixels {
            Some(rgba) => picture_of(*image) == Some(rgba@),
            None => picture_of(*image) is None,
        },
{
    let rgba = match decode_pixels(image) {
        Ok(rgba) => rgba,
        Err(_) => return None,
    };
    if image.width == 0 || image.height == 0 {
        return None;
    }
    let pixels: usize = match (image.width as usize).checked_mul(image.height as usize) {
        Some(pixels) => pixels,
        None => return None,
    };
    let expected: usize = match pixels.checked_mul(4) {
        Some(expected) => expected,
        None => return None,
    };
    if rgba.len() != expected {
        return None;
    }
    Some(rgba)
}

/// A picture in transit as PNG. There is no result where the picture is not
/// whole.
pub fn clipboard_image_to_png(image: &ClipboardImage) -> (png: Option<Vec<u8>>)
    ensures
        match picture_of(*image) {
            Some(rgba) => png matches Some(png) && png_picture(png@) == (
                image.width,
                image.height,
                rgba,
            ),
            None => png is None,
        },
{
    match whole_picture(image) {
        Some(rgba) => match encode_png(rgba.as_slice(), image.width, image.height) {
            Ok(png) => Some(png),
            Err(_) => None,
        },
        None => None,
    }
}

/// Whether pixels from the local clipboard are exchanged.
pub open spec fn exchangeable(width: usize, height: usize, len: nat) -> bool {
    width != 0 && height != 0 && 0 < len <= CLIPBOARD_MAX_IMAGE_BYTES
}

/// A picture from the local clipboard, made ready for transit.
pub fn clipboard_image_from_pixels(width: usize, height: usize, rgba: &[u8]) -> (image: Option<
    ClipboardImage,
>)
    ensures
        match image {
            Some(image) => {
                &&& exchangeable(width, height, rgba@.len())
                &&& image.width == width as u32
                &&& image.height == height as u32
                &&& image.rgba_base64@ == base64_text(rgba@)
            },
            None => !exchangeable(width, height, rgba@.len()),
        },
{
    if width == 0 || height == 0 || rgba.len() == 0 || rgba.len() > CLIPBOARD_MAX_IMAGE_BYTES {
        return None;
    }
    Some(
        ClipboardImage {
            width: width as u32,
            height: height as u32,
            rgba_base64: encode_base64(rgba),
        },
    )
}

/// The picture in a bitmap, as it is exchanged.
pub open spec fn exchanged_dib(data: Seq<u8>) -> Option<(u32, u32, Seq<char>)> {
    match dib_picture(data) {
        Some((width, height, rgba)) => if width != 0 && height != 0 && 0 < rgba.len()
            <= CLIPBOARD_MAX_IMAGE_BYTES {
            Some((width, height, base64_text(rgba)))
        } else {
            None
        },
        None => None,
    }
}

pub open spec fn image_parts(image: Option<ClipboardImage>) -> Option<(u32, u32, Seq<char>)> {
    match image {
        Some(image) => Some((image.width, image.height, image.rgba_base64@)),
        None => None,
    }
}

/// The picture in a bitmap from the Windows clipboard.
pub fn decode_windows_dib_image(data: &[u8]) -> (image: Option<ClipboardImage>)
    ensures
        image_parts(image) == exchanged_dib(data@),
{
    match decode_dib(data) {
        Some((width, height, rgba)) => clipboard_image_from_pixels(
            width as usize,
            height as usize,
            rgba.as_slice(),
        ),
        None => None,
    }
}

/// Whether a bitmap block of `len` bytes is worth reading.
pub fn dib_block_readable(len: usize) -> (readable: bool)
    ensures
        readable == (0 < len <= CLIPBOARD_MAX_IMAGE_BYTES + 256),
{
    len != 0 && len <= CLIPBOARD_MAX_IMAGE_BYTES + 256
}

/// The picture of the first block that can be read.
pub open spec fn first_dib(blocks: Seq<Vec<u8>>) -> Option<(u32, u32, Seq<char>)>
    decreases blocks.len(),
{
    if blocks.len() == 0 {
        None
    } else if 0 < blocks[0]@.len() <= CLIPBOARD_MAX_IMAGE_BYTES + 256 && exchanged_dib(
        blocks[0]@,
    ) is Some {
        exchanged_dib(blocks[0]@)
    } else {
        first_dib(blocks.skip(1))
    }
}

/// The picture of the first bitmap block on the Windows clipboard that can be
/// read, in the order in which the formats are asked for.
pub fn read_windows_dib_image(blocks: &[Vec<u8>]) -> (image: Option<ClipboardImage>)
    ensures
        image_parts(image) == first_dib(blocks@),
{
    let mut index: usize = 0;
    assert(blocks@.skip(0) =~= blocks@);
    while index < blocks.len()
        invariant
            index <= blocks@.len(),
            first_dib(blocks@.skip(index as int)) == first_dib(blocks@),
        decreases blocks@.len() - index,
    {
        let block = &blocks[index];
        if dib_block_readable(block.len()) {
            let image = decode_windows_dib_image(block.as_slice());
            if image.is_some() {
                return image;
            }
        }
        assert(blocks@.skip(index as int).skip(1) =~= blocks@.skip(index + 1));
        index += 1;
    }
    None
}

/// The picture on the local clipboard: the one the clipboard interface gave if
/// it is exchanged, else on Windows what `read_dib` finds.
pub fn read_image<F: FnOnce() -> Option<ClipboardImage>>(
    platform: Platform,
    pixels: Option<(usize, usize, Vec<u8>)>,
    read_dib: F,
) -> (image: Option<ClipboardImage>)
    requires
        read_dib.requires(()),
    ensures
        match pixels {
            Some((width, height, rgba)) if exchangeable(width, height, rgba@.len()) => image_parts(
                image,
            ) == Some((width as u32, height as u32, base64_text(rgba@))),
            _ => if platform == Platform::Windows {
                read_dib.ensures((), image)
            } else {
                image is None
            },
        },
{
    if let Some((width, height, rgba)) = pixels {
        let image = clipboard_image_from_pixels(width, height, rgba.as_slice());
        if image.is_some() {
            return image;
        }
    }
    match platform {
        Platform::Windows => read_dib(),
        _ => None,
    }
}

/// The number of bytes that a picture of the given size takes, as far as a
/// machine word can say it.
pub open spec fn saturated_size(width: u32, height: u32) -> int {
    let pixels = if width * height > usize::MAX {
        usize::MAX as int
    } else {
        width * height
    };
    if pixels * 4 > usize::MAX {
        usize::MAX as int
    } else {
        pixels * 4
    }
}

/// The pixels to place on the local clipboard for a picture that arrived.
pub fn received_pixels(image: &ClipboardImage) -> (pixels: Result<Vec<u8>, String>)
    ensures
        match pixels_of(*image) {
            None => pixels matches Err(error) && error@ == "failed to decode clipboard image: "@
                + base64_complaint(image.rgba_base64@),
            Some(rgba) => if image.width == 0 || image.height == 0 || rgba.len()
                != saturated_size(image.width, image.height) {
                pixels matches Err(error) && error@ == "clipboard image has invalid dimensions"@
            } else {
                pixels matches Ok(bytes) && bytes@ == rgba
            },
        },
{
    let rgba = match decode_pixels(image) {
        Ok(rgba) => rgba,
        Err(error) => return Err(error),
    };
    let pixels: usize = match (image.width as usize).checked_mul(image.height as usize) {
        Some(pixels) => pixels,
        None => usize::MAX,
    };
    let size: usize = match pixels.checked_mul(4) {
        Some(size) => size,
        None => usize::MAX,
    };
    if image.width == 0 || image.height == 0 || rgba.len() != size {
        return Err("clipboard image has invalid dimensions".to_owned());
    }
    Ok(rgba)
}

/// A picture that was made ready for transit arrives as it left: the pixels
/// that its receiver places are those that were read.
pub proof fn law_pictures_survive_transit(
    image: ClipboardImage,
    width: u32,
    height: u32,
    rgba: Seq<u8>,
)
    requires
        image_parts(Some(image)) == Some((width, height, base64_text(rgba))),
    ensures
        pixels_of(image) == Some(rgba),
        width != 0 && height != 0 && rgba.len() == (width * height) * 4 ==> picture_of(image)
            == Some(rgba),
{
    law_decoding_undoes_encoding(rgba);
}

/// Pixels make a picture exactly where there are four bytes for each of its
/// columns in each of its rows; the size of none of both is no picture.
pub proof fn law_pictures_have_four_bytes_a_pixel(len: nat, width: u32, height: u32)
    ensures
        dimension_error(len, width, height) is None <==> width > 0 && height > 0 && len == (4
            * width) * height && 4 * width <= usize::MAX && len <= usize::MAX,
        dimension_error(len, width, height) is None <==> dimension_error(len, height, width)
            is None,
        windows_dib_error(len, width, height) is None <==> dimension_error(len, width, height)
            is None && len <= 0xffff_ffff,
{
    assert((4 * width) * height == (4 * height) * width) by (nonlinear_arith);
    assert(width > 0 && height > 0 ==> 4 * width <= (4 * width) * height && 4 * height <= (4
        * height) * width) by (nonlinear_arith);
}

/// Up to thirty-two mebibytes of pixels are exchanged, of a picture that has a
/// width and a height.
pub proof fn law_exchanged_pictures_are_bounded(
    width: usize,
    height: usize,
    len: nat,
    data: Seq<u8>,
)
    ensures
        exchangeable(width, height, len) <==> width > 0 && height > 0 && 1 <= len <= 33554432,
        dib_picture(data) matches Some((wide, high, rgba)) ==> (exchanged_dib(data) is Some
            <==> wide > 0 && high > 0 && 1 <= rgba.len() <= 33554432) && (exchanged_dib(data)
            matches Some((sent_width, sent_height, text)) ==> sent_width == wide && sent_height
            == high && text == base64_text(rgba)),
        dib_picture(data) is None ==> exchanged_dib(data) is None,
{
}

/// Of several bitmap blocks the first that holds a picture counts: one that is
/// empty, far too long or unreadable is passed over.
pub proof fn law_first_readable_block_counts(blocks: Seq<Vec<u8>>, index: int)
    requires
        0 <= index < blocks.len(),
        1 <= blocks[index]@.len() <= 33554432 + 256,
        exchanged_dib(blocks[index]@) is Some,
        forall|i: int|
            0 <= i < index ==> (#[trigger] blocks[i])@.len() == 0 || blocks[i]@.len() > 33554432
                + 256 || exchanged_dib(blocks[i]@) is None,
    ensures
        first_dib(blocks) == exchanged_dib(blocks[index]@),
    decreases index,
{
    if index > 0 {
        assert(blocks.skip(1)[index - 1] == blocks[index]);
        assert forall|i: int| 0 <= i < index - 1 implies (#[trigger] blocks.skip(1)[i])@.len() == 0
            || blocks.skip(1)[i]@.len() > 33554432 + 256 || exchanged_dib(blocks.skip(1)[i]@)
            is None by {
            assert(blocks.skip(1)[i] == blocks[i + 1]);
        }
        law_first_readable_block_counts(blocks.skip(1), index - 1);
    }
}

/// The size of a picture is four bytes a pixel wherever a machine word can say
/// it, whichever side is the longer.
pub proof fn law_sizes_are_four_bytes_a_pixel(width: u32, height: u32)
    ensures
        (width * height) * 4 <= usize::MAX ==> saturated_size(width, height) == (width * height)
            * 4,
        (width * height) * 4 > usize::MAX ==> saturated_size(width, height) == usize::MAX,
        saturated_size(width, height) == saturated_size(height, width),
{
    assert(width * height == height * width) by (nonlinear_arith);
    assert(0 <= width * height) by (nonlinear_arith);
}

} // verus!
