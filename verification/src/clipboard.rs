//! What is read from and written to the clipboard of this machine.

use vstd::prelude::*;
use vstd::string::*;
use vstd::utf8::{encode_utf8, is_ascii_chars_encode_utf8};

use crate::clipboard_image::{
    clipboard_image_to_png, clipboard_image_to_windows_formats, exchangeable, picture_of, pixels_of,
    received_pixels, saturated_size, windows_dib, windows_dib_error, ClipboardImage,
    WindowsClipboardImageFormats, CLIPBOARD_MAX_IMAGE_BYTES,
};
use crate::encoding::{
    base64_complaint, base64_text, lemma_base64_length, lemma_base64_padding, padding,
    padding_count, png_picture,
};
use crate::layout::Platform;
use crate::text::{
    append_decimal, append_hex, ascii_lower_text, decimal, eq_ignore_ascii_case, hex,
    lemma_decimal_digits, lemma_decimal_is_exact,
};

verus! {

/// The most text that is exchanged.
pub const CLIPBOARD_MAX_TEXT_BYTES: usize = 262144;

/// How long a clipboard watch that failed to start is left alone.
pub const TRACKER_RETRY_DELAY: u64 = 5_000_000_000;

/// One unit of clipboard content.
#[derive(Debug, PartialEq, Eq)]
pub enum ClipboardContent {
    Text(String),
    Image(ClipboardImage),
}

impl Clone for ClipboardContent {
    fn clone(&self) -> (content: Self)
        ensures
            content == *self,
    {
        match self {
            ClipboardContent::Text(text) => ClipboardContent::Text(text.clone()),
            ClipboardContent::Image(image) => ClipboardContent::Image(image.clone()),
        }
    }
}

/// What the platform can say of the current clipboard format.
#[derive(Debug, Clone, Copy, PartialEq, Eq, Structural)]
pub enum ClipboardContentHint {
    Image,
    Text,
    Unknown,
}

/// The 64 bit FNV-1a hash of `bytes`.
pub open spec fn signature_hash(bytes: Seq<u8>) -> u64
    decreases bytes.len(),
{
    if bytes.len() == 0 {
        0xcbf29ce484222325
    } else {
        (signature_hash(bytes.drop_last()) ^ bytes.last() as u64).wrapping_mul(0x100000001b3)
    }
}

pub fn clipboard_signature_hash(bytes: &[u8]) -> (hash: u64)
    ensures
        hash == signature_hash(bytes@),
{
    let mut hash: u64 = 0xcbf29ce484222325;
    let mut index: usize = 0;
    while index < bytes.len()
        invariant
            index <= bytes@.len(),
            hash == signature_hash(bytes@.take(index as int)),
        decreases bytes@.len() - index,
    {
        assert(bytes@.take(index + 1).drop_last() =~= bytes@.take(index as int));
        hash = (hash ^ bytes[index] as u64).wrapping_mul(0x100000001b3);
        index += 1;
    }
    assert(bytes@.take(bytes@.len() as int) =~= bytes@);
    hash
}

/// The bytes that a text takes.
pub open spec fn byte_length(text: Seq<char>) -> nat {
    encode_utf8(text).len()
}

fn byte_count(text: &str) -> (count: usize)
    ensures
        count == byte_length(text@),
{
    text.as_bytes().len()
}

/// A stable fingerprint of clipboard content.
pub open spec fn content_signature(content: ClipboardContent) -> Seq<char> {
    match content {
        ClipboardContent::Text(text) => "text:"@ + text@,
        ClipboardContent::Image(image) => "image:"@ + decimal(image.width as nat) + "x"@ + decimal(
            image.height as nat,
        ) + ":"@ + decimal(byte_length(image.rgba_base64@)) + ":"@ + hex(
            signature_hash(encode_utf8(image.rgba_base64@)) as nat,
            16,
        ),
    }
}

/// Whether content is too large to be exchanged.
pub open spec fn oversized(content: ClipboardContent) -> bool {
    match content {
        ClipboardContent::Text(text) => byte_length(text@) > CLIPBOARD_MAX_TEXT_BYTES,
        ClipboardContent::Image(image) => byte_length(image.rgba_base64@) / 4 * 3 - padding(
            image.rgba_base64@,
        ) > CLIPBOARD_MAX_IMAGE_BYTES,
    }
}

impl ClipboardContent {
    /// Whether the content is too large to be exchanged. Base64 is compared by
    /// the size of the pixels that it stands for.
    pub fn is_oversized(&self) -> (is: bool)
        ensures
            is == oversized(*self),
    {
        match self {
            ClipboardContent::Text(text) => byte_count(text.as_str()) > CLIPBOARD_MAX_TEXT_BYTES,
            ClipboardContent::Image(image) => {
                let encoded = image.rgba_base64.as_str();
                byte_count(encoded) / 4 * 3 > CLIPBOARD_MAX_IMAGE_BYTES + padding_count(encoded)
            },
        }
    }

    /// A stable fingerprint, used to tell whether the clipboard changed and to
    /// keep content that just came from a peer from being sent back.
    pub fn signature(&self) -> (signature: String)
        ensures
            signature@ == content_signature(*self),
    {
        match self {
            ClipboardContent::Text(text) => {
                let mut signature = "text:".to_owned();
                signature.append(text.as_str());
                signature
            },
            ClipboardContent::Image(image) => {
                let encoded = image.rgba_base64.as_str();
                let mut signature = "image:".to_owned();
                append_decimal(&mut signature, image.width as u64);
                signature.append("x");
                append_decimal(&mut signature, image.height as u64);
                signature.append(":");
                append_decimal(&mut signature, byte_count(encoded) as u64);
                signature.append(":");
                append_hex(&mut signature, clipboard_signature_hash(encoded.as_bytes()), 16);
                signature
            },
        }
    }
}

/// The size of the pixels decides whether a picture is too large, and what is
/// made ready for transit never is.
pub proof fn law_pixels_decide_the_size(image: ClipboardImage, pixels: Seq<u8>)
    requires
        image.rgba_base64@ == base64_text(pixels),
    ensures
        oversized(ClipboardContent::Image(image)) == (pixels.len() > CLIPBOARD_MAX_IMAGE_BYTES),
        forall|width: usize, height: usize| #[trigger]
            exchangeable(width, height, pixels.len()) ==> !oversized(
                ClipboardContent::Image(image),
            ),
{
    lemma_base64_length(pixels);
    lemma_base64_padding(pixels);
    is_ascii_chars_encode_utf8(image.rgba_base64@);
}

proof fn lemma_before_mark(
    left: Seq<char>,
    left_rest: Seq<char>,
    right: Seq<char>,
    right_rest: Seq<char>,
    mark: char,
)
    requires
        left.push(mark) + left_rest == right.push(mark) + right_rest,
        !left.contains(mark),
        !right.contains(mark),
    ensures
        left == right,
        left_rest == right_rest,
{
    let whole = left.push(mark) + left_rest;
    let same = right.push(mark) + right_rest;
    assert(whole[left.len() as int] == mark && same[right.len() as int] == mark);
    if left.len() < right.len() {
        assert(same[left.len() as int] == right[left.len() as int]);
    }
    if right.len() < left.len() {
        assert(whole[right.len() as int] == left[right.len() as int]);
    }
    assert forall|i: int| 0 <= i < left.len() implies left[i] == right[i] by {
        assert(whole[i] == left[i] && same[i] == right[i]);
    }
    assert(left =~= right);
    assert(left_rest.len() == whole.len() - left.len() - 1);
    assert(right_rest.len() == same.len() - right.len() - 1);
    assert forall|i: int| 0 <= i < left_rest.len() implies left_rest[i] == right_rest[i] by {
        assert(whole[left.len() + 1 + i] == left_rest[i]);
        assert(same[left.len() + 1 + i] == right_rest[i]);
    }
    assert(left_rest =~= right_rest);
}

/// The fields of a picture's fingerprint behind its kind.
spec fn picture_fields(
    width: Seq<char>,
    height: Seq<char>,
    length: Seq<char>,
    hash: Seq<char>,
) -> Seq<char> {
    width.push('x') + (height.push(':') + (length.push(':') + hash))
}

proof fn lemma_picture_fields(
    width: Seq<char>,
    height: Seq<char>,
    length: Seq<char>,
    hash: Seq<char>,
)
    ensures
        ("image:"@ + width + "x"@ + height + ":"@ + length + ":"@ + hash).skip(6)
            == picture_fields(width, height, length, hash),
{
    reveal_strlit("image:");
    reveal_strlit("x");
    reveal_strlit(":");
    assert(width + "x"@ =~= width.push('x'));
    assert(height + ":"@ =~= height.push(':'));
    assert(length + ":"@ =~= length.push(':'));
    let fields = picture_fields(width, height, length, hash);
    assert("image:"@ + width + "x"@ + height + ":"@ + length + ":"@ + hash =~= "image:"@ + ((width
        + "x"@) + ((height + ":"@) + ((length + ":"@) + hash))));
    assert(("image:"@ + fields).skip(6) =~= fields);
}

/// Pictures of different width or height, or with encoded pixels of different
/// length, never share a fingerprint.
pub proof fn law_picture_dimensions_show(left: ClipboardImage, right: ClipboardImage)
    requires
        left.width != right.width || left.height != right.height || byte_length(
            left.rgba_base64@,
        ) != byte_length(right.rgba_base64@),
    ensures
        content_signature(ClipboardContent::Image(left)) != content_signature(
            ClipboardContent::Image(right),
        ),
{
    let ours = content_signature(ClipboardContent::Image(left));
    let theirs = content_signature(ClipboardContent::Image(right));
    if ours == theirs {
        let our_width = decimal(left.width as nat);
        let our_height = decimal(left.height as nat);
        let our_length = decimal(byte_length(left.rgba_base64@));
        let our_hash = hex(signature_hash(encode_utf8(left.rgba_base64@)) as nat, 16);
        let their_width = decimal(right.width as nat);
        let their_height = decimal(right.height as nat);
        let their_length = decimal(byte_length(right.rgba_base64@));
        let their_hash = hex(signature_hash(encode_utf8(right.rgba_base64@)) as nat, 16);
        lemma_picture_fields(our_width, our_height, our_length, our_hash);
        lemma_picture_fields(their_width, their_height, their_length, their_hash);
        let our_end = our_length.push(':') + our_hash;
        let their_end = their_length.push(':') + their_hash;
        lemma_decimal_digits(left.width as nat);
        lemma_decimal_digits(right.width as nat);
        lemma_decimal_digits(left.height as nat);
        lemma_decimal_digits(right.height as nat);
        lemma_before_mark(
            our_width,
            our_height.push(':') + our_end,
            their_width,
            their_height.push(':') + their_end,
            'x',
        );
        lemma_before_mark(our_height, our_end, their_height, their_end, ':');
        lemma_decimal_is_exact(left.width as nat, right.width as nat);
        lemma_decimal_is_exact(left.height as nat, right.height as nat);
        lemma_decimal_digits(byte_length(left.rgba_base64@));
        lemma_decimal_digits(byte_length(right.rgba_base64@));
        lemma_before_mark(our_length, our_hash, their_length, their_hash, ':');
        lemma_decimal_is_exact(byte_length(left.rgba_base64@), byte_length(right.rgba_base64@));
    }
}

/// Two texts with the same fingerprint are the same text.
pub proof fn law_text_signatures_are_exact(left: String, right: String)
    requires
        content_signature(ClipboardContent::Text(left)) == content_signature(
            ClipboardContent::Text(right),
        ),
    ensures
        left@ == right@,
{
    let prefix = "text:"@;
    assert((prefix + left@).skip(prefix.len() as int) =~= left@);
    assert((prefix + right@).skip(prefix.len() as int) =~= right@);
}

/// A text and a picture never share a fingerprint.
pub proof fn law_kinds_have_distinct_signatures(text: String, image: ClipboardImage)
    ensures
        content_signature(ClipboardContent::Text(text)) != content_signature(
            ClipboardContent::Image(image),
        ),
{
    reveal_strlit("text:");
    reveal_strlit("image:");
    assert(content_signature(ClipboardContent::Text(text))[0] == 't');
    assert(content_signature(ClipboardContent::Image(image))[0] == 'i');
}

/// Whether a Linux session runs under Wayland.
pub fn linux_wayland_session(wayland_display: Option<&str>, session_type: Option<&str>) -> (is: bool)
    ensures
        is == (wayland_display is Some || (session_type matches Some(value) && ascii_lower_text(
            value@,
        ) == ascii_lower_text("wayland"@))),
{
    if wayland_display.is_some() {
        return true;
    }
    match session_type {
        Some(value) => eq_ignore_ascii_case(value, "wayland"),
        None => false,
    }
}

/// The change counter value after `token`. Zero stays reserved.
pub open spec fn following_token(token: u64) -> u64 {
    if token == u64::MAX {
        1
    } else {
        (token + 1) as u64
    }
}

pub fn next_change_token(token: u64) -> (next: u64)
    ensures
        next == following_token(token),
{
    let next = token.wrapping_add(1);
    if next < 1 {
        1
    } else {
        next
    }
}

/// Counting a change always shows: the counter moves, and never to zero.
pub proof fn law_changes_move_the_token(token: u64)
    ensures
        following_token(token) != token,
        following_token(token) != 0,
{
}

/// The state of a clipboard watch: the counter of the latest watch, whether it
/// still runs, and when the last attempt to start one failed.
#[derive(Debug, Clone, Copy, PartialEq, Eq, Structural)]
pub struct ChangeTracker {
    pub watch: Option<ClipboardWatch>,
    pub last_failure: Option<u64>,
}

#[derive(Debug, Clone, Copy, PartialEq, Eq, Structural)]
pub struct ClipboardWatch {
    pub token: u64,
    pub alive: bool,
}

/// What a poll of the change counter asks for.
#[derive(Debug, Clone, Copy, PartialEq, Eq, Structural)]
pub enum ChangeTokenStep {
    /// The counter, or none where the clipboard has to be read to tell.
    Report(Option<u64>),
    /// Start a watch whose counter begins at the given value.
    Start(u64),
}

/// The counter of a watch that still runs.
pub open spec fn live_token(tracker: ChangeTracker) -> Option<u64> {
    match tracker.watch {
        Some(watch) => if watch.alive {
            Some(watch.token)
        } else {
            None
        },
        None => None,
    }
}

/// The counter that a new watch begins with.
pub open spec fn restart_token(tracker: ChangeTracker) -> u64 {
    match tracker.watch {
        Some(watch) => following_token(watch.token),
        None => 1,
    }
}

/// The step that a poll at time `now` takes.
pub open spec fn change_token_step(
    wayland: bool,
    tracker: ChangeTracker,
    now: u64,
) -> ChangeTokenStep {
    if wayland {
        ChangeTokenStep::Report(None)
    } else if live_token(tracker) is Some {
        ChangeTokenStep::Report(live_token(tracker))
    } else if tracker.last_failure matches Some(failed_at) && now - failed_at
        < TRACKER_RETRY_DELAY {
        ChangeTokenStep::Report(None)
    } else {
        ChangeTokenStep::Start(restart_token(tracker))
    }
}

/// Polls the change counter. A watch that ended is replaced by one whose counter
/// goes on behind it, so that the content after a reconnect never looks
/// unchanged; after a failure the next attempt waits.
pub fn change_token(wayland: bool, tracker: &ChangeTracker, now: u64) -> (step: ChangeTokenStep)
    ensures
        step == change_token_step(wayland, *tracker, now),
{
    if wayland {
        return ChangeTokenStep::Report(None);
    }
    if let Some(watch) = tracker.watch {
        if watch.alive {
            return ChangeTokenStep::Report(Some(watch.token));
        }
    }
    if let Some(failed_at) = tracker.last_failure {
        if now < failed_at || now - failed_at < TRACKER_RETRY_DELAY {
            return ChangeTokenStep::Report(None);
        }
    }
    match tracker.watch {
        Some(watch) => ChangeTokenStep::Start(next_change_token(watch.token)),
        None => ChangeTokenStep::Start(1),
    }
}

/// Records how the attempt to start a watch at `initial_token` ended, and gives
/// the counter to report.
pub fn finish_tracker_start(
    tracker: &mut ChangeTracker,
    started: Option<ClipboardWatch>,
    now: u64,
) -> (token: Option<u64>)
    ensures
        match started {
            Some(watch) => {
                &&& *final(tracker) == (ChangeTracker { watch: Some(watch), last_failure: None })
                &&& token == live_token(*final(tracker))
            },
            None => {
                &&& *final(tracker) == (ChangeTracker { last_failure: Some(now), ..*old(tracker) })
                &&& token is None
            },
        },
{
    match started {
        Some(watch) => {
            tracker.watch = Some(watch);
            tracker.last_failure = None;
            if watch.alive {
                Some(watch.token)
            } else {
                None
            }
        },
        None => {
            tracker.last_failure = Some(now);
            None
        },
    }
}

/// A watch that is started again never begins at the counter that the ended one
/// was left at.
pub proof fn law_restarted_watch_shows_a_change(tracker: ChangeTracker, now: u64, token: u64)
    requires
        change_token_step(false, tracker, now) == ChangeTokenStep::Start(token),
    ensures
        token != 0,
        tracker.watch matches Some(watch) ==> token != watch.token && !watch.alive,
{
}

/// A failed start is not tried again before the delay is over.
pub proof fn law_failed_start_waits(tracker: ChangeTracker, failed_at: u64, now: u64)
    requires
        tracker.last_failure == Some(failed_at),
        now - failed_at < TRACKER_RETRY_DELAY,
    ensures
        change_token_step(false, tracker, now) !is Start,
{
}

/// What is to be placed on the clipboard of this machine.
#[derive(Debug, PartialEq, Eq)]
pub enum ClipboardWrite {
    Nothing,
    Text(String),
    Image { width: usize, height: usize, rgba: Vec<u8> },
    /// Text and PNG side by side on a macOS pasteboard.
    Pasteboard { text: Option<String>, png: Option<Vec<u8>> },
    /// Text and picture formats side by side on a Windows clipboard.
    Formats { text: Option<String>, image: Option<WindowsClipboardImageFormats> },
}

/// Writing `content` alone leads to `written`.
pub open spec fn single_write(content: ClipboardContent, written: Result<ClipboardWrite, String>) -> bool {
    match content {
        ClipboardContent::Text(text) => written matches Ok(ClipboardWrite::Text(placed)) && placed@
            == text@,
        ClipboardContent::Image(image) => match pixels_of(image) {
            None => written matches Err(error) && error@ == "failed to decode clipboard image: "@
                + base64_complaint(image.rgba_base64@),
            Some(pixels) => if image.width == 0 || image.height == 0 || pixels.len()
                != saturated_size(image.width, image.height) {
                written matches Err(error) && error@ == "clipboard image has invalid dimensions"@
            } else {
                written matches Ok(ClipboardWrite::Image { width, height, rgba }) && width
                    == image.width && height == image.height && rgba@ == pixels
            },
        },
    }
}

/// Prepares the write of a single unit of content.
pub fn write_content(content: &ClipboardContent) -> (written: Result<ClipboardWrite, String>)
    ensures
        single_write(*content, written),
{
    match content {
        ClipboardContent::Text(text) => Ok(ClipboardWrite::Text(text.clone())),
        ClipboardContent::Image(image) => match received_pixels(image) {
            Ok(rgba) => Ok(
                ClipboardWrite::Image {
                    width: image.width as usize,
                    height: image.height as usize,
                    rgba,
                },
            ),
            Err(error) => Err(error),
        },
    }
}

/// The first text that is not empty.
pub open spec fn first_text(contents: Seq<ClipboardContent>) -> Option<Seq<char>>
    decreases contents.len(),
{
    if contents.len() == 0 {
        None
    } else {
        match contents[0] {
            ClipboardContent::Text(text) if text@.len() > 0 => Some(text@),
            _ => first_text(contents.skip(1)),
        }
    }
}

/// The first picture.
pub open spec fn first_image(contents: Seq<ClipboardContent>) -> Option<ClipboardImage>
    decreases contents.len(),
{
    if contents.len() == 0 {
        None
    } else {
        match contents[0] {
            ClipboardContent::Image(image) => Some(image),
            _ => first_image(contents.skip(1)),
        }
    }
}

pub open spec fn text_view(text: Option<String>) -> Option<Seq<char>> {
    match text {
        Some(text) => Some(text@),
        None => None,
    }
}

fn find_text(contents: &[ClipboardContent]) -> (text: Option<String>)
    ensures
        text_view(text) == first_text(contents@),
{
    let mut index: usize = 0;
    assert(contents@.skip(0) =~= contents@);
    while index < contents.len()
        invariant
            index <= contents@.len(),
            first_text(contents@.skip(index as int)) == first_text(contents@),
        decreases contents@.len() - index,
    {
        if let ClipboardContent::Text(text) = &contents[index] {
            if !text.as_str().is_empty() {
                return Some(text.clone());
            }
        }
        assert(contents@.skip(index as int).skip(1) =~= contents@.skip(index + 1));
        index += 1;
    }
    None
}

fn find_image(contents: &[ClipboardContent]) -> (found: Option<&ClipboardImage>)
    ensures
        match found {
            Some(image) => first_image(contents@) == Some(*image),
            None => first_image(contents@) is None,
        },
{
    let mut index: usize = 0;
    assert(contents@.skip(0) =~= contents@);
    while index < contents.len()
        invariant
            index <= contents@.len(),
            first_image(contents@.skip(index as int)) == first_image(contents@),
        decreases contents@.len() - index,
    {
        if let ClipboardContent::Image(image) = &contents[index] {
            return Some(image);
        }
        assert(contents@.skip(index as int).skip(1) =~= contents@.skip(index + 1));
        index += 1;
    }
    None
}

/// What a macOS write places: the first text that is not empty and the PNG of
/// the first picture, as far as there are any. A picture that is not whole
/// counts as none.
pub open spec fn pasteboard_write(
    contents: Seq<ClipboardContent>,
    written: Result<ClipboardWrite, String>,
) -> bool {
    let picture = match first_image(contents) {
        Some(image) => picture_of(image),
        None => None,
    };
    match written {
        Ok(ClipboardWrite::Pasteboard { text, png }) => {
            &&& text_view(text) == first_text(contents)
            &&& text is Some || png is Some
            &&& match picture {
                Some(rgba) => png matches Some(png) && png_picture(png@) == (
                    first_image(contents)->0.width,
                    first_image(contents)->0.height,
                    rgba,
                ),
                None => png is None,
            }
        },
        Ok(ClipboardWrite::Nothing) => first_text(contents) is None && picture is None,
        _ => false,
    }
}

/// Places what there is of a text and a PNG.
pub fn join_pasteboard(text: Option<String>, png: Option<Vec<u8>>) -> (write: ClipboardWrite)
    ensures
        write == (if text is None && png is None {
            ClipboardWrite::Nothing
        } else {
            ClipboardWrite::Pasteboard { text, png }
        }),
{
    if text.is_none() && png.is_none() {
        ClipboardWrite::Nothing
    } else {
        ClipboardWrite::Pasteboard { text, png }
    }
}

fn write_pasteboard(contents: &[ClipboardContent]) -> (written: Result<ClipboardWrite, String>)
    ensures
        pasteboard_write(contents@, written),
{
    let text = find_text(contents);
    let png = match find_image(contents) {
        Some(image) => clipboard_image_to_png(image),
        None => None,
    };
    Ok(join_pasteboard(text, png))
}

/// The formats of a picture, or why there are none.
pub open spec fn windows_formats_of(
    image: ClipboardImage,
    formats: Result<WindowsClipboardImageFormats, String>,
) -> bool {
    match pixels_of(image) {
        None => formats matches Err(error) && error@ == "failed to decode clipboard image: "@
            + base64_complaint(image.rgba_base64@),
        Some(rgba) => match windows_dib_error(rgba.len(), image.width, image.height) {
            Some(expected) => formats matches Err(error) && error@ == expected,
            None => {
                &&& formats matches Ok(formats)
                &&& formats.dib@ == windows_dib(rgba, image.width, image.height)
                &&& png_picture(formats.png@) == (image.width, image.height, rgba)
            },
        },
    }
}

/// What a Windows write places: the first text that is not empty and the
/// formats of the first picture, as far as there are any. A picture without
/// formats fails the whole write.
pub open spec fn formats_write(
    contents: Seq<ClipboardContent>,
    written: Result<ClipboardWrite, String>,
) -> bool {
    match first_image(contents) {
        Some(image) => match written {
            Ok(ClipboardWrite::Formats { text, image: Some(formats) }) => {
                &&& text_view(text) == first_text(contents)
                &&& windows_formats_of(image, Ok(formats))
            },
            Err(error) => windows_formats_of(image, Err(error)),
            _ => false,
        },
        None => match written {
            Ok(ClipboardWrite::Formats { text, image }) => {
                &&& image is None
                &&& text is Some
                &&& text_view(text) == first_text(contents)
            },
            Ok(ClipboardWrite::Nothing) => first_text(contents) is None,
            _ => false,
        },
    }
}

fn write_formats(contents: &[ClipboardContent]) -> (written: Result<ClipboardWrite, String>)
    ensures
        formats_write(contents@, written),
{
    let text = find_text(contents);
    match find_image(contents) {
        Some(image) => match clipboard_image_to_windows_formats(image) {
            Ok(formats) => Ok(ClipboardWrite::Formats { text, image: Some(formats) }),
            Err(error) => Err(error),
        },
        None => {
            if text.is_none() {
                Ok(ClipboardWrite::Nothing)
            } else {
                Ok(ClipboardWrite::Formats { text, image: None })
            }
        },
    }
}

/// What is said where Linux gives up the text beside a picture.
pub fn linux_rich_clipboard_degradation() -> (diagnostic: &'static str)
    ensures
        diagnostic@ == "arboard 3.6 cannot atomically publish text and image/png on Linux; MyKVM preserved the image and omitted its plain-text companion"@,
{
    "arboard 3.6 cannot atomically publish text and image/png on Linux; MyKVM preserved the image and omitted its plain-text companion"
}

/// Some unit of content is a text, which may be empty.
pub open spec fn has_text(contents: Seq<ClipboardContent>) -> bool {
    exists|i: int| 0 <= i < contents.len() && #[trigger] contents[i] is Text
}

/// The unit that Linux keeps of several: the first picture, else the first text.
pub open spec fn linux_selection(contents: Seq<ClipboardContent>) -> Option<ClipboardContent> {
    match first_image(contents) {
        Some(image) => Some(ClipboardContent::Image(image)),
        None => if contents.len() > 0 {
            Some(contents[0])
        } else {
            None
        },
    }
}

proof fn lemma_no_image(contents: Seq<ClipboardContent>)
    requires
        forall|i: int| 0 <= i < contents.len() ==> #[trigger] contents[i] !is Image,
    ensures
        first_image(contents) is None,
    decreases contents.len(),
{
    if contents.len() > 0 {
        assert forall|i: int| 0 <= i < contents.skip(1).len() implies #[trigger] contents.skip(
            1,
        )[i] !is Image by {
            assert(contents.skip(1)[i] == contents[i + 1]);
        }
        lemma_no_image(contents.skip(1));
    }
}

proof fn lemma_first_image_at(contents: Seq<ClipboardContent>, index: int)
    requires
        0 <= index < contents.len(),
        contents[index] is Image,
        forall|i: int| 0 <= i < index ==> #[trigger] contents[i] !is Image,
    ensures
        first_image(contents) == Some(contents[index]->Image_0),
    decreases index,
{
    if index > 0 {
        assert(contents[0] !is Image);
        assert forall|i: int| 0 <= i < index - 1 implies #[trigger] contents.skip(1)[i] !is Image by {
            assert(contents.skip(1)[i] == contents[i + 1]);
        }
        lemma_first_image_at(contents.skip(1), index - 1);
    }
}

/// Chooses the unit that a Linux clipboard can hold of several. A picture cannot
/// be made again from its text, so it wins, and the loss is said aloud.
pub fn linux_multi_format_fallback(contents: &[ClipboardContent]) -> (fallback: (
    Option<&ClipboardContent>,
    Option<&'static str>,
))
    ensures
        match fallback.0 {
            Some(content) => linux_selection(contents@) == Some(*content),
            None => linux_selection(contents@) is None,
        },
        match fallback.1 {
            Some(diagnostic) => {
                &&& first_image(contents@) is Some
                &&& has_text(contents@)
                &&& diagnostic@ == "arboard 3.6 cannot atomically publish text and image/png on Linux; MyKVM preserved the image and omitted its plain-text companion"@
            },
            None => !(first_image(contents@) is Some && has_text(contents@)),
        },
{
    let mut image: Option<usize> = None;
    let mut text: Option<usize> = None;
    let mut index: usize = 0;
    while index < contents.len()
        invariant
            index <= contents@.len(),
            match image {
                Some(at) => {
                    &&& at < index
                    &&& contents@[at as int] is Image
                    &&& forall|i: int| 0 <= i < at ==> #[trigger] contents@[i] !is Image
                },
                None => forall|i: int| 0 <= i < index ==> #[trigger] contents@[i] !is Image,
            },
            match text {
                Some(at) => {
                    &&& at < index
                    &&& contents@[at as int] is Text
                    &&& forall|i: int| 0 <= i < at ==> #[trigger] contents@[i] !is Text
                },
                None => forall|i: int| 0 <= i < index ==> #[trigger] contents@[i] !is Text,
            },
        decreases contents@.len() - index,
    {
        match &contents[index] {
            ClipboardContent::Image(_) => {
                if image.is_none() {
                    image = Some(index);
                }
            },
            ClipboardContent::Text(_) => {
                if text.is_none() {
                    text = Some(index);
                }
            },
        }
        index += 1;
    }
    proof {
        match image {
            Some(at) => lemma_first_image_at(contents@, at as int),
            None => lemma_no_image(contents@),
        }
    }
    match (image, text) {
        (Some(image), Some(_)) => {
            (Some(&contents[image]), Some(linux_rich_clipboard_degradation()))
        },
        (Some(image), None) => (Some(&contents[image]), None),
        (None, Some(text)) => {
            assert(text == 0) by {
                if text > 0 {
                    assert(contents@[0] !is Text && contents@[0] !is Image);
                }
            }
            (Some(&contents[text]), None)
        },
        (None, None) => {
            assert(contents@.len() == 0) by {
                if contents@.len() > 0 {
                    assert(contents@[0] !is Text && contents@[0] !is Image);
                }
            }
            (None, None)
        },
    }
}

/// Where a picture comes with text, Linux keeps the picture whatever their
/// order.
pub proof fn law_linux_prefers_the_picture(contents: Seq<ClipboardContent>, index: int)
    requires
        0 <= index < contents.len(),
        contents[index] is Image,
    ensures
        linux_selection(contents) matches Some(content) && content is Image,
    decreases index,
{
    if contents[0] !is Image {
        law_linux_prefers_the_picture(contents.skip(1), index - 1);
    }
}

/// What a write of several units places.
pub open spec fn multiple_write(
    platform: Platform,
    contents: Seq<ClipboardContent>,
    written: Result<ClipboardWrite, String>,
) -> bool {
    match platform {
        Platform::MacOs => pasteboard_write(contents, written),
        Platform::Windows => formats_write(contents, written),
        Platform::Linux => match linux_selection(contents) {
            Some(content) => single_write(content, written),
            None => written matches Ok(ClipboardWrite::Nothing),
        },
        Platform::Other => if contents.len() > 0 {
            single_write(contents[0], written)
        } else {
            written matches Ok(ClipboardWrite::Nothing)
        },
    }
}

/// Prepares the write of several units at once, as far as the platform can
/// publish them together. What is lost on Linux is told by
/// `linux_multi_format_fallback`.
pub fn write_multiple_contents(platform: Platform, contents: &[ClipboardContent]) -> (written: Result<
    ClipboardWrite,
    String,
>)
    ensures
        multiple_write(platform, contents@, written),
{
    match platform {
        Platform::MacOs => write_pasteboard(contents),
        Platform::Windows => write_formats(contents),
        Platform::Linux => match linux_multi_format_fallback(contents).0 {
            Some(content) => write_content(content),
            None => Ok(ClipboardWrite::Nothing),
        },
        Platform::Other => {
            if contents.len() > 0 {
                write_content(&contents[0])
            } else {
                Ok(ClipboardWrite::Nothing)
            }
        },
    }
}

/// Prepares the write of everything that arrived in one copy.
pub fn write_contents(platform: Platform, contents: &[ClipboardContent]) -> (written: Result<
    ClipboardWrite,
    String,
>)
    ensures
        if contents@.len() == 0 {
            written matches Ok(ClipboardWrite::Nothing)
        } else if contents@.len() == 1 {
            single_write(contents@[0], written)
        } else {
            multiple_write(platform, contents@, written)
        },
{
    if contents.len() == 0 {
        Ok(ClipboardWrite::Nothing)
    } else if contents.len() == 1 {
        write_content(&contents[0])
    } else {
        write_multiple_contents(platform, contents)
    }
}

/// The content that a text from the clipboard amounts to. Nothing comes of a
/// failed read or an empty text.
pub fn read_text_content(text: Result<String, String>) -> (content: Option<ClipboardContent>)
    ensures
        content == (match text {
            Ok(text) if text@.len() > 0 => Some(ClipboardContent::Text(text)),
            _ => None,
        }),
{
    match text {
        Ok(text) => {
            if text.as_str().is_empty() {
                None
            } else {
                Some(ClipboardContent::Text(text))
            }
        },
        Err(_) => None,
    }
}

/// The content that pictures from the clipboard amount to.
pub fn read_all_image_contents(images: Vec<ClipboardImage>) -> (contents: Vec<ClipboardContent>)
    ensures
        contents@ == images@.map_values(|image: ClipboardImage| ClipboardContent::Image(image)),
{
    let mut contents: Vec<ClipboardContent> = Vec::new();
    let mut index: usize = 0;
    while index < images.len()
        invariant
            index <= images@.len(),
            contents@.len() == index,
            forall|i: int|
                0 <= i < index ==> contents@[i] == ClipboardContent::Image(#[trigger] images@[i]),
        decreases images@.len() - index,
    {
        contents.push(ClipboardContent::Image(images[index].clone()));
        index += 1;
    }
    assert(contents@ =~= images@.map_values(
        |image: ClipboardImage| ClipboardContent::Image(image),
    ));
    contents
}

/// Reads every representation on the clipboard, so that a copy with text and
/// picture travels whole. Text is always asked for: a platform reports a
/// picture as soon as there is one, even with text beside it.
pub fn read_contents_for_hint<
    F: FnOnce() -> Option<ClipboardContent>,
    G: FnOnce() -> Vec<ClipboardContent>,
>(hint: ClipboardContentHint, read_text: F, read_images: G) -> (contents: Vec<ClipboardContent>)
    requires
        read_text.requires(()),
        read_images.requires(()),
    ensures
        exists|text: Option<ClipboardContent>, images: Vec<ClipboardContent>|
            {
                &&& #[trigger] read_text.ensures((), text)
                &&& hint != ClipboardContentHint::Text ==> #[trigger] read_images.ensures(
                    (),
                    images,
                )
                &&& contents@ == (match text {
                    Some(content) => seq![content],
                    None => Seq::empty(),
                }) + (if hint == ClipboardContentHint::Text {
                    Seq::empty()
                } else {
                    images@
                })
            },
{
    let mut contents: Vec<ClipboardContent> = Vec::new();
    let text = read_text();
    let ghost read = text;
    if let Some(content) = text {
        contents.push(content);
    }
    let ghost first = contents@;
    match hint {
        ClipboardContentHint::Text => {
            proof {
                let images: Vec<ClipboardContent> = arbitrary();
                assert(read_text.ensures((), read));
                assert(hint == ClipboardContentHint::Text);
                let _ = read_images.ensures((), images);
                assert(contents@ =~= (match read {
                    Some(content) => seq![content],
                    None => Seq::empty(),
                }) + Seq::empty());
            }
        },
        _ => {
            let mut images = read_images();
            let ghost found = images;
            contents.append(&mut images);
            proof {
                assert(read_images.ensures((), found));
                assert(contents@ =~= (match read {
                    Some(content) => seq![content],
                    None => Seq::empty(),
                }) + found@);
            }
        },
    }
    contents
}

/// Reads the one unit of content that a clipboard of unknown format is taken
/// for. Windows tries the picture first, every other platform the text.
pub open spec fn unknown_content<
    F: FnOnce() -> Option<ClipboardContent>,
    G: FnOnce() -> Option<ClipboardContent>,
>(
    platform: Platform,
    read_text: F,
    read_image: G,
    content: Option<ClipboardContent>,
) -> bool {
    if platform == Platform::Windows {
        if content is Some && read_image.ensures((), content) {
            true
        } else {
            read_image.ensures((), None) && read_text.ensures((), content)
        }
    } else {
        if content is Some && read_text.ensures((), content) {
            true
        } else {
            read_text.ensures((), None) && read_image.ensures((), content)
        }
    }
}

pub fn read_unknown_content<
    F: FnOnce() -> Option<ClipboardContent>,
    G: FnOnce() -> Option<ClipboardContent>,
>(platform: Platform, read_text: F, read_image: G) -> (content: Option<ClipboardContent>)
    requires
        read_text.requires(()),
        read_image.requires(()),
    ensures
        unknown_content(platform, read_text, read_image, content),
{
    match platform {
        Platform::Windows => {
            let image = read_image();
            if image.is_some() {
                return image;
            }
            read_text()
        },
        _ => {
            let text = read_text();
            if text.is_some() {
                return text;
            }
            read_image()
        },
    }
}

/// Reads one unit of content. Where the platform names the format, only that
/// one is read, so that stale text of an earlier copy is never taken for a
/// picture that is still arriving.
pub fn read_content_for_hint<
    F: FnOnce() -> Option<ClipboardContent>,
    G: FnOnce() -> Option<ClipboardContent>,
>(platform: Platform, hint: ClipboardContentHint, read_text: F, read_image: G) -> (content: Option<
    ClipboardContent,
>)
    requires
        read_text.requires(()),
        read_image.requires(()),
    ensures
        match hint {
            ClipboardContentHint::Image => read_image.ensures((), content),
            ClipboardContentHint::Text => read_text.ensures((), content),
            ClipboardContentHint::Unknown => unknown_content(
                platform,
                read_text,
                read_image,
                content,
            ),
        },
{
    match hint {
        ClipboardContentHint::Image => read_image(),
        ClipboardContentHint::Text => read_text(),
        ClipboardContentHint::Unknown => read_unknown_content(platform, read_text, read_image),
    }
}

/// What the available formats say of the clipboard. Each picture format comes
/// with its number, which is zero where it could not be registered, and whether
/// it is present. Only Windows can tell.
pub fn content_hint(platform: Platform, image_formats: &[(u32, bool)], text_present: bool) -> (hint:
    ClipboardContentHint)
    ensures
        hint == (if platform != Platform::Windows {
            ClipboardContentHint::Unknown
        } else if exists|i: int|
            0 <= i < image_formats@.len() && (#[trigger] image_formats@[i]).0 != 0
                && image_formats@[i].1 {
            ClipboardContentHint::Image
        } else if text_present {
            ClipboardContentHint::Text
        } else {
            ClipboardContentHint::Unknown
        }),
{
    match platform {
        Platform::Windows => {},
        _ => return ClipboardContentHint::Unknown,
    }
    let mut index: usize = 0;
    while index < image_formats.len()
        invariant
            platform == Platform::Windows,
            index <= image_formats@.len(),
            forall|i: int|
                0 <= i < index ==> !((#[trigger] image_formats@[i]).0 != 0 && image_formats@[i].1),
        decreases image_formats@.len() - index,
    {
        let (format, present) = image_formats[index];
        if format != 0 && present {
            assert(image_formats@[index as int].0 != 0 && image_formats@[index as int].1);
            return ClipboardContentHint::Image;
        }
        index += 1;
    }
    if text_present {
        ClipboardContentHint::Text
    } else {
        ClipboardContentHint::Unknown
    }
}

/// The fingerprint of bytes is folded byte by byte, each taken in before the
/// multiplication.
pub proof fn law_hash_folds_byte_by_byte(bytes: Seq<u8>, byte: u8)
    ensures
        signature_hash(Seq::empty()) == 0xcbf29ce484222325,
        signature_hash(bytes.push(byte)) == (signature_hash(bytes) ^ byte as u64).wrapping_mul(
            0x100000001b3,
        ),
{
    assert(bytes.push(byte).drop_last() =~= bytes);
}

/// The fingerprint of a text spells the text out; that of a picture begins with
/// its width and its height, in that order.
pub proof fn law_fingerprints_say_what_they_are(text: String, image: ClipboardImage)
    ensures
        content_signature(ClipboardContent::Text(text)) == "text:"@ + text@,
        ({
            let head = "image:"@ + decimal(image.width as nat) + "x"@ + decimal(
                image.height as nat,
            ) + ":"@ + decimal(byte_length(image.rgba_base64@)) + ":"@;
            let signature = content_signature(ClipboardContent::Image(image));
            &&& head.is_prefix_of(signature)
            &&& signature.len() == head.len() + 16
        }),
{
    let head = "image:"@ + decimal(image.width as nat) + "x"@ + decimal(image.height as nat)
        + ":"@ + decimal(byte_length(image.rgba_base64@)) + ":"@;
    let hash = signature_hash(encode_utf8(image.rgba_base64@)) as nat;
    crate::text::law_hex_reads_back(hash, 16);
    assert(content_signature(ClipboardContent::Image(image)) =~= head + hex(hash, 16));
}

/// A text of more than a quarter mebibyte is too large, and so is a picture of
/// more than thirty-two mebibytes of pixels.
pub proof fn law_large_content_is_left_out(text: String, image: ClipboardImage, pixels: Seq<u8>)
    requires
        image.rgba_base64@ == base64_text(pixels),
    ensures
        oversized(ClipboardContent::Text(text)) <==> encode_utf8(text@).len() > 262144,
        oversized(ClipboardContent::Image(image)) <==> pixels.len() > 33554432,
{
    law_pixels_decide_the_size(image, pixels);
}

/// The text that is written is the first one that is not empty.
pub proof fn law_first_text_is_written(contents: Seq<ClipboardContent>, index: int)
    requires
        0 <= index < contents.len(),
        contents[index] matches ClipboardContent::Text(text) && text@.len() > 0,
        forall|i: int|
            0 <= i < index ==> (#[trigger] contents[i] matches ClipboardContent::Text(text)
                ==> text@.len() == 0),
    ensures
        first_text(contents) == Some(contents[index]->Text_0@),
    decreases index,
{
    if index > 0 {
        let rest = contents.skip(1);
        assert(rest[index - 1] == contents[index]);
        assert forall|i: int| 0 <= i < index - 1 implies (#[trigger] rest[i]
            matches ClipboardContent::Text(text) ==> text@.len() == 0) by {
            assert(rest[i] == contents[i + 1]);
        }
        assert(contents[0] matches ClipboardContent::Text(text) ==> text@.len() == 0);
        law_first_text_is_written(rest, index - 1);
    }
}

/// The picture that is written is the first one.
pub proof fn law_first_picture_is_written(contents: Seq<ClipboardContent>, index: int)
    requires
        0 <= index < contents.len(),
        contents[index] is Image,
        forall|i: int| 0 <= i < index ==> #[trigger] contents[i] !is Image,
    ensures
        first_image(contents) == Some(contents[index]->Image_0),
        linux_selection(contents) == Some(contents[index]),
{
    lemma_first_image_at(contents, index);
}

/// Without a text that is not empty there is none to write, and without a
/// picture none; Linux then keeps the first unit.
pub proof fn law_nothing_is_made_up(contents: Seq<ClipboardContent>)
    ensures
        (forall|i: int|
            0 <= i < contents.len() ==> (#[trigger] contents[i] matches ClipboardContent::Text(text)
                ==> text@.len() == 0)) ==> first_text(contents) is None,
        (forall|i: int| 0 <= i < contents.len() ==> #[trigger] contents[i] !is Image)
            ==> first_image(contents) is None && linux_selection(contents) == (if contents.len()
            > 0 {
            Some(contents[0])
        } else {
            None
        }),
    decreases contents.len(),
{
    if contents.len() > 0 {
        let rest = contents.skip(1);
        law_nothing_is_made_up(rest);
        assert forall|i: int| 0 <= i < rest.len() implies #[trigger] rest[i] == contents[i + 1] by {
        }
        if forall|i: int|
            0 <= i < contents.len() ==> (#[trigger] contents[i] matches ClipboardContent::Text(text)
                ==> text@.len() == 0) {
            assert forall|i: int| 0 <= i < rest.len() implies (#[trigger] rest[i]
                matches ClipboardContent::Text(text) ==> text@.len() == 0) by {
                assert(rest[i] == contents[i + 1]);
            }
            assert(contents[0] matches ClipboardContent::Text(text) ==> text@.len() == 0);
        }
        if forall|i: int| 0 <= i < contents.len() ==> #[trigger] contents[i] !is Image {
            lemma_no_image(contents);
        }
    }
}

/// A unit that is written alone is written as it is: the text itself, or the
/// picture at its own width and height.
pub proof fn law_single_units_are_written_as_they_are(
    text: String,
    image: ClipboardImage,
    pixels: Seq<u8>,
    written: Result<ClipboardWrite, String>,
)
    ensures
        single_write(ClipboardContent::Text(text), written) ==> (written matches Ok(
            ClipboardWrite::Text(placed),
        ) && placed@ == text@),
        single_write(ClipboardContent::Image(image), written) && pixels_of(image) == Some(pixels)
            && image.width > 0 && image.height > 0 && pixels.len() == saturated_size(
            image.width,
            image.height,
        ) ==> (written matches Ok(ClipboardWrite::Image { width, height, rgba }) && width
            == image.width && height == image.height && rgba@ == pixels),
        single_write(ClipboardContent::Image(image), written) && pixels_of(image) is None
            ==> written is Err,
{
}

/// What is written at once holds the first text that is not empty and the first
/// picture, each at its place: side by side on macOS and Windows, the picture
/// rather than the text on Linux, and the first unit elsewhere.
pub proof fn law_joint_writes_hold_text_and_picture(
    contents: Seq<ClipboardContent>,
    written: Result<ClipboardWrite, String>,
    rgba: Seq<u8>,
)
    requires
        first_image(contents) is Some,
        picture_of(first_image(contents)->0) == Some(rgba),
        first_text(contents) is Some,
    ensures
        ({
            let image = first_image(contents)->0;
            let shown = (image.width, image.height, rgba);
            &&& multiple_write(Platform::MacOs, contents, written) ==> (written matches Ok(
                ClipboardWrite::Pasteboard { text: Some(text), png: Some(png) },
            ) && text@ == first_text(contents)->0 && png_picture(png@) == shown)
            &&& multiple_write(Platform::Windows, contents, written) && written is Ok ==> (written
                matches Ok(ClipboardWrite::Formats { text: Some(text), image: Some(formats) })
                && text@ == first_text(contents)->0 && formats.dib@ == windows_dib(
                rgba,
                image.width,
                image.height,
            ) && png_picture(formats.png@) == shown)
            &&& multiple_write(Platform::Linux, contents, written) ==> single_write(
                ClipboardContent::Image(image),
                written,
            )
            &&& multiple_write(Platform::Other, contents, written) ==> contents.len() == 0
                || single_write(contents[0], written)
        }),
{
}

/// The counter of a watch that runs is what is told. Under Wayland nothing is,
/// and after a failure nothing is tried for five seconds; the first watch counts
/// from one.
pub proof fn law_changes_are_counted_by_the_watch(
    tracker: ChangeTracker,
    watch: ClipboardWatch,
    now: u64,
)
    ensures
        change_token_step(true, tracker, now) == ChangeTokenStep::Report(None),
        tracker.watch == Some(watch) && watch.alive ==> change_token_step(false, tracker, now)
            == ChangeTokenStep::Report(Some(watch.token)),
        tracker.watch is None && tracker.last_failure is None ==> change_token_step(
            false,
            tracker,
            now,
        ) == ChangeTokenStep::Start(1),
        tracker.watch is None ==> (tracker.last_failure matches Some(failed_at) ==> (
        change_token_step(false, tracker, now) is Start <==> now - failed_at >= 5_000_000_000)),
        tracker.watch == Some(watch) && !watch.alive && tracker.last_failure is None && watch.token
            < u64::MAX ==> change_token_step(false, tracker, now) == ChangeTokenStep::Start(
            (watch.token + 1) as u64,
        ),
{
}

/// A picture that can be a bitmap has both forms of exactly that picture, at its
/// own width and height; one that cannot has neither, and the reason is told.
pub proof fn law_pictures_have_both_forms(
    image: ClipboardImage,
    pixels: Seq<u8>,
    formats: Result<WindowsClipboardImageFormats, String>,
)
    requires
        windows_formats_of(image, formats),
        pixels_of(image) == Some(pixels),
    ensures
        formats is Ok <==> windows_dib_error(pixels.len(), image.width, image.height) is None,
        formats matches Ok(formats) ==> formats.dib@ == windows_dib(
            pixels,
            image.width,
            image.height,
        ) && png_picture(formats.png@) == (image.width, image.height, pixels),
        formats matches Err(error) ==> Some(error@) == windows_dib_error(
            pixels.len(),
            image.width,
            image.height,
        ),
{
}

/// Of a clipboard that does not say what it holds, Windows takes the picture
/// where there is one, and every other platform the text; the other is taken
/// only where that one is missing.
pub proof fn law_unknown_content_is_tried_in_order<
    F: FnOnce() -> Option<ClipboardContent>,
    G: FnOnce() -> Option<ClipboardContent>,
>(
    platform: Platform,
    read_text: F,
    read_image: G,
    text: Option<ClipboardContent>,
    image: Option<ClipboardContent>,
    content: Option<ClipboardContent>,
)
    requires
        forall|found: Option<ClipboardContent>| #[trigger]
            read_text.ensures((), found) ==> found == text,
        forall|found: Option<ClipboardContent>| #[trigger]
            read_image.ensures((), found) ==> found == image,
        unknown_content(platform, read_text, read_image, content),
    ensures
        platform == Platform::Windows ==> content == (if image is Some {
            image
        } else {
            text
        }),
        platform != Platform::Windows ==> content == (if text is Some {
            text
        } else {
            image
        }),
{
}

} // verus!
