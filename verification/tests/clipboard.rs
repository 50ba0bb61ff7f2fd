use mykvm::clipboard::{
    change_token, clipboard_signature_hash, content_hint, finish_tracker_start,
    linux_multi_format_fallback, linux_rich_clipboard_degradation, linux_wayland_session,
    next_change_token, read_all_image_contents, read_content_for_hint, read_contents_for_hint,
    read_text_content, write_content, write_contents, write_multiple_contents, ChangeTokenStep,
    ChangeTracker, ClipboardContent, ClipboardContentHint, ClipboardWatch, ClipboardWrite,
    CLIPBOARD_MAX_TEXT_BYTES, TRACKER_RETRY_DELAY,
};
use mykvm::clipboard_image::{
    build_windows_dib, clipboard_image_from_pixels, clipboard_image_to_png,
    clipboard_image_to_windows_formats, decode_windows_dib_image, dib_block_readable, read_image,
    read_windows_dib_image, received_pixels, rgba_to_bgra_bottom_up, ClipboardImage,
    CLIPBOARD_MAX_IMAGE_BYTES,
};
use mykvm::layout::Platform;

fn pixel_image() -> ClipboardImage {
    ClipboardImage {
        width: 1,
        height: 1,
        rgba_base64: "AAAAAA==".to_string(),
    }
}

fn text(value: &str) -> ClipboardContent {
    ClipboardContent::Text(value.to_string())
}

#[test]
fn multi_format_image_hint_keeps_text_and_image() {
    let contents = read_contents_for_hint(
        ClipboardContentHint::Image,
        || Some(text("image description")),
        || vec![ClipboardContent::Image(pixel_image())],
    );

    assert_eq!(contents.len(), 2, "rich clipboard text must not be dropped");
    assert!(matches!(&contents[0], ClipboardContent::Text(text) if text == "image description"));
    assert!(matches!(&contents[1], ClipboardContent::Image(_)));
}

#[test]
fn windows_dib_pixels_are_bgra_and_bottom_up() {
    let rgba = [10, 20, 30, 40, 50, 60, 70, 80];
    let bgra = rgba_to_bgra_bottom_up(&rgba, 1, 2).expect("convert pixels");

    assert_eq!(
        bgra,
        [70, 60, 50, 80, 30, 20, 10, 40],
        "DIB starts with the bottom pixel in BGRA, followed by the top pixel"
    );
}

#[test]
fn unknown_clipboard_prefers_text_before_image() {
    let content = read_content_for_hint(
        Platform::Linux,
        ClipboardContentHint::Unknown,
        || Some(text("中文测试 abc 123")),
        || Some(ClipboardContent::Image(pixel_image())),
    );

    match content {
        Some(ClipboardContent::Text(text)) => assert_eq!(text, "中文测试 abc 123"),
        _ => panic!("expected text to win when the platform cannot identify clipboard format"),
    }
}

#[test]
fn unknown_clipboard_keeps_windows_image_first_fallback() {
    let content = read_content_for_hint(
        Platform::Windows,
        ClipboardContentHint::Unknown,
        || Some(text("中文测试 abc 123")),
        || Some(ClipboardContent::Image(pixel_image())),
    );

    match content {
        Some(ClipboardContent::Image(image)) => assert_eq!(image.width, 1),
        _ => panic!("expected Windows fallback to keep image priority"),
    }
}

#[test]
fn linux_wayland_detection_is_explicit() {
    assert!(linux_wayland_session(Some("wayland-0"), None));
    assert!(linux_wayland_session(None, Some("Wayland")));
    assert!(!linux_wayland_session(None, Some("x11")));
    assert!(!linux_wayland_session(None, None));
}

#[test]
fn linux_rich_clipboard_fallback_is_diagnostic_and_prefers_image() {
    let contents = vec![
        text("image description"),
        ClipboardContent::Image(ClipboardImage {
            width: 1,
            height: 1,
            rgba_base64: "AQID/w==".to_string(),
        }),
    ];

    let (selected, diagnostic) = linux_multi_format_fallback(&contents);
    assert!(matches!(selected, Some(ClipboardContent::Image(_))));
    assert_eq!(diagnostic, Some(linux_rich_clipboard_degradation()));
}

#[test]
fn one_format_needs_no_diagnostic() {
    let only_text = [text("plain")];
    assert_eq!(linux_multi_format_fallback(&only_text).1, None);
    assert_eq!(linux_multi_format_fallback(&[]), (None, None));
}

#[test]
fn pixels_become_base64_and_come_back() {
    let image = clipboard_image_from_pixels(1, 1, &[1, 2, 3, 255]).expect("one pixel");
    assert_eq!(image.rgba_base64, "AQID/w==");
    assert_eq!(received_pixels(&image), Ok(vec![1, 2, 3, 255]));
    let three = clipboard_image_from_pixels(3, 1, &[77; 12]).expect("three pixels");
    assert_eq!(three.rgba_base64, "TU1NTU1NTU1NTU1N");
    assert_eq!(received_pixels(&three), Ok(vec![77; 12]));
}

#[test]
fn received_pictures_are_checked() {
    let image = |width, height, rgba_base64: &str| ClipboardImage {
        width,
        height,
        rgba_base64: rgba_base64.to_string(),
    };
    assert!(received_pixels(&image(1, 1, "AQID")).is_err());
    assert!(received_pixels(&image(2, 1, "AQID/w==")).is_err());
    assert!(received_pixels(&image(0, 0, "")).is_err());
    assert!(received_pixels(&image(1, 1, "A*ID/w==")).is_err());
    assert!(received_pixels(&image(u32::MAX, u32::MAX, "AQID/w==")).is_err());
}

#[test]
fn pictures_survive_the_png_encoder() {
    let pixels = [10, 20, 30, 255, 1, 2, 3, 4];
    let image = clipboard_image_from_pixels(2, 1, &pixels).expect("two pixels");
    let png = clipboard_image_to_png(&image).expect("encode the picture");
    assert_eq!(&png[..8], &[0x89, b'P', b'N', b'G', 0x0d, 0x0a, 0x1a, 0x0a]);
    let decoded = image::load_from_memory(&png)
        .expect("decode the picture")
        .to_rgba8();
    assert_eq!(decoded.dimensions(), (2, 1));
    assert_eq!(decoded.as_raw(), &pixels.to_vec());
    assert!(clipboard_image_to_png(&ClipboardImage {
        width: 2,
        height: 2,
        rgba_base64: image.rgba_base64.clone(),
    })
    .is_none());
}

/// A bitmap of two pixels, one over the other, without a file header.
fn plain_dib() -> Vec<u8> {
    let mut dib = Vec::new();
    for word in [40u32, 1, 2, 0x0018_0001, 0, 8, 0, 0, 0, 0] {
        dib.extend_from_slice(&word.to_le_bytes());
    }
    dib.extend_from_slice(&[70, 60, 50, 0]);
    dib.extend_from_slice(&[30, 20, 10, 0]);
    dib
}

#[test]
fn device_independent_bitmaps_are_read() {
    let dib = plain_dib();
    let image = decode_windows_dib_image(&dib).expect("decode the bitmap");
    assert_eq!((image.width, image.height), (1, 2));
    assert_eq!(
        received_pixels(&image),
        Ok(vec![10, 20, 30, 255, 50, 60, 70, 255])
    );
    let found = read_windows_dib_image(&[vec![1, 2, 3], dib]).expect("second block");
    assert_eq!(found, image);
    assert!(read_windows_dib_image(&[vec![1, 2, 3]]).is_none());
    assert!(!dib_block_readable(0));
    assert!(dib_block_readable(132));
}

#[test]
fn pictures_are_written_in_both_windows_formats() {
    let pixels = [10, 20, 30, 255, 50, 60, 70, 255];
    let dib = build_windows_dib(&pixels, 1, 2).expect("build the bitmap");
    assert_eq!(dib.len(), 124 + 8);
    assert_eq!(&dib[..4], &[124, 0, 0, 0]);
    assert_eq!(&dib[124..], &[70, 60, 50, 255, 30, 20, 10, 255]);
    let image = clipboard_image_from_pixels(1, 2, &pixels).expect("two pixels");
    let formats = clipboard_image_to_windows_formats(&image).expect("both formats");
    assert_eq!(formats.dib, dib);
    assert!(formats.png.starts_with(&[0x89, b'P', b'N', b'G']));
}

#[test]
fn pixels_are_read_before_bitmaps() {
    let pixels = Some((1, 1, vec![9, 9, 9, 9]));
    let direct = read_image(Platform::Windows, pixels, || {
        unreachable!("the pixels are there")
    });
    assert_eq!(direct.map(|image| image.rgba_base64), Some("CQkJCQ==".to_string()));
    let fallback = read_image(Platform::Windows, None, || Some(pixel_image()));
    assert_eq!(fallback, Some(pixel_image()));
    let elsewhere = read_image(Platform::MacOs, None, || unreachable!("only Windows has it"));
    assert_eq!(elsewhere, None);
}

#[test]
fn signatures_tell_contents_apart() {
    assert_eq!(clipboard_signature_hash(b""), 0xcbf2_9ce4_8422_2325);
    assert_eq!(clipboard_signature_hash(b"a"), 0xaf63_dc4c_8601_ec8c);
    assert_eq!(text("a").signature(), text("a").signature());
    assert_ne!(text("a").signature(), text("b").signature());
    let image = ClipboardContent::Image(pixel_image());
    assert_ne!(image.signature(), text("AAAAAA==").signature());
    assert!(!text("a").is_oversized());
    assert!(text(&"x".repeat(CLIPBOARD_MAX_TEXT_BYTES + 1)).is_oversized());
    assert!(!text(&"x".repeat(CLIPBOARD_MAX_TEXT_BYTES)).is_oversized());
}

fn picture(width: u32, height: u32, rgba_base64: String) -> ClipboardContent {
    ClipboardContent::Image(ClipboardImage {
        width,
        height,
        rgba_base64,
    })
}

#[test]
fn pictures_are_too_large_only_above_the_limit() {
    let pixels = vec![0; CLIPBOARD_MAX_IMAGE_BYTES];
    let image = clipboard_image_from_pixels(4096, 2048, &pixels).expect("a picture at the limit");
    assert_eq!(image.rgba_base64.len(), 44_739_244);
    assert!(image.rgba_base64.ends_with("AAA="));
    assert!(!ClipboardContent::Image(image).is_oversized());

    let above = "A".repeat(44_739_248);
    assert!(picture(8_388_609, 1, above).is_oversized(), "one pixel above");
    assert!(clipboard_image_from_pixels(8_388_609, 1, &vec![0; 33_554_436]).is_none());
    let body = "A".repeat(44_739_242);
    assert!(picture(1, 1, body.clone() + "AA").is_oversized(), "one byte above");
    assert!(!picture(1, 1, body.clone() + "A=").is_oversized(), "at the limit");
    assert!(!picture(1, 1, body + "==").is_oversized(), "one byte below");
    assert!(!picture(1, 1, "==".to_string()).is_oversized());
    assert!(!picture(1, 1, String::new()).is_oversized());
}

#[test]
fn picture_dimensions_show_in_the_signature() {
    let same = || "AAAAAA==".to_string();
    assert_ne!(
        picture(1, 11, same()).signature(),
        picture(11, 1, same()).signature()
    );
    assert_ne!(
        picture(1, 1, same()).signature(),
        picture(1, 2, same()).signature()
    );
    assert_ne!(
        picture(1, 1, same()).signature(),
        picture(1, 1, "AAAA".to_string()).signature()
    );
}

#[test]
fn change_tokens_move_and_failed_starts_wait() {
    assert_ne!(next_change_token(7), 7);
    assert_ne!(next_change_token(u64::MAX), 0);
    let mut tracker = ChangeTracker {
        watch: None,
        last_failure: None,
    };
    assert_eq!(
        change_token(true, &tracker, 0),
        ChangeTokenStep::Report(None)
    );
    assert_eq!(change_token(false, &tracker, 0), ChangeTokenStep::Start(1));
    assert_eq!(finish_tracker_start(&mut tracker, None, 0), None);
    assert_eq!(
        change_token(false, &tracker, TRACKER_RETRY_DELAY - 1),
        ChangeTokenStep::Report(None)
    );
    assert_eq!(
        change_token(false, &tracker, TRACKER_RETRY_DELAY),
        ChangeTokenStep::Start(1)
    );
    let watch = |token, alive| ClipboardWatch { token, alive };
    assert_eq!(
        finish_tracker_start(&mut tracker, Some(watch(4, true)), 0),
        Some(4)
    );
    assert_eq!(
        change_token(false, &tracker, 0),
        ChangeTokenStep::Report(Some(4))
    );
    tracker.watch = Some(watch(4, false));
    assert_eq!(change_token(false, &tracker, 0), ChangeTokenStep::Start(5));
}

#[test]
fn written_contents_are_joined_by_platform() {
    let rich = [
        text("caption"),
        ClipboardContent::Image(ClipboardImage {
            width: 1,
            height: 1,
            rgba_base64: "AQID/w==".to_string(),
        }),
    ];
    assert!(matches!(
        write_multiple_contents(Platform::MacOs, &rich),
        Ok(ClipboardWrite::Pasteboard { .. })
    ));
    assert!(matches!(
        write_multiple_contents(Platform::Windows, &rich),
        Ok(ClipboardWrite::Formats { .. })
    ));
    assert!(write_multiple_contents(Platform::Linux, &rich).is_ok());
    assert!(matches!(
        write_contents(Platform::Linux, &rich[..1]),
        Ok(ClipboardWrite::Text(_))
    ));
    assert!(write_content(&ClipboardContent::Image(ClipboardImage {
        width: 1,
        height: 1,
        rgba_base64: "AQID".to_string(),
    }))
    .is_err());
}

#[test]
fn empty_or_failed_text_is_no_content() {
    assert!(read_text_content(Err("no clipboard".to_string())).is_none());
    assert!(read_text_content(Ok(String::new())).is_none());
    assert!(matches!(
        read_text_content(Ok("x".to_string())),
        Some(ClipboardContent::Text(_))
    ));
    assert_eq!(read_all_image_contents(vec![pixel_image()]).len(), 1);
    let hint = content_hint(Platform::Other, &[], false);
    assert_eq!(hint, ClipboardContentHint::Unknown);
}
