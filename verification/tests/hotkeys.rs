use mykvm::hotkeys::{
    hotkey_key_to_windows_vk, hotkey_matches_vk, screen_switch_hotkeys_match_vk, HotkeyModifiers,
};
use mykvm::keymap::{mac_key_to_windows_vk, mac_key_to_windows_vk_pairs, windows_vk_to_mac_key};
use mykvm::layout::ScreenSwitchHotkeys;
use mykvm::text::{eq_ignore_ascii_case, is_blank, is_whitespace};

fn alt() -> HotkeyModifiers {
    HotkeyModifiers {
        alt: true,
        ..HotkeyModifiers::default()
    }
}

fn alt_shift() -> HotkeyModifiers {
    HotkeyModifiers {
        alt: true,
        shift: true,
        ..HotkeyModifiers::default()
    }
}

#[test]
fn screen_switch_hotkey_matching_requires_exact_modifiers() {
    let hotkeys = ScreenSwitchHotkeys {
        left: "alt+left".to_string(),
        right: "alt+arrowright".to_string(),
        up: "disabled".to_string(),
        down: "alt+shift+down".to_string(),
    };

    assert!(screen_switch_hotkeys_match_vk(&hotkeys, 0x25, alt()));
    assert!(screen_switch_hotkeys_match_vk(&hotkeys, 0x27, alt()));
    assert!(screen_switch_hotkeys_match_vk(&hotkeys, 0x28, alt_shift()));
    assert!(!screen_switch_hotkeys_match_vk(&hotkeys, 0x25, alt_shift()));
    assert!(!screen_switch_hotkeys_match_vk(&hotkeys, 0x26, alt()));
}

#[test]
fn hotkey_notation_is_trimmed_lowered_and_despaced() {
    assert!(hotkey_matches_vk("\u{3000} ALT + Left\t", 0x25, alt()));
    assert!(hotkey_matches_vk("+option++left+", 0x25, alt()));
    assert!(!hotkey_matches_vk("alt+\tleft", 0x25, alt()));
    assert!(!hotkey_matches_vk("alt+left+right", 0x25, alt()));
    assert!(!hotkey_matches_vk("alt", 0x25, alt()));
    for off in ["", "  ", "off", "NONE", "dis able", "Disabled"] {
        assert!(!hotkey_matches_vk(off, 0x25, HotkeyModifiers::default()));
    }
    let all = HotkeyModifiers {
        ctrl: true,
        alt: true,
        shift: true,
        meta: true,
    };
    assert!(hotkey_matches_vk("ctrl+alt+shift+super+f24", 0x87, all));
    // An unknown name leaves the main key open, so a later name may set it.
    assert!(hotkey_matches_vk("alt+bogus+left", 0x25, alt()));
}

#[test]
fn hotkey_names_cover_letters_digits_functions_and_named_keys() {
    assert_eq!(hotkey_key_to_windows_vk("a"), Some(0x41));
    assert_eq!(hotkey_key_to_windows_vk("Z"), Some(0x5A));
    assert_eq!(hotkey_key_to_windows_vk("7"), Some(0x37));
    assert_eq!(hotkey_key_to_windows_vk("ä"), None);
    assert_eq!(hotkey_key_to_windows_vk("f"), Some(0x46));
    assert_eq!(hotkey_key_to_windows_vk("f1"), Some(0x70));
    assert_eq!(hotkey_key_to_windows_vk("f024"), Some(0x87));
    assert_eq!(hotkey_key_to_windows_vk("f+3"), Some(0x72));
    assert_eq!(hotkey_key_to_windows_vk("f0"), None);
    assert_eq!(hotkey_key_to_windows_vk("f25"), None);
    assert_eq!(hotkey_key_to_windows_vk("f99999999999999999999999"), None);
    assert_eq!(hotkey_key_to_windows_vk("f+"), None);
    assert_eq!(hotkey_key_to_windows_vk("f1x"), None);
    assert_eq!(hotkey_key_to_windows_vk("spacebar"), Some(0x20));
    assert_eq!(hotkey_key_to_windows_vk("tab"), Some(0x09));
    assert_eq!(hotkey_key_to_windows_vk("return"), Some(0x0D));
    assert_eq!(hotkey_key_to_windows_vk("escape"), Some(0x1B));
    assert_eq!(hotkey_key_to_windows_vk("scrlk"), Some(0x91));
    assert_eq!(hotkey_key_to_windows_vk("arrowup"), Some(0x26));
    assert_eq!(hotkey_key_to_windows_vk("nothing"), None);
}

#[test]
fn white_space_is_that_of_the_standard_library() {
    for code in 0..=0x10FFFFu32 {
        if let Some(character) = char::from_u32(code) {
            assert_eq!(is_whitespace(character), character.is_whitespace());
        }
    }
    assert!(is_blank(" \u{a0}\n"));
    assert!(is_blank(""));
    assert!(!is_blank(" x "));
    assert!(eq_ignore_ascii_case("WayLand", "wayland"));
    assert!(!eq_ignore_ascii_case("wayland", "waylan"));
    assert!(!eq_ignore_ascii_case("Ä", "ä"));
}

#[test]
fn modifier_key_mapping_handles_sided_keys_and_caps_lock() {
    assert_eq!(windows_vk_to_mac_key(0x10), Some(56));
    assert_eq!(windows_vk_to_mac_key(0xA0), Some(56));
    assert_eq!(windows_vk_to_mac_key(0xA1), Some(60));
    assert_eq!(windows_vk_to_mac_key(0x11), Some(59));
    assert_eq!(windows_vk_to_mac_key(0xA2), Some(59));
    assert_eq!(windows_vk_to_mac_key(0xA3), Some(62));
    assert_eq!(windows_vk_to_mac_key(0x12), Some(58));
    assert_eq!(windows_vk_to_mac_key(0xA4), Some(58));
    assert_eq!(windows_vk_to_mac_key(0xA5), Some(61));
    assert_eq!(windows_vk_to_mac_key(0x14), Some(57));
    assert_eq!(windows_vk_to_mac_key(0x5B), Some(55));
    assert_eq!(windows_vk_to_mac_key(0x5C), Some(54));

    assert_eq!(mac_key_to_windows_vk(56), Some(0xA0));
    assert_eq!(mac_key_to_windows_vk(60), Some(0xA1));
    assert_eq!(mac_key_to_windows_vk(57), Some(0x14));
    assert_eq!(mac_key_to_windows_vk(58), Some(0xA4));
    assert_eq!(mac_key_to_windows_vk(61), Some(0xA5));
    assert_eq!(mac_key_to_windows_vk(59), Some(0xA2));
    assert_eq!(mac_key_to_windows_vk(62), Some(0xA3));
}

#[test]
fn key_mapping_handles_space_numpad_and_function_keys() {
    assert_eq!(windows_vk_to_mac_key(0x20), Some(49));
    assert_eq!(mac_key_to_windows_vk(49), Some(0x20));

    for (vk, mac) in [
        (0x60, 82),
        (0x61, 83),
        (0x62, 84),
        (0x63, 85),
        (0x64, 86),
        (0x65, 87),
        (0x66, 88),
        (0x67, 89),
        (0x68, 91),
        (0x69, 92),
        (0x6A, 67),
        (0x6B, 69),
        (0x6D, 78),
        (0x6E, 65),
        (0x6F, 75),
    ] {
        assert_eq!(windows_vk_to_mac_key(vk), Some(mac));
    }

    for (vk, mac) in [
        (0x70, 122),
        (0x71, 120),
        (0x72, 99),
        (0x73, 118),
        (0x74, 96),
        (0x75, 97),
        (0x76, 98),
        (0x77, 100),
        (0x78, 101),
        (0x79, 109),
        (0x7A, 103),
        (0x7B, 111),
    ] {
        assert_eq!(windows_vk_to_mac_key(vk), Some(mac));
        assert_eq!(mac_key_to_windows_vk(mac), Some(vk));
    }
}

#[test]
fn keys_survive_the_round_trip() {
    assert_eq!(mac_key_to_windows_vk_pairs().len(), 109);
    let mut mapped = 0;
    for code in 0..=u16::MAX {
        if let Some(vk) = mac_key_to_windows_vk(code) {
            mapped += 1;
            let back = windows_vk_to_mac_key(vk).expect("every mapped key has a way back");
            assert_eq!(mac_key_to_windows_vk(back), Some(vk));
        }
    }
    assert_eq!(mapped, 106);
    assert_eq!(windows_vk_to_mac_key(0xFF), None);
    assert_eq!(mac_key_to_windows_vk(10), None);
}

#[test]
fn mac_keys_come_back_unless_another_one_came_first() {
    for code in 0..=200u16 {
        if let Some(vk) = mac_key_to_windows_vk(code) {
            let expected = match code {
                63 => 55,
                76 => 36,
                81 => 78,
                code => code,
            };
            assert_eq!(windows_vk_to_mac_key(vk), Some(expected));
        }
    }
}
