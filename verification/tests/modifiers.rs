use mykvm::control::track_forwarded_key;
use mykvm::layout::default_modifier_map;
use mykvm::modifiers::{
    classify_modifier_vk, logical_target_vk, reconcile_windows_authoritative_modifier_events,
    reconcile_windows_modifier_events, remap_modifier_mask, remap_modifier_vk,
    windows_modifier_family,
};
use mykvm::shared_input::{
    modifier_mask_for_keys, modifier_snapshot_transitions, InputEvent, ALT_MODIFIER_MASK,
    CONTROL_MODIFIER_MASK, META_MODIFIER_MASK, SHIFT_MODIFIER_MASK,
};

fn key(key_code: u16, down: bool) -> InputEvent {
    InputEvent::Key { key_code, down }
}

#[test]
fn missing_windows_key_hook_modifier_is_recovered_before_arrow() {
    let recovered = reconcile_windows_modifier_events(&[0x5B], &[]);
    assert_eq!(recovered, vec![key(0x5B, true)]);

    let map = default_modifier_map();
    let wire = recovered
        .into_iter()
        .chain([key(0x25, true), key(0x25, false), key(0x5B, false)])
        .map(|event| match event {
            InputEvent::Key { key_code, down } => InputEvent::Key {
                key_code: remap_modifier_vk(key_code, &map.control, &map.alt, &map.meta),
                down,
            },
            event => event,
        })
        .collect::<Vec<_>>();

    assert_eq!(
        wire,
        vec![
            key(0x11, true),
            key(0x25, true),
            key(0x25, false),
            key(0x11, false),
        ]
    );
}

#[test]
fn empty_async_snapshot_does_not_release_a_hook_held_modifier() {
    assert!(reconcile_windows_modifier_events(&[], &[0xA2]).is_empty());
}

#[test]
fn swallowed_windows_modifier_is_not_released_from_empty_async_snapshot() {
    assert!(reconcile_windows_modifier_events(&[], &[0x5B]).is_empty());
}

#[test]
fn authoritative_empty_modifier_snapshot_releases_stuck_command() {
    assert_eq!(
        modifier_snapshot_transitions(&[0x41, 0x5B], 0),
        vec![(0x5B, false)]
    );
}

#[test]
fn authoritative_modifier_snapshot_releases_stale_before_restoring_missing_down() {
    assert_eq!(
        modifier_snapshot_transitions(&[0x41, 0x5B], CONTROL_MODIFIER_MASK),
        vec![(0x5B, false), (0x11, true)]
    );
    assert!(modifier_snapshot_transitions(&[0xA1], SHIFT_MODIFIER_MASK).is_empty());
}

#[test]
fn default_modifier_snapshot_remap_swaps_control_and_meta() {
    let map = default_modifier_map();
    assert_eq!(
        remap_modifier_mask(
            CONTROL_MODIFIER_MASK | SHIFT_MODIFIER_MASK,
            &map.control,
            &map.alt,
            &map.meta,
        ),
        META_MODIFIER_MASK | SHIFT_MODIFIER_MASK
    );
    assert_eq!(
        remap_modifier_mask(
            META_MODIFIER_MASK | ALT_MODIFIER_MASK,
            &map.control,
            &map.alt,
            &map.meta,
        ),
        CONTROL_MODIFIER_MASK | ALT_MODIFIER_MASK
    );
}

#[test]
fn windows_modifier_reconciliation_treats_generic_and_sided_keys_as_one_family() {
    assert!(reconcile_windows_modifier_events(&[0xA2], &[0x11]).is_empty());
    assert!(reconcile_windows_modifier_events(&[0x5B], &[0x5B]).is_empty());
}

#[test]
fn windows_modifier_reconciliation_only_adds_missing_downs() {
    assert_eq!(
        reconcile_windows_modifier_events(&[0x5B], &[0x11, 0x25]),
        vec![key(0x5B, true)]
    );
}

#[test]
fn default_modifier_map_swaps_control_and_meta() {
    let map = default_modifier_map();

    // Control (any side) -> Meta (Windows key / macOS Command)
    assert_eq!(
        remap_modifier_vk(0x11, &map.control, &map.alt, &map.meta),
        0x5B
    );
    assert_eq!(
        remap_modifier_vk(0xA2, &map.control, &map.alt, &map.meta),
        0x5B
    );
    assert_eq!(
        remap_modifier_vk(0xA3, &map.control, &map.alt, &map.meta),
        0x5B
    );
    // Meta -> Control
    assert_eq!(
        remap_modifier_vk(0x5B, &map.control, &map.alt, &map.meta),
        0x11
    );
    assert_eq!(
        remap_modifier_vk(0x5C, &map.control, &map.alt, &map.meta),
        0x11
    );
    // Alt stays as itself (left/right preserved via "same")
    assert_eq!(
        remap_modifier_vk(0xA4, &map.control, &map.alt, &map.meta),
        0xA4
    );
    // Non-modifier keys are untouched (e.g. the letter C)
    assert_eq!(
        remap_modifier_vk(0x43, &map.control, &map.alt, &map.meta),
        0x43
    );
}

#[test]
fn custom_modifier_map_is_honored() {
    // User keeps Ctrl literal but maps the Windows/Command key to Alt.
    assert_eq!(remap_modifier_vk(0x11, "same", "same", "alt"), 0x11);
    assert_eq!(remap_modifier_vk(0x5B, "same", "same", "alt"), 0x12);
}

#[test]
fn missed_presses_come_in_family_order_and_once() {
    assert_eq!(
        reconcile_windows_modifier_events(&[0x5B, 0xA2, 0xA3, 0xA2, 0xA0, 0x41], &[0xA1]),
        vec![key(0xA2, true), key(0xA3, true), key(0x5B, true)]
    );
}

#[test]
fn authoritative_reconciliation_releases_before_it_presses() {
    assert_eq!(
        reconcile_windows_authoritative_modifier_events(&[0xA2], &[0x5B, 0x41, 0x5C]),
        vec![key(0x5B, false), key(0x5C, false), key(0xA2, true)]
    );
    assert!(reconcile_windows_authoritative_modifier_events(&[0xA2], &[0x11]).is_empty());
}

#[test]
fn swapping_twice_gives_every_mask_back() {
    for mask in 0..16u8 {
        let once = remap_modifier_mask(mask, "meta", "same", "control");
        assert_eq!(remap_modifier_mask(once, "meta", "same", "control"), mask);
        assert_eq!(once & SHIFT_MODIFIER_MASK, mask & SHIFT_MODIFIER_MASK);
    }
}

#[test]
fn modifier_groups_and_names() {
    assert_eq!(classify_modifier_vk(0xA3), Some(0));
    assert_eq!(classify_modifier_vk(0x12), Some(1));
    assert_eq!(classify_modifier_vk(0x5C), Some(2));
    assert_eq!(classify_modifier_vk(0x10), None);
    assert_eq!(windows_modifier_family(0xA1), Some(0));
    assert_eq!(windows_modifier_family(0x5B), Some(3));
    assert_eq!(windows_modifier_family(0x20), None);
    assert_eq!(logical_target_vk("control"), Some(0x11));
    assert_eq!(logical_target_vk("alt"), Some(0x12));
    assert_eq!(logical_target_vk("meta"), Some(0x5B));
    assert_eq!(logical_target_vk("same"), None);
    assert_eq!(
        modifier_mask_for_keys(&[0xA0, 0x41, 0x5C]),
        SHIFT_MODIFIER_MASK | META_MODIFIER_MASK
    );
}

#[test]
fn snapshot_transitions_press_missing_families_in_order() {
    assert_eq!(
        modifier_snapshot_transitions(&[0xA4, 0xA5], 15),
        vec![(0x10, true), (0x11, true), (0x5B, true)]
    );
    assert_eq!(
        modifier_snapshot_transitions(&[0xA4, 0xA5, 0x10], 0),
        vec![(0xA4, false), (0xA5, false), (0x10, false)]
    );
}

#[test]
fn masks_are_remapped_modifier_by_modifier() {
    for left in 0..16u8 {
        for right in 0..16u8 {
            assert_eq!(
                remap_modifier_mask(left | right, "alt", "alt", "control"),
                remap_modifier_mask(left, "alt", "alt", "control")
                    | remap_modifier_mask(right, "alt", "alt", "control")
            );
        }
    }
}

#[test]
fn authoritative_reconciliation_ends_with_the_physical_modifiers() {
    let physical = [0xA2, 0xA3, 0xA0];
    let mut held = vec![0x5B, 0x41, 0x10];
    for event in reconcile_windows_authoritative_modifier_events(&physical, &held) {
        if let InputEvent::Key { key_code, down } = event {
            track_forwarded_key(&mut held, key_code, down);
        }
    }
    assert_eq!(held, [0x41, 0x10, 0xA2, 0xA3]);
    assert_eq!(modifier_mask_for_keys(&held), modifier_mask_for_keys(&physical));
}
