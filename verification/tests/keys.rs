use murmure::keys::{char_to_vk, convert_keycode, convert_modifier, frontend_key_to_vk,
    hid_report_vkeys, hid_usage_to_vkey, macos_keycode_to_vk};

#[test]
fn frontend_names_map_to_virtual_keys() {
    assert_eq!(frontend_key_to_vk("Meta"), Some(0x5B));
    assert_eq!(frontend_key_to_vk("ControlLeft"), Some(0x11));
    assert_eq!(frontend_key_to_vk("AltRight"), Some(0x12));
    assert_eq!(frontend_key_to_vk("Shift"), Some(0x10));
    assert_eq!(frontend_key_to_vk("KeyA"), Some(0x41));
    assert_eq!(frontend_key_to_vk("KeyZ"), Some(0x5A));
    assert_eq!(frontend_key_to_vk("Digit0"), Some(0x30));
    assert_eq!(frontend_key_to_vk("Digit9"), Some(0x39));
    assert_eq!(frontend_key_to_vk("F1"), Some(0x70));
    assert_eq!(frontend_key_to_vk("F12"), Some(0x7B));
    assert_eq!(frontend_key_to_vk("Space"), Some(0x20));
    assert_eq!(frontend_key_to_vk("ArrowLeft"), Some(0x25));
    assert_eq!(frontend_key_to_vk("Fn"), None);
    assert_eq!(frontend_key_to_vk(""), None);
}

#[test]
fn layout_characters_map_to_virtual_keys() {
    assert_eq!(char_to_vk('a'), Some(0x41));
    assert_eq!(char_to_vk('A'), Some(0x41));
    assert_eq!(char_to_vk('z'), Some(0x5A));
    assert_eq!(char_to_vk('7'), Some(0x37));
    assert_eq!(char_to_vk(' '), Some(0x20));
    assert_eq!(char_to_vk('!'), None);
}

#[test]
fn macos_keycodes_map_through_the_static_table() {
    assert_eq!(macos_keycode_to_vk(0x37), Some(0x5B)); // left command
    assert_eq!(macos_keycode_to_vk(0x3C), Some(0x10)); // right shift
    assert_eq!(macos_keycode_to_vk(0x24), Some(0x0D)); // return
    assert_eq!(macos_keycode_to_vk(0x7E), Some(0x26)); // arrow up
    assert_eq!(macos_keycode_to_vk(0xFF), None);
}

#[test]
fn layout_translation_wins_over_the_static_table() {
    // With a layout character the character mapping decides.
    assert_eq!(convert_keycode(0x33, Some('q')), Some(0x51));
    // A non-mapping character falls back to the hardware table.
    assert_eq!(convert_keycode(0x33, Some('$')), Some(0x08));
    // Without a character the hardware table decides alone.
    assert_eq!(convert_keycode(0x35, None), Some(0x1B));
    assert_eq!(convert_keycode(0xFF, None), None);
}

#[test]
fn modifier_flags_tell_press_from_release() {
    // Left shift keycode with its device bit set: pressed.
    assert_eq!(convert_modifier(0x38, 0x2), Some((0x10, true)));
    // Left shift keycode with the bit clear: released.
    assert_eq!(convert_modifier(0x38, 0x0), Some((0x10, false)));
    // Right control.
    assert_eq!(convert_modifier(0x3E, 0x2000), Some((0x11, true)));
    // Left command.
    assert_eq!(convert_modifier(0x37, 0x8), Some((0x5B, true)));
    // Not a modifier keycode.
    assert_eq!(convert_modifier(0x12, 0xFFFF), None);
}

#[test]
fn hid_usages_map_to_virtual_keys() {
    assert_eq!(hid_usage_to_vkey(0x04), 0x41); // a
    assert_eq!(hid_usage_to_vkey(0x1D), 0x5A); // z
    assert_eq!(hid_usage_to_vkey(0x1E), 0x31); // 1
    assert_eq!(hid_usage_to_vkey(0x28), 0x0D); // enter
    assert_eq!(hid_usage_to_vkey(0x3A), 0x70); // f1
    assert_eq!(hid_usage_to_vkey(0xE0), 0xA2); // left control
    assert_eq!(hid_usage_to_vkey(0x03), 0); // unmapped
}

#[test]
fn hid_reports_collect_pressed_keys() {
    // Key-code area of a boot keyboard report: 'a' and 'b' held, rest
    // empty; zero bytes and unmapped usages are dropped.
    assert_eq!(hid_report_vkeys(&[0x04, 0x05, 0x00, 0x00, 0x00, 0x00]), vec![0x41, 0x42]);
    assert_eq!(hid_report_vkeys(&[0x00, 0x00]), Vec::<i32>::new());
    assert_eq!(hid_report_vkeys(&[0x03, 0x04]), vec![0x41]);
    assert_eq!(hid_report_vkeys(&[]), Vec::<i32>::new());
}
