//! Portable key identifiers and the normalization tables that map
//! platform-native codes onto them.
//!
//! A portable key is a Windows-style virtual-key code held in an `i32`;
//! left/right variants of a modifier collapse to one value. Every mapping
//! here is a pure function of its inputs, so each platform adapter can
//! feed it whatever its capture mechanism reports.

use vstd::prelude::*;
use crate::text::{ascii_lower, spec_ascii_lower, str_eq};

verus! {

pub const VK_BACKSPACE: i32 = 0x08;
pub const VK_TAB: i32 = 0x09;
pub const VK_ENTER: i32 = 0x0D;
pub const VK_SHIFT: i32 = 0x10;
pub const VK_CONTROL: i32 = 0x11;
pub const VK_ALT: i32 = 0x12;
pub const VK_ESCAPE: i32 = 0x1B;
pub const VK_SPACE: i32 = 0x20;
pub const VK_PAGE_UP: i32 = 0x21;
pub const VK_PAGE_DOWN: i32 = 0x22;
pub const VK_END: i32 = 0x23;
pub const VK_HOME: i32 = 0x24;
pub const VK_ARROW_LEFT: i32 = 0x25;
pub const VK_ARROW_UP: i32 = 0x26;
pub const VK_ARROW_RIGHT: i32 = 0x27;
pub const VK_ARROW_DOWN: i32 = 0x28;
pub const VK_INSERT: i32 = 0x2D;
pub const VK_DELETE: i32 = 0x2E;
pub const VK_SUPER: i32 = 0x5B;

/// The four logical modifier keys.
pub open spec fn is_modifier_vk(vk: i32) -> bool {
    vk == VK_SHIFT || vk == VK_CONTROL || vk == VK_ALT || vk == VK_SUPER
}

/// Virtual-key codes the engine knows how to name and parse.
pub open spec fn valid_vk(vk: i32) -> bool {
    ||| is_modifier_vk(vk)
    ||| 0x41 <= vk <= 0x5A  // letters
    ||| 0x30 <= vk <= 0x39  // digits
    ||| 0x70 <= vk <= 0x7B  // F1..F12
    ||| vk == VK_SPACE || vk == VK_ENTER || vk == VK_ESCAPE || vk == VK_TAB
    ||| vk == VK_BACKSPACE || vk == VK_DELETE || vk == VK_INSERT
    ||| vk == VK_HOME || vk == VK_END || vk == VK_PAGE_UP || vk == VK_PAGE_DOWN
    ||| vk == VK_ARROW_UP || vk == VK_ARROW_DOWN || vk == VK_ARROW_LEFT
    ||| vk == VK_ARROW_RIGHT
}

/// The key names used by the settings UI when it reports raw key events,
/// mapped to portable codes. Left/right modifier variants collapse.
pub open spec fn spec_frontend_key_to_vk(s: Seq<char>) -> Option<i32> {
    if s == "Meta"@ || s == "MetaLeft"@ || s == "MetaRight"@ || s == "OSLeft"@
        || s == "OSRight"@ {
        Some(VK_SUPER)
    } else if s == "Control"@ || s == "ControlLeft"@ || s == "ControlRight"@ {
        Some(VK_CONTROL)
    } else if s == "Alt"@ || s == "AltLeft"@ || s == "AltRight"@ {
        Some(VK_ALT)
    } else if s == "Shift"@ || s == "ShiftLeft"@ || s == "ShiftRight"@ {
        Some(VK_SHIFT)
    } else if s.len() == 4 && s[0] == 'K' && s[1] == 'e' && s[2] == 'y' && 'A' <= s[3]
        && s[3] <= 'Z' {
        Some((0x41 + (s[3] as u32 - 'A' as u32)) as i32)
    } else if s.len() == 6 && s[0] == 'D' && s[1] == 'i' && s[2] == 'g' && s[3] == 'i'
        && s[4] == 't' && '0' <= s[5] && s[5] <= '9' {
        Some((0x30 + (s[5] as u32 - '0' as u32)) as i32)
    } else if s.len() == 2 && s[0] == 'F' && '1' <= s[1] && s[1] <= '9' {
        Some((0x70 + (s[1] as u32 - '1' as u32)) as i32)
    } else if s.len() == 3 && s[0] == 'F' && s[1] == '1' && '0' <= s[2] && s[2] <= '2' {
        Some((0x79 + (s[2] as u32 - '0' as u32)) as i32)
    } else if s == "Space"@ {
        Some(VK_SPACE)
    } else if s == "Enter"@ {
        Some(VK_ENTER)
    } else if s == "Escape"@ {
        Some(VK_ESCAPE)
    } else if s == "Tab"@ {
        Some(VK_TAB)
    } else if s == "Backspace"@ {
        Some(VK_BACKSPACE)
    } else if s == "Delete"@ {
        Some(VK_DELETE)
    } else if s == "Insert"@ {
        Some(VK_INSERT)
    } else if s == "Home"@ {
        Some(VK_HOME)
    } else if s == "End"@ {
        Some(VK_END)
    } else if s == "PageUp"@ {
        Some(VK_PAGE_UP)
    } else if s == "PageDown"@ {
        Some(VK_PAGE_DOWN)
    } else if s == "ArrowUp"@ {
        Some(VK_ARROW_UP)
    } else if s == "ArrowDown"@ {
        Some(VK_ARROW_DOWN)
    } else if s == "ArrowLeft"@ {
        Some(VK_ARROW_LEFT)
    } else if s == "ArrowRight"@ {
        Some(VK_ARROW_RIGHT)
    } else {
        None
    }
}

/// Map a key name reported by the settings UI to a portable code.
pub fn frontend_key_to_vk(key: &str) -> (r: Option<i32>)
    ensures
        r == spec_frontend_key_to_vk(key@),
{
    let len = key.unicode_len();
    if str_eq(key, "Meta") || str_eq(key, "MetaLeft") || str_eq(key, "MetaRight")
        || str_eq(key, "OSLeft") || str_eq(key, "OSRight") {
        Some(VK_SUPER)
    } else if str_eq(key, "Control") || str_eq(key, "ControlLeft")
        || str_eq(key, "ControlRight") {
        Some(VK_CONTROL)
    } else if str_eq(key, "Alt") || str_eq(key, "AltLeft") || str_eq(key, "AltRight") {
        Some(VK_ALT)
    } else if str_eq(key, "Shift") || str_eq(key, "ShiftLeft") || str_eq(key, "ShiftRight") {
        Some(VK_SHIFT)
    } else if len == 4 && key.get_char(0) == 'K' && key.get_char(1) == 'e'
        && key.get_char(2) == 'y' && 'A' <= key.get_char(3) && key.get_char(3) <= 'Z' {
        Some((0x41 + (key.get_char(3) as u32 - 'A' as u32)) as i32)
    } else if len == 6 && key.get_char(0) == 'D' && key.get_char(1) == 'i'
        && key.get_char(2) == 'g' && key.get_char(3) == 'i' && key.get_char(4) == 't'
        && '0' <= key.get_char(5) && key.get_char(5) <= '9' {
        Some((0x30 + (key.get_char(5) as u32 - '0' as u32)) as i32)
    } else if len == 2 && key.get_char(0) == 'F' && '1' <= key.get_char(1)
        && key.get_char(1) <= '9' {
        Some((0x70 + (key.get_char(1) as u32 - '1' as u32)) as i32)
    } else if len == 3 && key.get_char(0) == 'F' && key.get_char(1) == '1'
        && '0' <= key.get_char(2) && key.get_char(2) <= '2' {
        Some((0x79 + (key.get_char(2) as u32 - '0' as u32)) as i32)
    } else if str_eq(key, "Space") {
        Some(VK_SPACE)
    } else if str_eq(key, "Enter") {
        Some(VK_ENTER)
    } else if str_eq(key, "Escape") {
        Some(VK_ESCAPE)
    } else if str_eq(key, "Tab") {
        Some(VK_TAB)
    } else if str_eq(key, "Backspace") {
        Some(VK_BACKSPACE)
    } else if str_eq(key, "Delete") {
        Some(VK_DELETE)
    } else if str_eq(key, "Insert") {
        Some(VK_INSERT)
    } else if str_eq(key, "Home") {
        Some(VK_HOME)
    } else if str_eq(key, "End") {
        Some(VK_END)
    } else if str_eq(key, "PageUp") {
        Some(VK_PAGE_UP)
    } else if str_eq(key, "PageDown") {
        Some(VK_PAGE_DOWN)
    } else if str_eq(key, "ArrowUp") {
        Some(VK_ARROW_UP)
    } else if str_eq(key, "ArrowDown") {
        Some(VK_ARROW_DOWN)
    } else if str_eq(key, "ArrowLeft") {
        Some(VK_ARROW_LEFT)
    } else if str_eq(key, "ArrowRight") {
        Some(VK_ARROW_RIGHT)
    } else {
        None
    }
}

/// Characters produced by the live keyboard layout, mapped to portable
/// codes; used for layout-aware translation on macOS.
pub open spec fn spec_char_to_vk(c: char) -> Option<i32> {
    let l = spec_ascii_lower(c);
    if 'a' <= l && l <= 'z' {
        Some((0x41 + (l as u32 - 'a' as u32)) as i32)
    } else if '0' <= l && l <= '9' {
        Some((0x30 + (l as u32 - '0' as u32)) as i32)
    } else if l == ' ' {
        Some(VK_SPACE)
    } else {
        None
    }
}

/// Map a layout-translated character to a portable code.
pub fn char_to_vk(c: char) -> (r: Option<i32>)
    ensures
        r == spec_char_to_vk(c),
{
    let l = ascii_lower(c);
    if 'a' <= l && l <= 'z' {
        Some((0x41 + (l as u32 - 'a' as u32)) as i32)
    } else if '0' <= l && l <= '9' {
        Some((0x30 + (l as u32 - '0' as u32)) as i32)
    } else if l == ' ' {
        Some(VK_SPACE)
    } else {
        None
    }
}

/// The static macOS hardware-keycode table, used for keys that have no
/// printable character under the live layout (modifiers, function keys,
/// navigation keys) and as a fallback for the rest.
pub open spec fn spec_macos_keycode_to_vk(keycode: u32) -> Option<i32> {
    if keycode == 0x37 || keycode == 0x36 {
        Some(VK_SUPER)
    } else if keycode == 0x3B || keycode == 0x3E {
        Some(VK_CONTROL)
    } else if keycode == 0x3A || keycode == 0x3D {
        Some(VK_ALT)
    } else if keycode == 0x38 || keycode == 0x3C {
        Some(VK_SHIFT)
    } else if keycode == 0x7A {
        Some(0x70)
    } else if keycode == 0x78 {
        Some(0x71)
    } else if keycode == 0x63 {
        Some(0x72)
    } else if keycode == 0x76 {
        Some(0x73)
    } else if keycode == 0x60 {
        Some(0x74)
    } else if keycode == 0x61 {
        Some(0x75)
    } else if keycode == 0x62 {
        Some(0x76)
    } else if keycode == 0x64 {
        Some(0x77)
    } else if keycode == 0x65 {
        Some(0x78)
    } else if keycode == 0x6D {
        Some(0x79)
    } else if keycode == 0x67 {
        Some(0x7A)
    } else if keycode == 0x6F {
        Some(0x7B)
    } else if keycode == 0x24 {
        Some(VK_ENTER)
    } else if keycode == 0x30 {
        Some(VK_TAB)
    } else if keycode == 0x31 {
        Some(VK_SPACE)
    } else if keycode == 0x33 {
        Some(VK_BACKSPACE)
    } else if keycode == 0x35 {
        Some(VK_ESCAPE)
    } else if keycode == 0x75 {
        Some(VK_DELETE)
    } else if keycode == 0x72 {
        Some(VK_INSERT)
    } else if keycode == 0x73 {
        Some(VK_HOME)
    } else if keycode == 0x77 {
        Some(VK_END)
    } else if keycode == 0x74 {
        Some(VK_PAGE_UP)
    } else if keycode == 0x79 {
        Some(VK_PAGE_DOWN)
    } else if keycode == 0x7E {
        Some(VK_ARROW_UP)
    } else if keycode == 0x7D {
        Some(VK_ARROW_DOWN)
    } else if keycode == 0x7B {
        Some(VK_ARROW_LEFT)
    } else if keycode == 0x7C {
        Some(VK_ARROW_RIGHT)
    } else {
        None
    }
}

/// Map a macOS hardware keycode to a portable code through the static
/// table.
pub fn macos_keycode_to_vk(keycode: u32) -> (r: Option<i32>)
    ensures
        r == spec_macos_keycode_to_vk(keycode),
{
    if keycode == 0x37 || keycode == 0x36 {
        Some(VK_SUPER)
    } else if keycode == 0x3B || keycode == 0x3E {
        Some(VK_CONTROL)
    } else if keycode == 0x3A || keycode == 0x3D {
        Some(VK_ALT)
    } else if keycode == 0x38 || keycode == 0x3C {
        Some(VK_SHIFT)
    } else if keycode == 0x7A {
        Some(0x70)
    } else if keycode == 0x78 {
        Some(0x71)
    } else if keycode == 0x63 {
        Some(0x72)
    } else if keycode == 0x76 {
        Some(0x73)
    } else if keycode == 0x60 {
        Some(0x74)
    } else if keycode == 0x61 {
        Some(0x75)
    } else if keycode == 0x62 {
        Some(0x76)
    } else if keycode == 0x64 {
        Some(0x77)
    } else if keycode == 0x65 {
        Some(0x78)
    } else if keycode == 0x6D {
        Some(0x79)
    } else if keycode == 0x67 {
        Some(0x7A)
    } else if keycode == 0x6F {
        Some(0x7B)
    } else if keycode == 0x24 {
        Some(VK_ENTER)
    } else if keycode == 0x30 {
        Some(VK_TAB)
    } else if keycode == 0x31 {
        Some(VK_SPACE)
    } else if keycode == 0x33 {
        Some(VK_BACKSPACE)
    } else if keycode == 0x35 {
        Some(VK_ESCAPE)
    } else if keycode == 0x75 {
        Some(VK_DELETE)
    } else if keycode == 0x72 {
        Some(VK_INSERT)
    } else if keycode == 0x73 {
        Some(VK_HOME)
    } else if keycode == 0x77 {
        Some(VK_END)
    } else if keycode == 0x74 {
        Some(VK_PAGE_UP)
    } else if keycode == 0x79 {
        Some(VK_PAGE_DOWN)
    } else if keycode == 0x7E {
        Some(VK_ARROW_UP)
    } else if keycode == 0x7D {
        Some(VK_ARROW_DOWN)
    } else if keycode == 0x7B {
        Some(VK_ARROW_LEFT)
    } else if keycode == 0x7C {
        Some(VK_ARROW_RIGHT)
    } else {
        None
    }
}

/// Layout-aware translation of a macOS keycode: prefer the character the
/// live keyboard layout produced for the keycode, fall back to the static
/// hardware table for keys without one.
pub open spec fn spec_convert_keycode(keycode: u32, layout_char: Option<char>) -> Option<i32> {
    match layout_char {
        Some(c) => match spec_char_to_vk(c) {
            Some(vk) => Some(vk),
            None => spec_macos_keycode_to_vk(keycode),
        },
        None => spec_macos_keycode_to_vk(keycode),
    }
}

/// Map a macOS keycode to a portable code. `layout_char` is the character
/// the live keyboard layout translates the keycode to, when there is one;
/// it decides first so that non-QWERTY layouts map by what the key types.
pub fn convert_keycode(keycode: u32, layout_char: Option<char>) -> (r: Option<i32>)
    ensures
        r == spec_convert_keycode(keycode, layout_char),
{
    if let Some(c) = layout_char {
        if let Some(vk) = char_to_vk(c) {
            return Some(vk);
        }
    }
    macos_keycode_to_vk(keycode)
}

// Device-specific modifier-flag masks of the macOS flags-changed event,
// used to tell a left/right modifier press from its release.
pub const NX_DEVICE_L_CTL_MASK: u64 = 0x00000001;
pub const NX_DEVICE_L_SHIFT_MASK: u64 = 0x00000002;
pub const NX_DEVICE_R_SHIFT_MASK: u64 = 0x00000004;
pub const NX_DEVICE_L_CMD_MASK: u64 = 0x00000008;
pub const NX_DEVICE_R_CMD_MASK: u64 = 0x00000010;
pub const NX_DEVICE_L_ALT_MASK: u64 = 0x00000020;
pub const NX_DEVICE_R_ALT_MASK: u64 = 0x00000040;
pub const NX_DEVICE_R_CTL_MASK: u64 = 0x00002000;

/// A macOS modifier-flags-changed event, decoded to a portable modifier
/// press or release by diffing the device-specific flag bit for the
/// keycode's physical key.
pub open spec fn spec_convert_modifier(keycode: u32, flags: u64) -> Option<(i32, bool)> {
    if keycode == 0x38 {
        Some((VK_SHIFT, flags & NX_DEVICE_L_SHIFT_MASK != 0))
    } else if keycode == 0x3C {
        Some((VK_SHIFT, flags & NX_DEVICE_R_SHIFT_MASK != 0))
    } else if keycode == 0x3B {
        Some((VK_CONTROL, flags & NX_DEVICE_L_CTL_MASK != 0))
    } else if keycode == 0x3E {
        Some((VK_CONTROL, flags & NX_DEVICE_R_CTL_MASK != 0))
    } else if keycode == 0x3A {
        Some((VK_ALT, flags & NX_DEVICE_L_ALT_MASK != 0))
    } else if keycode == 0x3D {
        Some((VK_ALT, flags & NX_DEVICE_R_ALT_MASK != 0))
    } else if keycode == 0x37 {
        Some((VK_SUPER, flags & NX_DEVICE_L_CMD_MASK != 0))
    } else if keycode == 0x36 {
        Some((VK_SUPER, flags & NX_DEVICE_R_CMD_MASK != 0))
    } else {
        None
    }
}

/// Decode a modifier-flags-changed event into `(portable key, pressed)`.
pub fn convert_modifier(keycode: u32, flags: u64) -> (r: Option<(i32, bool)>)
    ensures
        r == spec_convert_modifier(keycode, flags),
{
    if keycode == 0x38 {
        Some((VK_SHIFT, flags & NX_DEVICE_L_SHIFT_MASK != 0))
    } else if keycode == 0x3C {
        Some((VK_SHIFT, flags & NX_DEVICE_R_SHIFT_MASK != 0))
    } else if keycode == 0x3B {
        Some((VK_CONTROL, flags & NX_DEVICE_L_CTL_MASK != 0))
    } else if keycode == 0x3E {
        Some((VK_CONTROL, flags & NX_DEVICE_R_CTL_MASK != 0))
    } else if keycode == 0x3A {
        Some((VK_ALT, flags & NX_DEVICE_L_ALT_MASK != 0))
    } else if keycode == 0x3D {
        Some((VK_ALT, flags & NX_DEVICE_R_ALT_MASK != 0))
    } else if keycode == 0x37 {
        Some((VK_SUPER, flags & NX_DEVICE_L_CMD_MASK != 0))
    } else if keycode == 0x36 {
        Some((VK_SUPER, flags & NX_DEVICE_R_CMD_MASK != 0))
    } else {
        None
    }
}

/// The HID keyboard usage-page table: usage codes of reports sent by
/// dictation hand controls and other HID keyboards, mapped to virtual-key
/// codes. `0` means the usage is not mapped.
pub open spec fn spec_hid_usage_to_vkey(usage: u8) -> i32 {
    if 0x04 <= usage && usage <= 0x1D {
        (usage - 0x04 + 0x41) as i32
    } else if 0x1E <= usage && usage <= 0x27 {
        (usage - 0x1E + 0x31) as i32
    } else if usage == 0x28 {
        VK_ENTER
    } else if usage == 0x29 {
        VK_ESCAPE
    } else if usage == 0x2A {
        VK_BACKSPACE
    } else if usage == 0x2B {
        VK_TAB
    } else if usage == 0x2C {
        VK_SPACE
    } else if 0x3A <= usage && usage <= 0x45 {
        (usage - 0x3A + 0x70) as i32
    } else if usage == 0x46 {
        0x2C
    } else if usage == 0x47 {
        0x91
    } else if usage == 0x48 {
        0x13
    } else if usage == 0x49 {
        VK_INSERT
    } else if usage == 0x4A {
        VK_HOME
    } else if usage == 0x4B {
        VK_PAGE_UP
    } else if usage == 0x4C {
        VK_DELETE
    } else if usage == 0x4D {
        VK_END
    } else if usage == 0x4E {
        VK_PAGE_DOWN
    } else if usage == 0x4F {
        VK_ARROW_RIGHT
    } else if usage == 0x50 {
        VK_ARROW_LEFT
    } else if usage == 0x51 {
        VK_ARROW_DOWN
    } else if usage == 0x52 {
        VK_ARROW_UP
    } else if usage == 0xE0 {
        0xA2
    } else if usage == 0xE1 {
        0xA0
    } else if usage == 0xE2 {
        0xA4
    } else if usage == 0xE3 {
        VK_SUPER
    } else if usage == 0xE4 {
        0xA3
    } else if usage == 0xE5 {
        0xA1
    } else if usage == 0xE6 {
        0xA5
    } else if usage == 0xE7 {
        0x5C
    } else {
        0
    }
}

/// Convert a HID keyboard usage code to a virtual-key code; returns `0`
/// for usages outside the table.
pub fn hid_usage_to_vkey(usage: u8) -> (r: i32)
    ensures
        r == spec_hid_usage_to_vkey(usage),
{
    if 0x04 <= usage && usage <= 0x1D {
        (usage - 0x04 + 0x41) as i32
    } else if 0x1E <= usage && usage <= 0x27 {
        (usage - 0x1E + 0x31) as i32
    } else if usage == 0x28 {
        VK_ENTER
    } else if usage == 0x29 {
        VK_ESCAPE
    } else if usage == 0x2A {
        VK_BACKSPACE
    } else if usage == 0x2B {
        VK_TAB
    } else if usage == 0x2C {
        VK_SPACE
    } else if 0x3A <= usage && usage <= 0x45 {
        (usage - 0x3A + 0x70) as i32
    } else if usage == 0x46 {
        0x2C
    } else if usage == 0x47 {
        0x91
    } else if usage == 0x48 {
        0x13
    } else if usage == 0x49 {
        VK_INSERT
    } else if usage == 0x4A {
        VK_HOME
    } else if usage == 0x4B {
        VK_PAGE_UP
    } else if usage == 0x4C {
        VK_DELETE
    } else if usage == 0x4D {
        VK_END
    } else if usage == 0x4E {
        VK_PAGE_DOWN
    } else if usage == 0x4F {
        VK_ARROW_RIGHT
    } else if usage == 0x50 {
        VK_ARROW_LEFT
    } else if usage == 0x51 {
        VK_ARROW_DOWN
    } else if usage == 0x52 {
        VK_ARROW_UP
    } else if usage == 0xE0 {
        0xA2
    } else if usage == 0xE1 {
        0xA0
    } else if usage == 0xE2 {
        0xA4
    } else if usage == 0xE3 {
        VK_SUPER
    } else if usage == 0xE4 {
        0xA3
    } else if usage == 0xE5 {
        0xA1
    } else if usage == 0xE6 {
        0xA5
    } else if usage == 0xE7 {
        0x5C
    } else {
        0
    }
}

/// The virtual keys found pressed in one HID keyboard report: bytes from
/// the key-code area of the report, mapped through the usage table,
/// dropping zero bytes and unmapped usages.
pub open spec fn spec_hid_report_vkeys(report: Seq<u8>) -> Seq<i32>
    decreases report.len(),
{
    if report.len() == 0 {
        Seq::empty()
    } else {
        let rest = spec_hid_report_vkeys(report.drop_first());
        let usage = report.first();
        if usage != 0 && spec_hid_usage_to_vkey(usage) != 0 {
            seq![spec_hid_usage_to_vkey(usage)] + rest
        } else {
            rest
        }
    }
}

/// Scan the key-code bytes of a HID keyboard report (the slice after the
/// modifier and reserved bytes) and collect the pressed virtual keys.
pub fn hid_report_vkeys(report: &[u8]) -> (r: Vec<i32>)
    ensures
        r@ == spec_hid_report_vkeys(report@),
{
    let mut out: Vec<i32> = Vec::new();
    let len = report.len();
    let mut i: usize = len;
    while i > 0
        invariant
            i <= len,
            len == report@.len(),
            out@ == spec_hid_report_vkeys(report@.subrange(i as int, len as int)),
        decreases i,
    {
        i = i - 1;
        let usage = report[i];
        let vkey = hid_usage_to_vkey(usage);
        if usage != 0 && vkey != 0 {
            out.insert(0, vkey);
        }
        proof {
            let sub = report@.subrange(i as int, len as int);
            assert(sub.drop_first() =~= report@.subrange(i + 1 as int, len as int));
        }
    }
    proof {
        assert(report@.subrange(0, len as int) =~= report@);
    }
    out
}

} // verus!
