//! Control identities: the `(usage page, usage)` pairs this library speaks
//! about, the fixed dictionary from rule-file control names to identities, and
//! the mapping from host virtual-key codes to keyboard usages.

use vstd::prelude::*;

verus! {

use vstd::string::StringSliceAdditionalSpecFns;
use crate::HidKey;
use crate::bytes::bytes_eq;

/// The control identity that reports the function-layer (Fn) state.
pub open spec fn fn_state_key() -> HidKey {
    HidKey { usage_page: 0xFF00, usage: 0x0003 }
}

/// The control identity of the eject key.
pub open spec fn eject_key() -> HidKey {
    HidKey { usage_page: 0x0C, usage: 0x00B8 }
}

/// The control identity of the left shift key.
pub open spec fn left_shift_key() -> HidKey {
    HidKey { usage_page: 0x07, usage: 0x00E1 }
}

/// The control identity of the right shift key.
pub open spec fn right_shift_key() -> HidKey {
    HidKey { usage_page: 0x07, usage: 0x00E5 }
}

/// The fixed dictionary from control names, as written in the rule file, to
/// control identities.
#[verifier::opaque]
pub open spec fn spec_key_for_name(n: Seq<u8>) -> Option<HidKey> {
    if n == "KEY_A".spec_bytes() {
        Some(HidKey { usage_page: 0x7, usage: 0x0004 })
    } else if n == "KEY_B".spec_bytes() {
        Some(HidKey { usage_page: 0x7, usage: 0x0005 })
    } else if n == "KEY_C".spec_bytes() {
        Some(HidKey { usage_page: 0x7, usage: 0x0006 })
    } else if n == "KEY_D".spec_bytes() {
        Some(HidKey { usage_page: 0x7, usage: 0x0007 })
    } else if n == "KEY_E".spec_bytes() {
        Some(HidKey { usage_page: 0x7, usage: 0x0008 })
    } else if n == "KEY_F".spec_bytes() {
        Some(HidKey { usage_page: 0x7, usage: 0x0009 })
    } else if n == "KEY_G".spec_bytes() {
        Some(HidKey { usage_page: 0x7, usage: 0x000A })
    } else if n == "KEY_H".spec_bytes() {
        Some(HidKey { usage_page: 0x7, usage: 0x000B })
    } else if n == "KEY_I".spec_bytes() {
        Some(HidKey { usage_page: 0x7, usage: 0x000C })
    } else if n == "KEY_J".spec_bytes() {
        Some(HidKey { usage_page: 0x7, usage: 0x000D })
    } else if n == "KEY_K".spec_bytes() {
        Some(HidKey { usage_page: 0x7, usage: 0x000E })
    } else if n == "KEY_L".spec_bytes() {
        Some(HidKey { usage_page: 0x7, usage: 0x000F })
    } else if n == "KEY_M".spec_bytes() {
        Some(HidKey { usage_page: 0x7, usage: 0x0010 })
    } else if n == "KEY_N".spec_bytes() {
        Some(HidKey { usage_page: 0x7, usage: 0x0011 })
    } else if n == "KEY_O".spec_bytes() {
        Some(HidKey { usage_page: 0x7, usage: 0x0012 })
    } else if n == "KEY_P".spec_bytes() {
        Some(HidKey { usage_page: 0x7, usage: 0x0013 })
    } else if n == "KEY_Q".spec_bytes() {
        Some(HidKey { usage_page: 0x7, usage: 0x0014 })
    } else if n == "KEY_R".spec_bytes() {
        Some(HidKey { usage_page: 0x7, usage: 0x0015 })
    } else if n == "KEY_S".spec_bytes() {
        Some(HidKey { usage_page: 0x7, usage: 0x0016 })
    } else if n == "KEY_T".spec_bytes() {
        Some(HidKey { usage_page: 0x7, usage: 0x0017 })
    } else if n == "KEY_U".spec_bytes() {
        Some(HidKey { usage_page: 0x7, usage: 0x0018 })
    } else if n == "KEY_V".spec_bytes() {
        Some(HidKey { usage_page: 0x7, usage: 0x0019 })
    } else if n == "KEY_W".spec_bytes() {
        Some(HidKey { usage_page: 0x7, usage: 0x001A })
    } else if n == "KEY_X".spec_bytes() {
        Some(HidKey { usage_page: 0x7, usage: 0x001B })
    } else if n == "KEY_Y".spec_bytes() {
        Some(HidKey { usage_page: 0x7, usage: 0x001C })
    } else if n == "KEY_Z".spec_bytes() {
        Some(HidKey { usage_page: 0x7, usage: 0x001D })
    } else if n == "KEY_1".spec_bytes() {
        Some(HidKey { usage_page: 0x7, usage: 0x001E })
    } else if n == "KEY_2".spec_bytes() {
        Some(HidKey { usage_page: 0x7, usage: 0x001F })
    } else if n == "KEY_3".spec_bytes() {
        Some(HidKey { usage_page: 0x7, usage: 0x0020 })
    } else if n == "KEY_4".spec_bytes() {
        Some(HidKey { usage_page: 0x7, usage: 0x0021 })
    } else if n == "KEY_5".spec_bytes() {
        Some(HidKey { usage_page: 0x7, usage: 0x0022 })
    } else if n == "KEY_6".spec_bytes() {
        Some(HidKey { usage_page: 0x7, usage: 0x0023 })
    } else if n == "KEY_7".spec_bytes() {
        Some(HidKey { usage_page: 0x7, usage: 0x0024 })
    } else if n == "KEY_8".spec_bytes() {
        Some(HidKey { usage_page: 0x7, usage: 0x0025 })
    } else if n == "KEY_9".spec_bytes() {
        Some(HidKey { usage_page: 0x7, usage: 0x0026 })
    } else if n == "KEY_0".spec_bytes() {
        Some(HidKey { usage_page: 0x7, usage: 0x0027 })
    } else if n == "ENTER".spec_bytes() {
        Some(HidKey { usage_page: 0x7, usage: 0x0028 })
    } else if n == "ESCAPE".spec_bytes() {
        Some(HidKey { usage_page: 0x7, usage: 0x0029 })
    } else if n == "BACKSPACE".spec_bytes() {
        Some(HidKey { usage_page: 0x7, usage: 0x002A })
    } else if n == "TAB".spec_bytes() {
        Some(HidKey { usage_page: 0x7, usage: 0x002B })
    } else if n == "SPACE".spec_bytes() {
        Some(HidKey { usage_page: 0x7, usage: 0x002C })
    } else if n == "F1".spec_bytes() {
        Some(HidKey { usage_page: 0x7, usage: 0x003A })
    } else if n == "F2".spec_bytes() {
        Some(HidKey { usage_page: 0x7, usage: 0x003B })
    } else if n == "F3".spec_bytes() {
        Some(HidKey { usage_page: 0x7, usage: 0x003C })
    } else if n == "F4".spec_bytes() {
        Some(HidKey { usage_page: 0x7, usage: 0x003D })
    } else if n == "F5".spec_bytes() {
        Some(HidKey { usage_page: 0x7, usage: 0x003E })
    } else if n == "F6".spec_bytes() {
        Some(HidKey { usage_page: 0x7, usage: 0x003F })
    } else if n == "F7".spec_bytes() {
        Some(HidKey { usage_page: 0x7, usage: 0x0040 })
    } else if n == "F8".spec_bytes() {
        Some(HidKey { usage_page: 0x7, usage: 0x0041 })
    } else if n == "F9".spec_bytes() {
        Some(HidKey { usage_page: 0x7, usage: 0x0042 })
    } else if n == "F10".spec_bytes() {
        Some(HidKey { usage_page: 0x7, usage: 0x0043 })
    } else if n == "F11".spec_bytes() {
        Some(HidKey { usage_page: 0x7, usage: 0x0044 })
    } else if n == "F12".spec_bytes() {
        Some(HidKey { usage_page: 0x7, usage: 0x0045 })
    } else if n == "RIGHT_ARROW".spec_bytes() {
        Some(HidKey { usage_page: 0x7, usage: 0x004F })
    } else if n == "LEFT_ARROW".spec_bytes() {
        Some(HidKey { usage_page: 0x7, usage: 0x0050 })
    } else if n == "DOWN_ARROW".spec_bytes() {
        Some(HidKey { usage_page: 0x7, usage: 0x0051 })
    } else if n == "UP_ARROW".spec_bytes() {
        Some(HidKey { usage_page: 0x7, usage: 0x0052 })
    } else if n == "LEFT_CTRL".spec_bytes() {
        Some(HidKey { usage_page: 0x7, usage: 0x00E0 })
    } else if n == "LEFT_SHIFT".spec_bytes() {
        Some(HidKey { usage_page: 0x7, usage: 0x00E1 })
    } else if n == "LEFT_ALT".spec_bytes() {
        Some(HidKey { usage_page: 0x7, usage: 0x00E2 })
    } else if n == "LEFT_GUI".spec_bytes() {
        Some(HidKey { usage_page: 0x7, usage: 0x00E3 })
    } else if n == "RIGHT_CTRL".spec_bytes() {
        Some(HidKey { usage_page: 0x7, usage: 0x00E4 })
    } else if n == "RIGHT_SHIFT".spec_bytes() {
        Some(HidKey { usage_page: 0x7, usage: 0x00E5 })
    } else if n == "RIGHT_ALT".spec_bytes() {
        Some(HidKey { usage_page: 0x7, usage: 0x00E6 })
    } else if n == "RIGHT_GUI".spec_bytes() {
        Some(HidKey { usage_page: 0x7, usage: 0x00E7 })
    } else if n == "BRIGHTNESS_DOWN".spec_bytes() {
        Some(HidKey { usage_page: 0xC, usage: 0x006F })
    } else if n == "BRIGHTNESS_UP".spec_bytes() {
        Some(HidKey { usage_page: 0xC, usage: 0x0070 })
    } else if n == "MEDIA_NEXT".spec_bytes() {
        Some(HidKey { usage_page: 0xC, usage: 0x00B3 })
    } else if n == "MEDIA_PREV".spec_bytes() {
        Some(HidKey { usage_page: 0xC, usage: 0x00B4 })
    } else if n == "EJECT".spec_bytes() {
        Some(HidKey { usage_page: 0xC, usage: 0x00B8 })
    } else if n == "MEDIA_PLAY_PAUSE".spec_bytes() {
        Some(HidKey { usage_page: 0xC, usage: 0x00CD })
    } else if n == "MUTE".spec_bytes() {
        Some(HidKey { usage_page: 0xC, usage: 0x00E2 })
    } else if n == "VOLUME_UP".spec_bytes() {
        Some(HidKey { usage_page: 0xC, usage: 0x00E9 })
    } else if n == "VOLUME_DOWN".spec_bytes() {
        Some(HidKey { usage_page: 0xC, usage: 0x00EA })
    } else if n == "FN_STATE".spec_bytes() {
        Some(HidKey { usage_page: 0xFF00, usage: 0x0003 })
    } else {
        None
    }
}

/// Resolve a control name from the rule file against the fixed dictionary.
pub fn string_to_hid_key(name: &[u8]) -> (r: Option<HidKey>)
    ensures
        r == spec_key_for_name(name@),
{
    proof {
        reveal(spec_key_for_name);
    }
    if bytes_eq(name, "KEY_A".as_bytes()) {
        Some(HidKey { usage_page: 0x7, usage: 0x0004 })
    } else if bytes_eq(name, "KEY_B".as_bytes()) {
        Some(HidKey { usage_page: 0x7, usage: 0x0005 })
    } else if bytes_eq(name, "KEY_C".as_bytes()) {
        Some(HidKey { usage_page: 0x7, usage: 0x0006 })
    } else if bytes_eq(name, "KEY_D".as_bytes()) {
        Some(HidKey { usage_page: 0x7, usage: 0x0007 })
    } else if bytes_eq(name, "KEY_E".as_bytes()) {
        Some(HidKey { usage_page: 0x7, usage: 0x0008 })
    } else if bytes_eq(name, "KEY_F".as_bytes()) {
        Some(HidKey { usage_page: 0x7, usage: 0x0009 })
    } else if bytes_eq(name, "KEY_G".as_bytes()) {
        Some(HidKey { usage_page: 0x7, usage: 0x000A })
    } else if bytes_eq(name, "KEY_H".as_bytes()) {
        Some(HidKey { usage_page: 0x7, usage: 0x000B })
    } else if bytes_eq(name, "KEY_I".as_bytes()) {
        Some(HidKey { usage_page: 0x7, usage: 0x000C })
    } else if bytes_eq(name, "KEY_J".as_bytes()) {
        Some(HidKey { usage_page: 0x7, usage: 0x000D })
    } else if bytes_eq(name, "KEY_K".as_bytes()) {
        Some(HidKey { usage_page: 0x7, usage: 0x000E })
    } else if bytes_eq(name, "KEY_L".as_bytes()) {
        Some(HidKey { usage_page: 0x7, usage: 0x000F })
    } else if bytes_eq(name, "KEY_M".as_bytes()) {
        Some(HidKey { usage_page: 0x7, usage: 0x0010 })
    } else if bytes_eq(name, "KEY_N".as_bytes()) {
        Some(HidKey { usage_page: 0x7, usage: 0x0011 })
    } else if bytes_eq(name, "KEY_O".as_bytes()) {
        Some(HidKey { usage_page: 0x7, usage: 0x0012 })
    } else if bytes_eq(name, "KEY_P".as_bytes()) {
        Some(HidKey { usage_page: 0x7, usage: 0x0013 })
    } else if bytes_eq(name, "KEY_Q".as_bytes()) {
        Some(HidKey { usage_page: 0x7, usage: 0x0014 })
    } else if bytes_eq(name, "KEY_R".as_bytes()) {
        Some(HidKey { usage_page: 0x7, usage: 0x0015 })
    } else if bytes_eq(name, "KEY_S".as_bytes()) {
        Some(HidKey { usage_page: 0x7, usage: 0x0016 })
    } else if bytes_eq(name, "KEY_T".as_bytes()) {
        Some(HidKey { usage_page: 0x7, usage: 0x0017 })
    } else if bytes_eq(name, "KEY_U".as_bytes()) {
        Some(HidKey { usage_page: 0x7, usage: 0x0018 })
    } else if bytes_eq(name, "KEY_V".as_bytes()) {
        Some(HidKey { usage_page: 0x7, usage: 0x0019 })
    } else if bytes_eq(name, "KEY_W".as_bytes()) {
        Some(HidKey { usage_page: 0x7, usage: 0x001A })
    } else if bytes_eq(name, "KEY_X".as_bytes()) {
        Some(HidKey { usage_page: 0x7, usage: 0x001B })
    } else if bytes_eq(name, "KEY_Y".as_bytes()) {
        Some(HidKey { usage_page: 0x7, usage: 0x001C })
    } else if bytes_eq(name, "KEY_Z".as_bytes()) {
        Some(HidKey { usage_page: 0x7, usage: 0x001D })
    } else if bytes_eq(name, "KEY_1".as_bytes()) {
        Some(HidKey { usage_page: 0x7, usage: 0x001E })
    } else if bytes_eq(name, "KEY_2".as_bytes()) {
        Some(HidKey { usage_page: 0x7, usage: 0x001F })
    } else if bytes_eq(name, "KEY_3".as_bytes()) {
        Some(HidKey { usage_page: 0x7, usage: 0x0020 })
    } else if bytes_eq(name, "KEY_4".as_bytes()) {
        Some(HidKey { usage_page: 0x7, usage: 0x0021 })
    } else if bytes_eq(name, "KEY_5".as_bytes()) {
        Some(HidKey { usage_page: 0x7, usage: 0x0022 })
    } else if bytes_eq(name, "KEY_6".as_bytes()) {
        Some(HidKey { usage_page: 0x7, usage: 0x0023 })
    } else if bytes_eq(name, "KEY_7".as_bytes()) {
        Some(HidKey { usage_page: 0x7, usage: 0x0024 })
    } else if bytes_eq(name, "KEY_8".as_bytes()) {
        Some(HidKey { usage_page: 0x7, usage: 0x0025 })
    } else if bytes_eq(name, "KEY_9".as_bytes()) {
        Some(HidKey { usage_page: 0x7, usage: 0x0026 })
    } else if bytes_eq(name, "KEY_0".as_bytes()) {
        Some(HidKey { usage_page: 0x7, usage: 0x0027 })
    } else if bytes_eq(name, "ENTER".as_bytes()) {
        Some(HidKey { usage_page: 0x7, usage: 0x0028 })
    } else if bytes_eq(name, "ESCAPE".as_bytes()) {
        Some(HidKey { usage_page: 0x7, usage: 0x0029 })
    } else if bytes_eq(name, "BACKSPACE".as_bytes()) {
        Some(HidKey { usage_page: 0x7, usage: 0x002A })
    } else if bytes_eq(name, "TAB".as_bytes()) {
        Some(HidKey { usage_page: 0x7, usage: 0x002B })
    } else if bytes_eq(name, "SPACE".as_bytes()) {
        Some(HidKey { usage_page: 0x7, usage: 0x002C })
    } else if bytes_eq(name, "F1".as_bytes()) {
        Some(HidKey { usage_page: 0x7, usage: 0x003A })
    } else if bytes_eq(name, "F2".as_bytes()) {
        Some(HidKey { usage_page: 0x7, usage: 0x003B })
    } else if bytes_eq(name, "F3".as_bytes()) {
        Some(HidKey { usage_page: 0x7, usage: 0x003C })
    } else if bytes_eq(name, "F4".as_bytes()) {
        Some(HidKey { usage_page: 0x7, usage: 0x003D })
    } else if bytes_eq(name, "F5".as_bytes()) {
        Some(HidKey { usage_page: 0x7, usage: 0x003E })
    } else if bytes_eq(name, "F6".as_bytes()) {
        Some(HidKey { usage_page: 0x7, usage: 0x003F })
    } else if bytes_eq(name, "F7".as_bytes()) {
        Some(HidKey { usage_page: 0x7, usage: 0x0040 })
    } else if bytes_eq(name, "F8".as_bytes()) {
        Some(HidKey { usage_page: 0x7, usage: 0x0041 })
    } else if bytes_eq(name, "F9".as_bytes()) {
        Some(HidKey { usage_page: 0x7, usage: 0x0042 })
    } else if bytes_eq(name, "F10".as_bytes()) {
        Some(HidKey { usage_page: 0x7, usage: 0x0043 })
    } else if bytes_eq(name, "F11".as_bytes()) {
        Some(HidKey { usage_page: 0x7, usage: 0x0044 })
    } else if bytes_eq(name, "F12".as_bytes()) {
        Some(HidKey { usage_page: 0x7, usage: 0x0045 })
    } else if bytes_eq(name, "RIGHT_ARROW".as_bytes()) {
        Some(HidKey { usage_page: 0x7, usage: 0x004F })
    } else if bytes_eq(name, "LEFT_ARROW".as_bytes()) {
        Some(HidKey { usage_page: 0x7, usage: 0x0050 })
    } else if bytes_eq(name, "DOWN_ARROW".as_bytes()) {
        Some(HidKey { usage_page: 0x7, usage: 0x0051 })
    } else if bytes_eq(name, "UP_ARROW".as_bytes()) {
        Some(HidKey { usage_page: 0x7, usage: 0x0052 })
    } else if bytes_eq(name, "LEFT_CTRL".as_bytes()) {
        Some(HidKey { usage_page: 0x7, usage: 0x00E0 })
    } else if bytes_eq(name, "LEFT_SHIFT".as_bytes()) {
        Some(HidKey { usage_page: 0x7, usage: 0x00E1 })
    } else if bytes_eq(name, "LEFT_ALT".as_bytes()) {
        Some(HidKey { usage_page: 0x7, usage: 0x00E2 })
    } else if bytes_eq(name, "LEFT_GUI".as_bytes()) {
        Some(HidKey { usage_page: 0x7, usage: 0x00E3 })
    } else if bytes_eq(name, "RIGHT_CTRL".as_bytes()) {
        Some(HidKey { usage_page: 0x7, usage: 0x00E4 })
    } else if bytes_eq(name, "RIGHT_SHIFT".as_bytes()) {
        Some(HidKey { usage_page: 0x7, usage: 0x00E5 })
    } else if bytes_eq(name, "RIGHT_ALT".as_bytes()) {
        Some(HidKey { usage_page: 0x7, usage: 0x00E6 })
    } else if bytes_eq(name, "RIGHT_GUI".as_bytes()) {
        Some(HidKey { usage_page: 0x7, usage: 0x00E7 })
    } else if bytes_eq(name, "BRIGHTNESS_DOWN".as_bytes()) {
        Some(HidKey { usage_page: 0xC, usage: 0x006F })
    } else if bytes_eq(name, "BRIGHTNESS_UP".as_bytes()) {
        Some(HidKey { usage_page: 0xC, usage: 0x0070 })
    } else if bytes_eq(name, "MEDIA_NEXT".as_bytes()) {
        Some(HidKey { usage_page: 0xC, usage: 0x00B3 })
    } else if bytes_eq(name, "MEDIA_PREV".as_bytes()) {
        Some(HidKey { usage_page: 0xC, usage: 0x00B4 })
    } else if bytes_eq(name, "EJECT".as_bytes()) {
        Some(HidKey { usage_page: 0xC, usage: 0x00B8 })
    } else if bytes_eq(name, "MEDIA_PLAY_PAUSE".as_bytes()) {
        Some(HidKey { usage_page: 0xC, usage: 0x00CD })
    } else if bytes_eq(name, "MUTE".as_bytes()) {
        Some(HidKey { usage_page: 0xC, usage: 0x00E2 })
    } else if bytes_eq(name, "VOLUME_UP".as_bytes()) {
        Some(HidKey { usage_page: 0xC, usage: 0x00E9 })
    } else if bytes_eq(name, "VOLUME_DOWN".as_bytes()) {
        Some(HidKey { usage_page: 0xC, usage: 0x00EA })
    } else if bytes_eq(name, "FN_STATE".as_bytes()) {
        Some(HidKey { usage_page: 0xFF00, usage: 0x0003 })
    } else {
        None
    }
}

/// The keyboard usage a host virtual-key code corresponds to, or 0 when the
/// code is not translated.
pub open spec fn spec_vk_to_usage(vk: u32) -> u16 {
    if 0x41 <= vk && vk <= 0x5A {
        (vk - 0x41 + 0x04) as u16
    } else if vk == 0x30 {
        0x27
    } else if 0x31 <= vk && vk <= 0x39 {
        (vk - 0x31 + 0x1E) as u16
    } else if vk == 0x0D {
        0x28
    } else if vk == 0x1B {
        0x29
    } else if vk == 0x08 {
        0x2A
    } else if vk == 0x09 {
        0x2B
    } else if vk == 0x20 {
        0x2C
    } else if vk == 0x25 {
        0x50
    } else if vk == 0x26 {
        0x52
    } else if vk == 0x27 {
        0x4F
    } else if vk == 0x28 {
        0x51
    } else if vk == 0x2E {
        0x4C
    } else if 0x70 <= vk && vk <= 0x7B {
        (vk - 0x70 + 0x3A) as u16
    } else {
        0
    }
}

/// Translate a host virtual-key code into the keyboard usage it stands for;
/// 0 means the code takes no part in mapping.
pub fn vk_to_hid_usage(vk: u32) -> (u: u16)
    ensures
        u == spec_vk_to_usage(vk),
{
    if 0x41 <= vk && vk <= 0x5A {
        (vk - 0x41 + 0x04) as u16
    } else if vk == 0x30 {
        0x27
    } else if 0x31 <= vk && vk <= 0x39 {
        (vk - 0x31 + 0x1E) as u16
    } else if vk == 0x0D {
        0x28
    } else if vk == 0x1B {
        0x29
    } else if vk == 0x08 {
        0x2A
    } else if vk == 0x09 {
        0x2B
    } else if vk == 0x20 {
        0x2C
    } else if vk == 0x25 {
        0x50
    } else if vk == 0x26 {
        0x52
    } else if vk == 0x27 {
        0x4F
    } else if vk == 0x28 {
        0x51
    } else if vk == 0x2E {
        0x4C
    } else if 0x70 <= vk && vk <= 0x7B {
        (vk - 0x70 + 0x3A) as u16
    } else {
        0
    }
}

} // verus!
