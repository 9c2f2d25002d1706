//! Key names, scancodes and virtual keys.

use autorpg_mcp::input::ops::{hold_scancode, scancode_supported, scroll_vertical, type_text};
use autorpg_mcp::input::{
    char_scancode, direction_scancode, key_scancode, scancode_to_vk, Backend, Direction, InputAction,
};

#[test]
fn direction_scancode_maps_wasd() {
    assert_eq!(direction_scancode("forward"), Some(0x11)); // W
    assert_eq!(direction_scancode("back"), Some(0x1F)); // S
    assert_eq!(direction_scancode("backward"), Some(0x1F));
    assert_eq!(direction_scancode("left"), Some(0x1E)); // A
    assert_eq!(direction_scancode("right"), Some(0x20)); // D
}

#[test]
fn direction_scancode_accepts_aliases_and_case() {
    assert_eq!(direction_scancode("W"), Some(0x11));
    assert_eq!(direction_scancode("Up"), Some(0x11));
    assert_eq!(direction_scancode("DOWN"), Some(0x1F));
    assert_eq!(direction_scancode("a"), Some(0x1E));
    assert_eq!(direction_scancode("d"), Some(0x20));
}

#[test]
fn direction_scancode_rejects_unknown() {
    assert_eq!(direction_scancode("diagonal"), None);
    assert_eq!(direction_scancode(""), None);
}

#[test]
fn named_keys_map_to_expected_scancodes() {
    assert_eq!(key_scancode("space"), Some(0x39));
    assert_eq!(key_scancode("enter"), Some(0x1C));
    assert_eq!(key_scancode("return"), Some(0x1C));
    assert_eq!(key_scancode("escape"), Some(0x01));
    assert_eq!(key_scancode("esc"), Some(0x01));
    assert_eq!(key_scancode("tab"), Some(0x0F));
    assert_eq!(key_scancode("backspace"), Some(0x0E));
    assert_eq!(key_scancode("shift"), Some(0x2A));
    assert_eq!(key_scancode("ctrl"), Some(0x1D));
    assert_eq!(key_scancode("alt"), Some(0x38));
    assert_eq!(key_scancode("capslock"), Some(0x3A));
    assert_eq!(key_scancode("scrolllock"), Some(0x46));
    assert_eq!(key_scancode("numlock"), Some(0x45));
}

#[test]
fn function_keys_use_their_real_scancodes() {
    // F1-F10 are sequential: 0x3B..=0x44.
    assert_eq!(key_scancode("f1"), Some(0x3B));
    assert_eq!(key_scancode("F5"), Some(0x3F));
    assert_eq!(key_scancode("f10"), Some(0x44));
    // F11/F12 live in the 0x57/0x58 block; 0x3A + 11/12 would be Pause
    // (0x45) and ScrollLock (0x46) instead.
    assert_eq!(key_scancode("f11"), Some(0x57));
    assert_eq!(key_scancode("F12"), Some(0x58));
    // Non-existent function keys must fail instead of wrapping around.
    assert_eq!(key_scancode("f0"), None);
    assert_eq!(key_scancode("f13"), None);
    assert_eq!(key_scancode("f99"), None);
}

#[test]
fn navigation_keys_do_not_collide_with_numpad() {
    // Set 1 scancodes of the extended navigation keys. They are shared with
    // numpad scancodes, but each must convert to a distinct navigation
    // virtual key, never a numpad virtual key.
    assert_eq!(key_scancode("up"), Some(0x48));
    assert_eq!(key_scancode("down"), Some(0x50));
    assert_eq!(key_scancode("left"), Some(0x4B));
    assert_eq!(key_scancode("right"), Some(0x4D));
    assert_eq!(key_scancode("delete"), Some(0x53));
    assert_eq!(key_scancode("del"), Some(0x53));
    assert_eq!(key_scancode("insert"), Some(0x52));
    assert_eq!(key_scancode("ins"), Some(0x52));
    assert_eq!(key_scancode("home"), Some(0x47));
    assert_eq!(key_scancode("end"), Some(0x4F));
    assert_eq!(key_scancode("pageup"), Some(0x49));
    assert_eq!(key_scancode("pagedown"), Some(0x51));

    // Numpad virtual keys are 0x60..0x69 (VK_NUMPAD0..VK_NUMPAD9); none of
    // the navigation scancodes may map into that range, which is what a
    // plain Set 1 -> numpad aliasing bug would produce.
    let navigation = [
        "up", "down", "left", "right", "delete", "insert", "home", "end", "pageup", "pagedown",
    ];
    for key in navigation {
        let vk = scancode_to_vk(key_scancode(key).expect("mapped")).expect("vk");
        assert!(
            !(0x60..=0x69).contains(&vk),
            "{key} must not map to a numpad virtual key (got 0x{vk:X})"
        );
    }
    assert_eq!(scancode_to_vk(0x48), Some(0x26)); // VK_UP, not VK_NUMPAD8 0x68
    assert_eq!(scancode_to_vk(0x50), Some(0x28)); // VK_DOWN, not VK_NUMPAD2 0x62
    assert_eq!(scancode_to_vk(0x4B), Some(0x25)); // VK_LEFT, not VK_NUMPAD4 0x64
    assert_eq!(scancode_to_vk(0x4D), Some(0x27)); // VK_RIGHT, not VK_NUMPAD6 0x66
    assert_eq!(scancode_to_vk(0x53), Some(0x2E)); // VK_DELETE, not VK_DECIMAL 0x6E
    assert_eq!(scancode_to_vk(0x52), Some(0x2D)); // VK_INSERT, not VK_NUMPAD0 0x60
}

#[test]
fn scancode_to_vk_matches_map_virtual_key_for_common_keys() {
    // Spot checks verified against MapVirtualKeyW(code, MAPVK_VSC_TO_VK).
    assert_eq!(scancode_to_vk(0x11), Some(0x57)); // W
    assert_eq!(scancode_to_vk(0x1E), Some(0x41)); // A
    assert_eq!(scancode_to_vk(0x1F), Some(0x53)); // S
    assert_eq!(scancode_to_vk(0x20), Some(0x44)); // D
    assert_eq!(scancode_to_vk(0x39), Some(0x20)); // Space
    assert_eq!(scancode_to_vk(0x1C), Some(0x0D)); // Enter
    assert_eq!(scancode_to_vk(0x01), Some(0x1B)); // Escape
    assert_eq!(scancode_to_vk(0x02), Some(0x31)); // 1
    assert_eq!(scancode_to_vk(0x0B), Some(0x30)); // 0
    assert_eq!(scancode_to_vk(0x3B), Some(0x70)); // F1
    assert_eq!(scancode_to_vk(0x44), Some(0x79)); // F10
    assert_eq!(scancode_to_vk(0x57), Some(0x7A)); // F11
    assert_eq!(scancode_to_vk(0x58), Some(0x7B)); // F12
    assert_eq!(scancode_to_vk(0x45), Some(0x90)); // NumLock
    assert_eq!(scancode_to_vk(0x2A), Some(0x10)); // Shift
    assert_eq!(scancode_to_vk(0x1D), Some(0x11)); // Ctrl
    assert_eq!(scancode_to_vk(0x38), Some(0x12)); // Alt
}

#[test]
fn scancode_to_vk_rejects_unmapped_scancodes() {
    assert_eq!(scancode_to_vk(0x00), None);
    assert_eq!(scancode_to_vk(0x37), None); // PrintScreen (E0 37, no plain scancode)
    assert_eq!(scancode_to_vk(0xFF), None);
}

#[test]
fn single_characters_map_to_scancodes() {
    assert_eq!(key_scancode("e"), Some(0x12));
    assert_eq!(key_scancode("E"), Some(0x12));
    assert_eq!(key_scancode("q"), Some(0x10));
    assert_eq!(key_scancode("z"), Some(0x2C));
    assert_eq!(key_scancode("1"), Some(0x02));
    assert_eq!(key_scancode("0"), Some(0x0B));
    assert_eq!(key_scancode(" "), Some(0x39));
    assert_eq!(key_scancode("-"), Some(0x0C));
    assert_eq!(key_scancode("="), Some(0x0D));
    assert_eq!(key_scancode("["), Some(0x1A));
    assert_eq!(key_scancode("]"), Some(0x1B));
    assert_eq!(key_scancode("\\"), Some(0x2B));
    assert_eq!(key_scancode(";"), Some(0x27));
    assert_eq!(key_scancode("'"), Some(0x28));
    assert_eq!(key_scancode("`"), Some(0x29));
    assert_eq!(key_scancode(","), Some(0x33));
    assert_eq!(key_scancode("."), Some(0x34));
    assert_eq!(key_scancode("/"), Some(0x35));
}

#[test]
fn key_scancode_rejects_unknown_names_and_multichar_strings() {
    assert_eq!(key_scancode("ab"), None);
    assert_eq!(key_scancode("hello"), None);
    assert_eq!(key_scancode(""), None);
    // Non-US-ASCII characters have no physical key on a standard layout.
    assert_eq!(key_scancode("é"), None);
    assert_eq!(key_scancode("printscreen"), None);
    assert_eq!(key_scancode("pause"), None);
}

/// The steps of a plan, rendered for comparison.
fn shown(actions: &[InputAction]) -> Vec<String> {
    actions.iter().map(|action| format!("{action:?}")).collect()
}

#[test]
fn a_scancode_is_held_as_it_is_by_enigo() {
    let steps = hold_scancode(Backend::Enigo, 0x37, 120).unwrap();
    assert_eq!(
        shown(&steps),
        shown(&[
            InputAction::Raw { code: 0x37, direction: Direction::Press },
            InputAction::Sleep { millis: 120 },
            InputAction::Raw { code: 0x37, direction: Direction::Release },
        ])
    );
}

#[test]
fn a_scancode_is_held_as_a_virtual_key_by_input_simulator() {
    let steps = hold_scancode(Backend::InputSimulator, 0x11, 7).unwrap();
    assert_eq!(
        shown(&steps),
        shown(&[
            InputAction::Raw { code: 0x57, direction: Direction::Press },
            InputAction::Sleep { millis: 7 },
            InputAction::Raw { code: 0x57, direction: Direction::Release },
        ])
    );
    let error = hold_scancode(Backend::InputSimulator, 0x37, 7).unwrap_err();
    assert_eq!(error, "scancode 0x37 has no virtual-key equivalent");
}

#[test]
fn only_input_simulator_refuses_scancodes() {
    for scancode in 0..=u16::MAX {
        assert!(scancode_supported(Backend::Enigo, scancode));
        assert_eq!(
            scancode_supported(Backend::InputSimulator, scancode),
            scancode_to_vk(scancode).is_some()
        );
    }
}

#[test]
fn backends_turn_the_wheel_in_opposite_directions() {
    assert_eq!(
        format!("{:?}", scroll_vertical(Backend::Enigo, 3)),
        "Scroll { length: -3 }"
    );
    assert_eq!(
        format!("{:?}", scroll_vertical(Backend::InputSimulator, 3)),
        "Scroll { length: 3 }"
    );
}

#[test]
fn text_is_typed_as_given() {
    assert_eq!(format!("{:?}", type_text("Hi é")), "Text { text: \"Hi é\" }");
}

#[test]
fn every_key_and_direction_has_a_virtual_key_of_its_own() {
    let keys = ["space", "f12", "z", "0", "up", "W", "tab", "-"];
    let mut seen: Vec<u16> = Vec::new();
    for key in keys {
        let vk = scancode_to_vk(key_scancode(key).unwrap()).unwrap();
        assert!(!seen.contains(&vk), "{key} collides");
        seen.push(vk);
    }
    for direction in ["forward", "back", "left", "right"] {
        assert!(scancode_to_vk(direction_scancode(direction).unwrap()).is_some());
    }
}

#[test]
fn key_names_ignore_case() {
    assert_eq!(key_scancode("SPACE"), key_scancode("space"));
    assert_eq!(key_scancode("PageUp"), key_scancode("pageup"));
    // Names are lowered with the full Unicode mapping: the Kelvin sign becomes a k.
    assert_eq!(key_scancode("bac\u{212A}space"), Some(0x0E));
}

#[test]
fn single_characters_are_their_own_keys() {
    for (key, code) in [("F", Some(0x21)), ("7", Some(0x08)), ("\u{212A}", None), ("\u{130}", None)] {
        assert_eq!(key_scancode(key), code);
        assert_eq!(char_scancode(key.chars().next().unwrap()), code);
    }
}

#[test]
fn capital_and_small_names_are_the_same_key() {
    for key in ["Space", "f11", "q", "PageDown", "nothing", "-"] {
        assert_eq!(key_scancode(key), key_scancode(&key.to_ascii_uppercase()));
        assert_eq!(key_scancode(key), key_scancode(&key.to_ascii_lowercase()));
    }
}

#[test]
fn lock_scancodes_come_from_their_names_alone() {
    assert_eq!(key_scancode("NumLock"), Some(0x45));
    assert_eq!(key_scancode("ScrollLock"), Some(0x46));
    for other in ["pause", "printscreen", "f10", "f11", "f12", "f13", "capslock", "n", "7"] {
        let code = key_scancode(other);
        assert!(![Some(0x45), Some(0x46), Some(0x37)].contains(&code), "{other}");
    }
}

#[test]
fn no_scancode_means_a_numpad_key() {
    for scancode in 0..=u16::MAX {
        if let Some(vk) = scancode_to_vk(scancode) {
            assert!(!(0x60..=0x6F).contains(&vk), "0x{scancode:X}");
        }
    }
}
