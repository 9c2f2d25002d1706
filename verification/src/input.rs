//! Key names, scancodes and virtual keys, and the input events they turn into.
//!
//! Keys are addressed by PS/2 Set 1 scancodes, so a press means the same physical key under
//! every keyboard layout.

use vstd::prelude::*;

use crate::text::{ascii_lower_char, ascii_lowercase, ascii_uppercase, chars_of, lowercase_of, same_text};

pub mod layout;
pub mod ops;

verus! {

/// Input backends that can dispatch events.
#[derive(Debug, Clone, Copy, PartialEq, Eq, Structural)]
pub enum Backend {
    /// Raw keys are scancodes; a positive scroll length turns the wheel down.
    Enigo,
    /// Raw keys are Windows virtual keys; a positive scroll length turns the wheel up.
    InputSimulator,
}

/// Mouse buttons.
#[derive(Debug, Clone, Copy, PartialEq, Eq, Structural)]
pub enum Button {
    Left,
    Middle,
    Right,
    Back,
    Forward,
    ScrollUp,
    ScrollDown,
    ScrollLeft,
    ScrollRight,
}

/// What happens to a key or button.
#[derive(Debug, Clone, Copy, PartialEq, Eq, Structural)]
pub enum Direction {
    Press,
    Release,
    /// A press followed by a release.
    Click,
}

/// How the coordinates of a mouse move are meant.
#[derive(Debug, Clone, Copy, PartialEq, Eq, Structural)]
pub enum Coordinate {
    /// A position on the screen.
    Abs,
    /// A distance from the current position.
    Rel,
}

/// One step of an input sequence, carried out by the input backend.
#[derive(Debug)]
pub enum InputAction {
    /// Acts on a raw key code of the backend.
    Raw { code: u16, direction: Direction },
    /// Acts on a mouse button.
    MouseButton { button: Button, direction: Direction },
    /// Moves the cursor.
    MoveMouse { x: i32, y: i32, coordinate: Coordinate },
    /// Turns the vertical wheel by a signed length of the backend.
    Scroll { length: i32 },
    /// Types a text as Unicode events.
    Text { text: String },
    /// Pauses before the next step.
    Sleep { millis: u64 },
}

/// Scancode of the movement key for a lowercase direction name.
pub open spec fn direction_code(name: Seq<char>) -> Option<u16> {
    if name == "forward"@ || name == "up"@ || name == "w"@ {
        Some(0x11)
    } else if name == "left"@ || name == "a"@ {
        Some(0x1E)
    } else if name == "back"@ || name == "backward"@ || name == "down"@ || name == "s"@ {
        Some(0x1F)
    } else if name == "right"@ || name == "d"@ {
        Some(0x20)
    } else {
        None
    }
}

/// Maps a movement direction name, in any case, to a physical key scancode.
pub fn direction_scancode(direction: &str) -> (r: Option<u16>)
    ensures
        r == direction_code(lowercase_of(direction@)),
        vstd::utf8::is_ascii_chars(direction@) ==> r == direction_code(ascii_lowercase(direction@)),
{
    let lower: String = direction.to_lowercase();
    lowercase_direction_scancode(lower.as_str())
}

/// Maps a lowercase movement direction name to a physical key scancode.
pub fn lowercase_direction_scancode(name: &str) -> (r: Option<u16>)
    ensures
        r == direction_code(name@),
{
    if same_text(name, "forward") || same_text(name, "up") || same_text(name, "w") {
        Some(0x11)
    } else if same_text(name, "left") || same_text(name, "a") {
        Some(0x1E)
    } else if same_text(name, "back") || same_text(name, "backward") || same_text(name, "down")
        || same_text(name, "s") {
        Some(0x1F)
    } else if same_text(name, "right") || same_text(name, "d") {
        Some(0x20)
    } else {
        None
    }
}

/// Scancode of a key with a name of its own.
///
/// Pause and PrintScreen are extended sequences without a plain Set 1 scancode, so they have
/// no entry. The navigation keys share their scancodes with the numpad.
pub open spec fn named_key(name: Seq<char>) -> Option<u16> {
    if name == "space"@ {
        Some(0x39)
    } else if name == "enter"@ || name == "return"@ {
        Some(0x1C)
    } else if name == "escape"@ || name == "esc"@ {
        Some(0x01)
    } else if name == "tab"@ {
        Some(0x0F)
    } else if name == "backspace"@ {
        Some(0x0E)
    } else if name == "delete"@ || name == "del"@ {
        Some(0x53)
    } else if name == "insert"@ || name == "ins"@ {
        Some(0x52)
    } else if name == "home"@ {
        Some(0x47)
    } else if name == "end"@ {
        Some(0x4F)
    } else if name == "pageup"@ || name == "pgup"@ {
        Some(0x49)
    } else if name == "pagedown"@ || name == "pgdn"@ {
        Some(0x51)
    } else if name == "up"@ {
        Some(0x48)
    } else if name == "down"@ {
        Some(0x50)
    } else if name == "left"@ {
        Some(0x4B)
    } else if name == "right"@ {
        Some(0x4D)
    } else if name == "shift"@ {
        Some(0x2A)
    } else if name == "ctrl"@ || name == "control"@ {
        Some(0x1D)
    } else if name == "alt"@ {
        Some(0x38)
    } else if name == "capslock"@ || name == "caps"@ {
        Some(0x3A)
    } else if name == "scrolllock"@ {
        Some(0x46)
    } else if name == "numlock"@ {
        Some(0x45)
    } else if name == "minus"@ {
        Some(0x0C)
    } else if name == "equals"@ || name == "equal"@ {
        Some(0x0D)
    } else if name == "leftbracket"@ || name == "lbracket"@ {
        Some(0x1A)
    } else if name == "rightbracket"@ || name == "rbracket"@ {
        Some(0x1B)
    } else if name == "backslash"@ {
        Some(0x2B)
    } else if name == "semicolon"@ {
        Some(0x27)
    } else if name == "apostrophe"@ || name == "quote"@ {
        Some(0x28)
    } else if name == "backquote"@ || name == "grave"@ {
        Some(0x29)
    } else if name == "comma"@ {
        Some(0x33)
    } else if name == "period"@ || name == "dot"@ {
        Some(0x34)
    } else if name == "slash"@ {
        Some(0x35)
    } else {
        None
    }
}

/// Looks up a key with a name of its own.
fn named_key_scancode(name: &str) -> (r: Option<u16>)
    ensures
        r == named_key(name@),
{
    if same_text(name, "space") {
        Some(0x39)
    } else if same_text(name, "enter") || same_text(name, "return") {
        Some(0x1C)
    } else if same_text(name, "escape") || same_text(name, "esc") {
        Some(0x01)
    } else if same_text(name, "tab") {
        Some(0x0F)
    } else if same_text(name, "backspace") {
        Some(0x0E)
    } else if same_text(name, "delete") || same_text(name, "del") {
        Some(0x53)
    } else if same_text(name, "insert") || same_text(name, "ins") {
        Some(0x52)
    } else if same_text(name, "home") {
        Some(0x47)
    } else if same_text(name, "end") {
        Some(0x4F)
    } else if same_text(name, "pageup") || same_text(name, "pgup") {
        Some(0x49)
    } else if same_text(name, "pagedown") || same_text(name, "pgdn") {
        Some(0x51)
    } else if same_text(name, "up") {
        Some(0x48)
    } else if same_text(name, "down") {
        Some(0x50)
    } else if same_text(name, "left") {
        Some(0x4B)
    } else if same_text(name, "right") {
        Some(0x4D)
    } else if same_text(name, "shift") {
        Some(0x2A)
    } else if same_text(name, "ctrl") || same_text(name, "control") {
        Some(0x1D)
    } else if same_text(name, "alt") {
        Some(0x38)
    } else if same_text(name, "capslock") || same_text(name, "caps") {
        Some(0x3A)
    } else if same_text(name, "scrolllock") {
        Some(0x46)
    } else if same_text(name, "numlock") {
        Some(0x45)
    } else if same_text(name, "minus") {
        Some(0x0C)
    } else if same_text(name, "equals") || same_text(name, "equal") {
        Some(0x0D)
    } else if same_text(name, "leftbracket") || same_text(name, "lbracket") {
        Some(0x1A)
    } else if same_text(name, "rightbracket") || same_text(name, "rbracket") {
        Some(0x1B)
    } else if same_text(name, "backslash") {
        Some(0x2B)
    } else if same_text(name, "semicolon") {
        Some(0x27)
    } else if same_text(name, "apostrophe") || same_text(name, "quote") {
        Some(0x28)
    } else if same_text(name, "backquote") || same_text(name, "grave") {
        Some(0x29)
    } else if same_text(name, "comma") {
        Some(0x33)
    } else if same_text(name, "period") || same_text(name, "dot") {
        Some(0x34)
    } else if same_text(name, "slash") {
        Some(0x35)
    } else {
        None
    }
}

/// Scancode of the key that types a character on a US layout.
pub open spec fn char_code(ch: char) -> Option<u16> {
    match ch {
        'a' | 'A' => Some(0x1E),
        'b' | 'B' => Some(0x30),
        'c' | 'C' => Some(0x2E),
        'd' | 'D' => Some(0x20),
        'e' | 'E' => Some(0x12),
        'f' | 'F' => Some(0x21),
        'g' | 'G' => Some(0x22),
        'h' | 'H' => Some(0x23),
        'i' | 'I' => Some(0x17),
        'j' | 'J' => Some(0x24),
        'k' | 'K' => Some(0x25),
        'l' | 'L' => Some(0x26),
        'm' | 'M' => Some(0x32),
        'n' | 'N' => Some(0x31),
        'o' | 'O' => Some(0x18),
        'p' | 'P' => Some(0x19),
        'q' | 'Q' => Some(0x10),
        'r' | 'R' => Some(0x13),
        's' | 'S' => Some(0x1F),
        't' | 'T' => Some(0x14),
        'u' | 'U' => Some(0x16),
        'v' | 'V' => Some(0x2F),
        'w' | 'W' => Some(0x11),
        'x' | 'X' => Some(0x2D),
        'y' | 'Y' => Some(0x15),
        'z' | 'Z' => Some(0x2C),
        '1' => Some(0x02),
        '2' => Some(0x03),
        '3' => Some(0x04),
        '4' => Some(0x05),
        '5' => Some(0x06),
        '6' => Some(0x07),
        '7' => Some(0x08),
        '8' => Some(0x09),
        '9' => Some(0x0A),
        '0' => Some(0x0B),
        ' ' => Some(0x39),
        '-' => Some(0x0C),
        '=' => Some(0x0D),
        '[' => Some(0x1A),
        ']' => Some(0x1B),
        '\\' => Some(0x2B),
        ';' => Some(0x27),
        '\'' => Some(0x28),
        '`' => Some(0x29),
        ',' => Some(0x33),
        '.' => Some(0x34),
        '/' => Some(0x35),
        _ => None,
    }
}

/// Maps a single character to its physical key scancode.
pub fn char_scancode(ch: char) -> (r: Option<u16>)
    ensures
        r == char_code(ch),
        'A' <= ch <= 'Z' || '0' <= ch <= '9' ==> (r matches Some(code) && virtual_key(code) == Some(
            ch as u16,
        )),
        'a' <= ch <= 'z' ==> (r matches Some(code) && virtual_key(code) == Some(
            (ch as int - 32) as u16,
        )),
{
    match ch {
        'a' | 'A' => Some(0x1E),
        'b' | 'B' => Some(0x30),
        'c' | 'C' => Some(0x2E),
        'd' | 'D' => Some(0x20),
        'e' | 'E' => Some(0x12),
        'f' | 'F' => Some(0x21),
        'g' | 'G' => Some(0x22),
        'h' | 'H' => Some(0x23),
        'i' | 'I' => Some(0x17),
        'j' | 'J' => Some(0x24),
        'k' | 'K' => Some(0x25),
        'l' | 'L' => Some(0x26),
        'm' | 'M' => Some(0x32),
        'n' | 'N' => Some(0x31),
        'o' | 'O' => Some(0x18),
        'p' | 'P' => Some(0x19),
        'q' | 'Q' => Some(0x10),
        'r' | 'R' => Some(0x13),
        's' | 'S' => Some(0x1F),
        't' | 'T' => Some(0x14),
        'u' | 'U' => Some(0x16),
        'v' | 'V' => Some(0x2F),
        'w' | 'W' => Some(0x11),
        'x' | 'X' => Some(0x2D),
        'y' | 'Y' => Some(0x15),
        'z' | 'Z' => Some(0x2C),
        '1' => Some(0x02),
        '2' => Some(0x03),
        '3' => Some(0x04),
        '4' => Some(0x05),
        '5' => Some(0x06),
        '6' => Some(0x07),
        '7' => Some(0x08),
        '8' => Some(0x09),
        '9' => Some(0x0A),
        '0' => Some(0x0B),
        ' ' => Some(0x39),
        '-' => Some(0x0C),
        '=' => Some(0x0D),
        '[' => Some(0x1A),
        ']' => Some(0x1B),
        '\\' => Some(0x2B),
        ';' => Some(0x27),
        '\'' => Some(0x28),
        '`' => Some(0x29),
        ',' => Some(0x33),
        '.' => Some(0x34),
        '/' => Some(0x35),
        _ => None,
    }
}

/// Whether every character of `text` is a decimal digit.
pub open spec fn all_digits(text: Seq<char>) -> bool {
    forall|i: int| 0 <= i < text.len() ==> '0' <= #[trigger] text[i] && text[i] <= '9'
}

/// Value of a sequence of decimal digits.
pub open spec fn digits_value(text: Seq<char>) -> nat
    decreases text.len(),
{
    if text.len() == 0 {
        0
    } else {
        10 * digits_value(text.drop_last()) + (text.last() as int - '0' as int) as nat
    }
}

/// The number below 256 that `text` writes in decimal, with an optional plus sign.
pub open spec fn byte_numeral(text: Seq<char>) -> Option<nat> {
    let digits = if text.len() > 0 && text[0] == '+' {
        text.skip(1)
    } else {
        text
    };
    if digits.len() > 0 && all_digits(digits) && digits_value(digits) <= 255 {
        Some(digits_value(digits))
    } else {
        None
    }
}

/// A longer digit sequence has no smaller value.
proof fn lemma_digits_value_grows(text: Seq<char>, n: int)
    requires
        0 <= n <= text.len(),
        all_digits(text),
    ensures
        digits_value(text.take(n)) <= digits_value(text),
    decreases text.len(),
{
    if n < text.len() {
        assert(all_digits(text.drop_last())) by {
            assert forall|i: int| 0 <= i < text.drop_last().len() implies '0'
                <= #[trigger] text.drop_last()[i] && text.drop_last()[i] <= '9' by {
                assert(text.drop_last()[i] == text[i]);
            }
        }
        lemma_digits_value_grows(text.drop_last(), n);
        assert(text.drop_last().take(n) =~= text.take(n));
    } else {
        assert(text.take(n) =~= text);
    }
}

/// Reads a number below 256 from the characters of `text` after the first `start`.
fn parse_byte(text: &Vec<char>, start: usize) -> (r: Option<u8>)
    requires
        start <= text@.len(),
    ensures
        match r {
            Some(n) => byte_numeral(text@.skip(start as int)) == Some(n as nat),
            None => byte_numeral(text@.skip(start as int)) is None,
        },
{
    let ghost all = text@.skip(start as int);
    let first: usize = if start < text.len() && text[start] == '+' {
        start + 1
    } else {
        start
    };
    let ghost digits = text@.skip(first as int);
    proof {
        if first > start {
            assert(all.skip(1) =~= digits);
        }
    }
    if first == text.len() {
        return None;
    }
    let mut value: u32 = 0;
    let mut i: usize = first;
    assert(digits.take(0) =~= Seq::<char>::empty());
    while i < text.len()
        invariant
            first <= i <= text@.len(),
            digits == text@.skip(first as int),
            digits.len() > 0,
            digits == if all.len() > 0 && all[0] == '+' {
                all.skip(1)
            } else {
                all
            },
            all == text@.skip(start as int),
            all_digits(digits.take(i - first)),
            value == digits_value(digits.take(i - first)),
            value <= 255,
        decreases text@.len() - i,
    {
        let c: char = text[i];
        assert(digits[i - first] == c);
        if c < '0' || c > '9' {
            assert(!all_digits(digits));
            return None;
        }
        let ghost before = digits.take(i - first);
        let ghost after = digits.take(i + 1 - first);
        assert(after.drop_last() =~= before);
        assert(after.last() == c);
        value = value * 10 + (c as u32 - '0' as u32);
        assert(all_digits(after)) by {
            assert forall|j: int| 0 <= j < after.len() implies '0' <= #[trigger] after[j]
                && after[j] <= '9' by {
                if j < before.len() {
                    assert(after[j] == before[j]);
                }
            }
        }
        if value > 255 {
            proof {
                if all_digits(digits) {
                    lemma_digits_value_grows(digits, i + 1 - first);
                }
            }
            return None;
        }
        i = i + 1;
    }
    assert(digits.take(i - first) =~= digits);
    Some(value as u8)
}

/// Scancode of function key `n`.
///
/// F1 to F10 are consecutive; F11 and F12 sit in a block of their own.
pub open spec fn function_key_code(n: nat) -> Option<u16> {
    if 1 <= n <= 10 {
        Some((0x3A + n) as u16)
    } else if n == 11 {
        Some(0x57)
    } else if n == 12 {
        Some(0x58)
    } else {
        None
    }
}

/// Scancode of `key`, whose lowercase form is `lower`: a single character, a named key, or a
/// function key written as `f` and a number.
pub open spec fn key_code(key: Seq<char>, lower: Seq<char>) -> Option<u16> {
    if key.len() == 1 {
        char_code(key[0])
    } else if named_key(lower) is Some {
        named_key(lower)
    } else if lower.len() > 0 && lower[0] == 'f' && byte_numeral(lower.skip(1)) is Some {
        function_key_code(byte_numeral(lower.skip(1))->0)
    } else {
        None
    }
}

/// Maps a key name, in any case, to a physical key scancode (PS/2 Set 1).
///
/// Accepts a single character or a named key.
pub fn key_scancode(key: &str) -> (r: Option<u16>)
    ensures
        r == key_code(key@, lowercase_of(key@)),
        vstd::utf8::is_ascii_chars(key@) ==> r == key_code(key@, ascii_lowercase(key@)),
        key@.len() == 1 ==> r == char_code(key@[0]),
        key@.len() != 1 || vstd::utf8::is_ascii_chars(key@) ==> {
            &&& r == Some(0x45u16) <==> lowercase_of(key@) == "numlock"@
            &&& r == Some(0x46u16) <==> lowercase_of(key@) == "scrolllock"@
        },
{
    let lower: String = key.to_lowercase();
    proof {
        law_lock_scancodes_come_from_their_names_alone(key@, lower@);
    }
    key_scancode_with_lowercase(key, lower.as_str())
}

/// Maps a key name to a physical key scancode, given its lowercase form.
pub fn key_scancode_with_lowercase(key: &str, lower: &str) -> (r: Option<u16>)
    ensures
        r == key_code(key@, lower@),
{
    let chars: Vec<char> = chars_of(key);
    if chars.len() == 1 {
        return char_scancode(chars[0]);
    }
    match named_key_scancode(lower) {
        Some(code) => {
            return Some(code);
        },
        None => {},
    }
    let name: Vec<char> = chars_of(lower);
    if name.len() > 0 && name[0] == 'f' {
        match parse_byte(&name, 1) {
            Some(n) => {
                return if 1 <= n && n <= 10 {
                    Some((0x3A + n) as u16)
                } else if n == 11 {
                    Some(0x57)
                } else if n == 12 {
                    Some(0x58)
                } else {
                    None
                };
            },
            None => {},
        }
    }
    None
}

/// Windows virtual key of a PS/2 Set 1 scancode.
///
/// The navigation scancodes mean the navigation keys, not their numpad aliases.
pub open spec fn virtual_key(scancode: u16) -> Option<u16> {
    if 0x02 <= scancode <= 0x0A {
        // Digits 1 to 9.
        Some((scancode + 0x2F) as u16)
    } else if 0x3B <= scancode <= 0x44 {
        // F1 to F10.
        Some((scancode + 0x35) as u16)
    } else {
        match scancode {
            0x01 => Some(0x1B),  // Escape
            0x0B => Some(0x30),  // 0
            0x0C => Some(0xBD),  // -
            0x0D => Some(0xBB),  // =
            0x0E => Some(0x08),  // Backspace
            0x0F => Some(0x09),  // Tab
            0x10 => Some(0x51),  // Q
            0x11 => Some(0x57),  // W
            0x12 => Some(0x45),  // E
            0x13 => Some(0x52),  // R
            0x14 => Some(0x54),  // T
            0x15 => Some(0x59),  // Y
            0x16 => Some(0x55),  // U
            0x17 => Some(0x49),  // I
            0x18 => Some(0x4F),  // O
            0x19 => Some(0x50),  // P
            0x1A => Some(0xDB),  // [
            0x1B => Some(0xDD),  // ]
            0x1C => Some(0x0D),  // Enter
            0x1D => Some(0x11),  // Left Ctrl
            0x1E => Some(0x41),  // A
            0x1F => Some(0x53),  // S
            0x20 => Some(0x44),  // D
            0x21 => Some(0x46),  // F
            0x22 => Some(0x47),  // G
            0x23 => Some(0x48),  // H
            0x24 => Some(0x4A),  // J
            0x25 => Some(0x4B),  // K
            0x26 => Some(0x4C),  // L
            0x27 => Some(0xBA),  // ;
            0x28 => Some(0xDE),  // '
            0x29 => Some(0xC0),  // `
            0x2A => Some(0x10),  // Left Shift
            0x2B => Some(0xDC),  // \
            0x2C => Some(0x5A),  // Z
            0x2D => Some(0x58),  // X
            0x2E => Some(0x43),  // C
            0x2F => Some(0x56),  // V
            0x30 => Some(0x42),  // B
            0x31 => Some(0x4E),  // N
            0x32 => Some(0x4D),  // M
            0x33 => Some(0xBC),  // ,
            0x34 => Some(0xBE),  // .
            0x35 => Some(0xBF),  // /
            0x36 => Some(0x10),  // Right Shift
            0x38 => Some(0x12),  // Left Alt
            0x39 => Some(0x20),  // Space
            0x3A => Some(0x14),  // CapsLock
            0x45 => Some(0x90),  // NumLock
            0x46 => Some(0x91),  // ScrollLock
            0x47 => Some(0x24),  // Home (extended)
            0x48 => Some(0x26),  // Up (extended; NOT numpad 8 / VK_NUMPAD8 0x68)
            0x49 => Some(0x21),  // PageUp (extended)
            0x4B => Some(0x25),  // Left (extended)
            0x4D => Some(0x27),  // Right (extended)
            0x4F => Some(0x23),  // End (extended)
            0x50 => Some(0x28),  // Down (extended)
            0x51 => Some(0x22),  // PageDown (extended)
            0x52 => Some(0x2D),  // Insert (extended)
            0x53 => Some(0x2E),  // Delete (extended)
            0x57 => Some(0x7A),  // F11
            0x58 => Some(0x7B),  // F12
            _ => None,
        }
    }
}

/// Converts a PS/2 Set 1 scancode to its Windows virtual-key code.
pub fn scancode_to_vk(scancode: u16) -> (r: Option<u16>)
    ensures
        r == virtual_key(scancode),
{
    if 0x02 <= scancode && scancode <= 0x0A {
        Some(scancode + 0x2F)
    } else if 0x3B <= scancode && scancode <= 0x44 {
        Some(scancode + 0x35)
    } else {
        match scancode {
            0x01 => Some(0x1B),  // Escape
            0x0B => Some(0x30),  // 0
            0x0C => Some(0xBD),  // -
            0x0D => Some(0xBB),  // =
            0x0E => Some(0x08),  // Backspace
            0x0F => Some(0x09),  // Tab
            0x10 => Some(0x51),  // Q
            0x11 => Some(0x57),  // W
            0x12 => Some(0x45),  // E
            0x13 => Some(0x52),  // R
            0x14 => Some(0x54),  // T
            0x15 => Some(0x59),  // Y
            0x16 => Some(0x55),  // U
            0x17 => Some(0x49),  // I
            0x18 => Some(0x4F),  // O
            0x19 => Some(0x50),  // P
            0x1A => Some(0xDB),  // [
            0x1B => Some(0xDD),  // ]
            0x1C => Some(0x0D),  // Enter
            0x1D => Some(0x11),  // Left Ctrl
            0x1E => Some(0x41),  // A
            0x1F => Some(0x53),  // S
            0x20 => Some(0x44),  // D
            0x21 => Some(0x46),  // F
            0x22 => Some(0x47),  // G
            0x23 => Some(0x48),  // H
            0x24 => Some(0x4A),  // J
            0x25 => Some(0x4B),  // K
            0x26 => Some(0x4C),  // L
            0x27 => Some(0xBA),  // ;
            0x28 => Some(0xDE),  // '
            0x29 => Some(0xC0),  // `
            0x2A => Some(0x10),  // Left Shift
            0x2B => Some(0xDC),  // \
            0x2C => Some(0x5A),  // Z
            0x2D => Some(0x58),  // X
            0x2E => Some(0x43),  // C
            0x2F => Some(0x56),  // V
            0x30 => Some(0x42),  // B
            0x31 => Some(0x4E),  // N
            0x32 => Some(0x4D),  // M
            0x33 => Some(0xBC),  // ,
            0x34 => Some(0xBE),  // .
            0x35 => Some(0xBF),  // /
            0x36 => Some(0x10),  // Right Shift
            0x38 => Some(0x12),  // Left Alt
            0x39 => Some(0x20),  // Space
            0x3A => Some(0x14),  // CapsLock
            0x45 => Some(0x90),  // NumLock
            0x46 => Some(0x91),  // ScrollLock
            0x47 => Some(0x24),  // Home (extended)
            0x48 => Some(0x26),  // Up (extended; NOT numpad 8 / VK_NUMPAD8 0x68)
            0x49 => Some(0x21),  // PageUp (extended)
            0x4B => Some(0x25),  // Left (extended)
            0x4D => Some(0x27),  // Right (extended)
            0x4F => Some(0x23),  // End (extended)
            0x50 => Some(0x28),  // Down (extended)
            0x51 => Some(0x22),  // PageDown (extended)
            0x52 => Some(0x2D),  // Insert (extended)
            0x53 => Some(0x2E),  // Delete (extended)
            0x57 => Some(0x7A),  // F11
            0x58 => Some(0x7B),  // F12
            _ => None,
        }
    }
}

/// No scancode converts to a numpad virtual key, so the navigation scancodes never reach the
/// numpad keys that share them.
pub proof fn law_no_scancode_means_a_numpad_key(scancode: u16)
    ensures
        virtual_key(scancode) matches Some(vk) ==> !(0x60 <= vk <= 0x6F),
{
}

/// Every key that has a name has a virtual key, so a key name is accepted by both backends.
pub proof fn law_every_key_has_a_virtual_key(key: Seq<char>, lower: Seq<char>)
    ensures
        key_code(key, lower) matches Some(code) ==> virtual_key(code) is Some,
{
}

/// The Num Lock and Scroll Lock scancodes come from the names of these two keys alone: no other
/// name, no function key and no single character lands on them, and nothing lands on the
/// scancode that PrintScreen would share with the numpad.
pub proof fn law_lock_scancodes_come_from_their_names_alone(key: Seq<char>, lower: Seq<char>)
    ensures
        key.len() != 1 || lower.len() == 1 ==> {
            &&& key_code(key, lower) == Some(0x45u16) <==> lower == "numlock"@
            &&& key_code(key, lower) == Some(0x46u16) <==> lower == "scrolllock"@
        },
        key.len() == 1 ==> key_code(key, lower) != Some(0x45u16) && key_code(key, lower) != Some(
            0x46u16,
        ),
        key_code(key, lower) != Some(0x37u16),
{
    reveal_strlit("space");
    reveal_strlit("enter");
    reveal_strlit("return");
    reveal_strlit("escape");
    reveal_strlit("esc");
    reveal_strlit("tab");
    reveal_strlit("backspace");
    reveal_strlit("delete");
    reveal_strlit("del");
    reveal_strlit("insert");
    reveal_strlit("ins");
    reveal_strlit("home");
    reveal_strlit("end");
    reveal_strlit("pageup");
    reveal_strlit("pgup");
    reveal_strlit("pagedown");
    reveal_strlit("pgdn");
    reveal_strlit("up");
    reveal_strlit("down");
    reveal_strlit("left");
    reveal_strlit("right");
    reveal_strlit("shift");
    reveal_strlit("ctrl");
    reveal_strlit("control");
    reveal_strlit("alt");
    reveal_strlit("capslock");
    reveal_strlit("caps");
    reveal_strlit("scrolllock");
    reveal_strlit("numlock");
}

/// Every movement direction has a virtual key.
pub proof fn law_every_direction_has_a_virtual_key(name: Seq<char>)
    ensures
        direction_code(name) matches Some(code) ==> virtual_key(code) is Some,
{
}

/// Two scancodes with the same virtual key are the two Shift keys.
pub proof fn law_virtual_keys_are_distinct(a: u16, b: u16)
    requires
        virtual_key(a) is Some,
        virtual_key(a) == virtual_key(b),
    ensures
        a == b || virtual_key(a) == Some(0x10u16),
{
}

/// Key names are read alike in capital and small letters.
pub proof fn law_key_names_ignore_case(a: Seq<char>, b: Seq<char>)
    requires
        ascii_lowercase(a) == ascii_lowercase(b),
    ensures
        key_code(a, ascii_lowercase(a)) == key_code(b, ascii_lowercase(b)),
{
    assert(ascii_lowercase(a).len() == a.len());
    assert(ascii_lowercase(b).len() == b.len());
    if a.len() == 1 {
        assert(ascii_lowercase(a)[0] == ascii_lower_char(a[0]));
        assert(ascii_lowercase(b)[0] == ascii_lower_char(b[0]));
        lemma_letter_case(a[0]);
        lemma_letter_case(b[0]);
    }
}

/// A key means the same written in capital letters and in small ones.
pub proof fn law_capital_and_small_names_are_the_same_key(key: Seq<char>)
    ensures
        key_code(key, ascii_lowercase(key)) == key_code(
            ascii_uppercase(key),
            ascii_lowercase(ascii_uppercase(key)),
        ),
        key_code(key, ascii_lowercase(key)) == key_code(
            ascii_lowercase(key),
            ascii_lowercase(ascii_lowercase(key)),
        ),
        vstd::utf8::is_ascii_chars(key) ==> vstd::utf8::is_ascii_chars(ascii_uppercase(key))
            && vstd::utf8::is_ascii_chars(ascii_lowercase(key)),
{
    assert(ascii_lowercase(ascii_uppercase(key)) =~= ascii_lowercase(key));
    assert(ascii_lowercase(ascii_lowercase(key)) =~= ascii_lowercase(key));
    law_key_names_ignore_case(key, ascii_uppercase(key));
    law_key_names_ignore_case(key, ascii_lowercase(key));
}

/// A key of one character, ASCII or not, is the key that types the character, whatever its
/// lowercase form.
pub proof fn law_single_characters_are_their_own_keys(key: Seq<char>, lower: Seq<char>)
    requires
        key.len() == 1,
    ensures
        key_code(key, lower) == char_code(key[0]),
{
}

/// A capital letter and its small counterpart are typed by the same key.
proof fn lemma_letter_case(c: char)
    ensures
        char_code(c) == char_code(ascii_lower_char(c)),
{
}

} // verus!
