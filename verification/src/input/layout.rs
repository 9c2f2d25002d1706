//! Where the keys stand on the keyboard and which virtual keys they reach.

use vstd::prelude::*;

use crate::input::{
    all_digits, byte_numeral, char_code, digits_value, direction_code, function_key_code, key_code, named_key,
    virtual_key,
};
use crate::text::{ascii_lower_char, ascii_lowercase, decimal, in_base, numeral};

verus! {

/// A letter or digit key reaches the virtual key of that very character: the code of the digit,
/// or of the capital letter, in either case. No other character reaches it.
pub proof fn law_letters_and_digits_reach_their_own_virtual_keys(c: char, d: char)
    requires
        'A' <= c <= 'Z' || '0' <= c <= '9',
    ensures
        char_code(c) matches Some(scancode) && virtual_key(scancode) == Some(c as u16),
        ascii_lower_char(d) == ascii_lower_char(c) <==> (char_code(d) matches Some(scancode)
            && virtual_key(scancode) == Some(c as u16)),
{
}

/// Two characters share a key only as the capital and the small form of one letter.
pub proof fn law_different_characters_are_different_keys(c: char, d: char)
    ensures
        char_code(c) is Some && char_code(c) == char_code(d) ==> ascii_lower_char(c)
            == ascii_lower_char(d),
        ascii_lower_char(c) == ascii_lower_char(d) ==> char_code(c) == char_code(d),
{
}

/// The keys of a row have consecutive scancodes, from left to right.
pub proof fn law_rows_run_from_left_to_right(i: int)
    ensures
        0 <= i < 12 ==> char_code("1234567890-="@[i]) == Some((0x02 + i) as u16),
        0 <= i < 12 ==> char_code("qwertyuiop[]"@[i]) == Some((0x10 + i) as u16),
        0 <= i < 12 ==> char_code("asdfghjkl;'`"@[i]) == Some((0x1E + i) as u16),
        0 <= i < 11 ==> char_code("\\zxcvbnm,./"@[i]) == Some((0x2B + i) as u16),
{
    reveal_strlit("1234567890-=");
    reveal_strlit("qwertyuiop[]");
    reveal_strlit("asdfghjkl;'`");
    reveal_strlit("\\zxcvbnm,./");
}

/// Only the characters of the four rows, in either case, and the space have a key.
pub proof fn law_only_the_rows_and_the_space_have_keys(c: char)
    ensures
        char_code(c) is Some <==> {
            ||| c == ' '
            ||| "1234567890-="@.contains(ascii_lower_char(c))
            ||| "qwertyuiop[]"@.contains(ascii_lower_char(c))
            ||| "asdfghjkl;'`"@.contains(ascii_lower_char(c))
            ||| "\\zxcvbnm,./"@.contains(ascii_lower_char(c))
        },
{
    reveal_strlit("1234567890-=");
    reveal_strlit("qwertyuiop[]");
    reveal_strlit("asdfghjkl;'`");
    reveal_strlit("\\zxcvbnm,./");
    let lower = ascii_lower_char(c);
    match char_code(lower) {
        Some(code) => {
            if 0x02 <= code <= 0x0D {
                assert("1234567890-="@[code - 0x02] == lower);
            } else if 0x10 <= code <= 0x1B {
                assert("qwertyuiop[]"@[code - 0x10] == lower);
            } else if 0x1E <= code <= 0x29 {
                assert("asdfghjkl;'`"@[code - 0x1E] == lower);
            } else if 0x2B <= code <= 0x35 {
                assert("\\zxcvbnm,./"@[code - 0x2B] == lower);
            }
        },
        None => {
            assert forall|i: int| 0 <= i < 12 implies "1234567890-="@[i] != lower
                && "qwertyuiop[]"@[i] != lower && "asdfghjkl;'`"@[i] != lower by {
                law_rows_run_from_left_to_right(i);
            }
            assert forall|i: int| 0 <= i < 11 implies "\\zxcvbnm,./"@[i] != lower by {
                law_rows_run_from_left_to_right(i);
            }
        },
    }
}

/// The punctuation keys reach the two runs of virtual keys that are set aside for them.
pub proof fn law_punctuation_reaches_its_virtual_keys(i: int)
    ensures
        0 <= i < 7 ==> (char_code(";=,-./`"@[i]) matches Some(scancode) && virtual_key(scancode)
            == Some((0xBA + i) as u16)),
        0 <= i < 4 ==> (char_code("[\\]'"@[i]) matches Some(scancode) && virtual_key(scancode)
            == Some((0xDB + i) as u16)),
{
    reveal_strlit(";=,-./`");
    reveal_strlit("[\\]'");
}

/// A function key reaches the virtual key that is its number of places into the run of function
/// keys; there are twelve of them.
pub proof fn law_function_keys_are_numbered(n: nat)
    ensures
        1 <= n <= 12 ==> (function_key_code(n) matches Some(scancode) && virtual_key(scancode)
            == Some((0x6F + n) as u16)),
        n == 0 || n > 12 ==> function_key_code(n) is None,
{
}

/// Digits of a numeral that is one digit longer.
proof fn lemma_digits_push(text: Seq<char>, c: char)
    requires
        all_digits(text),
        '0' <= c <= '9',
    ensures
        all_digits(text.push(c)),
        digits_value(text.push(c)) == 10 * digits_value(text) + (c as int - '0' as int),
{
    assert(text.push(c).drop_last() =~= text);
}

/// A number written in decimal reads back as the number, has no leading zero and holds nothing
/// but digits.
pub proof fn law_decimal_reads_back(n: nat)
    ensures
        all_digits(decimal(n as int)),
        decimal(n as int).len() > 0,
        digits_value(decimal(n as int)) == n,
        n > 0 ==> decimal(n as int)[0] != '0',
        n == 0 ==> decimal(n as int) == seq!['0'],
    decreases n,
{
    assert(decimal(n as int) == in_base(n, 10));
    if n < 10 {
        let text = in_base(n, 10);
        assert(text =~= Seq::<char>::empty().push(numeral(n)));
        assert(digits_value(Seq::<char>::empty()) == 0);
        lemma_digits_push(Seq::<char>::empty(), numeral(n));
    } else {
        law_decimal_reads_back(n / 10);
        assert(decimal((n / 10) as int) == in_base(n / 10, 10));
        lemma_digits_push(in_base(n / 10, 10), numeral(n % 10));
    }
}

/// Writes out the key names, so that no two of them are taken for the same.
proof fn lemma_key_names()
    ensures
        named_key("space"@) == Some(0x39u16),
        named_key("enter"@) == Some(0x1Cu16),
        named_key("return"@) == Some(0x1Cu16),
        named_key("escape"@) == Some(0x01u16),
        named_key("esc"@) == Some(0x01u16),
        named_key("tab"@) == Some(0x0Fu16),
        named_key("backspace"@) == Some(0x0Eu16),
        named_key("delete"@) == Some(0x53u16),
        named_key("del"@) == Some(0x53u16),
        named_key("insert"@) == Some(0x52u16),
        named_key("ins"@) == Some(0x52u16),
        named_key("home"@) == Some(0x47u16),
        named_key("end"@) == Some(0x4Fu16),
        named_key("pageup"@) == Some(0x49u16),
        named_key("pgup"@) == Some(0x49u16),
        named_key("pagedown"@) == Some(0x51u16),
        named_key("pgdn"@) == Some(0x51u16),
        named_key("up"@) == Some(0x48u16),
        named_key("down"@) == Some(0x50u16),
        named_key("left"@) == Some(0x4Bu16),
        named_key("right"@) == Some(0x4Du16),
        named_key("shift"@) == Some(0x2Au16),
        named_key("ctrl"@) == Some(0x1Du16),
        named_key("control"@) == Some(0x1Du16),
        named_key("alt"@) == Some(0x38u16),
        named_key("capslock"@) == Some(0x3Au16),
        named_key("caps"@) == Some(0x3Au16),
        named_key("scrolllock"@) == Some(0x46u16),
        named_key("numlock"@) == Some(0x45u16),
        named_key("minus"@) == Some(0x0Cu16),
        named_key("equals"@) == Some(0x0Du16),
        named_key("equal"@) == Some(0x0Du16),
        named_key("leftbracket"@) == Some(0x1Au16),
        named_key("lbracket"@) == Some(0x1Au16),
        named_key("rightbracket"@) == Some(0x1Bu16),
        named_key("rbracket"@) == Some(0x1Bu16),
        named_key("backslash"@) == Some(0x2Bu16),
        named_key("semicolon"@) == Some(0x27u16),
        named_key("apostrophe"@) == Some(0x28u16),
        named_key("quote"@) == Some(0x28u16),
        named_key("backquote"@) == Some(0x29u16),
        named_key("grave"@) == Some(0x29u16),
        named_key("comma"@) == Some(0x33u16),
        named_key("period"@) == Some(0x34u16),
        named_key("dot"@) == Some(0x34u16),
        named_key("slash"@) == Some(0x35u16),
{
    reveal_strlit("space");
    assert("space"@.len() == 5 && "space"@[0] == 's' && "space"@[1] == 'p');
    reveal_strlit("enter");
    assert("enter"@.len() == 5 && "enter"@[0] == 'e' && "enter"@[1] == 'n');
    reveal_strlit("return");
    assert("return"@.len() == 6 && "return"@[0] == 'r' && "return"@[1] == 'e');
    reveal_strlit("escape");
    assert("escape"@.len() == 6 && "escape"@[0] == 'e' && "escape"@[1] == 's');
    reveal_strlit("esc");
    assert("esc"@.len() == 3 && "esc"@[0] == 'e' && "esc"@[1] == 's');
    reveal_strlit("tab");
    assert("tab"@.len() == 3 && "tab"@[0] == 't' && "tab"@[1] == 'a');
    reveal_strlit("backspace");
    assert("backspace"@.len() == 9 && "backspace"@[0] == 'b' && "backspace"@[4] == 's' && "backspace"@[5] == 'p');
    reveal_strlit("delete");
    assert("delete"@.len() == 6 && "delete"@[0] == 'd' && "delete"@[1] == 'e');
    reveal_strlit("del");
    assert("del"@.len() == 3 && "del"@[0] == 'd' && "del"@[1] == 'e');
    reveal_strlit("insert");
    assert("insert"@.len() == 6 && "insert"@[0] == 'i' && "insert"@[1] == 'n');
    reveal_strlit("ins");
    assert("ins"@.len() == 3 && "ins"@[0] == 'i' && "ins"@[1] == 'n');
    reveal_strlit("home");
    assert("home"@.len() == 4 && "home"@[0] == 'h' && "home"@[1] == 'o');
    reveal_strlit("end");
    assert("end"@.len() == 3 && "end"@[0] == 'e' && "end"@[1] == 'n');
    reveal_strlit("pageup");
    assert("pageup"@.len() == 6 && "pageup"@[0] == 'p' && "pageup"@[1] == 'a');
    reveal_strlit("pgup");
    assert("pgup"@.len() == 4 && "pgup"@[0] == 'p' && "pgup"@[1] == 'g' && "pgup"@[2] == 'u');
    reveal_strlit("pagedown");
    assert("pagedown"@.len() == 8 && "pagedown"@[0] == 'p' && "pagedown"@[1] == 'a');
    reveal_strlit("pgdn");
    assert("pgdn"@.len() == 4 && "pgdn"@[0] == 'p' && "pgdn"@[1] == 'g' && "pgdn"@[2] == 'd');
    reveal_strlit("up");
    assert("up"@.len() == 2 && "up"@[0] == 'u' && "up"@[1] == 'p');
    reveal_strlit("down");
    assert("down"@.len() == 4 && "down"@[0] == 'd' && "down"@[1] == 'o');
    reveal_strlit("left");
    assert("left"@.len() == 4 && "left"@[0] == 'l' && "left"@[1] == 'e');
    reveal_strlit("right");
    assert("right"@.len() == 5 && "right"@[0] == 'r' && "right"@[1] == 'i');
    reveal_strlit("shift");
    assert("shift"@.len() == 5 && "shift"@[0] == 's' && "shift"@[1] == 'h');
    reveal_strlit("ctrl");
    assert("ctrl"@.len() == 4 && "ctrl"@[0] == 'c' && "ctrl"@[1] == 't');
    reveal_strlit("control");
    assert("control"@.len() == 7 && "control"@[0] == 'c' && "control"@[1] == 'o');
    reveal_strlit("alt");
    assert("alt"@.len() == 3 && "alt"@[0] == 'a' && "alt"@[1] == 'l');
    reveal_strlit("capslock");
    assert("capslock"@.len() == 8 && "capslock"@[0] == 'c' && "capslock"@[1] == 'a');
    reveal_strlit("caps");
    assert("caps"@.len() == 4 && "caps"@[0] == 'c' && "caps"@[1] == 'a');
    reveal_strlit("scrolllock");
    assert("scrolllock"@.len() == 10 && "scrolllock"@[0] == 's' && "scrolllock"@[1] == 'c');
    reveal_strlit("numlock");
    assert("numlock"@.len() == 7 && "numlock"@[0] == 'n' && "numlock"@[1] == 'u');
    reveal_strlit("minus");
    assert("minus"@.len() == 5 && "minus"@[0] == 'm' && "minus"@[1] == 'i');
    reveal_strlit("equals");
    assert("equals"@.len() == 6 && "equals"@[0] == 'e' && "equals"@[1] == 'q');
    reveal_strlit("equal");
    assert("equal"@.len() == 5 && "equal"@[0] == 'e' && "equal"@[1] == 'q');
    reveal_strlit("leftbracket");
    assert("leftbracket"@.len() == 11 && "leftbracket"@[0] == 'l' && "leftbracket"@[1] == 'e');
    reveal_strlit("lbracket");
    assert("lbracket"@.len() == 8 && "lbracket"@[0] == 'l' && "lbracket"@[1] == 'b');
    reveal_strlit("rightbracket");
    assert("rightbracket"@.len() == 12 && "rightbracket"@[0] == 'r' && "rightbracket"@[1] == 'i');
    reveal_strlit("rbracket");
    assert("rbracket"@.len() == 8 && "rbracket"@[0] == 'r' && "rbracket"@[1] == 'b');
    reveal_strlit("backslash");
    assert("backslash"@.len() == 9 && "backslash"@[0] == 'b' && "backslash"@[4] == 's' && "backslash"@[5] == 'l');
    reveal_strlit("semicolon");
    assert("semicolon"@.len() == 9 && "semicolon"@[0] == 's' && "semicolon"@[1] == 'e');
    reveal_strlit("apostrophe");
    assert("apostrophe"@.len() == 10 && "apostrophe"@[0] == 'a' && "apostrophe"@[1] == 'p');
    reveal_strlit("quote");
    assert("quote"@.len() == 5 && "quote"@[0] == 'q' && "quote"@[1] == 'u');
    reveal_strlit("backquote");
    assert("backquote"@.len() == 9 && "backquote"@[0] == 'b' && "backquote"@[4] == 'q' && "backquote"@[5] == 'u');
    reveal_strlit("grave");
    assert("grave"@.len() == 5 && "grave"@[0] == 'g' && "grave"@[1] == 'r');
    reveal_strlit("comma");
    assert("comma"@.len() == 5 && "comma"@[0] == 'c' && "comma"@[1] == 'o');
    reveal_strlit("period");
    assert("period"@.len() == 6 && "period"@[0] == 'p' && "period"@[1] == 'e');
    reveal_strlit("dot");
    assert("dot"@.len() == 3 && "dot"@[0] == 'd' && "dot"@[1] == 'o');
    reveal_strlit("slash");
    assert("slash"@.len() == 5 && "slash"@[0] == 's' && "slash"@[1] == 'l');
}

/// A key named after the character it types is that character's key, under each of its names.
pub proof fn law_named_characters_are_their_keys()
    ensures
        named_key("space"@) == char_code(' '),
        named_key("minus"@) == char_code('-'),
        named_key("equals"@) == char_code('='),
        named_key("equal"@) == char_code('='),
        named_key("leftbracket"@) == char_code('['),
        named_key("lbracket"@) == char_code('['),
        named_key("rightbracket"@) == char_code(']'),
        named_key("rbracket"@) == char_code(']'),
        named_key("backslash"@) == char_code('\\'),
        named_key("semicolon"@) == char_code(';'),
        named_key("apostrophe"@) == char_code('\''),
        named_key("quote"@) == char_code('\''),
        named_key("backquote"@) == char_code('`'),
        named_key("grave"@) == char_code('`'),
        named_key("comma"@) == char_code(','),
        named_key("period"@) == char_code('.'),
        named_key("dot"@) == char_code('.'),
        named_key("slash"@) == char_code('/'),
{
    lemma_key_names();
}

/// The control keys reach the virtual keys that are their ASCII control codes, the navigation
/// keys the run set aside for them, and the modifiers and locks theirs.
pub proof fn law_named_keys_reach_their_virtual_keys()
    ensures
        virtual_key(named_key("backspace"@)->0) == Some('\x08' as u16),
        virtual_key(named_key("tab"@)->0) == Some('\t' as u16),
        virtual_key(named_key("enter"@)->0) == Some('\r' as u16),
        virtual_key(named_key("return"@)->0) == Some('\r' as u16),
        virtual_key(named_key("escape"@)->0) == Some('\x1B' as u16),
        virtual_key(named_key("esc"@)->0) == Some('\x1B' as u16),
        virtual_key(named_key("space"@)->0) == Some(' ' as u16),
        virtual_key(named_key("pageup"@)->0) == Some(0x21u16),
        virtual_key(named_key("pgup"@)->0) == Some(0x21u16),
        virtual_key(named_key("pagedown"@)->0) == Some(0x22u16),
        virtual_key(named_key("pgdn"@)->0) == Some(0x22u16),
        virtual_key(named_key("end"@)->0) == Some(0x23u16),
        virtual_key(named_key("home"@)->0) == Some(0x24u16),
        virtual_key(named_key("left"@)->0) == Some(0x25u16),
        virtual_key(named_key("up"@)->0) == Some(0x26u16),
        virtual_key(named_key("right"@)->0) == Some(0x27u16),
        virtual_key(named_key("down"@)->0) == Some(0x28u16),
        virtual_key(named_key("insert"@)->0) == Some(0x2Du16),
        virtual_key(named_key("ins"@)->0) == Some(0x2Du16),
        virtual_key(named_key("delete"@)->0) == Some(0x2Eu16),
        virtual_key(named_key("del"@)->0) == Some(0x2Eu16),
        virtual_key(named_key("shift"@)->0) == Some(0x10u16),
        virtual_key(named_key("ctrl"@)->0) == Some(0x11u16),
        virtual_key(named_key("control"@)->0) == Some(0x11u16),
        virtual_key(named_key("alt"@)->0) == Some(0x12u16),
        virtual_key(named_key("capslock"@)->0) == Some(0x14u16),
        virtual_key(named_key("caps"@)->0) == Some(0x14u16),
        virtual_key(named_key("numlock"@)->0) == Some(0x90u16),
        virtual_key(named_key("scrolllock"@)->0) == Some(0x91u16),
{
    lemma_key_names();
}

/// The named keys stand next to the keys of the rows, in the order of the keyboard: each one's
/// scancode follows its left neighbour's. The navigation keys keep the order of the numpad
/// whose scancodes they share.
pub proof fn law_named_keys_stand_beside_their_neighbours()
    ensures
        named_key("escape"@)->0 + 1 == char_code('1')->0,
        named_key("backspace"@)->0 == char_code('=')->0 + 1,
        named_key("tab"@)->0 == named_key("backspace"@)->0 + 1,
        named_key("tab"@)->0 + 1 == char_code('q')->0,
        named_key("enter"@)->0 == char_code(']')->0 + 1,
        named_key("ctrl"@)->0 == named_key("enter"@)->0 + 1,
        named_key("ctrl"@)->0 + 1 == char_code('a')->0,
        named_key("shift"@)->0 == char_code('`')->0 + 1,
        named_key("shift"@)->0 + 1 == char_code('\\')->0,
        named_key("alt"@)->0 + 1 == char_code(' ')->0,
        named_key("capslock"@)->0 == char_code(' ')->0 + 1,
        function_key_code(1)->0 == named_key("capslock"@)->0 + 1,
        named_key("numlock"@)->0 == function_key_code(10)->0 + 1,
        named_key("scrolllock"@)->0 == named_key("numlock"@)->0 + 1,
        named_key("home"@)->0 == named_key("scrolllock"@)->0 + 1,
        named_key("up"@)->0 == named_key("home"@)->0 + 1,
        named_key("pageup"@)->0 == named_key("up"@)->0 + 1,
        named_key("left"@)->0 == named_key("pageup"@)->0 + 2,
        named_key("right"@)->0 == named_key("left"@)->0 + 2,
        named_key("end"@)->0 == named_key("right"@)->0 + 2,
        named_key("down"@)->0 == named_key("end"@)->0 + 1,
        named_key("pagedown"@)->0 == named_key("down"@)->0 + 1,
        named_key("insert"@)->0 == named_key("pagedown"@)->0 + 1,
        named_key("delete"@)->0 == named_key("insert"@)->0 + 1,
        function_key_code(12)->0 == function_key_code(11)->0 + 1,
{
    lemma_key_names();
}

/// A movement direction is the key of its letter: W, A, S or D. Each direction answers to its
/// own names and to no others.
pub proof fn law_directions_are_the_wasd_keys(name: Seq<char>)
    ensures
        direction_code(name) is Some && direction_code(name) == char_code('w') <==> name
            == "forward"@ || name == "up"@ || name == "w"@,
        direction_code(name) is Some && direction_code(name) == char_code('a') <==> name
            == "left"@ || name == "a"@,
        direction_code(name) is Some && direction_code(name) == char_code('s') <==> name
            == "back"@ || name == "backward"@ || name == "down"@ || name == "s"@,
        direction_code(name) is Some && direction_code(name) == char_code('d') <==> name
            == "right"@ || name == "d"@,
        direction_code(name) matches Some(code) ==> virtual_key(code) == Some('W' as u16)
            || virtual_key(code) == Some('A' as u16) || virtual_key(code) == Some('S' as u16)
            || virtual_key(code) == Some('D' as u16),
{
    reveal_strlit("forward");
    assert("forward"@.len() == 7 && "forward"@[0] == 'f' && "forward"@[1] == 'o');
    reveal_strlit("up");
    assert("up"@.len() == 2 && "up"@[0] == 'u' && "up"@[1] == 'p');
    reveal_strlit("w");
    assert("w"@.len() == 1 && "w"@[0] == 'w');
    reveal_strlit("left");
    assert("left"@.len() == 4 && "left"@[0] == 'l' && "left"@[1] == 'e');
    reveal_strlit("a");
    assert("a"@.len() == 1 && "a"@[0] == 'a');
    reveal_strlit("back");
    assert("back"@.len() == 4 && "back"@[0] == 'b' && "back"@[1] == 'a');
    reveal_strlit("backward");
    assert("backward"@.len() == 8 && "backward"@[0] == 'b' && "backward"@[1] == 'a');
    reveal_strlit("down");
    assert("down"@.len() == 4 && "down"@[0] == 'd' && "down"@[1] == 'o');
    reveal_strlit("s");
    assert("s"@.len() == 1 && "s"@[0] == 's');
    reveal_strlit("right");
    assert("right"@.len() == 5 && "right"@[0] == 'r' && "right"@[1] == 'i');
    reveal_strlit("d");
    assert("d"@.len() == 1 && "d"@[0] == 'd');
}

/// `f`, in either case, and the number of a function key is that function key: the virtual key
/// that many places into the run set aside for them. There are twelve, and any other number is no
/// key.
pub proof fn law_function_keys_are_written_with_their_number(n: nat, f: char)
    requires
        f == 'f' || f == 'F',
    ensures
        ({
            let name = seq![f] + decimal(n as int);
            let code = key_code(name, ascii_lowercase(name));
            &&& 1 <= n <= 12 <==> code is Some
            &&& 1 <= n <= 12 ==> virtual_key(code->0) == Some((0x6F + n) as u16)
        }),
{
    let name = seq![f] + decimal(n as int);
    let lower = ascii_lowercase(name);
    law_decimal_reads_back(n);
    let digits = decimal(n as int);
    assert(lower.skip(1) =~= digits) by {
        assert forall|i: int| 0 <= i < digits.len() implies lower[i + 1] == digits[i] by {
            assert('0' <= digits[i] && digits[i] <= '9');
        }
    }
    assert(lower[0] == 'f');
    assert(digits[0] != '+');
    assert(named_key(lower) is None) by {
        assert('0' <= lower[1] && lower[1] <= '9') by {
            assert(lower[1] == digits[0]);
        }
        reveal_strlit("space");
        reveal_strlit("enter");
        reveal_strlit("return");
        reveal_strlit("escape");
        reveal_strlit("esc");
        reveal_strlit("tab");
        reveal_strlit("backspace");
        reveal_strlit("delete");
        reveal_strlit("del");
        reveal_strlit("insert");
        reveal_strlit("ins");
        reveal_strlit("home");
        reveal_strlit("end");
        reveal_strlit("pageup");
        reveal_strlit("pgup");
        reveal_strlit("pagedown");
        reveal_strlit("pgdn");
        reveal_strlit("up");
        reveal_strlit("down");
        reveal_strlit("left");
        reveal_strlit("right");
        reveal_strlit("shift");
        reveal_strlit("ctrl");
        reveal_strlit("control");
        reveal_strlit("alt");
        reveal_strlit("capslock");
        reveal_strlit("caps");
        reveal_strlit("scrolllock");
        reveal_strlit("numlock");
        reveal_strlit("minus");
        reveal_strlit("equals");
        reveal_strlit("equal");
        reveal_strlit("leftbracket");
        reveal_strlit("lbracket");
        reveal_strlit("rightbracket");
        reveal_strlit("rbracket");
        reveal_strlit("backslash");
        reveal_strlit("semicolon");
        reveal_strlit("apostrophe");
        reveal_strlit("quote");
        reveal_strlit("backquote");
        reveal_strlit("grave");
        reveal_strlit("comma");
        reveal_strlit("period");
        reveal_strlit("dot");
        reveal_strlit("slash");
    }
}

/// A leading zero does not change the value of a numeral.
proof fn lemma_leading_zero(text: Seq<char>)
    requires
        all_digits(text),
    ensures
        all_digits(seq!['0'] + text),
        digits_value(seq!['0'] + text) == digits_value(text),
    decreases text.len(),
{
    let padded = seq!['0'] + text;
    assert forall|i: int| 0 <= i < padded.len() implies '0' <= #[trigger] padded[i] && padded[i]
        <= '9' by {
        if i > 0 {
            assert(padded[i] == text[i - 1]);
        }
    }
    if text.len() == 0 {
        assert(padded.drop_last() =~= Seq::<char>::empty());
        assert(digits_value(Seq::<char>::empty()) == 0);
    } else {
        assert(padded.drop_last() =~= seq!['0'] + text.drop_last());
        assert(padded.last() == text.last());
        assert(all_digits(text.drop_last())) by {
            assert forall|i: int| 0 <= i < text.drop_last().len() implies '0'
                <= #[trigger] text.drop_last()[i] && text.drop_last()[i] <= '9' by {
                assert(text.drop_last()[i] == text[i]);
            }
        }
        lemma_leading_zero(text.drop_last());
    }
}

/// A number below 256 is read from its decimal numeral, with or without a plus sign or a leading
/// zero, and a larger one is not read at all. Neither is a text without digits.
pub proof fn law_numbers_below_256_are_read(n: nat)
    ensures
        byte_numeral(decimal(n as int)) == if n <= 255 {
            Some(n)
        } else {
            None
        },
        byte_numeral(seq!['+'] + decimal(n as int)) == byte_numeral(decimal(n as int)),
        byte_numeral(seq!['0'] + decimal(n as int)) == byte_numeral(decimal(n as int)),
        byte_numeral(Seq::empty()) is None,
        byte_numeral(seq!['+']) is None,
{
    let digits = decimal(n as int);
    law_decimal_reads_back(n);
    assert('0' <= digits[0] && digits[0] <= '9');
    assert((seq!['+'] + digits).skip(1) =~= digits);
    assert(seq!['+'].skip(1) =~= Seq::<char>::empty());
    lemma_leading_zero(digits);
}

} // verus!
