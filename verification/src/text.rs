//! Text building blocks: comparison, numerals, substitution and search.
//!
//! A string is modelled by its sequence of characters.

use vstd::prelude::*;

verus! {

/// Appends a character: `String::push` extends the text by exactly that character.
pub assume_specification[ std::string::String::push ](s: &mut String, c: char)
    ensures
        final(s)@ == old(s)@.push(c),
;

/// What `str::to_lowercase` returns: the Unicode lowercase form of a text.
pub uninterp spec fn lowercase_of(text: Seq<char>) -> Seq<char>;

/// `str::to_lowercase` maps a text to its Unicode lowercase form. On a text of ASCII characters
/// that form replaces each letter `A` to `Z` by its small counterpart and keeps the rest.
pub assume_specification[ str::to_lowercase ](s: &str) -> (r: String)
    ensures
        r@ == lowercase_of(s@),
        vstd::utf8::is_ascii_chars(s@) ==> r@ == ascii_lowercase(s@),
;

/// What the `{:?}` rendering of a text is: quoted, with special characters escaped.
pub uninterp spec fn debug_of(text: Seq<char>) -> Seq<char>;

/// Renders a text with `format!("{:?}")`.
#[verifier::external_body]
pub(crate) fn debug_text(s: &str) -> (r: String)
    ensures
        r@ == debug_of(s@),
{
    format!("{:?}", s)
}

/// The small counterpart of an ASCII capital; any other character itself.
pub open spec fn ascii_lower_char(c: char) -> char {
    if 'A' <= c && c <= 'Z' {
        (c as int + 32) as char
    } else {
        c
    }
}

/// Every ASCII capital of `text` replaced by its small counterpart.
pub open spec fn ascii_lowercase(text: Seq<char>) -> Seq<char> {
    text.map_values(|c: char| ascii_lower_char(c))
}

/// The capital counterpart of a small ASCII letter; any other character itself.
pub open spec fn ascii_upper_char(c: char) -> char {
    if 'a' <= c && c <= 'z' {
        (c as int - 32) as char
    } else {
        c
    }
}

/// Every small ASCII letter of `text` replaced by its capital counterpart.
pub open spec fn ascii_uppercase(text: Seq<char>) -> Seq<char> {
    text.map_values(|c: char| ascii_upper_char(c))
}

/// The characters of `s`.
pub fn chars_of(s: &str) -> (r: Vec<char>)
    ensures
        r@ == s@,
{
    let mut out: Vec<char> = Vec::new();
    for c in it: s.chars()
        invariant
            it.seq() == s@,
            out@ == s@.take(it.index() as int),
    {
        out.push(c);
        assert(s@.take(it.index() as int + 1) =~= s@.take(it.index() as int).push(c));
    }
    assert(out@ =~= s@);
    out
}

/// Whether two texts consist of the same characters.
pub fn same_text(a: &str, b: &str) -> (r: bool)
    ensures
        r == (a@ == b@),
{
    let x: Vec<char> = chars_of(a);
    let y: Vec<char> = chars_of(b);
    same_chars(&x, &y)
}

/// Whether a text is empty.
pub fn is_empty(text: &str) -> (r: bool)
    ensures
        r == (text@.len() == 0),
{
    proof {
        reveal_strlit("");
        assert(text@.len() == 0 ==> text@ =~= ""@);
    }
    same_text(text, "")
}

/// Whether two character sequences are equal.
fn same_chars(a: &Vec<char>, b: &Vec<char>) -> (r: bool)
    ensures
        r == (a@ == b@),
{
    if a.len() != b.len() {
        return false;
    }
    let mut i: usize = 0;
    while i < a.len()
        invariant
            a@.len() == b@.len(),
            i <= a@.len(),
            forall|j: int| 0 <= j < i ==> a@[j] == b@[j],
        decreases a@.len() - i,
    {
        if a[i] != b[i] {
            return false;
        }
        i = i + 1;
    }
    assert(a@ =~= b@);
    true
}

/// The numeral for `digit`, below sixteen, with capital letters above nine.
pub open spec fn numeral(digit: nat) -> char {
    if digit < 10 {
        (48 + digit) as char
    } else {
        (55 + digit) as char
    }
}

/// `n` written in positional notation of the given base, without leading zeros.
pub open spec fn in_base(n: nat, base: nat) -> Seq<char>
    decreases n,
{
    if n < base || base < 2 {
        seq![numeral(n)]
    } else {
        proof {
            assert(n / base < n) by (nonlinear_arith)
                requires
                    n >= base,
                    base >= 2,
            ;
        }
        in_base(n / base, base).push(numeral(n % base))
    }
}

/// `n` written in decimal, with a minus sign when negative.
pub open spec fn decimal(n: int) -> Seq<char> {
    if n < 0 {
        seq!['-'] + in_base((-n) as nat, 10)
    } else {
        in_base(n as nat, 10)
    }
}

/// The numeral for `digit`.
fn numeral_char(digit: u64) -> (r: char)
    requires
        digit < 16,
    ensures
        r == numeral(digit as nat),
{
    if digit < 10 {
        (48 + digit as u8) as char
    } else {
        (55 + digit as u8) as char
    }
}

/// Appends `n` in positional notation of the given base.
fn push_in_base(out: &mut String, n: u64, base: u64)
    requires
        2 <= base <= 16,
    ensures
        final(out)@ == old(out)@ + in_base(n as nat, base as nat),
    decreases n,
{
    if n < base {
        out.push(numeral_char(n));
        assert(out@ =~= old(out)@ + in_base(n as nat, base as nat));
    } else {
        assert(n / base < n) by (nonlinear_arith)
            requires
                n >= base,
                base >= 2,
        ;
        push_in_base(out, n / base, base);
        out.push(numeral_char(n % base));
        assert(out@ =~= old(out)@ + in_base(n as nat, base as nat));
    }
}

/// Appends `n` in decimal.
pub fn push_decimal(out: &mut String, n: i64)
    ensures
        final(out)@ == old(out)@ + decimal(n as int),
{
    if n < 0 {
        out.push('-');
        assert(out@ =~= old(out)@ + seq!['-']);
        push_in_base(out, (-(n as i128)) as u64, 10);
        assert(out@ =~= old(out)@ + decimal(n as int));
    } else {
        push_in_base(out, n as u64, 10);
    }
}

/// Appends an unsigned `n` in decimal.
pub fn push_unsigned(out: &mut String, n: u64)
    ensures
        final(out)@ == old(out)@ + decimal(n as int),
{
    push_in_base(out, n, 10);
}

/// Appends `n` in capital hexadecimal.
pub fn push_hex(out: &mut String, n: u64)
    ensures
        final(out)@ == old(out)@ + in_base(n as nat, 16),
{
    push_in_base(out, n, 16);
}

/// Whether `pattern` stands in `text` at position `i`.
pub open spec fn occurs_at(text: Seq<char>, pattern: Seq<char>, i: int) -> bool {
    0 <= i && i + pattern.len() <= text.len() && text.subrange(i, i + pattern.len()) == pattern
}

/// Whether `pattern` stands anywhere in `text`.
pub open spec fn contains_text(text: Seq<char>, pattern: Seq<char>) -> bool {
    exists|i: int| occurs_at(text, pattern, i)
}

/// Whether `pattern` stands in `text` at position `i`.
fn matches_at(text: &Vec<char>, pattern: &Vec<char>, i: usize) -> (r: bool)
    requires
        i <= text@.len(),
    ensures
        r == occurs_at(text@, pattern@, i as int),
{
    let size: usize = text.len();
    if pattern.len() > size - i {
        return false;
    }
    let mut j: usize = 0;
    while j < pattern.len()
        invariant
            size == text@.len(),
            i + pattern@.len() <= size,
            j <= pattern@.len(),
            forall|k: int| 0 <= k < j ==> text@[i + k] == pattern@[k],
        decreases pattern@.len() - j,
    {
        if text[i + j] != pattern[j] {
            assert(text@.subrange(i as int, i + pattern@.len())[j as int] != pattern@[j as int]);
            return false;
        }
        j = j + 1;
    }
    assert(text@.subrange(i as int, i + pattern@.len()) =~= pattern@);
    true
}

/// Whether `pattern` stands anywhere in `text`.
pub fn text_contains(text: &str, pattern: &str) -> (r: bool)
    ensures
        r == contains_text(text@, pattern@),
{
    let hay: Vec<char> = chars_of(text);
    let needle: Vec<char> = chars_of(pattern);
    let mut i: usize = 0;
    loop
        invariant
            hay@ == text@,
            needle@ == pattern@,
            i <= hay@.len(),
            forall|k: int| 0 <= k < i ==> !occurs_at(text@, pattern@, k),
        decreases hay@.len() - i,
    {
        if matches_at(&hay, &needle, i) {
            return true;
        }
        if i == hay.len() {
            return false;
        }
        i = i + 1;
    }
}

/// `text` with every occurrence of `pattern`, taken from the left and without overlaps,
/// replaced by `with`.
pub open spec fn replaced(text: Seq<char>, pattern: Seq<char>, with: Seq<char>) -> Seq<char>
    decreases text.len(),
{
    if text.len() == 0 || pattern.len() == 0 {
        text
    } else if occurs_at(text, pattern, 0) {
        with + replaced(text.skip(pattern.len() as int), pattern, with)
    } else {
        seq![text[0]] + replaced(text.skip(1), pattern, with)
    }
}

/// A text without an occurrence of the pattern is kept as it is.
pub proof fn law_replacing_nothing_keeps_the_text(
    text: Seq<char>,
    pattern: Seq<char>,
    with: Seq<char>,
)
    requires
        pattern.len() > 0,
        !contains_text(text, pattern),
    ensures
        replaced(text, pattern, with) == text,
    decreases text.len(),
{
    if text.len() > 0 {
        let rest = text.skip(1);
        assert(!occurs_at(text, pattern, 0));
        assert forall|i: int| !occurs_at(rest, pattern, i) by {
            if occurs_at(rest, pattern, i) {
                assert(text.subrange(i + 1, i + 1 + pattern.len()) =~= rest.subrange(
                    i,
                    i + pattern.len(),
                ));
                assert(occurs_at(text, pattern, i + 1));
            }
        }
        law_replacing_nothing_keeps_the_text(rest, pattern, with);
        assert(seq![text[0]] + rest =~= text);
    }
}

/// The first occurrence of the pattern is replaced, what stands before it is kept, and what
/// stands behind it is treated the same way.
pub proof fn law_replacing_fills_in(
    before: Seq<char>,
    pattern: Seq<char>,
    after: Seq<char>,
    with: Seq<char>,
)
    requires
        pattern.len() > 0,
        forall|i: int|
            0 <= i < before.len() ==> !#[trigger] occurs_at(before + pattern + after, pattern, i),
    ensures
        replaced(before + pattern + after, pattern, with) == before + with + replaced(
            after,
            pattern,
            with,
        ),
    decreases before.len(),
{
    let text = before + pattern + after;
    if before.len() == 0 {
        assert(text.subrange(0, pattern.len() as int) =~= pattern);
        assert(text.skip(pattern.len() as int) =~= after);
        assert(before + with + replaced(after, pattern, with) =~= with + replaced(
            after,
            pattern,
            with,
        ));
    } else {
        let rest = before.skip(1) + pattern + after;
        assert(text.skip(1) =~= rest);
        assert(!occurs_at(text, pattern, 0));
        assert forall|i: int| 0 <= i < before.skip(1).len() implies !#[trigger] occurs_at(
            rest,
            pattern,
            i,
        ) by {
            if occurs_at(rest, pattern, i) {
                assert(text.subrange(i + 1, i + 1 + pattern.len()) =~= rest.subrange(
                    i,
                    i + pattern.len(),
                ));
                assert(occurs_at(text, pattern, i + 1));
            }
        }
        law_replacing_fills_in(before.skip(1), pattern, after, with);
        assert(seq![text[0]] + (before.skip(1) + with + replaced(after, pattern, with)) =~= before
            + with + replaced(after, pattern, with));
    }
}

/// Replaces every occurrence of `pattern` in `text` by `with`.
pub fn replace_all(text: &str, pattern: &str, with: &str) -> (r: String)
    requires
        pattern@.len() > 0,
    ensures
        r@ == replaced(text@, pattern@, with@),
{
    let source: Vec<char> = chars_of(text);
    let needle: Vec<char> = chars_of(pattern);
    let mut out: String = String::new();
    let mut i: usize = 0;
    assert(source@.skip(0) =~= source@);
    assert(out@ + replaced(source@, needle@, with@) =~= replaced(source@, needle@, with@));
    while i < source.len()
        invariant
            source@ == text@,
            needle@ == pattern@,
            needle@.len() > 0,
            i <= source@.len(),
            out@ + replaced(source@.skip(i as int), needle@, with@) == replaced(
                text@,
                pattern@,
                with@,
            ),
        decreases source@.len() - i,
    {
        let ghost rest = source@.skip(i as int);
        let ghost before = out@;
        if matches_at(&source, &needle, i) {
            out.append(with);
            proof {
                let n = needle@.len() as int;
                assert(rest.subrange(0, n) =~= source@.subrange(i as int, i + n));
                assert(rest.skip(n) =~= source@.skip(i + n));
                assert(before + (with@ + replaced(rest.skip(n), needle@, with@)) =~= out@
                    + replaced(rest.skip(n), needle@, with@));
            }
            i = i + needle.len();
        } else {
            out.push(source[i]);
            proof {
                let n = needle@.len() as int;
                if occurs_at(rest, needle@, 0) {
                    assert(rest.subrange(0, n) =~= source@.subrange(i as int, i + n));
                }
                assert(rest.skip(1) =~= source@.skip(i + 1));
                assert(before + (seq![rest[0]] + replaced(rest.skip(1), needle@, with@)) =~= out@
                    + replaced(rest.skip(1), needle@, with@));
            }
            i = i + 1;
        }
    }
    assert(source@.skip(i as int) =~= Seq::<char>::empty());
    assert(out@ + Seq::<char>::empty() =~= out@);
    out
}

/// Whether `c` has the Unicode `White_Space` property.
pub open spec fn is_space(c: char) -> bool {
    let n = c as int;
    ||| 0x09 <= n <= 0x0D
    ||| n == 0x20
    ||| n == 0x85
    ||| n == 0xA0
    ||| n == 0x1680
    ||| 0x2000 <= n <= 0x200A
    ||| n == 0x2028
    ||| n == 0x2029
    ||| n == 0x202F
    ||| n == 0x205F
    ||| n == 0x3000
}

/// `text` without its leading white space.
pub open spec fn without_leading_space(text: Seq<char>) -> Seq<char>
    decreases text.len(),
{
    if text.len() > 0 && is_space(text[0]) {
        without_leading_space(text.skip(1))
    } else {
        text
    }
}

/// `text` without its trailing white space.
pub open spec fn without_trailing_space(text: Seq<char>) -> Seq<char>
    decreases text.len(),
{
    if text.len() > 0 && is_space(text.last()) {
        without_trailing_space(text.drop_last())
    } else {
        text
    }
}

/// `text` without leading and trailing white space.
pub open spec fn trimmed(text: Seq<char>) -> Seq<char> {
    without_trailing_space(without_leading_space(text))
}

/// Whether `c` is white space.
fn white_space(c: char) -> (r: bool)
    ensures
        r == is_space(c),
{
    let n: u32 = c as u32;
    (0x09 <= n && n <= 0x0D) || n == 0x20 || n == 0x85 || n == 0xA0 || n == 0x1680 || (0x2000 <= n
        && n <= 0x200A) || n == 0x2028 || n == 0x2029 || n == 0x202F || n == 0x205F || n == 0x3000
}

/// Removes leading and trailing white space.
pub fn trim_text(text: &str) -> (r: String)
    ensures
        r@ == trimmed(text@),
{
    let source: Vec<char> = chars_of(text);
    let mut start: usize = 0;
    assert(source@.skip(0) =~= source@);
    while start < source.len() && white_space(source[start])
        invariant
            source@ == text@,
            start <= source@.len(),
            without_leading_space(source@.skip(start as int)) == without_leading_space(text@),
        decreases source@.len() - start,
    {
        assert(source@.skip(start as int).skip(1) =~= source@.skip(start + 1));
        start = start + 1;
    }
    let ghost body = source@.skip(start as int);
    let mut end: usize = source.len();
    assert(source@.subrange(start as int, end as int) =~= body);
    while end > start && white_space(source[end - 1])
        invariant
            start <= end <= source@.len(),
            without_trailing_space(source@.subrange(start as int, end as int))
                == without_trailing_space(body),
        decreases end - start,
    {
        assert(source@.subrange(start as int, end as int).drop_last() =~= source@.subrange(
            start as int,
            end - 1,
        ));
        end = end - 1;
    }
    let mut out: String = String::new();
    let mut i: usize = start;
    assert(out@ =~= source@.subrange(start as int, i as int));
    while i < end
        invariant
            start <= i <= end <= source@.len(),
            out@ == source@.subrange(start as int, i as int),
        decreases end - i,
    {
        out.push(source[i]);
        i = i + 1;
        assert(out@ =~= source@.subrange(start as int, i as int));
    }
    out
}

/// The texts of `parts` one after another, with `separator` between neighbours.
pub open spec fn joined(parts: Seq<Seq<char>>, separator: Seq<char>) -> Seq<char>
    decreases parts.len(),
{
    if parts.len() == 0 {
        Seq::empty()
    } else if parts.len() == 1 {
        parts[0]
    } else {
        joined(parts.drop_last(), separator) + separator + parts.last()
    }
}

/// The texts of a list of strings.
pub open spec fn texts_of(parts: Seq<String>) -> Seq<Seq<char>> {
    parts.map_values(|part: String| part@)
}

/// Joins the texts of `parts` with `separator` between neighbours.
pub fn join_texts(parts: &Vec<String>, separator: &str) -> (r: String)
    ensures
        r@ == joined(texts_of(parts@), separator@),
{
    let mut out: String = String::new();
    let mut i: usize = 0;
    while i < parts.len()
        invariant
            i <= parts@.len(),
            out@ == joined(texts_of(parts@.take(i as int)), separator@),
        decreases parts@.len() - i,
    {
        if i > 0 {
            out.append(separator);
        }
        out.append(parts[i].as_str());
        proof {
            let next = texts_of(parts@.take(i + 1));
            assert(next.drop_last() =~= texts_of(parts@.take(i as int)));
            assert(next.last() == parts@[i as int]@);
            assert(out@ =~= joined(next, separator@));
        }
        i = i + 1;
    }
    assert(parts@.take(i as int) =~= parts@);
    out
}

/// What is left without leading white space is the end of the text, behind white space alone.
proof fn lemma_leading_space(text: Seq<char>)
    ensures
        ({
            let rest = without_leading_space(text);
            let cut = text.len() - rest.len();
            &&& 0 <= cut <= text.len()
            &&& rest == text.skip(cut)
            &&& forall|i: int| 0 <= i < cut ==> is_space(#[trigger] text[i])
            &&& rest.len() > 0 ==> !is_space(rest[0])
        }),
    decreases text.len(),
{
    if text.len() > 0 && is_space(text[0]) {
        let shorter = text.skip(1);
        lemma_leading_space(shorter);
        let rest = without_leading_space(text);
        let cut = text.len() - rest.len();
        assert(shorter.skip(cut - 1) =~= text.skip(cut));
        assert forall|i: int| 0 <= i < cut implies is_space(#[trigger] text[i]) by {
            if i > 0 {
                assert(shorter[i - 1] == text[i]);
            }
        }
    } else {
        assert(text.skip(0) =~= text);
    }
}

/// What is left without trailing white space is the beginning of the text, before white space
/// alone.
proof fn lemma_trailing_space(text: Seq<char>)
    ensures
        ({
            let rest = without_trailing_space(text);
            &&& rest.len() <= text.len()
            &&& rest == text.take(rest.len() as int)
            &&& forall|i: int| rest.len() <= i < text.len() ==> is_space(#[trigger] text[i])
            &&& rest.len() > 0 ==> !is_space(rest.last())
        }),
    decreases text.len(),
{
    if text.len() > 0 && is_space(text.last()) {
        let shorter = text.drop_last();
        lemma_trailing_space(shorter);
        let rest = without_trailing_space(text);
        assert(shorter.take(rest.len() as int) =~= text.take(rest.len() as int));
        assert forall|i: int| rest.len() <= i < text.len() implies is_space(#[trigger] text[i]) by {
            if i < shorter.len() {
                assert(shorter[i] == text[i]);
            }
        }
    } else {
        assert(text.take(text.len() as int) =~= text);
    }
}

/// Trimming takes away the white space before and behind a text, all of it and nothing else:
/// the rest stands in the text as it was, and neither begins nor ends with white space.
pub proof fn law_trimming_takes_away_surrounding_space(text: Seq<char>) -> (start: int)
    ensures
        ({
            let rest = trimmed(text);
            &&& 0 <= start
            &&& start + rest.len() <= text.len()
            &&& rest == text.subrange(start, start + rest.len())
            &&& forall|i: int| 0 <= i < start ==> is_space(#[trigger] text[i])
            &&& forall|i: int| start + rest.len() <= i < text.len() ==> is_space(#[trigger] text[i])
            &&& rest.len() > 0 ==> !is_space(rest[0]) && !is_space(rest.last())
        }),
{
    let led = without_leading_space(text);
    let rest = trimmed(text);
    let start = text.len() - led.len();
    lemma_leading_space(text);
    lemma_trailing_space(led);
    assert(rest =~= text.subrange(start, start + rest.len()));
    assert forall|i: int| start + rest.len() <= i < text.len() implies is_space(
        #[trigger] text[i],
    ) by {
        assert(led[i - start] == text[i]);
    }
    start
}

/// White space among the first 128 characters: the blank and the five controls from the tab to
/// the carriage return.
pub proof fn law_blanks_and_line_breaks_are_white_space(c: char)
    requires
        c as int <= 127,
    ensures
        is_space(c) <==> c == ' ' || '\t' <= c <= '\r',
{
}

/// Joining two lists of texts joins each of them and puts one separator in between. One text is
/// joined to itself and no text to nothing.
pub proof fn law_joining_puts_one_separator_between(
    a: Seq<Seq<char>>,
    b: Seq<Seq<char>>,
    one: Seq<char>,
    separator: Seq<char>,
)
    requires
        a.len() > 0,
        b.len() > 0,
    ensures
        joined(a + b, separator) == joined(a, separator) + separator + joined(b, separator),
        joined(seq![one], separator) == one,
        joined(Seq::empty(), separator) == Seq::<char>::empty(),
    decreases b.len(),
{
    let all = a + b;
    assert(all.last() == b.last());
    assert(all.drop_last() =~= a + b.drop_last());
    if b.len() == 1 {
        assert(a + b.drop_last() =~= a);
    } else {
        law_joining_puts_one_separator_between(a, b.drop_last(), one, separator);
        assert(joined(a, separator) + separator + joined(b.drop_last(), separator) + separator
            + b.last() =~= joined(a, separator) + separator + joined(b, separator));
    }
}

/// Small and capital letters are 32 apart, and no other character changes its case.
pub proof fn law_letters_change_their_case(c: char)
    ensures
        'A' <= c <= 'Z' ==> ascii_lower_char(c) as int == c as int + 32,
        !('A' <= c <= 'Z') ==> ascii_lower_char(c) == c,
        'a' <= c <= 'z' ==> ascii_upper_char(c) as int == c as int - 32,
        !('a' <= c <= 'z') ==> ascii_upper_char(c) == c,
        'A' <= c <= 'Z' ==> ascii_upper_char(ascii_lower_char(c)) == c,
{
}

/// The numeral of a number is the numeral of its quotient by the base, unless that is zero, and
/// one more digit for the remainder: `0` to `9`, then `A` to `F`.
pub proof fn law_numerals_grow_by_a_digit(n: nat, d: nat, base: nat)
    requires
        2 <= base <= 16,
        d < base,
    ensures
        n > 0 ==> in_base(n * base + d, base) == in_base(n, base) + in_base(d, base),
        in_base(d, base) == seq!["0123456789ABCDEF"@[d as int]],
{
    reveal_strlit("0123456789ABCDEF");
    assert(in_base(d, base) =~= seq![numeral(d)]);
    if n > 0 {
        assert(n * base + d >= base) by (nonlinear_arith)
            requires
                n >= 1,
                base >= 2,
        ;
        vstd::arithmetic::div_mod::lemma_fundamental_div_mod_converse(
            (n * base + d) as int,
            base as int,
            n as int,
            d as int,
        );
        assert(in_base(n * base + d, base) =~= in_base(n, base) + in_base(d, base));
    }
}

} // verus!
