//! Text as sequences of characters: splitting, trimming and decimal numbers.

use vstd::prelude::*;

verus! {

/// The contents of each string of `v`.
pub open spec fn texts(v: Seq<String>) -> Seq<Seq<char>> {
    Seq::new(v.len(), |i: int| v[i]@)
}

/// The characters with Unicode's `White_Space` property.
pub open spec fn white_space(c: char) -> bool {
    ||| '\u{9}' <= c <= '\u{d}'
    ||| c == '\u{20}'
    ||| c == '\u{85}'
    ||| c == '\u{a0}'
    ||| c == '\u{1680}'
    ||| '\u{2000}' <= c <= '\u{200a}'
    ||| c == '\u{2028}'
    ||| c == '\u{2029}'
    ||| c == '\u{202f}'
    ||| c == '\u{205f}'
    ||| c == '\u{3000}'
}

/// `char::is_whitespace`: whether the character has the property `White_Space`.
pub assume_specification[ char::is_whitespace ](c: char) -> (r: bool)
    ensures
        r == white_space(c),
;

/// `String::push`: appends one character.
pub assume_specification[ String::push ](s: &mut String, c: char)
    ensures
        final(s)@ == old(s)@.push(c),
;

/// The characters of a text.
pub fn chars_of(text: &str) -> (r: Vec<char>)
    ensures
        r@ == text@,
{
    let mut out: Vec<char> = Vec::new();
    for c in it: text.chars()
        invariant
            it.seq() == text@,
            out@ == text@.take(it.index() as int),
    {
        out.push(c);
    }
    out
}

/// The text made of the characters from `from` up to, but without, `to`.
pub fn string_of(chars: &Vec<char>, from: usize, to: usize) -> (r: String)
    requires
        from <= to <= chars@.len(),
    ensures
        r@ == chars@.subrange(from as int, to as int),
{
    let mut out = String::new();
    let mut i: usize = from;
    while i < to
        invariant
            from <= i <= to <= chars@.len(),
            out@ == chars@.subrange(from as int, i as int),
        decreases to - i,
    {
        out.push(chars[i]);
        i = i + 1;
    }
    out
}

/// Whether two texts are equal.
pub fn same_text(a: &str, b: &str) -> (r: bool)
    ensures
        r == (a@ == b@),
{
    a.to_owned() == b.to_owned()
}

/// Where `c` first stands in `s`; the length of `s` where it does not.
pub open spec fn first_position(s: Seq<char>, c: char) -> nat
    decreases s.len(),
{
    if s.len() == 0 || s[0] == c {
        0
    } else {
        1 + first_position(s.drop_first(), c)
    }
}

/// No `c` stands before its first position, and one stands there if it is in `s` at all.
pub proof fn lemma_first_position(s: Seq<char>, c: char)
    ensures
        first_position(s, c) <= s.len(),
        forall|i: int| 0 <= i < first_position(s, c) ==> s[i] != c,
        first_position(s, c) < s.len() ==> s[first_position(s, c) as int] == c,
    decreases s.len(),
{
    if s.len() > 0 && s[0] != c {
        let rest = s.drop_first();
        lemma_first_position(rest, c);
        assert forall|i: int| 0 <= i < first_position(s, c) implies s[i] != c by {
            if i > 0 {
                assert(s[i] == rest[i - 1]);
            }
        }
    }
}

/// A position whose character is `c`, with no `c` before it, is the first.
pub proof fn lemma_first_position_is(s: Seq<char>, c: char, n: int)
    requires
        0 <= n <= s.len(),
        forall|i: int| 0 <= i < n ==> s[i] != c,
        n < s.len() ==> s[n] == c,
    ensures
        first_position(s, c) == n,
{
    lemma_first_position(s, c);
    let p = first_position(s, c) as int;
    if p < n {
        assert(s[p] != c);
    }
}

/// Where `c` first stands in `chars` at or after `from`; its length where it does not.
fn find_char(chars: &Vec<char>, from: usize, c: char) -> (r: usize)
    requires
        from <= chars@.len(),
    ensures
        from <= r <= chars@.len(),
        r - from == first_position(chars@.skip(from as int), c),
{
    let mut i: usize = from;
    while i < chars.len() && chars[i] != c
        invariant
            from <= i <= chars@.len(),
            forall|k: int| from <= k < i ==> chars@[k] != c,
        decreases chars@.len() - i,
    {
        i = i + 1;
    }
    proof {
        lemma_first_position_is(chars@.skip(from as int), c, i - from);
    }
    i
}

/// The pieces of `s` between the occurrences of `sep`: one more than there are of those.
pub open spec fn split_on(s: Seq<char>, sep: char) -> Seq<Seq<char>>
    decreases s.len(),
{
    let i = first_position(s, sep) as int;
    if i < s.len() {
        seq![s.take(i)] + split_on(s.skip(i + 1), sep)
    } else {
        seq![s]
    }
}

/// Splits a text at each `sep`, as `str::split` does.
pub fn split_text(text: &str, sep: char) -> (r: Vec<String>)
    ensures
        texts(r@) == split_on(text@, sep),
        r@.len() >= 1,
{
    let chars = chars_of(text);
    let mut out: Vec<String> = Vec::new();
    let mut start: usize = 0;
    assert(chars@.skip(0) == chars@);
    assert(texts(out@) + split_on(chars@.skip(0), sep) == split_on(chars@, sep));
    loop
        invariant_except_break
            start <= chars@.len(),
            texts(out@) + split_on(chars@.skip(start as int), sep) == split_on(chars@, sep),
        ensures
            texts(out@) == split_on(chars@, sep),
            out@.len() >= 1,
        decreases chars@.len() - start,
    {
        let ghost before = texts(out@);
        let ghost rest = chars@.skip(start as int);
        let i: usize = find_char(&chars, start, sep);
        let piece = string_of(&chars, start, i);
        proof {
            lemma_first_position(rest, sep);
            assert(piece@ == rest.take(i - start));
        }
        out.push(piece);
        assert(texts(out@) == before.push(piece@));
        if i == chars.len() {
            assert(piece@ == rest);
            assert(texts(out@) == before + seq![rest]);
            break;
        }
        start = i + 1;
        proof {
            assert(chars@.skip(start as int) == rest.skip(i + 1 - (chars@.len() - rest.len())));
            assert(before + (seq![piece@] + split_on(chars@.skip(start as int), sep))
                == texts(out@) + split_on(chars@.skip(start as int), sep));
        }
    }
    out
}

/// The parts of `s` before and after the first `sep`, where there is one.
pub open spec fn split_at_first(s: Seq<char>, sep: char) -> Option<(Seq<char>, Seq<char>)> {
    let i = first_position(s, sep) as int;
    if i < s.len() {
        Some((s.take(i), s.skip(i + 1)))
    } else {
        None
    }
}

/// Splits a text at the first `sep`, as `str::split_once` does.
pub fn split_once(text: &str, sep: char) -> (r: Option<(String, String)>)
    ensures
        match r {
            Some((before, after)) => split_at_first(text@, sep) == Some((before@, after@)),
            None => split_at_first(text@, sep) is None,
        },
{
    let chars = chars_of(text);
    assert(chars@.skip(0) == chars@);
    let i: usize = find_char(&chars, 0, sep);
    if i == chars.len() {
        return None;
    }
    let before = string_of(&chars, 0, i);
    let after = string_of(&chars, i + 1, chars.len());
    assert(before@ == text@.take(i as int));
    assert(after@ == text@.skip(i + 1));
    Some((before, after))
}

/// `s` without the white space at its two ends.
pub open spec fn trimmed(s: Seq<char>) -> Seq<char>
    decreases s.len(),
{
    if s.len() == 0 {
        s
    } else if white_space(s[0]) {
        trimmed(s.drop_first())
    } else if white_space(s.last()) {
        trimmed(s.drop_last())
    } else {
        s
    }
}

/// Removes the white space at the two ends of a text, as `str::trim` does.
pub fn trim(text: &str) -> (r: String)
    ensures
        r@ == trimmed(text@),
{
    let chars = chars_of(text);
    let len: usize = chars.len();
    let mut a: usize = 0;
    assert(chars@.subrange(0, len as int) == chars@);
    while a < len && chars[a].is_whitespace()
        invariant
            len == chars@.len(),
            a <= len,
            trimmed(chars@.subrange(a as int, len as int)) == trimmed(chars@),
        decreases len - a,
    {
        assert(chars@.subrange(a as int, len as int).drop_first()
            == chars@.subrange(a + 1, len as int));
        a = a + 1;
    }
    let mut b: usize = len;
    while b > a && chars[b - 1].is_whitespace()
        invariant
            len == chars@.len(),
            a <= b <= len,
            a < len ==> !white_space(chars@[a as int]),
            trimmed(chars@.subrange(a as int, b as int)) == trimmed(chars@),
        decreases b - a,
    {
        assert(chars@.subrange(a as int, b as int).drop_last()
            == chars@.subrange(a as int, b - 1));
        b = b - 1;
    }
    string_of(&chars, a, b)
}

/// A line that ended in a line feed, without a carriage return right before it.
pub open spec fn without_return(s: Seq<char>) -> Seq<char> {
    if s.len() > 0 && s.last() == '\r' {
        s.drop_last()
    } else {
        s
    }
}

/// The lines of `s`. A line ends in a line feed, with or without a carriage return before
/// it; the last one may also end with `s`.
pub open spec fn lines_of(s: Seq<char>) -> Seq<Seq<char>>
    decreases s.len(),
{
    if s.len() == 0 {
        Seq::empty()
    } else {
        let i = first_position(s, '\n') as int;
        if i < s.len() {
            seq![without_return(s.take(i))] + lines_of(s.skip(i + 1))
        } else {
            seq![s]
        }
    }
}

/// The lines of a text, as `str::lines` gives them.
pub fn lines(text: &str) -> (r: Vec<String>)
    ensures
        texts(r@) == lines_of(text@),
{
    let chars = chars_of(text);
    let len: usize = chars.len();
    let mut out: Vec<String> = Vec::new();
    let mut start: usize = 0;
    assert(chars@.skip(0) == chars@);
    assert(texts(out@) + lines_of(chars@) == lines_of(chars@));
    while start < len
        invariant
            len == chars@.len(),
            start <= len,
            texts(out@) + lines_of(chars@.skip(start as int)) == lines_of(chars@),
        decreases len - start,
    {
        let ghost before = texts(out@);
        let ghost rest = chars@.skip(start as int);
        let i: usize = find_char(&chars, start, '\n');
        if i == len {
            let line = string_of(&chars, start, len);
            assert(line@ == rest);
            out.push(line);
            assert(texts(out@) == before + seq![rest]);
            start = len;
            assert(lines_of(chars@.skip(start as int)) == Seq::<Seq<char>>::empty());
            assert(texts(out@) + Seq::<Seq<char>>::empty() == texts(out@));
        } else {
            let end: usize = if i > start && chars[i - 1] == '\r' { i - 1 } else { i };
            let line = string_of(&chars, start, end);
            assert(line@ == without_return(rest.take(i - start)));
            assert(chars@.skip(i + 1) == rest.skip(i - start + 1));
            out.push(line);
            start = i + 1;
            assert(texts(out@) == before.push(line@));
            assert(before + (seq![line@] + lines_of(chars@.skip(start as int)))
                == texts(out@) + lines_of(chars@.skip(start as int)));
        }
    }
    assert(chars@.skip(start as int) == Seq::<char>::empty());
    assert(texts(out@) + Seq::<Seq<char>>::empty() == texts(out@));
    out
}

/// The decimal digits.
pub open spec fn is_digit(c: char) -> bool {
    '0' <= c <= '9'
}

/// Whether `s` is made of decimal digits alone.
pub open spec fn all_digits(s: Seq<char>) -> bool {
    forall|i: int| 0 <= i < s.len() ==> is_digit(#[trigger] s[i])
}

/// The number that the decimal digits `s` denote.
pub open spec fn decimal_value(s: Seq<char>) -> nat
    decreases s.len(),
{
    if s.len() == 0 {
        0
    } else {
        (decimal_value(s.drop_last()) * 10 + (s.last() as int - '0' as int)) as nat
    }
}

/// `s` without a plus sign at its start.
pub open spec fn unsigned_part(s: Seq<char>) -> Seq<char> {
    if s.len() > 0 && s[0] == '+' {
        s.drop_first()
    } else {
        s
    }
}

/// The number that `s` denotes: one or more decimal digits, with or without a plus sign
/// before them, that make no more than `u16::MAX`.
pub open spec fn u16_value(s: Seq<char>) -> Option<u16> {
    let digits = unsigned_part(s);
    if digits.len() > 0 && all_digits(digits) && decimal_value(digits) <= u16::MAX {
        Some(decimal_value(digits) as u16)
    } else {
        None
    }
}

/// More digits denote no smaller number.
proof fn lemma_decimal_value_grows(s: Seq<char>, n: int)
    requires
        0 <= n <= s.len(),
        all_digits(s),
    ensures
        decimal_value(s.take(n)) <= decimal_value(s),
    decreases s.len(),
{
    if n < s.len() {
        assert(s.drop_last().take(n) == s.take(n));
        assert(is_digit(s[s.len() - 1]));
        lemma_decimal_value_grows(s.drop_last(), n);
    } else {
        assert(s.take(n) == s);
    }
}

/// Reads a `u16`, as `str::parse` does.
pub fn parse_u16(text: &str) -> (r: Option<u16>)
    ensures
        r == u16_value(text@),
{
    let chars = chars_of(text);
    let len: usize = chars.len();
    let start: usize = if len > 0 && chars[0] == '+' { 1 } else { 0 };
    let ghost digits = unsigned_part(text@);
    assert(digits == chars@.skip(start as int));
    if start == len {
        return None;
    }
    let mut value: u32 = 0;
    let mut i: usize = start;
    assert(digits.take(0) == Seq::<char>::empty());
    while i < len
        invariant
            len == chars@.len(),
            start < len,
            start <= i <= len,
            text@ == chars@,
            digits == chars@.skip(start as int),
            digits == unsigned_part(text@),
            forall|k: int| 0 <= k < i - start ==> is_digit(#[trigger] digits[k]),
            value == decimal_value(digits.take(i - start)),
            value <= u16::MAX,
        decreases len - i,
    {
        let c = chars[i];
        assert(digits[i - start] == c);
        if c < '0' || c > '9' {
            assert(!is_digit(digits[i - start]));
            return None;
        }
        let d: u32 = c as u32 - '0' as u32;
        value = value * 10 + d;
        i = i + 1;
        assert(digits.take(i - start).drop_last() == digits.take(i - start - 1));
        if value > 65535 {
            proof {
                if all_digits(digits) {
                    lemma_decimal_value_grows(digits, i - start);
                }
            }
            return None;
        }
    }
    assert(digits.take(len - start) == digits);
    Some(value as u16)
}

/// The decimal digit for a number below ten.
pub open spec fn digit_char(n: nat) -> char {
    ('0' as int + n) as char
}

/// The decimal digits of `n`, without leading zeros.
pub open spec fn decimal_text(n: nat) -> Seq<char>
    decreases n,
{
    if n < 10 {
        seq![digit_char(n)]
    } else {
        decimal_text(n / 10).push(digit_char(n % 10))
    }
}

/// Writes a number in decimal, as its `to_string` does.
pub fn decimal(n: u32) -> (r: String)
    ensures
        r@ == decimal_text(n as nat),
    decreases n,
{
    let last: u8 = (n % 10) as u8;
    let digit: u8 = 48u8 + last;
    if n < 10 {
        let mut out = String::new();
        out.push(digit as char);
        assert(out@ == seq![digit_char(n as nat)]);
        out
    } else {
        let mut out = decimal(n / 10);
        out.push(digit as char);
        out
    }
}

} // verus!
