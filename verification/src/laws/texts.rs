//! Splitting, trimming and numbers.

use crate::text;
use vstd::arithmetic::power::{lemma_pow0, pow};
use vstd::prelude::*;

verus! {

/// Pieces of text with `sep` between them.
pub open spec fn joined(pieces: Seq<Seq<char>>, sep: char) -> Seq<char>
    decreases pieces.len(),
{
    if pieces.len() == 0 {
        Seq::empty()
    } else if pieces.len() == 1 {
        pieces[0]
    } else {
        pieces[0] + seq![sep] + joined(pieces.drop_first(), sep)
    }
}

/// A text is its pieces with the separator between them, and no piece holds the separator.
pub proof fn law_split_loses_nothing(s: Seq<char>, sep: char)
    ensures
        text::split_on(s, sep).len() >= 1,
        joined(text::split_on(s, sep), sep) == s,
        forall|i: int|
            0 <= i < text::split_on(s, sep).len() ==> !(#[trigger] text::split_on(
                s,
                sep,
            )[i]).contains(sep),
    decreases s.len(),
{
    let i = text::first_position(s, sep) as int;
    let pieces = text::split_on(s, sep);
    text::lemma_first_position(s, sep);
    if i < s.len() {
        let rest = text::split_on(s.skip(i + 1), sep);
        law_split_loses_nothing(s.skip(i + 1), sep);
        assert(pieces.drop_first() == rest);
        assert(s == s.take(i) + seq![sep] + s.skip(i + 1));
        assert forall|k: int| 0 <= k < pieces.len() implies !(#[trigger] pieces[k]).contains(
            sep,
        ) by {
            if k > 0 {
                assert(pieces[k] == rest[k - 1]);
            }
        }
    } else {
        assert(pieces == seq![s]);
    }
}

/// A text before the first separator is the first piece.
pub(crate) proof fn lemma_split_first(before: Seq<char>, sep: char, after: Seq<char>)
    requires
        !before.contains(sep),
    ensures
        text::split_on(before + seq![sep] + after, sep) == seq![before] + text::split_on(
            after,
            sep,
        ),
{
    let s = before + seq![sep] + after;
    let n = before.len() as int;
    assert forall|i: int| 0 <= i < n implies s[i] != sep by {
        assert(before.contains(before[i]));
    }
    text::lemma_first_position_is(s, sep, n);
    assert(s.take(n) == before);
    assert(s.skip(n + 1) == after);
}

/// Pieces without the separator, joined by it, are what the text is split into.
pub proof fn law_joined_pieces_split(pieces: Seq<Seq<char>>, sep: char)
    requires
        pieces.len() >= 1,
        forall|i: int| 0 <= i < pieces.len() ==> !(#[trigger] pieces[i]).contains(sep),
    ensures
        text::split_on(joined(pieces, sep), sep) == pieces,
    decreases pieces.len(),
{
    if pieces.len() == 1 {
        let s = pieces[0];
        assert forall|i: int| 0 <= i < s.len() implies s[i] != sep by {
            assert(s.contains(s[i]));
        }
        text::lemma_first_position_is(s, sep, s.len() as int);
        assert(pieces == seq![s]);
    } else {
        let rest = pieces.drop_first();
        law_joined_pieces_split(rest, sep);
        lemma_split_first(pieces[0], sep, joined(rest, sep));
        assert(pieces == seq![pieces[0]] + rest);
    }
}

/// Whether the part from `a` up to `b` is trimmed text, with nothing but white space around it.
pub open spec fn trims_to(s: Seq<char>, a: int, b: int) -> bool {
    &&& 0 <= a <= b <= s.len()
    &&& text::trimmed(s) == s.subrange(a, b)
    &&& forall|i: int|
        0 <= i < a || b <= i < s.len() ==> text::white_space(#[trigger] s[i])
}

proof fn lemma_trims_after_first(s: Seq<char>, a: int, b: int)
    requires
        s.len() > 0,
        text::white_space(s[0]),
        trims_to(s.drop_first(), a, b),
    ensures
        trims_to(s, a + 1, b + 1),
{
    let rest = s.drop_first();
    assert(rest.subrange(a, b) == s.subrange(a + 1, b + 1));
    assert forall|i: int| 0 <= i < a + 1 || b + 1 <= i < s.len() implies text::white_space(
        #[trigger] s[i],
    ) by {
        if i > 0 {
            assert(text::white_space(rest[i - 1]));
        }
    }
}

proof fn lemma_trims_before_last(s: Seq<char>, a: int, b: int)
    requires
        s.len() > 0,
        !text::white_space(s[0]),
        text::white_space(s.last()),
        trims_to(s.drop_last(), a, b),
    ensures
        trims_to(s, a, b),
{
    let rest = s.drop_last();
    assert(rest.subrange(a, b) == s.subrange(a, b));
    assert forall|i: int| 0 <= i < a || b <= i < s.len() implies text::white_space(
        #[trigger] s[i],
    ) by {
        if i < rest.len() {
            assert(text::white_space(rest[i]));
        }
    }
}

/// Trimming takes nothing but white space, and only from the two ends.
pub proof fn law_trimmed_keeps_the_middle(s: Seq<char>)
    ensures
        exists|a: int, b: int| trims_to(s, a, b),
    decreases s.len(),
{
    if s.len() == 0 {
        assert(s == s.subrange(0, 0));
        assert(trims_to(s, 0, 0));
    } else if text::white_space(s[0]) {
        law_trimmed_keeps_the_middle(s.drop_first());
        let (a, b) = choose|a: int, b: int| trims_to(s.drop_first(), a, b);
        lemma_trims_after_first(s, a, b);
    } else if text::white_space(s.last()) {
        law_trimmed_keeps_the_middle(s.drop_last());
        let (a, b) = choose|a: int, b: int| trims_to(s.drop_last(), a, b);
        lemma_trims_before_last(s, a, b);
    } else {
        assert(s == s.subrange(0, s.len() as int));
        assert(trims_to(s, 0, s.len() as int));
    }
}

/// Trimmed text neither starts nor ends with white space.
pub proof fn law_trimmed_ends(s: Seq<char>)
    ensures
        text::trimmed(s).len() > 0 ==> !text::white_space(text::trimmed(s)[0])
            && !text::white_space(text::trimmed(s).last()),
    decreases s.len(),
{
    if s.len() > 0 {
        if text::white_space(s[0]) {
            law_trimmed_ends(s.drop_first());
        } else if text::white_space(s.last()) {
            law_trimmed_ends(s.drop_last());
        }
    }
}

/// Trimming twice is trimming once.
pub proof fn law_trimmed_once(s: Seq<char>)
    ensures
        text::trimmed(text::trimmed(s)) == text::trimmed(s),
{
    law_trimmed_ends(s);
}

/// The decimal digits of a number denote it.
pub proof fn law_decimal_denotes(n: nat)
    ensures
        text::decimal_text(n).len() > 0,
        text::all_digits(text::decimal_text(n)),
        text::decimal_value(text::decimal_text(n)) == n,
    decreases n,
{
    let digits = text::decimal_text(n);
    let d = n % 10;
    let c = text::digit_char(d);
    assert(c as int == '0' as int + d);
    assert(text::is_digit(c));
    if n < 10 {
        assert(digits.drop_last() == Seq::<char>::empty());
        assert(text::decimal_value(digits.drop_last()) == 0);
    } else {
        law_decimal_denotes(n / 10);
        assert(digits.drop_last() == text::decimal_text(n / 10));
    }
}

/// A port is read back from its decimal digits.
pub proof fn law_port_read_back(port: u16)
    ensures
        text::u16_value(text::decimal_text(port as nat)) == Some(port),
{
    let digits = text::decimal_text(port as nat);
    law_decimal_denotes(port as nat);
    assert(text::is_digit(digits[0]));
}

/// A separator gives one more piece at least.
pub(crate) proof fn lemma_split_count(before: Seq<char>, sep: char, after: Seq<char>)
    ensures
        text::split_on(after, sep).len() >= 1,
        text::split_on(before + seq![sep] + after, sep).len() >= 1 + text::split_on(
            after,
            sep,
        ).len(),
    decreases before.len(),
{
    let s = before + seq![sep] + after;
    if before.contains(sep) {
        let i = text::first_position(s, sep) as int;
        text::lemma_first_position(s, sep);
        let k = choose|k: int| 0 <= k < before.len() && before[k] == sep;
        assert(s[k] == sep);
        assert(i <= k);
        assert(s.skip(i + 1) == before.skip(i + 1) + seq![sep] + after);
        lemma_split_count(before.skip(i + 1), sep, after);
    } else {
        lemma_split_first(before, sep, after);
    }
}

/// A filter that every element passes changes nothing.
pub(crate) proof fn lemma_filter_all<A>(s: Seq<A>, pred: spec_fn(A) -> bool)
    requires
        forall|i: int| 0 <= i < s.len() ==> pred(#[trigger] s[i]),
    ensures
        s.filter(pred) == s,
    decreases s.len(),
{
    reveal(Seq::filter);
    if s.len() > 0 {
        lemma_filter_all(s.drop_last(), pred);
        assert(pred(s[s.len() - 1]));
        assert(s == s.drop_last().push(s.last()));
    }
}

/// The contents of strings.
pub open spec fn contents(v: Seq<String>) -> Seq<Seq<char>> {
    v.map_values(|s: String| s@)
}

/// Splitting gives the pieces that hold no separator and that, with separators between them,
/// make up the text.
pub proof fn law_split_text(text: &str, sep: char, r: Vec<String>)
    requires
        call_ensures(text::split_text, (text, sep), r),
    ensures
        r@.len() >= 1,
        joined(contents(r@), sep) == text@,
        forall|i: int| 0 <= i < r@.len() ==> !(#[trigger] r@[i])@.contains(sep),
{
    law_split_loses_nothing(text@, sep);
    assert(contents(r@) == text::texts(r@));
    assert forall|i: int| 0 <= i < r@.len() implies !(#[trigger] r@[i])@.contains(sep) by {
        assert(text::split_on(text@, sep)[i] == r@[i]@);
    }
}

/// Splitting at the first separator gives a part without separators and the part after it, and
/// nothing if and only if there is no separator.
pub proof fn law_split_once(text: &str, sep: char, r: Option<(String, String)>)
    requires
        call_ensures(text::split_once, (text, sep), r),
    ensures
        match r {
            Some((before, after)) => text@ == before@ + seq![sep] + after@ && !before@.contains(sep),
            None => !text@.contains(sep),
        },
{
    let i = text::first_position(text@, sep) as int;
    text::lemma_first_position(text@, sep);
    if i < text@.len() {
        assert(text@ == text@.take(i) + seq![sep] + text@.skip(i + 1));
    }
}

/// Trimming takes white space from the two ends, all of it and nothing else.
pub proof fn law_trim(text: &str, r: String)
    requires
        call_ensures(text::trim, (text,), r),
    ensures
        r@.len() > 0 ==> !text::white_space(r@[0]) && !text::white_space(r@.last()),
        exists|a: int, b: int|
            #![trigger text@.subrange(a, b)]
            0 <= a <= b <= text@.len() && r@ == text@.subrange(a, b) && (forall|i: int|
                0 <= i < a || b <= i < text@.len() ==> text::white_space(#[trigger] text@[i])),
{
    law_trimmed_ends(text@);
    law_trimmed_keeps_the_middle(text@);
    let (a, b) = choose|a: int, b: int| trims_to(text@, a, b);
    assert(r@ == text@.subrange(a, b));
}

/// The lines of a text: none of an empty text; one of a text without line feeds; else what stands
/// before the first line feed, without one carriage return at its end, and the lines of what
/// follows.
pub proof fn law_lines(
    text: &str,
    r: Vec<String>,
    first: Seq<char>,
    rest: &str,
    of_rest: Vec<String>,
)
    requires
        call_ensures(text::lines, (text,), r),
        call_ensures(text::lines, (rest,), of_rest),
        !first.contains('\n'),
    ensures
        text@.len() == 0 ==> r@.len() == 0,
        text@.len() > 0 && text@ == first ==> contents(r@) == seq![first],
        text@ == first + seq!['\n'] + rest@ && (first.len() > 0 ==> first.last() != '\r')
            ==> contents(r@) == seq![first] + contents(of_rest@),
        text@ == first + seq!['\r', '\n'] + rest@ ==> contents(r@) == seq![first] + contents(
            of_rest@,
        ),
{
    assert(contents(r@) == text::texts(r@));
    assert(contents(of_rest@) == text::texts(of_rest@));
    if text@.len() == 0 {
        assert(contents(r@).len() == 0);
    }
    if text@ == first {
        assert forall|i: int| 0 <= i < first.len() implies first[i] != '\n' by {
            assert(first.contains(first[i]));
        }
        text::lemma_first_position_is(first, '\n', first.len() as int);
    }
    if text@ == first + seq!['\n'] + rest@ {
        lemma_first_line(first, rest@);
    }
    if text@ == first + seq!['\r', '\n'] + rest@ {
        let line = first.push('\r');
        assert(text@ == line + seq!['\n'] + rest@);
        assert forall|i: int| 0 <= i < line.len() implies line[i] != '\n' by {
            if i < first.len() {
                assert(first.contains(first[i]));
            }
        }
        lemma_first_line(line, rest@);
        assert(line.drop_last() == first);
    }
}

proof fn lemma_first_line(line: Seq<char>, rest: Seq<char>)
    requires
        !line.contains('\n'),
    ensures
        text::lines_of(line + seq!['\n'] + rest) == seq![text::without_return(line)]
            + text::lines_of(rest),
{
    let s = line + seq!['\n'] + rest;
    let n = line.len() as int;
    assert forall|i: int| 0 <= i < n implies s[i] != '\n' by {
        assert(line.contains(line[i]));
    }
    text::lemma_first_position_is(s, '\n', n);
    assert(s.take(n) == line);
    assert(s.skip(n + 1) == rest);
}

/// The number that decimal digits denote by their places: each counts ten times the next.
pub open spec fn place_value(s: Seq<char>) -> int
    decreases s.len(),
{
    if s.len() == 0 {
        0
    } else {
        (s[0] as int - '0' as int) * pow(10, (s.len() - 1) as nat) + place_value(s.drop_first())
    }
}

/// Whether a text is decimal digits alone, one or more.
pub open spec fn is_number(s: Seq<char>) -> bool {
    s.len() > 0 && forall|i: int| 0 <= i < s.len() ==> '0' <= #[trigger] s[i] <= '9'
}

proof fn lemma_place_value_push(s: Seq<char>, c: char)
    ensures
        place_value(s.push(c)) == place_value(s) * 10 + (c as int - '0' as int),
    decreases s.len(),
{
    let all = s.push(c);
    let d = c as int - '0' as int;
    if s.len() == 0 {
        lemma_pow0(10);
        assert(all.drop_first() == Seq::<char>::empty());
        assert(place_value(all.drop_first()) == 0);
        assert(pow(10, 0) == 1);
        assert(place_value(all) == d * pow(10, 0) + 0);
    } else {
        let n = (s.len() - 1) as nat;
        let first = s[0] as int - '0' as int;
        lemma_place_value_push(s.drop_first(), c);
        assert(all.drop_first() == s.drop_first().push(c));
        assert(pow(10, (n + 1) as nat) == 10 * pow(10, n)) by {
            reveal(pow);
        }
        assert(first * (10 * pow(10, n)) == (first * pow(10, n)) * 10) by (nonlinear_arith);
    }
}

pub(crate) proof fn lemma_place_value(s: Seq<char>)
    requires
        text::all_digits(s),
    ensures
        place_value(s) == text::decimal_value(s),
    decreases s.len(),
{
    if s.len() > 0 {
        lemma_place_value(s.drop_last());
        lemma_place_value_push(s.drop_last(), s.last());
        assert(s == s.drop_last().push(s.last()));
        assert(text::is_digit(s[s.len() - 1]));
    }
}

/// A port is read if and only if the text is decimal digits, with or without a plus sign before
/// them, for a number that fits; it is then that number.
pub proof fn law_parse_u16(text: &str, r: Option<u16>, digits: Seq<char>)
    requires
        call_ensures(text::parse_u16, (text,), r),
        text@ == digits && !(digits.len() > 0 && digits[0] == '+') || text@ == seq!['+'] + digits,
    ensures
        r is Some <==> is_number(digits) && place_value(digits) <= 65535,
        r is Some ==> r->0 == place_value(digits),
{
    assert(text::unsigned_part(text@) == digits) by {
        assert((seq!['+'] + digits).drop_first() == digits);
    }
    if text::all_digits(digits) {
        lemma_place_value(digits);
        assert forall|i: int| 0 <= i < digits.len() implies '0' <= #[trigger] digits[i] <= '9' by {
            assert(text::is_digit(digits[i]));
        }
    } else {
        let i = choose|i: int| 0 <= i < digits.len() && !text::is_digit(#[trigger] digits[i]);
        assert(!('0' <= digits[i] <= '9'));
    }
}

/// The digits of a number are decimal digits that denote it, without leading zeros.
pub proof fn law_decimal_text(n: nat)
    ensures
        is_number(text::decimal_text(n)),
        place_value(text::decimal_text(n)) == n,
        text::decimal_text(n)[0] == '0' ==> n == 0 && text::decimal_text(n).len() == 1,
    decreases n,
{
    let digits = text::decimal_text(n);
    law_decimal_denotes(n);
    lemma_place_value(digits);
    assert forall|i: int| 0 <= i < digits.len() implies '0' <= #[trigger] digits[i] <= '9' by {
        assert(text::is_digit(digits[i]));
    }
    if n >= 10 {
        law_decimal_text(n / 10);
    } else {
        assert(digits[0] as int == '0' as int + n);
    }
}

/// A number is written in decimal digits that denote it, without leading zeros.
pub proof fn law_decimal(n: u32, r: String)
    requires
        call_ensures(text::decimal, (n,), r),
    ensures
        is_number(r@),
        place_value(r@) == n,
        r@[0] == '0' ==> n == 0 && r@.len() == 1,
{
    law_decimal_text(n as nat);
}

/// Two texts are the same if and only if their characters are.
pub proof fn law_same_text(a: &str, b: &str, r: bool)
    requires
        call_ensures(text::same_text, (a, b), r),
    ensures
        r <==> a@.len() == b@.len() && forall|i: int| 0 <= i < a@.len() ==> #[trigger] a@[i] == b@[i],
{
    if a@.len() == b@.len() && forall|i: int| 0 <= i < a@.len() ==> #[trigger] a@[i] == b@[i] {
        assert(a@ =~= b@);
    }
}

} // verus!
