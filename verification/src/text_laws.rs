//! What the text operations do to every text.

use vstd::prelude::*;

use crate::text;

verus! {

/// Every character of `s` is white space.
pub open spec fn blank(s: Seq<char>) -> bool {
    forall|i: int| 0 <= i < s.len() ==> text::is_white_space(#[trigger] s[i])
}

proof fn lemma_start(s: Seq<char>) -> (cut: Seq<char>)
    ensures
        s == cut + text::trimmed_start(s),
        blank(cut),
        text::trimmed_start(s).len() > 0 ==> !text::is_white_space(text::trimmed_start(s).first()),
    decreases s.len(),
{
    if s.len() > 0 && text::is_white_space(s.first()) {
        let rest = lemma_start(s.drop_first());
        let cut = seq![s.first()] + rest;
        assert(s =~= seq![s.first()] + s.drop_first());
        assert(s =~= cut + text::trimmed_start(s));
        cut
    } else {
        assert(s =~= Seq::<char>::empty() + s);
        Seq::empty()
    }
}

proof fn lemma_end(s: Seq<char>) -> (cut: Seq<char>)
    ensures
        s == text::trimmed_end(s) + cut,
        blank(cut),
        text::trimmed_end(s).len() > 0 ==> !text::is_white_space(text::trimmed_end(s).last()),
        text::trimmed_end(s).len() > 0 ==> text::trimmed_end(s).first() == s.first(),
    decreases s.len(),
{
    if s.len() > 0 && text::is_white_space(s.last()) {
        let rest = lemma_end(s.drop_last());
        let cut = rest.push(s.last());
        assert(s =~= s.drop_last().push(s.last()));
        assert(s =~= text::trimmed_end(s) + cut);
        cut
    } else {
        assert(s =~= s + Seq::<char>::empty());
        Seq::empty()
    }
}

/// Trimming cuts white space from the two ends and nothing else, and leaves none there.
/// The two results are what was cut.
pub proof fn trimming_cuts_white_space_at_the_ends(s: Seq<char>) -> (r: (Seq<char>, Seq<char>))
    ensures
        s == r.0 + text::trimmed(s) + r.1,
        blank(r.0),
        blank(r.1),
        text::trimmed(s).len() > 0 ==> !text::is_white_space(text::trimmed(s).first())
            && !text::is_white_space(text::trimmed(s).last()),
{
    let a = lemma_start(s);
    let b = lemma_end(text::trimmed_start(s));
    assert(s =~= a + text::trimmed(s) + b);
    (a, b)
}

/// A text whose ends are not white space is left alone by trimming, and nothing is left
/// of a blank one.
pub proof fn trimmed_texts_stay(s: Seq<char>)
    ensures
        s.len() > 0 && !text::is_white_space(s.first()) && !text::is_white_space(s.last())
            ==> text::trimmed(s) == s,
        blank(s) ==> text::trimmed(s).len() == 0,
        text::trimmed(text::trimmed(s)) == text::trimmed(s),
{
    let (a, b) = trimming_cuts_white_space_at_the_ends(s);
    if blank(s) && text::trimmed(s).len() > 0 {
        assert(s[a.len() as int] == text::trimmed(s).first());
    }
}

/// The visible characters of ASCII are not white space; blanks, tabs and line breaks are.
pub proof fn visible_characters_are_not_white_space(c: char)
    ensures
        '!' <= c <= '~' ==> !text::is_white_space(c),
        c == ' ' || c == '\t' || c == '\n' || c == '\r' ==> text::is_white_space(c),
        'À' <= c <= 'ÿ' || '\u{4e00}' <= c <= '\u{9fff}' ==> !text::is_white_space(c),
{
}

/// What follows a prefix is what was put behind it, and there is nothing to give for a text
/// that does not begin with the prefix.
pub proof fn stripping_undoes_prefixing(prefix: Seq<char>, rest: Seq<char>, s: Seq<char>)
    ensures
        text::stripped(prefix + rest, prefix) == Some(rest),
        text::stripped(s, prefix) matches Some(t) ==> s == prefix + t,
{
    assert((prefix + rest).take(prefix.len() as int) =~= prefix);
    assert((prefix + rest).skip(prefix.len() as int) =~= rest);
    if text::stripped(s, prefix) is Some {
        assert(s =~= s.take(prefix.len() as int) + s.skip(prefix.len() as int));
    }
}

/// A part is found wherever something stands before and behind it, and where it is found
/// the text falls into what stands before it, the part, and what stands behind it.
pub proof fn parts_are_found(hay: Seq<char>, a: Seq<char>, needle: Seq<char>, b: Seq<char>) -> (r: (
    Seq<char>,
    Seq<char>,
))
    ensures
        text::has_part(a + needle + b, needle),
        text::has_part(hay, needle) ==> hay == r.0 + needle + r.1,
{
    let whole = a + needle + b;
    assert(whole.subrange(a.len() as int, a.len() as int + needle.len()) =~= needle);
    let i = choose|i: int|
        0 <= i <= hay.len() - needle.len() && #[trigger] hay.subrange(i, i + needle.len())
            == needle;
    if text::has_part(hay, needle) {
        let r = (hay.take(i), hay.skip(i + needle.len()));
        assert(hay =~= r.0 + needle + r.1);
        r
    } else {
        (a, b)
    }
}

/// A number is read digit by digit: a single digit is its value, one more digit multiplies
/// by ten and adds, and the signs do what they say. Nothing else is a number.
pub proof fn numbers_are_read_digit_by_digit(s: Seq<char>, c: char, n: i64)
    requires
        '0' <= c <= '9',
        s.len() > 0,
        '0' <= s[0] <= '9',
    ensures
        text::parsed_i64(seq![c]) == Some((c as int - '0' as int) as i64),
        text::parsed_i64(s) == Some(n) && 10 * n + (c as int - '0' as int) <= i64::MAX
            ==> text::parsed_i64(s.push(c)) == Some((10 * n + (c as int - '0' as int)) as i64),
        text::parsed_i64(s) == Some(n) && 10 * n + (c as int - '0' as int) > i64::MAX
            ==> text::parsed_i64(s.push(c)) is None,
        text::parsed_i64(s) == Some(n) ==> text::parsed_i64(seq!['+'] + s) == Some(n)
            && text::parsed_i64(seq!['-'] + s) == Some((-n) as i64),
{
    let one = seq![c];
    assert(one.drop_last() =~= Seq::empty());
    assert(text::digits_value(one.drop_last()) == 0);
    assert(text::signed_body(one) == one);
    assert(text::signed_body(s) == s);
    let more = s.push(c);
    assert(more[0] == s[0]);
    assert(more.drop_last() =~= s);
    if text::all_digits(s) {
        assert forall|i: int| 0 <= i < more.len() implies text::is_digit(#[trigger] more[i]) by {
            if i < s.len() {
                assert(more[i] == s[i]);
            }
        }
    }
    if text::parsed_i64(s) == Some(n) {
        lemma_not_negative(s);
    }
    assert((seq!['+'] + s).drop_first() =~= s);
    assert((seq!['-'] + s).drop_first() =~= s);
}

proof fn lemma_not_negative(s: Seq<char>)
    requires
        text::all_digits(s),
    ensures
        0 <= text::digits_value(s),
    decreases s.len(),
{
    if s.len() > 0 {
        assert(text::is_digit(s[s.len() - 1]));
        assert forall|i: int| 0 <= i < s.drop_last().len() implies text::is_digit(
            #[trigger] s.drop_last()[i],
        ) by {
            assert(s.drop_last()[i] == s[i]);
        }
        lemma_not_negative(s.drop_last());
    }
}

/// A text is no number where it is empty, a sign alone, or holds anything but digits
/// behind an optional sign.
pub proof fn other_texts_are_no_numbers(s: Seq<char>, i: int)
    ensures
        s.len() == 0 ==> text::parsed_i64(s) is None,
        s.len() == 1 && !('0' <= s[0] <= '9') ==> text::parsed_i64(s) is None,
        0 < i < s.len() && !('0' <= s[i] <= '9') ==> text::parsed_i64(s) is None,
        s.len() > 0 && s[0] != '+' && s[0] != '-' && !('0' <= s[0] <= '9') ==> text::parsed_i64(
            s,
        ) is None,
{
    let body = text::signed_body(s);
    if 0 < i < s.len() && !('0' <= s[i] <= '9') {
        if body == s {
            assert(!text::is_digit(body[i]));
        } else {
            assert(body[i - 1] == s[i]);
            assert(!text::is_digit(body[i - 1]));
        }
    }
    if s.len() > 0 && s[0] != '+' && s[0] != '-' && !('0' <= s[0] <= '9') {
        assert(!text::is_digit(body[0]));
    }
}

/// A number is written without leading zeros, and with a minus sign exactly where it is
/// negative. (That what is written denotes the number is
/// [`text::parsing_undoes_writing`].)
pub proof fn numbers_are_written_plainly(n: i64)
    ensures
        n >= 0 ==> text::signed_decimal(n as int) == text::decimal_digits(n as int),
        n < 0 ==> text::signed_decimal(n as int).len() > 1 && text::signed_decimal(n as int)[0]
            == '-',
        n >= 0 ==> text::decimal_digits(n as int).len() > 0 && '0' <= text::decimal_digits(
            n as int,
        )[0] <= '9',
        n >= 10 ==> text::decimal_digits(n as int)[0] != '0',
        0 <= n < 10 ==> text::decimal_digits(n as int).len() == 1,
{
    reveal_strlit("-");
    if n >= 0 {
        lemma_first_digit(n as int);
    } else {
        lemma_first_digit(-(n as int));
    }
}

proof fn lemma_first_digit(n: int)
    requires
        0 <= n,
    ensures
        text::decimal_digits(n).len() > 0,
        '0' <= text::decimal_digits(n)[0] <= '9',
        n >= 1 ==> text::decimal_digits(n)[0] != '0',
    decreases n,
{
    if n >= 10 {
        lemma_first_digit(n / 10);
        assert(text::decimal_digits(n)[0] == text::decimal_digits(n / 10)[0]);
    }
}

} // verus!
