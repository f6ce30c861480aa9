//! Laws of numerals, substrings, trimming and upper-casing.
use vstd::prelude::*;
use crate::text::{
    capital, contains_text, decimal, digit_char, is_white_space, occurs_at, text_of, trimmed,
    upper_case,
};

verus! {

/// The ten digits.
pub proof fn digits_are_the_ten_digits(d: nat)
    requires
        d < 10,
    ensures
        digit_char(d) == seq!['0', '1', '2', '3', '4', '5', '6', '7', '8', '9'][d as int],
{
}

/// The numeral of a single digit is that digit.
pub proof fn numeral_of_a_digit(d: nat)
    requires
        d < 10,
    ensures
        decimal(d) == seq![seq!['0', '1', '2', '3', '4', '5', '6', '7', '8', '9'][d as int]],
{
}

/// Ten times a number and a digit more is written as the number and then the digit.
pub proof fn numeral_grows_by_a_digit(n: nat, d: nat)
    requires
        n > 0,
        d < 10,
    ensures
        decimal(10 * n + d) == decimal(n).push(
            seq!['0', '1', '2', '3', '4', '5', '6', '7', '8', '9'][d as int],
        ),
{
    assert((10 * n + d) / 10 == n && (10 * n + d) % 10 == d);
}

/// A part is found wherever it stands between two others.
pub proof fn part_in_the_middle_is_found(front: Seq<char>, part: Seq<char>, back: Seq<char>)
    ensures
        contains_text(front + part + back, part),
{
    let text = front + part + back;
    let at = front.len() as int;
    assert(text.subrange(at, at + part.len()) == part);
    assert(occurs_at(text, part, at));
}

/// What is found stands between two others.
pub proof fn found_part_is_in_the_middle(text: Seq<char>, part: Seq<char>)
    requires
        contains_text(text, part),
    ensures
        exists|front: Seq<char>, back: Seq<char>| text == #[trigger] (front + part + back),
{
    let at = choose|at: int| #[trigger] occurs_at(text, part, at);
    let front = text.take(at);
    let back = text.skip(at + part.len());
    assert(text == front + part + back);
}

/// White space is exactly this.
pub proof fn white_space_characters(c: char)
    ensures
        is_white_space(c) <==> (c == '\t' || c == '\n' || c == '\u{b}' || c == '\u{c}' || c == '\r'
            || c == ' ' || c == '\u{85}' || c == '\u{a0}' || c == '\u{1680}' || ('\u{2000}' <= c && c
            <= '\u{200a}') || c == '\u{2028}' || c == '\u{2029}' || c == '\u{202f}' || c == '\u{205f}'
            || c == '\u{3000}'),
{
}

/// A text is its trimmed form between two stretches of white space, and the
/// trimmed form neither begins nor ends with white space.
pub proof fn trimming_takes_white_space_off(text: Seq<char>) -> (ends: (Seq<char>, Seq<char>))
    ensures
        text == ends.0 + trimmed(text) + ends.1,
        forall|i: int| 0 <= i < ends.0.len() ==> is_white_space(#[trigger] ends.0[i]),
        forall|i: int| 0 <= i < ends.1.len() ==> is_white_space(#[trigger] ends.1[i]),
        trimmed(text).len() > 0 ==> !is_white_space(trimmed(text).first()) && !is_white_space(
            trimmed(text).last(),
        ),
    decreases text.len(),
{
    if text.len() == 0 {
        (Seq::empty(), Seq::empty())
    } else if is_white_space(text.first()) {
        let (front, back) = trimming_takes_white_space_off(text.drop_first());
        let more = seq![text.first()] + front;
        assert(text == seq![text.first()] + text.drop_first());
        assert(text == more + trimmed(text) + back);
        (more, back)
    } else if is_white_space(text.last()) {
        let (front, back) = trimming_takes_white_space_off(text.drop_last());
        let more = back.push(text.last());
        assert(text == text.drop_last().push(text.last()));
        assert(text == front + trimmed(text) + more);
        (front, more)
    } else {
        assert(text == Seq::<char>::empty() + text + Seq::<char>::empty());
        (Seq::empty(), Seq::empty())
    }
}

/// Trimming gives back what stands between two stretches of white space, where it
/// is empty or neither begins nor ends with white space.
pub proof fn trimming_gives_what_is_between(front: Seq<char>, inner: Seq<char>, back: Seq<char>)
    requires
        forall|i: int| 0 <= i < front.len() ==> is_white_space(#[trigger] front[i]),
        forall|i: int| 0 <= i < back.len() ==> is_white_space(#[trigger] back[i]),
        inner.len() > 0 ==> !is_white_space(inner.first()) && !is_white_space(inner.last()),
    ensures
        trimmed(front + inner + back) == inner,
    decreases front.len() + back.len(),
{
    let text = front + inner + back;
    if front.len() > 0 {
        let rest = front.drop_first();
        assert(text.first() == front[0]);
        assert(text.drop_first() == rest + inner + back);
        assert forall|i: int| 0 <= i < rest.len() implies is_white_space(#[trigger] rest[i]) by {
            assert(rest[i] == front[i + 1]);
        }
        trimming_gives_what_is_between(rest, inner, back);
    } else if back.len() > 0 {
        let rest = back.drop_last();
        assert(text.last() == back.last());
        assert forall|i: int| 0 <= i < rest.len() implies is_white_space(#[trigger] rest[i]) by {
            assert(rest[i] == back[i]);
        }
        if inner.len() > 0 {
            assert(text.first() == inner.first());
            assert(text.drop_last() == front + inner + rest);
            trimming_gives_what_is_between(front, inner, rest);
        } else {
            assert(text == back && text.first() == back[0]);
            let after = back.drop_first();
            assert forall|i: int| 0 <= i < after.len() implies is_white_space(#[trigger] after[i]) by {
                assert(after[i] == back[i + 1]);
            }
            assert(text.drop_first() == front + inner + after);
            trimming_gives_what_is_between(front, inner, after);
        }
    } else {
        assert(text == inner);
    }
}

/// Letters from `a` to `z` become their capitals, at the same distance from each
/// other; other ASCII characters stay; the rest follows the table of Unicode.
pub proof fn capitals(c: char)
    ensures
        'a' <= c && c <= 'z' ==> capital(c).len() == 1 && capital(c)[0] as u32 - 'A' as u32 == c as u32
            - 'a' as u32,
        c <= '\u{7f}' && !('a' <= c && c <= 'z') ==> capital(c) == seq![c],
        c > '\u{7f}' ==> capital(c) == upper_case(c),
{
}

/// The characters of an optional text are those of the text.
pub proof fn optional_text(text: Option<String>)
    ensures
        text is Some <==> text_of(text) is Some,
        text matches Some(t) ==> text_of(text) == Some(t@),
{
}

} // verus!
