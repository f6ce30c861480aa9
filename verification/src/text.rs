//! Text building blocks: decimal numerals, substring tests, trimming and
//! upper-casing, all described over the sequence of characters of a string.
use vstd::prelude::*;
use vstd::string::*;

verus! {

/// The character of a single decimal digit.
pub open spec fn digit_char(d: nat) -> char
    recommends
        d < 10,
{
    (48 + d) as char
}

/// The decimal numeral of `n`: no sign, no leading zero, `0` for zero.
pub open spec fn decimal(n: nat) -> Seq<char>
    decreases n,
{
    if n < 10 {
        seq![digit_char(n)]
    } else {
        decimal(n / 10).push(digit_char(n % 10))
    }
}

/// The characters of an optional text.
pub open spec fn text_of(text: Option<String>) -> Option<Seq<char>> {
    match text {
        Some(t) => Some(t@),
        None => None,
    }
}

/// `part` stands in `text` at position `at`.
pub open spec fn occurs_at(text: Seq<char>, part: Seq<char>, at: int) -> bool {
    &&& 0 <= at
    &&& at + part.len() <= text.len()
    &&& text.subrange(at, at + part.len()) == part
}

/// `part` stands somewhere in `text`; the empty text stands everywhere.
pub open spec fn contains_text(text: Seq<char>, part: Seq<char>) -> bool {
    exists|at: int| #[trigger] occurs_at(text, part, at)
}

/// The characters of the Unicode property `White_Space`.
pub open spec fn is_white_space(c: char) -> bool {
    let u = c as u32;
    ||| 0x9 <= u <= 0xd
    ||| u == 0x20
    ||| u == 0x85
    ||| u == 0xa0
    ||| u == 0x1680
    ||| 0x2000 <= u <= 0x200a
    ||| u == 0x2028
    ||| u == 0x2029
    ||| u == 0x202f
    ||| u == 0x205f
    ||| u == 0x3000
}

/// `text` without the white space at its two ends.
pub open spec fn trimmed(text: Seq<char>) -> Seq<char>
    decreases text.len(),
{
    if text.len() == 0 {
        text
    } else if is_white_space(text.first()) {
        trimmed(text.drop_first())
    } else if is_white_space(text.last()) {
        trimmed(text.drop_last())
    } else {
        text
    }
}

/// What `char::to_uppercase` spells: one or more characters, by the case
/// mapping of Unicode.
pub uninterp spec fn upper_case(c: char) -> Seq<char>;

/// The upper-case form of an ASCII character.
pub open spec fn ascii_upper_case(c: char) -> char
    recommends
        (c as u32) < 0x80,
{
    if 'a' <= c && c <= 'z' {
        (c as u32 - 0x20) as char
    } else {
        c
    }
}

/// The upper-case form of a character.
pub open spec fn capital(c: char) -> Seq<char> {
    if (c as u32) < 0x80 {
        seq![ascii_upper_case(c)]
    } else {
        upper_case(c)
    }
}

/// Calls `char::to_uppercase` and collects the characters that it yields. Those
/// of ASCII are stated: `a` to `z` become `A` to `Z`, and the others, which have
/// no upper-case mapping, stay. For the rest the case table itself is not
/// stated; the result depends on the character alone.
#[verifier::external_body]
pub(crate) fn upper_case_text(c: char) -> (upper: String)
    ensures
        (c as u32) < 0x80 ==> upper@ == seq![ascii_upper_case(c)],
        (c as u32) >= 0x80 ==> upper@ == upper_case(c),
{
    c.to_uppercase().to_string()
}

fn digit_text(d: u128) -> (text: &'static str)
    requires
        d < 10,
    ensures
        text@ == seq![digit_char(d as nat)],
{
    proof {
        reveal_strlit("0");
        reveal_strlit("1");
        reveal_strlit("2");
        reveal_strlit("3");
        reveal_strlit("4");
        reveal_strlit("5");
        reveal_strlit("6");
        reveal_strlit("7");
        reveal_strlit("8");
        reveal_strlit("9");
    }
    if d == 0 {
        "0"
    } else if d == 1 {
        "1"
    } else if d == 2 {
        "2"
    } else if d == 3 {
        "3"
    } else if d == 4 {
        "4"
    } else if d == 5 {
        "5"
    } else if d == 6 {
        "6"
    } else if d == 7 {
        "7"
    } else if d == 8 {
        "8"
    } else {
        "9"
    }
}

/// The decimal numeral of `n`.
pub fn decimal_text(n: u128) -> (text: String)
    ensures
        text@ == decimal(n as nat),
    decreases n,
{
    if n < 10 {
        digit_text(n).to_owned()
    } else {
        let mut text = decimal_text(n / 10);
        text.append(digit_text(n % 10));
        text
    }
}

/// True when the two texts hold the same characters.
pub fn same_text(a: &str, b: &str) -> (same: bool)
    ensures
        same == (a@ == b@),
{
    a.to_owned() == b.to_owned()
}

/// True when `part` stands somewhere in `text`.
pub fn text_contains(text: &str, part: &str) -> (found: bool)
    ensures
        found == contains_text(text@, part@),
{
    let len: usize = text.unicode_len();
    let part_len: usize = part.unicode_len();
    if part_len > len {
        return false;
    }
    let last: usize = len - part_len;
    let mut at: usize = 0;
    loop
        invariant
            len == text@.len(),
            part_len == part@.len(),
            last == len - part_len,
            at <= last,
            forall|i: int| 0 <= i < at ==> !#[trigger] occurs_at(text@, part@, i),
        decreases last - at,
    {
        if same_text(text.substring_char(at, at + part_len), part) {
            assert(occurs_at(text@, part@, at as int));
            return true;
        }
        if at == last {
            return false;
        }
        at = at + 1;
    }
}

fn white_space(c: char) -> (white: bool)
    ensures
        white == is_white_space(c),
{
    let u: u32 = c as u32;
    (0x9 <= u && u <= 0xd) || u == 0x20 || u == 0x85 || u == 0xa0 || u == 0x1680 || (0x2000 <= u && u
        <= 0x200a) || u == 0x2028 || u == 0x2029 || u == 0x202f || u == 0x205f || u == 0x3000
}

/// `text` without the white space at its two ends.
pub fn trim_text(text: &str) -> (inner: &str)
    ensures
        inner@ == trimmed(text@),
{
    let mut start: usize = 0;
    let mut end: usize = text.unicode_len();
    assert(text@.subrange(0, end as int) == text@);
    while start < end && white_space(text.get_char(start))
        invariant
            start <= end == text@.len(),
            trimmed(text@.subrange(start as int, end as int)) == trimmed(text@),
        ensures
            start <= end == text@.len(),
            trimmed(text@.subrange(start as int, end as int)) == trimmed(text@),
            start < end ==> !is_white_space(text@[start as int]),
        decreases end - start,
    {
        let ghost rest = text@.subrange(start as int, end as int);
        assert(rest.drop_first() == text@.subrange(start + 1, end as int));
        start = start + 1;
    }
    while start < end && white_space(text.get_char(end - 1))
        invariant
            start <= end <= text@.len(),
            start < end ==> !is_white_space(text@[start as int]),
            trimmed(text@.subrange(start as int, end as int)) == trimmed(text@),
        ensures
            start <= end <= text@.len(),
            start < end ==> !is_white_space(text@[start as int]),
            start < end ==> !is_white_space(text@[end - 1]),
            trimmed(text@.subrange(start as int, end as int)) == trimmed(text@),
        decreases end - start,
    {
        let ghost rest = text@.subrange(start as int, end as int);
        assert(rest.drop_last() == text@.subrange(start as int, end - 1));
        end = end - 1;
    }
    text.substring_char(start, end)
}

/// A numeral holds digits only.
pub proof fn decimal_is_digits(n: nat, i: int)
    requires
        0 <= i < decimal(n).len(),
    ensures
        exists|d: nat| d < 10 && decimal(n)[i] == #[trigger] digit_char(d),
    decreases n,
{
    if n < 10 {
        assert(decimal(n)[i] == digit_char(n));
    } else if i < decimal(n / 10).len() {
        decimal_is_digits(n / 10, i);
    } else {
        assert(decimal(n)[i] == digit_char(n % 10));
    }
}

/// Different numbers have different numerals.
pub proof fn decimal_is_injective(a: nat, b: nat)
    requires
        decimal(a) == decimal(b),
    ensures
        a == b,
    decreases a,
{
    decimal_ends_in_last_digit(a);
    decimal_ends_in_last_digit(b);
    decimal_is_nonempty(a / 10);
    decimal_is_nonempty(b / 10);
    assert(a % 10 == b % 10);
    if a >= 10 && b >= 10 {
        assert(decimal(a / 10) == decimal(a).drop_last());
        assert(decimal(b / 10) == decimal(b).drop_last());
        decimal_is_injective(a / 10, b / 10);
    }
}

proof fn decimal_ends_in_last_digit(n: nat)
    ensures
        decimal(n).last() == digit_char(n % 10),
{
    if n < 10 {
        assert(n % 10 == n);
    }
}

/// A numeral has at least one digit.
pub proof fn decimal_is_nonempty(n: nat)
    ensures
        decimal(n).len() > 0,
{
}

} // verus!
