//! Text that is built piece by piece.

use vstd::prelude::*;

verus! {

/// The digit that stands for `d`, for `d` below ten.
pub open spec fn digit(d: nat) -> char {
    ('0' as nat + d) as char
}

/// `n` in decimal, without leading zeros.
pub open spec fn decimal(n: nat) -> Seq<char>
    decreases n,
{
    if n < 10 {
        seq![digit(n)]
    } else {
        decimal(n / 10).push(digit(n % 10))
    }
}

/// The negative sign where there is one, then the magnitude.
pub open spec fn signed_decimal(n: int) -> Seq<char> {
    if n < 0 {
        seq!['-'] + decimal((-n) as nat)
    } else {
        decimal(n as nat)
    }
}

fn digit_text(d: u64) -> (text: &'static str)
    requires
        d < 10,
    ensures
        text@ == seq![digit(d as nat)],
{
    proof {
        reveal_strlit("0");
        reveal_strlit("1");
        reveal_strlit("2");
        reveal_strlit("3");
        reveal_strlit("4");
        reveal_strlit("5");
        reveal_strlit("6");
        reveal_strlit("7");
        reveal_strlit("8");
        reveal_strlit("9");
    }
    match d {
        0 => "0",
        1 => "1",
        2 => "2",
        3 => "3",
        4 => "4",
        5 => "5",
        6 => "6",
        7 => "7",
        8 => "8",
        _ => "9",
    }
}

pub fn append_decimal(text: &mut String, n: u64)
    ensures
        final(text)@ == old(text)@ + decimal(n as nat),
    decreases n,
{
    if n >= 10 {
        append_decimal(text, n / 10);
    }
    let ghost before = text@;
    text.append(digit_text(n % 10));
    assert(text@ =~= old(text)@ + decimal(n as nat));
}

pub fn append_signed(text: &mut String, n: i64)
    ensures
        final(text)@ == old(text)@ + signed_decimal(n as int),
{
    if n < 0 {
        proof {
            reveal_strlit("-");
        }
        text.append("-");
        let magnitude: u64 = if n == i64::MIN {
            0x8000_0000_0000_0000
        } else {
            (-n) as u64
        };
        append_decimal(text, magnitude);
        assert(text@ =~= old(text)@ + signed_decimal(n as int));
    } else {
        append_decimal(text, n as u64);
    }
}

pub fn decimal_text(n: u64) -> (text: String)
    ensures
        text@ == decimal(n as nat),
{
    let mut text = String::new();
    append_decimal(&mut text, n);
    assert(text@ =~= decimal(n as nat));
    text
}

/// Whether two texts are the same.
pub fn same_text(a: &str, b: &str) -> (same: bool)
    ensures
        same == (a@ == b@),
{
    a.to_owned() == b.to_owned()
}

/// An ASCII capital as its small letter; any other character as it is.
pub open spec fn ascii_lower(c: char) -> char {
    if 'A' <= c && c <= 'Z' {
        (c as u32 + 32) as char
    } else {
        c
    }
}

/// Whether two texts differ at most in the case of their ASCII letters.
pub open spec fn same_ignoring_case(a: Seq<char>, b: Seq<char>) -> bool {
    &&& a.len() == b.len()
    &&& forall|i: int| 0 <= i < a.len() ==> ascii_lower(#[trigger] a[i]) == ascii_lower(b[i])
}

/// `str::eq_ignore_ascii_case` of the standard library: whether the texts match when
/// every ASCII capital is read as its small letter.
pub assume_specification[ str::eq_ignore_ascii_case ](a: &str, b: &str) -> (same: bool)
    ensures
        same == same_ignoring_case(a@, b@),
;

/// Whether `part` stands in `text` at `at`.
pub open spec fn stands_at(text: Seq<char>, part: Seq<char>, at: int) -> bool {
    0 <= at && at + part.len() <= text.len() && text.subrange(at, at + part.len()) == part
}

/// Whether `part` stands somewhere in `text`.
pub open spec fn holds(text: Seq<char>, part: Seq<char>) -> bool {
    exists|at: int| #[trigger] stands_at(text, part, at)
}

fn chars_of(text: &str) -> (chars: Vec<char>)
    ensures
        chars@ == text@,
{
    let mut chars: Vec<char> = Vec::new();
    for c in iter: text.chars()
        invariant
            chars@ == iter.seq().take(iter.index() as int),
            iter.seq() == text@,
    {
        assert(iter.seq().take(iter.index() as int).push(c) =~= iter.seq().take(
            iter.index() + 1,
        ));
        chars.push(c);
    }
    assert(chars@ =~= text@);
    chars
}

fn char_stands_at(text: &Vec<char>, part: &Vec<char>, at: usize) -> (answer: bool)
    requires
        at + part@.len() <= text@.len(),
    ensures
        answer == stands_at(text@, part@, at as int),
{
    let len = part.len();
    let text_len = text.len();
    let mut i: usize = 0;
    while i < len
        invariant
            len == part@.len(),
            text_len == text@.len(),
            i <= len,
            at + len <= text_len,
            forall|j: int| 0 <= j < i ==> text@[at + j] == #[trigger] part@[j],
        decreases len - i,
    {
        if text[at + i] != part[i] {
            assert(text@.subrange(at as int, at + len)[i as int] != part@[i as int]);
            return false;
        }
        i = i + 1;
    }
    assert(text@.subrange(at as int, at + len) =~= part@);
    true
}

/// Whether `part` stands somewhere in `text`.
pub fn contains_text(text: &str, part: &str) -> (answer: bool)
    ensures
        answer == holds(text@, part@),
{
    let text_chars = chars_of(text);
    let part_chars = chars_of(part);
    let part_len = part_chars.len();
    let text_len = text_chars.len();
    if part_len > text_len {
        return false;
    }
    let mut at: usize = 0;
    while at <= text_len - part_len
        invariant
            text_len == text_chars@.len(),
            part_len == part_chars@.len(),
            part_len <= text_len,
            text_chars@ == text@,
            part_chars@ == part@,
            at <= text_len - part_len + 1,
            forall|j: int| 0 <= j < at ==> !#[trigger] stands_at(text@, part@, j),
        decreases text_len - part_len + 1 - at,
    {
        if char_stands_at(&text_chars, &part_chars, at) {
            return true;
        }
        if at == text_len - part_len {
            return false;
        }
        at = at + 1;
    }
    false
}

/// A copy of the text.
pub fn copy_text(text: &str) -> (copy: String)
    ensures
        copy@ == text@,
{
    text.to_owned()
}

/// The number that a row of digits stands for.
pub open spec fn digits_value(digits: Seq<char>) -> int {
    digits.fold_left(0, |value: int, digit: char| 10 * value + (digit as int - '0' as int))
}

/// A number in decimal is made of digits, the first of which is not zero unless it is the
/// only one, and they stand for the number.
pub proof fn law_decimals_stand_for_their_numbers(n: nat)
    ensures
        decimal(n).len() > 0,
        forall|i: int| 0 <= i < decimal(n).len() ==> '0' <= #[trigger] decimal(n)[i] <= '9',
        digits_value(decimal(n)) == n,
        decimal(n)[0] == '0' ==> n == 0 && decimal(n).len() == 1,
    decreases n,
{
    if n >= 10 {
        law_decimals_stand_for_their_numbers(n / 10);
        assert(decimal(n).drop_last() =~= decimal(n / 10));
        assert(decimal(n)[0] == decimal(n / 10)[0]);
    } else {
        assert(decimal(n).drop_last() =~= seq![]);
        reveal_with_fuel(Seq::fold_left, 2);
    }
}

/// A negative number has its sign before the digits of its magnitude, and no other has one.
pub proof fn law_signs_come_first(n: int)
    ensures
        n < 0 ==> signed_decimal(n)[0] == '-' && digits_value(signed_decimal(n).skip(1)) == -n,
        n >= 0 ==> signed_decimal(n)[0] != '-' && digits_value(signed_decimal(n)) == n,
{
    if n < 0 {
        law_decimals_stand_for_their_numbers((-n) as nat);
        assert(signed_decimal(n).skip(1) =~= decimal((-n) as nat));
    } else {
        law_decimals_stand_for_their_numbers(n as nat);
    }
}

} // verus!
