//! Numbers as text: the digits that the emitted files hold, written and read
//! back.

use vstd::prelude::*;
use vstd::string::*;

verus! {

/// The character for one decimal digit.
pub open spec fn decimal_digit(d: int) -> char {
    (48 + d) as char
}

/// The character for one hexadecimal digit, letters in upper case.
pub open spec fn hex_digit(d: int) -> char {
    if d < 10 {
        (48 + d) as char
    } else {
        (55 + d) as char
    }
}

/// `n` in decimal, most significant digit first, without leading zeros.
pub open spec fn decimal_digits(n: nat) -> Seq<char>
    decreases n,
{
    if n < 10 {
        seq![decimal_digit(n as int)]
    } else {
        decimal_digits(n / 10).push(decimal_digit((n % 10) as int))
    }
}

/// `n` in hexadecimal, most significant digit first, without leading zeros.
pub open spec fn hex_digits(n: nat) -> Seq<char>
    decreases n,
{
    if n < 16 {
        seq![hex_digit(n as int)]
    } else {
        hex_digits(n / 16).push(hex_digit((n % 16) as int))
    }
}

/// `n` as a hexadecimal literal: `0x`, then the digits in upper case.
pub open spec fn hex_literal(n: nat) -> Seq<char> {
    seq!['0', 'x'] + hex_digits(n)
}

/// Whether `c` is one of `0` to `9`.
pub open spec fn is_decimal_digit(c: char) -> bool {
    48 <= c as int <= 57
}

/// Whether every character of `s` is a decimal digit.
pub open spec fn all_decimal_digits(s: Seq<char>) -> bool {
    forall|i: int| 0 <= i < s.len() ==> is_decimal_digit(#[trigger] s[i])
}

/// How many decimal digits `s` begins with.
pub open spec fn leading_digits(s: Seq<char>) -> nat
    decreases s.len(),
{
    if s.len() > 0 && is_decimal_digit(s[0]) {
        1 + leading_digits(s.skip(1))
    } else {
        0
    }
}

/// The number that the digit string `s` denotes in decimal.
pub open spec fn decimal_value(s: Seq<char>) -> nat
    decreases s.len(),
{
    if s.len() == 0 {
        0
    } else {
        (decimal_value(s.drop_last()) * 10 + (s.last() as int - 48)) as nat
    }
}

fn decimal_digit_str(d: u64) -> (s: &'static str)
    requires
        d < 10,
    ensures
        s@ == seq![decimal_digit(d as int)],
{
    proof {
        reveal_strlit("0");
        reveal_strlit("1");
        reveal_strlit("2");
        reveal_strlit("3");
        reveal_strlit("4");
        reveal_strlit("5");
        reveal_strlit("6");
        reveal_strlit("7");
        reveal_strlit("8");
        reveal_strlit("9");
    }
    let s = match d {
        0 => "0",
        1 => "1",
        2 => "2",
        3 => "3",
        4 => "4",
        5 => "5",
        6 => "6",
        7 => "7",
        8 => "8",
        _ => "9",
    };
    assert(s@ =~= seq![decimal_digit(d as int)]);
    s
}

fn hex_digit_str(d: u64) -> (s: &'static str)
    requires
        d < 16,
    ensures
        s@ == seq![hex_digit(d as int)],
{
    if d < 10 {
        decimal_digit_str(d)
    } else {
        proof {
            reveal_strlit("A");
            reveal_strlit("B");
            reveal_strlit("C");
            reveal_strlit("D");
            reveal_strlit("E");
            reveal_strlit("F");
        }
        let s = match d {
            10 => "A",
            11 => "B",
            12 => "C",
            13 => "D",
            14 => "E",
            _ => "F",
        };
        assert(s@ =~= seq![hex_digit(d as int)]);
        s
    }
}

/// Appends `n` in decimal to `out`.
pub fn append_decimal(out: &mut String, n: u64)
    ensures
        final(out)@ == old(out)@ + decimal_digits(n as nat),
    decreases n,
{
    if n >= 10 {
        append_decimal(out, n / 10);
    }
    out.append(decimal_digit_str(n % 10));
    assert(out@ =~= old(out)@ + decimal_digits(n as nat));
}

fn append_hex_digits(out: &mut String, n: u64)
    ensures
        final(out)@ == old(out)@ + hex_digits(n as nat),
    decreases n,
{
    if n >= 16 {
        append_hex_digits(out, n / 16);
    }
    out.append(hex_digit_str(n % 16));
    assert(out@ =~= old(out)@ + hex_digits(n as nat));
}

/// Appends `n` as a hexadecimal literal to `out`.
pub fn append_hex_literal(out: &mut String, n: u64)
    ensures
        final(out)@ == old(out)@ + hex_literal(n as nat),
{
    proof {
        reveal_strlit("0x");
    }
    out.append("0x");
    append_hex_digits(out, n);
    assert(out@ =~= old(out)@ + hex_literal(n as nat));
}

/// Whether `literal` stands in `text` at `at`.
pub open spec fn stands_at(text: Seq<char>, at: int, literal: Seq<char>) -> bool {
    &&& 0 <= at
    &&& at + literal.len() <= text.len()
    &&& text.subrange(at, at + literal.len()) == literal
}

/// The decimal number that stands in `text` at `at`, with the position behind
/// it: the longest run of digits there, where there is one and it denotes a
/// number that fits 64 bits.
pub open spec fn number_at(text: Seq<char>, at: int) -> Option<(u64, int)> {
    if 0 <= at <= text.len() {
        let count = leading_digits(text.skip(at));
        let value = decimal_value(text.subrange(at, at + count));
        if count > 0 && value <= u64::MAX {
            Some((value as u64, at + count))
        } else {
            None
        }
    } else {
        None
    }
}

/// The digits that a text begins with are digits, and what follows them is
/// none.
pub proof fn lemma_leading_digits(s: Seq<char>)
    ensures
        leading_digits(s) <= s.len(),
        all_decimal_digits(s.take(leading_digits(s) as int)),
        leading_digits(s) < s.len() ==> !is_decimal_digit(s[leading_digits(s) as int]),
    decreases s.len(),
{
    if s.len() > 0 && is_decimal_digit(s[0]) {
        let rest = s.skip(1);
        lemma_leading_digits(rest);
        let count = leading_digits(s);
        assert forall|i: int| 0 <= i < count implies is_decimal_digit(
            #[trigger] s.take(count as int)[i],
        ) by {
            if i > 0 {
                assert(s.take(count as int)[i] == rest.take(count - 1)[i - 1]);
            }
        }
        if count < s.len() {
            assert(s[count as int] == rest[count - 1]);
        }
    }
}

/// A run of digits with no digit behind it is the whole of the leading digits.
pub proof fn lemma_leading_digits_of_run(s: Seq<char>, count: nat)
    requires
        count <= s.len(),
        all_decimal_digits(s.take(count as int)),
        count < s.len() ==> !is_decimal_digit(s[count as int]),
    ensures
        leading_digits(s) == count,
    decreases count,
{
    if count > 0 {
        assert(s[0] == s.take(count as int)[0]);
        let rest = s.skip(1);
        assert forall|i: int| 0 <= i < count - 1 implies is_decimal_digit(
            #[trigger] rest.take(count - 1)[i],
        ) by {
            assert(rest.take(count - 1)[i] == s.take(count as int)[i + 1]);
        }
        lemma_leading_digits_of_run(rest, (count - 1) as nat);
    }
}

/// A digit string denotes no less than any of its beginnings.
pub proof fn lemma_decimal_value_grows(s: Seq<char>, count: nat)
    requires
        count <= s.len(),
        all_decimal_digits(s),
    ensures
        decimal_value(s.take(count as int)) <= decimal_value(s),
    decreases s.len(),
{
    if count < s.len() {
        let init = s.drop_last();
        assert(is_decimal_digit(s[s.len() - 1]));
        assert(init.take(count as int) =~= s.take(count as int));
        lemma_decimal_value_grows(init, count);
    } else {
        assert(s.take(count as int) =~= s);
    }
}

/// The digits written for `n` are digits, at least one, and denote `n`.
pub proof fn lemma_decimal_digits_denote(n: nat)
    ensures
        decimal_digits(n).len() > 0,
        all_decimal_digits(decimal_digits(n)),
        decimal_value(decimal_digits(n)) == n,
    decreases n,
{
    if n < 10 {
        let s = decimal_digits(n);
        assert(s.drop_last() =~= Seq::<char>::empty());
        assert(decimal_value(s.drop_last()) == 0);
    } else {
        lemma_decimal_digits_denote(n / 10);
        let s = decimal_digits(n);
        assert(s.drop_last() =~= decimal_digits(n / 10));
    }
}

/// Where the digits written for `n` stand in a text and no digit follows them,
/// the number read there is `n`.
pub proof fn lemma_number_at_written(text: Seq<char>, at: int, n: u64)
    requires
        stands_at(text, at, decimal_digits(n as nat)),
        at + decimal_digits(n as nat).len() < text.len() ==> !is_decimal_digit(
            text[at + decimal_digits(n as nat).len()],
        ),
    ensures
        number_at(text, at) == Some((n, at + decimal_digits(n as nat).len())),
{
    let digits = decimal_digits(n as nat);
    let rest = text.skip(at);
    lemma_decimal_digits_denote(n as nat);
    assert(rest.take(digits.len() as int) =~= digits);
    if digits.len() < rest.len() {
        assert(rest[digits.len() as int] == text[at + digits.len()]);
    }
    lemma_leading_digits_of_run(rest, digits.len());
}

fn digit_at(text: &str, at: usize) -> (digit: Option<u64>)
    requires
        at < text@.len(),
    ensures
        digit == if is_decimal_digit(text@[at as int]) {
            Some((text@[at as int] as int - 48) as u64)
        } else {
            None
        },
{
    let code = text.get_char(at) as u32;
    if 48 <= code && code <= 57 {
        Some((code - 48) as u64)
    } else {
        None
    }
}

/// Whether `literal` stands in `text` at `at`.
pub fn literal_at(text: &str, at: usize, literal: &str) -> (found: bool)
    ensures
        found == stands_at(text@, at as int, literal@),
{
    let text_len = text.unicode_len();
    let literal_len = literal.unicode_len();
    if at > text_len || literal_len > text_len - at {
        return false;
    }
    let mut index: usize = 0;
    while index < literal_len
        invariant
            index <= literal_len,
            literal_len == literal@.len(),
            text_len == text@.len(),
            at + literal_len <= text_len,
            forall|i: int| 0 <= i < index ==> text@[at + i] == literal@[i],
        decreases literal_len - index,
    {
        if text.get_char(at + index) != literal.get_char(index) {
            assert(text@.subrange(at as int, at + literal_len)[index as int] != literal@[index as int]);
            return false;
        }
        index += 1;
    }
    assert(text@.subrange(at as int, at + literal_len) =~= literal@);
    true
}

/// Reads the decimal number that stands in `text` at `at`, and says where it
/// ends.
pub fn parse_decimal_at(text: &str, at: usize) -> (number: Option<(u64, usize)>)
    ensures
        match number {
            Some((value, end)) => number_at(text@, at as int) == Some((value, end as int)),
            None => number_at(text@, at as int) is None,
        },
{
    let len = text.unicode_len();
    if at > len {
        return None;
    }
    let ghost run = text@.skip(at as int);
    let ghost count = leading_digits(run);
    proof {
        lemma_leading_digits(run);
        assert forall|i: int| 0 <= i < count implies is_decimal_digit(
            #[trigger] text@.subrange(at as int, at + count)[i],
        ) by {
            assert(text@.subrange(at as int, at + count)[i] == run.take(count as int)[i]);
        }
    }
    let mut pos: usize = at;
    let mut value: u64 = 0;
    while pos < len
        invariant
            at <= pos <= len,
            len == text@.len(),
            run == text@.skip(at as int),
            count == leading_digits(run),
            count <= run.len(),
            all_decimal_digits(text@.subrange(at as int, at + count)),
            value == decimal_value(text@.subrange(at as int, pos as int)),
            count == (pos - at) + leading_digits(text@.skip(pos as int)),
        decreases len - pos,
    {
        let ghost here = text@.skip(pos as int);
        assert(here[0] == text@[pos as int]);
        match digit_at(text, pos) {
            None => {
                if pos == at {
                    return None;
                } else {
                    return Some((value, pos));
                }
            },
            Some(digit) => {
                proof {
                    let read = text@.subrange(at as int, pos + 1);
                    assert(read.drop_last() =~= text@.subrange(at as int, pos as int));
                    assert(read.last() == text@[pos as int]);
                    assert(here.skip(1) =~= text@.skip(pos + 1));
                    assert(text@.subrange(at as int, at + count).take(pos + 1 - at) =~= read);
                    lemma_decimal_value_grows(
                        text@.subrange(at as int, at + count),
                        (pos + 1 - at) as nat,
                    );
                }
                if value > (u64::MAX - digit) / 10 {
                    return None;
                }
                value = value * 10 + digit;
                pos += 1;
            },
        }
    }
    assert(text@.skip(pos as int).len() == 0);
    if pos == at {
        None
    } else {
        Some((value, pos))
    }
}

} // verus!
