//! Decimal numbers: how a text writes one, and how one is written.

use crate::text::chars_of;
use vstd::prelude::*;
use vstd::string::StringExecFns;

verus! {

/// The ten decimal digits.
pub open spec fn is_digit(c: char) -> bool {
    '0' <= c <= '9'
}

/// The number that a digit stands for.
pub open spec fn digit_value(c: char) -> int {
    c as u32 - '0' as u32
}

/// Whether a text holds nothing but digits.
pub open spec fn all_digits(s: Seq<char>) -> bool {
    forall|i: int| 0 <= i < s.len() ==> is_digit(#[trigger] s[i])
}

/// The number that a run of decimal digits writes.
pub open spec fn decimal_value(s: Seq<char>) -> int
    decreases s.len(),
{
    if s.len() == 0 {
        0
    } else {
        decimal_value(s.drop_last()) * 10 + digit_value(s.last())
    }
}

/// The number written by one or more digits; nothing else has a value.
pub open spec fn digits_value(s: Seq<char>) -> Option<int> {
    if s.len() > 0 && all_digits(s) {
        Some(decimal_value(s))
    } else {
        None
    }
}

/// The number written by digits after an optional `+`.
pub open spec fn unsigned_value(s: Seq<char>) -> Option<int> {
    if s.len() > 0 && s[0] == '+' {
        digits_value(s.skip(1))
    } else {
        digits_value(s)
    }
}

/// The number written by digits after an optional `+` or `-`.
pub open spec fn signed_value(s: Seq<char>) -> Option<int> {
    if s.len() > 0 && s[0] == '-' {
        match digits_value(s.skip(1)) {
            Some(v) => Some(-v),
            None => None,
        }
    } else {
        unsigned_value(s)
    }
}

/// The number that a text writes, where it fits in a `usize`.
pub open spec fn usize_value(s: Seq<char>) -> Option<usize> {
    match unsigned_value(s) {
        Some(v) => if v <= usize::MAX {
            Some(v as usize)
        } else {
            None
        },
        None => None,
    }
}

/// The number that a text writes, where it fits in an `i32`.
pub open spec fn i32_value(s: Seq<char>) -> Option<i32> {
    match signed_value(s) {
        Some(v) => if i32::MIN <= v <= i32::MAX {
            Some(v as i32)
        } else {
            None
        },
        None => None,
    }
}

/// The digit that stands for a number below ten.
pub open spec fn digit_char(d: int) -> char {
    ('0' as u8 + d) as u8 as char
}

/// The decimal digits of a number, without leading zeros.
pub open spec fn decimal_text(n: nat) -> Seq<char>
    decreases n,
{
    if n < 10 {
        seq![digit_char(n as int)]
    } else {
        decimal_text(n / 10).push(digit_char((n % 10) as int))
    }
}

/// The decimal digits of a number, after `-` when it is negative.
pub open spec fn signed_decimal_text(n: int) -> Seq<char> {
    if n < 0 {
        seq!['-'] + decimal_text((-n) as nat)
    } else {
        decimal_text(n as nat)
    }
}

/// What is written in decimal is read back as the number it was written
/// for.
pub proof fn lemma_decimal_text_reads_back(n: nat)
    ensures
        decimal_text(n).len() > 0,
        all_digits(decimal_text(n)),
        decimal_value(decimal_text(n)) == n,
        unsigned_value(decimal_text(n)) == Some(n as int),
    decreases n,
{
    let text = decimal_text(n);
    if n < 10 {
        assert(text.drop_last().len() == 0);
        assert(decimal_value(text) == decimal_value(text.drop_last()) * 10 + digit_value(
            text.last(),
        ));
    } else {
        let head = decimal_text(n / 10);
        lemma_decimal_text_reads_back(n / 10);
        assert(text.drop_last() =~= head);
        assert(text.last() == digit_char((n % 10) as int));
        assert forall|i: int| 0 <= i < text.len() implies is_digit(#[trigger] text[i]) by {
            if i < head.len() {
                assert(text[i] == head[i]);
            }
        }
        assert(text[0] == head[0]);
    }
    assert(is_digit(text[0]));
}

/// A number written with its sign is read back as it was written.
pub proof fn lemma_signed_decimal_text_reads_back(n: int)
    ensures
        signed_value(signed_decimal_text(n)) == Some(n),
{
    if n < 0 {
        let digits = decimal_text((-n) as nat);
        let text = signed_decimal_text(n);
        lemma_decimal_text_reads_back((-n) as nat);
        assert(text.skip(1) =~= digits);
        assert(text[0] == '-');
    } else {
        lemma_decimal_text_reads_back(n as nat);
        assert(is_digit(decimal_text(n as nat)[0]));
    }
}

/// The digits written so far never write more than the digits in full.
pub proof fn lemma_decimal_value_grows(s: Seq<char>, k: int)
    requires
        0 <= k <= s.len(),
        all_digits(s),
    ensures
        0 <= decimal_value(s.take(k)) <= decimal_value(s),
    decreases s.len() - k,
{
    if k == s.len() {
        assert(s.take(k) =~= s);
        lemma_decimal_value_bounds(s);
    } else {
        let shorter = s.drop_last();
        assert(shorter.take(k) =~= s.take(k));
        assert forall|i: int| 0 <= i < shorter.len() implies is_digit(#[trigger] shorter[i]) by {
            assert(shorter[i] == s[i]);
        }
        lemma_decimal_value_grows(shorter, k);
        assert(is_digit(s[s.len() - 1]));
    }
}

/// Digits write a number that is not negative.
pub proof fn lemma_decimal_value_bounds(s: Seq<char>)
    requires
        all_digits(s),
    ensures
        0 <= decimal_value(s),
    decreases s.len(),
{
    if s.len() > 0 {
        let shorter = s.drop_last();
        assert forall|i: int| 0 <= i < shorter.len() implies is_digit(#[trigger] shorter[i]) by {
            assert(shorter[i] == s[i]);
        }
        lemma_decimal_value_bounds(shorter);
        assert(is_digit(s[s.len() - 1]));
    }
}

/// The number that the characters from `from` on write, where they are one
/// or more digits and the number is no more than `cap`.
fn parse_digits(chars: &Vec<char>, from: usize, cap: u64) -> (r: Option<u64>)
    requires
        from <= chars.len(),
    ensures
        match digits_value(chars@.skip(from as int)) {
            Some(v) => if v <= cap {
                r == Some(v as u64)
            } else {
                r is None
            },
            None => r is None,
        },
{
    let ghost digits = chars@.skip(from as int);
    if from == chars.len() {
        return None;
    }
    let mut acc: u64 = 0;
    let mut i: usize = from;
    assert(digits.take(0).len() == 0);
    while i < chars.len()
        invariant
            from <= i <= chars.len(),
            digits == chars@.skip(from as int),
            acc <= cap,
            acc == decimal_value(digits.take(i - from)),
            forall|j: int| 0 <= j < i - from ==> is_digit(#[trigger] digits[j]),
        decreases chars.len() - i,
    {
        let c = chars[i];
        assert(digits[i - from] == c);
        if c < '0' || c > '9' {
            return None;
        }
        let d: u64 = (c as u32 - '0' as u32) as u64;
        proof {
            assert(digits.take(i - from + 1).drop_last() =~= digits.take(i - from));
            assert(digits.take(i - from + 1).last() == c);
        }
        if d > cap || acc > (cap - d) / 10 {
            proof {
                if all_digits(digits) {
                    lemma_decimal_value_grows(digits, i - from + 1);
                }
            }
            return None;
        }
        acc = acc * 10 + d;
        i += 1;
    }
    assert(digits.take(chars.len() - from) =~= digits);
    Some(acc)
}

/// Reads a number as `usize` does from a string: an optional `+`, then
/// digits only, which write a number that fits.
pub fn parse_usize(s: &str) -> (r: Option<usize>)
    ensures
        r == usize_value(s@),
{
    let chars = chars_of(s);
    let from: usize = if chars.len() > 0 && chars[0] == '+' {
        1
    } else {
        0
    };
    assert(chars@.skip(0) =~= chars@);
    let cap: u64 = usize::MAX as u64;
    assert(cap == usize::MAX);
    proof {
        if all_digits(chars@.skip(from as int)) {
            lemma_decimal_value_bounds(chars@.skip(from as int));
        }
    }
    match parse_digits(&chars, from, cap) {
        Some(v) => Some(v as usize),
        None => None,
    }
}

/// Reads a number as `i32` does from a string: an optional `+` or `-`, then
/// digits only, which write a number that fits.
pub fn parse_i32(s: &str) -> (r: Option<i32>)
    ensures
        r == i32_value(s@),
{
    let chars = chars_of(s);
    assert(chars@.skip(0) =~= chars@);
    if chars.len() > 0 && chars[0] == '-' {
        proof {
            if all_digits(chars@.skip(1)) {
                lemma_decimal_value_bounds(chars@.skip(1));
            }
        }
        match parse_digits(&chars, 1, 0x8000_0000) {
            Some(v) => Some((-(v as i64)) as i32),
            None => None,
        }
    } else {
        let from: usize = if chars.len() > 0 && chars[0] == '+' {
            1
        } else {
            0
        };
        proof {
            if all_digits(chars@.skip(from as int)) {
                lemma_decimal_value_bounds(chars@.skip(from as int));
            }
        }
        match parse_digits(&chars, from, 0x7fff_ffff) {
            Some(v) => Some(v as i32),
            None => None,
        }
    }
}

fn digit_str(d: usize) -> (r: &'static str)
    requires
        d < 10,
    ensures
        r@ == seq![digit_char(d as int)],
{
    let r = if d == 0 {
        "0"
    } else if d == 1 {
        "1"
    } else if d == 2 {
        "2"
    } else if d == 3 {
        "3"
    } else if d == 4 {
        "4"
    } else if d == 5 {
        "5"
    } else if d == 6 {
        "6"
    } else if d == 7 {
        "7"
    } else if d == 8 {
        "8"
    } else {
        "9"
    };
    proof {
        reveal_strlit("0");
        reveal_strlit("1");
        reveal_strlit("2");
        reveal_strlit("3");
        reveal_strlit("4");
        reveal_strlit("5");
        reveal_strlit("6");
        reveal_strlit("7");
        reveal_strlit("8");
        reveal_strlit("9");
        assert(r@ =~= seq![digit_char(d as int)]);
    }
    r
}

/// Writes a number in decimal digits.
pub fn usize_to_string(n: usize) -> (r: String)
    ensures
        r@ == decimal_text(n as nat),
    decreases n,
{
    if n < 10 {
        digit_str(n).to_owned()
    } else {
        let mut text = usize_to_string(n / 10);
        text.append(digit_str(n % 10));
        text
    }
}

/// Writes a number in decimal digits, after `-` when it is negative.
pub fn i32_to_string(n: i32) -> (r: String)
    ensures
        r@ == signed_decimal_text(n as int),
{
    if n < 0 {
        let mut text = "-".to_owned();
        proof {
            reveal_strlit("-");
            assert("-"@ =~= seq!['-']);
        }
        text.append(usize_to_string((-(n as i64)) as usize).as_str());
        text
    } else {
        usize_to_string(n as usize)
    }
}

} // verus!
