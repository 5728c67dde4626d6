//! Decimal numbers as text: reading and writing them.

use vstd::prelude::*;

verus! {

/// `c` is one of the ten ASCII digits.
pub open spec fn is_digit(c: char) -> bool {
    '0' <= c <= '9'
}

/// The number that the digit `c` stands for.
pub open spec fn digit_value(c: char) -> nat {
    (c as u32 - '0' as u32) as nat
}

/// The number that a sequence of digits stands for, read in base ten.
pub open spec fn digits_value(s: Seq<char>) -> nat
    decreases s.len(),
{
    if s.len() == 0 {
        0
    } else {
        digits_value(s.drop_last()) * 10 + digit_value(s.last())
    }
}

/// The digits of a number: `s` without one leading `+`.
pub open spec fn unsigned_part(s: Seq<char>) -> Seq<char> {
    if s.len() > 0 && s[0] == '+' {
        s.skip(1)
    } else {
        s
    }
}

/// The number that `s` stands for: an optional `+`, then one or more ASCII
/// digits and nothing else. `None` for any other text.
pub open spec fn decimal(s: Seq<char>) -> Option<nat> {
    let d = unsigned_part(s);
    if d.len() > 0 && (forall|i: int| 0 <= i < d.len() ==> is_digit(#[trigger] d[i])) {
        Some(digits_value(d))
    } else {
        None
    }
}

/// The number that `s` stands for where it fits in a `usize`.
pub open spec fn decimal_usize(s: Seq<char>) -> Option<usize> {
    match decimal(s) {
        Some(n) => if n <= usize::MAX {
            Some(n as usize)
        } else {
            None
        },
        None => None,
    }
}

/// The digit that stands for `d`, for `d` below ten.
pub open spec fn digit_char(d: nat) -> char {
    ((48 + d) as u8) as char
}

/// `n` written in base ten, without leading zeros.
pub open spec fn decimal_text(n: nat) -> Seq<char>
    decreases n,
{
    if n < 10 {
        seq![digit_char(n)]
    } else {
        decimal_text(n / 10).push(digit_char(n % 10))
    }
}

/// Reads a decimal number.
pub fn parse_decimal(s: &[char]) -> (r: Option<usize>)
    ensures
        r == decimal_usize(s@),
{
    let begin: usize = if s.len() > 0 && s[0] == '+' {
        1
    } else {
        0
    };
    let ghost d = unsigned_part(s@);
    if begin == s.len() {
        return None;
    }
    let mut acc: usize = 0;
    let mut i: usize = begin;
    while i < s.len()
        invariant
            begin <= i <= s.len(),
            begin < s.len(),
            d == unsigned_part(s@),
            d == s@.skip(begin as int),
            forall|j: int| 0 <= j < i - begin ==> is_digit(#[trigger] d[j]),
            acc == digits_value(d.take(i - begin)),
        decreases s.len() - i,
    {
        let c = s[i];
        assert(d[i - begin] == c);
        if !('0' <= c && c <= '9') {
            return None;
        }
        let digit: usize = (c as u32 - '0' as u32) as usize;
        proof {
            let p = d.take(i - begin + 1);
            assert(p.drop_last() == d.take(i - begin));
            lemma_digits_value_grows(d, i - begin + 1);
        }
        let tens = match acc.checked_mul(10) {
            Some(t) => t,
            None => {
                return None;
            },
        };
        acc = match tens.checked_add(digit) {
            Some(a) => a,
            None => {
                return None;
            },
        };
        i += 1;
    }
    proof {
        assert(d.take(s.len() - begin) == d);
    }
    Some(acc)
}

/// Appends `n`, written in base ten, to `out`.
pub fn push_decimal(out: &mut Vec<char>, n: usize)
    ensures
        final(out)@ == old(out)@ + decimal_text(n as nat),
    decreases n,
{
    if n >= 10 {
        push_decimal(out, n / 10);
    }
    let d: u8 = (n % 10) as u8;
    out.push((48 + d) as char);
}

/// A number does not shrink when more digits follow.
pub proof fn lemma_digits_value_grows(s: Seq<char>, i: int)
    requires
        0 <= i <= s.len(),
    ensures
        digits_value(s.take(i)) <= digits_value(s),
    decreases s.len() - i,
{
    if i == s.len() {
        assert(s.take(i) == s);
    } else {
        lemma_digits_value_grows(s, i + 1);
        assert(s.take(i + 1).drop_last() == s.take(i));
    }
}

/// A written number reads back as itself.
pub proof fn lemma_decimal_text_reads_back(n: nat)
    ensures
        decimal(decimal_text(n)) == Some(n),
        decimal_text(n).len() > 0,
        forall|i: int| 0 <= i < decimal_text(n).len() ==> is_digit(#[trigger] decimal_text(n)[i]),
        digits_value(decimal_text(n)) == n,
    decreases n,
{
    let t = decimal_text(n);
    if n < 10 {
        assert(digits_value(t.drop_last()) == 0);
    } else {
        let front = decimal_text(n / 10);
        lemma_decimal_text_reads_back(n / 10);
        assert(t.drop_last() == front);
    }
}

} // verus!
