//! Decimal numbers in text.

use vstd::arithmetic::power::{lemma_pow0, lemma_pow1, lemma_pow_adds, pow};
use vstd::prelude::*;

use crate::text::characters;

verus! {

/// The digit that stands for `d`.
pub open spec fn digit(d: nat) -> char
    recommends
        d < 10,
{
    (d + '0' as nat) as char
}

/// Whether `c` is a decimal digit.
pub open spec fn is_digit(c: char) -> bool {
    '0' <= c <= '9'
}

/// The decimal text of `n`, without leading zeros.
pub open spec fn decimal(n: nat) -> Seq<char>
    decreases n,
{
    if n < 10 {
        seq![digit(n)]
    } else {
        decimal(n / 10).push(digit(n % 10))
    }
}

/// What a row of digits is worth.
pub open spec fn value(digits: Seq<char>) -> nat
    decreases digits.len(),
{
    if digits.len() == 0 {
        0
    } else {
        value(digits.drop_last()) * 10 + (digits.last() as nat - '0' as nat) as nat
    }
}

/// `s` without a plus sign at its front.
pub open spec fn without_plus(s: Seq<char>) -> Seq<char> {
    if s.len() > 0 && s[0] == '+' {
        s.drop_first()
    } else {
        s
    }
}

/// The number that `s` writes: at least one digit and nothing else, but for a plus sign that
/// may stand in front, with a value that 64 bits hold.
pub open spec fn read_u64(s: Seq<char>) -> Option<u64> {
    let digits = without_plus(s);
    if digits.len() > 0 && (forall|i: int| 0 <= i < digits.len() ==> is_digit(#[trigger] digits[i]))
        && value(digits) <= u64::MAX {
        Some(value(digits) as u64)
    } else {
        None
    }
}

/// Reading the decimal text of a number gives the number back.
pub proof fn decimal_reads_back(n: u64)
    ensures
        read_u64(decimal(n as nat)) == Some(n),
{
    lemma_decimal(n as nat);
}

/// The decimal text of a number is a row of digits that is worth the number.
pub proof fn lemma_decimal(n: nat)
    ensures
        decimal(n).len() > 0,
        forall|i: int| 0 <= i < decimal(n).len() ==> is_digit(#[trigger] decimal(n)[i]),
        value(decimal(n)) == n,
    decreases n,
{
    if n < 10 {
        assert(decimal(n).drop_last() =~= Seq::<char>::empty());
        assert(value(Seq::<char>::empty()) == 0);
    } else {
        lemma_decimal(n / 10);
        assert(decimal(n).drop_last() =~= decimal(n / 10));
    }
}

/// The digits of a number that stands in front of others are worth no more than all of them.
proof fn lemma_value_grows(digits: Seq<char>, n: int)
    requires
        0 <= n <= digits.len(),
    ensures
        value(digits.take(n)) <= value(digits),
    decreases digits.len(),
{
    if n < digits.len() {
        lemma_value_grows(digits.drop_last(), n);
        assert(digits.drop_last().take(n) =~= digits.take(n));
    } else {
        assert(digits.take(n) =~= digits);
    }
}

fn digit_text(d: u64) -> (r: &'static str)
    requires
        d < 10,
    ensures
        r@ == seq![digit(d as nat)],
{
    proof {
        reveal_strlit("0");
        reveal_strlit("1");
        reveal_strlit("2");
        reveal_strlit("3");
        reveal_strlit("4");
        reveal_strlit("5");
        reveal_strlit("6");
        reveal_strlit("7");
        reveal_strlit("8");
        reveal_strlit("9");
    }
    let r: &'static str = match d {
        0 => "0",
        1 => "1",
        2 => "2",
        3 => "3",
        4 => "4",
        5 => "5",
        6 => "6",
        7 => "7",
        8 => "8",
        _ => "9",
    };
    assert(r@ =~= seq![digit(d as nat)]);
    r
}

/// Writes `n` in decimal.
pub fn to_decimal(n: u64) -> (r: String)
    ensures
        r@ == decimal(n as nat),
    decreases n,
{
    if n < 10 {
        digit_text(n).to_owned()
    } else {
        let mut out: String = to_decimal(n / 10);
        out.append(digit_text(n % 10));
        assert(out@ =~= decimal(n as nat));
        out
    }
}

/// Reads a decimal number.
pub fn parse_u64(s: &str) -> (r: Option<u64>)
    ensures
        r == read_u64(s@),
{
    let chars: Vec<char> = characters(s);
    let start: usize = if chars.len() > 0 && chars[0] == '+' {
        1
    } else {
        0
    };
    let ghost digits = without_plus(s@);
    assert(digits =~= s@.skip(start as int));
    if start == chars.len() {
        return None;
    }
    let mut total: u64 = 0;
    let mut i: usize = start;
    assert(digits.take(0) =~= Seq::<char>::empty());
    while i < chars.len()
        invariant
            chars@ == s@,
            start <= i <= chars.len(),
            digits == s@.skip(start as int),
            digits == without_plus(s@),
            forall|k: int| 0 <= k < i - start ==> is_digit(#[trigger] digits[k]),
            total == value(digits.take(i - start)),
        decreases chars.len() - i,
    {
        let c: char = chars[i];
        assert(digits[i - start] == c);
        if !('0' <= c && c <= '9') {
            return None;
        }
        let d: u64 = (c as u32 - '0' as u32) as u64;
        proof {
            assert(digits.take(i - start + 1).drop_last() =~= digits.take(i - start));
            lemma_value_grows(digits, i - start + 1);
        }
        if total > (u64::MAX - d) / 10 {
            assert(total * 10 + d > u64::MAX);
            return None;
        }
        total = total * 10 + d;
        i = i + 1;
    }
    assert(digits.take(i - start) =~= digits);
    Some(total)
}

/// A digit in front of others counts for a power of ten that goes with their number.
pub proof fn digits_count_for_powers_of_ten(d: nat, rest: Seq<char>)
    requires
        d < 10,
    ensures
        value(Seq::empty()) == 0,
        value(seq![('0' as nat + d) as char] + rest) == d * pow(10, rest.len()) + value(rest),
    decreases rest.len(),
{
    let c = ('0' as nat + d) as char;
    let all = seq![c] + rest;
    lemma_pow0(10);
    if rest.len() == 0 {
        assert(all.drop_last() =~= Seq::<char>::empty());
        assert(rest =~= Seq::<char>::empty());
        assert(value(Seq::<char>::empty()) == 0);
        assert(all.last() == c);
        assert(value(all) == d);
        assert(d * pow(10, 0) == d);
    } else {
        let front = rest.drop_last();
        digits_count_for_powers_of_ten(d, front);
        assert(all.drop_last() =~= seq![c] + front);
        lemma_pow1(10);
        lemma_pow_adds(10, front.len(), 1);
        assert((d * pow(10, front.len()) + value(front)) * 10 == d * (pow(10, front.len()) * 10)
            + value(front) * 10) by (nonlinear_arith);
    }
}

/// A number is written in digits that are worth it, with no zero in front but for the number zero.
pub proof fn numbers_are_written_in_digits(n: nat)
    ensures
        value(decimal(n)) == n,
        decimal(n).len() > 0,
        forall|i: int| 0 <= i < decimal(n).len() ==> '0' <= #[trigger] decimal(n)[i] <= '9',
        decimal(n)[0] == '0' ==> n == 0 && decimal(n).len() == 1,
    decreases n,
{
    lemma_decimal(n);
    if n >= 10 {
        numbers_are_written_in_digits(n / 10);
        assert(decimal(n)[0] == decimal(n / 10)[0]);
    }
}

/// Digits are read for what they are worth, with a plus sign in front or without, as long as it
/// fits. No other text is read.
pub proof fn only_digits_are_read(digits: Seq<char>, c: char, i: int)
    requires
        forall|k: int| 0 <= k < digits.len() ==> '0' <= #[trigger] digits[k] <= '9',
        !('0' <= c <= '9'),
        0 <= i <= digits.len(),
    ensures
        ({
            let worth = if 0 < digits.len() && value(digits) <= u64::MAX {
                Some(value(digits) as u64)
            } else {
                None
            };
            &&& read_u64(digits) == worth
            &&& read_u64(seq!['+'] + digits) == worth
            &&& i > 0 || c != '+' ==> read_u64(digits.insert(i, c)) is None
            &&& read_u64(seq!['+'] + digits.insert(i, c)) is None
        }),
{
    let signed = seq!['+'] + digits;
    assert(without_plus(digits) == digits);
    assert(signed.drop_first() =~= digits);
    let spoilt = digits.insert(i, c);
    assert(spoilt[i] == c);
    assert((seq!['+'] + spoilt).drop_first() =~= spoilt);
    if i > 0 || c != '+' {
        assert(spoilt[0] == if i == 0 {
            c
        } else {
            digits[0]
        });
        assert(without_plus(spoilt) == spoilt);
        assert(!is_digit(without_plus(spoilt)[i]));
    }
    assert(!is_digit(without_plus(seq!['+'] + spoilt)[i]));
}

} // verus!
