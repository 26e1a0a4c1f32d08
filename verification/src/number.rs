//! Decimal integers in text.

use crate::ascii::{DIGIT_0, DIGIT_9, MINUS, PLUS};
use vstd::prelude::*;

verus! {

/// Whether `b` is an ASCII decimal digit.
pub open spec fn is_digit(b: u8) -> bool {
    DIGIT_0 <= b <= DIGIT_9
}

/// Whether `s` is made of decimal digits only.
pub open spec fn all_digits(s: Seq<u8>) -> bool {
    forall|i: int| 0 <= i < s.len() ==> is_digit(#[trigger] s[i])
}

/// The number that the decimal digit `b` denotes.
pub open spec fn digit_value(b: u8) -> nat {
    if is_digit(b) {
        (b - DIGIT_0) as nat
    } else {
        0
    }
}

/// The number that the decimal digits `digits` denote.
pub open spec fn decimal_value(digits: Seq<u8>) -> nat
    decreases digits.len(),
{
    if digits.len() == 0 {
        0
    } else {
        decimal_value(digits.drop_last()) * 10 + digit_value(digits.last())
    }
}

/// The integer that `word` denotes, if it lies between `lo` and `hi`.
///
/// A word denotes an integer if it is made of a sign and one or more decimal
/// digits. The sign may be absent or `+`; it may be `-` where `signed` holds.
pub open spec fn integer_of(word: Seq<u8>, signed: bool, lo: int, hi: int) -> Option<int> {
    let negative = signed && word.len() > 0 && word[0] == MINUS;
    let digits = if word.len() > 0 && (word[0] == PLUS || negative) {
        word.skip(1)
    } else {
        word
    };
    let value = if negative {
        -(decimal_value(digits) as int)
    } else {
        decimal_value(digits) as int
    };
    if digits.len() > 0 && all_digits(digits) && lo <= value <= hi {
        Some(value)
    } else {
        None
    }
}

/// One more digit multiplies the value by ten and adds the digit.
pub proof fn lemma_decimal_value_step(digits: Seq<u8>, i: int)
    requires
        0 <= i < digits.len(),
    ensures
        decimal_value(digits.take(i + 1)) == decimal_value(digits.take(i)) * 10 + digit_value(
            digits[i],
        ),
        all_digits(digits.take(i + 1)) ==> is_digit(digits[i]),
{
    assert(digits.take(i + 1).drop_last() =~= digits.take(i));
    if all_digits(digits.take(i + 1)) {
        assert(digits.take(i + 1)[i] == digits[i]);
    }
}

/// The value of decimal digits is at least the value of each prefix of them.
pub proof fn lemma_decimal_value_grows(digits: Seq<u8>, i: int)
    requires
        0 <= i <= digits.len(),
        all_digits(digits),
    ensures
        decimal_value(digits.take(i)) <= decimal_value(digits),
    decreases digits.len() - i,
{
    if i < digits.len() {
        lemma_decimal_value_step(digits, i);
        assert(is_digit(digits[i]));
        lemma_decimal_value_grows(digits, i + 1);
    } else {
        assert(digits.take(i) =~= digits);
    }
}

/// The decimal digits of `n`, without leading zeros.
pub open spec fn decimal_digits(n: nat) -> Seq<u8>
    decreases n,
{
    if n < 10 {
        seq![(DIGIT_0 + n) as u8]
    } else {
        decimal_digits(n / 10).push((DIGIT_0 + n % 10) as u8)
    }
}

/// The word that denotes `v` in decimal: its digits, behind a `-` where `v`
/// is negative.
pub open spec fn integer_word(v: int) -> Seq<u8> {
    if v < 0 {
        seq![MINUS] + decimal_digits((-v) as nat)
    } else {
        decimal_digits(v as nat)
    }
}

/// The decimal digits of a number are digits, and denote that number.
pub proof fn lemma_decimal_digits(n: nat)
    ensures
        decimal_digits(n).len() > 0,
        all_digits(decimal_digits(n)),
        decimal_value(decimal_digits(n)) == n,
    decreases n,
{
    if n < 10 {
        let s = seq![(DIGIT_0 + n) as u8];
        assert(s.drop_last() =~= Seq::<u8>::empty());
        assert(decimal_value(s.drop_last()) == 0);
    } else {
        lemma_decimal_digits(n / 10);
        let front = decimal_digits(n / 10);
        let s = front.push((DIGIT_0 + n % 10) as u8);
        assert(s.drop_last() =~= front);
        assert forall|i: int| 0 <= i < s.len() implies is_digit(#[trigger] s[i]) by {
            if i < front.len() {
                assert(s[i] == front[i]);
            }
        }
    }
}

/// The word that denotes an integer is read back as that integer, where the
/// integer lies in the range asked for and is negative only where a `-` may
/// stand.
pub proof fn lemma_integer_of_word(v: int, signed: bool, lo: int, hi: int)
    requires
        lo <= v <= hi,
        v < 0 ==> signed,
    ensures
        integer_of(integer_word(v), signed, lo, hi) == Some(v),
        integer_word(v).len() > 0,
        forall|i: int|
            0 <= i < integer_word(v).len() ==> (#[trigger] integer_word(v)[i] == MINUS || is_digit(
                integer_word(v)[i],
            )),
{
    let word = integer_word(v);
    if v < 0 {
        let digits = decimal_digits((-v) as nat);
        lemma_decimal_digits((-v) as nat);
        assert(word.skip(1) =~= digits);
        assert(word[0] == MINUS);
        assert forall|i: int| 0 <= i < word.len() implies (#[trigger] word[i] == MINUS || is_digit(
            word[i],
        )) by {
            if i > 0 {
                assert(word[i] == digits[i - 1]);
            }
        }
    } else {
        lemma_decimal_digits(v as nat);
        assert(is_digit(word[0]));
    }
}

/// The integer between `lo` and `hi` that `word` denotes.
pub fn parse_integer(word: &[u8], signed: bool, lo: i32, hi: i32) -> (r: Option<i32>)
    ensures
        r is Some <==> integer_of(word@, signed, lo as int, hi as int) is Some,
        r matches Some(v) ==> integer_of(word@, signed, lo as int, hi as int) == Some(v as int),
{
    if word.len() == 0 {
        return None;
    }
    let negative = signed && word[0] == MINUS;
    let start: usize = if word[0] == PLUS || negative { 1 } else { 0 };
    if start >= word.len() {
        return None;
    }
    let ghost digits = word@.skip(start as int);
    assert(word@.skip(0) =~= word@);
    // No value beyond this one, taken with the sign, lies in the range.
    let limit: i64 = if negative {
        if lo < 0 { -(lo as i64) } else { 0 }
    } else {
        if hi > 0 { hi as i64 } else { 0 }
    };
    let mut acc: i64 = 0;
    let mut i: usize = start;
    while i < word.len()
        invariant
            start <= i <= word@.len(),
            start < word@.len(),
            negative == (signed && word@[0] == MINUS),
            start == if word@[0] == PLUS || negative { 1int } else { 0int },
            digits == word@.skip(start as int),
            word@.skip(0) == word@,
            limit == if negative {
                if lo < 0 { -lo } else { 0int }
            } else {
                if hi > 0 { hi as int } else { 0int }
            },
            0 <= acc <= limit,
            acc == decimal_value(digits.take(i - start)),
            all_digits(digits.take(i - start)),
        decreases word@.len() - i,
    {
        let b = word[i];
        proof {
            lemma_decimal_value_step(digits, i - start);
        }
        if b < DIGIT_0 || b > DIGIT_9 {
            assert(!all_digits(digits)) by {
                assert(digits[i - start] == b);
            }
            return None;
        }
        let d: i64 = (b - DIGIT_0) as i64;
        let next = acc * 10 + d;
        if next > limit {
            proof {
                if all_digits(digits) {
                    lemma_decimal_value_grows(digits, i - start + 1);
                }
            }
            return None;
        }
        acc = next;
        i += 1;
        proof {
            assert forall|k: int| 0 <= k < digits.take(i - start).len() implies is_digit(
                #[trigger] digits.take(i - start)[k],
            ) by {
                if k < i - start - 1 {
                    assert(digits.take(i - start)[k] == digits.take(i - start - 1)[k]);
                }
            }
        }
    }
    proof {
        assert(digits.take(i - start) =~= digits);
    }
    let value: i64 = if negative { -acc } else { acc };
    if lo as i64 <= value && value <= hi as i64 {
        Some(value as i32)
    } else {
        None
    }
}

} // verus!
