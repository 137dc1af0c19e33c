//! Reading whole numbers from text.

use crate::chars::{decimal, digit_char, lemma_decimal_digits};
use vstd::prelude::*;

verus! {

/// Whether `c` is one of the digits `0` to `9`.
pub open spec fn is_digit(c: char) -> bool {
    '0' <= c && c <= '9'
}

/// Whether `s` holds digits only.
pub open spec fn all_digits(s: Seq<char>) -> bool {
    forall|i: int| 0 <= i < s.len() ==> is_digit(#[trigger] s[i])
}

/// The number that the digits `s` write in decimal.
pub open spec fn digits_value(s: Seq<char>) -> nat
    decreases s.len(),
{
    if s.len() == 0 {
        0
    } else {
        (digits_value(s.drop_last()) * 10 + (s.last() as u32 - '0' as u32)) as nat
    }
}

/// The digits of a numeral: what follows its sign, if it has one.
pub open spec fn numeral_digits(s: Seq<char>, signs: bool) -> Seq<char> {
    if s.len() > 0 && (s[0] == '+' || (signs && s[0] == '-')) {
        s.skip(1)
    } else {
        s
    }
}

/// The whole number that `s` writes: digits, at least one, after at most one
/// sign. A minus sign is a sign only where `signs` is set.
pub open spec fn parse_int(s: Seq<char>, signs: bool) -> Option<int> {
    let digits = numeral_digits(s, signs);
    if digits.len() == 0 || !all_digits(digits) {
        None
    } else if signs && s[0] == '-' {
        Some(-(digits_value(digits) as int))
    } else {
        Some(digits_value(digits) as int)
    }
}

/// The `i32` that `s` writes; `None` where it writes no number or one that no
/// `i32` holds.
pub open spec fn parse_i32(s: Seq<char>) -> Option<i32> {
    match parse_int(s, true) {
        Some(n) => if i32::MIN <= n <= i32::MAX {
            Some(n as i32)
        } else {
            None
        },
        None => None,
    }
}

/// The `u32` that `s` writes; `None` where it writes no number, or one with a
/// minus sign, or one that no `u32` holds.
pub open spec fn parse_u32(s: Seq<char>) -> Option<u32> {
    match parse_int(s, false) {
        Some(n) => if n <= u32::MAX {
            Some(n as u32)
        } else {
            None
        },
        None => None,
    }
}

/// The value of a digit.
fn digit_value(c: char) -> (d: Option<u64>)
    ensures
        d is Some <==> is_digit(c),
        d matches Some(v) ==> v == c as u32 - '0' as u32 && v < 10,
{
    let n: u32 = c as u32;
    if 48 <= n && n <= 57 {
        Some((n - 48) as u64)
    } else {
        None
    }
}

/// Whether `c` is one of the digits `0` to `9`.
pub fn char_is_digit(c: char) -> (b: bool)
    ensures
        b == is_digit(c),
{
    digit_value(c).is_some()
}

/// The number that the characters of `v` from `start` on write, if they are
/// digits and there is one at least; a number above `cap` is given as `cap`
/// plus one.
fn read_digits(v: &Vec<char>, start: usize, cap: u64) -> (value: Option<u64>)
    requires
        start <= v.len(),
        cap <= 0xFFFF_FFFF_FFFF,
    ensures
        value is Some <==> v@.skip(start as int).len() > 0 && all_digits(v@.skip(start as int)),
        value matches Some(n) ==> (if digits_value(v@.skip(start as int)) > cap {
            n == cap + 1
        } else {
            n == digits_value(v@.skip(start as int))
        }),
{
    let ghost digits = v@.skip(start as int);
    if start == v.len() {
        return None;
    }
    let mut acc: u64 = 0;
    let mut i: usize = start;
    proof {
        assert(digits.take(0) =~= Seq::<char>::empty());
    }
    while i < v.len()
        invariant
            start <= i <= v.len(),
            digits == v@.skip(start as int),
            cap <= 0xFFFF_FFFF_FFFF,
            all_digits(digits.take(i - start)),
            if digits_value(digits.take(i - start)) > cap {
                acc == cap + 1
            } else {
                acc == digits_value(digits.take(i - start))
            },
        decreases v.len() - i,
    {
        proof {
            assert(digits.take(i - start + 1).drop_last() =~= digits.take(i - start));
            assert(digits.take(i - start + 1).last() == v@[i as int]);
        }
        match digit_value(v[i]) {
            None => {
                proof {
                    assert(digits[i - start] == v@[i as int]);
                }
                return None;
            },
            Some(d) => {
                let next = acc * 10 + d;
                acc = if next > cap {
                    cap + 1
                } else {
                    next
                };
                proof {
                    assert forall|k: int| 0 <= k < i - start + 1 implies is_digit(
                        #[trigger] digits.take(i - start + 1)[k],
                    ) by {
                        if k < i - start {
                            assert(digits.take(i - start)[k] == digits.take(i - start + 1)[k]);
                        }
                    }
                }
            },
        }
        i += 1;
    }
    proof {
        assert(digits.take(v.len() - start) =~= digits);
    }
    Some(acc)
}

/// The `i32` that `v` writes.
pub fn parse_i32_chars(v: &Vec<char>) -> (n: Option<i32>)
    ensures
        n == parse_i32(v@),
{
    if v.len() == 0 {
        return None;
    }
    let negative = v[0] == '-';
    let start: usize = if negative || v[0] == '+' {
        1
    } else {
        0
    };
    proof {
        assert(v@.skip(0) =~= v@);
    }
    match read_digits(v, start, 0x8000_0000) {
        None => None,
        Some(value) => {
            if negative {
                if value > 0x8000_0000 {
                    None
                } else {
                    Some((-(value as i64)) as i32)
                }
            } else if value > 0x7FFF_FFFF {
                None
            } else {
                Some(value as i32)
            }
        },
    }
}

/// The `u32` that `v` writes.
pub fn parse_u32_chars(v: &Vec<char>) -> (n: Option<u32>)
    ensures
        n == parse_u32(v@),
{
    if v.len() == 0 {
        return None;
    }
    let start: usize = if v[0] == '+' {
        1
    } else {
        0
    };
    proof {
        assert(v@.skip(0) =~= v@);
    }
    match read_digits(v, start, 0xFFFF_FFFF) {
        None => None,
        Some(value) => {
            if value > 0xFFFF_FFFF {
                None
            } else {
                Some(value as u32)
            }
        },
    }
}

/// The numeral of a number writes that number.
pub proof fn lemma_decimal_value(n: nat)
    ensures
        all_digits(decimal(n)),
        digits_value(decimal(n)) == n,
    decreases n,
{
    lemma_decimal_digits(n);
    if n >= 10 {
        lemma_decimal_value(n / 10);
        assert(decimal(n).drop_last() =~= decimal(n / 10));
        assert(decimal(n).last() == digit_char(n % 10));
    } else {
        assert(decimal(n).drop_last() =~= Seq::<char>::empty());
        assert(digits_value(decimal(n).drop_last()) == 0);
    }
}

} // verus!
