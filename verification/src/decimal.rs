//! Decimal notation for small integers: an optional sign, then one or more
//! digits, and nothing else.

use vstd::prelude::*;
use vstd::string::*;

verus! {

/// Whether `c` is one of the ten decimal digits.
pub open spec fn is_digit(c: char) -> bool {
    '0' <= c <= '9'
}

/// The number that the digit `c` stands for.
pub open spec fn digit_value(c: char) -> int {
    c as int - '0' as int
}

/// Whether `s` holds digits only.
pub open spec fn all_digits(s: Seq<char>) -> bool {
    forall|i: int| 0 <= i < s.len() ==> is_digit(#[trigger] s[i])
}

/// The number that a run of digits denotes, the last digit counting least.
pub open spec fn magnitude(s: Seq<char>) -> int
    decreases s.len(),
{
    if s.len() == 0 {
        0
    } else {
        magnitude(s.drop_last()) * 10 + digit_value(s.last())
    }
}

/// The integer that `s` denotes: digits, with `+` or `-` in front or without
/// a sign. A string with anything else in it, or without a digit, denotes
/// none.
pub open spec fn signed_decimal(s: Seq<char>) -> Option<int> {
    if s.len() > 0 && (s[0] == '-' || s[0] == '+') {
        let digits = s.subrange(1, s.len() as int);
        if digits.len() > 0 && all_digits(digits) {
            if s[0] == '-' {
                Some(-magnitude(digits))
            } else {
                Some(magnitude(digits))
            }
        } else {
            None
        }
    } else if s.len() > 0 && all_digits(s) {
        Some(magnitude(s))
    } else {
        None
    }
}

/// The integer that `s` denotes, where it lies within `[lo, hi]`.
pub open spec fn signed_decimal_within(s: Seq<char>, lo: int, hi: int) -> Option<int> {
    match signed_decimal(s) {
        Some(n) => if lo <= n <= hi {
            Some(n)
        } else {
            None
        },
        None => None,
    }
}

/// A run of digits denotes no negative number.
pub proof fn lemma_magnitude_nonnegative(s: Seq<char>)
    requires
        all_digits(s),
    ensures
        0 <= magnitude(s),
    decreases s.len(),
{
    if s.len() > 0 {
        assert(all_digits(s.drop_last()));
        lemma_magnitude_nonnegative(s.drop_last());
        assert(is_digit(s.last()));
    }
}

/// Reads the integer that `text` denotes if it lies within `[lo, hi]`.
/// However long the run of digits, nothing overflows: a magnitude beyond
/// every `i8` is only remembered as such.
pub fn parse_within(text: &str, lo: i8, hi: i8) -> (r: Option<i8>)
    ensures
        r == match signed_decimal_within(text@, lo as int, hi as int) {
            Some(n) => Some(n as i8),
            None => None,
        },
{
    let len: usize = text.unicode_len();
    if len == 0 {
        return None;
    }
    let first: char = text.get_char(0);
    let signed: bool = first == '-' || first == '+';
    let start: usize = if signed {
        1
    } else {
        0
    };
    if start == len {
        return None;
    }
    let ghost digits = text@.subrange(start as int, len as int);
    let mut acc: u16 = 0;
    let mut i: usize = start;
    while i < len
        invariant
            start <= i <= len,
            len == text@.len(),
            digits == text@.subrange(start as int, len as int),
            first == text@[0],
            signed == (first == '-' || first == '+'),
            start == if signed { 1int } else { 0int },
            all_digits(digits.subrange(0, i - start)),
            acc <= 1000,
            acc < 1000 ==> acc == magnitude(digits.subrange(0, i - start)),
            acc == 1000 ==> magnitude(digits.subrange(0, i - start)) >= 1000,
        decreases len - i,
    {
        let c: char = text.get_char(i);
        let ghost shorter = digits.subrange(0, i - start);
        let ghost longer = digits.subrange(0, i - start + 1);
        proof {
            assert(longer.drop_last() == shorter);
            assert(longer.last() == c);
        }
        if !(c >= '0' && c <= '9') {
            proof {
                assert(digits[i - start] == c);
                assert(!all_digits(digits));
                if signed {
                    assert(text@.subrange(1, text@.len() as int) =~= digits);
                } else {
                    assert(text@ =~= digits);
                }
            }
            return None;
        }
        let d: u16 = (c as u32 - '0' as u32) as u16;
        proof {
            lemma_magnitude_nonnegative(shorter);
            assert forall|j: int| 0 <= j < longer.len() implies is_digit(#[trigger] longer[j]) by {
                if j < shorter.len() {
                    assert(longer[j] == shorter[j]);
                }
            }
        }
        if acc >= 100 {
            acc = 1000;
        } else {
            acc = acc * 10 + d;
        }
        i += 1;
    }
    proof {
        assert(digits.subrange(0, len - start) == digits);
        if signed {
            assert(text@.subrange(1, text@.len() as int) =~= digits);
        } else {
            assert(text@ =~= digits);
        }
    }
    if acc > 128 {
        return None;
    }
    if first == '-' {
        let n: i16 = -(acc as i16);
        if n >= lo as i16 && n <= hi as i16 {
            Some(n as i8)
        } else {
            None
        }
    } else {
        if acc as i16 >= lo as i16 && acc as i16 <= hi as i16 {
            Some(acc as i8)
        } else {
            None
        }
    }
}

} // verus!
