//! Reading numeric literal text into the fixed-width immediate type.
//!
//! The front end hands literals over as raw text; the compiler turns
//! them into 16-bit immediates here. Text that is not an optionally
//! signed decimal numeral, or whose value does not fit the immediate
//! width, is a compile-time encoding error.

use vstd::prelude::*;

verus! {

/// Whether `c` is a decimal digit.
pub open spec fn is_digit(c: char) -> bool {
    '0' <= c && c <= '9'
}

/// The numeric value of a decimal digit.
pub open spec fn digit_val(c: char) -> int {
    c as int - 48
}

/// Whether every character of `s` is a decimal digit.
pub open spec fn all_digits(s: Seq<char>) -> bool {
    forall|i: int| 0 <= i < s.len() ==> is_digit(#[trigger] s[i])
}

/// The value of a digit string read in base ten.
pub open spec fn digits_value(s: Seq<char>) -> int
    decreases s.len(),
{
    if s.len() == 0 {
        0
    } else {
        digits_value(s.drop_last()) * 10 + digit_val(s.last())
    }
}

/// What parsing text as a 16-bit signed decimal numeral yields: an
/// optional sign followed by one or more digits, value within
/// `i16::MIN ..= i16::MAX`; anything else is rejected.
pub open spec fn spec_parse_i16(s: Seq<char>) -> Option<i16> {
    let signed = s.len() > 0 && (s[0] == '-' || s[0] == '+');
    let negative = s.len() > 0 && s[0] == '-';
    let digits = if signed {
        s.drop_first()
    } else {
        s
    };
    if digits.len() == 0 || !all_digits(digits) {
        None
    } else {
        let magnitude = digits_value(digits);
        let value = if negative {
            -magnitude
        } else {
            magnitude
        };
        if -32768 <= value <= 32767 {
            Some(value as i16)
        } else {
            None
        }
    }
}

/// A digit string has a non-negative value.
proof fn lemma_digits_value_nonneg(s: Seq<char>)
    requires
        all_digits(s),
    ensures
        digits_value(s) >= 0,
    decreases s.len(),
{
    if s.len() > 0 {
        assert(all_digits(s.drop_last()));
        lemma_digits_value_nonneg(s.drop_last());
    }
}

/// Extending a digit string to the right never shrinks its value.
proof fn lemma_digits_value_prefix(s: Seq<char>, k: int)
    requires
        all_digits(s),
        0 <= k <= s.len(),
    ensures
        digits_value(s) >= digits_value(s.take(k)),
    decreases s.len() - k,
{
    if k < s.len() {
        lemma_digits_value_prefix(s, k + 1);
        assert(s.take(k + 1).drop_last() =~= s.take(k));
        assert(all_digits(s.take(k + 1)));
        assert(digits_value(s.take(k + 1)) == digits_value(s.take(k)) * 10 + digit_val(
            s.take(k + 1).last(),
        ));
        lemma_digits_value_nonneg(s.take(k));
    } else {
        assert(s.take(k) =~= s);
    }
}

/// Reads `text` as a 16-bit signed decimal numeral.
///
/// Returns exactly what [`spec_parse_i16`] describes.
pub fn parse_i16(text: &str) -> (r: Option<i16>)
    ensures
        r == spec_parse_i16(text@),
{
    let ghost s = text@;
    let n = text.unicode_len();
    let signed: bool = if n > 0 {
        let c0 = text.get_char(0);
        c0 == '-' || c0 == '+'
    } else {
        false
    };
    let negative: bool = if n > 0 {
        text.get_char(0) == '-'
    } else {
        false
    };
    let start: usize = if signed {
        1
    } else {
        0
    };
    let ghost digits = if signed {
        s.drop_first()
    } else {
        s
    };
    assert(digits =~= s.subrange(start as int, n as int));
    if n == start {
        return None;
    }
    let mut acc: i32 = 0;
    let mut i: usize = start;
    while i < n
        invariant
            s == text@,
            signed == (s.len() > 0 && (s[0] == '-' || s[0] == '+')),
            negative == (s.len() > 0 && s[0] == '-'),
            start <= i <= n,
            n == s.len(),
            start == if signed { 1int } else { 0int },
            digits =~= s.subrange(start as int, s.len() as int),
            n > start,
            all_digits(digits.take(i - start)),
            0 <= acc <= 32768,
            acc == digits_value(digits.take(i - start)),
        decreases n - i,
    {
        let c = text.get_char(i);
        if c < '0' || c > '9' {
            assert(digits[i - start] == c && !is_digit(c));
            return None;
        }
        let d: i32 = (c as u32 as i32) - 48;
        assert(0 <= d <= 9);
        assert(d == digit_val(c));
        acc = acc * 10 + d;
        proof {
            let prev = digits.take(i - start);
            let cur = digits.take(i + 1 - start);
            assert(cur.drop_last() =~= prev);
            assert(cur.last() == c);
            assert(digits_value(cur) == digits_value(prev) * 10 + digit_val(c));
            assert(acc == digits_value(cur));
        }
        if acc > 32768 {
            // Too large already; the numeral cannot fit whatever follows.
            proof {
                let cur = digits.take(i + 1 - start);
                if all_digits(digits) {
                    lemma_digits_value_prefix(digits, i + 1 - start);
                    assert(digits_value(digits) >= digits_value(cur));
                    assert(digits_value(digits) > 32768);
                }
                let spec_digits = if signed {
                    s.drop_first()
                } else {
                    s
                };
                assert(spec_digits =~= digits);
                assert(spec_parse_i16(s) is None);
            }
            return None;
        }
        i += 1;
    }
    assert(digits.take(n - start) =~= digits);
    if negative {
        assert(acc <= 32768);
        Some((-acc) as i16)
    } else {
        if acc > 32767 {
            None
        } else {
            Some(acc as i16)
        }
    }
}

} // verus!
