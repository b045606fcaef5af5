//! Numbers read from text.
//!
//! Floating-point numbers are kept by their bits: the library compares them with the
//! bounds that the font format sets, and never computes with them. Reading them from
//! text is the caller's: functions that need it take a reader.

use vstd::prelude::*;

verus! {

/// True when the 64-bit float with bits `b` lies in `[0, 360]`: it is `+0` to `360`
/// (positive floats order as their bits do), or `-0`.
pub open spec fn f64_bits_in_degrees(b: u64) -> bool {
    b <= 0x4076_8000_0000_0000 || b == 0x8000_0000_0000_0000
}

/// True when the 32-bit float with bits `b` lies in `[0, 1]`: it is `+0` to `1`, or `-0`.
pub open spec fn f32_bits_in_unit(b: u32) -> bool {
    b <= 0x3f80_0000 || b == 0x8000_0000
}

/// True when `v` is a Unicode scalar value: at most `0x10FFFF` and not a surrogate.
pub open spec fn is_scalar_value(v: u32) -> bool {
    v <= 0x10ffff && !(0xd800 <= v && v <= 0xdfff)
}

/// `char::from_u32`: the character with code point `v`, if `v` is a Unicode scalar value.
#[verifier::external_body]
pub fn char_from_u32(v: u32) -> (res: Option<char>)
    ensures
        match res {
            Some(c) => is_scalar_value(v) && c == v as char,
            None => !is_scalar_value(v),
        },
{
    char::from_u32(v)
}

/// The value of a hexadecimal digit, if `c` is one.
pub open spec fn hex_value(c: char) -> Option<u32> {
    if '0' <= c && c <= '9' {
        Some((c as u32 - '0' as u32) as u32)
    } else if 'a' <= c && c <= 'f' {
        Some((c as u32 - 'a' as u32 + 10) as u32)
    } else if 'A' <= c && c <= 'F' {
        Some((c as u32 - 'A' as u32 + 10) as u32)
    } else {
        None
    }
}

/// The number that the hexadecimal digits `s` spell, if they all are digits.
pub open spec fn hex_digits_value(s: Seq<char>) -> Option<int>
    decreases s.len(),
{
    if s.len() == 0 {
        Some(0)
    } else {
        match (hex_digits_value(s.drop_last()), hex_value(s.last())) {
            (Some(v), Some(d)) => Some(v * 16 + d),
            _ => None,
        }
    }
}

/// The `u32` that `u32::from_str_radix(s, 16)` reads: an optional `+`, then at least one
/// hexadecimal digit, with a value that fits.
pub open spec fn spec_hex_u32(s: Seq<char>) -> Option<u32> {
    let digits = if s.len() > 0 && s[0] == '+' { s.drop_first() } else { s };
    if digits.len() == 0 {
        None
    } else {
        match hex_digits_value(digits) {
            Some(v) => if v <= u32::MAX { Some(v as u32) } else { None },
            None => None,
        }
    }
}

proof fn lemma_hex_digits_nonneg(s: Seq<char>)
    ensures
        hex_digits_value(s) matches Some(v) ==> v >= 0,
    decreases s.len(),
{
    if s.len() > 0 {
        lemma_hex_digits_nonneg(s.drop_last());
    }
}

/// Reads a hexadecimal number as `u32::from_str_radix(s, 16)` does.
pub fn parse_hex_u32(s: &str) -> (res: Option<u32>)
    ensures
        res == spec_hex_u32(s@),
{
    let n = s.unicode_len();
    let mut start: usize = 0;
    if n > 0 && s.get_char(0) == '+' {
        start = 1;
    }
    let ghost digits = if s@.len() > 0 && s@[0] == '+' { s@.drop_first() } else { s@ };
    proof {
        assert(digits =~= s@.subrange(start as int, n as int));
    }
    if start == n {
        return None;
    }
    let mut value: u64 = 0;
    let mut i = start;
    proof {
        assert(s@.subrange(start as int, start as int) =~= Seq::<char>::empty());
    }
    while i < n
        invariant
            start <= i <= n == s@.len(),
            digits == s@.subrange(start as int, n as int),
            digits.len() > 0,
            spec_hex_u32(s@) == (match hex_digits_value(digits) {
                Some(v) => if v <= u32::MAX { Some(v as u32) } else { None },
                None => None,
            }),
            hex_digits_value(s@.subrange(start as int, i as int)) == Some(value as int),
            value <= u32::MAX,
        decreases n - i,
    {
        let c = s.get_char(i);
        proof {
            assert(digits.subrange(0, i - start + 1) =~= s@.subrange(start as int, i + 1));
            assert(s@.subrange(start as int, i + 1).last() == c);
        }
        let d: u64 = if '0' <= c && c <= '9' {
            (c as u64) - 48
        } else if 'a' <= c && c <= 'f' {
            (c as u64) - 87
        } else if 'A' <= c && c <= 'F' {
            (c as u64) - 55
        } else {
            proof {
                assert(s@.subrange(start as int, i + 1).drop_last() =~= s@.subrange(start as int, i as int));
                lemma_prefix_none(digits, (i - start + 1) as int);
            }
            return None;
        };
        proof {
            assert(s@.subrange(start as int, i + 1).drop_last() =~= s@.subrange(start as int, i as int));
            assert(hex_value(c) == Some(d as u32));
            assert(hex_digits_value(s@.subrange(start as int, i + 1)) == Some(value * 16 + d));
        }
        let next = value * 16 + d;
        if next > 0xffff_ffff {
            proof {
                lemma_prefix_too_big(digits, (i - start + 1) as int);
            }
            return None;
        }
        value = next;
        i += 1;
    }
    proof {
        assert(s@.subrange(start as int, n as int) == digits);
    }
    Some(value as u32)
}

proof fn lemma_prefix_none(s: Seq<char>, k: int)
    requires
        0 < k <= s.len(),
        hex_digits_value(s.subrange(0, k)) is None,
    ensures
        hex_digits_value(s) is None,
    decreases s.len() - k,
{
    if k < s.len() {
        assert(s.subrange(0, k + 1).drop_last() =~= s.subrange(0, k));
        lemma_prefix_none(s, k + 1);
    } else {
        assert(s.subrange(0, k) =~= s);
    }
}

proof fn lemma_prefix_too_big(s: Seq<char>, k: int)
    requires
        0 < k <= s.len(),
        hex_digits_value(s.subrange(0, k)) matches Some(v) && v > u32::MAX,
    ensures
        !(hex_digits_value(s) matches Some(v) && v <= u32::MAX),
    decreases s.len() - k,
{
    if k < s.len() {
        assert(s.subrange(0, k + 1).drop_last() =~= s.subrange(0, k));
        lemma_hex_digits_nonneg(s.subrange(0, k));
        let w = hex_digits_value(s.subrange(0, k + 1));
        if w is Some {
            lemma_prefix_too_big(s, k + 1);
        } else {
            lemma_prefix_none(s, k + 1);
        }
    } else {
        assert(s.subrange(0, k) =~= s);
    }
}

} // verus!
