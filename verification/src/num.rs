//! The numeric literal interpreter: base selection by prefix
//! (`0x`/`0X` hex, `0b`/`0B` binary, one stripped leading zero octal,
//! otherwise decimal), then an unsigned digit parse in that base.

use vstd::prelude::*;

use crate::ParseError;

verus! {

/// The numeric value of one digit character in bases up to 36,
/// or `-1` where the character is no digit at all.
pub open spec fn spec_digit_val(c: char) -> int {
    if '0' <= c && c <= '9' {
        c as int - '0' as int
    } else if 'a' <= c && c <= 'z' {
        c as int - 'a' as int + 10
    } else if 'A' <= c && c <= 'Z' {
        c as int - 'A' as int + 10
    } else {
        -1
    }
}

/// Every character of `s` is a digit valid under `base`.
pub open spec fn spec_digits_ok(s: Seq<char>, base: int) -> bool {
    forall|i: int| 0 <= i < s.len() ==> 0 <= #[trigger] spec_digit_val(s[i]) < base
}

/// The unsigned integer the digit string `s` denotes under `base`
/// (meaningful only where `spec_digits_ok(s, base)` holds).
pub open spec fn spec_num_val(s: Seq<char>, base: int) -> int
    decreases s.len(),
{
    if s.len() == 0 {
        0
    } else {
        spec_num_val(s.drop_last(), base) * base + spec_digit_val(s.last())
    }
}

/// What parsing a digit string under `base` yields: a value when the string
/// is non-empty, every character is a valid digit, and the value fits the
/// platform pointer width; nothing otherwise.
pub open spec fn spec_parse_radix(s: Seq<char>, base: int) -> Option<usize> {
    if s.len() > 0 && spec_digits_ok(s, base) && spec_num_val(s, base) <= usize::MAX {
        Some(spec_num_val(s, base) as usize)
    } else {
        None
    }
}

/// Base selection by prefix: the remaining digit string and the base.
pub open spec fn spec_base_of(s: Seq<char>) -> (Seq<char>, u32) {
    if s.len() >= 2 && s[0] == '0' && (s[1] == 'x' || s[1] == 'X') {
        (s.subrange(2, s.len() as int), 16u32)
    } else if s.len() >= 2 && s[0] == '0' && (s[1] == 'b' || s[1] == 'B') {
        (s.subrange(2, s.len() as int), 2u32)
    } else if s.len() >= 2 && s[0] == '0' {
        (s.subrange(1, s.len() as int), 8u32)
    } else {
        (s, 10u32)
    }
}

/// What the whole literal `s` denotes: base selection, then the digit parse.
pub open spec fn spec_parse_literal(s: Seq<char>) -> Option<usize> {
    spec_parse_radix(spec_base_of(s).0, spec_base_of(s).1 as int)
}

/// Determine the base of a numeric literal by its prefix and strip that
/// prefix: `0x`/`0X` give base 16, `0b`/`0B` base 2, a single leading zero
/// (on anything but `"0"` itself) base 8, anything else base 10.
pub fn get_base(value: &str) -> (res: (&str, u32))
    ensures
        res.0@ == spec_base_of(value@).0,
        res.1 == spec_base_of(value@).1,
{
    let len = value.unicode_len();
    if len >= 2 && value.get_char(0) == '0' {
        let c1 = value.get_char(1);
        if c1 == 'x' || c1 == 'X' {
            (value.substring_char(2, len), 16)
        } else if c1 == 'b' || c1 == 'B' {
            (value.substring_char(2, len), 2)
        } else {
            (value.substring_char(1, len), 8)
        }
    } else {
        (value, 10)
    }
}

/// The numeric value of one digit character, or `None` where it is no digit.
fn digit_val(c: char) -> (r: Option<usize>)
    ensures
        match r {
            Some(v) => spec_digit_val(c) == v as int,
            None => spec_digit_val(c) == -1,
        },
{
    if '0' <= c && c <= '9' {
        Some((c as u32 - '0' as u32) as usize)
    } else if 'a' <= c && c <= 'z' {
        Some((c as u32 - 'a' as u32 + 10) as usize)
    } else if 'A' <= c && c <= 'Z' {
        Some((c as u32 - 'A' as u32 + 10) as usize)
    } else {
        None
    }
}

/// The value a digit string denotes never shrinks as digits are appended,
/// provided the base is at least 2 and the digits are valid.
proof fn lemma_num_val_prefix(s: Seq<char>, base: int, i: int)
    requires
        2 <= base,
        spec_digits_ok(s, base),
        0 <= i <= s.len(),
    ensures
        0 <= spec_num_val(s.take(i), base) <= spec_num_val(s, base),
    decreases s.len() - i,
{
    if i == s.len() {
        assert(s.take(i) =~= s);
        lemma_num_val_nonneg(s, base);
    } else {
        lemma_num_val_prefix(s, base, i + 1);
        assert(s.take(i + 1).drop_last() =~= s.take(i));
        assert(s.take(i + 1).last() == s[i]);
        lemma_num_val_nonneg(s.take(i), base);
        assert(spec_num_val(s.take(i + 1), base)
            == spec_num_val(s.take(i), base) * base + spec_digit_val(s[i]));
        assert(spec_num_val(s.take(i), base) * base >= spec_num_val(s.take(i), base)) by (
            nonlinear_arith
        )
            requires
                spec_num_val(s.take(i), base) >= 0,
                base >= 2,
        ;
    }
}

/// A valid digit string denotes a non-negative value.
proof fn lemma_num_val_nonneg(s: Seq<char>, base: int)
    requires
        2 <= base,
        spec_digits_ok(s, base),
    ensures
        0 <= spec_num_val(s, base),
    decreases s.len(),
{
    if s.len() > 0 {
        assert(spec_digits_ok(s.drop_last(), base));
        lemma_num_val_nonneg(s.drop_last(), base);
        assert(spec_num_val(s.drop_last(), base) * base >= 0) by (nonlinear_arith)
            requires
                spec_num_val(s.drop_last(), base) >= 0,
                base >= 2,
        ;
    }
}

/// Parse a digit string as an unsigned integer under the given base.
pub fn parse_radix(s: &str, base: u32) -> (r: Result<usize, ParseError>)
    requires
        base == 2 || base == 8 || base == 10 || base == 16,
    ensures
        match r {
            Ok(n) => spec_parse_radix(s@, base as int) == Some(n),
            Err(e) => spec_parse_radix(s@, base as int) == None::<usize> && e
                == ParseError::ParseIntError,
        },
{
    let len = s.unicode_len();
    if len == 0 {
        return Err(ParseError::ParseIntError);
    }
    let mut acc: usize = 0;
    let mut i: usize = 0;
    while i < len
        invariant
            base == 2 || base == 8 || base == 10 || base == 16,
            0 <= i <= len,
            len == s@.len(),
            spec_digits_ok(s@.take(i as int), base as int),
            acc == spec_num_val(s@.take(i as int), base as int),
        decreases len - i,
    {
        let c = s.get_char(i);
        let d = match digit_val(c) {
            Some(v) => v,
            None => {
                assert(spec_digit_val(s@[i as int]) == -1);
                return Err(ParseError::ParseIntError);
            },
        };
        if d >= base as usize {
            assert(spec_digit_val(s@[i as int]) >= base);
            return Err(ParseError::ParseIntError);
        }
        assert(s@.take(i + 1).drop_last() =~= s@.take(i as int));
        assert(s@.take(i + 1).last() == s@[i as int]);
        let next = match acc.checked_mul(base as usize) {
            Some(m) => m.checked_add(d),
            None => None,
        };
        match next {
            Some(v) => {
                acc = v;
            },
            None => {
                proof {
                    assert(spec_num_val(s@.take(i + 1), base as int) > usize::MAX);
                    if spec_digits_ok(s@, base as int) {
                        lemma_num_val_prefix(s@, base as int, i + 1);
                    }
                }
                return Err(ParseError::ParseIntError);
            },
        }
        i = i + 1;
    }
    proof {
        assert(s@.take(len as int) =~= s@);
    }
    Ok(acc)
}

/// Interpret a textual integer: determine the base by prefix, then parse the
/// remaining digits; fails with `ParseIntError` where a digit is invalid for
/// the chosen base, the digit string is empty, or the value overflows.
pub fn parse_usize(value: &str) -> (r: Result<usize, ParseError>)
    ensures
        match r {
            Ok(n) => spec_parse_literal(value@) == Some(n),
            Err(e) => spec_parse_literal(value@) == None::<usize> && e
                == ParseError::ParseIntError,
        },
{
    let (digits, base) = get_base(value);
    parse_radix(digits, base)
}

} // verus!
