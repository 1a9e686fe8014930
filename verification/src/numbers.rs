//! Integers written in text, read as `str::parse::<i64>` reads them: an
//! optional `+` or `-`, then one or more ASCII digits, and a value that fits.
use vstd::prelude::*;
use crate::sql_parse::entity::{digits_value, lemma_digits_value_push};
use crate::text::is_digit;

verus! {

/// Every character of `s` is an ASCII digit, and there is at least one.
pub open spec fn all_digits(s: Seq<char>) -> bool {
    s.len() > 0 && forall|i: int| 0 <= i < s.len() ==> is_digit(#[trigger] s[i])
}

/// The `i64` that `s` writes, if it writes one.
pub open spec fn parse_int(s: Seq<char>) -> Option<int> {
    if s.len() > 0 && (s[0] == '+' || s[0] == '-') {
        let d = s.skip(1);
        if !all_digits(d) {
            None
        } else {
            let n = if s[0] == '-' {
                -(digits_value(d) as int)
            } else {
                digits_value(d) as int
            };
            if i64::MIN <= n <= i64::MAX {
                Some(n)
            } else {
                None
            }
        }
    } else if all_digits(s) && digits_value(s) <= i64::MAX {
        Some(digits_value(s) as int)
    } else {
        None
    }
}

/// Reads `s[from..]` as digits: their value when all are digits and the
/// value is at most `2^63`, `Err(true)` when all are digits and the value
/// is larger, `Err(false)` when some character is not a digit or there is none.
fn read_digits(s: &Vec<char>, from: usize) -> (r: Result<u64, bool>)
    requires
        from <= s@.len(),
    ensures
        match r {
            Ok(v) => all_digits(s@.skip(from as int)) && v == digits_value(s@.skip(from as int)) && v <= 0x8000_0000_0000_0000u64,
            Err(big) => if big {
                all_digits(s@.skip(from as int)) && digits_value(s@.skip(from as int)) > 0x8000_0000_0000_0000u64
            } else {
                !all_digits(s@.skip(from as int))
            },
        },
{
    if from == s.len() {
        return Err(false);
    }
    let mut acc: u64 = 0;
    let mut big = false;
    let mut i: usize = from;
    while i < s.len()
        invariant
            from <= i <= s@.len(),
            forall|k: int| from <= k < i ==> is_digit(#[trigger] s@[k]),
            !big ==> acc == digits_value(s@.subrange(from as int, i as int)) && acc <= 0x8000_0000_0000_0000u64,
            big ==> digits_value(s@.subrange(from as int, i as int)) > 0x8000_0000_0000_0000u64,
        decreases s@.len() - i,
    {
        let c = s[i];
        if !('0' <= c && c <= '9') {
            proof {
                assert(s@.skip(from as int)[i - from] == c);
            }
            return Err(false);
        }
        proof {
            lemma_digits_value_push(s@.subrange(from as int, i as int), c);
            assert(s@.subrange(from as int, i as int).push(c) =~= s@.subrange(from as int, i + 1));
        }
        if !big {
            let d: u64 = (c as u32 - '0' as u32) as u64;
            if acc > 0x0CCC_CCCC_CCCC_CCCCu64 || acc * 10 + d > 0x8000_0000_0000_0000u64 {
                big = true;
            } else {
                acc = acc * 10 + d;
            }
        }
        i = i + 1;
    }
    proof {
        assert(s@.subrange(from as int, s@.len() as int) =~= s@.skip(from as int));
        assert forall|k: int| 0 <= k < s@.skip(from as int).len() implies is_digit(#[trigger] s@.skip(from as int)[k]) by {
            assert(s@.skip(from as int)[k] == s@[from + k]);
        }
    }
    if big {
        Err(true)
    } else {
        Ok(acc)
    }
}

/// Reads `s` as an `i64` the way `str::parse::<i64>` does.
pub fn parse_i64(s: &Vec<char>) -> (r: Option<i64>)
    ensures
        match r {
            Some(n) => parse_int(s@) == Some(n as int),
            None => parse_int(s@) is None,
        },
{
    if s.len() > 0 && (s[0] == '+' || s[0] == '-') {
        let neg = s[0] == '-';
        match read_digits(s, 1) {
            Ok(v) => {
                if neg {
                    if v == 0x8000_0000_0000_0000u64 {
                        Some(i64::MIN)
                    } else {
                        let n: i64 = v as i64;
                        Some(-n)
                    }
                } else if v <= 0x7FFF_FFFF_FFFF_FFFFu64 {
                    Some(v as i64)
                } else {
                    None
                }
            },
            Err(_) => None,
        }
    } else {
        proof {
            assert(s@.skip(0) =~= s@);
        }
        match read_digits(s, 0) {
            Ok(v) => {
                if v <= 0x7FFF_FFFF_FFFF_FFFFu64 {
                    Some(v as i64)
                } else {
                    None
                }
            },
            Err(_) => None,
        }
    }
}

} // verus!
