//! Configuration of the feed's timing: the per-entry display duration is
//! read once per computation from an environment override, falling back to
//! a hardcoded default when the override is missing or unparsable.

use vstd::prelude::*;

verus! {

/// The default per-entry display duration, in milliseconds.
pub const FEED_ENTRY_DURATION: i32 = 10000;

pub open spec fn is_ascii_digit(b: u8) -> bool {
    48 <= b <= 57
}

pub open spec fn all_digits(s: Seq<u8>) -> bool {
    forall|i: int| 0 <= i < s.len() ==> is_ascii_digit(#[trigger] s[i])
}

/// The numeric value of a digit string, most significant first.
pub open spec fn digits_value(s: Seq<u8>) -> int
    decreases s.len(),
{
    if s.len() == 0 {
        0
    } else {
        digits_value(s.drop_last()) * 10 + (s.last() - 48)
    }
}

/// How Rust's signed 32-bit decimal parsing reads a byte string: an
/// optional sign, then at least one digit and nothing else, with the value
/// in range — anything else fails.
pub open spec fn parsed_i32(s: Seq<u8>) -> Option<i32> {
    let negative = s.len() > 0 && s[0] == 45;
    let digits = if s.len() > 0 && (s[0] == 43 || s[0] == 45) {
        s.drop_first()
    } else {
        s
    };
    if digits.len() == 0 || !all_digits(digits) {
        None
    } else {
        let v = digits_value(digits);
        if negative {
            if -v >= i32::MIN {
                Some((-v) as i32)
            } else {
                None
            }
        } else {
            if v <= i32::MAX {
                Some(v as i32)
            } else {
                None
            }
        }
    }
}

proof fn lemma_digits_value_nonneg(s: Seq<u8>)
    requires
        all_digits(s),
    ensures
        digits_value(s) >= 0,
    decreases s.len(),
{
    if s.len() > 0 {
        assert(all_digits(s.drop_last()));
        lemma_digits_value_nonneg(s.drop_last());
    }
}

/// A digit string's value only grows as digits are appended.
proof fn lemma_digits_value_prefix(s: Seq<u8>, k: int)
    requires
        all_digits(s),
        0 <= k <= s.len(),
    ensures
        digits_value(s) >= digits_value(s.subrange(0, k)),
    decreases s.len() - k,
{
    if k < s.len() {
        lemma_digits_value_prefix(s, k + 1);
        let t = s.subrange(0, k + 1);
        assert(t.drop_last() =~= s.subrange(0, k));
        assert(all_digits(s.subrange(0, k)));
        lemma_digits_value_nonneg(s.subrange(0, k));
        assert(digits_value(t) == digits_value(s.subrange(0, k)) * 10 + (t.last() - 48));
    } else {
        assert(s.subrange(0, k) =~= s);
    }
}

/// Parses a signed 32-bit decimal integer exactly as Rust's `parse::<i32>`
/// reads it.
pub fn parse_i32_decimal(s: &Vec<u8>) -> (r: Option<i32>)
    ensures
        r == parsed_i32(s@),
{
    let n = s.len();
    let signed: bool = n > 0 && (s[0] == 43 || s[0] == 45);
    let negative: bool = n > 0 && s[0] == 45;
    let start: usize = if signed {
        1
    } else {
        0
    };
    let ghost digits = if signed {
        s@.drop_first()
    } else {
        s@
    };
    proof {
        assert(digits =~= s@.subrange(start as int, n as int));
    }
    if n == start {
        return None;
    }
    let mut acc: i64 = 0;
    let mut i: usize = start;
    while i < n
        invariant
            start <= i <= n,
            start < n,
            n == s@.len(),
            signed == (n > 0 && (s@[0] == 43 || s@[0] == 45)),
            negative == (n > 0 && s@[0] == 45),
            start == if signed {
                1int
            } else {
                0int
            },
            digits == if signed {
                s@.drop_first()
            } else {
                s@
            },
            digits == s@.subrange(start as int, n as int),
            acc == digits_value(s@.subrange(start as int, i as int)),
            0 <= acc <= 0x8000_0000,
            all_digits(s@.subrange(start as int, i as int)),
        decreases n - i,
    {
        let ghost pre = s@.subrange(start as int, i as int);
        let ghost pre1 = s@.subrange(start as int, i as int + 1);
        let b = s[i];
        if b < 48 || b > 57 {
            proof {
                assert(digits[i - start] == s@[i as int]);
                assert(!all_digits(digits));
            }
            return None;
        }
        proof {
            assert(pre1.drop_last() =~= pre);
            assert(pre1.last() == s@[i as int]);
        }
        acc = acc * 10 + (b - 48) as i64;
        if acc > 0x8000_0000 {
            proof {
                if all_digits(digits) {
                    assert(pre1 =~= digits.subrange(0, i as int + 1 - start));
                    lemma_digits_value_prefix(digits, i as int + 1 - start);
                    assert(digits_value(digits) > 0x8000_0000);
                }
            }
            return None;
        }
        i = i + 1;
    }
    proof {
        assert(s@.subrange(start as int, n as int) =~= digits);
    }
    if negative {
        Some((-acc) as i32)
    } else {
        if acc > 0x7fff_ffff {
            return None;
        }
        Some(acc as i32)
    }
}

/// What the configuration yields: the override's value when it parses as a
/// 32-bit integer, the default otherwise.
pub open spec fn entry_duration_spec(raw: Option<Seq<u8>>) -> i32 {
    match raw {
        None => FEED_ENTRY_DURATION,
        Some(s) => match parsed_i32(s) {
            Some(v) => v,
            None => FEED_ENTRY_DURATION,
        },
    }
}

/// Resolves the per-entry display duration from the raw environment
/// override (its bytes), if any.
pub fn resolve_entry_duration(raw: Option<&Vec<u8>>) -> (d: i32)
    ensures
        d == entry_duration_spec(
            match raw {
                Some(v) => Some(v@),
                None => None,
            },
        ),
{
    match raw {
        None => FEED_ENTRY_DURATION,
        Some(v) => match parse_i32_decimal(v) {
            Some(d) => d,
            None => FEED_ENTRY_DURATION,
        },
    }
}

} // verus!
