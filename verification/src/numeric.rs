//! Decimal integer parsing for numeric facet values.
//!
//! A facet value is a decimal integer literal: an optional ASCII sign
//! followed by one or more ASCII digits. [`parse_i64`] accepts exactly the
//! literals whose value fits in an `i64` and returns that exact value.

use vstd::prelude::*;

verus! {

/// Whether `c` is an ASCII decimal digit.
pub open spec fn is_digit(c: char) -> bool {
    48 <= c as u32 <= 57
}

/// The numeric value of the digit `c`.
pub open spec fn digit_val(c: char) -> int {
    c as u32 - 48
}

/// Whether every character of `s` is an ASCII decimal digit.
pub open spec fn all_digits(s: Seq<char>) -> bool {
    forall|i: int| 0 <= i < s.len() ==> is_digit(#[trigger] s[i])
}

/// The value of a string of decimal digits, most significant first.
pub open spec fn digits_val(s: Seq<char>) -> int
    decreases s.len(),
{
    if s.len() == 0 {
        0
    } else {
        digits_val(s.drop_last()) * 10 + digit_val(s.last())
    }
}

/// The digits of an integer literal: everything after an optional leading
/// sign.
pub open spec fn digits_of(s: Seq<char>) -> Seq<char> {
    if s.len() > 0 && (s[0] == '+' || s[0] == '-') {
        s.drop_first()
    } else {
        s
    }
}

/// The sign of an integer literal.
pub open spec fn sign_of(s: Seq<char>) -> int {
    if s.len() > 0 && s[0] == '-' {
        -1
    } else {
        1
    }
}

/// Whether `s` is a decimal integer literal: an optional sign followed by
/// one or more digits.
pub open spec fn is_int_literal(s: Seq<char>) -> bool {
    &&& digits_of(s).len() > 0
    &&& all_digits(digits_of(s))
}

/// The value a decimal integer literal denotes.
pub open spec fn int_value(s: Seq<char>) -> int {
    sign_of(s) * digits_val(digits_of(s))
}

/// Whether `s` is a decimal integer literal whose value fits in an `i64`.
pub open spec fn parses_to_i64(s: Seq<char>) -> bool {
    &&& is_int_literal(s)
    &&& i64::MIN <= int_value(s) <= i64::MAX
}

proof fn lemma_digits_val_nonneg(s: Seq<char>)
    requires
        all_digits(s),
    ensures
        digits_val(s) >= 0,
    decreases s.len(),
{
    if s.len() > 0 {
        assert(all_digits(s.drop_last()));
        lemma_digits_val_nonneg(s.drop_last());
    }
}

/// Appending digits never shrinks the value of a digit string.
proof fn lemma_digits_val_prefix(s: Seq<char>, i: int)
    requires
        all_digits(s),
        0 <= i <= s.len(),
    ensures
        digits_val(s.subrange(0, i)) <= digits_val(s),
    decreases s.len() - i,
{
    if i < s.len() {
        lemma_digits_val_prefix(s, i + 1);
        let t = s.subrange(0, i + 1);
        assert(t.drop_last() =~= s.subrange(0, i));
        assert(all_digits(s.subrange(0, i)));
        lemma_digits_val_nonneg(s.subrange(0, i));
        assert(digits_val(t) == digits_val(s.subrange(0, i)) * 10 + digit_val(s[i]));
    } else {
        assert(s.subrange(0, i) =~= s);
    }
}

/// Parses a decimal integer literal.
///
/// Returns `Some` exactly when `s` is an optional ASCII sign followed by one
/// or more ASCII digits denoting a value in the `i64` range, and then
/// returns that exact value.
pub fn parse_i64(s: &str) -> (r: Option<i64>)
    ensures
        match r {
            Some(v) => parses_to_i64(s@) && v as int == int_value(s@),
            None => !parses_to_i64(s@),
        },
{
    let len = s.unicode_len();
    if len == 0 {
        return None;
    }
    let first = s.get_char(0);
    let neg = first == '-';
    let start: usize = if first == '-' || first == '+' {
        1
    } else {
        0
    };
    if start == len {
        // A bare sign has no digits.
        return None;
    }
    let ghost ds = digits_of(s@);
    proof {
        if start == 1 {
            assert(ds =~= s@.subrange(1, len as int));
        } else {
            assert(ds =~= s@);
        }
    }
    // The magnitude bound for the chosen sign, split as quotient and last
    // digit of its decimal form: both bounds share the quotient.
    let limit_last: u64 = if neg {
        8
    } else {
        7
    };
    let mut acc: u64 = 0;
    let mut i: usize = start;
    while i < len
        invariant
            start <= i <= len,
            0 < len == s@.len(),
            neg == (s@[0] == '-'),
            start == if s@[0] == '-' || s@[0] == '+' {
                1int
            } else {
                0int
            },
            ds == digits_of(s@),
            ds.len() == len - start,
            forall|k: int| 0 <= k < ds.len() ==> ds[k] == s@[k + start],
            all_digits(ds.subrange(0, i - start)),
            acc as int == digits_val(ds.subrange(0, i - start)),
            acc <= 9223372036854775807 + if neg {
                1int
            } else {
                0int
            },
            limit_last == if neg {
                8int
            } else {
                7int
            },
        decreases len - i,
    {
        let c = s.get_char(i);
        let cv = c as u32;
        proof {
            assert(ds[i - start] == s@[i as int]);
        }
        if cv < 48 || cv > 57 {
            proof {
                assert(!is_digit(ds[i - start]));
                assert(!all_digits(ds));
            }
            return None;
        }
        let d = (cv - 48) as u64;
        let ghost pre = ds.subrange(0, i - start);
        let ghost cur = ds.subrange(0, i + 1 - start);
        proof {
            assert(cur.drop_last() =~= pre);
            assert(cur.last() == ds[i - start]);
            assert(all_digits(cur));
            assert(digits_val(cur) == digits_val(pre) * 10 + digit_val(ds[i - start]));
        }
        if acc > 922337203685477580 || (acc == 922337203685477580 && d > limit_last) {
            // The digits read so far already denote a value outside the
            // `i64` range; more digits can only keep it outside.
            proof {
                if !all_digits(ds) {
                    assert(!is_int_literal(s@));
                } else {
                    lemma_digits_val_prefix(ds, i + 1 - start);
                    assert(digits_val(ds) >= digits_val(cur));
                    assert(digits_val(cur) == acc as int * 10 + d as int);
                    if neg {
                        assert(sign_of(s@) == -1);
                        assert(digits_val(cur) >= 9223372036854775809);
                        assert(int_value(s@) < i64::MIN);
                    } else {
                        assert(sign_of(s@) == 1);
                        assert(digits_val(cur) >= 9223372036854775808);
                        assert(int_value(s@) > i64::MAX);
                    }
                }
            }
            return None;
        }
        acc = acc * 10 + d;
        i = i + 1;
    }
    proof {
        assert(ds.subrange(0, len - start) =~= ds);
        assert(is_int_literal(s@));
        lemma_digits_val_nonneg(ds);
    }
    if neg {
        if acc == 9223372036854775808 {
            Some(i64::MIN)
        } else {
            Some(-(acc as i64))
        }
    } else {
        Some(acc as i64)
    }
}

} // verus!
