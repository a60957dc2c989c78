//! Parsing decimal integer text, as the interactive tools read it.
//!
//! The accepted grammar matches what the tools need: an optional sign,
//! then one or more ASCII digits, with the value in range for the target
//! type. Anything else is rejected, and the caller prompts again.

use vstd::prelude::*;

verus! {

/// Whether `b` is an ASCII decimal digit, `'0'` through `'9'`.
pub open spec fn is_ascii_digit(b: u8) -> bool {
    48 <= b <= 57
}

/// Whether every byte of `s` is an ASCII decimal digit.
pub open spec fn all_digits(s: Seq<u8>) -> bool {
    forall|i: int| 0 <= i < s.len() ==> is_ascii_digit(#[trigger] s[i])
}

/// The number that a sequence of ASCII digits denotes, most significant
/// digit first.
pub open spec fn digits_value(s: Seq<u8>) -> int
    decreases s.len(),
{
    if s.len() == 0 {
        0
    } else {
        10 * digits_value(s.drop_last()) + (s.last() - 48)
    }
}

/// A digit string denotes a non-negative number.
proof fn lemma_digits_value_nonneg(s: Seq<u8>)
    requires
        all_digits(s),
    ensures
        digits_value(s) >= 0,
    decreases s.len(),
{
    if s.len() > 0 {
        assert(all_digits(s.drop_last()));
        lemma_digits_value_nonneg(s.drop_last());
    }
}

/// Dropping trailing digits never increases the denoted value.
proof fn lemma_digits_value_prefix(s: Seq<u8>, k: int)
    requires
        all_digits(s),
        0 <= k <= s.len(),
    ensures
        digits_value(s.take(k)) <= digits_value(s),
    decreases s.len() - k,
{
    if k < s.len() {
        assert(all_digits(s.drop_last()));
        assert(s.drop_last().take(k) =~= s.take(k));
        lemma_digits_value_prefix(s.drop_last(), k);
        lemma_digits_value_nonneg(s.drop_last());
    } else {
        assert(s.take(k) =~= s);
    }
}

/// Reading one more digit multiplies the value so far by ten and adds it.
proof fn lemma_digits_value_step(s: Seq<u8>, k: int)
    requires
        0 <= k < s.len(),
    ensures
        digits_value(s.take(k + 1)) == 10 * digits_value(s.take(k)) + (s[k] - 48),
{
    assert(s.take(k + 1).drop_last() =~= s.take(k));
    assert(s.take(k + 1).last() == s[k]);
}

/// The digits of `s`, after an optional leading `'+'`.
pub open spec fn unsigned_body(s: Seq<u8>) -> Seq<u8> {
    if s.len() > 0 && s[0] == 43 {
        s.skip(1)
    } else {
        s
    }
}

/// Whether `s` spells a `u128`: an optional `'+'`, then one or more
/// decimal digits, denoting a value that fits.
pub open spec fn is_u128_text(s: Seq<u8>) -> bool {
    let b = unsigned_body(s);
    b.len() > 0 && all_digits(b) && digits_value(b) <= u128::MAX
}

/// Parses `s` as a `u128` written in decimal, with an optional leading
/// `'+'`. Returns the denoted value exactly when `s` spells one, and
/// `None` on anything else: an empty or sign-only input, a byte that is
/// not a digit, or a value too large for the type.
pub fn parse_u128(s: &[u8]) -> (r: Option<u128>)
    ensures
        r is Some <==> is_u128_text(s@),
        r is Some ==> r == Some(digits_value(unsigned_body(s@)) as u128),
{
    let ghost body = unsigned_body(s@);
    let n = s.len();
    // 43 is '+'
    let start: usize = if n > 0 && s[0] == 43 {
        1
    } else {
        0
    };
    proof {
        assert(body =~= s@.skip(start as int));
    }
    if start >= n {
        return None;
    }
    let mut acc: u128 = 0;
    let mut i: usize = start;
    while i < n
        invariant
            start <= i <= n == s@.len(),
            start <= 1,
            body == unsigned_body(s@),
            body =~= s@.skip(start as int),
            all_digits(body.take(i - start)),
            acc == digits_value(body.take(i - start)),
        decreases n - i,
    {
        let b = s[i];
        proof {
            assert(body[i - start] == s@[i as int]);
        }
        // 48 and 57 are '0' and '9'
        if b < 48 || b > 57 {
            proof {
                assert(!is_ascii_digit(body[i - start]));
            }
            return None;
        }
        let d: u128 = (b - 48) as u128;
        proof {
            lemma_digits_value_step(body, i - start);
            assert forall|j: int| 0 <= j < i - start + 1 implies is_ascii_digit(
                #[trigger] body.take(i - start + 1)[j],
            ) by {
                if j < i - start {
                    assert(body.take(i - start)[j] == body[j]);
                }
            }
            assert(all_digits(body.take(i - start + 1)));
        }
        let next: u128 = match acc.checked_mul(10) {
            Some(x) => match x.checked_add(d) {
                Some(y) => y,
                None => {
                    proof {
                        lemma_value_overflows(body, i - start + 1, u128::MAX as int);
                    }
                    return None;
                },
            },
            None => {
                proof {
                    lemma_value_overflows(body, i - start + 1, u128::MAX as int);
                }
                return None;
            },
        };
        acc = next;
        i = i + 1;
    }
    proof {
        assert(body.take(n - start) =~= body);
    }
    Some(acc)
}

/// The digits of `s`, after an optional leading `'+'` or `'-'`.
pub open spec fn signed_body(s: Seq<u8>) -> Seq<u8> {
    if s.len() > 0 && (s[0] == 43 || s[0] == 45) {
        s.skip(1)
    } else {
        s
    }
}

/// Whether `s` starts with a `'-'` sign.
pub open spec fn signed_negative(s: Seq<u8>) -> bool {
    s.len() > 0 && s[0] == 45
}

/// The integer that signed decimal text denotes: the value of its digits,
/// negated when the text starts with `'-'`.
pub open spec fn signed_value(s: Seq<u8>) -> int {
    if signed_negative(s) {
        -digits_value(signed_body(s))
    } else {
        digits_value(signed_body(s))
    }
}

/// Whether `s` spells an `i32`: an optional `'+'` or `'-'`, then one or
/// more decimal digits, denoting a value in range for the type.
pub open spec fn is_i32_text(s: Seq<u8>) -> bool {
    let b = signed_body(s);
    b.len() > 0 && all_digits(b) && i32::MIN <= signed_value(s) <= i32::MAX
}

/// Parses `s` as an `i32` written in decimal, with an optional leading
/// sign. Returns the denoted value exactly when `s` spells one, and
/// `None` on anything else: an empty or sign-only input, a byte that is
/// not a digit, or a value out of range for the type.
pub fn parse_i32(s: &[u8]) -> (r: Option<i32>)
    ensures
        r is Some <==> is_i32_text(s@),
        r is Some ==> r == Some(signed_value(s@) as i32),
{
    let ghost body = signed_body(s@);
    let n = s.len();
    // 43 and 45 are '+' and '-'
    let neg = n > 0 && s[0] == 45;
    let start: usize = if n > 0 && (s[0] == 43 || s[0] == 45) {
        1
    } else {
        0
    };
    proof {
        assert(body =~= s@.skip(start as int));
    }
    if start >= n {
        return None;
    }
    // The largest admissible magnitude: one more for negative values,
    // whose range reaches one further down than up.
    let limit: u64 = if neg {
        2147483648
    } else {
        2147483647
    };
    let mut acc: u64 = 0;
    let mut i: usize = start;
    while i < n
        invariant
            start <= i <= n == s@.len(),
            start <= 1,
            body == signed_body(s@),
            body =~= s@.skip(start as int),
            neg == signed_negative(s@),
            limit == if neg { 2147483648int } else { 2147483647int },
            all_digits(body.take(i - start)),
            acc == digits_value(body.take(i - start)),
            acc <= limit,
        decreases n - i,
    {
        let b = s[i];
        proof {
            assert(body[i - start] == s@[i as int]);
        }
        // 48 and 57 are '0' and '9'
        if b < 48 || b > 57 {
            proof {
                assert(!is_ascii_digit(body[i - start]));
            }
            return None;
        }
        let d: u64 = (b - 48) as u64;
        proof {
            lemma_digits_value_step(body, i - start);
            assert forall|j: int| 0 <= j < i - start + 1 implies is_ascii_digit(
                #[trigger] body.take(i - start + 1)[j],
            ) by {
                if j < i - start {
                    assert(body.take(i - start)[j] == body[j]);
                }
            }
            assert(all_digits(body.take(i - start + 1)));
        }
        let next: u64 = acc * 10 + d;
        if next > limit {
            proof {
                lemma_value_overflows(body, i - start + 1, limit as int);
            }
            return None;
        }
        acc = next;
        i = i + 1;
    }
    proof {
        assert(body.take(n - start) =~= body);
    }
    if neg {
        if acc == 2147483648 {
            Some(i32::MIN)
        } else {
            Some(-(acc as i32))
        }
    } else {
        Some(acc as i32)
    }
}

/// If some digit prefix of `s` already denotes more than `bound`, the
/// whole of `s` cannot spell a value within `bound`, whatever follows.
proof fn lemma_value_overflows(s: Seq<u8>, k: int, bound: int)
    requires
        0 <= k <= s.len(),
        all_digits(s.take(k)),
        digits_value(s.take(k)) > bound,
    ensures
        !(all_digits(s) && digits_value(s) <= bound),
{
    if all_digits(s) {
        lemma_digits_value_prefix(s, k);
    }
}

} // verus!
