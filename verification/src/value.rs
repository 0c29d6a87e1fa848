use vstd::prelude::*;
use vstd::string::StrSliceExecFns;

verus! {

/// Whether `c` is a decimal digit.
pub open spec fn is_dec_digit(c: char) -> bool {
    '0' <= c && c <= '9'
}

/// The numeric value of a decimal digit.
pub open spec fn digit_val(c: char) -> int {
    c as int - '0' as int
}

/// Whether every character of `s` is a decimal digit.
pub open spec fn all_dec_digits(s: Seq<char>) -> bool {
    forall|i: int| 0 <= i < s.len() ==> is_dec_digit(#[trigger] s[i])
}

/// The number denoted by a string of decimal digits, most significant
/// first. The empty string denotes zero.
pub open spec fn digits_value(s: Seq<char>) -> int
    decreases s.len(),
{
    if s.len() == 0 {
        0
    } else {
        digits_value(s.drop_last()) * 10 + digit_val(s.last())
    }
}

/// The integer denoted by `s` under this library's parsing rule: an
/// optional leading minus sign, then one or more decimal digits. Any other
/// shape denotes nothing.
pub open spec fn dec_int_of(s: Seq<char>) -> Option<int> {
    if s.len() >= 1 && s[0] == '-' {
        if s.len() >= 2 && all_dec_digits(s.skip(1)) {
            Some(-digits_value(s.skip(1)))
        } else {
            None
        }
    } else if s.len() >= 1 && all_dec_digits(s) {
        Some(digits_value(s))
    } else {
        None
    }
}

/// A string of digits denotes a number that is not negative.
pub proof fn lemma_digits_value_nonneg(s: Seq<char>)
    requires
        all_dec_digits(s),
    ensures
        digits_value(s) >= 0,
    decreases s.len(),
{
    if s.len() > 0 {
        assert(all_dec_digits(s.drop_last()));
        lemma_digits_value_nonneg(s.drop_last());
    }
}

/// Reading one more digit multiplies the prefix's value by ten and adds
/// that digit.
pub proof fn lemma_digits_value_step(s: Seq<char>, k: int)
    requires
        0 <= k < s.len(),
    ensures
        digits_value(s.take(k + 1)) == digits_value(s.take(k)) * 10 + digit_val(s[k]),
{
    assert(s.take(k + 1).drop_last() =~= s.take(k));
    assert(s.take(k + 1).last() == s[k]);
}

/// A prefix of a digit string never denotes more than the whole string.
pub proof fn lemma_digits_prefix_le(s: Seq<char>, k: int)
    requires
        all_dec_digits(s),
        0 <= k <= s.len(),
    ensures
        digits_value(s.take(k)) <= digits_value(s),
    decreases s.len() - k,
{
    if k == s.len() {
        assert(s.take(k) =~= s);
    } else {
        assert(all_dec_digits(s.take(k)));
        lemma_digits_value_nonneg(s.take(k));
        lemma_digits_value_step(s, k);
        assert(digits_value(s.take(k)) * 10 >= digits_value(s.take(k))) by (nonlinear_arith)
            requires
                digits_value(s.take(k)) >= 0,
        ;
        lemma_digits_prefix_le(s, k + 1);
    }
}

/// With `q = (limit - d) / 10`: an accumulator at most `q` can take one
/// more digit without passing `limit`, and one above `q` cannot.
proof fn lemma_acc_step_bound(acc: int, d: int, limit: int)
    requires
        0 <= d <= 9,
        d <= limit,
        acc >= 0,
    ensures
        acc <= (limit - d) / 10 ==> acc * 10 + d <= limit,
        acc > (limit - d) / 10 ==> acc * 10 + d > limit,
{
    let q = (limit - d) / 10;
    vstd::arithmetic::div_mod::lemma_fundamental_div_mod(limit - d, 10);
    assert(limit - d == 10 * q + (limit - d) % 10);
    assert(acc <= q ==> acc * 10 <= q * 10) by (nonlinear_arith);
    assert(acc >= q + 1 ==> acc * 10 >= (q + 1) * 10) by (nonlinear_arith);
}

/// A value that can be recovered from the text of a command-line argument,
/// by a parsing rule the implementor states.
pub trait FromText: Sized {
    /// Which strings denote a value, and which value they denote.
    spec fn spec_parse(s: Seq<char>) -> Option<Self>;

    /// Parses `s`, returning a value exactly when `s` denotes one.
    fn parse_text(s: &str) -> (r: Option<Self>)
        ensures
            r == Self::spec_parse(s@),
    ;
}

impl FromText for i64 {
    /// The integer denoted by `s`, when there is one and it fits.
    open spec fn spec_parse(s: Seq<char>) -> Option<i64> {
        match dec_int_of(s) {
            Some(v) => if i64::MIN <= v <= i64::MAX {
                Some(v as i64)
            } else {
                None
            },
            None => None,
        }
    }

    fn parse_text(s: &str) -> (r: Option<i64>) {
        let n: usize = s.unicode_len();
        if n == 0 {
            return None;
        }
        let neg: bool = s.get_char(0) == '-';
        let start: usize = if neg {
            1
        } else {
            0
        };
        if n == start {
            return None;
        }
        let limit: u64 = if neg {
            9223372036854775808
        } else {
            9223372036854775807
        };
        let ghost digits: Seq<char> = s@.skip(start as int);
        proof {
            if !neg {
                assert(digits =~= s@);
            }
        }
        let mut acc: u64 = 0;
        let mut i: usize = start;
        while i < n
            invariant
                start <= i <= n,
                n == s@.len(),
                n > start,
                start == if neg {
                    1int
                } else {
                    0int
                },
                neg == (s@[0] == '-'),
                digits == s@.skip(start as int),
                all_dec_digits(digits.take(i - start)),
                acc as int == digits_value(digits.take(i - start)),
                acc <= limit,
                limit == if neg {
                    9223372036854775808u64
                } else {
                    9223372036854775807u64
                },
            decreases n - i,
        {
            let ghost k: int = i - start;
            let c = s.get_char(i);
            if c < '0' || c > '9' {
                proof {
                    assert(digits[k] == s@[i as int]);
                    assert(!is_dec_digit(digits[k]));
                    assert(!all_dec_digits(digits));
                    assert(!(neg && all_dec_digits(s@.skip(1))));
                    assert(!(!neg && all_dec_digits(s@)));
                }
                return None;
            }
            let d: u64 = (c as u32 - '0' as u32) as u64;
            proof {
                assert(d as int == digit_val(digits[k]));
                lemma_acc_step_bound(acc as int, d as int, limit as int);
                lemma_digits_value_step(digits, k);
            }
            if acc > (limit - d) / 10 {
                proof {
                    assert(digits_value(digits.take(k + 1)) > limit as int);
                    if all_dec_digits(digits) {
                        lemma_digits_prefix_le(digits, k + 1);
                        assert(digits_value(digits) > limit as int);
                    }
                    if !neg {
                        assert(digits =~= s@);
                    }
                }
                return None;
            }
            acc = acc * 10 + d;
            proof {
                assert(all_dec_digits(digits.take(k + 1)));
            }
            i = i + 1;
        }
        proof {
            assert(digits.take(n - start as int) =~= digits);
            assert(all_dec_digits(digits));
            assert(acc as int == digits_value(digits));
        }
        if neg {
            if acc == 9223372036854775808 {
                Some(i64::MIN)
            } else {
                Some(-(acc as i64))
            }
        } else {
            Some(acc as i64)
        }
    }
}

} // verus!
