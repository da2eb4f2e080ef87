//! Match thresholds: decimal percentages held exactly, as a sign, the digits
//! written, and how many of them stand after the decimal point.
use vstd::prelude::*;
use crate::text::{
    all_digits, digits_at, digits_value, lemma_split_concat, lemma_split_nonempty, lemma_split_single,
    skip_sign, split_on, strip_sign,
};

verus! {

/// The value `(-1 if negative) * mantissa / 10^scale`, in percent.
#[derive(Clone, Copy, Debug, PartialEq, Eq)]
pub struct Percentage {
    pub negative: bool,
    pub mantissa: u64,
    pub scale: usize,
}

pub open spec fn pow10(n: nat) -> int
    decreases n,
{
    if n == 0 {
        1
    } else {
        10 * pow10((n - 1) as nat)
    }
}

/// A decimal field: an optional `+` or `-`, then digits with at most one `.`
/// among them and at least one digit; the digits together, as one number,
/// must fit in a `u64`, and the scale is the count of digits after the `.`.
pub open spec fn percentage_field(s: Seq<char>) -> Option<Percentage> {
    let negative = s.len() > 0 && s[0] == '-';
    let body = if negative {
        s.drop_first()
    } else {
        strip_sign(s, '+')
    };
    let parts = split_on(body, '.');
    let whole = parts[0];
    let fraction = if parts.len() == 2 {
        parts[1]
    } else {
        Seq::<char>::empty()
    };
    let digits = whole + fraction;
    if parts.len() <= 2 && digits.len() > 0 && all_digits(digits) && digits_value(digits)
        <= u64::MAX {
        Some(
            Percentage {
                negative,
                mantissa: digits_value(digits) as u64,
                scale: fraction.len() as usize,
            },
        )
    } else {
        None
    }
}

impl Percentage {
    pub open spec fn signed_mantissa(self) -> int {
        if self.negative {
            -(self.mantissa as int)
        } else {
            self.mantissa as int
        }
    }

    /// Whether this percentage is at most `100 * matching / total`, the ratio
    /// of an empty region (`total == 0`) counting as zero.  Both sides are
    /// multiplied by `10^scale * total`, so the comparison is exact.
    pub open spec fn met_by(self, matching: int, total: int) -> bool {
        if total == 0 {
            self.signed_mantissa() <= 0
        } else {
            self.signed_mantissa() * total <= 100 * matching * pow10(self.scale as nat)
        }
    }

    /// Whether `matching` pixels out of `total` reach this threshold.
    pub fn is_met_by(&self, matching: u64, total: u64) -> (r: bool)
        ensures
            r == self.met_by(matching as int, total as int),
    {
        if self.negative || self.mantissa == 0 {
            proof {
                lemma_pow10_positive(self.scale as nat);
                assert(0 <= 100 * matching * pow10(self.scale as nat)) by (nonlinear_arith)
                    requires
                        pow10(self.scale as nat) >= 1,
                ;
                assert(self.signed_mantissa() * total <= 0) by (nonlinear_arith)
                    requires
                        self.signed_mantissa() <= 0,
                        total >= 0,
                ;
            }
            return true;
        }
        if total == 0 {
            return false;
        }
        assert((self.mantissa as u128) * (total as u128) <= 0xffff_ffff_ffff_fffe_0000_0000_0000_0001u128)
            by (nonlinear_arith)
            requires
                self.mantissa <= u64::MAX,
                total <= u64::MAX,
        ;
        let lhs: u128 = self.mantissa as u128 * total as u128;
        assert(self.signed_mantissa() * total == lhs);
        assert(lhs <= 0xffff_ffff_ffff_fffe_0000_0000_0000_0001u128) by (nonlinear_arith)
            requires
                lhs == self.mantissa as int * total as int,
                self.mantissa <= u64::MAX,
                total <= u64::MAX,
        ;
        let mut rhs: u128 = 100u128 * matching as u128;
        let mut i: usize = 0;
        assert(pow10(0) == 1);
        while i < self.scale
            invariant
                i <= self.scale,
                total > 0,
                lhs == self.mantissa * total,
                lhs == self.signed_mantissa() * total,
                lhs <= 0xffff_ffff_ffff_fffe_0000_0000_0000_0001u128,
                rhs == 100 * matching * pow10(i as nat),
            decreases self.scale - i,
        {
            if rhs > lhs || rhs > u128::MAX / 10 {
                proof {
                    let rest = (self.scale - i) as nat;
                    lemma_pow10_add(i as nat, rest);
                    lemma_pow10_positive((rest - 1) as nat);
                    assert(pow10(rest) == 10 * pow10((rest - 1) as nat));
                    assert(100 * matching * pow10(self.scale as nat) == rhs * pow10(rest)) by (nonlinear_arith)
                        requires
                            pow10(self.scale as nat) == pow10(i as nat) * pow10(rest),
                            rhs == 100 * matching * pow10(i as nat),
                    ;
                    assert(rhs * pow10(rest) > lhs) by (nonlinear_arith)
                        requires
                            rhs > lhs || rhs > u128::MAX / 10,
                            pow10(rest) == 10 * pow10((rest - 1) as nat),
                            pow10((rest - 1) as nat) >= 1,
                            lhs <= 0xffff_ffff_ffff_fffe_0000_0000_0000_0001u128,
                            rhs >= 0,
                    ;
                }
                return true;
            }
            rhs = rhs * 10;
            i += 1;
            proof {
                assert(pow10(i as nat) == 10 * pow10((i - 1) as nat));
                assert(rhs == 100 * matching * pow10(i as nat)) by (nonlinear_arith)
                    requires
                        rhs == 10 * (100 * matching * pow10((i - 1) as nat)),
                        pow10(i as nat) == 10 * pow10((i - 1) as nat),
                ;
            }
        }
        lhs <= rhs
    }
}

/// Reads `chars[a..b]` as a decimal percentage.
pub fn percentage_at(chars: &Vec<char>, a: usize, b: usize) -> (r: Option<Percentage>)
    requires
        a <= b <= chars@.len(),
    ensures
        r == percentage_field(chars@.subrange(a as int, b as int)),
{
    let ghost s = chars@.subrange(a as int, b as int);
    let negative = a < b && chars[a] == '-';
    let start = if negative {
        assert(chars@.subrange(a + 1, b as int) =~= s.drop_first());
        a + 1
    } else {
        skip_sign(chars, a, b, '+')
    };
    let ghost body = chars@.subrange(start as int, b as int);
    let mut dot: usize = start;
    while dot < b && chars[dot] != '.'
        invariant
            start <= dot <= b <= chars@.len(),
            forall|k: int| start <= k < dot ==> chars@[k] != '.',
        decreases b - dot,
    {
        dot += 1;
    }
    if dot == b {
        assert(forall|i: int| 0 <= i < body.len() ==> body[i] != '.');
        proof {
            lemma_split_single(body, '.');
            assert(body + Seq::<char>::empty() =~= body);
        }
        return match digits_at(chars, start, b) {
            Some(v) => Some(Percentage { negative, mantissa: v, scale: 0 }),
            None => None,
        };
    }
    let ghost i = dot - start;
    assert(body[i] == '.');
    assert(!all_digits(body));
    let mut digits: Vec<char> = Vec::new();
    let mut k: usize = start;
    while k < b
        invariant
            start <= dot < b <= chars@.len(),
            start <= k <= b,
            chars@[dot as int] == '.',
            forall|m: int| start <= m < dot ==> chars@[m] != '.',
            digits@ == if k <= dot {
                chars@.subrange(start as int, k as int)
            } else {
                chars@.subrange(start as int, dot as int) + chars@.subrange(dot + 1, k as int)
            },
        decreases b - k,
    {
        if k != dot {
            digits.push(chars[k]);
        }
        k += 1;
        proof {
            if k <= dot {
                assert(digits@ =~= chars@.subrange(start as int, k as int));
            } else if k == dot + 1 {
                assert(digits@ =~= chars@.subrange(start as int, dot as int) + chars@.subrange(
                    dot + 1,
                    k as int,
                ));
            } else {
                assert(digits@ =~= chars@.subrange(start as int, dot as int) + chars@.subrange(
                    dot + 1,
                    k as int,
                ));
            }
        }
    }
    assert(digits@ =~= body.take(i) + body.skip(i + 1));
    let parsed = digits_at(&digits, 0, digits.len());
    assert(digits@.subrange(0, digits@.len() as int) =~= digits@);
    proof {
        lemma_percentage_with_point(s, negative, body, i);
    }
    match parsed {
        Some(v) => Some(Percentage { negative, mantissa: v, scale: b - dot - 1 }),
        None => None,
    }
}

/// What `percentage_field` gives when the first `.` of the body stands at `i`.
proof fn lemma_percentage_with_point(s: Seq<char>, negative: bool, body: Seq<char>, i: int)
    requires
        negative == (s.len() > 0 && s[0] == '-'),
        body == (if negative {
            s.drop_first()
        } else {
            strip_sign(s, '+')
        }),
        0 <= i < body.len(),
        body[i] == '.',
        forall|m: int| 0 <= m < i ==> body[m] != '.',
    ensures
        ({
            let digits = body.take(i) + body.skip(i + 1);
            percentage_field(s) == if digits.len() > 0 && all_digits(digits) && digits_value(
                digits,
            ) <= u64::MAX {
                Some(
                    Percentage {
                        negative,
                        mantissa: digits_value(digits) as u64,
                        scale: (body.len() - i - 1) as usize,
                    },
                )
            } else {
                None
            }
        }),
{
    let whole = body.take(i);
    let rest = body.skip(i + 1);
    assert(body =~= whole + seq!['.'] + rest);
    lemma_split_concat(whole, rest, '.');
    assert(!whole.contains('.')) by {
        if whole.contains('.') {
            let k = choose|k: int| 0 <= k < whole.len() && whole[k] == '.';
            assert(body[k] == '.');
        }
    }
    lemma_split_single(whole, '.');
    lemma_split_nonempty(rest, '.');
    let digits = whole + rest;
    if rest.contains('.') {
        let k = choose|k: int| 0 <= k < rest.len() && rest[k] == '.';
        assert(rest =~= rest.take(k) + seq!['.'] + rest.skip(k + 1));
        lemma_split_concat(rest.take(k), rest.skip(k + 1), '.');
        lemma_split_nonempty(rest.take(k), '.');
        lemma_split_nonempty(rest.skip(k + 1), '.');
        assert(split_on(body, '.').len() > 2);
        assert(digits[i + k] == '.');
        assert(!all_digits(digits)) by {
            assert(!crate::text::is_digit(digits[i + k]));
        }
    } else {
        lemma_split_single(rest, '.');
        assert(split_on(body, '.') =~= seq![whole, rest]);
    }
}

pub proof fn lemma_pow10_positive(n: nat)
    ensures
        pow10(n) >= 1,
    decreases n,
{
    if n > 0 {
        lemma_pow10_positive((n - 1) as nat);
    }
}

pub proof fn lemma_pow10_add(a: nat, b: nat)
    ensures
        pow10(a + b) == pow10(a) * pow10(b),
    decreases a,
{
    if a > 0 {
        lemma_pow10_add((a - 1) as nat, b);
        assert(pow10(a + b) == 10 * pow10((a - 1 + b) as nat));
        assert(10 * (pow10((a - 1) as nat) * pow10(b)) == (10 * pow10((a - 1) as nat)) * pow10(b))
            by (nonlinear_arith);
    }
}

} // verus!
