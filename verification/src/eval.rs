//! The evaluator: walks an expression tree and produces a checked 64-bit
//! unsigned value or a typed evaluation failure.
//!
//! Every arithmetic step uses a checked rule. Additive and multiplicative
//! overflow, subtractive underflow, division or remainder by zero and an
//! exponentiation that leaves the domain all fail with `Overflow`; the coarse
//! bucket is kept deliberately for compatibility with the reports users
//! already see. A literal whose text does not denote a `u64` fails with
//! `LiteralOutOfRange`.

use vstd::arithmetic::power::{
    lemma_pow_increases,
    pow,
};
use vstd::prelude::*;

use crate::expr::{
    Expr,
    Op,
};
use crate::span::Span;

verus! {

pub const DIGIT_ZERO: u8 = 48;

pub const DIGIT_NINE: u8 = 57;

/// A failed evaluation: either a checked rule had no result, or a literal
/// could not be interpreted.
#[derive(Clone, Copy, Debug, PartialEq, Eq, Structural)]
pub enum EvalFailure {
    Overflow { lhs_span: Span, rhs_span: Span },
    LiteralOutOfRange { span: Span },
}

/// A byte that is an ASCII decimal digit.
pub open spec fn is_digit(b: u8) -> bool {
    DIGIT_ZERO <= b <= DIGIT_NINE
}

pub open spec fn all_digits(s: Seq<u8>) -> bool {
    forall|i: int| 0 <= i < s.len() ==> is_digit(#[trigger] s[i])
}

/// The integer a digit string denotes, most significant digit first.
pub open spec fn digits_value(s: Seq<u8>) -> int
    decreases s.len(),
{
    if s.len() == 0 {
        0
    } else {
        digits_value(s.drop_last()) * 10 + (s.last() - DIGIT_ZERO)
    }
}

/// What parsing a literal's bytes as a `u64` yields: the denoted value when
/// the text is a non-empty digit string in range, nothing otherwise.
pub open spec fn spec_literal(s: Seq<u8>) -> Option<u64> {
    if s.len() > 0 && all_digits(s) && digits_value(s) <= u64::MAX {
        Some(digits_value(s) as u64)
    } else {
        None
    }
}

/// The checked result of one operator step, `None` when the rule fails.
pub open spec fn op_value(op: Op, a: u64, b: u64) -> Option<u64> {
    match op {
        Op::Add => if a + b <= u64::MAX {
            Some((a + b) as u64)
        } else {
            None
        },
        Op::Sub => if a >= b {
            Some((a - b) as u64)
        } else {
            None
        },
        Op::Mul => if a * b <= u64::MAX {
            Some((a * b) as u64)
        } else {
            None
        },
        Op::Div => if b != 0 {
            Some(a / b)
        } else {
            None
        },
        Op::Mod => if b != 0 {
            Some(a % b)
        } else {
            None
        },
        Op::Pow => if b <= u32::MAX && pow(a as int, b as nat) <= u64::MAX {
            Some(pow(a as int, b as nat) as u64)
        } else {
            None
        },
    }
}

/// What evaluating `e` over `line` yields: post-order, left to right, the
/// first failing sub-expression short-circuits the rest.
pub open spec fn eval_spec(e: Expr, line: Seq<u8>) -> Result<u64, EvalFailure>
    decreases e,
{
    match e {
        Expr::Number { span } => match spec_literal(
            line.subrange(span.start as int, span.end as int),
        ) {
            Some(n) => Ok(n),
            None => Err(EvalFailure::LiteralOutOfRange { span }),
        },
        Expr::Infix { span, lhs, op, rhs } => match eval_spec(*lhs, line) {
            Err(f) => Err(f),
            Ok(a) => match eval_spec(*rhs, line) {
                Err(f) => Err(f),
                Ok(b) => match op_value(op, a, b) {
                    Some(v) => Ok(v),
                    None => Err(
                        EvalFailure::Overflow {
                            lhs_span: lhs.spec_span(),
                            rhs_span: rhs.spec_span(),
                        },
                    ),
                },
            },
        },
    }
}

/// The canonical decimal text of `n`: most significant digit first, no
/// leading zeros (a lone zero for `n == 0`).
pub open spec fn dec_digits(n: nat) -> Seq<u8>
    decreases n,
{
    if n < 10 {
        seq![(DIGIT_ZERO + n) as u8]
    } else {
        dec_digits(n / 10) + seq![(DIGIT_ZERO + n % 10) as u8]
    }
}

/// The canonical decimal text of `n` is a non-empty digit string that
/// denotes `n` again.
pub proof fn lemma_dec_digits_value(n: nat)
    ensures
        dec_digits(n).len() > 0,
        all_digits(dec_digits(n)),
        digits_value(dec_digits(n)) == n,
    decreases n,
{
    if n < 10 {
        let s = dec_digits(n);
        assert(s.drop_last() =~= Seq::<u8>::empty());
        assert(digits_value(Seq::<u8>::empty()) == 0);
        assert(digits_value(s) == s.last() - DIGIT_ZERO);
    } else {
        lemma_dec_digits_value(n / 10);
        let s = dec_digits(n);
        assert(s.drop_last() =~= dec_digits(n / 10));
        assert(s.last() == (DIGIT_ZERO + n % 10) as u8);
        assert forall|i: int| 0 <= i < s.len() implies is_digit(#[trigger] s[i]) by {
            if i < s.len() - 1 {
                assert(s[i] == dec_digits(n / 10)[i]);
            } else {
                assert(s[i] == (DIGIT_ZERO + n % 10) as u8);
            }
        }
        assert(n / 10 * 10 + n % 10 == n) by {
            vstd::arithmetic::div_mod::lemma_fundamental_div_mod(n as int, 10);
        }
        assert(digits_value(s) == digits_value(dec_digits(n / 10)) * 10 + (s.last() - DIGIT_ZERO));
        assert(digits_value(s) == n / 10 * 10 + n % 10);
    }
}

/// Evaluating a literal node whose source text is the decimal text of `n`
/// yields `n` whenever `n` is representable, and `LiteralOutOfRange`
/// otherwise.
pub proof fn lemma_eval_number(line: Seq<u8>, span: Span, n: nat)
    requires
        span.start <= span.end <= line.len(),
        line.subrange(span.start as int, span.end as int) == dec_digits(n),
    ensures
        n <= u64::MAX ==> eval_spec((Expr::Number { span }), line) == Ok::<u64, EvalFailure>(
            n as u64,
        ),
        n > u64::MAX ==> eval_spec((Expr::Number { span }), line) == Err::<u64, EvalFailure>(
            (EvalFailure::LiteralOutOfRange { span }),
        ),
{
    lemma_dec_digits_value(n);
}

/// The checked rule of each operator, spelled out: the defined result when
/// it fits the domain, the uniform `Overflow` failure when it does not.
pub proof fn lemma_eval_infix(line: Seq<u8>, span: Span, lhs: Expr, op: Op, rhs: Expr, a: u64, b: u64)
    requires
        eval_spec(lhs, line) == Ok::<u64, EvalFailure>(a),
        eval_spec(rhs, line) == Ok::<u64, EvalFailure>(b),
    ensures
        ({
            let e = eval_spec(
                (Expr::Infix { span, lhs: Box::new(lhs), op, rhs: Box::new(rhs) }),
                line,
            );
            let overflow = Err::<u64, EvalFailure>(
                (EvalFailure::Overflow { lhs_span: lhs.spec_span(), rhs_span: rhs.spec_span() }),
            );
            &&& op == Op::Add ==> e == (if a + b <= u64::MAX {
                Ok::<u64, EvalFailure>((a + b) as u64)
            } else {
                overflow
            })
            &&& op == Op::Sub ==> e == (if a >= b {
                Ok::<u64, EvalFailure>((a - b) as u64)
            } else {
                overflow
            })
            &&& op == Op::Mul ==> e == (if a * b <= u64::MAX {
                Ok::<u64, EvalFailure>((a * b) as u64)
            } else {
                overflow
            })
            &&& op == Op::Div ==> e == (if b != 0 {
                Ok::<u64, EvalFailure>(a / b)
            } else {
                overflow
            })
            &&& op == Op::Mod ==> e == (if b != 0 {
                Ok::<u64, EvalFailure>(a % b)
            } else {
                overflow
            })
            &&& op == Op::Pow ==> e == (if b <= u32::MAX && pow(a as int, b as nat) <= u64::MAX {
                Ok::<u64, EvalFailure>(pow(a as int, b as nat) as u64)
            } else {
                overflow
            })
        }),
{
}

/// Short-circuit law: the first failing sub-expression propagates, the right
/// operand is not consulted once the left has failed.
pub proof fn lemma_eval_short_circuit(line: Seq<u8>, span: Span, lhs: Expr, op: Op, rhs: Expr)
    ensures
        eval_spec(lhs, line) matches Err(f) ==> eval_spec(
            (Expr::Infix { span, lhs: Box::new(lhs), op, rhs: Box::new(rhs) }),
            line,
        ) == Err::<u64, EvalFailure>(f),
        eval_spec(lhs, line) is Ok ==> (eval_spec(rhs, line) matches Err(f) ==> eval_spec(
            (Expr::Infix { span, lhs: Box::new(lhs), op, rhs: Box::new(rhs) }),
            line,
        ) == Err::<u64, EvalFailure>(f)),
{
    let e = Expr::Infix { span, lhs: Box::new(lhs), op, rhs: Box::new(rhs) };
    match eval_spec(lhs, line) {
        Err(f) => {
            assert(eval_spec(e, line) == Err::<u64, EvalFailure>(f));
        },
        Ok(a) => {
            match eval_spec(rhs, line) {
                Err(f) => {
                    assert(eval_spec(e, line) == Err::<u64, EvalFailure>(f));
                },
                Ok(b) => {},
            }
        },
    }
}

/// Once a prefix of a digit string already denotes more than `u64::MAX`,
/// the whole string does too, whatever bytes follow.
proof fn lemma_digits_value_grows(s: Seq<u8>, i: int)
    requires
        0 <= i <= s.len(),
        digits_value(s.take(i)) > u64::MAX,
    ensures
        digits_value(s) > u64::MAX,
    decreases s.len() - i,
{
    if i == s.len() {
        assert(s.take(i) =~= s);
    } else {
        let t = s.take(i + 1);
        assert(t.drop_last() =~= s.take(i));
        assert(digits_value(t) == digits_value(s.take(i)) * 10 + (t.last() - DIGIT_ZERO));
        lemma_digits_value_grows(s, i + 1);
    }
}

/// Parse the bytes a span denotes as an unsigned 64-bit decimal literal.
pub fn parse_literal(line: &Vec<u8>, span: Span) -> (r: Option<u64>)
    requires
        span.wf(line@.len()),
    ensures
        r == spec_literal(line@.subrange(span.start as int, span.end as int)),
{
    let ghost s = line@.subrange(span.start as int, span.end as int);
    if span.start == span.end {
        return None;
    }
    let mut acc: u64 = 0;
    let mut i: usize = span.start;
    while i < span.end
        invariant
            span.wf(line@.len()),
            span.start <= i <= span.end,
            span.start < span.end,
            s == line@.subrange(span.start as int, span.end as int),
            all_digits(s.take(i - span.start)),
            acc == digits_value(s.take(i - span.start)),
        decreases span.end - i,
    {
        let b = line[i];
        proof {
            assert(s[i - span.start] == b);
            assert(s.take(i + 1 - span.start).drop_last() =~= s.take(i - span.start));
        }
        if b < DIGIT_ZERO || b > DIGIT_NINE {
            proof {
                assert(!is_digit(s[i - span.start]));
            }
            return None;
        }
        let d = b - DIGIT_ZERO;
        let shifted = match acc.checked_mul(10) {
            Some(v) => v,
            None => {
                proof {
                    lemma_digits_value_grows(s, i + 1 - span.start);
                }
                return None;
            },
        };
        acc = match shifted.checked_add(d as u64) {
            Some(v) => v,
            None => {
                proof {
                    lemma_digits_value_grows(s, i + 1 - span.start);
                }
                return None;
            },
        };
        i += 1;
    }
    proof {
        assert(s.take(i - span.start) =~= s);
    }
    Some(acc)
}

/// Checked exponentiation: `base` to the `exp`, or `None` when the result
/// leaves the 64-bit domain.
fn checked_pow(base: u64, exp: u32) -> (r: Option<u64>)
    ensures
        r == (if pow(base as int, exp as nat) <= u64::MAX {
            Some(pow(base as int, exp as nat) as u64)
        } else {
            None::<u64>
        }),
{
    let mut acc: u64 = 1;
    let mut i: u32 = 0;
    proof {
        vstd::arithmetic::power::lemma_pow0(base as int);
    }
    while i < exp
        invariant
            0 <= i <= exp,
            acc == pow(base as int, i as nat),
        decreases exp - i,
    {
        proof {
            reveal(pow);
            assert(pow(base as int, (i + 1) as nat) == base * pow(base as int, i as nat));
        }
        acc = match acc.checked_mul(base) {
            Some(v) => v,
            None => {
                proof {
                    assert(acc * base > u64::MAX);
                    assert(base * acc > u64::MAX) by (nonlinear_arith)
                        requires
                            acc * base > u64::MAX,
                    ;
                    assert(pow(base as int, (i + 1) as nat) > u64::MAX);
                    lemma_pow_mono_overflow(base as nat, (i + 1) as nat, exp as nat);
                }
                return None;
            },
        };
        proof {
            assert(acc == pow(base as int, (i + 1) as nat)) by {
                vstd::arithmetic::mul::lemma_mul_is_commutative(
                    base as int,
                    pow(base as int, i as nat),
                );
            }
        }
        i += 1;
    }
    Some(acc)
}

/// If the power already exceeds `u64::MAX` at exponent `e1`, it still does at
/// any larger exponent: overflow during the running product is final.
proof fn lemma_pow_mono_overflow(b: nat, e1: nat, e2: nat)
    requires
        e1 <= e2,
        pow(b as int, e1) > u64::MAX,
    ensures
        pow(b as int, e2) > u64::MAX,
{
    if b == 0 {
        vstd::arithmetic::power::lemma_pow0(b as int);
        if e1 > 0 {
            vstd::arithmetic::power::lemma0_pow(e1);
        }
    } else {
        lemma_pow_increases(b, e1, e2);
    }
}

/// Apply the checked rule an operator selects.
pub fn apply_op(op: Op, a: u64, b: u64) -> (r: Option<u64>)
    ensures
        r == op_value(op, a, b),
{
    match op {
        Op::Add => a.checked_add(b),
        Op::Sub => a.checked_sub(b),
        Op::Mul => a.checked_mul(b),
        Op::Div => a.checked_div(b),
        Op::Mod => a.checked_rem_euclid(b),
        Op::Pow => {
            if b > u32::MAX as u64 {
                None
            } else {
                checked_pow(a, b as u32)
            }
        },
    }
}

/// Evaluate a well-formed tree over the line it was parsed from.
pub fn eval(e: &Expr, line: &Vec<u8>) -> (r: Result<u64, EvalFailure>)
    requires
        e.wf(line@.len()),
    ensures
        r == eval_spec(*e, line@),
    decreases *e,
{
    match e {
        Expr::Number { span } => match parse_literal(line, *span) {
            Some(n) => Ok(n),
            None => Err(EvalFailure::LiteralOutOfRange { span: *span }),
        },
        Expr::Infix { span: _, lhs, op, rhs } => {
            let a = match eval(lhs, line) {
                Ok(a) => a,
                Err(f) => {
                    return Err(f);
                },
            };
            let b = match eval(rhs, line) {
                Ok(b) => b,
                Err(f) => {
                    return Err(f);
                },
            };
            match apply_op(*op, a, b) {
                Some(v) => Ok(v),
                None => Err(
                    EvalFailure::Overflow { lhs_span: lhs.span(), rhs_span: rhs.span() },
                ),
            }
        },
    }
}

} // verus!
