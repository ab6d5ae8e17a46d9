//! The combinational expression language.  A rule's right-hand side is an
//! `Expr` over the current signal values; evaluation is exact integer
//! arithmetic, and the result is truncated to the target signal's width only
//! when it is stored.

use crate::value::{pow2_u128, Signedness};
use vstd::arithmetic::div_mod::{
    lemma_fundamental_div_mod, lemma_hoist_over_denominator, lemma_mod_bound,
    lemma_mod_multiples_vanish,
};
use vstd::arithmetic::power2::{lemma_pow2_adds, lemma_pow2_pos, lemma_pow2_strictly_increases, pow2};
use vstd::prelude::*;

verus! {

/// A pure combinational expression over signal values.
///
/// `Eq`, `Lt`, `GetBit` and `Mux`'s condition treat values as integers;
/// comparison and bit-test results are the 1-bit values `0` and `1`.
/// `GetBit(e, k)` reads bit `k` of the two's-complement representation;
/// `Shl(e, k)` multiplies by `2^k`.
pub enum Expr {
    Const(i64),
    Sig(usize),
    Add(Box<Expr>, Box<Expr>),
    Sub(Box<Expr>, Box<Expr>),
    Mul(Box<Expr>, Box<Expr>),
    Eq(Box<Expr>, Box<Expr>),
    Lt(Box<Expr>, Box<Expr>),
    Mux(Box<Expr>, Box<Expr>, Box<Expr>),
    GetBit(Box<Expr>, u32),
    Shl(Box<Expr>, u32),
}

/// A `Vec<i64>` of signal values, read as a sequence of integers.
pub open spec fn int_seq(s: Seq<i64>) -> Seq<int> {
    s.map_values(|x: i64| x as int)
}

/// The value of `e` over the signal values `vals`.  A signal index outside
/// `vals` reads as zero (well-formed graphs never contain one).
pub open spec fn eval(e: Expr, vals: Seq<int>) -> int
    decreases e,
{
    match e {
        Expr::Const(c) => c as int,
        Expr::Sig(i) => if i < vals.len() {
            vals[i as int]
        } else {
            0
        },
        Expr::Add(a, b) => eval(*a, vals) + eval(*b, vals),
        Expr::Sub(a, b) => eval(*a, vals) - eval(*b, vals),
        Expr::Mul(a, b) => eval(*a, vals) * eval(*b, vals),
        Expr::Eq(a, b) => if eval(*a, vals) == eval(*b, vals) {
            1
        } else {
            0
        },
        Expr::Lt(a, b) => if eval(*a, vals) < eval(*b, vals) {
            1
        } else {
            0
        },
        Expr::Mux(c, t, f) => if eval(*c, vals) != 0 {
            eval(*t, vals)
        } else {
            eval(*f, vals)
        },
        Expr::GetBit(a, k) => if (eval(*a, vals) / (pow2(k as nat) as int)) % 2 == 1 {
            1
        } else {
            0
        },
        Expr::Shl(a, k) => eval(*a, vals) * (pow2(k as nat) as int),
    }
}

/// Whether every signal index in `e` is below `n`.
pub open spec fn sigs_below(e: Expr, n: nat) -> bool
    decreases e,
{
    match e {
        Expr::Const(_) => true,
        Expr::Sig(i) => i < n,
        Expr::Add(a, b) => sigs_below(*a, n) && sigs_below(*b, n),
        Expr::Sub(a, b) => sigs_below(*a, n) && sigs_below(*b, n),
        Expr::Mul(a, b) => sigs_below(*a, n) && sigs_below(*b, n),
        Expr::Eq(a, b) => sigs_below(*a, n) && sigs_below(*b, n),
        Expr::Lt(a, b) => sigs_below(*a, n) && sigs_below(*b, n),
        Expr::Mux(c, t, f) => sigs_below(*c, n) && sigs_below(*t, n) && sigs_below(*f, n),
        Expr::GetBit(a, _) => sigs_below(*a, n),
        Expr::Shl(a, _) => sigs_below(*a, n),
    }
}

/// Whether `e` reads signal `i`.
pub open spec fn reads_sig(e: Expr, i: int) -> bool
    decreases e,
{
    match e {
        Expr::Const(_) => false,
        Expr::Sig(j) => j == i,
        Expr::Add(a, b) => reads_sig(*a, i) || reads_sig(*b, i),
        Expr::Sub(a, b) => reads_sig(*a, i) || reads_sig(*b, i),
        Expr::Mul(a, b) => reads_sig(*a, i) || reads_sig(*b, i),
        Expr::Eq(a, b) => reads_sig(*a, i) || reads_sig(*b, i),
        Expr::Lt(a, b) => reads_sig(*a, i) || reads_sig(*b, i),
        Expr::Mux(c, t, f) => reads_sig(*c, i) || reads_sig(*t, i) || reads_sig(*f, i),
        Expr::GetBit(a, _) => reads_sig(*a, i),
        Expr::Shl(a, _) => reads_sig(*a, i),
    }
}

/// The executable form of `sigs_below`.
pub fn sigs_below_exec(e: &Expr, n: usize) -> (r: bool)
    ensures
        r == sigs_below(*e, n as nat),
    decreases *e,
{
    match e {
        Expr::Const(_) => true,
        Expr::Sig(i) => *i < n,
        Expr::Add(a, b) => sigs_below_exec(a, n) && sigs_below_exec(b, n),
        Expr::Sub(a, b) => sigs_below_exec(a, n) && sigs_below_exec(b, n),
        Expr::Mul(a, b) => sigs_below_exec(a, n) && sigs_below_exec(b, n),
        Expr::Eq(a, b) => sigs_below_exec(a, n) && sigs_below_exec(b, n),
        Expr::Lt(a, b) => sigs_below_exec(a, n) && sigs_below_exec(b, n),
        Expr::Mux(c, t, f) => sigs_below_exec(c, n) && sigs_below_exec(t, n) && sigs_below_exec(
            f,
            n,
        ),
        Expr::GetBit(a, _) => sigs_below_exec(a, n),
        Expr::Shl(a, _) => sigs_below_exec(a, n),
    }
}

/// Signal bounds only grow: an expression below `n` is below any `m >= n`.
pub proof fn lemma_sigs_below_mono(e: Expr, n: nat, m: nat)
    requires
        sigs_below(e, n),
        n <= m,
    ensures
        sigs_below(e, m),
    decreases e,
{
    match e {
        Expr::Const(_) => {},
        Expr::Sig(_) => {},
        Expr::Add(a, b) => {
            lemma_sigs_below_mono(*a, n, m);
            lemma_sigs_below_mono(*b, n, m);
        },
        Expr::Sub(a, b) => {
            lemma_sigs_below_mono(*a, n, m);
            lemma_sigs_below_mono(*b, n, m);
        },
        Expr::Mul(a, b) => {
            lemma_sigs_below_mono(*a, n, m);
            lemma_sigs_below_mono(*b, n, m);
        },
        Expr::Eq(a, b) => {
            lemma_sigs_below_mono(*a, n, m);
            lemma_sigs_below_mono(*b, n, m);
        },
        Expr::Lt(a, b) => {
            lemma_sigs_below_mono(*a, n, m);
            lemma_sigs_below_mono(*b, n, m);
        },
        Expr::Mux(c, t, f) => {
            lemma_sigs_below_mono(*c, n, m);
            lemma_sigs_below_mono(*t, n, m);
            lemma_sigs_below_mono(*f, n, m);
        },
        Expr::GetBit(a, _) => {
            lemma_sigs_below_mono(*a, n, m);
        },
        Expr::Shl(a, _) => {
            lemma_sigs_below_mono(*a, n, m);
        },
    }
}

/// An expression that stays below `caps.len()` ignores caps appended past its
/// horizon: bound, safety, and value all survive an extension of the vectors.
pub proof fn lemma_expr_extend(e: Expr, caps1: Seq<nat>, caps2: Seq<nat>, v1: Seq<int>, v2: Seq<int>)
    requires
        sigs_below(e, caps1.len()),
        caps1.is_prefix_of(caps2),
        v1.len() == caps1.len(),
        v1.is_prefix_of(v2),
    ensures
        eval_bound(e, caps2) == eval_bound(e, caps1),
        expr_safe(e, caps2) == expr_safe(e, caps1),
        eval(e, v2) == eval(e, v1),
    decreases e,
{
    match e {
        Expr::Const(_) => {},
        Expr::Sig(_) => {},
        Expr::Add(a, b) => {
            lemma_expr_extend(*a, caps1, caps2, v1, v2);
            lemma_expr_extend(*b, caps1, caps2, v1, v2);
        },
        Expr::Sub(a, b) => {
            lemma_expr_extend(*a, caps1, caps2, v1, v2);
            lemma_expr_extend(*b, caps1, caps2, v1, v2);
        },
        Expr::Mul(a, b) => {
            lemma_expr_extend(*a, caps1, caps2, v1, v2);
            lemma_expr_extend(*b, caps1, caps2, v1, v2);
        },
        Expr::Eq(a, b) => {
            lemma_expr_extend(*a, caps1, caps2, v1, v2);
            lemma_expr_extend(*b, caps1, caps2, v1, v2);
        },
        Expr::Lt(a, b) => {
            lemma_expr_extend(*a, caps1, caps2, v1, v2);
            lemma_expr_extend(*b, caps1, caps2, v1, v2);
        },
        Expr::Mux(c, t, f) => {
            lemma_expr_extend(*c, caps1, caps2, v1, v2);
            lemma_expr_extend(*t, caps1, caps2, v1, v2);
            lemma_expr_extend(*f, caps1, caps2, v1, v2);
        },
        Expr::GetBit(a, _) => {
            lemma_expr_extend(*a, caps1, caps2, v1, v2);
        },
        Expr::Shl(a, _) => {
            lemma_expr_extend(*a, caps1, caps2, v1, v2);
        },
    }
}

/// Evaluation only looks at the signals an expression reads: two value
/// vectors that agree on those give the same result.
pub proof fn lemma_eval_agree(e: Expr, v1: Seq<int>, v2: Seq<int>)
    requires
        v1.len() == v2.len(),
        forall|i: int| 0 <= i < v1.len() && reads_sig(e, i) ==> v1[i] == v2[i],
    ensures
        eval(e, v1) == eval(e, v2),
    decreases e,
{
    match e {
        Expr::Const(_) => {},
        Expr::Sig(_) => {},
        Expr::Add(a, b) => {
            lemma_eval_agree(*a, v1, v2);
            lemma_eval_agree(*b, v1, v2);
        },
        Expr::Sub(a, b) => {
            lemma_eval_agree(*a, v1, v2);
            lemma_eval_agree(*b, v1, v2);
        },
        Expr::Mul(a, b) => {
            lemma_eval_agree(*a, v1, v2);
            lemma_eval_agree(*b, v1, v2);
        },
        Expr::Eq(a, b) => {
            lemma_eval_agree(*a, v1, v2);
            lemma_eval_agree(*b, v1, v2);
        },
        Expr::Lt(a, b) => {
            lemma_eval_agree(*a, v1, v2);
            lemma_eval_agree(*b, v1, v2);
        },
        Expr::Mux(c, t, f) => {
            lemma_eval_agree(*c, v1, v2);
            lemma_eval_agree(*t, v1, v2);
            lemma_eval_agree(*f, v1, v2);
        },
        Expr::GetBit(a, _) => {
            lemma_eval_agree(*a, v1, v2);
        },
        Expr::Shl(a, _) => {
            lemma_eval_agree(*a, v1, v2);
        },
    }
}

/// The evaluator works in `i128`; every intermediate value a well-formed rule
/// can produce is held strictly within this cap.
pub const EVAL_CAP: u128 = 0x3fffffffffffffffffffffffffffffff;

/// The cap is `2^126 - 1`.
pub proof fn lemma_eval_cap()
    ensures
        EVAL_CAP == pow2(126) - 1,
{
    vstd::arithmetic::power2::lemma2_to64();
    vstd::arithmetic::power2::lemma2_to64_rest();
    lemma_pow2_adds(63, 63);
    assert(pow2(126) == 0x40000000000000000000000000000000) by (nonlinear_arith)
        requires
            pow2(126) == pow2(63) * pow2(63),
            pow2(63) == 0x8000000000000000,
    ;
}

/// An upper bound on `|eval(e, vals)|`, assuming `|vals[i]| <= caps[i]`.
pub open spec fn eval_bound(e: Expr, caps: Seq<nat>) -> nat
    decreases e,
{
    match e {
        Expr::Const(c) => if c >= 0 {
            c as nat
        } else {
            (-(c as int)) as nat
        },
        Expr::Sig(i) => if i < caps.len() {
            caps[i as int]
        } else {
            0
        },
        Expr::Add(a, b) => eval_bound(*a, caps) + eval_bound(*b, caps),
        Expr::Sub(a, b) => eval_bound(*a, caps) + eval_bound(*b, caps),
        Expr::Mul(a, b) => eval_bound(*a, caps) * eval_bound(*b, caps),
        Expr::Eq(_, _) => 1,
        Expr::Lt(_, _) => 1,
        Expr::Mux(c, t, f) => vstd::math::max(eval_bound(*t, caps) as int, eval_bound(*f, caps) as int) as nat,
        Expr::GetBit(_, _) => 1,
        Expr::Shl(a, k) => eval_bound(*a, caps) * pow2(k as nat),
    }
}

/// Whether `e` and all of its subexpressions stay within the evaluator's
/// precision, and every shift amount is small enough to compute.
pub open spec fn expr_safe(e: Expr, caps: Seq<nat>) -> bool
    decreases e,
{
    eval_bound(e, caps) <= EVAL_CAP && match e {
        Expr::Const(_) => true,
        Expr::Sig(_) => true,
        Expr::Add(a, b) => expr_safe(*a, caps) && expr_safe(*b, caps),
        Expr::Sub(a, b) => expr_safe(*a, caps) && expr_safe(*b, caps),
        Expr::Mul(a, b) => expr_safe(*a, caps) && expr_safe(*b, caps),
        Expr::Eq(a, b) => expr_safe(*a, caps) && expr_safe(*b, caps),
        Expr::Lt(a, b) => expr_safe(*a, caps) && expr_safe(*b, caps),
        Expr::Mux(c, t, f) => expr_safe(*c, caps) && expr_safe(*t, caps) && expr_safe(*f, caps),
        Expr::GetBit(a, k) => expr_safe(*a, caps) && k <= 62,
        Expr::Shl(a, k) => expr_safe(*a, caps) && k <= 62,
    }
}

/// Evaluation stays within `eval_bound` whenever the signal values stay
/// within their caps.
pub proof fn lemma_eval_in_bound(e: Expr, vals: Seq<int>, caps: Seq<nat>)
    requires
        vals.len() == caps.len(),
        forall|i: int| 0 <= i < vals.len() ==> -(caps[i] as int) <= #[trigger] vals[i] <= caps[i],
    ensures
        -(eval_bound(e, caps) as int) <= eval(e, vals) <= eval_bound(e, caps),
    decreases e,
{
    match e {
        Expr::Const(_) => {},
        Expr::Sig(_) => {},
        Expr::Add(a, b) => {
            lemma_eval_in_bound(*a, vals, caps);
            lemma_eval_in_bound(*b, vals, caps);
        },
        Expr::Sub(a, b) => {
            lemma_eval_in_bound(*a, vals, caps);
            lemma_eval_in_bound(*b, vals, caps);
        },
        Expr::Mul(a, b) => {
            lemma_eval_in_bound(*a, vals, caps);
            lemma_eval_in_bound(*b, vals, caps);
            lemma_abs_mul_le(eval(*a, vals), eval(*b, vals), eval_bound(*a, caps) as int, eval_bound(*b, caps) as int);
        },
        Expr::Eq(_, _) => {},
        Expr::Lt(_, _) => {},
        Expr::Mux(c, t, f) => {
            lemma_eval_in_bound(*t, vals, caps);
            lemma_eval_in_bound(*f, vals, caps);
        },
        Expr::GetBit(_, _) => {},
        Expr::Shl(a, k) => {
            lemma_eval_in_bound(*a, vals, caps);
            lemma_pow2_pos(k as nat);
            lemma_abs_mul_le(eval(*a, vals), pow2(k as nat) as int, eval_bound(*a, caps) as int, pow2(k as nat) as int);
        },
    }
}

/// `|x| <= bx` and `|y| <= by` bound the product: `|x * y| <= bx * by`.
proof fn lemma_abs_mul_le(x: int, y: int, bx: int, by: int)
    requires
        -bx <= x <= bx,
        -by <= y <= by,
    ensures
        -(bx * by) <= x * y <= bx * by,
{
    assert(-(bx * by) <= x * y <= bx * by) by (nonlinear_arith)
        requires
            -bx <= x <= bx,
            -by <= y <= by,
    ;
}

/// A `Vec<u64>` of per-signal caps, read as a sequence of naturals.
pub open spec fn nat_seq(s: Seq<u64>) -> Seq<nat> {
    s.map_values(|x: u64| x as nat)
}

/// Checks that `e` stays within the evaluator's precision over signals capped
/// by `caps`, and computes its bound.  `None` reports an expression the
/// evaluator cannot be trusted with; a well-formed graph holds none.
pub fn check_expr(e: &Expr, caps: &Vec<u64>) -> (r: Option<u128>)
    ensures
        match r {
            Some(b) => expr_safe(*e, nat_seq(caps@)) && b as nat == eval_bound(*e, nat_seq(caps@))
                && b <= EVAL_CAP,
            None => !expr_safe(*e, nat_seq(caps@)),
        },
    decreases *e,
{
    match e {
        Expr::Const(c) => {
            let b: u128 = if *c >= 0 {
                *c as u128
            } else {
                (-(*c as i128)) as u128
            };
            if b <= EVAL_CAP {
                Some(b)
            } else {
                None
            }
        },
        Expr::Sig(i) => {
            let b: u128 = if *i < caps.len() {
                caps[*i] as u128
            } else {
                0
            };
            if b <= EVAL_CAP {
                Some(b)
            } else {
                None
            }
        },
        Expr::Add(a, b) => {
            match (check_expr(a, caps), check_expr(b, caps)) {
                (Some(ba), Some(bb)) => {
                    let s = ba + bb;
                    if s <= EVAL_CAP {
                        Some(s)
                    } else {
                        None
                    }
                },
                _ => None,
            }
        },
        Expr::Sub(a, b) => {
            match (check_expr(a, caps), check_expr(b, caps)) {
                (Some(ba), Some(bb)) => {
                    let s = ba + bb;
                    if s <= EVAL_CAP {
                        Some(s)
                    } else {
                        None
                    }
                },
                _ => None,
            }
        },
        Expr::Mul(a, b) => {
            match (check_expr(a, caps), check_expr(b, caps)) {
                (Some(ba), Some(bb)) => {
                    match ba.checked_mul(bb) {
                        Some(p) => if p <= EVAL_CAP {
                            Some(p)
                        } else {
                            None
                        },
                        None => {
                            proof {
                                assert(ba * bb > EVAL_CAP);
                            }
                            None
                        },
                    }
                },
                _ => None,
            }
        },
        Expr::Eq(a, b) => {
            match (check_expr(a, caps), check_expr(b, caps)) {
                (Some(_), Some(_)) => Some(1),
                _ => None,
            }
        },
        Expr::Lt(a, b) => {
            match (check_expr(a, caps), check_expr(b, caps)) {
                (Some(_), Some(_)) => Some(1),
                _ => None,
            }
        },
        Expr::Mux(c, t, f) => {
            match (check_expr(c, caps), check_expr(t, caps), check_expr(f, caps)) {
                (Some(_), Some(bt), Some(bf)) => if bt >= bf {
                    Some(bt)
                } else {
                    Some(bf)
                },
                _ => None,
            }
        },
        Expr::GetBit(a, k) => {
            match check_expr(a, caps) {
                Some(_) => if *k <= 62 {
                    Some(1)
                } else {
                    None
                },
                None => None,
            }
        },
        Expr::Shl(a, k) => {
            match check_expr(a, caps) {
                Some(ba) => {
                    if *k <= 62 {
                        let p2: u128 = pow2_u128(*k);
                        match ba.checked_mul(p2) {
                            Some(p) => if p <= EVAL_CAP {
                                Some(p)
                            } else {
                                None
                            },
                            None => {
                                proof {
                                    assert(ba * p2 > EVAL_CAP);
                                }
                                None
                            },
                        }
                    } else {
                        None
                    }
                },
                None => None,
            }
        },
    }
}

/// The offset that shifts any in-cap value into the nonnegative range:
/// `2^126`.
const EVAL_OFF: i128 = 0x40000000000000000000000000000000;

/// Evaluates `e` over the current signal values.  The ghost caps witness that
/// every signal value is within its declared range, so a safe expression
/// never overflows the evaluator.
pub fn eval_expr(e: &Expr, vals: &Vec<i64>, Ghost(caps): Ghost<Seq<nat>>) -> (r: i128)
    requires
        caps.len() == vals@.len(),
        forall|i: int|
            0 <= i < vals@.len() ==> -(caps[i] as int) <= #[trigger] (vals@[i] as int) <= caps[i],
        expr_safe(*e, caps),
    ensures
        r == eval(*e, int_seq(vals@)),
        -(EVAL_CAP as int) <= r <= EVAL_CAP as int,
    decreases *e,
{
    proof {
        lemma_eval_in_bound(*e, int_seq(vals@), caps);
    }
    match e {
        Expr::Const(c) => *c as i128,
        Expr::Sig(i) => if *i < vals.len() {
            vals[*i] as i128
        } else {
            0
        },
        Expr::Add(a, b) => {
            let x = eval_expr(a, vals, Ghost(caps));
            let y = eval_expr(b, vals, Ghost(caps));
            proof {
                lemma_eval_in_bound(**a, int_seq(vals@), caps);
                lemma_eval_in_bound(**b, int_seq(vals@), caps);
            }
            x + y
        },
        Expr::Sub(a, b) => {
            let x = eval_expr(a, vals, Ghost(caps));
            let y = eval_expr(b, vals, Ghost(caps));
            proof {
                lemma_eval_in_bound(**a, int_seq(vals@), caps);
                lemma_eval_in_bound(**b, int_seq(vals@), caps);
            }
            x - y
        },
        Expr::Mul(a, b) => {
            let x = eval_expr(a, vals, Ghost(caps));
            let y = eval_expr(b, vals, Ghost(caps));
            proof {
                lemma_eval_in_bound(**a, int_seq(vals@), caps);
                lemma_eval_in_bound(**b, int_seq(vals@), caps);
                lemma_abs_mul_le(
                    x as int,
                    y as int,
                    eval_bound(**a, caps) as int,
                    eval_bound(**b, caps) as int,
                );
            }
            x * y
        },
        Expr::Eq(a, b) => {
            let x = eval_expr(a, vals, Ghost(caps));
            let y = eval_expr(b, vals, Ghost(caps));
            if x == y {
                1
            } else {
                0
            }
        },
        Expr::Lt(a, b) => {
            let x = eval_expr(a, vals, Ghost(caps));
            let y = eval_expr(b, vals, Ghost(caps));
            if x < y {
                1
            } else {
                0
            }
        },
        Expr::Mux(c, t, f) => {
            let sel = eval_expr(c, vals, Ghost(caps));
            if sel != 0 {
                eval_expr(t, vals, Ghost(caps))
            } else {
                eval_expr(f, vals, Ghost(caps))
            }
        },
        Expr::GetBit(a, k) => {
            let x = eval_expr(a, vals, Ghost(caps));
            proof {
                lemma_getbit_shifted(x as int, *k);
                lemma_pow2_pos(*k as nat);
            }
            let y: i128 = x + EVAL_OFF;
            let d: u128 = pow2_u128(*k);
            let q: u128 = (y as u128) / d;
            let bit: u128 = q % 2;
            if bit == 1 {
                1
            } else {
                0
            }
        },
        Expr::Shl(a, k) => {
            let x = eval_expr(a, vals, Ghost(caps));
            let p2: u128 = pow2_u128(*k);
            proof {
                lemma_eval_in_bound(**a, int_seq(vals@), caps);
                lemma_pow2_pos(*k as nat);
                vstd::arithmetic::power2::lemma2_to64_rest();
                if (*k as nat) < 62 {
                    lemma_pow2_strictly_increases(*k as nat, 62);
                }
                let ba = eval_bound(**a, caps) as int;
                let pk = pow2(*k as nat) as int;
                lemma_abs_mul_le(x as int, pk, ba, pk);
                assert(eval_bound(*e, caps) == eval_bound(**a, caps) * pow2(*k as nat));
                assert(-(EVAL_CAP as int) <= (x as int) * pk <= EVAL_CAP as int);
            }
            x * (p2 as i128)
        },
    }
}

/// Adding `2^126` before dividing by `2^k` (`k <= 62`) does not change the
/// parity of the quotient, so the bit can be read off the shifted value.
proof fn lemma_getbit_shifted(x: int, k: u32)
    requires
        k <= 62,
        -(EVAL_CAP as int) <= x <= EVAL_CAP as int,
    ensures
        0 <= x + EVAL_OFF,
        x + EVAL_OFF <= i128::MAX,
        ((x + EVAL_OFF) / (pow2(k as nat) as int)) % 2 == (x / (pow2(k as nat) as int)) % 2,
{
    lemma_eval_cap();
    lemma_pow2_pos(k as nat);
    lemma_pow2_pos((126 - k) as nat);
    lemma_pow2_pos((125 - k) as nat);
    lemma_pow2_adds((126 - k) as nat, k as nat);
    lemma_pow2_adds(1, (125 - k) as nat);
    vstd::arithmetic::power2::lemma2_to64();
    let d = pow2(k as nat) as int;
    let j = pow2((126 - k) as nat) as int;
    assert(EVAL_OFF == j * d);
    lemma_hoist_over_denominator(x, j, pow2(k as nat));
    assert((x + EVAL_OFF) / d == x / d + j);
    lemma_mod_multiples_vanish(pow2((125 - k) as nat) as int, x / d, 2);
    assert(j == 2 * (pow2((125 - k) as nat) as int));
    assert((x / d + j) % 2 == (x / d) % 2);
}

} // verus!
