//! A scalar-product accumulator: a combinational shift-add multiplier over
//! two unsigned 8-bit inputs feeds a 16-bit accumulator driven by a small
//! busy/counter machine.  Once started, the machine consumes one valid pair
//! per cycle; in the cycle the configured count is reached it publishes the
//! accumulated sum and drops the combinational busy flag, and reset silences
//! both outputs at once.

use crate::expr::{eval, int_seq, Expr};
use crate::graph::{Dir, ModuleGraph};
use crate::sched::{lemma_single_layer_step, single_layer, step_spec};
use crate::sim::{apply_stim, run_spec, stim_entry_ok, stim_ok, CycleSim, RunSpec};
use crate::value::{trunc_val, Signedness};
use vstd::arithmetic::div_mod::{
    lemma_fundamental_div_mod, lemma_fundamental_div_mod_converse, lemma_mod_bound, lemma_small_mod,
};
use vstd::arithmetic::power2::{lemma2_to64, lemma_pow2_adds, lemma_pow2_pos, pow2};
use vstd::pervasive::unreached;
use vstd::prelude::*;

verus! {

/// Bit `k` of `b`, as two's-complement reading does it.
pub open spec fn bit_of(b: int, k: nat) -> int {
    (b / (pow2(k) as int)) % 2
}

/// One shift-add term: `a << k` when bit `k` of `b` is set.
pub open spec fn mul_term(a: int, b: int, k: nat) -> int {
    if bit_of(b, k) == 1 {
        a * (pow2(k) as int)
    } else {
        0
    }
}

/// The first `n` shift-add terms.
pub open spec fn mul_partial(a: int, b: int, n: nat) -> int
    decreases n,
{
    if n == 0 {
        0
    } else {
        mul_partial(a, b, (n - 1) as nat) + mul_term(a, b, (n - 1) as nat)
    }
}

/// The full eight-term shift-add product.
pub open spec fn mul8_spec(a: int, b: int) -> int {
    mul_partial(a, b, 8)
}

/// Splitting off bit `n`: `b mod 2^(n+1) = b mod 2^n + bit_n * 2^n`.
proof fn lemma_bit_split(b: int, n: nat)
    requires
        b >= 0,
    ensures
        b % (pow2((n + 1) as nat) as int) == b % (pow2(n) as int) + bit_of(b, n) * (pow2(n) as int),
{
    let p = pow2(n) as int;
    let p2 = pow2((n + 1) as nat) as int;
    lemma_pow2_pos(n);
    lemma_pow2_pos((n + 1) as nat);
    lemma_pow2_adds(n, 1);
    lemma2_to64();
    let q = b / p;
    let r = b % p;
    lemma_fundamental_div_mod(b, p);
    lemma_mod_bound(b, p);
    lemma_fundamental_div_mod(q, 2);
    lemma_mod_bound(q, 2);
    assert(b == p2 * (q / 2) + ((q % 2) * p + r)) by (nonlinear_arith)
        requires
            b == p * q + r,
            q == 2 * (q / 2) + q % 2,
            p2 == p * 2,
    ;
    assert(0 <= (q % 2) * p + r < p2) by (nonlinear_arith)
        requires
            0 <= r < p,
            0 <= q % 2 < 2,
            p2 == p * 2,
            p > 0,
    ;
    lemma_fundamental_div_mod_converse(b, p2, q / 2, (q % 2) * p + r);
}

/// The shift-add partial sums accumulate `a` times the low bits of `b`.
proof fn lemma_mul_partial(a: int, b: int, n: nat)
    requires
        b >= 0,
    ensures
        mul_partial(a, b, n) == a * (b % (pow2(n) as int)),
    decreases n,
{
    lemma_pow2_pos(n);
    if n == 0 {
        lemma2_to64();
        lemma_small_mod(0, 1);
        assert(b % 1 == 0) by {
            lemma_fundamental_div_mod(b, 1);
        }
    } else {
        let m = (n - 1) as nat;
        lemma_mul_partial(a, b, m);
        lemma_bit_split(b, m);
        let pm = pow2(m) as int;
        let lo = b % pm;
        let bit = bit_of(b, m);
        if bit == 1 {
            assert(a * (lo + pm) == a * lo + a * pm) by (nonlinear_arith);
        } else {
            lemma_mod_bound(b / pm, 2);
            assert(bit == 0) by {
                lemma_mod_bound(b / pm, 2);
            }
        }
    }
}

/// The shift-add network computes the exact product of two 8-bit values.
pub proof fn lemma_mul8_exact(a: int, b: int)
    requires
        0 <= a,
        0 <= b < 256,
    ensures
        mul8_spec(a, b) == a * b,
{
    lemma_mul_partial(a, b, 8);
    lemma2_to64();
    lemma_small_mod(b as nat, 256);
}

/// The accumulator machine's architectural state.
pub struct DotState {
    pub acc: int,
    pub cnt: int,
    pub busy: bool,
}

/// One clock cycle: idle until started; while busy, a valid pair adds its
/// product (wrapping at 16 bits) and advances the counter, and the final
/// count drops the busy flag.
pub open spec fn dot_step(s: DotState, start: bool, valid: bool, m: int) -> DotState {
    if s.busy {
        if valid {
            DotState {
                acc: trunc_val(s.acc + m, 16, Signedness::Unsigned),
                cnt: s.cnt + 1,
                busy: s.cnt != 4,
            }
        } else {
            s
        }
    } else {
        if start {
            DotState { acc: 0, cnt: 0, busy: true }
        } else {
            s
        }
    }
}

/// The wrap-around accumulation of the first `i` products.
pub open spec fn dot_acc(ps: Seq<(int, int)>, i: int) -> int
    decreases i,
{
    if i <= 0 {
        0
    } else {
        trunc_val(dot_acc(ps, i - 1) + ps[i - 1].0 * ps[i - 1].1, 16, Signedness::Unsigned)
    }
}

/// When the exact scalar product fits 16 bits, the wrap-around accumulation
/// is the exact sum of products.
pub proof fn lemma_dot_acc_exact(ps: Seq<(int, int)>)
    requires
        ps.len() == 4,
        forall|k: int| 0 <= k < 4 ==> 0 <= (#[trigger] ps[k]).0 && 0 <= ps[k].1,
        ps[0].0 * ps[0].1 + ps[1].0 * ps[1].1 + ps[2].0 * ps[2].1 + ps[3].0 * ps[3].1 < 65536,
    ensures
        dot_acc(ps, 4) == ps[0].0 * ps[0].1 + ps[1].0 * ps[1].1 + ps[2].0 * ps[2].1 + ps[3].0
            * ps[3].1,
{
    lemma2_to64();
    reveal_with_fuel(dot_acc, 6);
    assert forall|k: int| 0 <= k < 4 implies 0 <= (#[trigger] ps[k]).0 * ps[k].1 by {
        assert(0 <= ps[k].0 * ps[k].1) by (nonlinear_arith)
            requires
                0 <= ps[k].0,
                0 <= ps[k].1,
        ;
    }
    let p0 = ps[0].0 * ps[0].1;
    let p1 = ps[1].0 * ps[1].1;
    let p2 = ps[2].0 * ps[2].1;
    let p3 = ps[3].0 * ps[3].1;
    crate::value::lemma_trunc_id(p0, 16, Signedness::Unsigned);
    crate::value::lemma_trunc_id(p0 + p1, 16, Signedness::Unsigned);
    crate::value::lemma_trunc_id(p0 + p1 + p2, 16, Signedness::Unsigned);
    crate::value::lemma_trunc_id(p0 + p1 + p2 + p3, 16, Signedness::Unsigned);
}

/// The eight-term shift-add multiplier expression over `a` at signal 4 and
/// `b` at signal 5.
pub open spec fn mul8_term_expr(k: u32) -> Expr {
    Expr::Mux(
        Box::new(Expr::GetBit(Box::new(Expr::Sig(5)), k)),
        Box::new(Expr::Shl(Box::new(Expr::Sig(4)), k)),
        Box::new(Expr::Const(0)),
    )
}

/// The whole multiplier: the eight terms summed.
pub open spec fn mul8_expr() -> Expr {
    Expr::Add(
        Box::new(
            Expr::Add(
                Box::new(Expr::Add(Box::new(mul8_term_expr(0)), Box::new(mul8_term_expr(1)))),
                Box::new(Expr::Add(Box::new(mul8_term_expr(2)), Box::new(mul8_term_expr(3)))),
            ),
        ),
        Box::new(
            Expr::Add(
                Box::new(Expr::Add(Box::new(mul8_term_expr(4)), Box::new(mul8_term_expr(5)))),
                Box::new(Expr::Add(Box::new(mul8_term_expr(6)), Box::new(mul8_term_expr(7)))),
            ),
        ),
    )
}

/// Builds one multiplier term.
fn mk_mul8_term(k: u32) -> (e: Expr)
    ensures
        e == mul8_term_expr(k),
{
    Expr::Mux(
        Box::new(Expr::GetBit(Box::new(Expr::Sig(5)), k)),
        Box::new(Expr::Shl(Box::new(Expr::Sig(4)), k)),
        Box::new(Expr::Const(0)),
    )
}

/// Builds the whole multiplier expression.
fn mk_mul8_expr() -> (e: Expr)
    ensures
        e == mul8_expr(),
{
    Expr::Add(
        Box::new(
            Expr::Add(
                Box::new(Expr::Add(Box::new(mk_mul8_term(0)), Box::new(mk_mul8_term(1)))),
                Box::new(Expr::Add(Box::new(mk_mul8_term(2)), Box::new(mk_mul8_term(3)))),
            ),
        ),
        Box::new(
            Expr::Add(
                Box::new(Expr::Add(Box::new(mk_mul8_term(4)), Box::new(mk_mul8_term(5)))),
                Box::new(Expr::Add(Box::new(mk_mul8_term(6)), Box::new(mk_mul8_term(7)))),
            ),
        ),
    )
}

/// The accumulator register's driver: while busy, a valid cycle adds the
/// multiplier's value; a start from idle clears.
pub open spec fn dot_acc_expr() -> Expr {
    Expr::Mux(
        Box::new(Expr::Sig(13)),
        Box::new(
            Expr::Mux(
                Box::new(Expr::Sig(3)),
                Box::new(Expr::Add(Box::new(Expr::Sig(9)), Box::new(mul8_expr()))),
                Box::new(Expr::Sig(9)),
            ),
        ),
        Box::new(
            Expr::Mux(Box::new(Expr::Sig(2)), Box::new(Expr::Const(0)), Box::new(Expr::Sig(9))),
        ),
    )
}

/// The counter register's driver.
pub open spec fn dot_cnt_expr() -> Expr {
    Expr::Mux(
        Box::new(Expr::Sig(13)),
        Box::new(
            Expr::Mux(
                Box::new(Expr::Sig(3)),
                Box::new(Expr::Add(Box::new(Expr::Sig(11)), Box::new(Expr::Const(1)))),
                Box::new(Expr::Sig(11)),
            ),
        ),
        Box::new(
            Expr::Mux(Box::new(Expr::Sig(2)), Box::new(Expr::Const(0)), Box::new(Expr::Sig(11))),
        ),
    )
}

/// The busy register's driver: set on start, dropped on the final count.
pub open spec fn dot_busy_expr() -> Expr {
    Expr::Mux(
        Box::new(Expr::Sig(13)),
        Box::new(
            Expr::Mux(
                Box::new(Expr::Sig(3)),
                Box::new(
                    Expr::Mux(
                        Box::new(Expr::Eq(Box::new(Expr::Sig(11)), Box::new(Expr::Const(4)))),
                        Box::new(Expr::Const(0)),
                        Box::new(Expr::Const(1)),
                    ),
                ),
                Box::new(Expr::Const(1)),
            ),
        ),
        Box::new(
            Expr::Mux(Box::new(Expr::Sig(2)), Box::new(Expr::Const(1)), Box::new(Expr::Const(0))),
        ),
    )
}

/// The result output: the accumulated sum, published on the final valid
/// count while busy; zero otherwise.
pub open spec fn dot_result_expr() -> Expr {
    Expr::Mux(
        Box::new(Expr::Sig(13)),
        Box::new(
            Expr::Mux(
                Box::new(Expr::Sig(3)),
                Box::new(
                    Expr::Mux(
                        Box::new(Expr::Eq(Box::new(Expr::Sig(11)), Box::new(Expr::Const(4)))),
                        Box::new(Expr::Sig(9)),
                        Box::new(Expr::Const(0)),
                    ),
                ),
                Box::new(Expr::Const(0)),
            ),
        ),
        Box::new(Expr::Const(0)),
    )
}

/// The busy output: low while reset is held, else the same gated expression
/// that drives the busy register — so the flag reads true combinationally in
/// the cycle a start is accepted and false in the completion cycle.
pub open spec fn dot_busy_out_expr() -> Expr {
    Expr::Mux(Box::new(Expr::Sig(1)), Box::new(Expr::Const(0)), Box::new(dot_busy_expr()))
}

/// The published-result output: low while reset is held, else the published
/// sum of the completion cycle.
pub open spec fn dot_result_out_expr() -> Expr {
    Expr::Mux(Box::new(Expr::Sig(1)), Box::new(Expr::Const(0)), Box::new(dot_result_expr()))
}

/// While the reset line is held, the busy and result outputs settle to
/// zero, whatever the registers hold.
pub proof fn lemma_dot_reset_outputs(v: Seq<int>)
    requires
        v.len() == 15,
        v[1] != 0,
    ensures
        eval(dot_busy_out_expr(), v) == 0,
        eval(dot_result_out_expr(), v) == 0,
{
    reveal_with_fuel(eval, 4);
}

/// One multiplier term evaluates to `mul_term` of the two operand signals.
proof fn lemma_mul8_term_eval(k: u32, v: Seq<int>)
    requires
        v.len() == 15,
        v[5] >= 0,
    ensures
        eval(mul8_term_expr(k), v) == mul_term(v[4], v[5], k as nat),
{
    reveal_with_fuel(eval, 6);
    lemma_mod_bound(v[5] / (pow2(k as nat) as int), 2);
    lemma_pow2_pos(k as nat);
}

/// The multiplier expression evaluates to the shift-add product.
proof fn lemma_mul8_expr_eval(v: Seq<int>)
    requires
        v.len() == 15,
        v[5] >= 0,
    ensures
        eval(mul8_expr(), v) == mul8_spec(v[4], v[5]),
{
    reveal_with_fuel(eval, 4);
    lemma_mul8_term_eval(0, v);
    lemma_mul8_term_eval(1, v);
    lemma_mul8_term_eval(2, v);
    lemma_mul8_term_eval(3, v);
    lemma_mul8_term_eval(4, v);
    lemma_mul8_term_eval(5, v);
    lemma_mul8_term_eval(6, v);
    lemma_mul8_term_eval(7, v);
    reveal_with_fuel(mul_partial, 10);
}

/// Builds `dot_acc_expr`.
fn mk_dot_acc_expr() -> (e: Expr)
    ensures
        e == dot_acc_expr(),
{
    let m = mk_mul8_expr();
    Expr::Mux(
        Box::new(Expr::Sig(13)),
        Box::new(
            Expr::Mux(
                Box::new(Expr::Sig(3)),
                Box::new(Expr::Add(Box::new(Expr::Sig(9)), Box::new(m))),
                Box::new(Expr::Sig(9)),
            ),
        ),
        Box::new(
            Expr::Mux(Box::new(Expr::Sig(2)), Box::new(Expr::Const(0)), Box::new(Expr::Sig(9))),
        ),
    )
}

/// Builds `dot_cnt_expr`.
fn mk_dot_cnt_expr() -> (e: Expr)
    ensures
        e == dot_cnt_expr(),
{
    Expr::Mux(
        Box::new(Expr::Sig(13)),
        Box::new(
            Expr::Mux(
                Box::new(Expr::Sig(3)),
                Box::new(Expr::Add(Box::new(Expr::Sig(11)), Box::new(Expr::Const(1)))),
                Box::new(Expr::Sig(11)),
            ),
        ),
        Box::new(
            Expr::Mux(Box::new(Expr::Sig(2)), Box::new(Expr::Const(0)), Box::new(Expr::Sig(11))),
        ),
    )
}

/// Builds `dot_busy_expr`.
fn mk_dot_busy_expr() -> (e: Expr)
    ensures
        e == dot_busy_expr(),
{
    Expr::Mux(
        Box::new(Expr::Sig(13)),
        Box::new(
            Expr::Mux(
                Box::new(Expr::Sig(3)),
                Box::new(
                    Expr::Mux(
                        Box::new(Expr::Eq(Box::new(Expr::Sig(11)), Box::new(Expr::Const(4)))),
                        Box::new(Expr::Const(0)),
                        Box::new(Expr::Const(1)),
                    ),
                ),
                Box::new(Expr::Const(1)),
            ),
        ),
        Box::new(
            Expr::Mux(Box::new(Expr::Sig(2)), Box::new(Expr::Const(1)), Box::new(Expr::Const(0))),
        ),
    )
}

/// Builds `dot_result_expr`.
fn mk_dot_result_expr() -> (e: Expr)
    ensures
        e == dot_result_expr(),
{
    Expr::Mux(
        Box::new(Expr::Sig(13)),
        Box::new(
            Expr::Mux(
                Box::new(Expr::Sig(3)),
                Box::new(
                    Expr::Mux(
                        Box::new(Expr::Eq(Box::new(Expr::Sig(11)), Box::new(Expr::Const(4)))),
                        Box::new(Expr::Sig(9)),
                        Box::new(Expr::Const(0)),
                    ),
                ),
                Box::new(Expr::Const(0)),
            ),
        ),
        Box::new(Expr::Const(0)),
    )
}

/// Builds `dot_busy_out_expr`.
fn mk_dot_busy_out_expr() -> (e: Expr)
    ensures
        e == dot_busy_out_expr(),
{
    let inner = mk_dot_busy_expr();
    Expr::Mux(Box::new(Expr::Sig(1)), Box::new(Expr::Const(0)), Box::new(inner))
}

/// Builds `dot_result_out_expr`.
fn mk_dot_result_out_expr() -> (e: Expr)
    ensures
        e == dot_result_out_expr(),
{
    let inner = mk_dot_result_expr();
    Expr::Mux(Box::new(Expr::Sig(1)), Box::new(Expr::Const(0)), Box::new(inner))
}

/// The accumulator driver evaluates to the machine's accumulator update
/// (before the width wrap at the register).
proof fn lemma_dot_acc_eval(v: Seq<int>)
    requires
        v.len() == 15,
        v[5] >= 0,
    ensures
        eval(dot_acc_expr(), v) == (if v[13] != 0 {
            if v[3] != 0 {
                v[9] + mul8_spec(v[4], v[5])
            } else {
                v[9]
            }
        } else {
            if v[2] != 0 {
                0int
            } else {
                v[9]
            }
        }),
{
    reveal_with_fuel(eval, 6);
    lemma_mul8_expr_eval(v);
}

/// The counter driver evaluates to the machine's counter update.
proof fn lemma_dot_cnt_eval(v: Seq<int>)
    requires
        v.len() == 15,
    ensures
        eval(dot_cnt_expr(), v) == (if v[13] != 0 {
            if v[3] != 0 {
                v[11] + 1
            } else {
                v[11]
            }
        } else {
            if v[2] != 0 {
                0int
            } else {
                v[11]
            }
        }),
{
    reveal_with_fuel(eval, 8);
}

/// The busy driver evaluates to the machine's busy update.
proof fn lemma_dot_busy_eval(v: Seq<int>)
    requires
        v.len() == 15,
    ensures
        eval(dot_busy_expr(), v) == (if v[13] != 0 {
            if v[3] != 0 {
                if v[11] == 4 {
                    0int
                } else {
                    1int
                }
            } else {
                1int
            }
        } else {
            if v[2] != 0 {
                1int
            } else {
                0int
            }
        }),
{
    reveal_with_fuel(eval, 10);
}

/// The result output evaluates to the published sum, or zero.
proof fn lemma_dot_result_eval(v: Seq<int>)
    requires
        v.len() == 15,
    ensures
        eval(dot_result_expr(), v) == (if v[13] != 0 && v[3] != 0 && v[11] == 4 {
            v[9]
        } else {
            0int
        }),
{
    reveal_with_fuel(eval, 10);
}

/// All six rules stay far below the evaluator's cap.
proof fn lemma_dot_shapes(g: ModuleGraph)
    requires
        g.wf(),
        g.signals@.len() == 15,
    ensures
        g.rule_shape_ok(8, mul8_expr()) == (g.signals@[8].dir != Dir::Input),
        g.rule_shape_ok(10, dot_acc_expr()) == (g.signals@[10].dir != Dir::Input),
        g.rule_shape_ok(12, dot_cnt_expr()) == (g.signals@[12].dir != Dir::Input),
        g.rule_shape_ok(14, dot_busy_expr()) == (g.signals@[14].dir != Dir::Input),
        g.rule_shape_ok(6, dot_result_out_expr()) == (g.signals@[6].dir != Dir::Input),
        g.rule_shape_ok(7, dot_busy_out_expr()) == (g.signals@[7].dir != Dir::Input),
{
    reveal_with_fuel(crate::expr::eval_bound, 12);
    reveal_with_fuel(crate::expr::expr_safe, 12);
    reveal_with_fuel(crate::expr::sigs_below, 12);
    g.lemma_caps_bounded();
    crate::expr::lemma_eval_cap();
    lemma2_to64();
    vstd::arithmetic::power2::lemma2_to64_rest();
    let p62 = pow2(62);
    assert forall|c: nat, k: nat| c <= p62 && k <= 128 implies #[trigger] (c * k) <= p62 * 128 by {
        assert(c * k <= p62 * 128) by (nonlinear_arith)
            requires
                c <= p62,
                k <= 128,
        ;
    }
}

/// The accumulator machine's port indices.
pub struct DotPorts {
    pub clock: usize,
    pub reset: usize,
    pub start: usize,
    pub valid: usize,
    pub a: usize,
    pub b: usize,
    pub result: usize,
    pub busy: usize,
}

/// Builds the scalar-product accumulator with its shift-add multiplier.
#[verifier::rlimit(60)]
pub fn build_dot_product() -> (r: (ModuleGraph, DotPorts))
    ensures
        r.0.wf(),
        single_layer(r.0),
        r.1.clock == 0 && r.1.reset == 1 && r.1.start == 2 && r.1.valid == 3 && r.1.a == 4
            && r.1.b == 5 && r.1.result == 6 && r.1.busy == 7,
        r.0.signals@.len() == 15,
        r.0.signals@[0].width == 1 && r.0.signals@[0].sign == Signedness::Unsigned
            && r.0.signals@[0].dir == Dir::Input,
        r.0.signals@[1].width == 1 && r.0.signals@[1].sign == Signedness::Unsigned
            && r.0.signals@[1].dir == Dir::Input,
        r.0.signals@[2].width == 1 && r.0.signals@[2].sign == Signedness::Unsigned
            && r.0.signals@[2].dir == Dir::Input,
        r.0.signals@[3].width == 1 && r.0.signals@[3].sign == Signedness::Unsigned
            && r.0.signals@[3].dir == Dir::Input,
        r.0.signals@[4].width == 8 && r.0.signals@[4].sign == Signedness::Unsigned
            && r.0.signals@[4].dir == Dir::Input,
        r.0.signals@[5].width == 8 && r.0.signals@[5].sign == Signedness::Unsigned
            && r.0.signals@[5].dir == Dir::Input,
        r.0.signals@[6].width == 16 && r.0.signals@[6].sign == Signedness::Unsigned
            && r.0.signals@[6].dir == Dir::Output,
        r.0.signals@[7].width == 1 && r.0.signals@[7].sign == Signedness::Unsigned
            && r.0.signals@[7].dir == Dir::Output,
        r.0.signals@[8].width == 16 && r.0.signals@[8].sign == Signedness::Unsigned
            && r.0.signals@[8].dir == Dir::Internal,
        r.0.signals@[9].width == 16 && r.0.signals@[9].sign == Signedness::Unsigned
            && r.0.signals@[9].dir == Dir::Internal,
        r.0.signals@[10].width == 16 && r.0.signals@[10].sign == Signedness::Unsigned
            && r.0.signals@[10].dir == Dir::Internal,
        r.0.signals@[11].width == 8 && r.0.signals@[11].sign == Signedness::Unsigned
            && r.0.signals@[11].dir == Dir::Internal,
        r.0.signals@[12].width == 8 && r.0.signals@[12].sign == Signedness::Unsigned
            && r.0.signals@[12].dir == Dir::Internal,
        r.0.signals@[13].width == 1 && r.0.signals@[13].sign == Signedness::Unsigned
            && r.0.signals@[13].dir == Dir::Internal,
        r.0.signals@[14].width == 1 && r.0.signals@[14].sign == Signedness::Unsigned
            && r.0.signals@[14].dir == Dir::Internal,
        r.0.domains@.len() == 1 && r.0.domains@[0].clock == 0 && r.0.domains@[0].reset == 1,
        r.0.regs@.len() == 3,
        r.0.regs@[0].out == 9 && r.0.regs@[0].driver == 10 && r.0.regs@[0].domain == 0
            && r.0.regs@[0].reset_val == 0,
        r.0.regs@[1].out == 11 && r.0.regs@[1].driver == 12 && r.0.regs@[1].domain == 0
            && r.0.regs@[1].reset_val == 0,
        r.0.regs@[2].out == 13 && r.0.regs@[2].driver == 14 && r.0.regs@[2].domain == 0
            && r.0.regs@[2].reset_val == 0,
        r.0.rules@.len() == 6,
        r.0.rules@[0].target == 8 && r.0.rules@[0].expr == mul8_expr(),
        r.0.rules@[1].target == 10 && r.0.rules@[1].expr == dot_acc_expr(),
        r.0.rules@[2].target == 12 && r.0.rules@[2].expr == dot_cnt_expr(),
        r.0.rules@[3].target == 14 && r.0.rules@[3].expr == dot_busy_expr(),
        r.0.rules@[4].target == 6 && r.0.rules@[4].expr == dot_result_out_expr(),
        r.0.rules@[5].target == 7 && r.0.rules@[5].expr == dot_busy_out_expr(),
{
    let mut g = ModuleGraph::new(String::from_str("producto_escalar"));
    let clock = g.signal(String::from_str("clock"), 1, Signedness::Unsigned, Dir::Input);
    let reset = g.signal(String::from_str("reset"), 1, Signedness::Unsigned, Dir::Input);
    let start = g.signal(String::from_str("start"), 1, Signedness::Unsigned, Dir::Input);
    let valid = g.signal(String::from_str("valid"), 1, Signedness::Unsigned, Dir::Input);
    let a = g.signal(String::from_str("a"), 8, Signedness::Unsigned, Dir::Input);
    let b = g.signal(String::from_str("b"), 8, Signedness::Unsigned, Dir::Input);
    let result = g.signal(String::from_str("result"), 16, Signedness::Unsigned, Dir::Output);
    let busy = g.signal(String::from_str("busy"), 1, Signedness::Unsigned, Dir::Output);
    let mul = g.signal(String::from_str("mul_resul"), 16, Signedness::Unsigned, Dir::Internal);
    let acc_q = g.signal(String::from_str("accumulator"), 16, Signedness::Unsigned, Dir::Internal);
    let acc_d = g.signal(
        String::from_str("accumulator_next"),
        16,
        Signedness::Unsigned,
        Dir::Internal,
    );
    let cnt_q = g.signal(String::from_str("counter"), 8, Signedness::Unsigned, Dir::Internal);
    let cnt_d = g.signal(String::from_str("counter_next"), 8, Signedness::Unsigned, Dir::Internal);
    let busy_q = g.signal(String::from_str("e_busy"), 1, Signedness::Unsigned, Dir::Internal);
    let busy_d = g.signal(String::from_str("e_busy_next"), 1, Signedness::Unsigned, Dir::Internal);
    let dom = g.clock_domain(clock, reset);
    proof {
        lemma2_to64();
    }
    g.register(acc_q, acc_d, dom, 0);
    g.register(cnt_q, cnt_d, dom, 0);
    g.register(busy_q, busy_d, dom, 0);
    proof {
        lemma_dot_shapes(g);
    }
    g.rule(mul, mk_mul8_expr());
    g.rule(acc_d, mk_dot_acc_expr());
    g.rule(cnt_d, mk_dot_cnt_expr());
    g.rule(busy_d, mk_dot_busy_expr());
    g.rule(result, mk_dot_result_out_expr());
    g.rule(busy, mk_dot_busy_out_expr());
    proof {
        reveal_with_fuel(crate::expr::reads_sig, 12);
        assert forall|q1: int, q2: int|
            0 <= q1 < g.rules@.len() && 0 <= q2 < g.rules@.len() implies !crate::expr::reads_sig(
            #[trigger] g.rules@[q1].expr,
            #[trigger] g.rules@[q2].target as int,
        ) by {
            let t = g.rules@[q2].target as int;
            assert(t == 8 || t == 10 || t == 12 || t == 14 || t == 6 || t == 7);
            let e1 = g.rules@[q1].expr;
            assert(e1 == mul8_expr() || e1 == dot_acc_expr() || e1 == dot_cnt_expr() || e1
                == dot_busy_expr() || e1 == dot_result_out_expr() || e1 == dot_busy_out_expr());
        }
    }
    (
        g,
        DotPorts { clock, reset, start, valid, a, b, result, busy },
    )
}

/// Machine pairs read as integer pairs.
pub open spec fn int_pairs(s: Seq<(i64, i64)>) -> Seq<(int, int)> {
    s.map_values(|p: (i64, i64)| (p.0 as int, p.1 as int))
}

/// Starts the machine, feeds it the four pairs one valid cycle each, and
/// reads the published sum on the final count's cycle.
///
/// The result is the wrap-around (16-bit) accumulation of the four exact
/// products; when the exact scalar product fits 16 bits it is that exact
/// sum.  The busy output, observed combinationally once per cycle, reads
/// true from the cycle the start is accepted through the accumulation, and
/// false in the completion cycle that publishes the sum.
#[verifier::rlimit(100)]
pub fn dot_product_run(ps: &Vec<(i64, i64)>) -> (r: (i64, Vec<bool>))
    requires
        ps@.len() == 4,
        forall|k: int|
            0 <= k < 4 ==> 0 <= (#[trigger] ps@[k]).0 < 256 && 0 <= ps@[k].1 < 256,
    ensures
        r.0 as int == dot_acc(int_pairs(ps@), 4),
        r.1@.len() == 6,
        forall|c: int| 0 <= c < 6 ==> (#[trigger] r.1@[c]) == (c < 5),
{
    let (g, ports) = build_dot_product();
    let ghost g0 = g;
    let ghost ips = int_pairs(ps@);
    let mut sim = CycleSim::new(g);
    proof {
        assert(dot_graph_shape(g0));
        assert(!g0.rule_drives(0) && !g0.rule_drives(1) && !g0.rule_drives(2) && !g0.rule_drives(3)
            && !g0.rule_drives(4) && !g0.rule_drives(5) && !g0.rule_drives(9) && !g0.rule_drives(11)
            && !g0.rule_drives(13)) by {
            assert forall|q: int| 0 <= q < g0.rules@.len() implies {
                let t = (#[trigger] g0.rules@[q]).target;
                t == 8 || t == 10 || t == 12 || t == 14 || t == 6 || t == 7
            } by {}
        }
        assert(!g0.reg_drives(0) && !g0.reg_drives(1) && !g0.reg_drives(2) && !g0.reg_drives(3)
            && !g0.reg_drives(4) && !g0.reg_drives(5) && !g0.reg_drives(6) && !g0.reg_drives(7)
            && !g0.reg_drives(8) && !g0.reg_drives(10) && !g0.reg_drives(12) && !g0.reg_drives(14))
            by {
            assert forall|q: int| 0 <= q < g0.regs@.len() implies {
                let t = (#[trigger] g0.regs@[q]).out;
                t == 9 || t == 11 || t == 13
            } by {}
        }
    }
    let mut busys: Vec<bool> = Vec::new();
    // The start cycle: raise `start` with no valid data.
    let b0 = dot_cycle(&mut sim, Ghost(g0), 1, 0, 0, 0);
    busys.push(b0);
    proof {
        vstd::arithmetic::power2::lemma2_to64();
        crate::value::lemma_trunc_id(0, 8, Signedness::Unsigned);
        assert(int_seq(sim.vals@)[9] == 0 && int_seq(sim.vals@)[11] == 0 && int_seq(sim.vals@)[13]
            == 1);
        reveal_with_fuel(dot_acc, 2);
    }
    let mut i: usize = 0;
    while i < 4
        invariant
            sim.inv(),
            sim.graph == g0,
            i <= 4,
            ps@.len() == 4,
            forall|k: int|
                0 <= k < 4 ==> 0 <= (#[trigger] ps@[k]).0 < 256 && 0 <= ps@[k].1 < 256,
            ips == int_pairs(ps@),
            sim.time == 2 + 2 * i,
            sim.prev@ =~= seq![false],
            int_seq(sim.vals@).len() == 15,
            int_seq(sim.vals@)[0] == 0,
            int_seq(sim.vals@)[1] == 0,
            int_seq(sim.vals@)[9] == dot_acc(ips, i as int),
            int_seq(sim.vals@)[11] == i,
            int_seq(sim.vals@)[13] == 1,
            busys@.len() == i + 1,
            forall|c: int| 0 <= c < i + 1 ==> #[trigger] busys@[c] == true,
        decreases 4 - i,
    {
        let (pa, pb) = ps[i];
        proof {
            assert(ips[i as int] == (ps@[i as int].0 as int, ps@[i as int].1 as int));
            crate::value::lemma_trunc_in_range(
                dot_acc(ips, i as int) + ips[i as int].0 * ips[i as int].1,
                16,
                Signedness::Unsigned,
            );
        }
        let bc = dot_cycle(&mut sim, Ghost(g0), 0, 1, pa, pb);
        busys.push(bc);
        proof {
            vstd::arithmetic::power2::lemma2_to64();
            crate::value::lemma_trunc_id(i + 1, 8, Signedness::Unsigned);
            assert(int_seq(sim.vals@)[9] == dot_acc(ips, i + 1));
            assert(int_seq(sim.vals@)[11] == i + 1);
            assert(int_seq(sim.vals@)[13] == 1);
        }
        i = i + 1;
    }
    // The final count's cycle: the settled result, read before the edge
    // commits the busy drop.
    let stim_hi: Vec<(usize, i64)> = vec![
        (0usize, 1i64),
        (2usize, 0i64),
        (3usize, 1i64),
        (4usize, 0i64),
        (5usize, 0i64),
    ];
    let ghost v_cur = int_seq(sim.vals@);
    let ghost v_hi = apply_stim(g0, v_cur, stim_hi@, 5);
    proof {
        lemma2_to64();
        reveal_with_fuel(apply_stim, 7);
        assert(stim_hi@[0] == (0usize, 1i64) && stim_hi@[1] == (2usize, 0i64) && stim_hi@[2] == (
        3usize,
        1i64,
        ) && stim_hi@[3] == (4usize, 0i64) && stim_hi@[4] == (5usize, 0i64));
        assert(v_hi.len() == 15 && v_hi[0] == 1 && v_hi[1] == 0 && v_hi[2] == 0 && v_hi[3] == 1
            && v_hi[4] == 0 && v_hi[5] == 0 && v_hi[9] == dot_acc(ips, 4) && v_hi[11] == 4
            && v_hi[13] == 1);
        crate::sched::lemma_single_layer_fixpoint(g0, v_hi);
        lemma_single_layer_step(g0, v_hi, sim.prev@);
        let stx = step_spec(g0, v_hi, sim.prev@)->Some_0;
        lemma_dot_result_eval(v_hi);
        crate::value::lemma_trunc_in_range(dot_acc(ips, 3) + ips[3].0 * ips[3].1, 16, Signedness::Unsigned);
        reveal_with_fuel(dot_acc, 6);
        crate::value::lemma_trunc_id(dot_acc(ips, 4), 16, Signedness::Unsigned);
        assert(stx.0[6] == dot_acc(ips, 4)) by {
            assert(g0.rules@[4].target == 6);
            assert(eval(dot_result_out_expr(), v_hi) == eval(dot_result_expr(), v_hi)) by {
                reveal_with_fuel(eval, 3);
                assert(v_hi[1] == 0);
            }
        }
        // The completion cycle drops the combinational busy flag while the
        // sum is published.
        lemma_dot_busy_eval(v_hi);
        crate::value::lemma_trunc_id(0, 1, Signedness::Unsigned);
        assert(stx.0[7] == 0) by {
            assert(g0.rules@[5].target == 7);
            assert(eval(dot_busy_out_expr(), v_hi) == eval(dot_busy_expr(), v_hi)) by {
                reveal_with_fuel(eval, 3);
                assert(v_hi[1] == 0);
            }
        }
        assert(stim_ok(g0, stim_hi@)) by {
            assert(stim_entry_ok(g0, stim_hi@[0]));
            assert(stim_entry_ok(g0, stim_hi@[1]));
            assert(stim_entry_ok(g0, stim_hi@[2]));
            assert(stim_entry_ok(g0, stim_hi@[3]));
            assert(stim_entry_ok(g0, stim_hi@[4]));
            assert forall|k: int| 0 <= k < stim_hi@.len() implies stim_entry_ok(
                g0,
                #[trigger] stim_hi@[k],
            ) by {
                assert(k == 0 || k == 1 || k == 2 || k == 3 || k == 4);
            }
        }
        reveal_with_fuel(run_spec, 3);
        assert(run_spec(g0, v_hi, sim.prev@, sim.time, 1) matches RunSpec::Done { v, .. } && v
            == stx.0);
    }
    match sim.wait(1, &stim_hi) {
        Ok(()) => {},
        Err(_) => {
            return unreached();
        },
    }
    let bf = sim.read(7);
    busys.push(bf == 1);
    let total = sim.read(6);
    proof {
        assert forall|c: int| 0 <= c < 6 implies (#[trigger] busys@[c]) == (c < 5) by {
            if c < 5 {
                assert(busys@[c] == true);
            }
        }
    }
    (total, busys)
}

/// One full clock cycle of the accumulator machine: clock high with the
/// given stimulus, then clock low.  The architectural registers commit one
/// `dot_step`.
#[verifier::rlimit(100)]
fn dot_cycle(sim: &mut CycleSim, Ghost(g0): Ghost<ModuleGraph>, sv: i64, vv: i64, av: i64, bv: i64) -> (busy_obs: bool)
    requires
        old(sim).inv(),
        old(sim).graph == g0,
        old(sim).time + 2 <= u64::MAX,
        old(sim).prev@ =~= seq![false],
        int_seq(old(sim).vals@).len() == 15,
        int_seq(old(sim).vals@)[0] == 0,
        int_seq(old(sim).vals@)[1] == 0,
        sv == 0 || sv == 1,
        vv == 0 || vv == 1,
        0 <= av < 256,
        0 <= bv < 256,
        crate::circuits::dot_product::dot_graph_shape(g0),
        !g0.rule_drives(0) && !g0.rule_drives(1) && !g0.rule_drives(2) && !g0.rule_drives(3)
            && !g0.rule_drives(4) && !g0.rule_drives(5) && !g0.rule_drives(9) && !g0.rule_drives(11)
            && !g0.rule_drives(13),
        !g0.reg_drives(0) && !g0.reg_drives(1) && !g0.reg_drives(2) && !g0.reg_drives(3)
            && !g0.reg_drives(4) && !g0.reg_drives(5) && !g0.reg_drives(6) && !g0.reg_drives(7)
            && !g0.reg_drives(8) && !g0.reg_drives(10) && !g0.reg_drives(12) && !g0.reg_drives(14),
    ensures
        final(sim).inv(),
        final(sim).graph == g0,
        final(sim).time == old(sim).time + 2,
        final(sim).prev@ =~= seq![false],
        int_seq(final(sim).vals@).len() == 15,
        int_seq(final(sim).vals@)[0] == 0,
        int_seq(final(sim).vals@)[1] == 0,
        ({
            let pre = DotState {
                acc: int_seq(old(sim).vals@)[9],
                cnt: int_seq(old(sim).vals@)[11],
                busy: int_seq(old(sim).vals@)[13] != 0,
            };
            let post = dot_step(pre, sv != 0, vv != 0, (av as int) * (bv as int));
            &&& int_seq(final(sim).vals@)[9] == post.acc
            &&& int_seq(final(sim).vals@)[11] == trunc_val(post.cnt, 8, Signedness::Unsigned)
            &&& int_seq(final(sim).vals@)[13] == (if post.busy {
                1int
            } else {
                0int
            })
            &&& busy_obs == post.busy
        }),
{
    let stim_hi: Vec<(usize, i64)> = vec![
        (0usize, 1i64),
        (2usize, sv),
        (3usize, vv),
        (4usize, av),
        (5usize, bv),
    ];
    let stim_lo: Vec<(usize, i64)> = vec![(0usize, 0i64)];
    let ghost v_cur = int_seq(sim.vals@);
    let ghost v_hi = apply_stim(g0, v_cur, stim_hi@, 5);
    let ghost pre = DotState { acc: v_cur[9], cnt: v_cur[11], busy: v_cur[13] != 0 };
    let ghost post = dot_step(pre, sv != 0, vv != 0, (av as int) * (bv as int));
    proof {
        lemma2_to64();
        reveal_with_fuel(apply_stim, 7);
        assert(stim_hi@[0] == (0usize, 1i64) && stim_hi@[1] == (2usize, sv) && stim_hi@[2] == (
        3usize,
        vv,
        ) && stim_hi@[3] == (4usize, av) && stim_hi@[4] == (5usize, bv));
        assert(v_hi.len() == 15 && v_hi[0] == 1 && v_hi[1] == 0 && v_hi[2] == sv && v_hi[3] == vv
            && v_hi[4] == av && v_hi[5] == bv && v_hi[9] == pre.acc && v_hi[11] == pre.cnt
            && v_hi[13] == v_cur[13]);
        crate::sched::lemma_single_layer_fixpoint(g0, v_hi);
        lemma_single_layer_step(g0, v_hi, sim.prev@);
        let s_fix = crate::sched::comb_fixpoint(g0, v_hi)->Some_0;
        let stx = step_spec(g0, v_hi, sim.prev@)->Some_0;
        lemma_dot_acc_eval(v_hi);
        lemma_dot_cnt_eval(v_hi);
        lemma_dot_busy_eval(v_hi);
        lemma_mul8_exact(av as int, bv as int);
        crate::value::lemma_trunc_in_range(
            eval(dot_acc_expr(), v_hi),
            16,
            Signedness::Unsigned,
        );
        crate::value::lemma_trunc_id(
            if post.busy {
                1int
            } else {
                0int
            },
            1,
            Signedness::Unsigned,
        );
        assert(s_fix[10] == trunc_val(eval(dot_acc_expr(), v_hi), 16, Signedness::Unsigned)) by {
            assert(g0.rules@[1].target == 10);
        }
        assert(s_fix[10] == post.acc);
        assert(s_fix[12] == trunc_val(eval(dot_cnt_expr(), v_hi), 8, Signedness::Unsigned)) by {
            assert(g0.rules@[2].target == 12);
        }
        assert(s_fix[14] == (if post.busy {
            1int
        } else {
            0int
        })) by {
            assert(g0.rules@[3].target == 14);
        }
        // The busy output settles to the same gated value the busy register
        // commits: true in an accepted-start cycle, false in the completion
        // cycle.
        assert(s_fix[7] == (if post.busy {
            1int
        } else {
            0int
        })) by {
            assert(g0.rules@[5].target == 7);
            assert(eval(dot_busy_out_expr(), v_hi) == eval(dot_busy_expr(), v_hi)) by {
                reveal_with_fuel(eval, 3);
                assert(v_hi[1] == 0);
            }
        }
        assert(s_fix[0] == 1 && s_fix[1] == 0);
        assert(crate::sched::edge_rises(g0, sim.prev@, s_fix, 0));
        assert(stx.0[9] == s_fix[10] && stx.0[11] == s_fix[12] && stx.0[13] == s_fix[14]) by {
            assert(g0.regs@[0].out == 9 && g0.regs@[1].out == 11 && g0.regs@[2].out == 13);
        }
        assert(stx.0[0] == 1 && stx.0[1] == 0);
        assert(stx.1 =~= seq![true]);
        assert(stim_ok(g0, stim_hi@)) by {
            assert(stim_entry_ok(g0, stim_hi@[0]));
            assert(stim_entry_ok(g0, stim_hi@[1]));
            assert(stim_entry_ok(g0, stim_hi@[2]));
            assert(stim_entry_ok(g0, stim_hi@[3]));
            assert(stim_entry_ok(g0, stim_hi@[4]));
            assert forall|k: int| 0 <= k < stim_hi@.len() implies stim_entry_ok(
                g0,
                #[trigger] stim_hi@[k],
            ) by {
                assert(k == 0 || k == 1 || k == 2 || k == 3 || k == 4);
            }
        }
        reveal_with_fuel(run_spec, 3);
        assert(run_spec(g0, v_hi, sim.prev@, sim.time, 1) matches RunSpec::Done { v, .. } && v
            == stx.0);
    }
    match sim.wait(1, &stim_hi) {
        Ok(()) => {},
        Err(_) => {
            unreached::<()>();
        },
    }
    let busy_word = sim.read(7);
    proof {
        assert(busy_word as int == (if post.busy {
            1int
        } else {
            0int
        }));
    }
    let ghost v1v = int_seq(sim.vals@);
    let ghost v_lo = apply_stim(g0, v1v, stim_lo@, 1);
    proof {
        lemma2_to64();
        reveal_with_fuel(apply_stim, 2);
        assert(v_lo.len() == 15 && v_lo[0] == 0 && v_lo[1] == 0 && v_lo[9] == post.acc && v_lo[13]
            == (if post.busy {
            1int
        } else {
            0int
        }));
        crate::sched::lemma_single_layer_fixpoint(g0, v_lo);
        lemma_single_layer_step(g0, v_lo, sim.prev@);
        let s_fix = crate::sched::comb_fixpoint(g0, v_lo)->Some_0;
        let stx = step_spec(g0, v_lo, sim.prev@)->Some_0;
        assert(!crate::sched::edge_rises(g0, sim.prev@, s_fix, 0)) by {
            assert(sim.prev@[0] == true);
        }
        assert(stx.0[9] == v_lo[9] && stx.0[11] == v_lo[11] && stx.0[13] == v_lo[13]) by {
            assert(g0.regs@[0].out == 9 && g0.regs@[1].out == 11 && g0.regs@[2].out == 13);
            assert(s_fix[9] == v_lo[9] && s_fix[11] == v_lo[11] && s_fix[13] == v_lo[13]);
        }
        assert(stx.0[0] == 0 && stx.0[1] == 0);
        assert(stx.1 =~= seq![false]) by {
            assert(s_fix[0] == 0);
        }
        assert(stim_ok(g0, stim_lo@)) by {
            assert(stim_entry_ok(g0, stim_lo@[0]));
            assert forall|k: int| 0 <= k < stim_lo@.len() implies stim_entry_ok(
                g0,
                #[trigger] stim_lo@[k],
            ) by {
                assert(k == 0);
            }
        }
        reveal_with_fuel(run_spec, 3);
        assert(run_spec(g0, v_lo, sim.prev@, sim.time, 1) matches RunSpec::Done { v, .. } && v
            == stx.0);
    }
    match sim.wait(1, &stim_lo) {
        Ok(()) => {},
        Err(_) => {
            unreached::<()>();
        },
    }
    busy_word == 1
}

/// The ground facts about the accumulator graph that the cycle driver needs.
pub open spec fn dot_graph_shape(g: ModuleGraph) -> bool {
    &&& g.wf()
    &&& single_layer(g)
    &&& g.signals@.len() == 15
    &&& g.signals@[0].width == 1 && g.signals@[0].sign == Signedness::Unsigned && g.signals@[0].dir
        == Dir::Input
    &&& g.signals@[1].width == 1 && g.signals@[1].sign == Signedness::Unsigned && g.signals@[1].dir
        == Dir::Input
    &&& g.signals@[2].width == 1 && g.signals@[2].sign == Signedness::Unsigned && g.signals@[2].dir
        == Dir::Input
    &&& g.signals@[3].width == 1 && g.signals@[3].sign == Signedness::Unsigned && g.signals@[3].dir
        == Dir::Input
    &&& g.signals@[4].width == 8 && g.signals@[4].sign == Signedness::Unsigned && g.signals@[4].dir
        == Dir::Input
    &&& g.signals@[5].width == 8 && g.signals@[5].sign == Signedness::Unsigned && g.signals@[5].dir
        == Dir::Input
    &&& g.signals@[6].width == 16 && g.signals@[6].sign == Signedness::Unsigned
        && g.signals@[6].dir == Dir::Output
    &&& g.signals@[7].width == 1 && g.signals@[7].sign == Signedness::Unsigned && g.signals@[7].dir
        == Dir::Output
    &&& g.signals@[8].width == 16 && g.signals@[8].sign == Signedness::Unsigned
        && g.signals@[8].dir == Dir::Internal
    &&& g.signals@[9].width == 16 && g.signals@[9].sign == Signedness::Unsigned
        && g.signals@[9].dir == Dir::Internal
    &&& g.signals@[10].width == 16 && g.signals@[10].sign == Signedness::Unsigned
        && g.signals@[10].dir == Dir::Internal
    &&& g.signals@[11].width == 8 && g.signals@[11].sign == Signedness::Unsigned
        && g.signals@[11].dir == Dir::Internal
    &&& g.signals@[12].width == 8 && g.signals@[12].sign == Signedness::Unsigned
        && g.signals@[12].dir == Dir::Internal
    &&& g.signals@[13].width == 1 && g.signals@[13].sign == Signedness::Unsigned
        && g.signals@[13].dir == Dir::Internal
    &&& g.signals@[14].width == 1 && g.signals@[14].sign == Signedness::Unsigned
        && g.signals@[14].dir == Dir::Internal
    &&& g.domains@.len() == 1 && g.domains@[0].clock == 0 && g.domains@[0].reset == 1
    &&& g.regs@.len() == 3
    &&& g.regs@[0].out == 9 && g.regs@[0].driver == 10 && g.regs@[0].domain == 0
        && g.regs@[0].reset_val == 0
    &&& g.regs@[1].out == 11 && g.regs@[1].driver == 12 && g.regs@[1].domain == 0
        && g.regs@[1].reset_val == 0
    &&& g.regs@[2].out == 13 && g.regs@[2].driver == 14 && g.regs@[2].domain == 0
        && g.regs@[2].reset_val == 0
    &&& g.rules@.len() == 6
    &&& g.rules@[0].target == 8 && g.rules@[0].expr == mul8_expr()
    &&& g.rules@[1].target == 10 && g.rules@[1].expr == dot_acc_expr()
    &&& g.rules@[2].target == 12 && g.rules@[2].expr == dot_cnt_expr()
    &&& g.rules@[3].target == 14 && g.rules@[3].expr == dot_busy_expr()
    &&& g.rules@[4].target == 6 && g.rules@[4].expr == dot_result_out_expr()
    &&& g.rules@[5].target == 7 && g.rules@[5].expr == dot_busy_out_expr()
}

} // verus!
