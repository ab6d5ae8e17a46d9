//! A sequential 2x2 matrix multiplier: a six-state machine computes one
//! product entry per state using two temporaries, committing each result
//! entry on a clock edge and reporting completion exactly once per run.
//! The completion and result outputs are reset-gated combinational reads of
//! the result registers: holding reset silences them before any edge.

use crate::expr::{eval, int_seq, Expr};
use crate::graph::{Dir, ModuleGraph};
use crate::sched::{lemma_single_layer_step, single_layer, step_spec};
use crate::sim::{apply_stim, run_spec, stim_entry_ok, stim_ok, CycleSim, RunSpec};
use crate::value::{in_range, Signedness};
use vstd::pervasive::unreached;
use vstd::prelude::*;

verus! {

/// The machine's architectural state: the control state (0 idle, 1..=4 the
/// four products, 5 done), the two temporaries, and the four result
/// registers.
pub struct MatSeqState {
    pub st: int,
    pub t1: int,
    pub t2: int,
    pub r0: int,
    pub r1: int,
    pub r2: int,
    pub r3: int,
}

/// The idle, all-zero state.
pub open spec fn mseq_zero() -> MatSeqState {
    MatSeqState { st: 0, t1: 0, t2: 0, r0: 0, r1: 0, r2: 0, r3: 0 }
}

/// One clock cycle: the control state advances, the temporaries load the
/// products the current state calls for, and each result entry commits its
/// sum in its state.
pub open spec fn mseq_step(s: MatSeqState, start: bool, a: Seq<int>, b: Seq<int>) -> MatSeqState {
    MatSeqState {
        st: if s.st == 0 {
            if start {
                1
            } else {
                0
            }
        } else if s.st == 1 {
            2
        } else if s.st == 2 {
            3
        } else if s.st == 3 {
            4
        } else if s.st == 4 {
            5
        } else {
            0
        },
        t1: if s.st == 1 {
            a[0] * b[0]
        } else if s.st == 2 {
            a[0] * b[1]
        } else if s.st == 3 {
            a[2] * b[0]
        } else if s.st == 4 {
            a[2] * b[1]
        } else {
            s.t1
        },
        t2: if s.st == 1 {
            a[1] * b[2]
        } else if s.st == 2 {
            a[1] * b[3]
        } else if s.st == 3 {
            a[3] * b[2]
        } else if s.st == 4 {
            a[3] * b[3]
        } else {
            s.t2
        },
        r0: if s.st == 2 {
            s.t1 + s.t2
        } else {
            s.r0
        },
        r1: if s.st == 3 {
            s.t1 + s.t2
        } else {
            s.r1
        },
        r2: if s.st == 4 {
            s.t1 + s.t2
        } else {
            s.r2
        },
        r3: if s.st == 5 {
            s.t1 + s.t2
        } else {
            s.r3
        },
    }
}

/// The state after `c` cycles of a run started (once) on the first cycle.
pub open spec fn mseq_run(a: Seq<int>, b: Seq<int>, c: int) -> MatSeqState
    decreases c,
{
    if c <= 0 {
        mseq_zero()
    } else {
        mseq_step(mseq_run(a, b, c - 1), c == 1, a, b)
    }
}

/// Driven through its full state sequence, the machine produces the standard
/// matrix product in arbitrary precision and passes through its completion
/// state exactly once.
pub proof fn lemma_mseq_schedule(a: Seq<int>, b: Seq<int>)
    ensures
        mseq_run(a, b, 6).r0 == a[0] * b[0] + a[1] * b[2],
        mseq_run(a, b, 6).r1 == a[0] * b[1] + a[1] * b[3],
        mseq_run(a, b, 6).r2 == a[2] * b[0] + a[3] * b[2],
        mseq_run(a, b, 6).r3 == a[2] * b[1] + a[3] * b[3],
        forall|c: int| 0 <= c <= 6 ==> ((#[trigger] mseq_run(a, b, c).st == 5) == (c == 5)),
{
    reveal_with_fuel(mseq_run, 8);
    assert(mseq_run(a, b, 0).st == 0);
    assert(mseq_run(a, b, 1).st == 1);
    assert(mseq_run(a, b, 2).st == 2);
    assert(mseq_run(a, b, 3).st == 3);
    assert(mseq_run(a, b, 4).st == 4);
    assert(mseq_run(a, b, 5).st == 5);
    assert(mseq_run(a, b, 6).st == 0);
    assert forall|c: int| 0 <= c <= 6 implies ((#[trigger] mseq_run(a, b, c).st == 5) == (c
        == 5)) by {
        assert(c == 0 || c == 1 || c == 2 || c == 3 || c == 4 || c == 5 || c == 6);
    }
}

/// The next-control-state expression over the state register (16) and the
/// start input (2).
pub open spec fn mseq_st_expr() -> Expr {
    Expr::Mux(
        Box::new(Expr::Eq(Box::new(Expr::Sig(16)), Box::new(Expr::Const(0)))),
        Box::new(Expr::Mux(Box::new(Expr::Sig(2)), Box::new(Expr::Const(1)), Box::new(Expr::Const(0)))),
        Box::new(
            Expr::Mux(
                Box::new(Expr::Eq(Box::new(Expr::Sig(16)), Box::new(Expr::Const(5)))),
                Box::new(Expr::Const(0)),
                Box::new(Expr::Add(Box::new(Expr::Sig(16)), Box::new(Expr::Const(1)))),
            ),
        ),
    )
}

/// A four-way, state-selected load with hold: in states 1..=4 the value is
/// the selected product, otherwise the register holds.
pub open spec fn mseq_load_expr(x1: usize, y1: usize, x2: usize, y2: usize, x3: usize, y3: usize, x4: usize, y4: usize, hold: usize) -> Expr {
    Expr::Mux(
        Box::new(Expr::Eq(Box::new(Expr::Sig(16)), Box::new(Expr::Const(1)))),
        Box::new(Expr::Mul(Box::new(Expr::Sig(x1)), Box::new(Expr::Sig(y1)))),
        Box::new(
            Expr::Mux(
                Box::new(Expr::Eq(Box::new(Expr::Sig(16)), Box::new(Expr::Const(2)))),
                Box::new(Expr::Mul(Box::new(Expr::Sig(x2)), Box::new(Expr::Sig(y2)))),
                Box::new(
                    Expr::Mux(
                        Box::new(Expr::Eq(Box::new(Expr::Sig(16)), Box::new(Expr::Const(3)))),
                        Box::new(Expr::Mul(Box::new(Expr::Sig(x3)), Box::new(Expr::Sig(y3)))),
                        Box::new(
                            Expr::Mux(
                                Box::new(Expr::Eq(Box::new(Expr::Sig(16)), Box::new(Expr::Const(4)))),
                                Box::new(Expr::Mul(Box::new(Expr::Sig(x4)), Box::new(Expr::Sig(y4)))),
                                Box::new(Expr::Sig(hold)),
                            ),
                        ),
                    ),
                ),
            ),
        ),
    )
}

/// A result register's driver: load the sum of the temporaries in one
/// state, hold otherwise.
pub open spec fn mseq_sum_expr(state_val: i64, hold: usize) -> Expr {
    Expr::Mux(
        Box::new(Expr::Eq(Box::new(Expr::Sig(16)), Box::new(Expr::Const(state_val)))),
        Box::new(Expr::Add(Box::new(Expr::Sig(18)), Box::new(Expr::Sig(20)))),
        Box::new(Expr::Sig(hold)),
    )
}

/// The completion output: low while reset is held, else whether the machine
/// is in its done state.
pub open spec fn mseq_done_expr() -> Expr {
    Expr::Mux(
        Box::new(Expr::Sig(1)),
        Box::new(Expr::Const(0)),
        Box::new(Expr::Eq(Box::new(Expr::Sig(16)), Box::new(Expr::Const(5)))),
    )
}

/// A result output: zero while reset is held, else a copy of its result
/// register.
pub open spec fn mseq_out_expr(src: usize) -> Expr {
    Expr::Mux(Box::new(Expr::Sig(1)), Box::new(Expr::Const(0)), Box::new(Expr::Sig(src)))
}

/// While the reset line is held, the completion and result outputs settle
/// to zero, whatever the registers hold: reset overrides any history at the
/// outputs before the edge even commits.
pub proof fn lemma_mseq_reset_outputs(v: Seq<int>)
    requires
        v.len() == 30,
        v[1] != 0,
    ensures
        eval(mseq_done_expr(), v) == 0,
        eval(mseq_out_expr(26), v) == 0,
        eval(mseq_out_expr(27), v) == 0,
        eval(mseq_out_expr(28), v) == 0,
        eval(mseq_out_expr(29), v) == 0,
{
    reveal_with_fuel(eval, 6);
}

/// Builds `mseq_st_expr`.
fn mk_st_expr() -> (e: Expr)
    ensures
        e == mseq_st_expr(),
{
    Expr::Mux(
        Box::new(Expr::Eq(Box::new(Expr::Sig(16)), Box::new(Expr::Const(0)))),
        Box::new(Expr::Mux(Box::new(Expr::Sig(2)), Box::new(Expr::Const(1)), Box::new(Expr::Const(0)))),
        Box::new(
            Expr::Mux(
                Box::new(Expr::Eq(Box::new(Expr::Sig(16)), Box::new(Expr::Const(5)))),
                Box::new(Expr::Const(0)),
                Box::new(Expr::Add(Box::new(Expr::Sig(16)), Box::new(Expr::Const(1)))),
            ),
        ),
    )
}

/// Builds `mseq_load_expr`.
fn mk_load_expr(x1: usize, y1: usize, x2: usize, y2: usize, x3: usize, y3: usize, x4: usize, y4: usize, hold: usize) -> (e: Expr)
    ensures
        e == mseq_load_expr(x1, y1, x2, y2, x3, y3, x4, y4, hold),
{
    Expr::Mux(
        Box::new(Expr::Eq(Box::new(Expr::Sig(16)), Box::new(Expr::Const(1)))),
        Box::new(Expr::Mul(Box::new(Expr::Sig(x1)), Box::new(Expr::Sig(y1)))),
        Box::new(
            Expr::Mux(
                Box::new(Expr::Eq(Box::new(Expr::Sig(16)), Box::new(Expr::Const(2)))),
                Box::new(Expr::Mul(Box::new(Expr::Sig(x2)), Box::new(Expr::Sig(y2)))),
                Box::new(
                    Expr::Mux(
                        Box::new(Expr::Eq(Box::new(Expr::Sig(16)), Box::new(Expr::Const(3)))),
                        Box::new(Expr::Mul(Box::new(Expr::Sig(x3)), Box::new(Expr::Sig(y3)))),
                        Box::new(
                            Expr::Mux(
                                Box::new(Expr::Eq(Box::new(Expr::Sig(16)), Box::new(Expr::Const(4)))),
                                Box::new(Expr::Mul(Box::new(Expr::Sig(x4)), Box::new(Expr::Sig(y4)))),
                                Box::new(Expr::Sig(hold)),
                            ),
                        ),
                    ),
                ),
            ),
        ),
    )
}

/// Builds `mseq_done_expr`.
fn mk_done_expr() -> (e: Expr)
    ensures
        e == mseq_done_expr(),
{
    Expr::Mux(
        Box::new(Expr::Sig(1)),
        Box::new(Expr::Const(0)),
        Box::new(Expr::Eq(Box::new(Expr::Sig(16)), Box::new(Expr::Const(5)))),
    )
}

/// Builds `mseq_out_expr`.
fn mk_out_expr(src: usize) -> (e: Expr)
    ensures
        e == mseq_out_expr(src),
{
    Expr::Mux(Box::new(Expr::Sig(1)), Box::new(Expr::Const(0)), Box::new(Expr::Sig(src)))
}

/// Builds `mseq_sum_expr`.
fn mk_sum_expr(state_val: i64, hold: usize) -> (e: Expr)
    ensures
        e == mseq_sum_expr(state_val, hold),
{
    Expr::Mux(
        Box::new(Expr::Eq(Box::new(Expr::Sig(16)), Box::new(Expr::Const(state_val)))),
        Box::new(Expr::Add(Box::new(Expr::Sig(18)), Box::new(Expr::Sig(20)))),
        Box::new(Expr::Sig(hold)),
    )
}

/// The machine's port indices.
pub struct MatSeqPorts {
    pub clk: usize,
    pub rst: usize,
    pub start: usize,
    pub a: usize,
    pub b: usize,
    pub result: usize,
    pub done: usize,
}

/// Builds the sequential 2x2 matrix multiplier.
#[verifier::rlimit(60)]
pub fn build_matmul_seq() -> (r: (ModuleGraph, MatSeqPorts))
    ensures
        r.0.wf(),
        single_layer(r.0),
        r.1.clk == 0 && r.1.rst == 1 && r.1.start == 2 && r.1.a == 3 && r.1.b == 7 && r.1.result
            == 11 && r.1.done == 15,
        r.0.signals@.len() == 30,
        r.0.signals@[0].width == 1 && r.0.signals@[0].sign == Signedness::Unsigned
            && r.0.signals@[0].dir == Dir::Input,
        r.0.signals@[1].width == 1 && r.0.signals@[1].sign == Signedness::Unsigned
            && r.0.signals@[1].dir == Dir::Input,
        r.0.signals@[2].width == 1 && r.0.signals@[2].sign == Signedness::Unsigned
            && r.0.signals@[2].dir == Dir::Input,
        r.0.signals@[3].width == 4 && r.0.signals@[3].sign == Signedness::Signed
            && r.0.signals@[3].dir == Dir::Input,
        r.0.signals@[4].width == 4 && r.0.signals@[4].sign == Signedness::Signed
            && r.0.signals@[4].dir == Dir::Input,
        r.0.signals@[5].width == 4 && r.0.signals@[5].sign == Signedness::Signed
            && r.0.signals@[5].dir == Dir::Input,
        r.0.signals@[6].width == 4 && r.0.signals@[6].sign == Signedness::Signed
            && r.0.signals@[6].dir == Dir::Input,
        r.0.signals@[7].width == 4 && r.0.signals@[7].sign == Signedness::Signed
            && r.0.signals@[7].dir == Dir::Input,
        r.0.signals@[8].width == 4 && r.0.signals@[8].sign == Signedness::Signed
            && r.0.signals@[8].dir == Dir::Input,
        r.0.signals@[9].width == 4 && r.0.signals@[9].sign == Signedness::Signed
            && r.0.signals@[9].dir == Dir::Input,
        r.0.signals@[10].width == 4 && r.0.signals@[10].sign == Signedness::Signed
            && r.0.signals@[10].dir == Dir::Input,
        r.0.signals@[11].width == 32 && r.0.signals@[11].sign == Signedness::Signed
            && r.0.signals@[11].dir == Dir::Output,
        r.0.signals@[12].width == 32 && r.0.signals@[12].sign == Signedness::Signed
            && r.0.signals@[12].dir == Dir::Output,
        r.0.signals@[13].width == 32 && r.0.signals@[13].sign == Signedness::Signed
            && r.0.signals@[13].dir == Dir::Output,
        r.0.signals@[14].width == 32 && r.0.signals@[14].sign == Signedness::Signed
            && r.0.signals@[14].dir == Dir::Output,
        r.0.signals@[15].width == 1 && r.0.signals@[15].sign == Signedness::Unsigned
            && r.0.signals@[15].dir == Dir::Output,
        r.0.signals@[16].width == 3 && r.0.signals@[16].sign == Signedness::Unsigned
            && r.0.signals@[16].dir == Dir::Internal,
        r.0.signals@[17].width == 3 && r.0.signals@[17].sign == Signedness::Unsigned
            && r.0.signals@[17].dir == Dir::Internal,
        r.0.signals@[18].width == 32 && r.0.signals@[18].sign == Signedness::Signed
            && r.0.signals@[18].dir == Dir::Internal,
        r.0.signals@[19].width == 32 && r.0.signals@[19].sign == Signedness::Signed
            && r.0.signals@[19].dir == Dir::Internal,
        r.0.signals@[20].width == 32 && r.0.signals@[20].sign == Signedness::Signed
            && r.0.signals@[20].dir == Dir::Internal,
        r.0.signals@[21].width == 32 && r.0.signals@[21].sign == Signedness::Signed
            && r.0.signals@[21].dir == Dir::Internal,
        r.0.signals@[22].width == 32 && r.0.signals@[22].sign == Signedness::Signed
            && r.0.signals@[22].dir == Dir::Internal,
        r.0.signals@[23].width == 32 && r.0.signals@[23].sign == Signedness::Signed
            && r.0.signals@[23].dir == Dir::Internal,
        r.0.signals@[24].width == 32 && r.0.signals@[24].sign == Signedness::Signed
            && r.0.signals@[24].dir == Dir::Internal,
        r.0.signals@[25].width == 32 && r.0.signals@[25].sign == Signedness::Signed
            && r.0.signals@[25].dir == Dir::Internal,
        r.0.signals@[26].width == 32 && r.0.signals@[26].sign == Signedness::Signed
            && r.0.signals@[26].dir == Dir::Internal,
        r.0.signals@[27].width == 32 && r.0.signals@[27].sign == Signedness::Signed
            && r.0.signals@[27].dir == Dir::Internal,
        r.0.signals@[28].width == 32 && r.0.signals@[28].sign == Signedness::Signed
            && r.0.signals@[28].dir == Dir::Internal,
        r.0.signals@[29].width == 32 && r.0.signals@[29].sign == Signedness::Signed
            && r.0.signals@[29].dir == Dir::Internal,
        r.0.domains@.len() == 1 && r.0.domains@[0].clock == 0 && r.0.domains@[0].reset == 1,
        r.0.regs@.len() == 7,
        r.0.regs@[0].out == 16 && r.0.regs@[0].driver == 17 && r.0.regs@[0].domain == 0
            && r.0.regs@[0].reset_val == 0,
        r.0.regs@[1].out == 18 && r.0.regs@[1].driver == 19 && r.0.regs@[1].domain == 0
            && r.0.regs@[1].reset_val == 0,
        r.0.regs@[2].out == 20 && r.0.regs@[2].driver == 21 && r.0.regs@[2].domain == 0
            && r.0.regs@[2].reset_val == 0,
        r.0.regs@[3].out == 26 && r.0.regs@[3].driver == 22 && r.0.regs@[3].domain == 0
            && r.0.regs@[3].reset_val == 0,
        r.0.regs@[4].out == 27 && r.0.regs@[4].driver == 23 && r.0.regs@[4].domain == 0
            && r.0.regs@[4].reset_val == 0,
        r.0.regs@[5].out == 28 && r.0.regs@[5].driver == 24 && r.0.regs@[5].domain == 0
            && r.0.regs@[5].reset_val == 0,
        r.0.regs@[6].out == 29 && r.0.regs@[6].driver == 25 && r.0.regs@[6].domain == 0
            && r.0.regs@[6].reset_val == 0,
        r.0.rules@.len() == 12,
        r.0.rules@[0].target == 17 && r.0.rules@[0].expr == mseq_st_expr(),
        r.0.rules@[1].target == 19 && r.0.rules@[1].expr == mseq_load_expr(3, 7, 3, 8, 5, 7, 5, 8, 18),
        r.0.rules@[2].target == 21 && r.0.rules@[2].expr == mseq_load_expr(4, 9, 4, 10, 6, 9, 6, 10, 20),
        r.0.rules@[3].target == 22 && r.0.rules@[3].expr == mseq_sum_expr(2, 26),
        r.0.rules@[4].target == 23 && r.0.rules@[4].expr == mseq_sum_expr(3, 27),
        r.0.rules@[5].target == 24 && r.0.rules@[5].expr == mseq_sum_expr(4, 28),
        r.0.rules@[6].target == 25 && r.0.rules@[6].expr == mseq_sum_expr(5, 29),
        r.0.rules@[7].target == 15 && r.0.rules@[7].expr == mseq_done_expr(),
        r.0.rules@[8].target == 11 && r.0.rules@[8].expr == mseq_out_expr(26),
        r.0.rules@[9].target == 12 && r.0.rules@[9].expr == mseq_out_expr(27),
        r.0.rules@[10].target == 13 && r.0.rules@[10].expr == mseq_out_expr(28),
        r.0.rules@[11].target == 14 && r.0.rules@[11].expr == mseq_out_expr(29),
{
    let mut g = ModuleGraph::new(String::from_str("multiplicacion_matrices_secuencial"));
    let clk = g.signal(String::from_str("clk"), 1, Signedness::Unsigned, Dir::Input);
    let rst = g.signal(String::from_str("rst"), 1, Signedness::Unsigned, Dir::Input);
    let start = g.signal(String::from_str("start"), 1, Signedness::Unsigned, Dir::Input);
    let a0 = g.signal(String::from_str("a$0"), 4, Signedness::Signed, Dir::Input);
    let a1 = g.signal(String::from_str("a$1"), 4, Signedness::Signed, Dir::Input);
    let a2 = g.signal(String::from_str("a$2"), 4, Signedness::Signed, Dir::Input);
    let a3 = g.signal(String::from_str("a$3"), 4, Signedness::Signed, Dir::Input);
    let b0 = g.signal(String::from_str("b$0"), 4, Signedness::Signed, Dir::Input);
    let b1 = g.signal(String::from_str("b$1"), 4, Signedness::Signed, Dir::Input);
    let b2 = g.signal(String::from_str("b$2"), 4, Signedness::Signed, Dir::Input);
    let b3 = g.signal(String::from_str("b$3"), 4, Signedness::Signed, Dir::Input);
    let r0 = g.signal(String::from_str("result$0"), 32, Signedness::Signed, Dir::Output);
    let r1 = g.signal(String::from_str("result$1"), 32, Signedness::Signed, Dir::Output);
    let r2 = g.signal(String::from_str("result$2"), 32, Signedness::Signed, Dir::Output);
    let r3 = g.signal(String::from_str("result$3"), 32, Signedness::Signed, Dir::Output);
    let done = g.signal(String::from_str("done"), 1, Signedness::Unsigned, Dir::Output);
    let st_q = g.signal(String::from_str("state"), 3, Signedness::Unsigned, Dir::Internal);
    let st_d = g.signal(String::from_str("state_next"), 3, Signedness::Unsigned, Dir::Internal);
    let t1_q = g.signal(String::from_str("temp1"), 32, Signedness::Signed, Dir::Internal);
    let t1_d = g.signal(String::from_str("temp1_next"), 32, Signedness::Signed, Dir::Internal);
    let t2_q = g.signal(String::from_str("temp2"), 32, Signedness::Signed, Dir::Internal);
    let t2_d = g.signal(String::from_str("temp2_next"), 32, Signedness::Signed, Dir::Internal);
    let r0_d = g.signal(String::from_str("result_next$0"), 32, Signedness::Signed, Dir::Internal);
    let r1_d = g.signal(String::from_str("result_next$1"), 32, Signedness::Signed, Dir::Internal);
    let r2_d = g.signal(String::from_str("result_next$2"), 32, Signedness::Signed, Dir::Internal);
    let r3_d = g.signal(String::from_str("result_next$3"), 32, Signedness::Signed, Dir::Internal);
    let r0_q = g.signal(String::from_str("result_reg$0"), 32, Signedness::Signed, Dir::Internal);
    let r1_q = g.signal(String::from_str("result_reg$1"), 32, Signedness::Signed, Dir::Internal);
    let r2_q = g.signal(String::from_str("result_reg$2"), 32, Signedness::Signed, Dir::Internal);
    let r3_q = g.signal(String::from_str("result_reg$3"), 32, Signedness::Signed, Dir::Internal);
    let dom = g.clock_domain(clk, rst);
    proof {
        vstd::arithmetic::power2::lemma2_to64();
    }
    g.register(st_q, st_d, dom, 0);
    g.register(t1_q, t1_d, dom, 0);
    g.register(t2_q, t2_d, dom, 0);
    g.register(r0_q, r0_d, dom, 0);
    g.register(r1_q, r1_d, dom, 0);
    g.register(r2_q, r2_d, dom, 0);
    g.register(r3_q, r3_d, dom, 0);
    proof {
        lemma_mseq_shapes(g);
    }
    g.rule(st_d, mk_st_expr());
    g.rule(t1_d, mk_load_expr(3, 7, 3, 8, 5, 7, 5, 8, t1_q));
    g.rule(t2_d, mk_load_expr(4, 9, 4, 10, 6, 9, 6, 10, t2_q));
    g.rule(r0_d, mk_sum_expr(2, r0_q));
    g.rule(r1_d, mk_sum_expr(3, r1_q));
    g.rule(r2_d, mk_sum_expr(4, r2_q));
    g.rule(r3_d, mk_sum_expr(5, r3_q));
    g.rule(done, mk_done_expr());
    g.rule(r0, mk_out_expr(r0_q));
    g.rule(r1, mk_out_expr(r1_q));
    g.rule(r2, mk_out_expr(r2_q));
    g.rule(r3, mk_out_expr(r3_q));
    proof {
        reveal_with_fuel(crate::expr::reads_sig, 20);
        assert forall|q1: int, q2: int|
            0 <= q1 < g.rules@.len() && 0 <= q2 < g.rules@.len() implies !crate::expr::reads_sig(
            #[trigger] g.rules@[q1].expr,
            #[trigger] g.rules@[q2].target as int,
        ) by {
            let t = g.rules@[q2].target as int;
            assert(t == 17 || t == 19 || t == 21 || t == 22 || t == 23 || t == 24 || t == 25 || t
                == 15 || t == 11 || t == 12 || t == 13 || t == 14);
            let e1 = g.rules@[q1].expr;
            assert(e1 == mseq_st_expr() || e1 == mseq_load_expr(3, 7, 3, 8, 5, 7, 5, 8, 18) || e1
                == mseq_load_expr(4, 9, 4, 10, 6, 9, 6, 10, 20) || e1 == mseq_sum_expr(2, 26) || e1
                == mseq_sum_expr(3, 27) || e1 == mseq_sum_expr(4, 28) || e1 == mseq_sum_expr(5, 29)
                || e1 == mseq_done_expr() || e1 == mseq_out_expr(26) || e1 == mseq_out_expr(27)
                || e1 == mseq_out_expr(28) || e1 == mseq_out_expr(29));
        }
    }
    (
        g,
        MatSeqPorts { clk, rst, start, a: 3, b: 7, result: 11, done },
    )
}

/// All eight rules are in shape: small constants, products of two declared
/// signals, sums of two, all far below the evaluator's cap.
proof fn lemma_mseq_shapes(g: ModuleGraph)
    requires
        g.wf(),
        g.signals@.len() == 30,
    ensures
        g.rule_shape_ok(17, mseq_st_expr()) == (g.signals@[17].dir != Dir::Input),
        g.rule_shape_ok(19, mseq_load_expr(3, 7, 3, 8, 5, 7, 5, 8, 18)) == (g.signals@[19].dir
            != Dir::Input),
        g.rule_shape_ok(21, mseq_load_expr(4, 9, 4, 10, 6, 9, 6, 10, 20)) == (g.signals@[21].dir
            != Dir::Input),
        g.rule_shape_ok(22, mseq_sum_expr(2, 26)) == (g.signals@[22].dir != Dir::Input),
        g.rule_shape_ok(23, mseq_sum_expr(3, 27)) == (g.signals@[23].dir != Dir::Input),
        g.rule_shape_ok(24, mseq_sum_expr(4, 28)) == (g.signals@[24].dir != Dir::Input),
        g.rule_shape_ok(25, mseq_sum_expr(5, 29)) == (g.signals@[25].dir != Dir::Input),
        g.rule_shape_ok(15, mseq_done_expr()) == (g.signals@[15].dir != Dir::Input),
        g.rule_shape_ok(11, mseq_out_expr(26)) == (g.signals@[11].dir != Dir::Input),
        g.rule_shape_ok(12, mseq_out_expr(27)) == (g.signals@[12].dir != Dir::Input),
        g.rule_shape_ok(13, mseq_out_expr(28)) == (g.signals@[13].dir != Dir::Input),
        g.rule_shape_ok(14, mseq_out_expr(29)) == (g.signals@[14].dir != Dir::Input),
{
    reveal_with_fuel(crate::expr::eval_bound, 20);
    reveal_with_fuel(crate::expr::expr_safe, 20);
    reveal_with_fuel(crate::expr::sigs_below, 20);
    g.lemma_caps_bounded();
    crate::expr::lemma_eval_cap();
    vstd::arithmetic::power2::lemma_pow2_strictly_increases(62, 125);
    vstd::arithmetic::power2::lemma_pow2_strictly_increases(125, 126);
    vstd::arithmetic::power2::lemma_pow2_strictly_increases(63, 126);
    vstd::arithmetic::power2::lemma_pow2_adds(62, 62);
    vstd::arithmetic::power2::lemma_pow2_adds(62, 1);
    vstd::arithmetic::power2::lemma_pow2_adds(124, 1);
    vstd::arithmetic::power2::lemma2_to64();
    let p62 = vstd::arithmetic::power2::pow2(62);
    assert forall|x: nat, y: nat| x <= p62 && y <= p62 implies #[trigger] (x * y)
        <= vstd::arithmetic::power2::pow2(124) by {
        assert(x * y <= p62 * p62) by (nonlinear_arith)
            requires
                x <= p62,
                y <= p62,
        ;
        vstd::arithmetic::power2::lemma_pow2_adds(62, 62);
    }
}

/// Over a run on 4-bit signed entries, every architectural value stays
/// small: the control state within its six values, the temporaries within
/// one product, the results within one sum.
pub proof fn lemma_mseq_small(a: Seq<int>, b: Seq<int>, c: int)
    requires
        forall|k: int| 0 <= k < 4 ==> -8 <= #[trigger] a[k] < 8,
        forall|k: int| 0 <= k < 4 ==> -8 <= #[trigger] b[k] < 8,
    ensures
        0 <= mseq_run(a, b, c).st <= 5,
        -64 <= mseq_run(a, b, c).t1 <= 64,
        -64 <= mseq_run(a, b, c).t2 <= 64,
        -128 <= mseq_run(a, b, c).r0 <= 128,
        -128 <= mseq_run(a, b, c).r1 <= 128,
        -128 <= mseq_run(a, b, c).r2 <= 128,
        -128 <= mseq_run(a, b, c).r3 <= 128,
    decreases (if c <= 0 {
        0int
    } else {
        c
    }),
{
    if c > 0 {
        lemma_mseq_small(a, b, c - 1);
        assert forall|x: int, y: int| -8 <= x < 8 && -8 <= y < 8 implies -64 <= #[trigger] (x * y)
            <= 64 by {
            assert(-64 <= x * y <= 64) by (nonlinear_arith)
                requires
                    -8 <= x < 8,
                    -8 <= y < 8,
            ;
        }
    }
}

/// The next-control-state expression computes the transition table.
proof fn lemma_st_eval(v: Seq<int>)
    requires
        v.len() == 30,
        0 <= v[16] <= 5,
    ensures
        eval(mseq_st_expr(), v) == (if v[16] == 0 {
            if v[2] != 0 {
                1int
            } else {
                0int
            }
        } else if v[16] == 5 {
            0int
        } else {
            v[16] + 1
        }),
{
    reveal_with_fuel(eval, 10);
}

/// The load expression computes the state-selected product with hold.
proof fn lemma_load_eval(x1: usize, y1: usize, x2: usize, y2: usize, x3: usize, y3: usize, x4: usize, y4: usize, hold: usize, v: Seq<int>)
    requires
        v.len() == 30,
        x1 < 30 && y1 < 30 && x2 < 30 && y2 < 30 && x3 < 30 && y3 < 30 && x4 < 30 && y4 < 30
            && hold < 30,
    ensures
        eval(mseq_load_expr(x1, y1, x2, y2, x3, y3, x4, y4, hold), v) == (if v[16] == 1 {
            v[x1 as int] * v[y1 as int]
        } else if v[16] == 2 {
            v[x2 as int] * v[y2 as int]
        } else if v[16] == 3 {
            v[x3 as int] * v[y3 as int]
        } else if v[16] == 4 {
            v[x4 as int] * v[y4 as int]
        } else {
            v[hold as int]
        }),
{
    reveal_with_fuel(eval, 16);
}

/// The sum expression loads the temporaries' sum in its state and holds
/// otherwise.
proof fn lemma_sum_eval(sv: i64, hold: usize, v: Seq<int>)
    requires
        v.len() == 30,
        hold < 30,
    ensures
        eval(mseq_sum_expr(sv, hold), v) == (if v[16] == sv {
            v[18] + v[20]
        } else {
            v[hold as int]
        }),
{
    reveal_with_fuel(eval, 8);
}

/// Drives the machine through one full run: `start` asserted on the first of
/// six cycles, the matrix entries held throughout.  Returns the four
/// committed product entries and the completion signal observed after each
/// cycle.
///
/// For every combination of in-range 4-bit signed entries, the results
/// equal the standard matrix-product formula in arbitrary precision, and
/// the completion signal is asserted exactly once per run.
#[verifier::rlimit(100)]
pub fn matmul_seq_run(a: &Vec<i64>, b: &Vec<i64>) -> (r: (i64, i64, i64, i64, Vec<bool>))
    requires
        a@.len() == 4,
        b@.len() == 4,
        forall|k: int| 0 <= k < 4 ==> in_range((#[trigger] a@[k]) as int, 4, Signedness::Signed),
        forall|k: int| 0 <= k < 4 ==> in_range((#[trigger] b@[k]) as int, 4, Signedness::Signed),
    ensures
        r.0 as int == a@[0] * b@[0] + a@[1] * b@[2],
        r.1 as int == a@[0] * b@[1] + a@[1] * b@[3],
        r.2 as int == a@[2] * b@[0] + a@[3] * b@[2],
        r.3 as int == a@[2] * b@[1] + a@[3] * b@[3],
        r.4@.len() == 6,
        forall|c: int| 0 <= c < 6 ==> (#[trigger] r.4@[c]) == (c == 4),
{
    let (g, ports) = build_matmul_seq();
    let ghost g0 = g;
    let ghost ia = int_seq(a@);
    let ghost ib = int_seq(b@);
    let mut sim = CycleSim::new(g);
    let mut dones: Vec<bool> = Vec::new();
    let ghost mut st = mseq_zero();
    proof {
        assert(!g0.rule_drives(0) && !g0.rule_drives(1) && !g0.rule_drives(2) && !g0.rule_drives(3)
            && !g0.rule_drives(4) && !g0.rule_drives(5) && !g0.rule_drives(6) && !g0.rule_drives(7)
            && !g0.rule_drives(8) && !g0.rule_drives(9) && !g0.rule_drives(10) && !g0.rule_drives(
            16,
        ) && !g0.rule_drives(18) && !g0.rule_drives(20) && !g0.rule_drives(26) && !g0.rule_drives(
            27,
        ) && !g0.rule_drives(28) && !g0.rule_drives(29)) by {
            assert forall|q: int| 0 <= q < g0.rules@.len() implies {
                let t = (#[trigger] g0.rules@[q]).target;
                t == 17 || t == 19 || t == 21 || t == 22 || t == 23 || t == 24 || t == 25 || t == 15
                    || t == 11 || t == 12 || t == 13 || t == 14
            } by {}
        }
        assert(!g0.reg_drives(0) && !g0.reg_drives(1) && !g0.reg_drives(2) && !g0.reg_drives(3)
            && !g0.reg_drives(4) && !g0.reg_drives(5) && !g0.reg_drives(6) && !g0.reg_drives(7)
            && !g0.reg_drives(8) && !g0.reg_drives(9) && !g0.reg_drives(10) && !g0.reg_drives(11)
            && !g0.reg_drives(12) && !g0.reg_drives(13) && !g0.reg_drives(14) && !g0.reg_drives(15))
            by {
            assert forall|q: int| 0 <= q < g0.regs@.len() implies {
                let t = (#[trigger] g0.regs@[q]).out;
                t == 16 || t == 18 || t == 20 || t == 26 || t == 27 || t == 28 || t == 29
            } by {}
        }
        assert(in_range(a@[0] as int, 4, Signedness::Signed) && in_range(
            a@[1] as int,
            4,
            Signedness::Signed,
        ) && in_range(a@[2] as int, 4, Signedness::Signed) && in_range(
            a@[3] as int,
            4,
            Signedness::Signed,
        ) && in_range(b@[0] as int, 4, Signedness::Signed) && in_range(
            b@[1] as int,
            4,
            Signedness::Signed,
        ) && in_range(b@[2] as int, 4, Signedness::Signed) && in_range(
            b@[3] as int,
            4,
            Signedness::Signed,
        ));
        vstd::arithmetic::power2::lemma2_to64();
        assert(forall|k: int| 0 <= k < 4 ==> -8 <= #[trigger] ia[k] < 8);
        assert(forall|k: int| 0 <= k < 4 ==> -8 <= #[trigger] ib[k] < 8);
    }
    let a0 = a[0];
    let a1 = a[1];
    let a2 = a[2];
    let a3 = a[3];
    let b0 = b[0];
    let b1 = b[1];
    let b2 = b[2];
    let b3 = b[3];
    let mut c: usize = 0;
    while c < 6
        invariant
            sim.inv(),
            sim.graph == g0,
            c <= 6,
            dones@.len() == c,
            forall|j: int| 0 <= j < c ==> (#[trigger] dones@[j]) == (mseq_run(ia, ib, j + 1).st == 5),
            sim.time == 2 * c,
            sim.prev@ =~= seq![false],
            st == mseq_run(ia, ib, c as int),
            int_seq(sim.vals@).len() == 30,
            int_seq(sim.vals@)[0] == 0,
            int_seq(sim.vals@)[1] == 0,
            int_seq(sim.vals@)[16] == st.st,
            int_seq(sim.vals@)[18] == st.t1,
            int_seq(sim.vals@)[20] == st.t2,
            int_seq(sim.vals@)[26] == st.r0,
            int_seq(sim.vals@)[27] == st.r1,
            int_seq(sim.vals@)[28] == st.r2,
            int_seq(sim.vals@)[29] == st.r3,
            int_seq(sim.vals@)[11] == st.r0,
            int_seq(sim.vals@)[12] == st.r1,
            int_seq(sim.vals@)[13] == st.r2,
            int_seq(sim.vals@)[14] == st.r3,
        decreases 6 - c,
    {
        let sv: i64 = if c == 0 {
            1
        } else {
            0
        };
        let stim_hi: Vec<(usize, i64)> = vec![
            (0usize, 1i64),
            (2usize, sv),
            (3usize, a0),
            (4usize, a1),
            (5usize, a2),
            (6usize, a3),
            (7usize, b0),
            (8usize, b1),
            (9usize, b2),
            (10usize, b3),
        ];
        let stim_lo: Vec<(usize, i64)> = vec![(0usize, 0i64)];
        let ghost v_cur = int_seq(sim.vals@);
        let ghost v_hi = apply_stim(g0, v_cur, stim_hi@, 10);
        let ghost stpre = st;
        proof {
            vstd::arithmetic::power2::lemma2_to64();
            lemma_mseq_small(ia, ib, c as int);
            reveal_with_fuel(apply_stim, 12);
            assert(stim_hi@[0] == (0usize, 1i64) && stim_hi@[1] == (2usize, sv) && stim_hi@[2] == (
            3usize,
            a0,
            ) && stim_hi@[3] == (4usize, a1) && stim_hi@[4] == (5usize, a2) && stim_hi@[5] == (
            6usize,
            a3,
            ) && stim_hi@[6] == (7usize, b0) && stim_hi@[7] == (8usize, b1) && stim_hi@[8] == (
            9usize,
            b2,
            ) && stim_hi@[9] == (10usize, b3));
            assert(v_hi.len() == 30 && v_hi[0] == 1 && v_hi[1] == 0 && v_hi[2] == sv && v_hi[3]
                == ia[0] && v_hi[4] == ia[1] && v_hi[5] == ia[2] && v_hi[6] == ia[3] && v_hi[7]
                == ib[0] && v_hi[8] == ib[1] && v_hi[9] == ib[2] && v_hi[10] == ib[3] && v_hi[16]
                == stpre.st && v_hi[18] == stpre.t1 && v_hi[20] == stpre.t2 && v_hi[26] == stpre.r0
                && v_hi[27] == stpre.r1 && v_hi[28] == stpre.r2 && v_hi[29] == stpre.r3);
            crate::sched::lemma_single_layer_fixpoint(g0, v_hi);
            lemma_single_layer_step(g0, v_hi, sim.prev@);
            let s_fix = crate::sched::comb_fixpoint(g0, v_hi)->Some_0;
            let stx = step_spec(g0, v_hi, sim.prev@)->Some_0;
            lemma_st_eval(v_hi);
            lemma_load_eval(3, 7, 3, 8, 5, 7, 5, 8, 18, v_hi);
            lemma_load_eval(4, 9, 4, 10, 6, 9, 6, 10, 20, v_hi);
            lemma_sum_eval(2, 26, v_hi);
            lemma_sum_eval(3, 27, v_hi);
            lemma_sum_eval(4, 28, v_hi);
            lemma_sum_eval(5, 29, v_hi);
            let nst = mseq_step(stpre, sv != 0, ia, ib);
            assert forall|x: int, y: int| -8 <= x < 8 && -8 <= y < 8 implies -64 <= #[trigger] (x
                * y) <= 64 by {
                assert(-64 <= x * y <= 64) by (nonlinear_arith)
                    requires
                        -8 <= x < 8,
                        -8 <= y < 8,
                ;
            }
            crate::value::lemma_trunc_id(nst.st, 3, Signedness::Unsigned);
            crate::value::lemma_trunc_id(nst.t1, 32, Signedness::Signed);
            crate::value::lemma_trunc_id(nst.t2, 32, Signedness::Signed);
            crate::value::lemma_trunc_id(nst.r0, 32, Signedness::Signed);
            crate::value::lemma_trunc_id(nst.r1, 32, Signedness::Signed);
            crate::value::lemma_trunc_id(nst.r2, 32, Signedness::Signed);
            crate::value::lemma_trunc_id(nst.r3, 32, Signedness::Signed);
            assert(s_fix[17] == nst.st) by {
                assert(g0.rules@[0].target == 17);
            }
            assert(s_fix[19] == nst.t1) by {
                assert(g0.rules@[1].target == 19);
            }
            assert(s_fix[21] == nst.t2) by {
                assert(g0.rules@[2].target == 21);
            }
            assert(s_fix[22] == nst.r0) by {
                assert(g0.rules@[3].target == 22);
            }
            assert(s_fix[23] == nst.r1) by {
                assert(g0.rules@[4].target == 23);
            }
            assert(s_fix[24] == nst.r2) by {
                assert(g0.rules@[5].target == 24);
            }
            assert(s_fix[25] == nst.r3) by {
                assert(g0.rules@[6].target == 25);
            }
            assert(s_fix[0] == 1 && s_fix[1] == 0);
            assert(crate::sched::edge_rises(g0, sim.prev@, s_fix, 0));
            assert(stx.0[16] == nst.st && stx.0[18] == nst.t1 && stx.0[20] == nst.t2 && stx.0[26]
                == nst.r0 && stx.0[27] == nst.r1 && stx.0[28] == nst.r2 && stx.0[29] == nst.r3) by {
                assert(g0.regs@[0].out == 16 && g0.regs@[1].out == 18 && g0.regs@[2].out == 20
                    && g0.regs@[3].out == 26 && g0.regs@[4].out == 27 && g0.regs@[5].out == 28
                    && g0.regs@[6].out == 29);
            }
            assert(stx.0[0] == 1 && stx.0[1] == 0);
            assert(stx.1 =~= seq![true]);
            assert(stim_ok(g0, stim_hi@)) by {
                assert(stim_entry_ok(g0, stim_hi@[0]));
                assert(stim_entry_ok(g0, stim_hi@[1]));
                assert(stim_entry_ok(g0, stim_hi@[2]));
                assert(stim_entry_ok(g0, stim_hi@[3]));
                assert(stim_entry_ok(g0, stim_hi@[4]));
                assert(stim_entry_ok(g0, stim_hi@[5]));
                assert(stim_entry_ok(g0, stim_hi@[6]));
                assert(stim_entry_ok(g0, stim_hi@[7]));
                assert(stim_entry_ok(g0, stim_hi@[8]));
                assert(stim_entry_ok(g0, stim_hi@[9]));
                assert forall|k: int| 0 <= k < stim_hi@.len() implies stim_entry_ok(
                    g0,
                    #[trigger] stim_hi@[k],
                ) by {
                    assert(k == 0 || k == 1 || k == 2 || k == 3 || k == 4 || k == 5 || k == 6 || k
                        == 7 || k == 8 || k == 9);
                }
            }
            reveal_with_fuel(run_spec, 3);
            assert(run_spec(g0, v_hi, sim.prev@, sim.time, 1) matches RunSpec::Done { v, .. } && v
                == stx.0);
        }
        match sim.wait(1, &stim_hi) {
            Ok(()) => {},
            Err(_) => {
                return unreached();
            },
        }
        proof {
            st = mseq_step(stpre, c == 0, ia, ib);
            assert(st == mseq_run(ia, ib, c + 1));
            assert(int_seq(sim.vals@)[26] == st.r0 && int_seq(sim.vals@)[27] == st.r1 && int_seq(
                sim.vals@,
            )[28] == st.r2 && int_seq(sim.vals@)[29] == st.r3);
        }
        let ghost v1v = int_seq(sim.vals@);
        let ghost v_lo = apply_stim(g0, v1v, stim_lo@, 1);
        proof {
            vstd::arithmetic::power2::lemma2_to64();
            lemma_mseq_small(ia, ib, c + 1);
            reveal_with_fuel(apply_stim, 2);
            assert(v_lo.len() == 30 && v_lo[0] == 0 && v_lo[1] == 0 && v_lo[16] == st.st
                && v_lo[18] == st.t1 && v_lo[20] == st.t2 && v_lo[26] == st.r0 && v_lo[27] == st.r1
                && v_lo[28] == st.r2 && v_lo[29] == st.r3);
            crate::sched::lemma_single_layer_fixpoint(g0, v_lo);
            lemma_single_layer_step(g0, v_lo, sim.prev@);
            let s_fix = crate::sched::comb_fixpoint(g0, v_lo)->Some_0;
            let stx = step_spec(g0, v_lo, sim.prev@)->Some_0;
            reveal_with_fuel(eval, 4);
            crate::value::lemma_trunc_id(
                if st.st == 5 {
                    1int
                } else {
                    0int
                },
                1,
                Signedness::Unsigned,
            );
            assert(s_fix[15] == (if st.st == 5 {
                1int
            } else {
                0int
            })) by {
                assert(g0.rules@[7].target == 15);
                assert(eval(mseq_done_expr(), v_lo) == (if v_lo[16] == 5 {
                    1int
                } else {
                    0int
                })) by {
                    reveal_with_fuel(eval, 6);
                    assert(v_lo[1] == 0);
                }
            }
            crate::value::lemma_trunc_id(st.r0, 32, Signedness::Signed);
            crate::value::lemma_trunc_id(st.r1, 32, Signedness::Signed);
            crate::value::lemma_trunc_id(st.r2, 32, Signedness::Signed);
            crate::value::lemma_trunc_id(st.r3, 32, Signedness::Signed);
            assert(s_fix[11] == st.r0) by {
                assert(g0.rules@[8].target == 11);
                assert(eval(mseq_out_expr(26), v_lo) == v_lo[26]) by {
                    reveal_with_fuel(eval, 4);
                }
            }
            assert(s_fix[12] == st.r1) by {
                assert(g0.rules@[9].target == 12);
                assert(eval(mseq_out_expr(27), v_lo) == v_lo[27]) by {
                    reveal_with_fuel(eval, 4);
                }
            }
            assert(s_fix[13] == st.r2) by {
                assert(g0.rules@[10].target == 13);
                assert(eval(mseq_out_expr(28), v_lo) == v_lo[28]) by {
                    reveal_with_fuel(eval, 4);
                }
            }
            assert(s_fix[14] == st.r3) by {
                assert(g0.rules@[11].target == 14);
                assert(eval(mseq_out_expr(29), v_lo) == v_lo[29]) by {
                    reveal_with_fuel(eval, 4);
                }
            }
            assert(!crate::sched::edge_rises(g0, sim.prev@, s_fix, 0)) by {
                assert(sim.prev@[0] == true);
            }
            assert(stx.0[16] == st.st && stx.0[18] == st.t1 && stx.0[20] == st.t2 && stx.0[26]
                == st.r0 && stx.0[27] == st.r1 && stx.0[28] == st.r2 && stx.0[29] == st.r3) by {
                assert(g0.regs@[0].out == 16 && g0.regs@[1].out == 18 && g0.regs@[2].out == 20
                    && g0.regs@[3].out == 26 && g0.regs@[4].out == 27 && g0.regs@[5].out == 28
                    && g0.regs@[6].out == 29);
                assert(s_fix[16] == v_lo[16] && s_fix[18] == v_lo[18] && s_fix[20] == v_lo[20]
                    && s_fix[26] == v_lo[26] && s_fix[27] == v_lo[27] && s_fix[28] == v_lo[28]
                    && s_fix[29] == v_lo[29]);
            }
            assert(stx.0[11] == st.r0 && stx.0[12] == st.r1 && stx.0[13] == st.r2 && stx.0[14]
                == st.r3);
            assert(stx.0[15] == (if st.st == 5 {
                1int
            } else {
                0int
            }));
            assert(stx.0[0] == 0 && stx.0[1] == 0);
            assert(stx.1 =~= seq![false]) by {
                assert(s_fix[0] == 0);
            }
            assert(stim_ok(g0, stim_lo@)) by {
                assert(stim_entry_ok(g0, stim_lo@[0]));
                assert forall|k: int| 0 <= k < stim_lo@.len() implies stim_entry_ok(
                    g0,
                    #[trigger] stim_lo@[k],
                ) by {
                    assert(k == 0);
                }
            }
            reveal_with_fuel(run_spec, 3);
            assert(run_spec(g0, v_lo, sim.prev@, sim.time, 1) matches RunSpec::Done { v, .. } && v
                == stx.0);
        }
        match sim.wait(1, &stim_lo) {
            Ok(()) => {},
            Err(_) => {
                return unreached();
            },
        }
        let dv = sim.read(ports.done);
        dones.push(dv == 1);
        c = c + 1;
    }
    let r0 = sim.read(11);
    let r1 = sim.read(12);
    let r2 = sim.read(13);
    let r3 = sim.read(14);
    proof {
        lemma_mseq_schedule(ia, ib);
        assert forall|j: int| 0 <= j < 6 implies (#[trigger] dones@[j]) == (j == 4) by {
            assert(dones@[j] == (mseq_run(ia, ib, j + 1).st == 5));
        }
    }
    (r0, r1, r2, r3, dones)
}

} // verus!
