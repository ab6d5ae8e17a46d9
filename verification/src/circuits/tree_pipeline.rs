//! A three-stage pipelined adder tree over eight signed 8-bit inputs: four
//! 9-bit pair sums, two 10-bit sums of those, and one 11-bit total.  Every
//! stage is a bit wider than its operands, so the committed total is the
//! mathematically exact sum of the vector presented three cycles earlier.

use crate::expr::{eval, int_seq, Expr};
use crate::graph::{Dir, ModuleGraph};
use crate::sched::{lemma_single_layer_step, single_layer, step_spec};
use crate::sim::{apply_stim, run_spec, stim_entry_ok, stim_ok, CycleSim, RunSpec};
use crate::value::{in_range, Signedness};
use vstd::pervasive::unreached;
use vstd::prelude::*;

verus! {

/// The tree's architectural state: four stage-1 sums, two stage-2 sums, and
/// the final total.
pub struct TreeState {
    pub s1: int,
    pub s2: int,
    pub s3: int,
    pub s4: int,
    pub t1: int,
    pub t2: int,
    pub fin: int,
}

/// The all-zero state a fresh run starts from.
pub open spec fn tree_zero() -> TreeState {
    TreeState { s1: 0, s2: 0, s3: 0, s4: 0, t1: 0, t2: 0, fin: 0 }
}

/// One clock cycle of the tree on an input vector.
pub open spec fn tree_step(s: TreeState, x: Seq<int>) -> TreeState {
    TreeState {
        s1: x[0] + x[1],
        s2: x[2] + x[3],
        s3: x[4] + x[5],
        s4: x[6] + x[7],
        t1: s.s1 + s.s2,
        t2: s.s3 + s.s4,
        fin: s.t1 + s.t2,
    }
}

/// The state after the first `i` cycles of a run.
pub open spec fn tree_run_state(xs: Seq<Seq<int>>, i: int) -> TreeState
    decreases i,
{
    if i <= 0 {
        tree_zero()
    } else {
        tree_step(tree_run_state(xs, i - 1), xs[i - 1])
    }
}

/// The exact sum of an eight-element vector.
pub open spec fn sum8(x: Seq<int>) -> int {
    x[0] + x[1] + x[2] + x[3] + x[4] + x[5] + x[6] + x[7]
}

/// Three cycles after a vector is presented, the committed total is its
/// mathematically exact sum: no overflow loss through the widening stages.
pub proof fn lemma_tree_latency(xs: Seq<Seq<int>>, i: int)
    requires
        0 <= i,
    ensures
        i >= 1 ==> {
            &&& tree_run_state(xs, i).s1 == xs[i - 1][0] + xs[i - 1][1]
            &&& tree_run_state(xs, i).s2 == xs[i - 1][2] + xs[i - 1][3]
            &&& tree_run_state(xs, i).s3 == xs[i - 1][4] + xs[i - 1][5]
            &&& tree_run_state(xs, i).s4 == xs[i - 1][6] + xs[i - 1][7]
        },
        i >= 2 ==> {
            &&& tree_run_state(xs, i).t1 == xs[i - 2][0] + xs[i - 2][1] + xs[i - 2][2] + xs[i - 2][3]
            &&& tree_run_state(xs, i).t2 == xs[i - 2][4] + xs[i - 2][5] + xs[i - 2][6] + xs[i - 2][7]
        },
        i >= 3 ==> tree_run_state(xs, i).fin == sum8(xs[i - 3]),
    decreases i,
{
    if i > 0 {
        lemma_tree_latency(xs, i - 1);
    }
}

/// A pair-sum expression.
pub open spec fn add2_expr(a: usize, b: usize) -> Expr {
    Expr::Add(Box::new(Expr::Sig(a)), Box::new(Expr::Sig(b)))
}

/// Builds `add2_expr`.
fn mk_add2_expr(a: usize, b: usize) -> (e: Expr)
    ensures
        e == add2_expr(a, b),
{
    Expr::Add(Box::new(Expr::Sig(a)), Box::new(Expr::Sig(b)))
}

/// `add2_expr` evaluates to the sum of its two signals.
proof fn lemma_add2_eval(a: usize, b: usize, v: Seq<int>)
    requires
        a < v.len(),
        b < v.len(),
    ensures
        eval(add2_expr(a, b), v) == v[a as int] + v[b as int],
{
    reveal_with_fuel(eval, 3);
}

/// A pair-sum rule is in shape for any declared sources.
proof fn lemma_add2_shape(g: ModuleGraph, t: int, a: usize, b: usize)
    requires
        g.wf(),
        a < g.signals@.len(),
        b < g.signals@.len(),
        0 <= t < g.signals@.len(),
    ensures
        g.rule_shape_ok(t, add2_expr(a, b)) == (g.signals@[t].dir != Dir::Input),
{
    reveal_with_fuel(crate::expr::eval_bound, 3);
    reveal_with_fuel(crate::expr::expr_safe, 3);
    reveal_with_fuel(crate::expr::sigs_below, 3);
    g.lemma_caps_bounded();
    crate::expr::lemma_eval_cap();
    vstd::arithmetic::power2::lemma2_to64();
    vstd::arithmetic::power2::lemma_pow2_strictly_increases(63, 126);
    vstd::arithmetic::power2::lemma_pow2_adds(62, 1);
}

/// The active-low reset line is turned into the domain's active-high reset
/// by one comparison rule.
proof fn lemma_rstn_shape(g: ModuleGraph, t: int, rstn: usize)
    requires
        g.wf(),
        rstn < g.signals@.len(),
        0 <= t < g.signals@.len(),
    ensures
        g.rule_shape_ok(t, Expr::Eq(Box::new(Expr::Sig(rstn)), Box::new(Expr::Const(0)))) == (
        g.signals@[t].dir != Dir::Input),
{
    reveal_with_fuel(crate::expr::eval_bound, 3);
    reveal_with_fuel(crate::expr::expr_safe, 3);
    reveal_with_fuel(crate::expr::sigs_below, 3);
    g.lemma_caps_bounded();
    crate::expr::lemma_eval_cap();
    vstd::arithmetic::power2::lemma_pow2_strictly_increases(62, 126);
}

/// The total output: zero while the active-low reset is held, else the
/// final-stage register.
pub open spec fn tree_out_expr() -> Expr {
    Expr::Mux(
        Box::new(Expr::Eq(Box::new(Expr::Sig(1)), Box::new(Expr::Const(0)))),
        Box::new(Expr::Const(0)),
        Box::new(Expr::Sig(24)),
    )
}

/// Builds `tree_out_expr`.
fn mk_tree_out_expr() -> (e: Expr)
    ensures
        e == tree_out_expr(),
{
    Expr::Mux(
        Box::new(Expr::Eq(Box::new(Expr::Sig(1)), Box::new(Expr::Const(0)))),
        Box::new(Expr::Const(0)),
        Box::new(Expr::Sig(24)),
    )
}

/// `tree_out_expr` evaluates to the final register unless reset is held low.
proof fn lemma_tree_out_eval(v: Seq<int>)
    requires
        v.len() == 26,
    ensures
        eval(tree_out_expr(), v) == (if v[1] == 0 {
            0int
        } else {
            v[24]
        }),
{
    reveal_with_fuel(eval, 6);
}

/// The gated total-output rule is in shape.
proof fn lemma_tree_out_shape(g: ModuleGraph, t: int)
    requires
        g.wf(),
        g.signals@.len() == 26,
        0 <= t < g.signals@.len(),
    ensures
        g.rule_shape_ok(t, tree_out_expr()) == (g.signals@[t].dir != Dir::Input),
{
    reveal_with_fuel(crate::expr::eval_bound, 6);
    reveal_with_fuel(crate::expr::expr_safe, 6);
    reveal_with_fuel(crate::expr::sigs_below, 6);
    g.lemma_caps_bounded();
    crate::expr::lemma_eval_cap();
    vstd::arithmetic::power2::lemma_pow2_strictly_increases(62, 126);
}

/// While the active-low reset line is held, the total output settles to
/// zero, whatever the stage registers hold.
pub proof fn lemma_tree_reset_output(v: Seq<int>)
    requires
        v.len() == 26,
        v[1] == 0,
    ensures
        eval(tree_out_expr(), v) == 0,
{
    reveal_with_fuel(eval, 6);
}

/// The tree's port indices.
pub struct TreePorts {
    pub clk: usize,
    pub rstn: usize,
    pub inputs: usize,
    pub result: usize,
}

/// Builds the three-stage adder tree.  The module's reset line is active
/// low, as `rstn` says: an internal 1-bit rule inverts it for the clock
/// domain.
#[verifier::rlimit(50)]
pub fn build_tree_pipeline() -> (r: (ModuleGraph, TreePorts))
    ensures
        r.0.wf(),
        single_layer(r.0),
        r.1.clk == 0 && r.1.rstn == 1 && r.1.inputs == 3 && r.1.result == 11,
        r.0.signals@.len() == 26,
        r.0.signals@[0].width == 1 && r.0.signals@[0].sign == Signedness::Unsigned
            && r.0.signals@[0].dir == Dir::Input,
        r.0.signals@[1].width == 1 && r.0.signals@[1].sign == Signedness::Unsigned
            && r.0.signals@[1].dir == Dir::Input,
        r.0.signals@[2].width == 1 && r.0.signals@[2].sign == Signedness::Unsigned
            && r.0.signals@[2].dir == Dir::Internal,
        r.0.signals@[3].width == 8 && r.0.signals@[3].sign == Signedness::Signed
            && r.0.signals@[3].dir == Dir::Input,
        r.0.signals@[4].width == 8 && r.0.signals@[4].sign == Signedness::Signed
            && r.0.signals@[4].dir == Dir::Input,
        r.0.signals@[5].width == 8 && r.0.signals@[5].sign == Signedness::Signed
            && r.0.signals@[5].dir == Dir::Input,
        r.0.signals@[6].width == 8 && r.0.signals@[6].sign == Signedness::Signed
            && r.0.signals@[6].dir == Dir::Input,
        r.0.signals@[7].width == 8 && r.0.signals@[7].sign == Signedness::Signed
            && r.0.signals@[7].dir == Dir::Input,
        r.0.signals@[8].width == 8 && r.0.signals@[8].sign == Signedness::Signed
            && r.0.signals@[8].dir == Dir::Input,
        r.0.signals@[9].width == 8 && r.0.signals@[9].sign == Signedness::Signed
            && r.0.signals@[9].dir == Dir::Input,
        r.0.signals@[10].width == 8 && r.0.signals@[10].sign == Signedness::Signed
            && r.0.signals@[10].dir == Dir::Input,
        r.0.signals@[11].width == 11 && r.0.signals@[11].sign == Signedness::Signed
            && r.0.signals@[11].dir == Dir::Output,
        r.0.signals@[12].width == 9 && r.0.signals@[12].sign == Signedness::Signed
            && r.0.signals@[12].dir == Dir::Internal,
        r.0.signals@[13].width == 9 && r.0.signals@[13].sign == Signedness::Signed
            && r.0.signals@[13].dir == Dir::Internal,
        r.0.signals@[14].width == 9 && r.0.signals@[14].sign == Signedness::Signed
            && r.0.signals@[14].dir == Dir::Internal,
        r.0.signals@[15].width == 9 && r.0.signals@[15].sign == Signedness::Signed
            && r.0.signals@[15].dir == Dir::Internal,
        r.0.signals@[16].width == 9 && r.0.signals@[16].sign == Signedness::Signed
            && r.0.signals@[16].dir == Dir::Internal,
        r.0.signals@[17].width == 9 && r.0.signals@[17].sign == Signedness::Signed
            && r.0.signals@[17].dir == Dir::Internal,
        r.0.signals@[18].width == 9 && r.0.signals@[18].sign == Signedness::Signed
            && r.0.signals@[18].dir == Dir::Internal,
        r.0.signals@[19].width == 9 && r.0.signals@[19].sign == Signedness::Signed
            && r.0.signals@[19].dir == Dir::Internal,
        r.0.signals@[20].width == 10 && r.0.signals@[20].sign == Signedness::Signed
            && r.0.signals@[20].dir == Dir::Internal,
        r.0.signals@[21].width == 10 && r.0.signals@[21].sign == Signedness::Signed
            && r.0.signals@[21].dir == Dir::Internal,
        r.0.signals@[22].width == 10 && r.0.signals@[22].sign == Signedness::Signed
            && r.0.signals@[22].dir == Dir::Internal,
        r.0.signals@[23].width == 10 && r.0.signals@[23].sign == Signedness::Signed
            && r.0.signals@[23].dir == Dir::Internal,
        r.0.signals@[24].width == 11 && r.0.signals@[24].sign == Signedness::Signed
            && r.0.signals@[24].dir == Dir::Internal,
        r.0.signals@[25].width == 11 && r.0.signals@[25].sign == Signedness::Signed
            && r.0.signals@[25].dir == Dir::Internal,
        r.0.domains@.len() == 1 && r.0.domains@[0].clock == 0 && r.0.domains@[0].reset == 2,
        r.0.regs@.len() == 7,
        r.0.regs@[0].out == 12 && r.0.regs@[0].driver == 13 && r.0.regs@[0].domain == 0
            && r.0.regs@[0].reset_val == 0,
        r.0.regs@[1].out == 14 && r.0.regs@[1].driver == 15 && r.0.regs@[1].domain == 0
            && r.0.regs@[1].reset_val == 0,
        r.0.regs@[2].out == 16 && r.0.regs@[2].driver == 17 && r.0.regs@[2].domain == 0
            && r.0.regs@[2].reset_val == 0,
        r.0.regs@[3].out == 18 && r.0.regs@[3].driver == 19 && r.0.regs@[3].domain == 0
            && r.0.regs@[3].reset_val == 0,
        r.0.regs@[4].out == 20 && r.0.regs@[4].driver == 21 && r.0.regs@[4].domain == 0
            && r.0.regs@[4].reset_val == 0,
        r.0.regs@[5].out == 22 && r.0.regs@[5].driver == 23 && r.0.regs@[5].domain == 0
            && r.0.regs@[5].reset_val == 0,
        r.0.regs@[6].out == 24 && r.0.regs@[6].driver == 25 && r.0.regs@[6].domain == 0
            && r.0.regs@[6].reset_val == 0,
        r.0.rules@.len() == 9,
        r.0.rules@[0].target == 2 && r.0.rules@[0].expr == Expr::Eq(
            Box::new(Expr::Sig(1)),
            Box::new(Expr::Const(0)),
        ),
        r.0.rules@[1].target == 13 && r.0.rules@[1].expr == add2_expr(3, 4),
        r.0.rules@[2].target == 15 && r.0.rules@[2].expr == add2_expr(5, 6),
        r.0.rules@[3].target == 17 && r.0.rules@[3].expr == add2_expr(7, 8),
        r.0.rules@[4].target == 19 && r.0.rules@[4].expr == add2_expr(9, 10),
        r.0.rules@[5].target == 21 && r.0.rules@[5].expr == add2_expr(12, 14),
        r.0.rules@[6].target == 23 && r.0.rules@[6].expr == add2_expr(16, 18),
        r.0.rules@[7].target == 25 && r.0.rules@[7].expr == add2_expr(20, 22),
        r.0.rules@[8].target == 11 && r.0.rules@[8].expr == tree_out_expr(),
{
    let mut g = ModuleGraph::new(String::from_str("arbol_sumadores_segmentacion"));
    let clk = g.signal(String::from_str("clk"), 1, Signedness::Unsigned, Dir::Input);
    let rstn = g.signal(String::from_str("rstn"), 1, Signedness::Unsigned, Dir::Input);
    let rst_int = g.signal(String::from_str("rst_internal"), 1, Signedness::Unsigned, Dir::Internal);
    let in0 = g.signal(String::from_str("inputs$0"), 8, Signedness::Signed, Dir::Input);
    let in1 = g.signal(String::from_str("inputs$1"), 8, Signedness::Signed, Dir::Input);
    let in2 = g.signal(String::from_str("inputs$2"), 8, Signedness::Signed, Dir::Input);
    let in3 = g.signal(String::from_str("inputs$3"), 8, Signedness::Signed, Dir::Input);
    let in4 = g.signal(String::from_str("inputs$4"), 8, Signedness::Signed, Dir::Input);
    let in5 = g.signal(String::from_str("inputs$5"), 8, Signedness::Signed, Dir::Input);
    let in6 = g.signal(String::from_str("inputs$6"), 8, Signedness::Signed, Dir::Input);
    let in7 = g.signal(String::from_str("inputs$7"), 8, Signedness::Signed, Dir::Input);
    let result = g.signal(String::from_str("result"), 11, Signedness::Signed, Dir::Output);
    let s1_q = g.signal(String::from_str("sum1"), 9, Signedness::Signed, Dir::Internal);
    let s1_d = g.signal(String::from_str("sum1_next"), 9, Signedness::Signed, Dir::Internal);
    let s2_q = g.signal(String::from_str("sum2"), 9, Signedness::Signed, Dir::Internal);
    let s2_d = g.signal(String::from_str("sum2_next"), 9, Signedness::Signed, Dir::Internal);
    let s3_q = g.signal(String::from_str("sum3"), 9, Signedness::Signed, Dir::Internal);
    let s3_d = g.signal(String::from_str("sum3_next"), 9, Signedness::Signed, Dir::Internal);
    let s4_q = g.signal(String::from_str("sum4"), 9, Signedness::Signed, Dir::Internal);
    let s4_d = g.signal(String::from_str("sum4_next"), 9, Signedness::Signed, Dir::Internal);
    let t1_q = g.signal(String::from_str("sum1_1"), 10, Signedness::Signed, Dir::Internal);
    let t1_d = g.signal(String::from_str("sum1_1_next"), 10, Signedness::Signed, Dir::Internal);
    let t2_q = g.signal(String::from_str("sum1_2"), 10, Signedness::Signed, Dir::Internal);
    let t2_d = g.signal(String::from_str("sum1_2_next"), 10, Signedness::Signed, Dir::Internal);
    let fin_q = g.signal(String::from_str("final_sum"), 11, Signedness::Signed, Dir::Internal);
    let fin_d = g.signal(String::from_str("final_sum_next"), 11, Signedness::Signed, Dir::Internal);
    let dom = g.clock_domain(clk, rst_int);
    proof {
        vstd::arithmetic::power2::lemma2_to64();
    }
    g.register(s1_q, s1_d, dom, 0);
    g.register(s2_q, s2_d, dom, 0);
    g.register(s3_q, s3_d, dom, 0);
    g.register(s4_q, s4_d, dom, 0);
    g.register(t1_q, t1_d, dom, 0);
    g.register(t2_q, t2_d, dom, 0);
    g.register(fin_q, fin_d, dom, 0);
    proof {
        lemma_rstn_shape(g, 2, 1);
        lemma_add2_shape(g, 13, 3, 4);
        lemma_add2_shape(g, 15, 5, 6);
        lemma_add2_shape(g, 17, 7, 8);
        lemma_add2_shape(g, 19, 9, 10);
        lemma_add2_shape(g, 21, 12, 14);
        lemma_add2_shape(g, 23, 16, 18);
        lemma_add2_shape(g, 25, 20, 22);
        lemma_tree_out_shape(g, 11);
    }
    g.rule(rst_int, Expr::Eq(Box::new(Expr::Sig(rstn)), Box::new(Expr::Const(0))));
    g.rule(s1_d, mk_add2_expr(in0, in1));
    g.rule(s2_d, mk_add2_expr(in2, in3));
    g.rule(s3_d, mk_add2_expr(in4, in5));
    g.rule(s4_d, mk_add2_expr(in6, in7));
    g.rule(t1_d, mk_add2_expr(s1_q, s2_q));
    g.rule(t2_d, mk_add2_expr(s3_q, s4_q));
    g.rule(fin_d, mk_add2_expr(t1_q, t2_q));
    g.rule(result, mk_tree_out_expr());
    proof {
        reveal_with_fuel(crate::expr::reads_sig, 5);
        assert forall|q1: int, q2: int|
            0 <= q1 < g.rules@.len() && 0 <= q2 < g.rules@.len() implies !crate::expr::reads_sig(
            #[trigger] g.rules@[q1].expr,
            #[trigger] g.rules@[q2].target as int,
        ) by {
            let t = g.rules@[q2].target as int;
            assert(t == 2 || t == 13 || t == 15 || t == 17 || t == 19 || t == 21 || t == 23 || t
                == 25 || t == 11);
        }
    }
    (g, TreePorts { clk, rstn, inputs: 3, result })
}

/// Drives the tree for one cycle per input vector (reset released, clock
/// high then low) and reads the committed total after each cycle.  The
/// total observed after cycle `i` is the exact sum of the vector presented
/// three cycles earlier.
#[verifier::rlimit(100)]
pub fn tree_pipeline_run(xs: &Vec<Vec<i64>>) -> (outs: Vec<i64>)
    requires
        2 * xs@.len() <= u64::MAX,
        forall|j: int| 0 <= j < xs@.len() ==> (#[trigger] xs@[j])@.len() == 8,
        forall|j: int, k: int|
            0 <= j < xs@.len() && 0 <= k < 8 ==> in_range(
                (#[trigger] xs@[j]@[k]) as int,
                8,
                Signedness::Signed,
            ),
    ensures
        outs@.len() == xs@.len(),
        forall|i: int|
            0 <= i < outs@.len() ==> (#[trigger] outs@[i]) as int == tree_run_state(
                crate::circuits::max_pipeline::int_rows(xs@),
                i + 1,
            ).fin,
        forall|i: int|
            2 <= i < outs@.len() ==> (#[trigger] outs@[i]) as int == sum8(
                crate::circuits::max_pipeline::int_rows(xs@)[i - 2],
            ),
{
    let (g, ports) = build_tree_pipeline();
    let ghost g0 = g;
    let ghost mx = crate::circuits::max_pipeline::int_rows(xs@);
    let mut sim = CycleSim::new(g);
    let mut outs: Vec<i64> = Vec::new();
    let ghost mut st = tree_zero();
    proof {
        assert(!g0.rule_drives(0) && !g0.rule_drives(1) && !g0.rule_drives(3) && !g0.rule_drives(4)
            && !g0.rule_drives(5) && !g0.rule_drives(6) && !g0.rule_drives(7) && !g0.rule_drives(8)
            && !g0.rule_drives(9) && !g0.rule_drives(10) && !g0.rule_drives(12) && !g0.rule_drives(
            14,
        ) && !g0.rule_drives(16) && !g0.rule_drives(18) && !g0.rule_drives(20) && !g0.rule_drives(
            22,
        ) && !g0.rule_drives(24)) by {
            assert forall|q: int| 0 <= q < g0.rules@.len() implies {
                let t = (#[trigger] g0.rules@[q]).target;
                t == 2 || t == 13 || t == 15 || t == 17 || t == 19 || t == 21 || t == 23 || t == 25
                    || t == 11
            } by {}
        }
        assert(!g0.reg_drives(0) && !g0.reg_drives(1) && !g0.reg_drives(2) && !g0.reg_drives(3)
            && !g0.reg_drives(4) && !g0.reg_drives(5) && !g0.reg_drives(6) && !g0.reg_drives(7)
            && !g0.reg_drives(8) && !g0.reg_drives(9) && !g0.reg_drives(10) && !g0.reg_drives(11)
            && !g0.reg_drives(13) && !g0.reg_drives(15) && !g0.reg_drives(17) && !g0.reg_drives(19)
            && !g0.reg_drives(21) && !g0.reg_drives(23) && !g0.reg_drives(25)) by {
            assert forall|q: int| 0 <= q < g0.regs@.len() implies {
                let t = (#[trigger] g0.regs@[q]).out;
                t == 12 || t == 14 || t == 16 || t == 18 || t == 20 || t == 22 || t == 24
            } by {}
        }
    }
    let mut i: usize = 0;
    while i < xs.len()
        invariant
            sim.inv(),
            sim.graph == g0,
            i <= xs@.len(),
            outs@.len() == i,
            forall|j: int|
                0 <= j < i ==> (#[trigger] outs@[j]) as int == tree_run_state(mx, j + 1).fin,
            sim.time == 2 * i,
            sim.prev@ =~= seq![false],
            st == tree_run_state(mx, i as int),
            int_seq(sim.vals@).len() == 26,
            int_seq(sim.vals@)[0] == 0,
            int_seq(sim.vals@)[12] == st.s1,
            int_seq(sim.vals@)[14] == st.s2,
            int_seq(sim.vals@)[16] == st.s3,
            int_seq(sim.vals@)[18] == st.s4,
            int_seq(sim.vals@)[20] == st.t1,
            int_seq(sim.vals@)[22] == st.t2,
            int_seq(sim.vals@)[24] == st.fin,
        decreases xs@.len() - i,
    {
        let row = &xs[i];
        let x0 = row[0];
        let x1 = row[1];
        let x2 = row[2];
        let x3 = row[3];
        let x4 = row[4];
        let x5 = row[5];
        let x6 = row[6];
        let x7 = row[7];
        let stim_hi: Vec<(usize, i64)> = vec![
            (0usize, 1i64),
            (1usize, 1i64),
            (3usize, x0),
            (4usize, x1),
            (5usize, x2),
            (6usize, x3),
            (7usize, x4),
            (8usize, x5),
            (9usize, x6),
            (10usize, x7),
        ];
        let stim_lo: Vec<(usize, i64)> = vec![(0usize, 0i64)];
        let ghost v_cur = int_seq(sim.vals@);
        let ghost v_hi = apply_stim(g0, v_cur, stim_hi@, 10);
        let ghost stpre = st;
        proof {
            vstd::arithmetic::power2::lemma2_to64();
            assert forall|j: int, k: int|
                0 <= j < mx.len() && 0 <= k < 8 implies -128 <= #[trigger] mx[j][k] < 128 by {
                assert(in_range(xs@[j]@[k] as int, 8, Signedness::Signed));
                assert(mx[j] == int_seq(xs@[j]@));
            }
            lemma_tree_small(mx, i as int, xs@.len() as int);
            lemma_tree_small(mx, i + 1, xs@.len() as int);
            reveal_with_fuel(apply_stim, 12);
            assert(stim_hi@[0] == (0usize, 1i64) && stim_hi@[1] == (1usize, 1i64) && stim_hi@[2]
                == (3usize, x0) && stim_hi@[3] == (4usize, x1) && stim_hi@[4] == (5usize, x2)
                && stim_hi@[5] == (6usize, x3) && stim_hi@[6] == (7usize, x4) && stim_hi@[7] == (
            8usize,
            x5,
            ) && stim_hi@[8] == (9usize, x6) && stim_hi@[9] == (10usize, x7));
            assert(x0 as int == xs@[i as int]@[0] && x1 as int == xs@[i as int]@[1] && x2 as int
                == xs@[i as int]@[2] && x3 as int == xs@[i as int]@[3] && x4 as int
                == xs@[i as int]@[4] && x5 as int == xs@[i as int]@[5] && x6 as int
                == xs@[i as int]@[6] && x7 as int == xs@[i as int]@[7]);
            assert(mx[i as int] == int_seq(row@));
            assert(v_hi.len() == 26 && v_hi[0] == 1 && v_hi[1] == 1 && v_hi[3] == mx[i as int][0]
                && v_hi[4] == mx[i as int][1] && v_hi[5] == mx[i as int][2] && v_hi[6]
                == mx[i as int][3] && v_hi[7] == mx[i as int][4] && v_hi[8] == mx[i as int][5]
                && v_hi[9] == mx[i as int][6] && v_hi[10] == mx[i as int][7] && v_hi[12]
                == stpre.s1 && v_hi[14] == stpre.s2 && v_hi[16] == stpre.s3 && v_hi[18] == stpre.s4
                && v_hi[20] == stpre.t1 && v_hi[22] == stpre.t2 && v_hi[24] == stpre.fin);
            crate::sched::lemma_single_layer_fixpoint(g0, v_hi);
            lemma_single_layer_step(g0, v_hi, sim.prev@);
            let s_fix = crate::sched::comb_fixpoint(g0, v_hi)->Some_0;
            let stx = step_spec(g0, v_hi, sim.prev@)->Some_0;
            lemma_add2_eval(3, 4, v_hi);
            lemma_add2_eval(5, 6, v_hi);
            lemma_add2_eval(7, 8, v_hi);
            lemma_add2_eval(9, 10, v_hi);
            lemma_add2_eval(12, 14, v_hi);
            lemma_add2_eval(16, 18, v_hi);
            lemma_add2_eval(20, 22, v_hi);
            reveal_with_fuel(eval, 4);
            let nst = tree_step(stpre, mx[i as int]);
            crate::value::lemma_trunc_id(nst.s1, 9, Signedness::Signed);
            crate::value::lemma_trunc_id(nst.s2, 9, Signedness::Signed);
            crate::value::lemma_trunc_id(nst.s3, 9, Signedness::Signed);
            crate::value::lemma_trunc_id(nst.s4, 9, Signedness::Signed);
            crate::value::lemma_trunc_id(nst.t1, 10, Signedness::Signed);
            crate::value::lemma_trunc_id(nst.t2, 10, Signedness::Signed);
            crate::value::lemma_trunc_id(nst.fin, 11, Signedness::Signed);
            crate::value::lemma_trunc_id(0, 1, Signedness::Unsigned);
            assert(s_fix[13] == nst.s1) by {
                assert(g0.rules@[1].target == 13);
            }
            assert(s_fix[15] == nst.s2) by {
                assert(g0.rules@[2].target == 15);
            }
            assert(s_fix[17] == nst.s3) by {
                assert(g0.rules@[3].target == 17);
            }
            assert(s_fix[19] == nst.s4) by {
                assert(g0.rules@[4].target == 19);
            }
            assert(s_fix[21] == nst.t1) by {
                assert(g0.rules@[5].target == 21);
            }
            assert(s_fix[23] == nst.t2) by {
                assert(g0.rules@[6].target == 23);
            }
            assert(s_fix[25] == nst.fin) by {
                assert(g0.rules@[7].target == 25);
            }
            assert(s_fix[2] == 0) by {
                assert(g0.rules@[0].target == 2);
            }
            assert(s_fix[0] == 1);
            assert(crate::sched::edge_rises(g0, sim.prev@, s_fix, 0));
            assert(stx.0[12] == nst.s1 && stx.0[14] == nst.s2 && stx.0[16] == nst.s3 && stx.0[18]
                == nst.s4 && stx.0[20] == nst.t1 && stx.0[22] == nst.t2 && stx.0[24] == nst.fin)
                by {
                assert(g0.regs@[0].out == 12 && g0.regs@[1].out == 14 && g0.regs@[2].out == 16
                    && g0.regs@[3].out == 18 && g0.regs@[4].out == 20 && g0.regs@[5].out == 22
                    && g0.regs@[6].out == 24);
            }
            assert(stx.0[0] == 1 && stx.0[1] == 1);
            assert(stx.1 =~= seq![true]);
            assert(stim_ok(g0, stim_hi@)) by {
                assert(stim_entry_ok(g0, stim_hi@[0]));
                assert(stim_entry_ok(g0, stim_hi@[1]));
                assert(stim_entry_ok(g0, stim_hi@[2]));
                assert(stim_entry_ok(g0, stim_hi@[3]));
                assert(stim_entry_ok(g0, stim_hi@[4]));
                assert(stim_entry_ok(g0, stim_hi@[5]));
                assert(stim_entry_ok(g0, stim_hi@[6]));
                assert(stim_entry_ok(g0, stim_hi@[7]));
                assert(stim_entry_ok(g0, stim_hi@[8]));
                assert(stim_entry_ok(g0, stim_hi@[9]));
                assert forall|k: int| 0 <= k < stim_hi@.len() implies stim_entry_ok(
                    g0,
                    #[trigger] stim_hi@[k],
                ) by {
                    assert(k == 0 || k == 1 || k == 2 || k == 3 || k == 4 || k == 5 || k == 6 || k
                        == 7 || k == 8 || k == 9);
                }
            }
            reveal_with_fuel(run_spec, 3);
            assert(run_spec(g0, v_hi, sim.prev@, sim.time, 1) matches RunSpec::Done { v, .. } && v
                == stx.0);
        }
        match sim.wait(1, &stim_hi) {
            Ok(()) => {},
            Err(_) => {
                return unreached();
            },
        }
        proof {
            st = tree_step(stpre, mx[i as int]);
        }
        let ghost v1v = int_seq(sim.vals@);
        let ghost v_lo = apply_stim(g0, v1v, stim_lo@, 1);
        proof {
            vstd::arithmetic::power2::lemma2_to64();
            assert forall|j: int, k: int|
                0 <= j < mx.len() && 0 <= k < 8 implies -128 <= #[trigger] mx[j][k] < 128 by {
                assert(in_range(xs@[j]@[k] as int, 8, Signedness::Signed));
                assert(mx[j] == int_seq(xs@[j]@));
            }
            lemma_tree_small(mx, i + 1, xs@.len() as int);
            reveal_with_fuel(apply_stim, 2);
            assert(v_lo.len() == 26 && v_lo[0] == 0 && v_lo[1] == 1 && v_lo[24] == st.fin
                && v_lo[12] == st.s1 && v_lo[14] == st.s2 && v_lo[16] == st.s3 && v_lo[18] == st.s4
                && v_lo[20] == st.t1 && v_lo[22] == st.t2);
            crate::sched::lemma_single_layer_fixpoint(g0, v_lo);
            lemma_single_layer_step(g0, v_lo, sim.prev@);
            let s_fix = crate::sched::comb_fixpoint(g0, v_lo)->Some_0;
            let stx = step_spec(g0, v_lo, sim.prev@)->Some_0;
            reveal_with_fuel(eval, 4);
            crate::value::lemma_trunc_id(v_lo[24], 11, Signedness::Signed);
            lemma_tree_out_eval(v_lo);
            assert(s_fix[11] == st.fin) by {
                assert(g0.rules@[8].target == 11);
            }
            assert(!crate::sched::edge_rises(g0, sim.prev@, s_fix, 0)) by {
                assert(sim.prev@[0] == true);
            }
            assert(stx.0[12] == st.s1 && stx.0[14] == st.s2 && stx.0[16] == st.s3 && stx.0[18]
                == st.s4 && stx.0[20] == st.t1 && stx.0[22] == st.t2 && stx.0[24] == st.fin) by {
                assert(g0.regs@[0].out == 12 && g0.regs@[1].out == 14 && g0.regs@[2].out == 16
                    && g0.regs@[3].out == 18 && g0.regs@[4].out == 20 && g0.regs@[5].out == 22
                    && g0.regs@[6].out == 24);
                assert(s_fix[12] == v_lo[12] && s_fix[14] == v_lo[14] && s_fix[16] == v_lo[16]
                    && s_fix[18] == v_lo[18] && s_fix[20] == v_lo[20] && s_fix[22] == v_lo[22]
                    && s_fix[24] == v_lo[24]);
            }
            assert(stx.0[11] == st.fin);
            assert(stx.0[0] == 0 && stx.0[1] == 1);
            assert(stx.1 =~= seq![false]) by {
                assert(s_fix[0] == 0);
            }
            assert(stim_ok(g0, stim_lo@)) by {
                assert(stim_entry_ok(g0, stim_lo@[0]));
                assert forall|k: int| 0 <= k < stim_lo@.len() implies stim_entry_ok(
                    g0,
                    #[trigger] stim_lo@[k],
                ) by {
                    assert(k == 0);
                }
            }
            reveal_with_fuel(run_spec, 3);
            assert(run_spec(g0, v_lo, sim.prev@, sim.time, 1) matches RunSpec::Done { v, .. } && v
                == stx.0);
        }
        match sim.wait(1, &stim_lo) {
            Ok(()) => {},
            Err(_) => {
                return unreached();
            },
        }
        let rv = sim.read(ports.result);
        outs.push(rv);
        i = i + 1;
    }
    proof {
        assert forall|k: int| 2 <= k < outs@.len() implies (#[trigger] outs@[k]) as int == sum8(
            mx[k - 2],
        ) by {
            lemma_tree_latency(mx, k + 1);
        }
    }
    outs
}

/// Over in-range 8-bit inputs, every stage value stays within its widened
/// width.
proof fn lemma_tree_small(xs: Seq<Seq<int>>, i: int, n: int)
    requires
        0 <= i <= n <= xs.len(),
        forall|j: int, k: int| 0 <= j < xs.len() && 0 <= k < 8 ==> -128 <= #[trigger] xs[j][k] < 128,
    ensures
        in_range(tree_run_state(xs, i).s1, 9, Signedness::Signed),
        in_range(tree_run_state(xs, i).s2, 9, Signedness::Signed),
        in_range(tree_run_state(xs, i).s3, 9, Signedness::Signed),
        in_range(tree_run_state(xs, i).s4, 9, Signedness::Signed),
        in_range(tree_run_state(xs, i).t1, 10, Signedness::Signed),
        in_range(tree_run_state(xs, i).t2, 10, Signedness::Signed),
        in_range(tree_run_state(xs, i).fin, 11, Signedness::Signed),
    decreases i,
{
    vstd::arithmetic::power2::lemma2_to64();
    if i > 0 {
        lemma_tree_small(xs, i - 1, n);
    }
}

} // verus!