//! A three-stage pipelined maximum over eight signed 8-bit inputs, with a
//! 1-bit validity tag riding alongside the data.  A vector presented with
//! `valid_in` high leaves the pipeline exactly three clock edges later with
//! `valid_out` high and the committed maximum, whatever valid or invalid
//! traffic surrounds it.

use crate::expr::{eval, int_seq, Expr};
use crate::graph::{Dir, ModuleGraph};
use crate::sched::{lemma_single_layer_step, single_layer, step_spec};
use crate::sim::{apply_stim, run_spec, stim_entry_ok, stim_ok, CycleSim, RunSpec};
use crate::value::{in_range, trunc_val, Signedness};
use vstd::pervasive::unreached;
use vstd::prelude::*;

verus! {

/// The larger of two values (ties keep the second, as the comparison tree
/// does).
pub open spec fn max2(a: int, b: int) -> int {
    if b < a {
        a
    } else {
        b
    }
}

/// The three-level comparison tree over an eight-element vector.
pub open spec fn max8(x: Seq<int>) -> int {
    max2(max2(max2(x[0], x[1]), max2(x[2], x[3])), max2(max2(x[4], x[5]), max2(x[6], x[7])))
}

/// The tree computes the true maximum: it dominates every element and is one
/// of them.
pub proof fn lemma_max8_is_max(x: Seq<int>)
    requires
        x.len() == 8,
    ensures
        forall|j: int| 0 <= j < 8 ==> x[j] <= max8(x),
        exists|j: int| 0 <= j < 8 && x[j] == max8(x),
{
    assert(x[0] <= max8(x));
}

/// The pipeline's architectural state: the four stage-1 maxima, the two
/// stage-2 maxima, the final maximum, and the validity tag at each stage.
pub struct MaxState {
    pub m1: int,
    pub m2: int,
    pub m3: int,
    pub m4: int,
    pub v1: bool,
    pub m11: int,
    pub m12: int,
    pub v2: bool,
    pub fin: int,
    pub v3: bool,
}

/// One clock cycle of the pipeline on an input vector and its validity bit.
/// An invalid vector loads zeros into stage 1.
pub open spec fn max_step(s: MaxState, x: Seq<int>, w: bool) -> MaxState {
    MaxState {
        m1: if w {
            max2(x[0], x[1])
        } else {
            0
        },
        m2: if w {
            max2(x[2], x[3])
        } else {
            0
        },
        m3: if w {
            max2(x[4], x[5])
        } else {
            0
        },
        m4: if w {
            max2(x[6], x[7])
        } else {
            0
        },
        v1: w,
        m11: max2(s.m1, s.m2),
        m12: max2(s.m3, s.m4),
        v2: s.v1,
        fin: max2(s.m11, s.m12),
        v3: s.v2,
    }
}

/// The all-zero state a reset (or a fresh run) starts from.
pub open spec fn max_zero() -> MaxState {
    MaxState {
        m1: 0,
        m2: 0,
        m3: 0,
        m4: 0,
        v1: false,
        m11: 0,
        m12: 0,
        v2: false,
        fin: 0,
        v3: false,
    }
}

/// The state after the first `i` cycles of a run.
pub open spec fn max_run_state(xs: Seq<Seq<int>>, ws: Seq<bool>, i: int) -> MaxState
    decreases i,
{
    if i <= 0 {
        max_zero()
    } else {
        max_step(max_run_state(xs, ws, i - 1), xs[i - 1], ws[i - 1])
    }
}

/// A `k = 3` stage pipeline with a validity tag: after `i` cycles the tag at
/// each stage is the input tag from exactly 1, 2 and 3 cycles back, and the
/// final maximum is the tree of the vector from 3 cycles back when that
/// vector was valid.
pub proof fn lemma_max_latency(xs: Seq<Seq<int>>, ws: Seq<bool>, i: int)
    requires
        0 <= i,
    ensures
        max_run_state(xs, ws, i).v1 == (i >= 1 && ws[i - 1]),
        max_run_state(xs, ws, i).v2 == (i >= 2 && ws[i - 2]),
        max_run_state(xs, ws, i).v3 == (i >= 3 && ws[i - 3]),
        i >= 3 && ws[i - 3] ==> max_run_state(xs, ws, i).fin == max8(xs[i - 3]),
    decreases i,
{
    if i > 0 {
        lemma_max_latency(xs, ws, i - 1);
        if i >= 3 && ws[i - 3] {
            lemma_max_stage_shapes(xs, ws, i - 1);
        }
    }
}

/// Stage contents after `i` cycles, written out against the input history.
proof fn lemma_max_stage_shapes(xs: Seq<Seq<int>>, ws: Seq<bool>, i: int)
    requires
        0 <= i,
    ensures
        i >= 1 && ws[i - 1] ==> {
            &&& max_run_state(xs, ws, i).m1 == max2(xs[i - 1][0], xs[i - 1][1])
            &&& max_run_state(xs, ws, i).m2 == max2(xs[i - 1][2], xs[i - 1][3])
            &&& max_run_state(xs, ws, i).m3 == max2(xs[i - 1][4], xs[i - 1][5])
            &&& max_run_state(xs, ws, i).m4 == max2(xs[i - 1][6], xs[i - 1][7])
        },
        i >= 2 && ws[i - 2] ==> {
            &&& max_run_state(xs, ws, i).m11 == max2(
                max2(xs[i - 2][0], xs[i - 2][1]),
                max2(xs[i - 2][2], xs[i - 2][3]),
            )
            &&& max_run_state(xs, ws, i).m12 == max2(
                max2(xs[i - 2][4], xs[i - 2][5]),
                max2(xs[i - 2][6], xs[i - 2][7]),
            )
        },
        i >= 3 && ws[i - 3] ==> max_run_state(xs, ws, i).fin == max8(xs[i - 3]),
    decreases i,
{
    if i > 0 {
        lemma_max_stage_shapes(xs, ws, i - 1);
    }
}

/// The validity tag travels alone: if `valid_in` is asserted exactly once,
/// at cycle `t`, then `valid_out` is asserted exactly once, three cycles
/// later, carrying the maximum of the vector presented at `t` — whatever
/// surrounds it.
pub proof fn lemma_max_valid_once(xs: Seq<Seq<int>>, ws: Seq<bool>, t: int)
    requires
        0 <= t < ws.len(),
        forall|j: int| 0 <= j < ws.len() ==> ws[j] == (j == t),
    ensures
        forall|i: int|
            0 <= i <= ws.len() ==> (#[trigger] max_run_state(xs, ws, i).v3 == (i == t + 3)),
        t + 3 <= ws.len() ==> max_run_state(xs, ws, t + 3).fin == max8(xs[t]),
{
    assert forall|i: int| 0 <= i <= ws.len() implies (#[trigger] max_run_state(xs, ws, i).v3 == (i
        == t + 3)) by {
        lemma_max_latency(xs, ws, i);
    }
    if t + 3 <= ws.len() {
        lemma_max_latency(xs, ws, t + 3);
    }
}

/// A validity tag travelling down a `k`-stage shift register: the stage-`k`
/// tag after `i` cycles.
pub open spec fn tag_after(ws: Seq<bool>, i: int, k: int) -> bool
    decreases i,
{
    if i <= 0 {
        false
    } else if k <= 1 {
        ws[i - 1]
    } else {
        tag_after(ws, i - 1, k - 1)
    }
}

/// For any number of stages `k`, a tag asserted at cycle `t` alone reaches
/// the last stage exactly once, `k` cycles later: the latency law for every
/// pipeline depth, of which the maximum pipeline instantiates `k = 3`.
pub proof fn lemma_tag_latency(ws: Seq<bool>, i: int, k: int)
    requires
        k >= 1,
    ensures
        tag_after(ws, i, k) == (i >= k && ws[i - k]),
    decreases i,
{
    if i > 0 && k > 1 {
        lemma_tag_latency(ws, i - 1, k - 1);
    }
}

/// The three stage tags of the maximum pipeline are the generic tag line at
/// depths one, two and three.
pub proof fn lemma_max_tags_are_tag_line(xs: Seq<Seq<int>>, ws: Seq<bool>, i: int)
    requires
        0 <= i,
    ensures
        max_run_state(xs, ws, i).v1 == tag_after(ws, i, 1),
        max_run_state(xs, ws, i).v2 == tag_after(ws, i, 2),
        max_run_state(xs, ws, i).v3 == tag_after(ws, i, 3),
{
    lemma_max_latency(xs, ws, i);
    lemma_tag_latency(ws, i, 1);
    lemma_tag_latency(ws, i, 2);
    lemma_tag_latency(ws, i, 3);
}

/// A two-way maximum as a comparison and a choice: `if b < a { a } else
/// { b }`.
pub open spec fn max_expr(a: usize, b: usize) -> Expr {
    Expr::Mux(
        Box::new(Expr::Lt(Box::new(Expr::Sig(b)), Box::new(Expr::Sig(a)))),
        Box::new(Expr::Sig(a)),
        Box::new(Expr::Sig(b)),
    )
}

/// A stage-1 maximum, gated by the validity input: an invalid vector loads
/// zero.
pub open spec fn gated_max_expr(a: usize, b: usize, gate: usize) -> Expr {
    Expr::Mux(Box::new(Expr::Sig(gate)), Box::new(max_expr(a, b)), Box::new(Expr::Const(0)))
}

/// Builds `max_expr(a, b)`.
fn mk_max_expr(a: usize, b: usize) -> (e: Expr)
    ensures
        e == max_expr(a, b),
{
    Expr::Mux(
        Box::new(Expr::Lt(Box::new(Expr::Sig(b)), Box::new(Expr::Sig(a)))),
        Box::new(Expr::Sig(a)),
        Box::new(Expr::Sig(b)),
    )
}

/// Builds `gated_max_expr(a, b, gate)`.
fn mk_gated_max_expr(a: usize, b: usize, gate: usize) -> (e: Expr)
    ensures
        e == gated_max_expr(a, b, gate),
{
    let m = mk_max_expr(a, b);
    Expr::Mux(Box::new(Expr::Sig(gate)), Box::new(m), Box::new(Expr::Const(0)))
}

/// `max_expr` evaluates to the two-way maximum.
proof fn lemma_max_expr_eval(a: usize, b: usize, v: Seq<int>)
    requires
        a < v.len(),
        b < v.len(),
    ensures
        eval(max_expr(a, b), v) == max2(v[a as int], v[b as int]),
{
    reveal_with_fuel(eval, 6);
}

/// `gated_max_expr` evaluates to the gated two-way maximum.
proof fn lemma_gated_max_expr_eval(a: usize, b: usize, gate: usize, v: Seq<int>)
    requires
        a < v.len(),
        b < v.len(),
        gate < v.len(),
    ensures
        eval(gated_max_expr(a, b, gate), v) == (if v[gate as int] != 0 {
            max2(v[a as int], v[b as int])
        } else {
            0
        }),
{
    reveal_with_fuel(eval, 8);
}

/// A plain copy rule is in shape for any declared source.
proof fn lemma_copy_shape(g: ModuleGraph, t: int, src: usize)
    requires
        g.wf(),
        src < g.signals@.len(),
        0 <= t < g.signals@.len(),
    ensures
        g.rule_shape_ok(t, Expr::Sig(src)) == (g.signals@[t].dir != Dir::Input),
{
    reveal_with_fuel(crate::expr::eval_bound, 3);
    reveal_with_fuel(crate::expr::expr_safe, 3);
    reveal_with_fuel(crate::expr::sigs_below, 3);
    g.lemma_caps_bounded();
    crate::expr::lemma_eval_cap();
    vstd::arithmetic::power2::lemma_pow2_strictly_increases(62, 126);
}

/// A two-way maximum rule is in shape for any declared sources.
proof fn lemma_max_shape(g: ModuleGraph, t: int, a: usize, b: usize)
    requires
        g.wf(),
        a < g.signals@.len(),
        b < g.signals@.len(),
        0 <= t < g.signals@.len(),
    ensures
        g.rule_shape_ok(t, max_expr(a, b)) == (g.signals@[t].dir != Dir::Input),
{
    reveal_with_fuel(crate::expr::eval_bound, 6);
    reveal_with_fuel(crate::expr::expr_safe, 6);
    reveal_with_fuel(crate::expr::sigs_below, 6);
    g.lemma_caps_bounded();
    crate::expr::lemma_eval_cap();
    vstd::arithmetic::power2::lemma_pow2_strictly_increases(62, 126);
}

/// A gated two-way maximum rule is in shape for any declared sources.
proof fn lemma_gated_max_shape(g: ModuleGraph, t: int, a: usize, b: usize, gate: usize)
    requires
        g.wf(),
        a < g.signals@.len(),
        b < g.signals@.len(),
        gate < g.signals@.len(),
        0 <= t < g.signals@.len(),
    ensures
        g.rule_shape_ok(t, gated_max_expr(a, b, gate)) == (g.signals@[t].dir != Dir::Input),
{
    reveal_with_fuel(crate::expr::eval_bound, 8);
    reveal_with_fuel(crate::expr::expr_safe, 8);
    reveal_with_fuel(crate::expr::sigs_below, 8);
    g.lemma_caps_bounded();
    crate::expr::lemma_eval_cap();
    vstd::arithmetic::power2::lemma_pow2_strictly_increases(62, 126);
}

/// An output rule gated by the reset line: zero while reset is held, else a
/// copy of its source.
pub open spec fn gated_copy_expr(src: usize) -> Expr {
    Expr::Mux(Box::new(Expr::Sig(1)), Box::new(Expr::Const(0)), Box::new(Expr::Sig(src)))
}

/// Builds `gated_copy_expr(src)`.
fn mk_gated_copy_expr(src: usize) -> (e: Expr)
    ensures
        e == gated_copy_expr(src),
{
    Expr::Mux(Box::new(Expr::Sig(1)), Box::new(Expr::Const(0)), Box::new(Expr::Sig(src)))
}

/// `gated_copy_expr` evaluates to the source unless reset is held.
proof fn lemma_gated_copy_eval(src: usize, v: Seq<int>)
    requires
        src < v.len(),
        1 < v.len(),
    ensures
        eval(gated_copy_expr(src), v) == (if v[1] != 0 {
            0int
        } else {
            v[src as int]
        }),
{
    reveal_with_fuel(eval, 4);
}

/// A reset-gated copy rule is in shape for any declared source.
proof fn lemma_gated_copy_shape(g: ModuleGraph, t: int, src: usize)
    requires
        g.wf(),
        src < g.signals@.len(),
        1 < g.signals@.len(),
        0 <= t < g.signals@.len(),
    ensures
        g.rule_shape_ok(t, gated_copy_expr(src)) == (g.signals@[t].dir != Dir::Input),
{
    reveal_with_fuel(crate::expr::eval_bound, 5);
    reveal_with_fuel(crate::expr::expr_safe, 5);
    reveal_with_fuel(crate::expr::sigs_below, 5);
    g.lemma_caps_bounded();
    crate::expr::lemma_eval_cap();
    vstd::arithmetic::power2::lemma_pow2_strictly_increases(62, 126);
}

/// While the reset line is held, the result and validity outputs settle to
/// zero, whatever the stage registers hold.
pub proof fn lemma_max_reset_outputs(v: Seq<int>)
    requires
        v.len() == 33,
        v[1] != 0,
    ensures
        eval(gated_copy_expr(29), v) == 0,
        eval(gated_copy_expr(31), v) == 0,
{
    reveal_with_fuel(eval, 4);
}

/// The pipeline's port and register indices.
pub struct MaxPorts {
    pub clk: usize,
    pub rst: usize,
    pub valid_in: usize,
    pub inputs: usize,
    pub result: usize,
    pub valid_out: usize,
}

/// The signal index of register stage slots, `q` then `d`, in declaration
/// order: the four stage-1 maxima, the stage-1 tag, the two stage-2 maxima,
/// the stage-2 tag, the final maximum, the stage-3 tag.
pub open spec fn max_reg_q(k: int) -> int {
    13 + 2 * k
}

/// Builds the three-stage maximum pipeline with its validity tag.
#[verifier::rlimit(50)]
pub fn build_max_pipeline() -> (r: (ModuleGraph, MaxPorts))
    ensures
        r.0.wf(),
        single_layer(r.0),
        r.1.clk == 0 && r.1.rst == 1 && r.1.valid_in == 2 && r.1.inputs == 3 && r.1.result == 11
            && r.1.valid_out == 12,
        r.0.signals@.len() == 33,
        r.0.signals@[0].width == 1 && r.0.signals@[0].sign == Signedness::Unsigned && r.0.signals@[0].dir == Dir::Input,
        r.0.signals@[1].width == 1 && r.0.signals@[1].sign == Signedness::Unsigned && r.0.signals@[1].dir == Dir::Input,
        r.0.signals@[2].width == 1 && r.0.signals@[2].sign == Signedness::Unsigned && r.0.signals@[2].dir == Dir::Input,
        r.0.signals@[3].width == 8 && r.0.signals@[3].sign == Signedness::Signed && r.0.signals@[3].dir == Dir::Input,
        r.0.signals@[4].width == 8 && r.0.signals@[4].sign == Signedness::Signed && r.0.signals@[4].dir == Dir::Input,
        r.0.signals@[5].width == 8 && r.0.signals@[5].sign == Signedness::Signed && r.0.signals@[5].dir == Dir::Input,
        r.0.signals@[6].width == 8 && r.0.signals@[6].sign == Signedness::Signed && r.0.signals@[6].dir == Dir::Input,
        r.0.signals@[7].width == 8 && r.0.signals@[7].sign == Signedness::Signed && r.0.signals@[7].dir == Dir::Input,
        r.0.signals@[8].width == 8 && r.0.signals@[8].sign == Signedness::Signed && r.0.signals@[8].dir == Dir::Input,
        r.0.signals@[9].width == 8 && r.0.signals@[9].sign == Signedness::Signed && r.0.signals@[9].dir == Dir::Input,
        r.0.signals@[10].width == 8 && r.0.signals@[10].sign == Signedness::Signed && r.0.signals@[10].dir == Dir::Input,
        r.0.signals@[11].width == 8 && r.0.signals@[11].sign == Signedness::Signed && r.0.signals@[11].dir == Dir::Output,
        r.0.signals@[12].width == 1 && r.0.signals@[12].sign == Signedness::Unsigned && r.0.signals@[12].dir == Dir::Output,
        r.0.signals@[13].width == 8 && r.0.signals@[13].sign == Signedness::Signed && r.0.signals@[13].dir == Dir::Internal,
        r.0.signals@[14].width == 8 && r.0.signals@[14].sign == Signedness::Signed && r.0.signals@[14].dir == Dir::Internal,
        r.0.signals@[15].width == 8 && r.0.signals@[15].sign == Signedness::Signed && r.0.signals@[15].dir == Dir::Internal,
        r.0.signals@[16].width == 8 && r.0.signals@[16].sign == Signedness::Signed && r.0.signals@[16].dir == Dir::Internal,
        r.0.signals@[17].width == 8 && r.0.signals@[17].sign == Signedness::Signed && r.0.signals@[17].dir == Dir::Internal,
        r.0.signals@[18].width == 8 && r.0.signals@[18].sign == Signedness::Signed && r.0.signals@[18].dir == Dir::Internal,
        r.0.signals@[19].width == 8 && r.0.signals@[19].sign == Signedness::Signed && r.0.signals@[19].dir == Dir::Internal,
        r.0.signals@[20].width == 8 && r.0.signals@[20].sign == Signedness::Signed && r.0.signals@[20].dir == Dir::Internal,
        r.0.signals@[23].width == 8 && r.0.signals@[23].sign == Signedness::Signed && r.0.signals@[23].dir == Dir::Internal,
        r.0.signals@[24].width == 8 && r.0.signals@[24].sign == Signedness::Signed && r.0.signals@[24].dir == Dir::Internal,
        r.0.signals@[25].width == 8 && r.0.signals@[25].sign == Signedness::Signed && r.0.signals@[25].dir == Dir::Internal,
        r.0.signals@[26].width == 8 && r.0.signals@[26].sign == Signedness::Signed && r.0.signals@[26].dir == Dir::Internal,
        r.0.signals@[29].width == 8 && r.0.signals@[29].sign == Signedness::Signed && r.0.signals@[29].dir == Dir::Internal,
        r.0.signals@[30].width == 8 && r.0.signals@[30].sign == Signedness::Signed && r.0.signals@[30].dir == Dir::Internal,
        r.0.signals@[21].width == 1 && r.0.signals@[21].sign == Signedness::Unsigned && r.0.signals@[21].dir == Dir::Internal,
        r.0.signals@[22].width == 1 && r.0.signals@[22].sign == Signedness::Unsigned && r.0.signals@[22].dir == Dir::Internal,
        r.0.signals@[27].width == 1 && r.0.signals@[27].sign == Signedness::Unsigned && r.0.signals@[27].dir == Dir::Internal,
        r.0.signals@[28].width == 1 && r.0.signals@[28].sign == Signedness::Unsigned && r.0.signals@[28].dir == Dir::Internal,
        r.0.signals@[31].width == 1 && r.0.signals@[31].sign == Signedness::Unsigned && r.0.signals@[31].dir == Dir::Internal,
        r.0.signals@[32].width == 1 && r.0.signals@[32].sign == Signedness::Unsigned && r.0.signals@[32].dir == Dir::Internal,
        r.0.domains@.len() == 1 && r.0.domains@[0].clock == 0 && r.0.domains@[0].reset == 1,
        r.0.regs@.len() == 10,
        r.0.regs@[0].out == 13 && r.0.regs@[0].driver == 14 && r.0.regs@[0].domain == 0 && r.0.regs@[0].reset_val == 0,
        r.0.regs@[1].out == 15 && r.0.regs@[1].driver == 16 && r.0.regs@[1].domain == 0 && r.0.regs@[1].reset_val == 0,
        r.0.regs@[2].out == 17 && r.0.regs@[2].driver == 18 && r.0.regs@[2].domain == 0 && r.0.regs@[2].reset_val == 0,
        r.0.regs@[3].out == 19 && r.0.regs@[3].driver == 20 && r.0.regs@[3].domain == 0 && r.0.regs@[3].reset_val == 0,
        r.0.regs@[4].out == 21 && r.0.regs@[4].driver == 22 && r.0.regs@[4].domain == 0 && r.0.regs@[4].reset_val == 0,
        r.0.regs@[5].out == 23 && r.0.regs@[5].driver == 24 && r.0.regs@[5].domain == 0 && r.0.regs@[5].reset_val == 0,
        r.0.regs@[6].out == 25 && r.0.regs@[6].driver == 26 && r.0.regs@[6].domain == 0 && r.0.regs@[6].reset_val == 0,
        r.0.regs@[7].out == 27 && r.0.regs@[7].driver == 28 && r.0.regs@[7].domain == 0 && r.0.regs@[7].reset_val == 0,
        r.0.regs@[8].out == 29 && r.0.regs@[8].driver == 30 && r.0.regs@[8].domain == 0 && r.0.regs@[8].reset_val == 0,
        r.0.regs@[9].out == 31 && r.0.regs@[9].driver == 32 && r.0.regs@[9].domain == 0 && r.0.regs@[9].reset_val == 0,
        r.0.rules@.len() == 12,
        r.0.rules@[0].target == 14 && r.0.rules@[0].expr == gated_max_expr(3, 4, 2),
        r.0.rules@[1].target == 16 && r.0.rules@[1].expr == gated_max_expr(5, 6, 2),
        r.0.rules@[2].target == 18 && r.0.rules@[2].expr == gated_max_expr(7, 8, 2),
        r.0.rules@[3].target == 20 && r.0.rules@[3].expr == gated_max_expr(9, 10, 2),
        r.0.rules@[4].target == 22 && r.0.rules@[4].expr == Expr::Sig(2),
        r.0.rules@[5].target == 24 && r.0.rules@[5].expr == max_expr(13, 15),
        r.0.rules@[6].target == 26 && r.0.rules@[6].expr == max_expr(17, 19),
        r.0.rules@[7].target == 28 && r.0.rules@[7].expr == Expr::Sig(21),
        r.0.rules@[8].target == 30 && r.0.rules@[8].expr == max_expr(23, 25),
        r.0.rules@[9].target == 32 && r.0.rules@[9].expr == Expr::Sig(27),
        r.0.rules@[10].target == 11 && r.0.rules@[10].expr == gated_copy_expr(29),
        r.0.rules@[11].target == 12 && r.0.rules@[11].expr == gated_copy_expr(31),
{
    let mut g = ModuleGraph::new(String::from_str("maximo_vector_segmentacion"));
    let clk = g.signal(String::from_str("clk"), 1, Signedness::Unsigned, Dir::Input);
    let rst = g.signal(String::from_str("rst"), 1, Signedness::Unsigned, Dir::Input);
    let valid_in = g.signal(String::from_str("valid_in"), 1, Signedness::Unsigned, Dir::Input);
    let in0 = g.signal(String::from_str("inputs$0"), 8, Signedness::Signed, Dir::Input);
    let in1 = g.signal(String::from_str("inputs$1"), 8, Signedness::Signed, Dir::Input);
    let in2 = g.signal(String::from_str("inputs$2"), 8, Signedness::Signed, Dir::Input);
    let in3 = g.signal(String::from_str("inputs$3"), 8, Signedness::Signed, Dir::Input);
    let in4 = g.signal(String::from_str("inputs$4"), 8, Signedness::Signed, Dir::Input);
    let in5 = g.signal(String::from_str("inputs$5"), 8, Signedness::Signed, Dir::Input);
    let in6 = g.signal(String::from_str("inputs$6"), 8, Signedness::Signed, Dir::Input);
    let in7 = g.signal(String::from_str("inputs$7"), 8, Signedness::Signed, Dir::Input);
    let result = g.signal(String::from_str("result"), 8, Signedness::Signed, Dir::Output);
    let valid_out = g.signal(String::from_str("valid_out"), 1, Signedness::Unsigned, Dir::Output);
    let m1_q = g.signal(String::from_str("max1"), 8, Signedness::Signed, Dir::Internal);
    let m1_d = g.signal(String::from_str("max1_next"), 8, Signedness::Signed, Dir::Internal);
    let m2_q = g.signal(String::from_str("max2"), 8, Signedness::Signed, Dir::Internal);
    let m2_d = g.signal(String::from_str("max2_next"), 8, Signedness::Signed, Dir::Internal);
    let m3_q = g.signal(String::from_str("max3"), 8, Signedness::Signed, Dir::Internal);
    let m3_d = g.signal(String::from_str("max3_next"), 8, Signedness::Signed, Dir::Internal);
    let m4_q = g.signal(String::from_str("max4"), 8, Signedness::Signed, Dir::Internal);
    let m4_d = g.signal(String::from_str("max4_next"), 8, Signedness::Signed, Dir::Internal);
    let v1_q = g.signal(String::from_str("valid_stage1"), 1, Signedness::Unsigned, Dir::Internal);
    let v1_d = g.signal(
        String::from_str("valid_stage1_next"),
        1,
        Signedness::Unsigned,
        Dir::Internal,
    );
    let m11_q = g.signal(String::from_str("max1_1"), 8, Signedness::Signed, Dir::Internal);
    let m11_d = g.signal(String::from_str("max1_1_next"), 8, Signedness::Signed, Dir::Internal);
    let m12_q = g.signal(String::from_str("max1_2"), 8, Signedness::Signed, Dir::Internal);
    let m12_d = g.signal(String::from_str("max1_2_next"), 8, Signedness::Signed, Dir::Internal);
    let v2_q = g.signal(String::from_str("valid_stage2"), 1, Signedness::Unsigned, Dir::Internal);
    let v2_d = g.signal(
        String::from_str("valid_stage2_next"),
        1,
        Signedness::Unsigned,
        Dir::Internal,
    );
    let fin_q = g.signal(String::from_str("final_max"), 8, Signedness::Signed, Dir::Internal);
    let fin_d = g.signal(String::from_str("final_max_next"), 8, Signedness::Signed, Dir::Internal);
    let v3_q = g.signal(String::from_str("valid_stage3"), 1, Signedness::Unsigned, Dir::Internal);
    let v3_d = g.signal(
        String::from_str("valid_stage3_next"),
        1,
        Signedness::Unsigned,
        Dir::Internal,
    );
    let dom = g.clock_domain(clk, rst);
    proof {
        vstd::arithmetic::power2::lemma2_to64();
    }
    g.register(m1_q, m1_d, dom, 0);
    g.register(m2_q, m2_d, dom, 0);
    g.register(m3_q, m3_d, dom, 0);
    g.register(m4_q, m4_d, dom, 0);
    g.register(v1_q, v1_d, dom, 0);
    g.register(m11_q, m11_d, dom, 0);
    g.register(m12_q, m12_d, dom, 0);
    g.register(v2_q, v2_d, dom, 0);
    g.register(fin_q, fin_d, dom, 0);
    g.register(v3_q, v3_d, dom, 0);
    proof {
        lemma_gated_max_shape(g, 14, 3, 4, 2);
        lemma_gated_max_shape(g, 16, 5, 6, 2);
        lemma_gated_max_shape(g, 18, 7, 8, 2);
        lemma_gated_max_shape(g, 20, 9, 10, 2);
        lemma_copy_shape(g, 22, 2);
        lemma_max_shape(g, 24, 13, 15);
        lemma_max_shape(g, 26, 17, 19);
        lemma_copy_shape(g, 28, 21);
        lemma_max_shape(g, 30, 23, 25);
        lemma_copy_shape(g, 32, 27);
        lemma_gated_copy_shape(g, 11, 29);
        lemma_gated_copy_shape(g, 12, 31);
    }
    g.rule(m1_d, mk_gated_max_expr(3, 4, valid_in));
    g.rule(m2_d, mk_gated_max_expr(5, 6, valid_in));
    g.rule(m3_d, mk_gated_max_expr(7, 8, valid_in));
    g.rule(m4_d, mk_gated_max_expr(9, 10, valid_in));
    g.rule(v1_d, Expr::Sig(valid_in));
    g.rule(m11_d, mk_max_expr(m1_q, m2_q));
    g.rule(m12_d, mk_max_expr(m3_q, m4_q));
    g.rule(v2_d, Expr::Sig(v1_q));
    g.rule(fin_d, mk_max_expr(m11_q, m12_q));
    g.rule(v3_d, Expr::Sig(v2_q));
    g.rule(result, mk_gated_copy_expr(fin_q));
    g.rule(valid_out, mk_gated_copy_expr(v3_q));
    proof {
        reveal_with_fuel(crate::expr::reads_sig, 8);
        assert forall|r1: int, r2: int|
            0 <= r1 < g.rules@.len() && 0 <= r2 < g.rules@.len() implies !crate::expr::reads_sig(
            #[trigger] g.rules@[r1].expr,
            #[trigger] g.rules@[r2].target as int,
        ) by {
            let t = g.rules@[r2].target as int;
            assert(t == 14 || t == 16 || t == 18 || t == 20 || t == 22 || t == 24 || t == 26 || t
                == 28 || t == 30 || t == 32 || t == 11 || t == 12);
        }
    }
    (
        g,
        MaxPorts {
            clk,
            rst,
            valid_in,
            inputs: 3,
            result,
            valid_out,
        },
    )
}

/// A bool as the 1-bit value the simulator carries.
pub open spec fn b2i(b: bool) -> int {
    if b {
        1
    } else {
        0
    }
}

/// A vector of machine rows, read as a matrix of integers.
pub open spec fn int_rows(s: Seq<Vec<i64>>) -> Seq<Seq<int>> {
    s.map_values(|r: Vec<i64>| int_seq(r@))
}

/// Drives the pipeline for one cycle per input vector (clock high, then
/// low) and reads the result and validity outputs after each cycle.  The
/// observed pair after cycle `i` is the architectural state after `i + 1`
/// cycles: the maximum tree and tag from exactly three cycles back.
#[verifier::rlimit(80)]
pub fn max_pipeline_run(xs: &Vec<Vec<i64>>, ws: &Vec<bool>) -> (outs: Vec<(i64, bool)>)
    requires
        xs@.len() == ws@.len(),
        2 * ws@.len() <= u64::MAX,
        forall|j: int| 0 <= j < xs@.len() ==> (#[trigger] xs@[j])@.len() == 8,
        forall|j: int, k: int|
            0 <= j < xs@.len() && 0 <= k < 8 ==> in_range(
                (#[trigger] xs@[j]@[k]) as int,
                8,
                Signedness::Signed,
            ),
    ensures
        outs@.len() == ws@.len(),
        forall|i: int|
            0 <= i < outs@.len() ==> (#[trigger] outs@[i]).0 as int == max_run_state(
                int_rows(xs@),
                ws@,
                i + 1,
            ).fin && outs@[i].1 == max_run_state(int_rows(xs@), ws@, i + 1).v3,
{
    let (g, ports) = build_max_pipeline();
    let ghost g0 = g;
    let ghost mx = int_rows(xs@);
    let mut sim = CycleSim::new(g);
    let mut outs: Vec<(i64, bool)> = Vec::new();
    let ghost mut st = max_zero();
    proof {
        assert(!g0.rule_drives(0) && !g0.rule_drives(1) && !g0.rule_drives(2) && !g0.rule_drives(13)
            && !g0.rule_drives(15) && !g0.rule_drives(17) && !g0.rule_drives(19)
            && !g0.rule_drives(21) && !g0.rule_drives(23) && !g0.rule_drives(25)
            && !g0.rule_drives(27) && !g0.rule_drives(29) && !g0.rule_drives(31) && !g0.rule_drives(
            3,
        ) && !g0.rule_drives(4) && !g0.rule_drives(5) && !g0.rule_drives(6) && !g0.rule_drives(7)
            && !g0.rule_drives(8) && !g0.rule_drives(9) && !g0.rule_drives(10)) by {
            assert forall|r: int| 0 <= r < g0.rules@.len() implies {
                let t = (#[trigger] g0.rules@[r]).target;
                t == 14 || t == 16 || t == 18 || t == 20 || t == 22 || t == 24 || t == 26 || t == 28
                    || t == 30 || t == 32 || t == 11 || t == 12
            } by {}
        }
        assert(!g0.reg_drives(0) && !g0.reg_drives(1) && !g0.reg_drives(2) && !g0.reg_drives(3)
            && !g0.reg_drives(4) && !g0.reg_drives(5) && !g0.reg_drives(6) && !g0.reg_drives(7)
            && !g0.reg_drives(8) && !g0.reg_drives(9) && !g0.reg_drives(10) && !g0.reg_drives(11)
            && !g0.reg_drives(12)) by {
            assert forall|r: int| 0 <= r < g0.regs@.len() implies {
                let t = (#[trigger] g0.regs@[r]).out;
                t == 13 || t == 15 || t == 17 || t == 19 || t == 21 || t == 23 || t == 25 || t == 27
                    || t == 29 || t == 31
            } by {}
        }
    }
    proof {
        assert(g0.signals@[0].width == 1 && g0.signals@[0].sign == Signedness::Unsigned && g0.signals@[0].dir == Dir::Input);
        assert(g0.signals@[1].width == 1 && g0.signals@[1].sign == Signedness::Unsigned && g0.signals@[1].dir == Dir::Input);
        assert(g0.signals@[2].width == 1 && g0.signals@[2].sign == Signedness::Unsigned && g0.signals@[2].dir == Dir::Input);
        assert(g0.signals@[3].width == 8 && g0.signals@[3].sign == Signedness::Signed && g0.signals@[3].dir == Dir::Input);
        assert(g0.signals@[4].width == 8 && g0.signals@[4].sign == Signedness::Signed && g0.signals@[4].dir == Dir::Input);
        assert(g0.signals@[5].width == 8 && g0.signals@[5].sign == Signedness::Signed && g0.signals@[5].dir == Dir::Input);
        assert(g0.signals@[6].width == 8 && g0.signals@[6].sign == Signedness::Signed && g0.signals@[6].dir == Dir::Input);
        assert(g0.signals@[7].width == 8 && g0.signals@[7].sign == Signedness::Signed && g0.signals@[7].dir == Dir::Input);
        assert(g0.signals@[8].width == 8 && g0.signals@[8].sign == Signedness::Signed && g0.signals@[8].dir == Dir::Input);
        assert(g0.signals@[9].width == 8 && g0.signals@[9].sign == Signedness::Signed && g0.signals@[9].dir == Dir::Input);
        assert(g0.signals@[10].width == 8 && g0.signals@[10].sign == Signedness::Signed && g0.signals@[10].dir == Dir::Input);
        assert(g0.signals@[11].width == 8 && g0.signals@[11].sign == Signedness::Signed && g0.signals@[11].dir == Dir::Output);
        assert(g0.signals@[12].width == 1 && g0.signals@[12].sign == Signedness::Unsigned && g0.signals@[12].dir == Dir::Output);
        assert(g0.signals@[13].width == 8 && g0.signals@[13].sign == Signedness::Signed && g0.signals@[13].dir == Dir::Internal);
        assert(g0.signals@[14].width == 8 && g0.signals@[14].sign == Signedness::Signed && g0.signals@[14].dir == Dir::Internal);
        assert(g0.signals@[15].width == 8 && g0.signals@[15].sign == Signedness::Signed && g0.signals@[15].dir == Dir::Internal);
        assert(g0.signals@[16].width == 8 && g0.signals@[16].sign == Signedness::Signed && g0.signals@[16].dir == Dir::Internal);
        assert(g0.signals@[17].width == 8 && g0.signals@[17].sign == Signedness::Signed && g0.signals@[17].dir == Dir::Internal);
        assert(g0.signals@[18].width == 8 && g0.signals@[18].sign == Signedness::Signed && g0.signals@[18].dir == Dir::Internal);
        assert(g0.signals@[19].width == 8 && g0.signals@[19].sign == Signedness::Signed && g0.signals@[19].dir == Dir::Internal);
        assert(g0.signals@[20].width == 8 && g0.signals@[20].sign == Signedness::Signed && g0.signals@[20].dir == Dir::Internal);
        assert(g0.signals@[23].width == 8 && g0.signals@[23].sign == Signedness::Signed && g0.signals@[23].dir == Dir::Internal);
        assert(g0.signals@[24].width == 8 && g0.signals@[24].sign == Signedness::Signed && g0.signals@[24].dir == Dir::Internal);
        assert(g0.signals@[25].width == 8 && g0.signals@[25].sign == Signedness::Signed && g0.signals@[25].dir == Dir::Internal);
        assert(g0.signals@[26].width == 8 && g0.signals@[26].sign == Signedness::Signed && g0.signals@[26].dir == Dir::Internal);
        assert(g0.signals@[29].width == 8 && g0.signals@[29].sign == Signedness::Signed && g0.signals@[29].dir == Dir::Internal);
        assert(g0.signals@[30].width == 8 && g0.signals@[30].sign == Signedness::Signed && g0.signals@[30].dir == Dir::Internal);
        assert(g0.signals@[21].width == 1 && g0.signals@[21].sign == Signedness::Unsigned && g0.signals@[21].dir == Dir::Internal);
        assert(g0.signals@[22].width == 1 && g0.signals@[22].sign == Signedness::Unsigned && g0.signals@[22].dir == Dir::Internal);
        assert(g0.signals@[27].width == 1 && g0.signals@[27].sign == Signedness::Unsigned && g0.signals@[27].dir == Dir::Internal);
        assert(g0.signals@[28].width == 1 && g0.signals@[28].sign == Signedness::Unsigned && g0.signals@[28].dir == Dir::Internal);
        assert(g0.signals@[31].width == 1 && g0.signals@[31].sign == Signedness::Unsigned && g0.signals@[31].dir == Dir::Internal);
        assert(g0.signals@[32].width == 1 && g0.signals@[32].sign == Signedness::Unsigned && g0.signals@[32].dir == Dir::Internal);
        assert(g0.regs@[0].out == 13 && g0.regs@[0].driver == 14 && g0.regs@[0].domain == 0 && g0.regs@[0].reset_val == 0);
        assert(g0.regs@[1].out == 15 && g0.regs@[1].driver == 16 && g0.regs@[1].domain == 0 && g0.regs@[1].reset_val == 0);
        assert(g0.regs@[2].out == 17 && g0.regs@[2].driver == 18 && g0.regs@[2].domain == 0 && g0.regs@[2].reset_val == 0);
        assert(g0.regs@[3].out == 19 && g0.regs@[3].driver == 20 && g0.regs@[3].domain == 0 && g0.regs@[3].reset_val == 0);
        assert(g0.regs@[4].out == 21 && g0.regs@[4].driver == 22 && g0.regs@[4].domain == 0 && g0.regs@[4].reset_val == 0);
        assert(g0.regs@[5].out == 23 && g0.regs@[5].driver == 24 && g0.regs@[5].domain == 0 && g0.regs@[5].reset_val == 0);
        assert(g0.regs@[6].out == 25 && g0.regs@[6].driver == 26 && g0.regs@[6].domain == 0 && g0.regs@[6].reset_val == 0);
        assert(g0.regs@[7].out == 27 && g0.regs@[7].driver == 28 && g0.regs@[7].domain == 0 && g0.regs@[7].reset_val == 0);
        assert(g0.regs@[8].out == 29 && g0.regs@[8].driver == 30 && g0.regs@[8].domain == 0 && g0.regs@[8].reset_val == 0);
        assert(g0.regs@[9].out == 31 && g0.regs@[9].driver == 32 && g0.regs@[9].domain == 0 && g0.regs@[9].reset_val == 0);
    }
    let mut i: usize = 0;
    while i < ws.len()
        invariant
            sim.inv(),
            sim.graph == g0,
            i <= ws@.len(),
            outs@.len() == i,
            forall|j: int|
                0 <= j < i ==> (#[trigger] outs@[j]).0 as int == max_run_state(mx, ws@, j + 1).fin
                    && outs@[j].1 == max_run_state(mx, ws@, j + 1).v3,
            sim.time == 2 * i,
            sim.prev@ =~= seq![false],
            st == max_run_state(mx, ws@, i as int),
            int_seq(sim.vals@).len() == 33,
            int_seq(sim.vals@)[0] == 0,
            int_seq(sim.vals@)[1] == 0,
            int_seq(sim.vals@)[13] == st.m1,
            int_seq(sim.vals@)[15] == st.m2,
            int_seq(sim.vals@)[17] == st.m3,
            int_seq(sim.vals@)[19] == st.m4,
            int_seq(sim.vals@)[21] == b2i(st.v1),
            int_seq(sim.vals@)[23] == st.m11,
            int_seq(sim.vals@)[25] == st.m12,
            int_seq(sim.vals@)[27] == b2i(st.v2),
            int_seq(sim.vals@)[29] == st.fin,
            int_seq(sim.vals@)[31] == b2i(st.v3),
        decreases ws@.len() - i,
    {
        let w = ws[i];
        let wv: i64 = if w {
            1
        } else {
            0
        };
        let row = &xs[i];
        let x0 = row[0];
        let x1 = row[1];
        let x2 = row[2];
        let x3 = row[3];
        let x4 = row[4];
        let x5 = row[5];
        let x6 = row[6];
        let x7 = row[7];
        let stim_hi: Vec<(usize, i64)> = vec![
            (0usize, 1i64),
            (2usize, wv),
            (3usize, x0),
            (4usize, x1),
            (5usize, x2),
            (6usize, x3),
            (7usize, x4),
            (8usize, x5),
            (9usize, x6),
            (10usize, x7),
        ];
        let stim_lo: Vec<(usize, i64)> = vec![(0usize, 0i64)];
        let ghost v_cur = int_seq(sim.vals@);
        let ghost v_hi = apply_stim(g0, v_cur, stim_hi@, 10);
        let ghost stpre = st;
        proof {
            vstd::arithmetic::power2::lemma2_to64();
            reveal_with_fuel(apply_stim, 12);
            assert(mx[i as int] == int_seq(row@));
            assert(v_hi.len() == 33 && v_hi[0] == 1 && v_hi[1] == 0 && v_hi[2] == wv && v_hi[3]
                == x0 && v_hi[4] == x1 && v_hi[5] == x2 && v_hi[6] == x3 && v_hi[7] == x4 && v_hi[8]
                == x5 && v_hi[9] == x6 && v_hi[10] == x7 && v_hi[13] == stpre.m1 && v_hi[15]
                == stpre.m2 && v_hi[17] == stpre.m3 && v_hi[19] == stpre.m4 && v_hi[21] == b2i(
                stpre.v1,
            ) && v_hi[23] == stpre.m11 && v_hi[25] == stpre.m12 && v_hi[27] == b2i(stpre.v2)
                && v_hi[29] == stpre.fin && v_hi[31] == b2i(stpre.v3));
            crate::sched::lemma_single_layer_fixpoint(g0, v_hi);
            lemma_single_layer_step(g0, v_hi, sim.prev@);
            let s_fix = crate::sched::comb_fixpoint(g0, v_hi)->Some_0;
            let stx = step_spec(g0, v_hi, sim.prev@)->Some_0;
            lemma_gated_max_expr_eval(3, 4, 2, v_hi);
            lemma_gated_max_expr_eval(5, 6, 2, v_hi);
            lemma_gated_max_expr_eval(7, 8, 2, v_hi);
            lemma_gated_max_expr_eval(9, 10, 2, v_hi);
            lemma_max_expr_eval(13, 15, v_hi);
            lemma_max_expr_eval(17, 19, v_hi);
            lemma_max_expr_eval(23, 25, v_hi);
            reveal_with_fuel(eval, 3);
            // Every committed stage value is already in range, so the
            // truncation at each rule target is the identity.
            assert(in_range(v_hi[13], 8, Signedness::Signed) && in_range(
                v_hi[15],
                8,
                Signedness::Signed,
            ) && in_range(v_hi[17], 8, Signedness::Signed) && in_range(
                v_hi[19],
                8,
                Signedness::Signed,
            ) && in_range(v_hi[23], 8, Signedness::Signed) && in_range(
                v_hi[25],
                8,
                Signedness::Signed,
            ));
            lemma_trunc_max(v_hi[3], v_hi[4], wv);
            lemma_trunc_max(v_hi[5], v_hi[6], wv);
            lemma_trunc_max(v_hi[7], v_hi[8], wv);
            lemma_trunc_max(v_hi[9], v_hi[10], wv);
            lemma_trunc_max2(v_hi[13], v_hi[15]);
            lemma_trunc_max2(v_hi[17], v_hi[19]);
            lemma_trunc_max2(v_hi[23], v_hi[25]);
            crate::value::lemma_trunc_id(wv as int, 1, Signedness::Unsigned);
            crate::value::lemma_trunc_id(b2i(stpre.v1), 1, Signedness::Unsigned);
            crate::value::lemma_trunc_id(b2i(stpre.v2), 1, Signedness::Unsigned);
            assert(s_fix[14] == (if wv != 0 {
                max2(v_hi[3], v_hi[4])
            } else {
                0int
            })) by {
                assert(g0.rules@[0].target == 14);
            }
            assert(s_fix[16] == (if wv != 0 {
                max2(v_hi[5], v_hi[6])
            } else {
                0int
            })) by {
                assert(g0.rules@[1].target == 16);
            }
            assert(s_fix[18] == (if wv != 0 {
                max2(v_hi[7], v_hi[8])
            } else {
                0int
            })) by {
                assert(g0.rules@[2].target == 18);
            }
            assert(s_fix[20] == (if wv != 0 {
                max2(v_hi[9], v_hi[10])
            } else {
                0int
            })) by {
                assert(g0.rules@[3].target == 20);
            }
            assert(s_fix[22] == wv) by {
                assert(g0.rules@[4].target == 22);
            }
            assert(s_fix[24] == max2(stpre.m1, stpre.m2)) by {
                assert(g0.rules@[5].target == 24);
            }
            assert(s_fix[26] == max2(stpre.m3, stpre.m4)) by {
                assert(g0.rules@[6].target == 26);
            }
            assert(s_fix[28] == b2i(stpre.v1)) by {
                assert(g0.rules@[7].target == 28);
            }
            assert(s_fix[30] == max2(stpre.m11, stpre.m12)) by {
                assert(g0.rules@[8].target == 30);
            }
            assert(s_fix[32] == b2i(stpre.v2)) by {
                assert(g0.rules@[9].target == 32);
            }
            assert(s_fix[0] == 1 && s_fix[1] == 0);
            assert(crate::sched::edge_rises(g0, sim.prev@, s_fix, 0));
            assert(g0.regs@[0].out == 13 && g0.regs@[0].driver == 14 && g0.regs@[0].domain == 0
                && g0.regs@[0].reset_val == 0);
            assert(g0.regs@[1].out == 15 && g0.regs@[1].driver == 16 && g0.regs@[1].domain == 0
                && g0.regs@[1].reset_val == 0);
            assert(g0.regs@[2].out == 17 && g0.regs@[2].driver == 18 && g0.regs@[2].domain == 0
                && g0.regs@[2].reset_val == 0);
            assert(g0.regs@[3].out == 19 && g0.regs@[3].driver == 20 && g0.regs@[3].domain == 0
                && g0.regs@[3].reset_val == 0);
            assert(g0.regs@[4].out == 21 && g0.regs@[4].driver == 22 && g0.regs@[4].domain == 0
                && g0.regs@[4].reset_val == 0);
            assert(g0.regs@[5].out == 23 && g0.regs@[5].driver == 24 && g0.regs@[5].domain == 0
                && g0.regs@[5].reset_val == 0);
            assert(g0.regs@[6].out == 25 && g0.regs@[6].driver == 26 && g0.regs@[6].domain == 0
                && g0.regs@[6].reset_val == 0);
            assert(g0.regs@[7].out == 27 && g0.regs@[7].driver == 28 && g0.regs@[7].domain == 0
                && g0.regs@[7].reset_val == 0);
            assert(g0.regs@[8].out == 29 && g0.regs@[8].driver == 30 && g0.regs@[8].domain == 0
                && g0.regs@[8].reset_val == 0);
            assert(g0.regs@[9].out == 31 && g0.regs@[9].driver == 32 && g0.regs@[9].domain == 0
                && g0.regs@[9].reset_val == 0);
            assert(stx.0[13] == s_fix[14] && stx.0[15] == s_fix[16] && stx.0[17] == s_fix[18]
                && stx.0[19] == s_fix[20] && stx.0[21] == s_fix[22] && stx.0[23] == s_fix[24]
                && stx.0[25] == s_fix[26] && stx.0[27] == s_fix[28] && stx.0[29] == s_fix[30]
                && stx.0[31] == s_fix[32]);
            assert(stx.0[0] == 1 && stx.0[1] == 0);
            assert(stx.1 =~= seq![true]);
            assert(in_range(xs@[i as int]@[0] as int, 8, Signedness::Signed) && in_range(
                xs@[i as int]@[1] as int,
                8,
                Signedness::Signed,
            ) && in_range(xs@[i as int]@[2] as int, 8, Signedness::Signed) && in_range(
                xs@[i as int]@[3] as int,
                8,
                Signedness::Signed,
            ) && in_range(xs@[i as int]@[4] as int, 8, Signedness::Signed) && in_range(
                xs@[i as int]@[5] as int,
                8,
                Signedness::Signed,
            ) && in_range(xs@[i as int]@[6] as int, 8, Signedness::Signed) && in_range(
                xs@[i as int]@[7] as int,
                8,
                Signedness::Signed,
            ));
            assert(stim_hi@[0] == (0usize, 1i64) && stim_hi@[1] == (2usize, wv) && stim_hi@[2]
                == (3usize, x0) && stim_hi@[3] == (4usize, x1) && stim_hi@[4] == (5usize, x2)
                && stim_hi@[5] == (6usize, x3) && stim_hi@[6] == (7usize, x4) && stim_hi@[7] == (
            8usize,
            x5,
            ) && stim_hi@[8] == (9usize, x6) && stim_hi@[9] == (10usize, x7));
            assert(x0 as int == xs@[i as int]@[0] && x1 as int == xs@[i as int]@[1] && x2 as int
                == xs@[i as int]@[2] && x3 as int == xs@[i as int]@[3] && x4 as int
                == xs@[i as int]@[4] && x5 as int == xs@[i as int]@[5] && x6 as int
                == xs@[i as int]@[6] && x7 as int == xs@[i as int]@[7]);
            assert(g0.signals@[3].width == 8 && g0.signals@[3].sign == Signedness::Signed
                && g0.signals@[3].dir == Dir::Input);
            assert(g0.signals@[4].width == 8 && g0.signals@[4].sign == Signedness::Signed
                && g0.signals@[4].dir == Dir::Input);
            assert(g0.signals@[5].width == 8 && g0.signals@[5].sign == Signedness::Signed
                && g0.signals@[5].dir == Dir::Input);
            assert(g0.signals@[6].width == 8 && g0.signals@[6].sign == Signedness::Signed
                && g0.signals@[6].dir == Dir::Input);
            assert(g0.signals@[7].width == 8 && g0.signals@[7].sign == Signedness::Signed
                && g0.signals@[7].dir == Dir::Input);
            assert(g0.signals@[8].width == 8 && g0.signals@[8].sign == Signedness::Signed
                && g0.signals@[8].dir == Dir::Input);
            assert(g0.signals@[9].width == 8 && g0.signals@[9].sign == Signedness::Signed
                && g0.signals@[9].dir == Dir::Input);
            assert(g0.signals@[10].width == 8 && g0.signals@[10].sign == Signedness::Signed
                && g0.signals@[10].dir == Dir::Input);
            assert(stim_entry_ok(g0, stim_hi@[0]));
            assert(stim_entry_ok(g0, stim_hi@[1]));
            assert(stim_entry_ok(g0, stim_hi@[2]));
            assert(stim_entry_ok(g0, stim_hi@[3]));
            assert(stim_entry_ok(g0, stim_hi@[4]));
            assert(stim_entry_ok(g0, stim_hi@[5]));
            assert(stim_entry_ok(g0, stim_hi@[6]));
            assert(stim_entry_ok(g0, stim_hi@[7]));
            assert(stim_entry_ok(g0, stim_hi@[8]));
            assert(stim_entry_ok(g0, stim_hi@[9]));
            assert(stim_ok(g0, stim_hi@)) by {
                assert forall|k: int| 0 <= k < stim_hi@.len() implies stim_entry_ok(
                    g0,
                    #[trigger] stim_hi@[k],
                ) by {
                    assert(k == 0 || k == 1 || k == 2 || k == 3 || k == 4 || k == 5 || k == 6 || k
                        == 7 || k == 8 || k == 9);
                }
            }
            reveal_with_fuel(run_spec, 3);
            assert(run_spec(g0, v_hi, sim.prev@, sim.time, 1) matches RunSpec::Done { v, .. } && v
                == stx.0);
        }
        match sim.wait(1, &stim_hi) {
            Ok(()) => {},
            Err(_) => {
                return unreached();
            },
        }
        proof {
            st = max_step(stpre, mx[i as int], w);
            assert(st.m1 == int_seq(sim.vals@)[13] && st.m2 == int_seq(sim.vals@)[15] && st.m3
                == int_seq(sim.vals@)[17] && st.m4 == int_seq(sim.vals@)[19] && b2i(st.v1)
                == int_seq(sim.vals@)[21] && st.m11 == int_seq(sim.vals@)[23] && st.m12 == int_seq(
                sim.vals@,
            )[25] && b2i(st.v2) == int_seq(sim.vals@)[27] && st.fin == int_seq(sim.vals@)[29] && b2i(
                st.v3,
            ) == int_seq(sim.vals@)[31]);
        }
        let ghost v1v = int_seq(sim.vals@);
        let ghost v_lo = apply_stim(g0, v1v, stim_lo@, 1);
        proof {
            vstd::arithmetic::power2::lemma2_to64();
            reveal_with_fuel(apply_stim, 2);
            assert(v_lo.len() == 33 && v_lo[0] == 0 && v_lo[1] == 0 && v_lo[29] == st.fin
                && v_lo[31] == b2i(st.v3) && v_lo[13] == st.m1 && v_lo[15] == st.m2 && v_lo[17]
                == st.m3 && v_lo[19] == st.m4 && v_lo[21] == b2i(st.v1) && v_lo[23] == st.m11
                && v_lo[25] == st.m12 && v_lo[27] == b2i(st.v2));
            crate::sched::lemma_single_layer_fixpoint(g0, v_lo);
            lemma_single_layer_step(g0, v_lo, sim.prev@);
            let s_fix = crate::sched::comb_fixpoint(g0, v_lo)->Some_0;
            let stx = step_spec(g0, v_lo, sim.prev@)->Some_0;
            reveal_with_fuel(eval, 3);
            assert(in_range(v_lo[29], 8, Signedness::Signed));
            crate::value::lemma_trunc_id(v_lo[29], 8, Signedness::Signed);
            crate::value::lemma_trunc_id(v_lo[31], 1, Signedness::Unsigned);
            lemma_gated_copy_eval(29, v_lo);
            lemma_gated_copy_eval(31, v_lo);
            assert(s_fix[11] == st.fin) by {
                assert(g0.rules@[10].target == 11);
            }
            assert(s_fix[12] == b2i(st.v3)) by {
                assert(g0.rules@[11].target == 12);
            }
            assert(!crate::sched::edge_rises(g0, sim.prev@, s_fix, 0)) by {
                assert(sim.prev@[0] == true);
            }
            assert(g0.regs@[0].out == 13 && g0.regs@[1].out == 15 && g0.regs@[2].out == 17
                && g0.regs@[3].out == 19 && g0.regs@[4].out == 21 && g0.regs@[5].out == 23
                && g0.regs@[6].out == 25 && g0.regs@[7].out == 27 && g0.regs@[8].out == 29
                && g0.regs@[9].out == 31);
            assert(stx.0[13] == st.m1 && stx.0[15] == st.m2 && stx.0[17] == st.m3 && stx.0[19]
                == st.m4 && stx.0[21] == b2i(st.v1) && stx.0[23] == st.m11 && stx.0[25] == st.m12
                && stx.0[27] == b2i(st.v2) && stx.0[29] == st.fin && stx.0[31] == b2i(st.v3));
            assert(stx.0[11] == st.fin && stx.0[12] == b2i(st.v3));
            assert(stx.0[0] == 0 && stx.0[1] == 0);
            assert(stx.1 =~= seq![false]) by {
                assert(s_fix[0] == 0);
            }
            assert(stim_ok(g0, stim_lo@)) by {
                assert forall|k: int| 0 <= k < stim_lo@.len() implies stim_entry_ok(
                    g0,
                    #[trigger] stim_lo@[k],
                ) by {
                    assert(k == 0);
                }
            }
            reveal_with_fuel(run_spec, 3);
            assert(run_spec(g0, v_lo, sim.prev@, sim.time, 1) matches RunSpec::Done { v, .. } && v
                == stx.0);
        }
        match sim.wait(1, &stim_lo) {
            Ok(()) => {},
            Err(_) => {
                return unreached();
            },
        }
        let rv = sim.read(ports.result);
        let vv = sim.read(ports.valid_out);
        outs.push((rv, vv == 1));
        i = i + 1;
    }
    outs
}

/// A gated two-way maximum of in-range values is unchanged by truncation.
proof fn lemma_trunc_max(a: int, b: int, wv: i64)
    requires
        in_range(a, 8, Signedness::Signed),
        in_range(b, 8, Signedness::Signed),
    ensures
        trunc_val(
            if wv != 0 {
                max2(a, b)
            } else {
                0
            },
            8,
            Signedness::Signed,
        ) == (if wv != 0 {
            max2(a, b)
        } else {
            0int
        }),
{
    vstd::arithmetic::power2::lemma2_to64();
    crate::value::lemma_trunc_id(
        if wv != 0 {
            max2(a, b)
        } else {
            0
        },
        8,
        Signedness::Signed,
    );
}

/// A two-way maximum of in-range values is unchanged by truncation.
proof fn lemma_trunc_max2(a: int, b: int)
    requires
        in_range(a, 8, Signedness::Signed),
        in_range(b, 8, Signedness::Signed),
    ensures
        trunc_val(max2(a, b), 8, Signedness::Signed) == max2(a, b),
{
    vstd::arithmetic::power2::lemma2_to64();
    crate::value::lemma_trunc_id(max2(a, b), 8, Signedness::Signed);
}

} // verus!
