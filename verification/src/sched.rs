//! The update scheduler: one logical tick is a combinational phase that
//! evaluates the rules to a fixpoint (Jacobi-style passes: every rule reads
//! the values the pass started from, so no rule can observe another's
//! half-written output), then a commit phase that batch-commits every
//! register whose clock domain saw a rising edge.

use crate::expr::{eval, eval_expr, int_seq, lemma_eval_agree, reads_sig};
use crate::graph::{ModuleGraph};
use crate::value::{in_range, trunc_i128, trunc_val, width_ok, Signedness};
use vstd::arithmetic::power2::{lemma_pow2_strictly_increases, pow2};
use vstd::prelude::*;

verus! {

/// The simulator's value vector is exactly one in-range value per declared
/// signal.
pub open spec fn vals_wf(g: ModuleGraph, vals: Seq<int>) -> bool {
    &&& vals.len() == g.signals@.len()
    &&& forall|i: int|
        0 <= i < vals.len() ==> in_range(
            #[trigger] vals[i],
            g.signals@[i].width,
            g.signals@[i].sign,
        )
}

/// An in-range value is within the signal's magnitude cap `2^width`.
pub proof fn lemma_in_range_cap(v: int, w: u32, s: Signedness)
    requires
        width_ok(w),
        in_range(v, w, s),
    ensures
        -(pow2(w as nat) as int) <= v <= pow2(w as nat),
{
    lemma_pow2_strictly_increases((w - 1) as nat, w as nat);
}

/// In-range values meet the caps that `eval_expr` and `eval_bound` use.
pub proof fn lemma_vals_meet_caps(g: ModuleGraph, vals: Seq<int>)
    requires
        g.wf(),
        vals_wf(g, vals),
    ensures
        forall|i: int|
            0 <= i < vals.len() ==> -(g.sig_caps()[i] as int) <= #[trigger] vals[i]
                <= g.sig_caps()[i],
{
    assert forall|i: int|
        0 <= i < vals.len() implies -(g.sig_caps()[i] as int) <= #[trigger] vals[i]
        <= g.sig_caps()[i] by {
        lemma_in_range_cap(vals[i], g.signals@[i].width, g.signals@[i].sign);
    }
}

/// One Jacobi pass restricted to the first `n` rules: each written target
/// takes the truncated value of its rule's expression over the vector the
/// pass started from.
pub open spec fn pass_upto(g: ModuleGraph, v0: Seq<int>, n: int) -> Seq<int>
    decreases n,
{
    if n <= 0 {
        v0
    } else {
        let prev = pass_upto(g, v0, n - 1);
        let rl = g.rules@[n - 1];
        let sg = g.signals@[rl.target as int];
        prev.update(rl.target as int, trunc_val(eval(rl.expr, v0), sg.width, sg.sign))
    }
}

/// One full combinational pass.
pub open spec fn comb_pass(g: ModuleGraph, v0: Seq<int>) -> Seq<int> {
    pass_upto(g, v0, g.rules@.len() as int)
}

/// A settled vector: every rule's target already holds its rule's value.
pub open spec fn comb_stable(g: ModuleGraph, v: Seq<int>) -> bool {
    forall|r: int|
        0 <= r < g.rules@.len() ==> {
            let rl = #[trigger] g.rules@[r];
            let sg = g.signals@[rl.target as int];
            v[rl.target as int] == trunc_val(eval(rl.expr, v), sg.width, sg.sign)
        }
}

/// What a pass does, pointwise: rule targets take their rules' values over
/// the start vector, everything else is untouched.
pub proof fn lemma_pass_char(g: ModuleGraph, v0: Seq<int>, n: int)
    requires
        g.wf(),
        v0.len() == g.signals@.len(),
        0 <= n <= g.rules@.len(),
    ensures
        pass_upto(g, v0, n).len() == v0.len(),
        forall|i: int|
            0 <= i < v0.len() && !(exists|r: int|
                0 <= r < n && #[trigger] g.rules@[r].target == i) ==> #[trigger] pass_upto(
                g,
                v0,
                n,
            )[i] == v0[i],
        forall|r: int|
            0 <= r < n ==> {
                let rl = #[trigger] g.rules@[r];
                let sg = g.signals@[rl.target as int];
                pass_upto(g, v0, n)[rl.target as int] == trunc_val(
                    eval(rl.expr, v0),
                    sg.width,
                    sg.sign,
                )
            },
    decreases n,
{
    if n > 0 {
        lemma_pass_char(g, v0, n - 1);
        assert(g.rule_wf(n - 1));
        assert forall|r: int| 0 <= r < n implies {
            let rl = #[trigger] g.rules@[r];
            let sg = g.signals@[rl.target as int];
            pass_upto(g, v0, n)[rl.target as int] == trunc_val(eval(rl.expr, v0), sg.width, sg.sign)
        } by {
            let rl = g.rules@[r];
            let sg = g.signals@[rl.target as int];
            assert(g.rule_wf(r));
            if r < n - 1 {
                // Distinct targets: rule n-1 does not overwrite rule r's slot.
                assert(g.rules@[r].target != g.rules@[n - 1].target);
                assert(pass_upto(g, v0, n - 1)[rl.target as int] == trunc_val(
                    eval(rl.expr, v0),
                    sg.width,
                    sg.sign,
                ));
            }
        }
    }
}

/// A vector is unchanged by a pass exactly when it is settled.
pub proof fn lemma_stable_iff_fixed(g: ModuleGraph, v: Seq<int>)
    requires
        g.wf(),
        v.len() == g.signals@.len(),
    ensures
        (comb_pass(g, v) == v) == comb_stable(g, v),
{
    let n = g.rules@.len() as int;
    lemma_pass_char(g, v, n);
    if comb_stable(g, v) {
        assert forall|i: int| 0 <= i < v.len() implies #[trigger] comb_pass(g, v)[i] == v[i] by {
            if exists|r: int| 0 <= r < n && #[trigger] g.rules@[r].target == i {
                let r = choose|r: int| 0 <= r < n && #[trigger] g.rules@[r].target == i;
                assert(g.rules@[r].target == i);
            }
        }
        assert(comb_pass(g, v) =~= v);
    }
    if comb_pass(g, v) == v {
        assert forall|r: int| 0 <= r < n implies {
            let rl = #[trigger] g.rules@[r];
            let sg = g.signals@[rl.target as int];
            v[rl.target as int] == trunc_val(eval(rl.expr, v), sg.width, sg.sign)
        } by {
            let rl = g.rules@[r];
            assert(comb_pass(g, v)[rl.target as int] == v[rl.target as int]);
        }
    }
}

/// Iterated passes until settled, or `None` once the fuel runs out.
pub open spec fn settle_rec(g: ModuleGraph, v: Seq<int>, fuel: nat) -> Option<Seq<int>>
    decreases fuel,
{
    if comb_stable(g, v) {
        Some(v)
    } else if fuel == 0 {
        None
    } else {
        settle_rec(g, comb_pass(g, v), (fuel - 1) as nat)
    }
}

/// The combinational phase: the settled vector the scheduler commits to, or
/// `None` for a divergent (cyclic or contradictory) rule set.  The iteration
/// bound is one pass per rule, enough for any acyclically layered rule set.
pub open spec fn comb_fixpoint(g: ModuleGraph, v: Seq<int>) -> Option<Seq<int>> {
    settle_rec(g, v, g.rules@.len())
}

/// A settled fixpoint is itself stable, keeps its length, and leaves
/// rule-free signals at their start values.
pub proof fn lemma_settle_props(g: ModuleGraph, v: Seq<int>, fuel: nat)
    requires
        g.wf(),
        v.len() == g.signals@.len(),
        settle_rec(g, v, fuel) is Some,
    ensures
        comb_stable(g, settle_rec(g, v, fuel)->Some_0),
        settle_rec(g, v, fuel)->Some_0.len() == v.len(),
        forall|i: int|
            0 <= i < v.len() && !g.rule_drives(i) ==> #[trigger] settle_rec(g, v, fuel)->Some_0[i]
                == v[i],
    decreases fuel,
{
    if comb_stable(g, v) {
    } else {
        lemma_pass_char(g, v, g.rules@.len() as int);
        lemma_settle_props(g, comb_pass(g, v), (fuel - 1) as nat);
    }
}

/// Whether domain `d` sees a rising edge this tick: its clock line was low
/// last tick and is high in the settled vector.
pub open spec fn edge_rises(g: ModuleGraph, prev: Seq<bool>, v: Seq<int>, d: int) -> bool {
    !prev[d] && v[g.domains@[d].clock as int] != 0
}

/// The commit phase restricted to the first `n` registers: each register in
/// an edged domain takes its driver's settled value, or its reset value while
/// the domain's reset line is asserted; every other register holds.  All
/// reads are from the settled pre-commit vector, so the batch is atomic.
pub open spec fn commit_upto(g: ModuleGraph, v: Seq<int>, prev: Seq<bool>, n: int) -> Seq<int>
    decreases n,
{
    if n <= 0 {
        v
    } else {
        let c = commit_upto(g, v, prev, n - 1);
        let rg = g.regs@[n - 1];
        if edge_rises(g, prev, v, rg.domain as int) {
            c.update(
                rg.out as int,
                if v[g.domains@[rg.domain as int].reset as int] != 0 {
                    rg.reset_val as int
                } else {
                    v[rg.driver as int]
                },
            )
        } else {
            c
        }
    }
}

/// The full commit phase.
pub open spec fn commit_regs(g: ModuleGraph, v: Seq<int>, prev: Seq<bool>) -> Seq<int> {
    commit_upto(g, v, prev, g.regs@.len() as int)
}

/// What the commit does, pointwise.
pub proof fn lemma_commit_char(g: ModuleGraph, v: Seq<int>, prev: Seq<bool>, n: int)
    requires
        g.wf(),
        v.len() == g.signals@.len(),
        0 <= n <= g.regs@.len(),
    ensures
        commit_upto(g, v, prev, n).len() == v.len(),
        forall|i: int|
            0 <= i < v.len() && !(exists|r: int|
                0 <= r < n && #[trigger] g.regs@[r].out == i) ==> #[trigger] commit_upto(
                g,
                v,
                prev,
                n,
            )[i] == v[i],
        forall|r: int|
            0 <= r < n ==> {
                let rg = #[trigger] g.regs@[r];
                commit_upto(g, v, prev, n)[rg.out as int] == if edge_rises(
                    g,
                    prev,
                    v,
                    rg.domain as int,
                ) {
                    if v[g.domains@[rg.domain as int].reset as int] != 0 {
                        rg.reset_val as int
                    } else {
                        v[rg.driver as int]
                    }
                } else {
                    v[rg.out as int]
                }
            },
    decreases n,
{
    if n > 0 {
        lemma_commit_char(g, v, prev, n - 1);
        assert(g.reg_wf(n - 1));
        assert forall|r: int| 0 <= r < n implies {
            let rg = #[trigger] g.regs@[r];
            commit_upto(g, v, prev, n)[rg.out as int] == if edge_rises(
                g,
                prev,
                v,
                rg.domain as int,
            ) {
                if v[g.domains@[rg.domain as int].reset as int] != 0 {
                    rg.reset_val as int
                } else {
                    v[rg.driver as int]
                }
            } else {
                v[rg.out as int]
            }
        } by {
            let rg = g.regs@[r];
            assert(g.reg_wf(r));
            if r < n - 1 {
                assert(g.regs@[r].out != g.regs@[n - 1].out);
                assert(commit_upto(g, v, prev, n - 1)[rg.out as int] == if edge_rises(
                    g,
                    prev,
                    v,
                    rg.domain as int,
                ) {
                    if v[g.domains@[rg.domain as int].reset as int] != 0 {
                        rg.reset_val as int
                    } else {
                        v[rg.driver as int]
                    }
                } else {
                    v[rg.out as int]
                });
            }
        }
    }
}

/// The clock levels the next tick's edge detection compares against.
pub open spec fn clocks_after(g: ModuleGraph, v: Seq<int>) -> Seq<bool> {
    Seq::new(g.domains@.len(), |d: int| v[g.domains@[d].clock as int] != 0)
}

/// One whole scheduler tick over settled-value semantics: `None` reports
/// combinational divergence.
pub open spec fn step_spec(g: ModuleGraph, v: Seq<int>, prev: Seq<bool>) -> Option<
    (Seq<int>, Seq<bool>),
> {
    match comb_fixpoint(g, v) {
        None => None,
        Some(s) => Some((commit_regs(g, s, prev), clocks_after(g, s))),
    }
}

/// A single-layer rule set: no rule reads any rule's target, so every rule
/// reads only inputs and register outputs.  Pipelined circuits, whose
/// combinational layers are separated by registers, all have this shape.
pub open spec fn single_layer(g: ModuleGraph) -> bool {
    forall|r1: int, r2: int|
        0 <= r1 < g.rules@.len() && 0 <= r2 < g.rules@.len() ==> !reads_sig(
            #[trigger] g.rules@[r1].expr,
            #[trigger] g.rules@[r2].target as int,
        )
}

/// A single-layer rule set settles within one pass, and the fixpoint is
/// written out: rule targets take their rules' values over the start vector,
/// everything else keeps its start value.
pub proof fn lemma_single_layer_fixpoint(g: ModuleGraph, v: Seq<int>)
    requires
        g.wf(),
        v.len() == g.signals@.len(),
        single_layer(g),
    ensures
        comb_fixpoint(g, v) is Some,
        comb_fixpoint(g, v)->Some_0.len() == v.len(),
        forall|i: int|
            0 <= i < v.len() && !g.rule_drives(i) ==> #[trigger] comb_fixpoint(g, v)->Some_0[i]
                == v[i],
        forall|r: int|
            0 <= r < g.rules@.len() ==> {
                let rl = #[trigger] g.rules@[r];
                let sg = g.signals@[rl.target as int];
                comb_fixpoint(g, v)->Some_0[rl.target as int] == trunc_val(
                    eval(rl.expr, v),
                    sg.width,
                    sg.sign,
                )
            },
{
    let n = g.rules@.len() as int;
    lemma_pass_char(g, v, n);
    if comb_stable(g, v) {
        assert forall|r: int| 0 <= r < n implies {
            let rl = #[trigger] g.rules@[r];
            let sg = g.signals@[rl.target as int];
            comb_fixpoint(g, v)->Some_0[rl.target as int] == trunc_val(
                eval(rl.expr, v),
                sg.width,
                sg.sign,
            )
        } by {
            assert(g.rule_wf(r));
        }
    } else {
        let s = comb_pass(g, v);
        assert(comb_stable(g, s)) by {
            assert forall|r: int| 0 <= r < n implies {
                let rl = #[trigger] g.rules@[r];
                let sg = g.signals@[rl.target as int];
                s[rl.target as int] == trunc_val(eval(rl.expr, s), sg.width, sg.sign)
            } by {
                let rl = g.rules@[r];
                assert(g.rule_wf(r));
                assert forall|i: int|
                    0 <= i < v.len() && reads_sig(rl.expr, i) implies s[i] == v[i] by {
                    if g.rule_drives(i) {
                        let r2 = choose|r2: int|
                            0 <= r2 < g.rules@.len() && #[trigger] g.rules@[r2].target == i;
                        assert(!reads_sig(g.rules@[r as int].expr, g.rules@[r2].target as int));
                    }
                }
                lemma_eval_agree(rl.expr, s, v);
            }
        }
        assert(g.rules@.len() > 0) by {
            if g.rules@.len() == 0 {
                assert(comb_stable(g, v));
            }
        }
        assert(settle_rec(g, s, (g.rules@.len() - 1) as nat) == Some(s));
        assert(comb_fixpoint(g, v) == Some(s));
        assert forall|r: int| 0 <= r < n implies {
            let rl = #[trigger] g.rules@[r];
            let sg = g.signals@[rl.target as int];
            comb_fixpoint(g, v)->Some_0[rl.target as int] == trunc_val(
                eval(rl.expr, v),
                sg.width,
                sg.sign,
            )
        } by {
            assert(g.rule_wf(r));
        }
    }
}

/// For a single-layer graph, one whole tick written out pointwise: register
/// outputs commit (or hold) from the settled vector, every other driven
/// signal takes its rule's value, and undriven signals keep their values.
pub proof fn lemma_single_layer_step(g: ModuleGraph, v: Seq<int>, prev: Seq<bool>)
    requires
        g.wf(),
        v.len() == g.signals@.len(),
        prev.len() == g.domains@.len(),
        single_layer(g),
    ensures
        step_spec(g, v, prev) is Some,
        step_spec(g, v, prev)->Some_0.0.len() == v.len(),
        step_spec(g, v, prev)->Some_0.1 == clocks_after(g, comb_fixpoint(g, v)->Some_0),
        forall|i: int|
            0 <= i < v.len() && !g.rule_drives(i) && !g.reg_drives(i) ==> #[trigger] step_spec(
                g,
                v,
                prev,
            )->Some_0.0[i] == v[i],
        forall|r: int|
            0 <= r < g.rules@.len() ==> {
                let rl = #[trigger] g.rules@[r];
                let sg = g.signals@[rl.target as int];
                step_spec(g, v, prev)->Some_0.0[rl.target as int] == trunc_val(
                    eval(rl.expr, v),
                    sg.width,
                    sg.sign,
                )
            },
        forall|r: int|
            0 <= r < g.regs@.len() ==> {
                let rg = #[trigger] g.regs@[r];
                let s = comb_fixpoint(g, v)->Some_0;
                step_spec(g, v, prev)->Some_0.0[rg.out as int] == if edge_rises(
                    g,
                    prev,
                    s,
                    rg.domain as int,
                ) {
                    if s[g.domains@[rg.domain as int].reset as int] != 0 {
                        rg.reset_val as int
                    } else {
                        s[rg.driver as int]
                    }
                } else {
                    s[rg.out as int]
                }
            },
{
    lemma_single_layer_fixpoint(g, v);
    let s = comb_fixpoint(g, v)->Some_0;
    lemma_commit_char(g, s, prev, g.regs@.len() as int);
    assert forall|r: int| 0 <= r < g.rules@.len() implies {
        let rl = #[trigger] g.rules@[r];
        let sg = g.signals@[rl.target as int];
        step_spec(g, v, prev)->Some_0.0[rl.target as int] == trunc_val(
            eval(rl.expr, v),
            sg.width,
            sg.sign,
        )
    } by {
        let rl = g.rules@[r];
        assert(g.rule_wf(r));
        if g.reg_drives(rl.target as int) {
            let r2 = choose|r2: int|
                0 <= r2 < g.regs@.len() && #[trigger] g.regs@[r2].out == rl.target as int;
            assert(g.rules@[r as int].target != g.regs@[r2].out);
            assert(false);
        }
    }
}

/// Reset overrides any history: when a domain's clock rises with its reset
/// line asserted, every register of that domain leaves the tick holding its
/// declared reset value, whatever state the run was in.  The clock and reset
/// lines must not themselves be outputs of combinational rules (they are
/// module inputs in any ordinary design), so their levels survive settling.
pub proof fn lemma_reset_overrides(g: ModuleGraph, v: Seq<int>, prev: Seq<bool>, d: int)
    requires
        g.wf(),
        vals_wf(g, v),
        prev.len() == g.domains@.len(),
        0 <= d < g.domains@.len(),
        !g.rule_drives(g.domains@[d].clock as int),
        !g.rule_drives(g.domains@[d].reset as int),
        !prev[d],
        v[g.domains@[d].clock as int] != 0,
        v[g.domains@[d].reset as int] != 0,
        step_spec(g, v, prev) is Some,
    ensures
        forall|r: int|
            0 <= r < g.regs@.len() && #[trigger] g.regs@[r].domain == d
                ==> step_spec(g, v, prev)->Some_0.0[g.regs@[r].out as int] == g.regs@[
                r
            ].reset_val as int,
{
    let s = comb_fixpoint(g, v)->Some_0;
    lemma_settle_props(g, v, g.rules@.len());
    assert(g.domain_wf(d));
    assert(s[g.domains@[d].clock as int] == v[g.domains@[d].clock as int]);
    assert(s[g.domains@[d].reset as int] == v[g.domains@[d].reset as int]);
    lemma_commit_char(g, s, prev, g.regs@.len() as int);
    assert forall|r: int|
        0 <= r < g.regs@.len() && #[trigger] g.regs@[r].domain == d implies step_spec(
        g,
        v,
        prev,
    )->Some_0.0[g.regs@[r].out as int] == g.regs@[r].reset_val as int by {
        assert(g.reg_wf(r));
        assert(edge_rises(g, prev, s, d));
    }
}

/// A settled fixpoint keeps every value in range.
pub proof fn lemma_settle_wf(g: ModuleGraph, v: Seq<int>, fuel: nat)
    requires
        g.wf(),
        vals_wf(g, v),
        settle_rec(g, v, fuel) is Some,
    ensures
        vals_wf(g, settle_rec(g, v, fuel)->Some_0),
    decreases fuel,
{
    if comb_stable(g, v) {
    } else {
        lemma_pass_wf(g, v);
        lemma_settle_wf(g, comb_pass(g, v), (fuel - 1) as nat);
    }
}

/// A pass keeps every value in range: untouched slots were in range, and
/// written slots hold truncated values.
pub proof fn lemma_pass_wf(g: ModuleGraph, v: Seq<int>)
    requires
        g.wf(),
        vals_wf(g, v),
    ensures
        vals_wf(g, comb_pass(g, v)),
{
    let n = g.rules@.len() as int;
    lemma_pass_char(g, v, n);
    assert forall|i: int| 0 <= i < comb_pass(g, v).len() implies in_range(
        #[trigger] comb_pass(g, v)[i],
        g.signals@[i].width,
        g.signals@[i].sign,
    ) by {
        if exists|r: int| 0 <= r < n && #[trigger] g.rules@[r].target == i {
            let r = choose|r: int| 0 <= r < n && #[trigger] g.rules@[r].target == i;
            assert(g.rule_wf(r));
            crate::value::lemma_trunc_in_range(
                eval(g.rules@[r].expr, v),
                g.signals@[i].width,
                g.signals@[i].sign,
            );
        }
    }
}

/// The committed vector keeps every value in range.
pub proof fn lemma_commit_wf(g: ModuleGraph, v: Seq<int>, prev: Seq<bool>)
    requires
        g.wf(),
        vals_wf(g, v),
    ensures
        vals_wf(g, commit_regs(g, v, prev)),
{
    let n = g.regs@.len() as int;
    lemma_commit_char(g, v, prev, n);
    assert forall|i: int| 0 <= i < commit_regs(g, v, prev).len() implies in_range(
        #[trigger] commit_regs(g, v, prev)[i],
        g.signals@[i].width,
        g.signals@[i].sign,
    ) by {
        if exists|r: int| 0 <= r < n && #[trigger] g.regs@[r].out == i {
            let r = choose|r: int| 0 <= r < n && #[trigger] g.regs@[r].out == i;
            assert(g.reg_wf(r));
        }
    }
}

/// Two value vectors whose integer readings agree are equal.
proof fn lemma_int_seq_inj(a: Seq<i64>, b: Seq<i64>)
    requires
        int_seq(a) == int_seq(b),
        a.len() == b.len(),
    ensures
        a == b,
{
    assert forall|i: int| 0 <= i < a.len() implies a[i] == b[i] by {
        assert(int_seq(a)[i] == a[i] as int);
        assert(int_seq(b)[i] == b[i] as int);
    }
    assert(a =~= b);
}

/// Copies a value vector.
fn copy_vals(v: &Vec<i64>) -> (r: Vec<i64>)
    ensures
        r@ == v@,
{
    let mut r: Vec<i64> = Vec::new();
    let mut i: usize = 0;
    while i < v.len()
        invariant
            i <= v@.len(),
            r@ == v@.subrange(0, i as int),
        decreases v@.len() - i,
    {
        r.push(v[i]);
        i = i + 1;
    }
    proof {
        assert(r@ =~= v@);
    }
    r
}

/// Whether two value vectors are equal.
fn vals_eq(a: &Vec<i64>, b: &Vec<i64>) -> (r: bool)
    requires
        a@.len() == b@.len(),
    ensures
        r == (a@ == b@),
{
    let mut i: usize = 0;
    while i < a.len()
        invariant
            i <= a@.len() == b@.len(),
            forall|j: int| 0 <= j < i ==> a@[j] == b@[j],
        decreases a@.len() - i,
    {
        if a[i] != b[i] {
            return false;
        }
        i = i + 1;
    }
    proof {
        assert(a@ =~= b@);
    }
    true
}

/// One executable Jacobi pass.
fn pass_exec(g: &ModuleGraph, v: &Vec<i64>) -> (r: Vec<i64>)
    requires
        g.wf(),
        vals_wf(*g, int_seq(v@)),
    ensures
        int_seq(r@) == comb_pass(*g, int_seq(v@)),
        r@.len() == v@.len(),
{
    proof {
        lemma_vals_meet_caps(*g, int_seq(v@));
    }
    let mut out = copy_vals(v);
    let mut r: usize = 0;
    while r < g.rules.len()
        invariant
            g.wf(),
            vals_wf(*g, int_seq(v@)),
            r <= g.rules@.len(),
            out@.len() == v@.len(),
            int_seq(out@) == pass_upto(*g, int_seq(v@), r as int),
            forall|i: int|
                0 <= i < v@.len() ==> -(g.sig_caps()[i] as int) <= #[trigger] (int_seq(v@)[i])
                    <= g.sig_caps()[i],
        decreases g.rules@.len() - r,
    {
        let ghost out_before = out@;
        let target = g.rules[r].target;
        proof {
            assert(g.rule_wf(r as int));
            assert forall|i: int| 0 <= i < v@.len() implies -(g.sig_caps()[i] as int) <= #[trigger] (
            v@[i] as int) <= g.sig_caps()[i] by {
                assert(int_seq(v@)[i] == v@[i] as int);
            }
        }
        let x = eval_expr(&g.rules[r].expr, v, Ghost(g.sig_caps()));
        let w = g.signals[target].width;
        let sgn = g.signals[target].sign;
        let t = trunc_i128(x, w, sgn);
        out.set(target, t);
        proof {
            assert(int_seq(out@) =~= pass_upto(*g, int_seq(v@), r + 1));
        }
        r = r + 1;
    }
    out
}

/// Runs the combinational phase to a fixpoint.  `None` reports divergence:
/// the rules did not settle within the iteration bound.
pub fn comb_eval(g: &ModuleGraph, v: &Vec<i64>) -> (r: Option<Vec<i64>>)
    requires
        g.wf(),
        vals_wf(*g, int_seq(v@)),
    ensures
        match r {
            Some(s) => comb_fixpoint(*g, int_seq(v@)) == Some(int_seq(s@)) && vals_wf(
                *g,
                int_seq(s@),
            ),
            None => comb_fixpoint(*g, int_seq(v@)) is None,
        },
{
    let mut cur = copy_vals(v);
    let mut fuel: usize = g.rules.len();
    loop
        invariant
            g.wf(),
            vals_wf(*g, int_seq(cur@)),
            comb_fixpoint(*g, int_seq(v@)) == settle_rec(*g, int_seq(cur@), fuel as nat),
        decreases fuel,
    {
        let nxt = pass_exec(g, &cur);
        if vals_eq(&nxt, &cur) {
            proof {
                lemma_stable_iff_fixed(*g, int_seq(cur@));
                assert(comb_stable(*g, int_seq(cur@)));
            }
            return Some(cur);
        }
        proof {
            lemma_stable_iff_fixed(*g, int_seq(cur@));
            if comb_stable(*g, int_seq(cur@)) {
                lemma_int_seq_inj(nxt@, cur@);
                assert(false);
            }
        }
        if fuel == 0 {
            return None;
        }
        proof {
            lemma_pass_wf(*g, int_seq(cur@));
        }
        cur = nxt;
        fuel = fuel - 1;
    }
}

/// Runs the commit phase over a settled vector.
fn commit_exec(g: &ModuleGraph, v: &Vec<i64>, prev: &Vec<bool>) -> (r: Vec<i64>)
    requires
        g.wf(),
        vals_wf(*g, int_seq(v@)),
        prev@.len() == g.domains@.len(),
    ensures
        int_seq(r@) == commit_regs(*g, int_seq(v@), prev@),
        r@.len() == v@.len(),
{
    let mut out = copy_vals(v);
    let mut r: usize = 0;
    while r < g.regs.len()
        invariant
            g.wf(),
            vals_wf(*g, int_seq(v@)),
            prev@.len() == g.domains@.len(),
            r <= g.regs@.len(),
            out@.len() == v@.len(),
            int_seq(out@) == commit_upto(*g, int_seq(v@), prev@, r as int),
        decreases g.regs@.len() - r,
    {
        proof {
            assert(g.reg_wf(r as int));
            assert(g.domain_wf(g.regs@[r as int].domain as int));
        }
        let rg_out = g.regs[r].out;
        let rg_driver = g.regs[r].driver;
        let rg_domain = g.regs[r].domain;
        let rg_reset_val = g.regs[r].reset_val;
        let clock_sig = g.domains[rg_domain].clock;
        let reset_sig = g.domains[rg_domain].reset;
        let edge = !prev[rg_domain] && v[clock_sig] != 0;
        if edge {
            let nv = if v[reset_sig] != 0 {
                rg_reset_val
            } else {
                v[rg_driver]
            };
            out.set(rg_out, nv);
        }
        proof {
            assert(int_seq(out@) =~= commit_upto(*g, int_seq(v@), prev@, r + 1));
        }
        r = r + 1;
    }
    out
}

/// Samples the settled clock levels for the next tick's edge detection.
fn clocks_exec(g: &ModuleGraph, v: &Vec<i64>) -> (r: Vec<bool>)
    requires
        g.wf(),
        v@.len() == g.signals@.len(),
    ensures
        r@ == clocks_after(*g, int_seq(v@)),
{
    let mut out: Vec<bool> = Vec::new();
    let mut d: usize = 0;
    while d < g.domains.len()
        invariant
            g.wf(),
            v@.len() == g.signals@.len(),
            d <= g.domains@.len(),
            out@.len() == d,
            forall|j: int| 0 <= j < d ==> #[trigger] out@[j] == (int_seq(v@)[g.domains@[j].clock as int] != 0),
        decreases g.domains@.len() - d,
    {
        proof {
            assert(g.domain_wf(d as int));
        }
        out.push(v[g.domains[d].clock] != 0);
        d = d + 1;
    }
    proof {
        assert(out@ =~= clocks_after(*g, int_seq(v@)));
    }
    out
}

/// One scheduler tick: combinational phase, then batch register commit.
/// `None` reports combinational divergence; the caller attaches the tick.
pub fn step_exec(g: &ModuleGraph, v: &Vec<i64>, prev: &Vec<bool>) -> (r: Option<
    (Vec<i64>, Vec<bool>),
>)
    requires
        g.wf(),
        vals_wf(*g, int_seq(v@)),
        prev@.len() == g.domains@.len(),
    ensures
        match r {
            Some(s) => {
                &&& step_spec(*g, int_seq(v@), prev@) == Some((int_seq(s.0@), s.1@))
                &&& vals_wf(*g, int_seq(s.0@))
                &&& s.1@.len() == g.domains@.len()
            },
            None => step_spec(*g, int_seq(v@), prev@) is None,
        },
{
    match comb_eval(g, v) {
        None => None,
        Some(settled) => {
            let committed = commit_exec(g, &settled, prev);
            let clocks = clocks_exec(g, &settled);
            proof {
                lemma_commit_wf(*g, int_seq(settled@), prev@);
            }
            Some((committed, clocks))
        },
    }
}

} // verus!
