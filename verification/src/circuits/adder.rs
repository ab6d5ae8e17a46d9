//! A dedicated signed adder: two `w`-bit signed inputs, one `w+1`-bit signed
//! output, one combinational rule.  With the output a bit wider than the
//! inputs, the committed sum is the mathematically exact sum: no overflow
//! loss.

use crate::expr::{eval, Expr};
use crate::graph::{Dir, ModuleGraph};
use crate::sched::{lemma_single_layer_step, single_layer, step_spec};
use crate::sim::{apply_stim, run_spec, stim_entry_ok, stim_ok, zero_vals, CycleSim, RunSpec};
use crate::value::{in_range, lemma_trunc_id, Signedness};
use vstd::arithmetic::power2::{lemma_pow2_adds, lemma_pow2_pos, pow2};
use vstd::pervasive::unreached;
use vstd::prelude::*;

verus! {

/// The adder's port indices: `a` and `b` are the inputs, `sum` the output.
pub struct AdderPorts {
    pub a: usize,
    pub b: usize,
    pub sum: usize,
}

/// Builds a `w`-bit signed adder with a `w+1`-bit output.
pub fn build_adder(w: u32) -> (r: (ModuleGraph, AdderPorts))
    requires
        1 <= w <= 61,
    ensures
        r.0.wf(),
        single_layer(r.0),
        r.1.a == 0 && r.1.b == 1 && r.1.sum == 2,
        r.0.signals@.len() == 3,
        r.0.signals@[0].width == w && r.0.signals@[0].sign == Signedness::Signed
            && r.0.signals@[0].dir == Dir::Input,
        r.0.signals@[1].width == w && r.0.signals@[1].sign == Signedness::Signed
            && r.0.signals@[1].dir == Dir::Input,
        r.0.signals@[2].width == w + 1 && r.0.signals@[2].sign == Signedness::Signed
            && r.0.signals@[2].dir == Dir::Output,
        r.0.rules@.len() == 1,
        r.0.rules@[0].target == 2,
        r.0.rules@[0].expr == Expr::Add(Box::new(Expr::Sig(0)), Box::new(Expr::Sig(1))),
        r.0.regs@.len() == 0,
        r.0.domains@.len() == 0,
{
    let mut g = ModuleGraph::new(String::from_str("adder"));
    let a = match g.add_signal(String::from_str("a"), w, Signedness::Signed, Dir::Input) {
        Ok(i) => i,
        Err(_) => unreached(),
    };
    let b = match g.add_signal(String::from_str("b"), w, Signedness::Signed, Dir::Input) {
        Ok(i) => i,
        Err(_) => unreached(),
    };
    let sum = match g.add_signal(String::from_str("sum"), w + 1, Signedness::Signed, Dir::Output) {
        Ok(i) => i,
        Err(_) => unreached(),
    };
    let e = Expr::Add(Box::new(Expr::Sig(a)), Box::new(Expr::Sig(b)));
    proof {
        lemma_adder_rule_fits(g, w);
    }
    match g.add_rule(sum, e) {
        Ok(()) => {},
        Err(_) => unreached(),
    }
    proof {
        let ae = Expr::Add(Box::new(Expr::Sig(0)), Box::new(Expr::Sig(1)));
        assert forall|r1: int, r2: int|
            0 <= r1 < g.rules@.len() && 0 <= r2 < g.rules@.len() implies !crate::expr::reads_sig(
            #[trigger] g.rules@[r1].expr,
            #[trigger] g.rules@[r2].target as int,
        ) by {
            reveal_with_fuel(crate::expr::reads_sig, 3);
            assert(g.rules@[r1].expr == ae);
            assert(g.rules@[r2].target == 2);
            assert(!crate::expr::reads_sig(ae, 2));
        }
    }
    (g, AdderPorts { a, b, sum })
}

/// The adder's one rule is in shape: its expression reads declared signals
/// and its bound, `2^w + 2^w`, is far below the evaluator's cap.
proof fn lemma_adder_rule_fits(g: ModuleGraph, w: u32)
    requires
        g.signals@.len() == 3,
        g.signals@[0].width == w,
        g.signals@[1].width == w,
        1 <= w <= 61,
    ensures
        g.rule_shape_ok(2, Expr::Add(Box::new(Expr::Sig(0)), Box::new(Expr::Sig(1)))) == (
        g.signals@[2].dir != Dir::Input),
{
    let e = Expr::Add(Box::new(Expr::Sig(0)), Box::new(Expr::Sig(1)));
    reveal_with_fuel(crate::expr::eval_bound, 3);
    reveal_with_fuel(crate::expr::expr_safe, 3);
    reveal_with_fuel(crate::expr::sigs_below, 3);
    crate::expr::lemma_eval_cap();
    vstd::arithmetic::power2::lemma2_to64();
    vstd::arithmetic::power2::lemma2_to64_rest();
    if (w as nat) < 62 {
        vstd::arithmetic::power2::lemma_pow2_strictly_increases(w as nat, 62);
    }
    assert(g.sig_caps().len() == 3);
    assert(g.sig_caps()[0] == pow2(g.signals@[0].width as nat));
    assert(g.sig_caps()[1] == pow2(g.signals@[1].width as nat));
    assert(crate::expr::eval_bound(e, g.sig_caps()) == pow2(w as nat) + pow2(w as nat));
    assert(crate::expr::expr_safe(e, g.sig_caps()));
}

/// Runs the adder for one tick on the given inputs and returns the committed
/// sum.
///
/// For all valid `w`-bit signed values `a` and `b`, the committed sum equals
/// the mathematically exact `a + b`: the output is one bit wider than the
/// inputs, so no overflow loss occurs.
pub fn adder_sum(w: u32, a: i64, b: i64) -> (r: i64)
    requires
        1 <= w <= 61,
        in_range(a as int, w, Signedness::Signed),
        in_range(b as int, w, Signedness::Signed),
    ensures
        r as int == a + b,
{
    let (g, ports) = build_adder(w);
    let ghost g0 = g;
    let mut sim = CycleSim::new(g);
    let stim: Vec<(usize, i64)> = vec![(ports.a, a), (ports.b, b)];
    proof {
        lemma_pow2_pos((w - 1) as nat);
        lemma_pow2_adds((w - 1) as nat, 1);
        lemma_pow2_adds(w as nat, 1);
        vstd::arithmetic::power2::lemma2_to64();
    }
    let ghost v0 = apply_stim(g0, zero_vals(g0), stim@, 2);
    proof {
        reveal_with_fuel(apply_stim, 4);
        reveal_with_fuel(crate::expr::eval, 3);
        assert(stim@.len() == 2 && stim@[0] == (0usize, a) && stim@[1] == (1usize, b));
        assert(zero_vals(g0).len() == 3);
        assert(v0.len() == 3);
        lemma_single_layer_step(g0, v0, sim.prev@);
        let s2 = step_spec(g0, v0, sim.prev@)->Some_0;
        assert(g0.rule_drives(2)) by {
            assert(g0.rules@[0].target == 2);
        }
        assert(!g0.rule_drives(0) && !g0.rule_drives(1)) by {
            assert forall|r: int| 0 <= r < g0.rules@.len() implies #[trigger] g0.rules@[r].target
                != 0 && g0.rules@[r].target != 1 by {}
        }
        assert(!g0.reg_drives(0) && !g0.reg_drives(1) && !g0.reg_drives(2));
        assert(v0[0] == a && v0[1] == b && v0.len() == 3);
        assert(eval(g0.rules@[0].expr, v0) == a + b);
        assert(in_range(a + b, (w + 1) as u32, Signedness::Signed));
        lemma_trunc_id(a + b, (w + 1) as u32, Signedness::Signed);
        assert(s2.0[2] == a + b);
        // The stimulus addresses the two declared inputs with in-range
        // values, and one tick of this rule set cannot diverge.
        assert(stim_ok(g0, stim@)) by {
            assert(stim_entry_ok(g0, stim@[0]));
            assert(stim_entry_ok(g0, stim@[1]));
            assert forall|k: int| 0 <= k < stim@.len() implies stim_entry_ok(
                g0,
                #[trigger] stim@[k],
            ) by {
                assert(k == 0 || k == 1);
            }
        }
        reveal_with_fuel(run_spec, 3);
        assert(run_spec(g0, v0, sim.prev@, 0, 1) matches RunSpec::Done { v, .. } && v == s2.0);
    }
    match sim.wait(1, &stim) {
        Ok(()) => {},
        Err(_) => {
            return unreached();
        },
    }
    sim.read(ports.sum)
}

} // verus!
