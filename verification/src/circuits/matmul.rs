//! A combinational 2x2 matrix multiplier over signed 4-bit entries: four
//! multiply-accumulate rules compute the standard product formula into
//! 32-bit outputs in a single tick, and a reset input forces the outputs to
//! zero.

use crate::expr::{eval, Expr};
use crate::graph::{Dir, ModuleGraph};
use crate::sched::{lemma_single_layer_step, single_layer, step_spec};
use crate::sim::{apply_stim, run_spec, stim_entry_ok, stim_ok, zero_vals, CycleSim, RunSpec};
use crate::value::{in_range, Signedness};
use vstd::pervasive::unreached;
use vstd::prelude::*;

verus! {

/// A gated multiply-accumulate: `if rst { 0 } else { sa * sb + sc * sd }`.
pub open spec fn mac_expr(rst: usize, sa: usize, sb: usize, sc: usize, sd: usize) -> Expr {
    Expr::Mux(
        Box::new(Expr::Sig(rst)),
        Box::new(Expr::Const(0)),
        Box::new(
            Expr::Add(
                Box::new(Expr::Mul(Box::new(Expr::Sig(sa)), Box::new(Expr::Sig(sb)))),
                Box::new(Expr::Mul(Box::new(Expr::Sig(sc)), Box::new(Expr::Sig(sd)))),
            ),
        ),
    )
}

/// Builds `mac_expr`.
fn mk_mac_expr(rst: usize, sa: usize, sb: usize, sc: usize, sd: usize) -> (e: Expr)
    ensures
        e == mac_expr(rst, sa, sb, sc, sd),
{
    Expr::Mux(
        Box::new(Expr::Sig(rst)),
        Box::new(Expr::Const(0)),
        Box::new(
            Expr::Add(
                Box::new(Expr::Mul(Box::new(Expr::Sig(sa)), Box::new(Expr::Sig(sb)))),
                Box::new(Expr::Mul(Box::new(Expr::Sig(sc)), Box::new(Expr::Sig(sd)))),
            ),
        ),
    )
}

/// `mac_expr` evaluates to the gated multiply-accumulate.
proof fn lemma_mac_expr_eval(rst: usize, sa: usize, sb: usize, sc: usize, sd: usize, v: Seq<int>)
    requires
        rst < v.len(),
        sa < v.len(),
        sb < v.len(),
        sc < v.len(),
        sd < v.len(),
    ensures
        eval(mac_expr(rst, sa, sb, sc, sd), v) == (if v[rst as int] != 0 {
            0
        } else {
            v[sa as int] * v[sb as int] + v[sc as int] * v[sd as int]
        }),
{
    reveal_with_fuel(eval, 8);
}

/// A gated multiply-accumulate rule is in shape for any declared sources.
proof fn lemma_mac_shape(g: ModuleGraph, t: int, rst: usize, sa: usize, sb: usize, sc: usize, sd: usize)
    requires
        g.wf(),
        rst < g.signals@.len(),
        sa < g.signals@.len(),
        sb < g.signals@.len(),
        sc < g.signals@.len(),
        sd < g.signals@.len(),
        0 <= t < g.signals@.len(),
    ensures
        g.rule_shape_ok(t, mac_expr(rst, sa, sb, sc, sd)) == (g.signals@[t].dir != Dir::Input),
{
    reveal_with_fuel(crate::expr::eval_bound, 8);
    reveal_with_fuel(crate::expr::expr_safe, 8);
    reveal_with_fuel(crate::expr::sigs_below, 8);
    g.lemma_caps_bounded();
    crate::expr::lemma_eval_cap();
    vstd::arithmetic::power2::lemma_pow2_strictly_increases(62, 125);
    vstd::arithmetic::power2::lemma_pow2_strictly_increases(125, 126);
    vstd::arithmetic::power2::lemma_pow2_adds(62, 62);
    vstd::arithmetic::power2::lemma_pow2_adds(124, 1);
    vstd::arithmetic::power2::lemma2_to64();
    let caps = g.sig_caps();
    assert(caps[sa as int] * caps[sb as int] <= pow2_62_sq()) by (nonlinear_arith)
        requires
            caps[sa as int] <= vstd::arithmetic::power2::pow2(62),
            caps[sb as int] <= vstd::arithmetic::power2::pow2(62),
            pow2_62_sq() == vstd::arithmetic::power2::pow2(62) * vstd::arithmetic::power2::pow2(62),
    ;
    assert(caps[sc as int] * caps[sd as int] <= pow2_62_sq()) by (nonlinear_arith)
        requires
            caps[sc as int] <= vstd::arithmetic::power2::pow2(62),
            caps[sd as int] <= vstd::arithmetic::power2::pow2(62),
            pow2_62_sq() == vstd::arithmetic::power2::pow2(62) * vstd::arithmetic::power2::pow2(62),
    ;
    assert(vstd::arithmetic::power2::pow2(124) == pow2_62_sq());
    assert(vstd::arithmetic::power2::pow2(125) == 2 * vstd::arithmetic::power2::pow2(124)) by {
        vstd::arithmetic::power2::lemma_pow2_adds(124, 1);
    }
}

/// `2^62 * 2^62`, named so the nonlinear goals stay linear elsewhere.
pub open spec fn pow2_62_sq() -> nat {
    vstd::arithmetic::power2::pow2(62) * vstd::arithmetic::power2::pow2(62)
}

/// The multiplier's port indices: `a` entries at `1..5`, `b` entries at
/// `5..9`, results at `9..13`.
pub struct MatmulPorts {
    pub rst: usize,
    pub a: usize,
    pub b: usize,
    pub result: usize,
}

/// Builds the combinational 2x2 matrix multiplier.
pub fn build_matmul() -> (r: (ModuleGraph, MatmulPorts))
    ensures
        r.0.wf(),
        single_layer(r.0),
        r.1.rst == 0 && r.1.a == 1 && r.1.b == 5 && r.1.result == 9,
        r.0.signals@.len() == 13,
        r.0.signals@[0].width == 1 && r.0.signals@[0].sign == Signedness::Unsigned
            && r.0.signals@[0].dir == Dir::Input,
        r.0.signals@[1].width == 4 && r.0.signals@[1].sign == Signedness::Signed
            && r.0.signals@[1].dir == Dir::Input,
        r.0.signals@[2].width == 4 && r.0.signals@[2].sign == Signedness::Signed
            && r.0.signals@[2].dir == Dir::Input,
        r.0.signals@[3].width == 4 && r.0.signals@[3].sign == Signedness::Signed
            && r.0.signals@[3].dir == Dir::Input,
        r.0.signals@[4].width == 4 && r.0.signals@[4].sign == Signedness::Signed
            && r.0.signals@[4].dir == Dir::Input,
        r.0.signals@[5].width == 4 && r.0.signals@[5].sign == Signedness::Signed
            && r.0.signals@[5].dir == Dir::Input,
        r.0.signals@[6].width == 4 && r.0.signals@[6].sign == Signedness::Signed
            && r.0.signals@[6].dir == Dir::Input,
        r.0.signals@[7].width == 4 && r.0.signals@[7].sign == Signedness::Signed
            && r.0.signals@[7].dir == Dir::Input,
        r.0.signals@[8].width == 4 && r.0.signals@[8].sign == Signedness::Signed
            && r.0.signals@[8].dir == Dir::Input,
        r.0.signals@[9].width == 32 && r.0.signals@[9].sign == Signedness::Signed
            && r.0.signals@[9].dir == Dir::Output,
        r.0.signals@[10].width == 32 && r.0.signals@[10].sign == Signedness::Signed
            && r.0.signals@[10].dir == Dir::Output,
        r.0.signals@[11].width == 32 && r.0.signals@[11].sign == Signedness::Signed
            && r.0.signals@[11].dir == Dir::Output,
        r.0.signals@[12].width == 32 && r.0.signals@[12].sign == Signedness::Signed
            && r.0.signals@[12].dir == Dir::Output,
        r.0.domains@.len() == 0,
        r.0.regs@.len() == 0,
        r.0.rules@.len() == 4,
        r.0.rules@[0].target == 9 && r.0.rules@[0].expr == mac_expr(0, 1, 5, 2, 7),
        r.0.rules@[1].target == 10 && r.0.rules@[1].expr == mac_expr(0, 1, 6, 2, 8),
        r.0.rules@[2].target == 11 && r.0.rules@[2].expr == mac_expr(0, 3, 5, 4, 7),
        r.0.rules@[3].target == 12 && r.0.rules@[3].expr == mac_expr(0, 3, 6, 4, 8),
{
    let mut g = ModuleGraph::new(String::from_str("multiplicacion_matrices"));
    let rst = g.signal(String::from_str("rst"), 1, Signedness::Unsigned, Dir::Input);
    let a0 = g.signal(String::from_str("a$0"), 4, Signedness::Signed, Dir::Input);
    let a1 = g.signal(String::from_str("a$1"), 4, Signedness::Signed, Dir::Input);
    let a2 = g.signal(String::from_str("a$2"), 4, Signedness::Signed, Dir::Input);
    let a3 = g.signal(String::from_str("a$3"), 4, Signedness::Signed, Dir::Input);
    let b0 = g.signal(String::from_str("b$0"), 4, Signedness::Signed, Dir::Input);
    let b1 = g.signal(String::from_str("b$1"), 4, Signedness::Signed, Dir::Input);
    let b2 = g.signal(String::from_str("b$2"), 4, Signedness::Signed, Dir::Input);
    let b3 = g.signal(String::from_str("b$3"), 4, Signedness::Signed, Dir::Input);
    let r0 = g.signal(String::from_str("result$0"), 32, Signedness::Signed, Dir::Output);
    let r1 = g.signal(String::from_str("result$1"), 32, Signedness::Signed, Dir::Output);
    let r2 = g.signal(String::from_str("result$2"), 32, Signedness::Signed, Dir::Output);
    let r3 = g.signal(String::from_str("result$3"), 32, Signedness::Signed, Dir::Output);
    proof {
        lemma_mac_shape(g, 9, 0, 1, 5, 2, 7);
        lemma_mac_shape(g, 10, 0, 1, 6, 2, 8);
        lemma_mac_shape(g, 11, 0, 3, 5, 4, 7);
        lemma_mac_shape(g, 12, 0, 3, 6, 4, 8);
    }
    g.rule(r0, mk_mac_expr(rst, a0, b0, a1, b2));
    g.rule(r1, mk_mac_expr(rst, a0, b1, a1, b3));
    g.rule(r2, mk_mac_expr(rst, a2, b0, a3, b2));
    g.rule(r3, mk_mac_expr(rst, a2, b1, a3, b3));
    proof {
        reveal_with_fuel(crate::expr::reads_sig, 8);
        assert forall|q1: int, q2: int|
            0 <= q1 < g.rules@.len() && 0 <= q2 < g.rules@.len() implies !crate::expr::reads_sig(
            #[trigger] g.rules@[q1].expr,
            #[trigger] g.rules@[q2].target as int,
        ) by {
            let t = g.rules@[q2].target as int;
            assert(t == 9 || t == 10 || t == 11 || t == 12);
        }
    }
    (g, MatmulPorts { rst, a: 1, b: 5, result: 9 })
}

/// Runs the multiplier for one tick on two 2x2 matrices (entries row-major)
/// and returns the committed product matrix.
///
/// For all in-range 4-bit signed entries, the committed outputs equal the
/// standard matrix-product formula evaluated exactly: the 32-bit outputs are
/// wide enough that no truncation occurs.
pub fn matmul_product(a: &Vec<i64>, b: &Vec<i64>) -> (r: (i64, i64, i64, i64))
    requires
        a@.len() == 4,
        b@.len() == 4,
        forall|k: int| 0 <= k < 4 ==> in_range((#[trigger] a@[k]) as int, 4, Signedness::Signed),
        forall|k: int| 0 <= k < 4 ==> in_range((#[trigger] b@[k]) as int, 4, Signedness::Signed),
    ensures
        r.0 as int == a@[0] * b@[0] + a@[1] * b@[2],
        r.1 as int == a@[0] * b@[1] + a@[1] * b@[3],
        r.2 as int == a@[2] * b@[0] + a@[3] * b@[2],
        r.3 as int == a@[2] * b@[1] + a@[3] * b@[3],
{
    let (g, ports) = build_matmul();
    let ghost g0 = g;
    let mut sim = CycleSim::new(g);
    let stim: Vec<(usize, i64)> = vec![
        (0usize, 0i64),
        (1usize, a[0]),
        (2usize, a[1]),
        (3usize, a[2]),
        (4usize, a[3]),
        (5usize, b[0]),
        (6usize, b[1]),
        (7usize, b[2]),
        (8usize, b[3]),
    ];
    let ghost v0 = apply_stim(g0, zero_vals(g0), stim@, 9);
    proof {
        vstd::arithmetic::power2::lemma2_to64();
        reveal_with_fuel(apply_stim, 11);
        assert(stim@[0] == (0usize, 0i64) && stim@[1] == (1usize, a@[0]) && stim@[2] == (
        2usize,
        a@[1],
        ) && stim@[3] == (3usize, a@[2]) && stim@[4] == (4usize, a@[3]) && stim@[5] == (
        5usize,
        b@[0],
        ) && stim@[6] == (6usize, b@[1]) && stim@[7] == (7usize, b@[2]) && stim@[8] == (
        8usize,
        b@[3],
        ));
        assert(v0.len() == 13 && v0[0] == 0 && v0[1] == a@[0] && v0[2] == a@[1] && v0[3] == a@[2]
            && v0[4] == a@[3] && v0[5] == b@[0] && v0[6] == b@[1] && v0[7] == b@[2] && v0[8]
            == b@[3]);
        crate::sched::lemma_single_layer_fixpoint(g0, v0);
        lemma_single_layer_step(g0, v0, sim.prev@);
        let stx = step_spec(g0, v0, sim.prev@)->Some_0;
        lemma_mac_expr_eval(0, 1, 5, 2, 7, v0);
        lemma_mac_expr_eval(0, 1, 6, 2, 8, v0);
        lemma_mac_expr_eval(0, 3, 5, 4, 7, v0);
        lemma_mac_expr_eval(0, 3, 6, 4, 8, v0);
        lemma_small_mac_in_range(v0[1], v0[5], v0[2], v0[7]);
        lemma_small_mac_in_range(v0[1], v0[6], v0[2], v0[8]);
        lemma_small_mac_in_range(v0[3], v0[5], v0[4], v0[7]);
        lemma_small_mac_in_range(v0[3], v0[6], v0[4], v0[8]);
        assert(stx.0[9] == v0[1] * v0[5] + v0[2] * v0[7]) by {
            assert(g0.rules@[0].target == 9);
        }
        assert(stx.0[10] == v0[1] * v0[6] + v0[2] * v0[8]) by {
            assert(g0.rules@[1].target == 10);
        }
        assert(stx.0[11] == v0[3] * v0[5] + v0[4] * v0[7]) by {
            assert(g0.rules@[2].target == 11);
        }
        assert(stx.0[12] == v0[3] * v0[6] + v0[4] * v0[8]) by {
            assert(g0.rules@[3].target == 12);
        }
        assert(stim_ok(g0, stim@)) by {
            assert(stim_entry_ok(g0, stim@[0]));
            assert(stim_entry_ok(g0, stim@[1]));
            assert(stim_entry_ok(g0, stim@[2]));
            assert(stim_entry_ok(g0, stim@[3]));
            assert(stim_entry_ok(g0, stim@[4]));
            assert(stim_entry_ok(g0, stim@[5]));
            assert(stim_entry_ok(g0, stim@[6]));
            assert(stim_entry_ok(g0, stim@[7]));
            assert(stim_entry_ok(g0, stim@[8]));
            assert forall|k: int| 0 <= k < stim@.len() implies stim_entry_ok(
                g0,
                #[trigger] stim@[k],
            ) by {
                assert(k == 0 || k == 1 || k == 2 || k == 3 || k == 4 || k == 5 || k == 6 || k == 7
                    || k == 8);
            }
        }
        reveal_with_fuel(run_spec, 3);
        assert(run_spec(g0, v0, sim.prev@, 0, 1) matches RunSpec::Done { v, .. } && v == stx.0);
    }
    match sim.wait(1, &stim) {
        Ok(()) => {},
        Err(_) => {
            return unreached();
        },
    }
    let r0 = sim.read(9);
    let r1 = sim.read(10);
    let r2 = sim.read(11);
    let r3 = sim.read(12);
    (r0, r1, r2, r3)
}

/// A multiply-accumulate of 4-bit signed values fits a 32-bit signed signal,
/// so its truncation is the identity.
proof fn lemma_small_mac_in_range(x: int, y: int, z: int, w: int)
    requires
        in_range(x, 4, Signedness::Signed),
        in_range(y, 4, Signedness::Signed),
        in_range(z, 4, Signedness::Signed),
        in_range(w, 4, Signedness::Signed),
    ensures
        in_range(x * y + z * w, 32, Signedness::Signed),
        crate::value::trunc_val(x * y + z * w, 32, Signedness::Signed) == x * y + z * w,
{
    vstd::arithmetic::power2::lemma2_to64();
    assert(-64 <= x * y <= 64) by (nonlinear_arith)
        requires
            -8 <= x <= 8,
            -8 <= y <= 8,
    ;
    assert(-64 <= z * w <= 64) by (nonlinear_arith)
        requires
            -8 <= z <= 8,
            -8 <= w <= 8,
    ;
    crate::value::lemma_trunc_id(x * y + z * w, 32, Signedness::Signed);
}

} // verus!
