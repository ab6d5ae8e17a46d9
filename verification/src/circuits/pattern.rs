//! A finite-state pattern detector over a bitstream, watching for the
//! subsequence `1,0,1,1`.  The state is the length of the longest suffix of
//! the consumed stream that is a prefix of the pattern, so overlapping
//! occurrences are detected: the output rises on exactly the clock cycle
//! after each occurrence completes.

use crate::expr::{eval, int_seq, Expr};
use crate::graph::{Dir, ModuleGraph};
use crate::sched::{single_layer, step_spec, lemma_single_layer_step};
use crate::sim::{apply_stim, run_spec, stim_entry_ok, stim_ok, CycleSim, RunSpec};
use crate::value::{Signedness};
use vstd::pervasive::unreached;
use vstd::prelude::*;

verus! {

/// The pattern under watch, bit by bit: `1,0,1,1`.
pub open spec fn pat_bit(j: int) -> bool {
    j != 1
}

/// The transition function: from the length of the longest pattern prefix
/// that is a suffix of the consumed stream, on reading bit `b`.
pub open spec fn pat_next(q: int, b: bool) -> int {
    if q == 0 {
        if b {
            1
        } else {
            0
        }
    } else if q == 1 {
        if b {
            1
        } else {
            2
        }
    } else if q == 2 {
        if b {
            3
        } else {
            0
        }
    } else if q == 3 {
        if b {
            4
        } else {
            2
        }
    } else {
        // After a full match the suffix `1` is the longest prefix kept.
        if b {
            1
        } else {
            2
        }
    }
}

/// The detector state after consuming a whole stream.
pub open spec fn pat_state(s: Seq<bool>) -> int
    decreases s.len(),
{
    if s.len() == 0 {
        0
    } else {
        pat_next(pat_state(s.drop_last()), s.last())
    }
}

/// Whether the last `q` consumed bits equal the first `q` pattern bits.
pub open spec fn ends_with_prefix(s: Seq<bool>, q: int) -> bool {
    &&& q <= s.len()
    &&& forall|j: int| 0 <= j < q ==> s[s.len() - q + j] == pat_bit(j)
}

/// The state is always the length of a pattern prefix the stream ends with.
pub proof fn lemma_pat_state_inv(s: Seq<bool>)
    ensures
        0 <= pat_state(s) <= 4,
        ends_with_prefix(s, pat_state(s)),
    decreases s.len(),
{
    if s.len() > 0 {
        lemma_pat_state_inv(s.drop_last());
        let q0 = pat_state(s.drop_last());
        let b = s.last();
        assert forall|j: int| 0 <= j < pat_state(s) implies s[s.len() - pat_state(s) + j]
            == pat_bit(j) by {
            let q = pat_state(s);
            if j == q - 1 {
            } else {
                assert(s[s.len() - q + j] == s.drop_last()[s.drop_last().len() - (q - 1) + j]);
            }
        }
    }
}

/// Reading the four pattern bits drives the detector to the accepting state
/// from anywhere: the pattern has no nontrivial self-overlap to lose.
pub proof fn lemma_pat_forced(q: int)
    requires
        0 <= q <= 4,
    ensures
        pat_next(pat_next(pat_next(pat_next(q, true), false), true), true) == 4,
{
}

/// The detector accepts exactly when the consumed stream ends with the
/// pattern: occurrences are reported on completion, overlapping ones
/// included.
pub proof fn lemma_pat_state_accepts(s: Seq<bool>)
    ensures
        (pat_state(s) == 4) == (s.len() >= 4 && ends_with_prefix(s, 4)),
{
    lemma_pat_state_inv(s);
    if s.len() >= 4 && ends_with_prefix(s, 4) {
        let s0 = s.drop_last().drop_last().drop_last().drop_last();
        let s1 = s.drop_last().drop_last().drop_last();
        let s2 = s.drop_last().drop_last();
        let s3 = s.drop_last();
        lemma_pat_state_inv(s0);
        assert(s1.last() == pat_bit(0) && s2.last() == pat_bit(1) && s3.last() == pat_bit(2)
            && s.last() == pat_bit(3)) by {
            assert(s1.last() == s[s.len() - 4]);
            assert(s2.last() == s[s.len() - 3]);
            assert(s3.last() == s[s.len() - 2]);
            assert(s.last() == s[s.len() - 1]);
        }
        lemma_pat_forced(pat_state(s0));
        assert(pat_state(s1) == pat_next(pat_state(s0), true));
        assert(pat_state(s2) == pat_next(pat_state(s1), false));
        assert(pat_state(s3) == pat_next(pat_state(s2), true));
        assert(pat_state(s) == pat_next(pat_state(s3), true));
    }
}

/// The match output: low while reset is held, else whether the state
/// register is the accepting one.
pub open spec fn pat_out_expr() -> Expr {
    Expr::Mux(
        Box::new(Expr::Sig(1)),
        Box::new(Expr::Const(0)),
        Box::new(Expr::Eq(Box::new(Expr::Sig(4)), Box::new(Expr::Const(4)))),
    )
}

/// While the reset line is held, the match output settles to zero, whatever
/// the state register holds.
pub proof fn lemma_pattern_reset_output(v: Seq<int>)
    requires
        v.len() == 6,
        v[1] != 0,
    ensures
        eval(pat_out_expr(), v) == 0,
{
    reveal_with_fuel(eval, 4);
}

/// The detector's port indices.
pub struct PatternPorts {
    pub clk: usize,
    pub rst: usize,
    pub entrada: usize,
    pub salida: usize,
    pub state_q: usize,
    pub state_d: usize,
}

/// The next-state expression: a total transition table over the five states,
/// reading the current state register and the input bit.
pub open spec fn pat_next_expr() -> Expr {
    Expr::Mux(
        Box::new(Expr::Eq(Box::new(Expr::Sig(4)), Box::new(Expr::Const(0)))),
        Box::new(Expr::Mux(Box::new(Expr::Sig(2)), Box::new(Expr::Const(1)), Box::new(Expr::Const(0)))),
        Box::new(
            Expr::Mux(
                Box::new(Expr::Eq(Box::new(Expr::Sig(4)), Box::new(Expr::Const(1)))),
                Box::new(
                    Expr::Mux(Box::new(Expr::Sig(2)), Box::new(Expr::Const(1)), Box::new(Expr::Const(2))),
                ),
                Box::new(
                    Expr::Mux(
                        Box::new(Expr::Eq(Box::new(Expr::Sig(4)), Box::new(Expr::Const(2)))),
                        Box::new(
                            Expr::Mux(
                                Box::new(Expr::Sig(2)),
                                Box::new(Expr::Const(3)),
                                Box::new(Expr::Const(0)),
                            ),
                        ),
                        Box::new(
                            Expr::Mux(
                                Box::new(Expr::Eq(Box::new(Expr::Sig(4)), Box::new(Expr::Const(3)))),
                                Box::new(
                                    Expr::Mux(
                                        Box::new(Expr::Sig(2)),
                                        Box::new(Expr::Const(4)),
                                        Box::new(Expr::Const(2)),
                                    ),
                                ),
                                Box::new(
                                    Expr::Mux(
                                        Box::new(Expr::Sig(2)),
                                        Box::new(Expr::Const(1)),
                                        Box::new(Expr::Const(2)),
                                    ),
                                ),
                            ),
                        ),
                    ),
                ),
            ),
        ),
    )
}

/// Over any state vector, the next-state expression computes `pat_next` of
/// the state register and the input bit, as long as the state is in range.
proof fn lemma_pat_next_expr_eval(v: Seq<int>)
    requires
        v.len() == 6,
        0 <= v[4] <= 4,
        v[2] == 0 || v[2] == 1,
    ensures
        eval(pat_next_expr(), v) == pat_next(v[4], v[2] == 1),
{
    reveal_with_fuel(eval, 20);
}

/// Builds the `1,0,1,1` detector: clock and reset lines, the input
/// bitstream, the match output, and a 3-bit state register.
pub fn build_pattern() -> (r: (ModuleGraph, PatternPorts))
    ensures
        r.0.wf(),
        single_layer(r.0),
        r.1.clk == 0 && r.1.rst == 1 && r.1.entrada == 2 && r.1.salida == 3 && r.1.state_q == 4
            && r.1.state_d == 5,
        r.0.signals@.len() == 6,
        r.0.signals@[0].width == 1 && r.0.signals@[0].sign == Signedness::Unsigned
            && r.0.signals@[0].dir == Dir::Input,
        r.0.signals@[1].width == 1 && r.0.signals@[1].sign == Signedness::Unsigned
            && r.0.signals@[1].dir == Dir::Input,
        r.0.signals@[2].width == 1 && r.0.signals@[2].sign == Signedness::Unsigned
            && r.0.signals@[2].dir == Dir::Input,
        r.0.signals@[3].width == 1 && r.0.signals@[3].sign == Signedness::Unsigned
            && r.0.signals@[3].dir == Dir::Output,
        r.0.signals@[4].width == 3 && r.0.signals@[4].sign == Signedness::Unsigned
            && r.0.signals@[4].dir == Dir::Internal,
        r.0.signals@[5].width == 3 && r.0.signals@[5].sign == Signedness::Unsigned
            && r.0.signals@[5].dir == Dir::Internal,
        r.0.domains@.len() == 1,
        r.0.domains@[0].clock == 0 && r.0.domains@[0].reset == 1,
        r.0.regs@.len() == 1,
        r.0.regs@[0].out == 4 && r.0.regs@[0].driver == 5 && r.0.regs@[0].domain == 0
            && r.0.regs@[0].reset_val == 0,
        r.0.rules@.len() == 2,
        r.0.rules@[0].target == 3,
        r.0.rules@[0].expr == pat_out_expr(),
        r.0.rules@[1].target == 5,
        r.0.rules@[1].expr == pat_next_expr(),
{
    let mut g = ModuleGraph::new(String::from_str("reconocedor_patrones"));
    let clk = match g.add_signal(String::from_str("clk"), 1, Signedness::Unsigned, Dir::Input) {
        Ok(i) => i,
        Err(_) => unreached(),
    };
    let rst = match g.add_signal(String::from_str("rst"), 1, Signedness::Unsigned, Dir::Input) {
        Ok(i) => i,
        Err(_) => unreached(),
    };
    let entrada = match g.add_signal(
        String::from_str("entrada"),
        1,
        Signedness::Unsigned,
        Dir::Input,
    ) {
        Ok(i) => i,
        Err(_) => unreached(),
    };
    let salida = match g.add_signal(
        String::from_str("salida"),
        1,
        Signedness::Unsigned,
        Dir::Output,
    ) {
        Ok(i) => i,
        Err(_) => unreached(),
    };
    let state_q = match g.add_signal(
        String::from_str("state"),
        3,
        Signedness::Unsigned,
        Dir::Internal,
    ) {
        Ok(i) => i,
        Err(_) => unreached(),
    };
    let state_d = match g.add_signal(
        String::from_str("state_next"),
        3,
        Signedness::Unsigned,
        Dir::Internal,
    ) {
        Ok(i) => i,
        Err(_) => unreached(),
    };
    let dom = match g.add_clock_domain(clk, rst) {
        Ok(d) => d,
        Err(_) => unreached(),
    };
    match g.add_register(state_q, state_d, dom, 0) {
        Ok(()) => {},
        Err(_) => {
            proof {
                crate::value::lemma_trunc_in_range(0, 3, Signedness::Unsigned);
                crate::value::lemma_trunc_id(0, 3, Signedness::Unsigned);
                vstd::arithmetic::power2::lemma2_to64();
            }
            unreached()
        },
    }
    let out_expr = Expr::Mux(
        Box::new(Expr::Sig(rst)),
        Box::new(Expr::Const(0)),
        Box::new(Expr::Eq(Box::new(Expr::Sig(state_q)), Box::new(Expr::Const(4)))),
    );
    proof {
        lemma_pattern_rules_fit(g);
    }
    match g.add_rule(salida, out_expr) {
        Ok(()) => {},
        Err(_) => unreached(),
    }
    let next_expr = Expr::Mux(
        Box::new(Expr::Eq(Box::new(Expr::Sig(state_q)), Box::new(Expr::Const(0)))),
        Box::new(
            Expr::Mux(Box::new(Expr::Sig(entrada)), Box::new(Expr::Const(1)), Box::new(Expr::Const(0))),
        ),
        Box::new(
            Expr::Mux(
                Box::new(Expr::Eq(Box::new(Expr::Sig(state_q)), Box::new(Expr::Const(1)))),
                Box::new(
                    Expr::Mux(
                        Box::new(Expr::Sig(entrada)),
                        Box::new(Expr::Const(1)),
                        Box::new(Expr::Const(2)),
                    ),
                ),
                Box::new(
                    Expr::Mux(
                        Box::new(Expr::Eq(Box::new(Expr::Sig(state_q)), Box::new(Expr::Const(2)))),
                        Box::new(
                            Expr::Mux(
                                Box::new(Expr::Sig(entrada)),
                                Box::new(Expr::Const(3)),
                                Box::new(Expr::Const(0)),
                            ),
                        ),
                        Box::new(
                            Expr::Mux(
                                Box::new(
                                    Expr::Eq(Box::new(Expr::Sig(state_q)), Box::new(Expr::Const(3))),
                                ),
                                Box::new(
                                    Expr::Mux(
                                        Box::new(Expr::Sig(entrada)),
                                        Box::new(Expr::Const(4)),
                                        Box::new(Expr::Const(2)),
                                    ),
                                ),
                                Box::new(
                                    Expr::Mux(
                                        Box::new(Expr::Sig(entrada)),
                                        Box::new(Expr::Const(1)),
                                        Box::new(Expr::Const(2)),
                                    ),
                                ),
                            ),
                        ),
                    ),
                ),
            ),
        ),
    );
    match g.add_rule(state_d, next_expr) {
        Ok(()) => {},
        Err(_) => unreached(),
    }
    proof {
        reveal_with_fuel(crate::expr::reads_sig, 20);
        assert forall|r1: int, r2: int|
            0 <= r1 < g.rules@.len() && 0 <= r2 < g.rules@.len() implies !crate::expr::reads_sig(
            #[trigger] g.rules@[r1].expr,
            #[trigger] g.rules@[r2].target as int,
        ) by {
            assert(g.rules@[r2].target == 3 || g.rules@[r2].target == 5);
            assert(!crate::expr::reads_sig(g.rules@[0].expr, 3));
            assert(!crate::expr::reads_sig(g.rules@[0].expr, 5));
            assert(!crate::expr::reads_sig(g.rules@[1].expr, 3));
            assert(!crate::expr::reads_sig(g.rules@[1].expr, 5));
        }
    }
    (g, PatternPorts { clk, rst, entrada, salida, state_q, state_d })
}

/// Both detector rules are in shape: small constants and 1- or 3-bit
/// signals, far below the evaluator's cap.
proof fn lemma_pattern_rules_fit(g: ModuleGraph)
    requires
        g.signals@.len() == 6,
        g.signals@[1].width == 1,
        g.signals@[2].width == 1,
        g.signals@[4].width == 3,
    ensures
        g.rule_shape_ok(3, pat_out_expr()) == (g.signals@[3].dir != Dir::Input),
        g.rule_shape_ok(5, pat_next_expr()) == (g.signals@[5].dir != Dir::Input),
{
    reveal_with_fuel(crate::expr::eval_bound, 20);
    reveal_with_fuel(crate::expr::expr_safe, 20);
    reveal_with_fuel(crate::expr::sigs_below, 20);
    crate::expr::lemma_eval_cap();
    vstd::arithmetic::power2::lemma2_to64();
    assert(g.sig_caps().len() == 6);
    assert(g.sig_caps()[1] == pow2_local(g.signals@[1].width));
    assert(g.sig_caps()[2] == pow2_local(g.signals@[2].width));
    assert(g.sig_caps()[4] == pow2_local(g.signals@[4].width));
}

/// The cap of a signal, spelled locally for trigger purposes.
spec fn pow2_local(w: u32) -> nat {
    vstd::arithmetic::power2::pow2(w as nat)
}

/// Feeds the bitstream to the detector, one bit per clock cycle (clock high,
/// then low), and reads the output after each cycle.
///
/// The output after cycle `i` is asserted exactly when the `i + 1` bits
/// consumed so far end with the configured subsequence: the clock cycle
/// immediately after an occurrence completes, overlapping occurrences
/// included.
pub fn pattern_run(bits: &Vec<bool>) -> (outs: Vec<bool>)
    requires
        2 * bits@.len() <= u64::MAX,
    ensures
        outs@.len() == bits@.len(),
        forall|i: int|
            0 <= i < bits@.len() ==> #[trigger] outs@[i] == (pat_state(bits@.take(i + 1)) == 4),
        forall|i: int|
            0 <= i < bits@.len() ==> #[trigger] outs@[i] == (i >= 3 && ends_with_prefix(
                bits@.take(i + 1),
                4,
            )),
{
    let (g, ports) = build_pattern();
    let ghost g0 = g;
    let mut sim = CycleSim::new(g);
    let mut outs: Vec<bool> = Vec::new();
    proof {
        assert(int_seq(sim.vals@)[4] == pat_state(bits@.take(0)));
    }
    let mut i: usize = 0;
    while i < bits.len()
        invariant
            sim.inv(),
            sim.graph == g0,
            i <= bits@.len(),
            outs@.len() == i,
            forall|j: int|
                0 <= j < i ==> #[trigger] outs@[j] == (pat_state(bits@.take(j + 1)) == 4),
            sim.time == 2 * i,
            sim.prev@ =~= seq![false],
            int_seq(sim.vals@).len() == 6,
            int_seq(sim.vals@)[0] == 0,
            int_seq(sim.vals@)[1] == 0,
            int_seq(sim.vals@)[4] == pat_state(bits@.take(i as int)),
        decreases bits@.len() - i,
    {
        let b = bits[i];
        let bi: i64 = if b {
            1
        } else {
            0
        };
        let stim_hi: Vec<(usize, i64)> = vec![(ports.clk, 1i64), (ports.entrada, bi)];
        let stim_lo: Vec<(usize, i64)> = vec![(ports.clk, 0i64)];
        let ghost v_cur = int_seq(sim.vals@);
        let ghost q = pat_state(bits@.take(i as int));
        let ghost v_hi = apply_stim(g0, v_cur, stim_hi@, 2);
        let ghost qn = pat_next(q, b);
        proof {
            vstd::arithmetic::power2::lemma2_to64();
            lemma_pat_state_inv(bits@.take(i as int));
            reveal_with_fuel(apply_stim, 4);
            assert(!g0.rule_drives(0) && !g0.rule_drives(1) && !g0.rule_drives(2)
                && !g0.rule_drives(4)) by {
                assert forall|r: int| 0 <= r < g0.rules@.len() implies #[trigger] g0.rules@[r].target
                    == 3 || g0.rules@[r].target == 5 by {}
            }
            assert(!g0.reg_drives(0) && !g0.reg_drives(1) && !g0.reg_drives(2) && !g0.reg_drives(3)
                && !g0.reg_drives(5)) by {
                assert forall|r: int| 0 <= r < g0.regs@.len() implies #[trigger] g0.regs@[r].out
                    == 4 by {}
            }
            // The rising-edge step: the state register commits the next
            // state, computed from the current state and the input bit.
            assert(v_hi.len() == 6 && v_hi[0] == 1 && v_hi[1] == 0 && v_hi[2] == bi && v_hi[4] == q
                && v_hi[3] == v_cur[3] && v_hi[5] == v_cur[5]);
            crate::sched::lemma_single_layer_fixpoint(g0, v_hi);
            lemma_single_layer_step(g0, v_hi, sim.prev@);
            let s_fix = crate::sched::comb_fixpoint(g0, v_hi)->Some_0;
            lemma_pat_next_expr_eval(v_hi);
            crate::value::lemma_trunc_id(qn, 3, Signedness::Unsigned);
            assert(s_fix[5] == qn) by {
                assert(g0.rules@[1].target == 5 && g0.rules@[1].expr == pat_next_expr());
            }
            let st = step_spec(g0, v_hi, sim.prev@)->Some_0;
            assert(crate::sched::edge_rises(g0, sim.prev@, s_fix, 0));
            assert(st.0[4] == qn) by {
                assert(g0.regs@[0].out == 4);
            }
            assert(st.0[0] == 1 && st.0[1] == 0 && st.0[2] == bi);
            assert(st.1 =~= seq![true]) by {
                assert(st.1 == crate::sched::clocks_after(g0, s_fix));
            }
            assert(stim_ok(g0, stim_hi@)) by {
                assert(stim_entry_ok(g0, stim_hi@[0]));
                assert(stim_entry_ok(g0, stim_hi@[1]));
                assert forall|k: int| 0 <= k < stim_hi@.len() implies stim_entry_ok(
                    g0,
                    #[trigger] stim_hi@[k],
                ) by {
                    assert(k == 0 || k == 1);
                }
            }
            reveal_with_fuel(run_spec, 3);
            assert(run_spec(g0, v_hi, sim.prev@, sim.time, 1) matches RunSpec::Done { v, .. } && v
                == st.0);
        }
        match sim.wait(1, &stim_hi) {
            Ok(()) => {},
            Err(_) => {
                return unreached();
            },
        }
        let ghost v1 = int_seq(sim.vals@);
        let ghost v_lo = apply_stim(g0, v1, stim_lo@, 1);
        proof {
            vstd::arithmetic::power2::lemma2_to64();
            reveal_with_fuel(apply_stim, 2);
            assert(v_lo.len() == 6 && v_lo[0] == 0 && v_lo[1] == 0 && v_lo[4] == qn);
            // The falling-edge step: no commit, and the output settles to
            // whether the newly committed state is the accepting one.
            crate::sched::lemma_single_layer_fixpoint(g0, v_lo);
            lemma_single_layer_step(g0, v_lo, sim.prev@);
            let s_fix = crate::sched::comb_fixpoint(g0, v_lo)->Some_0;
            let st = step_spec(g0, v_lo, sim.prev@)->Some_0;
            assert(!crate::sched::edge_rises(g0, sim.prev@, s_fix, 0)) by {
                assert(sim.prev@[0] == true);
            }
            assert(st.0[4] == qn) by {
                assert(g0.regs@[0].out == 4);
                assert(s_fix[4] == v_lo[4]);
            }
            assert(st.0[3] == (if qn == 4 {
                1int
            } else {
                0int
            })) by {
                assert(g0.rules@[0].target == 3);
                reveal_with_fuel(eval, 6);
                assert(v_lo[1] == 0);
                crate::value::lemma_trunc_id(
                    if qn == 4 {
                        1int
                    } else {
                        0int
                    },
                    1,
                    Signedness::Unsigned,
                );
            }
            assert(st.0[0] == 0 && st.0[1] == 0);
            assert(st.1 =~= seq![false]) by {
                assert(st.1 == crate::sched::clocks_after(g0, s_fix));
                assert(s_fix[0] == 0);
            }
            assert(stim_ok(g0, stim_lo@)) by {
                assert(stim_entry_ok(g0, stim_lo@[0]));
                assert forall|k: int| 0 <= k < stim_lo@.len() implies stim_entry_ok(
                    g0,
                    #[trigger] stim_lo@[k],
                ) by {
                    assert(k == 0);
                }
            }
            reveal_with_fuel(run_spec, 3);
            assert(run_spec(g0, v_lo, sim.prev@, sim.time, 1) matches RunSpec::Done { v, .. } && v
                == st.0);
        }
        match sim.wait(1, &stim_lo) {
            Ok(()) => {},
            Err(_) => {
                return unreached();
            },
        }
        let out_bit = sim.read(ports.salida);
        outs.push(out_bit == 1);
        proof {
            assert(bits@.take(i + 1).drop_last() =~= bits@.take(i as int));
            assert(bits@.take(i + 1).last() == b);
            assert(pat_state(bits@.take(i + 1)) == qn);
            assert(outs@[i as int] == (pat_state(bits@.take(i + 1)) == 4));
        }
        i = i + 1;
    }
    proof {
        assert forall|k: int| 0 <= k < bits@.len() implies #[trigger] outs@[k] == (k >= 3
            && ends_with_prefix(bits@.take(k + 1), 4)) by {
            lemma_pat_state_accepts(bits@.take(k + 1));
        }
    }
    outs
}

} // verus!
