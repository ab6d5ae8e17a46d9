//! The Module Graph: signal declarations, clocked registers, clock domains,
//! and combinational rules, together with the well-formedness every simulator
//! run and every emitted description relies on.  Graphs are grown through an
//! explicit builder; each construction-time error of the design rules is
//! reported exactly where the rule is broken.

use crate::errors::HdlError;
use crate::expr::{
    check_expr, eval_bound, expr_safe, int_seq, lemma_expr_extend, lemma_sigs_below_mono, nat_seq,
    sigs_below, sigs_below_exec, Expr,
};
use crate::value::{in_range, in_range_i64, pow2_u128, width_ok, Signedness};
use vstd::arithmetic::power2::{lemma_pow2_strictly_increases, pow2};
use vstd::prelude::*;

verus! {

/// A signal's role at the module boundary.
#[derive(Clone, Copy, PartialEq, Eq, Structural, Debug)]
pub enum Dir {
    Input,
    Output,
    Internal,
}

/// Checks a state-machine transition table for totality: every state value
/// in `0..n_states` must have an arm.  A missing state is a construction-time
/// error reporting the first uncovered value; next-state rules built from a
/// checked table are total functions.
pub fn check_total_transitions(arms: &Vec<(i64, Expr)>, n_states: i64) -> (r: Result<
    (),
    HdlError,
>)
    requires
        n_states >= 0,
    ensures
        match r {
            Ok(()) => forall|q: int| 0 <= q < n_states ==> #[trigger] state_covered(arms@, q),
            Err(e) => {
                &&& e matches HdlError::UnhandledState { state } && 0 <= state < n_states
                    && !state_covered(arms@, state as int)
            },
        },
{
    let mut q: i64 = 0;
    while q < n_states
        invariant
            0 <= q <= n_states,
            forall|p: int| 0 <= p < q ==> #[trigger] state_covered(arms@, p),
        decreases n_states - q,
    {
        let mut j: usize = 0;
        let mut found = false;
        while j < arms.len()
            invariant
                j <= arms@.len(),
                found ==> state_covered(arms@, q as int),
                !found ==> forall|k: int| 0 <= k < j ==> (#[trigger] arms@[k]).0 != q,
            decreases arms@.len() - j,
        {
            if arms[j].0 == q {
                found = true;
            }
            j = j + 1;
        }
        if !found {
            return Err(HdlError::UnhandledState { state: q });
        }
        q = q + 1;
    }
    Ok(())
}

/// Whether some arm of a transition table handles state `q`.
pub open spec fn state_covered(arms: Seq<(i64, Expr)>, q: int) -> bool {
    exists|j: int| 0 <= j < arms.len() && (#[trigger] arms[j]).0 == q
}

/// A typed, named value cell: identity is its index in the graph.
pub struct SignalDecl {
    pub name: String,
    pub width: u32,
    pub sign: Signedness,
    pub dir: Dir,
}

/// One combinational rule: `target` is recomputed from the expression each
/// evaluation pass.  A signal is written by at most one rule.
pub struct Rule {
    pub target: usize,
    pub expr: Expr,
}

/// A clocked storage element: on a rising edge of its domain's clock, `out`
/// takes the settled value of `driver` (or `reset_val` while the domain's
/// reset line is asserted).  Between edges `out` holds its value.
pub struct RegisterDecl {
    pub out: usize,
    pub driver: usize,
    pub domain: usize,
    pub reset_val: i64,
}

/// A named clock line and the reset line that overrides its registers.
pub struct ClockDomain {
    pub clock: usize,
    pub reset: usize,
}

/// A composition of signals, registers and combinational rules describing one
/// circuit.
pub struct ModuleGraph {
    pub name: String,
    pub signals: Vec<SignalDecl>,
    pub rules: Vec<Rule>,
    pub regs: Vec<RegisterDecl>,
    pub domains: Vec<ClockDomain>,
}

impl ModuleGraph {
    /// Per-signal magnitude caps: any in-range value of signal `i` has
    /// absolute value at most `2^width`.
    pub open spec fn sig_caps(self) -> Seq<nat> {
        self.signals@.map_values(|s: SignalDecl| pow2(s.width as nat))
    }

    /// Whether some combinational rule writes signal `i`.
    pub open spec fn rule_drives(self, i: int) -> bool {
        exists|r: int| 0 <= r < self.rules@.len() && self.rules@[r].target == i
    }

    /// Whether some register output is signal `i`.
    pub open spec fn reg_drives(self, i: int) -> bool {
        exists|r: int| 0 <= r < self.regs@.len() && self.regs@[r].out == i
    }

    /// Whether any driver (rule or register) writes signal `i`.
    pub open spec fn driven(self, i: int) -> bool {
        self.rule_drives(i) || self.reg_drives(i)
    }

    /// A well-formed rule: a valid, non-input target, an expression over
    /// declared signals, within the evaluator's precision.
    pub open spec fn rule_wf(self, r: int) -> bool {
        let rl = self.rules@[r];
        &&& rl.target < self.signals@.len()
        &&& self.signals@[rl.target as int].dir != Dir::Input
        &&& sigs_below(rl.expr, self.signals@.len())
        &&& expr_safe(rl.expr, self.sig_caps())
    }

    /// A well-formed register: valid indices, driver and output of one shape,
    /// an in-range reset value, and a non-input output.
    pub open spec fn reg_wf(self, r: int) -> bool {
        let rg = self.regs@[r];
        &&& rg.out < self.signals@.len()
        &&& rg.driver < self.signals@.len()
        &&& rg.domain < self.domains@.len()
        &&& self.signals@[rg.out as int].dir != Dir::Input
        &&& self.signals@[rg.driver as int].width == self.signals@[rg.out as int].width
        &&& self.signals@[rg.driver as int].sign == self.signals@[rg.out as int].sign
        &&& in_range(
            rg.reset_val as int,
            self.signals@[rg.out as int].width,
            self.signals@[rg.out as int].sign,
        )
    }

    /// A well-formed clock domain: 1-bit unsigned clock and reset lines.
    pub open spec fn domain_wf(self, d: int) -> bool {
        let dom = self.domains@[d];
        &&& dom.clock < self.signals@.len()
        &&& dom.reset < self.signals@.len()
        &&& self.signals@[dom.clock as int].width == 1
        &&& self.signals@[dom.clock as int].sign == Signedness::Unsigned
        &&& self.signals@[dom.reset as int].width == 1
        &&& self.signals@[dom.reset as int].sign == Signedness::Unsigned
    }

    /// Well-formedness of the whole graph.  Every contract of the scheduler,
    /// the simulator and the emitter assumes it; the builder preserves it.
    pub open spec fn wf(self) -> bool {
        &&& forall|i: int|
            0 <= i < self.signals@.len() ==> width_ok(#[trigger] self.signals@[i].width)
        &&& forall|r: int| 0 <= r < self.rules@.len() ==> self.rule_wf(r)
        &&& forall|r: int| 0 <= r < self.regs@.len() ==> self.reg_wf(r)
        &&& forall|d: int| 0 <= d < self.domains@.len() ==> self.domain_wf(d)
        &&& forall|r1: int, r2: int|
            0 <= r1 < r2 < self.rules@.len() ==> #[trigger] self.rules@[r1].target
                != #[trigger] self.rules@[r2].target
        &&& forall|r1: int, r2: int|
            0 <= r1 < r2 < self.regs@.len() ==> #[trigger] self.regs@[r1].out
                != #[trigger] self.regs@[r2].out
        &&& forall|r1: int, r2: int|
            0 <= r1 < self.rules@.len() && 0 <= r2 < self.regs@.len()
                ==> #[trigger] self.rules@[r1].target != #[trigger] self.regs@[r2].out
    }

    /// A fresh, empty graph carrying the emitted module's name.
    pub fn new(name: String) -> (g: ModuleGraph)
        ensures
            g.name == name,
            g.signals@ =~= Seq::<SignalDecl>::empty(),
            g.rules@ =~= Seq::<Rule>::empty(),
            g.regs@ =~= Seq::<RegisterDecl>::empty(),
            g.domains@ =~= Seq::<ClockDomain>::empty(),
            g.wf(),
    {
        ModuleGraph {
            name,
            signals: Vec::new(),
            rules: Vec::new(),
            regs: Vec::new(),
            domains: Vec::new(),
        }
    }

    /// Declares a signal and returns its index.  Fails with `WidthMismatch`
    /// exactly when the width is outside the accepted range.
    pub fn add_signal(&mut self, name: String, width: u32, sign: Signedness, dir: Dir) -> (r:
        Result<usize, HdlError>)
        requires
            old(self).wf(),
        ensures
            final(self).wf(),
            match r {
                Ok(i) => {
                    &&& width_ok(width)
                    &&& i == old(self).signals@.len()
                    &&& final(self).signals@ == old(self).signals@.push(
                        SignalDecl { name, width, sign, dir },
                    )
                    &&& final(self).name == old(self).name
                    &&& final(self).rules@ == old(self).rules@
                    &&& final(self).regs@ == old(self).regs@
                    &&& final(self).domains@ == old(self).domains@
                },
                Err(e) => {
                    &&& !width_ok(width)
                    &&& *final(self) == *old(self)
                    &&& e matches HdlError::WidthMismatch { signal } && signal == old(
                        self,
                    ).signals@.len()
                },
            },
    {
        if !(1 <= width && width <= crate::value::MAX_WIDTH) {
            return Err(HdlError::WidthMismatch { signal: self.signals.len() });
        }
        let ghost old_g = *self;
        let ghost sig = SignalDecl { name, width, sign, dir };
        self.signals.push(SignalDecl { name, width, sign, dir });
        proof {
            self.lemma_signal_push_preserves_wf(old_g, sig);
        }
        Ok(self.signals.len() - 1)
    }

    /// Appending a signal leaves every existing rule, register and domain
    /// well-formed.
    proof fn lemma_signal_push_preserves_wf(self, old_g: ModuleGraph, sig: SignalDecl)
        requires
            old_g.wf(),
            self.signals@ == old_g.signals@.push(sig),
            width_ok(sig.width),
            self.rules@ == old_g.rules@,
            self.regs@ == old_g.regs@,
            self.domains@ == old_g.domains@,
        ensures
            self.wf(),
    {
        let n1 = old_g.signals@.len();
        assert(old_g.sig_caps() =~= self.sig_caps().subrange(0, n1 as int));
        assert(old_g.sig_caps().is_prefix_of(self.sig_caps()));
        let z1 = Seq::new(n1, |i: int| 0int);
        let z2 = Seq::new(self.signals@.len(), |i: int| 0int);
        assert(z1 =~= z2.subrange(0, n1 as int));
        assert(z1.is_prefix_of(z2));
        assert forall|r: int| 0 <= r < self.rules@.len() implies self.rule_wf(r) by {
            assert(old_g.rule_wf(r));
            lemma_sigs_below_mono(self.rules@[r].expr, n1, self.signals@.len());
            lemma_expr_extend(self.rules@[r].expr, old_g.sig_caps(), self.sig_caps(), z1, z2);
        }
        assert forall|r: int| 0 <= r < self.regs@.len() implies self.reg_wf(r) by {
            assert(old_g.reg_wf(r));
        }
        assert forall|d: int| 0 <= d < self.domains@.len() implies self.domain_wf(d) by {
            assert(old_g.domain_wf(d));
        }
    }

    /// Whether any driver already writes signal `i`: the executable form of
    /// `driven`.
    fn drives(&self, i: usize) -> (r: bool)
        ensures
            r == self.driven(i as int),
    {
        let mut k: usize = 0;
        while k < self.rules.len()
            invariant
                k <= self.rules@.len(),
                forall|j: int| 0 <= j < k ==> #[trigger] self.rules@[j].target != i,
            decreases self.rules@.len() - k,
        {
            if self.rules[k].target == i {
                return true;
            }
            k = k + 1;
        }
        let mut k: usize = 0;
        while k < self.regs.len()
            invariant
                k <= self.regs@.len(),
                forall|j: int| 0 <= j < k ==> #[trigger] self.regs@[j].out != i,
                !self.rule_drives(i as int),
            decreases self.regs@.len() - k,
        {
            if self.regs[k].out == i {
                return true;
            }
            k = k + 1;
        }
        false
    }

    /// The per-signal caps as a machine vector, for the expression checker.
    fn caps_vec(&self) -> (r: Vec<u64>)
        requires
            self.wf(),
        ensures
            nat_seq(r@) =~= self.sig_caps(),
    {
        let mut caps: Vec<u64> = Vec::new();
        let mut k: usize = 0;
        while k < self.signals.len()
            invariant
                self.wf(),
                k <= self.signals@.len(),
                caps@.len() == k,
                forall|j: int| 0 <= j < k ==> #[trigger] caps@[j] == pow2(self.signals@[j].width as nat),
            decreases self.signals@.len() - k,
        {
            let w = self.signals[k].width;
            proof {
                vstd::arithmetic::power2::lemma2_to64_rest();
                if (w as nat) < 62 {
                    lemma_pow2_strictly_increases(w as nat, 62);
                }
            }
            let c: u128 = pow2_u128(w);
            caps.push(c as u64);
            k = k + 1;
        }
        caps
    }

    /// Declares a clock domain over two 1-bit unsigned lines and returns its
    /// index.  Fails with `WidthMismatch` naming the first line of the two
    /// that is not such a signal.
    pub fn add_clock_domain(&mut self, clock: usize, reset: usize) -> (r: Result<usize, HdlError>)
        requires
            old(self).wf(),
        ensures
            final(self).wf(),
            match r {
                Ok(d) => {
                    &&& old(self).clock_line_ok(clock as int) && old(self).clock_line_ok(
                        reset as int,
                    )
                    &&& d == old(self).domains@.len()
                    &&& final(self).domains@ == old(self).domains@.push(
                        ClockDomain { clock, reset },
                    )
                    &&& final(self).name == old(self).name
                    &&& final(self).signals@ == old(self).signals@
                    &&& final(self).rules@ == old(self).rules@
                    &&& final(self).regs@ == old(self).regs@
                },
                Err(e) => {
                    &&& *final(self) == *old(self)
                    &&& !(old(self).clock_line_ok(clock as int) && old(self).clock_line_ok(
                        reset as int,
                    ))
                    &&& (e matches HdlError::WidthMismatch { signal } && signal == (
                    if !old(self).clock_line_ok(clock as int) {
                        clock
                    } else {
                        reset
                    }))
                },
            },
    {
        if !(clock < self.signals.len() && self.signals[clock].width == 1
            && self.signals[clock].sign == Signedness::Unsigned) {
            return Err(HdlError::WidthMismatch { signal: clock });
        }
        if !(reset < self.signals.len() && self.signals[reset].width == 1
            && self.signals[reset].sign == Signedness::Unsigned) {
            return Err(HdlError::WidthMismatch { signal: reset });
        }
        let ghost old_g = *self;
        self.domains.push(ClockDomain { clock, reset });
        proof {
            assert forall|r: int| 0 <= r < self.rules@.len() implies self.rule_wf(r) by {
                assert(old_g.rule_wf(r));
            }
            assert forall|r: int| 0 <= r < self.regs@.len() implies self.reg_wf(r) by {
                assert(old_g.reg_wf(r));
            }
            assert forall|d: int| 0 <= d < self.domains@.len() implies self.domain_wf(d) by {
                if d < old_g.domains@.len() {
                    assert(old_g.domain_wf(d));
                }
            }
        }
        Ok(self.domains.len() - 1)
    }

    /// Whether signal `i` can serve as a clock or reset line.
    pub open spec fn clock_line_ok(self, i: int) -> bool {
        &&& 0 <= i < self.signals@.len()
        &&& self.signals@[i].width == 1
        &&& self.signals@[i].sign == Signedness::Unsigned
    }

    /// The shape conditions a register must meet, apart from exclusivity of
    /// its output.
    pub open spec fn reg_shape_ok(self, out: int, driver: int, domain: int, reset_val: i64) -> bool {
        &&& 0 <= out < self.signals@.len()
        &&& 0 <= driver < self.signals@.len()
        &&& 0 <= domain < self.domains@.len()
        &&& self.signals@[out].dir != Dir::Input
        &&& self.signals@[driver].width == self.signals@[out].width
        &&& self.signals@[driver].sign == self.signals@[out].sign
        &&& in_range(reset_val as int, self.signals@[out].width, self.signals@[out].sign)
    }

    /// Registers a clocked storage element.  Fails with `WidthMismatch` when
    /// the indices or shapes do not line up, and with `MultipleDrivers` when
    /// the output already has a driver.
    pub fn add_register(&mut self, out: usize, driver: usize, domain: usize, reset_val: i64) -> (r:
        Result<(), HdlError>)
        requires
            old(self).wf(),
        ensures
            final(self).wf(),
            match r {
                Ok(()) => {
                    &&& old(self).reg_shape_ok(out as int, driver as int, domain as int, reset_val)
                    &&& !old(self).driven(out as int)
                    &&& final(self).regs@ == old(self).regs@.push(
                        RegisterDecl { out, driver, domain, reset_val },
                    )
                    &&& final(self).name == old(self).name
                    &&& final(self).signals@ == old(self).signals@
                    &&& final(self).rules@ == old(self).rules@
                    &&& final(self).domains@ == old(self).domains@
                },
                Err(e) => {
                    &&& *final(self) == *old(self)
                    &&& if !old(self).reg_shape_ok(
                        out as int,
                        driver as int,
                        domain as int,
                        reset_val,
                    ) {
                        e matches HdlError::WidthMismatch { signal } && signal == out
                    } else {
                        &&& old(self).driven(out as int)
                        &&& e matches HdlError::MultipleDrivers { signal } && signal == out
                    }
                },
            },
    {
        let shape_ok = out < self.signals.len() && driver < self.signals.len() && domain
            < self.domains.len() && {
            &&& self.signals[out].dir != Dir::Input
            &&& self.signals[driver].width == self.signals[out].width
            &&& self.signals[driver].sign == self.signals[out].sign
            &&& in_range_i64(reset_val, self.signals[out].width, self.signals[out].sign)
        };
        if !shape_ok {
            return Err(HdlError::WidthMismatch { signal: out });
        }
        if self.drives(out) {
            return Err(HdlError::MultipleDrivers { signal: out });
        }
        let ghost old_g = *self;
        self.regs.push(RegisterDecl { out, driver, domain, reset_val });
        proof {
            assert forall|r: int| 0 <= r < self.rules@.len() implies self.rule_wf(r) by {
                assert(old_g.rule_wf(r));
            }
            assert forall|r: int| 0 <= r < self.regs@.len() implies self.reg_wf(r) by {
                if r < old_g.regs@.len() {
                    assert(old_g.reg_wf(r));
                }
            }
            assert forall|d: int| 0 <= d < self.domains@.len() implies self.domain_wf(d) by {
                assert(old_g.domain_wf(d));
            }
        }
        Ok(())
    }

    /// `add_signal` for a caller that has already established the width is
    /// acceptable.
    pub fn signal(&mut self, name: String, width: u32, sign: Signedness, dir: Dir) -> (i: usize)
        requires
            old(self).wf(),
            width_ok(width),
        ensures
            final(self).wf(),
            i == old(self).signals@.len(),
            final(self).signals@ == old(self).signals@.push(SignalDecl { name, width, sign, dir }),
            final(self).name == old(self).name,
            final(self).rules@ == old(self).rules@,
            final(self).regs@ == old(self).regs@,
            final(self).domains@ == old(self).domains@,
    {
        match self.add_signal(name, width, sign, dir) {
            Ok(i) => i,
            Err(_) => vstd::pervasive::unreached(),
        }
    }

    /// `add_clock_domain` for a caller that has already established both
    /// lines are 1-bit unsigned signals.
    pub fn clock_domain(&mut self, clock: usize, reset: usize) -> (d: usize)
        requires
            old(self).wf(),
            old(self).clock_line_ok(clock as int),
            old(self).clock_line_ok(reset as int),
        ensures
            final(self).wf(),
            d == old(self).domains@.len(),
            final(self).domains@ == old(self).domains@.push(ClockDomain { clock, reset }),
            final(self).name == old(self).name,
            final(self).signals@ == old(self).signals@,
            final(self).rules@ == old(self).rules@,
            final(self).regs@ == old(self).regs@,
    {
        match self.add_clock_domain(clock, reset) {
            Ok(d) => d,
            Err(_) => vstd::pervasive::unreached(),
        }
    }

    /// `add_register` for a caller that has already established the shape
    /// and that the output is free.
    pub fn register(&mut self, out: usize, driver: usize, domain: usize, reset_val: i64)
        requires
            old(self).wf(),
            old(self).reg_shape_ok(out as int, driver as int, domain as int, reset_val),
            !old(self).driven(out as int),
        ensures
            final(self).wf(),
            final(self).regs@ == old(self).regs@.push(
                RegisterDecl { out, driver, domain, reset_val },
            ),
            final(self).name == old(self).name,
            final(self).signals@ == old(self).signals@,
            final(self).rules@ == old(self).rules@,
            final(self).domains@ == old(self).domains@,
    {
        match self.add_register(out, driver, domain, reset_val) {
            Ok(()) => {},
            Err(_) => vstd::pervasive::unreached(),
        }
    }

    /// `add_rule` for a caller that has already established the shape and
    /// that the target is free.
    pub fn rule(&mut self, target: usize, e: Expr)
        requires
            old(self).wf(),
            old(self).rule_shape_ok(target as int, e),
            !old(self).driven(target as int),
        ensures
            final(self).wf(),
            final(self).rules@ == old(self).rules@.push(Rule { target, expr: e }),
            final(self).name == old(self).name,
            final(self).signals@ == old(self).signals@,
            final(self).regs@ == old(self).regs@,
            final(self).domains@ == old(self).domains@,
    {
        match self.add_rule(target, e) {
            Ok(()) => {},
            Err(_) => vstd::pervasive::unreached(),
        }
    }

    /// Every signal's cap is at most `2^62`, far below the evaluator's cap.
    pub proof fn lemma_caps_bounded(self)
        requires
            self.wf(),
        ensures
            forall|i: int|
                0 <= i < self.signals@.len() ==> #[trigger] self.sig_caps()[i] <= pow2(62),
    {
        assert forall|i: int|
            0 <= i < self.signals@.len() implies #[trigger] self.sig_caps()[i] <= pow2(62) by {
            if (self.signals@[i].width as nat) < 62 {
                lemma_pow2_strictly_increases(self.signals@[i].width as nat, 62);
            }
        }
    }

    /// The shape conditions a rule must meet, apart from exclusivity of its
    /// target: a declared, non-input target, and an expression over declared
    /// signals within the evaluator's precision.
    pub open spec fn rule_shape_ok(self, target: int, e: Expr) -> bool {
        &&& 0 <= target < self.signals@.len()
        &&& self.signals@[target].dir != Dir::Input
        &&& sigs_below(e, self.signals@.len())
        &&& expr_safe(e, self.sig_caps())
    }

    /// Registers a combinational rule.  Fails with `WidthMismatch` when the
    /// target or the expression is out of shape, and with `MultipleDrivers`
    /// when the target already has a driver.
    pub fn add_rule(&mut self, target: usize, e: Expr) -> (r: Result<(), HdlError>)
        requires
            old(self).wf(),
        ensures
            final(self).wf(),
            match r {
                Ok(()) => {
                    &&& old(self).rule_shape_ok(target as int, e)
                    &&& !old(self).driven(target as int)
                    &&& final(self).rules@ == old(self).rules@.push(Rule { target, expr: e })
                    &&& final(self).name == old(self).name
                    &&& final(self).signals@ == old(self).signals@
                    &&& final(self).regs@ == old(self).regs@
                    &&& final(self).domains@ == old(self).domains@
                },
                Err(err) => {
                    &&& *final(self) == *old(self)
                    &&& if !old(self).rule_shape_ok(target as int, e) {
                        err matches HdlError::WidthMismatch { signal } && signal == target
                    } else {
                        &&& old(self).driven(target as int)
                        &&& err matches HdlError::MultipleDrivers { signal } && signal == target
                    }
                },
            },
    {
        let caps = self.caps_vec();
        let shape_ok = target < self.signals.len() && self.signals[target].dir != Dir::Input
            && sigs_below_exec(&e, self.signals.len()) && check_expr(&e, &caps).is_some();
        if !shape_ok {
            return Err(HdlError::WidthMismatch { signal: target });
        }
        if self.drives(target) {
            return Err(HdlError::MultipleDrivers { signal: target });
        }
        let ghost old_g = *self;
        self.rules.push(Rule { target, expr: e });
        proof {
            assert forall|r: int| 0 <= r < self.rules@.len() implies self.rule_wf(r) by {
                if r < old_g.rules@.len() {
                    assert(old_g.rule_wf(r));
                }
            }
            assert forall|r: int| 0 <= r < self.regs@.len() implies self.reg_wf(r) by {
                assert(old_g.reg_wf(r));
            }
            assert forall|d: int| 0 <= d < self.domains@.len() implies self.domain_wf(d) by {
                assert(old_g.domain_wf(d));
            }
        }
        Ok(())
    }
}

} // verus!
