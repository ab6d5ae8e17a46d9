//! The cycle simulator: a single-threaded cooperative driver that owns one
//! Module Graph instance, applies stimulus, advances the update scheduler
//! tick by tick, and appends every declared output's settled value to an
//! append-only trace.  Given identical stimulus history, two runs over the
//! same graph produce identical traces: every method's result is pinned to a
//! spec-level function of the graph and the stimulus.

use crate::errors::HdlError;
use crate::graph::{Dir, ModuleGraph};
use crate::sched::{step_exec, step_spec, vals_wf};
use crate::expr::int_seq;
use crate::value::{in_range, in_range_i64};
use vstd::arithmetic::power2::lemma_pow2_pos;
use vstd::prelude::*;

verus! {

/// One sample of the waveform: the settled value of a declared output signal
/// at the end of a tick.
#[derive(Clone, Copy, PartialEq, Eq, Structural, Debug)]
pub struct TraceEntry {
    pub time: u64,
    pub signal: usize,
    pub value: i64,
}

/// One step of a testbench script: set stimulus inputs, or advance simulated
/// time by a number of ticks.
pub enum TbStep {
    SetInputs(Vec<(usize, i64)>),
    Advance(u64),
}

/// The all-zero value vector a fresh simulator starts from: an uninitialized
/// signal's current value is its type's zero.
pub open spec fn zero_vals(g: ModuleGraph) -> Seq<int> {
    Seq::new(g.signals@.len(), |i: int| 0int)
}

/// Whether one stimulus entry addresses a declared input with an in-range
/// value.
pub open spec fn stim_entry_ok(g: ModuleGraph, e: (usize, i64)) -> bool {
    &&& e.0 < g.signals@.len()
    &&& g.signals@[e.0 as int].dir == Dir::Input
    &&& in_range(e.1 as int, g.signals@[e.0 as int].width, g.signals@[e.0 as int].sign)
}

/// Whether a whole stimulus assignment is acceptable.
pub open spec fn stim_ok(g: ModuleGraph, stim: Seq<(usize, i64)>) -> bool {
    forall|k: int| 0 <= k < stim.len() ==> stim_entry_ok(g, #[trigger] stim[k])
}

/// The first offending entry of a stimulus assignment, or `stim.len()` when
/// every entry is acceptable.
pub open spec fn first_bad_stim(g: ModuleGraph, stim: Seq<(usize, i64)>, k: int) -> int
    decreases stim.len() - k,
{
    if k < 0 || k >= stim.len() {
        stim.len() as int
    } else if !stim_entry_ok(g, stim[k]) {
        k
    } else {
        first_bad_stim(g, stim, k + 1)
    }
}

/// Applying the first `k` entries of a stimulus assignment, in order: later
/// entries win.
pub open spec fn apply_stim(g: ModuleGraph, v: Seq<int>, stim: Seq<(usize, i64)>, k: int) -> Seq<
    int,
>
    decreases k,
{
    if k <= 0 {
        v
    } else {
        apply_stim(g, v, stim, k - 1).update(stim[k - 1].0 as int, stim[k - 1].1 as int)
    }
}

/// The samples one tick appends: the settled value of every declared output,
/// in declaration order, stamped with the tick's time.
pub open spec fn tick_samples(g: ModuleGraph, v: Seq<int>, t: u64, n: int) -> Seq<TraceEntry>
    decreases n,
{
    if n <= 0 {
        Seq::empty()
    } else {
        let head = tick_samples(g, v, t, n - 1);
        if g.signals@[n - 1].dir == Dir::Output {
            head.push(TraceEntry { time: t, signal: (n - 1) as usize, value: v[n - 1] as i64 })
        } else {
            head
        }
    }
}

/// What advancing `n` ticks from a state does.
pub enum RunSpec {
    /// The final values, the final clock levels, and the samples appended.
    Done { v: Seq<int>, prev: Seq<bool>, trace: Seq<TraceEntry> },
    /// Combinational divergence at the given tick.
    Diverged { tick: u64 },
}

/// Advances `n` ticks: each tick runs the scheduler and samples the outputs.
pub open spec fn run_spec(g: ModuleGraph, v: Seq<int>, prev: Seq<bool>, t: u64, n: u64) -> RunSpec
    decreases n,
{
    if n == 0 {
        RunSpec::Done { v, prev, trace: Seq::empty() }
    } else {
        match step_spec(g, v, prev) {
            None => RunSpec::Diverged { tick: t },
            Some((v2, p2)) => match run_spec(g, v2, p2, (t + 1) as u64, (n - 1) as u64) {
                RunSpec::Diverged { tick } => RunSpec::Diverged { tick },
                RunSpec::Done { v: vf, prev: pf, trace: tr } => RunSpec::Done {
                    v: vf,
                    prev: pf,
                    trace: tick_samples(g, v2, t, g.signals@.len() as int) + tr,
                },
            },
        }
    }
}

/// A discrete-time driver for one Module Graph: current values, last-seen
/// clock levels, the running time, and the trace collected so far.
pub struct CycleSim {
    pub graph: ModuleGraph,
    pub vals: Vec<i64>,
    pub prev: Vec<bool>,
    pub time: u64,
    pub trace: Vec<TraceEntry>,
}

impl CycleSim {
    /// The simulator's own well-formedness, maintained by every method.
    pub open spec fn inv(self) -> bool {
        &&& self.graph.wf()
        &&& vals_wf(self.graph, int_seq(self.vals@))
        &&& self.prev@.len() == self.graph.domains@.len()
    }

    /// A fresh run over `graph`: all signals at zero, all clocks low, time
    /// zero, an empty trace.
    pub fn new(graph: ModuleGraph) -> (s: CycleSim)
        requires
            graph.wf(),
        ensures
            s.inv(),
            s.graph == graph,
            int_seq(s.vals@) =~= zero_vals(graph),
            s.prev@ =~= Seq::new(graph.domains@.len(), |d: int| false),
            s.time == 0,
            s.trace@ =~= Seq::<TraceEntry>::empty(),
    {
        let n = graph.signals.len();
        let mut vals: Vec<i64> = Vec::new();
        let mut i: usize = 0;
        while i < n
            invariant
                i <= n,
                vals@.len() == i,
                forall|j: int| 0 <= j < i ==> #[trigger] vals@[j] == 0i64,
            decreases n - i,
        {
            vals.push(0);
            i = i + 1;
        }
        let nd = graph.domains.len();
        let mut prev: Vec<bool> = Vec::new();
        let mut d: usize = 0;
        while d < nd
            invariant
                d <= nd,
                prev@.len() == d,
                forall|j: int| 0 <= j < d ==> #[trigger] prev@[j] == false,
            decreases nd - d,
        {
            prev.push(false);
            d = d + 1;
        }
        let s = CycleSim { graph, vals, prev, time: 0, trace: Vec::new() };
        proof {
            assert(int_seq(s.vals@) =~= zero_vals(graph));
            assert(s.prev@ =~= Seq::new(graph.domains@.len(), |dd: int| false));
            assert forall|j: int| 0 <= j < s.vals@.len() implies in_range(
                #[trigger] int_seq(s.vals@)[j],
                graph.signals@[j].width,
                graph.signals@[j].sign,
            ) by {
                lemma_pow2_pos((graph.signals@[j].width - 1) as nat);
                lemma_pow2_pos(graph.signals@[j].width as nat);
            }
        }
        s
    }

    /// Reads the current, settled value of a signal.
    pub fn read(&self, i: usize) -> (r: i64)
        requires
            self.inv(),
            i < self.graph.signals@.len(),
        ensures
            r as int == int_seq(self.vals@)[i as int],
    {
        self.vals[i]
    }

    /// Applies a stimulus assignment to the declared inputs.  Fails with
    /// `WidthMismatch` naming the first entry that addresses a non-input or
    /// carries an out-of-range value; the state is then unchanged.
    pub fn set_inputs(&mut self, stim: &Vec<(usize, i64)>) -> (r: Result<(), HdlError>)
        requires
            old(self).inv(),
        ensures
            final(self).inv(),
            final(self).graph == old(self).graph,
            final(self).prev@ == old(self).prev@,
            final(self).time == old(self).time,
            final(self).trace@ == old(self).trace@,
            match r {
                Ok(()) => stim_ok(old(self).graph, stim@) && int_seq(final(self).vals@)
                    =~= apply_stim(
                    old(self).graph,
                    int_seq(old(self).vals@),
                    stim@,
                    stim@.len() as int,
                ),
                Err(e) => {
                    &&& !stim_ok(old(self).graph, stim@)
                    &&& final(self).vals@ == old(self).vals@
                    &&& e matches HdlError::WidthMismatch { signal } && signal == stim@[first_bad_stim(
                        old(self).graph,
                        stim@,
                        0,
                    )].0
                },
            },
    {
        // Validate every entry first, so a rejected assignment changes
        // nothing.
        let mut k: usize = 0;
        while k < stim.len()
            invariant
                self.inv(),
                k <= stim@.len(),
                forall|j: int| 0 <= j < k ==> stim_entry_ok(self.graph, #[trigger] stim@[j]),
            decreases stim@.len() - k,
        {
            let (sig, val) = stim[k];
            let ok = sig < self.graph.signals.len() && {
                let sd = &self.graph.signals[sig];
                sd.dir == Dir::Input && in_range_i64(val, sd.width, sd.sign)
            };
            if !ok {
                proof {
                    lemma_first_bad_stim_is(self.graph, stim@, k as int);
                }
                return Err(HdlError::WidthMismatch { signal: sig });
            }
            k = k + 1;
        }
        let ghost g = self.graph;
        let ghost v0 = int_seq(self.vals@);
        let mut k: usize = 0;
        while k < stim.len()
            invariant
                self.graph == g,
                self.prev@ == old(self).prev@,
                self.time == old(self).time,
                self.trace@ == old(self).trace@,
                self.inv(),
                k <= stim@.len(),
                stim_ok(g, stim@),
                int_seq(self.vals@) =~= apply_stim(g, v0, stim@, k as int),
            decreases stim@.len() - k,
        {
            let (sig, val) = stim[k];
            proof {
                assert(stim_entry_ok(g, stim@[k as int]));
            }
            self.vals.set(sig, val);
            proof {
                assert(int_seq(self.vals@) =~= apply_stim(g, v0, stim@, k + 1));
            }
            k = k + 1;
        }
        Ok(())
    }

    /// Advances exactly `n` logical ticks.  Each tick runs the scheduler's
    /// two phases and appends every declared output's settled value to the
    /// trace.  A combinational divergence terminates the run, reporting the
    /// failing tick's time index.
    pub fn advance(&mut self, n: u64) -> (r: Result<(), HdlError>)
        requires
            old(self).inv(),
            old(self).time + n <= u64::MAX,
        ensures
            final(self).inv(),
            final(self).graph == old(self).graph,
            match r {
                Ok(()) => {
                    &&& run_spec(
                        old(self).graph,
                        int_seq(old(self).vals@),
                        old(self).prev@,
                        old(self).time,
                        n,
                    ) matches RunSpec::Done { v, prev, trace } && int_seq(final(self).vals@) == v
                        && final(self).prev@ == prev && final(self).trace@ == old(self).trace@
                        + trace
                    &&& final(self).time == old(self).time + n
                },
                Err(e) => {
                    &&& run_spec(
                        old(self).graph,
                        int_seq(old(self).vals@),
                        old(self).prev@,
                        old(self).time,
                        n,
                    ) matches RunSpec::Diverged { tick } && e matches
                        HdlError::CombinationalDivergence { tick: t } && t == tick
                },
            },
    {
        let ghost g = self.graph;
        let ghost v0 = int_seq(old(self).vals@);
        let ghost p0 = old(self).prev@;
        let ghost t0 = old(self).time;
        let ghost tr0 = old(self).trace@;
        let mut k: u64 = 0;
        while k < n
            invariant
                self.inv(),
                self.graph == g,
                k <= n,
                t0 + n <= u64::MAX,
                self.time == t0 + k,
                (match run_spec(g, int_seq(self.vals@), self.prev@, self.time, (n - k) as u64) {
                    RunSpec::Done { v, prev, trace } => run_spec(g, v0, p0, t0, n) matches
                        RunSpec::Done { v: vf, prev: pf, trace: tr } && vf == v && pf == prev && tr0
                        + tr == self.trace@ + trace,
                    RunSpec::Diverged { tick } => run_spec(g, v0, p0, t0, n) == (
                    RunSpec::Diverged { tick }),
                }),
            decreases n - k,
        {
            let ghost pre = *self;
            match step_exec(&self.graph, &self.vals, &self.prev) {
                None => {
                    return Err(HdlError::CombinationalDivergence { tick: self.time });
                },
                Some((v2, p2)) => {
                    self.vals = v2;
                    self.prev = p2;
                    self.append_samples();
                    self.time = self.time + 1;
                    proof {
                        lemma_run_unfold(
                            g,
                            int_seq(pre.vals@),
                            pre.prev@,
                            pre.time,
                            (n - k) as u64,
                            int_seq(self.vals@),
                            self.prev@,
                        );
                        let samples = tick_samples(
                            g,
                            int_seq(self.vals@),
                            pre.time,
                            g.signals@.len() as int,
                        );
                        match run_spec(
                            g,
                            int_seq(self.vals@),
                            self.prev@,
                            self.time,
                            (n - (k + 1)) as u64,
                        ) {
                            RunSpec::Done { v, prev, trace } => {
                                assert((pre.trace@ + samples) + trace =~= pre.trace@ + (samples
                                    + trace));
                            },
                            RunSpec::Diverged { tick } => {},
                        }
                    }
                    k = k + 1;
                },
            }
        }
        proof {
            assert(self.trace@ + Seq::<TraceEntry>::empty() =~= self.trace@);
            match run_spec(g, v0, p0, t0, n) {
                RunSpec::Done { v, prev, trace } => {
                    assert(tr0 + trace =~= self.trace@);
                },
                RunSpec::Diverged { tick } => {},
            }
        }
        Ok(())
    }

    /// Appends one tick's output samples to the trace.
    fn append_samples(&mut self)
        requires
            old(self).inv(),
        ensures
            final(self).inv(),
            final(self).graph == old(self).graph,
            final(self).vals@ == old(self).vals@,
            final(self).prev@ == old(self).prev@,
            final(self).time == old(self).time,
            final(self).trace@ == old(self).trace@ + tick_samples(
                old(self).graph,
                int_seq(old(self).vals@),
                old(self).time,
                old(self).graph.signals@.len() as int,
            ),
    {
        let ghost g = self.graph;
        let n = self.graph.signals.len();
        let mut i: usize = 0;
        while i < n
            invariant
                self.inv(),
                self.graph == g,
                self.vals@ == old(self).vals@,
                self.prev@ == old(self).prev@,
                self.time == old(self).time,
                i <= n == g.signals@.len(),
                self.trace@ == old(self).trace@ + tick_samples(
                    g,
                    int_seq(old(self).vals@),
                    old(self).time,
                    i as int,
                ),
            decreases n - i,
        {
            let is_out = {
                let d = self.graph.signals[i].dir;
                d == Dir::Output
            };
            if is_out {
                let e = TraceEntry { time: self.time, signal: i, value: self.vals[i] };
                self.trace.push(e);
            }
            proof {
                assert(self.trace@ =~= old(self).trace@ + tick_samples(
                    g,
                    int_seq(old(self).vals@),
                    old(self).time,
                    i + 1,
                ));
            }
            i = i + 1;
        }
    }

    /// Applies a stimulus assignment, then advances exactly `n` ticks: the
    /// testbench's only suspension point.
    pub fn wait(&mut self, n: u64, stim: &Vec<(usize, i64)>) -> (r: Result<(), HdlError>)
        requires
            old(self).inv(),
            old(self).time + n <= u64::MAX,
        ensures
            final(self).inv(),
            final(self).graph == old(self).graph,
            match r {
                Ok(()) => {
                    &&& stim_ok(old(self).graph, stim@)
                    &&& run_spec(
                        old(self).graph,
                        apply_stim(
                            old(self).graph,
                            int_seq(old(self).vals@),
                            stim@,
                            stim@.len() as int,
                        ),
                        old(self).prev@,
                        old(self).time,
                        n,
                    ) matches RunSpec::Done { v, prev, trace } && int_seq(final(self).vals@) == v
                        && final(self).prev@ == prev && final(self).trace@ == old(self).trace@
                        + trace
                    &&& final(self).time == old(self).time + n
                },
                Err(e) => {
                    if !stim_ok(old(self).graph, stim@) {
                        &&& final(self).vals@ == old(self).vals@
                        &&& final(self).prev@ == old(self).prev@
                        &&& final(self).time == old(self).time
                        &&& final(self).trace@ == old(self).trace@
                        &&& e matches HdlError::WidthMismatch { signal } && signal == stim@[first_bad_stim(
                            old(self).graph,
                            stim@,
                            0,
                        )].0
                    } else {
                        run_spec(
                            old(self).graph,
                            apply_stim(
                                old(self).graph,
                                int_seq(old(self).vals@),
                                stim@,
                                stim@.len() as int,
                            ),
                            old(self).prev@,
                            old(self).time,
                            n,
                        ) matches RunSpec::Diverged { tick } && e matches
                            HdlError::CombinationalDivergence { tick: t } && t == tick
                    }
                },
            },
    {
        match self.set_inputs(stim) {
            Err(e) => Err(e),
            Ok(()) => {
                let ghost mid = *self;
                let r = self.advance(n);
                proof {
                    assert(int_seq(mid.vals@) == apply_stim(
                        old(self).graph,
                        int_seq(old(self).vals@),
                        stim@,
                        stim@.len() as int,
                    ));
                }
                r
            },
        }
    }

    /// Finalizes the run and hands the trace to the caller.
    pub fn done(self) -> (r: Vec<TraceEntry>)
        ensures
            r@ == self.trace@,
    {
        self.trace
    }
}

/// What a whole testbench script produces.
pub enum ScriptOut {
    /// The final values and clock levels, and the whole trace, of a completed
    /// run.
    Done { v: Seq<int>, prev: Seq<bool>, trace: Seq<TraceEntry> },
    /// A rejected stimulus assignment: the script step and the signal.
    BadStim { step: int, signal: usize },
    /// Combinational divergence at the given tick.
    Diverged { tick: u64 },
}

/// The ticks the first `k` script steps advance through.
pub open spec fn script_ticks(script: Seq<TbStep>, k: int) -> int
    decreases k,
{
    if k <= 0 {
        0
    } else {
        script_ticks(script, k - 1) + (match script[k - 1] {
            TbStep::SetInputs(_) => 0,
            TbStep::Advance(n) => n as int,
        })
    }
}

/// Tick counts of script prefixes only grow.
pub proof fn lemma_script_ticks_mono(script: Seq<TbStep>, k1: int, k2: int)
    requires
        0 <= k1 <= k2,
    ensures
        script_ticks(script, k1) <= script_ticks(script, k2),
    decreases k2 - k1,
{
    if k1 < k2 {
        lemma_script_ticks_mono(script, k1, k2 - 1);
    }
}

/// Executing the first `k` steps of a script against a fresh simulator: the
/// strictly sequential, deterministic semantics of a testbench run.
pub open spec fn script_rec(g: ModuleGraph, script: Seq<TbStep>, k: int) -> ScriptOut
    decreases k,
{
    if k <= 0 {
        ScriptOut::Done {
            v: zero_vals(g),
            prev: Seq::new(g.domains@.len(), |d: int| false),
            trace: Seq::empty(),
        }
    } else {
        match script_rec(g, script, k - 1) {
            ScriptOut::BadStim { step, signal } => ScriptOut::BadStim { step, signal },
            ScriptOut::Diverged { tick } => ScriptOut::Diverged { tick },
            ScriptOut::Done { v, prev, trace } => match script[k - 1] {
                TbStep::SetInputs(stim) => if stim_ok(g, stim@) {
                    ScriptOut::Done { v: apply_stim(g, v, stim@, stim@.len() as int), prev, trace }
                } else {
                    ScriptOut::BadStim {
                        step: k - 1,
                        signal: stim@[first_bad_stim(g, stim@, 0)].0,
                    }
                },
                TbStep::Advance(n) => match run_spec(
                    g,
                    v,
                    prev,
                    script_ticks(script, k - 1) as u64,
                    n,
                ) {
                    RunSpec::Diverged { tick } => ScriptOut::Diverged { tick },
                    RunSpec::Done { v: vf, prev: pf, trace: tr } => ScriptOut::Done {
                        v: vf,
                        prev: pf,
                        trace: trace + tr,
                    },
                },
            },
        }
    }
}

/// Runs a whole testbench script against a fresh simulator for `g` and hands
/// back the trace.  The result is the spec-level run of the same script:
/// given identical stimulus history, two runs produce identical traces.
pub fn run_script(g: ModuleGraph, script: &Vec<TbStep>) -> (r: Result<Vec<TraceEntry>, HdlError>)
    requires
        g.wf(),
        script_ticks(script@, script@.len() as int) <= u64::MAX,
    ensures
        match r {
            Ok(tr) => script_rec(g, script@, script@.len() as int) matches ScriptOut::Done {
                v,
                prev,
                trace,
            } && tr@ == trace,
            Err(e) => match script_rec(g, script@, script@.len() as int) {
                ScriptOut::Done { .. } => false,
                ScriptOut::BadStim { step, signal } => e matches HdlError::WidthMismatch {
                    signal: s,
                } && s == signal,
                ScriptOut::Diverged { tick } => e matches HdlError::CombinationalDivergence {
                    tick: t,
                } && t == tick,
            },
        },
{
    let mut sim = CycleSim::new(g);
    let n = script.len();
    let mut i: usize = 0;
    while i < n
        invariant
            sim.inv(),
            sim.graph == g,
            i <= n,
            script_rec(g, script@, i as int) matches ScriptOut::Done { v, prev, trace } && v
                == int_seq(sim.vals@) && prev == sim.prev@ && trace == sim.trace@,
            sim.time == script_ticks(script@, i as int),
        decreases n - i,
    {
        proof {
            lemma_script_ticks_mono(script@, 0, i as int);
            lemma_script_ticks_mono(script@, i as int, i + 1);
            lemma_script_ticks_mono(script@, i + 1, script@.len() as int);
        }
        let step = &script[i];
        match step {
            TbStep::SetInputs(stim) => {
                match sim.set_inputs(stim) {
                    Ok(()) => {},
                    Err(e) => {
                        proof {
                            lemma_script_stuck(g, script@, i + 1, script@.len() as int);
                        }
                        return Err(e);
                    },
                }
            },
            TbStep::Advance(amount) => {
                match sim.advance(*amount) {
                    Ok(()) => {},
                    Err(e) => {
                        proof {
                            lemma_script_stuck(g, script@, i + 1, script@.len() as int);
                        }
                        return Err(e);
                    },
                }
            },
        }
        i = i + 1;
    }
    Ok(sim.done())
}

/// A failed script stays failed: later prefixes report the same error.
proof fn lemma_script_stuck(g: ModuleGraph, script: Seq<TbStep>, j: int, k: int)
    requires
        0 <= j <= k,
        !(script_rec(g, script, j) is Done),
    ensures
        script_rec(g, script, k) == script_rec(g, script, j),
    decreases k - j,
{
    if j < k {
        lemma_script_stuck(g, script, j, k - 1);
    }
}

/// Determinism of a testbench run: the trace is a function of the graph and
/// the script alone, so any two completed runs of the same script over the
/// same graph carry the same trace.
pub proof fn lemma_script_deterministic(
    g: ModuleGraph,
    script: Seq<TbStep>,
    t1: Seq<TraceEntry>,
    t2: Seq<TraceEntry>,
)
    requires
        script_rec(g, script, script.len() as int) matches ScriptOut::Done { trace, .. } && trace
            == t1,
        script_rec(g, script, script.len() as int) matches ScriptOut::Done { trace, .. } && trace
            == t2,
    ensures
        t1 == t2,
{
}

/// Unfolds one tick of `run_spec` when the scheduler step succeeds.
proof fn lemma_run_unfold(
    g: ModuleGraph,
    v: Seq<int>,
    prev: Seq<bool>,
    t: u64,
    n: u64,
    v2: Seq<int>,
    p2: Seq<bool>,
)
    requires
        n > 0,
        t + 1 <= u64::MAX,
        step_spec(g, v, prev) == Some((v2, p2)),
    ensures
        run_spec(g, v, prev, t, n) == (match run_spec(g, v2, p2, (t + 1) as u64, (n - 1) as u64) {
            RunSpec::Diverged { tick } => RunSpec::Diverged { tick },
            RunSpec::Done { v: vf, prev: pf, trace: tr } => RunSpec::Done {
                v: vf,
                prev: pf,
                trace: tick_samples(g, v2, t, g.signals@.len() as int) + tr,
            },
        }),
{
}

/// The first offending stimulus entry is the one the scan stopped at.
proof fn lemma_first_bad_stim_is(g: ModuleGraph, stim: Seq<(usize, i64)>, k: int)
    requires
        0 <= k < stim.len(),
        !stim_entry_ok(g, stim[k]),
        forall|j: int| 0 <= j < k ==> stim_entry_ok(g, #[trigger] stim[j]),
    ensures
        first_bad_stim(g, stim, 0) == k,
        !stim_ok(g, stim),
{
    lemma_first_bad_stim_from(g, stim, 0, k);
}

/// Helper induction for `lemma_first_bad_stim_is`.
proof fn lemma_first_bad_stim_from(g: ModuleGraph, stim: Seq<(usize, i64)>, s: int, k: int)
    requires
        0 <= s <= k < stim.len(),
        !stim_entry_ok(g, stim[k]),
        forall|j: int| s <= j < k ==> stim_entry_ok(g, #[trigger] stim[j]),
    ensures
        first_bad_stim(g, stim, s) == k,
    decreases k - s,
{
    if s < k {
        lemma_first_bad_stim_from(g, stim, s + 1, k);
    }
}

} // verus!
