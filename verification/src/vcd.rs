//! The waveform dump: a time-ordered value-change text for the trace a full
//! simulator run produced.  Each declared output becomes one variable; each
//! sample becomes a binary value change under its time marker.  Like the
//! RTL emitter, the text is pinned character for character to a spec-level
//! serialization.

use crate::emit::{dec_rep, digit_char};
use crate::graph::{Dir, ModuleGraph};
use crate::sim::TraceEntry;
use vstd::arithmetic::div_mod::{lemma_fundamental_div_mod, lemma_mod_bound};
use vstd::arithmetic::power2::{lemma2_to64, lemma_pow2_adds, lemma_pow2_pos, pow2};
use vstd::prelude::*;
use vstd::string::StringExecFns;

verus! {

/// The two's-complement binary text of `v` over `w` bits, most significant
/// bit first.  Euclidean division makes the low bits of a negative value
/// come out as its two's-complement pattern.
pub open spec fn bin_rep(v: int, w: nat) -> Seq<char>
    decreases w,
{
    if w == 0 {
        Seq::empty()
    } else {
        bin_rep(v / 2, (w - 1) as nat) + seq![digit_char((v % 2) as nat)]
    }
}

/// Binary text only depends on the value modulo `2^w`.
proof fn lemma_bin_rep_mod(v: int, w: nat)
    ensures
        bin_rep(v % (pow2(w) as int), w) == bin_rep(v, w),
    decreases w,
{
    lemma_pow2_pos(w);
    if w > 0 {
        let p = pow2(w) as int;
        let ph = pow2((w - 1) as nat) as int;
        lemma_pow2_adds((w - 1) as nat, 1);
        lemma2_to64();
        let m = v % p;
        // Split the reduced value into its low bit and remaining bits.
        lemma_pow2_pos((w - 1) as nat);
        lemma_fundamental_div_mod(v, p);
        lemma_mod_bound(v, p);
        lemma_fundamental_div_mod(v, 2);
        lemma_mod_bound(v, 2);
        assert(m == 2 * ((v / 2) - ph * (v / p)) + v % 2) by (nonlinear_arith)
            requires
                v == p * (v / p) + m,
                v == 2 * (v / 2) + v % 2,
                p == 2 * ph,
        ;
        vstd::arithmetic::div_mod::lemma_fundamental_div_mod_converse(
            m,
            2,
            (v / 2) - ph * (v / p),
            v % 2,
        );
        assert(m % 2 == v % 2 && m / 2 == (v / 2) - ph * (v / p));
        assert(0 <= m / 2 < ph);
        vstd::arithmetic::div_mod::lemma_fundamental_div_mod_converse(v / 2, ph, v / p, m / 2);
        assert((v / 2) % ph == m / 2);
        lemma_bin_rep_mod(v / 2, (w - 1) as nat);
        assert(bin_rep(m, w) =~= bin_rep(v, w));
    }
}

/// Appends the two's-complement binary text of `v` over `w` bits.
fn push_bits(s: &mut String, v: i64, w: u32)
    requires
        1 <= w <= 62,
    ensures
        final(s)@ == old(s)@ + bin_rep(v as int, w as nat),
{
    // Reduce to the unsigned residue first: its bits are the two's
    // complement pattern of the value.
    let u: i64 = crate::value::trunc_i128(v as i128, w, crate::value::Signedness::Unsigned);
    proof {
        lemma_bin_rep_mod(v as int, w as nat);
        lemma_pow2_pos(w as nat);
        assert(u as int == (v as int) % (pow2(w as nat) as int));
    }
    push_bits_nonneg(s, u as u64, w);
    proof {
        assert(s@ =~= old(s)@ + bin_rep(v as int, w as nat));
    }
}

/// Appends the binary text of a nonnegative value.
fn push_bits_nonneg(s: &mut String, u: u64, w: u32)
    ensures
        final(s)@ == old(s)@ + bin_rep(u as int, w as nat),
    decreases w,
{
    if w == 0 {
        proof {
            assert(s@ =~= old(s)@ + bin_rep(u as int, 0));
        }
    } else {
        push_bits_nonneg(s, u / 2, w - 1);
        if u % 2 == 1 {
            s.append("1");
        } else {
            s.append("0");
        }
        proof {
            reveal_strlit("0");
            reveal_strlit("1");
            assert(s@ =~= old(s)@ + bin_rep(u as int, w as nat));
        }
    }
}

/// One variable definition line per declared output.
pub open spec fn vcd_var_txt(g: ModuleGraph, i: int) -> Seq<char> {
    if g.signals@[i].dir == Dir::Output {
        "$var wire "@ + dec_rep(g.signals@[i].width as nat) + " s"@ + dec_rep(i as nat) + " "@
            + g.signals@[i].name@ + " $end\n"@
    } else {
        Seq::empty()
    }
}

/// The variable definitions of the first `n` signals.
pub open spec fn vcd_vars_upto(g: ModuleGraph, n: int) -> Seq<char>
    decreases n,
{
    if n <= 0 {
        Seq::empty()
    } else {
        vcd_vars_upto(g, n - 1) + vcd_var_txt(g, n - 1)
    }
}

/// One sample: a time marker whenever the time changes, then the binary
/// value change.
pub open spec fn vcd_sample_txt(g: ModuleGraph, trace: Seq<TraceEntry>, k: int) -> Seq<char> {
    let e = trace[k];
    (if k == 0 || trace[k - 1].time != e.time {
        seq!['#'] + dec_rep(e.time as nat) + seq!['\n']
    } else {
        Seq::<char>::empty()
    }) + seq!['b'] + bin_rep(e.value as int, g.signals@[e.signal as int].width as nat) + " s"@
        + dec_rep(e.signal as nat) + seq!['\n']
}

/// The value-change section over the first `k` samples.
pub open spec fn vcd_dump_upto(g: ModuleGraph, trace: Seq<TraceEntry>, k: int) -> Seq<char>
    decreases k,
{
    if k <= 0 {
        Seq::empty()
    } else {
        vcd_dump_upto(g, trace, k - 1) + vcd_sample_txt(g, trace, k - 1)
    }
}

/// The whole value-change file.
pub open spec fn vcd_spec(g: ModuleGraph, trace: Seq<TraceEntry>) -> Seq<char> {
    "$timescale 1ns $end\n$scope module "@ + g.name@ + " $end\n"@ + vcd_vars_upto(
        g,
        g.signals@.len() as int,
    ) + "$upscope $end\n$enddefinitions $end\n"@ + vcd_dump_upto(g, trace, trace.len() as int)
}

/// Serializes a run's trace as a value-change file over the graph's
/// declared outputs.
pub fn emit_vcd(g: &ModuleGraph, trace: &Vec<TraceEntry>) -> (out: String)
    requires
        g.wf(),
        forall|k: int|
            0 <= k < trace@.len() ==> (#[trigger] trace@[k]).signal < g.signals@.len(),
    ensures
        out@ == vcd_spec(*g, trace@),
{
    let mut out = String::new();
    out.append("$timescale 1ns $end\n$scope module ");
    out.append(g.name.as_str());
    out.append(" $end\n");
    let ghost head0 = "$timescale 1ns $end\n$scope module "@ + g.name@ + " $end\n"@;
    proof {
        assert(out@ =~= head0);
    }
    let n = g.signals.len();
    let mut i: usize = 0;
    while i < n
        invariant
            g.wf(),
            i <= n == g.signals@.len(),
            out@ == head0 + vcd_vars_upto(*g, i as int),
        decreases n - i,
    {
        if g.signals[i].dir == Dir::Output {
            out.append("$var wire ");
            crate::emit::push_u64(&mut out, g.signals[i].width as u64);
            out.append(" s");
            crate::emit::push_u64(&mut out, i as u64);
            out.append(" ");
            out.append(g.signals[i].name.as_str());
            out.append(" $end\n");
        }
        proof {
            reveal_strlit("$var wire ");
            reveal_strlit(" s");
            reveal_strlit(" ");
            reveal_strlit(" $end\n");
            assert(out@ =~= head0 + vcd_vars_upto(*g, i + 1));
        }
        i = i + 1;
    }
    out.append("$upscope $end\n$enddefinitions $end\n");
    let ghost head1 = head0 + vcd_vars_upto(*g, g.signals@.len() as int)
        + "$upscope $end\n$enddefinitions $end\n"@;
    proof {
        assert(out@ =~= head1);
    }
    let m = trace.len();
    let mut k: usize = 0;
    while k < m
        invariant
            g.wf(),
            k <= m == trace@.len(),
            forall|j: int|
                0 <= j < trace@.len() ==> (#[trigger] trace@[j]).signal < g.signals@.len(),
            out@ == head1 + vcd_dump_upto(*g, trace@, k as int),
        decreases m - k,
    {
        let e = trace[k];
        if k == 0 || trace[k - 1].time != e.time {
            out.append("#");
            crate::emit::push_u64(&mut out, e.time);
            out.append("\n");
        }
        out.append("b");
        proof {
            assert(g.wf());
            assert(crate::value::width_ok(g.signals@[e.signal as int].width));
        }
        push_bits(&mut out, e.value, g.signals[e.signal].width);
        out.append(" s");
        crate::emit::push_u64(&mut out, e.signal as u64);
        out.append("\n");
        proof {
            reveal_strlit("#");
            reveal_strlit("\n");
            reveal_strlit("b");
            reveal_strlit(" s");
            assert(out@ =~= head1 + vcd_dump_upto(*g, trace@, k + 1));
        }
        k = k + 1;
    }
    out
}

} // verus!
