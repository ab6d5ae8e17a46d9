//! Cross-validation: comparing the simulator's trace against the trace an
//! external reference simulator produced from the emitted description.  A
//! disagreement is reported with the signal name, the time, and the expected
//! and actual values of the first mismatch; a length mismatch reports the
//! two lengths.

use crate::errors::HdlError;
use crate::graph::ModuleGraph;
use crate::sim::TraceEntry;
use vstd::prelude::*;

verus! {

/// The index of the first position where the two traces disagree, or the
/// shorter length if one is a prefix of the other.
pub open spec fn first_trace_diff(a: Seq<TraceEntry>, b: Seq<TraceEntry>, k: int) -> int
    decreases a.len() + b.len() - k,
{
    if k < 0 || k >= a.len() || k >= b.len() {
        if a.len() <= b.len() {
            a.len() as int
        } else {
            b.len() as int
        }
    } else if a[k] != b[k] {
        k
    } else {
        first_trace_diff(a, b, k + 1)
    }
}

/// Compares the simulator's trace against the reference tool's, sample by
/// sample.  Success exactly when they agree at every sampled time for every
/// signal; otherwise the first mismatch is reported with enough context to
/// reproduce it.
pub fn compare_traces(g: &ModuleGraph, ours: &Vec<TraceEntry>, reference: &Vec<TraceEntry>) -> (r:
    Result<(), HdlError>)
    requires
        ours@.len() < 0x8000000000000000,
        reference@.len() < 0x8000000000000000,
    ensures
        match r {
            Ok(()) => ours@ == reference@,
            Err(e) => {
                &&& ours@ != reference@
                &&& ({
                    let k = first_trace_diff(ours@, reference@, 0);
                    if k < ours@.len() && k < reference@.len() {
                        e matches HdlError::CrossValidationMismatch { name, time, expected, actual }
                            && time == ours@[k].time && expected == reference@[k].value && actual
                            == ours@[k].value && (ours@[k].signal < g.signals@.len()
                            ==> name@ == g.signals@[ours@[k].signal as int].name@)
                    } else {
                        e matches HdlError::CrossValidationMismatch { name, time, expected, actual }
                            && time == 0 && expected == reference@.len() && actual == ours@.len()
                    }
                })
            },
        },
{
    let n = ours.len();
    let m = reference.len();
    let mut k: usize = 0;
    while k < n && k < m
        invariant
            n == ours@.len(),
            m == reference@.len(),
            k <= n && k <= m,
            forall|j: int| 0 <= j < k ==> ours@[j] == reference@[j],
        decreases n - k,
    {
        let a = ours[k];
        let b = reference[k];
        if a.time != b.time || a.signal != b.signal || a.value != b.value {
            let nm = if a.signal < g.signals.len() {
                g.signals[a.signal].name.clone()
            } else {
                String::new()
            };
            proof {
                lemma_first_diff_at(ours@, reference@, k as int);
            }
            return Err(
                HdlError::CrossValidationMismatch {
                    name: nm,
                    time: a.time,
                    expected: b.value,
                    actual: a.value,
                },
            );
        }
        k = k + 1;
    }
    if n != m {
        proof {
            lemma_first_diff_end(ours@, reference@, k as int);
            assert(ours@ != reference@) by {
                if ours@ == reference@ {
                    assert(ours@.len() == reference@.len());
                }
            }
        }
        let en: i64 = m as i64;
        let an: i64 = n as i64;
        return Err(
            HdlError::CrossValidationMismatch { name: String::new(), time: 0, expected: en, actual: an },
        );
    }
    proof {
        assert(ours@ =~= reference@);
    }
    Ok(())
}

/// The scan stopped at the first difference.
proof fn lemma_first_diff_at(a: Seq<TraceEntry>, b: Seq<TraceEntry>, k: int)
    requires
        0 <= k < a.len(),
        0 <= k < b.len(),
        a[k] != b[k],
        forall|j: int| 0 <= j < k ==> a[j] == b[j],
    ensures
        first_trace_diff(a, b, 0) == k,
        a != b,
{
    lemma_first_diff_from(a, b, 0, k);
    if a == b {
        assert(a[k] == b[k]);
    }
}

/// Helper induction for `lemma_first_diff_at`.
proof fn lemma_first_diff_from(a: Seq<TraceEntry>, b: Seq<TraceEntry>, s: int, k: int)
    requires
        0 <= s <= k < a.len(),
        k < b.len(),
        a[k] != b[k],
        forall|j: int| s <= j < k ==> a[j] == b[j],
    ensures
        first_trace_diff(a, b, s) == k,
    decreases k - s,
{
    if s < k {
        lemma_first_diff_from(a, b, s + 1, k);
    }
}

/// With one trace a strict prefix of the other, the scan runs off the end.
proof fn lemma_first_diff_end(a: Seq<TraceEntry>, b: Seq<TraceEntry>, k: int)
    requires
        0 <= k,
        k == a.len() || k == b.len(),
        forall|j: int| 0 <= j < k ==> a[j] == b[j],
        k <= a.len() && k <= b.len(),
    ensures
        first_trace_diff(a, b, 0) >= k,
    decreases k,
{
    lemma_first_diff_end_from(a, b, 0, k);
}

/// Helper induction for `lemma_first_diff_end`.
proof fn lemma_first_diff_end_from(a: Seq<TraceEntry>, b: Seq<TraceEntry>, s: int, k: int)
    requires
        0 <= s <= k,
        k == a.len() || k == b.len(),
        forall|j: int| s <= j < k ==> a[j] == b[j],
        k <= a.len() && k <= b.len(),
    ensures
        first_trace_diff(a, b, s) >= k,
    decreases k - s,
{
    if s < k {
        lemma_first_diff_end_from(a, b, s + 1, k);
    }
}

} // verus!
