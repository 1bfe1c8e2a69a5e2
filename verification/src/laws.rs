//! Laws of the debounce state machine, proved over its model.

use crate::debouncer::{DebouncerModel, Edge};
use vstd::prelude::*;

verus! {

/// Once settled on `v`, one more sample of `v` changes nothing and emits
/// nothing.
pub proof fn lemma_settled_step_is_noop<T>(m: DebouncerModel<T>, v: T)
    requires
        m.settled_on(v),
    ensures
        m.step(v) == m,
        m.emit(v) is None,
{
}

/// Once settled on `v`, any number of further samples of `v` leaves the
/// machine unchanged, emits no edge, and keeps it settled on `v`.
pub proof fn lemma_settled_idempotent<T>(m: DebouncerModel<T>, v: T, n: nat)
    requires
        m.settled_on(v),
    ensures
        m.run(Seq::new(n, |i: int| v)) == m,
        m.outputs(Seq::new(n, |i: int| v)) =~= Seq::new(n, |i: int| None::<Edge<T>>),
        m.run(Seq::new(n, |i: int| v)).settled_on(v),
    decreases n,
{
    let s = Seq::new(n, |i: int| v);
    if n > 0 {
        lemma_settled_step_is_noop(m, v);
        assert(s.drop_first() =~= Seq::new((n - 1) as nat, |i: int| v));
        lemma_settled_idempotent(m, v, (n - 1) as nat);
    }
}

/// The counter stays within the threshold. A zero threshold is the one
/// degenerate configuration: there a divergent sample still restarts the
/// count at 1, so 1 is admitted alongside.
pub proof fn lemma_counter_stays_bounded<T>(m: DebouncerModel<T>, sample: T)
    requires
        m.repetition_count <= m.threshold || m.repetition_count == 1,
    ensures
        m.step(sample).repetition_count <= m.threshold || m.step(sample).repetition_count == 1,
        m.threshold >= 1 ==> m.step(sample).repetition_count <= m.threshold,
{
}

/// Exactly one event comes out per sample fed in.
pub proof fn lemma_outputs_len<T>(m: DebouncerModel<T>, samples: Seq<T>)
    ensures
        m.outputs(samples).len() == samples.len(),
    decreases samples.len(),
{
    if samples.len() > 0 {
        lemma_outputs_len(m.step(samples.first()), samples.drop_first());
    }
}

/// Feeding two sample streams one after the other is feeding their
/// concatenation: runs compose, and the outputs concatenate.
pub proof fn lemma_run_append<T>(m: DebouncerModel<T>, s1: Seq<T>, s2: Seq<T>)
    ensures
        m.run(s1 + s2) == m.run(s1).run(s2),
        m.outputs(s1 + s2) =~= m.outputs(s1) + m.run(s1).outputs(s2),
    decreases s1.len(),
{
    if s1.len() == 0 {
        assert(s1 + s2 =~= s2);
    } else {
        let m1 = m.step(s1.first());
        assert((s1 + s2).first() == s1.first());
        assert((s1 + s2).drop_first() =~= s1.drop_first() + s2);
        lemma_run_append(m1, s1.drop_first(), s2);
    }
}

/// Feeding a single sample is one step of the decision table.
pub proof fn lemma_single_step<T>(m: DebouncerModel<T>, x: T)
    ensures
        m.run(seq![x]) == m.step(x),
        m.outputs(seq![x]) =~= seq![m.emit(x)],
{
    assert(seq![x].drop_first() =~= Seq::<T>::empty());
    assert(m.step(x).run(Seq::<T>::empty()) == m.step(x));
    assert(m.step(x).outputs(Seq::<T>::empty()) =~= Seq::<Option<Edge<T>>>::empty());
}

/// While a candidate `b` with a positive count stays short of the threshold,
/// further samples of `b` only raise the count, one per sample, and emit
/// nothing.
pub proof fn lemma_reinforce_run<T>(m: DebouncerModel<T>, b: T, n: nat)
    requires
        m.current_state != b,
        m.next_state == b,
        1 <= m.repetition_count,
        m.repetition_count + n < m.threshold,
    ensures
        ({
            let s = Seq::new(n, |i: int| b);
            &&& m.run(s) == (DebouncerModel {
                current_state: m.current_state,
                next_state: b,
                repetition_count: (m.repetition_count + n) as u8,
                threshold: m.threshold,
            })
            &&& m.outputs(s) =~= Seq::new(n, |i: int| None::<Edge<T>>)
        }),
    decreases n,
{
    let s = Seq::new(n, |i: int| b);
    if n > 0 {
        let m1 = m.step(b);
        assert(s.drop_first() =~= Seq::new((n - 1) as nat, |i: int| b));
        lemma_reinforce_run(m1, b, (n - 1) as nat);
    }
}

/// From a machine tracking candidate `b` with a positive count below the
/// threshold, exactly the samples of `b` that raise the count to the
/// threshold are needed: all but the last emit nothing, the last emits the
/// edge to `b`, and the machine ends settled on `b`.
pub proof fn lemma_confirm_from_progress<T>(m: DebouncerModel<T>, b: T)
    requires
        m.current_state != b,
        m.next_state == b,
        1 <= m.repetition_count < m.threshold,
    ensures
        ({
            let n = (m.threshold - m.repetition_count) as nat;
            let s = Seq::new(n, |i: int| b);
            let out = m.outputs(s);
            &&& out.len() == n
            &&& forall|i: int| 0 <= i < n - 1 ==> out[i] is None
            &&& out.last() == Some(Edge { from: m.current_state, to: b })
            &&& m.run(s) == (DebouncerModel {
                current_state: b,
                next_state: b,
                repetition_count: m.threshold,
                threshold: m.threshold,
            })
            &&& m.run(s).settled_on(b)
        }),
{
    let n = (m.threshold - m.repetition_count) as nat;
    let s = Seq::new(n, |i: int| b);
    let sr = Seq::new((n - 1) as nat, |i: int| b);
    let last = seq![b];
    assert(s =~= sr + last);
    lemma_reinforce_run(m, b, (n - 1) as nat);
    lemma_run_append(m, sr, last);
    let mr = m.run(sr);
    assert(mr.confirms(b));
    lemma_single_step(mr, b);
    assert(mr.outputs(last) =~= seq![Some(Edge { from: m.current_state, to: b })]);
    lemma_outputs_len(m, s);
    assert forall|i: int| 0 <= i < n - 1 implies m.outputs(s)[i] is None by {
        assert(m.outputs(s)[i] == m.outputs(sr)[i]);
    }
}

/// Monotonic confirmation: settled on `a` with threshold at least 2, the
/// machine emits nothing for the first `threshold - 1` consecutive samples of
/// a different value `b`; the `threshold`-th emits exactly the edge from `a`
/// to `b`, and the machine is then settled on `b`.
pub proof fn lemma_monotonic_confirmation<T>(m: DebouncerModel<T>, a: T, b: T)
    requires
        m.settled_on(a),
        b != a,
        2 <= m.threshold,
    ensures
        ({
            let s = Seq::new(m.threshold as nat, |i: int| b);
            let out = m.outputs(s);
            &&& out.len() == m.threshold
            &&& forall|i: int| 0 <= i < m.threshold - 1 ==> out[i] is None
            &&& out.last() == Some(Edge { from: a, to: b })
            &&& m.run(s).settled_on(b)
        }),
{
    let h = m.threshold as nat;
    let s = Seq::new(h, |i: int| b);
    let first = seq![b];
    let rest = Seq::new((h - 1) as nat, |i: int| b);
    assert(s =~= first + rest);
    let m1 = m.step(b);
    lemma_single_step(m, b);
    assert(m.outputs(first) =~= seq![None::<Edge<T>>]);
    lemma_run_append(m, first, rest);
    lemma_confirm_from_progress(m1, b);
    lemma_outputs_len(m, s);
    let out = m.outputs(s);
    assert forall|i: int| 0 <= i < h - 1 implies out[i] is None by {
        if i >= 1 {
            assert(out[i] == m1.outputs(rest)[i - 1]);
        }
    }
    assert(out.last() == m1.outputs(rest).last());
}

/// An outlier discards the candidate streak: settled on `a`, after `k`
/// samples of `b` (short of the threshold) a third distinct value `c` emits
/// nothing, leaves the machine settled on none of `a`, `b`, `c`, and becomes
/// the new candidate with a count of 1 — so confirming `c` takes a fresh run
/// of `threshold` consecutive samples of `c`, counting the outlier itself:
/// all but the last emit nothing, and the last emits the edge from `a` to `c`.
pub proof fn lemma_outlier_resets<T>(m: DebouncerModel<T>, a: T, b: T, c: T, k: nat)
    requires
        m.settled_on(a),
        b != a,
        c != a,
        c != b,
        1 <= k < m.threshold,
        2 <= m.threshold,
    ensures
        ({
            let sb = Seq::new(k, |i: int| b);
            let mk = m.run(sb);
            let m2 = mk.step(c);
            &&& m.outputs(sb) =~= Seq::new(k, |i: int| None::<Edge<T>>)
            &&& mk.emit(c) is None
            &&& m2 == (DebouncerModel {
                current_state: a,
                next_state: c,
                repetition_count: 1,
                threshold: m.threshold,
            })
            &&& !m2.settled_on(a)
            &&& !m2.settled_on(b)
            &&& !m2.settled_on(c)
            &&& ({
                let sc = Seq::new((m.threshold - 1) as nat, |i: int| c);
                let out = m2.outputs(sc);
                &&& out.len() == m.threshold - 1
                &&& forall|i: int| 0 <= i < m.threshold - 2 ==> out[i] is None
                &&& out.last() == Some(Edge { from: a, to: c })
                &&& m2.run(sc).settled_on(c)
            })
        }),
{
    let sb = Seq::new(k, |i: int| b);
    let first = seq![b];
    let rest = Seq::new((k - 1) as nat, |i: int| b);
    assert(sb =~= first + rest);
    let m1 = m.step(b);
    lemma_single_step(m, b);
    lemma_run_append(m, first, rest);
    lemma_reinforce_run(m1, b, (k - 1) as nat);
    let mk = m.run(sb);
    assert(m.outputs(sb) =~= seq![None::<Edge<T>>] + Seq::new(
        (k - 1) as nat,
        |i: int| None::<Edge<T>>,
    ));
    assert(m.outputs(sb) =~= Seq::new(k, |i: int| None::<Edge<T>>));
    let m2 = mk.step(c);
    lemma_confirm_from_progress(m2, c);
}

/// A sample equal to the stable value leaves the stable value and the
/// repetition counter untouched and emits nothing; only the tracked
/// candidate is returned to the stable value.
pub proof fn lemma_readback_keeps_counter<T>(m: DebouncerModel<T>, v: T)
    requires
        m.current_state == v,
    ensures
        m.step(v).current_state == m.current_state,
        m.step(v).repetition_count == m.repetition_count,
        m.step(v).next_state == v,
        m.emit(v) is None,
{
}

/// Edge timing of the readback sequence: settled on `a`, feed `b` once, `a`
/// once, then `b` repeatedly. The readback keeps the counter but returns the
/// candidate to `a`, so a full fresh run of `threshold` consecutive samples
/// of `b` after the readback is needed: every sample before the last emits
/// nothing, and the last emits exactly the edge from `a` to `b`.
pub proof fn lemma_readback_timing<T>(m: DebouncerModel<T>, a: T, b: T)
    requires
        m.settled_on(a),
        b != a,
        2 <= m.threshold,
    ensures
        ({
            let s = seq![b, a] + Seq::new(m.threshold as nat, |i: int| b);
            let out = m.outputs(s);
            &&& out.len() == s.len()
            &&& m.run(seq![b, a]).settled_on(a)
            &&& m.run(seq![b, a]).repetition_count == 1
            &&& forall|i: int| 0 <= i < s.len() - 1 ==> out[i] is None
            &&& out.last() == Some(Edge { from: a, to: b })
            &&& m.run(s).settled_on(b)
        }),
{
    let pre = seq![b, a];
    let sb = Seq::new(m.threshold as nat, |i: int| b);
    let s = pre + sb;
    assert(pre =~= seq![b] + seq![a]);
    let m1 = m.step(b);
    let m2 = m1.step(a);
    lemma_single_step(m, b);
    lemma_single_step(m1, a);
    lemma_run_append(m, seq![b], seq![a]);
    assert(m.run(pre) == m2);
    assert(m.outputs(pre) =~= seq![None::<Edge<T>>, None::<Edge<T>>]);
    lemma_run_append(m, pre, sb);
    lemma_monotonic_confirmation(m2, a, b);
    lemma_outputs_len(m, s);
    lemma_outputs_len(m2, sb);
    let out = m.outputs(s);
    assert forall|i: int| 0 <= i < s.len() - 1 implies out[i] is None by {
        if i >= 2 {
            assert(out[i] == m2.outputs(sb)[i - 2]);
        }
    }
    assert(out.last() == m2.outputs(sb).last());
}

} // verus!
