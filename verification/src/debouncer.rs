//! The debounce state machine and its mathematical model.
//!
//! `Debouncer<T>` filters a stream of raw samples of an equatable, copyable
//! state type `T` down to a stable value plus confirmed transition events
//! (`Edge<T>`). Its whole behaviour is described by the pure transition
//! function `DebouncerModel::step` and the output function
//! `DebouncerModel::emit`, which the executable methods are proved to follow.

use vstd::laws_eq::obeys_concrete_eq;
use vstd::prelude::*;

verus! {

/// A confirmed transition: the machine's stable value changed `from` one
/// value `to` another. A transient return value; the machine does not keep it.
#[derive(Debug, PartialEq, Clone, Copy)]
pub struct Edge<T> {
    pub from: T,
    pub to: T,
}

impl<T> Edge<T> {
    pub fn new(from: T, to: T) -> (r: Self)
        ensures
            r == (Edge { from, to }),
    {
        Edge { from, to }
    }
}

/// The abstract state of a debouncer, used in all contracts: the last
/// confirmed value, the candidate value most recently seen, the number of
/// consecutive reinforcements of the candidate, and the confirmation
/// threshold fixed at construction.
pub struct DebouncerModel<T> {
    pub current_state: T,
    pub next_state: T,
    pub repetition_count: u8,
    pub threshold: u8,
}

impl<T> DebouncerModel<T> {
    /// The machine is settled on exactly `state`: no transition is pending.
    pub open spec fn settled_on(self, state: T) -> bool {
        self.current_state == self.next_state && self.current_state == state
    }

    /// `sample` is the reinforcement that reaches the threshold: the next
    /// update with it confirms a transition.
    pub open spec fn confirms(self, sample: T) -> bool {
        &&& sample != self.current_state
        &&& sample == self.next_state
        &&& self.repetition_count + 1 >= self.threshold
    }

    /// One step of the decision table, in priority order:
    /// a sample equal to the stable value resets the candidate to it and
    /// leaves the counter alone; a sample new to both restarts the count at 1;
    /// a reinforcing sample short of the threshold increments the count; a
    /// reinforcing sample reaching the threshold confirms the candidate and
    /// pins the count at the threshold.
    pub open spec fn step(self, sample: T) -> Self {
        if sample == self.current_state {
            DebouncerModel {
                current_state: self.current_state,
                next_state: sample,
                repetition_count: self.repetition_count,
                threshold: self.threshold,
            }
        } else if sample != self.next_state {
            DebouncerModel {
                current_state: self.current_state,
                next_state: sample,
                repetition_count: 1,
                threshold: self.threshold,
            }
        } else if self.repetition_count + 1 < self.threshold {
            DebouncerModel {
                current_state: self.current_state,
                next_state: sample,
                repetition_count: (self.repetition_count + 1) as u8,
                threshold: self.threshold,
            }
        } else {
            DebouncerModel {
                current_state: sample,
                next_state: sample,
                repetition_count: self.threshold,
                threshold: self.threshold,
            }
        }
    }

    /// The event a step returns: an edge exactly when the sample confirms.
    pub open spec fn emit(self, sample: T) -> Option<Edge<T>> {
        if self.confirms(sample) {
            Some(Edge { from: self.current_state, to: sample })
        } else {
            None
        }
    }

    /// The machine after feeding `samples` in order.
    pub open spec fn run(self, samples: Seq<T>) -> Self
        decreases samples.len(),
    {
        if samples.len() == 0 {
            self
        } else {
            self.step(samples.first()).run(samples.drop_first())
        }
    }

    /// The events returned while feeding `samples` in order.
    pub open spec fn outputs(self, samples: Seq<T>) -> Seq<Option<Edge<T>>>
        decreases samples.len(),
    {
        if samples.len() == 0 {
            Seq::empty()
        } else {
            seq![self.emit(samples.first())] + self.step(samples.first()).outputs(
                samples.drop_first(),
            )
        }
    }
}

/// The debounce state machine. Construct it once per signal, feed every raw
/// sample to `update`, and read the settled value through `is_state`.
#[derive(Debug)]
pub struct Debouncer<T> {
    current_state: T,
    next_state: T,
    repetition_count: u8,
    threshold: u8,
}

impl<T> View for Debouncer<T> {
    type V = DebouncerModel<T>;

    closed spec fn view(&self) -> DebouncerModel<T> {
        DebouncerModel {
            current_state: self.current_state,
            next_state: self.next_state,
            repetition_count: self.repetition_count,
            threshold: self.threshold,
        }
    }
}

impl<T: PartialEq + Copy> Debouncer<T> {
    /// A machine already settled on `initial_state`, with the counter pinned
    /// at `threshold`.
    pub fn new(threshold: u8, initial_state: T) -> (r: Self)
        ensures
            r@ == (DebouncerModel {
                current_state: initial_state,
                next_state: initial_state,
                repetition_count: threshold,
                threshold,
            }),
    {
        Debouncer {
            current_state: initial_state,
            next_state: initial_state,
            repetition_count: threshold,
            threshold,
        }
    }

    /// Feed one raw sample; follows `DebouncerModel::step` and returns
    /// `DebouncerModel::emit` of the state before the call.
    pub fn update(&mut self, state: T) -> (r: Option<Edge<T>>)
        requires
            obeys_concrete_eq::<T>(),
        ensures
            final(self)@ == old(self)@.step(state),
            r == old(self)@.emit(state),
    {
        proof {
            reveal(vstd::laws_eq::obeys_concrete_eq);
        }
        if self.current_state == state {
            self.next_state = state;
            None
        } else if self.next_state != state {
            self.next_state = state;
            self.repetition_count = 1;
            None
        } else if self.repetition_count < self.threshold && self.repetition_count + 1
            < self.threshold {
            self.next_state = state;
            self.repetition_count = self.repetition_count + 1;
            None
        } else {
            let from_state = self.current_state;
            let to_state = self.next_state;
            self.current_state = state;
            self.next_state = state;
            self.repetition_count = self.threshold;
            Some(Edge::new(from_state, to_state))
        }
    }

    /// True iff the machine is settled on exactly `state`. During a pending
    /// transition this is false for the old and the prospective new value.
    pub fn is_state(&self, state: T) -> (r: bool)
        requires
            obeys_concrete_eq::<T>(),
        ensures
            r == self@.settled_on(state),
    {
        proof {
            reveal(vstd::laws_eq::obeys_concrete_eq);
        }
        self.current_state == self.next_state && self.current_state == state
    }
}

} // verus!
