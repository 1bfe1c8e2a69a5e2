//! A two-state pin specialization of the generic machine, with
//! domain-friendly accessors.

use crate::debouncer::{Debouncer, DebouncerModel, Edge};
use vstd::laws_eq::obeys_concrete_eq;
use vstd::prelude::*;

verus! {

/// The logical level of a binary input pin.
#[derive(Debug, Clone, Copy)]
pub enum PinState {
    Low,
    High,
}

impl PartialEq for PinState {
    fn eq(&self, other: &Self) -> (r: bool) {
        match (self, other) {
            (PinState::Low, PinState::Low) => true,
            (PinState::High, PinState::High) => true,
            _ => false,
        }
    }
}

impl vstd::std_specs::cmp::PartialEqSpecImpl for PinState {
    open spec fn obeys_eq_spec() -> bool {
        true
    }

    open spec fn eq_spec(&self, other: &Self) -> bool {
        *self == *other
    }
}

/// `PinState`'s `==` agrees with equality in specifications.
pub proof fn lemma_pin_state_obeys_eq()
    ensures
        obeys_concrete_eq::<PinState>(),
{
    reveal(vstd::laws_eq::obeys_concrete_eq);
}

/// A debouncer for a binary pin, with an 8-bit repetition counter.
#[derive(Debug)]
pub struct SmallPinDebouncer {
    inner: Debouncer<PinState>,
}

impl View for SmallPinDebouncer {
    type V = DebouncerModel<PinState>;

    closed spec fn view(&self) -> DebouncerModel<PinState> {
        self.inner@
    }
}

impl SmallPinDebouncer {
    /// A machine already settled on `initial_state`.
    pub fn new(threshold: u8, initial_state: PinState) -> (r: Self)
        ensures
            r@ == (DebouncerModel {
                current_state: initial_state,
                next_state: initial_state,
                repetition_count: threshold,
                threshold,
            }),
    {
        SmallPinDebouncer { inner: Debouncer::new(threshold, initial_state) }
    }

    /// Feed one raw pin reading; follows the generic machine's decision table.
    pub fn update(&mut self, state: PinState) -> (r: Option<Edge<PinState>>)
        ensures
            final(self)@ == old(self)@.step(state),
            r == old(self)@.emit(state),
    {
        proof {
            lemma_pin_state_obeys_eq();
        }
        self.inner.update(state)
    }

    /// True iff the pin is settled high.
    pub fn is_high(&self) -> (r: bool)
        ensures
            r == self@.settled_on(PinState::High),
    {
        proof {
            lemma_pin_state_obeys_eq();
        }
        self.inner.is_state(PinState::High)
    }

    /// True iff the pin is settled low.
    pub fn is_low(&self) -> (r: bool)
        ensures
            r == self@.settled_on(PinState::Low),
    {
        proof {
            lemma_pin_state_obeys_eq();
        }
        self.inner.is_state(PinState::Low)
    }
}

} // verus!
