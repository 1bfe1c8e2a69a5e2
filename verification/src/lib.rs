//! A generic, allocation-free debouncing state machine.
//!
//! Noisy, rapidly-toggling signals (mechanical switches, GPIO pins, small
//! enumerated sensor readings) are filtered through a counter-based
//! consistency filter: a raw sample is fed in on each call, and the machine
//! reports a stable logical state plus discrete transition events.

pub mod debouncer;
pub mod laws;
pub mod pin;
