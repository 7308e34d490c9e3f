//! The atomic operations that the exchanges are built from, each with the
//! memory ordering that its use asks for.
//!
//! What an atomic holds is shared with another thread, so nothing is known of
//! a value read here beyond its type: callers decide on what came back.
use std::sync::atomic::{AtomicBool, AtomicIsize, AtomicU64, Ordering};
use vstd::prelude::*;

verus! {

/// Clears the flag and tells whether it was set: a test-and-set that claims
/// what the flag guards. Pairs with [`raise`] on the side that gives it back.
pub(crate) fn claim(flag: &AtomicBool) -> (was_set: bool) {
    flag.swap(false, Ordering::AcqRel)
}

/// Sets the flag, making everything written before visible to whoever sees it set.
pub(crate) fn raise(flag: &AtomicBool) {
    flag.store(true, Ordering::Release)
}

/// Clears the flag.
pub(crate) fn lower(flag: &AtomicBool) {
    flag.store(false, Ordering::Release)
}

/// Tells whether the flag is set, seeing everything written before it was raised.
pub(crate) fn is_raised(flag: &AtomicBool) -> (set: bool) {
    flag.load(Ordering::Acquire)
}

/// Puts `next` in place of the stored word and hands the old one back, as one step.
pub(crate) fn exchange(word: &AtomicIsize, next: isize) -> (previous: isize) {
    word.swap(next, Ordering::AcqRel)
}

/// Hands out the counter's value and moves it on by one, wrapping at the end
/// of its range.
pub(crate) fn take_number(counter: &AtomicU64) -> (number: u64) {
    counter.fetch_add(1, Ordering::Relaxed)
}

/// Reads the counter, seeing everything written before it was last [`post`]ed.
pub(crate) fn watch(counter: &AtomicU64) -> (number: u64) {
    counter.load(Ordering::Acquire)
}

/// Reads the counter with no ordering: for the one thread that also writes it.
pub(crate) fn peek(counter: &AtomicU64) -> (number: u64) {
    counter.load(Ordering::Relaxed)
}

/// Stores `number`, making everything written before visible to a [`watch`]er.
pub(crate) fn post(counter: &AtomicU64, number: u64) {
    counter.store(number, Ordering::Release)
}

/// Tells the processor that this thread is waiting for another, by
/// `std::hint::spin_loop`. It changes nothing that a program can see, so
/// nothing is claimed of it.
#[verifier::external_body]
pub(crate) fn relax() {
    std::hint::spin_loop()
}

} // verus!
