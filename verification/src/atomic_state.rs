//! The process state word shared between threads.
//!
//! Every operation here reads or changes the word atomically; what it finds
//! there depends on the other threads, so nothing is stated of the values
//! read.

use vstd::prelude::*;
use std::sync::atomic::{AtomicU64, Ordering};
use crate::proc_state::{State, StateFlags};

verus! {

/// The orderings a load may use: std panics on `Release` and `AcqRel`. The
/// same holds of the ordering a compare-exchange uses when it fails.
pub open spec fn load_ordering(o: Ordering) -> bool {
    o != Ordering::Release && o != Ordering::AcqRel
}

/// The orderings a store may use: std panics on `Acquire` and `AcqRel`.
pub open spec fn store_ordering(o: Ordering) -> bool {
    o != Ordering::Acquire && o != Ordering::AcqRel
}

/// `AtomicU64::compare_exchange`: on success the value it gives back is the
/// one it was asked to replace. Nothing is known of the value on failure. It
/// panics when the failure ordering is `Release` or `AcqRel`.
#[verifier::external_body]
fn word_compare_exchange(a: &AtomicU64, current: u64, new: u64, success: Ordering, failure: Ordering) -> (r:
    Result<u64, u64>)
    requires
        load_ordering(failure),
    ensures
        r matches Ok(v) ==> v == current,
{
    a.compare_exchange(current, new, success, failure)
}

/// `AtomicU64::compare_exchange_weak`: on success the value it gives back is
/// the one it was asked to replace. It may fail spuriously; nothing is known
/// of the value on failure. It panics when the failure ordering is `Release`
/// or `AcqRel`.
#[verifier::external_body]
fn word_compare_exchange_weak(a: &AtomicU64, current: u64, new: u64, success: Ordering, failure: Ordering) -> (r:
    Result<u64, u64>)
    requires
        load_ordering(failure),
    ensures
        r matches Ok(v) ==> v == current,
{
    a.compare_exchange_weak(current, new, success, failure)
}

/// A process state that threads read and change atomically.
pub struct AtomicState {
    inner: AtomicU64,
}

impl AtomicState {
    /// A shared word holding `v`.
    pub fn new(v: State) -> (a: AtomicState) {
        AtomicState { inner: AtomicU64::new(v.into_u64()) }
    }

    /// The current state.
    pub fn load(&self, order: Ordering) -> (s: State)
        requires
            load_ordering(order),
    {
        State::from_u64(self.inner.load(order))
    }

    /// Replaces the state.
    pub fn store(&self, state: State, order: Ordering)
        requires
            store_ordering(order),
    {
        self.inner.store(state.into_u64(), order)
    }

    /// Installs `new` if the state is `current`; gives back the state found,
    /// which on success is `current`.
    pub fn compare_exchange(&self, current: State, new: State, success: Ordering, failure: Ordering) -> (r: Result<
        State,
        State,
    >)
        requires
            load_ordering(failure),
        ensures
            r matches Ok(v) ==> v == current,
    {
        match word_compare_exchange(&self.inner, current.into_u64(), new.into_u64(), success, failure) {
            Ok(u) => Ok(State::from_u64(u)),
            Err(u) => Err(State::from_u64(u)),
        }
    }

    /// Like [`AtomicState::compare_exchange`], but may fail spuriously.
    pub fn compare_exchange_weak(&self, current: State, new: State, success: Ordering, failure: Ordering) -> (r: Result<
        State,
        State,
    >)
        requires
            load_ordering(failure),
        ensures
            r matches Ok(v) ==> v == current,
    {
        match word_compare_exchange_weak(&self.inner, current.into_u64(), new.into_u64(), success, failure) {
            Ok(u) => Ok(State::from_u64(u)),
            Err(u) => Err(State::from_u64(u)),
        }
    }

    /// Sets the flags of `val`; gives back the previous state.
    pub fn fetch_or(&self, val: StateFlags, order: Ordering) -> (s: State) {
        let store = State::flags_word(val);
        State::from_u64(self.inner.fetch_or(store, order))
    }

    /// Keeps only the flags of `val`; gives back the previous state.
    pub fn fetch_and(&self, val: StateFlags, order: Ordering) -> (s: State) {
        let store = State::flags_mask_word(val);
        State::from_u64(self.inner.fetch_and(store, order))
    }

    /// Adds `val` references; gives back the previous state.
    pub fn fetch_add(&self, val: u32, order: Ordering) -> (s: State) {
        let store = State::refs_word(val);
        State::from_u64(self.inner.fetch_add(store, order))
    }

    /// Drops `val` references; gives back the previous state.
    pub fn fetch_sub(&self, val: u32, order: Ordering) -> (s: State) {
        let store = State::refs_word(val);
        State::from_u64(self.inner.fetch_sub(store, order))
    }
}

} // verus!
