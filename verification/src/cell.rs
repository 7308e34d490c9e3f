//! A value shared between the two sides of an exchange.
//!
//! The exchange protocols see to it that the two sides never touch one cell
//! at the same time; the cell's own lock is what lets them touch it at all.
//! Every cell carries the predicate of the values it may hold, so a value
//! that comes out of one is known to satisfy it.
use std::sync::Arc;
use vstd::prelude::*;
use vstd::rwlock::RwLock;

verus! {

/// A predicate over the values that an exchange carries.
pub type Accepts<T> = spec_fn(T) -> bool;

/// A shared cell that holds one value satisfying its predicate.
pub type Cell<T> = RwLock<T, spec_fn(T) -> bool>;

/// Whether a copy of an accepted value is accepted too. The exchanges hand
/// out copies, so they carry only such predicates.
pub open spec fn survives_clone<T: Clone>(accepts: Accepts<T>) -> bool {
    forall|value: T, copy: T| #[trigger]
        cloned(value, copy) && accepts(value) ==> accepts(copy)
}

/// The predicate that every value satisfies.
pub open spec fn anything<T>() -> Accepts<T> {
    |value: T| true
}

/// A new cell holding `value`.
pub(crate) fn fresh<T>(value: T, Ghost(accepts): Ghost<Accepts<T>>) -> (cell: Cell<T>)
    requires
        accepts(value),
    ensures
        cell.pred() == accepts,
{
    RwLock::new(value, Ghost(accepts))
}

/// Puts `value` in place of what the cell held.
pub(crate) fn store<T>(cell: &Cell<T>, value: T)
    requires
        cell.inv(value),
{
    let (_, handle) = cell.acquire_write();
    handle.release_write(value);
}

/// A copy of what the cell holds.
pub(crate) fn load<T: Clone>(cell: &Cell<T>) -> (value: T)
    requires
        survives_clone(cell.pred()),
    ensures
        cell.inv(value),
{
    let handle = cell.acquire_read();
    let value = handle.borrow().clone();
    assert(cloned(handle.view(), value));
    handle.release_read();
    value
}

/// `std::cell::Cell`, which may move to another thread and may not be shared
/// by reference between two. Nothing is stored in one here: a handle names
/// the type to take on that restriction.
#[verifier::external_type_specification]
#[verifier::external_body]
#[verifier::reject_recursive_types(T)]
pub struct ExStdCell<T: ?Sized>(std::cell::Cell<T>);

/// What makes a handle the affair of one thread at a time: it may be handed
/// to another thread whole, and no two threads may use it through references.
pub type OneThread = std::marker::PhantomData<std::cell::Cell<()>>;

/// A second owner of the same shared value, by `std::sync::Arc::clone`. To
/// Verus an `Arc` is the value it points to, so the claim is that the new
/// handle points to what the old one points to.
#[verifier::external_body]
pub(crate) fn share<T>(shared: &Arc<T>) -> (other: Arc<T>)
    ensures
        other == *shared,
{
    Arc::clone(shared)
}

} // verus!
