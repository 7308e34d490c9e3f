//! The wait-free exchange: three cells rotate between the writer, the
//! published place and the pool of free cells.
//!
//! With three cells the writer always finds a free one in a single pass, and
//! the reader never waits either: each operation ends within a fixed number
//! of steps, whatever the other thread does.
use crate::cell::{anything, share, survives_clone, Accepts, OneThread};
use crate::shared::Shared;
use crate::{Reader, Writer};
use std::marker::PhantomData;
use std::sync::Arc;
use vstd::prelude::*;

verus! {

/// The number of cells in the pool.
pub const POOL_SIZE: usize = 3;

/// The reading side of a wait-free exchange.
#[verifier::reject_recursive_types(T)]
pub struct ReadHandle<T: Clone> {
    inner: Arc<Shared<T>>,
    _unimpl_sync: OneThread,
}

/// The writing side of a wait-free exchange.
#[verifier::reject_recursive_types(T)]
pub struct WriteHandle<T: Clone> {
    inner: Arc<Shared<T>>,
    _unimpl_sync: OneThread,
}

impl<T: Clone> ReadHandle<T> {
    /// The predicate that this exchange was built with.
    pub closed spec fn carries(&self) -> Accepts<T> {
        self.inner.accepts()
    }

    /// The number of cells in the pool that this handle reads from.
    pub closed spec fn cells(&self) -> int {
        self.inner.size()
    }

    /// Whether this handle and `writer` stand on one and the same state,
    /// so that what `writer` publishes is what this handle reads.
    pub closed spec fn paired_with(&self, writer: &WriteHandle<T>) -> bool {
        self.inner == writer.inner
    }
}

impl<T: Clone> WriteHandle<T> {
    /// The predicate that this exchange was built with.
    pub closed spec fn carries(&self) -> Accepts<T> {
        self.inner.accepts()
    }

    /// The number of cells in the pool that this handle writes to.
    pub closed spec fn cells(&self) -> int {
        self.inner.size()
    }

    /// Publishes `value`, or hands it back where the scan found no free
    /// cell. While one thread writes and one reads, the scan finds one.
    pub fn try_write(&self, value: T) -> (refused: Result<(), T>)
        requires
            (self.carries())(value),
        ensures
            refused matches Err(returned) ==> returned == value,
    {
        let mut access = self.inner.access();
        crate::board::write(&mut access, value)
    }
}

impl<T: Clone> Reader<T> for ReadHandle<T> {
    open spec fn accepts(&self, value: T) -> bool {
        (self.carries())(value)
    }

    fn read(&self) -> (delivered: Option<T>) {
        let mut access = self.inner.access();
        crate::board::read(&mut access)
    }
}

impl<T: Clone> Writer<T> for WriteHandle<T> {
    open spec fn accepts(&self, value: T) -> bool {
        (self.carries())(value)
    }

    /// A value for which the scan finds no free cell is dropped. While one
    /// thread writes and one reads that does not happen: see
    /// [`crate::pool::lemma_writer_never_waits`].
    fn write(&self, value: T) {
        let _ = self.try_write(value);
    }
}

/// A new exchange that carries only values satisfying `accepts`, as a pair of
/// handles on one shared state. The first read delivers nothing: `init` fills
/// the cells and is never published.
pub fn new_accepting<T: Clone>(init: T, Ghost(accepts): Ghost<Accepts<T>>) -> (pair: (
    ReadHandle<T>,
    WriteHandle<T>,
))
    requires
        accepts(init),
        survives_clone(accepts),
    ensures
        pair.0.paired_with(&pair.1),
        pair.0.cells() == POOL_SIZE,
        pair.1.cells() == POOL_SIZE,
        pair.0.carries() == accepts,
        pair.1.carries() == accepts,
{
    let inner = Arc::new(Shared::new(POOL_SIZE, init, Ghost(accepts)));
    let r = ReadHandle { inner: share(&inner), _unimpl_sync: PhantomData };
    let w = WriteHandle { inner, _unimpl_sync: PhantomData };
    (r, w)
}

/// A new exchange that carries any value, as a pair of handles on one shared
/// state. The first read delivers nothing: `init` fills the cells and is
/// never published.
pub fn new<T: Clone>(init: T) -> (pair: (ReadHandle<T>, WriteHandle<T>))
    ensures
        pair.0.paired_with(&pair.1),
        pair.0.cells() == POOL_SIZE,
        pair.1.cells() == POOL_SIZE,
        pair.0.carries() == anything::<T>(),
        pair.1.carries() == anything::<T>(),
{
    new_accepting(init, Ghost(anything::<T>()))
}

} // verus!
