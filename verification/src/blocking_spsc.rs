//! The bounded-spin exchange: two cells rotate between the writer, the
//! published place and the pool of free cells.
//!
//! With two cells the writer may find none free: one is published and the
//! reader is still copying the other. It then scans again until the reader
//! frees its cell. The reader never waits.
use crate::cell::{anything, share, survives_clone, Accepts, OneThread};
use crate::shared::Shared;
use crate::signal::relax;
use crate::{Reader, Writer};
use std::marker::PhantomData;
use std::sync::Arc;
use vstd::prelude::*;

verus! {

/// The number of cells in the pool.
pub const POOL_SIZE: usize = 2;

/// The number of scans that may fail before the writer gives way to other
/// threads between one scan and the next.
pub const BUSY_RETRIES: u64 = 20;

/// What a writer does between a scan that found no free cell and the next.
#[derive(Clone, Copy, Debug, PartialEq, Eq)]
pub enum Pause {
    /// Scan again at once.
    Spin,
    /// Give way to other threads, then scan again.
    Yield,
}

/// The pause after the scan of number `round`, counted from nought, has
/// failed: the first twenty scans follow each other at once, every later one
/// comes after giving way.
pub fn pause_after(round: u64) -> (pause: Pause)
    ensures
        pause == if round >= BUSY_RETRIES {
            Pause::Yield
        } else {
            Pause::Spin
        },
{
    if round >= BUSY_RETRIES {
        Pause::Yield
    } else {
        Pause::Spin
    }
}

/// The reading side of a bounded-spin exchange.
#[verifier::reject_recursive_types(T)]
pub struct ReadHandle<T: Clone> {
    inner: Arc<Shared<T>>,
    _unimpl_sync: OneThread,
}

/// The writing side of a bounded-spin exchange.
#[verifier::reject_recursive_types(T)]
pub struct WriteHandle<T: Clone> {
    inner: Arc<Shared<T>>,
    _unimpl_sync: OneThread,
}

impl<T: Clone> ReadHandle<T> {
    /// The predicate that this exchange was built with.
    pub closed spec fn carries(&self) -> Accepts<T> {
        self.inner.accepts()
    }

    /// The number of cells in the pool that this handle reads from.
    pub closed spec fn cells(&self) -> int {
        self.inner.size()
    }

    /// Whether this handle and `writer` stand on one and the same state,
    /// so that what `writer` publishes is what this handle reads.
    pub closed spec fn paired_with(&self, writer: &WriteHandle<T>) -> bool {
        self.inner == writer.inner
    }
}

impl<T: Clone> WriteHandle<T> {
    /// The predicate that this exchange was built with.
    pub closed spec fn carries(&self) -> Accepts<T> {
        self.inner.accepts()
    }

    /// The number of cells in the pool that this handle writes to.
    pub closed spec fn cells(&self) -> int {
        self.inner.size()
    }

    /// Publishes `value` if one scan finds a free cell, and hands it back if
    /// not: then the reader holds one cell and the other is published.
    pub fn try_write(&self, value: T) -> (refused: Result<(), T>)
        requires
            (self.carries())(value),
        ensures
            refused matches Err(returned) ==> returned == value,
    {
        let mut access = self.inner.access();
        crate::board::write(&mut access, value)
    }

    /// Publishes `value`, scanning up to `rounds` times for a free cell, and
    /// hands it back if none of the scans found one. With no round allowed
    /// nothing is tried.
    ///
    /// Where [`pause_after`] says to give way, this only tells the processor
    /// that the thread is waiting. A caller that wants to hand its time slice
    /// to the scheduler drives [`WriteHandle::try_write`] itself.
    pub fn write_within(&self, value: T, rounds: u64) -> (refused: Result<(), T>)
        requires
            (self.carries())(value),
        ensures
            refused matches Err(returned) ==> returned == value,
            rounds == 0 ==> refused is Err,
    {
        let mut pending = value;
        let mut round: u64 = 0;
        while round < rounds
            invariant
                pending == value,
                (self.carries())(value),
            decreases rounds - round,
        {
            match self.try_write(pending) {
                Ok(()) => {
                    return Ok(());
                },
                Err(returned) => {
                    pending = returned;
                },
            }
            match pause_after(round) {
                Pause::Yield => relax(),
                Pause::Spin => {},
            }
            round += 1;
        }
        Err(pending)
    }
}

impl<T: Clone> Reader<T> for ReadHandle<T> {
    open spec fn accepts(&self, value: T) -> bool {
        (self.carries())(value)
    }

    fn read(&self) -> (delivered: Option<T>) {
        let mut access = self.inner.access();
        crate::board::read(&mut access)
    }
}

impl<T: Clone> Writer<T> for WriteHandle<T> {
    open spec fn accepts(&self, value: T) -> bool {
        (self.carries())(value)
    }

    /// Scans until a cell is free. The count of scans is a `u64`: a writer
    /// that has run through all of it gives the value up.
    fn write(&self, value: T) {
        let _ = self.write_within(value, u64::MAX);
    }
}

/// A new exchange that carries only values satisfying `accepts`, as a pair of
/// handles on one shared state. The first read delivers nothing: `init` fills
/// the cells and is never published.
pub fn new_accepting<T: Clone>(init: T, Ghost(accepts): Ghost<Accepts<T>>) -> (pair: (
    ReadHandle<T>,
    WriteHandle<T>,
))
    requires
        accepts(init),
        survives_clone(accepts),
    ensures
        pair.0.paired_with(&pair.1),
        pair.0.cells() == POOL_SIZE,
        pair.1.cells() == POOL_SIZE,
        pair.0.carries() == accepts,
        pair.1.carries() == accepts,
{
    let inner = Arc::new(Shared::new(POOL_SIZE, init, Ghost(accepts)));
    let r = ReadHandle { inner: share(&inner), _unimpl_sync: PhantomData };
    let w = WriteHandle { inner, _unimpl_sync: PhantomData };
    (r, w)
}

/// A new exchange that carries any value, as a pair of handles on one shared
/// state. The first read delivers nothing: `init` fills the cells and is
/// never published.
pub fn new<T: Clone>(init: T) -> (pair: (ReadHandle<T>, WriteHandle<T>))
    ensures
        pair.0.paired_with(&pair.1),
        pair.0.cells() == POOL_SIZE,
        pair.1.cells() == POOL_SIZE,
        pair.0.carries() == anything::<T>(),
        pair.1.carries() == anything::<T>(),
{
    new_accepting(init, Ghost(anything::<T>()))
}

} // verus!
