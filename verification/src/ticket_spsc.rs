//! The exchange that keeps one value behind a ticket lock, with an atomic
//! flag that tells the reader whether there is anything new.
//!
//! The ticket lock is fair: whoever asks first enters first. A read that
//! finds the flag down takes no lock.
use crate::buffer::{Buffer, Slot};
use crate::cell::{anything, fresh, share, survives_clone, Accepts, Cell, OneThread};
use crate::signal::{is_raised, lower, peek, post, raise, take_number, watch};
use crate::{Reader, Writer};
use std::sync::atomic::{AtomicBool, AtomicU64};
use std::marker::PhantomData;
use std::sync::Arc;
use vstd::prelude::*;

verus! {

/// Whether the holder of `ticket` may enter while `now_serving` is served.
pub fn is_served(ticket: u64, now_serving: u64) -> (served: bool)
    ensures
        served == (ticket == now_serving),
{
    ticket == now_serving
}

/// The number served after `now_serving`: one more, and nought after the
/// last number that a counter holds, as the tickets themselves wrap.
pub fn following(now_serving: u64) -> (next: u64)
    ensures
        next == (now_serving + 1) % 0x1_0000_0000_0000_0000,
{
    now_serving.wrapping_add(1)
}

/// A fair lock around one value: tickets are served in the order taken.
#[verifier::reject_recursive_types(T)]
struct TicketMutex<T: Clone> {
    data: Cell<T>,
    now_serving: AtomicU64,
    next_ticket: AtomicU64,
}

impl<T: Clone> TicketMutex<T> {
    spec fn accepts(&self) -> Accepts<T> {
        self.data.pred()
    }

    #[verifier::type_invariant]
    spec fn wf(&self) -> bool {
        survives_clone(self.data.pred())
    }

    /// A lock around `init` that nobody holds: no ticket taken, and the
    /// first one served at once.
    fn new(init: T, Ghost(accepts): Ghost<Accepts<T>>) -> (mutex: Self)
        requires
            accepts(init),
            survives_clone(accepts),
        ensures
            mutex.accepts() == accepts,
    {
        TicketMutex {
            data: fresh(init, Ghost(accepts)),
            now_serving: AtomicU64::new(0),
            next_ticket: AtomicU64::new(0),
        }
    }

    /// Takes a ticket and waits until it is served. The wait is counted in a
    /// `u64`; a thread that has run through all of it gives up, and the lock
    /// is then of no more use, for its ticket will never be given back.
    fn lock(&self) -> (entered: Result<TicketGuard<'_, T>, ()>)
        ensures
            entered matches Ok(guard) ==> guard.mutex == self && guard.wf(),
    {
        let ticket = take_number(&self.next_ticket);
        let mut looks: u64 = 0;
        while looks < u64::MAX
            decreases u64::MAX - looks,
        {
            if is_served(ticket, watch(&self.now_serving)) {
                return Ok(TicketGuard::new(self));
            }
            looks += 1;
        }
        Err(())
    }

    /// Serves the next ticket.
    fn unlock(&self) {
        let now_serving = following(peek(&self.now_serving));
        post(&self.now_serving, now_serving);
    }
}

/// The right to the value behind a ticket lock, from entering to leaving.
/// The guard takes the value out on the way in and puts it back on the way
/// out; in between nobody else can reach it.
#[verifier::reject_recursive_types(T)]
struct TicketGuard<'a, T: Clone> {
    mutex: &'a TicketMutex<T>,
    value: T,
    handle: vstd::rwlock::WriteHandle<'a, T, spec_fn(T) -> bool>,
}

impl<'a, T: Clone> TicketGuard<'a, T> {
    /// The guard belongs to its lock, and the value it holds is one that
    /// the lock accepts.
    spec fn wf(&self) -> bool {
        &&& self.handle.rwlock() == self.mutex.data
        &&& (self.mutex.accepts())(self.value)
    }

    fn new(mutex: &'a TicketMutex<T>) -> (guard: Self)
        ensures
            guard.mutex == mutex,
            guard.wf(),
    {
        let (value, handle) = mutex.data.acquire_write();
        TicketGuard { mutex, value, handle }
    }

    /// A copy of the value behind the lock.
    fn get(&self) -> (value: T)
        requires
            self.wf(),
        ensures
            (self.mutex.accepts())(value),
            cloned(self.value, value),
    {
        proof {
            use_type_invariant(self.mutex);
        }
        let value = self.value.clone();
        assert(cloned(self.value, value));
        value
    }

    /// Puts `value` behind the lock, in place of the value held.
    fn set(&mut self, value: T)
        requires
            old(self).wf(),
            (old(self).mutex.accepts())(value),
        ensures
            final(self).wf(),
            final(self).mutex == old(self).mutex,
            final(self).value == value,
    {
        self.value = value;
    }

    /// Leaves the lock, with the value held behind it.
    fn release(self)
        requires
            self.wf(),
    {
        let TicketGuard { mutex, value, handle } = self;
        handle.release_write(value);
        mutex.unlock()
    }
}

#[verifier::reject_recursive_types(T)]
struct Inner<T: Clone> {
    data: TicketMutex<T>,
    to_read: AtomicBool,
}

impl<T: Clone> Inner<T> {
    spec fn accepts(&self) -> Accepts<T> {
        self.data.accepts()
    }

    /// A buffer that holds `init`, with the flag down.
    fn new(init: T, Ghost(accepts): Ghost<Accepts<T>>) -> (inner: Self)
        requires
            accepts(init),
            survives_clone(accepts),
        ensures
            inner.accepts() == accepts,
    {
        Inner { data: TicketMutex::new(init, Ghost(accepts)), to_read: AtomicBool::new(false) }
    }

    /// This thread's access to the buffer, outside the lock.
    fn access(&self) -> (access: Access<'_, T>)
        ensures
            access.wf(),
            !access.inside(),
            !access.exact(),
            access.accepts() == self.accepts(),
    {
        Access { inner: self, guard: None }
    }

    /// Stores `value` and raises the flag, or hands the value back where the
    /// lock could not be had.
    fn write(&self, value: T) -> (refused: Result<(), T>)
        requires
            (self.accepts())(value),
        ensures
            refused matches Err(returned) ==> returned == value,
    {
        let mut access = self.access();
        crate::buffer::write(&mut access, value)
    }

    fn read(&self) -> (delivered: Option<T>)
        ensures
            delivered matches Some(value) ==> (self.accepts())(value),
    {
        let mut access = self.access();
        crate::buffer::read(&mut access)
    }
}

/// One thread's access to the shared buffer, with the guard while it is
/// inside the lock.
#[verifier::reject_recursive_types(T)]
struct Access<'a, T: Clone> {
    inner: &'a Inner<T>,
    guard: Option<TicketGuard<'a, T>>,
}

impl<'a, T: Clone> Slot<T> for Access<'a, T> {
    closed spec fn exact(&self) -> bool {
        false
    }

    closed spec fn sure(&self) -> bool {
        false
    }

    closed spec fn accepts(&self) -> Accepts<T> {
        self.inner.accepts()
    }

    closed spec fn buffer(&self) -> Buffer<T> {
        arbitrary()
    }

    closed spec fn inside(&self) -> bool {
        self.guard.is_some()
    }

    closed spec fn value(&self) -> T {
        self.guard.unwrap().value
    }

    closed spec fn wf(&self) -> bool {
        self.guard matches Some(guard) ==> guard.mutex == self.inner.data && guard.wf()
    }

    proof fn lemma_shape(&self) {
    }

    fn is_unread(&self) -> (unread: bool) {
        is_raised(&self.inner.to_read)
    }

    fn enter(&mut self) -> (entered: bool) {
        match self.inner.data.lock() {
            Ok(guard) => {
                self.guard = Some(guard);
                true
            },
            Err(_) => false,
        }
    }

    fn leave(&mut self) {
        match self.guard.take() {
            Some(guard) => guard.release(),
            None => {},
        }
    }

    fn store(&mut self, value: T) {
        match self.guard.take() {
            Some(mut guard) => {
                guard.set(value);
                self.guard = Some(guard);
            },
            None => {},
        }
    }

    fn load(&self) -> (value: T) {
        match &self.guard {
            Some(guard) => guard.get(),
            None => {
                proof {
                    assert(false);
                }
                unreached()
            },
        }
    }

    fn mark(&mut self, unread: bool) {
        if unread {
            raise(&self.inner.to_read);
        } else {
            lower(&self.inner.to_read);
        }
    }
}

/// The reading side of a ticket-lock exchange.
#[verifier::reject_recursive_types(T)]
pub struct ReadHandle<T: Clone> {
    inner: Arc<Inner<T>>,
    _unimpl_sync: OneThread,
}

/// The writing side of a ticket-lock exchange.
#[verifier::reject_recursive_types(T)]
pub struct WriteHandle<T: Clone> {
    inner: Arc<Inner<T>>,
    _unimpl_sync: OneThread,
}

impl<T: Clone> ReadHandle<T> {
    /// The predicate that this exchange was built with.
    pub closed spec fn carries(&self) -> Accepts<T> {
        self.inner.accepts()
    }

    /// Whether this handle and `writer` stand on one and the same state,
    /// so that what `writer` publishes is what this handle reads.
    pub closed spec fn paired_with(&self, writer: &WriteHandle<T>) -> bool {
        self.inner == writer.inner
    }
}

impl<T: Clone> WriteHandle<T> {
    /// The predicate that this exchange was built with.
    pub closed spec fn carries(&self) -> Accepts<T> {
        self.inner.accepts()
    }

    /// Publishes `value`, or hands it back where the wait for the lock ran
    /// out.
    pub fn try_write(&self, value: T) -> (refused: Result<(), T>)
        requires
            (self.carries())(value),
        ensures
            refused matches Err(returned) ==> returned == value,
    {
        self.inner.write(value)
    }
}

impl<T: Clone> Reader<T> for ReadHandle<T> {
    open spec fn accepts(&self, value: T) -> bool {
        (self.carries())(value)
    }

    fn read(&self) -> (delivered: Option<T>) {
        self.inner.read()
    }
}

impl<T: Clone> Writer<T> for WriteHandle<T> {
    open spec fn accepts(&self, value: T) -> bool {
        (self.carries())(value)
    }

    /// A value for which the wait for the lock ran out is dropped.
    fn write(&self, value: T) {
        let _ = self.inner.write(value);
    }
}

/// A new exchange that carries only values satisfying `accepts`, as a pair of
/// handles on one shared state. The first read delivers nothing: `init` sits
/// in the buffer with the flag down.
pub fn new_accepting<T: Clone>(init: T, Ghost(accepts): Ghost<Accepts<T>>) -> (pair: (
    ReadHandle<T>,
    WriteHandle<T>,
))
    requires
        accepts(init),
        survives_clone(accepts),
    ensures
        pair.0.paired_with(&pair.1),
        pair.0.carries() == accepts,
        pair.1.carries() == accepts,
{
    let inner = Arc::new(Inner::new(init, Ghost(accepts)));
    let r = ReadHandle { inner: share(&inner), _unimpl_sync: PhantomData };
    let w = WriteHandle { inner, _unimpl_sync: PhantomData };
    (r, w)
}

/// A new exchange that carries any value, as a pair of handles on one shared
/// state. The first read delivers nothing: `init` sits in the buffer with the
/// flag down.
pub fn new<T: Clone>(init: T) -> (pair: (ReadHandle<T>, WriteHandle<T>))
    ensures
        pair.0.paired_with(&pair.1),
        pair.0.carries() == anything::<T>(),
        pair.1.carries() == anything::<T>(),
{
    new_accepting(init, Ghost(anything::<T>()))
}

} // verus!
