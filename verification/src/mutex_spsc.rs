//! The exchange that keeps one value behind a general lock, with an atomic
//! flag that tells the reader whether there is anything new.
//!
//! A read that finds the flag down takes no lock. The lock is vstd's
//! reader-writer lock, held for writing by either side: it does not poison,
//! so a thread that ends inside it leaves it held for good.
use crate::buffer::{Buffer, Slot};
use crate::cell::{anything, fresh, share, survives_clone, Accepts, Cell, OneThread};
use crate::signal::{is_raised, lower, raise};
use crate::{Reader, Writer};
use std::sync::atomic::AtomicBool;
use std::marker::PhantomData;
use std::sync::Arc;
use vstd::prelude::*;

verus! {

#[verifier::reject_recursive_types(T)]
struct Inner<T: Clone> {
    data: Cell<T>,
    to_read: AtomicBool,
}

impl<T: Clone> Inner<T> {
    spec fn accepts(&self) -> Accepts<T> {
        self.data.pred()
    }

    #[verifier::type_invariant]
    spec fn wf(&self) -> bool {
        survives_clone(self.data.pred())
    }

    /// A buffer that holds `init`, with the flag down.
    fn new(init: T, Ghost(accepts): Ghost<Accepts<T>>) -> (inner: Self)
        requires
            accepts(init),
            survives_clone(accepts),
        ensures
            inner.accepts() == accepts,
    {
        Inner { data: fresh(init, Ghost(accepts)), to_read: AtomicBool::new(false) }
    }

    /// This thread's access to the buffer, outside the lock.
    fn access(&self) -> (access: Access<'_, T>)
        ensures
            access.wf(),
            !access.inside(),
            !access.exact(),
            access.accepts() == self.accepts(),
    {
        proof {
            use_type_invariant(self);
        }
        Access { inner: self, held: None }
    }

    fn write(&self, value: T)
        requires
            (self.accepts())(value),
    {
        let mut access = self.access();
        let _ = crate::buffer::write(&mut access, value);
    }

    fn read(&self) -> (delivered: Option<T>)
        ensures
            delivered matches Some(value) ==> (self.accepts())(value),
    {
        let mut access = self.access();
        crate::buffer::read(&mut access)
    }
}

/// One thread's access to the shared buffer: inside the lock it holds the
/// value, taken out of the lock, and puts it back on leaving.
#[verifier::reject_recursive_types(T)]
struct Access<'a, T: Clone> {
    inner: &'a Inner<T>,
    held: Option<(T, vstd::rwlock::WriteHandle<'a, T, spec_fn(T) -> bool>)>,
}

impl<'a, T: Clone> Slot<T> for Access<'a, T> {
    closed spec fn exact(&self) -> bool {
        false
    }

    closed spec fn sure(&self) -> bool {
        true
    }

    closed spec fn accepts(&self) -> Accepts<T> {
        self.inner.accepts()
    }

    closed spec fn buffer(&self) -> Buffer<T> {
        arbitrary()
    }

    closed spec fn inside(&self) -> bool {
        self.held.is_some()
    }

    closed spec fn value(&self) -> T {
        self.held.unwrap().0
    }

    closed spec fn wf(&self) -> bool {
        &&& self.inner.wf()
        &&& self.held matches Some((value, handle)) ==> handle.rwlock() == self.inner.data
            && self.inner.data.inv(value)
    }

    proof fn lemma_shape(&self) {
    }

    fn is_unread(&self) -> (unread: bool) {
        is_raised(&self.inner.to_read)
    }

    fn enter(&mut self) -> (entered: bool) {
        let (value, handle) = self.inner.data.acquire_write();
        self.held = Some((value, handle));
        true
    }

    fn leave(&mut self) {
        match self.held.take() {
            Some((value, handle)) => handle.release_write(value),
            None => {},
        }
    }

    fn store(&mut self, value: T) {
        match self.held.take() {
            Some((_, handle)) => {
                self.held = Some((value, handle));
            },
            None => {},
        }
    }

    fn load(&self) -> (value: T) {
        match &self.held {
            Some((value, _)) => {
                let copy = value.clone();
                assert(cloned(*value, copy));
                copy
            },
            None => {
                proof {
                    assert(false);
                }
                unreached()
            },
        }
    }

    fn mark(&mut self, unread: bool) {
        if unread {
            raise(&self.inner.to_read);
        } else {
            lower(&self.inner.to_read);
        }
    }
}

/// The reading side of a lock-guarded exchange.
#[verifier::reject_recursive_types(T)]
pub struct ReadHandle<T: Clone> {
    inner: Arc<Inner<T>>,
    _unimpl_sync: OneThread,
}

/// The writing side of a lock-guarded exchange.
#[verifier::reject_recursive_types(T)]
pub struct WriteHandle<T: Clone> {
    inner: Arc<Inner<T>>,
    _unimpl_sync: OneThread,
}

impl<T: Clone> ReadHandle<T> {
    /// The predicate that this exchange was built with.
    pub closed spec fn carries(&self) -> Accepts<T> {
        self.inner.accepts()
    }

    /// Whether this handle and `writer` stand on one and the same state,
    /// so that what `writer` publishes is what this handle reads.
    pub closed spec fn paired_with(&self, writer: &WriteHandle<T>) -> bool {
        self.inner == writer.inner
    }
}

impl<T: Clone> WriteHandle<T> {
    /// The predicate that this exchange was built with.
    pub closed spec fn carries(&self) -> Accepts<T> {
        self.inner.accepts()
    }
}

impl<T: Clone> Reader<T> for ReadHandle<T> {
    open spec fn accepts(&self, value: T) -> bool {
        (self.carries())(value)
    }

    fn read(&self) -> (delivered: Option<T>) {
        self.inner.read()
    }
}

impl<T: Clone> Writer<T> for WriteHandle<T> {
    open spec fn accepts(&self, value: T) -> bool {
        (self.carries())(value)
    }

    fn write(&self, value: T) {
        self.inner.write(value)
    }
}

/// A new exchange that carries only values satisfying `accepts`, as a pair of
/// handles on one shared state. The first read delivers nothing: `init` sits
/// in the buffer with the flag down.
pub fn new_accepting<T: Clone>(init: T, Ghost(accepts): Ghost<Accepts<T>>) -> (pair: (
    ReadHandle<T>,
    WriteHandle<T>,
))
    requires
        accepts(init),
        survives_clone(accepts),
    ensures
        pair.0.paired_with(&pair.1),
        pair.0.carries() == accepts,
        pair.1.carries() == accepts,
{
    let inner = Arc::new(Inner::new(init, Ghost(accepts)));
    let r = ReadHandle { inner: share(&inner), _unimpl_sync: PhantomData };
    let w = WriteHandle { inner, _unimpl_sync: PhantomData };
    (r, w)
}

/// A new exchange that carries any value, as a pair of handles on one shared
/// state. The first read delivers nothing: `init` sits in the buffer with the
/// flag down.
pub fn new<T: Clone>(init: T) -> (pair: (ReadHandle<T>, WriteHandle<T>))
    ensures
        pair.0.paired_with(&pair.1),
        pair.0.carries() == anything::<T>(),
        pair.1.carries() == anything::<T>(),
{
    new_accepting(init, Ghost(anything::<T>()))
}

} // verus!
