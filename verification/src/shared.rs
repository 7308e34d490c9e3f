//! The board that two threads share: a lock-guarded cell and an atomic flag
//! for each place in the pool, and one atomic word for what is published.
use crate::board::Board;
use crate::cell::{fresh, load, store, survives_clone, Accepts, Cell};
use crate::pool::{slot_of, word_of, Pool, EMPTY};
use crate::signal::{claim, exchange, raise};
use std::sync::atomic::{AtomicBool, AtomicIsize};
use vstd::prelude::*;

verus! {

/// The state of one pool-rotation exchange.
#[verifier::reject_recursive_types(T)]
pub(crate) struct Shared<T: Clone> {
    pool: Vec<Cell<T>>,
    free: Vec<AtomicBool>,
    buffer: AtomicIsize,
    accepts: Ghost<Accepts<T>>,
}

impl<T: Clone> Shared<T> {
    /// The values that the cells may hold.
    pub(crate) closed spec fn accepts(&self) -> Accepts<T> {
        self.accepts@
    }

    /// The number of cells.
    pub(crate) closed spec fn size(&self) -> int {
        self.pool.len() as int
    }

    #[verifier::type_invariant]
    pub(crate) closed spec fn wf(&self) -> bool {
        &&& self.free.len() == self.pool.len()
        &&& 2 <= self.pool.len() <= isize::MAX
        &&& survives_clone(self.accepts@)
        &&& forall|i: int| 0 <= i < self.pool.len() ==> (#[trigger] self.pool[i]).pred() == self.accepts@
    }

    /// A pool of `size` cells that each hold a copy of `init`: every cell
    /// free and nothing published.
    pub(crate) fn new(size: usize, init: T, Ghost(accepts): Ghost<Accepts<T>>) -> (shared: Self)
        requires
            2 <= size <= isize::MAX,
            accepts(init),
            survives_clone(accepts),
        ensures
            shared.accepts() == accepts,
            shared.size() == size,
    {
        let mut pool: Vec<Cell<T>> = Vec::new();
        let mut free: Vec<AtomicBool> = Vec::new();
        while pool.len() < size
            invariant
                pool.len() == free.len(),
                pool.len() <= size,
                accepts(init),
                survives_clone(accepts),
                forall|i: int| 0 <= i < pool.len() ==> (#[trigger] pool[i]).pred() == accepts,
            decreases size - pool.len(),
        {
            let value = init.clone();
            assert(cloned(init, value));
            pool.push(fresh(value, Ghost(accepts)));
            free.push(AtomicBool::new(true));
        }
        Shared { pool, free, buffer: AtomicIsize::new(EMPTY), accepts: Ghost(accepts) }
    }

    /// This thread's access to the board.
    pub(crate) fn access(&self) -> (access: Access<'_, T>)
        ensures
            access.wf(),
            !access.exact(),
            access.size() == self.size(),
            access.accepts() == self.accepts(),
    {
        proof {
            use_type_invariant(self);
        }
        Access { shared: self }
    }
}

/// One thread's access to a shared board. What it finds there is what the
/// other thread left, so no access is exact.
#[verifier::reject_recursive_types(T)]
pub(crate) struct Access<'a, T: Clone> {
    shared: &'a Shared<T>,
}

impl<'a, T: Clone> Board<T> for Access<'a, T> {
    closed spec fn exact(&self) -> bool {
        false
    }

    closed spec fn size(&self) -> int {
        self.shared.size()
    }

    closed spec fn accepts(&self) -> Accepts<T> {
        self.shared.accepts()
    }

    closed spec fn pool(&self) -> Pool<T> {
        arbitrary()
    }

    closed spec fn wf(&self) -> bool {
        self.shared.wf()
    }

    proof fn lemma_shape(&self) {
    }

    fn len(&self) -> (len: usize) {
        self.shared.pool.len()
    }

    fn claim(&mut self, idx: usize) -> (was_free: bool) {
        claim(&self.shared.free[idx])
    }

    fn release(&mut self, idx: usize) {
        raise(&self.shared.free[idx]);
    }

    fn exchange(&mut self, next: Option<usize>) -> (previous: Option<usize>) {
        let word = match next {
            Some(idx) => word_of(idx),
            None => EMPTY,
        };
        let displaced = exchange(&self.shared.buffer, word);
        slot_of(displaced, self.shared.pool.len())
    }

    fn store(&mut self, idx: usize, value: T) {
        store(&self.shared.pool[idx], value);
    }

    fn load(&self, idx: usize) -> (value: T) {
        load(&self.shared.pool[idx])
    }
}

} // verus!
