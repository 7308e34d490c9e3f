//! The exchanges with both sides in one hand: plain values, where every
//! access finds what the last one left.
//!
//! They run the same protocol code as the shared exchanges, and here all of
//! it is exact: what a write leaves and what a read delivers are stated in
//! full.
use crate::board::Board;
use crate::buffer::{Buffer, Slot};
use crate::cell::{anything, Accepts};
use crate::pool::{lemma_read_empties, Pool, Reading, Writing};
use vstd::prelude::*;

verus! {

/// A pool-rotation exchange held by one owner.
pub struct SoloPool<T> {
    cells: Vec<T>,
    free: Vec<bool>,
    published: Option<usize>,
}

impl<T> SoloPool<T> {
    /// What the exchange holds: its cells and flags and the published
    /// index, with both sides idle.
    pub closed spec fn view(&self) -> Pool<T> {
        Pool {
            cells: self.cells@,
            free: self.free@,
            published: match self.published {
                Some(idx) => Some(idx as int),
                None => None,
            },
            writing: Writing::Idle,
            reading: Reading::Idle,
        }
    }

    /// There are two cells or more, and each is free or the published one.
    pub open spec fn wf(&self) -> bool {
        &&& 2 <= self@.size() <= isize::MAX
        &&& self@.inv()
        &&& self@.quiet()
    }
}

impl<T: Clone> SoloPool<T> {
    /// An exchange over a pool of `size` cells that each hold a copy of
    /// `init`: every cell free, nothing published.
    pub fn new(size: usize, init: T) -> (solo: Self)
        requires
            2 <= size <= isize::MAX,
        ensures
            solo.wf(),
            solo@.size() == size,
            solo@.published.is_none(),
            solo@.delivered().is_none(),
            forall|i: int| 0 <= i < size ==> #[trigger] solo@.free[i],
            forall|i: int| 0 <= i < size ==> cloned(init, #[trigger] solo@.cells[i]),
    {
        let mut cells: Vec<T> = Vec::new();
        let mut free: Vec<bool> = Vec::new();
        while cells.len() < size
            invariant
                cells.len() == free.len(),
                cells.len() <= size,
                forall|i: int| 0 <= i < free.len() ==> #[trigger] free[i],
                forall|i: int| 0 <= i < cells.len() ==> cloned(init, #[trigger] cells[i]),
            decreases size - cells.len(),
        {
            let value = init.clone();
            assert(cloned(init, value));
            cells.push(value);
            free.push(true);
        }
        let solo = SoloPool { cells, free, published: None };
        assert forall|i: int| 0 <= i < solo@.size() implies #[trigger] solo@.roles(i) == 1 by {}
        solo
    }

    /// Publishes `value` as the newest one: what a whole write of the
    /// protocol does. The next read delivers it.
    pub fn write(&mut self, value: T)
        requires
            old(self).wf(),
        ensures
            final(self).wf(),
            final(self)@ == old(self)@.write(value),
            final(self)@.delivered() == Some(value),
    {
        let _ = crate::board::write(self, value);
    }

    /// Hands out a copy of the newest value written and not yet read, or
    /// nothing where there is none: what a whole read of the protocol does.
    pub fn read(&mut self) -> (delivered: Option<T>)
        requires
            old(self).wf(),
        ensures
            final(self).wf(),
            final(self)@ == old(self)@.read(),
            final(self)@.delivered().is_none(),
            match old(self)@.delivered() {
                Some(written) => delivered matches Some(value) && cloned(written, value),
                None => delivered.is_none(),
            },
    {
        proof {
            lemma_read_empties(self@);
        }
        crate::board::read(self)
    }
}

impl<T: Clone> Board<T> for SoloPool<T> {
    closed spec fn exact(&self) -> bool {
        true
    }

    closed spec fn size(&self) -> int {
        self.cells.len() as int
    }

    closed spec fn accepts(&self) -> Accepts<T> {
        anything::<T>()
    }

    closed spec fn pool(&self) -> Pool<T> {
        self@
    }

    closed spec fn wf(&self) -> bool {
        &&& self.cells.len() == self.free.len()
        &&& self.cells.len() <= isize::MAX
        &&& self.published matches Some(idx) ==> idx < self.cells.len()
    }

    proof fn lemma_shape(&self) {
    }

    fn len(&self) -> (len: usize) {
        self.cells.len()
    }

    fn claim(&mut self, idx: usize) -> (was_free: bool) {
        let was_free = self.free[idx];
        self.free[idx] = false;
        was_free
    }

    fn release(&mut self, idx: usize) {
        self.free[idx] = true;
    }

    fn exchange(&mut self, next: Option<usize>) -> (previous: Option<usize>) {
        let previous = self.published;
        self.published = next;
        previous
    }

    fn store(&mut self, idx: usize, value: T) {
        self.cells[idx] = value;
    }

    fn load(&self, idx: usize) -> (value: T) {
        self.cells[idx].clone()
    }
}

/// A single-buffer exchange held by one owner.
pub struct SoloBuffer<T> {
    value: T,
    unread: bool,
    entered: bool,
}

impl<T> SoloBuffer<T> {
    /// What the exchange holds.
    pub closed spec fn view(&self) -> Buffer<T> {
        Buffer { value: self.value, unread: self.unread }
    }

    /// No operation is under way.
    pub closed spec fn wf(&self) -> bool {
        !self.entered
    }
}

impl<T: Clone> SoloBuffer<T> {
    /// An exchange that holds `init`, with nothing for a read to deliver.
    pub fn new(init: T) -> (solo: Self)
        ensures
            solo.wf(),
            solo@ == Buffer::init(init),
    {
        SoloBuffer { value: init, unread: false, entered: false }
    }

    /// Publishes `value` as the newest one. The next read delivers it.
    pub fn write(&mut self, value: T)
        requires
            old(self).wf(),
        ensures
            final(self).wf(),
            final(self)@ == old(self)@.write(value),
            final(self)@.delivered() == Some(value),
    {
        let _ = crate::buffer::write(self, value);
    }

    /// Hands out a copy of the newest value written and not yet read, or
    /// nothing where there is none.
    pub fn read(&mut self) -> (delivered: Option<T>)
        requires
            old(self).wf(),
        ensures
            final(self).wf(),
            final(self)@ == old(self)@.read(),
            final(self)@.delivered().is_none(),
            match old(self)@.delivered() {
                Some(written) => delivered matches Some(value) && cloned(written, value),
                None => delivered.is_none(),
            },
    {
        crate::buffer::read(self)
    }
}

impl<T: Clone> Slot<T> for SoloBuffer<T> {
    closed spec fn exact(&self) -> bool {
        true
    }

    closed spec fn sure(&self) -> bool {
        true
    }

    closed spec fn accepts(&self) -> Accepts<T> {
        anything::<T>()
    }

    closed spec fn buffer(&self) -> Buffer<T> {
        self@
    }

    closed spec fn inside(&self) -> bool {
        self.entered
    }

    closed spec fn value(&self) -> T {
        self.value
    }

    closed spec fn wf(&self) -> bool {
        true
    }

    proof fn lemma_shape(&self) {
    }

    fn is_unread(&self) -> (unread: bool) {
        self.unread
    }

    fn enter(&mut self) -> (entered: bool) {
        self.entered = true;
        true
    }

    fn leave(&mut self) {
        self.entered = false;
    }

    fn store(&mut self, value: T) {
        self.value = value;
    }

    fn load(&self) -> (value: T) {
        self.value.clone()
    }

    fn mark(&mut self, unread: bool) {
        self.unread = unread;
    }
}

} // verus!
