//! The pool-rotation protocol as code, written once over a board of cells,
//! flags and one published word.
//!
//! On a board that its caller owns alone every access is exact, and the
//! operations below are proved to do what the protocol's machine does in a
//! whole write and a whole read. On a board shared with another thread the
//! same code runs against atomics: there an access may find what the other
//! side left, and what is proved is what holds whatever it finds.
use crate::cell::Accepts;
use crate::pool::{
    lemma_free_at_rest, lemma_read_empties, lemma_scan_claims_first, lemma_write_ends_idle,
    lemma_write_publishes, Pool, Step, Writing,
};
use vstd::prelude::*;

verus! {

/// The memory that the protocol runs on.
pub trait Board<T: Clone>: Sized {
    /// Whether the caller owns the board alone, so that it holds between two
    /// accesses what the last one left.
    spec fn exact(&self) -> bool;

    /// The number of cells.
    spec fn size(&self) -> int;

    /// The values that the cells may hold.
    spec fn accepts(&self) -> Accepts<T>;

    /// What an exact board holds, with both sides idle.
    spec fn pool(&self) -> Pool<T>;

    /// What every access relies on and keeps.
    spec fn wf(&self) -> bool;

    /// An exact board holds a flag and a value for each of its cells, and
    /// stands between two operations.
    proof fn lemma_shape(&self)
        requires
            self.wf(),
        ensures
            self.exact() ==> {
                &&& self.pool().cells.len() == self.size()
                &&& self.pool().free.len() == self.size()
                &&& self.pool().quiet()
            },
    ;

    /// The number of cells.
    fn len(&self) -> (len: usize)
        requires
            self.wf(),
        ensures
            len == self.size(),
            len <= isize::MAX,
    ;

    /// Clears the free flag of cell `idx` and tells whether it was set.
    fn claim(&mut self, idx: usize) -> (was_free: bool)
        requires
            old(self).wf(),
            idx < old(self).size(),
        ensures
            final(self).wf(),
            final(self).exact() == old(self).exact(),
            final(self).size() == old(self).size(),
            final(self).accepts() == old(self).accepts(),
            old(self).exact() ==> was_free == old(self).pool().free[idx as int],
            old(self).exact() ==> final(self).pool() == (Pool {
                free: old(self).pool().free.update(idx as int, false),
                ..old(self).pool()
            }),
    ;

    /// Sets the free flag of cell `idx`.
    fn release(&mut self, idx: usize)
        requires
            old(self).wf(),
            idx < old(self).size(),
        ensures
            final(self).wf(),
            final(self).exact() == old(self).exact(),
            final(self).size() == old(self).size(),
            final(self).accepts() == old(self).accepts(),
            old(self).exact() ==> final(self).pool() == (Pool {
                free: old(self).pool().free.update(idx as int, true),
                ..old(self).pool()
            }),
    ;

    /// Publishes cell `idx`, or nothing, and hands back what was published.
    fn exchange(&mut self, next: Option<usize>) -> (previous: Option<usize>)
        requires
            old(self).wf(),
            next matches Some(idx) ==> idx < old(self).size(),
        ensures
            final(self).wf(),
            final(self).exact() == old(self).exact(),
            final(self).size() == old(self).size(),
            final(self).accepts() == old(self).accepts(),
            previous matches Some(idx) ==> idx < old(self).size(),
            old(self).exact() ==> index_of(previous) == old(self).pool().published,
            old(self).exact() ==> final(self).pool() == (Pool {
                published: index_of(next),
                ..old(self).pool()
            }),
    ;

    /// Puts `value` in cell `idx`.
    fn store(&mut self, idx: usize, value: T)
        requires
            old(self).wf(),
            idx < old(self).size(),
            (old(self).accepts())(value),
        ensures
            final(self).wf(),
            final(self).exact() == old(self).exact(),
            final(self).size() == old(self).size(),
            final(self).accepts() == old(self).accepts(),
            old(self).exact() ==> final(self).pool() == (Pool {
                cells: old(self).pool().cells.update(idx as int, value),
                ..old(self).pool()
            }),
    ;

    /// A copy of what cell `idx` holds.
    fn load(&self, idx: usize) -> (value: T)
        requires
            self.wf(),
            idx < self.size(),
        ensures
            (self.accepts())(value),
            self.exact() ==> cloned(self.pool().cells[idx as int], value),
    ;
}

/// The index that an exchanged word stands for.
pub open spec fn index_of(slot: Option<usize>) -> Option<int> {
    match slot {
        Some(idx) => Some(idx as int),
        None => None,
    }
}

/// Whether `after` is the board `before` after some accesses: what a board is
/// made with does not change.
pub open spec fn same_board<T: Clone, B: Board<T>>(before: &B, after: &B) -> bool {
    &&& after.wf()
    &&& after.exact() == before.exact()
    &&& after.size() == before.size()
    &&& after.accepts() == before.accepts()
}

/// Whether the board is an exact one at rest: every cell free or published.
pub open spec fn at_rest<T: Clone, B: Board<T>>(board: &B) -> bool {
    &&& board.exact()
    &&& board.size() >= 2
    &&& board.pool().inv()
    &&& board.pool().quiet()
    &&& board.pool().size() == board.size()
}

/// Claims the first cell whose flag is found set, in one pass over the pool.
///
/// On an exact board this is the writer's scan carried through: it claims the
/// first free cell, and finds none only where no cell is free.
pub fn acquire<T: Clone, B: Board<T>>(board: &mut B) -> (claimed: Option<usize>)
    requires
        old(board).wf(),
    ensures
        same_board(old(board), final(board)),
        claimed matches Some(idx) ==> idx < old(board).size(),
        old(board).exact() ==> match claimed {
            Some(idx) => {
                &&& old(board).pool().free[idx as int]
                &&& forall|j: int| 0 <= j < idx ==> !old(board).pool().free[j]
                &&& final(board).pool() == (Pool {
                    free: old(board).pool().free.update(idx as int, false),
                    ..old(board).pool()
                })
            },
            None => {
                &&& forall|j: int| 0 <= j < old(board).size() ==> !old(board).pool().free[j]
                &&& final(board).pool() == old(board).pool()
            },
        },
{
    let size = board.len();
    let mut idx: usize = 0;
    proof {
        board.lemma_shape();
    }
    while idx < size
        invariant
            idx <= size,
            size == old(board).size(),
            same_board(old(board), board),
            board.exact() ==> board.pool() == old(board).pool(),
            board.exact() ==> old(board).pool().free.len() == size,
            board.exact() ==> forall|j: int| 0 <= j < idx ==> !old(board).pool().free[j],
        decreases size - idx,
    {
        let ghost before = board.pool();
        if board.claim(idx) {
            return Some(idx);
        }
        proof {
            if board.exact() {
                assert(before.free.update(idx as int, false) =~= before.free);
            }
        }
        idx += 1;
    }
    None
}

/// Fills the claimed cell `idx` with `value`, publishes it, and frees the
/// cell that it displaced.
pub fn publish<T: Clone, B: Board<T>>(board: &mut B, idx: usize, value: T)
    requires
        old(board).wf(),
        idx < old(board).size(),
        (old(board).accepts())(value),
    ensures
        same_board(old(board), final(board)),
        old(board).exact() ==> final(board).pool() == (Pool {
            writing: Writing::Claimed { cell: idx as int },
            ..old(board).pool()
        }).next(Step::Fill { value }).next(Step::Publish).next(Step::Retire).idle(),
{
    proof {
        board.lemma_shape();
    }
    board.store(idx, value);
    let displaced = board.exchange(Some(idx));
    match displaced {
        Some(cell) => board.release(cell),
        None => {},
    }
}

/// Publishes `value` as the newest one, unless no cell is free: then the
/// board stays as it was and the value comes back.
///
/// On an exact board the write fails if and only if no flag is set, and
/// where it succeeds it leaves what a whole write of the protocol leaves. At
/// rest a flag is set, so the write succeeds and the next read delivers
/// `value`.
pub fn write<T: Clone, B: Board<T>>(board: &mut B, value: T) -> (refused: Result<(), T>)
    requires
        old(board).wf(),
        (old(board).accepts())(value),
    ensures
        same_board(old(board), final(board)),
        refused matches Err(returned) ==> returned == value,
        old(board).exact() ==> (refused is Err <==> !old(board).pool().has_free()),
        old(board).exact() ==> final(board).pool() == if old(board).pool().has_free() {
            old(board).pool().write(value)
        } else {
            old(board).pool()
        },
        at_rest(old(board)) ==> {
            &&& refused is Ok
            &&& at_rest(final(board))
            &&& final(board).pool() == old(board).pool().write(value)
            &&& final(board).pool().delivered() == Some(value)
        },
{
    let ghost before = board.pool();
    proof {
        board.lemma_shape();
    }
    let claimed = acquire(board);
    let refused = place(board, claimed, value);
    proof {
        if old(board).exact() {
            match claimed {
                Some(idx) => {
                    assert(before.free[idx as int]);
                    lemma_scan_claims_first(before.next(Step::Begin), idx as int);
                    lemma_write_ends_idle(before, value);
                    assert(board.pool() == before.write(value));
                },
                None => {
                    assert(!before.has_free());
                },
            }
        }
        if at_rest(old(board)) {
            lemma_free_at_rest(before);
            lemma_write_publishes(before, value);
        }
    }
    refused
}

/// Takes what is published, if anything is, and hands out a copy of it; the
/// cell goes back to the pool.
///
/// On an exact board at rest this is a whole read of the protocol: it
/// delivers a copy of the value last written and not yet read, or nothing
/// where there is none, and leaves nothing published.
pub fn read<T: Clone, B: Board<T>>(board: &mut B) -> (delivered: Option<T>)
    requires
        old(board).wf(),
    ensures
        same_board(old(board), final(board)),
        delivered matches Some(value) ==> (old(board).accepts())(value),
        at_rest(old(board)) ==> {
            &&& at_rest(final(board))
            &&& final(board).pool() == old(board).pool().read()
            &&& match old(board).pool().delivered() {
                Some(written) => delivered matches Some(value) && cloned(written, value),
                None => delivered.is_none(),
            }
        },
{
    let ghost before = board.pool();
    let taken = board.exchange(None);
    let delivered = deliver(board, taken);
    proof {
        if at_rest(old(board)) {
            lemma_read_empties(before);
            assert(board.pool() == before.read());
        }
    }
    delivered
}

/// What a write does once its scan has ended with `claimed`: with a cell
/// claimed it fills and publishes that cell and succeeds; with none it
/// changes nothing and hands `value` back.
pub fn place<T: Clone, B: Board<T>>(board: &mut B, claimed: Option<usize>, value: T) -> (refused:
    Result<(), T>)
    requires
        old(board).wf(),
        claimed matches Some(idx) ==> idx < old(board).size(),
        (old(board).accepts())(value),
    ensures
        same_board(old(board), final(board)),
        refused is Ok <==> claimed is Some,
        refused matches Err(returned) ==> returned == value,
        old(board).exact() ==> final(board).pool() == match claimed {
            Some(idx) => (Pool {
                writing: Writing::Claimed { cell: idx as int },
                ..old(board).pool()
            }).next(Step::Fill { value }).next(Step::Publish).next(Step::Retire).idle(),
            None => old(board).pool(),
        },
{
    match claimed {
        None => Err(value),
        Some(idx) => {
            publish(board, idx, value);
            Ok(())
        },
    }
}

/// What a read does once it has taken `taken` out of the published place:
/// with a cell taken it hands out a copy of what the cell holds and frees
/// the cell; with none it delivers nothing and changes nothing.
pub fn deliver<T: Clone, B: Board<T>>(board: &mut B, taken: Option<usize>) -> (delivered: Option<T>)
    requires
        old(board).wf(),
        taken matches Some(idx) ==> idx < old(board).size(),
    ensures
        same_board(old(board), final(board)),
        delivered is Some <==> taken is Some,
        delivered matches Some(value) ==> (old(board).accepts())(value),
        old(board).exact() ==> match taken {
            Some(idx) => {
                &&& delivered matches Some(value) && cloned(
                    old(board).pool().cells[idx as int],
                    value,
                )
                &&& final(board).pool() == (Pool {
                    free: old(board).pool().free.update(idx as int, true),
                    ..old(board).pool()
                })
            },
            None => final(board).pool() == old(board).pool(),
        },
{
    match taken {
        None => None,
        Some(idx) => {
            let value = board.load(idx);
            board.release(idx);
            Some(value)
        },
    }
}

} // verus!
