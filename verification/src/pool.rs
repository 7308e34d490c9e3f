//! The pool-rotation protocol, as a machine of atomic steps.
//!
//! A pool of cells rotates between three roles: free, published, and held by
//! one of the two sides. The writer claims a free cell, fills it, publishes
//! its index in one exchange and frees the cell that it displaced; the reader
//! takes the published index in one exchange, copies the cell and frees it.
//! Each step below is one such atomic action, so a run of steps is one way in
//! which the two threads may interleave.
use vstd::prelude::*;

verus! {

/// The word that stands in the published place while nothing is published.
pub const EMPTY: isize = -1;

/// What a word taken from the published place of a pool of `size` cells
/// names: the cell of that index, or nothing.
pub open spec fn named(word: isize, size: usize) -> Option<int> {
    if 0 <= word < size {
        Some(word as int)
    } else {
        None
    }
}

/// The cell that `word` names in a pool of `size` cells. The empty mark, and
/// any other word that is no index into the pool, names none.
pub fn slot_of(word: isize, size: usize) -> (slot: Option<usize>)
    ensures
        slot matches Some(idx) ==> named(word, size) == Some(idx as int),
        slot.is_none() ==> named(word, size).is_none(),
{
    if word >= 0 && (word as usize) < size {
        Some(word as usize)
    } else {
        None
    }
}

/// The word that publishes cell `idx`.
pub fn word_of(idx: usize) -> (word: isize)
    requires
        idx <= isize::MAX,
    ensures
        word == idx,
        word != EMPTY,
        forall|size: usize| idx < size ==> named(word, size) == Some(idx as int),
{
    idx as isize
}

/// What the writer is doing.
pub enum Writing {
    /// Between two writes.
    Idle,
    /// Looking for a free cell, about to test the flag of cell `next`.
    Scanning { next: int },
    /// Holds `cell`, claimed and not yet filled.
    Claimed { cell: int },
    /// Holds `cell`, filled and not yet published.
    Filled { cell: int },
    /// Has published its cell and holds the one it displaced, not yet freed.
    Retiring { cell: int },
}

/// What the reader is doing.
pub enum Reading {
    /// Between two reads.
    Idle,
    /// Has taken `cell` out of the published place and not yet freed it.
    Holding { cell: int },
}

/// The state that the two sides share, with where each of them stands.
pub struct Pool<T> {
    pub cells: Seq<T>,
    pub free: Seq<bool>,
    pub published: Option<int>,
    pub writing: Writing,
    pub reading: Reading,
}

/// One atomic action of one side.
pub enum Step<T> {
    /// The writer starts a write.
    Begin,
    /// The writer tests and clears one free flag.
    Scan,
    /// The writer stores a value in the cell it claimed.
    Fill { value: T },
    /// The writer exchanges the published index for that of its cell.
    Publish,
    /// The writer frees the cell it displaced.
    Retire,
    /// The reader exchanges the published index for the empty mark.
    Take,
    /// The reader, having copied the cell it took, frees it.
    Finish,
}

/// One whole operation of one side, with no step of the other in between.
pub enum Op<T> {
    /// A write of `value`.
    Write { value: T },
    /// A read.
    Read,
}

impl<T> Pool<T> {
    /// A pool of `size` cells that all hold `value`: every cell free, nothing
    /// published, both sides idle.
    pub open spec fn init(size: nat, value: T) -> Self {
        Pool {
            cells: Seq::new(size, |i: int| value),
            free: Seq::new(size, |i: int| true),
            published: None,
            writing: Writing::Idle,
            reading: Reading::Idle,
        }
    }

    pub open spec fn size(self) -> int {
        self.cells.len() as int
    }

    /// The cell that the writer holds, if it holds one.
    pub open spec fn writer_cell(self) -> Option<int> {
        match self.writing {
            Writing::Claimed { cell } => Some(cell),
            Writing::Filled { cell } => Some(cell),
            Writing::Retiring { cell } => Some(cell),
            _ => None,
        }
    }

    /// The cell that the reader holds, if it holds one.
    pub open spec fn reader_cell(self) -> Option<int> {
        match self.reading {
            Reading::Holding { cell } => Some(cell),
            Reading::Idle => None,
        }
    }

    /// In how many roles cell `i` stands: free, published, held by the
    /// writer, held by the reader.
    pub open spec fn roles(self, i: int) -> int {
        (if self.free[i] { 1int } else { 0 })
        + (if self.published == Some(i) { 1int } else { 0 })
        + (if self.writer_cell() == Some(i) { 1int } else { 0 })
        + (if self.reader_cell() == Some(i) { 1int } else { 0 })
    }

    /// Every cell stands in exactly one role, and every index in use names a cell.
    pub open spec fn inv(self) -> bool {
        &&& self.free.len() == self.cells.len()
        &&& forall|i: int| 0 <= i < self.size() ==> #[trigger] self.roles(i) == 1
        &&& self.published matches Some(cell) ==> 0 <= cell < self.size()
        &&& self.writer_cell() matches Some(cell) ==> 0 <= cell < self.size()
        &&& self.reader_cell() matches Some(cell) ==> 0 <= cell < self.size()
        &&& self.writing matches Writing::Scanning { next } ==> 0 <= next <= self.size()
    }

    /// While the writer scans, a free cell lies ahead of it.
    pub open spec fn spare(self) -> bool {
        self.writing matches Writing::Scanning { next } ==> exists|j: int|
            next <= j < self.size() && #[trigger] self.free[j]
    }

    /// Both sides are between operations.
    pub open spec fn quiet(self) -> bool {
        self.writing == Writing::Idle && self.reading == Reading::Idle
    }

    /// The state after `step`; a step that cannot be taken changes nothing.
    pub open spec fn next(self, step: Step<T>) -> Self {
        match (step, self.writing, self.reading) {
            (Step::Begin, Writing::Idle, _) => Pool { writing: Writing::Scanning { next: 0 }, ..self },
            (Step::Scan, Writing::Scanning { next }, _) => {
                if next >= self.size() {
                    Pool { writing: Writing::Scanning { next: 0 }, ..self }
                } else if self.free[next] {
                    Pool {
                        free: self.free.update(next, false),
                        writing: Writing::Claimed { cell: next },
                        ..self
                    }
                } else {
                    Pool { writing: Writing::Scanning { next: next + 1 }, ..self }
                }
            },
            (Step::Fill { value }, Writing::Claimed { cell }, _) => Pool {
                cells: self.cells.update(cell, value),
                writing: Writing::Filled { cell },
                ..self
            },
            (Step::Publish, Writing::Filled { cell }, _) => Pool {
                published: Some(cell),
                writing: match self.published {
                    Some(displaced) => Writing::Retiring { cell: displaced },
                    None => Writing::Idle,
                },
                ..self
            },
            (Step::Retire, Writing::Retiring { cell }, _) => Pool {
                free: self.free.update(cell, true),
                writing: Writing::Idle,
                ..self
            },
            (Step::Take, _, Reading::Idle) => match self.published {
                Some(cell) => Pool { published: None, reading: Reading::Holding { cell }, ..self },
                None => self,
            },
            (Step::Finish, _, Reading::Holding { cell }) => Pool {
                free: self.free.update(cell, true),
                reading: Reading::Idle,
                ..self
            },
            _ => self,
        }
    }

    /// The state after the steps of `steps`, taken in order.
    pub open spec fn run(self, steps: Seq<Step<T>>) -> Self
        decreases steps.len(),
    {
        if steps.len() == 0 {
            self
        } else {
            self.run(steps.drop_last()).next(steps.last())
        }
    }

    /// The state after one whole operation.
    pub open spec fn apply(self, op: Op<T>) -> Self {
        match op {
            Op::Write { value } => self.write(value),
            Op::Read => self.read(),
        }
    }

    /// What the reads among `ops` deliver, one after the other, when the
    /// operations of `ops` are run from this state in order.
    pub open spec fn deliveries(self, ops: Seq<Op<T>>) -> Seq<Option<T>>
        decreases ops.len(),
    {
        if ops.len() == 0 {
            Seq::empty()
        } else {
            let rest = self.apply(ops.first()).deliveries(ops.drop_first());
            match ops.first() {
                Op::Read => seq![self.delivered()] + rest,
                Op::Write { value } => rest,
            }
        }
    }

    /// Whether two pools at rest have the same thing in store for the next
    /// read. Which cells hold it, and what the other cells hold, may differ.
    pub open spec fn alike(self, other: Self) -> bool {
        &&& self.inv() && self.quiet() && self.size() >= 2
        &&& other.inv() && other.quiet() && other.size() >= 2
        &&& self.delivered() == other.delivered()
    }

    /// Whether some cell is flagged free.
    pub open spec fn has_free(self) -> bool {
        exists|j: int| 0 <= j < self.free.len() && #[trigger] self.free[j]
    }

    /// The same pool with both sides between operations.
    pub open spec fn idle(self) -> Self {
        Pool { writing: Writing::Idle, reading: Reading::Idle, ..self }
    }

    /// How many flags the writer's scan has yet to test before it runs off
    /// the end of the pool; zero when it is not scanning.
    pub open spec fn scan_gap(self) -> int {
        match self.writing {
            Writing::Scanning { next } => if 0 <= next < self.size() {
                self.size() - next
            } else {
                0
            },
            _ => 0,
        }
    }

    /// The writer's scan, carried on with no step of the reader in between
    /// until it claims a cell or runs off the end.
    pub open spec fn settle(self) -> Self
        decreases self.scan_gap(),
    {
        if self.scan_gap() > 0 {
            self.next(Step::Scan).settle()
        } else {
            self
        }
    }

    /// A whole write of `value`, with no step of the reader in between.
    pub open spec fn write(self, value: T) -> Self {
        self.next(Step::Begin).settle().next(Step::Fill { value }).next(Step::Publish).next(
            Step::Retire,
        )
    }

    /// The state after a whole read, with no step of the writer in between.
    pub open spec fn read(self) -> Self {
        self.next(Step::Take).next(Step::Finish)
    }

    /// What a whole read delivers, with no step of the writer in between.
    pub open spec fn delivered(self) -> Option<T> {
        match self.published {
            Some(cell) => Some(self.cells[cell]),
            None => None,
        }
    }

    /// The state after writing the values of `values` one after the other,
    /// with no read in between.
    pub open spec fn write_all(self, values: Seq<T>) -> Self
        decreases values.len(),
    {
        if values.len() == 0 {
            self
        } else {
            self.write_all(values.drop_last()).write(values.last())
        }
    }

    /// The cells whose content a read may still come to copy hold values that
    /// satisfy `good`: the published cell, the one the reader holds, and the
    /// one the writer has filled.
    pub open spec fn carries(self, good: spec_fn(T) -> bool) -> bool {
        &&& self.published matches Some(cell) ==> good(self.cells[cell])
        &&& self.reading matches Reading::Holding { cell } ==> good(self.cells[cell])
        &&& self.writing matches Writing::Filled { cell } ==> good(self.cells[cell])
    }

    /// The indices of the cells flagged free.
    pub open spec fn free_cells(self) -> Set<int> {
        Set::new(|i: int| 0 <= i < self.size() && self.free[i])
    }

    /// The published index, as a set of at most one.
    pub open spec fn published_cells(self) -> Set<int> {
        Set::new(|i: int| self.published == Some(i))
    }

    /// The index that the writer holds, as a set of at most one.
    pub open spec fn writer_cells(self) -> Set<int> {
        Set::new(|i: int| self.writer_cell() == Some(i))
    }

    /// The index that the reader holds, as a set of at most one.
    pub open spec fn reader_cells(self) -> Set<int> {
        Set::new(|i: int| self.reader_cell() == Some(i))
    }
}

/// No step, of either side, breaks the rule that every cell stands in exactly
/// one role.
pub proof fn lemma_step_keeps_roles<T>(pool: Pool<T>, step: Step<T>)
    requires
        pool.inv(),
    ensures
        pool.next(step).inv(),
        pool.next(step).size() == pool.size(),
{
    let after = pool.next(step);
    assert forall|i: int| 0 <= i < after.size() implies #[trigger] after.roles(i) == 1 by {
        assert(pool.roles(i) == 1);
        if let Some(cell) = pool.published {
            assert(pool.roles(cell) == 1);
        }
        if let Some(cell) = pool.writer_cell() {
            assert(pool.roles(cell) == 1);
        }
        if let Some(cell) = pool.reader_cell() {
            assert(pool.roles(cell) == 1);
        }
    }
}

/// The roles hold at every instant: in the first state, and after any steps
/// of the two sides in any order.
pub proof fn lemma_roles_always<T>(size: nat, value: T, steps: Seq<Step<T>>)
    ensures
        Pool::init(size, value).run(steps).inv(),
        Pool::init(size, value).run(steps).size() == size,
    decreases steps.len(),
{
    let first = Pool::init(size, value);
    if steps.len() == 0 {
        assert forall|i: int| 0 <= i < first.size() implies #[trigger] first.roles(i) == 1 by {}
    } else {
        lemma_roles_always(size, value, steps.drop_last());
        lemma_step_keeps_roles(first.run(steps.drop_last()), steps.last());
    }
}

/// With no read in flight, the cells flagged free, the published cell and the
/// cell held by a write in progress are pairwise disjoint and make up the pool.
pub proof fn lemma_three_roles<T>(pool: Pool<T>)
    requires
        pool.inv(),
        pool.reading == Reading::Idle,
    ensures
        pool.free_cells().disjoint(pool.published_cells()),
        pool.free_cells().disjoint(pool.writer_cells()),
        pool.published_cells().disjoint(pool.writer_cells()),
        pool.free_cells().union(pool.published_cells()).union(pool.writer_cells()) == Set::new(
            |i: int| 0 <= i < pool.size(),
        ),
{
    lemma_four_roles(pool);
    assert(pool.reader_cells() =~= Set::empty());
    assert(pool.free_cells().union(pool.published_cells()).union(pool.writer_cells())
        =~= pool.free_cells().union(pool.published_cells()).union(pool.writer_cells()).union(
        pool.reader_cells(),
    ));
}

/// At every instant the cells flagged free, the published cell, the cell held
/// by the writer and the cell held by the reader are pairwise disjoint and
/// make up the pool.
pub proof fn lemma_four_roles<T>(pool: Pool<T>)
    requires
        pool.inv(),
    ensures
        pool.free_cells().disjoint(pool.published_cells()),
        pool.free_cells().disjoint(pool.writer_cells()),
        pool.free_cells().disjoint(pool.reader_cells()),
        pool.published_cells().disjoint(pool.writer_cells()),
        pool.published_cells().disjoint(pool.reader_cells()),
        pool.writer_cells().disjoint(pool.reader_cells()),
        pool.free_cells().union(pool.published_cells()).union(pool.writer_cells()).union(
            pool.reader_cells(),
        ) == Set::new(|i: int| 0 <= i < pool.size()),
{
    let all = pool.free_cells().union(pool.published_cells()).union(pool.writer_cells()).union(
        pool.reader_cells(),
    );
    assert forall|i: int| 0 <= i < pool.size() implies pool.roles(i) == 1 by {}
    if let Some(cell) = pool.published {
        assert(pool.roles(cell) == 1);
    }
    if let Some(cell) = pool.writer_cell() {
        assert(pool.roles(cell) == 1);
    }
    if let Some(cell) = pool.reader_cell() {
        assert(pool.roles(cell) == 1);
    }
    assert forall|i: int| all.contains(i) <==> 0 <= i < pool.size() by {
        if 0 <= i < pool.size() {
            assert(pool.roles(i) == 1);
        }
    }
    assert(all =~= Set::new(|i: int| 0 <= i < pool.size()));
}

/// A cell that the reader holds is left alone: no step changes its content,
/// so the copy that the reader makes is the whole value that was published.
pub proof fn lemma_held_cell_is_stable<T>(pool: Pool<T>, step: Step<T>, cell: int)
    requires
        pool.inv(),
        pool.reading == (Reading::Holding { cell }),
    ensures
        pool.next(step).cells[cell] == pool.cells[cell],
{
    assert(pool.roles(cell) == 1);
}

/// A cell stays as it was published: while its index is the published one, no
/// step changes its content.
pub proof fn lemma_published_cell_is_stable<T>(pool: Pool<T>, step: Step<T>, cell: int)
    requires
        pool.inv(),
        pool.published == Some(cell),
    ensures
        pool.next(step).cells[cell] == pool.cells[cell],
{
    assert(pool.roles(cell) == 1);
}

/// Where every value written satisfies `good`, no step brings any other value
/// within a read's reach.
pub proof fn lemma_step_carries<T>(pool: Pool<T>, step: Step<T>, good: spec_fn(T) -> bool)
    requires
        pool.inv(),
        pool.carries(good),
        step matches Step::Fill { value } ==> good(value),
    ensures
        pool.next(step).carries(good),
{
    if let Some(cell) = pool.published {
        assert(pool.roles(cell) == 1);
    }
    if let Some(cell) = pool.writer_cell() {
        assert(pool.roles(cell) == 1);
    }
    if let Some(cell) = pool.reader_cell() {
        assert(pool.roles(cell) == 1);
    }
}

/// Whatever the interleaving, a read delivers only what was written: where
/// every value written satisfies `good`, so do the cells within a read's
/// reach, at every instant. The value that the pool was made with is not
/// among them.
pub proof fn lemma_reads_only_written<T>(
    size: nat,
    value: T,
    steps: Seq<Step<T>>,
    good: spec_fn(T) -> bool,
)
    requires
        forall|k: int|
            0 <= k < steps.len() ==> (#[trigger] steps[k] matches Step::Fill { value }
                ==> good(value)),
    ensures
        Pool::init(size, value).run(steps).carries(good),
    decreases steps.len(),
{
    let first = Pool::init(size, value);
    if steps.len() > 0 {
        let before = steps.drop_last();
        assert forall|k: int| 0 <= k < before.len() implies (#[trigger] before[k] matches Step::Fill {
            value,
        } ==> good(value)) by {
            assert(before[k] == steps[k]);
        }
        lemma_reads_only_written(size, value, before, good);
        lemma_roles_always(size, value, before);
        assert(steps.last() == steps[steps.len() - 1]);
        lemma_step_carries(first.run(before), steps.last(), good);
    }
}

/// In a pool of three cells or more, a write that starts finds a free cell
/// ahead of its scan, whatever the reader is doing.
pub proof fn lemma_begin_has_spare<T>(pool: Pool<T>)
    requires
        pool.inv(),
        pool.writing == Writing::Idle,
        pool.size() >= 3,
    ensures
        pool.next(Step::Begin).spare(),
{
    assert(pool.roles(0) == 1 && pool.roles(1) == 1 && pool.roles(2) == 1);
    let after = pool.next(Step::Begin);
    if pool.free[0] {
        assert(after.free[0]);
    } else if pool.free[1] {
        assert(after.free[1]);
    } else {
        assert(after.free[2]);
    }
}

/// In a pool of two cells, a write that starts while no read is in flight
/// finds a free cell ahead of its scan.
pub proof fn lemma_begin_has_spare_when_unread<T>(pool: Pool<T>)
    requires
        pool.inv(),
        pool.quiet(),
        pool.size() >= 2,
    ensures
        pool.next(Step::Begin).spare(),
{
    assert(pool.roles(0) == 1 && pool.roles(1) == 1);
    let after = pool.next(Step::Begin);
    if pool.free[0] {
        assert(after.free[0]);
    } else {
        assert(after.free[1]);
    }
}

/// Once a free cell lies ahead of the scan, one does until the scan claims a
/// cell: the reader only ever frees cells.
pub proof fn lemma_step_keeps_spare<T>(pool: Pool<T>, step: Step<T>)
    requires
        pool.inv(),
        pool.spare(),
        !(step is Begin),
    ensures
        pool.next(step).spare(),
{
    let after = pool.next(step);
    if let Writing::Scanning { next } = pool.writing {
        let j = choose|j: int| next <= j < pool.size() && #[trigger] pool.free[j];
        if let Writing::Scanning { next: later } = after.writing {
            assert(after.free[j]);
        }
    }
}

/// A scan can come up empty only while a read is in flight: in a pool of two
/// cells or more, if the writer is looking for a cell and none is free, the
/// reader holds one. The writer then waits for the reader alone.
pub proof fn lemma_stall_means_reading<T>(pool: Pool<T>)
    requires
        pool.inv(),
        pool.size() >= 2,
        pool.writing is Scanning,
        forall|j: int| 0 <= j < pool.size() ==> !#[trigger] pool.free[j],
    ensures
        pool.reading is Holding,
{
    assert(pool.roles(0) == 1 && pool.roles(1) == 1);
    assert(!pool.free[0] && !pool.free[1]);
}

/// A scan with a free cell ahead of it has not run off the end of the pool:
/// its next step tests a flag.
pub proof fn lemma_spare_scan_in_pool<T>(pool: Pool<T>)
    requires
        pool.inv(),
        pool.spare(),
    ensures
        pool.writing matches Writing::Scanning { next } ==> 0 <= next < pool.size(),
{
}

/// In a pool of three cells or more the writer never waits: at every instant
/// of every interleaving, a scan in progress has a free cell ahead of it, so
/// it claims one within as many steps as the pool has cells.
pub proof fn lemma_writer_never_waits<T>(size: nat, value: T, steps: Seq<Step<T>>)
    requires
        size >= 3,
    ensures
        Pool::init(size, value).run(steps).spare(),
        Pool::init(size, value).run(steps).writing matches Writing::Scanning { next } ==> 0 <= next
            < size,
    decreases steps.len(),
{
    let first = Pool::init(size, value);
    lemma_roles_always(size, value, steps);
    if steps.len() > 0 {
        let before = first.run(steps.drop_last());
        lemma_writer_never_waits(size, value, steps.drop_last());
        lemma_roles_always(size, value, steps.drop_last());
        if steps.last() is Begin {
            if before.writing == Writing::Idle {
                lemma_begin_has_spare(before);
            }
        } else {
            lemma_step_keeps_spare(before, steps.last());
        }
    }
    lemma_spare_scan_in_pool(first.run(steps));
}

/// A scan with a free cell ahead of it, carried on alone, claims a cell and
/// changes nothing else but that cell's flag.
pub proof fn lemma_settle_claims<T>(pool: Pool<T>)
    requires
        pool.inv(),
        pool.spare(),
        pool.writing is Scanning,
    ensures
        pool.settle().inv(),
        pool.settle().writing is Claimed,
        pool.settle().cells == pool.cells,
        pool.settle().published == pool.published,
        pool.settle().reading == pool.reading,
    decreases pool.scan_gap(),
{
    lemma_spare_scan_in_pool(pool);
    let after = pool.next(Step::Scan);
    lemma_step_keeps_roles(pool, Step::Scan);
    lemma_step_keeps_spare(pool, Step::Scan);
    assert(pool.settle() == after.settle());
    if after.writing is Scanning {
        lemma_settle_claims(after);
    } else {
        assert(after.settle() == after);
    }
}

/// At rest, in a pool of two cells or more, some cell is free.
pub proof fn lemma_free_at_rest<T>(pool: Pool<T>)
    requires
        pool.inv(),
        pool.quiet(),
        pool.size() >= 2,
    ensures
        exists|j: int| 0 <= j < pool.size() && #[trigger] pool.free[j],
{
    assert(pool.roles(0) == 1 && pool.roles(1) == 1);
    if pool.free[0] {
    } else {
        assert(pool.free[1]);
    }
}

/// A scan that meets no free cell before `cell`, and finds `cell` free,
/// claims `cell` when carried through.
pub proof fn lemma_scan_claims_first<T>(pool: Pool<T>, cell: int)
    requires
        pool.free.len() == pool.cells.len(),
        pool.writing matches Writing::Scanning { next } && 0 <= next <= cell,
        0 <= cell < pool.size(),
        pool.free[cell],
        forall|j: int| 0 <= j < cell ==> !pool.free[j],
    ensures
        pool.settle() == (Pool {
            free: pool.free.update(cell, false),
            writing: Writing::Claimed { cell },
            ..pool
        }),
    decreases pool.scan_gap(),
{
    let after = pool.next(Step::Scan);
    assert(pool.settle() == after.settle());
    if after.writing is Scanning {
        lemma_scan_claims_first(after, cell);
    } else {
        assert(after.settle() == after);
    }
}

/// A whole write that starts with the writer idle and finds a free cell ends
/// with the writer idle again, whatever the pool held.
pub proof fn lemma_write_ends_idle<T>(pool: Pool<T>, value: T)
    requires
        pool.free.len() == pool.cells.len(),
        pool.writing == Writing::Idle,
        pool.has_free(),
    ensures
        pool.write(value).writing == Writing::Idle,
        pool.write(value).reading == pool.reading,
{
    let cell = first_free(pool.free, 0);
    lemma_first_free(pool.free, 0);
    lemma_scan_claims_first(pool.next(Step::Begin), cell);
}

/// The least index from `from` on whose flag is set, or the length of
/// `free` where there is none.
pub open spec fn first_free(free: Seq<bool>, from: int) -> int
    decreases free.len() - from,
{
    if from < 0 || from >= free.len() {
        free.len() as int
    } else if free[from] {
        from
    } else {
        first_free(free, from + 1)
    }
}

/// Where a flag is set from `from` on, `first_free` names the first such
/// flag.
pub proof fn lemma_first_free(free: Seq<bool>, from: int)
    requires
        0 <= from,
        exists|j: int| from <= j < free.len() && #[trigger] free[j],
    ensures
        from <= first_free(free, from) < free.len(),
        free[first_free(free, from)],
        forall|j: int| from <= j < first_free(free, from) ==> !#[trigger] free[j],
    decreases free.len() - from,
{
    if !free[from] {
        let j = choose|j: int| from <= j < free.len() && #[trigger] free[j];
        assert(from + 1 <= j);
        lemma_first_free(free, from + 1);
    }
}

/// A whole write between two quiet instants leaves the pool quiet, with the
/// value written as the one that the next read delivers.
pub proof fn lemma_write_publishes<T>(pool: Pool<T>, value: T)
    requires
        pool.inv(),
        pool.quiet(),
        pool.size() >= 2,
    ensures
        pool.write(value).inv(),
        pool.write(value).quiet(),
        pool.write(value).size() == pool.size(),
        pool.write(value).delivered() == Some(value),
{
    let begun = pool.next(Step::Begin);
    lemma_step_keeps_roles(pool, Step::Begin);
    lemma_begin_has_spare_when_unread(pool);
    lemma_settle_claims(begun);
    let claimed = begun.settle();
    let filled = claimed.next(Step::Fill { value });
    lemma_step_keeps_roles(claimed, Step::Fill { value });
    let published = filled.next(Step::Publish);
    lemma_step_keeps_roles(filled, Step::Publish);
    lemma_step_keeps_roles(published, Step::Retire);
    if let Some(cell) = filled.published {
        assert(filled.roles(cell) == 1);
    }
}

/// A whole read between two quiet instants leaves the pool quiet, with
/// nothing published.
pub proof fn lemma_read_empties<T>(pool: Pool<T>)
    requires
        pool.inv(),
        pool.quiet(),
    ensures
        pool.read().inv(),
        pool.read().quiet(),
        pool.read().size() == pool.size(),
        pool.read().published.is_none(),
{
    lemma_step_keeps_roles(pool, Step::Take);
    lemma_step_keeps_roles(pool.next(Step::Take), Step::Finish);
}

/// A read that follows a write, with no write in between, delivers the value
/// that was written.
pub proof fn law_read_follows_write<T>(pool: Pool<T>, value: T)
    requires
        pool.inv(),
        pool.quiet(),
        pool.size() >= 2,
    ensures
        pool.write(value).delivered() == Some(value),
{
    lemma_write_publishes(pool, value);
}

/// A read before the first write delivers nothing: the value that the pool
/// was made with is never published.
pub proof fn law_nothing_before_first_write<T>(size: nat, value: T)
    ensures
        Pool::init(size, value).delivered().is_none(),
{
}

/// A read that follows a read, with no write in between, delivers nothing,
/// whether or not the first one delivered a value; and so does a third.
pub proof fn law_nothing_new_after_read<T>(pool: Pool<T>)
    requires
        pool.inv(),
        pool.quiet(),
    ensures
        pool.read().delivered().is_none(),
        pool.read().read().delivered().is_none(),
{
    lemma_read_empties(pool);
    lemma_read_empties(pool.read());
}

/// Writes with no read in between leave the pool quiet.
pub proof fn lemma_write_all_quiet<T>(pool: Pool<T>, values: Seq<T>)
    requires
        pool.inv(),
        pool.quiet(),
        pool.size() >= 2,
    ensures
        pool.write_all(values).inv(),
        pool.write_all(values).quiet(),
        pool.write_all(values).size() == pool.size(),
    decreases values.len(),
{
    if values.len() > 0 {
        lemma_write_all_quiet(pool, values.drop_last());
        lemma_write_publishes(pool.write_all(values.drop_last()), values.last());
    }
}

/// After any number of writes with no read in between, a read delivers the
/// last value written: the earlier ones are gone.
pub proof fn law_last_write_wins<T>(pool: Pool<T>, values: Seq<T>)
    requires
        pool.inv(),
        pool.quiet(),
        pool.size() >= 2,
        values.len() > 0,
    ensures
        pool.write_all(values).delivered() == Some(values.last()),
{
    lemma_write_all_quiet(pool, values.drop_last());
    lemma_write_publishes(pool.write_all(values.drop_last()), values.last());
}

/// Two pools that are alike stay alike under any operation.
pub proof fn lemma_alike_stays<T>(first: Pool<T>, second: Pool<T>, op: Op<T>)
    requires
        first.alike(second),
    ensures
        first.apply(op).alike(second.apply(op)),
{
    match op {
        Op::Write { value } => {
            lemma_write_publishes(first, value);
            lemma_write_publishes(second, value);
        },
        Op::Read => {
            lemma_read_empties(first);
            lemma_read_empties(second);
        },
    }
}

/// No run of reads and writes tells two pools apart that are alike: every
/// read delivers the same from both.
pub proof fn lemma_alike_deliver_alike<T>(first: Pool<T>, second: Pool<T>, ops: Seq<Op<T>>)
    requires
        first.alike(second),
    ensures
        first.deliveries(ops) == second.deliveries(ops),
    decreases ops.len(),
{
    if ops.len() > 0 {
        lemma_alike_stays(first, second, ops.first());
        lemma_alike_deliver_alike(
            first.apply(ops.first()),
            second.apply(ops.first()),
            ops.drop_first(),
        );
    }
}

/// A value that is overwritten before it is read leaves no trace: after a
/// write of `lost` and then of `kept`, every later run of reads and writes
/// delivers what it would have delivered had `lost` never been written.
pub proof fn law_overwritten_leaves_no_trace<T>(pool: Pool<T>, lost: T, kept: T, ops: Seq<Op<T>>)
    requires
        pool.inv(),
        pool.quiet(),
        pool.size() >= 2,
    ensures
        pool.write(lost).write(kept).deliveries(ops) == pool.write(kept).deliveries(ops),
{
    lemma_write_publishes(pool, lost);
    lemma_write_publishes(pool.write(lost), kept);
    lemma_write_publishes(pool, kept);
    lemma_alike_deliver_alike(pool.write(lost).write(kept), pool.write(kept), ops);
}

} // verus!
