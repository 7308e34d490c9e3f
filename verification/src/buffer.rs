//! The single-buffer protocol: one value behind a lock, and a flag that tells
//! whether the reader has yet to see it.
//!
//! The protocol is written once, over a slot of one value, one flag and one
//! lock. On a slot that its caller owns alone every access is exact and the
//! operations are proved to do what [`Buffer::write`] and [`Buffer::read`]
//! say; on a slot shared with another thread the same code runs against a
//! real lock and an atomic flag.
use crate::cell::Accepts;
use vstd::prelude::*;

verus! {

/// What a single-buffer exchange holds between two operations.
pub struct Buffer<T> {
    /// The value last written, or the one that the exchange was made with.
    pub value: T,
    /// Whether `value` was written and has not been delivered since.
    pub unread: bool,
}

impl<T> Buffer<T> {
    /// A buffer that holds `value`, with nothing for the reader to see.
    pub open spec fn init(value: T) -> Self {
        Buffer { value, unread: false }
    }

    /// The buffer after a write of `value`.
    pub open spec fn write(self, value: T) -> Self {
        Buffer { value, unread: true }
    }

    /// The buffer after a read.
    pub open spec fn read(self) -> Self {
        Buffer { unread: false, ..self }
    }

    /// What a read delivers.
    pub open spec fn delivered(self) -> Option<T> {
        if self.unread {
            Some(self.value)
        } else {
            None
        }
    }

    /// The buffer after writing the values of `values` one after the other,
    /// with no read in between.
    pub open spec fn write_all(self, values: Seq<T>) -> Self
        decreases values.len(),
    {
        if values.len() == 0 {
            self
        } else {
            self.write_all(values.drop_last()).write(values.last())
        }
    }
}

/// A read that follows a write, with no write in between, delivers the value
/// that was written.
pub proof fn law_read_follows_write<T>(buffer: Buffer<T>, value: T)
    ensures
        buffer.write(value).delivered() == Some(value),
{
}

/// A read before the first write delivers nothing: the value that the buffer
/// was made with is never delivered.
pub proof fn law_nothing_before_first_write<T>(value: T)
    ensures
        Buffer::init(value).delivered().is_none(),
{
}

/// A read that follows a read, with no write in between, delivers nothing,
/// whether or not the first one delivered a value; and so does a third.
pub proof fn law_nothing_new_after_read<T>(buffer: Buffer<T>)
    ensures
        buffer.read().delivered().is_none(),
        buffer.read().read().delivered().is_none(),
{
}

/// After any number of writes with no read in between, a read delivers the
/// last value written: the earlier ones are gone.
pub proof fn law_last_write_wins<T>(buffer: Buffer<T>, values: Seq<T>)
    requires
        values.len() > 0,
    ensures
        buffer.write_all(values).delivered() == Some(values.last()),
{
}

/// A value that is overwritten before it is read leaves no trace: after a
/// write of `lost` and then of `kept` the buffer is what it would have been
/// had `lost` never been written, so no later read or write can tell.
pub proof fn law_overwritten_leaves_no_trace<T>(buffer: Buffer<T>, lost: T, kept: T)
    ensures
        buffer.write(lost).write(kept) == buffer.write(kept),
{
}

/// Which side holds the lock.
pub enum Side {
    Writer,
    Reader,
}

/// What the writer is doing.
pub enum Storing {
    /// Between two writes.
    Idle,
    /// Inside the lock, with nothing stored yet.
    Entered,
    /// Inside the lock, with the value stored and the flag not yet raised.
    Stored,
    /// Inside the lock, with the flag raised.
    Raised,
}

/// What the reader is doing.
pub enum Fetching {
    /// Between two reads.
    Idle,
    /// Has found the flag raised and is on its way to the lock.
    Alerted,
    /// Inside the lock, with nothing copied yet.
    Entered,
    /// Inside the lock, with the value copied and the flag not yet lowered.
    Copied,
    /// Inside the lock, with the flag lowered.
    Lowered,
}

/// The state that the two sides share, with where each of them stands.
pub struct Desk<T> {
    /// The value behind the lock.
    pub value: T,
    /// The flag.
    pub flag: bool,
    /// Whether `value` was stored by a write and not copied by a read since.
    pub news: bool,
    /// Who holds the lock.
    pub holder: Option<Side>,
    pub storing: Storing,
    pub fetching: Fetching,
}

/// One atomic action of one side.
pub enum Act<T> {
    /// The writer takes the lock.
    WriterEnters,
    /// The writer stores a value.
    Store { value: T },
    /// The writer raises the flag.
    Raise,
    /// The writer gives the lock back.
    WriterLeaves,
    /// The reader looks at the flag, and goes on only if it is raised.
    Look,
    /// The reader takes the lock.
    ReaderEnters,
    /// The reader copies the value.
    Copy,
    /// The reader lowers the flag.
    Lower,
    /// The reader gives the lock back.
    ReaderLeaves,
}

impl<T> Desk<T> {
    /// A desk that holds `value`, with the flag down, the lock free and both
    /// sides idle.
    pub open spec fn init(value: T) -> Self {
        Desk {
            value,
            flag: false,
            news: false,
            holder: None,
            storing: Storing::Idle,
            fetching: Fetching::Idle,
        }
    }

    /// The state after `act`; an act that cannot be taken changes nothing.
    /// The lock lets a side in only while nobody holds it.
    pub open spec fn next(self, act: Act<T>) -> Self {
        match (act, self.storing, self.fetching) {
            (Act::WriterEnters, Storing::Idle, _) => if self.holder.is_none() {
                Desk { holder: Some(Side::Writer), storing: Storing::Entered, ..self }
            } else {
                self
            },
            (Act::Store { value }, Storing::Entered, _) => Desk {
                value,
                news: true,
                storing: Storing::Stored,
                ..self
            },
            (Act::Raise, Storing::Stored, _) => Desk { flag: true, storing: Storing::Raised, ..self },
            (Act::WriterLeaves, Storing::Raised, _) => Desk {
                holder: None,
                storing: Storing::Idle,
                ..self
            },
            (Act::Look, _, Fetching::Idle) => if self.flag {
                Desk { fetching: Fetching::Alerted, ..self }
            } else {
                self
            },
            (Act::ReaderEnters, _, Fetching::Alerted) => if self.holder.is_none() {
                Desk { holder: Some(Side::Reader), fetching: Fetching::Entered, ..self }
            } else {
                self
            },
            (Act::Copy, _, Fetching::Entered) => Desk {
                news: false,
                fetching: Fetching::Copied,
                ..self
            },
            (Act::Lower, _, Fetching::Copied) => Desk {
                flag: false,
                fetching: Fetching::Lowered,
                ..self
            },
            (Act::ReaderLeaves, _, Fetching::Lowered) => Desk {
                holder: None,
                fetching: Fetching::Idle,
                ..self
            },
            _ => self,
        }
    }

    /// The state after the acts of `acts`, taken in order.
    pub open spec fn run(self, acts: Seq<Act<T>>) -> Self
        decreases acts.len(),
    {
        if acts.len() == 0 {
            self
        } else {
            self.run(acts.drop_last()).next(acts.last())
        }
    }

    /// Whether the writer is inside the lock.
    pub open spec fn writer_inside(self) -> bool {
        !(self.storing is Idle)
    }

    /// Whether the reader is inside the lock.
    pub open spec fn reader_inside(self) -> bool {
        self.fetching is Entered || self.fetching is Copied || self.fetching is Lowered
    }

    /// The lock is held by the side that is inside it and by nobody else, so
    /// the two are never inside together; and the flag tells whether there
    /// is news, but for the moments inside the lock when one of the two has
    /// been changed and the other not yet.
    pub open spec fn inv(self) -> bool {
        &&& self.writer_inside() <==> self.holder == Some(Side::Writer)
        &&& self.reader_inside() <==> self.holder == Some(Side::Reader)
        &&& self.fetching is Alerted || self.fetching is Entered ==> self.flag
        &&& if self.storing is Stored {
            self.news
        } else if self.fetching is Copied {
            self.flag && !self.news
        } else {
            self.flag == self.news
        }
    }

    /// The value behind the lock satisfies `good` while it is news.
    pub open spec fn carries(self, good: spec_fn(T) -> bool) -> bool {
        self.news ==> good(self.value)
    }
}

/// No act, of either side, breaks the desk's bookkeeping.
pub proof fn lemma_act_keeps_desk<T>(desk: Desk<T>, act: Act<T>)
    requires
        desk.inv(),
    ensures
        desk.next(act).inv(),
{
}

/// The bookkeeping holds at every instant: at the start, and after any acts
/// of the two sides in any order.
pub proof fn lemma_desk_always<T>(value: T, acts: Seq<Act<T>>)
    ensures
        Desk::init(value).run(acts).inv(),
    decreases acts.len(),
{
    if acts.len() > 0 {
        lemma_desk_always(value, acts.drop_last());
        lemma_act_keeps_desk(Desk::init(value).run(acts.drop_last()), acts.last());
    }
}

/// The two sides are never inside the lock together.
pub proof fn lemma_one_side_inside<T>(desk: Desk<T>)
    requires
        desk.inv(),
    ensures
        !(desk.writer_inside() && desk.reader_inside()),
{
}

/// With both sides idle the flag is raised if and only if the value was
/// written and has not been delivered since.
pub proof fn lemma_flag_tells_news<T>(desk: Desk<T>)
    requires
        desk.inv(),
        desk.storing is Idle,
        desk.fetching is Idle,
    ensures
        desk.flag == desk.news,
{
}

/// What the reader copies is news: a value that a write stored and no
/// earlier read has copied. So no write is delivered twice, and the value
/// that the desk was made with is never delivered.
pub proof fn lemma_copy_takes_news<T>(desk: Desk<T>)
    requires
        desk.inv(),
        desk.fetching is Entered,
    ensures
        desk.news,
        desk.next(Act::Copy).fetching is Copied,
        !desk.next(Act::Copy).news,
{
}

/// Whatever the interleaving, a read delivers only what was written: where
/// every value stored satisfies `good`, so does the value behind the lock
/// whenever it is news.
pub proof fn lemma_desk_reads_only_written<T>(
    value: T,
    acts: Seq<Act<T>>,
    good: spec_fn(T) -> bool,
)
    requires
        forall|k: int|
            0 <= k < acts.len() ==> (#[trigger] acts[k] matches Act::Store { value } ==> good(
                value,
            )),
    ensures
        Desk::init(value).run(acts).carries(good),
    decreases acts.len(),
{
    if acts.len() > 0 {
        let before = acts.drop_last();
        assert forall|k: int| 0 <= k < before.len() implies (#[trigger] before[k] matches Act::Store {
            value,
        } ==> good(value)) by {
            assert(before[k] == acts[k]);
        }
        lemma_desk_reads_only_written(value, before, good);
        assert(acts.last() == acts[acts.len() - 1]);
    }
}

/// The memory that the protocol runs on: one value, its flag, and the lock
/// that guards the value.
pub trait Slot<T: Clone>: Sized {
    /// Whether the caller owns the slot alone, so that it holds between two
    /// accesses what the last one left.
    spec fn exact(&self) -> bool;

    /// Whether the lock is had whenever it is asked for, however long that
    /// takes.
    spec fn sure(&self) -> bool;

    /// The values that the slot may hold.
    spec fn accepts(&self) -> Accepts<T>;

    /// What an exact slot holds.
    spec fn buffer(&self) -> Buffer<T>;

    /// Whether this side is inside the lock.
    spec fn inside(&self) -> bool;

    /// The value behind the lock, as this side holds it while it is inside.
    spec fn value(&self) -> T;

    /// What every access relies on and keeps.
    spec fn wf(&self) -> bool;

    /// An exact slot always gets its lock, and holds inside the lock the
    /// value of its buffer.
    proof fn lemma_shape(&self)
        requires
            self.wf(),
        ensures
            self.exact() ==> self.sure(),
            self.exact() && self.inside() ==> self.value() == self.buffer().value,
    ;

    /// Tells whether the flag is raised.
    fn is_unread(&self) -> (unread: bool)
        requires
            self.wf(),
        ensures
            self.exact() ==> unread == self.buffer().unread,
    ;

    /// Takes the lock, and tells whether it got it. Inside, this side holds
    /// the value that was behind the lock.
    fn enter(&mut self) -> (entered: bool)
        requires
            old(self).wf(),
            !old(self).inside(),
        ensures
            final(self).wf(),
            final(self).exact() == old(self).exact(),
            final(self).sure() == old(self).sure(),
            final(self).accepts() == old(self).accepts(),
            final(self).inside() == entered,
            old(self).sure() ==> entered,
            entered ==> (final(self).accepts())(final(self).value()),
            old(self).exact() ==> final(self).buffer() == old(self).buffer(),
    ;

    /// Gives the lock back, with the value held behind it.
    fn leave(&mut self)
        requires
            old(self).wf(),
            old(self).inside(),
        ensures
            final(self).wf(),
            final(self).exact() == old(self).exact(),
            final(self).sure() == old(self).sure(),
            final(self).accepts() == old(self).accepts(),
            !final(self).inside(),
            old(self).exact() ==> final(self).buffer() == old(self).buffer(),
    ;

    /// Puts `value` in place of the one held.
    fn store(&mut self, value: T)
        requires
            old(self).wf(),
            old(self).inside(),
            (old(self).accepts())(value),
        ensures
            final(self).wf(),
            final(self).exact() == old(self).exact(),
            final(self).sure() == old(self).sure(),
            final(self).accepts() == old(self).accepts(),
            final(self).inside(),
            final(self).value() == value,
            old(self).exact() ==> final(self).buffer() == (Buffer { value, ..old(self).buffer() }),
    ;

    /// A copy of the value held.
    fn load(&self) -> (value: T)
        requires
            self.wf(),
            self.inside(),
        ensures
            (self.accepts())(value),
            cloned(self.value(), value),
    ;

    /// Raises or lowers the flag.
    fn mark(&mut self, unread: bool)
        requires
            old(self).wf(),
            old(self).inside(),
        ensures
            final(self).wf(),
            final(self).exact() == old(self).exact(),
            final(self).sure() == old(self).sure(),
            final(self).accepts() == old(self).accepts(),
            final(self).inside(),
            final(self).value() == old(self).value(),
            old(self).exact() ==> final(self).buffer() == (Buffer { unread, ..old(self).buffer() }),
    ;
}

/// Whether `after` is the slot `before` after an operation: outside the lock
/// again, and made as it was.
pub open spec fn same_slot<T: Clone, S: Slot<T>>(before: &S, after: &S) -> bool {
    &&& after.wf()
    &&& !after.inside()
    &&& after.exact() == before.exact()
    &&& after.sure() == before.sure()
    &&& after.accepts() == before.accepts()
}

/// Stores `value` under the lock and raises the flag, unless the lock cannot
/// be had: then the slot stays as it was and the value comes back.
///
/// Where the lock is sure to be had the write succeeds. On an exact slot
/// the next read delivers `value`.
pub fn write<T: Clone, S: Slot<T>>(slot: &mut S, value: T) -> (refused: Result<(), T>)
    requires
        old(slot).wf(),
        !old(slot).inside(),
        (old(slot).accepts())(value),
    ensures
        same_slot(old(slot), final(slot)),
        refused matches Err(returned) ==> returned == value,
        old(slot).sure() ==> refused is Ok,
        old(slot).exact() ==> {
            &&& refused is Ok
            &&& final(slot).buffer() == old(slot).buffer().write(value)
            &&& final(slot).buffer().delivered() == Some(value)
        },
{
    proof {
        slot.lemma_shape();
    }
    if !slot.enter() {
        return Err(value);
    }
    deposit(slot, value);
    Ok(())
}

/// Hands out a copy of the value held and lowers the flag, if the flag is
/// raised; looks no further if it is not, and takes no lock then.
///
/// On an exact slot this delivers a copy of the value last written and not
/// yet read, or nothing where there is none.
pub fn read<T: Clone, S: Slot<T>>(slot: &mut S) -> (delivered: Option<T>)
    requires
        old(slot).wf(),
        !old(slot).inside(),
    ensures
        same_slot(old(slot), final(slot)),
        delivered matches Some(value) ==> (old(slot).accepts())(value),
        old(slot).exact() ==> {
            &&& final(slot).buffer() == old(slot).buffer().read()
            &&& match old(slot).buffer().delivered() {
                Some(written) => delivered matches Some(value) && cloned(written, value),
                None => delivered.is_none(),
            }
        },
{
    let unread = slot.is_unread();
    fetch(slot, unread)
}

/// From inside the lock: stores `value`, raises the flag and leaves.
pub fn deposit<T: Clone, S: Slot<T>>(slot: &mut S, value: T)
    requires
        old(slot).wf(),
        old(slot).inside(),
        (old(slot).accepts())(value),
    ensures
        same_slot(old(slot), final(slot)),
        old(slot).exact() ==> final(slot).buffer() == old(slot).buffer().write(value),
{
    slot.store(value);
    slot.mark(true);
    slot.leave();
}

/// From inside the lock: copies the value held, lowers the flag and leaves.
/// What it hands out is a copy of the value that this side held on the way
/// in.
pub fn collect<T: Clone, S: Slot<T>>(slot: &mut S) -> (delivered: T)
    requires
        old(slot).wf(),
        old(slot).inside(),
    ensures
        same_slot(old(slot), final(slot)),
        (old(slot).accepts())(delivered),
        cloned(old(slot).value(), delivered),
        old(slot).exact() ==> final(slot).buffer() == old(slot).buffer().read(),
{
    let value = slot.load();
    slot.mark(false);
    slot.leave();
    value
}

/// What a read does once it has looked at the flag and found it as `unread`
/// says. With the flag down it delivers nothing and takes no lock. With the
/// flag raised it goes for the lock and delivers a copy of the value behind
/// it, or nothing where the lock could not be had: where the lock is sure to
/// be had, it delivers.
pub fn fetch<T: Clone, S: Slot<T>>(slot: &mut S, unread: bool) -> (delivered: Option<T>)
    requires
        old(slot).wf(),
        !old(slot).inside(),
    ensures
        same_slot(old(slot), final(slot)),
        delivered matches Some(value) ==> (old(slot).accepts())(value),
        delivered is Some ==> unread,
        unread && old(slot).sure() ==> delivered is Some,
        old(slot).exact() && !unread ==> final(slot).buffer() == old(slot).buffer(),
        old(slot).exact() && unread ==> {
            &&& final(slot).buffer() == old(slot).buffer().read()
            &&& delivered matches Some(value) && cloned(old(slot).buffer().value, value)
        },
{
    proof {
        slot.lemma_shape();
    }
    if !unread {
        return None;
    }
    if !slot.enter() {
        return None;
    }
    proof {
        slot.lemma_shape();
    }
    Some(collect(slot))
}

} // verus!
