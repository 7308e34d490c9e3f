//! Latest-value exchanges between one writing thread and one reading thread.
//!
//! A writer publishes values; a reader polls for the newest value that it has
//! not seen yet. Nothing is queued: a value that is overwritten before it is
//! read is lost. Four realisations share the contract of [`Reader`] and
//! [`Writer`]; they differ in how the two sides keep out of each other's way.
//!
//! * [`atomic_spsc`] rotates three cells and never makes either side wait;
//! * [`blocking_spsc`] rotates two cells, and its writer may wait for the
//!   reader;
//! * [`mutex_spsc`] keeps one value behind a general lock;
//! * [`ticket_spsc`] keeps one value behind a fair ticket lock.
//!
//! The two protocols are stated as machines of atomic steps in [`pool`] and
//! [`buffer`], and the ticket lock in [`ticket`]: what is proved there holds
//! of every interleaving of the two threads. The code of the protocols is
//! written once, in [`board`] and [`buffer`], over the memory it runs on. The
//! exchanges of [`solo`] run it on memory that one owner holds alone, where
//! every result is stated exactly; the four shared exchanges run the same
//! code on atomics and lock-guarded cells.
use vstd::prelude::*;

pub mod atomic_spsc;
pub mod blocking_spsc;
pub mod board;
pub mod buffer;
pub mod cell;
pub mod mutex_spsc;
pub mod pool;
mod shared;
mod signal;
pub mod solo;
pub mod ticket;
pub mod ticket_spsc;

verus! {

/// The reading side of an exchange.
pub trait Reader<T> {
    /// The values that this exchange was built to carry.
    spec fn accepts(&self, value: T) -> bool;

    /// Polls for the newest value that was published and not yet delivered.
    ///
    /// Whatever the writer is doing meanwhile, a delivered value is one that
    /// the exchange accepts: it was never made up here.
    fn read(&self) -> (delivered: Option<T>)
        ensures
            delivered matches Some(value) ==> self.accepts(value),
    ;
}

/// The writing side of an exchange.
pub trait Writer<T> {
    /// The values that this exchange was built to carry.
    spec fn accepts(&self, value: T) -> bool;

    /// Publishes `value` as the newest value, in place of one not yet read.
    fn write(&self, value: T)
        requires
            self.accepts(value),
    ;
}

} // verus!
