//! The ticket lock, as a machine of atomic steps.
//!
//! A thread that wants the lock takes the next ticket from a counter and
//! waits until a second counter, the number now served, shows its ticket;
//! leaving the lock moves that second counter on by one. Threads therefore
//! enter in the order in which they asked.
use vstd::prelude::*;

verus! {

/// The two counters, with the tickets that wait and the tickets that are
/// inside the lock.
pub struct Tickets {
    pub next_ticket: nat,
    pub now_serving: nat,
    pub waiting: Set<nat>,
    pub inside: Set<nat>,
}

/// One atomic action of one thread.
pub enum Move {
    /// A thread takes the next ticket.
    Take,
    /// The thread with `ticket` finds it served and enters.
    Enter { ticket: nat },
    /// The thread with `ticket` leaves the lock.
    Leave { ticket: nat },
}

impl Tickets {
    /// No ticket taken, and the first one to be served at once.
    pub open spec fn init() -> Self {
        Tickets { next_ticket: 0, now_serving: 0, waiting: Set::empty(), inside: Set::empty() }
    }

    /// Whether `step` can be taken in this state.
    pub open spec fn enabled(self, step: Move) -> bool {
        match step {
            Move::Take => true,
            Move::Enter { ticket } => self.waiting.contains(ticket) && ticket == self.now_serving,
            Move::Leave { ticket } => self.inside.contains(ticket),
        }
    }

    /// The state after `step`; a step that cannot be taken changes nothing.
    pub open spec fn next(self, step: Move) -> Self {
        if !self.enabled(step) {
            self
        } else {
            match step {
                Move::Take => Tickets {
                    next_ticket: self.next_ticket + 1,
                    waiting: self.waiting.insert(self.next_ticket),
                    ..self
                },
                Move::Enter { ticket } => Tickets {
                    waiting: self.waiting.remove(ticket),
                    inside: self.inside.insert(ticket),
                    ..self
                },
                Move::Leave { ticket } => Tickets {
                    now_serving: self.now_serving + 1,
                    inside: self.inside.remove(ticket),
                    ..self
                },
            }
        }
    }

    /// The state after the steps of `steps`, taken in order.
    pub open spec fn run(self, steps: Seq<Move>) -> Self
        decreases steps.len(),
    {
        if steps.len() == 0 {
            self
        } else {
            self.run(steps.drop_last()).next(steps.last())
        }
    }

    /// The tickets taken and not yet given back are those from the number
    /// now served up to the next ticket, each of them waiting or inside and
    /// none both; and only the ticket now served is inside.
    pub open spec fn inv(self) -> bool {
        &&& self.now_serving <= self.next_ticket
        &&& forall|t: nat| #[trigger]
            self.waiting.contains(t) ==> self.now_serving <= t < self.next_ticket
                && !self.inside.contains(t)
        &&& forall|t: nat| #[trigger]
            self.inside.contains(t) ==> t == self.now_serving && t < self.next_ticket
        &&& forall|t: nat|
            self.now_serving <= t < self.next_ticket ==> #[trigger] self.waiting.contains(t)
                || self.inside.contains(t)
    }
}

/// No step breaks the lock's bookkeeping.
pub proof fn lemma_step_keeps_order(tickets: Tickets, step: Move)
    requires
        tickets.inv(),
    ensures
        tickets.next(step).inv(),
{
    let after = tickets.next(step);
    if tickets.enabled(step) {
        match step {
            Move::Take => {},
            Move::Enter { ticket } => {},
            Move::Leave { ticket } => {
                assert forall|t: nat| #[trigger] after.waiting.contains(t) implies after.now_serving
                    <= t by {
                    assert(tickets.waiting.contains(t));
                    assert(tickets.inside.contains(ticket));
                }
            },
        }
    }
}

/// The bookkeeping holds at every instant: at the start, and after any steps
/// of any threads in any order.
pub proof fn lemma_order_always(steps: Seq<Move>)
    ensures
        Tickets::init().run(steps).inv(),
    decreases steps.len(),
{
    if steps.len() > 0 {
        lemma_order_always(steps.drop_last());
        lemma_step_keeps_order(Tickets::init().run(steps.drop_last()), steps.last());
    }
}

/// Tickets come in increasing order with no gap: each one taken is the
/// number of those taken before it.
pub proof fn lemma_tickets_in_order(tickets: Tickets)
    ensures
        tickets.next(Move::Take).next_ticket == tickets.next_ticket + 1,
        tickets.next(Move::Take).waiting.contains(tickets.next_ticket),
{
}

/// At most one thread is inside the lock.
pub proof fn lemma_one_inside(tickets: Tickets, first: nat, second: nat)
    requires
        tickets.inv(),
        tickets.inside.contains(first),
        tickets.inside.contains(second),
    ensures
        first == second,
{
}

/// Threads enter in the order of their tickets: when one can enter, every
/// earlier ticket has been through the lock and given back, and nobody is
/// inside.
pub proof fn lemma_first_come_first_served(tickets: Tickets, ticket: nat, earlier: nat)
    requires
        tickets.inv(),
        tickets.enabled(Move::Enter { ticket }),
        earlier < ticket,
    ensures
        !tickets.waiting.contains(earlier),
        !tickets.inside.contains(earlier),
        !tickets.inside.contains(ticket),
{
}

/// A free lock with someone waiting lets the first of them in: the lock
/// holds nobody up without need.
pub proof fn lemma_someone_can_enter(tickets: Tickets)
    requires
        tickets.inv(),
        tickets.inside =~= Set::<nat>::empty(),
        tickets.now_serving < tickets.next_ticket,
    ensures
        tickets.enabled(Move::Enter { ticket: tickets.now_serving }),
{
    assert(tickets.waiting.contains(tickets.now_serving) || tickets.inside.contains(
        tickets.now_serving,
    ));
}

} // verus!
