use vstd::prelude::*;

use crate::codes::code_spec;
use crate::types::{
    default_profile, Event, EventView, Purchase, PurchaseView, Ticket, TicketView, UserId,
    UserProfile, UserProfileView,
};

verus! {

/// Tickets bought so far by one user for one event.
pub struct UserEventCount {
    pub user: UserId,
    pub event_id: u64,
    pub count: u32,
}

/// The whole state of the ticketing service. Events, tickets and purchases
/// are kept in order of creation: the record with id `k` sits at index `k - 1`.
pub struct TicketingSystem {
    pub events: Vec<Event>,
    pub tickets: Vec<Ticket>,
    pub purchases: Vec<Purchase>,
    pub profiles: Vec<UserProfile>,
    pub counts: Vec<UserEventCount>,
}

/// Tickets sold for event `e` over the purchases `ps`.
pub open spec fn sold(ps: Seq<Purchase>, e: u64) -> int
    decreases ps.len(),
{
    if ps.len() == 0 {
        0
    } else {
        sold(ps.drop_last(), e) + if ps.last().event_id == e {
            ps.last().quantity as int
        } else {
            0
        }
    }
}

/// Tickets of event `e` bought by user `u` over the purchases `ps`.
pub open spec fn bought(ps: Seq<Purchase>, u: Seq<u8>, e: u64) -> int
    decreases ps.len(),
{
    if ps.len() == 0 {
        0
    } else {
        bought(ps.drop_last(), u, e) + if ps.last().buyer@ == u && ps.last().event_id == e {
            ps.last().quantity as int
        } else {
            0
        }
    }
}

/// The events of `es` still on sale after time `now`, in order.
pub open spec fn active_at(es: Seq<Event>, now: u64) -> Seq<EventView>
    decreases es.len(),
{
    if es.len() == 0 {
        Seq::empty()
    } else {
        active_at(es.drop_last(), now) + if es.last().is_active && es.last().sale_end_time > now {
            seq![es.last()@]
        } else {
            Seq::empty()
        }
    }
}

/// The tickets of `ts` owned by `u`, in order.
pub open spec fn owned_by(ts: Seq<Ticket>, u: Seq<u8>) -> Seq<TicketView>
    decreases ts.len(),
{
    if ts.len() == 0 {
        Seq::empty()
    } else {
        owned_by(ts.drop_last(), u) + if ts.last().owner@ == u {
            seq![ts.last()@]
        } else {
            Seq::empty()
        }
    }
}

/// The purchases of `ps` made by `u`, in order.
pub open spec fn bought_by(ps: Seq<Purchase>, u: Seq<u8>) -> Seq<PurchaseView>
    decreases ps.len(),
{
    if ps.len() == 0 {
        Seq::empty()
    } else {
        bought_by(ps.drop_last(), u) + if ps.last().buyer@ == u {
            seq![ps.last()@]
        } else {
            Seq::empty()
        }
    }
}

pub proof fn lemma_sold_push(ps: Seq<Purchase>, p: Purchase, e: u64)
    ensures
        sold(ps.push(p), e) == sold(ps, e) + if p.event_id == e { p.quantity as int } else { 0 },
{
    assert(ps.push(p).drop_last() =~= ps);
}

pub proof fn lemma_bought_push(ps: Seq<Purchase>, p: Purchase, u: Seq<u8>, e: u64)
    ensures
        bought(ps.push(p), u, e) == bought(ps, u, e) + if p.buyer@ == u && p.event_id == e {
            p.quantity as int
        } else {
            0
        },
{
    assert(ps.push(p).drop_last() =~= ps);
}

/// No purchase in `ps` is for event `e`, so none of it is sold.
pub proof fn lemma_sold_none(ps: Seq<Purchase>, e: u64)
    requires
        forall|k: int| 0 <= k < ps.len() ==> ps[k].event_id != e,
    ensures
        sold(ps, e) == 0,
    decreases ps.len(),
{
    if ps.len() > 0 {
        lemma_sold_none(ps.drop_last(), e);
    }
}

/// No purchase in `ps` is by `u` for `e`, so `u` bought none of `e`.
pub proof fn lemma_bought_none(ps: Seq<Purchase>, u: Seq<u8>, e: u64)
    requires
        forall|k: int| 0 <= k < ps.len() ==> !(ps[k].buyer@ == u && ps[k].event_id == e),
    ensures
        bought(ps, u, e) == 0,
    decreases ps.len(),
{
    if ps.len() > 0 {
        lemma_bought_none(ps.drop_last(), u, e);
    }
}

impl TicketingSystem {
    /// Whether an event with this id exists.
    pub open spec fn has_event(&self, event_id: u64) -> bool {
        1 <= event_id <= self.events@.len()
    }

    /// The event with this id (meaningful where `has_event`).
    pub open spec fn event(&self, event_id: u64) -> Event {
        self.events@[event_id - 1]
    }

    pub open spec fn has_ticket(&self, ticket_id: u64) -> bool {
        1 <= ticket_id <= self.tickets@.len()
    }

    pub open spec fn ticket(&self, ticket_id: u64) -> Ticket {
        self.tickets@[ticket_id - 1]
    }

    /// Events: ids in order of creation, availability never above the total,
    /// and the total less the availability is exactly what was sold.
    pub open spec fn events_wf(&self) -> bool {
        forall|i: int|
            #![trigger self.events@[i]]
            0 <= i < self.events@.len() ==> {
                &&& self.events@[i].id == i + 1
                &&& self.events@[i].available_tickets <= self.events@[i].total_tickets
                &&& self.events@[i].total_tickets - self.events@[i].available_tickets == sold(
                    self.purchases@,
                    (i + 1) as u64,
                )
            }
    }

    /// Tickets: ids in order, each of an existing event, each with the
    /// code derived from its id and its event's id.
    pub open spec fn tickets_wf(&self) -> bool {
        forall|i: int|
            #![trigger self.tickets@[i]]
            0 <= i < self.tickets@.len() ==> {
                &&& self.tickets@[i].id == i + 1
                &&& self.has_event(self.tickets@[i].event_id)
                &&& self.tickets@[i].verification_code@ == code_spec(
                    (i + 1) as u64,
                    self.tickets@[i].event_id,
                )
            }
    }

    /// Purchases: ids in order, each of an existing event, each listing as
    /// many tickets as it bought, all of that event and owned by the buyer.
    pub open spec fn purchases_wf(&self) -> bool {
        forall|i: int|
            #![trigger self.purchases@[i]]
            0 <= i < self.purchases@.len() ==> {
                &&& self.purchases@[i].id == i + 1
                &&& self.has_event(self.purchases@[i].event_id)
                &&& self.purchases@[i].ticket_ids@.len() == self.purchases@[i].quantity
                &&& forall|k: int|
                    #![trigger self.purchases@[i].ticket_ids@[k]]
                    0 <= k < self.purchases@[i].ticket_ids@.len() ==> {
                        let t = self.purchases@[i].ticket_ids@[k];
                        &&& self.has_ticket(t)
                        &&& self.ticket(t).owner@ == self.purchases@[i].buyer@
                        &&& self.ticket(t).event_id == self.purchases@[i].event_id
                    }
            }
    }

    /// The per-user counts: one entry per (user, event), each equal to what
    /// that user bought of that event and within the event's cap, and an
    /// entry for every pair that bought anything.
    pub open spec fn counts_wf(&self) -> bool {
        &&& forall|i: int, j: int|
            #![trigger self.counts@[i], self.counts@[j]]
            0 <= i < self.counts@.len() && 0 <= j < self.counts@.len() && i != j
                ==> !(self.counts@[i].user@ == self.counts@[j].user@ && self.counts@[i].event_id
                == self.counts@[j].event_id)
        &&& forall|i: int|
            #![trigger self.counts@[i]]
            0 <= i < self.counts@.len() ==> {
                &&& self.has_event(self.counts@[i].event_id)
                &&& self.counts@[i].count == bought(
                    self.purchases@,
                    self.counts@[i].user@,
                    self.counts@[i].event_id,
                )
                &&& self.counts@[i].count <= self.event(self.counts@[i].event_id).max_tickets_per_user
            }
        &&& forall|k: int| 0 <= k < self.purchases@.len() ==> #[trigger] self.counted(k)
    }

    /// The per-user counts hold an entry for the buyer and event of purchase `k`.
    pub open spec fn counted(&self, k: int) -> bool {
        exists|i: int|
            #![trigger self.counts@[i]]
            0 <= i < self.counts@.len() && self.counts@[i].user@ == self.purchases@[k].buyer@
                && self.counts@[i].event_id == self.purchases@[k].event_id
    }

    /// Profiles: at most one per user.
    pub open spec fn profiles_wf(&self) -> bool {
        forall|i: int, j: int|
            #![trigger self.profiles@[i], self.profiles@[j]]
            0 <= i < self.profiles@.len() && 0 <= j < self.profiles@.len() && i != j
                ==> self.profiles@[i].user_principal@ != self.profiles@[j].user_principal@
    }

    pub open spec fn wf(&self) -> bool {
        &&& self.events_wf()
        &&& self.tickets_wf()
        &&& self.purchases_wf()
        &&& self.counts_wf()
        &&& self.profiles_wf()
    }

    /// Whether user `u` has a stored profile.
    pub open spec fn has_profile(&self, u: Seq<u8>) -> bool {
        exists|i: int|
            0 <= i < self.profiles@.len() && #[trigger] self.profiles@[i].user_principal@ == u
    }

    /// The profile of user `u`: the stored one, or the default.
    pub open spec fn profile_of(&self, u: Seq<u8>) -> UserProfileView {
        if self.has_profile(u) {
            let i = choose|i: int|
                0 <= i < self.profiles@.len() && #[trigger] self.profiles@[i].user_principal@ == u;
            self.profiles@[i]@
        } else {
            default_profile(u)
        }
    }

    /// Each ticket that was used stays used, and none goes away.
    pub open spec fn used_kept(&self, next: &TicketingSystem) -> bool {
        &&& self.tickets@.len() <= next.tickets@.len()
        &&& forall|i: int|
            #![trigger next.tickets@[i]]
            0 <= i < self.tickets@.len() && self.tickets@[i].is_used ==> next.tickets@[i].is_used
    }

    /// Whether each purchase has its per-user count entry depends on the
    /// purchases and the counts alone.
    pub proof fn lemma_counted_kept(&self, next: &TicketingSystem)
        requires
            forall|k: int| 0 <= k < self.purchases@.len() ==> #[trigger] self.counted(k),
            next.purchases == self.purchases,
            next.counts == self.counts,
        ensures
            forall|k: int| 0 <= k < next.purchases@.len() ==> #[trigger] next.counted(k),
    {
        assert forall|k: int| 0 <= k < next.purchases@.len() implies #[trigger] next.counted(k) by {
            assert(self.counted(k));
            let w = choose|w: int| #![trigger self.counts@[w]] 0 <= w < self.counts@.len()
                && self.counts@[w].user@ == self.purchases@[k].buyer@ && self.counts@[w].event_id == self.purchases@[k].event_id;
            assert(next.counts@[w] == self.counts@[w]);
        }
    }

    /// The invariant only looks at the profiles through `profiles_wf`.
    pub proof fn lemma_wf_profiles_only(&self, next: &TicketingSystem)
        requires
            self.wf(),
            next.profiles_wf(),
            next.events == self.events,
            next.tickets == self.tickets,
            next.purchases == self.purchases,
            next.counts == self.counts,
        ensures
            next.wf(),
    {
        assert(next.events_wf());
        assert(next.tickets_wf());
        assert(next.purchases_wf());
        self.lemma_counted_kept(next);
        assert(next.counts@ == self.counts@);
        assert(next.purchases@ == self.purchases@);
        assert(self.counts_wf());
        assert(next.counts_wf());
    }

    /// An empty service.
    pub fn new() -> (r: TicketingSystem)
        ensures
            r.wf(),
            r.events@.len() == 0,
            r.tickets@.len() == 0,
            r.purchases@.len() == 0,
            r.profiles@.len() == 0,
    {
        TicketingSystem {
            events: Vec::new(),
            tickets: Vec::new(),
            purchases: Vec::new(),
            profiles: Vec::new(),
            counts: Vec::new(),
        }
    }
}

} // verus!
