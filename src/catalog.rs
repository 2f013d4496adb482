use vstd::prelude::*;

use crate::system::{active_at, lemma_sold_none, TicketingSystem};
use crate::types::{Event, EventView, TicketingError, UserId};

verus! {

impl TicketingSystem {
    /// Creates an event organized by `caller`, with every ticket available,
    /// and returns its id: one more than the number of events before.
    /// The figures are taken as given: an event with no tickets, a cap of
    /// zero or a sale window that ends before it starts is stored, and simply
    /// never sells.
    pub fn create_event(
        &mut self,
        caller: &UserId,
        name: String,
        description: String,
        venue: String,
        date: u64,
        total_tickets: u32,
        price_icp: u64,
        max_tickets_per_user: u32,
        sale_start_time: u64,
        sale_end_time: u64,
    ) -> (r: Result<u64, TicketingError>)
        requires
            old(self).wf(),
            old(self).events@.len() < u64::MAX,
        ensures
            final(self).wf(),
            old(self).used_kept(final(self)),
            r == Ok::<u64, TicketingError>((old(self).events@.len() + 1) as u64),
            final(self).events@.len() == old(self).events@.len() + 1,
            forall|i: int| 0 <= i < old(self).events@.len() ==> #[trigger] final(self).events@[i] == old(self).events@[i],
            final(self).events@.last()@ == (EventView {
                id: (old(self).events@.len() + 1) as u64,
                name: name@,
                description: description@,
                venue: venue@,
                date,
                total_tickets,
                available_tickets: total_tickets,
                price_icp,
                organizer: caller@,
                max_tickets_per_user,
                sale_start_time,
                sale_end_time,
                is_active: true,
            }),
            final(self).tickets == old(self).tickets,
            final(self).purchases == old(self).purchases,
            final(self).profiles == old(self).profiles,
            final(self).counts == old(self).counts,
    {
        let event_id = self.events.len() as u64 + 1;
        let event = Event {
            id: event_id,
            name,
            description,
            venue,
            date,
            total_tickets,
            available_tickets: total_tickets,
            price_icp,
            organizer: caller.duplicate(),
            max_tickets_per_user,
            sale_start_time,
            sale_end_time,
            is_active: true,
        };
        let ghost pre = *self;
        self.events.push(event);
        proof {
            let ps = self.purchases@;
            assert forall|k: int| 0 <= k < ps.len() implies ps[k].event_id != event_id by {
                assert(pre.purchases@[k] == ps[k]);
            }
            lemma_sold_none(ps, event_id);
            assert forall|i: int| 0 <= i < self.events@.len() implies {
                &&& #[trigger] self.events@[i].id == i + 1
                &&& self.events@[i].available_tickets <= self.events@[i].total_tickets
                &&& self.events@[i].total_tickets - self.events@[i].available_tickets == crate::system::sold(ps, (i + 1) as u64)
            } by {
                if i < pre.events@.len() {
                    assert(self.events@[i] == pre.events@[i]);
                }
            }
            assert(self.events_wf());
            assert forall|i: int| 0 <= i < self.counts@.len() implies #[trigger] self.event(self.counts@[i].event_id) == pre.event(self.counts@[i].event_id) by {
                assert(pre.counts@[i] == self.counts@[i]);
            }
            pre.lemma_counted_kept(self);
            assert(self.counts_wf());
            assert(self.purchases_wf());
        }
        Ok(event_id)
    }

    /// The event with this id.
    pub fn get_event(&self, event_id: u64) -> (r: Result<Event, TicketingError>)
        ensures
            match r {
                Ok(e) => self.has_event(event_id) && e@ == self.event(event_id)@,
                Err(e) => !self.has_event(event_id) && e == TicketingError::EventNotFound,
            },
    {
        if event_id == 0 || event_id > self.events.len() as u64 {
            return Err(TicketingError::EventNotFound);
        }
        Ok(self.events[(event_id - 1) as usize].duplicate())
    }

    /// Every event, in order of id.
    pub fn get_all_events(&self) -> (r: Vec<Event>)
        ensures
            r@.len() == self.events@.len(),
            forall|i: int| 0 <= i < r@.len() ==> #[trigger] r@[i]@ == self.events@[i]@,
    {
        let mut r: Vec<Event> = Vec::new();
        let mut i: usize = 0;
        while i < self.events.len()
            invariant
                i <= self.events@.len(),
                r@.len() == i,
                forall|j: int| 0 <= j < i ==> #[trigger] r@[j]@ == self.events@[j]@,
            decreases self.events@.len() - i,
        {
            r.push(self.events[i].duplicate());
            i = i + 1;
        }
        r
    }

    /// The events still on sale at time `now`: active, and whose sale ends
    /// after `now`, in order of id.
    pub fn get_active_events(&self, now: u64) -> (r: Vec<Event>)
        ensures
            r@.map_values(|e: Event| e@) == active_at(self.events@, now),
    {
        let mut r: Vec<Event> = Vec::new();
        let mut i: usize = 0;
        while i < self.events.len()
            invariant
                i <= self.events@.len(),
                r@.map_values(|e: Event| e@) == active_at(self.events@.subrange(0, i as int), now),
            decreases self.events@.len() - i,
        {
            let ghost before = r@;
            let ev = &self.events[i];
            if ev.is_active && ev.sale_end_time > now {
                r.push(ev.duplicate());
            }
            proof {
                let s = self.events@.subrange(0, i + 1);
                assert(s.drop_last() =~= self.events@.subrange(0, i as int));
                assert(r@.map_values(|e: Event| e@) =~= active_at(s, now));
            }
            i = i + 1;
        }
        assert(self.events@.subrange(0, self.events@.len() as int) =~= self.events@);
        r
    }

    /// The outcome of deactivating an event on behalf of `caller`.
    pub open spec fn deactivate_check(&self, caller: Seq<u8>, event_id: u64) -> Result<(), TicketingError> {
        if !self.has_event(event_id) {
            Err(TicketingError::EventNotFound)
        } else if self.event(event_id).organizer@ != caller {
            Err(TicketingError::Unauthorized)
        } else {
            Ok(())
        }
    }

    /// Ends the sale of an event for good; only its organizer may.
    pub fn deactivate_event(&mut self, caller: &UserId, event_id: u64) -> (r: Result<(), TicketingError>)
        requires
            old(self).wf(),
        ensures
            final(self).wf(),
            old(self).used_kept(final(self)),
            r == old(self).deactivate_check(caller@, event_id),
            r is Err ==> *final(self) == *old(self),
            r is Ok ==> {
                &&& final(self).events@.len() == old(self).events@.len()
                &&& forall|i: int| 0 <= i < old(self).events@.len() && i != event_id - 1
                    ==> #[trigger] final(self).events@[i] == old(self).events@[i]
                &&& final(self).event(event_id)@ == (EventView { is_active: false, ..old(self).event(event_id)@ })
                &&& final(self).tickets == old(self).tickets
                &&& final(self).purchases == old(self).purchases
                &&& final(self).profiles == old(self).profiles
                &&& final(self).counts == old(self).counts
            },
    {
        if event_id == 0 || event_id > self.events.len() as u64 {
            return Err(TicketingError::EventNotFound);
        }
        let idx = (event_id - 1) as usize;
        if !self.events[idx].organizer.same_as(caller) {
            return Err(TicketingError::Unauthorized);
        }
        let ghost pre = *self;
        self.events[idx].is_active = false;
        proof {
            assert forall|i: int| 0 <= i < self.events@.len() implies {
                &&& #[trigger] self.events@[i].id == i + 1
                &&& self.events@[i].available_tickets <= self.events@[i].total_tickets
                &&& self.events@[i].total_tickets - self.events@[i].available_tickets == crate::system::sold(self.purchases@, (i + 1) as u64)
            } by {
                assert(pre.events@[i].id == i + 1);
            }
            assert(self.events_wf());
            assert forall|i: int| 0 <= i < self.counts@.len() implies #[trigger] self.event(self.counts@[i].event_id).max_tickets_per_user == pre.event(self.counts@[i].event_id).max_tickets_per_user by {
                assert(pre.counts@[i] == self.counts@[i]);
            }
            pre.lemma_counted_kept(self);
            assert(self.counts_wf());
        }
        Ok(())
    }

    /// What was sold of an event, what is left, and the revenue.
    pub fn get_event_statistics(&self, event_id: u64) -> (r: Result<(u32, u32, u64), TicketingError>)
        requires
            self.wf(),
            self.has_event(event_id) ==> (self.event(event_id).total_tickets - self.event(event_id).available_tickets)
                * self.event(event_id).price_icp <= u64::MAX,
        ensures
            match r {
                Ok((sold, available, revenue)) => {
                    let e = self.event(event_id);
                    &&& self.has_event(event_id)
                    &&& sold == e.total_tickets - e.available_tickets
                    &&& available == e.available_tickets
                    &&& revenue == sold * e.price_icp
                },
                Err(e) => !self.has_event(event_id) && e == TicketingError::EventNotFound,
            },
    {
        let event = self.get_event(event_id)?;
        proof {
            assert(self.events@[event_id - 1].id == event_id);
        }
        let sold = event.total_tickets - event.available_tickets;
        let revenue = sold as u64 * event.price_icp;
        Ok((sold, event.available_tickets, revenue))
    }
}

} // verus!
