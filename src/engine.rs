use vstd::prelude::*;

use crate::codes::{code_spec, generate_verification_code, seat_label, seat_spec};
use crate::system::{
    bought, lemma_bought_none, lemma_bought_push, lemma_sold_push, sold, TicketingSystem,
    UserEventCount,
};
use crate::types::{EventView, Purchase, PurchaseView, Ticket, TicketView, TicketingError, UserId, UserProfileView};

verus! {

/// The ids given to `q` tickets minted after `n` existing ones.
pub open spec fn new_ticket_ids(n: int, q: int) -> Seq<u64> {
    Seq::new(q as nat, |k: int| (n + k + 1) as u64)
}

/// The ticket with id `id` minted for `owner` in a purchase of event `event_id` at `now`.
pub open spec fn minted(id: u64, event_id: u64, owner: Seq<u8>, now: u64) -> TicketView {
    TicketView {
        id,
        event_id,
        owner,
        seat_number: seat_spec(event_id, id),
        purchase_time: now,
        is_used: false,
        verification_code: code_spec(id, event_id),
    }
}

/// A profile with one more purchase and its tickets appended.
pub open spec fn with_purchase(p: UserProfileView, purchase_id: u64, ids: Seq<u64>) -> UserProfileView {
    UserProfileView {
        purchases: p.purchases.push(purchase_id),
        tickets: p.tickets + ids,
        ..p
    }
}

impl TicketingSystem {
    /// The outcome of the checks of a purchase, in order: the first one that
    /// fails gives the error.
    pub open spec fn purchase_check(&self, buyer: Seq<u8>, event_id: u64, quantity: u32, now: u64) -> Result<(), TicketingError> {
        if !self.has_event(event_id) {
            Err(TicketingError::EventNotFound)
        } else {
            let ev = self.event(event_id);
            if !ev.is_active {
                Err(TicketingError::EventInactive)
            } else if now < ev.sale_start_time {
                Err(TicketingError::SaleNotStarted)
            } else if now > ev.sale_end_time {
                Err(TicketingError::SaleEnded)
            } else if ev.available_tickets < quantity {
                Err(TicketingError::InsufficientTickets)
            } else if bought(self.purchases@, buyer, event_id) + quantity > ev.max_tickets_per_user {
                Err(TicketingError::ExceedsMaxTicketsPerUser)
            } else {
                Ok(())
            }
        }
    }

    /// What the machine's integers force on a purchase: the ids to be given
    /// out fit in 64 bits, and so does the price of a purchase that passes
    /// every check (a failing one computes no price).
    pub open spec fn purchase_fits(&self, buyer: Seq<u8>, event_id: u64, quantity: u32, now: u64) -> bool {
        &&& self.purchase_check(buyer, event_id, quantity, now) is Ok ==> self.event(event_id).price_icp * quantity <= u64::MAX
        &&& self.tickets@.len() + quantity < u64::MAX
        &&& self.purchases@.len() < u64::MAX
    }

    /// The purchase record that a successful purchase returns.
    pub open spec fn purchase_record(&self, buyer: Seq<u8>, event_id: u64, quantity: u32, now: u64) -> PurchaseView {
        PurchaseView {
            id: (self.purchases@.len() + 1) as u64,
            event_id,
            buyer,
            quantity,
            total_amount: (self.event(event_id).price_icp * quantity) as u64,
            purchase_time: now,
            ticket_ids: new_ticket_ids(self.tickets@.len() as int, quantity as int),
        }
    }

    /// How a successful purchase changes the state into `next`.
    pub open spec fn purchase_applied(&self, next: &TicketingSystem, buyer: Seq<u8>, event_id: u64, quantity: u32, now: u64) -> bool {
        let n = self.tickets@.len() as int;
        let idx = event_id - 1;
        let rec = self.purchase_record(buyer, event_id, quantity, now);
        &&& next.events@.len() == self.events@.len()
        &&& forall|i: int| 0 <= i < self.events@.len() && i != idx ==> #[trigger] next.events@[i] == self.events@[i]
        &&& next.events@[idx]@ == (EventView {
            available_tickets: (self.events@[idx].available_tickets - quantity) as u32,
            ..self.events@[idx]@
        })
        &&& next.tickets@.len() == n + quantity
        &&& forall|i: int| 0 <= i < n ==> #[trigger] next.tickets@[i] == self.tickets@[i]
        &&& forall|k: int| 0 <= k < quantity ==> #[trigger] next.tickets@[n + k]@ == minted((n + k + 1) as u64, event_id, buyer, now)
        &&& next.purchases@.len() == self.purchases@.len() + 1
        &&& forall|i: int| 0 <= i < self.purchases@.len() ==> #[trigger] next.purchases@[i] == self.purchases@[i]
        &&& next.purchases@.last()@ == rec
        &&& next.has_profile(buyer)
        &&& next.profile_of(buyer) == with_purchase(self.profile_of(buyer), rec.id, rec.ticket_ids)
        &&& forall|u: Seq<u8>| u != buyer ==> #[trigger] next.profile_of(u) == self.profile_of(u)
        &&& forall|u: Seq<u8>| u != buyer ==> #[trigger] next.has_profile(u) == self.has_profile(u)
    }

    /// The entry of the per-user counts for `user` and `event_id`, if any.
    fn count_position(&self, user: &UserId, event_id: u64) -> (r: Option<usize>)
        ensures
            match r {
                Some(i) => i < self.counts@.len() && self.counts@[i as int].user@ == user@
                    && self.counts@[i as int].event_id == event_id,
                None => forall|i: int| 0 <= i < self.counts@.len() ==> !(#[trigger] self.counts@[i].user@ == user@
                    && self.counts@[i].event_id == event_id),
            },
    {
        let mut i: usize = 0;
        while i < self.counts.len()
            invariant
                i <= self.counts@.len(),
                forall|j: int| 0 <= j < i ==> !(#[trigger] self.counts@[j].user@ == user@
                    && self.counts@[j].event_id == event_id),
            decreases self.counts@.len() - i,
        {
            if self.counts[i].event_id == event_id && self.counts[i].user.same_as(user) {
                return Some(i);
            }
            i = i + 1;
        }
        None
    }

    /// The stored profile of `user`, if any.
    pub(crate) fn profile_position(&self, user: &UserId) -> (r: Option<usize>)
        ensures
            match r {
                Some(i) => i < self.profiles@.len() && self.profiles@[i as int].user_principal@ == user@,
                None => !self.has_profile(user@),
            },
    {
        let mut i: usize = 0;
        while i < self.profiles.len()
            invariant
                i <= self.profiles@.len(),
                forall|j: int| 0 <= j < i ==> #[trigger] self.profiles@[j].user_principal@ != user@,
            decreases self.profiles@.len() - i,
        {
            if self.profiles[i].user_principal.same_as(user) {
                return Some(i);
            }
            i = i + 1;
        }
        None
    }

    /// The entry of the per-user counts for `user` and `event_id`, if any,
    /// and what it holds: what that user bought of that event.
    fn count_lookup(&self, user: &UserId, event_id: u64) -> (r: (Option<usize>, u32))
        requires
            self.wf(),
        ensures
            r.1 == bought(self.purchases@, user@, event_id),
            match r.0 {
                Some(i) => i < self.counts@.len() && self.counts@[i as int].user@ == user@
                    && self.counts@[i as int].event_id == event_id,
                None => forall|i: int| 0 <= i < self.counts@.len() ==> !(#[trigger] self.counts@[i].user@ == user@
                    && self.counts@[i].event_id == event_id),
            },
    {
        let pos = self.count_position(user, event_id);
        let current: u32 = match pos {
            Some(i) => self.counts[i].count,
            None => 0,
        };
        proof {
            if pos is None {
                let ps = self.purchases@;
                assert forall|k: int| 0 <= k < ps.len() implies !(ps[k].buyer@ == user@ && ps[k].event_id == event_id) by {
                    assert(self.counted(k));
                }
                lemma_bought_none(ps, user@, event_id);
            }
        }
        (pos, current)
    }

    /// How many tickets of event `event_id` `user` has bought so far; zero
    /// if none.
    pub fn current_count(&self, user: &UserId, event_id: u64) -> (r: u32)
        requires
            self.wf(),
        ensures
            r == bought(self.purchases@, user@, event_id),
    {
        self.count_lookup(user, event_id).1
    }

    /// Mints `quantity` tickets of event `event_id` for `owner`, with the next
    /// free ids, and returns those ids.
    fn mint_tickets(&mut self, owner: &UserId, event_id: u64, quantity: u32, now: u64) -> (ids: Vec<u64>)
        requires
            old(self).tickets@.len() + quantity < u64::MAX,
        ensures
            final(self).events == old(self).events,
            final(self).purchases == old(self).purchases,
            final(self).profiles == old(self).profiles,
            final(self).counts == old(self).counts,
            final(self).tickets@.len() == old(self).tickets@.len() + quantity,
            forall|i: int| 0 <= i < old(self).tickets@.len() ==> #[trigger] final(self).tickets@[i] == old(self).tickets@[i],
            forall|k: int| 0 <= k < quantity ==> #[trigger] final(self).tickets@[old(self).tickets@.len() + k]@
                == minted((old(self).tickets@.len() + k + 1) as u64, event_id, owner@, now),
            ids@ == new_ticket_ids(old(self).tickets@.len() as int, quantity as int),
    {
        let ghost n = self.tickets@.len() as int;
        let mut ids: Vec<u64> = Vec::new();
        let mut i: u32 = 0;
        while i < quantity
            invariant
                0 <= i <= quantity,
                n == old(self).tickets@.len(),
                n + quantity < u64::MAX,
                self.events == old(self).events,
                self.purchases == old(self).purchases,
                self.profiles == old(self).profiles,
                self.counts == old(self).counts,
                self.tickets@.len() == n + i,
                forall|j: int| 0 <= j < n ==> #[trigger] self.tickets@[j] == old(self).tickets@[j],
                forall|k: int| 0 <= k < i ==> #[trigger] self.tickets@[n + k]@
                    == minted((n + k + 1) as u64, event_id, owner@, now),
                ids@ == new_ticket_ids(n, i as int),
            decreases quantity - i,
        {
            let ticket_id = self.tickets.len() as u64 + 1;
            let ticket = Ticket {
                id: ticket_id,
                event_id,
                owner: owner.duplicate(),
                seat_number: seat_label(event_id, ticket_id),
                purchase_time: now,
                is_used: false,
                verification_code: generate_verification_code(ticket_id, event_id),
            };
            self.tickets.push(ticket);
            ids.push(ticket_id);
            proof {
                assert(self.tickets@[n + i as int]@ == minted(ticket_id, event_id, owner@, now));
                assert forall|k: int| 0 <= k < i + 1 implies #[trigger] self.tickets@[n + k]@
                    == minted((n + k + 1) as u64, event_id, owner@, now) by {
                    if k < i {
                        assert(self.tickets@[n + k] == self.tickets@.drop_last()[n + k]);
                    }
                }
            }
            i = i + 1;
            assert(ids@ =~= new_ticket_ids(n, i as int));
        }
        ids
    }

    /// Appends a purchase and its tickets to the profile of `user`, creating
    /// the profile first if there is none.
    fn record_in_profile(&mut self, user: &UserId, purchase_id: u64, ids: &Vec<u64>)
        requires
            old(self).profiles_wf(),
        ensures
            final(self).events == old(self).events,
            final(self).tickets == old(self).tickets,
            final(self).purchases == old(self).purchases,
            final(self).counts == old(self).counts,
            final(self).profiles_wf(),
            final(self).has_profile(user@),
            final(self).profile_of(user@) == with_purchase(old(self).profile_of(user@), purchase_id, ids@),
            forall|u: Seq<u8>| u != user@ ==> #[trigger] final(self).profile_of(u) == old(self).profile_of(u),
            forall|u: Seq<u8>| u != user@ ==> #[trigger] final(self).has_profile(u) == old(self).has_profile(u),
    {
        let ghost pre = *self;
        let pos = self.profile_position(user);
        let i: usize = match pos {
            Some(i) => i,
            None => {
                self.profiles.push(crate::types::UserProfile::new(user));
                self.profiles.len() - 1
            },
        };
        let ghost mid = *self;
        proof {
            assert(mid.profiles_wf());
            assert(mid.profiles@[i as int]@ == old(self).profile_of(user@));
        }
        let mut more = ids.clone();
        assert(more@ =~= ids@);
        self.profiles[i].purchases.push(purchase_id);
        self.profiles[i].tickets.append(&mut more);
        proof {
            let fin = *self;
            assert(fin.profiles@[i as int]@ == with_purchase(old(self).profile_of(user@), purchase_id, ids@));
            assert(fin.profiles_wf());
            assert(fin.has_profile(user@));
            let c = choose|j: int| 0 <= j < fin.profiles@.len() && #[trigger] fin.profiles@[j].user_principal@ == user@;
            assert(c == i);
            assert forall|u: Seq<u8>| u != user@ implies #[trigger] fin.profile_of(u) == pre.profile_of(u) by {
                if pre.has_profile(u) {
                    let j = choose|j: int| 0 <= j < pre.profiles@.len() && #[trigger] pre.profiles@[j].user_principal@ == u;
                    assert(fin.profiles@[j].user_principal@ == u);
                    assert(fin.has_profile(u));
                    let j2 = choose|j: int| 0 <= j < fin.profiles@.len() && #[trigger] fin.profiles@[j].user_principal@ == u;
                    assert(j2 == j);
                } else {
                    if fin.has_profile(u) {
                        let j2 = choose|j: int| 0 <= j < fin.profiles@.len() && #[trigger] fin.profiles@[j].user_principal@ == u;
                        assert(pre.profiles@[j2].user_principal@ == u);
                    }
                }
            }
            assert forall|u: Seq<u8>| u != user@ implies #[trigger] fin.has_profile(u) == pre.has_profile(u) by {
                if pre.has_profile(u) {
                    let j = choose|j: int| 0 <= j < pre.profiles@.len() && #[trigger] pre.profiles@[j].user_principal@ == u;
                    assert(fin.profiles@[j].user_principal@ == u);
                }
                if fin.has_profile(u) {
                    let j2 = choose|j: int| 0 <= j < fin.profiles@.len() && #[trigger] fin.profiles@[j].user_principal@ == u;
                    assert(pre.profiles@[j2].user_principal@ == u);
                }
            }
        }
    }
    /// The checks of a purchase, in order, without buying anything: the
    /// event exists, is active, is within its sale window, has enough
    /// tickets left, and the buyer stays within the per-user cap.
    pub fn check_purchase(&self, buyer: &UserId, event_id: u64, quantity: u32, now: u64) -> (r: Result<(), TicketingError>)
        requires
            self.wf(),
        ensures
            r == self.purchase_check(buyer@, event_id, quantity, now),
    {
        if event_id == 0 || event_id > self.events.len() as u64 {
            return Err(TicketingError::EventNotFound);
        }
        let ev = &self.events[(event_id - 1) as usize];
        if !ev.is_active {
            return Err(TicketingError::EventInactive);
        }
        if now < ev.sale_start_time {
            return Err(TicketingError::SaleNotStarted);
        }
        if now > ev.sale_end_time {
            return Err(TicketingError::SaleEnded);
        }
        if ev.available_tickets < quantity {
            return Err(TicketingError::InsufficientTickets);
        }
        let current = self.current_count(buyer, event_id);
        if current as u64 + quantity as u64 > ev.max_tickets_per_user as u64 {
            return Err(TicketingError::ExceedsMaxTicketsPerUser);
        }
        Ok(())
    }

    /// Buys `quantity` tickets of event `event_id` for `buyer` at time `now`.
    /// Either every check passes and the whole purchase is applied, or the
    /// first failing check's error comes back and nothing changes.
    /// A quantity of zero is taken as given, as event creation takes its
    /// figures: it passes the checks and records a purchase of no tickets.
    #[verifier::rlimit(100)]
    #[verifier::spinoff_prover]
    pub fn purchase_tickets(&mut self, buyer: &UserId, event_id: u64, quantity: u32, now: u64) -> (r: Result<Purchase, TicketingError>)
        requires
            old(self).wf(),
            old(self).purchase_fits(buyer@, event_id, quantity, now),
        ensures
            final(self).wf(),
            old(self).used_kept(final(self)),
            match r {
                Ok(p) => old(self).purchase_check(buyer@, event_id, quantity, now) is Ok
                    && p@ == old(self).purchase_record(buyer@, event_id, quantity, now)
                    && old(self).purchase_applied(final(self), buyer@, event_id, quantity, now),
                Err(e) => old(self).purchase_check(buyer@, event_id, quantity, now) == Err::<(), TicketingError>(e)
                    && *final(self) == *old(self),
            },
    {
        let checked = self.check_purchase(buyer, event_id, quantity, now);
        if let Err(e) = checked {
            return Err(e);
        }
        let n_events = self.events.len();
        assert(1 <= event_id <= n_events);
        let idx = (event_id - 1) as usize;
        let ev = &self.events[idx];
        let (pos, current) = self.count_lookup(buyer, event_id);
        let ghost pre = *self;
        let price = ev.price_icp;
        let total_amount = price * quantity as u64;
        let purchase_id = self.purchases.len() as u64 + 1;
        let ticket_ids = self.mint_tickets(buyer, event_id, quantity, now);
        let purchase = Purchase {
            id: purchase_id,
            event_id,
            buyer: buyer.duplicate(),
            quantity,
            total_amount,
            purchase_time: now,
            ticket_ids,
        };
        let result = purchase.duplicate();
        self.purchases.push(purchase);
        self.events[idx].available_tickets = self.events[idx].available_tickets - quantity;
        let new_count = current + quantity;
        match pos {
            Some(i) => {
                self.counts[i].count = new_count;
            },
            None => {
                self.counts.push(UserEventCount { user: buyer.duplicate(), event_id, count: new_count });
            },
        }
        let ghost before_profile = *self;
        self.record_in_profile(buyer, purchase_id, &result.ticket_ids);
        proof {
            let fin = *self;
            let n = pre.tickets@.len() as int;
            let ps = fin.purchases@;
            let p = ps.last();
            assert(ps =~= pre.purchases@.push(p));
            assert(p@ == pre.purchase_record(buyer@, event_id, quantity, now));
            assert(fin.events_wf()) by {
                assert forall|i: int| 0 <= i < fin.events@.len() implies {
                    &&& #[trigger] fin.events@[i].id == i + 1
                    &&& fin.events@[i].available_tickets <= fin.events@[i].total_tickets
                    &&& fin.events@[i].total_tickets - fin.events@[i].available_tickets == sold(ps, (i + 1) as u64)
                } by {
                    lemma_sold_push(pre.purchases@, p, (i + 1) as u64);
                    assert(pre.events@[i].id == i + 1);
                }
            }
            assert(fin.tickets_wf()) by {
                assert forall|i: int| 0 <= i < fin.tickets@.len() implies {
                    &&& #[trigger] fin.tickets@[i].id == i + 1
                    &&& fin.has_event(fin.tickets@[i].event_id)
                    &&& fin.tickets@[i].verification_code@ == code_spec((i + 1) as u64, fin.tickets@[i].event_id)
                } by {
                    if i < n {
                        assert(fin.tickets@[i] == pre.tickets@[i]);
                    } else {
                        assert(fin.tickets@[n + (i - n)]@ == minted((n + (i - n) + 1) as u64, event_id, buyer@, now));
                    }
                }
            }
            assert(fin.purchases_wf()) by {
                assert forall|i: int| 0 <= i < ps.len() implies {
                    &&& #[trigger] ps[i].id == i + 1
                    &&& fin.has_event(ps[i].event_id)
                    &&& ps[i].ticket_ids@.len() == ps[i].quantity
                    &&& forall|k: int|
                        #![trigger ps[i].ticket_ids@[k]]
                        0 <= k < ps[i].ticket_ids@.len() ==> {
                            let t = ps[i].ticket_ids@[k];
                            &&& fin.has_ticket(t)
                            &&& fin.ticket(t).owner@ == ps[i].buyer@
                            &&& fin.ticket(t).event_id == ps[i].event_id
                        }
                } by {
                    if i < pre.purchases@.len() {
                        assert(ps[i] == pre.purchases@[i]);
                        assert forall|k: int| 0 <= k < ps[i].ticket_ids@.len() implies {
                            let t = #[trigger] ps[i].ticket_ids@[k];
                            &&& fin.has_ticket(t)
                            &&& fin.ticket(t).owner@ == ps[i].buyer@
                            &&& fin.ticket(t).event_id == ps[i].event_id
                        } by {
                            let t = ps[i].ticket_ids@[k];
                            assert(pre.purchases@[i].ticket_ids@[k] == t);
                            assert(fin.tickets@[t - 1] == pre.tickets@[t - 1]);
                        }
                    } else {
                        assert forall|k: int| 0 <= k < ps[i].ticket_ids@.len() implies {
                            let t = #[trigger] ps[i].ticket_ids@[k];
                            &&& fin.has_ticket(t)
                            &&& fin.ticket(t).owner@ == ps[i].buyer@
                            &&& fin.ticket(t).event_id == ps[i].event_id
                        } by {
                            assert(fin.tickets@[n + k]@ == minted((n + k + 1) as u64, event_id, buyer@, now));
                        }
                    }
                }
            }
            assert(fin.counts_wf()) by {
                assert forall|i: int| 0 <= i < fin.counts@.len() implies {
                    &&& fin.has_event(#[trigger] fin.counts@[i].event_id)
                    &&& fin.counts@[i].count == bought(ps, fin.counts@[i].user@, fin.counts@[i].event_id)
                    &&& fin.counts@[i].count <= fin.event(fin.counts@[i].event_id).max_tickets_per_user
                } by {
                    let c = fin.counts@[i];
                    lemma_bought_push(pre.purchases@, p, c.user@, c.event_id);
                    if i < pre.counts@.len() {
                        let c0 = pre.counts@[i];
                        assert(c0.user@ == c.user@ && c0.event_id == c.event_id);
                        if c.user@ == buyer@ && c.event_id == event_id {
                            assert(pos == Some(i as usize));
                        }
                    }
                }
                assert forall|i: int, j: int|
                    0 <= i < fin.counts@.len() && 0 <= j < fin.counts@.len() && i != j
                    implies !(#[trigger] fin.counts@[i].user@ == #[trigger] fin.counts@[j].user@
                        && fin.counts@[i].event_id == fin.counts@[j].event_id) by {
                    if i < pre.counts@.len() && j < pre.counts@.len() {
                        assert(pre.counts@[i].user@ == fin.counts@[i].user@);
                        assert(pre.counts@[j].user@ == fin.counts@[j].user@);
                    }
                }
                assert forall|k: int| 0 <= k < ps.len() implies #[trigger] fin.counted(k) by {
                    if k < pre.purchases@.len() {
                        assert(ps[k] == pre.purchases@[k]);
                        assert(pre.counted(k));
                        let w = choose|w: int| #![trigger pre.counts@[w]] 0 <= w < pre.counts@.len()
                            && pre.counts@[w].user@ == pre.purchases@[k].buyer@ && pre.counts@[w].event_id == pre.purchases@[k].event_id;
                        assert(fin.counts@[w].user@ == pre.counts@[w].user@);
                    } else {
                        match pos {
                            Some(w) => { assert(fin.counts@[w as int].user@ == buyer@); },
                            None => { assert(fin.counts@[pre.counts@.len() as int].user@ == buyer@); },
                        }
                    }
                }
            }
            assert(pre.used_kept(&fin)) by {
                assert forall|i: int| 0 <= i < pre.tickets@.len() && pre.tickets@[i].is_used implies #[trigger] fin.tickets@[i].is_used by {
                    assert(fin.tickets@[i] == pre.tickets@[i]);
                }
            }
            assert(fin.events@[event_id - 1]@ == (EventView {
                available_tickets: (pre.events@[event_id - 1].available_tickets - quantity) as u32,
                ..pre.events@[event_id - 1]@
            }));
            assert(forall|k: int| 0 <= k < quantity ==> #[trigger] fin.tickets@[n + k]@ == minted((n + k + 1) as u64, event_id, buyer@, now));
            assert(before_profile.profiles == pre.profiles);
            assert(forall|u: Seq<u8>| #[trigger] before_profile.profile_of(u) == pre.profile_of(u));
            assert(forall|u: Seq<u8>| #[trigger] before_profile.has_profile(u) == pre.has_profile(u));
            assert(result.ticket_ids@ == p@.ticket_ids);
            assert(fin.profile_of(buyer@) == with_purchase(pre.profile_of(buyer@), p@.id, p@.ticket_ids));
            assert(pre.purchase_applied(&fin, buyer@, event_id, quantity, now));
        }
        Ok(result)
    }
    /// The outcome of redeeming ticket `ticket_id` with `code` on behalf of
    /// `caller`: the checks in order, the first that fails gives the error.
    pub open spec fn redeem_check(&self, caller: Seq<u8>, ticket_id: u64, code: Seq<char>) -> Result<(), TicketingError> {
        if !self.has_ticket(ticket_id) {
            Err(TicketingError::TicketNotFound)
        } else {
            let t = self.ticket(ticket_id);
            if t.verification_code@ != code {
                Err(TicketingError::InvalidVerificationCode)
            } else if t.is_used {
                Err(TicketingError::AlreadyUsed)
            } else if !self.has_event(t.event_id) {
                Err(TicketingError::EventNotFound)
            } else if self.event(t.event_id).organizer@ != caller {
                Err(TicketingError::Unauthorized)
            } else {
                Ok(())
            }
        }
    }

    /// Looks a ticket up by id and checks its verification code, changing nothing.
    pub fn verify_ticket(&self, ticket_id: u64, verification_code: String) -> (r: Result<Ticket, TicketingError>)
        ensures
            match r {
                Ok(t) => self.has_ticket(ticket_id) && self.ticket(ticket_id).verification_code@ == verification_code@
                    && t@ == self.ticket(ticket_id)@,
                Err(e) => if !self.has_ticket(ticket_id) {
                    e == TicketingError::TicketNotFound
                } else {
                    self.ticket(ticket_id).verification_code@ != verification_code@
                        && e == TicketingError::InvalidVerificationCode
                },
            },
    {
        if ticket_id == 0 || ticket_id > self.tickets.len() as u64 {
            return Err(TicketingError::TicketNotFound);
        }
        let ticket = &self.tickets[(ticket_id - 1) as usize];
        if ticket.verification_code != verification_code {
            return Err(TicketingError::InvalidVerificationCode);
        }
        Ok(ticket.duplicate())
    }

    /// Redeems a ticket: only the organizer of its event may, with the
    /// ticket's code, and only once.
    pub fn use_ticket(&mut self, caller: &UserId, ticket_id: u64, verification_code: String) -> (r: Result<(), TicketingError>)
        requires
            old(self).wf(),
        ensures
            final(self).wf(),
            old(self).used_kept(final(self)),
            r == old(self).redeem_check(caller@, ticket_id, verification_code@),
            r is Err ==> *final(self) == *old(self),
            r is Ok ==> {
                &&& final(self).tickets@.len() == old(self).tickets@.len()
                &&& forall|i: int| 0 <= i < old(self).tickets@.len() && i != ticket_id - 1
                    ==> #[trigger] final(self).tickets@[i] == old(self).tickets@[i]
                &&& final(self).ticket(ticket_id)@ == (TicketView { is_used: true, ..old(self).ticket(ticket_id)@ })
                &&& final(self).events == old(self).events
                &&& final(self).purchases == old(self).purchases
                &&& final(self).profiles == old(self).profiles
                &&& final(self).counts == old(self).counts
            },
    {
        if ticket_id == 0 || ticket_id > self.tickets.len() as u64 {
            return Err(TicketingError::TicketNotFound);
        }
        let idx = (ticket_id - 1) as usize;
        if self.tickets[idx].verification_code != verification_code {
            return Err(TicketingError::InvalidVerificationCode);
        }
        if self.tickets[idx].is_used {
            return Err(TicketingError::AlreadyUsed);
        }
        let event_id = self.tickets[idx].event_id;
        if event_id == 0 || event_id > self.events.len() as u64 {
            return Err(TicketingError::EventNotFound);
        }
        if !self.events[(event_id - 1) as usize].organizer.same_as(caller) {
            return Err(TicketingError::Unauthorized);
        }
        let ghost pre = *self;
        self.tickets[idx].is_used = true;
        proof {
            assert forall|i: int| 0 <= i < self.tickets@.len() implies {
                &&& #[trigger] self.tickets@[i].id == i + 1
                &&& self.has_event(self.tickets@[i].event_id)
                &&& self.tickets@[i].verification_code@ == code_spec((i + 1) as u64, self.tickets@[i].event_id)
            } by {
                assert(pre.tickets@[i].id == i + 1);
            }
            assert(self.tickets_wf());
            let ps = self.purchases@;
            assert forall|i: int, k: int| 0 <= i < ps.len() && 0 <= k < ps[i].ticket_ids@.len() implies {
                let t = #[trigger] ps[i].ticket_ids@[k];
                &&& self.has_ticket(t)
                &&& self.ticket(t).owner@ == ps[i].buyer@
                &&& self.ticket(t).event_id == ps[i].event_id
            } by {
                assert(pre.purchases@[i] == ps[i]);
                assert(pre.purchases@[i].ticket_ids@[k] == ps[i].ticket_ids@[k]);
            }
            assert(self.purchases_wf());
            assert(self.events == pre.events && self.purchases == pre.purchases && self.counts == pre.counts);
            assert(self.events_wf());
            pre.lemma_counted_kept(self);
            assert(self.counts_wf());
            assert(self.profiles_wf());
        }
        Ok(())
    }
}

} // verus!
