use vstd::prelude::*;

use crate::codes::lemma_code_injective;
use crate::system::{bought, lemma_bought_none, sold, TicketingSystem};
use crate::system::{lemma_bought_push, lemma_sold_push};
use crate::types::{TicketView, TicketingError};

verus! {

/// No oversell: in every state the service can reach, what was sold of an
/// event never exceeds its total, and its availability is exactly the total
/// less what was sold.
pub proof fn lemma_no_oversell(sys: &TicketingSystem, event_id: u64)
    requires
        sys.wf(),
        sys.has_event(event_id),
    ensures
        0 <= sold(sys.purchases@, event_id) <= sys.event(event_id).total_tickets,
        sys.event(event_id).available_tickets == sys.event(event_id).total_tickets - sold(
            sys.purchases@,
            event_id,
        ),
{
    let i = event_id - 1;
    assert(sys.events@[i].id == i + 1);
}

/// Per-user cap: in every reachable state, what a user bought of an event
/// never exceeds the event's per-user cap.
pub proof fn lemma_cap_respected(sys: &TicketingSystem, user: Seq<u8>, event_id: u64)
    requires
        sys.wf(),
        sys.has_event(event_id),
    ensures
        bought(sys.purchases@, user, event_id) <= sys.event(event_id).max_tickets_per_user,
{
    if exists|i: int|
        0 <= i < sys.counts@.len() && #[trigger] sys.counts@[i].user@ == user && sys.counts@[i].event_id
            == event_id {
        let i = choose|i: int|
            0 <= i < sys.counts@.len() && #[trigger] sys.counts@[i].user@ == user
                && sys.counts@[i].event_id == event_id;
        assert(sys.counts@[i].count == bought(sys.purchases@, user, event_id));
    } else {
        let ps = sys.purchases@;
        assert forall|k: int| 0 <= k < ps.len() implies !(ps[k].buyer@ == user && ps[k].event_id == event_id) by {
            assert(sys.counted(k));
        }
        lemma_bought_none(ps, user, event_id);
    }
}

/// Per-user cap: a purchase that passes every earlier check but would take
/// the user past the cap fails with `ExceedsMaxTicketsPerUser` (and, by the
/// contract of `purchase_tickets`, leaves the state as it was).
pub proof fn lemma_cap_rejects(sys: &TicketingSystem, user: Seq<u8>, event_id: u64, quantity: u32, now: u64)
    requires
        sys.has_event(event_id),
        sys.event(event_id).is_active,
        sys.event(event_id).sale_start_time <= now <= sys.event(event_id).sale_end_time,
        quantity <= sys.event(event_id).available_tickets,
        bought(sys.purchases@, user, event_id) + quantity > sys.event(event_id).max_tickets_per_user,
    ensures
        sys.purchase_check(user, event_id, quantity, now) == Err::<(), TicketingError>(
            TicketingError::ExceedsMaxTicketsPerUser,
        ),
{
}

/// Redemption of a used ticket is always rejected with `AlreadyUsed`, by
/// whomever and however often it is retried, as long as the code is right.
pub proof fn lemma_used_ticket_rejected(sys: &TicketingSystem, caller: Seq<u8>, ticket_id: u64, code: Seq<char>)
    requires
        sys.has_ticket(ticket_id),
        sys.ticket(ticket_id).is_used,
        sys.ticket(ticket_id).verification_code@ == code,
    ensures
        sys.redeem_check(caller, ticket_id, code) == Err::<(), TicketingError>(TicketingError::AlreadyUsed),
{
}

/// A used ticket stays used over any number of steps: keeping used tickets
/// used composes.
pub proof fn lemma_used_kept_chain(a: &TicketingSystem, b: &TicketingSystem, c: &TicketingSystem)
    requires
        a.used_kept(b),
        b.used_kept(c),
    ensures
        a.used_kept(c),
{
    assert forall|i: int| 0 <= i < a.tickets@.len() && a.tickets@[i].is_used implies #[trigger] c.tickets@[i].is_used by {
        assert(b.tickets@[i].is_used);
    }
}

/// Verification codes are unique: no two tickets share one.
pub proof fn lemma_codes_unique(sys: &TicketingSystem)
    requires
        sys.tickets_wf(),
    ensures
        forall|i: int, j: int|
            0 <= i < sys.tickets@.len() && 0 <= j < sys.tickets@.len() && i != j
                ==> #[trigger] sys.tickets@[i].verification_code@ != #[trigger] sys.tickets@[j].verification_code@,
{
    assert forall|i: int, j: int|
        0 <= i < sys.tickets@.len() && 0 <= j < sys.tickets@.len() && i != j
        implies #[trigger] sys.tickets@[i].verification_code@ != #[trigger] sys.tickets@[j].verification_code@ by {
        let ti = sys.tickets@[i];
        let tj = sys.tickets@[j];
        if ti.verification_code@ == tj.verification_code@ {
            lemma_code_injective((i + 1) as u64, ti.event_id, (j + 1) as u64, tj.event_id);
        }
    }
}

/// No oversell, one purchase at a time: a successful purchase adds exactly
/// its quantity to what was sold of its event and takes it off the
/// availability, so what was sold stays within the total; other events are
/// untouched.
pub proof fn lemma_purchase_no_oversell(
    pre: &TicketingSystem,
    next: &TicketingSystem,
    buyer: Seq<u8>,
    event_id: u64,
    quantity: u32,
    now: u64,
    other: u64,
)
    requires
        pre.wf(),
        next.wf(),
        pre.purchase_check(buyer, event_id, quantity, now) is Ok,
        pre.purchase_applied(next, buyer, event_id, quantity, now),
        other != event_id,
    ensures
        sold(next.purchases@, event_id) == sold(pre.purchases@, event_id) + quantity,
        sold(next.purchases@, event_id) <= next.event(event_id).total_tickets,
        next.event(event_id).total_tickets == pre.event(event_id).total_tickets,
        next.event(event_id).available_tickets == pre.event(event_id).available_tickets - quantity,
        sold(next.purchases@, other) == sold(pre.purchases@, other),
{
    let p = next.purchases@.last();
    assert(next.purchases@ =~= pre.purchases@.push(p));
    lemma_sold_push(pre.purchases@, p, event_id);
    lemma_sold_push(pre.purchases@, p, other);
    lemma_no_oversell(next, event_id);
}

/// Per-user cap, one purchase at a time: a successful purchase adds exactly
/// its quantity to what the buyer bought of the event, which stays within
/// the cap; what anyone else bought, or the buyer bought of other events,
/// does not change.
pub proof fn lemma_purchase_within_cap(
    pre: &TicketingSystem,
    next: &TicketingSystem,
    buyer: Seq<u8>,
    event_id: u64,
    quantity: u32,
    now: u64,
    user: Seq<u8>,
    other: u64,
)
    requires
        pre.wf(),
        next.wf(),
        pre.purchase_check(buyer, event_id, quantity, now) is Ok,
        pre.purchase_applied(next, buyer, event_id, quantity, now),
        !(user == buyer && other == event_id),
    ensures
        bought(next.purchases@, buyer, event_id) == bought(pre.purchases@, buyer, event_id) + quantity,
        bought(next.purchases@, buyer, event_id) <= next.event(event_id).max_tickets_per_user,
        bought(next.purchases@, user, other) == bought(pre.purchases@, user, other),
{
    let p = next.purchases@.last();
    assert(next.purchases@ =~= pre.purchases@.push(p));
    lemma_bought_push(pre.purchases@, p, buyer, event_id);
    lemma_bought_push(pre.purchases@, p, user, other);
    lemma_cap_respected(next, buyer, event_id);
}

/// Redemption happens once: after a successful redemption, every further
/// attempt with the same code, by any caller, fails with `AlreadyUsed`; and
/// since a failed attempt changes nothing, so does each one after it.
pub proof fn lemma_redeemed_once(
    pre: &TicketingSystem,
    next: &TicketingSystem,
    caller: Seq<u8>,
    ticket_id: u64,
    code: Seq<char>,
    later_caller: Seq<u8>,
)
    requires
        pre.redeem_check(caller, ticket_id, code) is Ok,
        next.tickets@.len() == pre.tickets@.len(),
        next.ticket(ticket_id)@ == (TicketView { is_used: true, ..pre.ticket(ticket_id)@ }),
    ensures
        next.redeem_check(later_caller, ticket_id, code) == Err::<(), TicketingError>(TicketingError::AlreadyUsed),
{
    lemma_used_ticket_rejected(next, later_caller, ticket_id, code);
}

} // verus!
