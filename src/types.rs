use vstd::prelude::*;

verus! {

/// The reputation every new user profile starts with.
pub const DEFAULT_REPUTATION: u32 = 100;

/// The identity of a caller, as the raw bytes of its principal.
#[derive(Clone, Debug)]
pub struct UserId {
    pub bytes: Vec<u8>,
}

impl View for UserId {
    type V = Seq<u8>;

    open spec fn view(&self) -> Seq<u8> {
        self.bytes@
    }
}

impl UserId {
    pub fn new(bytes: Vec<u8>) -> (r: UserId)
        ensures
            r@ == bytes@,
    {
        UserId { bytes }
    }

    /// Whether the two identities are the same principal.
    pub fn same_as(&self, other: &UserId) -> (r: bool)
        ensures
            r == (self@ == other@),
    {
        let n = self.bytes.len();
        if n != other.bytes.len() {
            return false;
        }
        let mut i: usize = 0;
        while i < n
            invariant
                n == self@.len(),
                n == other@.len(),
                0 <= i <= n,
                forall|j: int| 0 <= j < i ==> self@[j] == other@[j],
            decreases n - i,
        {
            if self.bytes[i] != other.bytes[i] {
                return false;
            }
            i = i + 1;
        }
        assert(self@ =~= other@);
        true
    }

    pub fn duplicate(&self) -> (r: UserId)
        ensures
            r@ == self@,
    {
        let bytes = self.bytes.clone();
        assert(bytes@ =~= self.bytes@);
        UserId { bytes }
    }
}

/// A sellable occasion with a fixed number of tickets and a sale window.
#[derive(Clone, Debug)]
pub struct Event {
    pub id: u64,
    pub name: String,
    pub description: String,
    pub venue: String,
    pub date: u64,
    pub total_tickets: u32,
    pub available_tickets: u32,
    pub price_icp: u64,
    pub organizer: UserId,
    pub max_tickets_per_user: u32,
    pub sale_start_time: u64,
    pub sale_end_time: u64,
    pub is_active: bool,
}

/// The mathematical value of an event: its strings as character sequences and
/// identities as byte sequences.
pub struct EventView {
    pub id: u64,
    pub name: Seq<char>,
    pub description: Seq<char>,
    pub venue: Seq<char>,
    pub date: u64,
    pub total_tickets: u32,
    pub available_tickets: u32,
    pub price_icp: u64,
    pub organizer: Seq<u8>,
    pub max_tickets_per_user: u32,
    pub sale_start_time: u64,
    pub sale_end_time: u64,
    pub is_active: bool,
}

impl View for Event {
    type V = EventView;

    open spec fn view(&self) -> EventView {
        EventView {
            id: self.id,
            name: self.name@,
            description: self.description@,
            venue: self.venue@,
            date: self.date,
            total_tickets: self.total_tickets,
            available_tickets: self.available_tickets,
            price_icp: self.price_icp,
            organizer: self.organizer@,
            max_tickets_per_user: self.max_tickets_per_user,
            sale_start_time: self.sale_start_time,
            sale_end_time: self.sale_end_time,
            is_active: self.is_active,
        }
    }
}

impl Event {
    pub fn duplicate(&self) -> (r: Event)
        ensures
            r@ == self@,
    {
        Event {
            id: self.id,
            name: self.name.clone(),
            description: self.description.clone(),
            venue: self.venue.clone(),
            date: self.date,
            total_tickets: self.total_tickets,
            available_tickets: self.available_tickets,
            price_icp: self.price_icp,
            organizer: self.organizer.duplicate(),
            max_tickets_per_user: self.max_tickets_per_user,
            sale_start_time: self.sale_start_time,
            sale_end_time: self.sale_end_time,
            is_active: self.is_active,
        }
    }
}

/// One unit of an event's inventory, redeemable once.
#[derive(Clone, Debug)]
pub struct Ticket {
    pub id: u64,
    pub event_id: u64,
    pub owner: UserId,
    pub seat_number: String,
    pub purchase_time: u64,
    pub is_used: bool,
    pub verification_code: String,
}

/// The mathematical value of a ticket: its strings as character sequences and
/// identities as byte sequences.
pub struct TicketView {
    pub id: u64,
    pub event_id: u64,
    pub owner: Seq<u8>,
    pub seat_number: Seq<char>,
    pub purchase_time: u64,
    pub is_used: bool,
    pub verification_code: Seq<char>,
}

impl View for Ticket {
    type V = TicketView;

    open spec fn view(&self) -> TicketView {
        TicketView {
            id: self.id,
            event_id: self.event_id,
            owner: self.owner@,
            seat_number: self.seat_number@,
            purchase_time: self.purchase_time,
            is_used: self.is_used,
            verification_code: self.verification_code@,
        }
    }
}

impl Ticket {
    pub fn duplicate(&self) -> (r: Ticket)
        ensures
            r@ == self@,
    {
        Ticket {
            id: self.id,
            event_id: self.event_id,
            owner: self.owner.duplicate(),
            seat_number: self.seat_number.clone(),
            purchase_time: self.purchase_time,
            is_used: self.is_used,
            verification_code: self.verification_code.clone(),
        }
    }
}

/// One buyer acquiring some tickets of one event in one transaction.
#[derive(Clone, Debug)]
pub struct Purchase {
    pub id: u64,
    pub event_id: u64,
    pub buyer: UserId,
    pub quantity: u32,
    pub total_amount: u64,
    pub purchase_time: u64,
    pub ticket_ids: Vec<u64>,
}

/// The mathematical value of a purchase: its strings as character sequences and
/// identities as byte sequences.
pub struct PurchaseView {
    pub id: u64,
    pub event_id: u64,
    pub buyer: Seq<u8>,
    pub quantity: u32,
    pub total_amount: u64,
    pub purchase_time: u64,
    pub ticket_ids: Seq<u64>,
}

impl View for Purchase {
    type V = PurchaseView;

    open spec fn view(&self) -> PurchaseView {
        PurchaseView {
            id: self.id,
            event_id: self.event_id,
            buyer: self.buyer@,
            quantity: self.quantity,
            total_amount: self.total_amount,
            purchase_time: self.purchase_time,
            ticket_ids: self.ticket_ids@,
        }
    }
}

impl Purchase {
    pub fn duplicate(&self) -> (r: Purchase)
        ensures
            r@ == self@,
    {
        let ticket_ids = self.ticket_ids.clone();
        assert(ticket_ids@ =~= self.ticket_ids@);
        Purchase {
            id: self.id,
            event_id: self.event_id,
            buyer: self.buyer.duplicate(),
            quantity: self.quantity,
            total_amount: self.total_amount,
            purchase_time: self.purchase_time,
            ticket_ids,
        }
    }
}

/// A user's purchase and ticket history.
#[derive(Clone, Debug)]
pub struct UserProfile {
    pub user_principal: UserId,
    pub purchases: Vec<u64>,
    pub tickets: Vec<u64>,
    pub reputation_score: u32,
    pub is_verified: bool,
}

/// The mathematical value of a user profile: its strings as character sequences and
/// identities as byte sequences.
pub struct UserProfileView {
    pub user_principal: Seq<u8>,
    pub purchases: Seq<u64>,
    pub tickets: Seq<u64>,
    pub reputation_score: u32,
    pub is_verified: bool,
}

impl View for UserProfile {
    type V = UserProfileView;

    open spec fn view(&self) -> UserProfileView {
        UserProfileView {
            user_principal: self.user_principal@,
            purchases: self.purchases@,
            tickets: self.tickets@,
            reputation_score: self.reputation_score,
            is_verified: self.is_verified,
        }
    }
}

/// The profile a user has before any purchase.
pub open spec fn default_profile(user: Seq<u8>) -> UserProfileView {
    UserProfileView {
        user_principal: user,
        purchases: Seq::empty(),
        tickets: Seq::empty(),
        reputation_score: DEFAULT_REPUTATION,
        is_verified: false,
    }
}

impl UserProfile {
    pub fn new(user: &UserId) -> (r: UserProfile)
        ensures
            r@ == default_profile(user@),
    {
        UserProfile {
            user_principal: user.duplicate(),
            purchases: Vec::new(),
            tickets: Vec::new(),
            reputation_score: DEFAULT_REPUTATION,
            is_verified: false,
        }
    }

    pub fn duplicate(&self) -> (r: UserProfile)
        ensures
            r@ == self@,
    {
        let purchases = self.purchases.clone();
        let tickets = self.tickets.clone();
        assert(purchases@ =~= self.purchases@);
        assert(tickets@ =~= self.tickets@);
        UserProfile {
            user_principal: self.user_principal.duplicate(),
            purchases,
            tickets,
            reputation_score: self.reputation_score,
            is_verified: self.is_verified,
        }
    }
}

/// Every way an operation can fail.
#[derive(Clone, Copy, Debug, PartialEq, Eq, Structural)]
pub enum TicketingError {
    EventNotFound,
    InsufficientTickets,
    ExceedsMaxTicketsPerUser,
    SaleNotStarted,
    SaleEnded,
    EventInactive,
    Unauthorized,
    TicketNotFound,
    AlreadyUsed,
    InvalidVerificationCode,
}

} // verus!
