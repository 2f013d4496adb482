use event_ticketing::{
    generate_verification_code, seat_label, TicketingError, TicketingSystem, UserId,
    DEFAULT_REPUTATION,
};

fn user(b: u8) -> UserId {
    UserId::new(vec![b, 7, 9])
}

fn event(sys: &mut TicketingSystem, organizer: &UserId, total: u32, price: u64, cap: u32) -> u64 {
    sys.create_event(
        organizer,
        "Concert".to_string(),
        "An evening".to_string(),
        "Hall".to_string(),
        500,
        total,
        price,
        cap,
        100,
        200,
    )
    .unwrap()
}

fn code(sys: &TicketingSystem, ticket_id: u64) -> String {
    sys.tickets[(ticket_id - 1) as usize].verification_code.clone()
}

#[test]
fn verification_code_format() {
    assert_eq!(generate_verification_code(1, 2), "00000001-00000002");
    assert_eq!(generate_verification_code(255, 4096), "000000FF-00001000");
    assert_eq!(generate_verification_code(0, 0), "00000000-00000000");
    assert_eq!(
        generate_verification_code(0x1_2345_6789, 0xABCDEF),
        "123456789-00ABCDEF"
    );
    assert_eq!(
        generate_verification_code(u64::MAX, 1),
        "FFFFFFFFFFFFFFFF-00000001"
    );
}

#[test]
fn seat_label_format() {
    assert_eq!(seat_label(2, 10), "SEAT-2-10");
    assert_eq!(seat_label(0, 0), "SEAT-0-0");
    assert_eq!(seat_label(12345, 7), "SEAT-12345-7");
}

#[test]
fn create_event_assigns_ids_and_full_availability() {
    let mut sys = TicketingSystem::new();
    let org = user(1);
    assert_eq!(event(&mut sys, &org, 10, 100, 4), 1);
    assert_eq!(event(&mut sys, &org, 5, 50, 2), 2);
    let e = sys.get_event(2).unwrap();
    assert_eq!(e.id, 2);
    assert_eq!(e.total_tickets, 5);
    assert_eq!(e.available_tickets, 5);
    assert!(e.is_active);
    assert!(e.organizer.same_as(&org));
    assert_eq!(sys.get_all_events().len(), 2);
    assert!(matches!(sys.get_event(3), Err(TicketingError::EventNotFound)));
    assert!(matches!(sys.get_event(0), Err(TicketingError::EventNotFound)));
}

#[test]
fn cap_scenario() {
    let mut sys = TicketingSystem::new();
    let org = user(1);
    let a = user(2);
    let id = event(&mut sys, &org, 10, 100, 4);
    let p = sys.purchase_tickets(&a, id, 3, 150).unwrap();
    assert_eq!(p.total_amount, 300);
    assert_eq!(p.quantity, 3);
    assert_eq!(p.ticket_ids, vec![1, 2, 3]);
    assert_eq!(sys.get_event(id).unwrap().available_tickets, 7);
    let r = sys.purchase_tickets(&a, id, 2, 150);
    assert!(matches!(r, Err(TicketingError::ExceedsMaxTicketsPerUser)));
    assert_eq!(sys.get_event(id).unwrap().available_tickets, 7);
    assert_eq!(sys.tickets.len(), 3);
    assert_eq!(sys.purchases.len(), 1);
    // one more still fits under the cap
    assert!(sys.purchase_tickets(&a, id, 1, 150).is_ok());
    assert_eq!(sys.get_event(id).unwrap().available_tickets, 6);
}

#[test]
fn insufficient_scenario() {
    let mut sys = TicketingSystem::new();
    let org = user(1);
    let id = event(&mut sys, &org, 2, 10, 5);
    let r = sys.purchase_tickets(&user(3), id, 3, 150);
    assert!(matches!(r, Err(TicketingError::InsufficientTickets)));
    assert_eq!(sys.get_event(id).unwrap().available_tickets, 2);
    assert_eq!(sys.tickets.len(), 0);
    assert_eq!(sys.purchases.len(), 0);
}

#[test]
fn redemption_scenario() {
    let mut sys = TicketingSystem::new();
    let org = user(1);
    let buyer = user(2);
    let id = event(&mut sys, &org, 10, 100, 4);
    sys.purchase_tickets(&buyer, id, 2, 150).unwrap();
    let c1 = code(&sys, 1);
    assert!(matches!(
        sys.use_ticket(&buyer, 1, c1.clone()),
        Err(TicketingError::Unauthorized)
    ));
    assert!(!sys.tickets[0].is_used);
    assert!(sys.use_ticket(&org, 1, c1.clone()).is_ok());
    assert!(sys.tickets[0].is_used);
    for _ in 0..3 {
        assert!(matches!(
            sys.use_ticket(&org, 1, c1.clone()),
            Err(TicketingError::AlreadyUsed)
        ));
        assert!(sys.tickets[0].is_used);
    }
    assert!(matches!(
        sys.use_ticket(&buyer, 1, c1.clone()),
        Err(TicketingError::AlreadyUsed)
    ));
    assert!(!sys.tickets[1].is_used);
}

#[test]
fn redemption_errors() {
    let mut sys = TicketingSystem::new();
    let org = user(1);
    let id = event(&mut sys, &org, 10, 100, 4);
    sys.purchase_tickets(&user(2), id, 1, 150).unwrap();
    assert!(matches!(
        sys.use_ticket(&org, 5, "x".to_string()),
        Err(TicketingError::TicketNotFound)
    ));
    assert!(matches!(
        sys.use_ticket(&org, 1, "00000001-00000002".to_string()),
        Err(TicketingError::InvalidVerificationCode)
    ));
    assert!(!sys.tickets[0].is_used);
}

#[test]
fn verify_ticket_checks_code() {
    let mut sys = TicketingSystem::new();
    let org = user(1);
    let id = event(&mut sys, &org, 10, 100, 4);
    sys.purchase_tickets(&user(2), id, 1, 150).unwrap();
    let t = sys.verify_ticket(1, "00000001-00000001".to_string()).unwrap();
    assert_eq!(t.id, 1);
    assert_eq!(t.event_id, 1);
    assert_eq!(t.seat_number, "SEAT-1-1");
    assert_eq!(t.purchase_time, 150);
    assert!(!t.is_used);
    assert!(matches!(
        sys.verify_ticket(1, "wrong".to_string()),
        Err(TicketingError::InvalidVerificationCode)
    ));
    assert!(matches!(
        sys.verify_ticket(2, "00000002-00000001".to_string()),
        Err(TicketingError::TicketNotFound)
    ));
}

#[test]
fn purchase_window_and_state_errors() {
    let mut sys = TicketingSystem::new();
    let org = user(1);
    let b = user(2);
    let id = event(&mut sys, &org, 10, 100, 4);
    assert!(matches!(
        sys.purchase_tickets(&b, 9, 1, 150),
        Err(TicketingError::EventNotFound)
    ));
    assert!(matches!(
        sys.purchase_tickets(&b, id, 1, 99),
        Err(TicketingError::SaleNotStarted)
    ));
    assert!(matches!(
        sys.purchase_tickets(&b, id, 1, 201),
        Err(TicketingError::SaleEnded)
    ));
    // both ends of the window are inside it
    assert!(sys.purchase_tickets(&b, id, 1, 100).is_ok());
    assert!(sys.purchase_tickets(&b, id, 1, 200).is_ok());
    assert!(matches!(
        sys.deactivate_event(&b, id),
        Err(TicketingError::Unauthorized)
    ));
    assert!(matches!(
        sys.deactivate_event(&org, 4),
        Err(TicketingError::EventNotFound)
    ));
    assert!(sys.deactivate_event(&org, id).is_ok());
    assert!(!sys.get_event(id).unwrap().is_active);
    assert!(matches!(
        sys.purchase_tickets(&b, id, 1, 150),
        Err(TicketingError::EventInactive)
    ));
    assert_eq!(sys.get_event(id).unwrap().available_tickets, 8);
}

#[test]
fn validation_order_inactive_before_window() {
    let mut sys = TicketingSystem::new();
    let org = user(1);
    let id = event(&mut sys, &org, 1, 100, 1);
    sys.deactivate_event(&org, id).unwrap();
    assert!(matches!(
        sys.purchase_tickets(&user(2), id, 5, 999),
        Err(TicketingError::EventInactive)
    ));
}

#[test]
fn no_oversell_over_many_buyers() {
    let mut sys = TicketingSystem::new();
    let org = user(1);
    let id = event(&mut sys, &org, 10, 7, 3);
    let mut sold: u32 = 0;
    for b in 10..20u8 {
        if sys.purchase_tickets(&user(b), id, 3, 150).is_ok() {
            sold += 3;
        }
        let e = sys.get_event(id).unwrap();
        assert!(sold <= e.total_tickets);
        assert_eq!(e.available_tickets, e.total_tickets - sold);
    }
    assert_eq!(sold, 9);
    assert!(sys.purchase_tickets(&user(30), id, 1, 150).is_ok());
    assert_eq!(sys.get_event(id).unwrap().available_tickets, 0);
    assert!(matches!(
        sys.purchase_tickets(&user(31), id, 1, 150),
        Err(TicketingError::InsufficientTickets)
    ));
}

#[test]
fn codes_unique_across_events() {
    let mut sys = TicketingSystem::new();
    let org = user(1);
    let e1 = event(&mut sys, &org, 10, 1, 10);
    let e2 = event(&mut sys, &org, 10, 1, 10);
    sys.purchase_tickets(&user(2), e1, 4, 150).unwrap();
    sys.purchase_tickets(&user(3), e2, 4, 150).unwrap();
    sys.purchase_tickets(&user(2), e2, 3, 150).unwrap();
    let codes: Vec<String> = sys.tickets.iter().map(|t| t.verification_code.clone()).collect();
    assert_eq!(codes.len(), 11);
    for i in 0..codes.len() {
        for j in 0..codes.len() {
            if i != j {
                assert_ne!(codes[i], codes[j]);
            }
        }
    }
    assert_eq!(codes[4], "00000005-00000002");
}

#[test]
fn statistics() {
    let mut sys = TicketingSystem::new();
    let org = user(1);
    let id = event(&mut sys, &org, 10, 100, 4);
    assert_eq!(sys.get_event_statistics(id).unwrap(), (0, 10, 0));
    sys.purchase_tickets(&user(2), id, 3, 150).unwrap();
    sys.purchase_tickets(&user(3), id, 4, 150).unwrap();
    assert_eq!(sys.get_event_statistics(id).unwrap(), (7, 3, 700));
    assert!(matches!(
        sys.get_event_statistics(2),
        Err(TicketingError::EventNotFound)
    ));
}

#[test]
fn active_events_filter() {
    let mut sys = TicketingSystem::new();
    let org = user(1);
    let a = event(&mut sys, &org, 1, 1, 1); // ends at 200
    let b = sys
        .create_event(&org, "B".to_string(), String::new(), String::new(), 0, 1, 1, 1, 0, 300)
        .unwrap();
    let c = sys
        .create_event(&org, "C".to_string(), String::new(), String::new(), 0, 1, 1, 1, 0, 400)
        .unwrap();
    sys.deactivate_event(&org, c).unwrap();
    let ids: Vec<u64> = sys.get_active_events(150).iter().map(|e| e.id).collect();
    assert_eq!(ids, vec![a, b]);
    let ids: Vec<u64> = sys.get_active_events(200).iter().map(|e| e.id).collect();
    assert_eq!(ids, vec![b]);
    assert!(sys.get_active_events(300).is_empty());
}

#[test]
fn user_ledger() {
    let mut sys = TicketingSystem::new();
    let org = user(1);
    let a = user(2);
    let b = user(3);
    let id = event(&mut sys, &org, 10, 5, 4);
    let fresh = sys.get_user_profile(&a);
    assert_eq!(fresh.reputation_score, DEFAULT_REPUTATION);
    assert_eq!(fresh.reputation_score, 100);
    assert!(fresh.purchases.is_empty());
    assert!(!fresh.is_verified);
    assert!(sys.profiles.is_empty());
    sys.purchase_tickets(&a, id, 2, 150).unwrap();
    sys.purchase_tickets(&b, id, 1, 150).unwrap();
    sys.purchase_tickets(&a, id, 1, 150).unwrap();
    let pa = sys.get_user_profile(&a);
    assert_eq!(pa.purchases, vec![1, 3]);
    assert_eq!(pa.tickets, vec![1, 2, 4]);
    let tickets: Vec<u64> = sys.get_user_tickets(&a).iter().map(|t| t.id).collect();
    assert_eq!(tickets, vec![1, 2, 4]);
    let purchases: Vec<u64> = sys.get_user_purchases(&b).iter().map(|p| p.id).collect();
    assert_eq!(purchases, vec![2]);
    assert_eq!(sys.profiles.len(), 2);
    let created = sys.get_or_create_user_profile(&org);
    assert!(created.tickets.is_empty());
    assert_eq!(sys.profiles.len(), 3);
    let again = sys.get_or_create_user_profile(&a);
    assert_eq!(again.purchases, vec![1, 3]);
    assert_eq!(sys.profiles.len(), 3);
}

#[test]
fn same_user_compares_bytes() {
    assert!(UserId::new(vec![1, 2]).same_as(&UserId::new(vec![1, 2])));
    assert!(!UserId::new(vec![1, 2]).same_as(&UserId::new(vec![1, 3])));
    assert!(!UserId::new(vec![1, 2]).same_as(&UserId::new(vec![1, 2, 0])));
}

#[test]
fn zero_quantity_purchase_is_recorded() {
    let mut sys = TicketingSystem::new();
    let org = user(1);
    let id = event(&mut sys, &org, 3, 100, 2);
    let p = sys.purchase_tickets(&user(2), id, 0, 150).unwrap();
    assert_eq!(p.total_amount, 0);
    assert!(p.ticket_ids.is_empty());
    assert_eq!(sys.get_event(id).unwrap().available_tickets, 3);
}

#[test]
fn limiter_counts_per_user_and_event() {
    let mut sys = TicketingSystem::new();
    let org = user(1);
    let a = user(2);
    let e1 = event(&mut sys, &org, 10, 1, 5);
    let e2 = event(&mut sys, &org, 10, 1, 5);
    assert_eq!(sys.current_count(&a, e1), 0);
    sys.purchase_tickets(&a, e1, 2, 150).unwrap();
    sys.purchase_tickets(&a, e2, 1, 150).unwrap();
    sys.purchase_tickets(&a, e1, 3, 150).unwrap();
    assert_eq!(sys.current_count(&a, e1), 5);
    assert_eq!(sys.current_count(&a, e2), 1);
    assert_eq!(sys.current_count(&org, e1), 0);
    assert!(matches!(
        sys.purchase_tickets(&a, e1, 1, 150),
        Err(TicketingError::ExceedsMaxTicketsPerUser)
    ));
    assert_eq!(sys.current_count(&a, e1), 5);
}

#[test]
fn failing_purchase_at_huge_price_returns_its_error() {
    let mut sys = TicketingSystem::new();
    let org = user(1);
    let a = user(2);
    let id = event(&mut sys, &org, 10, u64::MAX, 1);
    assert!(matches!(
        sys.check_purchase(&a, id, 2, 150),
        Err(TicketingError::ExceedsMaxTicketsPerUser)
    ));
    assert!(matches!(
        sys.purchase_tickets(&a, id, 2, 150),
        Err(TicketingError::ExceedsMaxTicketsPerUser)
    ));
    sys.deactivate_event(&org, id).unwrap();
    assert!(matches!(
        sys.purchase_tickets(&a, id, 2, 150),
        Err(TicketingError::EventInactive)
    ));
    assert_eq!(sys.get_event(id).unwrap().available_tickets, 10);
    assert!(sys.purchases.is_empty());
}

#[test]
fn check_purchase_matches_purchase_outcome() {
    let mut sys = TicketingSystem::new();
    let org = user(1);
    let a = user(2);
    let id = event(&mut sys, &org, 3, 10, 3);
    assert!(sys.check_purchase(&a, id, 2, 150).is_ok());
    assert!(sys.tickets.is_empty());
    sys.purchase_tickets(&a, id, 2, 150).unwrap();
    assert!(matches!(
        sys.check_purchase(&a, id, 2, 150),
        Err(TicketingError::InsufficientTickets)
    ));
    assert!(matches!(
        sys.check_purchase(&a, id, 1, 99),
        Err(TicketingError::SaleNotStarted)
    ));
    assert!(matches!(
        sys.check_purchase(&a, 7, 1, 150),
        Err(TicketingError::EventNotFound)
    ));
}

#[test]
fn get_or_create_stores_only_the_caller_once() {
    let mut sys = TicketingSystem::new();
    let a = user(2);
    let b = user(3);
    let first = sys.get_or_create_user_profile(&a);
    assert_eq!(sys.profiles.len(), 1);
    assert!(sys.profiles[0].user_principal.same_as(&a));
    assert_eq!(first.reputation_score, 100);
    let second = sys.get_or_create_user_profile(&a);
    assert_eq!(sys.profiles.len(), 1);
    assert_eq!(second.purchases, first.purchases);
    assert!(second.user_principal.same_as(&a));
    sys.get_or_create_user_profile(&b);
    assert_eq!(sys.profiles.len(), 2);
    assert!(sys.profiles[1].user_principal.same_as(&b));
}
