use event_ticketing::{
    apply_loyalty_discount, calculate_points, dynamic_price, tier_for_points, CreateEventPayload,
    LoyaltyTier, Message, PurchaseTicketPayload, RegisterUserPayload, TicketingState,
};

fn sample_event(price: u64, total: u64) -> CreateEventPayload {
    CreateEventPayload {
        name: "Concert".to_string(),
        location: "Hall".to_string(),
        date: 1700100000,
        ticket_price: price,
        total_tickets: total,
    }
}

fn sample_user(name: &str) -> RegisterUserPayload {
    RegisterUserPayload {
        username: name.to_string(),
        email: format!("{}@example.com", name),
    }
}

#[test]
fn test_calculate_points_exact_values() {
    assert_eq!(calculate_points(1000), 150);
    assert_eq!(calculate_points(500), 62);
    assert_eq!(calculate_points(50), 5);
    assert_eq!(calculate_points(200), 22);
    assert_eq!(calculate_points(0), 0);
    assert_eq!(calculate_points(199), 19);
}

#[test]
fn test_tier_thresholds() {
    assert_eq!(tier_for_points(2000), LoyaltyTier::Silver);
    assert_eq!(tier_for_points(1999), LoyaltyTier::Bronze);
    assert_eq!(tier_for_points(10000), LoyaltyTier::Platinum);
    assert_eq!(tier_for_points(9999), LoyaltyTier::Gold);
    assert_eq!(tier_for_points(5000), LoyaltyTier::Gold);
    assert_eq!(tier_for_points(4999), LoyaltyTier::Silver);
    assert_eq!(tier_for_points(0), LoyaltyTier::Bronze);
}

#[test]
fn test_register_user_empty_fields_rejected() {
    let mut state = TicketingState::new();
    let res = state.register_user(RegisterUserPayload {
        username: "".to_string(),
        email: "x@example.com".to_string(),
    });
    assert!(matches!(res, Err(Message::InvalidPayload(_))));

    let res = state.register_user(RegisterUserPayload {
        username: "someone".to_string(),
        email: "".to_string(),
    });
    assert!(matches!(res, Err(Message::InvalidPayload(_))));

    let ok = state.register_user(RegisterUserPayload {
        username: "alice".to_string(),
        email: "a@x.com".to_string(),
    });
    assert!(ok.is_ok());
    assert!(ok.unwrap().id > 0);
}

#[test]
fn test_create_event_invalid_payloads_rejected() {
    let mut state = TicketingState::new();
    let mut p = sample_event(100, 10);
    p.name = "".to_string();
    assert!(matches!(state.create_event(p), Err(Message::InvalidPayload(_))));

    let mut p = sample_event(100, 10);
    p.location = "".to_string();
    assert!(matches!(state.create_event(p), Err(Message::InvalidPayload(_))));

    let mut p = sample_event(100, 10);
    p.date = 0;
    assert!(matches!(state.create_event(p), Err(Message::InvalidPayload(_))));

    let mut p = sample_event(100, 10);
    p.ticket_price = 0;
    assert!(matches!(state.create_event(p), Err(Message::InvalidPayload(_))));

    let mut p = sample_event(100, 10);
    p.total_tickets = 0;
    assert!(matches!(state.create_event(p), Err(Message::InvalidPayload(_))));

    assert!(state.create_event(sample_event(100, 10)).is_ok());
}

#[test]
fn test_purchase_ticket_error_cases() {
    let mut state = TicketingState::new();
    let event = state.create_event(sample_event(100, 10)).unwrap();

    let empty_seat = PurchaseTicketPayload {
        event_id: event.id,
        user_id: 42,
        seat_number: "".to_string(),
    };
    assert!(matches!(
        state.purchase_ticket(empty_seat, 1),
        Err(Message::InvalidPayload(_))
    ));

    let missing_event = PurchaseTicketPayload {
        event_id: 9999,
        user_id: 42,
        seat_number: "A1".to_string(),
    };
    assert!(matches!(
        state.purchase_ticket(missing_event, 1),
        Err(Message::NotFound(_))
    ));
}

#[test]
fn test_single_ticket_event_sells_out() {
    let mut state = TicketingState::new();
    let user = state.register_user(sample_user("solo")).unwrap();
    let event = state.create_event(sample_event(100, 1)).unwrap();

    let first = PurchaseTicketPayload {
        event_id: event.id,
        user_id: user.id,
        seat_number: "A1".to_string(),
    };
    let bought = state.purchase_ticket(first, 10);
    assert!(bought.is_ok());

    let second = PurchaseTicketPayload {
        event_id: event.id,
        user_id: user.id,
        seat_number: "A2".to_string(),
    };
    assert!(matches!(
        state.purchase_ticket(second, 11),
        Err(Message::InsufficientTickets(_))
    ));

    let tickets = state.list_tickets_for_user(user.id);
    assert_eq!(tickets.len(), 1);
    assert_eq!(tickets[0].event_id, event.id);
}

#[test]
fn test_identifiers_strictly_increasing_across_kinds() {
    let mut state = TicketingState::new();
    let user = state.register_user(sample_user("first")).unwrap();
    let event = state.create_event(sample_event(100, 5)).unwrap();
    let ticket = state
        .purchase_ticket(
            PurchaseTicketPayload {
                event_id: event.id,
                user_id: user.id,
                seat_number: "C3".to_string(),
            },
            20,
        )
        .unwrap();
    let other = state.register_user(sample_user("second")).unwrap();

    assert!(user.id < event.id);
    assert!(event.id < ticket.id);
    assert!(ticket.id < other.id);
    assert_eq!(user.id, 1);
    assert_eq!(event.id, 2);
    assert_eq!(ticket.id, 3);
    assert_eq!(other.id, 4);
}

#[test]
fn test_tickets_sold_tracks_purchases() {
    let mut state = TicketingState::new();
    let event = state.create_event(sample_event(80, 3)).unwrap();
    assert_eq!(event.tickets_sold, 0);

    for n in 0..3u64 {
        let details = state.get_event_details(event.id).unwrap();
        assert_eq!(details.tickets_sold, n);
        let payload = PurchaseTicketPayload {
            event_id: event.id,
            user_id: 77,
            seat_number: format!("S{}", n),
        };
        assert!(state.purchase_ticket(payload, 30 + n).is_ok());
    }
    let details = state.get_event_details(event.id).unwrap();
    assert_eq!(details.tickets_sold, 3);

    let payload = PurchaseTicketPayload {
        event_id: event.id,
        user_id: 77,
        seat_number: "S9".to_string(),
    };
    assert!(matches!(
        state.purchase_ticket(payload, 40),
        Err(Message::InsufficientTickets(_))
    ));
}

#[test]
fn test_award_accumulates_and_updates_tier() {
    let mut state = TicketingState::new();
    let loyalty = state.award_loyalty_points(5, 1000, 50).unwrap();
    assert_eq!(loyalty.points, 150);
    assert_eq!(loyalty.tier, LoyaltyTier::Bronze);
    assert_eq!(loyalty.points_history.len(), 1);
    assert_eq!(loyalty.points_history[0].points, 150);
    assert_eq!(loyalty.points_history[0].timestamp, 50);

    let loyalty = state.award_loyalty_points(5, 20000, 51).unwrap();
    assert_eq!(loyalty.points, 150 + 3000);
    assert_eq!(loyalty.tier, LoyaltyTier::Silver);
    assert_eq!(loyalty.points_history.len(), 2);
}

#[test]
fn test_redeem_points_error_cases() {
    let mut state = TicketingState::new();
    assert!(matches!(
        state.redeem_points(123, 10, 60),
        Err(Message::NotFound(_))
    ));

    let _ = state.award_loyalty_points(123, 500, 61);
    assert!(matches!(
        state.redeem_points(123, 63, 62),
        Err(Message::Error(_))
    ));
    assert!(state.redeem_points(123, 62, 63).is_ok());
    assert!(matches!(
        state.redeem_points(123, 1, 64),
        Err(Message::Error(_))
    ));
}

#[test]
fn test_redeem_does_not_recompute_tier() {
    let mut state = TicketingState::new();
    let loyalty = state.award_loyalty_points(9, 40000, 70).unwrap();
    assert_eq!(loyalty.points, 6000);
    assert_eq!(loyalty.tier, LoyaltyTier::Gold);

    assert!(state.redeem_points(9, 5000, 71).is_ok());
    let after = state.award_loyalty_points(9, 0, 72).unwrap();
    assert_eq!(after.points, 1000);
    assert_eq!(after.points_history.len(), 3);
}

#[test]
fn test_dynamic_price_exact_values() {
    assert_eq!(dynamic_price(100, 0, 10), 50);
    assert_eq!(dynamic_price(100, 5, 10), 100);
    assert_eq!(dynamic_price(100, 10, 10), 150);
    assert_eq!(dynamic_price(99, 0, 3), 49);
    assert_eq!(dynamic_price(u64::MAX, 3, 3), u64::MAX);
}

#[test]
fn test_apply_loyalty_discount_exact_values() {
    assert_eq!(apply_loyalty_discount(100, LoyaltyTier::Platinum), 80);
    assert_eq!(apply_loyalty_discount(100, LoyaltyTier::Gold), 85);
    assert_eq!(apply_loyalty_discount(100, LoyaltyTier::Silver), 90);
    assert_eq!(apply_loyalty_discount(100, LoyaltyTier::Bronze), 95);
    assert_eq!(apply_loyalty_discount(99, LoyaltyTier::Bronze), 94);
}

#[test]
fn test_dynamic_pricing_purchase_without_account() {
    let mut state = TicketingState::new();
    let event = state.create_event(sample_event(100, 10)).unwrap();
    let payload = PurchaseTicketPayload {
        event_id: event.id,
        user_id: 55,
        seat_number: "D4".to_string(),
    };
    let ticket = state
        .purchase_ticket_with_dynamic_pricing(payload, 80)
        .unwrap();
    assert_eq!(ticket.price, 50);

    let details = state.get_event_details(event.id).unwrap();
    assert_eq!(details.tickets_sold, 1);

    let loyalty = state.award_loyalty_points(55, 0, 81).unwrap();
    assert_eq!(loyalty.points, 5);
    assert_eq!(loyalty.points_history.len(), 2);
}

#[test]
fn test_dynamic_pricing_purchase_with_gold_discount() {
    let mut state = TicketingState::new();
    let loyalty = state.award_loyalty_points(7, 40000, 90).unwrap();
    assert_eq!(loyalty.tier, LoyaltyTier::Gold);

    let event = state.create_event(sample_event(100, 10)).unwrap();
    let payload = PurchaseTicketPayload {
        event_id: event.id,
        user_id: 7,
        seat_number: "E5".to_string(),
    };
    let ticket = state
        .purchase_ticket_with_dynamic_pricing(payload, 91)
        .unwrap();
    assert_eq!(ticket.price, 42);

    let after = state.award_loyalty_points(7, 0, 92).unwrap();
    assert_eq!(after.points, 6000 + 4);
}

#[test]
fn test_dynamic_pricing_purchase_error_cases() {
    let mut state = TicketingState::new();
    let missing = PurchaseTicketPayload {
        event_id: 9,
        user_id: 1,
        seat_number: "F1".to_string(),
    };
    assert!(matches!(
        state.purchase_ticket_with_dynamic_pricing(missing, 95),
        Err(Message::NotFound(_))
    ));

    let event = state.create_event(sample_event(100, 1)).unwrap();
    let buy = |seat: &str| PurchaseTicketPayload {
        event_id: event.id,
        user_id: 1,
        seat_number: seat.to_string(),
    };
    assert!(state
        .purchase_ticket_with_dynamic_pricing(buy("G1"), 96)
        .is_ok());
    assert!(matches!(
        state.purchase_ticket_with_dynamic_pricing(buy("G2"), 97),
        Err(Message::InsufficientTickets(_))
    ));
}

#[test]
fn test_list_all_events_is_in_creation_order() {
    let mut state = TicketingState::new();
    let a = state.create_event(sample_event(10, 1)).unwrap();
    let b = state.create_event(sample_event(20, 2)).unwrap();
    let c = state.create_event(sample_event(30, 3)).unwrap();

    let events = state.list_all_events();
    assert_eq!(events.len(), 3);
    assert_eq!(events[0].id, a.id);
    assert_eq!(events[1].id, b.id);
    assert_eq!(events[2].id, c.id);
    assert!(events[0].id < events[1].id && events[1].id < events[2].id);
}
