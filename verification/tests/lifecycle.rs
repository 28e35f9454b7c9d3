use escrow::ledger::TokenLedger;
use escrow::service::EscrowContract;
use escrow::types::{Address, EscrowError, Event};

fn addr(id: u64) -> Address {
    Address { id }
}

/// Client, freelancer, arbiter, token, custody; the client starts with
/// 1000 of the token.
fn setup() -> (EscrowContract, TokenLedger, Address, Address, Address, Address, Address) {
    let client = addr(1);
    let freelancer = addr(2);
    let arbiter = addr(3);
    let token = addr(4);
    let custody = addr(9);
    let service = EscrowContract::new(custody);
    let mut ledger = TokenLedger::new();
    ledger.mint(token, client, 1000);
    (service, ledger, client, freelancer, arbiter, token, custody)
}

#[test]
fn create_then_get_returns_inputs() {
    let (mut s, _l, c, f, a, t, _cust) = setup();
    let r = s.create(c, "e1".to_string(), c, f, 100, t, a);
    assert_eq!(r, Ok(Event::Created { client: c }));
    let e = s.get_escrow(&"e1".to_string()).unwrap();
    assert_eq!(e.escrow_id, "e1".to_string());
    assert_eq!(e.client, c);
    assert_eq!(e.freelancer, f);
    assert_eq!(e.amount, 100);
    assert_eq!(e.token, t);
    assert_eq!(e.arbiter, a);
    assert!(!e.funded);
    assert!(!e.delivered);
    assert!(!e.released);
    assert!(!e.disputed);
}

#[test]
fn count_starts_at_zero() {
    let (s, _l, _c, _f, _a, _t, _cust) = setup();
    assert_eq!(s.get_escrow_count(), 0);
}

#[test]
fn count_tracks_successful_creates() {
    let (mut s, _l, c, f, a, t, _cust) = setup();
    assert_eq!(s.create(c, "e1".to_string(), c, f, 10, t, a), Ok(Event::Created { client: c }));
    assert_eq!(s.create(c, "e2".to_string(), c, f, 20, t, a), Ok(Event::Created { client: c }));
    assert_eq!(s.create(c, "e3".to_string(), c, f, 30, t, a), Ok(Event::Created { client: c }));
    assert_eq!(s.get_escrow_count(), 3);
    // A failed create (duplicate id) does not increment the counter.
    assert_eq!(
        s.create(c, "e2".to_string(), c, f, 40, t, a),
        Err(EscrowError::AlreadyExists)
    );
    assert_eq!(s.get_escrow_count(), 3);
}

#[test]
fn second_fund_fails_and_custody_is_unchanged() {
    let (mut s, mut l, c, f, a, t, cust) = setup();
    s.create(c, "e1".to_string(), c, f, 100, t, a).unwrap();
    let id = "e1".to_string();
    assert_eq!(s.fund(&mut l, c, &id), Ok(Event::Funded { amount: 100 }));
    let custody_before = l.balance_of(t, cust);
    let client_before = l.balance_of(t, c);
    assert_eq!(s.fund(&mut l, c, &id), Err(EscrowError::AlreadyFunded));
    assert_eq!(l.balance_of(t, cust), custody_before);
    assert_eq!(l.balance_of(t, c), client_before);
}

#[test]
fn happy_path_scenario() {
    let (mut s, mut l, c, f, a, t, cust) = setup();
    let id = "e1".to_string();
    assert_eq!(
        s.create(c, "e1".to_string(), c, f, 100, t, a),
        Ok(Event::Created { client: c })
    );
    // fund moves 100 of the token from the client into custody.
    assert_eq!(s.fund(&mut l, c, &id), Ok(Event::Funded { amount: 100 }));
    assert_eq!(l.balance_of(t, c), 900);
    assert_eq!(l.balance_of(t, cust), 100);
    // deliver sets the flag.
    assert_eq!(s.deliver(f, &id), Ok(Event::Delivered { flag: true }));
    assert!(s.get_escrow(&id).unwrap().delivered);
    // release moves 100 from custody to the freelancer.
    assert_eq!(s.release(&mut l, c, &id), Ok(Event::Released { amount: 100 }));
    assert_eq!(l.balance_of(t, cust), 0);
    assert_eq!(l.balance_of(t, f), 100);
    assert!(s.get_escrow(&id).unwrap().released);
    // Any subsequent mutating call on the id fails.
    assert_eq!(s.fund(&mut l, c, &id), Err(EscrowError::AlreadyFunded));
    assert_eq!(s.deliver(f, &id), Err(EscrowError::AlreadyDelivered));
    assert_eq!(s.release(&mut l, c, &id), Err(EscrowError::AlreadyReleased));
    assert_eq!(s.dispute(c, &id), Err(EscrowError::AlreadyReleased));
    assert_eq!(s.dispute(f, &id), Err(EscrowError::AlreadyReleased));
    assert_eq!(
        s.resolve(&mut l, a, &id, true),
        Err(EscrowError::NotDisputed)
    );
    // Balances did not move again.
    assert_eq!(l.balance_of(t, c), 900);
    assert_eq!(l.balance_of(t, f), 100);
    assert_eq!(l.balance_of(t, cust), 0);
}

#[test]
fn dispute_and_refund_scenario() {
    let (mut s, mut l, c, f, a, t, cust) = setup();
    let id = "e1".to_string();
    s.create(c, "e1".to_string(), c, f, 100, t, a).unwrap();
    s.fund(&mut l, c, &id).unwrap();
    // After fund, dispute sets disputed = true.
    assert_eq!(s.dispute(f, &id), Ok(Event::Disputed { flag: true }));
    assert!(s.get_escrow(&id).unwrap().disputed);
    // resolve(false) moves the 100 back to the client.
    assert_eq!(
        s.resolve(&mut l, a, &id, false),
        Ok(Event::Resolved { pay_freelancer: false })
    );
    assert_eq!(l.balance_of(t, c), 1000);
    assert_eq!(l.balance_of(t, cust), 0);
    assert!(s.get_escrow(&id).unwrap().released);
    // A second resolve fails with AlreadyResolved.
    assert_eq!(
        s.resolve(&mut l, a, &id, true),
        Err(EscrowError::AlreadyResolved)
    );
    // The escrow is terminal even though it was never delivered: no
    // mutating call succeeds and no balance moves.
    assert_eq!(s.deliver(f, &id), Err(EscrowError::AlreadyReleased));
    assert_eq!(s.fund(&mut l, c, &id), Err(EscrowError::AlreadyFunded));
    assert_eq!(s.dispute(c, &id), Err(EscrowError::AlreadyReleased));
    assert_eq!(s.release(&mut l, c, &id), Err(EscrowError::NotDelivered));
    assert_eq!(l.balance_of(t, c), 1000);
    assert_eq!(l.balance_of(t, f), 0);
    assert_eq!(l.balance_of(t, cust), 0);
    assert!(!s.get_escrow(&id).unwrap().delivered);
}

#[test]
fn resolve_pays_freelancer_exactly_the_amount() {
    let (mut s, mut l, c, f, a, t, _cust) = setup();
    let id = "e1".to_string();
    s.create(c, "e1".to_string(), c, f, 100, t, a).unwrap();
    s.fund(&mut l, c, &id).unwrap();
    s.dispute(c, &id).unwrap();
    assert_eq!(
        s.resolve(&mut l, a, &id, true),
        Ok(Event::Resolved { pay_freelancer: true })
    );
    assert_eq!(l.balance_of(t, f), 100);
    assert_eq!(l.balance_of(t, c), 900);
    assert!(s.get_escrow(&id).unwrap().released);
}

#[test]
fn empty_id_is_an_ordinary_key() {
    let (mut s, mut l, c, f, a, t, _cust) = setup();
    let id = String::new();
    assert_eq!(s.create(c, String::new(), c, f, 7, t, a), Ok(Event::Created { client: c }));
    assert_eq!(s.create(c, String::new(), c, f, 7, t, a), Err(EscrowError::AlreadyExists));
    assert_eq!(s.fund(&mut l, c, &id), Ok(Event::Funded { amount: 7 }));
    assert_eq!(s.get_escrow(&id).unwrap().escrow_id, "");
    assert_eq!(s.get_escrow_count(), 1);
}

#[test]
fn release_only_after_funding_and_delivery() {
    let (mut s, mut l, c, f, a, t, _cust) = setup();
    let id = "e1".to_string();
    s.create(c, "e1".to_string(), c, f, 100, t, a).unwrap();
    assert_eq!(s.release(&mut l, c, &id), Err(EscrowError::NotFunded));
    s.fund(&mut l, c, &id).unwrap();
    assert_eq!(s.release(&mut l, c, &id), Err(EscrowError::NotDelivered));
    s.deliver(f, &id).unwrap();
    assert_eq!(s.release(&mut l, c, &id), Ok(Event::Released { amount: 100 }));
}
