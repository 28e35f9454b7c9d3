use escrow::ledger::TokenLedger;
use escrow::service::EscrowContract;
use escrow::types::{Address, EscrowError, Event};

fn addr(id: u64) -> Address {
    Address { id }
}

fn setup() -> (EscrowContract, TokenLedger, Address, Address, Address, Address, Address) {
    let client = addr(1);
    let freelancer = addr(2);
    let arbiter = addr(3);
    let token = addr(4);
    let custody = addr(9);
    let service = EscrowContract::new(custody);
    let mut ledger = TokenLedger::new();
    ledger.mint(token, client, 1000);
    (service, ledger, client, freelancer, arbiter, token, custody)
}

#[test]
fn unknown_id_is_not_found() {
    let (mut s, mut l, c, f, a, _t, _cust) = setup();
    let id = "missing".to_string();
    assert_eq!(s.get_escrow(&id), Err(EscrowError::NotFound));
    assert_eq!(s.fund(&mut l, c, &id), Err(EscrowError::NotFound));
    assert_eq!(s.deliver(f, &id), Err(EscrowError::NotFound));
    assert_eq!(s.release(&mut l, c, &id), Err(EscrowError::NotFound));
    assert_eq!(s.dispute(c, &id), Err(EscrowError::NotFound));
    assert_eq!(s.resolve(&mut l, a, &id, true), Err(EscrowError::NotFound));
}

#[test]
fn only_the_right_principal_may_act() {
    let (mut s, mut l, c, f, a, t, _cust) = setup();
    let id = "e1".to_string();
    // create demands the client's own authorization.
    assert_eq!(
        s.create(f, "e1".to_string(), c, f, 100, t, a),
        Err(EscrowError::Unauthorized)
    );
    s.create(c, "e1".to_string(), c, f, 100, t, a).unwrap();
    // fund and release belong to the client.
    assert_eq!(s.fund(&mut l, f, &id), Err(EscrowError::Unauthorized));
    s.fund(&mut l, c, &id).unwrap();
    // deliver belongs to the freelancer.
    assert_eq!(s.deliver(c, &id), Err(EscrowError::Unauthorized));
    assert_eq!(s.deliver(a, &id), Err(EscrowError::Unauthorized));
    s.deliver(f, &id).unwrap();
    assert_eq!(s.release(&mut l, f, &id), Err(EscrowError::Unauthorized));
    // dispute belongs to the client or the freelancer, not the arbiter.
    assert_eq!(s.dispute(a, &id), Err(EscrowError::Unauthorized));
    s.dispute(c, &id).unwrap();
    // resolve belongs to the arbiter alone.
    assert_eq!(s.resolve(&mut l, c, &id, true), Err(EscrowError::Unauthorized));
    assert_eq!(s.resolve(&mut l, f, &id, true), Err(EscrowError::Unauthorized));
}

#[test]
fn deliver_needs_funding_first() {
    let (mut s, _l, c, f, a, t, _cust) = setup();
    let id = "e1".to_string();
    s.create(c, "e1".to_string(), c, f, 100, t, a).unwrap();
    assert_eq!(s.deliver(f, &id), Err(EscrowError::NotFunded));
}

#[test]
fn deliver_twice_fails() {
    let (mut s, mut l, c, f, a, t, _cust) = setup();
    let id = "e1".to_string();
    s.create(c, "e1".to_string(), c, f, 100, t, a).unwrap();
    s.fund(&mut l, c, &id).unwrap();
    s.deliver(f, &id).unwrap();
    assert_eq!(s.deliver(f, &id), Err(EscrowError::AlreadyDelivered));
}

#[test]
fn dispute_needs_funding_first() {
    let (mut s, _l, c, f, a, t, _cust) = setup();
    let id = "e1".to_string();
    s.create(c, "e1".to_string(), c, f, 100, t, a).unwrap();
    assert_eq!(s.dispute(c, &id), Err(EscrowError::NotFunded));
}

#[test]
fn resolve_needs_an_open_dispute() {
    let (mut s, mut l, c, f, a, t, _cust) = setup();
    let id = "e1".to_string();
    s.create(c, "e1".to_string(), c, f, 100, t, a).unwrap();
    s.fund(&mut l, c, &id).unwrap();
    assert_eq!(s.resolve(&mut l, a, &id, true), Err(EscrowError::NotDisputed));
}

#[test]
fn fund_fails_without_balance_and_changes_nothing() {
    let (mut s, mut l, c, f, a, t, cust) = setup();
    let id = "big".to_string();
    s.create(c, "big".to_string(), c, f, 5000, t, a).unwrap();
    // The client holds only 1000 of the token.
    assert_eq!(s.fund(&mut l, c, &id), Err(EscrowError::TransferFailed));
    assert_eq!(l.balance_of(t, c), 1000);
    assert_eq!(l.balance_of(t, cust), 0);
    assert!(!s.get_escrow(&id).unwrap().funded);
}

#[test]
fn negative_amount_cannot_be_funded() {
    // Nothing checks the amount's sign at creation, but the ledger refuses
    // to move a negative amount, so funding aborts with TransferFailed.
    let (mut s, mut l, c, f, a, t, cust) = setup();
    let id = "neg".to_string();
    s.create(c, "neg".to_string(), c, f, -5, t, a).unwrap();
    assert_eq!(s.fund(&mut l, c, &id), Err(EscrowError::TransferFailed));
    assert_eq!(l.balance_of(t, c), 1000);
    assert_eq!(l.balance_of(t, cust), 0);
}

#[test]
fn zero_amount_funds_and_releases_without_movement() {
    let (mut s, mut l, c, f, a, t, cust) = setup();
    let id = "zero".to_string();
    s.create(c, "zero".to_string(), c, f, 0, t, a).unwrap();
    assert_eq!(s.fund(&mut l, c, &id), Ok(Event::Funded { amount: 0 }));
    assert_eq!(l.balance_of(t, c), 1000);
    assert_eq!(l.balance_of(t, cust), 0);
    s.deliver(f, &id).unwrap();
    assert_eq!(s.release(&mut l, c, &id), Ok(Event::Released { amount: 0 }));
    assert_eq!(l.balance_of(t, f), 0);
}

#[test]
fn ledger_transfer_moves_exactly_the_amount() {
    let mut l = TokenLedger::new();
    let t = addr(4);
    let x = addr(7);
    let y = addr(8);
    l.mint(t, x, 50);
    assert!(l.transfer(t, x, y, 20));
    assert_eq!(l.balance_of(t, x), 30);
    assert_eq!(l.balance_of(t, y), 20);
    // More than the balance is refused and nothing moves.
    assert!(!l.transfer(t, x, y, 31));
    assert_eq!(l.balance_of(t, x), 30);
    assert_eq!(l.balance_of(t, y), 20);
    // A transfer to oneself changes nothing.
    assert!(l.transfer(t, x, x, 10));
    assert_eq!(l.balance_of(t, x), 30);
}

#[test]
fn custody_address_is_the_one_given() {
    let s = EscrowContract::new(addr(9));
    assert_eq!(s.custody_address(), addr(9));
}
