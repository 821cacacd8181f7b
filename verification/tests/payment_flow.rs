use plan_escrow::host::{Error, Event, Invocation, Principal};
use plan_escrow::payment::{
    DataKey, PaymentContract, PaymentStatus, TransferOrder, TransferOutcome,
};

fn who(name: &str) -> Principal {
    Principal::new(name.to_string())
}

fn call_by(name: &str, timestamp: u64, sequence: u64) -> Invocation {
    let mut call = Invocation::new(timestamp, sequence);
    call.authorize(who(name));
    call
}

fn escrow_with_admin(name: &str) -> PaymentContract {
    let mut escrow = PaymentContract::new();
    assert_eq!(escrow.initialize(who(name)), Ok(()));
    escrow
}

/// The buyer's and the escrow's balances, as a token contract would keep them.
struct Book {
    buyer: i128,
    escrow: i128,
}

fn carry_out(book: &mut Book, order: &TransferOrder) -> TransferOutcome {
    match order {
        TransferOrder::Deposit { amount, .. } => {
            if *amount <= 0 || book.buyer < *amount {
                return TransferOutcome::Rejected;
            }
            book.buyer -= *amount;
            book.escrow += *amount;
        }
        TransferOrder::Refund { amount, .. } => {
            if *amount <= 0 || book.escrow < *amount {
                return TransferOutcome::Rejected;
            }
            book.escrow -= *amount;
            book.buyer += *amount;
        }
    }
    TransferOutcome::Done
}

#[test]
fn new_escrow_stores_nothing() {
    let escrow = PaymentContract::new();
    assert!(!escrow.has(&DataKey::Admin));
    assert!(!escrow.has(&DataKey::Payment(0)));
    assert!(escrow.admin().is_none());
    assert_eq!(escrow.get_payment(0).err(), Some(Error::NotFound));
}

#[test]
fn initialize_succeeds_exactly_once() {
    let mut escrow = PaymentContract::new();
    assert_eq!(escrow.initialize(who("admin")), Ok(()));
    assert!(escrow.has(&DataKey::Admin));
    assert_eq!(escrow.initialize(who("admin")), Err(Error::AlreadyInitialized));
    assert_eq!(escrow.initialize(who("mallory")), Err(Error::AlreadyInitialized));
    assert_eq!(escrow.admin().unwrap().key, "admin");
}

#[test]
fn create_payment_records_a_pending_payment() {
    let mut escrow = escrow_with_admin("admin");
    let mut call = call_by("buyer", 1_700_000_000, 42);
    let id = escrow.create_payment(
        &mut call,
        who("buyer"),
        "p1".to_string(),
        100,
        TransferOutcome::Done,
    );
    assert_eq!(id, Ok(42));
    assert!(escrow.has(&DataKey::Payment(42)));
    let p = escrow.get_payment(42).unwrap();
    assert_eq!(p.id, 42);
    assert_eq!(p.buyer.key, "buyer");
    assert_eq!(p.plan_id, "p1");
    assert_eq!(p.amount, 100);
    assert_eq!(p.status, PaymentStatus::Pending);
    assert_eq!(p.created_at, 1_700_000_000);
    assert_eq!(call.events.len(), 1);
    assert_eq!(call.events[0].topic(), "payment_created");
    match &call.events[0] {
        Event::PaymentCreated { plan_id, buyer, amount } => {
            assert_eq!(plan_id, "p1");
            assert_eq!(buyer.key, "buyer");
            assert_eq!(*amount, 100);
        }
        other => panic!("unexpected event {:?}", other),
    }
}

#[test]
fn create_payment_needs_the_buyers_authorization() {
    let mut escrow = escrow_with_admin("admin");
    let mut call = call_by("someone_else", 10, 1);
    let made = escrow.create_payment(
        &mut call,
        who("buyer"),
        "p1".to_string(),
        100,
        TransferOutcome::Done,
    );
    assert_eq!(made, Err(Error::Unauthorized));
    assert!(!escrow.has(&DataKey::Payment(1)));
    assert!(call.events.is_empty());
    assert_eq!(
        PaymentContract::deposit_order(&call, &who("buyer"), 100).err(),
        Some(Error::Unauthorized)
    );
}

#[test]
fn rejected_deposit_records_nothing() {
    let mut escrow = escrow_with_admin("admin");
    let mut call = call_by("buyer", 10, 1);
    let made = escrow.create_payment(
        &mut call,
        who("buyer"),
        "p1".to_string(),
        100,
        TransferOutcome::Rejected,
    );
    assert_eq!(made, Err(Error::TransferFailed));
    assert!(!escrow.has(&DataKey::Payment(1)));
    assert!(call.events.is_empty());
}

#[test]
fn deposit_order_names_buyer_and_amount() {
    let call = call_by("buyer", 10, 1);
    match PaymentContract::deposit_order(&call, &who("buyer"), 250).unwrap() {
        TransferOrder::Deposit { from, amount } => {
            assert_eq!(from.key, "buyer");
            assert_eq!(amount, 250);
        }
        other => panic!("unexpected order {:?}", other),
    }
}

#[test]
fn complete_payment_is_terminal() {
    let mut escrow = escrow_with_admin("admin");
    let mut call = call_by("buyer", 10, 5);
    escrow
        .create_payment(&mut call, who("buyer"), "p1".to_string(), 100, TransferOutcome::Done)
        .unwrap();
    let mut settle = call_by("admin", 20, 6);
    assert_eq!(escrow.complete_payment(&mut settle, 5, &who("admin")), Ok(()));
    assert_eq!(escrow.get_payment(5).unwrap().status, PaymentStatus::Completed);
    assert_eq!(settle.events.len(), 1);
    assert_eq!(settle.events[0].topic(), "payment_completed");
    match &settle.events[0] {
        Event::PaymentCompleted { payment_id, buyer } => {
            assert_eq!(*payment_id, 5);
            assert_eq!(buyer.key, "buyer");
        }
        other => panic!("unexpected event {:?}", other),
    }
    // No operation changes it again.
    assert_eq!(
        escrow.complete_payment(&mut settle, 5, &who("admin")),
        Err(Error::InvalidState)
    );
    assert_eq!(
        escrow.refund_payment(&mut settle, 5, &who("admin"), TransferOutcome::Done),
        Err(Error::InvalidState)
    );
    assert_eq!(
        escrow.refund_order(&settle, 5, &who("admin")).err(),
        Some(Error::InvalidState)
    );
    assert_eq!(escrow.initialize(who("other")), Err(Error::AlreadyInitialized));
    let p = escrow.get_payment(5).unwrap();
    assert_eq!(p.status, PaymentStatus::Completed);
    assert_eq!(p.amount, 100);
    assert_eq!(settle.events.len(), 1);
}

#[test]
fn refunded_payment_is_terminal() {
    let mut escrow = escrow_with_admin("admin");
    let mut call = call_by("buyer", 10, 5);
    escrow
        .create_payment(&mut call, who("buyer"), "p1".to_string(), 100, TransferOutcome::Done)
        .unwrap();
    let mut settle = call_by("admin", 20, 6);
    assert_eq!(
        escrow.refund_payment(&mut settle, 5, &who("admin"), TransferOutcome::Done),
        Ok(())
    );
    assert_eq!(
        escrow.complete_payment(&mut settle, 5, &who("admin")),
        Err(Error::InvalidState)
    );
    assert_eq!(
        escrow.refund_payment(&mut settle, 5, &who("admin"), TransferOutcome::Done),
        Err(Error::InvalidState)
    );
    assert_eq!(escrow.get_payment(5).unwrap().status, PaymentStatus::Refunded);
}

#[test]
fn escrow_and_refund_restore_the_buyers_balance() {
    let mut book = Book { buyer: 500, escrow: 0 };
    let mut escrow = escrow_with_admin("admin");

    let mut call = call_by("buyer", 1_000, 77);
    let deposit = PaymentContract::deposit_order(&call, &who("buyer"), 100).unwrap();
    let moved = carry_out(&mut book, &deposit);
    let id = escrow
        .create_payment(&mut call, who("buyer"), "p1".to_string(), 100, moved)
        .unwrap();
    assert_eq!(id, 77);
    assert_eq!(escrow.get_payment(id).unwrap().status, PaymentStatus::Pending);
    assert_eq!(book.buyer, 400);
    assert_eq!(book.escrow, 100);

    let mut settle = call_by("admin", 2_000, 78);
    let refund = escrow.refund_order(&settle, id, &who("admin")).unwrap();
    match &refund {
        TransferOrder::Refund { to, amount } => {
            assert_eq!(to.key, "buyer");
            assert_eq!(*amount, 100);
        }
        other => panic!("unexpected order {:?}", other),
    }
    let moved = carry_out(&mut book, &refund);
    assert_eq!(escrow.refund_payment(&mut settle, id, &who("admin"), moved), Ok(()));
    assert_eq!(escrow.get_payment(id).unwrap().status, PaymentStatus::Refunded);
    assert_eq!(book.buyer, 500);
    assert_eq!(book.escrow, 0);
    assert_eq!(settle.events.len(), 1);
    assert_eq!(settle.events[0].topic(), "payment_refunded");
    match &settle.events[0] {
        Event::PaymentRefunded { payment_id, buyer } => {
            assert_eq!(*payment_id, 77);
            assert_eq!(buyer.key, "buyer");
        }
        other => panic!("unexpected event {:?}", other),
    }
}

#[test]
fn rejected_refund_leaves_the_payment_pending() {
    let mut escrow = escrow_with_admin("admin");
    let mut call = call_by("buyer", 10, 5);
    escrow
        .create_payment(&mut call, who("buyer"), "p1".to_string(), 100, TransferOutcome::Done)
        .unwrap();
    let mut settle = call_by("admin", 20, 6);
    assert_eq!(
        escrow.refund_payment(&mut settle, 5, &who("admin"), TransferOutcome::Rejected),
        Err(Error::TransferFailed)
    );
    assert_eq!(escrow.get_payment(5).unwrap().status, PaymentStatus::Pending);
    assert!(settle.events.is_empty());
    // It can still be settled afterwards.
    assert_eq!(escrow.complete_payment(&mut settle, 5, &who("admin")), Ok(()));
}

#[test]
fn stranger_cannot_complete_a_payment() {
    let mut escrow = escrow_with_admin("admin");
    let mut call = call_by("buyer", 10, 5);
    escrow
        .create_payment(&mut call, who("buyer"), "p1".to_string(), 100, TransferOutcome::Done)
        .unwrap();
    let mut intruder = call_by("carol", 20, 6);
    assert_eq!(
        escrow.complete_payment(&mut intruder, 5, &who("carol")),
        Err(Error::Unauthorized)
    );
    assert_eq!(
        escrow.refund_payment(&mut intruder, 5, &who("carol"), TransferOutcome::Done),
        Err(Error::Unauthorized)
    );
    let p = escrow.get_payment(5).unwrap();
    assert_eq!(p.status, PaymentStatus::Pending);
    assert_eq!(p.amount, 100);
    assert_eq!(p.buyer.key, "buyer");
    assert_eq!(p.plan_id, "p1");
    assert_eq!(p.created_at, 10);
    assert!(intruder.events.is_empty());
}

#[test]
fn admin_must_have_authorized_the_call() {
    let mut escrow = escrow_with_admin("admin");
    let mut call = call_by("buyer", 10, 5);
    escrow
        .create_payment(&mut call, who("buyer"), "p1".to_string(), 100, TransferOutcome::Done)
        .unwrap();
    // Names the administrator, but the call carries only the buyer's authorization.
    assert_eq!(
        escrow.complete_payment(&mut call, 5, &who("admin")),
        Err(Error::Unauthorized)
    );
    assert_eq!(escrow.get_payment(5).unwrap().status, PaymentStatus::Pending);
}

#[test]
fn settling_needs_an_administrator_on_record() {
    let mut escrow = PaymentContract::new();
    let mut call = call_by("buyer", 10, 5);
    escrow
        .create_payment(&mut call, who("buyer"), "p1".to_string(), 100, TransferOutcome::Done)
        .unwrap();
    let mut settle = call_by("admin", 20, 6);
    assert_eq!(
        escrow.complete_payment(&mut settle, 5, &who("admin")),
        Err(Error::NotInitialized)
    );
    assert_eq!(
        escrow.refund_payment(&mut settle, 5, &who("admin"), TransferOutcome::Done),
        Err(Error::NotInitialized)
    );
}

#[test]
fn settling_a_missing_payment_is_not_found() {
    let mut escrow = escrow_with_admin("admin");
    let mut settle = call_by("admin", 20, 6);
    assert_eq!(escrow.complete_payment(&mut settle, 9, &who("admin")), Err(Error::NotFound));
    assert_eq!(
        escrow.refund_payment(&mut settle, 9, &who("admin"), TransferOutcome::Done),
        Err(Error::NotFound)
    );
    assert_eq!(escrow.refund_order(&settle, 9, &who("admin")).err(), Some(Error::NotFound));
    assert_eq!(escrow.get_payment(9).err(), Some(Error::NotFound));
}

#[test]
fn same_era_reading_replaces_the_earlier_payment() {
    let mut escrow = escrow_with_admin("admin");
    let mut first = call_by("alice", 10, 5);
    escrow
        .create_payment(&mut first, who("alice"), "p1".to_string(), 100, TransferOutcome::Done)
        .unwrap();
    let mut second = call_by("bob", 11, 5);
    let id = escrow
        .create_payment(&mut second, who("bob"), "p2".to_string(), 30, TransferOutcome::Done)
        .unwrap();
    assert_eq!(id, 5);
    let p = escrow.get_payment(5).unwrap();
    assert_eq!(p.buyer.key, "bob");
    assert_eq!(p.amount, 30);
    assert_eq!(p.plan_id, "p2");
}

#[test]
fn restore_holds_what_it_was_given() {
    let mut source = escrow_with_admin("admin");
    let mut call = call_by("buyer", 10, 5);
    source
        .create_payment(&mut call, who("buyer"), "p1".to_string(), 100, TransferOutcome::Done)
        .unwrap();
    let stored = source.get_payment(5).unwrap();
    let copy = plan_escrow::payment::Payment {
        id: stored.id,
        buyer: stored.buyer.clone(),
        plan_id: stored.plan_id.clone(),
        amount: stored.amount,
        status: stored.status,
        created_at: stored.created_at,
    };
    let mut escrow = PaymentContract::restore(Some(who("admin")), Some(copy));
    assert!(escrow.has(&DataKey::Admin));
    assert!(escrow.has(&DataKey::Payment(5)));
    assert!(!escrow.has(&DataKey::Payment(6)));
    let mut settle = call_by("admin", 20, 6);
    assert_eq!(escrow.complete_payment(&mut settle, 5, &who("admin")), Ok(()));
    assert_eq!(escrow.get_payment(5).unwrap().status, PaymentStatus::Completed);

    let empty = PaymentContract::restore(None, None);
    assert!(!empty.has(&DataKey::Admin));
    assert!(!empty.has(&DataKey::Payment(5)));
}

#[test]
fn status_names() {
    assert_eq!(PaymentStatus::Pending.name(), "pending");
    assert_eq!(PaymentStatus::Completed.name(), "completed");
    assert_eq!(PaymentStatus::Refunded.name(), "refunded");
}
