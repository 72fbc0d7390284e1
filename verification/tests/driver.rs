use asset_ledger::domain::TransferError;
use asset_ledger::domain::TransferRequest;
use asset_ledger::queue::InMemoryQueue;
use asset_ledger::queue::MessageQueue;
use asset_ledger::queue::should_acknowledge;
use asset_ledger::steps::DriverStep;
use asset_ledger::steps::StoreAction;
use asset_ledger::steps::StoreEvent;
use asset_ledger::steps::TransferDriver;

fn request(from: &str, to: &str, amount: i64) -> TransferRequest {
    TransferRequest { from: from.to_string(), to: to.to_string(), amount }
}

#[test]
fn test_driver_rejects_invalid_before_any_store_action() {
    let (_, step) = TransferDriver::start(request("a", "b", 0));
    assert!(matches!(step, DriverStep::Done(Err(TransferError::InvalidRequest))));
}

#[test]
fn test_driver_happy_path() {
    let (mut driver, step) = TransferDriver::start(request("alice", "bob", 40));
    assert!(matches!(step, DriverStep::Act(StoreAction::Begin)));

    let step = driver.step(StoreEvent::Completed);
    assert!(matches!(step, DriverStep::Act(StoreAction::ReadWallet(ref a)) if a == "alice"));

    let step = driver.step(StoreEvent::WalletRead(Some(100)));
    assert!(
        matches!(step, DriverStep::Act(StoreAction::WriteBalance(ref a, 60)) if a == "alice")
    );

    let step = driver.step(StoreEvent::Completed);
    assert!(matches!(step, DriverStep::Act(StoreAction::ReadWallet(ref a)) if a == "bob"));

    let step = driver.step(StoreEvent::WalletRead(None));
    assert!(matches!(step, DriverStep::Act(StoreAction::WriteBalance(ref a, 40)) if a == "bob"));

    let step = driver.step(StoreEvent::Completed);
    assert!(
        matches!(step, DriverStep::Act(StoreAction::AppendTransfer(ref q)) if q.amount == 40)
    );

    let step = driver.step(StoreEvent::Completed);
    assert!(matches!(step, DriverStep::Act(StoreAction::Commit)));

    let step = driver.step(StoreEvent::Completed);
    assert!(matches!(step, DriverStep::Done(Ok(()))));
}

#[test]
fn test_driver_insufficient_balance_rolls_back() {
    let (mut driver, _) = TransferDriver::start(request("alice", "bob", 40));
    driver.step(StoreEvent::Completed);
    let step = driver.step(StoreEvent::WalletRead(Some(39)));
    assert!(matches!(step, DriverStep::Act(StoreAction::Rollback)));
    let step = driver.step(StoreEvent::Completed);
    assert!(matches!(step, DriverStep::Done(Err(TransferError::InsufficientBalance))));
}

#[test]
fn test_driver_absent_sender_is_short() {
    let (mut driver, _) = TransferDriver::start(request("alice", "bob", 1));
    driver.step(StoreEvent::Completed);
    let step = driver.step(StoreEvent::WalletRead(None));
    assert!(matches!(step, DriverStep::Act(StoreAction::Rollback)));
}

#[test]
fn test_driver_store_failure_is_fatal() {
    let (mut driver, _) = TransferDriver::start(request("alice", "bob", 40));
    let step = driver.step(StoreEvent::Failed);
    assert!(matches!(step, DriverStep::Done(Err(TransferError::StoreError))));
}

#[test]
fn test_driver_credit_overflow_is_a_store_fault() {
    let (mut driver, _) = TransferDriver::start(request("alice", "bob", 2));
    driver.step(StoreEvent::Completed);
    driver.step(StoreEvent::WalletRead(Some(10)));
    driver.step(StoreEvent::Completed);
    let step = driver.step(StoreEvent::WalletRead(Some(i64::MAX - 1)));
    assert!(matches!(step, DriverStep::Done(Err(TransferError::StoreError))));
}

#[test]
fn test_queue_is_first_in_first_out() {
    let mut queue = InMemoryQueue::new();
    assert_eq!(queue.pending_count(), 0);
    assert!(queue.publish_transfer(&request("a", "b", 1)).is_ok());
    assert!(queue.publish_transfer(&request("c", "d", 2)).is_ok());
    assert_eq!(queue.pending_count(), 2);

    let first = queue.take_next().unwrap();
    assert_eq!(first.from, "a");
    assert_eq!(first.amount, 1);
    let second = queue.take_next().unwrap();
    assert_eq!(second.from, "c");
    assert_eq!(second.amount, 2);
    assert!(queue.take_next().is_none());
}

#[test]
fn test_consume_all_preserves_total_and_drains() {
    let mut ledger = asset_ledger::store::Ledger::new();
    ledger.credit("A", 1000);
    let mut engine = asset_ledger::engine::TransferFunds::new(ledger);

    let mut queue = InMemoryQueue::new();
    queue.publish_transfer(&request("A", "B", 300)).unwrap();
    queue.publish_transfer(&request("B", "C", 100)).unwrap();
    queue.publish_transfer(&request("C", "A", 9999)).unwrap();

    asset_ledger::queue::consume_all(&mut queue, &mut engine);
    assert_eq!(queue.pending_count(), 0);

    let query = asset_ledger::engine::GetBalance::new(engine.ledger);
    let a = query.execute("A").unwrap();
    let b = query.execute("B").unwrap();
    let c = query.execute("C").unwrap();
    assert_eq!((a, b, c), (700, 200, 100));
    assert_eq!(a + b + c, 1000);
}

#[test]
fn test_acknowledgement_rule() {
    assert!(should_acknowledge(&Ok(())));
    assert!(should_acknowledge(&Err(TransferError::InvalidRequest)));
    assert!(should_acknowledge(&Err(TransferError::InsufficientBalance)));
    assert!(!should_acknowledge(&Err(TransferError::StoreError)));
}
