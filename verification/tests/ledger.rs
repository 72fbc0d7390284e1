use asset_ledger::domain::TransferError;
use asset_ledger::domain::TransferRequest;
use asset_ledger::engine::GetBalance;
use asset_ledger::engine::GetTransferHistory;
use asset_ledger::engine::TransferFunds;
use asset_ledger::store::Ledger;

fn request(from: &str, to: &str, amount: i64) -> TransferRequest {
    TransferRequest { from: from.to_string(), to: to.to_string(), amount }
}

fn balance_of(ledger: Ledger, address: &str) -> (Ledger, i64) {
    let query = GetBalance::new(ledger);
    let balance = query.execute(address).unwrap();
    (query.ledger, balance)
}

#[test]
fn test_get_balance_existing_wallet() {
    let mut ledger = Ledger::new();
    ledger.credit("0x123", 1000);

    let get_balance = GetBalance::new(ledger);
    let balance = get_balance.execute("0x123").unwrap();

    assert_eq!(balance, 1000);
}

#[test]
fn test_get_balance_new_wallet() {
    let ledger = Ledger::new();

    let get_balance = GetBalance::new(ledger);
    let balance = get_balance.execute("0x456").unwrap();

    assert_eq!(balance, 0);
}

#[test]
fn test_get_transfer_history_empty() {
    let ledger = Ledger::new();

    let get_history = GetTransferHistory::new(ledger);
    let history = get_history.execute("0x123").unwrap();

    assert!(history.is_empty());
}

#[test]
fn test_get_transfer_history_populated() {
    let mut ledger = Ledger::new();
    ledger.credit("0x123", 500);
    let mut engine = TransferFunds::new(ledger);
    engine.execute(&request("0x123", "0x456", 500)).unwrap();

    let get_history = GetTransferHistory::new(engine.ledger);
    let history = get_history.execute("0x123").unwrap();

    assert_eq!(history.len(), 1);
    assert_eq!(history[0].id, 1);
    assert_eq!(history[0].from_address, "0x123");
    assert_eq!(history[0].to_address, "0x456");
    assert_eq!(history[0].amount, 500);
    assert_eq!(history[0].timestamp, Some(1));
}

#[test]
fn test_validation_rejects_bad_requests() {
    let mut engine = TransferFunds::new(Ledger::new());
    assert_eq!(engine.execute(&request("a", "b", 0)), Err(TransferError::InvalidRequest));
    assert_eq!(engine.execute(&request("a", "b", -5)), Err(TransferError::InvalidRequest));
    assert_eq!(engine.execute(&request("", "b", 10)), Err(TransferError::InvalidRequest));
    assert_eq!(engine.execute(&request("a", "", 10)), Err(TransferError::InvalidRequest));
    let history = GetTransferHistory::new(engine.ledger).execute("a").unwrap();
    assert!(history.is_empty());
}

#[test]
fn test_insufficient_balance_is_atomic() {
    let mut ledger = Ledger::new();
    ledger.credit("alice", 100);
    let mut engine = TransferFunds::new(ledger);

    let outcome = engine.execute(&request("alice", "bob", 250));
    assert_eq!(outcome, Err(TransferError::InsufficientBalance));

    let (ledger, alice) = balance_of(engine.ledger, "alice");
    assert_eq!(alice, 100);
    let (ledger, bob) = balance_of(ledger, "bob");
    assert_eq!(bob, 0);
    let history = GetTransferHistory::new(ledger).execute("alice").unwrap();
    assert!(history.is_empty());
}

#[test]
fn test_self_transfer_keeps_balance_but_logs() {
    let mut ledger = Ledger::new();
    ledger.credit("alice", 500);
    let mut engine = TransferFunds::new(ledger);

    engine.execute(&request("alice", "alice", 200)).unwrap();

    let (ledger, alice) = balance_of(engine.ledger, "alice");
    assert_eq!(alice, 500);
    let history = GetTransferHistory::new(ledger).execute("alice").unwrap();
    assert_eq!(history.len(), 1);
    assert_eq!(history[0].from_address, "alice");
    assert_eq!(history[0].to_address, "alice");
    assert_eq!(history[0].amount, 200);
}

#[test]
fn test_history_is_complete_and_newest_first() {
    let mut ledger = Ledger::new();
    ledger.credit("A", 1000);
    let mut engine = TransferFunds::new(ledger);
    engine.execute(&request("A", "B", 100)).unwrap();
    engine.execute(&request("B", "A", 30)).unwrap();

    let query = GetTransferHistory::new(engine.ledger);
    let history_a = query.execute("A").unwrap();
    assert_eq!(history_a.len(), 2);
    assert_eq!(history_a[0].id, 2);
    assert_eq!(history_a[0].from_address, "B");
    assert_eq!(history_a[0].amount, 30);
    assert_eq!(history_a[1].id, 1);
    assert_eq!(history_a[1].from_address, "A");
    assert_eq!(history_a[1].amount, 100);

    let history_b = query.execute("B").unwrap();
    assert_eq!(history_b.len(), 2);
    assert_eq!(history_b[0].id, 2);
    assert_eq!(history_b[1].id, 1);
}

#[test]
fn test_disjoint_transfers_each_reflect_their_own() {
    for first_pair_first in [true, false] {
        let mut ledger = Ledger::new();
        ledger.credit("A", 1000);
        ledger.credit("C", 1000);
        let mut engine = TransferFunds::new(ledger);
        if first_pair_first {
            engine.execute(&request("A", "B", 300)).unwrap();
            engine.execute(&request("C", "D", 400)).unwrap();
        } else {
            engine.execute(&request("C", "D", 400)).unwrap();
            engine.execute(&request("A", "B", 300)).unwrap();
        }
        let (ledger, a) = balance_of(engine.ledger, "A");
        let (ledger, b) = balance_of(ledger, "B");
        let (ledger, c) = balance_of(ledger, "C");
        let (_, d) = balance_of(ledger, "D");
        assert_eq!((a, b, c, d), (700, 300, 600, 400));
    }
}

#[test]
fn test_conservation_over_a_sequence() {
    let mut ledger = Ledger::new();
    ledger.credit("A", 900);
    ledger.credit("B", 100);
    let mut engine = TransferFunds::new(ledger);

    assert!(engine.execute(&request("A", "B", 250)).is_ok());
    assert!(engine.execute(&request("B", "C", 300)).is_ok());
    assert!(engine.execute(&request("C", "A", 50)).is_ok());
    assert!(engine.execute(&request("C", "A", 9999)).is_err());

    let (ledger, a) = balance_of(engine.ledger, "A");
    let (ledger, b) = balance_of(ledger, "B");
    let (_, c) = balance_of(ledger, "C");
    assert_eq!(a + b + c, 1000);
}

#[test]
fn test_concrete_scenario() {
    let mut ledger = Ledger::new();
    ledger.credit("A", 1000);
    let mut engine = TransferFunds::new(ledger);

    assert_eq!(engine.execute(&request("A", "B", 300)), Ok(()));
    let (ledger, a) = balance_of(engine.ledger, "A");
    let (ledger, b) = balance_of(ledger, "B");
    assert_eq!(a, 700);
    assert_eq!(b, 300);
    let query = GetTransferHistory::new(ledger);
    let history = query.execute("A").unwrap();
    assert_eq!(history.len(), 1);
    assert_eq!(history[0].from_address, "A");
    assert_eq!(history[0].to_address, "B");
    assert_eq!(history[0].amount, 300);

    let mut engine = TransferFunds::new(query.ledger);
    assert_eq!(engine.execute(&request("B", "A", 1000)), Err(TransferError::InsufficientBalance));
    let (ledger, a) = balance_of(engine.ledger, "A");
    let (ledger, b) = balance_of(ledger, "B");
    assert_eq!(a, 700);
    assert_eq!(b, 300);
    let history = GetTransferHistory::new(ledger).execute("A").unwrap();
    assert_eq!(history.len(), 1);
}

#[test]
fn test_credit_accumulates() {
    let mut ledger = Ledger::new();
    ledger.credit("A", 40);
    ledger.credit("A", 2);
    let (_, a) = balance_of(ledger, "A");
    assert_eq!(a, 42);
}
