use toy_txns::libs::client::{Client, ClientDB, ClientSummary};
use toy_txns::libs::transactions::{
    ProcessError, Transaction, TransactionDetails, TransactionKind, TransactionManager,
    TransactionState, TransactionStatus,
};
use toy_txns::AMOUNT_LIMIT;

const ONE: i128 = 100_000_000;

fn balances(client: &Client) -> (i128, i128, i128, bool) {
    (
        client.account.available(),
        client.account.held(),
        client.account.total(),
        client.account.locked(),
    )
}

fn record(action: &str, client: u16, id: u32, amount: Option<i128>) -> Option<TransactionDetails> {
    Some(TransactionDetails::new(action.to_string(), client, id, amount))
}

fn line(client: u16, available: i128, held: i128, total: i128, locked: bool) -> ClientSummary {
    ClientSummary { client, available, held, total, locked }
}

#[test]
fn new_client_has_nothing() {
    let client = Client::new(7);
    assert_eq!(client.id(), 7);
    assert_eq!(balances(&client), (0, 0, 0, false));
    assert_eq!(client.transaction_state(1), None);
    assert_eq!(client.summary(), line(7, 0, 0, 0, false));
}

#[test]
fn deposit_adds_to_available_and_total() {
    let mut client = Client::new(1);
    assert_eq!(client.deposit(10 * ONE, 1), TransactionStatus::Success);
    assert_eq!(balances(&client), (10 * ONE, 0, 10 * ONE, false));
    assert_eq!(client.transaction_state(1), Some(TransactionState::Cleared));
    assert_eq!(client.deposit(5 * ONE / 2, 2), TransactionStatus::Success);
    assert_eq!(balances(&client), (25 * ONE / 2, 0, 25 * ONE / 2, false));
}

#[test]
fn withdrawal_beyond_available_funds_is_refused() {
    let mut client = Client::new(1);
    assert_eq!(client.deposit(10 * ONE, 1), TransactionStatus::Success);
    assert_eq!(client.withdraw(20 * ONE, 2), TransactionStatus::InsufficientFunds);
    assert_eq!(balances(&client), (10 * ONE, 0, 10 * ONE, false));
    assert_eq!(client.transaction_state(2), None);
}

#[test]
fn withdrawal_within_available_funds() {
    let mut client = Client::new(1);
    client.deposit(10 * ONE, 1);
    assert_eq!(client.withdraw(4 * ONE, 2), TransactionStatus::Success);
    assert_eq!(balances(&client), (6 * ONE, 0, 6 * ONE, false));
    assert_eq!(client.transaction_state(2), Some(TransactionState::Cleared));
    assert_eq!(client.withdraw(6 * ONE, 3), TransactionStatus::Success);
    assert_eq!(balances(&client), (0, 0, 0, false));
}

#[test]
fn dispute_then_resolve_restores_balances() {
    let mut client = Client::new(1);
    client.deposit(50 * ONE, 1);
    assert_eq!(client.dispute(1), TransactionStatus::Success);
    assert_eq!(balances(&client), (0, 50 * ONE, 50 * ONE, false));
    assert_eq!(client.transaction_state(1), Some(TransactionState::Disputed));
    assert_eq!(client.resolve(1), TransactionStatus::Success);
    assert_eq!(balances(&client), (50 * ONE, 0, 50 * ONE, false));
    assert_eq!(client.transaction_state(1), Some(TransactionState::Resolved));
}

#[test]
fn dispute_then_chargeback_locks_the_account() {
    let mut client = Client::new(1);
    client.deposit(50 * ONE, 1);
    assert_eq!(client.dispute(1), TransactionStatus::Success);
    assert_eq!(client.chargeback(1), TransactionStatus::Success);
    assert_eq!(balances(&client), (0, 0, 0, true));
    assert_eq!(client.transaction_state(1), Some(TransactionState::ChargedBack));
    assert_eq!(client.deposit(5 * ONE, 2), TransactionStatus::AccountLockedTransactionBlocked);
    assert_eq!(client.withdraw(ONE, 3), TransactionStatus::AccountLockedTransactionBlocked);
    assert_eq!(balances(&client), (0, 0, 0, true));
    assert_eq!(client.transaction_state(2), None);
    assert_eq!(client.dispute(1), TransactionStatus::AccountLockedTransactionBlocked);
    assert_eq!(client.resolve(1), TransactionStatus::AccountLockedTransactionBlocked);
    assert_eq!(client.chargeback(1), TransactionStatus::AccountLockedTransactionBlocked);
    assert_eq!(client.transaction_state(1), Some(TransactionState::ChargedBack));
}

#[test]
fn dispute_without_cover_locks_the_account() {
    let mut client = Client::new(1);
    client.deposit(50 * ONE, 1);
    assert_eq!(client.withdraw(40 * ONE, 2), TransactionStatus::Success);
    assert_eq!(balances(&client), (10 * ONE, 0, 10 * ONE, false));
    assert_eq!(client.dispute(1), TransactionStatus::InsufficientFundsForDispute);
    assert_eq!(balances(&client), (10 * ONE, 0, 10 * ONE, true));
    assert_eq!(client.transaction_state(1), Some(TransactionState::AttemptedDispute));
}

#[test]
fn dispute_of_unknown_transaction() {
    let mut client = Client::new(1);
    client.deposit(50 * ONE, 1);
    assert_eq!(client.dispute(9), TransactionStatus::NoTransactionToDispute);
    assert_eq!(balances(&client), (50 * ONE, 0, 50 * ONE, false));
    assert_eq!(client.transaction_state(9), None);
}

#[test]
fn resolve_and_chargeback_need_a_dispute() {
    let mut client = Client::new(1);
    client.deposit(50 * ONE, 1);
    assert_eq!(client.resolve(1), TransactionStatus::NoDisputeToResolve);
    assert_eq!(client.chargeback(1), TransactionStatus::NoDisputeToChargeBack);
    assert_eq!(client.resolve(2), TransactionStatus::NoDisputeToResolve);
    assert_eq!(client.chargeback(2), TransactionStatus::NoDisputeToChargeBack);
    assert_eq!(balances(&client), (50 * ONE, 0, 50 * ONE, false));
    assert_eq!(client.transaction_state(1), Some(TransactionState::Cleared));
    client.dispute(1);
    client.resolve(1);
    assert_eq!(client.resolve(1), TransactionStatus::NoDisputeToResolve);
    assert_eq!(client.chargeback(1), TransactionStatus::NoDisputeToChargeBack);
    assert_eq!(balances(&client), (50 * ONE, 0, 50 * ONE, false));
}

#[test]
fn total_is_available_plus_held_after_each_step() {
    let mut client = Client::new(3);
    let check = |c: &Client| {
        assert_eq!(c.account.total(), c.account.available() + c.account.held());
    };
    client.deposit(30 * ONE, 1);
    check(&client);
    client.deposit(20 * ONE, 2);
    check(&client);
    client.dispute(1);
    check(&client);
    assert_eq!(balances(&client), (20 * ONE, 30 * ONE, 50 * ONE, false));
    client.withdraw(5 * ONE, 3);
    check(&client);
    client.dispute(2);
    check(&client);
    assert_eq!(balances(&client), (15 * ONE, 30 * ONE, 45 * ONE, true));
    client.chargeback(1);
    check(&client);
    assert_eq!(balances(&client), (15 * ONE, 30 * ONE, 45 * ONE, true));
}

#[test]
fn deposit_under_a_used_id_replaces_the_record() {
    let mut client = Client::new(1);
    client.deposit(50 * ONE, 1);
    client.deposit(20 * ONE, 1);
    assert_eq!(client.dispute(1), TransactionStatus::Success);
    assert_eq!(balances(&client), (50 * ONE, 20 * ONE, 70 * ONE, false));
}

#[test]
fn admits_tell_when_a_balance_would_leave_the_limit() {
    let mut client = Client::new(1);
    assert!(client.admits_deposit(AMOUNT_LIMIT, 1));
    assert!(!client.admits_deposit(AMOUNT_LIMIT + 1, 1));
    assert!(!client.admits_deposit(i128::MAX, 1));
    assert!(!client.admits_deposit(i128::MIN, 1));
    client.deposit(AMOUNT_LIMIT, 1);
    assert!(client.admits_deposit(0, 2));
    assert!(!client.admits_deposit(1, 2));
    assert!(client.admits_withdraw(AMOUNT_LIMIT, 2));
    assert!(client.admits_withdraw(AMOUNT_LIMIT + 1, 2));
    assert!(!client.admits_withdraw(i128::MIN, 2));
    assert!(client.admits_dispute(1));
    assert!(client.admits_dispute(5));
    assert!(client.admits_resolve(1));
    assert!(client.admits_chargeback(1));
}

#[test]
fn kinds_by_name() {
    let kind = |name: &str| {
        TransactionDetails::new(name.to_string(), 1, 1, None).register().transaction_kind()
    };
    assert_eq!(kind("deposit"), TransactionKind::Deposit);
    assert_eq!(kind("withdrawal"), TransactionKind::Withdrawal);
    assert_eq!(kind("dispute"), TransactionKind::Dispute);
    assert_eq!(kind("resolve"), TransactionKind::Resolve);
    assert_eq!(kind("chargeback"), TransactionKind::Chargeback);
    assert_eq!(kind("refund"), TransactionKind::Unknown);
    assert_eq!(kind("Deposit"), TransactionKind::Unknown);
    assert_eq!(kind(""), TransactionKind::Unknown);
}

#[test]
fn details_keep_their_fields() {
    let details = TransactionDetails::new("deposit".to_string(), 4, 9, Some(ONE));
    assert_eq!(details.client(), 4);
    assert_eq!(details.id(), 9);
    assert_eq!(details.amount, Some(ONE));
    let txn = Transaction::new(details);
    assert_eq!(txn.client(), 4);
}

#[test]
fn dispatcher_applies_each_kind() {
    let mut client = Client::new(1);
    let apply = |c: &mut Client, action: &str, id: u32, amount: Option<i128>| {
        let txn = TransactionDetails::new(action.to_string(), 1, id, amount).register();
        assert!(txn.admitted_by(c));
        txn.update_client(c)
    };
    assert_eq!(apply(&mut client, "deposit", 1, Some(50 * ONE)), TransactionStatus::Success);
    assert_eq!(apply(&mut client, "withdrawal", 2, Some(10 * ONE)), TransactionStatus::Success);
    assert_eq!(
        apply(&mut client, "withdrawal", 3, Some(100 * ONE)),
        TransactionStatus::InsufficientFunds
    );
    assert_eq!(apply(&mut client, "transfer", 4, Some(ONE)), TransactionStatus::InvalidTransaction);
    assert_eq!(balances(&client), (40 * ONE, 0, 40 * ONE, false));
    assert_eq!(apply(&mut client, "dispute", 2, Some(99 * ONE)), TransactionStatus::Success);
    assert_eq!(balances(&client), (30 * ONE, 10 * ONE, 40 * ONE, false));
    assert_eq!(apply(&mut client, "resolve", 2, None), TransactionStatus::Success);
    assert_eq!(balances(&client), (40 * ONE, 0, 40 * ONE, false));
    assert_eq!(apply(&mut client, "dispute", 2, None), TransactionStatus::Success);
    assert_eq!(apply(&mut client, "chargeback", 2, None), TransactionStatus::Success);
    assert_eq!(balances(&client), (30 * ONE, 0, 30 * ONE, true));
    assert_eq!(
        apply(&mut client, "deposit", 5, Some(ONE)),
        TransactionStatus::AccountLockedTransactionBlocked
    );
    assert_eq!(
        apply(&mut client, "transfer", 6, None),
        TransactionStatus::AccountLockedTransactionBlocked
    );
    assert_eq!(balances(&client), (30 * ONE, 0, 30 * ONE, true));
}

#[test]
fn missing_amount_counts_as_zero() {
    let mut client = Client::new(1);
    let deposit = TransactionDetails::new("deposit".to_string(), 1, 1, None).register();
    assert_eq!(deposit.update_client(&mut client), TransactionStatus::Success);
    assert_eq!(balances(&client), (0, 0, 0, false));
    assert_eq!(client.transaction_state(1), Some(TransactionState::Cleared));
    let withdrawal = TransactionDetails::new("withdrawal".to_string(), 1, 2, None).register();
    assert_eq!(withdrawal.update_client(&mut client), TransactionStatus::Success);
    assert_eq!(client.transaction_state(2), Some(TransactionState::Cleared));
}

#[test]
fn registry_creates_clients_on_first_fetch() {
    let mut db = ClientDB::new();
    assert_eq!(db.records(), 0);
    let account = db.fetch(5);
    assert_eq!(account.total(), 0);
    assert_eq!(db.records(), 1);
    let txn = TransactionDetails::new("deposit".to_string(), 5, 1, Some(3 * ONE)).register();
    assert_eq!(db.update(&txn), Some(TransactionStatus::Success));
    assert_eq!(db.records(), 1);
    let account = db.fetch(5);
    assert_eq!(account.available(), 3 * ONE);
    assert_eq!(db.records(), 1);
    db.fetch(6);
    assert_eq!(db.records(), 2);
}

#[test]
fn registry_refuses_what_leaves_the_limit() {
    let mut db = ClientDB::new();
    let big = TransactionDetails::new("deposit".to_string(), 2, 1, Some(AMOUNT_LIMIT)).register();
    assert_eq!(db.update(&big), Some(TransactionStatus::Success));
    let more = TransactionDetails::new("deposit".to_string(), 2, 2, Some(1)).register();
    assert_eq!(db.update(&more), None);
    let other = TransactionDetails::new("deposit".to_string(), 3, 3, Some(i128::MAX)).register();
    assert_eq!(db.update(&other), None);
    assert_eq!(
        db.snapshot(),
        vec![line(2, AMOUNT_LIMIT, 0, AMOUNT_LIMIT, false), line(3, 0, 0, 0, false)]
    );
}

#[test]
fn snapshot_is_ascending_by_client_id() {
    let mut db = ClientDB::new();
    for (client, id) in [(300u16, 1u32), (2, 2), (65535, 3), (0, 4), (17, 5)] {
        let txn = TransactionDetails::new("deposit".to_string(), client, id, Some(ONE)).register();
        assert_eq!(db.update(&txn), Some(TransactionStatus::Success));
    }
    let ids: Vec<u16> = db.snapshot().iter().map(|l| l.client).collect();
    assert_eq!(ids, vec![0, 2, 17, 300, 65535]);
}

#[test]
fn run_reports_every_client_in_order() {
    let records = vec![
        record("deposit", 2, 1, Some(2 * ONE)),
        record("deposit", 1, 2, Some(ONE)),
        None,
        record("deposit", 1, 3, Some(2 * ONE)),
        record("withdrawal", 1, 4, Some(3 * ONE / 2)),
        record("withdrawal", 2, 5, Some(3 * ONE)),
        record("dispute", 2, 1, None),
        record("bogus", 9, 6, None),
    ];
    let report = TransactionManager::process(records).unwrap();
    assert_eq!(
        report,
        vec![
            line(1, 3 * ONE / 2, 0, 3 * ONE / 2, false),
            line(2, 0, 2 * ONE, 2 * ONE, false),
            line(9, 0, 0, 0, false),
        ]
    );
}

#[test]
fn run_rounds_the_report() {
    let records = vec![
        record("deposit", 1, 1, Some(823_456_000)),
        record("deposit", 2, 2, Some(823_454_000)),
    ];
    let report = TransactionManager::process(records).unwrap();
    assert_eq!(
        report,
        vec![
            line(1, 823_460_000, 0, 823_460_000, false),
            line(2, 823_450_000, 0, 823_450_000, false)
        ]
    );
}

#[test]
fn run_with_chargeback_blocks_what_follows() {
    let records = vec![
        record("deposit", 1, 1, Some(50 * ONE)),
        record("deposit", 1, 2, Some(10 * ONE)),
        record("dispute", 1, 1, None),
        record("chargeback", 1, 1, None),
        record("deposit", 1, 3, Some(5 * ONE)),
        record("resolve", 1, 1, None),
    ];
    let report = TransactionManager::process(records).unwrap();
    assert_eq!(report, vec![line(1, 10 * ONE, 0, 10 * ONE, true)]);
}

#[test]
fn run_without_records_processes_nothing() {
    assert_eq!(TransactionManager::process(Vec::new()), Err(ProcessError::NothingProcessed));
    assert_eq!(
        TransactionManager::process(vec![None, None, None]),
        Err(ProcessError::NothingProcessed)
    );
}

#[test]
fn run_with_only_failing_transactions_still_reports() {
    let records = vec![record("withdrawal", 4, 1, Some(ONE)), record("resolve", 4, 1, None)];
    assert_eq!(TransactionManager::process(records), Ok(vec![line(4, 0, 0, 0, false)]));
}

#[test]
fn run_stops_where_a_balance_leaves_the_limit() {
    let records = vec![
        record("deposit", 1, 1, Some(AMOUNT_LIMIT)),
        record("deposit", 1, 2, Some(1)),
        record("deposit", 2, 3, Some(1)),
    ];
    assert_eq!(TransactionManager::process(records), Err(ProcessError::BalanceOutOfRange));
}

#[test]
fn process_error_messages() {
    assert_eq!(ProcessError::NothingProcessed.message(), "Nothing Processed");
    assert_eq!(ProcessError::BalanceOutOfRange.message(), "Balance out of range");
}

#[test]
fn client_line_as_text() {
    let mut client = Client::new(12);
    client.deposit(150_000_000, 1);
    assert_eq!(client.to_string(), "12,1.5,0,1.5,false");
    client.deposit(823_456_000, 2);
    assert_eq!(client.to_string(), "12,9.7346,0,9.7346,false");
    client.dispute(2);
    assert_eq!(client.to_string(), "12,1.5,8.2346,9.7346,false");
    client.chargeback(2);
    assert_eq!(client.to_string(), "12,1.5,0,1.5,true");
}

#[test]
fn client_info_shows_unrounded_balances() {
    let mut client = Client::new(3);
    client.deposit(823_456_789, 1);
    client.dispute(1);
    assert_eq!(client.info(), "3 | Avail: 0 | Held: 8.23456789 | Total: 8.23456789 | Locked: false");
    let mut debtor = Client::new(4);
    debtor.deposit(-50_000_000, 1);
    assert_eq!(debtor.info(), "4 | Avail: -0.5 | Held: 0 | Total: -0.5 | Locked: false");
}

#[test]
fn dump_lists_clients_under_the_header() {
    let mut db = ClientDB::new();
    assert_eq!(db.dump(), "client,available,held,total,locked");
    for (client, id, amount) in [(2u16, 1u32, 2 * ONE), (1, 2, 100_050_000), (1, 3, 1_000 * ONE)] {
        let txn = TransactionDetails::new("deposit".to_string(), client, id, Some(amount)).register();
        assert_eq!(db.update(&txn), Some(TransactionStatus::Success));
    }
    assert_eq!(
        db.dump(),
        "client,available,held,total,locked\n1,1001.0005,0,1001.0005,false\n2,2,0,2,false"
    );
}

#[test]
fn amounts_as_text() {
    let text = |v: i128| {
        let mut out = String::new();
        toy_txns::libs::report::push_amount(&mut out, v);
        out
    };
    assert_eq!(text(0), "0");
    assert_eq!(text(1), "0.00000001");
    assert_eq!(text(-1), "-0.00000001");
    assert_eq!(text(10), "0.0000001");
    assert_eq!(text(100_000_000), "1");
    assert_eq!(text(120_300_000), "1.203");
    assert_eq!(text(-4_200_000_000), "-42");
    assert_eq!(text(1_234_567_890_123), "12345.67890123");
    assert_eq!(text(i128::MIN), "-1701411834604692317316873037158.84105728");
    assert_eq!(text(i128::MAX), "1701411834604692317316873037158.84105727");
}

#[test]
fn run_as_text() {
    let records = vec![
        record("deposit", 1, 1, Some(ONE)),
        record("deposit", 2, 2, Some(2 * ONE)),
        record("deposit", 1, 3, Some(2 * ONE)),
        record("withdrawal", 1, 4, Some(3 * ONE / 2)),
        record("withdrawal", 2, 5, Some(3 * ONE)),
    ];
    assert_eq!(
        TransactionManager::process_records(records).unwrap(),
        "client,available,held,total,locked\n1,1.5,0,1.5,false\n2,2,0,2,false"
    );
    assert_eq!(
        TransactionManager::process_records(vec![None]),
        Err(ProcessError::NothingProcessed)
    );
}

#[test]
fn registry_hands_out_its_clients() {
    let mut db = ClientDB::new();
    assert!(db.client(8).is_none());
    let txn = TransactionDetails::new("deposit".to_string(), 8, 1, Some(7 * ONE)).register();
    assert_eq!(db.update(&txn), Some(TransactionStatus::Success));
    let client = db.client(8).unwrap();
    assert_eq!(client.id(), 8);
    assert_eq!(balances(client), (7 * ONE, 0, 7 * ONE, false));
    assert_eq!(client.account().total(), 7 * ONE);
    assert_eq!(client.transaction_state(1), Some(TransactionState::Cleared));
    assert!(db.client(9).is_none());
}
