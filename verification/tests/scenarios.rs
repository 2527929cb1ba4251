use toy_payments_engine::amount::deser_amount;
use toy_payments_engine::{
    Account, AccountSer, Engine, Error, Executed, Received, State, Transaction, Tx,
};

fn load(ty: Tx, client: u32, id: u32, amount: Option<u64>) -> Transaction {
    let mut tx = Transaction { id, ty: Some(ty), client, amount, ..Default::default() };
    tx.init(Box::new(Received)).expect("a record of the right shape");
    tx
}

fn deposit(client: u32, id: u32, amount: u64) -> Transaction {
    load(Tx::Deposit, client, id, Some(amount))
}

fn withdrawal(client: u32, id: u32, amount: u64) -> Transaction {
    load(Tx::Withdrawal, client, id, Some(amount))
}

fn dispute(client: u32, id: u32) -> Transaction {
    load(Tx::Dispute, client, id, None)
}

fn resolve(client: u32, id: u32) -> Transaction {
    load(Tx::Resolve, client, id, None)
}

fn chargeback(client: u32, id: u32) -> Transaction {
    load(Tx::Chargeback, client, id, None)
}

fn account(engine: &Engine, id: u32) -> Account {
    *engine.get_account(&id).expect("the client has an account")
}

fn stored(engine: &Engine, id: u32) -> Option<Transaction> {
    engine.transactions().find(|t| t.id == id).copied()
}

fn sorted_accounts(engine: &Engine) -> Vec<Account> {
    let mut all: Vec<Account> = engine.accounts().copied().collect();
    all.sort_by_key(|a| a.id);
    all
}

fn sorted_ids(engine: &Engine) -> Vec<u32> {
    let mut ids: Vec<u32> = engine.transactions().map(|t| t.id).collect();
    ids.sort();
    ids
}

#[test]
fn new_engine_is_empty() {
    let engine = Engine::new();
    assert_eq!(engine.accounts().len(), 0);
    assert_eq!(engine.transactions().len(), 0);
    assert!(engine.get_account(&1).is_none());
    assert!(engine.snapshot().is_empty());
    let other = Engine::default();
    assert_eq!(other.accounts().len(), 0);
}

#[test]
fn dispute_resolve_chargeback_scenario() {
    let mut engine = Engine::new();
    let amount = deser_amount("1.5").unwrap();
    assert_eq!(engine.process(deposit(1, 1, amount)), Ok(()));
    assert_eq!(engine.process(deposit(1, 2, amount)), Ok(()));
    assert_eq!(account(&engine, 1).total, 30_000);

    assert_eq!(engine.process(dispute(1, 1)), Ok(()));
    assert_eq!(account(&engine, 1).held, 15_000);
    assert_eq!(account(&engine, 1).available(), 15_000);

    assert_eq!(engine.process(resolve(1, 1)), Ok(()));
    assert_eq!(account(&engine, 1).held, 0);
    assert_eq!(account(&engine, 1).available(), 30_000);

    assert_eq!(engine.process(chargeback(1, 2)), Err(Error::IllegalTransition));
    assert_eq!(account(&engine, 1), Account { id: 1, total: 30_000, held: 0, locked: false });

    assert_eq!(engine.process(dispute(1, 2)), Ok(()));
    assert_eq!(engine.process(chargeback(1, 2)), Ok(()));
    assert_eq!(account(&engine, 1), Account { id: 1, total: 15_000, held: 0, locked: true });

    assert_eq!(engine.process(deposit(1, 3, amount)), Err(Error::LockedAccount));
    assert_eq!(account(&engine, 1), Account { id: 1, total: 15_000, held: 0, locked: true });
    assert_eq!(sorted_ids(&engine), vec![1, 2]);
}

#[test]
fn smallest_amount_scenario() {
    let mut engine = Engine::new();
    let one = deser_amount("0.0001");
    assert_eq!(one, Some(1));
    assert_eq!(engine.process(deposit(1, 5, one.unwrap())), Ok(()));
    assert_eq!(account(&engine, 1).total, 1);

    let nothing = deser_amount("0.00009");
    assert_eq!(nothing, Some(0));
    let mut tx = Transaction { id: 6, ty: Some(Tx::Deposit), client: 1, amount: nothing, ..Default::default() };
    assert_eq!(tx.init(Box::new(Received)), Err(Error::Validation));
    assert_eq!(engine.run(vec![tx]).len(), 1);
    assert_eq!(sorted_ids(&engine), vec![5]);
    assert_eq!(account(&engine, 1).total, 1);
}

#[test]
fn duplicate_id_scenario() {
    for other_client in [1, 2] {
        let mut engine = Engine::new();
        assert_eq!(engine.process(deposit(1, 9, 100_000)), Ok(()));
        assert_eq!(engine.process(deposit(other_client, 9, 200_000)), Err(Error::DuplicateId));
        assert_eq!(account(&engine, 1).total, 100_000);
        assert_eq!(engine.accounts().len(), 1);
        assert_eq!(stored(&engine, 9).unwrap().amount, Some(100_000));
        assert_eq!(stored(&engine, 9).unwrap().client, 1);
    }
}

#[test]
fn duplicate_id_across_kinds() {
    let mut engine = Engine::new();
    assert_eq!(engine.process(deposit(1, 9, 100)), Ok(()));
    assert_eq!(engine.process(withdrawal(1, 9, 10)), Err(Error::DuplicateId));
    assert_eq!(engine.process(withdrawal(1, 10, 10)), Ok(()));
    assert_eq!(engine.process(deposit(1, 10, 10)), Err(Error::DuplicateId));
    assert_eq!(account(&engine, 1).total, 90);
}

#[test]
fn deposits_add_up_by_client() {
    let mut engine = Engine::new();
    let records = vec![
        deposit(1, 1, 10),
        deposit(2, 2, 20),
        deposit(1, 3, 30),
        deposit(1, 1, 40),
        deposit(2, 3, 50),
        deposit(3, 4, 60),
        deposit(2, 5, 70),
    ];
    let rows = engine.run(records);
    assert_eq!(account(&engine, 1).total, 40);
    assert_eq!(account(&engine, 2).total, 90);
    assert_eq!(account(&engine, 3).total, 60);
    assert_eq!(rows.len(), 3);
    assert_eq!(sorted_ids(&engine), vec![1, 2, 3, 4, 5]);
}

#[test]
fn stored_transaction_is_executed() {
    let mut engine = Engine::new();
    engine.process(deposit(4, 1, 10)).unwrap();
    let tx = stored(&engine, 1).unwrap();
    assert_eq!(tx.state(), State::Executed);
    assert_eq!((tx.id, tx.ty, tx.client, tx.amount), (1, Some(Tx::Deposit), 4, Some(10)));
}

#[test]
fn record_that_cannot_reach_executed_is_declined() {
    let mut engine = Engine::new();
    let raw = Transaction { id: 1, ty: Some(Tx::Deposit), client: 1, amount: Some(5), ..Default::default() };
    assert_eq!(engine.process(raw), Err(Error::IllegalTransition));
    for state in [State::Disputed, State::Reverted, State::Undefined] {
        let odd = Transaction { state, ..raw };
        assert_eq!(engine.process(odd), Err(Error::IllegalTransition));
    }
    assert_eq!(engine.accounts().len(), 0);
    assert_eq!(engine.transactions().len(), 0);
    let mut executed = raw;
    executed.init(Box::new(Executed)).unwrap();
    assert_eq!(engine.process(executed), Ok(()));
    assert_eq!(account(&engine, 1).total, 5);
}

#[test]
fn record_without_type_or_amount_is_declined() {
    let mut engine = Engine::new();
    let mut untyped = Transaction { id: 1, ty: None, client: 1, amount: Some(5), ..Default::default() };
    untyped.init(Box::new(Received)).unwrap();
    assert_eq!(engine.process(untyped), Err(Error::Validation));
    let mut empty = Transaction { id: 1, ty: Some(Tx::Deposit), client: 1, amount: None, ..Default::default() };
    assert_eq!(empty.init(Box::new(Received)), Err(Error::Validation));
    assert_eq!(engine.process(empty), Err(Error::Validation));
    assert_eq!(engine.accounts().len(), 0);
    assert_eq!(engine.transactions().len(), 0);
}

#[test]
fn declined_withdrawal_leaves_no_trace() {
    let mut engine = Engine::new();
    assert_eq!(engine.process(withdrawal(1, 1, 5)), Err(Error::InsufficientFunds));
    assert!(engine.get_account(&1).is_none());
    assert_eq!(engine.transactions().len(), 0);

    engine.process(deposit(1, 2, 100)).unwrap();
    let before = sorted_accounts(&engine);
    assert_eq!(engine.process(withdrawal(1, 3, 101)), Err(Error::InsufficientFunds));
    assert_eq!(sorted_accounts(&engine), before);
    assert_eq!(sorted_ids(&engine), vec![2]);
    assert_eq!(engine.process(withdrawal(1, 3, 100)), Ok(()));
    assert_eq!(account(&engine, 1).total, 0);
}

#[test]
fn deposit_overflow_is_declined() {
    let mut engine = Engine::new();
    engine.process(deposit(1, 1, u64::MAX)).unwrap();
    assert_eq!(engine.process(deposit(1, 2, 1)), Err(Error::Overflow));
    assert_eq!(account(&engine, 1).total, u64::MAX);
    assert_eq!(sorted_ids(&engine), vec![1]);
    assert_eq!(engine.process(deposit(2, 2, 1)), Ok(()));
}

#[test]
fn dispute_on_unknown_id_fails() {
    let mut engine = Engine::new();
    engine.process(deposit(1, 1, 100)).unwrap();
    let before = sorted_accounts(&engine);
    assert_eq!(engine.process(dispute(1, 2)), Err(Error::NotFound));
    assert_eq!(engine.process(resolve(1, 2)), Err(Error::NotFound));
    assert_eq!(engine.process(chargeback(1, 2)), Err(Error::NotFound));
    assert_eq!(sorted_accounts(&engine), before);
    assert_eq!(stored(&engine, 1).unwrap().state(), State::Executed);
}

#[test]
fn dispute_on_withdrawal_fails() {
    let mut engine = Engine::new();
    engine.process(deposit(1, 1, 100)).unwrap();
    engine.process(withdrawal(1, 2, 40)).unwrap();
    let before = sorted_accounts(&engine);
    assert_eq!(engine.process(dispute(1, 2)), Err(Error::IllegalTransition));
    assert_eq!(engine.process(resolve(1, 2)), Err(Error::IllegalTransition));
    assert_eq!(engine.process(chargeback(1, 2)), Err(Error::IllegalTransition));
    assert_eq!(sorted_accounts(&engine), before);
    assert_eq!(stored(&engine, 2).unwrap().state(), State::Executed);
}

#[test]
fn event_of_another_client_fails() {
    let mut engine = Engine::new();
    engine.process(deposit(1, 1, 100)).unwrap();
    engine.process(deposit(2, 2, 100)).unwrap();
    let before = sorted_accounts(&engine);
    assert_eq!(engine.process(dispute(2, 1)), Err(Error::OwnershipMismatch));
    assert_eq!(engine.process(dispute(3, 1)), Err(Error::OwnershipMismatch));
    assert_eq!(sorted_accounts(&engine), before);
    assert_eq!(stored(&engine, 1).unwrap().state(), State::Executed);
    engine.process(dispute(1, 1)).unwrap();
    assert_eq!(engine.process(resolve(2, 1)), Err(Error::OwnershipMismatch));
    assert_eq!(engine.process(chargeback(2, 1)), Err(Error::OwnershipMismatch));
    assert_eq!(stored(&engine, 1).unwrap().state(), State::Disputed);
    assert_eq!(account(&engine, 1).held, 100);
}

#[test]
fn second_dispute_is_declined() {
    let mut engine = Engine::new();
    engine.process(deposit(1, 1, 100)).unwrap();
    assert_eq!(engine.process(dispute(1, 1)), Ok(()));
    assert_eq!(engine.process(dispute(1, 1)), Err(Error::IllegalTransition));
    assert_eq!(account(&engine, 1), Account { id: 1, total: 100, held: 100, locked: false });
}

#[test]
fn resolve_without_dispute_is_declined() {
    let mut engine = Engine::new();
    engine.process(deposit(1, 1, 100)).unwrap();
    engine.process(deposit(1, 2, 50)).unwrap();
    engine.process(dispute(1, 2)).unwrap();
    assert_eq!(engine.process(resolve(1, 1)), Err(Error::IllegalTransition));
    assert_eq!(account(&engine, 1), Account { id: 1, total: 150, held: 50, locked: false });
    assert_eq!(engine.process(resolve(1, 2)), Ok(()));
    assert_eq!(engine.process(resolve(1, 2)), Err(Error::IllegalTransition));
    assert_eq!(account(&engine, 1), Account { id: 1, total: 150, held: 0, locked: false });
}

#[test]
fn second_chargeback_changes_nothing() {
    let mut engine = Engine::new();
    engine.process(deposit(1, 1, 100)).unwrap();
    engine.process(deposit(1, 2, 50)).unwrap();
    engine.process(dispute(1, 1)).unwrap();
    assert_eq!(engine.process(chargeback(1, 1)), Ok(()));
    let before = sorted_accounts(&engine);
    assert_eq!(before, vec![Account { id: 1, total: 50, held: 0, locked: true }]);
    assert_eq!(engine.process(chargeback(1, 1)), Err(Error::IllegalTransition));
    assert_eq!(sorted_accounts(&engine), before);
    assert_eq!(stored(&engine, 1).unwrap().state(), State::Reverted);
    assert_eq!(engine.process(dispute(1, 1)), Err(Error::IllegalTransition));
    assert_eq!(engine.process(resolve(1, 1)), Err(Error::IllegalTransition));
}

#[test]
fn locked_account_declines_events_and_keeps_states() {
    let mut engine = Engine::new();
    engine.process(deposit(1, 1, 100)).unwrap();
    engine.process(deposit(1, 2, 50)).unwrap();
    engine.process(deposit(1, 3, 25)).unwrap();
    engine.process(dispute(1, 1)).unwrap();
    engine.process(dispute(1, 3)).unwrap();
    engine.process(chargeback(1, 1)).unwrap();
    let before = sorted_accounts(&engine);
    assert_eq!(engine.process(dispute(1, 2)), Err(Error::LockedAccount));
    assert_eq!(engine.process(resolve(1, 3)), Err(Error::LockedAccount));
    assert_eq!(engine.process(chargeback(1, 3)), Err(Error::LockedAccount));
    assert_eq!(engine.process(withdrawal(1, 4, 1)), Err(Error::LockedAccount));
    assert_eq!(sorted_accounts(&engine), before);
    assert_eq!(stored(&engine, 2).unwrap().state(), State::Executed);
    assert_eq!(stored(&engine, 3).unwrap().state(), State::Disputed);
    assert_eq!(sorted_ids(&engine), vec![1, 2, 3]);
}

#[test]
fn dispute_after_withdrawal_holds_more_than_is_owned() {
    let mut engine = Engine::new();
    engine.process(deposit(1, 1, 100)).unwrap();
    engine.process(withdrawal(1, 2, 80)).unwrap();
    assert_eq!(engine.process(dispute(1, 1)), Ok(()));
    assert_eq!(account(&engine, 1), Account { id: 1, total: 20, held: 100, locked: false });
    assert_eq!(account(&engine, 1).available(), 0);
    assert_eq!(engine.process(chargeback(1, 1)), Ok(()));
    assert_eq!(account(&engine, 1), Account { id: 1, total: 0, held: 0, locked: true });
}

#[test]
fn run_passes_over_what_is_declined() {
    let mut engine = Engine::new();
    let raw = |ty, client, id, amount| Transaction { id, ty: Some(ty), client, amount, ..Default::default() };
    let rows = engine.run(vec![
        raw(Tx::Deposit, 1, 1, Some(100)),
        raw(Tx::Deposit, 1, 2, Some(0)),
        raw(Tx::Deposit, 1, 3, None),
        raw(Tx::Withdrawal, 1, 4, Some(500)),
        raw(Tx::Withdrawal, 1, 5, Some(30)),
        raw(Tx::Dispute, 1, 1, Some(12)),
        raw(Tx::Deposit, 2, 6, Some(7)),
        raw(Tx::Dispute, 2, 9, None),
    ]);
    let mut rows = rows;
    rows.sort_by_key(|r| r.client);
    assert_eq!(
        rows,
        vec![
            AccountSer { client: 1, available: 0, held: 100, total: 70, locked: false },
            AccountSer { client: 2, available: 7, held: 0, total: 7, locked: false },
        ]
    );
    assert_eq!(sorted_ids(&engine), vec![1, 5, 6]);
}

#[test]
fn run_loads_each_record_anew() {
    let mut engine = Engine::new();
    let mut tx = Transaction { id: 1, ty: Some(Tx::Deposit), client: 1, amount: Some(5), ..Default::default() };
    tx.init(Box::new(Executed)).unwrap();
    let rows = engine.run(vec![tx]);
    assert_eq!(rows, vec![AccountSer { client: 1, available: 5, held: 0, total: 5, locked: false }]);
}

#[test]
fn snapshot_lists_each_account_once() {
    let mut engine = Engine::new();
    for client in 0..50u32 {
        engine.process(deposit(client, client, 10 + client as u64)).unwrap();
        engine.process(deposit(client, 1000 + client, 1)).unwrap();
    }
    let mut rows = engine.snapshot();
    rows.sort_by_key(|r| r.client);
    assert_eq!(rows.len(), 50);
    for (i, row) in rows.iter().enumerate() {
        let client = i as u32;
        assert_eq!(*row, AccountSer::from(account(&engine, client)));
        assert_eq!(row.total, 11 + client as u64);
    }
    assert_eq!(engine.accounts().len(), 50);
    assert_eq!(engine.transactions().len(), 100);
}
