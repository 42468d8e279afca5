use crate::libs::client::{
    client_or_new, registry_wf, summaries_below, Client, ClientDB, ClientState, ClientSummary,
};
use crate::libs::report::{render, report_text};
use vstd::prelude::*;

verus! {

/// Where a recorded deposit or withdrawal stands in the dispute lifecycle.
#[derive(Debug, Clone, Copy, PartialEq, Eq, Structural)]
pub enum TransactionState {
    Cleared,
    Disputed,
    AttemptedDispute,
    Resolved,
    ChargedBack,
    Unknown,
}

/// Outcome of applying one transaction to a client.
#[derive(Debug, Clone, Copy, PartialEq, Eq, Structural)]
pub enum TransactionStatus {
    AccountLockedTransactionBlocked,
    InsufficientFunds,
    InsufficientFundsForDispute,
    InvalidTransaction,
    NoDisputeToChargeBack,
    NoDisputeToResolve,
    NoTransactionToDispute,
    Success,
}

/// What a transaction asks for.
#[derive(Debug, Clone, Copy, PartialEq, Eq, Structural)]
pub enum TransactionKind {
    Deposit,
    Withdrawal,
    Dispute,
    Resolve,
    Chargeback,
    Unknown,
}

/// The kind that the word `action` names; any other word is `Unknown`.
pub open spec fn kind_of(action: Seq<char>) -> TransactionKind {
    if action == "deposit"@ {
        TransactionKind::Deposit
    } else if action == "withdrawal"@ {
        TransactionKind::Withdrawal
    } else if action == "dispute"@ {
        TransactionKind::Dispute
    } else if action == "resolve"@ {
        TransactionKind::Resolve
    } else if action == "chargeback"@ {
        TransactionKind::Chargeback
    } else {
        TransactionKind::Unknown
    }
}

/// The amount a deposit or withdrawal moves: nothing where none was given.
pub open spec fn amount_or_zero(amount: Option<i128>) -> i128 {
    match amount {
        Some(a) => a,
        None => 0,
    }
}

/// The client after a transaction of `kind` with `amount` under `id`.
pub open spec fn applied(
    client: ClientState,
    kind: TransactionKind,
    amount: Option<i128>,
    id: u32,
) -> ClientState {
    match kind {
        TransactionKind::Deposit => client.deposit(amount_or_zero(amount), id),
        TransactionKind::Withdrawal => client.withdraw(amount_or_zero(amount), id),
        TransactionKind::Dispute => client.dispute(id),
        TransactionKind::Resolve => client.resolve(id),
        TransactionKind::Chargeback => client.chargeback(id),
        TransactionKind::Unknown => client,
    }
}

/// The status that a transaction of `kind` with `amount` under `id` gets.
pub open spec fn status_of(
    client: ClientState,
    kind: TransactionKind,
    amount: Option<i128>,
    id: u32,
) -> TransactionStatus {
    if client.account.locked {
        TransactionStatus::AccountLockedTransactionBlocked
    } else {
        match kind {
            TransactionKind::Deposit => client.deposit_status(amount_or_zero(amount), id),
            TransactionKind::Withdrawal => client.withdraw_status(amount_or_zero(amount), id),
            TransactionKind::Dispute => client.dispute_status(id),
            TransactionKind::Resolve => client.resolve_status(id),
            TransactionKind::Chargeback => client.chargeback_status(id),
            TransactionKind::Unknown => TransactionStatus::InvalidTransaction,
        }
    }
}

/// One transaction as a client sees it: its kind, its amount and its id.
pub struct ClientOp {
    pub kind: TransactionKind,
    pub amount: Option<i128>,
    pub id: u32,
}

/// The client after the transactions `ops`, applied in order.
pub open spec fn applied_all(client: ClientState, ops: Seq<ClientOp>) -> ClientState
    decreases ops.len(),
{
    if ops.len() == 0 {
        client
    } else {
        let op = ops.last();
        applied(applied_all(client, ops.drop_last()), op.kind, op.amount, op.id)
    }
}

/// A transaction of any kind keeps the total equal to available plus held.
pub proof fn lemma_applied_keeps_balance(
    client: ClientState,
    kind: TransactionKind,
    amount: Option<i128>,
    id: u32,
)
    requires
        client.account.balanced(),
    ensures
        applied(client, kind, amount, id).account.balanced(),
{
}

/// After every step of any sequence of transactions on a client, the total
/// is the sum of what is available and what is held.
pub proof fn lemma_total_is_available_plus_held(client: ClientState, ops: Seq<ClientOp>)
    requires
        client.account.balanced(),
    ensures
        forall|n: int|
            0 <= n <= ops.len() ==> (#[trigger] applied_all(client, ops.take(n))).account.balanced(),
        applied_all(client, ops).account.balanced(),
    decreases ops.len(),
{
    if ops.len() > 0 {
        let front = ops.drop_last();
        lemma_total_is_available_plus_held(client, front);
        assert(front.take(front.len() as int) =~= front);
        let op = ops.last();
        lemma_applied_keeps_balance(applied_all(client, front), op.kind, op.amount, op.id);
        assert forall|n: int| 0 <= n <= ops.len() implies (#[trigger] applied_all(
            client,
            ops.take(n),
        )).account.balanced() by {
            if n < ops.len() {
                assert(ops.take(n) =~= front.take(n));
            } else {
                assert(ops.take(n) =~= ops);
            }
        }
    } else {
        assert forall|n: int| 0 <= n <= ops.len() implies (#[trigger] applied_all(
            client,
            ops.take(n),
        )).account.balanced() by {
            assert(ops.take(n) =~= ops);
        }
    }
}

/// A locked account is closed to every transaction: whatever is applied,
/// the client stays as it is, and each attempt is reported as blocked.
pub proof fn lemma_locked_account_is_final(client: ClientState, ops: Seq<ClientOp>)
    requires
        client.account.locked,
    ensures
        applied_all(client, ops) == client,
        forall|kind: TransactionKind, amount: Option<i128>, id: u32|
            #[trigger] status_of(client, kind, amount, id)
                == TransactionStatus::AccountLockedTransactionBlocked,
    decreases ops.len(),
{
    if ops.len() > 0 {
        lemma_locked_account_is_final(client, ops.drop_last());
    }
}

/// No transaction unlocks an account.
pub proof fn lemma_lock_is_kept(
    client: ClientState,
    kind: TransactionKind,
    amount: Option<i128>,
    id: u32,
)
    requires
        client.account.locked,
    ensures
        applied(client, kind, amount, id).account.locked,
{
}

/// A transaction that does not succeed leaves the balances as they are.
pub proof fn lemma_failure_moves_nothing(
    client: ClientState,
    kind: TransactionKind,
    amount: Option<i128>,
    id: u32,
)
    requires
        status_of(client, kind, amount, id) != TransactionStatus::Success,
    ensures
        ({
            let after = applied(client, kind, amount, id).account;
            &&& after.available == client.account.available
            &&& after.held == client.account.held
            &&& after.total == client.account.total
        }),
{
}

/// The mathematical value of a [`TransactionDetails`].
pub struct DetailsView {
    pub action: Seq<char>,
    pub client: u16,
    pub id: u32,
    pub amount: Option<i128>,
}

impl DetailsView {
    /// The kind of transaction that the record asks for.
    pub open spec fn kind(self) -> TransactionKind {
        kind_of(self.action)
    }

    /// The client after this record was applied to it.
    pub open spec fn applied_to(self, client: ClientState) -> ClientState {
        applied(client, self.kind(), self.amount, self.id)
    }

    /// The status that applying this record to `client` gets.
    pub open spec fn status_on(self, client: ClientState) -> TransactionStatus {
        status_of(client, self.kind(), self.amount, self.id)
    }
}

/// One decoded record: the action's name, the client, the transaction id
/// and, for deposits and withdrawals, the amount in units of `10^-8`.
#[derive(Debug)]
pub struct TransactionDetails {
    action: String,
    client: u16,
    id: u32,
    pub amount: Option<i128>,
}

impl View for TransactionDetails {
    type V = DetailsView;

    closed spec fn view(&self) -> DetailsView {
        DetailsView { action: self.action@, client: self.client, id: self.id, amount: self.amount }
    }
}

/// Whether `action` is the word `word`.
fn is_word(action: &String, word: &str) -> (same: bool)
    ensures
        same == (action@ == word@),
{
    let owned = word.to_owned();
    *action == owned
}

impl TransactionDetails {
    /// A record of the given fields.
    pub fn new(action: String, client: u16, id: u32, amount: Option<i128>) -> (details:
        TransactionDetails)
        ensures
            details@ == (DetailsView { action: action@, client, id, amount }),
    {
        TransactionDetails { action, client, id, amount }
    }

    /// The client that the record is about.
    pub fn client(&self) -> (client: u16)
        ensures
            client == self@.client,
    {
        self.client
    }

    /// The transaction id that the record carries.
    pub fn id(&self) -> (id: u32)
        ensures
            id == self@.id,
    {
        self.id
    }

    /// Transform the record into a transaction of one of the known kinds.
    pub fn register(self) -> (txn: Transaction)
        ensures
            txn.details() == self@,
            txn.kind() == self@.kind(),
    {
        Transaction::new(self)
    }
}

/// A record together with the kind of transaction it asks for.
pub struct Transaction {
    details: TransactionDetails,
    state: TransactionKind,
}

impl Transaction {
    /// The record that the transaction was made from.
    pub closed spec fn details(&self) -> DetailsView {
        self.details@
    }

    /// The kind that decides how the transaction is applied.
    pub closed spec fn kind(&self) -> TransactionKind {
        self.state
    }

    /// The client after this transaction was applied to it.
    pub open spec fn applied_to(&self, client: ClientState) -> ClientState {
        applied(client, self.kind(), self.details().amount, self.details().id)
    }

    /// The status that applying this transaction to `client` gets.
    pub open spec fn status_on(&self, client: ClientState) -> TransactionStatus {
        status_of(client, self.kind(), self.details().amount, self.details().id)
    }

    /// Applying a transaction leaves the client's id as it is.
    pub proof fn lemma_keeps_id(&self, client: ClientState)
        ensures
            self.applied_to(client).id == client.id,
    {
    }

    /// Maps the action's name to the kind of transaction.
    pub fn new(details: TransactionDetails) -> (txn: Transaction)
        ensures
            txn.details() == details@,
            txn.kind() == details@.kind(),
    {
        let state = if is_word(&details.action, "deposit") {
            TransactionKind::Deposit
        } else if is_word(&details.action, "withdrawal") {
            TransactionKind::Withdrawal
        } else if is_word(&details.action, "dispute") {
            TransactionKind::Dispute
        } else if is_word(&details.action, "resolve") {
            TransactionKind::Resolve
        } else if is_word(&details.action, "chargeback") {
            TransactionKind::Chargeback
        } else {
            TransactionKind::Unknown
        };
        Transaction { details, state }
    }

    /// The kind of the transaction.
    pub fn transaction_kind(&self) -> (kind: TransactionKind)
        ensures
            kind == self.kind(),
    {
        self.state
    }

    /// The client that the transaction is about.
    pub fn client(&self) -> (client: u16)
        ensures
            client == self.details().client,
    {
        self.details.client
    }

    /// Whether applying the transaction keeps the client's balances within
    /// the limit.
    pub fn admitted_by(&self, client: &Client) -> (fits: bool)
        requires
            client.wf(),
        ensures
            fits == self.applied_to(client@).account.in_range(),
    {
        match self.state {
            TransactionKind::Deposit => client.admits_deposit(
                amount_of(self.details.amount),
                self.details.id,
            ),
            TransactionKind::Withdrawal => client.admits_withdraw(
                amount_of(self.details.amount),
                self.details.id,
            ),
            TransactionKind::Dispute => client.admits_dispute(self.details.id),
            TransactionKind::Resolve => client.admits_resolve(self.details.id),
            TransactionKind::Chargeback => client.admits_chargeback(self.details.id),
            TransactionKind::Unknown => true,
        }
    }

    /// Updates the client according to the rules for the kind of the
    /// transaction. A locked account blocks every kind.
    pub fn update_client(&self, client: &mut Client) -> (status: TransactionStatus)
        requires
            old(client).wf(),
            self.applied_to(old(client)@).account.in_range(),
        ensures
            final(client)@ == self.applied_to(old(client)@),
            status == self.status_on(old(client)@),
            final(client).wf(),
    {
        if client.locked() {
            return TransactionStatus::AccountLockedTransactionBlocked;
        }
        match self.state {
            TransactionKind::Deposit => client.deposit(
                amount_of(self.details.amount),
                self.details.id,
            ),
            TransactionKind::Withdrawal => client.withdraw(
                amount_of(self.details.amount),
                self.details.id,
            ),
            TransactionKind::Dispute => client.dispute(self.details.id),
            TransactionKind::Resolve => client.resolve(self.details.id),
            TransactionKind::Chargeback => client.chargeback(self.details.id),
            TransactionKind::Unknown => TransactionStatus::InvalidTransaction,
        }
    }
}

/// The amount of a deposit or withdrawal: zero where the record has none.
fn amount_of(amount: Option<i128>) -> (a: i128)
    ensures
        a == amount_or_zero(amount),
{
    match amount {
        Some(a) => a,
        None => 0,
    }
}

/// Why a run gave no report.
#[derive(Debug, Clone, Copy, PartialEq, Eq, Structural)]
pub enum ProcessError {
    /// No record was decoded, so no client was ever created.
    NothingProcessed,
    /// A transaction would have taken a balance beyond the limit.
    BalanceOutOfRange,
}

impl ProcessError {
    /// The words that the error is reported with.
    pub fn message(&self) -> (text: String)
        ensures
            text@ == (match self {
                ProcessError::NothingProcessed => "Nothing Processed"@,
                ProcessError::BalanceOutOfRange => "Balance out of range"@,
            }),
    {
        match self {
            ProcessError::NothingProcessed => "Nothing Processed".to_owned(),
            ProcessError::BalanceOutOfRange => "Balance out of range".to_owned(),
        }
    }
}

/// The records as the rules see them; a line that did not decode is `None`.
pub open spec fn record_views(records: Seq<Option<TransactionDetails>>) -> Seq<
    Option<DetailsView>,
> {
    Seq::new(
        records.len(),
        |i: int|
            match records[i] {
                Some(details) => Some(details@),
                None => None,
            },
    )
}

/// The clients after one more line: an undecoded line changes nothing, a
/// record is applied to the client it names, which is created where it is
/// missing. There is no result where a balance would leave the limit.
pub open spec fn replay_one(clients: Map<u16, ClientState>, record: Option<DetailsView>) -> Option<
    Map<u16, ClientState>,
> {
    match record {
        None => Some(clients),
        Some(details) => {
            let after = details.applied_to(client_or_new(clients, details.client));
            if after.account.in_range() {
                Some(clients.insert(details.client, after))
            } else {
                None
            }
        },
    }
}

/// The clients after all of `records`, applied in order to an empty
/// registry.
pub open spec fn replay(records: Seq<Option<DetailsView>>) -> Option<Map<u16, ClientState>>
    decreases records.len(),
{
    if records.len() == 0 {
        Some(Map::empty())
    } else {
        match replay(records.drop_last()) {
            None => None,
            Some(clients) => replay_one(clients, records.last()),
        }
    }
}

/// Once a balance has left the limit, no later record brings the run back.
pub proof fn lemma_replay_stays_failed(records: Seq<Option<DetailsView>>, n: int)
    requires
        0 <= n <= records.len(),
        replay(records.take(n)).is_none(),
    ensures
        replay(records).is_none(),
    decreases records.len() - n,
{
    if n < records.len() {
        assert(records.take(n + 1).drop_last() =~= records.take(n));
        lemma_replay_stays_failed(records, n + 1);
    } else {
        assert(records.take(n) =~= records);
    }
}

/// A run in which no line decodes leaves the registry empty.
pub proof fn lemma_replay_nothing_decoded(records: Seq<Option<DetailsView>>)
    requires
        forall|i: int| 0 <= i < records.len() ==> records[i].is_none(),
    ensures
        replay(records) == Some(Map::<u16, ClientState>::empty()),
    decreases records.len(),
{
    if records.len() > 0 {
        lemma_replay_nothing_decoded(records.drop_last());
    }
}

/// No client is ever removed: in a run that stays within the limit, the
/// client of every decoded line is in the registry at the end.
pub proof fn lemma_replay_keeps_clients(records: Seq<Option<DetailsView>>, i: int)
    requires
        0 <= i < records.len(),
        records[i].is_some(),
        replay(records).is_some(),
    ensures
        replay(records).unwrap().contains_key(records[i].unwrap().client),
    decreases records.len(),
{
    let front = records.drop_last();
    if i < records.len() - 1 {
        lemma_replay_keeps_clients(front, i);
    }
}

/// After every run that stays within the limit, each client stands under
/// its own id, its total is the sum of what is available and what is held,
/// and its balances are within the limit.
pub proof fn lemma_replay_keeps_registry_sound(records: Seq<Option<DetailsView>>)
    requires
        replay(records).is_some(),
    ensures
        registry_wf(replay(records).unwrap()),
    decreases records.len(),
{
    if records.len() > 0 {
        lemma_replay_keeps_registry_sound(records.drop_last());
        let before = replay(records.drop_last()).unwrap();
        match records.last() {
            Some(details) => {
                lemma_applied_keeps_balance(
                    client_or_new(before, details.client),
                    details.kind(),
                    details.amount,
                    details.id,
                );
            },
            None => {},
        }
    }
}

/// Main entry that processes the records of a run.
pub struct TransactionManager {}

impl TransactionManager {
    /// Registers every decoded record. The records are taken off the end,
    /// so the transactions come out last line first.
    fn register_all(records: Vec<Option<TransactionDetails>>) -> (txns: Vec<Option<Transaction>>)
        ensures
            txns.len() == records.len(),
            forall|k: int|
                0 <= k < txns.len() ==> match (#[trigger] txns[k], records[records.len() - 1 - k]) {
                    (Some(txn), Some(details)) => txn.details() == details@ && txn.kind()
                        == details@.kind(),
                    (None, None) => true,
                    _ => false,
                },
    {
        let ghost all = records@;
        let mut records = records;
        let mut txns: Vec<Option<Transaction>> = Vec::new();
        while records.len() > 0
            invariant
                records.len() <= all.len(),
                records@ == all.take(records.len() as int),
                txns.len() == all.len() - records.len(),
                forall|k: int|
                    0 <= k < txns.len() ==> match (#[trigger] txns[k], all[all.len() - 1 - k]) {
                        (Some(txn), Some(details)) => txn.details() == details@ && txn.kind()
                            == details@.kind(),
                        (None, None) => true,
                        _ => false,
                    },
            decreases records.len(),
        {
            let last = records.pop();
            assert(records@ =~= all.take(records.len() as int));
            let txn = match last {
                Some(Some(details)) => Some(details.register()),
                _ => None,
            };
            txns.push(txn);
        }
        txns
    }

    /// Applies the records in order to an empty registry and reports every
    /// client's balances by ascending id. A line that did not decode (`None`)
    /// is skipped. The status of a transaction does not stop the run.
    pub fn process(records: Vec<Option<TransactionDetails>>) -> (report: Result<
        Vec<ClientSummary>,
        ProcessError,
    >)
        ensures
            match replay(record_views(records@)) {
                None => report == Err::<Vec<ClientSummary>, ProcessError>(
                    ProcessError::BalanceOutOfRange,
                ),
                Some(clients) => if clients.dom().len() == 0 {
                    report == Err::<Vec<ClientSummary>, ProcessError>(
                        ProcessError::NothingProcessed,
                    )
                } else {
                    report.is_ok() && report.unwrap()@ == summaries_below(clients, 65536)
                },
            },
    {
        let ghost views = record_views(records@);
        let n = records.len();
        let txns = Self::register_all(records);
        let mut db = ClientDB::new();
        let mut i: usize = 0;
        while i < n
            invariant
                i <= n,
                n == txns.len(),
                n == views.len(),
                views == record_views(records@),
                db.wf(),
                replay(views.take(i as int)) == Some(db@),
                forall|k: int|
                    0 <= k < n ==> match (#[trigger] txns[k], views[n - 1 - k]) {
                        (Some(txn), Some(details)) => txn.details() == details && txn.kind()
                            == details.kind(),
                        (None, None) => true,
                        _ => false,
                    },
            decreases n - i,
        {
            assert(views.take(i + 1).drop_last() =~= views.take(i as int));
            assert(views.take(i + 1).last() == views[i as int]);
            let ghost k = (n - 1 - i) as int;
            assert(txns[k].is_some() == views[n - 1 - k].is_some());
            assert(replay(views.take(i + 1)) == replay_one(db@, views[i as int]));
            match &txns[n - 1 - i] {
                Some(txn) => {
                    assert(txn.details() == views[n - 1 - k].unwrap());
                    if db.update(txn).is_none() {
                        proof {
                            assert(replay(views.take(i + 1)).is_none());
                            lemma_replay_stays_failed(views, i + 1);
                        }
                        return Err(ProcessError::BalanceOutOfRange);
                    }
                },
                None => {},
            }
            i = i + 1;
        }
        assert(views.take(n as int) =~= views);
        if db.records() > 0 {
            Ok(db.snapshot())
        } else {
            Err(ProcessError::NothingProcessed)
        }
    }

    /// Applies the records in order to an empty registry and gives the
    /// report as text: the header, then one line for each client, by
    /// ascending id.
    pub fn process_records(records: Vec<Option<TransactionDetails>>) -> (report: Result<
        String,
        ProcessError,
    >)
        ensures
            match replay(record_views(records@)) {
                None => report == Err::<String, ProcessError>(ProcessError::BalanceOutOfRange),
                Some(clients) => if clients.dom().len() == 0 {
                    report == Err::<String, ProcessError>(ProcessError::NothingProcessed)
                } else {
                    report.is_ok() && report.unwrap()@ == report_text(
                        summaries_below(clients, 65536),
                    )
                },
            },
    {
        match Self::process(records) {
            Ok(lines) => Ok(render(&lines)),
            Err(e) => Err(e),
        }
    }
}

} // verus!
