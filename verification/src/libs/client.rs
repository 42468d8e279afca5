use crate::libs::report::{
    amount_text, bool_text, line_text, number_text, push_amount, push_line, push_number, render,
    report_text,
};
use crate::libs::transactions::{Transaction, TransactionState, TransactionStatus};
use crate::{in_range, precision_64, round_half_up, step_of, AMOUNT_LIMIT};
use std::collections::{BTreeMap, HashMap};
use vstd::prelude::*;
use vstd::string::StringExecFns;

verus! {

/// Number of fractional digits balances are reported with.
pub const REPORT_DIGITS: u32 = 4;

/// The mathematical value of an [`Account`]: unbounded balances and the lock.
pub struct AccountState {
    pub available: int,
    pub held: int,
    pub total: int,
    pub locked: bool,
}

impl AccountState {
    /// The total is the sum of what is available and what is held.
    pub open spec fn balanced(self) -> bool {
        self.total == self.available + self.held
    }

    /// Every balance is one the library can hold.
    pub open spec fn in_range(self) -> bool {
        in_range(self.available) && in_range(self.held) && in_range(self.total)
    }

    /// The account of a client that has seen no transaction.
    pub open spec fn empty() -> AccountState {
        AccountState { available: 0, held: 0, total: 0, locked: false }
    }
}

/// Balances of one client, in units of `10^-8`.
#[derive(Debug, Clone, Copy)]
pub struct Account {
    available: i128,
    held: i128,
    total: i128,
    locked: bool,
}

impl View for Account {
    type V = AccountState;

    closed spec fn view(&self) -> AccountState {
        AccountState {
            available: self.available as int,
            held: self.held as int,
            total: self.total as int,
            locked: self.locked,
        }
    }
}

impl Account {
    /// Balanced, and every balance within [`AMOUNT_LIMIT`].
    pub open spec fn wf(&self) -> bool {
        self@.balanced() && self@.in_range()
    }

    /// A new, unlocked account with nothing in it.
    pub fn new() -> (account: Account)
        ensures
            account@ == AccountState::empty(),
            account.wf(),
    {
        Account { available: 0, held: 0, total: 0, locked: false }
    }

    /// Available funds, rounded half up to four fractional digits.
    pub fn available(&self) -> (amount: i128)
        requires
            self.wf(),
        ensures
            amount == round_half_up(self@.available, step_of(REPORT_DIGITS)),
            in_range(amount as int),
    {
        precision_64(self.available, REPORT_DIGITS)
    }

    /// Held funds, rounded half up to four fractional digits.
    pub fn held(&self) -> (amount: i128)
        requires
            self.wf(),
        ensures
            amount == round_half_up(self@.held, step_of(REPORT_DIGITS)),
            in_range(amount as int),
    {
        precision_64(self.held, REPORT_DIGITS)
    }

    /// Total funds, rounded half up to four fractional digits.
    pub fn total(&self) -> (amount: i128)
        requires
            self.wf(),
        ensures
            amount == round_half_up(self@.total, step_of(REPORT_DIGITS)),
            in_range(amount as int),
    {
        precision_64(self.total, REPORT_DIGITS)
    }

    /// Whether the account refuses further transactions.
    pub fn locked(&self) -> (locked: bool)
        ensures
            locked == self@.locked,
    {
        self.locked
    }
}

/// What a client remembers of one applied deposit or withdrawal.
#[derive(Debug, Clone, Copy)]
pub struct ClientTransactions {
    pub amount: i128,
    pub state: TransactionState,
}

impl ClientTransactions {
    /// An entry of the given amount and state.
    pub fn new(amount: i128, state: TransactionState) -> (entry: ClientTransactions)
        ensures
            entry == (ClientTransactions { amount, state }),
    {
        ClientTransactions { amount, state }
    }
}

/// The mathematical value of a [`Client`]: its id, its account and the
/// deposits and withdrawals it has applied, by transaction id.
pub struct ClientState {
    pub id: u16,
    pub account: AccountState,
    pub log: Map<u32, ClientTransactions>,
}

impl ClientState {
    /// A client that has seen no transaction.
    pub open spec fn empty(id: u16) -> ClientState {
        ClientState { id, account: AccountState::empty(), log: Map::empty() }
    }

    /// Whether `txn_id` names a recorded transaction that is under dispute.
    pub open spec fn disputed(self, txn_id: u32) -> bool {
        self.log.contains_key(txn_id) && self.log[txn_id].state == TransactionState::Disputed
    }

    /// The client with `txn_id` recorded, or recorded anew, as given.
    pub open spec fn with_entry(self, txn_id: u32, amount: i128, state: TransactionState) -> ClientState {
        ClientState { log: self.log.insert(txn_id, ClientTransactions { amount, state }), ..self }
    }

    /// The client with the given balances.
    pub open spec fn with_balances(self, available: int, held: int, total: int) -> ClientState {
        ClientState {
            account: AccountState { available, held, total, locked: self.account.locked },
            ..self
        }
    }

    /// The client with its account locked.
    pub open spec fn with_lock(self) -> ClientState {
        ClientState { account: AccountState { locked: true, ..self.account }, ..self }
    }

    /// The client after a deposit of `amount` under `txn_id`.
    pub open spec fn deposit(self, amount: i128, txn_id: u32) -> ClientState {
        let a = self.account;
        if a.locked {
            self
        } else {
            self.with_balances(a.available + amount, a.held, a.total + amount).with_entry(
                txn_id,
                amount,
                TransactionState::Cleared,
            )
        }
    }

    /// The status that a deposit gets.
    pub open spec fn deposit_status(self, amount: i128, txn_id: u32) -> TransactionStatus {
        if self.account.locked {
            TransactionStatus::AccountLockedTransactionBlocked
        } else {
            TransactionStatus::Success
        }
    }

    /// The client after an attempt to withdraw `amount` under `txn_id`.
    pub open spec fn withdraw(self, amount: i128, txn_id: u32) -> ClientState {
        let a = self.account;
        if a.locked || a.available < amount {
            self
        } else {
            self.with_balances(a.available - amount, a.held, a.total - amount).with_entry(
                txn_id,
                amount,
                TransactionState::Cleared,
            )
        }
    }

    /// The status that a withdrawal of `amount` gets.
    pub open spec fn withdraw_status(self, amount: i128, txn_id: u32) -> TransactionStatus {
        if self.account.locked {
            TransactionStatus::AccountLockedTransactionBlocked
        } else if self.account.available < amount {
            TransactionStatus::InsufficientFunds
        } else {
            TransactionStatus::Success
        }
    }

    /// The client after an attempt to dispute the transaction `txn_id`.
    pub open spec fn dispute(self, txn_id: u32) -> ClientState {
        let a = self.account;
        if a.locked || !self.log.contains_key(txn_id) {
            self
        } else {
            let amount = self.log[txn_id].amount;
            if a.available >= amount {
                self.with_balances(a.available - amount, a.held + amount, a.total).with_entry(
                    txn_id,
                    amount,
                    TransactionState::Disputed,
                )
            } else {
                self.with_lock().with_entry(txn_id, amount, TransactionState::AttemptedDispute)
            }
        }
    }

    /// The status that a dispute of `txn_id` gets.
    pub open spec fn dispute_status(self, txn_id: u32) -> TransactionStatus {
        if self.account.locked {
            TransactionStatus::AccountLockedTransactionBlocked
        } else if !self.log.contains_key(txn_id) {
            TransactionStatus::NoTransactionToDispute
        } else if self.account.available >= self.log[txn_id].amount {
            TransactionStatus::Success
        } else {
            TransactionStatus::InsufficientFundsForDispute
        }
    }

    /// The client after an attempt to resolve the dispute on `txn_id`.
    pub open spec fn resolve(self, txn_id: u32) -> ClientState {
        let a = self.account;
        if a.locked || !self.disputed(txn_id) {
            self
        } else {
            let amount = self.log[txn_id].amount;
            self.with_balances(a.available + amount, a.held - amount, a.total).with_entry(
                txn_id,
                amount,
                TransactionState::Resolved,
            )
        }
    }

    /// The status that resolving `txn_id` gets.
    pub open spec fn resolve_status(self, txn_id: u32) -> TransactionStatus {
        if self.account.locked {
            TransactionStatus::AccountLockedTransactionBlocked
        } else if !self.disputed(txn_id) {
            TransactionStatus::NoDisputeToResolve
        } else {
            TransactionStatus::Success
        }
    }

    /// The client after an attempt to charge back the disputed `txn_id`.
    pub open spec fn chargeback(self, txn_id: u32) -> ClientState {
        let a = self.account;
        if a.locked || !self.disputed(txn_id) {
            self
        } else {
            let amount = self.log[txn_id].amount;
            self.with_balances(a.available, a.held - amount, a.total - amount).with_lock().with_entry(
                txn_id,
                amount,
                TransactionState::ChargedBack,
            )
        }
    }

    /// The status that charging back `txn_id` gets.
    pub open spec fn chargeback_status(self, txn_id: u32) -> TransactionStatus {
        if self.account.locked {
            TransactionStatus::AccountLockedTransactionBlocked
        } else if !self.disputed(txn_id) {
            TransactionStatus::NoDisputeToChargeBack
        } else {
            TransactionStatus::Success
        }
    }
}

/// One line of the final report: a client's id, its balances rounded to four
/// fractional digits, and whether its account is locked.
#[derive(Debug, Clone, Copy, PartialEq, Eq, Structural)]
pub struct ClientSummary {
    pub client: u16,
    pub available: i128,
    pub held: i128,
    pub total: i128,
    pub locked: bool,
}

/// The balance `v` as the report shows it.
pub open spec fn reported(v: int) -> i128 {
    round_half_up(v, step_of(REPORT_DIGITS)) as i128
}

/// The report line of a client.
pub open spec fn summary_of(client: ClientState) -> ClientSummary {
    ClientSummary {
        client: client.id,
        available: reported(client.account.available),
        held: reported(client.account.held),
        total: reported(client.account.total),
        locked: client.account.locked,
    }
}

/// A client's id, unrounded balances and lock, as one line for a log.
pub open spec fn info_text(client: ClientState) -> Seq<char> {
    number_text(client.id as nat) + " | Avail: "@ + amount_text(client.account.available)
        + " | Held: "@ + amount_text(client.account.held) + " | Total: "@ + amount_text(
        client.account.total,
    ) + " | Locked: "@ + bool_text(client.account.locked)
}

/// Whether `a + b` is within the limit, for `a` within it.
fn sum_in_range(a: i128, b: i128) -> (fits: bool)
    requires
        in_range(a as int),
    ensures
        fits == in_range(a + b),
{
    -AMOUNT_LIMIT - a <= b && b <= AMOUNT_LIMIT - a
}

/// Whether `a - b` is within the limit, for `a` within it.
fn diff_in_range(a: i128, b: i128) -> (fits: bool)
    requires
        in_range(a as int),
    ensures
        fits == in_range(a - b),
{
    a - AMOUNT_LIMIT <= b && b <= a + AMOUNT_LIMIT
}

/// A dispute that the available funds cover, followed by its resolution,
/// gives back the balances and the lock from before the dispute.
pub proof fn lemma_dispute_resolve_restores(client: ClientState, txn_id: u32)
    requires
        !client.account.locked,
        client.log.contains_key(txn_id),
        client.account.available >= client.log[txn_id].amount,
    ensures
        client.dispute(txn_id).resolve(txn_id).account == client.account,
        client.dispute(txn_id).resolve_status(txn_id) == TransactionStatus::Success,
{
}

/// A dispute followed by a chargeback takes the disputed amount out of the
/// total, leaves nothing of it held, and locks the account.
pub proof fn lemma_dispute_chargeback_locks(client: ClientState, txn_id: u32)
    requires
        !client.account.locked,
        client.log.contains_key(txn_id),
        client.account.available >= client.log[txn_id].amount,
    ensures
        ({
            let after = client.dispute(txn_id).chargeback(txn_id).account;
            let amount = client.log[txn_id].amount;
            &&& after.available == client.account.available - amount
            &&& after.held == client.account.held
            &&& after.total == client.account.total - amount
            &&& after.locked
        }),
{
}

/// A dispute that the available funds do not cover moves nothing, marks the
/// transaction as an attempted dispute, and locks the account.
pub proof fn lemma_uncovered_dispute_locks(client: ClientState, txn_id: u32)
    requires
        !client.account.locked,
        client.log.contains_key(txn_id),
        client.account.available < client.log[txn_id].amount,
    ensures
        client.dispute(txn_id).account == (AccountState { locked: true, ..client.account }),
        client.dispute(txn_id).log[txn_id].state == TransactionState::AttemptedDispute,
        client.dispute_status(txn_id) == TransactionStatus::InsufficientFundsForDispute,
{
}

/// A withdrawal of more than is available changes nothing, and says so.
pub proof fn lemma_uncovered_withdrawal_refused(client: ClientState, amount: i128, txn_id: u32)
    requires
        !client.account.locked,
        client.account.available < amount,
    ensures
        client.withdraw(amount, txn_id) == client,
        client.withdraw_status(amount, txn_id) == TransactionStatus::InsufficientFunds,
{
}

/// Resolving or charging back a transaction that is not under dispute
/// changes nothing, and says so.
pub proof fn lemma_no_dispute_no_change(client: ClientState, txn_id: u32)
    requires
        !client.account.locked,
        !client.disputed(txn_id),
    ensures
        client.resolve(txn_id) == client,
        client.resolve_status(txn_id) == TransactionStatus::NoDisputeToResolve,
        client.chargeback(txn_id) == client,
        client.chargeback_status(txn_id) == TransactionStatus::NoDisputeToChargeBack,
{
}

/// The lines come by strictly ascending client id, and there is exactly one
/// for each client with an id below the bound.
pub proof fn lemma_summaries_ascending(clients: Map<u16, ClientState>, bound: nat)
    requires
        registry_wf(clients),
        bound <= 65536,
    ensures
        ({
            let lines = summaries_below(clients, bound);
            &&& forall|i: int, j: int|
                0 <= i < j < lines.len() ==> lines[i].client < lines[j].client
            &&& forall|i: int|
                0 <= i < lines.len() ==> lines[i].client < bound && clients.contains_key(
                    lines[i].client,
                ) && lines[i] == summary_of(clients[lines[i].client])
            &&& forall|id: u16|
                id < bound && clients.contains_key(id) ==> exists|i: int|
                    0 <= i < lines.len() && lines[i].client == id
        }),
    decreases bound,
{
    if bound > 0 {
        let before = summaries_below(clients, (bound - 1) as nat);
        let lines = summaries_below(clients, bound);
        let last = (bound - 1) as u16;
        lemma_summaries_ascending(clients, (bound - 1) as nat);
        assert forall|id: u16| id < bound && clients.contains_key(id) implies exists|i: int|
            0 <= i < lines.len() && lines[i].client == id by {
            if id == last {
                assert(lines[lines.len() - 1].client == id);
            } else {
                let i = choose|i: int| 0 <= i < before.len() && before[i].client == id;
                assert(lines[i].client == id);
            }
        }
    }
}

/// One client: its account, and the deposits and withdrawals applied to it.
pub struct Client {
    id: u16,
    pub account: Account,
    transactions: HashMap<u32, ClientTransactions>,
}

impl View for Client {
    type V = ClientState;

    closed spec fn view(&self) -> ClientState {
        ClientState { id: self.id, account: self.account@, log: self.transactions@ }
    }
}

impl Client {
    /// The account is balanced and within the limit.
    pub open spec fn wf(&self) -> bool {
        self@.account.balanced() && self@.account.in_range()
    }

    /// A client with an empty account and no recorded transaction.
    pub fn new(id: u16) -> (client: Client)
        ensures
            client@ == ClientState::empty(id),
            client.wf(),
    {
        Client { id, account: Account::new(), transactions: HashMap::new() }
    }

    /// The client's id.
    pub fn id(&self) -> (id: u16)
        ensures
            id == self@.id,
    {
        self.id
    }

    /// The client's account.
    pub fn account(&self) -> (account: &Account)
        ensures
            account@ == self@.account,
            account.wf() == self.wf(),
    {
        &self.account
    }

    /// The client's line of the report.
    pub fn summary(&self) -> (line: ClientSummary)
        requires
            self.wf(),
        ensures
            line == summary_of(self@),
    {
        ClientSummary {
            client: self.id,
            available: self.account.available(),
            held: self.account.held(),
            total: self.account.total(),
            locked: self.account.locked(),
        }
    }

    /// The client's line of the report, as text.
    pub fn to_string(&self) -> (text: String)
        requires
            self.wf(),
        ensures
            text@ == line_text(summary_of(self@)),
    {
        let mut text = String::new();
        let line = self.summary();
        push_line(&mut text, &line);
        assert(text@ =~= line_text(line));
        text
    }

    /// The client's id, unrounded balances and lock, for a log.
    pub fn info(&self) -> (text: String)
        ensures
            text@ == info_text(self@),
    {
        let mut text = String::new();
        push_number(&mut text, self.id as u128);
        text.append(" | Avail: ");
        push_amount(&mut text, self.account.available);
        text.append(" | Held: ");
        push_amount(&mut text, self.account.held);
        text.append(" | Total: ");
        push_amount(&mut text, self.account.total);
        text.append(" | Locked: ");
        if self.account.locked {
            text.append("true");
        } else {
            text.append("false");
        }
        assert(text@ =~= info_text(self@));
        text
    }

    /// Whether the client's account refuses further transactions.
    pub fn locked(&self) -> (locked: bool)
        ensures
            locked == self@.account.locked,
    {
        self.account.locked
    }

    /// The state recorded for `txn_id`, if a deposit or withdrawal was
    /// applied under that id.
    pub fn transaction_state(&self, txn_id: u32) -> (state: Option<TransactionState>)
        ensures
            state == (if self@.log.contains_key(txn_id) {
                Some(self@.log[txn_id].state)
            } else {
                None
            }),
    {
        match self.transactions.get(&txn_id) {
            Some(entry) => Some(entry.state),
            None => None,
        }
    }

    /// Whether a deposit of `amount` keeps the balances within the limit.
    pub fn admits_deposit(&self, amount: i128, txn_id: u32) -> (fits: bool)
        requires
            self.wf(),
        ensures
            fits == self@.deposit(amount, txn_id).account.in_range(),
    {
        self.account.locked || (sum_in_range(self.account.available, amount) && sum_in_range(
            self.account.total,
            amount,
        ))
    }

    /// Whether a withdrawal of `amount` keeps the balances within the limit.
    pub fn admits_withdraw(&self, amount: i128, txn_id: u32) -> (fits: bool)
        requires
            self.wf(),
        ensures
            fits == self@.withdraw(amount, txn_id).account.in_range(),
    {
        self.account.locked || self.account.available < amount || (diff_in_range(
            self.account.available,
            amount,
        ) && diff_in_range(self.account.total, amount))
    }

    /// Whether a dispute of `txn_id` keeps the balances within the limit.
    pub fn admits_dispute(&self, txn_id: u32) -> (fits: bool)
        requires
            self.wf(),
        ensures
            fits == self@.dispute(txn_id).account.in_range(),
    {
        if self.account.locked {
            return true;
        }
        match self.transactions.get(&txn_id) {
            Some(entry) => self.account.available < entry.amount || (diff_in_range(
                self.account.available,
                entry.amount,
            ) && sum_in_range(self.account.held, entry.amount)),
            None => true,
        }
    }

    /// Whether resolving `txn_id` keeps the balances within the limit.
    pub fn admits_resolve(&self, txn_id: u32) -> (fits: bool)
        requires
            self.wf(),
        ensures
            fits == self@.resolve(txn_id).account.in_range(),
    {
        if self.account.locked {
            return true;
        }
        match self.disputed_amount(txn_id) {
            Some(amount) => sum_in_range(self.account.available, amount) && diff_in_range(
                self.account.held,
                amount,
            ),
            None => true,
        }
    }

    /// Whether charging back `txn_id` keeps the balances within the limit.
    pub fn admits_chargeback(&self, txn_id: u32) -> (fits: bool)
        requires
            self.wf(),
        ensures
            fits == self@.chargeback(txn_id).account.in_range(),
    {
        if self.account.locked {
            return true;
        }
        match self.disputed_amount(txn_id) {
            Some(amount) => diff_in_range(self.account.held, amount) && diff_in_range(
                self.account.total,
                amount,
            ),
            None => true,
        }
    }

    /// Adds `amount` to the available and total funds and records the
    /// transaction as cleared. A locked account is left as it is.
    pub fn deposit(&mut self, amount: i128, txn_id: u32) -> (status: TransactionStatus)
        requires
            old(self).wf(),
            old(self)@.deposit(amount, txn_id).account.in_range(),
        ensures
            final(self)@ == old(self)@.deposit(amount, txn_id),
            status == old(self)@.deposit_status(amount, txn_id),
            final(self).wf(),
    {
        if self.account.locked {
            return TransactionStatus::AccountLockedTransactionBlocked;
        }
        self.transactions.insert(txn_id, ClientTransactions::new(amount, TransactionState::Cleared));
        self.account.available = self.account.available + amount;
        self.account.total = self.account.total + amount;
        TransactionStatus::Success
    }

    /// Takes `amount` from the available and total funds where the available
    /// funds cover it, and records the transaction as cleared. A locked
    /// account is left as it is.
    pub fn withdraw(&mut self, amount: i128, txn_id: u32) -> (status: TransactionStatus)
        requires
            old(self).wf(),
            old(self)@.withdraw(amount, txn_id).account.in_range(),
        ensures
            final(self)@ == old(self)@.withdraw(amount, txn_id),
            status == old(self)@.withdraw_status(amount, txn_id),
            final(self).wf(),
    {
        if self.account.locked {
            return TransactionStatus::AccountLockedTransactionBlocked;
        }
        if self.account.available >= amount {
            self.account.available = self.account.available - amount;
            self.account.total = self.account.total - amount;
            self.transactions.insert(
                txn_id,
                ClientTransactions::new(amount, TransactionState::Cleared),
            );
            TransactionStatus::Success
        } else {
            TransactionStatus::InsufficientFunds
        }
    }

    /// Moves the amount of the recorded transaction `txn_id` from available
    /// to held. Where the available funds do not cover it, nothing moves and
    /// the account is locked.
    pub fn dispute(&mut self, txn_id: u32) -> (status: TransactionStatus)
        requires
            old(self).wf(),
            old(self)@.dispute(txn_id).account.in_range(),
        ensures
            final(self)@ == old(self)@.dispute(txn_id),
            status == old(self)@.dispute_status(txn_id),
            final(self).wf(),
    {
        if self.account.locked {
            return TransactionStatus::AccountLockedTransactionBlocked;
        }
        let amount: i128 = match self.transactions.get(&txn_id) {
            Some(entry) => entry.amount,
            None => return TransactionStatus::NoTransactionToDispute,
        };
        if self.account.available >= amount {
            self.account.available = self.account.available - amount;
            self.account.held = self.account.held + amount;
            self.transactions.insert(
                txn_id,
                ClientTransactions::new(amount, TransactionState::Disputed),
            );
            TransactionStatus::Success
        } else {
            self.account.locked = true;
            self.transactions.insert(
                txn_id,
                ClientTransactions::new(amount, TransactionState::AttemptedDispute),
            );
            TransactionStatus::InsufficientFundsForDispute
        }
    }

    /// The amount of `txn_id` where it is recorded and under dispute.
    fn disputed_amount(&self, txn_id: u32) -> (amount: Option<i128>)
        ensures
            amount == (if self@.disputed(txn_id) {
                Some(self@.log[txn_id].amount)
            } else {
                None
            }),
    {
        match self.transactions.get(&txn_id) {
            Some(entry) => {
                if entry.state == TransactionState::Disputed {
                    Some(entry.amount)
                } else {
                    None
                }
            },
            None => None,
        }
    }

    /// Moves the amount of the disputed transaction `txn_id` back from held
    /// to available.
    pub fn resolve(&mut self, txn_id: u32) -> (status: TransactionStatus)
        requires
            old(self).wf(),
            old(self)@.resolve(txn_id).account.in_range(),
        ensures
            final(self)@ == old(self)@.resolve(txn_id),
            status == old(self)@.resolve_status(txn_id),
            final(self).wf(),
    {
        if self.account.locked {
            return TransactionStatus::AccountLockedTransactionBlocked;
        }
        let amount: i128 = match self.disputed_amount(txn_id) {
            Some(amount) => amount,
            None => return TransactionStatus::NoDisputeToResolve,
        };
        self.account.available = self.account.available + amount;
        self.account.held = self.account.held - amount;
        self.transactions.insert(txn_id, ClientTransactions::new(amount, TransactionState::Resolved));
        TransactionStatus::Success
    }

    /// Takes the amount of the disputed transaction `txn_id` out of the held
    /// and total funds, and locks the account.
    pub fn chargeback(&mut self, txn_id: u32) -> (status: TransactionStatus)
        requires
            old(self).wf(),
            old(self)@.chargeback(txn_id).account.in_range(),
        ensures
            final(self)@ == old(self)@.chargeback(txn_id),
            status == old(self)@.chargeback_status(txn_id),
            final(self).wf(),
    {
        if self.account.locked {
            return TransactionStatus::AccountLockedTransactionBlocked;
        }
        let amount: i128 = match self.disputed_amount(txn_id) {
            Some(amount) => amount,
            None => return TransactionStatus::NoDisputeToChargeBack,
        };
        self.account.total = self.account.total - amount;
        self.account.held = self.account.held - amount;
        self.account.locked = true;
        self.transactions.insert(
            txn_id,
            ClientTransactions::new(amount, TransactionState::ChargedBack),
        );
        TransactionStatus::Success
    }
}

/// Whether every client of `clients` stands under its own id, with a
/// balanced account within the limit.
pub open spec fn registry_wf(clients: Map<u16, ClientState>) -> bool {
    forall|id: u16| #[trigger]
        clients.contains_key(id) ==> clients[id].id == id && clients[id].account.balanced()
            && clients[id].account.in_range()
}

/// The client under `id`, or a new one where the registry has none.
pub open spec fn client_or_new(clients: Map<u16, ClientState>, id: u16) -> ClientState {
    if clients.contains_key(id) {
        clients[id]
    } else {
        ClientState::empty(id)
    }
}

/// The report lines of the clients with an id below `bound`, by ascending id.
pub open spec fn summaries_below(clients: Map<u16, ClientState>, bound: nat) -> Seq<ClientSummary>
    decreases bound,
{
    if bound == 0 {
        Seq::empty()
    } else {
        let id = (bound - 1) as u16;
        let before = summaries_below(clients, (bound - 1) as nat);
        if clients.contains_key(id) {
            before.push(summary_of(clients[id]))
        } else {
            before
        }
    }
}

/// The clients of a run, by id.
pub struct ClientDB {
    table: BTreeMap<u16, Client>,
}

impl View for ClientDB {
    type V = Map<u16, ClientState>;

    closed spec fn view(&self) -> Map<u16, ClientState> {
        Map::new(|id: u16| self.table@.contains_key(id), |id: u16| self.table@[id]@)
    }
}

impl ClientDB {
    /// Every client stands under its own id, balanced and within the limit.
    pub open spec fn wf(&self) -> bool {
        registry_wf(self@)
    }

    /// A registry without clients.
    pub fn new() -> (db: ClientDB)
        ensures
            db@ == Map::<u16, ClientState>::empty(),
            db.wf(),
    {
        let db = ClientDB { table: BTreeMap::new() };
        assert(db@ =~= Map::<u16, ClientState>::empty());
        db
    }

    /// Makes sure that the registry holds a client under `id`, creating one
    /// with an empty account where it is missing, and returns its account.
    pub fn fetch(&mut self, id: u16) -> (account: Account)
        requires
            old(self).wf(),
        ensures
            final(self)@ == old(self)@.insert(id, client_or_new(old(self)@, id)),
            account@ == client_or_new(old(self)@, id).account,
            final(self).wf(),
    {
        if !self.table.contains_key(&id) {
            self.table.insert(id, Client::new(id));
        }
        assert(self@ =~= old(self)@.insert(id, client_or_new(old(self)@, id)));
        match self.table.get(&id) {
            Some(client) => client.account,
            None => Account::new(),
        }
    }

    /// The client under `id`, if the registry holds one.
    pub fn client(&self, id: u16) -> (client: Option<&Client>)
        requires
            self.wf(),
        ensures
            client.is_some() == self@.contains_key(id),
            client.is_some() ==> client.unwrap()@ == self@[id] && client.unwrap().wf(),
    {
        let found = self.table.get(&id);
        proof {
            if self.table@.contains_key(id) {
                assert(self@.contains_key(id));
            }
        }
        found
    }

    /// The number of clients.
    pub fn records(&self) -> (n: usize)
        ensures
            n == self@.dom().len(),
    {
        assert(self@.dom() =~= self.table@.dom());
        self.table.len()
    }

    /// Applies `txn` to the client it names, which is created where the
    /// registry has none. Where the transaction would take a balance beyond
    /// the limit, it is not applied and there is no status.
    pub fn update(&mut self, txn: &Transaction) -> (status: Option<TransactionStatus>)
        requires
            old(self).wf(),
        ensures
            final(self).wf(),
            ({
                let id = txn.details().client;
                let before = client_or_new(old(self)@, id);
                if txn.applied_to(before).account.in_range() {
                    &&& final(self)@ == old(self)@.insert(id, txn.applied_to(before))
                    &&& status == Some(txn.status_on(before))
                } else {
                    &&& final(self)@ == old(self)@.insert(id, before)
                    &&& status.is_none()
                }
            }),
    {
        let id = txn.client();
        let mut client = match self.table.remove(&id) {
            Some(client) => client,
            None => Client::new(id),
        };
        let status = if txn.admitted_by(&client) {
            Some(txn.update_client(&mut client))
        } else {
            None
        };
        proof {
            txn.lemma_keeps_id(old(self)@[id]);
            txn.lemma_keeps_id(ClientState::empty(id));
        }
        self.table.insert(id, client);
        assert(self@ =~= old(self)@.insert(id, client@));
        status
    }

    /// The report as text: the header, then one line for each client, by
    /// ascending id.
    pub fn dump(&self) -> (text: String)
        requires
            self.wf(),
        ensures
            text@ == report_text(summaries_below(self@, 65536)),
    {
        let lines = self.snapshot();
        render(&lines)
    }

    /// The report: one line for each client, by ascending id.
    pub fn snapshot(&self) -> (lines: Vec<ClientSummary>)
        requires
            self.wf(),
        ensures
            lines@ == summaries_below(self@, 65536),
            forall|i: int, j: int| 0 <= i < j < lines.len() ==> lines[i].client < lines[j].client,
            forall|id: u16|
                self@.contains_key(id) ==> exists|i: int|
                    0 <= i < lines.len() && lines[i] == summary_of(self@[id]),
    {
        proof {
            lemma_summaries_ascending(self@, 65536);
            let all = summaries_below(self@, 65536);
            assert forall|id: u16| self@.contains_key(id) implies exists|i: int|
                0 <= i < all.len() && all[i] == summary_of(self@[id]) by {
                let i = choose|i: int| 0 <= i < all.len() && all[i].client == id;
                assert(all[i] == summary_of(self@[id]));
            }
        }
        let mut lines: Vec<ClientSummary> = Vec::new();
        let mut next: u32 = 0;
        while next < 65536
            invariant
                self.wf(),
                next <= 65536,
                lines@ == summaries_below(self@, next as nat),
            decreases 65536 - next,
        {
            let id = next as u16;
            match self.table.get(&id) {
                Some(client) => {
                    assert(self@.contains_key(id));
                    lines.push(client.summary());
                },
                None => {},
            }
            next = next + 1;
        }
        lines
    }
}

} // verus!
