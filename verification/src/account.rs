//! The account of one client: its deposits, its funds, and the rules by which
//! deposits, withdrawals and disputes change them.

use crate::fnv_map::{fnv_entry, fnv_get_mut, fnv_into_pairs};
use crate::sums::{
    credited_sum, disputed_sum, lemma_disputed_at_most_credited, lemma_sum_below_bounded,
    lemma_sum_below_holds, lemma_sum_below_insert, sum_below, tx_id_count,
};
use fnv::FnvHashMap;
use std::collections::hash_map::Entry;
use vstd::prelude::*;

verus! {

broadcast use vstd::std_specs::hash::group_hash_axioms;

pub type TxId = u32;

pub type ClientId = u16;

/// An amount of funds in ten-thousandths of a unit: four fractional digits.
pub type Amount = u64;

/// The number of ten-thousandths in one unit.
pub const AMOUNT_SCALE: Amount = 10_000;

#[derive(Clone, Copy, Debug, PartialEq, Eq, Structural)]
pub enum TransactionError {
    AccountLocked,
    InsufficientFunds,
    NotDisputed,
    AlreadyDisputed,
    TransactionNotFound,
    DuplicateTransaction,
}

/// A deposit that an account has taken, and whether it is under dispute.
#[derive(Clone, Copy, Debug, PartialEq, Eq, Structural)]
pub struct Deposit {
    pub amount: Amount,
    pub disputed: bool,
}

/// An account as a mathematical value.
pub struct AccountView {
    /// The deposits taken, by transaction id.
    pub deposits: Map<TxId, Deposit>,
    /// Total funds: available plus held.
    pub total: int,
    /// Held funds: those under dispute.
    pub held: int,
    pub locked: bool,
}

impl AccountView {
    /// The account of a client of whom nothing is known yet.
    pub open spec fn empty() -> Self {
        AccountView { deposits: Map::empty(), total: 0, held: 0, locked: false }
    }

    /// Available funds.
    pub open spec fn available(self) -> int {
        self.total - self.held
    }

    /// What holds of every account that the operations can reach from the
    /// empty one: the held funds are the sum of the deposits under dispute;
    /// the total funds are never more than the deposits taken, and negative
    /// only once a chargeback has locked the account, by no more than the
    /// deposit that was charged back.
    pub open spec fn wf(self) -> bool {
        &&& self.held == disputed_sum(self.deposits)
        &&& self.total <= credited_sum(self.deposits)
        &&& if self.locked {
            -Amount::MAX <= self.total
        } else {
            0 <= self.total
        }
    }

    /// What `Account::deposit` returns.
    pub open spec fn deposit_result(self, tx_id: TxId) -> Result<(), TransactionError> {
        if self.locked {
            Err(TransactionError::AccountLocked)
        } else if self.deposits.contains_key(tx_id) {
            Err(TransactionError::DuplicateTransaction)
        } else {
            Ok(())
        }
    }

    /// The account after `Account::deposit`.
    pub open spec fn after_deposit(self, tx_id: TxId, amount: Amount) -> Self {
        if self.deposit_result(tx_id) is Ok {
            AccountView {
                deposits: self.deposits.insert(tx_id, Deposit { amount, disputed: false }),
                total: self.total + amount,
                ..self
            }
        } else {
            self
        }
    }

    /// What `Account::withdraw` returns.
    pub open spec fn withdraw_result(self, amount: Amount) -> Result<(), TransactionError> {
        if self.locked {
            Err(TransactionError::AccountLocked)
        } else if self.available() < amount {
            Err(TransactionError::InsufficientFunds)
        } else {
            Ok(())
        }
    }

    /// The account after `Account::withdraw`.
    pub open spec fn after_withdraw(self, amount: Amount) -> Self {
        if self.withdraw_result(amount) is Ok {
            AccountView { total: self.total - amount, ..self }
        } else {
            self
        }
    }

    /// What `Account::dispute` returns.
    pub open spec fn dispute_result(self, tx_id: TxId) -> Result<(), TransactionError> {
        if self.locked {
            Err(TransactionError::AccountLocked)
        } else if !self.deposits.contains_key(tx_id) {
            Err(TransactionError::TransactionNotFound)
        } else if self.deposits[tx_id].disputed {
            Err(TransactionError::AlreadyDisputed)
        } else {
            Ok(())
        }
    }

    /// The account after `Account::dispute`.
    pub open spec fn after_dispute(self, tx_id: TxId) -> Self {
        if self.dispute_result(tx_id) is Ok {
            let deposit = self.deposits[tx_id];
            AccountView {
                deposits: self.deposits.insert(tx_id, Deposit { disputed: true, ..deposit }),
                held: self.held + deposit.amount,
                ..self
            }
        } else {
            self
        }
    }

    /// What `Account::resolve` and `Account::chargeback` return.
    pub open spec fn settle_result(self, tx_id: TxId) -> Result<(), TransactionError> {
        if self.locked {
            Err(TransactionError::AccountLocked)
        } else if !self.deposits.contains_key(tx_id) {
            Err(TransactionError::TransactionNotFound)
        } else if !self.deposits[tx_id].disputed {
            Err(TransactionError::NotDisputed)
        } else {
            Ok(())
        }
    }

    /// The account after `Account::resolve`.
    pub open spec fn after_resolve(self, tx_id: TxId) -> Self {
        if self.settle_result(tx_id) is Ok {
            let deposit = self.deposits[tx_id];
            AccountView {
                deposits: self.deposits.insert(tx_id, Deposit { disputed: false, ..deposit }),
                held: self.held - deposit.amount,
                ..self
            }
        } else {
            self
        }
    }

    /// The account after `Account::chargeback`. The chargeback ends the
    /// dispute: the deposit stays on record, no longer under dispute.
    pub open spec fn after_chargeback(self, tx_id: TxId) -> Self {
        if self.settle_result(tx_id) is Ok {
            let deposit = self.deposits[tx_id];
            AccountView {
                deposits: self.deposits.insert(tx_id, Deposit { disputed: false, ..deposit }),
                held: self.held - deposit.amount,
                total: self.total - deposit.amount,
                locked: true,
            }
        } else {
            self
        }
    }

    /// The empty account is well formed.
    pub proof fn lemma_empty_wf()
        ensures
            Self::empty().wf(),
    {
        lemma_sums_of_nothing(tx_id_count());
    }

    /// A well-formed account has funds that 100 bits hold.
    pub proof fn lemma_wf_bounds(self)
        requires
            self.wf(),
        ensures
            0 <= self.held <= disputed_sum(self.deposits) <= credited_sum(self.deposits)
                < 0x1_0000_0000_0000_0000_0000_0000,
            -Amount::MAX <= self.total <= credited_sum(self.deposits),
    {
        lemma_sum_below_bounded(self.deposits, tx_id_count(), false);
        lemma_disputed_at_most_credited(self.deposits, tx_id_count());
    }

    /// A deposit leaves a well-formed account well formed.
    pub proof fn lemma_deposit_wf(self, tx_id: TxId, amount: Amount)
        requires
            self.wf(),
        ensures
            self.after_deposit(tx_id, amount).wf(),
    {
        let deposit = Deposit { amount, disputed: false };
        lemma_sum_below_insert(self.deposits, tx_id_count(), false, tx_id, deposit);
        lemma_sum_below_insert(self.deposits, tx_id_count(), true, tx_id, deposit);
    }

    /// A withdrawal leaves a well-formed account well formed.
    pub proof fn lemma_withdraw_wf(self, amount: Amount)
        requires
            self.wf(),
        ensures
            self.after_withdraw(amount).wf(),
    {
    }

    /// A dispute leaves a well-formed account well formed.
    pub proof fn lemma_dispute_wf(self, tx_id: TxId)
        requires
            self.wf(),
        ensures
            self.after_dispute(tx_id).wf(),
    {
        if self.dispute_result(tx_id) is Ok {
            let deposit = Deposit { disputed: true, ..self.deposits[tx_id] };
            lemma_sum_below_insert(self.deposits, tx_id_count(), false, tx_id, deposit);
            lemma_sum_below_insert(self.deposits, tx_id_count(), true, tx_id, deposit);
        }
    }

    /// A resolve leaves a well-formed account well formed.
    pub proof fn lemma_resolve_wf(self, tx_id: TxId)
        requires
            self.wf(),
        ensures
            self.after_resolve(tx_id).wf(),
    {
        if self.settle_result(tx_id) is Ok {
            let deposit = Deposit { disputed: false, ..self.deposits[tx_id] };
            lemma_sum_below_insert(self.deposits, tx_id_count(), false, tx_id, deposit);
            lemma_sum_below_insert(self.deposits, tx_id_count(), true, tx_id, deposit);
            lemma_sum_below_holds(self.deposits, tx_id_count(), true, tx_id);
        }
    }

    /// A chargeback leaves a well-formed account well formed.
    pub proof fn lemma_chargeback_wf(self, tx_id: TxId)
        requires
            self.wf(),
        ensures
            self.after_chargeback(tx_id).wf(),
    {
        if self.settle_result(tx_id) is Ok {
            let deposit = Deposit { disputed: false, ..self.deposits[tx_id] };
            lemma_sum_below_insert(self.deposits, tx_id_count(), false, tx_id, deposit);
            lemma_sum_below_insert(self.deposits, tx_id_count(), true, tx_id, deposit);
            lemma_sum_below_holds(self.deposits, tx_id_count(), true, tx_id);
        }
    }
}

/// The fields of an account, free to pass through states that are not well formed.
struct Ledger {
    // The keys are four bytes long, which FNV hashes fast.
    deposits: FnvHashMap<TxId, Deposit>,
    total: i128,
    held: i128,
    locked: bool,
}

impl View for Ledger {
    type V = AccountView;

    closed spec fn view(&self) -> AccountView {
        AccountView {
            deposits: self.deposits@,
            total: self.total as int,
            held: self.held as int,
            locked: self.locked,
        }
    }
}

impl Ledger {
    fn new() -> (ledger: Self)
        ensures
            ledger@ == AccountView::empty(),
    {
        Ledger { deposits: FnvHashMap::default(), total: 0, held: 0, locked: false }
    }

    fn deposit(&mut self, tx_id: TxId, amount: Amount) -> (result: Result<(), TransactionError>)
        requires
            old(self)@.wf(),
        ensures
            result == old(self)@.deposit_result(tx_id),
            final(self)@ == old(self)@.after_deposit(tx_id, amount),
    {
        self.check_not_locked()?;
        proof {
            self@.lemma_wf_bounds();
        }
        let result = match fnv_entry(&mut self.deposits, tx_id) {
            Entry::Occupied(_) => Err(TransactionError::DuplicateTransaction),
            Entry::Vacant(entry) => {
                entry.insert(Deposit { amount, disputed: false });
                self.total += amount as i128;
                Ok(())
            },
        };
        assert(self@.deposits =~= old(self)@.after_deposit(tx_id, amount).deposits);
        result
    }

    fn withdraw(&mut self, amount: Amount) -> (result: Result<(), TransactionError>)
        requires
            old(self)@.wf(),
        ensures
            result == old(self)@.withdraw_result(amount),
            final(self)@ == old(self)@.after_withdraw(amount),
    {
        self.check_not_locked()?;
        let amount = amount as i128;
        if self.available() < amount {
            Err(TransactionError::InsufficientFunds)
        } else {
            self.total -= amount;
            Ok(())
        }
    }

    fn dispute(&mut self, tx_id: TxId) -> (result: Result<(), TransactionError>)
        requires
            old(self)@.wf(),
        ensures
            result == old(self)@.dispute_result(tx_id),
            final(self)@ == old(self)@.after_dispute(tx_id),
    {
        self.check_not_locked()?;
        proof {
            self@.lemma_wf_bounds();
        }
        let result = if let Some(disputed_deposit) = fnv_get_mut(&mut self.deposits, &tx_id) {
            if disputed_deposit.disputed {
                Err(TransactionError::AlreadyDisputed)
            } else {
                self.held += disputed_deposit.amount as i128;
                disputed_deposit.disputed = true;
                Ok(())
            }
        } else {
            Err(TransactionError::TransactionNotFound)
        };
        assert(self@.deposits =~= old(self)@.after_dispute(tx_id).deposits);
        result
    }

    fn resolve(&mut self, tx_id: TxId) -> (result: Result<(), TransactionError>)
        requires
            old(self)@.wf(),
        ensures
            result == old(self)@.settle_result(tx_id),
            final(self)@ == old(self)@.after_resolve(tx_id),
    {
        self.check_not_locked()?;
        proof {
            self@.lemma_wf_bounds();
        }
        let result = if let Some(disputed_deposit) = fnv_get_mut(&mut self.deposits, &tx_id) {
            if disputed_deposit.disputed {
                self.held -= disputed_deposit.amount as i128;
                disputed_deposit.disputed = false;
                Ok(())
            } else {
                Err(TransactionError::NotDisputed)
            }
        } else {
            Err(TransactionError::TransactionNotFound)
        };
        assert(self@.deposits =~= old(self)@.after_resolve(tx_id).deposits);
        result
    }

    fn chargeback(&mut self, tx_id: TxId) -> (result: Result<(), TransactionError>)
        requires
            old(self)@.wf(),
        ensures
            result == old(self)@.settle_result(tx_id),
            final(self)@ == old(self)@.after_chargeback(tx_id),
    {
        self.check_not_locked()?;
        proof {
            self@.lemma_wf_bounds();
        }
        let result = if let Some(disputed_deposit) = fnv_get_mut(&mut self.deposits, &tx_id) {
            if disputed_deposit.disputed {
                let disputed_amount = disputed_deposit.amount as i128;
                self.held -= disputed_amount;
                self.total -= disputed_amount;
                disputed_deposit.disputed = false;
                self.locked = true;
                Ok(())
            } else {
                Err(TransactionError::NotDisputed)
            }
        } else {
            Err(TransactionError::TransactionNotFound)
        };
        assert(self@.deposits =~= old(self)@.after_chargeback(tx_id).deposits);
        result
    }

    /// `Err(TransactionError::AccountLocked)` if the account is locked, else `Ok(())`.
    #[inline]
    fn check_not_locked(&self) -> (result: Result<(), TransactionError>)
        ensures
            result == (if self@.locked {
                Err(TransactionError::AccountLocked)
            } else {
                Ok(())
            }),
    {
        if self.locked {
            Err(TransactionError::AccountLocked)
        } else {
            Ok(())
        }
    }

    fn available(&self) -> (funds: i128)
        requires
            self@.wf(),
        ensures
            funds == self@.available(),
    {
        proof {
            self@.lemma_wf_bounds();
        }
        self.total - self.held
    }
}

/// Represents the account of a single client.
pub struct Account {
    ledger: Ledger,
}

impl View for Account {
    type V = AccountView;

    closed spec fn view(&self) -> AccountView {
        self.ledger@
    }
}

impl Default for Account {
    fn default() -> (account: Self)
        ensures
            account@ == AccountView::empty(),
            account@.wf(),
    {
        proof {
            AccountView::lemma_empty_wf();
        }
        Account { ledger: Ledger::new() }
    }
}

impl Account {
    #[verifier::type_invariant]
    spec fn well_formed(&self) -> bool {
        self.ledger@.wf()
    }

    /// Takes the fields out to work on them, leaving those of an empty account.
    fn take_ledger(&mut self) -> (ledger: Ledger)
        ensures
            ledger@ == old(self)@,
            ledger@.wf(),
    {
        proof {
            use_type_invariant(&*self);
            AccountView::lemma_empty_wf();
        }
        let mut ledger = Ledger::new();
        std::mem::swap(&mut self.ledger, &mut ledger);
        ledger
    }

    /// A deposit is a credit to the client's asset account: it increases the
    /// available and the total funds by `amount`.
    ///
    /// # Errors
    /// - `AccountLocked` if the account is locked
    /// - `DuplicateTransaction` if a deposit with this id has already been processed
    pub fn deposit(&mut self, tx_id: TxId, amount: Amount) -> (result: Result<
        (),
        TransactionError,
    >)
        ensures
            result == old(self)@.deposit_result(tx_id),
            final(self)@ == old(self)@.after_deposit(tx_id, amount),
            final(self)@.wf(),
    {
        let mut ledger = self.take_ledger();
        let result = ledger.deposit(tx_id, amount);
        proof {
            old(self)@.lemma_deposit_wf(tx_id, amount);
        }
        self.ledger = ledger;
        result
    }

    /// A withdrawal is a debit to the client's asset account: it decreases the
    /// available and the total funds by `amount`.
    ///
    /// # Errors
    /// - `AccountLocked` if the account is locked
    /// - `InsufficientFunds` if `amount` is more than the available funds
    pub fn withdraw(&mut self, amount: Amount) -> (result: Result<(), TransactionError>)
        ensures
            result == old(self)@.withdraw_result(amount),
            final(self)@ == old(self)@.after_withdraw(amount),
            final(self)@.wf(),
    {
        let mut ledger = self.take_ledger();
        let result = ledger.withdraw(amount);
        proof {
            old(self)@.lemma_withdraw_wf(amount);
        }
        self.ledger = ledger;
        result
    }

    /// A dispute is a client's claim that a deposit was made in error. The
    /// deposit is not reversed yet, but its funds are held: available funds
    /// decrease by its amount, held funds increase by it, total funds stay.
    ///
    /// # Errors
    /// - `AccountLocked` if the account is locked
    /// - `TransactionNotFound` if there is no deposit with this id
    /// - `AlreadyDisputed` if the deposit is under dispute already
    pub fn dispute(&mut self, tx_id: TxId) -> (result: Result<(), TransactionError>)
        ensures
            result == old(self)@.dispute_result(tx_id),
            final(self)@ == old(self)@.after_dispute(tx_id),
            final(self)@.wf(),
    {
        let mut ledger = self.take_ledger();
        let result = ledger.dispute(tx_id);
        proof {
            old(self)@.lemma_dispute_wf(tx_id);
        }
        self.ledger = ledger;
        result
    }

    /// A resolve ends a dispute and releases the funds it held: held funds
    /// decrease by the deposit's amount, available funds increase by it, total
    /// funds stay.
    ///
    /// # Errors
    /// - `AccountLocked` if the account is locked
    /// - `TransactionNotFound` if there is no deposit with this id
    /// - `NotDisputed` if the deposit is not under dispute
    pub fn resolve(&mut self, tx_id: TxId) -> (result: Result<(), TransactionError>)
        ensures
            result == old(self)@.settle_result(tx_id),
            final(self)@ == old(self)@.after_resolve(tx_id),
            final(self)@.wf(),
    {
        let mut ledger = self.take_ledger();
        let result = ledger.resolve(tx_id);
        proof {
            old(self)@.lemma_resolve_wf(tx_id);
        }
        self.ledger = ledger;
        result
    }

    /// A chargeback is the final state of a dispute: the client reverses the
    /// deposit. The funds that were held are withdrawn, so held and total funds
    /// decrease by the deposit's amount; the dispute is over, so the deposit is
    /// no longer under dispute; and the account is locked for good.
    ///
    /// # Errors
    /// - `AccountLocked` if the account is locked
    /// - `TransactionNotFound` if there is no deposit with this id
    /// - `NotDisputed` if the deposit is not under dispute
    pub fn chargeback(&mut self, tx_id: TxId) -> (result: Result<(), TransactionError>)
        ensures
            result == old(self)@.settle_result(tx_id),
            final(self)@ == old(self)@.after_chargeback(tx_id),
            final(self)@.wf(),
    {
        let mut ledger = self.take_ledger();
        let result = ledger.chargeback(tx_id);
        proof {
            old(self)@.lemma_chargeback_wf(tx_id);
        }
        self.ledger = ledger;
        result
    }

    /// Available funds.
    pub fn available(&self) -> (funds: i128)
        ensures
            funds == self@.available(),
    {
        proof {
            use_type_invariant(self);
        }
        self.ledger.available()
    }

    /// Total funds: available plus held.
    pub fn total(&self) -> (funds: i128)
        ensures
            funds == self@.total,
    {
        self.ledger.total
    }

    /// Held funds: those under dispute. The account is well formed, as every
    /// account is, so they are the sum of the deposits under dispute.
    pub fn held(&self) -> (funds: i128)
        ensures
            funds == self@.held,
            funds >= 0,
            self@.wf(),
    {
        proof {
            use_type_invariant(self);
        }
        self.ledger.held
    }

    /// Indicates whether the account is locked.
    pub fn is_locked(&self) -> (locked: bool)
        ensures
            locked == self@.locked,
    {
        self.ledger.locked
    }
}

/// The account that a registry hands out for `client_id`: the one it holds, or
/// an empty one where it holds none.
pub open spec fn account_of(accounts: Map<ClientId, AccountView>, client_id: ClientId) -> AccountView {
    if accounts.contains_key(client_id) {
        accounts[client_id]
    } else {
        AccountView::empty()
    }
}

/// A collection of accounts, indexed by client id.
pub struct Accounts {
    accounts: FnvHashMap<ClientId, Account>,
}

impl View for Accounts {
    type V = Map<ClientId, AccountView>;

    closed spec fn view(&self) -> Map<ClientId, AccountView> {
        Map::new(
            |client_id: ClientId| self.accounts@.contains_key(client_id),
            |client_id: ClientId| self.accounts@[client_id]@,
        )
    }
}

impl Default for Accounts {
    fn default() -> (accounts: Self)
        ensures
            accounts@ == Map::<ClientId, AccountView>::empty(),
    {
        Accounts { accounts: FnvHashMap::default() }
    }
}

impl Accounts {
    /// The account of `client_id`, which is made, empty, if the client has none yet.
    pub fn client_account(&mut self, client_id: ClientId) -> (account: &mut Account)
        ensures
            account@ == account_of(old(self)@, client_id),
            final(self)@ =~= old(self)@.insert(client_id, final(account)@),
    {
        match fnv_entry(&mut self.accounts, client_id) {
            Entry::Occupied(entry) => entry.into_mut(),
            Entry::Vacant(entry) => entry.insert(Account::default()),
        }
    }

    /// The accounts with the ids of their clients: every account once, in an
    /// order that nothing here states.
    pub fn into_vec(self) -> (accounts: Vec<(ClientId, Account)>)
        ensures
            forall|i: int|
                0 <= i < accounts@.len() ==> self@.contains_key((#[trigger] accounts@[i]).0)
                    && self@[accounts@[i].0] == accounts@[i].1@,
            forall|i: int, j: int|
                0 <= i < j < accounts@.len() ==> (#[trigger] accounts@[i]).0
                    != (#[trigger] accounts@[j]).0,
            forall|client_id: ClientId| #[trigger]
                self@.contains_key(client_id) ==> exists|i: int|
                    0 <= i < accounts@.len() && (#[trigger] accounts@[i]).0 == client_id,
    {
        fnv_into_pairs(self.accounts)
    }

    /// Deposits into the account of `client_id`, as `Account::deposit` does.
    pub fn deposit(&mut self, client_id: ClientId, tx_id: TxId, amount: Amount) -> (result: Result<
        (),
        TransactionError,
    >)
        ensures
            result == account_of(old(self)@, client_id).deposit_result(tx_id),
            final(self)@ == old(self)@.insert(
                client_id,
                account_of(old(self)@, client_id).after_deposit(tx_id, amount),
            ),
            final(self)@[client_id].wf(),
    {
        self.client_account(client_id).deposit(tx_id, amount)
    }

    /// Withdraws from the account of `client_id`, as `Account::withdraw` does.
    pub fn withdraw(&mut self, client_id: ClientId, amount: Amount) -> (result: Result<
        (),
        TransactionError,
    >)
        ensures
            result == account_of(old(self)@, client_id).withdraw_result(amount),
            final(self)@ == old(self)@.insert(
                client_id,
                account_of(old(self)@, client_id).after_withdraw(amount),
            ),
            final(self)@[client_id].wf(),
    {
        self.client_account(client_id).withdraw(amount)
    }

    /// Disputes a deposit of the account of `client_id`, as `Account::dispute` does.
    pub fn dispute(&mut self, client_id: ClientId, tx_id: TxId) -> (result: Result<
        (),
        TransactionError,
    >)
        ensures
            result == account_of(old(self)@, client_id).dispute_result(tx_id),
            final(self)@ == old(self)@.insert(
                client_id,
                account_of(old(self)@, client_id).after_dispute(tx_id),
            ),
            final(self)@[client_id].wf(),
    {
        self.client_account(client_id).dispute(tx_id)
    }

    /// Resolves a dispute in the account of `client_id`, as `Account::resolve` does.
    pub fn resolve(&mut self, client_id: ClientId, tx_id: TxId) -> (result: Result<
        (),
        TransactionError,
    >)
        ensures
            result == account_of(old(self)@, client_id).settle_result(tx_id),
            final(self)@ == old(self)@.insert(
                client_id,
                account_of(old(self)@, client_id).after_resolve(tx_id),
            ),
            final(self)@[client_id].wf(),
    {
        self.client_account(client_id).resolve(tx_id)
    }

    /// Charges back a deposit of the account of `client_id`, as `Account::chargeback` does.
    pub fn chargeback(&mut self, client_id: ClientId, tx_id: TxId) -> (result: Result<
        (),
        TransactionError,
    >)
        ensures
            result == account_of(old(self)@, client_id).settle_result(tx_id),
            final(self)@ == old(self)@.insert(
                client_id,
                account_of(old(self)@, client_id).after_chargeback(tx_id),
            ),
            final(self)@[client_id].wf(),
    {
        self.client_account(client_id).chargeback(tx_id)
    }
}

/// Sums over no deposits are zero.
proof fn lemma_sums_of_nothing(bound: nat)
    ensures
        sum_below(Map::empty(), bound, false) == 0,
        sum_below(Map::empty(), bound, true) == 0,
    decreases bound,
{
    if bound > 0 {
        lemma_sums_of_nothing((bound - 1) as nat);
    }
}

} // verus!
