//! Laws of the ledger: what the operations of an account do to its funds,
//! stated of every account and proved from the operations' definitions.

use crate::account::{AccountView, Amount, Deposit, TransactionError, TxId};
use crate::io::{client_shard, CsvTransaction};
use crate::rt::Shardable;
use crate::sums::disputed_sum;
use vstd::prelude::*;

verus! {

/// A deposit with a new transaction id, into an account that is not locked,
/// succeeds and increases the available and the total funds by its amount. A
/// second deposit with that id, of whatever amount, is refused as a duplicate
/// and leaves the account as the first left it.
pub proof fn lemma_deposit_once(account: AccountView, tx_id: TxId, amount: Amount, again: Amount)
    requires
        !account.locked,
        !account.deposits.contains_key(tx_id),
    ensures
        account.deposit_result(tx_id) is Ok,
        account.after_deposit(tx_id, amount).available() == account.available() + amount,
        account.after_deposit(tx_id, amount).total == account.total + amount,
        account.after_deposit(tx_id, amount).held == account.held,
        account.after_deposit(tx_id, amount).deposit_result(tx_id) == Err::<(), TransactionError>(
            TransactionError::DuplicateTransaction,
        ),
        account.after_deposit(tx_id, amount).after_deposit(tx_id, again) == account.after_deposit(
            tx_id,
            amount,
        ),
{
}

/// A withdrawal from an account that is not locked succeeds if and only if
/// its amount is at most the available funds. Where it succeeds, the
/// available and the total funds decrease by the amount; where it does not, it
/// is refused for insufficient funds and the account stays as it is.
pub proof fn lemma_withdraw_within_available(account: AccountView, amount: Amount)
    requires
        !account.locked,
    ensures
        account.withdraw_result(amount) is Ok <==> amount <= account.available(),
        account.withdraw_result(amount) is Ok ==> {
            &&& account.after_withdraw(amount).available() == account.available() - amount
            &&& account.after_withdraw(amount).total == account.total - amount
            &&& account.after_withdraw(amount).held == account.held
            &&& account.after_withdraw(amount).deposits == account.deposits
        },
        !(account.withdraw_result(amount) is Ok) ==> {
            &&& account.withdraw_result(amount) == Err::<(), TransactionError>(
                TransactionError::InsufficientFunds,
            )
            &&& account.after_withdraw(amount) == account
        },
{
}

/// In an account that is not locked, a dispute of a deposit that is not under
/// dispute succeeds and moves the deposit's amount from the available to the
/// held funds, while the total stays. A dispute of a deposit that is under
/// dispute already, or of an id that no deposit has, is refused and leaves the
/// account as it is.
pub proof fn lemma_dispute_holds_funds(account: AccountView, tx_id: TxId)
    requires
        !account.locked,
    ensures
        account.deposits.contains_key(tx_id) && !account.deposits[tx_id].disputed ==> {
            &&& account.dispute_result(tx_id) is Ok
            &&& account.after_dispute(tx_id).available() == account.available()
                - account.deposits[tx_id].amount
            &&& account.after_dispute(tx_id).held == account.held + account.deposits[tx_id].amount
            &&& account.after_dispute(tx_id).total == account.total
            &&& account.after_dispute(tx_id).deposits[tx_id] == (Deposit {
                amount: account.deposits[tx_id].amount,
                disputed: true,
            })
        },
        account.deposits.contains_key(tx_id) && account.deposits[tx_id].disputed ==> {
            &&& account.dispute_result(tx_id) == Err::<(), TransactionError>(
                TransactionError::AlreadyDisputed,
            )
            &&& account.after_dispute(tx_id) == account
        },
        !account.deposits.contains_key(tx_id) ==> {
            &&& account.dispute_result(tx_id) == Err::<(), TransactionError>(
                TransactionError::TransactionNotFound,
            )
            &&& account.after_dispute(tx_id) == account
        },
{
}

/// A resolve undoes a dispute: after a dispute that succeeded, a resolve of
/// the same id succeeds and leaves the account exactly as it was before the
/// dispute.
pub proof fn lemma_resolve_undoes_dispute(account: AccountView, tx_id: TxId)
    requires
        account.dispute_result(tx_id) is Ok,
    ensures
        account.after_dispute(tx_id).settle_result(tx_id) is Ok,
        account.after_dispute(tx_id).after_resolve(tx_id) == account,
{
    assert(account.after_dispute(tx_id).after_resolve(tx_id).deposits =~= account.deposits);
}

/// In an account that is not locked, a resolve of a deposit that is not under
/// dispute is refused as not disputed, and leaves the account as it is.
pub proof fn lemma_resolve_needs_dispute(account: AccountView, tx_id: TxId)
    requires
        !account.locked,
        account.deposits.contains_key(tx_id),
        !account.deposits[tx_id].disputed,
    ensures
        account.settle_result(tx_id) == Err::<(), TransactionError>(TransactionError::NotDisputed),
        account.after_resolve(tx_id) == account,
{
}

/// In an account that is not locked, a chargeback of a deposit under dispute
/// succeeds, decreases the held and the total funds by the deposit's amount,
/// ends the dispute of that deposit and of no other, and locks the account.
pub proof fn lemma_chargeback_locks(account: AccountView, tx_id: TxId)
    requires
        !account.locked,
        account.deposits.contains_key(tx_id),
        account.deposits[tx_id].disputed,
    ensures
        account.settle_result(tx_id) is Ok,
        account.after_chargeback(tx_id).held == account.held - account.deposits[tx_id].amount,
        account.after_chargeback(tx_id).total == account.total - account.deposits[tx_id].amount,
        account.after_chargeback(tx_id).available() == account.available(),
        account.after_chargeback(tx_id).deposits == account.deposits.insert(
            tx_id,
            Deposit { amount: account.deposits[tx_id].amount, disputed: false },
        ),
        account.after_chargeback(tx_id).locked,
{
}

/// A deposit is under dispute from a dispute that succeeded until the resolve
/// or the chargeback that succeeds next: each of the two leaves the deposit
/// not under dispute, and the deposits that they are not about as they were.
pub proof fn lemma_dispute_ends(account: AccountView, tx_id: TxId, other: TxId)
    requires
        account.settle_result(tx_id) is Ok,
        other != tx_id,
    ensures
        !account.after_resolve(tx_id).deposits[tx_id].disputed,
        !account.after_chargeback(tx_id).deposits[tx_id].disputed,
        account.after_resolve(tx_id).deposits.contains_key(other)
            == account.deposits.contains_key(other),
        account.after_chargeback(tx_id).deposits.contains_key(other)
            == account.deposits.contains_key(other),
        account.deposits.contains_key(other) ==> {
            &&& account.after_resolve(tx_id).deposits[other] == account.deposits[other]
            &&& account.after_chargeback(tx_id).deposits[other] == account.deposits[other]
        },
{
}

/// In every well-formed account, locked or not, the held funds are the sum of
/// the deposits under dispute, and so never negative.
pub proof fn lemma_held_is_disputed_sum(account: AccountView)
    requires
        account.wf(),
    ensures
        account.held == disputed_sum(account.deposits),
        account.held >= 0,
{
}

/// A locked account refuses every transaction as locked, also one that it
/// would take if it were not locked, and nothing in it changes.
pub proof fn lemma_locked_is_final(account: AccountView, tx: CsvTransaction)
    requires
        account.locked,
    ensures
        tx.result_on(account) == Err::<(), TransactionError>(TransactionError::AccountLocked),
        tx.applied_to(account) == account,
{
}

/// Whatever is executed on an account, once it is locked it stays locked.
pub proof fn lemma_lock_is_kept(account: AccountView, tx: CsvTransaction)
    ensures
        account.locked ==> tx.applied_to(account).locked,
{
}

/// Every transaction leaves a well-formed account well formed. So in every
/// account that transactions make of the empty one, the held funds are never
/// negative.
pub proof fn lemma_applied_wf(account: AccountView, tx: CsvTransaction)
    requires
        account.wf(),
    ensures
        tx.applied_to(account).wf(),
        tx.applied_to(account).held >= 0,
{
    account.lemma_deposit_wf(tx.tx, tx.amount);
    account.lemma_withdraw_wf(tx.amount);
    account.lemma_dispute_wf(tx.tx);
    account.lemma_resolve_wf(tx.tx);
    account.lemma_chargeback_wf(tx.tx);
}

/// Two transactions of one client are routed to the same shard, whatever the
/// number of shards: whenever `shard_id` returns `first_shard` for the one and
/// `second_shard` for the other, the two are the shard of the client.
pub proof fn lemma_same_client_same_shard(
    first: CsvTransaction,
    second: CsvTransaction,
    num_shards: u8,
    first_shard: usize,
    second_shard: usize,
)
    requires
        first.client == second.client,
        call_ensures(CsvTransaction::shard_id, (&first, num_shards), first_shard),
        call_ensures(CsvTransaction::shard_id, (&second, num_shards), second_shard),
    ensures
        first_shard == second_shard,
        first_shard == client_shard(first.client, num_shards),
{
}

} // verus!
