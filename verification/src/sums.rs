//! Sums over the deposits of an account.
//!
//! Transaction ids are 32-bit, so a sum over every deposit is a sum over the
//! ids below `2^32`, and no such sum of 64-bit amounts leaves 128 bits.

use crate::account::{Amount, Deposit, TxId};
use vstd::prelude::*;

verus! {

/// The number of transaction ids.
pub open spec fn tx_id_count() -> nat {
    0x1_0000_0000
}

/// What a deposit counts towards a sum: its amount, or nothing where only
/// disputed deposits are counted and it is not disputed.
pub open spec fn counted(deposit: Deposit, only_disputed: bool) -> nat {
    if only_disputed && !deposit.disputed {
        0
    } else {
        deposit.amount as nat
    }
}

/// What the deposit with id `tx_id` counts towards a sum, nothing where there is none.
pub open spec fn counted_at(deposits: Map<TxId, Deposit>, tx_id: TxId, only_disputed: bool) -> nat {
    if deposits.contains_key(tx_id) {
        counted(deposits[tx_id], only_disputed)
    } else {
        0
    }
}

/// The sum of what the deposits with an id below `bound` count.
pub open spec fn sum_below(deposits: Map<TxId, Deposit>, bound: nat, only_disputed: bool) -> nat
    recommends
        bound <= tx_id_count(),
    decreases bound,
{
    if bound == 0 {
        0
    } else {
        sum_below(deposits, (bound - 1) as nat, only_disputed) + counted_at(
            deposits,
            (bound - 1) as TxId,
            only_disputed,
        )
    }
}

/// The sum of the amounts of all deposits.
pub open spec fn credited_sum(deposits: Map<TxId, Deposit>) -> nat {
    sum_below(deposits, tx_id_count(), false)
}

/// The sum of the amounts of the deposits under dispute.
pub open spec fn disputed_sum(deposits: Map<TxId, Deposit>) -> nat {
    sum_below(deposits, tx_id_count(), true)
}

/// A sum over `bound` ids is at most `bound` times the largest amount.
pub proof fn lemma_sum_below_bounded(deposits: Map<TxId, Deposit>, bound: nat, only_disputed: bool)
    ensures
        sum_below(deposits, bound, only_disputed) <= bound * Amount::MAX,
    decreases bound,
{
    if bound > 0 {
        lemma_sum_below_bounded(deposits, (bound - 1) as nat, only_disputed);
        assert(bound * Amount::MAX == (bound - 1) * Amount::MAX + Amount::MAX) by (nonlinear_arith);
    }
}

/// The disputed deposits sum to no more than all deposits.
pub proof fn lemma_disputed_at_most_credited(deposits: Map<TxId, Deposit>, bound: nat)
    ensures
        sum_below(deposits, bound, true) <= sum_below(deposits, bound, false),
    decreases bound,
{
    if bound > 0 {
        lemma_disputed_at_most_credited(deposits, (bound - 1) as nat);
    }
}

/// A sum holds what each deposit below the bound counts.
pub proof fn lemma_sum_below_holds(
    deposits: Map<TxId, Deposit>,
    bound: nat,
    only_disputed: bool,
    tx_id: TxId,
)
    requires
        tx_id < bound <= tx_id_count(),
    ensures
        counted_at(deposits, tx_id, only_disputed) <= sum_below(deposits, bound, only_disputed),
    decreases bound,
{
    if tx_id < bound - 1 {
        lemma_sum_below_holds(deposits, (bound - 1) as nat, only_disputed, tx_id);
    }
}

/// Putting `deposit` at `tx_id` changes a sum by what `deposit` counts less
/// what stood at `tx_id` before, where `tx_id` is below the bound, and not at
/// all where it is not.
pub proof fn lemma_sum_below_insert(
    deposits: Map<TxId, Deposit>,
    bound: nat,
    only_disputed: bool,
    tx_id: TxId,
    deposit: Deposit,
)
    requires
        bound <= tx_id_count(),
    ensures
        sum_below(deposits.insert(tx_id, deposit), bound, only_disputed) == if tx_id < bound {
            sum_below(deposits, bound, only_disputed) - counted_at(deposits, tx_id, only_disputed)
                + counted(deposit, only_disputed)
        } else {
            sum_below(deposits, bound, only_disputed) as int
        },
    decreases bound,
{
    if bound > 0 {
        lemma_sum_below_insert(deposits, (bound - 1) as nat, only_disputed, tx_id, deposit);
        if tx_id < bound - 1 {
            lemma_sum_below_holds(deposits, (bound - 1) as nat, only_disputed, tx_id);
        }
    }
}

} // verus!
