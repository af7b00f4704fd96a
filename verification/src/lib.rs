//! A ledger of client accounts and the sharded runtime that feeds it.
//!
//! Amounts are fixed-point numbers with four fractional digits, held as
//! integers: an [`account::Amount`] of `10_000` is one whole unit.

use crate::account::Accounts;
use crate::io::CsvTransaction;
use crate::replay::{lemma_apply_all_steps, lemma_shard_queue_by_client, shard_registries};
use crate::rt::{
    all_folded, fold_trace, ok_items, routes, shard_queues, ShardedThreadPerCoreRuntime,
};
use vstd::prelude::*;

pub mod account;
pub mod decimal;
pub mod fnv_map;
pub mod io;
pub mod laws;
pub mod replay;
pub mod rt;
pub mod sums;

verus! {

/// Apply an `io::CsvTransaction` to an `account::Accounts` instance.
///
/// A transaction that the rules of the ledger refuse changes no funds, and
/// what it was refused for is dropped: the accounts that come after it are
/// processed whatever became of it.
pub fn process_transaction(accounts: &mut Accounts, tx: CsvTransaction)
    ensures
        final(accounts)@ == tx.applied(old(accounts)@),
{
    let _ = tx.execute_transaction(accounts);
}

/// Runs `transactions` through a runtime of `max_threads` shards, with
/// `process_transaction` as the function that folds them, and returns the
/// registries of the shards, in the order of the shards. The transactions of
/// one client all reach the shard `client % max_threads`, and they are
/// processed in the order in which they stand in `transactions`.
///
/// # Errors
/// The first `Err` among `transactions`, where there is one.
pub fn process_transactions<E>(
    max_threads: u8,
    transactions: Vec<Result<CsvTransaction, E>>,
) -> (result: Result<Vec<Accounts>, E>)
    requires
        max_threads > 0 || transactions@.len() == 0 || transactions@[0] is Err,
    ensures
        match result {
            Ok(registries) => {
                &&& forall|i: int| 0 <= i < transactions@.len() ==> transactions@[i] is Ok
                &&& registries@.map_values(|registry: Accounts| registry@) == shard_registries(
                    ok_items(transactions@),
                    max_threads,
                )
            },
            Err(error) => exists|i: int|
                {
                    &&& 0 <= i < transactions@.len()
                    &&& #[trigger] transactions@[i] == Err::<CsvTransaction, E>(error)
                    &&& forall|j: int| 0 <= j < i ==> transactions@[j] is Ok
                },
        },
{
    let result = ShardedThreadPerCoreRuntime::try_fold(
        max_threads,
        process_transaction,
        transactions,
    );
    proof {
        if result is Ok {
            let registries = result->Ok_0;
            let submitted = ok_items(transactions@);
            let shards = choose|shards: Seq<usize>|
                {
                    &&& #[trigger] routes(submitted, max_threads, shards)
                    &&& all_folded(
                        process_transaction,
                        shard_queues(submitted, shards, max_threads),
                        registries@,
                        |step: &mut Accounts| *final(step),
                    )
                };
            assert forall|shard: int| 0 <= shard < max_threads implies (
            #[trigger] registries@[shard])@ == shard_registries(submitted, max_threads)[shard] by {
                let queue = shard_queues(submitted, shards, max_threads)[shard];
                lemma_shard_queue_by_client(submitted, shards, max_threads, shard);
                let end_of = |step: &mut Accounts| *final(step);
                let (steps, states) = choose|steps: Seq<&mut Accounts>, states: Seq<Accounts>|
                    #[trigger] fold_trace(process_transaction, queue, steps, states, end_of)
                        && registries@[shard] == states.last();
                let views = states.map_values(|registry: Accounts| registry@);
                assert forall|i: int| 0 <= i < queue.len() implies #[trigger] views[i + 1]
                    == queue[i].applied(views[i]) by {
                    assert(call_ensures(process_transaction, (steps[i], queue[i]), ()));
                }
                lemma_apply_all_steps(views, queue);
            }
        }
    }
    result
}

} // verus!
