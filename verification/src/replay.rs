//! What a run of transactions leaves behind, as mathematics.

use crate::account::{account_of, AccountView, ClientId};
use crate::io::{client_shard, CsvTransaction};
use crate::rt::shard_queue;
use vstd::prelude::*;

verus! {

/// `accounts` after `transactions` were executed on them, in order.
pub open spec fn apply_all(
    accounts: Map<ClientId, AccountView>,
    transactions: Seq<CsvTransaction>,
) -> Map<ClientId, AccountView>
    decreases transactions.len(),
{
    if transactions.len() == 0 {
        accounts
    } else {
        transactions.last().applied(apply_all(accounts, transactions.drop_last()))
    }
}

/// The transactions of `transactions` that shard `shard` of `num_shards`
/// gets, in their order.
pub open spec fn transactions_of_shard(
    transactions: Seq<CsvTransaction>,
    num_shards: u8,
    shard: int,
) -> Seq<CsvTransaction> {
    transactions.filter(|tx: CsvTransaction| client_shard(tx.client, num_shards) == shard)
}

/// The registries of `num_shards` shards, in the order of the shards, once
/// `transactions` have run through them.
pub open spec fn shard_registries(transactions: Seq<CsvTransaction>, num_shards: u8) -> Seq<
    Map<ClientId, AccountView>,
> {
    Seq::new(
        num_shards as nat,
        |shard: int| apply_all(Map::empty(), transactions_of_shard(transactions, num_shards, shard)),
    )
}

/// Where every transaction goes to the shard of its client, a shard's queue
/// holds the transactions whose client has that shard.
pub proof fn lemma_shard_queue_by_client(
    transactions: Seq<CsvTransaction>,
    shards: Seq<usize>,
    num_shards: u8,
    shard: int,
)
    requires
        shards.len() == transactions.len(),
        forall|i: int|
            0 <= i < transactions.len() ==> #[trigger] shards[i] == client_shard(
                transactions[i].client,
                num_shards,
            ),
    ensures
        shard_queue(transactions, shards, shard) == transactions_of_shard(
            transactions,
            num_shards,
            shard,
        ),
    decreases transactions.len(),
{
    reveal(Seq::filter);
    if transactions.len() > 0 {
        lemma_shard_queue_by_client(
            transactions.drop_last(),
            shards.drop_last(),
            num_shards,
            shard,
        );
    }
}

/// Registries that follow one another by one transaction each end in what
/// `apply_all` says.
pub proof fn lemma_apply_all_steps(
    registries: Seq<Map<ClientId, AccountView>>,
    transactions: Seq<CsvTransaction>,
)
    requires
        registries.len() == transactions.len() + 1,
        forall|i: int|
            0 <= i < transactions.len() ==> #[trigger] registries[i + 1]
                == transactions[i].applied(registries[i]),
    ensures
        registries.last() == apply_all(registries[0], transactions),
    decreases transactions.len(),
{
    if transactions.len() > 0 {
        let before = registries.drop_last();
        let last = transactions.len() - 1;
        assert forall|i: int| 0 <= i < last implies #[trigger] before[i + 1]
            == transactions.drop_last()[i].applied(before[i]) by {
            assert(registries[i + 1] == transactions[i].applied(registries[i]));
        }
        lemma_apply_all_steps(before, transactions.drop_last());
        assert(registries[last + 1] == transactions[last].applied(registries[last]));
    }
}

/// The transactions of `client` among `transactions`, in their order.
pub open spec fn client_history(transactions: Seq<CsvTransaction>, client: ClientId) -> Seq<
    CsvTransaction,
> {
    transactions.filter(|tx: CsvTransaction| tx.client == client)
}

/// `account` after the transactions of `history` were executed on it, in order.
pub open spec fn replay(account: AccountView, history: Seq<CsvTransaction>) -> AccountView
    decreases history.len(),
{
    if history.len() == 0 {
        account
    } else {
        history.last().applied_to(replay(account, history.drop_last()))
    }
}

/// The account of `client` once `transactions` have run through a runtime of
/// `num_shards` shards: the one in the registry of the client's shard.
pub open spec fn final_account(
    transactions: Seq<CsvTransaction>,
    num_shards: u8,
    client: ClientId,
) -> AccountView {
    account_of(
        shard_registries(transactions, num_shards)[client_shard(client, num_shards)],
        client,
    )
}

/// What a run of transactions makes of a client's account depends on that
/// client's transactions alone: it is what they make of the account when
/// nothing stands between them. And a registry holds an account for a client
/// if and only if it held one before or the client has a transaction.
pub proof fn lemma_apply_all_by_client(
    accounts: Map<ClientId, AccountView>,
    transactions: Seq<CsvTransaction>,
    client: ClientId,
)
    ensures
        account_of(apply_all(accounts, transactions), client) == replay(
            account_of(accounts, client),
            client_history(transactions, client),
        ),
        apply_all(accounts, transactions).contains_key(client) <==> accounts.contains_key(client)
            || client_history(transactions, client).len() > 0,
    decreases transactions.len(),
{
    reveal(Seq::filter);
    if transactions.len() > 0 {
        let before = transactions.drop_last();
        let last = transactions.last();
        lemma_apply_all_by_client(accounts, before, client);
        if last.client == client {
            let history = client_history(before, client);
            assert(history.push(last).drop_last() == history);
        }
    }
}

/// The queue of a client's shard holds the client's transactions in the order
/// in which they were submitted, and no other queue holds any of them.
pub proof fn lemma_shard_keeps_history(
    transactions: Seq<CsvTransaction>,
    num_shards: u8,
    shard: int,
    client: ClientId,
)
    ensures
        client_history(transactions_of_shard(transactions, num_shards, shard), client) == if shard
            == client_shard(client, num_shards) {
            client_history(transactions, client)
        } else {
            Seq::empty()
        },
    decreases transactions.len(),
{
    reveal(Seq::filter);
    if transactions.len() > 0 {
        let before = transactions.drop_last();
        let last = transactions.last();
        lemma_shard_keeps_history(before, num_shards, shard, client);
        if client_shard(last.client, num_shards) == shard {
            let queue = transactions_of_shard(before, num_shards, shard);
            assert(queue.push(last).drop_last() == queue);
        }
    }
}

/// A client's account is in the registry of the client's shard, if the client
/// has a transaction, and in no other.
pub proof fn lemma_client_in_one_shard(
    transactions: Seq<CsvTransaction>,
    num_shards: u8,
    shard: int,
    client: ClientId,
)
    requires
        0 <= shard < num_shards,
    ensures
        shard_registries(transactions, num_shards)[shard].contains_key(client) <==> shard
            == client_shard(client, num_shards) && client_history(transactions, client).len() > 0,
{
    lemma_shard_keeps_history(transactions, num_shards, shard, client);
    lemma_apply_all_by_client(
        Map::empty(),
        transactions_of_shard(transactions, num_shards, shard),
        client,
    );
}

/// Partitioning does not show in a client's account. However many shards the
/// runtime has, and whatever transactions of other clients stand between
/// those of `client`, the client's account ends as the client's own
/// transactions make it, executed in their order on an empty account.
pub proof fn lemma_final_account(
    transactions: Seq<CsvTransaction>,
    num_shards: u8,
    client: ClientId,
)
    requires
        num_shards > 0,
    ensures
        final_account(transactions, num_shards, client) == replay(
            AccountView::empty(),
            client_history(transactions, client),
        ),
{
    let shard = client_shard(client, num_shards);
    lemma_shard_keeps_history(transactions, num_shards, shard, client);
    lemma_apply_all_by_client(
        Map::empty(),
        transactions_of_shard(transactions, num_shards, shard),
        client,
    );
}

/// Two runs in which `client` has the same transactions in the same order
/// leave the client the same account, whatever the two numbers of shards and
/// whatever the other clients do in either run.
pub proof fn lemma_partitioning_is_deterministic(
    first: Seq<CsvTransaction>,
    first_shards: u8,
    second: Seq<CsvTransaction>,
    second_shards: u8,
    client: ClientId,
)
    requires
        first_shards > 0,
        second_shards > 0,
        client_history(first, client) == client_history(second, client),
    ensures
        final_account(first, first_shards, client) == final_account(
            second,
            second_shards,
            client,
        ),
{
    lemma_final_account(first, first_shards, client);
    lemma_final_account(second, second_shards, client);
}

} // verus!
