use sharded_ledger::account::Accounts;
use sharded_ledger::io::CsvTransactionType::{Chargeback, Deposit, Dispute, Resolve, Withdrawal};
use sharded_ledger::io::{CsvTransaction, CsvTransactionType};
use sharded_ledger::process_transaction;
use sharded_ledger::process_transactions;
use sharded_ledger::rt::{assign_cores, host_cores, Shardable, ShardedThreadPerCoreRuntime};
use std::convert::Infallible;

struct Item {
    id: u32,
    value: u32,
}

impl Shardable for Item {
    fn shard_id(&self, num_shards: u8) -> usize {
        self.id as usize % num_shards as usize
    }
}

#[test]
fn test_runtime() {
    let result = ShardedThreadPerCoreRuntime::<Item, _, [u32; 2]>::try_fold(
        4,
        |s: &mut [u32; 2], x: Item| s[x.id as usize] += x.value,
        vec![
            Ok::<_, Infallible>(Item { id: 0, value: 1 }),
            Ok(Item { id: 1, value: 2 }),
            Ok(Item { id: 0, value: 3 }),
            Ok(Item { id: 1, value: 4 }),
        ],
    )
    .into_iter()
    .flatten()
    .reduce(|a, b| [a[0] + b[0], a[1] + b[1]])
    .unwrap();
    assert_eq!(result, [4, 6]);
}

#[test]
fn every_shard_has_a_state_of_its_own() {
    let states = ShardedThreadPerCoreRuntime::<Item, _, Vec<u32>>::try_fold(
        3,
        |s: &mut Vec<u32>, x: Item| s.push(x.value),
        vec![
            Ok::<_, Infallible>(Item { id: 4, value: 1 }),
            Ok(Item { id: 0, value: 2 }),
            Ok(Item { id: 7, value: 3 }),
            Ok(Item { id: 3, value: 4 }),
            Ok(Item { id: 1, value: 5 }),
            Ok(Item { id: 6, value: 6 }),
        ],
    )
    .unwrap();
    assert_eq!(states, vec![vec![2, 4, 6], vec![1, 3, 5], vec![]]);
}

#[test]
fn no_items_leave_default_states() {
    let states =
        ShardedThreadPerCoreRuntime::<Item, _, u32>::try_fold(5, |s: &mut u32, x: Item| *s += x.value, {
            let none: Vec<Result<Item, Infallible>> = Vec::new();
            none
        })
        .unwrap();
    assert_eq!(states, vec![0, 0, 0, 0, 0]);
    let states =
        ShardedThreadPerCoreRuntime::<Item, _, u32>::try_fold(0, |s: &mut u32, x: Item| *s += x.value, {
            let none: Vec<Result<Item, Infallible>> = Vec::new();
            none
        })
        .unwrap();
    assert_eq!(states, Vec::<u32>::new());
}

#[test]
fn the_first_error_ends_the_run() {
    let result = ShardedThreadPerCoreRuntime::<Item, _, u32>::try_fold(
        2,
        |s: &mut u32, x: Item| *s += x.value,
        vec![
            Ok(Item { id: 0, value: 1 }),
            Err("second"),
            Ok(Item { id: 1, value: 2 }),
            Err("fourth"),
        ],
    );
    assert_eq!(result, Err("second"));
    let result = ShardedThreadPerCoreRuntime::<Item, _, u32>::try_fold(
        0,
        |s: &mut u32, x: Item| *s += x.value,
        vec![Err("first"), Ok(Item { id: 0, value: 1 })],
    );
    assert_eq!(result, Err("first"));
}

fn tx(tx_type: CsvTransactionType, client: u16, tx: u32, amount: u64) -> CsvTransaction {
    CsvTransaction { tx_type, client, tx, amount }
}

fn sample() -> Vec<CsvTransaction> {
    vec![
        tx(Deposit, 1, 1, 10_000),
        tx(Deposit, 2, 2, 70_000),
        tx(Deposit, 1, 3, 20_000),
        tx(Withdrawal, 2, 4, 30_000),
        tx(Dispute, 1, 1, 0),
        tx(Deposit, 300, 5, 5),
        tx(Withdrawal, 300, 6, 6),
        tx(Dispute, 2, 2, 0),
        tx(Chargeback, 1, 1, 0),
        tx(Resolve, 2, 2, 0),
        tx(Deposit, 1, 7, 1),
        tx(Dispute, 9, 9, 0),
    ]
}

/// (client, available, held, total, locked) of every account, by client.
fn balances(shards: Vec<Accounts>) -> Vec<(u16, i128, i128, i128, bool)> {
    let mut all = Vec::new();
    for shard in shards {
        for (client, account) in shard.into_vec() {
            all.push((
                client,
                account.available(),
                account.held(),
                account.total(),
                account.is_locked(),
            ));
        }
    }
    all.sort();
    all
}

fn run(max_threads: u8, transactions: Vec<CsvTransaction>) -> Vec<Accounts> {
    process_transactions(
        max_threads,
        transactions.into_iter().map(Ok::<_, Infallible>).collect(),
    )
    .unwrap()
}

#[test]
fn the_number_of_shards_does_not_show_in_the_accounts() {
    let expected = vec![
        (1, 20_000, 0, 20_000, true),
        (2, 40_000, 0, 40_000, false),
        (9, 0, 0, 0, false),
        (300, 5, 0, 5, false),
    ];
    for max_threads in [1, 2, 3, 4, 7, 16, 255] {
        let shards = run(max_threads, sample());
        assert_eq!(shards.len(), usize::from(max_threads));
        assert_eq!(balances(shards), expected);
    }
}

#[test]
fn other_clients_do_not_show_in_an_account() {
    let own: Vec<CsvTransaction> = sample().into_iter().filter(|tx| tx.client == 1).collect();
    let mut mixed = Vec::new();
    for (i, tx) in own.iter().enumerate() {
        mixed.push(CsvTransaction { client: 2, ..*tx });
        mixed.push(*tx);
        mixed.push(CsvTransaction { client: 3 + i as u16, ..*tx });
    }
    let alone = balances(run(1, own));
    assert_eq!(alone, vec![(1, 20_000, 0, 20_000, true)]);
    for max_threads in [1, 2, 5] {
        let all = balances(run(max_threads, mixed.clone()));
        assert_eq!(all[0], alone[0]);
    }
}

#[test]
fn a_client_is_in_the_shard_of_its_id() {
    let shards = run(4, sample());
    let clients: Vec<Vec<u16>> = shards
        .into_iter()
        .map(|shard| {
            let mut ids: Vec<u16> = shard.into_vec().into_iter().map(|(id, _)| id).collect();
            ids.sort();
            ids
        })
        .collect();
    assert_eq!(clients, vec![vec![300], vec![1, 9], vec![2], vec![]]);
}

#[test]
fn process_transactions_returns_the_first_error() {
    let result = process_transactions(
        2,
        vec![
            Ok(tx(CsvTransactionType::Deposit, 1, 1, 1)),
            Err(17),
            Err(18),
        ],
    );
    assert_eq!(result.err(), Some(17));
}

#[test]
fn process_transaction_drops_the_refusal() {
    let mut accounts = Accounts::default();
    process_transaction(&mut accounts, tx(CsvTransactionType::Deposit, 5, 10, 1_000_000));
    process_transaction(&mut accounts, tx(CsvTransactionType::Withdrawal, 5, 11, 1_500_000));
    process_transaction(&mut accounts, tx(CsvTransactionType::Withdrawal, 5, 12, 250_000));
    assert_eq!(accounts.client_account(5).available(), 750_000);
    assert_eq!(accounts.client_account(5).held(), 0);
    assert_eq!(accounts.client_account(5).total(), 750_000);
    assert!(!accounts.client_account(5).is_locked());
}

#[test]
fn transactions_of_one_client_share_a_shard() {
    for shards in 1..=255u8 {
        for client in [0u16, 1, 2, 254, 255, 256, 65535] {
            let first = tx(CsvTransactionType::Deposit, client, 1, 1).shard_id(shards);
            let second = tx(CsvTransactionType::Chargeback, client, 99, 7).shard_id(shards);
            assert_eq!(first, second);
            assert_eq!(first, usize::from(client) % usize::from(shards));
        }
    }
}

#[test]
fn shards_get_the_cores_in_order() {
    assert_eq!(
        assign_cores(3, Some(vec![4, 5, 6, 7])),
        Some(vec![Some(4), Some(5), Some(6)])
    );
    assert_eq!(
        assign_cores(4, Some(vec![8, 2])),
        Some(vec![Some(8), Some(2), None, None])
    );
    assert_eq!(assign_cores(0, Some(vec![1])), Some(Vec::new()));
    assert_eq!(assign_cores(2, Some(Vec::new())), Some(vec![None, None]));
    assert_eq!(assign_cores(2, None), None);
}

#[test]
fn host_cores_has_an_entry_for_each_shard() {
    if let Some(cores) = host_cores(6) {
        assert_eq!(cores.len(), 6);
    }
}

#[test]
fn items_wait_in_their_queues_until_finish() {
    let mut rt = ShardedThreadPerCoreRuntime::<Item, _, Vec<u32>>::new(
        2,
        |s: &mut Vec<u32>, x: Item| s.push(x.value),
    );
    rt.process_item(Item { id: 3, value: 1 });
    rt.process_item(Item { id: 2, value: 2 });
    rt.process_item(Item { id: 1, value: 3 });
    rt.process_item(Item { id: 2, value: 4 });
    assert_eq!(rt.finish(), vec![vec![2, 4], vec![1, 3]]);
}

#[test]
fn a_runtime_without_shards_finishes_with_no_state() {
    let rt = ShardedThreadPerCoreRuntime::<Item, _, u32>::new(0, |s: &mut u32, x: Item| *s += x.value);
    assert_eq!(rt.finish(), Vec::<u32>::new());
    let rt = ShardedThreadPerCoreRuntime::<Item, _, u32>::new(255, |s: &mut u32, x: Item| *s += x.value);
    assert_eq!(rt.finish(), vec![0; 255]);
}
