//! The transactions that come in and the account rows that go out.
//!
//! A transaction is one row of the input, already parsed. An account goes out
//! as one row of comma-separated text, `client,available,held,total,locked`,
//! with the funds as decimal text of at most four fractional digits.

use crate::account::{
    account_of, Account, AccountView, Accounts, Amount, ClientId, TransactionError, TxId,
};
use crate::decimal::{amount_text, decimal_digits, push_amount, push_decimal};
use crate::rt::Shardable;
use vstd::prelude::*;
use vstd::string::StringSliceAdditionalSpecFns;

verus! {

/// Represents a transaction type in the input.
#[derive(Clone, Copy, Debug, PartialEq, Eq, Structural)]
pub enum CsvTransactionType {
    Deposit,
    Withdrawal,
    Dispute,
    Resolve,
    Chargeback,
}

/// Represents a single transaction in the input.
#[derive(Clone, Copy, Debug, PartialEq, Eq, Structural)]
pub struct CsvTransaction {
    pub tx_type: CsvTransactionType,
    pub client: ClientId,
    /// The id of a deposit, or of the deposit that a dispute, a resolve or a
    /// chargeback is about. A withdrawal's id is not looked at.
    pub tx: TxId,
    /// The amount of a deposit or a withdrawal. For the other types it is not
    /// looked at.
    pub amount: Amount,
}

impl CsvTransaction {
    /// What executing the transaction on `account` returns.
    pub open spec fn result_on(self, account: AccountView) -> Result<(), TransactionError> {
        match self.tx_type {
            CsvTransactionType::Deposit => account.deposit_result(self.tx),
            CsvTransactionType::Withdrawal => account.withdraw_result(self.amount),
            CsvTransactionType::Dispute => account.dispute_result(self.tx),
            CsvTransactionType::Resolve => account.settle_result(self.tx),
            CsvTransactionType::Chargeback => account.settle_result(self.tx),
        }
    }

    /// `account` after the transaction was executed on it.
    pub open spec fn applied_to(self, account: AccountView) -> AccountView {
        match self.tx_type {
            CsvTransactionType::Deposit => account.after_deposit(self.tx, self.amount),
            CsvTransactionType::Withdrawal => account.after_withdraw(self.amount),
            CsvTransactionType::Dispute => account.after_dispute(self.tx),
            CsvTransactionType::Resolve => account.after_resolve(self.tx),
            CsvTransactionType::Chargeback => account.after_chargeback(self.tx),
        }
    }

    /// `accounts` after the transaction was executed: the account of its
    /// client is there, changed as `applied_to` says, and no other is touched.
    pub open spec fn applied(self, accounts: Map<ClientId, AccountView>) -> Map<
        ClientId,
        AccountView,
    > {
        accounts.insert(self.client, self.applied_to(account_of(accounts, self.client)))
    }

    /// Execute the appropriate method on `Accounts` based on the transaction type.
    pub fn execute_transaction(&self, accounts: &mut Accounts) -> (result: Result<
        (),
        TransactionError,
    >)
        ensures
            result == self.result_on(account_of(old(accounts)@, self.client)),
            final(accounts)@ == self.applied(old(accounts)@),
    {
        match self.tx_type {
            CsvTransactionType::Deposit => accounts.deposit(self.client, self.tx, self.amount),
            CsvTransactionType::Withdrawal => accounts.withdraw(self.client, self.amount),
            CsvTransactionType::Dispute => accounts.dispute(self.client, self.tx),
            CsvTransactionType::Resolve => accounts.resolve(self.client, self.tx),
            CsvTransactionType::Chargeback => accounts.chargeback(self.client, self.tx),
        }
    }
}

/// The shard, of `num_shards`, that gets the transactions of `client`.
pub open spec fn client_shard(client: ClientId, num_shards: u8) -> int {
    client as int % num_shards as int
}

/// Allows a transaction to be submitted to a
/// `crate::rt::ShardedThreadPerCoreRuntime`: the client selects the shard, so
/// the transactions of one client are executed in the order submitted.
impl Shardable for CsvTransaction {
    fn shard_id(&self, num_shards: u8) -> (shard: usize)
        ensures
            shard == client_shard(self.client, num_shards),
    {
        self.client as usize % num_shards as usize
    }
}

/// The ASCII comma.
pub const COMMA: u8 = 44;

/// The ASCII line feed.
pub const LINE_FEED: u8 = 10;

/// The header row: `client,available,held,total,locked` and a line feed.
pub open spec fn header_row() -> Seq<u8> {
    "client,available,held,total,locked\n".spec_bytes()
}

/// `true` or `false` in ASCII.
pub open spec fn bool_text(value: bool) -> Seq<u8> {
    if value {
        "true".spec_bytes()
    } else {
        "false".spec_bytes()
    }
}

/// The row of the account `account` of client `client_id`: the client's id,
/// the available, the held and the total funds and whether the account is
/// locked, with commas between them and a line feed at the end.
pub open spec fn account_row(client_id: ClientId, account: AccountView) -> Seq<u8> {
    decimal_digits(client_id as nat) + seq![COMMA] + amount_text(account.available()) + seq![COMMA]
        + amount_text(account.held) + seq![COMMA] + amount_text(account.total) + seq![COMMA]
        + bool_text(account.locked) + seq![LINE_FEED]
}

/// A writer for the output format. What it has written is its view.
pub struct AccountCsvWriter {
    writer: Vec<u8>,
}

impl View for AccountCsvWriter {
    type V = Seq<u8>;

    closed spec fn view(&self) -> Seq<u8> {
        self.writer@
    }
}

impl AccountCsvWriter {
    /// A writer that writes behind what `writer` holds.
    pub fn new(writer: Vec<u8>) -> (csv_writer: Self)
        ensures
            csv_writer@ == writer@,
    {
        Self { writer }
    }

    /// Writes the header row.
    pub fn write_header(&mut self)
        ensures
            final(self)@ == old(self)@ + header_row(),
    {
        push_text(&mut self.writer, "client,available,held,total,locked\n");
    }

    /// Writes the row of `account`, which is that of client `client_id`.
    pub fn write_account(&mut self, client_id: ClientId, account: &Account)
        ensures
            final(self)@ == old(self)@ + account_row(client_id, account@),
    {
        push_decimal(&mut self.writer, client_id as u128);
        self.writer.push(COMMA);
        push_amount(&mut self.writer, account.available());
        self.writer.push(COMMA);
        push_amount(&mut self.writer, account.held());
        self.writer.push(COMMA);
        push_amount(&mut self.writer, account.total());
        self.writer.push(COMMA);
        push_text(&mut self.writer, if account.is_locked() { "true" } else { "false" });
        self.writer.push(LINE_FEED);
    }

    /// All that was written, in order.
    pub fn into_inner(self) -> (written: Vec<u8>)
        ensures
            written@ == self@,
    {
        self.writer
    }
}

/// Appends `text` as it is encoded in UTF-8.
fn push_text(out: &mut Vec<u8>, text: &str)
    ensures
        final(out)@ == old(out)@ + text.spec_bytes(),
{
    let bytes = text.as_bytes();
    let mut i: usize = 0;
    while i < bytes.len()
        invariant
            i <= bytes@.len(),
            bytes@ == text.spec_bytes(),
            out@ == old(out)@ + bytes@.take(i as int),
        decreases bytes@.len() - i,
    {
        out.push(bytes[i]);
        i += 1;
    }
}

} // verus!
