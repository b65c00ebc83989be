//! Filters over transactions.

use crate::constants::{CMV2_BOT_TAX_MSG, CMV2_PROGRAM_ID};
use crate::filters::TxFilter;
use crate::text::{contains_text, lists_text, occurs_in, str_contains};
use crate::transaction::{AccountKey, EncodedTransaction, Message, TransactionRecord};
use vstd::prelude::*;
use vstd::string::StringExecFns;

verus! {

/// Whether the message of `tx` can be read and lists `address` among its account keys.
pub open spec fn refers_to(tx: &TransactionRecord, address: Seq<char>) -> bool {
    match tx.transaction {
        EncodedTransaction::Json(Message::Raw(message)) => lists_text(
            message.account_keys@,
            address,
        ),
        EncodedTransaction::Json(Message::Parsed(message)) => exists|i: int|
            0 <= i < message.account_keys.len() && (#[trigger] message.account_keys[i]).pubkey@
                == address,
        EncodedTransaction::Binary => false,
    }
}

/// Whether the decoded message of `tx` lists `address` as a signer.
pub open spec fn signed_by(tx: &TransactionRecord, address: Seq<char>) -> bool {
    match tx.transaction {
        EncodedTransaction::Json(Message::Parsed(message)) => exists|i: int|
            0 <= i < message.account_keys.len() && (#[trigger] message.account_keys[i]).pubkey@
                == address && message.account_keys[i].signer,
        _ => false,
    }
}

/// Whether `tx` succeeded, as far as its record says: a transaction whose outcome is not on
/// record did not.
pub open spec fn succeeded(tx: &TransactionRecord) -> bool {
    match tx.meta {
        Some(meta) => meta.err is None,
        None => false,
    }
}

/// Whether the log of `tx` holds the bot tax message.
pub open spec fn bot_taxed(tx: &TransactionRecord) -> bool {
    match tx.meta {
        Some(meta) => match meta.log_messages {
            Some(lines) => logs_mention(lines@, CMV2_BOT_TAX_MSG@),
            None => false,
        },
        None => false,
    }
}

/// Whether a line of `lines` holds `pattern`.
pub open spec fn logs_mention(lines: Seq<String>, pattern: Seq<char>) -> bool {
    exists|i: int| 0 <= i < lines.len() && occurs_in(pattern, (#[trigger] lines[i])@)
}

fn key_listed(keys: &Vec<AccountKey>, address: &String) -> (found: bool)
    ensures
        found == exists|i: int| 0 <= i < keys.len() && (#[trigger] keys[i]).pubkey@ == address@,
{
    let mut i: usize = 0;
    while i < keys.len()
        invariant
            i <= keys.len(),
            forall|j: int| 0 <= j < i ==> (#[trigger] keys[j]).pubkey@ != address@,
        decreases keys.len() - i,
    {
        if keys[i].pubkey == *address {
            return true;
        }
        i = i + 1;
    }
    false
}

fn signer_listed(keys: &Vec<AccountKey>, address: &String) -> (found: bool)
    ensures
        found == exists|i: int|
            0 <= i < keys.len() && (#[trigger] keys[i]).pubkey@ == address@ && keys[i].signer,
{
    let mut i: usize = 0;
    while i < keys.len()
        invariant
            i <= keys.len(),
            forall|j: int|
                0 <= j < i ==> !((#[trigger] keys[j]).pubkey@ == address@ && keys[j].signer),
        decreases keys.len() - i,
    {
        if keys[i].pubkey == *address && keys[i].signer {
            return true;
        }
        i = i + 1;
    }
    false
}

fn any_line_mentions(lines: &Vec<String>, pattern: &str) -> (found: bool)
    ensures
        found == logs_mention(lines@, pattern@),
{
    let mut i: usize = 0;
    while i < lines.len()
        invariant
            i <= lines.len(),
            forall|j: int| 0 <= j < i ==> !occurs_in(pattern@, (#[trigger] lines@[j])@),
        decreases lines.len() - i,
    {
        if str_contains(lines[i].as_str(), pattern) {
            return true;
        }
        i = i + 1;
    }
    false
}

fn has_account_key(tx: &TransactionRecord, address: &String) -> (found: bool)
    ensures
        found == refers_to(tx, address@),
{
    match &tx.transaction {
        EncodedTransaction::Json(message) => match message {
            Message::Raw(message) => contains_text(&message.account_keys, address),
            Message::Parsed(message) => key_listed(&message.account_keys, address),
        },
        EncodedTransaction::Binary => false,
    }
}

/// Lets every transaction pass that succeeded: one that failed, or whose outcome is not on
/// record, does not pass.
pub struct SuccessfulTxFilter;

impl TxFilter for SuccessfulTxFilter {
    open spec fn accepts(&self, tx: &TransactionRecord) -> bool {
        succeeded(tx)
    }

    fn filter(&self, tx: &TransactionRecord) -> (accepted: bool) {
        match &tx.meta {
            Some(meta) => meta.err.is_none(),
            None => false,
        }
    }
}

/// Lets every transaction pass whose log does not hold the bot tax message of the second
/// Candy Machine program. A taxed transaction succeeded but minted nothing.
pub struct CmV2BotTaxTxFilter;

impl TxFilter for CmV2BotTaxTxFilter {
    open spec fn accepts(&self, tx: &TransactionRecord) -> bool {
        !bot_taxed(tx)
    }

    fn filter(&self, tx: &TransactionRecord) -> (accepted: bool) {
        match &tx.meta {
            Some(meta) => match &meta.log_messages {
                Some(lines) => !any_line_mentions(lines, CMV2_BOT_TAX_MSG),
                None => true,
            },
            None => true,
        }
    }
}

/// Lets every transaction pass that refers to the second Candy Machine program. A
/// transaction whose message cannot be read does not pass.
pub struct Cmv2TxFilter;

impl TxFilter for Cmv2TxFilter {
    open spec fn accepts(&self, tx: &TransactionRecord) -> bool {
        refers_to(tx, CMV2_PROGRAM_ID@)
    }

    fn filter(&self, tx: &TransactionRecord) -> (accepted: bool) {
        let program_id = String::from_str(CMV2_PROGRAM_ID);
        has_account_key(tx, &program_id)
    }
}

/// Lets every transaction pass that refers to a given program. A transaction whose message
/// cannot be read does not pass.
pub struct TxHasProgramId {
    pub program_id: String,
}

impl TxHasProgramId {
    pub fn new(program_id: &str) -> (filter: Self)
        ensures
            filter.program_id@ == program_id@,
    {
        TxHasProgramId { program_id: String::from_str(program_id) }
    }
}

impl TxFilter for TxHasProgramId {
    open spec fn accepts(&self, tx: &TransactionRecord) -> bool {
        refers_to(tx, self.program_id@)
    }

    fn filter(&self, tx: &TransactionRecord) -> (accepted: bool) {
        has_account_key(tx, &self.program_id)
    }
}

/// Lets every transaction pass that a given address signed. Only a decoded message says who
/// signed: a transaction without one does not pass.
pub struct TxHasSigner {
    pub address: String,
}

impl TxHasSigner {
    pub fn new(address: &str) -> (filter: Self)
        ensures
            filter.address@ == address@,
    {
        TxHasSigner { address: String::from_str(address) }
    }
}

impl TxFilter for TxHasSigner {
    open spec fn accepts(&self, tx: &TransactionRecord) -> bool {
        signed_by(tx, self.address@)
    }

    fn filter(&self, tx: &TransactionRecord) -> (accepted: bool) {
        match &tx.transaction {
            EncodedTransaction::Json(message) => match message {
                Message::Parsed(message) => signer_listed(&message.account_keys, &self.address),
                Message::Raw(_) => false,
            },
            EncodedTransaction::Binary => false,
        }
    }
}

} // verus!
