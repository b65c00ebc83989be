//! The transaction record that the crawl reads: the decoded transaction and what its
//! execution left behind.

use serde_json::Value;
use vstd::prelude::*;

verus! {

/// An instruction whose accounts are a plain ordered list, read by position.
#[derive(Clone, Debug, PartialEq)]
pub struct PositionalInstruction {
    /// The program that the instruction calls.
    pub program_id: String,
    /// The addresses that the instruction refers to, in order.
    pub accounts: Vec<String>,
    /// The payload, in base 58.
    pub data: String,
}

/// An instruction that a decoder has turned into a tree of named fields. It has no list of
/// accounts.
#[derive(Clone, Debug, PartialEq)]
pub struct StructuredInstruction {
    /// The name of the program that the instruction calls.
    pub program: String,
    /// The program that the instruction calls.
    pub program_id: String,
    /// The decoded fields.
    pub parsed: Value,
}

/// A decoded instruction. It has exactly one of two shapes.
#[derive(Clone, Debug, PartialEq)]
pub enum Instruction {
    /// Named fields, no account list.
    Structured(StructuredInstruction),
    /// An account list, read by position.
    Positional(PositionalInstruction),
}

/// An instruction as a raw message holds it: every account is a position in the account
/// keys of the message.
#[derive(Clone, Debug, PartialEq)]
pub struct CompiledInstruction {
    /// The position of the program among the account keys.
    pub program_id_index: u8,
    /// The positions of the accounts among the account keys.
    pub accounts: Vec<u8>,
    /// The payload, in base 58.
    pub data: String,
}

/// An instruction as a message or an inner group lists it.
#[derive(Clone, Debug, PartialEq)]
pub enum MessageInstruction {
    /// Not decoded.
    Compiled(CompiledInstruction),
    /// Decoded.
    Decoded(Instruction),
}

/// One account key of a decoded message.
#[derive(Clone, Debug, PartialEq)]
pub struct AccountKey {
    /// The address.
    pub pubkey: String,
    /// Whether the account may be written to.
    pub writable: bool,
    /// Whether the account signed the transaction.
    pub signer: bool,
}

/// A message in the raw form.
#[derive(Clone, Debug, PartialEq)]
pub struct RawMessage {
    /// Every address that the transaction refers to.
    pub account_keys: Vec<String>,
    /// The top-level instructions.
    pub instructions: Vec<CompiledInstruction>,
}

/// A message in the decoded form.
#[derive(Clone, Debug, PartialEq)]
pub struct ParsedMessage {
    /// Every account that the transaction refers to.
    pub account_keys: Vec<AccountKey>,
    /// The top-level instructions.
    pub instructions: Vec<MessageInstruction>,
}

/// The message of a transaction in the JSON encoding.
#[derive(Clone, Debug, PartialEq)]
pub enum Message {
    /// The raw form.
    Raw(RawMessage),
    /// The decoded form.
    Parsed(ParsedMessage),
}

/// A transaction as the gateway encoded it.
#[derive(Clone, Debug, PartialEq)]
pub enum EncodedTransaction {
    /// A binary encoding, which the crawl does not read.
    Binary,
    /// The JSON encoding.
    Json(Message),
}

/// The instructions that ran as a side effect of one top-level instruction.
#[derive(Clone, Debug, PartialEq)]
pub struct InnerInstructions {
    /// The position of the top-level instruction.
    pub index: u8,
    /// The instructions, in the order in which they ran.
    pub instructions: Vec<MessageInstruction>,
}

/// What the execution of a transaction left behind.
#[derive(Clone, Debug, PartialEq)]
pub struct TransactionMeta {
    /// The error that the transaction ended with, if it failed.
    pub err: Option<String>,
    /// The lines that the programs logged.
    pub log_messages: Option<Vec<String>>,
    /// The groups of inner instructions.
    pub inner_instructions: Option<Vec<InnerInstructions>>,
}

/// One transaction of the history, as fetched. Nothing changes it after the fetch.
#[derive(Clone, Debug, PartialEq)]
pub struct TransactionRecord {
    /// The transaction.
    pub transaction: EncodedTransaction,
    /// What its execution left behind.
    pub meta: Option<TransactionMeta>,
}

} // verus!
