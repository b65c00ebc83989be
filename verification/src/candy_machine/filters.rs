//! Filters over raw transactions and their compiled instructions.

use crate::constants::{CMV1_PROGRAM_ID, CMV2_PROGRAM_ID};
use crate::filters::tx::succeeded;
use crate::text::{contains_text, lists_text};
use crate::transaction::{CompiledInstruction, EncodedTransaction, Message, TransactionRecord};
use vstd::prelude::*;
use vstd::string::StringExecFns;

verus! {

/// Whether `tx` has a raw message that lists `program` among its account keys.
pub open spec fn raw_refers_to(tx: &TransactionRecord, program: Seq<char>) -> bool {
    match tx.transaction {
        EncodedTransaction::Json(Message::Raw(message)) => lists_text(
            message.account_keys@,
            program,
        ),
        _ => false,
    }
}

fn raw_lists(tx: &TransactionRecord, program: &str) -> (found: bool)
    ensures
        found == raw_refers_to(tx, program@),
{
    match &tx.transaction {
        EncodedTransaction::Json(message) => match message {
            Message::Raw(message) => {
                let program = String::from_str(program);
                contains_text(&message.account_keys, &program)
            },
            Message::Parsed(_) => false,
        },
        EncodedTransaction::Binary => false,
    }
}

/// Whether the raw message of `tx` refers to the first Candy Machine program. A
/// transaction without a raw message does not pass.
pub fn cmv1_tx_filter(tx: &TransactionRecord) -> (passes: bool)
    ensures
        passes == raw_refers_to(tx, CMV1_PROGRAM_ID@),
{
    raw_lists(tx, CMV1_PROGRAM_ID)
}

/// Whether the raw message of `tx` refers to the second Candy Machine program. A
/// transaction without a raw message does not pass.
pub fn cmv2_tx_filter(tx: &TransactionRecord) -> (passes: bool)
    ensures
        passes == raw_refers_to(tx, CMV2_PROGRAM_ID@),
{
    raw_lists(tx, CMV2_PROGRAM_ID)
}

/// Whether `tx` succeeded: one whose outcome is not on record does not pass.
pub fn successful_txs_filter(tx: &TransactionRecord) -> (passes: bool)
    ensures
        passes == succeeded(tx),
{
    match &tx.meta {
        Some(meta) => meta.err.is_none(),
        None => false,
    }
}

/// Whether `ix` has the 14 accounts that a mint by the first Candy Machine program always
/// has.
pub fn cmv1_ix_len(ix: &&CompiledInstruction) -> (passes: bool)
    ensures
        passes == (ix.accounts@.len() == 14),
{
    ix.accounts.len() == 14
}

/// Whether `ix` has the 16 accounts that a mint by the second Candy Machine program has at
/// least; further settings add to them.
pub fn cmv2_ix_len(ix: &&CompiledInstruction) -> (passes: bool)
    ensures
        passes == (ix.accounts@.len() >= 16),
{
    ix.accounts.len() >= 16
}

/// Whether `ix` has a payload.
pub fn ix_contains_data(ix: &&CompiledInstruction) -> (passes: bool)
    ensures
        passes == (ix.data@.len() > 0),
{
    !ix.data.as_str().is_empty()
}

} // verus!
