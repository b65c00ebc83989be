//! Predicates over transactions and over instructions.
//!
//! A filter is stateless with respect to the crawl: what it holds, it was made with. A filter
//! that is meaningful for one shape of instruction only lets the other shape pass, unless
//! selecting a shape is its purpose.

pub mod ix;
pub mod tx;

use crate::filters::ix::{
    IxDataFilter, IxHasAccountAtIndexFilter, IxHasAccountFilter, IxMintToFilter, IxNumberAccounts,
    IxProgramIdFilter,
};
use crate::filters::tx::{
    CmV2BotTaxTxFilter, Cmv2TxFilter, SuccessfulTxFilter, TxHasProgramId, TxHasSigner,
};
use crate::transaction::{Instruction, TransactionRecord};
use vstd::prelude::*;

verus! {

/// A filter that is applied to every transaction.
///
/// `accepts` says which transactions pass, and `filter` decides it. For a filter that is
/// written outside the verifier, `accepts` is an ordinary method with the body of `filter`.
pub trait TxFilter {
    /// The transactions that the filter lets pass.
    spec fn accepts(&self, tx: &TransactionRecord) -> bool;

    /// Whether the filter lets `tx` pass.
    fn filter(&self, tx: &TransactionRecord) -> (accepted: bool)
        ensures
            accepted == self.accepts(tx),
    ;
}

/// A filter that is applied to every instruction.
///
/// `accepts` says which instructions pass, and `filter` decides it. For a filter that is
/// written outside the verifier, `accepts` is an ordinary method with the body of `filter`.
pub trait IxFilter {
    /// The instructions that the filter lets pass.
    spec fn accepts(&self, ix: &Instruction) -> bool;

    /// Whether the filter lets `ix` pass.
    fn filter(&self, ix: &Instruction) -> (accepted: bool)
        ensures
            accepted == self.accepts(ix),
    ;
}

/// Any of the transaction filters of this crate, so that one list can hold several kinds.
pub enum AnyTxFilter {
    Successful(SuccessfulTxFilter),
    BotTax(CmV2BotTaxTxFilter),
    Cmv2(Cmv2TxFilter),
    HasProgramId(TxHasProgramId),
    HasSigner(TxHasSigner),
}

impl TxFilter for AnyTxFilter {
    open spec fn accepts(&self, tx: &TransactionRecord) -> bool {
        match self {
            AnyTxFilter::Successful(f) => f.accepts(tx),
            AnyTxFilter::BotTax(f) => f.accepts(tx),
            AnyTxFilter::Cmv2(f) => f.accepts(tx),
            AnyTxFilter::HasProgramId(f) => f.accepts(tx),
            AnyTxFilter::HasSigner(f) => f.accepts(tx),
        }
    }

    fn filter(&self, tx: &TransactionRecord) -> (accepted: bool) {
        match self {
            AnyTxFilter::Successful(f) => f.filter(tx),
            AnyTxFilter::BotTax(f) => f.filter(tx),
            AnyTxFilter::Cmv2(f) => f.filter(tx),
            AnyTxFilter::HasProgramId(f) => f.filter(tx),
            AnyTxFilter::HasSigner(f) => f.filter(tx),
        }
    }
}

/// Any of the instruction filters of this crate, so that one list can hold several kinds.
pub enum AnyIxFilter {
    NumberAccounts(IxNumberAccounts),
    ProgramId(IxProgramIdFilter),
    Data(IxDataFilter),
    MintTo(IxMintToFilter),
    HasAccount(IxHasAccountFilter),
    HasAccountAtIndex(IxHasAccountAtIndexFilter),
}

impl IxFilter for AnyIxFilter {
    open spec fn accepts(&self, ix: &Instruction) -> bool {
        match self {
            AnyIxFilter::NumberAccounts(f) => f.accepts(ix),
            AnyIxFilter::ProgramId(f) => f.accepts(ix),
            AnyIxFilter::Data(f) => f.accepts(ix),
            AnyIxFilter::MintTo(f) => f.accepts(ix),
            AnyIxFilter::HasAccount(f) => f.accepts(ix),
            AnyIxFilter::HasAccountAtIndex(f) => f.accepts(ix),
        }
    }

    fn filter(&self, ix: &Instruction) -> (accepted: bool) {
        match self {
            AnyIxFilter::NumberAccounts(f) => f.filter(ix),
            AnyIxFilter::ProgramId(f) => f.filter(ix),
            AnyIxFilter::Data(f) => f.filter(ix),
            AnyIxFilter::MintTo(f) => f.filter(ix),
            AnyIxFilter::HasAccount(f) => f.filter(ix),
            AnyIxFilter::HasAccountAtIndex(f) => f.filter(ix),
        }
    }
}

} // verus!
