//! A crawl engine for the transaction history of one account: it pages through the
//! signatures of the account, keeps the transactions and instructions that a set of
//! filters accepts, and collects the accounts that named rules pick from them.
//!
//! The engine does not talk to a gateway. [`paginate::Paginator`] and
//! [`fetch::FetchSchedule`] say which request to make next and take its answer;
//! [`crawler::Crawler::run`] crawls the transactions once they are fetched.

pub mod accounts;
pub mod candy_machine;
pub mod constants;
pub mod crawl_laws;
pub mod crawler;
pub mod errors;
pub mod fetch;
pub mod filters;
pub mod flatten;
pub mod json;
pub mod paginate;
pub mod parts;
pub mod presets;
pub mod solana;
pub mod text;
pub mod transaction;

pub use crate::accounts::{AddressSet, CrawledAccounts};
pub use crate::crawler::{
    CrawlReport, Crawler, IxAccount, MatchPolicy, TransactionOutcome,
};
pub use crate::errors::{CrawlError, DecodeError};
pub use crate::fetch::{
    collect_fetched, FetchAction, FetchSchedule, FetchedBatch, RetryDecision, RetryPolicy,
};
pub use crate::filters::ix::{
    IxDataFilter, IxHasAccountAtIndexFilter, IxHasAccountFilter, IxMintToFilter, IxNumberAccounts,
    IxProgramIdFilter,
};
pub use crate::filters::tx::{
    CmV2BotTaxTxFilter, Cmv2TxFilter, SuccessfulTxFilter, TxHasProgramId, TxHasSigner,
};
pub use crate::filters::{AnyIxFilter, AnyTxFilter, IxFilter, TxFilter};
pub use crate::flatten::flatten;
pub use crate::paginate::{PageRequest, Paginator};
pub use crate::parts::TransactionPart;
pub use crate::transaction::{
    AccountKey, CompiledInstruction, EncodedTransaction, InnerInstructions, Instruction, Message,
    MessageInstruction, ParsedMessage, PositionalInstruction, RawMessage, StructuredInstruction,
    TransactionMeta, TransactionRecord,
};
