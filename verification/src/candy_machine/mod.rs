//! The crawl for the mints of a Candy Machine over transactions in the raw form, where an
//! instruction names its accounts by their position among the account keys of the message.
//!
//! A Candy Machine mints once in a transaction. A transaction with a second mint is
//! treated as the policy of the crawl says.

pub mod filters;
pub mod methods;
