//! Program identifiers, payloads and limits that the crawl presets share.

use vstd::prelude::*;

verus! {

/// The Candy Machine program, first version.
pub const CMV1_PROGRAM_ID: &'static str = "cndyAnrLdpjq1Ssp1z8xxDsB8dxe7u4HL5Nxi2K5WXZ";

/// The Candy Machine program, second version.
pub const CMV2_PROGRAM_ID: &'static str = "cndy3Z4yapfJBmL3ShUp5exZKqR3z33thTzeNMm2gRZ";

/// The token metadata program.
pub const TOKEN_METADATA_PROGAM_ID: &'static str = "metaqbxxUerdq28cj1RbAWkYQm3ybzjb6a8bt518x1s";

/// The payload, in base 58, of a call that creates a master edition with a maximum supply of
/// zero.
pub const CREATE_MASTER_EDITION_DATA: &'static str = "ZbhHTZcMWdXcj";

/// The payload, in base 58, of the later form of the same call.
pub const CREATE_MASTER_EDITION_V3_DATA: &'static str = "xQfWWpLr8ajWF";

/// The text that the second Candy Machine program logs when it taxes a bot: the transaction
/// succeeds but mints nothing.
pub const CMV2_BOT_TAX_MSG: &'static str = "Candy Machine Botting is taxed at";

/// How many transactions are fetched at once unless the caller says otherwise.
pub const DEFAULT_CONCURRENCY_LIMIT: usize = 1000;

/// How many signatures one page of the history holds at most.
pub const SIGNATURE_PAGE_LIMIT: usize = 1000;

/// How many times in a row an empty page is asked for again before the walk through the
/// history ends.
pub const EMPTY_PAGE_RETRIES: u8 = 10;

/// How many times the fetch of one transaction is tried again after it failed.
pub const FETCH_RETRIES: u32 = 10;

/// The pause before the fetch of a transaction is tried again, in milliseconds.
pub const FETCH_RETRY_DELAY_MS: u64 = 500;

} // verus!
