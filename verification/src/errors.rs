//! Error values of a crawl.

use vstd::prelude::*;
use vstd::string::StringExecFns;

verus! {

/// Why a crawl failed as a whole.
#[derive(Debug, Clone, PartialEq, Eq)]
pub enum CrawlError {
    /// An account that was asked for holds no data; the payload is its address.
    MissingAccount(String),
    /// A gateway call failed; the payload is the cause and the value the call was made for.
    ClientError(String, String),
    /// A string is not an account address; the payload is the string.
    PubkeyParseFailed(String),
    /// A signature that the gateway returned could not be parsed; the payload is the cause.
    SignatureParseFailed(String),
    /// Under [`crate::crawler::MatchPolicy::Reject`], a transaction held more than one
    /// qualifying instruction; the payload is the position of the transaction in the batch
    /// and the number of its qualifying instructions.
    AmbiguousMatch(usize, usize),
}

impl CrawlError {
    /// The text of the error.
    pub open spec fn message_text(&self) -> Seq<char> {
        match self {
            CrawlError::MissingAccount(_) => "no account data found"@,
            CrawlError::ClientError(cause, value) => "RPC call failed with error: "@ + cause@
                + " for value: "@ + value@,
            CrawlError::PubkeyParseFailed(_) => "failed to parse string into Pubkey"@,
            CrawlError::SignatureParseFailed(cause) => "Failed to parse signature: "@ + cause@,
            CrawlError::AmbiguousMatch(_, _) => "more than one qualifying instruction in a transaction"@,
        }
    }

    /// Renders the error for a reader.
    pub fn message(&self) -> (text: String)
        ensures
            text@ == self.message_text(),
    {
        match self {
            CrawlError::MissingAccount(_) => String::from_str("no account data found"),
            CrawlError::ClientError(cause, value) => {
                let mut text = String::from_str("RPC call failed with error: ");
                text.append(cause.as_str());
                text.append(" for value: ");
                text.append(value.as_str());
                text
            },
            CrawlError::PubkeyParseFailed(_) => String::from_str(
                "failed to parse string into Pubkey",
            ),
            CrawlError::SignatureParseFailed(cause) => {
                let mut text = String::from_str("Failed to parse signature: ");
                text.append(cause.as_str());
                text
            },
            CrawlError::AmbiguousMatch(_, _) => String::from_str(
                "more than one qualifying instruction in a transaction",
            ),
        }
    }
}

/// Why the instructions of one transaction could not be read.
#[derive(Debug, Copy, Clone, PartialEq, Eq, Structural)]
pub enum DecodeError {
    /// The transaction is not in the JSON encoding.
    NotJson,
    /// The message of the transaction is in the raw form, not the decoded one.
    RawMessage,
    /// An instruction is in the compiled form, not the decoded one.
    CompiledInstruction,
}

} // verus!
