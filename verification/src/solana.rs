//! Addresses and signatures, as the Solana SDK holds them.
//!
//! Nothing in this file is proved: each contract says what the SDK function does, in terms of
//! a name for its result.

use solana_sdk::pubkey::Pubkey;
use solana_sdk::signature::{ParseSignatureError, Signature};
use std::str::FromStr;
use vstd::prelude::*;

verus! {

/// `solana_sdk::pubkey::Pubkey`: the address of an account, 32 bytes.
#[verifier::external_type_specification]
#[verifier::external_body]
pub struct ExPubkey(Pubkey);

/// `solana_sdk::signature::Signature`: the identifier of a transaction, 64 bytes.
#[verifier::external_type_specification]
#[verifier::external_body]
pub struct ExSignature(Signature);

/// `solana_sdk::signature::ParseSignatureError`: why a text is not a signature.
#[verifier::external_type_specification]
#[verifier::external_body]
pub struct ExParseSignatureError(ParseSignatureError);

/// `core::array::TryFromSliceError`, which the conversions of `Signature` name.
#[verifier::external_type_specification]
#[verifier::external_body]
pub struct ExTryFromSliceError(core::array::TryFromSliceError);

/// The text of an address: its bytes in base 58, as `Pubkey` displays itself.
pub uninterp spec fn pubkey_text(key: Pubkey) -> Seq<char>;

/// What parsing a text as a signature gives, as `Signature::from_str` does it: the signature
/// whose bytes the text is in base 58, or the reason why the text is none.
pub uninterp spec fn signature_from_text(text: Seq<char>) -> Result<Signature, ParseSignatureError>;

/// The text of a parse error, as `ParseSignatureError` displays itself.
pub uninterp spec fn parse_error_text(error: ParseSignatureError) -> Seq<char>;

/// `Pubkey::to_string`: the address in base 58. The result is the named one,
/// `pubkey_text(key)`: a function of the bytes of the key alone.
#[verifier::external_body]
pub(crate) fn pubkey_to_string(key: &Pubkey) -> (text: String)
    ensures
        text@ == pubkey_text(*key),
{
    key.to_string()
}

/// `Signature::from_str`: decodes a text in base 58 into the 64 bytes of a signature. The
/// result is the named one, `signature_from_text(text)`: a function of the text alone.
#[verifier::external_body]
pub(crate) fn signature_from_str(text: &str) -> (parsed: Result<Signature, ParseSignatureError>)
    ensures
        parsed == signature_from_text(text@),
{
    Signature::from_str(text)
}

/// `ParseSignatureError::to_string`: the text of the error. The result is the named one,
/// `parse_error_text(error)`.
#[verifier::external_body]
pub(crate) fn parse_error_to_string(error: &ParseSignatureError) -> (text: String)
    ensures
        text@ == parse_error_text(*error),
{
    error.to_string()
}

} // verus!
