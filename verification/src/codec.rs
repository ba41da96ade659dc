//! The entity codec: records are JSON text written and parsed by
//! `serde_json`. Parsing into a caller's type is the caller's; this module
//! says what a failed attempt becomes.

use vstd::prelude::*;
use vstd::string::StringExecFns;

verus! {

/// `serde_json::Error`, the error of every `serde_json` call. Its contents
/// stay hidden.
#[verifier::external_type_specification]
#[verifier::external_body]
pub struct ExJsonError(serde_json::Error);

/// What `serde_json` made of one attempt to write or parse a record.
pub type Json<T> = Result<T, serde_json::Error>;

/// Why a value could not be turned into a record, or a record into a value.
/// Each variant keeps the codec's own account of the failure.
#[derive(Debug, Clone)]
pub enum CodecError {
    /// The value could not be written as a record.
    EncodeFailed(String),
    /// The record is not well formed for the type asked for.
    DecodeFailed(String),
}

/// The `Display` form of a `serde_json::Error`, as `to_string` gives it.
/// Nothing is claimed of the text.
#[verifier::external_body]
fn describe(error: &serde_json::Error) -> (detail: String) {
    error.to_string()
}

impl CodecError {
    /// The codec's account of the failure.
    pub open spec fn detail(self) -> Seq<char> {
        match self {
            CodecError::EncodeFailed(detail) => detail@,
            CodecError::DecodeFailed(detail) => detail@,
        }
    }

    /// What stands before the codec's account in the error's text.
    pub open spec fn heading(self) -> Seq<char> {
        match self {
            CodecError::EncodeFailed(_) => "save_entity serde_json error: "@,
            CodecError::DecodeFailed(_) => "get_entity serde_json error: "@,
        }
    }

    /// The error's text: which operation failed, then the codec's account.
    pub open spec fn message(self) -> Seq<char> {
        self.heading() + self.detail()
    }

    /// The error as one line of text.
    pub fn to_string(&self) -> (text: String)
        ensures
            text@ == self.message(),
    {
        match self {
            CodecError::EncodeFailed(detail) => {
                let mut text = String::from_str("save_entity serde_json error: ");
                text.append(detail.as_str());
                text
            },
            CodecError::DecodeFailed(detail) => {
                let mut text = String::from_str("get_entity serde_json error: ");
                text.append(detail.as_str());
                text
            },
        }
    }
}

/// The outcome of writing a value as a record: the text where the codec
/// gave one, `EncodeFailed` where it did not.
pub fn encode(written: Json<String>) -> (outcome: Result<String, CodecError>)
    ensures
        written matches Ok(text) ==> outcome == Ok::<String, CodecError>(text),
        written is Err ==> (outcome matches Err(error) && error is EncodeFailed),
{
    match written {
        Ok(text) => Ok(text),
        Err(error) => Err(CodecError::EncodeFailed(describe(&error))),
    }
}

/// The outcome of parsing a record: the value where the codec gave one,
/// `DecodeFailed` where the record is malformed for the type. Nothing of a
/// malformed record is kept.
pub fn decode<T>(parsed: Json<T>) -> (outcome: Result<T, CodecError>)
    ensures
        parsed matches Ok(value) ==> outcome == Ok::<T, CodecError>(value),
        parsed is Err ==> (outcome matches Err(error) && error is DecodeFailed),
{
    match parsed {
        Ok(value) => Ok(value),
        Err(error) => Err(CodecError::DecodeFailed(describe(&error))),
    }
}

} // verus!
