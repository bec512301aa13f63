//! A body as JSON.

use vstd::prelude::*;
use vstd::string::*;
use serde_json::Value;
use crate::error::{Fault, IoError, IoErrorKind};

verus! {

/// `serde_json::Value`, a JSON value. The library carries such a value from
/// the parser to the caller and looks at nothing inside it.
#[verifier::external_type_specification]
#[verifier::external_body]
pub struct ExValue(Value);

/// What `serde_json` makes of bytes that are to be one JSON value: the
/// value that it reads, or the text that its error displays.
pub uninterp spec fn json_read(bytes: Seq<u8>) -> Result<Value, Seq<char>>;

/// The JSON value that the bytes stand for, where they stand for one.
pub open spec fn json_value(bytes: Seq<u8>) -> Value {
    json_read(bytes)->Ok_0
}

/// Why the bytes are not read as one JSON value: the text of the parser's
/// error, or `None` where they are read.
pub open spec fn json_rejection(bytes: Seq<u8>) -> Option<Seq<char>> {
    match json_read(bytes) {
        Ok(_) => None,
        Err(message) => Some(message),
    }
}

/// `serde_json::from_slice`, for a `serde_json::Value`; a failure is handed
/// on as the text that the parser's error displays.
///
/// The result is named, not described: the value, or the text of the
/// failure, is what the parser makes of these bytes.
#[verifier::external_body]
fn json_from_slice(bytes: &[u8]) -> (r: Result<Value, String>)
    ensures
        match r {
            Ok(value) => json_read(bytes@) == Ok::<Value, Seq<char>>(value),
            Err(message) => json_read(bytes@) == Err::<Value, Seq<char>>(message@),
        },
{
    match serde_json::from_slice(bytes) {
        Ok(value) => Ok(value),
        Err(error) => Err(error.to_string()),
    }
}

/// The words that introduce a JSON failure.
pub open spec fn json_failure_prefix() -> Seq<char> {
    "Failed to read JSON: "@
}

/// The error of a body that is not the JSON that was asked for: a data
/// error that carries the parser's message.
pub fn json_parse_failure(message: &str) -> (e: IoError)
    ensures
        e@ == (Fault { kind: IoErrorKind::InvalidData, message: json_failure_prefix() + message@ }),
{
    let mut text = String::from_str("Failed to read JSON: ");
    text.append(message);
    IoError { kind: IoErrorKind::InvalidData, message: text }
}

/// What a read error becomes where JSON was expected: a timeout stays a
/// timeout; any other failure is a data error that carries the message of
/// the read error.
pub open spec fn json_read_fault(fault: Fault) -> Fault {
    if fault.kind == IoErrorKind::TimedOut {
        fault
    } else {
        Fault { kind: IoErrorKind::InvalidData, message: json_failure_prefix() + fault.message }
    }
}

/// The error of a body that could not be read while JSON was expected: a
/// timeout stays a timeout; any other failure is a data error that carries
/// the message of the read error.
pub fn json_read_failure(error: IoError) -> (e: IoError)
    ensures
        e@ == json_read_fault(error@),
{
    match error.kind {
        IoErrorKind::TimedOut => error,
        _ => json_parse_failure(error.message.as_str()),
    }
}

/// What a parsed body becomes: the value, or the data error of the failure.
pub fn json_outcome(parsed: Result<Value, String>) -> (r: Result<Value, IoError>)
    ensures
        match parsed {
            Ok(value) => r == Ok::<Value, IoError>(value),
            Err(message) => r matches Err(e) && e@ == (Fault {
                kind: IoErrorKind::InvalidData,
                message: json_failure_prefix() + message@,
            }),
        },
{
    match parsed {
        Ok(value) => Ok(value),
        Err(message) => Err(json_parse_failure(message.as_str())),
    }
}

/// What reading bytes as JSON gives: the value that the bytes stand for, or
/// a data error that carries the parser's message.
pub open spec fn parsed_as_json(bytes: Seq<u8>, r: Result<Value, IoError>) -> bool {
    match json_rejection(bytes) {
        None => r == Ok::<Value, IoError>(json_value(bytes)),
        Some(message) => r matches Err(e) && e@ == (Fault {
            kind: IoErrorKind::InvalidData,
            message: json_failure_prefix() + message,
        }),
    }
}

/// Reads a JSON value from bytes. Bytes that are not one JSON value give a
/// data error that carries the parser's message.
pub fn parse_json(bytes: &[u8]) -> (r: Result<Value, IoError>)
    ensures
        parsed_as_json(bytes@, r),
{
    json_outcome(json_from_slice(bytes))
}

} // verus!
