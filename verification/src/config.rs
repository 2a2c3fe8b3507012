//! The check that a model's configuration file is readable before the model is
//! loaded: the file must hold one JSON value.

use crate::error::TranscribeError;
use vstd::prelude::*;
use vstd::string::*;

verus! {

/// What `serde_json` reports for a text that is not one JSON value: the message of
/// its error; `None` for a text that it reads.
pub uninterp spec fn json_fault(text: Seq<char>) -> Option<Seq<char>>;

/// Reads `content` with `serde_json::from_str` as a `serde_json::Value` and hands back
/// the message of the error, if there is one. The value itself is dropped. Nothing is
/// claimed about which texts are read, only that the answer depends on the text alone.
#[verifier::external_body]
fn read_json(content: &str) -> (fault: Option<String>)
    ensures
        match json_fault(content@) {
            Some(text) => fault matches Some(message) && message@ == text,
            None => fault is None,
        },
{
    serde_json::from_str::<serde_json::Value>(content).err().map(|e| e.to_string())
}

/// Turns the outcome of reading a configuration into the outcome of the check.
pub fn config_verdict(fault: Option<String>) -> (res: Result<(), TranscribeError>)
    ensures
        match fault {
            None => res is Ok,
            Some(message) => res matches Err(TranscribeError::ModelLoadFailed { cause }) && cause@
                == "Failed to parse config JSON: "@ + message@,
        },
{
    match fault {
        None => Ok(()),
        Some(message) => Err(
            TranscribeError::ModelLoadFailed {
                cause: String::from_str("Failed to parse config JSON: ").concat(message.as_str()),
            },
        ),
    }
}

/// Checks the text of a model's configuration file.
pub fn check_model_config(content: &str) -> (res: Result<(), TranscribeError>)
    ensures
        match json_fault(content@) {
            None => res is Ok,
            Some(text) => res matches Err(TranscribeError::ModelLoadFailed { cause }) && cause@
                == "Failed to parse config JSON: "@ + text,
        },
{
    config_verdict(read_json(content))
}

} // verus!
