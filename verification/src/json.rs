//! JSON settings. A registry row keeps its settings as text; they are
//! parsed when the row is read and written out when it is stored. Both are
//! the work of `serde_json`, whose results are only named here.

use vstd::prelude::*;
use crate::error::{Entity, Failure, FailureKind};

verus! {

/// `serde_json::Value`, a JSON value. It is carried through as it is:
/// nothing inside it is looked at here.
#[verifier::external_type_specification]
#[verifier::external_body]
pub struct ExValue(serde_json::Value);

/// `serde_json::Error`, why reading or writing JSON failed. Only that it
/// failed is used here.
#[verifier::external_type_specification]
#[verifier::external_body]
pub struct ExJsonError(serde_json::Error);

/// The value that `serde_json::from_str` reads from `text`, or none where
/// it refuses the text.
pub uninterp spec fn parsed_json(text: Seq<char>) -> Option<serde_json::Value>;

/// The text that `serde_json::to_string` writes for `value`, or none where
/// it fails.
pub uninterp spec fn json_text(value: serde_json::Value) -> Option<Seq<char>>;

/// `serde_json::from_str`, for a `serde_json::Value`. The contract gives
/// the outcome its name and claims nothing else: which texts are accepted
/// and what is read from them is left to the crate.
#[verifier::external_body]
fn from_str(text: &str) -> (r: Result<serde_json::Value, serde_json::Error>)
    ensures
        match r {
            Ok(value) => parsed_json(text@) == Some(value),
            Err(_) => parsed_json(text@) is None,
        },
{
    serde_json::from_str::<serde_json::Value>(text)
}

/// `serde_json::to_string`, of a `serde_json::Value`. The contract gives
/// the outcome its name and claims nothing else.
#[verifier::external_body]
fn to_string(value: &serde_json::Value) -> (r: Result<String, serde_json::Error>)
    ensures
        match r {
            Ok(text) => json_text(*value) == Some(text@),
            Err(_) => json_text(*value) is None,
        },
{
    serde_json::to_string(value)
}

/// What reading the settings of a row of `entity` gives: the value that
/// the text holds, or a format error where it holds none.
pub open spec fn read_settings(text: Seq<char>, entity: Entity) -> Result<
    serde_json::Value,
    Failure,
> {
    match parsed_json(text) {
        Some(value) => Ok(value),
        None => Err(Failure { kind: FailureKind::FormatError, entity }),
    }
}

/// What writing the settings for a row of `entity` gives: the text of the
/// value, or a validation error where it has none.
pub open spec fn written_settings(value: serde_json::Value, entity: Entity) -> Result<
    Seq<char>,
    Failure,
> {
    match json_text(value) {
        Some(text) => Ok(text),
        None => Err(Failure { kind: FailureKind::ValidationError, entity }),
    }
}

/// Reads settings from their text. Text that holds no JSON value is a
/// format error about `entity`.
pub fn parse_settings(text: &str, entity: Entity) -> (r: Result<serde_json::Value, Failure>)
    ensures
        r == read_settings(text@, entity),
{
    match from_str(text) {
        Ok(value) => Ok(value),
        Err(_) => Err(Failure::new(FailureKind::FormatError, entity)),
    }
}

/// Writes settings out as text. A value that cannot be written is a
/// validation error about `entity`.
pub fn write_settings(value: &serde_json::Value, entity: Entity) -> (r: Result<String, Failure>)
    ensures
        match r {
            Ok(text) => Ok::<Seq<char>, Failure>(text@),
            Err(e) => Err(e),
        } == written_settings(*value, entity),
{
    match to_string(value) {
        Ok(text) => Ok(text),
        Err(_) => Err(Failure::new(FailureKind::ValidationError, entity)),
    }
}

} // verus!
