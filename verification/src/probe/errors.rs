//! Errors summarized for probe step reports.

use vstd::prelude::*;
use crate::json::JsonValue;

verus! {

/// Structured summary of an error for probe step reporting: its (redacted)
/// message and optional structured data.
pub struct ErrorDetails {
    pub message: String,
    pub data: Option<JsonValue>,
}

/// The optional error data for probe step payloads.
pub fn error_data(details: &ErrorDetails) -> (r: Option<JsonValue>)
    ensures
        match r {
            Some(v) => details.data matches Some(d) && v@ == d@,
            None => details.data is None,
        },
{
    match &details.data {
        Some(d) => Some(d.deep_clone()),
        None => None,
    }
}

} // verus!
