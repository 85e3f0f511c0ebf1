//! The answer of the venue to a request for a depth snapshot.

use vstd::prelude::*;

verus! {

/// The error that an answer of the venue reports: none where the answer
/// holds no error code, else the message it gives, or `Unknown error` where
/// it gives none.
pub fn api_error_message(has_code: bool, msg: Option<String>) -> (error: Option<String>)
    ensures
        error is Some <==> has_code,
        error matches Some(text) ==> text@ == match msg {
            Some(m) => m@,
            None => "Unknown error"@,
        },
{
    if !has_code {
        return None;
    }
    match msg {
        Some(m) => Some(m),
        None => Some("Unknown error".to_string()),
    }
}

} // verus!
