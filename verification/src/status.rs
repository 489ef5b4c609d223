//! The status of an answer.

use vstd::prelude::*;
use crate::text;

verus! {

/// The words that go with a status.
pub uninterp spec fn status_reason(code: u16) -> Seq<char>;

/// The numbers that can be a status.
pub open spec fn is_status(code: u16) -> bool {
    100 <= code <= 999
}

/// A status, as it is shown: its number and its words.
pub open spec fn status_line(code: u16) -> Seq<char> {
    text::decimal(code as nat) + " "@ + status_reason(code)
}

/// `reqwest::StatusCode::is_success` holds of the numbers from 200 to 299.
#[verifier::external_body]
pub(crate) fn is_success(code: u16) -> (r: bool)
    ensures
        r == (200 <= code < 300),
{
    reqwest::StatusCode::from_u16(code).is_ok_and(|status| status.is_success())
}

/// `reqwest::StatusCode::to_string` writes the number of a status, a space
/// and its words. `StatusCode::from_u16` takes the numbers of three digits.
#[verifier::external_body]
pub(crate) fn status_text(code: u16) -> (r: Option<String>)
    ensures
        text::chars_if_any(r) == (if is_status(code) {
            Some(text::decimal(code as nat) + " "@ + status_reason(code))
        } else {
            None
        }),
{
    reqwest::StatusCode::from_u16(code).ok().map(|status| status.to_string())
}

} // verus!
