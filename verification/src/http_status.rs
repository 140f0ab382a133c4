//! How an HTTP status is rendered in messages: its code, a space, and its
//! standard reason phrase.

use vstd::prelude::*;
use vstd::string::*;
use crate::text::{decimal_string, decimal_text};

verus! {

/// The standard reason phrase of the HTTP status `code`, when it has one,
/// as the `http` crate's table of phrases gives it.
pub uninterp spec fn canonical_reason(code: u16) -> Option<Seq<char>>;

/// Calls `http::StatusCode::canonical_reason` on the status `code`
/// (converted by `StatusCode::from_u16`, which accepts exactly the codes
/// 100 to 999). The contract claims only that the phrase returned is the
/// one the `http` crate's table holds for the code, named
/// `canonical_reason`; which phrase that is is left unsaid here.
#[verifier::external_body]
fn reason_phrase(code: u16) -> (r: Option<&'static str>)
    requires
        100 <= code <= 999,
    ensures
        r is Some <==> canonical_reason(code) is Some,
        r matches Some(p) ==> canonical_reason(code) == Some(p@),
{
    match http::StatusCode::from_u16(code) {
        Ok(status) => status.canonical_reason(),
        Err(_) => None,
    }
}

/// An optional phrase as characters.
pub open spec fn phrase_view(reason: Option<&str>) -> Option<Seq<char>> {
    match reason {
        Some(p) => Some(p@),
        None => None,
    }
}

/// The rendering of status `code` with reason phrase `reason`: the code in
/// decimal, a space, then the phrase, or a placeholder when there is none.
pub open spec fn status_text_spec(code: u16, reason: Option<Seq<char>>) -> Seq<char> {
    decimal_text(code as nat) + " "@ + match reason {
        Some(p) => p,
        None => "<unknown status code>"@,
    }
}

/// Renders status `code` with the reason phrase `reason`.
pub fn status_text(code: u16, reason: Option<&str>) -> (t: String)
    ensures
        t@ == status_text_spec(code, phrase_view(reason)),
{
    let phrase: &str = match reason {
        Some(p) => p,
        None => "<unknown status code>",
    };
    decimal_string(code as u64).concat(" ").concat(phrase)
}

/// Renders status `code` with its standard reason phrase.
pub fn status_display(code: u16) -> (t: String)
    requires
        100 <= code <= 999,
    ensures
        t@ == status_text_spec(code, canonical_reason(code)),
{
    let reason = reason_phrase(code);
    status_text(code, reason)
}

} // verus!
