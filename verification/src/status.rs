//! Status codes, as they are named in messages.

use crate::decimal::{decimal, push_decimal};
use crate::outside::{show_status, status_text};
use vstd::prelude::*;

verus! {

/// How a status is named, given the text that the HTTP library has for it:
/// that text, and the bare number where it has none.
pub open spec fn status_named(status: u16, shown: Option<Seq<char>>) -> Seq<char> {
    match shown {
        Some(text) => text,
        None => decimal(status as nat),
    }
}

/// The status as it is named in a message: the number with its reason
/// phrase, and the bare number where it is no status code.
pub open spec fn status_shown(status: u16) -> Seq<char> {
    status_named(status, status_text(status))
}

/// The text of `shown`, where there is one.
pub open spec fn shown_text(shown: Option<String>) -> Option<Seq<char>> {
    match shown {
        Some(text) => Some(text@),
        None => None,
    }
}

/// Appends the name of the status to `out`, given the text that the HTTP
/// library has for it.
pub fn push_status_named(out: &mut String, status: u16, shown: Option<String>)
    ensures
        final(out)@ == old(out)@ + status_named(status, shown_text(shown)),
{
    match shown {
        Some(text) => out.append(text.as_str()),
        None => push_decimal(out, status as u64),
    }
}

/// Appends the status to `out`, as it is named in a message.
pub fn push_status(out: &mut String, status: u16)
    ensures
        final(out)@ == old(out)@ + status_shown(status),
{
    let shown = show_status(status);
    push_status_named(out, status, shown)
}

} // verus!
