//! The library's error type.
use vstd::prelude::*;

verus! {

/// The failures that the crawler tells apart.
#[derive(Debug)]
pub enum FerrumenaError {
    /// A request failed in transport: the network, DNS or a timeout.
    Network(String),
    /// A directory or file operation failed.
    Io(String),
    /// An element or attribute that the markup should hold is missing.
    DomParse { selector: String, location: String },
    /// A value was there but could not be read: an id, a count, a mapping.
    Logic(String),
    /// A configuration value is invalid.
    Config(String),
    /// Anything else.
    Unknown(String),
}

/// A `Logic` error whose message is `what` followed by `detail`.
pub fn logic_error(what: &str, detail: &str) -> (e: FerrumenaError)
    ensures
        e is Logic,
        e->Logic_0@ == what@ + detail@,
{
    let mut message = String::from_str(what);
    message.append(detail);
    FerrumenaError::Logic(message)
}

/// A `DomParse` error for `selector` at `location`.
pub fn dom_error(selector: &str, location: &str) -> (e: FerrumenaError)
    ensures
        e is DomParse,
        e->selector@ == selector@,
        e->location@ == location@,
{
    FerrumenaError::DomParse {
        selector: String::from_str(selector),
        location: String::from_str(location),
    }
}

} // verus!
