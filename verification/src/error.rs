//! The errors that the option store reports.

use vstd::prelude::*;

verus! {

/// What went wrong in a call on the schema or on the option store.
#[derive(Debug, PartialEq)]
pub enum Error {
    /// The schema text is defective: what is wrong, and the line or key at
    /// fault. A caller should treat this as fatal: it shows a fault in the
    /// program that carries the schema, not in what a user wrote.
    Schema(&'static str, String),
    /// A key or a raw value was refused: what is wrong, and the offending
    /// text.
    ConfigParser(&'static str, String),
    /// A stored value was read as a kind that it does not have, or a path
    /// cannot be written as text.
    BookOption(String),
    /// No value is stored under the key.
    InvalidOption(String),
}

/// An `Error` with the text of each field in place of the field.
pub enum ErrorView {
    Schema(Seq<char>, Seq<char>),
    ConfigParser(Seq<char>, Seq<char>),
    BookOption(Seq<char>),
    InvalidOption(Seq<char>),
}

impl View for Error {
    type V = ErrorView;

    open spec fn view(&self) -> ErrorView {
        match self {
            Error::Schema(what, text) => ErrorView::Schema(what@, text@),
            Error::ConfigParser(what, text) => ErrorView::ConfigParser(what@, text@),
            Error::BookOption(message) => ErrorView::BookOption(message@),
            Error::InvalidOption(message) => ErrorView::InvalidOption(message@),
        }
    }
}

/// The detail of a refused raw value: the key, a colon, the value.
pub open spec fn key_and_value(key: Seq<char>, value: Seq<char>) -> Seq<char> {
    key + ":"@ + value
}

/// The message for a key under which nothing is stored.
pub open spec fn not_present(key: Seq<char>) -> Seq<char> {
    "option "@ + key + " is not present"@
}

/// The message for a path that cannot be written as text.
pub open spec fn invalid_path(key: Seq<char>) -> Seq<char> {
    "'"@ + key + "''s path contains invalid UTF-8 code"@
}

impl Error {
    /// The error for a raw `value` that is not of the kind declared for
    /// `key`; `what` names the kind that could not be parsed.
    pub fn refused_value(what: &'static str, key: &str, value: &str) -> (e: Error)
        ensures
            e@ == ErrorView::ConfigParser(what@, key_and_value(key@, value@)),
    {
        let mut text = key.to_owned();
        text.append(":");
        text.append(value);
        Error::ConfigParser(what, text)
    }

    /// The error for a schema that gives `key` the first value `value`,
    /// which is not of the kind that it declares for the key.
    pub fn refused_value_in_schema(key: &str, value: &str) -> (e: Error)
        ensures
            e@ == ErrorView::Schema("invalid default value"@, key_and_value(key@, value@)),
    {
        let mut text = key.to_owned();
        text.append(":");
        text.append(value);
        Error::Schema("invalid default value", text)
    }

    /// The error for a `key` under which nothing is stored.
    pub fn absent(key: &str) -> (e: Error)
        ensures
            e@ == ErrorView::InvalidOption(not_present(key@)),
    {
        let mut text = "option ".to_owned();
        text.append(key);
        text.append(" is not present");
        Error::InvalidOption(text)
    }

    /// The error for a path under `key` that cannot be written as text.
    pub fn path_not_text(key: &str) -> (e: Error)
        ensures
            e@ == ErrorView::BookOption(invalid_path(key@)),
    {
        let mut text = "'".to_owned();
        text.append(key);
        text.append("''s path contains invalid UTF-8 code");
        Error::BookOption(text)
    }
}

} // verus!
