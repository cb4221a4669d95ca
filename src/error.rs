//! The single error kind of the library.
use vstd::prelude::*;
use vstd::string::StringExecFns;

verus! {

/// The message of an error about the field named `name`: the constraint that
/// failed, followed by the field's name.
pub open spec fn field_message(constraint: Seq<char>, name: Seq<char>) -> Seq<char> {
    constraint + ": field "@ + name
}

/// A failure with a human-readable diagnostic message.
#[derive(Debug, Clone, PartialEq)]
pub struct Error {
    pub message: String,
}

/// The result type used throughout the library.
pub type Result<T> = core::result::Result<T, Error>;

impl Error {
    /// Build an error that carries `message`.
    pub fn new(message: &str) -> (e: Error)
        ensures
            e.message@ == message@,
    {
        Error { message: message.to_owned() }
    }

    /// Build an error whose message names the field it concerns.
    pub fn for_field(message: &str, field: &str) -> (e: Error)
        ensures
            e.message@ == field_message(message@, field@),
    {
        let mut text = message.to_owned();
        text.append(": field ");
        text.append(field);
        Error { message: text }
    }

    /// The diagnostic message.
    pub fn message(&self) -> (r: &str)
        ensures
            r@ == self.message@,
    {
        self.message.as_str()
    }
}

} // verus!
