//! The error of the theme engine.
use vstd::prelude::*;

use crate::text::{chars_of, push_text, text_of};

verus! {

/// What went wrong, as a message for the user.
#[derive(Debug)]
pub struct CodexError(String);

impl View for CodexError {
    type V = Seq<char>;

    closed spec fn view(&self) -> Seq<char> {
        self.0@
    }
}

impl CodexError {
    /// An error with a message.
    pub fn new(message: &str) -> (result: CodexError)
        ensures
            result@ == message@,
    {
        CodexError(message.to_owned())
    }

    /// An error whose message goes on with a detail.
    pub fn detailed(message: &str, detail: &str) -> (result: CodexError)
        ensures
            result@ == message@ + detail@,
    {
        let mut chars = chars_of(message);
        push_text(&mut chars, detail);
        CodexError(text_of(chars.as_slice()))
    }

    /// The message.
    pub fn message(&self) -> (result: &str)
        ensures
            result@ == self@,
    {
        self.0.as_str()
    }
}

/// An error tells the message that it was made with, with its detail behind it.
pub proof fn error_tells_its_message(
    message: &str,
    detail: &str,
    plain: CodexError,
    long: CodexError,
    told: &str,
    told_long: &str,
)
    requires
        call_ensures(CodexError::new, (message,), plain),
        call_ensures(CodexError::detailed, (message, detail), long),
        call_ensures(CodexError::message, (&plain,), told),
        call_ensures(CodexError::message, (&long,), told_long),
    ensures
        told@ == message@,
        told_long@ == message@ + detail@,
{
}

} // verus!
