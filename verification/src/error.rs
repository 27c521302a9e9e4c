//! The error type shared by every fallible translation step.
//!
//! Every failure is carried as a message; outer steps prepend context with
//! `": "` as the separator, so a rendered message reads as a chain from the
//! outermost step down to the root cause.

use vstd::prelude::*;
use vstd::string::StringExecFns;

verus! {

#[derive(Debug)]
pub struct Error {
    msg: String,
}

impl View for Error {
    type V = Seq<char>;

    closed spec fn view(&self) -> Seq<char> {
        self.msg@
    }
}

impl Error {
    /// Wraps a message as an error.
    pub fn new(msg: String) -> (r: Error)
        ensures
            r@ == msg@,
    {
        Error { msg }
    }

    /// The rendered message.
    pub fn message(&self) -> (r: String)
        ensures
            r@ == self@,
    {
        self.msg.clone()
    }

    /// Prepends one step of context to the message.
    pub fn context(self, prefix: &str) -> (r: Error)
        ensures
            r@ == prefix@ + ": "@ + self@,
    {
        let mut m = String::from_str(prefix);
        m.append(": ");
        m.append(self.msg.as_str());
        Error { msg: m }
    }
}

} // verus!
