//! Errors that the library reports.

use vstd::prelude::*;

verus! {

/// What went wrong, with the message shown to the user.
#[derive(Debug)]
pub enum Error {
    /// The configuration, or a file or callback that it calls for, is unusable.
    Config(String),
    /// The model does not have the inputs, outputs or shapes that it must have.
    Model(String),
    /// The audio front end was driven outside its fixed geometry.
    Audio(String),
}

/// The mathematical counterpart of [`Error`].
pub enum ErrorView {
    Config(Seq<char>),
    Model(Seq<char>),
    Audio(Seq<char>),
}

impl View for Error {
    type V = ErrorView;

    open spec fn view(&self) -> ErrorView {
        match *self {
            Error::Config(message) => ErrorView::Config(message@),
            Error::Model(message) => ErrorView::Model(message@),
            Error::Audio(message) => ErrorView::Audio(message@),
        }
    }
}

impl ErrorView {
    /// The message, whatever the variant.
    pub open spec fn message(self) -> Seq<char> {
        match self {
            ErrorView::Config(message) => message,
            ErrorView::Model(message) => message,
            ErrorView::Audio(message) => message,
        }
    }
}

/// The outcome `r` with its error, if any, in mathematical form.
pub open spec fn outcome<T>(r: Result<T, Error>) -> Result<T, ErrorView> {
    match r {
        Ok(value) => Ok(value),
        Err(e) => Err(e@),
    }
}

impl Error {
    /// The message, whatever the variant.
    pub fn message(&self) -> (message: &str)
        ensures
            message@ == self@.message(),
    {
        match self {
            Error::Config(message) => message.as_str(),
            Error::Model(message) => message.as_str(),
            Error::Audio(message) => message.as_str(),
        }
    }
}

/// The message of an error is the text that it holds, whatever its variant.
pub proof fn errors_hold_their_message(e: &Error, r: &str)
    requires
        call_ensures(Error::message, (e,), r),
    ensures
        r@ == match *e {
            Error::Config(text) => text@,
            Error::Model(text) => text@,
            Error::Audio(text) => text@,
        },
{
}

/// An error is shown under its own variant, with its own text, and a result as it is.
pub proof fn errors_are_shown_as_what_they_are<T>(e: Error, r: Result<T, Error>)
    ensures
        e matches Error::Config(text) ==> e@ == ErrorView::Config(text@),
        e matches Error::Model(text) ==> e@ == ErrorView::Model(text@),
        e matches Error::Audio(text) ==> e@ == ErrorView::Audio(text@),
        r is Ok <==> outcome(r) is Ok,
        r matches Ok(value) ==> outcome(r)->Ok_0 == value,
        r matches Err(e) ==> outcome(r)->Err_0 == e@,
{
}

} // verus!
