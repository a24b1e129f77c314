//! The two kinds of failure that the engine tells apart.

use vstd::prelude::*;

verus! {

/// A failure as plain values.
pub enum ErrorView {
    NotFound(Seq<char>),
    Internal(Seq<char>),
}

/// A failure, with the text that describes it.
#[derive(Debug)]
pub enum Error {
    /// Something that was looked up does not exist.
    NotFound(String),
    /// Anything else: transport, decoding, configuration.
    Internal(String),
}

/// What the library's functions return where they can fail.
pub type Result<T> = std::result::Result<T, Error>;

impl View for Error {
    type V = ErrorView;

    open spec fn view(&self) -> ErrorView {
        match self {
            Error::NotFound(m) => ErrorView::NotFound(m@),
            Error::Internal(m) => ErrorView::Internal(m@),
        }
    }
}

/// The text that describes a failure.
pub open spec fn error_text(e: ErrorView) -> Seq<char> {
    match e {
        ErrorView::NotFound(m) => "not found, message: "@ + m,
        ErrorView::Internal(m) => "internal error, "@ + m,
    }
}

impl Error {
    /// Tells a failure that ends the task from a missing resource, which only
    /// ends the work on one show.
    pub fn fatal(&self) -> (r: bool)
        ensures
            r == (self@ is Internal),
    {
        match self {
            Error::NotFound(_) => false,
            Error::Internal(_) => true,
        }
    }

    /// The text that describes the failure.
    pub fn message(&self) -> (r: String)
        ensures
            r@ == error_text(self@),
    {
        match self {
            Error::NotFound(m) => {
                let mut r = String::from_str("not found, message: ");
                r.append(m.as_str());
                r
            },
            Error::Internal(m) => {
                let mut r = String::from_str("internal error, ");
                r.append(m.as_str());
                r
            },
        }
    }
}

} // verus!
