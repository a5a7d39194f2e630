//! The errors a request can end in, each with its HTTP status.

use vstd::prelude::*;

verus! {

/// Why a request failed.
#[derive(Debug)]
pub enum Error {
    /// A key segment that the route declares is absent from the matched path.
    MissingPathSegment(String),
    /// A key segment is present but does not read as its column's type.
    InvalidPathSegment(String),
    /// The key decoded, but no record has it.
    NotFound,
    /// The write collides with a record that holds the same key.
    Conflict(String),
    /// Any other failure of the persistence layer.
    Backend(String),
}

/// The mathematical form of an [`Error`].
pub enum ErrorView {
    MissingPathSegment(Seq<char>),
    InvalidPathSegment(Seq<char>),
    NotFound,
    Conflict(Seq<char>),
    Backend(Seq<char>),
}

impl View for Error {
    type V = ErrorView;

    open spec fn view(&self) -> ErrorView {
        match self {
            Error::MissingPathSegment(s) => ErrorView::MissingPathSegment(s@),
            Error::InvalidPathSegment(s) => ErrorView::InvalidPathSegment(s@),
            Error::NotFound => ErrorView::NotFound,
            Error::Conflict(s) => ErrorView::Conflict(s@),
            Error::Backend(s) => ErrorView::Backend(s@),
        }
    }
}

/// The outcome of a request step.
pub type Result<T> = core::result::Result<T, Error>;

/// The HTTP status an error is answered with.
pub open spec fn status_of(e: ErrorView) -> u16 {
    match e {
        ErrorView::MissingPathSegment(_) => 404,
        ErrorView::InvalidPathSegment(_) => 400,
        ErrorView::NotFound => 404,
        ErrorView::Conflict(_) => 409,
        ErrorView::Backend(_) => 500,
    }
}

/// The body an error is answered with.
pub open spec fn message_of(e: ErrorView) -> Seq<char> {
    match e {
        ErrorView::MissingPathSegment(s) => "Missing path segment "@ + s,
        ErrorView::InvalidPathSegment(s) => "Invalid path segment "@ + s,
        ErrorView::NotFound => "Not found"@,
        ErrorView::Conflict(s) => s,
        ErrorView::Backend(s) => s,
    }
}

/// The error for a key segment that the matched path lacks.
#[allow(non_snake_case)]
pub fn MissingPathSegment(segment: &str) -> (e: Error)
    ensures
        e@ == ErrorView::MissingPathSegment(segment@),
{
    Error::MissingPathSegment(String::from_str(segment))
}

/// The error for a key segment that does not read as its column's type.
#[allow(non_snake_case)]
pub fn InvalidPathSegment(segment: &str) -> (e: Error)
    ensures
        e@ == ErrorView::InvalidPathSegment(segment@),
{
    Error::InvalidPathSegment(String::from_str(segment))
}

impl Error {
    pub fn status_code(&self) -> (r: u16)
        ensures
            r == status_of(self@),
    {
        match self {
            Error::MissingPathSegment(_) => 404,
            Error::InvalidPathSegment(_) => 400,
            Error::NotFound => 404,
            Error::Conflict(_) => 409,
            Error::Backend(_) => 500,
        }
    }

    pub fn message(&self) -> (r: String)
        ensures
            r@ == message_of(self@),
    {
        match self {
            Error::MissingPathSegment(s) => String::from_str("Missing path segment ").concat(
                s.as_str(),
            ),
            Error::InvalidPathSegment(s) => String::from_str("Invalid path segment ").concat(
                s.as_str(),
            ),
            Error::NotFound => String::from_str("Not found"),
            Error::Conflict(s) => s.clone(),
            Error::Backend(s) => s.clone(),
        }
    }
}

} // verus!
