//! The ways in which a request to the service can fail.

use vstd::prelude::*;

verus! {

/// A failure, with the text that describes its cause where there is one.
#[derive(Debug, PartialEq, Eq)]
pub enum Error {
    /// The transfer failed, the server answered with a status that is no
    /// success, or a response body could not be read.
    HttpError(String),
    /// The credential material does not make a header value.
    InvalidHeaders(String),
    /// No authenticated client is at hand, because an earlier step failed.
    CannotConstructHttpClient,
    /// The token endpoint refused the login or answered with something else
    /// than a token grant.
    CannotLogin(String),
    /// The query could not be turned into a request body.
    QuerySerialization(String),
    /// A page could not be split into records.
    Deserialization(String),
}

/// What an [`Error`] holds, as a mathematical value.
pub enum ErrorView {
    HttpError(Seq<char>),
    InvalidHeaders(Seq<char>),
    CannotConstructHttpClient,
    CannotLogin(Seq<char>),
    QuerySerialization(Seq<char>),
    Deserialization(Seq<char>),
}

impl ErrorView {
    /// The sentence shown to a user for this failure.
    pub open spec fn message(self) -> Seq<char> {
        match self {
            ErrorView::HttpError(cause) => "http error: "@ + cause,
            ErrorView::InvalidHeaders(cause) => "invalid headers: "@ + cause,
            ErrorView::CannotConstructHttpClient =>
                "cannot construct client due to previous error in initialization"@,
            ErrorView::CannotLogin(cause) => "cannot login: "@ + cause,
            ErrorView::QuerySerialization(cause) => "could not compose the query: "@ + cause,
            ErrorView::Deserialization(cause) => "could not deserialize response: "@ + cause,
        }
    }
}

impl View for Error {
    type V = ErrorView;

    open spec fn view(&self) -> ErrorView {
        match self {
            Error::HttpError(cause) => ErrorView::HttpError(cause@),
            Error::InvalidHeaders(cause) => ErrorView::InvalidHeaders(cause@),
            Error::CannotConstructHttpClient => ErrorView::CannotConstructHttpClient,
            Error::CannotLogin(cause) => ErrorView::CannotLogin(cause@),
            Error::QuerySerialization(cause) => ErrorView::QuerySerialization(cause@),
            Error::Deserialization(cause) => ErrorView::Deserialization(cause@),
        }
    }
}

impl Error {
    /// The sentence shown to a user for this failure.
    pub fn message(&self) -> (text: String)
        ensures
            text@ == self@.message(),
    {
        match self {
            Error::HttpError(cause) => "http error: ".to_owned().concat(cause.as_str()),
            Error::InvalidHeaders(cause) => "invalid headers: ".to_owned().concat(cause.as_str()),
            Error::CannotConstructHttpClient =>
                "cannot construct client due to previous error in initialization".to_owned(),
            Error::CannotLogin(cause) => "cannot login: ".to_owned().concat(cause.as_str()),
            Error::QuerySerialization(cause) =>
                "could not compose the query: ".to_owned().concat(cause.as_str()),
            Error::Deserialization(cause) =>
                "could not deserialize response: ".to_owned().concat(cause.as_str()),
        }
    }
}

} // verus!
