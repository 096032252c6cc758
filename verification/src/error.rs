//! The errors that fetching can end in, and the kinds they fall into.

use vstd::prelude::*;

verus! {

/// The broad kinds of failure that callers tell apart.
#[derive(Clone, Copy, Debug, PartialEq, Eq, Structural)]
pub enum ErrorKind {
    /// A response lacks a header that identity or size is read from.
    MissingResponseHeader,
    /// A header is there but cannot be used.
    InvalidResponseHeader,
    /// The network, the connection or the status of a response.
    Transport,
    /// A chunk was tried more often than the configuration allows.
    TooManyRetries,
    /// No slot for another retry could be had.
    ConcurrencyLimit,
    /// The local file system.
    Io,
}

/// All errors that fetching can end in.
#[derive(Debug, PartialEq, Eq)]
pub enum ApiError {
    /// A header that information is derived from is missing; holds its name.
    MissingHeader(String),
    /// The header exists but its value is not what is expected; holds its name.
    InvalidHeader(String),
    /// The value cannot be sent as a header; holds the reason.
    InvalidHeaderValue(String),
    /// A header value is not visible text.
    ToStr,
    /// The request failed; holds the reason.
    RequestError(String),
    /// A size is not a number.
    ParseIntError,
    /// The file system failed; holds the reason.
    IoError(String),
    /// A chunk was tried too many times; holds the failure of its last attempt.
    TooManyRetries(Box<ApiError>),
    /// No retry slot is free; holds the reason.
    TryAcquireError(String),
    /// The concurrency limit can no longer be waited for; holds the reason.
    AcquireError(String),
}

/// An `ApiError` with its texts as character sequences.
pub enum ApiErrorView {
    MissingHeader(Seq<char>),
    InvalidHeader(Seq<char>),
    InvalidHeaderValue(Seq<char>),
    ToStr,
    RequestError(Seq<char>),
    ParseIntError,
    IoError(Seq<char>),
    TooManyRetries(Box<ApiErrorView>),
    TryAcquireError(Seq<char>),
    AcquireError(Seq<char>),
}

impl View for ApiError {
    type V = ApiErrorView;

    open spec fn view(&self) -> ApiErrorView
        decreases self,
    {
        match self {
            ApiError::MissingHeader(name) => ApiErrorView::MissingHeader(name@),
            ApiError::InvalidHeader(name) => ApiErrorView::InvalidHeader(name@),
            ApiError::InvalidHeaderValue(why) => ApiErrorView::InvalidHeaderValue(why@),
            ApiError::ToStr => ApiErrorView::ToStr,
            ApiError::RequestError(why) => ApiErrorView::RequestError(why@),
            ApiError::ParseIntError => ApiErrorView::ParseIntError,
            ApiError::IoError(why) => ApiErrorView::IoError(why@),
            ApiError::TooManyRetries(inner) => ApiErrorView::TooManyRetries(Box::new((**inner)@)),
            ApiError::TryAcquireError(why) => ApiErrorView::TryAcquireError(why@),
            ApiError::AcquireError(why) => ApiErrorView::AcquireError(why@),
        }
    }
}

impl ApiErrorView {
    /// The kind that the error falls into.
    pub open spec fn kind(self) -> ErrorKind {
        match self {
            ApiErrorView::MissingHeader(_) => ErrorKind::MissingResponseHeader,
            ApiErrorView::InvalidHeader(_) => ErrorKind::InvalidResponseHeader,
            ApiErrorView::InvalidHeaderValue(_) => ErrorKind::InvalidResponseHeader,
            ApiErrorView::ToStr => ErrorKind::InvalidResponseHeader,
            ApiErrorView::RequestError(_) => ErrorKind::Transport,
            ApiErrorView::ParseIntError => ErrorKind::InvalidResponseHeader,
            ApiErrorView::IoError(_) => ErrorKind::Io,
            ApiErrorView::TooManyRetries(_) => ErrorKind::TooManyRetries,
            ApiErrorView::TryAcquireError(_) => ErrorKind::ConcurrencyLimit,
            ApiErrorView::AcquireError(_) => ErrorKind::ConcurrencyLimit,
        }
    }

    /// The sentence that reports the error.
    pub open spec fn message(self) -> Seq<char>
        decreases self,
    {
        match self {
            ApiErrorView::MissingHeader(name) => "Header "@ + name + " is missing"@,
            ApiErrorView::InvalidHeader(name) => "Header "@ + name + " is invalid"@,
            ApiErrorView::InvalidHeaderValue(why) => "Invalid header value "@ + why,
            ApiErrorView::ToStr => "header value is not a string"@,
            ApiErrorView::RequestError(why) => "request error: "@ + why,
            ApiErrorView::ParseIntError => "Cannot parse int"@,
            ApiErrorView::IoError(why) => "I/O error "@ + why,
            ApiErrorView::TooManyRetries(inner) => "Too many retries: "@ + inner.message(),
            ApiErrorView::TryAcquireError(why) => "Try acquire: "@ + why,
            ApiErrorView::AcquireError(why) => "Acquire: "@ + why,
        }
    }
}

impl ApiError {
    /// The kind that the error falls into.
    pub fn kind(&self) -> (k: ErrorKind)
        ensures
            k == self@.kind(),
    {
        match self {
            ApiError::MissingHeader(_) => ErrorKind::MissingResponseHeader,
            ApiError::InvalidHeader(_) => ErrorKind::InvalidResponseHeader,
            ApiError::InvalidHeaderValue(_) => ErrorKind::InvalidResponseHeader,
            ApiError::ToStr => ErrorKind::InvalidResponseHeader,
            ApiError::RequestError(_) => ErrorKind::Transport,
            ApiError::ParseIntError => ErrorKind::InvalidResponseHeader,
            ApiError::IoError(_) => ErrorKind::Io,
            ApiError::TooManyRetries(_) => ErrorKind::TooManyRetries,
            ApiError::TryAcquireError(_) => ErrorKind::ConcurrencyLimit,
            ApiError::AcquireError(_) => ErrorKind::ConcurrencyLimit,
        }
    }

    /// The sentence that reports the error.
    pub fn message(&self) -> (out: String)
        ensures
            out@ == self@.message(),
        decreases self,
    {
        match self {
            ApiError::MissingHeader(name) => {
                "Header ".to_owned().concat(name.as_str()).concat(" is missing")
            },
            ApiError::InvalidHeader(name) => {
                "Header ".to_owned().concat(name.as_str()).concat(" is invalid")
            },
            ApiError::InvalidHeaderValue(why) => {
                "Invalid header value ".to_owned().concat(why.as_str())
            },
            ApiError::ToStr => "header value is not a string".to_owned(),
            ApiError::RequestError(why) => "request error: ".to_owned().concat(why.as_str()),
            ApiError::ParseIntError => "Cannot parse int".to_owned(),
            ApiError::IoError(why) => "I/O error ".to_owned().concat(why.as_str()),
            ApiError::TooManyRetries(inner) => {
                let rest = inner.message();
                "Too many retries: ".to_owned().concat(rest.as_str())
            },
            ApiError::TryAcquireError(why) => "Try acquire: ".to_owned().concat(why.as_str()),
            ApiError::AcquireError(why) => "Acquire: ".to_owned().concat(why.as_str()),
        }
    }
}

} // verus!
