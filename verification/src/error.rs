//! The error kinds surfaced by the pagination engine.

use vstd::prelude::*;

verus! {

/// Every failure the engine reports to its caller.
///
/// - `RequestFailure`: transport-level failure or non-2xx response; carries
///   the text of the underlying cause.
/// - `DecodeFailure`: the response body is not a JSON array matching the
///   expected item type.
/// - `MalformedLinkHeader`: a `Link` header was present but one of its
///   segments lacks a `<url>` part or a `rel` parameter.
/// - `MissingLinkHeader`: no `Link` header was present, reported only when
///   the caller asked for the strict policy; the default policy treats a
///   missing header as "this is the only page".
/// - `UrlParse`: a base URL or route could not be parsed or resolved;
///   carries the text of the underlying cause.
#[derive(Debug, Clone, PartialEq, Eq)]
pub enum Error {
    RequestFailure { cause: String },
    DecodeFailure { cause: String },
    MalformedLinkHeader,
    MissingLinkHeader,
    UrlParse { cause: String },
}

/// The mathematical shape of an [`Error`]: the same variants over character
/// sequences, so that contracts can compare errors by content.
pub enum ErrorModel {
    RequestFailure { cause: Seq<char> },
    DecodeFailure { cause: Seq<char> },
    MalformedLinkHeader,
    MissingLinkHeader,
    UrlParse { cause: Seq<char> },
}

impl View for Error {
    type V = ErrorModel;

    open spec fn view(&self) -> ErrorModel {
        match self {
            Error::RequestFailure { cause } => ErrorModel::RequestFailure { cause: cause@ },
            Error::DecodeFailure { cause } => ErrorModel::DecodeFailure { cause: cause@ },
            Error::MalformedLinkHeader => ErrorModel::MalformedLinkHeader,
            Error::MissingLinkHeader => ErrorModel::MissingLinkHeader,
            Error::UrlParse { cause } => ErrorModel::UrlParse { cause: cause@ },
        }
    }
}

} // verus!
