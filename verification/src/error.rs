//! The failures this crate reports.

use vstd::prelude::*;
use vstd::string::*;

verus! {

/// Why a URI could not be turned into a request.
#[derive(Debug, Clone, PartialEq, Eq)]
pub enum UrlError {
    /// The text is not a URI.
    Syntax,
    /// The scheme is not `coap`; carries the scheme that was given.
    UnsupportedScheme(String),
    /// The URI has a fragment.
    FragmentNotAllowed,
    /// The URI names no host.
    MissingHost,
    /// The path does not begin with `/`.
    PathNotAbsolute,
    /// A percent-decoded component is not UTF-8.
    PercentDecode,
}

/// The mathematical value of a [`UrlError`].
pub enum UrlErrorView {
    Syntax,
    UnsupportedScheme(Seq<char>),
    FragmentNotAllowed,
    MissingHost,
    PathNotAbsolute,
    PercentDecode,
}

impl View for UrlError {
    type V = UrlErrorView;

    open spec fn view(&self) -> UrlErrorView {
        match self {
            UrlError::Syntax => UrlErrorView::Syntax,
            UrlError::UnsupportedScheme(s) => UrlErrorView::UnsupportedScheme(s@),
            UrlError::FragmentNotAllowed => UrlErrorView::FragmentNotAllowed,
            UrlError::MissingHost => UrlErrorView::MissingHost,
            UrlError::PathNotAbsolute => UrlErrorView::PathNotAbsolute,
            UrlError::PercentDecode => UrlErrorView::PercentDecode,
        }
    }
}

/// Every way a request can fail.
#[derive(Debug, Clone, PartialEq, Eq)]
pub enum Error {
    /// The URI was rejected before any network activity.
    UrlParsing(UrlError),
    /// A send was attempted with no endpoint configured.
    EndpointNotSet,
    /// The host name could not be resolved to an address.
    ResolutionError,
    /// No matching response arrived before the deadline.
    Timeout,
    /// The transport failed.
    Io,
    /// The codec failed on the outgoing message.
    Decode,
}

/// The mathematical value of an [`Error`].
pub enum ErrorView {
    UrlParsing(UrlErrorView),
    EndpointNotSet,
    ResolutionError,
    Timeout,
    Io,
    Decode,
}

impl View for Error {
    type V = ErrorView;

    open spec fn view(&self) -> ErrorView {
        match self {
            Error::UrlParsing(e) => ErrorView::UrlParsing(e@),
            Error::EndpointNotSet => ErrorView::EndpointNotSet,
            Error::ResolutionError => ErrorView::ResolutionError,
            Error::Timeout => ErrorView::Timeout,
            Error::Io => ErrorView::Io,
            Error::Decode => ErrorView::Decode,
        }
    }
}

/// The text of the message for a scheme other than `coap` and `coaps`.
pub open spec fn other_scheme_text(scheme: Seq<char>) -> Seq<char> {
    scheme + " is not a coap scheme"@
}

impl UrlError {
    /// The human-readable reason, as a sequence of characters.
    pub open spec fn reason(self) -> Seq<char> {
        match self {
            UrlError::Syntax => "not a valid uri"@,
            UrlError::UnsupportedScheme(s) => if s@ == "coaps"@ {
                "the coaps scheme is currently unsupported"@
            } else {
                other_scheme_text(s@)
            },
            UrlError::FragmentNotAllowed => "cannot specify fragment on coap url"@,
            UrlError::MissingHost => "missing host, a coap url must be absolute"@,
            UrlError::PathNotAbsolute => "path does not start with /, a coap url must be absolute"@,
            UrlError::PercentDecode => "percent-decoded text is not valid utf-8"@,
        }
    }

    /// The human-readable reason for this failure.
    pub fn message(&self) -> (text: String)
        ensures
            text@ == self.reason(),
    {
        match self {
            UrlError::Syntax => String::from_str("not a valid uri"),
            UrlError::UnsupportedScheme(s) => {
                let coaps = String::from_str("coaps");
                if *s == coaps {
                    String::from_str("the coaps scheme is currently unsupported")
                } else {
                    s.clone().concat(" is not a coap scheme")
                }
            },
            UrlError::FragmentNotAllowed => String::from_str("cannot specify fragment on coap url"),
            UrlError::MissingHost => String::from_str("missing host, a coap url must be absolute"),
            UrlError::PathNotAbsolute => String::from_str(
                "path does not start with /, a coap url must be absolute",
            ),
            UrlError::PercentDecode => String::from_str("percent-decoded text is not valid utf-8"),
        }
    }
}

impl Error {
    /// Whether this is a rejection of the URI.
    pub fn is_url_parsing(&self) -> (yes: bool)
        ensures
            yes == (self@ is UrlParsing),
    {
        match self {
            Error::UrlParsing(_) => true,
            _ => false,
        }
    }
}

} // verus!
