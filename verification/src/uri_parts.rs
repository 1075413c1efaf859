//! The parts of a URI that decomposition reads.

use vstd::prelude::*;
use vstd::string::*;

verus! {

/// A URI taken apart: its scheme and, where present, its host, port, path,
/// query and fragment, each as written in the URI.
#[derive(Debug, Clone, PartialEq, Eq)]
pub struct UriParts {
    pub scheme: String,
    pub host: Option<String>,
    pub port: Option<u16>,
    pub path: Option<String>,
    pub query: Option<String>,
    pub fragment: Option<String>,
}

/// The mathematical value of a [`UriParts`].
pub struct UriPartsView {
    pub scheme: Seq<char>,
    pub host: Option<Seq<char>>,
    pub port: Option<u16>,
    pub path: Option<Seq<char>>,
    pub query: Option<Seq<char>>,
    pub fragment: Option<Seq<char>>,
}

/// The value of an optional text.
pub open spec fn text_view(text: Option<String>) -> Option<Seq<char>> {
    match text {
        Some(s) => Some(s@),
        None => None,
    }
}

impl View for UriParts {
    type V = UriPartsView;

    open spec fn view(&self) -> UriPartsView {
        UriPartsView {
            scheme: self.scheme@,
            host: text_view(self.host),
            port: self.port,
            path: text_view(self.path),
            query: text_view(self.query),
            fragment: text_view(self.fragment),
        }
    }
}

/// What `uri::Uri::new` makes of `text`: the parts it found, or `None`
/// where it rejects the text.
pub uninterp spec fn parsed_uri(text: Seq<char>) -> Option<UriPartsView>;

#[verifier::external_type_specification]
#[verifier::external_body]
pub struct ExParseError(::uri::ParseError);

/// Calls `uri::Uri::new` on `text` and keeps the scheme, host, port, path,
/// query and fragment that it found.
///
/// Trusted: the outcome depends on the characters of `text` alone.
#[verifier::external_body]
fn parse_uri(text: &str) -> (parsed: Result<UriParts, ::uri::ParseError>)
    ensures
        match parsed {
            Ok(parts) => parsed_uri(text@) == Some(parts@),
            Err(_) => parsed_uri(text@) is None,
        },
{
    match ::uri::Uri::new(text) {
        Ok(u) => Ok(
            UriParts {
                scheme: u.scheme,
                host: u.host,
                port: u.port,
                path: u.path,
                query: u.query,
                fragment: u.fragment,
            },
        ),
        Err(e) => Err(e),
    }
}

impl UriParts {
    /// Takes the URI `text` apart. `None` where `text` is not a URI.
    pub fn parse(text: &str) -> (parts: Option<UriParts>)
        ensures
            match parts {
                Some(p) => parsed_uri(text@) == Some(p@),
                None => parsed_uri(text@) is None,
            },
    {
        match parse_uri(text) {
            Ok(parts) => Some(parts),
            Err(_) => None,
        }
    }
}

} // verus!
