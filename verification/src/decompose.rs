//! Decomposition of a `coap` URI into an endpoint and request options.
//!
//! The checks run in a fixed order: scheme, fragment, host, path. The first
//! one that fails decides the error.

use vstd::prelude::*;
use vstd::string::*;

use crate::address::{ip_literal, IpAddress, SocketAddress};
use crate::endpoint::{Endpoint, EndpointView};
use crate::error::{Error, ErrorView, UrlError, UrlErrorView};
use crate::options::{numbers_ascend, CoapOption, CoapOptionView, Options};
use crate::percent::{depercent, depercent_spec};
use crate::text::{lowercased, split, split_text};
use crate::uri_parts::{UriParts, UriPartsView};

verus! {

/// The port of a `coap` URI that names none.
pub const DEFAULT_PORT: u16 = 5683;

/// The only scheme that is accepted: `coap`.
pub open spec fn coap_scheme() -> Seq<char> {
    seq!['c', 'o', 'a', 'p']
}

/// The path of a URI that has none: `/`.
pub open spec fn root_path() -> Seq<char> {
    seq!['/']
}

/// The host of a URI, told apart: an IP address literal, or a name in its
/// lowercase form with its escapes still in place.
#[derive(Debug, Clone, PartialEq, Eq)]
pub enum Host {
    Literal(IpAddress),
    Name(String),
}

/// The mathematical value of a [`Host`].
pub enum HostView {
    Literal(IpAddress),
    Name(Seq<char>),
}

impl View for Host {
    type V = HostView;

    open spec fn view(&self) -> HostView {
        match self {
            Host::Literal(ip) => HostView::Literal(*ip),
            Host::Name(name) => HostView::Name(name@),
        }
    }
}

/// What a decomposition yields: the endpoint and the options in order.
pub type Decomposed = Result<(EndpointView, Seq<CoapOptionView>), ErrorView>;

/// The failure of a decomposition for the reason `reason`.
pub open spec fn rejected(reason: UrlErrorView) -> Decomposed {
    Err(ErrorView::UrlParsing(reason))
}

/// The mathematical value of what [`decompose`] and [`compose`] return.
pub open spec fn decomposed_view(result: Result<(Endpoint, Options), Error>) -> Decomposed {
    match result {
        Ok((endpoint, options)) => Ok((endpoint@, options@)),
        Err(e) => Err(e@),
    }
}

/// How the host `host` of a URI is told apart: text that is an IP address
/// literal is that address, any other text is a name, taken in lowercase.
pub open spec fn classified(host: Seq<char>) -> HostView {
    match ip_literal(host) {
        Some(ip) => HostView::Literal(ip),
        None => HostView::Name(lowercased(host)),
    }
}

/// The pieces `pieces` with their escapes decoded, if each of them decodes.
pub open spec fn decode_each(pieces: Seq<Seq<char>>) -> Option<Seq<Seq<char>>> {
    if forall|k: int| 0 <= k < pieces.len() ==> depercent_spec(#[trigger] pieces[k]) is Some {
        Some(Seq::new(pieces.len(), |k: int| depercent_spec(pieces[k])->0))
    } else {
        None
    }
}

/// The segments of the absolute path `path`: the pieces between slashes,
/// without the empty piece before the first slash. A trailing slash and two
/// slashes in a row each give an empty segment.
pub open spec fn path_segments(path: Seq<char>) -> Seq<Seq<char>> {
    split(path, '/').drop_first()
}

/// The arguments of the query `query`: none for an empty query, else the
/// pieces between ampersands.
pub open spec fn query_arguments(query: Seq<char>) -> Seq<Seq<char>> {
    if query.len() == 0 {
        Seq::empty()
    } else {
        split(query, '&')
    }
}

/// The Uri-Host option of a host: one for a name, none for a literal.
pub open spec fn host_options(name: Option<Seq<char>>) -> Seq<CoapOptionView> {
    match name {
        Some(n) => seq![CoapOptionView::UriHost(n)],
        None => Seq::empty(),
    }
}

/// One Uri-Path option for each of `segments`, in order.
pub open spec fn path_options(segments: Seq<Seq<char>>) -> Seq<CoapOptionView> {
    Seq::new(segments.len(), |k: int| CoapOptionView::UriPath(segments[k]))
}

/// One Uri-Query option for each of `arguments`, in order.
pub open spec fn query_options(arguments: Seq<Seq<char>>) -> Seq<CoapOptionView> {
    Seq::new(arguments.len(), |k: int| CoapOptionView::UriQuery(arguments[k]))
}

/// The decoded name of a host that is a name; `None` for a literal. The
/// outer `None` stands for a name that does not decode.
pub open spec fn decoded_name(host: HostView) -> Option<Option<Seq<char>>> {
    match host {
        HostView::Literal(_) => Some(None),
        HostView::Name(name) => match depercent_spec(name) {
            Some(decoded) => Some(Some(decoded)),
            None => None,
        },
    }
}

/// The endpoint for a host and a port.
pub open spec fn endpoint_for(host: HostView, name: Option<Seq<char>>, port: u16) -> EndpointView {
    match (host, name) {
        (HostView::Literal(ip), _) => EndpointView::Resolved(SocketAddress { ip, port }),
        (HostView::Name(_), Some(n)) => EndpointView::Unresolved(n, port),
        (HostView::Name(n), None) => EndpointView::Unresolved(n, port),
    }
}

/// What [`compose`] returns.
///
/// A name that does not decode fails first, then a path that is not
/// absolute, then a path segment or a query argument that does not decode.
/// Otherwise the endpoint is the literal address, or the decoded name, with
/// the port or 5683; the options are Uri-Host for a name, then one Uri-Path
/// for each path segment, then one Uri-Query for each query argument.
pub open spec fn compose_spec(
    host: HostView,
    port: Option<u16>,
    path: Option<Seq<char>>,
    query: Option<Seq<char>>,
) -> Decomposed {
    let port = match port {
        Some(p) => p,
        None => DEFAULT_PORT,
    };
    let path = match path {
        Some(p) => p,
        None => root_path(),
    };
    let query = match query {
        Some(q) => q,
        None => Seq::empty(),
    };
    match decoded_name(host) {
        None => rejected(UrlErrorView::PercentDecode),
        Some(name) => if path.len() == 0 || path[0] != '/' {
            rejected(UrlErrorView::PathNotAbsolute)
        } else {
            match (decode_each(path_segments(path)), decode_each(query_arguments(query))) {
                (Some(segments), Some(arguments)) => Ok(
                    (
                        endpoint_for(host, name, port),
                        host_options(name) + path_options(segments) + query_options(arguments),
                    ),
                ),
                _ => rejected(UrlErrorView::PercentDecode),
            }
        },
    }
}

/// What [`decompose`] returns.
///
/// A scheme other than `coap` fails first, then a fragment, then a missing
/// host; what is left is [`compose_spec`] of the host told apart.
pub open spec fn decompose_spec(uri: UriPartsView) -> Decomposed {
    if uri.scheme != coap_scheme() {
        rejected(UrlErrorView::UnsupportedScheme(uri.scheme))
    } else if uri.fragment is Some {
        rejected(UrlErrorView::FragmentNotAllowed)
    } else {
        match uri.host {
            None => rejected(UrlErrorView::MissingHost),
            Some(host) => compose_spec(classified(host), uri.port, uri.path, uri.query),
        }
    }
}

/// The texts of `pieces`.
spec fn texts(pieces: Seq<&str>) -> Seq<Seq<char>> {
    Seq::new(pieces.len(), |k: int| pieces[k]@)
}

impl Host {
    /// Tells the host `text` of a URI apart.
    pub fn classify(text: &str) -> (host: Host)
        ensures
            host@ == classified(text@),
    {
        match IpAddress::parse(text) {
            Some(ip) => Host::Literal(ip),
            None => Host::Name(text.to_lowercase()),
        }
    }
}

/// Decodes `pieces[from..]` and appends one option for each to `options`:
/// Uri-Query options if `as_query` is set, Uri-Path options if not.
fn push_decoded(options: &mut Options, pieces: &Vec<&str>, from: usize, as_query: bool) -> (done:
    Result<(), Error>)
    requires
        from <= pieces@.len(),
    ensures
        match done {
            Ok(_) => decode_each(texts(pieces@).skip(from as int)) matches Some(decoded)
                && final(options)@ == old(options)@ + if as_query {
                query_options(decoded)
            } else {
                path_options(decoded)
            },
            Err(e) => decode_each(texts(pieces@).skip(from as int)) is None && e@
                == ErrorView::UrlParsing(UrlErrorView::PercentDecode),
        },
{
    let ghost wanted = texts(pieces@).skip(from as int);
    let ghost before = options@;
    let mut k: usize = from;
    while k < pieces.len()
        invariant
            from <= k <= pieces@.len(),
            wanted == texts(pieces@).skip(from as int),
            forall|j: int| 0 <= j < k - from ==> depercent_spec(#[trigger] wanted[j]) is Some,
            options@.len() == before.len() + (k - from),
            forall|j: int| 0 <= j < before.len() ==> options@[j] == before[j],
            forall|j: int|
                0 <= j < k - from ==> #[trigger] options@[before.len() + j] == if as_query {
                    CoapOptionView::UriQuery(depercent_spec(wanted[j])->0)
                } else {
                    CoapOptionView::UriPath(depercent_spec(wanted[j])->0)
                },
        decreases pieces@.len() - k,
    {
        assert(wanted[k - from] == pieces@[k as int]@);
        match depercent(pieces[k]) {
            Ok(decoded) => {
                if as_query {
                    options.push(CoapOption::UriQuery(decoded));
                } else {
                    options.push(CoapOption::UriPath(decoded));
                }
            },
            Err(e) => {
                return Err(e);
            },
        }
        k = k + 1;
    }
    proof {
        let decoded = decode_each(wanted)->0;
        let added = if as_query {
            query_options(decoded)
        } else {
            path_options(decoded)
        };
        assert(wanted.len() == k - from);
        assert forall|i: int| 0 <= i < options@.len() implies options@[i] == (before + added)[i] by {
            if i >= before.len() {
                let j = i - before.len();
                assert(options@[before.len() + j] == added[j]);
            }
        }
        assert(options@ =~= before + added);
    }
    Ok(())
}

/// Builds the endpoint and the options for a host that was told apart and
/// the port, path and query of its URI, each as written there.
pub fn compose(host: Host, port: Option<u16>, path: Option<String>, query: Option<String>) -> (result:
    Result<(Endpoint, Options), Error>)
    ensures
        decomposed_view(result) == compose_spec(
            host@,
            port,
            crate::uri_parts::text_view(path),
            crate::uri_parts::text_view(query),
        ),
        result matches Ok((_, options)) ==> numbers_ascend(options@),
{
    let mut options = Options::new();
    let port = match port {
        Some(p) => p,
        None => DEFAULT_PORT,
    };
    let ghost name: Option<Seq<char>> = None;
    let endpoint = match host {
        Host::Literal(ip) => Endpoint::Resolved(SocketAddress::new(ip, port)),
        Host::Name(name_text) => {
            let decoded = match depercent(name_text.as_str()) {
                Ok(d) => d,
                Err(e) => {
                    return Err(e);
                },
            };
            proof {
                name = Some(decoded@);
            }
            options.push(CoapOption::UriHost(decoded.clone()));
            Endpoint::Unresolved(decoded, port)
        },
    };
    assert(options@ =~= host_options(name));
    let path = match path {
        Some(p) => p,
        None => String::from_str("/"),
    };
    proof {
        reveal_strlit("/");
        assert("/"@ =~= root_path());
    }
    if path.as_str().is_empty() || path.as_str().get_char(0) != '/' {
        return Err(Error::UrlParsing(UrlError::PathNotAbsolute));
    }
    let segments = split_text(path.as_str(), '/');
    proof {
        crate::text::lemma_split_nonempty(path@, '/');
        assert(texts(segments@) =~= split(path@, '/'));
        assert(texts(segments@).skip(1) =~= path_segments(path@));
    }
    match push_decoded(&mut options, &segments, 1, false) {
        Ok(_) => {},
        Err(e) => {
            return Err(e);
        },
    }
    let query = match query {
        Some(q) => q,
        None => String::new(),
    };
    if !query.as_str().is_empty() {
        let arguments = split_text(query.as_str(), '&');
        proof {
            assert(texts(arguments@) =~= split(query@, '&'));
            assert(texts(arguments@).skip(0) =~= query_arguments(query@));
        }
        match push_decoded(&mut options, &arguments, 0, true) {
            Ok(_) => {},
            Err(e) => {
                return Err(e);
            },
        }
    } else {
        assert(query_arguments(query@) =~= Seq::<Seq<char>>::empty());
        assert(options@ + query_options(Seq::empty()) =~= options@);
    }
    proof {
        lemma_composed_numbers_ascend(
            name,
            decode_each(path_segments(path@))->0,
            decode_each(query_arguments(query@))->0,
        );
    }
    Ok((endpoint, options))
}

/// Decomposes a URI into the endpoint to contact and the options of the
/// request, in the order in which they are to be sent.
pub fn decompose(uri: UriParts) -> (result: Result<(Endpoint, Options), Error>)
    ensures
        decomposed_view(result) == decompose_spec(uri@),
        result matches Ok((_, options)) ==> numbers_ascend(options@),
{
    let UriParts { scheme, host, port, path, query, fragment } = uri;
    let coap = String::from_str("coap");
    proof {
        reveal_strlit("coap");
        assert("coap"@ =~= coap_scheme());
    }
    if !(scheme == coap) {
        return Err(Error::UrlParsing(UrlError::UnsupportedScheme(scheme)));
    }
    if fragment.is_some() {
        return Err(Error::UrlParsing(UrlError::FragmentNotAllowed));
    }
    let host = match host {
        Some(h) => h,
        None => {
            return Err(Error::UrlParsing(UrlError::MissingHost));
        },
    };
    compose(Host::classify(host.as_str()), port, path, query)
}

/// The options of a decomposition come in the order of their numbers:
/// Uri-Host before every Uri-Path, and every Uri-Path before every
/// Uri-Query.
pub proof fn lemma_composed_numbers_ascend(
    name: Option<Seq<char>>,
    segments: Seq<Seq<char>>,
    arguments: Seq<Seq<char>>,
)
    ensures
        numbers_ascend(host_options(name) + path_options(segments) + query_options(arguments)),
{
    let all = host_options(name) + path_options(segments) + query_options(arguments);
    let h = host_options(name).len();
    let p = path_options(segments).len();
    assert forall|i: int| 0 <= i < all.len() implies (#[trigger] all[i]).number() == if i < h {
        crate::options::URI_HOST
    } else if i < h + p {
        crate::options::URI_PATH
    } else {
        crate::options::URI_QUERY
    } by {
        if i < h {
            assert(all[i] == host_options(name)[i]);
        } else if i < h + p {
            assert(all[i] == path_options(segments)[i - h]);
        } else {
            assert(all[i] == query_options(arguments)[i - h - p]);
        }
    }
}

/// The checks on a URI run in a fixed order, and the first that fails
/// decides the error: the scheme, then the fragment, then the presence of a
/// host, then the escapes of a host name, then the path. Mending one
/// violation therefore brings out the next one, whatever the parts that are
/// checked later hold.
pub proof fn lemma_checks_run_in_order(uri: UriPartsView)
    ensures
        uri.scheme != coap_scheme() ==> decompose_spec(uri) == rejected(
            UrlErrorView::UnsupportedScheme(uri.scheme),
        ),
        uri.scheme == coap_scheme() && uri.fragment is Some ==> decompose_spec(uri) == rejected(
            UrlErrorView::FragmentNotAllowed,
        ),
        uri.scheme == coap_scheme() && uri.fragment is None && uri.host is None ==> decompose_spec(
            uri,
        ) == rejected(UrlErrorView::MissingHost),
        uri.scheme == coap_scheme() && uri.fragment is None && uri.host is Some && decoded_name(
            classified(uri.host->0),
        ) is None ==> decompose_spec(uri) == rejected(UrlErrorView::PercentDecode),
        uri.scheme == coap_scheme() && uri.fragment is None && uri.host is Some && decoded_name(
            classified(uri.host->0),
        ) is Some && uri.path is Some && (uri.path->0.len() == 0 || uri.path->0[0] != '/')
            ==> decompose_spec(uri) == rejected(UrlErrorView::PathNotAbsolute),
{
}

/// A URI is accepted exactly when it passes every check: its scheme is
/// `coap`, it has no fragment, it has a host, the host is a literal or a
/// name that decodes, its path, if any, is absolute, and every path segment
/// and query argument decodes.
pub proof fn lemma_accepted_iff_all_checks_pass(uri: UriPartsView)
    ensures
        decompose_spec(uri) is Ok <==> {
            &&& uri.scheme == coap_scheme()
            &&& uri.fragment is None
            &&& uri.host is Some
            &&& decoded_name(classified(uri.host->0)) is Some
            &&& uri.path is Some ==> uri.path->0.len() > 0 && uri.path->0[0] == '/'
            &&& decode_each(
                path_segments(
                    match uri.path {
                        Some(p) => p,
                        None => root_path(),
                    },
                ),
            ) is Some
            &&& decode_each(
                query_arguments(
                    match uri.query {
                        Some(q) => q,
                        None => Seq::empty(),
                    },
                ),
            ) is Some
        },
{
}

/// A host that is an IP address literal gives a resolved endpoint at that
/// address, with the port of the URI or 5683, and no Uri-Host option.
pub proof fn lemma_literal_host_is_resolved(uri: UriPartsView, ip: IpAddress)
    requires
        uri.host is Some,
        ip_literal(uri.host->0) == Some(ip),
        decompose_spec(uri) is Ok,
    ensures
        decompose_spec(uri)->Ok_0.0 == EndpointView::Resolved(
            SocketAddress {
                ip,
                port: match uri.port {
                    Some(p) => p,
                    None => DEFAULT_PORT,
                },
            },
        ),
        forall|i: int|
            0 <= i < decompose_spec(uri)->Ok_0.1.len() ==> !(
            #[trigger] decompose_spec(uri)->Ok_0.1[i] is UriHost),
{
    let options = decompose_spec(uri)->Ok_0.1;
    let path = match uri.path {
        Some(p) => p,
        None => root_path(),
    };
    let query = match uri.query {
        Some(q) => q,
        None => Seq::empty(),
    };
    let segments = decode_each(path_segments(path))->0;
    let arguments = decode_each(query_arguments(query))->0;
    assert(options == host_options(None) + path_options(segments) + query_options(arguments));
    assert forall|i: int| 0 <= i < options.len() implies !(#[trigger] options[i] is UriHost) by {
        if i < segments.len() {
            assert(options[i] == path_options(segments)[i]);
        } else {
            assert(options[i] == query_options(arguments)[i - segments.len()]);
        }
    }
}

/// A host that is no IP address literal gives an unresolved endpoint: the
/// name in lowercase with its escapes decoded, and the port of the URI or
/// 5683. The same name is the first option, a Uri-Host, and the only one.
pub proof fn lemma_named_host_is_unresolved(uri: UriPartsView)
    requires
        uri.host is Some,
        ip_literal(uri.host->0) is None,
        decompose_spec(uri) is Ok,
    ensures
        depercent_spec(lowercased(uri.host->0)) is Some,
        decompose_spec(uri)->Ok_0.0 == EndpointView::Unresolved(
            depercent_spec(lowercased(uri.host->0))->0,
            match uri.port {
                Some(p) => p,
                None => DEFAULT_PORT,
            },
        ),
        decompose_spec(uri)->Ok_0.1.len() >= 1,
        decompose_spec(uri)->Ok_0.1[0] == CoapOptionView::UriHost(
            depercent_spec(lowercased(uri.host->0))->0,
        ),
        forall|i: int|
            1 <= i < decompose_spec(uri)->Ok_0.1.len() ==> !(
            #[trigger] decompose_spec(uri)->Ok_0.1[i] is UriHost),
{
    let options = decompose_spec(uri)->Ok_0.1;
    let name = depercent_spec(lowercased(uri.host->0))->0;
    let path = match uri.path {
        Some(p) => p,
        None => root_path(),
    };
    let query = match uri.query {
        Some(q) => q,
        None => Seq::empty(),
    };
    let segments = decode_each(path_segments(path))->0;
    let arguments = decode_each(query_arguments(query))->0;
    assert(options == host_options(Some(name)) + path_options(segments) + query_options(
        arguments,
    ));
    assert(options[0] == host_options(Some(name))[0]);
    assert forall|i: int| 1 <= i < options.len() implies !(#[trigger] options[i] is UriHost) by {
        if i < 1 + segments.len() {
            assert(options[i] == path_options(segments)[i - 1]);
        } else {
            assert(options[i] == query_options(arguments)[i - 1 - segments.len()]);
        }
    }
}

/// An accepted URI always gives at least one Uri-Path option: a path is
/// absolute, so even `/` alone has one segment, the empty one.
pub proof fn lemma_path_gives_an_option(uri: UriPartsView)
    requires
        decompose_spec(uri) is Ok,
    ensures
        exists|i: int|
            0 <= i < decompose_spec(uri)->Ok_0.1.len() && #[trigger] decompose_spec(
                uri,
            )->Ok_0.1[i] is UriPath,
{
    let options = decompose_spec(uri)->Ok_0.1;
    let name = decoded_name(classified(uri.host->0))->0;
    let path = match uri.path {
        Some(p) => p,
        None => root_path(),
    };
    let query = match uri.query {
        Some(q) => q,
        None => Seq::empty(),
    };
    let segments = decode_each(path_segments(path))->0;
    let arguments = decode_each(query_arguments(query))->0;
    lemma_absolute_path_has_segment(path);
    let h = host_options(name).len() as int;
    assert(options == host_options(name) + path_options(segments) + query_options(arguments));
    assert(options[h] == path_options(segments)[0]);
    assert(options[h] is UriPath);
}

/// A path that begins with `/` has at least one segment.
pub proof fn lemma_absolute_path_has_segment(path: Seq<char>)
    requires
        path.len() > 0,
        path[0] == '/',
    ensures
        path_segments(path).len() >= 1,
    decreases path.len(),
{
    crate::text::lemma_split_nonempty(path.drop_last(), '/');
    if path.len() > 1 {
        assert(path.drop_last()[0] == '/');
        lemma_absolute_path_has_segment(path.drop_last());
    } else {
        assert(path.drop_last().len() == 0);
    }
}

} // verus!
