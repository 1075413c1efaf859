use coap_client::address::{IpAddress, SocketAddress};
use coap_client::client::Client;
use coap_client::decompose::{compose, decompose, Host, DEFAULT_PORT};
use coap_client::endpoint::Endpoint;
use coap_client::error::{Error, UrlError};
use coap_client::options::{CoapOption, Options};
use coap_client::uri_parts::UriParts;

fn parts(
    scheme: &str,
    host: Option<&str>,
    port: Option<u16>,
    path: Option<&str>,
    query: Option<&str>,
    fragment: Option<&str>,
) -> UriParts {
    UriParts {
        scheme: scheme.to_string(),
        host: host.map(|s| s.to_string()),
        port,
        path: path.map(|s| s.to_string()),
        query: query.map(|s| s.to_string()),
        fragment: fragment.map(|s| s.to_string()),
    }
}

fn listed(options: &Options) -> Vec<CoapOption> {
    options.as_slice().to_vec()
}

fn host(s: &str) -> CoapOption {
    CoapOption::UriHost(s.to_string())
}

fn path(s: &str) -> CoapOption {
    CoapOption::UriPath(s.to_string())
}

fn query(s: &str) -> CoapOption {
    CoapOption::UriQuery(s.to_string())
}

#[test]
fn named_host_with_path_and_query() {
    let uri = parts("coap", Some("example.com"), None, Some("/a/b"), Some("x=1"), None);
    let (endpoint, options) = decompose(uri).unwrap();
    assert_eq!(endpoint, Endpoint::Unresolved("example.com".to_string(), 5683));
    assert_eq!(listed(&options), vec![host("example.com"), path("a"), path("b"), query("x=1")]);
}

#[test]
fn named_host_through_get() {
    let client = Client::get("coap://example.com/a/b?x=1").unwrap();
    assert_eq!(client.endpoint(), &Endpoint::Unresolved("example.com".to_string(), 5683));
    assert_eq!(
        listed(&client.message().options),
        vec![host("example.com"), path("a"), path("b"), query("x=1")]
    );
}

#[test]
fn literal_host_is_resolved_without_host_option() {
    let uri = parts("coap", Some("192.0.2.1"), Some(9999), Some("/"), None, None);
    let (endpoint, options) = decompose(uri).unwrap();
    assert_eq!(
        endpoint,
        Endpoint::Resolved(SocketAddress { ip: IpAddress::V4(192, 0, 2, 1), port: 9999 })
    );
    assert!(listed(&options).iter().all(|o| !matches!(o, CoapOption::UriHost(_))));
    assert_eq!(listed(&options), vec![path("")]);
}

#[test]
fn literal_host_through_get() {
    let client = Client::get("coap://192.0.2.1:9999/").unwrap();
    assert_eq!(
        client.endpoint(),
        &Endpoint::Resolved(SocketAddress { ip: IpAddress::V4(192, 0, 2, 1), port: 9999 })
    );
    assert!(listed(&client.message().options).iter().all(|o| !matches!(o, CoapOption::UriHost(_))));
}

#[test]
fn coaps_scheme_is_unsupported() {
    let uri = parts("coaps", Some("h"), None, Some("/"), None, None);
    let e = decompose(uri).unwrap_err();
    assert_eq!(e, Error::UrlParsing(UrlError::UnsupportedScheme("coaps".to_string())));
    assert!(e.is_url_parsing());
    let e = Client::get("coaps://h/").unwrap_err();
    assert_eq!(e, Error::UrlParsing(UrlError::UnsupportedScheme("coaps".to_string())));
}

#[test]
fn other_scheme_is_unsupported() {
    let e = Client::get("http://h/").unwrap_err();
    assert_eq!(e, Error::UrlParsing(UrlError::UnsupportedScheme("http".to_string())));
}

#[test]
fn scheme_is_compared_exactly() {
    let e = decompose(parts("COAP", Some("h"), None, None, None, None)).unwrap_err();
    assert_eq!(e, Error::UrlParsing(UrlError::UnsupportedScheme("COAP".to_string())));
    let e = decompose(parts("", Some("h"), None, None, None, None)).unwrap_err();
    assert_eq!(e, Error::UrlParsing(UrlError::UnsupportedScheme(String::new())));
}

#[test]
fn fragment_is_not_allowed() {
    let uri = parts("coap", Some("h"), None, Some("/p"), None, Some("frag"));
    assert_eq!(decompose(uri).unwrap_err(), Error::UrlParsing(UrlError::FragmentNotAllowed));
    let e = Client::get("coap://h/p#frag").unwrap_err();
    assert_eq!(e, Error::UrlParsing(UrlError::FragmentNotAllowed));
}

#[test]
fn empty_fragment_is_not_allowed() {
    let uri = parts("coap", Some("h"), None, Some("/p"), None, Some(""));
    assert_eq!(decompose(uri).unwrap_err(), Error::UrlParsing(UrlError::FragmentNotAllowed));
}

#[test]
fn missing_host_is_rejected() {
    let uri = parts("coap", None, None, Some("/p"), None, None);
    assert_eq!(decompose(uri).unwrap_err(), Error::UrlParsing(UrlError::MissingHost));
}

#[test]
fn escaped_path_segment_is_decoded() {
    let uri = parts("coap", Some("h"), None, Some("/%61"), None, None);
    let (_, options) = decompose(uri).unwrap();
    assert_eq!(listed(&options), vec![host("h"), path("a")]);
    let client = Client::get("coap://h/%61").unwrap();
    assert_eq!(listed(&client.message().options), vec![host("h"), path("a")]);
}

#[test]
fn relative_path_is_rejected() {
    let uri = parts("coap", Some("h"), None, Some("p"), None, None);
    assert_eq!(decompose(uri).unwrap_err(), Error::UrlParsing(UrlError::PathNotAbsolute));
    let uri = parts("coap", Some("h"), None, Some(""), None, None);
    assert_eq!(decompose(uri).unwrap_err(), Error::UrlParsing(UrlError::PathNotAbsolute));
}

#[test]
fn checks_run_in_order() {
    // every violation at once: the scheme decides
    let all = || parts("coaps", None, None, Some("p"), None, Some("f"));
    assert_eq!(
        decompose(all()).unwrap_err(),
        Error::UrlParsing(UrlError::UnsupportedScheme("coaps".to_string()))
    );
    // scheme mended: the fragment decides
    let mut uri = all();
    uri.scheme = "coap".to_string();
    assert_eq!(decompose(uri).unwrap_err(), Error::UrlParsing(UrlError::FragmentNotAllowed));
    // fragment mended too: the host decides
    let mut uri = all();
    uri.scheme = "coap".to_string();
    uri.fragment = None;
    assert_eq!(decompose(uri).unwrap_err(), Error::UrlParsing(UrlError::MissingHost));
    // host mended too: the path decides
    let mut uri = all();
    uri.scheme = "coap".to_string();
    uri.fragment = None;
    uri.host = Some("h".to_string());
    assert_eq!(decompose(uri).unwrap_err(), Error::UrlParsing(UrlError::PathNotAbsolute));
    // all mended
    let mut uri = all();
    uri.scheme = "coap".to_string();
    uri.fragment = None;
    uri.host = Some("h".to_string());
    uri.path = Some("/p".to_string());
    assert!(decompose(uri).is_ok());
}

#[test]
fn host_escapes_are_checked_before_the_path() {
    let uri = parts("coap", Some("%ff"), None, Some("p"), None, None);
    assert_eq!(decompose(uri).unwrap_err(), Error::UrlParsing(UrlError::PercentDecode));
}

#[test]
fn port_defaults_to_5683() {
    assert_eq!(DEFAULT_PORT, 5683);
    let uri = parts("coap", Some("10.0.0.1"), None, None, None, None);
    let (endpoint, _) = decompose(uri).unwrap();
    assert_eq!(
        endpoint,
        Endpoint::Resolved(SocketAddress { ip: IpAddress::V4(10, 0, 0, 1), port: 5683 })
    );
}

#[test]
fn path_defaults_to_root() {
    let uri = parts("coap", Some("h"), None, None, None, None);
    let (_, options) = decompose(uri).unwrap();
    assert_eq!(listed(&options), vec![host("h"), path("")]);
}

#[test]
fn empty_segments_are_kept() {
    let uri = parts("coap", Some("h"), None, Some("/a//b/"), None, None);
    let (_, options) = decompose(uri).unwrap();
    assert_eq!(listed(&options), vec![host("h"), path("a"), path(""), path("b"), path("")]);
}

#[test]
fn query_is_split_at_ampersands() {
    let uri = parts("coap", Some("h"), None, Some("/p"), Some("a=1&b&&c=%20d"), None);
    let (_, options) = decompose(uri).unwrap();
    assert_eq!(
        listed(&options),
        vec![host("h"), path("p"), query("a=1"), query("b"), query(""), query("c= d")]
    );
}

#[test]
fn empty_query_gives_no_option() {
    let uri = parts("coap", Some("h"), None, Some("/p"), Some(""), None);
    let (_, options) = decompose(uri).unwrap();
    assert_eq!(listed(&options), vec![host("h"), path("p")]);
}

#[test]
fn host_name_is_lowercased_and_decoded() {
    let uri = parts("coap", Some("EXAMPLE.Com"), None, None, None, None);
    let (endpoint, options) = decompose(uri).unwrap();
    assert_eq!(endpoint, Endpoint::Unresolved("example.com".to_string(), 5683));
    assert_eq!(listed(&options)[0], host("example.com"));

    let uri = parts("coap", Some("A%42c"), Some(1), None, None, None);
    let (endpoint, options) = decompose(uri).unwrap();
    assert_eq!(endpoint, Endpoint::Unresolved("aBc".to_string(), 1));
    assert_eq!(listed(&options)[0], host("aBc"));
}

#[test]
fn invalid_utf8_escape_is_rejected() {
    let bad = Error::UrlParsing(UrlError::PercentDecode);
    let uri = parts("coap", Some("h"), None, Some("/a/%ff"), None, None);
    assert_eq!(decompose(uri).unwrap_err(), bad);
    let uri = parts("coap", Some("h"), None, Some("/a"), Some("x=%c3"), None);
    assert_eq!(decompose(uri).unwrap_err(), bad);
    let uri = parts("coap", Some("%80"), None, Some("/a"), None, None);
    assert_eq!(decompose(uri).unwrap_err(), bad);
}

#[test]
fn ipv6_literal_host_is_resolved() {
    let uri = parts("coap", Some("::1"), Some(7), Some("/x"), None, None);
    let (endpoint, options) = decompose(uri).unwrap();
    assert_eq!(
        endpoint,
        Endpoint::Resolved(SocketAddress { ip: IpAddress::V6(0, 0, 0, 0, 0, 0, 0, 1), port: 7 })
    );
    assert_eq!(listed(&options), vec![path("x")]);
}

#[test]
fn classify_tells_literals_from_names() {
    assert_eq!(Host::classify("192.0.2.1"), Host::Literal(IpAddress::V4(192, 0, 2, 1)));
    assert_eq!(Host::classify("192.0.2.256"), Host::Name("192.0.2.256".to_string()));
    assert_eq!(Host::classify("Example.COM"), Host::Name("example.com".to_string()));
    assert_eq!(Host::classify("\u{c9}COLE"), Host::Name("\u{e9}cole".to_string()));
}

#[test]
fn compose_builds_endpoint_and_options() {
    let (endpoint, options) = compose(
        Host::Name("example.com".to_string()),
        None,
        Some("/a/b".to_string()),
        Some("x=1".to_string()),
    )
    .unwrap();
    assert_eq!(endpoint, Endpoint::Unresolved("example.com".to_string(), 5683));
    assert_eq!(listed(&options), vec![host("example.com"), path("a"), path("b"), query("x=1")]);

    let (endpoint, options) =
        compose(Host::Literal(IpAddress::V4(1, 2, 3, 4)), Some(80), None, None).unwrap();
    assert_eq!(
        endpoint,
        Endpoint::Resolved(SocketAddress { ip: IpAddress::V4(1, 2, 3, 4), port: 80 })
    );
    assert_eq!(listed(&options), vec![path("")]);
}

#[test]
fn option_numbers_ascend() {
    let uri = parts("coap", Some("h"), None, Some("/a/b/c"), Some("x&y"), None);
    let (_, options) = decompose(uri).unwrap();
    let numbers: Vec<u16> = listed(&options).iter().map(|o| o.number()).collect();
    assert_eq!(numbers, vec![3, 11, 11, 11, 15, 15]);
    assert_eq!(options.len(), 6);
    assert!(!options.is_empty());
    assert_eq!(options.get(1).unwrap().value(), "a");
    assert!(options.get(6).is_none());
}

#[test]
fn text_that_is_no_uri_is_rejected() {
    assert_eq!(Client::get("lazy string").unwrap_err(), Error::UrlParsing(UrlError::Syntax));
    assert_eq!(Client::get("").unwrap_err(), Error::UrlParsing(UrlError::Syntax));
    assert_eq!(Client::get("coap://").unwrap_err(), Error::UrlParsing(UrlError::Syntax));
    assert_eq!(Client::get("coap://[::1]/").unwrap_err(), Error::UrlParsing(UrlError::Syntax));
    assert!(UriParts::parse("lazy string").is_none());
}

#[test]
fn uri_is_taken_apart() {
    let uri = UriParts::parse("coap://example.com:1234/a/b?x=1#f").unwrap();
    assert_eq!(
        uri,
        parts("coap", Some("example.com"), Some(1234), Some("/a/b"), Some("x=1"), Some("f"))
    );
    let uri = UriParts::parse("coap://h").unwrap();
    assert_eq!(uri, parts("coap", Some("h"), None, None, None, None));
}

#[test]
fn parser_takes_the_first_name_for_the_host() {
    // With nothing between the slashes, the parser reads the next name as the host.
    let uri = UriParts::parse("coap:///p").unwrap();
    assert_eq!(uri, parts("coap", Some("p"), None, None, None, None));
    // A port that does not fit in 16 bits is dropped.
    let uri = UriParts::parse("coap://h:99999/x").unwrap();
    assert_eq!(uri, parts("coap", Some("h"), None, Some("/x"), None, None));
}
