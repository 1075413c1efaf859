use coap_client::error::{Error, UrlError};
use coap_client::percent::depercent;
use coap_client::text::{chars_of, split_ranges, split_text};

#[test]
fn split_follows_separators() {
    assert_eq!(split_text("a/b", '/'), vec!["a", "b"]);
    assert_eq!(split_text("", '/'), vec![""]);
    assert_eq!(split_text("/", '/'), vec!["", ""]);
    assert_eq!(split_text("abc", '/'), vec!["abc"]);
    assert_eq!(split_text("/a//b/", '/'), vec!["", "a", "", "b", ""]);
    assert_eq!(split_text("x=1&y=2", '&'), vec!["x=1", "y=2"]);
    assert_eq!(split_text("\u{e9}/\u{1f600}\u{e9}/z", '/'), vec!["\u{e9}", "\u{1f600}\u{e9}", "z"]);
}

#[test]
fn split_agrees_with_std() {
    for text in ["", "/", "//", "a", "/a", "a/", "a/b/c", "//a//", "\u{e9}/\u{4e2d}\u{6587}/"] {
        let expected: Vec<&str> = text.split('/').collect();
        assert_eq!(split_text(text, '/'), expected, "{:?}", text);
    }
}

#[test]
fn split_ranges_mark_pieces() {
    let chars: Vec<char> = "ab:c::d".chars().collect();
    assert_eq!(split_ranges(&chars, 0, 7, ':'), vec![(0, 2), (3, 4), (5, 5), (6, 7)]);
    assert_eq!(split_ranges(&chars, 3, 6, ':'), vec![(3, 4), (5, 5), (6, 6)]);
    assert_eq!(split_ranges(&chars, 2, 2, ':'), vec![(2, 2)]);
}

#[test]
fn chars_are_listed_in_order() {
    assert_eq!(chars_of("a\u{e9}z"), vec!['a', '\u{e9}', 'z']);
    assert_eq!(chars_of(""), Vec::<char>::new());
}

#[test]
fn escapes_are_decoded() {
    assert_eq!(depercent("%61"), Ok("a".to_string()));
    assert_eq!(depercent("foo%20bar%3f"), Ok("foo bar?".to_string()));
    assert_eq!(depercent("%3F%3f"), Ok("??".to_string()));
    assert_eq!(depercent("plain"), Ok("plain".to_string()));
    assert_eq!(depercent(""), Ok(String::new()));
    assert_eq!(depercent("%C3%A9"), Ok("\u{e9}".to_string()));
    assert_eq!(depercent("\u{e9}%c3%a9"), Ok("\u{e9}\u{e9}".to_string()));
    assert_eq!(depercent("%2561"), Ok("%61".to_string()));
}

#[test]
fn incomplete_escapes_stand_for_themselves() {
    assert_eq!(depercent("%"), Ok("%".to_string()));
    assert_eq!(depercent("%6"), Ok("%6".to_string()));
    assert_eq!(depercent("%zz"), Ok("%zz".to_string()));
    assert_eq!(depercent("%6g%41"), Ok("%6gA".to_string()));
    assert_eq!(depercent("%%41"), Ok("%A".to_string()));
    assert_eq!(depercent("100%"), Ok("100%".to_string()));
}

#[test]
fn bytes_that_are_not_utf8_are_rejected() {
    let bad = Err(Error::UrlParsing(UrlError::PercentDecode));
    assert_eq!(depercent("%ff"), bad);
    assert_eq!(depercent("%c3"), bad);
    assert_eq!(depercent("a%80b"), bad);
    assert_eq!(depercent("%ed%a0%80"), bad);
}

#[test]
fn reasons_are_worded() {
    assert_eq!(
        UrlError::UnsupportedScheme("coaps".to_string()).message(),
        "the coaps scheme is currently unsupported"
    );
    assert_eq!(UrlError::UnsupportedScheme("http".to_string()).message(), "http is not a coap scheme");
    assert_eq!(UrlError::FragmentNotAllowed.message(), "cannot specify fragment on coap url");
    assert_eq!(UrlError::MissingHost.message(), "missing host, a coap url must be absolute");
    assert_eq!(
        UrlError::PathNotAbsolute.message(),
        "path does not start with /, a coap url must be absolute"
    );
    assert_eq!(UrlError::PercentDecode.message(), "percent-decoded text is not valid utf-8");
    assert_eq!(UrlError::Syntax.message(), "not a valid uri");
    assert!(!Error::Timeout.is_url_parsing());
}
