use ptypes::Error;
use ptypes::StringOrUri;
use ptypes::Uri;
use std::str::FromStr;

#[test]
fn test_uri() {
    let uri = Uri::new("https://example.com").unwrap();
    assert_eq!(uri.to_string(), "https://example.com");
    assert_eq!(uri, Uri::from_str("https://example.com").unwrap());
    assert_eq!(
        uri,
        Uri::try_from("https://example.com".to_string()).unwrap()
    );
}

#[test]
fn test_string_or_uri() {
    let uri = StringOrUri::try_from("https://example.com").unwrap();
    assert_eq!(uri.as_str(), "https://example.com");
    assert_eq!(uri, StringOrUri::from_str("https://example.com").unwrap());
    assert_eq!(
        uri,
        StringOrUri::try_from("https://example.com".to_string()).unwrap()
    );

    let string = StringOrUri::try_from("example").unwrap();
    assert_eq!(string.as_str(), "example");
    assert_eq!(string, StringOrUri::from_str("example").unwrap());
    assert_eq!(
        string,
        StringOrUri::try_from("example".to_string()).unwrap()
    );
}

#[test]
fn identifier_disambiguation() {
    let uri = StringOrUri::new("https://example.com").unwrap();
    assert!(matches!(uri, StringOrUri::Uri(_)));
    assert_eq!(uri.as_str(), "https://example.com");
    let label = StringOrUri::new("example").unwrap();
    assert!(matches!(label, StringOrUri::String(_)));
    assert_eq!(label.as_str(), "example");
    assert_eq!(StringOrUri::new("not a:valid uri"), Err(Error::InvalidUri));
}

#[test]
fn invalid_uri_is_rejected() {
    assert_eq!(Uri::new("not a:valid uri"), Err(Error::InvalidUri));
    assert_eq!(Uri::new("no-scheme"), Err(Error::InvalidUri));
    assert!(Uri::try_from("a b".to_string()).is_err());
}

#[test]
fn uri_text_is_kept_verbatim() {
    let uri = Uri::new("HTTP://Example.com/a/../b").unwrap();
    assert_eq!(uri.as_str(), "HTTP://Example.com/a/../b");
    let parsed = uri.as_uri();
    assert_eq!(parsed.scheme().as_str(), "http");
    let text: String = uri.clone().into();
    assert_eq!(text, "HTTP://Example.com/a/../b");
}

#[test]
fn conversions_between_identifier_and_text() {
    let uri = Uri::new("urn:example:a").unwrap();
    let id: StringOrUri = uri.clone().into();
    assert_eq!(id, StringOrUri::Uri(uri));
    let text: String = id.into();
    assert_eq!(text, "urn:example:a");
    let label: String = StringOrUri::new("plain").unwrap().into();
    assert_eq!(label, "plain");
}

#[test]
fn colon_in_first_segment_without_scheme_is_rejected() {
    assert_eq!(Uri::new("12:30"), Err(Error::InvalidUri));
    assert_eq!(Uri::new("://x"), Err(Error::InvalidUri));
    assert_eq!(StringOrUri::new("1:2"), Err(Error::InvalidUri));
    assert_eq!(Uri::new("/relative/path"), Err(Error::InvalidUri));
}

#[test]
fn parsed_view_matches_stored_text() {
    let uri = Uri::new("https://example.com/a?b=c#d").unwrap();
    let parsed = uri.as_uri();
    assert_eq!(parsed.to_string(), "https://example.com/a?b=c#d");
    assert_eq!(parsed.path().to_string(), "/a");
}
