use warp10::client::Client;
use warp10::error::{ClientInitializationError, ClientRequestError};
use warp10::utils::{
    empty_header_map, extract_header_err, set_ingress_headers, set_token_header, set_token_ingress_header,
    API_ENDPOINT_UPDATE, HTTP_HEADER_ERROR_MESSAGE, HTTP_HEADER_TOKEN,
};

fn empty() -> http::HeaderMap<Vec<u8>> {
    empty_header_map()
}

#[test]
fn ingress_headers_carry_token_and_content_type() {
    let h = set_ingress_headers("tok", true);
    assert_eq!(h.get("x-warp10-token").unwrap(), b"tok");
    assert_eq!(h.get("content-type").unwrap(), b"application/gzip");
    assert_eq!(h.len(), 2);

    let h = set_ingress_headers("tok", false);
    assert_eq!(h.get("x-warp10-token").unwrap(), b"tok");
    assert!(h.get("content-type").is_none());
    assert_eq!(h.len(), 1);
}

#[test]
fn token_that_cannot_be_a_header_value_is_left_out() {
    let h = set_ingress_headers("bad\ntoken", false);
    assert!(h.is_empty());
    let h = set_ingress_headers("tab\tand é", false);
    assert_eq!(h.get("x-warp10-token").unwrap(), "tab\tand é".as_bytes());
}

#[test]
fn token_header_name_can_be_chosen() {
    let mut h = empty();
    set_token_header("t1", &mut h, None);
    assert_eq!(h.get(HTTP_HEADER_TOKEN).unwrap(), b"t1");
    set_token_header("t2", &mut h, Some("x-other"));
    assert_eq!(h.get("x-other").unwrap(), b"t2");
    set_token_ingress_header("t3", &mut h);
    assert_eq!(h.get("x-warp10-token").unwrap(), b"t3");
    assert_eq!(h.len(), 2);
}

#[test]
fn error_message_header_is_read() {
    let mut h = empty();
    assert_eq!(extract_header_err(&h), None);
    h.insert(HTTP_HEADER_ERROR_MESSAGE, b"oops".to_vec());
    assert_eq!(extract_header_err(&h), Some("oops".to_owned()));
    h.insert(HTTP_HEADER_ERROR_MESSAGE, vec![0xff, 0xfe]);
    assert_eq!(extract_header_err(&h), None);
}

#[test]
fn client_needs_an_absolute_url() {
    let c = Client::new("http://localhost:8080").unwrap();
    assert!(c.read_token.is_none() && c.write_token.is_none());
    match Client::new("not a url") {
        Err(ClientInitializationError::UrlParseError(e)) => {
            assert_eq!(e, url::ParseError::RelativeUrlWithoutBase)
        }
        other => panic!("{other:?}"),
    }
}

#[test]
fn update_request_needs_a_write_token() {
    let mut c = Client::new("http://localhost:8080/warp").unwrap();
    match c.ingress_request("body".to_owned(), false) {
        Err(e @ ClientRequestError::TokenUnset(_)) => {
            if let ClientRequestError::TokenUnset(io) = &e {
                assert_eq!(io.kind(), std::io::ErrorKind::InvalidInput);
            }
            assert_eq!(e.message(), "Client request error: Write Token is unset")
        }
        other => panic!("{other:?}"),
    }
    c.set_read_token("r".to_owned());
    assert!(c.ingress_request("body".to_owned(), false).is_err());
    c.set_write_token("w".to_owned());
    let req = c.ingress_request("body".to_owned(), true).unwrap();
    assert_eq!(req.url.as_str(), format!("http://localhost:8080{API_ENDPOINT_UPDATE}"));
    assert_eq!(req.body, "body");
    assert_eq!(req.headers.get("x-warp10-token").unwrap(), b"w");
    assert_eq!(req.headers.get("content-type").unwrap(), b"application/gzip");
    assert_eq!(c.read_token.as_deref(), Some("r"));
}

#[test]
fn url_error_comes_before_missing_token() {
    let c = Client::new("http://localhost").unwrap();
    let r = c.ingress_request_to(Err(url::ParseError::EmptyHost), "b".to_owned(), false);
    match r {
        Err(e @ ClientRequestError::UrlParseError(_)) => {
            assert_eq!(e.message(), "Client request error: could not parse URL: empty host")
        }
        other => panic!("{other:?}"),
    }
}

#[test]
fn errors_convert_and_explain() {
    let e = ClientInitializationError::from(url::ParseError::EmptyHost);
    assert!(matches!(e, ClientInitializationError::UrlParseError(url::ParseError::EmptyHost)));
    assert_eq!(e.message(), "Client initialization error: could not parse URL: empty host");
    let e = ClientRequestError::from(std::io::Error::new(std::io::ErrorKind::Other, "x"));
    assert_eq!(e.message(), "Client request error: x");
    let e = ClientRequestError::from(url::ParseError::InvalidPort);
    assert!(matches!(e, ClientRequestError::UrlParseError(url::ParseError::InvalidPort)));
}

#[test]
fn clients_copy_their_settings() {
    let mut c = Client::new("https://example.org/").unwrap();
    c.set_write_token("w".to_owned());
    let copy = c.clone();
    assert_eq!(copy.base_url, c.base_url);
    assert_eq!(copy.write_token.as_deref(), Some("w"));
    assert!(copy.read_token.is_none());
}

#[test]
fn ingress_url_replaces_the_base_path() {
    let c = Client::new("http://localhost:8080/warp10/").unwrap();
    assert_eq!(
        c.ingress_url(),
        Ok(url::Url::parse("http://localhost:8080/api/v0/update").unwrap())
    );
    let c = Client::new("mailto:someone@example.org").unwrap();
    assert!(c.ingress_url().is_err());
    assert!(c.ingress_request("b".to_owned(), false).is_err());
}

#[test]
fn header_maps_keep_room() {
    let mut h = empty_header_map();
    for i in 0..3276 {
        let name: &'static str = Box::leak(format!("x-h{i}").into_boxed_str());
        set_token_header("v", &mut h, Some(name));
    }
    assert_eq!(h.len(), 3276);
    set_token_header("w", &mut h, Some("x-last"));
    assert_eq!(h.get("x-last").unwrap(), b"w");
}

#[test]
fn token_header_name_may_hold_any_token_character() {
    let mut h = empty();
    set_token_header("a", &mut h, Some("x_token"));
    set_token_header("b", &mut h, Some("x.token"));
    set_token_header("c", &mut h, Some("!#$%&'*+-.^_`|~"));
    assert_eq!(h.get("x_token").unwrap(), b"a");
    assert_eq!(h.get("x.token").unwrap(), b"b");
    assert_eq!(h.get("!#$%&'*+-.^_`|~").unwrap(), b"c");
    assert_eq!(h.len(), 3);
}

#[test]
fn url_error_messages_follow_the_kind() {
    let cases = [
        (url::ParseError::EmptyHost, "empty host"),
        (url::ParseError::IdnaError, "invalid international domain name"),
        (url::ParseError::InvalidPort, "invalid port number"),
        (url::ParseError::InvalidIpv4Address, "invalid IPv4 address"),
        (url::ParseError::InvalidIpv6Address, "invalid IPv6 address"),
        (url::ParseError::InvalidDomainCharacter, "invalid domain character"),
        (url::ParseError::RelativeUrlWithoutBase, "relative URL without a base"),
        (url::ParseError::RelativeUrlWithCannotBeABaseBase, "relative URL with a cannot-be-a-base base"),
        (url::ParseError::SetHostOnCannotBeABaseUrl, "a cannot-be-a-base URL doesn\u{2019}t have a host to set"),
        (url::ParseError::Overflow, "URLs more than 4 GB are not supported"),
    ];
    for (kind, text) in cases {
        let e = ClientRequestError::from(kind);
        assert_eq!(e.message(), format!("Client request error: could not parse URL: {text}"));
    }
}

#[test]
fn token_unset_message_follows_the_io_text() {
    assert_eq!(ClientRequestError::token_unset_message("disk on fire"), "Client request error: disk on fire");
    assert_eq!(ClientRequestError::token_unset_message(""), "Client request error: ");
}
