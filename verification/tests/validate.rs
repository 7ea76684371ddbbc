use lonk::validate::{validate_header, validate_url, ValidateError, MAX_HEADERS_PER_LINK};

#[test]
fn accepts_http_and_https() {
    assert!(validate_url("http://example.com/a").is_ok());
    assert!(validate_url("https://example.com/a?b=c&d=e").is_ok());
}

#[test]
fn rejects_unparseable() {
    match validate_url("not a url") {
        Err(ValidateError::Parse(msg)) => assert!(!msg.is_empty()),
        other => panic!("expected Parse error, got {other:?}"),
    }
}

#[test]
fn rejects_non_http_scheme() {
    match validate_url("ftp://example.com/f") {
        Err(ValidateError::Scheme(s)) => assert_eq!(s, "ftp"),
        other => panic!("expected Scheme error, got {other:?}"),
    }
}

#[test]
fn error_messages_are_human_readable() {
    let e = validate_url("ftp://x.example").unwrap_err();
    assert_eq!(e.message(), "url scheme must be http or https (got ftp)");
}

#[test]
fn parse_error_message_carries_parser_text() {
    let e = validate_url("not a url").unwrap_err();
    assert_eq!(e.message(), "invalid url: relative URL without a base");
}

#[test]
fn valid_url_keeps_parts() {
    let u = validate_url("HTTPS://Example.com/a/b?x=1#frag").unwrap();
    assert_eq!(u.scheme(), "https");
    assert_eq!(u.as_str(), "https://example.com/a/b?x=1#frag");
    assert_eq!(u.query(), Some("x=1"));
    assert_eq!(u.fragment(), Some("frag"));
    assert_eq!(
        u.path_segments().unwrap(),
        &vec!["a".to_string(), "b".to_string()]
    );
}

#[test]
fn header_accepts_common_cases() {
    assert!(validate_header("X-Custom-Header", "hello world").is_ok());
    assert!(validate_header("Set-Cookie", "a=1; Path=/; HttpOnly").is_ok());
    assert!(validate_header("Cache-Control", "no-store").is_ok());
    assert!(validate_header("X-Empty", "").is_ok());
    assert!(validate_header("X-Tab", "a\tb").is_ok());
}

#[test]
fn header_rejects_bad_names() {
    for name in ["", "Bad Name", "Bad:Name", "Bad\nName", "Béader"] {
        assert!(
            validate_header(name, "v").is_err(),
            "accepted name {name:?}"
        );
    }
    assert!(validate_header(&"a".repeat(129), "v").is_err());
    assert!(validate_header(&"a".repeat(128), "v").is_ok());
}

#[test]
fn header_rejects_injection_in_value() {
    for value in ["a\r\nSet-Cookie: evil=1", "a\rb", "a\nb", "a\0b", "café"] {
        assert!(
            validate_header("X-Test", value).is_err(),
            "accepted value {value:?}"
        );
    }
    assert!(validate_header("X-Test", &"v".repeat(1025)).is_err());
    assert!(validate_header("X-Test", &"v".repeat(1024)).is_ok());
}

#[test]
fn header_denylist_is_case_insensitive() {
    for name in [
        "Location",
        "location",
        "CONTENT-LENGTH",
        "Transfer-Encoding",
        "connection",
        "Content-Type",
        "content-encoding",
    ] {
        assert!(
            validate_header(name, "v").is_err(),
            "accepted denylisted {name}"
        );
    }
}

#[test]
fn header_error_messages() {
    let msg = |n: &str, v: &str| validate_header(n, v).unwrap_err().message();
    assert_eq!(msg("", "v"), "header name must be 1-128 bytes (got 0)");
    assert_eq!(
        msg(&"a".repeat(129), "v"),
        "header name must be 1-128 bytes (got 129)"
    );
    assert_eq!(msg("Bad Name", "v"), "invalid header name \"Bad Name\"");
    assert_eq!(msg("Bad\nName", "v"), "invalid header name \"Bad\\nName\"");
    assert_eq!(msg("LOCATION", "v"), "header not allowed: LOCATION");
    assert_eq!(
        msg("X-Long", &"v".repeat(1025)),
        "header value too long (1025 bytes, max 1024)"
    );
    assert_eq!(
        msg("X-Test", "a\rb"),
        "header value contains control or non-ASCII bytes"
    );
}

#[test]
fn header_name_length_counts_bytes() {
    // 64 two-byte characters are 128 bytes, but not token bytes
    let name = "é".repeat(64);
    assert_eq!(
        validate_header(&name, "v").unwrap_err().message(),
        format!("invalid header name {name:?}")
    );
    let too_long = "é".repeat(65);
    assert_eq!(
        validate_header(&too_long, "v").unwrap_err().message(),
        "header name must be 1-128 bytes (got 130)"
    );
}

#[test]
fn header_limit_is_sixteen() {
    assert_eq!(MAX_HEADERS_PER_LINK, 16);
}

#[test]
fn header_token_punctuation_is_accepted() {
    assert!(validate_header("x!#$%&'*+-.^_`|~", "v").is_ok());
    assert!(validate_header("x(y)", "v").is_err());
}
