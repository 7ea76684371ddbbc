use lonk::headers_json::{decode_headers, encode_headers};
use lonk::slug::{gen_slug, slug_from_draws, SLUG_CHARS};
use lonk::text::decimal_string;

#[test]
fn db_gen_slug_has_len_and_charset() {
    let slug = gen_slug(7);
    assert_eq!(slug.len(), 7);
    assert!(slug.bytes().all(|b| SLUG_CHARS.as_bytes().contains(&b)));
}

#[test]
fn gen_slug_of_zero_is_empty() {
    assert_eq!(gen_slug(0), "");
}

#[test]
fn stored_headers_round_trip() {
    let pairs = vec![
        ("Set-Cookie".to_string(), "a=1".to_string()),
        ("Set-Cookie".to_string(), "b=2".to_string()),
        ("X-Demo".to_string(), "x".to_string()),
    ];
    let text = encode_headers(&pairs).unwrap();
    assert_eq!(text, r#"[["Set-Cookie","a=1"],["Set-Cookie","b=2"],["X-Demo","x"]]"#);
    assert_eq!(decode_headers(&text), pairs);
}

#[test]
fn unreadable_header_column_reads_as_empty() {
    assert_eq!(decode_headers("not json"), vec![]);
    assert_eq!(decode_headers("[]"), vec![]);
}

#[test]
fn stored_headers_round_trip_escapes() {
    let pairs = vec![
        ("X-Quote".to_string(), "say \"hi\" \\ \t ünï".to_string()),
        ("X-Empty".to_string(), "".to_string()),
    ];
    let text = encode_headers(&pairs).unwrap();
    assert_eq!(text, "[[\"X-Quote\",\"say \\\"hi\\\" \\\\ \\t ünï\"],[\"X-Empty\",\"\"]]");
    assert_eq!(decode_headers(&text), pairs);
}

#[test]
fn slug_from_draws_spells_the_draws() {
    assert_eq!(slug_from_draws(&vec![0, 25, 26, 51, 52, 61, 0]), "AZaz09A");
    assert_eq!(slug_from_draws(&vec![]), "");
    assert_eq!(slug_from_draws(&vec![33, 33]), "hh");
}

#[test]
fn decimal_string_matches_display() {
    for n in [0usize, 7, 10, 99, 100, 1234567890, usize::MAX] {
        assert_eq!(decimal_string(n), n.to_string());
    }
}
