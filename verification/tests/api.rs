use std::collections::HashMap;

use lonk::headers_json::decode_headers;
use lonk::server::{
    after_head, create_link, default_catcher, destination_status, follow_link, link_status, prepare_link,
    qr_svg, qr_target, valid_url, ApiError, CreateLinkRun, CreateStep, DestinationStatus,
    ForwardedProto, InsertOutcome, ProbeNext, ProbeOutcome, MAX_ID_ATTEMPTS,
};
use lonk::types::{CreateLinkReq, LinkResp};
use lonk::web::{index, ContentType};

/// Links stored by id: the URL and the stored header column.
type Store = HashMap<String, (String, String)>;

fn req(url: &str, headers: &[(&str, &str)]) -> CreateLinkReq {
    CreateLinkReq {
        url: url.to_string(),
        headers: headers
            .iter()
            .map(|(n, v)| (n.to_string(), v.to_string()))
            .collect(),
    }
}

fn create(store: &mut Store, body: CreateLinkReq) -> Result<LinkResp, ApiError> {
    let mut step = create_link(body);
    loop {
        match step {
            CreateStep::Insert { run, id } => {
                let outcome = if store.contains_key(&id) {
                    InsertOutcome::Taken
                } else {
                    store.insert(
                        id.clone(),
                        (run.url().to_string(), run.headers_json().to_string()),
                    );
                    InsertOutcome::Inserted
                };
                step = run.on_insert(outcome);
            }
            CreateStep::Respond(r) => return r,
        }
    }
}

fn lookup(store: &Store, id: &str) -> Option<(String, Vec<(String, String)>)> {
    store
        .get(id)
        .map(|(url, headers)| (url.clone(), decode_headers(headers)))
}

#[test]
fn api_create_link_returns_201_with_expected_shape() {
    let mut store = Store::new();
    let body = create(&mut store, req("https://example.com/some/long/path", &[])).unwrap();
    assert_eq!(body.id.len(), 7);
    assert_eq!(body.url, "https://example.com/some/long/path");
    assert_eq!(body.short_url, format!("/{}", body.id));
    assert_eq!(body.qr_url, format!("/{}/qr", body.id));
}

#[test]
fn api_create_link_rejects_unparseable_url() {
    let mut store = Store::new();
    let err = create(&mut store, req("not a url", &[])).unwrap_err();
    assert_eq!(err.status, 400);
    assert!(!err.body.error.is_empty());
    assert!(store.is_empty());
}

#[test]
fn api_redirect_round_trip() {
    let mut store = Store::new();
    let body = create(&mut store, req("https://example.com/target", &[])).unwrap();
    let red = follow_link(lookup(&store, &body.id)).unwrap();
    assert_eq!(red.status(), 303);
    assert_eq!(
        red.response_headers(),
        vec![("Location".to_string(), "https://example.com/target".to_string())]
    );
}

#[test]
fn api_redirect_unknown_id_is_404() {
    let store = Store::new();
    let err = follow_link(lookup(&store, "zzzzzzz")).unwrap_err();
    assert_eq!(err.status, 404);
    assert_eq!(err.body.error, "no such link");
}

#[test]
fn qr_returns_svg_for_known_id() {
    let (ct, svg) = qr_svg(true, "http", Some("lonk.example"), "Ab3dEf9").unwrap();
    assert_eq!(ct, ContentType::Svg);
    assert!(svg.contains("<svg"));
}

#[test]
fn qr_unknown_id_is_404() {
    let err = qr_svg(false, "http", None, "zzzzzzz").unwrap_err();
    assert_eq!(err.status, 404);
}

#[test]
fn qr_encodes_scheme_host_and_id() {
    assert_eq!(qr_target("https", Some("lonk.example"), "Ab3dEf9"), "https://lonk.example/Ab3dEf9");
    assert_eq!(qr_target("http", None, "Ab3dEf9"), "http://localhost:8000/Ab3dEf9");
    assert_eq!(ForwardedProto::from_header(Some("https")), ForwardedProto("https"));
    assert_eq!(ForwardedProto::from_header(Some("HTTPS")), ForwardedProto("http"));
    assert_eq!(ForwardedProto::from_header(None), ForwardedProto("http"));
}

#[test]
fn index_serves_create_form() {
    let page = b"<!DOCTYPE html><form><input id=\"url\"></form>".to_vec();
    let (ct, body) = index(Some(page)).unwrap();
    assert_eq!(ct, ContentType::Html);
    let html = String::from_utf8(body).unwrap();
    assert!(html.contains("id=\"url\""));
    assert!(index(None).is_none());
}

#[test]
fn api_create_link_rejects_non_http_scheme() {
    let mut store = Store::new();
    let err = create(&mut store, req("ftp://example.com/file", &[])).unwrap_err();
    assert_eq!(err.status, 400);
}

#[test]
fn valid_endpoint_accepts_good_url() {
    let r = valid_url(&req("https://example.com/ok", &[]));
    assert!(r.valid);
    assert!(r.error.is_none());
}

#[test]
fn valid_endpoint_rejects_bad_url() {
    for bad in ["not a url", "ftp://example.com/f"] {
        let r = valid_url(&req(bad, &[]));
        assert!(!r.valid);
        assert!(!r.error.unwrap().is_empty());
    }
}

#[test]
fn create_link_with_headers_echoes_and_redirect_carries_them() {
    let mut store = Store::new();
    let body = create(
        &mut store,
        req(
            "https://example.com/hdr",
            &[("Set-Cookie", "a=1"), ("Set-Cookie", "b=2"), ("X-Track", "yes")],
        ),
    )
    .unwrap();
    assert_eq!(body.headers[0].0, "Set-Cookie");
    let red = follow_link(lookup(&store, &body.id)).unwrap();
    assert_eq!(red.status(), 303);
    let h = red.response_headers();
    assert_eq!(h[0], ("Location".to_string(), "https://example.com/hdr".to_string()));
    let cookies: Vec<&str> = h
        .iter()
        .filter(|(n, _)| n == "Set-Cookie")
        .map(|(_, v)| v.as_str())
        .collect();
    assert_eq!(cookies, vec!["a=1", "b=2"]);
    assert!(h.contains(&("X-Track".to_string(), "yes".to_string())));
}

#[test]
fn create_link_without_headers_redirect_is_plain() {
    let mut store = Store::new();
    let body = create(&mut store, req("https://example.com/plain", &[])).unwrap();
    assert_eq!(body.headers.len(), 0);
    let red = follow_link(lookup(&store, &body.id)).unwrap();
    assert_eq!(red.response_headers().len(), 1);
}

#[test]
fn create_link_rejects_invalid_headers() {
    let cases = [
        req("https://e.com/x", &[("Bad Name", "v")]),
        req("https://e.com/x", &[("X-Ok", "a\r\nInjected: yes")]),
        req("https://e.com/x", &[("Location", "https://evil.example")]),
    ];
    for case in cases {
        let mut store = Store::new();
        let shown = format!("{case:?}");
        let err = create(&mut store, case).unwrap_err();
        assert_eq!(err.status, 400, "accepted: {shown}");
        assert!(store.is_empty());
    }
}

#[test]
fn create_link_rejects_too_many_headers() {
    let names: Vec<String> = (0..17).map(|i| format!("X-H{i}")).collect();
    let pairs: Vec<(&str, &str)> = names.iter().map(|n| (n.as_str(), "v")).collect();
    let mut store = Store::new();
    let err = create(&mut store, req("https://e.com/x", &pairs)).unwrap_err();
    assert_eq!(err.status, 400);
    assert!(err.body.error.contains("max 16"));
}

#[test]
fn create_link_gives_up_after_eight_taken_ids() {
    let link = prepare_link(req("https://e.com/x", &[])).unwrap();
    let mut step = CreateLinkRun::start(link);
    let mut inserts = 0;
    loop {
        match step {
            CreateStep::Insert { run, id } => {
                assert_eq!(id.len(), 7);
                inserts += 1;
                step = run.on_insert(InsertOutcome::Taken);
            }
            CreateStep::Respond(r) => {
                let err = r.unwrap_err();
                assert_eq!(err.status, 500);
                assert_eq!(err.body.error, "could not allocate a unique id");
                break;
            }
        }
    }
    assert_eq!(inserts, MAX_ID_ATTEMPTS);
}

#[test]
fn create_link_database_failure_is_500() {
    let link = prepare_link(req("https://e.com/x", &[])).unwrap();
    match CreateLinkRun::start(link) {
        CreateStep::Insert { run, .. } => match run.on_insert(InsertOutcome::Failed) {
            CreateStep::Respond(Err(e)) => {
                assert_eq!(e.status, 500);
                assert_eq!(e.body.error, "database error");
            }
            other => panic!("expected an error answer, got {other:?}"),
        },
        other => panic!("expected an insert, got {other:?}"),
    }
}

#[test]
fn destination_checks() {
    assert_eq!(after_head(ProbeOutcome::ErrorStatus(405)), ProbeNext::RetryWithGet);
    assert_eq!(after_head(ProbeOutcome::ErrorStatus(501)), ProbeNext::RetryWithGet);
    assert_eq!(
        after_head(ProbeOutcome::Response(200)),
        ProbeNext::Done(DestinationStatus { alive: true, http_status: Some(200), error: None })
    );
    assert_eq!(
        destination_status(ProbeOutcome::Response(301)),
        DestinationStatus { alive: false, http_status: Some(301), error: None }
    );
    assert_eq!(
        destination_status(ProbeOutcome::ErrorStatus(404)),
        DestinationStatus { alive: false, http_status: Some(404), error: None }
    );
    assert_eq!(
        destination_status(ProbeOutcome::Transport("refused".into())),
        DestinationStatus { alive: false, http_status: None, error: Some("refused".into()) }
    );
    let r = link_status(
        "abc",
        "https://e.com/".into(),
        DestinationStatus { alive: true, http_status: Some(204), error: None },
    );
    assert_eq!(r.id, "abc");
    assert!(r.alive);
    assert_eq!(r.http_status, Some(204));
}

#[test]
fn default_catcher_uses_reason_phrase() {
    assert_eq!(default_catcher(404).error, "Not Found");
    assert_eq!(default_catcher(422).error, "Unprocessable Entity");
}
