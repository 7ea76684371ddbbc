use lonk::cli::{
    emit, status_endpoint, status_outcome, OutputLine, ShortenRun, ShortenStep, StatusReply,
    extract_slug, lookup_base_url, normalize_base_url, parse_headers, prepare_shorten,
    prompt_answer, run, server_error_message, setup_profile, short_link, status_http_failure,
    status_report, valid_report, BaseUrlLookup, Cli, Cmd, RunPlan, EXIT_NETWORK, EXIT_OK,
    EXIT_USAGE,
};
use lonk::config::{Config, Profile};
use lonk::types::StatusResp;

fn strings(a: &[&str]) -> Vec<String> {
    a.iter().map(|s| s.to_string()).collect()
}

fn cli_with(urls: &[&str], headers: &[&str]) -> Cli {
    Cli {
        urls: strings(urls),
        qr: false,
        qr_svg: false,
        valid: false,
        profile: None,
        headers: strings(headers),
        cmd: None,
    }
}

#[test]
fn valid_flag_reports_each_url_and_exit_code() {
    let (lines, code) = valid_report(&strings(&[
        "https://ok.example/x",
        "ftp://bad.example",
        "also not a url",
    ]));
    assert_eq!(code, EXIT_USAGE);
    assert_eq!(lines[0], "valid");
    assert!(lines[1].starts_with("invalid: url scheme must be http or https"));
    assert!(lines[2].starts_with("invalid: invalid url:"));
    let (lines, code) = valid_report(&strings(&["https://ok.example/x"]));
    assert_eq!(code, EXIT_OK);
    assert_eq!(lines, vec!["valid"]);
}

#[test]
fn setup_writes_default_profile() {
    let mut cfg = Config::new();
    let base = setup_profile(&mut cfg, "default", "https://s.example.com/").unwrap();
    assert_eq!(base, "https://s.example.com");
    assert_eq!(cfg.base_url("default"), Some("https://s.example.com"));
}

#[test]
fn setup_with_profile_flag_writes_named_profile() {
    let mut cfg = Config::new();
    setup_profile(&mut cfg, "work", "https://links.corp.example").unwrap();
    assert_eq!(cfg.base_url("work"), Some("https://links.corp.example"));
    assert_eq!(cfg.base_url("default"), None);
}

#[test]
fn setup_rejects_invalid_base_url() {
    let mut cfg = Config::new();
    let err = setup_profile(&mut cfg, "default", "ftp://s.example.com").unwrap_err();
    assert!(err.contains("scheme"), "{err}");
    assert_eq!(cfg.base_url("default"), None);
}

#[test]
fn setup_rejects_base_url_with_query_or_fragment() {
    for (bad, needle) in [
        ("https://s.example.com/?utm=x", "query"),
        ("https://s.example.com/#section", "fragment"),
    ] {
        let mut cfg = Config::new();
        let err = setup_profile(&mut cfg, "default", bad).unwrap_err();
        assert!(err.contains(needle), "stderr for {bad} missing {needle:?}");
        assert_eq!(cfg.base_url("default"), None, "saved {bad}");
    }
}

#[test]
fn setup_accepts_base_url_with_path() {
    assert_eq!(
        normalize_base_url("https://example.com/lonk/").unwrap(),
        "https://example.com/lonk"
    );
    assert_eq!(
        normalize_base_url("  https://s.example.com//  ").unwrap(),
        "https://s.example.com"
    );
}

#[test]
fn setup_preserves_other_profiles() {
    let mut cfg = Config::new();
    setup_profile(&mut cfg, "default", "https://one.example").unwrap();
    setup_profile(&mut cfg, "work", "https://two.example").unwrap();
    assert_eq!(cfg.base_url("default"), Some("https://one.example"));
    assert_eq!(cfg.base_url("work"), Some("https://two.example"));
    setup_profile(&mut cfg, "work", "https://three.example").unwrap();
    assert_eq!(cfg.base_url("default"), Some("https://one.example"));
    assert_eq!(cfg.base_url("work"), Some("https://three.example"));
    assert_eq!(cfg.entries().len(), 2);
}

#[test]
fn qr_flag_without_urls_is_a_usage_error() {
    let mut cli = cli_with(&[], &[]);
    cli.qr = true;
    let err = prepare_shorten(&cli).unwrap_err();
    assert!(err.contains("URL"), "stderr: {err}");
}

#[test]
fn invalid_header_flag_fails_fast_without_config() {
    let err = prepare_shorten(&cli_with(&["https://example.com/x"], &["no-colon-here"])).unwrap_err();
    assert!(err.contains("expected"), "{err}");
    let err = prepare_shorten(&cli_with(
        &["https://example.com/x"],
        &["Location: https://evil.example"],
    ))
    .unwrap_err();
    assert!(err.contains("not allowed"), "{err}");
}

#[test]
fn prepare_shorten_checks_urls_and_qr_svg() {
    let err = prepare_shorten(&cli_with(&["https://a.example/1", "ftp://nope.example"], &[])).unwrap_err();
    assert_eq!(err, "ftp://nope.example: url scheme must be http or https (got ftp)");
    let mut cli = cli_with(&["https://a.example/1", "https://a.example/2"], &[]);
    cli.qr_svg = true;
    assert_eq!(prepare_shorten(&cli).unwrap_err(), "--qr-svg requires exactly one URL");
    let ok = prepare_shorten(&cli_with(&["https://a.example/1"], &["X-Demo: 1", " Set-Cookie :  a=1 "])).unwrap();
    assert_eq!(
        ok,
        vec![
            ("X-Demo".to_string(), "1".to_string()),
            ("Set-Cookie".to_string(), "a=1".to_string())
        ]
    );
}

#[test]
fn parse_headers_limits_and_messages() {
    let many: Vec<String> = (0..17).map(|i| format!("X-H{i}: v")).collect();
    assert_eq!(parse_headers(&many).unwrap_err(), "too many headers (max 16)");
    assert_eq!(parse_headers(&many[..16]).unwrap().len(), 16);
    assert_eq!(
        parse_headers(&strings(&["no-colon-here"])).unwrap_err(),
        "invalid header \"no-colon-here\": expected \"Name: value\""
    );
    assert_eq!(
        parse_headers(&strings(&["X-A: b: c"])).unwrap(),
        vec![("X-A".to_string(), "b: c".to_string())]
    );
}

#[test]
fn status_slug_from_target() {
    assert_eq!(extract_slug("Ab3dEf9").unwrap(), "Ab3dEf9");
    assert_eq!(extract_slug("https://s.example.com/Ab3dEf9").unwrap(), "Ab3dEf9");
    assert_eq!(extract_slug("https://s.example.com/base/Ab3dEf9/").unwrap(), "Ab3dEf9");
    assert_eq!(
        extract_slug("https://s.example.com/").unwrap_err(),
        "no slug in url \"https://s.example.com/\""
    );
    assert!(extract_slug("http://").is_err());
}

#[test]
fn status_output_lines() {
    let body = |alive, http_status, error: Option<&str>| StatusResp {
        id: "a".into(),
        url: "https://e.com/".into(),
        alive,
        http_status,
        error: error.map(String::from),
    };
    assert_eq!(status_report(&body(true, Some(200), None)), ("alive (200)".to_string(), EXIT_OK));
    assert_eq!(status_report(&body(false, Some(404), None)), ("dead (404)".to_string(), EXIT_USAGE));
    assert_eq!(
        status_report(&body(false, None, Some("connect timeout"))),
        ("dead (connect timeout)".to_string(), EXIT_USAGE)
    );
    assert_eq!(status_report(&body(false, None, None)), ("dead".to_string(), EXIT_USAGE));
    assert_eq!(
        status_http_failure(404, "zzzzzzz"),
        ("no such link: zzzzzzz".to_string(), EXIT_USAGE)
    );
    assert_eq!(
        status_http_failure(503, "zzzzzzz"),
        ("server returned 503".to_string(), EXIT_NETWORK)
    );
}

#[test]
fn shorten_messages_and_links() {
    assert_eq!(server_error_message(400, Some("bad".into())), "bad");
    assert_eq!(server_error_message(502, None), "server returned 502");
    assert_eq!(short_link("https://s.example.com", "/Ab3dEf9"), "https://s.example.com/Ab3dEf9");
}

#[test]
fn base_url_lookup_by_profile() {
    let mut cfg = Config::new();
    cfg.insert("default".into(), Profile { base_url: "https://s.example.com/".into() });
    match lookup_base_url(&cfg, None) {
        BaseUrlLookup::Found(b) => assert_eq!(b, "https://s.example.com"),
        _ => panic!("expected the default profile"),
    }
    match lookup_base_url(&cfg, Some("nope")) {
        BaseUrlLookup::UnknownProfile(m) => assert_eq!(
            m,
            "profile 'nope' not found; run: lonk setup --profile nope <base-url>"
        ),
        _ => panic!("expected an unknown profile"),
    }
    assert!(matches!(lookup_base_url(&Config::new(), None), BaseUrlLookup::Unconfigured));
}

#[test]
fn prompt_answers() {
    assert_eq!(prompt_answer("  https://s.example.com \n"), Some("https://s.example.com".to_string()));
    assert_eq!(prompt_answer(" \n"), None);
}

#[test]
fn run_chooses_the_mode() {
    let mut cli = cli_with(&[], &[]);
    cli.cmd = Some(Cmd::Setup { base_url: None });
    assert_eq!(run(&cli), RunPlan::Setup { base_url: None, profile: "default".into() });
    cli.profile = Some("work".into());
    cli.cmd = Some(Cmd::Status { target: "x".into() });
    assert_eq!(run(&cli), RunPlan::Status { target: "x".into(), profile: Some("work".into()) });
    cli.cmd = None;
    cli.valid = true;
    assert_eq!(run(&cli), RunPlan::Valid);
    cli.valid = false;
    assert_eq!(run(&cli), RunPlan::Shorten);
}

#[test]
fn setup_then_lookup_finds_the_normalized_url() {
    let mut cfg = Config::new();
    setup_profile(&mut cfg, "default", "https://one.example").unwrap();
    let stored = setup_profile(&mut cfg, "work", "  https://Two.Example/base///  ").unwrap();
    assert_eq!(stored, "https://two.example/base");
    match lookup_base_url(&cfg, Some("work")) {
        BaseUrlLookup::Found(b) => assert_eq!(b, stored),
        _ => panic!("work profile not found"),
    }
    match lookup_base_url(&cfg, None) {
        BaseUrlLookup::Found(b) => assert_eq!(b, "https://one.example"),
        _ => panic!("default profile not found"),
    }
}

#[test]
fn emit_prints_link_and_qr_codes() {
    let short = "https://s.example.com/Ab3dEf9";
    let (lines, ok) = emit(short, 0, false, false);
    assert!(ok);
    assert_eq!(lines, vec![OutputLine::Stdout(short.to_string())]);

    let (lines, ok) = emit(short, 1, true, false);
    assert!(ok);
    assert_eq!(lines.len(), 3);
    assert_eq!(lines[0], OutputLine::Stdout(String::new()));
    assert_eq!(lines[1], OutputLine::Stdout(short.to_string()));
    match &lines[2] {
        OutputLine::Stdout(code) => assert!(code.contains('█') || code.contains('▀') || code.contains('▄')),
        other => panic!("expected the QR block on stdout, got {other:?}"),
    }

    let (lines, ok) = emit(short, 0, false, true);
    assert!(ok);
    assert_eq!(lines[0], OutputLine::Stderr(short.to_string()));
    match &lines[1] {
        OutputLine::Stdout(svg) => assert!(svg.starts_with("<?xml")),
        other => panic!("expected the SVG on stdout, got {other:?}"),
    }
}

#[test]
fn emit_stops_on_unencodable_qr() {
    let long = "x".repeat(5000);
    let (lines, ok) = emit(&long, 0, true, false);
    assert!(!ok);
    assert_eq!(
        lines,
        vec![
            OutputLine::Stdout(long.clone()),
            OutputLine::Stderr("qr encoding failed: data too long".to_string())
        ]
    );
    let (lines, ok) = emit(&long, 2, false, true);
    assert!(!ok);
    assert_eq!(lines, vec![OutputLine::Stderr("qr encoding failed: data too long".to_string())]);
}

fn expect_request(step: ShortenStep) -> (ShortenRun, Vec<OutputLine>, String) {
    match step {
        ShortenStep::Request { run, print, url } => (run, print, url),
        other => panic!("expected a request, got {other:?}"),
    }
}

#[test]
fn shorten_run_goes_in_input_order_and_stops_at_first_failure() {
    let urls = strings(&["https://example.com/a", "https://example.com/b", "https://example.com/c"]);
    let step = ShortenRun::start("https://s.example.com".into(), urls, false, false);
    let (run, print, url) = expect_request(step);
    assert!(print.is_empty());
    assert_eq!(url, "https://example.com/a");
    let (run, print, url) = expect_request(run.on_response(Ok("/Nbn3yAv".into())));
    assert_eq!(print, vec![OutputLine::Stdout("https://s.example.com/Nbn3yAv".into())]);
    assert_eq!(url, "https://example.com/b");
    let (run, print, url) = expect_request(run.on_response(Ok("/szE6G7s".into())));
    assert_eq!(print, vec![OutputLine::Stdout("https://s.example.com/szE6G7s".into())]);
    assert_eq!(url, "https://example.com/c");
    match run.on_response(Err((EXIT_NETWORK, "server returned 502".into()))) {
        ShortenStep::Done { print, exit } => {
            assert_eq!(exit, EXIT_NETWORK);
            assert_eq!(
                print,
                vec![OutputLine::Stderr("https://example.com/c: server returned 502".into())]
            );
        }
        other => panic!("expected the run to stop, got {other:?}"),
    }
}

#[test]
fn shorten_run_separates_qr_blocks_and_ends_ok() {
    let urls = strings(&["https://example.com/a", "https://example.com/b"]);
    let (run, _, _) = expect_request(ShortenRun::start("https://s.example.com".into(), urls, true, false));
    let (run, print, _) = expect_request(run.on_response(Ok("/AAAAAAA".into())));
    assert_eq!(print.len(), 2);
    assert_eq!(print[0], OutputLine::Stdout("https://s.example.com/AAAAAAA".into()));
    match run.on_response(Ok("/BBBBBBB".into())) {
        ShortenStep::Done { print, exit } => {
            assert_eq!(exit, EXIT_OK);
            assert_eq!(print.len(), 3);
            assert_eq!(print[0], OutputLine::Stdout(String::new()));
            assert_eq!(print[1], OutputLine::Stdout("https://s.example.com/BBBBBBB".into()));
        }
        other => panic!("expected the run to end, got {other:?}"),
    }
    assert!(matches!(
        ShortenRun::start("https://s.example.com".into(), vec![], false, false),
        ShortenStep::Done { exit: 0, .. }
    ));
}

#[test]
fn status_replies_print_and_exit() {
    assert_eq!(
        status_endpoint("https://s.example.com", "Ab3dEf9"),
        "https://s.example.com/Ab3dEf9/status"
    );
    let alive = StatusResp {
        id: "Ab3dEf9".into(),
        url: "https://e.com/".into(),
        alive: true,
        http_status: Some(204),
        error: None,
    };
    assert_eq!(
        status_outcome("Ab3dEf9", StatusReply::Body(alive)),
        (vec![OutputLine::Stdout("alive (204)".into())], EXIT_OK)
    );
    assert_eq!(
        status_outcome("Ab3dEf9", StatusReply::HttpError(404)),
        (vec![OutputLine::Stderr("no such link: Ab3dEf9".into())], EXIT_USAGE)
    );
    assert_eq!(
        status_outcome("Ab3dEf9", StatusReply::HttpError(500)),
        (vec![OutputLine::Stderr("server returned 500".into())], EXIT_NETWORK)
    );
    assert_eq!(
        status_outcome("Ab3dEf9", StatusReply::Transport("connection refused".into())),
        (vec![OutputLine::Stderr("connection refused".into())], EXIT_NETWORK)
    );
    assert_eq!(
        status_outcome("Ab3dEf9", StatusReply::BadBody("expected value".into())),
        (vec![OutputLine::Stderr("bad response: expected value".into())], EXIT_NETWORK)
    );
}

#[test]
fn status_slug_from_url_with_upper_case_scheme() {
    assert_eq!(extract_slug("HTTPS://s.example.com/Ab3dEf9"), Ok("Ab3dEf9".to_string()));
    assert_eq!(extract_slug("Http://s.example.com/x/Ab3dEf9/"), Ok("Ab3dEf9".to_string()));
    assert_eq!(extract_slug("httpx-Ab3dEf9"), Ok("httpx-Ab3dEf9".to_string()));
}
