//! The `lonk` command's decisions: header flags, server base URLs, slugs,
//! and what each outcome prints and exits with.
use vstd::prelude::*;

use crate::config::Config;
use crate::qr::{qr_failure_text, qr_svg_image, qr_unicode, qr_unicode_image};
use crate::text::{
    debug_string, decimal, decimal_string, has_prefix_ignore_ascii_case, split_once, split_once_char,
    starts_with_ignore_ascii_case,
    str_debug, trim, trim_end_char, trim_end_matching, trim_string,
};
use crate::types::{opt_view, pairs_view, StatusResp};
use crate::urlparse::strings_view;
use crate::validate::{check_url, header_problem, spec_check_url, validate_header, MAX_HEADERS_PER_LINK};

verus! {

/// Exit status of a successful run.
pub const EXIT_OK: i32 = 0;

/// Exit status of a usage or validation error.
pub const EXIT_USAGE: i32 = 1;

/// Exit status of a network or server error.
pub const EXIT_NETWORK: i32 = 2;

/// `a` followed by `b`.
pub fn cat(a: &str, b: &str) -> (r: String)
    ensures
        r@ == a@ + b@,
{
    String::from_str(a).concat(b)
}

pub open spec fn header_flag_error(h: Seq<char>) -> Seq<char> {
    "invalid header "@ + str_debug(h) + ": expected \"Name: value\""@
}

/// One `-H "Name: value"` flag: split at the first `:`, trim both sides, and
/// validate the pair.
pub open spec fn parse_header_flag(h: Seq<char>) -> Result<(Seq<char>, Seq<char>), Seq<char>> {
    match split_once(h, ':') {
        None => Err(header_flag_error(h)),
        Some(parts) => {
            let name = trim(parts.0);
            let value = trim(parts.1);
            match header_problem(name, value) {
                Some(m) => Err(m),
                None => Ok((name, value)),
            }
        },
    }
}

/// All flags in order; the first bad one decides the error.
pub open spec fn parse_header_flags(raw: Seq<Seq<char>>) -> Result<
    Seq<(Seq<char>, Seq<char>)>,
    Seq<char>,
>
    decreases raw.len(),
{
    if raw.len() == 0 {
        Ok(seq![])
    } else {
        match parse_header_flags(raw.drop_last()) {
            Err(e) => Err(e),
            Ok(done) => match parse_header_flag(raw.last()) {
                Err(e) => Err(e),
                Ok(p) => Ok(done.push(p)),
            },
        }
    }
}

pub open spec fn too_many_headers_text() -> Seq<char> {
    "too many headers (max 16)"@
}

/// What the repeatable `-H` flags amount to: at most sixteen pairs, each valid.
pub open spec fn spec_parse_headers(raw: Seq<Seq<char>>) -> Result<
    Seq<(Seq<char>, Seq<char>)>,
    Seq<char>,
> {
    if raw.len() > 16 {
        Err(too_many_headers_text())
    } else {
        parse_header_flags(raw)
    }
}

/// Parse and validate one `-H` flag.
pub fn parse_header_flag_exec(h: &str) -> (r: Result<(String, String), String>)
    ensures
        match parse_header_flag(h@) {
            Ok(p) => r matches Ok(q) && q.0@ == p.0 && q.1@ == p.1,
            Err(m) => r matches Err(e) && e@ == m,
        },
{
    match split_once_char(h, ':') {
        None => {
            let msg = cat("invalid header ", debug_string(h).as_str()).concat(
                ": expected \"Name: value\"",
            );
            Err(msg)
        },
        Some((n, v)) => {
            let name = trim_string(n.as_str());
            let value = trim_string(v.as_str());
            match validate_header(name.as_str(), value.as_str()) {
                Ok(()) => Ok((name, value)),
                Err(e) => Err(e.message()),
            }
        },
    }
}

/// Parse and validate the repeatable `-H "Name: value"` flags.
pub fn parse_headers(raw: &[String]) -> (r: Result<Vec<(String, String)>, String>)
    ensures
        match spec_parse_headers(strings_view(raw@)) {
            Ok(v) => r matches Ok(out) && pairs_view(out@) == v,
            Err(m) => r matches Err(e) && e@ == m,
        },
{
    let ghost rv = strings_view(raw@);
    if raw.len() > MAX_HEADERS_PER_LINK {
        return Err(String::from_str("too many headers (max 16)"));
    }
    let mut out: Vec<(String, String)> = Vec::new();
    let mut i: usize = 0;
    assert(rv.take(0) =~= Seq::<Seq<char>>::empty());
    assert(pairs_view(out@) =~= Seq::<(Seq<char>, Seq<char>)>::empty());
    while i < raw.len()
        invariant
            rv == strings_view(raw@),
            raw@.len() <= 16,
            i <= raw@.len(),
            parse_header_flags(rv.take(i as int)) == Ok::<Seq<(Seq<char>, Seq<char>)>, Seq<char>>(
                pairs_view(out@),
            ),
        decreases raw@.len() - i,
    {
        let ghost pre = rv.take(i as int);
        let ghost now = rv.take(i as int + 1);
        assert(now.drop_last() =~= pre);
        assert(now.last() == raw@[i as int]@);
        match parse_header_flag_exec(raw[i].as_str()) {
            Err(e) => {
                proof {
                    assert(parse_header_flag(now.last()) == Err::<(Seq<char>, Seq<char>), Seq<char>>(e@));
                    assert(parse_header_flags(now) == Err::<Seq<(Seq<char>, Seq<char>)>, Seq<char>>(e@));
                    lemma_header_flags_error_stays(rv, i as int + 1);
                    assert(rv.take(rv.len() as int) =~= rv);
                }
                return Err(e);
            },
            Ok(p) => {
                let ghost before = out@;
                let ghost pv = (p.0@, p.1@);
                out.push(p);
                assert(pairs_view(out@) =~= pairs_view(before).push(pv));
            },
        }
        i = i + 1;
    }
    assert(rv.take(raw@.len() as int) =~= rv);
    Ok(out)
}

/// Once a prefix of the flags fails, every longer prefix fails the same way.
proof fn lemma_header_flags_error_stays(raw: Seq<Seq<char>>, k: int)
    requires
        0 < k <= raw.len(),
        parse_header_flags(raw.take(k)) is Err,
    ensures
        parse_header_flags(raw.take(raw.len() as int)) == parse_header_flags(raw.take(k)),
    decreases raw.len() - k,
{
    if k < raw.len() {
        let next = raw.take(k + 1);
        assert(next.drop_last() =~= raw.take(k));
        lemma_header_flags_error_stays(raw, k + 1);
    }
}

/// A server base URL as the CLI stores it: a valid http(s) URL without query
/// or fragment, with trailing slashes removed, so that endpoint paths can be
/// appended to it.
pub open spec fn spec_normalize_base_url(raw: Seq<char>) -> Result<Seq<char>, Seq<char>> {
    match spec_check_url(trim(raw)) {
        Err(m) => Err(m),
        Ok(u) => if u.query is Some {
            Err("base url must not contain a query string"@)
        } else if u.fragment is Some {
            Err("base url must not contain a fragment"@)
        } else {
            Ok(trim_end_char(u.serialization, '/'))
        },
    }
}

/// Validate a server base URL and normalize it for path-appending.
pub fn normalize_base_url(raw: &str) -> (r: Result<String, String>)
    ensures
        match spec_normalize_base_url(raw@) {
            Ok(b) => r matches Ok(s) && s@ == b,
            Err(m) => r matches Err(e) && e@ == m,
        },
{
    let input = trim_string(raw);
    let parsed = match check_url(input.as_str()) {
        Ok(u) => u,
        Err(e) => return Err(e),
    };
    if parsed.query().is_some() {
        return Err(String::from_str("base url must not contain a query string"));
    }
    if parsed.fragment().is_some() {
        return Err(String::from_str("base url must not contain a fragment"));
    }
    Ok(trim_end_matching(parsed.as_str(), '/'))
}

/// Trimming a character from the end leaves a text that does not end in it.
pub proof fn lemma_trim_end_char_last(s: Seq<char>, c: char)
    ensures
        trim_end_char(s, c).len() > 0 ==> trim_end_char(s, c).last() != c,
    decreases s.len(),
{
    if s.len() > 0 && s.last() == c {
        lemma_trim_end_char_last(s.drop_last(), c);
    }
}

/// A normalized base URL never ends in `/`, so `{base}/api/links` and
/// `{base}/{slug}` never contain `//`.
pub proof fn law_base_url_has_no_trailing_slash(raw: Seq<char>)
    ensures
        spec_normalize_base_url(raw) matches Ok(b) ==> (b.len() == 0 || b.last() != '/'),
{
    if let Ok(u) = spec_check_url(trim(raw)) {
        lemma_trim_end_char_last(u.serialization, '/');
    }
}

/// The last non-empty path segment.
pub open spec fn last_nonempty(segs: Seq<Seq<char>>) -> Option<Seq<char>>
    decreases segs.len(),
{
    if segs.len() == 0 {
        None
    } else if segs.last().len() > 0 {
        Some(segs.last())
    } else {
        last_nonempty(segs.drop_last())
    }
}

pub open spec fn no_slug_text(target: Seq<char>) -> Seq<char> {
    "no slug in url "@ + str_debug(target)
}

/// The slug a `status` target names: a bare slug is itself; an http(s) URL
/// (its scheme in any letter case, as URL schemes are) contributes its last
/// non-empty path segment.
pub open spec fn spec_extract_slug(target: Seq<char>) -> Result<Seq<char>, Seq<char>> {
    if !starts_with_ignore_ascii_case(target, "http://"@) && !starts_with_ignore_ascii_case(
        target,
        "https://"@,
    ) {
        Ok(target)
    } else {
        match spec_check_url(target) {
            Err(m) => Err(m),
            Ok(u) => match u.segments {
                Some(segs) => match last_nonempty(segs) {
                    Some(s) => Ok(s),
                    None => Err(no_slug_text(target)),
                },
                None => Err(no_slug_text(target)),
            },
        }
    }
}

fn last_nonempty_exec(segs: &Vec<String>) -> (r: Option<String>)
    ensures
        match last_nonempty(strings_view(segs@)) {
            Some(s) => r matches Some(t) && t@ == s,
            None => r is None,
        },
{
    let ghost sv = strings_view(segs@);
    let mut j: usize = segs.len();
    assert(sv.take(j as int) =~= sv);
    while j > 0
        invariant
            sv == strings_view(segs@),
            j <= segs@.len(),
            last_nonempty(sv) == last_nonempty(sv.take(j as int)),
        decreases j,
    {
        let ghost t = sv.take(j as int);
        assert(t.last() == segs@[j - 1]@);
        if segs[j - 1].as_str().unicode_len() > 0 {
            return Some(segs[j - 1].clone());
        }
        assert(t.drop_last() =~= sv.take(j - 1));
        j = j - 1;
    }
    None
}

/// A bare slug passes through; a full short URL contributes its last path segment.
pub fn extract_slug(target: &str) -> (r: Result<String, String>)
    ensures
        match spec_extract_slug(target@) {
            Ok(s) => r matches Ok(t) && t@ == s,
            Err(m) => r matches Err(e) && e@ == m,
        },
{
    if !has_prefix_ignore_ascii_case(target, "http://") && !has_prefix_ignore_ascii_case(
        target,
        "https://",
    ) {
        return Ok(String::from_str(target));
    }
    let parsed = match check_url(target) {
        Ok(u) => u,
        Err(e) => return Err(e),
    };
    let found = match parsed.path_segments() {
        Some(segs) => last_nonempty_exec(segs),
        None => None,
    };
    match found {
        Some(s) => Ok(s),
        None => Err(cat("no slug in url ", debug_string(target).as_str())),
    }
}

/// A bare slug is its own slug.
pub proof fn law_bare_slug_passes_through(target: Seq<char>)
    requires
        !starts_with_ignore_ascii_case(target, "http://"@),
        !starts_with_ignore_ascii_case(target, "https://"@),
    ensures
        spec_extract_slug(target) == Ok::<Seq<char>, Seq<char>>(target),
{
}

/// What an interactive answer amounts to: the trimmed line, or nothing when
/// it is blank.
pub open spec fn spec_prompt_answer(line: Seq<char>) -> Option<Seq<char>> {
    if trim(line).len() == 0 {
        None
    } else {
        Some(trim(line))
    }
}

/// The base URL typed at the interactive prompt, if any.
pub fn prompt_answer(line: &str) -> (r: Option<String>)
    ensures
        match spec_prompt_answer(line@) {
            Some(a) => r matches Some(t) && t@ == a,
            None => r is None,
        },
{
    let t = trim_string(line);
    if t.as_str().unicode_len() == 0 {
        None
    } else {
        Some(t)
    }
}

/// Validate `raw` as a base URL and store it under `profile`.
pub fn setup_profile(cfg: &mut Config, profile: &str, raw: &str) -> (r: Result<String, String>)
    ensures
        match spec_normalize_base_url(raw@) {
            Ok(b) => {
                &&& r matches Ok(s) && s@ == b
                &&& final(cfg).view() == old(cfg).view().insert(profile@, b)
            },
            Err(m) => {
                &&& r matches Err(e) && e@ == m
                &&& final(cfg).view() == old(cfg).view()
            },
        },
{
    match normalize_base_url(raw) {
        Ok(base) => {
            let stored = base.clone();
            cfg.insert(String::from_str(profile), crate::config::Profile { base_url: stored });
            Ok(base)
        },
        Err(e) => Err(e),
    }
}

/// Setting up one profile leaves every other profile as it was.
pub proof fn law_setup_keeps_other_profiles(
    before: Map<Seq<char>, Seq<char>>,
    after: Map<Seq<char>, Seq<char>>,
    profile: Seq<char>,
    raw: Seq<char>,
    other: Seq<char>,
)
    requires
        match spec_normalize_base_url(raw) {
            Ok(b) => after == before.insert(profile, b),
            Err(_) => after == before,
        },
        other != profile,
    ensures
        after.contains_key(other) == before.contains_key(other),
        after.contains_key(other) ==> after[other] == before[other],
{
}

/// How the CLI finds the server for a run.
pub enum BaseUrlLookup {
    /// The profile's base URL, without trailing slashes.
    Found(String),
    /// A named profile that was never set up; the message tells how to fix it.
    UnknownProfile(String),
    /// No profile was named and the default one is missing.
    Unconfigured,
}

pub open spec fn unknown_profile_text(name: Seq<char>) -> Seq<char> {
    "profile '"@ + name + "' not found; run: lonk setup --profile "@ + name + " <base-url>"@
}

/// Resolve the base URL of `profile` (the default profile when none is named).
pub fn lookup_base_url(cfg: &Config, profile: Option<&str>) -> (r: BaseUrlLookup)
    ensures
        ({
            let name = match profile {
                Some(p) => p@,
                None => "default"@,
            };
            if cfg.view().contains_key(name) {
                r matches BaseUrlLookup::Found(b) && b@ == trim_end_char(cfg.view()[name], '/')
            } else if profile is Some {
                r matches BaseUrlLookup::UnknownProfile(m) && m@ == unknown_profile_text(name)
            } else {
                r is Unconfigured
            }
        }),
{
    let name = match profile {
        Some(p) => p,
        None => "default",
    };
    match cfg.base_url(name) {
        Some(b) => BaseUrlLookup::Found(trim_end_matching(b, '/')),
        None => {
            if profile.is_some() {
                let m = cat("profile '", name).concat("' not found; run: lonk setup --profile ").concat(
                    name,
                ).concat(" <base-url>");
                BaseUrlLookup::UnknownProfile(m)
            } else {
                BaseUrlLookup::Unconfigured
            }
        },
    }
}

pub open spec fn status_line(alive: bool, http_status: Option<u16>, error: Option<Seq<char>>) -> Seq<char> {
    if alive {
        "alive ("@ + decimal(
            match http_status {
                Some(c) => c as nat,
                None => 0,
            },
        ) + ")"@
    } else {
        match (http_status, error) {
            (Some(code), _) => "dead ("@ + decimal(code as nat) + ")"@,
            (None, Some(err)) => "dead ("@ + err + ")"@,
            (None, None) => "dead"@,
        }
    }
}

/// What `lonk status` prints for a status body, and its exit status: 0 when
/// the destination is alive, 1 otherwise.
pub fn status_report(body: &StatusResp) -> (r: (String, i32))
    ensures
        r.0@ == status_line(body.alive, body.http_status, opt_view(body.error)),
        r.1 == if body.alive { EXIT_OK } else { EXIT_USAGE },
{
    if body.alive {
        let code: u16 = match body.http_status {
            Some(c) => c,
            None => 0,
        };
        (cat("alive (", decimal_string(code as usize).as_str()).concat(")"), EXIT_OK)
    } else {
        let line = match (&body.http_status, &body.error) {
            (Some(code), _) => cat("dead (", decimal_string(*code as usize).as_str()).concat(")"),
            (None, Some(err)) => cat("dead (", err.as_str()).concat(")"),
            (None, None) => String::from_str("dead"),
        };
        (line, EXIT_USAGE)
    }
}

/// What `lonk status` reports when the server answers with an HTTP error:
/// an unknown slug is a usage error, any other status a server error.
pub fn status_http_failure(code: u16, slug: &str) -> (r: (String, i32))
    ensures
        code == 404 ==> r.0@ == "no such link: "@ + slug@ && r.1 == EXIT_USAGE,
        code != 404 ==> r.0@ == "server returned "@ + decimal(code as nat) && r.1 == EXIT_NETWORK,
{
    if code == 404 {
        (cat("no such link: ", slug), EXIT_USAGE)
    } else {
        (cat("server returned ", decimal_string(code as usize).as_str()), EXIT_NETWORK)
    }
}

/// The message for a refused `POST /api/links`: the server's own `error`
/// text when it sent one, else the status code.
pub fn server_error_message(code: u16, error_field: Option<String>) -> (r: String)
    ensures
        match error_field {
            Some(e) => r@ == e@,
            None => r@ == "server returned "@ + decimal(code as nat),
        },
{
    match error_field {
        Some(e) => e,
        None => cat("server returned ", decimal_string(code as usize).as_str()),
    }
}

/// The full short URL: the base URL followed by the server's short path.
pub fn short_link(base: &str, short_url: &str) -> (r: String)
    ensures
        r@ == base@ + short_url@,
{
    cat(base, short_url)
}

/// The line `--valid` prints for one URL.
pub open spec fn valid_line(url: Seq<char>) -> Seq<char> {
    match spec_check_url(url) {
        Ok(_) => "valid"@,
        Err(m) => "invalid: "@ + m,
    }
}

/// What `lonk --valid` prints, one line per URL, and its exit status: 0 when
/// every URL is valid, else 1.
pub fn valid_report(urls: &[String]) -> (r: (Vec<String>, i32))
    ensures
        r.0@.len() == urls@.len(),
        forall|i: int| 0 <= i < urls@.len() ==> (#[trigger] r.0@[i])@ == valid_line(urls@[i]@),
        r.1 == EXIT_OK <==> forall|i: int| 0 <= i < urls@.len() ==> (#[trigger] spec_check_url(urls@[i]@)) is Ok,
        r.1 == EXIT_OK || r.1 == EXIT_USAGE,
{
    let mut lines: Vec<String> = Vec::new();
    let mut ok = true;
    let mut i: usize = 0;
    while i < urls.len()
        invariant
            i <= urls@.len(),
            lines@.len() == i,
            forall|j: int| 0 <= j < i ==> (#[trigger] lines@[j])@ == valid_line(urls@[j]@),
            ok <==> forall|j: int| 0 <= j < i ==> (#[trigger] spec_check_url(urls@[j]@)) is Ok,
        decreases urls@.len() - i,
    {
        match check_url(urls[i].as_str()) {
            Ok(_) => {
                lines.push(String::from_str("valid"));
            },
            Err(e) => {
                lines.push(cat("invalid: ", e.as_str()));
                ok = false;
            },
        }
        i = i + 1;
    }
    (lines, if ok { EXIT_OK } else { EXIT_USAGE })
}

/// The `lonk` command line.
#[derive(Debug, PartialEq, Clone)]
pub struct Cli {
    /// URLs to shorten (http:// or https://).
    pub urls: Vec<String>,
    /// Print a scannable unicode QR code after each short link.
    pub qr: bool,
    /// Print the QR code as SVG text to stdout (exactly one URL).
    pub qr_svg: bool,
    /// Validate URLs locally and exit; no config or network needed.
    pub valid: bool,
    /// Use a named profile from the config file (default: "default").
    pub profile: Option<String>,
    /// Custom response headers for the created links, "Name: value".
    pub headers: Vec<String>,
    pub cmd: Option<Cmd>,
}

/// The `lonk` subcommands.
#[derive(Debug, PartialEq, Clone)]
pub enum Cmd {
    /// Configure the server base URL (first-time setup or reconfigure).
    Setup { base_url: Option<String> },
    /// Check whether a short link's destination is alive.
    Status { target: String },
}

/// What a run of `lonk` does.
#[derive(Debug, PartialEq)]
pub enum RunPlan {
    /// Store a base URL under a profile (the default one unless named).
    Setup { base_url: Option<String>, profile: String },
    /// Report on a short link's destination.
    Status { target: String, profile: Option<String> },
    /// Validate the URLs locally.
    Valid,
    /// Shorten the URLs.
    Shorten,
}

/// Choose what a run does from its command line.
pub fn run(cli: &Cli) -> (r: RunPlan)
    ensures
        match cli.cmd {
            Some(Cmd::Setup { base_url }) => r matches RunPlan::Setup { base_url: b, profile: p }
                && opt_view(b) == opt_view(base_url) && p@ == match cli.profile {
                Some(q) => q@,
                None => "default"@,
            },
            Some(Cmd::Status { target }) => r matches RunPlan::Status { target: t, profile: p }
                && t@ == target@ && opt_view(p) == opt_view(cli.profile),
            None => if cli.valid {
                r is Valid
            } else {
                r is Shorten
            },
        },
{
    match &cli.cmd {
        Some(Cmd::Setup { base_url }) => {
            let profile = match &cli.profile {
                Some(p) => p.clone(),
                None => String::from_str("default"),
            };
            let b = match base_url {
                Some(u) => Some(u.clone()),
                None => None,
            };
            RunPlan::Setup { base_url: b, profile }
        },
        Some(Cmd::Status { target }) => {
            let p = match &cli.profile {
                Some(q) => Some(q.clone()),
                None => None,
            };
            RunPlan::Status { target: target.clone(), profile: p }
        },
        None => if cli.valid {
            RunPlan::Valid
        } else {
            RunPlan::Shorten
        },
    }
}

/// The message for the first URL in `urls` that is refused, if any.
pub open spec fn first_url_problem(urls: Seq<Seq<char>>) -> Option<Seq<char>>
    decreases urls.len(),
{
    if urls.len() == 0 {
        None
    } else {
        match spec_check_url(urls[0]) {
            Err(m) => Some(urls[0] + ": "@ + m),
            Ok(_) => first_url_problem(urls.drop_first()),
        }
    }
}

/// Everything `lonk <URL>...` checks before any network traffic: at least one
/// URL, valid header flags, every URL valid, and `--qr-svg` with exactly one
/// URL. On success, the header pairs to send.
pub open spec fn spec_prepare_shorten(
    urls: Seq<Seq<char>>,
    headers: Seq<Seq<char>>,
    qr_svg: bool,
) -> Result<Seq<(Seq<char>, Seq<char>)>, Seq<char>> {
    if urls.len() == 0 {
        Err("no URL given; usage: lonk [OPTIONS] <URL>..."@)
    } else {
        match spec_parse_headers(headers) {
            Err(e) => Err(e),
            Ok(h) => match first_url_problem(urls) {
                Some(m) => Err(m),
                None => if qr_svg && urls.len() != 1 {
                    Err("--qr-svg requires exactly one URL"@)
                } else {
                    Ok(h)
                },
            },
        }
    }
}

pub(crate) proof fn lemma_no_url_problem_all_ok(urls: Seq<Seq<char>>)
    ensures
        first_url_problem(urls) is None <==> forall|i: int| 0 <= i < urls.len() ==> (#[trigger] spec_check_url(urls[i])) is Ok,
    decreases urls.len(),
{
    if urls.len() > 0 {
        let rest = urls.drop_first();
        lemma_no_url_problem_all_ok(rest);
        if first_url_problem(urls) is None {
            assert forall|i: int| 0 <= i < urls.len() implies (#[trigger] spec_check_url(urls[i])) is Ok by {
                if i > 0 {
                    assert(urls[i] == rest[i - 1]);
                }
            }
        }
        if forall|i: int| 0 <= i < urls.len() ==> (#[trigger] spec_check_url(urls[i])) is Ok {
            assert(spec_check_url(urls[0]) is Ok);
            assert forall|i: int| 0 <= i < rest.len() implies (#[trigger] spec_check_url(rest[i])) is Ok by {
                assert(rest[i] == urls[i + 1]);
            }
        }
    }
}

/// Shortening never starts while any URL is invalid: every check runs before
/// the first request.
pub proof fn law_shorten_checks_every_url_first(urls: Seq<Seq<char>>, headers: Seq<Seq<char>>, qr_svg: bool)
    ensures
        spec_prepare_shorten(urls, headers, qr_svg) is Ok ==> forall|i: int| 0 <= i < urls.len() ==> (#[trigger] spec_check_url(urls[i])) is Ok,
{
    lemma_no_url_problem_all_ok(urls);
}

/// Check a shorten run before any network traffic.
#[verifier::loop_isolation(false)]
pub fn prepare_shorten(cli: &Cli) -> (r: Result<Vec<(String, String)>, String>)
    ensures
        match spec_prepare_shorten(strings_view(cli.urls@), strings_view(cli.headers@), cli.qr_svg) {
            Ok(h) => r matches Ok(v) && pairs_view(v@) == h,
            Err(m) => r matches Err(e) && e@ == m,
        },
{
    if cli.urls.len() == 0 {
        return Err(String::from_str("no URL given; usage: lonk [OPTIONS] <URL>..."));
    }
    let headers = match parse_headers(cli.headers.as_slice()) {
        Ok(h) => h,
        Err(e) => return Err(e),
    };
    let ghost uv = strings_view(cli.urls@);
    let mut i: usize = 0;
    assert(uv.skip(0) =~= uv);
    while i < cli.urls.len()
        invariant
            uv == strings_view(cli.urls@),
            i <= cli.urls@.len(),
            first_url_problem(uv) == first_url_problem(uv.skip(i as int)),
        decreases cli.urls@.len() - i,
    {
        let ghost rest = uv.skip(i as int);
        assert(rest[0] == cli.urls@[i as int]@);
        match check_url(cli.urls[i].as_str()) {
            Err(e) => {
                return Err(cat(cli.urls[i].as_str(), ": ").concat(e.as_str()));
            },
            Ok(_) => {},
        }
        assert(rest.drop_first() =~= uv.skip(i as int + 1));
        i = i + 1;
    }
    assert(uv.skip(cli.urls@.len() as int) =~= Seq::<Seq<char>>::empty());
    if cli.qr_svg && cli.urls.len() != 1 {
        return Err(String::from_str("--qr-svg requires exactly one URL"));
    }
    Ok(headers)
}

/// One line the CLI prints, and the stream it goes to.
#[derive(Debug, PartialEq, Clone)]
pub enum OutputLine {
    Stdout(String),
    Stderr(String),
}

/// Each line as `(goes to stdout, text)`.
pub open spec fn output_view(lines: Seq<OutputLine>) -> Seq<(bool, Seq<char>)> {
    lines.map_values(
        |l: OutputLine|
            match l {
                OutputLine::Stdout(t) => (true, t@),
                OutputLine::Stderr(t) => (false, t@),
            },
    )
}

/// What shortening prints for the short link `short`, the URL at `index` of
/// the run, and whether the run may go on: a blank line between QR blocks;
/// with `--qr-svg` the link on stderr and the SVG on stdout; otherwise the
/// link on stdout, followed with `--qr` by its terminal QR code. A QR code
/// that cannot be drawn ends the run with its message on stderr.
pub open spec fn spec_emit(short: Seq<char>, index: nat, qr: bool, qr_svg: bool) -> (
    Seq<(bool, Seq<char>)>,
    bool,
) {
    let sep: Seq<(bool, Seq<char>)> = if index > 0 && qr {
        seq![(true, Seq::<char>::empty())]
    } else {
        seq![]
    };
    if qr_svg {
        match qr_svg_image(vstd::utf8::encode_utf8(short), 256, 256) {
            Ok(svg) => (sep + seq![(false, short), (true, svg)], true),
            Err(e) => (sep + seq![(false, qr_failure_text(e))], false),
        }
    } else if qr {
        match qr_unicode_image(vstd::utf8::encode_utf8(short)) {
            Ok(code) => (sep + seq![(true, short), (true, code)], true),
            Err(e) => (sep + seq![(true, short), (false, qr_failure_text(e))], false),
        }
    } else {
        (sep + seq![(true, short)], true)
    }
}

/// The output for one created short link; `false` when the run must stop
/// with `EXIT_USAGE` after printing it.
pub fn emit(short: &str, index: usize, qr: bool, qr_svg: bool) -> (r: (Vec<OutputLine>, bool))
    ensures
        (output_view(r.0@), r.1) == spec_emit(short@, index as nat, qr, qr_svg),
{
    let mut out: Vec<OutputLine> = Vec::new();
    if index > 0 && qr {
        out.push(OutputLine::Stdout(String::new()));
    }
    let ghost sep = output_view(out@);
    let ok = if qr_svg {
        match crate::qr::qr_svg(short) {
            Ok(svg) => {
                out.push(OutputLine::Stderr(String::from_str(short)));
                out.push(OutputLine::Stdout(svg));
                true
            },
            Err(e) => {
                out.push(OutputLine::Stderr(e));
                false
            },
        }
    } else if qr {
        out.push(OutputLine::Stdout(String::from_str(short)));
        match qr_unicode(short) {
            Ok(code) => {
                out.push(OutputLine::Stdout(code));
                true
            },
            Err(e) => {
                out.push(OutputLine::Stderr(e));
                false
            },
        }
    } else {
        out.push(OutputLine::Stdout(String::from_str(short)));
        true
    };
    proof {
        let (want, _) = spec_emit(short@, index as nat, qr, qr_svg);
        assert(output_view(out@) =~= want);
    }
    (out, ok)
}

/// A shortening run in progress: the server, the URLs in input order, the one
/// whose request is out, and how links are printed.
#[derive(Debug)]
pub struct ShortenRun {
    base: String,
    urls: Vec<String>,
    next: usize,
    qr: bool,
    qr_svg: bool,
}

/// What a shortening run does next.
#[derive(Debug)]
pub enum ShortenStep {
    /// Print `print`, then ask the server for a short link to `url` and hand
    /// the outcome to `run`.
    Request { run: ShortenRun, print: Vec<OutputLine>, url: String },
    /// Print `print` and exit with `exit`.
    Done { print: Vec<OutputLine>, exit: i32 },
}

impl ShortenRun {
    #[verifier::type_invariant]
    spec fn inv(self) -> bool {
        self.next < self.urls@.len()
    }

    /// The server's base URL.
    pub closed spec fn base(self) -> Seq<char> {
        self.base@
    }

    /// The URLs of the run, in input order.
    pub closed spec fn urls(self) -> Seq<Seq<char>> {
        strings_view(self.urls@)
    }

    /// Position in `urls()` of the URL whose request is out.
    pub closed spec fn index(self) -> nat {
        self.next as nat
    }

    /// Whether each link is followed by its terminal QR code.
    pub closed spec fn qr(self) -> bool {
        self.qr
    }

    /// Whether the link's QR code is printed as SVG.
    pub closed spec fn qr_svg(self) -> bool {
        self.qr_svg
    }

    /// Begin shortening `urls` against the server at `base`: the first URL is
    /// requested first.
    pub fn start(base: String, urls: Vec<String>, qr: bool, qr_svg: bool) -> (r: ShortenStep)
        ensures
            urls@.len() == 0 ==> (r matches ShortenStep::Done { print, exit } && print@.len() == 0
                && exit == EXIT_OK),
            urls@.len() > 0 ==> (r matches ShortenStep::Request { run, print, url } && print@.len()
                == 0 && url@ == urls@[0]@ && run.index() == 0 && run.urls() == strings_view(urls@)
                && run.base() == base@ && run.qr() == qr && run.qr_svg() == qr_svg),
    {
        if urls.len() == 0 {
            return ShortenStep::Done { print: Vec::new(), exit: EXIT_OK };
        }
        let url = urls[0].clone();
        ShortenStep::Request {
            run: ShortenRun { base, urls, next: 0, qr, qr_svg },
            print: Vec::new(),
            url,
        }
    }

    /// Decide after the server answered for the pending URL, with the short
    /// path it created or the exit status and message of the failure: print
    /// the new link and go on with the next URL in input order, or stop at
    /// the first failure with nothing more requested.
    pub fn on_response(self, outcome: Result<String, (i32, String)>) -> (r: ShortenStep)
        ensures
            match outcome {
                Err(f) => r matches ShortenStep::Done { print, exit } && exit == f.0 && output_view(
                    print@,
                ) == seq![(false, self.urls()[self.index() as int] + ": "@ + f.1@)],
                Ok(path) => {
                    let (lines, ok) = spec_emit(
                        self.base() + path@,
                        self.index(),
                        self.qr(),
                        self.qr_svg(),
                    );
                    if !ok {
                        r matches ShortenStep::Done { print, exit } && output_view(print@) == lines
                            && exit == EXIT_USAGE
                    } else if self.index() + 1 < self.urls().len() {
                        r matches ShortenStep::Request { run, print, url } && output_view(print@)
                            == lines && url@ == self.urls()[self.index() + 1int] && run.index()
                            == self.index() + 1 && run.urls() == self.urls() && run.base()
                            == self.base() && run.qr() == self.qr() && run.qr_svg() == self.qr_svg()
                    } else {
                        r matches ShortenStep::Done { print, exit } && output_view(print@) == lines
                            && exit == EXIT_OK
                    }
                },
            },
    {
        proof {
            use_type_invariant(&self);
        }
        let ShortenRun { base, urls, next, qr, qr_svg } = self;
        match outcome {
            Err((code, msg)) => {
                let line = cat(urls[next].as_str(), ": ").concat(msg.as_str());
                let mut print: Vec<OutputLine> = Vec::new();
                print.push(OutputLine::Stderr(line));
                assert(output_view(print@) =~= seq![(false, strings_view(urls@)[next as int] + ": "@ + msg@)]);
                ShortenStep::Done { print, exit: code }
            },
            Ok(path) => {
                let short = short_link(base.as_str(), path.as_str());
                let (print, ok) = emit(short.as_str(), next, qr, qr_svg);
                if !ok {
                    ShortenStep::Done { print, exit: EXIT_USAGE }
                } else if next < urls.len() - 1 {
                    let url = urls[next + 1].clone();
                    ShortenStep::Request {
                        run: ShortenRun { base, urls, next: next + 1, qr, qr_svg },
                        print,
                        url,
                    }
                } else {
                    ShortenStep::Done { print, exit: EXIT_OK }
                }
            },
        }
    }
}

/// The endpoint `lonk status` asks about a slug.
pub fn status_endpoint(base: &str, slug: &str) -> (r: String)
    ensures
        r@ == base@ + "/"@ + slug@ + "/status"@,
{
    cat(base, "/").concat(slug).concat("/status")
}

/// What came back from a link's status endpoint.
#[derive(Debug)]
pub enum StatusReply {
    /// A success response with its decoded body.
    Body(StatusResp),
    /// A success response whose body could not be read, with the reason.
    BadBody(String),
    /// An HTTP error status.
    HttpError(u16),
    /// No response: the text of the transport failure.
    Transport(String),
}

/// What `lonk status` prints for a reply, and its exit status.
pub open spec fn spec_status_outcome(slug: Seq<char>, reply: StatusReply) -> (Seq<(bool, Seq<char>)>, i32) {
    match reply {
        StatusReply::Body(b) => (
            seq![(true, status_line(b.alive, b.http_status, opt_view(b.error)))],
            if b.alive {
                EXIT_OK
            } else {
                EXIT_USAGE
            },
        ),
        StatusReply::BadBody(e) => (seq![(false, "bad response: "@ + e@)], EXIT_NETWORK),
        StatusReply::HttpError(code) => if code == 404 {
            (seq![(false, "no such link: "@ + slug)], EXIT_USAGE)
        } else {
            (seq![(false, "server returned "@ + decimal(code as nat))], EXIT_NETWORK)
        },
        StatusReply::Transport(t) => (seq![(false, t@)], EXIT_NETWORK),
    }
}

/// The output and exit status of `lonk status` for the server's reply: the
/// report on stdout for a status body, else the failure on stderr.
pub fn status_outcome(slug: &str, reply: StatusReply) -> (r: (Vec<OutputLine>, i32))
    ensures
        (output_view(r.0@), r.1) == spec_status_outcome(slug@, reply),
{
    let mut out: Vec<OutputLine> = Vec::new();
    let code = match reply {
        StatusReply::Body(b) => {
            let (line, code) = status_report(&b);
            out.push(OutputLine::Stdout(line));
            code
        },
        StatusReply::BadBody(e) => {
            out.push(OutputLine::Stderr(cat("bad response: ", e.as_str())));
            EXIT_NETWORK
        },
        StatusReply::HttpError(c) => {
            let (msg, code) = status_http_failure(c, slug);
            out.push(OutputLine::Stderr(msg));
            code
        },
        StatusReply::Transport(t) => {
            out.push(OutputLine::Stderr(t));
            EXIT_NETWORK
        },
    };
    proof {
        let (want, _) = spec_status_outcome(slug@, reply);
        assert(output_view(out@) =~= want);
    }
    (out, code)
}

} // verus!
