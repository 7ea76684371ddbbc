//! Properties that tie several parts of lonk together.
use vstd::prelude::*;

use crate::cli::{
    law_base_url_has_no_trailing_slash, lemma_no_url_problem_all_ok, parse_header_flag,
    parse_header_flags, spec_normalize_base_url, spec_parse_headers, spec_prepare_shorten,
    valid_line,
};
use crate::text::{is_first_index, lemma_first_index_unique, trim, trim_end_char};
use crate::headers_json::json_of_pairs;
use crate::server::{
    first_header_problem, spec_destination_status, spec_prepare_link, ProbeOutcome, STATUS_BAD_REQUEST,
};
use crate::cli::{last_nonempty, spec_emit, spec_extract_slug, spec_status_outcome, StatusReply};
use crate::text::{decimal, is_ws, starts_with_ignore_ascii_case, trim_end, trim_start};
use crate::paths::spec_config_dir;
use crate::web::{after_last, file_name, name_extension};
use crate::qr::{qr_svg_image, qr_unicode_image};
use crate::urlparse::url_parse;
use crate::validate::{ascii_bytes, header_ok, lower_bytes, spec_check_url};
use vstd::utf8::encode_utf8;
use crate::args::{
    arg_run, arg_step, initial_view, long_option, looks_like_option, spec_parse_args, split_long,
    ArgErrorKind, ArgView, StageView,
};

verus! {

/// One rule decides which URLs lonk accepts: `lonk --valid`, the CLI's checks
/// before shortening, `POST /api/valid` and `POST /api/links` all accept a URL
/// exactly when `validate_url` does.
pub proof fn law_one_rule_for_urls(url: Seq<char>)
    ensures
        (valid_line(url) == "valid"@) <==> spec_check_url(url) is Ok,
        spec_prepare_shorten(seq![url], seq![], false) is Ok <==> spec_check_url(url) is Ok,
        (spec_prepare_link(url, seq![]) matches Err(e) && e.0 == STATUS_BAD_REQUEST) <==> spec_check_url(url) is Err,
{
    reveal_strlit("valid");
    reveal_strlit("invalid: ");
    if let Err(m) = spec_check_url(url) {
        assert(valid_line(url)[0] == 'i');
    }
    let urls = seq![url];
    assert(urls[0] == url);
    assert(urls.drop_first() =~= Seq::<Seq<char>>::empty());
    let none: Seq<Seq<char>> = seq![];
    assert(spec_parse_headers(none) == Ok::<Seq<(Seq<char>, Seq<char>)>, Seq<char>>(seq![]));
    assert(crate::cli::first_url_problem(urls.drop_first()) is None);
    if spec_check_url(url) is Ok {
        assert(crate::cli::first_url_problem(urls) is None);
    } else {
        assert(crate::cli::first_url_problem(urls) is Some);
    }
}

/// One refused header pair refuses the whole `POST /api/links` with 400: no
/// link is ever created with part of its headers.
pub proof fn law_headers_rejected_as_a_whole(url: Seq<char>, headers: Seq<(Seq<char>, Seq<char>)>, i: int)
    requires
        spec_check_url(url) is Ok,
        headers.len() <= 16,
        0 <= i < headers.len(),
        !header_ok(headers[i].0, headers[i].1),
    ensures
        spec_prepare_link(url, headers) matches Err(e) && e.0 == STATUS_BAD_REQUEST,
{
    lemma_first_header_problem_some(headers, i);
}

proof fn lemma_first_header_problem_some(h: Seq<(Seq<char>, Seq<char>)>, i: int)
    requires
        0 <= i < h.len(),
        !header_ok(h[i].0, h[i].1),
    ensures
        first_header_problem(h) is Some,
    decreases h.len(),
{
    if i > 0 && header_ok(h[0].0, h[0].1) {
        assert(h.drop_first()[i - 1] == h[i]);
        lemma_first_header_problem_some(h.drop_first(), i - 1);
    }
}

/// A profile set up with a base URL is found again with exactly the URL that
/// setup stored: `lonk setup --profile p URL` followed by any command that
/// uses profile `p` talks to the normalized URL, whatever other profiles exist.
pub proof fn law_setup_then_lookup(before: Map<Seq<char>, Seq<char>>, profile: Seq<char>, raw: Seq<char>)
    requires
        spec_normalize_base_url(raw) is Ok,
    ensures
        ({
            let b = spec_normalize_base_url(raw)->Ok_0;
            let after = before.insert(profile, b);
            after.contains_key(profile) && trim_end_char(after[profile], '/') == b
        }),
{
    law_base_url_has_no_trailing_slash(raw);
}

/// The URL rule: a text is accepted exactly when it parses as a URL whose
/// scheme is `http` or `https`, and what is accepted is that parse, unchanged.
pub proof fn law_url_rule(input: Seq<char>)
    ensures
        spec_check_url(input) is Ok <==> (url_parse(input) is Ok && (url_parse(input)->Ok_0.scheme
            == "http"@ || url_parse(input)->Ok_0.scheme == "https"@)),
        spec_check_url(input) is Ok ==> spec_check_url(input)->Ok_0 == url_parse(input)->Ok_0,
{
}

/// Setting up a base URL: it is accepted exactly when its trimmed text parses
/// as an `http` or `https` URL without query and fragment, and what is stored
/// is that URL's serialization without trailing slashes.
pub proof fn law_base_url_accepted(raw: Seq<char>)
    ensures
        spec_normalize_base_url(raw) is Ok <==> ({
            let p = url_parse(trim(raw));
            &&& p is Ok
            &&& (p->Ok_0.scheme == "http"@ || p->Ok_0.scheme == "https"@)
            &&& p->Ok_0.query is None
            &&& p->Ok_0.fragment is None
        }),
        spec_normalize_base_url(raw) is Ok ==> spec_normalize_base_url(raw)->Ok_0 == trim_end_char(
            url_parse(trim(raw))->Ok_0.serialization,
            '/',
        ),
{
}

/// Every pair of the list passes the header rule.
pub open spec fn all_pairs_ok(h: Seq<(Seq<char>, Seq<char>)>) -> bool {
    forall|i: int| 0 <= i < h.len() ==> header_ok(#[trigger] h[i].0, h[i].1)
}

proof fn lemma_first_header_problem_none(h: Seq<(Seq<char>, Seq<char>)>)
    ensures
        first_header_problem(h) is None <==> all_pairs_ok(h),
    decreases h.len(),
{
    if h.len() > 0 {
        let t = h.drop_first();
        lemma_first_header_problem_none(t);
        if all_pairs_ok(h) {
            assert(header_ok(h[0].0, h[0].1));
            assert forall|i: int| 0 <= i < t.len() implies header_ok(#[trigger] t[i].0, t[i].1) by {
                assert(t[i] == h[i + 1]);
            }
        }
        if first_header_problem(h) is None {
            assert forall|i: int| 0 <= i < h.len() implies header_ok(#[trigger] h[i].0, h[i].1) by {
                if i > 0 {
                    assert(t[i - 1] == h[i]);
                }
            }
        }
    }
}

/// Creating a link: the request is accepted exactly when its URL passes the
/// URL rule, it has at most sixteen header pairs, each passes the header rule,
/// and the pairs encode; the URL stored and answered is the parser's full
/// serialization of the given URL (query and fragment included), and the
/// stored header text is the encoding of the pairs as given.
pub proof fn law_created_link_keeps_the_url(url: Seq<char>, headers: Seq<(Seq<char>, Seq<char>)>)
    ensures
        spec_prepare_link(url, headers) is Ok <==> ({
            &&& url_parse(url) is Ok
            &&& (url_parse(url)->Ok_0.scheme == "http"@ || url_parse(url)->Ok_0.scheme == "https"@)
            &&& headers.len() <= 16
            &&& all_pairs_ok(headers)
            &&& json_of_pairs(headers) is Some
        }),
        spec_prepare_link(url, headers) is Ok ==> spec_prepare_link(url, headers)->Ok_0 == (
            url_parse(url)->Ok_0.serialization,
            json_of_pairs(headers)->Some_0,
        ),
{
    lemma_first_header_problem_none(headers);
}

/// The header rule, byte by byte: a pair is accepted exactly when its name
/// is 1 to 128 bytes, each a letter, a digit or one of ``!#$%&'*+-.^_`|~``,
/// and is none of the six structural headers in any letter case, and its
/// value is at most 1024 bytes, each a tab or in `0x20..=0x7e`.
pub proof fn law_header_rule(name: Seq<char>, value: Seq<char>)
    ensures
        header_ok(name, value) <==> ({
            let n = encode_utf8(name);
            let v = encode_utf8(value);
            &&& 1 <= n.len() <= 128
            &&& forall|i: int|
                0 <= i < n.len() ==> {
                    let b = #[trigger] n[i];
                    ||| (0x30 <= b && b <= 0x39) || (0x41 <= b && b <= 0x5a) || (0x61 <= b && b <= 0x7a)
                    ||| b == 0x21 || b == 0x23 || b == 0x24 || b == 0x25 || b == 0x26 || b == 0x27
                    ||| b == 0x2a || b == 0x2b || b == 0x2d || b == 0x2e || b == 0x5e || b == 0x5f
                    ||| b == 0x60 || b == 0x7c || b == 0x7e
                }
            &&& lower_bytes(n) != ascii_bytes("location"@)
            &&& lower_bytes(n) != ascii_bytes("content-length"@)
            &&& lower_bytes(n) != ascii_bytes("transfer-encoding"@)
            &&& lower_bytes(n) != ascii_bytes("connection"@)
            &&& lower_bytes(n) != ascii_bytes("content-type"@)
            &&& lower_bytes(n) != ascii_bytes("content-encoding"@)
            &&& v.len() <= 1024
            &&& forall|i: int| 0 <= i < v.len() ==> (#[trigger] v[i] == 0x09 || (0x20 <= v[i] && v[i] <= 0x7e))
        }),
{
    let d = crate::validate::header_denylist();
    assert(d[0] == "location"@);
    assert(d[1] == "content-length"@);
    assert(d[2] == "transfer-encoding"@);
    assert(d[3] == "connection"@);
    assert(d[4] == "content-type"@);
    assert(d[5] == "content-encoding"@);
}

/// The header pair a `-H` flag `f` spells when its first `:` is at `k`: the
/// trimmed text before it and the trimmed text after it.
pub open spec fn flag_pair_at(f: Seq<char>, k: int) -> (Seq<char>, Seq<char>) {
    (trim(f.subrange(0, k)), trim(f.subrange(k + 1, f.len() as int)))
}

/// The flag `f` has a `:`, and the pair it spells passes the header rule.
pub open spec fn flag_accepted(f: Seq<char>) -> bool {
    exists|k: int|
        #![trigger is_first_index(f, ':', k)]
        is_first_index(f, ':', k) && header_ok(flag_pair_at(f, k).0, flag_pair_at(f, k).1)
}

/// The flag `f` has a `:`, and `p` is the pair it spells.
pub open spec fn flag_spells(f: Seq<char>, p: (Seq<char>, Seq<char>)) -> bool {
    exists|k: int| #![trigger is_first_index(f, ':', k)] is_first_index(f, ':', k) && p == flag_pair_at(f, k)
}

proof fn lemma_one_flag(f: Seq<char>)
    ensures
        parse_header_flag(f) is Ok <==> flag_accepted(f),
        parse_header_flag(f) is Ok ==> flag_spells(f, parse_header_flag(f)->Ok_0),
{
    if exists|k: int| is_first_index(f, ':', k) {
        let k = choose|k: int| is_first_index(f, ':', k);
        let p = flag_pair_at(f, k);
        assert(crate::text::split_once(f, ':') == Some((f.subrange(0, k), f.subrange(k + 1, f.len() as int))));
        assert(parse_header_flag(f) is Ok <==> header_ok(p.0, p.1));
        if flag_accepted(f) {
            let k2 = choose|k2: int| #![trigger is_first_index(f, ':', k2)] is_first_index(f, ':', k2) && header_ok(flag_pair_at(f, k2).0, flag_pair_at(f, k2).1);
            lemma_first_index_unique(f, ':', k, k2);
        }
        if parse_header_flag(f) is Ok {
            assert(parse_header_flag(f)->Ok_0 == p);
            assert(is_first_index(f, ':', k));
        }
    }
}

proof fn lemma_all_flags(raw: Seq<Seq<char>>)
    ensures
        parse_header_flags(raw) is Ok <==> forall|i: int| 0 <= i < raw.len() ==> #[trigger] flag_accepted(raw[i]),
        parse_header_flags(raw) is Ok ==> parse_header_flags(raw)->Ok_0.len() == raw.len(),
        parse_header_flags(raw) is Ok ==> forall|i: int|
            0 <= i < raw.len() ==> #[trigger] flag_spells(raw[i], parse_header_flags(raw)->Ok_0[i]),
    decreases raw.len(),
{
    if raw.len() > 0 {
        let p = raw.drop_last();
        let last = raw[raw.len() - 1];
        lemma_all_flags(p);
        lemma_one_flag(last);
        if forall|i: int| 0 <= i < raw.len() ==> #[trigger] flag_accepted(raw[i]) {
            assert forall|i: int| 0 <= i < p.len() implies #[trigger] flag_accepted(p[i]) by {
                assert(p[i] == raw[i]);
            }
            assert(flag_accepted(last));
        }
        if parse_header_flags(raw) is Ok {
            let h = parse_header_flags(raw)->Ok_0;
            let hp = parse_header_flags(p)->Ok_0;
            let q = parse_header_flag(last)->Ok_0;
            assert(h == hp.push(q));
            assert forall|i: int| 0 <= i < raw.len() implies flag_accepted(raw[i]) && #[trigger] flag_spells(raw[i], h[i]) by {
                if i < raw.len() - 1 {
                    assert(p[i] == raw[i]);
                    assert(h[i] == hp[i]);
                    assert(flag_accepted(p[i]));
                    assert(flag_spells(p[i], hp[i]));
                } else {
                    assert(h[i] == q);
                }
            }
            assert forall|i: int| 0 <= i < raw.len() implies #[trigger] flag_accepted(raw[i]) by {
                assert(flag_spells(raw[i], h[i]));
            }
        }
    }
}

/// The `-H` flags: they are accepted exactly when there are at most sixteen
/// and each has a `:` whose trimmed sides form a pair that passes the header
/// rule; the pairs sent are then, one per flag and in order, the trimmed text
/// before the first `:` and the trimmed text after it.
pub proof fn law_header_flags_become_pairs(raw: Seq<Seq<char>>)
    ensures
        spec_parse_headers(raw) is Ok <==> (raw.len() <= 16 && forall|i: int|
            0 <= i < raw.len() ==> #[trigger] flag_accepted(raw[i])),
        spec_parse_headers(raw) is Ok ==> spec_parse_headers(raw)->Ok_0.len() == raw.len(),
        spec_parse_headers(raw) is Ok ==> forall|i: int|
            0 <= i < raw.len() ==> #[trigger] flag_spells(raw[i], spec_parse_headers(raw)->Ok_0[i]),
{
    lemma_all_flags(raw);
}

/// Shortening checks: a run goes ahead exactly when it has at least one URL,
/// its `-H` flags are accepted, every URL passes the URL rule, and `--qr-svg`
/// comes with exactly one URL; the pairs sent with every URL are then all the
/// parsed `-H` flags, whatever the number of URLs.
pub proof fn law_shorten_sends_every_flag(urls: Seq<Seq<char>>, headers: Seq<Seq<char>>, qr_svg: bool)
    ensures
        spec_prepare_shorten(urls, headers, qr_svg) is Ok <==> ({
            &&& urls.len() > 0
            &&& spec_parse_headers(headers) is Ok
            &&& forall|i: int| 0 <= i < urls.len() ==> (#[trigger] spec_check_url(urls[i])) is Ok
            &&& (!qr_svg || urls.len() == 1)
        }),
        spec_prepare_shorten(urls, headers, qr_svg) is Ok ==> spec_prepare_shorten(urls, headers, qr_svg)
            == spec_parse_headers(headers),
{
    lemma_no_url_problem_all_ok(urls);
}

/// `--name` with no `=` in `name` is read as the long option `name` with no
/// inline value.
proof fn lemma_long_option_token(s: ArgView, name: Seq<char>, rest: Seq<Seq<char>>)
    requires
        !s.only_positional,
        name.len() > 0,
        forall|k: int| 0 <= k < name.len() ==> name[k] != '=',
    ensures
        arg_step(s, seq!["--"@ + name] + rest) == match long_option(s, name, None, seq!["--"@ + name] + rest) {
            Err(e) => Err(e),
            Ok((s2, n)) => Ok((ArgView { after_url: false, ..s2 }, n)),
        },
{
    reveal_strlit("--");
    let t = "--"@ + name;
    let toks = seq![t] + rest;
    assert(toks[0] == t);
    assert(t.len() > 2);
    assert(t != "--"@);
    assert(t[0] == '-' && t[1] == '-');
    let body = t.subrange(2, t.len() as int);
    assert(body =~= name);
    assert(!exists|k: int| crate::text::is_first_index(body, '=', k));
    assert(split_long(body) == (name, None::<Seq<char>>));
}

/// Each of `--qr`, `--qr-svg` and `--valid`, given once at the top level,
/// turns on its own setting and nothing else.
pub proof fn law_flags_set_their_own_field(s: ArgView, rest: Seq<Seq<char>>)
    requires
        s.stage is Top,
        !s.only_positional,
    ensures
        !s.qr ==> arg_step(s, seq!["--qr"@] + rest) == Ok::<(ArgView, nat), ArgErrorKind>(
            (ArgView { qr: true, after_url: false, ..s }, 1),
        ),
        !s.qr_svg ==> arg_step(s, seq!["--qr-svg"@] + rest) == Ok::<(ArgView, nat), ArgErrorKind>(
            (ArgView { qr_svg: true, after_url: false, ..s }, 1),
        ),
        !s.valid ==> arg_step(s, seq!["--valid"@] + rest) == Ok::<(ArgView, nat), ArgErrorKind>(
            (ArgView { valid: true, after_url: false, ..s }, 1),
        ),
{
    reveal_strlit("--");
    reveal_strlit("--qr");
    reveal_strlit("--qr-svg");
    reveal_strlit("--valid");
    reveal_strlit("qr");
    reveal_strlit("qr-svg");
    reveal_strlit("valid");
    reveal_strlit("help");
    assert("--qr"@ =~= "--"@ + "qr"@);
    assert("--qr-svg"@ =~= "--"@ + "qr-svg"@);
    assert("--valid"@ =~= "--"@ + "valid"@);
    lemma_long_option_token(s, "qr"@, rest);
    lemma_long_option_token(s, "qr-svg"@, rest);
    lemma_long_option_token(s, "valid"@, rest);
    assert("qr"@ != "help"@);
    assert("qr-svg"@ != "help"@ && "qr-svg"@ != "qr"@);
    assert("valid"@ != "help"@ && "valid"@ != "qr"@ && "valid"@ != "qr-svg"@);
}

/// After a URL, every further argument that does not look like an option is
/// one more URL.
proof fn lemma_urls_after_url(s: ArgView, toks: Seq<Seq<char>>)
    requires
        s.stage is Top,
        !s.only_positional,
        s.after_url,
        forall|i: int| 0 <= i < toks.len() ==> !looks_like_option(#[trigger] toks[i]),
    ensures
        arg_run(s, toks) == Ok::<ArgView, ArgErrorKind>(ArgView { urls: s.urls + toks, ..s }),
    decreases toks.len(),
{
    reveal_strlit("--");
    if toks.len() == 0 {
        assert(s.urls + toks =~= s.urls);
    } else {
        let t = toks[0];
        assert(!looks_like_option(t));
        assert(t != "--"@);
        let s2 = ArgView { urls: s.urls.push(t), after_url: true, ..s };
        assert(arg_step(s, toks) == Ok::<(ArgView, nat), ArgErrorKind>((s2, 1)));
        let more = toks.subrange(1, toks.len() as int);
        assert forall|i: int| 0 <= i < more.len() implies !looks_like_option(#[trigger] more[i]) by {
            assert(more[i] == toks[i + 1]);
        }
        lemma_urls_after_url(s2, more);
        assert(s.urls.push(t) + more =~= s.urls + toks);
    }
}

/// From a state with no URL yet, URLs that do not look like options and do
/// not start with a subcommand name are read as URLs, in order.
proof fn lemma_first_urls(a: ArgView, urls: Seq<Seq<char>>)
    requires
        a.stage is Top,
        !a.only_positional,
        !a.after_url,
        a.urls == Seq::<Seq<char>>::empty(),
        urls.len() >= 1,
        forall|i: int| 0 <= i < urls.len() ==> !looks_like_option(#[trigger] urls[i]),
        urls[0] != "setup"@,
        urls[0] != "status"@,
        urls[0] != "help"@,
    ensures
        arg_run(a, urls) == Ok::<ArgView, ArgErrorKind>(ArgView { urls: urls, after_url: true, ..a }),
{
    reveal_strlit("--");
    let t = urls[0];
    assert(!looks_like_option(t));
    assert(t != "--"@);
    let more = urls.subrange(1, urls.len() as int);
    assert forall|i: int| 0 <= i < more.len() implies !looks_like_option(#[trigger] more[i]) by {
        assert(more[i] == urls[i + 1]);
    }
    let a1 = ArgView { urls: a.urls.push(t), after_url: true, ..a };
    assert(arg_step(a, urls) == Ok::<(ArgView, nat), ArgErrorKind>((a1, 1)));
    lemma_urls_after_url(a1, more);
    assert(a.urls.push(t) + more =~= urls);
}

/// The command line `prog flag urls...` reads as the flag's state followed
/// by the URLs.
proof fn lemma_flag_line(prog: Seq<char>, flag: Seq<char>, urls: Seq<Seq<char>>)
    requires
        arg_step(initial_view(), seq![flag] + urls) is Ok,
        arg_step(initial_view(), seq![flag] + urls)->Ok_0.1 == 1,
    ensures
        spec_parse_args(seq![prog, flag] + urls) == match arg_run(
            arg_step(initial_view(), seq![flag] + urls)->Ok_0.0,
            urls,
        ) {
            Err(k) => Err(k),
            Ok(v) => crate::args::finish(v),
        },
{
    let args = seq![prog, flag] + urls;
    let toks = seq![flag] + urls;
    assert(args.subrange(1, args.len() as int) =~= toks);
    assert(toks.subrange(1, toks.len() as int) =~= urls);
}

/// `lonk --qr-svg URL...`, `lonk --qr URL...` and `lonk --valid URL...`: the
/// URLs in order, with exactly the one flag set and no subcommand, whenever
/// no URL looks like an option and the first is not a subcommand name.
pub proof fn law_flag_and_urls_command_line(prog: Seq<char>, urls: Seq<Seq<char>>)
    requires
        urls.len() >= 1,
        forall|i: int| 0 <= i < urls.len() ==> !looks_like_option(#[trigger] urls[i]),
        urls[0] != "setup"@,
        urls[0] != "status"@,
        urls[0] != "help"@,
    ensures
        spec_parse_args(seq![prog, "--qr-svg"@] + urls) == Ok::<ArgView, ArgErrorKind>(
            ArgView { urls: urls, qr_svg: true, after_url: true, ..initial_view() },
        ),
        spec_parse_args(seq![prog, "--qr"@] + urls) == Ok::<ArgView, ArgErrorKind>(
            ArgView { urls: urls, qr: true, after_url: true, ..initial_view() },
        ),
        spec_parse_args(seq![prog, "--valid"@] + urls) == Ok::<ArgView, ArgErrorKind>(
            ArgView { urls: urls, valid: true, after_url: true, ..initial_view() },
        ),
{
    let i0 = initial_view();
    law_flags_set_their_own_field(i0, urls);
    lemma_flag_line(prog, "--qr-svg"@, urls);
    lemma_flag_line(prog, "--qr"@, urls);
    lemma_flag_line(prog, "--valid"@, urls);
    lemma_first_urls(ArgView { qr_svg: true, after_url: false, ..i0 }, urls);
    lemma_first_urls(ArgView { qr: true, after_url: false, ..i0 }, urls);
    lemma_first_urls(ArgView { valid: true, after_url: false, ..i0 }, urls);
}

/// `lonk status` exits 0 exactly when the server reports the destination
/// alive, 1 when it reports it dead or does not know the slug, and 2 for any
/// other failure; it prints one line, on stdout exactly for a report.
pub proof fn law_status_exit_codes(slug: Seq<char>, reply: StatusReply)
    ensures
        spec_status_outcome(slug, reply).0.len() == 1,
        spec_status_outcome(slug, reply).0[0].0 <==> reply is Body,
        spec_status_outcome(slug, reply).1 == 0 <==> (reply matches StatusReply::Body(b) && b.alive),
        spec_status_outcome(slug, reply).1 == 1 <==> ((reply matches StatusReply::Body(b) && !b.alive)
            || reply == StatusReply::HttpError(404)),
        spec_status_outcome(slug, reply).1 == 2 <==> (reply is BadBody || reply is Transport || (
        reply matches StatusReply::HttpError(c) && c != 404)),
{
}

/// A short link is printed alone on stdout unless a QR code is asked for;
/// with `--qr-svg` the link goes to stderr and the SVG to stdout; with `--qr`
/// the link is followed on stdout by its terminal code. The run goes on
/// exactly when the requested code can be drawn.
pub proof fn law_emit_streams(short: Seq<char>, index: nat, qr: bool, qr_svg: bool)
    ensures
        !qr && !qr_svg ==> spec_emit(short, index, qr, qr_svg) == (seq![(true, short)], true),
        qr_svg ==> (spec_emit(short, index, qr, qr_svg).1 <==> qr_svg_image(encode_utf8(short), 256, 256) is Ok),
        qr_svg && !qr && qr_svg_image(encode_utf8(short), 256, 256) is Ok ==> spec_emit(
            short,
            index,
            qr,
            qr_svg,
        ).0 == seq![(false, short), (true, qr_svg_image(encode_utf8(short), 256, 256)->Ok_0)],
        !qr_svg && qr ==> (spec_emit(short, index, qr, qr_svg).1 <==> qr_unicode_image(encode_utf8(short)) is Ok),
        !qr_svg && qr && index == 0 ==> spec_emit(short, index, qr, qr_svg).0[0] == (true, short),
        !qr_svg && qr && index > 0 ==> spec_emit(short, index, qr, qr_svg).0.take(2) == seq![(true, Seq::<char>::empty()), (true, short)],
{
    let (lines, _) = spec_emit(short, index, qr, qr_svg);
    if !qr_svg && qr && index > 0 {
        assert(lines.take(2) =~= seq![(true, Seq::<char>::empty()), (true, short)]);
    }
}

/// A destination is alive exactly when the final response is a 2xx; the
/// report carries the final status when there was a response, and the
/// transport error text when there was none.
pub proof fn law_destination_alive(o: ProbeOutcome)
    ensures
        spec_destination_status(o).0 <==> (o matches ProbeOutcome::Response(c) && 200 <= c && c < 300),
        spec_destination_status(o).1 is Some <==> !(o is Transport),
        o matches ProbeOutcome::Response(c) ==> spec_destination_status(o).1 == Some(c),
        o matches ProbeOutcome::ErrorStatus(c) ==> spec_destination_status(o).1 == Some(c),
        spec_destination_status(o).2 is Some <==> o is Transport,
{
}

/// The configuration directory: `LONK_CONFIG_DIR` itself when set; else
/// `lonk` under `XDG_CONFIG_HOME` when set; else `.config/lonk` under `HOME`,
/// with a single `/` between parts.
pub proof fn law_config_dir_precedence(explicit: Option<Seq<char>>, xdg: Option<Seq<char>>, home: Seq<char>)
    ensures
        explicit matches Some(d) ==> spec_config_dir(explicit, xdg, home) == d,
        explicit is None && xdg is Some ==> spec_config_dir(explicit, xdg, home) == if xdg->Some_0.len()
            == 0 || xdg->Some_0.last() == '/' {
            xdg->Some_0 + "lonk"@
        } else {
            xdg->Some_0 + "/lonk"@
        },
        explicit is None && xdg is None ==> spec_config_dir(explicit, xdg, home) == if home.len() == 0
            || home.last() == '/' {
            home + ".config/lonk"@
        } else {
            home + "/.config/lonk"@
        },
{
    reveal_strlit("lonk");
    reveal_strlit("/lonk");
    reveal_strlit(".config");
    reveal_strlit("/");
    reveal_strlit(".config/lonk");
    reveal_strlit("/.config/lonk");
    if explicit is None && xdg is Some {
        let x = xdg->Some_0;
        assert(x + "/"@ + "lonk"@ =~= x + "/lonk"@);
    }
    if explicit is None && xdg is None {
        let h1 = if home.len() == 0 || home.last() == '/' { home + ".config"@ } else { home + "/"@ + ".config"@ };
        assert(h1.len() > 0 && h1.last() == 'g');
        assert(h1 + "/"@ + "lonk"@ =~= if home.len() == 0 || home.last() == '/' {
            home + ".config/lonk"@
        } else {
            home + "/.config/lonk"@
        });
    }
}

/// `segs[j]` is a non-empty segment and every segment after it is empty.
pub open spec fn is_last_nonempty_at(segs: Seq<Seq<char>>, j: int) -> bool {
    &&& 0 <= j < segs.len()
    &&& segs[j].len() > 0
    &&& forall|k: int| j < k < segs.len() ==> (#[trigger] segs[k]).len() == 0
}

proof fn lemma_last_nonempty(segs: Seq<Seq<char>>)
    ensures
        last_nonempty(segs) is Some <==> exists|j: int| 0 <= j < segs.len() && (#[trigger] segs[j]).len() > 0,
        last_nonempty(segs) is Some ==> exists|j: int|
            #[trigger] is_last_nonempty_at(segs, j) && segs[j] == last_nonempty(segs)->Some_0,
    decreases segs.len(),
{
    if segs.len() > 0 {
        let p = segs.drop_last();
        let n = segs.len() - 1;
        lemma_last_nonempty(p);
        if segs.last().len() > 0 {
            assert(is_last_nonempty_at(segs, n));
        } else {
            if exists|j: int| 0 <= j < segs.len() && (#[trigger] segs[j]).len() > 0 {
                let j = choose|j: int| 0 <= j < segs.len() && (#[trigger] segs[j]).len() > 0;
                assert(j < n);
                assert(p[j] == segs[j]);
            }
            if exists|j: int| 0 <= j < p.len() && (#[trigger] p[j]).len() > 0 {
                let j = choose|j: int| 0 <= j < p.len() && (#[trigger] p[j]).len() > 0;
                assert(segs[j] == p[j]);
            }
            if last_nonempty(segs) is Some {
                let j = choose|j: int| #[trigger] is_last_nonempty_at(p, j) && p[j] == last_nonempty(p)->Some_0;
                assert(p[j] == segs[j]);
                assert forall|k: int| j < k < segs.len() implies (#[trigger] segs[k]).len() == 0 by {
                    if k < n {
                        assert(p[k] == segs[k]);
                    }
                }
                assert(is_last_nonempty_at(segs, j));
            }
        }
    }
}

/// `lonk status` on a full short URL (scheme in any letter case): it is
/// accepted exactly when the URL passes the URL rule and has a non-empty path
/// segment, and the slug is the last non-empty path segment.
pub proof fn law_slug_from_url(target: Seq<char>)
    requires
        starts_with_ignore_ascii_case(target, "http://"@) || starts_with_ignore_ascii_case(target, "https://"@),
    ensures
        spec_extract_slug(target) is Ok <==> ({
            let p = url_parse(target);
            &&& p is Ok
            &&& (p->Ok_0.scheme == "http"@ || p->Ok_0.scheme == "https"@)
            &&& p->Ok_0.segments is Some
            &&& exists|j: int|
                0 <= j < p->Ok_0.segments->Some_0.len() && (#[trigger] p->Ok_0.segments->Some_0[j]).len() > 0
        }),
        spec_extract_slug(target) is Ok ==> exists|j: int|
            #[trigger] is_last_nonempty_at(url_parse(target)->Ok_0.segments->Some_0, j)
                && url_parse(target)->Ok_0.segments->Some_0[j] == spec_extract_slug(target)->Ok_0,
{
    if url_parse(target) is Ok {
        if url_parse(target)->Ok_0.segments is Some {
            lemma_last_nonempty(url_parse(target)->Ok_0.segments->Some_0);
        }
    }
}

/// `-H VALUE` and `--header VALUE` add the value as one more header flag, and
/// `--profile NAME` names the profile, when the value does not look like an
/// option; each takes two arguments.
pub proof fn law_options_take_their_value(s: ArgView, v: Seq<char>, rest: Seq<Seq<char>>)
    requires
        s.stage is Top,
        !s.only_positional,
        !looks_like_option(v),
    ensures
        arg_step(s, seq!["-H"@, v] + rest) == Ok::<(ArgView, nat), ArgErrorKind>(
            (ArgView { headers: s.headers.push(v), after_url: false, ..s }, 2),
        ),
        arg_step(s, seq!["--header"@, v] + rest) == Ok::<(ArgView, nat), ArgErrorKind>(
            (ArgView { headers: s.headers.push(v), after_url: false, ..s }, 2),
        ),
        s.profile is None ==> arg_step(s, seq!["--profile"@, v] + rest) == Ok::<(ArgView, nat), ArgErrorKind>(
            (ArgView { profile: Some(v), after_url: false, ..s }, 2),
        ),
{
    reveal_strlit("--");
    reveal_strlit("-H");
    reveal_strlit("--header");
    reveal_strlit("--profile");
    reveal_strlit("header");
    reveal_strlit("profile");
    reveal_strlit("help");
    reveal_strlit("qr");
    reveal_strlit("qr-svg");
    reveal_strlit("valid");
    let th = seq!["-H"@, v] + rest;
    assert(th[0] == "-H"@ && th[1] == v);
    assert("-H"@.subrange(2, 2) =~= Seq::<char>::empty());
    assert("--header"@ =~= "--"@ + "header"@);
    assert("--profile"@ =~= "--"@ + "profile"@);
    let tl = seq!["--header"@, v] + rest;
    let tp = seq!["--profile"@, v] + rest;
    assert(tl =~= seq!["--"@ + "header"@] + (seq![v] + rest));
    assert(tp =~= seq!["--"@ + "profile"@] + (seq![v] + rest));
    lemma_long_option_token(s, "header"@, seq![v] + rest);
    lemma_long_option_token(s, "profile"@, seq![v] + rest);
    assert(tl[1] == v && tp[1] == v);
    assert("header"@ != "help"@ && "header"@ != "qr"@ && "header"@ != "qr-svg"@ && "header"@ != "valid"@
        && "header"@ != "profile"@);
    assert("profile"@ != "help"@ && "profile"@ != "qr"@ && "profile"@ != "qr-svg"@ && "profile"@ != "valid"@);
}

/// `lonk setup [BASE_URL]` names the setup subcommand with its optional base
/// URL.
pub proof fn law_setup_command_line(prog: Seq<char>, b: Seq<char>)
    requires
        !looks_like_option(b),
    ensures
        spec_parse_args(seq![prog, "setup"@, b]) == Ok::<ArgView, ArgErrorKind>(
            ArgView { stage: StageView::Setup(Some(b)), ..initial_view() },
        ),
        spec_parse_args(seq![prog, "setup"@]) == Ok::<ArgView, ArgErrorKind>(
            ArgView { stage: StageView::Setup(None), ..initial_view() },
        ),
{
    reveal_strlit("--");
    reveal_strlit("setup");
    reveal_strlit("status");
    reveal_strlit("help");
    let i0 = initial_view();
    assert(!looks_like_option("setup"@));
    assert("setup"@ != "--"@);
    assert(b != "--"@);
    let a1 = seq![prog, "setup"@, b];
    let a2 = seq![prog, "setup"@];
    let e = Seq::<Seq<char>>::empty();
    assert(a1.subrange(1, 3) =~= seq!["setup"@, b]);
    assert(seq!["setup"@, b].subrange(1, 2) =~= seq![b]);
    assert(seq![b].subrange(1, 1) =~= e);
    assert(a2.subrange(1, 2) =~= seq!["setup"@]);
    assert(seq!["setup"@].subrange(1, 1) =~= e);
    let su = ArgView { stage: StageView::Setup(None), ..i0 };
    let sb = ArgView { stage: StageView::Setup(Some(b)), ..i0 };
    assert(arg_step(i0, seq!["setup"@, b]) == Ok::<(ArgView, nat), ArgErrorKind>((su, 1)));
    assert(arg_step(su, seq![b]) == Ok::<(ArgView, nat), ArgErrorKind>((sb, 1)));
    assert(arg_step(i0, seq!["setup"@]) == Ok::<(ArgView, nat), ArgErrorKind>((su, 1)));
    assert(arg_run(sb, e) == Ok::<ArgView, ArgErrorKind>(sb));
    assert(arg_run(su, seq![b]) == Ok::<ArgView, ArgErrorKind>(sb));
    assert(arg_run(i0, seq!["setup"@, b]) == Ok::<ArgView, ArgErrorKind>(sb));
    assert(arg_run(su, e) == Ok::<ArgView, ArgErrorKind>(su));
    assert(arg_run(i0, seq!["setup"@]) == Ok::<ArgView, ArgErrorKind>(su));
}

/// `lonk status TARGET` names the status subcommand with its target;
/// `status` without a target is refused.
pub proof fn law_status_command_line(prog: Seq<char>, b: Seq<char>)
    requires
        !looks_like_option(b),
    ensures
        spec_parse_args(seq![prog, "status"@, b]) == Ok::<ArgView, ArgErrorKind>(
            ArgView { stage: StageView::Status(Some(b)), ..initial_view() },
        ),
        spec_parse_args(seq![prog, "status"@]) == Err::<ArgView, ArgErrorKind>(
            ArgErrorKind::MissingRequiredArgument,
        ),
{
    reveal_strlit("--");
    reveal_strlit("setup");
    reveal_strlit("status");
    reveal_strlit("help");
    let i0 = initial_view();
    assert(!looks_like_option("status"@));
    assert("status"@ != "--"@ && "status"@ != "setup"@);
    assert(b != "--"@);
    let a3 = seq![prog, "status"@, b];
    let a4 = seq![prog, "status"@];
    let e = Seq::<Seq<char>>::empty();
    assert(a3.subrange(1, 3) =~= seq!["status"@, b]);
    assert(seq!["status"@, b].subrange(1, 2) =~= seq![b]);
    assert(seq![b].subrange(1, 1) =~= e);
    assert(a4.subrange(1, 2) =~= seq!["status"@]);
    assert(seq!["status"@].subrange(1, 1) =~= e);
    let st = ArgView { stage: StageView::Status(None), ..i0 };
    let sb = ArgView { stage: StageView::Status(Some(b)), ..i0 };
    assert(arg_step(i0, seq!["status"@, b]) == Ok::<(ArgView, nat), ArgErrorKind>((st, 1)));
    assert(arg_step(st, seq![b]) == Ok::<(ArgView, nat), ArgErrorKind>((sb, 1)));
    assert(arg_step(i0, seq!["status"@]) == Ok::<(ArgView, nat), ArgErrorKind>((st, 1)));
    assert(arg_run(sb, e) == Ok::<ArgView, ArgErrorKind>(sb));
    assert(arg_run(st, seq![b]) == Ok::<ArgView, ArgErrorKind>(sb));
    assert(arg_run(i0, seq!["status"@, b]) == Ok::<ArgView, ArgErrorKind>(sb));
    assert(arg_run(st, e) == Ok::<ArgView, ArgErrorKind>(st));
    assert(arg_run(i0, seq!["status"@]) == Ok::<ArgView, ArgErrorKind>(st));
}

proof fn lemma_trim_start(s: Seq<char>) -> (i: int)
    ensures
        0 <= i <= s.len(),
        trim_start(s) == s.subrange(i, s.len() as int),
        forall|k: int| 0 <= k < i ==> is_ws(#[trigger] s[k]),
        i < s.len() ==> !is_ws(s[i]),
    decreases s.len(),
{
    if s.len() > 0 && is_ws(s[0]) {
        let t = s.drop_first();
        let i1 = lemma_trim_start(t);
        assert forall|k: int| 0 <= k < i1 + 1 implies is_ws(#[trigger] s[k]) by {
            if k > 0 {
                assert(s[k] == t[k - 1]);
            }
        }
        assert(t.subrange(i1, t.len() as int) =~= s.subrange(i1 + 1, s.len() as int));
        if i1 < t.len() {
            assert(s[i1 + 1] == t[i1]);
        }
        i1 + 1
    } else {
        assert(s.subrange(0, s.len() as int) =~= s);
        0
    }
}

proof fn lemma_trim_end(s: Seq<char>) -> (j: int)
    ensures
        0 <= j <= s.len(),
        trim_end(s) == s.subrange(0, j),
        forall|k: int| j <= k < s.len() ==> is_ws(#[trigger] s[k]),
        j > 0 ==> !is_ws(s[j - 1]),
    decreases s.len(),
{
    if s.len() > 0 && is_ws(s.last()) {
        let t = s.drop_last();
        let j1 = lemma_trim_end(t);
        assert forall|k: int| j1 <= k < s.len() implies is_ws(#[trigger] s[k]) by {
            if k < s.len() - 1 {
                assert(s[k] == t[k]);
            }
        }
        assert(t.subrange(0, j1) =~= s.subrange(0, j1));
        if j1 > 0 {
            assert(s[j1 - 1] == t[j1 - 1]);
        }
        j1
    } else {
        assert(s.subrange(0, s.len() as int) =~= s);
        s.len() as int
    }
}

/// Trimming: the result is a stretch of the text whose first and last
/// characters are not whitespace, and everything cut off around it is
/// whitespace (so base URLs and `-H` sides lose exactly their surrounding
/// blanks).
pub proof fn law_trim_cuts_only_whitespace(s: Seq<char>)
    ensures
        exists|i: int, j: int|
            0 <= i <= j <= s.len() && trim(s) == #[trigger] s.subrange(i, j) && (forall|k: int|
                0 <= k < i ==> is_ws(#[trigger] s[k])) && (forall|k: int| j <= k < s.len() ==> is_ws(
                #[trigger] s[k],
            )),
        trim(s).len() > 0 ==> !is_ws(trim(s)[0]) && !is_ws(trim(s).last()),
{
    let i = lemma_trim_start(s);
    let t = trim_start(s);
    let j = lemma_trim_end(t);
    assert(trim(s) == t.subrange(0, j));
    assert(t.subrange(0, j) =~= s.subrange(i, i + j));
    assert forall|k: int| i + j <= k < s.len() implies is_ws(#[trigger] s[k]) by {
        assert(s[k] == t[k - i]);
    }
    if j > 0 {
        assert(trim(s)[0] == t[0]);
        assert(t[0] == s[i]);
        assert(trim(s).last() == t[j - 1]);
        if j < t.len() {
        }
    }
    assert(0 <= i <= i + j <= s.len() && trim(s) == s.subrange(i, i + j));
}

/// The decimal value a digit string spells.
pub open spec fn digits_value(d: Seq<char>) -> int
    decreases d.len(),
{
    if d.len() == 0 {
        0
    } else {
        digits_value(d.drop_last()) * 10 + ((d.last() as u32) - ('0' as u32))
    }
}

proof fn lemma_digit_value(d: nat)
    requires
        d < 10,
    ensures
        (crate::text::digit_char(d) as u32) - ('0' as u32) == d,
        '0' <= crate::text::digit_char(d) && crate::text::digit_char(d) <= '9',
        d > 0 ==> crate::text::digit_char(d) != '0',
{
}

/// The decimal text of a number (used in messages such as `alive (200)`):
/// its characters are digits, it does not start with `0` unless it is `0`,
/// and it spells the number.
pub proof fn law_decimal_spells_the_number(n: nat)
    ensures
        decimal(n).len() >= 1,
        forall|i: int| 0 <= i < decimal(n).len() ==> '0' <= #[trigger] decimal(n)[i] && decimal(n)[i] <= '9',
        n > 0 ==> decimal(n)[0] != '0',
        digits_value(decimal(n)) == n,
    decreases n,
{
    lemma_digit_value(n % 10);
    let c = crate::text::digit_char(n % 10);
    if n < 10 {
        assert(decimal(n) == seq![c]);
        assert(decimal(n).drop_last() =~= Seq::<char>::empty());
        assert(digits_value(Seq::<char>::empty()) == 0);
        assert(decimal(n).last() == c);
        assert(digits_value(decimal(n)) == digits_value(decimal(n).drop_last()) * 10 + ((c as u32) - ('0' as u32)));
    } else {
        law_decimal_spells_the_number(n / 10);
        let d = decimal(n / 10);
        assert(decimal(n) == d.push(crate::text::digit_char(n % 10)));
        assert(decimal(n).drop_last() =~= d);
        assert forall|i: int| 0 <= i < decimal(n).len() implies '0' <= #[trigger] decimal(n)[i] && decimal(n)[i] <= '9' by {
            if i < d.len() {
                assert(decimal(n)[i] == d[i]);
            }
        }
        assert(decimal(n)[0] == d[0]);
        assert(n == (n / 10) * 10 + n % 10);
        assert(decimal(n).last() == c);
        assert(digits_value(decimal(n)) == digits_value(d) * 10 + ((c as u32) - ('0' as u32)));
    }
}

proof fn lemma_after_last(s: Seq<char>, c: char)
    ensures
        0 <= after_last(s, c) <= s.len(),
        after_last(s, c) > 0 ==> s[after_last(s, c) - 1] == c,
        forall|j: int| after_last(s, c) <= j < s.len() ==> #[trigger] s[j] != c,
    decreases s.len(),
{
    if s.len() > 0 && s.last() != c {
        let t = s.drop_last();
        lemma_after_last(t, c);
        assert forall|j: int| after_last(s, c) <= j < s.len() implies #[trigger] s[j] != c by {
            if j < s.len() - 1 {
                assert(s[j] == t[j]);
            }
        }
        if after_last(t, c) > 0 {
            assert(s[after_last(t, c) - 1] == t[after_last(t, c) - 1]);
        }
    }
}

/// A file name's extension (what decides an asset's content type) is the
/// text after its last `.`, when that `.` is not the name's first
/// character; it holds no `.`. A name without such a `.` has none.
pub proof fn law_extension_follows_last_dot(name: Seq<char>)
    ensures
        name_extension(name) is None <==> forall|k: int| 1 <= k < name.len() ==> #[trigger] name[k] != '.',
        name_extension(name) is Some ==> exists|k: int|
            2 <= k <= name.len() && #[trigger] name[k - 1] == '.' && name_extension(name)->Some_0
                == name.subrange(k, name.len() as int),
        name_extension(name) is Some ==> forall|j: int|
            0 <= j < name_extension(name)->Some_0.len() ==> #[trigger] name_extension(name)->Some_0[j] != '.',
{
    lemma_after_last(name, '.');
    let k = after_last(name, '.');
    if k >= 2 {
        assert(name[k - 1] == '.');
        let e = name.subrange(k, name.len() as int);
        assert forall|j: int| 0 <= j < e.len() implies #[trigger] e[j] != '.' by {
            assert(e[j] == name[k + j]);
        }
    } else {
        assert forall|j: int| 1 <= j < name.len() implies #[trigger] name[j] != '.' by {
            if j >= k {
            } else {
                assert(j == 0 || k == 1);
            }
        }
    }
}

/// The file name of a path is a non-empty last component: it holds no `/`
/// and is neither `.` nor `..`.
pub proof fn law_file_name_is_a_component(p: Seq<char>)
    ensures
        file_name(p) is Some ==> ({
            let f = file_name(p)->Some_0;
            &&& f.len() > 0
            &&& (forall|j: int| 0 <= j < f.len() ==> #[trigger] f[j] != '/')
            &&& f != "."@
            &&& f != ".."@
        }),
    decreases p.len(),
{
    let t = trim_end_char(p, '/');
    crate::cli::lemma_trim_end_char_last(p, '/');
    if t.len() > 0 {
        lemma_after_last(t, '/');
        let k = after_last(t, '/');
        let seg = t.subrange(k, t.len() as int);
        assert forall|j: int| 0 <= j < seg.len() implies #[trigger] seg[j] != '/' by {
            assert(seg[j] == t[k + j]);
        }
        assert(k < t.len()) by {
            if k == t.len() {
                assert(t[k - 1] == '/');
            }
        }
        if seg == "."@ && 0 < k && k < t.len() && t.len() <= p.len() {
            law_file_name_is_a_component(t.subrange(0, k));
        }
    }
}

} // verus!
