//! The grammar of the `lonk` command line.
//!
//! `lonk [OPTIONS] [URL]...`, `lonk [--profile NAME] setup [BASE_URL]` and
//! `lonk [--profile NAME] status TARGET`. Options: `--qr`, `--qr-svg` (not
//! together), `--valid`, `--profile NAME` (also after a subcommand), and the
//! repeatable `-H`/`--header "Name: value"`; `-h`/`--help` asks for help. A
//! value follows its option after `=`, directly (`-HX-A: 1`) or as the next
//! argument when that one does not start with `-`. After `--` every argument
//! is positional. A subcommand name (or `help`) is read as one unless it
//! comes right after a URL, where it is one more URL, or after `--`. With no
//! arguments at all, help is shown.
use vstd::prelude::*;

use crate::cli::{Cli, Cmd};
use crate::text::{find_char, is_first_index, str_equal};
use crate::types::opt_view;
use crate::urlparse::strings_view;

verus! {

/// Why a command line was not accepted (the kinds of `clap`'s errors).
#[derive(Debug, PartialEq, Eq, Clone, Copy, Structural)]
pub enum ArgErrorKind {
    /// `-h`, `--help` or `help` asked for help.
    DisplayHelp,
    /// No arguments at all: help is shown instead.
    DisplayHelpOnMissingArgumentOrSubcommand,
    /// An option given twice, or `--qr` together with `--qr-svg`.
    ArgumentConflict,
    /// An option or positional argument that has no place there.
    UnknownArgument,
    /// An option that takes a value but got none.
    InvalidValue,
    /// A flag that takes no value but got one.
    TooManyValues,
    /// `status` without its target.
    MissingRequiredArgument,
}

/// Where the parse is: before a subcommand, or inside one with its positional
/// argument so far.
pub enum StageView {
    Top,
    Setup(Option<Seq<char>>),
    Status(Option<Seq<char>>),
}

/// A command line read so far.
pub struct ArgView {
    pub urls: Seq<Seq<char>>,
    pub qr: bool,
    pub qr_svg: bool,
    pub valid: bool,
    pub profile: Option<Seq<char>>,
    pub headers: Seq<Seq<char>>,
    pub stage: StageView,
    /// A `--` was seen: every further argument is positional.
    pub only_positional: bool,
    /// The last argument read was a URL; the next plain argument is then
    /// another URL, never a subcommand name.
    pub after_url: bool,
}

pub open spec fn initial_view() -> ArgView {
    ArgView {
        urls: seq![],
        qr: false,
        qr_svg: false,
        valid: false,
        profile: None,
        headers: seq![],
        stage: StageView::Top,
        only_positional: false,
        after_url: false,
    }
}

/// An argument that would be read as an option rather than as a value.
pub open spec fn looks_like_option(t: Seq<char>) -> bool {
    t.len() >= 2 && t[0] == '-'
}

/// The value of an option that wants one: the inline text, else the next
/// argument unless it looks like an option. Also how many arguments the
/// option used.
pub open spec fn option_value(inline: Option<Seq<char>>, toks: Seq<Seq<char>>) -> Option<(Seq<char>, nat)> {
    match inline {
        Some(v) => Some((v, 1)),
        None => if toks.len() >= 2 && !looks_like_option(toks[1]) {
            Some((toks[1], 2))
        } else {
            None
        },
    }
}

/// A positional argument. At the top level it names a subcommand unless it
/// comes right after a URL or after `--`.
pub open spec fn positional(s: ArgView, t: Seq<char>) -> Result<ArgView, ArgErrorKind> {
    let fresh = !s.after_url && !s.only_positional;
    match s.stage {
        StageView::Top => if fresh && t == "setup"@ {
            Ok(ArgView { stage: StageView::Setup(None), ..s })
        } else if fresh && t == "status"@ {
            Ok(ArgView { stage: StageView::Status(None), ..s })
        } else if fresh && t == "help"@ {
            Err(ArgErrorKind::DisplayHelp)
        } else {
            Ok(ArgView { urls: s.urls.push(t), after_url: true, ..s })
        },
        StageView::Setup(None) => Ok(ArgView { stage: StageView::Setup(Some(t)), ..s }),
        StageView::Status(None) => Ok(ArgView { stage: StageView::Status(Some(t)), ..s }),
        _ => Err(ArgErrorKind::UnknownArgument),
    }
}

/// A flag of the top level that takes no value.
pub open spec fn top_flag(s: ArgView, inline: Option<Seq<char>>, already: bool) -> Result<(), ArgErrorKind> {
    if !(s.stage is Top) {
        Err(ArgErrorKind::UnknownArgument)
    } else if inline is Some {
        Err(ArgErrorKind::TooManyValues)
    } else if already {
        Err(ArgErrorKind::ArgumentConflict)
    } else {
        Ok(())
    }
}

/// `--name` or `--name=inline`.
pub open spec fn long_option(
    s: ArgView,
    name: Seq<char>,
    inline: Option<Seq<char>>,
    toks: Seq<Seq<char>>,
) -> Result<(ArgView, nat), ArgErrorKind> {
    if name == "help"@ {
        Err(ArgErrorKind::DisplayHelp)
    } else if name == "qr"@ {
        match top_flag(s, inline, s.qr) {
            Err(k) => Err(k),
            Ok(_) => Ok((ArgView { qr: true, ..s }, 1)),
        }
    } else if name == "qr-svg"@ {
        match top_flag(s, inline, s.qr_svg) {
            Err(k) => Err(k),
            Ok(_) => Ok((ArgView { qr_svg: true, ..s }, 1)),
        }
    } else if name == "valid"@ {
        match top_flag(s, inline, s.valid) {
            Err(k) => Err(k),
            Ok(_) => Ok((ArgView { valid: true, ..s }, 1)),
        }
    } else if name == "profile"@ {
        match option_value(inline, toks) {
            None => Err(ArgErrorKind::InvalidValue),
            Some((v, n)) => if s.profile is Some {
                Err(ArgErrorKind::ArgumentConflict)
            } else {
                Ok((ArgView { profile: Some(v), ..s }, n))
            },
        }
    } else if name == "header"@ {
        if !(s.stage is Top) {
            Err(ArgErrorKind::UnknownArgument)
        } else {
            match option_value(inline, toks) {
                None => Err(ArgErrorKind::InvalidValue),
                Some((v, n)) => Ok((ArgView { headers: s.headers.push(v), ..s }, n)),
            }
        }
    } else {
        Err(ArgErrorKind::UnknownArgument)
    }
}

/// The name and inline value of a long option body (the text after `--`).
pub open spec fn split_long(body: Seq<char>) -> (Seq<char>, Option<Seq<char>>) {
    if exists|k: int| is_first_index(body, '=', k) {
        let k = choose|k: int| is_first_index(body, '=', k);
        (body.subrange(0, k), Some(body.subrange(k + 1, body.len() as int)))
    } else {
        (body, None)
    }
}

/// `-c` or `-cREST`.
pub open spec fn short_option(s: ArgView, t: Seq<char>, toks: Seq<Seq<char>>) -> Result<(ArgView, nat), ArgErrorKind> {
    let c = t[1];
    let rest = t.subrange(2, t.len() as int);
    if c == 'h' {
        Err(ArgErrorKind::DisplayHelp)
    } else if c == 'H' {
        if !(s.stage is Top) {
            Err(ArgErrorKind::UnknownArgument)
        } else {
            let inline = if rest.len() == 0 {
                None
            } else if rest[0] == '=' {
                Some(rest.subrange(1, rest.len() as int))
            } else {
                Some(rest)
            };
            match option_value(inline, toks) {
                None => Err(ArgErrorKind::InvalidValue),
                Some((v, n)) => Ok((ArgView { headers: s.headers.push(v), ..s }, n)),
            }
        }
    } else {
        Err(ArgErrorKind::UnknownArgument)
    }
}

/// Read the argument `toks[0]` (and its value, when it takes the next one):
/// the new state and how many arguments were used.
pub open spec fn arg_step(s: ArgView, toks: Seq<Seq<char>>) -> Result<(ArgView, nat), ArgErrorKind> {
    let t = toks[0];
    if s.only_positional {
        match positional(s, t) {
            Err(k) => Err(k),
            Ok(s2) => Ok((s2, 1)),
        }
    } else if t == "--"@ {
        Ok((ArgView { only_positional: true, ..s }, 1))
    } else if t.len() >= 2 && t[0] == '-' && t[1] == '-' {
        let parts = split_long(t.subrange(2, t.len() as int));
        match long_option(s, parts.0, parts.1, toks) {
            Err(k) => Err(k),
            Ok((s2, n)) => Ok((ArgView { after_url: false, ..s2 }, n)),
        }
    } else if looks_like_option(t) {
        match short_option(s, t, toks) {
            Err(k) => Err(k),
            Ok((s2, n)) => Ok((ArgView { after_url: false, ..s2 }, n)),
        }
    } else {
        match positional(s, t) {
            Err(k) => Err(k),
            Ok(s2) => Ok((s2, 1)),
        }
    }
}

/// Read all of `toks` from state `s`.
pub open spec fn arg_run(s: ArgView, toks: Seq<Seq<char>>) -> Result<ArgView, ArgErrorKind>
    decreases toks.len(),
{
    if toks.len() == 0 {
        Ok(s)
    } else {
        match arg_step(s, toks) {
            Err(k) => Err(k),
            Ok((s2, n)) => if 1 <= n <= toks.len() {
                arg_run(s2, toks.subrange(n as int, toks.len() as int))
            } else {
                Err(ArgErrorKind::UnknownArgument)
            },
        }
    }
}

/// The command line of a finished read: the subcommand's arguments must be
/// complete and `--qr` does not go with `--qr-svg`.
pub open spec fn finish(s: ArgView) -> Result<ArgView, ArgErrorKind> {
    if s.stage matches StageView::Status(None) {
        Err(ArgErrorKind::MissingRequiredArgument)
    } else if s.qr && s.qr_svg {
        Err(ArgErrorKind::ArgumentConflict)
    } else {
        Ok(s)
    }
}

/// What the whole command line `args` (program name first) amounts to.
pub open spec fn spec_parse_args(args: Seq<Seq<char>>) -> Result<ArgView, ArgErrorKind> {
    if args.len() <= 1 {
        Err(ArgErrorKind::DisplayHelpOnMissingArgumentOrSubcommand)
    } else {
        match arg_run(initial_view(), args.subrange(1, args.len() as int)) {
            Err(k) => Err(k),
            Ok(s) => finish(s),
        }
    }
}

/// The parsed command line `c` is the one the view `v` describes.
pub open spec fn cli_matches(c: Cli, v: ArgView) -> bool {
    &&& strings_view(c.urls@) == v.urls
    &&& c.qr == v.qr
    &&& c.qr_svg == v.qr_svg
    &&& c.valid == v.valid
    &&& opt_view(c.profile) == v.profile
    &&& strings_view(c.headers@) == v.headers
    &&& match v.stage {
        StageView::Top => c.cmd is None,
        StageView::Setup(b) => c.cmd matches Some(Cmd::Setup { base_url }) && opt_view(base_url) == b,
        StageView::Status(t) => c.cmd matches Some(Cmd::Status { target }) && t == Some(target@),
    }
}

/// The parse state in memory.
enum Stage {
    Top,
    Setup(Option<String>),
    Status(Option<String>),
}

struct ArgState {
    urls: Vec<String>,
    qr: bool,
    qr_svg: bool,
    valid: bool,
    profile: Option<String>,
    headers: Vec<String>,
    stage: Stage,
    only_positional: bool,
    after_url: bool,
}

impl View for ArgState {
    type V = ArgView;

    closed spec fn view(&self) -> ArgView {
        ArgView {
            urls: strings_view(self.urls@),
            qr: self.qr,
            qr_svg: self.qr_svg,
            valid: self.valid,
            profile: opt_view(self.profile),
            headers: strings_view(self.headers@),
            stage: match self.stage {
                Stage::Top => StageView::Top,
                Stage::Setup(b) => StageView::Setup(opt_view(b)),
                Stage::Status(t) => StageView::Status(opt_view(t)),
            },
            only_positional: self.only_positional,
            after_url: self.after_url,
        }
    }
}

fn push_string(v: &mut Vec<String>, s: String)
    ensures
        strings_view(final(v)@) == strings_view(old(v)@).push(s@),
{
    let ghost before = v@;
    v.push(s);
    assert(strings_view(v@) =~= strings_view(before).push(s@));
}

fn read_positional(s: &mut ArgState, t: &str) -> (r: Result<(), ArgErrorKind>)
    ensures
        match positional(old(s)@, t@) {
            Ok(v) => r is Ok && final(s)@ == v,
            Err(k) => r == Err::<(), ArgErrorKind>(k),
        },
{
    proof {
        reveal_strlit("setup");
        reveal_strlit("status");
        reveal_strlit("help");
    }
    match &s.stage {
        Stage::Top => {
            let fresh = !s.after_url && !s.only_positional;
            if fresh && str_equal(t, "setup") {
                s.stage = Stage::Setup(None);
                Ok(())
            } else if fresh && str_equal(t, "status") {
                s.stage = Stage::Status(None);
                Ok(())
            } else if fresh && str_equal(t, "help") {
                Err(ArgErrorKind::DisplayHelp)
            } else {
                push_string(&mut s.urls, String::from_str(t));
                s.after_url = true;
                Ok(())
            }
        },
        Stage::Setup(None) => {
            s.stage = Stage::Setup(Some(String::from_str(t)));
            Ok(())
        },
        Stage::Status(None) => {
            s.stage = Stage::Status(Some(String::from_str(t)));
            Ok(())
        },
        _ => Err(ArgErrorKind::UnknownArgument),
    }
}

fn looks_like_option_exec(t: &str) -> (r: bool)
    ensures
        r == looks_like_option(t@),
{
    t.unicode_len() >= 2 && t.get_char(0) == '-'
}

/// The value of an option that wants one, and how many arguments it used.
fn read_option_value(inline: Option<String>, toks: &Vec<String>, i: usize) -> (r: Option<(String, usize)>)
    requires
        i < toks@.len(),
    ensures
        match option_value(opt_view(inline), strings_view(toks@).subrange(i as int, toks@.len() as int)) {
            Some(p) => r matches Some(q) && q.0@ == p.0 && q.1 as nat == p.1,
            None => r is None,
        },
{
    let ghost rest = strings_view(toks@).subrange(i as int, toks@.len() as int);
    match inline {
        Some(v) => Some((v, 1)),
        None => {
            if i < toks.len() - 1 {
                assert(rest[1] == toks@[i + 1]@);
                if !looks_like_option_exec(toks[i + 1].as_str()) {
                    return Some((toks[i + 1].clone(), 2));
                }
            }
            None
        },
    }
}

fn read_top_flag(s: &ArgState, inline: &Option<String>, already: bool) -> (r: Result<(), ArgErrorKind>)
    ensures
        r == top_flag(s@, opt_view(*inline), already),
{
    match s.stage {
        Stage::Top => {},
        _ => return Err(ArgErrorKind::UnknownArgument),
    }
    if inline.is_some() {
        Err(ArgErrorKind::TooManyValues)
    } else if already {
        Err(ArgErrorKind::ArgumentConflict)
    } else {
        Ok(())
    }
}

fn read_long(s: &mut ArgState, name: &str, inline: Option<String>, toks: &Vec<String>, i: usize) -> (r: Result<usize, ArgErrorKind>)
    requires
        i < toks@.len(),
    ensures
        match long_option(old(s)@, name@, opt_view(inline), strings_view(toks@).subrange(i as int, toks@.len() as int)) {
            Ok(p) => r matches Ok(n) && n as nat == p.1 && final(s)@ == p.0,
            Err(k) => r == Err::<usize, ArgErrorKind>(k),
        },
{
    proof {
        reveal_strlit("help");
        reveal_strlit("qr");
        reveal_strlit("qr-svg");
        reveal_strlit("valid");
        reveal_strlit("profile");
        reveal_strlit("header");
    }
    if str_equal(name, "help") {
        Err(ArgErrorKind::DisplayHelp)
    } else if str_equal(name, "qr") {
        match read_top_flag(s, &inline, s.qr) {
            Err(k) => Err(k),
            Ok(()) => {
                s.qr = true;
                Ok(1)
            },
        }
    } else if str_equal(name, "qr-svg") {
        match read_top_flag(s, &inline, s.qr_svg) {
            Err(k) => Err(k),
            Ok(()) => {
                s.qr_svg = true;
                Ok(1)
            },
        }
    } else if str_equal(name, "valid") {
        match read_top_flag(s, &inline, s.valid) {
            Err(k) => Err(k),
            Ok(()) => {
                s.valid = true;
                Ok(1)
            },
        }
    } else if str_equal(name, "profile") {
        match read_option_value(inline, toks, i) {
            None => Err(ArgErrorKind::InvalidValue),
            Some((v, n)) => {
                if s.profile.is_some() {
                    Err(ArgErrorKind::ArgumentConflict)
                } else {
                    s.profile = Some(v);
                    Ok(n)
                }
            },
        }
    } else if str_equal(name, "header") {
        match s.stage {
            Stage::Top => {},
            _ => return Err(ArgErrorKind::UnknownArgument),
        }
        match read_option_value(inline, toks, i) {
            None => Err(ArgErrorKind::InvalidValue),
            Some((v, n)) => {
                push_string(&mut s.headers, v);
                Ok(n)
            },
        }
    } else {
        Err(ArgErrorKind::UnknownArgument)
    }
}

fn read_short(s: &mut ArgState, t: &str, toks: &Vec<String>, i: usize) -> (r: Result<usize, ArgErrorKind>)
    requires
        i < toks@.len(),
        looks_like_option(t@),
    ensures
        match short_option(old(s)@, t@, strings_view(toks@).subrange(i as int, toks@.len() as int)) {
            Ok(p) => r matches Ok(n) && n as nat == p.1 && final(s)@ == p.0,
            Err(k) => r == Err::<usize, ArgErrorKind>(k),
        },
{
    let n = t.unicode_len();
    let c = t.get_char(1);
    if c == 'h' {
        return Err(ArgErrorKind::DisplayHelp);
    }
    if c != 'H' {
        return Err(ArgErrorKind::UnknownArgument);
    }
    match s.stage {
        Stage::Top => {},
        _ => return Err(ArgErrorKind::UnknownArgument),
    }
    let rest = t.substring_char(2, n);
    let ghost rv = t@.subrange(2, n as int);
    assert(rest@ == rv);
    let inline = if n == 2 {
        None
    } else if rest.get_char(0) == '=' {
        let m = rest.unicode_len();
        Some(rest.substring_char(1, m).to_owned())
    } else {
        Some(rest.to_owned())
    };
    match read_option_value(inline, toks, i) {
        None => Err(ArgErrorKind::InvalidValue),
        Some((v, k)) => {
            push_string(&mut s.headers, v);
            Ok(k)
        },
    }
}

fn read_arg(s: &mut ArgState, toks: &Vec<String>, i: usize) -> (r: Result<usize, ArgErrorKind>)
    requires
        i < toks@.len(),
    ensures
        match arg_step(old(s)@, strings_view(toks@).subrange(i as int, toks@.len() as int)) {
            Ok(p) => r matches Ok(n) && n as nat == p.1 && final(s)@ == p.0,
            Err(k) => r == Err::<usize, ArgErrorKind>(k),
        },
{
    let ghost rest = strings_view(toks@).subrange(i as int, toks@.len() as int);
    let t = toks[i].as_str();
    assert(rest[0] == t@);
    proof {
        reveal_strlit("--");
    }
    if s.only_positional {
        return match read_positional(s, t) {
            Err(k) => Err(k),
            Ok(()) => Ok(1),
        };
    }
    if str_equal(t, "--") {
        s.only_positional = true;
        return Ok(1);
    }
    let n = t.unicode_len();
    if n >= 2 && t.get_char(0) == '-' && t.get_char(1) == '-' {
        let body = t.substring_char(2, n);
        let ghost bv = t@.subrange(2, n as int);
        assert(body@ == bv);
        match find_char(body, '=') {
            Some(k) => {
                proof {
                    let k2 = choose|k2: int| is_first_index(bv, '=', k2);
                    crate::text::lemma_first_index_unique(bv, '=', k as int, k2);
                }
                let m = body.unicode_len();
                let name = body.substring_char(0, k);
                let inline = body.substring_char(k + 1, m).to_owned();
                let r = read_long(s, name, Some(inline), toks, i);
                if r.is_ok() {
                    s.after_url = false;
                }
                return r;
            },
            None => {
                assert(!exists|k: int| is_first_index(bv, '=', k));
                let r = read_long(s, body, None, toks, i);
                if r.is_ok() {
                    s.after_url = false;
                }
                return r;
            },
        }
    }
    if looks_like_option_exec(t) {
        let r = read_short(s, t, toks, i);
        if r.is_ok() {
            s.after_url = false;
        }
        return r;
    }
    match read_positional(s, t) {
        Err(k) => Err(k),
        Ok(()) => Ok(1),
    }
}

fn finish_cli(s: ArgState) -> (r: Result<Cli, ArgErrorKind>)
    ensures
        match finish(s@) {
            Ok(v) => r matches Ok(c) && cli_matches(c, v),
            Err(k) => r == Err::<Cli, ArgErrorKind>(k),
        },
{
    let cmd = match s.stage {
        Stage::Status(None) => return Err(ArgErrorKind::MissingRequiredArgument),
        Stage::Status(Some(t)) => Some(Cmd::Status { target: t }),
        Stage::Setup(b) => Some(Cmd::Setup { base_url: b }),
        Stage::Top => None,
    };
    if s.qr && s.qr_svg {
        return Err(ArgErrorKind::ArgumentConflict);
    }
    Ok(
        Cli {
            urls: s.urls,
            qr: s.qr,
            qr_svg: s.qr_svg,
            valid: s.valid,
            profile: s.profile,
            headers: s.headers,
            cmd,
        },
    )
}

/// Read a whole command line, program name first, by the grammar above.
pub fn try_parse_from(args: &Vec<String>) -> (r: Result<Cli, ArgErrorKind>)
    ensures
        match spec_parse_args(strings_view(args@)) {
            Ok(v) => r matches Ok(c) && cli_matches(c, v),
            Err(k) => r == Err::<Cli, ArgErrorKind>(k),
        },
{
    let ghost av = strings_view(args@);
    if args.len() <= 1 {
        return Err(ArgErrorKind::DisplayHelpOnMissingArgumentOrSubcommand);
    }
    let mut s = ArgState {
        urls: Vec::new(),
        qr: false,
        qr_svg: false,
        valid: false,
        profile: None,
        headers: Vec::new(),
        stage: Stage::Top,
        only_positional: false,
        after_url: false,
    };
    assert(strings_view(s.urls@) =~= Seq::<Seq<char>>::empty());
    assert(s@ == initial_view());
    let mut i: usize = 1;
    while i < args.len()
        invariant
            av == strings_view(args@),
            1 <= i <= args@.len(),
            arg_run(initial_view(), av.subrange(1, av.len() as int)) == arg_run(s@, av.subrange(i as int, av.len() as int)),
        decreases args@.len() - i,
    {
        let ghost toks = av.subrange(i as int, av.len() as int);
        let ghost before = s@;
        match read_arg(&mut s, args, i) {
            Err(k) => {
                assert(arg_run(before, toks) == Err::<ArgView, ArgErrorKind>(k));
                return Err(k);
            },
            Ok(n) => {
                assert(toks.subrange(n as int, toks.len() as int) =~= av.subrange(i + n, av.len() as int));
                i = i + n;
            },
        }
    }
    assert(av.subrange(i as int, av.len() as int) =~= Seq::<Seq<char>>::empty());
    finish_cli(s)
}

impl Cli {
    /// Read a whole command line, program name first.
    pub fn try_parse_from(args: &Vec<String>) -> (r: Result<Cli, ArgErrorKind>)
        ensures
            match spec_parse_args(strings_view(args@)) {
                Ok(v) => r matches Ok(c) && cli_matches(c, v),
                Err(k) => r == Err::<Cli, ArgErrorKind>(k),
            },
    {
        try_parse_from(args)
    }
}

/// The exit status of a command line that was not accepted: 0 when help was
/// asked for, 1 for every other error (help shown for an empty command line
/// included).
pub fn parse_error_exit_code(kind: ArgErrorKind) -> (r: i32)
    ensures
        r == if kind == ArgErrorKind::DisplayHelp {
            crate::cli::EXIT_OK
        } else {
            crate::cli::EXIT_USAGE
        },
{
    match kind {
        ArgErrorKind::DisplayHelp => crate::cli::EXIT_OK,
        _ => crate::cli::EXIT_USAGE,
    }
}

} // verus!
