//! What lonk accepts: shortenable URLs and custom response-header pairs.
use vstd::prelude::*;
use vstd::utf8::*;

use crate::text::{str_equal, decimal, decimal_string, debug_string, str_debug};
use crate::urlparse::{parse_url, url_parse, ParsedUrl, UrlView};

verus! {

/// Why a URL or a header pair was refused.
#[derive(Debug, PartialEq, Eq, Clone)]
pub enum ValidateError {
    Parse(String),
    Scheme(String),
    Header(String),
}

pub open spec fn parse_error_text(msg: Seq<char>) -> Seq<char> {
    "invalid url: "@ + msg
}

pub open spec fn scheme_error_text(scheme: Seq<char>) -> Seq<char> {
    "url scheme must be http or https (got "@ + scheme + ")"@
}

/// The human-readable text of each error.
pub open spec fn validate_error_text(e: ValidateError) -> Seq<char> {
    match e {
        ValidateError::Parse(msg) => parse_error_text(msg@),
        ValidateError::Scheme(s) => scheme_error_text(s@),
        ValidateError::Header(msg) => msg@,
    }
}

/// `validate_url` with its error given as the text it displays as.
pub open spec fn spec_check_url(input: Seq<char>) -> Result<UrlView, Seq<char>> {
    match url_parse(input) {
        Err(m) => Err(parse_error_text(m)),
        Ok(u) => if is_http_scheme(u.scheme) {
            Ok(u)
        } else {
            Err(scheme_error_text(u.scheme))
        },
    }
}

impl ValidateError {
    /// The text the error displays as.
    pub fn message(&self) -> (r: String)
        ensures
            r@ == validate_error_text(*self),
    {
        match self {
            ValidateError::Parse(msg) => String::from_str("invalid url: ").concat(msg.as_str()),
            ValidateError::Scheme(s) => String::from_str("url scheme must be http or https (got ").concat(
                s.as_str(),
            ).concat(")"),
            ValidateError::Header(msg) => msg.clone(),
        }
    }
}

pub open spec fn is_http_scheme(scheme: Seq<char>) -> bool {
    scheme == "http"@ || scheme == "https"@
}

/// The single rule for what lonk accepts as a shortenable URL: it parses as an
/// absolute URL and its scheme is `http` or `https`.
pub fn validate_url(input: &str) -> (r: Result<ParsedUrl, ValidateError>)
    ensures
        match url_parse(input@) {
            Err(m) => r matches Err(ValidateError::Parse(msg)) && msg@ == m,
            Ok(u) => if is_http_scheme(u.scheme) {
                r matches Ok(p) && p@ == u
            } else {
                r matches Err(ValidateError::Scheme(s)) && s@ == u.scheme
            },
        },
{
    match parse_url(input) {
        Err(m) => Err(ValidateError::Parse(m)),
        Ok(u) => {
            if str_equal(u.scheme(), "http") || str_equal(u.scheme(), "https") {
                Ok(u)
            } else {
                Err(ValidateError::Scheme(u.scheme_string().clone()))
            }
        },
    }
}

/// `validate_url` with the error turned into its text.
pub fn check_url(input: &str) -> (r: Result<ParsedUrl, String>)
    ensures
        match spec_check_url(input@) {
            Ok(u) => r matches Ok(p) && p@ == u,
            Err(m) => r matches Err(e) && e@ == m,
        },
{
    match validate_url(input) {
        Ok(u) => Ok(u),
        Err(e) => Err(e.message()),
    }
}

/// Maximum header pairs a single link may carry (enforced by API and CLI).
pub const MAX_HEADERS_PER_LINK: usize = 16;

pub open spec fn is_ascii_alnum(b: u8) -> bool {
    ||| (0x30 <= b && b <= 0x39)
    ||| (0x41 <= b && b <= 0x5a)
    ||| (0x61 <= b && b <= 0x7a)
}

/// HTTP token characters: `A-Z a-z 0-9` and ``!#$%&'*+-.^_`|~``.
pub open spec fn spec_is_token_byte(b: u8) -> bool {
    ||| is_ascii_alnum(b)
    ||| b == 0x21 || b == 0x23 || b == 0x24 || b == 0x25 || b == 0x26 || b == 0x27
    ||| b == 0x2a || b == 0x2b || b == 0x2d || b == 0x2e
    ||| b == 0x5e || b == 0x5f || b == 0x60 || b == 0x7c || b == 0x7e
}

/// Whether `b` may appear in a header name.
pub fn is_token_byte(b: u8) -> (r: bool)
    ensures
        r == spec_is_token_byte(b),
{
    (b >= 0x30 && b <= 0x39) || (b >= 0x41 && b <= 0x5a) || (b >= 0x61 && b <= 0x7a) || b == 0x21
        || b == 0x23 || b == 0x24 || b == 0x25 || b == 0x26 || b == 0x27 || b == 0x2a || b == 0x2b
        || b == 0x2d || b == 0x2e || b == 0x5e || b == 0x5f || b == 0x60 || b == 0x7c || b == 0x7e
}

/// Tab or visible ASCII (space through `~`).
pub open spec fn is_value_byte(b: u8) -> bool {
    b == 0x09 || (0x20 <= b && b <= 0x7e)
}

pub open spec fn lower_byte(b: u8) -> u8 {
    if 0x41 <= b && b <= 0x5a {
        (b + 32) as u8
    } else {
        b
    }
}

pub open spec fn lower_bytes(s: Seq<u8>) -> Seq<u8> {
    s.map_values(|b: u8| lower_byte(b))
}

pub open spec fn ascii_bytes(s: Seq<char>) -> Seq<u8> {
    s.map_values(|c: char| c as u8)
}

/// The structural headers that a link may never set, in lower case.
pub open spec fn header_denylist() -> Seq<Seq<char>> {
    seq![
        "location"@,
        "content-length"@,
        "transfer-encoding"@,
        "connection"@,
        "content-type"@,
        "content-encoding"@,
    ]
}

/// The name's bytes, ASCII-lowercased, spell a denylisted header.
pub open spec fn is_denylisted(name: Seq<u8>) -> bool {
    exists|i: int| 0 <= i < header_denylist().len() && lower_bytes(name) == ascii_bytes(#[trigger] header_denylist()[i])
}

pub open spec fn all_token_bytes(s: Seq<u8>) -> bool {
    forall|i: int| 0 <= i < s.len() ==> spec_is_token_byte(#[trigger] s[i])
}

pub open spec fn all_value_bytes(s: Seq<u8>) -> bool {
    forall|i: int| 0 <= i < s.len() ==> is_value_byte(#[trigger] s[i])
}

/// The first rule that the pair `name: value` breaks, as its message; `None`
/// when the pair is acceptable. Lengths count UTF-8 bytes.
pub open spec fn header_problem(name: Seq<char>, value: Seq<char>) -> Option<Seq<char>> {
    let n = encode_utf8(name);
    let v = encode_utf8(value);
    if n.len() == 0 || n.len() > 128 {
        Some("header name must be 1-128 bytes (got "@ + decimal(n.len()) + ")"@)
    } else if !all_token_bytes(n) {
        Some("invalid header name "@ + str_debug(name))
    } else if is_denylisted(n) {
        Some("header not allowed: "@ + name)
    } else if v.len() > 1024 {
        Some("header value too long ("@ + decimal(v.len()) + " bytes, max 1024)"@)
    } else if !all_value_bytes(v) {
        Some("header value contains control or non-ASCII bytes"@)
    } else {
        None
    }
}

pub open spec fn header_ok(name: Seq<char>, value: Seq<char>) -> bool {
    header_problem(name, value) is None
}

fn all_tokens(s: &[u8]) -> (r: bool)
    ensures
        r == all_token_bytes(s@),
{
    let mut i: usize = 0;
    while i < s.len()
        invariant
            i <= s@.len(),
            forall|j: int| 0 <= j < i ==> spec_is_token_byte(s@[j]),
        decreases s@.len() - i,
    {
        if !is_token_byte(s[i]) {
            return false;
        }
        i = i + 1;
    }
    true
}

fn all_value(s: &[u8]) -> (r: bool)
    ensures
        r == all_value_bytes(s@),
{
    let mut i: usize = 0;
    while i < s.len()
        invariant
            i <= s@.len(),
            forall|j: int| 0 <= j < i ==> is_value_byte(s@[j]),
        decreases s@.len() - i,
    {
        let b = s[i];
        if !(b == 0x09 || (b >= 0x20 && b <= 0x7e)) {
            return false;
        }
        i = i + 1;
    }
    true
}

fn lower(b: u8) -> (r: u8)
    ensures
        r == lower_byte(b),
{
    if b >= 0x41 && b <= 0x5a {
        b + 32
    } else {
        b
    }
}

/// Whether `name`, ASCII-lowercased, is exactly the ASCII text `lit`.
fn lower_equals(name: &[u8], lit: &str) -> (r: bool)
    requires
        is_ascii_chars(lit@),
    ensures
        r == (lower_bytes(name@) == ascii_bytes(lit@)),
{
    let lb = lit.as_bytes();
    proof {
        is_ascii_chars_encode_utf8(lit@);
        assert(lb@ =~= ascii_bytes(lit@));
    }
    if name.len() != lb.len() {
        assert(lower_bytes(name@).len() != ascii_bytes(lit@).len());
        return false;
    }
    let mut i: usize = 0;
    while i < name.len()
        invariant
            name@.len() == lb@.len(),
            lb@ == ascii_bytes(lit@),
            i <= name@.len(),
            forall|j: int| 0 <= j < i ==> lower_byte(name@[j]) == lb@[j],
        decreases name@.len() - i,
    {
        if lower(name[i]) != lb[i] {
            assert(lower_bytes(name@)[i as int] != ascii_bytes(lit@)[i as int]);
            return false;
        }
        i = i + 1;
    }
    assert(lower_bytes(name@) =~= ascii_bytes(lit@));
    true
}

fn denylisted(name: &[u8]) -> (r: bool)
    ensures
        r == is_denylisted(name@),
{
    proof {
        reveal_strlit("location");
        reveal_strlit("content-length");
        reveal_strlit("transfer-encoding");
        reveal_strlit("connection");
        reveal_strlit("content-type");
        reveal_strlit("content-encoding");
        let d = header_denylist();
        assert(d[0] == "location"@ && d[1] == "content-length"@ && d[2] == "transfer-encoding"@);
        assert(d[3] == "connection"@ && d[4] == "content-type"@ && d[5] == "content-encoding"@);
        assert(d.len() == 6);
    }
    let r = lower_equals(name, "location") || lower_equals(name, "content-length") || lower_equals(
        name,
        "transfer-encoding",
    ) || lower_equals(name, "connection") || lower_equals(name, "content-type") || lower_equals(
        name,
        "content-encoding",
    );
    r
}

/// Validate one custom response-header pair for a link.
pub fn validate_header(name: &str, value: &str) -> (r: Result<(), ValidateError>)
    ensures
        match header_problem(name@, value@) {
            None => r is Ok,
            Some(m) => r matches Err(ValidateError::Header(msg)) && msg@ == m,
        },
{
    let nb = name.as_bytes();
    let nlen = nb.len();
    if nlen == 0 || nlen > 128 {
        let msg = String::from_str("header name must be 1-128 bytes (got ").concat(
            decimal_string(nlen).as_str(),
        ).concat(")");
        return Err(ValidateError::Header(msg));
    }
    if !all_tokens(nb) {
        let msg = String::from_str("invalid header name ").concat(debug_string(name).as_str());
        return Err(ValidateError::Header(msg));
    }
    if denylisted(nb) {
        let msg = String::from_str("header not allowed: ").concat(name);
        return Err(ValidateError::Header(msg));
    }
    let vb = value.as_bytes();
    let vlen = vb.len();
    if vlen > 1024 {
        let msg = String::from_str("header value too long (").concat(
            decimal_string(vlen).as_str(),
        ).concat(" bytes, max 1024)");
        return Err(ValidateError::Header(msg));
    }
    if !all_value(vb) {
        return Err(ValidateError::Header(String::from_str("header value contains control or non-ASCII bytes")));
    }
    Ok(())
}

proof fn lemma_ascii_char_encoded(s: Seq<char>, i: int)
    requires
        0 <= i < s.len(),
        '\0' <= s[i] <= '\u{7f}',
    ensures
        exists|j: int| 0 <= j < encode_utf8(s).len() && #[trigger] encode_utf8(s)[j] == s[i] as u8,
    decreases s.len(),
{
    let head = encode_scalar(s[0] as u32);
    let rest = encode_utf8(s.drop_first());
    assert(encode_utf8(s) == head + rest);
    if i == 0 {
        let c0 = s[0] as u32;
        assert(c0 as u8 == leading_byte_width_1(c0)) by (bit_vector)
            requires
                has_width_1_encoding(c0),
        ;
        assert(head == seq![leading_byte_width_1(c0)]);
        assert(encode_utf8(s)[0] == s[0] as u8);
    } else {
        lemma_ascii_char_encoded(s.drop_first(), i - 1);
        let j = choose|j: int| 0 <= j < rest.len() && #[trigger] rest[j] == s.drop_first()[i - 1] as u8;
        assert(encode_utf8(s)[head.len() + j] == s[i] as u8);
    }
}

proof fn lemma_token_lower(b: u8)
    ensures
        spec_is_token_byte(lower_byte(b)) == spec_is_token_byte(b),
{
}

/// Whether a header pair is accepted never depends on the ASCII case of the
/// name: the denylist is matched case-insensitively and every other rule
/// treats upper- and lower-case letters alike.
pub proof fn law_header_name_case_insensitive(n1: Seq<char>, n2: Seq<char>, value: Seq<char>)
    requires
        lower_bytes(encode_utf8(n1)) == lower_bytes(encode_utf8(n2)),
    ensures
        header_ok(n1, value) == header_ok(n2, value),
{
    let b1 = encode_utf8(n1);
    let b2 = encode_utf8(n2);
    assert(b1.len() == lower_bytes(b1).len());
    assert(b2.len() == lower_bytes(b2).len());
    assert(all_token_bytes(b1) == all_token_bytes(b2)) by {
        assert forall|i: int| 0 <= i < b1.len() implies spec_is_token_byte(b1[i]) == spec_is_token_byte(b2[i]) by {
            lemma_token_lower(b1[i]);
            lemma_token_lower(b2[i]);
            assert(lower_bytes(b1)[i] == lower_bytes(b2)[i]);
        }
        if all_token_bytes(b1) {
            assert forall|i: int| 0 <= i < b2.len() implies spec_is_token_byte(#[trigger] b2[i]) by {
                assert(spec_is_token_byte(b1[i]));
            }
        }
        if all_token_bytes(b2) {
            assert forall|i: int| 0 <= i < b1.len() implies spec_is_token_byte(#[trigger] b1[i]) by {
                assert(spec_is_token_byte(b2[i]));
            }
        }
    }
}

/// A value carrying a carriage return, a line feed or a NUL is always refused,
/// so a stored header can never inject further header lines.
pub proof fn law_header_value_rejects_line_breaks(name: Seq<char>, value: Seq<char>, i: int)
    requires
        0 <= i < value.len(),
        value[i] == '\r' || value[i] == '\n' || value[i] == '\0',
    ensures
        !header_ok(name, value),
{
    lemma_ascii_char_encoded(value, i);
    let v = encode_utf8(value);
    let j = choose|j: int| 0 <= j < v.len() && #[trigger] v[j] == value[i] as u8;
    assert(!is_value_byte(v[j]));
}

} // verus!
