//! Where the web UI's files come from, and what content type each is served as.
use vstd::prelude::*;

use crate::text::trim_end_char;

verus! {

/// The content type of a response body.
#[derive(Debug, PartialEq, Eq, Clone)]
pub enum ContentType {
    Html,
    Svg,
    /// Arbitrary bytes (`application/octet-stream`).
    Bytes,
    /// The type Rocket associates with this file extension.
    Extension(String),
}

/// Where UI bytes come from, resolved once at startup.
#[derive(Debug, PartialEq, Eq, Clone)]
pub enum WebSource {
    Embedded,
    Dir(String),
}

/// `LONK_WEB_DIR` set and non-empty: serve that directory; else the embedded UI.
pub fn web_source_from_env(value: Option<String>) -> (r: WebSource)
    ensures
        match value {
            Some(d) => if d@.len() > 0 {
                r matches WebSource::Dir(x) && x@ == d@
            } else {
                r == WebSource::Embedded
            },
            None => r == WebSource::Embedded,
        },
{
    match value {
        Some(d) => {
            if d.as_str().unicode_len() > 0 {
                WebSource::Dir(d)
            } else {
                WebSource::Embedded
            }
        },
        None => WebSource::Embedded,
    }
}

/// Position just after the last `c` in `s` (0 when there is none).
pub open spec fn after_last(s: Seq<char>, c: char) -> int
    decreases s.len(),
{
    if s.len() == 0 {
        0
    } else if s.last() == c {
        s.len() as int
    } else {
        after_last(s.drop_last(), c)
    }
}

proof fn lemma_after_last_bounds(s: Seq<char>, c: char)
    ensures
        0 <= after_last(s, c) <= s.len(),
    decreases s.len(),
{
    if s.len() > 0 && s.last() != c {
        lemma_after_last_bounds(s.drop_last(), c);
    }
}

/// The file name of a path, as `Path::file_name` gives it on Unix: the last
/// component, where repeated and trailing `/` and inner `.` components do not
/// count; a path that ends in `..`, or has no such component, has none.
pub open spec fn file_name(p: Seq<char>) -> Option<Seq<char>>
    decreases p.len(),
{
    let t = trim_end_char(p, '/');
    if t.len() == 0 {
        None
    } else {
        let k = after_last(t, '/');
        let seg = t.subrange(k, t.len() as int);
        if seg == "."@ {
            if 0 < k && k < t.len() && t.len() <= p.len() {
                file_name(t.subrange(0, k))
            } else {
                None
            }
        } else if seg == ".."@ {
            None
        } else {
            Some(seg)
        }
    }
}

/// The extension of a file name, as `Path::extension` gives it: the text
/// after the last `.`, unless there is none or the only `.` starts the name.
pub open spec fn name_extension(name: Seq<char>) -> Option<Seq<char>> {
    let k = after_last(name, '.');
    if k <= 1 {
        None
    } else {
        Some(name.subrange(k, name.len() as int))
    }
}

/// The extension of a path's file name.
pub open spec fn path_extension(p: Seq<char>) -> Option<Seq<char>> {
    match file_name(p) {
        Some(n) => name_extension(n),
        None => None,
    }
}

proof fn lemma_trim_end_char_len(s: Seq<char>, c: char)
    ensures
        trim_end_char(s, c).len() <= s.len(),
        trim_end_char(s, c) == s.subrange(0, trim_end_char(s, c).len() as int),
    decreases s.len(),
{
    if s.len() > 0 && s.last() == c {
        lemma_trim_end_char_len(s.drop_last(), c);
        let t = trim_end_char(s.drop_last(), c);
        assert(s.drop_last().subrange(0, t.len() as int) =~= s.subrange(0, t.len() as int));
    } else {
        assert(s.subrange(0, s.len() as int) =~= s);
    }
}

proof fn lemma_after_last_step(s: Seq<char>, c: char, j: int)
    requires
        0 < j <= s.len(),
        s[j - 1] != c,
    ensures
        after_last(s.subrange(0, j), c) == after_last(s.subrange(0, j - 1), c),
{
    assert(s.subrange(0, j).drop_last() =~= s.subrange(0, j - 1));
}

/// Position just after the last `c` in the first `end` characters of `s`.
fn after_last_exec(s: &str, c: char, end: usize) -> (r: usize)
    requires
        end <= s@.len(),
    ensures
        r as int == after_last(s@.subrange(0, end as int), c),
        r <= end,
{
    let mut k = end;
    while k > 0 && s.get_char(k - 1) != c
        invariant
            k <= end <= s@.len(),
            after_last(s@.subrange(0, end as int), c) == after_last(s@.subrange(0, k as int), c),
        decreases k,
    {
        proof {
            lemma_after_last_step(s@, c, k as int);
        }
        k = k - 1;
    }
    proof {
        if k > 0 {
            assert(s@.subrange(0, k as int).last() == c);
        }
    }
    k
}

/// The file name of `p`, as `Path::file_name` gives it.
pub fn file_name_of(p: &str) -> (r: Option<String>)
    ensures
        crate::types::opt_view(r) == file_name(p@),
{
    let n = p.unicode_len();
    let mut end = n;
    assert(p@.subrange(0, n as int) =~= p@);
    loop
        invariant
            n == p@.len(),
            end <= n,
            file_name(p@) == file_name(p@.subrange(0, end as int)),
        decreases end,
    {
        let ghost cur = p@.subrange(0, end as int);
        let mut e = end;
        while e > 0 && p.get_char(e - 1) == '/'
            invariant
                n == p@.len(),
                e <= end <= n,
                cur == p@.subrange(0, end as int),
                trim_end_char(cur, '/') == trim_end_char(p@.subrange(0, e as int), '/'),
            decreases e,
        {
            proof {
                crate::text::lemma_trim_end_char_step(p@, '/', e as int);
            }
            e = e - 1;
        }
        let ghost t = p@.subrange(0, e as int);
        assert(trim_end_char(t, '/') == t) by {
            if t.len() > 0 {
                assert(t.last() == p@[e - 1]);
            }
        }
        proof {
            lemma_trim_end_char_len(cur, '/');
        }
        if e == 0 {
            return None;
        }
        let k = after_last_exec(p, '/', e);
        let seg = p.substring_char(k, e);
        assert(seg@ =~= t.subrange(k as int, e as int));
        proof {
            reveal_strlit(".");
            reveal_strlit("..");
        }
        if crate::text::str_equal(seg, ".") {
            if k == 0 {
                return None;
            }
            assert(t.subrange(0, k as int) =~= p@.subrange(0, k as int));
            end = k;
        } else if crate::text::str_equal(seg, "..") {
            return None;
        } else {
            return Some(seg.to_owned());
        }
    }
}

/// The extension of the file name `name`, as `Path::extension` gives it.
pub fn name_extension_of(name: &str) -> (r: Option<String>)
    ensures
        crate::types::opt_view(r) == name_extension(name@),
{
    let n = name.unicode_len();
    assert(name@.subrange(0, n as int) =~= name@);
    let k = after_last_exec(name, '.', n);
    if k <= 1 {
        None
    } else {
        Some(name.substring_char(k, n).to_owned())
    }
}

/// The extension of the file name of `p`.
pub fn path_extension_of(p: &str) -> (r: Option<String>)
    ensures
        crate::types::opt_view(r) == path_extension(p@),
{
    match file_name_of(p) {
        Some(name) => name_extension_of(name.as_str()),
        None => None,
    }
}

/// Name for whether Rocket knows a content type for a file extension.
pub uninterp spec fn rocket_knows_extension(ext: Seq<char>) -> bool;

/// Calls `rocket::http::ContentType::from_extension` and says whether it knew
/// the extension. The contract says only that this is the named answer.
#[verifier::external_body]
fn knows_extension(ext: &str) -> (r: bool)
    ensures
        r == rocket_knows_extension(ext@),
{
    rocket::http::ContentType::from_extension(ext).is_some()
}

/// The content type an asset path is served with: the one for its
/// extension when Rocket knows it, else arbitrary bytes.
pub open spec fn spec_content_type_for(rel: Seq<char>) -> Option<Seq<char>> {
    match path_extension(rel) {
        Some(ext) => if rocket_knows_extension(ext) {
            Some(ext)
        } else {
            None
        },
        None => None,
    }
}

/// The content type an asset path is served with.
pub fn content_type_for(rel: &str) -> (r: ContentType)
    ensures
        match spec_content_type_for(rel@) {
            Some(ext) => r matches ContentType::Extension(e) && e@ == ext,
            None => r == ContentType::Bytes,
        },
{
    match path_extension_of(rel) {
        Some(ext) => {
            if knows_extension(ext.as_str()) {
                ContentType::Extension(ext)
            } else {
                ContentType::Bytes
            }
        },
        None => ContentType::Bytes,
    }
}

/// `GET /`: the UI's `index.html` as HTML, when the source has one.
pub fn index(loaded: Option<Vec<u8>>) -> (r: Option<(ContentType, Vec<u8>)>)
    ensures
        match loaded {
            Some(b) => r matches Some(x) && x.0 == ContentType::Html && x.1@ == b@,
            None => r is None,
        },
{
    match loaded {
        Some(b) => Some((ContentType::Html, b)),
        None => None,
    }
}

/// `GET /<path..>`: an asset, typed by its extension, when the source has it.
pub fn assets(rel: &str, loaded: Option<Vec<u8>>) -> (r: Option<(ContentType, Vec<u8>)>)
    ensures
        match loaded {
            Some(b) => r matches Some(x) && x.1@ == b@ && match spec_content_type_for(rel@) {
                Some(ext) => x.0 matches ContentType::Extension(e) && e@ == ext,
                None => x.0 == ContentType::Bytes,
            },
            None => r is None,
        },
{
    match loaded {
        Some(b) => Some((content_type_for(rel), b)),
        None => None,
    }
}

} // verus!
