//! The parts of a parsed absolute URL that lonk's rules read.
use vstd::prelude::*;

verus! {

/// A parsed absolute URL, held as the plain values that lonk reads from it.
#[derive(Debug, Clone, PartialEq, Eq)]
pub struct ParsedUrl {
    serialization: String,
    scheme: String,
    query: Option<String>,
    fragment: Option<String>,
    path_segments: Option<Vec<String>>,
}

/// The mathematical value of a parsed URL.
pub struct UrlView {
    /// The whole URL as the parser serializes it.
    pub serialization: Seq<char>,
    /// The scheme, without the `:`.
    pub scheme: Seq<char>,
    /// The text after `?` (without the fragment), if there is a `?`.
    pub query: Option<Seq<char>>,
    /// The text after `#`, if there is a `#`.
    pub fragment: Option<Seq<char>>,
    /// The path split at `/`, when the path starts with `/`.
    pub segments: Option<Seq<Seq<char>>>,
}

pub open spec fn strings_view(v: Seq<String>) -> Seq<Seq<char>> {
    v.map_values(|s: String| s@)
}

pub open spec fn opt_string_view(o: Option<String>) -> Option<Seq<char>> {
    match o {
        Some(s) => Some(s@),
        None => None,
    }
}

impl View for ParsedUrl {
    type V = UrlView;

    closed spec fn view(&self) -> UrlView {
        UrlView {
            serialization: self.serialization@,
            scheme: self.scheme@,
            query: opt_string_view(self.query),
            fragment: opt_string_view(self.fragment),
            segments: match self.path_segments {
                Some(v) => Some(strings_view(v@)),
                None => None,
            },
        }
    }
}

/// The mathematical value of a parse outcome.
pub open spec fn parse_result_view(r: Result<ParsedUrl, String>) -> Result<UrlView, Seq<char>> {
    match r {
        Ok(u) => Ok(u@),
        Err(m) => Err(m@),
    }
}

/// Name for what `url::Url::parse` makes of `input`: the URL's parts, or the
/// text of the parse error.
pub uninterp spec fn url_parse(input: Seq<char>) -> Result<UrlView, Seq<char>>;

/// Calls `url::Url::parse` and reads the serialization, scheme, query, fragment
/// and path segments of the result, or the `Display` text of the error. The
/// contract says only that this is the named parse result of `input`.
#[verifier::external_body]
pub(crate) fn parse_url(input: &str) -> (r: Result<ParsedUrl, String>)
    ensures
        url_parse(input@) == parse_result_view(r),
{
    match url::Url::parse(input) {
        Ok(u) => Ok(ParsedUrl {
            serialization: u.as_str().to_string(),
            scheme: u.scheme().to_string(),
            query: u.query().map(|q| q.to_string()),
            fragment: u.fragment().map(|f| f.to_string()),
            path_segments: u.path_segments().map(|p| p.map(|s| s.to_string()).collect()),
        }),
        Err(e) => Err(e.to_string()),
    }
}

impl ParsedUrl {
    /// The serialization of the URL.
    pub fn as_str(&self) -> (r: &str)
        ensures
            r@ == self@.serialization,
    {
        self.serialization.as_str()
    }

    /// The scheme, lower case, without the `:`.
    pub fn scheme(&self) -> (r: &str)
        ensures
            r@ == self@.scheme,
    {
        self.scheme.as_str()
    }

    pub fn scheme_string(&self) -> (r: &String)
        ensures
            r@ == self@.scheme,
    {
        &self.scheme
    }

    /// The query string, if any.
    pub fn query(&self) -> (r: Option<&str>)
        ensures
            r is Some <==> self@.query is Some,
            r matches Some(q) ==> self@.query == Some(q@),
    {
        match &self.query {
            Some(q) => Some(q.as_str()),
            None => None,
        }
    }

    /// The fragment, if any.
    pub fn fragment(&self) -> (r: Option<&str>)
        ensures
            r is Some <==> self@.fragment is Some,
            r matches Some(f) ==> self@.fragment == Some(f@),
    {
        match &self.fragment {
            Some(f) => Some(f.as_str()),
            None => None,
        }
    }

    /// The path segments, when the path starts with `/`.
    pub fn path_segments(&self) -> (r: Option<&Vec<String>>)
        ensures
            r is Some <==> self@.segments is Some,
            r matches Some(v) ==> self@.segments == Some(strings_view(v@)),
    {
        match &self.path_segments {
            Some(v) => Some(v),
            None => None,
        }
    }

    /// The serialization, consuming the URL.
    pub fn into_string(self) -> (r: String)
        ensures
            r@ == self@.serialization,
    {
        self.serialization
    }
}

} // verus!
