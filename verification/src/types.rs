//! The request and response bodies of the HTTP API.
use vstd::prelude::*;

verus! {

/// Body of `POST /api/links` and `POST /api/valid`.
#[derive(Debug, PartialEq, Clone)]
pub struct CreateLinkReq {
    pub url: String,
    pub headers: Vec<(String, String)>,
}

/// Body of a created link.
#[derive(Debug, PartialEq, Clone)]
pub struct LinkResp {
    pub id: String,
    pub url: String,
    pub short_url: String,
    pub qr_url: String,
    pub headers: Vec<(String, String)>,
}

/// Body of `POST /api/valid`.
#[derive(Debug, PartialEq, Clone)]
pub struct ValidResp {
    pub valid: bool,
    pub error: Option<String>,
}

/// Body of `GET /<id>/status`.
#[derive(Debug, PartialEq, Clone)]
pub struct StatusResp {
    pub id: String,
    pub url: String,
    pub alive: bool,
    pub http_status: Option<u16>,
    pub error: Option<String>,
}

/// Header pairs as pairs of character sequences.
pub open spec fn pairs_view(v: Seq<(String, String)>) -> Seq<(Seq<char>, Seq<char>)> {
    v.map_values(|p: (String, String)| (p.0@, p.1@))
}

pub open spec fn opt_view(o: Option<String>) -> Option<Seq<char>> {
    match o {
        Some(s) => Some(s@),
        None => None,
    }
}

} // verus!
