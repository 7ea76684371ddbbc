//! The server's decisions for each request: what a request body amounts to,
//! how a new link gets its id, what a redirect carries, and what each failure
//! is answered with.
use vstd::prelude::*;

use crate::cli::{cat, too_many_headers_text};
use crate::headers_json::{encode_headers, json_of_pairs, pairs_of_json};
use crate::qr::qr_svg_image;
use crate::slug::{gen_slug, is_slug};
use crate::text::str_equal;
use crate::types::{opt_view, pairs_view, CreateLinkReq, LinkResp, StatusResp, ValidResp};
use crate::validate::{check_url, header_problem, spec_check_url, validate_header, MAX_HEADERS_PER_LINK};
use crate::web::ContentType;

verus! {

pub const STATUS_OK: u16 = 200;

pub const STATUS_CREATED: u16 = 201;

pub const STATUS_SEE_OTHER: u16 = 303;

pub const STATUS_BAD_REQUEST: u16 = 400;

pub const STATUS_NOT_FOUND: u16 = 404;

pub const STATUS_INTERNAL_ERROR: u16 = 500;

/// How many ids a new link may try before the request fails.
pub const MAX_ID_ATTEMPTS: usize = 8;

/// Length of a generated id.
pub const SLUG_LEN: usize = 7;

/// Body of every error response: `{"error": "<message>"}`.
#[derive(Debug, PartialEq, Clone)]
pub struct ErrorBody {
    pub error: String,
}

/// An error answer: its HTTP status and body.
#[derive(Debug, PartialEq, Clone)]
pub struct ApiError {
    pub status: u16,
    pub body: ErrorBody,
}

/// `e` answers with `status` and the message `msg`.
pub open spec fn is_api_error(e: ApiError, status: u16, msg: Seq<char>) -> bool {
    e.status == status && e.body.error@ == msg
}

/// An error answer with `status` and `msg`.
pub fn api_error(status: u16, msg: &str) -> (r: ApiError)
    ensures
        is_api_error(r, status, msg@),
{
    ApiError { status, body: ErrorBody { error: String::from_str(msg) } }
}

/// The answer to any database failure.
pub fn db_error() -> (r: ApiError)
    ensures
        is_api_error(r, STATUS_INTERNAL_ERROR, "database error"@),
{
    api_error(STATUS_INTERNAL_ERROR, "database error")
}

/// The answer for an id that names no link.
pub fn no_such_link() -> (r: ApiError)
    ensures
        is_api_error(r, STATUS_NOT_FOUND, "no such link"@),
{
    api_error(STATUS_NOT_FOUND, "no such link")
}

/// The message for the first refused pair, in the order given.
pub open spec fn first_header_problem(h: Seq<(Seq<char>, Seq<char>)>) -> Option<Seq<char>>
    decreases h.len(),
{
    if h.len() == 0 {
        None
    } else {
        match header_problem(h[0].0, h[0].1) {
            Some(m) => Some(m),
            None => first_header_problem(h.drop_first()),
        }
    }
}

/// What a `POST /api/links` body amounts to before any id is tried: the
/// normalized URL and the stored form of the headers, or the error answer.
pub open spec fn spec_prepare_link(
    url: Seq<char>,
    headers: Seq<(Seq<char>, Seq<char>)>,
) -> Result<(Seq<char>, Seq<char>), (u16, Seq<char>)> {
    match spec_check_url(url) {
        Err(m) => Err((STATUS_BAD_REQUEST, m)),
        Ok(u) => if headers.len() > 16 {
            Err((STATUS_BAD_REQUEST, too_many_headers_text()))
        } else {
            match first_header_problem(headers) {
                Some(m) => Err((STATUS_BAD_REQUEST, m)),
                None => match json_of_pairs(headers) {
                    None => Err((STATUS_INTERNAL_ERROR, "header encoding failed"@)),
                    Some(j) => Ok((u.serialization, j)),
                },
            }
        },
    }
}

/// A link that passed every check and waits for an id.
#[derive(Debug)]
pub struct NewLink {
    /// The URL as the parser serializes it.
    pub url: String,
    /// The header pairs, in the order given.
    pub headers: Vec<(String, String)>,
    /// The stored form of the header pairs.
    pub headers_json: String,
}

/// Check a `POST /api/links` body: its URL, the number of header pairs and
/// each pair, then encode the pairs for storage. Every refusal is a 400:
/// string pairs always encode.
#[verifier::loop_isolation(false)]
pub fn prepare_link(body: CreateLinkReq) -> (r: Result<NewLink, ApiError>)
    ensures
        match spec_prepare_link(body.url@, pairs_view(body.headers@)) {
            Ok(p) => r matches Ok(l) && l.url@ == p.0 && l.headers_json@ == p.1 && l.headers@
                == body.headers@ && pairs_of_json(l.headers_json@) == Some(pairs_view(body.headers@)),
            Err(e) => r matches Err(a) && is_api_error(a, e.0, e.1),
        },
        r matches Err(a) ==> a.status == STATUS_BAD_REQUEST,
{
    let parsed = match check_url(body.url.as_str()) {
        Ok(u) => u,
        Err(m) => return Err(api_error(STATUS_BAD_REQUEST, m.as_str())),
    };
    if body.headers.len() > MAX_HEADERS_PER_LINK {
        return Err(api_error(STATUS_BAD_REQUEST, "too many headers (max 16)"));
    }
    let ghost hv = pairs_view(body.headers@);
    let mut i: usize = 0;
    assert(hv.skip(0) =~= hv);
    while i < body.headers.len()
        invariant
            hv == pairs_view(body.headers@),
            i <= body.headers@.len(),
            first_header_problem(hv) == first_header_problem(hv.skip(i as int)),
        decreases body.headers@.len() - i,
    {
        let ghost rest = hv.skip(i as int);
        assert(rest[0] == (body.headers@[i as int].0@, body.headers@[i as int].1@));
        match validate_header(body.headers[i].0.as_str(), body.headers[i].1.as_str()) {
            Err(e) => {
                let m = e.message();
                return Err(api_error(STATUS_BAD_REQUEST, m.as_str()));
            },
            Ok(()) => {},
        }
        assert(rest.drop_first() =~= hv.skip(i as int + 1));
        i = i + 1;
    }
    assert(hv.skip(body.headers@.len() as int) =~= Seq::<(Seq<char>, Seq<char>)>::empty());
    let headers_json = match encode_headers(&body.headers) {
        Some(j) => j,
        None => return Err(api_error(STATUS_INTERNAL_ERROR, "header encoding failed")),
    };
    Ok(NewLink { url: parsed.into_string(), headers: body.headers, headers_json })
}

/// What storing a link under an id did.
#[derive(Debug, PartialEq, Clone, Copy)]
pub enum InsertOutcome {
    /// The link is stored under the id.
    Inserted,
    /// The id was already taken; nothing was stored.
    Taken,
    /// The database failed.
    Failed,
}

/// A link being created: the id it is trying and how many ids it has tried.
#[derive(Debug)]
pub struct CreateLinkRun {
    link: NewLink,
    id: String,
    attempts: usize,
}

/// What to do next for a link being created.
#[derive(Debug)]
pub enum CreateStep {
    /// Store the link under `id`, then report the outcome to `run`.
    Insert { run: CreateLinkRun, id: String },
    /// Answer the request.
    Respond(Result<LinkResp, ApiError>),
}

/// The response body for a link stored under `id`.
pub open spec fn link_resp_for(resp: LinkResp, id: Seq<char>, url: Seq<char>, headers: Seq<(String, String)>) -> bool {
    &&& resp.id@ == id
    &&& resp.url@ == url
    &&& resp.short_url@ == "/"@ + id
    &&& resp.qr_url@ == "/"@ + id + "/qr"@
    &&& resp.headers@ == headers
}

impl CreateLinkRun {
    #[verifier::type_invariant]
    spec fn inv(self) -> bool {
        &&& 1 <= self.attempts <= MAX_ID_ATTEMPTS
        &&& is_slug(self.id@, SLUG_LEN as nat)
    }

    /// How many ids this run has tried, the current one included.
    pub closed spec fn attempts(self) -> nat {
        self.attempts as nat
    }

    /// The id being tried.
    pub closed spec fn pending_id(self) -> Seq<char> {
        self.id@
    }

    /// The link being created.
    pub closed spec fn link(self) -> (Seq<char>, Seq<(String, String)>, Seq<char>) {
        (self.link.url@, self.link.headers@, self.link.headers_json@)
    }

    /// Begin creating `link`: its first id to try.
    pub fn start(link: NewLink) -> (r: CreateStep)
        ensures
            r matches CreateStep::Insert { run, id } && run.attempts() == 1 && run.pending_id()
                == id@ && is_slug(id@, SLUG_LEN as nat) && run.link() == (
                link.url@,
                link.headers@,
                link.headers_json@,
            ),
    {
        let id = gen_slug(SLUG_LEN);
        let run = CreateLinkRun { link, id: id.clone(), attempts: 1 };
        CreateStep::Insert { run, id }
    }

    /// The URL to store.
    pub fn url(&self) -> (r: &str)
        ensures
            r@ == self.link().0,
    {
        self.link.url.as_str()
    }

    /// The stored form of the header pairs.
    pub fn headers_json(&self) -> (r: &str)
        ensures
            r@ == self.link().2,
    {
        self.link.headers_json.as_str()
    }

    /// Decide after trying to store the link under the pending id: answer with
    /// the created link, try a fresh id while fewer than `MAX_ID_ATTEMPTS` have
    /// been tried, or answer with the error.
    pub fn on_insert(self, outcome: InsertOutcome) -> (r: CreateStep)
        ensures
            outcome == InsertOutcome::Inserted ==> (r matches CreateStep::Respond(Ok(resp))
                && link_resp_for(resp, self.pending_id(), self.link().0, self.link().1)),
            outcome == InsertOutcome::Failed ==> (r matches CreateStep::Respond(Err(e))
                && is_api_error(e, STATUS_INTERNAL_ERROR, "database error"@)),
            outcome == InsertOutcome::Taken && self.attempts() < MAX_ID_ATTEMPTS ==> (r matches CreateStep::Insert { run, id }
                && run.attempts() == self.attempts() + 1 && run.attempts() <= MAX_ID_ATTEMPTS
                && run.pending_id() == id@ && is_slug(
                id@,
                SLUG_LEN as nat,
            ) && run.link() == self.link()),
            outcome == InsertOutcome::Taken && self.attempts() >= MAX_ID_ATTEMPTS ==> (r matches CreateStep::Respond(Err(e))
                && is_api_error(e, STATUS_INTERNAL_ERROR, "could not allocate a unique id"@)),
    {
        proof {
            use_type_invariant(&self);
        }
        match outcome {
            InsertOutcome::Inserted => {
                let CreateLinkRun { link, id, attempts: _ } = self;
                let short_url = cat("/", id.as_str());
                let qr_url = cat("/", id.as_str()).concat("/qr");
                CreateStep::Respond(
                    Ok(LinkResp { id, url: link.url, short_url, qr_url, headers: link.headers }),
                )
            },
            InsertOutcome::Failed => CreateStep::Respond(Err(db_error())),
            InsertOutcome::Taken => {
                if self.attempts < MAX_ID_ATTEMPTS {
                    let id = gen_slug(SLUG_LEN);
                    let CreateLinkRun { link, id: _, attempts } = self;
                    let run = CreateLinkRun { link, id: id.clone(), attempts: attempts + 1 };
                    CreateStep::Insert { run, id }
                } else {
                    CreateStep::Respond(
                        Err(api_error(STATUS_INTERNAL_ERROR, "could not allocate a unique id")),
                    )
                }
            },
        }
    }
}

/// `POST /api/links`: check the body, then either the error answer or the
/// first id to store the link under.
pub fn create_link(body: CreateLinkReq) -> (r: CreateStep)
    ensures
        match spec_prepare_link(body.url@, pairs_view(body.headers@)) {
            Ok(p) => r matches CreateStep::Insert { run, id } && run.attempts() == 1
                && run.pending_id() == id@ && is_slug(id@, SLUG_LEN as nat) && run.link() == (
                p.0,
                body.headers@,
                p.1,
            ) && pairs_of_json(p.1) == Some(pairs_view(body.headers@)),
            Err(e) => r matches CreateStep::Respond(Err(a)) && is_api_error(a, e.0, e.1),
        },
        r matches CreateStep::Respond(Err(a)) ==> a.status == STATUS_BAD_REQUEST,
{
    match prepare_link(body) {
        Ok(link) => CreateLinkRun::start(link),
        Err(e) => CreateStep::Respond(Err(e)),
    }
}

/// A 303 redirect that also carries a link's stored custom response headers.
#[derive(Debug, PartialEq, Clone)]
pub struct RedirectWithHeaders {
    location: String,
    headers: Vec<(String, String)>,
}

impl RedirectWithHeaders {
    pub closed spec fn location(self) -> Seq<char> {
        self.location@
    }

    pub closed spec fn headers(self) -> Seq<(Seq<char>, Seq<char>)> {
        pairs_view(self.headers@)
    }

    /// A redirect to `location` carrying `headers`.
    pub fn new(location: String, headers: Vec<(String, String)>) -> (r: Self)
        ensures
            r.location() == location@,
            r.headers() == pairs_view(headers@),
    {
        RedirectWithHeaders { location, headers }
    }

    /// The status the redirect answers with.
    pub fn status(&self) -> (r: u16)
        ensures
            r == STATUS_SEE_OTHER,
    {
        STATUS_SEE_OTHER
    }

    /// The response's headers in order: `Location`, then every stored pair
    /// in the order it was stored (repeated names included).
    pub fn response_headers(&self) -> (r: Vec<(String, String)>)
        ensures
            pairs_view(r@) == seq![("Location"@, self.location())] + self.headers(),
    {
        let mut out: Vec<(String, String)> = Vec::new();
        out.push((String::from_str("Location"), self.location.clone()));
        let mut i: usize = 0;
        while i < self.headers.len()
            invariant
                i <= self.headers@.len(),
                pairs_view(out@) == seq![("Location"@, self.location@)] + pairs_view(
                    self.headers@,
                ).take(i as int),
            decreases self.headers@.len() - i,
        {
            let ghost before = out@;
            let name = self.headers[i].0.clone();
            let value = self.headers[i].1.clone();
            out.push((name, value));
            assert(pairs_view(self.headers@).take(i as int + 1) =~= pairs_view(self.headers@).take(
                i as int,
            ).push((self.headers@[i as int].0@, self.headers@[i as int].1@)));
            assert(pairs_view(out@) =~= pairs_view(before).push(
                (self.headers@[i as int].0@, self.headers@[i as int].1@),
            ));
            i = i + 1;
        }
        assert(pairs_view(self.headers@).take(self.headers@.len() as int) =~= pairs_view(
            self.headers@,
        ));
        out
    }
}

/// `GET /<id>`: redirect to the stored URL with its headers, or 404.
pub fn follow_link(stored: Option<(String, Vec<(String, String)>)>) -> (r: Result<
    RedirectWithHeaders,
    ApiError,
>)
    ensures
        match stored {
            Some(link) => r matches Ok(red) && red.location() == link.0@ && red.headers()
                == pairs_view(link.1@),
            None => r matches Err(e) && is_api_error(e, STATUS_NOT_FOUND, "no such link"@),
        },
{
    match stored {
        Some((url, headers)) => Ok(RedirectWithHeaders::new(url, headers)),
        None => Err(no_such_link()),
    }
}

/// The short URL a QR code encodes: scheme and host of the request (the
/// local default when there is no `Host`), then the id.
pub open spec fn spec_qr_target(proto: Seq<char>, host: Option<Seq<char>>, id: Seq<char>) -> Seq<char> {
    proto + "://"@ + match host {
        Some(h) => h,
        None => "localhost:8000"@,
    } + "/"@ + id
}

/// The short URL a QR code encodes.
pub fn qr_target(proto: &str, host: Option<&str>, id: &str) -> (r: String)
    ensures
        r@ == spec_qr_target(
            proto@,
            match host {
                Some(h) => Some(h@),
                None => None,
            },
            id@,
        ),
{
    let h = match host {
        Some(h) => h,
        None => "localhost:8000",
    };
    cat(proto, "://").concat(h).concat("/").concat(id)
}

/// `GET /<id>/qr`: the SVG QR code of the link's short URL, 404 for an
/// unknown id, 500 when the code cannot be drawn.
pub fn qr_svg(known: bool, proto: &str, host: Option<&str>, id: &str) -> (r: Result<
    (ContentType, String),
    ApiError,
>)
    ensures
        !known ==> (r matches Err(e) && is_api_error(e, STATUS_NOT_FOUND, "no such link"@)),
        known ==> {
            let target = spec_qr_target(
                proto@,
                match host {
                    Some(h) => Some(h@),
                    None => None,
                },
                id@,
            );
            match qr_svg_image(vstd::utf8::encode_utf8(target), 256, 256) {
                Ok(img) => r matches Ok(ok) && ok.0 == ContentType::Svg && ok.1@ == img,
                Err(_) => r matches Err(e) && is_api_error(e, STATUS_INTERNAL_ERROR, "qr encoding failed"@),
            }
        },
{
    if !known {
        return Err(no_such_link());
    }
    let short = qr_target(proto, host, id);
    match crate::qr::qr_svg(short.as_str()) {
        Ok(image) => Ok((ContentType::Svg, image)),
        Err(_) => Err(api_error(STATUS_INTERNAL_ERROR, "qr encoding failed")),
    }
}

/// `POST /api/valid`: whether the body's URL is acceptable, with the reason
/// when it is not.
pub fn valid_url(body: &CreateLinkReq) -> (r: ValidResp)
    ensures
        match spec_check_url(body.url@) {
            Ok(_) => r.valid && r.error is None,
            Err(m) => !r.valid && opt_view(r.error) == Some(m),
        },
{
    match check_url(body.url.as_str()) {
        Ok(_) => ValidResp { valid: true, error: None },
        Err(e) => ValidResp { valid: false, error: Some(e) },
    }
}

/// What one request to a link's destination came back with.
#[derive(Debug, PartialEq, Clone)]
pub enum ProbeOutcome {
    /// A final response below 400 with this status.
    Response(u16),
    /// A final response with this error status.
    ErrorStatus(u16),
    /// No response: the text of the transport failure.
    Transport(String),
}

/// Whether a destination answered, as `GET /<id>/status` reports it.
#[derive(Debug, PartialEq, Clone)]
pub struct DestinationStatus {
    pub alive: bool,
    pub http_status: Option<u16>,
    pub error: Option<String>,
}

/// The next move of a destination check after its `HEAD` request.
#[derive(Debug, PartialEq, Clone)]
pub enum ProbeNext {
    /// The destination refused `HEAD` (405 or 501): ask once more with `GET`.
    RetryWithGet,
    /// The check is over.
    Done(DestinationStatus),
}

/// A destination is alive when the final response is 2xx.
pub open spec fn spec_destination_status(o: ProbeOutcome) -> (bool, Option<u16>, Option<Seq<char>>) {
    match o {
        ProbeOutcome::Response(code) => (code / 100 == 2, Some(code), None),
        ProbeOutcome::ErrorStatus(code) => (false, Some(code), None),
        ProbeOutcome::Transport(t) => (false, None, Some(t@)),
    }
}

pub open spec fn status_view(s: DestinationStatus) -> (bool, Option<u16>, Option<Seq<char>>) {
    (s.alive, s.http_status, opt_view(s.error))
}

/// The report for the final outcome of a destination check.
pub fn destination_status(o: ProbeOutcome) -> (r: DestinationStatus)
    ensures
        status_view(r) == spec_destination_status(o),
{
    match o {
        ProbeOutcome::Response(code) => DestinationStatus {
            alive: code / 100 == 2,
            http_status: Some(code),
            error: None,
        },
        ProbeOutcome::ErrorStatus(code) => DestinationStatus {
            alive: false,
            http_status: Some(code),
            error: None,
        },
        ProbeOutcome::Transport(t) => DestinationStatus { alive: false, http_status: None, error: Some(t) },
    }
}

/// Decide after the `HEAD` request of a destination check.
pub fn after_head(o: ProbeOutcome) -> (r: ProbeNext)
    ensures
        (o == ProbeOutcome::ErrorStatus(405) || o == ProbeOutcome::ErrorStatus(501)) ==> r
            == ProbeNext::RetryWithGet,
        !(o == ProbeOutcome::ErrorStatus(405) || o == ProbeOutcome::ErrorStatus(501)) ==> (r matches ProbeNext::Done(s)
            && status_view(s) == spec_destination_status(o)),
{
    match o {
        ProbeOutcome::ErrorStatus(code) => {
            if code == 405 || code == 501 {
                ProbeNext::RetryWithGet
            } else {
                ProbeNext::Done(destination_status(ProbeOutcome::ErrorStatus(code)))
            }
        },
        other => ProbeNext::Done(destination_status(other)),
    }
}

/// `GET /<id>/status`: the report for the link's destination.
pub fn link_status(id: &str, url: String, status: DestinationStatus) -> (r: StatusResp)
    ensures
        r.id@ == id@,
        r.url@ == url@,
        r.alive == status.alive,
        r.http_status == status.http_status,
        opt_view(r.error) == opt_view(status.error),
{
    StatusResp {
        id: String::from_str(id),
        url,
        alive: status.alive,
        http_status: status.http_status,
        error: status.error,
    }
}

/// "https" when a proxy says so via `X-Forwarded-Proto`, else "http".
#[derive(Debug, PartialEq, Clone, Copy)]
pub struct ForwardedProto(pub &'static str);

impl ForwardedProto {
    /// The scheme a request came in with, from its `X-Forwarded-Proto` value.
    pub fn from_header(value: Option<&str>) -> (r: ForwardedProto)
        ensures
            r.0@ == (if value matches Some(v) && v@ == "https"@ {
                "https"@
            } else {
                "http"@
            }),
    {
        match value {
            Some(v) => {
                if str_equal(v, "https") {
                    ForwardedProto("https")
                } else {
                    ForwardedProto("http")
                }
            },
            None => ForwardedProto("http"),
        }
    }
}

/// Name for the reason phrase Rocket gives an HTTP status code.
pub uninterp spec fn reason_phrase(code: u16) -> Seq<char>;

/// Calls `rocket::http::Status::reason_lossy` for `code`: the standard reason
/// phrase, or the name of the code's class when the code has none. The
/// contract says only that this is the named phrase.
#[verifier::external_body]
fn status_reason(code: u16) -> (r: String)
    ensures
        r@ == reason_phrase(code),
{
    rocket::http::Status::new(code).reason_lossy().to_string()
}

/// The body of every error answer the routes themselves do not make: the
/// status's reason phrase.
pub fn default_catcher(status: u16) -> (r: ErrorBody)
    ensures
        r.error@ == reason_phrase(status),
{
    ErrorBody { error: status_reason(status) }
}

} // verus!
