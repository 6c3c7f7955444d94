//! Request templates and the per-URL requests prepared from them.
use vstd::prelude::*;
use crate::header::{has_colon, header_split, lemma_split_iff_colon, split_header, HeaderEntry};
use crate::method::{method_named, HttpMethod};

verus! {

/// Why a request template cannot be turned into requests.
#[derive(Clone, Copy, Debug, PartialEq, Eq, Structural)]
pub enum ConfigError {
    /// The template names no target URL.
    MissingUrl,
    /// The method name is not one of the five known verbs.
    UnknownMethod,
    /// The header at `index` holds no colon.
    MalformedHeader { index: usize },
}

/// A request template: one method, headers and body, applied to every URL.
#[derive(Debug)]
pub struct RequestSpec {
    pub urls: Vec<String>,
    pub method: HttpMethod,
    /// Raw `Name:Value` strings, applied in order.
    pub headers: Vec<String>,
    pub body: Option<String>,
}

/// The model of a template: the text of each part.
pub struct RequestSpecView {
    pub urls: Seq<Seq<char>>,
    pub method: HttpMethod,
    pub headers: Seq<Seq<char>>,
    pub body: Option<Seq<char>>,
}

/// The text of an optional string.
pub open spec fn opt_view(o: Option<String>) -> Option<Seq<char>> {
    match o {
        Some(s) => Some(s@),
        None => None,
    }
}

impl View for RequestSpec {
    type V = RequestSpecView;

    open spec fn view(&self) -> RequestSpecView {
        RequestSpecView {
            urls: self.urls.deep_view(),
            method: self.method,
            headers: self.headers.deep_view(),
            body: opt_view(self.body),
        }
    }
}

/// One fully described request, ready to be sent to a single URL.
#[derive(Debug)]
pub struct PreparedRequest {
    pub url: String,
    pub method: HttpMethod,
    /// Split headers, in the order of the template.
    pub headers: Vec<HeaderEntry>,
    /// Raw request body, attached whatever the method.
    pub body: Option<String>,
}

/// The model of a prepared request: the text of each part.
pub struct PreparedView {
    pub url: Seq<char>,
    pub method: HttpMethod,
    pub headers: Seq<(Seq<char>, Seq<char>)>,
    pub body: Option<Seq<char>>,
}

/// The split form of each header entry.
pub open spec fn entries_view(v: Seq<HeaderEntry>) -> Seq<(Seq<char>, Seq<char>)> {
    v.map_values(|e: HeaderEntry| e@)
}

impl View for PreparedRequest {
    type V = PreparedView;

    open spec fn view(&self) -> PreparedView {
        PreparedView {
            url: self.url@,
            method: self.method,
            headers: entries_view(self.headers@),
            body: opt_view(self.body),
        }
    }
}

/// Every raw header holds a colon.
pub open spec fn headers_valid(hs: Seq<Seq<char>>) -> bool {
    forall|i: int| 0 <= i < hs.len() ==> has_colon(#[trigger] hs[i])
}

/// `i` is the position of the first raw header without a colon.
pub open spec fn is_first_malformed(hs: Seq<Seq<char>>, i: int) -> bool {
    &&& 0 <= i < hs.len()
    &&& !has_colon(hs[i])
    &&& forall|j: int| 0 <= j < i ==> has_colon(#[trigger] hs[j])
}

/// Each raw header split on its first colon.
pub open spec fn split_all(hs: Seq<Seq<char>>) -> Seq<(Seq<char>, Seq<char>)> {
    hs.map_values(|h: Seq<char>| header_split(h).unwrap())
}

/// The request that a template describes for the target `url`.
pub open spec fn prepared(url: Seq<char>, spec: RequestSpecView) -> PreparedView {
    PreparedView { url, method: spec.method, headers: split_all(spec.headers), body: spec.body }
}

/// The outcome that validating a template's raw parts gives.
pub open spec fn spec_check(
    urls: Seq<Seq<char>>,
    method: Seq<char>,
    headers: Seq<Seq<char>>,
) -> Result<HttpMethod, ConfigError> {
    if urls.len() == 0 {
        Err(ConfigError::MissingUrl)
    } else if method_named(method) is None {
        Err(ConfigError::UnknownMethod)
    } else if !headers_valid(headers) {
        Err(
            ConfigError::MalformedHeader {
                index: (choose|i: int| is_first_malformed(headers, i)) as usize,
            },
        )
    } else {
        Ok(method_named(method).unwrap())
    }
}

/// Splits every raw header, failing on the first one without a colon.
pub fn parse_headers(headers: &Vec<String>) -> (r: Result<Vec<HeaderEntry>, ConfigError>)
    ensures
        r is Ok <==> headers_valid(headers.deep_view()),
        r matches Ok(v) ==> entries_view(v@) == split_all(headers.deep_view()),
        r matches Err(e) ==> e matches ConfigError::MalformedHeader { index } && is_first_malformed(
            headers.deep_view(),
            index as int,
        ),
{
    let ghost hs = headers.deep_view();
    let mut out: Vec<HeaderEntry> = Vec::new();
    let mut i: usize = 0;
    while i < headers.len()
        invariant
            hs == headers.deep_view(),
            i <= headers.len(),
            out@.len() == i,
            forall|j: int| 0 <= j < i ==> has_colon(#[trigger] hs[j]),
            forall|j: int|
                0 <= j < i ==> Some(#[trigger] out@[j]@) == header_split(hs[j]),
        decreases headers.len() - i,
    {
        match split_header(headers[i].as_str()) {
            Some(h) => {
                proof {
                    lemma_split_iff_colon(hs[i as int]);
                }
                out.push(h);
            },
            None => {
                assert(!has_colon(hs[i as int]));
                return Err(ConfigError::MalformedHeader { index: i });
            },
        }
        i = i + 1;
    }
    assert(entries_view(out@) =~= split_all(hs));
    Ok(out)
}

/// A copy of an optional string.
fn copy_body(body: &Option<String>) -> (r: Option<String>)
    ensures
        opt_view(r) == opt_view(*body),
{
    match body {
        Some(b) => Some(b.clone()),
        None => None,
    }
}

impl RequestSpec {
    /// Validates the raw parts of a template: at least one URL, a known method
    /// name and a colon in every header, checked in that order.
    pub fn new(urls: Vec<String>, method: &str, headers: Vec<String>, body: Option<String>) -> (r:
        Result<RequestSpec, ConfigError>)
        ensures
            r matches Ok(s) ==> spec_check(urls.deep_view(), method@, headers.deep_view()) == Ok::<
                HttpMethod,
                ConfigError,
            >(s.method) && s@.urls == urls.deep_view() && s@.headers == headers.deep_view()
                && s@.body == opt_view(body),
            r matches Err(e) ==> spec_check(urls.deep_view(), method@, headers.deep_view())
                == Err::<HttpMethod, ConfigError>(e),
    {
        if urls.len() == 0 {
            return Err(ConfigError::MissingUrl);
        }
        let m = match HttpMethod::parse(method) {
            Some(m) => m,
            None => {
                return Err(ConfigError::UnknownMethod);
            },
        };
        match parse_headers(&headers) {
            Ok(_) => {},
            Err(e) => {
                proof {
                    let hs = headers.deep_view();
                    let k = choose|i: int| is_first_malformed(hs, i);
                    let idx = e->index as int;
                    if k < idx {
                        assert(has_colon(hs[k]));
                    } else if idx < k {
                        assert(has_colon(hs[idx]));
                    }
                }
                return Err(e);
            },
        }
        Ok(RequestSpec { urls, method: m, headers, body })
    }
}

/// What preparing the request for `url` from a template gives: the request the
/// template describes when every header holds a colon, else the position of
/// the first one that does not.
pub open spec fn build_outcome(
    url: Seq<char>,
    spec: RequestSpecView,
    r: Result<PreparedView, ConfigError>,
) -> bool {
    match r {
        Ok(p) => headers_valid(spec.headers) && p == prepared(url, spec),
        Err(e) => {
            &&& !headers_valid(spec.headers)
            &&& e matches ConfigError::MalformedHeader { index }
            &&& is_first_malformed(spec.headers, index as int)
        },
    }
}

/// The view of a preparation result.
pub open spec fn build_view(r: Result<PreparedRequest, ConfigError>) -> Result<
    PreparedView,
    ConfigError,
> {
    match r {
        Ok(p) => Ok(p@),
        Err(e) => Err(e),
    }
}

/// Preparing the same URL from the same template twice gives structurally
/// identical results: the same request, or the same error.
pub proof fn lemma_build_idempotent(
    url: Seq<char>,
    spec: RequestSpecView,
    a: Result<PreparedView, ConfigError>,
    b: Result<PreparedView, ConfigError>,
)
    requires
        build_outcome(url, spec, a),
        build_outcome(url, spec, b),
    ensures
        a == b,
{
    if let (Err(ConfigError::MalformedHeader { index: i }), Err(ConfigError::MalformedHeader { index: j })) = (a, b) {
        let hs = spec.headers;
        if i < j {
            assert(has_colon(hs[i as int]));
        } else if j < i {
            assert(has_colon(hs[j as int]));
        }
    }
}

/// Prepares the request for one target URL: the template's method, every
/// header split on its first colon in order, and the body if there is one.
/// Fails on the first header without a colon. Sends nothing.
pub fn build(url: &str, spec: &RequestSpec) -> (r: Result<PreparedRequest, ConfigError>)
    ensures
        build_outcome(url@, spec@, build_view(r)),
{
    let headers = match parse_headers(&spec.headers) {
        Ok(hs) => hs,
        Err(e) => {
            return Err(e);
        },
    };
    let p = PreparedRequest {
        url: url.to_owned(),
        method: spec.method,
        headers,
        body: copy_body(&spec.body),
    };
    Ok(p)
}

/// Prepares one request per URL, in the order of the URLs and keeping
/// duplicates. Every header is checked before any request is prepared, so a
/// header without a colon fails the whole batch.
pub fn prepare_all(spec: &RequestSpec) -> (r: Result<Vec<PreparedRequest>, ConfigError>)
    ensures
        r is Ok <==> headers_valid(spec@.headers),
        r matches Ok(v) ==> v@.len() == spec@.urls.len() && forall|i: int|
            0 <= i < v@.len() ==> (#[trigger] v@[i])@ == prepared(spec@.urls[i], spec@),
        r matches Err(e) ==> e matches ConfigError::MalformedHeader { index } && is_first_malformed(
            spec@.headers,
            index as int,
        ),
{
    match parse_headers(&spec.headers) {
        Ok(_) => {},
        Err(e) => {
            return Err(e);
        },
    }
    let mut out: Vec<PreparedRequest> = Vec::new();
    let mut i: usize = 0;
    while i < spec.urls.len()
        invariant
            headers_valid(spec@.headers),
            i <= spec.urls.len(),
            out@.len() == i,
            forall|j: int|
                0 <= j < i ==> (#[trigger] out@[j])@ == prepared(spec@.urls[j], spec@),
        decreases spec.urls.len() - i,
    {
        match build(spec.urls[i].as_str(), spec) {
            Ok(p) => {
                out.push(p);
            },
            Err(e) => {
                return Err(e);
            },
        }
        i = i + 1;
    }
    Ok(out)
}

} // verus!
