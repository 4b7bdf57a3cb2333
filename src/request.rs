//! Turning a run's configuration into the description of one outbound request.
use vstd::prelude::*;
use vstd::string::StringExecFns;

use crate::dsl::{Auth, Body, DslConfig, HttpMethod};
use crate::text::{find_char, first_or_end, has_char_before, same_text};

use base64::Engine;

verus! {

/// Declares `serde_json::Error`, the failure of turning a body into text.
#[verifier::external_type_specification]
#[verifier::external_body]
pub struct ExJsonError(serde_json::Error);

/// What `url::Url::parse` makes of a target: its serialization, or nothing
/// where the target is not an absolute URL.
pub uninterp spec fn url_parse_of(s: Seq<char>) -> Option<Seq<char>>;

/// What `url::form_urlencoded::byte_serialize` makes of a string.
pub uninterp spec fn form_encoded_of(s: Seq<char>) -> Seq<char>;

/// The standard base64 encoding (with padding) of a string's bytes.
pub uninterp spec fn base64_of(s: Seq<char>) -> Seq<char>;

/// The characters that form encoding leaves as they are.
pub open spec fn kept_by_form_encoding(c: char) -> bool {
    ('0' <= c <= '9') || ('A' <= c <= 'Z') || ('a' <= c <= 'z') || c == '*' || c == '-' || c
        == '.' || c == '_'
}

/// Relies on `url::Url::parse`, and on `Url::as_str` for the serialization.
#[verifier::external_body]
fn parse_url(s: &str) -> (r: Option<String>)
    ensures
        match r {
            Some(u) => url_parse_of(s@) == Some(u@),
            None => url_parse_of(s@) is None,
        },
{
    url::Url::parse(s).ok().map(|u| u.as_str().to_string())
}

/// Relies on `url::form_urlencoded::byte_serialize`, as `append_pair` uses it:
/// bytes of ASCII letters, digits and `*-._` are kept as they are.
#[verifier::external_body]
fn form_encode(s: &str) -> (r: String)
    ensures
        r@ == form_encoded_of(s@),
        (forall|i: int| 0 <= i < s@.len() ==> kept_by_form_encoding(#[trigger] s@[i])) ==> r@
            == s@,
{
    url::form_urlencoded::byte_serialize(s.as_bytes()).collect()
}

/// Relies on `base64::engine::general_purpose::STANDARD.encode`.
#[verifier::external_body]
fn base64_encode(s: &str) -> (r: String)
    ensures
        r@ == base64_of(s@),
{
    base64::engine::general_purpose::STANDARD.encode(s)
}

/// Relies on `serde_json::to_string` for the text of a JSON body.
#[verifier::external_body]
fn json_text(v: &serde_json::Value) -> (r: Result<String, serde_json::Error>) {
    serde_json::to_string(v)
}

/// Why a request could not be built.
#[derive(Debug, Clone, Copy, PartialEq, Eq, Structural)]
pub enum BuildError {
    /// The target is not an absolute URL.
    MalformedTarget,
    /// A JSON body could not be turned into text.
    BodyEncoding,
}

/// A request ready for the transport: method, final URL, headers and payload.
#[derive(Debug, Clone)]
pub struct HttpRequestConfig {
    pub method: String,
    pub url: String,
    pub headers: Option<Vec<(String, String)>>,
    pub body: Option<String>,
}

/// The name of a method on the wire.
pub open spec fn method_name(m: HttpMethod) -> Seq<char> {
    match m {
        HttpMethod::GET => "GET"@,
        HttpMethod::POST => "POST"@,
        HttpMethod::PUT => "PUT"@,
        HttpMethod::DELETE => "DELETE"@,
        HttpMethod::PATCH => "PATCH"@,
        HttpMethod::HEAD => "HEAD"@,
        HttpMethod::OPTIONS => "OPTIONS"@,
    }
}

/// The header pairs of a vector, as text.
pub open spec fn pairs_view(v: Seq<(String, String)>) -> Seq<(Seq<char>, Seq<char>)> {
    v.map_values(|p: (String, String)| (p.0@, p.1@))
}

/// The header that authentication adds, if any.
pub open spec fn auth_headers(a: Option<Auth>) -> Seq<(Seq<char>, Seq<char>)> {
    match a {
        Some(Auth::Basic { username, password }) => seq![
            ("Authorization"@, "Basic "@ + base64_of(username@ + ":"@ + password@)),
        ],
        Some(Auth::Bearer { token }) => seq![("Authorization"@, "Bearer "@ + token@)],
        Some(Auth::ApiKey { key_name, key_value, in_header }) => if in_header {
            seq![(key_name@, key_value@)]
        } else {
            seq![]
        },
        _ => seq![],
    }
}

/// The content-type header that the body calls for, if any.
pub open spec fn content_headers(b: Option<Body>) -> Seq<(Seq<char>, Seq<char>)> {
    match b {
        Some(Body::Json(_)) => seq![("Content-Type"@, "application/json"@)],
        Some(Body::Xml(_)) => seq![("Content-Type"@, "application/xml"@)],
        None => seq![],
    }
}

/// Every header of the request: authentication first, then content type.
pub open spec fn headers_of(c: DslConfig) -> Seq<(Seq<char>, Seq<char>)> {
    auth_headers(c.auth) + content_headers(c.body)
}

/// The headers of a built request, as text; none stands for an empty list.
pub open spec fn header_list(h: Option<Vec<(String, String)>>) -> Seq<(Seq<char>, Seq<char>)> {
    match h {
        Some(v) => pairs_view(v@),
        None => seq![],
    }
}

/// The query parameters of a configuration, as text.
pub open spec fn params_of(c: DslConfig) -> Seq<(Seq<char>, Seq<char>)> {
    match c.query_params {
        Some(v) => pairs_view(v@),
        None => seq![],
    }
}

/// The parameters with name and value form-encoded.
pub open spec fn encoded_pairs(ps: Seq<(Seq<char>, Seq<char>)>) -> Seq<(Seq<char>, Seq<char>)> {
    ps.map_values(|p: (Seq<char>, Seq<char>)| (form_encoded_of(p.0), form_encoded_of(p.1)))
}

/// One parameter of a query string, as `name=value`.
pub open spec fn pair_text(p: (Seq<char>, Seq<char>)) -> Seq<char> {
    p.0 + "="@ + p.1
}

/// The parameters joined by `&`, in their order.
pub open spec fn query_text(ps: Seq<(Seq<char>, Seq<char>)>) -> Seq<char>
    decreases ps.len(),
{
    if ps.len() == 0 {
        Seq::empty()
    } else if ps.len() == 1 {
        pair_text(ps[0])
    } else {
        query_text(ps.drop_last()) + "&"@ + pair_text(ps.last())
    }
}

/// The URL `u` with the (encoded) parameters appended to its query: after a `&` where
/// the part before the fragment already holds a `?`, after a new `?`
/// otherwise; the fragment stays last. No parameter leaves `u` unchanged.
pub open spec fn with_query(u: Seq<char>, ps: Seq<(Seq<char>, Seq<char>)>) -> Seq<char> {
    if ps.len() == 0 {
        u
    } else {
        let cut = first_or_end(u, '#');
        let head = u.subrange(0, cut);
        let sep = if head.contains('?') {
            "&"@
        } else {
            "?"@
        };
        head + sep + query_text(ps) + u.subrange(cut, u.len() as int)
    }
}

/// `q` carries the method, URL and headers that configuration `c` calls for,
/// with `u` the serialization of its target.
pub open spec fn describes(q: HttpRequestConfig, c: DslConfig, u: Seq<char>) -> bool {
    &&& q.method@ == method_name(c.method)
    &&& q.url@ == with_query(u, encoded_pairs(params_of(c)))
    &&& header_list(q.headers) == headers_of(c)
    &&& q.headers matches Some(v) ==> v@.len() > 0
}

impl HttpMethod {
    /// The method's name, in capitals.
    pub fn name(&self) -> (r: String)
        ensures
            r@ == method_name(*self),
    {
        match self {
            HttpMethod::GET => String::from_str("GET"),
            HttpMethod::POST => String::from_str("POST"),
            HttpMethod::PUT => String::from_str("PUT"),
            HttpMethod::DELETE => String::from_str("DELETE"),
            HttpMethod::PATCH => String::from_str("PATCH"),
            HttpMethod::HEAD => String::from_str("HEAD"),
            HttpMethod::OPTIONS => String::from_str("OPTIONS"),
        }
    }
}

proof fn lemma_query_text_step(ps: Seq<(Seq<char>, Seq<char>)>, k: int)
    requires
        0 <= k < ps.len(),
    ensures
        query_text(ps.take(k + 1)) == if k == 0 {
            pair_text(ps[0])
        } else {
            query_text(ps.take(k)) + "&"@ + pair_text(ps[k])
        },
{
    assert(ps.take(k + 1).drop_last() =~= ps.take(k));
}

/// Appends parameters, already encoded, to the serialization of a target URL.
pub fn append_encoded_query(base: &str, encoded: &Vec<(String, String)>) -> (r: String)
    ensures
        r@ == with_query(base@, pairs_view(encoded@)),
{
    if encoded.len() == 0 {
        return String::from_str(base);
    }
    let n = base.unicode_len();
    let cut = find_char(base, '#');
    let has_query = has_char_before(base, cut, '?');
    let ghost ps = pairs_view(encoded@);
    let mut out = String::from_str(base.substring_char(0, cut));
    if has_query {
        out.append("&");
    } else {
        out.append("?");
    }
    let ghost start = out@;
    let mut k: usize = 0;
    while k < encoded.len()
        invariant
            k <= encoded@.len(),
            ps == pairs_view(encoded@),
            out@ == start + query_text(ps.take(k as int)),
        decreases encoded@.len() - k,
    {
        proof {
            lemma_query_text_step(ps, k as int);
        }
        if k > 0 {
            out.append("&");
        }
        out.append(encoded[k].0.as_str());
        out.append("=");
        out.append(encoded[k].1.as_str());
        k = k + 1;
    }
    out.append(base.substring_char(cut, n));
    proof {
        assert(ps.take(encoded@.len() as int) =~= ps);
    }
    out
}

/// The parameters with name and value form-encoded, in their order.
pub fn encode_params(params: &Vec<(String, String)>) -> (r: Vec<(String, String)>)
    ensures
        pairs_view(r@) == encoded_pairs(pairs_view(params@)),
{
    let mut out: Vec<(String, String)> = Vec::new();
    let mut k: usize = 0;
    while k < params.len()
        invariant
            k <= params@.len(),
            out@.len() == k,
            pairs_view(out@) == encoded_pairs(pairs_view(params@)).take(k as int),
        decreases params@.len() - k,
    {
        let ghost before = out@;
        let name = form_encode(params[k].0.as_str());
        let value = form_encode(params[k].1.as_str());
        out.push((name, value));
        proof {
            let want = encoded_pairs(pairs_view(params@));
            assert(pairs_view(params@)[k as int] == (params@[k as int].0@, params@[k as int].1@));
            assert(want[k as int] == (name@, value@));
            assert forall|i: int| 0 <= i < k implies #[trigger] pairs_view(out@)[i] == want[i] by {
                assert(out@[i] == before[i]);
                assert(pairs_view(before)[i] == want.take(k as int)[i]);
            }
            assert(pairs_view(out@) =~= want.take(k + 1));
        }
        k = k + 1;
    }
    proof {
        assert(encoded_pairs(pairs_view(params@)).take(params@.len() as int) =~= encoded_pairs(
            pairs_view(params@),
        ));
    }
    out
}

/// Appends the query parameters, form-encoded, to the serialization of a
/// target URL.
pub fn append_query(base: &str, params: &Vec<(String, String)>) -> (r: String)
    ensures
        r@ == with_query(base@, encoded_pairs(pairs_view(params@))),
{
    let encoded = encode_params(params);
    append_encoded_query(base, &encoded)
}

/// The request headers that a configuration calls for: the authentication
/// header, if any, then the content type of the body, if any; none where
/// there is neither.
pub fn generate_headers(config: &DslConfig) -> (r: Option<Vec<(String, String)>>)
    ensures
        header_list(r) == headers_of(*config),
        r matches Some(v) ==> v@.len() > 0,
{
    let mut headers: Vec<(String, String)> = Vec::new();
    match &config.auth {
        Some(Auth::Basic { username, password }) => {
            let mut credentials = username.clone();
            credentials.append(":");
            credentials.append(password.as_str());
            let encoded = base64_encode(credentials.as_str());
            let mut value = String::from_str("Basic ");
            value.append(encoded.as_str());
            headers.push((String::from_str("Authorization"), value));
        },
        Some(Auth::Bearer { token }) => {
            let mut value = String::from_str("Bearer ");
            value.append(token.as_str());
            headers.push((String::from_str("Authorization"), value));
        },
        Some(Auth::ApiKey { key_name, key_value, in_header }) => {
            if *in_header {
                headers.push((key_name.clone(), key_value.clone()));
            }
        },
        _ => {},
    }
    proof {
        assert(pairs_view(headers@) =~= auth_headers(config.auth));
    }
    let ghost auth_part = headers@;
    match &config.body {
        Some(Body::Json(_)) => {
            headers.push((String::from_str("Content-Type"), String::from_str("application/json")));
        },
        Some(Body::Xml(_)) => {
            headers.push((String::from_str("Content-Type"), String::from_str("application/xml")));
        },
        None => {},
    }
    proof {
        assert(pairs_view(headers@) =~= pairs_view(auth_part) + content_headers(config.body));
    }
    if headers.len() == 0 {
        proof {
            assert(headers_of(*config) =~= Seq::empty());
        }
        None
    } else {
        Some(headers)
    }
}

/// The payload of a body: the text of a JSON value, or the XML as it is.
pub fn serialize_body(body: &Body) -> (r: Result<String, BuildError>)
    ensures
        body matches Body::Xml(x) ==> r matches Ok(t) && t@ == x@,
        r matches Err(e) ==> e == BuildError::BodyEncoding && body is Json,
{
    match body {
        Body::Json(v) => match json_text(v) {
            Ok(t) => Ok(t),
            Err(_) => Err(BuildError::BodyEncoding),
        },
        Body::Xml(x) => Ok(x.clone()),
    }
}

/// The final URL of a configuration: its target with the query parameters
/// appended, or `MalformedTarget` where the target is not an absolute URL.
pub fn target_url(config: &DslConfig) -> (r: Result<String, BuildError>)
    ensures
        match url_parse_of(config.target@) {
            Some(u) => r matches Ok(t) && t@ == with_query(u, encoded_pairs(params_of(*config))),
            None => r matches Err(BuildError::MalformedTarget),
        },
{
    match parse_url(config.target.as_str()) {
        None => Err(BuildError::MalformedTarget),
        Some(u) => match &config.query_params {
            Some(params) => Ok(append_query(u.as_str(), params)),
            None => Ok(u),
        },
    }
}

/// The payload of a built request matches the configured body: none for no
/// body, the XML as it is, some text for a JSON value.
pub open spec fn carries_body(q: HttpRequestConfig, c: DslConfig) -> bool {
    match c.body {
        None => q.body is None,
        Some(Body::Xml(x)) => q.body matches Some(t) && t@ == x@,
        Some(Body::Json(_)) => q.body is Some,
    }
}

/// Builds the request that a configuration describes. It fails with
/// `MalformedTarget` exactly where the target is not an absolute URL, and
/// otherwise only with `BodyEncoding`, for a JSON body whose text could not
/// be made.
pub fn build_request(config: &DslConfig) -> (r: Result<HttpRequestConfig, BuildError>)
    ensures
        url_parse_of(config.target@) is None ==> r matches Err(BuildError::MalformedTarget),
        url_parse_of(config.target@) matches Some(u) ==> match r {
            Ok(q) => describes(q, *config, u) && carries_body(q, *config),
            Err(e) => e == BuildError::BodyEncoding && config.body matches Some(Body::Json(_)),
        },
{
    let url = match target_url(config) {
        Ok(u) => u,
        Err(e) => {
            return Err(e);
        },
    };
    let body = match &config.body {
        Some(b) => match serialize_body(b) {
            Ok(t) => Some(t),
            Err(e) => {
                return Err(e);
            },
        },
        None => None,
    };
    Ok(HttpRequestConfig {
        method: config.method.name(),
        url,
        headers: generate_headers(config),
        body,
    })
}

/// Building is a pure function of the configuration: any two requests built
/// from one configuration carry the same method, URL and headers.
pub proof fn lemma_build_is_deterministic(
    c: DslConfig,
    u: Seq<char>,
    q1: HttpRequestConfig,
    q2: HttpRequestConfig,
)
    requires
        url_parse_of(c.target@) == Some(u),
        describes(q1, c, u),
        describes(q2, c, u),
    ensures
        q1.method@ == q2.method@,
        q1.url@ == q2.url@,
        header_list(q1.headers) == header_list(q2.headers),
        q1.headers is None <==> q2.headers is None,
{
}

/// Authentication yields exactly one of: no header; `Authorization: Basic`
/// with the base64 of `username:password`; `Authorization: Bearer` with the
/// token; the API key's own header. No request has an `Authorization` header
/// but from authentication, and never more than one.
pub proof fn lemma_one_auth_header(c: DslConfig)
    ensures
        auth_headers(c.auth).len() <= 1,
        forall|i: int|
            0 <= i < headers_of(c).len() && #[trigger] headers_of(c)[i].0 == "Authorization"@
                ==> i == 0 && auth_headers(c.auth).len() == 1,
        match c.auth {
            Some(Auth::Basic { username, password }) => headers_of(c)[0] == (
                "Authorization"@,
                "Basic "@ + base64_of(username@ + ":"@ + password@),
            ),
            Some(Auth::Bearer { token }) => headers_of(c)[0] == ("Authorization"@, "Bearer "@
                + token@),
            Some(Auth::ApiKey { key_name, key_value, in_header }) => if in_header {
                headers_of(c)[0] == (key_name@, key_value@)
            } else {
                auth_headers(c.auth).len() == 0
            },
            _ => auth_headers(c.auth).len() == 0,
        },
{
    reveal_strlit("Authorization");
    reveal_strlit("Content-Type");
    let a = auth_headers(c.auth);
    let b = content_headers(c.body);
    assert forall|i: int|
        0 <= i < headers_of(c).len() && #[trigger] headers_of(c)[i].0 == "Authorization"@
            implies i == 0 && a.len() == 1 by {
        if i >= a.len() {
            assert(headers_of(c)[i] == b[i - a.len()]);
            assert(b[i - a.len()].0 == "Content-Type"@);
            assert("Content-Type"@.len() != "Authorization"@.len());
        }
    }
}

/// What `str::to_uppercase` makes of a string.
pub uninterp spec fn upper_of(s: Seq<char>) -> Seq<char>;

/// Relies on `str::to_uppercase`.
#[verifier::external_body]
fn to_upper(s: &str) -> (r: String)
    ensures
        r@ == upper_of(s@),
{
    s.to_uppercase()
}

/// The method named by a capitalized name; `GET` for a name of no method.
pub open spec fn method_of_name(u: Seq<char>) -> HttpMethod {
    if u == "GET"@ {
        HttpMethod::GET
    } else if u == "POST"@ {
        HttpMethod::POST
    } else if u == "PUT"@ {
        HttpMethod::PUT
    } else if u == "DELETE"@ {
        HttpMethod::DELETE
    } else if u == "PATCH"@ {
        HttpMethod::PATCH
    } else if u == "HEAD"@ {
        HttpMethod::HEAD
    } else if u == "OPTIONS"@ {
        HttpMethod::OPTIONS
    } else {
        HttpMethod::GET
    }
}

/// The method named by an already capitalized name.
pub fn method_from_upper(u: &str) -> (r: HttpMethod)
    ensures
        r == method_of_name(u@),
{
    if same_text(u, "GET") {
        HttpMethod::GET
    } else if same_text(u, "POST") {
        HttpMethod::POST
    } else if same_text(u, "PUT") {
        HttpMethod::PUT
    } else if same_text(u, "DELETE") {
        HttpMethod::DELETE
    } else if same_text(u, "PATCH") {
        HttpMethod::PATCH
    } else if same_text(u, "HEAD") {
        HttpMethod::HEAD
    } else if same_text(u, "OPTIONS") {
        HttpMethod::OPTIONS
    } else {
        HttpMethod::GET
    }
}

/// The method named by a name in any case; `GET` for a name of no method.
pub fn parse_method(method: &str) -> (r: HttpMethod)
    ensures
        r == method_of_name(upper_of(method@)),
{
    let upper = to_upper(method);
    method_from_upper(upper.as_str())
}

} // verus!
