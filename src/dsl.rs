//! The declarative description of the one request that a run repeats.
use vstd::prelude::*;

verus! {

/// Declares `serde_json::Value`, carried opaquely as a structured JSON body.
#[verifier::external_type_specification]
#[verifier::external_body]
pub struct ExJsonValue(serde_json::Value);

/// The HTTP method of a request.
#[derive(Debug, Clone, Copy, PartialEq, Eq, Structural)]
pub enum HttpMethod {
    GET,
    POST,
    PUT,
    DELETE,
    PATCH,
    HEAD,
    OPTIONS,
}

/// How a request authenticates itself.
#[derive(Debug, Clone)]
pub enum Auth {
    NoAuth,
    /// `Authorization: Basic` with the base64 of `username:password`.
    Basic { username: String, password: String },
    /// `Authorization: Bearer` with the token.
    Bearer { token: String },
    /// A header named `key_name` holding `key_value` where `in_header` is set;
    /// where it is not, the key is placed nowhere.
    ApiKey { key_name: String, key_value: String, in_header: bool },
}

/// The payload of a request.
#[derive(Debug)]
pub enum Body {
    Json(serde_json::Value),
    Xml(String),
}

/// A run's configuration: the request to repeat, and how hard and how long.
#[derive(Debug)]
pub struct DslConfig {
    /// A descriptive name, not used by the run.
    pub name: String,
    /// The absolute URL that every request goes to.
    pub target: String,
    pub method: HttpMethod,
    /// The number of workers.
    pub concurrency: u64,
    /// The length of the run, in seconds.
    pub duration: u64,
    pub auth: Option<Auth>,
    pub body: Option<Body>,
    /// Query parameters, appended in this order; each name once.
    pub query_params: Option<Vec<(String, String)>>,
}

} // verus!
