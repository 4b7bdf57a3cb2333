use loadstrike::dsl::{Auth, Body, DslConfig, HttpMethod};
use loadstrike::request::{
    append_encoded_query, append_query, encode_params, build_request, generate_headers, method_from_upper, parse_method,
    serialize_body, target_url, BuildError,
};

fn config(target: &str) -> DslConfig {
    DslConfig {
        name: "probe".to_string(),
        target: target.to_string(),
        method: HttpMethod::GET,
        concurrency: 1,
        duration: 1,
        auth: None,
        body: None,
        query_params: None,
    }
}

fn pairs(items: &[(&str, &str)]) -> Vec<(String, String)> {
    items.iter().map(|(k, v)| (k.to_string(), v.to_string())).collect()
}

#[test]
fn query_appended_with_question_mark() {
    let mut c = config("http://h/p");
    c.query_params = Some(pairs(&[("a", "1")]));
    assert_eq!(target_url(&c).unwrap(), "http://h/p?a=1");
}

#[test]
fn query_appended_after_existing_query() {
    let mut c = config("http://h/p?x=1");
    c.query_params = Some(pairs(&[("a", "2")]));
    assert_eq!(target_url(&c).unwrap(), "http://h/p?x=1&a=2");
}

#[test]
fn query_keeps_parameter_order() {
    assert_eq!(
        append_query("http://h/p", &pairs(&[("b", "2"), ("a", "1"), ("c", "3")])),
        "http://h/p?b=2&a=1&c=3"
    );
}

#[test]
fn query_encodes_reserved_characters() {
    assert_eq!(
        append_query("http://h/p", &pairs(&[("q", "a b&c=d"), ("k/1", "x?y#z")])),
        "http://h/p?q=a+b%26c%3Dd&k%2F1=x%3Fy%23z"
    );
}

#[test]
fn query_goes_before_fragment() {
    assert_eq!(append_query("http://h/p#top", &pairs(&[("a", "1")])), "http://h/p?a=1#top");
    assert_eq!(
        append_query("http://h/p?x=1#top", &pairs(&[("a", "1")])),
        "http://h/p?x=1&a=1#top"
    );
}

#[test]
fn no_parameters_leave_target_unchanged() {
    assert_eq!(append_query("http://h/p?x=1", &Vec::new()), "http://h/p?x=1");
    let mut c = config("http://h/p");
    c.query_params = Some(Vec::new());
    assert_eq!(target_url(&c).unwrap(), "http://h/p");
}

#[test]
fn target_is_normalized_by_url_parser() {
    assert_eq!(target_url(&config("HTTP://Example.COM")).unwrap(), "http://example.com/");
}

#[test]
fn malformed_target_is_rejected() {
    assert_eq!(build_request(&config("not a url")).unwrap_err(), BuildError::MalformedTarget);
    assert_eq!(build_request(&config("/relative/path")).unwrap_err(), BuildError::MalformedTarget);
}

#[test]
fn basic_auth_header_is_base64_of_user_and_password() {
    let mut c = config("http://h/p");
    c.auth = Some(Auth::Basic { username: "user".to_string(), password: "pass".to_string() });
    let headers = generate_headers(&c).unwrap();
    assert_eq!(
        headers,
        vec![("Authorization".to_string(), "Basic dXNlcjpwYXNz".to_string())]
    );
}

#[test]
fn bearer_auth_header() {
    let mut c = config("http://h/p");
    c.auth = Some(Auth::Bearer { token: "abc.def".to_string() });
    assert_eq!(
        generate_headers(&c).unwrap(),
        vec![("Authorization".to_string(), "Bearer abc.def".to_string())]
    );
}

#[test]
fn api_key_in_header() {
    let mut c = config("http://h/p");
    c.auth = Some(Auth::ApiKey {
        key_name: "X-Api-Key".to_string(),
        key_value: "SECRET-REDACTED".to_string(),
        in_header: true,
    });
    assert_eq!(
        generate_headers(&c).unwrap(),
        vec![("X-Api-Key".to_string(), "SECRET-REDACTED".to_string())]
    );
}

#[test]
fn api_key_not_in_header_adds_nothing() {
    let mut c = config("http://h/p");
    c.auth = Some(Auth::ApiKey {
        key_name: "X-Api-Key".to_string(),
        key_value: "k".to_string(),
        in_header: false,
    });
    assert_eq!(generate_headers(&c), None);
    c.auth = Some(Auth::NoAuth);
    assert_eq!(generate_headers(&c), None);
    c.auth = None;
    assert_eq!(generate_headers(&c), None);
}

#[test]
fn auth_header_then_content_type() {
    let mut c = config("http://h/p");
    c.auth = Some(Auth::Bearer { token: "t".to_string() });
    c.body = Some(Body::Xml("<a/>".to_string()));
    assert_eq!(
        generate_headers(&c).unwrap(),
        vec![
            ("Authorization".to_string(), "Bearer t".to_string()),
            ("Content-Type".to_string(), "application/xml".to_string()),
        ]
    );
}

#[test]
fn json_body_is_serialized_with_content_type() {
    let mut c = config("http://h/p");
    let v: serde_json::Value = serde_json::from_str("{ \"a\" : [1, 2] }").unwrap();
    c.body = Some(Body::Json(v));
    c.method = HttpMethod::POST;
    let q = build_request(&c).unwrap();
    assert_eq!(q.method, "POST");
    assert_eq!(q.url, "http://h/p");
    assert_eq!(q.body.as_deref(), Some("{\"a\":[1,2]}"));
    assert_eq!(
        q.headers.unwrap(),
        vec![("Content-Type".to_string(), "application/json".to_string())]
    );
}

#[test]
fn xml_body_passes_through() {
    let b = Body::Xml("<x> & </x>".to_string());
    assert_eq!(serialize_body(&b).unwrap(), "<x> & </x>");
}

#[test]
fn absent_body_gives_no_payload_and_no_header() {
    let q = build_request(&config("https://h/")).unwrap();
    assert_eq!(q.body, None);
    assert_eq!(q.headers, None);
    assert_eq!(q.method, "GET");
}

#[test]
fn build_is_repeatable() {
    let mut c = config("http://h/p?x=1");
    c.auth = Some(Auth::Basic { username: "a".to_string(), password: "b".to_string() });
    c.query_params = Some(pairs(&[("k", "v")]));
    let q1 = build_request(&c).unwrap();
    let q2 = build_request(&c).unwrap();
    assert_eq!(q1.method, q2.method);
    assert_eq!(q1.url, q2.url);
    assert_eq!(q1.headers, q2.headers);
    assert_eq!(q1.url, "http://h/p?x=1&k=v");
}

#[test]
fn method_names() {
    assert_eq!(HttpMethod::DELETE.name(), "DELETE");
    assert_eq!(HttpMethod::OPTIONS.name(), "OPTIONS");
    assert_eq!(parse_method("patch"), HttpMethod::PATCH);
    assert_eq!(parse_method("Head"), HttpMethod::HEAD);
    assert_eq!(parse_method("PUT"), HttpMethod::PUT);
    assert_eq!(parse_method("fetch"), HttpMethod::GET);
    assert_eq!(method_from_upper("post"), HttpMethod::GET);
    assert_eq!(method_from_upper("POST"), HttpMethod::POST);
}

#[test]
fn encoded_parameters_are_joined_as_given() {
    assert_eq!(
        append_encoded_query("http://h/p?x=1", &pairs(&[("a", "%20"), ("b", "c+d")])),
        "http://h/p?x=1&a=%20&b=c+d"
    );
    assert_eq!(append_encoded_query("http://h/p", &pairs(&[("a", "1")])), "http://h/p?a=1");
}

#[test]
fn parameters_are_form_encoded_in_order() {
    assert_eq!(
        encode_params(&pairs(&[("a b", "é"), ("plain", "x.y-z_*")])),
        pairs(&[("a+b", "%C3%A9"), ("plain", "x.y-z_*")])
    );
}
