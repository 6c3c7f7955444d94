use http_batch::header::split_header;
use http_batch::method::HttpMethod;
use http_batch::request::{build, parse_headers, prepare_all, ConfigError, RequestSpec};

fn spec(urls: &[&str], method: HttpMethod, headers: &[&str], body: Option<&str>) -> RequestSpec {
    RequestSpec {
        urls: urls.iter().map(|u| u.to_string()).collect(),
        method,
        headers: headers.iter().map(|h| h.to_string()).collect(),
        body: body.map(|b| b.to_string()),
    }
}

#[test]
fn method_names_round_trip() {
    for m in [
        HttpMethod::Get,
        HttpMethod::Post,
        HttpMethod::Patch,
        HttpMethod::Put,
        HttpMethod::Delete,
    ] {
        assert_eq!(HttpMethod::parse(m.as_str()), Some(m));
    }
    assert_eq!(HttpMethod::Delete.as_str(), "DELETE");
    assert_eq!(HttpMethod::parse("PATCH"), Some(HttpMethod::Patch));
}

#[test]
fn method_names_are_case_sensitive() {
    assert_eq!(HttpMethod::parse("get"), None);
    assert_eq!(HttpMethod::parse("HEAD"), None);
    assert_eq!(HttpMethod::parse(""), None);
}

#[test]
fn header_splits_on_first_colon() {
    let h = split_header("X-Time:12:30:00").unwrap();
    assert_eq!(h.name, "X-Time");
    assert_eq!(h.value, "12:30:00");
    let h = split_header(":").unwrap();
    assert_eq!(h.name, "");
    assert_eq!(h.value, "");
    let h = split_header("Näme:välue").unwrap();
    assert_eq!(h.name, "Näme");
    assert_eq!(h.value, "välue");
}

#[test]
fn header_without_colon_is_rejected() {
    assert!(split_header("Content-Type application/json").is_none());
    assert!(split_header("").is_none());
}

#[test]
fn parse_headers_reports_first_malformed() {
    let hs: Vec<String> = vec!["A:1".into(), "broken".into(), "also broken".into()];
    assert_eq!(
        parse_headers(&hs).unwrap_err(),
        ConfigError::MalformedHeader { index: 1 }
    );
}

#[test]
fn get_without_headers_or_body() {
    let s = spec(&["http://x/get"], HttpMethod::Get, &[], None);
    let p = build("http://x/get", &s).unwrap();
    assert_eq!(p.url, "http://x/get");
    assert_eq!(p.method, HttpMethod::Get);
    assert!(p.headers.is_empty());
    assert!(p.body.is_none());
}

#[test]
fn post_with_header_and_body() {
    let s = spec(
        &["http://x/post"],
        HttpMethod::Post,
        &["Content-Type:application/json"],
        Some(r#"{"key1":"value1"}"#),
    );
    let p = build("http://x/post", &s).unwrap();
    assert_eq!(p.method, HttpMethod::Post);
    assert_eq!(p.headers.len(), 1);
    assert_eq!(p.headers[0].name, "Content-Type");
    assert_eq!(p.headers[0].value, "application/json");
    assert_eq!(p.body.as_deref(), Some(r#"{"key1":"value1"}"#));
}

#[test]
fn get_may_carry_a_body() {
    let s = spec(&["http://x/get"], HttpMethod::Get, &[], Some("payload"));
    let p = build("http://x/get", &s).unwrap();
    assert_eq!(p.body.as_deref(), Some("payload"));
}

#[test]
fn malformed_header_fails_the_builder() {
    let s = spec(&["http://x/get"], HttpMethod::Get, &["Accept:*/*", "NoColonHere"], None);
    assert_eq!(
        build("http://x/get", &s).unwrap_err(),
        ConfigError::MalformedHeader { index: 1 }
    );
    assert_eq!(
        prepare_all(&s).unwrap_err(),
        ConfigError::MalformedHeader { index: 1 }
    );
}

#[test]
fn malformed_header_fails_even_without_urls() {
    let s = spec(&[], HttpMethod::Get, &["bad"], None);
    assert_eq!(
        prepare_all(&s).unwrap_err(),
        ConfigError::MalformedHeader { index: 0 }
    );
}

#[test]
fn building_twice_gives_identical_requests() {
    let s = spec(
        &["http://x/put"],
        HttpMethod::Put,
        &["A:1", "B: two"],
        Some("data"),
    );
    let a = build("http://x/put", &s).unwrap();
    let b = build("http://x/put", &s).unwrap();
    assert_eq!(a.url, b.url);
    assert_eq!(a.method, b.method);
    assert_eq!(a.headers.len(), b.headers.len());
    for (x, y) in a.headers.iter().zip(b.headers.iter()) {
        assert_eq!(x.name, y.name);
        assert_eq!(x.value, y.value);
    }
    assert_eq!(a.body, b.body);
}

#[test]
fn prepare_all_keeps_order_and_duplicates() {
    let s = spec(
        &["http://a/", "http://b/", "http://a/"],
        HttpMethod::Delete,
        &["K:V"],
        None,
    );
    let v = prepare_all(&s).unwrap();
    assert_eq!(v.len(), 3);
    assert_eq!(v[0].url, "http://a/");
    assert_eq!(v[1].url, "http://b/");
    assert_eq!(v[2].url, "http://a/");
    for p in &v {
        assert_eq!(p.method, HttpMethod::Delete);
        assert_eq!(p.headers[0].name, "K");
        assert_eq!(p.headers[0].value, "V");
    }
}

#[test]
fn template_validation() {
    let ok = RequestSpec::new(
        vec!["http://x/".into()],
        "PATCH",
        vec!["A:b".into()],
        Some("d".into()),
    )
    .unwrap();
    assert_eq!(ok.method, HttpMethod::Patch);
    assert_eq!(ok.urls, vec!["http://x/".to_string()]);
    assert_eq!(ok.body.as_deref(), Some("d"));

    assert_eq!(
        RequestSpec::new(vec![], "GET", vec![], None).unwrap_err(),
        ConfigError::MissingUrl
    );
    assert_eq!(
        RequestSpec::new(vec!["http://x/".into()], "FETCH", vec![], None).unwrap_err(),
        ConfigError::UnknownMethod
    );
    assert_eq!(
        RequestSpec::new(
            vec!["http://x/".into()],
            "GET",
            vec!["A:1".into(), "B:2".into(), "C".into()],
            None
        )
        .unwrap_err(),
        ConfigError::MalformedHeader { index: 2 }
    );
}
