use reqwest::header::HeaderValue;
use reqwest::{Client, Method, Request};
use vertx_http_gateway_connector::outgoing_request::{add_headers, MAX_FIELDS};
use vertx_http_gateway_connector::{build_request, ProxyRequest, RequestHeaders};

fn headers(fields: &[(&str, &str)]) -> RequestHeaders {
    let mut headers = RequestHeaders::new();
    for (name, value) in fields {
        headers.insert(name.to_string(), value.to_string());
    }
    headers
}

fn proxy_request(method: Method, url: &str, fields: &[(&str, &str)]) -> ProxyRequest {
    ProxyRequest {
        request_id: 1,
        method,
        url: url.to_string(),
        headers: headers(fields),
        streams_body: false,
    }
}

fn built_with(
    client: &Client,
    method: Method,
    url: &str,
    fields: &[(&str, &str)],
) -> Option<Request> {
    build_request(client, proxy_request(method, url, fields)).unwrap().build().ok()
}

fn built(method: Method, url: &str, fields: &[(&str, &str)]) -> Option<Request> {
    built_with(&Client::new(), method, url, fields)
}

#[test]
fn request_is_built() {
    let fields = [("host", "gw"), ("x-tab", "a\tb"), ("x-utf", "\u{e4}")];
    let request = built(Method::PUT, "http://localhost:12345/a?b=c", &fields).unwrap();
    assert_eq!(request.method(), Method::PUT);
    assert_eq!(request.url().as_str(), "http://localhost:12345/a?b=c");
    assert_eq!(request.headers().len(), 3);
    assert_eq!(request.headers()["host"], "gw");
    assert_eq!(request.headers()["x-tab"], "a\tb");
    assert_eq!(request.headers()["x-utf"].as_bytes(), &[0xc3, 0xa4]);
}

#[test]
fn request_without_fields_is_built() {
    let request = built(Method::GET, "https://svc:443/", &[]).unwrap();
    assert_eq!(request.url().as_str(), "https://svc/");
    assert!(request.headers().is_empty());
}

#[test]
fn bad_urls_spoil_a_request() {
    assert!(built(Method::GET, "http://:12345/", &[("a", "b")]).is_none());
    assert!(built(Method::GET, "nothing", &[]).is_none());
}

#[test]
fn bad_fields_spoil_a_request() {
    let url = "http://localhost/";
    let bad = [("a b", "c"), ("\u{e4}", "c"), ("a", "c\n"), ("a", "\u{7f}"), ("", "c"), ("a(", "c")];
    for field in bad {
        assert!(built(Method::GET, url, &[("good", "x"), field, ("fine", "y")]).is_none());
    }
    let long = "n".repeat(65536);
    assert!(built(Method::GET, url, &[(&long, "c")]).is_none());
    assert!(built(Method::GET, url, &[(&long[1..], "c")]).is_some());
}

#[test]
fn header_characters_are_those_of_the_client() {
    let url = "http://localhost/";
    let client = Client::new();
    for b in 0u8..128 {
        let c = (b as char).to_string();
        let listed = b.is_ascii_alphanumeric() || "!\"#$%&'*+-.^_`|~".contains(&c);
        assert_eq!(built_with(&client, Method::GET, url, &[(&c, "x")]).is_some(), listed);
        let plain = b == 9 || (b >= 32 && b != 127);
        assert_eq!(built_with(&client, Method::GET, url, &[("x", &c)]).is_some(), plain);
    }
}

#[test]
fn names_are_lowered_and_values_kept_apart() {
    let request = built(Method::GET, "http://localhost/", &[("A", "1"), ("a", "2")]).unwrap();
    let values: Vec<&HeaderValue> = request.headers().get_all("a").iter().collect();
    assert_eq!(values.len(), 2);
    assert!(values.contains(&&HeaderValue::from_static("1")));
    assert!(values.contains(&&HeaderValue::from_static("2")));
}

#[test]
fn user_in_url_asks_for_authorization() {
    let fields = [("authorization", "mine")];
    let request = built(Method::GET, "http://u:p@localhost/x", &fields).unwrap();
    assert_eq!(request.url().as_str(), "http://localhost/x");
    let values: Vec<&HeaderValue> = request.headers().get_all("authorization").iter().collect();
    assert_eq!(values, vec!["Basic dTpw", "mine"]);
}

#[test]
fn fields_are_added_to_those_there_are() {
    let builder = Client::new().get("http://localhost/").header("a", "1");
    let added = add_headers(builder, &headers(&[("a", "2"), ("b", "3")])).unwrap();
    let request = added.build().unwrap();
    let values: Vec<&HeaderValue> = request.headers().get_all("a").iter().collect();
    assert_eq!(values, vec!["1", "2"]);
    assert_eq!(request.headers()["b"], "3");
}

#[test]
fn fields_spoil_no_more_than_a_request() {
    let builder = Client::new().get("nothing");
    assert!(add_headers(builder, &headers(&[("a", "2"), ("b c", "3")])).unwrap().build().is_err());
}

fn numbered(count: usize) -> Vec<String> {
    (0..count).map(|i| format!("n{}", i)).collect()
}

fn paired(names: &[String]) -> Vec<(&str, &str)> {
    names.iter().map(|name| (name.as_str(), "v")).collect()
}

#[test]
fn many_fields_are_sent() {
    for count in [MAX_FIELDS, MAX_FIELDS + 1, 7000] {
        let names = numbered(count);
        let request = built(Method::GET, "http://u@localhost/", &paired(&names)).unwrap();
        assert_eq!(request.headers().len(), count + 1);
        for name in names {
            assert_eq!(request.headers()[&name], "v");
        }
    }
}

#[test]
fn full_header_map_takes_no_more() {
    let mut builder = Client::new().get("http://localhost/");
    for name in numbered(24576) {
        builder = builder.header(name, "v");
    }
    let copy = builder.try_clone().unwrap();
    assert!(add_headers(copy, &headers(&[])).is_some());
    let copy = builder.try_clone().unwrap();
    assert!(add_headers(copy, &headers(&[("b c", "bad")])).unwrap().build().is_err());
    assert!(add_headers(builder, &headers(&[("one-more", "v")])).is_none());
}
