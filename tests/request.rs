use httpie::error::Error;
use httpie::kv::KvPair;
use httpie::request::{fixed_headers, parse_url, Get, Method, Post};

#[test]
fn test_parse_url() {
    assert!(parse_url("abc").is_err());
    assert!(parse_url("http://abc.xyz").is_ok());
    assert!(parse_url("https://httpbin.org/post").is_ok());
}

#[test]
fn parse_url_returns_the_input_unchanged() {
    assert_eq!(
        parse_url("HTTP://Example.COM/a/../b").unwrap(),
        "HTTP://Example.COM/a/../b"
    );
    assert_eq!(parse_url("abc"), Err(Error::InvalidUrl("abc".to_string())));
    assert_eq!(parse_url(""), Err(Error::InvalidUrl(String::new())));
    assert_eq!(
        parse_url("mailto:someone@example.com"),
        Err(Error::InvalidUrl("mailto:someone@example.com".to_string()))
    );
}

#[test]
fn get_holds_a_validated_url() {
    let g = Get::new("http://abc.xyz").unwrap();
    assert_eq!(g.url(), "http://abc.xyz");
    assert_eq!(
        Get::new("not a url").err(),
        Some(Error::InvalidUrl("not a url".to_string()))
    );
}

#[test]
fn post_reads_its_body_tokens() {
    let tokens = vec!["a=1".to_string(), "b=2".to_string(), "a=3".to_string()];
    let p = Post::new("https://httpbin.org/post", &tokens).unwrap();
    assert_eq!(p.url(), "https://httpbin.org/post");
    assert_eq!(p.body().len(), 3);
    assert_eq!(
        p.body_map(),
        vec![
            KvPair { key: "a".into(), value: "3".into() },
            KvPair { key: "b".into(), value: "2".into() },
        ]
    );
}

#[test]
fn post_validates_the_url_before_the_body() {
    let tokens = vec!["bad".to_string()];
    assert_eq!(
        Post::new("abc", &tokens).err(),
        Some(Error::InvalidUrl("abc".to_string()))
    );
}

#[test]
fn post_reports_the_first_malformed_token() {
    let tokens = vec!["a=1".to_string(), "x".to_string(), "y".to_string()];
    assert_eq!(
        Post::new("http://abc.xyz", &tokens).err(),
        Some(Error::MalformedPair("x".to_string()))
    );
}

#[test]
fn method_gives_its_url() {
    let m = Method::Get(Get::new("http://abc.xyz/get").unwrap());
    assert_eq!(m.url(), "http://abc.xyz/get");
    let m = Method::Post(Post::new("http://abc.xyz/post", &Vec::new()).unwrap());
    assert_eq!(m.url(), "http://abc.xyz/post");
}

#[test]
fn test_unwrap_or_default() {
    let good_year_from_input = "1909";
    let bad_year_from_input = "190blarg";
    let good_year: u32 = good_year_from_input.parse().unwrap_or_default();
    let bad_year: u32 = bad_year_from_input.parse().unwrap_or_default();

    assert_eq!(1909, good_year);
    assert_eq!(0, bad_year);
}

#[test]
fn every_request_names_the_client() {
    assert_eq!(
        fixed_headers(),
        vec![
            ("X-POWERED-BY".to_string(), "Rust".to_string()),
            ("User-Agent".to_string(), "Rust Httpie".to_string()),
        ]
    );
}

#[test]
fn url_without_host_is_rejected() {
    assert!(parse_url("data:text/plain,hi").is_err());
    assert!(parse_url("file:///tmp/x").is_err());
    assert!(parse_url("http://localhost:8080/x").is_ok());
}
