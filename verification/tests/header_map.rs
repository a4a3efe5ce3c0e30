use headers::{HeaderMap, HeaderName, HeaderValue};
use rate_limits::{Error, HeaderStore, RateLimit, ResetTime, Vendor, Window};

fn name(text: &str) -> HeaderName {
    HeaderName::from_bytes(text.as_bytes()).unwrap()
}

fn value(text: &str) -> HeaderValue {
    HeaderValue::from_str(text).unwrap()
}

#[test]
fn header_map_gives_the_same_rate_limit_as_text() {
    let mut headers = HeaderMap::new();
    headers.insert(name("X-RATELIMIT-LIMIT"), value("5000"));
    headers.insert(name("X-RATELIMIT-REMAINING"), value("4987"));
    headers.insert(name("X-RATELIMIT-RESET"), value("1350085394"));

    let expected = RateLimit {
        limit: 5000,
        remaining: 4987,
        reset: ResetTime::DateTime(1_350_085_394),
        window: Some(Window { seconds: 3600 }),
        vendor: Vendor::Github,
    };
    assert_eq!(RateLimit::from_headers(&headers), Ok(expected));
    assert_eq!(
        RateLimit::from_str(
            "X-RATELIMIT-LIMIT: 5000\nX-RATELIMIT-REMAINING: 4987\nX-RATELIMIT-RESET: 1350085394\n"
        ),
        Ok(expected)
    );
}

#[test]
fn header_map_keeps_the_first_value_of_a_name() {
    let mut headers = HeaderMap::new();
    headers.insert(name("retry-after"), value("1"));
    headers.append(name("Retry-After"), value("2"));
    headers.insert(name("ratelimit-limit"), value("10"));
    headers.append(name("ratelimit-limit"), value("20"));

    let store = HeaderStore::from_header_map(&headers);
    assert_eq!(store.len(), 2);
    assert_eq!(store.get("Retry-After"), Some("1".as_bytes()));
    assert_eq!(store.get("RateLimit-Limit"), Some("10".as_bytes()));
    assert_eq!(store.get("ratelimit-reset"), None);
}

#[test]
fn empty_header_map() {
    let headers = HeaderMap::new();
    assert_eq!(HeaderStore::from_header_map(&headers).len(), 0);
    assert_eq!(RateLimit::from_headers(&headers), Err(Error::MissingRemaining));
}

#[test]
fn header_value_that_is_no_text_is_no_count() {
    let mut headers = HeaderMap::new();
    headers.insert(name("ratelimit-limit"), value("10"));
    headers.insert(name("ratelimit-remaining"), HeaderValue::from_bytes(&[0x31, 0xff]).unwrap());
    headers.insert(name("ratelimit-reset"), value("5"));
    assert_eq!(RateLimit::from_headers(&headers), Err(Error::InvalidCount));
}

#[test]
fn cloned_store_holds_the_same_headers() {
    let store = HeaderStore::from_str("A: 1\nB: 2\n").unwrap();
    let copy = store.clone();
    assert_eq!(copy.len(), 2);
    assert_eq!(copy.get("a"), Some("1".as_bytes()));
    assert_eq!(copy.get("b"), Some("2".as_bytes()));
    assert_eq!(RateLimit::new(copy), Err(Error::MissingRemaining));
    assert_eq!(store.len(), 2);
}
