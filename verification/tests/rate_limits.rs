use headers::HeaderValue;
use rate_limits::convert::to_usize;
use rate_limits::text::{eq_ignore_case, find_byte, trim_range};
use rate_limits::variants::{find_header, rate_limit_variants};
use rate_limits::types::HeaderField;
use rate_limits::{
    Error, HeaderStore, Limit, RateLimit, Remaining, ResetTime, ResetTimeKind, Used, Vendor,
    Window,
};
use time::{Date, Month, OffsetDateTime};

fn store(text: &str) -> HeaderStore {
    HeaderStore::from_str(text).unwrap()
}

#[test]
fn parse_limit_value() {
    let limit = Limit::new("  23 ").unwrap();
    assert_eq!(limit.count, 23);
}

#[test]
fn parse_invalid_limit_value() {
    assert!(Limit::new("foo").is_err());
    assert!(Limit::new("0 foo").is_err());
    assert!(Limit::new("bar 0").is_err());
}

#[test]
fn parse_vendor() {
    let map = HeaderStore::from_str("x-ratelimit-limit: 5000").unwrap();
    let (_, variant) = RateLimit::get_rate_limit_header(&map).unwrap();
    assert_eq!(variant.vendor, Vendor::Github);

    let map = HeaderStore::from_str("RateLimit-Limit: 5000").unwrap();
    let (_, variant) = RateLimit::get_rate_limit_header(&map).unwrap();
    assert_eq!(variant.vendor, Vendor::Standard);
}

#[test]
fn parse_retry_after() {
    let map = HeaderStore::from_str("Retry-After: 30").unwrap();
    let retry = RateLimit::get_retry_after_header(&map).unwrap();

    assert_eq!("30".as_bytes(), retry);
}

#[test]
fn parse_remaining_value() {
    let remaining = Remaining::new("  23 ").unwrap();
    assert_eq!(remaining.count, 23);
}

#[test]
fn parse_invalid_remaining_value() {
    assert!(Remaining::new("foo").is_err());
    assert!(Remaining::new("0 foo").is_err());
    assert!(Remaining::new("bar 0").is_err());
}

#[test]
fn parse_reset_timestamp() {
    let v = HeaderValue::from_str("1350085394").unwrap();
    assert_eq!(
        ResetTime::new(v.as_bytes(), ResetTimeKind::Timestamp).unwrap(),
        ResetTime::DateTime(
            OffsetDateTime::from_unix_timestamp(1_350_085_394)
                .unwrap()
                .unix_timestamp()
        )
    );
}

#[test]
fn parse_reset_seconds() {
    let v = HeaderValue::from_str("100").unwrap();
    assert_eq!(
        ResetTime::new(v.as_bytes(), ResetTimeKind::Seconds).unwrap(),
        ResetTime::Seconds(100)
    );
}

#[test]
fn parse_reset_datetime() {
    let v = HeaderValue::from_str("Tue, 15 Nov 1994 08:12:31 GMT").unwrap();
    let d = ResetTime::new(v.as_bytes(), ResetTimeKind::ImfFixdate);
    let expected = Date::from_calendar_date(1994, Month::November, 15)
        .unwrap()
        .with_hms(8, 12, 31)
        .unwrap()
        .assume_utc();
    assert_eq!(d.unwrap(), ResetTime::DateTime(expected.unix_timestamp()));
    assert_eq!(d.unwrap(), ResetTime::DateTime(784_887_151));
}

#[test]
fn parse_header_map_newlines() {
    let map = HeaderStore::from_str(
        "x-ratelimit-limit: 5000
x-ratelimit-remaining: 4987
x-ratelimit-reset: 1350085394
",
    )
    .unwrap();

    assert_eq!(map.len(), 3);
    assert_eq!(
        map.get("x-ratelimit-limit"),
        Some(HeaderValue::from_str("5000").unwrap().as_bytes())
    );
    assert_eq!(
        map.get("x-ratelimit-remaining"),
        Some(HeaderValue::from_str("4987").unwrap().as_bytes())
    );
    assert_eq!(
        map.get("x-ratelimit-reset"),
        Some(HeaderValue::from_str("1350085394").unwrap().as_bytes())
    );
}

#[test]
fn parse_github_headers() {
    let headers = "x-ratelimit-limit: 5000
x-ratelimit-remaining: 4987
x-ratelimit-reset: 1350085394
";

    let rate = RateLimit::from_str(headers).unwrap();
    assert_eq!(rate.limit(), 5000);
    assert_eq!(rate.remaining(), 4987);
    assert_eq!(
        rate.reset(),
        ResetTime::DateTime(
            OffsetDateTime::from_unix_timestamp(1_350_085_394)
                .unwrap()
                .unix_timestamp()
        )
    );
}

#[test]
fn parse_reddit_headers() {
    let headers = "X-Ratelimit-Used: 100
X-Ratelimit-Remaining: 22
X-Ratelimit-Reset: 30
";

    let rate = RateLimit::from_str(headers).unwrap();
    assert_eq!(rate.limit(), 122);
    assert_eq!(rate.remaining(), 22);
    // The names match the hourly convention, whose reset is a timestamp.
    assert_eq!(rate.reset(), ResetTime::DateTime(30));
}

#[test]
fn parse_gitlab_headers() {
    let headers = "    RateLimit-Limit: 60
    RateLimit-Observed: 67
    RateLimit-Remaining: 0
    RateLimit-Reset: 1609844400 
";

    let rate = RateLimit::from_str(headers).unwrap();
    assert_eq!(rate.limit(), 60);
    assert_eq!(rate.remaining(), 0);
    // The names match the draft's headers, whose reset counts seconds.
    assert_eq!(rate.reset(), ResetTime::Seconds(1_609_844_400));
}

#[test]
fn retry_after_takes_precedence_over_reset() {
    let headers = "X-Ratelimit-Used: 100
X-Ratelimit-Remaining: 22
X-Ratelimit-Reset: 30
Retry-After: 20
";

    let rate = RateLimit::from_str(headers).unwrap();
    assert_eq!(rate.limit(), 122);
    assert_eq!(rate.remaining(), 22);
    assert_eq!(rate.reset(), ResetTime::Seconds(20));
}

#[test]
fn standard_headers_give_seconds_and_no_window() {
    let rate = RateLimit::from_str(
        "RateLimit-Limit: 5000\nRatelimit-Remaining: 4987\nRatelimit-Reset: 1350085394\n",
    )
    .unwrap();
    assert_eq!(
        rate,
        RateLimit {
            limit: 5000,
            remaining: 4987,
            reset: ResetTime::Seconds(1_350_085_394),
            window: None,
            vendor: Vendor::Standard,
        }
    );
}

#[test]
fn hourly_headers_give_instant_and_hour_window() {
    let rate = RateLimit::from_str(
        "x-ratelimit-limit: 5000\nx-ratelimit-remaining: 4987\nx-ratelimit-reset: 1350085394\n",
    )
    .unwrap();
    assert_eq!(
        rate,
        RateLimit {
            limit: 5000,
            remaining: 4987,
            reset: ResetTime::DateTime(1_350_085_394),
            window: Some(Window { seconds: 3600 }),
            vendor: Vendor::Github,
        }
    );
}

#[test]
fn used_header_derives_limit() {
    let rate = RateLimit::from_str(
        "X-Ratelimit-Used: 100\nX-Ratelimit-Remaining: 22\nX-Ratelimit-Reset: 30\n",
    )
    .unwrap();
    assert_eq!(
        rate,
        RateLimit {
            limit: 122,
            remaining: 22,
            reset: ResetTime::DateTime(30),
            window: Some(Window { seconds: 3600 }),
            vendor: Vendor::Github,
        }
    );
}

#[test]
fn retry_after_overrides_any_vendor() {
    let rate = RateLimit::from_str(
        "x-rate-limit-limit: 15\nx-rate-limit-remaining: 3\nx-rate-limit-reset: 1350085394\nretry-after: 7\n",
    )
    .unwrap();
    assert_eq!(
        rate,
        RateLimit {
            limit: 15,
            remaining: 3,
            reset: ResetTime::Seconds(7),
            window: Some(Window { seconds: 900 }),
            vendor: Vendor::Twitter,
        }
    );
}

#[test]
fn retry_after_stands_in_for_a_missing_reset() {
    let rate = RateLimit::from_str("RateLimit-Limit: 2\nRatelimit-Remaining: 1\nRetry-After: 9\n");
    assert_eq!(rate.unwrap().reset(), ResetTime::Seconds(9));
}

#[test]
fn lookup_ignores_case() {
    let map = store("X-RateLimit-Limit: 5000");
    let expected = Some("5000".as_bytes());
    assert_eq!(map.get("x-ratelimit-limit"), expected);
    assert_eq!(map.get("X-RATELIMIT-LIMIT"), expected);
    assert_eq!(map.get("X-RateLimit-Limit"), expected);
    assert_eq!(map.get_bytes(b"x-RATELIMIT-limit"), expected);
    assert_eq!(map.get("x-ratelimit-limi"), None);
    assert_eq!(map.get("x_ratelimit-limit"), None);
}

#[test]
fn first_occurrence_wins() {
    let map = store("Retry-After: 1\nretry-after: 2\nRETRY-AFTER: 3\n");
    assert_eq!(map.len(), 1);
    assert_eq!(map.get("Retry-After"), Some("1".as_bytes()));

    let mut map = HeaderStore::new();
    assert!(map.insert(b"Name".to_vec(), b"a".to_vec()));
    assert!(!map.insert(b"NAME".to_vec(), b"b".to_vec()));
    assert!(map.insert(b"Other".to_vec(), b"c".to_vec()));
    assert_eq!(map.len(), 2);
    assert_eq!(map.get("name"), Some("a".as_bytes()));
    assert_eq!(map.get("other"), Some("c".as_bytes()));
}

#[test]
fn limit_header_is_preferred_to_used_header() {
    let rate = RateLimit::from_str(
        "x-ratelimit-used: 100\nx-ratelimit-limit: 5000\nx-ratelimit-remaining: 22\nx-ratelimit-reset: 30\n",
    )
    .unwrap();
    assert_eq!(rate.limit(), 5000);
    assert_eq!(rate.remaining(), 22);
}

#[test]
fn vendor_of_limit_is_reported_for_mixed_headers() {
    let rate = RateLimit::from_str(
        "x-rate-limit-limit: 10\nx-ratelimit-remaining: 4\nRatelimit-Reset: 5\n",
    )
    .unwrap();
    assert_eq!(
        rate,
        RateLimit {
            limit: 10,
            remaining: 4,
            reset: ResetTime::Seconds(5),
            window: Some(Window { seconds: 900 }),
            vendor: Vendor::Twitter,
        }
    );
}

#[test]
fn registry_order_breaks_ties() {
    // Every limit header name but one folds to the same text; the draft's
    // convention stands first.
    let map = store("X-RateLimit-Limit: 1\nRateLimit-Limit: 2\n");
    let (value, variant) = RateLimit::get_rate_limit_header(&map).unwrap();
    assert_eq!(value, b"2");
    assert_eq!(variant.vendor, Vendor::Standard);

    let map = store("X-RateLimit-Reset: 1\n");
    let (value, kind) = RateLimit::get_reset_header(&map).unwrap();
    assert_eq!(value, b"1");
    assert_eq!(kind, ResetTimeKind::Timestamp);
}

#[test]
fn registry_holds_the_four_conventions() {
    let variants = rate_limit_variants();
    assert_eq!(variants.len(), 4);
    assert_eq!(variants[0].vendor, Vendor::Standard);
    assert_eq!(variants[0].duration, None);
    assert_eq!(variants[0].limit_header, Some("RateLimit-Limit"));
    assert_eq!(variants[0].used_header, None);
    assert_eq!(variants[0].reset_kind, ResetTimeKind::Seconds);
    assert_eq!(variants[1].vendor, Vendor::Github);
    assert_eq!(variants[1].used_header, Some("x-ratelimit-used"));
    assert_eq!(variants[1].duration, Some(Window { seconds: 3600 }));
    assert_eq!(variants[2].vendor, Vendor::Twitter);
    assert_eq!(variants[2].remaining_header, "x-rate-limit-remaining");
    assert_eq!(variants[2].duration, Some(Window { seconds: 900 }));
    assert_eq!(variants[3].vendor, Vendor::Vimeo);
    assert_eq!(variants[3].reset_header, "X-RateLimit-Reset");
    assert_eq!(variants[3].duration, Some(Window { seconds: 60 }));
    assert_eq!(variants[3].reset_kind, ResetTimeKind::ImfFixdate);
    assert_eq!(variants[3].header(HeaderField::Used), None);
    assert_eq!(variants[1].header(HeaderField::Remaining), Some("x-ratelimit-remaining"));
}

#[test]
fn find_header_takes_the_given_order() {
    let map = store("x-rate-limit-remaining: 8\n");
    let variants = rate_limit_variants();
    let (variant, value) = find_header(&map, &variants, HeaderField::Remaining).unwrap();
    assert_eq!(variant.vendor, Vendor::Twitter);
    assert_eq!(value, b"8");
    assert!(find_header(&map, &variants, HeaderField::Limit).is_none());
    assert!(find_header(&map, &Vec::new(), HeaderField::Remaining).is_none());
}

#[test]
fn counts_are_plain_decimal_numbers() {
    assert_eq!(to_usize(b"0"), Ok(0));
    assert_eq!(to_usize(b"007"), Ok(7));
    assert_eq!(to_usize(b"\t 4987\r\n"), Ok(4987));
    assert_eq!(to_usize(b"18446744073709551615"), Ok(18_446_744_073_709_551_615));
    assert_eq!(to_usize(b"18446744073709551616"), Err(Error::InvalidCount));
    assert_eq!(to_usize(b"99999999999999999999999"), Err(Error::InvalidCount));
    assert_eq!(to_usize(b""), Err(Error::InvalidCount));
    assert_eq!(to_usize(b"   "), Err(Error::InvalidCount));
    assert_eq!(to_usize(b"1 2"), Err(Error::InvalidCount));
    assert_eq!(to_usize(b"12a"), Err(Error::InvalidCount));
    assert_eq!(to_usize(b"-1"), Err(Error::InvalidCount));
    assert_eq!(to_usize(b"+1"), Err(Error::InvalidCount));
    assert_eq!(to_usize(b"1.5"), Err(Error::InvalidCount));
    assert_eq!(Used::new(" 100 "), Ok(Used { count: 100 }));
    assert_eq!(Limit::new("x"), Err(Error::InvalidCount));
    assert_eq!(Remaining::new("4 2"), Err(Error::InvalidCount));
}

#[test]
fn text_helpers() {
    assert!(eq_ignore_case(b"Retry-After", b"rETRY-aFTER"));
    assert!(!eq_ignore_case(b"Retry-After", b"Retry_After"));
    assert!(!eq_ignore_case(b"abc", b"abcd"));
    assert!(!eq_ignore_case(b"[", b"{"));
    assert!(!eq_ignore_case(b"@", b"`"));
    assert_eq!(find_byte(b"a:b:c", 0, 5, b':'), 1);
    assert_eq!(find_byte(b"a:b:c", 2, 5, b':'), 3);
    assert_eq!(find_byte(b"a:b:c", 4, 5, b':'), 5);
    assert_eq!(trim_range(b"  ab c \t", 0, 8), (2, 6));
    assert_eq!(trim_range(b"  ab c \t", 3, 6), (3, 6));
    assert_eq!(trim_range(b"   ", 0, 3), (3, 3));
}

#[test]
fn raw_text_lines() {
    let map = store("\r\n  Name :  some value: with colon \r\n\n\nEmpty:\n");
    assert_eq!(map.len(), 2);
    assert_eq!(map.get("name"), Some("some value: with colon".as_bytes()));
    assert_eq!(map.get("empty"), Some("".as_bytes()));
    assert_eq!(HeaderStore::from_str("").unwrap().len(), 0);
    assert_eq!(HeaderStore::from_raw(b"a: 1").unwrap().len(), 1);
}

#[test]
fn line_without_colon_is_malformed() {
    assert_eq!(
        HeaderStore::from_str("x-ratelimit-limit 5000").err(),
        Some(Error::MalformedHeader)
    );
    assert_eq!(
        RateLimit::from_str("x-ratelimit-limit: 5000\nnonsense\n"),
        Err(Error::MalformedHeader)
    );
}

#[test]
fn missing_headers() {
    assert_eq!(RateLimit::from_str(""), Err(Error::MissingRemaining));
    assert_eq!(
        RateLimit::from_str("x-ratelimit-limit: 5\nx-ratelimit-reset: 1\n"),
        Err(Error::MissingRemaining)
    );
    assert_eq!(
        RateLimit::from_str("x-ratelimit-remaining: 5\nx-ratelimit-reset: 1\n"),
        Err(Error::MissingUsed)
    );
    // No reset header: reported like a missing remaining header.
    assert_eq!(
        RateLimit::from_str("x-ratelimit-remaining: 5\nx-ratelimit-limit: 6\n"),
        Err(Error::MissingRemaining)
    );
    let empty = HeaderStore::new();
    assert_eq!(RateLimit::get_rate_limit_header(&empty).err(), Some(Error::MissingLimit));
    assert_eq!(RateLimit::get_used_header(&empty).err(), Some(Error::MissingUsed));
    assert_eq!(RateLimit::get_remaining_header(&empty).err(), Some(Error::MissingRemaining));
    assert_eq!(RateLimit::get_reset_header(&empty).err(), Some(Error::MissingRemaining));
    assert_eq!(RateLimit::get_retry_after_header(&empty), None);
}

#[test]
fn invalid_counts() {
    assert_eq!(
        RateLimit::from_str("x-ratelimit-remaining: five\nx-ratelimit-limit: 6\nx-ratelimit-reset: 1\n"),
        Err(Error::InvalidCount)
    );
    assert_eq!(
        RateLimit::from_str("x-ratelimit-remaining: 5\nx-ratelimit-limit: 6 7\nx-ratelimit-reset: 1\n"),
        Err(Error::InvalidCount)
    );
    assert_eq!(
        RateLimit::from_str("x-ratelimit-remaining: 5\nx-ratelimit-limit: 6\nRetry-After: soon\n"),
        Err(Error::InvalidCount)
    );
    assert_eq!(
        RateLimit::from_str(
            "x-ratelimit-remaining: 1\nx-ratelimit-used: 18446744073709551615\nx-ratelimit-reset: 1\n"
        ),
        Err(Error::InvalidCount)
    );
    assert_eq!(
        RateLimit::from_str(
            "x-ratelimit-remaining: 0\nx-ratelimit-used: 18446744073709551615\nx-ratelimit-reset: 1\n"
        )
        .unwrap()
        .limit(),
        18_446_744_073_709_551_615
    );
}

#[test]
fn timestamps_out_of_range() {
    assert_eq!(
        ResetTime::new(b"253402300799", ResetTimeKind::Timestamp),
        Ok(ResetTime::DateTime(253_402_300_799))
    );
    assert_eq!(
        ResetTime::new(b"253402300800", ResetTimeKind::Timestamp),
        Err(Error::InvalidTimestamp)
    );
    assert_eq!(
        ResetTime::new(b"9223372036854775808", ResetTimeKind::Timestamp),
        Err(Error::InvalidTimestamp)
    );
    assert_eq!(ResetTime::new(b"0", ResetTimeKind::Timestamp), Ok(ResetTime::DateTime(0)));
    assert_eq!(ResetTime::new(b"-1", ResetTimeKind::Timestamp), Err(Error::InvalidCount));
    assert_eq!(ResetTime::new(b"x", ResetTimeKind::Seconds), Err(Error::InvalidCount));
    assert_eq!(ResetTime::from_timestamp(5, true), Ok(ResetTime::DateTime(5)));
    assert_eq!(ResetTime::from_timestamp(5, false), Err(Error::InvalidTimestamp));
    assert_eq!(ResetTime::from_seconds(5), ResetTime::Seconds(5));
}

#[test]
fn malformed_dates() {
    assert_eq!(
        ResetTime::new(b"Tue, 15 Nov 1994 08:12:31", ResetTimeKind::ImfFixdate),
        Err(Error::InvalidDate)
    );
    assert_eq!(
        ResetTime::new(b"1994-11-15T08:12:31Z", ResetTimeKind::ImfFixdate),
        Err(Error::InvalidDate)
    );
    assert_eq!(
        ResetTime::new(b"Tue, 15 Nov 1994 08:12:31 GMT ", ResetTimeKind::ImfFixdate),
        Err(Error::InvalidDate)
    );
    assert_eq!(ResetTime::new(b"784887151", ResetTimeKind::ImfFixdate), Err(Error::InvalidDate));
    assert_eq!(ResetTime::new(b"", ResetTimeKind::ImfFixdate), Err(Error::InvalidDate));
    assert_eq!(
        ResetTime::new(&[0xff, 0xfe], ResetTimeKind::ImfFixdate),
        Err(Error::InvalidDate)
    );
    assert_eq!(ResetTime::from_parsed_date(None), Err(Error::InvalidDate));
    assert_eq!(ResetTime::from_parsed_date(Some(9)), Ok(ResetTime::DateTime(9)));
}

#[test]
fn valid_dates() {
    assert_eq!(
        ResetTime::new(b"Thu, 01 Jan 1970 00:00:00 GMT", ResetTimeKind::ImfFixdate),
        Ok(ResetTime::DateTime(0))
    );
    assert_eq!(
        ResetTime::new(b"Sun, 06 Nov 1994 08:49:37 GMT", ResetTimeKind::ImfFixdate),
        Ok(ResetTime::DateTime(784_111_777))
    );
}

#[test]
fn limit_from_count() {
    assert_eq!(Limit::from(122).count, 122);
    assert_eq!(Limit::from(0), Limit { count: 0 });
}
