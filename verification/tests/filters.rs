use config_crap::filters::{parse_datetime, reformat_date, reformat_datetime, url_parts, DateError, UrlError};

#[test]
fn test_url_filter() {
    let parts = url_parts("https://c10.patreonusercontent.com/4/patreon-media/p/post/138623176/d1c5cffe4e66445db23aef91a7f70588/eyJhIjoxLCJwIjoxfQ%3D%3D/1.zip?token-hash=N1hzj4BpkAEaWRHSoXJdS3_RvqXtDTFMPvMCiHB5G_M%3D&token-time=1757894400").unwrap();
    assert_eq!(parts.host.as_deref(), Some("c10.patreonusercontent.com"));
}

#[test]
fn url_parts_are_taken_apart() {
    let p = url_parts("https://user:pw@example.com:8080/a/b?x=1&y=two#frag").unwrap();
    assert_eq!(p.scheme, "https");
    assert_eq!(p.username, "user");
    assert_eq!(p.password.as_deref(), Some("pw"));
    assert_eq!(p.host.as_deref(), Some("example.com"));
    assert_eq!(p.domain.as_deref(), Some("example.com"));
    assert_eq!(p.port, Some(8080));
    assert_eq!(p.authority, "user:pw@example.com:8080");
    assert_eq!(p.path, "/a/b");
    assert_eq!(p.path_parts, Some(vec!["a".to_string(), "b".to_string()]));
    assert_eq!(p.query.as_deref(), Some("x=1&y=two"));
    assert_eq!(p.fragment.as_deref(), Some("frag"));
    assert_eq!(p.query_pairs, vec![("x".to_string(), "1".to_string()), ("y".to_string(), "two".to_string())]);
}

#[test]
fn a_text_that_is_no_url_is_refused() {
    assert!(matches!(url_parts("not a url"), Err(UrlError::Invalid(_))));
}

#[test]
fn test_reformat_datetime() {
    assert_eq!(reformat_date("250911", "%y%m%d", "%Y-%m").unwrap(), "2025-09");
}

#[test]
fn timestamps_are_read_into_fields() {
    let f = parse_datetime("2024-02-29 13:45:07", "%Y-%m-%d %H:%M:%S").unwrap();
    assert_eq!((f.year, f.month, f.day, f.hour, f.minute, f.second, f.nanos), (2024, 2, 29, 13, 45, 7, 0));
    assert!(matches!(parse_datetime("2024-02-30 13:45:07", "%Y-%m-%d %H:%M:%S"), Err(DateError::Unparsed(_))));
    assert!(matches!(parse_datetime("x", "%Q"), Err(DateError::Unparsed(_))));
}

#[test]
fn timestamps_are_rewritten_with_errors_in_order() {
    assert_eq!(reformat_datetime("2024-02-29 13:45", "%Y-%m-%d %H:%M", "%d/%m/%Y %Hh").unwrap(), "29/02/2024 13h");
    assert!(matches!(reformat_datetime("junk", "%Q", "%Q"), Err(DateError::Unparsed(_))));
    assert!(matches!(reformat_datetime("2024-02-29 13:45", "%Y-%m-%d %H:%M", "%Q"), Err(DateError::WriteFailed)));
    assert!(matches!(reformat_datetime("junk", "%Y-%m-%d %H:%M", "%Y"), Err(DateError::Unparsed(_))));
    assert!(matches!(reformat_date("2025-13-01", "%Y-%m-%d", "%Y"), Err(DateError::Unparsed(_))));
}
