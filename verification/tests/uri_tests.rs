use spatialbench_s3::{parse_s3_uri, s3_location_from_url, ErrorKind, S3UriError, UrlParts};

// ---- parse_s3_uri ----

#[test]
fn parse_s3_uri_valid() {
    let (bucket, path) = parse_s3_uri("s3://my-bucket/path/to/file.parquet").unwrap();
    assert_eq!(bucket, "my-bucket");
    assert_eq!(path, "path/to/file.parquet");
}

#[test]
fn parse_s3_uri_nested_path() {
    let (bucket, path) = parse_s3_uri("s3://bucket/a/b/c/d/file.parquet").unwrap();
    assert_eq!(bucket, "bucket");
    assert_eq!(path, "a/b/c/d/file.parquet");
}

#[test]
fn parse_s3_uri_no_path() {
    let (bucket, path) = parse_s3_uri("s3://bucket").unwrap();
    assert_eq!(bucket, "bucket");
    assert_eq!(path, "");
}

#[test]
fn parse_s3_uri_trailing_slash() {
    let (bucket, path) = parse_s3_uri("s3://bucket/prefix/").unwrap();
    assert_eq!(bucket, "bucket");
    assert_eq!(path, "prefix/");
}

#[test]
fn parse_s3_uri_wrong_scheme() {
    let err = parse_s3_uri("https://bucket/path").unwrap_err();
    assert_eq!(err.kind(), ErrorKind::InvalidInput);
    assert!(err.to_string().contains("Expected s3://"));
}

#[test]
fn parse_s3_uri_invalid_uri() {
    let err = parse_s3_uri("not a uri at all").unwrap_err();
    assert_eq!(err.kind(), ErrorKind::InvalidInput);
    assert!(err.to_string().contains("Invalid S3 URI"));
}

// ---- further cases ----

#[test]
fn parse_s3_uri_wrong_scheme_names_it() {
    let err = parse_s3_uri("https://bucket/path").unwrap_err();
    assert_eq!(err.to_string(), "Expected s3:// URI, got: https");
}

#[test]
fn parse_s3_uri_invalid_uri_message_carries_parser_text() {
    let err = parse_s3_uri("not a uri at all").unwrap_err();
    match &err {
        S3UriError::InvalidUri(m) => {
            assert!(!m.is_empty());
            assert_eq!(err.to_string(), format!("Invalid S3 URI: {}", m));
        }
        other => panic!("unexpected error {:?}", other),
    }
}

#[test]
fn parse_s3_uri_missing_bucket() {
    let err = parse_s3_uri("s3:no-host").unwrap_err();
    assert!(matches!(err, S3UriError::MissingBucket));
    assert_eq!(err.kind(), ErrorKind::InvalidInput);
    assert_eq!(err.to_string(), "S3 URI missing bucket name");
}

#[test]
fn parse_s3_uri_uppercase_scheme_is_s3() {
    // The URL parser lower-cases the scheme.
    let (bucket, path) = parse_s3_uri("S3://bucket/key").unwrap();
    assert_eq!(bucket, "bucket");
    assert_eq!(path, "key");
}

fn parts(scheme: &str, host: Option<&str>, path: &str) -> UrlParts {
    UrlParts {
        scheme: scheme.to_string(),
        host: host.map(|h| h.to_string()),
        path: path.to_string(),
    }
}

#[test]
fn location_strips_every_leading_slash() {
    let (bucket, key) = s3_location_from_url(Ok(parts("s3", Some("b"), "///a//b/"))).unwrap();
    assert_eq!(bucket, "b");
    assert_eq!(key, "a//b/");
}

#[test]
fn location_of_only_slashes_is_empty_key() {
    let (_, key) = s3_location_from_url(Ok(parts("s3", Some("b"), "//"))).unwrap();
    assert_eq!(key, "");
}

#[test]
fn location_keeps_key_without_slash() {
    let (_, key) = s3_location_from_url(Ok(parts("s3", Some("b"), "k/x"))).unwrap();
    assert_eq!(key, "k/x");
}

#[test]
fn location_rejects_other_scheme() {
    let err = s3_location_from_url(Ok(parts("s3a", Some("b"), "/k"))).unwrap_err();
    assert!(matches!(&err, S3UriError::WrongScheme(s) if s == "s3a"));
}

#[test]
fn location_rejects_missing_host() {
    let err = s3_location_from_url(Ok(parts("s3", None, "/k"))).unwrap_err();
    assert!(matches!(err, S3UriError::MissingBucket));
}

#[test]
fn location_reports_parse_error() {
    let err = s3_location_from_url(Err("relative URL without a base".to_string())).unwrap_err();
    assert_eq!(err.to_string(), "Invalid S3 URI: relative URL without a base");
}
