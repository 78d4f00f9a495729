use cpm::down_stream::{Error as DownError, Headers, Opcode};
use cpm::up_stream::Request;
use cpm::worker::{
    download_uri, headers_from, parse_u64, request_uri, DownloadError, DownloadStream, HeaderKind, Hop, LogLevel,
    RedirectChaser, ReconnectPolicy, StreamPhase, DEFAULT_BASE_URL, MAX_REDIRECTS,
};

#[test]
fn download_url_is_built_under_base() {
    assert_eq!(
        download_uri(DEFAULT_BASE_URL, "foo", "1.0.0"),
        "https://crates.io/api/v1/crates/foo/1.0.0/download"
    );
    assert_eq!(download_uri("http://up", "a", "b"), "http://up/a/b/download");
}

#[test]
fn request_uri_parses_the_url() {
    let req = Request { session_id: 1, package: "foo".to_string(), version: "1.0.0".to_string() };
    let uri = request_uri(DEFAULT_BASE_URL, &req).unwrap();
    assert_eq!(uri.to_string(), "https://crates.io/api/v1/crates/foo/1.0.0/download");
    assert_eq!(uri.host(), Some("crates.io"));
    let bad = Request { session_id: 1, package: "f o".to_string(), version: "1".to_string() };
    assert!(request_uri(DEFAULT_BASE_URL, &bad).is_none());
}

#[test]
fn success_is_fetched() {
    let mut chaser = RedirectChaser::new();
    assert!(matches!(chaser.on_response(200, None), Hop::Fetched));
    assert!(matches!(chaser.on_response(204, Some("ignored")), Hop::Fetched));
}

#[test]
fn other_status_is_not_available() {
    let mut chaser = RedirectChaser::new();
    assert!(matches!(chaser.on_response(404, None), Hop::Fail(DownloadError::NotAvailable(404))));
    assert!(matches!(chaser.on_response(500, Some("http://x/")), Hop::Fail(DownloadError::NotAvailable(500))));
    assert!(matches!(chaser.on_response(101, None), Hop::Fail(DownloadError::NotAvailable(101))));
}

#[test]
fn redirect_follows_location() {
    let mut chaser = RedirectChaser::new();
    match chaser.on_response(302, Some("https://static.crates.io/crates/foo/foo-1.0.0.crate")) {
        Hop::Follow(uri) => {
            assert_eq!(uri.to_string(), "https://static.crates.io/crates/foo/foo-1.0.0.crate");
            assert_eq!(uri.host(), Some("static.crates.io"));
        }
        _ => panic!("expected a redirect"),
    }
}

#[test]
fn redirect_without_usable_location_is_bad() {
    let mut chaser = RedirectChaser::new();
    assert!(matches!(chaser.on_response(302, None), Hop::Fail(DownloadError::BadRedirect)));
    assert!(matches!(chaser.on_response(301, Some("http://exa mple/")), Hop::Fail(DownloadError::BadRedirect)));
}

#[test]
fn redirects_are_bounded() {
    let mut chaser = RedirectChaser::new();
    for _ in 0..MAX_REDIRECTS {
        assert!(matches!(chaser.on_response(307, Some("http://next/")), Hop::Follow(_)));
    }
    assert!(matches!(chaser.on_response(307, Some("http://next/")), Hop::Fail(DownloadError::TooManyRedirects)));
    assert!(matches!(chaser.on_response(200, None), Hop::Fetched));
}

#[test]
fn content_length_reads_as_from_str() {
    assert_eq!(parse_u64("7"), Some(7));
    assert_eq!(parse_u64("+7"), Some(7));
    assert_eq!(parse_u64("007"), Some(7));
    assert_eq!(parse_u64("18446744073709551615"), Some(u64::MAX));
    assert_eq!(parse_u64("18446744073709551616"), None);
    assert_eq!(parse_u64(""), None);
    assert_eq!(parse_u64("+"), None);
    assert_eq!(parse_u64("-1"), None);
    assert_eq!(parse_u64("12a"), None);
    assert_eq!(parse_u64(" 1"), None);
}

#[test]
fn headers_need_type_and_length() {
    let h = headers_from(Some("application/gzip"), Some("7")).unwrap();
    assert_eq!(h.content_type, "application/gzip");
    assert_eq!(h.content_length, 7);
    assert!(matches!(
        headers_from(None, Some("7")),
        Err(DownloadError::BadOrMissingHeader(HeaderKind::ContentType))
    ));
    assert!(matches!(
        headers_from(Some("application/gzip"), None),
        Err(DownloadError::BadOrMissingHeader(HeaderKind::ContentLength))
    ));
    assert!(matches!(
        headers_from(Some("application/gzip"), Some("seven")),
        Err(DownloadError::BadOrMissingHeader(HeaderKind::ContentLength))
    ));
}

#[test]
fn download_sends_init_chunks_complete() {
    let mut stream = DownloadStream::new(1);
    let headers = Headers { content_type: "application/gzip".to_string(), content_length: 7 };
    let m = stream.init(headers).unwrap();
    assert_eq!(m.session_id, 1);
    assert!(matches!(m.opcode, Opcode::Init(ref h) if h.content_length == 7));
    let m = stream.chunk(b"GZIPPED".to_vec()).unwrap();
    assert!(matches!(m.opcode, Opcode::Chunk(ref b) if b.as_slice() == b"GZIPPED"));
    let m = stream.succeed().unwrap();
    assert_eq!(m.session_id, 1);
    assert!(matches!(m.opcode, Opcode::Complete(Ok(()))));
    assert_eq!(stream.phase(), StreamPhase::Done);
    assert!(stream.chunk(b"late".to_vec()).is_none());
    assert!(stream.fail().is_none());
}

#[test]
fn download_refuses_out_of_order_opcodes() {
    let mut stream = DownloadStream::new(5);
    assert!(stream.chunk(b"early".to_vec()).is_none());
    assert!(stream.succeed().is_none());
    let headers = Headers { content_type: "t".to_string(), content_length: 0 };
    assert!(stream.init(headers.clone()).is_some());
    assert!(stream.init(headers).is_none());
}

#[test]
fn failure_before_headers_sends_only_complete_err() {
    let mut stream = DownloadStream::new(9);
    let m = stream.fail().unwrap();
    assert_eq!(m.session_id, 9);
    assert!(matches!(m.opcode, Opcode::Complete(Err(DownError::Unspecified))));
    let headers = Headers { content_type: "t".to_string(), content_length: 0 };
    assert!(stream.init(headers).is_none());
}

#[test]
fn reconnect_failures_are_reported_once() {
    let mut policy = ReconnectPolicy::new();
    assert_eq!(policy.on_failure(false), LogLevel::Error);
    assert_eq!(policy.on_failure(false), LogLevel::Debug);
    assert_eq!(policy.on_failure(false), LogLevel::Debug);
    assert_eq!(policy.on_failure(true), LogLevel::Error);
    assert_eq!(policy.on_failure(false), LogLevel::Debug);
    policy.on_connected();
    assert_eq!(policy.on_failure(false), LogLevel::Error);
}
