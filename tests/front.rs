use cpm::down_stream::{Buffer, Error as DownError, Headers, Opcode};
use cpm::front_end::{begin_error_status, parse_download_request, route_request, start_response, BodyItem, Phase};
use cpm::proxy_connection::Error;

fn ok(p: &str, v: &str) -> Result<(String, String), u16> {
    Ok((p.to_string(), v.to_string()))
}

#[test]
fn download_path_names_package_and_version() {
    assert_eq!(parse_download_request(Some("/api/v1/crates/foo/1.0.0/download")), ok("foo", "1.0.0"));
    assert_eq!(parse_download_request(Some("/api/v1/crates/serde_json/1.0.154/download")), ok("serde_json", "1.0.154"));
}

#[test]
fn missing_path_is_bad_request() {
    assert_eq!(parse_download_request(None), Err(400));
}

#[test]
fn query_is_bad_request() {
    assert_eq!(parse_download_request(Some("/api/v1/crates/foo/1.0.0/download?x=1")), Err(400));
    assert_eq!(parse_download_request(Some("/api/v1/crates/foo/1.0.0/download?")), Err(400));
}

#[test]
fn other_paths_are_not_found() {
    assert_eq!(parse_download_request(Some("/api/v2/crates/foo/1.0.0/download")), Err(404));
    assert_eq!(parse_download_request(Some("/api/v1/crates/foo/1.0.0/readme")), Err(404));
    assert_eq!(parse_download_request(Some("/api/v1/crates/foo/download")), Err(404));
    assert_eq!(parse_download_request(Some("/api/v1/crates/foo/1.0.0/extra/download")), Err(404));
    assert_eq!(parse_download_request(Some("/api/v1/crates/download")), Err(404));
    assert_eq!(parse_download_request(Some("/")), Err(404));
}

#[test]
fn only_get_is_served() {
    assert_eq!(route_request(false, Some("/api/v1/crates/foo/1.0.0/download")), Err(400));
    assert_eq!(route_request(true, Some("/api/v1/crates/foo/1.0.0/download")), ok("foo", "1.0.0"));
}

#[test]
fn failed_begin_is_not_found() {
    assert_eq!(begin_error_status(Error::NoUplink), 404);
    assert_eq!(begin_error_status(Error::UpLinkReset), 404);
    assert_eq!(begin_error_status(Error::NoSessionId), 404);
}

fn init(len: u64) -> Opcode {
    Opcode::Init(Headers { content_type: "application/gzip".to_string(), content_length: len })
}

fn chunk(bytes: &[u8]) -> Opcode {
    Opcode::Chunk(Buffer::from(bytes.to_vec()))
}

#[test]
fn response_starts_with_init_headers() {
    let (headers, stream) = start_response(Some(init(7))).unwrap();
    assert_eq!(headers.content_type, "application/gzip");
    assert_eq!(headers.content_length, 7);
    assert_eq!(stream.phase(), Phase::Streaming);
}

#[test]
fn response_without_init_is_internal_error() {
    assert_eq!(start_response(Some(chunk(b"x"))).err(), Some(500));
    assert_eq!(start_response(Some(Opcode::Complete(Ok(())))).err(), Some(500));
    assert_eq!(start_response(None).err(), Some(500));
}

#[test]
fn body_is_the_chunks_in_order() {
    let (_, mut stream) = start_response(Some(init(7))).unwrap();
    let mut body = Vec::new();
    for op in [chunk(b"GZIP"), chunk(b"PED"), Opcode::Complete(Ok(()))] {
        match stream.next_item(Some(op)) {
            BodyItem::Data(bytes) => body.extend(bytes),
            BodyItem::End => break,
            BodyItem::Failed => panic!("body failed"),
        }
    }
    assert_eq!(body, b"GZIPPED".to_vec());
    assert_eq!(stream.phase(), Phase::Finished);
    assert!(matches!(stream.next_item(Some(chunk(b"late"))), BodyItem::End));
}

#[test]
fn failed_download_truncates_body() {
    let (_, mut stream) = start_response(Some(init(7))).unwrap();
    assert!(matches!(stream.next_item(Some(chunk(b"GZ"))), BodyItem::Data(_)));
    assert!(matches!(stream.next_item(Some(Opcode::Complete(Err(DownError::Unspecified)))), BodyItem::Failed));
    assert_eq!(stream.phase(), Phase::Failed);
    assert!(matches!(stream.next_item(Some(chunk(b"more"))), BodyItem::Failed));
}

#[test]
fn out_of_order_or_closed_queue_truncates_body() {
    let (_, mut stream) = start_response(Some(init(7))).unwrap();
    assert!(matches!(stream.next_item(Some(init(7))), BodyItem::Failed));
    let (_, mut stream) = start_response(Some(init(7))).unwrap();
    assert!(matches!(stream.next_item(None), BodyItem::Failed));
}
