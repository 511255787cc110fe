use puzz::body::{Body, BoxBody, StreamBody, StreamEntry};
use puzz::chunk::Bytes;
use puzz::extract::{bytes, header, param, params, stream, ExtractHeaderError, ExtractParamError};
use puzz::media::{boundary, has_content_type, is_json_content_type, MediaType, MultipartError};
use puzz::request::Request;

fn req_with_content_type(v: &str) -> Request<BoxBody> {
    Request::<BoxBody>::builder()
        .header("Content-Type", v)
        .body(BoxBody::empty())
        .unwrap()
}

#[test]
fn bytes_drains_request_payload() {
    let entries = vec![
        StreamEntry::Data(Bytes::from_vec(vec![1, 2])),
        StreamEntry::Data(Bytes::from_vec(vec![3])),
    ];
    let mut req = Request::new(StreamBody::new(entries).boxed());
    assert_eq!(bytes(&mut req).unwrap().into_vec(), vec![1, 2, 3]);
    let mut empty = Request::new(BoxBody::empty());
    assert_eq!(bytes(&mut empty).unwrap().into_vec(), Vec::<u8>::new());
}

#[test]
fn stream_takes_the_body() {
    let mut req = Request::new(BoxBody::from_bytes(Bytes::from_vec(vec![5])));
    let s = stream(&mut req);
    let mut b = s.into_inner();
    assert_eq!(puzz::body::drain(&mut b).unwrap().into_vec(), vec![5]);
    let mut rest = core::mem::take(req.body_mut());
    assert_eq!(
        puzz::body::drain(&mut rest).unwrap().into_vec(),
        Vec::<u8>::new()
    );
}

#[test]
fn header_extraction_reports_missing() {
    let req = req_with_content_type("text/plain");
    assert_eq!(header(&req, "content-type").unwrap(), "text/plain");
    match header(&req, "x-other") {
        Err(ExtractHeaderError::MissingHeader { name }) => assert_eq!(name, "x-other"),
        _ => panic!("a missing header must be reported as missing"),
    }
}

#[test]
fn param_extraction_reports_missing() {
    let req = Request::new(BoxBody::empty());
    match param(&req, "n") {
        Err(ExtractParamError::MissingParam { name }) => assert_eq!(name, "n"),
        _ => panic!("an uncaptured name must be reported as missing"),
    }
    assert!(params(&req).is_empty());
}

#[test]
fn media_type_parsing_splits_parts() {
    let m = MediaType::parse("application/vnd.api+json; charset=utf-8").unwrap();
    assert_eq!(m.type_, "application");
    assert_eq!(m.subtype, "vnd.api");
    assert_eq!(m.suffix.as_deref(), Some("json"));
    assert_eq!(m.get_param("charset").unwrap().as_str(), "utf-8");
    assert!(MediaType::parse("not a mime").is_none());
}

#[test]
fn json_content_type_detection() {
    assert!(is_json_content_type(&req_with_content_type("application/json")));
    assert!(is_json_content_type(&req_with_content_type(
        "application/vnd.api+json"
    )));
    assert!(!is_json_content_type(&req_with_content_type("text/plain")));
    assert!(!is_json_content_type(&Request::new(BoxBody::empty())));
}

#[test]
fn content_type_prefix_check() {
    let req = req_with_content_type("application/x-www-form-urlencoded; charset=utf-8");
    assert!(has_content_type(&req, "application/x-www-form-urlencoded"));
    assert!(!has_content_type(&req, "application/json"));
}

#[test]
fn multipart_boundary_extraction() {
    let req = req_with_content_type("multipart/form-data; boundary=ABC");
    assert_eq!(boundary(req.headers()).unwrap(), "ABC");
    let wrong = req_with_content_type("multipart/mixed; boundary=ABC");
    assert!(matches!(
        boundary(wrong.headers()),
        Err(MultipartError::UnsupportedContentType)
    ));
    let missing = req_with_content_type("multipart/form-data");
    assert!(matches!(
        boundary(missing.headers()),
        Err(MultipartError::UnsupportedContentType)
    ));
    let absent = Request::new(BoxBody::empty());
    assert!(matches!(
        boundary(absent.headers()),
        Err(MultipartError::UnsupportedContentType)
    ));
}
