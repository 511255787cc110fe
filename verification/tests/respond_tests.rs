use puzz::body::drain;
use puzz::chunk::Bytes;
use puzz::headers::{HeaderMap, HeaderName, HeaderValue};
use puzz::html::html;
use puzz::respond::IntoResponse;
use puzz::status::StatusCode;

fn body_bytes(res: puzz::response::Response<puzz::body::BoxBody>) -> Vec<u8> {
    let mut b = res.into_body();
    drain(&mut b).unwrap().into_vec()
}

#[test]
fn str_conversion_sets_text_content_type() {
    let res = "hi".into_response();
    assert_eq!(res.status().as_u16(), 200);
    assert_eq!(
        res.headers().get("content-type").unwrap().as_str(),
        "text/plain; charset=utf-8"
    );
    assert_eq!(body_bytes(res), b"hi".to_vec());
}

#[test]
fn byte_conversion_sets_octet_stream() {
    let res = vec![1u8, 2].into_response();
    assert_eq!(
        res.headers().get("content-type").unwrap().as_str(),
        "application/octet-stream"
    );
    assert_eq!(body_bytes(res), vec![1, 2]);
    let res = Bytes::from_vec(vec![9]).into_response();
    assert_eq!(body_bytes(res), vec![9]);
}

#[test]
fn unit_and_status_conversions() {
    let res = ().into_response();
    assert_eq!(res.status().as_u16(), 200);
    assert!(res.headers().is_empty());
    assert_eq!(body_bytes(res), Vec::<u8>::new());

    let res = StatusCode::from_u16(418).unwrap().into_response();
    assert_eq!(res.status().as_u16(), 418);
    assert_eq!(body_bytes(res), Vec::<u8>::new());
}

#[test]
fn header_map_conversion_keeps_headers() {
    let mut hm = HeaderMap::new();
    hm.append(
        HeaderName::new("x").unwrap(),
        HeaderValue::new("y").unwrap(),
    );
    let res = hm.into_response();
    assert_eq!(res.status().as_u16(), 200);
    assert_eq!(res.headers().get("x").unwrap().as_str(), "y");
}

#[test]
fn tuple_precedence_status_headers_body() {
    let mut hm = HeaderMap::new();
    hm.append(
        HeaderName::new("x").unwrap(),
        HeaderValue::new("y").unwrap(),
    );
    let res = (StatusCode::from_u16(201).unwrap(), hm, "hi").into_response();
    assert_eq!(res.status().as_u16(), 201);
    assert_eq!(
        res.headers().get("content-type").unwrap().as_str(),
        "text/plain; charset=utf-8"
    );
    assert_eq!(res.headers().get("x").unwrap().as_str(), "y");
    assert_eq!(res.headers().len(), 2);
    assert_eq!(body_bytes(res), b"hi".to_vec());
}

#[test]
fn status_over_inner_overrides() {
    let res = (StatusCode::from_u16(404).unwrap(), "gone").into_response();
    assert_eq!(res.status().as_u16(), 404);
    assert_eq!(body_bytes(res), b"gone".to_vec());
}

#[test]
fn html_sets_html_content_type() {
    let res = html("<p>x</p>").into_response();
    assert_eq!(
        res.headers().get("content-type").unwrap().as_str(),
        "text/html; charset=utf-8"
    );
    assert_eq!(body_bytes(res), b"<p>x</p>".to_vec());
}
