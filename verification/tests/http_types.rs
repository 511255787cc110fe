use puzz::body::BoxBody;
use puzz::chunk::Bytes;
use puzz::extract::{extension, extension_mut};
use puzz::request::Request;
use puzz::extensions::{ExtValue, Extensions};
use puzz::headers::{HeaderMap, HeaderName, HeaderValue};
use puzz::method::Method;
use puzz::params::Params;
use puzz::status::StatusCode;
use puzz::text;
use puzz::uri::Uri;
use puzz::version::Version;

#[test]
fn method_names_round_trip() {
    assert_eq!(Method::from_name("GET"), Some(Method::Get));
    assert_eq!(Method::from_name("HEAD"), Some(Method::Head));
    assert_eq!(Method::from_name("POST"), Some(Method::Post));
    assert_eq!(Method::from_name("BREW"), None);
    assert_eq!(Method::Delete.name(), "DELETE");
    assert_eq!(Method::default(), Method::Get);
}

#[test]
fn status_codes_validate() {
    assert_eq!(StatusCode::from_u16(200).unwrap().as_u16(), 200);
    assert_eq!(StatusCode::from_u16(99), None);
    assert_eq!(StatusCode::from_u16(1000), None);
    assert!(StatusCode::ok().is_success());
    assert!(!StatusCode::not_found().is_success());
    assert_eq!(StatusCode::method_not_allowed().as_u16(), 405);
    assert_eq!(StatusCode::default().as_u16(), 200);
}

#[test]
fn uri_parses_path_and_query() {
    let u = Uri::parse("/a/b?q=1").unwrap();
    assert_eq!(u.path(), "/a/b");
    assert_eq!(u.query().unwrap().as_str(), "q=1");
    let u2 = Uri::parse("/plain").unwrap();
    assert_eq!(u2.path(), "/plain");
    assert!(u2.query().is_none());
    assert!(Uri::parse("relative").is_none());
    assert!(Uri::parse("").is_none());
    assert_eq!(Uri::default().path(), "/");
}

#[test]
fn header_names_lower_and_validate() {
    let n = HeaderName::new("X-Custom-Foo").unwrap();
    assert_eq!(n.as_str(), "x-custom-foo");
    assert!(HeaderName::new("bad name").is_none());
    assert!(HeaderName::new("").is_none());
    assert!(HeaderValue::new("Bar").is_some());
    assert!(HeaderValue::new("bad\nvalue").is_none());
}

#[test]
fn header_map_keeps_order_and_case_insensitive_lookup() {
    let mut m = HeaderMap::new();
    assert!(m.is_empty());
    m.append(
        HeaderName::new("Accept").unwrap(),
        HeaderValue::new("text/plain").unwrap(),
    );
    m.append(
        HeaderName::new("accept").unwrap(),
        HeaderValue::new("text/html").unwrap(),
    );
    assert_eq!(m.len(), 2);
    assert_eq!(m.get("ACCEPT").unwrap().as_str(), "text/plain");
    m.insert(
        HeaderName::new("Accept").unwrap(),
        HeaderValue::new("only").unwrap(),
    );
    assert_eq!(m.len(), 1);
    assert_eq!(m.get("accept").unwrap().as_str(), "only");
    let removed = m.remove("Accept");
    assert_eq!(removed.unwrap().as_str(), "only");
    assert!(m.get("accept").is_none());
}

#[test]
fn extensions_store_one_value_per_key() {
    let mut ext = Extensions::new();
    assert!(ext.is_empty());
    assert_eq!(ext.len(), 0);
    assert!(ext.insert(5, ExtValue::Number(5)).is_none());
    assert!(ext.insert(4, ExtValue::Number(4)).is_none());
    match ext.insert(5, ExtValue::Number(9)) {
        Some(ExtValue::Number(5)) => {}
        _ => panic!("expected the prior value back"),
    }
    assert_eq!(ext.len(), 2);
    match ext.get(5) {
        Some(ExtValue::Number(9)) => {}
        _ => panic!("expected the new value"),
    }
    match ext.remove(5) {
        Some(ExtValue::Number(9)) => {}
        _ => panic!("expected the removed value"),
    }
    assert!(ext.get(5).is_none());
    ext.clear();
    assert!(ext.is_empty());
}

#[test]
fn params_overwrite_by_name() {
    let mut p = Params::new();
    p.insert("n".to_string(), "1".to_string());
    p.insert("m".to_string(), "2".to_string());
    p.insert("n".to_string(), "3".to_string());
    assert_eq!(p.get("n").unwrap().as_str(), "3");
    assert_eq!(p.get("m").unwrap().as_str(), "2");
    assert!(p.get("q").is_none());
}

#[test]
fn text_helpers() {
    assert_eq!(text::lower_str("AbC-9").as_str(), "abc-9");
    assert_eq!(text::u64_to_dec(0).as_str(), "0");
    assert_eq!(text::u64_to_dec(1234).as_str(), "1234");
    assert!(text::str_eq("same", "same"));
    assert!(!text::str_eq("same", "Same"));
    assert!(text::starts_with_str("text/plain; x", "text/plain"));
    assert!(!text::starts_with_str("text", "text/plain"));
    assert_eq!(text::find_char("a/b/c", '/'), Some(1));
    assert_eq!(text::find_char("abc", '/'), None);
}

#[test]
fn bytes_buffers() {
    let b = Bytes::from_vec(vec![1, 2, 3]);
    assert_eq!(b.len(), 3);
    assert!(!b.is_empty());
    let mut c = b.clone();
    c.extend_from(&Bytes::from_slice(&[4, 5]));
    assert_eq!(c.into_vec(), vec![1, 2, 3, 4, 5]);
    let _ = Version::default();
}

#[test]
fn extensions_in_place_update() {
    let mut ext = Extensions::new();
    ext.insert(3, ExtValue::Number(1));
    {
        let slot = ext.get_mut(3).unwrap();
        *slot = ExtValue::Number(2);
    }
    match ext.get(3) {
        Some(ExtValue::Number(2)) => {}
        _ => panic!("expected the updated value"),
    }
    assert!(ext.get_mut(4).is_none());
    match ext.get(3) {
        Some(ExtValue::Number(2)) => {}
        _ => panic!("a missed lookup must leave the store unchanged"),
    }
}

#[test]
fn request_builder_and_then_edits_the_head() {
    let req = Request::<BoxBody>::builder()
        .uri("/x")
        .and_then(|mut h| {
            h.method = Method::Put;
            Ok(h)
        })
        .body(BoxBody::empty())
        .unwrap();
    assert_eq!(*req.method(), Method::Put);
    assert_eq!(req.uri().path(), "/x");
}

#[test]
fn request_extension_mut_updates_in_place() {
    let mut req = Request::<BoxBody>::builder()
        .extension(9, ExtValue::Text("a".to_string()))
        .body(BoxBody::empty())
        .unwrap();
    {
        let slot = extension_mut(&mut req, 9).unwrap();
        *slot = ExtValue::Text("b".to_string());
    }
    match extension(&req, 9) {
        Some(ExtValue::Text(t)) => assert_eq!(t, "b"),
        _ => panic!("expected the updated extension"),
    }
    assert!(extension_mut(&mut req, 10).is_none());
}
