use puzz::body::{drain, Body, BodyExt, BodyPoll, BoxBody, MapErr, SizeHint, StreamBody, StreamEntry};
use puzz::chunk::Bytes;
use puzz::error::BodyError;
use puzz::request::Request;

fn collect(body: &mut BoxBody) -> Vec<u8> {
    drain(body).unwrap().into_vec()
}

#[test]
fn buffer_body_round_trip() {
    let payload = vec![10u8, 20, 30];
    let mut body = BoxBody::from_bytes(Bytes::from_vec(payload.clone()));
    let hint = body.size_hint();
    assert_eq!(hint.exact(), Some(3));
    assert_eq!(hint.lower(), 3);
    match body.poll_next() {
        BodyPoll::Data(b) => assert_eq!(b.into_vec(), payload),
        _ => panic!("expected the whole buffer as one chunk"),
    }
    match body.poll_next() {
        BodyPoll::Finished => {}
        _ => panic!("expected the stream to end"),
    }
}

#[test]
fn empty_buffer_ends_immediately() {
    let mut body = BoxBody::from_bytes(Bytes::new());
    assert_eq!(body.size_hint().exact(), Some(0));
    match body.poll_next() {
        BodyPoll::Finished => {}
        _ => panic!("an empty buffer must end at once"),
    }
}

#[test]
fn drain_concatenates_chunks() {
    let entries = vec![
        StreamEntry::Data(Bytes::from_vec(vec![1, 2])),
        StreamEntry::Pending,
        StreamEntry::Data(Bytes::from_vec(vec![3])),
    ];
    let mut body = StreamBody::new(entries).boxed();
    assert_eq!(collect(&mut body), vec![1, 2, 3]);
}

#[test]
fn drain_surfaces_first_failure() {
    let entries = vec![
        StreamEntry::Data(Bytes::from_vec(vec![1])),
        StreamEntry::Failed(BodyError::new("boom".to_string())),
        StreamEntry::Data(Bytes::from_vec(vec![2])),
    ];
    let mut body = StreamBody::new(entries).boxed();
    let err = drain(&mut body).unwrap_err();
    assert_eq!(err.message(), "boom");
}

#[test]
fn string_and_unit_bodies() {
    let mut s = String::from("hi");
    match s.poll_next() {
        BodyPoll::Data(b) => assert_eq!(b.into_vec(), b"hi".to_vec()),
        _ => panic!("expected the text as one chunk"),
    }
    match s.poll_next() {
        BodyPoll::Finished => {}
        _ => panic!("expected the stream to end"),
    }
    let mut u = ();
    match u.poll_next() {
        BodyPoll::Finished => {}
        _ => panic!("the unit body is empty"),
    }
    assert_eq!(().size_hint().exact(), Some(0));
}

#[test]
fn request_forwards_its_body() {
    let req = Request::new(BoxBody::from_bytes(Bytes::from_vec(vec![7, 8])));
    let mut req = req;
    match req.poll_next() {
        BodyPoll::Data(b) => assert_eq!(b.into_vec(), vec![7, 8]),
        _ => panic!("a request streams its own payload"),
    }
}

#[test]
fn map_err_transforms_failures_only() {
    let inner = StreamBody::new(vec![
        StreamEntry::Data(Bytes::from_vec(vec![1])),
        StreamEntry::Failed(BodyError::new("low".to_string())),
    ]);
    let mut wrapped = MapErr::new(inner, |e: BodyError| {
        BodyError::new(format!("wrapped: {}", e.message()))
    });
    match wrapped.poll_next() {
        BodyPoll::Data(b) => assert_eq!(b.into_vec(), vec![1]),
        _ => panic!("chunks pass through unchanged"),
    }
    match wrapped.poll_next() {
        BodyPoll::Failed(e) => assert_eq!(e.message(), "wrapped: low"),
        _ => panic!("failures run through the transform"),
    }
    let inner2 = StreamBody::new(vec![]);
    let w2 = MapErr::new(inner2, |e: BodyError| e);
    let _ = w2.get_ref();
    let _ = w2.into_inner();
}

#[test]
fn size_hint_bounds() {
    let mut h = SizeHint::new();
    assert_eq!(h.lower(), 0);
    assert_eq!(h.upper(), None);
    assert_eq!(h.exact(), None);
    h.set_lower(2);
    h.set_upper(2);
    assert_eq!(h.exact(), Some(2));
    let e = SizeHint::with_exact(7);
    assert_eq!(e.exact(), Some(7));
}
