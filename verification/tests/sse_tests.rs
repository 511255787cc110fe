use puzz::body::{Body, BodyPoll};
use puzz::response::Response;
use puzz::respond::IntoResponse;
use puzz::sse::{Duration, Event, KeepAlive, Sse, SseEntry};

fn poll_text(body: &mut puzz::body::BoxBody) -> Option<String> {
    match body.poll_next() {
        BodyPoll::Data(b) => Some(String::from_utf8(b.into_vec()).unwrap()),
        BodyPoll::Pending => None,
        other => panic!("unexpected poll outcome: {:?}", other),
    }
}

#[test]
fn event_encodes_every_field() {
    let e = Event::new()
        .comment("c")
        .event("ping")
        .data("line1\nline2")
        .id("7");
    assert_eq!(
        e.encode(),
        ":c\nevent: ping\ndata: line1\ndata: line2\nid: 7\n\n"
    );
}

#[test]
fn empty_event_is_one_blank_line() {
    assert_eq!(Event::new().encode(), "\n");
}

#[test]
fn retry_encoding_pads_milliseconds() {
    assert_eq!(
        Event::new().retry(Duration::new(1, 5)).encode(),
        "retry:1005\n\n"
    );
    assert_eq!(
        Event::new().retry(Duration::new(0, 250)).encode(),
        "retry:250\n\n"
    );
    assert_eq!(
        Event::new().retry(Duration::new(2, 30)).encode(),
        "retry:2030\n\n"
    );
    assert_eq!(
        Event::new().retry(Duration::new(3, 500)).encode(),
        "retry:3500\n\n"
    );
}

#[test]
fn sse_response_carries_push_headers() {
    let res: Response<puzz::body::BoxBody> = Sse::new(vec![]).into_response();
    assert_eq!(
        res.headers().get("content-type").unwrap().as_str(),
        "text/event-stream"
    );
    assert_eq!(
        res.headers().get("cache-control").unwrap().as_str(),
        "no-cache"
    );
}

#[test]
fn keep_alive_fires_after_quiet_interval() {
    let sse = Sse::new(vec![SseEntry::Pending, SseEntry::Pending, SseEntry::Pending])
        .keep_alive(KeepAlive::new().interval(Duration::new(0, 2)).text("ka"));
    let mut body = sse.into_response().into_body();
    assert_eq!(poll_text(&mut body), None);
    assert_eq!(poll_text(&mut body), None);
    assert_eq!(poll_text(&mut body), Some(":ka\n\n".to_string()));
}

#[test]
fn real_event_resets_keep_alive_timer() {
    let sse = Sse::new(vec![
        SseEntry::Item(Event::new().data("d")),
        SseEntry::Pending,
        SseEntry::Pending,
        SseEntry::Pending,
    ])
    .keep_alive(KeepAlive::new().interval(Duration::new(0, 2)).text(""));
    let mut body = sse.into_response().into_body();
    assert_eq!(poll_text(&mut body), Some("data: d\n\n".to_string()));
    assert_eq!(poll_text(&mut body), None);
    assert_eq!(poll_text(&mut body), None);
    assert_eq!(poll_text(&mut body), Some(":\n\n".to_string()));
}

#[test]
fn stream_without_keep_alive_just_pends() {
    let sse = Sse::new(vec![SseEntry::Pending, SseEntry::Item(Event::new().data("x"))]);
    let mut body = sse.into_response().into_body();
    assert_eq!(poll_text(&mut body), None);
    assert_eq!(poll_text(&mut body), Some("data: x\n\n".to_string()));
    assert!(matches!(body.poll_next(), BodyPoll::Finished));
}
