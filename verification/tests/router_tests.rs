use puzz::body::BoxBody;
use puzz::chunk::Bytes;
use puzz::error::Error;
use puzz::request::Request;
use puzz::response::Response;
use puzz::router::{get, head, post, MethodRouter, Router};
use puzz::service::{service_fn, Service, ServiceFn};

type Handler = ServiceFn<Box<dyn Fn(Request<BoxBody>) -> Result<Response<BoxBody>, Error>>>;

fn tagged(tag: &'static str) -> Handler {
    service_fn(Box::new(move |_req: Request<BoxBody>| {
        Ok(Response::new(BoxBody::from_bytes(Bytes::from_slice(
            tag.as_bytes(),
        ))))
    }))
}

fn echo_path() -> Handler {
    service_fn(Box::new(move |req: Request<BoxBody>| {
        let mut text = req.uri().path().to_string();
        if let Some(q) = req.uri().query() {
            text.push('?');
            text.push_str(q.as_str());
        }
        Ok(Response::new(BoxBody::from_bytes(Bytes::from_vec(
            text.into_bytes(),
        ))))
    }))
}

fn echo_param(name: &'static str) -> Handler {
    service_fn(Box::new(move |req: Request<BoxBody>| {
        let v = puzz::extract::param(&req, name).unwrap();
        Ok(Response::new(BoxBody::from_bytes(Bytes::from_vec(
            v.into_bytes(),
        ))))
    }))
}

fn req(method: &str, target: &str) -> Request<BoxBody> {
    Request::<BoxBody>::builder()
        .method(method)
        .uri(target)
        .body(BoxBody::empty())
        .unwrap()
}

fn body_text(res: Response<BoxBody>) -> String {
    let mut b = res.into_body();
    let bytes = puzz::body::drain(&mut b).unwrap().into_vec();
    String::from_utf8(bytes).unwrap()
}

#[test]
fn static_route_dispatches_exactly() {
    let router = Router::new()
        .route("/hi", tagged("hi"))
        .route("/bye", tagged("bye"));
    let res = router.call(req("GET", "/hi")).unwrap();
    assert_eq!(body_text(res), "hi");
    let res = router.call(req("GET", "/bye")).unwrap();
    assert_eq!(body_text(res), "bye");
}

#[test]
fn not_found_carries_request_unchanged() {
    let router = Router::new().route("/hi", tagged("hi"));
    let r = req("POST", "/missing?x=1");
    match router.call(r) {
        Err(Error::NotFound(nf)) => {
            let back = nf.into_request();
            assert_eq!(back.method().name(), "POST");
            assert_eq!(back.uri().path(), "/missing");
            assert_eq!(back.uri().query().unwrap().as_str(), "x=1");
        }
        _ => panic!("an unmatched path must fail with NotFound"),
    }
}

#[test]
fn wrong_verb_fails_method_not_allowed() {
    let router = Router::new().route("/hi", get(tagged("hi")));
    match router.call(req("POST", "/hi")) {
        Err(Error::MethodNotAllowed(mna)) => {
            let back = mna.into_request();
            assert_eq!(back.method().name(), "POST");
            assert_eq!(back.uri().path(), "/hi");
        }
        _ => panic!("a matched path with an unregistered verb must fail with MethodNotAllowed"),
    }
}

#[test]
fn head_falls_back_to_get_only_without_head_handler() {
    let with_fallback: MethodRouter<Handler> = get(tagged("from-get"));
    let res = with_fallback.call(req("HEAD", "/")).unwrap();
    assert_eq!(body_text(res), "from-get");

    let dedicated: MethodRouter<Handler> = get(tagged("from-get")).head(tagged("from-head"));
    let res = dedicated.call(req("HEAD", "/")).unwrap();
    assert_eq!(body_text(res), "from-head");

    let post_only: MethodRouter<Handler> = post(tagged("from-post"));
    assert!(matches!(
        post_only.call(req("HEAD", "/")),
        Err(Error::MethodNotAllowed(_))
    ));
    let head_only: MethodRouter<Handler> = head(tagged("h"));
    let res = head_only.call(req("HEAD", "/")).unwrap();
    assert_eq!(body_text(res), "h");
}

#[test]
fn nested_mount_sees_tail_with_query_kept() {
    let router = Router::new().nest("/p", echo_path());
    let res = router.call(req("GET", "/p/a/b?q=1")).unwrap();
    assert_eq!(body_text(res), "/a/b?q=1");
}

#[test]
fn nested_mount_needs_something_after_prefix() {
    let router = Router::new().nest("/p", echo_path());
    assert!(matches!(
        router.call(req("GET", "/p")),
        Err(Error::NotFound(_))
    ));
}

#[test]
fn param_route_captures_segment() {
    let router = Router::new().route("/a/:n", echo_param("n"));
    let res = router.call(req("GET", "/a/42")).unwrap();
    assert_eq!(body_text(res), "42");
}

#[test]
fn wildcard_route_captures_tail() {
    let router: Router<Handler> = Router::new().route("/b/*", tagged("wild"));
    let m = router.at("/b/x/y").unwrap();
    assert_eq!(m.tail.as_deref(), Some("x/y"));
    assert!(!m.nest);
    let res = router.call(req("GET", "/b/x/y")).unwrap();
    assert_eq!(body_text(res), "wild");
}

#[test]
fn static_beats_param_beats_wildcard() {
    let router = Router::new()
        .route("/x/fixed", tagged("static"))
        .route("/x/:v", tagged("param"))
        .route("/x/*", tagged("wild"));
    assert_eq!(body_text(router.call(req("GET", "/x/fixed")).unwrap()), "static");
    assert_eq!(body_text(router.call(req("GET", "/x/other")).unwrap()), "param");
    assert_eq!(body_text(router.call(req("GET", "/x/a/b")).unwrap()), "wild");
}

#[test]
fn inner_capture_overwrites_outer_of_same_name() {
    let router = Router::new().route("/o/:n/i/:n2", echo_param("n"));
    let res = router.call(req("GET", "/o/outer/i/inner")).unwrap();
    assert_eq!(body_text(res), "outer");
    let router2 = Router::new().route("/o/:n/i/:n2", echo_param("n2"));
    let res = router2.call(req("GET", "/o/outer/i/inner")).unwrap();
    assert_eq!(body_text(res), "inner");
}

#[test]
fn root_route_matches_root_path() {
    let router = Router::new().route("/", tagged("root"));
    assert_eq!(body_text(router.call(req("GET", "/")).unwrap()), "root");
    assert!(matches!(
        router.call(req("GET", "/other")),
        Err(Error::NotFound(_))
    ));
}

#[test]
fn at_reports_no_match() {
    let router: Router<Handler> = Router::new().route("/hi", tagged("hi"));
    assert!(router.at("/nope").is_none());
    let m = router.at("/hi").unwrap();
    assert_eq!(m.index, 0);
    assert!(m.captures.is_empty());
    assert!(m.tail.is_none());
}

#[test]
fn nest_accepts_trailing_slash_prefix() {
    let router = Router::new().nest("/p/", echo_path());
    let res = router.call(req("GET", "/p/a")).unwrap();
    assert_eq!(body_text(res), "/a");
}
