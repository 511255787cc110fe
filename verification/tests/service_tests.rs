use puzz::extensions::{ExtValue, PARAMS_KEY};
use puzz::middleware::{add_extension, handle_error, HandleErrorFuture};
use puzz::service::{service_fn, wrap_fn, Service, ServiceExt, Wrap};

#[test]
fn service_fn_calls_through() {
    let s = service_fn(|x: u32| -> Result<u32, &'static str> { Ok(x + 1) });
    assert_eq!(s.call(4), Ok(5));
}

#[test]
fn map_response_transforms_success() {
    let s = service_fn(|x: u32| -> Result<u32, &'static str> { Ok(x) });
    let m = s.map_response(|r: u32| r * 2);
    assert_eq!(m.call(21), Ok(42));
}

#[test]
fn map_err_transforms_failure() {
    let s = service_fn(|_x: u32| -> Result<u32, u32> { Err(7) });
    let m = s.map_err(|e: u32| e + 1);
    assert_eq!(m.call(0), Err(8));
}

#[test]
fn map_request_transforms_input() {
    let s = service_fn(|x: u32| -> Result<u32, &'static str> { Ok(x) });
    let m = s.map_request(|x: u32| x + 10);
    assert_eq!(m.call(1), Ok(11));
}

#[test]
fn and_then_chains_and_short_circuits() {
    let ok = service_fn(|x: u32| -> Result<u32, &'static str> { Ok(x) });
    let chained = ok.and_then(|r: u32| if r > 5 { Ok(r) } else { Err("small") });
    assert_eq!(chained.call(9), Ok(9));
    assert_eq!(chained.call(1), Err("small"));

    let failing = service_fn(|_x: u32| -> Result<u32, &'static str> { Err("first") });
    let chained = failing.and_then(|_r: u32| -> Result<u32, &'static str> { panic!("must not run") });
    assert_eq!(chained.call(0), Err("first"));
}

#[test]
fn map_result_observes_both_branches() {
    let s = service_fn(|x: u32| -> Result<u32, u32> { if x > 0 { Ok(x) } else { Err(0) } });
    let m = s.map_result(|r: Result<u32, u32>| -> Result<i64, &'static str> {
        match r {
            Ok(v) => Ok(v as i64),
            Err(_) => Err("zero"),
        }
    });
    assert_eq!(m.call(3), Ok(3));
    assert_eq!(m.call(0), Err("zero"));
}

#[test]
fn handle_error_always_answers_with_recovery_value() {
    let failing = service_fn(|_x: u32| -> Result<&'static str, u32> { Err(500) });
    let recovered = failing.with(handle_error(|e: u32| {
        if e == 500 {
            "recovered"
        } else {
            "other"
        }
    }));
    assert_eq!(recovered.call(1), Ok("recovered"));

    let fine = service_fn(|_x: u32| -> Result<&'static str, u32> { Ok("fine") });
    let wrapped = fine.with(handle_error(|_e: u32| "never"));
    assert_eq!(wrapped.call(1), Ok("fine"));
}

#[test]
fn handle_error_future_resolves_once() {
    let mut fut: HandleErrorFuture<fn(u32) -> &'static str> =
        HandleErrorFuture::Incomplete { f: |_e: u32| "recovered" };
    let out = fut.poll(Err::<&'static str, u32>(9));
    assert_eq!(out, "recovered");
    assert!(matches!(fut, HandleErrorFuture::Complete));

    let mut fut2: HandleErrorFuture<fn(u32) -> &'static str> =
        HandleErrorFuture::Incomplete { f: |_e: u32| "unused" };
    let out2 = fut2.poll(Ok::<&'static str, u32>("direct"));
    assert_eq!(out2, "direct");
    assert!(matches!(fut2, HandleErrorFuture::Complete));
}

#[test]
fn add_extension_injects_state() {
    let inner = service_fn(
        |req: puzz::request::Request<puzz::body::BoxBody>| -> Result<i64, &'static str> {
            match req.extensions().get(77) {
                Some(ExtValue::Number(n)) => Ok(*n),
                _ => Err("missing"),
            }
        },
    );
    let svc = inner.with(add_extension(77, ExtValue::Number(12)));
    let req = puzz::request::Request::new(puzz::body::BoxBody::empty());
    assert_eq!(svc.call(req), Ok(12));
    let _ = PARAMS_KEY;
}

#[test]
fn wrap_fn_builds_middleware() {
    let wrap = wrap_fn(|s: puzz::service::ServiceFn<fn(u32) -> Result<u32, u32>>| {
        s.map_response(|x: u32| x + 1)
    });
    fn base(x: u32) -> Result<u32, u32> {
        Ok(x)
    }
    let svc = service_fn(base as fn(u32) -> Result<u32, u32>);
    let wrapped = wrap.wrap(svc);
    assert_eq!(wrapped.call(1), Ok(2));
}

#[test]
fn wrapping_applies_outermost_last() {
    fn base(x: u32) -> Result<u32, u32> {
        Ok(x)
    }
    let svc = service_fn(base as fn(u32) -> Result<u32, u32>);
    let once_wrapped = svc.with(wrap_fn(
        |s: puzz::service::ServiceFn<fn(u32) -> Result<u32, u32>>| s.map_response(|r: u32| r + 1),
    ));
    let twice_wrapped = once_wrapped.with(wrap_fn(
        |s: puzz::service::MapResponse<
            puzz::service::ServiceFn<fn(u32) -> Result<u32, u32>>,
            _,
        >| s.map_response(|r: u32| r * 2),
    ));
    assert_eq!(twice_wrapped.call(0), Ok(2));
}
