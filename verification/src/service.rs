//! The unit of request handling: a service takes one request and returns
//! one response or an error, synchronously resolved. Combinators wrap
//! exactly one inner service and own it exclusively.
use vstd::prelude::*;

verus! {

/// The request-response contract.
pub trait Service<Req> {
    /// What the service answers on success.
    type Response;

    /// What the service answers on failure.
    type Error;

    /// When a request may be handed to the service. Implementations
    /// built from closures demand that the closure accepts its input.
    spec fn callable(&self, request: Req) -> bool;

    /// What the service promises of its answer to a request.
    spec fn call_spec(&self, request: Req, r: Result<Self::Response, Self::Error>) -> bool;

    /// Handle one request.
    fn call(&self, request: Req) -> (r: Result<Self::Response, Self::Error>)
        requires
            self.callable(request),
        ensures
            self.call_spec(request, r),
    ;
}

/// A middleware: it takes ownership of a service and returns a new,
/// behaviour-augmented one.
pub trait Wrap<S> {
    /// The wrapped service.
    type Service;

    /// When the middleware may take a given service.
    spec fn wrap_requires(self, service: S) -> bool;

    /// What the wrapping guarantees about its result.
    spec fn wrap_ensures(self, service: S, r: Self::Service) -> bool;

    /// Wrap the given service.
    fn wrap(self, service: S) -> (r: Self::Service)
        requires
            self.wrap_requires(service),
        ensures
            self.wrap_ensures(service, r),
    ;
}

/// A service built from a plain function of the request.
pub struct ServiceFn<F> {
    pub f: F,
}

/// Build a service from a function of the request.
pub fn service_fn<F>(f: F) -> (r: ServiceFn<F>)
    ensures
        r == (ServiceFn { f }),
{
    ServiceFn { f }
}

impl<F> ServiceFn<F> {
    pub fn new(f: F) -> (r: ServiceFn<F>)
        ensures
            r == (ServiceFn { f }),
    {
        ServiceFn { f }
    }
}

impl<F, Req, Res, E> Service<Req> for ServiceFn<F> where F: Fn(Req) -> Result<Res, E> {
    type Response = Res;

    type Error = E;

    open spec fn callable(&self, request: Req) -> bool {
        call_requires(self.f, (request,))
    }

    /// The answer is whatever the wrapped function's contract admits
    /// for this request.
    open spec fn call_spec(&self, request: Req, r: Result<Res, E>) -> bool {
        call_ensures(self.f, (request,), r)
    }

    fn call(&self, request: Req) -> (r: Result<Res, E>) {
        (self.f)(request)
    }
}

/// A service whose requests run through a transform before the inner
/// service sees them.
pub struct MapRequest<S, F> {
    pub inner: S,
    pub f: F,
}

impl<S, F> MapRequest<S, F> {
    pub fn new(inner: S, f: F) -> (r: MapRequest<S, F>)
        ensures
            r == (MapRequest { inner, f }),
    {
        MapRequest { inner, f }
    }
}

impl<S, F, R1, R2> Service<R1> for MapRequest<S, F> where S: Service<R2>, F: Fn(R1) -> R2 {
    type Response = S::Response;

    type Error = S::Error;

    open spec fn callable(&self, request: R1) -> bool {
        call_requires(self.f, (request,)) && forall|r2: R2|
            call_ensures(self.f, (request,), r2) ==> self.inner.callable(r2)
    }

    /// The inner service answered the transformed request; its answer
    /// passes through unchanged.
    open spec fn call_spec(&self, request: R1, r: Result<S::Response, S::Error>) -> bool {
        exists|r2: R2| #[trigger] call_ensures(self.f, (request,), r2) && self.inner.call_spec(
            r2,
            r,
        )
    }

    fn call(&self, request: R1) -> (r: Result<S::Response, S::Error>) {
        let r2 = (self.f)(request);
        let ghost g2 = r2;
        let r = self.inner.call(r2);
        proof {
            assert(call_ensures(self.f, (request,), g2) && self.inner.call_spec(g2, r));
        }
        r
    }
}

/// A service whose successful answers run through a transform.
pub struct MapResponse<S, F> {
    pub inner: S,
    pub f: F,
}

impl<S, F> MapResponse<S, F> {
    pub fn new(inner: S, f: F) -> (r: MapResponse<S, F>)
        ensures
            r == (MapResponse { inner, f }),
    {
        MapResponse { inner, f }
    }
}

impl<S, F, Req, Res> Service<Req> for MapResponse<S, F> where
    S: Service<Req>,
    F: Fn(S::Response) -> Res,
 {
    type Response = Res;

    type Error = S::Error;

    open spec fn callable(&self, request: Req) -> bool {
        self.inner.callable(request) && forall|res: S::Response| call_requires(self.f, (res,))
    }

    /// The inner service answered: a success runs through the
    /// transform, a failure passes through unchanged.
    open spec fn call_spec(&self, request: Req, r: Result<Res, S::Error>) -> bool {
        exists|m: Result<S::Response, S::Error>|
            #[trigger] self.inner.call_spec(request, m) && (match m {
                Ok(res) => r matches Ok(res2) && call_ensures(self.f, (res,), res2),
                Err(e) => r == Err::<Res, S::Error>(e),
            })
    }

    fn call(&self, request: Req) -> (r: Result<Res, S::Error>) {
        let m = self.inner.call(request);
        let ghost gm = m;
        let r = match m {
            Ok(res) => Ok((self.f)(res)),
            Err(e) => Err(e),
        };
        proof {
            assert(self.inner.call_spec(request, gm));
        }
        r
    }
}

/// A service whose failures run through a transform.
pub struct MapErr<S, F> {
    pub inner: S,
    pub f: F,
}

impl<S, F> MapErr<S, F> {
    pub fn new(inner: S, f: F) -> (r: MapErr<S, F>)
        ensures
            r == (MapErr { inner, f }),
    {
        MapErr { inner, f }
    }
}

impl<S, F, Req, E> Service<Req> for MapErr<S, F> where S: Service<Req>, F: Fn(S::Error) -> E {
    type Response = S::Response;

    type Error = E;

    open spec fn callable(&self, request: Req) -> bool {
        self.inner.callable(request) && forall|e: S::Error| call_requires(self.f, (e,))
    }

    /// The inner service answered: a failure runs through the
    /// transform, a success passes through unchanged.
    open spec fn call_spec(&self, request: Req, r: Result<S::Response, E>) -> bool {
        exists|m: Result<S::Response, S::Error>|
            #[trigger] self.inner.call_spec(request, m) && (match m {
                Ok(res) => r == Ok::<S::Response, E>(res),
                Err(e) => r matches Err(e2) && call_ensures(self.f, (e,), e2),
            })
    }

    fn call(&self, request: Req) -> (r: Result<S::Response, E>) {
        let m = self.inner.call(request);
        let ghost gm = m;
        let r = match m {
            Ok(res) => Ok(res),
            Err(e) => Err((self.f)(e)),
        };
        proof {
            assert(self.inner.call_spec(request, gm));
        }
        r
    }
}

/// A service whose whole answer, success or failure, runs through a
/// transform that can observe and convert both branches together.
pub struct MapResult<S, F> {
    pub inner: S,
    pub f: F,
}

impl<S, F> MapResult<S, F> {
    pub fn new(inner: S, f: F) -> (r: MapResult<S, F>)
        ensures
            r == (MapResult { inner, f }),
    {
        MapResult { inner, f }
    }
}

impl<S, F, Req, Res, E> Service<Req> for MapResult<S, F> where
    S: Service<Req>,
    F: Fn(Result<S::Response, S::Error>) -> Result<Res, E>,
 {
    type Response = Res;

    type Error = E;

    open spec fn callable(&self, request: Req) -> bool {
        self.inner.callable(request) && forall|x: Result<S::Response, S::Error>|
            call_requires(self.f, (x,))
    }

    /// The answer is the transform of the inner service's whole answer.
    open spec fn call_spec(&self, request: Req, r: Result<Res, E>) -> bool {
        exists|m: Result<S::Response, S::Error>|
            #[trigger] self.inner.call_spec(request, m) && call_ensures(self.f, (m,), r)
    }

    fn call(&self, request: Req) -> (r: Result<Res, E>) {
        let m = self.inner.call(request);
        let ghost gm = m;
        let r = (self.f)(m);
        proof {
            assert(self.inner.call_spec(request, gm));
        }
        r
    }
}

/// A service that feeds each success into a continuation that may fail
/// with the same error type; failures short-circuit past it.
pub struct AndThen<S, F> {
    pub inner: S,
    pub f: F,
}

impl<S, F> AndThen<S, F> {
    pub fn new(inner: S, f: F) -> (r: AndThen<S, F>)
        ensures
            r == (AndThen { inner, f }),
    {
        AndThen { inner, f }
    }
}

impl<S, F, Req, Res> Service<Req> for AndThen<S, F> where
    S: Service<Req>,
    F: Fn(S::Response) -> Result<Res, S::Error>,
 {
    type Response = Res;

    type Error = S::Error;

    open spec fn callable(&self, request: Req) -> bool {
        self.inner.callable(request) && forall|res: S::Response| call_requires(self.f, (res,))
    }

    /// The inner service answered: a success continues with the
    /// continuation's own answer; a failure short-circuits past it,
    /// unchanged.
    open spec fn call_spec(&self, request: Req, r: Result<Res, S::Error>) -> bool {
        exists|m: Result<S::Response, S::Error>|
            #[trigger] self.inner.call_spec(request, m) && (match m {
                Ok(res) => call_ensures(self.f, (res,), r),
                Err(e) => r == Err::<Res, S::Error>(e),
            })
    }

    fn call(&self, request: Req) -> (r: Result<Res, S::Error>) {
        let m = self.inner.call(request);
        let ghost gm = m;
        let r = match m {
            Ok(res) => (self.f)(res),
            Err(e) => Err(e),
        };
        proof {
            assert(self.inner.call_spec(request, gm));
        }
        r
    }
}

/// A middleware built from a function of the service.
pub struct WrapFn<F> {
    pub f: F,
}

/// Build a middleware from a function of the service.
pub fn wrap_fn<F>(f: F) -> (r: WrapFn<F>)
    ensures
        r == (WrapFn { f }),
{
    WrapFn { f }
}

impl<F> WrapFn<F> {
    pub fn new(f: F) -> (r: WrapFn<F>)
        ensures
            r == (WrapFn { f }),
    {
        WrapFn { f }
    }
}

impl<F, S1, S2> Wrap<S1> for WrapFn<F> where F: FnOnce(S1) -> S2 {
    type Service = S2;

    open spec fn wrap_requires(self, service: S1) -> bool {
        call_requires(self.f, (service,))
    }

    open spec fn wrap_ensures(self, service: S1, r: S2) -> bool {
        call_ensures(self.f, (service,), r)
    }

    fn wrap(self, service: S1) -> (r: S2) {
        (self.f)(service)
    }
}

/// Conveniences every service gets: wiring combinators around itself.
pub trait ServiceExt<Req>: Service<Req> {
    /// Hand the service to a middleware.
    fn with<T: Wrap<Self>>(self, wrap: T) -> (r: T::Service) where Self: Sized
        requires
            wrap.wrap_requires(self),
        ensures
            wrap.wrap_ensures(self, r),
    {
        wrap.wrap(self)
    }

    /// Feed each success into a continuation.
    fn and_then<F>(self, f: F) -> (r: AndThen<Self, F>) where Self: Sized
        ensures
            r == (AndThen { inner: self, f }),
    {
        AndThen { inner: self, f }
    }

    /// Transform each failure.
    fn map_err<F>(self, f: F) -> (r: MapErr<Self, F>) where Self: Sized
        ensures
            r == (MapErr { inner: self, f }),
    {
        MapErr { inner: self, f }
    }

    /// Transform each request before handling it.
    fn map_request<F>(self, f: F) -> (r: MapRequest<Self, F>) where Self: Sized
        ensures
            r == (MapRequest { inner: self, f }),
    {
        MapRequest { inner: self, f }
    }

    /// Transform each successful answer.
    fn map_response<F>(self, f: F) -> (r: MapResponse<Self, F>) where Self: Sized
        ensures
            r == (MapResponse { inner: self, f }),
    {
        MapResponse { inner: self, f }
    }

    /// Transform each whole answer.
    fn map_result<F>(self, f: F) -> (r: MapResult<Self, F>) where Self: Sized
        ensures
            r == (MapResult { inner: self, f }),
    {
        MapResult { inner: self, f }
    }
}

impl<S, Req> ServiceExt<Req> for S where S: Service<Req> {

}

} // verus!
