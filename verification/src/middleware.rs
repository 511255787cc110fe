//! Middleware: wrappers that augment a service. One injects a shared
//! value into each request's extensions; the other converts a fallible
//! service into one that always answers, by recovering from failures.
use vstd::prelude::*;
use crate::extensions::ExtValue;
use crate::request::{Head, Request};
use crate::service::{Service, Wrap};

verus! {

/// Build the middleware that stores a copy of `value` under `key` in
/// each request's extensions before the inner service runs.
pub fn add_extension(key: u64, value: ExtValue) -> (r: AddExtensionWrap)
    ensures
        r.key == key,
        r.value@ == value@,
{
    AddExtensionWrap { key, value }
}

/// The middleware that injects an extension value.
pub struct AddExtensionWrap {
    pub key: u64,
    pub value: ExtValue,
}

impl AddExtensionWrap {
    pub fn new(key: u64, value: ExtValue) -> (r: AddExtensionWrap)
        ensures
            r.key == key,
            r.value@ == value@,
    {
        AddExtensionWrap { key, value }
    }
}

impl<S> Wrap<S> for AddExtensionWrap {
    type Service = AddExtension<S>;

    open spec fn wrap_requires(self, service: S) -> bool {
        true
    }

    open spec fn wrap_ensures(self, service: S, r: AddExtension<S>) -> bool {
        r.inner == service && r.key == self.key && r.value@ == self.value@
    }

    fn wrap(self, service: S) -> (r: AddExtension<S>) {
        AddExtension { inner: service, key: self.key, value: self.value }
    }
}

/// A service that stores a copy of a value in each request's extensions
/// and then delegates.
pub struct AddExtension<S> {
    pub inner: S,
    pub key: u64,
    pub value: ExtValue,
}

impl<S> AddExtension<S> {
    pub fn new(inner: S, key: u64, value: ExtValue) -> (r: AddExtension<S>)
        ensures
            r.inner == inner,
            r.key == key,
            r.value@ == value@,
    {
        AddExtension { inner, key, value }
    }

    /// How the request the inner service sees relates to the inbound
    /// one: the value stored under the key, everything else untouched.
    pub open spec fn injected<B>(&self, request: Request<B>, q2: Request<B>) -> bool {
        q2.spec_head().extensions@ == request.spec_head().extensions@.insert(
            self.key,
            self.value@,
        ) && q2.spec_head() == (Head {
            extensions: q2.spec_head().extensions,
            ..request.spec_head()
        }) && q2.spec_body() == request.spec_body()
    }

    /// The request as the inner service will see it: the value stored
    /// under the key, everything else untouched.
    pub fn prepare<B>(&self, request: Request<B>) -> (r: Request<B>)
        requires
            request.spec_head().extensions.wf(),
        ensures
            r.spec_head().extensions@ == request.spec_head().extensions@.insert(
                self.key,
                self.value@,
            ),
            r.spec_head().extensions.wf(),
            r.spec_head() == (Head { extensions: r.spec_head().extensions, ..request.spec_head() }),
            r.spec_body() == request.spec_body(),
    {
        let mut request = request;
        let v = self.value.clone();
        request.extensions_mut().insert(self.key, v);
        request
    }
}

impl<S, B> Service<Request<B>> for AddExtension<S> where S: Service<Request<B>> {
    type Response = S::Response;

    type Error = S::Error;

    open spec fn callable(&self, request: Request<B>) -> bool {
        request.spec_head().extensions.wf() && forall|q2: Request<B>|
            self.injected(request, q2) ==> #[trigger] self.inner.callable(q2)
    }

    /// The inner service answered the request with the value stored in
    /// its extensions and everything else untouched.
    open spec fn call_spec(&self, request: Request<B>, r: Result<S::Response, S::Error>) -> bool {
        exists|q2: Request<B>|
            #[trigger] self.inner.call_spec(q2, r) && self.injected(request, q2)
    }

    fn call(&self, request: Request<B>) -> (r: Result<S::Response, S::Error>) {
        let ghost original = request;
        let request = self.prepare(request);
        let ghost g2 = request;
        proof {
            assert(self.injected(original, g2));
        }
        let r = self.inner.call(request);
        proof {
            assert(self.inner.call_spec(g2, r));
        }
        r
    }
}

/// Build the middleware that recovers from an inner service's failures
/// with the given function, so the wrapped service always answers.
pub fn handle_error<F>(f: F) -> (r: HandleErrorWrap<F>)
    ensures
        r == (HandleErrorWrap { f }),
{
    HandleErrorWrap { f }
}

/// The middleware that installs failure recovery.
pub struct HandleErrorWrap<F> {
    pub f: F,
}

impl<F> HandleErrorWrap<F> {
    pub fn new(f: F) -> (r: HandleErrorWrap<F>)
        ensures
            r == (HandleErrorWrap { f }),
    {
        HandleErrorWrap { f }
    }
}

impl<S, F> Wrap<S> for HandleErrorWrap<F> {
    type Service = HandleError<S, F>;

    open spec fn wrap_requires(self, service: S) -> bool {
        true
    }

    open spec fn wrap_ensures(self, service: S, r: HandleError<S, F>) -> bool {
        r == (HandleError { inner: service, f: self.f })
    }

    fn wrap(self, service: S) -> (r: HandleError<S, F>) {
        HandleError { inner: service, f: self.f }
    }
}

/// A service that never fails: failures of the inner service are turned
/// into answers by the recovery function, invoked exactly once per
/// failed call.
pub struct HandleError<S, F> {
    pub inner: S,
    pub f: F,
}

impl<S, F> HandleError<S, F> {
    pub fn new(inner: S, f: F) -> (r: HandleError<S, F>)
        ensures
            r == (HandleError { inner, f }),
    {
        HandleError { inner, f }
    }
}

impl<S, F, Req> Service<Req> for HandleError<S, F> where
    S: Service<Req>,
    F: Fn(S::Error) -> S::Response,
 {
    type Response = S::Response;

    type Error = S::Error;

    open spec fn callable(&self, request: Req) -> bool {
        self.inner.callable(request) && (forall|e: S::Error| call_requires(self.f, (e,)))
    }

    /// Whatever the inner service did, there is an answer: a success
    /// passes through, a failure is recovered by the function, exactly
    /// once.
    open spec fn call_spec(&self, request: Req, r: Result<S::Response, S::Error>) -> bool {
        r is Ok && exists|m: Result<S::Response, S::Error>|
            #[trigger] self.inner.call_spec(request, m) && (match m {
                Ok(res) => r == Ok::<S::Response, S::Error>(res),
                Err(e) => r matches Ok(res2) && call_ensures(self.f, (e,), res2),
            })
    }

    fn call(&self, request: Req) -> (r: Result<S::Response, S::Error>)
        ensures
            r is Ok,
    {
        let m = self.inner.call(request);
        let ghost gm = m;
        let r = match m {
            Ok(res) => Ok(res),
            Err(e) => Ok((self.f)(e)),
        };
        proof {
            assert(self.inner.call_spec(request, gm));
        }
        r
    }
}

/// The two states of a recovering call: waiting on the inner outcome, or
/// already resolved. Resolving moves the machine to `Complete`, which
/// releases the recovery function at once; a resolved machine must not
/// be polled again.
pub enum HandleErrorFuture<F> {
    Incomplete { f: F },
    Complete,
}

impl<F> HandleErrorFuture<F> {
    /// Resolve the machine with the inner service's outcome: a success
    /// passes through, a failure is recovered exactly once.
    pub fn poll<Res, E>(&mut self, outcome: Result<Res, E>) -> (r: Res) where
        F: Fn(E) -> Res,

        requires
            *old(self) matches HandleErrorFuture::Incomplete { f } ==> (outcome matches Err(e)
                ==> call_requires(f, (e,))),
            *old(self) is Incomplete,
        ensures
            *final(self) is Complete,
            *old(self) matches HandleErrorFuture::Incomplete { f } ==> match outcome {
                Ok(res) => r == res,
                Err(e) => call_ensures(f, (e,), r),
            },
    {
        let mut state = HandleErrorFuture::Complete;
        core::mem::swap(&mut state, self);
        match state {
            HandleErrorFuture::Incomplete { f } => match outcome {
                Ok(res) => res,
                Err(e) => f(e),
            },
            HandleErrorFuture::Complete => vstd::pervasive::unreached(),
        }
    }
}

} // verus!
