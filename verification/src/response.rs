//! An HTTP response: a head (status, version, headers, extensions) and a
//! body of any type.
use vstd::prelude::*;
use crate::error::BuildError;
use crate::extensions::{ExtValue, ExtValueSpec, Extensions};
use crate::headers::{HeaderMap, HeaderName, HeaderValue};
use crate::status::StatusCode;
use crate::text;
use crate::version::Version;

verus! {

/// The head of a response.
#[derive(Debug)]
pub struct Head {
    pub status: StatusCode,
    pub version: Version,
    pub headers: HeaderMap,
    pub extensions: Extensions,
}

/// The ghost image of a response head.
pub struct HeadSpec {
    pub status: StatusCode,
    pub version: Version,
    pub headers: Seq<(Seq<char>, Seq<char>)>,
    pub extensions: Map<u64, ExtValueSpec>,
}

impl View for Head {
    type V = HeadSpec;

    open spec fn view(&self) -> HeadSpec {
        HeadSpec {
            status: self.status,
            version: self.version,
            headers: self.headers@,
            extensions: self.extensions@,
        }
    }
}

impl HeadSpec {
    /// The head of a blank response: `200 OK` with nothing else.
    pub open spec fn init() -> HeadSpec {
        HeadSpec {
            status: StatusCode { code: 200 },
            version: Version::Http11,
            headers: Seq::empty(),
            extensions: Map::empty(),
        }
    }
}

impl Head {
    /// The status is a real code and the extension keys are distinct.
    pub open spec fn wf(&self) -> bool {
        self.status.wf() && self.extensions.wf()
    }

    pub fn new() -> (r: Head)
        ensures
            r@ == HeadSpec::init(),
            r.wf(),
    {
        let r = Head {
            status: StatusCode::ok(),
            version: Version::Http11,
            headers: HeaderMap::new(),
            extensions: Extensions::new(),
        };
        proof {
            assert(r@ == HeadSpec::init());
        }
        r
    }
}

impl Default for Head {
    fn default() -> (r: Head)
        ensures
            r@ == HeadSpec::init(),
            r.wf(),
    {
        Head::new()
    }
}

/// An HTTP response.
#[derive(Debug)]
pub struct Response<T> {
    head: Head,
    body: T,
}

impl<T> Response<T> {
    /// The head, for contracts.
    pub closed spec fn spec_head(&self) -> Head {
        self.head
    }

    /// The body, for contracts.
    pub closed spec fn spec_body(&self) -> T {
        self.body
    }

    pub open spec fn wf(&self) -> bool {
        self.spec_head().wf()
    }

    /// A blank `200 OK` response around the given body.
    pub fn new(body: T) -> (r: Response<T>)
        ensures
            r.spec_head()@ == HeadSpec::init(),
            r.spec_body() == body,
            r.wf(),
    {
        Response { head: Head::new(), body }
    }

    /// A response assembled from a head and a body.
    pub fn from_head(head: Head, body: T) -> (r: Response<T>)
        ensures
            r.spec_head() == head,
            r.spec_body() == body,
    {
        Response { head, body }
    }

    pub fn status(&self) -> (r: StatusCode)
        ensures
            r == self.spec_head().status,
    {
        self.head.status
    }

    pub fn status_mut(&mut self) -> (r: &mut StatusCode)
        ensures
            *r == old(self).spec_head().status,
            final(self).spec_head() == (Head { status: *final(r), ..old(self).spec_head() }),
            final(self).spec_body() == old(self).spec_body(),
    {
        &mut self.head.status
    }

    pub fn version(&self) -> (r: Version)
        ensures
            r == self.spec_head().version,
    {
        self.head.version
    }

    pub fn version_mut(&mut self) -> (r: &mut Version)
        ensures
            *r == old(self).spec_head().version,
            final(self).spec_head() == (Head { version: *final(r), ..old(self).spec_head() }),
            final(self).spec_body() == old(self).spec_body(),
    {
        &mut self.head.version
    }

    pub fn headers(&self) -> (r: &HeaderMap)
        ensures
            *r == self.spec_head().headers,
    {
        &self.head.headers
    }

    pub fn headers_mut(&mut self) -> (r: &mut HeaderMap)
        ensures
            *r == old(self).spec_head().headers,
            final(self).spec_head() == (Head { headers: *final(r), ..old(self).spec_head() }),
            final(self).spec_body() == old(self).spec_body(),
    {
        &mut self.head.headers
    }

    pub fn extensions(&self) -> (r: &Extensions)
        ensures
            *r == self.spec_head().extensions,
    {
        &self.head.extensions
    }

    pub fn extensions_mut(&mut self) -> (r: &mut Extensions)
        ensures
            *r == old(self).spec_head().extensions,
            final(self).spec_head() == (Head { extensions: *final(r), ..old(self).spec_head() }),
            final(self).spec_body() == old(self).spec_body(),
    {
        &mut self.head.extensions
    }

    pub fn body(&self) -> (r: &T)
        ensures
            *r == self.spec_body(),
    {
        &self.body
    }

    pub fn body_mut(&mut self) -> (r: &mut T)
        ensures
            *r == old(self).spec_body(),
            final(self).spec_body() == *final(r),
            final(self).spec_head() == old(self).spec_head(),
    {
        &mut self.body
    }

    /// Give up the response, keeping only its body.
    pub fn into_body(self) -> (r: T)
        ensures
            r == self.spec_body(),
    {
        self.body
    }

    /// Give up the response, returning its head and body.
    pub fn into_head(self) -> (r: (Head, T))
        ensures
            r.0 == self.spec_head(),
            r.1 == self.spec_body(),
    {
        (self.head, self.body)
    }

    /// The response with its body replaced by what the given function
    /// makes of it.
    pub fn map<F, U>(self, f: F) -> (r: Response<U>) where F: FnOnce(T) -> U
        requires
            call_requires(f, (self.spec_body(),)),
        ensures
            r.spec_head() == self.spec_head(),
            call_ensures(f, (self.spec_body(),), r.spec_body()),
    {
        Response { body: f(self.body), head: self.head }
    }

    /// A builder for a response.
    pub fn builder() -> (r: Builder)
        ensures
            r.spec_inner() matches Ok(h) && h@ == HeadSpec::init() && h.wf(),
    {
        Builder::new()
    }
}

impl<T: Default> Default for Response<T> {
    fn default() -> (r: Response<T>)
        ensures
            r.spec_head()@ == HeadSpec::init(),
            r.wf(),
    {
        Response { head: Head::new(), body: T::default() }
    }
}

/// A builder of responses; setters accumulate into a head, and the first
/// malformed value is remembered and surfaced when the body is supplied.
#[derive(Debug)]
pub struct Builder {
    inner: Result<Head, BuildError>,
}

impl Builder {
    /// The pending head or the first error, for contracts.
    pub closed spec fn spec_inner(&self) -> Result<Head, BuildError> {
        self.inner
    }

    pub open spec fn wf(&self) -> bool {
        match self.spec_inner() {
            Ok(h) => h.wf(),
            Err(_) => true,
        }
    }

    pub fn new() -> (r: Builder)
        ensures
            r.spec_inner() matches Ok(h) && h@ == HeadSpec::init() && h.wf(),
    {
        Builder { inner: Ok(Head::new()) }
    }

    /// Set the status from its number; values outside 100..=999 fail the
    /// builder.
    pub fn status(self, status: u16) -> (r: Builder)
        ensures
            r.spec_inner() == (match self.spec_inner() {
                Ok(h) => if 100 <= status <= 999 {
                    Ok(Head { status: StatusCode { code: status }, ..h })
                } else {
                    Err::<Head, BuildError>(BuildError::InvalidStatus)
                },
                Err(e) => Err(e),
            }),
    {
        match self.inner {
            Ok(h) => match StatusCode::from_u16(status) {
                Some(s) => Builder { inner: Ok(Head { status: s, ..h }) },
                None => Builder { inner: Err(BuildError::InvalidStatus) },
            },
            Err(e) => Builder { inner: Err(e) },
        }
    }

    pub fn status_ref(&self) -> (r: Option<StatusCode>)
        ensures
            match (r, self.spec_inner()) {
                (Some(s), Ok(h)) => s == h.status,
                (None, Err(_)) => true,
                _ => false,
            },
    {
        match &self.inner {
            Ok(h) => Some(h.status),
            Err(_) => None,
        }
    }

    pub fn version(self, version: Version) -> (r: Builder)
        ensures
            r.spec_inner() == (match self.spec_inner() {
                Ok(h) => Ok::<Head, BuildError>(Head { version, ..h }),
                Err(e) => Err(e),
            }),
    {
        match self.inner {
            Ok(h) => Builder { inner: Ok(Head { version, ..h }) },
            Err(e) => Builder { inner: Err(e) },
        }
    }

    pub fn version_ref(&self) -> (r: Option<Version>)
        ensures
            match (r, self.spec_inner()) {
                (Some(v), Ok(h)) => v == h.version,
                (None, Err(_)) => true,
                _ => false,
            },
    {
        match &self.inner {
            Ok(h) => Some(h.version),
            Err(_) => None,
        }
    }

    /// Append a header; the name is lower-cased, and a malformed name or
    /// value fails the builder.
    pub fn header(self, name: &str, value: &str) -> (r: Builder)
        ensures
            match (r.spec_inner(), self.spec_inner()) {
                (Ok(h2), Ok(h1)) => crate::headers::valid_name(name@)
                    && crate::headers::valid_value(value@) && h2 == (Head {
                    headers: h2.headers,
                    ..h1
                }) && h2.headers@ == h1.headers@.push((text::spec_lower(name@), value@)),
                (Err(e2), Ok(_)) => if !crate::headers::valid_name(name@) {
                    e2 == BuildError::InvalidHeaderName
                } else {
                    !crate::headers::valid_value(value@) && e2 == BuildError::InvalidHeaderValue
                },
                (Err(e2), Err(e1)) => e2 == e1,
                _ => false,
            },
    {
        match self.inner {
            Ok(mut h) => match HeaderName::new(name) {
                Some(n) => match HeaderValue::new(value) {
                    Some(v) => {
                        h.headers.append(n, v);
                        Builder { inner: Ok(h) }
                    },
                    None => Builder { inner: Err(BuildError::InvalidHeaderValue) },
                },
                None => Builder { inner: Err(BuildError::InvalidHeaderName) },
            },
            Err(e) => Builder { inner: Err(e) },
        }
    }

    pub fn headers_ref(&self) -> (r: Option<&HeaderMap>)
        ensures
            match (r, self.spec_inner()) {
                (Some(m), Ok(h)) => *m == h.headers,
                (None, Err(_)) => true,
                _ => false,
            },
    {
        match &self.inner {
            Ok(h) => Some(&h.headers),
            Err(_) => None,
        }
    }

    pub fn headers_mut(&mut self) -> (r: Option<&mut HeaderMap>)
        ensures
            match (r, old(self).spec_inner()) {
                (Some(m), Ok(h)) => *m == h.headers && final(self).spec_inner() == Ok::<
                    Head,
                    BuildError,
                >(Head { headers: *final(m), ..h }),
                (None, Err(e)) => final(self).spec_inner() == Err::<Head, BuildError>(e),
                _ => false,
            },
    {
        match &mut self.inner {
            Ok(h) => Some(&mut h.headers),
            Err(_) => None,
        }
    }

    /// Store an extension value on the response being built.
    pub fn extension(self, key: u64, value: ExtValue) -> (r: Builder)
        requires
            self.wf(),
        ensures
            match (r.spec_inner(), self.spec_inner()) {
                (Ok(h2), Ok(h1)) => h2 == (Head { extensions: h2.extensions, ..h1 })
                    && h2.extensions@ == h1.extensions@.insert(key, value@)
                    && h2.extensions.wf(),
                (Err(e2), Err(e1)) => e2 == e1,
                _ => false,
            },
    {
        match self.inner {
            Ok(mut h) => {
                h.extensions.insert(key, value);
                Builder { inner: Ok(h) }
            },
            Err(e) => Builder { inner: Err(e) },
        }
    }

    pub fn extensions_ref(&self) -> (r: Option<&Extensions>)
        ensures
            match (r, self.spec_inner()) {
                (Some(x), Ok(h)) => *x == h.extensions,
                (None, Err(_)) => true,
                _ => false,
            },
    {
        match &self.inner {
            Ok(h) => Some(&h.extensions),
            Err(_) => None,
        }
    }

    pub fn extensions_mut(&mut self) -> (r: Option<&mut Extensions>)
        ensures
            match (r, old(self).spec_inner()) {
                (Some(x), Ok(h)) => *x == h.extensions && final(self).spec_inner() == Ok::<
                    Head,
                    BuildError,
                >(Head { extensions: *final(x), ..h }),
                (None, Err(e)) => final(self).spec_inner() == Err::<Head, BuildError>(e),
                _ => false,
            },
    {
        match &mut self.inner {
            Ok(h) => Some(&mut h.extensions),
            Err(_) => None,
        }
    }

    /// Run a caller-supplied transform over the pending head; an
    /// already-failed builder passes its error through untouched.
    pub fn and_then<F: FnOnce(Head) -> Result<Head, BuildError>>(self, f: F) -> (r: Builder)
        requires
            self.spec_inner() matches Ok(h) ==> call_requires(f, (h,)),
        ensures
            match self.spec_inner() {
                Ok(h) => call_ensures(f, (h,), r.spec_inner()),
                Err(e) => r.spec_inner() == Err::<Head, BuildError>(e),
            },
    {
        match self.inner {
            Ok(h) => Builder { inner: f(h) },
            Err(e) => Builder { inner: Err(e) },
        }
    }

    /// Finish the response with the given body, or surface the first
    /// error a setter ran into.
    pub fn body<T>(self, body: T) -> (r: Result<Response<T>, BuildError>)
        ensures
            match (r, self.spec_inner()) {
                (Ok(res), Ok(h)) => res.spec_head() == h && res.spec_body() == body,
                (Err(e2), Err(e1)) => e2 == e1,
                _ => false,
            },
    {
        match self.inner {
            Ok(h) => Ok(Response { head: h, body }),
            Err(e) => Err(e),
        }
    }
}

impl Default for Builder {
    fn default() -> (r: Builder)
        ensures
            r.spec_inner() matches Ok(h) && h@ == HeadSpec::init() && h.wf(),
    {
        Builder::new()
    }
}

} // verus!
