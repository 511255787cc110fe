//! Pulling values out of a request: its whole payload, a header, the
//! captured path parameters, an extension value, or its body as a
//! stream.
use vstd::prelude::*;
use crate::body::{drain, drain_spec, BodyStream, BoxBody};
use crate::chunk::Bytes;
use crate::error::Error;
use crate::extensions::{ExtValue, PARAMS_KEY};
use crate::request::Request;
use crate::router::params_base;

verus! {

/// Drain the request's payload into one buffer; a failing body hands
/// out its failure instead.
pub fn bytes(request: &mut Request<BoxBody>) -> (r: Result<Bytes, Error>)
    ensures
        match r {
            Ok(b) => drain_spec(old(request).spec_body().spec_events()) == Ok::<
                Seq<u8>,
                Seq<char>,
            >(b@) && final(request).spec_body().spec_events() == Seq::<
                crate::body::BodyEv,
            >::empty(),
            Err(e) => e matches Error::Body(be) && drain_spec(
                old(request).spec_body().spec_events(),
            ) == Err::<Seq<u8>, Seq<char>>(be@),
        },
        final(request).spec_head() == old(request).spec_head(),
{
    match drain(request.body_mut()) {
        Ok(b) => Ok(b),
        Err(e) => Err(Error::Body(e)),
    }
}

/// Take the request's body to consume it as a stream of chunks.
pub fn stream(request: &mut Request<BoxBody>) -> (r: BodyStream<BoxBody>)
    ensures
        r.spec_body().spec_events() == old(request).spec_body().spec_events(),
        final(request).spec_body().spec_events() == Seq::<crate::body::BodyEv>::empty(),
        final(request).spec_head() == old(request).spec_head(),
{
    let mut body = BoxBody::empty();
    core::mem::swap(&mut body, request.body_mut());
    BodyStream::new(body)
}

/// The extension value stored under a key.
pub fn extension<B>(request: &Request<B>, key: u64) -> (r: Option<&ExtValue>)
    requires
        request.spec_head().extensions.wf(),
    ensures
        match r {
            Some(v) => request.spec_head().extensions@.contains_key(key) && request.spec_head().extensions@[key]
                == v@,
            None => !request.spec_head().extensions@.contains_key(key),
        },
{
    request.extensions().get(key)
}

/// The extension value stored under a key, exposed for in-place
/// change; with nothing stored there, nothing changes.
pub fn extension_mut<'a, B>(request: &'a mut Request<B>, key: u64) -> (r: Option<
    &'a mut ExtValue,
>)
    requires
        old(request).spec_head().extensions.wf(),
    ensures
        match r {
            Some(v) => old(request).spec_head().extensions@.contains_key(key)
                && (*v)@ == old(request).spec_head().extensions@[key]
                && final(request).spec_head().extensions@
                == old(request).spec_head().extensions@.insert(key, final(v)@),
            None => !old(request).spec_head().extensions@.contains_key(key)
                && final(request).spec_head().extensions@
                == old(request).spec_head().extensions@,
        },
        final(request).spec_head().extensions.wf(),
        final(request).spec_head() == (crate::request::Head {
            extensions: final(request).spec_head().extensions,
            ..old(request).spec_head()
        }),
        final(request).spec_body() == old(request).spec_body(),
{
    request.extensions_mut().get_mut(key)
}

/// What went wrong while extracting a header.
#[derive(Debug)]
pub enum ExtractHeaderError {
    /// No value is stored under the name.
    MissingHeader { name: String },
    /// Reserved for values that cannot be read as text; never produced
    /// here, since stored values are text already.
    InvalidHeader { name: String },
}

/// The first value of the named header, as text.
pub fn header<B>(request: &Request<B>, name: &str) -> (r: Result<String, ExtractHeaderError>)
    ensures
        match r {
            Ok(v) => crate::headers::spec_get(
                request.spec_head().headers@,
                crate::text::spec_lower(name@),
            ) == Some(v@),
            Err(ExtractHeaderError::MissingHeader { name: n }) => crate::headers::spec_get(
                request.spec_head().headers@,
                crate::text::spec_lower(name@),
            ) is None && n@ == name@,
            Err(ExtractHeaderError::InvalidHeader { .. }) => false,
        },
{
    match request.headers().get(name) {
        Some(v) => Ok(v.as_str().to_owned()),
        None => Err(ExtractHeaderError::MissingHeader { name: name.to_owned() }),
    }
}

/// What went wrong while extracting a path parameter.
#[derive(Debug)]
pub enum ExtractParamError {
    /// No capture of that name reached the handler.
    MissingParam { name: String },
    /// Reserved for captures that fail a caller's parse; never produced
    /// here, since captures are handed out as text.
    InvalidParam { name: String },
}

/// The capture stored under a name, borrowed from the request.
pub fn param_ref<'a, B>(request: &'a Request<B>, name: &str) -> (r: Option<&'a String>)
    requires
        request.spec_head().extensions.wf(),
    ensures
        match r {
            Some(v) => params_base(request.spec_head().extensions@).contains_key(name@)
                && params_base(request.spec_head().extensions@)[name@] == v@,
            None => !params_base(request.spec_head().extensions@).contains_key(name@),
        },
{
    match request.extensions().get(PARAMS_KEY) {
        Some(ExtValue::Params(p)) => p.get(name),
        _ => None,
    }
}

/// The capture stored under a name, owned.
pub fn param<B>(request: &Request<B>, name: &str) -> (r: Result<String, ExtractParamError>)
    requires
        request.spec_head().extensions.wf(),
    ensures
        match r {
            Ok(v) => params_base(request.spec_head().extensions@).contains_key(name@)
                && params_base(request.spec_head().extensions@)[name@] == v@,
            Err(ExtractParamError::MissingParam { name: n }) => !params_base(
                request.spec_head().extensions@,
            ).contains_key(name@) && n@ == name@,
            Err(ExtractParamError::InvalidParam { .. }) => false,
        },
{
    match param_ref(request, name) {
        Some(v) => Ok(v.clone()),
        None => Err(ExtractParamError::MissingParam { name: name.to_owned() }),
    }
}

/// Every capture that reached the handler, as name and value pairs.
pub fn params<B>(request: &Request<B>) -> (r: Vec<(String, String)>)
    requires
        request.spec_head().extensions.wf(),
    ensures
        crate::params::Params::spec_entries_map(r@) == params_base(
            request.spec_head().extensions@,
        ),
{
    match request.extensions().get(PARAMS_KEY) {
        Some(ExtValue::Params(p)) => {
            let c = p.clone();
            c.into_inner()
        },
        _ => {
            let r: Vec<(String, String)> = Vec::new();
            proof {
                assert(crate::params::Params::spec_entries_map(r@) =~= params_base(
                    request.spec_head().extensions@,
                ));
            }
            r
        },
    }
}

} // verus!
