//! Turning handler return values into canonical responses: one
//! polymorphic contract, implemented for unit, text, byte buffers,
//! bodies, status codes, header maps, and tuples layering status and
//! headers over an inner value.
use vstd::prelude::*;
use vstd::string::StringSliceAdditionalSpecFns;
use crate::body::{buf_events, Body, BodyEv, BoxBody};
use crate::chunk::Bytes;
use crate::headers::HeaderMap;
use crate::response::{Head, HeadSpec, Response};
use crate::status::StatusCode;
use crate::text;
use crate::version::Version;

verus! {

/// The ghost image of a canonical response: its head and the events of
/// its (boxed) body.
pub struct RespSpec {
    pub head: HeadSpec,
    pub body: Seq<BodyEv>,
}

impl RespSpec {
    /// A blank `200 OK` response around the given body events.
    pub open spec fn plain(body: Seq<BodyEv>) -> RespSpec {
        RespSpec { head: HeadSpec::init(), body }
    }

    /// A blank response carrying one buffer and a single content-type
    /// header.
    pub open spec fn tagged(content_type: Seq<char>, body: Seq<u8>) -> RespSpec {
        RespSpec {
            head: HeadSpec {
                headers: seq![("content-type"@, content_type)],
                ..HeadSpec::init()
            },
            body: buf_events(body),
        }
    }
}

/// The facts the conversions below rely on: the header literals they
/// write are well-formed and already lower-case.
proof fn lemma_literal_headers()
    ensures
        crate::headers::valid_name("content-type"@),
        text::spec_lower("content-type"@) == "content-type"@,
        crate::headers::valid_value("text/plain; charset=utf-8"@),
        crate::headers::valid_value("application/octet-stream"@),
{
    reveal_strlit("content-type");
    reveal_strlit("text/plain; charset=utf-8");
    reveal_strlit("application/octet-stream");
    assert forall|i: int| 0 <= i < "content-type"@.len() implies text::spec_lower("content-type"@)[i]
        == "content-type"@[i] && crate::headers::header_name_char(
        #[trigger] text::spec_lower("content-type"@)[i],
    ) by {
        assert(text::spec_lower("content-type"@)[i] == text::spec_lower_char("content-type"@[i]));
    }
    assert(text::spec_lower("content-type"@) =~= "content-type"@);
    assert forall|i: int| 0 <= i < "text/plain; charset=utf-8"@.len() implies
        crate::headers::header_value_char(#[trigger] "text/plain; charset=utf-8"@[i]) by {}
    assert forall|i: int| 0 <= i < "application/octet-stream"@.len() implies
        crate::headers::header_value_char(#[trigger] "application/octet-stream"@[i]) by {}
}

/// A response with one buffer as its body and a single content-type
/// header; the backbone of the text and byte conversions.
fn tagged_response(content_type: &str, data: Bytes) -> (r: Response<BoxBody>)
    requires
        crate::headers::valid_value(content_type@),
    ensures
        r.spec_head()@ == (HeadSpec {
            headers: seq![("content-type"@, content_type@)],
            ..HeadSpec::init()
        }),
        r.spec_body().spec_events() == buf_events(data@),
        r.wf(),
{
    proof {
        lemma_literal_headers();
    }
    let name = crate::headers::known_name("content-type");
    let value = crate::headers::known_value(content_type);
    let mut r = Response::new(BoxBody::from_bytes(data));
    r.headers_mut().insert(name, value);
    proof {
        assert(Seq::<(Seq<char>, Seq<char>)>::empty().filter(
            |e: (Seq<char>, Seq<char>)| e.0 != "content-type"@,
        ) =~= Seq::<(Seq<char>, Seq<char>)>::empty());
        assert(r.spec_head()@.headers =~= seq![("content-type"@, content_type@)]);
    }
    r
}

/// A response around an already-boxed body with a single content-type
/// header.
pub fn tagged_body(content_type: &str, body: BoxBody) -> (r: Response<BoxBody>)
    requires
        crate::headers::valid_value(content_type@),
    ensures
        r.spec_head()@ == (HeadSpec {
            headers: seq![("content-type"@, content_type@)],
            ..HeadSpec::init()
        }),
        r.spec_body().spec_events() == body.spec_events(),
        r.wf(),
{
    proof {
        lemma_literal_headers();
    }
    let name = crate::headers::known_name("content-type");
    let value = crate::headers::known_value(content_type);
    let mut r = Response::new(body);
    r.headers_mut().append(name, value);
    proof {
        assert(r.spec_head()@.headers =~= seq![("content-type"@, content_type@)]);
    }
    r
}

/// The contract every handler return value fulfils: produce a canonical
/// response, exactly the one its ghost image describes.
pub trait IntoResponse {
    /// The response this value stands for.
    spec fn response_spec(self) -> RespSpec;

    /// Produce that response.
    fn into_response(self) -> (r: Response<BoxBody>) where Self: Sized
        ensures
            r.spec_head()@ == self.response_spec().head,
            r.spec_body().spec_events() == self.response_spec().body,
    ;
}

/// Unit: an empty `200 OK`.
impl IntoResponse for () {
    open spec fn response_spec(self) -> RespSpec {
        RespSpec::plain(Seq::empty())
    }

    fn into_response(self) -> (r: Response<BoxBody>) {
        Response::new(BoxBody::empty())
    }
}

/// Static text: the bytes, tagged as plain UTF-8 text.
impl IntoResponse for &'static str {
    open spec fn response_spec(self) -> RespSpec {
        RespSpec::tagged("text/plain; charset=utf-8"@, self.spec_bytes())
    }

    fn into_response(self) -> (r: Response<BoxBody>) {
        proof {
            lemma_literal_headers();
        }
        tagged_response("text/plain; charset=utf-8", Bytes::from_str_slice(self))
    }
}

/// Owned text: the bytes, tagged as plain UTF-8 text.
impl IntoResponse for String {
    open spec fn response_spec(self) -> RespSpec {
        RespSpec::tagged("text/plain; charset=utf-8"@, vstd::utf8::encode_utf8(self@))
    }

    fn into_response(self) -> (r: Response<BoxBody>) {
        proof {
            lemma_literal_headers();
        }
        tagged_response("text/plain; charset=utf-8", Bytes::from_string(self))
    }
}

/// A static byte buffer, tagged as an opaque byte stream.
impl IntoResponse for &'static [u8] {
    open spec fn response_spec(self) -> RespSpec {
        RespSpec::tagged("application/octet-stream"@, self@)
    }

    fn into_response(self) -> (r: Response<BoxBody>) {
        proof {
            lemma_literal_headers();
        }
        tagged_response("application/octet-stream", Bytes::from_slice(self))
    }
}

/// An owned byte buffer, tagged as an opaque byte stream.
impl IntoResponse for Vec<u8> {
    open spec fn response_spec(self) -> RespSpec {
        RespSpec::tagged("application/octet-stream"@, self@)
    }

    fn into_response(self) -> (r: Response<BoxBody>) {
        proof {
            lemma_literal_headers();
        }
        tagged_response("application/octet-stream", Bytes::from_vec(self))
    }
}

/// A chunk, tagged as an opaque byte stream.
impl IntoResponse for Bytes {
    open spec fn response_spec(self) -> RespSpec {
        RespSpec::tagged("application/octet-stream"@, self@)
    }

    fn into_response(self) -> (r: Response<BoxBody>) {
        proof {
            lemma_literal_headers();
        }
        tagged_response("application/octet-stream", self)
    }
}

/// An already-boxed body: a blank `200 OK` around it.
impl IntoResponse for BoxBody {
    open spec fn response_spec(self) -> RespSpec {
        RespSpec::plain(self.spec_events())
    }

    fn into_response(self) -> (r: Response<BoxBody>) {
        Response::new(self)
    }
}

/// A finished response passes through unchanged.
impl IntoResponse for Response<BoxBody> {
    open spec fn response_spec(self) -> RespSpec {
        RespSpec { head: self.spec_head()@, body: self.spec_body().spec_events() }
    }

    fn into_response(self) -> (r: Response<BoxBody>) {
        self
    }
}

/// A bare head: that head over an empty body.
impl IntoResponse for Head {
    open spec fn response_spec(self) -> RespSpec {
        RespSpec { head: self@, body: Seq::empty() }
    }

    fn into_response(self) -> (r: Response<BoxBody>) {
        Response::from_head(self, BoxBody::empty())
    }
}

/// A bare status: an empty body with that status.
impl IntoResponse for StatusCode {
    open spec fn response_spec(self) -> RespSpec {
        RespSpec { head: HeadSpec { status: self, ..HeadSpec::init() }, body: Seq::empty() }
    }

    fn into_response(self) -> (r: Response<BoxBody>) {
        let mut r = Response::new(BoxBody::empty());
        let s = r.status_mut();
        *s = self;
        r
    }
}

/// A bare header map: an empty body with those headers.
impl IntoResponse for HeaderMap {
    open spec fn response_spec(self) -> RespSpec {
        RespSpec { head: HeadSpec { headers: self@, ..HeadSpec::init() }, body: Seq::empty() }
    }

    fn into_response(self) -> (r: Response<BoxBody>) {
        let ghost hv = self@;
        let mut r = Response::new(BoxBody::empty());
        let h = r.headers_mut();
        let mut m = self;
        core::mem::swap(h, &mut m);
        r
    }
}

/// A status over an inner value: the inner conversion, its status
/// overridden.
impl<T: IntoResponse> IntoResponse for (StatusCode, T) {
    open spec fn response_spec(self) -> RespSpec {
        RespSpec {
            head: HeadSpec { status: self.0, ..self.1.response_spec().head },
            body: self.1.response_spec().body,
        }
    }

    fn into_response(self) -> (r: Response<BoxBody>) {
        let mut r = self.1.into_response();
        let s = r.status_mut();
        *s = self.0;
        r
    }
}

/// Headers over an inner value: the inner conversion, these headers
/// appended after its own.
impl<T: IntoResponse> IntoResponse for (HeaderMap, T) {
    open spec fn response_spec(self) -> RespSpec {
        RespSpec {
            head: HeadSpec {
                headers: self.1.response_spec().head.headers + self.0@,
                ..self.1.response_spec().head
            },
            body: self.1.response_spec().body,
        }
    }

    fn into_response(self) -> (r: Response<BoxBody>) {
        let mut r = self.1.into_response();
        r.headers_mut().extend(self.0);
        r
    }
}

/// Status and headers over an inner value: the outer status wins, the
/// outer headers land after the inner ones.
impl<T: IntoResponse> IntoResponse for (StatusCode, HeaderMap, T) {
    open spec fn response_spec(self) -> RespSpec {
        RespSpec {
            head: HeadSpec {
                status: self.0,
                headers: self.2.response_spec().head.headers + self.1@,
                ..self.2.response_spec().head
            },
            body: self.2.response_spec().body,
        }
    }

    fn into_response(self) -> (r: Response<BoxBody>) {
        let mut r = self.2.into_response();
        let s = r.status_mut();
        *s = self.0;
        r.headers_mut().extend(self.1);
        r
    }
}

} // verus!

verus! {

/// The law of tuple precedence: a status and headers layered over an
/// inner text pick the outer status, keep the text's own body and
/// default content type, and append the outer headers after it.
pub proof fn lemma_tuple_precedence(status: StatusCode, headers: HeaderMap, body: &'static str)
    ensures
        (status, headers, body).response_spec().head.status == status,
        (status, headers, body).response_spec().head.headers == seq![
            ("content-type"@, "text/plain; charset=utf-8"@),
        ] + headers@,
        (status, headers, body).response_spec().body == buf_events(body.spec_bytes()),
        (status, headers, body).response_spec().head.version == Version::Http11,
{
}

} // verus!
