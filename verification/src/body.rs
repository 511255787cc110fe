//! The body of a message: a pull-based producer of byte chunks. A body's
//! ghost image is the sequence of events its remaining polls will yield;
//! each poll consumes the front of that sequence.
use vstd::prelude::*;
use vstd::string::StrSliceExecFns;
use vstd::string::StringSliceAdditionalSpecFns;
use crate::chunk::Bytes;
use crate::error::BodyError;
use crate::request::Request;
use crate::response::Response;

verus! {

/// One future event of a body, as ghost data.
pub enum BodyEv {
    /// The producer was not ready; a later poll must be made.
    Pend,
    /// A chunk of payload bytes.
    Data(Seq<u8>),
    /// A failure, as text; the body is exhausted afterwards.
    Fail(Seq<char>),
}

/// What one poll of a body yields.
#[derive(Debug)]
pub enum BodyPoll {
    /// Not ready yet; poll again later.
    Pending,
    /// The body is exhausted.
    Finished,
    /// A chunk of payload bytes.
    Data(Bytes),
    /// A failure.
    Failed(BodyError),
}

/// Whether an answered poll reports the given event.
pub open spec fn poll_matches(r: BodyPoll, ev: BodyEv) -> bool {
    match (r, ev) {
        (BodyPoll::Pending, BodyEv::Pend) => true,
        (BodyPoll::Data(b), BodyEv::Data(d)) => b@ == d,
        (BodyPoll::Failed(e), BodyEv::Fail(m)) => e@ == m,
        _ => false,
    }
}

/// The contract of one poll: an exhausted body answers `Finished` and
/// stays exhausted; otherwise the front event is yielded and consumed.
pub open spec fn poll_protocol(before: Seq<BodyEv>, after: Seq<BodyEv>, r: BodyPoll) -> bool {
    if before.len() == 0 {
        r is Finished && after == before
    } else {
        poll_matches(r, before[0]) && after == before.drop_first()
    }
}

/// What draining a body yields: the concatenated chunks, or the first
/// failure.
pub open spec fn drain_spec(events: Seq<BodyEv>) -> Result<Seq<u8>, Seq<char>>
    decreases events.len(),
{
    if events.len() == 0 {
        Ok(Seq::empty())
    } else {
        match events[0] {
            BodyEv::Pend => drain_spec(events.drop_first()),
            BodyEv::Data(d) => match drain_spec(events.drop_first()) {
                Ok(rest) => Ok(d + rest),
                Err(m) => Err(m),
            },
            BodyEv::Fail(m) => Err(m),
        }
    }
}

/// The events of a one-buffer body: one chunk, or none when empty.
pub open spec fn buf_events(data: Seq<u8>) -> Seq<BodyEv> {
    if data.len() == 0 {
        Seq::empty()
    } else {
        seq![BodyEv::Data(data)]
    }
}

/// A bound on the bytes a body has yet to produce: the lower bound always
/// holds; when `upper` is present it holds too, and `lower == upper`
/// asserts the exact remaining count.
#[derive(Debug)]
pub struct SizeHint {
    pub lower: u64,
    pub upper: Option<u64>,
}

impl Clone for SizeHint {
    fn clone(&self) -> (r: Self)
        ensures
            r == *self,
    {
        SizeHint { lower: self.lower, upper: self.upper }
    }
}

impl SizeHint {
    /// The trivial bound: at least zero bytes, no upper bound.
    pub fn new() -> (r: SizeHint)
        ensures
            r == (SizeHint { lower: 0u64, upper: None::<u64> }),
    {
        SizeHint { lower: 0, upper: None }
    }

    /// A bound asserting exactly `n` remaining bytes.
    pub fn with_exact(n: u64) -> (r: SizeHint)
        ensures
            r == (SizeHint { lower: n, upper: Some(n) }),
    {
        SizeHint { lower: n, upper: Some(n) }
    }

    pub fn lower(&self) -> (r: u64)
        ensures
            r == self.lower,
    {
        self.lower
    }

    pub fn upper(&self) -> (r: Option<u64>)
        ensures
            r == self.upper,
    {
        self.upper
    }

    /// The exact remaining count, where the bounds pin one down.
    pub fn exact(&self) -> (r: Option<u64>)
        ensures
            r == (if self.upper == Some(self.lower) {
                Some(self.lower)
            } else {
                None::<u64>
            }),
    {
        match self.upper {
            Some(u) if u == self.lower => Some(self.lower),
            _ => None,
        }
    }

    pub fn set_lower(&mut self, n: u64)
        ensures
            *final(self) == (SizeHint { lower: n, ..*old(self) }),
    {
        self.lower = n;
    }

    pub fn set_upper(&mut self, n: u64)
        ensures
            *final(self) == (SizeHint { upper: Some(n), ..*old(self) }),
    {
        self.upper = Some(n);
    }
}

impl Default for SizeHint {
    fn default() -> (r: SizeHint)
        ensures
            r == (SizeHint { lower: 0u64, upper: None::<u64> }),
    {
        SizeHint::new()
    }
}

/// A producer of byte chunks under cooperative polling.
pub trait Body {
    /// The events the remaining polls will yield, in order.
    spec fn events(&self) -> Seq<BodyEv>;

    /// The bound `size_hint` reports.
    spec fn hint_spec(&self) -> SizeHint;

    /// Yield the next event, consuming it.
    fn poll_next(&mut self) -> (r: BodyPoll)
        ensures
            poll_protocol(old(self).events(), final(self).events(), r),
    ;

    /// A bound on the remaining payload.
    fn size_hint(&self) -> (h: SizeHint)
        ensures
            h == self.hint_spec(),
    ;

    /// Erase the body's concrete type, keeping its events and its bound.
    fn boxed(self) -> (r: BoxBody) where Self: Sized
        ensures
            r.spec_events() == self.events(),
            r.spec_hint() == self.hint_spec(),
    ;
}

/// Conveniences every body gets.
pub trait BodyExt: Body {
    /// Resolve the next chunk: one poll.
    fn next(&mut self) -> (r: BodyPoll)
        ensures
            poll_protocol(old(self).events(), final(self).events(), r),
    {
        self.poll_next()
    }

    /// Consume the body as a stream of its chunks and failures.
    fn stream(self) -> (r: BodyStream<Self>) where Self: Sized
        ensures
            r.spec_body().events() == self.events(),
    {
        BodyStream::new(self)
    }

    /// Wrap the body, passing each failure through the given transform.
    fn map_err<F: Fn(BodyError) -> BodyError>(self, f: F) -> (r: MapErr<Self, F>) where
        Self: Sized,

        ensures
            r == (MapErr { inner: self, f }),
    {
        MapErr { inner: self, f }
    }
}

impl<B: Body> BodyExt for B {

}

/// The empty body: no chunks, exactly zero bytes.
impl Body for () {
    open spec fn events(&self) -> Seq<BodyEv> {
        Seq::empty()
    }

    open spec fn hint_spec(&self) -> SizeHint {
        SizeHint { lower: 0, upper: Some(0) }
    }

    fn poll_next(&mut self) -> (r: BodyPoll) {
        BodyPoll::Finished
    }

    fn size_hint(&self) -> (h: SizeHint) {
        SizeHint::with_exact(0)
    }

    fn boxed(self) -> (r: BoxBody) {
        BoxBody::empty()
    }
}

/// A whole buffer as one chunk; an empty buffer exhausts immediately.
impl Body for Bytes {
    open spec fn events(&self) -> Seq<BodyEv> {
        buf_events(self@)
    }

    open spec fn hint_spec(&self) -> SizeHint {
        SizeHint { lower: self@.len() as u64, upper: Some(self@.len() as u64) }
    }

    fn poll_next(&mut self) -> (r: BodyPoll) {
        if self.is_empty() {
            BodyPoll::Finished
        } else {
            let data = self.take();
            proof {
                assert(self.events() =~= buf_events(data@).drop_first());
            }
            BodyPoll::Data(data)
        }
    }

    fn size_hint(&self) -> (h: SizeHint) {
        SizeHint::with_exact(self.len() as u64)
    }

    fn boxed(self) -> (r: BoxBody) {
        BoxBody::from_bytes(self)
    }
}

/// An owned byte buffer as one chunk.
impl Body for Vec<u8> {
    open spec fn events(&self) -> Seq<BodyEv> {
        if self@.len() == 0 {
            Seq::empty()
        } else {
            seq![BodyEv::Data(self@)]
        }
    }

    open spec fn hint_spec(&self) -> SizeHint {
        SizeHint { lower: self@.len() as u64, upper: Some(self@.len() as u64) }
    }

    fn poll_next(&mut self) -> (r: BodyPoll) {
        if self.len() == 0 {
            BodyPoll::Finished
        } else {
            let mut data: Vec<u8> = Vec::new();
            core::mem::swap(&mut data, self);
            proof {
                assert(self.events() =~= old(self).events().drop_first());
            }
            BodyPoll::Data(Bytes::from_vec(data))
        }
    }

    fn size_hint(&self) -> (h: SizeHint) {
        SizeHint::with_exact(self.len() as u64)
    }

    fn boxed(self) -> (r: BoxBody) {
        BoxBody::from_bytes(Bytes::from_vec(self))
    }
}

/// An owned string as one chunk of its UTF-8 bytes.
impl Body for String {
    open spec fn events(&self) -> Seq<BodyEv> {
        if vstd::utf8::encode_utf8(self@).len() == 0 {
            Seq::empty()
        } else {
            seq![BodyEv::Data(vstd::utf8::encode_utf8(self@))]
        }
    }

    open spec fn hint_spec(&self) -> SizeHint {
        SizeHint {
            lower: vstd::utf8::encode_utf8(self@).len() as u64,
            upper: Some(vstd::utf8::encode_utf8(self@).len() as u64),
        }
    }

    fn poll_next(&mut self) -> (r: BodyPoll) {
        let mut data: String = String::new();
        core::mem::swap(&mut data, self);
        let b = Bytes::from_string(data);
        proof {
            assert(vstd::utf8::encode_utf8(self@) =~= Seq::<u8>::empty());
            assert(self.events() =~= Seq::<BodyEv>::empty());
            if old(self).events().len() > 0 {
                assert(self.events() =~= old(self).events().drop_first());
            }
        }
        if b.is_empty() {
            BodyPoll::Finished
        } else {
            BodyPoll::Data(b)
        }
    }

    fn size_hint(&self) -> (h: SizeHint) {
        SizeHint::with_exact(self.as_str().as_bytes_vec().len() as u64)
    }

    fn boxed(self) -> (r: BoxBody) {
        BoxBody::from_bytes(Bytes::from_string(self))
    }
}

/// A static string as one chunk of its UTF-8 bytes.
impl Body for &'static str {
    open spec fn events(&self) -> Seq<BodyEv> {
        if self.spec_bytes().len() == 0 {
            Seq::empty()
        } else {
            seq![BodyEv::Data(self.spec_bytes())]
        }
    }

    open spec fn hint_spec(&self) -> SizeHint {
        SizeHint {
            lower: self.spec_bytes().len() as u64,
            upper: Some(self.spec_bytes().len() as u64),
        }
    }

    fn poll_next(&mut self) -> (r: BodyPoll) {
        let mut data: &'static str = "";
        core::mem::swap(&mut data, self);
        let b = Bytes::from_str_slice(data);
        proof {
            reveal_strlit("");
            assert((""@).len() == 0);
            assert(self.spec_bytes() =~= Seq::<u8>::empty());
            assert(self.events() =~= Seq::<BodyEv>::empty());
            if old(self).events().len() > 0 {
                assert(self.events() =~= old(self).events().drop_first());
            }
        }
        if b.is_empty() {
            BodyPoll::Finished
        } else {
            BodyPoll::Data(b)
        }
    }

    fn size_hint(&self) -> (h: SizeHint) {
        SizeHint::with_exact(self.as_bytes_vec().len() as u64)
    }

    fn boxed(self) -> (r: BoxBody) {
        BoxBody::from_bytes(Bytes::from_str_slice(self))
    }
}

/// A request is a body: it streams its own payload.
impl<B: Body> Body for Request<B> {
    open spec fn events(&self) -> Seq<BodyEv> {
        self.spec_body().events()
    }

    open spec fn hint_spec(&self) -> SizeHint {
        self.spec_body().hint_spec()
    }

    fn poll_next(&mut self) -> (r: BodyPoll) {
        self.body_mut().poll_next()
    }

    fn size_hint(&self) -> (h: SizeHint) {
        self.body().size_hint()
    }

    fn boxed(self) -> (r: BoxBody) {
        self.into_body().boxed()
    }
}

/// A response is a body: it streams its own payload.
impl<B: Body> Body for Response<B> {
    open spec fn events(&self) -> Seq<BodyEv> {
        self.spec_body().events()
    }

    open spec fn hint_spec(&self) -> SizeHint {
        self.spec_body().hint_spec()
    }

    fn poll_next(&mut self) -> (r: BodyPoll) {
        self.body_mut().poll_next()
    }

    fn size_hint(&self) -> (h: SizeHint) {
        self.body().size_hint()
    }

    fn boxed(self) -> (r: BoxBody) {
        self.into_body().boxed()
    }
}

/// One element of a recorded stream.
#[derive(Debug)]
pub enum StreamEntry {
    /// The source was not ready at this point.
    Pending,
    /// A chunk.
    Data(Bytes),
    /// A failure.
    Failed(BodyError),
}

impl StreamEntry {
    /// The body event this element stands for.
    pub open spec fn ev(&self) -> BodyEv {
        match self {
            StreamEntry::Pending => BodyEv::Pend,
            StreamEntry::Data(b) => BodyEv::Data(b@),
            StreamEntry::Failed(e) => BodyEv::Fail(e@),
        }
    }
}

/// A body over a recorded sequence of chunks, failures and not-ready
/// points: each element answers exactly one poll.
#[derive(Debug)]
pub struct StreamBody {
    pub entries: Vec<StreamEntry>,
    pub cursor: usize,
}

impl StreamBody {
    /// The body whose polls answer the given elements in order.
    pub fn new(entries: Vec<StreamEntry>) -> (r: StreamBody)
        ensures
            r.events() == entries@.map(|i: int, e: StreamEntry| e.ev()),
    {
        let r = StreamBody { entries, cursor: 0 };
        proof {
            assert(r.entries@.skip(0) =~= r.entries@);
        }
        r
    }
}

impl StreamBody {
    /// The elements not yet handed out, as body events.
    pub open spec fn spec_events(&self) -> Seq<BodyEv> {
        if self.cursor <= self.entries@.len() {
            self.entries@.skip(self.cursor as int).map(|i: int, e: StreamEntry| e.ev())
        } else {
            Seq::empty()
        }
    }
}

impl Body for StreamBody {
    open spec fn events(&self) -> Seq<BodyEv> {
        self.spec_events()
    }

    open spec fn hint_spec(&self) -> SizeHint {
        SizeHint { lower: 0, upper: None }
    }

    fn poll_next(&mut self) -> (r: BodyPoll) {
        if self.cursor >= self.entries.len() {
            proof {
                if self.cursor <= self.entries@.len() {
                    assert(self.entries@.skip(self.cursor as int) =~= Seq::<StreamEntry>::empty());
                }
            }
            BodyPoll::Finished
        } else {
            let ghost before = self.events();
            let i = self.cursor;
            self.cursor = i + 1;
            proof {
                let f = |k: int, e: StreamEntry| e.ev();
                assert(self.entries@.skip(i as int).drop_first() =~= self.entries@.skip(i + 1));
                assert(self.entries@.skip(i as int).map(f).drop_first() =~= self.entries@.skip(
                    i + 1,
                ).map(f));
                assert(before[0] == self.entries@[i as int].ev());
            }
            let r = match &self.entries[i] {
                StreamEntry::Pending => BodyPoll::Pending,
                StreamEntry::Data(b) => BodyPoll::Data(b.clone()),
                StreamEntry::Failed(e) => BodyPoll::Failed(e.clone()),
            };
            r
        }
    }

    fn size_hint(&self) -> (h: SizeHint) {
        SizeHint::new()
    }

    fn boxed(self) -> (r: BoxBody) {
        let ghost ev = self.events();
        let r = BoxBody { kind: BoxKind::Stream(self) };
        r
    }
}

/// A body consumed as a stream: the adapter in the other direction.
#[derive(Debug)]
pub struct BodyStream<B> {
    body: B,
}

impl<B: Body> BodyStream<B> {
    /// The wrapped body, for contracts.
    pub closed spec fn spec_body(&self) -> B {
        self.body
    }

    pub fn new(body: B) -> (r: BodyStream<B>)
        ensures
            r.spec_body() == body,
    {
        BodyStream { body }
    }

    /// Yield the next element of the underlying body, one per poll.
    pub fn poll_next(&mut self) -> (r: BodyPoll)
        ensures
            poll_protocol(
                old(self).spec_body().events(),
                final(self).spec_body().events(),
                r,
            ),
    {
        self.body.poll_next()
    }

    /// Give back the wrapped body.
    pub fn into_inner(self) -> (r: B)
        ensures
            r == self.spec_body(),
    {
        self.body
    }
}

/// A body whose failures run through a caller-supplied transform; chunks
/// pass through unchanged, as does the size bound.
pub struct MapErr<B, F> {
    pub inner: B,
    pub f: F,
}

impl<B, F> MapErr<B, F> {
    pub fn new(inner: B, f: F) -> (r: MapErr<B, F>)
        ensures
            r == (MapErr { inner, f }),
    {
        MapErr { inner, f }
    }

    pub fn get_ref(&self) -> (r: &B)
        ensures
            *r == self.inner,
    {
        &self.inner
    }

    pub fn get_mut(&mut self) -> (r: &mut B)
        ensures
            *r == old(self).inner,
            final(self).inner == *final(r),
            final(self).f == old(self).f,
    {
        &mut self.inner
    }

    pub fn into_inner(self) -> (r: B)
        ensures
            r == self.inner,
    {
        self.inner
    }
}

impl<B: Body, F: Fn(BodyError) -> BodyError> MapErr<B, F> {
    /// One poll of the wrapped body, any failure transformed.
    pub fn poll_next(&mut self) -> (r: BodyPoll)
        requires
            forall|e: BodyError| call_requires(old(self).f, (e,)),
        ensures
            final(self).f == old(self).f,
            old(self).inner.events().len() == 0 ==> r is Finished && final(self).inner.events()
                == old(self).inner.events(),
            old(self).inner.events().len() > 0 ==> final(self).inner.events() == old(
                self,
            ).inner.events().drop_first() && (match (r, old(self).inner.events()[0]) {
                (BodyPoll::Pending, BodyEv::Pend) => true,
                (BodyPoll::Data(b), BodyEv::Data(d)) => b@ == d,
                (BodyPoll::Failed(e2), BodyEv::Fail(m)) => exists|e1: BodyError|
                    e1@ == m && call_ensures(old(self).f, (e1,), e2),
                _ => false,
            }),
    {
        match self.inner.poll_next() {
            BodyPoll::Pending => BodyPoll::Pending,
            BodyPoll::Finished => BodyPoll::Finished,
            BodyPoll::Data(b) => BodyPoll::Data(b),
            BodyPoll::Failed(e) => {
                let ghost e1 = e;
                let e2 = (self.f)(e);
                proof {
                    assert(call_ensures(old(self).f, (e1,), e2));
                }
                BodyPoll::Failed(e2)
            },
        }
    }

    pub fn size_hint(&self) -> (h: SizeHint)
        ensures
            h == self.inner.hint_spec(),
    {
        self.inner.size_hint()
    }
}

/// The shapes a type-erased body can take.
#[derive(Debug)]
enum BoxKind {
    /// A whole in-memory buffer.
    Buf(Bytes),
    /// A recorded stream.
    Stream(StreamBody),
    /// A server-push event stream.
    Sse(crate::sse::SseBody),
}

/// Box a server-push body.
pub fn box_sse(body: crate::sse::SseBody) -> (r: BoxBody)
    ensures
        r.spec_events() == body.spec_events(),
        r.spec_hint() == (SizeHint { lower: 0u64, upper: None::<u64> }),
{
    BoxBody { kind: BoxKind::Sse(body) }
}

/// A type-erased body: any concrete body, boxed behind one uniform type
/// so heterogeneous bodies can flow through generic-free code. Each poll
/// passes straight through to the erased body.
#[derive(Debug)]
pub struct BoxBody {
    kind: BoxKind,
}

impl BoxBody {
    /// The erased body's remaining events, for contracts.
    pub closed spec fn spec_events(&self) -> Seq<BodyEv> {
        match self.kind {
            BoxKind::Buf(b) => buf_events(b@),
            BoxKind::Stream(s) => s.spec_events(),
            BoxKind::Sse(s) => s.spec_events(),
        }
    }

    /// The erased body's bound, for contracts.
    pub closed spec fn spec_hint(&self) -> SizeHint {
        match self.kind {
            BoxKind::Buf(b) => SizeHint { lower: b@.len() as u64, upper: Some(b@.len() as u64) },
            BoxKind::Stream(_) => SizeHint { lower: 0, upper: None },
            BoxKind::Sse(_) => SizeHint { lower: 0, upper: None },
        }
    }
}

impl BoxBody {
    /// Box any body.
    pub fn new<B: Body>(body: B) -> (r: BoxBody)
        ensures
            r.spec_events() == body.events(),
            r.spec_hint() == body.hint_spec(),
    {
        body.boxed()
    }

    /// The empty boxed body.
    pub fn empty() -> (r: BoxBody)
        ensures
            r.spec_events() == Seq::<BodyEv>::empty(),
            r.spec_hint() == (SizeHint { lower: 0u64, upper: Some(0u64) }),
    {
        let r = BoxBody { kind: BoxKind::Buf(Bytes::new()) };
        proof {
            assert(r.spec_events() =~= Seq::<BodyEv>::empty());
        }
        r
    }

    /// A boxed body around one buffer.
    pub fn from_bytes(data: Bytes) -> (r: BoxBody)
        ensures
            r.spec_events() == buf_events(data@),
            r.spec_hint() == (SizeHint {
                lower: data@.len() as u64,
                upper: Some(data@.len() as u64),
            }),
    {
        BoxBody { kind: BoxKind::Buf(data) }
    }
}

impl Body for BoxBody {
    open spec fn events(&self) -> Seq<BodyEv> {
        self.spec_events()
    }

    open spec fn hint_spec(&self) -> SizeHint {
        self.spec_hint()
    }

    fn poll_next(&mut self) -> (r: BodyPoll) {
        match &mut self.kind {
            BoxKind::Buf(b) => b.poll_next(),
            BoxKind::Stream(s) => s.poll_next(),
            BoxKind::Sse(s) => s.poll_next(),
        }
    }

    fn size_hint(&self) -> (h: SizeHint) {
        match &self.kind {
            BoxKind::Buf(b) => b.size_hint(),
            BoxKind::Stream(s) => s.size_hint(),
            BoxKind::Sse(s) => s.size_hint(),
        }
    }

    fn boxed(self) -> (r: BoxBody) {
        self
    }
}

impl Default for BoxBody {
    /// The default boxed body is empty.
    fn default() -> (r: BoxBody)
        ensures
            r.spec_events() == Seq::<BodyEv>::empty(),
    {
        BoxBody::empty()
    }
}

/// Drain a body: concatenate its chunks until it ends, or surface its
/// first failure.
pub fn drain<B: Body>(body: &mut B) -> (r: Result<Bytes, BodyError>)
    ensures
        match r {
            Ok(b) => drain_spec(old(body).events()) == Ok::<Seq<u8>, Seq<char>>(b@)
                && final(body).events() == Seq::<BodyEv>::empty(),
            Err(e) => drain_spec(old(body).events()) == Err::<Seq<u8>, Seq<char>>(e@),
        },
{
    let mut acc = Bytes::new();
    proof {
        assert(acc@ + (match drain_spec(body.events()) {
            Ok(t) => t,
            Err(_) => Seq::empty(),
        }) =~= (match drain_spec(body.events()) {
            Ok(t) => t,
            Err(_) => Seq::empty(),
        }));
    }
    loop
        invariant
            drain_spec(old(body).events()) == (match drain_spec(body.events()) {
                Ok(rest) => Ok::<Seq<u8>, Seq<char>>(acc@ + rest),
                Err(m) => Err::<Seq<u8>, Seq<char>>(m),
            }),
        decreases body.events().len(),
    {
        let ghost before = body.events();
        match body.poll_next() {
            BodyPoll::Finished => {
                proof {
                    assert(before.len() == 0);
                    assert(acc@ + Seq::<u8>::empty() =~= acc@);
                }
                return Ok(acc);
            },
            BodyPoll::Pending => {
            },
            BodyPoll::Data(b) => {
                proof {
                    if drain_spec(before.drop_first()) is Ok {
                        assert(acc@ + (b@ + drain_spec(before.drop_first())->Ok_0) =~= (acc@ + b@)
                            + drain_spec(before.drop_first())->Ok_0);
                    }
                }
                acc.extend_from(&b);
            },
            BodyPoll::Failed(e) => {
                return Err(e);
            },
        }
    }
}

} // verus!

verus! {

/// The law of leaf bodies: boxing a buffer gives a body whose chunks
/// drain back to exactly that buffer, whose stream then ends, and whose
/// size bound is exact from the start; an empty buffer ends at once.
pub proof fn lemma_buf_round_trip(data: Seq<u8>)
    ensures
        drain_spec(buf_events(data)) == Ok::<Seq<u8>, Seq<char>>(data),
        data.len() == 0 ==> buf_events(data) == Seq::<BodyEv>::empty(),
{
    if data.len() == 0 {
        assert(drain_spec(buf_events(data)) == Ok::<Seq<u8>, Seq<char>>(Seq::empty()));
        assert(Seq::<u8>::empty() =~= data);
    } else {
        let evs = buf_events(data);
        assert(evs[0] == BodyEv::Data(data));
        assert(evs.drop_first() =~= Seq::<BodyEv>::empty());
        assert(drain_spec(evs.drop_first()) == Ok::<Seq<u8>, Seq<char>>(Seq::empty()));
        assert(data + Seq::<u8>::empty() =~= data);
    }
}

} // verus!
