//! Server-push events: a text encoding of event blocks, and a body that
//! interleaves real events with comment-only keep-alive blocks when the
//! event source stays quiet too long.
use vstd::prelude::*;
use crate::body::{Body, BodyEv, BodyPoll, BoxBody, SizeHint};
use crate::chunk::Bytes;
use crate::error::BodyError;
use crate::headers::HeaderMap;
use crate::response::Response;
use crate::respond::IntoResponse;
use crate::text;

verus! {

/// A span of time in whole seconds plus milliseconds.
#[derive(Clone, Copy, PartialEq, Eq, Structural, Debug)]
pub struct Duration {
    pub secs: u64,
    pub millis: u16,
}

impl Duration {
    pub open spec fn wf(self) -> bool {
        self.millis < 1000
    }

    pub fn new(secs: u64, millis: u16) -> (r: Duration)
        requires
            millis < 1000,
        ensures
            r == (Duration { secs, millis }),
            r.wf(),
    {
        Duration { secs, millis }
    }

    /// The whole span in milliseconds, saturating at the limit.
    pub open spec fn spec_ticks(self) -> int {
        if self.secs > (u64::MAX - self.millis) / 1000 {
            u64::MAX as int
        } else {
            self.secs * 1000 + self.millis
        }
    }

    pub fn ticks(self) -> (r: u64)
        ensures
            r as int == self.spec_ticks(),
    {
        let m = self.millis as u64;
        let lim = (u64::MAX - m) / 1000;
        if self.secs > lim {
            u64::MAX
        } else {
            proof {
                vstd::arithmetic::div_mod::lemma_fundamental_div_mod(
                    (u64::MAX - m) as int,
                    1000,
                );
                vstd::arithmetic::mul::lemma_mul_inequality(
                    self.secs as int,
                    lim as int,
                    1000,
                );
                assert(self.secs * 1000 <= lim * 1000);
                assert(lim * 1000 <= u64::MAX - m);
            }
            self.secs * 1000 + m
        }
    }
}

/// The ghost image of an event.
pub struct EventSpec {
    pub id: Option<Seq<char>>,
    pub data: Option<Seq<char>>,
    pub event: Option<Seq<char>>,
    pub comment: Option<Seq<char>>,
    pub retry: Option<Duration>,
}

impl EventSpec {
    /// The blank event.
    pub open spec fn init() -> EventSpec {
        EventSpec { id: None, data: None, event: None, comment: None, retry: None }
    }

    /// The comment-only event a keep-alive emits.
    pub open spec fn keep_alive_of(text: Seq<char>) -> EventSpec {
        EventSpec { comment: Some(text), ..EventSpec::init() }
    }
}

/// One server-push event. Construction validates each field: text that
/// would break the line-oriented wire format is a caller error, refused
/// up front, not at send time.
#[derive(Debug)]
pub struct Event {
    id: Option<String>,
    data: Option<String>,
    event: Option<String>,
    comment: Option<String>,
    retry: Option<Duration>,
}

impl View for Event {
    type V = EventSpec;

    closed spec fn view(&self) -> EventSpec {
        EventSpec {
            id: match self.id {
                Some(ref s) => Some(s@),
                None => None,
            },
            data: match self.data {
                Some(ref s) => Some(s@),
                None => None,
            },
            event: match self.event {
                Some(ref s) => Some(s@),
                None => None,
            },
            comment: match self.comment {
                Some(ref s) => Some(s@),
                None => None,
            },
            retry: self.retry,
        }
    }
}

impl Event {
    /// The blank event.
    pub fn new() -> (r: Event)
        ensures
            r@ == EventSpec::init(),
    {
        Event { id: None, data: None, event: None, comment: None, retry: None }
    }

    /// Set the data field; it may span lines but must hold no carriage
    /// return.
    pub fn data(self, data: &str) -> (r: Event)
        requires
            !data@.contains('\r'),
        ensures
            r@ == (EventSpec { data: Some(data@), ..self@ }),
    {
        Event { data: Some(data.to_owned()), ..self }
    }

    /// Set the comment; one line, no line breaks.
    pub fn comment(self, comment: &str) -> (r: Event)
        requires
            !comment@.contains('\r'),
            !comment@.contains('\n'),
        ensures
            r@ == (EventSpec { comment: Some(comment@), ..self@ }),
    {
        Event { comment: Some(comment.to_owned()), ..self }
    }

    /// Set the event name; one line, no line breaks.
    pub fn event(self, event: &str) -> (r: Event)
        requires
            !event@.contains('\r'),
            !event@.contains('\n'),
        ensures
            r@ == (EventSpec { event: Some(event@), ..self@ }),
    {
        Event { event: Some(event.to_owned()), ..self }
    }

    /// Set the id; no line breaks and no embedded NUL.
    pub fn id(self, id: &str) -> (r: Event)
        requires
            !id@.contains('\r'),
            !id@.contains('\n'),
            !id@.contains('\u{0}'),
        ensures
            r@ == (EventSpec { id: Some(id@), ..self@ }),
    {
        Event { id: Some(id.to_owned()), ..self }
    }

    /// Set the suggested retry delay.
    pub fn retry(self, duration: Duration) -> (r: Event)
        ensures
            r@ == (EventSpec { retry: Some(duration), ..self@ }),
    {
        Event { retry: Some(duration), ..self }
    }

    /// Encode the event as one wire block.
    pub fn encode(&self) -> (r: String)
        ensures
            r@ == spec_encode(self@),
    {
        let mut out = String::new();
        self.put_comment(&mut out);
        self.put_event(&mut out);
        self.put_data(&mut out);
        self.put_id(&mut out);
        self.put_retry(&mut out);
        text::push_char(&mut out, '\n');
        proof {
            assert(out@ =~= spec_encode(self@));
        }
        out
    }

    fn put_comment(&self, out: &mut String)
        ensures
            final(out)@ == old(out)@ + (match self@.comment {
                Some(c) => ":"@ + c + seq!['\n'],
                None => Seq::<char>::empty(),
            }),
    {
        match &self.comment {
            Some(c) => {
                out.append(":");
                out.append(c.as_str());
                text::push_char(out, '\n');
                proof {
                    assert(final(out)@ =~= old(out)@ + (":"@ + c@ + seq!['\n']));
                }
            },
            None => {
                proof {
                    assert(final(out)@ =~= old(out)@ + Seq::<char>::empty());
                }
            },
        }
    }

    fn put_event(&self, out: &mut String)
        ensures
            final(out)@ == old(out)@ + (match self@.event {
                Some(v) => "event: "@ + v + seq!['\n'],
                None => Seq::<char>::empty(),
            }),
    {
        match &self.event {
            Some(e) => {
                out.append("event: ");
                out.append(e.as_str());
                text::push_char(out, '\n');
                proof {
                    assert(final(out)@ =~= old(out)@ + ("event: "@ + e@ + seq!['\n']));
                }
            },
            None => {
                proof {
                    assert(final(out)@ =~= old(out)@ + Seq::<char>::empty());
                }
            },
        }
    }

    fn put_data(&self, out: &mut String)
        ensures
            final(out)@ == old(out)@ + (match self@.data {
                Some(d) => data_block(spec_lines(d)),
                None => Seq::<char>::empty(),
            }),
    {
        match &self.data {
            Some(d) => {
                let lines = split_lines(d.as_str());
                let n: usize = lines.len();
                let mut i: usize = 0;
                proof {
                    assert(lines@.map(|k: int, t: String| t@).subrange(0, 0) =~= Seq::<
                        Seq<char>,
                    >::empty());
                    assert(out@ =~= old(out)@ + data_block(
                        lines@.map(|k: int, t: String| t@).subrange(0, 0),
                    ));
                }
                while i < n
                    invariant
                        n == lines@.len(),
                        i <= n,
                        out@ == old(out)@ + data_block(
                            lines@.map(|k: int, t: String| t@).subrange(0, i as int),
                        ),
                    decreases n - i,
                {
                    out.append("data: ");
                    out.append(lines[i].as_str());
                    text::push_char(out, '\n');
                    proof {
                        let lv = lines@.map(|k: int, t: String| t@);
                        lemma_data_block_push(lv.subrange(0, i as int), lv[i as int]);
                        assert(lv.subrange(0, i + 1) =~= lv.subrange(0, i as int).push(
                            lv[i as int],
                        ));
                        assert(out@ =~= old(out)@ + data_block(lv.subrange(0, i + 1)));
                    }
                    i = i + 1;
                }
                proof {
                    let lv = lines@.map(|k: int, t: String| t@);
                    assert(lv.subrange(0, n as int) =~= lv);
                }
            },
            None => {
                proof {
                    assert(final(out)@ =~= old(out)@ + Seq::<char>::empty());
                }
            },
        }
    }

    fn put_id(&self, out: &mut String)
        ensures
            final(out)@ == old(out)@ + (match self@.id {
                Some(i) => "id: "@ + i + seq!['\n'],
                None => Seq::<char>::empty(),
            }),
    {
        match &self.id {
            Some(idv) => {
                out.append("id: ");
                out.append(idv.as_str());
                text::push_char(out, '\n');
                proof {
                    assert(final(out)@ =~= old(out)@ + ("id: "@ + idv@ + seq!['\n']));
                }
            },
            None => {
                proof {
                    assert(final(out)@ =~= old(out)@ + Seq::<char>::empty());
                }
            },
        }
    }

    fn put_retry(&self, out: &mut String)
        ensures
            final(out)@ == old(out)@ + (match self@.retry {
                Some(d) => retry_block(d),
                None => Seq::<char>::empty(),
            }),
    {
        match &self.retry {
            Some(d) => {
                out.append("retry:");
                if d.secs > 0 {
                    out.append(text::u64_to_dec(d.secs).as_str());
                    if d.millis < 10 {
                        out.append("00");
                    } else if d.millis < 100 {
                        out.append("0");
                    }
                }
                out.append(text::u64_to_dec(d.millis as u64).as_str());
                text::push_char(out, '\n');
                proof {
                    assert(final(out)@ =~= old(out)@ + retry_block(*d));
                }
            },
            None => {
                proof {
                    assert(final(out)@ =~= old(out)@ + Seq::<char>::empty());
                }
            },
        }
    }
}

impl Clone for Event {
    fn clone(&self) -> (r: Self)
        ensures
            r@ == self@,
    {
        Event {
            id: match &self.id {
                Some(v) => Some(v.clone()),
                None => None,
            },
            data: match &self.data {
                Some(v) => Some(v.clone()),
                None => None,
            },
            event: match &self.event {
                Some(v) => Some(v.clone()),
                None => None,
            },
            comment: match &self.comment {
                Some(v) => Some(v.clone()),
                None => None,
            },
            retry: self.retry,
        }
    }
}

impl Default for Event {
    fn default() -> (r: Event)
        ensures
            r@ == EventSpec::init(),
    {
        Event::new()
    }
}

/// The lines of a text, split at each line feed.
pub open spec fn spec_lines(s: Seq<char>) -> Seq<Seq<char>>
    decreases s.len(),
{
    let i = crate::router::spec_find(s, '\n');
    if 0 <= i && i < s.len() {
        seq![s.subrange(0, i)] + spec_lines(s.subrange(i + 1, s.len() as int))
    } else {
        seq![s]
    }
}

/// Split a text at each line feed.
fn split_lines(s: &str) -> (r: Vec<String>)
    ensures
        r@.map(|i: int, t: String| t@) == spec_lines(s@),
    decreases s@.len(),
{
    let n: usize = s.unicode_len();
    match text::find_char(s, '\n') {
        None => {
            proof {
                crate::router::lemma_spec_find(s@, '\n');
            }
            let mut r: Vec<String> = Vec::new();
            r.push(s.to_owned());
            proof {
                assert(r@.map(|i: int, t: String| t@) =~= spec_lines(s@));
            }
            r
        },
        Some(i) => {
            proof {
                crate::router::lemma_spec_find(s@, '\n');
                assert(s@[i as int] == '\n');
                assert(s@.contains('\n'));
                assert(crate::router::spec_find(s@, '\n') == i as int);
            }
            let head = s.substring_char(0, i).to_owned();
            let rest = split_lines(s.substring_char(i + 1, n));
            let mut r: Vec<String> = Vec::new();
            r.push(head);
            let mut k: usize = 0;
            let m: usize = rest.len();
            while k < m
                invariant
                    m == rest@.len(),
                    k <= m,
                    r@.len() == k + 1,
                    r@[0] == head,
                    forall|j: int| 0 <= j < k ==> r@[j + 1] == rest@[j],
                decreases m - k,
            {
                let e = rest[k].clone();
                r.push(e);
                k = k + 1;
            }
            proof {
                assert(r@.map(|i2: int, t: String| t@) =~= spec_lines(s@));
            }
            r
        },
    }
}

/// The `data:` lines of a block, one per input line.
pub open spec fn data_block(lines: Seq<Seq<char>>) -> Seq<char>
    decreases lines.len(),
{
    if lines.len() == 0 {
        Seq::empty()
    } else {
        "data: "@ + lines[0] + seq!['\n'] + data_block(lines.drop_first())
    }
}

proof fn lemma_data_block_push(lines: Seq<Seq<char>>, x: Seq<char>)
    ensures
        data_block(lines.push(x)) == data_block(lines) + "data: "@ + x + seq!['\n'],
    decreases lines.len(),
{
    if lines.len() == 0 {
        assert(lines.push(x)[0] == x);
        assert(lines.push(x).drop_first() =~= Seq::<Seq<char>>::empty());
        assert(data_block(lines.push(x)) == "data: "@ + x + seq!['\n'] + data_block(
            Seq::<Seq<char>>::empty(),
        ));
        assert(data_block(lines) =~= Seq::<char>::empty());
        assert(data_block(lines.push(x)) =~= data_block(lines) + "data: "@ + x + seq!['\n']);
    } else {
        lemma_data_block_push(lines.drop_first(), x);
        assert(lines.push(x).drop_first() =~= lines.drop_first().push(x));
        assert(lines.push(x)[0] == lines[0]);
        assert(data_block(lines.push(x)) == "data: "@ + lines[0] + seq!['\n'] + (data_block(
            lines.drop_first(),
        ) + "data: "@ + x + seq!['\n']));
        assert(data_block(lines) == "data: "@ + lines[0] + seq!['\n'] + data_block(
            lines.drop_first(),
        ));
        assert(data_block(lines.push(x)) =~= data_block(lines) + "data: "@ + x + seq!['\n']);
    }
}

/// The `retry:` line of a block: whole seconds, milliseconds padded to
/// three digits when seconds are present.
pub open spec fn retry_block(d: Duration) -> Seq<char> {
    "retry:"@ + (if d.secs > 0 {
        text::spec_dec(d.secs as int) + (if d.millis < 10 {
            "00"@
        } else if d.millis < 100 {
            "0"@
        } else {
            Seq::empty()
        })
    } else {
        Seq::empty()
    }) + text::spec_dec(d.millis as int) + seq!['\n']
}

/// The whole wire block of an event: optional comment, name, data
/// lines, id and retry, closed by one blank line.
pub open spec fn spec_encode(e: EventSpec) -> Seq<char> {
    (match e.comment {
        Some(c) => ":"@ + c + seq!['\n'],
        None => Seq::empty(),
    }) + (match e.event {
        Some(v) => "event: "@ + v + seq!['\n'],
        None => Seq::empty(),
    }) + (match e.data {
        Some(d) => data_block(spec_lines(d)),
        None => Seq::empty(),
    }) + (match e.id {
        Some(i) => "id: "@ + i + seq!['\n'],
        None => Seq::empty(),
    }) + (match e.retry {
        Some(d) => retry_block(d),
        None => Seq::empty(),
    }) + seq!['\n']
}

} // verus!

verus! {

/// Keep-alive configuration: a comment text and the longest quiet span
/// allowed before one is sent.
#[derive(Debug)]
pub struct KeepAlive {
    comment_text: String,
    max_interval: Duration,
}

impl KeepAlive {
    /// The comment text never breaks the line it is written on, and the
    /// interval is a well-formed span.
    #[verifier::type_invariant]
    spec fn inv(self) -> bool {
        !self.comment_text@.contains('\r') && !self.comment_text@.contains('\n')
            && self.max_interval.wf()
    }

    /// The configured comment text.
    pub closed spec fn spec_text(self) -> Seq<char> {
        self.comment_text@
    }

    /// The configured interval.
    pub closed spec fn spec_interval(self) -> Duration {
        self.max_interval
    }

    /// An empty comment sent after fifteen quiet seconds.
    pub fn new() -> (r: KeepAlive)
        ensures
            r.spec_text() == Seq::<char>::empty(),
            r.spec_interval() == (Duration { secs: 15u64, millis: 0u16 }),
    {
        let text = String::new();
        proof {
            assert(!text@.contains('\r'));
            assert(!text@.contains('\n'));
        }
        KeepAlive { comment_text: text, max_interval: Duration { secs: 15, millis: 0 } }
    }

    /// Allow a different quiet span.
    pub fn interval(self, time: Duration) -> (r: KeepAlive)
        requires
            time.wf(),
        ensures
            r.spec_text() == self.spec_text(),
            r.spec_interval() == time,
    {
        proof {
            use_type_invariant(&self);
        }
        KeepAlive { max_interval: time, ..self }
    }

    /// Send a different comment text; line breaks are refused.
    pub fn text(self, text: &str) -> (r: KeepAlive)
        requires
            !text@.contains('\r'),
            !text@.contains('\n'),
        ensures
            r.spec_text() == text@,
            r.spec_interval() == self.spec_interval(),
    {
        proof {
            use_type_invariant(&self);
        }
        KeepAlive { comment_text: text.to_owned(), ..self }
    }
}

impl Default for KeepAlive {
    fn default() -> (r: KeepAlive)
        ensures
            r.spec_text() == Seq::<char>::empty(),
            r.spec_interval() == (Duration { secs: 15u64, millis: 0u16 }),
    {
        KeepAlive::new()
    }
}

/// The ghost state of a running keep-alive timer.
pub struct KaSpec {
    pub text: Seq<char>,
    pub interval: u64,
    pub remaining: u64,
}

/// A keep-alive timer counting quiet polls: each not-ready poll of the
/// event source stands for one millisecond of idleness.
#[derive(Debug)]
pub struct KeepAliveStream {
    keep_alive: KeepAlive,
    remaining: u64,
}

impl KeepAliveStream {
    /// The ghost state of the timer.
    pub closed spec fn spec_state(self) -> KaSpec {
        KaSpec {
            text: self.keep_alive.spec_text(),
            interval: self.keep_alive.spec_interval().spec_ticks() as u64,
            remaining: self.remaining,
        }
    }

    /// A freshly wound timer.
    pub fn new(keep_alive: KeepAlive) -> (r: KeepAliveStream)
        ensures
            r.spec_state().text == keep_alive.spec_text(),
            r.spec_state().interval == keep_alive.spec_interval().spec_ticks(),
            r.spec_state().remaining == r.spec_state().interval,
    {
        let remaining = keep_alive.max_interval.ticks();
        KeepAliveStream { keep_alive, remaining }
    }

    /// Rewind the timer: a delivered event counts as activity.
    pub fn reset(&mut self)
        ensures
            final(self).spec_state() == (KaSpec {
                remaining: old(self).spec_state().interval,
                ..old(self).spec_state()
            }),
    {
        self.remaining = self.keep_alive.max_interval.ticks();
    }
}

/// One element of a recorded event source.
#[derive(Debug)]
pub enum SseEntry {
    /// The source was not ready at this point.
    Pending,
    /// A real event.
    Item(Event),
    /// A failure of the source.
    Failed(BodyError),
}

/// The ghost image of a source element.
pub enum SseEntrySpec {
    Pend,
    Item(EventSpec),
    Fail(Seq<char>),
}

impl Clone for SseEntry {
    fn clone(&self) -> (r: Self)
        ensures
            r@ == self@,
    {
        match self {
            SseEntry::Pending => SseEntry::Pending,
            SseEntry::Item(e) => SseEntry::Item(e.clone()),
            SseEntry::Failed(e) => SseEntry::Failed(e.clone()),
        }
    }
}

impl View for SseEntry {
    type V = SseEntrySpec;

    open spec fn view(&self) -> SseEntrySpec {
        match self {
            SseEntry::Pending => SseEntrySpec::Pend,
            SseEntry::Item(e) => SseEntrySpec::Item(e@),
            SseEntry::Failed(e) => SseEntrySpec::Fail(e@),
        }
    }
}

/// The byte events an event source will produce under a keep-alive
/// timer: a real event is encoded and rewinds the timer; a quiet poll
/// either ticks the timer down or, once it runs out, yields a
/// comment-only block and rewinds it.
pub open spec fn sse_events(entries: Seq<SseEntrySpec>, ka: Option<KaSpec>) -> Seq<BodyEv>
    decreases entries.len(),
{
    if entries.len() == 0 {
        Seq::empty()
    } else {
        match entries[0] {
            SseEntrySpec::Item(ev) => seq![
                BodyEv::Data(vstd::utf8::encode_utf8(spec_encode(ev))),
            ] + sse_events(
                entries.drop_first(),
                match ka {
                    Some(k) => Some(KaSpec { remaining: k.interval, ..k }),
                    None => None,
                },
            ),
            SseEntrySpec::Fail(m) => seq![BodyEv::Fail(m)] + sse_events(entries.drop_first(), ka),
            SseEntrySpec::Pend => match ka {
                None => seq![BodyEv::Pend] + sse_events(entries.drop_first(), None),
                Some(k) => if k.remaining == 0 {
                    seq![
                        BodyEv::Data(
                            vstd::utf8::encode_utf8(spec_encode(EventSpec::keep_alive_of(k.text))),
                        ),
                    ] + sse_events(
                        entries.drop_first(),
                        Some(KaSpec { remaining: k.interval, ..k }),
                    )
                } else {
                    seq![BodyEv::Pend] + sse_events(
                        entries.drop_first(),
                        Some(KaSpec { remaining: (k.remaining - 1) as u64, ..k }),
                    )
                },
            },
        }
    }
}

/// The body of a server-push response: events from a recorded source,
/// encoded on the way out, with an optional keep-alive timer.
#[derive(Debug)]
pub struct SseBody {
    pub entries: Vec<SseEntry>,
    pub cursor: usize,
    pub keep_alive: Option<KeepAliveStream>,
}

impl SseBody {
    /// The ghost state of the timer, if one is configured.
    pub open spec fn spec_ka(&self) -> Option<KaSpec> {
        match self.keep_alive {
            Some(k) => Some(k.spec_state()),
            None => None,
        }
    }

    /// The byte events still to come.
    pub open spec fn spec_events(&self) -> Seq<BodyEv> {
        if self.cursor <= self.entries@.len() {
            sse_events(
                self.entries@.skip(self.cursor as int).map(|i: int, e: SseEntry| e@),
                self.spec_ka(),
            )
        } else {
            Seq::empty()
        }
    }
}

impl Body for SseBody {
    open spec fn events(&self) -> Seq<BodyEv> {
        self.spec_events()
    }

    open spec fn hint_spec(&self) -> SizeHint {
        SizeHint { lower: 0, upper: None }
    }

    fn poll_next(&mut self) -> (r: BodyPoll) {
        if self.cursor >= self.entries.len() {
            proof {
                if self.cursor <= self.entries@.len() {
                    assert(self.entries@.skip(self.cursor as int) =~= Seq::<SseEntry>::empty());
                }
            }
            return BodyPoll::Finished;
        }
        let i = self.cursor;
        self.cursor = i + 1;
        let ghost evs = self.entries@.skip(i as int).map(|k: int, e: SseEntry| e@);
        let ghost oldka = old(self).spec_ka();
        proof {
            assert(self.entries@.skip(i as int).drop_first() =~= self.entries@.skip(i + 1));
            assert(evs.drop_first() =~= self.entries@.skip(i + 1).map(|k: int, e: SseEntry| e@));
            assert(evs[0] == self.entries@[i as int]@);
            assert(old(self).events() == sse_events(evs, oldka));
        }
        let entry = self.entries[i].clone();
        match entry {
            SseEntry::Item(ev) => {
                let ghost ev0 = ev@;
                let block = ev.encode();
                match &mut self.keep_alive {
                    Some(k) => {
                        k.reset();
                    },
                    None => {},
                }
                proof {
                    let newka = (match oldka {
                        Some(k) => Some(KaSpec { remaining: k.interval, ..k }),
                        None => None,
                    });
                    assert(self.spec_ka() == newka);
                    assert(sse_events(evs, oldka) == seq![
                        BodyEv::Data(vstd::utf8::encode_utf8(spec_encode(ev0))),
                    ] + sse_events(evs.drop_first(), newka));
                    assert(self.events() =~= sse_events(evs.drop_first(), newka));
                    assert(sse_events(evs, oldka).drop_first() =~= self.events());
                }
                BodyPoll::Data(Bytes::from_string(block))
            },
            SseEntry::Failed(e) => {
                proof {
                    assert(sse_events(evs, oldka) == seq![BodyEv::Fail(e@)] + sse_events(
                        evs.drop_first(),
                        oldka,
                    ));
                    assert(self.spec_ka() == oldka);
                    assert(self.events() =~= sse_events(evs.drop_first(), oldka));
                    assert(sse_events(evs, oldka).drop_first() =~= self.events());
                }
                BodyPoll::Failed(e)
            },
            SseEntry::Pending => match &mut self.keep_alive {
                None => {
                    proof {
                        assert(oldka is None);
                        assert(sse_events(evs, oldka) == seq![BodyEv::Pend] + sse_events(
                            evs.drop_first(),
                            oldka,
                        ));
                        assert(self.events() =~= sse_events(evs.drop_first(), oldka));
                        assert(sse_events(evs, oldka).drop_first() =~= self.events());
                    }
                    BodyPoll::Pending
                },
                Some(k) => {
                    if k.remaining == 0 {
                        proof {
                            use_type_invariant(&k.keep_alive);
                        }
                        let text = k.keep_alive.comment_text.clone();
                        let ev = Event::new().comment(text.as_str());
                        let block = ev.encode();
                        k.reset();
                        proof {
                            let k0 = oldka->Some_0;
                            let newka = Some(KaSpec { remaining: k0.interval, ..k0 });
                            assert(ev@ == EventSpec::keep_alive_of(k0.text));
                            assert(self.spec_ka() == newka);
                            assert(sse_events(evs, oldka) == seq![
                                BodyEv::Data(
                                    vstd::utf8::encode_utf8(
                                        spec_encode(EventSpec::keep_alive_of(k0.text)),
                                    ),
                                ),
                            ] + sse_events(evs.drop_first(), newka));
                            assert(self.events() =~= sse_events(evs.drop_first(), newka));
                            assert(sse_events(evs, oldka).drop_first() =~= self.events());
                        }
                        BodyPoll::Data(Bytes::from_string(block))
                    } else {
                        k.remaining = k.remaining - 1;
                        proof {
                            let k0 = oldka->Some_0;
                            let newka = Some(
                                KaSpec { remaining: (k0.remaining - 1) as u64, ..k0 },
                            );
                            assert(self.spec_ka() == newka);
                            assert(sse_events(evs, oldka) == seq![BodyEv::Pend] + sse_events(
                                evs.drop_first(),
                                newka,
                            ));
                            assert(self.events() =~= sse_events(evs.drop_first(), newka));
                            assert(sse_events(evs, oldka).drop_first() =~= self.events());
                        }
                        BodyPoll::Pending
                    }
                },
            },
        }
    }

    fn size_hint(&self) -> (h: SizeHint) {
        SizeHint::new()
    }

    fn boxed(self) -> (r: BoxBody) {
        crate::body::box_sse(self)
    }
}

/// A server-push response in the making: an event source and an
/// optional keep-alive.
#[derive(Debug)]
pub struct Sse {
    pub entries: Vec<SseEntry>,
    pub keep_alive: Option<KeepAlive>,
}

impl Sse {
    /// A push stream over the given source, without keep-alive.
    pub fn new(entries: Vec<SseEntry>) -> (r: Sse)
        ensures
            r.entries == entries,
            r.keep_alive is None,
    {
        Sse { entries, keep_alive: None }
    }

    /// Add a keep-alive.
    pub fn keep_alive(self, keep_alive: KeepAlive) -> (r: Sse)
        ensures
            r.entries == self.entries,
            r.keep_alive == Some(keep_alive),
    {
        Sse { keep_alive: Some(keep_alive), ..self }
    }
}

/// The facts the push-stream response relies on: its header literals
/// are well-formed and lower-case.
proof fn lemma_sse_headers()
    ensures
        crate::headers::valid_name("content-type"@),
        text::spec_lower("content-type"@) == "content-type"@,
        crate::headers::valid_name("cache-control"@),
        text::spec_lower("cache-control"@) == "cache-control"@,
        crate::headers::valid_value("text/event-stream"@),
        crate::headers::valid_value("no-cache"@),
{
    reveal_strlit("content-type");
    reveal_strlit("cache-control");
    reveal_strlit("text/event-stream");
    reveal_strlit("no-cache");
    assert forall|i: int| 0 <= i < "content-type"@.len() implies text::spec_lower("content-type"@)[i]
        == "content-type"@[i] && crate::headers::header_name_char(
        #[trigger] text::spec_lower("content-type"@)[i],
    ) by {
        assert(text::spec_lower("content-type"@)[i] == text::spec_lower_char("content-type"@[i]));
    }
    assert(text::spec_lower("content-type"@) =~= "content-type"@);
    assert forall|i: int| 0 <= i < "cache-control"@.len() implies text::spec_lower(
        "cache-control"@,
    )[i] == "cache-control"@[i] && crate::headers::header_name_char(
        #[trigger] text::spec_lower("cache-control"@)[i],
    ) by {
        assert(text::spec_lower("cache-control"@)[i] == text::spec_lower_char(
            "cache-control"@[i],
        ));
    }
    assert(text::spec_lower("cache-control"@) =~= "cache-control"@);
    assert forall|i: int| 0 <= i < "text/event-stream"@.len() implies
        crate::headers::header_value_char(#[trigger] "text/event-stream"@[i]) by {}
    assert forall|i: int| 0 <= i < "no-cache"@.len() implies crate::headers::header_value_char(
        #[trigger] "no-cache"@[i],
    ) by {}
}

/// The initial timer state a configuration winds up to.
pub open spec fn initial_ka(ka: Option<KeepAlive>) -> Option<KaSpec> {
    match ka {
        Some(k) => Some(
            KaSpec {
                text: k.spec_text(),
                interval: k.spec_interval().spec_ticks() as u64,
                remaining: k.spec_interval().spec_ticks() as u64,
            },
        ),
        None => None,
    }
}

impl IntoResponse for Sse {
    /// The canonical push response: `content-type: text/event-stream`,
    /// `cache-control: no-cache`, and the encoded event stream as body.
    open spec fn response_spec(self) -> crate::respond::RespSpec {
        crate::respond::RespSpec {
            head: crate::response::HeadSpec {
                headers: seq![
                    ("content-type"@, "text/event-stream"@),
                    ("cache-control"@, "no-cache"@),
                ],
                ..crate::response::HeadSpec::init()
            },
            body: sse_events(
                self.entries@.map(|i: int, e: SseEntry| e@),
                initial_ka(self.keep_alive),
            ),
        }
    }

    fn into_response(self) -> (r: Response<BoxBody>) {
        proof {
            lemma_sse_headers();
        }
        let ka = match self.keep_alive {
            Some(k) => Some(KeepAliveStream::new(k)),
            None => None,
        };
        let body = SseBody { entries: self.entries, cursor: 0, keep_alive: ka };
        proof {
            assert(body.entries@.skip(0) =~= body.entries@);
        }
        let mut r = Response::new(body.boxed());
        let headers = r.headers_mut();
        headers.append(
            crate::headers::known_name("content-type"),
            crate::headers::known_value("text/event-stream"),
        );
        headers.append(
            crate::headers::known_name("cache-control"),
            crate::headers::known_value("no-cache"),
        );
        proof {
            assert(r.spec_head()@.headers =~= seq![
                ("content-type"@, "text/event-stream"@),
                ("cache-control"@, "no-cache"@),
            ]);
        }
        r
    }
}

} // verus!

verus! {

/// An event source answers exactly one byte event per element.
pub proof fn lemma_sse_events_len(entries: Seq<SseEntrySpec>, ka: Option<KaSpec>)
    ensures
        sse_events(entries, ka).len() == entries.len(),
    decreases entries.len(),
{
    if entries.len() > 0 {
        match entries[0] {
            SseEntrySpec::Item(_) => {
                lemma_sse_events_len(
                    entries.drop_first(),
                    match ka {
                        Some(k) => Some(KaSpec { remaining: k.interval, ..k }),
                        None => None,
                    },
                );
            },
            SseEntrySpec::Fail(_) => {
                lemma_sse_events_len(entries.drop_first(), ka);
            },
            SseEntrySpec::Pend => {
                match ka {
                    None => {
                        lemma_sse_events_len(entries.drop_first(), None);
                    },
                    Some(k) => {
                        if k.remaining == 0 {
                            lemma_sse_events_len(
                                entries.drop_first(),
                                Some(KaSpec { remaining: k.interval, ..k }),
                            );
                        } else {
                            lemma_sse_events_len(
                                entries.drop_first(),
                                Some(KaSpec { remaining: (k.remaining - 1) as u64, ..k }),
                            );
                        }
                    },
                }
            },
        }
    }
}

/// The law of quiet streams: while fewer quiet polls have passed than
/// the timer has left, the body only reports "not ready"; the poll on
/// which the timer runs out emits a comment-only keep-alive block and
/// rewinds the timer.
pub proof fn lemma_keep_alive_fires(entries: Seq<SseEntrySpec>, k: KaSpec, j: int)
    requires
        0 <= j <= k.remaining,
        j < entries.len(),
        forall|j2: int| 0 <= j2 <= j ==> entries[j2] == SseEntrySpec::Pend,
    ensures
        j < k.remaining ==> sse_events(entries, Some(k))[j] == BodyEv::Pend,
        j == k.remaining ==> sse_events(entries, Some(k))[j] == BodyEv::Data(
            vstd::utf8::encode_utf8(spec_encode(EventSpec::keep_alive_of(k.text))),
        ),
    decreases j,
{
    let evs = sse_events(entries, Some(k));
    assert(entries[0] == SseEntrySpec::Pend);
    if k.remaining == 0 {
        assert(evs[0] == BodyEv::Data(
            vstd::utf8::encode_utf8(spec_encode(EventSpec::keep_alive_of(k.text))),
        ));
    } else {
        let k2 = KaSpec { remaining: (k.remaining - 1) as u64, ..k };
        assert(evs == seq![BodyEv::Pend] + sse_events(entries.drop_first(), Some(k2)));
        if j == 0 {
            assert(evs[0] == BodyEv::Pend);
        } else {
            assert(forall|j2: int|
                0 <= j2 <= j - 1 ==> entries.drop_first()[j2] == entries[j2 + 1]
                    && #[trigger] entries.drop_first()[j2] == SseEntrySpec::Pend);
            lemma_keep_alive_fires(entries.drop_first(), k2, j - 1);
            lemma_sse_events_len(entries.drop_first(), Some(k2));
            assert(evs[j] == sse_events(entries.drop_first(), Some(k2))[j - 1]);
        }
    }
}

/// The law of activity: a delivered event is encoded onto the wire and
/// rewinds the keep-alive timer to its whole interval, so no keep-alive
/// block follows it sooner than the configured quiet span.
pub proof fn lemma_event_resets(entries: Seq<SseEntrySpec>, k: KaSpec, ev: EventSpec)
    requires
        entries.len() > 0,
        entries[0] == SseEntrySpec::Item(ev),
    ensures
        sse_events(entries, Some(k))[0] == BodyEv::Data(
            vstd::utf8::encode_utf8(spec_encode(ev)),
        ),
        sse_events(entries, Some(k)).drop_first() == sse_events(
            entries.drop_first(),
            Some(KaSpec { remaining: k.interval, ..k }),
        ),
{
    let rest = sse_events(entries.drop_first(), Some(KaSpec { remaining: k.interval, ..k }));
    assert(sse_events(entries, Some(k)) == seq![
        BodyEv::Data(vstd::utf8::encode_utf8(spec_encode(ev))),
    ] + rest);
    assert(sse_events(entries, Some(k)).drop_first() =~= rest);
}

} // verus!
