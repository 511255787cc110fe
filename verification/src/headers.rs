//! Header names, header values, and the ordered multi-map that holds them.
//! Names compare case-insensitively; several values may share one name;
//! iteration follows insertion order.
use vstd::prelude::*;
use crate::text;

verus! {

/// Whether a character may appear in a (lower-cased) header name.
pub open spec fn header_name_char(c: char) -> bool {
    ('a' <= c && c <= 'z') || ('0' <= c && c <= '9') || c == '-' || c == '_' || c == '.'
}

/// Whether a character may appear in a header value: no line breaks and
/// no embedded NUL.
pub open spec fn header_value_char(c: char) -> bool {
    c != '\r' && c != '\n' && c != '\u{0}'
}

/// Whether text, once lower-cased, is a well-formed header name.
pub open spec fn valid_name(s: Seq<char>) -> bool {
    text::spec_lower(s).len() > 0 && forall|i: int|
        0 <= i < s.len() ==> header_name_char(#[trigger] text::spec_lower(s)[i])
}

/// Whether text is a well-formed header value.
pub open spec fn valid_value(s: Seq<char>) -> bool {
    forall|i: int| 0 <= i < s.len() ==> header_value_char(#[trigger] s[i])
}

/// A header name, stored lower-cased.
#[derive(Debug)]
pub struct HeaderName {
    name: String,
}

impl View for HeaderName {
    type V = Seq<char>;

    closed spec fn view(&self) -> Seq<char> {
        self.name@
    }
}

impl Clone for HeaderName {
    fn clone(&self) -> (r: Self)
        ensures
            r == *self,
    {
        HeaderName { name: self.name.clone() }
    }
}

impl HeaderName {
    pub open spec fn wf(&self) -> bool {
        self@.len() > 0 && forall|i: int| 0 <= i < self@.len() ==> header_name_char(#[trigger] self@[i])
    }

    /// A header name from text: letters are lowered, and the result is
    /// rejected unless every character may appear in a name.
    pub fn new(s: &str) -> (r: Option<HeaderName>)
        ensures
            match r {
                Some(h) => h@ == text::spec_lower(s@) && h.wf() && valid_name(s@),
                None => !valid_name(s@),
            },
    {
        let lowered = text::lower_str(s);
        let lref: &str = lowered.as_str();
        let n: usize = lref.unicode_len();
        if n == 0 {
            return None;
        }
        let mut i: usize = 0;
        while i < n
            invariant
                n == lref@.len(),
                lref@ == text::spec_lower(s@),
                n == s@.len(),
                i <= n,
                forall|j: int| 0 <= j < i ==> header_name_char(#[trigger] lref@[j]),
            decreases n - i,
        {
            let c = lref.get_char(i);
            let ok = ('a' <= c && c <= 'z') || ('0' <= c && c <= '9') || c == '-' || c == '_'
                || c == '.';
            if !ok {
                proof {
                    assert(text::spec_lower(s@)[i as int] == lref@[i as int]);
                    assert(!header_name_char(text::spec_lower(s@)[i as int]));
                }
                return None;
            }
            i = i + 1;
        }
        Some(HeaderName { name: lowered })
    }

    pub fn as_str(&self) -> (r: &str)
        ensures
            r@ == self@,
    {
        self.name.as_str()
    }
}

/// A header value: any text free of line breaks and NUL.
#[derive(Debug)]
pub struct HeaderValue {
    value: String,
}

impl View for HeaderValue {
    type V = Seq<char>;

    closed spec fn view(&self) -> Seq<char> {
        self.value@
    }
}

impl Clone for HeaderValue {
    fn clone(&self) -> (r: Self)
        ensures
            r == *self,
    {
        HeaderValue { value: self.value.clone() }
    }
}

impl HeaderValue {
    pub open spec fn wf(&self) -> bool {
        forall|i: int| 0 <= i < self@.len() ==> header_value_char(#[trigger] self@[i])
    }

    /// A header value from text; text holding line breaks or NUL is
    /// rejected.
    pub fn new(s: &str) -> (r: Option<HeaderValue>)
        ensures
            match r {
                Some(v) => v@ == s@ && v.wf() && valid_value(s@),
                None => !valid_value(s@),
            },
    {
        let n: usize = s.unicode_len();
        let mut i: usize = 0;
        while i < n
            invariant
                n == s@.len(),
                i <= n,
                forall|j: int| 0 <= j < i ==> header_value_char(#[trigger] s@[j]),
            decreases n - i,
        {
            let c = s.get_char(i);
            if c == '\r' || c == '\n' || c == '\u{0}' {
                return None;
            }
            i = i + 1;
        }
        Some(HeaderValue { value: s.to_owned() })
    }

    pub fn as_str(&self) -> (r: &str)
        ensures
            r@ == self@,
    {
        self.value.as_str()
    }
}

/// What a header lookup answers: the first value stored under a name.
pub open spec fn spec_get(entries: Seq<(Seq<char>, Seq<char>)>, name: Seq<char>) -> Option<
    Seq<char>,
>
    decreases entries.len(),
{
    if entries.len() == 0 {
        None
    } else if entries[0].0 == name {
        Some(entries[0].1)
    } else {
        spec_get(entries.drop_first(), name)
    }
}

/// A header name from text already known to be a well-formed,
/// lower-case name.
pub fn known_name(s: &str) -> (r: HeaderName)
    requires
        valid_name(s@),
    ensures
        r@ == text::spec_lower(s@),
        r.wf(),
{
    match HeaderName::new(s) {
        Some(n) => n,
        None => vstd::pervasive::unreached(),
    }
}

/// A header value from text already known to be well-formed.
pub fn known_value(s: &str) -> (r: HeaderValue)
    requires
        valid_value(s@),
    ensures
        r@ == s@,
        r.wf(),
{
    match HeaderValue::new(s) {
        Some(v) => v,
        None => vstd::pervasive::unreached(),
    }
}

/// An ordered multi-map of headers.
#[derive(Debug)]
pub struct HeaderMap {
    entries: Vec<(HeaderName, HeaderValue)>,
}

impl View for HeaderMap {
    type V = Seq<(Seq<char>, Seq<char>)>;

    closed spec fn view(&self) -> Seq<(Seq<char>, Seq<char>)> {
        self.entries@.map(|i: int, e: (HeaderName, HeaderValue)| (e.0@, e.1@))
    }
}

impl Clone for HeaderMap {
    fn clone(&self) -> (r: Self)
        ensures
            r@ == self@,
    {
        let n: usize = self.entries.len();
        let mut entries: Vec<(HeaderName, HeaderValue)> = Vec::new();
        let mut i: usize = 0;
        while i < n
            invariant
                n == self.entries@.len(),
                i <= n,
                entries@.map(|k: int, e: (HeaderName, HeaderValue)| (e.0@, e.1@)) =~= self.entries@.subrange(0, i as int).map(|k: int, e: (HeaderName, HeaderValue)| (e.0@, e.1@)),
            decreases n - i,
        {
            entries.push((self.entries[i].0.clone(), self.entries[i].1.clone()));
            proof {
                assert(self.entries@.subrange(0, i + 1).map(|k: int, e: (HeaderName, HeaderValue)| (e.0@, e.1@)) =~= self.entries@.subrange(0, i as int).map(|k: int, e: (HeaderName, HeaderValue)| (e.0@, e.1@)).push((self.entries@[i as int].0@, self.entries@[i as int].1@)));
            }
            i = i + 1;
        }
        proof {
            assert(self.entries@.subrange(0, n as int) =~= self.entries@);
        }
        let r = HeaderMap { entries };
        proof {
            assert(r@ =~= self@);
        }
        r
    }
}

impl HeaderMap {
    pub fn new() -> (r: HeaderMap)
        ensures
            r@ == Seq::<(Seq<char>, Seq<char>)>::empty(),
    {
        let r = HeaderMap { entries: Vec::new() };
        proof {
            assert(r@ =~= Seq::<(Seq<char>, Seq<char>)>::empty());
        }
        r
    }

    pub fn len(&self) -> (r: usize)
        ensures
            r == self@.len(),
    {
        self.entries.len()
    }

    pub fn is_empty(&self) -> (r: bool)
        ensures
            r == (self@.len() == 0),
    {
        self.entries.len() == 0
    }

    /// The first value stored under a name; the name is given as text and
    /// compared lower-cased.
    pub fn get(&self, name: &str) -> (r: Option<&HeaderValue>)
        ensures
            match r {
                Some(v) => spec_get(self@, text::spec_lower(name@)) == Some(v@),
                None => spec_get(self@, text::spec_lower(name@)) is None,
            },
    {
        let key = text::lower_str(name);
        let n: usize = self.entries.len();
        let mut i: usize = 0;
        proof {
            assert(self@.skip(0) =~= self@);
        }
        while i < n
            invariant
                n == self@.len(),
                i <= n,
                spec_get(self@, key@) == spec_get(self@.skip(i as int), key@),
                key@ == text::spec_lower(name@),
            decreases n - i,
        {
            proof {
                assert(self@.skip(i as int)[0] == self@[i as int]);
                assert(self@.skip(i as int).drop_first() =~= self@.skip(i + 1));
            }
            if text::str_eq(self.entries[i].0.as_str(), key.as_str()) {
                return Some(&self.entries[i].1);
            }
            i = i + 1;
        }
        proof {
            assert(self@.skip(n as int) =~= Seq::<(Seq<char>, Seq<char>)>::empty());
        }
        None
    }

    /// Whether any value is stored under the name.
    pub fn contains(&self, name: &str) -> (r: bool)
        ensures
            r == (spec_get(self@, text::spec_lower(name@)) is Some),
    {
        match self.get(name) {
            Some(_) => true,
            None => false,
        }
    }

    /// Add a value under a name, keeping any values already there.
    pub fn append(&mut self, name: HeaderName, value: HeaderValue)
        ensures
            final(self)@ == old(self)@.push((name@, value@)),
    {
        self.entries.push((name, value));
        proof {
            assert(final(self)@ =~= old(self)@.push((name@, value@)));
        }
    }

    /// Store a value under a name, dropping every value already there.
    pub fn insert(&mut self, name: HeaderName, value: HeaderValue)
        ensures
            final(self)@ == old(self)@.filter(
                |e: (Seq<char>, Seq<char>)| e.0 != name@,
            ).push((name@, value@)),
{
        let ghost pred = |e: (Seq<char>, Seq<char>)| e.0 != name@;
        let n: usize = self.entries.len();
        let mut kept: Vec<(HeaderName, HeaderValue)> = Vec::new();
        let mut i: usize = 0;
        while i < n
            invariant
                n == old(self)@.len(),
                self == old(self),
                i <= n,
                kept@.map(|k: int, e: (HeaderName, HeaderValue)| (e.0@, e.1@)) =~= old(
                    self,
                )@.subrange(0, i as int).filter(pred),
                pred == (|e: (Seq<char>, Seq<char>)| e.0 != name@),
            decreases n - i,
        {
            proof {
                reveal(Seq::filter);
                assert(old(self)@.subrange(0, i + 1).drop_last() =~= old(self)@.subrange(
                    0,
                    i as int,
                ));
                assert(old(self)@.subrange(0, i + 1).last() == old(self)@[i as int]);
            }
            if !text::str_eq(self.entries[i].0.as_str(), name.as_str()) {
                let e = (self.entries[i].0.clone(), self.entries[i].1.clone());
                proof {
                    assert(old(self)@[i as int] == (old(self).entries@[i as int].0@, old(
                        self,
                    ).entries@[i as int].1@));
                }
                kept.push(e);
                proof {
                    assert(kept@.map(|k: int, e: (HeaderName, HeaderValue)| (e.0@, e.1@)) =~= old(
                        self,
                    )@.subrange(0, i + 1).filter(pred));
                }
            }
            i = i + 1;
        }
        proof {
            assert(old(self)@.subrange(0, n as int) =~= old(self)@);
        }
        kept.push((name, value));
        self.entries = kept;
        proof {
            assert(final(self)@ =~= old(self)@.filter(pred).push((name@, value@)));
        }
    }

    /// Drop every value stored under a name, returning the first one, if
    /// any was there.
    pub fn remove(&mut self, name: &str) -> (r: Option<HeaderValue>)
        ensures
            final(self)@ == old(self)@.filter(
                |e: (Seq<char>, Seq<char>)| e.0 != text::spec_lower(name@),
            ),
            match r {
                Some(v) => spec_get(old(self)@, text::spec_lower(name@)) == Some(v@),
                None => spec_get(old(self)@, text::spec_lower(name@)) is None,
            },
    {
        let first = match self.get(name) {
            Some(v) => Some(v.clone()),
            None => None,
        };
        let key = text::lower_str(name);
        let ghost pred = |e: (Seq<char>, Seq<char>)| e.0 != text::spec_lower(name@);
        let n: usize = self.entries.len();
        let mut kept: Vec<(HeaderName, HeaderValue)> = Vec::new();
        let mut i: usize = 0;
        while i < n
            invariant
                n == old(self)@.len(),
                self == old(self),
                i <= n,
                kept@.map(|k: int, e: (HeaderName, HeaderValue)| (e.0@, e.1@)) =~= old(
                    self,
                )@.subrange(0, i as int).filter(pred),
                pred == (|e: (Seq<char>, Seq<char>)| e.0 != text::spec_lower(name@)),
                key@ == text::spec_lower(name@),
            decreases n - i,
        {
            proof {
                reveal(Seq::filter);
                assert(old(self)@.subrange(0, i + 1).drop_last() =~= old(self)@.subrange(
                    0,
                    i as int,
                ));
                assert(old(self)@.subrange(0, i + 1).last() == old(self)@[i as int]);
            }
            if !text::str_eq(self.entries[i].0.as_str(), key.as_str()) {
                let e = (self.entries[i].0.clone(), self.entries[i].1.clone());
                proof {
                    assert(old(self)@[i as int] == (old(self).entries@[i as int].0@, old(
                        self,
                    ).entries@[i as int].1@));
                }
                kept.push(e);
                proof {
                    assert(kept@.map(|k: int, e: (HeaderName, HeaderValue)| (e.0@, e.1@)) =~= old(
                        self,
                    )@.subrange(0, i + 1).filter(pred));
                }
            }
            i = i + 1;
        }
        proof {
            assert(old(self)@.subrange(0, n as int) =~= old(self)@);
        }
        self.entries = kept;
        proof {
            assert(final(self)@ =~= old(self)@.filter(pred));
        }
        first
    }

    /// Append every entry of another map, in its order, after this one's.
    pub fn extend(&mut self, other: HeaderMap)
        ensures
            final(self)@ == old(self)@ + other@,
    {
        let n: usize = other.entries.len();
        let mut i: usize = 0;
        while i < n
            invariant
                n == other@.len(),
                i <= n,
                self@ =~= old(self)@ + other@.subrange(0, i as int),
            decreases n - i,
        {
            let e = (other.entries[i].0.clone(), other.entries[i].1.clone());
            proof {
                assert(other@[i as int] == (other.entries@[i as int].0@, other.entries@[i as int].1@));
            }
            let ghost prev = self.entries@;
            self.entries.push(e);
            proof {
                assert(self.entries@ =~= prev.push(e));
                assert(self@ =~= prev.map(|k: int, en: (HeaderName, HeaderValue)| (en.0@, en.1@)).push((e.0@, e.1@)));
                assert(other@.subrange(0, i + 1) =~= other@.subrange(0, i as int).push(other@[i as int]));
                assert(self@ =~= old(self)@ + other@.subrange(0, i + 1));
            }
        i = i + 1;
        }
        proof {
            assert(other@.subrange(0, n as int) =~= other@);
        }
    }

    /// The entries in insertion order.
    pub fn entries(&self) -> (r: &Vec<(HeaderName, HeaderValue)>)
        ensures
            r@.map(|i: int, e: (HeaderName, HeaderValue)| (e.0@, e.1@)) == self@,
    {
        &self.entries
    }
}

impl Default for HeaderMap {
    fn default() -> (r: HeaderMap)
        ensures
            r@ == Seq::<(Seq<char>, Seq<char>)>::empty(),
    {
        HeaderMap::new()
    }
}

} // verus!
