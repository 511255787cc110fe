//! The request target: scheme, authority, path and query. Requests are
//! routed on the path; the query travels along unchanged.
use vstd::prelude::*;
use crate::text;

verus! {

/// The ghost image of a [`Uri`].
pub struct UriSpec {
    pub scheme: Option<Seq<char>>,
    pub authority: Option<Seq<char>>,
    pub path: Seq<char>,
    pub query: Option<Seq<char>>,
}

impl UriSpec {
    /// The root URI `/`.
    pub open spec fn root() -> UriSpec {
        UriSpec { scheme: None, authority: None, path: "/"@, query: None }
    }
}

/// A path with an optional query, the part of a URI a router inspects.
pub struct PathAndQuery {
    pub path: String,
    pub query: Option<String>,
}

impl PathAndQuery {
    /// Whether the path begins with `/`.
    pub open spec fn wf(&self) -> bool {
        self.path@.len() > 0 && self.path@[0] == '/'
    }

    /// Split a target of the shape `/path` or `/path?query` at the first
    /// question mark. Targets not starting with `/` are rejected.
    pub fn parse(s: &str) -> (r: Option<PathAndQuery>)
        ensures
            match r {
                Some(pq) => s@.len() > 0 && s@[0] == '/' && pq.wf() && match pq.query {
                    Some(q) => exists|i: int|
                        0 <= i < s@.len() && s@[i] == '?' && (forall|j: int|
                            0 <= j < i ==> s@[j] != '?') && pq.path@ == s@.subrange(0, i) && q@
                            == s@.subrange(i + 1, s@.len() as int),
                    None => !s@.contains('?') && pq.path@ == s@,
                },
                None => s@.len() == 0 || s@[0] != '/',
            },
    {
        let n: usize = s.unicode_len();
        if n == 0 || s.get_char(0) != '/' {
            return None;
        }
        match text::find_char(s, '?') {
            Some(i) => {
                let path = s.substring_char(0, i).to_owned();
                let query = s.substring_char(i + 1, n).to_owned();
                Some(PathAndQuery { path, query: Some(query) })
            },
            None => Some(PathAndQuery { path: s.to_owned(), query: None }),
        }
    }
}

/// A request target.
#[derive(Debug)]
pub struct Uri {
    scheme: Option<String>,
    authority: Option<String>,
    path: String,
    query: Option<String>,
}

impl View for Uri {
    type V = UriSpec;

    closed spec fn view(&self) -> UriSpec {
        UriSpec {
            scheme: match self.scheme {
                Some(ref s) => Some(s@),
                None => None,
            },
            authority: match self.authority {
                Some(ref a) => Some(a@),
                None => None,
            },
            path: self.path@,
            query: match self.query {
                Some(ref q) => Some(q@),
                None => None,
            },
        }
    }
}

impl Clone for Uri {
    fn clone(&self) -> (r: Self)
        ensures
            r@ == self@,
    {
        Uri {
            scheme: match &self.scheme {
                Some(s) => Some(s.clone()),
                None => None,
            },
            authority: match &self.authority {
                Some(a) => Some(a.clone()),
                None => None,
            },
            path: self.path.clone(),
            query: match &self.query {
                Some(q) => Some(q.clone()),
                None => None,
            },
        }
    }
}

impl Uri {
    /// Every URI's path begins with `/`.
    pub open spec fn wf(&self) -> bool {
        self@.path.len() > 0 && self@.path[0] == '/'
    }

    /// The root URI `/`.
    pub fn root() -> (r: Uri)
        ensures
            r@ == UriSpec::root(),
            r.wf(),
    {
        let r = Uri { scheme: None, authority: None, path: String::from_str("/"), query: None };
        proof {
            reveal_strlit("/");
            assert(r@ == UriSpec::root());
        }
        r
    }

    /// A URI built from an origin-form target such as `/a/b?q=1`.
    pub fn from_path_and_query(pq: PathAndQuery) -> (r: Uri)
        requires
            pq.wf(),
        ensures
            r.wf(),
            r@.scheme is None,
            r@.authority is None,
            r@.path == pq.path@,
            match (r@.query, pq.query) {
                (Some(a), Some(b)) => a == b@,
                (None, None) => true,
                _ => false,
            },
    {
        Uri { scheme: None, authority: None, path: pq.path, query: pq.query }
    }

    /// Parse an origin-form target.
    pub fn parse(s: &str) -> (r: Option<Uri>)
        ensures
            match r {
                Some(u) => u.wf() && u@.scheme is None && u@.authority is None && s@.len() > 0
                    && s@[0] == '/' && match u@.query {
                    Some(q) => exists|i: int|
                        0 <= i < s@.len() && s@[i] == '?' && (forall|j: int|
                            0 <= j < i ==> s@[j] != '?') && u@.path == s@.subrange(0, i) && q
                            == s@.subrange(i + 1, s@.len() as int),
                    None => !s@.contains('?') && u@.path == s@,
                },
                None => s@.len() == 0 || s@[0] != '/',
            },
    {
        match PathAndQuery::parse(s) {
            Some(pq) => Some(Uri::from_path_and_query(pq)),
            None => None,
        }
    }

    pub fn path(&self) -> (r: &str)
        ensures
            r@ == self@.path,
    {
        self.path.as_str()
    }

    pub fn query(&self) -> (r: Option<&String>)
        ensures
            match (r, self@.query) {
                (Some(q), Some(g)) => q@ == g,
                (None, None) => true,
                _ => false,
            },
    {
        match &self.query {
            Some(q) => Some(q),
            None => None,
        }
    }

    pub fn scheme(&self) -> (r: Option<&String>)
        ensures
            match (r, self@.scheme) {
                (Some(s), Some(g)) => s@ == g,
                (None, None) => true,
                _ => false,
            },
    {
        match &self.scheme {
            Some(s) => Some(s),
            None => None,
        }
    }

    pub fn authority(&self) -> (r: Option<&String>)
        ensures
            match (r, self@.authority) {
                (Some(a), Some(g)) => a@ == g,
                (None, None) => true,
                _ => false,
            },
    {
        match &self.authority {
            Some(a) => Some(a),
            None => None,
        }
    }
}

impl Default for Uri {
    /// The default URI is `/`.
    fn default() -> (r: Uri)
        ensures
            r@ == UriSpec::root(),
            r.wf(),
    {
        Uri::root()
    }
}

/// Swap a URI's path and query for new ones, keeping its scheme and
/// authority, as a router does when it forwards to a nested mount.
pub fn replace_path_and_query(uri: &mut Uri, path_and_query: PathAndQuery)
    requires
        path_and_query.wf(),
    ensures
        final(uri)@.scheme == old(uri)@.scheme,
        final(uri)@.authority == old(uri)@.authority,
        final(uri)@.path == path_and_query.path@,
        match (final(uri)@.query, path_and_query.query) {
            (Some(a), Some(b)) => a == b@,
            (None, None) => true,
            _ => false,
        },
        final(uri).wf(),
{
    uri.path = path_and_query.path;
    uri.query = path_and_query.query;
}

} // verus!
