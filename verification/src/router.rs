//! Routing: path templates with captures, the path-matching table, and
//! per-verb dispatch. A failed match carries the original request out,
//! untouched, so an outer handler can still inspect it.
use vstd::prelude::*;
use crate::body::BoxBody;
use crate::error::Error;
use crate::request::Request;
use crate::response::Response;

verus! {

/// One segment of a route template.
#[derive(Debug)]
pub enum Seg {
    /// Matches exactly this text.
    Lit(String),
    /// Matches any one segment, capturing it under this name.
    Param(String),
    /// Matches the whole remaining path; only ever last.
    Tail,
}

/// The ghost image of a segment.
pub enum SegSpec {
    Lit(Seq<char>),
    Param(Seq<char>),
    Tail,
}

impl View for Seg {
    type V = SegSpec;

    open spec fn view(&self) -> SegSpec {
        match self {
            Seg::Lit(t) => SegSpec::Lit(t@),
            Seg::Param(n) => SegSpec::Param(n@),
            Seg::Tail => SegSpec::Tail,
        }
    }
}

/// The first position of a character, or `-1` when it does not occur.
pub open spec fn spec_find(s: Seq<char>, c: char) -> int
    decreases s.len(),
{
    if s.len() == 0 {
        -1
    } else if s[0] == c {
        0
    } else {
        let rest = spec_find(s.drop_first(), c);
        if rest < 0 {
            -1
        } else {
            rest + 1
        }
    }
}

pub proof fn lemma_spec_find(s: Seq<char>, c: char)
    ensures
        s.contains(c) ==> 0 <= spec_find(s, c) < s.len() && s[spec_find(s, c)] == c && (forall|
            j: int,
        | 0 <= j < spec_find(s, c) ==> s[j] != c),
        !s.contains(c) ==> spec_find(s, c) == -1,
    decreases s.len(),
{
    if s.len() > 0 {
        lemma_spec_find(s.drop_first(), c);
        if s[0] == c {
            assert(s.contains(c));
        } else {
            let rest = spec_find(s.drop_first(), c);
            if s.drop_first().contains(c) {
                let j = choose|j: int| 0 <= j < s.drop_first().len() && s.drop_first()[j] == c;
                assert(s[j + 1] == c);
                assert(s.contains(c));
                assert(spec_find(s, c) == rest + 1);
                assert(s[rest + 1] == s.drop_first()[rest]);
                assert forall|j2: int| 0 <= j2 < spec_find(s, c) implies s[j2] != c by {
                    if j2 > 0 {
                        assert(s[j2] == s.drop_first()[j2 - 1]);
                    }
                }
            } else {
                if s.contains(c) {
                    let j = choose|j: int| 0 <= j < s.len() && s[j] == c;
                    assert(s.drop_first()[j - 1] == c);
                    assert(s.drop_first().contains(c));
                }
                assert(!s.contains(c));
            }
        }
    } else {
        if s.contains(c) {
            let j = choose|j: int| 0 <= j < s.len() && s[j] == c;
        }
    }
}

/// A path's segments: everything after the leading slash, split at each
/// further slash. The root path `/` has the single empty segment.
pub open spec fn spec_split_rest(s: Seq<char>) -> Seq<Seq<char>>
    decreases s.len(),
{
    let i = spec_find(s, '/');
    if 0 <= i && i < s.len() {
        seq![s.subrange(0, i)] + spec_split_rest(s.subrange(i + 1, s.len() as int))
    } else {
        seq![s]
    }
}

/// The segments of a path that begins with `/`.
pub open spec fn spec_split_path(p: Seq<char>) -> Seq<Seq<char>> {
    spec_split_rest(p.subrange(1, p.len() as int))
}

/// Glue segments back together with `/` between them.
pub open spec fn spec_join(ss: Seq<Seq<char>>) -> Seq<char>
    decreases ss.len(),
{
    if ss.len() == 0 {
        Seq::empty()
    } else if ss.len() == 1 {
        ss[0]
    } else {
        ss[0] + seq!['/'] + spec_join(ss.drop_first())
    }
}

/// Split the text after the leading slash of a path at every `/`.
fn split_rest(s: &str) -> (r: Vec<String>)
    ensures
        r@.map(|i: int, t: String| t@) == spec_split_rest(s@),
    decreases s@.len(),
{
    let n: usize = s.unicode_len();
    match crate::text::find_char(s, '/') {
        None => {
            proof {
                lemma_spec_find(s@, '/');
            }
            let mut r: Vec<String> = Vec::new();
            r.push(s.to_owned());
            proof {
                assert(r@.map(|i: int, t: String| t@) =~= spec_split_rest(s@));
            }
            r
        },
        Some(i) => {
            proof {
                lemma_spec_find(s@, '/');
                assert(s@[i as int] == '/');
                assert(s@.contains('/'));
                assert(spec_find(s@, '/') == i as int);
            }
            let head = s.substring_char(0, i).to_owned();
            let rest = split_rest(s.substring_char(i + 1, n));
            let mut r: Vec<String> = Vec::new();
            r.push(head);
            let mut k: usize = 0;
            let m: usize = rest.len();
            while k < m
                invariant
                    m == rest@.len(),
                    k <= m,
                    r@.len() == k + 1,
                    r@[0] == head,
                    forall|j: int| 0 <= j < k ==> r@[j + 1] == rest@[j],
                decreases m - k,
            {
                let e = rest[k].clone();
                r.push(e);
                k = k + 1;
            }
            proof {
                assert(r@.map(|i2: int, t: String| t@) =~= spec_split_rest(s@));
            }
            r
        },
    }
}

/// Split a path beginning with `/` into its segments.
pub fn split_path(path: &str) -> (r: Vec<String>)
    requires
        path@.len() > 0 && path@[0] == '/',
    ensures
        r@.map(|i: int, t: String| t@) == spec_split_path(path@),
{
    let n: usize = path.unicode_len();
    split_rest(path.substring_char(1, n))
}


/// The segment a template's text stands for: `:name` captures, anything
/// else is literal.
pub open spec fn seg_of_text(t: Seq<char>) -> SegSpec {
    if t.len() > 0 && t[0] == ':' {
        SegSpec::Param(t.subrange(1, t.len() as int))
    } else {
        SegSpec::Lit(t)
    }
}

/// A parsed route template. A template must begin with `/`; a trailing
/// `*` (right after a `/`) matches and captures the whole remaining
/// path.
pub open spec fn spec_parse_route(p: Seq<char>) -> Option<Seq<SegSpec>> {
    if p.len() == 0 || p[0] != '/' {
        None
    } else if p.last() == '*' {
        if p.len() >= 2 && p[p.len() - 2] == '/' {
            if p.len() == 2 {
                Some(seq![SegSpec::Tail])
            } else {
                Some(
                    spec_split_path(p.subrange(0, p.len() - 2)).map(
                        |i: int, t: Seq<char>| seg_of_text(t),
                    ) + seq![SegSpec::Tail],
                )
            }
        } else {
            None
        }
    } else {
        Some(spec_split_path(p).map(|i: int, t: Seq<char>| seg_of_text(t)))
    }
}

/// Whether a capture-all segment stands anywhere but last.
pub open spec fn route_wf(r: Seq<SegSpec>) -> bool {
    forall|i: int| 0 <= i < r.len() && r[i] is Tail ==> i == r.len() - 1
}

/// Whether one segment accepts one piece of path text.
pub open spec fn seg_accepts(s: SegSpec, t: Seq<char>) -> bool {
    match s {
        SegSpec::Lit(l) => l == t,
        SegSpec::Param(_) => true,
        SegSpec::Tail => true,
    }
}

/// Whether a route matches a split path. Without a capture-all the
/// lengths must agree; with one, the path must reach it.
pub open spec fn route_accepts(r: Seq<SegSpec>, p: Seq<Seq<char>>) -> bool {
    if r.len() > 0 && r.last() is Tail {
        p.len() >= r.len() && forall|i: int| 0 <= i < r.len() - 1 ==> seg_accepts(r[i], p[i])
    } else {
        p.len() == r.len() && forall|i: int| 0 <= i < r.len() ==> seg_accepts(r[i], p[i])
    }
}

/// The named captures of a matched route, in template order.
pub open spec fn spec_captures(r: Seq<SegSpec>, p: Seq<Seq<char>>) -> Seq<(Seq<char>, Seq<char>)>
    decreases r.len(),
{
    if r.len() == 0 || p.len() == 0 {
        Seq::empty()
    } else {
        match r[0] {
            SegSpec::Param(n) => seq![(n, p[0])] + spec_captures(r.drop_first(), p.drop_first()),
            SegSpec::Lit(_) => spec_captures(r.drop_first(), p.drop_first()),
            SegSpec::Tail => Seq::empty(),
        }
    }
}

/// The remaining path a route's capture-all swallows.
pub open spec fn spec_tail(r: Seq<SegSpec>, p: Seq<Seq<char>>) -> Seq<char> {
    spec_join(p.skip(r.len() - 1))
}

/// How specific one segment is: literal beats capture beats capture-all.
pub open spec fn seg_rank(s: SegSpec) -> int {
    match s {
        SegSpec::Lit(_) => 0,
        SegSpec::Param(_) => 1,
        SegSpec::Tail => 2,
    }
}

/// Position-wise comparison of specificity: whoever first offers the
/// more specific kind of segment wins.
pub open spec fn ranks_lt(a: Seq<SegSpec>, b: Seq<SegSpec>) -> bool
    decreases a.len(),
{
    if a.len() == 0 || b.len() == 0 {
        false
    } else if seg_rank(a[0]) != seg_rank(b[0]) {
        seg_rank(a[0]) < seg_rank(b[0])
    } else {
        ranks_lt(a.drop_first(), b.drop_first())
    }
}

/// Whether two templates would fight over the same requests: the same
/// shape position for position, capture names aside.
pub open spec fn same_shape(a: Seq<SegSpec>, b: Seq<SegSpec>) -> bool {
    a.len() == b.len() && forall|i: int|
        0 <= i < a.len() ==> seg_rank(a[i]) == seg_rank(b[i]) && (a[i] matches SegSpec::Lit(x)
            ==> b[i] matches SegSpec::Lit(y) && x == y)
}

/// The most specific matching route among the first `n`, earliest
/// registered first at equal specificity.
pub open spec fn spec_best(routes: Seq<Seq<SegSpec>>, p: Seq<Seq<char>>, n: int) -> Option<int>
    decreases n,
{
    if n <= 0 {
        None
    } else {
        let prev = spec_best(routes, p, n - 1);
        if !route_accepts(routes[n - 1], p) {
            prev
        } else {
            match prev {
                None => Some(n - 1),
                Some(j) => if ranks_lt(routes[n - 1], routes[j]) {
                    Some(n - 1)
                } else {
                    prev
                },
            }
        }
    }
}

/// Parse a route template.
pub fn parse_route(path: &str) -> (r: Option<Route>)
    ensures
        match r {
            Some(route) => spec_parse_route(path@) == Some(
                route.segs@.map(|i: int, s: Seg| s@),
            ),
            None => spec_parse_route(path@) is None,
        },
{
    let n: usize = path.unicode_len();
    if n == 0 || path.get_char(0) != '/' {
        return None;
    }
    if path.get_char(n - 1) == '*' {
        if n >= 2 && path.get_char(n - 2) == '/' {
            let mut segs: Vec<Seg> = Vec::new();
            if n > 2 {
                let prefix = path.substring_char(0, n - 2);
                let texts = split_path(prefix);
                segs = texts_to_segs(texts);
            }
            segs.push(Seg::Tail);
            proof {
                if n > 2 {
                    assert(segs@.map(|i: int, s: Seg| s@) =~= spec_split_path(
                        path@.subrange(0, path@.len() - 2),
                    ).map(|i: int, t: Seq<char>| seg_of_text(t)) + seq![SegSpec::Tail]);
                } else {
                    assert(segs@.map(|i: int, s: Seg| s@) =~= seq![SegSpec::Tail]);
                }
            }
            Some(Route { segs })
        } else {
            None
        }
    } else {
        let texts = split_path(path);
        let segs = texts_to_segs(texts);
        Some(Route { segs })
    }
}

/// Turn each piece of template text into its segment.
fn texts_to_segs(texts: Vec<String>) -> (r: Vec<Seg>)
    ensures
        r@.map(|i: int, s: Seg| s@) == texts@.map(|i: int, t: String| t@).map(
            |i: int, t: Seq<char>| seg_of_text(t),
        ),
{
    let n: usize = texts.len();
    let mut segs: Vec<Seg> = Vec::new();
    let mut i: usize = 0;
    while i < n
        invariant
            n == texts@.len(),
            i <= n,
            segs@.map(|k: int, s: Seg| s@) =~= texts@.subrange(0, i as int).map(
                |k: int, t: String| t@,
            ).map(|k: int, t: Seq<char>| seg_of_text(t)),
        decreases n - i,
    {
        let t = &texts[i];
        let tn: usize = t.as_str().unicode_len();
        let ghost prev = segs@;
        if tn > 0 && t.as_str().get_char(0) == ':' {
            let name = t.as_str().substring_char(1, tn).to_owned();
            segs.push(Seg::Param(name));
        } else {
            segs.push(Seg::Lit(t.clone()));
        }
        proof {
            assert(segs@ =~= prev.push(segs@.last()));
            assert(segs@.last()@ == seg_of_text(texts@[i as int]@));
            assert(segs@.map(|k: int, s: Seg| s@) =~= prev.map(|k: int, s: Seg| s@).push(
                seg_of_text(texts@[i as int]@),
            ));
            assert(texts@.subrange(0, i + 1).map(|k: int, t2: String| t2@).map(
                |k: int, t2: Seq<char>| seg_of_text(t2),
            ) =~= texts@.subrange(0, i as int).map(|k: int, t2: String| t2@).map(
                |k: int, t2: Seq<char>| seg_of_text(t2),
            ).push(seg_of_text(texts@[i as int]@)));
            assert(segs@.map(|k: int, s: Seg| s@) =~= texts@.subrange(0, i + 1).map(
                |k: int, t2: String| t2@,
            ).map(|k: int, t2: Seq<char>| seg_of_text(t2)));
        }
        i = i + 1;
    }
    proof {
        assert(texts@.subrange(0, n as int) =~= texts@);
    }
    segs
}

/// A parsed route template.
#[derive(Debug)]
pub struct Route {
    pub segs: Vec<Seg>,
}

impl View for Route {
    type V = Seq<SegSpec>;

    open spec fn view(&self) -> Seq<SegSpec> {
        self.segs@.map(|i: int, s: Seg| s@)
    }
}

impl Route {
    /// Whether this route matches the split path.
    pub fn matches(&self, p: &Vec<String>) -> (r: bool)
        ensures
            r == route_accepts(self@, p@.map(|i: int, t: String| t@)),
    {
        let ghost pv = p@.map(|i: int, t: String| t@);
        let n: usize = self.segs.len();
        let has_tail = n > 0 && matches!(self.segs[n - 1], Seg::Tail);
        let fixed: usize = if has_tail {
            n - 1
        } else {
            n
        };
        if has_tail {
            if p.len() < n {
                return false;
            }
        } else {
            if p.len() != n {
                return false;
            }
        }
        let mut i: usize = 0;
        while i < fixed
            invariant
                n == self.segs@.len(),
                pv == p@.map(|k: int, t: String| t@),
                pv.len() == p@.len(),
                fixed <= n,
                has_tail ==> fixed == n - 1 && self@[n - 1] is Tail && pv.len() >= n,
                !has_tail ==> fixed == n && pv.len() == n,
                i <= fixed,
                forall|j: int| 0 <= j < i ==> seg_accepts(self@[j], pv[j]),
            decreases fixed - i,
        {
            match &self.segs[i] {
                Seg::Lit(t) => {
                    if !crate::text::str_eq(t.as_str(), p[i].as_str()) {
                        proof {
                            assert(!seg_accepts(self@[i as int], pv[i as int]));
                        }
                        return false;
                    }
                },
                Seg::Param(_) => {},
                Seg::Tail => {},
            }
            proof {
                assert(seg_accepts(self@[i as int], pv[i as int]));
            }
            i = i + 1;
        }
        true
    }

    /// Whether this route is strictly more specific than another.
    pub fn more_specific(&self, other: &Route) -> (r: bool)
        ensures
            r == ranks_lt(self@, other@),
    {
        let na: usize = self.segs.len();
        let nb: usize = other.segs.len();
        let mut i: usize = 0;
        proof {
            assert(self@.skip(0) =~= self@);
            assert(other@.skip(0) =~= other@);
        }
        loop
            invariant
                na == self.segs@.len(),
                nb == other.segs@.len(),
                i <= na,
                i <= nb,
                ranks_lt(self@, other@) == ranks_lt(self@.skip(i as int), other@.skip(i as int)),
            decreases na - i,
        {
            if i >= na || i >= nb {
                proof {
                    assert(self@.skip(i as int).len() == 0 || other@.skip(i as int).len() == 0);
                }
                return false;
            }
            let ra = seg_rank_exec(&self.segs[i]);
            let rb = seg_rank_exec(&other.segs[i]);
            proof {
                assert(self@.skip(i as int)[0] == self@[i as int]);
                assert(other@.skip(i as int)[0] == other@[i as int]);
                assert(self@.skip(i as int).drop_first() =~= self@.skip(i + 1));
                assert(other@.skip(i as int).drop_first() =~= other@.skip(i + 1));
            }
            if ra != rb {
                return ra < rb;
            }
            i = i + 1;
        }
    }

    /// The named captures against a split path it matches.
    pub fn captures(&self, p: &Vec<String>) -> (r: Vec<(String, String)>)
        ensures
            r@.map(|i: int, c: (String, String)| (c.0@, c.1@)) == spec_captures(
                self@,
                p@.map(|i: int, t: String| t@),
            ),
    {
        let ghost pv = p@.map(|i: int, t: String| t@);
        let n: usize = self.segs.len();
        let m: usize = p.len();
        let mut out: Vec<(String, String)> = Vec::new();
        let mut i: usize = 0;
        proof {
            assert(self@.skip(0) =~= self@);
            assert(pv.skip(0) =~= pv);
            assert(out@.map(|k: int, c: (String, String)| (c.0@, c.1@)) =~= Seq::<(
                Seq<char>,
                Seq<char>,
            )>::empty());
        }
        while i < n && i < m
            invariant
                n == self.segs@.len(),
                m == p@.len(),
                pv == p@.map(|k: int, t: String| t@),
                pv.len() == m,
                i <= n,
                i <= m,
                spec_captures(self@, pv) == out@.map(|k: int, c: (String, String)| (c.0@, c.1@))
                    + spec_captures_from(self@, pv, i as int),
            decreases n - i,
        {
            proof {
                lemma_captures_from_step(self@, pv, i as int);
            }
            match &self.segs[i] {
                Seg::Param(name) => {
                    out.push((name.clone(), p[i].clone()));
                    proof {
                        assert(out@.map(|k: int, c: (String, String)| (c.0@, c.1@))
                            =~= out@.drop_last().map(
                            |k: int, c: (String, String)| (c.0@, c.1@),
                        ).push((self.segs@[i as int]->Param_0@, p@[i as int]@)));
                        assert(spec_captures(self@, pv) =~= out@.map(
                            |k: int, c: (String, String)| (c.0@, c.1@),
                        ) + spec_captures_from(self@, pv, i + 1));
                    }
                },
                Seg::Lit(_) => {
                    proof {
                        assert(spec_captures(self@, pv) =~= out@.map(
                            |k: int, c: (String, String)| (c.0@, c.1@),
                        ) + spec_captures_from(self@, pv, i + 1));
                    }
                },
                Seg::Tail => {
                    proof {
                        assert(spec_captures_from(self@, pv, i as int) =~= Seq::<(
                            Seq<char>,
                            Seq<char>,
                        )>::empty());
                        assert(spec_captures(self@, pv) =~= out@.map(
                            |k: int, c: (String, String)| (c.0@, c.1@),
                        ));
                    }
                    return out;
                },
            }
            i = i + 1;
        }
        proof {
            assert(spec_captures_from(self@, pv, i as int) =~= Seq::<(
                Seq<char>,
                Seq<char>,
            )>::empty());
            assert(spec_captures(self@, pv) =~= out@.map(
                |k: int, c: (String, String)| (c.0@, c.1@),
            ));
        }
        out
    }
}

/// The captures contributed from position `i` on.
pub open spec fn spec_captures_from(r: Seq<SegSpec>, p: Seq<Seq<char>>, i: int) -> Seq<(
    Seq<char>,
    Seq<char>,
)> {
    spec_captures(r.skip(i), p.skip(i))
}

proof fn lemma_captures_from_step(r: Seq<SegSpec>, p: Seq<Seq<char>>, i: int)
    requires
        0 <= i < r.len(),
        0 <= i < p.len(),
    ensures
        spec_captures_from(r, p, i) == (match r[i] {
            SegSpec::Param(n) => seq![(n, p[i])] + spec_captures_from(r, p, i + 1),
            SegSpec::Lit(_) => spec_captures_from(r, p, i + 1),
            SegSpec::Tail => Seq::<(Seq<char>, Seq<char>)>::empty(),
        }),
{
    assert(r.skip(i)[0] == r[i]);
    assert(p.skip(i)[0] == p[i]);
    assert(r.skip(i).drop_first() =~= r.skip(i + 1));
    assert(p.skip(i).drop_first() =~= p.skip(i + 1));
    match r[i] {
        SegSpec::Param(n) => {
            assert(spec_captures(r.skip(i), p.skip(i)) =~= seq![(n, p[i])] + spec_captures(
                r.skip(i + 1),
                p.skip(i + 1),
            ));
        },
        SegSpec::Lit(_) => {},
        SegSpec::Tail => {},
    }
}

fn seg_rank_exec(s: &Seg) -> (r: u8)
    ensures
        r as int == seg_rank(s@),
{
    match s {
        Seg::Lit(_) => 0,
        Seg::Param(_) => 1,
        Seg::Tail => 2,
    }
}

/// Glue the path segments from position `k` on back together.
pub fn join_from(p: &Vec<String>, k: usize) -> (r: String)
    requires
        k <= p@.len(),
    ensures
        r@ == spec_join(p@.map(|i: int, t: String| t@).skip(k as int)),
{
    let ghost pv = p@.map(|i: int, t: String| t@);
    let n: usize = p.len();
    let mut out = String::new();
    let mut i: usize = k;
    proof {
        assert(pv.skip(k as int).subrange(0, 0) =~= Seq::<Seq<char>>::empty());
    }
    while i < n
        invariant
            n == p@.len(),
            pv == p@.map(|j: int, t: String| t@),
            pv.len() == n,
            k <= i <= n,
            out@ == spec_join(pv.skip(k as int).subrange(0, i - k)),
        decreases n - i,
    {
        if i > k {
            crate::text::push_char(&mut out, '/');
        }
        out.append(p[i].as_str());
        proof {
            lemma_join_push(pv.skip(k as int).subrange(0, i - k), pv[i as int]);
            assert(pv.skip(k as int).subrange(0, i + 1 - k) =~= pv.skip(k as int).subrange(
                0,
                i - k,
            ).push(pv[i as int]));
        }
        i = i + 1;
    }
    proof {
        assert(pv.skip(k as int).subrange(0, n - k) =~= pv.skip(k as int));
    }
    out
}

proof fn lemma_join_push(ss: Seq<Seq<char>>, x: Seq<char>)
    ensures
        spec_join(ss.push(x)) == if ss.len() == 0 {
            x
        } else {
            spec_join(ss) + seq!['/'] + x
        },
    decreases ss.len(),
{
    if ss.len() == 0 {
        assert(ss.push(x)[0] == x);
        assert(spec_join(ss.push(x)) == x);
    } else {
        lemma_join_push(ss.drop_first(), x);
        assert(ss.push(x).drop_first() =~= ss.drop_first().push(x));
        assert(ss.push(x)[0] == ss[0]);
        if ss.len() == 1 {
            assert(spec_join(ss.push(x)) =~= spec_join(ss) + seq!['/'] + x);
        } else {
            assert(spec_join(ss.push(x)) =~= spec_join(ss) + seq!['/'] + x);
        }
    }
}


/// No route matched the request's path. Carries the request unchanged.
#[derive(Debug)]
pub struct NotFound {
    request: Request<BoxBody>,
}

impl NotFound {
    /// The carried request, for contracts.
    pub closed spec fn spec_request(&self) -> Request<BoxBody> {
        self.request
    }

    pub fn new(request: Request<BoxBody>) -> (r: NotFound)
        ensures
            r.spec_request() == request,
    {
        NotFound { request }
    }

    pub fn request_ref(&self) -> (r: &Request<BoxBody>)
        ensures
            *r == self.spec_request(),
    {
        &self.request
    }

    pub fn request_mut(&mut self) -> (r: &mut Request<BoxBody>)
        ensures
            *r == old(self).spec_request(),
            final(self).spec_request() == *final(r),
    {
        &mut self.request
    }

    pub fn into_request(self) -> (r: Request<BoxBody>)
        ensures
            r == self.spec_request(),
    {
        self.request
    }
}

/// A route matched, but no handler is registered for the request's verb.
/// Carries the request unchanged.
#[derive(Debug)]
pub struct MethodNotAllowed {
    request: Request<BoxBody>,
}

impl MethodNotAllowed {
    /// The carried request, for contracts.
    pub closed spec fn spec_request(&self) -> Request<BoxBody> {
        self.request
    }

    pub fn new(request: Request<BoxBody>) -> (r: MethodNotAllowed)
        ensures
            r.spec_request() == request,
    {
        MethodNotAllowed { request }
    }

    pub fn request_ref(&self) -> (r: &Request<BoxBody>)
        ensures
            *r == self.spec_request(),
    {
        &self.request
    }

    pub fn request_mut(&mut self) -> (r: &mut Request<BoxBody>)
        ensures
            *r == old(self).spec_request(),
            final(self).spec_request() == *final(r),
    {
        &mut self.request
    }

    pub fn into_request(self) -> (r: Request<BoxBody>)
        ensures
            r == self.spec_request(),
    {
        self.request
    }
}

} // verus!

verus! {

/// What a template points at: a handler of its own, or a nested mount
/// whose traffic continues with the matched tail as its path.
#[derive(Debug)]
pub enum Endpoint<S> {
    Full(S),
    Nest(S),
}

/// The outcome of a successful path match.
#[derive(Debug)]
pub struct RouteMatch {
    pub index: usize,
    pub captures: Vec<(String, String)>,
    pub tail: Option<String>,
    pub nest: bool,
}

proof fn lemma_best_props(routes: Seq<Seq<SegSpec>>, p: Seq<Seq<char>>, n: int)
    ensures
        spec_best(routes, p, n) matches Some(j) ==> 0 <= j < n && route_accepts(routes[j], p),
    decreases n,
{
    if n > 0 {
        lemma_best_props(routes, p, n - 1);
    }
}

/// The path-matching router: templates in registration order, each with
/// its endpoint. Immutable once built; shared read-only at request time.
#[derive(Debug)]
pub struct Router<S> {
    pub routes: Vec<(Route, Endpoint<S>)>,
}

impl<S> Router<S> {
    /// The registered templates, in order.
    pub open spec fn patterns(&self) -> Seq<Seq<SegSpec>> {
        self.routes@.map(|i: int, e: (Route, Endpoint<S>)| e.0@)
    }

    /// Templates are well-formed, no two fight over the same shape, and
    /// a nested mount's template always ends in a capture-all.
    pub open spec fn wf(&self) -> bool {
        (forall|i: int| 0 <= i < self.patterns().len() ==> route_wf(#[trigger] self.patterns()[i]))
            && (forall|i: int, j: int|
            0 <= i < j < self.patterns().len() ==> !same_shape(
                self.patterns()[i],
                self.patterns()[j],
            )) && (forall|i: int|
            0 <= i < self.routes@.len() && (#[trigger] self.routes@[i].1) is Nest
                ==> self.patterns()[i].len() > 0 && self.patterns()[i].last() is Tail)
    }

    /// An empty router: every request fails with `NotFound`.
    pub fn new() -> (r: Router<S>)
        ensures
            r.patterns() == Seq::<Seq<SegSpec>>::empty(),
            r.wf(),
    {
        let r = Router { routes: Vec::new() };
        proof {
            assert(r.patterns() =~= Seq::<Seq<SegSpec>>::empty());
        }
        r
    }

    /// The most specific route matching a path, with its captures, its
    /// swallowed tail, and whether it is a nested mount.
    pub fn at(&self, path: &str) -> (r: Option<RouteMatch>)
        requires
            path@.len() > 0 && path@[0] == '/',
    ensures
            ({
                let sp = spec_split_path(path@);
                let n = self.patterns().len() as int;
                match r {
                    None => spec_best(self.patterns(), sp, n) is None,
                    Some(m) => spec_best(self.patterns(), sp, n) == Some(m.index as int)
                        && m.index < n && m.captures@.map(
                        |i: int, c: (String, String)| (c.0@, c.1@),
                    ) == spec_captures(self.patterns()[m.index as int], sp) && m.nest == (
                    self.routes@[m.index as int].1 is Nest) && (if self.patterns()[m.index as int].len()
                        > 0 && self.patterns()[m.index as int].last() is Tail {
                        m.tail matches Some(t) && t@ == spec_tail(
                            self.patterns()[m.index as int],
                            sp,
                        )
                    } else {
                        m.tail is None
                    }),
                }
            }),
    {
        let segs = split_path(path);
        let ghost sp = spec_split_path(path@);
        let n: usize = self.routes.len();
        let mut best: Option<usize> = None;
        let mut i: usize = 0;
        while i < n
            invariant
                n == self.routes@.len(),
                segs@.map(|k: int, t: String| t@) == sp,
                i <= n,
                match best {
                    None => spec_best(self.patterns(), sp, i as int) is None,
                    Some(b) => b < n && spec_best(self.patterns(), sp, i as int) == Some(b as int),
                },
            decreases n - i,
        {
            if self.routes[i].0.matches(&segs) {
                match best {
                    None => {
                        best = Some(i);
                    },
                    Some(b) => {
                        if self.routes[i].0.more_specific(&self.routes[b].0) {
                            best = Some(i);
                        }
                    },
                }
            }
            i = i + 1;
        }
        match best {
            None => None,
            Some(b) => {
                proof {
                    lemma_best_props(self.patterns(), sp, n as int);
                }
                let route = &self.routes[b].0;
                let captures = route.captures(&segs);
                let k: usize = route.segs.len();
                let has_tail = k > 0 && matches!(route.segs[k - 1], Seg::Tail);
                let tail = if has_tail {
                    Some(join_from(&segs, k - 1))
                } else {
                    None
                };
                let nest = matches!(self.routes[b].1, Endpoint::Nest(_));
                Some(RouteMatch { index: b, captures, tail, nest })
            },
        }
    }
}

} // verus!

verus! {

/// Whether a template of this shape is already registered.
pub open spec fn conflicts(routes: Seq<Seq<SegSpec>>, r2: Seq<SegSpec>) -> bool {
    exists|i: int| 0 <= i < routes.len() && same_shape(#[trigger] routes[i], r2)
}

proof fn lemma_parse_route_wf(p: Seq<char>)
    ensures
        spec_parse_route(p) matches Some(r) ==> route_wf(r),
{
    if spec_parse_route(p) is Some {
        let r = spec_parse_route(p)->Some_0;
        assert forall|i: int| 0 <= i < r.len() && r[i] is Tail implies i == r.len() - 1 by {
            if p.last() == '*' {
                if p.len() == 2 {
                } else {
                    let texts = spec_split_path(p.subrange(0, p.len() - 2));
                    let segs = texts.map(|k: int, t: Seq<char>| seg_of_text(t));
                    if i < segs.len() {
                        assert(r[i] == segs[i]);
                        assert(!(seg_of_text(texts[i]) is Tail));
                    }
                }
            } else {
                let texts = spec_split_path(p);
                assert(r[i] == seg_of_text(texts[i]));
                assert(!(seg_of_text(texts[i]) is Tail));
            }
        }
    }
}

impl<S> Router<S> {
    fn add_route(self, route: Route, endpoint: Endpoint<S>) -> (r: Router<S>)
        ensures
            r.routes@ == self.routes@.push((route, endpoint)),
            r.patterns() == self.patterns().push(route@),
    {
        let mut routes = self.routes;
        let ghost prev = routes@;
        routes.push((route, endpoint));
        let r = Router { routes };
        proof {
            assert(r.patterns() =~= prev.map(|i: int, e: (Route, Endpoint<S>)| e.0@).push(
                route@,
            ));
        }
        r
    }

    /// Register a handler on a route. The template must begin with `/`,
    /// and no template of the same shape may already be registered.
    pub fn route(self, path: &str, service: S) -> (r: Router<S>)
        requires
            self.wf(),
            spec_parse_route(path@) is Some,
            !conflicts(self.patterns(), spec_parse_route(path@)->Some_0),
        ensures
            r.patterns() == self.patterns().push(spec_parse_route(path@)->Some_0),
            r.routes@.len() == self.routes@.len() + 1,
            forall|i: int| 0 <= i < self.routes@.len() ==> r.routes@[i] == self.routes@[i],
            r.routes@.last().1 == Endpoint::Full(service),
            r.wf(),
    {
        match parse_route(path) {
            Some(route) => {
                proof {
                    lemma_parse_route_wf(path@);
                }
                let r = self.add_route(route, Endpoint::Full(service));
                proof {
                    assert forall|i: int, j: int|
                        0 <= i < j < r.patterns().len() implies !same_shape(
                        r.patterns()[i],
                        r.patterns()[j],
                    ) by {
                        if j == r.patterns().len() - 1 {
                            assert(!same_shape(r.patterns()[i], r.patterns()[j]));
                        }
                    }
                    assert forall|i: int|
                        0 <= i < r.routes@.len() && (#[trigger] r.routes@[i].1) is Nest implies
                        r.patterns()[i].len() > 0 && r.patterns()[i].last() is Tail by {
                        if i < self.routes@.len() {
                            assert(r.routes@[i] == self.routes@[i]);
                            assert(r.patterns()[i] == self.patterns()[i]);
                        }
                    }
                }
                r
            },
            None => vstd::pervasive::unreached(),
        }
    }

    /// Register a nested mount: the template is extended with a
    /// capture-all, so the whole subtree's traffic reaches the mount,
    /// which then sees the captured tail as its path.
    pub fn nest(self, path: &str, service: S) -> (r: Router<S>)
        requires
            self.wf(),
            path@.len() > 0,
            spec_parse_route(nest_template(path@)) is Some,
            !conflicts(self.patterns(), spec_parse_route(nest_template(path@))->Some_0),
        ensures
            r.patterns() == self.patterns().push(spec_parse_route(nest_template(path@))->Some_0),
            r.routes@.len() == self.routes@.len() + 1,
            forall|i: int| 0 <= i < self.routes@.len() ==> r.routes@[i] == self.routes@[i],
            r.routes@.last().1 == Endpoint::Nest(service),
            r.wf(),
    {
        let n: usize = path.unicode_len();
        let full = if path.get_char(n - 1) == '/' {
            path.to_owned().concat("*")
        } else {
            path.to_owned().concat("/*")
        };
        proof {
            reveal_strlit("*");
            reveal_strlit("/*");
            assert(full@ =~= nest_template(path@));
        }
        match parse_route(full.as_str()) {
            Some(route) => {
                proof {
                    lemma_parse_route_wf(full@);
                    assert(full@.last() == '*');
                    assert(route@.last() is Tail);
                }
                let r = self.add_route(route, Endpoint::Nest(service));
                proof {
                    assert forall|i: int, j: int|
                        0 <= i < j < r.patterns().len() implies !same_shape(
                        r.patterns()[i],
                        r.patterns()[j],
                    ) by {
                        if j == r.patterns().len() - 1 {
                            assert(!same_shape(r.patterns()[i], r.patterns()[j]));
                        }
                    }
                    assert forall|i: int|
                        0 <= i < r.routes@.len() && (#[trigger] r.routes@[i].1) is Nest implies
                        r.patterns()[i].len() > 0 && r.patterns()[i].last() is Tail by {
                        if i < self.routes@.len() {
                            assert(r.routes@[i] == self.routes@[i]);
                            assert(r.patterns()[i] == self.patterns()[i]);
                        }
                    }
                }
                r
            },
            None => vstd::pervasive::unreached(),
        }
    }
}

/// The template a nested mount registers: the given prefix extended
/// with a capture-all.
pub open spec fn nest_template(p: Seq<char>) -> Seq<char> {
    if p.len() > 0 && p.last() == '/' {
        p + seq!['*']
    } else {
        p + seq!['/', '*']
    }
}

/// The parameter map after merging new captures: existing names keep
/// out of the way, same names are overwritten by the new capture.
pub open spec fn merge_caps(base: Map<Seq<char>, Seq<char>>, caps: Seq<(Seq<char>, Seq<char>)>) -> Map<
    Seq<char>,
    Seq<char>,
>
    decreases caps.len(),
{
    if caps.len() == 0 {
        base
    } else {
        merge_caps(base, caps.drop_last()).insert(caps.last().0, caps.last().1)
    }
}

/// The parameters already captured for this request, or the empty map.
pub open spec fn params_base(ext: Map<u64, crate::extensions::ExtValueSpec>) -> Map<
    Seq<char>,
    Seq<char>,
> {
    if ext.contains_key(crate::extensions::PARAMS_KEY) && (ext[crate::extensions::PARAMS_KEY]
        matches crate::extensions::ExtValueSpec::Params(m)) {
        ext[crate::extensions::PARAMS_KEY]->Params_0
    } else {
        Map::empty()
    }
}

/// Merge freshly captured parameters into the request's extensions: an
/// inner (more specific) capture overwrites an outer one of the same
/// name.
pub fn insert_params(request: &mut Request<BoxBody>, captures: Vec<(String, String)>)
    requires
        old(request).spec_head().extensions.wf(),
    ensures
        final(request).spec_head().extensions@ == old(request).spec_head().extensions@.insert(
            crate::extensions::PARAMS_KEY,
            crate::extensions::ExtValueSpec::Params(
                merge_caps(
                    params_base(old(request).spec_head().extensions@),
                    captures@.map(|i: int, c: (String, String)| (c.0@, c.1@)),
                ),
            ),
        ),
        final(request).spec_head().extensions.wf(),
        final(request).spec_head() == (crate::request::Head {
            extensions: final(request).spec_head().extensions,
            ..old(request).spec_head()
        }),
        final(request).spec_body() == old(request).spec_body(),
{
    let ghost capsv = captures@.map(|i: int, c: (String, String)| (c.0@, c.1@));
    let ext = request.extensions_mut();
    let prior = ext.remove(crate::extensions::PARAMS_KEY);
    let mut params = match prior {
        Some(crate::extensions::ExtValue::Params(p)) => p.rebuild(),
        _ => crate::params::Params::new(),
    };
    proof {
        assert(params@ =~= params_base(old(request).spec_head().extensions@));
    }
    let n: usize = captures.len();
    let mut i: usize = 0;
    let mut captures = captures;
    proof {
        assert(capsv.subrange(0, 0) =~= Seq::<(Seq<char>, Seq<char>)>::empty());
    }
    while i < n
        invariant
            n == captures@.len(),
            capsv == captures@.map(|k: int, c: (String, String)| (c.0@, c.1@)),
            i <= n,
            params.wf(),
            params@ == merge_caps(
                params_base(old(request).spec_head().extensions@),
                capsv.subrange(0, i as int),
            ),
        decreases n - i,
    {
        let name = captures[i].0.clone();
        let value = captures[i].1.clone();
        params.insert(name, value);
        proof {
            assert(capsv.subrange(0, i + 1).drop_last() =~= capsv.subrange(0, i as int));
            assert(capsv.subrange(0, i + 1).last() == capsv[i as int]);
        }
        i = i + 1;
    }
    proof {
        assert(capsv.subrange(0, n as int) =~= capsv);
    }
    ext.insert(crate::extensions::PARAMS_KEY, crate::extensions::ExtValue::Params(params));
}

/// Rewrite the request's path to `/` followed by the given tail, keeping
/// the query string and everything else, as a nested mount requires.
pub fn replace_path(request: &mut Request<BoxBody>, path: &str)
    ensures
        final(request).spec_head().uri@.path == seq!['/'] + path@,
        final(request).spec_head().uri@.query == old(request).spec_head().uri@.query,
        final(request).spec_head().uri@.scheme == old(request).spec_head().uri@.scheme,
        final(request).spec_head().uri@.authority == old(request).spec_head().uri@.authority,
        final(request).spec_head() == (crate::request::Head {
            uri: final(request).spec_head().uri,
            ..old(request).spec_head()
        }),
        final(request).spec_body() == old(request).spec_body(),
        final(request).spec_head().uri.wf(),
{
    let new_path = crate::text::char_to_string('/').concat(path);
    let query: Option<String> = match request.uri().query() {
        Some(q) => Some(q.clone()),
        None => None,
    };
    let pq = crate::uri::PathAndQuery { path: new_path, query };
    crate::uri::replace_path_and_query(request.uri_mut(), pq);
}

} // verus!

verus! {

impl<S> Router<S> {
    /// How a matched request reaches its endpoint: the most specific
    /// route is the one at `idx`, its captures are merged into the
    /// parameter extension (an inner capture overwriting an outer one
    /// of the same name), a nested mount sees the captured tail (with a
    /// leading slash) as its path with query, scheme and authority
    /// kept, and everything else is untouched.
    pub open spec fn prepared(&self, request: Request<BoxBody>, idx: int, req2: Request<BoxBody>) -> bool {
        let sp = spec_split_path(request.spec_head().uri@.path);
        let n = self.patterns().len() as int;
        let pat = self.patterns()[idx];
        spec_best(self.patterns(), sp, n) == Some(idx) && 0 <= idx < n
            && req2.spec_head().extensions@ == request.spec_head().extensions@.insert(
            crate::extensions::PARAMS_KEY,
            crate::extensions::ExtValueSpec::Params(
                merge_caps(params_base(request.spec_head().extensions@), spec_captures(pat, sp)),
            ),
        ) && req2.spec_head().method == request.spec_head().method && req2.spec_head().version
            == request.spec_head().version && req2.spec_head().headers
            == request.spec_head().headers && req2.spec_body() == request.spec_body()
            && req2.wf() && (if self.routes@[idx].1 is Nest {
            req2.spec_head().uri@.path == seq!['/'] + spec_tail(pat, sp)
                && req2.spec_head().uri@.query == request.spec_head().uri@.query
                && req2.spec_head().uri@.scheme == request.spec_head().uri@.scheme
                && req2.spec_head().uri@.authority == request.spec_head().uri@.authority
        } else {
            req2.spec_head().uri == request.spec_head().uri
        })
    }

    /// Match a request and make it ready for its endpoint: captures are
    /// merged into the parameter extension, and a nested mount sees the
    /// captured tail (with a leading slash) as its path, the query
    /// unchanged. A request no route matches comes back inside
    /// `NotFound`, untouched.
    pub fn prepare(&self, request: Request<BoxBody>) -> (r: Result<
        (usize, Request<BoxBody>),
        Error,
    >)
        requires
            self.wf(),
            request.wf(),
        ensures
            match r {
                Err(e) => spec_best(
                    self.patterns(),
                    spec_split_path(request.spec_head().uri@.path),
                    self.patterns().len() as int,
                ) is None && (e matches Error::NotFound(nf) && nf.spec_request() == request),
                Ok((idx, req2)) => self.prepared(request, idx as int, req2),
            },
    {
        let path = request.uri().path().to_owned();
        match self.at(path.as_str()) {
            None => Err(Error::NotFound(NotFound::new(request))),
            Some(m) => {
                let mut request = request;
                insert_params(&mut request, m.captures);
                if m.nest {
                    proof {
                        assert(self.routes@[m.index as int].1 is Nest);
                        assert(self.patterns()[m.index as int].len() > 0 && self.patterns()[m.index as int].last() is Tail);
                    }
                    match m.tail {
                        Some(t) => {
                            replace_path(&mut request, t.as_str());
                        },
                        None => {
                            proof {
                                assert(false);
                            }
                        },
                    }
                }
                Ok((m.index, request))
            },
        }
    }
}

impl<S> Router<S> where
    S: crate::service::Service<Request<BoxBody>, Response = Response<BoxBody>, Error = Error>,
 {
    /// Whether the endpoint at one position accepts a request.
    pub open spec fn endpoint_callable(&self, i: int, r2: Request<BoxBody>) -> bool {
        match self.routes@[i].1 {
            Endpoint::Full(s) => s.callable(r2),
            Endpoint::Nest(s) => s.callable(r2),
        }
    }

    /// What the endpoint at one position promises of its answer.
    pub open spec fn endpoint_call_spec(
        &self,
        i: int,
        r2: Request<BoxBody>,
        r: Result<Response<BoxBody>, Error>,
    ) -> bool {
        match self.routes@[i].1 {
            Endpoint::Full(s) => s.call_spec(r2, r),
            Endpoint::Nest(s) => s.call_spec(r2, r),
        }
    }
}

impl<S> crate::service::Service<Request<BoxBody>> for Router<S> where
    S: crate::service::Service<Request<BoxBody>, Response = Response<BoxBody>, Error = Error>,
 {
    type Response = Response<BoxBody>;

    type Error = Error;

    open spec fn callable(&self, request: Request<BoxBody>) -> bool {
        self.wf() && request.wf() && forall|i: int, r2: Request<BoxBody>|
            #[trigger] self.prepared(request, i, r2) ==> self.endpoint_callable(i, r2)
    }

    /// Dispatch: with no match, the request comes back unchanged inside
    /// `NotFound`; with a match, the answer is the matched endpoint's
    /// answer to the prepared request (captures merged in and, for a
    /// nested mount, the path cut down to the matched tail).
    open spec fn call_spec(&self, request: Request<BoxBody>, r: Result<
        Response<BoxBody>,
        Error,
    >) -> bool {
        let sp = spec_split_path(request.spec_head().uri@.path);
        let n = self.patterns().len() as int;
        match spec_best(self.patterns(), sp, n) {
            None => r matches Err(Error::NotFound(nf)) && nf.spec_request() == request,
            Some(i) => exists|req2: Request<BoxBody>|
                #[trigger] self.prepared(request, i, req2) && self.endpoint_call_spec(
                    i,
                    req2,
                    r,
                ),
        }
    }

    fn call(&self, request: Request<BoxBody>) -> (r: Result<Response<BoxBody>, Error>) {
        let ghost original = request;
        match self.prepare(request) {
            Err(e) => {
                let r = Err(e);
                proof {
                    assert(self.call_spec(original, r));
                }
                r
            },
            Ok((idx, req2)) => {
                proof {
                    assert(self.prepared(original, idx as int, req2));
                    assert(self.endpoint_callable(idx as int, req2));
                }
                let ghost g2 = req2;
                let r = match &self.routes[idx].1 {
                    Endpoint::Full(s) => s.call(req2),
                    Endpoint::Nest(s) => s.call(req2),
                };
                proof {
                    let i = spec_best(
                        self.patterns(),
                        spec_split_path(original.spec_head().uri@.path),
                        self.patterns().len() as int,
                    )->Some_0;
                    assert(i == idx as int);
                    assert(self.prepared(original, i, g2) && self.endpoint_call_spec(i, g2, r));
                    assert(self.call_spec(original, r));
                }
                r
            },
        }
    }
}

/// Per-verb dispatch: one optional handler for each HTTP method. A
/// `HEAD` request prefers its own handler and otherwise falls back to
/// the `GET` one; every other verb maps only to its own slot.
#[derive(Debug)]
pub struct MethodRouter<S> {
    pub options: Option<S>,
    pub get: Option<S>,
    pub post: Option<S>,
    pub put: Option<S>,
    pub delete: Option<S>,
    pub head: Option<S>,
    pub trace: Option<S>,
    pub patch: Option<S>,
}

impl<S> MethodRouter<S> {
    /// The handler a verb dispatches to, fallback included.
    pub open spec fn spec_route_of(&self, m: crate::method::Method) -> Option<S> {
        match m {
            crate::method::Method::Head => if self.head is Some {
                self.head
            } else {
                self.get
            },
            crate::method::Method::Get => self.get,
            crate::method::Method::Post => self.post,
            crate::method::Method::Put => self.put,
            crate::method::Method::Delete => self.delete,
            crate::method::Method::Options => self.options,
            crate::method::Method::Patch => self.patch,
            crate::method::Method::Trace => self.trace,
        }
    }

    /// A method router with no handlers: every request fails with
    /// `MethodNotAllowed`.
    pub fn new() -> (r: MethodRouter<S>)
        ensures
            r.options is None && r.get is None && r.post is None && r.put is None && r.delete
                is None && r.head is None && r.trace is None && r.patch is None,
    {
        MethodRouter {
            options: None,
            get: None,
            post: None,
            put: None,
            delete: None,
            head: None,
            trace: None,
            patch: None,
        }
    }

    /// The handler the given verb dispatches to: `HEAD` falls back to
    /// the `GET` handler exactly when no dedicated `HEAD` handler is
    /// registered.
    pub fn route_of(&self, m: &crate::method::Method) -> (r: Option<&S>)
        ensures
            match (r, self.spec_route_of(*m)) {
                (Some(s), Some(g)) => *s == g,
                (None, None) => true,
                _ => false,
            },
    {
        match m {
            crate::method::Method::Head => match &self.head {
                Some(s) => Some(s),
                None => match &self.get {
                    Some(s) => Some(s),
                    None => None,
                },
            },
            crate::method::Method::Get => match &self.get {
                Some(s) => Some(s),
                None => None,
            },
            crate::method::Method::Post => match &self.post {
                Some(s) => Some(s),
                None => None,
            },
            crate::method::Method::Put => match &self.put {
                Some(s) => Some(s),
                None => None,
            },
            crate::method::Method::Delete => match &self.delete {
                Some(s) => Some(s),
                None => None,
            },
            crate::method::Method::Options => match &self.options {
                Some(s) => Some(s),
                None => None,
            },
            crate::method::Method::Patch => match &self.patch {
                Some(s) => Some(s),
                None => None,
            },
            crate::method::Method::Trace => match &self.trace {
                Some(s) => Some(s),
                None => None,
            },
        }
    }

    pub fn options(self, service: S) -> (r: MethodRouter<S>)
        ensures
            r == (MethodRouter { options: Some(service), ..self }),
    {
        MethodRouter { options: Some(service), ..self }
    }

    pub fn get(self, service: S) -> (r: MethodRouter<S>)
        ensures
            r == (MethodRouter { get: Some(service), ..self }),
    {
        MethodRouter { get: Some(service), ..self }
    }

    pub fn post(self, service: S) -> (r: MethodRouter<S>)
        ensures
            r == (MethodRouter { post: Some(service), ..self }),
    {
        MethodRouter { post: Some(service), ..self }
    }

    pub fn put(self, service: S) -> (r: MethodRouter<S>)
        ensures
            r == (MethodRouter { put: Some(service), ..self }),
    {
        MethodRouter { put: Some(service), ..self }
    }

    pub fn delete(self, service: S) -> (r: MethodRouter<S>)
        ensures
            r == (MethodRouter { delete: Some(service), ..self }),
    {
        MethodRouter { delete: Some(service), ..self }
    }

    pub fn head(self, service: S) -> (r: MethodRouter<S>)
        ensures
            r == (MethodRouter { head: Some(service), ..self }),
    {
        MethodRouter { head: Some(service), ..self }
    }

    pub fn trace(self, service: S) -> (r: MethodRouter<S>)
        ensures
            r == (MethodRouter { trace: Some(service), ..self }),
    {
        MethodRouter { trace: Some(service), ..self }
    }

    pub fn patch(self, service: S) -> (r: MethodRouter<S>)
        ensures
            r == (MethodRouter { patch: Some(service), ..self }),
    {
        MethodRouter { patch: Some(service), ..self }
    }
}

impl<S> crate::service::Service<Request<BoxBody>> for MethodRouter<S> where
    S: crate::service::Service<Request<BoxBody>, Response = Response<BoxBody>, Error = Error>,
 {
    type Response = Response<BoxBody>;

    type Error = Error;

    open spec fn callable(&self, request: Request<BoxBody>) -> bool {
        match self.spec_route_of(request.spec_head().method) {
            Some(s) => s.callable(request),
            None => true,
        }
    }

    /// Dispatch on the verb: with no handler for it, the request comes
    /// back unchanged inside `MethodNotAllowed`; otherwise the answer
    /// is the selected handler's answer to the unchanged request.
    open spec fn call_spec(&self, request: Request<BoxBody>, r: Result<
        Response<BoxBody>,
        Error,
    >) -> bool {
        match self.spec_route_of(request.spec_head().method) {
            None => r matches Err(Error::MethodNotAllowed(mna)) && mna.spec_request() == request,
            Some(s) => s.call_spec(request, r),
        }
    }

    fn call(&self, request: Request<BoxBody>) -> (r: Result<Response<BoxBody>, Error>) {
        let m = *request.method();
        match self.route_of(&m) {
            Some(s) => s.call(request),
            None => Err(Error::MethodNotAllowed(MethodNotAllowed::new(request))),
        }
    }
}

/// A method router handling `OPTIONS` with the given service.
pub fn options<S>(service: S) -> (r: MethodRouter<S>)
    ensures
        r.options == Some(service),
        r.get is None && r.post is None && r.put is None && r.delete is None && r.head is None
            && r.trace is None && r.patch is None,
{
    MethodRouter::new().options(service)
}

/// A method router handling `GET` with the given service.
pub fn get<S>(service: S) -> (r: MethodRouter<S>)
    ensures
        r.get == Some(service),
        r.options is None && r.post is None && r.put is None && r.delete is None && r.head is None
            && r.trace is None && r.patch is None,
{
    MethodRouter::new().get(service)
}

/// A method router handling `POST` with the given service.
pub fn post<S>(service: S) -> (r: MethodRouter<S>)
    ensures
        r.post == Some(service),
        r.options is None && r.get is None && r.put is None && r.delete is None && r.head is None
            && r.trace is None && r.patch is None,
{
    MethodRouter::new().post(service)
}

/// A method router handling `PUT` with the given service.
pub fn put<S>(service: S) -> (r: MethodRouter<S>)
    ensures
        r.put == Some(service),
        r.options is None && r.get is None && r.post is None && r.delete is None && r.head is None
            && r.trace is None && r.patch is None,
{
    MethodRouter::new().put(service)
}

/// A method router handling `DELETE` with the given service.
pub fn delete<S>(service: S) -> (r: MethodRouter<S>)
    ensures
        r.delete == Some(service),
        r.options is None && r.get is None && r.post is None && r.put is None && r.head is None
            && r.trace is None && r.patch is None,
{
    MethodRouter::new().delete(service)
}

/// A method router handling `HEAD` with the given service.
pub fn head<S>(service: S) -> (r: MethodRouter<S>)
    ensures
        r.head == Some(service),
        r.options is None && r.get is None && r.post is None && r.put is None && r.delete is None
            && r.trace is None && r.patch is None,
{
    MethodRouter::new().head(service)
}

/// A method router handling `TRACE` with the given service.
pub fn trace<S>(service: S) -> (r: MethodRouter<S>)
    ensures
        r.trace == Some(service),
        r.options is None && r.get is None && r.post is None && r.put is None && r.delete is None
            && r.head is None && r.patch is None,
{
    MethodRouter::new().trace(service)
}

/// A method router handling `PATCH` with the given service.
pub fn patch<S>(service: S) -> (r: MethodRouter<S>)
    ensures
        r.patch == Some(service),
        r.options is None && r.get is None && r.post is None && r.put is None && r.delete is None
            && r.head is None && r.trace is None,
{
    MethodRouter::new().patch(service)
}

} // verus!

verus! {

/// Whether a template consists of literal segments alone.
pub open spec fn all_literal(r: Seq<SegSpec>) -> bool {
    forall|i: int| 0 <= i < r.len() ==> (#[trigger] r[i]) matches SegSpec::Lit(_)
}

/// No route can be strictly more specific than one made of literals.
proof fn lemma_literal_is_most_specific(a: Seq<SegSpec>, b: Seq<SegSpec>)
    requires
        all_literal(a),
    ensures
        !ranks_lt(b, a),
    decreases a.len(),
{
    if a.len() > 0 && b.len() > 0 {
        assert(a[0] matches SegSpec::Lit(_));
        if seg_rank(b[0]) == seg_rank(a[0]) {
            assert(a.drop_first()[a.len() - 2] == a[a.len() - 1] || a.len() == 1);
            assert forall|i: int| 0 <= i < a.drop_first().len() implies (
            #[trigger] a.drop_first()[i]) matches SegSpec::Lit(_) by {
                assert(a.drop_first()[i] == a[i + 1]);
            }
            lemma_literal_is_most_specific(a.drop_first(), b.drop_first());
        }
    }
}

/// Against a path it matches outright, a template of literals is
/// strictly more specific than any other matching template of a
/// different shape.
proof fn lemma_literal_beats(a: Seq<SegSpec>, b: Seq<SegSpec>, p: Seq<Seq<char>>)
    requires
        all_literal(a),
        route_accepts(a, p),
        route_accepts(b, p),
        route_wf(b),
        !same_shape(a, b),
    ensures
        ranks_lt(a, b),
    decreases a.len(),
{
    assert(a.len() == p.len());
    if a.len() == 0 {
        if b.len() > 0 && b.last() is Tail {
            assert(p.len() >= b.len());
            assert(b.len() <= 0);
        } else {
            assert(b.len() == p.len());
        }
        assert(same_shape(a, b));
    } else {
        if b.len() == 0 {
            if a.len() > 0 && a.last() is Tail {
                assert(a[a.len() - 1] matches SegSpec::Lit(_));
            }
            assert(p.len() == 0);
        }
        assert(b.len() > 0);
        assert(a[0] matches SegSpec::Lit(_));
        if seg_rank(b[0]) != seg_rank(a[0]) {
            assert(seg_rank(a[0]) == 0);
            assert(b[0] matches SegSpec::Lit(_) ==> seg_rank(b[0]) == 0);
            assert(seg_rank(b[0]) > 0);
        } else {
            assert(b[0] matches SegSpec::Lit(_));
            if b.len() == 1 && b[0] is Tail {
                assert(false);
            }
            let a2 = a.drop_first();
            let b2 = b.drop_first();
            let p2 = p.drop_first();
            assert forall|i: int| 0 <= i < a2.len() implies (#[trigger] a2[i]) matches
                SegSpec::Lit(_) by {
                assert(a2[i] == a[i + 1]);
            }
            assert(route_accepts(a2, p2)) by {
                assert(a.len() > 0 ==> !(a.last() is Tail));
                assert forall|i: int| 0 <= i < a2.len() implies seg_accepts(a2[i], p2[i]) by {
                    assert(a2[i] == a[i + 1]);
                    assert(p2[i] == p[i + 1]);
                    assert(seg_accepts(a[i + 1], p[i + 1]));
                }
            }
            assert(route_accepts(b2, p2)) by {
                if b.len() > 0 && b.last() is Tail {
                    assert(b2.len() > 0 && b2.last() == b.last());
                    assert(p2.len() >= b2.len());
                    assert forall|i: int| 0 <= i < b2.len() - 1 implies seg_accepts(
                        b2[i],
                        p2[i],
                    ) by {
                        assert(b2[i] == b[i + 1]);
                        assert(p2[i] == p[i + 1]);
                        assert(seg_accepts(b[i + 1], p[i + 1]));
                    }
                } else {
                    assert(b2.len() == p2.len());
                    assert forall|i: int| 0 <= i < b2.len() implies seg_accepts(b2[i], p2[i]) by {
                        assert(b2[i] == b[i + 1]);
                        assert(p2[i] == p[i + 1]);
                        assert(seg_accepts(b[i + 1], p[i + 1]));
                    }
                }
            }
            assert(route_wf(b2)) by {
                assert forall|i: int| 0 <= i < b2.len() && b2[i] is Tail implies i == b2.len()
                    - 1 by {
                    assert(b2[i] == b[i + 1]);
                }
            }
            assert(!same_shape(a2, b2)) by {
                if same_shape(a2, b2) {
                    assert forall|i: int|
                        0 <= i < a.len() implies seg_rank(a[i]) == seg_rank(b[i]) && (a[i] matches
                    SegSpec::Lit(x) ==> b[i] matches SegSpec::Lit(y) && x == y) by {
                        if i > 0 {
                            assert(a2[i - 1] == a[i]);
                            assert(b2[i - 1] == b[i]);
                            assert(seg_rank(a2[i - 1]) == seg_rank(b2[i - 1]));
                            assert(a2[i - 1] matches SegSpec::Lit(x) ==> b2[i - 1] matches
                                SegSpec::Lit(y) && x == y);
                        } else {
                            assert(seg_accepts(a[0], p[0]));
                            assert(seg_accepts(b[0], p[0]));
                        }
                    }
                    assert(same_shape(a, b));
                }
            }
            lemma_literal_beats(a2, b2, p2);
        }
    }
}

/// Shape equality reads the same from either side.
proof fn lemma_same_shape_sym(a: Seq<SegSpec>, b: Seq<SegSpec>)
    ensures
        same_shape(a, b) ==> same_shape(b, a),
{
    if same_shape(a, b) {
        assert forall|i: int|
            0 <= i < b.len() implies seg_rank(b[i]) == seg_rank(a[i]) && (b[i] matches
        SegSpec::Lit(x) ==> a[i] matches SegSpec::Lit(y) && x == y) by {
            assert(seg_rank(a[i]) == seg_rank(b[i]));
            if b[i] matches SegSpec::Lit(x) {
                assert(seg_rank(b[i]) == 0);
                assert(a[i] matches SegSpec::Lit(_));
            }
        }
    }
}

/// The law of static routes: a registered template made of literal
/// segments that matches a request's path outright is the route the
/// router picks for it.
pub proof fn lemma_static_route_wins(routes: Seq<Seq<SegSpec>>, p: Seq<Seq<char>>, i: int)
    requires
        forall|k: int| 0 <= k < routes.len() ==> route_wf(#[trigger] routes[k]),
        forall|k: int, j: int| 0 <= k < j < routes.len() ==> !same_shape(routes[k], routes[j]),
        0 <= i < routes.len(),
        all_literal(routes[i]),
        route_accepts(routes[i], p),
    ensures
        spec_best(routes, p, routes.len() as int) == Some(i),
{
    lemma_static_route_wins_upto(routes, p, i, routes.len() as int);
}

proof fn lemma_static_route_wins_upto(routes: Seq<Seq<SegSpec>>, p: Seq<Seq<char>>, i: int, n: int)
    requires
        forall|k: int| 0 <= k < routes.len() ==> route_wf(#[trigger] routes[k]),
        forall|k: int, j: int| 0 <= k < j < routes.len() ==> !same_shape(routes[k], routes[j]),
        0 <= i < routes.len(),
        all_literal(routes[i]),
        route_accepts(routes[i], p),
        i < n <= routes.len(),
    ensures
        spec_best(routes, p, n) == Some(i),
    decreases n,
{
    if n - 1 == i {
        lemma_best_props(routes, p, n - 1);
        match spec_best(routes, p, n - 1) {
            None => {},
            Some(j) => {
                assert(route_accepts(routes[j], p));
                assert(j != i);
                assert(!same_shape(routes[j], routes[i]));
                lemma_same_shape_sym(routes[i], routes[j]);
                lemma_literal_beats(routes[i], routes[j], p);
            },
        }
    } else {
        lemma_static_route_wins_upto(routes, p, i, n - 1);
        if route_accepts(routes[n - 1], p) {
            assert(!same_shape(routes[i], routes[n - 1]));
            lemma_literal_is_most_specific(routes[i], routes[n - 1]);
        }
    }
}

/// The law of verb fallback: a `HEAD` request dispatches to the `GET`
/// handler exactly when no dedicated `HEAD` handler is registered;
/// every other verb maps only to its own slot.
pub proof fn lemma_head_fallback<S>(mr: MethodRouter<S>)
    ensures
        mr.head is Some ==> mr.spec_route_of(crate::method::Method::Head) == mr.head,
        mr.head is None ==> mr.spec_route_of(crate::method::Method::Head) == mr.get,
        mr.spec_route_of(crate::method::Method::Get) == mr.get,
        mr.spec_route_of(crate::method::Method::Post) == mr.post,
        mr.spec_route_of(crate::method::Method::Put) == mr.put,
        mr.spec_route_of(crate::method::Method::Delete) == mr.delete,
        mr.spec_route_of(crate::method::Method::Options) == mr.options,
        mr.spec_route_of(crate::method::Method::Patch) == mr.patch,
        mr.spec_route_of(crate::method::Method::Trace) == mr.trace,
{
}

/// The law of parameter capture: when a matching template captures a
/// segment under a name no other capture in it uses, the merged
/// parameters carry exactly that segment under that name.
pub proof fn lemma_param_capture(
    base: Map<Seq<char>, Seq<char>>,
    r: Seq<SegSpec>,
    p: Seq<Seq<char>>,
    i: int,
    name: Seq<char>,
)
    requires
        route_accepts(r, p),
        route_wf(r),
        0 <= i < r.len(),
        r[i] == SegSpec::Param(name),
        i < p.len(),
        forall|j: int|
            0 <= j < r.len() && j != i ==> !((#[trigger] r[j]) matches SegSpec::Param(n2) && n2
                == name),
    ensures
        merge_caps(base, spec_captures(r, p)).contains_key(name),
        merge_caps(base, spec_captures(r, p))[name] == p[i],
{
    lemma_captures_entry(r, p, i, name);
    let caps = spec_captures(r, p);
    let k = choose|k: int|
        0 <= k < caps.len() && caps[k] == (name, p[i]) && (forall|k2: int|
            k < k2 < caps.len() ==> (#[trigger] caps[k2]).0 != name);
    lemma_merge_caps_last(base, caps, k);
}

/// A matching template's capture list holds each uniquely-named capture
/// exactly once, and no later entry reuses its name.
proof fn lemma_captures_entry(r: Seq<SegSpec>, p: Seq<Seq<char>>, i: int, name: Seq<char>)
    requires
        0 <= i < r.len(),
        i < p.len(),
        r[i] == SegSpec::Param(name),
        route_wf(r),
        forall|j: int|
            0 <= j < r.len() && j != i ==> !((#[trigger] r[j]) matches SegSpec::Param(n2) && n2
                == name),
    ensures
        exists|k: int|
            0 <= k < spec_captures(r, p).len() && spec_captures(r, p)[k] == (name, p[i]) && (
            forall|k2: int|
                k < k2 < spec_captures(r, p).len() ==> (#[trigger] spec_captures(r, p)[k2]).0
                    != name),
    decreases i,
{
    let caps = spec_captures(r, p);
    if i == 0 {
        assert(caps[0] == (name, p[0]));
        assert(caps.drop_first() =~= spec_captures(r.drop_first(), p.drop_first()));
        lemma_captures_no_name(r.drop_first(), p.drop_first(), name);
        assert forall|k2: int| 0 < k2 < caps.len() implies (#[trigger] caps[k2]).0 != name by {
            assert(caps[k2] == caps.drop_first()[k2 - 1]);
        }
    } else {
        assert(r[0] matches SegSpec::Lit(_) || r[0] matches SegSpec::Param(_)) by {
            if r[0] is Tail {
                assert(r.len() == 1);
            }
        }
        let r2 = r.drop_first();
        let p2 = p.drop_first();
        assert(r2[i - 1] == r[i]);
        assert(route_wf(r2)) by {
            assert forall|j: int| 0 <= j < r2.len() && r2[j] is Tail implies j == r2.len() - 1 by {
                assert(r2[j] == r[j + 1]);
            }
        }
        assert(forall|j: int|
            0 <= j < r2.len() && j != i - 1 ==> !((#[trigger] r2[j]) matches SegSpec::Param(n2)
                && n2 == name)) by {
            assert forall|j: int| 0 <= j < r2.len() implies r2[j] == r[j + 1] by {}
        }
        lemma_captures_entry(r2, p2, i - 1, name);
        let k2w = choose|k: int|
            0 <= k < spec_captures(r2, p2).len() && spec_captures(r2, p2)[k] == (name, p2[i - 1])
                && (forall|k2: int|
                k < k2 < spec_captures(r2, p2).len() ==> (#[trigger] spec_captures(r2, p2)[k2]).0
                    != name);
        match r[0] {
            SegSpec::Param(n0) => {
                assert(caps =~= seq![(n0, p[0])] + spec_captures(r2, p2));
                assert(caps[k2w + 1] == spec_captures(r2, p2)[k2w]);
                assert(p2[i - 1] == p[i]);
                assert forall|k2: int| k2w + 1 < k2 < caps.len() implies (#[trigger] caps[k2]).0
                    != name by {
                    assert(caps[k2] == spec_captures(r2, p2)[k2 - 1]);
                }
            },
            SegSpec::Lit(_) => {
                assert(caps =~= spec_captures(r2, p2));
                assert(p2[i - 1] == p[i]);
            },
            SegSpec::Tail => {
                assert(false);
            },
        }
    }
}

/// A capture list over segments that never capture the name holds no
/// entry under it.
proof fn lemma_captures_no_name(r: Seq<SegSpec>, p: Seq<Seq<char>>, name: Seq<char>)
    requires
        forall|j: int|
            0 <= j < r.len() ==> !((#[trigger] r[j]) matches SegSpec::Param(n2) && n2 == name),
    ensures
        forall|k: int|
            0 <= k < spec_captures(r, p).len() ==> (#[trigger] spec_captures(r, p)[k]).0 != name,
    decreases r.len(),
{
    if r.len() > 0 && p.len() > 0 {
        let r2 = r.drop_first();
        let p2 = p.drop_first();
        assert(forall|j: int|
            0 <= j < r2.len() ==> !((#[trigger] r2[j]) matches SegSpec::Param(n2) && n2 == name))
            by {
            assert forall|j: int| 0 <= j < r2.len() implies r2[j] == r[j + 1] by {}
        }
        lemma_captures_no_name(r2, p2, name);
        let caps = spec_captures(r, p);
        match r[0] {
            SegSpec::Param(n0) => {
                assert forall|k: int| 0 <= k < caps.len() implies (#[trigger] caps[k]).0
                    != name by {
                    if k > 0 {
                        assert(caps[k] == spec_captures(r2, p2)[k - 1]);
                    }
                }
            },
            SegSpec::Lit(_) => {},
            SegSpec::Tail => {},
        }
    }
}

/// Merging a capture list stores, for each name, the value of its last
/// entry.
proof fn lemma_merge_caps_last(
    base: Map<Seq<char>, Seq<char>>,
    caps: Seq<(Seq<char>, Seq<char>)>,
    k: int,
)
    requires
        0 <= k < caps.len(),
        forall|k2: int| k < k2 < caps.len() ==> (#[trigger] caps[k2]).0 != caps[k].0,
    ensures
        merge_caps(base, caps).contains_key(caps[k].0),
        merge_caps(base, caps)[caps[k].0] == caps[k].1,
    decreases caps.len(),
{
    if k == caps.len() - 1 {
    } else {
        assert(caps.drop_last()[k] == caps[k]);
        assert(forall|k2: int|
            k < k2 < caps.drop_last().len() ==> (#[trigger] caps.drop_last()[k2]).0
                != caps.drop_last()[k].0) by {
            assert forall|k2: int| k < k2 < caps.drop_last().len() implies caps.drop_last()[k2]
                == caps[k2] by {}
        }
        lemma_merge_caps_last(base, caps.drop_last(), k);
        assert(caps.last().0 != caps[k].0);
    }
}

} // verus!
