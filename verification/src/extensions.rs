//! A per-message store of side-channel values, keyed by a small integer
//! chosen by whoever defines the value, with at most one value per key.
//! Routers thread captured path parameters through it; applications
//! thread shared state.
use vstd::prelude::*;
use crate::params::Params;

verus! {

/// The key under which a router stores captured path parameters.
pub const PARAMS_KEY: u64 = 1;

/// The key under which a transport records the peer address.
pub const PEER_ADDR_KEY: u64 = 2;

/// A value stored in a message's extensions.
#[derive(Debug)]
pub enum ExtValue {
    /// Captured path parameters.
    Params(Params),
    /// A textual value.
    Text(String),
    /// An opaque byte value.
    Data(Vec<u8>),
    /// A numeric value.
    Number(i64),
}

/// The ghost image of an [`ExtValue`].
pub enum ExtValueSpec {
    Params(Map<Seq<char>, Seq<char>>),
    Text(Seq<char>),
    Data(Seq<u8>),
    Number(int),
}

impl View for ExtValue {
    type V = ExtValueSpec;

    open spec fn view(&self) -> ExtValueSpec {
        match self {
            ExtValue::Params(p) => ExtValueSpec::Params(p@),
            ExtValue::Text(s) => ExtValueSpec::Text(s@),
            ExtValue::Data(d) => ExtValueSpec::Data(d@),
            ExtValue::Number(n) => ExtValueSpec::Number(*n as int),
        }
    }
}

impl Clone for ExtValue {
    fn clone(&self) -> (r: Self)
        ensures
            r@ == self@,
    {
        match self {
            ExtValue::Params(p) => ExtValue::Params(p.clone()),
            ExtValue::Text(s) => ExtValue::Text(s.clone()),
            ExtValue::Data(d) => {
                let mut out: Vec<u8> = Vec::new();
                let n: usize = d.len();
                let mut i: usize = 0;
                while i < n
                    invariant
                        n == d@.len(),
                        i <= n,
                        out@ =~= d@.subrange(0, i as int),
                    decreases n - i,
                {
                    out.push(d[i]);
                    proof {
                        assert(d@.subrange(0, i + 1) =~= d@.subrange(0, i as int).push(
                            d@[i as int],
                        ));
                    }
                    i = i + 1;
                }
                proof {
                    assert(d@.subrange(0, n as int) =~= d@);
                }
                ExtValue::Data(out)
            },
            ExtValue::Number(n) => ExtValue::Number(*n),
        }
    }
}

/// The map written by a list of keyed entries, later entries overwriting
/// earlier ones of the same key.
pub open spec fn spec_ext_map(entries: Seq<(u64, ExtValue)>) -> Map<u64, ExtValueSpec>
    decreases entries.len(),
{
    if entries.len() == 0 {
        Map::empty()
    } else {
        spec_ext_map(entries.drop_last()).insert(entries.last().0, entries.last().1@)
    }
}

/// The extension store of a request or response. An empty store holds no
/// backing storage.
#[derive(Debug)]
pub struct Extensions {
    entries: Option<Vec<(u64, ExtValue)>>,
}

impl View for Extensions {
    type V = Map<u64, ExtValueSpec>;

    closed spec fn view(&self) -> Map<u64, ExtValueSpec> {
        match self.entries {
            Some(v) => spec_ext_map(v@),
            None => Map::empty(),
        }
    }
}

impl Extensions {
    /// No key occurs twice among the stored entries.
    pub closed spec fn wf(&self) -> bool {
        match self.entries {
            Some(v) => forall|i: int, j: int| 0 <= i < j < v@.len() ==> v@[i].0 != v@[j].0,
            None => true,
        }
    }

    spec fn spec_entry_seq(&self) -> Seq<(u64, ExtValue)> {
        match self.entries {
            Some(v) => v@,
            None => Seq::empty(),
        }
    }

    /// An empty store.
    pub fn new() -> (r: Extensions)
        ensures
            r@ == Map::<u64, ExtValueSpec>::empty(),
            r@.dom().finite(),
            r.wf(),
    {
        let r = Extensions { entries: None };
        proof {
            assert(r@.dom() =~= Set::<u64>::empty());
        }
        r
    }

    /// How many values are stored.
    pub fn len(&self) -> (r: usize)
        requires
            self.wf(),
        ensures
            r == self@.dom().len(),
            self@.dom().finite(),
    {
        proof {
            self.lemma_dom_finite();
        }
        match &self.entries {
            None => {
                proof {
                    assert(self@.dom() =~= Set::<u64>::empty());
                }
                0
            },
            Some(v) => {
                proof {
                    Self::lemma_map_dom(v@);
                }
                v.len()
            },
        }
    }

    /// Whether nothing is stored.
    pub fn is_empty(&self) -> (r: bool)
        requires
            self.wf(),
        ensures
            r == (self@ == Map::<u64, ExtValueSpec>::empty()),
            r == (self@.dom().len() == 0),
            self@.dom().finite(),
    {
        proof {
            self.lemma_dom_finite();
            if self@.dom().len() == 0 {
                assert(self@.dom() =~= Set::<u64>::empty());
                assert(self@ =~= Map::<u64, ExtValueSpec>::empty());
            }
            if self@ == Map::<u64, ExtValueSpec>::empty() {
                assert(self@.dom() =~= Set::<u64>::empty());
            }
        }
        match &self.entries {
            None => {
                proof {
                    assert(self@ =~= Map::<u64, ExtValueSpec>::empty());
                }
                true
            },
            Some(v) => {
                proof {
                    Self::lemma_map_dom(v@);
                    if v@.len() > 0 {
                        assert(self@.dom().len() > 0);
                        assert(self@ != Map::<u64, ExtValueSpec>::empty());
                    } else {
                        assert(self@ =~= Map::<u64, ExtValueSpec>::empty());
                    }
                }
                v.len() == 0
            },
        }
    }

    /// Drop every stored value.
    pub fn clear(&mut self)
        ensures
            final(self)@ == Map::<u64, ExtValueSpec>::empty(),
            final(self)@.dom().finite(),
            final(self).wf(),
    {
        self.entries = None;
        proof {
            assert(self@.dom() =~= Set::<u64>::empty());
        }
    }

    /// The value stored under a key.
    pub fn get(&self, key: u64) -> (r: Option<&ExtValue>)
        requires
            self.wf(),
        ensures
            match r {
                Some(v) => self@.contains_key(key) && self@[key] == v@,
                None => !self@.contains_key(key),
            },
    {
        match &self.entries {
            None => None,
            Some(v) => {
                let n: usize = v.len();
                let mut i: usize = 0;
                while i < n
                    invariant
                        self.wf(),
                        self.entries matches Some(vv) && vv@ == v@,
                        n == v@.len(),
                        i <= n,
                        forall|j: int| 0 <= j < i ==> v@[j].0 != key,
                    decreases n - i,
                {
                    if v[i].0 == key {
                        proof {
                            Self::lemma_map_get(v@, i as int);
                        }
                        return Some(&v[i].1);
                    }
                    i = i + 1;
                }
                proof {
                    Self::lemma_map_absent(v@, key);
                }
                None
            },
        }
    }

    /// Store a value under a key; any value already there is replaced and
    /// handed back.
    pub fn insert(&mut self, key: u64, value: ExtValue) -> (r: Option<ExtValue>)
        requires
            old(self).wf(),
        ensures
            final(self)@ == old(self)@.insert(key, value@),
            final(self)@.dom().finite(),
            final(self).wf(),
            match r {
                Some(p) => old(self)@.contains_key(key) && p@ == old(self)@[key],
                None => !old(self)@.contains_key(key),
            },
    {
        let prior = match self.get(key) {
            Some(v) => Some(v.clone()),
            None => None,
        };
        let v: Vec<(u64, ExtValue)> = match self.entries.take() {
            Some(v) => v,
            None => Vec::new(),
        };
        proof {
            if old(self).entries is None {
                assert(v@ =~= Seq::<(u64, ExtValue)>::empty());
                assert(spec_ext_map(v@) =~= old(self)@);
            }
        }
        let mut kept = Self::purge(v, key);
        let ghost purged = kept@;
        kept.push((key, value));
        proof {
            assert(kept@.drop_last() =~= purged);
            assert(spec_ext_map(kept@) == spec_ext_map(purged).insert(key, value@));
        }
        self.entries = Some(kept);
        proof {
            assert(final(self)@ =~= old(self)@.insert(key, value@));
            self.lemma_dom_finite();
        }
        prior
    }

    /// Drop the value stored under a key, handing it back if one was
    /// there.
    pub fn remove(&mut self, key: u64) -> (r: Option<ExtValue>)
        requires
            old(self).wf(),
        ensures
            final(self)@ == old(self)@.remove(key),
            final(self)@.dom().finite(),
            final(self).wf(),
            match r {
                Some(p) => old(self)@.contains_key(key) && p@ == old(self)@[key],
                None => !old(self)@.contains_key(key),
            },
    {
        let prior = match self.get(key) {
            Some(v) => Some(v.clone()),
            None => None,
        };
        let v: Vec<(u64, ExtValue)> = match self.entries.take() {
            Some(v) => v,
            None => Vec::new(),
        };
        proof {
            if old(self).entries is None {
                assert(v@ =~= Seq::<(u64, ExtValue)>::empty());
                assert(spec_ext_map(v@) =~= old(self)@);
            }
        }
        let kept = Self::purge(v, key);
        self.entries = Some(kept);
        proof {
            self.lemma_dom_finite();
        }
        prior
    }

    /// Copy an entry list, leaving out every entry stored under the given
    /// key.
    fn purge(v: Vec<(u64, ExtValue)>, key: u64) -> (r: Vec<(u64, ExtValue)>)
        requires
            forall|a: int, b: int| 0 <= a < b < v@.len() ==> v@[a].0 != v@[b].0,
        ensures
            spec_ext_map(r@) == spec_ext_map(v@).remove(key),
            forall|a: int, b: int| 0 <= a < b < r@.len() ==> r@[a].0 != r@[b].0,
            forall|a: int| 0 <= a < r@.len() ==> r@[a].0 != key,
    {
        let ghost before = v@;
        let n: usize = v.len();
        let mut kept: Vec<(u64, ExtValue)> = Vec::new();
        let mut i: usize = 0;
        proof {
            assert(before.subrange(0, 0) =~= Seq::<(u64, ExtValue)>::empty());
            assert(spec_ext_map(kept@) =~= spec_ext_map(before.subrange(0, 0)).remove(key));
        }
        while i < n
            invariant
                n == before.len(),
                v@ == before,
                i <= n,
                forall|a: int, b: int| 0 <= a < b < before.len() ==> before[a].0 != before[b].0,
                spec_ext_map(kept@) == spec_ext_map(before.subrange(0, i as int)).remove(key),
                forall|a: int, b: int| 0 <= a < b < kept@.len() ==> kept@[a].0 != kept@[b].0,
                forall|a: int| 0 <= a < kept@.len() ==> kept@[a].0 != key,
                forall|a: int|
                    0 <= a < kept@.len() ==> exists|j: int|
                        0 <= j < i && #[trigger] (kept@[a].0) == before[j].0,
            decreases n - i,
        {
            proof {
                assert(before.subrange(0, i + 1).drop_last() =~= before.subrange(0, i as int));
                assert(before.subrange(0, i + 1).last() == before[i as int]);
            }
            if v[i].0 != key {
                let e = (v[i].0, v[i].1.clone());
                proof {
                    assert(e.0 == before[i as int].0);
                    assert forall|a: int| 0 <= a < kept@.len() implies kept@[a].0
                        != before[i as int].0 by {
                        let j = choose|j: int| 0 <= j < i && kept@[a].0 == before[j].0;
                        assert(before[j].0 != before[i as int].0);
                    }
                }
                let ghost prev = kept@;
                kept.push(e);
                proof {
                    assert(kept@.drop_last() =~= prev);
                    assert(spec_ext_map(kept@) == spec_ext_map(prev).insert(e.0, e.1@));
                    assert(spec_ext_map(kept@) =~= spec_ext_map(before.subrange(0, i + 1)).remove(
                        key,
                    ));
                    assert forall|a: int| 0 <= a < kept@.len() implies exists|j: int|
                        0 <= j < i + 1 && #[trigger] (kept@[a].0) == before[j].0 by {
                        if a < prev.len() {
                            let j = choose|j: int| 0 <= j < i && prev[a].0 == before[j].0;
                            assert(0 <= j < i + 1 && kept@[a].0 == before[j].0);
                        } else {
                            assert(kept@[a].0 == before[i as int].0);
                        }
                    }
                }
            } else {
                proof {
                    assert(spec_ext_map(before.subrange(0, i + 1)) == spec_ext_map(
                        before.subrange(0, i as int),
                    ).insert(before[i as int].0, before[i as int].1@));
                    assert(spec_ext_map(before.subrange(0, i + 1)).remove(key) =~= spec_ext_map(
                        before.subrange(0, i as int),
                    ).remove(key));
                }
            }
            i = i + 1;
        }
        proof {
            assert(before.subrange(0, n as int) =~= before);
        }
        kept
    }

    /// The position of the entry stored under a key.
    fn find_idx(&self, key: u64) -> (r: Option<usize>)
        ensures
            match r {
                Some(i) => self.entries matches Some(v) && i < v@.len() && v@[i as int].0 == key
                    && forall|j: int| 0 <= j < i ==> v@[j].0 != key,
                None => match self.entries {
                    Some(v) => forall|j: int| 0 <= j < v@.len() ==> v@[j].0 != key,
                    None => true,
                },
            },
    {
        match &self.entries {
            None => None,
            Some(v) => {
                let n: usize = v.len();
                let mut i: usize = 0;
                while i < n
                    invariant
                        self.entries matches Some(vv) && vv@ == v@,
                        n == v@.len(),
                        i <= n,
                        forall|j: int| 0 <= j < i ==> v@[j].0 != key,
                    decreases n - i,
                {
                    if v[i].0 == key {
                        return Some(i);
                    }
                    i = i + 1;
                }
                None
            },
        }
    }

    /// The value stored under a key, exposed for in-place change: the
    /// store afterwards holds, under that key, whatever the caller
    /// leaves in the reference; with nothing stored there, nothing
    /// changes.
    pub fn get_mut(&mut self, key: u64) -> (r: Option<&mut ExtValue>)
        requires
            old(self).wf(),
        ensures
            match r {
                Some(v) => old(self)@.contains_key(key) && (*v)@ == old(self)@[key]
                    && final(self)@ == old(self)@.insert(key, final(v)@),
                None => !old(self)@.contains_key(key) && final(self)@ == old(self)@,
            },
            final(self)@.dom().finite(),
            final(self).wf(),
    {
        proof {
            old(self).lemma_dom_finite();
            assert forall|x: ExtValueSpec| #[trigger] old(self)@.insert(
                key,
                x,
            ).dom().finite() by {
                assert(old(self)@.insert(key, x).dom() =~= old(self)@.dom().insert(key));
            }
        }
        let idx = match self.find_idx(key) {
            Some(i) => i,
            None => {
                proof {
                    match old(self).entries {
                        Some(v) => {
                            Self::lemma_map_absent(v@, key);
                        },
                        None => {
                            assert(!old(self)@.contains_key(key));
                        },
                    }
                }
                return None;
            },
        };
        match &mut self.entries {
            None => vstd::pervasive::unreached(),
            Some(v) => {
                let ghost before = v@;
                proof {
                    Self::lemma_map_get(before, idx as int);
                    assert forall|x: ExtValue|
                        #[trigger] spec_ext_map(before.update(idx as int, (key, x))) == old(
                            self,
                        )@.insert(key, x@) by {
                        Self::lemma_map_update_val(before, idx as int, x);
                    }
                    assert forall|x: ExtValue, a: int, b: int|
                        0 <= a < b < before.update(idx as int, (key, x)).len() implies (
                    #[trigger] before.update(idx as int, (key, x))[a]).0 != (
                    #[trigger] before.update(idx as int, (key, x))[b]).0 by {
                        assert(before.update(idx as int, (key, x))[a].0 == before[a].0);
                        assert(before.update(idx as int, (key, x))[b].0 == before[b].0);
                    }
                }
                Some(&mut v[idx].1)
            },
        }
    }

    /// Replacing one entry's value rewrites exactly that key's mapping.
    proof fn lemma_map_update_val(entries: Seq<(u64, ExtValue)>, i: int, x: ExtValue)
        requires
            0 <= i < entries.len(),
            forall|a: int, b: int|
                0 <= a < b < entries.len() ==> entries[a].0 != entries[b].0,
        ensures
            spec_ext_map(entries.update(i, (entries[i].0, x))) == spec_ext_map(entries).insert(
                entries[i].0,
                x@,
            ),
        decreases entries.len(),
    {
        let after = entries.update(i, (entries[i].0, x));
        if i == entries.len() - 1 {
            assert(after.drop_last() =~= entries.drop_last());
            assert(after.last() == (entries[i].0, x));
            assert(spec_ext_map(after) =~= spec_ext_map(entries).insert(entries[i].0, x@));
        } else {
            assert(after.drop_last() =~= entries.drop_last().update(i, (entries[i].0, x)));
            assert(entries.drop_last()[i] == entries[i]);
            Self::lemma_map_update_val(entries.drop_last(), i, x);
            assert(after.last() == entries.last());
            assert(entries[i].0 != entries.last().0);
            assert(spec_ext_map(after) =~= spec_ext_map(entries).insert(entries[i].0, x@));
        }
    }

    proof fn lemma_map_get(entries: Seq<(u64, ExtValue)>, i: int)
        requires
            0 <= i < entries.len(),
            forall|a: int, b: int| 0 <= a < b < entries.len() ==> entries[a].0 != entries[b].0,
        ensures
            spec_ext_map(entries).contains_key(entries[i].0),
            spec_ext_map(entries)[entries[i].0] == entries[i].1@,
        decreases entries.len(),
    {
        if i == entries.len() - 1 {
        } else {
            assert(entries.drop_last()[i] == entries[i]);
            Self::lemma_map_get(entries.drop_last(), i);
        }
    }

    proof fn lemma_map_absent(entries: Seq<(u64, ExtValue)>, key: u64)
        requires
            forall|j: int| 0 <= j < entries.len() ==> entries[j].0 != key,
        ensures
            !spec_ext_map(entries).contains_key(key),
        decreases entries.len(),
    {
        if entries.len() > 0 {
            Self::lemma_map_absent(entries.drop_last(), key);
        }
    }

    /// A well-formed store's view has a finite domain: one key per
    /// entry.
    proof fn lemma_dom_finite(&self)
        requires
            self.wf(),
        ensures
            self@.dom().finite(),
    {
        match self.entries {
            Some(v) => {
                Self::lemma_map_dom(v@);
            },
            None => {
                assert(self@.dom() =~= Set::<u64>::empty());
            },
        }
    }

    proof fn lemma_map_dom(entries: Seq<(u64, ExtValue)>)
        requires
            forall|a: int, b: int| 0 <= a < b < entries.len() ==> entries[a].0 != entries[b].0,
        ensures
            spec_ext_map(entries).dom().len() == entries.len(),
            spec_ext_map(entries).dom().finite(),
        decreases entries.len(),
    {
        if entries.len() == 0 {
            assert(spec_ext_map(entries).dom() =~= Set::<u64>::empty());
        } else {
            Self::lemma_map_dom(entries.drop_last());
            Self::lemma_map_absent(entries.drop_last(), entries.last().0);
            assert(spec_ext_map(entries).dom() =~= spec_ext_map(entries.drop_last()).dom().insert(
                entries.last().0,
            ));
        }
    }
}

impl Default for Extensions {
    fn default() -> (r: Extensions)
        ensures
            r@ == Map::<u64, ExtValueSpec>::empty(),
            r.wf(),
    {
        Extensions::new()
    }
}

} // verus!
