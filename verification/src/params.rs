//! Path parameters captured by the router, stored under their template
//! names. A name holds at most one capture; a more specific (inner)
//! capture overwrites an outer one of the same name.
use vstd::prelude::*;
use crate::text;

verus! {

/// Captured path parameters of one matched request.
#[derive(Debug)]
pub struct Params {
    entries: Vec<(String, String)>,
}

impl View for Params {
    type V = Map<Seq<char>, Seq<char>>;

    closed spec fn view(&self) -> Map<Seq<char>, Seq<char>> {
        Self::spec_entries_map(self.entries@)
    }
}

impl Clone for Params {
    fn clone(&self) -> (r: Self)
        ensures
            r@ == self@,
            r.wf() == self.wf(),
    {
        let n: usize = self.entries.len();
        let mut entries: Vec<(String, String)> = Vec::new();
        let mut i: usize = 0;
        while i < n
            invariant
                n == self.entries@.len(),
                i <= n,
                entries@ =~= self.entries@.subrange(0, i as int),
            decreases n - i,
        {
            entries.push((self.entries[i].0.clone(), self.entries[i].1.clone()));
            proof {
                assert(self.entries@.subrange(0, i + 1) =~= self.entries@.subrange(
                    0,
                    i as int,
                ).push(self.entries@[i as int]));
            }
            i = i + 1;
        }
        proof {
            assert(self.entries@.subrange(0, n as int) =~= self.entries@);
        }
        Params { entries }
    }
}

impl Params {
    /// The map written by a list of captures, later entries overwriting
    /// earlier ones of the same name.
    pub open spec fn spec_entries_map(entries: Seq<(String, String)>) -> Map<Seq<char>, Seq<char>>
        decreases entries.len(),
    {
        if entries.len() == 0 {
            Map::empty()
        } else {
            Self::spec_entries_map(entries.drop_last()).insert(
                entries.last().0@,
                entries.last().1@,
            )
        }
    }

    /// No name occurs twice among the stored entries.
    pub closed spec fn wf(&self) -> bool {
        forall|i: int, j: int|
            0 <= i < j < self.entries@.len() ==> self.entries@[i].0@ != self.entries@[j].0@
    }

    /// An empty set of captures.
    pub fn new() -> (r: Params)
        ensures
            r@ == Map::<Seq<char>, Seq<char>>::empty(),
            r.wf(),
    {
        Params { entries: Vec::new() }
    }

    /// The capture stored under a name.
    pub fn get(&self, name: &str) -> (r: Option<&String>)
        ensures
            match r {
                Some(v) => self@.contains_key(name@) && self@[name@] == v@,
                None => !self@.contains_key(name@),
            },
    {
        let n: usize = self.entries.len();
        let mut i: usize = n;
        proof {
            assert(self.entries@.subrange(0, n as int) =~= self.entries@);
        }
        while i > 0
            invariant
                n == self.entries@.len(),
                i <= n,
                self@.contains_key(name@) == Self::spec_entries_map(
                    self.entries@.subrange(0, i as int),
                ).contains_key(name@),
                self@.contains_key(name@) ==> self@[name@] == Self::spec_entries_map(
                    self.entries@.subrange(0, i as int),
                )[name@],
            decreases i,
        {
            i = i - 1;
            proof {
                assert(self.entries@.subrange(0, i + 1).drop_last() =~= self.entries@.subrange(
                    0,
                    i as int,
                ));
                assert(self.entries@.subrange(0, i + 1).last() == self.entries@[i as int]);
            }
            if text::str_eq(self.entries[i].0.as_str(), name) {
                return Some(&self.entries[i].1);
            }
        }
        proof {
            assert(self.entries@.subrange(0, 0) =~= Seq::<(String, String)>::empty());
        }
        None
    }

    /// Store a capture, overwriting any capture of the same name.
    pub fn insert(&mut self, name: String, value: String)
        requires
            old(self).wf(),
        ensures
            final(self)@ == old(self)@.insert(name@, value@),
            final(self).wf(),
    {
        let n: usize = self.entries.len();
        let mut i: usize = 0;
        while i < n
            invariant
                self == old(self),
                self.wf(),
                n == self.entries@.len(),
                i <= n,
                forall|j: int| 0 <= j < i ==> self.entries@[j].0@ != name@,
            decreases n - i,
        {
            if text::str_eq(self.entries[i].0.as_str(), name.as_str()) {
                self.entries[i] = (name, value);
                proof {
                    Self::lemma_entries_map_update(old(self).entries@, self.entries@, i as int);
                }
                return ;
            }
            i = i + 1;
        }
        self.entries.push((name, value));
        proof {
            assert(self.entries@.drop_last() =~= old(self).entries@);
        }
    }

    /// The same captures, re-entered into a freshly well-formed store.
    pub fn rebuild(self) -> (r: Params)
        ensures
            r@ == self@,
            r.wf(),
    {
        let entries = self.entries;
        let ghost ev = entries@;
        let n: usize = entries.len();
        let mut out = Params::new();
        let mut i: usize = 0;
        proof {
            assert(ev.subrange(0, 0) =~= Seq::<(String, String)>::empty());
            assert(out@ =~= Self::spec_entries_map(ev.subrange(0, 0)));
        }
        while i < n
            invariant
                n == ev.len(),
                entries@ == ev,
                i <= n,
                out.wf(),
                out@ == Self::spec_entries_map(ev.subrange(0, i as int)),
            decreases n - i,
        {
            let name = entries[i].0.clone();
            let value = entries[i].1.clone();
            out.insert(name, value);
            proof {
                assert(ev.subrange(0, i + 1).drop_last() =~= ev.subrange(0, i as int));
                assert(ev.subrange(0, i + 1).last() == ev[i as int]);
            }
            i = i + 1;
        }
        proof {
            assert(ev.subrange(0, n as int) =~= ev);
        }
        out
    }

    /// The stored entries; later entries shadow earlier ones of the
    /// same name.
    pub fn entries(&self) -> (r: &Vec<(String, String)>)
        ensures
            r@ == self.spec_entries(),
            Self::spec_entries_map(r@) == self@,
    {
        &self.entries
    }

    /// Give up the captures as a plain list of pairs.
    pub fn into_inner(self) -> (r: Vec<(String, String)>)
        ensures
            r@ == self.spec_entries(),
            Self::spec_entries_map(r@) == self@,
    {
        self.entries
    }

    /// A reference to the stored entry list.
    pub fn get_ref(&self) -> (r: &Vec<(String, String)>)
        ensures
            r@ == self.spec_entries(),
            Self::spec_entries_map(r@) == self@,
    {
        &self.entries
    }

    /// The entry list behind the map view.
    pub closed spec fn spec_entries(&self) -> Seq<(String, String)> {
        self.entries@
    }

    proof fn lemma_entries_map_get(entries: Seq<(String, String)>, i: int)
        requires
            0 <= i < entries.len(),
            forall|a: int, b: int|
                0 <= a < b < entries.len() ==> entries[a].0@ != entries[b].0@,
        ensures
            Self::spec_entries_map(entries).contains_key(entries[i].0@),
            Self::spec_entries_map(entries)[entries[i].0@] == entries[i].1@,
        decreases entries.len(),
    {
        if i == entries.len() - 1 {
        } else {
            assert(entries.drop_last()[i] == entries[i]);
            Self::lemma_entries_map_get(entries.drop_last(), i);
        }
    }

    proof fn lemma_entries_map_update(
        before: Seq<(String, String)>,
        after: Seq<(String, String)>,
        i: int,
    )
        requires
            0 <= i < before.len(),
            after.len() == before.len(),
            after[i].0@ == before[i].0@,
            forall|j: int| 0 <= j < before.len() && j != i ==> after[j] == before[j],
            forall|a: int, b: int|
                0 <= a < b < before.len() ==> before[a].0@ != before[b].0@,
        ensures
            Self::spec_entries_map(after) == Self::spec_entries_map(before).insert(
                after[i].0@,
                after[i].1@,
            ),
        decreases before.len(),
    {
        if i == before.len() - 1 {
            assert(after.drop_last() =~= before.drop_last());
            assert(Self::spec_entries_map(after) =~= Self::spec_entries_map(before).insert(
                after[i].0@,
                after[i].1@,
            ));
        } else {
            assert(forall|j: int|
                0 <= j < before.drop_last().len() && j != i ==> after.drop_last()[j]
                    == before.drop_last()[j]);
            assert(after.drop_last()[i] == after[i]);
            assert(before.drop_last()[i] == before[i]);
            Self::lemma_entries_map_update(before.drop_last(), after.drop_last(), i);
            assert(after.last() == before.last());
            Self::lemma_entries_map_get(before, before.len() - 1);
            assert(before[i].0@ != before.last().0@);
            assert(Self::spec_entries_map(after) =~= Self::spec_entries_map(before).insert(
                after[i].0@,
                after[i].1@,
            ));
        }
    }
}

} // verus!
