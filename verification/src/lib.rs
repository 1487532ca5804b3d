//! Reading SMARTS-like substructure patterns into a molecular graph, and the
//! data set from which the molecules come.

use vstd::prelude::*;

pub mod smarts;

verus! {

/// The characters of each string of `v`, in order.
pub open spec fn strings(v: Seq<String>) -> Seq<Seq<char>> {
    Seq::new(v.len(), |i: int| v[i]@)
}

/// The SMILES strings of all the entries of a data set, entry after entry.
pub open spec fn all_smiles(entries: Seq<(Seq<char>, Seq<Seq<char>>)>) -> Seq<Seq<char>>
    decreases entries.len(),
{
    if entries.len() == 0 {
        Seq::empty()
    } else {
        all_smiles(entries.drop_last()) + entries.last().1
    }
}

/// Whether an entry of `entries` has the key `key`.
pub open spec fn has_key(entries: Seq<(Seq<char>, Seq<Seq<char>>)>, key: Seq<char>) -> bool {
    exists|i: int| 0 <= i < entries.len() && (#[trigger] entries[i]).0 == key
}

/// The index of an entry of `entries` that has the key `key`.
pub open spec fn index_of(entries: Seq<(Seq<char>, Seq<Seq<char>>)>, key: Seq<char>) -> int {
    choose|i: int| 0 <= i < entries.len() && (#[trigger] entries[i]).0 == key
}

/// A data set: entries, each a key with the canonical SMILES strings of its
/// records in their order. No two entries have the same key.
pub struct Dataset {
    entries: Vec<(String, Vec<String>)>,
}

impl View for Dataset {
    type V = Seq<(Seq<char>, Seq<Seq<char>>)>;

    /// The entries, each as its key and its SMILES strings.
    closed spec fn view(&self) -> Seq<(Seq<char>, Seq<Seq<char>>)> {
        Seq::new(self.entries@.len(), |i: int| (self.entries@[i].0@, strings(self.entries@[i].1@)))
    }
}

impl Dataset {
    /// No two entries have the same key.
    pub open spec fn wf(&self) -> bool {
        forall|i: int, j: int|
            0 <= i < j < self@.len() ==> (#[trigger] self@[i]).0 != (#[trigger] self@[j]).0
    }

    /// The data set without entries.
    pub fn new() -> (r: Self)
        ensures
            r@ == Seq::<(Seq<char>, Seq<Seq<char>>)>::empty(),
            r.wf(),
    {
        Dataset { entries: Vec::new() }
    }

    /// Sets the SMILES strings of the entry with the key `key` to `cmiles`.
    /// Where the data set has that entry it keeps its place, and its earlier
    /// strings are returned; where not, the entry joins at the end.
    pub fn insert(&mut self, key: String, cmiles: Vec<String>) -> (r: Option<Vec<String>>)
        requires
            old(self).wf(),
        ensures
            final(self).wf(),
            match r {
                Some(earlier) => {
                    &&& has_key(old(self)@, key@)
                    &&& strings(earlier@) == old(self)@[index_of(old(self)@, key@)].1
                    &&& final(self)@ == old(self)@.update(
                        index_of(old(self)@, key@),
                        (key@, strings(cmiles@)),
                    )
                },
                None => {
                    &&& !has_key(old(self)@, key@)
                    &&& final(self)@ == old(self)@.push((key@, strings(cmiles@)))
                },
            },
    {
        let mut i: usize = 0;
        while i < self.entries.len()
            invariant
                i <= self.entries.len(),
                *self == *old(self),
                self.wf(),
                forall|k: int| 0 <= k < i ==> (#[trigger] self@[k]).0 != key@,
            decreases self.entries.len() - i,
        {
            if self.entries[i].0 == key {
                assert(self@[i as int].0 == key@);
                assert(index_of(self@, key@) == i);
                self.entries.push((key, cmiles));
                let earlier = self.entries.swap_remove(i);
                assert(self@ =~= old(self)@.update(i as int, (key@, strings(cmiles@))));
                return Some(earlier.1);
            }
            i = i + 1;
        }
        self.entries.push((key, cmiles));
        assert(self@ =~= old(self)@.push((key@, strings(cmiles@))));
        None
    }

    /// consume `self` and return the contained vector of canonical SMILES
    /// strings
    pub fn to_smiles(self) -> (r: Vec<String>)
        ensures
            strings(r@) == all_smiles(self@),
    {
        let mut r: Vec<String> = Vec::new();
        let ghost whole = self@;
        for entry in it: self.entries.into_iter()
            invariant
                it.seq().len() == whole.len(),
                forall|k: int|
                    0 <= k < whole.len() ==> whole[k] == (
                        (#[trigger] it.seq()[k]).0@,
                        strings(it.seq()[k].1@),
                    ),
                strings(r@) == all_smiles(whole.take(it.index() as int)),
        {
            let ghost done = it.index() as int;
            let (_, cmiles) = entry;
            let mut cmiles = cmiles;
            assert(whole.take(done + 1).drop_last() =~= whole.take(done));
            r.append(&mut cmiles);
        }
        assert(whole.take(whole.len() as int) =~= whole);
        r
    }
}

} // verus!
