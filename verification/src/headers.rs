//! The header collection of a request: a mapping from case-sensitive
//! header name to value in which a later insertion of the same name
//! overwrites the earlier one, and insertion order carries no meaning.
//! Its model is a `Map<Seq<u8>, Seq<u8>>`.

use vstd::prelude::*;

use crate::bytes::vec_eq_slice;

verus! {

/// A header mapping with last-write-wins on duplicate names. The entries
/// are kept as the log of insertions; the view collapses the log into the
/// mapping, later entries winning.
pub struct Headers {
    entries: Vec<(Vec<u8>, Vec<u8>)>,
}

/// The mapping that a log of insertions denotes: each pair inserted in
/// turn, so the last occurrence of a name gives its value.
spec fn entries_map(es: Seq<(Vec<u8>, Vec<u8>)>) -> Map<Seq<u8>, Seq<u8>>
    decreases es.len(),
{
    if es.len() == 0 {
        Map::empty()
    } else {
        entries_map(es.drop_last()).insert(es.last().0@, es.last().1@)
    }
}

impl View for Headers {
    type V = Map<Seq<u8>, Seq<u8>>;

    closed spec fn view(&self) -> Map<Seq<u8>, Seq<u8>> {
        entries_map(self.entries@)
    }
}

proof fn lemma_entries_map_take_step(es: Seq<(Vec<u8>, Vec<u8>)>, i: int)
    requires
        0 <= i < es.len(),
    ensures
        entries_map(es.take(i + 1)) == entries_map(es.take(i)).insert(es[i].0@, es[i].1@),
{
    assert(es.take(i + 1).drop_last() =~= es.take(i));
    assert(es.take(i + 1).last() == es[i]);
}

impl Headers {
    pub fn new() -> (r: Headers)
        ensures
            r@ == Map::<Seq<u8>, Seq<u8>>::empty(),
    {
        Headers { entries: Vec::new() }
    }

    /// Record `name: value`, overwriting any earlier value of `name`.
    pub fn insert(&mut self, name: Vec<u8>, value: Vec<u8>)
        ensures
            final(self)@ == old(self)@.insert(name@, value@),
    {
        let ghost before = self.entries@;
        let ghost n = name@;
        let ghost v = value@;
        self.entries.push((name, value));
        proof {
            assert(self.entries@.drop_last() =~= before);
            assert(self.entries@.last().0@ == n && self.entries@.last().1@ == v);
        }
    }

    /// The value recorded for `name`, if any: the most recent insertion wins.
    pub fn get<'a>(&'a self, name: &[u8]) -> (r: Option<&'a Vec<u8>>)
        ensures
            match r {
                Some(v) => self@.contains_key(name@) && v@ == self@[name@],
                None => !self@.contains_key(name@),
            },
    {
        let ghost es = self.entries@;
        let ghost k = name@;
        let mut i: usize = self.entries.len();
        proof {
            assert(es.take(i as int) =~= es);
        }
        while i > 0
            invariant
                i <= es.len(),
                es == self.entries@,
                k == name@,
                entries_map(es).contains_key(k) == entries_map(es.take(i as int)).contains_key(k),
                entries_map(es).contains_key(k) ==> entries_map(es)[k] == entries_map(
                    es.take(i as int),
                )[k],
            decreases i,
        {
            i = i - 1;
            proof {
                lemma_entries_map_take_step(es, i as int);
            }
            if vec_eq_slice(&self.entries[i].0, name) {
                return Some(&self.entries[i].1);
            }
        }
        proof {
            assert(es.take(0) =~= Seq::<(Vec<u8>, Vec<u8>)>::empty());
        }
        None
    }

    /// The log of insertions, earliest first. A name inserted twice is
    /// present twice; every name in the log is a key of the mapping.
    pub fn entries(&self) -> (r: &Vec<(Vec<u8>, Vec<u8>)>)
        ensures
            forall|i: int| 0 <= i < r@.len() ==> self@.contains_key(#[trigger] r@[i].0@),
    {
        proof {
            lemma_entries_map_keys(self.entries@);
        }
        &self.entries
    }
}

proof fn lemma_entries_map_keys(es: Seq<(Vec<u8>, Vec<u8>)>)
    ensures
        forall|i: int| 0 <= i < es.len() ==> entries_map(es).contains_key(#[trigger] es[i].0@),
    decreases es.len(),
{
    if es.len() > 0 {
        lemma_entries_map_keys(es.drop_last());
        assert(forall|i: int|
            0 <= i < es.len() - 1 ==> es.drop_last()[i].0@ == #[trigger] es[i].0@);
    }
}

} // verus!
