//! The map from `Id` attribute values to the elements that carry them.
use vstd::prelude::*;

use crate::backend::{self, id_map_in};
use crate::error::LibError;
use crate::xml::{str_equal, XmlTree};

verus! {

/// One `Id` value and the node that carries it.
#[derive(Debug, Clone)]
pub struct IdEntry {
    pub id: String,
    pub node: usize,
}

/// A map from `Id` values to node indices; each value occurs once.
#[derive(Debug, Clone)]
pub struct IdMap {
    entries: Vec<IdEntry>,
}

/// The map that a list of entries describes; an earlier entry wins.
pub open spec fn entries_map(s: Seq<IdEntry>) -> Map<Seq<char>, usize>
    decreases s.len(),
{
    if s.len() == 0 {
        Map::empty()
    } else {
        entries_map(s.drop_first()).insert(s[0].id@, s[0].node)
    }
}

proof fn lemma_entries_map_push(s: Seq<IdEntry>, e: IdEntry)
    requires
        !entries_map(s).contains_key(e.id@),
    ensures
        entries_map(s.push(e)) == entries_map(s).insert(e.id@, e.node),
    decreases s.len(),
{
    if s.len() == 0 {
        assert(s.push(e).drop_first() =~= Seq::<IdEntry>::empty());
        assert(s.push(e)[0] == e);
        assert(s.push(e).len() == 1);
        assert(entries_map(s.push(e).drop_first()) == Map::<Seq<char>, usize>::empty());
        assert(entries_map(s) == Map::<Seq<char>, usize>::empty());
        assert(entries_map(s.push(e)) =~= entries_map(s).insert(e.id@, e.node));
    } else {
        assert(s.push(e).drop_first() =~= s.drop_first().push(e));
        assert(!entries_map(s.drop_first()).contains_key(e.id@));
        lemma_entries_map_push(s.drop_first(), e);
        assert(s.push(e)[0] == s[0]);
        assert(entries_map(s).contains_key(s[0].id@));
        assert(s[0].id@ != e.id@);
        assert(entries_map(s.push(e)) =~= entries_map(s).insert(e.id@, e.node));
    }
}

impl View for IdMap {
    type V = Map<Seq<char>, usize>;

    closed spec fn view(&self) -> Map<Seq<char>, usize> {
        entries_map(self.entries@)
    }
}

impl IdMap {
    /// An empty map.
    pub fn new() -> (r: IdMap)
        ensures
            r@ == Map::<Seq<char>, usize>::empty(),
    {
        IdMap { entries: Vec::new() }
    }

    /// The node registered under `id`.
    pub fn get(&self, id: &str) -> (r: Option<usize>)
        ensures
            r == (if self@.contains_key(id@) { Some(self@[id@]) } else { None::<usize> }),
    {
        let mut k: usize = 0;
        assert(self.entries@.skip(0) =~= self.entries@);
        while k < self.entries.len()
            invariant
                k <= self.entries@.len(),
                forall|j: int| 0 <= j < k ==> self.entries@[j].id@ != id@,
                entries_map(self.entries@.skip(k as int)).contains_key(id@) == entries_map(self.entries@).contains_key(id@),
                entries_map(self.entries@.skip(k as int)).contains_key(id@) ==> entries_map(self.entries@.skip(k as int))[id@] == entries_map(self.entries@)[id@],
            decreases self.entries.len() - k,
        {
            let ghost rest = self.entries@.skip(k as int);
            assert(rest.drop_first() =~= self.entries@.skip(k + 1));
            assert(rest[0] == self.entries@[k as int]);
            if str_equal(self.entries[k].id.as_str(), id) {
                return Some(self.entries[k].node);
            }
            k += 1;
        }
        assert(self.entries@.skip(k as int) =~= Seq::<IdEntry>::empty());
        None
    }

    /// Register `node` under `id`. Refused, leaving the map unchanged, when
    /// `id` is already registered.
    pub fn insert(&mut self, id: &str, node: usize) -> (r: bool)
        ensures
            r == !old(self)@.contains_key(id@),
            r ==> final(self)@ == old(self)@.insert(id@, node),
            !r ==> final(self)@ == old(self)@,
    {
        if self.get(id).is_some() {
            return false;
        }
        let e = IdEntry { id: id.to_owned(), node };
        proof {
            lemma_entries_map_push(self.entries@, e);
        }
        self.entries.push(e);
        true
    }
}


/// The keys of `s` are distinct.
pub open spec fn distinct_ids(s: Seq<IdEntry>) -> bool {
    forall|i: int, j: int| 0 <= i < j < s.len() ==> #[trigger] s[i].id@ != #[trigger] s[j].id@
}

/// The map from identifier values to the elements that carry them, as
/// `XmlDocument::build_id_map` builds it for the document `t` was parsed
/// from: the `Id`, `ID` and `id` attributes of every element, a value that
/// occurs twice refused.
pub fn id_map_of(t: &XmlTree) -> (r: Result<IdMap, LibError>)
    requires
        t.wf(),
    ensures
        match id_map_in(t.source@) {
            Ok(m) => r matches Ok(x) && x@ == m,
            Err(e) => r matches Err(LibError::Crypto(x)) && x@ == e,
        },
{
    match backend::document_id_entries(t.source.as_str()) {
        Ok(entries) => Ok(IdMap { entries }),
        Err(e) => Err(LibError::Crypto(e)),
    }
}

} // verus!
