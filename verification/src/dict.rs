//! The symbol table: names are interned to identifiers, and found again by identifier.

use vstd::prelude::*;
use crate::kind::ID;
use crate::table::{
    ids_by_name, ids_get, ids_insert, ids_new, names_by_id, names_get, names_insert, names_new,
    IdIndex, NameIndex,
};

verus! {

/// The identifier that interning `s` into the table `names` yields: that of `s` where
/// the table holds it, else the next free one; `None` where no identifier is left.
pub open spec fn id_of(names: Seq<Seq<char>>, s: Seq<char>) -> Option<ID> {
    if names.contains(s) {
        Some(names.index_of(s) as ID)
    } else if names.len() < ID::MAX {
        Some(names.len() as ID)
    } else {
        None
    }
}

/// The table `names` after `s` is interned into it: a new name is appended, unless no
/// identifier is left for it.
pub open spec fn interned(names: Seq<Seq<char>>, s: Seq<char>) -> Seq<Seq<char>> {
    if names.contains(s) || names.len() >= ID::MAX {
        names
    } else {
        names.push(s)
    }
}

/// Interning keeps a table free of repetitions, and never changes what it holds
/// already: identifiers are stable.
pub proof fn law_intern_stable(names: Seq<Seq<char>>, s: Seq<char>)
    requires
        names.no_duplicates(),
    ensures
        interned(names, s).no_duplicates(),
        names.is_prefix_of(interned(names, s)),
{
}

/// Interning is idempotent: interning a name again yields what interning it yielded, and
/// leaves the table as the first interning left it.
pub proof fn law_intern_idempotent(names: Seq<Seq<char>>, s: Seq<char>)
    requires
        names.no_duplicates(),
        names.len() <= ID::MAX,
    ensures
        id_of(interned(names, s), s) == id_of(names, s),
        interned(interned(names, s), s) == interned(names, s),
{
    let after = interned(names, s);
    if !names.contains(s) && names.len() < ID::MAX {
        assert(after[names.len() as int] == s);
        assert(after.contains(s));
        let j = after.index_of(s);
        assert(after[j] == s);
        law_intern_stable(names, s);
    }
}

/// Interning is injective: two different names are never given the same identifier,
/// in whichever order they are interned.
pub proof fn law_intern_injective(names: Seq<Seq<char>>, s1: Seq<char>, s2: Seq<char>)
    requires
        names.no_duplicates(),
        names.len() <= ID::MAX,
        s1 != s2,
        id_of(names, s1) is Some,
        id_of(interned(names, s1), s2) is Some,
    ensures
        id_of(names, s1) != id_of(interned(names, s1), s2),
{
    let after = interned(names, s1);
    law_intern_idempotent(names, s1);
    let i1 = id_of(after, s1)->0;
    assert(after.contains(s1)) by {
        if !names.contains(s1) {
            assert(after[names.len() as int] == s1);
        }
    }
    assert(after[after.index_of(s1)] == s1);
    if after.contains(s2) {
        assert(after[after.index_of(s2)] == s2);
    }
}

/// An append-only table of names. The identifier of a name is its place in the table,
/// so identifiers count up from 0 and are never reused.
pub struct Dict {
    map: NameIndex,
    rev: IdIndex,
    i: ID,
}

impl View for Dict {
    type V = Seq<Seq<char>>;

    /// The names in the order in which they were interned.
    closed spec fn view(&self) -> Seq<Seq<char>> {
        Seq::new(self.i as nat, |k: int| names_by_id(self.rev)[k as ID])
    }
}

impl Dict {
    /// The table is well formed: its two indexes mirror each other and cover exactly
    /// the identifiers given out. Every table made by [`Dict::new`] and filled by
    /// [`Dict::get`] is.
    pub closed spec fn wf(&self) -> bool {
        &&& forall|id: ID| #[trigger] names_by_id(self.rev).contains_key(id) <==> id < self.i
        &&& forall|s: Seq<char>| #[trigger]
            ids_by_name(self.map).contains_key(s) ==> ids_by_name(self.map)[s] < self.i
                && names_by_id(self.rev)[ids_by_name(self.map)[s]] == s
        &&& forall|id: ID|
            id < self.i ==> ids_by_name(self.map).contains_key(
                #[trigger] names_by_id(self.rev)[id],
            ) && ids_by_name(self.map)[names_by_id(self.rev)[id]] == id
    }

    /// No name stands twice in a well-formed table, and each has an identifier.
    pub proof fn lemma_distinct(&self)
        requires
            self.wf(),
        ensures
            self@.no_duplicates(),
            self@.len() <= ID::MAX,
    {
        assert forall|a: int, b: int| 0 <= a < self@.len() && 0 <= b < self@.len() && a != b
            implies self@[a] != self@[b] by {
            let x = names_by_id(self.rev)[a as ID];
            let y = names_by_id(self.rev)[b as ID];
            assert(ids_by_name(self.map)[x] == a as ID);
            assert(ids_by_name(self.map)[y] == b as ID);
        }
    }

    /// The empty table.
    pub fn new() -> (d: Self)
        ensures
            d.wf(),
            d@ == Seq::<Seq<char>>::empty(),
    {
        Dict { map: names_new(), rev: ids_new(), i: 0 }
    }

    /// Interns `name`: hands out its identifier, and appends it to the table where it
    /// is new. Where it is new and no identifier is left, the table stays as it is.
    pub fn get(&mut self, name: String) -> (r: Option<ID>)
        requires
            old(self).wf(),
        ensures
            final(self).wf(),
            r == id_of(old(self)@, name@),
            final(self)@ == interned(old(self)@, name@),
            old(self)@.is_prefix_of(final(self)@),
            r matches Some(id) ==> id < final(self)@.len() && final(self)@[id as int] == name@,
    {
        proof {
            self.lemma_distinct();
        }
        match names_get(&self.map, &name) {
            Some(id) => {
                let id: ID = *id;
                proof {
                    assert(self@[id as int] == name@);
                    assert(self@.contains(name@));
                    let j = self@.index_of(name@);
                    assert(self@[j] == name@);
                }
                Some(id)
            },
            None => {
                proof {
                    if self@.contains(name@) {
                        let j = self@.index_of(name@);
                        assert(self@[j] == name@);
                        assert(ids_by_name(self.map).contains_key(
                            names_by_id(self.rev)[j as ID],
                        ));
                    }
                }
                let ret: ID = self.i;
                match self.i.checked_add(1) {
                    Some(ni) => {
                        names_insert(&mut self.map, name.clone(), ret);
                        ids_insert(&mut self.rev, ret, name);
                        self.i = ni;
                        assert(self@ =~= old(self)@.push(name@));
                        Some(ret)
                    },
                    None => None,
                }
            },
        }
    }

    /// The name that `id` was given out for. `None` for an identifier never given out.
    pub fn get_name(&self, id: ID) -> (r: Option<&str>)
        requires
            self.wf(),
        ensures
            match r {
                Some(name) => id < self@.len() && name@ == self@[id as int],
                None => id >= self@.len(),
            },
    {
        match ids_get(&self.rev, id) {
            Some(name) => Some(name.as_str()),
            None => None,
        }
    }
}

} // verus!
