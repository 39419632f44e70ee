//! The hash tables of the engine. They are `hashbrown` maps; what a table holds is named
//! by a specification function, and each operation on it is stated over that name.
//! Nothing in this file is proved: it records what `hashbrown` is relied on to do.
//!
//! The verifier cannot be told of `hashbrown::HashMap` itself, whose allocator
//! parameter is bound by a trait it does not know. So each table is a struct around a
//! map, and the verifier reads neither the struct nor the bodies of the functions here.

use hashbrown::HashMap;
use vstd::prelude::*;
use crate::kind::{Kind, ID};

verus! {

/// A `hashbrown::HashMap` from identifiers to binding slots. A slot may be empty.
#[verifier::external_body]
pub struct Slots {
    map: HashMap<ID, Option<Kind>>,
}

/// The slots that a table holds, by identifier.
pub uninterp spec fn slots(t: Slots) -> Map<ID, Option<Kind>>;

/// `hashbrown::HashMap::new`: the new table holds no slot.
#[verifier::external_body]
pub(crate) fn slots_new() -> (t: Slots)
    ensures
        slots(t) == (Map::<ID, Option<Kind>>::empty()),
{
    Slots { map: HashMap::new() }
}

/// `hashbrown::HashMap::insert`: afterwards `id` has the slot `v`, whether or not it had
/// one before, and every other identifier has the slot it had.
#[verifier::external_body]
pub(crate) fn slots_insert(t: &mut Slots, id: ID, v: Option<Kind>)
    ensures
        slots(*final(t)) == slots(*old(t)).insert(id, v),
{
    t.map.insert(id, v);
}

/// `hashbrown::HashMap::get_mut`: a mutable reference to the slot of `id`, if the table
/// has one. The table changes only by what is written through that reference.
#[verifier::external_body]
pub(crate) fn slots_get_mut<'a>(t: &'a mut Slots, id: ID) -> (r: Option<&'a mut Option<Kind>>)
    ensures
        match r {
            Some(slot) => slots(*old(t)).contains_key(id) && *slot == slots(*old(t))[id]
                && slots(*final(t)) == slots(*old(t)).insert(id, *final(slot)),
            None => !slots(*old(t)).contains_key(id) && slots(*final(t)) == slots(*old(t)),
        },
{
    t.map.get_mut(&id)
}

/// A `hashbrown::HashMap` from names to identifiers.
#[verifier::external_body]
pub struct NameIndex {
    map: HashMap<String, ID>,
}

/// The identifiers that a table holds, by the characters of the name.
pub uninterp spec fn ids_by_name(t: NameIndex) -> Map<Seq<char>, ID>;

/// `hashbrown::HashMap::new`: the new table holds no name.
#[verifier::external_body]
pub(crate) fn names_new() -> (t: NameIndex)
    ensures
        ids_by_name(t) == (Map::<Seq<char>, ID>::empty()),
{
    NameIndex { map: HashMap::new() }
}

/// `hashbrown::HashMap::get`: the identifier held for `name`, if the table holds one.
/// Names are told apart by their characters.
#[verifier::external_body]
pub(crate) fn names_get<'a>(t: &'a NameIndex, name: &String) -> (r: Option<&'a ID>)
    ensures
        match r {
            Some(id) => ids_by_name(*t).contains_key(name@) && *id == ids_by_name(*t)[name@],
            None => !ids_by_name(*t).contains_key(name@),
        },
{
    t.map.get(name)
}

/// `hashbrown::HashMap::insert`: afterwards `name` has the identifier `id`, whether or
/// not it had one before, and every other name has the identifier it had.
#[verifier::external_body]
pub(crate) fn names_insert(t: &mut NameIndex, name: String, id: ID)
    ensures
        ids_by_name(*final(t)) == ids_by_name(*old(t)).insert(name@, id),
{
    t.map.insert(name, id);
}

/// A `hashbrown::HashMap` from identifiers to names.
#[verifier::external_body]
pub struct IdIndex {
    map: HashMap<ID, String>,
}

/// The names that a table holds, as their characters, by identifier.
pub uninterp spec fn names_by_id(t: IdIndex) -> Map<ID, Seq<char>>;

/// `hashbrown::HashMap::new`: the new table holds no identifier.
#[verifier::external_body]
pub(crate) fn ids_new() -> (t: IdIndex)
    ensures
        names_by_id(t) == (Map::<ID, Seq<char>>::empty()),
{
    IdIndex { map: HashMap::new() }
}

/// `hashbrown::HashMap::get`: the name held for `id`, if the table holds one.
#[verifier::external_body]
pub(crate) fn ids_get<'a>(t: &'a IdIndex, id: ID) -> (r: Option<&'a String>)
    ensures
        match r {
            Some(name) => names_by_id(*t).contains_key(id) && name@ == names_by_id(*t)[id],
            None => !names_by_id(*t).contains_key(id),
        },
{
    t.map.get(&id)
}

/// `hashbrown::HashMap::insert`: afterwards `id` has the name `name`, whether or not it
/// had one before, and every other identifier has the name it had.
#[verifier::external_body]
pub(crate) fn ids_insert(t: &mut IdIndex, id: ID, name: String)
    ensures
        names_by_id(*final(t)) == names_by_id(*old(t)).insert(id, name@),
{
    t.map.insert(id, name);
}

} // verus!
