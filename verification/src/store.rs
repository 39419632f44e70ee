//! The binding store of one reduction attempt.

use vstd::prelude::*;
use crate::kind::{Kind, ID};
use crate::table::{slots, slots_get_mut, slots_insert, slots_new, Slots};

verus! {

/// The values captured so far, by pattern variable. A binding can be taken out of
/// the store and put back; while it is out, its variable counts as unbound.
pub struct MapIDK {
    map: Slots,
}

impl View for MapIDK {
    type V = Map<ID, Kind>;

    /// The bindings that are present, by variable.
    closed spec fn view(&self) -> Map<ID, Kind> {
        Map::new(
            |id: ID| slots(self.map).contains_key(id) && slots(self.map)[id] is Some,
            |id: ID| slots(self.map)[id]->0,
        )
    }
}

impl MapIDK {
    /// The empty store.
    pub fn new() -> (s: Self)
        ensures
            s@ == Map::<ID, Kind>::empty(),
    {
        MapIDK { map: slots_new() }
    }

    /// Takes the binding of `id` out of the store, if it is present.
    pub fn get(&mut self, id: ID) -> (r: Option<Kind>)
        ensures
            r == if old(self)@.contains_key(id) {
                Some(old(self)@[id])
            } else {
                None
            },
            final(self)@ == old(self)@.remove(id),
    {
        match slots_get_mut(&mut self.map, id) {
            Some(slot) => slot.take(),
            None => None,
        }
    }

    /// Binds `id` to `v`, in place of any binding it had.
    pub fn set(&mut self, id: ID, v: Kind)
        ensures
            final(self)@ == old(self)@.insert(id, v),
    {
        slots_insert(&mut self.map, id, Some(v));
    }
}

} // verus!
