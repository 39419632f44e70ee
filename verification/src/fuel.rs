//! What holds of the fuel of a match: it is only ever spent, and granting more of it
//! never changes an answer.

use vstd::prelude::*;
use crate::kind::{Kind, ETA_TAG, ID};
use crate::theory::{
    alp_spec, eta_match, eta_rest, eta_spec, is_redex, lemma_ids_finite, mtc_spec, native_spec,
    rec_spec, within, zta_spec, Matched, Stepped,
};

verus! {

/// A match leaves no more fuel than it was given.
proof fn lemma_mtc_spent(fuel: nat, x: Kind, n: Kind, map: Map<ID, Kind>)
    ensures
        mtc_spec(fuel, x, n, map).fuel <= fuel,
    decreases 2 * fuel + 1, x, map.dom().len(), 1nat,
{
    let first = if n is Alp {
        lemma_alp_spent(fuel, x, n, map);
        alp_spec(fuel, x, n, map)
    } else {
        lemma_rec_spent(fuel, x, n, map);
        rec_spec(fuel, x, n, map)
    };
    if !first.ok {
        lemma_zta_spent(within(first.fuel, fuel), first.x, n, first.map);
    }
}

/// The variable case leaves no more fuel than it was given.
proof fn lemma_alp_spent(fuel: nat, x: Kind, n: Kind, map: Map<ID, Kind>)
    ensures
        alp_spec(fuel, x, n, map).fuel <= fuel,
    decreases 2 * fuel + 1, x, map.dom().len(), 0nat,
{
    if let Kind::Alp { id } = n {
        if map.contains_key(id) {
            lemma_ids_finite(map.dom());
            lemma_mtc_spent(fuel, x, map[id], map.remove(id));
        }
    }
}

/// The structural case leaves no more fuel than it was given.
proof fn lemma_rec_spent(fuel: nat, x: Kind, n: Kind, map: Map<ID, Kind>)
    ensures
        rec_spec(fuel, x, n, map).fuel <= fuel,
    decreases 2 * fuel + 1, x, map.dom().len(), 0nat,
{
    match (x, n) {
        (Kind::Pir { l: xl, r: xr }, Kind::Pir { l: nl, r: nr }) => {
            lemma_mtc_spent(fuel, *xl, *nl, map);
            let ml = mtc_spec(fuel, *xl, *nl, map);
            if ml.ok {
                lemma_mtc_spent(within(ml.fuel, fuel), *xr, *nr, ml.map);
            }
        },
        _ => {},
    }
}

/// The reduction case leaves no more fuel than it was given.
proof fn lemma_zta_spent(fuel: nat, x: Kind, n: Kind, map: Map<ID, Kind>)
    ensures
        zta_spec(fuel, x, n, map).fuel <= fuel,
    decreases 2 * fuel, x, 0nat, 3nat,
{
    if let Kind::Pir { l, r } = x {
        if let Kind::Zta { hid, .. } = *l {
            lemma_native_spent(fuel, hid, *r);
            let s = native_spec(fuel, hid, *r);
            if let Some(xr) = s.out {
                lemma_mtc_spent(s.fuel, xr, n, map);
            }
        }
    }
}

/// A native operation leaves no more fuel than it was given, and less where it
/// produces a term.
proof fn lemma_native_spent(fuel: nat, hid: ID, arg: Kind)
    ensures
        native_spec(fuel, hid, arg).fuel <= fuel,
        native_spec(fuel, hid, arg).out is Some ==> native_spec(fuel, hid, arg).fuel < fuel,
    decreases 2 * fuel, arg, 0nat, 2nat,
{
    if hid == ETA_TAG && fuel > 0 {
        lemma_eta_spent((fuel - 1) as nat, arg);
    }
}

/// The match of a reduction leaves no more fuel than it was given.
proof fn lemma_eta_spent(fuel: nat, t: Kind)
    ensures
        eta_match(fuel, t).fuel <= fuel,
    decreases 2 * fuel + 1, t, 0nat, 0nat,
{
    if is_redex(t) {
        lemma_mtc_spent(fuel, *t->r, *(*t->l)->l, Map::empty());
    }
}

/// Fuel is only ever spent: no match, no case of a match and no native operation
/// leaves more fuel than it was given.
pub proof fn lemma_fuel_spent(fuel: nat, x: Kind, n: Kind, map: Map<ID, Kind>, hid: ID)
    ensures
        mtc_spec(fuel, x, n, map).fuel <= fuel,
        alp_spec(fuel, x, n, map).fuel <= fuel,
        rec_spec(fuel, x, n, map).fuel <= fuel,
        zta_spec(fuel, x, n, map).fuel <= fuel,
        native_spec(fuel, hid, x).fuel <= fuel,
        eta_match(fuel, x).fuel <= fuel,
{
    lemma_mtc_spent(fuel, x, n, map);
    lemma_alp_spent(fuel, x, n, map);
    lemma_rec_spent(fuel, x, n, map);
    lemma_zta_spent(fuel, x, n, map);
    lemma_native_spent(fuel, hid, x);
    lemma_eta_spent(fuel, x);
}

/// The outcome `m` with `d` more fuel left.
pub open spec fn with_more(m: Matched, d: nat) -> Matched {
    Matched { ok: m.ok, x: m.x, map: m.map, fuel: m.fuel + d }
}

/// An outcome that did not come about for want of fuel: a success, or a failure with
/// fuel left. (Once a reduction is denied for want of fuel, no fuel is left and every
/// match around it fails.)
pub open spec fn settled(m: Matched) -> bool {
    m.ok || m.fuel > 0
}

/// A settled match is the same with `d` more fuel.
proof fn lemma_mtc_more(fuel: nat, d: nat, x: Kind, n: Kind, map: Map<ID, Kind>)
    requires
        settled(mtc_spec(fuel, x, n, map)),
    ensures
        mtc_spec(fuel + d, x, n, map) == with_more(mtc_spec(fuel, x, n, map), d),
    decreases 2 * fuel + 1, x, map.dom().len(), 1nat,
{
    let first = if n is Alp {
        alp_spec(fuel, x, n, map)
    } else {
        rec_spec(fuel, x, n, map)
    };
    if n is Alp {
        lemma_alp_spent(fuel, x, n, map);
    } else {
        lemma_rec_spent(fuel, x, n, map);
    }
    if settled(first) {
        if n is Alp {
            lemma_alp_more(fuel, d, x, n, map);
        } else {
            lemma_rec_more(fuel, d, x, n, map);
        }
        if !first.ok {
            lemma_zta_more(first.fuel, d, first.x, n, first.map);
        }
    } else {
        lemma_zta_spent(0, first.x, n, first.map);
    }
}

/// A settled variable case is the same with `d` more fuel.
proof fn lemma_alp_more(fuel: nat, d: nat, x: Kind, n: Kind, map: Map<ID, Kind>)
    requires
        settled(alp_spec(fuel, x, n, map)),
    ensures
        alp_spec(fuel + d, x, n, map) == with_more(alp_spec(fuel, x, n, map), d),
    decreases 2 * fuel + 1, x, map.dom().len(), 0nat,
{
    if let Kind::Alp { id } = n {
        if map.contains_key(id) {
            lemma_ids_finite(map.dom());
            lemma_mtc_more(fuel, d, x, map[id], map.remove(id));
        }
    }
}

/// A settled structural case is the same with `d` more fuel.
proof fn lemma_rec_more(fuel: nat, d: nat, x: Kind, n: Kind, map: Map<ID, Kind>)
    requires
        settled(rec_spec(fuel, x, n, map)),
    ensures
        rec_spec(fuel + d, x, n, map) == with_more(rec_spec(fuel, x, n, map), d),
    decreases 2 * fuel + 1, x, map.dom().len(), 0nat,
{
    match (x, n) {
        (Kind::Pir { l: xl, r: xr }, Kind::Pir { l: nl, r: nr }) => {
            let ml = mtc_spec(fuel, *xl, *nl, map);
            lemma_mtc_spent(fuel, *xl, *nl, map);
            if ml.ok {
                lemma_mtc_spent(ml.fuel, *xr, *nr, ml.map);
            }
            lemma_mtc_more(fuel, d, *xl, *nl, map);
            if ml.ok {
                lemma_mtc_more(ml.fuel, d, *xr, *nr, ml.map);
            }
        },
        _ => {},
    }
}

/// A settled reduction case is the same with `d` more fuel.
proof fn lemma_zta_more(fuel: nat, d: nat, x: Kind, n: Kind, map: Map<ID, Kind>)
    requires
        settled(zta_spec(fuel, x, n, map)),
    ensures
        zta_spec(fuel + d, x, n, map) == with_more(zta_spec(fuel, x, n, map), d),
    decreases 2 * fuel, x, 0nat, 3nat,
{
    if let Kind::Pir { l, r } = x {
        if let Kind::Zta { hid, .. } = *l {
            let s = native_spec(fuel, hid, *r);
            lemma_native_spent(fuel, hid, *r);
            lemma_native_more(fuel, d, hid, *r);
            if let Some(xr) = s.out {
                lemma_mtc_more(s.fuel, d, xr, n, map);
            }
        }
    }
}

/// A native operation that produced a term or left fuel does the same with `d` more
/// fuel.
proof fn lemma_native_more(fuel: nat, d: nat, hid: ID, arg: Kind)
    requires
        native_spec(fuel, hid, arg).out is Some || native_spec(fuel, hid, arg).fuel > 0,
    ensures
        native_spec(fuel + d, hid, arg) == (Stepped {
            out: native_spec(fuel, hid, arg).out,
            fuel: native_spec(fuel, hid, arg).fuel + d,
        }),
    decreases 2 * fuel, arg, 0nat, 2nat,
{
    if hid == ETA_TAG && fuel > 0 {
        lemma_eta_more((fuel - 1) as nat, d, arg);
        assert(fuel + d - 1 == (fuel - 1) as nat + d);
    }
}

/// A settled match of a reduction is the same with `d` more fuel, and so is the term
/// that the reduction produces.
proof fn lemma_eta_more(fuel: nat, d: nat, t: Kind)
    requires
        settled(eta_match(fuel, t)),
    ensures
        eta_match(fuel + d, t) == with_more(eta_match(fuel, t), d),
        eta_spec(fuel + d, t) == eta_spec(fuel, t),
    decreases 2 * fuel + 1, t, 0nat, 0nat,
{
    if is_redex(t) {
        lemma_mtc_more(fuel, d, *t->r, *(*t->l)->l, Map::empty());
    }
}

/// More fuel never changes a match that did not come about for want of fuel: it ends
/// the same way, with the same value and bindings, and the additional fuel is left.
pub proof fn law_match_with_more_fuel(
    fuel: nat,
    more: nat,
    x: Kind,
    n: Kind,
    map: Map<ID, Kind>,
)
    requires
        fuel <= more,
        settled(mtc_spec(fuel, x, n, map)),
    ensures
        mtc_spec(more, x, n, map) == with_more(mtc_spec(fuel, x, n, map), (more - fuel) as nat),
{
    lemma_mtc_more(fuel, (more - fuel) as nat, x, n, map);
    assert(fuel + (more - fuel) as nat == more);
}

/// More fuel never changes the answer of a reduction. A reduction that succeeds
/// produces the same term, and leaves the same of its input, under every greater
/// allowance of fuel; and one that fails with fuel left fails under every greater
/// allowance. So where the allowance suffices, the answer is that of a reduction
/// without any bound.
pub proof fn law_reduce_with_more_fuel(fuel: nat, more: nat, t: Kind)
    requires
        fuel <= more,
        eta_spec(fuel, t) is Some || eta_match(fuel, t).fuel > 0,
    ensures
        eta_spec(more, t) == eta_spec(fuel, t),
        eta_spec(fuel, t) is Some ==> eta_rest(more, t) == eta_rest(fuel, t),
        eta_match(more, t).fuel == eta_match(fuel, t).fuel + (more - fuel),
{
    lemma_eta_more(fuel, (more - fuel) as nat, t);
    assert(fuel + (more - fuel) as nat == more);
}

} // verus!
