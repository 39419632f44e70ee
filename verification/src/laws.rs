//! What holds of every match, whatever the terms.

use vstd::prelude::*;
use crate::kind::{omi_kind, pir, Kind, ID, OMI_TAG};
use crate::theory::{
    alp_spec, eta_match, eta_rest, eta_spec, ins_spec, mtc_spec, native_spec, rec_spec, zta_spec,
    Stepped,
};

verus! {

/// A variable that has no binding matches any value, without looking at it, and
/// afterwards is bound to exactly that value (a native operation among them with the
/// variable noted as its provenance). Neither the value nor any other binding changes,
/// and no fuel is spent.
pub proof fn law_first_capture(fuel: nat, x: Kind, id: ID, map: Map<ID, Kind>)
    requires
        !map.contains_key(id),
    ensures
        mtc_spec(fuel, x, Kind::Alp { id }, map).ok,
        mtc_spec(fuel, x, Kind::Alp { id }, map).x == x,
        mtc_spec(fuel, x, Kind::Alp { id }, map).map == map.insert(id, x.stamped(id)),
        mtc_spec(fuel, x, Kind::Alp { id }, map).fuel == fuel,
{
}

/// The terminator never reduces: it refuses every argument, and so the reduction case
/// of a match fails on every value whose operation it is, leaving the value, the
/// bindings and the fuel as they were.
pub proof fn law_terminator_never_reduces(
    fuel: nat,
    sid: Option<ID>,
    arg: Kind,
    n: Kind,
    map: Map<ID, Kind>,
)
    ensures
        native_spec(fuel, OMI_TAG, arg) == (Stepped { out: None, fuel }),
        !zta_spec(fuel, pir(Kind::Zta { sid, hid: OMI_TAG }, arg), n, map).ok,
        zta_spec(fuel, pir(Kind::Zta { sid, hid: OMI_TAG }, arg), n, map).x == pir(
            Kind::Zta { sid, hid: OMI_TAG },
            arg,
        ),
        zta_spec(fuel, pir(Kind::Zta { sid, hid: OMI_TAG }, arg), n, map).map == map,
        zta_spec(fuel, pir(Kind::Zta { sid, hid: OMI_TAG }, arg), n, map).fuel == fuel,
{
}

/// A redex whose pattern is one variable reduces whatever its argument is: the variable
/// captures the argument, and the body is handed out with the argument in the place of
/// every occurrence of the variable. The argument is not reduced and no fuel is spent.
pub proof fn law_reduce_by_variable(fuel: nat, v: ID, body: Kind, x: Kind)
    ensures
        eta_spec(fuel, pir(pir(Kind::Alp { id: v }, body), x)) == Some(
            ins_spec(body, Map::<ID, Kind>::empty().insert(v, x.stamped(v))),
        ),
        eta_rest(fuel, pir(pir(Kind::Alp { id: v }, body), x)) == pir(
            pir(Kind::Alp { id: v }, omi_kind()),
            x,
        ),
        eta_match(fuel, pir(pir(Kind::Alp { id: v }, body), x)).fuel == fuel,
{
    law_first_capture(fuel, x, v, Map::empty());
}

/// The body that is the variable of the pattern is replaced by the argument, and a
/// body that is another atom stays as it is.
pub proof fn law_reduce_atom_body(fuel: nat, v: ID, w: ID, x: Kind)
    ensures
        eta_spec(fuel, pir(pir(Kind::Alp { id: v }, Kind::Alp { id: w }), x)) == Some(
            if w == v {
                x.stamped(v)
            } else {
                Kind::Alp { id: w }
            },
        ),
{
    law_reduce_by_variable(fuel, v, Kind::Alp { id: w }, x);
}

/// Bindings in which every bound variable stands for itself.
pub open spec fn reflexive(map: Map<ID, Kind>) -> bool {
    forall|id: ID| #[trigger] map.contains_key(id) ==> map[id] == Kind::Alp { id }
}

/// Provenance does not matter to the shape of a term.
pub proof fn lemma_same_shape_stamped(a: Kind, b: Kind, id: ID)
    ensures
        a.stamped(id).same_shape(b) == a.same_shape(b),
        b.same_shape(a.stamped(id)) == b.same_shape(a),
{
}

/// Having the same shape is symmetric.
pub proof fn lemma_same_shape_symmetric(a: Kind, b: Kind)
    ensures
        a.same_shape(b) == b.same_shape(a),
    decreases a,
{
    match (a, b) {
        (Kind::Pir { l: al, r: ar }, Kind::Pir { l: bl, r: br }) => {
            lemma_same_shape_symmetric(*al, *bl);
            lemma_same_shape_symmetric(*ar, *br);
        },
        _ => {},
    }
}

/// A value matches every pattern of its own shape, as long as the variables bound so
/// far stand for themselves. The value is not reduced.
pub proof fn lemma_match_same_shape(fuel: nat, t: Kind, p: Kind, map: Map<ID, Kind>)
    requires
        t.same_shape(p),
        reflexive(map),
    ensures
        mtc_spec(fuel, t, p, map).ok,
        mtc_spec(fuel, t, p, map).x == t,
        mtc_spec(fuel, t, p, map).fuel == fuel,
        reflexive(mtc_spec(fuel, t, p, map).map),
    decreases p,
{
    match (t, p) {
        (Kind::Alp { id }, Kind::Alp { .. }) => {
            if map.contains_key(id) {
                let inner = mtc_spec(fuel, t, map[id], map.remove(id));
                assert(inner == alp_spec(fuel, t, map[id], map.remove(id)));
                assert(alp_spec(fuel, t, p, map).ok);
            }
        },
        (Kind::Zta { .. }, Kind::Zta { .. }) => {},
        (Kind::Pir { l: tl, r: tr }, Kind::Pir { l: pl, r: pr }) => {
            lemma_match_same_shape(fuel, *tl, *pl, map);
            let ml = mtc_spec(fuel, *tl, *pl, map);
            lemma_match_same_shape(fuel, *tr, *pr, ml.map);
            assert(rec_spec(fuel, t, p, map).ok);
            assert(rec_spec(fuel, t, p, map).x == t);
        },
        _ => {},
    }
}

/// Against a pattern without variables, a value in which the self-reduction operation
/// is applied nowhere matches exactly when it has the shape of the pattern. Neither the
/// value nor the bindings change.
pub proof fn lemma_match_ground(fuel: nat, t: Kind, p: Kind, map: Map<ID, Kind>)
    requires
        p.is_ground(),
        t.is_normal(),
    ensures
        mtc_spec(fuel, t, p, map).ok == t.same_shape(p),
        mtc_spec(fuel, t, p, map).x == t,
        mtc_spec(fuel, t, p, map).map == map,
        mtc_spec(fuel, t, p, map).fuel == fuel,
    decreases p,
{
    match (t, p) {
        (Kind::Pir { l: tl, r: tr }, Kind::Pir { l: pl, r: pr }) => {
            lemma_match_ground(fuel, *tl, *pl, map);
            lemma_match_ground(fuel, *tr, *pr, map);
            let r = rec_spec(fuel, t, p, map);
            assert(r.x == t);
            assert(r.map == map);
            assert(r.ok == t.same_shape(p));
        },
        _ => {
            let r = rec_spec(fuel, t, p, map);
            assert(r.x == t);
            assert(r.map == map);
        },
    }
    let r = rec_spec(fuel, t, p, map);
    assert(mtc_spec(fuel, t, p, map) == if r.ok {
        r
    } else {
        zta_spec(fuel, t, p, map)
    });
    assert(!zta_spec(fuel, t, p, map).ok);
    assert(zta_spec(fuel, t, p, map).x == t);
    assert(zta_spec(fuel, t, p, map).map == map);
}

/// Non-linear matching. The pattern `(v v)` uses one variable twice; it is matched
/// against the pair of `a` and `b` under no bindings.
///
/// Where `a` and `b` have the same shape, the match succeeds. Where it succeeds, `a`
/// has no atoms and the self-reduction operation is applied nowhere in the pair, the
/// two have the same shape. (An atom inside `a` is itself a variable once `a` is what
/// `b` is matched against, and an applied self-reduction may turn the value into
/// another: on such terms the match can succeed though the shapes differ.)
pub proof fn law_nonlinear_match(fuel: nat, a: Kind, b: Kind, v: ID)
    ensures
        a.same_shape(b) ==> mtc_spec(
            fuel,
            pir(a, b),
            pir(Kind::Alp { id: v }, Kind::Alp { id: v }),
            Map::empty(),
        ).ok,
        a.is_ground() && pir(a, b).is_normal() ==> (mtc_spec(
            fuel,
            pir(a, b),
            pir(Kind::Alp { id: v }, Kind::Alp { id: v }),
            Map::empty(),
        ).ok <==> a.same_shape(b)),
{
    let var = Kind::Alp { id: v };
    let held = a.stamped(v);
    let none = Map::<ID, Kind>::empty();
    let left = mtc_spec(fuel, a, var, none);
    law_first_capture(fuel, a, v, none);
    assert(left.map.remove(v) =~= none);
    let inner = mtc_spec(fuel, b, held, none);
    let right = mtc_spec(fuel, b, var, left.map);
    assert(alp_spec(fuel, b, var, left.map).ok == inner.ok);
    lemma_same_shape_stamped(a, b, v);
    lemma_same_shape_symmetric(a, b);
    if a.same_shape(b) {
        lemma_match_same_shape(fuel, b, held, none);
        assert(right.ok);
    }
    if a.is_ground() && pir(a, b).is_normal() {
        assert(b.is_normal());
        assert(held.is_ground());
        lemma_match_ground(fuel, b, held, none);
        assert(inner.ok == a.same_shape(b));
        if !inner.ok {
            assert(!zta_spec(fuel, b, var, none).ok);
            assert(!right.ok);
        }
    }
    let r = rec_spec(fuel, pir(a, b), pir(var, var), none);
    assert(r.ok == right.ok);
    if a.is_ground() && pir(a, b).is_normal() && !right.ok {
        assert(right.x == b);
        assert(r.x == pir(a, b));
        assert(!zta_spec(fuel, r.x, pir(var, var), r.map).ok);
    }
}

} // verus!
