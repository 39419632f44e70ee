//! Matching, substitution and the reduction operator.

use vstd::prelude::*;
pub use crate::kind::{Kind, ID};
use crate::kind::{eta_kind, omi_kind, pir, ETA_TAG, OMI_TAG};
use crate::store::MapIDK;

verus! {

/// What a match attempt leaves behind: whether it succeeded, the value and the
/// bindings as the attempt left them, and the fuel that the attempt did not spend.
pub struct Matched {
    pub ok: bool,
    pub x: Kind,
    pub map: Map<ID, Kind>,
    pub fuel: nat,
}

/// What running a native operation leaves behind: the term it produced, if it produced
/// one, and the fuel that it did not spend.
pub struct Stepped {
    pub out: Option<Kind>,
    pub fuel: nat,
}

/// A term shaped `((pattern body) argument)`.
pub open spec fn is_redex(t: Kind) -> bool {
    t matches Kind::Pir { l, .. } && *l is Pir
}

/// `b` with every atom that `map` binds replaced by the value bound to it.
pub open spec fn ins_spec(b: Kind, map: Map<ID, Kind>) -> Kind
    decreases b,
{
    match b {
        Kind::Alp { id } => if map.contains_key(id) {
            map[id]
        } else {
            b
        },
        Kind::Zta { .. } => b,
        Kind::Pir { l, r } => pir(ins_spec(*l, map), ins_spec(*r, map)),
    }
}

/// Any set of identifiers is finite, so the number of bindings in a store is a measure.
pub proof fn lemma_ids_finite(s: Set<ID>)
    ensures
        s.finite(),
{
    <ID as vstd::set_lib::FiniteFull>::full_properties();
    vstd::set_lib::lemma_set_subset_finite(Set::<ID>::full(), s);
}

/// What is left of `fuel` after a step that left `left`. A step spends fuel and never
/// gains any (see `fuel::lemma_fuel_spent`), so this is `left`.
pub open spec fn within(left: nat, fuel: nat) -> nat {
    if left <= fuel {
        left
    } else {
        fuel
    }
}

/// The match of value `x` against pattern `n` under the bindings `map`. Each run of the
/// self-reduction operation spends one unit of `fuel`, and none runs without.
///
/// The variable case is tried for an atom pattern and the structural case for any
/// other; where that fails, the value as the failed attempt left it is reduced by its
/// native operation and matched anew.
pub open spec fn mtc_spec(fuel: nat, x: Kind, n: Kind, map: Map<ID, Kind>) -> Matched
    decreases 2 * fuel + 1, x, map.dom().len(), 1nat,
{
    let first = if n is Alp {
        alp_spec(fuel, x, n, map)
    } else {
        rec_spec(fuel, x, n, map)
    };
    if first.ok {
        first
    } else {
        zta_spec(within(first.fuel, fuel), first.x, n, first.map)
    }
}

/// The variable case. An unbound variable captures the value and succeeds. A bound one
/// has its binding taken out, the value matched against what was bound, and the
/// binding put back only if that match succeeds.
pub open spec fn alp_spec(fuel: nat, x: Kind, n: Kind, map: Map<ID, Kind>) -> Matched
    decreases 2 * fuel + 1, x, map.dom().len(), 0nat,
    via alp_spec_decreases
{
    match n {
        Kind::Alp { id } => if map.contains_key(id) {
            let m = mtc_spec(fuel, x, map[id], map.remove(id));
            Matched { ok: m.ok, x: m.x, map: if m.ok {
                m.map.insert(id, map[id])
            } else {
                m.map
            }, fuel: m.fuel }
        } else {
            Matched { ok: true, x, map: map.insert(id, x.stamped(id)), fuel }
        },
        _ => Matched { ok: false, x, map, fuel },
    }
}

#[via_fn]
proof fn alp_spec_decreases(fuel: nat, x: Kind, n: Kind, map: Map<ID, Kind>) {
    lemma_ids_finite(map.dom());
}

/// The structural case. Two native operations match when their families are equal.
/// Two pairs match when their left children match and then their right children do.
pub open spec fn rec_spec(fuel: nat, x: Kind, n: Kind, map: Map<ID, Kind>) -> Matched
    decreases 2 * fuel + 1, x, map.dom().len(), 0nat,
{
    match (x, n) {
        (Kind::Zta { hid: xid, .. }, Kind::Zta { hid: nid, .. }) => Matched {
            ok: xid == nid,
            x,
            map,
            fuel,
        },
        (Kind::Pir { l: xl, r: xr }, Kind::Pir { l: nl, r: nr }) => {
            let ml = mtc_spec(fuel, *xl, *nl, map);
            if ml.ok {
                let mr = mtc_spec(within(ml.fuel, fuel), *xr, *nr, ml.map);
                Matched { ok: mr.ok, x: pir(ml.x, mr.x), map: mr.map, fuel: mr.fuel }
            } else {
                Matched { ok: false, x: pir(ml.x, *xr), map: ml.map, fuel: ml.fuel }
            }
        },
        _ => Matched { ok: false, x, map, fuel },
    }
}

/// The native operation of family `hid` run on `arg`. The self-reduction operation
/// runs where fuel is left, for one unit of it; no other operation ever produces a term.
pub open spec fn native_spec(fuel: nat, hid: ID, arg: Kind) -> Stepped
    decreases 2 * fuel, arg, 0nat, 2nat,
{
    if hid == ETA_TAG && fuel > 0 {
        Stepped {
            out: eta_spec((fuel - 1) as nat, arg),
            fuel: eta_match((fuel - 1) as nat, arg).fuel,
        }
    } else {
        Stepped { out: None, fuel }
    }
}

/// The reduction case. It applies to a value shaped `(operation argument)`: the
/// operation runs on the argument, and what it produces takes the place of the value
/// and is matched against the same pattern.
pub open spec fn zta_spec(fuel: nat, x: Kind, n: Kind, map: Map<ID, Kind>) -> Matched
    decreases 2 * fuel, x, 0nat, 3nat,
{
    match x {
        Kind::Pir { l, r } => match *l {
            Kind::Zta { hid, .. } => {
                let s = native_spec(fuel, hid, *r);
                match s.out {
                    // A run that produces a term has spent fuel: `fuel::lemma_fuel_spent`.
                    Some(xr) if s.fuel < fuel => mtc_spec(s.fuel, xr, n, map),
                    _ => Matched { ok: false, x, map, fuel: s.fuel },
                }
            },
            _ => Matched { ok: false, x, map, fuel },
        },
        _ => Matched { ok: false, x, map, fuel },
    }
}

/// The match that reducing `t` starts: where `t` is a redex, its argument against its
/// pattern under no bindings.
pub open spec fn eta_match(fuel: nat, t: Kind) -> Matched
    decreases 2 * fuel + 1, t, 0nat, 0nat,
{
    if is_redex(t) {
        mtc_spec(fuel, *t->r, *(*t->l)->l, Map::empty())
    } else {
        Matched { ok: false, x: t, map: Map::empty(), fuel }
    }
}

/// The term that reducing `t` produces: the body of the redex with the bindings of the
/// match substituted. `None` where `t` is no redex or the match fails.
pub open spec fn eta_spec(fuel: nat, t: Kind) -> Option<Kind>
    decreases 2 * fuel + 1, t, 0nat, 1nat,
{
    if is_redex(t) && eta_match(fuel, t).ok {
        Some(ins_spec(*(*t->l)->r, eta_match(fuel, t).map))
    } else {
        None
    }
}

/// What a successful reduction leaves of its input `t`: the pattern, the terminator in
/// the place of the body, and the argument as the match left it.
pub open spec fn eta_rest(fuel: nat, t: Kind) -> Kind
    recommends
        is_redex(t),
{
    pir(pir(*(*t->l)->l, omi_kind()), eta_match(fuel, t).x)
}

/// The fuel of one call of [`eta`]: how often the self-reduction operation may run
/// while the argument is matched.
pub const FUEL: usize = usize::MAX;

/// The matcher: the bindings of one reduction attempt and the fuel left for it, with
/// the three cases of a match.
pub struct Mtc {
    map: MapIDK,
    fuel: usize,
}

impl View for Mtc {
    type V = Map<ID, Kind>;

    /// The bindings that are present, by variable.
    closed spec fn view(&self) -> Map<ID, Kind> {
        self.map@
    }
}

impl Mtc {
    /// The fuel that is left.
    pub closed spec fn fuel(&self) -> nat {
        self.fuel as nat
    }

    /// A matcher without bindings, with the fuel of one call of [`eta`].
    pub fn new() -> (mt: Self)
        ensures
            mt@ == Map::<ID, Kind>::empty(),
            mt.fuel() == FUEL,
    {
        Mtc { map: MapIDK::new(), fuel: FUEL }
    }

    /// A matcher without bindings, with `fuel` to spend.
    pub fn with_fuel(fuel: usize) -> (mt: Self)
        ensures
            mt@ == Map::<ID, Kind>::empty(),
            mt.fuel() == fuel,
    {
        Mtc { map: MapIDK::new(), fuel }
    }

    /// The fuel that is left.
    pub fn fuel_left(&self) -> (fuel: usize)
        ensures
            fuel == self.fuel(),
    {
        self.fuel
    }

    /// The variable case of a match of `x` against `n`.
    pub fn alp(&mut self, x: &mut Kind, n: &Kind) -> (ok: bool)
        ensures
            ok == alp_spec(old(self).fuel(), *old(x), *n, old(self)@).ok,
            *final(x) == alp_spec(old(self).fuel(), *old(x), *n, old(self)@).x,
            final(self)@ == alp_spec(old(self).fuel(), *old(x), *n, old(self)@).map,
            final(self).fuel() == alp_spec(old(self).fuel(), *old(x), *n, old(self)@).fuel,
            final(self).fuel() <= old(self).fuel(),
        decreases 2 * old(self).fuel() + 1, *old(x), old(self)@.dom().len(), 0nat,
    {
        match n {
            Kind::Alp { id } => match self.map.get(*id) {
                Some(ol) => {
                    proof {
                        lemma_ids_finite(old(self)@.dom());
                    }
                    if self.mtc(x, &ol) {
                        self.map.set(*id, ol);
                        return true;
                    }
                    false
                },
                None => {
                    let mut k = x.clone();
                    if let Kind::Zta { sid, .. } = &mut k {
                        *sid = Some(*id);
                    }
                    self.map.set(*id, k);
                    true
                },
            },
            _ => false,
        }
    }

    /// The reduction case of a match of `x` against `n`.
    pub fn zta(&mut self, x: &mut Kind, n: &Kind) -> (ok: bool)
        ensures
            ok == zta_spec(old(self).fuel(), *old(x), *n, old(self)@).ok,
            *final(x) == zta_spec(old(self).fuel(), *old(x), *n, old(self)@).x,
            final(self)@ == zta_spec(old(self).fuel(), *old(x), *n, old(self)@).map,
            final(self).fuel() == zta_spec(old(self).fuel(), *old(x), *n, old(self)@).fuel,
            final(self).fuel() <= old(self).fuel(),
        decreases 2 * old(self).fuel(), *old(x), 0nat, 3nat,
    {
        match x {
            Kind::Pir { l: mz, r: inp } => match &**mz {
                Kind::Zta { hid, .. } => match native(*hid, inp, &mut self.fuel) {
                    Ok(xr) => {
                        *x = xr;
                        self.mtc(x, n)
                    },
                    Err(_) => false,
                },
                _ => false,
            },
            _ => false,
        }
    }

    /// The structural case of a match of `x` against `n`.
    pub fn rec(&mut self, x: &mut Kind, n: &Kind) -> (ok: bool)
        ensures
            ok == rec_spec(old(self).fuel(), *old(x), *n, old(self)@).ok,
            *final(x) == rec_spec(old(self).fuel(), *old(x), *n, old(self)@).x,
            final(self)@ == rec_spec(old(self).fuel(), *old(x), *n, old(self)@).map,
            final(self).fuel() == rec_spec(old(self).fuel(), *old(x), *n, old(self)@).fuel,
            final(self).fuel() <= old(self).fuel(),
        decreases 2 * old(self).fuel() + 1, *old(x), old(self)@.dom().len(), 0nat,
    {
        match (x, n) {
            (Kind::Zta { hid: xid, .. }, Kind::Zta { hid: nid, .. }) => *xid == *nid,
            (Kind::Pir { l: xl, r: xr }, Kind::Pir { l: nl, r: nr }) => {
                if !self.mtc(xl, nl) {
                    return false;
                }
                self.mtc(xr, nr)
            },
            _ => false,
        }
    }

    /// Matches the value `x` against the pattern `n`. The value may be reduced where it
    /// stands and the bindings grow, whether or not the match succeeds.
    pub fn mtc(&mut self, x: &mut Kind, n: &Kind) -> (ok: bool)
        ensures
            ok == mtc_spec(old(self).fuel(), *old(x), *n, old(self)@).ok,
            *final(x) == mtc_spec(old(self).fuel(), *old(x), *n, old(self)@).x,
            final(self)@ == mtc_spec(old(self).fuel(), *old(x), *n, old(self)@).map,
            final(self).fuel() == mtc_spec(old(self).fuel(), *old(x), *n, old(self)@).fuel,
            final(self).fuel() <= old(self).fuel(),
        decreases 2 * old(self).fuel() + 1, *old(x), old(self)@.dom().len(), 1nat,
    {
        let first = match n {
            Kind::Alp { .. } => self.alp(x, n),
            _ => self.rec(x, n),
        };
        if first {
            return true;
        }
        self.zta(x, n)
    }

    /// Substitutes the bindings into `b`: every atom that is bound becomes a copy of
    /// what is bound to it. The bindings stay as they are.
    pub fn ins(&mut self, b: &mut Kind)
        ensures
            *final(b) == ins_spec(*old(b), old(self)@),
            final(self)@ == old(self)@,
            final(self).fuel() == old(self).fuel(),
        decreases *old(b),
    {
        match b {
            Kind::Alp { id } => match self.map.get(*id) {
                Some(k) => {
                    self.map.set(*id, k.clone());
                    *b = k
                },
                None => {
                },
            },
            Kind::Pir { l, r } => {
                self.ins(l);
                self.ins(r)
            },
            _ => (),
        }
    }
}

/// Runs the native operation of family `hid` on `inp`, at the cost of `fuel`.
fn native<'a>(hid: ID, inp: &'a mut Kind, fuel: &mut usize) -> (res: Result<Kind, &'a mut Kind>)
    ensures
        *final(fuel) == native_spec(*old(fuel) as nat, hid, *old(inp)).fuel,
        *final(fuel) <= *old(fuel),
        match res {
            Ok(k) => native_spec(*old(fuel) as nat, hid, *old(inp)).out == Some(k) && *old(fuel)
                > 0 && *final(fuel) < *old(fuel),
            Err(r) => native_spec(*old(fuel) as nat, hid, *old(inp)).out is None && *r == *old(
                inp,
            ) && *final(r) == *final(inp),
        },
    decreases 2 * *old(fuel), *old(inp), 0nat, 2nat,
{
    if hid == ETA_TAG {
        if *fuel == 0 {
            return Err(inp);
        }
        *fuel = *fuel - 1;
        eta_bounded(inp, fuel)
    } else if hid == OMI_TAG {
        omi(inp)
    } else {
        Err(inp)
    }
}

/// The reduction operator on a budget: reduces the redex `inp` once, and takes from
/// `fuel` one unit for each run of the self-reduction operation while the argument is
/// matched. Where the fuel runs out, no further such operation runs.
pub fn eta_bounded<'a>(inp: &'a mut Kind, fuel: &mut usize) -> (res: Result<
    Kind,
    &'a mut Kind,
>)
    ensures
        *final(fuel) == eta_match(*old(fuel) as nat, *old(inp)).fuel,
        *final(fuel) <= *old(fuel),
        !is_redex(*old(inp)) ==> res is Err,
        match res {
            Ok(k) => eta_spec(*old(fuel) as nat, *old(inp)) == Some(k) && *final(inp)
                == eta_rest(*old(fuel) as nat, *old(inp)),
            Err(r) => eta_spec(*old(fuel) as nat, *old(inp)) is None && *r == *old(inp)
                && *final(r) == *final(inp),
        },
    decreases 2 * *old(fuel) + 1, *old(inp), 0nat, 1nat,
{
    let mut mt = Mtc::with_fuel(*fuel);
    // The match works on a copy of the argument: a failed attempt leaves `inp` as it was.
    let matched: Option<Kind> = match &*inp {
        Kind::Pir { l: nb, r: x } => match &**nb {
            Kind::Pir { l: n, .. } => {
                let mut arg = (&**x).clone();
                let ok = mt.mtc(&mut arg, n);
                *fuel = mt.fuel_left();
                if ok {
                    Some(arg)
                } else {
                    None
                }
            },
            _ => None,
        },
        _ => None,
    };
    let arg = match matched {
        Some(arg) => arg,
        None => {
            return Err(inp);
        },
    };
    // The match succeeded, so `inp` is a redex: the other arms below are never taken.
    match inp {
        Kind::Pir { l: nb, r: x } => match &mut **nb {
            Kind::Pir { r: b, .. } => {
                **x = arg;
                mt.ins(b);
                let mut bb = new_omi_kind();
                core::mem::swap(&mut **b, &mut bb);
                Ok(bb)
            },
            _ => Err(inp),
        },
        _ => Err(inp),
    }
}

/// The reduction operator. A term shaped `((pattern body) argument)` is reduced once:
/// the argument is matched against the pattern and the bindings are substituted into
/// the body, which is handed out; its place is taken by the terminator. Any other term,
/// and a redex whose match fails, is handed back as it was.
pub fn eta<'a>(inp: &'a mut Kind) -> (res: Result<Kind, &'a mut Kind>)
    ensures
        !is_redex(*old(inp)) ==> res is Err,
        match res {
            Ok(k) => eta_spec(FUEL as nat, *old(inp)) == Some(k) && *final(inp) == eta_rest(
                FUEL as nat,
                *old(inp),
            ),
            Err(r) => eta_spec(FUEL as nat, *old(inp)) is None && *r == *old(inp) && *final(r)
                == *final(inp),
        },
{
    let mut fuel: usize = FUEL;
    eta_bounded(inp, &mut fuel)
}

/// The terminator: it reduces nothing and hands its input back.
pub fn omi<'a>(inp: &'a mut Kind) -> (res: Result<Kind, &'a mut Kind>)
    ensures
        res matches Err(r) && *r == *old(inp) && *final(r) == *final(inp),
{
    Err(inp)
}

/// The self-reduction operation as a term.
pub fn new_eta_kind() -> (k: Kind)
    ensures
        k == eta_kind(),
{
    Kind::Zta { sid: None, hid: ETA_TAG }
}

/// The terminator as a term.
pub fn new_omi_kind() -> (k: Kind)
    ensures
        k == omi_kind(),
{
    Kind::Zta { sid: None, hid: OMI_TAG }
}

/// The seed of a self-driven reduction: a pair of two terminators, paired with the
/// self-reduction operation applied to the continuation `end`.
pub open spec fn lore_spec(end: Kind) -> Kind {
    pir(pir(omi_kind(), omi_kind()), pir(eta_kind(), end))
}

/// The default continuation: the self-reduction operation applied to the skeleton of a
/// seed whose own continuation is the bare self-reduction operation.
pub open spec fn lore_end_spec() -> Kind {
    pir(eta_kind(), pir(pir(omi_kind(), omi_kind()), eta_kind()))
}

/// Builds the seed of a self-driven reduction around the continuation `end`.
pub fn lore(end: Kind) -> (k: Kind)
    ensures
        k == lore_spec(end),
{
    Kind::from(
        (Kind::from((new_omi_kind(), new_omi_kind())), Kind::from((new_eta_kind(), end))),
    )
}

/// Builds the default continuation.
pub fn lore_end() -> (k: Kind)
    ensures
        k == lore_end_spec(),
{
    Kind::from(
        (
            new_eta_kind(),
            Kind::from((Kind::from((new_omi_kind(), new_omi_kind())), new_eta_kind())),
        ),
    )
}

} // verus!
