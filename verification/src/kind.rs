//! The term model: atoms, opaque native operations and ordered pairs.

use vstd::prelude::*;
use vstd::std_specs::convert::FromSpecImpl;

verus! {

/// Identifier of an interned symbol, and tag of a native operation.
pub type ID = usize;

/// Tag of the terminator, the native operation that never reduces.
pub const OMI_TAG: ID = 0;

/// Tag of the self-reduction operation, which performs one reduction of its argument.
pub const ETA_TAG: ID = 1;

/// A term. Every pair owns its two children, so a term is a finite binary tree.
#[derive(PartialEq, Eq)]
pub enum Kind {
    /// A symbol; on the pattern side of a match it is a variable.
    Alp { id: ID },
    /// A native operation of family `hid`. What the node does when it is applied is
    /// decided by its family alone: family [`OMI_TAG`] never reduces, family [`ETA_TAG`]
    /// reduces its argument once, and the families from 2 on are inert marks that an
    /// embedder may tell apart by their number. `sid` records the variable under which
    /// the node was captured; it is shown when the term is printed and never compared.
    Zta { sid: Option<ID>, hid: ID },
    /// An ordered pair.
    Pir { l: Box<Kind>, r: Box<Kind> },
}

/// The pair of `l` and `r`.
pub open spec fn pir(l: Kind, r: Kind) -> Kind {
    Kind::Pir { l: Box::new(l), r: Box::new(r) }
}

/// The terminator, without provenance.
pub open spec fn omi_kind() -> Kind {
    Kind::Zta { sid: None, hid: OMI_TAG }
}

/// The self-reduction operation, without provenance.
pub open spec fn eta_kind() -> Kind {
    Kind::Zta { sid: None, hid: ETA_TAG }
}

impl Kind {
    /// `self` as it is recorded when variable `id` captures it: a native operation
    /// remembers the variable, any other term is recorded as it is.
    pub open spec fn stamped(self, id: ID) -> Kind {
        match self {
            Kind::Zta { sid, hid } => Kind::Zta { sid: Some(id), hid },
            _ => self,
        }
    }

    /// Equality of terms up to the provenance of their native operations.
    pub open spec fn same_shape(self, other: Kind) -> bool
        decreases self,
    {
        match (self, other) {
            (Kind::Alp { id: a }, Kind::Alp { id: b }) => a == b,
            (Kind::Zta { hid: a, .. }, Kind::Zta { hid: b, .. }) => a == b,
            (Kind::Pir { l: al, r: ar }, Kind::Pir { l: bl, r: br }) => al.same_shape(*bl)
                && ar.same_shape(*br),
            _ => false,
        }
    }

    /// A term made of atoms and pairs only, as the parser produces them.
    pub open spec fn is_plain(self) -> bool
        decreases self,
    {
        match self {
            Kind::Alp { .. } => true,
            Kind::Zta { .. } => false,
            Kind::Pir { l, r } => l.is_plain() && r.is_plain(),
        }
    }

    /// Every atom of the term has an identifier below `n`.
    pub open spec fn atoms_below(self, n: nat) -> bool
        decreases self,
    {
        match self {
            Kind::Alp { id } => id < n,
            Kind::Zta { .. } => true,
            Kind::Pir { l, r } => l.atoms_below(n) && r.atoms_below(n),
        }
    }

    /// A term without atoms. As a pattern it has no variables.
    pub open spec fn is_ground(self) -> bool
        decreases self,
    {
        match self {
            Kind::Alp { .. } => false,
            Kind::Zta { .. } => true,
            Kind::Pir { l, r } => l.is_ground() && r.is_ground(),
        }
    }

    /// A term in which the self-reduction operation is applied nowhere: no pair in it
    /// has that operation as its left child.
    pub open spec fn is_normal(self) -> bool
        decreases self,
    {
        match self {
            Kind::Pir { l, r } => !(*l matches Kind::Zta { hid, .. } && hid == ETA_TAG)
                && l.is_normal() && r.is_normal(),
            _ => true,
        }
    }

    /// A native operation of family `hid`, for the families left to the embedder.
    /// The families below 2 are the built-in ones and are refused: those nodes are made
    /// by `new_omi_kind` and `new_eta_kind` alone.
    pub fn native(hid: ID) -> (res: Result<Kind, ()>)
        ensures
            res == if hid < 2 {
                Err::<Kind, ()>(())
            } else {
                Ok::<Kind, ()>(Kind::Zta { sid: None, hid })
            },
    {
        if hid < 2 {
            return Err(());
        }
        Ok(Kind::Zta { sid: None, hid })
    }
}

/// Identifiers below a bound are below every greater bound.
pub proof fn lemma_atoms_below_more(t: Kind, n: nat, m: nat)
    requires
        t.atoms_below(n),
        n <= m,
    ensures
        t.atoms_below(m),
    decreases t,
{
    match t {
        Kind::Pir { l, r } => {
            lemma_atoms_below_more(*l, n, m);
            lemma_atoms_below_more(*r, n, m);
        },
        _ => {},
    }
}

impl Clone for Kind {
    fn clone(&self) -> (res: Self)
        ensures
            res == *self,
        decreases self,
    {
        match self {
            Kind::Alp { id } => Kind::Alp { id: *id },
            Kind::Zta { sid, hid } => Kind::Zta { sid: *sid, hid: *hid },
            Kind::Pir { l, r } => Kind::Pir {
                l: Box::new((&**l).clone()),
                r: Box::new((&**r).clone()),
            },
        }
    }
}

impl From<ID> for Kind {
    fn from(val: ID) -> (res: Self) {
        Kind::Alp { id: val }
    }
}

impl FromSpecImpl<ID> for Kind {
    open spec fn obeys_from_spec() -> bool {
        true
    }

    open spec fn from_spec(val: ID) -> Self {
        Kind::Alp { id: val }
    }
}

impl From<(Kind, Kind)> for Kind {
    fn from(val: (Kind, Kind)) -> (res: Self) {
        Kind::Pir { l: Box::new(val.0), r: Box::new(val.1) }
    }
}

impl FromSpecImpl<(Kind, Kind)> for Kind {
    open spec fn obeys_from_spec() -> bool {
        true
    }

    open spec fn from_spec(val: (Kind, Kind)) -> Self {
        pir(val.0, val.1)
    }
}

} // verus!
