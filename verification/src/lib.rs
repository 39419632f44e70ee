//! A minimal term-rewriting evaluator over binary trees.
//!
//! A text is parsed into a tree of atoms and ordered pairs ([`human`]). One reduction
//! operator, [`theory::eta`], rewrites a term shaped `((pattern body) argument)`: it
//! matches the argument against the pattern, binds the variables of the pattern, and
//! hands out the body with the bindings substituted. Native operations stand in terms
//! as opaque leaves; one of them is the reduction operator itself, so that matching a
//! value can reduce it on demand.
//!
//! Every function of the library is verified against a contract. The contracts are
//! stated over the specification functions of [`theory`] and [`grammar`], and what holds
//! of those in general is proved in [`laws`], [`fuel`], [`roundtrip`] and [`dict`].

pub mod basic;
pub mod dict;
pub mod fuel;
pub mod grammar;
pub mod human;
pub mod kind;
pub mod laws;
pub mod roundtrip;
pub mod store;
pub mod table;
pub mod text;
pub mod theory;

pub use basic::execute;
pub use dict::Dict;
pub use grammar::ParserErr;
pub use human::{parse, unparse, Parser, View};
pub use kind::{Kind, ID};
pub use theory::{eta, lore, lore_end, new_eta_kind, new_omi_kind, omi};
