//! The textual form of terms, as functions on characters.
//!
//! A document is one pair `( expr expr )`. An expression is a pair or an atom, and an
//! atom is a longest run of characters that are neither blank nor `(`, `)` or `;`.
//! Blanks, and comments from `;` to the end of the line, may stand between tokens.

use vstd::prelude::*;
use crate::dict::{id_of, interned};
use crate::kind::{pir, Kind};
use crate::text::{decimal_spec, offset};

verus! {

/// Why a text is not a term. Each error carries the byte offset at which it was found.
#[derive(Debug, PartialEq, Eq, Clone, Copy)]
pub enum ParserErr {
    /// The delimiter `what` was expected.
    Expected { what: char, pos: usize },
    /// An atom was expected.
    NeedAtom { pos: usize },
    /// The symbol table has no identifier left for a new name.
    NamespaceFull { pos: usize },
    /// The text ended where an expression was expected.
    EndOfInput { pos: usize },
    /// A pair has more than two members.
    PairHasMore { pos: usize },
    /// A character follows the document.
    Unexpected { pos: usize },
}

/// What parsing leaves behind: the term or the error, the index of the first character
/// not consumed, and the names of the symbol table.
pub struct Parsed {
    pub res: Result<Kind, ParserErr>,
    pub at: int,
    pub names: Seq<Seq<char>>,
}

/// A blank character.
pub open spec fn is_space(c: char) -> bool {
    c == ' ' || c == '\t' || c == '\r' || c == '\n'
}

/// A character that can stand in an atom.
pub open spec fn is_sym(c: char) -> bool {
    !is_space(c) && c != '(' && c != ')' && c != ';'
}

/// A name that can be read back as one atom: it is not empty and every character of it
/// can stand in an atom.
pub open spec fn is_token(w: Seq<char>) -> bool {
    w.len() > 0 && forall|k: int| 0 <= k < w.len() ==> is_sym(#[trigger] w[k])
}

/// A symbol table of which every name can be read back as one atom.
pub open spec fn printable(names: Seq<Seq<char>>) -> bool {
    forall|i: int| 0 <= i < names.len() ==> is_token(#[trigger] names[i])
}

/// The index behind the line that `i` stands in: behind its newline, or the end of the
/// text where no newline follows.
pub open spec fn skip_line(s: Seq<char>, i: int) -> int
    decreases s.len() - i,
{
    if i < 0 || i >= s.len() {
        i
    } else if s[i] == '\n' {
        i + 1
    } else {
        skip_line(s, i + 1)
    }
}

/// A line is skipped forwards, and not beyond the text.
pub proof fn lemma_skip_line_bounds(s: Seq<char>, i: int)
    requires
        0 <= i <= s.len(),
    ensures
        i <= skip_line(s, i) <= s.len(),
    decreases s.len() - i,
{
    if i < s.len() && s[i] != '\n' {
        lemma_skip_line_bounds(s, i + 1);
    }
}

/// The index of the first character at or behind `i` that is neither blank nor part of
/// a comment; the length of the text where there is none.
pub open spec fn skip_ws_spec(s: Seq<char>, i: int) -> int
    decreases s.len() - i,
    via skip_ws_decreases
{
    if i < 0 || i >= s.len() {
        i
    } else if is_space(s[i]) {
        skip_ws_spec(s, i + 1)
    } else if s[i] == ';' {
        skip_ws_spec(s, skip_line(s, i + 1))
    } else {
        i
    }
}

#[via_fn]
proof fn skip_ws_decreases(s: Seq<char>, i: int) {
    if 0 <= i < s.len() {
        lemma_skip_line_bounds(s, i + 1);
    }
}

/// Blanks and comments are skipped forwards, and not beyond the text.
pub proof fn lemma_skip_ws_bounds(s: Seq<char>, i: int)
    requires
        0 <= i <= s.len(),
    ensures
        i <= skip_ws_spec(s, i) <= s.len(),
        skip_ws_spec(s, i) < s.len() ==> !is_space(s[skip_ws_spec(s, i)]) && s[skip_ws_spec(
            s,
            i,
        )] != ';',
        skip_ws_spec(s, skip_ws_spec(s, i)) == skip_ws_spec(s, i),
    decreases s.len() - i,
{
    if i < s.len() {
        if is_space(s[i]) {
            lemma_skip_ws_bounds(s, i + 1);
        } else if s[i] == ';' {
            lemma_skip_line_bounds(s, i + 1);
            lemma_skip_ws_bounds(s, skip_line(s, i + 1));
        }
    }
}

/// The index behind the longest run of atom characters that starts at `i`.
pub open spec fn atom_end(s: Seq<char>, i: int) -> int
    decreases s.len() - i,
{
    if 0 <= i < s.len() && is_sym(s[i]) {
        atom_end(s, i + 1)
    } else {
        i
    }
}

/// An atom ends at or behind its start, and not beyond the text.
pub proof fn lemma_atom_end_bounds(s: Seq<char>, i: int)
    requires
        0 <= i <= s.len(),
    ensures
        i <= atom_end(s, i) <= s.len(),
    decreases s.len() - i,
{
    if i < s.len() && is_sym(s[i]) {
        lemma_atom_end_bounds(s, i + 1);
    }
}

/// The atom that starts at or behind `i`, interned into `names`.
pub open spec fn parse_atom_spec(s: Seq<char>, i: int, names: Seq<Seq<char>>) -> Parsed {
    let j = skip_ws_spec(s, i);
    let k = atom_end(s, j);
    if k == j {
        Parsed { res: Err(ParserErr::NeedAtom { pos: offset(s, j) as usize }), at: j, names }
    } else {
        match id_of(names, s.subrange(j, k)) {
            Some(id) => Parsed {
                res: Ok(Kind::Alp { id }),
                at: k,
                names: interned(names, s.subrange(j, k)),
            },
            None => Parsed {
                res: Err(ParserErr::NamespaceFull { pos: offset(s, k) as usize }),
                at: k,
                names,
            },
        }
    }
}

/// The expression that starts at or behind `i`: a pair where a `(` stands there, else
/// an atom.
pub open spec fn parse_expr_spec(s: Seq<char>, i: int, names: Seq<Seq<char>>) -> Parsed
    decreases s.len() - i, 1nat,
{
    let j = skip_ws_spec(s, i);
    if !(0 <= i <= j < s.len()) {
        Parsed { res: Err(ParserErr::EndOfInput { pos: offset(s, j) as usize }), at: j, names }
    } else if s[j] == '(' {
        parse_spair_spec(s, j, names)
    } else {
        parse_atom_spec(s, j, names)
    }
}

/// The character `want` read at or behind `i`, after blanks and comments. Whatever
/// character stands there is consumed; with the outcome comes the index behind it.
pub open spec fn expect_spec(s: Seq<char>, i: int, want: char) -> (Result<(), ParserErr>, int) {
    let j = skip_ws_spec(s, i);
    if !(0 <= j < s.len()) {
        (Err(ParserErr::Expected { what: want, pos: offset(s, j) as usize }), j)
    } else if s[j] == want {
        (Ok(()), j + 1)
    } else {
        (Err(ParserErr::Expected { what: want, pos: offset(s, j + 1) as usize }), j + 1)
    }
}

/// The end of a pair whose members `l` and `r` have been read up to index `i`: the
/// pair, where a `)` stands at or behind `i`; with it, the index behind what was read.
pub open spec fn close_spec(s: Seq<char>, i: int, l: Kind, r: Kind) -> (
    Result<Kind, ParserErr>,
    int,
) {
    let k = skip_ws_spec(s, i);
    if !(0 <= k < s.len()) {
        (Err(ParserErr::Expected { what: ')', pos: offset(s, k) as usize }), k)
    } else if s[k] == ')' {
        (Ok(pir(l, r)), k + 1)
    } else {
        (Err(ParserErr::PairHasMore { pos: offset(s, k) as usize }), k)
    }
}

/// The pair that starts at or behind `i`: `(`, two expressions and `)`.
pub open spec fn parse_spair_spec(s: Seq<char>, i: int, names: Seq<Seq<char>>) -> Parsed
    decreases s.len() - i, 0nat,
{
    let j = skip_ws_spec(s, i);
    if !(0 <= i <= j < s.len()) {
        Parsed {
            res: Err(ParserErr::Expected { what: '(', pos: offset(s, j) as usize }),
            at: j,
            names,
        }
    } else if s[j] != '(' {
        Parsed {
            res: Err(ParserErr::Expected { what: '(', pos: offset(s, j + 1) as usize }),
            at: j + 1,
            names,
        }
    } else {
        let l = parse_expr_spec(s, j + 1, names);
        // A parse only moves forwards in the text: see `lemma_parse_bounds`.
        if l.res is Err || !(j < l.at <= s.len()) {
            l
        } else {
            let r = parse_expr_spec(s, l.at, l.names);
            if r.res is Err {
                r
            } else {
                Parsed {
                    res: close_spec(s, r.at, l.res->Ok_0, r.res->Ok_0).0,
                    at: close_spec(s, r.at, l.res->Ok_0, r.res->Ok_0).1,
                    names: r.names,
                }
            }
        }
    }
}

/// A parse ends at or behind its start, and not beyond the text.
pub proof fn lemma_parse_bounds(s: Seq<char>, i: int, names: Seq<Seq<char>>)
    requires
        0 <= i <= s.len(),
    ensures
        i <= parse_atom_spec(s, i, names).at <= s.len(),
        i <= parse_expr_spec(s, i, names).at <= s.len(),
        i <= parse_spair_spec(s, i, names).at <= s.len(),
        parse_expr_spec(s, i, names).res is Ok ==> i < parse_expr_spec(s, i, names).at,
    decreases s.len() - i, 2nat,
{
    let j = skip_ws_spec(s, i);
    lemma_skip_ws_bounds(s, i);
    lemma_atom_end_bounds(s, j);
    if j < s.len() {
        lemma_skip_ws_bounds(s, j);
        if s[j] == '(' {
            lemma_spair_bounds(s, j, names);
        }
    }
}

proof fn lemma_spair_bounds(s: Seq<char>, j: int, names: Seq<Seq<char>>)
    requires
        0 <= j < s.len(),
        s[j] == '(',
    ensures
        j < parse_spair_spec(s, j, names).at <= s.len(),
    decreases s.len() - j, 1nat,
{
    lemma_skip_ws_bounds(s, j);
    let l = parse_expr_spec(s, j + 1, names);
    lemma_parse_bounds(s, j + 1, names);
    if l.res is Ok {
        let r = parse_expr_spec(s, l.at, l.names);
        lemma_parse_bounds(s, l.at, l.names);
        lemma_skip_ws_bounds(s, r.at);
    }
}

/// The index of the first character behind `i` that stands outside blanks and
/// comments, if there is one.
pub open spec fn has_more_spec(s: Seq<char>, i: int) -> Option<int> {
    if 0 <= skip_ws_spec(s, i) < s.len() {
        Some(skip_ws_spec(s, i))
    } else {
        None
    }
}

/// The document `s`: one pair, and behind it nothing but blanks and comments. The term
/// or the error comes with the names of the symbol table as parsing left them.
pub open spec fn parse_spec(s: Seq<char>, names: Seq<Seq<char>>) -> (
    Result<Kind, ParserErr>,
    Seq<Seq<char>>,
) {
    let p = parse_spair_spec(s, 0, names);
    match (p.res, has_more_spec(s, p.at)) {
        (Ok(_), Some(j)) => (Err(ParserErr::Unexpected { pos: offset(s, j) as usize }), p.names),
        _ => (p.res, p.names),
    }
}

/// The term `t` with its identifiers laid bare: `I:` and the identifier for an atom,
/// `Z:` and the family for a native operation, followed by `:` and the variable where
/// it has a provenance.
pub open spec fn debug_spec(t: Kind) -> Seq<char>
    decreases t,
{
    match t {
        Kind::Alp { id } => seq!['I', ':'] + decimal_spec(id as nat),
        Kind::Zta { sid: Some(id), hid } => seq!['Z', ':'] + decimal_spec(hid as nat) + seq![':']
            + decimal_spec(id as nat),
        Kind::Zta { sid: None, hid } => seq!['Z', ':'] + decimal_spec(hid as nat),
        Kind::Pir { l, r } => seq!['('] + debug_spec(*l) + seq![' '] + debug_spec(*r) + seq![')'],
    }
}

/// The text of the term `t` under the symbol table `names`. An atom is its name, a
/// native operation the name of the variable that captured it, a pair its two members
/// in parentheses. A leaf that has no name is `#` and its bare form.
pub open spec fn render_spec(t: Kind, names: Seq<Seq<char>>) -> Seq<char>
    decreases t,
{
    match t {
        Kind::Alp { id } => if id < names.len() {
            names[id as int]
        } else {
            seq!['#'] + debug_spec(t)
        },
        Kind::Zta { sid, .. } => if sid is Some && sid->0 < names.len() {
            names[sid->0 as int]
        } else {
            seq!['#'] + debug_spec(t)
        },
        Kind::Pir { l, r } => seq!['('] + render_spec(*l, names) + seq![' '] + render_spec(
            *r,
            names,
        ) + seq![')'],
    }
}

/// The message of the error `e`.
pub open spec fn message_spec(e: ParserErr) -> Seq<char> {
    match e {
        ParserErr::Expected { what, pos } => "expected '"@.push(what) + "' at "@ + decimal_spec(
            pos as nat,
        ),
        ParserErr::NeedAtom { pos } => "expected an atom at "@ + decimal_spec(pos as nat),
        ParserErr::NamespaceFull { pos } => "namespace full while at "@ + decimal_spec(
            pos as nat,
        ),
        ParserErr::EndOfInput { pos } => "end of input at "@ + decimal_spec(pos as nat),
        ParserErr::PairHasMore { pos } => "pair has more than 2 members at "@ + decimal_spec(
            pos as nat,
        ),
        ParserErr::Unexpected { pos } => "unexpected character at "@ + decimal_spec(pos as nat),
    }
}

} // verus!
