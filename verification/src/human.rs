//! Reading terms from text and writing them back.

use vstd::prelude::*;
use vstd::view::View as _;
pub use crate::dict::Dict;
pub use crate::grammar::ParserErr;
use crate::grammar::{
    atom_end, close_spec, debug_spec, expect_spec, has_more_spec, is_sym, lemma_parse_bounds, lemma_skip_line_bounds,
    lemma_skip_ws_bounds, message_spec, parse_atom_spec, parse_expr_spec, parse_spair_spec,
    parse_spec, render_spec, skip_line, skip_ws_spec,
};
use crate::kind::{lemma_atoms_below_more, Kind};
use crate::text::{
    byte_len, lemma_byte_len_is_encoded_len, lemma_offset_bound, lemma_offset_step, offset,
    push_decimal, width_of,
};
use vstd::string::StringExecFns;

verus! {

/// A text under a cursor. The cursor knows which character is next and at which byte
/// of the text that character starts.
pub struct Prsable {
    src: Vec<char>,
    at: usize,
    pos: usize,
}

impl Prsable {
    /// The characters of the text.
    pub closed spec fn src(&self) -> Seq<char> {
        self.src@
    }

    /// The index of the next character.
    pub closed spec fn at(&self) -> int {
        self.at as int
    }

    /// The cursor stands inside the text or at its end, and knows its byte offset.
    pub closed spec fn wf(&self) -> bool {
        &&& self.at <= self.src.len()
        &&& self.pos == offset(self.src@, self.at as int)
        &&& byte_len(self.src@) <= usize::MAX
    }

    /// A cursor at the start of `text`.
    pub fn new(text: &str) -> (it: Self)
        ensures
            it.wf(),
            it.src() == text@,
            it.at() == 0,
    {
        let bytes: usize = text.as_bytes().len();
        let mut src: Vec<char> = Vec::with_capacity(bytes);
        for c in chars: text.chars()
            invariant
                src@ == chars.seq().take(chars.index() as int),
        {
            src.push(c);
        }
        proof {
            assert(src@ =~= text@);
            lemma_byte_len_is_encoded_len(text@);
        }
        Prsable { src, at: 0, pos: 0 }
    }

    /// The byte offset of the next character.
    pub fn pos(&self) -> (p: usize)
        requires
            self.wf(),
        ensures
            p == offset(self.src(), self.at()),
    {
        self.pos
    }

    /// Hands out the next character and moves behind it. `None` at the end of the text.
    pub fn next(&mut self) -> (r: Option<char>)
        requires
            old(self).wf(),
        ensures
            final(self).wf(),
            final(self).src() == old(self).src(),
            r == if old(self).at() < old(self).src().len() {
                Some(old(self).src()[old(self).at()])
            } else {
                None
            },
            final(self).at() == if old(self).at() < old(self).src().len() {
                old(self).at() + 1
            } else {
                old(self).at()
            },
    {
        if self.at >= self.src.len() {
            return None;
        }
        let n: char = self.src[self.at];
        proof {
            lemma_offset_step(self.src@, self.at as int);
            lemma_offset_bound(self.src@, self.at + 1);
        }
        self.pos = self.pos + width_of(n);
        self.at = self.at + 1;
        Some(n)
    }

    /// The next character, without moving. `None` at the end of the text.
    pub fn peek(&self) -> (r: Option<char>)
        requires
            self.wf(),
        ensures
            r == if self.at() < self.src().len() {
                Some(self.src()[self.at()])
            } else {
                None
            },
    {
        if self.at >= self.src.len() {
            return None;
        }
        Some(self.src[self.at])
    }
}

/// The parser of binary s-expressions: a text, and how far it has been read.
pub struct Parser {
    it: Prsable,
}

/// The parser, by its short name.
pub type Prsr = Parser;

impl Prsr {
    /// The characters of the text.
    pub closed spec fn src(&self) -> Seq<char> {
        self.it.src()
    }

    /// The index of the first character not read yet.
    pub closed spec fn at(&self) -> int {
        self.it.at()
    }

    /// The parser stands inside its text or at its end.
    pub closed spec fn wf(&self) -> bool {
        self.it.wf()
    }

    /// A well-formed parser stands between the start and the end of its text.
    pub proof fn lemma_at_bounds(&self)
        requires
            self.wf(),
        ensures
            0 <= self.at() <= self.src().len(),
    {
    }

    /// Every offset into the text of a well-formed parser fits a `usize`.
    pub proof fn lemma_offset_fits(&self, i: int)
        requires
            self.wf(),
            0 <= i <= self.src().len(),
        ensures
            offset(self.src(), i) <= usize::MAX,
    {
        lemma_offset_bound(self.src(), i);
    }

    /// A parser at the start of `text`.
    pub fn new(text: &str) -> (p: Self)
        ensures
            p.wf(),
            p.src() == text@,
            p.at() == 0,
    {
        Parser { it: Prsable::new(text) }
    }

    /// Skips blanks and comments.
    pub fn skip_ws(&mut self)
        requires
            old(self).wf(),
        ensures
            final(self).wf(),
            final(self).src() == old(self).src(),
            final(self).at() == skip_ws_spec(old(self).src(), old(self).at()),
    {
        loop
            invariant
                self.wf(),
                self.src() == old(self).src(),
                0 <= self.at() <= self.src().len(),
                skip_ws_spec(self.src(), self.at()) == skip_ws_spec(
                    old(self).src(),
                    old(self).at(),
                ),
            ensures
                self.wf(),
                self.src() == old(self).src(),
                self.at() == skip_ws_spec(old(self).src(), old(self).at()),
            decreases self.src().len() - self.at(),
        {
            match self.it.peek() {
                Some(b) => {
                    if b == ' ' || b == '\t' || b == '\r' || b == '\n' {
                        self.it.next();
                    } else if b == ';' {
                        self.it.next();
                        proof {
                            lemma_skip_line_bounds(self.src(), self.at());
                        }
                        self.skip_comment();
                    } else {
                        break ;
                    }
                },
                None => {
                    break ;
                },
            }
        }
    }

    /// Skips the rest of the line, its newline included.
    fn skip_comment(&mut self)
        requires
            old(self).wf(),
        ensures
            final(self).wf(),
            final(self).src() == old(self).src(),
            final(self).at() == skip_line(old(self).src(), old(self).at()),
    {
        loop
            invariant_except_break
                skip_line(self.src(), self.at()) == skip_line(old(self).src(), old(self).at()),
            invariant
                self.wf(),
                self.src() == old(self).src(),
                0 <= self.at() <= self.src().len(),
            ensures
                self.wf(),
                self.src() == old(self).src(),
                self.at() == skip_line(old(self).src(), old(self).at()),
            decreases self.src().len() - self.at(),
        {
            match self.it.next() {
                Some(c) => {
                    if c == '\n' {
                        break ;
                    }
                },
                None => {
                    break ;
                },
            }
        }
    }

    /// Skips blanks and comments, then reads the character `want`. The character that
    /// stands there is consumed whether or not it is the wanted one.
    pub fn expect(&mut self, want: char) -> (res: Result<(), ParserErr>)
        requires
            old(self).wf(),
        ensures
            final(self).wf(),
            final(self).src() == old(self).src(),
            res == expect_spec(old(self).src(), old(self).at(), want).0,
            final(self).at() == expect_spec(old(self).src(), old(self).at(), want).1,
    {
        proof {
            lemma_skip_ws_bounds(self.src(), self.at());
        }
        self.skip_ws();
        match self.it.next() {
            Some(got) => {
                if got == want {
                    return Ok(());
                }
                Err(ParserErr::Expected { what: want, pos: self.it.pos() })
            },
            None => Err(ParserErr::Expected { what: want, pos: self.it.pos() }),
        }
    }

    /// Whether `b` can stand in an atom.
    pub fn is_sym_char(b: char) -> (r: bool)
        ensures
            r == is_sym(b),
    {
        !(b == ' ' || b == '\t' || b == '\r' || b == '\n' || b == '(' || b == ')' || b == ';')
    }

    /// Reads an atom and interns its name in `dict`.
    pub fn parse_atom(&mut self, dict: &mut Dict) -> (res: Result<Kind, ParserErr>)
        requires
            old(self).wf(),
            old(dict).wf(),
        ensures
            final(self).wf(),
            final(dict).wf(),
            final(self).src() == old(self).src(),
            res == parse_atom_spec(old(self).src(), old(self).at(), old(dict)@).res,
            final(self).at() == parse_atom_spec(old(self).src(), old(self).at(), old(dict)@).at,
            final(dict)@ == parse_atom_spec(old(self).src(), old(self).at(), old(dict)@).names,
            old(dict)@.len() <= final(dict)@.len(),
            res matches Ok(t) ==> t.is_plain() && t.atoms_below(final(dict)@.len()),
    {
        proof {
            lemma_skip_ws_bounds(self.src(), self.at());
        }
        self.skip_ws();
        let mut st = String::new();
        let start: usize = self.it.at;
        let ghost s = self.src();
        let ghost j = self.at();
        loop
            invariant
                self.wf(),
                self.src() == s,
                0 <= j <= self.at() <= s.len(),
                j == start,
                atom_end(s, self.at()) == atom_end(s, j),
                st@ == s.subrange(j, self.at()),
            ensures
                self.wf(),
                self.src() == s,
                j == start,
                self.at() == atom_end(s, j),
                st@ == s.subrange(j, self.at()),
            decreases s.len() - self.at(),
        {
            match self.it.peek() {
                Some(b) => {
                    if Self::is_sym_char(b) {
                        self.it.next();
                        st.push(b);
                    } else {
                        break ;
                    }
                },
                None => {
                    break ;
                },
            }
        }
        if self.it.at == start {
            return Err(ParserErr::NeedAtom { pos: self.it.pos() });
        }
        match dict.get(st) {
            Some(sy) => Ok(Kind::from(sy)),
            None => Err(ParserErr::NamespaceFull { pos: self.it.pos() }),
        }
    }

    /// Reads an expression: a pair where a `(` comes next, else an atom.
    pub fn parse_expr(&mut self, dict: &mut Dict) -> (res: Result<Kind, ParserErr>)
        requires
            old(self).wf(),
            old(dict).wf(),
        ensures
            final(self).wf(),
            final(dict).wf(),
            final(self).src() == old(self).src(),
            res == parse_expr_spec(old(self).src(), old(self).at(), old(dict)@).res,
            final(self).at() == parse_expr_spec(old(self).src(), old(self).at(), old(dict)@).at,
            final(dict)@ == parse_expr_spec(old(self).src(), old(self).at(), old(dict)@).names,
            old(dict)@.len() <= final(dict)@.len(),
            res matches Ok(t) ==> t.is_plain() && t.atoms_below(final(dict)@.len()),
        decreases old(self).src().len() - old(self).at(), 1nat,
    {
        proof {
            lemma_skip_ws_bounds(self.src(), self.at());
        }
        self.skip_ws();
        match self.it.peek() {
            Some(c) => {
                if c == '(' {
                    self.parse_spair(dict)
                } else {
                    self.parse_atom(dict)
                }
            },
            None => Err(ParserErr::EndOfInput { pos: self.it.pos() }),
        }
    }

    /// Reads a pair: `(`, exactly two expressions, and `)`.
    pub fn parse_spair(&mut self, dict: &mut Dict) -> (res: Result<Kind, ParserErr>)
        requires
            old(self).wf(),
            old(dict).wf(),
        ensures
            final(self).wf(),
            final(dict).wf(),
            final(self).src() == old(self).src(),
            res == parse_spair_spec(old(self).src(), old(self).at(), old(dict)@).res,
            final(self).at() == parse_spair_spec(old(self).src(), old(self).at(), old(dict)@).at,
            final(dict)@ == parse_spair_spec(old(self).src(), old(self).at(), old(dict)@).names,
            old(dict)@.len() <= final(dict)@.len(),
            res matches Ok(t) ==> t is Pir && t.is_plain() && t.atoms_below(final(dict)@.len()),
        decreases old(self).src().len() - old(self).at(), 0nat,
    {
        proof {
            lemma_skip_ws_bounds(self.src(), self.at());
        }
        match self.expect('(') {
            Ok(_) => {},
            Err(e) => {
                return Err(e);
            },
        }
        proof {
            lemma_parse_bounds(self.src(), self.at(), dict@);
        }
        let l = match self.parse_expr(dict) {
            Ok(l) => l,
            Err(e) => {
                return Err(e);
            },
        };
        proof {
            lemma_parse_bounds(self.src(), self.at(), dict@);
        }
        let ghost named = dict@.len();
        let r = match self.parse_expr(dict) {
            Ok(r) => r,
            Err(e) => {
                return Err(e);
            },
        };
        proof {
            lemma_atoms_below_more(l, named, dict@.len());
        }
        self.close(l, r)
    }

    /// Reads the `)` of a pair whose members `l` and `r` have been read.
    fn close(&mut self, l: Kind, r: Kind) -> (res: Result<Kind, ParserErr>)
        requires
            old(self).wf(),
        ensures
            final(self).wf(),
            final(self).src() == old(self).src(),
            res == close_spec(old(self).src(), old(self).at(), l, r).0,
            final(self).at() == close_spec(old(self).src(), old(self).at(), l, r).1,
    {
        proof {
            lemma_skip_ws_bounds(self.src(), self.at());
        }
        self.skip_ws();
        match self.it.peek() {
            Some(c) => {
                if c == ')' {
                    self.it.next();
                    Ok(Kind::from((l, r)))
                } else {
                    Err(ParserErr::PairHasMore { pos: self.it.pos() })
                }
            },
            None => Err(ParserErr::Expected { what: ')', pos: self.it.pos() }),
        }
    }

    /// Skips blanks and comments, and tells whether a character is left behind them:
    /// the byte offset of that character, or `None` at the end of the text.
    pub fn has_more(&mut self) -> (r: Option<usize>)
        requires
            old(self).wf(),
        ensures
            final(self).wf(),
            final(self).src() == old(self).src(),
            final(self).at() == skip_ws_spec(old(self).src(), old(self).at()),
            r == match has_more_spec(old(self).src(), old(self).at()) {
                Some(j) => Some(offset(old(self).src(), j) as usize),
                None => None,
            },
    {
        proof {
            lemma_skip_ws_bounds(self.src(), self.at());
        }
        self.skip_ws();
        match self.it.peek() {
            Some(_) => Some(self.it.pos()),
            None => None,
        }
    }
}

/// Parses the document `text`: one pair, with nothing behind it but blanks and
/// comments. The names of its atoms are interned in `dict`.
pub fn parse(text: &str, dict: &mut Dict) -> (res: Result<Kind, ParserErr>)
    requires
        old(dict).wf(),
    ensures
        final(dict).wf(),
        res == parse_spec(text@, old(dict)@).0,
        final(dict)@ == parse_spec(text@, old(dict)@).1,
        old(dict)@.len() <= final(dict)@.len(),
        res matches Ok(t) ==> t is Pir && t.is_plain() && t.atoms_below(final(dict)@.len()),
{
    let mut prs = Parser::new(text);
    let k = match prs.parse_spair(dict) {
        Ok(k) => k,
        Err(e) => {
            return Err(e);
        },
    };
    match prs.has_more() {
        Some(at) => Err(ParserErr::Unexpected { pos: at }),
        None => Ok(k),
    }
}

impl ParserErr {
    /// The message of the error.
    pub fn to_string(&self) -> (msg: String)
        ensures
            msg@ == message_spec(*self),
    {
        match self {
            ParserErr::Expected { what, pos } => {
                let mut msg = String::from_str("expected '");
                msg.push(*what);
                msg.append("' at ");
                push_decimal(&mut msg, *pos);
                msg
            },
            ParserErr::NeedAtom { pos } => {
                let mut msg = String::from_str("expected an atom at ");
                push_decimal(&mut msg, *pos);
                msg
            },
            ParserErr::NamespaceFull { pos } => {
                let mut msg = String::from_str("namespace full while at ");
                push_decimal(&mut msg, *pos);
                msg
            },
            ParserErr::EndOfInput { pos } => {
                let mut msg = String::from_str("end of input at ");
                push_decimal(&mut msg, *pos);
                msg
            },
            ParserErr::PairHasMore { pos } => {
                let mut msg = String::from_str("pair has more than 2 members at ");
                push_decimal(&mut msg, *pos);
                msg
            },
            ParserErr::Unexpected { pos } => {
                let mut msg = String::from_str("unexpected character at ");
                push_decimal(&mut msg, *pos);
                msg
            },
        }
    }
}

/// Appends the bare form of `root` to `out`.
pub fn debug_into(root: &Kind, out: &mut String)
    ensures
        final(out)@ == old(out)@ + debug_spec(*root),
    decreases root,
{
    match root {
        Kind::Alp { id } => {
            out.push('I');
            out.push(':');
            push_decimal(out, *id);
        },
        Kind::Zta { sid, hid } => {
            out.push('Z');
            out.push(':');
            push_decimal(out, *hid);
            match sid {
                Some(id) => {
                    out.push(':');
                    push_decimal(out, *id);
                },
                None => {},
            }
        },
        Kind::Pir { l, r } => {
            out.push('(');
            debug_into(l, out);
            out.push(' ');
            debug_into(r, out);
            out.push(')');
        },
    }
}

/// Appends the text of `root` under `dict` to `out`.
pub fn unparse_into(root: &Kind, dict: &Dict, out: &mut String)
    requires
        dict.wf(),
    ensures
        final(out)@ == old(out)@ + render_spec(*root, dict@),
    decreases root,
{
    match root {
        Kind::Alp { id } => match dict.get_name(*id) {
            Some(name) => {
                out.append(name);
            },
            None => {
                out.push('#');
                debug_into(root, out);
            },
        },
        Kind::Zta { sid, .. } => {
            let name = match sid {
                Some(id) => dict.get_name(*id),
                None => None,
            };
            match name {
                Some(name) => {
                    out.append(name);
                },
                None => {
                    out.push('#');
                    debug_into(root, out);
                },
            }
        },
        Kind::Pir { l, r } => {
            out.push('(');
            unparse_into(l, dict, out);
            out.push(' ');
            unparse_into(r, dict, out);
            out.push(')');
        },
    }
}

/// The text of `root` under the symbol table `dict`.
pub fn unparse(root: &Kind, dict: &Dict) -> (text: String)
    requires
        dict.wf(),
    ensures
        text@ == render_spec(*root, dict@),
{
    let mut text = String::new();
    unparse_into(root, dict, &mut text);
    text
}

/// A term together with the symbol table that names its atoms, ready to be shown.
pub struct View<'a> {
    root: &'a Kind,
    dict: &'a Dict,
}

impl<'a> View<'a> {
    /// The term shown.
    pub closed spec fn root(&self) -> Kind {
        *self.root
    }

    /// The names of the symbol table used.
    pub closed spec fn names(&self) -> Seq<Seq<char>> {
        self.dict@
    }

    /// The symbol table is well formed.
    pub closed spec fn wf(&self) -> bool {
        self.dict.wf()
    }

    /// `root` as `dict` names it.
    pub fn new(root: &'a Kind, dict: &'a Dict) -> (v: Self)
        ensures
            v.root() == *root,
            v.names() == dict@,
            v.wf() == dict.wf(),
    {
        View { root, dict }
    }

    /// The text of the term.
    pub fn to_string(&self) -> (text: String)
        requires
            self.wf(),
        ensures
            text@ == render_spec(self.root(), self.names()),
    {
        unparse(self.root, self.dict)
    }
}

} // verus!
