//! Reading back what was written: the parser inverts the printer.

use vstd::prelude::*;
use crate::dict::{id_of, interned};
use crate::grammar::{
    atom_end, has_more_spec, is_sym, is_token, lemma_atom_end_bounds, lemma_parse_bounds,
    lemma_skip_ws_bounds, parse_atom_spec, parse_expr_spec, parse_spair_spec, parse_spec,
    printable, render_spec, skip_ws_spec, Parsed, ParserErr,
};
use crate::kind::{lemma_atoms_below_more, pir, Kind, ID};

verus! {

/// A symbol table as the parser keeps it: no name stands twice, every name has an
/// identifier, and every name can be read back as one atom.
pub open spec fn readable(names: Seq<Seq<char>>) -> bool {
    names.no_duplicates() && names.len() <= ID::MAX && printable(names)
}

/// The text `w` stands at index `i` of `s`, and what follows it cannot prolong an atom.
pub open spec fn stands_at(s: Seq<char>, i: int, w: Seq<char>) -> bool {
    &&& 0 <= i
    &&& i + w.len() <= s.len()
    &&& s.subrange(i, i + w.len()) == w
    &&& (i + w.len() == s.len() || !is_sym(s[i + w.len()]))
}

/// A run of atom characters that ends where the text ends or another character
/// follows is read as one atom.
proof fn lemma_atom_run(s: Seq<char>, i: int, n: int)
    requires
        0 <= i,
        0 <= n,
        i + n <= s.len(),
        forall|k: int| i <= k < i + n ==> is_sym(#[trigger] s[k]),
        i + n == s.len() || !is_sym(s[i + n]),
    ensures
        atom_end(s, i) == i + n,
    decreases n,
{
    if n > 0 {
        lemma_atom_run(s, i + 1, n - 1);
    }
}

/// The text of a term of atoms and pairs starts with `(` or with an atom character.
proof fn lemma_render_head(t: Kind, names: Seq<Seq<char>>)
    requires
        printable(names),
        t.is_plain(),
        t.atoms_below(names.len()),
    ensures
        render_spec(t, names).len() > 0,
        render_spec(t, names)[0] == '(' || is_sym(render_spec(t, names)[0]),
{
    if let Kind::Alp { id } = t {
        assert(is_token(names[id as int]));
    }
}

/// Where the text of the pair of `l` and `r` stands at index `i` of `s`, its
/// parentheses, its two members and its blank stand at their places.
proof fn lemma_pair_layout(s: Seq<char>, i: int, l: Kind, r: Kind, names: Seq<Seq<char>>)
    requires
        stands_at(s, i, render_spec(pir(l, r), names)),
    ensures
        render_spec(pir(l, r), names).len() == render_spec(l, names).len() + render_spec(
            r,
            names,
        ).len() + 3,
        s[i] == '(',
        stands_at(s, i + 1, render_spec(l, names)),
        s[i + 1 + render_spec(l, names).len()] == ' ',
        stands_at(s, i + 2 + render_spec(l, names).len(), render_spec(r, names)),
        render_spec(r, names).len() > 0 ==> s[i + 2 + render_spec(l, names).len()]
            == render_spec(r, names)[0],
        s[i + 2 + render_spec(l, names).len() + render_spec(r, names).len()] == ')',
{
    let lt = render_spec(l, names);
    let rt = render_spec(r, names);
    let ln = lt.len() as int;
    let rn = rt.len() as int;
    let n = ln + rn + 3;
    let text = seq!['('] + lt + seq![' '] + rt + seq![')'];
    assert(render_spec(pir(l, r), names) == text);
    assert(text.len() == n);
    let whole = s.subrange(i, i + n);
    assert(whole[0] == s[i]);
    assert(whole[1 + ln] == s[i + 1 + ln]);
    assert(whole[2 + ln + rn] == s[i + 2 + ln + rn]);
    assert(s.subrange(i + 1, i + 1 + ln) =~= lt) by {
        assert forall|k: int| 0 <= k < ln implies s[i + 1 + k] == lt[k] by {
            assert(whole[k + 1] == s[i + 1 + k]);
        }
    }
    assert(s.subrange(i + 2 + ln, i + 2 + ln + rn) =~= rt) by {
        assert forall|k: int| 0 <= k < rn implies s[i + 2 + ln + k] == rt[k] by {
            assert(whole[k + 2 + ln] == s[i + 2 + ln + k]);
        }
    }
    if rn > 0 {
        assert(whole[2 + ln] == s[i + 2 + ln]);
    }
}

/// Where a name of the table stands at index `i` of `s`, an atom read at `i` is the
/// atom of that name.
proof fn lemma_parse_name(s: Seq<char>, i: int, id: ID, names: Seq<Seq<char>>)
    requires
        readable(names),
        id < names.len(),
        stands_at(s, i, names[id as int]),
    ensures
        parse_expr_spec(s, i, names) == (Parsed {
            res: Ok(Kind::Alp { id }),
            at: i + names[id as int].len(),
            names,
        }),
{
    let w = names[id as int];
    let n = w.len() as int;
    assert(is_token(w));
    assert forall|k: int| i <= k < i + n implies is_sym(#[trigger] s[k]) by {
        assert(s.subrange(i, i + n)[k - i] == s[k]);
        assert(is_sym(w[k - i]));
    }
    assert(is_sym(s[i]));
    lemma_atom_run(s, i, n);
    assert(names[names.index_of(w)] == w);
    assert(id_of(names, w) == Some(id));
    assert(interned(names, w) == names);
    assert(skip_ws_spec(s, i) == i);
    assert(parse_expr_spec(s, i, names) == parse_atom_spec(s, i, names));
}

/// A pair whose members are read as `l` and `r`, one blank apart, and which is closed
/// behind them, is read as the pair of `l` and `r`.
proof fn lemma_parse_members(
    s: Seq<char>,
    i: int,
    l: Kind,
    r: Kind,
    a: int,
    b: int,
    names: Seq<Seq<char>>,
)
    requires
        0 <= i < a < b < s.len(),
        s[i] == '(',
        parse_expr_spec(s, i + 1, names) == (Parsed { res: Ok(l), at: a, names }),
        s[a] == ' ',
        skip_ws_spec(s, a + 1) == a + 1,
        parse_expr_spec(s, a + 1, names) == (Parsed { res: Ok(r), at: b, names }),
        s[b] == ')',
    ensures
        parse_expr_spec(s, i, names) == (Parsed { res: Ok(pir(l, r)), at: b + 1, names }),
{
    assert(skip_ws_spec(s, i) == i);
    assert(skip_ws_spec(s, a) == a + 1);
    assert(parse_expr_spec(s, a, names) == parse_expr_spec(s, a + 1, names));
    assert(skip_ws_spec(s, b) == b);
    assert(parse_spair_spec(s, i, names) == (Parsed { res: Ok(pir(l, r)), at: b + 1, names }));
}

/// Where the text of `t` stands at index `i` of `s`, and what follows it cannot prolong
/// an atom, an expression read at `i` is `t`; the symbol table stays as it is.
pub proof fn lemma_parse_rendered(s: Seq<char>, i: int, t: Kind, names: Seq<Seq<char>>)
    requires
        readable(names),
        t.is_plain(),
        t.atoms_below(names.len()),
        stands_at(s, i, render_spec(t, names)),
    ensures
        parse_expr_spec(s, i, names) == (Parsed {
            res: Ok(t),
            at: i + render_spec(t, names).len(),
            names,
        }),
    decreases t,
{
    match t {
        Kind::Alp { id } => {
            lemma_parse_name(s, i, id, names);
        },
        Kind::Zta { .. } => {},
        Kind::Pir { l, r } => {
            let ln = render_spec(*l, names).len() as int;
            let rn = render_spec(*r, names).len() as int;
            assert(t == pir(*l, *r));
            lemma_pair_layout(s, i, *l, *r, names);
            lemma_parse_rendered(s, i + 1, *l, names);
            lemma_parse_rendered(s, i + 2 + ln, *r, names);
            lemma_render_head(*r, names);
            lemma_parse_members(s, i, *l, *r, i + 1 + ln, i + 2 + ln + rn, names);
        },
    }
}

/// Every character of an atom can stand in an atom.
proof fn lemma_atom_chars(s: Seq<char>, i: int)
    requires
        0 <= i <= s.len(),
    ensures
        forall|k: int| i <= k < atom_end(s, i) ==> is_sym(#[trigger] s[k]),
    decreases s.len() - i,
{
    if i < s.len() && is_sym(s[i]) {
        lemma_atom_chars(s, i + 1);
    }
}

/// What an atom read from a text does to a readable table: the table stays readable
/// and keeps what it held, and the atom has a name in it.
proof fn lemma_atom_keeps_readable(s: Seq<char>, i: int, names: Seq<Seq<char>>)
    requires
        0 <= i <= s.len(),
        readable(names),
    ensures
        readable(parse_atom_spec(s, i, names).names),
        names.is_prefix_of(parse_atom_spec(s, i, names).names),
        parse_atom_spec(s, i, names).res matches Ok(t) ==> t.is_plain() && t.atoms_below(
            parse_atom_spec(s, i, names).names.len(),
        ),
{
    let j = skip_ws_spec(s, i);
    lemma_skip_ws_bounds(s, i);
    let k = atom_end(s, j);
    lemma_atom_end_bounds(s, j);
    lemma_atom_chars(s, j);
    if k > j {
        let w = s.subrange(j, k);
        assert(is_token(w)) by {
            assert forall|x: int| 0 <= x < w.len() implies is_sym(#[trigger] w[x]) by {
            }
        }
        if names.contains(w) {
        }
    }
}

/// A table that keeps what a table held, which keeps what a third held, keeps what the
/// third held.
proof fn lemma_prefix_trans(a: Seq<Seq<char>>, b: Seq<Seq<char>>, c: Seq<Seq<char>>)
    requires
        a.is_prefix_of(b),
        b.is_prefix_of(c),
    ensures
        a.is_prefix_of(c),
{
}

/// What a pair does to a readable table, given what its two members do.
proof fn lemma_members_keep_readable(s: Seq<char>, j: int, names: Seq<Seq<char>>)
    requires
        0 <= j < s.len(),
        s[j] == '(',
        ({
            let l = parse_expr_spec(s, j + 1, names);
            let r = parse_expr_spec(s, l.at, l.names);
            &&& j < l.at <= s.len()
            &&& readable(l.names)
            &&& names.is_prefix_of(l.names)
            &&& l.res matches Ok(t) ==> {
                &&& t.is_plain()
                &&& t.atoms_below(l.names.len())
                &&& readable(r.names)
                &&& l.names.is_prefix_of(r.names)
                &&& r.res matches Ok(u) ==> u.is_plain() && u.atoms_below(r.names.len())
            }
        }),
    ensures
        readable(parse_spair_spec(s, j, names).names),
        names.is_prefix_of(parse_spair_spec(s, j, names).names),
        parse_spair_spec(s, j, names).res matches Ok(t) ==> t.is_plain() && t.atoms_below(
            parse_spair_spec(s, j, names).names.len(),
        ),
{
    let l = parse_expr_spec(s, j + 1, names);
    if l.res is Ok {
        let r = parse_expr_spec(s, l.at, l.names);
        lemma_prefix_trans(names, l.names, r.names);
        lemma_atoms_below_more(l.res->Ok_0, l.names.len(), r.names.len());
        if r.res is Ok {
        } else {
        }
    } else {
    }
}

/// What parsing does to a readable table: the table stays readable and keeps what it
/// held, and a term that is read is made of atoms and pairs whose atoms all have a name
/// in it. So every table that only the parser has filled is readable.
pub proof fn lemma_parse_keeps_readable(s: Seq<char>, i: int, names: Seq<Seq<char>>)
    requires
        0 <= i <= s.len(),
        readable(names),
    ensures
        readable(parse_expr_spec(s, i, names).names),
        names.is_prefix_of(parse_expr_spec(s, i, names).names),
        parse_expr_spec(s, i, names).res matches Ok(t) ==> t.is_plain() && t.atoms_below(
            parse_expr_spec(s, i, names).names.len(),
        ),
        readable(parse_spair_spec(s, i, names).names),
        names.is_prefix_of(parse_spair_spec(s, i, names).names),
        parse_spair_spec(s, i, names).res matches Ok(t) ==> t.is_plain() && t.atoms_below(
            parse_spair_spec(s, i, names).names.len(),
        ),
    decreases s.len() - i,
{
    let j = skip_ws_spec(s, i);
    lemma_skip_ws_bounds(s, i);
    if j < s.len() {
        if s[j] == '(' {
            let l = parse_expr_spec(s, j + 1, names);
            lemma_parse_keeps_readable(s, j + 1, names);
            lemma_parse_bounds(s, j + 1, names);
            if l.res is Ok {
                lemma_parse_keeps_readable(s, l.at, l.names);
            }
            lemma_members_keep_readable(s, j, names);
        } else {
            lemma_atom_keeps_readable(s, j, names);
        }
    } else {
    }
}

/// Round trip. A pair of atoms and pairs, written under a symbol table that names all
/// its atoms and read back under the same table, is the same term again, and the table
/// is as it was.
pub proof fn law_parse_render(t: Kind, names: Seq<Seq<char>>)
    requires
        readable(names),
        t is Pir,
        t.is_plain(),
        t.atoms_below(names.len()),
    ensures
        parse_spec(render_spec(t, names), names) == (Ok::<Kind, ParserErr>(t), names),
{
    let s = render_spec(t, names);
    assert(s.subrange(0, s.len() as int) =~= s);
    lemma_parse_rendered(s, 0, t, names);
    assert(s[0] == '(');
    assert(skip_ws_spec(s, 0) == 0);
    assert(parse_expr_spec(s, 0, names) == parse_spair_spec(s, 0, names));
    assert(has_more_spec(s, s.len() as int) is None);
}

/// A pair that is read is a pair.
proof fn lemma_spair_is_pair(s: Seq<char>, i: int, names: Seq<Seq<char>>)
    requires
        0 <= i <= s.len(),
    ensures
        parse_spair_spec(s, i, names).res matches Ok(t) ==> t is Pir,
{
    let j = skip_ws_spec(s, i);
    lemma_skip_ws_bounds(s, i);
    if j < s.len() {
        lemma_parse_bounds(s, j + 1, names);
    }
}

/// Reading, writing and reading again. A document that is read under a readable table
/// can be written back under the table as reading left it, and what was written is read
/// as the same term, whatever blanks and comments the document held.
pub proof fn law_read_write_read(s: Seq<char>, names: Seq<Seq<char>>)
    requires
        readable(names),
        parse_spec(s, names).0 is Ok,
    ensures
        readable(parse_spec(s, names).1),
        parse_spec(render_spec(parse_spec(s, names).0->Ok_0, parse_spec(s, names).1), parse_spec(
            s,
            names,
        ).1) == parse_spec(s, names),
{
    let p = parse_spair_spec(s, 0, names);
    lemma_parse_keeps_readable(s, 0, names);
    lemma_spair_is_pair(s, 0, names);
    law_parse_render(p.res->Ok_0, p.names);
}

} // verus!
