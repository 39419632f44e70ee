//! The default run: read a document, seed it, reduce it, and say what came of it.

use vstd::prelude::*;
use vstd::string::StringExecFns;
use crate::dict::Dict;
use crate::grammar::{has_more_spec, message_spec, parse_spair_spec, render_spec, ParserErr};
use crate::human::{unparse_into, Parser};
use crate::kind::{pir, Kind};
use crate::text::{decimal_spec, offset, push_decimal};
use crate::theory::{eta, eta_spec, lore, lore_end, lore_end_spec, lore_spec, FUEL};

verus! {

/// The term that a run reduces: the seed around the document `inp` and the default
/// continuation.
pub open spec fn seeded(inp: Kind) -> Kind {
    lore_spec(pir(inp, lore_end_spec()))
}

/// The report of a text that is no pair: `P[!]` and the parse error.
pub open spec fn parse_report(e: ParserErr) -> Seq<char> {
    "P[!]: "@ + message_spec(e) + seq!['\n']
}

/// The report of a text with something behind its pair: `X[!]` and the offset of what
/// follows.
pub open spec fn garbage_report(at: nat) -> Seq<char> {
    "X[!]: garbage after "@ + decimal_spec(at) + " chars\n"@
}

/// The report of the reduction of `exp`: the term as `I`, and then either what it
/// reduces to, as `E[^]`, or, where it does not reduce, the term itself, as `E[H]`.
pub open spec fn eta_report(exp: Kind, names: Seq<Seq<char>>) -> Seq<char> {
    "I: "@ + render_spec(exp, names) + seq!['\n'] + match eta_spec(FUEL as nat, exp) {
        Some(res) => "E[^]: "@ + render_spec(res, names) + seq!['\n'],
        None => "E[H]: "@ + render_spec(exp, names) + seq!['\n'],
    }
}

/// The report of a run on the text `s`: that of the parse error where `s` is no pair,
/// that of the offset where something follows the pair, else that of the reduction of
/// the seeded pair.
pub open spec fn execute_spec(s: Seq<char>) -> Seq<char> {
    let p = parse_spair_spec(s, 0, Seq::empty());
    match p.res {
        Err(e) => parse_report(e),
        Ok(inp) => match has_more_spec(s, p.at) {
            Some(j) => garbage_report(offset(s, j)),
            None => eta_report(seeded(inp), p.names),
        },
    }
}

/// Appends the report of the parse error `err` to `out`.
fn report_parse(out: &mut String, err: ParserErr)
    ensures
        final(out)@ == old(out)@ + parse_report(err),
{
    let msg = err.to_string();
    out.append("P[!]: ");
    out.append(msg.as_str());
    out.push('\n');
}

/// Appends the report of what follows the document at offset `at` to `out`.
fn report_garbage(out: &mut String, at: usize)
    ensures
        final(out)@ == old(out)@ + garbage_report(at as nat),
{
    out.append("X[!]: garbage after ");
    push_decimal(out, at);
    out.append(" chars\n");
}

/// Reduces `exp` and appends the report of the reduction to `out`.
fn report_eta(out: &mut String, exp: Kind, dict: &Dict)
    requires
        dict.wf(),
    ensures
        final(out)@ == old(out)@ + eta_report(exp, dict@),
{
    let mut term = exp;
    out.append("I: ");
    unparse_into(&term, dict, out);
    out.push('\n');
    match eta(&mut term) {
        Ok(res) => {
            out.append("E[^]: ");
            unparse_into(&res, dict, out);
            out.push('\n');
        },
        Err(res) => {
            out.append("E[H]: ");
            unparse_into(res, dict, out);
            out.push('\n');
        },
    }
}

/// Runs the text `input` and appends the report to `out`.
pub fn execute(out: &mut String, input: &str)
    ensures
        final(out)@ == old(out)@ + execute_spec(input@),
{
    let mut dict = Dict::new();
    let mut prs = Parser::new(input);
    let inp = match prs.parse_spair(&mut dict) {
        Ok(k) => k,
        Err(err) => {
            report_parse(out, err);
            return ;
        },
    };
    match prs.has_more() {
        Some(at) => {
            proof {
                prs.lemma_at_bounds();
                prs.lemma_offset_fits(prs.at());
            }
            report_garbage(out, at);
            return ;
        },
        None => {},
    }
    report_eta(out, lore(Kind::from((inp, lore_end()))), &dict);
}

} // verus!
