use spair::dict::Dict;
use spair::grammar::ParserErr;
use spair::human::{debug_into, parse, unparse, Parser, Prsable, Prsr};
use spair::kind::Kind;
use spair::human::View;
use spair::text::{push_decimal, width_of};

fn atom(id: usize) -> Kind {
    Kind::from(id)
}

fn pair(l: Kind, r: Kind) -> Kind {
    Kind::from((l, r))
}

fn read(text: &str) -> (Result<Kind, ParserErr>, Dict) {
    let mut dict = Dict::new();
    let res = parse(text, &mut dict);
    (res, dict)
}

fn decimal(n: usize) -> String {
    let mut out = String::new();
    push_decimal(&mut out, n);
    out
}

#[test]
fn interning_counts_up_from_zero() {
    let mut dict = Dict::new();
    assert_eq!(dict.get(String::from("x")), Some(0));
    assert_eq!(dict.get(String::from("y")), Some(1));
    assert_eq!(dict.get(String::from("z")), Some(2));
}

#[test]
fn interning_twice_gives_the_same_identifier() {
    let mut dict = Dict::new();
    let first = dict.get(String::from("lambda"));
    dict.get(String::from("other"));
    assert_eq!(dict.get(String::from("lambda")), first);
    assert_eq!(dict.get(String::from("lambda")), Some(0));
}

#[test]
fn different_names_get_different_identifiers() {
    let mut dict = Dict::new();
    let a = dict.get(String::from("a"));
    let b = dict.get(String::from("b"));
    let ab = dict.get(String::from("ab"));
    assert!(a != b && a != ab && b != ab);
}

#[test]
fn names_are_found_by_identifier() {
    let mut dict = Dict::new();
    dict.get(String::from("first"));
    dict.get(String::from("second"));
    assert_eq!(dict.get_name(0), Some("first"));
    assert_eq!(dict.get_name(1), Some("second"));
    assert_eq!(dict.get_name(2), None);
}

#[test]
fn empty_table_knows_no_name() {
    let dict = Dict::new();
    assert_eq!(dict.get_name(0), None);
}

#[test]
fn widths_follow_utf8() {
    assert_eq!(width_of('a'), 1);
    assert_eq!(width_of('\u{7f}'), 1);
    assert_eq!(width_of('\u{80}'), 2);
    assert_eq!(width_of('é'), 2);
    assert_eq!(width_of('\u{7ff}'), 2);
    assert_eq!(width_of('\u{800}'), 3);
    assert_eq!(width_of('€'), 3);
    assert_eq!(width_of('\u{ffff}'), 3);
    assert_eq!(width_of('\u{10000}'), 4);
    assert_eq!(width_of('🦀'), 4);
    for c in ['a', 'é', '€', '🦀'] {
        assert_eq!(width_of(c), c.len_utf8());
    }
}

#[test]
fn numbers_are_written_in_decimal() {
    assert_eq!(decimal(0), "0");
    assert_eq!(decimal(7), "7");
    assert_eq!(decimal(10), "10");
    assert_eq!(decimal(305), "305");
    assert_eq!(decimal(usize::MAX), usize::MAX.to_string());
}

#[test]
fn cursor_walks_the_text() {
    let mut it = Prsable::new("aé)");
    assert_eq!(it.pos(), 0);
    assert_eq!(it.peek(), Some('a'));
    assert_eq!(it.next(), Some('a'));
    assert_eq!(it.pos(), 1);
    assert_eq!(it.next(), Some('é'));
    assert_eq!(it.pos(), 3);
    assert_eq!(it.peek(), Some(')'));
    assert_eq!(it.next(), Some(')'));
    assert_eq!(it.pos(), 4);
    assert_eq!(it.peek(), None);
    assert_eq!(it.next(), None);
    assert_eq!(it.pos(), 4);
}

#[test]
fn atom_characters_exclude_blanks_and_delimiters() {
    for c in [' ', '\t', '\r', '\n', '(', ')', ';'] {
        assert!(!Parser::is_sym_char(c));
    }
    for c in ['a', 'Z', '0', '_', '#', ':', '\'', '"', 'é', '\u{b}'] {
        assert!(Parser::is_sym_char(c));
    }
}

#[test]
fn document_of_two_atoms() {
    let (res, dict) = read("(a b)");
    assert!(res == Ok(pair(atom(0), atom(1))));
    assert_eq!(dict.get_name(0), Some("a"));
    assert_eq!(dict.get_name(1), Some("b"));
    assert_eq!(dict.get_name(2), None);
}

#[test]
fn repeated_atoms_share_their_identifier() {
    let (res, _) = read("((a b) (b a))");
    assert!(res == Ok(pair(pair(atom(0), atom(1)), pair(atom(1), atom(0)))));
}

#[test]
fn atoms_run_to_the_next_delimiter() {
    let (res, dict) = read("(x->y!(q'z #1))");
    assert!(res == Ok(pair(atom(0), pair(atom(1), atom(2)))));
    assert_eq!(dict.get_name(0), Some("x->y!"));
    assert_eq!(dict.get_name(1), Some("q'z"));
    assert_eq!(dict.get_name(2), Some("#1"));
}

#[test]
fn blanks_may_stand_anywhere_between_tokens() {
    let (res, _) = read(" \t\r\n( a\n\n(\tb c )\r\n)  \n");
    assert!(res == Ok(pair(atom(0), pair(atom(1), atom(2)))));
}

#[test]
fn comments_run_to_the_end_of_the_line() {
    let (res, dict) = read("; a pair\n(a ; first\n b) ; done");
    assert!(res == Ok(pair(atom(0), atom(1))));
    assert_eq!(dict.get_name(1), Some("b"));
    assert_eq!(dict.get_name(2), None);
}

#[test]
fn comment_ends_an_atom() {
    let (res, dict) = read("(a;b\nc)");
    assert!(res == Ok(pair(atom(0), atom(1))));
    assert_eq!(dict.get_name(0), Some("a"));
    assert_eq!(dict.get_name(1), Some("c"));
}

#[test]
fn character_behind_a_comment_is_kept() {
    let (res, _) = read(";\n(a b)");
    assert!(res == Ok(pair(atom(0), atom(1))));
    let (res, _) = read("(a b);\n)");
    assert!(res == Err(ParserErr::Unexpected { pos: 7 }));
}

#[test]
fn bare_atom_is_no_document() {
    let (res, _) = read("a");
    assert!(res == Err(ParserErr::Expected { what: '(', pos: 1 }));
    let (res, _) = read("  atom");
    assert!(res == Err(ParserErr::Expected { what: '(', pos: 3 }));
}

#[test]
fn empty_text_is_no_document() {
    let (res, _) = read("");
    assert!(res == Err(ParserErr::Expected { what: '(', pos: 0 }));
    let (res, _) = read(" \n; nothing");
    assert!(res == Err(ParserErr::Expected { what: '(', pos: 11 }));
}

#[test]
fn pair_without_members_lacks_an_atom() {
    let (res, _) = read("()");
    assert!(res == Err(ParserErr::NeedAtom { pos: 1 }));
}

#[test]
fn pair_with_one_member_lacks_an_atom() {
    let (res, dict) = read("(a )");
    assert!(res == Err(ParserErr::NeedAtom { pos: 3 }));
    assert_eq!(dict.get_name(0), Some("a"));
}

#[test]
fn text_that_ends_inside_a_pair() {
    let (res, _) = read("(");
    assert!(res == Err(ParserErr::EndOfInput { pos: 1 }));
    let (res, _) = read("(a");
    assert!(res == Err(ParserErr::EndOfInput { pos: 2 }));
    let (res, _) = read("(a (b c");
    assert!(res == Err(ParserErr::Expected { what: ')', pos: 7 }));
    let (res, _) = read("(a b ");
    assert!(res == Err(ParserErr::Expected { what: ')', pos: 5 }));
}

#[test]
fn pair_with_three_members() {
    let (res, dict) = read("(a b c)");
    assert!(res == Err(ParserErr::PairHasMore { pos: 5 }));
    assert_eq!(dict.get_name(1), Some("b"));
    assert_eq!(dict.get_name(2), None);
    let (res, _) = read("(a (b c (d e)))");
    assert!(res == Err(ParserErr::PairHasMore { pos: 8 }));
}

#[test]
fn text_behind_the_document() {
    let (res, _) = read("(a b) c");
    assert!(res == Err(ParserErr::Unexpected { pos: 6 }));
    let (res, _) = read("(a b)(c d)");
    assert!(res == Err(ParserErr::Unexpected { pos: 5 }));
    let (res, _) = read("(a b) ; fine\n )");
    assert!(res == Err(ParserErr::Unexpected { pos: 14 }));
}

#[test]
fn offsets_count_bytes() {
    let (res, dict) = read("(é 🦀 c)");
    assert!(res == Err(ParserErr::PairHasMore { pos: 9 }));
    assert_eq!(dict.get_name(0), Some("é"));
    assert_eq!(dict.get_name(1), Some("🦀"));
}

#[test]
fn expect_consumes_what_stands_there() {
    let mut prs = Parser::new("  x)");
    assert_eq!(prs.expect(')'), Err(ParserErr::Expected { what: ')', pos: 3 }));
    assert_eq!(prs.expect(')'), Ok(()));
    assert_eq!(prs.expect(')'), Err(ParserErr::Expected { what: ')', pos: 4 }));
}

#[test]
fn skipping_stops_at_the_first_token() {
    let mut prs = Parser::new(" ; c\n\t x");
    prs.skip_ws();
    assert_eq!(prs.has_more(), Some(7));
    let mut prs = Parser::new(" ; c\n\t ");
    assert_eq!(prs.has_more(), None);
}

#[test]
fn parser_reads_expressions_one_by_one() {
    let mut dict = Dict::new();
    let mut prs = Parser::new("a (b a) c");
    assert!(prs.parse_atom(&mut dict) == Ok(atom(0)));
    assert!(prs.parse_expr(&mut dict) == Ok(pair(atom(1), atom(0))));
    assert_eq!(prs.has_more(), Some(8));
    assert!(prs.parse_expr(&mut dict) == Ok(atom(2)));
    assert_eq!(prs.has_more(), None);
    assert!(prs.parse_expr(&mut dict) == Err(ParserErr::EndOfInput { pos: 9 }));
    assert!(prs.parse_atom(&mut dict) == Err(ParserErr::NeedAtom { pos: 9 }));
}

#[test]
fn parser_answers_to_its_short_name() {
    let mut dict = Dict::new();
    let mut prs = Prsr::new("(a (b a))");
    assert!(prs.parse_spair(&mut dict) == Ok(pair(atom(0), pair(atom(1), atom(0)))));
    assert_eq!(prs.has_more(), None);
}

#[test]
fn messages_name_the_offset() {
    assert_eq!(ParserErr::Expected { what: ')', pos: 12 }.to_string(), "expected ')' at 12");
    assert_eq!(ParserErr::NeedAtom { pos: 0 }.to_string(), "expected an atom at 0");
    assert_eq!(ParserErr::NamespaceFull { pos: 7 }.to_string(), "namespace full while at 7");
    assert_eq!(ParserErr::EndOfInput { pos: 40 }.to_string(), "end of input at 40");
    assert_eq!(
        ParserErr::PairHasMore { pos: 105 }.to_string(),
        "pair has more than 2 members at 105"
    );
    assert_eq!(ParserErr::Unexpected { pos: 3 }.to_string(), "unexpected character at 3");
}

#[test]
fn text_of_atoms_and_pairs() {
    let (res, dict) = read("(\tfoo (bar\n foo))");
    let t = res.unwrap();
    assert_eq!(unparse(&t, &dict), "(foo (bar foo))");
    assert_eq!(View::new(&t, &dict).to_string(), "(foo (bar foo))");
}

#[test]
fn text_of_leaves_without_a_name() {
    let (_, dict) = read("(a b)");
    assert_eq!(unparse(&atom(1), &dict), "b");
    assert_eq!(unparse(&atom(2), &dict), "#I:2");
    assert_eq!(unparse(&atom(1234), &dict), "#I:1234");
    assert_eq!(unparse(&Kind::Zta { sid: None, hid: 0 }, &dict), "#Z:0");
    assert_eq!(unparse(&Kind::Zta { sid: None, hid: 17 }, &dict), "#Z:17");
    assert_eq!(unparse(&Kind::Zta { sid: Some(1), hid: 17 }, &dict), "b");
    assert_eq!(unparse(&Kind::Zta { sid: Some(5), hid: 17 }, &dict), "#Z:17:5");
    let t = pair(atom(0), Kind::Zta { sid: None, hid: 1 });
    assert_eq!(unparse(&t, &dict), "(a #Z:1)");
}

#[test]
fn bare_form_shows_identifiers() {
    let t = pair(atom(3), pair(Kind::Zta { sid: Some(2), hid: 1 }, Kind::Zta { sid: None, hid: 0 }));
    let mut out = String::from(">");
    debug_into(&t, &mut out);
    assert_eq!(out, ">(I:3 (Z:1:2 Z:0))");
}

#[test]
fn reading_back_what_was_written() {
    let (res, mut dict) = read("((f (x y)) ((y x) f))");
    let t = res.unwrap();
    let text = unparse(&t, &dict);
    assert_eq!(text, "((f (x y)) ((y x) f))");
    assert!(parse(&text, &mut dict) == Ok(t));
    assert_eq!(dict.get_name(3), None);
}

#[test]
fn reading_back_a_built_term() {
    let mut dict = Dict::new();
    dict.get(String::from("p"));
    dict.get(String::from("q"));
    let t = pair(pair(atom(1), atom(1)), pair(atom(0), pair(atom(1), atom(0))));
    let text = unparse(&t, &dict);
    assert_eq!(text, "((q q) (p (q p)))");
    assert!(parse(&text, &mut dict) == Ok(t));
}

#[test]
fn operations_do_not_read_back() {
    let mut dict = Dict::new();
    let t = pair(Kind::Zta { sid: None, hid: 0 }, Kind::Zta { sid: None, hid: 1 });
    let text = unparse(&t, &dict);
    assert_eq!(text, "(#Z:0 #Z:1)");
    assert!(parse(&text, &mut dict) == Ok(pair(atom(0), atom(1))));
    assert_eq!(dict.get_name(0), Some("#Z:0"));
}

#[test]
fn unnamed_atoms_do_not_read_back() {
    let mut dict = Dict::new();
    dict.get(String::from("a"));
    let t = pair(atom(0), atom(7));
    let text = unparse(&t, &dict);
    assert_eq!(text, "(a #I:7)");
    assert!(parse(&text, &mut dict) == Ok(pair(atom(0), atom(1))));
}

#[test]
fn names_with_blanks_do_not_read_back() {
    let mut dict = Dict::new();
    dict.get(String::from("a b"));
    dict.get(String::from("c"));
    let t = pair(atom(0), atom(1));
    let text = unparse(&t, &dict);
    assert_eq!(text, "(a b c)");
    assert!(parse(&text, &mut dict) == Err(ParserErr::PairHasMore { pos: 5 }));
}

#[test]
fn writing_back_normalizes_blanks_and_comments() {
    let (res, dict) = read("( a   ; one\n  ( b\tc ) )\n");
    assert_eq!(unparse(&res.unwrap(), &dict), "(a (b c))");
}
