//! Tests for the grammar parser.

use speculate2::block::Block;
use speculate2::block::Describe;
use speculate2::block::DescribeBlock;
use speculate2::block::It;
use speculate2::block::Root;
use speculate2::token::Delim;
use speculate2::token::Tok;

fn chars(s: &str) -> Vec<char> {
    s.chars().collect()
}

fn w(s: &str) -> Tok {
    Tok::Word(chars(s))
}

fn txt(s: &str) -> Tok {
    Tok::Text(chars(s))
}

fn lit(s: &str) -> Tok {
    Tok::Lit(chars(s))
}

fn p(c: char) -> Tok {
    Tok::Punct(c, false)
}

fn brace(ts: Vec<Tok>) -> Tok {
    Tok::Group(Delim::Brace, ts)
}

#[test]
fn parses_single_case() {
    let toks = vec![w("it"), txt("works"), brace(vec![w("run"), p(';')])];
    let root = Root::parse(&toks).unwrap();
    assert_eq!(root.0.name, chars("speculate"));
    assert_eq!(root.0.before.len(), 0);
    assert_eq!(root.0.after.len(), 0);
    assert_eq!(root.0.blocks.len(), 1);
    match &root.0.blocks[0] {
        Block::It(it) => {
            assert_eq!(it.name, chars("works"));
            assert_eq!(it.attributes.len(), 0);
            assert_eq!(it.block.len(), 2);
        },
        _ => panic!("expected a case"),
    }
}

#[test]
fn parses_group_with_hooks() {
    let toks = vec![
        w("describe"),
        txt("a group"),
        brace(vec![
            w("before"),
            brace(vec![w("setup"), p(';')]),
            w("after"),
            brace(vec![w("teardown"), p(';')]),
            w("test"),
            txt("t"),
            brace(vec![]),
        ]),
    ];
    let root = Root::parse(&toks).unwrap();
    assert_eq!(root.0.blocks.len(), 1);
    match &root.0.blocks[0] {
        Block::Describe(d) => {
            assert_eq!(d.name, chars("a_group"));
            assert_eq!(d.before.len(), 1);
            assert_eq!(d.after.len(), 1);
            assert_eq!(d.blocks.len(), 1);
            assert!(matches!(d.blocks[0], Block::It(_)));
        },
        _ => panic!("expected a group"),
    }
}

#[test]
fn context_and_test_are_synonyms() {
    let toks = vec![w("context"), txt("g"), brace(vec![w("test"), txt("t"), brace(vec![])])];
    let root = Root::parse(&toks).unwrap();
    match &root.0.blocks[0] {
        Block::Describe(d) => {
            assert_eq!(d.name, chars("g"));
            assert!(matches!(d.blocks[0], Block::It(_)));
        },
        _ => panic!("expected a group"),
    }
}

#[test]
fn other_declaration_passes_through() {
    let toks = vec![w("const"), w("ZERO"), p(':'), w("i32"), p('='), lit("0"), p(';')];
    let root = Root::parse(&toks).unwrap();
    assert_eq!(root.0.blocks.len(), 1);
    match &root.0.blocks[0] {
        Block::Item(ts) => assert_eq!(ts.len(), 7),
        _ => panic!("expected a verbatim declaration"),
    }
}

#[test]
fn initializer_brace_does_not_end_declaration() {
    let toks = vec![
        w("const"),
        w("K"),
        p(':'),
        w("i32"),
        p('='),
        brace(vec![lit("1")]),
        p(';'),
        w("it"),
        txt("t"),
        brace(vec![]),
    ];
    let root = Root::parse(&toks).unwrap();
    assert_eq!(root.0.blocks.len(), 2);
    match &root.0.blocks[0] {
        Block::Item(ts) => assert_eq!(ts.len(), 7),
        _ => panic!("expected a verbatim declaration"),
    }
    assert!(matches!(root.0.blocks[1], Block::It(_)));
}

#[test]
fn fn_declaration_ends_at_brace() {
    let toks = vec![
        w("fn"),
        w("add"),
        Tok::Group(Delim::Paren, vec![]),
        brace(vec![lit("0")]),
        w("it"),
        txt("t"),
        brace(vec![]),
    ];
    let root = Root::parse(&toks).unwrap();
    assert_eq!(root.0.blocks.len(), 2);
    match &root.0.blocks[0] {
        Block::Item(ts) => assert_eq!(ts.len(), 4),
        _ => panic!("expected a verbatim declaration"),
    }
}

#[test]
fn return_type_generics_do_not_open_an_initializer() {
    // fn nums() -> impl Iterator<Item = u32> { ... } followed by a case:
    // the `=` inside the generics must not hide the body brace.
    let toks = vec![
        w("fn"),
        w("nums"),
        Tok::Group(Delim::Paren, vec![]),
        Tok::Punct('-', true),
        p('>'),
        w("impl"),
        w("Iterator"),
        p('<'),
        w("Item"),
        p('='),
        w("u32"),
        p('>'),
        brace(vec![]),
        w("it"),
        txt("t"),
        brace(vec![]),
    ];
    let root = Root::parse(&toks).unwrap();
    assert_eq!(root.0.blocks.len(), 2);
    match &root.0.blocks[0] {
        Block::Item(ts) => assert_eq!(ts.len(), 13),
        _ => panic!("expected a verbatim declaration"),
    }
    assert!(matches!(root.0.blocks[1], Block::It(_)));
}

#[test]
fn generic_default_does_not_open_an_initializer() {
    // struct S<T = u8> { } followed by a case.
    let toks = vec![
        w("struct"),
        w("S"),
        p('<'),
        w("T"),
        p('='),
        w("u8"),
        p('>'),
        brace(vec![]),
        w("it"),
        txt("t"),
        brace(vec![]),
    ];
    let root = Root::parse(&toks).unwrap();
    assert_eq!(root.0.blocks.len(), 2);
    match &root.0.blocks[0] {
        Block::Item(ts) => assert_eq!(ts.len(), 8),
        _ => panic!("expected a verbatim declaration"),
    }
    assert!(matches!(root.0.blocks[1], Block::It(_)));
}

#[test]
fn nested_generic_equals_stays_in_bounds() {
    // impl<T: Iterator<Item = u8>> X for Y { } — the `=` sits two
    // angle levels deep, and the joined `>` `>` closes both.
    let toks = vec![
        w("impl"),
        p('<'),
        w("T"),
        p(':'),
        w("Iterator"),
        p('<'),
        w("Item"),
        p('='),
        w("u8"),
        Tok::Punct('>', true),
        p('>'),
        w("X"),
        w("for"),
        w("Y"),
        brace(vec![]),
    ];
    let root = Root::parse(&toks).unwrap();
    assert_eq!(root.0.blocks.len(), 1);
    match &root.0.blocks[0] {
        Block::Item(ts) => assert_eq!(ts.len(), 15),
        _ => panic!("expected a verbatim declaration"),
    }
}

#[test]
fn initializer_with_comparison_ends_at_semicolon() {
    // static B: bool = 1 < 2; — the `<` after the `=` is a comparison,
    // and the declaration still ends at the semicolon.
    let toks = vec![
        w("static"),
        w("B"),
        p(':'),
        w("bool"),
        p('='),
        lit("1"),
        p('<'),
        lit("2"),
        p(';'),
        w("it"),
        txt("t"),
        brace(vec![]),
    ];
    let root = Root::parse(&toks).unwrap();
    assert_eq!(root.0.blocks.len(), 2);
    match &root.0.blocks[0] {
        Block::Item(ts) => assert_eq!(ts.len(), 9),
        _ => panic!("expected a verbatim declaration"),
    }
}

#[test]
fn case_attributes_collected() {
    let toks = vec![
        p('#'),
        Tok::Group(Delim::Bracket, vec![w("ignore")]),
        w("it"),
        txt("skipped"),
        brace(vec![]),
    ];
    let root = Root::parse(&toks).unwrap();
    match &root.0.blocks[0] {
        Block::It(it) => {
            assert_eq!(it.attributes.len(), 1);
            assert_eq!(it.attributes[0].len(), 1);
        },
        _ => panic!("expected a case"),
    }
}

#[test]
fn truncated_group_is_an_error() {
    let toks = vec![w("describe"), txt("x")];
    let e = Root::parse(&toks).unwrap_err();
    assert_eq!(e.pos, 0);
}

#[test]
fn unterminated_declaration_is_an_error() {
    let toks = vec![w("fn"), w("f")];
    let e = Root::parse(&toks).unwrap_err();
    assert_eq!(e.pos, 0);
}

#[test]
fn error_inside_nested_group_propagates() {
    let toks = vec![w("describe"), txt("x"), brace(vec![w("it"), txt("y")])];
    assert!(Root::parse(&toks).is_err());
}

#[test]
fn error_position_names_the_offending_item() {
    let toks = vec![w("it"), txt("ok"), brace(vec![]), w("describe"), txt("bad")];
    let e = Root::parse(&toks).unwrap_err();
    assert_eq!(e.pos, 3);
}

#[test]
fn hook_parses_at_item_level() {
    let toks = vec![w("before"), brace(vec![w("x"), p(';')])];
    let (db, next) = DescribeBlock::parse(&toks, 0).unwrap();
    assert_eq!(next, 2);
    match db {
        DescribeBlock::Before(ts) => assert_eq!(ts.len(), 2),
        _ => panic!("expected a before hook"),
    }
}

#[test]
fn group_takes_priority_over_declaration() {
    let toks = vec![w("describe"), txt("g"), brace(vec![])];
    let (b, next) = Block::parse(&toks, 0).unwrap();
    assert_eq!(next, 3);
    assert!(matches!(b, Block::Describe(_)));
}

#[test]
fn direct_case_parse_consumes_exactly_its_tokens() {
    let toks = vec![w("test"), txt("n"), brace(vec![]), w("extra")];
    let (it, next) = It::parse(&toks, 0).unwrap();
    assert_eq!(next, 3);
    assert_eq!(it.name, chars("n"));
}

#[test]
fn direct_group_parse_fails_without_label() {
    let toks = vec![w("describe"), w("not_a_label"), brace(vec![])];
    assert!(Describe::parse(&toks, 0).is_none());
}
