//! Tests for the whole expansion: parsing plus generation.

use speculate2::speculate;
use speculate2::token::tok_eq;
use speculate2::token::toks_eq;
use speculate2::token::vec_char_eq;
use speculate2::token::Delim;
use speculate2::token::Tok;

fn chars(s: &str) -> Vec<char> {
    s.chars().collect()
}

fn w(s: &str) -> Tok {
    Tok::Word(chars(s))
}

fn txt(s: &str) -> Tok {
    Tok::Text(chars(s))
}

fn lit(s: &str) -> Tok {
    Tok::Lit(chars(s))
}

fn p(c: char) -> Tok {
    Tok::Punct(c, false)
}

fn brace(ts: Vec<Tok>) -> Tok {
    Tok::Group(Delim::Brace, ts)
}

fn bracket(ts: Vec<Tok>) -> Tok {
    Tok::Group(Delim::Bracket, ts)
}

fn paren(ts: Vec<Tok>) -> Tok {
    Tok::Group(Delim::Paren, ts)
}

/// The directive that precedes the root namespace.
fn header() -> Vec<Tok> {
    vec![p('#'), bracket(vec![w("allow"), paren(vec![w("non_snake_case")])])]
}

/// The preamble inside every generated namespace.
fn prelude() -> Vec<Tok> {
    vec![
        p('#'),
        bracket(vec![w("allow"), paren(vec![w("unused_imports")])]),
        w("use"),
        w("super"),
        Tok::Punct(':', true),
        Tok::Punct(':', false),
        p('*'),
        p(';'),
    ]
}

/// A generated test unit without extra annotations.
fn test_unit(name: &str, body: Vec<Tok>) -> Vec<Tok> {
    vec![
        p('#'),
        bracket(vec![w("test")]),
        w("fn"),
        w(name),
        paren(vec![]),
        brace(body),
    ]
}

/// The contents of the root namespace in `out`, which must start with
/// the header and the `mod` keyword.
fn root_contents(out: &[Tok]) -> &Vec<Tok> {
    assert!(matches!(&out[0], Tok::Punct('#', _)));
    assert!(matches!(&out[2], Tok::Word(wd) if wd == &chars("mod")));
    match &out[4] {
        Tok::Group(Delim::Brace, ts) => ts,
        _ => panic!("expected the root namespace body"),
    }
}

#[test]
fn single_case_inside_group_inlines_setup() {
    // An outer group with one before hook and one nested case: the
    // generated test holds the hook's statements and then the case's.
    fn before_stmts() -> Vec<Tok> {
        vec![w("two"), p('='), lit("1"), p('+'), lit("1")]
    }
    fn case_stmts() -> Vec<Tok> {
        vec![w("check"), p('!'), paren(vec![w("two"), p('+'), lit("1")])]
    }
    let input = vec![
        w("describe"),
        txt("math"),
        brace(vec![
            w("before"),
            brace(before_stmts()),
            w("it"),
            txt("adds"),
            brace(case_stmts()),
        ]),
    ];
    let out = speculate(&input, 0).unwrap();

    let mut body: Vec<Tok> = before_stmts();
    body.extend(case_stmts());
    let mut math_mod: Vec<Tok> = prelude();
    math_mod.extend(test_unit("test_adds", body));
    let mut root_body: Vec<Tok> = prelude();
    root_body.push(w("mod"));
    root_body.push(w("math"));
    root_body.push(brace(math_mod));
    let mut expected = header();
    expected.push(w("mod"));
    expected.push(w("speculate2_0"));
    expected.push(brace(root_body));

    assert!(toks_eq(&out, &expected));
}

#[test]
fn two_top_level_cases_stay_independent() {
    // Two cases directly at the top level: two sibling test units,
    // each holding only its own statements.
    let input = vec![
        w("it"),
        txt("first"),
        brace(vec![w("a"), p(';')]),
        w("it"),
        txt("second"),
        brace(vec![w("b"), p(';')]),
    ];
    let out = speculate(&input, 1).unwrap();

    let mut root_body: Vec<Tok> = prelude();
    root_body.extend(test_unit("test_first", vec![w("a"), p(';')]));
    root_body.extend(test_unit("test_second", vec![w("b"), p(';')]));
    let mut expected = header();
    expected.push(w("mod"));
    expected.push(w("speculate2_1"));
    expected.push(brace(root_body));

    assert!(toks_eq(&out, &expected));
}

#[test]
fn nested_hooks_compose_in_order() {
    // Nested groups: outer setup, inner setup, case body, inner
    // teardown, outer teardown — in exactly that order.
    let input = vec![
        w("describe"),
        txt("outer"),
        brace(vec![
            w("before"),
            brace(vec![w("b1"), p(';')]),
            w("after"),
            brace(vec![w("a1"), p(';')]),
            w("describe"),
            txt("inner"),
            brace(vec![
                w("before"),
                brace(vec![w("b2"), p(';')]),
                w("after"),
                brace(vec![w("a2"), p(';')]),
                w("it"),
                txt("c"),
                brace(vec![w("cc"), p(';')]),
            ]),
        ]),
    ];
    let out = speculate(&input, 2).unwrap();

    let body = vec![
        w("b1"),
        p(';'),
        w("b2"),
        p(';'),
        w("cc"),
        p(';'),
        w("a2"),
        p(';'),
        w("a1"),
        p(';'),
    ];
    let mut inner_mod: Vec<Tok> = prelude();
    inner_mod.extend(test_unit("test_c", body));
    let mut outer_mod: Vec<Tok> = prelude();
    outer_mod.push(w("mod"));
    outer_mod.push(w("inner"));
    outer_mod.push(brace(inner_mod));
    let mut root_body: Vec<Tok> = prelude();
    root_body.push(w("mod"));
    root_body.push(w("outer"));
    root_body.push(brace(outer_mod));
    let mut expected = header();
    expected.push(w("mod"));
    expected.push(w("speculate2_2"));
    expected.push(brace(root_body));

    assert!(toks_eq(&out, &expected));
}

#[test]
fn sibling_hooks_never_leak() {
    // Hooks of one sibling group must not reach a test in the other.
    let input = vec![
        w("describe"),
        txt("left"),
        brace(vec![
            w("before"),
            brace(vec![w("left_setup"), p(';')]),
            w("it"),
            txt("l"),
            brace(vec![w("lb"), p(';')]),
        ]),
        w("describe"),
        txt("right"),
        brace(vec![w("it"), txt("r"), brace(vec![w("rb"), p(';')])]),
    ];
    let out = speculate(&input, 3).unwrap();

    let mut left_mod: Vec<Tok> = prelude();
    left_mod.extend(test_unit("test_l", vec![w("left_setup"), p(';'), w("lb"), p(';')]));
    let mut right_mod: Vec<Tok> = prelude();
    right_mod.extend(test_unit("test_r", vec![w("rb"), p(';')]));
    let mut root_body: Vec<Tok> = prelude();
    root_body.push(w("mod"));
    root_body.push(w("left"));
    root_body.push(brace(left_mod));
    root_body.push(w("mod"));
    root_body.push(w("right"));
    root_body.push(brace(right_mod));
    let mut expected = header();
    expected.push(w("mod"));
    expected.push(w("speculate2_3"));
    expected.push(brace(root_body));

    assert!(toks_eq(&out, &expected));
}

#[test]
fn other_declarations_keep_their_place() {
    // A verbatim declaration is re-emitted unchanged, between its
    // siblings.
    fn decl() -> Vec<Tok> {
        vec![w("const"), w("ZERO"), p(':'), w("i32"), p('='), lit("0"), p(';')]
    }
    let mut input = decl();
    input.extend(vec![w("it"), txt("t"), brace(vec![])]);
    let out = speculate(&input, 4).unwrap();

    let contents = root_contents(&out);
    let mut expected_contents: Vec<Tok> = prelude();
    expected_contents.extend(decl());
    expected_contents.extend(test_unit("test_t", vec![]));
    assert!(toks_eq(contents, &expected_contents));
}

#[test]
fn case_annotations_carry_through() {
    // Annotations on a case reappear verbatim on the generated unit,
    // after the test marker.
    let input = vec![
        p('#'),
        bracket(vec![w("ignore")]),
        p('#'),
        bracket(vec![w("should_panic")]),
        w("test"),
        txt("panics"),
        brace(vec![w("boom"), p(';')]),
    ];
    let out = speculate(&input, 5).unwrap();

    let contents = root_contents(&out);
    let mut expected_contents: Vec<Tok> = prelude();
    expected_contents.push(p('#'));
    expected_contents.push(bracket(vec![w("test")]));
    expected_contents.push(p('#'));
    expected_contents.push(bracket(vec![w("ignore")]));
    expected_contents.push(p('#'));
    expected_contents.push(bracket(vec![w("should_panic")]));
    expected_contents.push(w("fn"));
    expected_contents.push(w("test_panics"));
    expected_contents.push(paren(vec![]));
    expected_contents.push(brace(vec![w("boom"), p(';')]));
    assert!(toks_eq(contents, &expected_contents));
}

#[test]
fn identical_input_distinct_invocations_differ() {
    // The same input expanded under two counter values yields distinct
    // root names.
    let input = vec![w("it"), txt("t"), brace(vec![])];
    let out_a = speculate(&input, 6).unwrap();
    let out_b = speculate(&input, 7).unwrap();
    assert!(!toks_eq(&out_a, &out_b));
    match (&out_a[3], &out_b[3]) {
        (Tok::Word(a), Tok::Word(b)) => {
            assert_eq!(a, &chars("speculate2_6"));
            assert_eq!(b, &chars("speculate2_7"));
        },
        _ => panic!("expected the root names"),
    }
}

#[test]
fn group_label_is_sanitized_in_output() {
    let input = vec![w("describe"), txt("a 1st group!"), brace(vec![])];
    let out = speculate(&input, 8).unwrap();
    let contents = root_contents(&out);
    let mut expected_contents: Vec<Tok> = prelude();
    expected_contents.push(w("mod"));
    expected_contents.push(w("a_1st_group"));
    expected_contents.push(brace(prelude()));
    assert!(toks_eq(contents, &expected_contents));
}

#[test]
fn malformed_input_yields_no_output() {
    let input = vec![w("it"), txt("ok"), brace(vec![]), w("describe"), txt("bad")];
    let e = speculate(&input, 9).unwrap_err();
    assert_eq!(e.pos, 3);
}

#[test]
fn empty_input_yields_empty_root_namespace() {
    let input: Vec<Tok> = vec![];
    let out = speculate(&input, 10).unwrap();
    let mut expected = header();
    expected.push(w("mod"));
    expected.push(w("speculate2_10"));
    expected.push(brace(prelude()));
    assert!(toks_eq(&out, &expected));
}

#[test]
fn root_level_hooks_wrap_top_level_cases() {
    let input = vec![
        w("before"),
        brace(vec![w("s"), p(';')]),
        w("it"),
        txt("t"),
        brace(vec![w("b"), p(';')]),
        w("after"),
        brace(vec![w("e"), p(';')]),
    ];
    let out = speculate(&input, 11).unwrap();
    let contents = root_contents(&out);
    let mut expected_contents: Vec<Tok> = prelude();
    expected_contents.extend(test_unit("test_t", vec![w("s"), p(';'), w("b"), p(';'), w("e"), p(';')]));
    assert!(toks_eq(contents, &expected_contents));
}

#[test]
fn token_equality_is_structural() {
    assert!(tok_eq(&w("abc"), &w("abc")));
    assert!(!tok_eq(&w("abc"), &txt("abc")));
    assert!(!tok_eq(&w("abc"), &w("abd")));
    assert!(tok_eq(&brace(vec![w("x")]), &brace(vec![w("x")])));
    assert!(!tok_eq(&brace(vec![w("x")]), &bracket(vec![w("x")])));
    assert!(vec_char_eq(&chars("ab"), &chars("ab")));
    assert!(!vec_char_eq(&chars("ab"), &chars("abc")));
}
