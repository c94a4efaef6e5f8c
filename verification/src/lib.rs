//! A source-to-source expander for a nested, BDD-style test-description
//! grammar: `describe`/`context` groups, `before`/`after` hooks and
//! `it`/`test` cases are parsed out of a stream of otherwise arbitrary
//! declarations and rewritten into nested namespaces of plain test
//! functions, with inherited setup and teardown inlined into each body.
//!
//! The crate works on its own token model. Callers tokenize their
//! surface syntax into [`token::Tok`] values, run [`speculate`], and
//! render the resulting tokens back out. Each invocation passes a
//! distinct counter value, from which the synthesized root namespace
//! takes a name that is unique per counter value.

use vstd::prelude::*;

pub mod block;
pub mod extension;
pub mod generator;
pub mod token;

use crate::block::spec_fail_at;
use crate::block::spec_parse_root;
use crate::block::Describe;
use crate::block::DescribeView;
use crate::block::ParseErr;
use crate::block::Root;
use crate::generator::attr_tokens;
use crate::generator::kw_allow;
use crate::generator::kw_allow_vec;
use crate::generator::spec_gen_describe;
use crate::generator::Generate;
use crate::token::lemma_toks_view_app;
use crate::token::lemma_toks_view_index;
use crate::token::lemma_toks_view_len;
use crate::token::toks_view;
use crate::token::Delim;
use crate::token::Tok;
use crate::token::TokView;

verus! {

broadcast use lemma_toks_view_len, lemma_toks_view_index;

/// The prefix of every synthesized root name; the invocation counter
/// follows it in decimal.
pub open spec fn root_prefix() -> Seq<char> {
    seq!['s', 'p', 'e', 'c', 'u', 'l', 'a', 't', 'e', '2', '_']
}

pub open spec fn digit_char(d: int) -> char {
    if d == 0 {
        '0'
    } else if d == 1 {
        '1'
    } else if d == 2 {
        '2'
    } else if d == 3 {
        '3'
    } else if d == 4 {
        '4'
    } else if d == 5 {
        '5'
    } else if d == 6 {
        '6'
    } else if d == 7 {
        '7'
    } else if d == 8 {
        '8'
    } else {
        '9'
    }
}

/// The decimal spelling of a counter value, most significant digit
/// first, without leading zeros (a single zero for zero).
pub open spec fn spec_dec_digits(n: nat) -> Seq<char>
    decreases n,
{
    if n < 10 {
        seq![digit_char(n as int)]
    } else {
        spec_dec_digits(n / 10).push(digit_char((n % 10) as int))
    }
}

/// The root name of one invocation: the fixed prefix followed by the
/// counter value in decimal.
pub open spec fn spec_root_ident(n: nat) -> Seq<char> {
    root_prefix() + spec_dec_digits(n)
}

spec fn digit_val(c: char) -> int {
    if c == '0' {
        0
    } else if c == '1' {
        1
    } else if c == '2' {
        2
    } else if c == '3' {
        3
    } else if c == '4' {
        4
    } else if c == '5' {
        5
    } else if c == '6' {
        6
    } else if c == '7' {
        7
    } else if c == '8' {
        8
    } else {
        9
    }
}

spec fn spec_dec_val(s: Seq<char>) -> int
    decreases s.len(),
{
    if s.len() == 0 {
        0
    } else {
        spec_dec_val(s.drop_last()) * 10 + digit_val(s.last())
    }
}

proof fn lemma_digit_roundtrip(d: int)
    requires
        0 <= d < 10,
    ensures
        digit_val(digit_char(d)) == d,
{
}

proof fn lemma_dec_val_inverse(n: nat)
    ensures
        spec_dec_val(spec_dec_digits(n)) == n,
    decreases n,
{
    if n < 10 {
        lemma_digit_roundtrip(n as int);
        let s = seq![digit_char(n as int)];
        assert(spec_dec_digits(n) == s);
        assert(s.drop_last() =~= Seq::<char>::empty());
        assert(s.last() == digit_char(n as int));
        assert(spec_dec_val(Seq::<char>::empty()) == 0);
        assert(spec_dec_val(s) == spec_dec_val(s.drop_last()) * 10 + digit_val(s.last()));
        assert(spec_dec_val(s) == digit_val(digit_char(n as int)));
    } else {
        lemma_dec_val_inverse(n / 10);
        lemma_digit_roundtrip((n % 10) as int);
        let s = spec_dec_digits(n);
        assert(s == spec_dec_digits(n / 10).push(digit_char((n % 10) as int)));
        assert(s.drop_last() =~= spec_dec_digits(n / 10));
        assert(s.last() == digit_char((n % 10) as int));
        assert(s.len() == spec_dec_digits(n / 10).len() + 1);
        assert(spec_dec_val(s) == spec_dec_val(s.drop_last()) * 10 + digit_val(s.last()));
        assert(spec_dec_val(s) == (n / 10) * 10 + (n % 10));
    }
}

/// Law (name uniqueness): two invocations with distinct counter values
/// synthesize distinct root names, whatever the input.
pub proof fn lemma_root_name_unique(a: u64, b: u64)
    ensures
        a != b ==> spec_root_ident(a as nat) != spec_root_ident(b as nat),
{
    if a != b {
        lemma_dec_val_inverse(a as nat);
        lemma_dec_val_inverse(b as nat);
        if spec_root_ident(a as nat) == spec_root_ident(b as nat) {
            let p = root_prefix();
            let x = spec_dec_digits(a as nat);
            let y = spec_dec_digits(b as nat);
            assert((p + x).len() == (p + y).len());
            assert forall|i: int| 0 <= i < x.len() implies x[i] == y[i] by {
                assert(x[i] == (p + x)[p.len() + i]);
                assert(y[i] == (p + y)[p.len() + i]);
            }
            assert(x =~= y);
            assert(false);
        }
    }
}

fn digit_char_exec(d: u64) -> (r: char)
    requires
        d < 10,
    ensures
        r == digit_char(d as int),
{
    if d == 0 {
        '0'
    } else if d == 1 {
        '1'
    } else if d == 2 {
        '2'
    } else if d == 3 {
        '3'
    } else if d == 4 {
        '4'
    } else if d == 5 {
        '5'
    } else if d == 6 {
        '6'
    } else if d == 7 {
        '7'
    } else if d == 8 {
        '8'
    } else {
        '9'
    }
}

fn dec_digits(n: u64) -> (r: Vec<char>)
    ensures
        r@ == spec_dec_digits(n as nat),
    decreases n,
{
    if n < 10 {
        let mut r: Vec<char> = Vec::new();
        r.push(digit_char_exec(n));
        proof {
            assert(r@ =~= seq![digit_char(n as int)]);
        }
        r
    } else {
        let mut r = dec_digits(n / 10);
        r.push(digit_char_exec(n % 10));
        r
    }
}

/// Builds the root name of the invocation with counter value `n`.
pub fn root_ident(n: u64) -> (r: Vec<char>)
    ensures
        r@ == spec_root_ident(n as nat),
{
    let mut r: Vec<char> = vec!['s', 'p', 'e', 'c', 'u', 'l', 'a', 't', 'e', '2', '_'];
    proof {
        assert(r@ =~= root_prefix());
    }
    let mut d = dec_digits(n);
    r.append(&mut d);
    r
}

pub open spec fn kw_non_snake_case() -> Seq<char> {
    seq!['n', 'o', 'n', '_', 's', 'n', 'a', 'k', 'e', '_', 'c', 'a', 's', 'e']
}

/// The directive emitted ahead of the root namespace, suppressing
/// warnings about the casing of names derived from free text.
pub open spec fn allow_header() -> Seq<TokView> {
    attr_tokens(
        seq![
            TokView::Word(kw_allow()),
            TokView::Group(Delim::Paren, seq![TokView::Word(kw_non_snake_case())]),
        ],
    )
}

fn kw_non_snake_case_vec() -> (r: Vec<char>)
    ensures
        r@ == kw_non_snake_case(),
{
    let r: Vec<char> = vec!['n', 'o', 'n', '_', 's', 'n', 'a', 'k', 'e', '_', 'c', 'a', 's', 'e'];
    proof {
        assert(r@ =~= kw_non_snake_case());
    }
    r
}

/// The whole expansion of one invocation: the parsed scope, renamed
/// after the invocation's counter value, generated and preceded by the
/// casing directive; nothing when the input does not parse.
pub open spec fn spec_speculate(ts: Seq<TokView>, n: nat) -> Option<Seq<TokView>> {
    match spec_parse_root(ts) {
        Some(d) => Some(
            allow_header() + spec_gen_describe(
                DescribeView {
                    name: spec_root_ident(n),
                    before: d.before,
                    after: d.after,
                    blocks: d.blocks,
                },
                None,
            ),
        ),
        None => None,
    }
}

/// Expands one invocation. `invocation` is the value of the caller's
/// process-wide counter; passing a fresh value for each call makes the
/// emitted root names unique. Succeeds exactly when the input parses,
/// and fails otherwise, emitting nothing and reporting the position of
/// the first offending item.
pub fn speculate(input: &Vec<Tok>, invocation: u64) -> (r: Result<Vec<Tok>, ParseErr>)
    ensures
        match r {
            Ok(out) => spec_speculate(toks_view(input@), invocation as nat) == Some(
                toks_view(out@),
            ),
            Err(e) => spec_speculate(toks_view(input@), invocation as nat) is None && e.pos
                as int == spec_fail_at(toks_view(input@), 0) && e.pos <= input@.len(),
        },
{
    match Root::parse(input) {
        Err(e) => Err(e),
        Ok(root) => {
            let ghost rootv = root@;
            let Root(d) = root;
            let name = root_ident(invocation);
            let renamed = Describe { name, before: d.before, after: d.after, blocks: d.blocks };
            let mut out: Vec<Tok> = Vec::new();
            out.push(Tok::Punct('#', false));
            let mut paren: Vec<Tok> = Vec::new();
            paren.push(Tok::Word(kw_non_snake_case_vec()));
            proof {
                assert(toks_view(paren@) =~= seq![TokView::Word(kw_non_snake_case())]);
            }
            let mut bracket: Vec<Tok> = Vec::new();
            bracket.push(Tok::Word(kw_allow_vec()));
            let ghost pv = toks_view(paren@);
            bracket.push(Tok::Group(Delim::Paren, paren));
            proof {
                assert(toks_view(bracket@) =~= seq![
                    TokView::Word(kw_allow()),
                    TokView::Group(Delim::Paren, pv),
                ]);
            }
            out.push(Tok::Group(Delim::Bracket, bracket));
            proof {
                assert(toks_view(out@) =~~= allow_header());
            }
            let ghost out0 = out@;
            let mut body = renamed.generate(None);
            let ghost body_seq = body@;
            out.append(&mut body);
            proof {
                lemma_toks_view_app(out0, body_seq);
                assert(renamed@ =~~= DescribeView {
                    name: spec_root_ident(invocation as nat),
                    before: rootv.before,
                    after: rootv.after,
                    blocks: rootv.blocks,
                });
            }
            Ok(out)
        },
    }
}

} // verus!
