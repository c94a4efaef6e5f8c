//! The grammar tree and its parser.
//!
//! A scope is a sequence of items. An item is a `before` or `after`
//! hook, a `describe`/`context` group, an `it`/`test` case, or any
//! other declaration, carried through verbatim. At each position the
//! alternatives are attempted in that fixed order, each speculatively:
//! a failed attempt consumes nothing and the next alternative starts
//! from the same position. Parsing fails only when every alternative
//! fails; the error names the position of the offending item.
//!
//! The boundary of a verbatim declaration is found without reading its
//! grammar: it ends just after the first top-level semicolon, or just
//! after a brace-delimited group, unless an `=` was seen earlier at
//! angle-bracket depth zero (the start of an initializer), in which
//! case only a semicolon ends it. An `=` inside `<`...`>` generics
//! does not open an initializer, and the `>` of a `->` arrow closes no
//! angle bracket.

use vstd::prelude::*;

use crate::extension::spec_to_ident;
use crate::extension::to_ident;
use crate::token::lemma_toks_view_index;
use crate::token::lemma_toks_view_len;
use crate::token::tok_clone;
use crate::token::tok_view;
use crate::token::toks_clone;
use crate::token::toks_view;
use crate::token::vec_char_eq;
use crate::token::Delim;
use crate::token::Tok;
use crate::token::TokView;

verus! {

broadcast use lemma_toks_view_len, lemma_toks_view_index;

/// The whole contents of one invocation: a group with a synthesized
/// name.
#[derive(Debug)]
pub struct Root(pub Describe);

/// A group: its hooks, and its children in source order.
#[derive(Debug)]
pub struct Describe {
    pub name: Vec<char>,
    pub before: Vec<Vec<Tok>>,
    pub after: Vec<Vec<Tok>>,
    pub blocks: Vec<Block>,
}

/// A single test case: its sanitized name, the annotations to carry
/// through, and its body statements.
#[derive(Debug)]
pub struct It {
    pub name: Vec<char>,
    pub attributes: Vec<Vec<Tok>>,
    pub block: Vec<Tok>,
}

/// One child of a group.
#[derive(Debug)]
pub enum Block {
    Describe(Describe),
    It(It),
    Item(Vec<Tok>),
}

/// One item of a scope: a hook, or a regular child.
#[derive(Debug)]
pub enum DescribeBlock {
    Regular(Block),
    Before(Vec<Tok>),
    After(Vec<Tok>),
}

/// A syntax error, pointing at the token position of the item that
/// could not be parsed.
#[derive(Debug)]
pub struct ParseErr {
    pub pos: usize,
}

#[verifier::ext_equal]
pub struct DescribeView {
    pub name: Seq<char>,
    pub before: Seq<Seq<TokView>>,
    pub after: Seq<Seq<TokView>>,
    pub blocks: Seq<BlockView>,
}

#[verifier::ext_equal]
pub struct ItView {
    pub name: Seq<char>,
    pub attributes: Seq<Seq<TokView>>,
    pub block: Seq<TokView>,
}

#[verifier::ext_equal]
pub enum BlockView {
    Describe(DescribeView),
    It(ItView),
    Item(Seq<TokView>),
}

#[verifier::ext_equal]
pub enum DescribeBlockView {
    Regular(BlockView),
    Before(Seq<TokView>),
    After(Seq<TokView>),
}

/// The value of a sequence of statement blocks: each block as the
/// sequence of its tokens.
pub open spec fn stmts_view(ss: Seq<Vec<Tok>>) -> Seq<Seq<TokView>> {
    Seq::new(ss.len(), |i: int| toks_view(ss[i]@))
}

pub open spec fn describe_view(d: Describe) -> DescribeView
    decreases d,
{
    DescribeView {
        name: d.name@,
        before: stmts_view(d.before@),
        after: stmts_view(d.after@),
        blocks: blocks_view(d.blocks@),
    }
}

pub open spec fn it_view(i: It) -> ItView {
    ItView {
        name: i.name@,
        attributes: stmts_view(i.attributes@),
        block: toks_view(i.block@),
    }
}

pub open spec fn block_view(b: Block) -> BlockView
    decreases b,
{
    match b {
        Block::Describe(d) => BlockView::Describe(describe_view(d)),
        Block::It(i) => BlockView::It(it_view(i)),
        Block::Item(ts) => BlockView::Item(toks_view(ts@)),
    }
}

pub open spec fn blocks_view(bs: Seq<Block>) -> Seq<BlockView>
    decreases bs,
{
    if bs.len() == 0 {
        Seq::empty()
    } else {
        seq![block_view(bs[0])] + blocks_view(bs.drop_first())
    }
}

impl View for Describe {
    type V = DescribeView;

    open spec fn view(&self) -> DescribeView {
        describe_view(*self)
    }
}

impl View for It {
    type V = ItView;

    open spec fn view(&self) -> ItView {
        it_view(*self)
    }
}

impl View for Block {
    type V = BlockView;

    open spec fn view(&self) -> BlockView {
        block_view(*self)
    }
}

impl View for Root {
    type V = DescribeView;

    open spec fn view(&self) -> DescribeView {
        describe_view(self.0)
    }
}

impl View for DescribeBlock {
    type V = DescribeBlockView;

    open spec fn view(&self) -> DescribeBlockView {
        match *self {
            DescribeBlock::Regular(b) => DescribeBlockView::Regular(block_view(b)),
            DescribeBlock::Before(ts) => DescribeBlockView::Before(toks_view(ts@)),
            DescribeBlock::After(ts) => DescribeBlockView::After(toks_view(ts@)),
        }
    }
}

pub broadcast proof fn lemma_blocks_view_len(bs: Seq<Block>)
    ensures
        (#[trigger] blocks_view(bs)).len() == bs.len(),
    decreases bs,
{
    if bs.len() > 0 {
        lemma_blocks_view_len(bs.drop_first());
    }
}

pub broadcast proof fn lemma_blocks_view_index(bs: Seq<Block>, i: int)
    requires
        0 <= i < bs.len(),
    ensures
        #[trigger] blocks_view(bs)[i] == block_view(bs[i]),
    decreases bs,
{
    if i == 0 {
        assert(blocks_view(bs)[0] == block_view(bs[0]));
    } else {
        lemma_blocks_view_index(bs.drop_first(), i - 1);
        lemma_blocks_view_len(bs.drop_first());
        assert(bs.drop_first()[i - 1] == bs[i]);
        assert(blocks_view(bs)[i] == blocks_view(bs.drop_first())[i - 1]);
    }
}

// ---------------------------------------------------------------------
// Keywords
// ---------------------------------------------------------------------

pub open spec fn kw_describe() -> Seq<char> {
    seq!['d', 'e', 's', 'c', 'r', 'i', 'b', 'e']
}

pub open spec fn kw_context() -> Seq<char> {
    seq!['c', 'o', 'n', 't', 'e', 'x', 't']
}

pub open spec fn kw_before() -> Seq<char> {
    seq!['b', 'e', 'f', 'o', 'r', 'e']
}

pub open spec fn kw_after() -> Seq<char> {
    seq!['a', 'f', 't', 'e', 'r']
}

pub open spec fn kw_it() -> Seq<char> {
    seq!['i', 't']
}

pub open spec fn kw_test() -> Seq<char> {
    seq!['t', 'e', 's', 't']
}

/// The placeholder name a parsed root carries until an enclosing group
/// or the entry point overwrites it.
pub open spec fn default_root_name() -> Seq<char> {
    seq!['s', 'p', 'e', 'c', 'u', 'l', 'a', 't', 'e']
}

// ---------------------------------------------------------------------
// Token classification
// ---------------------------------------------------------------------

pub open spec fn is_word_kw(t: TokView, k: Seq<char>) -> bool {
    t is Word && t->Word_0 == k
}

/// A keyword that opens a group.
pub open spec fn is_group_kw(t: TokView) -> bool {
    is_word_kw(t, kw_describe()) || is_word_kw(t, kw_context())
}

/// A keyword that opens a case.
pub open spec fn is_case_kw(t: TokView) -> bool {
    is_word_kw(t, kw_it()) || is_word_kw(t, kw_test())
}

pub open spec fn is_text(t: TokView) -> bool {
    t is Text
}

pub open spec fn text_val(t: TokView) -> Seq<char>
    recommends
        t is Text,
{
    t->Text_0
}

pub open spec fn is_brace_group(t: TokView) -> bool {
    t matches TokView::Group(d, _) && d == Delim::Brace
}

pub open spec fn is_bracket_group(t: TokView) -> bool {
    t matches TokView::Group(d, _) && d == Delim::Bracket
}

pub open spec fn group_toks(t: TokView) -> Seq<TokView>
    recommends
        t is Group,
{
    t->Group_1
}

pub open spec fn is_punct(t: TokView, c: char) -> bool {
    t matches TokView::Punct(p, _) && p == c
}

pub open spec fn punct_joint(t: TokView) -> bool
    recommends
        t is Punct,
{
    t->Punct_1
}

// ---------------------------------------------------------------------
// The grammar, as deterministic recursive functions over token values
// ---------------------------------------------------------------------

/// The leading annotations of a case: as many `#` `[...]` pairs as
/// stand at the position. Never fails; yields the annotations' bracket
/// contents and the position after them.
pub open spec fn spec_parse_attrs(ts: Seq<TokView>, pos: int) -> (Seq<Seq<TokView>>, int)
    decreases ts.len() - pos,
{
    if 0 <= pos && pos + 2 <= ts.len() && is_punct(ts[pos], '#') && is_bracket_group(ts[pos + 1]) {
        let (rest, p) = spec_parse_attrs(ts, pos + 2);
        (seq![group_toks(ts[pos + 1])] + rest, p)
    } else {
        (Seq::empty(), pos)
    }
}

/// A hook: the given keyword followed by a brace-delimited statement
/// block; yields the block's statements.
pub open spec fn spec_parse_hook(ts: Seq<TokView>, pos: int, k: Seq<char>) -> Option<
    (Seq<TokView>, int),
> {
    if 0 <= pos && pos + 2 <= ts.len() && is_word_kw(ts[pos], k) && is_brace_group(ts[pos + 1]) {
        Some((group_toks(ts[pos + 1]), pos + 2))
    } else {
        None
    }
}

/// The end of a verbatim declaration that starts at `pos`: just after
/// the first top-level semicolon, or just after a brace-delimited
/// group, unless `seen_eq` records an `=` seen earlier at angle
/// depth zero (an initializer), in which case only a semicolon ends
/// it. `depth` counts open `<`...`>` pairs, so an `=` inside generics
/// opens no initializer; `arrow` is set right after a joined `-`, so
/// the `>` of a `->` arrow closes no angle bracket. A joined `=` (as
/// in `==`, `=>`) opens no initializer either.
pub open spec fn spec_scan_item(
    ts: Seq<TokView>,
    pos: int,
    seen_eq: bool,
    depth: int,
    arrow: bool,
) -> Option<int>
    decreases ts.len() - pos,
{
    if pos < 0 || pos >= ts.len() {
        None
    } else if is_punct(ts[pos], ';') {
        Some(pos + 1)
    } else if is_brace_group(ts[pos]) {
        if !seen_eq && depth == 0 {
            Some(pos + 1)
        } else {
            spec_scan_item(ts, pos + 1, seen_eq, depth, false)
        }
    } else if is_punct(ts[pos], '=') && !punct_joint(ts[pos]) && !seen_eq && depth == 0 {
        spec_scan_item(ts, pos + 1, true, depth, false)
    } else if is_punct(ts[pos], '<') {
        spec_scan_item(ts, pos + 1, seen_eq, depth + 1, false)
    } else if is_punct(ts[pos], '>') {
        if arrow {
            spec_scan_item(ts, pos + 1, seen_eq, depth, false)
        } else if depth > 0 {
            spec_scan_item(ts, pos + 1, seen_eq, depth - 1, false)
        } else {
            spec_scan_item(ts, pos + 1, seen_eq, depth, false)
        }
    } else if is_punct(ts[pos], '-') && punct_joint(ts[pos]) {
        spec_scan_item(ts, pos + 1, seen_eq, depth, true)
    } else {
        spec_scan_item(ts, pos + 1, seen_eq, depth, false)
    }
}

/// A group or case keyword followed by a string literal can only be a
/// group or a case; it is never passed through as a verbatim
/// declaration, so a malformed one is an error.
pub open spec fn reserved_item_start(ts: Seq<TokView>, pos: int) -> bool {
    0 <= pos && pos + 2 <= ts.len() && (is_group_kw(ts[pos]) || is_case_kw(ts[pos])) && is_text(
        ts[pos + 1],
    )
}

/// A verbatim declaration: its tokens, carried through unchanged.
pub open spec fn spec_parse_other(ts: Seq<TokView>, pos: int) -> Option<(Seq<TokView>, int)> {
    if reserved_item_start(ts, pos) {
        None
    } else {
        match spec_scan_item(ts, pos, false, 0, false) {
            Some(end) => Some((ts.subrange(pos, end), end)),
            None => None,
        }
    }
}

/// A case: annotations, a case keyword, a free-text label and a
/// brace-delimited body. The label sanitizes to the case's name.
pub open spec fn spec_parse_it(ts: Seq<TokView>, pos: int) -> Option<(ItView, int)> {
    let (attrs, p) = spec_parse_attrs(ts, pos);
    if p + 3 <= ts.len() && is_case_kw(ts[p]) && is_text(ts[p + 1]) && is_brace_group(ts[p + 2]) {
        Some(
            (
                ItView {
                    name: spec_to_ident(text_val(ts[p + 1])),
                    attributes: attrs,
                    block: group_toks(ts[p + 2]),
                },
                p + 3,
            ),
        )
    } else {
        None
    }
}

/// A group: a group keyword, a free-text label and a brace-delimited
/// scope, itself parsed as a whole scope. The label sanitizes to the
/// group's name.
pub open spec fn spec_parse_describe(ts: Seq<TokView>, pos: int) -> Option<(DescribeView, int)>
    decreases ts, 1int, 0int,
{
    if 0 <= pos && pos + 3 <= ts.len() && is_group_kw(ts[pos]) && is_text(ts[pos + 1])
        && is_brace_group(ts[pos + 2]) {
        let inner = group_toks(ts[pos + 2]);
        match spec_parse_root(inner) {
            Some(d) => Some(
                (
                    DescribeView {
                        name: spec_to_ident(text_val(ts[pos + 1])),
                        before: d.before,
                        after: d.after,
                        blocks: d.blocks,
                    },
                    pos + 3,
                ),
            ),
            None => None,
        }
    } else {
        None
    }
}

/// A regular child: a group, else a case, else a verbatim declaration,
/// attempted in that order.
pub open spec fn spec_parse_block(ts: Seq<TokView>, pos: int) -> Option<(BlockView, int)>
    decreases ts, 2int, 0int,
{
    match spec_parse_describe(ts, pos) {
        Some((d, p)) => Some((BlockView::Describe(d), p)),
        None => match spec_parse_it(ts, pos) {
            Some((i, p)) => Some((BlockView::It(i), p)),
            None => match spec_parse_other(ts, pos) {
                Some((o, p)) => Some((BlockView::Item(o), p)),
                None => None,
            },
        },
    }
}

/// One item of a scope: a `before` hook, else an `after` hook, else a
/// regular child, attempted in that order.
pub open spec fn spec_parse_describe_block(ts: Seq<TokView>, pos: int) -> Option<
    (DescribeBlockView, int),
>
    decreases ts, 3int, 0int,
{
    match spec_parse_hook(ts, pos, kw_before()) {
        Some((b, p)) => Some((DescribeBlockView::Before(b), p)),
        None => match spec_parse_hook(ts, pos, kw_after()) {
            Some((a, p)) => Some((DescribeBlockView::After(a), p)),
            None => match spec_parse_block(ts, pos) {
                Some((b, p)) => Some((DescribeBlockView::Regular(b), p)),
                None => None,
            },
        },
    }
}

/// The hooks and children a scope declares, from `pos` to its end, each
/// list in declaration order.
#[verifier::ext_equal]
pub struct ScopeParts {
    pub before: Seq<Seq<TokView>>,
    pub after: Seq<Seq<TokView>>,
    pub blocks: Seq<BlockView>,
}

pub open spec fn spec_parse_root_from(ts: Seq<TokView>, pos: int) -> Option<ScopeParts>
    decreases ts, 4int, ts.len() - pos,
{
    if pos >= ts.len() {
        Some(ScopeParts { before: Seq::empty(), after: Seq::empty(), blocks: Seq::empty() })
    } else {
        match spec_parse_describe_block(ts, pos) {
            Some((db, p)) => if pos < p <= ts.len() {
                match spec_parse_root_from(ts, p) {
                    Some(parts) => Some(
                        match db {
                            DescribeBlockView::Before(b) => ScopeParts {
                                before: seq![b] + parts.before,
                                after: parts.after,
                                blocks: parts.blocks,
                            },
                            DescribeBlockView::After(a) => ScopeParts {
                                before: parts.before,
                                after: seq![a] + parts.after,
                                blocks: parts.blocks,
                            },
                            DescribeBlockView::Regular(b) => ScopeParts {
                                before: parts.before,
                                after: parts.after,
                                blocks: seq![b] + parts.blocks,
                            },
                        },
                    ),
                    None => None,
                }
            } else {
                None
            },
            None => None,
        }
    }
}

/// A whole scope: every item parsed, the hooks and children collected
/// in declaration order, under the placeholder root name.
pub open spec fn spec_parse_root(ts: Seq<TokView>) -> Option<DescribeView>
    decreases ts, 5int, 0int,
{
    match spec_parse_root_from(ts, 0) {
        Some(parts) => Some(
            DescribeView {
                name: default_root_name(),
                before: parts.before,
                after: parts.after,
                blocks: parts.blocks,
            },
        ),
        None => None,
    }
}

/// The position of the first offending item when a scope's parse
/// fails: items are parsed from `pos` until one fails, and that one's
/// starting position is reported.
pub open spec fn spec_fail_at(ts: Seq<TokView>, pos: int) -> int
    decreases ts, 6int, ts.len() - pos,
{
    if pos >= ts.len() {
        pos
    } else {
        match spec_parse_describe_block(ts, pos) {
            Some((db, p)) => if pos < p <= ts.len() {
                spec_fail_at(ts, p)
            } else {
                pos
            },
            None => pos,
        }
    }
}

// ---------------------------------------------------------------------
// The parser
// ---------------------------------------------------------------------

fn kw_describe_vec() -> (r: Vec<char>)
    ensures
        r@ == kw_describe(),
{
    let r: Vec<char> = vec!['d', 'e', 's', 'c', 'r', 'i', 'b', 'e'];
    proof {
        assert(r@ =~= kw_describe());
    }
    r
}

fn kw_context_vec() -> (r: Vec<char>)
    ensures
        r@ == kw_context(),
{
    let r: Vec<char> = vec!['c', 'o', 'n', 't', 'e', 'x', 't'];
    proof {
        assert(r@ =~= kw_context());
    }
    r
}

fn kw_before_vec() -> (r: Vec<char>)
    ensures
        r@ == kw_before(),
{
    let r: Vec<char> = vec!['b', 'e', 'f', 'o', 'r', 'e'];
    proof {
        assert(r@ =~= kw_before());
    }
    r
}

fn kw_after_vec() -> (r: Vec<char>)
    ensures
        r@ == kw_after(),
{
    let r: Vec<char> = vec!['a', 'f', 't', 'e', 'r'];
    proof {
        assert(r@ =~= kw_after());
    }
    r
}

fn kw_it_vec() -> (r: Vec<char>)
    ensures
        r@ == kw_it(),
{
    let r: Vec<char> = vec!['i', 't'];
    proof {
        assert(r@ =~= kw_it());
    }
    r
}

fn kw_test_vec() -> (r: Vec<char>)
    ensures
        r@ == kw_test(),
{
    let r: Vec<char> = vec!['t', 'e', 's', 't'];
    proof {
        assert(r@ =~= kw_test());
    }
    r
}

fn default_name_vec() -> (r: Vec<char>)
    ensures
        r@ == default_root_name(),
{
    let r: Vec<char> = vec!['s', 'p', 'e', 'c', 'u', 'l', 'a', 't', 'e'];
    proof {
        assert(r@ =~= default_root_name());
    }
    r
}

fn is_group_word(w: &Vec<char>) -> (r: bool)
    ensures
        r == (w@ == kw_describe() || w@ == kw_context()),
{
    let d = kw_describe_vec();
    if vec_char_eq(w, &d) {
        return true;
    }
    let c = kw_context_vec();
    vec_char_eq(w, &c)
}

fn is_case_word(w: &Vec<char>) -> (r: bool)
    ensures
        r == (w@ == kw_it() || w@ == kw_test()),
{
    let i = kw_it_vec();
    if vec_char_eq(w, &i) {
        return true;
    }
    let t = kw_test_vec();
    vec_char_eq(w, &t)
}

/// A fresh copy of the tokens from `from` (inclusive) to `to`
/// (exclusive).
fn toks_slice(toks: &Vec<Tok>, from: usize, to: usize) -> (r: Vec<Tok>)
    requires
        from <= to <= toks@.len(),
    ensures
        toks_view(r@) == toks_view(toks@).subrange(from as int, to as int),
{
    let mut r: Vec<Tok> = Vec::new();
    let mut i: usize = from;
    while i < to
        invariant
            from <= i <= to <= toks@.len(),
            r@.len() == i - from,
            forall|j: int| 0 <= j < r@.len() ==> tok_view(#[trigger] r@[j]) == tok_view(
                toks@[from + j],
            ),
        decreases to - i,
    {
        let t = tok_clone(&toks[i]);
        r.push(t);
        i += 1;
    }
    proof {
        crate::token::lemma_toks_view_subrange(toks@, from as int, to as int);
        lemma_toks_view_len(r@);
        lemma_toks_view_len(toks@.subrange(from as int, to as int));
        assert forall|j: int| 0 <= j < r@.len() implies toks_view(r@)[j] == toks_view(
            toks@.subrange(from as int, to as int),
        )[j] by {
            lemma_toks_view_index(r@, j);
            lemma_toks_view_index(toks@.subrange(from as int, to as int), j);
        }
        assert(toks_view(r@) =~= toks_view(toks@.subrange(from as int, to as int)));
    }
    r
}

/// Collects the leading annotations at `pos`. Total: when none stand
/// there, yields an empty list and the same position.
fn parse_attrs(toks: &Vec<Tok>, pos: usize) -> (r: (Vec<Vec<Tok>>, usize))
    requires
        pos <= toks@.len(),
    ensures
        ({
            let (attrs, p) = spec_parse_attrs(toks_view(toks@), pos as int);
            stmts_view(r.0@) == attrs && r.1 as int == p && pos <= r.1 <= toks@.len()
        }),
    decreases toks@.len() - pos,
{
    let ghost tv = toks_view(toks@);
    let n: usize = toks.len();
    if pos < n && pos + 1 < n {
        let pound = match &toks[pos] {
            Tok::Punct(c, _) => *c == '#',
            _ => false,
        };
        proof {
            assert(pound == is_punct(tv[pos as int], '#'));
        }
        if pound {
            match &toks[pos + 1] {
                Tok::Group(d, inner) => {
                    if *d == Delim::Bracket {
                        let a = toks_clone(inner);
                        let ghost av = toks_view(a@);
                        let (mut rest, p) = parse_attrs(toks, pos + 2);
                        let ghost r0 = rest@;
                        rest.insert(0, a);
                        proof {
                            assert(av == group_toks(tv[pos as int + 1]));
                            assert(stmts_view(rest@) =~= seq![av] + stmts_view(r0));
                        }
                        return (rest, p);
                    } else {
                        proof {
                            assert(!is_bracket_group(tv[pos as int + 1]));
                            assert(stmts_view(Seq::<Vec<Tok>>::empty()) =~= Seq::<
                                Seq<TokView>,
                            >::empty());
                        }
                        return (Vec::new(), pos);
                    }
                },
                _ => {
                    proof {
                        assert(!is_bracket_group(tv[pos as int + 1]));
                        assert(stmts_view(Seq::<Vec<Tok>>::empty()) =~= Seq::<
                            Seq<TokView>,
                        >::empty());
                    }
                    return (Vec::new(), pos);
                },
            }
        }
    }
    proof {
        assert(stmts_view(Seq::<Vec<Tok>>::empty()) =~= Seq::<Seq<TokView>>::empty());
    }
    (Vec::new(), pos)
}

/// Attempts a hook: the given keyword followed by a brace-delimited
/// block. On failure nothing is consumed.
fn parse_hook(toks: &Vec<Tok>, pos: usize, k: &Vec<char>) -> (r: Option<(Vec<Tok>, usize)>)
    ensures
        match r {
            Some(v) => spec_parse_hook(toks_view(toks@), pos as int, k@) == Some(
                (toks_view(v.0@), v.1 as int),
            ) && pos < v.1 <= toks@.len(),
            None => spec_parse_hook(toks_view(toks@), pos as int, k@) is None,
        },
{
    let ghost tv = toks_view(toks@);
    let n: usize = toks.len();
    if !(pos < n && pos + 1 < n) {
        return None;
    }
    let kwok = match &toks[pos] {
        Tok::Word(w) => vec_char_eq(w, k),
        _ => false,
    };
    proof {
        assert(kwok == is_word_kw(tv[pos as int], k@));
    }
    if !kwok {
        return None;
    }
    match &toks[pos + 1] {
        Tok::Group(d, inner) => {
            if *d == Delim::Brace {
                let b = toks_clone(inner);
                proof {
                    assert(toks_view(b@) == group_toks(tv[pos as int + 1]));
                }
                Some((b, pos + 2))
            } else {
                proof {
                    assert(!is_brace_group(tv[pos as int + 1]));
                }
                None
            }
        },
        _ => {
            proof {
                assert(!is_brace_group(tv[pos as int + 1]));
            }
            None
        },
    }
}

/// Finds the end of a verbatim declaration, as `spec_scan_item` does.
fn scan_item(toks: &Vec<Tok>, pos: usize, seen_eq: bool, depth: usize, arrow: bool) -> (r: Option<
    usize,
>)
    requires
        depth <= pos,
    ensures
        match r {
            Some(p) => spec_scan_item(toks_view(toks@), pos as int, seen_eq, depth as int, arrow)
                == Some(p as int) && pos < p <= toks@.len(),
            None => spec_scan_item(toks_view(toks@), pos as int, seen_eq, depth as int, arrow)
                is None,
        },
    decreases toks@.len() - pos,
{
    if pos >= toks.len() {
        return None;
    }
    let ghost tv = toks_view(toks@);
    proof {
        assert(tv[pos as int] == tok_view(toks@[pos as int]));
    }
    match &toks[pos] {
        Tok::Punct(c, j) => {
            if *c == ';' {
                Some(pos + 1)
            } else if *c == '=' && !*j && !seen_eq && depth == 0 {
                scan_item(toks, pos + 1, true, depth, false)
            } else if *c == '<' {
                scan_item(toks, pos + 1, seen_eq, depth + 1, false)
            } else if *c == '>' {
                if arrow {
                    scan_item(toks, pos + 1, seen_eq, depth, false)
                } else if depth > 0 {
                    scan_item(toks, pos + 1, seen_eq, depth - 1, false)
                } else {
                    scan_item(toks, pos + 1, seen_eq, depth, false)
                }
            } else if *c == '-' && *j {
                scan_item(toks, pos + 1, seen_eq, depth, true)
            } else {
                scan_item(toks, pos + 1, seen_eq, depth, false)
            }
        },
        Tok::Group(d, _) => {
            if *d == Delim::Brace {
                if !seen_eq && depth == 0 {
                    Some(pos + 1)
                } else {
                    scan_item(toks, pos + 1, seen_eq, depth, false)
                }
            } else {
                scan_item(toks, pos + 1, seen_eq, depth, false)
            }
        },
        _ => scan_item(toks, pos + 1, seen_eq, depth, false),
    }
}

/// Attempts a verbatim declaration at `pos`. On failure nothing is
/// consumed.
fn parse_other(toks: &Vec<Tok>, pos: usize) -> (r: Option<(Vec<Tok>, usize)>)
    ensures
        match r {
            Some(v) => spec_parse_other(toks_view(toks@), pos as int) == Some(
                (toks_view(v.0@), v.1 as int),
            ) && pos < v.1 <= toks@.len(),
            None => spec_parse_other(toks_view(toks@), pos as int) is None,
        },
{
    let ghost tv = toks_view(toks@);
    let n: usize = toks.len();
    let mut reserved: bool = false;
    if pos < n && pos + 1 < n {
        let kwok = match &toks[pos] {
            Tok::Word(w) => {
                let g = is_group_word(w);
                if g {
                    true
                } else {
                    is_case_word(w)
                }
            },
            _ => false,
        };
        let txt = match &toks[pos + 1] {
            Tok::Text(_) => true,
            _ => false,
        };
        reserved = kwok && txt;
    }
    proof {
        assert(reserved == reserved_item_start(tv, pos as int));
    }
    if reserved {
        return None;
    }
    match scan_item(toks, pos, false, 0, false) {
        None => None,
        Some(end) => {
            let o = toks_slice(toks, pos, end);
            Some((o, end))
        },
    }
}

impl Describe {
    /// Attempts a group at `pos`: a group keyword, a free-text label
    /// and a braced scope. On failure nothing is consumed.
    pub fn parse(toks: &Vec<Tok>, pos: usize) -> (r: Option<(Describe, usize)>)
        ensures
            match r {
                Some(v) => spec_parse_describe(toks_view(toks@), pos as int) == Some(
                    (v.0@, v.1 as int),
                ) && pos < v.1 <= toks@.len(),
                None => spec_parse_describe(toks_view(toks@), pos as int) is None,
            },
        decreases toks@, 1int, 0int,
    {
        let ghost tv = toks_view(toks@);
        let n: usize = toks.len();
        if !(pos < n && pos + 1 < n && pos + 2 < n) {
            return None;
        }
        let kwok = match &toks[pos] {
            Tok::Word(w) => is_group_word(w),
            _ => false,
        };
        proof {
            assert(kwok == is_group_kw(tv[pos as int]));
        }
        if !kwok {
            return None;
        }
        match &toks[pos + 1] {
            Tok::Text(label) => {
                match &toks[pos + 2] {
                    Tok::Group(Delim::Brace, inner) => {
                        proof {
                            assert(decreases_to!(toks@ => toks@[pos as int + 2]));
                            assert(decreases_to!(toks@[pos as int + 2] => *inner));
                            assert(decreases_to!(*inner => inner@));
                            assert(toks_view(inner@) == group_toks(tv[pos as int + 2]));
                        }
                        match Root::parse(inner) {
                            Err(_) => None,
                            Ok(root) => {
                                let name = to_ident(label);
                                let Root(d) = root;
                                let out = Describe {
                                    name,
                                    before: d.before,
                                    after: d.after,
                                    blocks: d.blocks,
                                };
                                Some((out, pos + 3))
                            },
                        }
                    },
                    _ => {
                        proof {
                            assert(!is_brace_group(tv[pos as int + 2]));
                        }
                        None
                    },
                }
            },
            _ => {
                proof {
                    assert(!is_text(tv[pos as int + 1]));
                }
                None
            },
        }
    }
}

impl It {
    /// Attempts a case at `pos`: annotations, a case keyword, a
    /// free-text label and a braced body. On failure nothing is
    /// consumed.
    pub fn parse(toks: &Vec<Tok>, pos: usize) -> (r: Option<(It, usize)>)
        requires
            pos <= toks@.len(),
        ensures
            match r {
                Some(v) => spec_parse_it(toks_view(toks@), pos as int) == Some((v.0@, v.1 as int))
                    && pos < v.1 <= toks@.len(),
                None => spec_parse_it(toks_view(toks@), pos as int) is None,
            },
    {
        let ghost tv = toks_view(toks@);
        let (attributes, p) = parse_attrs(toks, pos);
        let n: usize = toks.len();
        if !(p < n && p + 1 < n && p + 2 < n) {
            return None;
        }
        let kwok = match &toks[p] {
            Tok::Word(w) => is_case_word(w),
            _ => false,
        };
        proof {
            assert(kwok == is_case_kw(tv[p as int]));
        }
        if !kwok {
            return None;
        }
        match &toks[p + 1] {
            Tok::Text(label) => {
                match &toks[p + 2] {
                    Tok::Group(Delim::Brace, inner) => {
                        let name = to_ident(label);
                        let block = toks_clone(inner);
                        proof {
                            assert(toks_view(block@) == group_toks(tv[p as int + 2]));
                        }
                        Some((It { name, attributes, block }, p + 3))
                    },
                    _ => {
                        proof {
                            assert(!is_brace_group(tv[p as int + 2]));
                        }
                        None
                    },
                }
            },
            _ => {
                proof {
                    assert(!is_text(tv[p as int + 1]));
                }
                None
            },
        }
    }
}

impl Block {
    /// Attempts the regular alternatives at `pos` in their fixed
    /// order: group, case, verbatim declaration. Each attempt is
    /// speculative: a failed one consumes nothing, and the next starts
    /// from the same position.
    pub fn parse(toks: &Vec<Tok>, pos: usize) -> (r: Result<(Block, usize), ParseErr>)
        requires
            pos <= toks@.len(),
        ensures
            match r {
                Ok(v) => spec_parse_block(toks_view(toks@), pos as int) == Some(
                    (v.0@, v.1 as int),
                ) && pos < v.1 <= toks@.len(),
                Err(e) => spec_parse_block(toks_view(toks@), pos as int) is None && e.pos == pos,
            },
        decreases toks@, 2int, 0int,
    {
        match Describe::parse(toks, pos) {
            Some((d, p)) => {
                return Ok((Block::Describe(d), p));
            },
            None => {},
        }
        match It::parse(toks, pos) {
            Some((i, p)) => {
                return Ok((Block::It(i), p));
            },
            None => {},
        }
        match parse_other(toks, pos) {
            Some((o, p)) => Ok((Block::Item(o), p)),
            None => Err(ParseErr { pos }),
        }
    }
}

impl DescribeBlock {
    /// Attempts the item alternatives at `pos` in their fixed order:
    /// `before` hook, `after` hook, regular child.
    pub fn parse(toks: &Vec<Tok>, pos: usize) -> (r: Result<(DescribeBlock, usize), ParseErr>)
        requires
            pos <= toks@.len(),
        ensures
            match r {
                Ok(v) => spec_parse_describe_block(toks_view(toks@), pos as int) == Some(
                    (v.0@, v.1 as int),
                ) && pos < v.1 <= toks@.len(),
                Err(e) => spec_parse_describe_block(toks_view(toks@), pos as int) is None && e.pos
                    == pos,
            },
        decreases toks@, 3int, 0int,
    {
        let kb = kw_before_vec();
        match parse_hook(toks, pos, &kb) {
            Some((b, p)) => {
                return Ok((DescribeBlock::Before(b), p));
            },
            None => {},
        }
        let ka = kw_after_vec();
        match parse_hook(toks, pos, &ka) {
            Some((a, p)) => {
                return Ok((DescribeBlock::After(a), p));
            },
            None => {},
        }
        match Block::parse(toks, pos) {
            Ok((b, p)) => Ok((DescribeBlock::Regular(b), p)),
            Err(e) => Err(e),
        }
    }
}

impl Root {
    fn parse_from(toks: &Vec<Tok>, pos: usize) -> (r: Result<
        (Vec<Vec<Tok>>, Vec<Vec<Tok>>, Vec<Block>),
        ParseErr,
    >)
        requires
            pos <= toks@.len(),
        ensures
            match r {
                Ok(v) => spec_parse_root_from(toks_view(toks@), pos as int) == Some(
                    ScopeParts {
                        before: stmts_view(v.0@),
                        after: stmts_view(v.1@),
                        blocks: blocks_view(v.2@),
                    },
                ),
                Err(e) => spec_parse_root_from(toks_view(toks@), pos as int) is None && e.pos
                    as int == spec_fail_at(toks_view(toks@), pos as int) && e.pos <= toks@.len(),
            },
        decreases toks@, 4int, toks@.len() - pos,
    {
        let ghost tv = toks_view(toks@);
        if pos >= toks.len() {
            proof {
                assert(stmts_view(Seq::<Vec<Tok>>::empty()) =~= Seq::<Seq<TokView>>::empty());
                assert(blocks_view(Seq::<Block>::empty()) =~= Seq::<BlockView>::empty());
            }
            return Ok((Vec::new(), Vec::new(), Vec::new()));
        }
        match DescribeBlock::parse(toks, pos) {
            Err(e) => Err(e),
            Ok((db, p)) => {
                match Self::parse_from(toks, p) {
                    Err(e) => Err(e),
                    Ok((mut before, mut after, mut blocks)) => {
                        let ghost b0 = before@;
                        let ghost a0 = after@;
                        let ghost bl0 = blocks@;
                        match db {
                            DescribeBlock::Before(x) => {
                                let ghost xv = toks_view(x@);
                                before.insert(0, x);
                                proof {
                                    assert(stmts_view(before@) =~= seq![xv] + stmts_view(b0));
                                }
                            },
                            DescribeBlock::After(x) => {
                                let ghost xv = toks_view(x@);
                                after.insert(0, x);
                                proof {
                                    assert(stmts_view(after@) =~= seq![xv] + stmts_view(a0));
                                }
                            },
                            DescribeBlock::Regular(x) => {
                                let ghost xv = block_view(x);
                                blocks.insert(0, x);
                                proof {
                                    assert(blocks@ =~= seq![blocks@[0]] + bl0);
                                    assert(blocks@.drop_first() =~= bl0);
                                    assert(blocks_view(blocks@) == seq![xv] + blocks_view(bl0));
                                }
                            },
                        }
                        Ok((before, after, blocks))
                    },
                }
            },
        }
    }

    /// Parses a whole scope. Succeeds exactly when every item parses,
    /// and then yields the scope's hooks and children in declaration
    /// order under the placeholder root name; fails with the position
    /// of the first offending item otherwise.
    pub fn parse(toks: &Vec<Tok>) -> (r: Result<Root, ParseErr>)
        ensures
            match r {
                Ok(root) => spec_parse_root(toks_view(toks@)) == Some(root@),
                Err(e) => spec_parse_root(toks_view(toks@)) is None && e.pos as int
                    == spec_fail_at(toks_view(toks@), 0) && e.pos <= toks@.len(),
            },
        decreases toks@, 5int, 0int,
    {
        match Self::parse_from(toks, 0) {
            Err(e) => Err(e),
            Ok((before, after, blocks)) => {
                let name = default_name_vec();
                Ok(Root(Describe { name, before, after, blocks }))
            },
        }
    }
}

} // verus!
