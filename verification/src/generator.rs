//! The generator: a total, pure rewrite of a parsed tree into output
//! tokens.
//!
//! Every group becomes a namespace; every case becomes a test function
//! whose body is the inherited setup, the case's own statements, and
//! the inherited teardown, in that order. Setup composes ancestor
//! first, then own; teardown composes own first, then ancestor, so the
//! innermost group's cleanup runs before any broader one. Verbatim
//! declarations are re-emitted unchanged, in place.

use vstd::prelude::*;

use crate::block::block_view;
use crate::block::blocks_view;
use crate::block::kw_test;
use crate::block::lemma_blocks_view_index;
use crate::block::lemma_blocks_view_len;
use crate::block::stmts_view;
use crate::block::Block;
use crate::block::BlockView;
use crate::block::Describe;
use crate::block::DescribeView;
use crate::block::It;
use crate::block::ItView;
use crate::token::lemma_toks_view_index;
use crate::token::lemma_toks_view_len;
use crate::token::tok_view;
use crate::token::toks_clone;
use crate::token::toks_view;
use crate::token::chars_clone;
use crate::token::Delim;
use crate::token::Tok;
use crate::token::TokView;

verus! {

broadcast use lemma_toks_view_len, lemma_toks_view_index, lemma_blocks_view_len,
    lemma_blocks_view_index;

/// The setup and teardown a node inherits from its enclosing groups.
pub struct Ctx {
    pub before: Vec<Vec<Tok>>,
    pub after: Vec<Vec<Tok>>,
}

#[verifier::ext_equal]
pub struct CtxView {
    pub before: Seq<Seq<TokView>>,
    pub after: Seq<Seq<TokView>>,
}

impl View for Ctx {
    type V = CtxView;

    open spec fn view(&self) -> CtxView {
        CtxView { before: stmts_view(self.before@), after: stmts_view(self.after@) }
    }
}

pub open spec fn ctx_opt_view(outer: Option<&Ctx>) -> Option<CtxView> {
    match outer {
        Some(c) => Some(c@),
        None => None,
    }
}

/// The statements of a sequence of blocks, flattened in order; block
/// boundaries are erased.
pub open spec fn concat_stmts(ss: Seq<Seq<TokView>>) -> Seq<TokView>
    decreases ss.len(),
{
    if ss.len() == 0 {
        Seq::empty()
    } else {
        ss[0] + concat_stmts(ss.drop_first())
    }
}

/// The context a group's children inherit: the outer setup followed by
/// the group's own, and the group's own teardown followed by the
/// outer's.
pub open spec fn spec_eff(d: DescribeView, outer: Option<CtxView>) -> CtxView {
    match outer {
        Some(c) => CtxView { before: c.before + d.before, after: d.after + c.after },
        None => CtxView { before: d.before, after: d.after },
    }
}

/// The full statement sequence of a generated test: inherited setup,
/// own body, inherited teardown.
pub open spec fn spec_it_body(i: ItView, outer: Option<CtxView>) -> Seq<TokView> {
    match outer {
        Some(c) => concat_stmts(c.before) + i.block + concat_stmts(c.after),
        None => i.block,
    }
}

/// One annotation, as emitted: `#` followed by its bracket group.
pub open spec fn attr_tokens(a: Seq<TokView>) -> Seq<TokView> {
    seq![TokView::Punct('#', false), TokView::Group(Delim::Bracket, a)]
}

pub open spec fn attrs_tokens(attrs: Seq<Seq<TokView>>) -> Seq<TokView>
    decreases attrs.len(),
{
    if attrs.len() == 0 {
        Seq::empty()
    } else {
        attr_tokens(attrs[0]) + attrs_tokens(attrs.drop_first())
    }
}

pub open spec fn kw_mod() -> Seq<char> {
    seq!['m', 'o', 'd']
}

pub open spec fn kw_use() -> Seq<char> {
    seq!['u', 's', 'e']
}

pub open spec fn kw_super() -> Seq<char> {
    seq!['s', 'u', 'p', 'e', 'r']
}

pub open spec fn kw_fn() -> Seq<char> {
    seq!['f', 'n']
}

pub open spec fn kw_allow() -> Seq<char> {
    seq!['a', 'l', 'l', 'o', 'w']
}

pub open spec fn kw_unused_imports() -> Seq<char> {
    seq!['u', 'n', 'u', 's', 'e', 'd', '_', 'i', 'm', 'p', 'o', 'r', 't', 's']
}

/// The prefix of every generated test's name.
pub open spec fn test_prefix() -> Seq<char> {
    seq!['t', 'e', 's', 't', '_']
}

/// The preamble of every generated namespace: it allows unused imports
/// and brings the enclosing scope's names in.
pub open spec fn mod_prelude() -> Seq<TokView> {
    attr_tokens(
        seq![
            TokView::Word(kw_allow()),
            TokView::Group(Delim::Paren, seq![TokView::Word(kw_unused_imports())]),
        ],
    ) + seq![
        TokView::Word(kw_use()),
        TokView::Word(kw_super()),
        TokView::Punct(':', true),
        TokView::Punct(':', false),
        TokView::Punct('*', false),
        TokView::Punct(';', false),
    ]
}

/// The tokens generated for a case: a test marker, the case's own
/// annotations verbatim, and a function whose body is `spec_it_body`.
pub open spec fn spec_gen_it(i: ItView, outer: Option<CtxView>) -> Seq<TokView> {
    attr_tokens(seq![TokView::Word(kw_test())]) + attrs_tokens(i.attributes) + seq![
        TokView::Word(kw_fn()),
        TokView::Word(test_prefix() + i.name),
        TokView::Group(Delim::Paren, Seq::empty()),
        TokView::Group(Delim::Brace, spec_it_body(i, outer)),
    ]
}

/// The tokens generated for a group: a namespace named after it whose
/// contents are the preamble followed by each child's generation under
/// the group's effective context, in declaration order.
pub open spec fn spec_gen_describe(d: DescribeView, outer: Option<CtxView>) -> Seq<TokView>
    decreases d,
{
    seq![
        TokView::Word(kw_mod()),
        TokView::Word(d.name),
        TokView::Group(Delim::Brace, mod_prelude() + spec_gen_blocks(d.blocks, spec_eff(d, outer))),
    ]
}

pub open spec fn spec_gen_blocks(bs: Seq<BlockView>, c: CtxView) -> Seq<TokView>
    decreases bs,
{
    if bs.len() == 0 {
        Seq::empty()
    } else {
        spec_gen_block(bs[0], c) + spec_gen_blocks(bs.drop_first(), c)
    }
}

pub open spec fn spec_gen_block(b: BlockView, c: CtxView) -> Seq<TokView>
    decreases b,
{
    match b {
        BlockView::Describe(d) => spec_gen_describe(d, Some(c)),
        BlockView::It(i) => spec_gen_it(i, Some(c)),
        BlockView::Item(ts) => ts,
    }
}

// ---------------------------------------------------------------------
// Laws
// ---------------------------------------------------------------------

pub proof fn lemma_concat_stmts_app(a: Seq<Seq<TokView>>, b: Seq<Seq<TokView>>)
    ensures
        concat_stmts(a + b) == concat_stmts(a) + concat_stmts(b),
    decreases a.len(),
{
    if a.len() == 0 {
        assert(a + b =~= b);
        assert(concat_stmts(a) + concat_stmts(b) =~= concat_stmts(b));
    } else {
        assert((a + b).drop_first() =~= a.drop_first() + b);
        lemma_concat_stmts_app(a.drop_first(), b);
        assert((a + b)[0] == a[0]);
        assert(concat_stmts(a + b) == a[0] + (concat_stmts(a.drop_first()) + concat_stmts(b)));
        assert(a[0] + (concat_stmts(a.drop_first()) + concat_stmts(b)) =~= (a[0] + concat_stmts(
            a.drop_first(),
        )) + concat_stmts(b));
    }
}

/// Law (ordering and composition): for a case inside a group that is
/// itself inside an outer group, the generated body runs the outer
/// group's setup, then the inner group's setup, then the case's own
/// statements, then the inner group's teardown, then the outer
/// group's teardown, in exactly that order.
pub proof fn lemma_hook_composition(d1: DescribeView, d2: DescribeView, i: ItView)
    ensures
        spec_it_body(i, Some(spec_eff(d2, Some(spec_eff(d1, None))))) == concat_stmts(d1.before)
            + concat_stmts(d2.before) + i.block + concat_stmts(d2.after) + concat_stmts(d1.after),
{
    lemma_concat_stmts_app(d1.before, d2.before);
    lemma_concat_stmts_app(d2.after, d1.after);
    assert(spec_it_body(i, Some(spec_eff(d2, Some(spec_eff(d1, None))))) =~= concat_stmts(
        d1.before,
    ) + concat_stmts(d2.before) + i.block + concat_stmts(d2.after) + concat_stmts(d1.after));
}

pub proof fn lemma_gen_blocks_app(a: Seq<BlockView>, b: Seq<BlockView>, c: CtxView)
    ensures
        spec_gen_blocks(a + b, c) == spec_gen_blocks(a, c) + spec_gen_blocks(b, c),
    decreases a.len(),
{
    if a.len() == 0 {
        assert(a + b =~= b);
        assert(spec_gen_blocks(a, c) + spec_gen_blocks(b, c) =~= spec_gen_blocks(b, c));
    } else {
        assert((a + b).drop_first() =~= a.drop_first() + b);
        lemma_gen_blocks_app(a.drop_first(), b, c);
        assert((a + b)[0] == a[0]);
        assert(spec_gen_block(a[0], c) + (spec_gen_blocks(a.drop_first(), c) + spec_gen_blocks(
            b,
            c,
        )) =~= (spec_gen_block(a[0], c) + spec_gen_blocks(a.drop_first(), c)) + spec_gen_blocks(
            b,
            c,
        ));
    }
}

/// Law (sibling independence): within a scope, the tokens generated
/// for one child are a function of that child and the inherited
/// context alone; they stand between the generations of the earlier
/// and the later siblings, and a sibling's hooks enter neither the
/// context nor the result.
pub proof fn lemma_sibling_independence(bs: Seq<BlockView>, c: CtxView, k: int)
    requires
        0 <= k < bs.len(),
    ensures
        spec_gen_blocks(bs, c) == spec_gen_blocks(bs.take(k), c) + spec_gen_block(bs[k], c)
            + spec_gen_blocks(bs.skip(k + 1), c),
{
    assert(bs =~= bs.take(k) + seq![bs[k]] + bs.skip(k + 1));
    lemma_gen_blocks_app(bs.take(k) + seq![bs[k]], bs.skip(k + 1), c);
    lemma_gen_blocks_app(bs.take(k), seq![bs[k]], c);
    assert(seq![bs[k]].drop_first() =~= Seq::<BlockView>::empty());
    assert(spec_gen_blocks(seq![bs[k]], c) == spec_gen_block(bs[k], c) + spec_gen_blocks(
        Seq::<BlockView>::empty(),
        c,
    ));
    assert(spec_gen_block(bs[k], c) + Seq::<TokView>::empty() =~= spec_gen_block(bs[k], c));
}

/// Law (pass-through): a declaration that is none of the grammar's own
/// constructs is emitted unchanged, whatever context it stands under.
pub proof fn lemma_item_pass_through(ts: Seq<TokView>, c: CtxView)
    ensures
        spec_gen_block(BlockView::Item(ts), c) == ts,
{
}

pub proof fn lemma_attrs_tokens_shape(attrs: Seq<Seq<TokView>>)
    ensures
        attrs_tokens(attrs).len() == 2 * attrs.len(),
        forall|j: int|
            0 <= j < attrs.len() ==> attrs_tokens(attrs)[2 * j] == TokView::Punct('#', false)
                && attrs_tokens(attrs)[2 * j + 1] == TokView::Group(
                Delim::Bracket,
                #[trigger] attrs[j],
            ),
    decreases attrs.len(),
{
    if attrs.len() > 0 {
        lemma_attrs_tokens_shape(attrs.drop_first());
        assert forall|j: int| 0 <= j < attrs.len() implies attrs_tokens(attrs)[2 * j]
            == TokView::Punct('#', false) && attrs_tokens(attrs)[2 * j + 1] == TokView::Group(
            Delim::Bracket,
            #[trigger] attrs[j],
        ) by {
            if j > 0 {
                assert(attrs.drop_first()[j - 1] == attrs[j]);
                assert(attrs_tokens(attrs)[2 * j] == attrs_tokens(attrs.drop_first())[2 * (j - 1)]);
                assert(attrs_tokens(attrs)[2 * j + 1] == attrs_tokens(attrs.drop_first())[2 * (j
                    - 1) + 1]);
            }
        }
    }
}

/// Law (annotation preservation): the tokens generated for a case
/// carry the case's annotations verbatim, in order, immediately after
/// the test marker; the j-th annotation appears as `#` followed by its
/// bracket group.
pub proof fn lemma_attributes_preserved(i: ItView, outer: Option<CtxView>)
    ensures
        spec_gen_it(i, outer).subrange(2, 2 + 2 * i.attributes.len() as int) == attrs_tokens(
            i.attributes,
        ),
        forall|j: int|
            0 <= j < i.attributes.len() ==> attrs_tokens(i.attributes)[2 * j] == TokView::Punct(
                '#',
                false,
            ) && attrs_tokens(i.attributes)[2 * j + 1] == TokView::Group(
                Delim::Bracket,
                #[trigger] i.attributes[j],
            ),
{
    lemma_attrs_tokens_shape(i.attributes);
    assert(spec_gen_it(i, outer).subrange(2, 2 + 2 * i.attributes.len() as int) =~= attrs_tokens(
        i.attributes,
    ));
}

proof fn lemma_attrs_tokens_app(a: Seq<Seq<TokView>>, b: Seq<Seq<TokView>>)
    ensures
        attrs_tokens(a + b) == attrs_tokens(a) + attrs_tokens(b),
    decreases a.len(),
{
    if a.len() == 0 {
        assert(a + b =~= b);
        assert(attrs_tokens(a) + attrs_tokens(b) =~= attrs_tokens(b));
    } else {
        assert((a + b).drop_first() =~= a.drop_first() + b);
        lemma_attrs_tokens_app(a.drop_first(), b);
        assert((a + b)[0] == a[0]);
        assert(attr_tokens(a[0]) + (attrs_tokens(a.drop_first()) + attrs_tokens(b)) =~= (
        attr_tokens(a[0]) + attrs_tokens(a.drop_first())) + attrs_tokens(b));
    }
}

// ---------------------------------------------------------------------
// The generator
// ---------------------------------------------------------------------

/// Appends a copy of each statement block of `src` to `dst`.
fn append_stmt_list(dst: &mut Vec<Vec<Tok>>, src: &Vec<Vec<Tok>>)
    ensures
        stmts_view(final(dst)@) == stmts_view(old(dst)@) + stmts_view(src@),
{
    let mut i: usize = 0;
    while i < src.len()
        invariant
            i <= src@.len(),
            dst@.len() == old(dst)@.len() + i,
            forall|j: int| 0 <= j < old(dst)@.len() ==> dst@[j] == old(dst)@[j],
            forall|j: int|
                0 <= j < i ==> toks_view(#[trigger] dst@[old(dst)@.len() + j]@) == toks_view(
                    src@[j]@,
                ),
        decreases src@.len() - i,
    {
        let b = toks_clone(&src[i]);
        dst.push(b);
        i += 1;
    }
    proof {
        assert forall|j: int| 0 <= j < dst@.len() implies stmts_view(dst@)[j] == (stmts_view(
            old(dst)@,
        ) + stmts_view(src@))[j] by {
            if j < old(dst)@.len() {
                assert(dst@[j] == old(dst)@[j]);
            } else {
                let jj = j - old(dst)@.len();
                assert(toks_view(dst@[old(dst)@.len() + jj]@) == toks_view(src@[jj]@));
            }
        }
        assert(stmts_view(dst@) =~= stmts_view(old(dst)@) + stmts_view(src@));
    }
}

/// Appends a copy of `src`'s tokens to `dst`.
fn append_toks_ref(dst: &mut Vec<Tok>, src: &Vec<Tok>)
    ensures
        toks_view(final(dst)@) == toks_view(old(dst)@) + toks_view(src@),
{
    let mut i: usize = 0;
    while i < src.len()
        invariant
            i <= src@.len(),
            dst@.len() == old(dst)@.len() + i,
            forall|j: int| 0 <= j < old(dst)@.len() ==> dst@[j] == old(dst)@[j],
            forall|j: int|
                0 <= j < i ==> tok_view(#[trigger] dst@[old(dst)@.len() + j]) == tok_view(src@[j]),
        decreases src@.len() - i,
    {
        let t = crate::token::tok_clone(&src[i]);
        dst.push(t);
        i += 1;
    }
    proof {
        lemma_toks_view_len(dst@);
        lemma_toks_view_len(old(dst)@);
        lemma_toks_view_len(src@);
        assert forall|j: int| 0 <= j < dst@.len() implies toks_view(dst@)[j] == (toks_view(
            old(dst)@,
        ) + toks_view(src@))[j] by {
            lemma_toks_view_index(dst@, j);
            if j < old(dst)@.len() {
                lemma_toks_view_index(old(dst)@, j);
                assert(dst@[j] == old(dst)@[j]);
            } else {
                let jj = j - old(dst)@.len();
                lemma_toks_view_index(src@, jj);
                assert(tok_view(dst@[old(dst)@.len() + jj]) == tok_view(src@[jj]));
            }
        }
        assert(toks_view(dst@) =~= toks_view(old(dst)@) + toks_view(src@));
    }
}

/// Appends the statements of each block of `blocks` to `dst`,
/// flattened in order.
fn append_flat(dst: &mut Vec<Tok>, blocks: &Vec<Vec<Tok>>)
    ensures
        toks_view(final(dst)@) == toks_view(old(dst)@) + concat_stmts(stmts_view(blocks@)),
{
    let mut i: usize = 0;
    while i < blocks.len()
        invariant
            i <= blocks@.len(),
            toks_view(dst@) == toks_view(old(dst)@) + concat_stmts(
                stmts_view(blocks@).take(i as int),
            ),
        decreases blocks@.len() - i,
    {
        append_toks_ref(dst, &blocks[i]);
        proof {
            let sv = stmts_view(blocks@);
            assert(sv.take(i as int + 1) =~= sv.take(i as int) + seq![sv[i as int]]);
            lemma_concat_stmts_app(sv.take(i as int), seq![sv[i as int]]);
            assert(seq![sv[i as int]].drop_first() =~= Seq::<Seq<TokView>>::empty());
            assert(concat_stmts(seq![sv[i as int]]) == sv[i as int] + concat_stmts(
                Seq::<Seq<TokView>>::empty(),
            ));
            assert(sv[i as int] + Seq::<TokView>::empty() =~= sv[i as int]);
            assert(sv[i as int] == toks_view(blocks@[i as int]@));
            assert(toks_view(old(dst)@) + concat_stmts(sv.take(i as int)) + sv[i as int]
                =~= toks_view(old(dst)@) + (concat_stmts(sv.take(i as int)) + sv[i as int]));
        }
        i += 1;
    }
    proof {
        assert(stmts_view(blocks@).take(blocks@.len() as int) =~= stmts_view(blocks@));
    }
}

fn kw_mod_vec() -> (r: Vec<char>)
    ensures
        r@ == kw_mod(),
{
    let r: Vec<char> = vec!['m', 'o', 'd'];
    proof {
        assert(r@ =~= kw_mod());
    }
    r
}

fn kw_use_vec() -> (r: Vec<char>)
    ensures
        r@ == kw_use(),
{
    let r: Vec<char> = vec!['u', 's', 'e'];
    proof {
        assert(r@ =~= kw_use());
    }
    r
}

fn kw_super_vec() -> (r: Vec<char>)
    ensures
        r@ == kw_super(),
{
    let r: Vec<char> = vec!['s', 'u', 'p', 'e', 'r'];
    proof {
        assert(r@ =~= kw_super());
    }
    r
}

fn kw_fn_vec() -> (r: Vec<char>)
    ensures
        r@ == kw_fn(),
{
    let r: Vec<char> = vec!['f', 'n'];
    proof {
        assert(r@ =~= kw_fn());
    }
    r
}

pub(crate) fn kw_allow_vec() -> (r: Vec<char>)
    ensures
        r@ == kw_allow(),
{
    let r: Vec<char> = vec!['a', 'l', 'l', 'o', 'w'];
    proof {
        assert(r@ =~= kw_allow());
    }
    r
}

fn kw_unused_imports_vec() -> (r: Vec<char>)
    ensures
        r@ == kw_unused_imports(),
{
    let r: Vec<char> = vec!['u', 'n', 'u', 's', 'e', 'd', '_', 'i', 'm', 'p', 'o', 'r', 't', 's'];
    proof {
        assert(r@ =~= kw_unused_imports());
    }
    r
}

fn kw_test_word_vec() -> (r: Vec<char>)
    ensures
        r@ == kw_test(),
{
    let r: Vec<char> = vec!['t', 'e', 's', 't'];
    proof {
        assert(r@ =~= kw_test());
    }
    r
}

fn test_prefix_vec() -> (r: Vec<char>)
    ensures
        r@ == test_prefix(),
{
    let r: Vec<char> = vec!['t', 'e', 's', 't', '_'];
    proof {
        assert(r@ =~= test_prefix());
    }
    r
}

/// Builds the preamble tokens of a generated namespace.
fn mod_prelude_vec() -> (r: Vec<Tok>)
    ensures
        toks_view(r@) == mod_prelude(),
{
    let mut paren: Vec<Tok> = Vec::new();
    paren.push(Tok::Word(kw_unused_imports_vec()));
    proof {
        assert(toks_view(paren@) =~= seq![TokView::Word(kw_unused_imports())]);
    }
    let mut bracket: Vec<Tok> = Vec::new();
    bracket.push(Tok::Word(kw_allow_vec()));
    let ghost pv = toks_view(paren@);
    bracket.push(Tok::Group(Delim::Paren, paren));
    proof {
        assert(toks_view(bracket@) =~= seq![
            TokView::Word(kw_allow()),
            TokView::Group(Delim::Paren, pv),
        ]);
    }
    let ghost bv = toks_view(bracket@);
    let mut r: Vec<Tok> = Vec::new();
    r.push(Tok::Punct('#', false));
    r.push(Tok::Group(Delim::Bracket, bracket));
    r.push(Tok::Word(kw_use_vec()));
    r.push(Tok::Word(kw_super_vec()));
    r.push(Tok::Punct(':', true));
    r.push(Tok::Punct(':', false));
    r.push(Tok::Punct('*', false));
    r.push(Tok::Punct(';', false));
    proof {
        assert(toks_view(r@) =~~= mod_prelude());
    }
    r
}

/// Generates one case under the inherited context.
fn gen_it(i: &It, outer: Option<&Ctx>) -> (r: Vec<Tok>)
    ensures
        toks_view(r@) == spec_gen_it(i@, ctx_opt_view(outer)),
{
    let mut body: Vec<Tok> = Vec::new();
    match outer {
        Some(c) => {
            append_flat(&mut body, &c.before);
            append_toks_ref(&mut body, &i.block);
            append_flat(&mut body, &c.after);
            proof {
                assert(toks_view(body@) =~= spec_it_body(i@, ctx_opt_view(outer)));
            }
        },
        None => {
            append_toks_ref(&mut body, &i.block);
            proof {
                assert(toks_view(body@) =~= spec_it_body(i@, ctx_opt_view(outer)));
            }
        },
    }
    let ghost bodyv = toks_view(body@);
    let mut name: Vec<char> = test_prefix_vec();
    let mut k: usize = 0;
    while k < i.name.len()
        invariant
            k <= i.name@.len(),
            name@ == test_prefix() + i.name@.take(k as int),
        decreases i.name@.len() - k,
    {
        name.push(i.name[k]);
        proof {
            assert(test_prefix() + i.name@.take(k as int) + seq![i.name@[k as int]] =~= test_prefix()
                + i.name@.take(k as int + 1));
        }
        k += 1;
    }
    proof {
        assert(i.name@.take(i.name@.len() as int) =~= i.name@);
    }
    let mut r: Vec<Tok> = Vec::new();
    r.push(Tok::Punct('#', false));
    let mut marker: Vec<Tok> = Vec::new();
    marker.push(Tok::Word(kw_test_word_vec()));
    proof {
        assert(toks_view(marker@) =~= seq![TokView::Word(kw_test())]);
    }
    r.push(Tok::Group(Delim::Bracket, marker));
    proof {
        assert(toks_view(r@) =~= attr_tokens(seq![TokView::Word(kw_test())]) + attrs_tokens(
            stmts_view(i.attributes@).take(0),
        ));
    }
    let mut a: usize = 0;
    while a < i.attributes.len()
        invariant
            a <= i.attributes@.len(),
            toks_view(r@) == attr_tokens(seq![TokView::Word(kw_test())]) + attrs_tokens(
                stmts_view(i.attributes@).take(a as int),
            ),
        decreases i.attributes@.len() - a,
    {
        let ghost r0 = r@;
        r.push(Tok::Punct('#', false));
        let ghost r1 = r@;
        let g = toks_clone(&i.attributes[a]);
        let ghost gv = toks_view(g@);
        r.push(Tok::Group(Delim::Bracket, g));
        proof {
            crate::token::lemma_toks_view_push(r0, Tok::Punct('#', false));
            assert(toks_view(r1) == toks_view(r0) + seq![TokView::Punct('#', false)]);
            assert(r@ == r1.push(r@[r@.len() - 1]));
            crate::token::lemma_toks_view_push(r1, r@[r@.len() - 1]);
            assert(tok_view(r@[r@.len() - 1]) == TokView::Group(Delim::Bracket, gv));
            assert(toks_view(r@) == toks_view(r1) + seq![TokView::Group(Delim::Bracket, gv)]);
            let av = stmts_view(i.attributes@);
            assert(av.take(a as int + 1) =~= av.take(a as int) + seq![av[a as int]]);
            lemma_attrs_tokens_app(av.take(a as int), seq![av[a as int]]);
            assert(seq![av[a as int]].drop_first() =~= Seq::<Seq<TokView>>::empty());
            assert(attrs_tokens(seq![av[a as int]]) == attr_tokens(av[a as int]) + attrs_tokens(
                Seq::<Seq<TokView>>::empty(),
            ));
            assert(attr_tokens(av[a as int]) + Seq::<TokView>::empty() =~= attr_tokens(
                av[a as int],
            ));
            assert(gv == av[a as int]);
            assert(toks_view(r@) =~= attr_tokens(seq![TokView::Word(kw_test())]) + attrs_tokens(
                av.take(a as int + 1),
            ));
        }
        a += 1;
    }
    proof {
        assert(stmts_view(i.attributes@).take(i.attributes@.len() as int) =~= stmts_view(
            i.attributes@,
        ));
    }
    r.push(Tok::Word(kw_fn_vec()));
    r.push(Tok::Word(name));
    r.push(Tok::Group(Delim::Paren, Vec::new()));
    r.push(Tok::Group(Delim::Brace, body));
    proof {
        assert(toks_view(Seq::<Tok>::empty()) =~= Seq::<TokView>::empty());
        assert(toks_view(r@) =~~= spec_gen_it(i@, ctx_opt_view(outer)));
    }
    r
}

/// Generates one group under the inherited context.
fn gen_describe(d: &Describe, outer: Option<&Ctx>) -> (r: Vec<Tok>)
    ensures
        toks_view(r@) == spec_gen_describe(d@, ctx_opt_view(outer)),
    decreases *d,
{
    let mut eb: Vec<Vec<Tok>> = Vec::new();
    let mut ea: Vec<Vec<Tok>> = Vec::new();
    match outer {
        Some(c) => {
            append_stmt_list(&mut eb, &c.before);
        },
        None => {},
    }
    append_stmt_list(&mut eb, &d.before);
    append_stmt_list(&mut ea, &d.after);
    match outer {
        Some(c) => {
            append_stmt_list(&mut ea, &c.after);
        },
        None => {},
    }
    let eff = Ctx { before: eb, after: ea };
    proof {
        assert(stmts_view(Seq::<Vec<Tok>>::empty()) =~= Seq::<Seq<TokView>>::empty());
        assert(eff@.before =~= spec_eff(d@, ctx_opt_view(outer)).before);
        assert(eff@.after =~= spec_eff(d@, ctx_opt_view(outer)).after);
        assert(eff@ =~~= spec_eff(d@, ctx_opt_view(outer)));
    }
    let mut items: Vec<Tok> = mod_prelude_vec();
    proof {
        assert(blocks_view(d.blocks@).take(0) =~= Seq::<BlockView>::empty());
        assert(mod_prelude() + Seq::<TokView>::empty() =~= mod_prelude());
    }
    let mut k: usize = 0;
    while k < d.blocks.len()
        invariant
            k <= d.blocks@.len(),
            eff@ == spec_eff(d@, ctx_opt_view(outer)),
            toks_view(items@) == mod_prelude() + spec_gen_blocks(
                blocks_view(d.blocks@).take(k as int),
                eff@,
            ),
        decreases d.blocks@.len() - k,
    {
        proof {
            assert(decreases_to!(*d => d.blocks));
            assert(decreases_to!(d.blocks => d.blocks@));
            assert(decreases_to!(d.blocks@ => d.blocks@[k as int]));
        }
        let mut child = gen_block(&d.blocks[k], &eff);
        let ghost child_seq = child@;
        let ghost items_seq = items@;
        items.append(&mut child);
        proof {
            crate::token::lemma_toks_view_app(items_seq, child_seq);
            assert(toks_view(items@) == toks_view(items_seq) + toks_view(child_seq));
            let bv = blocks_view(d.blocks@);
            assert(bv[k as int] == block_view(d.blocks@[k as int]));
            assert(toks_view(child_seq) == spec_gen_block(bv[k as int], eff@));
            assert(bv.take(k as int + 1) =~= bv.take(k as int) + seq![bv[k as int]]);
            lemma_gen_blocks_app(bv.take(k as int), seq![bv[k as int]], eff@);
            assert(seq![bv[k as int]].drop_first() =~= Seq::<BlockView>::empty());
            assert(spec_gen_blocks(seq![bv[k as int]], eff@) == spec_gen_block(bv[k as int], eff@)
                + spec_gen_blocks(Seq::<BlockView>::empty(), eff@));
            assert(spec_gen_block(bv[k as int], eff@) + Seq::<TokView>::empty() =~= spec_gen_block(
                bv[k as int],
                eff@,
            ));
            assert(mod_prelude() + spec_gen_blocks(bv.take(k as int), eff@) + spec_gen_block(
                bv[k as int],
                eff@,
            ) =~= mod_prelude() + (spec_gen_blocks(bv.take(k as int), eff@) + spec_gen_block(
                bv[k as int],
                eff@,
            )));
        }
        k += 1;
    }
    let name = chars_clone(&d.name);
    let mut r: Vec<Tok> = Vec::new();
    r.push(Tok::Word(kw_mod_vec()));
    r.push(Tok::Word(name));
    r.push(Tok::Group(Delim::Brace, items));
    proof {
        assert(blocks_view(d.blocks@).take(d.blocks@.len() as int) =~= blocks_view(d.blocks@));
        assert(toks_view(r@) =~~= spec_gen_describe(d@, ctx_opt_view(outer)));
    }
    r
}

/// Generates one child under the inherited context.
fn gen_block(b: &Block, c: &Ctx) -> (r: Vec<Tok>)
    ensures
        toks_view(r@) == spec_gen_block(b@, c@),
    decreases *b,
{
    match b {
        Block::Describe(d) => gen_describe(d, Some(c)),
        Block::It(i) => gen_it(i, Some(c)),
        Block::Item(ts) => toks_clone(ts),
    }
}

/// A node that can be rewritten into output tokens under an inherited
/// context.
pub trait Generate {
    /// The tokens this node generates under the given inherited
    /// context.
    spec fn generated(&self, outer: Option<CtxView>) -> Seq<TokView>;

    /// Generates this node's output tokens.
    fn generate(&self, outer: Option<&Ctx>) -> (r: Vec<Tok>)
        ensures
            toks_view(r@) == self.generated(ctx_opt_view(outer)),
    ;
}

impl Generate for Describe {
    open spec fn generated(&self, outer: Option<CtxView>) -> Seq<TokView> {
        spec_gen_describe(self@, outer)
    }

    fn generate(&self, outer: Option<&Ctx>) -> (r: Vec<Tok>) {
        gen_describe(self, outer)
    }
}

impl Generate for It {
    open spec fn generated(&self, outer: Option<CtxView>) -> Seq<TokView> {
        spec_gen_it(self@, outer)
    }

    fn generate(&self, outer: Option<&Ctx>) -> (r: Vec<Tok>) {
        gen_it(self, outer)
    }
}

impl Generate for Block {
    open spec fn generated(&self, outer: Option<CtxView>) -> Seq<TokView> {
        match outer {
            Some(c) => spec_gen_block(block_view(*self), c),
            None => spec_gen_block(
                block_view(*self),
                CtxView { before: Seq::empty(), after: Seq::empty() },
            ),
        }
    }

    fn generate(&self, outer: Option<&Ctx>) -> (r: Vec<Tok>) {
        match outer {
            Some(c) => gen_block(self, c),
            None => {
                let empty = Ctx { before: Vec::new(), after: Vec::new() };
                proof {
                    assert(stmts_view(Seq::<Vec<Tok>>::empty()) =~= Seq::<Seq<TokView>>::empty());
                    assert(empty@ =~~= CtxView {
                        before: Seq::<Seq<TokView>>::empty(),
                        after: Seq::<Seq<TokView>>::empty(),
                    });
                }
                gen_block(self, &empty)
            },
        }
    }
}

} // verus!
