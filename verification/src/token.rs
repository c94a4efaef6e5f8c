//! The token model that the parser and the generator work on.
//!
//! Input and output are sequences of `Tok`: bare words, literals,
//! punctuation and delimited groups. String literals carry their text
//! value, so that group and case labels can be read; everything else is
//! carried verbatim.

use vstd::prelude::*;

verus! {

/// The delimiter of a token group.
#[derive(Debug, Clone, Copy, PartialEq, Eq, Structural)]
pub enum Delim {
    Paren,
    Bracket,
    Brace,
}

/// One token of the surface syntax.
#[derive(Debug)]
pub enum Tok {
    /// A bare word: an identifier or a keyword.
    Word(Vec<char>),
    /// A string literal, holding its text value.
    Text(Vec<char>),
    /// Any other literal, holding its verbatim spelling.
    Lit(Vec<char>),
    /// A punctuation character; the flag is true when it is joined to
    /// the token that follows (as in the first colon of a path).
    Punct(char, bool),
    /// A delimited group of tokens.
    Group(Delim, Vec<Tok>),
}

/// The mathematical value of a token.
#[verifier::ext_equal]
pub enum TokView {
    Word(Seq<char>),
    Text(Seq<char>),
    Lit(Seq<char>),
    Punct(char, bool),
    Group(Delim, Seq<TokView>),
}

pub open spec fn tok_view(t: Tok) -> TokView
    decreases t,
{
    match t {
        Tok::Word(s) => TokView::Word(s@),
        Tok::Text(s) => TokView::Text(s@),
        Tok::Lit(s) => TokView::Lit(s@),
        Tok::Punct(c, j) => TokView::Punct(c, j),
        Tok::Group(d, ts) => TokView::Group(d, toks_view(ts@)),
    }
}

pub open spec fn toks_view(ts: Seq<Tok>) -> Seq<TokView>
    decreases ts,
{
    if ts.len() == 0 {
        Seq::empty()
    } else {
        seq![tok_view(ts[0])] + toks_view(ts.drop_first())
    }
}

impl View for Tok {
    type V = TokView;

    open spec fn view(&self) -> TokView {
        tok_view(*self)
    }
}

pub broadcast proof fn lemma_toks_view_len(ts: Seq<Tok>)
    ensures
        (#[trigger] toks_view(ts)).len() == ts.len(),
    decreases ts,
{
    if ts.len() > 0 {
        lemma_toks_view_len(ts.drop_first());
    }
}

pub broadcast proof fn lemma_toks_view_index(ts: Seq<Tok>, i: int)
    requires
        0 <= i < ts.len(),
    ensures
        #[trigger] toks_view(ts)[i] == tok_view(ts[i]),
    decreases ts,
{
    if i == 0 {
        assert(toks_view(ts)[0] == tok_view(ts[0]));
    } else {
        lemma_toks_view_index(ts.drop_first(), i - 1);
        lemma_toks_view_len(ts.drop_first());
        assert(ts.drop_first()[i - 1] == ts[i]);
        assert(toks_view(ts)[i] == toks_view(ts.drop_first())[i - 1]);
    }
}

pub broadcast proof fn lemma_toks_view_push(ts: Seq<Tok>, t: Tok)
    ensures
        #[trigger] toks_view(ts.push(t)) == toks_view(ts) + seq![tok_view(t)],
{
    lemma_toks_view_len(ts.push(t));
    lemma_toks_view_len(ts);
    assert forall|i: int| 0 <= i < ts.len() + 1 implies toks_view(ts.push(t))[i] == (toks_view(ts)
        + seq![tok_view(t)])[i] by {
        lemma_toks_view_index(ts.push(t), i);
        if i < ts.len() {
            lemma_toks_view_index(ts, i);
            assert(ts.push(t)[i] == ts[i]);
        } else {
            assert(ts.push(t)[i] == t);
        }
    }
    assert(toks_view(ts.push(t)) =~= toks_view(ts) + seq![tok_view(t)]);
}

pub proof fn lemma_toks_view_app(a: Seq<Tok>, b: Seq<Tok>)
    ensures
        toks_view(a + b) == toks_view(a) + toks_view(b),
{
    lemma_toks_view_len(a + b);
    lemma_toks_view_len(a);
    lemma_toks_view_len(b);
    assert forall|i: int| 0 <= i < a.len() + b.len() implies toks_view(a + b)[i] == (toks_view(a)
        + toks_view(b))[i] by {
        lemma_toks_view_index(a + b, i);
        if i < a.len() {
            lemma_toks_view_index(a, i);
            assert((a + b)[i] == a[i]);
        } else {
            lemma_toks_view_index(b, i - a.len());
            assert((a + b)[i] == b[i - a.len()]);
        }
    }
    assert(toks_view(a + b) =~= toks_view(a) + toks_view(b));
}

pub proof fn lemma_toks_view_subrange(ts: Seq<Tok>, f: int, t: int)
    requires
        0 <= f <= t <= ts.len(),
    ensures
        toks_view(ts.subrange(f, t)) == toks_view(ts).subrange(f, t),
{
    lemma_toks_view_len(ts);
    lemma_toks_view_len(ts.subrange(f, t));
    assert forall|i: int| 0 <= i < t - f implies toks_view(ts.subrange(f, t))[i] == toks_view(
        ts,
    ).subrange(f, t)[i] by {
        lemma_toks_view_index(ts.subrange(f, t), i);
        lemma_toks_view_index(ts, f + i);
    }
    assert(toks_view(ts.subrange(f, t)) =~= toks_view(ts).subrange(f, t));
}

/// True when the two character vectors hold the same characters.
pub fn vec_char_eq(a: &Vec<char>, b: &Vec<char>) -> (r: bool)
    ensures
        r == (a@ == b@),
{
    if a.len() != b.len() {
        return false;
    }
    let mut i: usize = 0;
    while i < a.len()
        invariant
            a@.len() == b@.len(),
            i <= a@.len(),
            forall|j: int| 0 <= j < i ==> a@[j] == b@[j],
        decreases a@.len() - i,
    {
        if a[i] != b[i] {
            return false;
        }
        i += 1;
    }
    proof {
        assert(a@ =~= b@);
    }
    true
}

/// True when the two tokens are equal as values.
pub fn tok_eq(a: &Tok, b: &Tok) -> (r: bool)
    ensures
        r == (a@ == b@),
    decreases *a,
{
    match (a, b) {
        (Tok::Word(x), Tok::Word(y)) => vec_char_eq(x, y),
        (Tok::Text(x), Tok::Text(y)) => vec_char_eq(x, y),
        (Tok::Lit(x), Tok::Lit(y)) => vec_char_eq(x, y),
        (Tok::Punct(c1, j1), Tok::Punct(c2, j2)) => *c1 == *c2 && *j1 == *j2,
        (Tok::Group(d1, t1), Tok::Group(d2, t2)) => {
            if *d1 == *d2 {
                toks_eq(t1, t2)
            } else {
                false
            }
        },
        _ => false,
    }
}

/// True when the two token vectors are equal as values, element by element.
pub fn toks_eq(a: &Vec<Tok>, b: &Vec<Tok>) -> (r: bool)
    ensures
        r == (toks_view(a@) == toks_view(b@)),
    decreases a@,
{
    if a.len() != b.len() {
        proof {
            lemma_toks_view_len(a@);
            lemma_toks_view_len(b@);
        }
        return false;
    }
    let mut i: usize = 0;
    while i < a.len()
        invariant
            a@.len() == b@.len(),
            i <= a@.len(),
            forall|j: int| 0 <= j < i ==> toks_view(a@)[j] == toks_view(b@)[j],
        decreases a@.len() - i,
    {
        let same = tok_eq(&a[i], &b[i]);
        proof {
            lemma_toks_view_index(a@, i as int);
            lemma_toks_view_index(b@, i as int);
        }
        if !same {
            proof {
                assert(toks_view(a@)[i as int] != toks_view(b@)[i as int]);
            }
            return false;
        }
        i += 1;
    }
    proof {
        lemma_toks_view_len(a@);
        lemma_toks_view_len(b@);
        assert forall|j: int| 0 <= j < toks_view(a@).len() implies toks_view(a@)[j]
            == toks_view(b@)[j] by {
            lemma_toks_view_index(a@, j);
            lemma_toks_view_index(b@, j);
        }
        assert(toks_view(a@) =~= toks_view(b@));
    }
    true
}

/// A copy of a character vector.
pub fn chars_clone(v: &Vec<char>) -> (r: Vec<char>)
    ensures
        r@ == v@,
{
    let mut r: Vec<char> = Vec::new();
    let mut i: usize = 0;
    while i < v.len()
        invariant
            i <= v@.len(),
            r@ == v@.subrange(0, i as int),
        decreases v@.len() - i,
    {
        r.push(v[i]);
        proof {
            assert(r@ =~= v@.subrange(0, i + 1 as int));
        }
        i += 1;
    }
    proof {
        assert(v@.subrange(0, v@.len() as int) =~= v@);
    }
    r
}

/// A copy of a token.
pub fn tok_clone(t: &Tok) -> (r: Tok)
    ensures
        r@ == t@,
    decreases *t,
{
    match t {
        Tok::Word(s) => Tok::Word(chars_clone(s)),
        Tok::Text(s) => Tok::Text(chars_clone(s)),
        Tok::Lit(s) => Tok::Lit(chars_clone(s)),
        Tok::Punct(c, j) => Tok::Punct(*c, *j),
        Tok::Group(d, ts) => Tok::Group(*d, toks_clone(ts)),
    }
}

/// A copy of a token vector.
pub fn toks_clone(v: &Vec<Tok>) -> (r: Vec<Tok>)
    ensures
        toks_view(r@) == toks_view(v@),
        r@.len() == v@.len(),
    decreases v@,
{
    let mut r: Vec<Tok> = Vec::new();
    let mut i: usize = 0;
    while i < v.len()
        invariant
            i <= v@.len(),
            r@.len() == i,
            forall|j: int| 0 <= j < i ==> tok_view(#[trigger] r@[j]) == tok_view(v@[j]),
        decreases v@.len() - i,
    {
        let t = tok_clone(&v[i]);
        r.push(t);
        i += 1;
    }
    proof {
        lemma_toks_view_len(r@);
        lemma_toks_view_len(v@);
        assert forall|j: int| 0 <= j < toks_view(r@).len() implies toks_view(r@)[j]
            == toks_view(v@)[j] by {
            lemma_toks_view_index(r@, j);
            lemma_toks_view_index(v@, j);
        }
        assert(toks_view(r@) =~= toks_view(v@));
    }
    r
}

} // verus!
