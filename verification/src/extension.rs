//! The identifier sanitizer: a pure, total conversion from arbitrary
//! free text to a valid bare identifier.
//!
//! The first character is kept when it may start an identifier;
//! otherwise a leading underscore is emitted, followed by the character
//! only when it may continue an identifier. Every later character is
//! kept when it may continue an identifier; a run of characters that may
//! not collapses to a single underscore. A trailing underscore produced
//! this way is stripped, except when the whole result is the single
//! placeholder underscore.

use vstd::prelude::*;

verus! {

/// Whether a character has the Unicode XID_Start property.
pub uninterp spec fn xid_start(c: char) -> bool;

/// Whether a character has the Unicode XID_Continue property.
pub uninterp spec fn xid_continue(c: char) -> bool;

/// Relies on unicode_xid::UnicodeXID::is_xid_start: a table lookup that
/// depends on the character alone.
#[verifier::external_body]
fn is_xid_start(c: char) -> (r: bool)
    ensures
        r == xid_start(c),
{
    unicode_xid::UnicodeXID::is_xid_start(c)
}

/// Relies on unicode_xid::UnicodeXID::is_xid_continue: a table lookup
/// that depends on the character alone.
#[verifier::external_body]
fn is_xid_continue(c: char) -> (r: bool)
    ensures
        r == xid_continue(c),
{
    unicode_xid::UnicodeXID::is_xid_continue(c)
}

/// The sanitized form of every character after the first. `sep` records
/// whether the last character already written was a collapsing
/// underscore.
pub open spec fn san_rest(rest: Seq<char>, sep: bool) -> Seq<char>
    decreases rest.len(),
{
    if rest.len() == 0 {
        Seq::empty()
    } else {
        let c = rest[0];
        if xid_continue(c) {
            seq![c] + san_rest(rest.drop_first(), false)
        } else if !sep {
            seq!['_'] + san_rest(rest.drop_first(), true)
        } else {
            san_rest(rest.drop_first(), true)
        }
    }
}

/// The sanitized form of a non-empty text, before the trailing
/// underscore is stripped.
pub open spec fn san_body(s: Seq<char>) -> Seq<char>
    recommends
        s.len() > 0,
{
    let c = s[0];
    if xid_start(c) {
        seq![c] + san_rest(s.drop_first(), false)
    } else if xid_continue(c) {
        seq!['_', c] + san_rest(s.drop_first(), false)
    } else {
        seq!['_'] + san_rest(s.drop_first(), true)
    }
}

/// The identifier that a free-text label sanitizes to.
pub open spec fn spec_to_ident(s: Seq<char>) -> Seq<char> {
    if s.len() == 0 {
        seq!['_']
    } else {
        let b = san_body(s);
        if b.len() > 1 && b.last() == '_' {
            b.drop_last()
        } else {
            b
        }
    }
}

/// Text that is already a valid bare identifier not ending in an
/// underscore.
pub open spec fn is_valid_ident(s: Seq<char>) -> bool {
    &&& s.len() > 0
    &&& xid_start(s[0])
    &&& forall|i: int| 1 <= i < s.len() ==> xid_continue(#[trigger] s[i])
    &&& s.last() != '_'
}

/// Converts arbitrary free text into a valid bare identifier. Total:
/// every input, including the empty text and text with no identifier
/// characters at all, yields an identifier (the placeholder underscore
/// in the degenerate cases).
pub fn to_ident(text: &Vec<char>) -> (r: Vec<char>)
    ensures
        r@ == spec_to_ident(text@),
{
    let mut out: Vec<char> = Vec::new();
    if text.len() == 0 {
        out.push('_');
        proof {
            assert(out@ =~= seq!['_']);
        }
        return out;
    }
    let first = text[0];
    let mut sep: bool = false;
    if is_xid_start(first) {
        out.push(first);
        proof {
            assert(out@ =~= seq![first]);
        }
    } else {
        out.push('_');
        if is_xid_continue(first) {
            out.push(first);
            proof {
                assert(out@ =~= seq!['_', first]);
            }
        } else {
            sep = true;
            proof {
                assert(out@ =~= seq!['_']);
            }
        }
    }
    let ghost body = san_body(text@);
    proof {
        assert(body == out@ + san_rest(text@.drop_first(), sep));
        assert(text@.skip(1) =~= text@.drop_first());
    }
    let mut i: usize = 1;
    while i < text.len()
        invariant
            1 <= i <= text@.len(),
            body == san_body(text@),
            body == out@ + san_rest(text@.skip(i as int), sep),
            out@.len() >= 1,
        decreases text@.len() - i,
    {
        let ghost rest = text@.skip(i as int);
        proof {
            assert(rest.len() > 0);
            assert(rest[0] == text@[i as int]);
            assert(rest.drop_first() =~= text@.skip(i as int + 1));
        }
        let c = text[i];
        let ghost out0 = out@;
        if is_xid_continue(c) {
            out.push(c);
            sep = false;
            proof {
                assert(san_rest(rest, false) == seq![c] + san_rest(rest.drop_first(), false));
                assert(san_rest(rest, true) == seq![c] + san_rest(rest.drop_first(), false));
                assert(out0 + san_rest(rest, false) =~= out@ + san_rest(rest.drop_first(), false));
                assert(out0 + san_rest(rest, true) =~= out@ + san_rest(rest.drop_first(), false));
            }
        } else if !sep {
            out.push('_');
            sep = true;
            proof {
                assert(san_rest(rest, false) == seq!['_'] + san_rest(rest.drop_first(), true));
                assert(out0 + san_rest(rest, false) =~= out@ + san_rest(rest.drop_first(), true));
            }
        } else {
            proof {
                assert(san_rest(rest, true) == san_rest(rest.drop_first(), true));
            }
        }
        i += 1;
    }
    proof {
        assert(text@.skip(text@.len() as int).len() == 0);
        assert(body == out@ + san_rest(text@.skip(text@.len() as int), sep));
        assert(out@ + Seq::<char>::empty() =~= out@);
        assert(out@ == body);
    }
    if out.len() > 1 && out[out.len() - 1] == '_' {
        proof {
            assert(out@.last() == '_');
        }
        let _ = out.pop();
        proof {
            assert(out@ == body.drop_last());
        }
    }
    out
}

/// Law: any text that already satisfies the valid bare-identifier rules
/// (and does not end in an underscore) sanitizes to itself unchanged.
pub proof fn lemma_to_ident_identity(s: Seq<char>)
    ensures
        is_valid_ident(s) ==> spec_to_ident(s) == s,
{
    if is_valid_ident(s) {
        assert forall|i: int| 0 <= i < s.drop_first().len() implies xid_continue(
            #[trigger] s.drop_first()[i],
        ) by {
            assert(s.drop_first()[i] == s[i + 1]);
        }
        lemma_san_rest_identity(s.drop_first());
        assert(seq![s[0]] + s.drop_first() =~= s);
        assert(san_body(s) == s);
    }
}

proof fn lemma_san_rest_identity(r: Seq<char>)
    requires
        forall|i: int| 0 <= i < r.len() ==> xid_continue(#[trigger] r[i]),
    ensures
        san_rest(r, false) == r,
    decreases r.len(),
{
    if r.len() > 0 {
        lemma_san_rest_identity(r.drop_first());
        assert(seq![r[0]] + r.drop_first() =~= r);
    }
}

} // verus!
