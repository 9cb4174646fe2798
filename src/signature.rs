//! Canonical text signatures of field types.
use vstd::prelude::*;
use crate::syntax::TypeExpr;

verus! {

/// The characters of Unicode's White_Space property.
pub open spec fn is_ws(c: char) -> bool {
    ||| ('\u{9}' <= c && c <= '\u{D}')
    ||| c == ' '
    ||| c == '\u{85}'
    ||| c == '\u{A0}'
    ||| c == '\u{1680}'
    ||| ('\u{2000}' <= c && c <= '\u{200A}')
    ||| c == '\u{2028}'
    ||| c == '\u{2029}'
    ||| c == '\u{202F}'
    ||| c == '\u{205F}'
    ||| c == '\u{3000}'
}

/// `s` with every whitespace character removed.
pub open spec fn strip_ws(s: Seq<char>) -> Seq<char>
    decreases s.len(),
{
    if s.len() == 0 {
        s
    } else if is_ws(s.last()) {
        strip_ws(s.drop_last())
    } else {
        strip_ws(s.drop_last()).push(s.last())
    }
}

pub open spec fn has_no_ws(s: Seq<char>) -> bool {
    forall|i: int| 0 <= i < s.len() ==> !is_ws(#[trigger] s[i])
}

/// The canonical signature of a type: its printed form without whitespace,
/// grouping unwrapped, and a reference with a lifetime marked by a leading `&`.
pub open spec fn signature_of(t: TypeExpr) -> Seq<char> {
    match t {
        TypeExpr::Path { text } => strip_ws(text@),
        TypeExpr::Reference { lifetime, elem } => if lifetime {
            seq!['&'] + strip_ws(elem@)
        } else {
            strip_ws(elem@)
        },
        TypeExpr::Group { elem } => strip_ws(elem@),
        TypeExpr::Other { text } => strip_ws(text@),
    }
}

/// A type is borrowed when it is a reference.
pub open spec fn is_reference_type(t: TypeExpr) -> bool {
    t is Reference
}

/// The resolved type of a field.
#[derive(Clone, Debug)]
pub struct TypeSignature {
    pub text: String,
    pub is_reference: bool,
}

/// Relies on String::push: appends one character.
#[verifier::external_body]
fn push_char(s: &mut String, c: char)
    ensures
        final(s)@ == old(s)@.push(c),
{
    s.push(c)
}

pub fn is_whitespace_char(c: char) -> (r: bool)
    ensures
        r == is_ws(c),
{
    ('\u{9}' <= c && c <= '\u{D}') || c == ' ' || c == '\u{85}' || c == '\u{A0}' || c == '\u{1680}'
        || ('\u{2000}' <= c && c <= '\u{200A}') || c == '\u{2028}' || c == '\u{2029}'
        || c == '\u{202F}' || c == '\u{205F}' || c == '\u{3000}'
}

/// Removes every whitespace character.
pub fn strip_whitespace(s: &str) -> (r: String)
    ensures
        r@ == strip_ws(s@),
{
    let n = s.unicode_len();
    let mut out = String::new();
    let mut i: usize = 0;
    while i < n
        invariant
            n == s@.len(),
            i <= n,
            out@ == strip_ws(s@.take(i as int)),
        decreases n - i,
    {
        let c = s.get_char(i);
        proof {
            assert(s@.take(i + 1).drop_last() =~= s@.take(i as int));
        }
        if !is_whitespace_char(c) {
            push_char(&mut out, c);
        }
        i = i + 1;
    }
    proof {
        assert(s@.take(i as int) =~= s@);
    }
    out
}

/// Computes the canonical signature of a type and whether it is borrowed.
pub fn resolve_type(ty: &TypeExpr) -> (r: TypeSignature)
    ensures
        r.text@ == signature_of(*ty),
        r.is_reference == is_reference_type(*ty),
{
    let text = match ty {
        TypeExpr::Path { text } => strip_whitespace(text.as_str()),
        TypeExpr::Reference { lifetime, elem } => {
            let inner = strip_whitespace(elem.as_str());
            if *lifetime {
                let mut marked = String::new();
                push_char(&mut marked, '&');
                marked.append(inner.as_str());
                proof {
                    assert(marked@ =~= seq!['&'] + inner@);
                }
                marked
            } else {
                inner
            }
        },
        TypeExpr::Group { elem } => strip_whitespace(elem.as_str()),
        TypeExpr::Other { text } => strip_whitespace(text.as_str()),
    };
    let is_reference = match ty {
        TypeExpr::Reference { .. } => true,
        _ => false,
    };
    TypeSignature { text, is_reference }
}

/// Two type expressions of the same shape whose printed parts differ at most in whitespace.
pub open spec fn same_up_to_spacing(t: TypeExpr, u: TypeExpr) -> bool {
    match (t, u) {
        (TypeExpr::Path { text: a }, TypeExpr::Path { text: b }) => strip_ws(a@) == strip_ws(b@),
        (
            TypeExpr::Reference { lifetime: l, elem: a },
            TypeExpr::Reference { lifetime: m, elem: b },
        ) => l == m && strip_ws(a@) == strip_ws(b@),
        (TypeExpr::Group { elem: a }, TypeExpr::Group { elem: b }) => strip_ws(a@) == strip_ws(b@),
        (TypeExpr::Other { text: a }, TypeExpr::Other { text: b }) => strip_ws(a@) == strip_ws(b@),
        _ => false,
    }
}

/// Removing whitespace leaves none behind.
pub proof fn lemma_strip_ws_has_no_ws(s: Seq<char>)
    ensures
        has_no_ws(strip_ws(s)),
    decreases s.len(),
{
    if s.len() > 0 {
        lemma_strip_ws_has_no_ws(s.drop_last());
    }
}

/// A text without whitespace is left as it is.
pub proof fn lemma_strip_ws_fixed(s: Seq<char>)
    requires
        has_no_ws(s),
    ensures
        strip_ws(s) == s,
    decreases s.len(),
{
    if s.len() > 0 {
        lemma_strip_ws_fixed(s.drop_last());
        assert(s.drop_last().push(s.last()) =~= s);
    }
}

/// Removing whitespace from a concatenation removes it from each part.
pub proof fn lemma_strip_ws_concat(a: Seq<char>, b: Seq<char>)
    ensures
        strip_ws(a + b) == strip_ws(a) + strip_ws(b),
    decreases b.len(),
{
    if b.len() == 0 {
        assert(a + b =~= a);
        assert(strip_ws(b) =~= Seq::<char>::empty());
        assert(strip_ws(a) + strip_ws(b) =~= strip_ws(a));
    } else {
        lemma_strip_ws_concat(a, b.drop_last());
        assert((a + b).drop_last() =~= a + b.drop_last());
        assert((a + b).last() == b.last());
        if !is_ws(b.last()) {
            assert(strip_ws(a) + strip_ws(b.drop_last()).push(b.last()) =~= (strip_ws(a)
                + strip_ws(b.drop_last())).push(b.last()));
        }
    }
}

/// Whitespace inserted anywhere in a text does not change what remains once
/// whitespace is removed.
pub proof fn lemma_strip_ws_ignores_inserted(a: Seq<char>, w: Seq<char>, b: Seq<char>)
    requires
        forall|i: int| 0 <= i < w.len() ==> is_ws(#[trigger] w[i]),
    ensures
        strip_ws(a + w + b) == strip_ws(a + b),
    decreases w.len(),
{
    if w.len() > 0 {
        lemma_strip_ws_concat(a + w, b);
        lemma_strip_ws_concat(a + w.drop_last(), b);
        lemma_strip_ws_concat(a, b);
        assert((a + w).drop_last() =~= a + w.drop_last());
        assert(is_ws(w[w.len() - 1]));
        lemma_strip_ws_ignores_inserted(a, w.drop_last(), b);
    }
}

/// A signature holds no whitespace, so resolving it again as a path type
/// gives it back unchanged.
pub proof fn lemma_signature_idempotent(t: TypeExpr, u: TypeExpr)
    requires
        u matches TypeExpr::Path { text } && text@ == signature_of(t),
    ensures
        has_no_ws(signature_of(t)),
        strip_ws(signature_of(t)) == signature_of(t),
        signature_of(u) == signature_of(t),
{
    match t {
        TypeExpr::Path { text } => lemma_strip_ws_has_no_ws(text@),
        TypeExpr::Reference { lifetime, elem } => {
            lemma_strip_ws_has_no_ws(elem@);
            if lifetime {
                let r = seq!['&'] + strip_ws(elem@);
                assert forall|i: int| 0 <= i < r.len() implies !is_ws(#[trigger] r[i]) by {
                    if i > 0 {
                        assert(r[i] == strip_ws(elem@)[i - 1]);
                    }
                }
            }
        },
        TypeExpr::Group { elem } => lemma_strip_ws_has_no_ws(elem@),
        TypeExpr::Other { text } => lemma_strip_ws_has_no_ws(text@),
    }
    lemma_strip_ws_fixed(signature_of(t));
}

/// Type expressions that differ only in spacing have the same signature and
/// the same reference flag.
pub proof fn lemma_signature_spacing_insensitive(t: TypeExpr, u: TypeExpr)
    requires
        same_up_to_spacing(t, u),
    ensures
        signature_of(t) == signature_of(u),
        is_reference_type(t) == is_reference_type(u),
{
}

} // verus!
