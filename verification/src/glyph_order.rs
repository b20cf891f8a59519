//! The order of the glyphs of a font: characters first, by their code point;
//! then the parts that glyphs are put together from, by their name.

use vstd::prelude::*;
use vstd::std_specs::cmp::PartialEqSpecImpl;
use vstd::utf8::encode_utf8;
use crate::glyphs::Glyph;
use crate::glyphs::GlyphKind;

verus! {

/// Whether the bytes `a` come before the bytes `b` as a word comes before
/// another in a dictionary.
pub open spec fn lex_before(a: Seq<u8>, b: Seq<u8>) -> bool
    decreases a.len(),
{
    if b.len() == 0 {
        false
    } else if a.len() == 0 {
        true
    } else if a[0] != b[0] {
        a[0] < b[0]
    } else {
        lex_before(a.drop_first(), b.drop_first())
    }
}

/// Two rows of bytes that start alike are ordered as what follows the
/// common start.
pub proof fn lemma_lex_before_skips(a: Seq<u8>, b: Seq<u8>, k: int)
    requires
        0 <= k <= a.len(),
        k <= b.len(),
        forall|j: int| 0 <= j < k ==> a[j] == b[j],
    ensures
        lex_before(a, b) == lex_before(a.skip(k), b.skip(k)),
    decreases k,
{
    if k > 0 {
        let a1 = a.drop_first();
        let b1 = b.drop_first();
        assert forall|j: int| 0 <= j < k - 1 implies a1[j] == b1[j] by {
            assert(a[j + 1] == b[j + 1]);
        }
        lemma_lex_before_skips(a1, b1, k - 1);
        assert(a1.skip(k - 1) =~= a.skip(k));
        assert(b1.skip(k - 1) =~= b.skip(k));
        assert(a[0] == b[0]);
    } else {
        assert(a.skip(0) =~= a);
        assert(b.skip(0) =~= b);
    }
}

/// No row of bytes comes before itself.
pub proof fn lemma_lex_before_irreflexive(a: Seq<u8>)
    ensures
        !lex_before(a, a),
    decreases a.len(),
{
    if a.len() > 0 {
        lemma_lex_before_irreflexive(a.drop_first());
    }
}

/// Whether the bytes `a` come before the bytes `b`.
fn bytes_before(a: &[u8], b: &[u8]) -> (r: bool)
    ensures
        r == lex_before(a@, b@),
{
    let mut i: usize = 0;
    while i < a.len() && i < b.len()
        invariant
            i <= a@.len(),
            i <= b@.len(),
            forall|j: int| 0 <= j < i ==> a@[j] == b@[j],
        decreases a@.len() - i,
    {
        if a[i] != b[i] {
            proof {
                lemma_lex_before_skips(a@, b@, i as int);
                assert(a@.skip(i as int)[0] == a@[i as int]);
                assert(b@.skip(i as int)[0] == b@[i as int]);
            }
            return a[i] < b[i];
        }
        i += 1;
    }
    proof {
        lemma_lex_before_skips(a@, b@, i as int);
    }
    i < b.len()
}

impl Glyph {
    /// Whether this glyph comes before `other`: a character before another
    /// by its code point, every character before every part, and a part
    /// before another by its name.
    pub open spec fn comes_before(&self, other: &Glyph) -> bool {
        match (self.kind, other.kind) {
            (GlyphKind::Char(s), GlyphKind::Char(o)) => (s as u32) < (o as u32),
            (GlyphKind::Char(_), GlyphKind::Component) => true,
            (GlyphKind::Component, GlyphKind::Char(_)) => false,
            (GlyphKind::Component, GlyphKind::Component) => lex_before(
                encode_utf8(self.name@),
                encode_utf8(other.name@),
            ),
        }
    }

    /// Whether this glyph and `other` stand for the same: the same
    /// character, or parts of the same name.
    pub open spec fn same_as(&self, other: &Glyph) -> bool {
        match (self.kind, other.kind) {
            (GlyphKind::Char(s), GlyphKind::Char(o)) => s == o,
            (GlyphKind::Component, GlyphKind::Component) => self.name@ == other.name@,
            _ => false,
        }
    }

    /// Whether this glyph comes before `other` in the order of the glyphs.
    pub fn precedes(&self, other: &Glyph) -> (r: bool)
        ensures
            r == self.comes_before(other),
    {
        match (self.kind, other.kind) {
            (GlyphKind::Char(s), GlyphKind::Char(o)) => (s as u32) < (o as u32),
            (GlyphKind::Char(_), GlyphKind::Component) => true,
            (GlyphKind::Component, GlyphKind::Char(_)) => false,
            (GlyphKind::Component, GlyphKind::Component) => bytes_before(
                self.name.as_str().as_bytes(),
                other.name.as_str().as_bytes(),
            ),
        }
    }
}

/// No glyph comes before a glyph that stands for the same.
pub proof fn lemma_same_glyphs_are_level(a: &Glyph, b: &Glyph)
    requires
        a.same_as(b),
    ensures
        !a.comes_before(b),
        !b.comes_before(a),
{
    lemma_lex_before_irreflexive(encode_utf8(a.name@));
}

impl PartialEq for Glyph {
    fn eq(&self, other: &Glyph) -> (r: bool) {
        match (self.kind, other.kind) {
            (GlyphKind::Char(s), GlyphKind::Char(o)) => s == o,
            (GlyphKind::Component, GlyphKind::Component) => self.name == other.name,
            _ => false,
        }
    }
}

impl PartialEqSpecImpl for Glyph {
    open spec fn obeys_eq_spec() -> bool {
        true
    }

    open spec fn eq_spec(&self, other: &Glyph) -> bool {
        self.same_as(other)
    }
}

} // verus!
