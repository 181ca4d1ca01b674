//! Draw primitives: the immutable, ordered output of the render walk,
//! consumed once by the rasterization backend and never retained.

use vstd::prelude::*;

use crate::layout::LayoutRect;
use crate::theme::Color;

verus! {

/// How a path primitive is rasterized.
#[derive(Clone, Copy, Debug, PartialEq, Eq, Structural)]
pub enum PathMode {
    Fill,
    Stroke,
}

/// One draw primitive: a path over a placement, or a run of text laid
/// at a placement's top-left corner, each with its resolved paint.
#[derive(Clone, Debug)]
pub enum Sketch {
    /// A rectangular path over the given placement.
    Path(LayoutRect, Color, PathMode),
    /// A run of text at the given placement, with its height in pixels.
    Text(String, LayoutRect, Color, u32),
}

/// The model of a draw primitive.
pub enum SketchV {
    Path(LayoutRect, Color, PathMode),
    Text(Seq<char>, LayoutRect, Color, u32),
}

/// The model of an executable sketch.
pub open spec fn skv(s: Sketch) -> SketchV {
    match s {
        Sketch::Path(r, c, m) => SketchV::Path(r, c, m),
        Sketch::Text(t, r, c, f) => SketchV::Text(t@, r, c, f),
    }
}

/// The models of a sequence of sketches, elementwise.
pub open spec fn skv_seq(s: Seq<Sketch>) -> Seq<SketchV>
    decreases s,
{
    if s.len() == 0 {
        Seq::empty()
    } else {
        skv_seq(s.subrange(0, s.len() - 1)).push(skv(s[s.len() - 1]))
    }
}

/// `skv_seq` maps elementwise.
pub proof fn lemma_skv_seq(s: Seq<Sketch>)
    ensures
        skv_seq(s).len() == s.len(),
        forall|i: int| 0 <= i < s.len() ==> skv_seq(s)[i] == skv(s[i]),
    decreases s,
{
    if s.len() > 0 {
        lemma_skv_seq(s.subrange(0, s.len() - 1));
        assert forall|i: int| 0 <= i < s.len() implies skv_seq(s)[i] == skv(s[i]) by {
            if i < s.len() - 1 {
                assert(s.subrange(0, s.len() - 1)[i] == s[i]);
            }
        }
    }
}

/// Concatenating sketch lists concatenates their models.
pub proof fn lemma_skv_seq_add(a: Seq<Sketch>, b: Seq<Sketch>)
    ensures
        skv_seq(a + b) == skv_seq(a) + skv_seq(b),
    decreases b,
{
    if b.len() == 0 {
        assert(a + b =~= a);
        assert(skv_seq(a + b) =~= skv_seq(a) + skv_seq(b));
    } else {
        let b0 = b.subrange(0, b.len() - 1);
        lemma_skv_seq_add(a, b0);
        assert((a + b).subrange(0, (a + b).len() - 1) =~= a + b0);
        assert((a + b)[(a + b).len() - 1] == b[b.len() - 1]);
        assert(skv_seq(a + b) =~= skv_seq(a) + skv_seq(b));
    }
}

} // verus!
