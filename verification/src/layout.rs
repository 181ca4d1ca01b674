//! The resolved layout tree the layout engine returns: one node per
//! style node, congruent in shape and order, carrying the absolute
//! position and size the constraint solver assigned.

use vstd::prelude::*;

use crate::style::ShapeV;

verus! {

/// A resolved placement: the absolute top-left corner and the size of
/// one widget, in whole logical pixels.
#[derive(Clone, Copy, Debug, PartialEq, Eq, Structural)]
pub struct LayoutRect {
    pub x: i64,
    pub y: i64,
    pub width: i64,
    pub height: i64,
}

impl LayoutRect {
    /// The degenerate placement at the origin with no extent.
    pub open spec fn spec_zero() -> LayoutRect {
        LayoutRect { x: 0, y: 0, width: 0, height: 0 }
    }

    /// The degenerate placement at the origin with no extent.
    #[verifier::when_used_as_spec(spec_zero)]
    pub fn zero() -> (r: LayoutRect)
        ensures
            r == LayoutRect::spec_zero(),
    {
        LayoutRect { x: 0, y: 0, width: 0, height: 0 }
    }

    /// Whether a point lies inside this placement.
    pub open spec fn spec_contains(&self, px: i64, py: i64) -> bool {
        self.x <= px && px < self.x + self.width && self.y <= py && py < self.y + self.height
    }

    /// Whether a point lies inside this placement.
    #[verifier::when_used_as_spec(spec_contains)]
    pub fn contains(&self, px: i64, py: i64) -> (r: bool)
        ensures
            r == self.spec_contains(px, py),
    {
        self.x <= px && (px as i128) < (self.x as i128) + (self.width as i128) && self.y <= py
            && (py as i128) < (self.y as i128) + (self.height as i128)
    }
}

/// The saturating sum of two coordinates: accumulating placements
/// clamps at the representable range instead of wrapping.
pub open spec fn spec_add_sat(a: int, b: int) -> int {
    if a + b > i64::MAX {
        i64::MAX as int
    } else if a + b < i64::MIN {
        i64::MIN as int
    } else {
        a + b
    }
}

/// The saturating sum of two coordinates.
pub fn add_sat(a: i64, b: i64) -> (r: i64)
    ensures
        r as int == spec_add_sat(a as int, b as int),
{
    let s: i128 = a as i128 + b as i128;
    if s > i64::MAX as i128 {
        i64::MAX
    } else if s < i64::MIN as i128 {
        i64::MIN
    } else {
        s as i64
    }
}

/// One node of the layout tree: this widget's resolved placement plus
/// the layout nodes of its children, in the style tree's order.
pub struct WidgetLayoutNode {
    pub layout: LayoutRect,
    pub children: Vec<WidgetLayoutNode>,
}

/// The mathematical model of a layout tree.
pub struct LayoutV {
    pub layout: LayoutRect,
    pub children: Seq<LayoutV>,
}

/// The model of an executable layout node.
pub open spec fn lv(l: WidgetLayoutNode) -> LayoutV
    decreases l,
{
    LayoutV { layout: l.layout, children: lv_seq(l.children@) }
}

/// The models of a sequence of layout nodes, elementwise.
pub open spec fn lv_seq(s: Seq<WidgetLayoutNode>) -> Seq<LayoutV>
    decreases s,
{
    if s.len() == 0 {
        Seq::empty()
    } else {
        lv_seq(s.subrange(0, s.len() - 1)).push(lv(s[s.len() - 1]))
    }
}

/// `lv_seq` maps elementwise.
pub proof fn lemma_lv_seq(s: Seq<WidgetLayoutNode>)
    ensures
        lv_seq(s).len() == s.len(),
        forall|i: int| 0 <= i < s.len() ==> lv_seq(s)[i] == lv(s[i]),
    decreases s,
{
    if s.len() > 0 {
        lemma_lv_seq(s.subrange(0, s.len() - 1));
        assert forall|i: int| 0 <= i < s.len() implies lv_seq(s)[i] == lv(s[i]) by {
            if i < s.len() - 1 {
                assert(s.subrange(0, s.len() - 1)[i] == s[i]);
            }
        }
    }
}

/// The branching structure of a layout tree.
pub open spec fn layout_shape(l: LayoutV) -> ShapeV
    decreases l,
{
    ShapeV { children: layout_shape_seq(l.children) }
}

/// The branching structures of a forest of layout trees, elementwise.
pub open spec fn layout_shape_seq(s: Seq<LayoutV>) -> Seq<ShapeV>
    decreases s,
{
    if s.len() == 0 {
        Seq::empty()
    } else {
        layout_shape_seq(s.subrange(0, s.len() - 1)).push(layout_shape(s[s.len() - 1]))
    }
}

/// `layout_shape_seq` maps elementwise.
pub proof fn lemma_layout_shape_seq(s: Seq<LayoutV>)
    ensures
        layout_shape_seq(s).len() == s.len(),
        forall|i: int| 0 <= i < s.len() ==> layout_shape_seq(s)[i] == layout_shape(s[i]),
    decreases s,
{
    if s.len() > 0 {
        lemma_layout_shape_seq(s.subrange(0, s.len() - 1));
        assert forall|i: int| 0 <= i < s.len() implies layout_shape_seq(s)[i] == layout_shape(
            s[i],
        ) by {
            if i < s.len() - 1 {
                assert(s.subrange(0, s.len() - 1)[i] == s[i]);
            }
        }
    }
}

} // verus!
