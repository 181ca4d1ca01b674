//! Layout-affecting attributes of a widget and the ephemeral style tree
//! that mirrors the widget tree 1:1 in shape and is consumed once by the
//! flex-layout engine.

use vstd::prelude::*;

verus! {

/// A size constraint along one axis.
#[derive(Clone, Copy, Debug, PartialEq, Eq, Structural)]
pub enum Dimension {
    /// Let the layout engine pick the size.
    Auto,
    /// A fixed size in logical pixels.
    Points(u32),
    /// A share of the parent's size, in tenths of a percent: a value
    /// of 1000 is the whole parent, 100 is a tenth of it.
    Percent(u16),
}

/// The main-axis direction for a flex container.
#[derive(Clone, Copy, Debug, PartialEq, Eq, Structural)]
pub enum FlexDirection {
    Row,
    Column,
}

/// Cross-axis alignment of a container's children.
#[derive(Clone, Copy, Debug, PartialEq, Eq, Structural)]
pub enum AlignItems {
    Start,
    End,
    Center,
    Stretch,
}

/// The layout constraints one widget declares: everything the layout
/// engine reads, and nothing else.
#[derive(Clone, Copy, Debug, PartialEq, Eq, Structural)]
pub struct LayoutStyle {
    pub width: Dimension,
    pub height: Dimension,
    pub flex_direction: FlexDirection,
    pub align_items: Option<AlignItems>,
    /// Space between adjacent children, in logical pixels.
    pub gap: u32,
    /// The flex-grow weight: how much of the free space this widget
    /// takes relative to its siblings; zero takes none.
    pub grow: u16,
}

impl LayoutStyle {
    /// The constraint set that leaves everything to the engine's defaults.
    pub open spec fn spec_plain() -> LayoutStyle {
        LayoutStyle {
            width: Dimension::Auto,
            height: Dimension::Auto,
            flex_direction: FlexDirection::Row,
            align_items: None,
            gap: 0,
            grow: 0,
        }
    }

    /// The constraint set that leaves everything to the engine's defaults.
    #[verifier::when_used_as_spec(spec_plain)]
    pub fn plain() -> (r: LayoutStyle)
        ensures
            r == LayoutStyle::spec_plain(),
    {
        LayoutStyle {
            width: Dimension::Auto,
            height: Dimension::Auto,
            flex_direction: FlexDirection::Row,
            align_items: None,
            gap: 0,
            grow: 0,
        }
    }
}

/// One node of the per-frame style tree: this widget's constraints plus
/// the style nodes of its children, in declaration order.
pub struct WidgetStyleNode {
    pub style: LayoutStyle,
    pub children: Vec<WidgetStyleNode>,
}

/// The mathematical model of a style tree: the same data with the
/// children as a sequence, usable in contracts.
pub struct StyleV {
    pub style: LayoutStyle,
    pub children: Seq<StyleV>,
}

/// The model of an executable style node.
pub open spec fn sv(s: WidgetStyleNode) -> StyleV
    decreases s,
{
    StyleV { style: s.style, children: sv_seq(s.children@) }
}

/// The models of a sequence of executable style nodes, elementwise.
pub open spec fn sv_seq(s: Seq<WidgetStyleNode>) -> Seq<StyleV>
    decreases s,
{
    if s.len() == 0 {
        Seq::empty()
    } else {
        sv_seq(s.subrange(0, s.len() - 1)).push(sv(s[s.len() - 1]))
    }
}

/// `sv_seq` maps elementwise: it keeps the length and models each node.
pub proof fn lemma_sv_seq(s: Seq<WidgetStyleNode>)
    ensures
        sv_seq(s).len() == s.len(),
        forall|i: int| 0 <= i < s.len() ==> sv_seq(s)[i] == sv(s[i]),
    decreases s,
{
    if s.len() > 0 {
        lemma_sv_seq(s.subrange(0, s.len() - 1));
        assert forall|i: int| 0 <= i < s.len() implies sv_seq(s)[i] == sv(s[i]) by {
            if i < s.len() - 1 {
                assert(s.subrange(0, s.len() - 1)[i] == s[i]);
            }
        }
    }
}

/// The bare branching structure of a tree: what remains when every
/// node's payload is forgotten.
pub struct ShapeV {
    pub children: Seq<ShapeV>,
}

impl ShapeV {
    /// The number of nodes in the tree, this node included.
    pub open spec fn node_count(self) -> nat
        decreases self,
    {
        1 + shape_count_seq(self.children)
    }
}

/// The number of nodes in a forest of shapes.
pub open spec fn shape_count_seq(s: Seq<ShapeV>) -> nat
    decreases s,
{
    if s.len() == 0 {
        0
    } else {
        shape_count_seq(s.subrange(0, s.len() - 1)) + s[s.len() - 1].node_count()
    }
}

/// The branching structure of a style tree.
pub open spec fn style_shape(s: StyleV) -> ShapeV
    decreases s,
{
    ShapeV { children: style_shape_seq(s.children) }
}

/// The branching structures of a forest of style trees, elementwise.
pub open spec fn style_shape_seq(s: Seq<StyleV>) -> Seq<ShapeV>
    decreases s,
{
    if s.len() == 0 {
        Seq::empty()
    } else {
        style_shape_seq(s.subrange(0, s.len() - 1)).push(style_shape(s[s.len() - 1]))
    }
}

/// `style_shape_seq` maps elementwise.
pub proof fn lemma_style_shape_seq(s: Seq<StyleV>)
    ensures
        style_shape_seq(s).len() == s.len(),
        forall|i: int| 0 <= i < s.len() ==> style_shape_seq(s)[i] == style_shape(s[i]),
    decreases s,
{
    if s.len() > 0 {
        lemma_style_shape_seq(s.subrange(0, s.len() - 1));
        assert forall|i: int| 0 <= i < s.len() implies style_shape_seq(s)[i] == style_shape(s[i]) by {
            if i < s.len() - 1 {
                assert(s.subrange(0, s.len() - 1)[i] == s[i]);
            }
        }
    }
}

} // verus!
