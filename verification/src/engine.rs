//! The bridge to the external flex-layout engine: the style tree is
//! loaded into the engine node by node, the engine solves the
//! constraints, and the resolved placements are read back into a layout
//! tree that is congruent to the style tree by construction.

use vstd::prelude::*;

use taffy::style_helpers::{FromLength, FromPercent, TaffyAuto};

use crate::layout::{
    add_sat, layout_shape, layout_shape_seq, lemma_layout_shape_seq, lemma_lv_seq, lv, lv_seq,
    LayoutRect, LayoutV, WidgetLayoutNode,
};
use crate::style::{
    lemma_style_shape_seq, lemma_sv_seq, style_shape, style_shape_seq, sv, sv_seq, AlignItems,
    Dimension, FlexDirection, LayoutStyle, ShapeV, StyleV, WidgetStyleNode,
};

verus! {

#[verifier::external_type_specification]
#[verifier::external_body]
#[verifier::reject_recursive_types(NodeContext)]
pub struct ExTaffyTree<NodeContext>(taffy::TaffyTree<NodeContext>);

/// An engine-side constraint record being assembled; opaque to the
/// library, filled from a LayoutStyle and handed to the engine once.
/// (The engine's own style type carries a bound Verus cannot express,
/// so the value is held behind this struct instead of being declared.)
#[verifier::external_body]
pub struct EngineStyle {
    inner: taffy::Style,
}

/// The set of node handles the engine has given out for this tree.
/// What the engine resolved for a node is not modelled: the layout tree
/// the library returns carries those values as plain integers.
pub uninterp spec fn engine_nodes(t: taffy::TaffyTree) -> Set<u64>;

/// Relies on taffy::TaffyTree::new: a fresh tree holds no nodes.
#[verifier::external_body]
fn engine_new() -> (t: taffy::TaffyTree)
    ensures
        engine_nodes(t) == Set::<u64>::empty(),
{
    taffy::TaffyTree::new()
}

/// Relies on taffy::Style::default: the engine's default constraints.
#[verifier::external_body]
fn engine_default_style() -> EngineStyle {
    EngineStyle { inner: taffy::Style::default() }
}

/// Relies on the taffy::Style size field and taffy's AUTO,
/// from_length and from_percent constructors: converts the declared
/// width, value for value. A per-mille share becomes the fraction the
/// engine stores by reading it back as a millisecond duration's
/// seconds value, which keeps floating point out of the library's own
/// text.
#[verifier::external_body]
fn engine_set_width(es: &mut EngineStyle, c: &LayoutStyle) {
    es.inner.size.width = match c.width {
        Dimension::Auto => taffy::style::Dimension::AUTO,
        Dimension::Points(p) => taffy::style::Dimension::from_length(p),
        Dimension::Percent(p) => taffy::style::Dimension::from_percent(
            core::time::Duration::from_millis(u64::from(p)).as_secs_f64(),
        ),
    };
}

/// Relies on the taffy::Style size field: converts the declared
/// height exactly as `engine_set_width` converts the width.
#[verifier::external_body]
fn engine_set_height(es: &mut EngineStyle, c: &LayoutStyle) {
    es.inner.size.height = match c.height {
        Dimension::Auto => taffy::style::Dimension::AUTO,
        Dimension::Points(p) => taffy::style::Dimension::from_length(p),
        Dimension::Percent(p) => taffy::style::Dimension::from_percent(
            core::time::Duration::from_millis(u64::from(p)).as_secs_f64(),
        ),
    };
}

/// Relies on the taffy::Style fields flex_direction, gap and
/// flex_grow: writes the declared direction, spacing and grow weight
/// into the engine's own, value for value.
#[verifier::external_body]
fn engine_set_flex(es: &mut EngineStyle, c: &LayoutStyle) {
    es.inner.flex_direction = match c.flex_direction {
        FlexDirection::Row => taffy::style::FlexDirection::Row,
        FlexDirection::Column => taffy::style::FlexDirection::Column,
    };
    es.inner.gap.width = taffy::style::LengthPercentage::from_length(c.gap);
    es.inner.gap.height = taffy::style::LengthPercentage::from_length(c.gap);
    es.inner.flex_grow = c.grow.into();
}

/// Relies on the taffy::Style field align_items: writes the declared
/// cross-axis alignment into the engine's own, variant for variant.
#[verifier::external_body]
fn engine_set_align(es: &mut EngineStyle, c: &LayoutStyle) {
    es.inner.align_items = match c.align_items {
        None => None,
        Some(AlignItems::Start) => Some(taffy::style::AlignItems::START),
        Some(AlignItems::End) => Some(taffy::style::AlignItems::END),
        Some(AlignItems::Center) => Some(taffy::style::AlignItems::CENTER),
        Some(AlignItems::Stretch) => Some(taffy::style::AlignItems::STRETCH),
    };
}

/// Relies on taffy::TaffyTree::new_with_children: it always returns
/// Ok with a handle distinct from every live one (the slot map
/// versions its keys and nothing here frees a handle), linked over the
/// given children. A node's children must already be live, so every
/// link points from a newer node to older ones and the link structure
/// every tree built through this interface forms is acyclic.
#[verifier::external_body]
fn engine_node(t: &mut taffy::TaffyTree, style: EngineStyle, children: &Vec<u64>) -> (r: u64)
    requires
        forall|i: int|
            0 <= i < children@.len() ==> engine_nodes(*old(t)).contains(#[trigger] children@[i]),
    ensures
        engine_nodes(*final(t)) == engine_nodes(*old(t)).insert(r),
        !engine_nodes(*old(t)).contains(r),
{
    let ids: Vec<taffy::NodeId> = children.iter().map(|c| taffy::NodeId::from(*c)).collect();
    t.new_with_children(style.inner, &ids).map(u64::from).unwrap()
}

/// Relies on taffy::TaffyTree::compute_layout: it returns Ok
/// unconditionally, and it terminates on every tree built through this
/// interface, whose links are acyclic (see `engine_node`). The set of
/// live handles is unchanged.
#[verifier::external_body]
fn engine_solve(t: &mut taffy::TaffyTree, root: u64, avail_w: u32, avail_h: u32)
    requires
        engine_nodes(*old(t)).contains(root),
    ensures
        engine_nodes(*final(t)) == engine_nodes(*old(t)),
{
    let space = taffy::geometry::Size {
        width: taffy::style::AvailableSpace::from_length(avail_w),
        height: taffy::style::AvailableSpace::from_length(avail_h),
    };
    let _ = t.compute_layout(taffy::NodeId::from(root), space);
}

/// Relies on taffy::TaffyTree::layout: for a handle this tree gave out
/// it returns the node's resolved placement, relative to its parent;
/// read back in whole logical pixels, rounded.
#[verifier::external_body]
fn engine_layout(t: &taffy::TaffyTree, id: u64) -> (r: LayoutRect)
    requires
        engine_nodes(*t).contains(id),
{
    let l = t.layout(taffy::NodeId::from(id)).unwrap();
    LayoutRect {
        x: l.location.x.round() as i64,
        y: l.location.y.round() as i64,
        width: l.size.width.round() as i64,
        height: l.size.height.round() as i64,
    }
}

/// The engine-side handle tree built for one style tree: the handle of
/// each node, in the style tree's own shape.
struct IdTree {
    id: u64,
    children: Vec<IdTree>,
}

/// Every handle in the tree is one the engine gave out for `s`.
spec fn ids_ok(t: IdTree, s: Set<u64>) -> bool
    decreases t,
{
    s.contains(t.id) && (forall|i: int|
        0 <= i < t.children@.len() ==> ids_ok(#[trigger] t.children@[i], s))
}

/// A handle tree valid for a set of handles stays valid for any
/// superset: the engine only ever adds handles while a tree is built.
proof fn lemma_ids_ok_mono(t: IdTree, s1: Set<u64>, s2: Set<u64>)
    requires
        ids_ok(t, s1),
        s1.subset_of(s2),
    ensures
        ids_ok(t, s2),
    decreases t,
{
    assert forall|i: int| 0 <= i < t.children@.len() implies ids_ok(
        #[trigger] t.children@[i],
        s2,
    ) by {
        lemma_ids_ok_mono(t.children@[i], s1, s2);
    }
}

/// The branching structure of a handle tree.
spec fn id_shape(t: IdTree) -> ShapeV
    decreases t,
{
    ShapeV { children: id_shape_seq(t.children@) }
}

/// The branching structures of a forest of handle trees, elementwise.
spec fn id_shape_seq(s: Seq<IdTree>) -> Seq<ShapeV>
    decreases s,
{
    if s.len() == 0 {
        Seq::empty()
    } else {
        id_shape_seq(s.subrange(0, s.len() - 1)).push(id_shape(s[s.len() - 1]))
    }
}

/// `id_shape_seq` maps elementwise.
proof fn lemma_id_shape_seq(s: Seq<IdTree>)
    ensures
        id_shape_seq(s).len() == s.len(),
        forall|i: int| 0 <= i < s.len() ==> id_shape_seq(s)[i] == id_shape(s[i]),
    decreases s,
{
    if s.len() > 0 {
        lemma_id_shape_seq(s.subrange(0, s.len() - 1));
        assert forall|i: int| 0 <= i < s.len() implies id_shape_seq(s)[i] == id_shape(s[i]) by {
            if i < s.len() - 1 {
                assert(s.subrange(0, s.len() - 1)[i] == s[i]);
            }
        }
    }
}

/// Load one style tree into the engine: one node per style node,
/// created children-first and linked at creation in declaration
/// order. The handle tree returned has the style tree's shape, and
/// every handle in it is live in the engine.
fn build_engine(t: &mut taffy::TaffyTree, s: &WidgetStyleNode) -> (r: IdTree)
    ensures
        engine_nodes(*old(t)).subset_of(engine_nodes(*final(t))),
        ids_ok(r, engine_nodes(*final(t))),
        id_shape(r) == style_shape(sv(*s)),
    decreases *s,
{
    let n = s.children.len();
    let mut kids: Vec<IdTree> = Vec::new();
    let mut kid_ids: Vec<u64> = Vec::new();
    let mut i: usize = 0;
    while i < n
        invariant
            i <= n,
            n == s.children@.len(),
            kids@.len() == i,
            kid_ids@.len() == i,
            forall|k: int| 0 <= k < i ==> #[trigger] kid_ids@[k] == kids@[k].id,
            engine_nodes(*old(t)).subset_of(engine_nodes(*t)),
            forall|k: int| 0 <= k < i ==> ids_ok(#[trigger] kids@[k], engine_nodes(*t)),
            forall|k: int|
                0 <= k < i ==> id_shape(#[trigger] kids@[k]) == style_shape(sv(s.children@[k])),
        decreases n - i,
    {
        let ghost pre = engine_nodes(*t);
        let c = build_engine(t, &s.children[i]);
        proof {
            assert forall|k: int| 0 <= k < i + 1 implies ids_ok(
                #[trigger] kids@.push(c)[k],
                engine_nodes(*t),
            ) by {
                if k < i {
                    assert(kids@.push(c)[k] == kids@[k]);
                    lemma_ids_ok_mono(kids@[k], pre, engine_nodes(*t));
                } else {
                    assert(kids@.push(c)[k] == c);
                }
            }
        }
        let c_id = c.id;
        kids.push(c);
        kid_ids.push(c_id);
        i += 1;
    }
    let mut style = engine_default_style();
    engine_set_width(&mut style, &s.style);
    engine_set_height(&mut style, &s.style);
    engine_set_flex(&mut style, &s.style);
    engine_set_align(&mut style, &s.style);
    let ghost pre_node = engine_nodes(*t);
    proof {
        assert forall|k: int| 0 <= k < kid_ids@.len() implies engine_nodes(*t).contains(
            #[trigger] kid_ids@[k],
        ) by {
            assert(ids_ok(kids@[k], engine_nodes(*t)));
        }
    }
    let id = engine_node(t, style, &kid_ids);
    proof {
        assert(engine_nodes(*t) == pre_node.insert(id));
        assert forall|k: int| 0 <= k < n implies ids_ok(#[trigger] kids@[k], engine_nodes(*t)) by {
            lemma_ids_ok_mono(kids@[k], pre_node, engine_nodes(*t));
        }
    }
    let r = IdTree { id, children: kids };
    proof {
        lemma_id_shape_seq(r.children@);
        lemma_sv_seq(s.children@);
        lemma_style_shape_seq(sv_seq(s.children@));
        assert(id_shape_seq(r.children@) =~= style_shape_seq(sv_seq(s.children@)));
    }
    r
}

/// Read the resolved placements back: one layout node per handle, in
/// the handle tree's own shape and order. The engine reports each
/// placement relative to its parent; the walk carries the parent's
/// absolute origin down and accumulates it, so the tree returned holds
/// absolute positions, as the render walk and hit-testing expect.
fn read_engine(t: &taffy::TaffyTree, ids: &IdTree, origin_x: i64, origin_y: i64) -> (r:
    WidgetLayoutNode)
    requires
        ids_ok(*ids, engine_nodes(*t)),
    ensures
        layout_shape(lv(r)) == id_shape(*ids),
    decreases *ids,
{
    let relative = engine_layout(t, ids.id);
    let rect = LayoutRect {
        x: add_sat(origin_x, relative.x),
        y: add_sat(origin_y, relative.y),
        width: relative.width,
        height: relative.height,
    };
    let n = ids.children.len();
    let mut children: Vec<WidgetLayoutNode> = Vec::new();
    let mut i: usize = 0;
    while i < n
        invariant
            i <= n,
            n == ids.children@.len(),
            children@.len() == i,
            ids_ok(*ids, engine_nodes(*t)),
            forall|k: int|
                0 <= k < i ==> layout_shape(lv(#[trigger] children@[k])) == id_shape(
                    ids.children@[k],
                ),
        decreases n - i,
    {
        assert(ids_ok(ids.children@[i as int], engine_nodes(*t)));
        let c = read_engine(t, &ids.children[i], rect.x, rect.y);
        children.push(c);
        i += 1;
    }
    let r = WidgetLayoutNode { layout: rect, children };
    proof {
        lemma_lv_seq(r.children@);
        lemma_layout_shape_seq(lv_seq(r.children@));
        lemma_id_shape_seq(ids.children@);
        assert(layout_shape_seq(lv_seq(r.children@)) =~= id_shape_seq(ids.children@));
    }
    r
}

/// Solve one style tree against the available size. The engine solves
/// every tree this interface can build, so the call is total, and the
/// layout tree returned is congruent to the style tree: same shape,
/// same traversal order, one resolved placement per style node.
pub fn solve_layout(s: &WidgetStyleNode, avail_w: u32, avail_h: u32) -> (r: WidgetLayoutNode)
    ensures
        layout_shape(lv(r)) == style_shape(sv(*s)),
{
    let mut t = engine_new();
    let ids = build_engine(&mut t, s);
    engine_solve(&mut t, ids.id, avail_w, avail_h);
    read_engine(&t, &ids, 0, 0)
}

/// The congruence invariant: a style tree and the layout tree solved
/// for it have equal node counts and equal branching structure.
pub proof fn lemma_solve_congruent(s: StyleV, l: LayoutV)
    requires
        layout_shape(l) == style_shape(s),
    ensures
        layout_shape(l).node_count() == style_shape(s).node_count(),
{
}

} // verus!
