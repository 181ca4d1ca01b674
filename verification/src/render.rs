//! The render walk: the widget tree and the congruent layout tree are
//! walked in lock-step, each widget's scheme is resolved from the
//! active theme, and the widgets' draw primitives are concatenated in
//! pre-order (self before children) into one flat frame.

use vstd::prelude::*;

use crate::layout::{layout_shape, layout_shape_seq, lemma_layout_shape_seq, lemma_lv_seq, lv,
    lv_seq, LayoutRect, LayoutV, WidgetLayoutNode};
use crate::sketch::{lemma_skv_seq_add, skv_seq, PathMode, Sketch, SketchV};
use crate::style::{lemma_style_shape_seq, style_shape, style_shape_seq, ShapeV};
use crate::theme::{Color, Theme};
use crate::widget::{lemma_style_of_seq, lemma_wv_seq, style_of, style_of_seq, wv, wv_seq,
    WidgetKind, WidgetNode, WidgetV};

verus! {

/// The paint a scheme gives for the semantic name "color", falling
/// back to opaque black when the scheme lacks it.
pub open spec fn scheme_color(scheme: Map<Seq<char>, Color>) -> Color {
    if scheme.contains_key("color"@) {
        scheme["color"@]
    } else {
        Color { r: 0, g: 0, b: 0, a: 255 }
    }
}

/// How many primitives one widget draws for itself, children aside: a
/// container draws nothing, a button its background, a text its run.
pub open spec fn own_sketch_count(kind: WidgetKind) -> nat {
    match kind {
        WidgetKind::Container => 0,
        WidgetKind::Button => 1,
        WidgetKind::Text => 1,
    }
}

/// The primitives one widget draws for itself, given its resolved
/// scheme and placement.
pub open spec fn own_sketches(v: WidgetV, rect: LayoutRect, scheme: Map<Seq<char>, Color>) -> Seq<
    SketchV,
> {
    match v.kind {
        WidgetKind::Container => Seq::empty(),
        WidgetKind::Button => seq![SketchV::Path(rect, scheme_color(scheme), PathMode::Fill)],
        WidgetKind::Text => seq![
            SketchV::Text(v.text, rect, scheme_color(scheme), v.font_size),
        ],
    }
}

/// The full frame a widget tree draws against a congruent layout tree:
/// this widget's own primitives, then each child's frame, in order.
pub open spec fn render_model(v: WidgetV, l: LayoutV, th: Theme) -> Seq<SketchV>
    decreases v,
{
    own_sketches(v, l.layout, th.spec_resolve(v.ident, v.kind)) + render_model_seq(
        v.children,
        l.children,
        th,
    )
}

/// The concatenated frames of a forest of widgets, zipped with their
/// layout trees in order.
pub open spec fn render_model_seq(vs: Seq<WidgetV>, ls: Seq<LayoutV>, th: Theme) -> Seq<SketchV>
    decreases vs,
{
    if vs.len() == 0 || ls.len() < vs.len() {
        Seq::empty()
    } else {
        render_model_seq(vs.subrange(0, vs.len() - 1), ls.subrange(0, vs.len() - 1), th)
            + render_model(vs[vs.len() - 1], ls[vs.len() - 1], th)
    }
}

/// The number of primitives a widget tree draws: its own, plus the sum
/// over its children.
pub open spec fn render_count(v: WidgetV) -> nat
    decreases v,
{
    own_sketch_count(v.kind) + render_count_seq(v.children)
}

/// The summed primitive counts of a forest of widgets.
pub open spec fn render_count_seq(s: Seq<WidgetV>) -> nat
    decreases s,
{
    if s.len() == 0 {
        0
    } else {
        render_count_seq(s.subrange(0, s.len() - 1)) + render_count(s[s.len() - 1])
    }
}

/// The frame's length is the sum over all widgets in the tree of the
/// number of primitives each widget draws for itself, whatever the
/// theme and the layout: rendering drops nothing and invents nothing.
pub proof fn lemma_render_model_len(v: WidgetV, l: LayoutV, th: Theme)
    requires
        style_shape(style_of(v)) == layout_shape(l),
    ensures
        render_model(v, l, th).len() == render_count(v),
    decreases v,
{
    lemma_style_of_seq(v.children);
    lemma_style_shape_seq(style_of_seq(v.children));
    lemma_layout_shape_seq(l.children);
    assert(style_shape_seq(style_of_seq(v.children)) == layout_shape_seq(l.children));
    assert(v.children.len() == l.children.len());
    assert forall|i: int|
        0 <= i < v.children.len() implies style_shape(style_of(#[trigger] v.children[i]))
        == layout_shape(l.children[i]) by {
        assert(style_shape_seq(style_of_seq(v.children))[i] == layout_shape_seq(l.children)[i]);
    }
    lemma_render_model_seq_len(v.children, l.children, th);
}

/// The concatenated frames of a forest have the summed length, when
/// each widget tree is congruent to its layout tree.
pub proof fn lemma_render_model_seq_len(vs: Seq<WidgetV>, ls: Seq<LayoutV>, th: Theme)
    requires
        vs.len() == ls.len(),
        forall|i: int|
            0 <= i < vs.len() ==> style_shape(style_of(#[trigger] vs[i])) == layout_shape(ls[i]),
    ensures
        render_model_seq(vs, ls, th).len() == render_count_seq(vs),
    decreases vs,
{
    if vs.len() > 0 {
        let n = vs.len() as int;
        let vs0 = vs.subrange(0, n - 1);
        let ls0 = ls.subrange(0, n - 1);
        assert forall|i: int|
            0 <= i < vs0.len() implies style_shape(style_of(#[trigger] vs0[i])) == layout_shape(
            ls0[i],
        ) by {
            assert(vs0[i] == vs[i]);
            assert(ls0[i] == ls[i]);
        }
        lemma_render_model_seq_len(vs0, ls0, th);
        lemma_render_model_len(vs[n - 1], ls[n - 1], th);
    }
}

/// Walk the widget tree and the congruent layout tree in lock-step and
/// emit the frame: each widget's scheme is resolved from the theme (its
/// registered scheme, else its category's default), its own primitives
/// come first, its children's after, in declaration order.
pub fn render_walk(w: &WidgetNode, l: &WidgetLayoutNode, th: &Theme) -> (r: Vec<Sketch>)
    requires
        style_shape(style_of(wv(*w))) == layout_shape(lv(*l)),
    ensures
        skv_seq(r@) == render_model(wv(*w), lv(*l), *th),
        r@.len() == render_count(wv(*w)),
    decreases *w,
{
    proof {
        lemma_wv_seq(w.children@);
        lemma_lv_seq(l.children@);
        lemma_style_of_seq(wv_seq(w.children@));
        lemma_style_shape_seq(style_of_seq(wv_seq(w.children@)));
        lemma_layout_shape_seq(lv_seq(l.children@));
        assert(style_shape_seq(style_of_seq(wv_seq(w.children@)))
            == layout_shape_seq(lv_seq(l.children@)));
        assert forall|k: int|
            0 <= k < w.children@.len() implies style_shape(style_of(
            #[trigger] wv_seq(w.children@)[k],
        )) == layout_shape(lv_seq(l.children@)[k]) by {
            assert(style_shape_seq(style_of_seq(wv_seq(w.children@)))[k]
                == layout_shape_seq(lv_seq(l.children@))[k]);
        }
    }
    let scheme = th.resolve(&w.ident, w.kind);
    let color = scheme.get_or(&String::from_str("color"), Color::black());
    proof {
        assert(color == scheme_color(th.spec_resolve(w.ident@, w.kind)));
    }
    let mut out: Vec<Sketch> = Vec::new();
    match w.kind {
        WidgetKind::Container => {},
        WidgetKind::Button => {
            out.push(Sketch::Path(l.layout, color, PathMode::Fill));
        },
        WidgetKind::Text => {
            out.push(Sketch::Text(w.text.clone(), l.layout, color, w.font_size));
        },
    }
    proof {
        crate::sketch::lemma_skv_seq(out@);
        assert(skv_seq(out@) =~= own_sketches(
            wv(*w),
            l.layout,
            th.spec_resolve(w.ident@, w.kind),
        ));
    }
    let ghost own = skv_seq(out@);
    proof {
        let vs = wv_seq(w.children@);
        let ls = lv_seq(l.children@);
        assert(render_model_seq(vs.subrange(0, 0), ls.subrange(0, 0), *th) =~= Seq::<
            SketchV,
        >::empty());
        assert(own + render_model_seq(vs.subrange(0, 0), ls.subrange(0, 0), *th) =~= own);
    }
    let n = w.children.len();
    let mut i: usize = 0;
    while i < n
        invariant
            i <= n,
            n == w.children@.len(),
            n == l.children@.len(),
            style_shape(style_of(wv(*w))) == layout_shape(lv(*l)),
            wv_seq(w.children@).len() == n,
            lv_seq(l.children@).len() == n,
            forall|k: int| 0 <= k < n ==> wv_seq(w.children@)[k] == wv(w.children@[k]),
            forall|k: int| 0 <= k < n ==> lv_seq(l.children@)[k] == lv(l.children@[k]),
            forall|k: int|
                0 <= k < n ==> style_shape(style_of(#[trigger] wv_seq(w.children@)[k]))
                    == layout_shape(lv_seq(l.children@)[k]),
            skv_seq(out@) == own + render_model_seq(
                wv_seq(w.children@).subrange(0, i as int),
                lv_seq(l.children@).subrange(0, i as int),
                *th,
            ),
        decreases n - i,
    {
        let ghost prev = out@;
        proof {
            assert(style_shape(style_of(#[trigger] wv_seq(w.children@)[i as int]))
                == layout_shape(lv_seq(l.children@)[i as int]));
            assert(wv_seq(w.children@)[i as int] == wv(w.children@[i as int]));
            assert(lv_seq(l.children@)[i as int] == lv(l.children@[i as int]));
        }
        let mut c = render_walk(&w.children[i], &l.children[i], th);
        let ghost cv = c@;
        out.append(&mut c);
        proof {
            assert(out@ == prev + cv);
            lemma_skv_seq_add(prev, cv);
            let vs = wv_seq(w.children@);
            let ls = lv_seq(l.children@);
            assert(vs.subrange(0, i + 1).subrange(0, i as int) =~= vs.subrange(0, i as int));
            assert(ls.subrange(0, i + 1).subrange(0, i as int) =~= ls.subrange(0, i as int));
            assert(vs.subrange(0, i + 1)[i as int] == vs[i as int]);
            assert(ls.subrange(0, i + 1)[i as int] == ls[i as int]);
            assert(render_model_seq(vs.subrange(0, i + 1), ls.subrange(0, i + 1), *th)
                == render_model_seq(vs.subrange(0, i as int), ls.subrange(0, i as int), *th)
                + render_model(vs[i as int], ls[i as int], *th));
            assert(skv_seq(out@) =~= own + render_model_seq(
                vs.subrange(0, i + 1),
                ls.subrange(0, i + 1),
                *th,
            ));
        }
        i += 1;
    }
    proof {
        let vs = wv_seq(w.children@);
        let ls = lv_seq(l.children@);
        assert(vs.subrange(0, n as int) =~= vs);
        assert(ls.subrange(0, n as int) =~= ls);
        lemma_render_model_len(wv(*w), lv(*l), *th);
        crate::sketch::lemma_skv_seq(out@);
    }
    out
}

impl WidgetNode {
    /// Produce this widget's draw primitives against its resolved
    /// layout: its own first, then its children's, in declaration
    /// order, each widget's scheme resolved from the active theme.
    pub fn render(&self, theme: &Theme, layout: &WidgetLayoutNode) -> (r: Vec<Sketch>)
        requires
            style_shape(style_of(wv(*self))) == layout_shape(lv(*layout)),
        ensures
            skv_seq(r@) == render_model(wv(*self), lv(*layout), *theme),
            r@.len() == render_count(wv(*self)),
    {
        render_walk(self, layout, theme)
    }
}

} // verus!
