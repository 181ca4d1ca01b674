//! The widget tree: a tagged-variant node type implementing the widget
//! capability set (produce a style node, consume interaction and mutate
//! state, produce draw primitives, report identity and category), with
//! owned children composing recursively.

use vstd::prelude::*;

use crate::context::Context;
use crate::layout::{layout_shape, layout_shape_seq, lemma_layout_shape_seq, lemma_lv_seq, lv,
    lv_seq, LayoutV, WidgetLayoutNode};
use crate::state::State;
use crate::style::{lemma_style_shape_seq, lemma_sv_seq, style_shape, style_shape_seq, sv, sv_seq,
    Dimension, LayoutStyle, StyleV, WidgetStyleNode};
use crate::update::Update;

verus! {

/// The category of a widget, the key for a theme's fallback scheme.
#[derive(Clone, Copy, Debug, PartialEq, Eq, Structural)]
pub enum WidgetKind {
    /// A pure grouping node: lays children out, draws nothing itself.
    Container,
    /// An interactive node: draws its background, dispatches presses.
    Button,
    /// A leaf that draws a run of text.
    Text,
}

/// One widget: its category, identity, layout constraints, content,
/// optional press callback, and owned children in declaration order.
pub struct WidgetNode {
    pub kind: WidgetKind,
    pub ident: String,
    pub style: LayoutStyle,
    /// The text this widget currently shows, read only by text widgets.
    pub text: String,
    /// A state binding: when set, the shown text is re-read from the
    /// state each update through this key.
    pub binding: Option<u64>,
    /// Text height in logical pixels, read only by text widgets.
    pub font_size: u32,
    /// The callback dispatched to the state when this widget is pressed.
    pub action: Option<u64>,
    pub children: Vec<WidgetNode>,
}

/// The mathematical model of a widget tree, with children as a sequence.
pub struct WidgetV {
    pub kind: WidgetKind,
    pub ident: Seq<char>,
    pub style: LayoutStyle,
    pub text: Seq<char>,
    pub binding: Option<u64>,
    pub font_size: u32,
    pub action: Option<u64>,
    pub children: Seq<WidgetV>,
}

/// The model of an executable widget node.
pub open spec fn wv(w: WidgetNode) -> WidgetV
    decreases w,
{
    WidgetV {
        kind: w.kind,
        ident: w.ident@,
        style: w.style,
        text: w.text@,
        binding: w.binding,
        font_size: w.font_size,
        action: w.action,
        children: wv_seq(w.children@),
    }
}

/// The models of a sequence of widget nodes, elementwise.
pub open spec fn wv_seq(s: Seq<WidgetNode>) -> Seq<WidgetV>
    decreases s,
{
    if s.len() == 0 {
        Seq::empty()
    } else {
        wv_seq(s.subrange(0, s.len() - 1)).push(wv(s[s.len() - 1]))
    }
}

/// `wv_seq` maps elementwise: it keeps the length and models each node.
pub proof fn lemma_wv_seq(s: Seq<WidgetNode>)
    ensures
        wv_seq(s).len() == s.len(),
        forall|i: int| 0 <= i < s.len() ==> wv_seq(s)[i] == wv(s[i]),
    decreases s,
{
    if s.len() > 0 {
        lemma_wv_seq(s.subrange(0, s.len() - 1));
        assert forall|i: int| 0 <= i < s.len() implies wv_seq(s)[i] == wv(s[i]) by {
            if i < s.len() - 1 {
                assert(s.subrange(0, s.len() - 1)[i] == s[i]);
            }
        }
    }
}

/// The style tree a widget tree declares: each node's constraints, in
/// the widget tree's own shape and order.
pub open spec fn style_of(v: WidgetV) -> StyleV
    decreases v,
{
    StyleV { style: v.style, children: style_of_seq(v.children) }
}

/// The style trees a forest of widgets declares, elementwise.
pub open spec fn style_of_seq(s: Seq<WidgetV>) -> Seq<StyleV>
    decreases s,
{
    if s.len() == 0 {
        Seq::empty()
    } else {
        style_of_seq(s.subrange(0, s.len() - 1)).push(style_of(s[s.len() - 1]))
    }
}

/// `style_of_seq` maps elementwise.
pub proof fn lemma_style_of_seq(s: Seq<WidgetV>)
    ensures
        style_of_seq(s).len() == s.len(),
        forall|i: int| 0 <= i < s.len() ==> style_of_seq(s)[i] == style_of(s[i]),
    decreases s,
{
    if s.len() > 0 {
        lemma_style_of_seq(s.subrange(0, s.len() - 1));
        assert forall|i: int| 0 <= i < s.len() implies style_of_seq(s)[i] == style_of(s[i]) by {
            if i < s.len() - 1 {
                assert(s.subrange(0, s.len() - 1)[i] == s[i]);
            }
        }
    }
}

/// Two widget trees show the same texts, node for node.
pub open spec fn same_texts(a: WidgetV, b: WidgetV) -> bool
    decreases a,
{
    a.text == b.text && a.children.len() == b.children.len() && (forall|i: int|
        0 <= i < a.children.len() ==> same_texts(#[trigger] a.children[i], b.children[i]))
}

/// No widget in the tree binds its text to the state.
pub open spec fn no_bindings(v: WidgetV) -> bool
    decreases v,
{
    v.binding is None && (forall|i: int|
        0 <= i < v.children.len() ==> no_bindings(#[trigger] v.children[i]))
}

/// Whether this tick's press lands on some widget of the tree: the
/// pointer inside the placement of a button with a declared callback,
/// at this node or inside some child, walking the congruent layout.
pub open spec fn press_hits(v: WidgetV, l: LayoutV, cursor: Option<(i64, i64)>) -> bool
    decreases v,
{
    ||| (v.kind == WidgetKind::Button && v.action is Some && (cursor matches Some(c)
        && l.layout.spec_contains(c.0, c.1)))
    ||| (exists|i: int|
        0 <= i < v.children.len() && i < l.children.len() && press_hits(
            #[trigger] v.children[i],
            l.children[i],
            cursor,
        ))
}

/// Every bound text widget in `b` shows a value that the state's
/// `read` could return for its binding key, against the one state `s`
/// every widget of a click-free tick sees.
pub open spec fn texts_read_from<S: State>(a: WidgetV, b: WidgetV, s: S) -> bool
    decreases a,
{
    (a.binding matches Some(bd) ==> (a.kind == WidgetKind::Text ==> (exists|t: String|
        (#[trigger] call_ensures(S::read, (&s, bd), t)) && t@ == b.text))) && a.children.len()
        == b.children.len() && (forall|i: int|
        0 <= i < a.children.len() ==> texts_read_from(#[trigger] a.children[i], b.children[i], s))
}

/// What the update phase keeps at every node: category, identity,
/// layout constraints, text size, callback and binding — and the shown
/// text wherever no binding re-reads it. Only bound texts may change.
pub open spec fn update_preserves(a: WidgetV, b: WidgetV) -> bool
    decreases a,
{
    b.kind == a.kind && b.ident == a.ident && b.style == a.style && b.font_size == a.font_size
        && b.action == a.action && b.binding == a.binding && (a.binding is None ==> b.text
        == a.text) && b.children.len() == a.children.len() && (forall|i: int|
        0 <= i < a.children.len() ==> update_preserves(#[trigger] a.children[i], b.children[i]))
}

impl WidgetNode {
    /// A grouping widget over the given children; draws nothing itself.
    pub fn container(children: Vec<WidgetNode>) -> (r: WidgetNode)
        ensures
            wv(r) == (WidgetV {
                kind: WidgetKind::Container,
                ident: "may-core:Container"@,
                style: LayoutStyle::plain(),
                text: ""@,
                binding: None::<u64>,
                font_size: 16u32,
                action: None::<u64>,
                children: wv_seq(children@),
            }),
    {
        WidgetNode {
            kind: WidgetKind::Container,
            ident: String::from_str("may-core:Container"),
            style: LayoutStyle::plain(),
            text: String::from_str(""),
            binding: None,
            font_size: 16,
            action: None,
            children,
        }
    }

    /// A pressable widget with no children yet; draws its background.
    /// Its default size is a tenth of the parent along both axes.
    pub fn button() -> (r: WidgetNode)
        ensures
            wv(r) == (WidgetV {
                kind: WidgetKind::Button,
                ident: "may-core:Button"@,
                style: (LayoutStyle {
                    width: Dimension::Percent(100),
                    height: Dimension::Percent(100),
                    ..LayoutStyle::plain()
                }),
                text: ""@,
                binding: None::<u64>,
                font_size: 16u32,
                action: None::<u64>,
                children: Seq::<WidgetV>::empty(),
            }),
    {
        let r = WidgetNode {
            kind: WidgetKind::Button,
            ident: String::from_str("may-core:Button"),
            style: LayoutStyle {
                width: Dimension::Percent(100),
                height: Dimension::Percent(100),
                ..LayoutStyle::plain()
            },
            text: String::from_str(""),
            binding: None,
            font_size: 16,
            action: None,
            children: Vec::new(),
        };
        proof {
            assert(r.children@ =~= Seq::<WidgetNode>::empty());
        }
        r
    }

    /// A leaf widget that draws the given fixed text.
    pub fn text(content: String) -> (r: WidgetNode)
        ensures
            wv(r) == (WidgetV {
                kind: WidgetKind::Text,
                ident: "may-widgets:Text"@,
                style: LayoutStyle::plain(),
                text: content@,
                binding: None::<u64>,
                font_size: 16u32,
                action: None::<u64>,
                children: Seq::<WidgetV>::empty(),
            }),
    {
        let r = WidgetNode {
            kind: WidgetKind::Text,
            ident: String::from_str("may-widgets:Text"),
            style: LayoutStyle::plain(),
            text: content,
            binding: None,
            font_size: 16,
            action: None,
            children: Vec::new(),
        };
        proof {
            assert(r.children@ =~= Seq::<WidgetNode>::empty());
        }
        r
    }

    /// A leaf widget whose text is re-read from the state each update.
    pub fn text_bound(binding: u64) -> (r: WidgetNode)
        ensures
            wv(r) == (WidgetV {
                kind: WidgetKind::Text,
                ident: "may-widgets:Text"@,
                style: LayoutStyle::plain(),
                text: ""@,
                binding: Some(binding),
                font_size: 16u32,
                action: None::<u64>,
                children: Seq::<WidgetV>::empty(),
            }),
    {
        let r = WidgetNode {
            kind: WidgetKind::Text,
            ident: String::from_str("may-widgets:Text"),
            style: LayoutStyle::plain(),
            text: String::from_str(""),
            binding: Some(binding),
            font_size: 16,
            action: None,
            children: Vec::new(),
        };
        proof {
            assert(r.children@ =~= Seq::<WidgetNode>::empty());
        }
        r
    }

    /// The identity every text widget reports.
    pub fn text_id() -> (r: String)
        ensures
            r@ == "may-widgets:Text"@,
    {
        String::from_str("may-widgets:Text")
    }

    /// This widget with the given layout constraints.
    pub fn with_style(self, style: LayoutStyle) -> (r: WidgetNode)
        ensures
            wv(r) == (WidgetV { style, ..wv(self) }),
    {
        WidgetNode { style, ..self }
    }

    /// This widget with the given identity, the key for theme lookup.
    pub fn with_ident(self, ident: String) -> (r: WidgetNode)
        ensures
            wv(r) == (WidgetV { ident: ident@, ..wv(self) }),
    {
        WidgetNode { ident, ..self }
    }

    /// This widget with a press callback: the action dispatched to the
    /// state when the widget is pressed.
    pub fn with_on_pressed(self, action: u64) -> (r: WidgetNode)
        ensures
            wv(r) == (WidgetV { action: Some(action), ..wv(self) }),
    {
        WidgetNode { action: Some(action), ..self }
    }

    /// This widget with one more child appended.
    pub fn with_child(self, child: WidgetNode) -> (r: WidgetNode)
        ensures
            wv(r) == (WidgetV { children: wv(self).children.push(wv(child)), ..wv(self) }),
    {
        let ghost old_children = self.children@;
        let mut s = self;
        s.children.push(child);
        proof {
            assert(s.children@ == old_children.push(child));
            assert(old_children.push(child).subrange(0, old_children.len() as int) =~= old_children);
        }
        s
    }

    /// This widget showing the given fixed text, with no binding.
    pub fn with_text(self, content: String) -> (r: WidgetNode)
        ensures
            wv(r) == (WidgetV { text: content@, binding: None::<u64>, ..wv(self) }),
    {
        WidgetNode { text: content, binding: None, ..self }
    }

    /// Replace the shown text with the given fixed text, dropping any
    /// binding.
    pub fn set_text(&mut self, content: String)
        ensures
            wv(*final(self)) == (WidgetV { text: content@, binding: None::<u64>, ..wv(*old(self)) }),
    {
        self.text = content;
        self.binding = None;
    }

    /// This widget with the given text height in logical pixels.
    pub fn with_font_size(self, font_size: u32) -> (r: WidgetNode)
        ensures
            wv(r) == (WidgetV { font_size, ..wv(self) }),
    {
        WidgetNode { font_size, ..self }
    }

    /// Replace the text height in logical pixels.
    pub fn set_font_size(&mut self, font_size: u32)
        ensures
            wv(*final(self)) == (WidgetV { font_size, ..wv(*old(self)) }),
    {
        self.font_size = font_size;
    }

    /// The identity this widget reports, the key for theme lookup.
    pub fn id(&self) -> (r: &String)
        ensures
            r@ == wv(*self).ident,
    {
        &self.ident
    }

    /// The category this widget reports, the key for the theme's
    /// fallback scheme.
    pub fn widget_type(&self) -> (r: WidgetKind)
        ensures
            r == wv(*self).kind,
    {
        self.kind
    }

    /// This widget's style node: its own layout constraints plus the
    /// style nodes of its children, recursively. Pure: the result is a
    /// function of the widget tree alone.
    pub fn style_node(&self) -> (r: WidgetStyleNode)
        ensures
            sv(r) == style_of(wv(*self)),
        decreases *self,
    {
        let n = self.children.len();
        let mut children: Vec<WidgetStyleNode> = Vec::new();
        let mut i: usize = 0;
        while i < n
            invariant
                i <= n,
                n == self.children@.len(),
                children@.len() == i,
                forall|k: int|
                    0 <= k < i ==> sv(#[trigger] children@[k]) == style_of(wv(self.children@[k])),
            decreases n - i,
        {
            let c = self.children[i].style_node();
            children.push(c);
            i += 1;
        }
        let r = WidgetStyleNode { style: self.style, children };
        proof {
            lemma_sv_seq(r.children@);
            lemma_wv_seq(self.children@);
            lemma_style_of_seq(wv_seq(self.children@));
            assert(sv_seq(r.children@) =~= style_of_seq(wv_seq(self.children@)));
        }
        r
    }

    /// Dispatch this tick's interaction into the tree, top-down, and
    /// OR-fold the flags every subtree wants escalated.
    ///
    /// A pressed button (pointer inside its last known placement, a
    /// press this tick, a declared callback) dispatches its declared
    /// action to the state and escalates at least `draw`; the state
    /// changes only under such a press, anywhere in the tree. A
    /// bound text widget re-reads its text from the state, escalating
    /// `draw` when the shown text changed; an unbound widget keeps its
    /// text. The layout constraints are untouched, so the cached
    /// layout tree stays congruent; without a press the state is
    /// untouched, and without a press or a binding anywhere, the tree
    /// comes back unchanged with no flag raised.
    #[verifier::loop_isolation(false)]
    pub fn update<S: State>(self, state: &mut S, ctx: &Context, l: &WidgetLayoutNode) -> (r: (
        WidgetNode,
        Update,
    ))
        requires
            style_shape(style_of(wv(self))) == layout_shape(lv(*l)),
        ensures
            style_of(wv(r.0)) == style_of(wv(self)),
            update_preserves(wv(self), wv(r.0)),
            // A bound text widget's shown text is exactly what `read`
            // returned for its binding, against the state as this
            // widget saw it.
            wv(self).binding matches Some(b) ==> (wv(self).kind == WidgetKind::Text ==> (
            exists|t: String|
                (#[trigger] call_ensures(S::read, (&*old(state), b), t)) && t@ == wv(r.0).text)),
            // On a click-free tick every bound text in the tree is a
            // value `read` returned for its binding, against the one
            // unchanged state.
            !ctx.info.clicked ==> texts_read_from(wv(self), wv(r.0), *old(state)),
            // The state is untouched unless the press lands on a
            // button with a declared callback somewhere in the tree.
            !(ctx.info.clicked && press_hits(wv(self), lv(*l), ctx.info.cursor)) ==> *final(state)
                == *old(state),
            !same_texts(wv(self), wv(r.0)) ==> r.1.draw,
            (!ctx.info.clicked && no_bindings(wv(self))) ==> wv(r.0) == wv(self) && r.1 == (
            Update { layout: false, draw: false, force: false, eval: false }),
            (wv(self).action is None && wv(self).binding is None && wv(self).children.len() == 0)
                ==> wv(r.0) == wv(self) && r.1 == (Update {
                layout: false,
                draw: false,
                force: false,
                eval: false,
            }),
            // A press that lands on a button with a declared callback,
            // anywhere in the tree, escalates at least `draw`.
            (ctx.info.clicked && press_hits(wv(self), lv(*l), ctx.info.cursor)) ==> r.1.draw,
        decreases self,
    {
        let ghost whole = self;
        let ghost orig = self.children@;
        proof {
            lemma_wv_seq(orig);
            lemma_lv_seq(l.children@);
            lemma_style_of_seq(wv_seq(orig));
            lemma_style_shape_seq(style_of_seq(wv_seq(orig)));
            lemma_layout_shape_seq(lv_seq(l.children@));
            assert(style_shape_seq(style_of_seq(wv_seq(orig)))
                == layout_shape_seq(lv_seq(l.children@)));
            assert forall|k: int|
                0 <= k < orig.len() implies style_shape(style_of(
                #[trigger] wv_seq(orig)[k],
            )) == layout_shape(lv_seq(l.children@)[k]) by {
                assert(style_shape_seq(style_of_seq(wv_seq(orig)))[k]
                    == layout_shape_seq(lv_seq(l.children@))[k]);
            }
        }
        let WidgetNode { kind, ident, style, mut text, binding, font_size, action, children } =
            self;
        let ghost mut read_witness: Option<String> = None;
        let mut flags = Update::empty();
        let is_button = match kind {
            WidgetKind::Button => true,
            _ => false,
        };
        if is_button && ctx.info.clicked {
            if let Some((cx, cy)) = ctx.info.cursor {
                if l.layout.contains(cx, cy) {
                    if let Some(a) = action {
                        let uf = state.apply(a);
                        flags = flags.or(&uf).or(&Update::draw_only());
                    }
                }
            }
        }
        let is_text = match kind {
            WidgetKind::Text => true,
            _ => false,
        };
        if is_text {
            if let Some(b) = binding {
                let newtext = state.read(b);
                proof {
                    assert(call_ensures(S::read, (&*old(state), b), newtext));
                    read_witness = Some(newtext);
                }
                let changed = !(newtext == text);
                if changed {
                    flags = flags.or(&Update::draw_only());
                }
                text = newtext;
            }
        }
        let n = children.len();
        proof {
            assert(l.children@.len() == n);
        }
        let ghost base_flags = flags;
        let mut kids = children;
        let mut new_kids: Vec<WidgetNode> = Vec::new();
        let mut i: usize = 0;
        while i < n
            invariant
                base_flags.draw ==> flags.draw,
                i <= n,
                n == orig.len(),
                n == l.children@.len(),
                kids@ == orig.subrange(i as int, n as int),
                new_kids@.len() == i,
                wv_seq(orig).len() == n,
                lv_seq(l.children@).len() == n,
                forall|k: int| 0 <= k < n ==> wv_seq(orig)[k] == wv(orig[k]),
                forall|k: int| 0 <= k < n ==> lv_seq(l.children@)[k] == lv(l.children@[k]),
                forall|k: int|
                    0 <= k < n ==> style_shape(style_of(#[trigger] wv_seq(orig)[k]))
                        == layout_shape(lv_seq(l.children@)[k]),
                forall|k: int|
                    0 <= k < i ==> style_of(wv(#[trigger] new_kids@[k])) == style_of(wv(orig[k])),
                forall|k: int|
                    0 <= k < i ==> update_preserves(wv(orig[k]), wv(#[trigger] new_kids@[k])),
                !(ctx.info.clicked && press_hits(wv(whole), lv(*l), ctx.info.cursor)) ==> *state
                    == *old(state),
                flags.draw || (text@ == whole.text@ && (forall|k: int|
                    0 <= k < i ==> same_texts(wv(orig[k]), wv(#[trigger] new_kids@[k])))),
                (!ctx.info.clicked && no_bindings(wv(whole))) ==> (flags == (Update {
                    layout: false,
                    draw: false,
                    force: false,
                    eval: false,
                }) && (forall|k: int| 0 <= k < i ==> wv(#[trigger] new_kids@[k]) == wv(orig[k]))),
                (wv(whole).action is None && wv(whole).binding is None && orig.len() == 0)
                    ==> flags == (Update { layout: false, draw: false, force: false, eval: false }),
                (ctx.info.clicked && (exists|j: int|
                    0 <= j < i && #[trigger] press_hits(
                        wv(orig[j]),
                        lv(l.children@[j]),
                        ctx.info.cursor,
                    ))) ==> flags.draw,
                !ctx.info.clicked ==> (forall|k: int|
                    0 <= k < i ==> texts_read_from(
                        wv(orig[k]),
                        wv(#[trigger] new_kids@[k]),
                        *old(state),
                    )),
            decreases n - i,
        {
            let c = kids.remove(0);
            proof {
                assert(c == orig.subrange(i as int, n as int)[0]);
                assert(c == orig[i as int]);
                assert(kids@ =~= orig.subrange(i as int + 1, n as int));
                assert(wv_seq(orig)[i as int] == wv(orig[i as int]));
                assert(lv_seq(l.children@)[i as int] == lv(l.children@[i as int]));
                assert(style_shape(style_of(wv_seq(orig)[i as int])) == layout_shape(
                    lv_seq(l.children@)[i as int],
                ));
                assert(style_shape(style_of(wv(c))) == layout_shape(lv(l.children@[i as int])));
                if no_bindings(wv(whole)) {
                    assert(wv(whole).children[i as int] == wv_seq(orig)[i as int]);
                    assert(no_bindings(wv(c)));
                }
                let ghost ch = whole.children;
                assert(orig == ch@);
                assert(c == ch@[i as int]);
                assert(decreases_to!(whole => ch));
                assert(decreases_to!(ch => ch@));
                assert(decreases_to!(ch@ => ch@[i as int]));
                assert(decreases_to!(whole => c));
            }
            proof {
                if ctx.info.clicked && press_hits(wv(c), lv(l.children@[i as int]), ctx.info.cursor) {
                    assert(wv(whole).children[i as int] == wv(c));
                    assert(lv(*l).children[i as int] == lv(l.children@[i as int]));
                    assert(press_hits(
                        wv(whole).children[i as int],
                        lv(*l).children[i as int],
                        ctx.info.cursor,
                    ));
                    assert(press_hits(wv(whole), lv(*l), ctx.info.cursor));
                }
            }
            let ghost flags_before = flags;
            let (c2, cf) = c.update(state, ctx, &l.children[i]);
            flags = flags.or(&cf);
            new_kids.push(c2);
            proof {
                assert forall|k: int|
                    0 <= k < i + 1 implies style_of(wv(#[trigger] new_kids@[k])) == style_of(
                    wv(orig[k]),
                ) by {
                    if k < i {
                        assert(new_kids@[k] == new_kids@.subrange(0, i as int)[k]);
                    }
                }
                assert forall|k: int|
                    0 <= k < i + 1 implies update_preserves(wv(orig[k]), wv(#[trigger] new_kids@[k])) by {
                    if k < i {
                        assert(new_kids@[k] == new_kids@.subrange(0, i as int)[k]);
                    }
                }
                if !flags.draw {
                    assert(!cf.draw);
                    assert(same_texts(wv(c), wv(c2)));
                    assert forall|k: int|
                        0 <= k < i + 1 implies same_texts(wv(orig[k]), wv(#[trigger] new_kids@[k]))
                        by {}
                }
                if !ctx.info.clicked && no_bindings(wv(whole)) {
                    assert(wv(c2) == wv(c));
                    assert(flags == flags_before);
                }
                if !ctx.info.clicked {
                    assert forall|k: int|
                        0 <= k < i + 1 implies texts_read_from(
                        wv(orig[k]),
                        wv(#[trigger] new_kids@[k]),
                        *old(state),
                    ) by {
                        if k < i {
                            assert(new_kids@[k] == new_kids@.subrange(0, i as int)[k]);
                        } else {
                            assert(texts_read_from(wv(c), wv(c2), *old(state)));
                        }
                    }
                }
                if ctx.info.clicked && (exists|j: int|
                    0 <= j < i + 1 && #[trigger] press_hits(
                        wv(orig[j]),
                        lv(l.children@[j]),
                        ctx.info.cursor,
                    )) {
                    let j = choose|j: int|
                        0 <= j < i + 1 && #[trigger] press_hits(
                            wv(orig[j]),
                            lv(l.children@[j]),
                            ctx.info.cursor,
                        );
                    if j == i {
                        assert(press_hits(wv(c), lv(l.children@[i as int]), ctx.info.cursor));
                        assert(cf.draw);
                    } else {
                        assert(flags_before.draw);
                    }
                    assert(flags.draw);
                }
            }
            i += 1;
        }
        let out = WidgetNode {
            kind,
            ident,
            style,
            text,
            binding,
            font_size,
            action,
            children: new_kids,
        };
        proof {
            lemma_wv_seq(out.children@);
            lemma_style_of_seq(wv_seq(out.children@));
            assert(style_of_seq(wv_seq(out.children@)) =~= style_of_seq(wv_seq(orig)));
            assert(style_of(wv(out)) =~= style_of(wv(whole)));
            assert forall|k: int|
                0 <= k < n implies update_preserves(
                #[trigger] wv(whole).children[k],
                wv(out).children[k],
            ) by {
                assert(wv(whole).children[k] == wv(orig[k]));
                assert(wv(out).children[k] == wv(out.children@[k]));
            }
            assert(update_preserves(wv(whole), wv(out)));
            if !flags.draw {
                assert(wv(out).text == wv(whole).text);
                assert forall|k: int|
                    0 <= k < n implies same_texts(
                    #[trigger] wv(whole).children[k],
                    wv(out).children[k],
                ) by {
                    assert(wv(whole).children[k] == wv(orig[k]));
                    assert(wv(out).children[k] == wv(out.children@[k]));
                }
                assert(same_texts(wv(whole), wv(out)));
            }
            assert forall|k: int|
                0 <= k < n implies update_preserves(
                #[trigger] wv(whole).children[k],
                wv(out).children[k],
            ) by {
                assert(wv(whole).children[k] == wv(orig[k]));
                assert(wv(out).children[k] == wv(out.children@[k]));
            }
            assert(update_preserves(wv(whole), wv(out)));
            if !ctx.info.clicked && no_bindings(wv(whole)) {
                assert forall|k: int|
                    0 <= k < n implies wv(out).children[k] == #[trigger] wv(whole).children[k] by {
                    assert(wv(out).children[k] == wv(out.children@[k]));
                    assert(wv(whole).children[k] == wv(orig[k]));
                }
                assert(wv(out).children =~= wv(whole).children);
                assert(wv(out) == wv(whole));
            }
            if wv(whole).action is None && wv(whole).binding is None && wv(whole).children.len()
                == 0 {
                assert(wv(out).children =~= wv(whole).children);
                assert(wv(out) == wv(whole));
            }
            if !ctx.info.clicked {
                assert forall|k: int|
                    0 <= k < n implies texts_read_from(
                    #[trigger] wv(whole).children[k],
                    wv(out).children[k],
                    *old(state),
                ) by {
                    assert(wv(whole).children[k] == wv(orig[k]));
                    assert(wv(out).children[k] == wv(out.children@[k]));
                }
                if wv(whole).kind == WidgetKind::Text && wv(whole).binding is Some {
                    assert(read_witness is Some);
                    match read_witness {
                        Some(tt) => {
                            match binding {
                                Some(bb) => {
                                    assert(call_ensures(S::read, (&*old(state), bb), tt));
                                    assert(tt@ == wv(out).text);
                                },
                                None => {},
                            }
                        },
                        None => {},
                    }
                }
                assert(texts_read_from(wv(whole), wv(out), *old(state)));
            }
            if ctx.info.clicked && press_hits(wv(whole), lv(*l), ctx.info.cursor) {
                if wv(whole).kind == WidgetKind::Button && wv(whole).action is Some && (
                ctx.info.cursor matches Some(cc) && l.layout.spec_contains(cc.0, cc.1)) {
                    assert(flags.draw);
                } else {
                    let j = choose|j: int|
                        0 <= j < wv(whole).children.len() && j < lv(*l).children.len()
                            && press_hits(
                            #[trigger] wv(whole).children[j],
                            lv(*l).children[j],
                            ctx.info.cursor,
                        );
                    assert(wv(whole).children[j] == wv(orig[j]));
                    assert(lv(*l).children[j] == lv(l.children@[j]));
                    assert(press_hits(wv(orig[j]), lv(l.children@[j]), ctx.info.cursor));
                    assert(flags.draw);
                }
            }
            if wv(whole).kind == WidgetKind::Text && wv(whole).binding is Some {
                assert(read_witness is Some);
                match read_witness {
                    Some(tt) => {
                        match binding {
                            Some(bb) => {
                                assert(call_ensures(S::read, (&*old(state), bb), tt));
                                assert(tt@ == wv(out).text);
                            },
                            None => {},
                        }
                    },
                    None => {},
                }
            }
        }
        (out, flags)
    }
}

/// Producing the style tree twice without an intervening update yields
/// structurally identical trees: the style node is a pure function of
/// the widget tree.
pub proof fn lemma_style_node_pure(w: WidgetNode, a: WidgetStyleNode, b: WidgetStyleNode)
    requires
        sv(a) == style_of(wv(w)),
        sv(b) == style_of(wv(w)),
    ensures
        sv(a) == sv(b),
{
}

} // verus!