//! The per-tick merge state machine: pending events raise dirty flags,
//! callbacks escalate them, and the raised flags gate the update,
//! layout and render phases of exactly one tick. Flags are tick-local:
//! a fresh record is derived from the pending events each tick, so a
//! resize forces relayout for exactly the tick that sees it.

use vstd::prelude::*;

use crate::context::{Context, InteractionInfo};
use crate::engine::solve_layout;
use crate::layout::{layout_shape, lv, WidgetLayoutNode};
use crate::render::{render_count, render_model, render_walk};
use crate::sketch::{skv_seq, Sketch};
use crate::state::State;
use crate::style::style_shape;
use crate::theme::Theme;
use crate::update::Update;
use crate::widget::{no_bindings, style_of, wv, WidgetNode};

verus! {

/// One driver-level event pending at the start of a tick.
#[derive(Clone, Copy, Debug, PartialEq, Eq, Structural)]
pub enum Event {
    /// The window was resized to the given available size.
    Resize(u32, u32),
    /// The driver asks for a redraw (e.g. the window was exposed).
    RedrawRequested,
    /// The pointer moved.
    CursorMoved(i64, i64),
    /// The primary pointer button was pressed.
    MousePressed,
    /// A key went down.
    KeyInput(u32),
}

/// Whether an event is raw input: input makes callbacks run.
pub open spec fn is_input(e: Event) -> bool {
    e is CursorMoved || e is MousePressed || e is KeyInput
}

/// Whether any pending event is a resize.
pub open spec fn has_resize(es: Seq<Event>) -> bool {
    exists|i: int| 0 <= i < es.len() && (#[trigger] es[i]) is Resize
}

/// Whether any pending event asks for a redraw.
pub open spec fn has_redraw(es: Seq<Event>) -> bool {
    exists|i: int| 0 <= i < es.len() && (#[trigger] es[i]) is RedrawRequested
}

/// Whether any pending event is raw input.
pub open spec fn has_input(es: Seq<Event>) -> bool {
    exists|i: int| 0 <= i < es.len() && is_input(#[trigger] es[i])
}

/// The dirty flags one tick starts with, derived from its pending
/// events alone: a resize raises `layout` and `force`, a redraw
/// request raises `draw`, raw input raises `eval`.
pub open spec fn spec_flags_for(es: Seq<Event>) -> Update {
    Update {
        layout: has_resize(es),
        draw: has_redraw(es),
        force: has_resize(es),
        eval: has_input(es),
    }
}

/// Derive the dirty flags one tick starts with from its pending events.
pub fn flags_for_events(events: &Vec<Event>) -> (r: Update)
    ensures
        r == spec_flags_for(events@),
{
    let n = events.len();
    let mut r = Update::empty();
    let mut i: usize = 0;
    while i < n
        invariant
            i <= n,
            n == events@.len(),
            r.layout == has_resize(events@.subrange(0, i as int)),
            r.draw == has_redraw(events@.subrange(0, i as int)),
            r.force == has_resize(events@.subrange(0, i as int)),
            r.eval == has_input(events@.subrange(0, i as int)),
        decreases n - i,
    {
        let ghost pre = events@.subrange(0, i as int);
        let ghost post = events@.subrange(0, i as int + 1);
        proof {
            assert(post.subrange(0, i as int) =~= pre);
            assert(post[i as int] == events@[i as int]);
            assert forall|k: int| 0 <= k < post.len() implies post[k] == events@[k] by {}
            if has_resize(pre) {
                let w = choose|k: int| 0 <= k < pre.len() && (#[trigger] pre[k]) is Resize;
                assert(post[w] is Resize);
            }
            if has_redraw(pre) {
                let w = choose|k: int|
                    0 <= k < pre.len() && (#[trigger] pre[k]) is RedrawRequested;
                assert(post[w] is RedrawRequested);
            }
            if has_input(pre) {
                let w = choose|k: int| 0 <= k < pre.len() && is_input(#[trigger] pre[k]);
                assert(is_input(post[w]));
            }
            if !has_resize(pre) && events@[i as int] is Resize {
                assert(post[i as int] is Resize);
            }
        }
        match events[i] {
            Event::Resize(_, _) => {
                r.layout = true;
                r.force = true;
            },
            Event::RedrawRequested => {
                r.draw = true;
            },
            Event::CursorMoved(_, _) => {
                r.eval = true;
            },
            Event::MousePressed => {
                r.eval = true;
            },
            Event::KeyInput(_) => {
                r.eval = true;
            },
        }
        proof {
            assert(has_resize(post) == (has_resize(pre) || events@[i as int] is Resize)) by {
                if has_resize(post) && !has_resize(pre) {
                    let w = choose|k: int|
                        0 <= k < post.len() && (#[trigger] post[k]) is Resize;
                    if w < i {
                        assert(pre[w] is Resize);
                    }
                }
            }
            assert(has_redraw(post) == (has_redraw(pre) || events@[i as int] is RedrawRequested))
                by {
                if has_redraw(post) && !has_redraw(pre) {
                    let w = choose|k: int|
                        0 <= k < post.len() && (#[trigger] post[k]) is RedrawRequested;
                    if w < i {
                        assert(pre[w] is RedrawRequested);
                    }
                }
            }
            assert(has_input(post) == (has_input(pre) || is_input(events@[i as int]))) by {
                if has_input(post) && !has_input(pre) {
                    let w = choose|k: int| 0 <= k < post.len() && is_input(#[trigger] post[k]);
                    if w < i {
                        assert(is_input(pre[w]));
                    }
                }
            }
        }
        i += 1;
    }
    proof {
        assert(events@.subrange(0, n as int) =~= events@);
    }
    r
}

/// Ticks are independent: a tick whose events hold a resize starts
/// with `force` and `layout` raised, and the next tick, absent further
/// events, starts with every flag down again — `force` and `layout`
/// hold for exactly the tick after the resize.
pub proof fn lemma_resize_flags_scoped(with_resize: Seq<Event>, after: Seq<Event>)
    requires
        has_resize(with_resize),
        after.len() == 0,
    ensures
        spec_flags_for(with_resize).force,
        spec_flags_for(with_resize).layout,
        !spec_flags_for(after).force,
        !spec_flags_for(after).layout,
        !spec_flags_for(after).draw,
        !spec_flags_for(after).eval,
{
}

/// What one completed tick produced.
pub struct TickOutcome {
    /// The widget tree after the update phase.
    pub tree: WidgetNode,
    /// The flags the tick acted on, after the OR-merge of event flags
    /// and callback flags. They are not carried into the next tick.
    pub flags: Update,
    /// The record the update phase returned: the OR-fold of every
    /// widget-returned record, empty on a tick without raw input.
    pub callback_flags: Update,
    /// The layout tree for the tick's tree: freshly solved when
    /// `layout` or `force` was raised (or nothing was cached), else
    /// the cached one, still congruent.
    pub layout: WidgetLayoutNode,
    /// The frame drawn this tick, or nothing when no flag asked for
    /// draw work.
    pub sketches: Option<Vec<Sketch>>,
}

/// Run one tick: derive the flags from the pending events, run the
/// update phase whenever `eval` is raised (against the cached layout,
/// or one solved on the spot when none is cached yet), rebuild style
/// tree and layout if `layout` or `force` is raised, and render if
/// `draw` or `force` is raised. Within the tick, update completes
/// before layout, layout before render, and the tick always
/// completes: the engine solves every tree this library builds.
#[verifier::rlimit(30)]
pub fn run_tick<S: State>(
    w: WidgetNode,
    state: &mut S,
    theme: &Theme,
    cached: Option<WidgetLayoutNode>,
    events: &Vec<Event>,
    info: InteractionInfo,
    avail_w: u32,
    avail_h: u32,
) -> (r: TickOutcome)
    requires
        cached matches Some(l) ==> style_shape(style_of(wv(w))) == layout_shape(lv(l)),
    ensures
        // The update phase never touches layout constraints, so the
        // style tree is unchanged and the congruence invariant holds
        // of the layout tree that leaves the tick.
        style_of(wv(r.tree)) == style_of(wv(w)),
        style_shape(style_of(wv(r.tree))) == layout_shape(lv(r.layout)),
        // A tick without raw input neither runs callbacks nor touches
        // the state or the tree.
        !spec_flags_for(events@).eval ==> r.tree == w && *final(state) == *old(state),
        // Flags only escalate: every flag the events raised is still
        // raised in the flags the tick acted on.
        spec_flags_for(events@).layout ==> r.flags.layout,
        spec_flags_for(events@).draw ==> r.flags.draw,
        spec_flags_for(events@).force ==> r.flags.force,
        spec_flags_for(events@).eval == r.flags.eval,
        // The acted-on flags are exactly the OR of the event-raised
        // flags and the record the update phase returned.
        r.flags == spec_flags_for(events@).spec_or(r.callback_flags),
        !spec_flags_for(events@).eval ==> r.callback_flags == (Update {
            layout: false,
            draw: false,
            force: false,
            eval: false,
        }),
        (!info.clicked && no_bindings(wv(w))) ==> r.callback_flags == (Update {
            layout: false,
            draw: false,
            force: false,
            eval: false,
        }),
        // A tick whose press lands nowhere cannot touch the state.
        !info.clicked ==> *final(state) == *old(state),
        // Draw work happens exactly when `draw` or `force` is up, and
        // the frame is the render model of the tick's tree against its
        // layout tree: as many primitives as the widgets draw, in
        // pre-order.
        r.sketches is Some <==> (r.flags.draw || r.flags.force),
        r.sketches matches Some(sk) ==> skv_seq(sk@) == render_model(wv(r.tree), lv(r.layout), *theme)
            && sk@.len() == render_count(wv(r.tree)),
        // When no flag asks for relayout, the cached layout tree is
        // reused as it stands.
        cached matches Some(c) ==> ((!r.flags.layout && !r.flags.force) ==> r.layout == c),
{
    let mut flags = flags_for_events(events);
    let mut callback_flags = Update::empty();
    let ctx = Context::new(info, flags);
    let mut tree = w;
    // a layout to hit-test against: the cached one, else the declared
    // constraints solved on the spot (first tick)
    let mut layout_tree = match cached {
        Some(l) => l,
        None => {
            let style_tree = tree.style_node();
            solve_layout(&style_tree, avail_w, avail_h)
        },
    };
    if flags.eval {
        let (t2, uf) = tree.update(state, &ctx, &layout_tree);
        tree = t2;
        callback_flags = uf;
        flags = flags.or(&uf);
    }
    if flags.layout || flags.force {
        let style_tree = tree.style_node();
        layout_tree = solve_layout(&style_tree, avail_w, avail_h);
    }
    let sketches: Option<Vec<Sketch>> = if flags.draw || flags.force {
        Some(render_walk(&tree, &layout_tree, theme))
    } else {
        None
    };
    TickOutcome { tree, flags, callback_flags, layout: layout_tree, sketches }
}

} // verus!
