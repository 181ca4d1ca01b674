use may_core::context::InteractionInfo;
use may_core::engine::solve_layout;
use may_core::layout::WidgetLayoutNode;
use may_core::pipeline::{flags_for_events, run_tick, Event};
use may_core::render::render_walk;
use may_core::sketch::Sketch;
use may_core::state::State;
use may_core::style::{Dimension, FlexDirection, LayoutStyle, WidgetStyleNode};
use may_core::theme::{Color, Scheme, Theme};
use may_core::update::Update;
use may_core::widget::WidgetNode;

fn style_count(s: &WidgetStyleNode) -> usize {
    let mut n = 1;
    for c in &s.children {
        n += style_count(c);
    }
    n
}

fn layout_count(l: &WidgetLayoutNode) -> usize {
    let mut n = 1;
    for c in &l.children {
        n += layout_count(c);
    }
    n
}

fn same_branching(s: &WidgetStyleNode, l: &WidgetLayoutNode) -> bool {
    if s.children.len() != l.children.len() {
        return false;
    }
    for i in 0..s.children.len() {
        if !same_branching(&s.children[i], &l.children[i]) {
            return false;
        }
    }
    true
}

fn styles_identical(a: &WidgetStyleNode, b: &WidgetStyleNode) -> bool {
    if a.style != b.style || a.children.len() != b.children.len() {
        return false;
    }
    for i in 0..a.children.len() {
        if !styles_identical(&a.children[i], &b.children[i]) {
            return false;
        }
    }
    true
}

fn plain_theme() -> Theme {
    let mut button = Scheme::empty();
    button.set(String::from("color"), Color::rgb(95, 90, 120));
    let mut text = Scheme::empty();
    text.set(String::from("color"), Color::rgb(200, 10, 10));
    Theme::new(Scheme::empty(), button, text)
}

fn sized(width: u32, height: u32) -> LayoutStyle {
    LayoutStyle {
        width: Dimension::Points(width),
        height: Dimension::Points(height),
        flex_direction: FlexDirection::Row,
        align_items: None,
        gap: 0,
        grow: 0,
    }
}

struct CounterState {
    count: i64,
}

impl State for CounterState {
    fn apply(&mut self, action: u64) -> Update {
        if action == 0 {
            self.count += 1;
        } else {
            self.count -= 1;
        }
        Update::draw_only()
    }

    fn read(&self, _binding: u64) -> String {
        self.count.to_string()
    }
}

fn counter_tree() -> WidgetNode {
    let button_a = WidgetNode::button().with_style(sized(100, 20)).with_on_pressed(0);
    let button_b = WidgetNode::button().with_style(sized(100, 20)).with_on_pressed(1);
    let text = WidgetNode::text_bound(0);
    let mut style = sized(300, 200);
    style.flex_direction = FlexDirection::Column;
    WidgetNode::container(vec![button_a, button_b, text]).with_style(style)
}

#[test]
fn style_node_twice_is_structurally_identical() {
    let tree = counter_tree();
    let a = tree.style_node();
    let b = tree.style_node();
    assert!(styles_identical(&a, &b));
}

#[test]
fn empty_widget_yields_one_node_style_and_layout_tree() {
    let w = WidgetNode::button();
    let s = w.style_node();
    assert_eq!(s.children.len(), 0);
    assert_eq!(style_count(&s), 1);
    let l = solve_layout(&s, 640, 480);
    assert_eq!(layout_count(&l), 1);
}

#[test]
fn style_and_layout_trees_are_congruent_at_every_depth() {
    // depth 0: a single leaf
    let mut tree = WidgetNode::text(String::from("leaf"));
    for depth in 0..4 {
        let s = tree.style_node();
        let l = solve_layout(&s, 800, 600);
        assert_eq!(style_count(&s), layout_count(&l), "depth {depth}");
        assert!(same_branching(&s, &l), "depth {depth}");
        // deepen: wrap in a container with one extra sibling
        tree = WidgetNode::container(vec![tree, WidgetNode::button()]);
    }
}

#[test]
fn render_output_length_is_the_sum_of_widget_sketches() {
    // container (0) -> two buttons (1 each) + one text (1): 3 sketches
    let tree = counter_tree();
    let s = tree.style_node();
    let l = solve_layout(&s, 300, 200);
    let frame = render_walk(&tree, &l, &plain_theme());
    assert_eq!(frame.len(), 3);
}

#[test]
fn render_resolves_schemes_and_falls_back_per_category() {
    let tree = counter_tree();
    let s = tree.style_node();
    let l = solve_layout(&s, 300, 200);
    let frame = render_walk(&tree, &l, &plain_theme());
    // no identity is registered in the theme: every widget uses its
    // category default, buttons first (pre-order), text last
    match &frame[0] {
        Sketch::Path(_, color, _) => assert_eq!(*color, Color::rgb(95, 90, 120)),
        other => panic!("expected a path sketch, got {other:?}"),
    }
    match &frame[2] {
        Sketch::Text(_, _, color, _) => assert_eq!(*color, Color::rgb(200, 10, 10)),
        other => panic!("expected a text sketch, got {other:?}"),
    }
}

#[test]
fn resize_raises_force_and_layout_for_exactly_one_tick() {
    let with_resize = flags_for_events(&vec![Event::Resize(800, 600)]);
    assert!(with_resize.force);
    assert!(with_resize.layout);
    assert!(!with_resize.eval);
    assert!(!with_resize.draw);
    let after = flags_for_events(&Vec::new());
    assert!(!after.force);
    assert!(!after.layout);
    assert!(!after.draw);
    assert!(!after.eval);
}

#[test]
fn tick_without_input_leaves_state_untouched() {
    let mut state = CounterState { count: 41 };
    let theme = plain_theme();
    let tree = counter_tree();
    let out = run_tick(
        tree,
        &mut state,
        &theme,
        None,
        &vec![Event::RedrawRequested],
        InteractionInfo::idle(),
        300,
        200,
    );
    assert_eq!(state.count, 41);
    assert!(out.flags.draw);
    assert!(!out.flags.eval);
    assert!(out.sketches.is_some());
}

#[test]
fn pressing_button_a_increments_and_redraws_the_bound_text() {
    let mut state = CounterState { count: 0 };
    let theme = plain_theme();
    // first tick: no input, just lay out and draw
    let first = run_tick(
        counter_tree(),
        &mut state,
        &theme,
        None,
        &vec![Event::RedrawRequested],
        InteractionInfo::idle(),
        300,
        200,
    );
    assert_eq!(state.count, 0);
    // press inside button A, using its resolved placement
    let a = &first.layout.children[0].layout;
    let cursor = Some((a.x + a.width / 2, a.y + a.height / 2));
    let info = InteractionInfo { cursor, clicked: true, keys: Vec::new() };
    let second = run_tick(
        first.tree,
        &mut state,
        &theme,
        Some(first.layout),
        &vec![Event::MousePressed],
        info,
        300,
        200,
    );
    assert_eq!(state.count, 1);
    assert!(second.flags.draw);
    let frame = second.sketches.expect("draw was flagged, a frame must exist");
    let texts: Vec<&Sketch> = frame
        .iter()
        .filter(|s| matches!(s, Sketch::Text(_, _, _, _)))
        .collect();
    assert_eq!(texts.len(), 1);
    match texts[0] {
        Sketch::Text(content, _, _, _) => assert_eq!(content, "1"),
        _ => unreachable!(),
    }
}

#[test]
fn press_outside_every_button_changes_nothing() {
    let mut state = CounterState { count: 7 };
    let theme = plain_theme();
    let first = run_tick(
        counter_tree(),
        &mut state,
        &theme,
        None,
        &vec![Event::RedrawRequested],
        InteractionInfo::idle(),
        300,
        200,
    );
    let info = InteractionInfo { cursor: Some((-50, -50)), clicked: true, keys: Vec::new() };
    let _ = run_tick(
        first.tree,
        &mut state,
        &theme,
        Some(first.layout),
        &vec![Event::MousePressed],
        info,
        300,
        200,
    );
    assert_eq!(state.count, 7);
}

#[test]
fn resolved_placements_carry_the_declared_sizes() {
    // would fail if the engine bridge handed its input back unchanged
    let w = WidgetNode::button().with_style(sized(120, 40));
    let s = w.style_node();
    let l = solve_layout(&s, 640, 480);
    assert_eq!(l.layout.width, 120);
    assert_eq!(l.layout.height, 40);
}

#[test]
fn column_layout_stacks_children_downwards() {
    let tree = counter_tree();
    let s = tree.style_node();
    let l = solve_layout(&s, 300, 200);
    let a = &l.children[0].layout;
    let b = &l.children[1].layout;
    assert_eq!(a.y, 0);
    assert_eq!(b.y, a.y + a.height);
}

#[test]
fn button_defaults_to_a_tenth_of_the_parent() {
    let w = WidgetNode::button();
    assert_eq!(w.style.width, Dimension::Percent(100));
    assert_eq!(w.style.height, Dimension::Percent(100));
    let l = solve_layout(&w.style_node(), 640, 480);
    assert_eq!(l.layout.width, 64);
    assert_eq!(l.layout.height, 48);
}

#[test]
fn percent_sizes_resolve_against_the_parent() {
    let full = LayoutStyle {
        width: Dimension::Percent(1000),
        height: Dimension::Percent(500),
        flex_direction: FlexDirection::Row,
        align_items: None,
        gap: 0,
        grow: 0,
    };
    let w = WidgetNode::container(Vec::new()).with_style(full);
    let l = solve_layout(&w.style_node(), 800, 600);
    assert_eq!(l.layout.width, 800);
    assert_eq!(l.layout.height, 300);
}

#[test]
fn input_on_the_first_tick_still_reaches_callbacks() {
    // no cached layout yet: the tick solves one on the spot, so a
    // press with resolved bounds lands
    let mut state = CounterState { count: 0 };
    let theme = plain_theme();
    // a press at the top-left corner, inside button A's placement
    let info = InteractionInfo { cursor: Some((1, 1)), clicked: true, keys: Vec::new() };
    let out = run_tick(
        counter_tree(),
        &mut state,
        &theme,
        None,
        &vec![Event::MousePressed],
        info,
        300,
        200,
    );
    assert_eq!(state.count, 1);
    assert!(out.flags.eval);
}

#[test]
fn nested_placements_are_absolute() {
    // a column: a 300x20 spacer, then a container holding a button
    let spacer = WidgetNode::container(Vec::new()).with_style(sized(300, 20));
    let button = WidgetNode::button().with_style(sized(50, 10));
    let inner = WidgetNode::container(vec![button]).with_style(sized(300, 100));
    let mut root_style = sized(300, 200);
    root_style.flex_direction = FlexDirection::Column;
    let root = WidgetNode::container(vec![spacer, inner]).with_style(root_style);
    let l = solve_layout(&root.style_node(), 300, 200);
    let inner_l = &l.children[1];
    assert_eq!(inner_l.layout.y, 20);
    // the button's placement is window-absolute, not inner-relative
    let button_l = &inner_l.children[0].layout;
    assert_eq!(button_l.x, 0);
    assert_eq!(button_l.y, 20);
}

#[test]
fn press_on_a_nested_button_lands() {
    let mut state = CounterState { count: 0 };
    let theme = plain_theme();
    let spacer = WidgetNode::container(Vec::new()).with_style(sized(300, 20));
    let button = WidgetNode::button().with_style(sized(50, 10)).with_on_pressed(0);
    let inner = WidgetNode::container(vec![button]).with_style(sized(300, 100));
    let mut root_style = sized(300, 200);
    root_style.flex_direction = FlexDirection::Column;
    let root = WidgetNode::container(vec![spacer, inner]).with_style(root_style);
    let first = run_tick(
        root,
        &mut state,
        &theme,
        None,
        &vec![Event::RedrawRequested],
        InteractionInfo::idle(),
        300,
        200,
    );
    // press inside the nested button's absolute placement (y 20..30)
    let info = InteractionInfo { cursor: Some((5, 25)), clicked: true, keys: Vec::new() };
    let second = run_tick(
        first.tree,
        &mut state,
        &theme,
        Some(first.layout),
        &vec![Event::MousePressed],
        info,
        300,
        200,
    );
    assert_eq!(state.count, 1);
    assert!(second.flags.draw);
    assert!(second.callback_flags.draw);
}
