use may_core::context::{Command, Context, ControlFlowPolicy, InteractionInfo};
use may_core::layout::LayoutRect;
use may_core::update::Update;
use may_core::widget::{WidgetKind, WidgetNode};

#[test]
fn builders_set_identity_category_and_content() {
    let t = WidgetNode::text(String::from("hello"));
    assert_eq!(t.widget_type(), WidgetKind::Text);
    assert_eq!(t.id(), "may-widgets:Text");
    assert_eq!(WidgetNode::text_id(), "may-widgets:Text");
    assert_eq!(t.text, "hello");

    let b = WidgetNode::button().with_on_pressed(9);
    assert_eq!(b.widget_type(), WidgetKind::Button);
    assert_eq!(b.id(), "may-core:Button");
    assert_eq!(b.action, Some(9));

    let c = WidgetNode::container(vec![t, b]);
    assert_eq!(c.widget_type(), WidgetKind::Container);
    assert_eq!(c.children.len(), 2);
}

#[test]
fn text_setters_replace_content_and_size() {
    let mut t = WidgetNode::text(String::from("a")).with_text(String::from("b"));
    assert_eq!(t.text, "b");
    t.set_text(String::from("c"));
    assert_eq!(t.text, "c");
    let t = t.with_font_size(20);
    assert_eq!(t.font_size, 20);
    let mut t = t;
    t.set_font_size(24);
    assert_eq!(t.font_size, 24);
}

#[test]
fn with_child_appends_in_declaration_order() {
    let c = WidgetNode::container(Vec::new())
        .with_child(WidgetNode::button())
        .with_child(WidgetNode::text(String::from("x")));
    assert_eq!(c.children.len(), 2);
    assert_eq!(c.children[0].widget_type(), WidgetKind::Button);
    assert_eq!(c.children[1].widget_type(), WidgetKind::Text);
}

#[test]
fn rect_contains_is_half_open() {
    let r = LayoutRect { x: 10, y: 10, width: 5, height: 5 };
    assert!(r.contains(10, 10));
    assert!(r.contains(14, 14));
    assert!(!r.contains(15, 10));
    assert!(!r.contains(10, 15));
    assert!(!r.contains(9, 10));
}

#[test]
fn context_queues_commands_in_order() {
    let mut ctx = Context::new(InteractionInfo::idle(), Update::empty());
    assert!(ctx.commands().is_empty());
    ctx.exit();
    ctx.set_control_flow(ControlFlowPolicy::Wait);
    let cmds = ctx.commands();
    assert_eq!(cmds.len(), 2);
    assert_eq!(cmds[0], Command::Exit);
    assert_eq!(cmds[1], Command::SetControlFlow(ControlFlowPolicy::Wait));
}
