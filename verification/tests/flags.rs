use may_core::update::Update;

#[test]
fn empty_has_no_flags() {
    let u = Update::empty();
    assert!(!u.layout);
    assert!(!u.draw);
    assert!(!u.force);
    assert!(!u.eval);
    assert!(u.is_empty());
}

#[test]
fn draw_only_raises_draw_alone() {
    let u = Update::draw_only();
    assert!(u.draw);
    assert!(!u.layout);
    assert!(!u.force);
    assert!(!u.eval);
}

#[test]
fn or_merge_escalates_and_never_suppresses() {
    let a = Update { layout: true, draw: false, force: false, eval: true };
    let b = Update { layout: false, draw: true, force: false, eval: false };
    let m = a.or(&b);
    assert!(m.layout);
    assert!(m.draw);
    assert!(!m.force);
    assert!(m.eval);
    // merging with empty changes nothing
    let n = m.or(&Update::empty());
    assert_eq!(n, m);
}
