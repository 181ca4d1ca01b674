use may_core::theme::{Color, Scheme, Theme};
use may_core::widget::WidgetKind;

fn scheme_with_color(c: Color) -> Scheme {
    let mut s = Scheme::empty();
    s.set(String::from("color"), c);
    s
}

#[test]
fn scheme_get_returns_what_was_set() {
    let mut s = Scheme::empty();
    assert!(s.get(&String::from("color")).is_none());
    s.set(String::from("color"), Color::rgb(1, 2, 3));
    assert_eq!(s.get(&String::from("color")), Some(Color::rgb(1, 2, 3)));
    // replacing an entry keeps one entry and the new value wins
    s.set(String::from("color"), Color::rgb(9, 9, 9));
    assert_eq!(s.get(&String::from("color")), Some(Color::rgb(9, 9, 9)));
    assert_eq!(s.get_or(&String::from("absent"), Color::black()), Color::black());
}

#[test]
fn registered_identity_resolves_to_its_scheme() {
    let mut th = Theme::new(
        scheme_with_color(Color::rgb(10, 10, 10)),
        scheme_with_color(Color::rgb(20, 20, 20)),
        scheme_with_color(Color::rgb(30, 30, 30)),
    );
    th.register(String::from("my:Fancy"), scheme_with_color(Color::rgb(77, 0, 0)));
    let r = th.resolve(&String::from("my:Fancy"), WidgetKind::Button);
    assert_eq!(r.get(&String::from("color")), Some(Color::rgb(77, 0, 0)));
}

#[test]
fn register_replaces_an_earlier_scheme_for_the_same_identity() {
    let mut th = Theme::new(Scheme::empty(), Scheme::empty(), Scheme::empty());
    th.register(String::from("my:Fancy"), scheme_with_color(Color::rgb(1, 1, 1)));
    th.register(String::from("my:Fancy"), scheme_with_color(Color::rgb(2, 2, 2)));
    let r = th.resolve(&String::from("my:Fancy"), WidgetKind::Button);
    assert_eq!(r.get(&String::from("color")), Some(Color::rgb(2, 2, 2)));
}

#[test]
fn unregistered_identity_falls_back_to_category_default() {
    let th = Theme::new(
        scheme_with_color(Color::rgb(10, 10, 10)),
        scheme_with_color(Color::rgb(20, 20, 20)),
        scheme_with_color(Color::rgb(30, 30, 30)),
    );
    // no scheme registered under this identity: the category default
    // answers, and nothing aborts
    let r = th.resolve(&String::from("nobody:Registered"), WidgetKind::Text);
    assert_eq!(r.get(&String::from("color")), Some(Color::rgb(30, 30, 30)));
    let r2 = th.resolve(&String::from("nobody:Registered"), WidgetKind::Button);
    assert_eq!(r2.get(&String::from("color")), Some(Color::rgb(20, 20, 20)));
}
