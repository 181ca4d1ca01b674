use may_core::font_ctx::{font_from_bytes, FontContext};

#[test]
fn insert_then_get_finds_the_font() {
    let mut ctx = FontContext::default();
    assert!(ctx.get(&String::from("body")).is_none());
    ctx.insert(String::from("body"), font_from_bytes(vec![0, 1, 2, 3]));
    assert!(ctx.get(&String::from("body")).is_some());
    assert!(ctx.get(&String::from("title")).is_none());
}

#[test]
fn remove_reports_presence_and_forgets_the_font() {
    let mut ctx = FontContext::default();
    ctx.insert(String::from("body"), font_from_bytes(vec![7, 7]));
    assert_eq!(ctx.remove(&String::from("body")), Some(()));
    assert!(ctx.get(&String::from("body")).is_none());
    assert_eq!(ctx.remove(&String::from("body")), None);
}

#[test]
fn get_hands_back_the_font_inserted_under_the_name() {
    let mut ctx = FontContext::default();
    let body = font_from_bytes(vec![1, 2, 3]);
    let title = font_from_bytes(vec![4, 5]);
    let body_id = body.data.id();
    let title_id = title.data.id();
    ctx.insert(String::from("body"), body);
    ctx.insert(String::from("title"), title);
    let got = ctx.get(&String::from("body")).expect("inserted font must be found");
    assert_eq!(got.data.id(), body_id);
    // replacing an entry changes only that name
    let body2 = font_from_bytes(vec![9]);
    let body2_id = body2.data.id();
    ctx.insert(String::from("body"), body2);
    assert_eq!(ctx.get(&String::from("body")).unwrap().data.id(), body2_id);
    assert_eq!(ctx.get(&String::from("title")).unwrap().data.id(), title_id);
}

#[test]
fn insert_and_remove_leave_the_default_font_alone() {
    let face = font_from_bytes(vec![7, 7, 7]);
    let face_id = face.data.id();
    let mut ctx = FontContext::new(face);
    ctx.insert(String::from("body"), font_from_bytes(vec![1]));
    assert_eq!(ctx.default_font().data.id(), face_id);
    ctx.remove(&String::from("body"));
    assert_eq!(ctx.default_font().data.id(), face_id);
}

#[test]
fn default_font_is_always_present() {
    let data = font_from_bytes(vec![1, 2, 3]);
    let ctx = FontContext::new(data);
    // the default entry lives beside the named ones
    let _ = ctx.default_font();
    assert!(ctx.get(&String::from("anything")).is_none());
}
