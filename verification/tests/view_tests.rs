use cheesecake::view::{finish_render, page_context, render_internal, render_page, with_dev_flag, RenderError};

fn engine() -> tera::Tera {
    let mut t = tera::Tera::default();
    t.add_raw_template("page.html", "dev={{ env_is_dev }} name={{ name | default(value=\"-\") }}")
        .unwrap();
    t
}

fn object(name: &str) -> serde_json::Value {
    let mut m = serde_json::Map::new();
    m.insert(String::from("name"), serde_json::Value::String(String::from(name)));
    serde_json::Value::Object(m)
}

#[test]
fn render_page_uses_object_fields_and_dev_flag() {
    let t = engine();
    let html = render_page(|n, c| t.render(n, c), "page.html", Ok(object("ann")), true).ok().unwrap();
    assert_eq!(html, "dev=true name=ann");
    let html = render_page(|n, c| t.render(n, c), "page.html", Ok(object("bob")), false).ok().unwrap();
    assert_eq!(html, "dev=false name=bob");
}

#[test]
fn render_page_non_object_gives_empty_context() {
    let t = engine();
    let html = render_page(|n, c| t.render(n, c), "page.html", Ok(serde_json::Value::Bool(true)), true).ok().unwrap();
    assert_eq!(html, "dev=true name=-");
}

#[test]
fn render_page_reports_serialization_error() {
    let t = engine();
    let err = serde_json::from_str::<serde_json::Value>("{").unwrap_err();
    let r = render_page(|n, c| t.render(n, c), "page.html", Err(err), true);
    assert!(matches!(r, Err(RenderError::Serde(_))));
}

#[test]
fn render_page_reports_missing_template() {
    let t = engine();
    let r = render_page(|n, c| t.render(n, c), "missing.html", Ok(object("x")), true);
    assert!(matches!(r, Err(RenderError::Tera(_))));
}

#[test]
fn render_internal_adds_flag() {
    let t = engine();
    let html = render_internal(|n, c| t.render(n, c), "page.html", tera::Context::new(), false).unwrap();
    assert_eq!(html, "dev=false name=-");
}

#[test]
fn with_dev_flag_sets_flag_and_keeps_others() {
    let mut ctx = tera::Context::new();
    ctx.insert("name", "ann");
    ctx.insert("env_is_dev", &false);
    let c = with_dev_flag(ctx, true);
    assert_eq!(c.get("env_is_dev"), Some(&serde_json::Value::Bool(true)));
    assert_eq!(c.get("name"), Some(&serde_json::Value::String(String::from("ann"))));
    let c = with_dev_flag(tera::Context::new(), false);
    assert_eq!(c.get("env_is_dev"), Some(&serde_json::Value::Bool(false)));
    assert_eq!(c.into_json(), {
        let mut m = serde_json::Map::new();
        m.insert(String::from("env_is_dev"), serde_json::Value::Bool(false));
        serde_json::Value::Object(m)
    });
}

#[test]
fn page_context_keeps_object_or_is_empty() {
    let c = page_context(tera::Context::from_value(object("zed")));
    assert_eq!(c.get("name"), Some(&serde_json::Value::String(String::from("zed"))));
    let c = page_context(tera::Context::from_value(serde_json::Value::Null));
    assert_eq!(c.into_json(), serde_json::Value::Object(serde_json::Map::new()));
}

#[test]
fn finish_render_passes_outcome_on() {
    assert_eq!(finish_render(Ok(String::from("<p>hi</p>"))).ok(), Some(String::from("<p>hi</p>")));
    let err = engine().render("missing.html", &tera::Context::new()).unwrap_err();
    assert!(matches!(finish_render(Err(err)), Err(RenderError::Tera(_))));
}

#[test]
fn render_page_hands_path_and_flagged_context() {
    let seen = std::cell::RefCell::new(Vec::new());
    let r = render_page(
        |name: &str, c: &tera::Context| {
            seen.borrow_mut().push((String::from(name), c.clone().into_json()));
            Ok(String::from("done"))
        },
        "about.html",
        Ok(object("ann")),
        false,
    );
    assert_eq!(r.ok(), Some(String::from("done")));
    let mut m = serde_json::Map::new();
    m.insert(String::from("name"), serde_json::Value::String(String::from("ann")));
    m.insert(String::from("env_is_dev"), serde_json::Value::Bool(false));
    assert_eq!(seen.into_inner(), vec![(String::from("about.html"), serde_json::Value::Object(m))]);
}
