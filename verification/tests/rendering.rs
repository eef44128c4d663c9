use sitegen::meta::Page;
use sitegen::render::render;
use sitegen::SiteError;

fn layouts_with_base() -> tera::Tera {
    let mut layouts = tera::Tera::new();
    layouts.autoescape_on(Vec::<&str>::new());
    layouts
        .add_raw_template(
            "base.html",
            "<title>{{ title }}</title><body>{{ content }}</body>",
        )
        .unwrap();
    layouts
}

#[test]
fn round_trip_renders_title_and_heading() {
    let layouts = layouts_with_base();
    let page = Page::new("---\ntitle: Home\ntemplate: base.html\n---\n\n# Hello\n".to_string())
        .unwrap();
    let html = render(&layouts, &page).unwrap();
    assert!(html.contains("<title>Home</title>"));
    assert!(html.contains("<h1>Hello</h1>"));
}

#[test]
fn slots_are_filled_without_escaping() {
    let layouts = layouts_with_base();
    let page = Page::new(
        "---\ntitle: \"A & B <i>\"\ntemplate: base.html\n---\n\n<em>raw & dangerous</em>\n"
            .to_string(),
    )
    .unwrap();
    let html = render(&layouts, &page).unwrap();
    // The title slot is untouched; the body keeps its raw tags, the markup
    // converter itself having encoded the lone ampersand of the text.
    assert!(html.contains("<title>A & B <i></title>"));
    assert!(html.contains("<em>raw &amp; dangerous</em>"));
}

#[test]
fn missing_layout_is_layout_not_found() {
    let mut layouts = tera::Tera::new();
    layouts.autoescape_on(Vec::<&str>::new());
    let page = Page::new("---\ntitle: Hi\ntemplate: post.html\n---\n\nbody\n".to_string())
        .unwrap();
    let result = render(&layouts, &page);
    assert_eq!(result, Err(SiteError::LayoutNotFound));
}

#[test]
fn failing_layout_is_no_layout_not_found() {
    let mut layouts = tera::Tera::new();
    layouts.autoescape_on(Vec::<&str>::new());
    layouts
        .add_raw_template("base.html", "{{ slot_nobody_fills }}")
        .unwrap();
    let page = Page::new("---\ntitle: Hi\ntemplate: base.html\n---\n\nbody\n".to_string())
        .unwrap();
    let result = render(&layouts, &page);
    assert_eq!(result, Err(SiteError::TemplateFailure));
}

#[test]
fn rendering_twice_is_byte_identical() {
    let layouts = layouts_with_base();
    let page = Page::new("---\ntitle: Home\ntemplate: base.html\n---\n\n# Hello\n".to_string())
        .unwrap();
    let first = render(&layouts, &page).unwrap();
    let second = render(&layouts, &page).unwrap();
    assert_eq!(first.as_bytes(), second.as_bytes());
}

#[test]
fn defaulted_page_renders_with_default_title() {
    let mut layouts = tera::Tera::new();
    layouts.autoescape_on(Vec::<&str>::new());
    layouts
        .add_raw_template("base-1.html", "<h2>{{ title }}</h2>{{ content }}")
        .unwrap();
    let page = Page::new("plain body, no header\n".to_string()).unwrap();
    let html = render(&layouts, &page).unwrap();
    assert!(html.contains("<h2>NO TITLE</h2>"));
    assert!(html.contains("plain body, no header"));
}
