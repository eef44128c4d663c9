use sitegen::meta::{extract_metadata, Page};

#[test]
fn no_header_falls_back_to_defaults() {
    let meta = extract_metadata("# Hi\n\nsome text\n").unwrap();
    assert_eq!(meta.title, "NO TITLE");
    assert_eq!(meta.template, "base-1.html");
}

#[test]
fn empty_document_falls_back_to_defaults() {
    let meta = extract_metadata("").unwrap();
    assert_eq!(meta.title, "NO TITLE");
    assert_eq!(meta.template, "base-1.html");
}

#[test]
fn valid_header_is_read_exactly() {
    let meta = extract_metadata("---\ntitle: Hi\ntemplate: post.html\n---\n\nbody\n").unwrap();
    assert_eq!(meta.title, "Hi");
    assert_eq!(meta.template, "post.html");
}

#[test]
fn header_missing_field_falls_back() {
    let meta = extract_metadata("---\ntitle: OnlyTitle\n---\n\nbody\n").unwrap();
    assert_eq!(meta.title, "NO TITLE");
    assert_eq!(meta.template, "base-1.html");
}

#[test]
fn header_that_is_no_mapping_falls_back() {
    let meta = extract_metadata("---\n- a\n- b\n---\n\nbody\n").unwrap();
    assert_eq!(meta.title, "NO TITLE");
    assert_eq!(meta.template, "base-1.html");
}

#[test]
fn header_with_extra_pairs_keeps_its_fields() {
    let meta = extract_metadata(
        "---\ntitle: Hi\ntemplate: post.html\ndraft: true\nweight: 3\ntags:\n  - a\n  - b\n---\n",
    )
    .unwrap();
    assert_eq!(meta.title, "Hi");
    assert_eq!(meta.template, "post.html");
}

#[test]
fn header_with_non_string_value_falls_back() {
    let meta = extract_metadata("---\ntitle: Hi\ntemplate: [1, 2]\n---\n").unwrap();
    assert_eq!(meta.title, "NO TITLE");
    assert_eq!(meta.template, "base-1.html");
}

#[test]
fn page_keeps_full_text_and_metadata() {
    let text = "---\ntitle: Hi\ntemplate: post.html\n---\n\nbody\n";
    let page = Page::new(text.to_string()).unwrap();
    assert_eq!(page.title, "Hi");
    assert_eq!(page.template, "post.html");
    assert_eq!(page.content, text);
}

#[test]
fn extraction_is_deterministic() {
    let text = "---\ntitle: Hi\ntemplate: post.html\n---\n\nbody\n";
    let first = extract_metadata(text).unwrap();
    let second = extract_metadata(text).unwrap();
    assert_eq!(first.title, second.title);
    assert_eq!(first.template, second.template);
}
