use sitegen::paths::{has_md_extension, name_stem, uri_string, PageTriple};

fn parts(items: &[&str]) -> Vec<String> {
    items.iter().map(|s| s.to_string()).collect()
}

#[test]
fn resolves_nested_index() {
    let triple = PageTriple::new(
        parts(&["src", "a", "b", "index.md"]),
        &parts(&["src"]),
        &parts(&["public"]),
    );
    assert_eq!(triple.uri, "/a/b");
    assert_eq!(triple.out, parts(&["public", "a", "b", "index.html"]));
    assert_eq!(triple.src, parts(&["src", "a", "b", "index.md"]));
}

#[test]
fn resolves_nested_page() {
    let triple = PageTriple::new(
        parts(&["src", "a", "b", "page.md"]),
        &parts(&["src"]),
        &parts(&["public"]),
    );
    assert_eq!(triple.uri, "/a/b/page");
    assert_eq!(triple.out, parts(&["public", "a", "b", "page", "index.html"]));
}

#[test]
fn resolves_root_index() {
    let triple = PageTriple::new(parts(&["src", "index.md"]), &parts(&["src"]), &parts(&["public"]));
    assert_eq!(triple.uri, "/");
    assert_eq!(triple.out, parts(&["public", "index.html"]));
}

#[test]
fn address_is_always_rooted() {
    let cases: Vec<Vec<String>> = vec![
        parts(&["src", "index.md"]),
        parts(&["src", "deep", "nest", "leaf.md"]),
        parts(&["src", "page.md"]),
    ];
    for src in cases {
        let triple = PageTriple::new(src, &parts(&["src"]), &parts(&["out"]));
        assert!(triple.uri.starts_with('/'));
        assert_eq!(triple.out.last().map(String::as_str), Some("index.html"));
    }
}

#[test]
fn uri_of_no_parts_is_root() {
    assert_eq!(uri_string(&parts(&[])), "/");
    assert_eq!(uri_string(&parts(&["a"])), "/a");
    assert_eq!(uri_string(&parts(&["a", "b"])), "/a/b");
}

#[test]
fn stem_follows_path_rules() {
    assert_eq!(name_stem("page.md"), "page");
    assert_eq!(name_stem("archive.tar.md"), "archive.tar");
    assert_eq!(name_stem(".md"), ".md");
    assert_eq!(name_stem("noext"), "noext");
    assert_eq!(name_stem("trailing."), "trailing");
}

#[test]
fn extension_marks_source_documents() {
    assert!(has_md_extension("page.md"));
    assert!(has_md_extension("archive.tar.md"));
    assert!(!has_md_extension("page.txt"));
    assert!(!has_md_extension(".md"));
    assert!(!has_md_extension("md"));
    assert!(!has_md_extension("page."));
}
