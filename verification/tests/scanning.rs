use sitegen::scan::{scan_step, DirEntry, EntryKind};

fn parts(items: &[&str]) -> Vec<String> {
    items.iter().map(|s| s.to_string()).collect()
}

fn entry(name: &str, kind: EntryKind) -> DirEntry {
    DirEntry { name: name.to_string(), kind }
}

#[test]
fn empty_listing_adds_nothing() {
    let mut dirstack = vec![parts(&["src", "pending"])];
    let mut found = vec![parts(&["src", "earlier.md"])];
    scan_step(&parts(&["src", "empty"]), &Vec::new(), &mut dirstack, &mut found);
    assert_eq!(dirstack, vec![parts(&["src", "pending"])]);
    assert_eq!(found, vec![parts(&["src", "earlier.md"])]);
}

#[test]
fn listing_queues_directories_and_collects_sources() {
    let entries = vec![
        entry("sub", EntryKind::Directory),
        entry("a.md", EntryKind::File),
        entry("b.txt", EntryKind::File),
        entry(".md", EntryKind::File),
        entry("dev", EntryKind::Other),
        entry("c.tar.md", EntryKind::File),
        entry("nested.md", EntryKind::Directory),
    ];
    let mut dirstack: Vec<Vec<String>> = Vec::new();
    let mut found: Vec<Vec<String>> = Vec::new();
    scan_step(&parts(&["src"]), &entries, &mut dirstack, &mut found);
    assert_eq!(dirstack, vec![parts(&["src", "sub"]), parts(&["src", "nested.md"])]);
    assert_eq!(found, vec![parts(&["src", "a.md"]), parts(&["src", "c.tar.md"])]);
}

#[test]
fn listing_appends_after_existing_work() {
    let entries = vec![entry("page.md", EntryKind::File)];
    let mut dirstack = vec![parts(&["src", "other"])];
    let mut found = vec![parts(&["src", "first.md"])];
    scan_step(&parts(&["src", "deep"]), &entries, &mut dirstack, &mut found);
    assert_eq!(dirstack, vec![parts(&["src", "other"])]);
    assert_eq!(
        found,
        vec![parts(&["src", "first.md"]), parts(&["src", "deep", "page.md"])]
    );
}
