use crate::SiteError;
use vstd::prelude::*;

verus! {

/// What `markdown::to_mdast` finds at the head of a document: `None` when the
/// text has no markup structure at all, `Some(None)` when it parses but opens
/// with no structured header, `Some(Some(h))` when it opens with the header
/// text `h`.
pub uninterp spec fn md_header_scan(s: Seq<char>) -> Option<Option<Seq<char>>>;

/// What `serde_yaml::from_str` reads a header as: the pairs of a YAML mapping
/// with string keys, ordered by key, each value `Some` of its text when it is
/// a string and `None` when it is anything else; the whole is `None` for any
/// other YAML document or a YAML error.
pub uninterp spec fn yaml_entries(s: Seq<char>) -> Option<
    Seq<(Seq<char>, Option<Seq<char>>)>,
>;

/// Relies on markdown::to_mdast: a deterministic parse of the text; with the
/// front matter construct enabled, a leading structured header becomes the
/// first child of the root node, as a YAML node holding the header text.
#[verifier::external_body]
fn scan_header(content: &str) -> (r: Option<Option<String>>)
    ensures
        r.deep_view() == md_header_scan(content@),
{
    let mut opts = markdown::ParseOptions::default();
    opts.constructs.frontmatter = true;
    match markdown::to_mdast(content, &opts) {
        Ok(markdown::mdast::Node::Root(root)) => Some(match root.children.into_iter().next() {
            Some(markdown::mdast::Node::Yaml(y)) => Some(y.value),
            _ => None,
        }),
        _ => None,
    }
}

/// Relies on serde_yaml::from_str: a deterministic parse of the text; a YAML
/// mapping with string keys gives its pairs, collected in key order, a string
/// value kept as its text and any other value marked as no text; any other
/// document or a YAML error gives None.
#[verifier::external_body]
fn parse_yaml_entries(s: &str) -> (r: Option<Vec<(String, Option<String>)>>)
    ensures
        r.deep_view() == yaml_entries(s@),
{
    serde_yaml::from_str::<std::collections::BTreeMap<String, serde_yaml::Value>>(s).ok().map(
        |m: std::collections::BTreeMap<String, serde_yaml::Value>| m.into_iter().map(
            |(k, v): (String, serde_yaml::Value)| match v {
                serde_yaml::Value::String(text) => (k, Some(text)),
                _ => (k, None),
            },
        ).collect(),
    )
}

/// The value under the first pair carrying `key`, if any: `Some(Some(t))` for
/// a string value with text `t`, `Some(None)` for a value of another kind.
pub open spec fn spec_find(
    entries: Seq<(Seq<char>, Option<Seq<char>>)>,
    key: Seq<char>,
) -> Option<Option<Seq<char>>>
    decreases entries.len(),
{
    if entries.len() == 0 {
        None
    } else if entries.first().0 == key {
        Some(entries.first().1)
    } else {
        spec_find(entries.drop_first(), key)
    }
}

fn find_value(entries: &Vec<(String, Option<String>)>, key: &str) -> (r: Option<Option<String>>)
    ensures
        match (r, spec_find(entries.deep_view(), key@)) {
            (Some(Some(v)), Some(Some(sv))) => v@ == sv,
            (Some(None), Some(None)) => true,
            (None, None) => true,
            _ => false,
        },
{
    let ghost dv = entries.deep_view();
    proof {
        assert(dv.skip(0) =~= dv);
    }
    let wanted = key.to_owned();
    let mut i: usize = 0;
    while i < entries.len()
        invariant
            i <= entries.len(),
            wanted@ == key@,
            dv == entries.deep_view(),
            spec_find(dv, key@) == spec_find(dv.skip(i as int), key@),
        decreases entries.len() - i,
    {
        proof {
            assert(dv.len() == entries@.len());
            assert(dv[i as int] == entries@[i as int].deep_view());
            assert(dv.skip(i as int).first() == dv[i as int]);
        }
        if entries[i].0 == wanted {
            return Some(
                match &entries[i].1 {
                    Some(text) => Some(text.clone()),
                    None => None,
                },
            );
        }
        proof {
            assert(dv.skip(i as int).drop_first() =~= dv.skip(i + 1));
        }
        i = i + 1;
    }
    proof {
        assert(dv.skip(entries.len() as int) =~= Seq::<(Seq<char>, Option<Seq<char>>)>::empty());
    }
    None
}

/// Page metadata: a title and the name of the layout that wraps the page.
pub struct Metadata {
    pub title: String,
    pub template: String,
}

/// The fixed fallback metadata: a missing or bad header never blocks a build.
pub open spec fn default_meta() -> (Seq<char>, Seq<char>) {
    ("NO TITLE"@, "base-1.html"@)
}

/// The metadata a scanned header yields: the header's `title` and `template`
/// values when it is a mapping carrying both keys with string values — pairs
/// under other keys are tolerated, whatever they hold — and the fixed
/// defaults otherwise.
pub open spec fn meta_of_header(h: Option<Seq<char>>) -> (Seq<char>, Seq<char>) {
    match h {
        None => default_meta(),
        Some(y) => match yaml_entries(y) {
            None => default_meta(),
            Some(entries) => match (spec_find(entries, "title"@), spec_find(
                entries,
                "template"@,
            )) {
                (Some(Some(t)), Some(Some(l))) => (t, l),
                _ => default_meta(),
            },
        },
    }
}

/// The fallback metadata as a value.
pub fn default_metadata() -> (m: Metadata)
    ensures
        (m.title@, m.template@) == default_meta(),
{
    Metadata { title: "NO TITLE".to_owned(), template: "base-1.html".to_owned() }
}

/// Reads a document's metadata from its leading structured header. A missing
/// header, a header that is not a mapping with string keys, and a header
/// whose `title` or `template` is missing or not a string all fall back to
/// the fixed defaults — pairs under other keys are tolerated, whatever they
/// hold. Only a document with no markup structure at all fails.
pub fn extract_metadata(content: &str) -> (r: Result<Metadata, SiteError>)
    ensures
        r is Ok <==> md_header_scan(content@) is Some,
        r matches Ok(m) ==> md_header_scan(content@) matches Some(h) && (
        m.title@,
        m.template@,
        ) == meta_of_header(h),
        r matches Err(e) ==> e == SiteError::Markup,
{
    match scan_header(content) {
        None => Err(SiteError::Markup),
        Some(None) => Ok(default_metadata()),
        Some(Some(y)) => match parse_yaml_entries(y.as_str()) {
            None => Ok(default_metadata()),
            Some(entries) => {
                let title = find_value(&entries, "title");
                let template = find_value(&entries, "template");
                match (title, template) {
                    (Some(Some(t)), Some(Some(l))) => Ok(Metadata { title: t, template: l }),
                    _ => Ok(default_metadata()),
                }
            },
        },
    }
}

/// One source document, ready to render: its metadata and its full text.
pub struct Page {
    pub title: String,
    pub template: String,
    pub content: String,
}

impl Page {
    /// Builds a page from a document's text, reading its metadata as
    /// `extract_metadata` does and keeping the text for rendering.
    pub fn new(content: String) -> (r: Result<Page, SiteError>)
        ensures
            r is Ok <==> md_header_scan(content@) is Some,
            r matches Ok(p) ==> md_header_scan(content@) matches Some(h) && (
            p.title@,
            p.template@,
            ) == meta_of_header(h) && p.content@ == content@,
            r matches Err(e) ==> e == SiteError::Markup,
    {
        match extract_metadata(content.as_str()) {
            Ok(m) => Ok(Page { title: m.title, template: m.template, content }),
            Err(e) => Err(e),
        }
    }
}

/// The metadata a document yields is a function of its text alone: two
/// extractions from the same text agree. This follows from the contract of
/// `extract_metadata`, which pins its result to `meta_of_header`.
pub proof fn lemma_metadata_deterministic(
    s: Seq<char>,
    m1: (Seq<char>, Seq<char>),
    m2: (Seq<char>, Seq<char>),
)
    requires
        md_header_scan(s) matches Some(h1) && m1 == meta_of_header(h1),
        md_header_scan(s) matches Some(h2) && m2 == meta_of_header(h2),
    ensures
        m1 == m2,
{
}

} // verus!
