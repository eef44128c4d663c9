use crate::meta::Page;
use crate::SiteError;
use vstd::prelude::*;

verus! {

#[verifier::external_type_specification]
#[verifier::external_body]
pub struct ExTera(tera::Tera);

#[verifier::external_type_specification]
#[verifier::external_body]
pub struct ExContext(tera::Context);

/// The names under which a layout set holds its layouts: the names a lookup in
/// it resolves.
pub uninterp spec fn layout_names(layouts: tera::Tera) -> Set<Seq<char>>;

/// The slots a substitution context binds: each slot name to its text.
pub uninterp spec fn ctx_slots(ctx: tera::Context) -> Map<Seq<char>, Seq<char>>;

/// The rendering relation of `tera::Tera::render`: holds of a text the engine
/// may produce for this layout set, layout name and slot binding. The output
/// is not named as a function of the arguments — a layout set may carry
/// registered template functions whose results depend on more than their
/// arguments — so two renderings of the same inputs both stand in the
/// relation without being equated.
pub uninterp spec fn tera_rendered(
    layouts: tera::Tera,
    name: Seq<char>,
    slots: Map<Seq<char>, Seq<char>>,
    out: Seq<char>,
) -> bool;

/// A context binding no slots.
pub open spec fn empty_slots() -> Map<Seq<char>, Seq<char>> {
    Map::empty()
}

/// The slot binding a page hands the layout engine: its title under `title`
/// and its converted body under `content`.
pub open spec fn render_slots(title: Seq<char>, body_html: Seq<char>) -> Map<Seq<char>, Seq<char>> {
    empty_slots().insert("title"@, title).insert("content"@, body_html)
}

/// What `markdown::to_html_with_options` makes of a document's text under this
/// generator's settings: final markup, a function of the text alone.
pub uninterp spec fn html_of(s: Seq<char>) -> Seq<char>;

/// Relies on markdown::to_html_with_options: a deterministic conversion of a
/// document's text to final markup. The settings here tolerate a leading
/// structured header and pass embedded raw markup and unsafe links through,
/// since the generator trusts its own source tree. A parse message, possible
/// only for constructs left disabled here, is returned as its text.
#[verifier::external_body]
fn markdown_to_html(content: &str) -> (r: String)
    ensures
        r@ == html_of(content@),
{
    let mut opts = markdown::Options::default();
    opts.parse.constructs.frontmatter = true;
    opts.parse.constructs.html_flow = true;
    opts.parse.constructs.html_text = true;
    opts.compile.allow_dangerous_html = true;
    opts.compile.allow_dangerous_protocol = true;
    match markdown::to_html_with_options(content, &opts) {
        Ok(s) => s,
        Err(m) => m.to_string(),
    }
}

/// Relies on tera::Context::new: a context with no slots filled.
#[verifier::external_body]
fn context_new() -> (r: tera::Context)
    ensures
        ctx_slots(r) == empty_slots(),
{
    tera::Context::new()
}

/// Relies on tera::Context::insert: binds the slot `key` to the text `val`,
/// verbatim, on top of what the context already binds.
#[verifier::external_body]
fn context_insert(ctx: tera::Context, key: &str, val: &str) -> (r: tera::Context)
    ensures
        ctx_slots(r) == ctx_slots(ctx).insert(key@, val@),
{
    let mut c = ctx;
    c.insert(key.to_owned(), &val);
    c
}

/// Relies on tera::Tera::render: the layout is looked up by name before
/// anything is rendered, and that lookup is the one source of a
/// TemplateNotFound error — references between layouts are already validated
/// when they are added, so a failure while rendering a layout that exists has
/// another kind. An Ok text is what the engine rendered from exactly this
/// layout set, name and slot binding.
#[verifier::external_body]
fn tera_render(layouts: &tera::Tera, name: &str, ctx: &tera::Context) -> (r: Result<
    String,
    SiteError,
>)
    ensures
        r matches Ok(s) ==> layout_names(*layouts).contains(name@) && tera_rendered(
            *layouts,
            name@,
            ctx_slots(*ctx),
            s@,
        ),
        (r matches Err(e) && e == SiteError::LayoutNotFound) <==> !layout_names(
            *layouts,
        ).contains(name@),
        r matches Err(e) ==> e == SiteError::LayoutNotFound || e == SiteError::TemplateFailure,
{
    match layouts.render(name, ctx) {
        Ok(s) => Ok(s),
        Err(e) => match e.kind() {
            tera::ErrorKind::TemplateNotFound(_) => Err(SiteError::LayoutNotFound),
            _ => Err(SiteError::TemplateFailure),
        },
    }
}

/// Renders one page: converts its full text to final markup, then hands the
/// layout the page names a context binding exactly `title` to the page's
/// title and `content` to the converted body. Both slots are filled verbatim
/// — the generator trusts its own source tree, so nothing is escaped; the
/// layout set must be built with escaping off for that to hold. Fails with
/// `LayoutNotFound` exactly when the layout set lacks the page's layout; the
/// markup conversion itself never fails.
pub fn render(layouts: &tera::Tera, page: &Page) -> (r: Result<String, SiteError>)
    ensures
        r matches Ok(s) ==> layout_names(*layouts).contains(page.template@) && tera_rendered(
            *layouts,
            page.template@,
            render_slots(page.title@, html_of(page.content@)),
            s@,
        ),
        (r matches Err(e) && e == SiteError::LayoutNotFound) <==> !layout_names(
            *layouts,
        ).contains(page.template@),
        r matches Err(e) ==> e == SiteError::LayoutNotFound || e == SiteError::TemplateFailure,
{
    let content_html = markdown_to_html(page.content.as_str());
    let context = context_new();
    let context = context_insert(context, "title", page.title.as_str());
    let context = context_insert(context, "content", content_html.as_str());
    tera_render(layouts, page.template.as_str(), &context)
}

/// The markup a document's text converts to is a function of that text alone:
/// two conversions of the same text agree. This follows from the contract of
/// the conversion, which pins its result to `html_of`.
pub proof fn lemma_markup_deterministic(s: Seq<char>, a: Seq<char>, b: Seq<char>)
    requires
        a == html_of(s),
        b == html_of(s),
    ensures
        a == b,
{
}

} // verus!
