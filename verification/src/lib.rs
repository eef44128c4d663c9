//! The page-resolution and rendering core of a one-shot static site
//! generator. A tree of markup documents, each opening with an optional
//! structured header, becomes a parallel tree of rendered pages: every source
//! path is resolved to a rooted site address and an output location, its
//! metadata is read with fixed defaults for anything unusable, its body is
//! converted to final markup, and the layout it names wraps the result. The
//! walking of directories and the reading and writing of files stay with the
//! caller; this crate holds the rules and proves them.

use vstd::prelude::*;

pub mod meta;
pub mod paths;
pub mod render;
pub mod scan;

verus! {

/// A fatal condition of a run: the two recoverable header failures fall back
/// to default metadata instead and never appear here.
#[derive(Clone, Copy, Debug, PartialEq, Eq, Structural)]
pub enum SiteError {
    /// The document could not be parsed into a markup structure at all.
    Markup,
    /// The layout named by a document is absent from the layout set.
    LayoutNotFound,
    /// The layout engine failed on a layout that does exist.
    TemplateFailure,
}

} // verus!
