//! Fixed locations and limits of the document site.

use vstd::prelude::*;

verus! {

/// Deepest include nesting the renderer will expand before substituting a
/// "recursion level exceeded" stand-in.
pub const MAX_WIDGET_RECURSION: usize = 16;

/// The directory under which every document's files live.
pub fn doc_dir() -> (s: &'static str)
    ensures
        s@ == "docs"@,
{
    "docs"
}

/// The per-document manifest file name.
pub fn doc_manifest_file() -> (s: &'static str)
    ensures
        s@ == "document.json"@,
{
    "document.json"
}

/// The site manifest location.
pub fn site_manifest_file() -> (s: &'static str)
    ensures
        s@ == "site.json"@,
{
    "site.json"
}

} // verus!
