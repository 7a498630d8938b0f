//! The two structured records this core consumes: the site manifest naming
//! the index and master pages, and the per-document manifest naming the
//! widget type that handles a document.

use crate::constants::{doc_dir, doc_manifest_file};
use crate::error::FetchError;
use crate::path::{relative_segs, Path};
use vstd::prelude::*;
use vstd::string::StrSliceExecFns;

verus! {

/// The site-wide manifest: which page is the index and which page frames
/// every other page.
#[derive(Debug)]
pub struct SiteManifest {
    pub index_page: Path,
    pub master_page: Path,
}

impl Clone for SiteManifest {
    fn clone(&self) -> (r: Self)
        ensures
            r == *self,
    {
        SiteManifest { index_page: self.index_page.clone(), master_page: self.master_page.clone() }
    }
}

impl Default for SiteManifest {
    /// An empty site manifest: empty relative index and master pages.
    fn default() -> (r: Self)
        ensures
            r.index_page@.segs.len() == 0,
            !r.index_page@.absolute,
            r.master_page@.segs.len() == 0,
            !r.master_page@.absolute,
    {
        SiteManifest { index_page: Path::new(), master_page: Path::new() }
    }
}

/// A document's manifest: the widget type tag that handles it.
#[derive(Debug)]
pub struct DocManifest {
    pub widget: String,
}

impl Clone for DocManifest {
    fn clone(&self) -> (r: Self)
        ensures
            r.widget@ == self.widget@,
    {
        DocManifest { widget: self.widget.clone() }
    }
}

/// Where a document's manifest lives: `docs/<name>/document.json`. An empty
/// document name is rejected as a malformed request before any fetch.
pub fn doc_manifest_path(doc_name: &str) -> (r: Result<Path, FetchError>)
    ensures
        doc_name@.len() == 0 ==> (r matches Err(e) && e matches FetchError::RequestError(u, m)
            && u@ == doc_name@ && m@ == "Document name is empty"@),
        doc_name@.len() > 0 ==> (r matches Ok(p) && p@.segs == seq![
            "docs"@,
            doc_name@,
            "document.json"@,
        ] && !p@.absolute),
{
    if doc_name.is_empty() {
        return Err(
            FetchError::RequestError(doc_name.to_owned(), "Document name is empty".to_owned()),
        );
    }
    let p = Path::new().add(doc_dir()).add(doc_name).add(doc_manifest_file());
    proof {
        assert(p@.segs =~= seq!["docs"@, doc_name@, "document.json"@]);
    }
    Ok(p)
}

/// Strip absoluteness from one manifest page entry, keeping its segments.
fn to_releative(path: Path) -> (r: Path)
    ensures
        r@.segs == path@.segs,
        !r@.absolute,
{
    if path.is_absolute() {
        let base = Path::new_absolute();
        let ghost segs = path@.segs;
        match path.releative_to(&base) {
            Ok(p) => {
                proof {
                    assert(relative_segs(Seq::<Seq<char>>::empty(), segs) =~= segs);
                }
                p
            },
            Err(_) => {
                // Unreachable: both paths are absolute.
                Path::new()
            },
        }
    } else {
        path
    }
}

/// Normalize a freshly fetched site manifest: page entries written with a
/// leading "/" are reanchored as relative paths, which the routing layer
/// expects.
pub fn fix_site_manifest(manifest: SiteManifest) -> (r: SiteManifest)
    ensures
        r.index_page@.segs == manifest.index_page@.segs,
        !r.index_page@.absolute,
        r.master_page@.segs == manifest.master_page@.segs,
        !r.master_page@.absolute,
{
    SiteManifest {
        index_page: to_releative(manifest.index_page),
        master_page: to_releative(manifest.master_page),
    }
}

} // verus!
