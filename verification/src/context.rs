//! The read-only configuration a host passes into every lifecycle call:
//! the current page, the base the site is mounted under, the site manifest,
//! and the widget registry.

use crate::manifests::SiteManifest;
use crate::path::Path;
use crate::registry::Registry;
use vstd::prelude::*;

verus! {

/// Host-supplied context, constructed once at startup and read-only
/// thereafter.
#[derive(Debug)]
pub struct Context {
    pub page_path: Path,
    pub base_path: Path,
    pub site_manifest: SiteManifest,
    pub registry: Registry,
}

impl Context {
    /// The registry's tag table points at registered factories.
    pub open spec fn wf(&self) -> bool {
        self.registry.wf()
    }
}

} // verus!
