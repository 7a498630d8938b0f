//! What the document tree knows of widgets: the per-path slot a consumer
//! always finds occupied, and the messages that deliver async results back
//! to a widget.
//!
//! Concrete widget content types are supplied by the host; the tree
//! identifies a host widget by its manifest type tag and the registration
//! index of the factory that built it.

use crate::error::FetchError;
use crate::path::Path;
use vstd::prelude::*;

verus! {

/// Raw fetched bytes travel through this core untouched; the type is opaque
/// here and only carried to the widget that asked for them.
#[verifier::external_type_specification]
#[verifier::external_body]
pub struct ExBytes(bytes::Bytes);

/// Structured fetch results travel through this core untouched; the type is
/// opaque here and only carried to the widget that asked for them.
#[verifier::external_type_specification]
#[verifier::external_body]
pub struct ExValue(serde_json::Value);

/// The state a document path is in, with the stand-in data a consumer
/// renders while real content is unavailable. A slot is installed the
/// moment a path is first referenced, so no consumer ever observes a
/// missing slot for a tracked path.
#[derive(Debug)]
pub enum WidgetSlot {
    /// The manifest fetch is under way. `factory` names the registry's
    /// claimant of the "loading" tag, if a host supplied one; otherwise the
    /// built-in placeholder is shown.
    Loading { factory: Option<usize> },
    /// The widget is constructed and owns the slot. `widget` is its
    /// manifest type tag, `factory` the registration index of the factory
    /// that built it.
    Ready { widget: String, factory: usize },
    /// Loading failed; the stand-in carries the document path and the
    /// message, and renders in place of content.
    Failed { doc_path: Path, error: String },
}

/// An async result delivered back to the widget at a document path. Fetch
/// results are tagged with the relative path the widget asked for, so
/// several concurrent fetches can be told apart.
pub enum WidgetMsg<R> {
    /// The outcome of an opaque custom async operation.
    CmdResult(R),
    FetchBytesResult(Path, Result<bytes::Bytes, FetchError>),
    FetchJsonResult(Path, Result<serde_json::Value, FetchError>),
    FetchTextResult(Path, Result<String, FetchError>),
}

} // verus!
