//! Values that tools hand to the host alongside their text output.
use vstd::prelude::*;

verus! {

/// An HTML widget the GUI mounts next to a tool result.
#[derive(Debug)]
pub struct UiResource {
    /// Resource identifier.
    pub uri: String,
    /// The document the iframe shows.
    pub html: String,
    /// MIME type of `html`.
    pub mime: Option<String>,
    /// Whether the iframe keeps its own origin (needed to load scripts
    /// from a loopback server or a CDN).
    pub allow_same_origin: bool,
}

} // verus!
