//! Conversion of notebook documents into a flattened, readable text rendering.
//!
//! A notebook is an ordered sequence of typed cells (markdown, code or raw),
//! each holding source lines and, for code cells, optional execution outputs.
//! The converter renders such a document to Markdown-flavoured text, with a
//! configurable metadata block and configurable inclusion of cell outputs.

pub mod laws;
pub mod model;
pub mod num;
pub mod parse;
pub mod render;

use vstd::prelude::*;

verus! {

/// Configuration for notebook conversion: two independent switches, both off
/// by default.
pub struct JupyterConverter {
    /// When set, code cells are followed by a rendering of their outputs.
    pub include_outputs: bool,
    /// When set, a document-level metadata block precedes the cells.
    pub include_metadata: bool,
}

impl Default for JupyterConverter {
    fn default() -> (r: Self)
        ensures
            !r.include_outputs,
            !r.include_metadata,
    {
        JupyterConverter { include_outputs: false, include_metadata: false }
    }
}

impl JupyterConverter {
    /// A converter with both switches off.
    pub fn new() -> (r: Self)
        ensures
            !r.include_outputs,
            !r.include_metadata,
    {
        Self::default()
    }

    /// The same converter with the output switch set as given.
    pub fn with_outputs(self, enabled: bool) -> (r: Self)
        ensures
            r.include_outputs == enabled,
            r.include_metadata == self.include_metadata,
    {
        JupyterConverter { include_outputs: enabled, ..self }
    }

    /// The same converter with the metadata switch set as given.
    pub fn with_metadata(self, enabled: bool) -> (r: Self)
        ensures
            r.include_outputs == self.include_outputs,
            r.include_metadata == enabled,
    {
        JupyterConverter { include_metadata: enabled, ..self }
    }
}

} // verus!
