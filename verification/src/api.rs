//! The loader's options, set the builder way.

use vstd::prelude::*;

use crate::document::LoadOptions;

verus! {

/// Builder for loading an SVG document: it holds the options that documents are loaded
/// with.
#[derive(Debug, Clone, Copy, PartialEq, Eq, Structural)]
pub struct Loader {
    unlimited_size: bool,
    keep_image_data: bool,
}

impl Loader {
    /// The options that documents are loaded with.
    pub closed spec fn options(&self) -> LoadOptions {
        LoadOptions { unlimited_size: self.unlimited_size, keep_image_data: self.keep_image_data }
    }

    /// Creates a `Loader` with the default flags.
    ///
    /// * `unlimited_size` defaults to `false`, as malicious SVG documents could cause the
    /// XML parser to consume very large amounts of memory.
    ///
    /// * `keep_image_data` defaults to `false`.  You may only need this if rendering to
    /// Cairo surfaces that support including image data in compressed formats, like PDF.
    pub fn new() -> (l: Loader)
        ensures
            l.options() == (LoadOptions { unlimited_size: false, keep_image_data: false }),
    {
        Loader { unlimited_size: false, keep_image_data: false }
    }

    /// Controls safety limits used in the XML parser.  Set this to `true` only if loading
    /// a trusted SVG fails due to size limits.
    pub fn with_unlimited_size(self, unlimited: bool) -> (l: Loader)
        ensures
            l.options() == (LoadOptions { unlimited_size: unlimited, ..self.options() }),
    {
        Loader { unlimited_size: unlimited, ..self }
    }

    /// Controls embedding of compressed image data into the renderer.  Set this to `true`
    /// if you are using a Cairo PDF context, or any other type of context which allows
    /// embedding compressed images.
    pub fn keep_image_data(self, keep: bool) -> (l: Loader)
        ensures
            l.options() == (LoadOptions { keep_image_data: keep, ..self.options() }),
    {
        Loader { keep_image_data: keep, ..self }
    }

    /// The options to load a document with.
    pub fn load_options(&self) -> (o: LoadOptions)
        ensures
            o == self.options(),
    {
        LoadOptions { unlimited_size: self.unlimited_size, keep_image_data: self.keep_image_data }
    }
}

} // verus!
