//! The extension and what it remembers between requests.

use vstd::prelude::*;

verus! {

/// The extension. It remembers where the language server binary was last found.
#[derive(Debug, PartialEq, Eq)]
pub struct PhpLspExtension {
    /// The path that the last successful resolution returned.
    pub cached_binary_path: Option<String>,
}

impl PhpLspExtension {
    /// An extension that has not found a binary yet.
    pub fn new() -> (extension: Self)
        ensures
            extension.cached_binary_path is None,
    {
        PhpLspExtension { cached_binary_path: None }
    }
}

} // verus!
