//! What can go wrong when a source file is visualized.

use vstd::prelude::*;

verus! {

/// `std::io::Error`, opaque to the library.
#[verifier::external_type_specification]
#[verifier::external_body]
pub struct ExIoError(std::io::Error);

/// `syn::Error`, opaque to the library.
#[verifier::external_type_specification]
#[verifier::external_body]
pub struct ExSynError(syn::Error);

/// Why a source file could not be visualized.
#[derive(Debug)]
pub enum VisualizerError {
    /// The file could not be read.
    FileReadError(std::io::Error),
    /// The text is not a Rust source file.
    ParseError(syn::Error),
    /// The input is unusable for another reason, given in words.
    InvalidInput(String),
}

impl From<std::io::Error> for VisualizerError {
    fn from(e: std::io::Error) -> (r: Self) {
        VisualizerError::FileReadError(e)
    }
}

impl vstd::std_specs::convert::FromSpecImpl<std::io::Error> for VisualizerError {
    open spec fn obeys_from_spec() -> bool {
        true
    }

    open spec fn from_spec(e: std::io::Error) -> Self {
        VisualizerError::FileReadError(e)
    }
}

impl From<syn::Error> for VisualizerError {
    fn from(e: syn::Error) -> (r: Self) {
        VisualizerError::ParseError(e)
    }
}

impl vstd::std_specs::convert::FromSpecImpl<syn::Error> for VisualizerError {
    open spec fn obeys_from_spec() -> bool {
        true
    }

    open spec fn from_spec(e: syn::Error) -> Self {
        VisualizerError::ParseError(e)
    }
}

} // verus!
