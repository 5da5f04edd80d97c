//! From Rust source text to the events of a walk over it.

use vstd::prelude::*;
use crate::error::VisualizerError;

pub mod events;
pub mod ast_visitor;

pub use ast_visitor::AstVisitor;

verus! {

/// `syn::File`, opaque to the library: a parsed Rust source file.
#[verifier::external_type_specification]
#[verifier::external_body]
pub struct ExFile(syn::File);

/// Whether `syn` accepts `source` as a Rust source file (after an optional
/// byte-order mark and `#!` line).
pub uninterp spec fn rust_source_parses(source: Seq<char>) -> bool;

/// `syn::parse_file`. Claimed: it succeeds exactly when the text is a Rust
/// source file as `syn` reads one, which is a function of the text alone,
/// and the empty text is one (an empty file). What the parsed file holds is
/// not stated.
#[verifier::external_body]
fn syn_parse_file(source: &str) -> (r: Result<syn::File, syn::Error>)
    ensures
        r.is_ok() == rust_source_parses(source@),
        source@.len() == 0 ==> r.is_ok(),
{
    syn::parse_file(source)
}

/// Parses Rust source text into a file, or reports why it is not one.
pub fn parse_source(source: &str) -> (r: Result<syn::File, VisualizerError>)
    ensures
        r.is_ok() == rust_source_parses(source@),
        r matches Err(e) ==> e is ParseError,
{
    match syn_parse_file(source) {
        Ok(file) => Ok(file),
        Err(e) => Err(VisualizerError::ParseError(e)),
    }
}

} // verus!
