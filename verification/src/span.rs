//! Source locations (`proc_macro2::Span`) are carried through the analysis
//! untouched; the library only copies them and, when asked for text, formats
//! them with `Debug`.

use vstd::prelude::*;

verus! {

/// `proc_macro2::Span`, opaque to the library.
#[verifier::external_type_specification]
#[verifier::external_body]
pub struct ExSpan(proc_macro2::Span);

/// `proc_macro2::Span::call_site`: a span for the current call site. Nothing
/// is claimed of the value it returns.
pub assume_specification[ proc_macro2::Span::call_site ]() -> proc_macro2::Span;

/// The `Debug` text of a span (std `format!("{:?}", span)` over
/// `proc_macro2::Span`'s `Debug` impl). Nothing is claimed of the text: it
/// depends on whether the span comes from the compiler or from a parsed
/// string, which the span's value does not show to the library.
#[verifier::external_body]
pub(crate) fn span_text(span: &proc_macro2::Span) -> String {
    format!("{:?}", span)
}

} // verus!
