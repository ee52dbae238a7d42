//! The optional last step of emission: the assembled text goes through
//! `rustfmt`, by way of the crate `rust_format`.

use vstd::prelude::*;

verus! {

/// The error type of the crate `rust_format`. Nothing is known of its contents.
#[verifier::external_type_specification]
#[verifier::external_body]
pub struct ExFormatError(rust_format::Error);

/// Why no text could be emitted.
#[derive(Clone, Debug, PartialEq, Eq)]
pub enum EmitError {
    /// The disk path held here could not be resolved.
    PathResolution(String),
    /// The formatter refused the assembled text; its diagnostics are held here.
    Format(String),
}

/// Calls `format_str` on the default `rust_format::RustFmt`, which runs the
/// program `rustfmt` on `source`. What comes back depends on that program, so
/// nothing is claimed of it.
#[verifier::external_body]
fn run_formatter(source: &str) -> (outcome: Result<String, rust_format::Error>) {
    rust_format::Formatter::format_str(&rust_format::RustFmt::default(), source)
}

/// Renders a `rust_format::Error` through its `Display` impl. Nothing is
/// claimed of the text.
#[verifier::external_body]
fn diagnostics(error: &rust_format::Error) -> (details: String) {
    error.to_string()
}

/// What emission returns for an outcome of the formatter: the formatted text
/// as it is, or the formatter's failure as `EmitError::Format`.
pub fn formatted(outcome: Result<String, rust_format::Error>) -> (out: Result<String, EmitError>)
    ensures
        match outcome {
            Ok(text) => out matches Ok(same) && same@ == text@,
            Err(_) => out matches Err(EmitError::Format(_)),
        },
{
    match outcome {
        Ok(text) => Ok(text),
        Err(error) => Err(EmitError::Format(diagnostics(&error))),
    }
}

/// `source` as the formatter lays it out, or the formatter's failure. Either
/// the whole formatted text comes back or an error, never a part of either.
pub fn prettify(source: &str) -> (out: Result<String, EmitError>)
    ensures
        out is Err ==> out matches Err(EmitError::Format(_)),
{
    formatted(run_formatter(source))
}

} // verus!
