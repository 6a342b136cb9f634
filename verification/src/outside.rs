//! Declarations of the outside types that the library's values carry, and
//! the trusted wrappers that read them.

use vstd::prelude::*;

verus! {

/// `anyhow::Error`, declared as an opaque outside type so that library
/// values can carry it.
#[verifier::external_type_specification]
#[verifier::external_body]
pub struct ExAnyhowError(anyhow::Error);

/// Relies on `anyhow::Error::chain` and the `Display` rendering of each
/// link: the returned messages start with this error's own message and
/// continue with each underlying cause in order, so at least one message
/// comes back.
#[verifier::external_body]
pub(crate) fn chain_messages(e: &anyhow::Error) -> (r: Vec<String>)
    ensures
        r@.len() >= 1,
{
    e.chain().map(|c| format!("{}", c)).collect()
}

/// Relies on `anyhow::Error::backtrace` and its `Debug` rendering: the
/// returned text describes the stack captured when the error was created
/// (or states that capture was disabled).
#[verifier::external_body]
pub(crate) fn backtrace_text(e: &anyhow::Error) -> String {
    format!("{:#?}", e.backtrace())
}

/// `std::backtrace::Backtrace`, declared as an opaque outside type: a
/// captured native stack.
#[verifier::external_type_specification]
#[verifier::external_body]
pub struct ExBacktrace(std::backtrace::Backtrace);

/// Relies on the `Debug` rendering of `std::backtrace::Backtrace`: the
/// returned text lists the captured frames, one per line.
#[verifier::external_body]
pub(crate) fn backtrace_debug_text(t: &std::backtrace::Backtrace) -> String {
    format!("{:#?}", t)
}

} // verus!
