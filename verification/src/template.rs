//! The template value that flows through the hot-reload core.
//!
//! A template is produced and consumed by the UI framework. The core never
//! looks inside one: it stores templates, hands them on, and asks the framework
//! whether two of them have the same content.

use dioxus::prelude::Template;
use vstd::prelude::*;

verus! {

/// `dioxus::prelude::Template`, taken as an opaque value.
///
/// The framework derives `Clone`, `Copy`, `PartialEq`, `Eq` and `Hash` for it
/// over its four fields (name, roots, node paths, attribute paths), all of them
/// borrowed strings, byte slices and trees of these.
#[verifier::external_type_specification]
#[verifier::external_body]
pub struct ExTemplate<'a>(Template<'a>);

/// Calls `<Template as PartialEq>::eq`.
///
/// Trusted: the derived comparison goes through every field by content, never
/// by address, so it answers `true` exactly for templates that are the same
/// value.
#[verifier::external_body]
pub(crate) fn same_template(a: &Template<'static>, b: &Template<'static>) -> (same: bool)
    ensures
        same == (*a == *b),
{
    a == b
}

} // verus!
