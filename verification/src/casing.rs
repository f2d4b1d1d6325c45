//! Case conversion of identifiers, done by `convert_case`.

use convert_case::{Case, Casing};
use vstd::prelude::*;

verus! {

/// The two conventions that the renderer converts to.
#[derive(Debug, Clone, Copy, PartialEq, Eq, Structural)]
pub enum CaseStyle {
    /// Words run together, each with a capital first letter: `PascalCase`.
    Pascal,
    /// Words in capitals, joined by hyphens: `UPPER-KEBAB`.
    UpperKebab,
}

/// What `convert_case` makes of `text` in the style `style`: the result of
/// `Casing::to_case` with the default word boundaries. It depends on the text
/// and the style alone.
pub uninterp spec fn case_converted(text: Seq<char>, style: CaseStyle) -> Seq<char>;

/// Calls `Casing::to_case` on `text`, with `Case::Pascal` or
/// `Case::UpperKebab` as `style` says. Trusted: the string that comes back is
/// the one that `case_converted` names.
#[verifier::external_body]
pub(crate) fn to_case(text: &str, style: CaseStyle) -> (converted: String)
    ensures
        converted@ == case_converted(text@, style),
{
    match style {
        CaseStyle::Pascal => text.to_case(Case::Pascal),
        CaseStyle::UpperKebab => text.to_case(Case::UpperKebab),
    }
}

} // verus!
