//! The two declarations that are rendered from a list of courts.

use crate::casing::{case_converted, to_case, CaseStyle};
use crate::court::{court_views, Court, CourtView, Courts};
use vstd::prelude::*;
use vstd::string::*;

verus! {

/// `parts` one after the other, with `separator` between each two.
pub open spec fn joined(parts: Seq<Seq<char>>, separator: Seq<char>) -> Seq<char>
    decreases parts.len(),
{
    if parts.len() == 0 {
        Seq::empty()
    } else if parts.len() == 1 {
        parts[0]
    } else {
        joined(parts.drop_last(), separator) + separator + parts.last()
    }
}

/// The line that holds the value of one court in the database enum: a tab and
/// the acronym in single quotes, as it is, with nothing escaped.
pub open spec fn postgres_value(court: CourtView) -> Seq<char> {
    "\t'"@ + court.acronym + "'"@
}

/// The value lines of the database enum, one for each court, in their order.
pub open spec fn postgres_values(courts: Seq<CourtView>) -> Seq<Seq<char>> {
    courts.map_values(|court: CourtView| postgres_value(court))
}

/// The declaration of the database enum: the value lines between the opening
/// and the closing line, with a comma after each but the last.
pub open spec fn postgres_enum_text(courts: Seq<CourtView>) -> Seq<char> {
    "CREATE TYPE kyc.courts AS enum(\n"@ + joined(postgres_values(courts), ",\n"@) + "\n);\n"@
}

/// The identifier of the variant that stands for the court with the acronym
/// `acronym`: the acronym in Pascal case.
pub open spec fn spec_variant_identifier(acronym: Seq<char>) -> Seq<char> {
    case_converted(acronym, CaseStyle::Pascal)
}

/// Whether the variant of `acronym` has to name its acronym: it has to where
/// the identifier, converted back to upper-case words joined by hyphens, is
/// not the acronym again.
pub open spec fn spec_needs_rename(acronym: Seq<char>) -> bool {
    case_converted(spec_variant_identifier(acronym), CaseStyle::UpperKebab) != acronym
}

/// The lines of one variant: the name of the court as a doc comment, then,
/// where `renamed`, the attribute that names the acronym, then the identifier.
pub open spec fn rust_variant_text(court: CourtView, identifier: Seq<char>, renamed: bool) -> Seq<
    char,
> {
    "\t/// "@ + court.name + "\n"@ + (if renamed {
        "\t#[serde(rename = \""@ + court.acronym + "\")]\n"@
    } else {
        Seq::empty()
    }) + "\t"@ + identifier + ",\n"@
}

/// The lines of the variant of one court.
pub open spec fn rust_variant(court: CourtView) -> Seq<char> {
    rust_variant_text(
        court,
        spec_variant_identifier(court.acronym),
        spec_needs_rename(court.acronym),
    )
}

/// The variants of the source enum, one for each court, in their order.
pub open spec fn rust_variants(courts: Seq<CourtView>) -> Seq<Seq<char>> {
    courts.map_values(|court: CourtView| rust_variant(court))
}

/// The declaration of the source enum: the variants between the opening and
/// the closing line.
pub open spec fn rust_enum_text(courts: Seq<CourtView>) -> Seq<char> {
    "pub enum Courts {\n"@ + joined(rust_variants(courts), Seq::empty()) + "}\n"@
}

/// Makes the identifier of the variant for `acronym`.
pub fn variant_identifier(acronym: &str) -> (identifier: String)
    ensures
        identifier@ == spec_variant_identifier(acronym@),
{
    to_case(acronym, CaseStyle::Pascal)
}

/// Tells whether the variant for `acronym` has to name its acronym.
pub fn needs_rename(acronym: &str) -> (needed: bool)
    ensures
        needed == spec_needs_rename(acronym@),
{
    let identifier = variant_identifier(acronym);
    let restored = to_case(identifier.as_str(), CaseStyle::UpperKebab);
    !(restored == acronym.to_owned())
}

/// Renders the variant of `court` from its identifier and from `restored`,
/// the text that the identifier converts back to. The variant names its
/// acronym exactly where `restored` differs from it.
pub fn render_variant(court: &Court, identifier: &str, restored: &str) -> (text: String)
    ensures
        text@ == rust_variant_text(court@, identifier@, restored@ != court.acronym@),
{
    let restored = restored.to_owned();
    let mut text = String::from_str("\t/// ");
    text.append(court.name.as_str());
    text.append("\n");
    if !(restored == court.acronym) {
        text.append("\t#[serde(rename = \"");
        text.append(court.acronym.as_str());
        text.append("\")]\n");
    }
    text.append("\t");
    text.append(identifier);
    text.append(",\n");
    text
}

impl Courts {
    /// Renders the declaration of the source enum.
    pub fn display_rust_enum(&self) -> (text: String)
        ensures
            text@ == rust_enum_text(self@),
    {
        let courts = self.as_slice();
        let ghost variants = rust_variants(self@);
        let mut text = String::from_str("pub enum Courts {\n");
        let ghost opening = text@;
        let mut index: usize = 0;
        assert(variants.take(0).len() == 0);
        while index < courts.len()
            invariant
                index <= courts.len(),
                court_views(courts@) == self@,
                variants == rust_variants(self@),
                opening == "pub enum Courts {\n"@,
                text@ == opening + joined(variants.take(index as int), Seq::empty()),
            decreases courts.len() - index,
        {
            proof {
                assert(variants.take(index + 1).drop_last() == variants.take(index as int));
                assert(variants.take(index + 1).last() == rust_variant(courts[index as int]@));
            }
            let identifier = variant_identifier(courts[index].acronym.as_str());
            let restored = to_case(identifier.as_str(), CaseStyle::UpperKebab);
            let variant = render_variant(&courts[index], identifier.as_str(), restored.as_str());
            text.append(variant.as_str());
            assert(text@ == opening + joined(variants.take(index + 1), Seq::empty()));
            index += 1;
        }
        assert(variants.take(index as int) == variants);
        text.append("}\n");
        text
    }

    /// Renders the declaration of the database enum.
    pub fn display_postgres_enum(&self) -> (text: String)
        ensures
            text@ == postgres_enum_text(self@),
    {
        let courts = self.as_slice();
        let ghost values = postgres_values(self@);
        let mut text = String::from_str("CREATE TYPE kyc.courts AS enum(\n");
        let ghost opening = text@;
        let mut index: usize = 0;
        assert(values.take(0).len() == 0);
        while index < courts.len()
            invariant
                index <= courts.len(),
                court_views(courts@) == self@,
                values == postgres_values(self@),
                opening == "CREATE TYPE kyc.courts AS enum(\n"@,
                text@ == opening + joined(values.take(index as int), ",\n"@),
            decreases courts.len() - index,
        {
            proof {
                assert(values.take(index + 1).drop_last() == values.take(index as int));
                assert(values.take(index + 1).last() == postgres_value(courts[index as int]@));
            }
            if index > 0 {
                text.append(",\n");
            }
            text.append("\t'");
            text.append(courts[index].acronym.as_str());
            text.append("'");
            assert(text@ == opening + joined(values.take(index + 1), ",\n"@));
            index += 1;
        }
        assert(values.take(index as int) == values);
        text.append("\n);\n");
        text
    }
}

} // verus!
