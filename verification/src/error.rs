//! What can go wrong between the bytes of a document and a list of courts.

use vstd::prelude::*;

verus! {

/// Where a document departs from the shape that the extraction expects.
#[derive(Debug, Clone, Copy, PartialEq, Eq, Structural)]
pub enum Fault {
    /// The document is not an object with an array under `"items"`.
    MissingItems,
    /// The element at `index` is an object without the flag member.
    MissingFlag { index: usize },
    /// The selected element at `index` has no string under the name key.
    InvalidName { index: usize },
    /// The selected element at `index` has no string under the acronym key.
    InvalidAcronym { index: usize },
}

/// Why no list of courts came out.
#[derive(Debug, Clone, Copy, PartialEq, Eq, Structural)]
pub enum LoadError {
    /// The bytes are not JSON.
    JsonParse,
    /// The document is JSON of another shape.
    Extraction(Fault),
    /// The shape is right and no element was selected.
    EmptyResult,
}

impl LoadError {
    /// The message that describes the error.
    pub open spec fn message_text(self) -> Seq<char> {
        match self {
            LoadError::JsonParse => "the input is not valid JSON"@,
            LoadError::Extraction(Fault::MissingItems) =>
                "failed to parse courts: there is no array under \"items\""@,
            LoadError::Extraction(Fault::MissingFlag { .. }) =>
                "failed to parse courts: a record has no \"busca_documento\""@,
            LoadError::Extraction(Fault::InvalidName { .. }) =>
                "failed to parse courts: a selected record has no string under \"nome\""@,
            LoadError::Extraction(Fault::InvalidAcronym { .. }) =>
                "failed to parse courts: a selected record has no string under \"sigla\""@,
            LoadError::EmptyResult => "no courts parsed"@,
        }
    }

    /// Describes the error in words.
    pub fn message(&self) -> (text: String)
        ensures
            text@ == self.message_text(),
    {
        match self {
            LoadError::JsonParse => "the input is not valid JSON".to_owned(),
            LoadError::Extraction(Fault::MissingItems) =>
                "failed to parse courts: there is no array under \"items\"".to_owned(),
            LoadError::Extraction(Fault::MissingFlag { .. }) =>
                "failed to parse courts: a record has no \"busca_documento\"".to_owned(),
            LoadError::Extraction(Fault::InvalidName { .. }) =>
                "failed to parse courts: a selected record has no string under \"nome\"".to_owned(),
            LoadError::Extraction(Fault::InvalidAcronym { .. }) =>
                "failed to parse courts: a selected record has no string under \"sigla\"".to_owned(),
            LoadError::EmptyResult => "no courts parsed".to_owned(),
        }
    }
}

impl Fault {
    /// The position in the array of the element that raised the fault, where
    /// an element did.
    pub open spec fn spec_position(self) -> Option<usize> {
        match self {
            Fault::MissingItems => None,
            Fault::MissingFlag { index } => Some(index),
            Fault::InvalidName { index } => Some(index),
            Fault::InvalidAcronym { index } => Some(index),
        }
    }

    /// The position of the element that raised the fault, where an element
    /// did.
    pub fn position(&self) -> (index: Option<usize>)
        ensures
            index == self.spec_position(),
    {
        match self {
            Fault::MissingItems => None,
            Fault::MissingFlag { index } => Some(*index),
            Fault::InvalidName { index } => Some(*index),
            Fault::InvalidAcronym { index } => Some(*index),
        }
    }
}

} // verus!
