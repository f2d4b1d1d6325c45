//! From a JSON document to the list of courts that it selects.
//!
//! A document is an object whose `"items"` member is an array. Each element of
//! the array is read on its own: an element that is not an object, or whose
//! flag is not the integer 1, is passed over; an object without a flag, or a
//! selected one without a name or an acronym, stops the extraction.

use crate::court::{court_views, Court, CourtView, Courts};
use crate::error::{Fault, LoadError};
use crate::json::{member, Json, JsonView};
use crate::parse::{json_document, parse};
use vstd::prelude::*;

verus! {

/// The key of the array of records.
pub const ITEMS_KEY: &'static str = "items";

/// The key of the flag that selects a record.
pub const FLAG_KEY: &'static str = "busca_documento";

/// The key of a court's name.
pub const NAME_KEY: &'static str = "nome";

/// The key of a court's acronym.
pub const ACRONYM_KEY: &'static str = "sigla";

/// What the extraction makes of one element of the array.
#[derive(Debug, PartialEq, Eq)]
pub enum Reading {
    /// Not an object: passed over.
    NotAnObject,
    /// An object whose flag is not the integer 1: passed over.
    NotSelected,
    /// A selected object with a name and an acronym.
    Selected(Court),
    /// An object without a flag.
    MissingFlag,
    /// A selected object without a string under the name key.
    InvalidName,
    /// A selected object with a name and without a string under the acronym key.
    InvalidAcronym,
}

/// The mathematical value of a [`Reading`].
pub enum ReadingView {
    NotAnObject,
    NotSelected,
    Selected(CourtView),
    MissingFlag,
    InvalidName,
    InvalidAcronym,
}

impl View for Reading {
    type V = ReadingView;

    open spec fn view(&self) -> ReadingView {
        match self {
            Reading::NotAnObject => ReadingView::NotAnObject,
            Reading::NotSelected => ReadingView::NotSelected,
            Reading::Selected(court) => ReadingView::Selected(court@),
            Reading::MissingFlag => ReadingView::MissingFlag,
            Reading::InvalidName => ReadingView::InvalidName,
            Reading::InvalidAcronym => ReadingView::InvalidAcronym,
        }
    }
}

/// How one element of the array reads.
pub open spec fn reading(item: JsonView) -> ReadingView {
    match item {
        JsonView::Object(members) => match member(members, FLAG_KEY@) {
            None => ReadingView::MissingFlag,
            Some(flag) => if flag != JsonView::Number(Some(1int)) {
                ReadingView::NotSelected
            } else {
                match member(members, NAME_KEY@) {
                    Some(JsonView::Text(name)) => match member(members, ACRONYM_KEY@) {
                        Some(JsonView::Text(acronym)) => ReadingView::Selected(
                            CourtView { name, acronym },
                        ),
                        _ => ReadingView::InvalidAcronym,
                    },
                    _ => ReadingView::InvalidName,
                }
            },
        },
        _ => ReadingView::NotAnObject,
    }
}

/// The court that `item` contributes, where it is selected.
pub open spec fn court_in(item: JsonView) -> Option<CourtView> {
    match reading(item) {
        ReadingView::Selected(court) => Some(court),
        _ => None,
    }
}

/// The fault that `item` raises where it stands at `index`, if it raises one.
pub open spec fn fault_in(item: JsonView, index: int) -> Option<Fault> {
    match reading(item) {
        ReadingView::MissingFlag => Some(Fault::MissingFlag { index: index as usize }),
        ReadingView::InvalidName => Some(Fault::InvalidName { index: index as usize }),
        ReadingView::InvalidAcronym => Some(Fault::InvalidAcronym { index: index as usize }),
        _ => None,
    }
}

/// Whether `item` is selected: whether it contributes a court.
pub open spec fn is_selected(item: JsonView) -> bool {
    reading(item) is Selected
}

/// Whether the extraction passes over `item`: it is not an object, or its flag
/// is not the integer 1.
pub open spec fn is_passed_over(item: JsonView) -> bool {
    reading(item) is NotAnObject || reading(item) is NotSelected
}

/// Whether `item` raises a fault: it is an object without a flag, or a
/// selected one without a name or an acronym that is a string.
pub open spec fn is_faulty(item: JsonView) -> bool {
    reading(item) is MissingFlag || reading(item) is InvalidName || reading(item)
        is InvalidAcronym
}

/// The selected elements of `items`, in the order of `items`.
pub open spec fn selected_elements(items: Seq<JsonView>) -> Seq<JsonView> {
    items.filter(|item: JsonView| is_selected(item))
}

/// The courts of the selected elements of `items`, in the order of `items`.
pub open spec fn selected_courts(items: Seq<JsonView>) -> Seq<CourtView> {
    items.filter_map(|item: JsonView| court_in(item))
}

/// The fault of the first element of `items` that raises one.
pub open spec fn first_fault(items: Seq<JsonView>) -> Option<Fault>
    decreases items.len(),
{
    if items.len() == 0 {
        None
    } else {
        match first_fault(items.drop_last()) {
            Some(fault) => Some(fault),
            None => fault_in(items.last(), items.len() - 1),
        }
    }
}

/// The positions of the elements that the extraction skips because they are
/// not objects. It skips them as far as it gets: up to the first fault.
pub open spec fn skipped_positions(items: Seq<JsonView>) -> Seq<usize>
    decreases items.len(),
{
    if items.len() == 0 {
        Seq::empty()
    } else if first_fault(items.drop_last()) is None && reading(items.last()) is NotAnObject {
        skipped_positions(items.drop_last()).push((items.len() - 1) as usize)
    } else {
        skipped_positions(items.drop_last())
    }
}

/// The array of records of a document.
pub open spec fn items_of(doc: JsonView) -> Option<Seq<JsonView>> {
    match doc.get(ITEMS_KEY@) {
        Some(JsonView::Array(items)) => Some(items),
        _ => None,
    }
}

/// What the extraction gives for an array of records: the first fault if there
/// is one, else the selected courts, which have to be at least one.
pub open spec fn items_result(items: Seq<JsonView>) -> Result<Seq<CourtView>, LoadError> {
    match first_fault(items) {
        Some(fault) => Err(LoadError::Extraction(fault)),
        None => if selected_courts(items).len() == 0 {
            Err(LoadError::EmptyResult)
        } else {
            Ok(selected_courts(items))
        },
    }
}

/// What the extraction gives for a document.
pub open spec fn extraction(doc: JsonView) -> Result<Seq<CourtView>, LoadError> {
    match items_of(doc) {
        None => Err(LoadError::Extraction(Fault::MissingItems)),
        Some(items) => items_result(items),
    }
}

/// What loading gives for the bytes of a file: a parse error where they are
/// not JSON, else what the extraction gives for the document.
pub open spec fn loading(bytes: Seq<u8>) -> Result<Seq<CourtView>, LoadError> {
    match json_document(bytes) {
        None => Err(LoadError::JsonParse),
        Some(doc) => extraction(doc),
    }
}

/// The outcome of a load, seen through the view of the list.
pub open spec fn outcome(result: Result<Courts, LoadError>) -> Result<Seq<CourtView>, LoadError> {
    match result {
        Ok(courts) => Ok(courts@),
        Err(error) => Err(error),
    }
}

/// Reads one element of the array.
pub fn read_element(item: &Json) -> (read: Reading)
    ensures
        read@ == reading(item@),
{
    match item {
        Json::Object(_) => {},
        _ => {
            return Reading::NotAnObject;
        },
    }
    let flag = match item.get(FLAG_KEY) {
        Some(flag) => flag,
        None => {
            return Reading::MissingFlag;
        },
    };
    let selected = match flag {
        Json::Number(Some(n)) => *n == 1,
        _ => false,
    };
    if !selected {
        return Reading::NotSelected;
    }
    let name = match item.get(NAME_KEY) {
        Some(Json::Text(name)) => name,
        _ => {
            return Reading::InvalidName;
        },
    };
    let acronym = match item.get(ACRONYM_KEY) {
        Some(Json::Text(acronym)) => acronym,
        _ => {
            return Reading::InvalidAcronym;
        },
    };
    Reading::Selected(Court { name: name.clone(), acronym: acronym.clone() })
}

/// A fault among the first `count` elements is the fault of the whole array.
proof fn lemma_fault_in_prefix(items: Seq<JsonView>, count: int)
    requires
        0 <= count <= items.len(),
        first_fault(items.take(count)) is Some,
    ensures
        first_fault(items) == first_fault(items.take(count)),
    decreases items.len() - count,
{
    if count == items.len() {
        assert(items.take(count) == items);
    } else {
        assert(items.take(count + 1).drop_last() == items.take(count));
        lemma_fault_in_prefix(items, count + 1);
    }
}

/// After a fault among the first `count` elements nothing more is skipped.
proof fn lemma_skipped_in_prefix(items: Seq<JsonView>, count: int)
    requires
        0 <= count <= items.len(),
        first_fault(items.take(count)) is Some,
    ensures
        skipped_positions(items) == skipped_positions(items.take(count)),
    decreases items.len() - count,
{
    if count == items.len() {
        assert(items.take(count) == items);
    } else {
        assert(items.take(count + 1).drop_last() == items.take(count));
        lemma_skipped_in_prefix(items, count + 1);
    }
}

/// Lists the positions of the elements of a document's array that the
/// extraction skips because they are not objects, in rising order. A document
/// without the array has none.
pub fn skipped_elements(doc: &Json) -> (positions: Vec<usize>)
    ensures
        positions@ == match items_of(doc@) {
            Some(items) => skipped_positions(items),
            None => Seq::empty(),
        },
{
    let mut positions: Vec<usize> = Vec::new();
    let items = match doc.get(ITEMS_KEY) {
        Some(Json::Array(items)) => items,
        _ => {
            return positions;
        },
    };
    let ghost views = items_of(doc@)->0;
    let mut index: usize = 0;
    while index < items.len()
        invariant
            index <= items.len(),
            items_of(doc@) == Some(views),
            views.len() == items.len(),
            forall|i: int| 0 <= i < items.len() ==> views[i] == #[trigger] items[i]@,
            first_fault(views.take(index as int)) is None,
            positions@ == skipped_positions(views.take(index as int)),
        decreases items.len() - index,
    {
        let read = read_element(&items[index]);
        proof {
            assert(views.take(index + 1).drop_last() == views.take(index as int));
            assert(views.take(index + 1).last() == items[index as int]@);
        }
        match read {
            Reading::NotAnObject => {
                positions.push(index);
            },
            Reading::NotSelected => {},
            Reading::Selected(_) => {},
            _ => {
                proof {
                    lemma_skipped_in_prefix(views, index + 1);
                }
                return positions;
            },
        }
        index += 1;
    }
    assert(views.take(index as int) == views);
    positions
}

impl Courts {
    /// Extracts the list of courts from a document.
    pub fn from_json(doc: &Json) -> (result: Result<Courts, LoadError>)
        ensures
            outcome(result) == extraction(doc@),
    {
        let items = match doc.get(ITEMS_KEY) {
            Some(Json::Array(items)) => items,
            _ => {
                return Err(LoadError::Extraction(Fault::MissingItems));
            },
        };
        let ghost views = items_of(doc@)->0;
        let mut courts: Vec<Court> = Vec::new();
        let mut index: usize = 0;
        assert(court_views(courts@) == selected_courts(views.take(0)));
        while index < items.len()
            invariant
                index <= items.len(),
                items_of(doc@) == Some(views),
                views.len() == items.len(),
                forall|i: int| 0 <= i < items.len() ==> views[i] == #[trigger] items[i]@,
                first_fault(views.take(index as int)) is None,
                court_views(courts@) == selected_courts(views.take(index as int)),
            decreases items.len() - index,
        {
            let read = read_element(&items[index]);
            let ghost before = views.take(index as int);
            let ghost upto = views.take(index + 1);
            proof {
                assert(upto.drop_last() == before);
                assert(upto.last() == items[index as int]@);
                views.lemma_filter_map_take_succ(|item: JsonView| court_in(item), index as int);
            }
            let fault = match read {
                Reading::Selected(court) => {
                    assert(court_views(courts@.push(court)) == court_views(courts@).push(court@));
                    courts.push(court);
                    None
                },
                Reading::NotAnObject => None,
                Reading::NotSelected => None,
                Reading::MissingFlag => Some(Fault::MissingFlag { index }),
                Reading::InvalidName => Some(Fault::InvalidName { index }),
                Reading::InvalidAcronym => Some(Fault::InvalidAcronym { index }),
            };
            if let Some(fault) = fault {
                proof {
                    lemma_fault_in_prefix(views, index + 1);
                }
                return Err(LoadError::Extraction(fault));
            }
            index += 1;
        }
        assert(views.take(index as int) == views);
        match Courts::new(courts) {
            Some(list) => Ok(list),
            None => Err(LoadError::EmptyResult),
        }
    }

    /// Loads the list of courts from the contents of a court file, given as
    /// its bytes.
    pub fn from_file(contents: &[u8]) -> (result: Result<Courts, LoadError>)
        ensures
            outcome(result) == loading(contents@),
    {
        match parse(contents) {
            Some(doc) => Courts::from_json(&doc),
            None => Err(LoadError::JsonParse),
        }
    }
}

} // verus!
