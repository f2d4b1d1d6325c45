//! What holds of the extraction and the renderers together.

use crate::court::CourtView;
use crate::error::LoadError;
use crate::extract::{
    court_in, extraction, fault_in, first_fault, is_faulty, is_passed_over, is_selected, items_of,
    items_result, selected_courts, selected_elements,
};
use crate::json::JsonView;
use crate::render::{postgres_enum_text, postgres_values, rust_enum_text, rust_variants};
use vstd::prelude::*;

verus! {

/// An array raises no fault exactly where none of its elements does.
proof fn lemma_no_fault(items: Seq<JsonView>)
    ensures
        first_fault(items) is None <==> forall|i: int|
            0 <= i < items.len() ==> !is_faulty(#[trigger] items[i]),
    decreases items.len(),
{
    if items.len() > 0 {
        let front = items.drop_last();
        lemma_no_fault(front);
        assert(forall|i: int| 0 <= i < front.len() ==> front[i] == items[i]);
        if first_fault(items) is None {
            assert forall|i: int| 0 <= i < items.len() implies !is_faulty(#[trigger] items[i]) by {
                if i < front.len() {
                    assert(front[i] == items[i]);
                }
            }
        }
    }
}

/// The courts of an array are those of its selected elements, one for one.
proof fn lemma_courts_of_selected(items: Seq<JsonView>)
    ensures
        selected_courts(items) == selected_elements(items).map_values(
            |item: JsonView| court_in(item)->0,
        ),
    decreases items.len(),
{
    reveal(Seq::filter);
    if items.len() > 0 {
        lemma_courts_of_selected(items.drop_last());
    }
}

/// The courts of two arrays, one after the other, are the courts of the two
/// arrays joined.
proof fn lemma_courts_of_joined(first: Seq<JsonView>, second: Seq<JsonView>)
    ensures
        selected_courts(first + second) == selected_courts(first) + selected_courts(second),
    decreases second.len(),
{
    if second.len() == 0 {
        assert(first + second == first);
    } else {
        assert((first + second).drop_last() == first + second.drop_last());
        lemma_courts_of_joined(first, second.drop_last());
    }
}

/// One element that raises a fault fails the whole array, whatever the other
/// elements hold.
pub proof fn lemma_one_fault_fails_all(items: Seq<JsonView>, index: int)
    requires
        0 <= index < items.len(),
        is_faulty(items[index]),
    ensures
        items_result(items) matches Err(LoadError::Extraction(_)),
{
    lemma_no_fault(items);
}

/// The fault that is reported is that of the first element that raises one:
/// it names the position of that element, and no element before it raises
/// one.
pub proof fn lemma_reported_fault_is_the_first(items: Seq<JsonView>)
    requires
        items.len() <= usize::MAX,
        first_fault(items) is Some,
    ensures
        first_fault(items)->0.spec_position() is Some,
        first_fault(items)->0.spec_position()->0 < items.len(),
        fault_in(
            items[first_fault(items)->0.spec_position()->0 as int],
            first_fault(items)->0.spec_position()->0 as int,
        ) == first_fault(items),
        forall|i: int|
            0 <= i < first_fault(items)->0.spec_position()->0 ==> !is_faulty(#[trigger] items[i]),
    decreases items.len(),
{
    let front = items.drop_last();
    if first_fault(front) is Some {
        lemma_reported_fault_is_the_first(front);
    } else {
        lemma_no_fault(front);
    }
    let position = first_fault(items)->0.spec_position()->0;
    assert forall|i: int| 0 <= i < position implies !is_faulty(#[trigger] items[i]) by {
        assert(front[i] == items[i]);
    }
}

/// A document that is extracted gives as many values of the database enum,
/// and as many variants of the source enum, as its array has selected
/// elements.
pub proof fn lemma_one_variant_for_each_selected_element(doc: JsonView)
    requires
        extraction(doc) is Ok,
    ensures
        postgres_values(extraction(doc)->Ok_0).len() == selected_elements(items_of(doc)->0).len(),
        rust_variants(extraction(doc)->Ok_0).len() == selected_elements(items_of(doc)->0).len(),
{
    lemma_courts_of_selected(items_of(doc)->0);
}

/// The courts come out in the order of their elements, and so do their values
/// and variants: an array that is made of two gives what the first gives,
/// followed by what the second gives.
pub proof fn lemma_order_is_kept(first: Seq<JsonView>, second: Seq<JsonView>)
    ensures
        selected_courts(first + second) == selected_courts(first) + selected_courts(second),
        postgres_values(selected_courts(first + second)) == postgres_values(
            selected_courts(first),
        ) + postgres_values(selected_courts(second)),
        rust_variants(selected_courts(first + second)) == rust_variants(selected_courts(first))
            + rust_variants(selected_courts(second)),
{
    lemma_courts_of_joined(first, second);
}

/// Elements that are passed over leave no trace. Two arrays without a fault
/// that hold the same selected elements in the same order, with whatever is
/// passed over among them, give the same result and the same two
/// declarations.
pub proof fn lemma_passed_over_elements_leave_no_trace(one: Seq<JsonView>, other: Seq<JsonView>)
    requires
        first_fault(one) is None,
        first_fault(other) is None,
        selected_elements(one) == selected_elements(other),
    ensures
        items_result(one) == items_result(other),
        postgres_enum_text(selected_courts(one)) == postgres_enum_text(selected_courts(other)),
        rust_enum_text(selected_courts(one)) == rust_enum_text(selected_courts(other)),
{
    lemma_courts_of_selected(one);
    lemma_courts_of_selected(other);
}

/// The result is `EmptyResult` exactly where the document has its array, no
/// element of the array raises a fault, and none is selected: where every
/// element, however many there are, is passed over.
pub proof fn lemma_empty_result(doc: JsonView)
    ensures
        extraction(doc) == Err::<Seq<CourtView>, LoadError>(LoadError::EmptyResult) <==> (
        items_of(doc) is Some && first_fault(items_of(doc)->0) is None && selected_elements(
            items_of(doc)->0,
        ).len() == 0),
        extraction(doc) == Err::<Seq<CourtView>, LoadError>(LoadError::EmptyResult) <==> (
        items_of(doc) is Some && forall|i: int|
            0 <= i < items_of(doc)->0.len() ==> is_passed_over(#[trigger] items_of(doc)->0[i])),
{
    if items_of(doc) is Some {
        let items = items_of(doc)->0;
        lemma_no_fault(items);
        lemma_courts_of_selected(items);
        lemma_nothing_selected(items);
    }
}

/// No element of an array is selected exactly where its selected elements are
/// none.
proof fn lemma_nothing_selected(items: Seq<JsonView>)
    ensures
        selected_elements(items).len() == 0 <==> forall|i: int|
            0 <= i < items.len() ==> !is_selected(#[trigger] items[i]),
    decreases items.len(),
{
    reveal(Seq::filter);
    if items.len() > 0 {
        let front = items.drop_last();
        lemma_nothing_selected(front);
        assert(forall|i: int| 0 <= i < front.len() ==> front[i] == items[i]);
        if selected_elements(items).len() == 0 {
            assert forall|i: int| 0 <= i < items.len() implies !is_selected(#[trigger] items[i]) by {
                if i < front.len() {
                    assert(front[i] == items[i]);
                }
            }
        }
    }
}

/// An element that is not an object is skipped, and the extraction goes on.
/// Put anywhere into an array, it changes neither the courts nor whether a
/// fault is raised; where the array gives a list of courts, it still gives
/// that list.
pub proof fn lemma_non_object_is_skipped(
    before: Seq<JsonView>,
    element: JsonView,
    after: Seq<JsonView>,
)
    requires
        !(element is Object),
    ensures
        selected_courts(before + seq![element] + after) == selected_courts(before + after),
        first_fault(before + seq![element] + after) is None <==> first_fault(before + after)
            is None,
        items_result(before + after) is Ok ==> items_result(before + seq![element] + after)
            == items_result(before + after),
{
    let with = before + seq![element] + after;
    let without = before + after;
    lemma_courts_of_joined(before, seq![element]);
    lemma_courts_of_joined(before + seq![element], after);
    lemma_courts_of_joined(before, after);
    Seq::lemma_filter_map_singleton(element, |item: JsonView| court_in(item));
    assert(selected_courts(seq![element]) == Seq::<CourtView>::empty());
    assert(selected_courts(before) + Seq::<CourtView>::empty() == selected_courts(before));
    lemma_no_fault(with);
    lemma_no_fault(without);
    if first_fault(with) is None {
        assert forall|i: int| 0 <= i < without.len() implies !is_faulty(#[trigger] without[i]) by {
            if i < before.len() {
                assert(without[i] == with[i]);
            } else {
                assert(without[i] == with[i + 1]);
            }
        }
    }
    if first_fault(without) is None {
        assert forall|i: int| 0 <= i < with.len() implies !is_faulty(#[trigger] with[i]) by {
            if i < before.len() {
                assert(with[i] == without[i]);
            } else if i > before.len() {
                assert(with[i] == without[i - 1]);
            } else {
                assert(with[i] == element);
            }
        }
    }
}

} // verus!
