//! What holds of every extraction.

use crate::context::{
    after_end, after_start, after_text, initial, route_of, with_extended_slot, with_number_slot,
    with_text_slot, with_unsigned_slot, ContextView, TextRoute,
};
use crate::coords::{ring_of, PositionView};
use crate::error::ExtractError;
use crate::extract::{extract, run, step};
use crate::feature::{
    distinct_names, lemma_with_property, value_of, with_property, FeatureView, PropertyValueView,
    PropertyView,
};
use crate::number::is_float_text;
use crate::tags::{is_named, tag_of, Tag, PROPERTY_EXTRUSION_HEIGHT};
use crate::text::trimmed;
use crate::xml::{lossy_text, name_attribute, xml_events, XmlAttributeView, XmlEventView};
use vstd::prelude::*;

verus! {

/// The events that stand for nothing the extraction knows: the start and end tags of
/// unknown elements, and markup that is neither tag nor text.
pub open spec fn is_inert(event: XmlEventView) -> bool {
    match event {
        XmlEventView::Start { name, attributes } => tag_of(name) == Tag::Unknown,
        XmlEventView::End { name } => tag_of(name) == Tag::Unknown,
        XmlEventView::Other => true,
        _ => false,
    }
}

/// An inert event leaves every state as it is and completes no feature.
pub proof fn lemma_inert_event_changes_nothing(s: ContextView, event: XmlEventView)
    requires
        is_inert(event),
    ensures
        step(s, event) == Ok::<(ContextView, Option<FeatureView>), ExtractError>((s, None)),
{
}

/// An inert event put anywhere among the events of a file changes neither the
/// features nor the error that the events give.
pub proof fn lemma_inert_event_may_be_put_anywhere(
    s: ContextView,
    events: Seq<XmlEventView>,
    at: int,
    event: XmlEventView,
)
    requires
        0 <= at <= events.len(),
        is_inert(event),
    ensures
        run(s, events.insert(at, event)) == run(s, events),
    decreases at,
{
    let longer = events.insert(at, event);
    if at == 0 {
        assert(longer.skip(1) == events);
    } else {
        assert(longer.skip(1) == events.skip(1).insert(at - 1, event));
        match step(s, events[0]) {
            Ok((next, _)) => {
                lemma_inert_event_may_be_put_anywhere(next, events.skip(1), at - 1, event);
            },
            Err(_) => {},
        }
    }
}

/// The state that `events` leave behind from the state `s` on, as far as they do
/// not fail.
pub open spec fn state_after(s: ContextView, events: Seq<XmlEventView>) -> ContextView
    decreases events.len(),
{
    if events.len() == 0 {
        s
    } else {
        match step(s, events[0]) {
            Ok((next, _)) => state_after(next, events.skip(1)),
            Err(_) => s,
        }
    }
}

/// The features of events that follow one another are the features of the earlier
/// events, then those of the later ones from the state that the earlier leave
/// behind; the first error stops both.
pub proof fn lemma_features_follow_the_events(
    s: ContextView,
    earlier: Seq<XmlEventView>,
    later: Seq<XmlEventView>,
)
    ensures
        run(s, earlier + later) == match run(s, earlier) {
            Ok(first) => match run(state_after(s, earlier), later) {
                Ok(second) => Ok::<Seq<FeatureView>, ExtractError>(first + second),
                Err(e) => Err(e),
            },
            Err(e) => Err(e),
        },
    decreases earlier.len(),
{
    let all = earlier + later;
    if earlier.len() > 0 {
        assert(all.skip(1) == earlier.skip(1) + later);
        match step(s, earlier[0]) {
            Ok((next, completed)) => {
                lemma_features_follow_the_events(next, earlier.skip(1), later);
                match (completed, run(next, earlier.skip(1)), run(state_after(s, earlier), later)) {
                    (Some(f), Ok(first), Ok(second)) => {
                        assert(seq![f] + (first + second) =~= (seq![f] + first) + second);
                    },
                    _ => {},
                }
            },
            Err(_) => {},
        }
    }
}

/// An element that the extraction does not know, with or without text in it, put
/// between two events where character data goes nowhere, changes neither the
/// features nor the error that the events give.
pub proof fn lemma_unknown_element_changes_nothing(
    s: ContextView,
    earlier: Seq<XmlEventView>,
    later: Seq<XmlEventView>,
    name: Seq<u8>,
    attributes: Seq<Option<XmlAttributeView>>,
    content: Option<Seq<char>>,
)
    requires
        tag_of(name) == Tag::Unknown,
        run(s, earlier) is Ok,
        route_of(state_after(s, earlier)) == TextRoute::Ignored,
    ensures
        run(
            s,
            earlier + seq![
                XmlEventView::Start { name, attributes },
                XmlEventView::Text { content },
                XmlEventView::End { name },
            ] + later,
        ) == run(s, earlier + later),
{
    let at = state_after(s, earlier);
    let element = seq![
        XmlEventView::Start { name, attributes },
        XmlEventView::Text { content },
        XmlEventView::End { name },
    ];
    let rest = element + later;
    assert(earlier + element + later =~= earlier + rest);
    lemma_features_follow_the_events(s, earlier, rest);
    lemma_features_follow_the_events(s, earlier, later);
    assert(run(at, rest) == run(at, later)) by {
        assert(rest.skip(1).skip(1).skip(1) =~= later);
        reveal_with_fuel(run, 4);
    }
}

/// The features of a file begin with the features of any beginning of it, in the
/// same order.
pub proof fn lemma_earlier_features_come_first(
    earlier: Seq<XmlEventView>,
    later: Seq<XmlEventView>,
)
    requires
        extract(earlier + later) is Ok,
    ensures
        extract(earlier) is Ok,
        extract(earlier)->Ok_0.is_prefix_of(extract(earlier + later)->Ok_0),
{
    lemma_features_follow_the_events(initial(), earlier, later);
}

/// The same bytes give the same features, or the same error.
pub proof fn lemma_same_bytes_same_features(first: Seq<u8>, second: Seq<u8>)
    requires
        first == second,
    ensures
        extract(xml_events(first)) == extract(xml_events(second)),
{
}

/// What holds of the state between any two events: no property name twice, every
/// number a text of the float grammar, and a value only where its name is.
pub open spec fn consistent(s: ContextView) -> bool {
    &&& sound_properties(s.properties)
    &&& s.text_value is Some ==> s.text_name is Some
    &&& s.number_value is Some ==> s.number_name is Some
    &&& s.unsigned_value is Some ==> s.unsigned_name is Some
    &&& s.number_value is Some ==> is_float_text(s.number_value->0)
}

/// No name twice, and every number a text of the float grammar.
pub open spec fn sound_properties(entries: Seq<PropertyView>) -> bool {
    &&& distinct_names(entries)
    &&& forall|i: int|
        0 <= i < entries.len() ==> match (#[trigger] entries[i]).value {
            PropertyValueView::Number(text) => is_float_text(text),
            _ => true,
        }
}

/// Setting a property to text, to null, to an unsigned value or to a number of the
/// float grammar keeps the properties sound.
pub proof fn lemma_with_property_sound(
    entries: Seq<PropertyView>,
    name: Seq<char>,
    value: PropertyValueView,
)
    requires
        sound_properties(entries),
        match value {
            PropertyValueView::Number(text) => is_float_text(text),
            _ => true,
        },
    ensures
        sound_properties(with_property(entries, name, value)),
{
    lemma_with_property(entries, name, value, name);
    let after = with_property(entries, name, value);
    assert forall|i: int| 0 <= i < after.len() implies match (#[trigger] after[i]).value {
        PropertyValueView::Number(text) => is_float_text(text),
        _ => true,
    } by {
        if i < entries.len() && after[i] == entries[i] {
            assert(sound_properties(entries));
        }
    }
}

/// Closing a slot keeps the properties sound.
pub proof fn lemma_slots_keep_sound(s: ContextView)
    requires
        consistent(s),
    ensures
        sound_properties(with_text_slot(s)),
        sound_properties(with_number_slot(s)),
        sound_properties(with_unsigned_slot(s)),
        sound_properties(with_extended_slot(s)),
{
    match (s.text_name, s.text_value) {
        (Some(n), Some(v)) => {
            lemma_with_property_sound(s.properties, n, PropertyValueView::Text(v));
        },
        _ => {},
    }
    match s.number_name {
        Some(n) => {
            lemma_with_property_sound(
                s.properties,
                n,
                match s.number_value {
                    Some(v) => PropertyValueView::Number(v),
                    None => PropertyValueView::Null,
                },
            );
        },
        None => {},
    }
    match s.unsigned_name {
        Some(n) => {
            lemma_with_property_sound(
                s.properties,
                n,
                match s.unsigned_value {
                    Some(v) => PropertyValueView::Unsigned(v),
                    None => PropertyValueView::Null,
                },
            );
        },
        None => {},
    }
    match (s.extended_key, s.extended_value) {
        (Some(k), Some(v)) => {
            lemma_with_property_sound(
                s.properties,
                PROPERTY_EXTRUSION_HEIGHT@,
                PropertyValueView::Text(v),
            );
        },
        _ => {},
    }
}

/// A start tag keeps the state consistent.
pub proof fn lemma_start_keeps_consistent(s: ContextView, tag: Tag, name: Seq<char>)
    requires
        consistent(s),
    ensures
        consistent(after_start(s, tag, name)),
{
}

/// Character data keeps the state consistent.
pub proof fn lemma_text_keeps_consistent(s: ContextView, content: Seq<char>)
    requires
        consistent(s),
        after_text(s, content) is Ok,
    ensures
        consistent(after_text(s, content)->Ok_0),
{
}

/// An end tag keeps the state consistent, and a feature that it completes has sound
/// properties.
pub proof fn lemma_end_keeps_consistent(s: ContextView, tag: Tag)
    requires
        consistent(s),
    ensures
        consistent(after_end(s, tag).0),
        after_end(s, tag).1 is Some ==> sound_properties(after_end(s, tag).1->0.properties),
{
    lemma_slots_keep_sound(s);
}

/// Every event keeps the state consistent, and a feature that it completes has
/// sound properties.
pub proof fn lemma_step_keeps_consistent(s: ContextView, event: XmlEventView)
    requires
        consistent(s),
        step(s, event) is Ok,
    ensures
        consistent(step(s, event)->Ok_0.0),
        step(s, event)->Ok_0.1 is Some ==> sound_properties(step(s, event)->Ok_0.1->0.properties),
{
    match event {
        XmlEventView::Start { name, attributes } => {
            if is_named(tag_of(name)) {
                lemma_start_keeps_consistent(
                    s,
                    tag_of(name),
                    lossy_text(name_attribute(attributes)->Ok_0),
                );
            } else {
                lemma_start_keeps_consistent(s, tag_of(name), Seq::empty());
            }
        },
        XmlEventView::End { name } => {
            lemma_end_keeps_consistent(s, tag_of(name));
        },
        XmlEventView::Text { content } => {
            if route_of(s) != TextRoute::Ignored {
                lemma_text_keeps_consistent(s, content->0);
            }
        },
        _ => {},
    }
}

/// Every feature of a file has sound properties.
pub proof fn lemma_features_are_sound(s: ContextView, events: Seq<XmlEventView>, i: int)
    requires
        consistent(s),
        run(s, events) is Ok,
        0 <= i < run(s, events)->Ok_0.len(),
    ensures
        sound_properties(run(s, events)->Ok_0[i].properties),
    decreases events.len(),
{
    if events.len() > 0 {
        lemma_step_keeps_consistent(s, events[0]);
        let (next, completed) = step(s, events[0])->Ok_0;
        match completed {
            Some(f) => {
                if i > 0 {
                    lemma_features_are_sound(next, events.skip(1), i - 1);
                }
            },
            None => {
                lemma_features_are_sound(next, events.skip(1), i);
            },
        }
    }
}

/// Text that is no number never stops the extraction where a number is awaited: the
/// property is then written as null.
pub proof fn lemma_number_that_is_none_is_null(s: ContextView, content: Seq<char>, tag: Tag)
    requires
        distinct_names(s.properties),
        route_of(s) == TextRoute::NumberValue,
        !is_float_text(trimmed(content)),
        tag == Tag::MeasuredHeight || tag == Tag::RoofEdgeArea || tag == Tag::MeasureAttribute,
    ensures
        after_text(s, content) is Ok,
        value_of(after_end(after_text(s, content)->Ok_0, tag).0.properties, s.number_name->0)
            == Some(PropertyValueView::Null),
        after_end(after_text(s, content)->Ok_0, tag).1 is None,
{
    lemma_with_property(s.properties, s.number_name->0, PropertyValueView::Null, s.number_name->0);
}

/// A number where a number is awaited is written as it stands, whitespace around it
/// aside.
pub proof fn lemma_number_is_kept(s: ContextView, content: Seq<char>, tag: Tag)
    requires
        distinct_names(s.properties),
        route_of(s) == TextRoute::NumberValue,
        is_float_text(trimmed(content)),
        tag == Tag::MeasuredHeight || tag == Tag::RoofEdgeArea || tag == Tag::MeasureAttribute,
    ensures
        after_text(s, content) is Ok,
        value_of(after_end(after_text(s, content)->Ok_0, tag).0.properties, s.number_name->0)
            == Some(PropertyValueView::Number(trimmed(content))),
{
    lemma_with_property(
        s.properties,
        s.number_name->0,
        PropertyValueView::Number(trimmed(content)),
        s.number_name->0,
    );
}

/// The end tag of a building completes a feature with the rings and the properties
/// gathered so far, and leaves none of them for the next building.
pub proof fn lemma_building_end_completes_a_feature(s: ContextView)
    ensures
        after_end(s, Tag::Building).1 == Some(
            FeatureView { rings: s.rings, properties: s.properties },
        ),
        after_end(s, Tag::Building).0.rings.len() == 0,
        after_end(s, Tag::Building).0.properties.len() == 0,
{
}

/// A list of `3 * n` numbers denotes a ring of `n` positions, the `k`-th made of the
/// second and the first number of the `k`-th triple.
pub proof fn lemma_ring_swaps_axes(numbers: Seq<Seq<char>>, k: int)
    requires
        numbers.len() % 3 == 0,
        0 <= k < numbers.len() / 3,
    ensures
        ring_of(numbers).len() == numbers.len() / 3,
        ring_of(numbers)[k] == (PositionView { x: numbers[3 * k + 1], y: numbers[3 * k] }),
{
}

} // verus!
