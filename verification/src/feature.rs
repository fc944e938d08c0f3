//! Features: a polygon and the named properties of one building.

use crate::coords::{Position, PositionView};
use crate::number::Decimal;
use crate::text::str_eq;
use vstd::prelude::*;

verus! {

/// The value of a property: text, a number, or nothing.
#[derive(Debug, PartialEq, Eq)]
pub enum PropertyValue {
    Text(String),
    Number(Decimal),
    Unsigned(u64),
    Null,
}

/// A value as contracts see it.
pub enum PropertyValueView {
    Text(Seq<char>),
    Number(Seq<char>),
    Unsigned(u64),
    Null,
}

impl View for PropertyValue {
    type V = PropertyValueView;

    open spec fn view(&self) -> PropertyValueView {
        match self {
            PropertyValue::Text(s) => PropertyValueView::Text(s@),
            PropertyValue::Number(d) => PropertyValueView::Number(d@),
            PropertyValue::Unsigned(n) => PropertyValueView::Unsigned(*n),
            PropertyValue::Null => PropertyValueView::Null,
        }
    }
}

impl DeepView for PropertyValue {
    type V = PropertyValueView;

    open spec fn deep_view(&self) -> PropertyValueView {
        self@
    }
}

/// A property: a name and its value.
#[derive(Debug, PartialEq, Eq)]
pub struct Property {
    pub name: String,
    pub value: PropertyValue,
}

/// A property as contracts see it.
pub struct PropertyView {
    pub name: Seq<char>,
    pub value: PropertyValueView,
}

impl View for Property {
    type V = PropertyView;

    open spec fn view(&self) -> PropertyView {
        PropertyView { name: self.name@, value: self.value@ }
    }
}

impl DeepView for Property {
    type V = PropertyView;

    open spec fn deep_view(&self) -> PropertyView {
        self@
    }
}

/// Whether no two of `entries` have the same name.
pub open spec fn distinct_names(entries: Seq<PropertyView>) -> bool {
    forall|i: int, j: int|
        0 <= i < j < entries.len() ==> (#[trigger] entries[i]).name != (#[trigger] entries[j]).name
}

/// Whether one of `entries` has the name `name`.
pub open spec fn has_name(entries: Seq<PropertyView>, name: Seq<char>) -> bool {
    exists|i: int| 0 <= i < entries.len() && (#[trigger] entries[i]).name == name
}

/// The index of the first of `entries` with the name `name`.
pub open spec fn index_of_name(entries: Seq<PropertyView>, name: Seq<char>) -> int {
    choose|i: int|
        0 <= i < entries.len() && (#[trigger] entries[i]).name == name && forall|j: int|
            0 <= j < i ==> (#[trigger] entries[j]).name != name
}

/// `entries` with `name` set to `value`: in place where the name is there already,
/// at the end where it is new.
pub open spec fn with_property(
    entries: Seq<PropertyView>,
    name: Seq<char>,
    value: PropertyValueView,
) -> Seq<PropertyView> {
    if has_name(entries, name) {
        entries.update(index_of_name(entries, name), PropertyView { name, value })
    } else {
        entries.push(PropertyView { name, value })
    }
}

/// The value that `entries` give to `name`.
pub open spec fn value_of(entries: Seq<PropertyView>, name: Seq<char>) -> Option<
    PropertyValueView,
> {
    if has_name(entries, name) {
        Some(entries[index_of_name(entries, name)].value)
    } else {
        None
    }
}

/// The first entry with a given name exists where any does.
pub proof fn lemma_index_of_name(entries: Seq<PropertyView>, name: Seq<char>)
    requires
        has_name(entries, name),
    ensures
        0 <= index_of_name(entries, name) < entries.len(),
        entries[index_of_name(entries, name)].name == name,
        forall|j: int|
            0 <= j < index_of_name(entries, name) ==> (#[trigger] entries[j]).name != name,
    decreases entries.len(),
{
    let k = choose|i: int| 0 <= i < entries.len() && (#[trigger] entries[i]).name == name;
    lemma_first_index(entries, name, k);
}

proof fn lemma_first_index(entries: Seq<PropertyView>, name: Seq<char>, k: int)
    requires
        0 <= k < entries.len(),
        entries[k].name == name,
    ensures
        exists|i: int|
            0 <= i < entries.len() && (#[trigger] entries[i]).name == name && forall|j: int|
                0 <= j < i ==> (#[trigger] entries[j]).name != name,
    decreases k,
{
    if exists|j: int| 0 <= j < k && (#[trigger] entries[j]).name == name {
        let j = choose|j: int| 0 <= j < k && (#[trigger] entries[j]).name == name;
        lemma_first_index(entries, name, j);
    }
}

/// Setting a property keeps the names distinct, gives `name` the value `value`, and
/// leaves the value of every other name as it was.
pub proof fn lemma_with_property(
    entries: Seq<PropertyView>,
    name: Seq<char>,
    value: PropertyValueView,
    other: Seq<char>,
)
    requires
        distinct_names(entries),
    ensures
        distinct_names(with_property(entries, name, value)),
        value_of(with_property(entries, name, value), name) == Some(value),
        other != name ==> value_of(with_property(entries, name, value), other) == value_of(
            entries,
            other,
        ),
        with_property(entries, name, value).len() == if has_name(entries, name) {
            entries.len()
        } else {
            entries.len() + 1
        },
{
    let after = with_property(entries, name, value);
    if has_name(entries, name) {
        lemma_index_of_name(entries, name);
    }
    let at = if has_name(entries, name) {
        index_of_name(entries, name)
    } else {
        entries.len() as int
    };
    assert(after[at].name == name);
    lemma_index_of_name(after, name);
    assert(index_of_name(after, name) == at);
    if other != name {
        if has_name(entries, other) {
            lemma_index_of_name(entries, other);
            let k = index_of_name(entries, other);
            assert(after[k].name == other);
            lemma_index_of_name(after, other);
            let m = index_of_name(after, other);
            assert(m == k);
        } else if has_name(after, other) {
            lemma_index_of_name(after, other);
        }
    }
}

/// The properties of one building, each name once, in the order in which the names
/// first came.
#[derive(Debug, PartialEq, Eq)]
pub struct PropertyMap {
    entries: Vec<Property>,
}

impl View for PropertyMap {
    type V = Seq<PropertyView>;

    closed spec fn view(&self) -> Seq<PropertyView> {
        self.entries.deep_view()
    }
}

impl DeepView for PropertyMap {
    type V = Seq<PropertyView>;

    open spec fn deep_view(&self) -> Seq<PropertyView> {
        self@
    }
}

impl PropertyMap {
    #[verifier::type_invariant]
    spec fn well_formed(self) -> bool {
        distinct_names(self.entries.deep_view())
    }

    /// A map without properties.
    pub fn new() -> (m: PropertyMap)
        ensures
            m@ == Seq::<PropertyView>::empty(),
    {
        let entries: Vec<Property> = Vec::new();
        PropertyMap { entries }
    }

    /// The number of properties.
    pub fn len(&self) -> (n: usize)
        ensures
            n == self@.len(),
            distinct_names(self@),
    {
        proof {
            use_type_invariant(self);
        }
        self.entries.len()
    }

    /// The property at place `i`.
    pub fn entry(&self, i: usize) -> (p: &Property)
        requires
            i < self@.len(),
        ensures
            p@ == self@[i as int],
    {
        &self.entries[i]
    }

    /// The place of the property named `name`.
    fn position(&self, name: &str) -> (at: Option<usize>)
        ensures
            match at {
                Some(i) => i < self@.len() && has_name(self@, name@) && i == index_of_name(
                    self@,
                    name@,
                ),
                None => !has_name(self@, name@),
            },
    {
        let mut i: usize = 0;
        while i < self.entries.len()
            invariant
                i <= self.entries.len(),
                forall|j: int| 0 <= j < i ==> (#[trigger] self@[j]).name != name@,
            decreases self.entries.len() - i,
        {
            if str_eq(self.entries[i].name.as_str(), name) {
                proof {
                    assert(self@[i as int].name == name@);
                    lemma_index_of_name(self@, name@);
                }
                return Some(i);
            }
            i += 1;
        }
        None
    }

    /// The value of the property named `name`.
    pub fn get(&self, name: &str) -> (value: Option<&PropertyValue>)
        ensures
            match value {
                Some(v) => value_of(self@, name@) == Some(v@),
                None => value_of(self@, name@) is None,
            },
    {
        match self.position(name) {
            Some(i) => Some(&self.entries[i].value),
            None => None,
        }
    }

    /// Sets the property `name` to `value`. A name that is there keeps its place and
    /// loses its old value; a new name comes last.
    pub fn insert(&mut self, name: String, value: PropertyValue)
        ensures
            final(self)@ == with_property(old(self)@, name@, value@),
    {
        let ghost before = self@;
        let ghost after = with_property(before, name@, value@);
        let at = self.position(name.as_str());
        let mut taken = PropertyMap::new();
        core::mem::swap(self, &mut taken);
        proof {
            use_type_invariant(&taken);
            lemma_with_property(before, name@, value@, name@);
        }
        let mut entries = taken.entries;
        match at {
            Some(i) => {
                entries.set(i, Property { name, value });
            },
            None => {
                entries.push(Property { name, value });
            },
        }
        assert(entries.deep_view() =~= after);
        *self = PropertyMap { entries };
    }
}

/// One building: the rings of its footprint and its properties.
#[derive(Debug, PartialEq, Eq)]
pub struct Feature {
    pub rings: Vec<Vec<Position>>,
    pub properties: PropertyMap,
}

/// A feature as contracts see it.
pub struct FeatureView {
    pub rings: Seq<Seq<PositionView>>,
    pub properties: Seq<PropertyView>,
}

impl View for Feature {
    type V = FeatureView;

    open spec fn view(&self) -> FeatureView {
        FeatureView { rings: self.rings.deep_view(), properties: self.properties@ }
    }
}

impl DeepView for Feature {
    type V = FeatureView;

    open spec fn deep_view(&self) -> FeatureView {
        self@
    }
}

} // verus!
