//! The JSON data model that every wire form in this crate is stated over,
//! and the reading of typed values out of it.

use vstd::prelude::*;

verus! {

/// A JSON document held as plain values.
///
/// Numbers are kept only as far as the protocol reads them: a non-negative
/// integer below 2^128, a negative integer, or any other number. An object
/// keeps its entries in the order in which they were written, and may hold
/// a name more than once.
#[derive(Debug, PartialEq, Eq)]
pub enum JsonValue {
    /// `null`.
    Null,
    /// `true` or `false`.
    Bool(bool),
    /// A number that is a non-negative integer below 2^128.
    Unsigned(u128),
    /// A number that is a negative integer.
    Negative(i64),
    /// Any other number: one with a fraction or an exponent, or an integer
    /// out of range.
    Real,
    /// A string.
    String(String),
    /// An array.
    Array(Vec<JsonValue>),
    /// An object: its entries, each a name and a value.
    Object(Vec<(String, JsonValue)>),
}

/// The mathematical value of a [`JsonValue`].
pub enum JsonView {
    Null,
    Bool(bool),
    Unsigned(u128),
    Negative(i64),
    Real,
    String(Seq<char>),
    Array(Seq<JsonView>),
    Object(Seq<(Seq<char>, JsonView)>),
}

impl JsonValue {
    /// The mathematical value of the document.
    pub open spec fn value(self) -> JsonView
        decreases self,
    {
        match self {
            JsonValue::Null => JsonView::Null,
            JsonValue::Bool(b) => JsonView::Bool(b),
            JsonValue::Unsigned(n) => JsonView::Unsigned(n),
            JsonValue::Negative(n) => JsonView::Negative(n),
            JsonValue::Real => JsonView::Real,
            JsonValue::String(s) => JsonView::String(s@),
            JsonValue::Array(items) => JsonView::Array(
                Seq::new(
                    items@.len(),
                    |i: int|
                        if 0 <= i < items@.len() {
                            items@[i].value()
                        } else {
                            JsonView::Null
                        },
                ),
            ),
            JsonValue::Object(entries) => JsonView::Object(
                Seq::new(
                    entries@.len(),
                    |i: int|
                        if 0 <= i < entries@.len() {
                            (entries@[i].0@, entries@[i].1.value())
                        } else {
                            (Seq::empty(), JsonView::Null)
                        },
                ),
            ),
        }
    }
}

impl View for JsonValue {
    type V = JsonView;

    open spec fn view(&self) -> JsonView {
        self.value()
    }
}

/// The values of a list of documents, one for one.
pub open spec fn items_view(items: Seq<JsonValue>) -> Seq<JsonView> {
    Seq::new(items.len(), |i: int| items[i]@)
}

/// The values of an object's entries, one for one and in their order.
pub open spec fn entries_view(entries: Seq<(String, JsonValue)>) -> Seq<(Seq<char>, JsonView)> {
    Seq::new(entries.len(), |i: int| (entries[i].0@, entries[i].1@))
}

/// The value of an array is the array of its items' values.
pub proof fn lemma_array_view(items: Vec<JsonValue>)
    ensures
        JsonValue::Array(items)@ == JsonView::Array(items_view(items@)),
{
    reveal_with_fuel(JsonValue::value, 2);
    assert(JsonValue::Array(items)@->Array_0 =~= items_view(items@));
}

/// The value of an object is the list of its entries' values.
pub proof fn lemma_object_view(entries: Vec<(String, JsonValue)>)
    ensures
        JsonValue::Object(entries)@ == JsonView::Object(entries_view(entries@)),
{
    reveal_with_fuel(JsonValue::value, 2);
    assert(JsonValue::Object(entries)@->Object_0 =~= entries_view(entries@));
}

/// A copy of a document.
fn copy_value(v: &JsonValue) -> (copy: JsonValue)
    ensures
        copy@ == v@,
    decreases v,
{
    match v {
        JsonValue::Null => JsonValue::Null,
        JsonValue::Bool(b) => JsonValue::Bool(*b),
        JsonValue::Unsigned(n) => JsonValue::Unsigned(*n),
        JsonValue::Negative(n) => JsonValue::Negative(*n),
        JsonValue::Real => JsonValue::Real,
        JsonValue::String(s) => JsonValue::String(s.clone()),
        JsonValue::Array(items) => {
            let mut copies: Vec<JsonValue> = Vec::new();
            let mut i: usize = 0;
            while i < items.len()
                invariant
                    i <= items.len(),
                    copies@.len() == i,
                    forall|j: int| 0 <= j < i ==> (#[trigger] copies@[j])@ == items@[j]@,
                    v == JsonValue::Array(*items),
                decreases items.len() - i,
            {
                proof {
                    vstd::std_specs::vec::axiom_vec_index_decreases(*items, i as int);
                    assert(decreases_to!(*v => v->Array_0));
                }
                copies.push(copy_value(&items[i]));
                i = i + 1;
            }
            proof {
                lemma_array_view(*items);
                lemma_array_view(copies);
                assert(items_view(copies@) =~= items_view(items@));
            }
            JsonValue::Array(copies)
        },
        JsonValue::Object(entries) => {
            let mut copies: Vec<(String, JsonValue)> = Vec::new();
            let mut i: usize = 0;
            while i < entries.len()
                invariant
                    i <= entries.len(),
                    copies@.len() == i,
                    forall|j: int|
                        0 <= j < i ==> (#[trigger] copies@[j]).0@ == entries@[j].0@ && copies@[j].1@
                            == entries@[j].1@,
                    v == JsonValue::Object(*entries),
                decreases entries.len() - i,
            {
                let name = entries[i].0.clone();
                proof {
                    vstd::std_specs::vec::axiom_vec_index_decreases(*entries, i as int);
                    assert(decreases_to!(*v => v->Object_0));
                    assert(decreases_to!(entries@[i as int] => entries@[i as int].1));
                }
                let value = copy_value(&entries[i].1);
                copies.push((name, value));
                i = i + 1;
            }
            proof {
                lemma_object_view(*entries);
                lemma_object_view(copies);
                assert(entries_view(copies@) =~= entries_view(entries@));
            }
            JsonValue::Object(copies)
        },
    }
}

impl Clone for JsonValue {
    fn clone(&self) -> (copy: JsonValue)
        ensures
            copy@ == self@,
    {
        copy_value(self)
    }
}

/// The one failure of decoding: the document has not the shape that the
/// protocol gives to the value asked for.
#[derive(Debug, Clone, Copy, PartialEq, Eq)]
pub struct DecodeError;

/// What a search for a name among an object's entries finds.
pub enum Field {
    /// No entry has the name.
    Missing,
    /// Exactly one entry has the name; this is its value.
    Found(JsonView),
    /// Two or more entries have the name.
    Repeated,
}

/// Searches `entries` for `name`.
pub open spec fn field_of(entries: Seq<(Seq<char>, JsonView)>, name: Seq<char>) -> Field
    decreases entries.len(),
{
    if entries.len() == 0 {
        Field::Missing
    } else {
        let rest = field_of(entries.drop_last(), name);
        if entries.last().0 == name {
            match rest {
                Field::Missing => Field::Found(entries.last().1),
                _ => Field::Repeated,
            }
        } else {
            rest
        }
    }
}

/// Searches a document for a field: only an object has fields.
pub open spec fn field(v: JsonView, name: Seq<char>) -> Field {
    match v {
        JsonView::Object(entries) => field_of(entries, name),
        _ => Field::Missing,
    }
}

/// Putting another document under the name of one entry changes what a
/// search for that name finds, where it finds one, and no other search.
pub proof fn lemma_field_of_update(
    entries: Seq<(Seq<char>, JsonView)>,
    i: int,
    value: JsonView,
    name: Seq<char>,
)
    requires
        0 <= i < entries.len(),
    ensures
        name != entries[i].0 ==> field_of(entries.update(i, (entries[i].0, value)), name)
            == field_of(entries, name),
        name == entries[i].0 ==> match field_of(entries, name) {
            Field::Found(_) => field_of(entries.update(i, (entries[i].0, value)), name)
                == Field::Found(value),
            Field::Repeated => field_of(entries.update(i, (entries[i].0, value)), name)
                == Field::Repeated,
            Field::Missing => false,
        },
    decreases entries.len(),
{
    let updated = entries.update(i, (entries[i].0, value));
    let front = entries.drop_last();
    if i == entries.len() - 1 {
        assert(updated.drop_last() =~= front);
    } else {
        assert(updated.drop_last() =~= front.update(i, (front[i].0, value)));
        lemma_field_of_update(front, i, value, name);
    }
}

/// What a decoding returned, as a value: `None` stands for the failure.
pub open spec fn decoded<T: View>(r: Result<T, DecodeError>) -> Option<T::V> {
    match r {
        Ok(x) => Some(x@),
        Err(_) => None,
    }
}

/// A type with a JSON wire form that can be read.
pub trait Decode: View + Sized {
    /// The value that a document stands for, `None` where it stands for none.
    spec fn decode_spec(v: JsonView) -> Option<Self::V>;

    /// Reads a value out of a document.
    fn decode(v: &JsonValue) -> (r: Result<Self, DecodeError>)
        ensures
            decoded(r) == Self::decode_spec(v@),
    ;
}

/// A type with a JSON wire form that can be written.
pub trait Encode: View {
    /// The document that stands for a value.
    spec fn encode_spec(x: Self::V) -> JsonView;

    /// Writes a value as a document.
    fn encode(&self) -> (r: JsonValue)
        ensures
            r@ == Self::encode_spec(self@),
    ;
}

/// `str::eq`: two strings are equal exactly when they hold the same
/// characters in the same order.
#[verifier::external_body]
pub(crate) fn str_eq(a: &str, b: &str) -> (r: bool)
    ensures
        r == (a@ == b@),
{
    a == b
}

/// A reference into an object, as [`Field`] is for its value.
pub(crate) enum FieldRef<'a> {
    Missing,
    Found(&'a JsonValue),
    Repeated,
}

impl<'a> FieldRef<'a> {
    pub(crate) open spec fn as_field(self) -> Field {
        match self {
            FieldRef::Missing => Field::Missing,
            FieldRef::Found(v) => Field::Found(v@),
            FieldRef::Repeated => Field::Repeated,
        }
    }
}

/// Searches a document for a field.
pub(crate) fn find<'a>(v: &'a JsonValue, name: &str) -> (r: FieldRef<'a>)
    ensures
        r.as_field() == field(v@, name@),
{
    match v {
        JsonValue::Object(entries) => {
            proof {
                lemma_object_view(*entries);
            }
            let ghost all = entries_view(entries@);
            let mut found: FieldRef<'a> = FieldRef::Missing;
            let mut i: usize = 0;
            assert(all.take(0) =~= Seq::empty());
            while i < entries.len()
                invariant
                    i <= entries.len(),
                    all == entries_view(entries@),
                    found.as_field() == field_of(all.take(i as int), name@),
                decreases entries.len() - i,
            {
                assert(all.take(i + 1).drop_last() =~= all.take(i as int));
                assert(all.take(i + 1).last() == all[i as int]);
                if str_eq(entries[i].0.as_str(), name) {
                    found = match found {
                        FieldRef::Missing => FieldRef::Found(&entries[i].1),
                        _ => FieldRef::Repeated,
                    };
                }
                i = i + 1;
            }
            assert(all.take(i as int) =~= all);
            found
        },
        _ => FieldRef::Missing,
    }
}

/// The document under a field that must be there.
pub open spec fn required_value_spec(v: JsonView, name: Seq<char>) -> Option<JsonView> {
    match field(v, name) {
        Field::Found(x) => Some(x),
        _ => None,
    }
}

/// Finds the document under a field that must be there exactly once.
pub fn required_value<'a>(v: &'a JsonValue, name: &str) -> (r: Result<&'a JsonValue, DecodeError>)
    ensures
        match r {
            Ok(x) => required_value_spec(v@, name@) == Some(x@),
            Err(_) => required_value_spec(v@, name@) is None,
        },
{
    match find(v, name) {
        FieldRef::Found(x) => Ok(x),
        _ => Err(DecodeError),
    }
}

/// The value of a field that must be there.
pub open spec fn required_spec<T: Decode>(v: JsonView, name: Seq<char>) -> Option<T::V> {
    match field(v, name) {
        Field::Found(x) => T::decode_spec(x),
        _ => None,
    }
}

/// Reads a field that must be there: once and of the right shape.
pub fn required<T: Decode>(v: &JsonValue, name: &str) -> (r: Result<T, DecodeError>)
    ensures
        decoded(r) == required_spec::<T>(v@, name@),
{
    match find(v, name) {
        FieldRef::Found(x) => T::decode(x),
        _ => Err(DecodeError),
    }
}

/// The value of a field that may be absent or null: the outer `None` is a
/// failure, the inner one an absent value.
pub open spec fn optional_spec<T: Decode>(v: JsonView, name: Seq<char>) -> Option<Option<T::V>> {
    match field(v, name) {
        Field::Missing => Some(None),
        Field::Found(JsonView::Null) => Some(None),
        Field::Found(x) => match T::decode_spec(x) {
            Some(d) => Some(Some(d)),
            None => None,
        },
        Field::Repeated => None,
    }
}

/// The value of what may be absent.
pub open spec fn option_view<T: View>(o: Option<T>) -> Option<T::V> {
    match o {
        Some(x) => Some(x@),
        None => None,
    }
}

/// What an optional field's reading returned, as a value.
pub open spec fn decoded_optional<T: View>(r: Result<Option<T>, DecodeError>) -> Option<
    Option<T::V>,
> {
    match r {
        Ok(Some(x)) => Some(Some(x@)),
        Ok(None) => Some(None),
        Err(_) => None,
    }
}

/// Reads a field that may be absent or null.
pub fn optional<T: Decode>(v: &JsonValue, name: &str) -> (r: Result<Option<T>, DecodeError>)
    ensures
        decoded_optional(r) == optional_spec::<T>(v@, name@),
{
    match find(v, name) {
        FieldRef::Missing => Ok(None),
        FieldRef::Found(x) => match x {
            JsonValue::Null => Ok(None),
            _ => match T::decode(x) {
                Ok(d) => Ok(Some(d)),
                Err(e) => Err(e),
            },
        },
        FieldRef::Repeated => Err(DecodeError),
    }
}

} // verus!
