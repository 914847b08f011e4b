//! The wire forms of the plain values that the protocol's messages are made
//! of: text, numbers, truth values, lists and absent values.

use crate::json::{lemma_array_view, Decode, DecodeError, Encode, JsonValue, JsonView};
use vstd::prelude::*;

verus! {

impl Decode for String {
    open spec fn decode_spec(v: JsonView) -> Option<Seq<char>> {
        match v {
            JsonView::String(s) => Some(s),
            _ => None,
        }
    }

    fn decode(v: &JsonValue) -> (r: Result<String, DecodeError>) {
        match v {
            JsonValue::String(s) => Ok(s.clone()),
            _ => Err(DecodeError),
        }
    }
}

impl Encode for String {
    open spec fn encode_spec(x: Seq<char>) -> JsonView {
        JsonView::String(x)
    }

    fn encode(&self) -> (r: JsonValue) {
        JsonValue::String(self.clone())
    }
}

impl Decode for JsonValue {
    /// A document stands for itself: a label that is handed on as it came.
    open spec fn decode_spec(v: JsonView) -> Option<JsonView> {
        Some(v)
    }

    fn decode(v: &JsonValue) -> (r: Result<JsonValue, DecodeError>) {
        Ok(v.clone())
    }
}

impl Encode for JsonValue {
    open spec fn encode_spec(x: JsonView) -> JsonView {
        x
    }

    fn encode(&self) -> (r: JsonValue) {
        self.clone()
    }
}

impl Decode for bool {
    open spec fn decode_spec(v: JsonView) -> Option<bool> {
        match v {
            JsonView::Bool(b) => Some(b),
            _ => None,
        }
    }

    fn decode(v: &JsonValue) -> (r: Result<bool, DecodeError>) {
        match v {
            JsonValue::Bool(b) => Ok(*b),
            _ => Err(DecodeError),
        }
    }
}

impl Encode for bool {
    open spec fn encode_spec(x: bool) -> JsonView {
        JsonView::Bool(x)
    }

    fn encode(&self) -> (r: JsonValue) {
        JsonValue::Bool(*self)
    }
}

impl Decode for u32 {
    open spec fn decode_spec(v: JsonView) -> Option<u32> {
        match v {
            JsonView::Unsigned(n) => if n <= u32::MAX {
                Some(n as u32)
            } else {
                None
            },
            _ => None,
        }
    }

    fn decode(v: &JsonValue) -> (r: Result<u32, DecodeError>) {
        match v {
            JsonValue::Unsigned(n) => if *n <= u32::MAX as u128 {
                Ok(*n as u32)
            } else {
                Err(DecodeError)
            },
            _ => Err(DecodeError),
        }
    }
}

impl Decode for usize {
    open spec fn decode_spec(v: JsonView) -> Option<usize> {
        match v {
            JsonView::Unsigned(n) => if n <= usize::MAX {
                Some(n as usize)
            } else {
                None
            },
            _ => None,
        }
    }

    fn decode(v: &JsonValue) -> (r: Result<usize, DecodeError>) {
        match v {
            JsonValue::Unsigned(n) => if *n <= usize::MAX as u128 {
                Ok(*n as usize)
            } else {
                Err(DecodeError)
            },
            _ => Err(DecodeError),
        }
    }
}

/// The values of a list's items, one for one.
pub open spec fn seq_view<T: View>(s: Seq<T>) -> Seq<T::V> {
    Seq::new(s.len(), |i: int| s[i]@)
}

/// The values that a list of documents stands for, `None` where one of them
/// stands for none.
pub open spec fn decode_items_spec<T: Decode>(items: Seq<JsonView>) -> Option<Seq<T::V>> {
    if forall|i: int| 0 <= i < items.len() ==> (#[trigger] T::decode_spec(items[i])) is Some {
        Some(Seq::new(items.len(), |i: int| T::decode_spec(items[i])->0))
    } else {
        None
    }
}

/// The list that a document stands for: an array whose every item stands
/// for a value.
pub open spec fn decode_array_spec<T: Decode>(v: JsonView) -> Option<Seq<T::V>> {
    match v {
        JsonView::Array(items) => decode_items_spec::<T>(items),
        _ => None,
    }
}

/// What the reading of a list returned, as a value.
pub open spec fn decoded_list<T: View>(r: Result<Vec<T>, DecodeError>) -> Option<Seq<T::V>> {
    match r {
        Ok(list) => Some(seq_view(list@)),
        Err(_) => None,
    }
}

/// Reads a list: every item of the array in its place, or a failure at the
/// first item that cannot be read.
pub fn decode_array<T: Decode>(v: &JsonValue) -> (r: Result<Vec<T>, DecodeError>)
    ensures
        decoded_list(r) == decode_array_spec::<T>(v@),
{
    match v {
        JsonValue::Array(items) => {
            proof {
                lemma_array_view(*items);
            }
            let mut list: Vec<T> = Vec::new();
            let mut i: usize = 0;
            while i < items.len()
                invariant
                    i <= items.len(),
                    v@ == JsonView::Array(crate::json::items_view(items@)),
                    list@.len() == i,
                    forall|j: int|
                        0 <= j < i ==> (#[trigger] T::decode_spec(items@[j]@)) == Some(list@[j]@),
                decreases items.len() - i,
            {
                match T::decode(&items[i]) {
                    Ok(x) => {
                        list.push(x);
                    },
                    Err(e) => {
                        assert(T::decode_spec(v@->Array_0[i as int]) is None);
                        return Err(e);
                    },
                }
                i = i + 1;
            }
            proof {
                let all = v@->Array_0;
                assert forall|j: int| 0 <= j < all.len() implies (#[trigger] T::decode_spec(
                    all[j],
                )) is Some by {
                    assert(T::decode_spec(items@[j]@) == Some(list@[j]@));
                }
                assert(seq_view(list@) =~= decode_items_spec::<T>(all)->0) by {
                    assert forall|j: int| 0 <= j < all.len() implies seq_view(list@)[j]
                        == T::decode_spec(all[j])->0 by {
                        assert(T::decode_spec(items@[j]@) == Some(list@[j]@));
                    }
                }
            }
            Ok(list)
        },
        _ => Err(DecodeError),
    }
}

/// The value that a document stands for where `null` stands for an absent
/// one: the outer `None` is a failure.
pub open spec fn decode_nullable_spec<T: Decode>(v: JsonView) -> Option<Option<T::V>> {
    match v {
        JsonView::Null => Some(None),
        _ => match T::decode_spec(v) {
            Some(x) => Some(Some(x)),
            None => None,
        },
    }
}

/// Reads a value that may be `null`.
pub fn decode_nullable<T: Decode>(v: &JsonValue) -> (r: Result<Option<T>, DecodeError>)
    ensures
        crate::json::decoded_optional(r) == decode_nullable_spec::<T>(v@),
{
    match v {
        JsonValue::Null => Ok(None),
        _ => match T::decode(v) {
            Ok(x) => Ok(Some(x)),
            Err(e) => Err(e),
        },
    }
}

/// The document that stands for nothing: the reply to a call made for its
/// effect alone.
pub open spec fn decode_unit_spec(v: JsonView) -> bool {
    v is Null
}

/// Reads the reply to a call that returns nothing: only `null` is one.
pub fn decode_unit(v: &JsonValue) -> (r: Result<(), DecodeError>)
    ensures
        r is Ok <==> decode_unit_spec(v@),
{
    match v {
        JsonValue::Null => Ok(()),
        _ => Err(DecodeError),
    }
}

} // verus!
