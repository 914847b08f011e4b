//! A mapping that servers send either as a JSON object or as a list of
//! `[key, value]` pairs.

use crate::api_map::{map_of, ApiMap};
use crate::json::{
    entries_view, items_view, lemma_array_view, lemma_object_view, Decode, DecodeError, JsonValue,
    JsonView,
};
use vstd::prelude::*;

verus! {

/// The key and the version that an object's entry stands for.
pub open spec fn entry_spec(entry: (Seq<char>, JsonView)) -> Option<(Seq<char>, u32)> {
    match u32::decode_spec(entry.1) {
        Some(version) => Some((entry.0, version)),
        None => None,
    }
}

/// The key and the version that an item of a pair list stands for: an array
/// of exactly a string and a number.
pub open spec fn pair_spec(item: JsonView) -> Option<(Seq<char>, u32)> {
    match item {
        JsonView::Array(pair) => if pair.len() == 2 {
            match (String::decode_spec(pair[0]), u32::decode_spec(pair[1])) {
                (Some(key), Some(version)) => Some((key, version)),
                _ => None,
            }
        } else {
            None
        },
        _ => None,
    }
}

/// The mapping that an object's entries stand for, `None` where one of
/// them stands for no entry. A later entry replaces an earlier one with the
/// same key.
pub open spec fn object_spec(entries: Seq<(Seq<char>, JsonView)>) -> Option<Map<Seq<char>, u32>> {
    if forall|i: int| 0 <= i < entries.len() ==> (#[trigger] entry_spec(entries[i])) is Some {
        Some(map_of(Seq::new(entries.len(), |i: int| entry_spec(entries[i])->0)))
    } else {
        None
    }
}

/// The mapping that a pair list stands for, `None` where one of its items
/// stands for no entry. A later pair replaces an earlier one with the same
/// key.
pub open spec fn pair_list_spec(items: Seq<JsonView>) -> Option<Map<Seq<char>, u32>> {
    if forall|i: int| 0 <= i < items.len() ==> (#[trigger] pair_spec(items[i])) is Some {
        Some(map_of(Seq::new(items.len(), |i: int| pair_spec(items[i])->0)))
    } else {
        None
    }
}

/// The mapping that a document stands for, in either form.
pub open spec fn deserialize_spec(v: JsonView) -> Option<Map<Seq<char>, u32>> {
    match v {
        JsonView::Object(entries) => object_spec(entries),
        JsonView::Array(items) => pair_list_spec(items),
        _ => None,
    }
}

/// Reads one item of a pair list.
fn pair(item: &JsonValue) -> (r: Result<(String, u32), DecodeError>)
    ensures
        match r {
            Ok(entry) => pair_spec(item@) == Some((entry.0@, entry.1)),
            Err(_) => pair_spec(item@) is None,
        },
{
    match item {
        JsonValue::Array(pair) => {
            proof {
                lemma_array_view(*pair);
            }
            if pair.len() != 2 {
                return Err(DecodeError);
            }
            let key = String::decode(&pair[0])?;
            let version = u32::decode(&pair[1])?;
            Ok((key, version))
        },
        _ => Err(DecodeError),
    }
}

/// Reads a mapping sent in either form.
pub fn deserialize(v: &JsonValue) -> (r: Result<ApiMap, DecodeError>)
    ensures
        match r {
            Ok(map) => deserialize_spec(v@) == Some(map@),
            Err(_) => deserialize_spec(v@) is None,
        },
{
    match v {
        JsonValue::Object(entries) => {
            proof {
                lemma_object_view(*entries);
            }
            let ghost all = entries_view(entries@);
            let ghost read = Seq::new(all.len(), |i: int| entry_spec(all[i])->0);
            let mut map = ApiMap::new();
            let mut i: usize = 0;
            assert(read.take(0) =~= Seq::empty());
            while i < entries.len()
                invariant
                    i <= entries.len(),
                    all == entries_view(entries@),
                    v@ == JsonView::Object(all),
                    read == Seq::new(all.len(), |i: int| entry_spec(all[i])->0),
                    forall|j: int| 0 <= j < i ==> (#[trigger] entry_spec(all[j])) is Some,
                    map@ == map_of(read.take(i as int)),
                decreases entries.len() - i,
            {
                let version = match u32::decode(&entries[i].1) {
                    Ok(version) => version,
                    Err(e) => {
                        assert(entry_spec(all[i as int]) is None);
                        return Err(e);
                    },
                };
                let key = entries[i].0.clone();
                assert(read.take(i + 1).drop_last() =~= read.take(i as int));
                assert(read.take(i + 1).last() == (key@, version));
                map.insert(key, version);
                i = i + 1;
            }
            assert(read.take(i as int) =~= read);
            Ok(map)
        },
        JsonValue::Array(items) => {
            proof {
                lemma_array_view(*items);
            }
            let ghost all = items_view(items@);
            let ghost read = Seq::new(all.len(), |i: int| pair_spec(all[i])->0);
            let mut map = ApiMap::new();
            let mut i: usize = 0;
            assert(read.take(0) =~= Seq::empty());
            while i < items.len()
                invariant
                    i <= items.len(),
                    all == items_view(items@),
                    v@ == JsonView::Array(all),
                    read == Seq::new(all.len(), |i: int| pair_spec(all[i])->0),
                    forall|j: int| 0 <= j < i ==> (#[trigger] pair_spec(all[j])) is Some,
                    map@ == map_of(read.take(i as int)),
                decreases items.len() - i,
            {
                let entry = match pair(&items[i]) {
                    Ok(entry) => entry,
                    Err(e) => {
                        assert(pair_spec(all[i as int]) is None);
                        return Err(e);
                    },
                };
                assert(read.take(i + 1).drop_last() =~= read.take(i as int));
                assert(read.take(i + 1).last() == (entry.0@, entry.1));
                map.insert(entry.0, entry.1);
                i = i + 1;
            }
            assert(read.take(i as int) =~= read);
            Ok(map)
        },
        _ => Err(DecodeError),
    }
}

/// The pair list with the content of an object: for each entry, in the same
/// order, the array of its key and its value.
pub open spec fn pair_list_of(entries: Seq<(Seq<char>, JsonView)>) -> Seq<JsonView> {
    Seq::new(
        entries.len(),
        |i: int| JsonView::Array(seq![JsonView::String(entries[i].0), entries[i].1]),
    )
}

/// An object and the pair list with the same content stand for the same
/// mapping, or both for none.
pub proof fn lemma_object_and_pair_list_agree(entries: Seq<(Seq<char>, JsonView)>)
    ensures
        deserialize_spec(JsonView::Object(entries)) == deserialize_spec(
            JsonView::Array(pair_list_of(entries)),
        ),
{
    let items = pair_list_of(entries);
    assert forall|i: int| 0 <= i < entries.len() implies pair_spec(items[i]) == entry_spec(
        entries[i],
    ) by {}
    if forall|i: int| 0 <= i < entries.len() ==> (#[trigger] entry_spec(entries[i])) is Some {
        assert forall|i: int| 0 <= i < items.len() implies (#[trigger] pair_spec(
            items[i],
        )) is Some by {
            assert(entry_spec(entries[i]) is Some);
        }
        assert(Seq::new(entries.len(), |i: int| entry_spec(entries[i])->0) =~= Seq::new(
            items.len(),
            |i: int| pair_spec(items[i])->0,
        ));
    } else {
        let i = choose|i: int| 0 <= i < entries.len() && !((#[trigger] entry_spec(
            entries[i],
        )) is Some);
        assert(pair_spec(items[i]) is None);
    }
}

} // verus!
