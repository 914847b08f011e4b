//! Storage queries, as they are sent, and storage results, as they come
//! back.

use crate::bytes::{to_hex, to_hex_spec};
use crate::json::{
    entries_view, field_of, lemma_object_view, required, required_spec, str_eq, Decode,
    DecodeError, Encode, Field, JsonValue, JsonView,
};
use vstd::prelude::*;

verus! {

/// What a storage query asks for.
#[derive(Debug, Clone, Copy, PartialEq, Eq)]
pub enum StorageQueryType {
    /// The value of the key.
    Value,
    /// The hash of the value of the key.
    Hash,
    /// The closest descendant merkle value.
    ClosestDescendantMerkleValue,
    /// The values of all descendants of the key.
    DescendantsValues,
    /// The hashes of the values of all descendants of the key.
    DescendantsHashes,
}

impl View for StorageQueryType {
    type V = StorageQueryType;

    open spec fn view(&self) -> StorageQueryType {
        *self
    }
}

impl StorageQueryType {
    /// The name of a query type on the wire.
    pub open spec fn wire_name(self) -> Seq<char> {
        match self {
            StorageQueryType::Value => "value"@,
            StorageQueryType::Hash => "hash"@,
            StorageQueryType::ClosestDescendantMerkleValue => "closestDescendantMerkleValue"@,
            StorageQueryType::DescendantsValues => "descendantsValues"@,
            StorageQueryType::DescendantsHashes => "descendantsHashes"@,
        }
    }

    /// The query type that a name on the wire stands for.
    pub open spec fn from_wire_name(name: Seq<char>) -> Option<StorageQueryType> {
        if name == "value"@ {
            Some(StorageQueryType::Value)
        } else if name == "hash"@ {
            Some(StorageQueryType::Hash)
        } else if name == "closestDescendantMerkleValue"@ {
            Some(StorageQueryType::ClosestDescendantMerkleValue)
        } else if name == "descendantsValues"@ {
            Some(StorageQueryType::DescendantsValues)
        } else if name == "descendantsHashes"@ {
            Some(StorageQueryType::DescendantsHashes)
        } else {
            None
        }
    }
}

impl Encode for StorageQueryType {
    open spec fn encode_spec(x: StorageQueryType) -> JsonView {
        JsonView::String(x.wire_name())
    }

    fn encode(&self) -> (r: JsonValue) {
        let name = match self {
            StorageQueryType::Value => "value",
            StorageQueryType::Hash => "hash",
            StorageQueryType::ClosestDescendantMerkleValue => "closestDescendantMerkleValue",
            StorageQueryType::DescendantsValues => "descendantsValues",
            StorageQueryType::DescendantsHashes => "descendantsHashes",
        };
        JsonValue::String(name.to_owned())
    }
}

impl Decode for StorageQueryType {
    open spec fn decode_spec(v: JsonView) -> Option<StorageQueryType> {
        match v {
            JsonView::String(name) => StorageQueryType::from_wire_name(name),
            _ => None,
        }
    }

    fn decode(v: &JsonValue) -> (r: Result<StorageQueryType, DecodeError>) {
        match v {
            JsonValue::String(text) => {
                let name = text.as_str();
                if str_eq(name, "value") {
                    Ok(StorageQueryType::Value)
                } else if str_eq(name, "hash") {
                    Ok(StorageQueryType::Hash)
                } else if str_eq(name, "closestDescendantMerkleValue") {
                    Ok(StorageQueryType::ClosestDescendantMerkleValue)
                } else if str_eq(name, "descendantsValues") {
                    Ok(StorageQueryType::DescendantsValues)
                } else if str_eq(name, "descendantsHashes") {
                    Ok(StorageQueryType::DescendantsHashes)
                } else {
                    Err(DecodeError)
                }
            },
            _ => Err(DecodeError),
        }
    }
}

/// A storage query: a key and what is asked of it.
#[derive(Debug, Clone, PartialEq, Eq)]
pub struct StorageQuery<Key> {
    /// The key.
    pub key: Key,
    /// What is asked for.
    pub query_type: StorageQueryType,
}

/// The mathematical value of a [`StorageQuery`].
pub struct StorageQueryView<Key> {
    pub key: Key,
    pub query_type: StorageQueryType,
}

impl<Key: View> View for StorageQuery<Key> {
    type V = StorageQueryView<Key::V>;

    open spec fn view(&self) -> StorageQueryView<Key::V> {
        StorageQueryView { key: self.key@, query_type: self.query_type }
    }
}

impl<Key: Encode> Encode for StorageQuery<Key> {
    open spec fn encode_spec(x: StorageQueryView<Key::V>) -> JsonView {
        JsonView::Object(
            seq![
                ("key"@, Key::encode_spec(x.key)),
                ("type"@, StorageQueryType::encode_spec(x.query_type)),
            ],
        )
    }

    fn encode(&self) -> (r: JsonValue) {
        let mut entries: Vec<(String, JsonValue)> = Vec::new();
        entries.push(("key".to_owned(), self.key.encode()));
        entries.push(("type".to_owned(), self.query_type.encode()));
        proof {
            lemma_object_view(entries);
            assert(entries_view(entries@) =~= Self::encode_spec(self@)->Object_0);
        }
        JsonValue::Object(entries)
    }
}

impl<Key: Decode> Decode for StorageQuery<Key> {
    open spec fn decode_spec(v: JsonView) -> Option<StorageQueryView<Key::V>> {
        match (required_spec::<Key>(v, "key"@), required_spec::<StorageQueryType>(v, "type"@)) {
            (Some(key), Some(query_type)) => Some(StorageQueryView { key, query_type }),
            _ => None,
        }
    }

    fn decode(v: &JsonValue) -> (r: Result<StorageQuery<Key>, DecodeError>) {
        let key = required::<Key>(v, "key")?;
        let query_type = required::<StorageQueryType>(v, "type")?;
        Ok(StorageQuery { key, query_type })
    }
}

/// The name of each query type stands for that query type.
pub proof fn lemma_query_type_round_trip(query_type: StorageQueryType)
    ensures
        StorageQueryType::decode_spec(StorageQueryType::encode_spec(query_type)) == Some(
            query_type,
        ),
{
    reveal_strlit("value");
    reveal_strlit("hash");
    reveal_strlit("closestDescendantMerkleValue");
    reveal_strlit("descendantsValues");
    reveal_strlit("descendantsHashes");
    assert("value"@.len() == 5);
    assert("hash"@.len() == 4);
    assert("closestDescendantMerkleValue"@.len() == 28);
    assert("descendantsValues"@.len() == 17);
    assert("descendantsHashes"@.len() == 17);
    assert("descendantsValues"@[11] != "descendantsHashes"@[11]);
}

/// Reading a query as it was written gives the query back, where reading
/// its key as it was written gives the key back.
pub proof fn lemma_storage_query_round_trip<Key: Encode + Decode>(query: StorageQueryView<Key::V>)
    requires
        Key::decode_spec(Key::encode_spec(query.key)) == Some(query.key),
    ensures
        StorageQuery::<Key>::decode_spec(StorageQuery::<Key>::encode_spec(query)) == Some(query),
{
    reveal_strlit("key");
    reveal_strlit("type");
    lemma_query_type_round_trip(query.query_type);
    let entries = StorageQuery::<Key>::encode_spec(query)->Object_0;
    assert(entries.drop_last() =~= seq![("key"@, Key::encode_spec(query.key))]);
    assert(entries.drop_last().drop_last() =~= Seq::empty());
    assert(field_of(entries.drop_last().drop_last(), "key"@) == Field::Missing);
    assert(field_of(entries.drop_last().drop_last(), "type"@) == Field::Missing);
    assert("key"@.len() == 3 && "type"@.len() == 4);
    assert(field_of(entries.drop_last(), "key"@) == Field::Found(Key::encode_spec(query.key)));
    assert(field_of(entries.drop_last(), "type"@) == Field::Missing);
}

impl<'a> StorageQuery<&'a [u8]> {
    /// The query as it is sent: the key in its hexadecimal wire form.
    pub fn to_wire(&self) -> (sent: StorageQuery<String>)
        ensures
            sent.key@ == to_hex_spec(self.key@),
            sent.query_type == self.query_type,
    {
        StorageQuery { key: to_hex(self.key), query_type: self.query_type }
    }
}

/// What a storage query found.
#[derive(Debug, Clone, PartialEq, Eq)]
pub enum StorageResultType {
    /// The value of the key, in hexadecimal.
    Value(String),
    /// The hash of the value, in hexadecimal.
    Hash(String),
    /// The closest descendant merkle value, in hexadecimal.
    ClosestDescendantMerkleValue(String),
}

/// The mathematical value of a [`StorageResultType`].
pub enum StorageResultTypeView {
    Value(Seq<char>),
    Hash(Seq<char>),
    ClosestDescendantMerkleValue(Seq<char>),
}

impl View for StorageResultType {
    type V = StorageResultTypeView;

    open spec fn view(&self) -> StorageResultTypeView {
        match self {
            StorageResultType::Value(text) => StorageResultTypeView::Value(text@),
            StorageResultType::Hash(text) => StorageResultTypeView::Hash(text@),
            StorageResultType::ClosestDescendantMerkleValue(text) =>
                StorageResultTypeView::ClosestDescendantMerkleValue(text@),
        }
    }
}

/// Whether a field's name is that of a kind of result.
pub open spec fn is_result_name(name: Seq<char>) -> bool {
    name == "value"@ || name == "hash"@ || name == "closestDescendantMerkleValue"@
}

/// The result that a field stands for: its name gives the kind, and its
/// value must be text.
pub open spec fn result_of(entry: (Seq<char>, JsonView)) -> Option<StorageResultTypeView> {
    match String::decode_spec(entry.1) {
        Some(text) => if entry.0 == "value"@ {
            Some(StorageResultTypeView::Value(text))
        } else if entry.0 == "hash"@ {
            Some(StorageResultTypeView::Hash(text))
        } else if entry.0 == "closestDescendantMerkleValue"@ {
            Some(StorageResultTypeView::ClosestDescendantMerkleValue(text))
        } else {
            None
        },
        None => None,
    }
}

/// The first entry whose name is that of a kind of result.
pub open spec fn first_result(entries: Seq<(Seq<char>, JsonView)>) -> Option<(Seq<char>, JsonView)>
    decreases entries.len(),
{
    if entries.len() == 0 {
        None
    } else if is_result_name(entries[0].0) {
        Some(entries[0])
    } else {
        first_result(entries.drop_first())
    }
}

impl Decode for StorageResultType {
    /// The result is read from the fields of the object that it shares with
    /// its key: the first field that names a kind of result gives it.
    open spec fn decode_spec(v: JsonView) -> Option<StorageResultTypeView> {
        match v {
            JsonView::Object(entries) => match first_result(entries) {
                Some(entry) => result_of(entry),
                None => None,
            },
            _ => None,
        }
    }

    fn decode(v: &JsonValue) -> (r: Result<StorageResultType, DecodeError>) {
        match v {
            JsonValue::Object(entries) => {
                proof {
                    lemma_object_view(*entries);
                }
                let ghost all = entries_view(entries@);
                let mut i: usize = 0;
                assert(all.skip(0) =~= all);
                while i < entries.len()
                    invariant
                        i <= entries.len(),
                        all == entries_view(entries@),
                        v@ == JsonView::Object(all),
                        first_result(all) == first_result(all.skip(i as int)),
                    decreases entries.len() - i,
                {
                    assert(all.skip(i as int)[0] == all[i as int]);
                    assert(all.skip(i as int).drop_first() =~= all.skip(i + 1));
                    let name = entries[i].0.as_str();
                    if str_eq(name, "value") {
                        let text = String::decode(&entries[i].1)?;
                        return Ok(StorageResultType::Value(text));
                    } else if str_eq(name, "hash") {
                        let text = String::decode(&entries[i].1)?;
                        return Ok(StorageResultType::Hash(text));
                    } else if str_eq(name, "closestDescendantMerkleValue") {
                        let text = String::decode(&entries[i].1)?;
                        return Ok(StorageResultType::ClosestDescendantMerkleValue(text));
                    }
                    i = i + 1;
                }
                Err(DecodeError)
            },
            _ => Err(DecodeError),
        }
    }
}

/// One item that a storage operation found: a key and its result.
#[derive(Debug, Clone, PartialEq, Eq)]
pub struct StorageResult {
    /// The key, in hexadecimal.
    pub key: String,
    /// The result of the query.
    pub result: StorageResultType,
}

/// The mathematical value of a [`StorageResult`].
pub struct StorageResultView {
    pub key: Seq<char>,
    pub result: StorageResultTypeView,
}

impl View for StorageResult {
    type V = StorageResultView;

    open spec fn view(&self) -> StorageResultView {
        StorageResultView { key: self.key@, result: self.result@ }
    }
}

impl Decode for StorageResult {
    open spec fn decode_spec(v: JsonView) -> Option<StorageResultView> {
        match (required_spec::<String>(v, "key"@), StorageResultType::decode_spec(v)) {
            (Some(key), Some(result)) => Some(StorageResultView { key, result }),
            _ => None,
        }
    }

    fn decode(v: &JsonValue) -> (r: Result<StorageResult, DecodeError>) {
        let key = required::<String>(v, "key")?;
        let result = StorageResultType::decode(v)?;
        Ok(StorageResult { key, result })
    }
}

} // verus!
