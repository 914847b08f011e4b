//! The calls of the protocol, as the requests that a transport sends for
//! them. What comes back is read with the decoders of the reply types.

use crate::bytes::{to_hex, to_hex_spec};
use crate::json::{items_view, Encode, JsonValue, JsonView};
use crate::storage::{StorageQuery, StorageQueryView};
use std::marker::PhantomData;
use vstd::prelude::*;

verus! {

/// A request to send: the name of a method and its parameters in order.
#[derive(Debug, PartialEq, Eq)]
pub struct Request {
    /// The name of the method.
    pub method: String,
    /// The parameters, in the order of the method's signature.
    pub params: Vec<JsonValue>,
}

/// The mathematical value of a [`Request`].
pub struct RequestView {
    pub method: Seq<char>,
    pub params: Seq<JsonView>,
}

impl View for Request {
    type V = RequestView;

    open spec fn view(&self) -> RequestView {
        RequestView { method: self.method@, params: items_view(self.params@) }
    }
}

/// A subscription to open: the request that opens it, and the name of the
/// method that closes it on the server.
#[derive(Debug, PartialEq, Eq)]
pub struct Subscribe {
    /// The request that opens the subscription.
    pub request: Request,
    /// The method to call when the subscription is dropped.
    pub unsubscribe_method: String,
}

/// The mathematical value of a [`Subscribe`].
pub struct SubscribeView {
    pub request: RequestView,
    pub unsubscribe_method: Seq<char>,
}

impl View for Subscribe {
    type V = SubscribeView;

    open spec fn view(&self) -> SubscribeView {
        SubscribeView { request: self.request@, unsubscribe_method: self.unsubscribe_method@ }
    }
}

/// Builds a request from a method's name and its parameters.
fn request(method: &str, params: Vec<JsonValue>) -> (r: Request)
    ensures
        r@ == (RequestView { method: method@, params: items_view(params@) }),
{
    Request { method: method.to_owned(), params }
}

/// A text parameter.
fn text(s: &str) -> (r: JsonValue)
    ensures
        r@ == JsonView::String(s@),
{
    JsonValue::String(s.to_owned())
}

/// A binary parameter: its hexadecimal wire form.
fn binary(bytes: &[u8]) -> (r: JsonValue)
    ensures
        r@ == JsonView::String(to_hex_spec(bytes@)),
{
    JsonValue::String(to_hex(bytes))
}

/// A storage query as it is sent: its key in hexadecimal.
pub open spec fn sent_query(query: StorageQueryView<Seq<u8>>) -> JsonView {
    StorageQuery::<String>::encode_spec(
        StorageQueryView { key: to_hex_spec(query.key), query_type: query.query_type },
    )
}

/// The storage queries of a call as they are sent, in their order.
pub open spec fn sent_queries<'a>(items: Seq<StorageQuery<&'a [u8]>>) -> Seq<JsonView> {
    Seq::new(items.len(), |i: int| sent_query(items[i]@))
}

/// A child trie's key as it is sent: in hexadecimal, or `null` for none.
pub open spec fn sent_child_key(child_key: Option<&[u8]>) -> JsonView {
    match child_key {
        Some(key) => JsonView::String(to_hex_spec(key@)),
        None => JsonView::Null,
    }
}

/// The calls of the protocol for a chain whose hashes are of type `Hash`.
#[derive(Debug)]
pub struct UnstableRpcMethods<Hash> {
    _marker: PhantomData<Hash>,
}

impl<Hash> Clone for UnstableRpcMethods<Hash> {
    fn clone(&self) -> (copy: Self) {
        UnstableRpcMethods { _marker: PhantomData }
    }
}

impl<Hash: Encode> UnstableRpcMethods<Hash> {
    /// The calls of the protocol.
    pub fn new() -> (methods: Self) {
        UnstableRpcMethods { _marker: PhantomData }
    }

    /// Opens the follow subscription, with or without the blocks'
    /// runtimes. Dropping it calls the unfollow method, so that the server
    /// lets go of every block pinned for it.
    pub fn chainhead_unstable_follow(&self, with_runtime: bool) -> (r: Subscribe)
        ensures
            r@ == (SubscribeView {
                request: RequestView {
                    method: "chainHead_unstable_follow"@,
                    params: seq![JsonView::Bool(with_runtime)],
                },
                unsubscribe_method: "chainHead_unstable_unfollow"@,
            }),
    {
        let mut params: Vec<JsonValue> = Vec::new();
        params.push(JsonValue::Bool(with_runtime));
        let r = Subscribe {
            request: request("chainHead_unstable_follow", params),
            unsubscribe_method: "chainHead_unstable_unfollow".to_owned(),
        };
        assert(r@.request.params =~= seq![JsonView::Bool(with_runtime)]);
        r
    }

    /// Resumes a storage operation that waits to be told to continue.
    pub fn chainhead_unstable_continue(&self, follow_subscription: &str, operation_id: &str) -> (r:
        Request)
        ensures
            r@ == (RequestView {
                method: "chainHead_unstable_continue"@,
                params: seq![
                    JsonView::String(follow_subscription@),
                    JsonView::String(operation_id@),
                ],
            }),
    {
        let mut params: Vec<JsonValue> = Vec::new();
        params.push(text(follow_subscription));
        params.push(text(operation_id));
        let r = request("chainHead_unstable_continue", params);
        assert(r@.params =~= seq![
            JsonView::String(follow_subscription@),
            JsonView::String(operation_id@),
        ]);
        r
    }

    /// Stops an operation that is still running.
    pub fn chainhead_unstable_stop_operation(
        &self,
        follow_subscription: &str,
        operation_id: &str,
    ) -> (r: Request)
        ensures
            r@ == (RequestView {
                method: "chainHead_unstable_stopOperation"@,
                params: seq![
                    JsonView::String(follow_subscription@),
                    JsonView::String(operation_id@),
                ],
            }),
    {
        let mut params: Vec<JsonValue> = Vec::new();
        params.push(text(follow_subscription));
        params.push(text(operation_id));
        let r = request("chainHead_unstable_stopOperation", params);
        assert(r@.params =~= seq![
            JsonView::String(follow_subscription@),
            JsonView::String(operation_id@),
        ]);
        r
    }

    /// Asks for the body of a block. The reply is a
    /// [`MethodResponse`](crate::method_response::MethodResponse); the body
    /// comes later, as an event of the follow subscription.
    pub fn chainhead_unstable_body(&self, subscription_id: &str, hash: &Hash) -> (r: Request)
        ensures
            r@ == (RequestView {
                method: "chainHead_unstable_body"@,
                params: seq![JsonView::String(subscription_id@), Hash::encode_spec(hash@)],
            }),
    {
        let mut params: Vec<JsonValue> = Vec::new();
        params.push(text(subscription_id));
        params.push(hash.encode());
        let r = request("chainHead_unstable_body", params);
        assert(r@.params =~= seq![JsonView::String(subscription_id@), Hash::encode_spec(hash@)]);
        r
    }

    /// Asks for the header of a block. The reply is the header's bytes in
    /// hexadecimal, or `null` where the server does not know the block.
    pub fn chainhead_unstable_header(&self, subscription_id: &str, hash: &Hash) -> (r: Request)
        ensures
            r@ == (RequestView {
                method: "chainHead_unstable_header"@,
                params: seq![JsonView::String(subscription_id@), Hash::encode_spec(hash@)],
            }),
    {
        let mut params: Vec<JsonValue> = Vec::new();
        params.push(text(subscription_id));
        params.push(hash.encode());
        let r = request("chainHead_unstable_header", params);
        assert(r@.params =~= seq![JsonView::String(subscription_id@), Hash::encode_spec(hash@)]);
        r
    }

    /// Asks for items of a block's storage. Each query's key, and the child
    /// trie's key where there is one, is sent in hexadecimal.
    pub fn chainhead_unstable_storage(
        &self,
        subscription_id: &str,
        hash: &Hash,
        items: &[StorageQuery<&[u8]>],
        child_key: Option<&[u8]>,
    ) -> (r: Request)
        ensures
            r@ == (RequestView {
                method: "chainHead_unstable_storage"@,
                params: seq![
                    JsonView::String(subscription_id@),
                    Hash::encode_spec(hash@),
                    JsonView::Array(sent_queries(items@)),
                    sent_child_key(child_key),
                ],
            }),
    {
        let mut queries: Vec<JsonValue> = Vec::new();
        let mut i: usize = 0;
        while i < items.len()
            invariant
                i <= items.len(),
                queries@.len() == i,
                forall|j: int| 0 <= j < i ==> (#[trigger] queries@[j])@ == sent_query(items@[j]@),
            decreases items.len() - i,
        {
            let sent = items[i].to_wire();
            queries.push(sent.encode());
            i = i + 1;
        }
        let sent_items = JsonValue::Array(queries);
        proof {
            crate::json::lemma_array_view(queries);
            assert(items_view(queries@) =~= sent_queries(items@));
        }
        let key = match child_key {
            Some(key) => binary(key),
            None => JsonValue::Null,
        };
        let mut params: Vec<JsonValue> = Vec::new();
        params.push(text(subscription_id));
        params.push(hash.encode());
        params.push(sent_items);
        params.push(key);
        let r = request("chainHead_unstable_storage", params);
        assert(r@.params =~= seq![
            JsonView::String(subscription_id@),
            Hash::encode_spec(hash@),
            JsonView::Array(sent_queries(items@)),
            sent_child_key(child_key),
        ]);
        r
    }

    /// Asks for a call of a runtime function at a block. The parameters of
    /// the function are sent in hexadecimal.
    pub fn chainhead_unstable_call(
        &self,
        subscription_id: &str,
        hash: &Hash,
        function: &str,
        call_parameters: &[u8],
    ) -> (r: Request)
        ensures
            r@ == (RequestView {
                method: "chainHead_unstable_call"@,
                params: seq![
                    JsonView::String(subscription_id@),
                    Hash::encode_spec(hash@),
                    JsonView::String(function@),
                    JsonView::String(to_hex_spec(call_parameters@)),
                ],
            }),
    {
        let mut params: Vec<JsonValue> = Vec::new();
        params.push(text(subscription_id));
        params.push(hash.encode());
        params.push(text(function));
        params.push(binary(call_parameters));
        let r = request("chainHead_unstable_call", params);
        assert(r@.params =~= seq![
            JsonView::String(subscription_id@),
            Hash::encode_spec(hash@),
            JsonView::String(function@),
            JsonView::String(to_hex_spec(call_parameters@)),
        ]);
        r
    }

    /// Lets go of a block that the subscription reported. A caller owes
    /// this for every reported block that it no longer needs.
    pub fn chainhead_unstable_unpin(&self, subscription_id: &str, hash: &Hash) -> (r: Request)
        ensures
            r@ == (RequestView {
                method: "chainHead_unstable_unpin"@,
                params: seq![JsonView::String(subscription_id@), Hash::encode_spec(hash@)],
            }),
    {
        let mut params: Vec<JsonValue> = Vec::new();
        params.push(text(subscription_id));
        params.push(hash.encode());
        let r = request("chainHead_unstable_unpin", params);
        assert(r@.params =~= seq![JsonView::String(subscription_id@), Hash::encode_spec(hash@)]);
        r
    }

    /// Asks for the hash of the genesis block.
    pub fn chainspec_v1_genesis_hash(&self) -> (r: Request)
        ensures
            r@ == (RequestView { method: "chainSpec_v1_genesisHash"@, params: Seq::empty() }),
    {
        let r = request("chainSpec_v1_genesisHash", Vec::new());
        assert(r@.params =~= Seq::empty());
        r
    }

    /// Asks for the name of the chain.
    pub fn chainspec_v1_chain_name(&self) -> (r: Request)
        ensures
            r@ == (RequestView { method: "chainSpec_v1_chainName"@, params: Seq::empty() }),
    {
        let r = request("chainSpec_v1_chainName", Vec::new());
        assert(r@.params =~= Seq::empty());
        r
    }

    /// Asks for the properties of the chain specification.
    pub fn chainspec_v1_properties(&self) -> (r: Request)
        ensures
            r@ == (RequestView { method: "chainSpec_v1_properties"@, params: Seq::empty() }),
    {
        let r = request("chainSpec_v1_properties", Vec::new());
        assert(r@.params =~= Seq::empty());
        r
    }

    /// Asks for the names of the methods that the server offers.
    pub fn rpc_methods(&self) -> (r: Request)
        ensures
            r@ == (RequestView { method: "rpc_methods"@, params: Seq::empty() }),
    {
        let r = request("rpc_methods", Vec::new());
        assert(r@.params =~= Seq::empty());
        r
    }

    /// Submits a transaction, sent in hexadecimal, and opens the
    /// subscription to its status reports.
    pub fn transaction_unstable_submit_and_watch(&self, tx: &[u8]) -> (r: Subscribe)
        ensures
            r@ == (SubscribeView {
                request: RequestView {
                    method: "transaction_unstable_submitAndWatch"@,
                    params: seq![JsonView::String(to_hex_spec(tx@))],
                },
                unsubscribe_method: "transaction_unstable_unwatch"@,
            }),
    {
        let mut params: Vec<JsonValue> = Vec::new();
        params.push(binary(tx));
        let r = Subscribe {
            request: request("transaction_unstable_submitAndWatch", params),
            unsubscribe_method: "transaction_unstable_unwatch".to_owned(),
        };
        assert(r@.request.params =~= seq![JsonView::String(to_hex_spec(tx@))]);
        r
    }
}

} // verus!
