//! The events of a follow subscription.
//!
//! A fresh subscription reports `Initialized` first and once. After it,
//! `NewBlock`, `BestBlockChanged`, `Finalized` and the operation events come
//! in any order, an operation event never before the call that started its
//! operation. `Stop` is the last event: the subscription is dead after it.

use crate::api_map::ApiMap;
use crate::hashmap_as_tuple_list;
use crate::json::{
    decoded, items_view, lemma_field_of_update, option_view, optional, optional_spec, required,
    required_spec, required_value, required_value_spec, str_eq, Decode, DecodeError, JsonValue,
    JsonView,
};
use crate::storage::{StorageResult, StorageResultView};
use crate::wire::{decode_array, decode_array_spec, decoded_list, seq_view};
use std::collections::VecDeque;
use vstd::prelude::*;

verus! {

/// The reason why something could not be had.
#[derive(Debug, Clone, PartialEq, Eq)]
pub struct ErrorEvent {
    /// The reason of the error.
    pub error: String,
}

/// The mathematical value of an [`ErrorEvent`].
pub struct ErrorEventView {
    pub error: Seq<char>,
}

impl View for ErrorEvent {
    type V = ErrorEventView;

    open spec fn view(&self) -> ErrorEventView {
        ErrorEventView { error: self.error@ }
    }
}

impl Decode for ErrorEvent {
    open spec fn decode_spec(v: JsonView) -> Option<ErrorEventView> {
        match required_spec::<String>(v, "error"@) {
            Some(error) => Some(ErrorEventView { error }),
            None => None,
        }
    }

    fn decode(v: &JsonValue) -> (r: Result<ErrorEvent, DecodeError>) {
        let error = required::<String>(v, "error")?;
        Ok(ErrorEvent { error })
    }
}

/// What a runtime says of itself: what a client needs to build
/// transactions and to know which entry points it may call.
#[derive(Debug, Clone, PartialEq, Eq)]
pub struct RuntimeSpec {
    /// The name of the chain.
    pub spec_name: String,
    /// The name of the implementation of the chain.
    pub impl_name: String,
    /// The version of the specification.
    pub spec_version: u32,
    /// The version of the implementation.
    pub impl_version: u32,
    /// The version of the transaction format.
    pub transaction_version: u32,
    /// The entry-point APIs of the runtime, each with its version.
    pub apis: ApiMap,
}

/// The mathematical value of a [`RuntimeSpec`].
pub struct RuntimeSpecView {
    pub spec_name: Seq<char>,
    pub impl_name: Seq<char>,
    pub spec_version: u32,
    pub impl_version: u32,
    pub transaction_version: u32,
    pub apis: Map<Seq<char>, u32>,
}

impl View for RuntimeSpec {
    type V = RuntimeSpecView;

    open spec fn view(&self) -> RuntimeSpecView {
        RuntimeSpecView {
            spec_name: self.spec_name@,
            impl_name: self.impl_name@,
            spec_version: self.spec_version,
            impl_version: self.impl_version,
            transaction_version: self.transaction_version,
            apis: self.apis@,
        }
    }
}

/// The APIs that the `apis` field of a document stands for: the field must
/// be there, as an object or as a list of pairs.
pub open spec fn apis_spec(v: JsonView) -> Option<Map<Seq<char>, u32>> {
    match required_value_spec(v, "apis"@) {
        Some(apis) => hashmap_as_tuple_list::deserialize_spec(apis),
        None => None,
    }
}

impl Decode for RuntimeSpec {
    open spec fn decode_spec(v: JsonView) -> Option<RuntimeSpecView> {
        match (
            required_spec::<String>(v, "specName"@),
            required_spec::<String>(v, "implName"@),
            required_spec::<u32>(v, "specVersion"@),
            required_spec::<u32>(v, "implVersion"@),
            required_spec::<u32>(v, "transactionVersion"@),
            apis_spec(v),
        ) {
            (
                Some(spec_name),
                Some(impl_name),
                Some(spec_version),
                Some(impl_version),
                Some(transaction_version),
                Some(apis),
            ) => Some(
                RuntimeSpecView {
                    spec_name,
                    impl_name,
                    spec_version,
                    impl_version,
                    transaction_version,
                    apis,
                },
            ),
            _ => None,
        }
    }

    fn decode(v: &JsonValue) -> (r: Result<RuntimeSpec, DecodeError>) {
        let spec_name = required::<String>(v, "specName")?;
        let impl_name = required::<String>(v, "implName")?;
        let spec_version = required::<u32>(v, "specVersion")?;
        let impl_version = required::<u32>(v, "implVersion")?;
        let transaction_version = required::<u32>(v, "transactionVersion")?;
        let apis = hashmap_as_tuple_list::deserialize(required_value(v, "apis")?)?;
        Ok(
            RuntimeSpec {
                spec_name,
                impl_name,
                spec_version,
                impl_version,
                transaction_version,
                apis,
            },
        )
    }
}

/// A runtime's description reads the same whether its APIs are sent as an
/// object or as the pair list with the same content: `fields` are the
/// fields of the description, and `i` is the place of `apis` among them.
pub proof fn lemma_runtime_spec_apis_forms_agree(
    fields: Seq<(Seq<char>, JsonView)>,
    i: int,
    apis: Seq<(Seq<char>, JsonView)>,
)
    requires
        0 <= i < fields.len(),
        fields[i].0 == "apis"@,
    ensures
        RuntimeSpec::decode_spec(
            JsonView::Object(fields.update(i, ("apis"@, JsonView::Object(apis)))),
        ) == RuntimeSpec::decode_spec(
            JsonView::Object(
                fields.update(
                    i,
                    ("apis"@, JsonView::Array(hashmap_as_tuple_list::pair_list_of(apis))),
                ),
            ),
        ),
{
    let as_object = JsonView::Object(apis);
    let as_list = JsonView::Array(hashmap_as_tuple_list::pair_list_of(apis));
    reveal_strlit("apis");
    reveal_strlit("specName");
    reveal_strlit("implName");
    reveal_strlit("specVersion");
    reveal_strlit("implVersion");
    reveal_strlit("transactionVersion");
    hashmap_as_tuple_list::lemma_object_and_pair_list_agree(apis);
    lemma_field_of_update(fields, i, as_object, "apis"@);
    lemma_field_of_update(fields, i, as_list, "apis"@);
    lemma_field_of_update(fields, i, as_object, "specName"@);
    lemma_field_of_update(fields, i, as_list, "specName"@);
    lemma_field_of_update(fields, i, as_object, "implName"@);
    lemma_field_of_update(fields, i, as_list, "implName"@);
    lemma_field_of_update(fields, i, as_object, "specVersion"@);
    lemma_field_of_update(fields, i, as_list, "specVersion"@);
    lemma_field_of_update(fields, i, as_object, "implVersion"@);
    lemma_field_of_update(fields, i, as_list, "implVersion"@);
    lemma_field_of_update(fields, i, as_object, "transactionVersion"@);
    lemma_field_of_update(fields, i, as_list, "transactionVersion"@);
}

/// The runtime of a block, where it could be had.
#[derive(Debug, Clone, PartialEq, Eq)]
pub struct RuntimeVersionEvent {
    /// Details about this runtime.
    pub spec: RuntimeSpec,
}

/// The mathematical value of a [`RuntimeVersionEvent`].
pub struct RuntimeVersionEventView {
    pub spec: RuntimeSpecView,
}

impl View for RuntimeVersionEvent {
    type V = RuntimeVersionEventView;

    open spec fn view(&self) -> RuntimeVersionEventView {
        RuntimeVersionEventView { spec: self.spec@ }
    }
}

impl Decode for RuntimeVersionEvent {
    open spec fn decode_spec(v: JsonView) -> Option<RuntimeVersionEventView> {
        match required_spec::<RuntimeSpec>(v, "spec"@) {
            Some(spec) => Some(RuntimeVersionEventView { spec }),
            None => None,
        }
    }

    fn decode(v: &JsonValue) -> (r: Result<RuntimeVersionEvent, DecodeError>) {
        let spec = required::<RuntimeSpec>(v, "spec")?;
        Ok(RuntimeVersionEvent { spec })
    }
}

/// What is reported of a block's runtime, when the subscription asked for
/// runtimes: for the first block announced, and for each block whose
/// runtime differs from its parent's.
#[derive(Debug, Clone, PartialEq, Eq)]
pub enum RuntimeEvent {
    /// The runtime of the block.
    Valid(RuntimeVersionEvent),
    /// The runtime could not be had.
    Invalid(ErrorEvent),
}

/// The mathematical value of a [`RuntimeEvent`].
pub enum RuntimeEventView {
    Valid(RuntimeVersionEventView),
    Invalid(ErrorEventView),
}

impl View for RuntimeEvent {
    type V = RuntimeEventView;

    open spec fn view(&self) -> RuntimeEventView {
        match self {
            RuntimeEvent::Valid(event) => RuntimeEventView::Valid(event@),
            RuntimeEvent::Invalid(event) => RuntimeEventView::Invalid(event@),
        }
    }
}

impl Decode for RuntimeEvent {
    open spec fn decode_spec(v: JsonView) -> Option<RuntimeEventView> {
        match required_spec::<String>(v, "type"@) {
            Some(kind) => if kind == "valid"@ {
                match RuntimeVersionEvent::decode_spec(v) {
                    Some(event) => Some(RuntimeEventView::Valid(event)),
                    None => None,
                }
            } else if kind == "invalid"@ {
                match ErrorEvent::decode_spec(v) {
                    Some(event) => Some(RuntimeEventView::Invalid(event)),
                    None => None,
                }
            } else {
                None
            },
            None => None,
        }
    }

    fn decode(v: &JsonValue) -> (r: Result<RuntimeEvent, DecodeError>) {
        let kind = required::<String>(v, "type")?;
        if str_eq(kind.as_str(), "valid") {
            let event = RuntimeVersionEvent::decode(v)?;
            Ok(RuntimeEvent::Valid(event))
        } else if str_eq(kind.as_str(), "invalid") {
            let event = ErrorEvent::decode(v)?;
            Ok(RuntimeEvent::Invalid(event))
        } else {
            Err(DecodeError)
        }
    }
}

/// The latest finalized block, as a fresh subscription reports it.
#[derive(Debug, Clone, PartialEq, Eq)]
pub struct Initialized<Hash> {
    /// The hash of the latest finalized block.
    pub finalized_block_hash: Hash,
    /// The runtime of that block; there only if the subscription asked for
    /// runtimes.
    pub finalized_block_runtime: Option<RuntimeEvent>,
}

/// The mathematical value of an [`Initialized`].
pub struct InitializedView<Hash> {
    pub finalized_block_hash: Hash,
    pub finalized_block_runtime: Option<RuntimeEventView>,
}

impl<Hash: View> View for Initialized<Hash> {
    type V = InitializedView<Hash::V>;

    open spec fn view(&self) -> InitializedView<Hash::V> {
        InitializedView {
            finalized_block_hash: self.finalized_block_hash@,
            finalized_block_runtime: option_view(self.finalized_block_runtime),
        }
    }
}

impl<Hash: Decode> Decode for Initialized<Hash> {
    open spec fn decode_spec(v: JsonView) -> Option<InitializedView<Hash::V>> {
        match (
            required_spec::<Hash>(v, "finalizedBlockHash"@),
            optional_spec::<RuntimeEvent>(v, "finalizedBlockRuntime"@),
        ) {
            (Some(finalized_block_hash), Some(finalized_block_runtime)) => Some(
                InitializedView { finalized_block_hash, finalized_block_runtime },
            ),
            _ => None,
        }
    }

    fn decode(v: &JsonValue) -> (r: Result<Initialized<Hash>, DecodeError>) {
        let finalized_block_hash = required::<Hash>(v, "finalizedBlockHash")?;
        let finalized_block_runtime = optional::<RuntimeEvent>(v, "finalizedBlockRuntime")?;
        Ok(Initialized { finalized_block_hash, finalized_block_runtime })
    }
}

/// A new block that is not finalized. Its parent was announced before it,
/// or is finalized.
#[derive(Debug, Clone, PartialEq, Eq)]
pub struct NewBlock<Hash> {
    /// The hash of the new block.
    pub block_hash: Hash,
    /// The hash of its parent.
    pub parent_block_hash: Hash,
    /// The runtime of the new block; there only if the subscription asked
    /// for runtimes and the runtime changed.
    pub new_runtime: Option<RuntimeEvent>,
}

/// The mathematical value of a [`NewBlock`].
pub struct NewBlockView<Hash> {
    pub block_hash: Hash,
    pub parent_block_hash: Hash,
    pub new_runtime: Option<RuntimeEventView>,
}

impl<Hash: View> View for NewBlock<Hash> {
    type V = NewBlockView<Hash::V>;

    open spec fn view(&self) -> NewBlockView<Hash::V> {
        NewBlockView {
            block_hash: self.block_hash@,
            parent_block_hash: self.parent_block_hash@,
            new_runtime: option_view(self.new_runtime),
        }
    }
}

impl<Hash: Decode> Decode for NewBlock<Hash> {
    open spec fn decode_spec(v: JsonView) -> Option<NewBlockView<Hash::V>> {
        match (
            required_spec::<Hash>(v, "blockHash"@),
            required_spec::<Hash>(v, "parentBlockHash"@),
            optional_spec::<RuntimeEvent>(v, "newRuntime"@),
        ) {
            (Some(block_hash), Some(parent_block_hash), Some(new_runtime)) => Some(
                NewBlockView { block_hash, parent_block_hash, new_runtime },
            ),
            _ => None,
        }
    }

    fn decode(v: &JsonValue) -> (r: Result<NewBlock<Hash>, DecodeError>) {
        let block_hash = required::<Hash>(v, "blockHash")?;
        let parent_block_hash = required::<Hash>(v, "parentBlockHash")?;
        let new_runtime = optional::<RuntimeEvent>(v, "newRuntime")?;
        Ok(NewBlock { block_hash, parent_block_hash, new_runtime })
    }
}

/// The new best block: one that was announced before.
#[derive(Debug, Clone, PartialEq, Eq)]
pub struct BestBlockChanged<Hash> {
    /// The hash of the new best block.
    pub best_block_hash: Hash,
}

/// The mathematical value of a [`BestBlockChanged`].
pub struct BestBlockChangedView<Hash> {
    pub best_block_hash: Hash,
}

impl<Hash: View> View for BestBlockChanged<Hash> {
    type V = BestBlockChangedView<Hash::V>;

    open spec fn view(&self) -> BestBlockChangedView<Hash::V> {
        BestBlockChangedView { best_block_hash: self.best_block_hash@ }
    }
}

impl<Hash: Decode> Decode for BestBlockChanged<Hash> {
    open spec fn decode_spec(v: JsonView) -> Option<BestBlockChangedView<Hash::V>> {
        match required_spec::<Hash>(v, "bestBlockHash"@) {
            Some(best_block_hash) => Some(BestBlockChangedView { best_block_hash }),
            None => None,
        }
    }

    fn decode(v: &JsonValue) -> (r: Result<BestBlockChanged<Hash>, DecodeError>) {
        let best_block_hash = required::<Hash>(v, "bestBlockHash")?;
        Ok(BestBlockChanged { best_block_hash })
    }
}

/// The blocks that are now finalized, and the blocks that are retired for
/// good.
#[derive(Debug, Clone, PartialEq, Eq)]
pub struct Finalized<Hash> {
    /// The hashes of the blocks that are finalized.
    pub finalized_block_hashes: Vec<Hash>,
    /// The hashes of the blocks that are pruned.
    pub pruned_block_hashes: Vec<Hash>,
}

/// The mathematical value of a [`Finalized`].
pub struct FinalizedView<Hash> {
    pub finalized_block_hashes: Seq<Hash>,
    pub pruned_block_hashes: Seq<Hash>,
}

impl<Hash: View> View for Finalized<Hash> {
    type V = FinalizedView<Hash::V>;

    open spec fn view(&self) -> FinalizedView<Hash::V> {
        FinalizedView {
            finalized_block_hashes: seq_view(self.finalized_block_hashes@),
            pruned_block_hashes: seq_view(self.pruned_block_hashes@),
        }
    }
}

/// The list under a field that must be there.
pub open spec fn required_list_spec<T: Decode>(v: JsonView, name: Seq<char>) -> Option<Seq<T::V>> {
    match required_value_spec(v, name) {
        Some(list) => decode_array_spec::<T>(list),
        None => None,
    }
}

/// Reads the list under a field that must be there.
pub fn required_list<T: Decode>(v: &JsonValue, name: &str) -> (r: Result<Vec<T>, DecodeError>)
    ensures
        decoded_list(r) == required_list_spec::<T>(v@, name@),
{
    decode_array::<T>(required_value(v, name)?)
}

impl<Hash: Decode> Decode for Finalized<Hash> {
    open spec fn decode_spec(v: JsonView) -> Option<FinalizedView<Hash::V>> {
        match (
            required_list_spec::<Hash>(v, "finalizedBlockHashes"@),
            required_list_spec::<Hash>(v, "prunedBlockHashes"@),
        ) {
            (Some(finalized_block_hashes), Some(pruned_block_hashes)) => Some(
                FinalizedView { finalized_block_hashes, pruned_block_hashes },
            ),
            _ => None,
        }
    }

    fn decode(v: &JsonValue) -> (r: Result<Finalized<Hash>, DecodeError>) {
        let finalized_block_hashes = required_list::<Hash>(v, "finalizedBlockHashes")?;
        let pruned_block_hashes = required_list::<Hash>(v, "prunedBlockHashes")?;
        Ok(Finalized { finalized_block_hashes, pruned_block_hashes })
    }
}

/// The operation that an event is about.
#[derive(Debug, Clone, PartialEq, Eq)]
pub struct OperationId {
    /// The id of the operation.
    pub operation_id: String,
}

/// The mathematical value of an [`OperationId`].
pub struct OperationIdView {
    pub operation_id: Seq<char>,
}

impl View for OperationId {
    type V = OperationIdView;

    open spec fn view(&self) -> OperationIdView {
        OperationIdView { operation_id: self.operation_id@ }
    }
}

impl Decode for OperationId {
    open spec fn decode_spec(v: JsonView) -> Option<OperationIdView> {
        match required_spec::<String>(v, "operationId"@) {
            Some(operation_id) => Some(OperationIdView { operation_id }),
            None => None,
        }
    }

    fn decode(v: &JsonValue) -> (r: Result<OperationId, DecodeError>) {
        let operation_id = required::<String>(v, "operationId")?;
        Ok(OperationId { operation_id })
    }
}

/// The body of a block: the answer to a body call.
#[derive(Debug, Clone, PartialEq, Eq)]
pub struct OperationBodyDone {
    /// The id of the operation.
    pub operation_id: String,
    /// The extrinsics of the block, each in hexadecimal.
    pub value: Vec<String>,
}

/// The mathematical value of an [`OperationBodyDone`].
pub struct OperationBodyDoneView {
    pub operation_id: Seq<char>,
    pub value: Seq<Seq<char>>,
}

impl View for OperationBodyDone {
    type V = OperationBodyDoneView;

    open spec fn view(&self) -> OperationBodyDoneView {
        OperationBodyDoneView { operation_id: self.operation_id@, value: seq_view(self.value@) }
    }
}

impl Decode for OperationBodyDone {
    open spec fn decode_spec(v: JsonView) -> Option<OperationBodyDoneView> {
        match (
            required_spec::<String>(v, "operationId"@),
            required_list_spec::<String>(v, "value"@),
        ) {
            (Some(operation_id), Some(value)) => Some(OperationBodyDoneView { operation_id, value }),
            _ => None,
        }
    }

    fn decode(v: &JsonValue) -> (r: Result<OperationBodyDone, DecodeError>) {
        let operation_id = required::<String>(v, "operationId")?;
        let value = required_list::<String>(v, "value")?;
        Ok(OperationBodyDone { operation_id, value })
    }
}

/// The output of a runtime call: the answer to a call.
#[derive(Debug, Clone, PartialEq, Eq)]
pub struct OperationCallDone {
    /// The id of the operation.
    pub operation_id: String,
    /// The output of the runtime function, in hexadecimal.
    pub output: String,
}

/// The mathematical value of an [`OperationCallDone`].
pub struct OperationCallDoneView {
    pub operation_id: Seq<char>,
    pub output: Seq<char>,
}

impl View for OperationCallDone {
    type V = OperationCallDoneView;

    open spec fn view(&self) -> OperationCallDoneView {
        OperationCallDoneView { operation_id: self.operation_id@, output: self.output@ }
    }
}

impl Decode for OperationCallDone {
    open spec fn decode_spec(v: JsonView) -> Option<OperationCallDoneView> {
        match (required_spec::<String>(v, "operationId"@), required_spec::<String>(v, "output"@)) {
            (Some(operation_id), Some(output)) => Some(
                OperationCallDoneView { operation_id, output },
            ),
            _ => None,
        }
    }

    fn decode(v: &JsonValue) -> (r: Result<OperationCallDone, DecodeError>) {
        let operation_id = required::<String>(v, "operationId")?;
        let output = required::<String>(v, "output")?;
        Ok(OperationCallDone { operation_id, output })
    }
}

/// Some items that a storage operation found.
#[derive(Debug, Clone, PartialEq, Eq)]
pub struct OperationStorageItems {
    /// The id of the operation.
    pub operation_id: String,
    /// The items.
    pub items: Vec<StorageResult>,
}

/// The mathematical value of an [`OperationStorageItems`].
pub struct OperationStorageItemsView {
    pub operation_id: Seq<char>,
    pub items: Seq<StorageResultView>,
}

impl View for OperationStorageItems {
    type V = OperationStorageItemsView;

    open spec fn view(&self) -> OperationStorageItemsView {
        OperationStorageItemsView {
            operation_id: self.operation_id@,
            items: seq_view(self.items@),
        }
    }
}

impl Decode for OperationStorageItems {
    open spec fn decode_spec(v: JsonView) -> Option<OperationStorageItemsView> {
        match (
            required_spec::<String>(v, "operationId"@),
            required_list_spec::<StorageResult>(v, "items"@),
        ) {
            (Some(operation_id), Some(items)) => Some(
                OperationStorageItemsView { operation_id, items },
            ),
            _ => None,
        }
    }

    fn decode(v: &JsonValue) -> (r: Result<OperationStorageItems, DecodeError>) {
        let operation_id = required::<String>(v, "operationId")?;
        let items = required_list::<StorageResult>(v, "items")?;
        Ok(OperationStorageItems { operation_id, items })
    }
}

/// An operation failed, and would fail again.
#[derive(Debug, Clone, PartialEq, Eq)]
pub struct OperationError {
    /// The id of the operation.
    pub operation_id: String,
    /// The reason of the error.
    pub error: String,
}

/// The mathematical value of an [`OperationError`].
pub struct OperationErrorView {
    pub operation_id: Seq<char>,
    pub error: Seq<char>,
}

impl View for OperationError {
    type V = OperationErrorView;

    open spec fn view(&self) -> OperationErrorView {
        OperationErrorView { operation_id: self.operation_id@, error: self.error@ }
    }
}

impl Decode for OperationError {
    open spec fn decode_spec(v: JsonView) -> Option<OperationErrorView> {
        match (required_spec::<String>(v, "operationId"@), required_spec::<String>(v, "error"@)) {
            (Some(operation_id), Some(error)) => Some(OperationErrorView { operation_id, error }),
            _ => None,
        }
    }

    fn decode(v: &JsonValue) -> (r: Result<OperationError, DecodeError>) {
        let operation_id = required::<String>(v, "operationId")?;
        let error = required::<String>(v, "error")?;
        Ok(OperationError { operation_id, error })
    }
}

/// An event of a follow subscription.
#[derive(Debug, Clone, PartialEq, Eq)]
pub enum FollowEvent<Hash> {
    /// The latest finalized block: the first event, sent once.
    Initialized(Initialized<Hash>),
    /// A new block that is not finalized.
    NewBlock(NewBlock<Hash>),
    /// The best block changed.
    BestBlockChanged(BestBlockChanged<Hash>),
    /// Blocks were finalized and pruned.
    Finalized(Finalized<Hash>),
    /// The answer to a body call.
    OperationBodyDone(OperationBodyDone),
    /// The answer to a runtime call.
    OperationCallDone(OperationCallDone),
    /// Some items of a storage operation.
    OperationStorageItems(OperationStorageItems),
    /// A storage operation waits to be told to continue.
    OperationWaitingForContinue(OperationId),
    /// A storage operation has sent all its items.
    OperationStorageDone(OperationId),
    /// The answer to an operation could not be had; the same operation may
    /// succeed later.
    OperationInaccessible(OperationId),
    /// An operation failed; the same operation will fail again.
    OperationError(OperationError),
    /// The subscription is dead, and no event follows.
    Stop,
}

/// The mathematical value of a [`FollowEvent`].
pub enum FollowEventView<Hash> {
    Initialized(InitializedView<Hash>),
    NewBlock(NewBlockView<Hash>),
    BestBlockChanged(BestBlockChangedView<Hash>),
    Finalized(FinalizedView<Hash>),
    OperationBodyDone(OperationBodyDoneView),
    OperationCallDone(OperationCallDoneView),
    OperationStorageItems(OperationStorageItemsView),
    OperationWaitingForContinue(OperationIdView),
    OperationStorageDone(OperationIdView),
    OperationInaccessible(OperationIdView),
    OperationError(OperationErrorView),
    Stop,
}

impl<Hash: View> View for FollowEvent<Hash> {
    type V = FollowEventView<Hash::V>;

    open spec fn view(&self) -> FollowEventView<Hash::V> {
        match self {
            FollowEvent::Initialized(e) => FollowEventView::Initialized(e@),
            FollowEvent::NewBlock(e) => FollowEventView::NewBlock(e@),
            FollowEvent::BestBlockChanged(e) => FollowEventView::BestBlockChanged(e@),
            FollowEvent::Finalized(e) => FollowEventView::Finalized(e@),
            FollowEvent::OperationBodyDone(e) => FollowEventView::OperationBodyDone(e@),
            FollowEvent::OperationCallDone(e) => FollowEventView::OperationCallDone(e@),
            FollowEvent::OperationStorageItems(e) => FollowEventView::OperationStorageItems(e@),
            FollowEvent::OperationWaitingForContinue(e) =>
                FollowEventView::OperationWaitingForContinue(e@),
            FollowEvent::OperationStorageDone(e) => FollowEventView::OperationStorageDone(e@),
            FollowEvent::OperationInaccessible(e) => FollowEventView::OperationInaccessible(e@),
            FollowEvent::OperationError(e) => FollowEventView::OperationError(e@),
            FollowEvent::Stop => FollowEventView::Stop,
        }
    }
}

impl<Hash: View> FollowEvent<Hash> {
    /// Whether the event ends the subscription.
    pub fn is_stop(&self) -> (r: bool)
        ensures
            r == (self@ is Stop),
    {
        match self {
            FollowEvent::Stop => true,
            _ => false,
        }
    }
}

impl<Hash: Decode> Decode for FollowEvent<Hash> {
    /// An event is an object. Its `event` field names the kind, and the
    /// other fields of the same object are the payload of that kind.
    open spec fn decode_spec(v: JsonView) -> Option<FollowEventView<Hash::V>> {
        match required_spec::<String>(v, "event"@) {
            Some(kind) => if kind == "initialized"@ {
                match Initialized::<Hash>::decode_spec(v) {
                    Some(e) => Some(FollowEventView::Initialized(e)),
                    None => None,
                }
            } else if kind == "newBlock"@ {
                match NewBlock::<Hash>::decode_spec(v) {
                    Some(e) => Some(FollowEventView::NewBlock(e)),
                    None => None,
                }
            } else if kind == "bestBlockChanged"@ {
                match BestBlockChanged::<Hash>::decode_spec(v) {
                    Some(e) => Some(FollowEventView::BestBlockChanged(e)),
                    None => None,
                }
            } else if kind == "finalized"@ {
                match Finalized::<Hash>::decode_spec(v) {
                    Some(e) => Some(FollowEventView::Finalized(e)),
                    None => None,
                }
            } else if kind == "operationBodyDone"@ {
                match OperationBodyDone::decode_spec(v) {
                    Some(e) => Some(FollowEventView::OperationBodyDone(e)),
                    None => None,
                }
            } else if kind == "operationCallDone"@ {
                match OperationCallDone::decode_spec(v) {
                    Some(e) => Some(FollowEventView::OperationCallDone(e)),
                    None => None,
                }
            } else if kind == "operationStorageItems"@ {
                match OperationStorageItems::decode_spec(v) {
                    Some(e) => Some(FollowEventView::OperationStorageItems(e)),
                    None => None,
                }
            } else if kind == "operationWaitingForContinue"@ {
                match OperationId::decode_spec(v) {
                    Some(e) => Some(FollowEventView::OperationWaitingForContinue(e)),
                    None => None,
                }
            } else if kind == "operationStorageDone"@ {
                match OperationId::decode_spec(v) {
                    Some(e) => Some(FollowEventView::OperationStorageDone(e)),
                    None => None,
                }
            } else if kind == "operationInaccessible"@ {
                match OperationId::decode_spec(v) {
                    Some(e) => Some(FollowEventView::OperationInaccessible(e)),
                    None => None,
                }
            } else if kind == "operationError"@ {
                match OperationError::decode_spec(v) {
                    Some(e) => Some(FollowEventView::OperationError(e)),
                    None => None,
                }
            } else if kind == "stop"@ {
                Some(FollowEventView::Stop)
            } else {
                None
            },
            None => None,
        }
    }

    fn decode(v: &JsonValue) -> (r: Result<FollowEvent<Hash>, DecodeError>) {
        let tag = required::<String>(v, "event")?;
        let kind = tag.as_str();
        if str_eq(kind, "initialized") {
            let e = Initialized::<Hash>::decode(v)?;
            Ok(FollowEvent::Initialized(e))
        } else if str_eq(kind, "newBlock") {
            let e = NewBlock::<Hash>::decode(v)?;
            Ok(FollowEvent::NewBlock(e))
        } else if str_eq(kind, "bestBlockChanged") {
            let e = BestBlockChanged::<Hash>::decode(v)?;
            Ok(FollowEvent::BestBlockChanged(e))
        } else if str_eq(kind, "finalized") {
            let e = Finalized::<Hash>::decode(v)?;
            Ok(FollowEvent::Finalized(e))
        } else if str_eq(kind, "operationBodyDone") {
            let e = OperationBodyDone::decode(v)?;
            Ok(FollowEvent::OperationBodyDone(e))
        } else if str_eq(kind, "operationCallDone") {
            let e = OperationCallDone::decode(v)?;
            Ok(FollowEvent::OperationCallDone(e))
        } else if str_eq(kind, "operationStorageItems") {
            let e = OperationStorageItems::decode(v)?;
            Ok(FollowEvent::OperationStorageItems(e))
        } else if str_eq(kind, "operationWaitingForContinue") {
            let e = OperationId::decode(v)?;
            Ok(FollowEvent::OperationWaitingForContinue(e))
        } else if str_eq(kind, "operationStorageDone") {
            let e = OperationId::decode(v)?;
            Ok(FollowEvent::OperationStorageDone(e))
        } else if str_eq(kind, "operationInaccessible") {
            let e = OperationId::decode(v)?;
            Ok(FollowEvent::OperationInaccessible(e))
        } else if str_eq(kind, "operationError") {
            let e = OperationError::decode(v)?;
            Ok(FollowEvent::OperationError(e))
        } else if str_eq(kind, "stop") {
            Ok(FollowEvent::Stop)
        } else {
            Err(DecodeError)
        }
    }
}

/// The kind of an event is the kind that its `event` field names: two
/// documents that name different kinds never stand for events of one kind.
pub proof fn lemma_event_kind<Hash: Decode>(v: JsonView)
    requires
        FollowEvent::<Hash>::decode_spec(v) is Some,
    ensures
        ({
            let kind = required_spec::<String>(v, "event"@)->0;
            let event = FollowEvent::<Hash>::decode_spec(v)->0;
            &&& event is Initialized <==> kind == "initialized"@
            &&& event is NewBlock <==> kind == "newBlock"@
            &&& event is BestBlockChanged <==> kind == "bestBlockChanged"@
            &&& event is Finalized <==> kind == "finalized"@
            &&& event is OperationBodyDone <==> kind == "operationBodyDone"@
            &&& event is OperationCallDone <==> kind == "operationCallDone"@
            &&& event is OperationStorageItems <==> kind == "operationStorageItems"@
            &&& event is OperationWaitingForContinue <==> kind == "operationWaitingForContinue"@
            &&& event is OperationStorageDone <==> kind == "operationStorageDone"@
            &&& event is OperationInaccessible <==> kind == "operationInaccessible"@
            &&& event is OperationError <==> kind == "operationError"@
            &&& event is Stop <==> kind == "stop"@
        }),
{
    reveal_strlit("initialized");
    reveal_strlit("newBlock");
    reveal_strlit("bestBlockChanged");
    reveal_strlit("finalized");
    reveal_strlit("operationBodyDone");
    reveal_strlit("operationCallDone");
    reveal_strlit("operationStorageItems");
    reveal_strlit("operationWaitingForContinue");
    reveal_strlit("operationStorageDone");
    reveal_strlit("operationInaccessible");
    reveal_strlit("operationError");
    reveal_strlit("stop");
    assert("initialized"@.len() == 11);
    assert("newBlock"@.len() == 8);
    assert("bestBlockChanged"@.len() == 16);
    assert("finalized"@.len() == 9);
    assert("operationBodyDone"@.len() == 17);
    assert("operationCallDone"@.len() == 17);
    assert("operationStorageItems"@.len() == 21);
    assert("operationWaitingForContinue"@.len() == 27);
    assert("operationStorageDone"@.len() == 20);
    assert("operationInaccessible"@.len() == 21);
    assert("operationError"@.len() == 14);
    assert("stop"@.len() == 4);
    assert("operationBodyDone"@[9] != "operationCallDone"@[9]);
    assert("operationStorageItems"@[9] != "operationInaccessible"@[9]);
}

/// What a follow subscription yields for the notifications that come off
/// the wire: each one read as an event, in the order in which they came,
/// none left out and none added. `None` stands for a notification that
/// could not be read.
pub open spec fn relayed<Hash: Decode>(raw: Seq<JsonView>) -> Seq<Option<FollowEventView<Hash::V>>> {
    Seq::new(raw.len(), |i: int| FollowEvent::<Hash>::decode_spec(raw[i]))
}

/// What a list of readings returned, as values.
pub open spec fn decoded_events<Hash: View>(
    events: Seq<Result<FollowEvent<Hash>, DecodeError>>,
) -> Seq<Option<FollowEventView<Hash::V>>> {
    Seq::new(events.len(), |i: int| decoded(events[i]))
}

/// The next event of a follow subscription over notifications held in
/// memory, or the end: the first notification is taken off and read.
pub fn next_event<Hash: Decode>(raw: &mut VecDeque<JsonValue>) -> (r: Option<
    Result<FollowEvent<Hash>, DecodeError>,
>)
    ensures
        old(raw)@.len() == 0 ==> r is None && final(raw)@ == old(raw)@,
        old(raw)@.len() > 0 ==> {
            &&& r is Some
            &&& decoded(r->0) == FollowEvent::<Hash>::decode_spec(old(raw)@[0]@)
            &&& final(raw)@ == old(raw)@.drop_first()
        },
{
    match raw.pop_front() {
        Some(notification) => Some(FollowEvent::<Hash>::decode(&notification)),
        None => None,
    }
}

/// Every event of a follow subscription over notifications held in memory,
/// to the end: as many events as there are notifications, each the reading
/// of the notification in its place.
pub fn relay<Hash: Decode>(raw: &mut VecDeque<JsonValue>) -> (out: Vec<
    Result<FollowEvent<Hash>, DecodeError>,
>)
    ensures
        decoded_events(out@) == relayed::<Hash>(items_view(old(raw)@)),
        final(raw)@.len() == 0,
{
    let mut out: Vec<Result<FollowEvent<Hash>, DecodeError>> = Vec::new();
    assert(old(raw)@.skip(0) =~= old(raw)@);
    loop
        invariant
            out@.len() <= old(raw)@.len(),
            raw@ == old(raw)@.skip(out@.len() as int),
            forall|j: int|
                0 <= j < out@.len() ==> decoded(#[trigger] out@[j]) == FollowEvent::<
                    Hash,
                >::decode_spec(old(raw)@[j]@),
        ensures
            out@.len() == old(raw)@.len(),
            raw@.len() == 0,
            forall|j: int|
                0 <= j < out@.len() ==> decoded(#[trigger] out@[j]) == FollowEvent::<
                    Hash,
                >::decode_spec(old(raw)@[j]@),
        decreases raw@.len(),
    {
        let ghost before = raw@;
        let ghost had = out@;
        match next_event::<Hash>(raw) {
            Some(event) => {
                out.push(event);
                proof {
                    assert(before[0] == old(raw)@[had.len() as int]);
                    assert(before.drop_first() =~= old(raw)@.skip(out@.len() as int));
                    assert forall|j: int| 0 <= j < out@.len() implies decoded(
                        #[trigger] out@[j],
                    ) == FollowEvent::<Hash>::decode_spec(old(raw)@[j]@) by {
                        if j < had.len() {
                            assert(out@[j] == had[j]);
                        }
                    }
                }
            },
            None => {
                break ;
            },
        }
    }
    assert(decoded_events(out@) =~= relayed::<Hash>(items_view(old(raw)@)));
    out
}

/// A follow subscription yields as many events as notifications came, and
/// each is the reading of the notification in its place. So where the last
/// notification is a stop, the last event is `Stop` and none follows it.
pub proof fn lemma_relay_ends_at_stop<Hash: Decode>(raw: Seq<JsonView>, i: int)
    requires
        0 <= i < raw.len(),
        FollowEvent::<Hash>::decode_spec(raw.last()) == Some(FollowEventView::<Hash::V>::Stop),
    ensures
        relayed::<Hash>(raw).len() == raw.len(),
        relayed::<Hash>(raw)[i] == FollowEvent::<Hash>::decode_spec(raw[i]),
        relayed::<Hash>(raw).last() == Some(FollowEventView::<Hash::V>::Stop),
{
}

/// Where a follow subscription stands in its lifetime.
#[derive(Debug, Clone, Copy, PartialEq, Eq)]
pub enum FollowPhase {
    /// Nothing was reported yet: the next event must be `Initialized`.
    Initial,
    /// `Initialized` was reported: block and operation events may come.
    Running,
    /// `Stop` was reported: no event may come.
    Stopped,
}

/// The phase that an event leads to, `None` where the event may not come
/// in the phase: anything but `Initialized` at first, `Initialized` a
/// second time, anything after `Stop`.
pub open spec fn phase_after<Hash>(phase: FollowPhase, event: FollowEventView<Hash>) -> Option<
    FollowPhase,
> {
    match phase {
        FollowPhase::Initial => if event is Initialized {
            Some(FollowPhase::Running)
        } else {
            None
        },
        FollowPhase::Running => if event is Initialized {
            None
        } else if event is Stop {
            Some(FollowPhase::Stopped)
        } else {
            Some(FollowPhase::Running)
        },
        FollowPhase::Stopped => None,
    }
}

/// The phase that a fresh subscription is in after a sequence of events,
/// `None` where one of them came when it may not.
pub open spec fn phase_of<Hash>(events: Seq<FollowEventView<Hash>>) -> Option<FollowPhase>
    decreases events.len(),
{
    if events.len() == 0 {
        Some(FollowPhase::Initial)
    } else {
        match phase_of(events.drop_last()) {
            Some(phase) => phase_after(phase, events.last()),
            None => None,
        }
    }
}

impl FollowPhase {
    /// The phase of a fresh subscription.
    pub fn new() -> (phase: FollowPhase)
        ensures
            phase == FollowPhase::Initial,
    {
        FollowPhase::Initial
    }

    /// The phase after an event, or `None` where the event may not come
    /// now.
    pub fn advance<Hash: View>(self, event: &FollowEvent<Hash>) -> (r: Option<FollowPhase>)
        ensures
            r == phase_after(self, event@),
    {
        match self {
            FollowPhase::Initial => match event {
                FollowEvent::Initialized(_) => Some(FollowPhase::Running),
                _ => None,
            },
            FollowPhase::Running => match event {
                FollowEvent::Initialized(_) => None,
                FollowEvent::Stop => Some(FollowPhase::Stopped),
                _ => Some(FollowPhase::Running),
            },
            FollowPhase::Stopped => None,
        }
    }
}

/// In a sequence of events that came as they may, every beginning came as
/// it may; it left the subscription running, unless it is empty or the
/// whole of a sequence that ends in `Stop`.
pub proof fn lemma_phase_of_beginning<Hash>(events: Seq<FollowEventView<Hash>>, k: int)
    requires
        phase_of(events) is Some,
        0 <= k <= events.len(),
    ensures
        phase_of(events.take(k)) is Some,
        0 < k < events.len() ==> phase_of(events.take(k)) == Some(FollowPhase::Running),
        k == 0 ==> phase_of(events.take(k)) == Some(FollowPhase::Initial),
    decreases events.len() - k,
{
    if k == events.len() {
        assert(events.take(k) =~= events);
    } else {
        lemma_phase_of_beginning(events, k + 1);
        assert(events.take(k + 1).drop_last() =~= events.take(k));
        if k == 0 {
            assert(events.take(0).len() == 0);
        }
    }
}

/// In a sequence of events that came as they may, `Initialized` is the
/// first event and no other, and `Stop` is the last event or none.
pub proof fn lemma_follow_order<Hash>(events: Seq<FollowEventView<Hash>>, i: int)
    requires
        phase_of(events) is Some,
        0 <= i < events.len(),
    ensures
        events[i] is Initialized <==> i == 0,
        events[i] is Stop ==> i == events.len() - 1,
{
    lemma_phase_of_beginning(events, i);
    lemma_phase_of_beginning(events, i + 1);
    assert(events.take(i + 1).drop_last() =~= events.take(i));
    assert(events.take(i + 1).last() == events[i]);
}

} // verus!
