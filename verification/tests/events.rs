use chainhead_rpc::follow_event::{
    next_event, relay, BestBlockChanged, ErrorEvent, Finalized, FollowEvent, FollowPhase,
    Initialized, NewBlock,
    OperationBodyDone, OperationCallDone, OperationError, OperationId, OperationStorageItems,
    RuntimeEvent,
};
use chainhead_rpc::json::{Decode, DecodeError, JsonValue};
use chainhead_rpc::method_response::{MethodResponse, MethodResponseStarted};
use chainhead_rpc::storage::{StorageResult, StorageResultType};
use std::collections::VecDeque;

fn txt(s: &str) -> JsonValue {
    JsonValue::String(s.to_string())
}

fn obj(entries: Vec<(&str, JsonValue)>) -> JsonValue {
    JsonValue::Object(entries.into_iter().map(|(k, v)| (k.to_string(), v)).collect())
}

fn event(v: &JsonValue) -> Result<FollowEvent<String>, DecodeError> {
    FollowEvent::<String>::decode(v)
}

#[test]
fn stop_event_decodes_to_stop() {
    let e = event(&obj(vec![("event", txt("stop"))])).unwrap();
    assert_eq!(e, FollowEvent::Stop);
    assert!(e.is_stop());
}

#[test]
fn operation_error_decodes_and_differs_from_inaccessible() {
    let payload = obj(vec![
        ("event", txt("operationError")),
        ("operationId", txt("abc")),
        ("error", txt("oops")),
    ]);
    let e = event(&payload).unwrap();
    assert_eq!(
        e,
        FollowEvent::OperationError(OperationError {
            operation_id: "abc".to_string(),
            error: "oops".to_string(),
        })
    );
    assert!(!e.is_stop());
    let inaccessible = event(&obj(vec![
        ("event", txt("operationInaccessible")),
        ("operationId", txt("abc")),
    ]))
    .unwrap();
    assert_eq!(
        inaccessible,
        FollowEvent::OperationInaccessible(OperationId { operation_id: "abc".to_string() })
    );
    assert_ne!(e, inaccessible);
}

#[test]
fn initialized_with_and_without_runtime() {
    let bare = event(&obj(vec![("event", txt("initialized")), ("finalizedBlockHash", txt("0x01"))]))
        .unwrap();
    assert_eq!(
        bare,
        FollowEvent::Initialized(Initialized {
            finalized_block_hash: "0x01".to_string(),
            finalized_block_runtime: None,
        })
    );
    let null = event(&obj(vec![
        ("event", txt("initialized")),
        ("finalizedBlockHash", txt("0x01")),
        ("finalizedBlockRuntime", JsonValue::Null),
    ]))
    .unwrap();
    assert_eq!(bare, null);
    let invalid = event(&obj(vec![
        ("event", txt("initialized")),
        ("finalizedBlockHash", txt("0x01")),
        ("finalizedBlockRuntime", obj(vec![("type", txt("invalid")), ("error", txt("no runtime"))])),
    ]))
    .unwrap();
    assert_eq!(
        invalid,
        FollowEvent::Initialized(Initialized {
            finalized_block_hash: "0x01".to_string(),
            finalized_block_runtime: Some(RuntimeEvent::Invalid(ErrorEvent {
                error: "no runtime".to_string(),
            })),
        })
    );
}

#[test]
fn new_block_with_valid_runtime() {
    let spec = obj(vec![
        ("specName", txt("westend")),
        ("implName", txt("parity-westend")),
        ("specVersion", JsonValue::Unsigned(9122)),
        ("implVersion", JsonValue::Unsigned(0)),
        ("transactionVersion", JsonValue::Unsigned(7)),
        ("apis", obj(vec![("0xdf6acb689907609b", JsonValue::Unsigned(3))])),
    ]);
    let e = event(&obj(vec![
        ("event", txt("newBlock")),
        ("blockHash", txt("0x02")),
        ("parentBlockHash", txt("0x01")),
        ("newRuntime", obj(vec![("type", txt("valid")), ("spec", spec)])),
    ]))
    .unwrap();
    match e {
        FollowEvent::NewBlock(NewBlock { block_hash, parent_block_hash, new_runtime }) => {
            assert_eq!(block_hash, "0x02");
            assert_eq!(parent_block_hash, "0x01");
            match new_runtime {
                Some(RuntimeEvent::Valid(v)) => {
                    assert_eq!(v.spec.spec_name, "westend");
                    assert_eq!(v.spec.spec_version, 9122);
                    assert_eq!(v.spec.apis.get("0xdf6acb689907609b"), Some(3));
                }
                other => panic!("unexpected runtime {:?}", other),
            }
        }
        other => panic!("unexpected event {:?}", other),
    }
}

#[test]
fn block_events_decode() {
    let best = event(&obj(vec![("event", txt("bestBlockChanged")), ("bestBlockHash", txt("0x02"))]))
        .unwrap();
    assert_eq!(
        best,
        FollowEvent::BestBlockChanged(BestBlockChanged { best_block_hash: "0x02".to_string() })
    );
    let finalized = event(&obj(vec![
        ("event", txt("finalized")),
        ("finalizedBlockHashes", JsonValue::Array(vec![txt("0x02"), txt("0x03")])),
        ("prunedBlockHashes", JsonValue::Array(vec![])),
    ]))
    .unwrap();
    assert_eq!(
        finalized,
        FollowEvent::Finalized(Finalized {
            finalized_block_hashes: vec!["0x02".to_string(), "0x03".to_string()],
            pruned_block_hashes: vec![],
        })
    );
}

#[test]
fn operation_events_decode() {
    let body = event(&obj(vec![
        ("event", txt("operationBodyDone")),
        ("operationId", txt("7")),
        ("value", JsonValue::Array(vec![txt("0xaa"), txt("0xbb")])),
    ]))
    .unwrap();
    assert_eq!(
        body,
        FollowEvent::OperationBodyDone(OperationBodyDone {
            operation_id: "7".to_string(),
            value: vec!["0xaa".to_string(), "0xbb".to_string()],
        })
    );
    let call = event(&obj(vec![
        ("event", txt("operationCallDone")),
        ("operationId", txt("8")),
        ("output", txt("0x00")),
    ]))
    .unwrap();
    assert_eq!(
        call,
        FollowEvent::OperationCallDone(OperationCallDone {
            operation_id: "8".to_string(),
            output: "0x00".to_string(),
        })
    );
    let items = event(&obj(vec![
        ("event", txt("operationStorageItems")),
        ("operationId", txt("9")),
        (
            "items",
            JsonValue::Array(vec![
                obj(vec![("key", txt("0x01")), ("value", txt("0x02"))]),
                obj(vec![("key", txt("0x03")), ("hash", txt("0x04"))]),
                obj(vec![("key", txt("0x05")), ("closestDescendantMerkleValue", txt("0x06"))]),
            ]),
        ),
    ]))
    .unwrap();
    assert_eq!(
        items,
        FollowEvent::OperationStorageItems(OperationStorageItems {
            operation_id: "9".to_string(),
            items: vec![
                StorageResult {
                    key: "0x01".to_string(),
                    result: StorageResultType::Value("0x02".to_string()),
                },
                StorageResult {
                    key: "0x03".to_string(),
                    result: StorageResultType::Hash("0x04".to_string()),
                },
                StorageResult {
                    key: "0x05".to_string(),
                    result: StorageResultType::ClosestDescendantMerkleValue("0x06".to_string()),
                },
            ],
        })
    );
    let waiting = event(&obj(vec![
        ("event", txt("operationWaitingForContinue")),
        ("operationId", txt("9")),
    ]))
    .unwrap();
    assert_eq!(
        waiting,
        FollowEvent::OperationWaitingForContinue(OperationId { operation_id: "9".to_string() })
    );
    let done =
        event(&obj(vec![("event", txt("operationStorageDone")), ("operationId", txt("9"))])).unwrap();
    assert_eq!(
        done,
        FollowEvent::OperationStorageDone(OperationId { operation_id: "9".to_string() })
    );
}

#[test]
fn events_of_another_shape_are_refused() {
    // No object, no discriminator, an unknown one, one that is no string.
    assert_eq!(event(&txt("stop")), Err(DecodeError));
    assert_eq!(event(&JsonValue::Array(vec![txt("stop")])), Err(DecodeError));
    assert_eq!(event(&obj(vec![("operationId", txt("abc"))])), Err(DecodeError));
    assert_eq!(event(&obj(vec![("event", txt("Stop"))])), Err(DecodeError));
    assert_eq!(event(&obj(vec![("event", JsonValue::Unsigned(1))])), Err(DecodeError));
    // A field that is missing, of the wrong kind, or given twice.
    assert_eq!(
        event(&obj(vec![("event", txt("operationError")), ("operationId", txt("abc"))])),
        Err(DecodeError)
    );
    assert_eq!(
        event(&obj(vec![
            ("event", txt("operationError")),
            ("operationId", JsonValue::Unsigned(1)),
            ("error", txt("oops")),
        ])),
        Err(DecodeError)
    );
    assert_eq!(
        event(&obj(vec![
            ("event", txt("operationInaccessible")),
            ("operationId", txt("a")),
            ("operationId", txt("b")),
        ])),
        Err(DecodeError)
    );
    assert_eq!(
        event(&obj(vec![("event", txt("stop")), ("event", txt("stop"))])),
        Err(DecodeError)
    );
    // A field that the event does not know is passed over.
    assert_eq!(
        event(&obj(vec![("event", txt("stop")), ("more", JsonValue::Real)])),
        Ok(FollowEvent::Stop)
    );
    // A runtime that is there but cannot be read.
    assert_eq!(
        event(&obj(vec![
            ("event", txt("initialized")),
            ("finalizedBlockHash", txt("0x01")),
            ("finalizedBlockRuntime", obj(vec![("type", txt("valid"))])),
        ])),
        Err(DecodeError)
    );
    // A list with an item of the wrong kind.
    assert_eq!(
        event(&obj(vec![
            ("event", txt("finalized")),
            ("finalizedBlockHashes", JsonValue::Array(vec![txt("0x02"), JsonValue::Null])),
            ("prunedBlockHashes", JsonValue::Array(vec![])),
        ])),
        Err(DecodeError)
    );
}

#[test]
fn storage_result_decodes_by_its_field() {
    let value = StorageResult::decode(&obj(vec![("key", txt("0x0a")), ("value", txt("0xff"))])).unwrap();
    assert_eq!(
        value,
        StorageResult { key: "0x0a".to_string(), result: StorageResultType::Value("0xff".to_string()) }
    );
    // The first field that names a kind of result gives it.
    let first = StorageResult::decode(&obj(vec![
        ("hash", txt("0x01")),
        ("key", txt("0x0a")),
        ("value", txt("0x02")),
    ]))
    .unwrap();
    assert_eq!(first.result, StorageResultType::Hash("0x01".to_string()));
    assert_eq!(StorageResult::decode(&obj(vec![("key", txt("0x0a"))])), Err(DecodeError));
    assert_eq!(
        StorageResult::decode(&obj(vec![("key", txt("0x0a")), ("value", JsonValue::Unsigned(1))])),
        Err(DecodeError)
    );
    assert_eq!(StorageResult::decode(&obj(vec![("value", txt("0xff"))])), Err(DecodeError));
}

#[test]
fn method_response_decodes() {
    let started = MethodResponse::decode(&obj(vec![
        ("result", txt("started")),
        ("operationId", txt("42")),
        ("discardedItems", JsonValue::Unsigned(3)),
    ]))
    .unwrap();
    assert_eq!(
        started,
        MethodResponse::Started(MethodResponseStarted {
            operation_id: "42".to_string(),
            discarded_items: Some(3),
        })
    );
    let plain =
        MethodResponse::decode(&obj(vec![("result", txt("started")), ("operationId", txt("42"))]))
            .unwrap();
    assert_eq!(
        plain,
        MethodResponse::Started(MethodResponseStarted {
            operation_id: "42".to_string(),
            discarded_items: None,
        })
    );
    let full = MethodResponse::decode(&obj(vec![("result", txt("limitReached"))])).unwrap();
    assert_eq!(full, MethodResponse::LimitReached);
    assert_eq!(MethodResponse::decode(&obj(vec![("result", txt("started"))])), Err(DecodeError));
    assert_eq!(MethodResponse::decode(&obj(vec![("result", txt("stopped"))])), Err(DecodeError));
    assert_eq!(MethodResponse::decode(&JsonValue::Null), Err(DecodeError));
}

#[test]
fn nothing_follows_stop() {
    let initialized: FollowEvent<String> = FollowEvent::Initialized(Initialized {
        finalized_block_hash: "0x01".to_string(),
        finalized_block_runtime: None,
    });
    let best: FollowEvent<String> =
        FollowEvent::BestBlockChanged(BestBlockChanged { best_block_hash: "0x01".to_string() });
    let stop = event(&obj(vec![("event", txt("stop"))])).unwrap();

    let phase = FollowPhase::new();
    assert_eq!(phase, FollowPhase::Initial);
    // The first event must be `Initialized`.
    assert_eq!(phase.advance(&best), None);
    assert_eq!(phase.advance(&stop), None);
    let phase = phase.advance(&initialized).unwrap();
    assert_eq!(phase, FollowPhase::Running);
    // It comes once.
    assert_eq!(phase.advance(&initialized), None);
    assert_eq!(phase.advance(&best), Some(FollowPhase::Running));
    let phase = phase.advance(&stop).unwrap();
    assert_eq!(phase, FollowPhase::Stopped);
    // After `Stop`, no event is expected.
    assert_eq!(phase.advance(&best), None);
    assert_eq!(phase.advance(&initialized), None);
    assert_eq!(phase.advance(&stop), None);
}

#[test]
fn hash_may_be_kept_as_it_came() {
    // A chain whose hashes are not text: the label is handed on unread.
    let label = JsonValue::Array(vec![JsonValue::Unsigned(1), JsonValue::Unsigned(2)]);
    let e = FollowEvent::<JsonValue>::decode(&obj(vec![
        ("event", txt("bestBlockChanged")),
        ("bestBlockHash", label.clone()),
    ]))
    .unwrap();
    assert_eq!(e, FollowEvent::BestBlockChanged(BestBlockChanged { best_block_hash: label.clone() }));
    let nested = obj(vec![("a", JsonValue::Array(vec![JsonValue::Null, txt("x"), JsonValue::Real]))]);
    assert_eq!(nested.clone(), nested);
    assert_ne!(nested.clone(), obj(vec![("a", JsonValue::Array(vec![]))]));
    // A text hash is refused where the hash is not text.
    assert_eq!(
        event(&obj(vec![("event", txt("bestBlockChanged")), ("bestBlockHash", label)])),
        Err(DecodeError)
    );
}

#[test]
fn follow_sequence_relays_in_order_and_ends_at_stop() {
    let notifications = vec![
        obj(vec![("event", txt("initialized")), ("finalizedBlockHash", txt("0x01"))]),
        obj(vec![
            ("event", txt("newBlock")),
            ("blockHash", txt("0x02")),
            ("parentBlockHash", txt("0x01")),
        ]),
        obj(vec![("event", txt("bogus"))]),
        obj(vec![("event", txt("bestBlockChanged")), ("bestBlockHash", txt("0x02"))]),
        obj(vec![("event", txt("stop"))]),
    ];
    let expected: Vec<Result<FollowEvent<String>, DecodeError>> = vec![
        Ok(FollowEvent::Initialized(Initialized {
            finalized_block_hash: "0x01".to_string(),
            finalized_block_runtime: None,
        })),
        Ok(FollowEvent::NewBlock(NewBlock {
            block_hash: "0x02".to_string(),
            parent_block_hash: "0x01".to_string(),
            new_runtime: None,
        })),
        Err(DecodeError),
        Ok(FollowEvent::BestBlockChanged(BestBlockChanged { best_block_hash: "0x02".to_string() })),
        Ok(FollowEvent::Stop),
    ];

    let mut raw: VecDeque<JsonValue> = notifications.iter().cloned().collect();
    let out = relay::<String>(&mut raw);
    assert_eq!(out, expected);
    assert_eq!(out.last(), Some(&Ok(FollowEvent::Stop)));
    assert!(raw.is_empty());
    assert_eq!(next_event::<String>(&mut raw), None);

    // One by one: the same events, then the end.
    let mut raw: VecDeque<JsonValue> = notifications.iter().cloned().collect();
    for (i, event) in expected.iter().enumerate() {
        assert_eq!(raw.len(), expected.len() - i);
        assert_eq!(next_event::<String>(&mut raw).as_ref(), Some(event));
    }
    assert_eq!(next_event::<String>(&mut raw), None);
    assert_eq!(relay::<String>(&mut raw), vec![]);
}
