//! The replies to the calls that start an operation.

use crate::json::{
    optional, optional_spec, required, required_spec, str_eq, Decode, DecodeError, JsonValue,
    JsonView,
};
use vstd::prelude::*;

verus! {

/// The operation that a call started.
#[derive(Debug, Clone, PartialEq, Eq)]
pub struct MethodResponseStarted {
    /// The id under which the operation's events will come.
    pub operation_id: String,
    /// How many of the last items of a storage call were discarded.
    pub discarded_items: Option<usize>,
}

/// The mathematical value of a [`MethodResponseStarted`].
pub struct MethodResponseStartedView {
    pub operation_id: Seq<char>,
    pub discarded_items: Option<usize>,
}

impl View for MethodResponseStarted {
    type V = MethodResponseStartedView;

    open spec fn view(&self) -> MethodResponseStartedView {
        MethodResponseStartedView {
            operation_id: self.operation_id@,
            discarded_items: self.discarded_items,
        }
    }
}

impl Decode for MethodResponseStarted {
    open spec fn decode_spec(v: JsonView) -> Option<MethodResponseStartedView> {
        match (
            required_spec::<String>(v, "operationId"@),
            optional_spec::<usize>(v, "discardedItems"@),
        ) {
            (Some(operation_id), Some(discarded_items)) => Some(
                MethodResponseStartedView { operation_id, discarded_items },
            ),
            _ => None,
        }
    }

    fn decode(v: &JsonValue) -> (r: Result<MethodResponseStarted, DecodeError>) {
        let operation_id = required::<String>(v, "operationId")?;
        let discarded_items = optional::<usize>(v, "discardedItems")?;
        Ok(MethodResponseStarted { operation_id, discarded_items })
    }
}

/// The reply to a body, call or storage call.
#[derive(Debug, Clone, PartialEq, Eq)]
pub enum MethodResponse {
    /// The operation has started.
    Started(MethodResponseStarted),
    /// The server has no room for the operation now: the caller may try
    /// again later.
    LimitReached,
}

/// The mathematical value of a [`MethodResponse`].
pub enum MethodResponseView {
    Started(MethodResponseStartedView),
    LimitReached,
}

impl View for MethodResponse {
    type V = MethodResponseView;

    open spec fn view(&self) -> MethodResponseView {
        match self {
            MethodResponse::Started(started) => MethodResponseView::Started(started@),
            MethodResponse::LimitReached => MethodResponseView::LimitReached,
        }
    }
}

impl Decode for MethodResponse {
    /// A reply is an object whose `result` field names the outcome.
    open spec fn decode_spec(v: JsonView) -> Option<MethodResponseView> {
        match required_spec::<String>(v, "result"@) {
            Some(outcome) => if outcome == "started"@ {
                match MethodResponseStarted::decode_spec(v) {
                    Some(started) => Some(MethodResponseView::Started(started)),
                    None => None,
                }
            } else if outcome == "limitReached"@ {
                Some(MethodResponseView::LimitReached)
            } else {
                None
            },
            None => None,
        }
    }

    fn decode(v: &JsonValue) -> (r: Result<MethodResponse, DecodeError>) {
        let outcome = required::<String>(v, "result")?;
        if str_eq(outcome.as_str(), "started") {
            let started = MethodResponseStarted::decode(v)?;
            Ok(MethodResponse::Started(started))
        } else if str_eq(outcome.as_str(), "limitReached") {
            Ok(MethodResponse::LimitReached)
        } else {
            Err(DecodeError)
        }
    }
}

} // verus!
