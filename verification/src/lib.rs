//! Typed model of the chain-head JSON-RPC protocol: the events of a follow
//! subscription, the replies to operation calls, the status reports of a
//! submitted transaction, and the wire forms of all of them.

pub mod api_map;
pub mod bytes;
pub mod follow_event;
pub mod hashmap_as_tuple_list;
pub mod json;
pub mod method_response;
pub mod rpc_methods;
pub mod storage;
pub mod transaction;
pub mod unsigned_number_as_string;
pub mod wire;
