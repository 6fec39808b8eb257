//! Client-side logic for a local hub spoken to over a raw socket: minimal
//! HTTP request framing, response splitting and interpretation, compact JSON
//! serialization, and the event-listener dispatch table.

pub mod bytes;
pub mod consts;
pub mod endpoint;
pub mod dispatch;
pub mod doc;
pub mod exchange;
pub mod hub_json;
pub mod json;
pub mod wire;
