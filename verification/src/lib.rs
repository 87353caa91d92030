//! Client side of the Nostr relay protocol.
//!
//! The library decides, and leaves the waiting to its caller: which messages go
//! to a relay, what an inbound frame says and whom it belongs to, what a
//! subscription or a request gets to see, and when the shared socket connects
//! and closes. Each decision is a function whose contract says what comes out.
//!
//! - [`socket`]: the shared WebSocket connection, its channels and its keep-alive.
//! - [`relay`]: subscriptions and requests on top of it.
//! - [`types`]: protocol messages, responses and errors, with [`event`] and
//!   [`filter`] for what they carry.
//! - [`json`] and [`codec`]: documents, and their text by `serde_json`.
//! - [`text`]: strings as sequences of characters.

pub mod codec;
pub mod event;
pub mod filter;
pub mod json;
pub mod relay;
pub mod socket;
pub mod text;
pub mod types;

pub use relay::{Relay, DEFAULT_KEEP_ALIVE};
pub use socket::RelaySocket;
pub use types::{
    ClientMessage, CountResponse, Filter, NostrEvent, PublishResponse, RelayError, RelayMessage,
    ReqMessage,
};
