//! A small publish/subscribe broker for WebSocket connections.
//!
//! Connections register a send handle, subscribe to named channels and
//! publish byte payloads; the broker hands each payload to the handles of the
//! connections that are subscribed to its channel at that moment.
//!
//! The broker's state is modelled by [`server::ServerView`]: a map from
//! connection ids to handles and a map from channel names to sets of ids.
//! Every operation states its effect on that model.

pub mod message;
pub mod transport;
pub mod registry;
pub mod error;
pub mod channels;
pub mod server;
pub mod laws;
