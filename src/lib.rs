//! A channel-scoped message relay: clients create named channels, register
//! as members, store messages in a channel, and later check and acknowledge
//! them.
//!
//! - `skel`: requests, responses, status codes and message rows.
//! - `text`: splitting text at a separator character.
//! - `codec`: the wire format of requests and payloads, and hex bodies.
//! - `dispatch`: one request as a sequence of steps. Each step names a hash
//!   to compute or a store operation to perform. The caller does that work
//!   and hands back the result.
//! - `model`: what the row store may answer to each operation, and the laws
//!   that runs of requests obey against such a store.

pub mod codec;
pub mod dispatch;
pub mod model;
pub mod skel;
pub mod text;
