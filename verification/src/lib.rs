//! One-directional push protocol: a producer peer pushes opaque byte
//! messages to a consumer peer over an already-established, multiplexed
//! connection.  The crate holds the verified core: the length-prefixed
//! wire framing, the per-connection state machine, and the per-peer
//! coordination policy.  Connection establishment, encryption and
//! multiplexing belong to the host network engine that drives these
//! components through their poll entry points.

pub mod behaviour;
pub mod error;
pub mod handler;
pub mod protocol;

pub use behaviour::{BehaviourAction, ConnectionId, OneDirectionPush, PeerId, PushEvent};
pub use error::PushError;
pub use handler::OneDirectionPushHandler;
pub use protocol::PushProtocol;
