//! Verified core of the threshold-ECDSA mobile module: the framing of the
//! messages handed to the host application, the routing rule for protocol
//! messages, the parsing of the signing parties, the hand-off of the incoming
//! message channel, and the decisions of the gossip node.

mod text;

pub mod channel;
pub mod decimal;
pub mod message;
pub mod parties;
pub mod pubsub;
pub mod routing;

pub use channel::{create_channel, dispatch_incoming, Channel, DispatchError};
pub use decimal::{decimal_text, signed_decimal_text};
pub use message::{generate_outgoing_message, OutgoingMessage, OutputKind};
pub use parties::{parse_signing_parties, PartiesError};
pub use pubsub::{
    listen_address, listen_multiaddr, publish_topic, NodeCommand, NodeStep, OutgoingQueue,
    PubsubError, SwarmInput,
};
pub use routing::{accepts_message, partial_signatures_awaited};
