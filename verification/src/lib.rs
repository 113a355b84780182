//! A WebRTC signaling relay core: peers connect, gather in named groups
//! ("circles"), and exchange opaque session-negotiation payloads that the
//! server routes to the right recipient without interpreting them.
//!
//! The crate holds the connection/circle registry and the message-routing
//! engine: the in-memory model of peers and circles, and the routing state
//! machine that turns an inbound envelope into membership mutations and
//! outbound forwards. Transport, wire encoding and process bootstrap live
//! outside the library and hand it plain values.

pub mod decimal;
pub mod laws;
pub mod messages;
pub mod router;
pub mod state;

pub use decimal::u32_to_decimal;
pub use messages::{SDPOffer, WSPayload};
pub use router::{route, Outbound};
pub use state::{Circle, CircleDirectory, GlobalState, NotFound, Peer, PeerRegistry};
