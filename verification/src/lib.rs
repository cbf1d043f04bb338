//! A minimal peer-to-peer messaging node, as a verified core.
//!
//! The crate holds the decisions of such a node and leaves the network, the
//! console and the scheduler to its caller:
//!
//! * [`protocol`]: the identifier under which the request/response protocol
//!   is negotiated;
//! * [`codec`]: the wire format of a request or a response, a UTF-8 text
//!   frame that ends with the stream;
//! * [`peers`]: the set of peers that discovery currently reports as
//!   reachable;
//! * [`node`]: the coordination state machine, from an event to the next peer
//!   set and the actions to perform;
//! * [`relay`]: the decisions of the task that forwards console lines into
//!   the node's queue.
pub mod codec;
pub mod node;
pub mod peers;
pub mod protocol;
pub mod relay;

pub use codec::{CodecError, MyCodec};
pub use node::{Action, Coordinator, Event, Notice, ACKNOWLEDGMENT};
pub use peers::{PeerIdentity, PeerKey, PeerSet};
pub use protocol::{MyProtocol, MyRequest, MyResponse, PROTOCOL_ID};
pub use relay::{Relay, RelayAction, RelayEvent, QUEUE_CAPACITY};
