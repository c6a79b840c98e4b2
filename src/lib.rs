//! Bridge from address-tagged control messages to an audio channel store and
//! controller-change frames.
//!
//! Control values arrive as the bit patterns of single-precision floats; the
//! library reads those bit patterns exactly and never performs floating-point
//! arithmetic itself.

mod address_map;
mod bridge;
mod level;
mod message;
mod store;

pub use address_map::{AddressMap, MapError};
pub use level::{controller_frame, controller_value, CONTROLLER_CHANGE};
pub use store::{ChannelStore, NEUTRAL};
pub use bridge::{dispatch, route, Dispatch};
pub use message::{Arg, DecodeError, Packet, MAX_DATAGRAM};
