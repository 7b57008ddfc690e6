//! Host-side driver core for a serial-attached robotic arm: wire framing,
//! the request/reply dispatcher and the device queue-index tracker.

pub mod protocol_id;
pub mod message;
pub mod packet;
pub mod communicator;
pub mod queue_index;
pub mod framing;
pub mod types;
