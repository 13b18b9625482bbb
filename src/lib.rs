//! Device side of a framed serial protocol: the host calls named functions
//! on the device, and the device streams its log records back over the same
//! channel.

pub mod events;
pub mod hardware;
pub mod logger;
pub mod protocol;
pub mod serial;
