//! Multiplexing of resources, capabilities and server information across upstream servers.

pub mod capabilities;
pub mod percent;
pub mod routing;
pub mod server_info;
