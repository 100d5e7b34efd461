//! Verified core of a peer-to-peer image sharing system: servers that keep
//! track of which peers are online and balance encryption work by load, and
//! clients that exchange view-limited images hidden inside a carrier picture.

pub mod raster;
pub mod stego;
pub mod codec;
pub mod net;
pub mod server;
pub mod fragments;
pub mod messages;
pub mod server_protocol;
pub mod chance;
pub mod client;
pub mod client_protocol;
pub mod transfer;
