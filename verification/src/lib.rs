//! Link-layer framing between a virtual network interface and a packet radio
//! that carries at most 32 bytes per payload.
//!
//! Outgoing IP datagrams are cut into radio-sized chunks and sent in small
//! batches; incoming chunks are accumulated until they form a datagram again.
//! The pumps are written as step functions: the caller performs the radio and
//! interface operations and reports what happened.

pub mod chunker;
pub mod config;
pub mod datagram;
pub mod reassembler;
pub mod round_trip;
pub mod router;
pub mod rx_pump;
pub mod tx_pump;
pub mod virtual_interface;
