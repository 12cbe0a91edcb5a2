//! The peer-to-peer datagram channel of the Fungi protocol, as verified state
//! machines and parsers.
//!
//! A channel is a connection to one peer that moves opaque byte messages, one
//! message per call. This crate holds what a channel decides; the sockets, the
//! threads and the awaits around it live in the driver programs.

pub mod actor;
pub mod addr;
pub mod arti;
pub mod cli;
pub mod driver;
pub mod e2e;
pub mod error;
pub mod framed;
pub mod harness;
pub mod loopback;
pub mod net;
pub mod rpc;
pub mod settings;
pub mod text;
pub mod wire;
