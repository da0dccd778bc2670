//! The protocol core of a QUIC binding: endpoints, sessions and streams as
//! plain state, stepped by events and answering with the work to perform.

#![allow(non_camel_case_types)]

pub mod address;
pub mod bytes;
pub mod datagrams;
pub mod endpoint;
pub mod events;
pub mod flush;
pub mod inbound;
pub mod lifecycle;
pub mod ngtcp2;
pub mod number;
pub mod outbound;
pub mod routes;
pub mod session;
pub mod settings;
pub mod setup;
pub mod stats;
pub mod stream;
pub mod table;
pub mod tls;
pub mod value;
