//! Verified core of the freight-train tunnel: addresses and NAT, the tunnel
//! framing, the client and server session handshakes, and the bookkeeping
//! that the client configuration and the gateway keep.
pub mod ip;
pub mod nat_table;
pub mod protocol;
pub mod framing;
pub mod ip_packet;
pub mod client_session;
pub mod server_session;
pub mod gateway;
pub mod network_plan;
pub mod client_config;
pub mod commands;
pub mod login_url;
pub mod server_config;
pub mod quic;
pub mod schema;
pub mod session_laws;
