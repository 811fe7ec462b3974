//! Runtime fabric of a peer-to-peer node: transports and the mesh of connections, the
//! authorization handshake, the connection and peer managers, the dispatch loops, the
//! routing table and circuit handlers, the service orchestrator, and the daemon's
//! configuration.

pub mod text;
pub mod wire;
pub mod transport;
pub mod mesh;
pub mod auth;
pub mod connection;
pub mod peer;
pub mod interconnect;
pub mod dispatch;
pub mod routing;
pub mod circuit;
pub mod orchestrator;
pub mod store;
pub mod daemon;
pub mod cli;
