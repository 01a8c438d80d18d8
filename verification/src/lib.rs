//! Verified core of a UDP game-traffic tunnel and relay proxy: the tunnel's wire
//! format, the reply rewriting that the relay applies to server queries, and the
//! decisions that the command lines and the receive loops make.

pub mod decimal;
pub mod protocol;
pub mod query;
pub mod relay;
pub mod public_relay;
pub mod session;
pub mod cli;
pub mod proxy_cli;
pub mod peer;
pub mod routes;
pub mod sessions;
pub mod stun;
