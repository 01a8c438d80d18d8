//! Socket addresses as plain values, so that the verified state machines can
//! tell peers apart.

use vstd::prelude::*;

verus! {

/// A socket address: an IPv4 address is held in the low 32 bits of `ip` with
/// `is_v6` false; an IPv6 address in all of `ip` with its flow label and scope.
/// Two addresses are the same peer exactly when all fields agree.
#[derive(Clone, Copy, PartialEq, Eq, Structural, Debug, Hash)]
pub struct PeerAddr {
    pub is_v6: bool,
    pub ip: u128,
    pub port: u16,
    pub flowinfo: u32,
    pub scope_id: u32,
}

} // verus!
