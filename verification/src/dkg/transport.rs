//! Settings of the authenticated DKG transport, and the reading of peer
//! addresses it is configured with.

use crate::dkg::error::DkgError;
use crate::dkg::config::DkgConfig;
use crate::net::{host_port_outcome, ingress_of, parse_ingress_addr, AddressError, IngressAddr};
use crate::text::push_str;
use vstd::prelude::*;

verus! {

/// Channel ID for DKG ceremony messages.
pub const CHANNEL_DKG: u64 = 10;

/// Default maximum message size for DKG (256 KB).
pub const DEFAULT_MAX_MESSAGE_SIZE: u32 = 262144;

/// Default channel backlog size.
pub const DEFAULT_BACKLOG: usize = 256;

/// Messages per second the DKG channel allows (DKG is low-volume).
pub const DEFAULT_QUOTA_PER_SECOND: u32 = 100;

fn network_error(prefix: &str, detail: &str) -> (e: DkgError)
    ensures
        e matches DkgError::Network(m) && m@ == prefix@ + detail@,
{
    let mut m = String::from_str(prefix);
    push_str(&mut m, detail);
    DkgError::Network(m)
}

/// The network error an address that does not read is reported with: it
/// names the address, the port or the hostname.
pub open spec fn dkg_ingress_fault(addr: Seq<char>, is_socket_addr: bool, e: DkgError) -> bool {
    &&& !is_socket_addr
    &&& match (host_port_outcome(addr), e) {
        (Err((0u8, _)), DkgError::Network(m)) => m@ == "Invalid address format: "@ + addr,
        (Err((1u8, t)), DkgError::Network(m)) => m@ == "Invalid port: "@ + t,
        (Err((2u8, t)), DkgError::Network(m)) => m@ == "Invalid hostname: "@ + t,
        _ => false,
    }
}

/// Whether an address reads: a socket address, or `host:port`.
pub open spec fn ingress_reads(addr: Seq<char>, is_socket_addr: bool) -> bool {
    is_socket_addr || host_port_outcome(addr) is Ok
}

/// `e` is bootstrap peer `p` with its address read.
pub open spec fn bootstrap_ingress(p: ([u8; 32], String), is_socket_addr: bool, e: ([u8; 32], IngressAddr)) -> bool {
    e.0 == p.0 && ingress_of(p.1@, is_socket_addr, e.1)
}

/// Parses an address string into an ingress address: a socket address as
/// it is (`is_socket_addr` is the standard library's reading of the text),
/// otherwise `host:port`; a refusal is a network error that names the
/// address, the port or the hostname.
pub fn parse_ingress(addr_str: &str, is_socket_addr: bool) -> (r: Result<IngressAddr, DkgError>)
    ensures
        match r {
            Ok(i) => ingress_of(addr_str@, is_socket_addr, i),
            Err(e) => dkg_ingress_fault(addr_str@, is_socket_addr, e),
        },
{
    match parse_ingress_addr(addr_str, is_socket_addr) {
        Ok(a) => Ok(a),
        Err(AddressError::MissingPort) => Err(network_error("Invalid address format: ", addr_str)),
        Err(AddressError::InvalidPort(p)) => Err(network_error("Invalid port: ", p.as_str())),
        Err(AddressError::InvalidHostname(h)) => Err(network_error("Invalid hostname: ", h.as_str())),
    }
}

/// The bootstrap peers of a DKG configuration with their addresses read, as
/// the ceremony's transport is configured (`socket_addrs[i]` is the standard
/// library's reading of peer `i`'s address as a socket address); the first
/// address that does not read gives the error.
pub fn transport_bootstrappers(config: &DkgConfig, socket_addrs: &Vec<bool>) -> (r: Result<
    Vec<([u8; 32], IngressAddr)>,
    DkgError,
>)
    requires
        socket_addrs.len() == config.bootstrap_peers.len(),
    ensures
        match r {
            Ok(v) => {
                &&& v.len() == config.bootstrap_peers.len()
                &&& forall|i: int|
                    0 <= i < v.len() ==> #[trigger] bootstrap_ingress(config.bootstrap_peers[i], socket_addrs[i], v[i])
            },
            Err(e) => exists|i: int|
                0 <= i < config.bootstrap_peers.len() && (forall|j: int|
                    0 <= j < i ==> ingress_reads(#[trigger] config.bootstrap_peers[j].1@, socket_addrs[j]))
                    && #[trigger] dkg_ingress_fault(config.bootstrap_peers[i].1@, socket_addrs[i], e),
        },
{
    let peers = &config.bootstrap_peers;
    let mut v: Vec<([u8; 32], IngressAddr)> = Vec::new();
    let mut i: usize = 0;
    while i < peers.len()
        invariant
            0 <= i <= peers.len(),
            peers == &config.bootstrap_peers,
            socket_addrs.len() == peers.len(),
            v.len() == i,
            forall|j: int| 0 <= j < i ==> #[trigger] bootstrap_ingress(peers[j], socket_addrs[j], v[j]),
        decreases peers.len() - i,
    {
        let ingress = match parse_ingress(peers[i].1.as_str(), socket_addrs[i]) {
            Ok(a) => a,
            Err(e) => {
                assert forall|j: int| 0 <= j < i implies ingress_reads(#[trigger] peers[j].1@, socket_addrs[j]) by {
                    assert(bootstrap_ingress(peers[j], socket_addrs[j], v[j]));
                }
                return Err(e);
            },
        };
        let ghost v0 = v@;
        let entry = (peers[i].0, ingress);
        let ghost g = entry;
        v.push(entry);
        proof {
            assert forall|j: int| 0 <= j <= i implies #[trigger] bootstrap_ingress(peers[j], socket_addrs[j], v[j]) by {
                if j < i {
                    assert(v[j] == v0[j]);
                } else {
                    assert(v[j] == g);
                }
            }
        }
        i = i + 1;
    }
    Ok(v)
}

} // verus!
