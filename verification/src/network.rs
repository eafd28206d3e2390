//! Addresses of ingress ports.

use vstd::prelude::*;

verus! {

/// The network whose addresses ingress ports take when none is configured.
pub const IP_NETWORK: &'static str = "10.0.0.0/8";

/// The address part, as a number in network byte order, of the IPv4
/// network that `ipnet` reads from `text` (such as "10.0.0.0/8"), or `None`
/// where it refuses the text.
pub uninterp spec fn ipv4_net_address(text: Seq<char>) -> Option<u32>;

/// Reads an IPv4 network with `<ipnet::Ipv4Net as FromStr>::from_str` and
/// takes its address with `Ipv4Net::addr`, turned into a number. Claimed:
/// the result is `ipv4_net_address` of the text.
#[verifier::external_body]
fn parse_ipv4_net_address(text: &str) -> (r: Option<u32>)
    ensures
        r == ipv4_net_address(text@),
{
    match text.parse::<ipnet::Ipv4Net>() {
        Ok(net) => Some(u32::from(net.addr())),
        Err(_) => None,
    }
}

/// The first address of the network ingress ports take their addresses
/// from, or `None` if the network cannot be read.
pub fn ingress_network_base() -> (r: Option<u32>)
    ensures
        r == ipv4_net_address(IP_NETWORK@),
{
    parse_ipv4_net_address(IP_NETWORK)
}

/// The address of the ingress port at `index`: the configured one, or else
/// the one `index + 1` past the network's first address. `None` where that
/// sum passes the largest address (the index taken modulo 2^32).
pub fn ingress_source_ip(configured: Option<u32>, network_base: u32, index: usize) -> (r: Option<u32>)
    ensures
        configured matches Some(a) ==> r == Some(a),
        configured is None ==> (r is Some <==> network_base + (index as u32) + 1 <= u32::MAX),
        configured is None && r is Some ==> r->0 == network_base + (index as u32) + 1,
{
    match configured {
        Some(a) => Some(a),
        None => {
            let i: u32 = index as u32;
            match network_base.checked_add(i) {
                Some(x) => x.checked_add(1),
                None => None,
            }
        },
    }
}

} // verus!
