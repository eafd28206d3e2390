//! What a run of the simulator reports.

use vstd::prelude::*;
use crate::port::PortState;

verus! {

/// The bytes received over all the ports in `s`.
pub open spec fn rx_bytes_sum(s: Seq<PortState>) -> int
    decreases s.len(),
{
    if s.len() == 0 {
        0
    } else {
        rx_bytes_sum(s.drop_last()) + s.last().rx_bytes
    }
}

/// The packets received over all the ports in `s`.
pub open spec fn rx_packets_sum(s: Seq<PortState>) -> int
    decreases s.len(),
{
    if s.len() == 0 {
        0
    } else {
        rx_packets_sum(s.drop_last()) + s.last().rx_packets
    }
}

/// The totals over ports: nothing over no port, and adding a port adds its
/// received bytes to the byte total and its received packets to the packet
/// total, and nothing else of it.
pub proof fn lemma_totals_add_up(s: Seq<PortState>, x: PortState)
    ensures
        rx_bytes_sum(Seq::<PortState>::empty()) == 0,
        rx_packets_sum(Seq::<PortState>::empty()) == 0,
        rx_bytes_sum(s.push(x)) == rx_bytes_sum(s) + x.rx_bytes,
        rx_packets_sum(s.push(x)) == rx_packets_sum(s) + x.rx_packets,
{
    assert(s.push(x).drop_last() =~= s);
}

proof fn lemma_sums_grow(s: Seq<PortState>, k: int)
    requires
        0 <= k <= s.len(),
    ensures
        rx_bytes_sum(s.take(k)) <= rx_bytes_sum(s),
        rx_packets_sum(s.take(k)) <= rx_packets_sum(s),
    decreases s.len() - k,
{
    if k < s.len() {
        lemma_sums_grow(s, k + 1);
        assert(s.take(k + 1).drop_last() =~= s.take(k));
    } else {
        assert(s.take(k) =~= s);
    }
}

/// The bytes and packets received over all egress ports, or `None` where a
/// total passes `u64::MAX`.
pub fn total_received(stats: &Vec<PortState>) -> (r: Option<(u64, u64)>)
    ensures
        r is Some <==> rx_bytes_sum(stats@) <= u64::MAX && rx_packets_sum(stats@) <= u64::MAX,
        r matches Some(t) ==> t.0 == rx_bytes_sum(stats@) && t.1 == rx_packets_sum(stats@),
{
    let mut bytes: u64 = 0;
    let mut packets: u64 = 0;
    let mut i: usize = 0;
    while i < stats.len()
        invariant
            i <= stats.len(),
            bytes == rx_bytes_sum(stats@.take(i as int)),
            packets == rx_packets_sum(stats@.take(i as int)),
        decreases stats.len() - i,
    {
        proof {
            assert(stats@.take(i + 1).drop_last() =~= stats@.take(i as int));
            lemma_sums_grow(stats@, i + 1);
        }
        match bytes.checked_add(stats[i].rx_bytes) {
            Some(b) => {
                bytes = b;
            },
            None => {
                return None;
            },
        }
        match packets.checked_add(stats[i].rx_packets) {
            Some(p) => {
                packets = p;
            },
            None => {
                return None;
            },
        }
        i = i + 1;
    }
    proof {
        assert(stats@.take(i as int) =~= stats@);
    }
    Some((bytes, packets))
}

} // verus!
