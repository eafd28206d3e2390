//! Flows: a five-tuple without its protocol, a volume and a rate.

use vstd::prelude::*;
use std::collections::hash_map::DefaultHasher;
use std::hash::Hasher;
use vstd::std_specs::hash::DefaultHasherAdditionalSpecFns;
use crate::config::FlowConfig;
use crate::sizes::{byte_size_of, parse_byte_size};
use crate::chance::draw_in_range;

verus! {

/// The destination port of every flow the simulator sends.
pub const DST_PORT: u16 = 80;

/// The lowest source port drawn for a flow without one.
pub const SRC_PORT_LOW: u16 = 40000;

/// One past the highest source port drawn for a flow without one.
pub const SRC_PORT_HIGH: u16 = 65535;

#[derive(Clone, Copy, Debug)]
pub struct Flow {
    pub src_ip: u32,
    pub src_port: u16,
    pub dst_port: u16,
    pub dst_ip: u32,
    pub volume: u64,
    pub bps: u64,
}

/// The bytes of `x`, least significant first.
pub open spec fn le_bytes_u32(x: u32) -> Seq<u8> {
    seq![(x % 256) as u8, ((x / 256) % 256) as u8, ((x / 65536) % 256) as u8, ((x / 16777216) % 256) as u8]
}

/// The bytes of `x`, most significant first.
pub open spec fn be_bytes_u32(x: u32) -> Seq<u8> {
    le_bytes_u32(x).reverse()
}

/// The bytes of `x`, least significant first.
pub open spec fn le_bytes_u16(x: u16) -> Seq<u8> {
    seq![(x % 256) as u8, ((x / 256) % 256) as u8]
}

/// The bytes of `x`, most significant first.
pub open spec fn be_bytes_u16(x: u16) -> Seq<u8> {
    le_bytes_u16(x).reverse()
}

/// `x` least significant byte first if `little`, else most significant first.
pub open spec fn ordered_u32(x: u32, little: bool) -> Seq<u8> {
    if little { le_bytes_u32(x) } else { be_bytes_u32(x) }
}

/// `x` least significant byte first if `little`, else most significant first.
pub open spec fn ordered_u16(x: u16, little: bool) -> Seq<u8> {
    if little { le_bytes_u16(x) } else { be_bytes_u16(x) }
}

/// The digest std's `DefaultHasher` gives after the source address,
/// destination address, source port and destination port of `flow` are
/// written to it in that order, all in the byte order `little` names.
pub open spec fn flow_digest_in_order(flow: Flow, little: bool) -> u64 {
    DefaultHasher::spec_finish(
        seq![
            ordered_u32(flow.src_ip, little),
            ordered_u32(flow.dst_ip, little),
            ordered_u16(flow.src_port, little),
            ordered_u16(flow.dst_port, little),
        ],
    )
}

/// `h` is the flow's digest with all four fields written in one byte order,
/// the machine's; which of the two that is depends on the machine.
pub open spec fn is_flow_digest(flow: Flow, h: u64) -> bool {
    h == flow_digest_in_order(flow, true) || h == flow_digest_in_order(flow, false)
}

/// The bytes of `x` in the machine's order, from `u32::to_ne_bytes`.
/// Claimed: one of the two byte orders; which one depends on the machine.
#[verifier::external_body]
fn u32_native_bytes(x: u32) -> (b: [u8; 4])
    ensures
        b@ == le_bytes_u32(x) || b@ == be_bytes_u32(x),
{
    x.to_ne_bytes()
}

/// Whether the machine writes integers least significant byte first, read
/// from how it writes the number one.
fn machine_is_little_endian() -> (little: bool) {
    let probe: [u8; 4] = u32_native_bytes(1);
    probe[0] == 1
}

/// `x` in the byte order `little` names.
fn ordered_bytes_u32(x: u32, little: bool) -> (b: [u8; 4])
    ensures
        b@ == ordered_u32(x, little),
{
    let b0: u8 = (x % 256) as u8;
    let b1: u8 = ((x / 256) % 256) as u8;
    let b2: u8 = ((x / 65536) % 256) as u8;
    let b3: u8 = ((x / 16777216) % 256) as u8;
    let b: [u8; 4] = if little { [b0, b1, b2, b3] } else { [b3, b2, b1, b0] };
    proof {
        assert(b@ =~= ordered_u32(x, little));
    }
    b
}

/// `x` in the byte order `little` names.
fn ordered_bytes_u16(x: u16, little: bool) -> (b: [u8; 2])
    ensures
        b@ == ordered_u16(x, little),
{
    let b0: u8 = (x % 256) as u8;
    let b1: u8 = ((x / 256) % 256) as u8;
    let b: [u8; 2] = if little { [b0, b1] } else { [b1, b0] };
    proof {
        assert(b@ =~= ordered_u16(x, little));
    }
    b
}

impl Flow {
    pub fn new(src_ip: u32, src_port: u16, dst_port: u16, dst_ip: u32, volume: u64, bps: u64) -> (f: Flow)
        ensures
            f == (Flow { src_ip, src_port, dst_port, dst_ip, volume, bps }),
    {
        Flow { src_ip, src_port, dst_ip, dst_port, volume, bps }
    }

    /// The flow's hash: its addresses and ports fed to std's `DefaultHasher`,
    /// as the `Hash` impls of `u32` and `u16` feed them: each field's bytes,
    /// all in the machine's byte order.
    pub fn hash(&self) -> (h: u64)
        ensures
            is_flow_digest(*self, h),
    {
        let little: bool = machine_is_little_endian();
        let mut hasher = DefaultHasher::new();
        let a: [u8; 4] = ordered_bytes_u32(self.src_ip, little);
        hasher.write(a.as_slice());
        let b: [u8; 4] = ordered_bytes_u32(self.dst_ip, little);
        hasher.write(b.as_slice());
        let c: [u8; 2] = ordered_bytes_u16(self.src_port, little);
        hasher.write(c.as_slice());
        let d: [u8; 2] = ordered_bytes_u16(self.dst_port, little);
        hasher.write(d.as_slice());
        let h: u64 = hasher.finish();
        proof {
            assert(hasher@ =~= seq![a@, b@, c@, d@]);
        }
        h
    }
}

/// The ports of the flows the simulator sends: destination port 80, and a
/// drawn source port from 40000 up to 65534.
pub proof fn lemma_port_numbers()
    ensures
        DST_PORT == 80,
        SRC_PORT_LOW == 40000,
        SRC_PORT_HIGH == 65535,
{
}

/// The flow that an ingress port with address `ip` and line rate `bps` sends
/// for `config` to the address `dst_ip`: its source port is the configured
/// one, or one drawn from the range for source ports; its volume is the
/// configured size. `None` where the volume cannot be read.
pub fn build_flow(ip: u32, config: &FlowConfig, dst_ip: u32, bps: u64) -> (r: Option<Flow>)
    ensures
        r is Some <==> byte_size_of(config.volume@) is Some,
        r matches Some(f) ==> {
            &&& f.src_ip == ip
            &&& f.dst_ip == dst_ip
            &&& f.dst_port == DST_PORT
            &&& f.bps == bps
            &&& byte_size_of(config.volume@) == Some(f.volume)
            &&& match config.src_port {
                Some(p) => f.src_port == p,
                None => SRC_PORT_LOW <= f.src_port < SRC_PORT_HIGH,
            }
        },
{
    let src_port: u16 = match config.src_port {
        Some(p) => p,
        None => draw_in_range(SRC_PORT_LOW as u64, SRC_PORT_HIGH as u64) as u16,
    };
    match parse_byte_size(config.volume.as_str()) {
        Ok(volume) => Some(Flow::new(ip, src_port, DST_PORT, dst_ip, volume, bps)),
        Err(_) => None,
    }
}

} // verus!
