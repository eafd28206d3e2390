//! Byte sizes written as text, and how many packets a volume takes.

use vstd::prelude::*;

verus! {

/// The byte count that `byte_unit` reads from `text` (units such as "10MB",
/// "1.5GiB" or "80Mb" accepted, letter case ignored for the "B"), or `None`
/// where it refuses the text.
pub uninterp spec fn byte_size_of(text: Seq<char>) -> Option<u64>;

#[verifier::external_type_specification]
#[verifier::external_body]
pub struct ExByteParseError(byte_unit::ParseError);

/// Reads a byte size with `byte_unit::Byte::parse_str(text, true)` and turns the
/// `Byte` into its count with `Byte::as_u64` (exact: the crate is built without
/// its `u128` feature, so a `Byte` holds a `u64`). Claimed: the call succeeds
/// exactly where `byte_size_of` gives a value, and then returns that value.
/// Which error is returned on failure is left unsaid.
#[verifier::external_body]
pub(crate) fn parse_byte_size(text: &str) -> (r: Result<u64, byte_unit::ParseError>)
    ensures
        r is Ok <==> byte_size_of(text@) is Some,
        r matches Ok(v) ==> byte_size_of(text@) == Some(v),
{
    match byte_unit::Byte::parse_str(text, true) {
        Ok(b) => Ok(b.as_u64()),
        Err(e) => Err(e),
    }
}

/// The number of packets of `mtu` bytes that carry `volume` bytes: the
/// quotient, rounded up.
pub open spec fn packets_for(volume: u64, mtu: u16) -> int
    recommends mtu > 0,
{
    (volume as int + mtu as int - 1) / (mtu as int)
}

/// How many packets of at most `mtu` bytes a volume of `volume` bytes needs.
pub fn packet_count(volume: u64, mtu: u16) -> (n: u64)
    requires
        mtu > 0,
    ensures
        n == packets_for(volume, mtu),
        n * mtu >= volume,
        n > 0 ==> (n - 1) * mtu < volume,
{
    let m: u64 = mtu as u64;
    let mut packets: u64 = volume / m;
    let remainder: u64 = volume % m;
    if remainder > 0 {
        assert(m >= 2);
        assert(packets <= volume / 2) by (nonlinear_arith)
            requires packets == volume / m, m >= 2;
        packets = packets + 1;
    }
    proof {
        let v: int = volume as int;
        let mi: int = m as int;
        assert(v == mi * (v / mi) + v % mi) by (nonlinear_arith)
            requires mi > 0;
        assert(0 <= v % mi < mi) by (nonlinear_arith)
            requires mi > 0;
        if v % mi == 0 {
            assert((v + mi - 1) / mi == v / mi) by (nonlinear_arith)
                requires mi > 0, v == mi * (v / mi);
        } else {
            assert((v + mi - 1) / mi == v / mi + 1) by (nonlinear_arith)
                requires mi > 0, v == mi * (v / mi) + v % mi, 0 < v % mi < mi;
        }
        assert(packets * mi >= v) by (nonlinear_arith)
            requires packets == v / mi + (if v % mi > 0 { 1int } else { 0int }), v == mi * (v / mi) + v % mi, 0 <= v % mi < mi;
        if packets > 0 {
            assert((packets - 1) * mi < v) by (nonlinear_arith)
                requires packets == v / mi + (if v % mi > 0 { 1int } else { 0int }), v == mi * (v / mi) + v % mi, 0 <= v % mi < mi, packets > 0;
        }
    }
    packets
}

} // verus!
