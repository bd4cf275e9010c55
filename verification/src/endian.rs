//! Native byte order of the machine the player runs on.
use vstd::prelude::*;
use vstd::endian::{endianness, Endian};

verus! {

/// The two bytes of a `u16`, least significant first.
pub open spec fn u16_le_bytes(v: u16) -> Seq<u8> {
    seq![(v % 256) as u8, (v / 256) as u8]
}

/// The two bytes of a `u16`, most significant first.
pub open spec fn u16_be_bytes(v: u16) -> Seq<u8> {
    seq![(v / 256) as u8, (v % 256) as u8]
}

/// The bytes of a `u16` in the byte order of this machine.
pub open spec fn u16_native_bytes(v: u16) -> Seq<u8> {
    match endianness() {
        Endian::Little => u16_le_bytes(v),
        Endian::Big => u16_be_bytes(v),
    }
}

/// `u16::to_ne_bytes`: the value's bytes in the byte order of the machine the
/// program was built for (vstd's `endianness()`, one order for the whole
/// program).
#[verifier::external_body]
fn u16_to_ne_bytes(v: u16) -> (bytes: [u8; 2])
    ensures
        bytes@ == u16_native_bytes(v),
{
    v.to_ne_bytes()
}

/// Whether this machine stores the least significant byte first.
pub fn is_little_endian() -> (little: bool)
    ensures
        little == (endianness() == Endian::Little),
{
    let v: u16 = 1;
    let bytes = u16_to_ne_bytes(v);
    bytes[0] != 0
}

} // verus!
