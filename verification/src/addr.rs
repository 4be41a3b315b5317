use vstd::prelude::*;

verus! {

/// An IPv4 address, held as its 32-bit value (first octet in the high bits).
#[derive(PartialEq, Eq, Structural, Clone, Copy, Debug, Hash)]
pub struct Ipv4Address {
    pub bits: u32,
}

/// The 32-bit value of an address written as four dotted octets.
pub open spec fn octets_to_bits(a: u8, b: u8, c: u8, d: u8) -> u32 {
    ((a as u32) << 24) | ((b as u32) << 16) | ((c as u32) << 8) | (d as u32)
}

impl Ipv4Address {
    /// The last (lowest) octet of the address.
    pub open spec fn last_octet(self) -> u32 {
        self.bits & 0xFF
    }

    /// The top three octets, i.e. the address with its last octet cleared.
    pub open spec fn upper24(self) -> u32 {
        self.bits & 0xFFFFFF00
    }

    pub fn new(a: u8, b: u8, c: u8, d: u8) -> (r: Self)
        ensures
            r.bits == octets_to_bits(a, b, c, d),
    {
        Ipv4Address { bits: ((a as u32) << 24) | ((b as u32) << 16) | ((c as u32) << 8) | (d as u32) }
    }

    pub fn from_bits(bits: u32) -> (r: Self)
        ensures
            r.bits == bits,
    {
        Ipv4Address { bits }
    }

    /// The four octets of the address, highest first.
    pub fn octets(&self) -> (r: (u8, u8, u8, u8))
        ensures
            r.0 as u32 == (self.bits >> 24) & 0xFF,
            r.1 as u32 == (self.bits >> 16) & 0xFF,
            r.2 as u32 == (self.bits >> 8) & 0xFF,
            r.3 as u32 == self.bits & 0xFF,
    {
        proof {
            let b = self.bits;
            assert((b >> 24) & 0xFF < 256 && (b >> 16) & 0xFF < 256
                && (b >> 8) & 0xFF < 256 && b & 0xFF < 256) by (bit_vector);
        }
        (
            ((self.bits >> 24) & 0xFF) as u8,
            ((self.bits >> 16) & 0xFF) as u8,
            ((self.bits >> 8) & 0xFF) as u8,
            (self.bits & 0xFF) as u8,
        )
    }
}

} // verus!
