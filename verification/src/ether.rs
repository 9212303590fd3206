//! The Ethernet header.

use crate::addr::MacAddr;
use crate::wire::be_u16;
use crate::wire::be_u48;
use crate::wire::push_u16;
use crate::wire::push_u48;
use crate::wire::read_u16;
use crate::wire::read_u48;
use crate::wire::u16_bytes;
use crate::wire::u48_bytes;
use vstd::prelude::*;

verus! {

/// The length of an Ethernet header in bytes.
pub const ETHER_HDR_SZ: usize = 14;

/// The EtherType of IPv4.
pub const ETHER_TYPE_IPV4: u16 = 0x0800;

/// The EtherType of ARP.
pub const ETHER_TYPE_ARP: u16 = 0x0806;

/// The EtherType of IPv6.
pub const ETHER_TYPE_IPV6: u16 = 0x86DD;

/// The EtherType of a bridged Ethernet frame (what Geneve carries here).
pub const ETHER_TYPE_ETHER: u16 = 0x6558;

/// What an Ethernet frame carries.
#[derive(Clone, Copy, Debug, PartialEq, Eq, Structural)]
pub enum EtherType {
    Ipv4,
    Arp,
    Ipv6,
    /// Any other payload, by its number.
    Other(u16),
}

impl EtherType {
    /// The payload kind with the number `n`.
    pub open spec fn of(n: u16) -> EtherType {
        if n == ETHER_TYPE_IPV4 {
            EtherType::Ipv4
        } else if n == ETHER_TYPE_ARP {
            EtherType::Arp
        } else if n == ETHER_TYPE_IPV6 {
            EtherType::Ipv6
        } else {
            EtherType::Other(n)
        }
    }

    /// The number of the payload kind.
    pub open spec fn number(self) -> u16 {
        match self {
            EtherType::Ipv4 => ETHER_TYPE_IPV4,
            EtherType::Arp => ETHER_TYPE_ARP,
            EtherType::Ipv6 => ETHER_TYPE_IPV6,
            EtherType::Other(n) => n,
        }
    }

    /// The payload kind with the number `n`.
    pub fn from_u16(n: u16) -> (r: EtherType)
        ensures
            r == EtherType::of(n),
    {
        if n == ETHER_TYPE_IPV4 {
            EtherType::Ipv4
        } else if n == ETHER_TYPE_ARP {
            EtherType::Arp
        } else if n == ETHER_TYPE_IPV6 {
            EtherType::Ipv6
        } else {
            EtherType::Other(n)
        }
    }

    /// The number of the payload kind.
    pub fn to_u16(&self) -> (r: u16)
        ensures
            r == self.number(),
    {
        match self {
            EtherType::Ipv4 => ETHER_TYPE_IPV4,
            EtherType::Arp => ETHER_TYPE_ARP,
            EtherType::Ipv6 => ETHER_TYPE_IPV6,
            EtherType::Other(n) => *n,
        }
    }
}

/// The fields of an Ethernet header.
#[derive(Clone, Copy, Debug, PartialEq, Eq, Structural)]
pub struct EtherMeta {
    pub dst: MacAddr,
    pub src: MacAddr,
    pub ether_type: EtherType,
}

/// An Ethernet header: it has no field beyond those of [`EtherMeta`].
pub type EtherHdr = EtherMeta;

impl EtherMeta {
    /// A header for a frame of kind `ether_type` from `src` to `dst`.
    pub fn new(ether_type: EtherType, src: MacAddr, dst: MacAddr) -> (r: EtherMeta)
        ensures
            r == (EtherMeta { dst, src, ether_type }),
    {
        EtherMeta { dst, src, ether_type }
    }

    /// The header that the fourteen bytes of `b` from `at` on write.
    #[verifier::opaque]
    pub open spec fn read(b: Seq<u8>, at: int) -> EtherMeta {
        EtherMeta {
            dst: MacAddr::of(be_u48(b, at)),
            src: MacAddr::of(be_u48(b, at + 6)),
            ether_type: EtherType::of(be_u16(b, at + 12)),
        }
    }

    /// The fourteen bytes of the header.
    #[verifier::opaque]
    pub open spec fn wire(self) -> Seq<u8> {
        u48_bytes(self.dst@) + u48_bytes(self.src@) + u16_bytes(self.ether_type.number())
    }

    /// Reads the header at `at`; none where fewer than fourteen bytes are left.
    pub fn parse(b: &[u8], at: usize) -> (r: Option<EtherMeta>)
        requires
            at <= b.len(),
        ensures
            match r {
                Some(h) => b.len() - at >= ETHER_HDR_SZ && h == EtherMeta::read(b@, at as int),
                None => b.len() - at < ETHER_HDR_SZ,
            },
    {
        proof {
            reveal(EtherMeta::read);
            reveal(EtherMeta::wire);
        }
        if b.len() - at < ETHER_HDR_SZ {
            return None;
        }
        let dst = MacAddr::from_value(read_u48(b, at));
        let src = MacAddr::from_value(read_u48(b, at + 6));
        let ether_type = EtherType::from_u16(read_u16(b, at + 12));
        Some(EtherMeta { dst, src, ether_type })
    }

    /// Appends the bytes of the header to `out`.
    pub fn emit(&self, out: &mut Vec<u8>)
        ensures
            final(out)@ == old(out)@ + self.wire(),
    {
        proof {
            reveal(EtherMeta::read);
            reveal(EtherMeta::wire);
        }
        push_u48(out, self.dst.value());
        push_u48(out, self.src.value());
        push_u16(out, self.ether_type.to_u16());
        assert(out@ =~= old(out)@ + self.wire());
    }

    /// The bytes of the header.
    pub fn as_bytes(&self) -> (r: Vec<u8>)
        ensures
            r@ == self.wire(),
    {
        let mut out: Vec<u8> = Vec::new();
        self.emit(&mut out);
        assert(out@ =~= self.wire());
        out
    }
}

impl EtherMeta {
    /// The header takes 14 bytes on the wire.
    pub proof fn lemma_wire_len(self)
        ensures
            self.wire().len() == 14,
    {
        reveal(EtherMeta::wire);
    }
}

} // verus!
