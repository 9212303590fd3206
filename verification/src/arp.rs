//! ARP for IPv4 over Ethernet.

use crate::addr::Ipv4Addr;
use crate::addr::MacAddr;
use crate::ether::EtherMeta;
use crate::ether::EtherType;
use crate::ether::ETHER_TYPE_IPV4;
use crate::wire::be_u16;
use crate::wire::be_u32;
use crate::wire::be_u48;
use crate::wire::push_u16;
use crate::wire::push_u32;
use crate::wire::push_u48;
use crate::wire::read_u16;
use crate::wire::read_u32;
use crate::wire::read_u48;
use crate::wire::u16_bytes;
use crate::wire::u32_bytes;
use crate::wire::u48_bytes;
use vstd::prelude::*;

verus! {

/// The length of the fixed part of an ARP packet.
pub const ARP_HDR_SZ: usize = 8;

/// The length of an ARP packet for IPv4 over Ethernet.
pub const ARP_ETH4_SZ: usize = 28;

/// The ARP hardware type of Ethernet.
pub const ARP_HTYPE_ETHER: u16 = 1;

/// What an ARP packet asks or tells.
#[derive(Clone, Copy, Debug, PartialEq, Eq, Structural)]
pub enum ArpOp {
    Request,
    Reply,
}

impl ArpOp {
    /// The number that stands for the operation on the wire.
    pub open spec fn number(self) -> u16 {
        match self {
            ArpOp::Request => 1,
            ArpOp::Reply => 2,
        }
    }
}

/// An ARP packet whose hardware addresses are six bytes and whose protocol addresses are
/// four bytes long.
#[derive(Clone, Copy, Debug, PartialEq, Eq, Structural)]
pub struct ArpEthIpv4 {
    pub htype: u16,
    pub ptype: u16,
    pub hlen: u8,
    pub plen: u8,
    pub op: ArpOp,
    pub sha: MacAddr,
    pub spa: Ipv4Addr,
    pub tha: MacAddr,
    pub tpa: Ipv4Addr,
}

impl ArpEthIpv4 {
    /// True when the bytes of `b` from `at` on hold a packet that [`ArpEthIpv4::parse`]
    /// accepts: 28 bytes, address lengths 6 and 4, a request or a reply.
    #[verifier::opaque]
    pub open spec fn readable(b: Seq<u8>, at: int) -> bool {
        &&& 0 <= at && at + ARP_ETH4_SZ <= b.len()
        &&& b[at + 4] == 6
        &&& b[at + 5] == 4
        &&& (be_u16(b, at + 6) == 1 || be_u16(b, at + 6) == 2)
    }

    /// The packet that the bytes of `b` from `at` on write, where they are
    /// [`ArpEthIpv4::readable`].
    #[verifier::opaque]
    pub open spec fn read(b: Seq<u8>, at: int) -> ArpEthIpv4 {
        ArpEthIpv4 {
            htype: be_u16(b, at),
            ptype: be_u16(b, at + 2),
            hlen: 6,
            plen: 4,
            op: if be_u16(b, at + 6) == 1 {
                ArpOp::Request
            } else {
                ArpOp::Reply
            },
            sha: MacAddr::of(be_u48(b, at + 8)),
            spa: Ipv4Addr { inner: be_u32(b, at + 14) },
            tha: MacAddr::of(be_u48(b, at + 18)),
            tpa: Ipv4Addr { inner: be_u32(b, at + 24) },
        }
    }

    /// The 28 bytes of the packet.
    #[verifier::opaque]
    pub open spec fn wire(self) -> Seq<u8> {
        u16_bytes(self.htype) + u16_bytes(self.ptype) + seq![self.hlen, self.plen] + u16_bytes(
            self.op.number(),
        ) + u48_bytes(self.sha@) + u32_bytes(self.spa@) + u48_bytes(self.tha@) + u32_bytes(self.tpa@)
    }

    /// Reads the packet at `at`; none where the bytes are not [`ArpEthIpv4::readable`].
    pub fn parse(b: &[u8], at: usize) -> (r: Option<ArpEthIpv4>)
        requires
            at <= b.len(),
        ensures
            match r {
                Some(a) => ArpEthIpv4::readable(b@, at as int) && a == ArpEthIpv4::read(b@, at as int),
                None => !ArpEthIpv4::readable(b@, at as int),
            },
    {
        proof {
            reveal(ArpEthIpv4::read);
            reveal(ArpEthIpv4::readable);
            reveal(ArpEthIpv4::wire);
        }
        if b.len() - at < ARP_ETH4_SZ {
            return None;
        }
        let hlen = b[at + 4];
        let plen = b[at + 5];
        let opn = read_u16(b, at + 6);
        if hlen != 6 || plen != 4 {
            return None;
        }
        let op = if opn == 1 {
            ArpOp::Request
        } else if opn == 2 {
            ArpOp::Reply
        } else {
            return None;
        };
        Some(
            ArpEthIpv4 {
                htype: read_u16(b, at),
                ptype: read_u16(b, at + 2),
                hlen,
                plen,
                op,
                sha: MacAddr::from_value(read_u48(b, at + 8)),
                spa: Ipv4Addr { inner: read_u32(b, at + 14) },
                tha: MacAddr::from_value(read_u48(b, at + 18)),
                tpa: Ipv4Addr { inner: read_u32(b, at + 24) },
            },
        )
    }

    /// Appends the bytes of the packet to `out`.
    pub fn emit(&self, out: &mut Vec<u8>)
        ensures
            final(out)@ == old(out)@ + self.wire(),
    {
        proof {
            reveal(ArpEthIpv4::read);
            reveal(ArpEthIpv4::readable);
            reveal(ArpEthIpv4::wire);
        }
        push_u16(out, self.htype);
        push_u16(out, self.ptype);
        out.push(self.hlen);
        out.push(self.plen);
        push_u16(
            out,
            match self.op {
                ArpOp::Request => 1,
                ArpOp::Reply => 2,
            },
        );
        push_u48(out, self.sha.value());
        push_u32(out, self.spa.inner);
        push_u48(out, self.tha.value());
        push_u32(out, self.tpa.inner);
        assert(out@ =~= old(out)@ + self.wire());
    }

    /// The bytes of the packet.
    pub fn as_bytes(&self) -> (r: Vec<u8>)
        ensures
            r@ == self.wire(),
    {
        let mut out: Vec<u8> = Vec::new();
        self.emit(&mut out);
        assert(out@ =~= self.wire());
        out
    }
}

/// The ARP reply that tells the host at (`tha`, `tpa`) that `spa` is at `sha`.
pub open spec fn arp_reply(sha: MacAddr, spa: Ipv4Addr, tha: MacAddr, tpa: Ipv4Addr) -> ArpEthIpv4 {
    ArpEthIpv4 {
        htype: ARP_HTYPE_ETHER,
        ptype: ETHER_TYPE_IPV4,
        hlen: 6,
        plen: 4,
        op: ArpOp::Reply,
        sha,
        spa,
        tha,
        tpa,
    }
}

/// The bytes of the Ethernet frame that carries [`arp_reply`] from `sha` to `tha`.
pub open spec fn arp_reply_frame(sha: MacAddr, spa: Ipv4Addr, tha: MacAddr, tpa: Ipv4Addr) -> Seq<u8> {
    (EtherMeta { dst: tha, src: sha, ether_type: EtherType::Arp }).wire() + arp_reply(sha, spa, tha, tpa).wire()
}

/// Builds the bytes of an ARP reply frame: `spa` is at `sha`, told to (`tha`, `tpa`).
pub fn gen_arp_reply_bytes(sha: MacAddr, spa: Ipv4Addr, tha: MacAddr, tpa: Ipv4Addr) -> (r: Vec<u8>)
    ensures
        r@ == arp_reply_frame(sha, spa, tha, tpa),
{
    let eth = EtherMeta { dst: tha, src: sha, ether_type: EtherType::Arp };
    let arp = ArpEthIpv4 {
        htype: ARP_HTYPE_ETHER,
        ptype: ETHER_TYPE_IPV4,
        hlen: 6,
        plen: 4,
        op: ArpOp::Reply,
        sha,
        spa,
        tha,
        tpa,
    };
    let mut out: Vec<u8> = Vec::new();
    eth.emit(&mut out);
    arp.emit(&mut out);
    assert(out@ =~= arp_reply_frame(sha, spa, tha, tpa));
    out
}

/// Builds an ARP reply as a packet of one segment: `spa` is at `sha`, told to (`tha`, `tpa`).
pub fn gen_arp_reply(sha: MacAddr, spa: Ipv4Addr, tha: MacAddr, tpa: Ipv4Addr) -> (r: crate::packet::Packet)
    ensures
        r@ == arp_reply_frame(sha, spa, tha, tpa),
        r.seg_ends@.len() == 1,
        r.wf(),
{
    let bytes = gen_arp_reply_bytes(sha, spa, tha, tpa);
    crate::packet::Packet::copy(bytes.as_slice())
}

} // verus!
