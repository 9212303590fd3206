//! The IPv6 header (without extension headers).

use crate::addr::Ipv6Addr;
use crate::checksum::Checksum;
use crate::headers::HdrError;
use crate::headers::Ipv6Meta;
use crate::headers::Protocol;
use crate::wire::be_u128;
use crate::wire::be_u16;
use crate::wire::be_u32;
use crate::wire::push_u128;
use crate::wire::push_u16;
use crate::wire::push_u32;
use crate::wire::read_u128;
use crate::wire::read_u16;
use crate::wire::read_u32;
use crate::wire::u128_bytes;
use crate::wire::u16_bytes;
use crate::wire::u32_bytes;
use vstd::prelude::*;

verus! {

/// The length of an IPv6 header.
pub const IPV6_HDR_SZ: usize = 40;

/// The hop limit that headers made here start with.
pub const IPV6_DEF_HOP_LIMIT: u8 = 255;

/// An IPv6 header of forty bytes.
#[derive(Clone, Copy, Debug, PartialEq, Eq, Structural)]
pub struct Ipv6Hdr {
    /// Traffic class and flow label: the 28 bits after the version.
    pub tc_flow: u32,
    pub pay_len: u16,
    pub next_hdr: Protocol,
    pub hop_limit: u8,
    pub src: Ipv6Addr,
    pub dst: Ipv6Addr,
}

impl Ipv6Hdr {
    /// Traffic class and flow label take 28 bits.
    pub open spec fn wf(self) -> bool {
        self.tc_flow < 0x1000_0000
    }

    /// Whether the bytes of `b` from `at` on hold a header that is accepted, and if not,
    /// why: too few bytes, or another version.
    #[verifier::opaque]
    pub open spec fn check(b: Seq<u8>, at: int) -> Result<(), HdrError> {
        if b.len() - at < IPV6_HDR_SZ {
            Err(HdrError::Truncated)
        } else if b[at] / 16 != 6 {
            Err(HdrError::BadVersion { vsn: b[at] / 16 })
        } else {
            Ok(())
        }
    }

    /// The header that the forty bytes of `b` from `at` on write.
    #[verifier::opaque]
    pub open spec fn read(b: Seq<u8>, at: int) -> Ipv6Hdr {
        Ipv6Hdr {
            tc_flow: (be_u32(b, at) % 0x1000_0000) as u32,
            pay_len: be_u16(b, at + 4),
            next_hdr: Protocol::of(b[at + 6]),
            hop_limit: b[at + 7],
            src: Ipv6Addr { inner: be_u128(b, at + 8) },
            dst: Ipv6Addr { inner: be_u128(b, at + 24) },
        }
    }

    /// The forty bytes of the header.
    #[verifier::opaque]
    pub open spec fn wire(self) -> Seq<u8> {
        u32_bytes((0x6000_0000 + self.tc_flow) as u32) + u16_bytes(self.pay_len) + seq![
            self.next_hdr.number(),
            self.hop_limit,
        ] + u128_bytes(self.src@) + u128_bytes(self.dst@)
    }

    /// The sum of the pseudo-header that transport checksums cover: both addresses, the
    /// payload length and the protocol number.
    #[verifier::opaque]
    pub open spec fn spec_pseudo_csum(self) -> Checksum {
        (Checksum { inner: 0 }).spec_add_u128(self.src@).spec_add_u128(self.dst@).spec_add_u16(
            self.pay_len,
        ).spec_add_u16(self.next_hdr.number() as u16)
    }

    /// What the engine keeps of the header.
    pub open spec fn spec_meta(self) -> Ipv6Meta {
        Ipv6Meta { src: self.src, dst: self.dst, proto: self.next_hdr }
    }

    /// A header without payload for the addresses and the protocol of `meta`.
    pub open spec fn spec_from_meta(meta: Ipv6Meta) -> Ipv6Hdr {
        Ipv6Hdr {
            tc_flow: 0,
            pay_len: 0,
            next_hdr: meta.proto,
            hop_limit: IPV6_DEF_HOP_LIMIT,
            src: meta.src,
            dst: meta.dst,
        }
    }

    /// Reads the header at `at`.
    pub fn parse(b: &[u8], at: usize) -> (r: Result<Ipv6Hdr, HdrError>)
        requires
            at <= b.len(),
        ensures
            match r {
                Ok(h) => Ipv6Hdr::check(b@, at as int) is Ok && h == Ipv6Hdr::read(b@, at as int) && h.wf()
                    && b.len() - at >= IPV6_HDR_SZ,
                Err(e) => Ipv6Hdr::check(b@, at as int) == Err::<(), HdrError>(e),
            },
    {
        proof {
            reveal(Ipv6Hdr::check);
            reveal(Ipv6Hdr::read);
            reveal(Ipv6Hdr::wire);
            reveal(Ipv6Hdr::spec_pseudo_csum);
        }
        if b.len() - at < IPV6_HDR_SZ {
            return Err(HdrError::Truncated);
        }
        let b0 = b[at];
        if b0 / 16 != 6 {
            return Err(HdrError::BadVersion { vsn: b0 / 16 });
        }
        Ok(
            Ipv6Hdr {
                tc_flow: read_u32(b, at) % 0x1000_0000,
                pay_len: read_u16(b, at + 4),
                next_hdr: Protocol::from_u8(b[at + 6]),
                hop_limit: b[at + 7],
                src: Ipv6Addr { inner: read_u128(b, at + 8) },
                dst: Ipv6Addr { inner: read_u128(b, at + 24) },
            },
        )
    }

    /// Appends the bytes of the header to `out`.
    pub fn emit(&self, out: &mut Vec<u8>)
        requires
            self.wf(),
        ensures
            final(out)@ == old(out)@ + self.wire(),
    {
        proof {
            reveal(Ipv6Hdr::check);
            reveal(Ipv6Hdr::read);
            reveal(Ipv6Hdr::wire);
            reveal(Ipv6Hdr::spec_pseudo_csum);
        }
        push_u32(out, 0x6000_0000 + self.tc_flow);
        push_u16(out, self.pay_len);
        out.push(self.next_hdr.to_u8());
        out.push(self.hop_limit);
        push_u128(out, self.src.inner);
        push_u128(out, self.dst.inner);
        assert(out@ =~= old(out)@ + self.wire());
    }

    /// The bytes of the header.
    pub fn as_bytes(&self) -> (r: Vec<u8>)
        requires
            self.wf(),
        ensures
            r@ == self.wire(),
    {
        let mut out: Vec<u8> = Vec::new();
        self.emit(&mut out);
        assert(out@ =~= self.wire());
        out
    }

    /// What the engine keeps of the header.
    pub fn meta(&self) -> (r: Ipv6Meta)
        ensures
            r == self.spec_meta(),
    {
        Ipv6Meta { src: self.src, dst: self.dst, proto: self.next_hdr }
    }

    /// A header without payload for the addresses and the protocol of `meta`.
    pub fn from_meta(meta: &Ipv6Meta) -> (r: Ipv6Hdr)
        ensures
            r == Ipv6Hdr::spec_from_meta(*meta),
            r.wf(),
    {
        Ipv6Hdr {
            tc_flow: 0,
            pay_len: 0,
            next_hdr: meta.proto,
            hop_limit: IPV6_DEF_HOP_LIMIT,
            src: meta.src,
            dst: meta.dst,
        }
    }

    /// The sum of the pseudo-header that transport checksums cover.
    pub fn pseudo_csum(&self) -> (r: Checksum)
        ensures
            r == self.spec_pseudo_csum(),
    {
        proof {
            reveal(Ipv6Hdr::check);
            reveal(Ipv6Hdr::read);
            reveal(Ipv6Hdr::wire);
            reveal(Ipv6Hdr::spec_pseudo_csum);
        }
        Checksum::new().add_u128(self.src.inner).add_u128(self.dst.inner).add_u16(self.pay_len).add_u16(
            self.next_hdr.to_u8() as u16,
        )
    }
}

impl Ipv6Hdr {
    /// The header takes 40 bytes on the wire.
    pub proof fn lemma_wire_len(self)
        ensures
            self.wire().len() == 40,
    {
        reveal(Ipv6Hdr::wire);
    }
}

} // verus!
