//! The IPv4 header (without options).

use crate::addr::Ipv4Addr;
use crate::checksum::ones_neg;
use crate::checksum::Checksum;
use crate::headers::HdrError;
use crate::headers::Ipv4Meta;
use crate::headers::Protocol;
use crate::tcp::TcpHdr;
use crate::wire::be_u16;
use crate::wire::be_u32;
use crate::wire::push_u16;
use crate::wire::push_u32;
use crate::wire::read_u16;
use crate::wire::read_u32;
use crate::wire::u16_bytes;
use crate::wire::u32_bytes;
use vstd::prelude::*;

verus! {

/// The length of an IPv4 header without options.
pub const IPV4_HDR_SZ: usize = 20;

/// The time to live that headers made here start with.
pub const IPV4_DEF_TTL: u8 = 64;

/// How much of a transport checksum to compute.
#[derive(Clone, Copy, Debug, PartialEq, Eq, Structural)]
pub enum UlpCsumOpt {
    /// The pseudo-header only.
    Partial,
    /// The pseudo-header, the transport header and the body.
    Full,
}

/// An IPv4 header of twenty bytes.
#[derive(Clone, Copy, Debug, PartialEq, Eq, Structural)]
pub struct Ipv4Hdr {
    pub dscp_ecn: u8,
    pub total_len: u16,
    pub ident: u16,
    pub frag: u16,
    pub ttl: u8,
    pub proto: Protocol,
    pub csum: u16,
    pub src: Ipv4Addr,
    pub dst: Ipv4Addr,
}

impl Ipv4Hdr {
    /// Whether the bytes of `b` from `at` on hold a header that is accepted, and if not,
    /// why: too few bytes, another version, a length other than twenty bytes, or a total
    /// length below the header's.
    #[verifier::opaque]
    pub open spec fn check(b: Seq<u8>, at: int) -> Result<(), HdrError> {
        if b.len() - at < IPV4_HDR_SZ {
            Err(HdrError::Truncated)
        } else if b[at] / 16 != 4 {
            Err(HdrError::BadVersion { vsn: b[at] / 16 })
        } else if b[at] % 16 != 5 {
            Err(HdrError::BadHeaderLen { hdr_len_bytes: ((b[at] % 16) * 4) as u16 })
        } else if be_u16(b, at + 2) < IPV4_HDR_SZ {
            Err(HdrError::BadTotalLen { total_len: be_u16(b, at + 2) })
        } else {
            Ok(())
        }
    }

    /// The header that the twenty bytes of `b` from `at` on write.
    #[verifier::opaque]
    pub open spec fn read(b: Seq<u8>, at: int) -> Ipv4Hdr {
        Ipv4Hdr {
            dscp_ecn: b[at + 1],
            total_len: be_u16(b, at + 2),
            ident: be_u16(b, at + 4),
            frag: be_u16(b, at + 6),
            ttl: b[at + 8],
            proto: Protocol::of(b[at + 9]),
            csum: be_u16(b, at + 10),
            src: Ipv4Addr { inner: be_u32(b, at + 12) },
            dst: Ipv4Addr { inner: be_u32(b, at + 16) },
        }
    }

    /// The twenty bytes of the header, with `csum` in the checksum field.
    #[verifier::opaque]
    pub open spec fn wire_with(self, csum: u16) -> Seq<u8> {
        seq![0x45u8, self.dscp_ecn] + u16_bytes(self.total_len) + u16_bytes(self.ident) + u16_bytes(
            self.frag,
        ) + seq![self.ttl, self.proto.number()] + u16_bytes(csum) + u32_bytes(self.src@) + u32_bytes(
            self.dst@,
        )
    }

    /// The twenty bytes of the header.
    pub open spec fn wire(self) -> Seq<u8> {
        self.wire_with(self.csum)
    }

    /// The number of bytes that follow the header, as the total length states it.
    pub open spec fn spec_ulp_len(self) -> u16 {
        if self.total_len >= IPV4_HDR_SZ {
            (self.total_len - IPV4_HDR_SZ) as u16
        } else {
            0
        }
    }

    /// The sum of the pseudo-header that transport checksums cover: both addresses, the
    /// protocol number and the transport length.
    #[verifier::opaque]
    pub open spec fn spec_pseudo_csum(self) -> Checksum {
        (Checksum { inner: 0 }).spec_add_u32(self.src@).spec_add_u32(self.dst@).spec_add_u16(
            self.proto.number() as u16,
        ).spec_add_u16(self.spec_ulp_len())
    }

    /// The header checksum that fits the other fields.
    #[verifier::opaque]
    pub open spec fn spec_hdr_csum(self) -> u16 {
        ones_neg(Checksum::of(self.wire_with(0))@)
    }

    /// What the engine keeps of the header.
    pub open spec fn spec_meta(self) -> Ipv4Meta {
        Ipv4Meta { src: self.src, dst: self.dst, proto: self.proto }
    }

    /// A header without payload for the addresses and the protocol of `meta`.
    pub open spec fn spec_from_meta(meta: Ipv4Meta) -> Ipv4Hdr {
        Ipv4Hdr {
            dscp_ecn: 0,
            total_len: IPV4_HDR_SZ as u16,
            ident: 0,
            frag: 0x4000,
            ttl: IPV4_DEF_TTL,
            proto: meta.proto,
            csum: 0,
            src: meta.src,
            dst: meta.dst,
        }
    }

    /// Reads the header at `at`.
    pub fn parse(b: &[u8], at: usize) -> (r: Result<Ipv4Hdr, HdrError>)
        requires
            at <= b.len(),
        ensures
            match r {
                Ok(h) => Ipv4Hdr::check(b@, at as int) is Ok && h == Ipv4Hdr::read(b@, at as int) && b.len() - at
                    >= IPV4_HDR_SZ && h.total_len >= IPV4_HDR_SZ,
                Err(e) => Ipv4Hdr::check(b@, at as int) == Err::<(), HdrError>(e),
            },
    {
        proof {
            reveal(Ipv4Hdr::check);
            reveal(Ipv4Hdr::read);
            reveal(Ipv4Hdr::wire_with);
            reveal(Ipv4Hdr::spec_pseudo_csum);
            reveal(Ipv4Hdr::spec_hdr_csum);
        }
        if b.len() - at < IPV4_HDR_SZ {
            return Err(HdrError::Truncated);
        }
        let b0 = b[at];
        if b0 / 16 != 4 {
            return Err(HdrError::BadVersion { vsn: b0 / 16 });
        }
        if b0 % 16 != 5 {
            return Err(HdrError::BadHeaderLen { hdr_len_bytes: ((b0 % 16) * 4) as u16 });
        }
        let total_len = read_u16(b, at + 2);
        if total_len < 20 {
            return Err(HdrError::BadTotalLen { total_len });
        }
        Ok(
            Ipv4Hdr {
                dscp_ecn: b[at + 1],
                total_len,
                ident: read_u16(b, at + 4),
                frag: read_u16(b, at + 6),
                ttl: b[at + 8],
                proto: Protocol::from_u8(b[at + 9]),
                csum: read_u16(b, at + 10),
                src: Ipv4Addr { inner: read_u32(b, at + 12) },
                dst: Ipv4Addr { inner: read_u32(b, at + 16) },
            },
        )
    }

    /// Appends the bytes of the header to `out`, with `csum` in the checksum field.
    pub fn emit_with(&self, out: &mut Vec<u8>, csum: u16)
        ensures
            final(out)@ == old(out)@ + self.wire_with(csum),
    {
        proof {
            reveal(Ipv4Hdr::check);
            reveal(Ipv4Hdr::read);
            reveal(Ipv4Hdr::wire_with);
            reveal(Ipv4Hdr::spec_pseudo_csum);
            reveal(Ipv4Hdr::spec_hdr_csum);
        }
        out.push(0x45);
        out.push(self.dscp_ecn);
        push_u16(out, self.total_len);
        push_u16(out, self.ident);
        push_u16(out, self.frag);
        out.push(self.ttl);
        out.push(self.proto.to_u8());
        push_u16(out, csum);
        push_u32(out, self.src.inner);
        push_u32(out, self.dst.inner);
        assert(out@ =~= old(out)@ + self.wire_with(csum));
    }

    /// Appends the bytes of the header to `out`.
    pub fn emit(&self, out: &mut Vec<u8>)
        ensures
            final(out)@ == old(out)@ + self.wire(),
    {
        self.emit_with(out, self.csum);
    }

    /// The bytes of the header.
    pub fn as_bytes(&self) -> (r: Vec<u8>)
        ensures
            r@ == self.wire(),
    {
        let mut out: Vec<u8> = Vec::new();
        self.emit(&mut out);
        assert(out@ =~= self.wire());
        out
    }

    /// What the engine keeps of the header.
    pub fn meta(&self) -> (r: Ipv4Meta)
        ensures
            r == self.spec_meta(),
    {
        Ipv4Meta { src: self.src, dst: self.dst, proto: self.proto }
    }

    /// A header without payload for the addresses and the protocol of `meta`.
    pub fn from_meta(meta: &Ipv4Meta) -> (r: Ipv4Hdr)
        ensures
            r == Ipv4Hdr::spec_from_meta(*meta),
    {
        Ipv4Hdr {
            dscp_ecn: 0,
            total_len: 20,
            ident: 0,
            frag: 0x4000,
            ttl: IPV4_DEF_TTL,
            proto: meta.proto,
            csum: 0,
            src: meta.src,
            dst: meta.dst,
        }
    }

    /// A header for the TCP segment made of `tcp` and `body`; none where the whole does not
    /// fit the 16-bit total length.
    pub fn new_tcp(tcp: &TcpHdr, body: &[u8], src: Ipv4Addr, dst: Ipv4Addr) -> (r: Option<Ipv4Hdr>)
        ensures
            match r {
                Some(h) => IPV4_HDR_SZ + tcp.spec_hdr_len() + body@.len() <= 0xFFFF && h == (Ipv4Hdr {
                    total_len: (IPV4_HDR_SZ + tcp.spec_hdr_len() + body@.len()) as u16,
                    ..Ipv4Hdr::spec_from_meta(Ipv4Meta { src, dst, proto: Protocol::TCP })
                }),
                None => IPV4_HDR_SZ + tcp.spec_hdr_len() + body@.len() > 0xFFFF,
            },
    {
        let hl = tcp.hdr_len();
        if body.len() > 0xFFFF - 20 - hl {
            return None;
        }
        let mut h = Ipv4Hdr::from_meta(&Ipv4Meta { src, dst, proto: Protocol::TCP });
        h.total_len = (20 + hl + body.len()) as u16;
        Some(h)
    }

    /// The length of the header in bytes.
    pub fn hdr_len(&self) -> (r: usize)
        ensures
            r == IPV4_HDR_SZ,
    {
        IPV4_HDR_SZ
    }

    /// Sets the total length.
    pub fn set_total_len(&mut self, total_len: u16)
        ensures
            *final(self) == (Ipv4Hdr { total_len, ..*old(self) }),
    {
        self.total_len = total_len;
    }

    /// The number of bytes that follow the header, as the total length states it.
    pub fn ulp_len(&self) -> (r: u16)
        ensures
            r == self.spec_ulp_len(),
    {
        if self.total_len >= 20 {
            self.total_len - 20
        } else {
            0
        }
    }

    /// The sum of the pseudo-header that transport checksums cover.
    pub fn pseudo_csum(&self) -> (r: Checksum)
        ensures
            r == self.spec_pseudo_csum(),
    {
        proof {
            reveal(Ipv4Hdr::check);
            reveal(Ipv4Hdr::read);
            reveal(Ipv4Hdr::wire_with);
            reveal(Ipv4Hdr::spec_pseudo_csum);
            reveal(Ipv4Hdr::spec_hdr_csum);
        }
        Checksum::new().add_u32(self.src.inner).add_u32(self.dst.inner).add_u16(
            self.proto.to_u8() as u16,
        ).add_u16(self.ulp_len())
    }

    /// Sets the header checksum to the one that fits the other fields.
    pub fn compute_hdr_csum(&mut self)
        ensures
            *final(self) == (Ipv4Hdr { csum: old(self).spec_hdr_csum(), ..*old(self) }),
    {
        proof {
            reveal(Ipv4Hdr::check);
            reveal(Ipv4Hdr::read);
            reveal(Ipv4Hdr::wire_with);
            reveal(Ipv4Hdr::spec_pseudo_csum);
            reveal(Ipv4Hdr::spec_hdr_csum);
        }
        let mut tmp: Vec<u8> = Vec::new();
        self.emit_with(&mut tmp, 0);
        assert(tmp@ =~= self.wire_with(0));
        self.csum = Checksum::compute(tmp.as_slice()).finalize();
    }

    /// The sum that a transport checksum is the complement of: the pseudo-header, and with
    /// [`UlpCsumOpt::Full`] also the words of `ulp_hdr` and of `body`.
    pub open spec fn spec_ulp_csum(self, opt: UlpCsumOpt, ulp_hdr: Seq<u8>, body: Seq<u8>) -> Checksum {
        match opt {
            UlpCsumOpt::Partial => self.spec_pseudo_csum(),
            UlpCsumOpt::Full => self.spec_pseudo_csum().spec_add(Checksum::of(ulp_hdr)).spec_add(
                Checksum::of(body),
            ),
        }
    }

    /// The sum that a transport checksum is the complement of.
    pub fn compute_ulp_csum(&self, opt: UlpCsumOpt, ulp_hdr: &[u8], body: &[u8]) -> (r: Checksum)
        ensures
            r == self.spec_ulp_csum(opt, ulp_hdr@, body@),
    {
        match opt {
            UlpCsumOpt::Partial => self.pseudo_csum(),
            UlpCsumOpt::Full => self.pseudo_csum().add(Checksum::compute(ulp_hdr)).add(
                Checksum::compute(body),
            ),
        }
    }
}

impl Ipv4Hdr {
    /// The header takes 20 bytes on the wire.
    pub proof fn lemma_wire_len(self, csum: u16)
        ensures
            self.wire_with(csum).len() == 20,
    {
        reveal(Ipv4Hdr::wire_with);
    }
}

} // verus!
