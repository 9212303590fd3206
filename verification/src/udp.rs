//! The UDP header.

use crate::checksum::ones_neg;
use crate::checksum::Checksum;
use crate::headers::HdrError;
use crate::headers::UdpMeta;
use crate::wire::be_u16;
use crate::wire::push_u16;
use crate::wire::read_u16;
use crate::wire::u16_bytes;
use vstd::prelude::*;

verus! {

/// The length of a UDP header.
pub const UDP_HDR_SZ: usize = 8;

/// A UDP header.
#[derive(Clone, Copy, Debug, PartialEq, Eq, Structural)]
pub struct UdpHdr {
    pub src: u16,
    pub dst: u16,
    pub length: u16,
    pub csum: u16,
}

impl UdpHdr {
    /// Whether the bytes of `b` from `at` on hold a header that is accepted, and if not,
    /// why: too few bytes, or a length below the header's.
    #[verifier::opaque]
    pub open spec fn check(b: Seq<u8>, at: int) -> Result<(), HdrError> {
        if b.len() - at < UDP_HDR_SZ {
            Err(HdrError::Truncated)
        } else if be_u16(b, at + 4) < UDP_HDR_SZ {
            Err(HdrError::BadLength { length: be_u16(b, at + 4) })
        } else {
            Ok(())
        }
    }

    /// The eight bytes of the header, with `csum` in the checksum field.
    #[verifier::opaque]
    pub open spec fn wire_with(self, csum: u16) -> Seq<u8> {
        u16_bytes(self.src) + u16_bytes(self.dst) + u16_bytes(self.length) + u16_bytes(csum)
    }

    /// The eight bytes of the header.
    pub open spec fn wire(self) -> Seq<u8> {
        self.wire_with(self.csum)
    }

    /// What the engine keeps of the header.
    pub open spec fn spec_meta(self) -> UdpMeta {
        UdpMeta { src: self.src, dst: self.dst }
    }

    /// A header without payload and without checksum for the ports of `meta`.
    pub open spec fn spec_from_meta(meta: UdpMeta) -> UdpHdr {
        UdpHdr { src: meta.src, dst: meta.dst, length: UDP_HDR_SZ as u16, csum: 0 }
    }

    /// The sum of the words of the header, with `csum` in the checksum field.
    #[verifier::opaque]
    pub open spec fn spec_hdr_sum(self, csum: u16) -> Checksum {
        Checksum::of(self.wire_with(csum))
    }

    /// The sum that the checksum field stands for, less the words of the header itself;
    /// none where the field is zero, which says that the datagram has no checksum.
    pub open spec fn spec_csum_minus_hdr(self) -> Option<Checksum> {
        if self.csum == 0 {
            None
        } else {
            Some((Checksum { inner: ones_neg(self.csum) }).spec_sub(self.spec_hdr_sum(0)))
        }
    }

    /// The header that the eight bytes of `b` from `at` on write.
    #[verifier::opaque]
    pub open spec fn read(b: Seq<u8>, at: int) -> UdpHdr {
        UdpHdr { src: be_u16(b, at), dst: be_u16(b, at + 2), length: be_u16(b, at + 4), csum: be_u16(b, at + 6) }
    }

    /// Reads the header at `at`.
    pub fn parse(b: &[u8], at: usize) -> (r: Result<UdpHdr, HdrError>)
        requires
            at <= b.len(),
        ensures
            match r {
                Ok(h) => UdpHdr::check(b@, at as int) is Ok && h == UdpHdr::read(b@, at as int) && b.len() - at
                    >= UDP_HDR_SZ && h.length >= UDP_HDR_SZ,
                Err(e) => UdpHdr::check(b@, at as int) == Err::<(), HdrError>(e),
            },
    {
        proof {
            reveal(UdpHdr::check);
            reveal(UdpHdr::read);
            reveal(UdpHdr::wire_with);
            reveal(UdpHdr::spec_hdr_sum);
        }
        if b.len() - at < UDP_HDR_SZ {
            return Err(HdrError::Truncated);
        }
        let length = read_u16(b, at + 4);
        if length < 8 {
            return Err(HdrError::BadLength { length });
        }
        Ok(UdpHdr { src: read_u16(b, at), dst: read_u16(b, at + 2), length, csum: read_u16(b, at + 6) })
    }

    /// Appends the bytes of the header to `out`, with `csum` in the checksum field.
    pub fn emit_with(&self, out: &mut Vec<u8>, csum: u16)
        ensures
            final(out)@ == old(out)@ + self.wire_with(csum),
    {
        proof {
            reveal(UdpHdr::check);
            reveal(UdpHdr::read);
            reveal(UdpHdr::wire_with);
            reveal(UdpHdr::spec_hdr_sum);
        }
        push_u16(out, self.src);
        push_u16(out, self.dst);
        push_u16(out, self.length);
        push_u16(out, csum);
        assert(out@ =~= old(out)@ + self.wire_with(csum));
    }

    /// The bytes of the header.
    pub fn as_bytes(&self) -> (r: Vec<u8>)
        ensures
            r@ == self.wire(),
    {
        let mut out: Vec<u8> = Vec::new();
        self.emit_with(&mut out, self.csum);
        assert(out@ =~= self.wire());
        out
    }

    /// What the engine keeps of the header.
    pub fn meta(&self) -> (r: UdpMeta)
        ensures
            r == self.spec_meta(),
    {
        UdpMeta { src: self.src, dst: self.dst }
    }

    /// A header without payload and without checksum for the ports of `meta`.
    pub fn from_meta(meta: &UdpMeta) -> (r: UdpHdr)
        ensures
            r == UdpHdr::spec_from_meta(*meta),
    {
        UdpHdr { src: meta.src, dst: meta.dst, length: 8, csum: 0 }
    }

    /// The sum of the words of the header, with `csum` in the checksum field.
    pub fn hdr_sum(&self, csum: u16) -> (r: Checksum)
        ensures
            r == self.spec_hdr_sum(csum),
    {
        proof {
            reveal(UdpHdr::check);
            reveal(UdpHdr::read);
            reveal(UdpHdr::wire_with);
            reveal(UdpHdr::spec_hdr_sum);
        }
        let mut tmp: Vec<u8> = Vec::new();
        self.emit_with(&mut tmp, csum);
        assert(tmp@ =~= self.wire_with(csum));
        Checksum::compute(tmp.as_slice())
    }

    /// The sum that the checksum field stands for, less the words of the header itself.
    pub fn csum_minus_hdr(&self) -> (r: Option<Checksum>)
        ensures
            r == self.spec_csum_minus_hdr(),
    {
        if self.csum == 0 {
            return None;
        }
        Some(Checksum::from_field(self.csum).sub(self.hdr_sum(0)))
    }
}

impl UdpHdr {
    /// The header takes 8 bytes on the wire.
    pub proof fn lemma_wire_len(self, csum: u16)
        ensures
            self.wire_with(csum).len() == 8,
    {
        reveal(UdpHdr::wire_with);
    }
}

} // verus!
