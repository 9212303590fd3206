//! The TCP header.

use crate::checksum::ones_neg;
use crate::checksum::Checksum;
use crate::headers::HdrError;
use crate::headers::TcpMeta;
use crate::wire::be_u16;
use crate::wire::be_u32;
use crate::wire::push_u16;
use crate::wire::push_u32;
use crate::wire::read_u16;
use crate::wire::read_u32;
use crate::wire::u16_bytes;
use crate::wire::u32_bytes;
use vstd::prelude::*;

verus! {

/// The length of a TCP header without options.
pub const TCP_HDR_SZ: usize = 20;

/// The flag bits of a TCP header.
pub struct TcpFlags {}

impl TcpFlags {
    pub const FIN: u8 = 0x01;

    pub const SYN: u8 = 0x02;

    pub const RST: u8 = 0x04;

    pub const PSH: u8 = 0x08;

    pub const ACK: u8 = 0x10;
}

/// A TCP header. Its options stay in the packet's bytes; the header keeps their length and
/// the sum of their words.
#[derive(Clone, Copy, Debug, PartialEq, Eq, Structural)]
pub struct TcpHdr {
    pub src: u16,
    pub dst: u16,
    pub seq: u32,
    pub ack: u32,
    /// The length of the header in bytes, options included: a multiple of four from 20 to 60.
    pub hdr_len: u8,
    /// The four bits after the data offset.
    pub rsvd: u8,
    pub flags: u8,
    pub win: u16,
    pub csum: u16,
    pub urg: u16,
    /// The sum of the words of the options.
    pub opt_csum: Checksum,
}

impl TcpHdr {
    /// The header length fits the data offset field, and the reserved bits are four.
    pub open spec fn wf(self) -> bool {
        &&& TCP_HDR_SZ <= self.hdr_len <= 60
        &&& self.hdr_len % 4 == 0
        &&& self.rsvd < 16
    }

    /// The length of the header that the bytes of `b` from `at` on state, in bytes.
    pub open spec fn stated_len(b: Seq<u8>, at: int) -> int {
        (b[at + 12] / 16) * 4
    }

    /// Whether the bytes of `b` from `at` on hold a header that is accepted, and if not,
    /// why: too few bytes, or a data offset below the fixed header.
    #[verifier::opaque]
    pub open spec fn check(b: Seq<u8>, at: int) -> Result<(), HdrError> {
        if b.len() - at < TCP_HDR_SZ {
            Err(HdrError::Truncated)
        } else if TcpHdr::stated_len(b, at) < TCP_HDR_SZ {
            Err(HdrError::BadHeaderLen { hdr_len_bytes: TcpHdr::stated_len(b, at) as u16 })
        } else if b.len() - at < TcpHdr::stated_len(b, at) {
            Err(HdrError::Truncated)
        } else {
            Ok(())
        }
    }

    /// The header that the bytes of `b` from `at` on write.
    #[verifier::opaque]
    pub open spec fn read(b: Seq<u8>, at: int) -> TcpHdr {
        TcpHdr {
            src: be_u16(b, at),
            dst: be_u16(b, at + 2),
            seq: be_u32(b, at + 4),
            ack: be_u32(b, at + 8),
            hdr_len: TcpHdr::stated_len(b, at) as u8,
            rsvd: b[at + 12] % 16,
            flags: b[at + 13],
            win: be_u16(b, at + 14),
            csum: be_u16(b, at + 16),
            urg: be_u16(b, at + 18),
            opt_csum: Checksum::of(b.subrange(at + TCP_HDR_SZ, at + TcpHdr::stated_len(b, at))),
        }
    }

    /// The length of the header in bytes.
    pub open spec fn spec_hdr_len(self) -> nat {
        self.hdr_len as nat
    }

    /// The first twenty bytes of the header, with `csum` in the checksum field.
    #[verifier::opaque]
    pub open spec fn wire_with(self, csum: u16) -> Seq<u8> {
        u16_bytes(self.src) + u16_bytes(self.dst) + u32_bytes(self.seq) + u32_bytes(self.ack) + seq![
            ((self.hdr_len / 4) * 16 + self.rsvd) as u8,
            self.flags,
        ] + u16_bytes(self.win) + u16_bytes(csum) + u16_bytes(self.urg)
    }

    /// The first twenty bytes of the header: all of it where it has no options.
    pub open spec fn wire(self) -> Seq<u8> {
        self.wire_with(self.csum)
    }

    /// What the engine keeps of the header.
    pub open spec fn spec_meta(self) -> TcpMeta {
        TcpMeta { src: self.src, dst: self.dst, flags: self.flags, seq: self.seq, ack: self.ack }
    }

    /// The sum of the words of the header, options included, with `csum` in the checksum
    /// field.
    #[verifier::opaque]
    pub open spec fn spec_hdr_sum(self, csum: u16) -> Checksum {
        Checksum::of(self.wire_with(csum)).spec_add(self.opt_csum)
    }

    /// The sum that the checksum field stands for, less the words of the header itself:
    /// what the pseudo-header and the body add up to in a segment whose checksum is right.
    pub open spec fn spec_csum_minus_hdr(self) -> Checksum {
        (Checksum { inner: ones_neg(self.csum) }).spec_sub(self.spec_hdr_sum(0))
    }

    /// A header without options from port `src` to port `dst`, all else zero.
    pub fn new(src: u16, dst: u16) -> (r: TcpHdr)
        ensures
            r == (TcpHdr {
                src,
                dst,
                seq: 0,
                ack: 0,
                hdr_len: 20,
                rsvd: 0,
                flags: 0,
                win: 0,
                csum: 0,
                urg: 0,
                opt_csum: Checksum { inner: 0 },
            }),
            r.wf(),
    {
        TcpHdr {
            src,
            dst,
            seq: 0,
            ack: 0,
            hdr_len: 20,
            rsvd: 0,
            flags: 0,
            win: 0,
            csum: 0,
            urg: 0,
            opt_csum: Checksum { inner: 0 },
        }
    }

    /// Sets the flag bits.
    pub fn set_flags(&mut self, flags: u8)
        ensures
            *final(self) == (TcpHdr { flags, ..*old(self) }),
    {
        self.flags = flags;
    }

    /// Sets the sequence number.
    pub fn set_seq(&mut self, seq: u32)
        ensures
            *final(self) == (TcpHdr { seq, ..*old(self) }),
    {
        self.seq = seq;
    }

    /// Sets the checksum field.
    pub fn set_csum(&mut self, csum: u16)
        ensures
            *final(self) == (TcpHdr { csum, ..*old(self) }),
    {
        self.csum = csum;
    }

    /// The length of the header in bytes.
    pub fn hdr_len(&self) -> (r: usize)
        ensures
            r == self.spec_hdr_len(),
    {
        self.hdr_len as usize
    }

    /// Reads the header at `at`.
    pub fn parse(b: &[u8], at: usize) -> (r: Result<TcpHdr, HdrError>)
        requires
            at <= b.len(),
        ensures
            match r {
                Ok(h) => TcpHdr::check(b@, at as int) is Ok && h == TcpHdr::read(b@, at as int) && h.wf()
                    && b.len() - at >= h.hdr_len,
                Err(e) => TcpHdr::check(b@, at as int) == Err::<(), HdrError>(e),
            },
    {
        proof {
            reveal(TcpHdr::check);
            reveal(TcpHdr::read);
            reveal(TcpHdr::wire_with);
            reveal(TcpHdr::spec_hdr_sum);
        }
        if b.len() - at < TCP_HDR_SZ {
            return Err(HdrError::Truncated);
        }
        let off = b[at + 12];
        let hdr_len: u8 = (off / 16) * 4;
        if hdr_len < 20 {
            return Err(HdrError::BadHeaderLen { hdr_len_bytes: hdr_len as u16 });
        }
        if b.len() - at < hdr_len as usize {
            return Err(HdrError::Truncated);
        }
        Ok(
            TcpHdr {
                src: read_u16(b, at),
                dst: read_u16(b, at + 2),
                seq: read_u32(b, at + 4),
                ack: read_u32(b, at + 8),
                hdr_len,
                rsvd: off % 16,
                flags: b[at + 13],
                win: read_u16(b, at + 14),
                csum: read_u16(b, at + 16),
                urg: read_u16(b, at + 18),
                opt_csum: Checksum::compute_range(b, at + TCP_HDR_SZ, at + hdr_len as usize),
            },
        )
    }

    /// Appends the first twenty bytes of the header to `out`, with `csum` in the checksum
    /// field.
    pub fn emit_with(&self, out: &mut Vec<u8>, csum: u16)
        requires
            self.wf(),
        ensures
            final(out)@ == old(out)@ + self.wire_with(csum),
    {
        proof {
            reveal(TcpHdr::check);
            reveal(TcpHdr::read);
            reveal(TcpHdr::wire_with);
            reveal(TcpHdr::spec_hdr_sum);
        }
        push_u16(out, self.src);
        push_u16(out, self.dst);
        push_u32(out, self.seq);
        push_u32(out, self.ack);
        out.push((self.hdr_len / 4) * 16 + self.rsvd);
        out.push(self.flags);
        push_u16(out, self.win);
        push_u16(out, csum);
        push_u16(out, self.urg);
        assert(out@ =~= old(out)@ + self.wire_with(csum));
    }

    /// The first twenty bytes of the header.
    pub fn as_bytes(&self) -> (r: Vec<u8>)
        requires
            self.wf(),
        ensures
            r@ == self.wire(),
    {
        let mut out: Vec<u8> = Vec::new();
        self.emit_with(&mut out, self.csum);
        assert(out@ =~= self.wire());
        out
    }

    /// What the engine keeps of the header.
    pub fn meta(&self) -> (r: TcpMeta)
        ensures
            r == self.spec_meta(),
    {
        TcpMeta { src: self.src, dst: self.dst, flags: self.flags, seq: self.seq, ack: self.ack }
    }

    /// The sum of the words of the header, options included, with `csum` in the checksum
    /// field.
    pub fn hdr_sum(&self, csum: u16) -> (r: Checksum)
        requires
            self.wf(),
        ensures
            r == self.spec_hdr_sum(csum),
    {
        proof {
            reveal(TcpHdr::check);
            reveal(TcpHdr::read);
            reveal(TcpHdr::wire_with);
            reveal(TcpHdr::spec_hdr_sum);
        }
        let mut tmp: Vec<u8> = Vec::new();
        self.emit_with(&mut tmp, csum);
        assert(tmp@ =~= self.wire_with(csum));
        Checksum::compute(tmp.as_slice()).add(self.opt_csum)
    }

    /// The sum that the checksum field stands for, less the words of the header itself.
    pub fn csum_minus_hdr(&self) -> (r: Option<Checksum>)
        requires
            self.wf(),
        ensures
            r == Some(self.spec_csum_minus_hdr()),
    {
        Some(Checksum::from_field(self.csum).sub(self.hdr_sum(0)))
    }
}

impl TcpHdr {
    /// The header takes 20 bytes on the wire.
    pub proof fn lemma_wire_len(self, csum: u16)
        ensures
            self.wire_with(csum).len() == 20,
    {
        reveal(TcpHdr::wire_with);
    }
}

} // verus!
