//! The Geneve header.

use crate::encap::u32_from_be;
use crate::encap::vni_bytes;
use crate::encap::Vni;
use crate::ether::ETHER_TYPE_ETHER;
use crate::headers::GeneveMeta;
use crate::headers::HdrError;
use crate::wire::be_u16;
use crate::wire::read_u16;
use vstd::prelude::*;

verus! {

/// The UDP port of Geneve.
pub const GENEVE_PORT: u16 = 6081;

/// The length of a Geneve header without options.
pub const GENEVE_HDR_SZ: usize = 8;

/// A Geneve header that carries an Ethernet frame: version 0, no options written.
#[derive(Clone, Copy, Debug, PartialEq, Eq, Structural)]
pub struct GeneveHdr {
    pub vni: Vni,
}

impl GeneveHdr {
    /// The length of the header that the bytes of `b` from `at` on state, options included.
    #[verifier::opaque]
    pub open spec fn stated_len(b: Seq<u8>, at: int) -> int {
        GENEVE_HDR_SZ + (b[at] % 64) * 4
    }

    /// Whether the bytes of `b` from `at` on hold a header that is accepted, and if not,
    /// why: too few bytes, a version other than 0, or a payload other than Ethernet.
    #[verifier::opaque]
    pub open spec fn check(b: Seq<u8>, at: int) -> Result<(), HdrError> {
        if b.len() - at < GENEVE_HDR_SZ {
            Err(HdrError::Truncated)
        } else if b[at] / 64 != 0 {
            Err(HdrError::BadVersion { vsn: b[at] / 64 })
        } else if be_u16(b, at + 2) != ETHER_TYPE_ETHER {
            Err(HdrError::BadProtoType { proto_type: be_u16(b, at + 2) })
        } else if b.len() - at < GeneveHdr::stated_len(b, at) {
            Err(HdrError::Truncated)
        } else {
            Ok(())
        }
    }

    /// The identifier that the header at `at` carries.
    pub open spec fn read_vni(b: Seq<u8>, at: int) -> u32 {
        u32_from_be(0, b[at + 4], b[at + 5], b[at + 6])
    }

    /// The header that the bytes of `b` from `at` on write.
    #[verifier::opaque]
    pub open spec fn read(b: Seq<u8>, at: int) -> GeneveHdr {
        GeneveHdr { vni: Vni::of(GeneveHdr::read_vni(b, at)) }
    }

    /// The eight bytes of the header.
    #[verifier::opaque]
    pub open spec fn wire(self) -> Seq<u8> {
        seq![0u8, 0u8, 0x65u8, 0x58u8] + vni_bytes(self.vni@) + seq![0u8]
    }

    /// What the engine keeps of the header.
    pub open spec fn spec_meta(self) -> GeneveMeta {
        GeneveMeta { vni: self.vni }
    }

    /// Reads the header at `at`; with it comes its length in bytes, options included.
    pub fn parse(b: &[u8], at: usize) -> (r: Result<(GeneveHdr, usize), HdrError>)
        requires
            at <= b.len(),
        ensures
            match r {
                Ok((h, len)) => GeneveHdr::check(b@, at as int) is Ok && h == GeneveHdr::read(b@, at as int)
                    && len == GeneveHdr::stated_len(b@, at as int) && GENEVE_HDR_SZ <= len <= b.len() - at,
                Err(e) => GeneveHdr::check(b@, at as int) == Err::<(), HdrError>(e),
            },
    {
        proof {
            reveal(GeneveHdr::check);
            reveal(GeneveHdr::read);
            reveal(GeneveHdr::wire);
            reveal(GeneveHdr::stated_len);
        }
        if b.len() - at < GENEVE_HDR_SZ {
            return Err(HdrError::Truncated);
        }
        let b0 = b[at];
        if b0 / 64 != 0 {
            return Err(HdrError::BadVersion { vsn: b0 / 64 });
        }
        let proto = read_u16(b, at + 2);
        if proto != ETHER_TYPE_ETHER {
            return Err(HdrError::BadProtoType { proto_type: proto });
        }
        let len: usize = GENEVE_HDR_SZ + ((b0 % 64) as usize) * 4;
        if b.len() - at < len {
            return Err(HdrError::Truncated);
        }
        Ok((GeneveHdr { vni: Vni::from_wire(b[at + 4], b[at + 5], b[at + 6]) }, len))
    }

    /// Appends the bytes of the header to `out`.
    pub fn emit(&self, out: &mut Vec<u8>)
        ensures
            final(out)@ == old(out)@ + self.wire(),
    {
        proof {
            reveal(GeneveHdr::check);
            reveal(GeneveHdr::read);
            reveal(GeneveHdr::wire);
            reveal(GeneveHdr::stated_len);
        }
        out.push(0);
        out.push(0);
        out.push(0x65);
        out.push(0x58);
        let v = self.vni.bytes();
        out.push(v[0]);
        out.push(v[1]);
        out.push(v[2]);
        out.push(0);
        assert(out@ =~= old(out)@ + self.wire());
    }

    /// What the engine keeps of the header.
    pub fn meta(&self) -> (r: GeneveMeta)
        ensures
            r == self.spec_meta(),
    {
        GeneveMeta { vni: self.vni }
    }
}

impl GeneveHdr {
    /// The header takes 8 bytes on the wire.
    pub proof fn lemma_wire_len(self)
        ensures
            self.wire().len() == 8,
    {
        reveal(GeneveHdr::wire);
    }
}

} // verus!
