//! Parsed packets: the bytes, what the parser learned of them, and how the headers are
//! written again after the engine has changed them.

use crate::api::Direction;
use crate::checksum::ones_neg;
use crate::checksum::Checksum;
use crate::ether::EtherMeta;
use crate::ether::EtherType;
use crate::ether::ETHER_HDR_SZ;
use crate::geneve::GeneveHdr;
use crate::geneve::GENEVE_HDR_SZ;
use crate::geneve::GENEVE_PORT;
use crate::headers::IpMeta;
use crate::headers::Protocol;
use crate::headers::UlpMeta;
use crate::ip4::Ipv4Hdr;
use crate::ip4::IPV4_HDR_SZ;
use crate::ip6::Ipv6Hdr;
use crate::ip6::IPV6_DEF_HOP_LIMIT;
use crate::ip6::IPV6_HDR_SZ;
use crate::packet::extend_range;
use crate::packet::flat;
use crate::packet::off;
use crate::packet::seg_index;
use crate::packet::segs_wf;
use crate::packet::HdrOffset;
use crate::packet::HeaderOffsets;
use crate::packet::InnerFlowId;
use crate::packet::InnerOffsets;
use crate::packet::IpHdr;
use crate::packet::OuterMeta;
use crate::packet::OuterOffsets;
use crate::packet::Packet;
use crate::packet::PacketHdrs;
use crate::packet::PacketInfo;
use crate::packet::PacketMeta;
use crate::packet::PacketReader;
use crate::packet::ParseError;
use crate::packet::ParseErrorView;
use crate::packet::UlpHdr;
use crate::tcp::TcpHdr;
use crate::tcp::TCP_HDR_SZ;
use crate::udp::UdpHdr;
use crate::udp::UDP_HDR_SZ;
use crate::vpc::headers_end;
use crate::vpc::inbound_spec;
use crate::vpc::outbound_spec;
use crate::vpc::VpcParser;
use vstd::prelude::*;

verus! {

/// The UDP source port of the encapsulation where the metadata names none.
pub const GENEVE_SRC_PORT: u16 = 7777;

/// The bytes that the encapsulation adds in front of the UDP payload length: UDP and Geneve.
pub const ENCAP_PAYLOAD_OVERHEAD: usize = 16;

/// The longest body that a parsed packet can have: with it, the longest inner headers and
/// the encapsulation still fit the 16-bit length fields of the outer headers.
pub const MAX_BODY_LEN: usize = 65405;

/// A packet that has been parsed.
#[derive(Debug)]
pub struct ParsedPacket {
    pub bytes: Vec<u8>,
    /// For each segment, the position after its last byte.
    pub seg_ends: Vec<usize>,
    pub meta: PacketMeta,
    pub offsets: HeaderOffsets,
    pub hdrs: PacketHdrs,
    pub body_csum: Option<Checksum>,
    pub flow: InnerFlowId,
    /// The position of the first byte after the headers.
    pub body_offset: usize,
}

/// The error of an inner IP header whose length does not fit the packet, if `info` has one.
/// The payload that the header claims has to be what the packet holds after the header.
pub open spec fn inner_len_error(len: int, info: PacketInfo) -> Option<ParseErrorView> {
    match (info.hdrs.inner_ip, info.offsets.inner.ip) {
        (Some(IpHdr::Ip4(h)), Some(o)) => if len - o.end() != h.total_len - IPV4_HDR_SZ {
            Some(
                ParseErrorView::BadInnerIpLen {
                    expected: (len - o.end()) as usize,
                    actual: (h.total_len - IPV4_HDR_SZ) as usize,
                },
            )
        } else {
            None
        },
        (Some(IpHdr::Ip6(h)), Some(o)) => if len - o.end() != h.pay_len {
            Some(
                ParseErrorView::BadInnerIpLen { expected: (len - o.end()) as usize, actual: h.pay_len as usize },
            )
        } else {
            None
        },
        _ => None,
    }
}

/// What parsing the bytes `b` in direction `dir` gives: what the network parser reads, then
/// the check of the inner IP length, then the check that the body is no longer than
/// [`MAX_BODY_LEN`].
pub open spec fn parse_spec(b: Seq<u8>, dir: Direction, parser: VpcParser) -> Result<PacketInfo, ParseErrorView> {
    let r = match dir {
        Direction::Out => outbound_spec(b, 0),
        Direction::In => inbound_spec(b, 0, parser.proxy_arp_enable),
    };
    match r {
        Err(e) => Err(e),
        Ok(info) => match inner_len_error(b.len() as int, info) {
            Some(e) => Err(e),
            None => if b.len() - headers_end(info) > MAX_BODY_LEN {
                Err(
                    crate::packet::bad_header(
                        "Body"@,
                        crate::headers::HdrError::TooLong { length: (b.len() - headers_end(info)) as usize },
                    ),
                )
            } else {
                Ok(info)
            },
        },
    }
}

/// The header `hdr` with the addresses and the protocol of `meta`, and with the header
/// checksum that fits; a fresh header where `hdr` is of the other family or missing; none
/// where the metadata has none.
pub open spec fn unify_ip(hdr: Option<IpHdr>, meta: Option<IpMeta>) -> Option<IpHdr> {
    match meta {
        None => None,
        Some(IpMeta::Ip4(m)) => {
            let h = match hdr {
                Some(IpHdr::Ip4(h)) => Ipv4Hdr { src: m.src, dst: m.dst, proto: m.proto, ..h },
                _ => Ipv4Hdr::spec_from_meta(m),
            };
            Some(IpHdr::Ip4(Ipv4Hdr { csum: h.spec_hdr_csum(), ..h }))
        },
        Some(IpMeta::Ip6(m)) => Some(
            IpHdr::Ip6(
                match hdr {
                    Some(IpHdr::Ip6(h)) => Ipv6Hdr { src: m.src, dst: m.dst, next_hdr: m.proto, ..h },
                    _ => Ipv6Hdr::spec_from_meta(m),
                },
            ),
        ),
    }
}

/// The transport checksum after a change of headers: the complement of the body sum, the
/// new pseudo-header and the new header together. Without a body sum, or without an IP
/// header, the old checksum stays.
pub open spec fn new_ulp_csum(old_csum: u16, hdr_sum: Checksum, ip: Option<IpHdr>, body_csum: Option<Checksum>) -> u16 {
    match (ip, body_csum) {
        (Some(i), Some(bc)) => ones_neg(bc.spec_add(i.spec_pseudo_csum()).spec_add(hdr_sum)@),
        _ => old_csum,
    }
}

/// A UDP checksum as it is written: zero, which would say that there is none, becomes
/// `0xFFFF`.
pub open spec fn udp_csum_field(c: u16) -> u16 {
    if c == 0 {
        0xFFFF
    } else {
        c
    }
}

/// The header `hdr` with the ports of `meta` and with the checksum that fits the new
/// headers; a fresh header where `hdr` is of the other kind or missing; none where the
/// metadata has none.
pub open spec fn unify_ulp(
    hdr: Option<UlpHdr>,
    meta: Option<UlpMeta>,
    ip: Option<IpHdr>,
    body_csum: Option<Checksum>,
) -> Option<UlpHdr> {
    match meta {
        None => None,
        Some(UlpMeta::Tcp(m)) => {
            let h = match hdr {
                Some(UlpHdr::Tcp(h)) => TcpHdr { src: m.src, dst: m.dst, ..h },
                _ => TcpHdr {
                    src: m.src,
                    dst: m.dst,
                    seq: m.seq,
                    ack: m.ack,
                    hdr_len: TCP_HDR_SZ as u8,
                    rsvd: 0,
                    flags: m.flags,
                    win: 0,
                    csum: 0,
                    urg: 0,
                    opt_csum: Checksum { inner: 0 },
                },
            };
            Some(UlpHdr::Tcp(TcpHdr { csum: new_ulp_csum(h.csum, h.spec_hdr_sum(0), ip, body_csum), ..h }))
        },
        Some(UlpMeta::Udp(m)) => {
            let h = match hdr {
                Some(UlpHdr::Udp(h)) => UdpHdr { src: m.src, dst: m.dst, ..h },
                _ => UdpHdr::spec_from_meta(m),
            };
            Some(
                UlpHdr::Udp(
                    UdpHdr {
                        csum: match (ip, body_csum) {
                            (Some(_), Some(_)) => udp_csum_field(
                                new_ulp_csum(h.csum, h.spec_hdr_sum(0), ip, body_csum),
                            ),
                            _ => h.csum,
                        },
                        ..h
                    },
                ),
            )
        },
    }
}

/// True when the outer metadata describes a whole encapsulation: Ethernet, IPv6 and Geneve.
pub open spec fn has_encap(outer: OuterMeta) -> bool {
    &&& outer.ether is Some
    &&& outer.ip matches Some(IpMeta::Ip6(_))
    &&& outer.encap is Some
}

/// The UDP header of the encapsulation around `payload_len` bytes: the ports of the
/// metadata, or the usual ones where it names none; no checksum.
pub open spec fn encap_udp(outer: OuterMeta, payload_len: int) -> UdpHdr {
    UdpHdr {
        src: match outer.ulp {
            Some(u) => u.spec_src_port(),
            None => GENEVE_SRC_PORT,
        },
        dst: match outer.ulp {
            Some(u) => u.spec_dst_port(),
            None => GENEVE_PORT,
        },
        length: (ENCAP_PAYLOAD_OVERHEAD + payload_len) as u16,
        csum: 0,
    }
}

/// The IPv6 header of the encapsulation around `payload_len` bytes.
pub open spec fn encap_ip6(outer: OuterMeta, payload_len: int) -> Ipv6Hdr {
    Ipv6Hdr {
        tc_flow: 0,
        pay_len: (ENCAP_PAYLOAD_OVERHEAD + payload_len) as u16,
        next_hdr: Protocol::UDP,
        hop_limit: IPV6_DEF_HOP_LIMIT,
        src: outer.ip->Some_0->Ip6_0.src,
        dst: outer.ip->Some_0->Ip6_0.dst,
    }
}

/// The bytes of the encapsulation around `payload_len` bytes, where [`has_encap`] holds.
pub open spec fn encap_wire(outer: OuterMeta, payload_len: int) -> Seq<u8> {
    (EtherMeta { ether_type: EtherType::Ipv6, ..outer.ether->Some_0 }).wire() + encap_ip6(
        outer,
        payload_len,
    ).wire() + encap_udp(outer, payload_len).wire() + (GeneveHdr { vni: outer.encap->Some_0.vni }).wire()
}

impl ParsedPacket {
    /// The segment ends fit the bytes, the body starts within the packet and is no longer
    /// than [`MAX_BODY_LEN`], the headers kept in full are well formed, and the options of
    /// a TCP header lie where the offsets say.
    pub open spec fn wf(self) -> bool {
        &&& segs_wf(self.seg_ends@, self.bytes@.len() as int)
        &&& self.body_offset <= self.bytes@.len()
        &&& self.bytes@.len() - self.body_offset <= MAX_BODY_LEN
        &&& (self.hdrs.inner_ip matches Some(i) ==> i.wf())
        &&& (self.hdrs.inner_ulp matches Some(u) ==> u.wf())
        &&& (self.hdrs.inner_ulp matches Some(UlpHdr::Tcp(h)) ==> self.offsets.inner.ulp is Some
            && self.offsets.inner.ulp->Some_0.hdr_len == h.hdr_len && self.offsets.inner.ulp->Some_0.end()
            <= self.bytes@.len())
    }

    /// What the parser learned of the packet.
    pub open spec fn info(self) -> PacketInfo {
        PacketInfo { meta: self.meta, offsets: self.offsets, body_csum: self.body_csum, hdrs: self.hdrs }
    }

    /// The bytes after the headers.
    pub open spec fn body(self) -> Seq<u8> {
        self.bytes@.subrange(self.body_offset as int, self.bytes@.len() as int)
    }

    /// The option bytes of the inner TCP header; none where there is no such header.
    pub open spec fn tcp_options(self) -> Seq<u8> {
        match (self.hdrs.inner_ulp, self.offsets.inner.ulp) {
            (Some(UlpHdr::Tcp(h)), Some(o)) => self.bytes@.subrange(o.pkt_pos + TCP_HDR_SZ, o.pkt_pos + h.hdr_len),
            _ => Seq::empty(),
        }
    }

    /// The inner network-layer header as it is written for the present metadata.
    pub open spec fn new_ip(self) -> Option<IpHdr> {
        unify_ip(self.hdrs.inner_ip, self.meta.inner.ip)
    }

    /// The inner transport header as it is written for the present metadata.
    pub open spec fn new_ulp(self) -> Option<UlpHdr> {
        unify_ulp(self.hdrs.inner_ulp, self.meta.inner.ulp, self.new_ip(), self.body_csum)
    }

    /// The bytes of the inner Ethernet header for the present metadata.
    pub open spec fn new_ether_wire(self) -> Seq<u8> {
        match self.meta.inner.ether {
            Some(e) => e.wire(),
            None => Seq::empty(),
        }
    }

    /// The bytes of the inner network-layer header for the present metadata.
    pub open spec fn new_ip_wire(self) -> Seq<u8> {
        match self.new_ip() {
            Some(i) => i.wire(),
            None => Seq::empty(),
        }
    }

    /// The bytes of the inner transport header for the present metadata, options included.
    pub open spec fn new_ulp_wire(self) -> Seq<u8> {
        match self.new_ulp() {
            Some(UlpHdr::Tcp(h)) => h.wire() + self.tcp_options(),
            Some(UlpHdr::Udp(h)) => h.wire(),
            None => Seq::empty(),
        }
    }

    /// The bytes of the inner headers for the present metadata.
    pub open spec fn new_inner_wire(self) -> Seq<u8> {
        self.new_ether_wire() + self.new_ip_wire() + self.new_ulp_wire()
    }

    /// The number of bytes that an encapsulation of this packet would carry: the inner
    /// headers and the body.
    pub open spec fn encap_payload_len(self) -> int {
        (self.new_inner_wire().len() + self.body().len()) as int
    }

    /// The bytes of the outer headers for the present metadata.
    pub open spec fn new_outer_wire(self) -> Seq<u8> {
        if has_encap(self.meta.outer) {
            encap_wire(self.meta.outer, self.encap_payload_len())
        } else {
            Seq::empty()
        }
    }

    /// The bytes of all headers for the present metadata.
    pub open spec fn new_hdr_wire(self) -> Seq<u8> {
        self.new_outer_wire() + self.new_inner_wire()
    }

    /// The places of the outer headers once they are written for the present metadata.
    pub open spec fn new_outer_offsets(self) -> OuterOffsets {
        if has_encap(self.meta.outer) {
            OuterOffsets {
                ether: Some(off(0, ETHER_HDR_SZ as int)),
                ip: Some(off(ETHER_HDR_SZ as int, IPV6_HDR_SZ as int)),
                encap: Some(off((ETHER_HDR_SZ + IPV6_HDR_SZ) as int, (UDP_HDR_SZ + GENEVE_HDR_SZ) as int)),
            }
        } else {
            OuterOffsets { ether: None, ip: None, encap: None }
        }
    }

    /// The places of the inner headers once they are written for the present metadata.
    pub open spec fn new_inner_offsets(self) -> InnerOffsets {
        let start = self.new_outer_wire().len() as int;
        let e = self.new_ether_wire().len() as int;
        let i = self.new_ip_wire().len() as int;
        let u = self.new_ulp_wire().len() as int;
        InnerOffsets {
            ether: if self.meta.inner.ether is Some {
                Some(off(start, e))
            } else {
                None
            },
            ip: if self.new_ip() is Some {
                Some(off(start + e, i))
            } else {
                None
            },
            ulp: if self.new_ulp() is Some {
                Some(off(start + e + i, u))
            } else {
                None
            },
        }
    }

    /// True when `after` is this packet with its headers written anew for the present
    /// metadata: new header bytes in a segment of their own, then the body as it was.
    pub open spec fn emitted(self, after: ParsedPacket) -> bool {
        &&& after.bytes@ == self.new_hdr_wire() + self.body()
        &&& after.seg_ends@ == seq![self.new_hdr_wire().len() as usize, after.bytes@.len() as usize]
        &&& after.meta == self.meta
        &&& after.offsets == (HeaderOffsets { outer: self.new_outer_offsets(), inner: self.new_inner_offsets() })
        &&& after.hdrs == (PacketHdrs { inner_ip: self.new_ip(), inner_ulp: self.new_ulp() })
        &&& after.body_csum == self.body_csum
        &&& after.flow == InnerFlowId::of(self.meta)
        &&& after.body_offset == self.new_hdr_wire().len()
    }

    /// The metadata of the headers.
    pub fn meta(&self) -> (r: &PacketMeta)
        ensures
            *r == self.meta,
    {
        &self.meta
    }

    /// The places of the headers.
    pub fn hdr_offsets(&self) -> (r: HeaderOffsets)
        ensures
            r == self.offsets,
    {
        self.offsets
    }

    /// The position of the first byte after the headers.
    pub fn body_offset(&self) -> (r: usize)
        ensures
            r == self.body_offset,
    {
        self.body_offset
    }

    /// The flow that the packet belongs to.
    pub fn flow(&self) -> (r: InnerFlowId)
        ensures
            r == self.flow,
    {
        self.flow
    }

    /// The number of bytes in the packet.
    pub fn len(&self) -> (r: usize)
        ensures
            r == self.bytes@.len(),
    {
        self.bytes.len()
    }

    /// The index of the segment in which the body starts.
    pub fn body_seg(&self) -> (r: usize)
        requires
            self.wf(),
        ensures
            r == seg_index(self.seg_ends@, self.body_offset as int, 0),
    {
        let n = self.seg_ends.len();
        let mut i: usize = 0;
        while i < n - 1 && self.body_offset >= self.seg_ends[i]
            invariant
                0 <= i <= n - 1,
                n == self.seg_ends@.len(),
                seg_index(self.seg_ends@, self.body_offset as int, 0) == seg_index(
                    self.seg_ends@,
                    self.body_offset as int,
                    i as int,
                ),
            decreases n - i,
        {
            i = i + 1;
        }
        i
    }

    /// A cursor at the start of the packet.
    pub fn get_rdr(&self) -> (r: PacketReader<'_>)
        ensures
            r.bytes@ == self.bytes@,
            r.pos == 0,
            r.wf(),
    {
        PacketReader::new(self.bytes.as_slice())
    }

    /// A copy of the bytes from `from` on.
    pub fn copy_remaining(&self, from: usize) -> (r: Vec<u8>)
        requires
            from <= self.bytes@.len(),
        ensures
            r@ == self.bytes@.subrange(from as int, self.bytes@.len() as int),
    {
        let mut out: Vec<u8> = Vec::new();
        extend_range(&mut out, self.bytes.as_slice(), from, self.bytes.len());
        assert(out@ =~= self.bytes@.subrange(from as int, self.bytes@.len() as int));
        out
    }

    /// The raw packet: the bytes in their segments, without what the parser learned.
    pub fn unwrap(self) -> (r: Vec<Vec<u8>>)
        requires
            self.wf(),
        ensures
            flat(r@) == self.bytes@,
            r@.len() == self.seg_ends@.len(),
            forall|i: int| 0 <= i < r@.len() ==> flat(r@.take(i + 1)).len() == #[trigger] self.seg_ends@[i],
    {
        let mut segs: Vec<Vec<u8>> = Vec::new();
        let n = self.seg_ends.len();
        let mut start: usize = 0;
        let mut i: usize = 0;
        assert(segs@.take(0) =~= segs@);
        while i < n
            invariant
                i <= n == self.seg_ends@.len(),
                self.wf(),
                segs@.len() == i,
                start <= self.bytes@.len(),
                i > 0 ==> start == self.seg_ends@[i - 1],
                i == 0 ==> start == 0,
                flat(segs@) == self.bytes@.subrange(0, start as int),
                forall|k: int| 0 <= k < i ==> flat(segs@.take(k + 1)).len() == #[trigger] self.seg_ends@[k],
            decreases n - i,
        {
            let end = self.seg_ends[i];
            let total = self.bytes.len();
            proof {
                assert(self.seg_ends@.last() == self.seg_ends@[n - 1]);
                assert(self.seg_ends@[i as int] <= self.seg_ends@[n - 1]);
                if i > 0 {
                    assert(self.seg_ends@[i - 1] <= self.seg_ends@[i as int]);
                }
                assert(start <= end <= total);
            }
            let mut seg: Vec<u8> = Vec::new();
            extend_range(&mut seg, self.bytes.as_slice(), start, end);
            let ghost before = segs@;
            segs.push(seg);
            proof {
                assert(segs@.drop_last() =~= before);
                assert(flat(segs@) =~= self.bytes@.subrange(0, end as int));
                assert forall|k: int| 0 <= k < i + 1 implies flat(segs@.take(k + 1)).len()
                    == #[trigger] self.seg_ends@[k] by {
                    if k < i {
                        assert(segs@.take(k + 1) =~= before.take(k + 1));
                    } else {
                        assert(segs@.take(k + 1) =~= segs@);
                    }
                }
            }
            start = end;
            i = i + 1;
        }
        assert(self.bytes@.subrange(0, start as int) =~= self.bytes@);
        segs
    }
}

impl Packet {
    /// Parses the packet in direction `dir` with the network parser `parser`, then checks
    /// that the payload length of the inner IP header is what the packet holds.
    pub fn parse(self, dir: Direction, parser: &VpcParser) -> (r: Result<ParsedPacket, ParseError>)
        requires
            self.wf(),
        ensures
            match r {
                Ok(p) => parse_spec(self@, dir, *parser) == Ok::<PacketInfo, ParseErrorView>(p.info())
                    && p.bytes == self.bytes && p.seg_ends == self.seg_ends && p.body_offset
                    == headers_end(p.info()) && p.flow == InnerFlowId::of(p.meta) && p.wf(),
                Err(e) => parse_spec(self@, dir, *parser) == Err::<PacketInfo, ParseErrorView>(e@),
            },
    {
        let total = self.bytes.len();
        let mut rdr = PacketReader::new(self.bytes.as_slice());
        let res = match dir {
            Direction::Out => parser.parse_outbound(&mut rdr),
            Direction::In => parser.parse_inbound(&mut rdr),
        };
        let info = match res {
            Err(e) => {
                return Err(e);
            },
            Ok(info) => info,
        };
        let body_offset = rdr.pos();
        match (info.hdrs.inner_ip, info.offsets.inner.ip) {
            (Some(IpHdr::Ip4(h)), Some(o)) => {
                let expected = total - (o.pkt_pos + o.hdr_len);
                let actual = (h.total_len as usize) - IPV4_HDR_SZ;
                if expected != actual {
                    return Err(ParseError::BadInnerIpLen { expected, actual });
                }
            },
            (Some(IpHdr::Ip6(h)), Some(o)) => {
                let expected = total - (o.pkt_pos + o.hdr_len);
                let actual = h.pay_len as usize;
                if expected != actual {
                    return Err(ParseError::BadInnerIpLen { expected, actual });
                }
            },
            _ => {},
        }
        if total - body_offset > MAX_BODY_LEN {
            return Err(
                ParseError::header("Body", crate::headers::HdrError::TooLong { length: total - body_offset }),
            );
        }
        let flow = InnerFlowId::from_meta(&info.meta);
        Ok(
            ParsedPacket {
                bytes: self.bytes,
                seg_ends: self.seg_ends,
                meta: info.meta,
                offsets: info.offsets,
                hdrs: info.hdrs,
                body_csum: info.body_csum,
                flow,
                body_offset,
            },
        )
    }
}

// The network-layer header to write for the metadata `meta`.
fn unify_ip_exec(hdr: Option<IpHdr>, meta: Option<IpMeta>) -> (r: Option<IpHdr>)
    requires
        hdr matches Some(i) ==> i.wf(),
    ensures
        r == unify_ip(hdr, meta),
        r matches Some(i) ==> i.wf(),
{
    match meta {
        None => None,
        Some(IpMeta::Ip4(m)) => {
            let mut h = match hdr {
                Some(IpHdr::Ip4(h)) => Ipv4Hdr { src: m.src, dst: m.dst, proto: m.proto, ..h },
                _ => Ipv4Hdr::from_meta(&m),
            };
            h.compute_hdr_csum();
            Some(IpHdr::Ip4(h))
        },
        Some(IpMeta::Ip6(m)) => Some(
            IpHdr::Ip6(
                match hdr {
                    Some(IpHdr::Ip6(h)) => Ipv6Hdr { src: m.src, dst: m.dst, next_hdr: m.proto, ..h },
                    _ => Ipv6Hdr::from_meta(&m),
                },
            ),
        ),
    }
}

// The transport checksum to write after a change of headers.
fn new_ulp_csum_exec(old_csum: u16, hdr_sum: Checksum, ip: Option<IpHdr>, body_csum: Option<Checksum>) -> (r: u16)
    ensures
        r == new_ulp_csum(old_csum, hdr_sum, ip, body_csum),
{
    match (ip, body_csum) {
        (Some(i), Some(bc)) => bc.add(i.pseudo_csum()).add(hdr_sum).finalize(),
        _ => old_csum,
    }
}

// The transport header to write for the metadata `meta`.
fn unify_ulp_exec(hdr: Option<UlpHdr>, meta: Option<UlpMeta>, ip: Option<IpHdr>, body_csum: Option<Checksum>) -> (r:
    Option<UlpHdr>)
    requires
        hdr matches Some(u) ==> u.wf(),
    ensures
        r == unify_ulp(hdr, meta, ip, body_csum),
        r matches Some(u) ==> u.wf(),
        r matches Some(UlpHdr::Tcp(t)) ==> t.hdr_len == (match hdr {
            Some(UlpHdr::Tcp(h)) => h.hdr_len,
            _ => 20u8,
        }),
{
    match meta {
        None => None,
        Some(UlpMeta::Tcp(m)) => {
            let h = match hdr {
                Some(UlpHdr::Tcp(h)) => TcpHdr { src: m.src, dst: m.dst, ..h },
                _ => TcpHdr {
                    src: m.src,
                    dst: m.dst,
                    seq: m.seq,
                    ack: m.ack,
                    hdr_len: 20,
                    rsvd: 0,
                    flags: m.flags,
                    win: 0,
                    csum: 0,
                    urg: 0,
                    opt_csum: Checksum { inner: 0 },
                },
            };
            let csum = new_ulp_csum_exec(h.csum, h.hdr_sum(0), ip, body_csum);
            Some(UlpHdr::Tcp(TcpHdr { csum, ..h }))
        },
        Some(UlpMeta::Udp(m)) => {
            let h = match hdr {
                Some(UlpHdr::Udp(h)) => UdpHdr { src: m.src, dst: m.dst, ..h },
                _ => UdpHdr::from_meta(&m),
            };
            let csum = match (ip, body_csum) {
                (Some(_), Some(_)) => {
                    let c = new_ulp_csum_exec(h.csum, h.hdr_sum(0), ip, body_csum);
                    if c == 0 {
                        0xFFFF
                    } else {
                        c
                    }
                },
                _ => h.csum,
            };
            Some(UlpHdr::Udp(UdpHdr { csum, ..h }))
        },
    }
}

impl ParsedPacket {
    // Writes the inner headers for the present metadata; with the bytes come the lengths of
    // the Ethernet, the network-layer and the transport header.
    fn emit_inner(&self, new_ip: &Option<IpHdr>, new_ulp: &Option<UlpHdr>) -> (r: (Vec<u8>, usize, usize, usize))
        requires
            self.wf(),
            *new_ip == self.new_ip(),
            *new_ulp == self.new_ulp(),
            *new_ip matches Some(i) ==> i.wf(),
            *new_ulp matches Some(u) ==> u.wf(),
        ensures
            r.0@ == self.new_inner_wire(),
            r.1 == self.new_ether_wire().len(),
            r.2 == self.new_ip_wire().len(),
            r.3 == self.new_ulp_wire().len(),
            r.0@.len() == r.1 + r.2 + r.3,
            r.0@.len() <= 14 + 40 + 60,
            *new_ulp matches Some(UlpHdr::Tcp(t)) ==> r.3 == 20 + self.tcp_options().len(),
    {
        let mut inner: Vec<u8> = Vec::new();
        match &self.meta.inner.ether {
            Some(e) => {
                e.emit(&mut inner);
                proof {
                    e.lemma_wire_len();
                }
            },
            None => {},
        }
        let ether_len = inner.len();
        assert(inner@ =~= self.new_ether_wire());
        match new_ip {
            Some(IpHdr::Ip4(h)) => {
                h.emit(&mut inner);
                proof {
                    h.lemma_wire_len(h.csum);
                }
            },
            Some(IpHdr::Ip6(h)) => {
                h.emit(&mut inner);
                proof {
                    h.lemma_wire_len();
                }
            },
            None => {},
        }
        let ip_len = inner.len() - ether_len;
        assert(inner@ =~= self.new_ether_wire() + self.new_ip_wire());
        match new_ulp {
            Some(UlpHdr::Tcp(h)) => {
                h.emit_with(&mut inner, h.csum);
                proof {
                    h.lemma_wire_len(h.csum);
                }
                match (&self.hdrs.inner_ulp, &self.offsets.inner.ulp) {
                    (Some(UlpHdr::Tcp(old_h)), Some(o)) => {
                        extend_range(
                            &mut inner,
                            self.bytes.as_slice(),
                            o.pkt_pos + TCP_HDR_SZ,
                            o.pkt_pos + old_h.hdr_len as usize,
                        );
                    },
                    _ => {},
                }
            },
            Some(UlpHdr::Udp(h)) => {
                h.emit_with(&mut inner, h.csum);
                proof {
                    h.lemma_wire_len(h.csum);
                }
            },
            None => {},
        }
        let ulp_len = inner.len() - ether_len - ip_len;
        assert(inner@ =~= self.new_ether_wire() + self.new_ip_wire() + self.new_ulp_wire());
        (inner, ether_len, ip_len, ulp_len)
    }

    // Writes the encapsulation that the metadata describes around `payload` bytes.
    fn emit_outer(&self, payload: u16) -> (out: Vec<u8>)
        requires
            has_encap(self.meta.outer),
            payload == ENCAP_PAYLOAD_OVERHEAD + self.encap_payload_len(),
        ensures
            out@ == self.new_outer_wire(),
            out@.len() == ETHER_HDR_SZ + IPV6_HDR_SZ + UDP_HDR_SZ + GENEVE_HDR_SZ,
    {
        let mut out: Vec<u8> = Vec::new();
        match (&self.meta.outer.ether, &self.meta.outer.ip, &self.meta.outer.encap) {
            (Some(eth), Some(IpMeta::Ip6(ip6)), Some(g)) => {
                let (sport, dport) = match &self.meta.outer.ulp {
                    Some(u) => (u.src_port(), u.dst_port()),
                    None => (GENEVE_SRC_PORT, GENEVE_PORT),
                };
                let oeth = EtherMeta { ether_type: EtherType::Ipv6, ..*eth };
                let oip = Ipv6Hdr {
                    tc_flow: 0,
                    pay_len: payload,
                    next_hdr: Protocol::UDP,
                    hop_limit: IPV6_DEF_HOP_LIMIT,
                    src: ip6.src,
                    dst: ip6.dst,
                };
                let oudp = UdpHdr { src: sport, dst: dport, length: payload, csum: 0 };
                let ogen = GeneveHdr { vni: g.vni };
                oeth.emit(&mut out);
                oip.emit(&mut out);
                oudp.emit_with(&mut out, 0);
                ogen.emit(&mut out);
                proof {
                    oeth.lemma_wire_len();
                    oip.lemma_wire_len();
                    oudp.lemma_wire_len(0);
                    ogen.lemma_wire_len();
                    assert(oip == encap_ip6(self.meta.outer, self.encap_payload_len()));
                    assert(oudp == encap_udp(self.meta.outer, self.encap_payload_len()));
                    assert(out@ =~= encap_wire(self.meta.outer, self.encap_payload_len()));
                }
            },
            _ => {},
        }
        out
    }

    /// Writes the headers anew for the present metadata: the new headers go to a segment
    /// of their own, the body follows as it was, and the offsets, the headers kept in full
    /// and the flow follow the metadata.
    pub fn emit_headers(&mut self)
        requires
            old(self).wf(),
        ensures
            old(self).emitted(*final(self)),
            final(self).wf(),
            final(self).body() == old(self).body(),
    {
        let total = self.bytes.len();
        let body_len = total - self.body_offset;
        let new_ip = unify_ip_exec(self.hdrs.inner_ip, self.meta.inner.ip);
        let new_ulp = unify_ulp_exec(self.hdrs.inner_ulp, self.meta.inner.ulp, new_ip, self.body_csum);
        let (inner, ether_len, ip_len, ulp_len) = self.emit_inner(&new_ip, &new_ulp);
        let encap = self.meta.outer.ether.is_some() && self.meta.outer.encap.is_some() && (match &self.meta.outer.ip {
            Some(IpMeta::Ip6(_)) => true,
            _ => false,
        });
        assert(encap == has_encap(self.meta.outer));
        let mut out: Vec<u8> = Vec::new();
        let mut outer_offsets = OuterOffsets { ether: None, ip: None, encap: None };
        if encap {
            let payload: u16 = (ENCAP_PAYLOAD_OVERHEAD + inner.len() + body_len) as u16;
            out = self.emit_outer(payload);
            outer_offsets = OuterOffsets {
                ether: Some(HdrOffset { pkt_pos: 0, hdr_len: ETHER_HDR_SZ }),
                ip: Some(HdrOffset { pkt_pos: ETHER_HDR_SZ, hdr_len: IPV6_HDR_SZ }),
                encap: Some(HdrOffset { pkt_pos: ETHER_HDR_SZ + IPV6_HDR_SZ, hdr_len: UDP_HDR_SZ + GENEVE_HDR_SZ }),
            };
        }
        assert(out@ =~= self.new_outer_wire());
        assert(outer_offsets == self.new_outer_offsets());
        let start = out.len();
        extend_range(&mut out, inner.as_slice(), 0, inner.len());
        assert(inner@.subrange(0, inner@.len() as int) =~= inner@);
        let hdr_len = out.len();
        assert(out@ =~= self.new_hdr_wire());
        extend_range(&mut out, self.bytes.as_slice(), self.body_offset, total);
        assert(out@ =~= self.new_hdr_wire() + self.body());
        let inner_offsets = InnerOffsets {
            ether: if self.meta.inner.ether.is_some() {
                Some(HdrOffset { pkt_pos: start, hdr_len: ether_len })
            } else {
                None
            },
            ip: if new_ip.is_some() {
                Some(HdrOffset { pkt_pos: start + ether_len, hdr_len: ip_len })
            } else {
                None
            },
            ulp: if new_ulp.is_some() {
                Some(HdrOffset { pkt_pos: start + ether_len + ip_len, hdr_len: ulp_len })
            } else {
                None
            },
        };
        assert(inner_offsets == self.new_inner_offsets());
        let mut seg_ends: Vec<usize> = Vec::new();
        seg_ends.push(hdr_len);
        seg_ends.push(out.len());
        assert(seg_ends@ =~= seq![hdr_len, out@.len() as usize]);
        let flow = InnerFlowId::from_meta(&self.meta);
        proof {
            assert(new_ulp matches Some(UlpHdr::Tcp(t)) ==> ulp_len == t.hdr_len) by {
                if new_ulp matches Some(UlpHdr::Tcp(t)) {
                    assert(ulp_len == 20 + self.tcp_options().len());
                }
            }
        }
        self.flow = flow;
        self.bytes = out;
        self.seg_ends = seg_ends;
        self.offsets = HeaderOffsets { outer: outer_offsets, inner: inner_offsets };
        self.hdrs = PacketHdrs { inner_ip: new_ip, inner_ulp: new_ulp };
        self.body_offset = hdr_len;
        assert(self.body() =~= old(self).body());
    }
}

} // verus!
