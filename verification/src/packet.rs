//! Packets: raw buffers, the reader that header parsers share, and what parsing keeps.

use crate::addr::IpAddr;
use crate::addr::Ipv4Addr;
use crate::checksum::Checksum;
use crate::ether::EtherHdr;
use crate::ether::EtherMeta;
use crate::ether::EtherType;
use crate::ether::ETHER_HDR_SZ;
use crate::geneve::GeneveHdr;
use crate::geneve::GENEVE_PORT;
use crate::headers::GeneveMeta;
use crate::headers::HdrError;
use crate::headers::IpMeta;
use crate::headers::Protocol;
use crate::headers::UlpMeta;
use crate::ip4::Ipv4Hdr;
use crate::ip4::IPV4_HDR_SZ;
use crate::ip6::Ipv6Hdr;
use crate::ip6::IPV6_HDR_SZ;
use crate::tcp::TcpHdr;
use crate::udp::UdpHdr;
use crate::udp::UDP_HDR_SZ;
use vstd::prelude::*;

verus! {

/// The five values that tell one flow from another: protocol, addresses and ports of the
/// inner headers. The ports are zero where the protocol has none.
#[derive(Clone, Copy, Debug, PartialEq, Eq, Structural)]
pub struct InnerFlowId {
    pub proto: Protocol,
    pub src_ip: IpAddr,
    pub src_port: u16,
    pub dst_ip: IpAddr,
    pub dst_port: u16,
}

/// Where a header lies in the packet.
#[derive(Clone, Copy, Debug, PartialEq, Eq, Structural)]
pub struct HdrOffset {
    /// The position of the header's first byte, counted from the start of the packet.
    pub pkt_pos: usize,
    /// The length of the header in bytes.
    pub hdr_len: usize,
}

impl HdrOffset {
    /// The position after the header's last byte.
    pub open spec fn end(self) -> int {
        self.pkt_pos + self.hdr_len
    }
}

/// What a parser learned of one header: its fields and its place.
#[derive(Clone, Copy, Debug)]
pub struct HdrInfo<M> {
    pub meta: M,
    pub offset: HdrOffset,
}

/// The metadata of the encapsulating headers.
#[derive(Clone, Copy, Debug, PartialEq, Eq, Structural)]
pub struct OuterMeta {
    pub ether: Option<EtherMeta>,
    pub ip: Option<IpMeta>,
    pub ulp: Option<UlpMeta>,
    pub encap: Option<GeneveMeta>,
}

/// The metadata of the guest's own headers.
#[derive(Clone, Copy, Debug, PartialEq, Eq, Structural)]
pub struct InnerMeta {
    pub ether: Option<EtherMeta>,
    pub ip: Option<IpMeta>,
    pub ulp: Option<UlpMeta>,
}

/// The metadata of a packet's headers, in two tiers.
#[derive(Clone, Copy, Debug, PartialEq, Eq, Structural)]
pub struct PacketMeta {
    pub outer: OuterMeta,
    pub inner: InnerMeta,
}

/// The places of the encapsulating headers. The place of `encap` covers the UDP header and
/// the Geneve header after it.
#[derive(Clone, Copy, Debug, PartialEq, Eq, Structural)]
pub struct OuterOffsets {
    pub ether: Option<HdrOffset>,
    pub ip: Option<HdrOffset>,
    pub encap: Option<HdrOffset>,
}

/// The places of the guest's own headers.
#[derive(Clone, Copy, Debug, PartialEq, Eq, Structural)]
pub struct InnerOffsets {
    pub ether: Option<HdrOffset>,
    pub ip: Option<HdrOffset>,
    pub ulp: Option<HdrOffset>,
}

/// The places of a packet's headers, laid out as [`PacketMeta`] is.
#[derive(Clone, Copy, Debug, PartialEq, Eq, Structural)]
pub struct HeaderOffsets {
    pub outer: OuterOffsets,
    pub inner: InnerOffsets,
}

/// A network-layer header of either family.
#[derive(Clone, Copy, Debug, PartialEq, Eq, Structural)]
pub enum IpHdr {
    Ip4(Ipv4Hdr),
    Ip6(Ipv6Hdr),
}

/// A transport-layer header.
#[derive(Clone, Copy, Debug, PartialEq, Eq, Structural)]
pub enum UlpHdr {
    Tcp(TcpHdr),
    Udp(UdpHdr),
}

/// The inner headers in full, kept so that they can be written again after a change.
#[derive(Clone, Copy, Debug, PartialEq, Eq, Structural)]
pub struct PacketHdrs {
    pub inner_ip: Option<IpHdr>,
    pub inner_ulp: Option<UlpHdr>,
}

/// What a network parser hands back for a packet.
#[derive(Clone, Copy, Debug, PartialEq, Eq, Structural)]
pub struct PacketInfo {
    pub meta: PacketMeta,
    pub offsets: HeaderOffsets,
    /// The sum of the words of the body, where the transport checksum gives it.
    pub body_csum: Option<Checksum>,
    pub hdrs: PacketHdrs,
}

/// Why a packet could not be parsed.
#[derive(Clone, Debug, PartialEq, Eq)]
pub enum ParseError {
    /// A header is malformed; the text names the header and says what is wrong.
    BadHeader(String),
    /// The inner IP header claims `actual` bytes of payload, the packet holds `expected`.
    BadInnerIpLen { expected: usize, actual: usize },
    /// The frame carries something that is not handled here.
    UnexpectedEtherType(EtherType),
    /// The packet carries a protocol that is not handled here.
    UnexpectedProtocol(Protocol),
}

/// A [`ParseError`] as a plain value.
pub enum ParseErrorView {
    BadHeader(Seq<char>),
    BadInnerIpLen { expected: usize, actual: usize },
    UnexpectedEtherType(EtherType),
    UnexpectedProtocol(Protocol),
}

impl View for ParseError {
    type V = ParseErrorView;

    open spec fn view(&self) -> ParseErrorView {
        match self {
            ParseError::BadHeader(s) => ParseErrorView::BadHeader(s@),
            ParseError::BadInnerIpLen { expected, actual } => ParseErrorView::BadInnerIpLen {
                expected: *expected,
                actual: *actual,
            },
            ParseError::UnexpectedEtherType(t) => ParseErrorView::UnexpectedEtherType(*t),
            ParseError::UnexpectedProtocol(p) => ParseErrorView::UnexpectedProtocol(*p),
        }
    }
}

/// The error that stands for the malformed header `header`, with the reason `e`.
pub open spec fn bad_header(header: Seq<char>, e: HdrError) -> ParseErrorView {
    ParseErrorView::BadHeader(e.text_for(header))
}

impl ParseError {
    /// The error that stands for the malformed header `header`, with the reason `e`.
    pub fn header(header: &str, e: HdrError) -> (r: ParseError)
        ensures
            r@ == bad_header(header@, e),
    {
        ParseError::BadHeader(e.message(header))
    }
}

impl IpHdr {
    /// What the engine keeps of the header.
    pub open spec fn spec_meta(self) -> IpMeta {
        match self {
            IpHdr::Ip4(h) => IpMeta::Ip4(h.spec_meta()),
            IpHdr::Ip6(h) => IpMeta::Ip6(h.spec_meta()),
        }
    }

    /// The sum of the pseudo-header that transport checksums cover.
    pub open spec fn spec_pseudo_csum(self) -> Checksum {
        match self {
            IpHdr::Ip4(h) => h.spec_pseudo_csum(),
            IpHdr::Ip6(h) => h.spec_pseudo_csum(),
        }
    }

    /// The header is well formed in its family.
    pub open spec fn wf(self) -> bool {
        match self {
            IpHdr::Ip4(_) => true,
            IpHdr::Ip6(h) => h.wf(),
        }
    }

    /// The bytes of the header.
    pub open spec fn wire(self) -> Seq<u8> {
        match self {
            IpHdr::Ip4(h) => h.wire(),
            IpHdr::Ip6(h) => h.wire(),
        }
    }

    /// What the engine keeps of the header.
    pub fn meta(&self) -> (r: IpMeta)
        ensures
            r == self.spec_meta(),
    {
        match self {
            IpHdr::Ip4(h) => IpMeta::Ip4(h.meta()),
            IpHdr::Ip6(h) => IpMeta::Ip6(h.meta()),
        }
    }

    /// The sum of the pseudo-header that transport checksums cover.
    pub fn pseudo_csum(&self) -> (r: Checksum)
        ensures
            r == self.spec_pseudo_csum(),
    {
        match self {
            IpHdr::Ip4(h) => h.pseudo_csum(),
            IpHdr::Ip6(h) => h.pseudo_csum(),
        }
    }
}

impl UlpHdr {
    /// What the engine keeps of the header.
    pub open spec fn spec_meta(self) -> UlpMeta {
        match self {
            UlpHdr::Tcp(h) => UlpMeta::Tcp(h.spec_meta()),
            UlpHdr::Udp(h) => UlpMeta::Udp(h.spec_meta()),
        }
    }

    /// The header is well formed in its kind.
    pub open spec fn wf(self) -> bool {
        match self {
            UlpHdr::Tcp(h) => h.wf(),
            UlpHdr::Udp(_) => true,
        }
    }

    /// The sum that the checksum field stands for, less the words of the header itself;
    /// none where the header says that there is no checksum.
    pub open spec fn spec_csum_minus_hdr(self) -> Option<Checksum> {
        match self {
            UlpHdr::Tcp(h) => Some(h.spec_csum_minus_hdr()),
            UlpHdr::Udp(h) => h.spec_csum_minus_hdr(),
        }
    }

    /// What the engine keeps of the header.
    pub fn meta(&self) -> (r: UlpMeta)
        ensures
            r == self.spec_meta(),
    {
        match self {
            UlpHdr::Tcp(h) => UlpMeta::Tcp(h.meta()),
            UlpHdr::Udp(h) => UlpMeta::Udp(h.meta()),
        }
    }

    /// The sum that the checksum field stands for, less the words of the header itself.
    pub fn csum_minus_hdr(&self) -> (r: Option<Checksum>)
        requires
            self.wf(),
        ensures
            r == self.spec_csum_minus_hdr(),
    {
        match self {
            UlpHdr::Tcp(h) => h.csum_minus_hdr(),
            UlpHdr::Udp(h) => h.csum_minus_hdr(),
        }
    }
}

impl InnerFlowId {
    /// The flow of a packet without network-layer header.
    pub open spec fn spec_default() -> InnerFlowId {
        InnerFlowId {
            proto: Protocol::Unknown(255),
            src_ip: IpAddr::Ip4(Ipv4Addr { inner: 0 }),
            src_port: 0,
            dst_ip: IpAddr::Ip4(Ipv4Addr { inner: 0 }),
            dst_port: 0,
        }
    }

    /// The flow that the inner headers of `meta` belong to.
    pub open spec fn of(meta: PacketMeta) -> InnerFlowId {
        match meta.inner.ip {
            None => InnerFlowId::spec_default(),
            Some(ip) => InnerFlowId {
                proto: ip.spec_proto(),
                src_ip: ip.spec_src(),
                src_port: match meta.inner.ulp {
                    Some(u) => u.spec_src_port(),
                    None => 0,
                },
                dst_ip: ip.spec_dst(),
                dst_port: match meta.inner.ulp {
                    Some(u) => u.spec_dst_port(),
                    None => 0,
                },
            },
        }
    }

    /// The flow of the answers: source and destination change places.
    pub open spec fn spec_mirror(self) -> InnerFlowId {
        InnerFlowId {
            proto: self.proto,
            src_ip: self.dst_ip,
            src_port: self.dst_port,
            dst_ip: self.src_ip,
            dst_port: self.src_port,
        }
    }

    /// The flow that the inner headers of `meta` belong to.
    pub fn from_meta(meta: &PacketMeta) -> (r: InnerFlowId)
        ensures
            r == InnerFlowId::of(*meta),
    {
        match &meta.inner.ip {
            None => InnerFlowId {
                proto: Protocol::Unknown(255),
                src_ip: IpAddr::Ip4(Ipv4Addr { inner: 0 }),
                src_port: 0,
                dst_ip: IpAddr::Ip4(Ipv4Addr { inner: 0 }),
                dst_port: 0,
            },
            Some(ip) => {
                let (src_port, dst_port) = match &meta.inner.ulp {
                    Some(u) => (u.src_port(), u.dst_port()),
                    None => (0, 0),
                };
                InnerFlowId { proto: ip.proto(), src_ip: ip.src(), src_port, dst_ip: ip.dst(), dst_port }
            },
        }
    }

    /// The flow of the answers.
    pub fn mirror(&self) -> (r: InnerFlowId)
        ensures
            r == self.spec_mirror(),
    {
        InnerFlowId {
            proto: self.proto,
            src_ip: self.dst_ip,
            src_port: self.dst_port,
            dst_ip: self.src_ip,
            dst_port: self.src_port,
        }
    }
}

impl PacketMeta {
    /// Metadata without any header.
    pub open spec fn spec_empty() -> PacketMeta {
        PacketMeta {
            outer: OuterMeta { ether: None, ip: None, ulp: None, encap: None },
            inner: InnerMeta { ether: None, ip: None, ulp: None },
        }
    }
}

impl Default for PacketMeta {
    fn default() -> (r: PacketMeta)
        ensures
            r == PacketMeta::spec_empty(),
    {
        PacketMeta {
            outer: OuterMeta { ether: None, ip: None, ulp: None, encap: None },
            inner: InnerMeta { ether: None, ip: None, ulp: None },
        }
    }
}

impl HeaderOffsets {
    /// Offsets without any header.
    pub open spec fn spec_empty() -> HeaderOffsets {
        HeaderOffsets {
            outer: OuterOffsets { ether: None, ip: None, encap: None },
            inner: InnerOffsets { ether: None, ip: None, ulp: None },
        }
    }
}

impl Default for HeaderOffsets {
    fn default() -> (r: HeaderOffsets)
        ensures
            r == HeaderOffsets::spec_empty(),
    {
        HeaderOffsets {
            outer: OuterOffsets { ether: None, ip: None, encap: None },
            inner: InnerOffsets { ether: None, ip: None, ulp: None },
        }
    }
}

/// A cursor over the bytes of a packet.
pub struct PacketReader<'a> {
    pub bytes: &'a [u8],
    pub pos: usize,
}

/// Why a read or a seek failed.
#[derive(Clone, Copy, Debug, PartialEq, Eq, Structural)]
pub enum ReadErr {
    /// The packet ends before the place asked for.
    NotEnoughBytes,
}

impl<'a> PacketReader<'a> {
    /// The cursor lies within the packet.
    pub open spec fn wf(self) -> bool {
        self.pos <= self.bytes@.len()
    }

    /// A cursor at the start of `bytes`.
    pub fn new(bytes: &'a [u8]) -> (r: PacketReader<'a>)
        ensures
            r.bytes@ == bytes@,
            r.pos == 0,
            r.wf(),
    {
        PacketReader { bytes, pos: 0 }
    }

    /// The position of the cursor.
    pub fn pos(&self) -> (r: usize)
        ensures
            r == self.pos,
    {
        self.pos
    }

    /// Moves the cursor `n` bytes on; fails, and leaves it, where the packet is shorter.
    pub fn seek(&mut self, n: usize) -> (r: Result<(), ReadErr>)
        requires
            old(self).wf(),
        ensures
            final(self).bytes@ == old(self).bytes@,
            final(self).wf(),
            match r {
                Ok(_) => old(self).pos + n <= old(self).bytes@.len() && final(self).pos == old(self).pos + n,
                Err(_) => old(self).pos + n > old(self).bytes@.len() && final(self).pos == old(self).pos,
            },
    {
        if n > self.bytes.len() - self.pos {
            return Err(ReadErr::NotEnoughBytes);
        }
        self.pos = self.pos + n;
        Ok(())
    }
}

/// A place of `len` bytes from `at` on.
pub open spec fn off(at: int, len: int) -> HdrOffset {
    HdrOffset { pkt_pos: at as usize, hdr_len: len as usize }
}

/// The Ethernet header at `at`, or why there is none.
pub open spec fn ether_at(b: Seq<u8>, at: int) -> Result<EtherMeta, ParseErrorView> {
    if b.len() - at < ETHER_HDR_SZ {
        Err(bad_header("Ether"@, HdrError::Truncated))
    } else {
        Ok(EtherMeta::read(b, at))
    }
}

/// The IPv4 header at `at`, or why there is none.
pub open spec fn ip4_at(b: Seq<u8>, at: int) -> Result<Ipv4Hdr, ParseErrorView> {
    match Ipv4Hdr::check(b, at) {
        Ok(_) => Ok(Ipv4Hdr::read(b, at)),
        Err(e) => Err(bad_header("IPv4"@, e)),
    }
}

/// The IPv6 header at `at`, or why there is none.
pub open spec fn ip6_at(b: Seq<u8>, at: int) -> Result<Ipv6Hdr, ParseErrorView> {
    match Ipv6Hdr::check(b, at) {
        Ok(_) => Ok(Ipv6Hdr::read(b, at)),
        Err(e) => Err(bad_header("IPv6"@, e)),
    }
}

/// The TCP header at `at`, or why there is none.
pub open spec fn tcp_at(b: Seq<u8>, at: int) -> Result<TcpHdr, ParseErrorView> {
    match TcpHdr::check(b, at) {
        Ok(_) => Ok(TcpHdr::read(b, at)),
        Err(e) => Err(bad_header("TCP"@, e)),
    }
}

/// The UDP header at `at`, or why there is none.
pub open spec fn udp_at(b: Seq<u8>, at: int) -> Result<UdpHdr, ParseErrorView> {
    match UdpHdr::check(b, at) {
        Ok(_) => Ok(UdpHdr::read(b, at)),
        Err(e) => Err(bad_header("UDP"@, e)),
    }
}

/// The Geneve encapsulation at `at`: a UDP header to the Geneve port and a Geneve header
/// after it. With the header comes the length of both, Geneve options included.
pub open spec fn geneve_at(b: Seq<u8>, at: int) -> Result<(GeneveHdr, int), ParseErrorView> {
    match UdpHdr::check(b, at) {
        Err(e) => Err(bad_header("UDP"@, e)),
        Ok(_) => if UdpHdr::read(b, at).dst != GENEVE_PORT {
            Err(bad_header("UDP"@, HdrError::BadPort { port: UdpHdr::read(b, at).dst }))
        } else {
            match GeneveHdr::check(b, at + UDP_HDR_SZ) {
                Err(e) => Err(bad_header("Geneve"@, e)),
                Ok(_) => Ok(
                    (
                        GeneveHdr::read(b, at + UDP_HDR_SZ),
                        UDP_HDR_SZ + GeneveHdr::stated_len(b, at + UDP_HDR_SZ),
                    ),
                ),
            }
        },
    }
}

/// The index of the segment in which the position `pos` lies, looking from segment `i` on.
/// `ends[k]` is the position after the last byte of segment `k`. A position at the end of a
/// segment belongs to the next one, where there is a next one.
pub open spec fn seg_index(ends: Seq<usize>, pos: int, i: int) -> int
    decreases ends.len() - i,
{
    if i >= ends.len() - 1 {
        ends.len() - 1
    } else if pos < ends[i] {
        i
    } else {
        seg_index(ends, pos, i + 1)
    }
}

/// True when `ends` can be the segment ends of a packet of `len` bytes: at least one
/// segment, ends that do not decrease, the last one at `len`.
pub open spec fn segs_wf(ends: Seq<usize>, len: int) -> bool {
    &&& ends.len() >= 1
    &&& ends.last() == len
    &&& forall|i: int, j: int| 0 <= i <= j < ends.len() ==> ends[i] <= ends[j]
}

/// The bytes of the segments `segs`, one after the other.
pub open spec fn flat(segs: Seq<Vec<u8>>) -> Seq<u8>
    decreases segs.len(),
{
    if segs.len() == 0 {
        Seq::empty()
    } else {
        flat(segs.drop_last()) + segs.last()@
    }
}

/// The ends of the segments `segs` when they are laid one after the other.
pub open spec fn flat_ends(segs: Seq<Vec<u8>>) -> Seq<usize>
    decreases segs.len(),
{
    if segs.len() == 0 {
        Seq::empty()
    } else {
        flat_ends(segs.drop_last()).push(flat(segs).len() as usize)
    }
}

/// Appends `src[from..to]` to `out`.
pub fn extend_range(out: &mut Vec<u8>, src: &[u8], from: usize, to: usize)
    requires
        from <= to <= src.len(),
    ensures
        final(out)@ == old(out)@ + src@.subrange(from as int, to as int),
{
    let mut i: usize = from;
    assert(out@ =~= old(out)@ + src@.subrange(from as int, i as int));
    while i < to
        invariant
            from <= i <= to <= src.len(),
            out@ == old(out)@ + src@.subrange(from as int, i as int),
        decreases to - i,
    {
        out.push(src[i]);
        i = i + 1;
        assert(out@ =~= old(out)@ + src@.subrange(from as int, i as int));
    }
}

/// A packet as it comes from the wire or from the guest: bytes that lie in one or more
/// segments. Its view is its bytes.
#[derive(Debug)]
pub struct Packet {
    pub bytes: Vec<u8>,
    /// For each segment, the position after its last byte.
    pub seg_ends: Vec<usize>,
    /// How many bytes may still be written to the last segment.
    pub avail: usize,
}

/// The view of a packet is its bytes. Where the segments end (`seg_ends`) and how much room
/// is left (`avail`) are fields of their own, which the contracts state beside the view.
impl View for Packet {
    type V = Seq<u8>;

    open spec fn view(&self) -> Seq<u8> {
        self.bytes@
    }
}

/// Why a write failed.
#[derive(Clone, Copy, Debug, PartialEq, Eq, Structural)]
pub enum WriteErr {
    /// The packet has less room than the bytes take.
    NotEnoughBytes,
}

/// Writes bytes to the end of a packet.
#[derive(Debug)]
pub struct PacketWriter {
    pub pkt: Packet,
}

impl PacketWriter {
    /// A writer that appends to `pkt`. The margin is not used.
    pub fn new(pkt: Packet, margin: Option<usize>) -> (r: PacketWriter)
        ensures
            r.pkt == pkt,
    {
        PacketWriter { pkt }
    }

    /// Appends `bytes` to the last segment; fails, and writes nothing, where the packet has
    /// less room.
    pub fn write(&mut self, bytes: &[u8]) -> (r: Result<(), WriteErr>)
        requires
            old(self).pkt.wf(),
        ensures
            final(self).pkt.wf(),
            match r {
                Ok(_) => bytes@.len() <= old(self).pkt.avail && final(self).pkt@ == old(self).pkt@ + bytes@
                    && final(self).pkt.avail == old(self).pkt.avail - bytes@.len()
                    && final(self).pkt.seg_ends@.len() == old(self).pkt.seg_ends@.len(),
                Err(_) => bytes@.len() > old(self).pkt.avail && *final(self) == *old(self),
            },
    {
        if bytes.len() > self.pkt.avail {
            return Err(WriteErr::NotEnoughBytes);
        }
        extend_range(&mut self.pkt.bytes, bytes, 0, bytes.len());
        assert(bytes@.subrange(0, bytes@.len() as int) =~= bytes@);
        let n = self.pkt.seg_ends.len();
        let total = self.pkt.bytes.len();
        self.pkt.seg_ends.set(n - 1, total);
        self.pkt.avail = self.pkt.avail - bytes.len();
        Ok(())
    }

    /// The packet with all that was written.
    pub fn finish(self) -> (r: Packet)
        ensures
            r == self.pkt,
    {
        self.pkt
    }
}

impl Packet {
    /// The segment ends fit the bytes.
    pub open spec fn wf(self) -> bool {
        segs_wf(self.seg_ends@, self.bytes@.len() as int)
    }

    /// A packet of one segment that holds a copy of `bytes`.
    pub fn copy(bytes: &[u8]) -> (r: Packet)
        ensures
            r@ == bytes@,
            r.seg_ends@ == seq![bytes@.len() as usize],
            r.avail == 0,
            r.wf(),
    {
        let mut b: Vec<u8> = Vec::new();
        extend_range(&mut b, bytes, 0, bytes.len());
        assert(bytes@.subrange(0, bytes@.len() as int) =~= bytes@);
        assert(b@ =~= bytes@);
        let mut seg_ends: Vec<usize> = Vec::new();
        seg_ends.push(b.len());
        Packet { bytes: b, seg_ends, avail: 0 }
    }

    /// An empty packet of one segment with room for `cap` bytes.
    pub fn with_room(cap: usize) -> (r: Packet)
        ensures
            r@ == Seq::<u8>::empty(),
            r.seg_ends@ == seq![0usize],
            r.avail == cap,
            r.wf(),
    {
        let mut seg_ends: Vec<usize> = Vec::new();
        seg_ends.push(0);
        Packet { bytes: Vec::new(), seg_ends, avail: cap }
    }

    /// A packet made of the segments `segs`, in order. No segments make an empty packet of
    /// one segment.
    pub fn wrap(segs: Vec<Vec<u8>>) -> (r: Packet)
        ensures
            r@ == flat(segs@),
            segs@.len() > 0 ==> r.seg_ends@ == flat_ends(segs@),
            segs@.len() == 0 ==> r.seg_ends@ == seq![0usize],
            r.avail == 0,
            r.wf(),
    {
        let mut bytes: Vec<u8> = Vec::new();
        let mut seg_ends: Vec<usize> = Vec::new();
        let n = segs.len();
        let mut i: usize = 0;
        assert(segs@.take(0) =~= Seq::<Vec<u8>>::empty());
        while i < n
            invariant
                i <= n == segs.len(),
                bytes@ == flat(segs@.take(i as int)),
                seg_ends@ == flat_ends(segs@.take(i as int)),
                seg_ends@.len() == i,
                forall|a: int, b: int| 0 <= a <= b < seg_ends@.len() ==> seg_ends@[a] <= seg_ends@[b],
                i > 0 ==> seg_ends@.last() == bytes@.len(),
            decreases n - i,
        {
            let seg = &segs[i];
            let ghost before = bytes@;
            extend_range(&mut bytes, seg.as_slice(), 0, seg.len());
            proof {
                assert(seg@.subrange(0, seg@.len() as int) =~= seg@);
                let t = segs@.take(i + 1);
                assert(t.drop_last() =~= segs@.take(i as int));
                assert(t.last() == segs@[i as int]);
                assert(bytes@ =~= flat(t));
            }
            seg_ends.push(bytes.len());
            i = i + 1;
        }
        assert(segs@.take(n as int) =~= segs@);
        if n == 0 {
            seg_ends.push(0);
        }
        Packet { bytes, seg_ends, avail: 0 }
    }

    /// The number of bytes in the packet.
    pub fn len(&self) -> (r: usize)
        ensures
            r == self@.len(),
    {
        self.bytes.len()
    }

    /// Reads the Ethernet header under the cursor and moves the cursor past it.
    pub fn parse_ether(rdr: &mut PacketReader) -> (r: Result<(HdrInfo<EtherMeta>, EtherHdr), ParseError>)
        requires
            old(rdr).wf(),
        ensures
            final(rdr).bytes@ == old(rdr).bytes@,
            final(rdr).wf(),
            match r {
                Ok((hi, hdr)) => ether_at(old(rdr).bytes@, old(rdr).pos as int) == Ok::<
                    EtherMeta,
                    ParseErrorView,
                >(hdr) && hi.meta == hdr && hi.offset == off(old(rdr).pos as int, ETHER_HDR_SZ as int)
                    && final(rdr).pos == old(rdr).pos + ETHER_HDR_SZ,
                Err(e) => ether_at(old(rdr).bytes@, old(rdr).pos as int) == Err::<EtherMeta, ParseErrorView>(
                    e@,
                ) && final(rdr).pos == old(rdr).pos,
            },
    {
        let total = rdr.bytes.len();
        assert(total == rdr.bytes@.len());
        match EtherMeta::parse(rdr.bytes, rdr.pos) {
            None => Err(ParseError::header("Ether", HdrError::Truncated)),
            Some(hdr) => {
                let offset = HdrOffset { pkt_pos: rdr.pos, hdr_len: ETHER_HDR_SZ };
                rdr.pos = rdr.pos + ETHER_HDR_SZ;
                Ok((HdrInfo { meta: hdr, offset }, hdr))
            },
        }
    }

    /// Reads the IPv4 header under the cursor and moves the cursor past it.
    pub fn parse_ip4(rdr: &mut PacketReader) -> (r: Result<(HdrInfo<IpMeta>, IpHdr), ParseError>)
        requires
            old(rdr).wf(),
        ensures
            final(rdr).bytes@ == old(rdr).bytes@,
            final(rdr).wf(),
            match r {
                Ok((hi, hdr)) => ip4_at(old(rdr).bytes@, old(rdr).pos as int) matches Ok(h) && hdr
                    == IpHdr::Ip4(h) && h.total_len >= IPV4_HDR_SZ && hi.meta == hdr.spec_meta() && hi.offset == off(
                    old(rdr).pos as int,
                    IPV4_HDR_SZ as int,
                ) && final(rdr).pos == old(rdr).pos + IPV4_HDR_SZ,
                Err(e) => ip4_at(old(rdr).bytes@, old(rdr).pos as int) == Err::<Ipv4Hdr, ParseErrorView>(e@)
                    && final(rdr).pos == old(rdr).pos,
            },
    {
        let total = rdr.bytes.len();
        assert(total == rdr.bytes@.len());
        match Ipv4Hdr::parse(rdr.bytes, rdr.pos) {
            Err(e) => Err(ParseError::header("IPv4", e)),
            Ok(h) => {
                let offset = HdrOffset { pkt_pos: rdr.pos, hdr_len: IPV4_HDR_SZ };
                rdr.pos = rdr.pos + IPV4_HDR_SZ;
                Ok((HdrInfo { meta: IpMeta::Ip4(h.meta()), offset }, IpHdr::Ip4(h)))
            },
        }
    }

    /// Reads the IPv6 header under the cursor and moves the cursor past it.
    pub fn parse_ip6(rdr: &mut PacketReader) -> (r: Result<(HdrInfo<IpMeta>, IpHdr), ParseError>)
        requires
            old(rdr).wf(),
        ensures
            final(rdr).bytes@ == old(rdr).bytes@,
            final(rdr).wf(),
            match r {
                Ok((hi, hdr)) => ip6_at(old(rdr).bytes@, old(rdr).pos as int) matches Ok(h) && hdr
                    == IpHdr::Ip6(h) && hdr.wf() && hi.meta == hdr.spec_meta() && hi.offset == off(
                    old(rdr).pos as int,
                    IPV6_HDR_SZ as int,
                ) && final(rdr).pos == old(rdr).pos + IPV6_HDR_SZ,
                Err(e) => ip6_at(old(rdr).bytes@, old(rdr).pos as int) == Err::<Ipv6Hdr, ParseErrorView>(e@)
                    && final(rdr).pos == old(rdr).pos,
            },
    {
        let total = rdr.bytes.len();
        assert(total == rdr.bytes@.len());
        match Ipv6Hdr::parse(rdr.bytes, rdr.pos) {
            Err(e) => Err(ParseError::header("IPv6", e)),
            Ok(h) => {
                let offset = HdrOffset { pkt_pos: rdr.pos, hdr_len: IPV6_HDR_SZ };
                rdr.pos = rdr.pos + IPV6_HDR_SZ;
                Ok((HdrInfo { meta: IpMeta::Ip6(h.meta()), offset }, IpHdr::Ip6(h)))
            },
        }
    }

    /// Reads the TCP header under the cursor and moves the cursor past it and its options.
    pub fn parse_tcp(rdr: &mut PacketReader) -> (r: Result<(HdrInfo<UlpMeta>, UlpHdr), ParseError>)
        requires
            old(rdr).wf(),
        ensures
            final(rdr).bytes@ == old(rdr).bytes@,
            final(rdr).wf(),
            match r {
                Ok((hi, hdr)) => tcp_at(old(rdr).bytes@, old(rdr).pos as int) matches Ok(h) && hdr
                    == UlpHdr::Tcp(h) && hdr.wf() && hi.meta == hdr.spec_meta() && hi.offset == off(
                    old(rdr).pos as int,
                    h.hdr_len as int,
                ) && final(rdr).pos == old(rdr).pos + h.hdr_len,
                Err(e) => tcp_at(old(rdr).bytes@, old(rdr).pos as int) == Err::<TcpHdr, ParseErrorView>(e@)
                    && final(rdr).pos == old(rdr).pos,
            },
    {
        let total = rdr.bytes.len();
        assert(total == rdr.bytes@.len());
        match TcpHdr::parse(rdr.bytes, rdr.pos) {
            Err(e) => Err(ParseError::header("TCP", e)),
            Ok(h) => {
                let offset = HdrOffset { pkt_pos: rdr.pos, hdr_len: h.hdr_len as usize };
                rdr.pos = rdr.pos + h.hdr_len as usize;
                Ok((HdrInfo { meta: UlpMeta::Tcp(h.meta()), offset }, UlpHdr::Tcp(h)))
            },
        }
    }

    /// Reads the UDP header under the cursor and moves the cursor past it.
    pub fn parse_udp(rdr: &mut PacketReader) -> (r: Result<(HdrInfo<UlpMeta>, UlpHdr), ParseError>)
        requires
            old(rdr).wf(),
        ensures
            final(rdr).bytes@ == old(rdr).bytes@,
            final(rdr).wf(),
            match r {
                Ok((hi, hdr)) => udp_at(old(rdr).bytes@, old(rdr).pos as int) matches Ok(h) && hdr
                    == UlpHdr::Udp(h) && hi.meta == hdr.spec_meta() && hi.offset == off(
                    old(rdr).pos as int,
                    UDP_HDR_SZ as int,
                ) && final(rdr).pos == old(rdr).pos + UDP_HDR_SZ,
                Err(e) => udp_at(old(rdr).bytes@, old(rdr).pos as int) == Err::<UdpHdr, ParseErrorView>(e@)
                    && final(rdr).pos == old(rdr).pos,
            },
    {
        let total = rdr.bytes.len();
        assert(total == rdr.bytes@.len());
        match UdpHdr::parse(rdr.bytes, rdr.pos) {
            Err(e) => Err(ParseError::header("UDP", e)),
            Ok(h) => {
                let offset = HdrOffset { pkt_pos: rdr.pos, hdr_len: UDP_HDR_SZ };
                rdr.pos = rdr.pos + UDP_HDR_SZ;
                Ok((HdrInfo { meta: UlpMeta::Udp(h.meta()), offset }, UlpHdr::Udp(h)))
            },
        }
    }

    /// Reads the Geneve encapsulation under the cursor, a UDP header to the Geneve port and
    /// a Geneve header, and moves the cursor past both and the Geneve options.
    pub fn parse_geneve(rdr: &mut PacketReader) -> (r: Result<(HdrInfo<GeneveMeta>, GeneveHdr), ParseError>)
        requires
            old(rdr).wf(),
        ensures
            final(rdr).bytes@ == old(rdr).bytes@,
            final(rdr).wf(),
            match r {
                Ok((hi, hdr)) => geneve_at(old(rdr).bytes@, old(rdr).pos as int) matches Ok(g) && hdr == g.0
                    && hi.meta == hdr.spec_meta() && hi.offset == off(old(rdr).pos as int, g.1)
                    && final(rdr).pos == old(rdr).pos + g.1,
                Err(e) => geneve_at(old(rdr).bytes@, old(rdr).pos as int) == Err::<
                    (GeneveHdr, int),
                    ParseErrorView,
                >(e@) && final(rdr).pos == old(rdr).pos,
            },
    {
        let total = rdr.bytes.len();
        assert(total == rdr.bytes@.len());
        let udp = match UdpHdr::parse(rdr.bytes, rdr.pos) {
            Err(e) => {
                return Err(ParseError::header("UDP", e));
            },
            Ok(h) => h,
        };
        if udp.dst != GENEVE_PORT {
            return Err(ParseError::header("UDP", HdrError::BadPort { port: udp.dst }));
        }
        match GeneveHdr::parse(rdr.bytes, rdr.pos + UDP_HDR_SZ) {
            Err(e) => Err(ParseError::header("Geneve", e)),
            Ok((g, len)) => {
                let offset = HdrOffset { pkt_pos: rdr.pos, hdr_len: UDP_HDR_SZ + len };
                rdr.pos = rdr.pos + UDP_HDR_SZ + len;
                Ok((HdrInfo { meta: g.meta(), offset }, g))
            },
        }
    }
}

} // verus!
