//! The VPC network personality: its configuration, its packet parser, and the packets it
//! answers itself.

use crate::addr::Ipv4Addr;
use crate::addr::Ipv4Cidr;
use crate::addr::Ipv6Addr;
use crate::addr::MacAddr;
use crate::arp::arp_reply_frame;
use crate::arp::gen_arp_reply;
use crate::arp::ArpEthIpv4;
use crate::arp::ArpOp;
use crate::arp::ARP_HTYPE_ETHER;
use crate::checksum::Checksum;
use crate::ether::ETHER_TYPE_IPV4;
use crate::parsed::ParsedPacket;
use crate::encap::Vni;
use crate::ether::EtherType;
use crate::ether::ETHER_HDR_SZ;
use crate::headers::Protocol;
use crate::ip4::IPV4_HDR_SZ;
use crate::ip6::IPV6_HDR_SZ;
use crate::packet::ether_at;
use crate::packet::geneve_at;
use crate::packet::ip4_at;
use crate::packet::ip6_at;
use crate::packet::off;
use crate::packet::tcp_at;
use crate::packet::udp_at;
use crate::packet::HeaderOffsets;
use crate::packet::IpHdr;
use crate::packet::Packet;
use crate::packet::PacketHdrs;
use crate::packet::PacketInfo;
use crate::packet::PacketMeta;
use crate::packet::PacketReader;
use crate::packet::ParseError;
use crate::packet::ParseErrorView;
use crate::packet::UlpHdr;
use crate::api::Direction;
use crate::udp::UDP_HDR_SZ;
use vstd::prelude::*;

verus! {

/// The source NAT of a guest: the address it shares and the ports that are its own there.
#[derive(Clone, Copy, Debug, PartialEq, Eq, Structural)]
pub struct SNat4Cfg {
    pub external_ip: Ipv4Addr,
    /// The first port of the guest's range.
    pub port_start: u16,
    /// The port after the last port of the guest's range.
    pub port_end: u16,
}

/// The IPv4 side of a guest's configuration.
#[derive(Clone, Copy, Debug, PartialEq, Eq, Structural)]
pub struct Ipv4Cfg {
    pub vpc_subnet: Ipv4Cidr,
    pub private_ip: Ipv4Addr,
    pub gateway_ip: Ipv4Addr,
    pub snat: Option<SNat4Cfg>,
    pub external_ips: Option<Ipv4Addr>,
}

/// Where boundary services live on the physical network.
#[derive(Clone, Copy, Debug, PartialEq, Eq, Structural)]
pub struct BoundaryServices {
    pub ip: Ipv6Addr,
    pub vni: Vni,
    pub mac: MacAddr,
}

/// The configuration of one guest interface.
#[derive(Clone, Copy, Debug, PartialEq, Eq, Structural)]
pub struct VpcCfg {
    pub ipv4: Ipv4Cfg,
    pub guest_mac: MacAddr,
    pub gateway_mac: MacAddr,
    pub vni: Vni,
    pub phys_ip: Ipv6Addr,
    pub boundary_services: BoundaryServices,
    /// Answer ARP requests from outside for the guest's external addresses. With it the
    /// port sits on the guest's own LAN and inbound packets carry no encapsulation.
    pub proxy_arp_enable: bool,
}

impl VpcCfg {
    /// The IPv4 side of the configuration.
    pub fn ipv4_cfg(&self) -> (r: &Ipv4Cfg)
        ensures
            *r == self.ipv4,
    {
        &self.ipv4
    }
}

/// The parser of the VPC network.
#[derive(Clone, Copy, Debug, PartialEq, Eq, Structural)]
pub struct VpcParser {
    pub proxy_arp_enable: bool,
}

/// What a packet looks like once its inner Ethernet header `eth` at `at` is known.
pub open spec fn with_inner_ether(
    meta: PacketMeta,
    offsets: HeaderOffsets,
    eth: crate::ether::EtherMeta,
    at: int,
) -> PacketInfo {
    PacketInfo {
        meta: PacketMeta { inner: crate::packet::InnerMeta { ether: Some(eth), ..meta.inner }, ..meta },
        offsets: HeaderOffsets {
            inner: crate::packet::InnerOffsets { ether: Some(off(at, ETHER_HDR_SZ as int)), ..offsets.inner },
            ..offsets
        },
        body_csum: None,
        hdrs: PacketHdrs { inner_ip: None, inner_ulp: None },
    }
}

/// `info` with the inner network-layer header `ip` of `len` bytes at `at`.
pub open spec fn with_inner_ip(info: PacketInfo, ip: IpHdr, at: int, len: int) -> PacketInfo {
    PacketInfo {
        meta: PacketMeta {
            inner: crate::packet::InnerMeta { ip: Some(ip.spec_meta()), ..info.meta.inner },
            ..info.meta
        },
        offsets: HeaderOffsets {
            inner: crate::packet::InnerOffsets { ip: Some(off(at, len)), ..info.offsets.inner },
            ..info.offsets
        },
        body_csum: None,
        hdrs: PacketHdrs { inner_ip: Some(ip), ..info.hdrs },
    }
}

/// The sum of the words of the body, as the transport checksum gives it: what the checksum
/// stands for, less the transport header and the pseudo-header.
pub open spec fn body_csum_of(ip: IpHdr, ulp: UlpHdr) -> Option<Checksum> {
    match ulp.spec_csum_minus_hdr() {
        Some(c) => Some(c.spec_sub(ip.spec_pseudo_csum())),
        None => None,
    }
}

/// `info` with the inner transport header `ulp` of `len` bytes at `at`, under `ip`.
pub open spec fn with_inner_ulp(info: PacketInfo, ip: IpHdr, ulp: UlpHdr, at: int, len: int) -> PacketInfo {
    PacketInfo {
        meta: PacketMeta {
            inner: crate::packet::InnerMeta { ulp: Some(ulp.spec_meta()), ..info.meta.inner },
            ..info.meta
        },
        offsets: HeaderOffsets {
            inner: crate::packet::InnerOffsets { ulp: Some(off(at, len)), ..info.offsets.inner },
            ..info.offsets
        },
        body_csum: body_csum_of(ip, ulp),
        hdrs: PacketHdrs { inner_ulp: Some(ulp), ..info.hdrs },
    }
}

/// What follows an inner network-layer header `ip` that ends at `at`: nothing more is read
/// of ICMP; a TCP or UDP header is read; any other protocol is refused.
#[verifier::opaque]
pub open spec fn after_ip(b: Seq<u8>, at: int, info: PacketInfo, ip: IpHdr) -> Result<
    PacketInfo,
    ParseErrorView,
> {
    match ip.spec_meta().spec_proto() {
        Protocol::ICMP => Ok(info),
        Protocol::ICMPv6 => Ok(info),
        Protocol::TCP => match tcp_at(b, at) {
            Err(e) => Err(e),
            Ok(h) => Ok(with_inner_ulp(info, ip, UlpHdr::Tcp(h), at, h.hdr_len as int)),
        },
        Protocol::UDP => match udp_at(b, at) {
            Err(e) => Err(e),
            Ok(h) => Ok(with_inner_ulp(info, ip, UlpHdr::Udp(h), at, UDP_HDR_SZ as int)),
        },
        proto => Err(ParseErrorView::UnexpectedProtocol(proto)),
    }
}

/// What the inner headers from `at` on parse to. An ARP frame ends the parse after its
/// Ethernet header where `arp` allows ARP, and is refused where it does not.
#[verifier::opaque]
pub open spec fn inner_spec(b: Seq<u8>, at: int, meta: PacketMeta, offsets: HeaderOffsets, arp: bool) -> Result<
    PacketInfo,
    ParseErrorView,
> {
    match ether_at(b, at) {
        Err(e) => Err(e),
        Ok(eth) => {
            let info = with_inner_ether(meta, offsets, eth, at);
            match eth.ether_type {
                EtherType::Arp => if arp {
                    Ok(info)
                } else {
                    Err(ParseErrorView::UnexpectedEtherType(eth.ether_type))
                },
                EtherType::Ipv4 => match ip4_at(b, at + ETHER_HDR_SZ) {
                    Err(e) => Err(e),
                    Ok(h) => after_ip(
                        b,
                        at + ETHER_HDR_SZ + IPV4_HDR_SZ,
                        with_inner_ip(info, IpHdr::Ip4(h), at + ETHER_HDR_SZ, IPV4_HDR_SZ as int),
                        IpHdr::Ip4(h),
                    ),
                },
                EtherType::Ipv6 => match ip6_at(b, at + ETHER_HDR_SZ) {
                    Err(e) => Err(e),
                    Ok(h) => after_ip(
                        b,
                        at + ETHER_HDR_SZ + IPV6_HDR_SZ,
                        with_inner_ip(info, IpHdr::Ip6(h), at + ETHER_HDR_SZ, IPV6_HDR_SZ as int),
                        IpHdr::Ip6(h),
                    ),
                },
                _ => Err(ParseErrorView::UnexpectedEtherType(eth.ether_type)),
            }
        },
    }
}

/// What a packet from the guest parses to: its own headers, from `at` on.
pub open spec fn outbound_spec(b: Seq<u8>, at: int) -> Result<PacketInfo, ParseErrorView> {
    inner_spec(b, at, PacketMeta::spec_empty(), HeaderOffsets::spec_empty(), true)
}

/// The metadata and the places of the encapsulation from `at` on, and where it ends: an
/// Ethernet header, an IPv6 header, a UDP header to the Geneve port and a Geneve header.
/// Any other outer network or transport layer is refused.
#[verifier::opaque]
pub open spec fn outer_spec(b: Seq<u8>, at: int) -> Result<(PacketMeta, HeaderOffsets, int), ParseErrorView> {
    match ether_at(b, at) {
        Err(e) => Err(e),
        Ok(eth) => match eth.ether_type {
            EtherType::Ipv6 => match ip6_at(b, at + ETHER_HDR_SZ) {
                Err(e) => Err(e),
                Ok(ip) => match ip.next_hdr {
                    Protocol::UDP => match geneve_at(b, at + ETHER_HDR_SZ + IPV6_HDR_SZ) {
                        Err(e) => Err(e),
                        Ok(g) => Ok(
                            (
                                PacketMeta {
                                    outer: crate::packet::OuterMeta {
                                        ether: Some(eth),
                                        ip: Some(crate::headers::IpMeta::Ip6(ip.spec_meta())),
                                        ulp: None,
                                        encap: Some(g.0.spec_meta()),
                                    },
                                    ..PacketMeta::spec_empty()
                                },
                                HeaderOffsets {
                                    outer: crate::packet::OuterOffsets {
                                        ether: Some(off(at, ETHER_HDR_SZ as int)),
                                        ip: Some(off(at + ETHER_HDR_SZ, IPV6_HDR_SZ as int)),
                                        encap: Some(off(at + ETHER_HDR_SZ + IPV6_HDR_SZ, g.1)),
                                    },
                                    ..HeaderOffsets::spec_empty()
                                },
                                at + ETHER_HDR_SZ + IPV6_HDR_SZ + g.1,
                            ),
                        ),
                    },
                    proto => Err(ParseErrorView::UnexpectedProtocol(proto)),
                },
            },
            _ => Err(ParseErrorView::UnexpectedEtherType(eth.ether_type)),
        },
    }
}

/// What a packet for the guest parses to. Without proxy ARP the packet comes from the
/// underlay: the encapsulation is read first and ARP is refused. With proxy ARP the packet
/// comes from the guest's LAN: there is no encapsulation and ARP is let through.
pub open spec fn inbound_spec(b: Seq<u8>, at: int, proxy_arp: bool) -> Result<PacketInfo, ParseErrorView> {
    if proxy_arp {
        inner_spec(b, at, PacketMeta::spec_empty(), HeaderOffsets::spec_empty(), true)
    } else {
        match outer_spec(b, at) {
            Err(e) => Err(e),
            Ok(o) => inner_spec(b, o.2, o.0, o.1, false),
        }
    }
}

/// True when what `info` says of the inner headers fits a packet of `len` bytes: the headers
/// lie within the packet, an IPv4 total length covers its header, the headers kept in full
/// are well formed, and a TCP header is as long as its place.
pub open spec fn fits(info: PacketInfo, len: int) -> bool {
    &&& headers_end(info) <= len
    &&& (info.offsets.inner.ip matches Some(o) ==> o.end() <= len)
    &&& (info.hdrs.inner_ip matches Some(IpHdr::Ip4(h)) ==> h.total_len >= IPV4_HDR_SZ)
    &&& (info.hdrs.inner_ip matches Some(i) ==> i.wf())
    &&& (info.hdrs.inner_ip is Some ==> info.offsets.inner.ip is Some)
    &&& (info.hdrs.inner_ulp matches Some(u) ==> u.wf())
    &&& (info.hdrs.inner_ulp matches Some(UlpHdr::Tcp(h)) ==> info.offsets.inner.ulp is Some
        && info.offsets.inner.ulp->Some_0.hdr_len == h.hdr_len && info.offsets.inner.ulp->Some_0.end() <= len)
}

/// The position after the innermost header that `info` knows.
pub open spec fn headers_end(info: PacketInfo) -> int {
    match info.offsets.inner.ulp {
        Some(o) => o.end(),
        None => match info.offsets.inner.ip {
            Some(o) => o.end(),
            None => match info.offsets.inner.ether {
                Some(o) => o.end(),
                None => 0,
            },
        },
    }
}

impl VpcParser {
    /// A parser for a port on the underlay: no proxy ARP.
    pub fn new() -> (r: VpcParser)
        ensures
            r == (VpcParser { proxy_arp_enable: false }),
    {
        Self { proxy_arp_enable: false }
    }

    // Reads what follows the inner network-layer header.
    fn parse_after_ip(
        rdr: &mut PacketReader,
        meta: PacketMeta,
        offsets: HeaderOffsets,
        hdrs: PacketHdrs,
        ip: IpHdr,
    ) -> (r: Result<PacketInfo, ParseError>)
        requires
            old(rdr).wf(),
            hdrs.inner_ip == Some(ip),
            hdrs.inner_ulp is None,
            offsets.inner.ulp is None,
        ensures
            final(rdr).bytes@ == old(rdr).bytes@,
            final(rdr).wf(),
            match r {
                Ok(info) => after_ip(
                    old(rdr).bytes@,
                    old(rdr).pos as int,
                    PacketInfo { meta, offsets, body_csum: None, hdrs },
                    ip,
                ) == Ok::<PacketInfo, ParseErrorView>(info) && (match info.offsets.inner.ulp {
                    Some(o) => final(rdr).pos == o.end(),
                    None => final(rdr).pos == old(rdr).pos,
                }) && (info.hdrs.inner_ulp matches Some(u) ==> u.wf()) && (info.hdrs.inner_ulp matches Some(
                    UlpHdr::Tcp(h),
                ) ==> info.offsets.inner.ulp is Some && info.offsets.inner.ulp->Some_0.hdr_len == h.hdr_len)
                    && info.hdrs.inner_ip == hdrs.inner_ip && info.offsets.inner.ip == offsets.inner.ip
                    && info.offsets.inner.ether == offsets.inner.ether,
                Err(e) => after_ip(
                    old(rdr).bytes@,
                    old(rdr).pos as int,
                    PacketInfo { meta, offsets, body_csum: None, hdrs },
                    ip,
                ) == Err::<PacketInfo, ParseErrorView>(e@),
            },
    {
        proof {
            reveal(after_ip);
        }
        let mut meta = meta;
        let mut offsets = offsets;
        let mut hdrs = hdrs;
        let pseudo_csum = ip.pseudo_csum();
        let (ulp_hi, ulp_hdr) = match ip.meta().proto() {
            Protocol::ICMP => {
                return Ok(PacketInfo { meta, offsets, body_csum: None, hdrs });
            },
            Protocol::ICMPv6 => {
                return Ok(PacketInfo { meta, offsets, body_csum: None, hdrs });
            },
            Protocol::TCP => Packet::parse_tcp(rdr)?,
            Protocol::UDP => Packet::parse_udp(rdr)?,
            proto => {
                return Err(ParseError::UnexpectedProtocol(proto));
            },
        };
        meta.inner.ulp = Some(ulp_hi.meta);
        offsets.inner.ulp = Some(ulp_hi.offset);
        hdrs.inner_ulp = Some(ulp_hdr);
        let body_csum = if let Some(csum) = ulp_hdr.csum_minus_hdr() {
            Some(csum.sub(pseudo_csum))
        } else {
            None
        };
        Ok(PacketInfo { meta, offsets, body_csum, hdrs })
    }

    // Reads the inner headers.
    fn parse_inner(rdr: &mut PacketReader, meta: PacketMeta, offsets: HeaderOffsets, arp: bool) -> (r: Result<
        PacketInfo,
        ParseError,
    >)
        requires
            old(rdr).wf(),
            offsets.inner.ip is None,
            offsets.inner.ulp is None,
        ensures
            final(rdr).bytes@ == old(rdr).bytes@,
            final(rdr).wf(),
            match r {
                Ok(info) => inner_spec(old(rdr).bytes@, old(rdr).pos as int, meta, offsets, arp) == Ok::<
                    PacketInfo,
                    ParseErrorView,
                >(info) && final(rdr).pos == headers_end(info) && fits(info, old(rdr).bytes@.len() as int),
                Err(e) => inner_spec(old(rdr).bytes@, old(rdr).pos as int, meta, offsets, arp) == Err::<
                    PacketInfo,
                    ParseErrorView,
                >(e@),
            },
    {
        proof {
            reveal(inner_spec);
        }
        let mut meta = meta;
        let mut offsets = offsets;
        let mut hdrs = PacketHdrs { inner_ip: None, inner_ulp: None };
        let (ether_hi, _hdr) = Packet::parse_ether(rdr)?;
        meta.inner.ether = Some(ether_hi.meta);
        offsets.inner.ether = Some(ether_hi.offset);
        let ether_type = ether_hi.meta.ether_type;
        let (ip_hi, ip_hdr) = match ether_type {
            EtherType::Arp => {
                if arp {
                    return Ok(PacketInfo { meta, offsets, body_csum: None, hdrs });
                } else {
                    return Err(ParseError::UnexpectedEtherType(ether_type));
                }
            },
            EtherType::Ipv4 => Packet::parse_ip4(rdr)?,
            EtherType::Ipv6 => Packet::parse_ip6(rdr)?,
            _ => {
                return Err(ParseError::UnexpectedEtherType(ether_type));
            },
        };
        meta.inner.ip = Some(ip_hi.meta);
        offsets.inner.ip = Some(ip_hi.offset);
        hdrs.inner_ip = Some(ip_hdr);
        VpcParser::parse_after_ip(rdr, meta, offsets, hdrs, ip_hdr)
    }

    /// Parses a packet from the guest: Ethernet, then ARP (where the parse ends), IPv4 or
    /// IPv6, then ICMP (where the parse ends), TCP or UDP. The cursor ends after the last
    /// header read.
    pub fn parse_outbound(&self, rdr: &mut PacketReader) -> (r: Result<PacketInfo, ParseError>)
        requires
            old(rdr).wf(),
        ensures
            final(rdr).bytes@ == old(rdr).bytes@,
            final(rdr).wf(),
            match r {
                Ok(info) => outbound_spec(old(rdr).bytes@, old(rdr).pos as int) == Ok::<
                    PacketInfo,
                    ParseErrorView,
                >(info) && final(rdr).pos == headers_end(info) && fits(info, old(rdr).bytes@.len() as int),
                Err(e) => outbound_spec(old(rdr).bytes@, old(rdr).pos as int) == Err::<
                    PacketInfo,
                    ParseErrorView,
                >(e@),
            },
    {
        let meta = PacketMeta::default();
        let offsets = HeaderOffsets::default();
        VpcParser::parse_inner(rdr, meta, offsets, true)
    }

    /// Parses a packet for the guest. Without proxy ARP the encapsulation comes first:
    /// Ethernet, IPv6, UDP to the Geneve port, Geneve; then the inner headers as in
    /// [`VpcParser::parse_outbound`], but without ARP. With proxy ARP there is no
    /// encapsulation and ARP is let through. The cursor ends after the last header read.
    pub fn parse_inbound(&self, rdr: &mut PacketReader) -> (r: Result<PacketInfo, ParseError>)
        requires
            old(rdr).wf(),
        ensures
            final(rdr).bytes@ == old(rdr).bytes@,
            final(rdr).wf(),
            match r {
                Ok(info) => inbound_spec(old(rdr).bytes@, old(rdr).pos as int, self.proxy_arp_enable)
                    == Ok::<PacketInfo, ParseErrorView>(info) && final(rdr).pos == headers_end(info) && fits(
                    info,
                    old(rdr).bytes@.len() as int,
                ),
                Err(e) => inbound_spec(old(rdr).bytes@, old(rdr).pos as int, self.proxy_arp_enable)
                    == Err::<PacketInfo, ParseErrorView>(e@),
            },
    {
        proof {
            reveal(outer_spec);
        }
        let mut meta = PacketMeta::default();
        let mut offsets = HeaderOffsets::default();
        if !self.proxy_arp_enable {
            let (outer_ether_hi, _hdr) = Packet::parse_ether(rdr)?;
            meta.outer.ether = Some(outer_ether_hi.meta);
            offsets.outer.ether = Some(outer_ether_hi.offset);
            let outer_et = outer_ether_hi.meta.ether_type;
            // VPC traffic is delivered exclusively on an IPv6 + Geneve underlay.
            let (outer_ip_hi, _ip_hdr) = match outer_et {
                EtherType::Ipv6 => Packet::parse_ip6(rdr)?,
                _ => {
                    return Err(ParseError::UnexpectedEtherType(outer_et));
                },
            };
            meta.outer.ip = Some(outer_ip_hi.meta);
            offsets.outer.ip = Some(outer_ip_hi.offset);
            let (geneve_hi, _geneve_hdr) = match outer_ip_hi.meta.proto() {
                Protocol::UDP => Packet::parse_geneve(rdr)?,
                proto => {
                    return Err(ParseError::UnexpectedProtocol(proto));
                },
            };
            meta.outer.encap = Some(geneve_hi.meta);
            offsets.outer.encap = Some(geneve_hi.offset);
        }
        VpcParser::parse_inner(rdr, meta, offsets, self.proxy_arp_enable)
    }
}

/// The network personality of a VPC guest interface.
#[derive(Clone, Copy, Debug, PartialEq, Eq, Structural)]
pub struct VpcNetwork {
    pub cfg: VpcCfg,
}

/// What the network personality decides for a packet that it handles itself.
#[derive(Debug)]
pub enum HdlPktAction {
    /// Let the packet through.
    Allow,
    /// Drop the packet.
    Deny,
    /// Drop the packet and send this one back where it came from.
    Hairpin(Packet),
}

/// The network personality could not handle the packet; the text says what it was at.
#[derive(Clone, Copy, Debug, PartialEq, Eq)]
pub struct HdlPktError(pub &'static str);

/// True for an ARP request for an IPv4 address over Ethernet.
pub open spec fn spec_is_arp_req(arp: ArpEthIpv4) -> bool {
    arp.htype == ARP_HTYPE_ETHER && arp.ptype == ETHER_TYPE_IPV4 && arp.op == ArpOp::Request
}

/// True for an ARP request that asks who has `tpa`.
pub open spec fn spec_is_arp_req_for_tpa(tpa: Ipv4Addr, arp: ArpEthIpv4) -> bool {
    spec_is_arp_req(arp) && arp.tpa == tpa
}

/// True for an ARP request for an IPv4 address over Ethernet.
pub fn is_arp_req(arp: &ArpEthIpv4) -> (r: bool)
    ensures
        r == spec_is_arp_req(*arp),
{
    arp.htype == ARP_HTYPE_ETHER && arp.ptype == ETHER_TYPE_IPV4 && arp.op == ArpOp::Request
}

/// True for an ARP request that asks who has `tpa`.
pub fn is_arp_req_for_tpa(tpa: Ipv4Addr, arp: &ArpEthIpv4) -> (r: bool)
    ensures
        r == spec_is_arp_req_for_tpa(tpa, *arp),
{
    if is_arp_req(&arp) {
        if arp.tpa == tpa {
            return true;
        }
    }
    false
}

/// The ARP packet that follows the inner Ethernet header of `pkt`, where one can be read
/// there. It is looked for as many bytes into the packet as that header is long.
pub open spec fn arp_of(pkt: ParsedPacket) -> Option<ArpEthIpv4> {
    match pkt.offsets.inner.ether {
        Some(o) => if o.hdr_len <= pkt.bytes@.len() && ArpEthIpv4::readable(pkt.bytes@, o.hdr_len as int) {
            Some(ArpEthIpv4::read(pkt.bytes@, o.hdr_len as int))
        } else {
            None
        },
        None => None,
    }
}

impl VpcNetwork {
    /// The frame that answers the guest's ARP packet `arp`, if it is answered: a request
    /// for the gateway's address is told the gateway's MAC address.
    pub open spec fn arp_out_reply(self, arp: ArpEthIpv4) -> Option<Seq<u8>> {
        if spec_is_arp_req_for_tpa(self.cfg.ipv4.gateway_ip, arp) {
            Some(arp_reply_frame(self.cfg.gateway_mac, self.cfg.ipv4.gateway_ip, arp.sha, arp.spa))
        } else {
            None
        }
    }

    /// The frame that answers the ARP packet `arp` from outside, if it is answered: with
    /// proxy ARP, a request for the guest's external address, or else for its source NAT
    /// address, is told the guest's MAC address.
    pub open spec fn arp_in_reply(self, arp: ArpEthIpv4) -> Option<Seq<u8>> {
        if self.cfg.proxy_arp_enable && self.cfg.ipv4.external_ips is Some && spec_is_arp_req_for_tpa(
            self.cfg.ipv4.external_ips->Some_0,
            arp,
        ) {
            Some(arp_reply_frame(self.cfg.guest_mac, self.cfg.ipv4.external_ips->Some_0, arp.sha, arp.spa))
        } else if self.cfg.proxy_arp_enable && self.cfg.ipv4.snat is Some && spec_is_arp_req_for_tpa(
            self.cfg.ipv4.snat->Some_0.external_ip,
            arp,
        ) {
            Some(arp_reply_frame(self.cfg.guest_mac, self.cfg.ipv4.snat->Some_0.external_ip, arp.sha, arp.spa))
        } else {
            None
        }
    }

    /// True when `r` is what handling an ARP packet gives, where `arp` is the packet read
    /// (if one could be read), `reply` the frame that answers it (if it is answered), and
    /// `what` the text of the error: a hairpin with the answer, a denial where there is
    /// no answer, an error where no ARP packet could be read.
    pub open spec fn arp_outcome(
        arp: Option<ArpEthIpv4>,
        reply: Option<Seq<u8>>,
        what: Seq<char>,
        r: Result<HdlPktAction, HdlPktError>,
    ) -> bool {
        match r {
            Ok(HdlPktAction::Hairpin(hp)) => arp is Some && reply == Some(hp@) && hp.wf() && hp.seg_ends@.len()
                == 1,
            Ok(HdlPktAction::Deny) => arp is Some && reply is None,
            Ok(HdlPktAction::Allow) => false,
            Err(e) => arp is None && e.0@ == what,
        }
    }

    // Reads the ARP packet after the inner Ethernet header.
    fn read_arp(pkt: &ParsedPacket) -> (r: Option<ArpEthIpv4>)
        ensures
            r == arp_of(*pkt),
    {
        let arp_start = match pkt.hdr_offsets().inner.ether {
            Some(o) => o.hdr_len,
            None => {
                return None;
            },
        };
        let mut rdr = pkt.get_rdr();
        if rdr.seek(arp_start).is_err() {
            return None;
        }
        ArpEthIpv4::parse(rdr.bytes, rdr.pos)
    }

    /// Handles an ARP packet from the guest: a request for the gateway's address is
    /// answered with the gateway's MAC address, any other ARP packet is denied.
    pub fn handle_arp_out(&self, pkt: &mut ParsedPacket) -> (r: Result<HdlPktAction, HdlPktError>)
        ensures
            *final(pkt) == *old(pkt),
            VpcNetwork::arp_outcome(
                arp_of(*old(pkt)),
                if arp_of(*old(pkt)) is Some {
                    self.arp_out_reply(arp_of(*old(pkt))->Some_0)
                } else {
                    None
                },
                "outbound ARP"@,
                r,
            ),
    {
        let arp = match VpcNetwork::read_arp(pkt) {
            Some(a) => a,
            None => {
                return Err(HdlPktError("outbound ARP"));
            },
        };
        let gw_ip = self.cfg.ipv4_cfg().gateway_ip;
        if is_arp_req_for_tpa(gw_ip, &arp) {
            let gw_mac = self.cfg.gateway_mac;
            let hp = gen_arp_reply(gw_mac, gw_ip, arp.sha, arp.spa);
            return Ok(HdlPktAction::Hairpin(hp));
        }
        Ok(HdlPktAction::Deny)
    }

    /// Handles an ARP packet from outside. With proxy ARP, a request for the guest's
    /// external address, or for its source NAT address, is answered with the guest's MAC
    /// address. Any other ARP packet is denied.
    pub fn handle_arp_in(&self, pkt: &mut ParsedPacket) -> (r: Result<HdlPktAction, HdlPktError>)
        ensures
            *final(pkt) == *old(pkt),
            VpcNetwork::arp_outcome(
                arp_of(*old(pkt)),
                if arp_of(*old(pkt)) is Some {
                    self.arp_in_reply(arp_of(*old(pkt))->Some_0)
                } else {
                    None
                },
                "inbound ARP"@,
                r,
            ),
    {
        let arp = match VpcNetwork::read_arp(pkt) {
            Some(a) => a,
            None => {
                return Err(HdlPktError("inbound ARP"));
            },
        };
        let proxy_arp = self.cfg.proxy_arp_enable;
        let guest_mac = self.cfg.guest_mac;
        let ip_cfg = self.cfg.ipv4_cfg();
        // Proxy ARP for any incoming requests for the guest's external IP.
        if let Some(external_ip) = ip_cfg.external_ips {
            if proxy_arp && is_arp_req_for_tpa(external_ip, &arp) {
                let hp = gen_arp_reply(guest_mac, external_ip, arp.sha, arp.spa);
                return Ok(HdlPktAction::Hairpin(hp));
            }
        }
        // Proxy ARP for any incoming requests for the guest's SNAT IP.
        if let Some(snat) = ip_cfg.snat {
            if proxy_arp && is_arp_req_for_tpa(snat.external_ip, &arp) {
                let hp = gen_arp_reply(guest_mac, snat.external_ip, arp.sha, arp.spa);
                return Ok(HdlPktAction::Hairpin(hp));
            }
        }
        Ok(HdlPktAction::Deny)
    }

    /// What handling the packet `pkt` in direction `dir` gives: an ARP frame is handled as
    /// [`VpcNetwork::handle_arp_out`] and [`VpcNetwork::handle_arp_in`] say, any other
    /// packet is denied.
    pub open spec fn handle_pkt_spec(self, dir: Direction, pkt: ParsedPacket, r: Result<HdlPktAction, HdlPktError>) -> bool {
        match pkt.meta.inner.ether {
            Some(e) => match e.ether_type {
                EtherType::Arp => match dir {
                    Direction::Out => VpcNetwork::arp_outcome(
                        arp_of(pkt),
                        if arp_of(pkt) is Some {
                            self.arp_out_reply(arp_of(pkt)->Some_0)
                        } else {
                            None
                        },
                        "outbound ARP"@,
                        r,
                    ),
                    Direction::In => VpcNetwork::arp_outcome(
                        arp_of(pkt),
                        if arp_of(pkt) is Some {
                            self.arp_in_reply(arp_of(pkt)->Some_0)
                        } else {
                            None
                        },
                        "inbound ARP"@,
                        r,
                    ),
                },
                _ => r matches Ok(HdlPktAction::Deny),
            },
            None => r matches Ok(HdlPktAction::Deny),
        }
    }

    /// The frame with which the network answers the packet `pkt` itself, if it does: the
    /// answer to an ARP request that [`VpcNetwork::arp_out_reply`] or
    /// [`VpcNetwork::arp_in_reply`] answers.
    pub open spec fn spec_reply(self, dir: Direction, pkt: ParsedPacket) -> Option<Seq<u8>> {
        match pkt.meta.inner.ether {
            Some(e) => if e.ether_type == EtherType::Arp && arp_of(pkt) is Some {
                match dir {
                    Direction::Out => self.arp_out_reply(arp_of(pkt)->Some_0),
                    Direction::In => self.arp_in_reply(arp_of(pkt)->Some_0),
                }
            } else {
                None
            },
            None => None,
        }
    }

    /// Handles a packet that the layers of the port do not cover: ARP in either direction.
    pub fn handle_pkt(&self, dir: Direction, pkt: &mut ParsedPacket) -> (r: Result<HdlPktAction, HdlPktError>)
        ensures
            *final(pkt) == *old(pkt),
            self.handle_pkt_spec(dir, *old(pkt), r),
            match r {
                Ok(HdlPktAction::Hairpin(hp)) => self.spec_reply(dir, *old(pkt)) == Some(hp@) && hp.wf()
                    && hp.seg_ends@.len() == 1,
                _ => self.spec_reply(dir, *old(pkt)) is None,
            },
    {
        let ether_type = match pkt.meta().inner.ether {
            Some(e) => e.ether_type,
            None => {
                return Ok(HdlPktAction::Deny);
            },
        };
        match (dir, ether_type) {
            (Direction::Out, EtherType::Arp) => self.handle_arp_out(pkt),
            (Direction::In, EtherType::Arp) => self.handle_arp_in(pkt),
            _ => Ok(HdlPktAction::Deny),
        }
    }

    /// The parser that fits the network's configuration.
    pub open spec fn spec_parser(self) -> VpcParser {
        VpcParser { proxy_arp_enable: self.cfg.proxy_arp_enable }
    }

    /// The parser that fits the network's configuration.
    pub fn parser(&self) -> (r: VpcParser)
        ensures
            r == self.spec_parser(),
    {
        VpcParser { proxy_arp_enable: self.cfg.proxy_arp_enable }
    }
}

} // verus!
