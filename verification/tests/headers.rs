//! Headers on the wire, and packets parsed in both directions.

use opte::addr::Ipv4Addr;
use opte::addr::Ipv6Addr;
use opte::addr::MacAddr;
use opte::api::Direction::In;
use opte::api::Direction::Out;
use opte::arp::gen_arp_reply;
use opte::arp::ArpEthIpv4;
use opte::arp::ArpOp;
use opte::encap::Vni;
use opte::ether::EtherMeta;
use opte::ether::EtherType;
use opte::geneve::GeneveHdr;
use opte::headers::HdrError;
use opte::headers::IpMeta;
use opte::headers::Ipv4Meta;
use opte::headers::Ipv6Meta;
use opte::headers::Protocol;
use opte::headers::UdpMeta;
use opte::headers::UlpMeta;
use opte::ip4::Ipv4Hdr;
use opte::ip4::UlpCsumOpt;
use opte::ip6::Ipv6Hdr;
use opte::packet::HdrOffset;
use opte::packet::InnerFlowId;
use opte::packet::Packet;
use opte::packet::PacketReader;
use opte::packet::PacketWriter;
use opte::packet::ParseError;
use opte::packet::ReadErr;
use opte::packet::WriteErr;
use opte::parsed::MAX_BODY_LEN;
use opte::tcp::TcpFlags;
use opte::tcp::TcpHdr;
use opte::udp::UdpHdr;
use opte::vpc::VpcParser;

fn mac(last: u8) -> MacAddr {
    MacAddr::from([0xA8, 0x40, 0x25, 0xF7, 0x00, last])
}

fn ip4(s: &str) -> Ipv4Addr {
    s.parse().unwrap()
}

fn udp_packet(body: &[u8]) -> Vec<u8> {
    let eth = EtherMeta::new(EtherType::Ipv4, mac(1), mac(2));
    let mut ip = Ipv4Hdr::from_meta(&Ipv4Meta { src: ip4("10.0.0.1"), dst: ip4("10.0.0.2"), proto: Protocol::UDP });
    ip.set_total_len(u16::try_from(20 + 8 + body.len()).unwrap());
    ip.compute_hdr_csum();
    let mut udp = UdpHdr::from_meta(&UdpMeta { src: 68, dst: 67 });
    udp.length = u16::try_from(8 + body.len()).unwrap();
    let mut bytes = eth.as_bytes();
    bytes.extend_from_slice(&ip.as_bytes());
    bytes.extend_from_slice(&udp.as_bytes());
    bytes.extend_from_slice(body);
    bytes
}

fn encapsulated(inner: &[u8], udp_dst: u16, next_hdr: Protocol, outer_type: EtherType) -> Vec<u8> {
    let eth = EtherMeta::new(outer_type, MacAddr::zero(), MacAddr::zero());
    let mut ip = Ipv6Hdr::from_meta(&Ipv6Meta {
        src: Ipv6Addr { inner: 1 },
        dst: Ipv6Addr { inner: 2 },
        proto: next_hdr,
    });
    ip.pay_len = u16::try_from(16 + inner.len()).unwrap();
    let udp = UdpHdr { src: 7777, dst: udp_dst, length: ip.pay_len, csum: 0 };
    let mut bytes = eth.as_bytes();
    bytes.extend_from_slice(&ip.as_bytes());
    bytes.extend_from_slice(&udp.as_bytes());
    GeneveHdr { vni: Vni::new(99u32).unwrap() }.emit(&mut bytes);
    bytes.extend_from_slice(inner);
    bytes
}

#[test]
fn ether_on_the_wire() {
    let eth = EtherMeta::new(EtherType::Arp, mac(0x65), MacAddr::broadcast());
    let bytes = eth.as_bytes();
    assert_eq!(bytes, vec![0xFF, 0xFF, 0xFF, 0xFF, 0xFF, 0xFF, 0xA8, 0x40, 0x25, 0xF7, 0x00, 0x65, 0x08, 0x06]);
    assert_eq!(EtherMeta::parse(&bytes, 0), Some(eth));
    assert_eq!(EtherMeta::parse(&bytes, 1), None);
    assert_eq!(EtherType::from_u16(0x0800), EtherType::Ipv4);
    assert_eq!(EtherType::from_u16(0x86DD), EtherType::Ipv6);
    assert_eq!(EtherType::from_u16(0x8100), EtherType::Other(0x8100));
    assert_eq!(EtherType::Other(0x8100).to_u16(), 0x8100);
}

#[test]
fn arp_on_the_wire() {
    let reply = gen_arp_reply(mac(1), ip4("192.168.77.1"), mac(0x65), ip4("192.168.77.101"));
    assert_eq!(reply.len(), 42);
    assert_eq!(
        reply.bytes,
        vec![
            0xA8, 0x40, 0x25, 0xF7, 0x00, 0x65, 0xA8, 0x40, 0x25, 0xF7, 0x00, 0x01, 0x08, 0x06, 0x00, 0x01, 0x08,
            0x00, 0x06, 0x04, 0x00, 0x02, 0xA8, 0x40, 0x25, 0xF7, 0x00, 0x01, 192, 168, 77, 1, 0xA8, 0x40, 0x25,
            0xF7, 0x00, 0x65, 192, 168, 77, 101
        ]
    );
    let arp = ArpEthIpv4::parse(&reply.bytes, 14).unwrap();
    assert_eq!(arp.op, ArpOp::Reply);
    assert_eq!(arp.as_bytes(), reply.bytes[14..].to_vec());
    // Too short, other address lengths, other operations.
    assert_eq!(ArpEthIpv4::parse(&reply.bytes, 15), None);
    let mut bad = reply.bytes.clone();
    bad[14 + 4] = 8;
    assert_eq!(ArpEthIpv4::parse(&bad, 14), None);
    let mut bad = reply.bytes.clone();
    bad[14 + 5] = 16;
    assert_eq!(ArpEthIpv4::parse(&bad, 14), None);
    let mut bad = reply.bytes.clone();
    bad[14 + 7] = 3;
    assert_eq!(ArpEthIpv4::parse(&bad, 14), None);
}

#[test]
fn ipv4_on_the_wire() {
    let mut ip = Ipv4Hdr::from_meta(&Ipv4Meta { src: ip4("10.0.0.1"), dst: ip4("10.0.0.2"), proto: Protocol::UDP });
    ip.set_total_len(28);
    ip.compute_hdr_csum();
    let bytes = ip.as_bytes();
    assert_eq!(
        bytes,
        vec![0x45, 0, 0, 28, 0, 0, 0x40, 0, 64, 17, 0x26, 0xCF, 10, 0, 0, 1, 10, 0, 0, 2]
    );
    assert_eq!(Ipv4Hdr::parse(&bytes, 0), Ok(ip));
    assert_eq!(ip.ulp_len(), 8);
    assert_eq!(ip.hdr_len(), 20);
    assert_eq!(ip.meta(), Ipv4Meta { src: ip4("10.0.0.1"), dst: ip4("10.0.0.2"), proto: Protocol::UDP });
    // 0x0A00 + 0x0001 + 0x0A00 + 0x0002 + 17 + 8
    assert_eq!(ip.pseudo_csum().inner, 0x141C);
    assert_eq!(ip.compute_ulp_csum(UlpCsumOpt::Partial, &[1, 2], &[3, 4]).inner, 0x141C);
    assert_eq!(ip.compute_ulp_csum(UlpCsumOpt::Full, &[1, 2], &[3, 4]).inner, 0x141C + 0x0102 + 0x0304);
    assert_eq!(Ipv4Hdr::parse(&bytes[..19], 0), Err(HdrError::Truncated));
    let mut bad = bytes.clone();
    bad[0] = 0x65;
    assert_eq!(Ipv4Hdr::parse(&bad, 0), Err(HdrError::BadVersion { vsn: 6 }));
    let mut bad = bytes.clone();
    bad[0] = 0x46;
    assert_eq!(Ipv4Hdr::parse(&bad, 0), Err(HdrError::BadHeaderLen { hdr_len_bytes: 24 }));
    let mut bad = bytes.clone();
    bad[3] = 19;
    assert_eq!(Ipv4Hdr::parse(&bad, 0), Err(HdrError::BadTotalLen { total_len: 19 }));
    let tcp = TcpHdr::new(1, 2);
    assert_eq!(Ipv4Hdr::new_tcp(&tcp, &[0; 10], ip4("1.1.1.1"), ip4("2.2.2.2")).unwrap().total_len, 50);
    assert!(Ipv4Hdr::new_tcp(&tcp, &vec![0; 65496], ip4("1.1.1.1"), ip4("2.2.2.2")).is_none());
    assert_eq!(Ipv4Hdr::new_tcp(&tcp, &vec![0; 65495], ip4("1.1.1.1"), ip4("2.2.2.2")).unwrap().total_len, 65535);
}

#[test]
fn ipv6_on_the_wire() {
    let mut ip = Ipv6Hdr::from_meta(&Ipv6Meta {
        src: "fd00::1".parse().unwrap(),
        dst: "fd00::2".parse().unwrap(),
        proto: Protocol::UDP,
    });
    ip.pay_len = 8;
    let bytes = ip.as_bytes();
    assert_eq!(bytes.len(), 40);
    assert_eq!(&bytes[..8], &[0x60, 0, 0, 0, 0, 8, 17, 255]);
    assert_eq!(&bytes[8..24], &[0xFD, 0, 0, 0, 0, 0, 0, 0, 0, 0, 0, 0, 0, 0, 0, 1]);
    assert_eq!(Ipv6Hdr::parse(&bytes, 0), Ok(ip));
    // 0xFD00 + 1 + 0xFD00 + 2 + 8 + 17, folded
    assert_eq!(ip.pseudo_csum().inner, 0xFA1D);
    assert_eq!(Ipv6Hdr::parse(&bytes[..39], 0), Err(HdrError::Truncated));
    let mut bad = bytes.clone();
    bad[0] = 0x40;
    assert_eq!(Ipv6Hdr::parse(&bad, 0), Err(HdrError::BadVersion { vsn: 4 }));
}

#[test]
fn tcp_on_the_wire() {
    let mut tcp = TcpHdr::new(7865, 23);
    tcp.set_flags(TcpFlags::SYN);
    tcp.set_seq(4224936861);
    tcp.set_csum(0xABCD);
    let bytes = tcp.as_bytes();
    assert_eq!(
        bytes,
        vec![0x1E, 0xB9, 0, 23, 0xFB, 0xD3, 0x6B, 0x9D, 0, 0, 0, 0, 0x50, 0x02, 0, 0, 0xAB, 0xCD, 0, 0]
    );
    assert_eq!(TcpHdr::parse(&bytes, 0), Ok(tcp));
    assert_eq!(tcp.hdr_len(), 20);
    assert_eq!(tcp.meta().flags, TcpFlags::SYN);
    // Options stay in the packet; the header knows their length and their sum.
    let mut with_opts = bytes.clone();
    with_opts[12] = 0x60;
    with_opts.extend_from_slice(&[2, 4, 5, 0xB4]);
    let parsed = TcpHdr::parse(&with_opts, 0).unwrap();
    assert_eq!(parsed.hdr_len, 24);
    assert_eq!(parsed.opt_csum.inner, 0x0204 + 0x05B4);
    assert_eq!(TcpHdr::parse(&with_opts[..23], 0), Err(HdrError::Truncated));
    assert_eq!(TcpHdr::parse(&bytes[..19], 0), Err(HdrError::Truncated));
    let mut bad = bytes.clone();
    bad[12] = 0x40;
    assert_eq!(TcpHdr::parse(&bad, 0), Err(HdrError::BadHeaderLen { hdr_len_bytes: 16 }));
}

#[test]
fn udp_and_geneve_on_the_wire() {
    let udp = UdpHdr { src: 7777, dst: 6081, length: 24, csum: 0 };
    let bytes = udp.as_bytes();
    assert_eq!(bytes, vec![0x1E, 0x61, 0x17, 0xC1, 0, 24, 0, 0]);
    assert_eq!(UdpHdr::parse(&bytes, 0), Ok(udp));
    assert_eq!(udp.csum_minus_hdr(), None);
    assert_eq!(UdpHdr::parse(&bytes[..7], 0), Err(HdrError::Truncated));
    let mut bad = bytes.clone();
    bad[5] = 7;
    assert_eq!(UdpHdr::parse(&bad, 0), Err(HdrError::BadLength { length: 7 }));

    let mut g = Vec::new();
    GeneveHdr { vni: Vni::new(7777u32).unwrap() }.emit(&mut g);
    assert_eq!(g, vec![0, 0, 0x65, 0x58, 0x00, 0x1E, 0x61, 0]);
    assert_eq!(GeneveHdr::parse(&g, 0), Ok((GeneveHdr { vni: Vni::new(7777u32).unwrap() }, 8)));
    assert_eq!(GeneveHdr::parse(&g[..7], 0), Err(HdrError::Truncated));
    let mut bad = g.clone();
    bad[0] = 0x40;
    assert_eq!(GeneveHdr::parse(&bad, 0), Err(HdrError::BadVersion { vsn: 1 }));
    let mut bad = g.clone();
    bad[2] = 0x08;
    bad[3] = 0x00;
    assert_eq!(GeneveHdr::parse(&bad, 0), Err(HdrError::BadProtoType { proto_type: 0x0800 }));
    // Options are counted in words of four bytes and have to be there.
    let mut opts = g.clone();
    opts[0] = 2;
    assert_eq!(GeneveHdr::parse(&opts, 0), Err(HdrError::Truncated));
    opts.extend_from_slice(&[0; 8]);
    assert_eq!(GeneveHdr::parse(&opts, 0).unwrap().1, 16);
}

#[test]
fn outbound_parse() {
    let bytes = udp_packet(&[1, 2, 3, 4]);
    let pkt = Packet::copy(&bytes).parse(Out, &VpcParser::new()).unwrap();
    assert_eq!(pkt.body_offset(), 42);
    assert_eq!(pkt.body_seg(), 0);
    assert_eq!(pkt.len(), 46);
    assert_eq!(pkt.copy_remaining(42), vec![1, 2, 3, 4]);
    let offsets = pkt.hdr_offsets();
    assert_eq!(offsets.inner.ether, Some(HdrOffset { pkt_pos: 0, hdr_len: 14 }));
    assert_eq!(offsets.inner.ip, Some(HdrOffset { pkt_pos: 14, hdr_len: 20 }));
    assert_eq!(offsets.inner.ulp, Some(HdrOffset { pkt_pos: 34, hdr_len: 8 }));
    assert_eq!(offsets.outer.ether, None);
    assert_eq!(pkt.meta().inner.ulp, Some(UlpMeta::Udp(UdpMeta { src: 68, dst: 67 })));
    assert_eq!(
        pkt.flow(),
        InnerFlowId {
            proto: Protocol::UDP,
            src_ip: opte::addr::IpAddr::Ip4(ip4("10.0.0.1")),
            src_port: 68,
            dst_ip: opte::addr::IpAddr::Ip4(ip4("10.0.0.2")),
            dst_port: 67,
        }
    );
    assert_eq!(pkt.flow().mirror().src_port, 67);
    // No checksum in the datagram, so no sum of the body.
    assert_eq!(pkt.body_csum, None);
}

#[test]
fn parse_refuses() {
    let parser = VpcParser::new();
    let err = |bytes: &[u8], dir| Packet::copy(bytes).parse(dir, &parser).err().unwrap();
    let good = udp_packet(&[]);
    assert_eq!(err(&good[..13], Out), ParseError::BadHeader("Ether: ReadError{error:NotEnoughBytes}".to_string()));
    assert_eq!(err(&good[..33], Out), ParseError::BadHeader("IPv4: ReadError{error:NotEnoughBytes}".to_string()));
    assert_eq!(err(&good[..41], Out), ParseError::BadHeader("UDP: ReadError{error:NotEnoughBytes}".to_string()));
    let mut vlan = good.clone();
    vlan[12] = 0x81;
    vlan[13] = 0x00;
    assert_eq!(err(&vlan, Out), ParseError::UnexpectedEtherType(EtherType::Other(0x8100)));
    let mut gre = good.clone();
    gre[14 + 9] = 47;
    assert_eq!(err(&gre, Out), ParseError::UnexpectedProtocol(Protocol::Unknown(47)));
    let mut v6 = good.clone();
    v6[12] = 0x86;
    v6[13] = 0xDD;
    assert_eq!(err(&v6, Out), ParseError::BadHeader("IPv6: ReadError{error:NotEnoughBytes}".to_string()));

    // Towards the guest the encapsulation comes first, and it is IPv6, UDP and Geneve.
    assert_eq!(err(&good, In), ParseError::UnexpectedEtherType(EtherType::Ipv4));
    let tcp_outer = encapsulated(&good, 6081, Protocol::TCP, EtherType::Ipv6);
    assert_eq!(err(&tcp_outer, In), ParseError::UnexpectedProtocol(Protocol::TCP));
    let other_port = encapsulated(&good, 4789, Protocol::UDP, EtherType::Ipv6);
    assert_eq!(err(&other_port, In), ParseError::BadHeader("UDP: BadPort{port:4789}".to_string()));
    let mut bad_geneve = encapsulated(&good, 6081, Protocol::UDP, EtherType::Ipv6);
    bad_geneve[14 + 40 + 8] = 0x80;
    assert_eq!(err(&bad_geneve, In), ParseError::BadHeader("Geneve: BadVersion{vsn:2}".to_string()));
    // ARP from the underlay is refused.
    let arp = gen_arp_reply(mac(1), ip4("10.0.0.1"), mac(2), ip4("10.0.0.2"));
    let arp_inside = encapsulated(&arp.bytes, 6081, Protocol::UDP, EtherType::Ipv6);
    assert_eq!(err(&arp_inside, In), ParseError::UnexpectedEtherType(EtherType::Arp));

    // A body that is too long to be encapsulated is refused.
    let long = gen_arp_reply(mac(1), ip4("10.0.0.1"), mac(2), ip4("10.0.0.2"));
    let mut long_bytes = long.bytes[..14].to_vec();
    long_bytes.extend_from_slice(&vec![0; MAX_BODY_LEN + 1]);
    assert_eq!(err(&long_bytes, Out), ParseError::BadHeader("Body: TooLong{length:65406}".to_string()));
    long_bytes.pop();
    assert!(Packet::copy(&long_bytes).parse(Out, &parser).is_ok());
}

#[test]
fn inbound_parse() {
    let inner = udp_packet(&[9, 9]);
    let bytes = encapsulated(&inner, 6081, Protocol::UDP, EtherType::Ipv6);
    let pkt = Packet::copy(&bytes).parse(In, &VpcParser::new()).unwrap();
    assert_eq!(pkt.body_offset(), 14 + 40 + 8 + 8 + 14 + 20 + 8);
    let meta = pkt.meta();
    assert_eq!(meta.outer.encap.unwrap().vni, Vni::new(99u32).unwrap());
    assert!(meta.outer.ulp.is_none());
    match meta.outer.ip.unwrap() {
        IpMeta::Ip6(ip6) => assert_eq!(ip6.dst, Ipv6Addr { inner: 2 }),
        other => panic!("expected IPv6, got {:?}", other),
    }
    let offsets = pkt.hdr_offsets();
    assert_eq!(offsets.outer.encap, Some(HdrOffset { pkt_pos: 54, hdr_len: 16 }));
    assert_eq!(offsets.inner.ether, Some(HdrOffset { pkt_pos: 70, hdr_len: 14 }));

    // With proxy ARP the port sits on the guest's LAN: no encapsulation, and ARP passes.
    let lan = VpcParser { proxy_arp_enable: true };
    let plain = Packet::copy(&inner).parse(In, &lan).unwrap();
    assert_eq!(plain.body_offset(), 42);
    assert!(plain.meta().outer.ether.is_none());
    let arp = gen_arp_reply(mac(1), ip4("10.0.0.1"), mac(2), ip4("10.0.0.2"));
    let arp_pkt = arp.parse(In, &lan).unwrap();
    assert_eq!(arp_pkt.body_offset(), 14);
    assert!(arp_pkt.meta().inner.ip.is_none());
}

#[test]
fn segments() {
    let pkt = Packet::wrap(vec![vec![1, 2, 3], vec![], vec![4, 5]]);
    assert_eq!(pkt.bytes, vec![1, 2, 3, 4, 5]);
    assert_eq!(pkt.seg_ends, vec![3, 3, 5]);
    assert_eq!(pkt.len(), 5);
    let empty = Packet::wrap(vec![]);
    assert_eq!(empty.seg_ends, vec![0]);
    let headers = udp_packet(&[]);
    let body = vec![7u8; 4];
    let mut whole = headers.clone();
    whole[17] = 32;
    whole[39] = 12;
    let split = Packet::wrap(vec![whole.clone(), body.clone()]).parse(Out, &VpcParser::new()).unwrap();
    assert_eq!(split.body_seg(), 1);
    assert_eq!(split.unwrap(), vec![whole, body]);
}

#[test]
fn readers_and_writers() {
    let bytes = [1u8, 2, 3];
    let mut rdr = PacketReader::new(&bytes);
    assert_eq!(rdr.pos(), 0);
    assert_eq!(rdr.seek(2), Ok(()));
    assert_eq!(rdr.seek(2), Err(ReadErr::NotEnoughBytes));
    assert_eq!(rdr.pos(), 2);
    assert_eq!(rdr.seek(1), Ok(()));
    assert_eq!(rdr.pos(), 3);

    let mut wtr = PacketWriter::new(Packet::with_room(4), None);
    assert_eq!(wtr.write(&[1, 2, 3]), Ok(()));
    assert_eq!(wtr.write(&[4, 5]), Err(WriteErr::NotEnoughBytes));
    assert_eq!(wtr.write(&[4]), Ok(()));
    let pkt = wtr.finish();
    assert_eq!(pkt.bytes, vec![1, 2, 3, 4]);
    assert_eq!(pkt.seg_ends, vec![4]);
    assert_eq!(pkt.avail, 0);
}
