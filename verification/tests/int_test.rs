//! Packets built by hand are sent through ports as a guest and as the physical network
//! would send them, and what comes out is checked.

use opte::addr::IpAddr;
use opte::addr::IpCidr;
use opte::addr::Ipv4Addr;
use opte::addr::Ipv6Addr;
use opte::addr::MacAddr;
use opte::api::Direction::In;
use opte::api::Direction::Out;
use opte::arp::ArpEthIpv4;
use opte::arp::ArpOp;
use opte::arp::ARP_HTYPE_ETHER;
use opte::echo;
use opte::encap::Vni;
use opte::ether::EtherHdr;
use opte::ether::EtherMeta;
use opte::ether::EtherType;
use opte::ether::ETHER_HDR_SZ;
use opte::ether::ETHER_TYPE_IPV4;
use opte::firewall;
use opte::firewall::AddFwRuleReq;
use opte::firewall::SetFwRulesReq;
use opte::flow_table::FLOW_DEF_EXPIRE_SECS;
use opte::geneve;
use opte::headers::IpMeta;
use opte::headers::Ipv4Meta;
use opte::headers::Protocol;
use opte::headers::UdpMeta;
use opte::headers::UlpMeta;
use opte::ip4::Ipv4Hdr;
use opte::ip4::UlpCsumOpt;
use opte::meta::Meta;
use opte::overlay;
use opte::overlay::GuestPhysAddr;
use opte::overlay::Virt2Phys;
use opte::packet::Packet;
use opte::packet::PacketWriter;
use opte::packet::ParseError;
use opte::parsed::ParsedPacket;
use opte::port::DropReason;
use opte::port::Port;
use opte::port::PortBuilder;
use opte::port::ProcessError;
use opte::port::ProcessResult;
use opte::port::ProcessResult::Hairpin;
use opte::port::ProcessResult::Modified;
use opte::router;
use opte::router::RouterTarget;
use opte::rule::Action;
use opte::rule::Rule;
use opte::snat;
use opte::tcp::TcpFlags;
use opte::tcp::TcpHdr;
use opte::time::Moment;
use opte::udp::UdpHdr;
use opte::vpc::BoundaryServices;
use opte::vpc::Ipv4Cfg;
use opte::vpc::SNat4Cfg;
use opte::vpc::VpcCfg;
use opte::vpc::VpcNetwork;
use opte::vpc::VpcParser;
use smoltcp::phy::ChecksumCapabilities;
use smoltcp::wire::Icmpv4Packet;
use smoltcp::wire::Icmpv4Repr;
use smoltcp::wire::IpAddress;
use smoltcp::wire::Ipv4Address;
use smoltcp::wire::Ipv4Packet;
use smoltcp::wire::TcpPacket;

// The MAC address that the gateway goes by on the guest's side.
const GW_MAC_ADDR: [u8; 6] = [0xA8, 0x40, 0x25, 0xFF, 0x77, 0x77];

const UFT_LIMIT: u32 = 16;
const TCP_LIMIT: u32 = 16;

fn bsvc() -> BoundaryServices {
    BoundaryServices {
        mac: MacAddr::from([0xA8, 0x40, 0x25, 0x77, 0x77, 0x77]),
        ip: Ipv6Addr::from([
            0xFDu8, 0x00, 0x11, 0x22, 0x33, 0x44, 0x01, 0xFF, 0x00, 0x00, 0x00, 0x00, 0x00, 0x00, 0x77, 0x77,
        ]),
        vni: Vni::new(7777u32).unwrap(),
    }
}

fn lab_cfg() -> VpcCfg {
    VpcCfg {
        ipv4: Ipv4Cfg {
            vpc_subnet: "172.20.14.0/24".parse().unwrap(),
            private_ip: "172.20.14.16".parse().unwrap(),
            gateway_ip: "172.20.14.1".parse().unwrap(),
            snat: Some(SNat4Cfg {
                external_ip: "76.76.21.21".parse().unwrap(),
                port_start: 1025,
                port_end: 4096,
            }),
            external_ips: None,
        },
        guest_mac: MacAddr::from([0xAA, 0x00, 0x04, 0x00, 0xFF, 0x10]),
        gateway_mac: MacAddr::from([0xAA, 0x00, 0x04, 0x00, 0xFF, 0x01]),
        vni: Vni::new(99u32).unwrap(),
        // Site 0xF7, Rack 1, Sled 1, Interface 1
        phys_ip: Ipv6Addr::from([0xFD00u16, 0x0000, 0x00F7, 0x0101, 0x0000, 0x0000, 0x0000, 0x0001]),
        boundary_services: bsvc(),
        proxy_arp_enable: false,
    }
}

fn g1_cfg() -> VpcCfg {
    VpcCfg {
        ipv4: Ipv4Cfg {
            vpc_subnet: "192.168.77.0/24".parse().unwrap(),
            private_ip: "192.168.77.101".parse().unwrap(),
            gateway_ip: "192.168.77.1".parse().unwrap(),
            // NOTE: This is not a routable IP, but remember that a "public IP" for a guest
            // could either be a public, routable IP or simply an IP on their wider LAN.
            snat: Some(SNat4Cfg {
                external_ip: "10.77.77.13".parse().unwrap(),
                port_start: 1025,
                port_end: 4096,
            }),
            external_ips: None,
        },
        guest_mac: MacAddr::from([0xA8, 0x40, 0x25, 0xF7, 0x00, 0x65]),
        gateway_mac: MacAddr::from([0xA8, 0x40, 0x25, 0xF7, 0x00, 0x1]),
        vni: Vni::new(99u32).unwrap(),
        // Site 0xF7, Rack 1, Sled 1, Interface 1
        phys_ip: Ipv6Addr::from([0xFD00u16, 0x0000, 0x00F7, 0x0101, 0x0000, 0x0000, 0x0000, 0x0001]),
        boundary_services: bsvc(),
        proxy_arp_enable: false,
    }
}

fn g2_cfg() -> VpcCfg {
    VpcCfg {
        ipv4: Ipv4Cfg {
            vpc_subnet: "192.168.77.0/24".parse().unwrap(),
            private_ip: "192.168.77.102".parse().unwrap(),
            gateway_ip: "192.168.77.1".parse().unwrap(),
            snat: Some(SNat4Cfg {
                external_ip: "10.77.77.23".parse().unwrap(),
                port_start: 4097,
                port_end: 8192,
            }),
            external_ips: None,
        },
        guest_mac: MacAddr::from([0xA8, 0x40, 0x25, 0xF7, 0x00, 0x66]),
        gateway_mac: MacAddr::from([0xA8, 0x40, 0x25, 0xF7, 0x00, 0x1]),
        vni: Vni::new(99u32).unwrap(),
        // Site 0xF7, Rack 1, Sled 22, Interface 1
        phys_ip: Ipv6Addr::from([0xFD00u16, 0x0000, 0x00F7, 0x0116, 0x0000, 0x0000, 0x0000, 0x0001]),
        boundary_services: bsvc(),
        proxy_arp_enable: false,
    }
}

fn oxide_net_builder(name: &str, cfg: &VpcCfg) -> PortBuilder {
    let mut pb = PortBuilder::new(name, cfg.guest_mac, VpcNetwork { cfg: *cfg });

    let fw_limit = 8096;
    let snat_limit = 8096;
    let one_limit = 1;

    firewall::setup(&mut pb, fw_limit).expect("failed to add firewall layer");
    echo::setup(&mut pb, cfg, one_limit).expect("failed to add gateway layer");
    snat::setup(&mut pb, cfg, snat_limit).expect("failed to add nat layer");
    router::setup(&mut pb, cfg, one_limit).expect("failed to add router layer");
    overlay::setup(&mut pb, cfg, one_limit).expect("failed to add overlay layer");

    // Deny all inbound packets by default.
    pb.add_rule("firewall", In, Rule::match_any(65535, Action::Deny)).unwrap();
    // Allow all outbound by default.
    let act = pb.layer_action("firewall", 0).unwrap();
    pb.add_rule("firewall", Out, Rule::match_any(65535, act)).unwrap();
    pb
}

fn oxide_net_setup(name: &str, cfg: &VpcCfg) -> Port {
    oxide_net_builder(name, cfg).create(UFT_LIMIT, TCP_LIMIT)
}

fn guest_parser() -> VpcParser {
    VpcParser::new()
}

// The bytes of a TCP SYN from `src` to `dst` with the given ports and sequence number.
fn tcp_syn(src: &VpcCfg, dst_ip: Ipv4Addr, dst_mac: MacAddr, sport: u16, dport: u16, seq: u32) -> Vec<u8> {
    let body = vec![];
    let mut tcp = TcpHdr::new(sport, dport);
    tcp.set_flags(TcpFlags::SYN);
    tcp.set_seq(seq);
    let mut ip4 = Ipv4Hdr::new_tcp(&tcp, &body, src.ipv4.private_ip, dst_ip).unwrap();
    ip4.compute_hdr_csum();
    let tcp_csum = ip4.compute_ulp_csum(UlpCsumOpt::Full, &tcp.as_bytes(), &body);
    tcp.set_csum(tcp_csum.finalize());
    let eth = EtherHdr::new(EtherType::Ipv4, src.guest_mac, dst_mac);

    let mut bytes = vec![];
    bytes.extend_from_slice(&eth.as_bytes());
    bytes.extend_from_slice(&ip4.as_bytes());
    bytes.extend_from_slice(&tcp.as_bytes());
    bytes.extend_from_slice(&body);
    bytes
}

fn v2p_with(ip: Ipv4Addr, phys: GuestPhysAddr) -> Meta {
    let mut v2p = Virt2Phys::new();
    v2p.set(IpAddr::Ip4(ip), phys);
    let mut port_meta = Meta::new();
    port_meta.add(v2p).unwrap();
    port_meta
}

// Verify that a port takes packets only while it runs, and that a reset drops its flows
// but keeps its rules.
#[test]
fn port_transitions() {
    // ================================================================
    // Configure ports for g1 and g2.
    // ================================================================
    let g1_cfg = g1_cfg();
    let g2_cfg = g2_cfg();
    let g2_phys = GuestPhysAddr { ether: g2_cfg.guest_mac, ip: g2_cfg.phys_ip };

    // Add V2P mappings that allow guests to resolve each others physical addresses.
    let port_meta = v2p_with(g2_cfg.ipv4.private_ip, g2_phys);

    let mut g1_port = oxide_net_setup("g1_port", &g1_cfg);
    assert_eq!(g1_port.num_rules("firewall", Out), 1);

    // Add router entry that allows Guest 1 to send to Guest 2.
    router::add_entry(
        &mut g1_port,
        IpCidr::Ip4(g2_cfg.ipv4.vpc_subnet),
        RouterTarget::VpcSubnet(IpCidr::Ip4(g2_cfg.ipv4.vpc_subnet)),
    )
    .unwrap();

    // ================================================================
    // Generate a telnet SYN packet from g1 to g2.
    // ================================================================
    let bytes = tcp_syn(&g1_cfg, g2_cfg.ipv4.private_ip, g1_cfg.gateway_mac, 7865, 23, 4224936861);
    let mut g1_pkt = Packet::copy(&bytes).parse(Out, &guest_parser()).unwrap();

    // ================================================================
    // Try processing the packet while taking the port through a Ready
    // -> Running -> Ready transition. Verify that flows are cleared
    // but rules remain.
    // ================================================================
    let res = g1_port.process(Out, &mut g1_pkt, &port_meta);
    assert!(matches!(res, Err(ProcessError::BadState(_))));
    g1_port.start();
    assert_eq!(g1_port.num_rules("firewall", Out), 1);
    let res = g1_port.process(Out, &mut g1_pkt, &port_meta);
    assert!(matches!(res, Ok(Modified)));
    assert_eq!(g1_port.num_flows("firewall", Out), 1);
    assert_eq!(g1_port.num_flows("uft", Out), 1);

    g1_port.reset();
    assert_eq!(g1_port.num_rules("firewall", Out), 1);
    let res = g1_port.process(Out, &mut g1_pkt, &port_meta);
    assert!(matches!(res, Err(ProcessError::BadState(_))));
    assert_eq!(g1_port.num_flows("firewall", Out), 0);
    assert_eq!(g1_port.num_flows("uft", Out), 0);
}

// Verify that the guest can ping the virtual gateway.
#[test]
fn gateway_icmp4_ping() {
    let g1_cfg = g1_cfg();
    let g2_cfg = g2_cfg();
    let g2_phys = GuestPhysAddr { ether: g2_cfg.guest_mac, ip: g2_cfg.phys_ip };

    // Add V2P mappings that allow guests to resolve each others physical addresses.
    let port_meta = v2p_with(g2_cfg.ipv4.private_ip, g2_phys);

    let mut g1_port = oxide_net_setup("g1_port", &g1_cfg);
    g1_port.start();

    // ================================================================
    // Generate an ICMP Echo Request from G1 to Virtual GW
    // ================================================================
    let ident = 7;
    let seq_no = 777;
    let data = b"reunion\0";

    let req = Icmpv4Repr::EchoRequest { ident, seq_no, data: &data[..] };

    let mut body_bytes = vec![0u8; req.buffer_len()];
    let mut req_pkt = Icmpv4Packet::new_unchecked(&mut body_bytes);
    let _ = req.emit(&mut req_pkt, &Default::default());

    let mut ip4 = Ipv4Hdr::from_meta(&Ipv4Meta {
        src: g1_cfg.ipv4.private_ip,
        dst: g1_cfg.ipv4.gateway_ip,
        proto: Protocol::ICMP,
    });
    ip4.set_total_len(u16::try_from(ip4.hdr_len() + req.buffer_len()).unwrap());
    ip4.compute_hdr_csum();

    let eth = EtherMeta { dst: g1_cfg.gateway_mac, src: g1_cfg.guest_mac, ether_type: EtherType::Ipv4 };

    let mut pkt_bytes = Vec::with_capacity(ETHER_HDR_SZ + ip4.hdr_len() + req.buffer_len());
    pkt_bytes.extend_from_slice(&eth.as_bytes());
    pkt_bytes.extend_from_slice(&ip4.as_bytes());
    pkt_bytes.extend_from_slice(&body_bytes);
    let mut g1_pkt = Packet::copy(&pkt_bytes).parse(Out, &guest_parser()).unwrap();

    // ================================================================
    // Run the Echo Request through g1's port in the outbound
    // direction and verify it results in an Echo Reply Hairpin packet
    // back to guest.
    // ================================================================
    let res = g1_port.process(Out, &mut g1_pkt, &port_meta);
    let hp = match res {
        Ok(Hairpin(hp)) => hp,
        _ => panic!("expected Hairpin, got {:?}", res),
    };

    let reply = hp.parse(Out, &guest_parser()).unwrap();

    // Ether + IPv4
    assert_eq!(reply.body_offset(), 14 + 20);
    assert_eq!(reply.body_seg(), 0);

    let meta = reply.meta();
    assert!(meta.outer.ether.is_none());
    assert!(meta.outer.ip.is_none());
    assert!(meta.outer.ulp.is_none());

    match meta.inner.ether.as_ref() {
        Some(eth) => {
            assert_eq!(eth.src, g1_cfg.gateway_mac);
            assert_eq!(eth.dst, g1_cfg.guest_mac);
        }

        None => panic!("no inner ether header"),
    }

    match meta.inner.ip.as_ref().unwrap() {
        IpMeta::Ip4(ip4) => {
            assert_eq!(ip4.src, g1_cfg.ipv4.gateway_ip);
            assert_eq!(ip4.dst, g1_cfg.ipv4.private_ip);
            assert_eq!(ip4.proto, Protocol::ICMP);
        }

        ip6 => panic!("execpted inner IPv4 metadata, got IPv6: {:?}", ip6),
    }

    // Need to seek to body.
    let reply_body = reply.copy_remaining(14 + 20);
    let reply_pkt = Icmpv4Packet::new_checked(&reply_body).unwrap();
    let mut csum = ChecksumCapabilities::ignored();
    csum.ipv4 = smoltcp::phy::Checksum::Rx;
    csum.icmpv4 = smoltcp::phy::Checksum::Rx;
    let reply_icmp = Icmpv4Repr::parse(&reply_pkt, &csum).unwrap();
    match reply_icmp {
        Icmpv4Repr::EchoReply { ident: r_ident, seq_no: r_seq_no, data: r_data } => {
            assert_eq!(r_ident, ident);
            assert_eq!(r_seq_no, seq_no);
            assert_eq!(r_data, data);
        }

        _ => panic!("expected Echo Reply, got {:?}", reply_icmp),
    }
}

// Try to send a TCP packet from one guest to another; but in this case the guest has no
// route to the other guest, resulting in the packet being dropped.
#[test]
fn overlay_guest_to_guest_no_route() {
    // ================================================================
    // Configure ports for g1 and g2.
    // ================================================================
    let g1_cfg = g1_cfg();
    let g2_cfg = g2_cfg();
    let g2_phys = GuestPhysAddr { ether: g2_cfg.guest_mac, ip: g2_cfg.phys_ip };

    // Add V2P mappings that allow guests to resolve each others physical addresses.
    let port_meta = v2p_with(g2_cfg.ipv4.private_ip, g2_phys);

    let mut g1_port = oxide_net_setup("g1_port", &g1_cfg);
    g1_port.start();

    // ================================================================
    // Generate a telnet SYN packet from g1 to g2.
    // ================================================================
    let bytes = tcp_syn(&g1_cfg, g2_cfg.ipv4.private_ip, g1_cfg.gateway_mac, 7865, 23, 4224936861);
    let mut g1_pkt = Packet::copy(&bytes).parse(Out, &guest_parser()).unwrap();

    // ================================================================
    // Run the telnet SYN packet through g1's port in the outbound
    // direction and verify the resulting packet meets expectations.
    // ================================================================
    let res = g1_port.process(Out, &mut g1_pkt, &port_meta);
    assert!(matches!(res, Ok(ProcessResult::Drop { .. })));
}

// Verify that two guests on the same VPC can communicate via overlay. I.e., test routing +
// encap/decap.
#[test]
fn overlay_guest_to_guest() {
    // ================================================================
    // Configure ports for g1 and g2.
    // ================================================================
    let g1_cfg = g1_cfg();
    let g2_cfg = g2_cfg();
    let g2_phys = GuestPhysAddr { ether: g2_cfg.guest_mac, ip: g2_cfg.phys_ip };

    // Add V2P mappings that allow guests to resolve each others physical addresses.
    let port_meta = v2p_with(g2_cfg.ipv4.private_ip, g2_phys);

    let mut g1_port = oxide_net_setup("g1_port", &g1_cfg);
    g1_port.start();

    // Add router entry that allows Guest 1 to send to Guest 2.
    router::add_entry(
        &mut g1_port,
        IpCidr::Ip4(g2_cfg.ipv4.vpc_subnet),
        RouterTarget::VpcSubnet(IpCidr::Ip4(g2_cfg.ipv4.vpc_subnet)),
    )
    .unwrap();

    let mut g2_port = oxide_net_setup("g2_port", &g2_cfg);
    g2_port.start();

    // Add router entry that allows Guest 2 to send to Guest 1.
    router::add_entry(
        &mut g2_port,
        IpCidr::Ip4(g1_cfg.ipv4.vpc_subnet),
        RouterTarget::VpcSubnet(IpCidr::Ip4(g1_cfg.ipv4.vpc_subnet)),
    )
    .unwrap();

    // Allow incoming TCP connection from anyone.
    let rule = "dir=in action=allow priority=10 protocol=TCP";
    let req = AddFwRuleReq { port_name: g2_port.name().to_string(), rule: rule.parse().unwrap() };
    firewall::add_fw_rule(&mut g2_port, &req).unwrap();

    // ================================================================
    // Generate a telnet SYN packet from g1 to g2.
    // ================================================================
    let bytes = tcp_syn(&g1_cfg, g2_cfg.ipv4.private_ip, g1_cfg.gateway_mac, 7865, 23, 4224936861);
    let mut g1_pkt = Packet::copy(&bytes).parse(Out, &guest_parser()).unwrap();

    // ================================================================
    // Run the telnet SYN packet through g1's port in the outbound
    // direction and verify the resulting packet meets expectations.
    // ================================================================
    let res = g1_port.process(Out, &mut g1_pkt, &port_meta);
    assert!(matches!(res, Ok(Modified)));

    // Ether + IPv6 + UDP + Geneve + Ether + IPv4 + TCP
    assert_eq!(g1_pkt.body_offset(), 14 + 40 + 8 + 8 + 14 + 20 + 20);
    assert_eq!(g1_pkt.body_seg(), 1);

    let meta = g1_pkt.meta();
    match meta.outer.ether.as_ref() {
        Some(eth) => {
            assert_eq!(eth.src, MacAddr::zero());
            assert_eq!(eth.dst, MacAddr::zero());
        }

        None => panic!("no outer ether header"),
    }

    match meta.outer.ip.as_ref().unwrap() {
        IpMeta::Ip6(ip6) => {
            assert_eq!(ip6.src, g1_cfg.phys_ip);
            assert_eq!(ip6.dst, g2_cfg.phys_ip);
        }

        val => panic!("expected outer IPv6, got: {:?}", val),
    }

    match meta.outer.ulp.as_ref().unwrap() {
        UlpMeta::Udp(udp) => {
            assert_eq!(udp.src, 7777);
            assert_eq!(udp.dst, geneve::GENEVE_PORT);
        }

        ulp => panic!("expected outer UDP metadata, got: {:?}", ulp),
    }

    match meta.outer.encap.as_ref() {
        Some(geneve) => {
            assert_eq!(geneve.vni, Vni::new(99u32).unwrap());
        }

        None => panic!("expected outer Geneve metadata"),
    }

    match meta.inner.ether.as_ref() {
        Some(eth) => {
            assert_eq!(eth.src, g1_cfg.guest_mac);
            assert_eq!(eth.dst, g2_cfg.guest_mac);
            assert_eq!(eth.ether_type.to_u16(), ETHER_TYPE_IPV4);
        }

        None => panic!("expected inner Ether header"),
    }

    match meta.inner.ip.as_ref().unwrap() {
        IpMeta::Ip4(ip4) => {
            assert_eq!(ip4.src, g1_cfg.ipv4.private_ip);
            assert_eq!(ip4.dst, g2_cfg.ipv4.private_ip);
            assert_eq!(ip4.proto, Protocol::TCP);
        }

        ip6 => panic!("execpted inner IPv4 metadata, got IPv6: {:?}", ip6),
    }

    match meta.inner.ulp.as_ref().unwrap() {
        UlpMeta::Tcp(tcp) => {
            assert_eq!(tcp.src, 7865);
            assert_eq!(tcp.dst, 23);
        }

        ulp => panic!("expected inner TCP metadata, got: {:?}", ulp),
    }

    // ================================================================
    // Now that the packet has been encap'd let's play the role of
    // router and send this inbound to g2's port. For maximum fidelity
    // of the real process we first dump the raw bytes of g1's
    // outgoing packet and then reparse it.
    // ================================================================
    let mblk = g1_pkt.unwrap();
    let mut g2_pkt = Packet::wrap(mblk).parse(In, &g2_port.net.parser()).unwrap();

    let res = g2_port.process(In, &mut g2_pkt, &port_meta);
    assert!(matches!(res, Ok(Modified)));

    // Ether + IPv4 + TCP
    assert_eq!(g2_pkt.body_offset(), 14 + 20 + 20);
    assert_eq!(g2_pkt.body_seg(), 1);

    let g2_meta = g2_pkt.meta();
    assert!(g2_meta.outer.ether.is_none());
    assert!(g2_meta.outer.ip.is_none());
    assert!(g2_meta.outer.ulp.is_none());
    assert!(g2_meta.outer.encap.is_none());

    match g2_meta.inner.ether.as_ref() {
        Some(eth) => {
            assert_eq!(eth.src, g1_cfg.guest_mac);
            assert_eq!(eth.dst, g2_cfg.guest_mac);
            assert_eq!(eth.ether_type.to_u16(), ETHER_TYPE_IPV4);
        }

        None => panic!("expected inner Ether header"),
    }

    match g2_meta.inner.ip.as_ref().unwrap() {
        IpMeta::Ip4(ip4) => {
            assert_eq!(ip4.src, g1_cfg.ipv4.private_ip);
            assert_eq!(ip4.dst, g2_cfg.ipv4.private_ip);
            assert_eq!(ip4.proto, Protocol::TCP);
        }

        ip6 => panic!("execpted inner IPv4 metadata, got IPv6: {:?}", ip6),
    }

    match g2_meta.inner.ulp.as_ref().unwrap() {
        UlpMeta::Tcp(tcp) => {
            assert_eq!(tcp.src, 7865);
            assert_eq!(tcp.dst, 23);
        }

        ulp => panic!("expected inner TCP metadata, got: {:?}", ulp),
    }
}

// Two guests on different, non-peered VPCs should not be able to communicate.
#[test]
fn guest_to_guest_diff_vpc_no_peer() {
    // ================================================================
    // Configure ports for g1 and g2. Place g1 on VNI 99 and g2 on VNI
    // 100.
    // ================================================================
    let g1_cfg = g1_cfg();
    let mut g2_cfg = g2_cfg();
    g2_cfg.vni = Vni::new(100u32).unwrap();

    let g1_phys = GuestPhysAddr { ether: g1_cfg.guest_mac, ip: g1_cfg.phys_ip };

    // Add V2P mappings that allow guests to resolve each others physical addresses. In
    // this case the only guest in VNI 99 is g1.
    let port_meta = v2p_with(g1_cfg.ipv4.private_ip, g1_phys);

    let mut g1_port = oxide_net_setup("g1_port", &g1_cfg);
    g1_port.start();

    // Add router entry that allows g1 to talk to any other guest on its VPC subnet.
    //
    // In this case both g1 and g2 have the same subnet. However, g1 is part of VNI 99, and
    // g2 is part of VNI 100. Without a VPC Peering Gateway they have no way to reach each
    // other.
    router::add_entry(
        &mut g1_port,
        IpCidr::Ip4(g1_cfg.ipv4.vpc_subnet),
        RouterTarget::VpcSubnet(IpCidr::Ip4(g1_cfg.ipv4.vpc_subnet)),
    )
    .unwrap();

    let mut g2_port = oxide_net_setup("g2_port", &g2_cfg);
    g2_port.start();

    // Add router entry that allows Guest 2 to send to Guest 1.
    router::add_entry(
        &mut g2_port,
        IpCidr::Ip4(g1_cfg.ipv4.vpc_subnet),
        RouterTarget::VpcSubnet(IpCidr::Ip4(g1_cfg.ipv4.vpc_subnet)),
    )
    .unwrap();

    // Allow incoming TCP connection from anyone.
    let rule = "dir=in action=allow priority=10 protocol=TCP";
    let req = AddFwRuleReq { port_name: g2_port.name().to_string(), rule: rule.parse().unwrap() };
    firewall::add_fw_rule(&mut g2_port, &req).unwrap();

    // ================================================================
    // Generate a telnet SYN packet from g1 to g2.
    // ================================================================
    let bytes = tcp_syn(&g1_cfg, g2_cfg.ipv4.private_ip, g1_cfg.gateway_mac, 7865, 23, 4224936861);
    let mut g1_pkt = Packet::copy(&bytes).parse(Out, &guest_parser()).unwrap();

    // ================================================================
    // Run the telnet SYN packet through g1's port in the outbound
    // direction and verify the packet is dropped.
    // ================================================================
    let res = g1_port.process(Out, &mut g1_pkt, &port_meta);
    println!("=== res: {:?}", res);
    assert!(matches!(res, Ok(ProcessResult::Drop { .. })));
}

// Verify that a guest can communicate with the internet.
#[test]
fn overlay_guest_to_internet() {
    // ================================================================
    // Configure g1 port.
    // ================================================================
    let g1_cfg = g1_cfg();
    let mut port_meta = Meta::new();
    port_meta.add(Virt2Phys::new()).unwrap();

    let mut g1_port = oxide_net_setup("g1_port", &g1_cfg);
    g1_port.start();

    // Add router entry that allows Guest 1 to reach the internet.
    router::add_entry(&mut g1_port, IpCidr::Ip4("0.0.0.0/0".parse().unwrap()), RouterTarget::InternetGateway)
        .unwrap();

    let dst_ip = "52.10.128.69".parse().unwrap();

    // ================================================================
    // Generate a TCP SYN packet from g1 to zinascii.com
    // ================================================================
    let bytes = tcp_syn(&g1_cfg, dst_ip, MacAddr::from(GW_MAC_ADDR), 54854, 443, 1741469041);
    let mut g1_pkt = Packet::copy(&bytes).parse(Out, &guest_parser()).unwrap();

    // ================================================================
    // Run the telnet SYN packet through g1's port in the outbound
    // direction and verify the resulting packet meets expectations.
    // ================================================================
    let res = g1_port.process(Out, &mut g1_pkt, &port_meta);
    assert!(matches!(res, Ok(Modified)), "bad result: {:?}", res);

    // Ether + IPv6 + UDP + Geneve + Ether + IPv4 + TCP
    assert_eq!(g1_pkt.body_offset(), 14 + 40 + 8 + 8 + 14 + 20 + 20);
    assert_eq!(g1_pkt.body_seg(), 1);

    let meta = g1_pkt.meta();
    match meta.outer.ether.as_ref() {
        Some(eth) => {
            assert_eq!(eth.src, MacAddr::zero());
            assert_eq!(eth.dst, MacAddr::zero());
        }

        None => panic!("no outer ether header"),
    }

    match meta.outer.ip.as_ref().unwrap() {
        IpMeta::Ip6(ip6) => {
            assert_eq!(ip6.src, g1_cfg.phys_ip);
            assert_eq!(ip6.dst, g1_cfg.boundary_services.ip);
        }

        val => panic!("expected outer IPv6, got: {:?}", val),
    }

    match meta.outer.ulp.as_ref().unwrap() {
        UlpMeta::Udp(udp) => {
            assert_eq!(udp.src, 7777);
            assert_eq!(udp.dst, geneve::GENEVE_PORT);
        }

        ulp => panic!("expected outer UDP metadata, got: {:?}", ulp),
    }

    match meta.outer.encap.as_ref() {
        Some(geneve) => {
            assert_eq!(geneve.vni, g1_cfg.boundary_services.vni);
        }

        None => panic!("expected outer Geneve metadata"),
    }

    match meta.inner.ether.as_ref() {
        Some(eth) => {
            assert_eq!(eth.src, g1_cfg.guest_mac);
            assert_eq!(eth.dst, g1_cfg.boundary_services.mac);
            assert_eq!(eth.ether_type.to_u16(), ETHER_TYPE_IPV4);
        }

        None => panic!("expected inner Ether header"),
    }

    match meta.inner.ip.as_ref().unwrap() {
        IpMeta::Ip4(ip4) => {
            assert_eq!(ip4.src, g1_cfg.ipv4.snat.unwrap().external_ip);
            assert_eq!(ip4.dst, dst_ip);
            assert_eq!(ip4.proto, Protocol::TCP);
        }

        ip6 => panic!("execpted inner IPv4 metadata, got IPv6: {:?}", ip6),
    }

    match meta.inner.ulp.as_ref().unwrap() {
        UlpMeta::Tcp(tcp) => {
            let snat = g1_cfg.ipv4.snat.unwrap();
            assert_eq!(tcp.src, (snat.port_start..snat.port_end).rev().next().unwrap());
            assert_eq!(tcp.dst, 443);
        }

        ulp => panic!("expected inner TCP metadata, got: {:?}", ulp),
    }
}

#[test]
fn bad_ip_len() {
    let cfg = lab_cfg();
    let pkt = Packet::with_room(42);

    let ether = EtherMeta { src: cfg.guest_mac, dst: MacAddr::broadcast(), ether_type: EtherType::Ipv4 };

    let mut ip = Ipv4Hdr::from_meta(&Ipv4Meta {
        src: "0.0.0.0".parse().unwrap(),
        dst: Ipv4Addr::local_bcast(),
        proto: Protocol::UDP,
    });

    // We write a total legnth of 4 bytes, which is completely bogus for an IP header and
    // should return an error during processing.
    ip.set_total_len(4);

    let udp = UdpHdr::from_meta(&UdpMeta { src: 68, dst: 67 });

    let mut wtr = PacketWriter::new(pkt, None);
    let _ = wtr.write(&ether.as_bytes()).unwrap();
    let _ = wtr.write(&ip.as_bytes()).unwrap();
    let _ = wtr.write(&udp.as_bytes()).unwrap();
    let res = wtr.finish().parse(Out, &guest_parser());
    assert_eq!(
        res.err().unwrap(),
        ParseError::BadHeader("IPv4: BadTotalLen{total_len:4}".to_string())
    );

    let pkt = Packet::with_room(42);

    let ether = EtherMeta { src: cfg.guest_mac, dst: MacAddr::broadcast(), ether_type: EtherType::Ipv4 };

    let mut ip = Ipv4Hdr::from_meta(&Ipv4Meta {
        src: "0.0.0.0".parse().unwrap(),
        dst: Ipv4Addr::local_bcast(),
        proto: Protocol::UDP,
    });

    // We write an incorrect total legnth of 40 bytes, but the real total length should only
    // be 28 bytes.
    ip.set_total_len(40);

    let udp = UdpHdr::from_meta(&UdpMeta { src: 68, dst: 67 });

    let mut wtr = PacketWriter::new(pkt, None);
    let _ = wtr.write(&ether.as_bytes()).unwrap();
    let _ = wtr.write(&ip.as_bytes()).unwrap();
    let _ = wtr.write(&udp.as_bytes()).unwrap();
    let res = wtr.finish().parse(Out, &guest_parser());
    assert_eq!(res.err().unwrap(), ParseError::BadInnerIpLen { expected: 8, actual: 20 });
}

// Verify that the port generates a hairpin ARP reply when the guest queries for the
// gateway.
#[test]
fn arp_gateway() {
    let cfg = g1_cfg();
    let port_meta = Meta::new();
    let mut port = oxide_net_setup("arp_hairpin", &cfg);
    port.start();
    let reply_hdr_sz = ETHER_HDR_SZ;

    let pkt = Packet::with_room(42);
    let eth_hdr = EtherMeta { dst: MacAddr::from([0xff; 6]), src: cfg.guest_mac, ether_type: EtherType::Arp };

    let arp = ArpEthIpv4 {
        htype: 0x0001,
        ptype: 0x0800,
        hlen: 0x06,
        plen: 0x04,
        op: ArpOp::Request,
        sha: cfg.guest_mac,
        spa: cfg.ipv4.private_ip,
        tha: MacAddr::from([0x00; 6]),
        tpa: cfg.ipv4.gateway_ip,
    };

    let mut wtr = PacketWriter::new(pkt, None);
    let _ = wtr.write(&eth_hdr.as_bytes()).unwrap();
    let _ = wtr.write(&arp.as_bytes()).unwrap();
    let mut pkt = wtr.finish().parse(Out, &guest_parser()).unwrap();

    let res = port.process(Out, &mut pkt, &port_meta);
    match res {
        Ok(Hairpin(hppkt)) => {
            let hppkt = hppkt.parse(Out, &guest_parser()).unwrap();
            let meta = hppkt.meta();
            let ethm = meta.inner.ether.as_ref().unwrap();
            assert_eq!(ethm.dst, cfg.guest_mac);
            assert_eq!(ethm.src, cfg.gateway_mac);
            assert_eq!(ethm.ether_type, EtherType::Arp);

            let arp = ArpEthIpv4::parse(&hppkt.bytes, reply_hdr_sz).unwrap();
            assert_eq!(arp.op, ArpOp::Reply);
            assert_eq!(arp.ptype, ETHER_TYPE_IPV4);
            assert_eq!(arp.htype, ARP_HTYPE_ETHER);

            assert_eq!(arp.sha, cfg.gateway_mac);
            assert_eq!(arp.spa, cfg.ipv4.gateway_ip);
            assert_eq!(arp.tha, cfg.guest_mac);
            assert_eq!(arp.tpa, cfg.ipv4.private_ip);
        }

        res => panic!("expected a Hairpin, got {:?}", res),
    }
}

#[test]
fn flow_expiration() {
    // ================================================================
    // Configure ports for g1 and g2.
    // ================================================================
    let g1_cfg = g1_cfg();
    let g2_cfg = g2_cfg();
    let g2_phys = GuestPhysAddr { ether: g2_cfg.guest_mac, ip: g2_cfg.phys_ip };

    // Add V2P mappings that allow guests to resolve each others physical addresses.
    let port_meta = v2p_with(g2_cfg.ipv4.private_ip, g2_phys);

    let mut g1_port = oxide_net_setup("g1_port", &g1_cfg);
    g1_port.start();
    let now = Moment::now();

    // Add router entry that allows Guest 1 to send to Guest 2.
    router::add_entry(
        &mut g1_port,
        IpCidr::Ip4(g2_cfg.ipv4.vpc_subnet),
        RouterTarget::VpcSubnet(IpCidr::Ip4(g2_cfg.ipv4.vpc_subnet)),
    )
    .unwrap();

    // ================================================================
    // Generate a telnet SYN packet from g1 to g2.
    // ================================================================
    let bytes = tcp_syn(&g1_cfg, g2_cfg.ipv4.private_ip, g1_cfg.gateway_mac, 7865, 23, 4224936861);
    let mut g1_pkt = Packet::copy(&bytes).parse(Out, &guest_parser()).unwrap();

    // ================================================================
    // Run the telnet SYN packet through g1's port in the outbound
    // direction and verify the resulting packet meets expectations.
    // ================================================================
    let res = g1_port.process(Out, &mut g1_pkt, &port_meta);
    assert!(matches!(res, Ok(Modified)));

    // ================================================================
    // Verify expiration
    // ================================================================
    g1_port.expire_flows(now.add_secs(u64::from(FLOW_DEF_EXPIRE_SECS)));
    assert_eq!(g1_port.num_flows("firewall", In), 1);
    assert_eq!(g1_port.num_flows("firewall", Out), 1);
    assert_eq!(g1_port.num_flows("uft", In), 0);
    assert_eq!(g1_port.num_flows("uft", Out), 1);

    g1_port.expire_flows(now.add_secs(u64::from(FLOW_DEF_EXPIRE_SECS) + 1));
    assert_eq!(g1_port.num_flows("firewall", In), 0);
    assert_eq!(g1_port.num_flows("firewall", Out), 0);
    assert_eq!(g1_port.num_flows("uft", In), 0);
    assert_eq!(g1_port.num_flows("uft", Out), 0);
}

#[test]
fn firewall_replace_rules() {
    // ================================================================
    // Configure ports for g1 and g2.
    // ================================================================
    let g1_cfg = g1_cfg();
    let g2_cfg = g2_cfg();
    let g2_phys = GuestPhysAddr { ether: g2_cfg.guest_mac, ip: g2_cfg.phys_ip };

    // Add V2P mappings that allow guests to resolve each others physical addresses.
    let mut port_meta = v2p_with(g2_cfg.ipv4.private_ip, g2_phys);

    let mut g1_port = oxide_net_setup("g1_port", &g1_cfg);
    g1_port.start();

    // Add router entry that allows Guest 1 to send to Guest 2.
    router::add_entry(
        &mut g1_port,
        IpCidr::Ip4(g2_cfg.ipv4.vpc_subnet),
        RouterTarget::VpcSubnet(IpCidr::Ip4(g2_cfg.ipv4.vpc_subnet)),
    )
    .unwrap();

    let mut g2_port = oxide_net_setup("g2_port", &g2_cfg);
    g2_port.start();

    // Allow incoming TCP connection on g2 from anyone.
    let rule = "dir=in action=allow priority=10 protocol=TCP";
    let req = AddFwRuleReq { port_name: g2_port.name().to_string(), rule: rule.parse().unwrap() };
    firewall::add_fw_rule(&mut g2_port, &req).unwrap();

    // ================================================================
    // Generate a telnet SYN packet from g1 to g2.
    // ================================================================
    let bytes = tcp_syn(&g1_cfg, g2_cfg.ipv4.private_ip, g1_cfg.gateway_mac, 7865, 23, 4224936861);
    let mut g1_pkt = Packet::copy(&bytes).parse(Out, &guest_parser()).unwrap();

    // ================================================================
    // Run the telnet SYN packet through g1's port in the outbound
    // direction and verify if passes the firewall.
    // ================================================================
    let res = g1_port.process(Out, &mut g1_pkt, &port_meta);
    assert!(matches!(res, Ok(Modified)));

    // ================================================================
    // Modify the outgoing ruleset, but still allow the traffic to
    // pass. This test makes sure that flow table entries are updated
    // without issue and everything still works.
    // ================================================================
    let any_out = "dir=out action=deny priority=65535 protocol=any";
    let tcp_out = "dir=out action=allow priority=1000 protocol=TCP";
    let req = SetFwRulesReq {
        port_name: g1_port.name().to_string(),
        rules: vec![any_out.parse().unwrap(), tcp_out.parse().unwrap()],
    };
    firewall::set_fw_rules(&mut g1_port, &req).unwrap();
    port_meta.clear();
    port_meta = v2p_with(g2_cfg.ipv4.private_ip, g2_phys);
    let mut g1_pkt2 = Packet::copy(&bytes).parse(Out, &guest_parser()).unwrap();
    let res = g1_port.process(Out, &mut g1_pkt2, &port_meta);
    assert!(matches!(res, Ok(Modified)));

    // ================================================================
    // Now that the packet has been encap'd let's play the role of
    // router and send this inbound to g2's port. For maximum fidelity
    // of the real process we first dump the raw bytes of g1's
    // outgoing packet and then reparse it.
    // ================================================================
    let mblk = g1_pkt.unwrap();
    let mut g2_pkt = Packet::wrap(mblk).parse(In, &g2_port.net.parser()).unwrap();
    port_meta.clear();
    port_meta = v2p_with(g2_cfg.ipv4.private_ip, g2_phys);
    let res = g2_port.process(In, &mut g2_pkt, &port_meta);
    assert!(matches!(res, Ok(Modified)));

    // ================================================================
    // Replace g2's firewall rule set to deny all inbound TCP traffic.
    // Verify the rules have been replaced and retry processing of the
    // g2_pkt, but this time it should be dropped.
    // ================================================================
    assert_eq!(g2_port.num_rules("firewall", In), 2);
    assert_eq!(g2_port.num_flows("firewall", In), 1);
    let new_rule = "dir=in action=deny priority=1000 protocol=TCP";
    let req = SetFwRulesReq { port_name: g2_port.name().to_string(), rules: vec![new_rule.parse().unwrap()] };
    firewall::set_fw_rules(&mut g2_port, &req).unwrap();
    assert_eq!(g2_port.num_rules("firewall", In), 1);
    assert_eq!(g2_port.num_flows("firewall", In), 0);

    // Need to create a new g2_pkt by re-running the process.
    let mut g1_pkt3 = Packet::copy(&bytes).parse(Out, &guest_parser()).unwrap();
    let res = g1_port.process(Out, &mut g1_pkt3, &port_meta);
    assert!(matches!(res, Ok(Modified)));
    let mblk2 = g1_pkt3.unwrap();
    let mut g2_pkt2 = Packet::wrap(mblk2).parse(In, &g2_port.net.parser()).unwrap();

    // Verify the packet is dropped and that the firewall flow table entry (along with its
    // dual) was invalidated.
    let res = g2_port.process(In, &mut g2_pkt2, &port_meta);
    match res {
        Ok(ProcessResult::Drop { reason: DropReason::Layer { name } }) => {
            assert_eq!("firewall", name);
        }

        _ => panic!("expected drop but got: {:?}", res),
    }
}

// What the port sends for the internet can be checked by anyone: the checksums of the
// packet that source NAT has rewritten are right.
#[test]
fn snat_keeps_checksums_right() {
    let g1_cfg = g1_cfg();
    let mut port_meta = Meta::new();
    port_meta.add(Virt2Phys::new()).unwrap();
    let mut g1_port = oxide_net_setup("g1_port", &g1_cfg);
    g1_port.start();
    router::add_entry(&mut g1_port, IpCidr::Ip4("0.0.0.0/0".parse().unwrap()), RouterTarget::InternetGateway)
        .unwrap();
    let dst_ip: Ipv4Addr = "52.10.128.69".parse().unwrap();
    let bytes = tcp_syn(&g1_cfg, dst_ip, MacAddr::from(GW_MAC_ADDR), 54854, 443, 1741469041);

    // What the guest sends is right to begin with.
    let sent = Ipv4Packet::new_checked(&bytes[14..]).unwrap();
    assert!(sent.verify_checksum());
    let sent_tcp = TcpPacket::new_checked(sent.payload()).unwrap();
    assert!(sent_tcp.verify_checksum(
        &IpAddress::Ipv4(Ipv4Address(g1_cfg.ipv4.private_ip.bytes())),
        &IpAddress::Ipv4(Ipv4Address(dst_ip.bytes()))
    ));

    let mut g1_pkt = Packet::copy(&bytes).parse(Out, &guest_parser()).unwrap();
    let res = g1_port.process(Out, &mut g1_pkt, &port_meta);
    assert!(matches!(res, Ok(Modified)), "bad result: {:?}", res);

    let out: ParsedPacket = g1_pkt;
    let inner = &out.bytes[14 + 40 + 8 + 8 + 14..];
    let ip = Ipv4Packet::new_checked(inner).unwrap();
    assert!(ip.verify_checksum());
    assert_eq!(ip.src_addr(), Ipv4Address(g1_cfg.ipv4.snat.unwrap().external_ip.bytes()));
    let tcp = TcpPacket::new_checked(ip.payload()).unwrap();
    assert_eq!(tcp.src_port(), 4095);
    assert!(tcp.verify_checksum(&IpAddress::Ipv4(ip.src_addr()), &IpAddress::Ipv4(ip.dst_addr())));
}
