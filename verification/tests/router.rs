//! Routes, firewall rules and what an operator is shown.

use opte::addr::IpAddr;
use opte::addr::IpCidr;
use opte::addr::Ipv4Addr;
use opte::addr::Ipv6Addr;
use opte::addr::MacAddr;
use opte::api::Direction::In;
use opte::api::Direction::Out;
use opte::dump::LayerDesc;
use opte::dump::ListLayersResp;
use opte::dump::RuleDump;
use opte::echo;
use opte::encap::Vni;
use opte::ether::EtherMeta;
use opte::ether::EtherType;
use opte::firewall;
use opte::firewall::from_fw_rule;
use opte::firewall::AddFwRuleReq;
use opte::firewall::Address;
use opte::firewall::FirewallAction;
use opte::firewall::FirewallRule;
use opte::firewall::Ports;
use opte::firewall::ProtoFilter;
use opte::firewall::RemFwRuleReq;
use opte::firewall::SetFwRulesReq;
use opte::flow_table::FlowEntryDump;
use opte::headers::Protocol;
use opte::ip4::Ipv4Hdr;
use opte::ip4::UlpCsumOpt;
use opte::meta::ActionMeta;
use opte::meta::Meta;
use opte::overlay;
use opte::overlay::GuestPhysAddr;
use opte::overlay::Virt2Phys;
use opte::packet::InnerFlowId;
use opte::packet::Packet;
use opte::parsed::ParsedPacket;
use opte::port::DropReason;
use opte::port::OpteError;
use opte::port::Port;
use opte::port::PortBuilder;
use opte::port::ProcessResult;
use opte::predicate::DataPredicate;
use opte::predicate::Ipv4AddrMatch;
use opte::predicate::Ipv6AddrMatch;
use opte::predicate::Matcher;
use opte::predicate::PortMatch;
use opte::predicate::Predicate;
use opte::print::flow_header;
use opte::print::flow_text;
use opte::print::hr;
use opte::print::hrb;
use opte::print::layer_string;
use opte::print::list_layers_string;
use opte::print::rule_header;
use opte::print::rule_text;
use opte::print::rule_text_with;
use opte::print::uft_string;
use opte::router;
use opte::router::make_rule;
use opte::router::prefix_len_to_priority;
use opte::router::valid_router_dest_target_pair;
use opte::router::ActionMetaValue;
use opte::router::AllowOrDeny;
use opte::router::DelRouterEntryResp;
use opte::router::MetaAction;
use opte::router::RouterAction;
use opte::router::RouterTarget;
use opte::router::RouterTargetInternal;
use opte::rule::Action;
use opte::rule::Rule;
use opte::snat;
use opte::tcp::TcpFlags;
use opte::tcp::TcpHdr;
use opte::time::Moment;
use opte::vpc::BoundaryServices;
use opte::vpc::Ipv4Cfg;
use opte::vpc::SNat4Cfg;
use opte::vpc::VpcCfg;
use opte::vpc::VpcNetwork;
use opte::vpc::VpcParser;

fn ip4(s: &str) -> Ipv4Addr {
    s.parse().unwrap()
}

fn cidr4(s: &str) -> IpCidr {
    IpCidr::Ip4(s.parse().unwrap())
}

fn cidr6(s: &str) -> IpCidr {
    IpCidr::Ip6(s.parse().unwrap())
}

fn at(secs: u64) -> Moment {
    Moment::from_nanos(1_000_000_000).add_secs(secs)
}

fn cfg() -> VpcCfg {
    VpcCfg {
        ipv4: Ipv4Cfg {
            vpc_subnet: "192.168.77.0/24".parse().unwrap(),
            private_ip: ip4("192.168.77.101"),
            gateway_ip: ip4("192.168.77.1"),
            snat: Some(SNat4Cfg { external_ip: ip4("10.77.77.13"), port_start: 1025, port_end: 4096 }),
            external_ips: None,
        },
        guest_mac: MacAddr::from([0xA8, 0x40, 0x25, 0xF7, 0x00, 0x65]),
        gateway_mac: MacAddr::from([0xA8, 0x40, 0x25, 0xF7, 0x00, 0x01]),
        vni: Vni::new(99u32).unwrap(),
        phys_ip: "fd00:0:f7:101::1".parse().unwrap(),
        boundary_services: BoundaryServices {
            mac: MacAddr::from([0xA8, 0x40, 0x25, 0x77, 0x77, 0x77]),
            ip: "fd00:1122:3344:1ff::7777".parse().unwrap(),
            vni: Vni::new(7777u32).unwrap(),
        },
        proxy_arp_enable: false,
    }
}

fn port() -> Port {
    let c = cfg();
    let mut pb = PortBuilder::new("g1", c.guest_mac, VpcNetwork { cfg: c });
    firewall::setup(&mut pb, 8).unwrap();
    echo::setup(&mut pb, &c, 1).unwrap();
    snat::setup(&mut pb, &c, 8).unwrap();
    router::setup(&mut pb, &c, 1).unwrap();
    overlay::setup(&mut pb, &c, 1).unwrap();
    let act = pb.layer_action("firewall", 0).unwrap();
    pb.add_rule("firewall", Out, Rule::match_any(65535, act)).unwrap();
    let mut port = pb.create(4, 4);
    port.start();
    port
}

fn syn_to(dst: &str, dport: u16) -> ParsedPacket {
    let c = cfg();
    let mut tcp = TcpHdr::new(5000, dport);
    tcp.set_flags(TcpFlags::SYN);
    let mut ip = Ipv4Hdr::new_tcp(&tcp, &[], c.ipv4.private_ip, ip4(dst)).unwrap();
    ip.compute_hdr_csum();
    let csum = ip.compute_ulp_csum(UlpCsumOpt::Full, &tcp.as_bytes(), &[]);
    tcp.set_csum(csum.finalize());
    let mut bytes = EtherMeta::new(EtherType::Ipv4, c.guest_mac, c.gateway_mac).as_bytes();
    bytes.extend_from_slice(&ip.as_bytes());
    bytes.extend_from_slice(&tcp.as_bytes());
    Packet::copy(&bytes).parse(Out, &VpcParser::new()).unwrap()
}

fn everyone_known() -> Meta {
    let mut v2p = Virt2Phys::new();
    for last in [5u8, 102] {
        v2p.set(
            IpAddr::Ip4(Ipv4Addr::from([192, 168, 77, last])),
            GuestPhysAddr { ether: MacAddr::from([2, 0, 0, 0, 0, last]), ip: Ipv6Addr { inner: u128::from(last) } },
        );
    }
    let mut meta = Meta::new();
    meta.add(v2p).unwrap();
    meta
}

#[test]
fn route_priorities() {
    assert_eq!(prefix_len_to_priority(&cidr4("10.1.2.3/32")), 10);
    assert_eq!(prefix_len_to_priority(&cidr4("10.1.2.0/31")), 11);
    assert_eq!(prefix_len_to_priority(&cidr4("192.168.77.0/24")), 18);
    assert_eq!(prefix_len_to_priority(&cidr4("0.0.0.0/0")), 42);
    assert_eq!(prefix_len_to_priority(&cidr6("fd00::1/128")), 10);
    assert_eq!(prefix_len_to_priority(&cidr6("fd00::/64")), 74);
    assert_eq!(prefix_len_to_priority(&cidr6("::/0")), 138);
}

#[test]
fn route_targets_by_family() {
    let v4 = cidr4("192.168.77.0/24");
    let v6 = cidr6("fd00::/64");
    let ip4t = RouterTarget::Ip(IpAddr::Ip4(ip4("10.0.0.1")));
    let ip6t = RouterTarget::Ip(IpAddr::Ip6(Ipv6Addr { inner: 1 }));
    assert!(valid_router_dest_target_pair(&v4, &RouterTarget::Drop));
    assert!(valid_router_dest_target_pair(&v6, &RouterTarget::Drop));
    assert!(valid_router_dest_target_pair(&v4, &ip4t));
    assert!(valid_router_dest_target_pair(&v4, &RouterTarget::VpcSubnet(v4)));
    assert!(valid_router_dest_target_pair(&v6, &ip6t));
    assert!(valid_router_dest_target_pair(&v6, &RouterTarget::VpcSubnet(v6)));
    assert!(!valid_router_dest_target_pair(&v4, &ip6t));
    assert!(!valid_router_dest_target_pair(&v4, &RouterTarget::VpcSubnet(v6)));
    assert!(!valid_router_dest_target_pair(&v6, &ip4t));
    assert!(!valid_router_dest_target_pair(&v6, &RouterTarget::VpcSubnet(v4)));
    assert!(valid_router_dest_target_pair(&cidr4("0.0.0.0/0"), &RouterTarget::InternetGateway));
    assert!(valid_router_dest_target_pair(&cidr6("::/0"), &RouterTarget::InternetGateway));
    assert!(!valid_router_dest_target_pair(&v4, &RouterTarget::InternetGateway));
    assert!(!valid_router_dest_target_pair(&v6, &RouterTarget::InternetGateway));
}

#[test]
fn route_rules() {
    let rule = make_rule(cidr4("192.168.77.0/24"), RouterTarget::VpcSubnet(cidr4("192.168.77.0/24"))).unwrap();
    assert_eq!(rule.priority, 18);
    assert_eq!(rule.id, 0);
    assert_eq!(
        rule.action,
        Action::Meta(RouterAction::new(RouterTargetInternal::VpcSubnet(cidr4("192.168.77.0/24"))))
    );
    assert_eq!(rule.predicates.len(), 1);
    assert_eq!(rule.predicates[0].to_string(), "inner.ip.dst=192.168.77.0/24");
    assert!(rule.data_predicates.is_empty());
    let drop = make_rule(cidr6("fd00::/64"), RouterTarget::Drop).unwrap();
    assert_eq!(drop.action, Action::Deny);
    assert_eq!(drop.priority, 74);
    assert_eq!(drop.predicates[0].to_string(), "inner.ip6.dst=fd00::/64");
    let ig = make_rule(cidr4("0.0.0.0/0"), RouterTarget::InternetGateway).unwrap();
    assert_eq!(ig.action, Action::Meta(RouterAction::new(RouterTargetInternal::InternetGateway)));
    let ip = make_rule(cidr4("10.0.0.0/8"), RouterTarget::Ip(IpAddr::Ip4(ip4("10.0.0.1")))).unwrap();
    assert_eq!(ip.action, Action::Meta(RouterAction::new(RouterTargetInternal::Ip(IpAddr::Ip4(ip4("10.0.0.1"))))));
    match make_rule(cidr4("10.0.0.0/8"), RouterTarget::InternetGateway) {
        Err(OpteError::InvalidRouterEntry { dest, target }) => {
            assert_eq!(dest, cidr4("10.0.0.0/8"));
            assert_eq!(target, "ig");
        }
        other => panic!("expected an error, got {:?}", other),
    }
    match make_rule(cidr4("10.0.0.0/8"), RouterTarget::Ip(IpAddr::Ip6(Ipv6Addr { inner: 1 }))) {
        Err(OpteError::InvalidRouterEntry { target, .. }) => assert_eq!(target, "ip6=::1"),
        other => panic!("expected an error, got {:?}", other),
    }
    assert_eq!(RouterTarget::Drop.to_string(), "drop");
    assert_eq!(RouterTarget::VpcSubnet(cidr4("10.0.0.0/8")).to_string(), "sub4=10.0.0.0/8");
}

#[test]
fn router_target_texts() {
    let targets = [
        (RouterTargetInternal::InternetGateway, "ig", "IG"),
        (RouterTargetInternal::Ip(IpAddr::Ip4(ip4("10.0.0.1"))), "ip4=10.0.0.1", "IP: 10.0.0.1"),
        (RouterTargetInternal::Ip(IpAddr::Ip6(Ipv6Addr { inner: 1 })), "ip6=::1", "IP: ::1"),
        (RouterTargetInternal::VpcSubnet(cidr4("192.168.77.0/24")), "sub4=192.168.77.0/24", "Subnet: 192.168.77.0/24"),
        (RouterTargetInternal::VpcSubnet(cidr6("fd00::/64")), "sub6=fd00::/64", "Subnet: fd00::/64"),
    ];
    for (target, meta, shown) in targets {
        assert_eq!(target.as_meta(), meta);
        assert_eq!(RouterTargetInternal::from_meta(meta), Ok(target));
        assert_eq!(target.to_string(), shown);
        assert_eq!(target.key(), "router-target");
        assert_eq!(RouterAction::new(target).to_string(), format!("Target = {}", shown));
    }
    assert_eq!(RouterTargetInternal::from_meta("IG").unwrap_err(), "bad router target: IG");
    assert_eq!(RouterTargetInternal::from_meta("").unwrap_err(), "bad router target: ");
    assert_eq!(RouterTargetInternal::from_meta("ip5=1.2.3.4").unwrap_err(), "bad router target: ip5=1.2.3.4");
    assert_eq!(RouterTargetInternal::from_meta("ip4=1.2.3").unwrap_err(), "malformed ip: 1.2.3");
    assert_eq!(RouterTargetInternal::from_meta("ip6=1.2.3.4").unwrap_err(), "malformed ip: 1.2.3.4");
    assert_eq!(RouterTargetInternal::from_meta("sub4=1.2.3.4").unwrap_err(), "malformed cidr: 1.2.3.4");
    assert_eq!(RouterTargetInternal::from_meta("sub6=::/200").unwrap_err(), "malformed cidr: ::/200");
    // Only the first equals sign parts key and value.
    assert_eq!(RouterTargetInternal::from_meta("ip4=1.2.3.4=5").unwrap_err(), "malformed ip: 1.2.3.4=5");

    let action = RouterAction::new(RouterTargetInternal::InternetGateway);
    let (preds, data_preds) = action.implicit_preds();
    assert!(preds.is_empty() && data_preds.is_empty());
    let mut ameta = ActionMeta::new();
    let flow = syn_to("8.8.8.8", 443).flow();
    assert_eq!(action.mod_meta(&flow, &mut ameta), Ok(AllowOrDeny::Allow(())));
    assert_eq!(ameta.router_target, Some(RouterTargetInternal::InternetGateway));
}

#[test]
fn longest_prefix_wins() {
    let mut p = port();
    let meta = everyone_known();
    // The subnet is routed, but one host in it is dropped, whatever the order of the
    // entries.
    router::add_entry(&mut p, cidr4("192.168.77.5/32"), RouterTarget::Drop).unwrap();
    router::add_entry(&mut p, cidr4("192.168.77.0/24"), RouterTarget::VpcSubnet(cidr4("192.168.77.0/24"))).unwrap();
    router::add_entry(&mut p, cidr4("192.168.77.102/32"), RouterTarget::Drop).unwrap();
    let priorities: Vec<u16> = p.layers[2].rules_out.iter().map(|r| r.priority).collect();
    assert_eq!(priorities, vec![10, 10, 18]);
    for host in ["192.168.77.5", "192.168.77.102"] {
        match p.process_at(Out, &mut syn_to(host, 80), &meta, at(0)) {
            Ok(ProcessResult::Drop { reason: DropReason::Layer { name } }) => assert_eq!(name, "router"),
            other => panic!("expected a drop, got {:?}", other),
        }
    }
    // Without the host route the subnet route decides.
    assert_eq!(
        router::del_entry(&mut p, cidr4("192.168.77.102/32"), RouterTarget::Drop),
        Ok(DelRouterEntryResp::Deleted)
    );
    assert!(matches!(p.process_at(Out, &mut syn_to("192.168.77.102", 80), &meta, at(0)), Ok(ProcessResult::Modified)));
    assert!(matches!(
        p.process_at(Out, &mut syn_to("192.168.77.5", 80), &meta, at(0)),
        Ok(ProcessResult::Drop { .. })
    ));
}

#[test]
fn router_entries() {
    let mut p = port();
    let dest = cidr4("10.0.0.0/8");
    let target = RouterTarget::Ip(IpAddr::Ip4(ip4("192.168.77.102")));
    assert_eq!(router::del_entry(&mut p, dest, target), Ok(DelRouterEntryResp::NotFound));
    assert!(router::add_entry(&mut p, dest, target).is_ok());
    assert_eq!(p.num_rules("router", Out), 1);
    // Another target, or another destination, is another entry.
    assert_eq!(router::del_entry(&mut p, dest, RouterTarget::Drop), Ok(DelRouterEntryResp::NotFound));
    assert_eq!(router::del_entry(&mut p, cidr4("10.0.0.0/9"), target), Ok(DelRouterEntryResp::NotFound));
    assert_eq!(router::del_entry(&mut p, dest, target), Ok(DelRouterEntryResp::Deleted));
    assert_eq!(p.num_rules("router", Out), 0);
    assert!(matches!(
        router::add_entry(&mut p, dest, RouterTarget::InternetGateway),
        Err(OpteError::InvalidRouterEntry { .. })
    ));
    assert!(matches!(
        router::del_entry(&mut p, dest, RouterTarget::InternetGateway),
        Err(OpteError::InvalidRouterEntry { .. })
    ));
    assert_eq!(p.num_rules("router", Out), 0);

    router::add_entry(&mut p, dest, target).unwrap();
    let entries = vec![
        (cidr4("0.0.0.0/0"), RouterTarget::InternetGateway),
        (cidr4("192.168.77.0/24"), RouterTarget::VpcSubnet(cidr4("192.168.77.0/24"))),
        (cidr6("fd00::/64"), RouterTarget::Drop),
    ];
    assert!(router::replace(&mut p, entries).is_ok());
    let priorities: Vec<u16> = p.layers[2].rules_out.iter().map(|r| r.priority).collect();
    assert_eq!(priorities, vec![18, 42, 74]);
    assert_eq!(p.num_rules("router", In), 0);
    // One entry that is not valid, and nothing changes.
    let bad = vec![(cidr4("0.0.0.0/0"), RouterTarget::Drop), (cidr4("10.0.0.0/8"), RouterTarget::InternetGateway)];
    match router::replace(&mut p, bad) {
        Err(OpteError::InvalidRouterEntry { dest, target }) => {
            assert_eq!(dest, cidr4("10.0.0.0/8"));
            assert_eq!(target, "ig");
        }
        other => panic!("expected an error, got {:?}", other),
    }
    assert_eq!(p.num_rules("router", Out), 3);
    assert!(router::replace(&mut p, vec![]).is_ok());
    assert_eq!(p.num_rules("router", Out), 0);

    // A port without a router layer has no place for entries.
    let c = cfg();
    let mut bare = PortBuilder::new("bare", c.guest_mac, VpcNetwork { cfg: c }).create(1, 1);
    let missing = Err(OpteError::LayerNotFound("router".to_string()));
    assert_eq!(router::add_entry(&mut bare, dest, target), missing);
    assert_eq!(router::del_entry(&mut bare, dest, target).err(), missing.clone().err());
    assert_eq!(router::replace(&mut bare, vec![]), missing);
}

#[test]
fn firewall_rule_texts() {
    let rule: FirewallRule = "dir=in action=allow priority=10 protocol=TCP".parse().unwrap();
    assert_eq!(
        rule,
        FirewallRule {
            direction: In,
            action: FirewallAction::Allow,
            priority: 10,
            proto: ProtoFilter::Proto(Protocol::TCP),
            hosts: Address::Any,
            ports: Ports::Any,
        }
    );
    let rule: FirewallRule =
        "protocol=UDP hosts=10.0.0.0/8 ports=53 priority=65535 action=deny dir=out".parse().unwrap();
    assert_eq!(rule.direction, Out);
    assert_eq!(rule.action, FirewallAction::Deny);
    assert_eq!(rule.priority, 65535);
    assert_eq!(rule.proto, ProtoFilter::Proto(Protocol::UDP));
    assert_eq!(rule.hosts, Address::Subnet("10.0.0.0/8".parse().unwrap()));
    assert_eq!(rule.ports, Ports::Range(53, 53));
    let rule: FirewallRule =
        "dir=in action=allow priority=0 protocol=ICMP hosts=any ports=any".parse().unwrap();
    assert_eq!(rule.proto, ProtoFilter::Proto(Protocol::ICMP));
    assert_eq!(rule.hosts, Address::Any);
    let rule: FirewallRule =
        "dir=in dir=out action=allow priority=1 protocol=any ports=8000-8080".parse().unwrap();
    assert_eq!(rule.direction, Out);
    assert_eq!(rule.proto, ProtoFilter::Any);
    assert_eq!(rule.ports, Ports::Range(8000, 8080));

    let err = |s: &str| s.parse::<FirewallRule>().unwrap_err();
    assert_eq!(err(""), "bad option: ");
    assert_eq!(err("dir=in action=allow priority=10"), "missing option: protocol");
    assert_eq!(err("dir=in action=allow protocol=TCP"), "missing option: priority");
    assert_eq!(err("dir=in priority=10 protocol=TCP"), "missing option: action");
    assert_eq!(err("action=allow priority=10 protocol=TCP"), "missing option: dir");
    assert_eq!(err("dir=in  action=allow priority=10 protocol=TCP"), "bad option: ");
    assert_eq!(err("dir=in action"), "bad option: action");
    assert_eq!(err("dir=in color=red"), "bad option: color=red");
    assert_eq!(err("dir=up"), "bad value: dir=up");
    assert_eq!(err("action=drop"), "bad value: action=drop");
    assert_eq!(err("priority=65536"), "bad value: priority=65536");
    assert_eq!(err("priority="), "bad value: priority=");
    assert_eq!(err("protocol=tcp"), "bad value: protocol=tcp");
    assert_eq!(err("hosts=10.0.0.0"), "bad value: hosts=10.0.0.0");
    assert_eq!(err("ports=80-79"), "bad value: ports=80-79");
    assert_eq!(err("ports=1-2-3"), "bad value: ports=1-2-3");
    assert_eq!(err("ports=65536"), "bad value: ports=65536");
    assert_eq!(err("ports=-"), "bad value: ports=-");
    // The first option that cannot be read ends the reading.
    assert_eq!(err("dir=up color=red"), "bad value: dir=up");
}

#[test]
fn firewall_rules_as_engine_rules() {
    let fr: FirewallRule = "dir=in action=allow priority=10 protocol=TCP hosts=10.0.0.0/8 ports=80-443"
        .parse()
        .unwrap();
    let rule = from_fw_rule(&fr);
    assert_eq!(rule.priority, 10);
    assert_eq!(rule.action, Action::LayerAction(0));
    let shown: Vec<String> = rule.predicates.iter().map(|p| p.to_string()).collect();
    assert_eq!(shown, vec!["inner.ip.proto=TCP", "inner.ip.src=10.0.0.0/8", "inner.ulp.dst=80-443"]);
    let fr: FirewallRule = "dir=out action=deny priority=7 protocol=any hosts=10.0.0.0/8".parse().unwrap();
    let rule = from_fw_rule(&fr);
    assert_eq!(rule.action, Action::Deny);
    let shown: Vec<String> = rule.predicates.iter().map(|p| p.to_string()).collect();
    assert_eq!(shown, vec!["inner.ip.dst=10.0.0.0/8"]);
    let any = from_fw_rule(&"dir=out action=deny priority=7 protocol=any".parse().unwrap());
    assert!(any.predicates.is_empty());
    assert!(any.same_as(&Rule::match_any(7, Action::Deny)));
    assert!(!any.same_as(&Rule::match_any(8, Action::Deny)));
    assert!(!any.same_as(&rule));
    assert!(rule.same_as(&from_fw_rule(&fr)));
}

#[test]
fn firewall_on_a_port() {
    let mut p = port();
    let meta = everyone_known();
    router::add_entry(&mut p, cidr4("192.168.77.0/24"), RouterTarget::VpcSubnet(cidr4("192.168.77.0/24"))).unwrap();
    // Telnet is shut, the rest stays open.
    let shut = AddFwRuleReq {
        port_name: "g1".to_string(),
        rule: "dir=out action=deny priority=100 protocol=TCP ports=23".parse().unwrap(),
    };
    assert!(firewall::add_fw_rule(&mut p, &shut).is_ok());
    assert_eq!(p.num_rules("firewall", Out), 2);
    match p.process_at(Out, &mut syn_to("192.168.77.102", 23), &meta, at(0)) {
        Ok(ProcessResult::Drop { reason: DropReason::Layer { name } }) => assert_eq!(name, "firewall"),
        other => panic!("expected a drop, got {:?}", other),
    }
    assert!(matches!(p.process_at(Out, &mut syn_to("192.168.77.102", 80), &meta, at(0)), Ok(ProcessResult::Modified)));
    let id = p.find_rule("firewall", Out, &from_fw_rule(&shut.rule)).unwrap().unwrap();
    let gone = RemFwRuleReq { port_name: "g1".to_string(), dir: Out, id };
    assert!(firewall::rem_fw_rule(&mut p, &gone).is_ok());
    assert_eq!(firewall::rem_fw_rule(&mut p, &gone), Err(OpteError::RuleNotFound(id)));
    assert!(matches!(p.process_at(Out, &mut syn_to("192.168.77.102", 23), &meta, at(0)), Ok(ProcessResult::Modified)));
    // The rules of a request are sorted by direction.
    let set = SetFwRulesReq {
        port_name: "g1".to_string(),
        rules: vec![
            "dir=in action=deny priority=9 protocol=any".parse().unwrap(),
            "dir=out action=allow priority=8 protocol=TCP".parse().unwrap(),
            "dir=in action=allow priority=7 protocol=UDP".parse().unwrap(),
        ],
    };
    assert!(firewall::set_fw_rules(&mut p, &set).is_ok());
    assert_eq!(p.num_rules("firewall", In), 2);
    assert_eq!(p.num_rules("firewall", Out), 1);
    let priorities: Vec<u16> = p.layers[1].rules_in.iter().map(|r| r.priority).collect();
    assert_eq!(priorities, vec![7, 9]);

    let c = cfg();
    let mut bare = PortBuilder::new("bare", c.guest_mac, VpcNetwork { cfg: c }).create(1, 1);
    let missing = Err(OpteError::LayerNotFound("firewall".to_string()));
    assert_eq!(firewall::add_fw_rule(&mut bare, &shut), missing);
    assert_eq!(firewall::set_fw_rules(&mut bare, &set), missing);
    assert_eq!(firewall::rem_fw_rule(&mut bare, &gone), missing);
}

#[test]
fn predicates() {
    let pkt = syn_to("192.168.77.102", 80);
    let meta = pkt.meta();
    let c = cfg();
    let yes = |p: Predicate| assert!(p.is_match(meta), "{:?}", p);
    let no = |p: Predicate| assert!(!p.is_match(meta), "{:?}", p);
    yes(Predicate::InnerEtherType(vec![EtherType::Arp, EtherType::Ipv4]));
    no(Predicate::InnerEtherType(vec![EtherType::Arp]));
    no(Predicate::InnerEtherType(vec![]));
    yes(Predicate::InnerEtherSrc(vec![c.guest_mac]));
    no(Predicate::InnerEtherDst(vec![c.guest_mac]));
    yes(Predicate::InnerSrcIp4(vec![Ipv4AddrMatch::Exact(c.ipv4.private_ip)]));
    yes(Predicate::InnerDstIp4(vec![Ipv4AddrMatch::Prefix(c.ipv4.vpc_subnet)]));
    no(Predicate::InnerDstIp4(vec![Ipv4AddrMatch::Exact(c.ipv4.private_ip)]));
    // A predicate on a header that the packet does not have is not met, and so its negation
    // is.
    no(Predicate::InnerDstIp6(vec![Ipv6AddrMatch::Prefix("::/0".parse().unwrap())]));
    no(Predicate::InnerSrcIp6(vec![Ipv6AddrMatch::Exact(Ipv6Addr { inner: 0 })]));
    yes(Predicate::Not(Box::new(Predicate::InnerDstIp6(vec![Ipv6AddrMatch::Prefix("::/0".parse().unwrap())]))));
    yes(Predicate::InnerIpProto(vec![Protocol::UDP, Protocol::TCP]));
    yes(Predicate::InnerSrcPort(vec![PortMatch::Exact(5000)]));
    yes(Predicate::InnerDstPort(vec![PortMatch::Range(80, 80)]));
    no(Predicate::InnerDstPort(vec![PortMatch::Range(81, 443), PortMatch::Exact(79)]));
    no(Predicate::Not(Box::new(Predicate::InnerDstPort(vec![PortMatch::Exact(80)]))));
    assert!(!DataPredicate::ICMP4MsgType(8).is_match(meta, &[8]));
    assert_eq!(DataPredicate::ICMP4MsgType(8).to_string(), "icmp.msg_type=8");
    assert_eq!(
        Predicate::Not(Box::new(Predicate::InnerEtherSrc(vec![c.guest_mac, MacAddr::zero()]))).to_string(),
        "!inner.ether.src=A8:40:25:F7:00:65,00:00:00:00:00:00"
    );
    assert_eq!(
        Predicate::InnerEtherType(vec![EtherType::Ipv4, EtherType::Other(2)]).to_string(),
        "inner.ether.ether_type=IPv4,2"
    );
    assert_eq!(Predicate::InnerSrcPort(vec![]).to_string(), "inner.ulp.src=");
    assert!(PortMatch::Range(1, 3).matches(&2));
    assert!(!PortMatch::Range(1, 3).same(&PortMatch::Range(1, 4)));
    assert_eq!(PortMatch::Range(1, 3).text(), "1-3");
    let a = Predicate::InnerDstPort(vec![PortMatch::Exact(1), PortMatch::Exact(2)]);
    assert!(a.same_as(&Predicate::InnerDstPort(vec![PortMatch::Exact(1), PortMatch::Exact(2)])));
    assert!(!a.same_as(&Predicate::InnerDstPort(vec![PortMatch::Exact(2), PortMatch::Exact(1)])));
    assert!(!a.same_as(&Predicate::InnerSrcPort(vec![PortMatch::Exact(1), PortMatch::Exact(2)])));
    assert!(!a.same_as(&Predicate::Not(Box::new(Predicate::InnerSrcPort(vec![])))));
    let mut rule = Rule::new(5, Action::Allow);
    rule.add_predicate(a);
    rule.add_data_predicate(DataPredicate::ICMP4MsgType(8));
    let rule = rule.finalize();
    assert!(!rule.is_match(meta, &[]));
    assert_eq!(Action::LayerAction(3).to_string(), "action 3");
    assert_eq!(Action::StatefulAllow.to_string(), "stateful allow");
}

#[test]
fn tables_for_the_operator() {
    assert_eq!(hrb(), "=".repeat(70));
    assert_eq!(hr(), "-".repeat(70));
    assert_eq!(rule_header(), format!("{:<8} {:<6} {:<48} {:<18}", "ID", "PRI", "PREDICATES", "ACTION"));
    assert_eq!(
        flow_header(),
        format!(
            "{:<6} {:<16} {:<6} {:<16} {:<6} {:<8} {:<22}",
            "PROTO", "SRC IP", "SPORT", "DST IP", "DPORT", "HITS", "ACTION"
        )
    );
    let rule = RuleDump {
        priority: 18,
        predicates: vec!["inner.ip.dst=192.168.77.0/24".to_string(), "inner.ip.proto=TCP".to_string()],
        data_predicates: vec![],
        action: "Target = IG".to_string(),
    };
    assert_eq!(
        rule_text(3, &rule),
        format!("{:<8} {:<6} {:<48} {:<?}", 3, 18, "inner.ip.dst=192.168.77.0/24 inner.ip.proto=TCP ", "Target = IG")
    );
    // A rule without predicates shows a star; words on the action are shown with the
    // escapes that make them one token.
    let bare = RuleDump {
        priority: 65535,
        predicates: vec![],
        data_predicates: vec![],
        action: "say \"no\" \\ and\tgo\n".to_string(),
    };
    assert_eq!(
        rule_text(12, &bare),
        format!("{:<8} {:<6} {:<48} {}", 12, 65535, "*", "\"say \\\"no\\\" \\\\ and\\tgo\\n\"")
    );
    let body_only = RuleDump {
        priority: 1,
        predicates: vec![],
        data_predicates: vec!["icmp.msg_type=8".to_string()],
        action: "allow".to_string(),
    };
    assert_eq!(rule_text(1, &body_only), format!("{:<8} {:<6} {:<48} {}", 1, 1, " icmp.msg_type=8", "\"allow\""));
    assert_eq!(rule_text_with(1, &body_only, "deny"), format!("{:<8} {:<6} {:<48} {}", 1, 1, " icmp.msg_type=8", "deny"));
    let flow = InnerFlowId {
        proto: Protocol::TCP,
        src_ip: IpAddr::Ip4(ip4("192.168.77.101")),
        src_port: 7865,
        dst_ip: IpAddr::Ip4(ip4("192.168.77.102")),
        dst_port: 23,
    };
    let entry = FlowEntryDump { hits: 2, state_summary: "allow".to_string() };
    assert_eq!(
        flow_text(&flow, &entry),
        format!(
            "{:<6} {:<16} {:<6} {:<16} {:<6} {:<8} {:<22}",
            "TCP", "192.168.77.101", 7865, "192.168.77.102", 23, 2, "allow"
        )
    );
    // A text that is wider than its column is not cut.
    let wide = FlowEntryDump { hits: 0, state_summary: "a state with a very long summary".to_string() };
    assert!(flow_text(&flow, &wide).ends_with("0        a state with a very long summary"));
    let list = ListLayersResp {
        layers: vec![LayerDesc { name: "firewall".to_string(), rules_in: 1, rules_out: 2, flows: 3 }],
    };
    assert_eq!(
        list_layers_string(&list),
        format!(
            "{:<12} {:<10} {:<10} {:<10}\n{:<12} {:<10} {:<10} {:<10}\n",
            "NAME", "RULES IN", "RULES OUT", "FLOWS", "firewall", 1, 2, 3
        )
    );
}

#[test]
fn a_port_shown() {
    let mut p = port();
    let meta = everyone_known();
    router::add_entry(&mut p, cidr4("192.168.77.0/24"), RouterTarget::VpcSubnet(cidr4("192.168.77.0/24"))).unwrap();
    assert!(matches!(p.process_at(Out, &mut syn_to("192.168.77.102", 80), &meta, at(0)), Ok(ProcessResult::Modified)));
    let layers = p.list_layers();
    let names: Vec<&str> = layers.layers.iter().map(|l| l.name.as_str()).collect();
    assert_eq!(names, vec!["gateway", "firewall", "router", "nat", "overlay"]);
    assert_eq!(layers.layers[1].rules_out, 1);
    assert_eq!(layers.layers[1].flows, 2);
    assert_eq!(layers.layers[2].flows, 0);
    assert_eq!(p.layer_flows(1, In), 1);
    assert_eq!(p.dump_layer("nope").err(), Some(OpteError::LayerNotFound("nope".to_string())));
    let router = p.dump_layer("router").unwrap();
    assert_eq!(router.rules_out.len(), 1);
    assert_eq!(router.rules_out[0].0, 1);
    assert_eq!(router.rules_out[0].1.action, "Target = Subnet: 192.168.77.0/24");
    let fw = p.dump_layer("firewall").unwrap();
    assert_eq!(fw.ft_out.len(), 1);
    assert_eq!(fw.ft_out[0].1.state_summary, "allow");
    assert_eq!(fw.ft_in[0].0, fw.ft_out[0].0.mirror());
    let text = layer_string(&fw);
    let lines: Vec<&str> = text.split('\n').collect();
    assert_eq!(lines[0], "Layer firewall");
    assert_eq!(lines[1], hrb());
    assert_eq!(lines[2], "Inbound Flows");
    assert_eq!(lines[3], hr());
    assert_eq!(lines[4], flow_header());
    assert_eq!(lines[5], flow_text(&fw.ft_in[0].0, &fw.ft_in[0].1));
    assert_eq!(lines[6], "");
    assert_eq!(lines[7], "Outbound Flows");
    assert_eq!(lines[11], "");
    assert_eq!(lines[12], "Inbound Rules");
    assert_eq!(lines[14], rule_header());
    assert_eq!(lines[15], "");
    assert_eq!(lines[16], "Outbound Rules");
    assert_eq!(lines[19], rule_text(1, &fw.rules_out[0].1));
    assert_eq!(lines[19], format!("{:<8} {:<6} {:<48} {:<?}", 1, 65535, "*", "action 0"));
    assert_eq!(lines[20], "");
    assert_eq!(lines[21], "");
    assert_eq!(lines.len(), 22);
    let uft = p.dump_uft();
    assert_eq!(uft.out_num_flows, 1);
    assert_eq!(uft.in_num_flows, 0);
    assert_eq!(uft.out_limit, 4);
    assert_eq!(uft.out_flows[0].1.state_summary, "modify");
    let text = uft_string(&uft);
    let lines: Vec<&str> = text.split('\n').collect();
    assert_eq!(lines[0], "UFT Inbound: 0/4");
    assert_eq!(lines[3], "");
    assert_eq!(lines[4], "UFT Outbound: 1/4");
    assert_eq!(lines[7], flow_text(&uft.out_flows[0].0, &uft.out_flows[0].1));
    let tcp = p.dump_tcp_flows();
    assert_eq!(tcp.flows.len(), 1);
    assert_eq!(tcp.flows[0].1.state_summary, "SYN_SENT");
    p.clear_uft();
    assert_eq!(p.dump_uft().out_num_flows, 0);
}
