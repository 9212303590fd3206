//! Flow tables, layers and ports at work.

use opte::addr::IpAddr;
use opte::addr::IpCidr;
use opte::addr::Ipv4Addr;
use opte::addr::Ipv6Addr;
use opte::addr::MacAddr;
use opte::api::Direction;
use opte::api::Direction::In;
use opte::api::Direction::Out;
use opte::arp::ArpEthIpv4;
use opte::arp::ArpOp;
use opte::echo;
use opte::encap::Vni;
use opte::ether::EtherMeta;
use opte::ether::EtherType;
use opte::firewall;
use opte::flow_table::FlowState;
use opte::flow_table::FlowTable;
use opte::headers::Ipv4Meta;
use opte::headers::Protocol;
use opte::headers::UlpMeta;
use opte::ip4::Ipv4Hdr;
use opte::ip4::UlpCsumOpt;
use opte::layer::Layer;
use opte::layer::LayerActions;
use opte::layer::LayerError;
use opte::layer::LayerResult;
use opte::meta::ActionMeta;
use opte::meta::Meta;
use opte::meta::MetaError;
use opte::overlay;
use opte::overlay::GuestPhysAddr;
use opte::overlay::Virt2Phys;
use opte::packet::InnerFlowId;
use opte::packet::Packet;
use opte::packet::ParseError;
use opte::parsed::ParsedPacket;
use opte::port::has_layer;
use opte::port::with_layer;
use opte::port::BadState;
use opte::port::DropReason;
use opte::port::OpteError;
use opte::port::Port;
use opte::port::PortBuilder;
use opte::port::PortState;
use opte::port::Pos;
use opte::port::ProcessError;
use opte::port::ProcessResult;
use opte::router;
use opte::router::RouterTarget;
use opte::rule::Action;
use opte::rule::DefaultAction;
use opte::rule::LayerFlow;
use opte::rule::Rule;
use opte::snat;
use opte::tcp::TcpFlags;
use opte::tcp::TcpHdr;
use opte::tcp_state::tcp_next;
use opte::tcp_state::tcp_track;
use opte::tcp_state::TcpFlowEntry;
use opte::tcp_state::TcpState;
use opte::tcp_state::TcpState::CloseWait;
use opte::tcp_state::TcpState::Closing;
use opte::tcp_state::TcpState::Established;
use opte::tcp_state::TcpState::FinWait;
use opte::tcp_state::TcpState::SynRcvd;
use opte::tcp_state::TcpState::SynSent;
use opte::tcp_state::TcpVerdict::Close;
use opte::tcp_state::TcpVerdict::Invalid;
use opte::tcp_state::TcpVerdict::Keep;
use opte::time::Moment;
use opte::transform::HdrTransform;
use opte::transform::OuterAction;
use opte::vpc::BoundaryServices;
use opte::vpc::HdlPktAction;
use opte::vpc::Ipv4Cfg;
use opte::vpc::SNat4Cfg;
use opte::vpc::VpcCfg;
use opte::vpc::VpcNetwork;
use opte::vpc::VpcParser;

fn ip4(s: &str) -> Ipv4Addr {
    s.parse().unwrap()
}

fn flow(port: u16) -> InnerFlowId {
    InnerFlowId {
        proto: Protocol::TCP,
        src_ip: IpAddr::Ip4(ip4("10.0.0.1")),
        src_port: port,
        dst_ip: IpAddr::Ip4(ip4("10.0.0.2")),
        dst_port: 80,
    }
}

fn allow(rule_id: u64) -> LayerFlow {
    LayerFlow { rule_id, xform: HdrTransform::identity() }
}

fn at(secs: u64) -> Moment {
    Moment::from_nanos(1_000_000_000).add_secs(secs)
}

fn cfg(last: u8) -> VpcCfg {
    VpcCfg {
        ipv4: Ipv4Cfg {
            vpc_subnet: "192.168.77.0/24".parse().unwrap(),
            private_ip: Ipv4Addr::from([192, 168, 77, last]),
            gateway_ip: ip4("192.168.77.1"),
            snat: Some(SNat4Cfg { external_ip: ip4("10.77.77.13"), port_start: 1025, port_end: 1027 }),
            external_ips: Some(ip4("10.60.1.20")),
        },
        guest_mac: MacAddr::from([0xA8, 0x40, 0x25, 0xF7, 0x00, last]),
        gateway_mac: MacAddr::from([0xA8, 0x40, 0x25, 0xF7, 0x00, 0x01]),
        vni: Vni::new(99u32).unwrap(),
        phys_ip: Ipv6Addr::from([0xFD00u16, 0, 0xF7, 0x0101, 0, 0, 0, u16::from(last)]),
        boundary_services: BoundaryServices {
            mac: MacAddr::from([0xA8, 0x40, 0x25, 0x77, 0x77, 0x77]),
            ip: "fd00:1122:3344:1ff::7777".parse().unwrap(),
            vni: Vni::new(7777u32).unwrap(),
        },
        proxy_arp_enable: false,
    }
}

fn port(cfg: &VpcCfg) -> Port {
    let mut pb = PortBuilder::new("p", cfg.guest_mac, VpcNetwork { cfg: *cfg });
    firewall::setup(&mut pb, 8).unwrap();
    echo::setup(&mut pb, cfg, 1).unwrap();
    snat::setup(&mut pb, cfg, 8).unwrap();
    router::setup(&mut pb, cfg, 1).unwrap();
    overlay::setup(&mut pb, cfg, 1).unwrap();
    pb.add_rule("firewall", In, Rule::match_any(65535, Action::Deny)).unwrap();
    let act = pb.layer_action("firewall", 0).unwrap();
    pb.add_rule("firewall", Out, Rule::match_any(65535, act)).unwrap();
    let mut port = pb.create(4, 4);
    port.start();
    port
}

fn tcp_bytes(src: &VpcCfg, dst_ip: Ipv4Addr, sport: u16, dport: u16, flags: u8, body: &[u8]) -> Vec<u8> {
    let mut tcp = TcpHdr::new(sport, dport);
    tcp.set_flags(flags);
    tcp.set_seq(1000);
    let mut ip = Ipv4Hdr::new_tcp(&tcp, body, src.ipv4.private_ip, dst_ip).unwrap();
    ip.compute_hdr_csum();
    let csum = ip.compute_ulp_csum(UlpCsumOpt::Full, &tcp.as_bytes(), body);
    tcp.set_csum(csum.finalize());
    let eth = EtherMeta::new(EtherType::Ipv4, src.guest_mac, src.gateway_mac);
    let mut bytes = eth.as_bytes();
    bytes.extend_from_slice(&ip.as_bytes());
    bytes.extend_from_slice(&tcp.as_bytes());
    bytes.extend_from_slice(body);
    bytes
}

fn out_pkt(bytes: &[u8]) -> ParsedPacket {
    Packet::copy(bytes).parse(Out, &VpcParser::new()).unwrap()
}

fn meta_for(ip: Ipv4Addr, cfg: &VpcCfg) -> Meta {
    let mut v2p = Virt2Phys::new();
    v2p.set(IpAddr::Ip4(ip), GuestPhysAddr { ether: cfg.guest_mac, ip: cfg.phys_ip });
    let mut meta = Meta::new();
    meta.add(v2p).unwrap();
    meta
}

#[test]
fn flow_table_keeps_order_and_counts_hits() {
    let mut ft: FlowTable<LayerFlow> = FlowTable::new(3, 60);
    assert_eq!(ft.limit(), 3);
    assert_eq!(ft.len(), 0);
    ft.insert(flow(1), allow(1), at(0));
    ft.insert(flow(2), allow(2), at(1));
    assert_eq!(ft.find(&flow(2)), Some(1));
    assert_eq!(ft.find(&flow(3)), None);
    assert_eq!(ft.peek(&flow(1)).unwrap().hits, 0);
    assert_eq!(ft.get(&flow(1), at(5)), Some(0));
    assert_eq!(ft.get(&flow(1), at(6)), Some(0));
    assert_eq!(ft.get(&flow(9), at(6)), None);
    let e = ft.entry_at(0);
    assert_eq!(e.hits, 2);
    assert_eq!(e.last_hit, at(6));
    assert_eq!(e.created, at(0));
    // A flow that is there is replaced where it stands, and starts anew.
    ft.insert(flow(1), allow(7), at(8));
    assert_eq!(ft.len(), 2);
    assert_eq!(ft.find(&flow(1)), Some(0));
    assert_eq!(ft.peek(&flow(1)).unwrap().value.rule_id, 7);
    assert_eq!(ft.peek(&flow(1)).unwrap().hits, 0);
    assert_eq!(ft.remove(&flow(1)).unwrap().value.rule_id, 7);
    assert!(ft.remove(&flow(1)).is_none());
    assert_eq!(ft.len(), 1);
    ft.clear();
    assert_eq!(ft.len(), 0);
}

#[test]
fn flow_table_evicts_the_flow_idle_longest() {
    let mut ft: FlowTable<LayerFlow> = FlowTable::new(3, 60);
    ft.insert(flow(1), allow(1), at(0));
    ft.insert(flow(2), allow(2), at(1));
    ft.insert(flow(3), allow(3), at(2));
    // Flow 1 is hit and so is no longer the one that was idle longest.
    ft.get(&flow(1), at(3));
    ft.insert(flow(4), allow(4), at(4));
    assert_eq!(ft.len(), 3);
    assert!(ft.peek(&flow(2)).is_none());
    assert_eq!(ft.find(&flow(1)), Some(0));
    assert_eq!(ft.find(&flow(3)), Some(1));
    assert_eq!(ft.find(&flow(4)), Some(2));
    // Among flows that were hit at the same moment the oldest goes.
    let mut ties: FlowTable<LayerFlow> = FlowTable::new(2, 60);
    ties.insert(flow(1), allow(1), at(0));
    ties.insert(flow(2), allow(2), at(0));
    ties.insert(flow(3), allow(3), at(0));
    assert!(ties.peek(&flow(1)).is_none());
    assert!(ties.peek(&flow(2)).is_some());
    // A table with room for one flow holds the latest.
    let mut one: FlowTable<LayerFlow> = FlowTable::new(1, 60);
    one.insert(flow(1), allow(1), at(0));
    one.insert(flow(2), allow(2), at(0));
    assert_eq!(one.len(), 1);
    assert!(one.peek(&flow(2)).is_some());
}

#[test]
fn flow_table_expires_idle_flows() {
    let mut ft: FlowTable<LayerFlow> = FlowTable::new(8, 60);
    ft.insert(flow(1), allow(1), at(0));
    ft.insert(flow(2), allow(2), at(10));
    ft.insert(flow(3), allow(3), at(20));
    // One millisecond short of a minute nothing goes.
    assert_eq!(ft.expire(at(0).add_millis(59_999)), 0);
    // After a minute of idleness a flow goes.
    assert_eq!(ft.expire(at(60)), 1);
    assert!(ft.peek(&flow(1)).is_none());
    // Again at the same moment, or at a later one, is as once at the later one.
    assert_eq!(ft.expire(at(60)), 0);
    let mut twice: FlowTable<LayerFlow> = FlowTable::new(8, 60);
    let mut once: FlowTable<LayerFlow> = FlowTable::new(8, 60);
    for (p, t) in [(1, 0), (2, 10), (3, 20), (4, 30)] {
        twice.insert(flow(p), allow(1), at(t));
        once.insert(flow(p), allow(1), at(t));
    }
    twice.expire(at(65));
    twice.expire(at(85));
    once.expire(at(85));
    assert_eq!(twice.len(), 1);
    assert_eq!(twice.dump().len(), once.dump().len());
    assert_eq!(twice.find(&flow(4)), once.find(&flow(4)));
    // A hit keeps a flow.
    ft.get(&flow(2), at(65));
    assert_eq!(ft.expire(at(80)), 1);
    assert!(ft.peek(&flow(2)).is_some());
    let dump = ft.dump();
    assert_eq!(dump.len(), 1);
    assert_eq!(dump[0].0, flow(2));
    assert_eq!(dump[0].1.hits, 1);
    assert_eq!(dump[0].1.state_summary, "allow");
}

#[test]
fn tcp_connections() {
    let syn = TcpFlags::SYN;
    let ack = TcpFlags::ACK;
    let fin = TcpFlags::FIN;
    let rst = TcpFlags::RST;
    assert_eq!(tcp_next(None, Out, syn), Keep(SynSent));
    assert_eq!(tcp_next(None, In, syn), Keep(SynRcvd));
    assert_eq!(tcp_next(None, Out, ack), Invalid);
    assert_eq!(tcp_next(None, Out, syn | ack), Invalid);
    assert_eq!(tcp_next(Some(SynSent), Out, syn), Keep(SynSent));
    assert_eq!(tcp_next(Some(SynSent), In, syn | ack), Keep(Established));
    assert_eq!(tcp_next(Some(SynSent), In, syn), Keep(SynRcvd));
    assert_eq!(tcp_next(Some(SynSent), In, ack), Invalid);
    assert_eq!(tcp_next(Some(SynSent), Out, ack), Invalid);
    assert_eq!(tcp_next(Some(SynRcvd), Out, syn | ack), Keep(SynRcvd));
    assert_eq!(tcp_next(Some(SynRcvd), In, syn), Keep(SynRcvd));
    assert_eq!(tcp_next(Some(SynRcvd), In, ack), Keep(Established));
    assert_eq!(tcp_next(Some(SynRcvd), Out, syn), Invalid);
    assert_eq!(tcp_next(Some(SynRcvd), In, 0), Invalid);
    assert_eq!(tcp_next(Some(Established), Out, ack), Keep(Established));
    assert_eq!(tcp_next(Some(Established), Out, fin | ack), Keep(FinWait));
    assert_eq!(tcp_next(Some(Established), In, fin | ack), Keep(CloseWait));
    assert_eq!(tcp_next(Some(FinWait), In, ack), Keep(FinWait));
    assert_eq!(tcp_next(Some(FinWait), In, fin | ack), Keep(Closing));
    assert_eq!(tcp_next(Some(CloseWait), Out, fin | ack), Keep(Closing));
    assert_eq!(tcp_next(Some(CloseWait), In, fin | ack), Keep(CloseWait));
    assert_eq!(tcp_next(Some(Closing), Out, ack), Close);
    assert_eq!(tcp_next(Some(Closing), In, fin | ack), Keep(Closing));
    assert_eq!(tcp_next(Some(Established), In, rst), Close);
    assert_eq!(tcp_next(None, In, rst | ack), Close);

    let mut table: FlowTable<TcpFlowEntry> = FlowTable::new(4, 60);
    assert_eq!(tcp_track(&mut table, flow(1), Out, syn, at(0)), Keep(SynSent));
    assert_eq!(tcp_track(&mut table, flow(1), In, syn | ack, at(1)), Keep(Established));
    assert_eq!(table.peek(&flow(1)).unwrap().hits, 1);
    assert_eq!(table.peek(&flow(1)).unwrap().value.summary(), "ESTABLISHED");
    assert_eq!(tcp_track(&mut table, flow(2), Out, ack, at(1)), Invalid);
    assert_eq!(table.len(), 1);
    // An open connection lives for two hours of idleness, a half-open one for a minute.
    assert_eq!(tcp_track(&mut table, flow(3), Out, syn, at(1)), Keep(SynSent));
    assert_eq!(table.expire(at(61)), 1);
    assert!(table.peek(&flow(1)).is_some());
    assert_eq!(table.expire(at(7200)), 0);
    assert_eq!(table.expire(at(7201)), 1);
    assert_eq!(tcp_track(&mut table, flow(1), Out, syn, at(7300)), Keep(SynSent));
    assert_eq!(tcp_track(&mut table, flow(1), In, rst, at(7301)), Close);
    assert_eq!(table.len(), 0);
}

#[test]
fn transformations() {
    let pkt = out_pkt(&tcp_bytes(&cfg(101), ip4("192.168.77.102"), 5000, 80, TcpFlags::SYN, &[]));
    let meta = *pkt.meta();
    let id = HdrTransform::identity();
    assert!(id.is_identity());
    let mut m = meta;
    id.run(&mut m);
    assert_eq!(m, meta);
    let mut a = id;
    a.ip4_src = Some(ip4("10.77.77.13"));
    a.ulp_src = Some(4095);
    a.ip6_dst = Some(Ipv6Addr { inner: 7 });
    let mut b = id;
    b.ulp_src = Some(1);
    b.ether_dst = Some(MacAddr::broadcast());
    b.outer = OuterAction::Pop;
    // One after the other is as the two put together.
    let mut step = meta;
    a.run(&mut step);
    b.run(&mut step);
    let mut both = meta;
    a.chain(&b).run(&mut both);
    assert_eq!(step, both);
    assert_eq!(InnerFlowId::from_meta(&both).src_port, 1);
    assert_eq!(InnerFlowId::from_meta(&both).src_ip, IpAddr::Ip4(ip4("10.77.77.13")));
    assert_eq!(both.inner.ether.unwrap().dst, MacAddr::broadcast());
    assert!(!a.is_identity());
    assert_eq!(a.chain(&id), a);
    assert_eq!(id.chain(&a), a);
}

#[test]
fn layer_masks() {
    assert!(!has_layer(0, 3));
    let m = with_layer(0, 3);
    assert_eq!(m, 8);
    assert!(has_layer(m, 3));
    assert!(!has_layer(m, 2));
    assert!(has_layer(with_layer(m, 63), 63));
    assert!(has_layer(with_layer(m, 63), 3));
    assert_eq!(with_layer(m, 64), m);
    assert!(!has_layer(u64::MAX, 64));
}

#[test]
fn rules_by_priority_and_age() {
    let mut layer = Layer::new(
        "l",
        "p",
        LayerActions {
            actions: vec![Action::StatefulAllow],
            default_in: DefaultAction::Deny,
            default_out: DefaultAction::Deny,
        },
        4,
    );
    assert_eq!(layer.name(), "l");
    assert_eq!(layer.action(0), Some(Action::LayerAction(0)));
    assert_eq!(layer.action(1), None);
    assert_eq!(layer.add_rule(Out, Rule::match_any(20, Action::Deny)), Some(1));
    assert_eq!(layer.add_rule(Out, Rule::match_any(10, Action::Allow)), Some(2));
    assert_eq!(layer.add_rule(Out, Rule::match_any(20, Action::Allow)), Some(3));
    assert_eq!(layer.add_rule(Out, Rule::match_any(10, Action::Deny)), Some(4));
    assert_eq!(layer.add_rule(In, Rule::match_any(5, Action::Deny)), Some(5));
    let ids: Vec<u64> = layer.rules_out.iter().map(|r| r.id).collect();
    assert_eq!(ids, vec![2, 4, 1, 3]);
    assert_eq!(layer.num_rules(Out), 4);
    assert_eq!(layer.num_rules(In), 1);
    assert_eq!(layer.epoch, 5);
    assert_eq!(layer.find_rule(Out, &Rule::match_any(20, Action::Allow)), Some(3));
    assert_eq!(layer.find_rule(Out, &Rule::match_any(20, Action::StatefulAllow)), None);
    assert_eq!(layer.find_rule(In, &Rule::match_any(20, Action::Allow)), None);
    assert!(!layer.remove_rule(In, 2));
    assert!(layer.remove_rule(Out, 2));
    assert!(!layer.remove_rule(Out, 2));
    let ids: Vec<u64> = layer.rules_out.iter().map(|r| r.id).collect();
    assert_eq!(ids, vec![4, 1, 3]);
    // Among equals the first wins: rule 4 denies before rule 1 or 3 are asked.
    let c = cfg(101);
    let mut pkt = out_pkt(&tcp_bytes(&c, ip4("192.168.77.102"), 5000, 80, TcpFlags::SYN, &[]));
    let mut ameta = ActionMeta::new();
    let out = layer.process(Out, &mut pkt, &mut ameta, &Virt2Phys::new(), at(0)).unwrap();
    assert!(matches!(out.result, LayerResult::Deny));
    assert!(out.by_rule);
    // New rules get new numbers, in the order of the lists, those towards the guest first.
    assert!(layer.set_rules(
        vec![Rule::match_any(9, Action::Deny)],
        vec![Rule::match_any(7, Action::Deny), Rule::match_any(3, Action::LayerAction(0))]
    ));
    assert_eq!(layer.rules_in[0].id, 6);
    let ids: Vec<u64> = layer.rules_out.iter().map(|r| r.id).collect();
    assert_eq!(ids, vec![8, 7]);
    assert_eq!(layer.next_id, 9);
}

#[test]
fn flows_come_in_pairs_and_die_with_their_rules() {
    let mut layer = Layer::new(
        "l",
        "p",
        LayerActions { actions: vec![], default_in: DefaultAction::Deny, default_out: DefaultAction::Deny },
        4,
    );
    let id = layer.add_rule(Out, Rule::match_any(1, Action::StatefulAllow)).unwrap();
    let c = cfg(101);
    let bytes = tcp_bytes(&c, ip4("192.168.77.102"), 5000, 80, TcpFlags::SYN, &[]);
    let mut pkt = out_pkt(&bytes);
    let f = pkt.flow();
    let mut ameta = ActionMeta::new();
    let out = layer.process(Out, &mut pkt, &mut ameta, &Virt2Phys::new(), at(0)).unwrap();
    assert!(matches!(out.result, LayerResult::Allow));
    assert!(out.stateful);
    assert_eq!(out.dual, Some(HdrTransform::identity()));
    // The flow of the answers is there at once.
    assert_eq!(layer.num_flows(Out), 1);
    assert_eq!(layer.num_flows(In), 1);
    assert_eq!(layer.ft_out.peek(&f).unwrap().value.rule_id, id);
    assert_eq!(layer.ft_in.peek(&f.mirror()).unwrap().value.rule_id, id);
    // The second packet of the flow is let through by the flow, and counts a hit.
    let mut again = out_pkt(&bytes);
    let out = layer.process(Out, &mut again, &mut ameta, &Virt2Phys::new(), at(1)).unwrap();
    assert!(matches!(out.result, LayerResult::Allow));
    assert_eq!(layer.ft_out.peek(&f).unwrap().hits, 1);
    assert_eq!(layer.ft_in.peek(&f.mirror()).unwrap().hits, 0);
    // An answer is let through though no rule towards the guest allows anything.
    let mut tcp = TcpHdr::new(80, 5000);
    tcp.set_flags(TcpFlags::SYN | TcpFlags::ACK);
    let mut ip = Ipv4Hdr::new_tcp(&tcp, &[], ip4("192.168.77.102"), c.ipv4.private_ip).unwrap();
    ip.compute_hdr_csum();
    let mut answer = EtherMeta::new(EtherType::Ipv4, c.gateway_mac, c.guest_mac).as_bytes();
    answer.extend_from_slice(&ip.as_bytes());
    answer.extend_from_slice(&tcp.as_bytes());
    let mut answer = out_pkt(&answer);
    let out = layer.process(In, &mut answer, &mut ameta, &Virt2Phys::new(), at(2)).unwrap();
    assert!(matches!(out.result, LayerResult::Allow));
    assert!(!layer.ft_in.peek(&f.mirror()).is_none());
    assert_eq!(layer.ft_in.peek(&f.mirror()).unwrap().hits, 1);
    // New rules: no flow is left that an old rule decided.
    assert!(layer.set_rules(vec![], vec![Rule::match_any(1, Action::Deny)]));
    assert_eq!(layer.num_flows(Out), 0);
    assert_eq!(layer.num_flows(In), 0);
    let mut third = out_pkt(&bytes);
    let out = layer.process(Out, &mut third, &mut ameta, &Virt2Phys::new(), at(3)).unwrap();
    assert!(matches!(out.result, LayerResult::Deny));
    // Adding and removing a rule drops the flows as well.
    assert!(layer.set_rules(vec![], vec![Rule::match_any(1, Action::StatefulAllow)]));
    let mut p = out_pkt(&bytes);
    layer.process(Out, &mut p, &mut ameta, &Virt2Phys::new(), at(4)).unwrap();
    assert_eq!(layer.num_flows(In), 1);
    layer.add_rule(In, Rule::match_any(1, Action::Deny)).unwrap();
    assert_eq!(layer.num_flows(In), 0);
    assert_eq!(layer.num_flows(Out), 0);
    let mut p = out_pkt(&bytes);
    layer.process(Out, &mut p, &mut ameta, &Virt2Phys::new(), at(5)).unwrap();
    assert_eq!(layer.num_flows(Out), 1);
    layer.expire_flows(at(64));
    assert_eq!(layer.num_flows(Out), 1);
    layer.expire_flows(at(65));
    assert_eq!(layer.num_flows(Out), 0);
    assert_eq!(layer.num_flows(In), 0);
}

#[test]
fn references_to_layer_actions() {
    let mut layer = Layer::new(
        "l",
        "p",
        LayerActions {
            actions: vec![Action::Allow, Action::LayerAction(0)],
            default_in: DefaultAction::Allow,
            default_out: DefaultAction::Deny,
        },
        4,
    );
    let c = cfg(101);
    let bytes = tcp_bytes(&c, ip4("192.168.77.102"), 5000, 80, TcpFlags::SYN, &[]);
    let mut ameta = ActionMeta::new();
    let v2p = Virt2Phys::new();
    // No rule: the default of the direction decides, and no rule is named.
    let out = layer.process(Out, &mut out_pkt(&bytes), &mut ameta, &v2p, at(0)).unwrap();
    assert!(matches!(out.result, LayerResult::Deny));
    assert!(!out.by_rule);
    let out = layer.process(In, &mut out_pkt(&bytes), &mut ameta, &v2p, at(0)).unwrap();
    assert!(matches!(out.result, LayerResult::Allow));
    // A reference to an action does what the action does.
    layer.add_rule(Out, Rule::match_any(3, Action::LayerAction(0))).unwrap();
    let out = layer.process(Out, &mut out_pkt(&bytes), &mut ameta, &v2p, at(0)).unwrap();
    assert!(matches!(out.result, LayerResult::Allow));
    assert!(!out.stateful);
    // A reference to a reference, or to nothing, denies.
    layer.add_rule(Out, Rule::match_any(2, Action::LayerAction(1))).unwrap();
    let out = layer.process(Out, &mut out_pkt(&bytes), &mut ameta, &v2p, at(0)).unwrap();
    assert!(matches!(out.result, LayerResult::Deny));
    layer.add_rule(Out, Rule::match_any(1, Action::LayerAction(2))).unwrap();
    let out = layer.process(Out, &mut out_pkt(&bytes), &mut ameta, &v2p, at(0)).unwrap();
    assert!(matches!(out.result, LayerResult::Deny));
}

#[test]
fn port_is_built_in_layers() {
    let c = cfg(101);
    let mut pb = PortBuilder::new("p", c.guest_mac, VpcNetwork { cfg: c });
    assert_eq!(pb.name(), "p");
    // The router goes after the firewall, which is not there yet.
    match router::setup(&mut pb, &c, 1) {
        Err(OpteError::BadLayerPos { layer, pos }) => {
            assert_eq!(layer, "router");
            assert_eq!(pos, "firewall");
        }
        other => panic!("expected a bad position, got {:?}", other),
    }
    firewall::setup(&mut pb, 8).unwrap();
    assert_eq!(firewall::setup(&mut pb, 8), Err(OpteError::BadName));
    router::setup(&mut pb, &c, 1).unwrap();
    snat::setup(&mut pb, &c, 8).unwrap();
    echo::setup(&mut pb, &c, 1).unwrap();
    overlay::setup(&mut pb, &c, 1).unwrap();
    let names: Vec<&str> = pb.layers.iter().map(|l| l.name()).collect();
    assert_eq!(names, vec!["gateway", "firewall", "nat", "router", "overlay"]);
    assert_eq!(pb.layer_action("firewall", 0), Some(Action::LayerAction(0)));
    assert_eq!(pb.layer_action("firewall", 1), None);
    assert_eq!(pb.layer_action("nope", 0), None);
    assert_eq!(
        pb.add_rule("nope", Out, Rule::match_any(1, Action::Allow)),
        Err(OpteError::LayerNotFound("nope".to_string()))
    );
    // A port has room for sixty-four layers.
    for i in pb.layers.len()..64 {
        let layer = Layer::new(
            &format!("l{}", i),
            "p",
            LayerActions { actions: vec![], default_in: DefaultAction::Allow, default_out: DefaultAction::Allow },
            1,
        );
        pb.add_layer(layer, Pos::Before("overlay")).unwrap();
    }
    let one_more = Layer::new(
        "one-more",
        "p",
        LayerActions { actions: vec![], default_in: DefaultAction::Allow, default_out: DefaultAction::Allow },
        1,
    );
    assert_eq!(pb.add_layer(one_more, Pos::Last), Err(OpteError::MaxCapacity(64)));
    let port = pb.create(4, 4);
    assert_eq!(port.state(), PortState::Ready);
    assert_eq!(port.name(), "p");
    assert_eq!(port.mac(), c.guest_mac);
    assert_eq!(port.epoch(), 0);
    assert_eq!(port.layers.len(), 64);
    assert_eq!(port.layers[63].name(), "overlay");
}

#[test]
fn port_rules_and_counts() {
    let c = cfg(101);
    let mut p = port(&c);
    assert_eq!(p.num_rules("firewall", Out), 1);
    assert_eq!(p.num_rules("firewall", In), 1);
    assert_eq!(p.num_rules("gateway", Out), 1);
    assert_eq!(p.num_rules("nat", Out), 1);
    assert_eq!(p.num_rules("overlay", In), 1);
    assert_eq!(p.num_rules("nope", In), 0);
    assert_eq!(p.num_flows("nope", In), 0);
    assert_eq!(p.num_flows("uft", In), 0);
    assert_eq!(p.layer_action("nat", 0), Some(Action::LayerAction(0)));
    assert_eq!(p.layer_action("router", 0), None);
    let rule = || Rule::match_any(7, Action::Deny);
    assert_eq!(p.find_rule("firewall", Out, &rule()), Ok(None));
    assert_eq!(p.add_rule("firewall", Out, rule()), Ok(()));
    assert_eq!(p.epoch(), 1);
    assert_eq!(p.find_rule("firewall", Out, &rule()), Ok(Some(3)));
    assert_eq!(p.find_rule("nope", Out, &rule()), Err(OpteError::LayerNotFound("nope".to_string())));
    assert_eq!(p.add_rule("nope", Out, rule()), Err(OpteError::LayerNotFound("nope".to_string())));
    assert_eq!(p.remove_rule("nope", Out, 3), Err(OpteError::LayerNotFound("nope".to_string())));
    assert_eq!(p.remove_rule("firewall", In, 3), Err(OpteError::RuleNotFound(3)));
    assert_eq!(p.remove_rule("firewall", Out, 3), Ok(()));
    assert_eq!(p.remove_rule("firewall", Out, 3), Err(OpteError::RuleNotFound(3)));
    assert_eq!(p.set_rules("nope", vec![], vec![]), Err(OpteError::LayerNotFound("nope".to_string())));
    assert_eq!(p.set_rules("firewall", vec![], vec![rule(), rule()]), Ok(()));
    assert_eq!(p.num_rules("firewall", In), 0);
    assert_eq!(p.num_rules("firewall", Out), 2);
    assert_eq!(p.epoch(), 3);
}

#[test]
fn replay_gives_what_the_walk_gave() {
    let c = cfg(101);
    let mut p = port(&c);
    router::add_entry(&mut p, IpCidr::Ip4("0.0.0.0/0".parse().unwrap()), RouterTarget::InternetGateway).unwrap();
    let meta = meta_for(ip4("192.168.77.102"), &cfg(102));
    let bytes = tcp_bytes(&c, ip4("8.8.8.8"), 5000, 443, TcpFlags::SYN, &[1, 2, 3, 4, 5]);
    let mut first = out_pkt(&bytes);
    assert!(matches!(p.process_at(Out, &mut first, &meta, at(0)), Ok(ProcessResult::Modified)));
    assert_eq!(p.num_flows("uft", Out), 1);
    assert_eq!(p.uft_out.entry_at(0).hits, 0);
    // The walk has rewritten the source: the highest port of the guest's range.
    match first.meta().inner.ulp.unwrap() {
        UlpMeta::Tcp(t) => assert_eq!(t.src, 1026),
        other => panic!("expected TCP, got {:?}", other),
    }
    let mut second = out_pkt(&bytes);
    assert!(matches!(p.process_at(Out, &mut second, &meta, at(1)), Ok(ProcessResult::Modified)));
    assert_eq!(p.uft_out.entry_at(0).hits, 1);
    assert_eq!(second.bytes, first.bytes);
    assert_eq!(second.meta(), first.meta());
    assert_eq!(second.hdr_offsets(), first.hdr_offsets());
    assert_eq!(second.body_offset(), first.body_offset());
    // The layers were not asked again: their flows count no hit.
    assert_eq!(p.num_flows("nat", Out), 1);
    assert_eq!(p.layers[3].ft_out.entry_at(0).hits, 0);
    // Every layer that decided by a rule is named in the flow: all but the gateway.
    assert_eq!(p.uft_out.entry_at(0).value.layers, 0b11110);
    // Without the unified flow the walk gives the same once more.
    p.clear_uft();
    let mut third = out_pkt(&bytes);
    assert!(matches!(p.process_at(Out, &mut third, &meta, at(2)), Ok(ProcessResult::Modified)));
    assert_eq!(third.bytes, first.bytes);
    assert_eq!(p.layers[3].ft_out.entry_at(0).hits, 1);
    // Another flow gets the next port down, and then the ports are used up.
    let other = tcp_bytes(&c, ip4("8.8.8.8"), 5001, 443, TcpFlags::SYN, &[]);
    let mut o = out_pkt(&other);
    assert!(matches!(p.process_at(Out, &mut o, &meta, at(3)), Ok(ProcessResult::Modified)));
    match o.meta().inner.ulp.unwrap() {
        UlpMeta::Tcp(t) => assert_eq!(t.src, 1025),
        other => panic!("expected TCP, got {:?}", other),
    }
    let more = tcp_bytes(&c, ip4("8.8.8.8"), 5002, 443, TcpFlags::SYN, &[]);
    match p.process_at(Out, &mut out_pkt(&more), &meta, at(4)) {
        Ok(ProcessResult::Drop { reason: DropReason::Layer { name } }) => assert_eq!(name, "nat"),
        other => panic!("expected a drop, got {:?}", other),
    }
}

#[test]
fn rule_changes_drop_the_flows_of_their_layer_only() {
    let c = cfg(101);
    let mut p = port(&c);
    router::add_entry(
        &mut p,
        IpCidr::Ip4(c.ipv4.vpc_subnet),
        RouterTarget::VpcSubnet(IpCidr::Ip4(c.ipv4.vpc_subnet)),
    )
    .unwrap();
    let meta = meta_for(ip4("192.168.77.102"), &cfg(102));
    let bytes = tcp_bytes(&c, ip4("192.168.77.102"), 5000, 80, TcpFlags::SYN, &[]);
    assert!(matches!(p.process_at(Out, &mut out_pkt(&bytes), &meta, at(0)), Ok(ProcessResult::Modified)));
    assert_eq!(p.num_flows("uft", Out), 1);
    assert_eq!(p.num_flows("firewall", Out), 1);
    // The NAT layer let the packet through by default: its rules do not touch the flow.
    assert_eq!(p.uft_out.entry_at(0).value.layers, 0b10110);
    p.add_rule("nat", In, Rule::match_any(9, Action::Allow)).unwrap();
    assert_eq!(p.num_flows("uft", Out), 1);
    assert_eq!(p.num_flows("firewall", Out), 1);
    assert_eq!(p.tcp_flows.len(), 1);
    // The router decided by a rule: a change of its rules takes the unified flow, but not
    // the flows of the firewall and not the TCP connection.
    router::add_entry(&mut p, IpCidr::Ip4("10.0.0.0/8".parse().unwrap()), RouterTarget::Drop).unwrap();
    assert_eq!(p.num_flows("uft", Out), 0);
    assert_eq!(p.num_flows("firewall", Out), 1);
    assert_eq!(p.num_flows("firewall", In), 1);
    assert_eq!(p.tcp_flows.len(), 1);
}

#[test]
fn tcp_is_followed() {
    let c = cfg(101);
    let mut p = port(&c);
    router::add_entry(
        &mut p,
        IpCidr::Ip4(c.ipv4.vpc_subnet),
        RouterTarget::VpcSubnet(IpCidr::Ip4(c.ipv4.vpc_subnet)),
    )
    .unwrap();
    let meta = meta_for(ip4("192.168.77.102"), &cfg(102));
    let dst = ip4("192.168.77.102");
    // A segment in the middle of nothing is dropped for TCP's sake.
    let ack = tcp_bytes(&c, dst, 5000, 80, TcpFlags::ACK, &[]);
    match p.process_at(Out, &mut out_pkt(&ack), &meta, at(0)) {
        Ok(ProcessResult::Drop { reason }) => assert_eq!(reason, DropReason::TcpErr),
        other => panic!("expected a drop, got {:?}", other),
    }
    let syn = tcp_bytes(&c, dst, 5000, 80, TcpFlags::SYN, &[]);
    assert!(matches!(p.process_at(Out, &mut out_pkt(&syn), &meta, at(1)), Ok(ProcessResult::Modified)));
    assert_eq!(p.tcp_flows.entry_at(0).value.state, TcpState::SynSent);
    assert_eq!(p.num_flows("uft", Out), 1);
    // A reset ends the connection and takes the unified flow.
    let rst = tcp_bytes(&c, dst, 5000, 80, TcpFlags::RST, &[]);
    assert!(matches!(p.process_at(Out, &mut out_pkt(&rst), &meta, at(2)), Ok(ProcessResult::Modified)));
    assert_eq!(p.tcp_flows.len(), 0);
    assert_eq!(p.num_flows("uft", Out), 0);
    assert_eq!(p.num_flows("firewall", Out), 1);
}

#[test]
fn port_refuses_and_answers() {
    let c = cfg(101);
    let mut p = port(&c);
    let meta = Meta::new();
    // An echo request to the gateway with a wrong checksum cannot be answered.
    let mut msg = vec![8u8, 0, 0, 0, 0, 7, 3, 9];
    let mut ip = Ipv4Hdr::from_meta(&Ipv4Meta {
        src: c.ipv4.private_ip,
        dst: c.ipv4.gateway_ip,
        proto: Protocol::ICMP,
    });
    ip.set_total_len(28);
    ip.compute_hdr_csum();
    let frame = |msg: &[u8]| {
        let mut bytes = EtherMeta::new(EtherType::Ipv4, c.guest_mac, c.gateway_mac).as_bytes();
        bytes.extend_from_slice(&ip.as_bytes());
        bytes.extend_from_slice(msg);
        bytes
    };
    match p.process_at(Out, &mut out_pkt(&frame(&msg)), &meta, at(0)) {
        Ok(ProcessResult::Drop { reason }) => assert_eq!(reason, DropReason::HairpinGenFailed),
        other => panic!("expected a drop, got {:?}", other),
    }
    // With the right checksum it is answered: 0xFFFF - (0x0800 + 0x0007 + 0x0309).
    msg[2] = 0xF4;
    msg[3] = 0xEF;
    match p.process_at(Out, &mut out_pkt(&frame(&msg)), &meta, at(0)) {
        Ok(ProcessResult::Hairpin(reply)) => {
            assert_eq!(reply.bytes[34..].to_vec(), vec![0u8, 0, 0xFC, 0xEF, 0, 7, 3, 9]);
            assert_eq!(reply.bytes[..6].to_vec(), c.guest_mac.bytes().to_vec());
            assert_eq!(reply.bytes[26..30].to_vec(), vec![192, 168, 77, 1]);
        }
        other => panic!("expected an answer, got {:?}", other),
    }
    let reply = echo::Echo4Reply {
        echo_src_mac: c.guest_mac,
        echo_src_ip: c.ipv4.private_ip,
        echo_dst_mac: c.gateway_mac,
        echo_dst_ip: c.ipv4.gateway_ip,
    };
    assert!(reply.gen_packet(&msg[..7]).is_none());
    assert!(reply.gen_packet(&[0, 0, 0xFF, 0xFF, 0, 0, 0, 0]).is_none());
    let (preds, data_preds) = reply.implicit_preds();
    assert_eq!(preds.len(), 6);
    assert_eq!(data_preds.len(), 1);

    // An ARP request for any other address is denied by the network itself.
    let arp = ArpEthIpv4 {
        htype: 1,
        ptype: 0x0800,
        hlen: 6,
        plen: 4,
        op: ArpOp::Request,
        sha: c.guest_mac,
        spa: c.ipv4.private_ip,
        tha: MacAddr::zero(),
        tpa: ip4("192.168.77.50"),
    };
    let mut bytes = EtherMeta::new(EtherType::Arp, c.guest_mac, MacAddr::broadcast()).as_bytes();
    bytes.extend_from_slice(&arp.as_bytes());
    match p.process_at(Out, &mut out_pkt(&bytes), &meta, at(0)) {
        Ok(ProcessResult::Drop { reason }) => assert_eq!(reason, DropReason::HandlePktDeny),
        other => panic!("expected a drop, got {:?}", other),
    }
    // So is an ARP packet that is cut short.
    match p.process_at(Out, &mut out_pkt(&bytes[..30]), &meta, at(0)) {
        Ok(ProcessResult::Drop { reason }) => assert_eq!(reason, DropReason::HandlePktDeny),
        other => panic!("expected a drop, got {:?}", other),
    }
    assert_eq!(p.num_flows("uft", Out), 0);
    assert_eq!(p.num_flows("firewall", Out), 0);

    // A port that was reset says which state it is in and which it would have to be in.
    p.reset();
    assert_eq!(
        p.process_at(Out, &mut out_pkt(&bytes), &meta, at(0)).err().unwrap(),
        ProcessError::BadState(BadState { expected: PortState::Running, actual: PortState::Ready })
    );
}

#[test]
fn raw_packets() {
    let c = cfg(101);
    let mut p = port(&c);
    let meta = Meta::new();
    let bytes = tcp_bytes(&c, ip4("192.168.77.102"), 5000, 80, TcpFlags::SYN, &[]);
    // No route: the router drops the packet, and the packet comes back parsed.
    let (res, pkt) = p.process_raw(Out, Packet::copy(&bytes), &meta, at(0));
    match res {
        Ok(ProcessResult::Drop { reason: DropReason::Layer { name } }) => assert_eq!(name, "router"),
        other => panic!("expected a drop, got {:?}", other),
    }
    assert_eq!(pkt.unwrap().body_offset(), 54);
    // What cannot be parsed leaves no trace.
    let flows = p.num_flows("firewall", Out);
    let (res, pkt) = p.process_raw(Out, Packet::copy(&bytes[..20]), &meta, at(0));
    assert_eq!(
        res.err().unwrap(),
        ProcessError::ParseErr(ParseError::BadHeader("IPv4: ReadError{error:NotEnoughBytes}".to_string()))
    );
    assert!(pkt.is_none());
    assert_eq!(p.num_flows("firewall", Out), flows);
    p.reset();
    let (res, pkt) = p.process_raw(Out, Packet::copy(&bytes), &meta, at(0));
    assert!(matches!(res, Err(ProcessError::BadState(_))));
    assert!(pkt.is_none());
}

#[test]
fn proxy_arp() {
    let mut c = cfg(101);
    c.proxy_arp_enable = true;
    let net = VpcNetwork { cfg: c };
    assert!(net.parser().proxy_arp_enable);
    let ask = |tpa: Ipv4Addr| {
        let arp = ArpEthIpv4 {
            htype: 1,
            ptype: 0x0800,
            hlen: 6,
            plen: 4,
            op: ArpOp::Request,
            sha: MacAddr::from([2, 0, 0, 0, 0, 9]),
            spa: ip4("10.60.1.1"),
            tha: MacAddr::zero(),
            tpa,
        };
        let mut bytes = EtherMeta::new(EtherType::Arp, arp.sha, MacAddr::broadcast()).as_bytes();
        bytes.extend_from_slice(&arp.as_bytes());
        Packet::copy(&bytes).parse(In, &net.parser()).unwrap()
    };
    // The guest's external address and its source NAT address are answered for.
    for tpa in [ip4("10.60.1.20"), ip4("10.77.77.13")] {
        match net.handle_pkt(In, &mut ask(tpa)).unwrap() {
            HdlPktAction::Hairpin(reply) => {
                let arp = ArpEthIpv4::parse(&reply.bytes, 14).unwrap();
                assert_eq!(arp.op, ArpOp::Reply);
                assert_eq!(arp.sha, c.guest_mac);
                assert_eq!(arp.spa, tpa);
                assert_eq!(arp.tha, MacAddr::from([2, 0, 0, 0, 0, 9]));
                assert_eq!(arp.tpa, ip4("10.60.1.1"));
            }
            other => panic!("expected an answer, got {:?}", other),
        }
    }
    assert!(matches!(net.handle_pkt(In, &mut ask(ip4("10.60.1.21"))).unwrap(), HdlPktAction::Deny));
    // From the guest only the gateway is answered for.
    assert!(matches!(net.handle_pkt(Out, &mut ask(ip4("10.60.1.20"))).unwrap(), HdlPktAction::Deny));
    assert!(matches!(net.handle_pkt(Out, &mut ask(c.ipv4.gateway_ip)).unwrap(), HdlPktAction::Hairpin(_)));
    // Without proxy ARP nothing from outside is answered.
    let plain = VpcNetwork { cfg: cfg(101) };
    assert!(matches!(plain.handle_pkt(In, &mut ask(ip4("10.60.1.20"))).unwrap(), HdlPktAction::Deny));
    assert!(matches!(plain.handle_arp_in(&mut ask(ip4("10.77.77.13"))).unwrap(), HdlPktAction::Deny));
    // What is no ARP is denied, and what cannot be read as ARP is an error.
    let c2 = cfg(101);
    let tcp = tcp_bytes(&c2, ip4("192.168.77.102"), 5000, 80, TcpFlags::SYN, &[]);
    assert!(matches!(net.handle_pkt(Out, &mut out_pkt(&tcp)).unwrap(), HdlPktAction::Deny));
    assert_eq!(net.handle_arp_out(&mut out_pkt(&tcp)).err().unwrap().0, "outbound ARP");
    assert_eq!(net.handle_arp_in(&mut out_pkt(&tcp)).err().unwrap().0, "inbound ARP");
    assert_eq!(VpcParser::new(), VpcParser { proxy_arp_enable: false });
    assert_eq!(c2.ipv4_cfg().gateway_ip, ip4("192.168.77.1"));
}

#[test]
fn port_metadata() {
    let mut meta = Meta::new();
    assert_eq!(meta.add(Virt2Phys::new()), Ok(()));
    assert_eq!(meta.add(Virt2Phys::new()), Err(MetaError::AlreadyExists));
    meta.clear();
    assert_eq!(meta.add(Virt2Phys::new()), Ok(()));
    let mut v2p = Virt2Phys::new();
    let a = IpAddr::Ip4(ip4("10.0.0.1"));
    let b = IpAddr::Ip6(Ipv6Addr { inner: 5 });
    let phys = |n: u128| GuestPhysAddr { ether: MacAddr::zero(), ip: Ipv6Addr { inner: n } };
    assert_eq!(v2p.get(&a), None);
    v2p.set(a, phys(1));
    v2p.set(b, phys(2));
    v2p.set(a, phys(3));
    assert_eq!(v2p.get(&a), Some(phys(3)));
    assert_eq!(v2p.get(&b), Some(phys(2)));
    assert_eq!(v2p.entries.len(), 2);
    let mut ameta = ActionMeta::new();
    assert_eq!(ameta.get("router-target"), None);
    ameta.router_target = Some(router::RouterTargetInternal::InternetGateway);
    assert_eq!(ameta.get("router-target"), Some("ig".to_string()));
    assert_eq!(ameta.get("other"), None);
    ameta.clear();
    assert_eq!(ameta.get("router-target"), None);
    assert_eq!(LayerError::HairpinGenFailed, LayerError::HairpinGenFailed);
    assert_eq!(Direction::In.flip(), Out);
}

#[test]
fn expiring_twice_is_expiring_once() {
    let c = cfg(101);
    let meta = meta_for(ip4("192.168.77.102"), &cfg(102));
    let mut twice = port(&c);
    let mut once = port(&c);
    for p in [&mut twice, &mut once] {
        router::add_entry(p, IpCidr::Ip4("0.0.0.0/0".parse().unwrap()), RouterTarget::InternetGateway).unwrap();
        let early = tcp_bytes(&c, ip4("8.8.8.8"), 5000, 443, TcpFlags::SYN, &[]);
        assert!(matches!(p.process_at(Out, &mut out_pkt(&early), &meta, at(0)), Ok(ProcessResult::Modified)));
        let late = tcp_bytes(&c, ip4("8.8.8.8"), 5001, 443, TcpFlags::SYN, &[]);
        assert!(matches!(p.process_at(Out, &mut out_pkt(&late), &meta, at(30)), Ok(ProcessResult::Modified)));
        assert_eq!(p.num_flows("uft", Out), 2);
    }
    twice.expire_flows(at(70));
    assert_eq!(twice.num_flows("uft", Out), 1);
    assert_eq!(twice.num_flows("firewall", Out), 1);
    twice.expire_flows(at(95));
    once.expire_flows(at(95));
    for name in ["uft", "gateway", "firewall", "router", "nat", "overlay"] {
        for dir in [In, Out] {
            assert_eq!(twice.num_flows(name, dir), once.num_flows(name, dir), "{} {:?}", name, dir);
            assert_eq!(once.num_flows(name, dir), 0, "{} {:?}", name, dir);
        }
    }
    // At one and the same moment, too.
    let mut again = port(&c);
    router::add_entry(&mut again, IpCidr::Ip4("0.0.0.0/0".parse().unwrap()), RouterTarget::InternetGateway).unwrap();
    let early = tcp_bytes(&c, ip4("8.8.8.8"), 5000, 443, TcpFlags::SYN, &[]);
    assert!(matches!(again.process_at(Out, &mut out_pkt(&early), &meta, at(0)), Ok(ProcessResult::Modified)));
    let late = tcp_bytes(&c, ip4("8.8.8.8"), 5001, 443, TcpFlags::SYN, &[]);
    assert!(matches!(again.process_at(Out, &mut out_pkt(&late), &meta, at(30)), Ok(ProcessResult::Modified)));
    again.expire_flows(at(70));
    let uft = again.dump_uft();
    let layers = again.list_layers();
    again.expire_flows(at(70));
    assert_eq!(again.dump_uft().out_flows.len(), uft.out_flows.len());
    assert_eq!(again.dump_uft().out_flows.len(), 1);
    for (a, b) in again.list_layers().layers.iter().zip(layers.layers.iter()) {
        assert_eq!(a.name, b.name);
        assert_eq!(a.flows, b.flows);
    }
}
