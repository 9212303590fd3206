//! ICMP echo over IPv4, and the echo replies that a port sends for its gateway.

use crate::addr::Ipv4Addr;
use crate::addr::MacAddr;
use crate::checksum::ones_neg;
use crate::checksum::Checksum;
use crate::ether::EtherMeta;
use crate::ether::EtherType;
use crate::headers::Ipv4Meta;
use crate::headers::Protocol;
use crate::ip4::Ipv4Hdr;
use crate::ip4::IPV4_HDR_SZ;
use crate::packet::extend_range;
use crate::api::Direction;
use crate::firewall::FW_LAYER_NAME;
use crate::layer::Layer;
use crate::layer::LayerActions;
use crate::packet::Packet;
use crate::port::layer_add_outcome;
use crate::port::layer_index;
use crate::port::OpteError;
use crate::port::PortBuilder;
use crate::port::Pos;
use crate::rule::Action;
use crate::rule::DefaultAction;
use crate::rule::Rule;
use crate::vpc::VpcCfg;
use crate::predicate::DataPredicate;
use crate::predicate::Ipv4AddrMatch;
use crate::predicate::Predicate;
use crate::wire::push_u16;
use crate::wire::u16_bytes;
use crate::flow_table::FLOW_DEF_EXPIRE_SECS;
use crate::time::MILLIS_PER_SEC;
use vstd::prelude::*;

verus! {

/// The ICMP message type of an echo request.
pub const ICMP4_ECHO_REQUEST: u8 = 8;

/// The ICMP message type of an echo reply.
pub const ICMP4_ECHO_REPLY: u8 = 0;

/// The length of the header of an ICMP echo message: type, code, checksum, identifier and
/// sequence number.
pub const ICMP4_ECHO_HDR_SZ: usize = 8;

/// True when `msg` is an ICMP echo request whose checksum is right.
pub open spec fn is_echo_request(msg: Seq<u8>) -> bool {
    &&& msg.len() >= ICMP4_ECHO_HDR_SZ
    &&& msg[0] == ICMP4_ECHO_REQUEST
    &&& msg[1] == 0
    &&& Checksum::of(msg)@ == 0xFFFF
}

/// The echo request `msg` with four zero bytes for type, code and checksum: what the
/// checksum of the reply is computed over.
pub open spec fn echo_reply_unsigned(msg: Seq<u8>) -> Seq<u8> {
    seq![0u8, 0u8, 0u8, 0u8] + msg.skip(4)
}

/// The echo reply to the echo request `msg`: the same identifier, sequence number and
/// data, under the type of a reply and the checksum that fits.
pub open spec fn echo_reply(msg: Seq<u8>) -> Seq<u8> {
    seq![ICMP4_ECHO_REPLY, 0u8] + u16_bytes(ones_neg(Checksum::of(echo_reply_unsigned(msg))@)) + msg.skip(4)
}

/// Who answers echo requests, and for whom: the gateway, for the guest.
#[derive(Clone, Copy, Debug, PartialEq, Eq, Structural)]
pub struct Echo4Reply {
    /// The MAC address of the guest, which sends the requests.
    pub echo_src_mac: MacAddr,
    /// The address of the guest.
    pub echo_src_ip: Ipv4Addr,
    /// The MAC address of the gateway, which the requests are for.
    pub echo_dst_mac: MacAddr,
    /// The address of the gateway.
    pub echo_dst_ip: Ipv4Addr,
}

impl Echo4Reply {
    /// True when the ICMP message `msg` is answered: it is an echo request with a right
    /// checksum, and the reply fits an IPv4 packet.
    pub open spec fn can_reply(msg: Seq<u8>) -> bool {
        is_echo_request(msg) && IPV4_HDR_SZ + msg.len() <= 0xFFFF
    }

    /// The IPv4 header of the reply to `msg`.
    pub open spec fn reply_ip(self, msg: Seq<u8>) -> Ipv4Hdr {
        let h = Ipv4Hdr {
            total_len: (IPV4_HDR_SZ + msg.len()) as u16,
            ..Ipv4Hdr::spec_from_meta(
                Ipv4Meta { src: self.echo_dst_ip, dst: self.echo_src_ip, proto: Protocol::ICMP },
            )
        };
        Ipv4Hdr { csum: h.spec_hdr_csum(), ..h }
    }

    /// The frame that answers the echo request `msg`: from the gateway to the guest.
    pub open spec fn reply_frame(self, msg: Seq<u8>) -> Seq<u8> {
        (EtherMeta { dst: self.echo_src_mac, src: self.echo_dst_mac, ether_type: EtherType::Ipv4 }).wire()
            + self.reply_ip(msg).wire() + echo_reply(msg)
    }

    /// True when `preds` and `data_preds` are the predicates that a rule with this action
    /// has in any case: an IPv4 frame from the guest's MAC address to the gateway's, from
    /// the guest's address to the gateway's, that carries an ICMP echo request.
    pub open spec fn implicit(self, preds: Seq<Predicate>, data_preds: Seq<DataPredicate>) -> bool {
        &&& preds.len() == 6
        &&& preds[0] matches Predicate::InnerEtherType(l) && l@ == seq![EtherType::Ipv4]
        &&& preds[1] matches Predicate::InnerEtherSrc(l) && l@ == seq![self.echo_src_mac]
        &&& preds[2] matches Predicate::InnerEtherDst(l) && l@ == seq![self.echo_dst_mac]
        &&& preds[3] matches Predicate::InnerSrcIp4(l) && l@ == seq![Ipv4AddrMatch::Exact(self.echo_src_ip)]
        &&& preds[4] matches Predicate::InnerDstIp4(l) && l@ == seq![Ipv4AddrMatch::Exact(self.echo_dst_ip)]
        &&& preds[5] matches Predicate::InnerIpProto(l) && l@ == seq![Protocol::ICMP]
        &&& data_preds == seq![DataPredicate::ICMP4MsgType(ICMP4_ECHO_REQUEST)]
    }

    /// The predicates that a rule with this action has in any case.
    pub fn implicit_preds(&self) -> (r: (Vec<Predicate>, Vec<DataPredicate>))
        ensures
            self.implicit(r.0@, r.1@),
    {
        let mut preds: Vec<Predicate> = Vec::new();
        let mut l0: Vec<EtherType> = Vec::new();
        l0.push(EtherType::Ipv4);
        preds.push(Predicate::InnerEtherType(l0));
        let mut l1: Vec<MacAddr> = Vec::new();
        l1.push(self.echo_src_mac);
        preds.push(Predicate::InnerEtherSrc(l1));
        let mut l2: Vec<MacAddr> = Vec::new();
        l2.push(self.echo_dst_mac);
        preds.push(Predicate::InnerEtherDst(l2));
        let mut l3: Vec<Ipv4AddrMatch> = Vec::new();
        l3.push(Ipv4AddrMatch::Exact(self.echo_src_ip));
        preds.push(Predicate::InnerSrcIp4(l3));
        let mut l4: Vec<Ipv4AddrMatch> = Vec::new();
        l4.push(Ipv4AddrMatch::Exact(self.echo_dst_ip));
        preds.push(Predicate::InnerDstIp4(l4));
        let mut l5: Vec<Protocol> = Vec::new();
        l5.push(Protocol::ICMP);
        preds.push(Predicate::InnerIpProto(l5));
        let mut data_preds: Vec<DataPredicate> = Vec::new();
        data_preds.push(DataPredicate::ICMP4MsgType(ICMP4_ECHO_REQUEST));
        proof {
            assert(preds@[0] matches Predicate::InnerEtherType(l) && l@ =~= seq![EtherType::Ipv4]);
            assert(preds@[1] matches Predicate::InnerEtherSrc(l) && l@ =~= seq![self.echo_src_mac]);
            assert(preds@[2] matches Predicate::InnerEtherDst(l) && l@ =~= seq![self.echo_dst_mac]);
            assert(preds@[3] matches Predicate::InnerSrcIp4(l) && l@ =~= seq![Ipv4AddrMatch::Exact(self.echo_src_ip)]);
            assert(preds@[4] matches Predicate::InnerDstIp4(l) && l@ =~= seq![Ipv4AddrMatch::Exact(self.echo_dst_ip)]);
            assert(preds@[5] matches Predicate::InnerIpProto(l) && l@ =~= seq![Protocol::ICMP]);
            assert(data_preds@ =~= seq![DataPredicate::ICMP4MsgType(ICMP4_ECHO_REQUEST)]);
        }
        (preds, data_preds)
    }

    /// Builds the reply to the ICMP message `msg` as a packet of one segment; none where the
    /// message is not answered.
    pub fn gen_packet(&self, msg: &[u8]) -> (r: Option<Packet>)
        ensures
            match r {
                Some(p) => Echo4Reply::can_reply(msg@) && p@ == self.reply_frame(msg@) && p.wf()
                    && p.seg_ends@.len() == 1,
                None => !Echo4Reply::can_reply(msg@),
            },
    {
        let n = msg.len();
        if n < ICMP4_ECHO_HDR_SZ || n > 0xFFFF - IPV4_HDR_SZ {
            return None;
        }
        if msg[0] != ICMP4_ECHO_REQUEST || msg[1] != 0 {
            return None;
        }
        if Checksum::compute(msg).inner != 0xFFFF {
            return None;
        }
        // The checksum of the reply, over the reply with a zero checksum field.
        let mut unsigned: Vec<u8> = Vec::new();
        unsigned.push(0);
        unsigned.push(0);
        unsigned.push(0);
        unsigned.push(0);
        extend_range(&mut unsigned, msg, 4, n);
        assert(unsigned@ =~= echo_reply_unsigned(msg@));
        let csum = Checksum::compute(unsigned.as_slice()).finalize();
        let eth = EtherMeta { dst: self.echo_src_mac, src: self.echo_dst_mac, ether_type: EtherType::Ipv4 };
        let mut ip = Ipv4Hdr::from_meta(
            &Ipv4Meta { src: self.echo_dst_ip, dst: self.echo_src_ip, proto: Protocol::ICMP },
        );
        ip.set_total_len((IPV4_HDR_SZ + n) as u16);
        ip.compute_hdr_csum();
        let mut out: Vec<u8> = Vec::new();
        eth.emit(&mut out);
        ip.emit(&mut out);
        out.push(ICMP4_ECHO_REPLY);
        out.push(0);
        push_u16(&mut out, csum);
        extend_range(&mut out, msg, 4, n);
        assert(out@ =~= self.reply_frame(msg@));
        Some(Packet::copy(out.as_slice()))
    }
}

/// An action that answers a packet with a packet of its own.
#[derive(Clone, Copy, Debug, PartialEq, Eq, Structural)]
pub enum HairpinAction {
    /// Answer ICMP echo requests.
    Echo4(Echo4Reply),
}

/// The name of the gateway layer.
pub const GATEWAY_LAYER_NAME: &'static str = "gateway";

/// The priority of the rule that answers echo requests.
pub const GATEWAY_ECHO_PRIORITY: u16 = 1;

/// Who answers echo requests for the guest with the configuration `cfg`: its gateway.
pub open spec fn gateway_reply(cfg: VpcCfg) -> Echo4Reply {
    Echo4Reply {
        echo_src_mac: cfg.guest_mac,
        echo_src_ip: cfg.ipv4.private_ip,
        echo_dst_mac: cfg.gateway_mac,
        echo_dst_ip: cfg.ipv4.gateway_ip,
    }
}

/// True when `layer` is the gateway layer of a guest with the configuration `cfg`, without
/// flows: it lets everything through, but for the guest's echo requests to the gateway,
/// which its one rule answers.
pub open spec fn is_gateway_layer(layer: Layer, cfg: VpcCfg, ft_limit: u32) -> bool {
    &&& layer.wf()
    &&& layer.name@ == GATEWAY_LAYER_NAME@
    &&& layer.actions@ == seq![Action::Hairpin(HairpinAction::Echo4(gateway_reply(cfg)))]
    &&& layer.default_in == DefaultAction::Allow
    &&& layer.default_out == DefaultAction::Allow
    &&& layer.rules_in@.len() == 0
    &&& layer.rules_out@.len() == 1
    &&& layer.rules_out@[0].id == 1
    &&& layer.rules_out@[0].priority == GATEWAY_ECHO_PRIORITY
    &&& layer.rules_out@[0].action == Action::Hairpin(HairpinAction::Echo4(gateway_reply(cfg)))
    &&& gateway_reply(cfg).implicit(layer.rules_out@[0].predicates@, layer.rules_out@[0].data_predicates@)
    &&& layer.ft_in@.len() == 0
    &&& layer.ft_out@.len() == 0
    &&& layer.ft_in.limit == ft_limit
    &&& layer.ft_out.limit == ft_limit
    &&& layer.ft_in.ttl_ms == FLOW_DEF_EXPIRE_SECS * MILLIS_PER_SEC
    &&& layer.ft_out.ttl_ms == FLOW_DEF_EXPIRE_SECS * MILLIS_PER_SEC
}

/// Adds the gateway layer to the port in the making, before the firewall. Fails, and
/// changes nothing, as [`layer_add_outcome`] says.
pub fn setup(pb: &mut PortBuilder, cfg: &VpcCfg, ft_limit: u32) -> (r: Result<(), OpteError>)
    requires
        old(pb).wf(),
        ft_limit >= 1,
    ensures
        final(pb).wf(),
        final(pb).name == old(pb).name,
        final(pb).mac == old(pb).mac,
        final(pb).net == old(pb).net,
        layer_add_outcome(*old(pb), *final(pb), GATEWAY_LAYER_NAME@, Pos::Before(FW_LAYER_NAME), r),
        r is Ok ==> is_gateway_layer(
            final(pb).layers@[layer_index(old(pb).layers@, FW_LAYER_NAME@, 0)],
            *cfg,
            ft_limit,
        ),
{
    let reply = Action::Hairpin(
        HairpinAction::Echo4(
            Echo4Reply {
                echo_src_mac: cfg.guest_mac,
                echo_src_ip: cfg.ipv4.private_ip,
                echo_dst_mac: cfg.gateway_mac,
                echo_dst_ip: cfg.ipv4.gateway_ip,
            },
        ),
    );
    let mut actions: Vec<Action> = Vec::new();
    actions.push(reply);
    assert(actions@ =~= seq![reply]);
    let mut layer = Layer::new(
        GATEWAY_LAYER_NAME,
        pb.name(),
        LayerActions { actions, default_in: DefaultAction::Allow, default_out: DefaultAction::Allow },
        ft_limit,
    );
    let rule = Rule::new(GATEWAY_ECHO_PRIORITY, reply);
    let ghost made = rule;
    let _ = layer.add_rule(Direction::Out, rule.finalize());
    proof {
        assert(layer.rules_out@ =~= seq![crate::layer::numbered(made, 1)]);
        assert(layer.rules_out@[0].predicates@ == made.predicates@);
    }
    pb.add_layer(layer, Pos::Before(FW_LAYER_NAME))
}

} // verus!
