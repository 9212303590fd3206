//! Source NAT for IPv4: a guest reaches the outside under a shared address, on ports of its
//! own.

use crate::addr::IpAddr;
use crate::addr::Ipv4Addr;
use crate::api::Direction;
use crate::firewall::FW_LAYER_NAME;
use crate::flow_table::FlowSlot;
use crate::headers::Protocol;
use crate::layer::Layer;
use crate::layer::LayerActions;
use crate::port::layer_add_outcome;
use crate::port::layer_index;
use crate::port::OpteError;
use crate::port::PortBuilder;
use crate::port::Pos;
use crate::predicate::Ipv4AddrMatch;
use crate::predicate::Predicate;
use crate::rule::Action;
use crate::rule::DefaultAction;
use crate::rule::Rule;
use crate::vpc::VpcCfg;
use crate::flow_table::FlowTable;
use crate::packet::InnerFlowId;
use crate::rule::LayerFlow;
use crate::transform::HdrTransform;
use crate::flow_table::FLOW_DEF_EXPIRE_SECS;
use crate::time::MILLIS_PER_SEC;
use vstd::prelude::*;

verus! {

/// The name of the NAT layer.
pub const NAT_LAYER_NAME: &'static str = "nat";

/// The source NAT of a guest.
#[derive(Clone, Copy, Debug, PartialEq, Eq, Structural)]
pub struct SNat4 {
    /// The guest's own address.
    pub priv_ip: Ipv4Addr,
    /// The address that the guest shares.
    pub public_ip: Ipv4Addr,
    /// The first port of the guest's range under the shared address.
    pub port_start: u16,
    /// The port after the last port of the guest's range.
    pub port_end: u16,
}

/// True when a flow of `ft` has its source port rewritten to `port`.
pub open spec fn port_in_use(ft: Seq<FlowSlot<LayerFlow>>, port: u16) -> bool {
    exists|i: int| 0 <= i < ft.len() && (#[trigger] ft[i]).entry.value.xform.ulp_src == Some(port)
}

/// The highest port from `lo` up to, but not including, `hi` that no flow of `ft` uses.
pub open spec fn pick_port(ft: Seq<FlowSlot<LayerFlow>>, lo: u16, hi: u16) -> Option<u16>
    decreases hi,
{
    if hi <= lo {
        None
    } else if !port_in_use(ft, (hi - 1) as u16) {
        Some((hi - 1) as u16)
    } else {
        pick_port(ft, lo, (hi - 1) as u16)
    }
}

fn in_use(ft: &FlowTable<LayerFlow>, port: u16) -> (r: bool)
    ensures
        r == port_in_use(ft@, port),
{
    let n = ft.slots.len();
    let mut i: usize = 0;
    while i < n
        invariant
            i <= n == ft.slots.len(),
            forall|k: int| 0 <= k < i ==> (#[trigger] ft@[k]).entry.value.xform.ulp_src != Some(port),
        decreases n - i,
    {
        if ft.slots[i].entry.value.xform.ulp_src == Some(port) {
            return true;
        }
        i = i + 1;
    }
    false
}

impl SNat4 {
    /// The transformation of a packet from the guest: it leaves under the shared address,
    /// from `port`.
    pub open spec fn spec_out_xform(self, port: u16) -> HdrTransform {
        HdrTransform { ip4_src: Some(self.public_ip), ulp_src: Some(port), ..HdrTransform::spec_identity() }
    }

    /// The transformation of the answers to the flow `flow` of the guest: they go to the
    /// address and the port that the guest sent from.
    pub open spec fn spec_in_xform(flow: InnerFlowId) -> HdrTransform {
        HdrTransform {
            ip4_dst: match flow.src_ip {
                IpAddr::Ip4(a) => Some(a),
                IpAddr::Ip6(_) => None,
            },
            ulp_dst: Some(flow.src_port),
            ..HdrTransform::spec_identity()
        }
    }

    /// The port that a new flow gets: the highest port of the range that no flow of the
    /// table uses.
    pub fn pick(&self, ft: &FlowTable<LayerFlow>) -> (r: Option<u16>)
        ensures
            r == pick_port(ft@, self.port_start, self.port_end),
    {
        let mut hi = self.port_end;
        while hi > self.port_start
            invariant
                pick_port(ft@, self.port_start, self.port_end) == pick_port(ft@, self.port_start, hi),
            decreases hi,
        {
            if !in_use(ft, hi - 1) {
                return Some(hi - 1);
            }
            hi = hi - 1;
        }
        None
    }

    /// The transformation of a packet from the guest.
    pub fn out_xform(&self, port: u16) -> (r: HdrTransform)
        ensures
            r == self.spec_out_xform(port),
    {
        let mut x = HdrTransform::identity();
        x.ip4_src = Some(self.public_ip);
        x.ulp_src = Some(port);
        x
    }

    /// The transformation of the answers to the flow `flow` of the guest.
    pub fn in_xform(flow: &InnerFlowId) -> (r: HdrTransform)
        ensures
            r == SNat4::spec_in_xform(*flow),
    {
        let mut x = HdrTransform::identity();
        x.ip4_dst = match flow.src_ip {
            IpAddr::Ip4(a) => Some(a),
            IpAddr::Ip6(_) => None,
        };
        x.ulp_dst = Some(flow.src_port);
        x
    }
}

/// The priority of the rule that does source NAT.
pub const NAT_PRIORITY: u16 = 1;

/// The source NAT that the configuration `cfg` asks for, where it asks for one.
pub open spec fn snat_of(cfg: VpcCfg) -> Option<SNat4> {
    match cfg.ipv4.snat {
        Some(s) => Some(
            SNat4 {
                priv_ip: cfg.ipv4.private_ip,
                public_ip: s.external_ip,
                port_start: s.port_start,
                port_end: s.port_end,
            },
        ),
        None => None,
    }
}

/// True when `preds` ask for a TCP or UDP packet from the address `cfg.ipv4.private_ip` to
/// an address outside the guest's VPC subnet.
pub open spec fn is_nat_match(preds: Seq<Predicate>, cfg: VpcCfg) -> bool {
    &&& preds.len() == 3
    &&& preds[0] matches Predicate::InnerSrcIp4(l) && l@ == seq![Ipv4AddrMatch::Exact(cfg.ipv4.private_ip)]
    &&& preds[1] matches Predicate::InnerIpProto(l) && l@ == seq![Protocol::TCP, Protocol::UDP]
    &&& preds[2] matches Predicate::Not(p) && (*p matches Predicate::InnerDstIp4(l) && l@ == seq![
        Ipv4AddrMatch::Prefix(cfg.ipv4.vpc_subnet),
    ])
}

/// True when `layer` is the NAT layer of a guest with the configuration `cfg`, without
/// flows: it lets everything through as it is, but for what the guest sends to addresses
/// outside its VPC subnet, whose source its one rule rewrites. Without source NAT in the
/// configuration the layer has no rule.
pub open spec fn is_nat_layer(layer: Layer, cfg: VpcCfg, ft_limit: u32) -> bool {
    &&& layer.wf()
    &&& layer.name@ == NAT_LAYER_NAME@
    &&& layer.default_in == DefaultAction::Allow
    &&& layer.default_out == DefaultAction::Allow
    &&& layer.rules_in@.len() == 0
    &&& layer.ft_in@.len() == 0
    &&& layer.ft_out@.len() == 0
    &&& layer.ft_in.limit == ft_limit
    &&& layer.ft_out.limit == ft_limit
    &&& layer.ft_in.ttl_ms == FLOW_DEF_EXPIRE_SECS * MILLIS_PER_SEC
    &&& layer.ft_out.ttl_ms == FLOW_DEF_EXPIRE_SECS * MILLIS_PER_SEC
    &&& match snat_of(cfg) {
        Some(n) => {
            &&& layer.actions@ == seq![Action::StatefulNat(n)]
            &&& layer.rules_out@.len() == 1
            &&& layer.rules_out@[0].id == 1
            &&& layer.rules_out@[0].priority == NAT_PRIORITY
            &&& layer.rules_out@[0].action == Action::LayerAction(0)
            &&& is_nat_match(layer.rules_out@[0].predicates@, cfg)
            &&& layer.rules_out@[0].data_predicates@.len() == 0
        },
        None => layer.actions@.len() == 0 && layer.rules_out@.len() == 0,
    }
}

/// Adds the NAT layer to the port in the making, after the firewall. Fails, and changes
/// nothing, as [`layer_add_outcome`] says.
pub fn setup(pb: &mut PortBuilder, cfg: &VpcCfg, ft_limit: u32) -> (r: Result<(), OpteError>)
    requires
        old(pb).wf(),
        ft_limit >= 1,
    ensures
        final(pb).wf(),
        final(pb).name == old(pb).name,
        final(pb).mac == old(pb).mac,
        final(pb).net == old(pb).net,
        layer_add_outcome(*old(pb), *final(pb), NAT_LAYER_NAME@, Pos::After(FW_LAYER_NAME), r),
        r is Ok ==> is_nat_layer(
            final(pb).layers@[layer_index(old(pb).layers@, FW_LAYER_NAME@, 0) + 1],
            *cfg,
            ft_limit,
        ),
{
    let mut actions: Vec<Action> = Vec::new();
    match cfg.ipv4.snat {
        Some(s) => {
            let n = SNat4 {
                priv_ip: cfg.ipv4.private_ip,
                public_ip: s.external_ip,
                port_start: s.port_start,
                port_end: s.port_end,
            };
            actions.push(Action::StatefulNat(n));
            assert(actions@ =~= seq![Action::StatefulNat(n)]);
        },
        None => {},
    }
    let mut layer = Layer::new(
        NAT_LAYER_NAME,
        pb.name(),
        LayerActions { actions, default_in: DefaultAction::Allow, default_out: DefaultAction::Allow },
        ft_limit,
    );
    if cfg.ipv4.snat.is_some() {
        let mut rule = Rule::new(NAT_PRIORITY, Action::LayerAction(0));
        let mut src: Vec<Ipv4AddrMatch> = Vec::new();
        src.push(Ipv4AddrMatch::Exact(cfg.ipv4.private_ip));
        rule.add_predicate(Predicate::InnerSrcIp4(src));
        let mut protos: Vec<Protocol> = Vec::new();
        protos.push(Protocol::TCP);
        protos.push(Protocol::UDP);
        rule.add_predicate(Predicate::InnerIpProto(protos));
        let mut subnet: Vec<Ipv4AddrMatch> = Vec::new();
        subnet.push(Ipv4AddrMatch::Prefix(cfg.ipv4.vpc_subnet));
        rule.add_predicate(Predicate::Not(Box::new(Predicate::InnerDstIp4(subnet))));
        proof {
            assert(src@ =~= seq![Ipv4AddrMatch::Exact(cfg.ipv4.private_ip)]);
            assert(protos@ =~= seq![Protocol::TCP, Protocol::UDP]);
            assert(subnet@ =~= seq![Ipv4AddrMatch::Prefix(cfg.ipv4.vpc_subnet)]);
            assert(is_nat_match(rule.predicates@, *cfg));
        }
        let ghost made = rule;
        let _ = layer.add_rule(Direction::Out, rule.finalize());
        proof {
            assert(layer.rules_out@ =~= seq![crate::layer::numbered(made, 1)]);
            assert(layer.rules_out@[0].predicates@ == made.predicates@);
        }
    }
    pb.add_layer(layer, Pos::After(FW_LAYER_NAME))
}

} // verus!
