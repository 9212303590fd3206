//! The overlay: guests' packets travel the physical network inside Geneve.

use crate::addr::IpAddr;
use crate::addr::Ipv6Addr;
use crate::addr::MacAddr;
use crate::encap::Vni;
use crate::ether::EtherMeta;
use crate::ether::EtherType;
use crate::geneve::GENEVE_PORT;
use crate::headers::GeneveMeta;
use crate::headers::IpMeta;
use crate::headers::Ipv6Meta;
use crate::headers::Protocol;
use crate::headers::UdpMeta;
use crate::headers::UlpMeta;
use crate::api::Direction;
use crate::layer::Layer;
use crate::layer::LayerActions;
use crate::meta::ActionMeta;
use crate::port::layer_add_outcome;
use crate::port::OpteError;
use crate::port::PortBuilder;
use crate::port::Pos;
use crate::rule::Action;
use crate::rule::DefaultAction;
use crate::rule::Rule;
use crate::rule::StaticAction;
use crate::vpc::VpcCfg;
use crate::packet::OuterMeta;
use crate::packet::PacketMeta;
use crate::parsed::GENEVE_SRC_PORT;
use crate::router::RouterTargetInternal;
use crate::transform::HdrTransform;
use crate::transform::OuterAction;
use crate::vpc::BoundaryServices;
use crate::flow_table::FLOW_DEF_EXPIRE_SECS;
use crate::time::MILLIS_PER_SEC;
use vstd::prelude::*;

verus! {

/// The name of the overlay layer.
pub const OVERLAY_LAYER_NAME: &'static str = "overlay";

/// Where a guest lives on the physical network.
#[derive(Clone, Copy, Debug, PartialEq, Eq, Structural)]
pub struct GuestPhysAddr {
    pub ether: MacAddr,
    pub ip: Ipv6Addr,
}

/// A place on the physical network, with the virtual network that it belongs to.
#[derive(Clone, Copy, Debug, PartialEq, Eq, Structural)]
pub struct PhysNet {
    pub ether: MacAddr,
    pub ip: Ipv6Addr,
    pub vni: Vni,
}

/// One mapping from a guest's address to where the guest lives.
#[derive(Clone, Copy, Debug, PartialEq, Eq, Structural)]
pub struct V2pEntry {
    pub vip: IpAddr,
    pub phys: GuestPhysAddr,
}

/// The virtual-to-physical mappings of a VPC. Its view is the sequence of its mappings; no
/// address occurs twice.
#[derive(Debug)]
pub struct Virt2Phys {
    pub entries: Vec<V2pEntry>,
}

impl View for Virt2Phys {
    type V = Seq<V2pEntry>;

    open spec fn view(&self) -> Seq<V2pEntry> {
        self.entries@
    }
}

/// Where the guest with the address `vip` lives, by the mappings `s`: the first mapping
/// for `vip` counts.
pub open spec fn v2p_lookup(s: Seq<V2pEntry>, vip: IpAddr) -> Option<GuestPhysAddr>
    decreases s.len(),
{
    if s.len() == 0 {
        None
    } else if s[0].vip == vip {
        Some(s[0].phys)
    } else {
        v2p_lookup(s.drop_first(), vip)
    }
}

/// The position of the first mapping for `vip` in `s`, or the length of `s` where there is
/// none.
pub open spec fn v2p_slot(s: Seq<V2pEntry>, vip: IpAddr) -> int
    decreases s.len(),
{
    if s.len() == 0 {
        0
    } else if s[0].vip == vip {
        0
    } else {
        1 + v2p_slot(s.drop_first(), vip)
    }
}

/// The mappings `s` with `vip` mapped to `phys`: the first mapping for `vip` changes where
/// there is one, else the new mapping goes to the end.
pub open spec fn v2p_set(s: Seq<V2pEntry>, vip: IpAddr, phys: GuestPhysAddr) -> Seq<V2pEntry> {
    let i = v2p_slot(s, vip);
    if i < s.len() {
        s.update(i, V2pEntry { vip, phys })
    } else {
        s.push(V2pEntry { vip, phys })
    }
}

/// `v2p_slot` is a position of the first mapping for the address, and `v2p_lookup` is what
/// stands there.
pub proof fn lemma_v2p_slot(s: Seq<V2pEntry>, vip: IpAddr)
    ensures
        0 <= v2p_slot(s, vip) <= s.len(),
        v2p_slot(s, vip) < s.len() ==> s[v2p_slot(s, vip)].vip == vip && v2p_lookup(s, vip) == Some(
            s[v2p_slot(s, vip)].phys,
        ),
        v2p_slot(s, vip) == s.len() ==> v2p_lookup(s, vip) is None,
        forall|k: int| 0 <= k < v2p_slot(s, vip) ==> s[k].vip != vip,
    decreases s.len(),
{
    if s.len() > 0 && s[0].vip != vip {
        let t = s.drop_first();
        lemma_v2p_slot(t, vip);
        assert forall|k: int| 0 <= k < v2p_slot(s, vip) implies s[k].vip != vip by {
            if k > 0 {
                assert(t[k - 1] == s[k]);
            }
        }
        if v2p_slot(t, vip) < t.len() {
            assert(t[v2p_slot(t, vip)] == s[v2p_slot(s, vip)]);
        }
    }
}

/// Where the first `n` mappings are not for the address, `v2p_slot` is at least `n`; where
/// the mapping at `n` is for it, `v2p_slot` is `n`.
pub proof fn lemma_v2p_slot_from(s: Seq<V2pEntry>, vip: IpAddr, n: int)
    requires
        0 <= n <= s.len(),
        forall|k: int| 0 <= k < n ==> s[k].vip != vip,
    ensures
        v2p_slot(s, vip) >= n,
        n < s.len() && s[n].vip == vip ==> v2p_slot(s, vip) == n,
{
    lemma_v2p_slot(s, vip);
}

impl Virt2Phys {
    /// No mappings.
    pub fn new() -> (r: Virt2Phys)
        ensures
            r@ == Seq::<V2pEntry>::empty(),
    {
        Virt2Phys { entries: Vec::new() }
    }

    // The position of the first mapping for `vip`, or the number of mappings.
    fn slot(&self, vip: &IpAddr) -> (r: usize)
        ensures
            r == v2p_slot(self@, *vip),
            r <= self@.len(),
    {
        let n = self.entries.len();
        let mut i: usize = 0;
        while i < n
            invariant
                i <= n == self.entries.len(),
                forall|k: int| 0 <= k < i ==> self@[k].vip != *vip,
            decreases n - i,
        {
            if self.entries[i].vip == *vip {
                proof {
                    lemma_v2p_slot_from(self@, *vip, i as int);
                }
                return i;
            }
            i = i + 1;
        }
        proof {
            lemma_v2p_slot_from(self@, *vip, n as int);
            lemma_v2p_slot(self@, *vip);
        }
        n
    }

    /// Maps the guest address `vip` to `phys`.
    pub fn set(&mut self, vip: IpAddr, phys: GuestPhysAddr)
        ensures
            final(self)@ == v2p_set(old(self)@, vip, phys),
    {
        let i = self.slot(&vip);
        if i < self.entries.len() {
            self.entries.set(i, V2pEntry { vip, phys });
        } else {
            self.entries.push(V2pEntry { vip, phys });
        }
    }

    /// Where the guest with the address `vip` lives, if that is known.
    pub fn get(&self, vip: &IpAddr) -> (r: Option<GuestPhysAddr>)
        ensures
            r == v2p_lookup(self@, *vip),
    {
        let i = self.slot(vip);
        proof {
            lemma_v2p_slot(self@, *vip);
        }
        if i < self.entries.len() {
            Some(self.entries[i].phys)
        } else {
            None
        }
    }
}

/// What the overlay needs to know of its port to encapsulate.
#[derive(Clone, Copy, Debug, PartialEq, Eq, Structural)]
pub struct EncapAction {
    /// The virtual network of the guest.
    pub vni: Vni,
    /// Where the guest's port lives on the physical network.
    pub phys_ip_src: Ipv6Addr,
    /// Where packets for the internet go.
    pub boundary_services: BoundaryServices,
}

impl EncapAction {
    /// Where a packet with the inner headers `meta` goes on the physical network, given the
    /// router's target and the mappings `v2p`: to boundary services for the internet
    /// gateway; to where the target address lives; to where the packet's own destination
    /// lives for a VPC subnet. Nowhere without a target, and nowhere where the address is
    /// not mapped.
    pub open spec fn spec_target(self, ameta: ActionMeta, v2p: Seq<V2pEntry>, meta: PacketMeta) -> Option<PhysNet> {
        match ameta.router_target {
            None => None,
            Some(RouterTargetInternal::InternetGateway) => Some(
                PhysNet {
                    ether: self.boundary_services.mac,
                    ip: self.boundary_services.ip,
                    vni: self.boundary_services.vni,
                },
            ),
            Some(RouterTargetInternal::Ip(addr)) => match v2p_lookup(v2p, addr) {
                Some(p) => Some(PhysNet { ether: p.ether, ip: p.ip, vni: self.vni }),
                None => None,
            },
            Some(RouterTargetInternal::VpcSubnet(_)) => match meta.inner.ip {
                Some(ip) => match v2p_lookup(v2p, ip.spec_dst()) {
                    Some(p) => Some(PhysNet { ether: p.ether, ip: p.ip, vni: self.vni }),
                    None => None,
                },
                None => None,
            },
        }
    }

    /// The outer headers of a packet from this port to `phys`.
    pub open spec fn spec_outer(self, phys: PhysNet) -> OuterMeta {
        OuterMeta {
            ether: Some(EtherMeta { dst: MacAddr::of(0), src: MacAddr::of(0), ether_type: EtherType::Ipv6 }),
            ip: Some(IpMeta::Ip6(Ipv6Meta { src: self.phys_ip_src, dst: phys.ip, proto: Protocol::UDP })),
            ulp: Some(UlpMeta::Udp(UdpMeta { src: GENEVE_SRC_PORT, dst: GENEVE_PORT })),
            encap: Some(GeneveMeta { vni: phys.vni }),
        }
    }

    /// The transformation that sends a packet to `phys`: the outer headers are put on, and
    /// the inner frame is addressed to the MAC address there.
    pub open spec fn spec_xform(self, phys: PhysNet) -> HdrTransform {
        HdrTransform {
            outer: OuterAction::Push(self.spec_outer(phys)),
            ether_dst: Some(phys.ether),
            ..HdrTransform::spec_identity()
        }
    }

    /// The transformation that encapsulates a packet with the inner headers `meta`; none
    /// where the packet has nowhere to go.
    pub open spec fn spec_gen(self, ameta: ActionMeta, v2p: Seq<V2pEntry>, meta: PacketMeta) -> Option<HdrTransform> {
        match self.spec_target(ameta, v2p, meta) {
            Some(phys) => Some(self.spec_xform(phys)),
            None => None,
        }
    }

    /// The transformation that encapsulates a packet with the inner headers `meta`; none
    /// where the packet has nowhere to go.
    pub fn gen(&self, ameta: &ActionMeta, v2p: &Virt2Phys, meta: &PacketMeta) -> (r: Option<HdrTransform>)
        ensures
            r == self.spec_gen(*ameta, v2p@, *meta),
    {
        let phys = match ameta.router_target {
            None => {
                return None;
            },
            Some(RouterTargetInternal::InternetGateway) => PhysNet {
                ether: self.boundary_services.mac,
                ip: self.boundary_services.ip,
                vni: self.boundary_services.vni,
            },
            Some(RouterTargetInternal::Ip(addr)) => match v2p.get(&addr) {
                Some(p) => PhysNet { ether: p.ether, ip: p.ip, vni: self.vni },
                None => {
                    return None;
                },
            },
            Some(RouterTargetInternal::VpcSubnet(_)) => match &meta.inner.ip {
                Some(ip) => {
                    let dst = ip.dst();
                    match v2p.get(&dst) {
                        Some(p) => PhysNet { ether: p.ether, ip: p.ip, vni: self.vni },
                        None => {
                            return None;
                        },
                    }
                },
                None => {
                    return None;
                },
            },
        };
        let outer = OuterMeta {
            ether: Some(EtherMeta { dst: MacAddr::zero(), src: MacAddr::zero(), ether_type: EtherType::Ipv6 }),
            ip: Some(IpMeta::Ip6(Ipv6Meta { src: self.phys_ip_src, dst: phys.ip, proto: Protocol::UDP })),
            ulp: Some(UlpMeta::Udp(UdpMeta { src: GENEVE_SRC_PORT, dst: GENEVE_PORT })),
            encap: Some(GeneveMeta { vni: phys.vni }),
        };
        let mut x = HdrTransform::identity();
        x.outer = OuterAction::Push(outer);
        x.ether_dst = Some(phys.ether);
        Some(x)
    }
}

/// The transformation that takes the encapsulation off.
pub open spec fn spec_decap_xform() -> HdrTransform {
    HdrTransform { outer: OuterAction::Pop, ..HdrTransform::spec_identity() }
}

/// The transformation that takes the encapsulation off.
pub fn decap_xform() -> (r: HdrTransform)
    ensures
        r == spec_decap_xform(),
{
    let mut x = HdrTransform::identity();
    x.outer = OuterAction::Pop;
    x
}

/// The priority of the rules of the overlay.
pub const OVERLAY_PRIORITY: u16 = 1;

/// How the port of a guest with the configuration `cfg` encapsulates.
pub open spec fn encap_of(cfg: VpcCfg) -> EncapAction {
    EncapAction { vni: cfg.vni, phys_ip_src: cfg.phys_ip, boundary_services: cfg.boundary_services }
}

/// True when `rule` is a rule without predicates that refers to the layer's action `idx`.
pub open spec fn is_any_rule(rule: Rule, idx: usize) -> bool {
    &&& rule.id >= 1
    &&& rule.priority == OVERLAY_PRIORITY
    &&& rule.action == Action::LayerAction(idx)
    &&& rule.predicates@.len() == 0
    &&& rule.data_predicates@.len() == 0
}

/// True when `layer` is the overlay layer of a guest with the configuration `cfg`, without
/// flows: every packet from the guest is encapsulated, every packet towards the guest has
/// its encapsulation taken off.
pub open spec fn is_overlay_layer(layer: Layer, cfg: VpcCfg, ft_limit: u32) -> bool {
    &&& layer.wf()
    &&& layer.name@ == OVERLAY_LAYER_NAME@
    &&& layer.actions@ == seq![
        Action::Static(StaticAction::Encap(encap_of(cfg))),
        Action::Static(StaticAction::Decap),
    ]
    &&& layer.default_in == DefaultAction::Deny
    &&& layer.default_out == DefaultAction::Deny
    &&& layer.rules_out@.len() == 1
    &&& is_any_rule(layer.rules_out@[0], 0)
    &&& layer.rules_in@.len() == 1
    &&& is_any_rule(layer.rules_in@[0], 1)
    &&& layer.ft_in@.len() == 0
    &&& layer.ft_out@.len() == 0
    &&& layer.ft_in.limit == ft_limit
    &&& layer.ft_out.limit == ft_limit
    &&& layer.ft_in.ttl_ms == FLOW_DEF_EXPIRE_SECS * MILLIS_PER_SEC
    &&& layer.ft_out.ttl_ms == FLOW_DEF_EXPIRE_SECS * MILLIS_PER_SEC
}

/// Adds the overlay layer to the port in the making, after all other layers. Fails, and
/// changes nothing, as [`layer_add_outcome`] says.
pub fn setup(pb: &mut PortBuilder, cfg: &VpcCfg, ft_limit: u32) -> (r: Result<(), OpteError>)
    requires
        old(pb).wf(),
        ft_limit >= 1,
    ensures
        final(pb).wf(),
        final(pb).name == old(pb).name,
        final(pb).mac == old(pb).mac,
        final(pb).net == old(pb).net,
        layer_add_outcome(*old(pb), *final(pb), OVERLAY_LAYER_NAME@, Pos::Last, r),
        r is Ok ==> is_overlay_layer(final(pb).layers@[old(pb).layers@.len() as int], *cfg, ft_limit),
{
    let encap = Action::Static(
        StaticAction::Encap(
            EncapAction { vni: cfg.vni, phys_ip_src: cfg.phys_ip, boundary_services: cfg.boundary_services },
        ),
    );
    let decap = Action::Static(StaticAction::Decap);
    let mut actions: Vec<Action> = Vec::new();
    actions.push(encap);
    actions.push(decap);
    assert(actions@ =~= seq![encap, decap]);
    let mut layer = Layer::new(
        OVERLAY_LAYER_NAME,
        pb.name(),
        LayerActions { actions, default_in: DefaultAction::Deny, default_out: DefaultAction::Deny },
        ft_limit,
    );
    let out_rule = Rule::match_any(OVERLAY_PRIORITY, Action::LayerAction(0));
    let ghost made_out = out_rule;
    let _ = layer.add_rule(Direction::Out, out_rule);
    let in_rule = Rule::match_any(OVERLAY_PRIORITY, Action::LayerAction(1));
    let ghost made_in = in_rule;
    let _ = layer.add_rule(Direction::In, in_rule);
    proof {
        assert(layer.rules_out@ =~= seq![crate::layer::numbered(made_out, 1)]);
        assert(layer.rules_in@ =~= seq![crate::layer::numbered(made_in, 2)]);
    }
    pb.add_layer(layer, Pos::Last)
}

} // verus!
