//! The VPC router: which destinations a guest can reach, and where their packets go.

use crate::addr::ipv4_text;
use crate::addr::ipv6_read;
use crate::addr::ipv6_text;
use crate::addr::malformed_cidr;
use crate::addr::malformed_ip;
use crate::addr::read_ipv4;
use crate::addr::IpAddr;
use crate::addr::IpCidr;
use crate::addr::Ipv4Addr;
use crate::addr::Ipv4Cidr;
use crate::addr::Ipv6Addr;
use crate::addr::Ipv6Cidr;
use crate::addr::IPV4_BITS;
use crate::addr::IPV6_BITS;
use crate::api::Direction;
use crate::api::NoResp;
use crate::firewall::FW_LAYER_NAME;
use crate::layer::first_match;
use crate::layer::lemma_first_match;
use crate::layer::by_priority;
use crate::layer::built;
use crate::layer::same_pos;
use crate::layer::Layer;
use crate::layer::LayerActions;
use crate::meta::ActionMeta;
use crate::packet::PacketMeta;
use crate::port::layer_add_outcome;
use crate::port::layer_index;
use crate::port::place_of;
use crate::port::OpteError;
use crate::port::Port;
use crate::port::PortBuilder;
use crate::port::Pos;
use crate::port::MAX_LAYERS;
use crate::predicate::Ipv4AddrMatch;
use crate::predicate::Ipv6AddrMatch;
use crate::rule::Action;
use crate::rule::DefaultAction;
use crate::rule::Rule;
use crate::vpc::VpcCfg;
use crate::packet::InnerFlowId;
use crate::predicate::DataPredicate;
use crate::predicate::Predicate;
use crate::text::chars_eq_str;
use crate::text::chars_of;
use crate::text::copy_chars;
use crate::text::find_char;
use crate::text::index_of;
use crate::text::string_of;
use crate::flow_table::FLOW_DEF_EXPIRE_SECS;
use crate::time::MILLIS_PER_SEC;
use vstd::prelude::*;
use vstd::string::StringExecFns;

verus! {

/// The name of the router layer.
pub const ROUTER_LAYER_NAME: &'static str = "router";

/// The key under which the router's decision is known to the layers after it.
pub const ROUTER_TARGET_KEY: &'static str = "router-target";

/// The priority of a route to a single address; shorter prefixes come after it.
pub const ROUTER_PRIORITY_BASE: u16 = 10;

/// Where the control plane sends the packets for a destination.
#[derive(Clone, Copy, Debug, PartialEq, Eq, Structural)]
pub enum RouterTarget {
    /// Nowhere: the packets are dropped.
    Drop,
    InternetGateway,
    Ip(IpAddr),
    VpcSubnet(IpCidr),
}

/// Where the router sends a packet that it lets through.
#[derive(Clone, Copy, Debug, PartialEq, Eq, Structural)]
pub enum RouterTargetInternal {
    InternetGateway,
    Ip(IpAddr),
    VpcSubnet(IpCidr),
}

/// Either an allowance that carries a value or a denial.
#[derive(Clone, Copy, Debug, PartialEq, Eq, Structural)]
pub enum AllowOrDeny<T> {
    Allow(T),
    Deny,
}

/// What an action that writes action metadata hands back.
pub type ModMetaResult = Result<AllowOrDeny<()>, String>;

/// A value that layers pass on to later layers as text under a key.
pub trait ActionMetaValue: Sized {
    /// The key of the value.
    spec fn spec_key() -> Seq<char>;

    /// The text of the value.
    spec fn spec_as_meta(&self) -> Seq<char>;

    /// What reading the text `s` gives: the value, or the message of the error.
    spec fn spec_from_meta(s: Seq<char>) -> Result<Self, Seq<char>>;

    /// The key of the value.
    fn key(&self) -> (r: String)
        ensures
            r@ == Self::spec_key(),
    ;

    /// The text of the value.
    fn as_meta(&self) -> (r: String)
        ensures
            r@ == self.spec_as_meta(),
    ;

    /// Reads the value from its text.
    fn from_meta(s: &str) -> (r: Result<Self, String>)
        ensures
            match r {
                Ok(v) => Self::spec_from_meta(s@) == Ok::<Self, Seq<char>>(v),
                Err(e) => Self::spec_from_meta(s@) == Err::<Self, Seq<char>>(e@),
            },
    ;
}

/// The message with which text that names no router target is refused.
pub open spec fn bad_router_target(s: Seq<char>) -> Seq<char> {
    "bad router target: "@ + s
}

/// What the text `val` after the key `key` and an equals sign reads as.
pub open spec fn keyed_target(key: Seq<char>, val: Seq<char>, whole: Seq<char>) -> Result<
    RouterTargetInternal,
    Seq<char>,
> {
    if key == "ip4"@ {
        match read_ipv4(val) {
            Some(v) => Ok(RouterTargetInternal::Ip(IpAddr::Ip4(Ipv4Addr { inner: v }))),
            None => Err(malformed_ip(val)),
        }
    } else if key == "ip6"@ {
        match ipv6_read(val) {
            Some(v) => Ok(RouterTargetInternal::Ip(IpAddr::Ip6(Ipv6Addr { inner: v }))),
            None => Err(malformed_ip(val)),
        }
    } else if key == "sub4"@ {
        match Ipv4Cidr::read(val) {
            Some(p) => Ok(
                RouterTargetInternal::VpcSubnet(IpCidr::Ip4(Ipv4Cidr::spec_new(Ipv4Addr { inner: p.0 }, p.1))),
            ),
            None => Err(malformed_cidr(val)),
        }
    } else if key == "sub6"@ {
        match Ipv6Cidr::read(val) {
            Some(p) => Ok(
                RouterTargetInternal::VpcSubnet(IpCidr::Ip6(Ipv6Cidr::spec_new(Ipv6Addr { inner: p.0 }, p.1))),
            ),
            None => Err(malformed_cidr(val)),
        }
    } else {
        Err(bad_router_target(whole))
    }
}

impl ActionMetaValue for RouterTargetInternal {
    open spec fn spec_key() -> Seq<char> {
        ROUTER_TARGET_KEY@
    }

    open spec fn spec_as_meta(&self) -> Seq<char> {
        match self {
            RouterTargetInternal::InternetGateway => "ig"@,
            RouterTargetInternal::Ip(IpAddr::Ip4(ip4)) => "ip4="@ + ipv4_text(ip4@),
            RouterTargetInternal::Ip(IpAddr::Ip6(ip6)) => "ip6="@ + ipv6_text(ip6@),
            RouterTargetInternal::VpcSubnet(IpCidr::Ip4(cidr4)) => "sub4="@ + cidr4.text(),
            RouterTargetInternal::VpcSubnet(IpCidr::Ip6(cidr6)) => "sub6="@ + cidr6.text(),
        }
    }

    open spec fn spec_from_meta(s: Seq<char>) -> Result<Self, Seq<char>> {
        if s == "ig"@ {
            Ok(RouterTargetInternal::InternetGateway)
        } else if index_of(s, '=') >= 0 {
            keyed_target(s.take(index_of(s, '=')), s.skip(index_of(s, '=') + 1), s)
        } else {
            Err(bad_router_target(s))
        }
    }

    fn key(&self) -> (r: String) {
        ROUTER_TARGET_KEY.to_owned()
    }

    fn as_meta(&self) -> (r: String) {
        match self {
            RouterTargetInternal::InternetGateway => "ig".to_owned(),
            RouterTargetInternal::Ip(IpAddr::Ip4(ip4)) => {
                let mut out = "ip4=".to_owned();
                let t = ip4.to_string();
                out.append(t.as_str());
                out
            },
            RouterTargetInternal::Ip(IpAddr::Ip6(ip6)) => {
                let mut out = "ip6=".to_owned();
                let t = ip6.to_string();
                out.append(t.as_str());
                out
            },
            RouterTargetInternal::VpcSubnet(IpCidr::Ip4(cidr4)) => {
                let mut out = "sub4=".to_owned();
                let t = cidr4.to_string();
                out.append(t.as_str());
                out
            },
            RouterTargetInternal::VpcSubnet(IpCidr::Ip6(cidr6)) => {
                let mut out = "sub6=".to_owned();
                let t = cidr6.to_string();
                out.append(t.as_str());
                out
            },
        }
    }

    fn from_meta(s: &str) -> (r: Result<Self, String>) {
        let chars = chars_of(s);
        if chars_eq_str(&chars, "ig") {
            return Ok(RouterTargetInternal::InternetGateway);
        }
        match find_char(&chars, '=') {
            Some(i) => {
                let key = copy_chars(&chars, 0, i);
                let val_chars = copy_chars(&chars, i + 1, chars.len());
                let val = string_of(&val_chars);
                proof {
                    assert(key@ =~= s@.take(i as int));
                    assert(val@ =~= s@.skip(i + 1));
                }
                if chars_eq_str(&key, "ip4") {
                    match Ipv4Addr::parse(val.as_str()) {
                        Ok(ip4) => Ok(RouterTargetInternal::Ip(IpAddr::Ip4(ip4))),
                        Err(e) => Err(e),
                    }
                } else if chars_eq_str(&key, "ip6") {
                    match Ipv6Addr::parse(val.as_str()) {
                        Ok(ip6) => Ok(RouterTargetInternal::Ip(IpAddr::Ip6(ip6))),
                        Err(e) => Err(e),
                    }
                } else if chars_eq_str(&key, "sub4") {
                    match Ipv4Cidr::parse(val.as_str()) {
                        Ok(cidr4) => Ok(RouterTargetInternal::VpcSubnet(IpCidr::Ip4(cidr4))),
                        Err(e) => Err(e),
                    }
                } else if chars_eq_str(&key, "sub6") {
                    match Ipv6Cidr::parse(val.as_str()) {
                        Ok(cidr6) => Ok(RouterTargetInternal::VpcSubnet(IpCidr::Ip6(cidr6))),
                        Err(e) => Err(e),
                    }
                } else {
                    let mut msg = "bad router target: ".to_owned();
                    msg.append(s);
                    Err(msg)
                }
            },
            None => {
                let mut msg = "bad router target: ".to_owned();
                msg.append(s);
                Err(msg)
            },
        }
    }
}

impl RouterTargetInternal {
    /// The words that show the target to an operator.
    pub open spec fn text(self) -> Seq<char> {
        match self {
            RouterTargetInternal::InternetGateway => "IG"@,
            RouterTargetInternal::Ip(addr) => "IP: "@ + addr.text(),
            RouterTargetInternal::VpcSubnet(sub) => "Subnet: "@ + sub.text(),
        }
    }

    /// The words that show the target to an operator.
    pub fn to_string(&self) -> (r: String)
        ensures
            r@ == self.text(),
    {
        match self {
            RouterTargetInternal::InternetGateway => "IG".to_owned(),
            RouterTargetInternal::Ip(addr) => {
                let mut out = "IP: ".to_owned();
                let t = addr.to_string();
                out.append(t.as_str());
                out
            },
            RouterTargetInternal::VpcSubnet(sub) => {
                let mut out = "Subnet: ".to_owned();
                let t = sub.to_string();
                out.append(t.as_str());
                out
            },
        }
    }
}

impl RouterTarget {
    /// The text of the target: `drop`, `ig`, or the kind of the target, an equals sign and
    /// the address or the block.
    pub open spec fn text(self) -> Seq<char> {
        match self {
            RouterTarget::Drop => "drop"@,
            RouterTarget::InternetGateway => "ig"@,
            RouterTarget::Ip(IpAddr::Ip4(ip4)) => "ip4="@ + ipv4_text(ip4@),
            RouterTarget::Ip(IpAddr::Ip6(ip6)) => "ip6="@ + ipv6_text(ip6@),
            RouterTarget::VpcSubnet(IpCidr::Ip4(cidr4)) => "sub4="@ + cidr4.text(),
            RouterTarget::VpcSubnet(IpCidr::Ip6(cidr6)) => "sub6="@ + cidr6.text(),
        }
    }

    /// The text of the target.
    pub fn to_string(&self) -> (r: String)
        ensures
            r@ == self.text(),
    {
        match self {
            RouterTarget::Drop => "drop".to_owned(),
            RouterTarget::InternetGateway => RouterTargetInternal::InternetGateway.as_meta(),
            RouterTarget::Ip(ip) => RouterTargetInternal::Ip(*ip).as_meta(),
            RouterTarget::VpcSubnet(sub) => RouterTargetInternal::VpcSubnet(*sub).as_meta(),
        }
    }
}

/// The priority of the route to the block `cidr`: the number of bits that its prefix leaves
/// open, plus ten. A longer prefix gets a smaller number, and a smaller number wins; the
/// numbers below ten stay free for rules that override routes.
pub open spec fn spec_prefix_len_to_priority(cidr: IpCidr) -> u16 {
    (cidr.spec_max_prefix_len() - cidr.spec_prefix_len() + ROUTER_PRIORITY_BASE) as u16
}

/// The priority of the route to the block `cidr`.
pub fn prefix_len_to_priority(cidr: &IpCidr) -> (r: u16)
    ensures
        r == spec_prefix_len_to_priority(*cidr),
        ROUTER_PRIORITY_BASE <= r <= ROUTER_PRIORITY_BASE + cidr.spec_max_prefix_len(),
{
    let (max_prefix_len, prefix_len) = match cidr {
        IpCidr::Ip4(ipv4) => (IPV4_BITS, ipv4.prefix_len()),
        IpCidr::Ip6(ipv6) => (IPV6_BITS, ipv6.prefix_len()),
    };
    (max_prefix_len - prefix_len) as u16 + 10
}

/// True when packets for `dest` may be sent to `target`: anything may be dropped; an
/// address or a subnet has to be of the destination's family; the internet gateway takes
/// only the block of all addresses.
pub open spec fn spec_valid_router_dest_target_pair(dest: IpCidr, target: RouterTarget) -> bool {
    match (dest, target) {
        (_, RouterTarget::Drop) => true,
        (IpCidr::Ip4(_), RouterTarget::Ip(IpAddr::Ip4(_))) => true,
        (IpCidr::Ip4(_), RouterTarget::VpcSubnet(IpCidr::Ip4(_))) => true,
        (IpCidr::Ip6(_), RouterTarget::Ip(IpAddr::Ip6(_))) => true,
        (IpCidr::Ip6(_), RouterTarget::VpcSubnet(IpCidr::Ip6(_))) => true,
        (_, RouterTarget::InternetGateway) => dest.spec_is_default(),
        _ => false,
    }
}

/// True when packets for `dest` may be sent to `target`.
pub fn valid_router_dest_target_pair(dest: &IpCidr, target: &RouterTarget) -> (r: bool)
    ensures
        r == spec_valid_router_dest_target_pair(*dest, *target),
{
    (match (dest, target) {
        // Anything can be dropped
        (_, RouterTarget::Drop) => true,
        // IPv4 destination, IPv4 address
        (IpCidr::Ip4(_), RouterTarget::Ip(IpAddr::Ip4(_))) => true,
        // IPv4 destination, IPv4 subnet
        (IpCidr::Ip4(_), RouterTarget::VpcSubnet(IpCidr::Ip4(_))) => true,
        // IPv6 destination, IPv6 address
        (IpCidr::Ip6(_), RouterTarget::Ip(IpAddr::Ip6(_))) => true,
        // IPv6 destination, IPv6 subnet
        (IpCidr::Ip6(_), RouterTarget::VpcSubnet(IpCidr::Ip6(_))) => true,
        _ => false,
    }) ||
    // Only the default IP addresses are currently allowed to be directed to the gateway
    ((match target {
        RouterTarget::InternetGateway => true,
        _ => false,
    }) && dest.is_default())
}

/// What a router rule does to a packet that it lets through: it notes the target.
#[derive(Clone, Copy, Debug, PartialEq, Eq, Structural)]
pub struct RouterAction {
    pub target: RouterTargetInternal,
}

/// An action that annotates the metadata that layers pass on to later layers.
pub trait MetaAction {
    /// The action metadata after the action.
    spec fn spec_mod_meta(&self, flow_id: InnerFlowId, meta: ActionMeta) -> ActionMeta;

    /// The predicates that a rule with this action has in any case.
    fn implicit_preds(&self) -> (r: (Vec<Predicate>, Vec<DataPredicate>))
        ensures
            r.0@.len() == 0,
            r.1@.len() == 0,
    ;

    /// Annotates `meta` for a packet of the flow `flow_id`, and allows the packet.
    fn mod_meta(&self, flow_id: &InnerFlowId, meta: &mut ActionMeta) -> (r: ModMetaResult)
        ensures
            *final(meta) == self.spec_mod_meta(*flow_id, *old(meta)),
            r == Ok::<AllowOrDeny<()>, String>(AllowOrDeny::Allow(())),
    ;
}

impl RouterAction {
    /// The action that notes `target`.
    pub fn new(target: RouterTargetInternal) -> (r: RouterAction)
        ensures
            r == (RouterAction { target }),
    {
        Self { target }
    }

    /// The words that show the action to an operator.
    pub open spec fn text(self) -> Seq<char> {
        "Target = "@ + self.target.text()
    }

    /// The words that show the action to an operator.
    pub fn to_string(&self) -> (r: String)
        ensures
            r@ == self.text(),
    {
        let mut out = "Target = ".to_owned();
        let t = self.target.to_string();
        out.append(t.as_str());
        out
    }
}

impl MetaAction for RouterAction {
    open spec fn spec_mod_meta(&self, flow_id: InnerFlowId, meta: ActionMeta) -> ActionMeta {
        ActionMeta { router_target: Some(self.target), ..meta }
    }

    fn implicit_preds(&self) -> (r: (Vec<Predicate>, Vec<DataPredicate>)) {
        (Vec::new(), Vec::new())
    }

    fn mod_meta(&self, _flow_id: &InnerFlowId, meta: &mut ActionMeta) -> (r: ModMetaResult) {
        // No target entry should currently exist in the metadata; it would be a bug.
        meta.router_target = Some(self.target);
        Ok(AllowOrDeny::Allow(()))
    }
}

/// What became of a request to delete a router entry.
#[derive(Clone, Copy, Debug, PartialEq, Eq, Structural)]
pub enum DelRouterEntryResp {
    /// The entry was there and is gone.
    Deleted,
    /// There was no such entry.
    NotFound,
}

/// True when `layer` is a router layer without routes and without flows, whose flow tables
/// have room for `ft_limit` flows: towards the guest it lets everything through, for what
/// got here had a route to get here; from the guest it drops what no route matches.
pub open spec fn is_router_layer(layer: Layer, ft_limit: u32) -> bool {
    &&& layer.wf()
    &&& layer.name@ == ROUTER_LAYER_NAME@
    &&& layer.actions@.len() == 0
    &&& layer.default_in == DefaultAction::Allow
    &&& layer.default_out == DefaultAction::Deny
    &&& layer.rules_in@.len() == 0
    &&& layer.rules_out@.len() == 0
    &&& layer.ft_in@.len() == 0
    &&& layer.ft_out@.len() == 0
    &&& layer.ft_in.limit == ft_limit
    &&& layer.ft_out.limit == ft_limit
    &&& layer.ft_in.ttl_ms == FLOW_DEF_EXPIRE_SECS * MILLIS_PER_SEC
    &&& layer.ft_out.ttl_ms == FLOW_DEF_EXPIRE_SECS * MILLIS_PER_SEC
    &&& layer.next_id == 1
    &&& layer.epoch == 0
}

/// Adds the router layer to the port in the making, after the firewall. Fails, and changes
/// nothing, as [`layer_add_outcome`] says: where the port has a router layer already,
/// where it has no firewall layer, or where it has all the layers that it can have.
pub fn setup(pb: &mut PortBuilder, _cfg: &VpcCfg, ft_limit: u32) -> (r: Result<(), OpteError>)
    requires
        old(pb).wf(),
        ft_limit >= 1,
    ensures
        final(pb).wf(),
        final(pb).name == old(pb).name,
        final(pb).mac == old(pb).mac,
        final(pb).net == old(pb).net,
        layer_add_outcome(*old(pb), *final(pb), ROUTER_LAYER_NAME@, Pos::After(FW_LAYER_NAME), r),
        r is Ok ==> is_router_layer(
            final(pb).layers@[layer_index(old(pb).layers@, FW_LAYER_NAME@, 0) + 1],
            ft_limit,
        ),
{
    // Inbound: The router assumes that if the packet made it here, then it had a route to
    // get here.
    //
    // Outbound: If there is no matching route, then the packet should make it no further.
    let actions = LayerActions {
        actions: Vec::new(),
        default_in: DefaultAction::Allow,
        default_out: DefaultAction::Deny,
    };
    let layer = Layer::new(ROUTER_LAYER_NAME, pb.name(), actions, ft_limit);
    pb.add_layer(layer, Pos::After(FW_LAYER_NAME))
}

/// What the rule for a route to `target` does: a packet for nowhere is denied, any other
/// packet is let through with the target noted.
pub open spec fn route_action(target: RouterTarget) -> Action {
    match target {
        RouterTarget::Drop => Action::Deny,
        RouterTarget::InternetGateway => Action::Meta(RouterAction { target: RouterTargetInternal::InternetGateway }),
        RouterTarget::Ip(ip) => Action::Meta(RouterAction { target: RouterTargetInternal::Ip(ip) }),
        RouterTarget::VpcSubnet(sub) => Action::Meta(RouterAction { target: RouterTargetInternal::VpcSubnet(sub) }),
    }
}

/// True when `pred` asks that the packet's destination lies in the block `dest`.
pub open spec fn is_dest_pred(pred: Predicate, dest: IpCidr) -> bool {
    match dest {
        IpCidr::Ip4(c) => pred matches Predicate::InnerDstIp4(l) && l@ == seq![Ipv4AddrMatch::Prefix(c)],
        IpCidr::Ip6(c) => pred matches Predicate::InnerDstIp6(l) && l@ == seq![Ipv6AddrMatch::Prefix(c)],
    }
}

/// True when `rule` is the rule for the route from `dest` to `target`: its one predicate
/// asks for a destination in `dest`, its priority is that of the prefix length of `dest`,
/// and its action is that of `target`.
pub open spec fn is_route(rule: Rule, dest: IpCidr, target: RouterTarget) -> bool {
    &&& rule.priority == spec_prefix_len_to_priority(dest)
    &&& rule.action == route_action(target)
    &&& rule.predicates@.len() == 1
    &&& is_dest_pred(rule.predicates@[0], dest)
    &&& rule.data_predicates@.len() == 0
}

/// The rule for the route from `dest` to `target`; an error that names both where packets
/// for `dest` may not be sent to `target`.
pub fn make_rule(dest: IpCidr, target: RouterTarget) -> (r: Result<Rule, OpteError>)
    ensures
        match r {
            Ok(rule) => spec_valid_router_dest_target_pair(dest, target) && is_route(rule, dest, target)
                && rule.id == 0,
            Err(OpteError::InvalidRouterEntry { dest: d, target: t }) => !spec_valid_router_dest_target_pair(
                dest,
                target,
            ) && d == dest && t@ == target.text(),
            Err(_) => false,
        },
{
    if !valid_router_dest_target_pair(&dest, &target) {
        return Err(OpteError::InvalidRouterEntry { dest, target: target.to_string() });
    }
    let predicate = match dest {
        IpCidr::Ip4(ip4) => {
            let mut l: Vec<Ipv4AddrMatch> = Vec::new();
            l.push(Ipv4AddrMatch::Prefix(ip4));
            assert(l@ =~= seq![Ipv4AddrMatch::Prefix(ip4)]);
            Predicate::InnerDstIp4(l)
        },
        IpCidr::Ip6(ip6) => {
            let mut l: Vec<Ipv6AddrMatch> = Vec::new();
            l.push(Ipv6AddrMatch::Prefix(ip6));
            assert(l@ =~= seq![Ipv6AddrMatch::Prefix(ip6)]);
            Predicate::InnerDstIp6(l)
        },
    };
    let action = match target {
        RouterTarget::Drop => Action::Deny,
        RouterTarget::InternetGateway => Action::Meta(RouterAction::new(RouterTargetInternal::InternetGateway)),
        RouterTarget::Ip(ip) => Action::Meta(RouterAction::new(RouterTargetInternal::Ip(ip))),
        RouterTarget::VpcSubnet(vpc) => Action::Meta(RouterAction::new(RouterTargetInternal::VpcSubnet(vpc))),
    };
    let priority = prefix_len_to_priority(&dest);
    let mut rule = Rule::new(priority, action);
    rule.add_predicate(predicate);
    Ok(rule.finalize())
}

/// True when `after` is the port `before` with the route `rule` added to the routes from
/// the guest.
pub open spec fn route_added(before: Port, after: Port, rule: Rule) -> bool {
    let i = layer_index(before.layers@, ROUTER_LAYER_NAME@, 0);
    &&& i >= 0
    &&& before.layers@[i].added(after.layers@[i], Direction::Out, rule, before.layers@[i].next_id)
    &&& before.invalidated(after, i)
}

/// True when the port `after` is as the port `before` was, apart from its flows' memory
/// cells.
pub open spec fn port_kept(before: Port, after: Port) -> bool {
    &&& before.same_frame(after)
    &&& after.state == before.state
    &&& after.epoch == before.epoch
    &&& after.layers@ == before.layers@
    &&& after.uft_in == before.uft_in
    &&& after.uft_out == before.uft_out
    &&& after.tcp_flows == before.tcp_flows
}

/// Adds a router entry: packets from the guest for `dest` go to `target`.
///
/// Fails, and leaves the port as it is, where packets for `dest` may not be sent to
/// `target`, where the port has no router layer, or where the router layer has used up
/// its rule numbers.
pub fn add_entry(port: &mut Port, dest: IpCidr, target: RouterTarget) -> (r: Result<NoResp, OpteError>)
    requires
        old(port).wf(),
    ensures
        final(port).wf(),
        match r {
            Ok(_) => spec_valid_router_dest_target_pair(dest, target) && exists|rule: Rule|
                is_route(rule, dest, target) && #[trigger] route_added(*old(port), *final(port), rule),
            Err(OpteError::InvalidRouterEntry { dest: d, target: t }) => !spec_valid_router_dest_target_pair(
                dest,
                target,
            ) && d == dest && t@ == target.text() && *final(port) == *old(port),
            Err(OpteError::LayerNotFound(n)) => spec_valid_router_dest_target_pair(dest, target) && layer_index(
                old(port).layers@,
                ROUTER_LAYER_NAME@,
                0,
            ) == -1 && n@ == ROUTER_LAYER_NAME@ && *final(port) == *old(port),
            Err(OpteError::MaxCapacity(n)) => spec_valid_router_dest_target_pair(dest, target) && layer_index(
                old(port).layers@,
                ROUTER_LAYER_NAME@,
                0,
            ) >= 0 && old(port).layers@[layer_index(old(port).layers@, ROUTER_LAYER_NAME@, 0)].next_id == u64::MAX
                && port_kept(*old(port), *final(port)),
            Err(_) => false,
        },
{
    let rule = match make_rule(dest, target) {
        Ok(rule) => rule,
        Err(e) => {
            return Err(e);
        },
    };
    let ghost made = rule;
    match port.add_rule(ROUTER_LAYER_NAME, Direction::Out, rule) {
        Ok(_) => {
            assert(route_added(*old(port), *port, made));
            Ok(NoResp::default())
        },
        Err(e) => Err(e),
    }
}

/// True when `after` is the port `before` with the route number `id` taken out of the
/// routes from the guest.
pub open spec fn route_removed(before: Port, after: Port, id: u64) -> bool {
    let i = layer_index(before.layers@, ROUTER_LAYER_NAME@, 0);
    &&& i >= 0
    &&& before.layers@[i].removed(after.layers@[i], Direction::Out, id)
    &&& before.invalidated(after, i)
}

/// Deletes a router entry: the first route from the guest that sends packets for exactly
/// `dest` to exactly `target`.
///
/// Fails, and leaves the port as it is, where packets for `dest` may not be sent to
/// `target`, or where the port has no router layer. Where there is no such route the port
/// stays as it is and the answer says so.
pub fn del_entry(port: &mut Port, dest: IpCidr, target: RouterTarget) -> (r: Result<DelRouterEntryResp, OpteError>)
    requires
        old(port).wf(),
    ensures
        final(port).wf(),
        match r {
            Ok(resp) => {
                let i = layer_index(old(port).layers@, ROUTER_LAYER_NAME@, 0);
                let routes = old(port).layers@[i].rules_out@;
                &&& spec_valid_router_dest_target_pair(dest, target)
                &&& i >= 0
                &&& exists|rule: Rule|
                    is_route(rule, dest, target) && #[trigger] same_pos(routes, rule, 0) == (match resp {
                        DelRouterEntryResp::Deleted => same_pos(routes, rule, 0),
                        DelRouterEntryResp::NotFound => -1,
                    }) && (match resp {
                        DelRouterEntryResp::Deleted => same_pos(routes, rule, 0) >= 0 && route_removed(
                            *old(port),
                            *final(port),
                            routes[same_pos(routes, rule, 0)].id,
                        ),
                        DelRouterEntryResp::NotFound => *final(port) == *old(port),
                    })
            },
            Err(OpteError::InvalidRouterEntry { dest: d, target: t }) => !spec_valid_router_dest_target_pair(
                dest,
                target,
            ) && d == dest && t@ == target.text() && *final(port) == *old(port),
            Err(OpteError::LayerNotFound(n)) => spec_valid_router_dest_target_pair(dest, target) && layer_index(
                old(port).layers@,
                ROUTER_LAYER_NAME@,
                0,
            ) == -1 && n@ == ROUTER_LAYER_NAME@ && *final(port) == *old(port),
            Err(_) => false,
        },
{
    let rule = match make_rule(dest, target) {
        Ok(rule) => rule,
        Err(e) => {
            return Err(e);
        },
    };
    let maybe_id = match port.find_rule(ROUTER_LAYER_NAME, Direction::Out, &rule) {
        Ok(m) => m,
        Err(e) => {
            return Err(e);
        },
    };
    let ghost i = layer_index(port.layers@, ROUTER_LAYER_NAME@, 0);
    let ghost routes = port.layers@[i].rules_out@;
    match maybe_id {
        Some(id) => {
            proof {
                crate::layer::lemma_same_pos(routes, rule, 0);
                assert(crate::layer::has_rule(routes, id));
            }
            match port.remove_rule(ROUTER_LAYER_NAME, Direction::Out, id) {
                Ok(_) => {
                    assert(same_pos(routes, rule, 0) >= 0 && route_removed(*old(port), *port, id));
                    Ok(DelRouterEntryResp::Deleted)
                },
                Err(e) => {
                    assert(false);
                    Err(e)
                },
            }
        },
        None => {
            assert(same_pos(routes, rule, 0) == -1);
            Ok(DelRouterEntryResp::NotFound)
        },
    }
}

/// True when `rules` are the rules for the routes `entries`, one each, in their order.
pub open spec fn are_routes(rules: Seq<Rule>, entries: Seq<(IpCidr, RouterTarget)>) -> bool {
    &&& rules.len() == entries.len()
    &&& forall|k: int| 0 <= k < rules.len() ==> is_route(#[trigger] rules[k], entries[k].0, entries[k].1) && rules[k].id == 0
}

/// The position of the first entry of `entries`, from `from` on, whose destination may not
/// be sent to its target; -1 where there is none.
pub open spec fn first_invalid(entries: Seq<(IpCidr, RouterTarget)>, from: int) -> int
    decreases entries.len() - from,
{
    if from >= entries.len() || from < 0 {
        -1
    } else if !spec_valid_router_dest_target_pair(entries[from].0, entries[from].1) {
        from
    } else {
        first_invalid(entries, from + 1)
    }
}

/// True when `after` is the port `before` with `rules` in the place of its routes: the
/// router layer has no rules towards the guest and the rules made of `rules` from the
/// guest.
pub open spec fn routes_replaced(before: Port, after: Port, rules: Seq<Rule>) -> bool {
    let i = layer_index(before.layers@, ROUTER_LAYER_NAME@, 0);
    &&& i >= 0
    &&& before.layers@[i].replaced(after.layers@[i], Seq::empty(), rules)
    &&& before.invalidated(after, i)
}

/// Replaces the current set of router entries with the set passed in.
///
/// Fails, and leaves the port as it is, at the first entry whose destination may not be
/// sent to its target, where the port has no router layer, or where the router layer would
/// use up its rule numbers.
pub fn replace(port: &mut Port, entries: Vec<(IpCidr, RouterTarget)>) -> (r: Result<NoResp, OpteError>)
    requires
        old(port).wf(),
    ensures
        final(port).wf(),
        match r {
            Ok(_) => first_invalid(entries@, 0) == -1 && exists|rules: Seq<Rule>|
                are_routes(rules, entries@) && #[trigger] routes_replaced(*old(port), *final(port), rules),
            Err(OpteError::InvalidRouterEntry { dest: d, target: t }) => {
                let k = first_invalid(entries@, 0);
                &&& k >= 0
                &&& d == entries@[k].0
                &&& t@ == entries@[k].1.text()
                &&& *final(port) == *old(port)
            },
            Err(OpteError::LayerNotFound(n)) => first_invalid(entries@, 0) == -1 && layer_index(
                old(port).layers@,
                ROUTER_LAYER_NAME@,
                0,
            ) == -1 && n@ == ROUTER_LAYER_NAME@ && *final(port) == *old(port),
            Err(OpteError::MaxCapacity(n)) => first_invalid(entries@, 0) == -1 && layer_index(
                old(port).layers@,
                ROUTER_LAYER_NAME@,
                0,
            ) >= 0 && old(port).layers@[layer_index(old(port).layers@, ROUTER_LAYER_NAME@, 0)].next_id
                + entries@.len() >= u64::MAX && port_kept(*old(port), *final(port)),
            Err(_) => false,
        },
{
    let mut out_rules: Vec<Rule> = Vec::new();
    let n = entries.len();
    let mut k: usize = 0;
    while k < n
        invariant
            k <= n == entries@.len(),
            *port == *old(port),
            port.wf(),
            first_invalid(entries@, 0) == first_invalid(entries@, k as int),
            are_routes(out_rules@, entries@.take(k as int)),
        decreases n - k,
    {
        let (cidr, target) = entries[k];
        match make_rule(cidr, target) {
            Ok(rule) => {
                let ghost before = out_rules@;
                out_rules.push(rule);
                proof {
                    let t = entries@.take(k + 1);
                    assert forall|j: int| 0 <= j < out_rules@.len() implies is_route(
                        #[trigger] out_rules@[j],
                        t[j].0,
                        t[j].1,
                    ) && out_rules@[j].id == 0 by {
                        if j < k {
                            assert(out_rules@[j] == before[j]);
                            assert(entries@.take(k as int)[j] == t[j]);
                        }
                    }
                }
            },
            Err(e) => {
                return Err(e);
            },
        }
        k = k + 1;
    }
    assert(entries@.take(n as int) =~= entries@);
    let ghost made = out_rules@;
    match port.set_rules(ROUTER_LAYER_NAME, Vec::new(), out_rules) {
        Ok(_) => {
            assert(routes_replaced(*old(port), *port, made));
            Ok(NoResp::default())
        },
        Err(e) => Err(e),
    }
}

/// The route to a longer prefix has the smaller priority number.
pub proof fn lemma_priority_of_prefix(c1: IpCidr, c2: IpCidr)
    requires
        c1.wf(),
        c2.wf(),
        c1.spec_max_prefix_len() == c2.spec_max_prefix_len(),
        c1.spec_prefix_len() > c2.spec_prefix_len(),
    ensures
        spec_prefix_len_to_priority(c1) < spec_prefix_len_to_priority(c2),
{
    match c1 {
        IpCidr::Ip4(c) => {
            Ipv4Cidr::lemma_wf(c);
        },
        IpCidr::Ip6(c) => {
            Ipv6Cidr::lemma_wf(c);
        },
    }
    match c2 {
        IpCidr::Ip4(c) => {
            Ipv4Cidr::lemma_wf(c);
        },
        IpCidr::Ip6(c) => {
            Ipv6Cidr::lemma_wf(c);
        },
    }
}

/// Longest prefix wins. Among routes in the order of their priorities, a packet that meets
/// the route to the block `c1` is never decided by the route to a block `c2` of the same
/// family with a shorter prefix: the route that decides stands no later than the route to
/// `c1`, and its prefix is at least as long.
pub proof fn lemma_longest_prefix_wins(
    rules: Seq<Rule>,
    i: int,
    j: int,
    c1: IpCidr,
    t1: RouterTarget,
    c2: IpCidr,
    t2: RouterTarget,
    meta: PacketMeta,
    body: Seq<u8>,
)
    requires
        by_priority(rules),
        0 <= i < rules.len(),
        0 <= j < rules.len(),
        is_route(rules[i], c1, t1),
        is_route(rules[j], c2, t2),
        c1.wf(),
        c2.wf(),
        c1.spec_max_prefix_len() == c2.spec_max_prefix_len(),
        c1.spec_prefix_len() > c2.spec_prefix_len(),
        rules[i].spec_is_match(meta, body),
    ensures
        0 <= first_match(rules, meta, body, 0) <= i,
        first_match(rules, meta, body, 0) != j,
        rules[first_match(rules, meta, body, 0)].spec_is_match(meta, body),
        rules[first_match(rules, meta, body, 0)].priority <= spec_prefix_len_to_priority(c1),
        rules[first_match(rules, meta, body, 0)].priority < spec_prefix_len_to_priority(c2),
{
    lemma_first_match(rules, meta, body, 0);
    lemma_priority_of_prefix(c1, c2);
    let k = first_match(rules, meta, body, 0);
    if k == j {
        assert(rules[k].priority <= rules[i].priority);
    }
}

} // verus!
