//! The firewall of a guest interface.

use crate::addr::Ipv4Addr;
use crate::addr::Ipv4Cidr;
use crate::api::Direction;
use crate::api::NoResp;
use crate::headers::Protocol;
use crate::layer::Layer;
use crate::layer::LayerActions;
use crate::port::layer_add_outcome;
use crate::port::layer_index;
use crate::port::OpteError;
use crate::port::Port;
use crate::port::PortBuilder;
use crate::port::Pos;
use crate::predicate::Ipv4AddrMatch;
use crate::predicate::PortMatch;
use crate::predicate::Predicate;
use crate::rule::Action;
use crate::rule::DefaultAction;
use crate::rule::Rule;
use crate::text::chars_eq_str;
use crate::text::chars_of;
use crate::text::copy_chars;
use crate::text::find_char;
use crate::text::index_of;
use crate::text::parse_decimal;
use crate::text::push_chars;
use crate::text::read_decimal;
use crate::text::split;
use crate::text::split_chars;
use crate::text::string_of;
use crate::flow_table::FLOW_DEF_EXPIRE_SECS;
use crate::time::MILLIS_PER_SEC;
use vstd::prelude::*;

verus! {

/// The name of the firewall layer.
pub const FW_LAYER_NAME: &'static str = "firewall";

/// What a firewall rule does with the packets that it matches.
#[derive(Clone, Copy, Debug, PartialEq, Eq, Structural)]
pub enum FirewallAction {
    Allow,
    Deny,
}

/// Which protocols a firewall rule matches.
#[derive(Clone, Copy, Debug, PartialEq, Eq, Structural)]
pub enum ProtoFilter {
    Any,
    Proto(Protocol),
}

/// Which hosts on the other side a firewall rule matches.
#[derive(Clone, Copy, Debug, PartialEq, Eq, Structural)]
pub enum Address {
    Any,
    Subnet(Ipv4Cidr),
}

/// Which destination ports a firewall rule matches.
#[derive(Clone, Copy, Debug, PartialEq, Eq, Structural)]
pub enum Ports {
    Any,
    /// The ports from the first to the second, both included.
    Range(u16, u16),
}

/// A firewall rule as the control plane states it.
#[derive(Clone, Copy, Debug, PartialEq, Eq, Structural)]
pub struct FirewallRule {
    pub direction: Direction,
    pub action: FirewallAction,
    pub priority: u16,
    pub proto: ProtoFilter,
    pub hosts: Address,
    pub ports: Ports,
}

/// A firewall rule while its text is read: what has been said so far.
#[derive(Clone, Copy, Debug, PartialEq, Eq, Structural)]
pub struct PartialRule {
    pub direction: Option<Direction>,
    pub action: Option<FirewallAction>,
    pub priority: Option<u16>,
    pub proto: Option<ProtoFilter>,
    pub hosts: Address,
    pub ports: Ports,
}

/// The message for an option that is no option, or that lacks its equals sign.
pub open spec fn bad_option(tok: Seq<char>) -> Seq<char> {
    "bad option: "@ + tok
}

/// The message for an option whose value cannot be read.
pub open spec fn bad_value(tok: Seq<char>) -> Seq<char> {
    "bad value: "@ + tok
}

/// The message for an option that has to be there and is not.
pub open spec fn missing_option(name: Seq<char>) -> Seq<char> {
    "missing option: "@ + name
}

/// A rule of which nothing has been said.
pub open spec fn blank_rule() -> PartialRule {
    PartialRule { direction: None, action: None, priority: None, proto: None, hosts: Address::Any, ports: Ports::Any }
}

/// The ports that the text `val` names: `any`, one port, or two ports in rising order with
/// a hyphen between them.
pub open spec fn read_ports(val: Seq<char>) -> Option<Ports> {
    let parts = split(val, '-');
    if val == "any"@ {
        Some(Ports::Any)
    } else if parts.len() == 1 && read_decimal(parts[0], 65535) is Ok {
        Some(Ports::Range(read_decimal(parts[0], 65535)->Ok_0 as u16, read_decimal(parts[0], 65535)->Ok_0 as u16))
    } else if parts.len() == 2 && read_decimal(parts[0], 65535) is Ok && read_decimal(parts[1], 65535) is Ok
        && read_decimal(parts[0], 65535)->Ok_0 <= read_decimal(parts[1], 65535)->Ok_0 {
        Some(Ports::Range(read_decimal(parts[0], 65535)->Ok_0 as u16, read_decimal(parts[1], 65535)->Ok_0 as u16))
    } else {
        None
    }
}

/// The rule `p` after the option `tok` has been read: a key, an equals sign and a value.
///
/// The keys are `dir` (`in` or `out`), `action` (`allow` or `deny`), `priority` (a number
/// of 16 bits), `protocol` (`TCP`, `UDP`, `ICMP` or `any`), `hosts` (`any` or an IPv4
/// block) and `ports` (as [`read_ports`] reads them).
pub open spec fn read_option(p: PartialRule, tok: Seq<char>) -> Result<PartialRule, Seq<char>> {
    let i = index_of(tok, '=');
    let key = tok.take(i);
    let val = tok.skip(i + 1);
    if i < 0 {
        Err(bad_option(tok))
    } else if key == "dir"@ {
        if val == "in"@ {
            Ok(PartialRule { direction: Some(Direction::In), ..p })
        } else if val == "out"@ {
            Ok(PartialRule { direction: Some(Direction::Out), ..p })
        } else {
            Err(bad_value(tok))
        }
    } else if key == "action"@ {
        if val == "allow"@ {
            Ok(PartialRule { action: Some(FirewallAction::Allow), ..p })
        } else if val == "deny"@ {
            Ok(PartialRule { action: Some(FirewallAction::Deny), ..p })
        } else {
            Err(bad_value(tok))
        }
    } else if key == "priority"@ {
        match read_decimal(val, 65535) {
            Ok(n) => Ok(PartialRule { priority: Some(n as u16), ..p }),
            Err(_) => Err(bad_value(tok)),
        }
    } else if key == "protocol"@ {
        if val == "TCP"@ {
            Ok(PartialRule { proto: Some(ProtoFilter::Proto(Protocol::TCP)), ..p })
        } else if val == "UDP"@ {
            Ok(PartialRule { proto: Some(ProtoFilter::Proto(Protocol::UDP)), ..p })
        } else if val == "ICMP"@ {
            Ok(PartialRule { proto: Some(ProtoFilter::Proto(Protocol::ICMP)), ..p })
        } else if val == "any"@ {
            Ok(PartialRule { proto: Some(ProtoFilter::Any), ..p })
        } else {
            Err(bad_value(tok))
        }
    } else if key == "hosts"@ {
        if val == "any"@ {
            Ok(PartialRule { hosts: Address::Any, ..p })
        } else {
            match Ipv4Cidr::read(val) {
                Some(c) => Ok(
                    PartialRule { hosts: Address::Subnet(Ipv4Cidr::spec_new(Ipv4Addr { inner: c.0 }, c.1)), ..p },
                ),
                None => Err(bad_value(tok)),
            }
        }
    } else if key == "ports"@ {
        match read_ports(val) {
            Some(ports) => Ok(PartialRule { ports, ..p }),
            None => Err(bad_value(tok)),
        }
    } else {
        Err(bad_option(tok))
    }
}

/// The rule after the options `toks` have been read in their order; the first option that
/// cannot be read ends the reading.
pub open spec fn read_options(toks: Seq<Seq<char>>) -> Result<PartialRule, Seq<char>>
    decreases toks.len(),
{
    if toks.len() == 0 {
        Ok(blank_rule())
    } else {
        match read_options(toks.drop_last()) {
            Err(e) => Err(e),
            Ok(p) => read_option(p, toks.last()),
        }
    }
}

/// The rule that `p` makes once all is said: direction, action, priority and protocol have
/// to be there.
pub open spec fn complete(p: PartialRule) -> Result<FirewallRule, Seq<char>> {
    if p.direction is None {
        Err(missing_option("dir"@))
    } else if p.action is None {
        Err(missing_option("action"@))
    } else if p.priority is None {
        Err(missing_option("priority"@))
    } else if p.proto is None {
        Err(missing_option("protocol"@))
    } else {
        Ok(
            FirewallRule {
                direction: p.direction->Some_0,
                action: p.action->Some_0,
                priority: p.priority->Some_0,
                proto: p.proto->Some_0,
                hosts: p.hosts,
                ports: p.ports,
            },
        )
    }
}

/// The firewall rule that the text `s` states: options with one space between them, of
/// which a later one overrides an earlier one of the same key.
pub open spec fn read_rule(s: Seq<char>) -> Result<FirewallRule, Seq<char>> {
    match read_options(split(s, ' ')) {
        Err(e) => Err(e),
        Ok(p) => complete(p),
    }
}

// A message made of `head` and the characters `tok`.
fn message(head: &str, tok: &Vec<char>) -> (r: String)
    ensures
        r@ == head@ + tok@,
{
    let mut out = head.to_owned();
    push_chars(&mut out, tok);
    out
}

// Reads the ports that `val` names.
fn parse_ports(val: &Vec<char>) -> (r: Option<Ports>)
    ensures
        r == read_ports(val@),
{
    if chars_eq_str(val, "any") {
        return Some(Ports::Any);
    }
    let parts = split_chars(val, '-');
    if parts.len() == 1 {
        assert(parts[0]@.subrange(0, parts[0]@.len() as int) =~= parts[0]@);
        match parse_decimal(&parts[0], 0, parts[0].len(), 65535) {
            Ok(n) => Some(Ports::Range(n as u16, n as u16)),
            Err(_) => None,
        }
    } else if parts.len() == 2 {
        assert(parts[0]@.subrange(0, parts[0]@.len() as int) =~= parts[0]@);
        assert(parts[1]@.subrange(0, parts[1]@.len() as int) =~= parts[1]@);
        match (
            parse_decimal(&parts[0], 0, parts[0].len(), 65535),
            parse_decimal(&parts[1], 0, parts[1].len(), 65535),
        ) {
            (Ok(lo), Ok(hi)) => if lo <= hi {
                Some(Ports::Range(lo as u16, hi as u16))
            } else {
                None
            },
            _ => None,
        }
    } else {
        None
    }
}

// Reads one option.
fn parse_option(p: PartialRule, tok: &Vec<char>) -> (r: Result<PartialRule, String>)
    ensures
        match r {
            Ok(q) => read_option(p, tok@) == Ok::<PartialRule, Seq<char>>(q),
            Err(e) => read_option(p, tok@) == Err::<PartialRule, Seq<char>>(e@),
        },
{
    let i = match find_char(tok, '=') {
        Some(i) => i,
        None => {
            return Err(message("bad option: ", tok));
        },
    };
    let n = tok.len();
    let key = copy_chars(tok, 0, i);
    let val = copy_chars(tok, i + 1, n);
    proof {
        assert(key@ =~= tok@.take(i as int));
        assert(val@ =~= tok@.skip(i + 1));
    }
    let mut p = p;
    if chars_eq_str(&key, "dir") {
        if chars_eq_str(&val, "in") {
            p.direction = Some(Direction::In);
        } else if chars_eq_str(&val, "out") {
            p.direction = Some(Direction::Out);
        } else {
            return Err(message("bad value: ", tok));
        }
    } else if chars_eq_str(&key, "action") {
        if chars_eq_str(&val, "allow") {
            p.action = Some(FirewallAction::Allow);
        } else if chars_eq_str(&val, "deny") {
            p.action = Some(FirewallAction::Deny);
        } else {
            return Err(message("bad value: ", tok));
        }
    } else if chars_eq_str(&key, "priority") {
        assert(val@.subrange(0, val@.len() as int) =~= val@);
        match parse_decimal(&val, 0, val.len(), 65535) {
            Ok(n) => {
                p.priority = Some(n as u16);
            },
            Err(_) => {
                return Err(message("bad value: ", tok));
            },
        }
    } else if chars_eq_str(&key, "protocol") {
        if chars_eq_str(&val, "TCP") {
            p.proto = Some(ProtoFilter::Proto(Protocol::TCP));
        } else if chars_eq_str(&val, "UDP") {
            p.proto = Some(ProtoFilter::Proto(Protocol::UDP));
        } else if chars_eq_str(&val, "ICMP") {
            p.proto = Some(ProtoFilter::Proto(Protocol::ICMP));
        } else if chars_eq_str(&val, "any") {
            p.proto = Some(ProtoFilter::Any);
        } else {
            return Err(message("bad value: ", tok));
        }
    } else if chars_eq_str(&key, "hosts") {
        if chars_eq_str(&val, "any") {
            p.hosts = Address::Any;
        } else {
            let text = string_of(&val);
            match Ipv4Cidr::parse(text.as_str()) {
                Ok(c) => {
                    p.hosts = Address::Subnet(c);
                },
                Err(_) => {
                    return Err(message("bad value: ", tok));
                },
            }
        }
    } else if chars_eq_str(&key, "ports") {
        match parse_ports(&val) {
            Some(ports) => {
                p.ports = ports;
            },
            None => {
                return Err(message("bad value: ", tok));
            },
        }
    } else {
        return Err(message("bad option: ", tok));
    }
    Ok(p)
}

impl FirewallRule {
    /// Reads a firewall rule from its text, as [`read_rule`] says; text that states no
    /// rule is refused with a message that says what is wrong.
    pub fn parse(s: &str) -> (r: Result<FirewallRule, String>)
        ensures
            match r {
                Ok(rule) => read_rule(s@) == Ok::<FirewallRule, Seq<char>>(rule),
                Err(e) => read_rule(s@) == Err::<FirewallRule, Seq<char>>(e@),
            },
    {
        let chars = chars_of(s);
        let toks = split_chars(&chars, ' ');
        let ghost all = split(s@, ' ');
        let mut p = PartialRule {
            direction: None,
            action: None,
            priority: None,
            proto: None,
            hosts: Address::Any,
            ports: Ports::Any,
        };
        let n = toks.len();
        let mut i: usize = 0;
        assert(all.take(0) =~= Seq::<Seq<char>>::empty());
        while i < n
            invariant
                i <= n == toks.len(),
                all == split(s@, ' '),
                all.len() == n,
                forall|k: int| 0 <= k < n ==> (#[trigger] toks[k])@ == all[k],
                read_options(all.take(i as int)) == Ok::<PartialRule, Seq<char>>(p),
            decreases n - i,
        {
            proof {
                let t = all.take(i + 1);
                assert(t.drop_last() =~= all.take(i as int));
                assert(t.last() == all[i as int]);
            }
            match parse_option(p, &toks[i]) {
                Ok(q) => {
                    p = q;
                },
                Err(e) => {
                    proof {
                        lemma_read_options_stop(all, i + 1);
                    }
                    return Err(e);
                },
            }
            i = i + 1;
        }
        assert(all.take(n as int) =~= all);
        match (p.direction, p.action, p.priority, p.proto) {
            (None, _, _, _) => Err(message("missing option: ", &chars_of("dir"))),
            (_, None, _, _) => Err(message("missing option: ", &chars_of("action"))),
            (_, _, None, _) => Err(message("missing option: ", &chars_of("priority"))),
            (_, _, _, None) => Err(message("missing option: ", &chars_of("protocol"))),
            (Some(direction), Some(action), Some(priority), Some(proto)) => Ok(
                FirewallRule { direction, action, priority, proto, hosts: p.hosts, ports: p.ports },
            ),
        }
    }
}

impl std::str::FromStr for FirewallRule {
    type Err = String;

    /// Reads a firewall rule from its text, as [`FirewallRule::parse`] does.
    fn from_str(s: &str) -> (r: Result<FirewallRule, String>)
        ensures
            match r {
                Ok(rule) => read_rule(s@) == Ok::<FirewallRule, Seq<char>>(rule),
                Err(e) => read_rule(s@) == Err::<FirewallRule, Seq<char>>(e@),
            },
    {
        FirewallRule::parse(s)
    }
}

/// Once an option cannot be read, the options after it change nothing.
pub proof fn lemma_read_options_stop(toks: Seq<Seq<char>>, k: int)
    requires
        0 <= k <= toks.len(),
        read_options(toks.take(k)) is Err,
    ensures
        read_options(toks) == read_options(toks.take(k)),
    decreases toks.len() - k,
{
    if k < toks.len() {
        let t = toks.take(k + 1);
        assert(t.drop_last() =~= toks.take(k));
        lemma_read_options_stop(toks, k + 1);
    } else {
        assert(toks.take(k) =~= toks);
    }
}

/// What the rule of the engine does that stands for a firewall rule with the action `a`:
/// what is allowed is allowed with its flow and its answers, by the layer's own action.
pub open spec fn fw_action(a: FirewallAction) -> Action {
    match a {
        FirewallAction::Allow => Action::LayerAction(0),
        FirewallAction::Deny => Action::Deny,
    }
}

/// The number of predicates that the firewall rule `fr` takes.
pub open spec fn fw_pred_count(fr: FirewallRule) -> int {
    (if fr.proto is Proto {
        1int
    } else {
        0int
    }) + (if fr.hosts is Subnet {
        1int
    } else {
        0int
    }) + (if fr.ports is Range {
        1int
    } else {
        0int
    })
}

/// True when `rule` is the rule of the engine that stands for the firewall rule `fr`. Its
/// predicates are, in this order and each only where the firewall rule asks for it: the
/// protocol; the hosts, which are the source of a packet towards the guest and the
/// destination of a packet from the guest; the destination ports.
pub open spec fn is_fw_rule(rule: Rule, fr: FirewallRule) -> bool {
    let at_hosts = if fr.proto is Proto {
        1int
    } else {
        0int
    };
    let at_ports = at_hosts + if fr.hosts is Subnet {
        1int
    } else {
        0int
    };
    &&& rule.id == 0
    &&& rule.priority == fr.priority
    &&& rule.action == fw_action(fr.action)
    &&& rule.data_predicates@.len() == 0
    &&& rule.predicates@.len() == fw_pred_count(fr)
    &&& (fr.proto matches ProtoFilter::Proto(p) ==> (rule.predicates@[0] matches Predicate::InnerIpProto(l) && l@
        == seq![p]))
    &&& (fr.hosts matches Address::Subnet(c) ==> (match fr.direction {
        Direction::In => rule.predicates@[at_hosts] matches Predicate::InnerSrcIp4(l) && l@ == seq![
            Ipv4AddrMatch::Prefix(c),
        ],
        Direction::Out => rule.predicates@[at_hosts] matches Predicate::InnerDstIp4(l) && l@ == seq![
            Ipv4AddrMatch::Prefix(c),
        ],
    }))
    &&& (fr.ports matches Ports::Range(lo, hi) ==> (rule.predicates@[at_ports] matches Predicate::InnerDstPort(l)
        && l@ == seq![PortMatch::Range(lo, hi)]))
}

/// The rule of the engine that stands for the firewall rule `fr`.
pub fn from_fw_rule(fr: &FirewallRule) -> (rule: Rule)
    ensures
        is_fw_rule(rule, *fr),
{
    let action = match fr.action {
        FirewallAction::Allow => Action::LayerAction(0),
        FirewallAction::Deny => Action::Deny,
    };
    let mut rule = Rule::match_any(fr.priority, action);
    match fr.proto {
        ProtoFilter::Proto(p) => {
            let mut l: Vec<Protocol> = Vec::new();
            l.push(p);
            assert(l@ =~= seq![p]);
            rule.add_predicate(Predicate::InnerIpProto(l));
        },
        ProtoFilter::Any => {},
    }
    match fr.hosts {
        Address::Subnet(c) => {
            let mut l: Vec<Ipv4AddrMatch> = Vec::new();
            l.push(Ipv4AddrMatch::Prefix(c));
            assert(l@ =~= seq![Ipv4AddrMatch::Prefix(c)]);
            match fr.direction {
                Direction::In => rule.add_predicate(Predicate::InnerSrcIp4(l)),
                Direction::Out => rule.add_predicate(Predicate::InnerDstIp4(l)),
            }
        },
        Address::Any => {},
    }
    match fr.ports {
        Ports::Range(lo, hi) => {
            let mut l: Vec<PortMatch> = Vec::new();
            l.push(PortMatch::Range(lo, hi));
            assert(l@ =~= seq![PortMatch::Range(lo, hi)]);
            rule.add_predicate(Predicate::InnerDstPort(l));
        },
        Ports::Any => {},
    }
    rule
}

/// True when `layer` is a firewall layer without rules and without flows: what no rule
/// allows is denied, and what a rule allows is allowed with its flow and its answers.
pub open spec fn is_firewall_layer(layer: Layer, ft_limit: u32) -> bool {
    &&& layer.wf()
    &&& layer.name@ == FW_LAYER_NAME@
    &&& layer.actions@ == seq![Action::StatefulAllow]
    &&& layer.default_in == DefaultAction::Deny
    &&& layer.default_out == DefaultAction::Deny
    &&& layer.rules_in@.len() == 0
    &&& layer.rules_out@.len() == 0
    &&& layer.ft_in@.len() == 0
    &&& layer.ft_out@.len() == 0
    &&& layer.ft_in.limit == ft_limit
    &&& layer.ft_out.limit == ft_limit
    &&& layer.ft_in.ttl_ms == FLOW_DEF_EXPIRE_SECS * MILLIS_PER_SEC
    &&& layer.ft_out.ttl_ms == FLOW_DEF_EXPIRE_SECS * MILLIS_PER_SEC
    &&& layer.next_id == 1
}

/// Adds the firewall layer to the port in the making, before all other layers. Fails, and
/// changes nothing, as [`layer_add_outcome`] says.
pub fn setup(pb: &mut PortBuilder, ft_limit: u32) -> (r: Result<(), OpteError>)
    requires
        old(pb).wf(),
        ft_limit >= 1,
    ensures
        final(pb).wf(),
        final(pb).name == old(pb).name,
        final(pb).mac == old(pb).mac,
        final(pb).net == old(pb).net,
        layer_add_outcome(*old(pb), *final(pb), FW_LAYER_NAME@, Pos::First, r),
        r is Ok ==> is_firewall_layer(final(pb).layers@[0], ft_limit),
{
    let mut actions: Vec<Action> = Vec::new();
    actions.push(Action::StatefulAllow);
    assert(actions@ =~= seq![Action::StatefulAllow]);
    let layer = Layer::new(
        FW_LAYER_NAME,
        pb.name(),
        LayerActions { actions, default_in: DefaultAction::Deny, default_out: DefaultAction::Deny },
        ft_limit,
    );
    pb.add_layer(layer, Pos::First)
}

/// A request to add a firewall rule to a port.
#[derive(Clone, Debug)]
pub struct AddFwRuleReq {
    pub port_name: String,
    pub rule: FirewallRule,
}

/// A request to replace the firewall rules of a port.
#[derive(Clone, Debug)]
pub struct SetFwRulesReq {
    pub port_name: String,
    pub rules: Vec<FirewallRule>,
}

/// A request to remove a firewall rule from a port.
#[derive(Clone, Debug)]
pub struct RemFwRuleReq {
    pub port_name: String,
    pub dir: Direction,
    pub id: u64,
}

/// True when `after` is the port `before` with the rule `rule` added to its firewall for
/// the direction `dir`.
pub open spec fn fw_rule_added(before: Port, after: Port, dir: Direction, rule: Rule) -> bool {
    let i = layer_index(before.layers@, FW_LAYER_NAME@, 0);
    &&& i >= 0
    &&& before.layers@[i].added(after.layers@[i], dir, rule, before.layers@[i].next_id)
    &&& before.invalidated(after, i)
}

/// Adds the firewall rule of `req` to the port. Fails, and leaves the port as it is, where
/// the port has no firewall layer, or where the firewall has used up its rule numbers.
pub fn add_fw_rule(port: &mut Port, req: &AddFwRuleReq) -> (r: Result<NoResp, OpteError>)
    requires
        old(port).wf(),
    ensures
        final(port).wf(),
        match r {
            Ok(_) => exists|rule: Rule|
                is_fw_rule(rule, req.rule) && #[trigger] fw_rule_added(
                    *old(port),
                    *final(port),
                    req.rule.direction,
                    rule,
                ),
            Err(OpteError::LayerNotFound(n)) => layer_index(old(port).layers@, FW_LAYER_NAME@, 0) == -1 && n@
                == FW_LAYER_NAME@ && *final(port) == *old(port),
            Err(OpteError::MaxCapacity(n)) => layer_index(old(port).layers@, FW_LAYER_NAME@, 0) >= 0 && old(port).layers@[layer_index(old(port).layers@, FW_LAYER_NAME@, 0)].next_id == u64::MAX
                && crate::router::port_kept(*old(port), *final(port)),
            Err(_) => false,
        },
{
    let rule = from_fw_rule(&req.rule);
    let ghost made = rule;
    match port.add_rule(FW_LAYER_NAME, req.rule.direction, rule) {
        Ok(_) => {
            assert(fw_rule_added(*old(port), *port, req.rule.direction, made));
            Ok(NoResp::default())
        },
        Err(e) => Err(e),
    }
}

/// True when `after` is the port `before` with the rule number `id` taken out of its
/// firewall for the direction `dir`.
pub open spec fn fw_rule_removed(before: Port, after: Port, dir: Direction, id: u64) -> bool {
    let i = layer_index(before.layers@, FW_LAYER_NAME@, 0);
    &&& i >= 0
    &&& before.layers@[i].removed(after.layers@[i], dir, id)
    &&& before.invalidated(after, i)
}

/// Removes the firewall rule that `req` names from the port. Fails, and leaves the port as
/// it is, where the port has no firewall layer or the firewall no such rule.
pub fn rem_fw_rule(port: &mut Port, req: &RemFwRuleReq) -> (r: Result<NoResp, OpteError>)
    requires
        old(port).wf(),
    ensures
        final(port).wf(),
        match r {
            Ok(_) => fw_rule_removed(*old(port), *final(port), req.dir, req.id),
            Err(OpteError::LayerNotFound(n)) => layer_index(old(port).layers@, FW_LAYER_NAME@, 0) == -1 && n@
                == FW_LAYER_NAME@ && *final(port) == *old(port),
            Err(OpteError::RuleNotFound(n)) => layer_index(old(port).layers@, FW_LAYER_NAME@, 0) >= 0
                && !crate::layer::has_rule(
                old(port).layers@[layer_index(old(port).layers@, FW_LAYER_NAME@, 0)].rules(req.dir),
                req.id,
            ) && n == req.id && crate::router::port_kept(*old(port), *final(port)),
            Err(_) => false,
        },
{
    match port.remove_rule(FW_LAYER_NAME, req.dir, req.id) {
        Ok(_) => Ok(NoResp::default()),
        Err(e) => Err(e),
    }
}

/// The firewall rules of `frs` for the direction `dir`, in their order.
pub open spec fn of_dir(frs: Seq<FirewallRule>, dir: Direction) -> Seq<FirewallRule>
    decreases frs.len(),
{
    if frs.len() == 0 {
        Seq::empty()
    } else if frs.last().direction == dir {
        of_dir(frs.drop_last(), dir).push(frs.last())
    } else {
        of_dir(frs.drop_last(), dir)
    }
}

/// True when `rules` are the rules of the engine that stand for the firewall rules `frs`,
/// one each, in their order.
pub open spec fn are_fw_rules(rules: Seq<Rule>, frs: Seq<FirewallRule>) -> bool {
    &&& rules.len() == frs.len()
    &&& forall|k: int| 0 <= k < rules.len() ==> is_fw_rule(#[trigger] rules[k], frs[k])
}

/// True when `after` is the port `before` with `in_rules` and `out_rules` in the place of
/// the rules of its firewall.
pub open spec fn fw_rules_replaced(before: Port, after: Port, in_rules: Seq<Rule>, out_rules: Seq<Rule>) -> bool {
    let i = layer_index(before.layers@, FW_LAYER_NAME@, 0);
    &&& i >= 0
    &&& before.layers@[i].replaced(after.layers@[i], in_rules, out_rules)
    &&& before.invalidated(after, i)
}

/// Replaces the firewall rules of the port by those of `req`: those for packets towards the
/// guest and those for packets from the guest, each in the order of the request. Fails, and
/// leaves the port as it is, where the port has no firewall layer, or where the firewall
/// would use up its rule numbers.
pub fn set_fw_rules(port: &mut Port, req: &SetFwRulesReq) -> (r: Result<NoResp, OpteError>)
    requires
        old(port).wf(),
    ensures
        final(port).wf(),
        match r {
            Ok(_) => exists|in_rules: Seq<Rule>, out_rules: Seq<Rule>|
                are_fw_rules(in_rules, of_dir(req.rules@, Direction::In)) && are_fw_rules(
                    out_rules,
                    of_dir(req.rules@, Direction::Out),
                ) && #[trigger] fw_rules_replaced(*old(port), *final(port), in_rules, out_rules),
            Err(OpteError::LayerNotFound(n)) => layer_index(old(port).layers@, FW_LAYER_NAME@, 0) == -1 && n@
                == FW_LAYER_NAME@ && *final(port) == *old(port),
            Err(OpteError::MaxCapacity(n)) => layer_index(old(port).layers@, FW_LAYER_NAME@, 0) >= 0 && old(port).layers@[layer_index(old(port).layers@, FW_LAYER_NAME@, 0)].next_id + req.rules@.len() >= u64::MAX
                && crate::router::port_kept(*old(port), *final(port)),
            Err(_) => false,
        },
{
    let mut in_rules: Vec<Rule> = Vec::new();
    let mut out_rules: Vec<Rule> = Vec::new();
    let n = req.rules.len();
    let mut k: usize = 0;
    assert(req.rules@.take(0) =~= Seq::<FirewallRule>::empty());
    while k < n
        invariant
            k <= n == req.rules@.len(),
            are_fw_rules(in_rules@, of_dir(req.rules@.take(k as int), Direction::In)),
            are_fw_rules(out_rules@, of_dir(req.rules@.take(k as int), Direction::Out)),
            in_rules@.len() + out_rules@.len() == k,
        decreases n - k,
    {
        let fr = req.rules[k];
        let rule = from_fw_rule(&fr);
        proof {
            let t = req.rules@.take(k + 1);
            assert(t.drop_last() =~= req.rules@.take(k as int));
            assert(t.last() == fr);
        }
        match fr.direction {
            Direction::In => {
                let ghost before = in_rules@;
                in_rules.push(rule);
                proof {
                    let frs = of_dir(req.rules@.take(k + 1), Direction::In);
                    assert forall|j: int| 0 <= j < in_rules@.len() implies is_fw_rule(
                        #[trigger] in_rules@[j],
                        frs[j],
                    ) by {
                        if j < before.len() {
                            assert(in_rules@[j] == before[j]);
                        }
                    }
                }
            },
            Direction::Out => {
                let ghost before = out_rules@;
                out_rules.push(rule);
                proof {
                    let frs = of_dir(req.rules@.take(k + 1), Direction::Out);
                    assert forall|j: int| 0 <= j < out_rules@.len() implies is_fw_rule(
                        #[trigger] out_rules@[j],
                        frs[j],
                    ) by {
                        if j < before.len() {
                            assert(out_rules@[j] == before[j]);
                        }
                    }
                }
            },
        }
        k = k + 1;
    }
    assert(req.rules@.take(n as int) =~= req.rules@);
    let ghost made_in = in_rules@;
    let ghost made_out = out_rules@;
    match port.set_rules(FW_LAYER_NAME, in_rules, out_rules) {
        Ok(_) => {
            assert(fw_rules_replaced(*old(port), *port, made_in, made_out));
            Ok(NoResp::default())
        },
        Err(e) => Err(e),
    }
}

} // verus!
