//! Layers: a stage of the pipeline with its rules and its flows.

use crate::api::Direction;
use crate::echo::Echo4Reply;
use crate::echo::HairpinAction;
use crate::flow_table::after_hit;
use crate::flow_table::after_insert;
use crate::flow_table::fresh_slot;
use crate::flow_table::has_flow;
use crate::flow_table::lemma_after_insert_has;
use crate::flow_table::lemma_after_hit_values;
use crate::flow_table::lemma_after_insert_members;
use crate::flow_table::lemma_live_at;
use crate::flow_table::lemma_slot_of;
use crate::flow_table::live_at;
use crate::flow_table::slot_of;
use crate::flow_table::FlowSlot;
use crate::flow_table::FlowTable;
use crate::flow_table::FLOW_DEF_EXPIRE_SECS;
use crate::headers::IpMeta;
use crate::meta::ActionMeta;
use crate::overlay::spec_decap_xform;
use crate::overlay::V2pEntry;
use crate::overlay::Virt2Phys;
use crate::packet::InnerFlowId;
use crate::packet::Packet;
use crate::packet::PacketMeta;
use crate::parsed::ParsedPacket;
use crate::router::MetaAction;
use crate::rule::Action;
use crate::rule::DefaultAction;
use crate::rule::LayerFlow;
use crate::rule::Rule;
use crate::rule::StaticAction;
use crate::snat::pick_port;
use crate::snat::SNat4;
use crate::time::Moment;
use crate::transform::HdrTransform;
use crate::time::MILLIS_PER_SEC;
use vstd::prelude::*;

verus! {

/// The actions of a layer: the ones that its rules can refer to by index, and what it does
/// where no rule matches.
#[derive(Debug)]
pub struct LayerActions {
    pub actions: Vec<Action>,
    pub default_in: DefaultAction,
    pub default_out: DefaultAction,
}

/// A stage of the pipeline.
#[derive(Debug)]
pub struct Layer {
    pub name: String,
    /// The actions that rules refer to by index.
    pub actions: Vec<Action>,
    pub default_in: DefaultAction,
    pub default_out: DefaultAction,
    /// The rules for packets towards the guest, by priority, oldest first among equals.
    pub rules_in: Vec<Rule>,
    /// The rules for packets from the guest, by priority, oldest first among equals.
    pub rules_out: Vec<Rule>,
    /// The flows of packets towards the guest.
    pub ft_in: FlowTable<LayerFlow>,
    /// The flows of packets from the guest.
    pub ft_out: FlowTable<LayerFlow>,
    /// The number that the next rule gets.
    pub next_id: u64,
    /// How often the rules have changed, counted around the clock of 64 bits.
    pub epoch: u64,
}

/// What a layer decides for a packet.
#[derive(Debug)]
pub enum LayerResult {
    /// The packet goes on as it is.
    Allow,
    /// The packet is dropped.
    Deny,
    /// The packet goes on with changed headers.
    Modified,
    /// The packet is dropped and this one is sent back.
    Hairpin(Packet),
}

/// Why a layer could not decide.
#[derive(Clone, Copy, Debug, PartialEq, Eq, Structural)]
pub enum LayerError {
    /// The rule asks for an answer, but the packet is not one that can be answered.
    HairpinGenFailed,
}

/// What a layer did with a packet, beyond its verdict.
#[derive(Debug)]
pub struct LayerOutcome {
    pub result: LayerResult,
    /// What was done to the headers.
    pub xform: HdrTransform,
    /// What is done to the headers of the answers, where the layer knows it.
    pub dual: Option<HdrTransform>,
    /// True when a rule decided, now or when the flow was installed.
    pub by_rule: bool,
    /// True when a flow of the layer decided or was installed.
    pub stateful: bool,
}

/// The kinds of outcome that a layer has for a packet.
pub enum StepKind {
    Allow,
    Deny,
    Modified,
    Hairpin,
    HairpinFailed,
}

/// What a layer does with a packet, as plain values.
pub struct Step {
    pub kind: StepKind,
    pub xform: HdrTransform,
    pub dual: Option<HdrTransform>,
    pub by_rule: bool,
    pub stateful: bool,
    pub ameta: ActionMeta,
    /// The flows of the packet's direction afterwards.
    pub fwd: Seq<FlowSlot<LayerFlow>>,
    /// The flows of the other direction afterwards.
    pub rev: Seq<FlowSlot<LayerFlow>>,
    /// The frame that answers the packet, where the outcome is a hairpin.
    pub reply: Seq<u8>,
}

/// The position of the first rule of `rules`, from position `from` on, that the packet
/// meets; -1 where there is none.
pub open spec fn first_match(rules: Seq<Rule>, meta: PacketMeta, body: Seq<u8>, from: int) -> int
    decreases rules.len() - from,
{
    if from >= rules.len() {
        -1
    } else if from >= 0 && rules[from].spec_is_match(meta, body) {
        from
    } else if from >= 0 {
        first_match(rules, meta, body, from + 1)
    } else {
        -1
    }
}

/// The action that `action` stands for in a layer with the actions `actions`: the action
/// itself, or for a reference the action referred to. A reference to nothing, or to another
/// reference, stands for a denial.
pub open spec fn resolve(actions: Seq<Action>, action: Action) -> Action {
    match action {
        Action::LayerAction(i) => if i < actions.len() && !(actions[i as int] is LayerAction) {
            actions[i as int]
        } else {
            Action::Deny
        },
        a => a,
    }
}

/// A step that changes nothing and has the outcome `kind`.
pub open spec fn plain_step(
    kind: StepKind,
    by_rule: bool,
    ameta: ActionMeta,
    fwd: Seq<FlowSlot<LayerFlow>>,
    rev: Seq<FlowSlot<LayerFlow>>,
) -> Step {
    Step {
        kind,
        xform: HdrTransform::spec_identity(),
        dual: None,
        by_rule,
        stateful: false,
        ameta,
        fwd,
        rev,
        reply: Seq::empty(),
    }
}

/// The outcome of a transformation: the packet is modified, unless nothing changes.
pub open spec fn kind_of(xform: HdrTransform) -> StepKind {
    if xform.spec_is_identity() {
        StepKind::Allow
    } else {
        StepKind::Modified
    }
}

/// True when source NAT can be done to a packet: it leaves the guest, and it has an IPv4
/// header and a transport header.
pub open spec fn nat_applies(dir: Direction, meta: PacketMeta) -> bool {
    &&& dir == Direction::Out
    &&& meta.inner.ip matches Some(IpMeta::Ip4(_))
    &&& meta.inner.ulp is Some
}

/// What the action `action` of the rule `rule_id` does with a packet whose flow is not in
/// the tables yet.
#[verifier::opaque]
pub open spec fn act(
    action: Action,
    rule_id: u64,
    dir: Direction,
    meta: PacketMeta,
    body: Seq<u8>,
    ameta: ActionMeta,
    v2p: Seq<V2pEntry>,
    now: Moment,
    fwd: Seq<FlowSlot<LayerFlow>>,
    fwd_limit: u32,
    rev: Seq<FlowSlot<LayerFlow>>,
    rev_limit: u32,
) -> Step {
    let flow = InnerFlowId::of(meta);
    match action {
        Action::Allow => plain_step(StepKind::Allow, true, ameta, fwd, rev),
        Action::Deny => plain_step(StepKind::Deny, true, ameta, fwd, rev),
        Action::LayerAction(_) => plain_step(StepKind::Deny, true, ameta, fwd, rev),
        Action::StatefulAllow => Step {
            kind: StepKind::Allow,
            xform: HdrTransform::spec_identity(),
            dual: Some(HdrTransform::spec_identity()),
            by_rule: true,
            stateful: true,
            ameta,
            fwd: after_insert(
                fwd,
                fwd_limit,
                flow,
                LayerFlow { rule_id, xform: HdrTransform::spec_identity() },
                now,
            ),
            rev: after_insert(
                rev,
                rev_limit,
                flow.spec_mirror(),
                LayerFlow { rule_id, xform: HdrTransform::spec_identity() },
                now,
            ),
            reply: Seq::empty(),
        },
        Action::StatefulNat(n) => if nat_applies(dir, meta) && pick_port(fwd, n.port_start, n.port_end) is Some {
            let x = n.spec_out_xform(pick_port(fwd, n.port_start, n.port_end)->Some_0);
            let d = SNat4::spec_in_xform(flow);
            Step {
                kind: StepKind::Modified,
                xform: x,
                dual: Some(d),
                by_rule: true,
                stateful: true,
                ameta,
                fwd: after_insert(fwd, fwd_limit, flow, LayerFlow { rule_id, xform: x }, now),
                rev: after_insert(
                    rev,
                    rev_limit,
                    InnerFlowId::of(x.spec_run(meta)).spec_mirror(),
                    LayerFlow { rule_id, xform: d },
                    now,
                ),
                reply: Seq::empty(),
            }
        } else {
            plain_step(StepKind::Deny, true, ameta, fwd, rev)
        },
        Action::Meta(r) => plain_step(StepKind::Allow, true, r.spec_mod_meta(flow, ameta), fwd, rev),
        Action::Hairpin(HairpinAction::Echo4(h)) => if Echo4Reply::can_reply(body) {
            Step { reply: h.reply_frame(body), ..plain_step(StepKind::Hairpin, true, ameta, fwd, rev) }
        } else {
            plain_step(StepKind::HairpinFailed, true, ameta, fwd, rev)
        },
        Action::Static(StaticAction::Encap(a)) => match a.spec_gen(ameta, v2p, meta) {
            Some(x) => Step { kind: StepKind::Modified, xform: x, ..plain_step(StepKind::Modified, true, ameta, fwd, rev) },
            None => plain_step(StepKind::Deny, true, ameta, fwd, rev),
        },
        Action::Static(StaticAction::Decap) => Step {
            xform: spec_decap_xform(),
            ..plain_step(StepKind::Modified, true, ameta, fwd, rev)
        },
    }
}

/// What a layer does with a packet in one direction. `fwd` are the flows of the packet's
/// direction, `rev` those of the other, `rules` the rules of the packet's direction.
///
/// A packet whose flow is in the table gets what the table says, and the flow counts a hit.
/// For any other packet the first rule that the packet meets decides, or the default where
/// it meets none.
#[verifier::opaque]
pub open spec fn step_in(
    rules: Seq<Rule>,
    actions: Seq<Action>,
    default: DefaultAction,
    dir: Direction,
    meta: PacketMeta,
    body: Seq<u8>,
    ameta: ActionMeta,
    v2p: Seq<V2pEntry>,
    now: Moment,
    fwd: Seq<FlowSlot<LayerFlow>>,
    fwd_limit: u32,
    rev: Seq<FlowSlot<LayerFlow>>,
    rev_limit: u32,
) -> Step {
    let flow = InnerFlowId::of(meta);
    let i = slot_of(fwd, flow);
    if i >= 0 {
        let x = fwd[i].entry.value.xform;
        let back = slot_of(rev, InnerFlowId::of(x.spec_run(meta)).spec_mirror());
        Step {
            kind: kind_of(x),
            xform: x,
            dual: if back >= 0 {
                Some(rev[back].entry.value.xform)
            } else {
                None
            },
            by_rule: true,
            stateful: true,
            ameta,
            fwd: after_hit(fwd, flow, now),
            rev,
            reply: Seq::empty(),
        }
    } else {
        let k = first_match(rules, meta, body, 0);
        if k >= 0 {
            act(
                resolve(actions, rules[k].action),
                rules[k].id,
                dir,
                meta,
                body,
                ameta,
                v2p,
                now,
                fwd,
                fwd_limit,
                rev,
                rev_limit,
            )
        } else {
            match default {
                DefaultAction::Allow => plain_step(StepKind::Allow, false, ameta, fwd, rev),
                DefaultAction::Deny => plain_step(StepKind::Deny, false, ameta, fwd, rev),
            }
        }
    }
}

/// True when the rule number `id` is that of a rule of `rules`.
pub open spec fn has_rule(rules: Seq<Rule>, id: u64) -> bool {
    exists|i: int| 0 <= i < rules.len() && (#[trigger] rules[i]).id == id
}

/// True when `rules` are in the order of their priorities.
pub open spec fn by_priority(rules: Seq<Rule>) -> bool {
    forall|i: int, j: int| 0 <= i <= j < rules.len() ==> rules[i].priority <= rules[j].priority
}

/// True when every rule of `rules` has a number from 1 up to, but not including, `next`.
pub open spec fn ids_below(rules: Seq<Rule>, next: u64) -> bool {
    forall|i: int| 0 <= i < rules.len() ==> 1 <= (#[trigger] rules[i]).id < next
}

/// True when no two rules of `rules` have the same number.
pub open spec fn distinct_ids(rules: Seq<Rule>) -> bool {
    forall|i: int, j: int| 0 <= i < j < rules.len() ==> rules[i].id != rules[j].id
}

/// True when every flow of `ft` was decided by a rule that is among `a` or `b`.
pub open spec fn flows_known(ft: Seq<FlowSlot<LayerFlow>>, a: Seq<Rule>, b: Seq<Rule>) -> bool {
    forall|i: int|
        0 <= i < ft.len() ==> has_rule(a, (#[trigger] ft[i]).entry.value.rule_id) || has_rule(
            b,
            ft[i].entry.value.rule_id,
        )
}

impl Layer {
    /// Both flow tables are well formed; the rules of each direction are in the order of
    /// their priorities; the rules have numbers of their own below the next number; and
    /// every flow was decided by a rule that the layer still has.
    pub open spec fn wf(self) -> bool {
        &&& self.ft_in.wf()
        &&& self.ft_out.wf()
        &&& by_priority(self.rules_in@)
        &&& by_priority(self.rules_out@)
        &&& self.next_id >= 1
        &&& ids_below(self.rules_in@, self.next_id)
        &&& ids_below(self.rules_out@, self.next_id)
        &&& distinct_ids(self.rules_in@ + self.rules_out@)
        &&& flows_known(self.ft_in@, self.rules_in@, self.rules_out@)
        &&& flows_known(self.ft_out@, self.rules_in@, self.rules_out@)
    }

    /// The rules for the direction `dir`.
    pub open spec fn rules(self, dir: Direction) -> Seq<Rule> {
        match dir {
            Direction::In => self.rules_in@,
            Direction::Out => self.rules_out@,
        }
    }

    /// The flows of the direction `dir`.
    pub open spec fn flows(self, dir: Direction) -> Seq<FlowSlot<LayerFlow>> {
        match dir {
            Direction::In => self.ft_in@,
            Direction::Out => self.ft_out@,
        }
    }

    /// What the layer does where no rule for the direction `dir` matches.
    pub open spec fn default(self, dir: Direction) -> DefaultAction {
        match dir {
            Direction::In => self.default_in,
            Direction::Out => self.default_out,
        }
    }

    /// What the layer does with a packet in the direction `dir` at `now`.
    pub open spec fn step(
        self,
        dir: Direction,
        meta: PacketMeta,
        body: Seq<u8>,
        ameta: ActionMeta,
        v2p: Seq<V2pEntry>,
        now: Moment,
    ) -> Step {
        match dir {
            Direction::In => step_in(
                self.rules_in@,
                self.actions@,
                self.default_in,
                dir,
                meta,
                body,
                ameta,
                v2p,
                now,
                self.ft_in@,
                self.ft_in.limit,
                self.ft_out@,
                self.ft_out.limit,
            ),
            Direction::Out => step_in(
                self.rules_out@,
                self.actions@,
                self.default_out,
                dir,
                meta,
                body,
                ameta,
                v2p,
                now,
                self.ft_out@,
                self.ft_out.limit,
                self.ft_in@,
                self.ft_in.limit,
            ),
        }
    }

    /// True when `after` is this layer but for its flows, which are `fwd` in the direction
    /// `dir` and `rev` in the other.
    pub open spec fn with_flows(
        self,
        after: Layer,
        dir: Direction,
        fwd: Seq<FlowSlot<LayerFlow>>,
        rev: Seq<FlowSlot<LayerFlow>>,
    ) -> bool {
        &&& after.name == self.name
        &&& after.actions == self.actions
        &&& after.default_in == self.default_in
        &&& after.default_out == self.default_out
        &&& after.rules_in == self.rules_in
        &&& after.rules_out == self.rules_out
        &&& after.next_id == self.next_id
        &&& after.epoch == self.epoch
        &&& after.ft_in.limit == self.ft_in.limit
        &&& after.ft_in.ttl_ms == self.ft_in.ttl_ms
        &&& after.ft_out.limit == self.ft_out.limit
        &&& after.ft_out.ttl_ms == self.ft_out.ttl_ms
        &&& after.flows(dir) == fwd
        &&& after.flows(dir.spec_flip()) == rev
    }
}

/// True when the exec outcome `r` is what the step `st` says.
pub open spec fn outcome_is(st: Step, r: Result<LayerOutcome, LayerError>) -> bool {
    match r {
        Err(e) => st.kind is HairpinFailed && e == LayerError::HairpinGenFailed,
        Ok(o) => {
            &&& o.xform == st.xform
            &&& o.dual == st.dual
            &&& o.by_rule == st.by_rule
            &&& o.stateful == st.stateful
            &&& match o.result {
                LayerResult::Allow => st.kind is Allow,
                LayerResult::Deny => st.kind is Deny,
                LayerResult::Modified => st.kind is Modified,
                LayerResult::Hairpin(p) => st.kind is Hairpin && p@ == st.reply && p.wf() && p.seg_ends@.len() == 1,
            }
        },
    }
}

// The position of the first rule that the packet meets.
fn find_match(rules: &Vec<Rule>, meta: &PacketMeta, body: &[u8]) -> (r: Option<usize>)
    ensures
        match r {
            Some(k) => first_match(rules@, *meta, body@, 0) == k && k < rules@.len(),
            None => first_match(rules@, *meta, body@, 0) == -1,
        },
{
    let n = rules.len();
    let mut i: usize = 0;
    while i < n
        invariant
            i <= n == rules.len(),
            first_match(rules@, *meta, body@, 0) == first_match(rules@, *meta, body@, i as int),
        decreases n - i,
    {
        if rules[i].is_match(meta, body) {
            return Some(i);
        }
        i = i + 1;
    }
    None
}

// The action that `action` stands for.
fn resolve_action(actions: &Vec<Action>, action: Action) -> (r: Action)
    ensures
        r == resolve(actions@, action),
{
    match action {
        Action::LayerAction(i) => {
            if i < actions.len() {
                match actions[i] {
                    Action::LayerAction(_) => Action::Deny,
                    a => a,
                }
            } else {
                Action::Deny
            }
        },
        a => a,
    }
}

fn plain(result: LayerResult, by_rule: bool) -> (r: LayerOutcome)
    ensures
        r.result == result,
        r.xform == HdrTransform::spec_identity(),
        r.dual is None,
        r.by_rule == by_rule,
        !r.stateful,
{
    LayerOutcome { result, xform: HdrTransform::identity(), dual: None, by_rule, stateful: false }
}

// What a layer does with a packet in one direction.
fn process_in(
    rules: &Vec<Rule>,
    actions: &Vec<Action>,
    default: DefaultAction,
    dir: Direction,
    fwd: &mut FlowTable<LayerFlow>,
    rev: &mut FlowTable<LayerFlow>,
    pkt: &mut ParsedPacket,
    ameta: &mut ActionMeta,
    v2p: &Virt2Phys,
    now: Moment,
) -> (r: Result<LayerOutcome, LayerError>)
    requires
        old(fwd).wf(),
        old(rev).wf(),
        old(pkt).wf(),
    ensures
        final(fwd).wf(),
        final(rev).wf(),
        final(fwd).limit == old(fwd).limit,
        final(fwd).ttl_ms == old(fwd).ttl_ms,
        final(rev).limit == old(rev).limit,
        final(rev).ttl_ms == old(rev).ttl_ms,
        ({
            let st = step_in(
                rules@,
                actions@,
                default,
                dir,
                old(pkt).meta,
                old(pkt).body(),
                *old(ameta),
                v2p@,
                now,
                old(fwd)@,
                old(fwd).limit,
                old(rev)@,
                old(rev).limit,
            );
            &&& final(fwd)@ == st.fwd
            &&& final(rev)@ == st.rev
            &&& *final(ameta) == st.ameta
            &&& *final(pkt) == (ParsedPacket { meta: st.xform.spec_run(old(pkt).meta), ..*old(pkt) })
            &&& outcome_is(st, r)
        }),
{
    let flow = InnerFlowId::from_meta(&pkt.meta);
    proof {
        reveal(step_in);
        reveal(act);
        crate::transform::lemma_identity(HdrTransform::spec_identity(), pkt.meta);
    }
    match fwd.get(&flow, now) {
        Some(i) => {
            let x = fwd.entry_at(i).value.xform;
            x.run(&mut pkt.meta);
            let back_key = InnerFlowId::from_meta(&pkt.meta).mirror();
            let dual = match rev.peek(&back_key) {
                Some(e) => Some(e.value.xform),
                None => None,
            };
            let result = if x.is_identity() {
                LayerResult::Allow
            } else {
                LayerResult::Modified
            };
            return Ok(LayerOutcome { result, xform: x, dual, by_rule: true, stateful: true });
        },
        None => {},
    }
    let total = pkt.bytes.len();
    let (action, rule_id) = {
        let body = vstd::slice::slice_subrange(pkt.bytes.as_slice(), pkt.body_offset, total);
        match find_match(rules, &pkt.meta, body) {
            Some(k) => (resolve_action(actions, rules[k].action), rules[k].id),
            None => {
                return match default {
                    DefaultAction::Allow => Ok(plain(LayerResult::Allow, false)),
                    DefaultAction::Deny => Ok(plain(LayerResult::Deny, false)),
                };
            },
        }
    };
    match action {
        Action::Allow => Ok(plain(LayerResult::Allow, true)),
        Action::Deny => Ok(plain(LayerResult::Deny, true)),
        Action::LayerAction(_) => Ok(plain(LayerResult::Deny, true)),
        Action::StatefulAllow => {
            let id = HdrTransform::identity();
            fwd.insert(flow, LayerFlow { rule_id, xform: id }, now);
            rev.insert(flow.mirror(), LayerFlow { rule_id, xform: id }, now);
            Ok(LayerOutcome { result: LayerResult::Allow, xform: id, dual: Some(id), by_rule: true, stateful: true })
        },
        Action::StatefulNat(n) => {
            let applies = (match dir {
                Direction::Out => true,
                Direction::In => false,
            }) && (match &pkt.meta.inner.ip {
                Some(IpMeta::Ip4(_)) => true,
                _ => false,
            }) && pkt.meta.inner.ulp.is_some();
            assert(applies == nat_applies(dir, pkt.meta));
            if !applies {
                return Ok(plain(LayerResult::Deny, true));
            }
            match n.pick(fwd) {
                None => Ok(plain(LayerResult::Deny, true)),
                Some(port) => {
                    let x = n.out_xform(port);
                    let d = SNat4::in_xform(&flow);
                    x.run(&mut pkt.meta);
                    let back_key = InnerFlowId::from_meta(&pkt.meta).mirror();
                    fwd.insert(flow, LayerFlow { rule_id, xform: x }, now);
                    rev.insert(back_key, LayerFlow { rule_id, xform: d }, now);
                    Ok(
                        LayerOutcome {
                            result: LayerResult::Modified,
                            xform: x,
                            dual: Some(d),
                            by_rule: true,
                            stateful: true,
                        },
                    )
                },
            }
        },
        Action::Meta(r) => {
            let _ = r.mod_meta(&flow, ameta);
            Ok(plain(LayerResult::Allow, true))
        },
        Action::Hairpin(HairpinAction::Echo4(h)) => {
            let body = vstd::slice::slice_subrange(pkt.bytes.as_slice(), pkt.body_offset, total);
            match h.gen_packet(body) {
                Some(p) => Ok(plain(LayerResult::Hairpin(p), true)),
                None => Err(LayerError::HairpinGenFailed),
            }
        },
        Action::Static(StaticAction::Encap(a)) => match a.gen(ameta, v2p, &pkt.meta) {
            Some(x) => {
                x.run(&mut pkt.meta);
                Ok(LayerOutcome { result: LayerResult::Modified, xform: x, dual: None, by_rule: true, stateful: false })
            },
            None => Ok(plain(LayerResult::Deny, true)),
        },
        Action::Static(StaticAction::Decap) => {
            let x = crate::overlay::decap_xform();
            x.run(&mut pkt.meta);
            Ok(LayerOutcome { result: LayerResult::Modified, xform: x, dual: None, by_rule: true, stateful: false })
        },
    }
}

/// Where the rule with the priority `prio` goes among `rules`: after the last rule whose
/// priority number is not larger.
pub open spec fn insert_pos(rules: Seq<Rule>, prio: u16) -> int
    decreases rules.len(),
{
    if rules.len() == 0 {
        0
    } else if rules.last().priority <= prio {
        rules.len() as int
    } else {
        insert_pos(rules.drop_last(), prio)
    }
}

/// The rule `rule` under the number `id`.
pub open spec fn numbered(rule: Rule, id: u64) -> Rule {
    Rule { id, ..rule }
}

/// The rules `rules` with `rule` added under the number `id`.
pub open spec fn with_rule(rules: Seq<Rule>, rule: Rule, id: u64) -> Seq<Rule> {
    rules.insert(insert_pos(rules, rule.priority), numbered(rule, id))
}

/// The rules that a layer makes of the list `list`: each rule is added in turn, the first
/// under the number `first_id`, each further one under the next number.
pub open spec fn built(list: Seq<Rule>, first_id: u64) -> Seq<Rule>
    decreases list.len(),
{
    if list.len() == 0 {
        Seq::empty()
    } else {
        with_rule(built(list.drop_last(), first_id), list.last(), (first_id + list.len() - 1) as u64)
    }
}

/// The position of the rule with the number `id` in `rules`, or -1.
pub open spec fn rule_pos(rules: Seq<Rule>, id: u64) -> int
    decreases rules.len(),
{
    if rules.len() == 0 {
        -1
    } else if rules.last().id == id {
        rules.len() - 1
    } else {
        rule_pos(rules.drop_last(), id)
    }
}

/// The position of the first rule of `rules`, from `from` on, that is the same as `rule`
/// but for its number; -1 where there is none.
pub open spec fn same_pos(rules: Seq<Rule>, rule: Rule, from: int) -> int
    decreases rules.len() - from,
{
    if from >= rules.len() || from < 0 {
        -1
    } else if rules[from].spec_same(rule) {
        from
    } else {
        same_pos(rules, rule, from + 1)
    }
}

/// Among rules in the order of their priorities, the place for a new rule has the rules of
/// no larger priority number before it and those of a larger one after it.
pub proof fn lemma_insert_pos(rules: Seq<Rule>, prio: u16)
    requires
        by_priority(rules),
    ensures
        0 <= insert_pos(rules, prio) <= rules.len(),
        forall|i: int| 0 <= i < insert_pos(rules, prio) ==> (#[trigger] rules[i]).priority <= prio,
        forall|i: int| insert_pos(rules, prio) <= i < rules.len() ==> (#[trigger] rules[i]).priority > prio,
    decreases rules.len(),
{
    if rules.len() > 0 {
        let t = rules.drop_last();
        assert(by_priority(t)) by {
            assert forall|i: int, j: int| 0 <= i <= j < t.len() implies t[i].priority <= t[j].priority by {
                assert(t[i] == rules[i] && t[j] == rules[j]);
            }
        }
        lemma_insert_pos(t, prio);
        if rules.last().priority <= prio {
            assert forall|i: int| 0 <= i < rules.len() implies (#[trigger] rules[i]).priority <= prio by {
                assert(rules[i].priority <= rules[rules.len() - 1].priority);
            }
        } else {
            assert forall|i: int| 0 <= i < insert_pos(rules, prio) implies (#[trigger] rules[i]).priority <= prio by {
                assert(t[i] == rules[i]);
            }
            assert forall|i: int| insert_pos(rules, prio) <= i < rules.len() implies (#[trigger] rules[i]).priority
                > prio by {
                if i < t.len() {
                    assert(t[i] == rules[i]);
                }
            }
        }
    }
}

/// Adding a rule to rules in the order of their priorities keeps the order, keeps the
/// numbers of the rules that were there, and adds the new number.
pub proof fn lemma_with_rule(rules: Seq<Rule>, rule: Rule, id: u64, next: u64)
    requires
        by_priority(rules),
        ids_below(rules, next),
        distinct_ids(rules),
        next <= id < u64::MAX,
        1 <= id,
    ensures
        by_priority(with_rule(rules, rule, id)),
        ids_below(with_rule(rules, rule, id), (id + 1) as u64),
        distinct_ids(with_rule(rules, rule, id)),
        with_rule(rules, rule, id).len() == rules.len() + 1,
        has_rule(with_rule(rules, rule, id), id),
        forall|x: u64| has_rule(rules, x) ==> has_rule(with_rule(rules, rule, id), x),
        forall|x: u64| has_rule(with_rule(rules, rule, id), x) ==> x == id || has_rule(rules, x),
{
    lemma_insert_pos(rules, rule.priority);
    let p = insert_pos(rules, rule.priority);
    let r = with_rule(rules, rule, id);
    assert forall|i: int, j: int| 0 <= i <= j < r.len() implies r[i].priority <= r[j].priority by {
        let a = if i < p {
            i
        } else {
            i - 1
        };
        let b = if j < p {
            j
        } else {
            j - 1
        };
        if i != p && j != p {
            assert(r[i] == rules[a] && r[j] == rules[b]);
        } else if i == p && j != p {
            assert(r[j] == rules[b]);
        } else if j == p && i != p {
            assert(r[i] == rules[a]);
        }
    }
    assert forall|i: int| 0 <= i < r.len() implies 1 <= (#[trigger] r[i]).id < id + 1 by {
        if i < p {
            assert(r[i] == rules[i]);
        } else if i > p {
            assert(r[i] == rules[i - 1]);
        }
    }
    assert forall|i: int, j: int| 0 <= i < j < r.len() implies r[i].id != r[j].id by {
        let a = if i < p {
            i
        } else {
            i - 1
        };
        let b = if j < p {
            j
        } else {
            j - 1
        };
        if i != p {
            assert(r[i] == rules[a]);
        }
        if j != p {
            assert(r[j] == rules[b]);
        }
    }
    assert(r[p].id == id);
    assert forall|x: u64| has_rule(rules, x) implies has_rule(r, x) by {
        let i = choose|i: int| 0 <= i < rules.len() && (#[trigger] rules[i]).id == x;
        if i < p {
            assert(r[i] == rules[i]);
        } else {
            assert(r[i + 1] == rules[i]);
        }
    }
    assert forall|x: u64| has_rule(r, x) implies x == id || has_rule(rules, x) by {
        let i = choose|i: int| 0 <= i < r.len() && (#[trigger] r[i]).id == x;
        if i < p {
            assert(r[i] == rules[i]);
        } else if i > p {
            assert(r[i] == rules[i - 1]);
        }
    }
}

/// The rules that a layer makes of a list are in the order of their priorities and have the
/// numbers from `first_id` on, one each.
pub proof fn lemma_built(list: Seq<Rule>, first_id: u64)
    requires
        1 <= first_id,
        first_id + list.len() < u64::MAX,
    ensures
        by_priority(built(list, first_id)),
        ids_below(built(list, first_id), (first_id + list.len()) as u64),
        distinct_ids(built(list, first_id)),
        built(list, first_id).len() == list.len(),
        forall|i: int| 0 <= i < list.len() ==> (#[trigger] built(list, first_id)[i]).id >= first_id,
    decreases list.len(),
{
    if list.len() > 0 {
        let t = list.drop_last();
        lemma_built(t, first_id);
        let prev = built(t, first_id);
        let id = (first_id + list.len() - 1) as u64;
        lemma_with_rule(prev, list.last(), id, id);
        let r = built(list, first_id);
        let p = insert_pos(prev, list.last().priority);
        lemma_insert_pos(prev, list.last().priority);
        assert forall|i: int| 0 <= i < list.len() implies (#[trigger] r[i]).id >= first_id by {
            if i < p {
                assert(r[i] == prev[i]);
            } else if i > p {
                assert(r[i] == prev[i - 1]);
            }
        }
    }
}

/// Every flow of the tables after a step was decided by a rule of the layer, where that
/// was so before the step.
pub proof fn lemma_step_known(
    rules: Seq<Rule>,
    other_rules: Seq<Rule>,
    actions: Seq<Action>,
    default: DefaultAction,
    dir: Direction,
    meta: PacketMeta,
    body: Seq<u8>,
    ameta: ActionMeta,
    v2p: Seq<V2pEntry>,
    now: Moment,
    fwd: Seq<FlowSlot<LayerFlow>>,
    fwd_limit: u32,
    rev: Seq<FlowSlot<LayerFlow>>,
    rev_limit: u32,
)
    requires
        flows_known(fwd, rules, other_rules),
        flows_known(rev, rules, other_rules),
    ensures
        flows_known(
            step_in(rules, actions, default, dir, meta, body, ameta, v2p, now, fwd, fwd_limit, rev, rev_limit).fwd,
            rules,
            other_rules,
        ),
        flows_known(
            step_in(rules, actions, default, dir, meta, body, ameta, v2p, now, fwd, fwd_limit, rev, rev_limit).rev,
            rules,
            other_rules,
        ),
{
    reveal(step_in);
    reveal(act);
    let st = step_in(rules, actions, default, dir, meta, body, ameta, v2p, now, fwd, fwd_limit, rev, rev_limit);
    let flow = InnerFlowId::of(meta);
    if slot_of(fwd, flow) >= 0 {
        lemma_after_hit_values(fwd, flow, now);
        assert forall|i: int| 0 <= i < st.fwd.len() implies has_rule(rules, (#[trigger] st.fwd[i]).entry.value.rule_id)
            || has_rule(other_rules, st.fwd[i].entry.value.rule_id) by {
            assert(st.fwd[i].entry.value == fwd[i].entry.value);
        }
    } else {
        let k = first_match(rules, meta, body, 0);
        lemma_first_match(rules, meta, body, 0);
        if k >= 0 {
            let id = rules[k].id;
            assert(has_rule(rules, id));
            let a = resolve(actions, rules[k].action);
            lemma_known_after_insert(fwd, fwd_limit, rules, other_rules, id);
            lemma_known_after_insert(rev, rev_limit, rules, other_rules, id);
        }
    }
}

/// `first_match` finds a position of the rules from `from` on, or -1.
pub proof fn lemma_first_match(rules: Seq<Rule>, meta: PacketMeta, body: Seq<u8>, from: int)
    requires
        0 <= from,
    ensures
        first_match(rules, meta, body, from) == -1 || (from <= first_match(rules, meta, body, from) < rules.len()
            && rules[first_match(rules, meta, body, from)].spec_is_match(meta, body)),
        forall|i: int|
            from <= i < rules.len() && (first_match(rules, meta, body, from) == -1 || i < first_match(
                rules,
                meta,
                body,
                from,
            )) ==> !(#[trigger] rules[i]).spec_is_match(meta, body),
    decreases rules.len() - from,
{
    if from < rules.len() && !rules[from].spec_is_match(meta, body) {
        lemma_first_match(rules, meta, body, from + 1);
    }
}

/// A table whose flows were decided by rules of a layer stays such a table when a flow of
/// one of these rules is installed, whatever the flow and its transformation.
pub proof fn lemma_known_after_insert(
    ft: Seq<FlowSlot<LayerFlow>>,
    limit: u32,
    a: Seq<Rule>,
    b: Seq<Rule>,
    id: u64,
)
    requires
        flows_known(ft, a, b),
        has_rule(a, id) || has_rule(b, id),
    ensures
        forall|key: InnerFlowId, x: HdrTransform, now: Moment|
            flows_known(#[trigger] after_insert(ft, limit, key, LayerFlow { rule_id: id, xform: x }, now), a, b),
{
    assert forall|key: InnerFlowId, x: HdrTransform, now: Moment|
        flows_known(#[trigger] after_insert(ft, limit, key, LayerFlow { rule_id: id, xform: x }, now), a, b) by {
        let v = LayerFlow { rule_id: id, xform: x };
        let r = after_insert(ft, limit, key, v, now);
        lemma_after_insert_members(ft, limit, key, v, now);
        assert forall|i: int| 0 <= i < r.len() implies has_rule(a, (#[trigger] r[i]).entry.value.rule_id) || has_rule(
            b,
            r[i].entry.value.rule_id,
        ) by {
            if r[i] != fresh_slot(key, v, now) {
                assert(ft.contains(r[i]));
                let j = choose|j: int| 0 <= j < ft.len() && ft[j] == r[i];
                assert(has_rule(a, ft[j].entry.value.rule_id) || has_rule(b, ft[j].entry.value.rule_id));
            }
        }
    }
}

/// The flows that are left after expiry were decided by rules of the layer, where all flows
/// were.
pub proof fn lemma_known_after_expire(ft: Seq<FlowSlot<LayerFlow>>, now: Moment, ttl: u64, a: Seq<Rule>, b: Seq<Rule>)
    requires
        flows_known(ft, a, b),
    ensures
        flows_known(live_at(ft, now, ttl), a, b),
{
    lemma_live_at(ft, now, ttl);
    let l = live_at(ft, now, ttl);
    assert forall|i: int| 0 <= i < l.len() implies has_rule(a, (#[trigger] l[i]).entry.value.rule_id) || has_rule(
        b,
        l[i].entry.value.rule_id,
    ) by {
        let j = choose|j: int| 0 <= j < ft.len() && ft[j] == l[i] && !crate::flow_table::is_expired(ft[j], now, ttl);
        assert(has_rule(a, ft[j].entry.value.rule_id) || has_rule(b, ft[j].entry.value.rule_id));
    }
}

impl Layer {
    /// A layer without rules and without flows. Each of its flow tables has room for
    /// `ft_limit` flows, which expire when they have been idle for
    /// [`FLOW_DEF_EXPIRE_SECS`] seconds.
    pub fn new(name: &str, port_name: &str, actions: LayerActions, ft_limit: u32) -> (r: Layer)
        requires
            ft_limit >= 1,
        ensures
            r.wf(),
            r.name@ == name@,
            r.actions == actions.actions,
            r.default_in == actions.default_in,
            r.default_out == actions.default_out,
            r.rules_in@.len() == 0,
            r.rules_out@.len() == 0,
            r.ft_in@.len() == 0,
            r.ft_out@.len() == 0,
            r.ft_in.limit == ft_limit,
            r.ft_out.limit == ft_limit,
            r.ft_in.ttl_ms == FLOW_DEF_EXPIRE_SECS * MILLIS_PER_SEC,
            r.ft_out.ttl_ms == FLOW_DEF_EXPIRE_SECS * MILLIS_PER_SEC,
            r.next_id == 1,
            r.epoch == 0,
    {
        let r = Layer {
            name: name.to_owned(),
            actions: actions.actions,
            default_in: actions.default_in,
            default_out: actions.default_out,
            rules_in: Vec::new(),
            rules_out: Vec::new(),
            ft_in: FlowTable::new(ft_limit, FLOW_DEF_EXPIRE_SECS),
            ft_out: FlowTable::new(ft_limit, FLOW_DEF_EXPIRE_SECS),
            next_id: 1,
            epoch: 0,
        };
        assert(r.rules_in@ + r.rules_out@ =~= Seq::<Rule>::empty());
        r
    }

    /// The name of the layer.
    pub fn name(&self) -> (r: &str)
        ensures
            r@ == self.name@,
    {
        self.name.as_str()
    }

    /// A reference to the layer's action with the index `idx`, for use in a rule; none
    /// where the layer has no such action.
    pub fn action(&self, idx: usize) -> (r: Option<Action>)
        ensures
            r == (if idx < self.actions@.len() {
                Some(Action::LayerAction(idx))
            } else {
                None
            }),
    {
        if idx < self.actions.len() {
            Some(Action::LayerAction(idx))
        } else {
            None
        }
    }

    /// The number of rules for the direction `dir`.
    pub fn num_rules(&self, dir: Direction) -> (r: usize)
        ensures
            r == self.rules(dir).len(),
    {
        match dir {
            Direction::In => self.rules_in.len(),
            Direction::Out => self.rules_out.len(),
        }
    }

    /// The number of flows of the direction `dir`.
    pub fn num_flows(&self, dir: Direction) -> (r: usize)
        ensures
            r == self.flows(dir).len(),
    {
        match dir {
            Direction::In => self.ft_in.len(),
            Direction::Out => self.ft_out.len(),
        }
    }

    /// Decides what happens to the packet `pkt` in the direction `dir` at `now`, as
    /// [`Layer::step`] says: the flows of the layer change as the step says, the metadata of
    /// the packet is transformed, and the action metadata is annotated.
    pub fn process(
        &mut self,
        dir: Direction,
        pkt: &mut ParsedPacket,
        ameta: &mut ActionMeta,
        v2p: &Virt2Phys,
        now: Moment,
    ) -> (r: Result<LayerOutcome, LayerError>)
        requires
            old(self).wf(),
            old(pkt).wf(),
        ensures
            final(self).wf(),
            ({
                let st = old(self).step(dir, old(pkt).meta, old(pkt).body(), *old(ameta), v2p@, now);
                &&& old(self).with_flows(*final(self), dir, st.fwd, st.rev)
                &&& *final(ameta) == st.ameta
                &&& *final(pkt) == (ParsedPacket { meta: st.xform.spec_run(old(pkt).meta), ..*old(pkt) })
                &&& outcome_is(st, r)
            }),
    {
        proof {
            match dir {
                Direction::In => lemma_step_known(
                    self.rules_in@,
                    self.rules_out@,
                    self.actions@,
                    self.default_in,
                    dir,
                    pkt.meta,
                    pkt.body(),
                    *ameta,
                    v2p@,
                    now,
                    self.ft_in@,
                    self.ft_in.limit,
                    self.ft_out@,
                    self.ft_out.limit,
                ),
                Direction::Out => lemma_step_known(
                    self.rules_out@,
                    self.rules_in@,
                    self.actions@,
                    self.default_out,
                    dir,
                    pkt.meta,
                    pkt.body(),
                    *ameta,
                    v2p@,
                    now,
                    self.ft_out@,
                    self.ft_out.limit,
                    self.ft_in@,
                    self.ft_in.limit,
                ),
            }
        }
        match dir {
            Direction::In => process_in(
                &self.rules_in,
                &self.actions,
                self.default_in,
                dir,
                &mut self.ft_in,
                &mut self.ft_out,
                pkt,
                ameta,
                v2p,
                now,
            ),
            Direction::Out => process_in(
                &self.rules_out,
                &self.actions,
                self.default_out,
                dir,
                &mut self.ft_out,
                &mut self.ft_in,
                pkt,
                ameta,
                v2p,
                now,
            ),
        }
    }

    /// Takes out the flows that have been idle for their time to live at `now`.
    pub fn expire_flows(&mut self, now: Moment)
        requires
            old(self).wf(),
        ensures
            final(self).wf(),
            old(self).with_flows(
                *final(self),
                Direction::In,
                live_at(old(self).ft_in@, now, old(self).ft_in.ttl_ms),
                live_at(old(self).ft_out@, now, old(self).ft_out.ttl_ms),
            ),
    {
        proof {
            lemma_known_after_expire(self.ft_in@, now, self.ft_in.ttl_ms, self.rules_in@, self.rules_out@);
            lemma_known_after_expire(self.ft_out@, now, self.ft_out.ttl_ms, self.rules_in@, self.rules_out@);
        }
        let _ = self.ft_in.expire(now);
        let _ = self.ft_out.expire(now);
    }

    /// Takes out all flows.
    pub fn clear_flows(&mut self)
        requires
            old(self).wf(),
        ensures
            final(self).wf(),
            old(self).with_flows(
                *final(self),
                Direction::In,
                Seq::<FlowSlot<LayerFlow>>::empty(),
                Seq::<FlowSlot<LayerFlow>>::empty(),
            ),
    {
        self.ft_in.clear();
        self.ft_out.clear();
    }
}

impl Layer {
    /// True when `after` has what the layer has apart from its rules, its flows, its next
    /// rule number and its epoch.
    pub open spec fn same_frame(self, after: Layer) -> bool {
        &&& after.name == self.name
        &&& after.actions == self.actions
        &&& after.default_in == self.default_in
        &&& after.default_out == self.default_out
        &&& after.ft_in.limit == self.ft_in.limit
        &&& after.ft_out.limit == self.ft_out.limit
        &&& after.ft_in.ttl_ms == self.ft_in.ttl_ms
        &&& after.ft_out.ttl_ms == self.ft_out.ttl_ms
    }

    /// True when `after` is the layer after `rule` was added for the direction `dir` under
    /// the number `id`: the rule stands after the rules of its priority, there are no
    /// flows, and the epoch has moved on.
    pub open spec fn added(self, after: Layer, dir: Direction, rule: Rule, id: u64) -> bool {
        &&& self.same_frame(after)
        &&& self.next_id < u64::MAX
        &&& id == self.next_id
        &&& after.next_id == id + 1
        &&& after.rules(dir) == with_rule(self.rules(dir), rule, id)
        &&& after.rules(dir.spec_flip()) == self.rules(dir.spec_flip())
        &&& after.ft_in@.len() == 0
        &&& after.ft_out@.len() == 0
        &&& after.epoch == next_epoch(self.epoch)
    }

    /// True when `after` is the layer after the rule with the number `id` was taken out of
    /// the rules for the direction `dir`: there are no flows, and the epoch has moved on.
    pub open spec fn removed(self, after: Layer, dir: Direction, id: u64) -> bool {
        &&& self.same_frame(after)
        &&& after.next_id == self.next_id
        &&& has_rule(self.rules(dir), id)
        &&& after.rules(dir) == self.rules(dir).remove(rule_pos(self.rules(dir), id))
        &&& after.rules(dir.spec_flip()) == self.rules(dir.spec_flip())
        &&& !has_rule(after.rules(dir), id)
        &&& after.ft_in@.len() == 0
        &&& after.ft_out@.len() == 0
        &&& after.epoch == next_epoch(self.epoch)
    }

    /// True when `after` is the layer after its rules were replaced by the lists
    /// `in_rules` and `out_rules`: the new rules have new numbers, there are no flows, and
    /// the epoch has moved on.
    pub open spec fn replaced(self, after: Layer, in_rules: Seq<Rule>, out_rules: Seq<Rule>) -> bool {
        &&& self.same_frame(after)
        &&& self.next_id + in_rules.len() + out_rules.len() < u64::MAX
        &&& after.rules_in@ == built(in_rules, self.next_id)
        &&& after.rules_out@ == built(out_rules, (self.next_id + in_rules.len()) as u64)
        &&& after.next_id == self.next_id + in_rules.len() + out_rules.len()
        &&& after.ft_in@.len() == 0
        &&& after.ft_out@.len() == 0
        &&& after.epoch == next_epoch(self.epoch)
    }
}

/// The epoch after one more change of rules.
pub open spec fn next_epoch(epoch: u64) -> u64 {
    if epoch == u64::MAX {
        0
    } else {
        (epoch + 1) as u64
    }
}

// Adds `rule` to `rules` under the number `id`.
fn insert_rule(rules: &mut Vec<Rule>, rule: Rule, id: u64)
    ensures
        final(rules)@ == with_rule(old(rules)@, rule, id),
{
    let mut pos = rules.len();
    assert(rules@.take(pos as int) =~= rules@);
    while pos > 0 && !(rules[pos - 1].priority <= rule.priority)
        invariant
            pos <= rules.len(),
            *rules == *old(rules),
            insert_pos(rules@, rule.priority) == insert_pos(rules@.take(pos as int), rule.priority),
        decreases pos,
    {
        proof {
            let t = rules@.take(pos as int);
            assert(t.drop_last() =~= rules@.take(pos - 1));
            assert(t.last() == rules@[pos - 1]);
        }
        pos = pos - 1;
    }
    proof {
        let t = rules@.take(pos as int);
        if pos > 0 {
            assert(t.last() == rules@[pos - 1]);
        }
    }
    let mut rule = rule;
    rule.id = id;
    rules.insert(pos, rule);
}

impl Layer {
    /// Adds `rule` to the rules for the direction `dir`, after the rules of its priority
    /// that are there. The rule gets the next number, which comes back; all flows of the
    /// layer are dropped, and the epoch moves on. Where the numbers are used up nothing
    /// changes and nothing comes back.
    pub fn add_rule(&mut self, dir: Direction, rule: Rule) -> (r: Option<u64>)
        requires
            old(self).wf(),
        ensures
            final(self).wf(),
            match r {
                Some(id) => old(self).added(*final(self), dir, rule, id),
                None => old(self).next_id == u64::MAX && *final(self) == *old(self),
            },
    {
        if self.next_id == u64::MAX {
            return None;
        }
        let id = self.next_id;
        proof {
            let both = self.rules_in@ + self.rules_out@;
            assert(distinct_ids(self.rules_in@)) by {
                assert forall|i: int, j: int| 0 <= i < j < self.rules_in@.len() implies self.rules_in@[i].id
                    != self.rules_in@[j].id by {
                    assert(both[i] == self.rules_in@[i] && both[j] == self.rules_in@[j]);
                }
            }
            assert(distinct_ids(self.rules_out@)) by {
                let n = self.rules_in@.len();
                assert forall|i: int, j: int| 0 <= i < j < self.rules_out@.len() implies self.rules_out@[i].id
                    != self.rules_out@[j].id by {
                    assert(both[n + i] == self.rules_out@[i] && both[n + j] == self.rules_out@[j]);
                }
            }
            lemma_with_rule(self.rules_in@, rule, id, id);
            lemma_with_rule(self.rules_out@, rule, id, id);
        }
        match dir {
            Direction::In => insert_rule(&mut self.rules_in, rule, id),
            Direction::Out => insert_rule(&mut self.rules_out, rule, id),
        }
        self.next_id = id + 1;
        self.epoch = if self.epoch == u64::MAX {
            0
        } else {
            self.epoch + 1
        };
        self.ft_in.clear();
        self.ft_out.clear();
        proof {
            let a = self.rules_in@;
            let b = self.rules_out@;
            let oa = old(self).rules_in@;
            let ob = old(self).rules_out@;
            assert forall|i: int, j: int| 0 <= i < j < (a + b).len() implies (a + b)[i].id != (a + b)[j].id by {
                let x = (a + b)[i].id;
                let y = (a + b)[j].id;
                // Each number is the new one or an old one; old ones differ among themselves.
                if x == y {
                    if i < a.len() && j >= a.len() {
                        assert(has_rule(a, x));
                        assert(has_rule(b, y)) by {
                            assert(b[j - a.len()].id == y);
                        }
                        match dir {
                            Direction::In => {
                                // x is new or in oa; y is in ob, so below id.
                                let jj = j - a.len();
                                assert(ob[jj].id == y);
                                if x != id {
                                    assert(has_rule(oa, x));
                                    let ii = choose|ii: int| 0 <= ii < oa.len() && (#[trigger] oa[ii]).id == x;
                                    assert((oa + ob)[ii] == oa[ii]);
                                    assert((oa + ob)[oa.len() + jj] == ob[jj]);
                                }
                            },
                            Direction::Out => {
                                assert(oa[i].id == x);
                                if y != id {
                                    assert(has_rule(ob, y));
                                    let jj = choose|jj: int| 0 <= jj < ob.len() && (#[trigger] ob[jj]).id == y;
                                    assert((oa + ob)[i] == oa[i]);
                                    assert((oa + ob)[oa.len() + jj] == ob[jj]);
                                }
                            },
                        }
                    }
                }
            }
        }
        Some(id)
    }

    /// The number of the first rule for the direction `dir` that is the same as `rule` but
    /// for its number.
    pub fn find_rule(&self, dir: Direction, rule: &Rule) -> (r: Option<u64>)
        ensures
            match r {
                Some(id) => same_pos(self.rules(dir), *rule, 0) >= 0 && self.rules(dir)[same_pos(
                    self.rules(dir),
                    *rule,
                    0,
                )].id == id,
                None => same_pos(self.rules(dir), *rule, 0) == -1,
            },
    {
        let rules = match dir {
            Direction::In => &self.rules_in,
            Direction::Out => &self.rules_out,
        };
        let n = rules.len();
        let mut i: usize = 0;
        while i < n
            invariant
                i <= n == rules.len(),
                rules@ == self.rules(dir),
                same_pos(rules@, *rule, 0) == same_pos(rules@, *rule, i as int),
            decreases n - i,
        {
            if rules[i].same_as(rule) {
                return Some(rules[i].id);
            }
            i = i + 1;
        }
        None
    }
}

/// Taking a rule out keeps the order of the rules, their numbers, and that no number occurs
/// twice.
pub proof fn lemma_rule_removed(rules: Seq<Rule>, p: int, next: u64)
    requires
        0 <= p < rules.len(),
    ensures
        by_priority(rules) ==> by_priority(rules.remove(p)),
        ids_below(rules, next) ==> ids_below(rules.remove(p), next),
        distinct_ids(rules) ==> distinct_ids(rules.remove(p)),
        distinct_ids(rules) ==> !has_rule(rules.remove(p), rules[p].id),
{
    let r = rules.remove(p);
    assert forall|i: int| 0 <= i < r.len() implies r[i] == rules[if i < p {
        i
    } else {
        i + 1
    }] by {}
    if by_priority(rules) {
        assert forall|i: int, j: int| 0 <= i <= j < r.len() implies r[i].priority <= r[j].priority by {
            let a = if i < p {
                i
            } else {
                i + 1
            };
            let b = if j < p {
                j
            } else {
                j + 1
            };
            assert(r[i] == rules[a] && r[j] == rules[b]);
        }
    }
    if ids_below(rules, next) {
        assert forall|i: int| 0 <= i < r.len() implies 1 <= (#[trigger] r[i]).id < next by {
            let a = if i < p {
                i
            } else {
                i + 1
            };
            assert(r[i] == rules[a]);
        }
    }
    if distinct_ids(rules) {
        assert forall|i: int, j: int| 0 <= i < j < r.len() implies r[i].id != r[j].id by {
            let a = if i < p {
                i
            } else {
                i + 1
            };
            let b = if j < p {
                j
            } else {
                j + 1
            };
            assert(r[i] == rules[a] && r[j] == rules[b]);
        }
        if has_rule(r, rules[p].id) {
            let i = choose|i: int| 0 <= i < r.len() && (#[trigger] r[i]).id == rules[p].id;
            let a = if i < p {
                i
            } else {
                i + 1
            };
            assert(r[i] == rules[a]);
            if a < p {
                assert(rules[a].id != rules[p].id);
            } else {
                assert(rules[p].id != rules[a].id);
            }
        }
    }
}

/// `rule_pos` finds a position that holds the number, and finds one wherever the number
/// occurs.
pub proof fn lemma_rule_pos(rules: Seq<Rule>, id: u64)
    ensures
        -1 <= rule_pos(rules, id) < rules.len(),
        rule_pos(rules, id) >= 0 ==> rules[rule_pos(rules, id)].id == id,
        rule_pos(rules, id) < 0 ==> !has_rule(rules, id),
    decreases rules.len(),
{
    if rules.len() > 0 && rules.last().id != id {
        let t = rules.drop_last();
        lemma_rule_pos(t, id);
        if rule_pos(t, id) < 0 && has_rule(rules, id) {
            let i = choose|i: int| 0 <= i < rules.len() && (#[trigger] rules[i]).id == id;
            assert(t[i] == rules[i]);
        }
    }
}

// The position of the rule with the number `id`.
fn find_rule_pos(rules: &Vec<Rule>, id: u64) -> (pos: Option<usize>)
    ensures
        match pos {
            Some(p) => rule_pos(rules@, id) == p && p < rules@.len(),
            None => rule_pos(rules@, id) == -1,
        },
{
    let mut i = rules.len();
    assert(rules@.take(i as int) =~= rules@);
    while i > 0
        invariant
            i <= rules.len(),
            rule_pos(rules@, id) == rule_pos(rules@.take(i as int), id),
        decreases i,
    {
        proof {
            let t = rules@.take(i as int);
            assert(t.drop_last() =~= rules@.take(i - 1));
            assert(t.last() == rules@[i - 1]);
        }
        if rules[i - 1].id == id {
            return Some(i - 1);
        }
        i = i - 1;
    }
    None
}

// The rules that a layer makes of `list`.
fn build_rules(list: Vec<Rule>, first_id: u64) -> (r: Vec<Rule>)
    requires
        first_id + list@.len() <= u64::MAX,
    ensures
        r@ == built(list@, first_id),
{
    let ghost orig = list@;
    let n = list.len();
    let mut rest = list;
    let mut back: Vec<Rule> = Vec::new();
    assert(rest@ =~= orig.take(rest@.len() as int));
    while rest.len() > 0
        invariant
            rest@.len() + back@.len() == n,
            n == orig.len(),
            rest@ == orig.take(rest@.len() as int),
            forall|k: int| 0 <= k < back@.len() ==> back@[k] == orig[n - 1 - k],
        decreases rest@.len(),
    {
        let r = rest.pop().unwrap();
        back.push(r);
        assert(rest@ =~= orig.take(rest@.len() as int));
    }
    let mut out: Vec<Rule> = Vec::new();
    let mut i: usize = 0;
    assert(orig.take(0) =~= Seq::<Rule>::empty());
    while back.len() > 0
        invariant
            i + back@.len() == n,
            n == orig.len(),
            first_id + n <= u64::MAX,
            forall|k: int| 0 <= k < back@.len() ==> back@[k] == orig[n - 1 - k],
            out@ == built(orig.take(i as int), first_id),
        decreases back@.len(),
    {
        let r = back.pop().unwrap();
        proof {
            let t = orig.take(i + 1);
            assert(t.drop_last() =~= orig.take(i as int));
            assert(t.last() == orig[i as int]);
            assert(r == orig[i as int]);
        }
        insert_rule(&mut out, r, first_id + i as u64);
        i = i + 1;
    }
    assert(orig.take(n as int) =~= orig);
    out
}

impl Layer {
    /// Takes the rule with the number `id` out of the rules for the direction `dir`. All
    /// flows of the layer are dropped, and the epoch moves on. Where the direction has no
    /// such rule nothing changes.
    #[verifier::rlimit(40)]
    pub fn remove_rule(&mut self, dir: Direction, id: u64) -> (found: bool)
        requires
            old(self).wf(),
        ensures
            final(self).wf(),
            found == has_rule(old(self).rules(dir), id),
            found ==> old(self).removed(*final(self), dir, id),
            !found ==> *final(self) == *old(self),
    {
        let pos = match dir {
            Direction::In => find_rule_pos(&self.rules_in, id),
            Direction::Out => find_rule_pos(&self.rules_out, id),
        };
        proof {
            lemma_rule_pos(self.rules(dir), id);
        }
        let p = match pos {
            Some(p) => p,
            None => {
                return false;
            },
        };
        proof {
            let a = self.rules_in@;
            let b = self.rules_out@;
            lemma_rule_removed(self.rules(dir), p as int, self.next_id);
            match dir {
                Direction::In => {
                    lemma_rule_removed(a + b, p as int, self.next_id);
                    assert(a.remove(p as int) + b =~= (a + b).remove(p as int));
                },
                Direction::Out => {
                    lemma_rule_removed(a + b, a.len() + p, self.next_id);
                    assert(a + b.remove(p as int) =~= (a + b).remove(a.len() + p));
                },
            }
            assert(distinct_ids(self.rules(dir))) by {
                let both = a + b;
                assert forall|x: int, y: int| 0 <= x < y < self.rules(dir).len() implies self.rules(dir)[x].id
                    != self.rules(dir)[y].id by {
                    match dir {
                        Direction::In => {
                            assert(both[x] == a[x] && both[y] == a[y]);
                        },
                        Direction::Out => {
                            assert(both[a.len() + x] == b[x] && both[a.len() + y] == b[y]);
                        },
                    }
                }
            }
        }
        match dir {
            Direction::In => {
                self.rules_in.remove(p);
            },
            Direction::Out => {
                self.rules_out.remove(p);
            },
        }
        self.epoch = if self.epoch == u64::MAX {
            0
        } else {
            self.epoch + 1
        };
        self.ft_in.clear();
        self.ft_out.clear();
        true
    }

    /// Puts the rules of `in_rules` and of `out_rules` in the place of the rules that the
    /// layer has. The rules get new numbers, those towards the guest first, in the order of
    /// the lists. All flows of the layer are dropped, and the epoch moves on. Where the
    /// numbers would be used up nothing changes.
    pub fn set_rules(&mut self, in_rules: Vec<Rule>, out_rules: Vec<Rule>) -> (ok: bool)
        requires
            old(self).wf(),
        ensures
            final(self).wf(),
            ok == (old(self).next_id + in_rules@.len() + out_rules@.len() < u64::MAX),
            ok ==> old(self).replaced(*final(self), in_rules@, out_rules@),
            !ok ==> *final(self) == *old(self),
    {
        let n_in = in_rules.len();
        let n_out = out_rules.len();
        let room = u64::MAX - self.next_id;
        if n_in as u64 >= room || n_out as u64 >= room - n_in as u64 {
            return false;
        }
        let first_in = self.next_id;
        let first_out = self.next_id + n_in as u64;
        proof {
            lemma_built(in_rules@, first_in);
            lemma_built(out_rules@, first_out);
        }
        let a = build_rules(in_rules, first_in);
        let b = build_rules(out_rules, first_out);
        proof {
            assert forall|i: int, j: int| 0 <= i < j < (a@ + b@).len() implies (a@ + b@)[i].id != (a@ + b@)[j].id by {
                if j < a@.len() {
                    assert((a@ + b@)[i] == a@[i] && (a@ + b@)[j] == a@[j]);
                } else if i >= a@.len() {
                    assert((a@ + b@)[i] == b@[i - a@.len()] && (a@ + b@)[j] == b@[j - a@.len()]);
                } else {
                    assert((a@ + b@)[i] == a@[i] && (a@ + b@)[j] == b@[j - a@.len()]);
                    assert(a@[i].id < first_out);
                    assert(b@[j - a@.len()].id >= first_out);
                }
            }
            assert forall|i: int| 0 <= i < a@.len() implies 1 <= (#[trigger] a@[i]).id < first_out + n_out by {}
        }
        self.rules_in = a;
        self.rules_out = b;
        self.next_id = first_out + n_out as u64;
        self.epoch = if self.epoch == u64::MAX {
            0
        } else {
            self.epoch + 1
        };
        self.ft_in.clear();
        self.ft_out.clear();
        true
    }
}

/// A step that fails to answer a packet was decided by a rule, changes no header, tells
/// nothing of the answers and touches no flow.
pub proof fn lemma_hairpin_failed(
    rules: Seq<Rule>,
    actions: Seq<Action>,
    default: DefaultAction,
    dir: Direction,
    meta: PacketMeta,
    body: Seq<u8>,
    ameta: ActionMeta,
    v2p: Seq<V2pEntry>,
    now: Moment,
    fwd: Seq<FlowSlot<LayerFlow>>,
    fwd_limit: u32,
    rev: Seq<FlowSlot<LayerFlow>>,
    rev_limit: u32,
)
    ensures
        ({
            let st = step_in(rules, actions, default, dir, meta, body, ameta, v2p, now, fwd, fwd_limit, rev, rev_limit);
            st.kind is HairpinFailed ==> st.xform == HdrTransform::spec_identity() && st.dual is None && st.by_rule
                && !st.stateful
        }),
{
    reveal(step_in);
    reveal(act);
}

/// `same_pos` finds a position of the rules from `from` on that holds a rule that is the
/// same, or -1.
pub proof fn lemma_same_pos(rules: Seq<Rule>, rule: Rule, from: int)
    requires
        0 <= from,
    ensures
        same_pos(rules, rule, from) == -1 || (from <= same_pos(rules, rule, from) < rules.len()
            && rules[same_pos(rules, rule, from)].spec_same(rule)),
        same_pos(rules, rule, from) >= 0 ==> has_rule(rules, rules[same_pos(rules, rule, from)].id),
    decreases rules.len() - from,
{
    if from < rules.len() && !rules[from].spec_same(rule) {
        lemma_same_pos(rules, rule, from + 1);
    }
}

/// The flow of the answers to a packet that leaves a layer with the metadata `meta`.
pub open spec fn answer_flow(meta: PacketMeta) -> InnerFlowId {
    InnerFlowId::of(meta).spec_mirror()
}

/// Flows come in pairs. Where a layer installs a flow for a packet, the flow of the
/// answers is in the table of the other direction right after.
pub proof fn lemma_dual_installed(
    layer: Layer,
    dir: Direction,
    meta: PacketMeta,
    body: Seq<u8>,
    ameta: ActionMeta,
    v2p: Seq<V2pEntry>,
    now: Moment,
)
    requires
        layer.wf(),
        !has_flow(layer.flows(dir), InnerFlowId::of(meta)),
        layer.step(dir, meta, body, ameta, v2p, now).stateful,
    ensures
        has_flow(layer.step(dir, meta, body, ameta, v2p, now).fwd, InnerFlowId::of(meta)),
        has_flow(
            layer.step(dir, meta, body, ameta, v2p, now).rev,
            answer_flow(layer.step(dir, meta, body, ameta, v2p, now).xform.spec_run(meta)),
        ),
{
    reveal(step_in);
    reveal(act);
    let st = layer.step(dir, meta, body, ameta, v2p, now);
    let flow = InnerFlowId::of(meta);
    let fwd = layer.flows(dir);
    let rev = layer.flows(dir.spec_flip());
    let fwd_limit = match dir {
        Direction::In => layer.ft_in.limit,
        Direction::Out => layer.ft_out.limit,
    };
    let rev_limit = match dir {
        Direction::In => layer.ft_out.limit,
        Direction::Out => layer.ft_in.limit,
    };
    crate::transform::lemma_identity(HdrTransform::spec_identity(), meta);
    assert forall|key: InnerFlowId, v: LayerFlow|
        has_flow(#[trigger] after_insert(fwd, fwd_limit, key, v, now), key) by {
        lemma_after_insert_has(fwd, fwd_limit, key, v, now);
    }
    assert forall|key: InnerFlowId, v: LayerFlow|
        has_flow(#[trigger] after_insert(rev, rev_limit, key, v, now), key) by {
        lemma_after_insert_has(rev, rev_limit, key, v, now);
    }
}

/// No flow outlives its rule. After the rules of a layer were replaced, every flow of the
/// layer was decided by one of the new rules: there is no flow left.
pub proof fn lemma_set_rules_no_stale_flow(before: Layer, after: Layer, in_rules: Seq<Rule>, out_rules: Seq<Rule>)
    requires
        before.replaced(after, in_rules, out_rules),
    ensures
        flows_known(after.ft_in@, after.rules_in@, after.rules_out@),
        flows_known(after.ft_out@, after.rules_in@, after.rules_out@),
        after.rules_in@ == built(in_rules, before.next_id),
        after.rules_out@ == built(out_rules, (before.next_id + in_rules.len()) as u64),
{
}

/// In a well-formed layer, every flow was decided by a rule that the layer has.
pub proof fn lemma_flow_has_rule(layer: Layer, dir: Direction, i: int)
    requires
        layer.wf(),
        0 <= i < layer.flows(dir).len(),
    ensures
        has_rule(layer.rules_in@, layer.flows(dir)[i].entry.value.rule_id) || has_rule(
            layer.rules_out@,
            layer.flows(dir)[i].entry.value.rule_id,
        ),
{
}

/// A layer decides for the second packet of a flow as it decided for the first. Where a
/// layer has let a packet through, and its flows are as that step left them, the same
/// packet gets the same transformation and the same annotation again, at any later
/// moment.
pub proof fn lemma_step_again(
    before: Layer,
    after: Layer,
    dir: Direction,
    meta: PacketMeta,
    body: Seq<u8>,
    ameta: ActionMeta,
    v2p: Seq<V2pEntry>,
    t1: Moment,
    t2: Moment,
)
    requires
        before.wf(),
        before.step(dir, meta, body, ameta, v2p, t1).kind is Allow || before.step(
            dir,
            meta,
            body,
            ameta,
            v2p,
            t1,
        ).kind is Modified,
        before.with_flows(
            after,
            dir,
            before.step(dir, meta, body, ameta, v2p, t1).fwd,
            before.step(dir, meta, body, ameta, v2p, t1).rev,
        ),
    ensures
        after.step(dir, meta, body, ameta, v2p, t2).kind is Allow || after.step(
            dir,
            meta,
            body,
            ameta,
            v2p,
            t2,
        ).kind is Modified,
        after.step(dir, meta, body, ameta, v2p, t2).xform == before.step(dir, meta, body, ameta, v2p, t1).xform,
        after.step(dir, meta, body, ameta, v2p, t2).ameta == before.step(dir, meta, body, ameta, v2p, t1).ameta,
{
    match dir {
        Direction::In => lemma_step_in_again(
            before.rules_in@,
            before.actions@,
            before.default_in,
            dir,
            meta,
            body,
            ameta,
            v2p,
            t1,
            t2,
            before.ft_in@,
            before.ft_in.limit,
            before.ft_out@,
            before.ft_out.limit,
        ),
        Direction::Out => lemma_step_in_again(
            before.rules_out@,
            before.actions@,
            before.default_out,
            dir,
            meta,
            body,
            ameta,
            v2p,
            t1,
            t2,
            before.ft_out@,
            before.ft_out.limit,
            before.ft_in@,
            before.ft_in.limit,
        ),
    }
}

/// What [`lemma_step_again`] says, for the tables of one direction.
pub proof fn lemma_step_in_again(
    rules: Seq<Rule>,
    actions: Seq<Action>,
    default: DefaultAction,
    dir: Direction,
    meta: PacketMeta,
    body: Seq<u8>,
    ameta: ActionMeta,
    v2p: Seq<V2pEntry>,
    t1: Moment,
    t2: Moment,
    fwd: Seq<FlowSlot<LayerFlow>>,
    fwd_limit: u32,
    rev: Seq<FlowSlot<LayerFlow>>,
    rev_limit: u32,
)
    requires
        crate::flow_table::distinct_keys(fwd),
        step_in(rules, actions, default, dir, meta, body, ameta, v2p, t1, fwd, fwd_limit, rev, rev_limit).kind
            is Allow || step_in(
            rules,
            actions,
            default,
            dir,
            meta,
            body,
            ameta,
            v2p,
            t1,
            fwd,
            fwd_limit,
            rev,
            rev_limit,
        ).kind is Modified,
    ensures
        ({
            let st = step_in(rules, actions, default, dir, meta, body, ameta, v2p, t1, fwd, fwd_limit, rev, rev_limit);
            let again = step_in(
                rules,
                actions,
                default,
                dir,
                meta,
                body,
                ameta,
                v2p,
                t2,
                st.fwd,
                fwd_limit,
                st.rev,
                rev_limit,
            );
            &&& again.kind is Allow || again.kind is Modified
            &&& again.xform == st.xform
            &&& again.ameta == st.ameta
        }),
{
    reveal(step_in);
    reveal(act);
    let st = step_in(rules, actions, default, dir, meta, body, ameta, v2p, t1, fwd, fwd_limit, rev, rev_limit);
    let flow = InnerFlowId::of(meta);
    if slot_of(fwd, flow) >= 0 {
        crate::flow_table::lemma_after_hit_slot(fwd, flow, t1, flow);
        lemma_after_hit_values(fwd, flow, t1);
        lemma_slot_of(fwd, flow);
        let i = slot_of(fwd, flow);
        assert(st.fwd[i].entry.value == fwd[i].entry.value);
    } else {
        let k = first_match(rules, meta, body, 0);
        if k >= 0 {
            let a = resolve(actions, rules[k].action);
            let id = rules[k].id;
            match a {
                Action::StatefulAllow => {
                    let v = LayerFlow { rule_id: id, xform: HdrTransform::spec_identity() };
                    lemma_after_insert_has(fwd, fwd_limit, flow, v, t1);
                },
                Action::StatefulNat(n) => {
                    if nat_applies(dir, meta) && pick_port(fwd, n.port_start, n.port_end) is Some {
                        let x = n.spec_out_xform(pick_port(fwd, n.port_start, n.port_end)->Some_0);
                        let v = LayerFlow { rule_id: id, xform: x };
                        lemma_after_insert_has(fwd, fwd_limit, flow, v, t1);
                    }
                },
                _ => {},
            }
        }
    }
}

} // verus!
