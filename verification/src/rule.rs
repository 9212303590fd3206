//! Rules: predicates with a priority and an action.

use crate::flow_table::FlowState;
use crate::echo::HairpinAction;
use crate::snat::SNat4;
use crate::overlay::EncapAction;
use crate::packet::PacketMeta;
use crate::predicate::DataPredicate;
use crate::predicate::Predicate;
use crate::router::RouterAction;
use crate::transform::HdrTransform;
use crate::text::decimal;
use crate::text::push_decimal;
use vstd::prelude::*;
use vstd::string::StringExecFns;

verus! {

/// A transformation that needs no state.
#[derive(Clone, Copy, Debug, PartialEq, Eq, Structural)]
pub enum StaticAction {
    /// Put the encapsulation on.
    Encap(EncapAction),
    /// Take the encapsulation off.
    Decap,
}

/// What a rule does with the packets that meet its predicates.
#[derive(Clone, Copy, Debug, PartialEq, Eq, Structural)]
pub enum Action {
    /// Let the packet through.
    Allow,
    /// Drop the packet.
    Deny,
    /// Let the packet through, and with it the rest of its flow and the answers.
    StatefulAllow,
    /// Rewrite the source of the flow, and the destination of the answers back.
    StatefulNat(SNat4),
    /// Annotate the action metadata and let the packet through.
    Meta(RouterAction),
    /// Drop the packet and answer it.
    Hairpin(HairpinAction),
    /// Transform the headers in a way that depends on this packet only.
    Static(StaticAction),
    /// Do what the action with this index in the layer's own list of actions does.
    LayerAction(usize),
}

impl Action {
    /// A few words on the action, for tables that are shown to an operator.
    pub open spec fn text(self) -> Seq<char> {
        match self {
            Action::Allow => "allow"@,
            Action::Deny => "deny"@,
            Action::StatefulAllow => "stateful allow"@,
            Action::StatefulNat(_) => "snat"@,
            Action::Meta(r) => r.text(),
            Action::Hairpin(_) => "hairpin"@,
            Action::Static(StaticAction::Encap(_)) => "encap"@,
            Action::Static(StaticAction::Decap) => "decap"@,
            Action::LayerAction(i) => "action "@ + decimal(i as nat),
        }
    }

    /// A few words on the action.
    pub fn to_string(&self) -> (r: String)
        ensures
            r@ == self.text(),
    {
        match self {
            Action::Allow => "allow".to_owned(),
            Action::Deny => "deny".to_owned(),
            Action::StatefulAllow => "stateful allow".to_owned(),
            Action::StatefulNat(_) => "snat".to_owned(),
            Action::Meta(r) => r.to_string(),
            Action::Hairpin(_) => "hairpin".to_owned(),
            Action::Static(StaticAction::Encap(_)) => "encap".to_owned(),
            Action::Static(StaticAction::Decap) => "decap".to_owned(),
            Action::LayerAction(i) => {
                let mut out = "action ".to_owned();
                push_decimal(&mut out, *i as u64);
                out
            },
        }
    }
}

/// What a layer does where no rule matches.
#[derive(Clone, Copy, Debug, PartialEq, Eq, Structural)]
pub enum DefaultAction {
    Allow,
    Deny,
}

/// What a layer remembers of a flow: the rule that decided, and what is done to the
/// headers of the flow's packets.
#[derive(Clone, Copy, Debug, PartialEq, Eq, Structural)]
pub struct LayerFlow {
    pub rule_id: u64,
    pub xform: HdrTransform,
}

impl FlowState for LayerFlow {
    open spec fn spec_ttl_ms(&self, table_ttl_ms: u64) -> u64 {
        table_ttl_ms
    }

    open spec fn spec_summary(&self) -> Seq<char> {
        if self.xform.spec_is_identity() {
            "allow"@
        } else {
            "modify"@
        }
    }

    fn ttl_ms(&self, table_ttl_ms: u64) -> (r: u64) {
        table_ttl_ms
    }

    fn summary(&self) -> (r: String) {
        if self.xform.is_identity() {
            "allow".to_owned()
        } else {
            "modify".to_owned()
        }
    }
}

/// A rule. Among the rules of a layer a smaller priority number wins; among rules of one
/// priority the one that was added first.
#[derive(Debug)]
pub struct Rule {
    /// The number that the layer gave the rule; zero before the rule is added to a layer.
    pub id: u64,
    pub priority: u16,
    pub predicates: Vec<Predicate>,
    pub data_predicates: Vec<DataPredicate>,
    pub action: Action,
}

/// True when the headers `meta` meet every predicate of `preds`.
pub open spec fn all_match(preds: Seq<Predicate>, meta: PacketMeta) -> bool {
    forall|i: int| 0 <= i < preds.len() ==> (#[trigger] preds[i]).spec_is_match(meta)
}

/// True when the packet meets every data predicate of `preds`.
pub open spec fn all_data_match(preds: Seq<DataPredicate>, meta: PacketMeta, body: Seq<u8>) -> bool {
    forall|i: int| 0 <= i < preds.len() ==> (#[trigger] preds[i]).spec_is_match(meta, body)
}

/// True when the two lists ask the same, predicate by predicate.
pub open spec fn same_preds(a: Seq<Predicate>, b: Seq<Predicate>) -> bool {
    a.len() == b.len() && forall|i: int| 0 <= i < a.len() ==> (#[trigger] a[i]).spec_same(b[i])
}

/// True when `preds` and `data_preds` are what a rule with the action `action` has before
/// any predicate is added: the predicates that a hairpin has in any case, none otherwise.
pub open spec fn implicit_preds(action: Action, preds: Seq<Predicate>, data_preds: Seq<DataPredicate>) -> bool {
    match action {
        Action::Hairpin(HairpinAction::Echo4(r)) => r.implicit(preds, data_preds),
        _ => preds.len() == 0 && data_preds.len() == 0,
    }
}

impl Rule {
    /// True when the packet with the headers `meta` and the body `body` meets all
    /// predicates of the rule. A rule without predicates matches every packet.
    pub open spec fn spec_is_match(self, meta: PacketMeta, body: Seq<u8>) -> bool {
        all_match(self.predicates@, meta) && all_data_match(self.data_predicates@, meta, body)
    }

    /// True when `other` is the same rule but for its number: the same priority, the same
    /// predicates in the same order, the same action.
    pub open spec fn spec_same(self, other: Rule) -> bool {
        &&& self.priority == other.priority
        &&& self.action == other.action
        &&& same_preds(self.predicates@, other.predicates@)
        &&& self.data_predicates@ == other.data_predicates@
    }

    /// A rule with the priority `priority` and the action `action`, and with the
    /// predicates that the action has in any case.
    pub fn new(priority: u16, action: Action) -> (r: Rule)
        ensures
            r.id == 0,
            r.priority == priority,
            r.action == action,
            implicit_preds(action, r.predicates@, r.data_predicates@),
    {
        let (predicates, data_predicates) = match &action {
            Action::Hairpin(HairpinAction::Echo4(h)) => h.implicit_preds(),
            _ => (Vec::new(), Vec::new()),
        };
        Rule { id: 0, priority, predicates, data_predicates, action }
    }

    /// A rule without predicates: it matches every packet.
    pub fn match_any(priority: u16, action: Action) -> (r: Rule)
        ensures
            r.id == 0,
            r.priority == priority,
            r.action == action,
            r.predicates@.len() == 0,
            r.data_predicates@.len() == 0,
    {
        Rule { id: 0, priority, predicates: Vec::new(), data_predicates: Vec::new(), action }
    }

    /// Adds a predicate on the headers.
    pub fn add_predicate(&mut self, pred: Predicate)
        ensures
            final(self).predicates@ == old(self).predicates@.push(pred),
            final(self).id == old(self).id,
            final(self).priority == old(self).priority,
            final(self).action == old(self).action,
            final(self).data_predicates == old(self).data_predicates,
    {
        self.predicates.push(pred);
    }

    /// Adds a predicate on the body.
    pub fn add_data_predicate(&mut self, pred: DataPredicate)
        ensures
            final(self).data_predicates@ == old(self).data_predicates@.push(pred),
            final(self).id == old(self).id,
            final(self).priority == old(self).priority,
            final(self).action == old(self).action,
            final(self).predicates == old(self).predicates,
    {
        self.data_predicates.push(pred);
    }

    /// The rule, ready to be added to a layer.
    pub fn finalize(self) -> (r: Rule)
        ensures
            r == self,
    {
        self
    }

    /// True when the packet meets all predicates of the rule.
    pub fn is_match(&self, meta: &PacketMeta, body: &[u8]) -> (r: bool)
        ensures
            r == self.spec_is_match(*meta, body@),
    {
        let n = self.predicates.len();
        let mut i: usize = 0;
        while i < n
            invariant
                i <= n == self.predicates.len(),
                forall|k: int| 0 <= k < i ==> (#[trigger] self.predicates@[k]).spec_is_match(*meta),
            decreases n - i,
        {
            if !self.predicates[i].is_match(meta) {
                return false;
            }
            i = i + 1;
        }
        let m = self.data_predicates.len();
        let mut j: usize = 0;
        while j < m
            invariant
                j <= m == self.data_predicates.len(),
                all_match(self.predicates@, *meta),
                forall|k: int| 0 <= k < j ==> (#[trigger] self.data_predicates@[k]).spec_is_match(*meta, body@),
            decreases m - j,
        {
            if !self.data_predicates[j].is_match(meta, body) {
                return false;
            }
            j = j + 1;
        }
        true
    }

    /// True when `other` is the same rule but for its number.
    pub fn same_as(&self, other: &Rule) -> (r: bool)
        ensures
            r == self.spec_same(*other),
    {
        if self.priority != other.priority || self.action != other.action {
            return false;
        }
        if self.predicates.len() != other.predicates.len() {
            return false;
        }
        let n = self.predicates.len();
        let mut i: usize = 0;
        while i < n
            invariant
                i <= n == self.predicates.len(),
                n == other.predicates.len(),
                forall|k: int| 0 <= k < i ==> (#[trigger] self.predicates@[k]).spec_same(other.predicates@[k]),
            decreases n - i,
        {
            if !self.predicates[i].same_as(&other.predicates[i]) {
                return false;
            }
            i = i + 1;
        }
        if self.data_predicates.len() != other.data_predicates.len() {
            return false;
        }
        let m = self.data_predicates.len();
        let mut j: usize = 0;
        while j < m
            invariant
                j <= m == self.data_predicates.len(),
                m == other.data_predicates.len(),
                forall|k: int| 0 <= k < j ==> self.data_predicates@[k] == other.data_predicates@[k],
            decreases m - j,
        {
            if self.data_predicates[j] != other.data_predicates[j] {
                return false;
            }
            j = j + 1;
        }
        assert(self.data_predicates@ =~= other.data_predicates@);
        true
    }
}

} // verus!
