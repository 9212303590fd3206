//! What a port shows of itself to an operator.

use crate::api::Direction;
use crate::flow_table::FlowEntryDump;
use crate::flow_table::FlowSlot;
use crate::flow_table::FlowState;
use crate::layer::Layer;
use crate::packet::InnerFlowId;
use crate::port::layer_index;
use crate::port::OpteError;
use crate::port::Port;
use crate::rule::Rule;
use vstd::prelude::*;

verus! {

/// What is shown of a rule.
#[derive(Clone, Debug)]
pub struct RuleDump {
    pub priority: u16,
    pub predicates: Vec<String>,
    pub data_predicates: Vec<String>,
    pub action: String,
}

/// What is shown of a layer: its rules with their numbers, and its flows.
#[derive(Clone, Debug)]
pub struct DumpLayerResp {
    pub name: String,
    pub rules_in: Vec<(u64, RuleDump)>,
    pub rules_out: Vec<(u64, RuleDump)>,
    pub ft_in: Vec<(InnerFlowId, FlowEntryDump)>,
    pub ft_out: Vec<(InnerFlowId, FlowEntryDump)>,
}

/// What a list of layers shows of one layer.
#[derive(Clone, Debug)]
pub struct LayerDesc {
    pub name: String,
    pub rules_in: usize,
    pub rules_out: usize,
    /// The number of flows of both directions together.
    pub flows: u64,
}

/// The list of the layers of a port.
#[derive(Clone, Debug)]
pub struct ListLayersResp {
    pub layers: Vec<LayerDesc>,
}

/// What is shown of the unified flow tables of a port.
#[derive(Clone, Debug)]
pub struct DumpUftResp {
    pub in_limit: u32,
    pub in_num_flows: u32,
    pub in_flows: Vec<(InnerFlowId, FlowEntryDump)>,
    pub out_limit: u32,
    pub out_num_flows: u32,
    pub out_flows: Vec<(InnerFlowId, FlowEntryDump)>,
}

/// What is shown of the TCP connections of a port.
#[derive(Clone, Debug)]
pub struct DumpTcpFlowsResp {
    pub flows: Vec<(InnerFlowId, FlowEntryDump)>,
}

/// True when `d` shows the rule `r`: its priority, the texts of its predicates in their
/// order, and a few words on its action.
pub open spec fn shows_rule(d: RuleDump, r: Rule) -> bool {
    &&& d.priority == r.priority
    &&& d.action@ == r.action.text()
    &&& d.predicates@.len() == r.predicates@.len()
    &&& forall|i: int| 0 <= i < d.predicates@.len() ==> (#[trigger] d.predicates@[i])@ == r.predicates@[i].text()
    &&& d.data_predicates@.len() == r.data_predicates@.len()
    &&& forall|i: int|
        0 <= i < d.data_predicates@.len() ==> (#[trigger] d.data_predicates@[i])@ == r.data_predicates@[i].text()
}

/// True when `v` shows the rules `rules`, each with its number, in their order.
pub open spec fn shows_rules(v: Seq<(u64, RuleDump)>, rules: Seq<Rule>) -> bool {
    &&& v.len() == rules.len()
    &&& forall|i: int| 0 <= i < v.len() ==> (#[trigger] v[i]).0 == rules[i].id && shows_rule(v[i].1, rules[i])
}

/// True when `v` shows the flows `s`, in their order: each flow with its hits and a few
/// words on its state.
pub open spec fn shows_flows<V: FlowState>(v: Seq<(InnerFlowId, FlowEntryDump)>, s: Seq<FlowSlot<V>>) -> bool {
    &&& v.len() == s.len()
    &&& forall|i: int|
        0 <= i < v.len() ==> (#[trigger] v[i]).0 == s[i].key && v[i].1.hits == s[i].entry.hits
            && v[i].1.state_summary@ == s[i].entry.value.spec_summary()
}

/// True when `d` shows the layer `l`.
pub open spec fn shows_layer(d: DumpLayerResp, l: Layer) -> bool {
    &&& d.name@ == l.name@
    &&& shows_rules(d.rules_in@, l.rules_in@)
    &&& shows_rules(d.rules_out@, l.rules_out@)
    &&& shows_flows(d.ft_in@, l.ft_in@)
    &&& shows_flows(d.ft_out@, l.ft_out@)
}

/// True when `d` describes the layer `l` in a list.
pub open spec fn describes_layer(d: LayerDesc, l: Layer) -> bool {
    &&& d.name@ == l.name@
    &&& d.rules_in == l.rules_in@.len()
    &&& d.rules_out == l.rules_out@.len()
    &&& d.flows == l.ft_in@.len() + l.ft_out@.len()
}

impl Rule {
    /// What is shown of the rule.
    pub fn dump(&self) -> (r: RuleDump)
        ensures
            shows_rule(r, *self),
    {
        let mut predicates: Vec<String> = Vec::new();
        let n = self.predicates.len();
        let mut i: usize = 0;
        while i < n
            invariant
                i <= n == self.predicates.len(),
                predicates@.len() == i,
                forall|k: int| 0 <= k < i ==> (#[trigger] predicates@[k])@ == self.predicates@[k].text(),
            decreases n - i,
        {
            predicates.push(self.predicates[i].to_string());
            i = i + 1;
        }
        let mut data_predicates: Vec<String> = Vec::new();
        let m = self.data_predicates.len();
        let mut j: usize = 0;
        while j < m
            invariant
                j <= m == self.data_predicates.len(),
                data_predicates@.len() == j,
                forall|k: int| 0 <= k < j ==> (#[trigger] data_predicates@[k])@ == self.data_predicates@[k].text(),
            decreases m - j,
        {
            data_predicates.push(self.data_predicates[j].to_string());
            j = j + 1;
        }
        RuleDump { priority: self.priority, predicates, data_predicates, action: self.action.to_string() }
    }
}

// What is shown of the rules `rules`.
fn dump_rules(rules: &Vec<Rule>) -> (r: Vec<(u64, RuleDump)>)
    ensures
        shows_rules(r@, rules@),
{
    let mut out: Vec<(u64, RuleDump)> = Vec::new();
    let n = rules.len();
    let mut i: usize = 0;
    while i < n
        invariant
            i <= n == rules.len(),
            out@.len() == i,
            forall|k: int| 0 <= k < i ==> (#[trigger] out@[k]).0 == rules@[k].id && shows_rule(out@[k].1, rules@[k]),
        decreases n - i,
    {
        out.push((rules[i].id, rules[i].dump()));
        i = i + 1;
    }
    out
}

impl Layer {
    /// What is shown of the layer.
    pub fn dump(&self) -> (r: DumpLayerResp)
        ensures
            shows_layer(r, *self),
    {
        DumpLayerResp {
            name: self.name.clone(),
            rules_in: dump_rules(&self.rules_in),
            rules_out: dump_rules(&self.rules_out),
            ft_in: self.ft_in.dump(),
            ft_out: self.ft_out.dump(),
        }
    }

    /// What a list of layers shows of the layer.
    pub fn describe(&self) -> (r: LayerDesc)
        requires
            self.wf(),
        ensures
            describes_layer(r, *self),
    {
        let a = self.ft_in.len();
        let b = self.ft_out.len();
        let flows: u64 = a as u64 + b as u64;
        LayerDesc {
            name: self.name.clone(),
            rules_in: self.rules_in.len(),
            rules_out: self.rules_out.len(),
            flows,
        }
    }
}

impl Port {
    /// What is shown of the layer `name`; fails where there is no such layer.
    pub fn dump_layer(&self, name: &str) -> (r: Result<DumpLayerResp, OpteError>)
        ensures
            match r {
                Ok(d) => layer_index(self.layers@, name@, 0) >= 0 && shows_layer(
                    d,
                    self.layers@[layer_index(self.layers@, name@, 0)],
                ),
                Err(OpteError::LayerNotFound(n)) => layer_index(self.layers@, name@, 0) == -1 && n@ == name@,
                Err(_) => false,
            },
    {
        let n = self.layers.len();
        let mut i: usize = 0;
        while i < n
            invariant
                i <= n == self.layers.len(),
                layer_index(self.layers@, name@, 0) == layer_index(self.layers@, name@, i as int),
            decreases n - i,
        {
            if crate::text::str_eq(self.layers[i].name.as_str(), name) {
                return Ok(self.layers[i].dump());
            }
            i = i + 1;
        }
        Err(OpteError::LayerNotFound(name.to_owned()))
    }

    /// The list of the layers, in the order in which packets from the guest pass them.
    pub fn list_layers(&self) -> (r: ListLayersResp)
        requires
            self.wf(),
        ensures
            r.layers@.len() == self.layers@.len(),
            forall|i: int| 0 <= i < r.layers@.len() ==> describes_layer(#[trigger] r.layers@[i], self.layers@[i]),
    {
        let mut layers: Vec<LayerDesc> = Vec::new();
        let n = self.layers.len();
        let mut i: usize = 0;
        while i < n
            invariant
                i <= n == self.layers.len(),
                self.wf(),
                layers@.len() == i,
                forall|k: int| 0 <= k < i ==> describes_layer(#[trigger] layers@[k], self.layers@[k]),
            decreases n - i,
        {
            assert(self.layers@[i as int].wf());
            layers.push(self.layers[i].describe());
            i = i + 1;
        }
        ListLayersResp { layers }
    }

    /// What is shown of the unified flow tables.
    pub fn dump_uft(&self) -> (r: DumpUftResp)
        requires
            self.wf(),
        ensures
            r.in_limit == self.uft_in.limit,
            r.in_num_flows == self.uft_in@.len(),
            shows_flows(r.in_flows@, self.uft_in@),
            r.out_limit == self.uft_out.limit,
            r.out_num_flows == self.uft_out@.len(),
            shows_flows(r.out_flows@, self.uft_out@),
    {
        DumpUftResp {
            in_limit: self.uft_in.limit(),
            in_num_flows: self.uft_in.len() as u32,
            in_flows: self.uft_in.dump(),
            out_limit: self.uft_out.limit(),
            out_num_flows: self.uft_out.len() as u32,
            out_flows: self.uft_out.dump(),
        }
    }

    /// What is shown of the TCP connections.
    pub fn dump_tcp_flows(&self) -> (r: DumpTcpFlowsResp)
        ensures
            shows_flows(r.flows@, self.tcp_flows@),
    {
        DumpTcpFlowsResp { flows: self.tcp_flows.dump() }
    }

    /// The number of flows of the direction `dir` that the layer at the position `i` has.
    pub fn layer_flows(&self, i: usize, dir: Direction) -> (r: usize)
        requires
            i < self.layers@.len(),
        ensures
            r == self.layers@[i as int].flows(dir).len(),
    {
        self.layers[i].num_flows(dir)
    }
}

} // verus!
