//! Ports: the layers of a guest interface, its unified flow tables, and its life cycle.

use crate::addr::IpCidr;
use crate::addr::MacAddr;
use crate::api::Direction;
use crate::flow_table::live_at;
use crate::flow_table::FlowSlot;
use crate::flow_table::FlowState;
use crate::flow_table::FlowTable;
use crate::flow_table::FLOW_DEF_EXPIRE_SECS;
use crate::layer::next_epoch;
use crate::layer::same_pos;
use crate::layer::Layer;
use crate::packet::Packet;
use crate::packet::ParseError;
use crate::rule::Action;
use crate::rule::LayerFlow;
use crate::rule::Rule;
use crate::tcp_state::TcpFlowEntry;
use crate::text::str_eq;
use crate::time::Moment;
use crate::transform::HdrTransform;
use crate::vpc::VpcNetwork;
use crate::time::MILLIS_PER_SEC;
use vstd::prelude::*;

verus! {

/// The name under which the unified flow tables of a port are asked for.
pub const UFT_NAME: &'static str = "uft";

/// The largest number of layers that a port can have.
pub const MAX_LAYERS: usize = 64;

/// Where a port is in its life.
#[derive(Clone, Copy, Debug, PartialEq, Eq, Structural)]
pub enum PortState {
    /// The port is set up, or was reset, and takes no packets.
    Ready,
    /// The port takes packets.
    Running,
}

/// Why a packet was dropped.
#[derive(Clone, Debug, PartialEq, Eq)]
pub enum DropReason {
    /// The layer with this name denied the packet.
    Layer { name: String },
    /// The segment does not fit the state of its TCP connection.
    TcpErr,
    /// A rule asked for an answer to the packet, but the packet cannot be answered.
    HairpinGenFailed,
    /// The network personality took the packet and denied it.
    HandlePktDeny,
}

/// What became of a packet.
#[derive(Debug)]
pub enum ProcessResult {
    /// The packet goes on, with the headers that the layers gave it.
    Modified,
    /// The packet is dropped.
    Drop { reason: DropReason },
    /// The packet is dropped and this one is sent back.
    Hairpin(Packet),
}

/// The state that an operation needs, and the state that the port is in.
#[derive(Clone, Copy, Debug, PartialEq, Eq, Structural)]
pub struct BadState {
    pub expected: PortState,
    pub actual: PortState,
}

/// Why a packet was not processed.
#[derive(Clone, Debug, PartialEq, Eq)]
pub enum ProcessError {
    /// The port is not running.
    BadState(BadState),
    /// The packet could not be parsed.
    ParseErr(ParseError),
}

/// Why an administrative operation failed.
#[derive(Clone, Debug, PartialEq, Eq)]
pub enum OpteError {
    /// The layer `layer` cannot go where asked: no layer has the name `pos`.
    BadLayerPos { layer: String, pos: String },
    /// A layer of this name is there already.
    BadName,
    /// Packets for `dest` cannot be sent to `target`.
    InvalidRouterEntry { dest: IpCidr, target: String },
    /// There is no layer of this name.
    LayerNotFound(String),
    /// A bounded resource is used up; the number is its bound.
    MaxCapacity(u64),
    /// There is no rule with this number.
    RuleNotFound(u64),
}

/// Where a new layer goes among the layers of a port.
#[derive(Clone, Copy, Debug)]
pub enum Pos {
    /// Before the layer of this name.
    Before(&'static str),
    /// After the layer of this name.
    After(&'static str),
    /// Before all layers.
    First,
    /// After all layers.
    Last,
}

/// What a port remembers of a flow: what is done to the headers of its packets, and which
/// layers decided so by a rule.
#[derive(Clone, Copy, Debug, PartialEq, Eq, Structural)]
pub struct UftEntry {
    pub xform: HdrTransform,
    /// One bit for each layer; the bit of a layer is set where a rule of the layer decided.
    pub layers: u64,
}

impl FlowState for UftEntry {
    open spec fn spec_ttl_ms(&self, table_ttl_ms: u64) -> u64 {
        table_ttl_ms
    }

    open spec fn spec_summary(&self) -> Seq<char> {
        if self.xform.spec_is_identity() {
            "allow"@
        } else {
            "modify"@
        }
    }

    fn ttl_ms(&self, table_ttl_ms: u64) -> (r: u64) {
        table_ttl_ms
    }

    fn summary(&self) -> (r: String) {
        if self.xform.is_identity() {
            "allow".to_owned()
        } else {
            "modify".to_owned()
        }
    }
}

/// True when the bit of the layer `layer` is set in `mask`.
pub open spec fn spec_has_layer(mask: u64, layer: usize) -> bool {
    layer < MAX_LAYERS && (mask >> (layer as u64)) & 1 == 1
}

/// `mask` with the bit of the layer `layer` set.
pub open spec fn spec_with_layer(mask: u64, layer: usize) -> u64 {
    if layer < MAX_LAYERS {
        mask | (1u64 << (layer as u64))
    } else {
        mask
    }
}

/// True when the bit of the layer `layer` is set in `mask`.
pub fn has_layer(mask: u64, layer: usize) -> (r: bool)
    ensures
        r == spec_has_layer(mask, layer),
{
    layer < MAX_LAYERS && (mask >> (layer as u64)) & 1 == 1
}

/// `mask` with the bit of the layer `layer` set.
pub fn with_layer(mask: u64, layer: usize) -> (r: u64)
    ensures
        r == spec_with_layer(mask, layer),
{
    if layer < MAX_LAYERS {
        mask | (1u64 << (layer as u64))
    } else {
        mask
    }
}

/// Setting the bit of a layer sets that bit and no other.
pub proof fn lemma_with_layer(mask: u64, layer: usize, other: usize)
    requires
        layer < MAX_LAYERS,
    ensures
        spec_has_layer(spec_with_layer(mask, layer), layer),
        other != layer ==> spec_has_layer(spec_with_layer(mask, layer), other) == spec_has_layer(mask, other),
{
    let l = layer as u64;
    let o = other as u64;
    assert(((mask | (1u64 << l)) >> l) & 1 == 1) by (bit_vector)
        requires
            l < 64,
    ;
    if other != layer && other < MAX_LAYERS {
        assert(((mask | (1u64 << l)) >> o) & 1 == (mask >> o) & 1) by (bit_vector)
            requires
                l < 64,
                o < 64,
                l != o,
        ;
    }
}

/// The flows of `s` that the layer `layer` did not decide by a rule, in their order.
pub open spec fn without_layer(s: Seq<FlowSlot<UftEntry>>, layer: usize) -> Seq<FlowSlot<UftEntry>>
    decreases s.len(),
{
    if s.len() == 0 {
        Seq::empty()
    } else if spec_has_layer(s.last().entry.value.layers, layer) {
        without_layer(s.drop_last(), layer)
    } else {
        without_layer(s.drop_last(), layer).push(s.last())
    }
}

/// What is left by `without_layer` are flows of the table, each once, and none that the
/// layer decided.
pub proof fn lemma_without_layer(s: Seq<FlowSlot<UftEntry>>, layer: usize)
    ensures
        without_layer(s, layer).len() <= s.len(),
        crate::flow_table::distinct_keys(s) ==> crate::flow_table::distinct_keys(without_layer(s, layer)),
        forall|i: int|
            0 <= i < without_layer(s, layer).len() ==> s.contains(#[trigger] without_layer(s, layer)[i])
                && !spec_has_layer(without_layer(s, layer)[i].entry.value.layers, layer),
    decreases s.len(),
{
    if s.len() > 0 {
        let t = s.drop_last();
        lemma_without_layer(t, layer);
        let l = without_layer(s, layer);
        let lt = without_layer(t, layer);
        assert forall|i: int| 0 <= i < l.len() implies s.contains(#[trigger] l[i]) && !spec_has_layer(
            l[i].entry.value.layers,
            layer,
        ) by {
            if i < lt.len() {
                assert(t.contains(lt[i]));
                let j = choose|j: int| 0 <= j < t.len() && t[j] == lt[i];
                assert(s[j] == t[j]);
            } else {
                assert(s[s.len() - 1] == l[i]);
            }
        }
        if crate::flow_table::distinct_keys(s) {
            assert(crate::flow_table::distinct_keys(t)) by {
                assert forall|i: int, j: int| 0 <= i < j < t.len() implies t[i].key != t[j].key by {
                    assert(t[i] == s[i] && t[j] == s[j]);
                }
            }
            assert forall|i: int, j: int| 0 <= i < j < l.len() implies l[i].key != l[j].key by {
                if j == lt.len() {
                    assert(t.contains(lt[i]));
                    let a = choose|a: int| 0 <= a < t.len() && t[a] == lt[i];
                    assert(s[a] == t[a]);
                    assert(s[a].key != s[s.len() - 1].key);
                }
            }
        }
    }
}

// Takes out of `ft` the flows that the layer `layer` decided by a rule.
fn drop_layer(ft: &mut FlowTable<UftEntry>, layer: usize)
    requires
        old(ft).wf(),
    ensures
        final(ft).wf(),
        final(ft).limit == old(ft).limit,
        final(ft).ttl_ms == old(ft).ttl_ms,
        final(ft)@ == without_layer(old(ft)@, layer),
{
    let mut kept: Vec<FlowSlot<UftEntry>> = Vec::new();
    let n = ft.slots.len();
    let mut i: usize = 0;
    assert(ft@.take(0) =~= Seq::<FlowSlot<UftEntry>>::empty());
    while i < n
        invariant
            i <= n == ft.slots.len(),
            *ft == *old(ft),
            kept@ == without_layer(ft@.take(i as int), layer),
        decreases n - i,
    {
        proof {
            let t = ft@.take(i + 1);
            assert(t.drop_last() =~= ft@.take(i as int));
            assert(t.last() == ft@[i as int]);
        }
        let s = ft.slots[i];
        if !has_layer(s.entry.value.layers, layer) {
            kept.push(s);
        }
        i = i + 1;
    }
    proof {
        assert(ft@.take(n as int) =~= ft@);
        lemma_without_layer(ft@, layer);
    }
    ft.slots = kept;
}

/// The position of the first layer of `layers`, from `from` on, with the name `name`; -1
/// where there is none.
pub open spec fn layer_index(layers: Seq<Layer>, name: Seq<char>, from: int) -> int
    decreases layers.len() - from,
{
    if from >= layers.len() || from < 0 {
        -1
    } else if layers[from].name@ == name {
        from
    } else {
        layer_index(layers, name, from + 1)
    }
}

/// `layer_index` finds a position of the layers, or -1.
pub proof fn lemma_layer_index(layers: Seq<Layer>, name: Seq<char>, from: int)
    requires
        0 <= from,
    ensures
        layer_index(layers, name, from) == -1 || (from <= layer_index(layers, name, from) < layers.len()
            && layers[layer_index(layers, name, from)].name@ == name),
    decreases layers.len() - from,
{
    if from < layers.len() && layers[from].name@ != name {
        lemma_layer_index(layers, name, from + 1);
    }
}

// The position of the first layer with the name `name`.
fn find_layer(layers: &Vec<Layer>, name: &str) -> (r: Option<usize>)
    ensures
        match r {
            Some(i) => layer_index(layers@, name@, 0) == i && i < layers@.len(),
            None => layer_index(layers@, name@, 0) == -1,
        },
{
    let n = layers.len();
    let mut i: usize = 0;
    while i < n
        invariant
            i <= n == layers.len(),
            layer_index(layers@, name@, 0) == layer_index(layers@, name@, i as int),
        decreases n - i,
    {
        if str_eq(layers[i].name.as_str(), name) {
            return Some(i);
        }
        i = i + 1;
    }
    None
}

/// True when every layer of `layers` is well formed.
pub open spec fn layers_wf(layers: Seq<Layer>) -> bool {
    forall|i: int| 0 <= i < layers.len() ==> (#[trigger] layers[i]).wf()
}

/// A port in the making: layers are added in order, and rules to the layers.
#[derive(Debug)]
pub struct PortBuilder {
    pub name: String,
    pub mac: MacAddr,
    pub net: VpcNetwork,
    pub layers: Vec<Layer>,
}

/// The port of one guest interface.
#[derive(Debug)]
pub struct Port {
    pub name: String,
    pub mac: MacAddr,
    pub state: PortState,
    /// The layers, in the order in which packets from the guest pass them.
    pub layers: Vec<Layer>,
    /// The unified flow table of packets towards the guest.
    pub uft_in: FlowTable<UftEntry>,
    /// The unified flow table of packets from the guest.
    pub uft_out: FlowTable<UftEntry>,
    /// The TCP connections of the guest, by the flow as the guest sends it.
    pub tcp_flows: FlowTable<TcpFlowEntry>,
    /// How often the rules of the port have changed, counted around the clock of 64 bits.
    pub epoch: u64,
    pub net: VpcNetwork,
}

/// Where a layer goes that is added at `pos` to `layers`; none where `pos` names a layer
/// that is not there.
pub open spec fn place_of(layers: Seq<Layer>, pos: Pos) -> Option<int> {
    match pos {
        Pos::First => Some(0),
        Pos::Last => Some(layers.len() as int),
        Pos::Before(n) => if layer_index(layers, n@, 0) >= 0 {
            Some(layer_index(layers, n@, 0))
        } else {
            None
        },
        Pos::After(n) => if layer_index(layers, n@, 0) >= 0 {
            Some(layer_index(layers, n@, 0) + 1)
        } else {
            None
        },
    }
}

/// The name that `pos` refers to; empty where it refers to none.
pub open spec fn pos_name(pos: Pos) -> Seq<char> {
    match pos {
        Pos::Before(n) => n@,
        Pos::After(n) => n@,
        _ => Seq::empty(),
    }
}

/// True when `r` and `after` are what adding a layer with the name `name` at `pos` to the
/// port in the making `before` gives. The layer goes to its place among the layers. Where
/// a layer of that name is there already, where `pos` names a layer that is not there, or
/// where the port has all the layers that it can have, the layers stay as they are.
pub open spec fn layer_add_outcome(
    before: PortBuilder,
    after: PortBuilder,
    name: Seq<char>,
    pos: Pos,
    r: Result<(), OpteError>,
) -> bool {
    match r {
        Ok(_) => {
            let at = place_of(before.layers@, pos)->Some_0;
            &&& layer_index(before.layers@, name, 0) == -1
            &&& before.layers@.len() < MAX_LAYERS
            &&& place_of(before.layers@, pos) is Some
            &&& 0 <= at <= before.layers@.len()
            &&& after.layers@.len() == before.layers@.len() + 1
            &&& after.layers@[at].name@ == name
            &&& after.layers@ == before.layers@.insert(at, after.layers@[at])
        },
        Err(OpteError::BadName) => layer_index(before.layers@, name, 0) >= 0 && after.layers == before.layers,
        Err(OpteError::MaxCapacity(n)) => layer_index(before.layers@, name, 0) == -1 && before.layers@.len()
            >= MAX_LAYERS && n == MAX_LAYERS && after.layers == before.layers,
        Err(OpteError::BadLayerPos { layer: l, pos: p }) => layer_index(before.layers@, name, 0) == -1
            && before.layers@.len() < MAX_LAYERS && place_of(before.layers@, pos) is None && l@ == name && p@
            == pos_name(pos) && after.layers == before.layers,
        Err(_) => false,
    }
}

impl PortBuilder {
    /// Every layer is well formed, and there are no more layers than a port can have.
    pub open spec fn wf(self) -> bool {
        layers_wf(self.layers@) && self.layers@.len() <= MAX_LAYERS
    }

    /// A builder for the port `name` of the guest interface with the MAC address `mac` on
    /// the network `net`; no layers yet.
    pub fn new(name: &str, mac: MacAddr, net: VpcNetwork) -> (r: PortBuilder)
        ensures
            r.name@ == name@,
            r.mac == mac,
            r.net == net,
            r.layers@.len() == 0,
            r.wf(),
    {
        PortBuilder { name: name.to_owned(), mac, net, layers: Vec::new() }
    }

    /// The name of the port.
    pub fn name(&self) -> (r: &str)
        ensures
            r@ == self.name@,
    {
        self.name.as_str()
    }

    /// Adds `layer` at `pos`. Fails, and changes nothing, where a layer of that name is
    /// there already, where `pos` names a layer that is not there, or where the port has
    /// all the layers that it can have.
    pub fn add_layer(&mut self, layer: Layer, pos: Pos) -> (r: Result<(), OpteError>)
        requires
            old(self).wf(),
            layer.wf(),
        ensures
            final(self).wf(),
            final(self).name == old(self).name,
            final(self).mac == old(self).mac,
            final(self).net == old(self).net,
            layer_add_outcome(*old(self), *final(self), layer.name@, pos, r),
            r is Ok ==> final(self).layers@[place_of(old(self).layers@, pos)->Some_0] == layer,
    {
        proof {
            match pos {
                Pos::Before(n) => lemma_layer_index(self.layers@, n@, 0),
                Pos::After(n) => lemma_layer_index(self.layers@, n@, 0),
                _ => {},
            }
        }
        if find_layer(&self.layers, layer.name.as_str()).is_some() {
            return Err(OpteError::BadName);
        }
        if self.layers.len() >= MAX_LAYERS {
            return Err(OpteError::MaxCapacity(MAX_LAYERS as u64));
        }
        let place = match pos {
            Pos::First => 0,
            Pos::Last => self.layers.len(),
            Pos::Before(n) => match find_layer(&self.layers, n) {
                Some(i) => i,
                None => {
                    return Err(OpteError::BadLayerPos { layer: layer.name.clone(), pos: n.to_owned() });
                },
            },
            Pos::After(n) => match find_layer(&self.layers, n) {
                Some(i) => i + 1,
                None => {
                    return Err(OpteError::BadLayerPos { layer: layer.name.clone(), pos: n.to_owned() });
                },
            },
        };
        self.layers.insert(place, layer);
        proof {
            let before = old(self).layers@;
            let after = self.layers@;
            assert forall|i: int| 0 <= i < after.len() implies (#[trigger] after[i]).wf() by {
                if i < place {
                    assert(after[i] == before[i]);
                } else if i > place {
                    assert(after[i] == before[i - 1]);
                }
            }
        }
        Ok(())
    }

    /// A reference to the action with the index `idx` of the layer `layer_name`, for use in
    /// a rule; none where there is no such layer or no such action.
    pub fn layer_action(&self, layer_name: &str, idx: usize) -> (r: Option<Action>)
        ensures
            r == (if layer_index(self.layers@, layer_name@, 0) >= 0 && idx < self.layers@[layer_index(
                self.layers@,
                layer_name@,
                0,
            )].actions@.len() {
                Some(Action::LayerAction(idx))
            } else {
                None
            }),
    {
        match find_layer(&self.layers, layer_name) {
            Some(i) => self.layers[i].action(idx),
            None => None,
        }
    }

    /// Adds `rule` to the rules of the layer `layer_name` for the direction `dir`. Fails,
    /// and changes nothing, where there is no such layer or where the layer has used up
    /// its rule numbers.
    pub fn add_rule(&mut self, layer_name: &str, dir: Direction, rule: Rule) -> (r: Result<(), OpteError>)
        requires
            old(self).wf(),
        ensures
            final(self).wf(),
            final(self).name == old(self).name,
            final(self).mac == old(self).mac,
            final(self).net == old(self).net,
            final(self).layers@.len() == old(self).layers@.len(),
            match r {
                Ok(_) => {
                    let i = layer_index(old(self).layers@, layer_name@, 0);
                    &&& i >= 0
                    &&& old(self).layers@[i].added(final(self).layers@[i], dir, rule, old(self).layers@[i].next_id)
                    &&& forall|j: int|
                        0 <= j < old(self).layers@.len() && j != i ==> final(self).layers@[j] == old(self).layers@[j]
                },
                Err(OpteError::LayerNotFound(n)) => layer_index(old(self).layers@, layer_name@, 0) == -1 && n@
                    == layer_name@ && final(self).layers == old(self).layers,
                Err(OpteError::MaxCapacity(n)) => layer_index(old(self).layers@, layer_name@, 0) >= 0
                    && old(self).layers@[layer_index(old(self).layers@, layer_name@, 0)].next_id == u64::MAX
                    && n == u64::MAX && final(self).layers@ == old(self).layers@,
                Err(_) => false,
            },
    {
        let i = match find_layer(&self.layers, layer_name) {
            Some(i) => i,
            None => {
                return Err(OpteError::LayerNotFound(layer_name.to_owned()));
            },
        };
        match self.layers[i].add_rule(dir, rule) {
            Some(_) => Ok(()),
            None => {
                assert(self.layers@ =~= old(self).layers@);
                Err(OpteError::MaxCapacity(u64::MAX))
            },
        }
    }

    /// The port that has been built: not running yet, without flows. Its unified flow
    /// tables have room for `uft_limit` flows each, its table of TCP connections for
    /// `tcp_limit`. A flow expires when it has been idle for [`FLOW_DEF_EXPIRE_SECS`]
    /// seconds, unless the state of its connection says otherwise.
    pub fn create(self, uft_limit: u32, tcp_limit: u32) -> (r: Port)
        requires
            self.wf(),
            uft_limit >= 1,
            tcp_limit >= 1,
        ensures
            r.wf(),
            r.name == self.name,
            r.mac == self.mac,
            r.net == self.net,
            r.layers == self.layers,
            r.state == PortState::Ready,
            r.uft_in@.len() == 0,
            r.uft_out@.len() == 0,
            r.tcp_flows@.len() == 0,
            r.uft_in.limit == uft_limit,
            r.uft_out.limit == uft_limit,
            r.tcp_flows.limit == tcp_limit,
            r.uft_in.ttl_ms == FLOW_DEF_EXPIRE_SECS * MILLIS_PER_SEC,
            r.uft_out.ttl_ms == FLOW_DEF_EXPIRE_SECS * MILLIS_PER_SEC,
            r.tcp_flows.ttl_ms == FLOW_DEF_EXPIRE_SECS * MILLIS_PER_SEC,
            r.epoch == 0,
    {
        Port {
            name: self.name,
            mac: self.mac,
            state: PortState::Ready,
            layers: self.layers,
            uft_in: FlowTable::new(uft_limit, FLOW_DEF_EXPIRE_SECS),
            uft_out: FlowTable::new(uft_limit, FLOW_DEF_EXPIRE_SECS),
            tcp_flows: FlowTable::new(tcp_limit, FLOW_DEF_EXPIRE_SECS),
            epoch: 0,
            net: self.net,
        }
    }
}

impl Port {
    /// Every layer and every flow table is well formed, and there are no more layers than
    /// a port can have.
    pub open spec fn wf(self) -> bool {
        &&& layers_wf(self.layers@)
        &&& self.layers@.len() <= MAX_LAYERS
        &&& self.uft_in.wf()
        &&& self.uft_out.wf()
        &&& self.tcp_flows.wf()
    }

    /// True when `after` has what the port has apart from its state, its layers, its flows
    /// and its epoch.
    pub open spec fn same_frame(self, after: Port) -> bool {
        &&& after.name == self.name
        &&& after.mac == self.mac
        &&& after.net == self.net
        &&& after.layers@.len() == self.layers@.len()
        &&& after.uft_in.limit == self.uft_in.limit
        &&& after.uft_in.ttl_ms == self.uft_in.ttl_ms
        &&& after.uft_out.limit == self.uft_out.limit
        &&& after.uft_out.ttl_ms == self.uft_out.ttl_ms
        &&& after.tcp_flows.limit == self.tcp_flows.limit
        &&& after.tcp_flows.ttl_ms == self.tcp_flows.ttl_ms
    }

    /// The unified flow table of the direction `dir`.
    pub open spec fn uft(self, dir: Direction) -> Seq<FlowSlot<UftEntry>> {
        match dir {
            Direction::In => self.uft_in@,
            Direction::Out => self.uft_out@,
        }
    }

    /// The name of the port.
    pub fn name(&self) -> (r: &str)
        ensures
            r@ == self.name@,
    {
        self.name.as_str()
    }

    /// The MAC address of the guest interface.
    pub fn mac(&self) -> (r: MacAddr)
        ensures
            r == self.mac,
    {
        self.mac
    }

    /// Where the port is in its life.
    pub fn state(&self) -> (r: PortState)
        ensures
            r == self.state,
    {
        self.state
    }

    /// How often the rules of the port have changed.
    pub fn epoch(&self) -> (r: u64)
        ensures
            r == self.epoch,
    {
        self.epoch
    }

    /// Lets the port take packets. Nothing else changes.
    pub fn start(&mut self)
        ensures
            final(self).state == PortState::Running,
            old(self).same_frame(*final(self)),
            final(self).layers == old(self).layers,
            final(self).uft_in == old(self).uft_in,
            final(self).uft_out == old(self).uft_out,
            final(self).tcp_flows == old(self).tcp_flows,
            final(self).epoch == old(self).epoch,
    {
        self.state = PortState::Running;
    }

    /// True when `after` is this port after a reset: not running, without any flow, with
    /// the rules that it had.
    pub open spec fn was_reset(self, after: Port) -> bool {
        &&& after.state == PortState::Ready
        &&& self.same_frame(after)
        &&& after.epoch == self.epoch
        &&& after.uft_in@.len() == 0
        &&& after.uft_out@.len() == 0
        &&& after.tcp_flows@.len() == 0
        &&& forall|i: int|
            0 <= i < self.layers@.len() ==> (#[trigger] self.layers@[i]).with_flows(
                after.layers@[i],
                Direction::In,
                Seq::empty(),
                Seq::empty(),
            )
    }

    /// Stops the port and drops all its flows: those of the layers, the unified ones, and
    /// the TCP connections. The rules stay.
    pub fn reset(&mut self)
        requires
            old(self).wf(),
        ensures
            final(self).wf(),
            old(self).was_reset(*final(self)),
    {
        self.state = PortState::Ready;
        self.uft_in.clear();
        self.uft_out.clear();
        self.tcp_flows.clear();
        let n = self.layers.len();
        let mut i: usize = 0;
        while i < n
            invariant
                i <= n == self.layers@.len(),
                n == old(self).layers@.len(),
                layers_wf(self.layers@),
                self.name == old(self).name,
                self.mac == old(self).mac,
                self.net == old(self).net,
                self.epoch == old(self).epoch,
                self.state == PortState::Ready,
                self.uft_in == old(self).uft_in || self.uft_in@.len() == 0,
                self.uft_in@.len() == 0,
                self.uft_out@.len() == 0,
                self.tcp_flows@.len() == 0,
                self.uft_in.wf(),
                self.uft_out.wf(),
                self.tcp_flows.wf(),
                self.uft_in.limit == old(self).uft_in.limit,
                self.uft_in.ttl_ms == old(self).uft_in.ttl_ms,
                self.uft_out.limit == old(self).uft_out.limit,
                self.uft_out.ttl_ms == old(self).uft_out.ttl_ms,
                self.tcp_flows.limit == old(self).tcp_flows.limit,
                self.tcp_flows.ttl_ms == old(self).tcp_flows.ttl_ms,
                forall|j: int|
                    0 <= j < i ==> (#[trigger] old(self).layers@[j]).with_flows(
                        self.layers@[j],
                        Direction::In,
                        Seq::empty(),
                        Seq::empty(),
                    ),
                forall|j: int| i <= j < n ==> self.layers@[j] == old(self).layers@[j],
            decreases n - i,
        {
            let ghost before = self.layers@;
            self.layers[i].clear_flows();
            proof {
                assert forall|j: int| 0 <= j < n implies (#[trigger] self.layers@[j]).wf() by {
                    if j != i {
                        assert(self.layers@[j] == before[j]);
                    }
                }
            }
            i = i + 1;
        }
    }
}

impl Port {
    /// True when `after` is this port after the rules of the layer at position `i` have
    /// changed: the unified flows that the layer decided by a rule are gone, the epoch has
    /// moved on, and the other layers, the other unified flows and the TCP connections are
    /// as they were.
    pub open spec fn invalidated(self, after: Port, i: int) -> bool {
        &&& self.same_frame(after)
        &&& after.state == self.state
        &&& after.tcp_flows == self.tcp_flows
        &&& after.uft_in@ == without_layer(self.uft_in@, i as usize)
        &&& after.uft_out@ == without_layer(self.uft_out@, i as usize)
        &&& after.epoch == next_epoch(self.epoch)
        &&& forall|j: int| 0 <= j < self.layers@.len() && j != i ==> after.layers@[j] == self.layers@[j]
    }

    // Drops the unified flows that the layer at position `i` decided, and moves the epoch on.
    fn invalidate(&mut self, i: usize)
        requires
            old(self).uft_in.wf(),
            old(self).uft_out.wf(),
        ensures
            final(self).uft_in.wf(),
            final(self).uft_out.wf(),
            final(self).name == old(self).name,
            final(self).mac == old(self).mac,
            final(self).net == old(self).net,
            final(self).state == old(self).state,
            final(self).layers == old(self).layers,
            final(self).tcp_flows == old(self).tcp_flows,
            final(self).uft_in.limit == old(self).uft_in.limit,
            final(self).uft_in.ttl_ms == old(self).uft_in.ttl_ms,
            final(self).uft_out.limit == old(self).uft_out.limit,
            final(self).uft_out.ttl_ms == old(self).uft_out.ttl_ms,
            final(self).uft_in@ == without_layer(old(self).uft_in@, i),
            final(self).uft_out@ == without_layer(old(self).uft_out@, i),
            final(self).epoch == next_epoch(old(self).epoch),
    {
        drop_layer(&mut self.uft_in, i);
        drop_layer(&mut self.uft_out, i);
        self.epoch = if self.epoch == u64::MAX {
            0
        } else {
            self.epoch + 1
        };
    }

    /// Adds `rule` to the rules of the layer `layer_name` for the direction `dir`. The
    /// flows of the layer are dropped, and with them the unified flows that the layer
    /// decided by a rule. Fails, and changes nothing, where there is no such layer or
    /// where the layer has used up its rule numbers.
    pub fn add_rule(&mut self, layer_name: &str, dir: Direction, rule: Rule) -> (r: Result<(), OpteError>)
        requires
            old(self).wf(),
        ensures
            final(self).wf(),
            match r {
                Ok(_) => {
                    let i = layer_index(old(self).layers@, layer_name@, 0);
                    &&& i >= 0
                    &&& old(self).layers@[i].added(final(self).layers@[i], dir, rule, old(self).layers@[i].next_id)
                    &&& old(self).invalidated(*final(self), i)
                },
                Err(OpteError::LayerNotFound(n)) => layer_index(old(self).layers@, layer_name@, 0) == -1 && n@
                    == layer_name@ && *final(self) == *old(self),
                Err(OpteError::MaxCapacity(n)) => layer_index(old(self).layers@, layer_name@, 0) >= 0
                    && old(self).layers@[layer_index(old(self).layers@, layer_name@, 0)].next_id == u64::MAX
                    && n == u64::MAX && final(self).layers@ == old(self).layers@ && old(self).same_frame(*final(self)) && final(self).uft_in == old(self).uft_in && final(self).uft_out == old(self).uft_out
                    && final(self).tcp_flows == old(self).tcp_flows && final(self).epoch == old(self).epoch
                    && final(self).state == old(self).state,
                Err(_) => false,
            },
    {
        let i = match find_layer(&self.layers, layer_name) {
            Some(i) => i,
            None => {
                return Err(OpteError::LayerNotFound(layer_name.to_owned()));
            },
        };
        let ghost before = self.layers@;
        match self.layers[i].add_rule(dir, rule) {
            Some(_) => {
                proof {
                    assert forall|j: int| 0 <= j < self.layers@.len() implies (#[trigger] self.layers@[j]).wf() by {
                        if j != i {
                            assert(self.layers@[j] == before[j]);
                        }
                    }
                }
                self.invalidate(i);
                Ok(())
            },
            None => {
                assert(self.layers@ =~= old(self).layers@);
                Err(OpteError::MaxCapacity(u64::MAX))
            },
        }
    }

    /// Takes the rule with the number `id` out of the rules of the layer `layer_name` for
    /// the direction `dir`. The flows of the layer are dropped, and with them the unified
    /// flows that the layer decided by a rule. Fails, and changes nothing, where there is
    /// no such layer or no such rule.
    pub fn remove_rule(&mut self, layer_name: &str, dir: Direction, id: u64) -> (r: Result<(), OpteError>)
        requires
            old(self).wf(),
        ensures
            final(self).wf(),
            match r {
                Ok(_) => {
                    let i = layer_index(old(self).layers@, layer_name@, 0);
                    &&& i >= 0
                    &&& old(self).layers@[i].removed(final(self).layers@[i], dir, id)
                    &&& old(self).invalidated(*final(self), i)
                },
                Err(OpteError::LayerNotFound(n)) => layer_index(old(self).layers@, layer_name@, 0) == -1 && n@
                    == layer_name@ && *final(self) == *old(self),
                Err(OpteError::RuleNotFound(n)) => layer_index(old(self).layers@, layer_name@, 0) >= 0
                    && !crate::layer::has_rule(
                    old(self).layers@[layer_index(old(self).layers@, layer_name@, 0)].rules(dir),
                    id,
                ) && n == id && final(self).layers@ == old(self).layers@ && old(self).same_frame(*final(self))
                    && final(self).uft_in == old(self).uft_in && final(self).uft_out == old(self).uft_out
                    && final(self).tcp_flows == old(self).tcp_flows && final(self).epoch == old(self).epoch
                    && final(self).state == old(self).state,
                Err(_) => false,
            },
    {
        let i = match find_layer(&self.layers, layer_name) {
            Some(i) => i,
            None => {
                return Err(OpteError::LayerNotFound(layer_name.to_owned()));
            },
        };
        let ghost before = self.layers@;
        if self.layers[i].remove_rule(dir, id) {
            proof {
                assert forall|j: int| 0 <= j < self.layers@.len() implies (#[trigger] self.layers@[j]).wf() by {
                    if j != i {
                        assert(self.layers@[j] == before[j]);
                    }
                }
            }
            self.invalidate(i);
            Ok(())
        } else {
            assert(self.layers@ =~= old(self).layers@);
            Err(OpteError::RuleNotFound(id))
        }
    }

    /// Puts the rules of `in_rules` and of `out_rules` in the place of the rules of the
    /// layer `layer_name`. The flows of the layer are dropped, and with them the unified
    /// flows that the layer decided by a rule. Fails, and changes nothing, where there is
    /// no such layer or where the layer would use up its rule numbers.
    pub fn set_rules(&mut self, layer_name: &str, in_rules: Vec<Rule>, out_rules: Vec<Rule>) -> (r: Result<
        (),
        OpteError,
    >)
        requires
            old(self).wf(),
        ensures
            final(self).wf(),
            match r {
                Ok(_) => {
                    let i = layer_index(old(self).layers@, layer_name@, 0);
                    &&& i >= 0
                    &&& old(self).layers@[i].replaced(final(self).layers@[i], in_rules@, out_rules@)
                    &&& old(self).invalidated(*final(self), i)
                },
                Err(OpteError::LayerNotFound(n)) => layer_index(old(self).layers@, layer_name@, 0) == -1 && n@
                    == layer_name@ && *final(self) == *old(self),
                Err(OpteError::MaxCapacity(n)) => layer_index(old(self).layers@, layer_name@, 0) >= 0
                    && old(self).layers@[layer_index(old(self).layers@, layer_name@, 0)].next_id
                    + in_rules@.len() + out_rules@.len() >= u64::MAX && n == u64::MAX && final(self).layers@
                    == old(self).layers@ && old(self).same_frame(*final(self)) && final(self).uft_in == old(self).uft_in && final(self).uft_out == old(self).uft_out && final(self).tcp_flows == old(self).tcp_flows && final(self).epoch == old(self).epoch && final(self).state == old(self).state,
                Err(_) => false,
            },
    {
        let i = match find_layer(&self.layers, layer_name) {
            Some(i) => i,
            None => {
                return Err(OpteError::LayerNotFound(layer_name.to_owned()));
            },
        };
        let ghost before = self.layers@;
        if self.layers[i].set_rules(in_rules, out_rules) {
            proof {
                assert forall|j: int| 0 <= j < self.layers@.len() implies (#[trigger] self.layers@[j]).wf() by {
                    if j != i {
                        assert(self.layers@[j] == before[j]);
                    }
                }
            }
            self.invalidate(i);
            Ok(())
        } else {
            assert(self.layers@ =~= old(self).layers@);
            Err(OpteError::MaxCapacity(u64::MAX))
        }
    }

    /// The number of the first rule of the layer `layer_name` for the direction `dir` that
    /// is the same as `rule` but for its number; fails where there is no such layer.
    pub fn find_rule(&self, layer_name: &str, dir: Direction, rule: &Rule) -> (r: Result<Option<u64>, OpteError>)
        ensures
            match r {
                Ok(found) => {
                    let i = layer_index(self.layers@, layer_name@, 0);
                    let rules = self.layers@[i].rules(dir);
                    &&& i >= 0
                    &&& match found {
                        Some(id) => same_pos(rules, *rule, 0) >= 0 && rules[same_pos(rules, *rule, 0)].id == id,
                        None => same_pos(rules, *rule, 0) == -1,
                    }
                },
                Err(OpteError::LayerNotFound(n)) => layer_index(self.layers@, layer_name@, 0) == -1 && n@
                    == layer_name@,
                Err(_) => false,
            },
    {
        match find_layer(&self.layers, layer_name) {
            Some(i) => Ok(self.layers[i].find_rule(dir, rule)),
            None => Err(OpteError::LayerNotFound(layer_name.to_owned())),
        }
    }

    /// A reference to the action with the index `idx` of the layer `layer_name`, for use in
    /// a rule; none where there is no such layer or no such action.
    pub fn layer_action(&self, layer_name: &str, idx: usize) -> (r: Option<Action>)
        ensures
            r == (if layer_index(self.layers@, layer_name@, 0) >= 0 && idx < self.layers@[layer_index(
                self.layers@,
                layer_name@,
                0,
            )].actions@.len() {
                Some(Action::LayerAction(idx))
            } else {
                None
            }),
    {
        match find_layer(&self.layers, layer_name) {
            Some(i) => self.layers[i].action(idx),
            None => None,
        }
    }

    /// The number of rules of the layer `layer_name` for the direction `dir`; zero where
    /// there is no such layer.
    pub fn num_rules(&self, layer_name: &str, dir: Direction) -> (r: usize)
        ensures
            r == (if layer_index(self.layers@, layer_name@, 0) >= 0 {
                self.layers@[layer_index(self.layers@, layer_name@, 0)].rules(dir).len()
            } else {
                0
            }),
    {
        match find_layer(&self.layers, layer_name) {
            Some(i) => self.layers[i].num_rules(dir),
            None => 0,
        }
    }

    /// The number of flows of the direction `dir`: of the unified flow table under the
    /// name `uft`, else of the layer `name`; zero where there is no such layer.
    pub fn num_flows(&self, name: &str, dir: Direction) -> (r: usize)
        ensures
            r == (if name@ == UFT_NAME@ {
                self.uft(dir).len()
            } else if layer_index(self.layers@, name@, 0) >= 0 {
                self.layers@[layer_index(self.layers@, name@, 0)].flows(dir).len()
            } else {
                0
            }),
    {
        if str_eq(name, UFT_NAME) {
            return match dir {
                Direction::In => self.uft_in.len(),
                Direction::Out => self.uft_out.len(),
            };
        }
        match find_layer(&self.layers, name) {
            Some(i) => self.layers[i].num_flows(dir),
            None => 0,
        }
    }

    /// Drops all unified flows. Nothing else changes.
    pub fn clear_uft(&mut self)
        requires
            old(self).wf(),
        ensures
            final(self).wf(),
            old(self).same_frame(*final(self)),
            final(self).state == old(self).state,
            final(self).layers == old(self).layers,
            final(self).tcp_flows == old(self).tcp_flows,
            final(self).epoch == old(self).epoch,
            final(self).uft_in@.len() == 0,
            final(self).uft_out@.len() == 0,
    {
        self.uft_in.clear();
        self.uft_out.clear();
    }

    /// True when `after` is this port after the flows that were idle for their time to
    /// live at `now` were taken out: of every layer, of the unified flow tables, and of
    /// the TCP connections.
    pub open spec fn expired(self, after: Port, now: Moment) -> bool {
        &&& self.same_frame(after)
        &&& after.state == self.state
        &&& after.epoch == self.epoch
        &&& after.uft_in@ == live_at(self.uft_in@, now, self.uft_in.ttl_ms)
        &&& after.uft_out@ == live_at(self.uft_out@, now, self.uft_out.ttl_ms)
        &&& after.tcp_flows@ == live_at(self.tcp_flows@, now, self.tcp_flows.ttl_ms)
        &&& forall|i: int|
            0 <= i < self.layers@.len() ==> (#[trigger] self.layers@[i]).with_flows(
                after.layers@[i],
                Direction::In,
                live_at(self.layers@[i].ft_in@, now, self.layers@[i].ft_in.ttl_ms),
                live_at(self.layers@[i].ft_out@, now, self.layers@[i].ft_out.ttl_ms),
            )
    }

    /// Takes out the flows that have been idle for their time to live at `now`.
    pub fn expire_flows(&mut self, now: Moment)
        requires
            old(self).wf(),
        ensures
            final(self).wf(),
            old(self).expired(*final(self), now),
    {
        let _ = self.uft_in.expire(now);
        let _ = self.uft_out.expire(now);
        let _ = self.tcp_flows.expire(now);
        let n = self.layers.len();
        let mut i: usize = 0;
        while i < n
            invariant
                i <= n == self.layers@.len(),
                n == old(self).layers@.len(),
                layers_wf(self.layers@),
                self.name == old(self).name,
                self.mac == old(self).mac,
                self.net == old(self).net,
                self.epoch == old(self).epoch,
                self.state == old(self).state,
                self.uft_in.wf(),
                self.uft_out.wf(),
                self.tcp_flows.wf(),
                self.uft_in.limit == old(self).uft_in.limit,
                self.uft_in.ttl_ms == old(self).uft_in.ttl_ms,
                self.uft_out.limit == old(self).uft_out.limit,
                self.uft_out.ttl_ms == old(self).uft_out.ttl_ms,
                self.tcp_flows.limit == old(self).tcp_flows.limit,
                self.tcp_flows.ttl_ms == old(self).tcp_flows.ttl_ms,
                self.uft_in@ == live_at(old(self).uft_in@, now, old(self).uft_in.ttl_ms),
                self.uft_out@ == live_at(old(self).uft_out@, now, old(self).uft_out.ttl_ms),
                self.tcp_flows@ == live_at(old(self).tcp_flows@, now, old(self).tcp_flows.ttl_ms),
                forall|j: int|
                    0 <= j < i ==> (#[trigger] old(self).layers@[j]).with_flows(
                        self.layers@[j],
                        Direction::In,
                        live_at(old(self).layers@[j].ft_in@, now, old(self).layers@[j].ft_in.ttl_ms),
                        live_at(old(self).layers@[j].ft_out@, now, old(self).layers@[j].ft_out.ttl_ms),
                    ),
                forall|j: int| i <= j < n ==> self.layers@[j] == old(self).layers@[j],
            decreases n - i,
        {
            let ghost before = self.layers@;
            self.layers[i].expire_flows(now);
            proof {
                assert forall|j: int| 0 <= j < n implies (#[trigger] self.layers@[j]).wf() by {
                    if j != i {
                        assert(self.layers@[j] == before[j]);
                    }
                }
            }
            i = i + 1;
        }
    }
}

/// Expiry is idempotent. Where no packet comes in between, expiring the flows of a port at
/// one moment and again at a later moment, or at the same, leaves what expiring them at
/// the later moment alone leaves.
pub proof fn lemma_expire_flows_twice(start: Port, mid: Port, end: Port, t1: Moment, t2: Moment)
    requires
        t1@ <= t2@,
        start.expired(mid, t1),
        mid.expired(end, t2),
    ensures
        start.expired(end, t2),
{
    crate::flow_table::lemma_expire_twice(start.uft_in@, t1, t2, start.uft_in.ttl_ms);
    crate::flow_table::lemma_expire_twice(start.uft_out@, t1, t2, start.uft_out.ttl_ms);
    crate::flow_table::lemma_expire_twice(start.tcp_flows@, t1, t2, start.tcp_flows.ttl_ms);
    assert forall|i: int| 0 <= i < start.layers@.len() implies (#[trigger] start.layers@[i]).with_flows(
        end.layers@[i],
        Direction::In,
        live_at(start.layers@[i].ft_in@, t2, start.layers@[i].ft_in.ttl_ms),
        live_at(start.layers@[i].ft_out@, t2, start.layers@[i].ft_out.ttl_ms),
    ) by {
        let a = start.layers@[i];
        let b = mid.layers@[i];
        assert(a.with_flows(
            b,
            Direction::In,
            live_at(a.ft_in@, t1, a.ft_in.ttl_ms),
            live_at(a.ft_out@, t1, a.ft_out.ttl_ms),
        ));
        assert(b.with_flows(
            end.layers@[i],
            Direction::In,
            live_at(b.ft_in@, t2, b.ft_in.ttl_ms),
            live_at(b.ft_out@, t2, b.ft_out.ttl_ms),
        ));
        crate::flow_table::lemma_expire_twice(a.ft_in@, t1, t2, a.ft_in.ttl_ms);
        crate::flow_table::lemma_expire_twice(a.ft_out@, t1, t2, a.ft_out.ttl_ms);
    }
}

} // verus!
