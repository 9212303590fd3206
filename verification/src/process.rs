//! What a port does with a packet.

use crate::api::Direction;
use crate::flow_table::after_hit;
use crate::flow_table::after_insert;
use crate::flow_table::after_remove;
use crate::flow_table::has_flow;
use crate::flow_table::slot_of;
use crate::flow_table::FlowSlot;
use crate::headers::UlpMeta;
use crate::layer::Layer;
use crate::layer::LayerError;
use crate::layer::LayerResult;
use crate::layer::StepKind;
use crate::meta::ActionMeta;
use crate::meta::Meta;
use crate::overlay::V2pEntry;
use crate::overlay::Virt2Phys;
use crate::packet::InnerFlowId;
use crate::packet::Packet;
use crate::packet::PacketInfo;
use crate::packet::PacketMeta;
use crate::packet::ParseErrorView;
use crate::parsed::parse_spec;
use crate::parsed::ParsedPacket;
use crate::port::layers_wf;
use crate::port::spec_with_layer;
use crate::port::with_layer;
use crate::port::BadState;
use crate::port::DropReason;
use crate::port::Port;
use crate::port::PortState;
use crate::port::ProcessError;
use crate::port::ProcessResult;
use crate::port::UftEntry;
use crate::rule::LayerFlow;
use crate::tcp_state::tcp_after;
use crate::tcp_state::tcp_track;
use crate::tcp_state::tcp_verdict;
use crate::tcp_state::TcpFlowEntry;
use crate::tcp_state::TcpVerdict;
use crate::time::Moment;
use crate::transform::HdrTransform;
use crate::vpc::HdlPktAction;
use vstd::prelude::*;

verus! {

/// How a walk through the layers stands.
pub enum WalkKind {
    /// No layer has objected so far.
    Allowed,
    /// The layer at this position has denied the packet.
    Denied(int),
    /// A layer answers the packet.
    Hairpin,
    /// A layer wanted to answer the packet, but the packet cannot be answered.
    HairpinFailed,
}

/// A walk through the layers, as far as it has come.
pub struct Walk {
    pub kind: WalkKind,
    /// The metadata of the packet as the layers have left it.
    pub meta: PacketMeta,
    pub ameta: ActionMeta,
    /// All that the layers have done to the headers, as one transformation.
    pub xform: HdrTransform,
    /// All that the layers do to the headers of the answers, as one transformation.
    pub dual: HdrTransform,
    /// True when a flow of some layer decided or was installed.
    pub any_stateful: bool,
    /// True when every layer told what it does to the answers.
    pub all_stateful: bool,
    /// One bit for each layer where a rule decided.
    pub mask: u64,
    /// For each layer, its flows towards the guest.
    pub flows_in: Seq<Seq<FlowSlot<LayerFlow>>>,
    /// For each layer, its flows from the guest.
    pub flows_out: Seq<Seq<FlowSlot<LayerFlow>>>,
    /// The frame that answers the packet, where a layer answers it.
    pub reply: Seq<u8>,
}

/// The position of the layer that a packet in the direction `dir` passes as number `k`,
/// counted from zero, among `n` layers: packets from the guest pass the layers in their
/// order, packets towards the guest in the opposite order.
pub open spec fn walk_index(n: int, dir: Direction, k: int) -> int {
    match dir {
        Direction::Out => k,
        Direction::In => n - 1 - k,
    }
}

/// The mappings that the port was handed; none where it was handed none.
pub open spec fn v2p_of(meta: Meta) -> Seq<V2pEntry> {
    match meta.v2p {
        Some(v) => v@,
        None => Seq::empty(),
    }
}

/// The walk of a packet through the first `k` layers on its way.
///
/// Each layer sees the metadata as the layer before it left them. The walk ends at the
/// first layer that denies or answers the packet.
pub open spec fn walk(
    layers: Seq<Layer>,
    dir: Direction,
    meta: PacketMeta,
    body: Seq<u8>,
    v2p: Seq<V2pEntry>,
    now: Moment,
    k: nat,
) -> Walk
    decreases k,
{
    if k == 0 {
        Walk {
            kind: WalkKind::Allowed,
            meta,
            ameta: ActionMeta { router_target: None },
            xform: HdrTransform::spec_identity(),
            dual: HdrTransform::spec_identity(),
            any_stateful: false,
            all_stateful: true,
            mask: 0,
            flows_in: Seq::new(layers.len(), |i: int| layers[i].ft_in@),
            flows_out: Seq::new(layers.len(), |i: int| layers[i].ft_out@),
            reply: Seq::empty(),
        }
    } else {
        let w = walk(layers, dir, meta, body, v2p, now, (k - 1) as nat);
        if !(w.kind is Allowed) {
            w
        } else {
            let i = walk_index(layers.len() as int, dir, k - 1);
            let st = layers[i].step(dir, w.meta, body, w.ameta, v2p, now);
            Walk {
                kind: match st.kind {
                    StepKind::Allow => WalkKind::Allowed,
                    StepKind::Modified => WalkKind::Allowed,
                    StepKind::Deny => WalkKind::Denied(i),
                    StepKind::Hairpin => WalkKind::Hairpin,
                    StepKind::HairpinFailed => WalkKind::HairpinFailed,
                },
                meta: st.xform.spec_run(w.meta),
                ameta: st.ameta,
                xform: w.xform.spec_chain(st.xform),
                dual: match st.dual {
                    Some(d) => d.spec_chain(w.dual),
                    None => w.dual,
                },
                any_stateful: w.any_stateful || st.stateful,
                all_stateful: w.all_stateful && st.dual is Some,
                mask: if st.by_rule {
                    spec_with_layer(w.mask, i as usize)
                } else {
                    w.mask
                },
                flows_in: w.flows_in.update(
                    i,
                    match dir {
                        Direction::In => st.fwd,
                        Direction::Out => st.rev,
                    },
                ),
                flows_out: w.flows_out.update(
                    i,
                    match dir {
                        Direction::In => st.rev,
                        Direction::Out => st.fwd,
                    },
                ),
                reply: st.reply,
            }
        }
    }
}

/// A walk keeps one entry for each layer, and the flows of the layers that the packet has
/// not passed yet are as they were.
pub proof fn lemma_walk_flows(
    layers: Seq<Layer>,
    dir: Direction,
    meta: PacketMeta,
    body: Seq<u8>,
    v2p: Seq<V2pEntry>,
    now: Moment,
    k: nat,
)
    requires
        k <= layers.len(),
    ensures
        walk(layers, dir, meta, body, v2p, now, k).flows_in.len() == layers.len(),
        walk(layers, dir, meta, body, v2p, now, k).flows_out.len() == layers.len(),
        forall|m: int|
            k <= m < layers.len() ==> walk(layers, dir, meta, body, v2p, now, k).flows_in[#[trigger] walk_index(
                layers.len() as int,
                dir,
                m,
            )] == layers[walk_index(layers.len() as int, dir, m)].ft_in@ && walk(
                layers,
                dir,
                meta,
                body,
                v2p,
                now,
                k,
            ).flows_out[walk_index(layers.len() as int, dir, m)] == layers[walk_index(
                layers.len() as int,
                dir,
                m,
            )].ft_out@,
    decreases k,
{
    if k > 0 {
        lemma_walk_flows(layers, dir, meta, body, v2p, now, (k - 1) as nat);
    }
}

/// The keys of the flow of a packet in the three tables of a port. `pre` is the flow of
/// the packet as it came, `post` its flow as it leaves.
///
/// The unified flow table of each direction knows a flow as its packets come to the port.
/// The TCP connections are known by the flow as the guest sends it.
pub open spec fn out_key(dir: Direction, pre: InnerFlowId, post: InnerFlowId) -> InnerFlowId {
    match dir {
        Direction::Out => pre,
        Direction::In => post.spec_mirror(),
    }
}

/// The flow of the answers to a packet from the guest as they come to the port, or the
/// flow of a packet towards the guest as it came.
pub open spec fn in_key(dir: Direction, pre: InnerFlowId, post: InnerFlowId) -> InnerFlowId {
    match dir {
        Direction::Out => post.spec_mirror(),
        Direction::In => pre,
    }
}

/// How the last steps for a packet that the layers let through end.
pub enum FinKind {
    /// The packet goes on.
    Modified,
    /// The segment does not fit the state of its connection.
    TcpErr,
}

/// The tables of a port after the last steps for a packet.
pub struct Fin {
    pub kind: FinKind,
    pub uft_in: Seq<FlowSlot<UftEntry>>,
    pub uft_out: Seq<FlowSlot<UftEntry>>,
    pub tcp: Seq<FlowSlot<TcpFlowEntry>>,
}

/// The last steps for a packet that the layers let through, or that a unified flow let
/// through: a TCP segment is held against the state of its connection. A segment that does
/// not fit is dropped. Where the connection is over, the unified flows of both directions
/// go.
pub open spec fn finish(
    dir: Direction,
    pre: InnerFlowId,
    meta: PacketMeta,
    uft_in: Seq<FlowSlot<UftEntry>>,
    uft_out: Seq<FlowSlot<UftEntry>>,
    tcp: Seq<FlowSlot<TcpFlowEntry>>,
    tcp_limit: u32,
    now: Moment,
) -> Fin {
    let post = InnerFlowId::of(meta);
    match meta.inner.ulp {
        Some(UlpMeta::Tcp(t)) => {
            let key = out_key(dir, pre, post);
            match tcp_verdict(tcp, key, dir, t.flags) {
                TcpVerdict::Invalid => Fin { kind: FinKind::TcpErr, uft_in, uft_out, tcp },
                TcpVerdict::Close => Fin {
                    kind: FinKind::Modified,
                    uft_in: after_remove(uft_in, in_key(dir, pre, post)),
                    uft_out: after_remove(uft_out, out_key(dir, pre, post)),
                    tcp: tcp_after(tcp, tcp_limit, key, dir, t.flags, now),
                },
                TcpVerdict::Keep(_) => Fin {
                    kind: FinKind::Modified,
                    uft_in,
                    uft_out,
                    tcp: tcp_after(tcp, tcp_limit, key, dir, t.flags, now),
                },
            }
        },
        _ => Fin { kind: FinKind::Modified, uft_in, uft_out, tcp },
    }
}

/// The unified flow table of the direction `of` after a walk `w` of a packet with the flow
/// `pre` in the direction `dir` that the layers let through. Where a flow of some layer
/// took part, the packet's own direction learns the flow. Where every layer told what it
/// does to the answers, the other direction learns the flow of the answers.
pub open spec fn uft_after_walk(
    uft: Seq<FlowSlot<UftEntry>>,
    limit: u32,
    of: Direction,
    dir: Direction,
    pre: InnerFlowId,
    w: Walk,
    now: Moment,
) -> Seq<FlowSlot<UftEntry>> {
    if of == dir {
        if w.any_stateful {
            after_insert(uft, limit, pre, UftEntry { xform: w.xform, layers: w.mask }, now)
        } else {
            uft
        }
    } else {
        if w.any_stateful && w.all_stateful {
            after_insert(
                uft,
                limit,
                InnerFlowId::of(w.meta).spec_mirror(),
                UftEntry { xform: w.dual, layers: w.mask },
                now,
            )
        } else {
            uft
        }
    }
}

/// True when `r` says that the layer with the name `name` has dropped the packet.
pub open spec fn dropped_by(r: Result<ProcessResult, ProcessError>, name: Seq<char>) -> bool {
    r matches Ok(ProcessResult::Drop { reason: DropReason::Layer { name: n } }) && n@ == name
}

/// True when `r` says that the packet is answered with the frame `frame`.
pub open spec fn answered(r: Result<ProcessResult, ProcessError>, frame: Seq<u8>) -> bool {
    r matches Ok(ProcessResult::Hairpin(p)) && p@ == frame && p.wf()
}

impl Port {
    /// True when the layers of `after` are the layers of this port with the flows that the
    /// walk `w` left.
    pub open spec fn layers_walked(self, after: Port, w: Walk) -> bool {
        &&& after.layers@.len() == self.layers@.len()
        &&& forall|i: int|
            0 <= i < self.layers@.len() ==> (#[trigger] self.layers@[i]).with_flows(
                after.layers@[i],
                Direction::In,
                w.flows_in[i],
                w.flows_out[i],
            )
    }

    /// True when `after` has the tables `fin` and is the port apart from its layers and
    /// its tables.
    pub open spec fn tables_are(self, after: Port, fin: Fin) -> bool {
        &&& self.same_frame(after)
        &&& after.state == self.state
        &&& after.epoch == self.epoch
        &&& after.uft_in@ == fin.uft_in
        &&& after.uft_out@ == fin.uft_out
        &&& after.tcp_flows@ == fin.tcp
    }

    /// True when `after` has the tables of this port and is the port apart from its
    /// layers.
    pub open spec fn tables_kept(self, after: Port) -> bool {
        &&& self.same_frame(after)
        &&& after.state == self.state
        &&& after.epoch == self.epoch
        &&& after.uft_in@ == self.uft_in@
        &&& after.uft_out@ == self.uft_out@
        &&& after.tcp_flows@ == self.tcp_flows@
    }

    /// True when `r` and `pkt_after` are how the last steps `fin` end for the packet `pkt`
    /// with the metadata `meta`: the packet goes on with its headers written anew, or it
    /// is dropped as it is for TCP's sake.
    pub open spec fn finished(
        fin: Fin,
        pkt: ParsedPacket,
        meta: PacketMeta,
        pkt_after: ParsedPacket,
        r: Result<ProcessResult, ProcessError>,
    ) -> bool {
        match fin.kind {
            FinKind::TcpErr => pkt_after == (ParsedPacket { meta, ..pkt }) && r matches Ok(
                ProcessResult::Drop { reason: DropReason::TcpErr },
            ),
            FinKind::Modified => (ParsedPacket { meta, ..pkt }).emitted(pkt_after) && r matches Ok(
                ProcessResult::Modified,
            ),
        }
    }

    /// What processing a packet at `now` does to a running port whose unified flow table
    /// knows the flow of the packet: the flow counts a hit, the headers are transformed as
    /// the table says, and the layers are not asked.
    pub open spec fn replayed(
        self,
        after: Port,
        dir: Direction,
        pkt: ParsedPacket,
        pkt_after: ParsedPacket,
        now: Moment,
        r: Result<ProcessResult, ProcessError>,
    ) -> bool {
        let i = slot_of(self.uft(dir), InnerFlowId::of(pkt.meta));
        let x = self.uft(dir)[i].entry.value.xform;
        let meta = x.spec_run(pkt.meta);
        let fin = finish(
            dir,
            InnerFlowId::of(pkt.meta),
            meta,
            match dir {
                Direction::In => after_hit(self.uft_in@, InnerFlowId::of(pkt.meta), now),
                Direction::Out => self.uft_in@,
            },
            match dir {
                Direction::In => self.uft_out@,
                Direction::Out => after_hit(self.uft_out@, InnerFlowId::of(pkt.meta), now),
            },
            self.tcp_flows@,
            self.tcp_flows.limit,
            now,
        );
        &&& after.layers == self.layers
        &&& self.tables_are(after, fin)
        &&& Port::finished(fin, pkt, meta, pkt_after, r)
    }

    /// What processing a packet at `now` does to a running port whose unified flow table
    /// does not know the flow of the packet: the packet walks the layers. A layer that
    /// denies the packet, or answers it, ends the walk. A packet that all layers let
    /// through is remembered in the unified flow tables as [`uft_after_walk`] says.
    pub open spec fn walked(
        self,
        after: Port,
        dir: Direction,
        pkt: ParsedPacket,
        pkt_after: ParsedPacket,
        v2p: Seq<V2pEntry>,
        now: Moment,
        r: Result<ProcessResult, ProcessError>,
    ) -> bool {
        let w = walk(self.layers@, dir, pkt.meta, pkt.body(), v2p, now, self.layers@.len());
        &&& self.layers_walked(after, w)
        &&& match w.kind {
            WalkKind::Denied(i) => {
                &&& self.tables_kept(after)
                &&& pkt_after == (ParsedPacket { meta: w.meta, ..pkt })
                &&& dropped_by(r, self.layers@[i].name@)
            },
            WalkKind::Hairpin => {
                &&& self.tables_kept(after)
                &&& pkt_after == (ParsedPacket { meta: w.meta, ..pkt })
                &&& answered(r, w.reply)
            },
            WalkKind::HairpinFailed => {
                &&& self.tables_kept(after)
                &&& pkt_after == (ParsedPacket { meta: w.meta, ..pkt })
                &&& r matches Ok(ProcessResult::Drop { reason: DropReason::HairpinGenFailed })
            },
            WalkKind::Allowed => {
                let fin = finish(
                    dir,
                    InnerFlowId::of(pkt.meta),
                    w.meta,
                    uft_after_walk(self.uft_in@, self.uft_in.limit, Direction::In, dir, InnerFlowId::of(pkt.meta), w, now),
                    uft_after_walk(self.uft_out@, self.uft_out.limit, Direction::Out, dir, InnerFlowId::of(pkt.meta), w, now),
                    self.tcp_flows@,
                    self.tcp_flows.limit,
                    now,
                );
                self.tables_are(after, fin) && Port::finished(fin, pkt, w.meta, pkt_after, r)
            },
        }
    }

    /// What processing the packet `pkt` in the direction `dir` at `now` does.
    ///
    /// A port that is not running refuses the packet. A packet without an inner IP header
    /// goes to the network personality, which answers it or has it dropped. Any other
    /// packet is transformed as the unified flow table says, where the table knows its
    /// flow, and walks the layers where it does not.
    pub open spec fn processed(
        self,
        after: Port,
        dir: Direction,
        pkt: ParsedPacket,
        pkt_after: ParsedPacket,
        v2p: Seq<V2pEntry>,
        now: Moment,
        r: Result<ProcessResult, ProcessError>,
    ) -> bool {
        if self.state != PortState::Running {
            after == self && pkt_after == pkt && r == Err::<ProcessResult, ProcessError>(
                ProcessError::BadState(BadState { expected: PortState::Running, actual: self.state }),
            )
        } else if pkt.meta.inner.ip is None {
            after == self && pkt_after == pkt && match self.net.spec_reply(dir, pkt) {
                Some(frame) => answered(r, frame),
                None => r matches Ok(ProcessResult::Drop { reason: DropReason::HandlePktDeny }),
            }
        } else if slot_of(self.uft(dir), InnerFlowId::of(pkt.meta)) >= 0 {
            self.replayed(after, dir, pkt, pkt_after, now, r)
        } else {
            self.walked(after, dir, pkt, pkt_after, v2p, now, r)
        }
    }
}

// How a walk through the layers ended.
enum WalkEnd {
    Allowed,
    Denied(usize),
    Hairpin(Packet),
    HairpinFailed,
}

// What a walk through the layers hands back.
struct WalkOut {
    end: WalkEnd,
    xform: HdrTransform,
    dual: HdrTransform,
    any_stateful: bool,
    all_stateful: bool,
    mask: u64,
}

// True when `out` is what the walk `w` says.
spec fn walk_out_is(out: WalkOut, w: Walk) -> bool {
    &&& out.xform == w.xform
    &&& out.dual == w.dual
    &&& out.any_stateful == w.any_stateful
    &&& out.all_stateful == w.all_stateful
    &&& out.mask == w.mask
    &&& match out.end {
        WalkEnd::Allowed => w.kind is Allowed,
        WalkEnd::Denied(i) => w.kind == WalkKind::Denied(i as int),
        WalkEnd::Hairpin(p) => w.kind is Hairpin && p@ == w.reply && p.wf(),
        WalkEnd::HairpinFailed => w.kind is HairpinFailed,
    }
}

impl Port {
    // Walks the packet through the layers.
    fn walk_layers(&mut self, dir: Direction, pkt: &mut ParsedPacket, v2p: &Virt2Phys, now: Moment) -> (out: WalkOut)
        requires
            old(self).wf(),
            old(pkt).wf(),
        ensures
            final(self).wf(),
            final(pkt).wf(),
            old(self).tables_kept(*final(self)),
            ({
                let w = walk(
                    old(self).layers@,
                    dir,
                    old(pkt).meta,
                    old(pkt).body(),
                    v2p@,
                    now,
                    old(self).layers@.len(),
                );
                &&& old(self).layers_walked(*final(self), w)
                &&& *final(pkt) == (ParsedPacket { meta: w.meta, ..*old(pkt) })
                &&& walk_out_is(out, w)
                &&& (out.end matches WalkEnd::Denied(i) ==> i < old(self).layers@.len())
            }),
    {
        let n = self.layers.len();
        let mut k: usize = 0;
        let mut ameta = ActionMeta::new();
        let mut xform = HdrTransform::identity();
        let mut dual = HdrTransform::identity();
        let mut any_stateful = false;
        let mut all_stateful = true;
        let mut mask: u64 = 0;
        let ghost layers0 = self.layers@;
        let ghost meta0 = pkt.meta;
        let ghost body = pkt.body();
        let ghost mut w = walk(layers0, dir, meta0, body, v2p@, now, 0);
        while k < n
            invariant
                k <= n == self.layers@.len(),
                layers0 == old(self).layers@,
                n == layers0.len(),
                n <= crate::port::MAX_LAYERS,
                meta0 == old(pkt).meta,
                body == old(pkt).body(),
                layers_wf(self.layers@),
                old(self).tables_kept(*self),
                self.uft_in.wf(),
                self.uft_out.wf(),
                self.tcp_flows.wf(),
                pkt.wf(),
                w == walk(layers0, dir, meta0, body, v2p@, now, k as nat),
                w.kind is Allowed,
                *pkt == (ParsedPacket { meta: w.meta, ..*old(pkt) }),
                ameta == w.ameta,
                xform == w.xform,
                dual == w.dual,
                any_stateful == w.any_stateful,
                all_stateful == w.all_stateful,
                mask == w.mask,
                w.flows_in.len() == n,
                w.flows_out.len() == n,
                forall|i: int|
                    0 <= i < n ==> (#[trigger] layers0[i]).with_flows(
                        self.layers@[i],
                        Direction::In,
                        w.flows_in[i],
                        w.flows_out[i],
                    ),
            decreases n - k,
        {
            let idx = match dir {
                Direction::Out => k,
                Direction::In => n - 1 - k,
            };
            let ghost before = self.layers@;
            let ghost w0 = w;
            proof {
                lemma_walk_flows(layers0, dir, meta0, body, v2p@, now, k as nat);
                assert(idx == walk_index(n as int, dir, k as int));
                assert(pkt.body() == body);
                assert(layers0[idx as int].with_flows(before[idx as int], Direction::In, w.flows_in[idx as int], w.flows_out[idx as int]));
                assert(before[idx as int].step(dir, pkt.meta, pkt.body(), ameta, v2p@, now) == layers0[idx as int].step(
                    dir,
                    w.meta,
                    body,
                    w.ameta,
                    v2p@,
                    now,
                ));
                w = walk(layers0, dir, meta0, body, v2p@, now, (k + 1) as nat);
                lemma_walk_flows(layers0, dir, meta0, body, v2p@, now, (k + 1) as nat);
            }
            let res = self.layers[idx].process(dir, pkt, &mut ameta, v2p, now);
            proof {
                assert forall|j: int| 0 <= j < n implies (#[trigger] self.layers@[j]).wf() by {
                    if j != idx {
                        assert(self.layers@[j] == before[j]);
                    }
                }
                assert forall|i: int| 0 <= i < n implies (#[trigger] layers0[i]).with_flows(
                    self.layers@[i],
                    Direction::In,
                    w.flows_in[i],
                    w.flows_out[i],
                ) by {
                    if i != idx {
                        assert(self.layers@[i] == before[i]);
                        assert(layers0[i].with_flows(before[i], Direction::In, w0.flows_in[i], w0.flows_out[i]));
                    }
                }
            }
            let outcome = match res {
                Err(LayerError::HairpinGenFailed) => {
                    proof {
                        lemma_walk_stops(layers0, dir, meta0, body, v2p@, now, (k + 1) as nat, n as nat);
                        let l = layers0[idx as int];
                        match dir {
                            Direction::In => crate::layer::lemma_hairpin_failed(
                                l.rules_in@,
                                l.actions@,
                                l.default_in,
                                dir,
                                w0.meta,
                                body,
                                w0.ameta,
                                v2p@,
                                now,
                                l.ft_in@,
                                l.ft_in.limit,
                                l.ft_out@,
                                l.ft_out.limit,
                            ),
                            Direction::Out => crate::layer::lemma_hairpin_failed(
                                l.rules_out@,
                                l.actions@,
                                l.default_out,
                                dir,
                                w0.meta,
                                body,
                                w0.ameta,
                                v2p@,
                                now,
                                l.ft_out@,
                                l.ft_out.limit,
                                l.ft_in@,
                                l.ft_in.limit,
                            ),
                        }
                        crate::transform::lemma_identity(xform, w0.meta);
                    }
                    return WalkOut {
                        end: WalkEnd::HairpinFailed,
                        xform,
                        dual,
                        any_stateful,
                        all_stateful: false,
                        mask: with_layer(mask, idx),
                    };
                },
                Ok(o) => o,
            };
            let ghost xform_before = xform;
            let ghost dual_before = dual;
            let ghost any_before = any_stateful;
            let ghost all_before = all_stateful;
            let ghost mask_before = mask;
            xform = xform.chain(&outcome.xform);
            dual = match &outcome.dual {
                Some(d) => d.chain(&dual),
                None => dual,
            };
            any_stateful = any_stateful || outcome.stateful;
            all_stateful = all_stateful && outcome.dual.is_some();
            if outcome.by_rule {
                mask = with_layer(mask, idx);
            }
            match outcome.result {
                LayerResult::Allow => {},
                LayerResult::Modified => {},
                LayerResult::Deny => {
                    proof {
                        lemma_walk_stops(layers0, dir, meta0, body, v2p@, now, (k + 1) as nat, n as nat);
                    }
                    return WalkOut { end: WalkEnd::Denied(idx), xform, dual, any_stateful, all_stateful, mask };
                },
                LayerResult::Hairpin(p) => {
                    proof {
                        lemma_walk_stops(layers0, dir, meta0, body, v2p@, now, (k + 1) as nat, n as nat);
                    }
                    return WalkOut { end: WalkEnd::Hairpin(p), xform, dual, any_stateful, all_stateful, mask };
                },
            }
            k = k + 1;
        }
        WalkOut { end: WalkEnd::Allowed, xform, dual, any_stateful, all_stateful, mask }
    }
}

/// A walk that a layer has ended stays as it is, however many layers are left.
pub proof fn lemma_walk_stops(
    layers: Seq<Layer>,
    dir: Direction,
    meta: PacketMeta,
    body: Seq<u8>,
    v2p: Seq<V2pEntry>,
    now: Moment,
    k: nat,
    n: nat,
)
    requires
        k <= n,
        !(walk(layers, dir, meta, body, v2p, now, k).kind is Allowed),
    ensures
        walk(layers, dir, meta, body, v2p, now, n) == walk(layers, dir, meta, body, v2p, now, k),
    decreases n - k,
{
    if k < n {
        lemma_walk_stops(layers, dir, meta, body, v2p, now, k, (n - 1) as nat);
    }
}

impl Port {
    // The last steps for a packet that is let through.
    fn finish_packet(&mut self, dir: Direction, pre: InnerFlowId, pkt: &mut ParsedPacket, now: Moment) -> (r: Result<
        ProcessResult,
        ProcessError,
    >)
        requires
            old(self).wf(),
            old(pkt).wf(),
        ensures
            final(self).wf(),
            final(self).layers == old(self).layers,
            ({
                let fin = finish(
                    dir,
                    pre,
                    old(pkt).meta,
                    old(self).uft_in@,
                    old(self).uft_out@,
                    old(self).tcp_flows@,
                    old(self).tcp_flows.limit,
                    now,
                );
                &&& old(self).tables_are(*final(self), fin)
                &&& Port::finished(fin, *old(pkt), old(pkt).meta, *final(pkt), r)
            }),
    {
        let post = InnerFlowId::from_meta(&pkt.meta);
        match pkt.meta.inner.ulp {
            Some(UlpMeta::Tcp(t)) => {
                let (okey, ikey) = match dir {
                    Direction::Out => (pre, post.mirror()),
                    Direction::In => (post.mirror(), pre),
                };
                match tcp_track(&mut self.tcp_flows, okey, dir, t.flags, now) {
                    TcpVerdict::Invalid => {
                        return Ok(ProcessResult::Drop { reason: DropReason::TcpErr });
                    },
                    TcpVerdict::Close => {
                        let _ = self.uft_in.remove(&ikey);
                        let _ = self.uft_out.remove(&okey);
                    },
                    TcpVerdict::Keep(_) => {},
                }
            },
            _ => {},
        }
        pkt.emit_headers();
        Ok(ProcessResult::Modified)
    }

    /// Processes the packet `pkt` in the direction `dir` at the moment `now`, as
    /// [`Port::processed`] says. `meta` holds the resources that the layers need: the
    /// virtual-to-physical mappings.
    pub fn process_at(&mut self, dir: Direction, pkt: &mut ParsedPacket, meta: &Meta, now: Moment) -> (r: Result<
        ProcessResult,
        ProcessError,
    >)
        requires
            old(self).wf(),
            old(pkt).wf(),
        ensures
            final(self).wf(),
            old(self).processed(*final(self), dir, *old(pkt), *final(pkt), v2p_of(*meta), now, r),
    {
        if self.state != PortState::Running {
            return Err(ProcessError::BadState(BadState { expected: PortState::Running, actual: self.state }));
        }
        if pkt.meta.inner.ip.is_none() {
            return match self.net.handle_pkt(dir, pkt) {
                Ok(HdlPktAction::Hairpin(hp)) => Ok(ProcessResult::Hairpin(hp)),
                _ => Ok(ProcessResult::Drop { reason: DropReason::HandlePktDeny }),
            };
        }
        let pre = InnerFlowId::from_meta(&pkt.meta);
        let hit = match dir {
            Direction::In => self.uft_in.get(&pre, now),
            Direction::Out => self.uft_out.get(&pre, now),
        };
        match hit {
            Some(i) => {
                let x = match dir {
                    Direction::In => self.uft_in.entry_at(i).value.xform,
                    Direction::Out => self.uft_out.entry_at(i).value.xform,
                };
                x.run(&mut pkt.meta);
                return self.finish_packet(dir, pre, pkt, now);
            },
            None => {},
        }
        let empty = Virt2Phys::new();
        let v2p: &Virt2Phys = match &meta.v2p {
            Some(v) => v,
            None => &empty,
        };
        let ghost pkt0 = *pkt;
        let out = self.walk_layers(dir, pkt, v2p, now);
        let ghost w = walk(old(self).layers@, dir, pkt0.meta, pkt0.body(), v2p@, now, old(self).layers@.len());
        match out.end {
            WalkEnd::Denied(i) => {
                let name = self.layers[i].name.clone();
                assert(old(self).layers@[i as int].with_flows(
                    self.layers@[i as int],
                    Direction::In,
                    w.flows_in[i as int],
                    w.flows_out[i as int],
                ));
                let r = Ok(ProcessResult::Drop { reason: DropReason::Layer { name } });
                assert(dropped_by(r, old(self).layers@[i as int].name@));
                return r;
            },
            WalkEnd::Hairpin(p) => {
                let r = Ok(ProcessResult::Hairpin(p));
                assert(answered(r, w.reply));
                return r;
            },
            WalkEnd::HairpinFailed => {
                return Ok(ProcessResult::Drop { reason: DropReason::HairpinGenFailed });
            },
            WalkEnd::Allowed => {},
        }
        if out.any_stateful {
            let entry = UftEntry { xform: out.xform, layers: out.mask };
            match dir {
                Direction::In => self.uft_in.insert(pre, entry, now),
                Direction::Out => self.uft_out.insert(pre, entry, now),
            }
            if out.all_stateful {
                let back = InnerFlowId::from_meta(&pkt.meta).mirror();
                let answer = UftEntry { xform: out.dual, layers: out.mask };
                match dir {
                    Direction::In => self.uft_out.insert(back, answer, now),
                    Direction::Out => self.uft_in.insert(back, answer, now),
                }
            }
        }
        self.finish_packet(dir, pre, pkt, now)
    }

    /// Processes the packet `pkt` in the direction `dir` at the present moment, as
    /// [`Port::process_at`] does at a given one.
    pub fn process(&mut self, dir: Direction, pkt: &mut ParsedPacket, meta: &Meta) -> (r: Result<
        ProcessResult,
        ProcessError,
    >)
        requires
            old(self).wf(),
            old(pkt).wf(),
        ensures
            final(self).wf(),
            exists|now: Moment|
                old(self).processed(*final(self), dir, *old(pkt), *final(pkt), v2p_of(*meta), now, r),
    {
        let now = Moment::now();
        self.process_at(dir, pkt, meta, now)
    }
}

/// What a walk has done to the headers, taken as one transformation, makes of the packet's
/// metadata what the walk has made of them layer by layer.
pub proof fn lemma_walk_xform(
    layers: Seq<Layer>,
    dir: Direction,
    meta: PacketMeta,
    body: Seq<u8>,
    v2p: Seq<V2pEntry>,
    now: Moment,
    k: nat,
)
    ensures
        walk(layers, dir, meta, body, v2p, now, k).xform.spec_run(meta) == walk(
            layers,
            dir,
            meta,
            body,
            v2p,
            now,
            k,
        ).meta,
    decreases k,
{
    if k == 0 {
        crate::transform::lemma_identity(HdrTransform::spec_identity(), meta);
    } else {
        lemma_walk_xform(layers, dir, meta, body, v2p, now, (k - 1) as nat);
        let w = walk(layers, dir, meta, body, v2p, now, (k - 1) as nat);
        if w.kind is Allowed {
            let i = walk_index(layers.len() as int, dir, k - 1);
            let st = layers[i].step(dir, w.meta, body, w.ameta, v2p, now);
            crate::transform::lemma_chain_run(w.xform, st.xform, meta);
        }
    }
}

/// The flows that a walk has left in the layer that it passed as number `m` stay as they
/// are for the rest of the walk.
pub proof fn lemma_walk_flows_kept(
    layers: Seq<Layer>,
    dir: Direction,
    meta: PacketMeta,
    body: Seq<u8>,
    v2p: Seq<V2pEntry>,
    now: Moment,
    m: nat,
    k: nat,
)
    requires
        m < k <= layers.len(),
    ensures
        walk(layers, dir, meta, body, v2p, now, k).flows_in[walk_index(layers.len() as int, dir, m as int)] == walk(
            layers,
            dir,
            meta,
            body,
            v2p,
            now,
            m + 1,
        ).flows_in[walk_index(layers.len() as int, dir, m as int)],
        walk(layers, dir, meta, body, v2p, now, k).flows_out[walk_index(layers.len() as int, dir, m as int)]
            == walk(layers, dir, meta, body, v2p, now, m + 1).flows_out[walk_index(
            layers.len() as int,
            dir,
            m as int,
        )],
    decreases k,
{
    if k > m + 1 {
        lemma_walk_flows_kept(layers, dir, meta, body, v2p, now, m, (k - 1) as nat);
        lemma_walk_flows(layers, dir, meta, body, v2p, now, (k - 1) as nat);
    }
}

/// A walk that has come through `k` layers has come through every number of layers below.
pub proof fn lemma_walk_allowed_before(
    layers: Seq<Layer>,
    dir: Direction,
    meta: PacketMeta,
    body: Seq<u8>,
    v2p: Seq<V2pEntry>,
    now: Moment,
    m: nat,
    k: nat,
)
    requires
        m <= k,
        walk(layers, dir, meta, body, v2p, now, k).kind is Allowed,
    ensures
        walk(layers, dir, meta, body, v2p, now, m).kind is Allowed,
    decreases k,
{
    if m < k {
        lemma_walk_allowed_before(layers, dir, meta, body, v2p, now, m, (k - 1) as nat);
    }
}

/// A second walk repeats the first. Where a packet has walked the layers of a port and all
/// have let it through, and the flows of the layers are as that walk left them, the same
/// packet walks through again at any later moment, and every layer does to its headers
/// what it did the first time.
pub proof fn lemma_walk_again(
    before: Port,
    after: Port,
    dir: Direction,
    meta: PacketMeta,
    body: Seq<u8>,
    v2p: Seq<V2pEntry>,
    t1: Moment,
    t2: Moment,
    k: nat,
)
    requires
        before.wf(),
        k <= before.layers@.len(),
        walk(before.layers@, dir, meta, body, v2p, t1, before.layers@.len()).kind is Allowed,
        before.layers_walked(after, walk(before.layers@, dir, meta, body, v2p, t1, before.layers@.len())),
    ensures
        walk(after.layers@, dir, meta, body, v2p, t2, k).kind is Allowed,
        walk(after.layers@, dir, meta, body, v2p, t2, k).meta == walk(before.layers@, dir, meta, body, v2p, t1, k).meta,
        walk(after.layers@, dir, meta, body, v2p, t2, k).ameta == walk(
            before.layers@,
            dir,
            meta,
            body,
            v2p,
            t1,
            k,
        ).ameta,
        walk(after.layers@, dir, meta, body, v2p, t2, k).xform == walk(
            before.layers@,
            dir,
            meta,
            body,
            v2p,
            t1,
            k,
        ).xform,
    decreases k,
{
    let n = before.layers@.len();
    let l0 = before.layers@;
    let l1 = after.layers@;
    if k > 0 {
        let m = (k - 1) as nat;
        lemma_walk_again(before, after, dir, meta, body, v2p, t1, t2, m);
        lemma_walk_allowed_before(l0, dir, meta, body, v2p, t1, k, n);
        lemma_walk_allowed_before(l0, dir, meta, body, v2p, t1, m, n);
        let w0 = walk(l0, dir, meta, body, v2p, t1, m);
        let i = walk_index(n as int, dir, m as int);
        let st = l0[i].step(dir, w0.meta, body, w0.ameta, v2p, t1);
        let wn = walk(l0, dir, meta, body, v2p, t1, n);
        // The flows of layer `i` after the whole walk are those that its own step left.
        lemma_walk_flows_kept(l0, dir, meta, body, v2p, t1, m, n);
        lemma_walk_flows(l0, dir, meta, body, v2p, t1, m);
        assert(l0[i].with_flows(l1[i], Direction::In, wn.flows_in[i], wn.flows_out[i]));
        assert(l0[i].with_flows(l1[i], dir, st.fwd, st.rev));
        crate::layer::lemma_step_again(l0[i], l1[i], dir, w0.meta, body, w0.ameta, v2p, t1, t2);
    }
}

/// Replaying a flow gives what walking the layers gave. A packet walks the layers of a
/// running port and goes on; the port learns its flow. When the same packet comes again
/// and the port still knows the flow, the packet goes on with the very headers that the
/// walk gave it. And had the port asked its layers again, flows as they stand, every layer
/// would have done to the packet what it did the first time.
pub proof fn lemma_replay_matches_walk(
    s0: Port,
    s1: Port,
    s2: Port,
    dir: Direction,
    pkt: ParsedPacket,
    out1: ParsedPacket,
    out2: ParsedPacket,
    v2p: Seq<V2pEntry>,
    t1: Moment,
    t2: Moment,
    r1: Result<ProcessResult, ProcessError>,
    r2: Result<ProcessResult, ProcessError>,
)
    requires
        s0.wf(),
        s0.state == PortState::Running,
        pkt.meta.inner.ip is Some,
        !has_flow(s0.uft(dir), InnerFlowId::of(pkt.meta)),
        s0.processed(s1, dir, pkt, out1, v2p, t1, r1),
        r1 matches Ok(ProcessResult::Modified),
        has_flow(s1.uft(dir), InnerFlowId::of(pkt.meta)),
        s1.processed(s2, dir, pkt, out2, v2p, t2, r2),
        r2 matches Ok(ProcessResult::Modified),
    ensures
        out2.bytes@ == out1.bytes@,
        out2.meta == out1.meta,
        out2.offsets == out1.offsets,
        out2.seg_ends@ == out1.seg_ends@,
        walk(s1.layers@, dir, pkt.meta, pkt.body(), v2p, t2, s1.layers@.len()).kind is Allowed,
        walk(s1.layers@, dir, pkt.meta, pkt.body(), v2p, t2, s1.layers@.len()).meta == out2.meta,
{
    let n = s0.layers@.len();
    let flow = InnerFlowId::of(pkt.meta);
    let w = walk(s0.layers@, dir, pkt.meta, pkt.body(), v2p, t1, n);
    assert(s0.walked(s1, dir, pkt, out1, v2p, t1, r1));
    assert(w.kind is Allowed);
    let u_in = uft_after_walk(s0.uft_in@, s0.uft_in.limit, Direction::In, dir, flow, w, t1);
    let u_out = uft_after_walk(s0.uft_out@, s0.uft_out.limit, Direction::Out, dir, flow, w, t1);
    let fin = finish(dir, flow, w.meta, u_in, u_out, s0.tcp_flows@, s0.tcp_flows.limit, t1);
    let entry = UftEntry { xform: w.xform, layers: w.mask };
    let u0 = s0.uft(dir);
    let limit = match dir {
        Direction::In => s0.uft_in.limit,
        Direction::Out => s0.uft_out.limit,
    };
    let u1 = match dir {
        Direction::In => u_in,
        Direction::Out => u_out,
    };
    // The table of the packet's direction after the first packet holds the flow with what
    // the walk did.
    crate::flow_table::lemma_after_insert_distinct(u0, limit, flow, entry, t1);
    crate::flow_table::lemma_after_insert_has(u0, limit, flow, entry, t1);
    if s1.uft(dir) != u1 {
        // The connection was over, and the flow was taken out again.
        crate::flow_table::lemma_after_remove_gone(u1, flow);
        assert(false);
    }
    assert(w.any_stateful);
    assert(s1.uft(dir)[crate::flow_table::slot_of(s1.uft(dir), flow)].entry.value.xform == w.xform);
    lemma_walk_xform(s0.layers@, dir, pkt.meta, pkt.body(), v2p, t1, n);
    assert(s1.replayed(s2, dir, pkt, out2, t2, r2));
    assert((ParsedPacket { meta: w.meta, ..pkt }).emitted(out1));
    assert((ParsedPacket { meta: w.meta, ..pkt }).emitted(out2));
    lemma_walk_again(s0, s1, dir, pkt.meta, pkt.body(), v2p, t1, t2, n);
}

impl Port {
    /// True when `parsed` is what parsing the raw packet `raw` in the direction `dir` gives
    /// on this port, and `after`, `out` and `r` are what processing it at `now` gives.
    pub open spec fn parsed_and_processed(
        self,
        after: Port,
        dir: Direction,
        raw: Packet,
        parsed: ParsedPacket,
        out: ParsedPacket,
        v2p: Seq<V2pEntry>,
        now: Moment,
        r: Result<ProcessResult, ProcessError>,
    ) -> bool {
        &&& parse_spec(raw@, dir, self.net.spec_parser()) == Ok::<PacketInfo, ParseErrorView>(parsed.info())
        &&& parsed.bytes == raw.bytes
        &&& parsed.seg_ends == raw.seg_ends
        &&& parsed.wf()
        &&& self.processed(after, dir, parsed, out, v2p, now, r)
    }

    /// Parses the raw packet `pkt` with the parser of the port's network and processes it
    /// at the moment `now`. A port that is not running refuses the packet unread. A packet
    /// that cannot be parsed is refused with the error of the parser, and the port stays
    /// as it is. Any other packet is processed as [`Port::process_at`] does it, and comes
    /// back with the result.
    pub fn process_raw(&mut self, dir: Direction, pkt: Packet, meta: &Meta, now: Moment) -> (r: (
        Result<ProcessResult, ProcessError>,
        Option<ParsedPacket>,
    ))
        requires
            old(self).wf(),
            pkt.wf(),
        ensures
            final(self).wf(),
            if old(self).state != PortState::Running {
                &&& *final(self) == *old(self)
                &&& r.1 is None
                &&& r.0 == Err::<ProcessResult, ProcessError>(
                    ProcessError::BadState(BadState { expected: PortState::Running, actual: old(self).state }),
                )
            } else {
                match parse_spec(pkt@, dir, old(self).net.spec_parser()) {
                    Err(e) => *final(self) == *old(self) && r.1 is None && (r.0 matches Err(ProcessError::ParseErr(pe))
                        && pe@ == e),
                    Ok(info) => r.1 is Some && exists|parsed: ParsedPacket| #[trigger]
                        old(self).parsed_and_processed(
                            *final(self),
                            dir,
                            pkt,
                            parsed,
                            r.1->Some_0,
                            v2p_of(*meta),
                            now,
                            r.0,
                        ),
                }
            },
    {
        if self.state != PortState::Running {
            return (
                Err(ProcessError::BadState(BadState { expected: PortState::Running, actual: self.state })),
                None,
            );
        }
        let parser = self.net.parser();
        let mut parsed = match pkt.parse(dir, &parser) {
            Ok(p) => p,
            Err(e) => {
                return (Err(ProcessError::ParseErr(e)), None);
            },
        };
        let ghost before = parsed;
        let res = self.process_at(dir, &mut parsed, meta, now);
        let r = (res, Some(parsed));
        assert(old(self).parsed_and_processed(*self, dir, pkt, before, r.1->Some_0, v2p_of(*meta), now, r.0));
        r
    }
}

} // verus!
