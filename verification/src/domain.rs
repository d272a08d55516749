//! The domain: the single-threaded actor that owns a subgraph of nodes.
//!
//! One call to [`Domain::handle`] consumes one packet and returns the actions
//! the surrounding runtime must perform: local re-injections, egress sends,
//! acks, replies, and trace emissions. The domain itself never blocks or
//! performs I/O, so everything it does is a mathematical function of its
//! state and the packet — the spec functions [`Domain::state_of`] and
//! [`Domain::actions_of`] are that function, and `handle`'s contract pins the
//! implementation to them.

use vstd::prelude::*;
use crate::addr::{ChannelId, Link, LocalNodeIndex, NodeAddress, Tag};
use crate::checktable::{Token, TransactionState, TxStateVal, PrevTimestamp};
use crate::data::{positives, records_of_rows, DataVal, RecordVal, Records, Row};
use crate::keyed::{apply_all, rows_for_key, KeyedState, LookupResult};
use crate::packet::{ContextVal, Packet, PacketVal, TriggerVal};
use crate::replay::{ReplayPath, ReplayPieceContext, ReplayRegistry, TriggerEndpoint};
use crate::state::{
    EgressTx, InitialState, KeyedStateVal, NodeDescriptor, NodeDescVal, NodeKind, NodeKindVal,
    NodeState, NodeStateVal,
};
use crate::stats::{saturating_inc, DomainStats, NodeStats};
use crate::trace::{PacketEvent, TimeInstant, Tracer};
use crate::transactions::{drain_spec, Gatekeeper, TxEntry};

verus! {

/// What the runtime must do on the domain's behalf after one packet.
pub enum Action {
    /// Re-inject a packet into this domain's own queue (in-process hand-off
    /// to a successor node).
    SendLocal { packet: Packet },
    /// Ship a packet toward another domain on the named egress channel.
    SendRemote { channel: ChannelId, packet: Packet },
    /// Deliver a reader node's update stream to a streamer.
    SendStream { channel: ChannelId, data: Records },
    /// Emit a trace event, best-effort.
    Trace { channel: ChannelId, at: TimeInstant, event: PacketEvent },
    /// Fire a synchronous ack.
    Ack { channel: ChannelId },
    /// Answer a state-size probe.
    ReplySize { channel: ChannelId, size: usize },
    /// Hand out the domain's unbounded replay channel.
    ReplyUnbounded { channel: ChannelId, unbounded: ChannelId },
    /// Answer a statistics request.
    ReplyStats { channel: ChannelId, domain: DomainStats, nodes: Vec<(usize, NodeStats)> },
    /// Present a pending transaction's token to the checktable; the verdict
    /// goes to `reply`.
    CheckTable { token: Token, reply: ChannelId },
    /// The packet violated a domain invariant (misaddressed, mismatched
    /// variant, unknown tag): the domain must abort.
    Fatal,
}

/// The mathematical value of an [`Action`].
#[verifier::ext_equal]
pub enum ActionVal {
    SendLocal { packet: PacketVal },
    SendRemote { channel: ChannelId, packet: PacketVal },
    SendStream { channel: ChannelId, data: Seq<RecordVal> },
    Trace { channel: ChannelId, at: TimeInstant, event: PacketEvent },
    Ack { channel: ChannelId },
    ReplySize { channel: ChannelId, size: usize },
    ReplyUnbounded { channel: ChannelId, unbounded: ChannelId },
    ReplyStats { channel: ChannelId, domain: DomainStats, nodes: Seq<(usize, NodeStats)> },
    CheckTable { token: Token, reply: ChannelId },
    Fatal,
}

impl View for Action {
    type V = ActionVal;

    open spec fn view(&self) -> ActionVal {
        match self {
            Action::SendLocal { packet } => ActionVal::SendLocal { packet: packet@ },
            Action::SendRemote { channel, packet } => ActionVal::SendRemote {
                channel: *channel,
                packet: packet@,
            },
            Action::SendStream { channel, data } => ActionVal::SendStream {
                channel: *channel,
                data: data@,
            },
            Action::Trace { channel, at, event } => ActionVal::Trace {
                channel: *channel,
                at: *at,
                event: *event,
            },
            Action::Ack { channel } => ActionVal::Ack { channel: *channel },
            Action::ReplySize { channel, size } => ActionVal::ReplySize {
                channel: *channel,
                size: *size,
            },
            Action::ReplyUnbounded { channel, unbounded } => ActionVal::ReplyUnbounded {
                channel: *channel,
                unbounded: *unbounded,
            },
            Action::ReplyStats { channel, domain, nodes } => ActionVal::ReplyStats {
                channel: *channel,
                domain: *domain,
                nodes: nodes@,
            },
            Action::CheckTable { token, reply } => ActionVal::CheckTable {
                token: *token,
                reply: *reply,
            },
            Action::Fatal => ActionVal::Fatal,
        }
    }
}

pub open spec fn acts_view(v: Seq<Action>) -> Seq<ActionVal> {
    v.map(|_i: int, a: Action| a@)
}

/// One node the domain owns: its description and its materialized state.
pub struct NodeEntry {
    pub desc: NodeDescriptor,
    pub state: NodeState,
}

/// The mathematical value of a [`NodeEntry`].
#[verifier::ext_equal]
pub struct NodeVal {
    pub desc: NodeDescVal,
    pub state: NodeStateVal,
}

impl View for NodeEntry {
    type V = NodeVal;

    open spec fn view(&self) -> NodeVal {
        NodeVal { desc: self.desc@, state: self.state@ }
    }
}

/// The mathematical value of a [`ReplayPath`].
#[verifier::ext_equal]
pub struct PathVal {
    pub tag: Tag,
    pub source: Option<NodeAddress>,
    pub path: Seq<(NodeAddress, Option<usize>)>,
    pub done_tx: Option<ChannelId>,
    pub trigger: TriggerVal,
}

pub open spec fn path_view(p: ReplayPath) -> PathVal {
    PathVal {
        tag: p.tag,
        source: p.source,
        path: p.path@,
        done_tx: p.done_tx,
        trigger: p.trigger@,
    }
}

/// The mathematical value of a buffered transaction.
#[verifier::ext_equal]
pub struct TxVal {
    pub ts: i64,
    pub prev: i64,
    pub link: Link,
    pub data: Seq<RecordVal>,
}

pub open spec fn tx_view(e: TxEntry) -> TxVal {
    TxVal { ts: e.ts, prev: e.prev, link: e.link, data: e.data@ }
}

pub open spec fn txs_view(s: Seq<TxEntry>) -> Seq<TxVal> {
    s.map(|_i: int, e: TxEntry| tx_view(e))
}

/// `drain_spec` mirrored on transaction values.
pub open spec fn admissible_v(e: TxVal, last_ts: i64, window: Option<(i64, i64)>) -> bool {
    e.prev == last_ts && (match window {
        Some((_at, prev_w)) => e.ts <= prev_w,
        None => true,
    })
}

pub open spec fn find_ready_v(buffer: Seq<TxVal>, last_ts: i64, window: Option<(i64, i64)>) -> int
    decreases buffer.len(),
{
    if buffer.len() == 0 {
        -1
    } else if admissible_v(buffer[0], last_ts, window) {
        0
    } else {
        let m = find_ready_v(buffer.drop_first(), last_ts, window);
        if m == -1 {
            -1
        } else {
            m + 1
        }
    }
}

pub open spec fn drain_v(
    buffer: Seq<TxVal>,
    last_ts: i64,
    window: Option<(i64, i64)>,
    fuel: nat,
) -> (Seq<TxVal>, Seq<TxVal>, i64)
    decreases fuel,
{
    let f = find_ready_v(buffer, last_ts, window);
    if f == -1 || fuel == 0 {
        (Seq::empty(), buffer, last_ts)
    } else {
        let e = buffer[f];
        let rest = drain_v(buffer.remove(f), e.ts, window, (fuel - 1) as nat);
        (seq![e] + rest.0, rest.1, rest.2)
    }
}

pub proof fn lemma_find_ready_view(buffer: Seq<TxEntry>, last_ts: i64, window: Option<(i64, i64)>)
    ensures
        crate::transactions::find_ready(buffer, last_ts, window) == find_ready_v(
            txs_view(buffer),
            last_ts,
            window,
        ),
    decreases buffer.len(),
{
    if buffer.len() > 0 {
        assert(txs_view(buffer)[0] == tx_view(buffer[0]));
        assert(txs_view(buffer).drop_first() =~= txs_view(buffer.drop_first()));
        lemma_find_ready_view(buffer.drop_first(), last_ts, window);
    }
}

pub proof fn lemma_drain_view(
    buffer: Seq<TxEntry>,
    last_ts: i64,
    window: Option<(i64, i64)>,
    fuel: nat,
)
    ensures
        txs_view(drain_spec(buffer, last_ts, window, fuel).0) == drain_v(
            txs_view(buffer),
            last_ts,
            window,
            fuel,
        ).0,
        txs_view(drain_spec(buffer, last_ts, window, fuel).1) == drain_v(
            txs_view(buffer),
            last_ts,
            window,
            fuel,
        ).1,
        drain_spec(buffer, last_ts, window, fuel).2 == drain_v(
            txs_view(buffer),
            last_ts,
            window,
            fuel,
        ).2,
    decreases fuel,
{
    lemma_find_ready_view(buffer, last_ts, window);
    crate::transactions::lemma_find_ready_props(buffer, last_ts, window);
    let f = crate::transactions::find_ready(buffer, last_ts, window);
    if f == -1 || fuel == 0 {
        assert(txs_view(Seq::<TxEntry>::empty()) =~= Seq::<TxVal>::empty());
    } else {
        let e = buffer[f];
        assert(txs_view(buffer)[f] == tx_view(e));
        assert(txs_view(buffer.remove(f)) =~= txs_view(buffer).remove(f));
        lemma_drain_view(buffer.remove(f), e.ts, window, (fuel - 1) as nat);
        assert(txs_view(
            seq![e] + drain_spec(buffer.remove(f), e.ts, window, (fuel - 1) as nat).0,
        ) =~= seq![tx_view(e)] + txs_view(
            drain_spec(buffer.remove(f), e.ts, window, (fuel - 1) as nat).0,
        ));
    }
}

/// The mathematical value of a whole [`Domain`].
#[verifier::ext_equal]
pub struct DomainVal {
    pub index: usize,
    pub nodes: Seq<NodeVal>,
    pub paths: Seq<PathVal>,
    pub pending: Seq<(u32, Seq<DataVal>)>,
    pub gate_buffer: Seq<TxVal>,
    pub gate_last: i64,
    pub gate_window: Option<(i64, i64)>,
    pub unbounded: ChannelId,
    pub ingress_from_base: Seq<(usize, usize)>,
    pub stats: DomainStats,
    pub running: bool,
}

/// A single-threaded actor owning a contiguous subgraph of dataflow nodes.
pub struct Domain {
    /// This domain's own index, named by transactions' previous-timestamp
    /// maps.
    pub index: usize,
    /// The owned nodes; a [`LocalNodeIndex`] is a position here.
    pub nodes: Vec<NodeEntry>,
    /// Replay paths and in-flight partial replays.
    pub registry: ReplayRegistry,
    /// Transaction admission.
    pub gate: Gatekeeper,
    /// The domain's unbounded replay-request channel, handed out on request.
    pub unbounded: ChannelId,
    /// Expected transactional ingress count per base node, replaced at each
    /// migration.
    pub ingress_from_base: Vec<(usize, usize)>,
    pub stats: DomainStats,
    /// Cleared by `Quit`; the runtime then stops feeding the domain.
    pub running: bool,
}

impl Domain {
    pub open spec fn dv(self) -> DomainVal {
        DomainVal {
            index: self.index,
            nodes: self.nodes@.map(|_i: int, e: NodeEntry| e@),
            paths: self.registry.paths@.map(|_i: int, p: ReplayPath| path_view(p)),
            pending: self.registry.pending_v(),
            gate_buffer: txs_view(self.gate.buffer@),
            gate_last: self.gate.last_ts,
            gate_window: self.gate.window,
            unbounded: self.unbounded,
            ingress_from_base: self.ingress_from_base@,
            stats: self.stats,
            running: self.running,
        }
    }

    pub open spec fn wf(self) -> bool {
        &&& forall|i: int| 0 <= i < self.nodes@.len() ==> (#[trigger] self.nodes@[i]).state.wf()
        &&& self.registry.wf()
        &&& self.gate.wf()
    }

    /// A fresh domain with no nodes.
    pub fn new(index: usize, unbounded: ChannelId, initial_ts: i64) -> (r: Domain)
        ensures
            r.wf(),
            r.dv() == (DomainVal {
                index,
                nodes: Seq::<NodeVal>::empty(),
                paths: Seq::<PathVal>::empty(),
                pending: Seq::<(u32, Seq<DataVal>)>::empty(),
                gate_buffer: Seq::<TxVal>::empty(),
                gate_last: initial_ts,
                gate_window: None::<(i64, i64)>,
                unbounded,
                ingress_from_base: Seq::<(usize, usize)>::empty(),
                stats: DomainStats {
                    total_packets_processed: 0,
                    total_ptime_ns: 0,
                    wait_time_ns: 0,
                },
                running: true,
            }),
    {
        let r = Domain {
            index,
            nodes: Vec::new(),
            registry: ReplayRegistry::new(),
            gate: Gatekeeper::new(initial_ts),
            unbounded,
            ingress_from_base: Vec::new(),
            stats: DomainStats { total_packets_processed: 0, total_ptime_ns: 0, wait_time_ns: 0 },
            running: true,
        };
        proof {
            assert(r.dv() =~~= (DomainVal {
                index,
                nodes: Seq::<NodeVal>::empty(),
                paths: Seq::<PathVal>::empty(),
                pending: Seq::<(u32, Seq<DataVal>)>::empty(),
                gate_buffer: Seq::<TxVal>::empty(),
                gate_last: initial_ts,
                gate_window: None::<(i64, i64)>,
                unbounded,
                ingress_from_base: Seq::<(usize, usize)>::empty(),
                stats: DomainStats {
                    total_packets_processed: 0,
                    total_ptime_ns: 0,
                    wait_time_ns: 0,
                },
                running: true,
            }));
        }
        r
    }
}

/// Whether the filter operator keeps a record: its column `col` must hold an
/// odd natural number.
pub open spec fn keeps(col: usize, r: RecordVal) -> bool {
    col < r.row.len() && (match r.row[col as int] {
        DataVal::Int(i) => i >= 0 && i % 2 == 1,
        _ => false,
    })
}

/// What a node's operator makes of the records that reach it. Filters drop
/// rows; everything else passes records through unchanged.
pub open spec fn process_recs(kind: NodeKindVal, data: Seq<RecordVal>) -> Seq<RecordVal> {
    match kind {
        NodeKindVal::Filter { col } => data.filter(|r: RecordVal| keeps(col, r)),
        _ => data,
    }
}

/// A node's materialized state after the processed records land on it.
pub open spec fn state_after(st: NodeStateVal, out: Seq<RecordVal>) -> NodeStateVal {
    match st {
        NodeStateVal::Stateless => NodeStateVal::Stateless,
        NodeStateVal::Local(k) => NodeStateVal::Local(
            KeyedStateVal {
                rows: apply_all(k.rows, out, k.cols, k.partial, k.filled),
                ..k
            },
        ),
        NodeStateVal::Glob(k) => NodeStateVal::Glob(
            KeyedStateVal {
                rows: apply_all(k.rows, out, k.cols, k.partial, k.filled),
                ..k
            },
        ),
    }
}

/// The trace emission a packet's tracer asks for, as actions.
pub open spec fn trace_acts(tracer: Tracer, event: PacketEvent) -> Seq<ActionVal> {
    match tracer {
        Some(c) => seq![ActionVal::Trace { channel: c, at: 0u64, event }],
        None => Seq::empty(),
    }
}

/// The sends that forward processed records onward: through every egress
/// connection for an egress node, else to every local child. An empty update
/// is never forwarded.
pub open spec fn forward_acts(desc: NodeDescVal, out: Seq<RecordVal>, tracer: Tracer) -> Seq<
    ActionVal,
> {
    if out.len() == 0 {
        Seq::empty()
    } else {
        match desc.kind {
            NodeKindVal::Egress { txs, .. } => txs.map(
                |_i: int, e: EgressTx| ActionVal::SendRemote {
                    channel: e.channel,
                    packet: PacketVal::Message {
                        link: Link { src: e.node, dst: e.dest },
                        data: out,
                        tracer,
                    },
                },
            ),
            _ => desc.children.map(
                |_i: int, c: LocalNodeIndex| ActionVal::SendLocal {
                    packet: PacketVal::Message {
                        link: Link { src: desc.addr, dst: NodeAddress::Local(c) },
                        data: out,
                        tracer,
                    },
                },
            ),
        }
    }
}

/// The stream deliveries a reader node owes its streamers.
pub open spec fn stream_acts(desc: NodeDescVal, out: Seq<RecordVal>) -> Seq<ActionVal> {
    if out.len() == 0 {
        Seq::empty()
    } else {
        desc.streamers.map(
            |_i: int, s: ChannelId| ActionVal::SendStream { channel: s, data: out },
        )
    }
}

/// The local node a data packet's link addresses, when it is addressed
/// correctly.
pub open spec fn dest_of(d: DomainVal, link: Link) -> Option<int> {
    match link.dst {
        NodeAddress::Local(l) => if l.id < d.nodes.len() {
            Some(l.id as int)
        } else {
            None
        },
        NodeAddress::Global(_) => None,
    }
}

/// Whether every record's row reaches all the key columns of the state it
/// lands on.
pub open spec fn covers(out: Seq<RecordVal>, cols: Seq<usize>) -> bool {
    forall|i: int, j: int| 0 <= i < out.len() && 0 <= j < cols.len() ==> (
    #[trigger] cols[j]) < (#[trigger] out[i]).row.len()
}

/// Land processed records on a node's state; `fill` first declares a key
/// filled (a partial replay's key). `None` when a record misses the state's
/// key columns — an invariant violation.
pub open spec fn land(st: NodeStateVal, out: Seq<RecordVal>, fill: Option<Seq<DataVal>>) -> Option<
    NodeStateVal,
> {
    match st {
        NodeStateVal::Stateless => Some(NodeStateVal::Stateless),
        NodeStateVal::Local(k) => match land_keyed(k, out, fill) {
            Some(k2) => Some(NodeStateVal::Local(k2)),
            None => None,
        },
        NodeStateVal::Glob(k) => match land_keyed(k, out, fill) {
            Some(k2) => Some(NodeStateVal::Glob(k2)),
            None => None,
        },
    }
}

pub open spec fn land_keyed(
    k: KeyedStateVal,
    out: Seq<RecordVal>,
    fill: Option<Seq<DataVal>>,
) -> Option<KeyedStateVal> {
    if covers(out, k.cols) {
        let filled2 = match fill {
            Some(key) => if k.partial {
                k.filled.push(key)
            } else {
                k.filled
            },
            None => k.filled,
        };
        Some(
            KeyedStateVal {
                rows: apply_all(k.rows, out, k.cols, k.partial, filled2),
                filled: filled2,
                ..k
            },
        )
    } else {
        None
    }
}

/// The sends that forward a replay piece onward, shaped like
/// [`forward_acts`].
pub open spec fn forward_piece(
    desc: NodeDescVal,
    out: Seq<RecordVal>,
    tag: Tag,
    context: ContextVal,
    txs_state: Option<crate::checktable::ReplayTxVal>,
) -> Seq<ActionVal> {
    if out.len() == 0 {
        Seq::empty()
    } else {
        match desc.kind {
            NodeKindVal::Egress { txs, .. } => txs.map(
                |_i: int, e: EgressTx| ActionVal::SendRemote {
                    channel: e.channel,
                    packet: PacketVal::ReplayPiece {
                        link: Link { src: e.node, dst: e.dest },
                        tag,
                        data: out,
                        context,
                        transaction_state: txs_state,
                    },
                },
            ),
            _ => desc.children.map(
                |_i: int, c: LocalNodeIndex| ActionVal::SendLocal {
                    packet: PacketVal::ReplayPiece {
                        link: Link { src: desc.addr, dst: NodeAddress::Local(c) },
                        tag,
                        data: out,
                        context,
                        transaction_state: txs_state,
                    },
                },
            ),
        }
    }
}

/// The rows a node's state holds, for dumps and probes.
pub open spec fn state_rows(st: NodeStateVal) -> Seq<Seq<DataVal>> {
    match st {
        NodeStateVal::Stateless => Seq::empty(),
        NodeStateVal::Local(k) => k.rows,
        NodeStateVal::Glob(k) => k.rows,
    }
}

/// The first previous-timestamp entry for the given domain.
pub open spec fn find_prev(list: Seq<PrevTimestamp>, dom: usize) -> Option<i64>
    decreases list.len(),
{
    if list.len() == 0 {
        None
    } else if list[0].domain == dom {
        Some(list[0].ts)
    } else {
        find_prev(list.drop_first(), dom)
    }
}

/// The timestamp and predecessor a transactional packet claims, from this
/// domain's point of view.
pub open spec fn tx_times(d: DomainVal, st: TxStateVal) -> Option<(i64, i64)> {
    match st {
        TxStateVal::WillCommit => if d.gate_last < i64::MAX {
            Some(((d.gate_last + 1) as i64, d.gate_last))
        } else {
            None
        },
        TxStateVal::Committed(ts, _base, prevs) => match prevs {
            None => Some((ts, d.gate_last)),
            Some(list) => match find_prev(list, d.index) {
                Some(p) => Some((ts, p)),
                None => None,
            },
        },
        TxStateVal::Pending(_, _) => None,
    }
}

/// The per-node statistics a domain reports.
pub open spec fn node_stats_of(nodes: Seq<NodeVal>) -> Seq<(usize, NodeStats)> {
    Seq::new(
        nodes.len(),
        |i: int| (
            i as usize,
            NodeStats { rows_materialized: state_rows(nodes[i].state).len() as u64, bytes: 0 },
        ),
    )
}

/// Nodes rewired so every listed parent gains `child` as a successor.
pub open spec fn wire_parents(
    nodes: Seq<NodeVal>,
    parents: Seq<LocalNodeIndex>,
    child: LocalNodeIndex,
) -> Seq<NodeVal>
    decreases parents.len(),
{
    if parents.len() == 0 {
        nodes
    } else {
        let p = parents[0];
        let n1 = if p.id < nodes.len() {
            nodes.update(
                p.id as int,
                NodeVal {
                    desc: NodeDescVal {
                        children: nodes[p.id as int].desc.children.push(child),
                        ..nodes[p.id as int].desc
                    },
                    ..nodes[p.id as int]
                },
            )
        } else {
            nodes
        };
        wire_parents(n1, parents.drop_first(), child)
    }
}

pub proof fn lemma_wire_parents_push(
    nodes: Seq<NodeVal>,
    parents: Seq<LocalNodeIndex>,
    p: LocalNodeIndex,
    child: LocalNodeIndex,
)
    ensures
        wire_parents(nodes, parents.push(p), child) == {
            let n1 = wire_parents(nodes, parents, child);
            if p.id < n1.len() {
                n1.update(
                    p.id as int,
                    NodeVal {
                        desc: NodeDescVal {
                            children: n1[p.id as int].desc.children.push(child),
                            ..n1[p.id as int].desc
                        },
                        ..n1[p.id as int]
                    },
                )
            } else {
                n1
            }
        },
    decreases parents.len(),
{
    reveal_with_fuel(wire_parents, 3);
    if parents.len() == 0 {
        assert(parents.push(p).drop_first() =~= parents);
        assert(parents.push(p)[0] == p);
    } else {
        assert(parents.push(p)[0] == parents[0]);
        assert(parents.push(p).drop_first() =~= parents.drop_first().push(p));
        let q = parents[0];
        let n1 = if q.id < nodes.len() {
            nodes.update(
                q.id as int,
                NodeVal {
                    desc: NodeDescVal {
                        children: nodes[q.id as int].desc.children.push(child),
                        ..nodes[q.id as int].desc
                    },
                    ..nodes[q.id as int]
                },
            )
        } else {
            nodes
        };
        lemma_wire_parents_push(n1, parents.drop_first(), p, child);
    }
}

/// The spec-level bump of the packet counter every handled packet causes.
pub open spec fn sat_v(x: u64) -> u64 {
    if x < u64::MAX {
        (x + 1) as u64
    } else {
        x
    }
}

pub open spec fn bump(d: DomainVal) -> DomainVal {
    DomainVal {
        stats: DomainStats {
            total_packets_processed: sat_v(d.stats.total_packets_processed),
            ..d.stats
        },
        ..d
    }
}

pub proof fn lemma_find_prev_at(list: Seq<PrevTimestamp>, dom: usize, j: int)
    requires
        0 <= j < list.len(),
        list[j].domain == dom,
        forall|k: int| 0 <= k < j ==> list[k].domain != dom,
    ensures
        find_prev(list, dom) == Some(list[j].ts),
    decreases j,
{
    if j > 0 {
        assert forall|k: int| 0 <= k < j - 1 implies list.drop_first()[k].domain != dom by {
            assert(list.drop_first()[k] == list[k + 1]);
        }
        assert(list.drop_first()[j - 1] == list[j]);
        lemma_find_prev_at(list.drop_first(), dom, j - 1);
    }
}

pub proof fn lemma_find_prev_none(list: Seq<PrevTimestamp>, dom: usize)
    requires
        forall|k: int| 0 <= k < list.len() ==> list[k].domain != dom,
    ensures
        find_prev(list, dom) == None::<i64>,
    decreases list.len(),
{
    if list.len() > 0 {
        assert forall|k: int| 0 <= k < list.len() - 1 implies list.drop_first()[k].domain
            != dom by {
            assert(list.drop_first()[k] == list[k + 1]);
        }
        lemma_find_prev_none(list.drop_first(), dom);
    }
}

/// The first previous-timestamp entry naming `dom`.
fn find_prev_exec(list: &Vec<PrevTimestamp>, dom: usize) -> (r: Option<i64>)
    ensures
        r == find_prev(list@, dom),
{
    let n = list.len();
    let mut i: usize = 0;
    while i < n
        invariant
            n == list.len(),
            i <= n,
            forall|k: int| 0 <= k < i ==> list@[k].domain != dom,
        decreases n - i,
    {
        if list[i].domain == dom {
            proof {
                lemma_find_prev_at(list@, dom, i as int);
            }
            return Some(list[i].ts);
        }
        i = i + 1;
    }
    proof {
        lemma_find_prev_none(list@, dom);
    }
    None
}

/// The filter operator: keep the records whose column holds an odd natural
/// number.
fn filter_records(col: usize, data: Records) -> (r: Records)
    ensures
        r@ == data@.filter(|x: RecordVal| keeps(col, x)),
{
    let mut recs: Vec<crate::data::Record> = Vec::new();
    let n = data.recs.len();
    let mut i: usize = 0;
    let mut rest = data;
    proof {
        reveal_with_fuel(Seq::<_>::filter, 2);
        assert(rest@.subrange(0, 0) =~= Seq::<RecordVal>::empty());
        assert(recs@.map(|_k: int, x: crate::data::Record| x@) =~= rest@.subrange(0, 0).filter(
            |x: RecordVal| keeps(col, x),
        ));
    }
    let ghost all = rest@;
    while i < n
        invariant
            n == rest.recs.len(),
            rest@ == all,
            i <= n,
            recs@.map(|_k: int, x: crate::data::Record| x@) == all.subrange(0, i as int).filter(
                |x: RecordVal| keeps(col, x),
            ),
        decreases n - i,
    {
        let ghost pre = all.subrange(0, i as int);
        let ghost cur = all.subrange(0, i + 1);
        proof {
            reveal_with_fuel(Seq::<_>::filter, 2);
            assert(cur.drop_last() =~= pre);
            assert(cur.last() == all[i as int]);
        }
        let rec = &rest.recs[i];
        let keep = col < rec.row.cells.len() && (match &rec.row.cells[col] {
            crate::data::DataType::Int(v) => *v >= 0 && *v % 2 == 1,
            _ => false,
        });
        proof {
            assert(rec@ == all[i as int]);
            if col < rec.row.cells.len() {
                assert(rec@.row[col as int] == rec.row.cells@[col as int]@);
            }
            assert(keep == keeps(col, all[i as int]));
        }
        if keep {
            recs.push(rec.clone_record());
            proof {
                assert(recs@.map(|_k: int, x: crate::data::Record| x@) =~= pre.filter(
                    |x: RecordVal| keeps(col, x),
                ).push(all[i as int]));
                assert(cur.filter(|x: RecordVal| keeps(col, x)) == cur.drop_last().filter(
                    |x: RecordVal| keeps(col, x),
                ).push(cur.last()));
            }
        } else {
            proof {
                assert(cur.filter(|x: RecordVal| keeps(col, x)) == cur.drop_last().filter(
                    |x: RecordVal| keeps(col, x),
                ));
            }
        }
        i = i + 1;
    }
    proof {
        assert(all.subrange(0, n as int) =~= all);
    }
    let r = Records { recs };
    proof {
        assert(r@ =~= all.filter(|x: RecordVal| keeps(col, x)));
    }
    r
}

/// Whether every record reaches all key columns.
fn covers_check(recs: &Records, cols: &Vec<usize>) -> (r: bool)
    ensures
        r == covers(recs@, cols@),
{
    let n = recs.recs.len();
    let mut i: usize = 0;
    while i < n
        invariant
            n == recs.recs.len(),
            i <= n,
            forall|a: int, b: int| 0 <= a < i && 0 <= b < cols@.len() ==> (#[trigger] cols@[b])
                < (#[trigger] recs@[a]).row.len(),
        decreases n - i,
    {
        let m = cols.len();
        let mut j: usize = 0;
        while j < m
            invariant
                n == recs.recs.len(),
                m == cols.len(),
                i < n,
                j <= m,
                forall|b: int| 0 <= b < j ==> (#[trigger] cols@[b]) < recs@[i as int].row.len(),
            decreases m - j,
        {
            if cols[j] >= recs.recs[i].row.cells.len() {
                proof {
                    assert(recs@[i as int].row.len() == recs.recs@[i as int].row.cells@.len());
                    assert(!covers(recs@, cols@));
                }
                return false;
            }
            j = j + 1;
        }
        i = i + 1;
    }
    true
}

/// Append the fan-out sends of a regular update.
fn push_forwards(out: &mut Vec<Action>, desc: &NodeDescriptor, data: &Records, tracer: &Tracer)
    ensures
        acts_view(final(out)@) == acts_view(old(out)@) + forward_acts(desc@, data@, *tracer),
{
    if data.is_empty() {
        proof {
            assert(acts_view(out@) =~= acts_view(out@) + forward_acts(desc@, data@, *tracer));
        }
        return ;
    }
    match &desc.kind {
        NodeKind::Egress { txs, .. } => {
            let n = txs.len();
            let mut i: usize = 0;
            while i < n
                invariant
                    n == txs.len(),
                    i <= n,
                    data@.len() > 0,
                    desc@.kind matches NodeKindVal::Egress { txs: txv, .. } && txv == txs@,
                    acts_view(out@).len() == acts_view(old(out)@).len() + i,
                    acts_view(out@).subrange(0, acts_view(old(out)@).len() as int) == acts_view(
                        old(out)@,
                    ),
                    forall|j: int| 0 <= j < i ==> acts_view(out@)[acts_view(old(out)@).len() + j]
                        == forward_acts(desc@, data@, *tracer)[j],
                decreases n - i,
            {
                let e = &txs[i];
                out.push(
                    Action::SendRemote {
                        channel: e.channel,
                        packet: Packet::Message {
                            link: Link { src: e.node, dst: e.dest },
                            data: data.clone_records(),
                            tracer: *tracer,
                        },
                    },
                );
                proof {
                    assert(acts_view(out@) =~= acts_view(out@.drop_last()).push(
                        out@.last()@,
                    ));
                }
                i = i + 1;
            }
            proof {
                assert(acts_view(out@) =~= acts_view(old(out)@) + forward_acts(
                    desc@,
                    data@,
                    *tracer,
                ));
            }
        },
        _ => {
            let n = desc.children.len();
            let mut i: usize = 0;
            while i < n
                invariant
                    n == desc.children.len(),
                    i <= n,
                    data@.len() > 0,
                    !(desc@.kind matches NodeKindVal::Egress { .. }),
                    acts_view(out@).len() == acts_view(old(out)@).len() + i,
                    acts_view(out@).subrange(0, acts_view(old(out)@).len() as int) == acts_view(
                        old(out)@,
                    ),
                    forall|j: int| 0 <= j < i ==> acts_view(out@)[acts_view(old(out)@).len() + j]
                        == forward_acts(desc@, data@, *tracer)[j],
                decreases n - i,
            {
                let c = desc.children[i];
                out.push(
                    Action::SendLocal {
                        packet: Packet::Message {
                            link: Link { src: desc.addr, dst: NodeAddress::Local(c) },
                            data: data.clone_records(),
                            tracer: *tracer,
                        },
                    },
                );
                proof {
                    assert(acts_view(out@) =~= acts_view(out@.drop_last()).push(
                        out@.last()@,
                    ));
                }
                i = i + 1;
            }
            proof {
                assert(acts_view(out@) =~= acts_view(old(out)@) + forward_acts(
                    desc@,
                    data@,
                    *tracer,
                ));
            }
        },
    }
}

/// Append the fan-out sends of a replay piece.
fn push_piece_forwards(
    out: &mut Vec<Action>,
    desc: &NodeDescriptor,
    data: &Records,
    tag: Tag,
    context: &ReplayPieceContext,
    txs_state: &Option<crate::checktable::ReplayTransactionState>,
)
    ensures
        acts_view(final(out)@) == acts_view(old(out)@) + forward_piece(
            desc@,
            data@,
            tag,
            context@,
            (match txs_state {
                Some(t) => Some(t@),
                None => None,
            }),
        ),
{
    let ghost tsv = (match txs_state {
        Some(t) => Some(t@),
        None => None,
    });
    if data.is_empty() {
        proof {
            assert(acts_view(out@) =~= acts_view(out@) + forward_piece(
                desc@,
                data@,
                tag,
                context@,
                tsv,
            ));
        }
        return ;
    }
    match &desc.kind {
        NodeKind::Egress { txs, .. } => {
            let n = txs.len();
            let mut i: usize = 0;
            while i < n
                invariant
                    n == txs.len(),
                    i <= n,
                    data@.len() > 0,
                    desc@.kind matches NodeKindVal::Egress { txs: txv, .. } && txv == txs@,
                    acts_view(out@).len() == acts_view(old(out)@).len() + i,
                    acts_view(out@).subrange(0, acts_view(old(out)@).len() as int) == acts_view(
                        old(out)@,
                    ),
                    tsv == (match txs_state {
                        Some(t) => Some(t@),
                        None => None::<crate::checktable::ReplayTxVal>,
                    }),
                    forall|j: int| 0 <= j < i ==> acts_view(out@)[acts_view(old(out)@).len() + j]
                        == forward_piece(desc@, data@, tag, context@, tsv)[j],
                decreases n - i,
            {
                let e = &txs[i];
                let dc = data.clone_records();
                let cc = clone_context(context);
                let tc = clone_txstate(txs_state);
                proof {
                    match (txs_state, &tc) {
                        (Some(a), Some(b)) => {
                            assert(a@ == b@);
                            assert(tsv == Some(a@));
                        },
                        (None, None) => {
                            assert(tsv == None::<crate::checktable::ReplayTxVal>);
                        },
                        _ => {
                            assert(false);
                        },
                    }
                    assert((match &tc {
                        Some(t) => Some(t@),
                        None => None::<crate::checktable::ReplayTxVal>,
                    }) == tsv);
                }
                out.push(
                    Action::SendRemote {
                        channel: e.channel,
                        packet: Packet::ReplayPiece {
                            link: Link { src: e.node, dst: e.dest },
                            tag,
                            data: dc,
                            context: cc,
                            transaction_state: tc,
                        },
                    },
                );
                proof {
                    assert(acts_view(out@) =~= acts_view(out@.drop_last()).push(
                        out@.last()@,
                    ));
                    assert(out@.last()@ =~~= (ActionVal::SendRemote {
                        channel: txs@[i as int].channel,
                        packet: PacketVal::ReplayPiece {
                            link: Link { src: txs@[i as int].node, dst: txs@[i as int].dest },
                            tag,
                            data: data@,
                            context: context@,
                            transaction_state: tsv,
                        },
                    }));
                }
                i = i + 1;
            }
            proof {
                assert(acts_view(out@) =~= acts_view(old(out)@) + forward_piece(
                    desc@,
                    data@,
                    tag,
                    context@,
                    tsv,
                ));
            }
        },
        _ => {
            let n = desc.children.len();
            let mut i: usize = 0;
            while i < n
                invariant
                    n == desc.children.len(),
                    i <= n,
                    data@.len() > 0,
                    !(desc@.kind matches NodeKindVal::Egress { .. }),
                    acts_view(out@).len() == acts_view(old(out)@).len() + i,
                    acts_view(out@).subrange(0, acts_view(old(out)@).len() as int) == acts_view(
                        old(out)@,
                    ),
                    tsv == (match txs_state {
                        Some(t) => Some(t@),
                        None => None::<crate::checktable::ReplayTxVal>,
                    }),
                    forall|j: int| 0 <= j < i ==> acts_view(out@)[acts_view(old(out)@).len() + j]
                        == forward_piece(desc@, data@, tag, context@, tsv)[j],
                decreases n - i,
            {
                let c = desc.children[i];
                let dc = data.clone_records();
                let cc = clone_context(context);
                let tc = clone_txstate(txs_state);
                proof {
                    match (txs_state, &tc) {
                        (Some(a), Some(b)) => {
                            assert(a@ == b@);
                            assert(tsv == Some(a@));
                        },
                        (None, None) => {
                            assert(tsv == None::<crate::checktable::ReplayTxVal>);
                        },
                        _ => {
                            assert(false);
                        },
                    }
                    assert((match &tc {
                        Some(t) => Some(t@),
                        None => None::<crate::checktable::ReplayTxVal>,
                    }) == tsv);
                }
                out.push(
                    Action::SendLocal {
                        packet: Packet::ReplayPiece {
                            link: Link { src: desc.addr, dst: NodeAddress::Local(c) },
                            tag,
                            data: dc,
                            context: cc,
                            transaction_state: tc,
                        },
                    },
                );
                proof {
                    assert(acts_view(out@) =~= acts_view(out@.drop_last()).push(
                        out@.last()@,
                    ));
                    assert(out@.last()@ =~~= (ActionVal::SendLocal {
                        packet: PacketVal::ReplayPiece {
                            link: Link {
                                src: desc@.addr,
                                dst: NodeAddress::Local(desc.children@[i as int]),
                            },
                            tag,
                            data: data@,
                            context: context@,
                            transaction_state: tsv,
                        },
                    }));
                }
                i = i + 1;
            }
            proof {
                assert(acts_view(out@) =~= acts_view(old(out)@) + forward_piece(
                    desc@,
                    data@,
                    tag,
                    context@,
                    tsv,
                ));
            }
        },
    }
}

/// Append the stream deliveries a reader owes its streamers.
fn push_streams(out: &mut Vec<Action>, desc: &NodeDescriptor, data: &Records)
    ensures
        acts_view(final(out)@) == acts_view(old(out)@) + stream_acts(desc@, data@),
{
    if data.is_empty() {
        proof {
            assert(acts_view(out@) =~= acts_view(out@) + stream_acts(desc@, data@));
        }
        return ;
    }
    let n = desc.streamers.len();
    let mut i: usize = 0;
    while i < n
        invariant
            n == desc.streamers.len(),
            i <= n,
            data@.len() > 0,
            desc@.streamers == desc.streamers@,
            acts_view(out@).len() == acts_view(old(out)@).len() + i,
            acts_view(out@).subrange(0, acts_view(old(out)@).len() as int) == acts_view(old(out)@),
            forall|j: int| 0 <= j < i ==> acts_view(out@)[acts_view(old(out)@).len() + j]
                == stream_acts(desc@, data@)[j],
        decreases n - i,
    {
        out.push(
            Action::SendStream { channel: desc.streamers[i], data: data.clone_records() },
        );
        proof {
            assert(acts_view(out@) =~= acts_view(out@.drop_last()).push(out@.last()@));
        }
        i = i + 1;
    }
    proof {
        assert(acts_view(out@) =~= acts_view(old(out)@) + stream_acts(desc@, data@));
    }
}

/// Append one local re-injection per admitted transaction, in commit order.
fn push_ready_sends(out: &mut Vec<Action>, ready: Vec<TxEntry>)
    ensures
        acts_view(final(out)@) == acts_view(old(out)@) + txs_view(ready@).map(
            |_i: int, e: TxVal| ActionVal::SendLocal {
                packet: PacketVal::Message { link: e.link, data: e.data, tracer: None },
            },
        ),
{
    let ghost goal = txs_view(ready@).map(
        |_i: int, e: TxVal| ActionVal::SendLocal {
            packet: PacketVal::Message { link: e.link, data: e.data, tracer: None },
        },
    );
    let n = ready.len();
    let mut rest = ready;
    let mut i: usize = 0;
    let ghost all = rest@;
    while i < n
        invariant
            n == all.len(),
            i <= n,
            rest@ =~= all.subrange(i as int, n as int),
            goal == txs_view(all).map(
                |_k: int, e: TxVal| ActionVal::SendLocal {
                    packet: PacketVal::Message { link: e.link, data: e.data, tracer: None },
                },
            ),
            acts_view(out@).len() == acts_view(old(out)@).len() + i,
            acts_view(out@).subrange(0, acts_view(old(out)@).len() as int) == acts_view(old(out)@),
            forall|j: int| 0 <= j < i ==> acts_view(out@)[acts_view(old(out)@).len() + j]
                == goal[j],
        decreases n - i,
    {
        let e = rest.remove(0);
        proof {
            assert(e == all[i as int]);
            assert(rest@ =~= all.subrange(i + 1, n as int));
        }
        out.push(
            Action::SendLocal {
                packet: Packet::Message { link: e.link, data: e.data, tracer: None },
            },
        );
        proof {
            assert(acts_view(out@) =~= acts_view(out@.drop_last()).push(out@.last()@));
            assert(txs_view(all)[i as int] == tx_view(all[i as int]));
        }
        i = i + 1;
    }
    proof {
        assert(acts_view(out@) =~= acts_view(old(out)@) + goal);
    }
}

impl Domain {
    /// Land a processed batch on node `i`'s state, first declaring `fill`
    /// filled when given. `false` when a record misses the state's key
    /// columns: the caller reports the invariant violation.
    fn land_on_node(&mut self, i: usize, data: &Records, fill: Option<&Row>) -> (ok: bool)
        requires
            old(self).wf(),
            i < old(self).nodes@.len(),
        ensures
            final(self).wf(),
            ({
                let fillv = match fill {
                    Some(k) => Some(k@),
                    None => None::<Seq<DataVal>>,
                };
                let r = land(old(self).dv().nodes[i as int].state, data@, fillv);
                &&& ok == r.is_some()
                &&& final(self).dv() == (if r.is_some() {
                    DomainVal {
                        nodes: old(self).dv().nodes.update(
                            i as int,
                            NodeVal {
                                desc: old(self).dv().nodes[i as int].desc,
                                state: r.unwrap(),
                            },
                        ),
                        ..old(self).dv()
                    }
                } else {
                    old(self).dv()
                })
            }),
    {
        let covered = match &self.nodes[i].state {
            NodeState::Stateless => true,
            NodeState::Local(k) => covers_check(data, &k.key_cols),
            NodeState::Glob(b) => covers_check(data, b.key_cols()),
        };
        if !covered {
            proof {
                let fillv = match fill {
                    Some(k) => Some(k@),
                    None => None::<Seq<DataVal>>,
                };
                assert(self == old(self));
                assert(land(old(self).dv().nodes[i as int].state, data@, fillv) is None);
            }
            return false;
        }
        let ghost oldnodes = self.nodes@;
        let entry = &mut self.nodes[i];
        match &mut entry.state {
            NodeState::Stateless => {},
            NodeState::Local(k) => {
                proof {
                    assert forall|a: int| 0 <= a < data@.len() implies k.row_covers_cols(
                        #[trigger] data@[a].row,
                    ) by {}
                }
                match fill {
                    Some(key) => {
                        if k.partial {
                            k.mark_filled(key.clone_row());
                        }
                    },
                    None => {},
                }
                proof {
                    assert forall|a: int| 0 <= a < data@.len() implies k.row_covers_cols(
                        #[trigger] data@[a].row,
                    ) by {}
                }
                k.apply_records(data);
            },
            NodeState::Glob(b) => {
                match fill {
                    Some(key) => {
                        if b.is_partial() {
                            b.mark_filled(key.clone_row());
                        }
                    },
                    None => {},
                }
                proof {
                    assert forall|a: int| 0 <= a < data@.len() implies b.public_side()
                        .row_covers_cols(#[trigger] data@[a].row) by {}
                }
                b.write(data);
            },
        }
        proof {
            let ghost fillv = match fill {
                Some(k) => Some(k@),
                None => None::<Seq<DataVal>>,
            };
            assert(self.nodes@ =~= oldnodes.update(i as int, self.nodes@[i as int]));
            assert(self.nodes@[i as int]@.state =~~= land(
                oldnodes[i as int]@.state,
                data@,
                fillv,
            ).unwrap());
            assert(self.nodes@.map(|_k: int, e: NodeEntry| e@) =~= oldnodes.map(
                |_k: int, e: NodeEntry| e@,
            ).update(
                i as int,
                NodeVal {
                    desc: oldnodes[i as int]@.desc,
                    state: land(oldnodes[i as int]@.state, data@, fillv).unwrap(),
                },
            ));
            assert(self.dv() =~~= (DomainVal {
                nodes: old(self).dv().nodes.update(
                    i as int,
                    NodeVal {
                        desc: old(self).nodes@[i as int]@.desc,
                        state: land(old(self).nodes@[i as int]@.state, data@, fillv).unwrap(),
                    },
                ),
                ..old(self).dv()
            }));
        }
        true
    }
}

/// What `handle` asks of a packet: a state handed over for installation must
/// satisfy its own invariant.
pub open spec fn packet_wf(p: Packet) -> bool {
    match p {
        Packet::PrepareState { state: InitialState::PartialGlobal(b), .. } => b.wf(),
        _ => true,
    }
}

impl Domain {
    /// Consume one packet and produce the runtime's actions. The new domain
    /// state is exactly `state_of` of the old state and the packet value, and
    /// the actions are exactly `actions_of`: the domain is a pure function of
    /// its input order.
    #[verifier::rlimit(100)]
    pub fn handle(&mut self, p: Packet) -> (out: Vec<Action>)
        requires
            old(self).wf(),
            packet_wf(p),
        ensures
            final(self).wf(),
            final(self).dv() == state_of(old(self).dv(), p@),
            acts_view(out@) == actions_of(old(self).dv(), p@),
    {
        let ghost d0 = old(self).dv();
        let ghost pv = p@;
        self.stats.total_packets_processed = saturating_inc(self.stats.total_packets_processed);
        proof {
            assert(self.dv() =~~= bump(d0));
        }
        let ghost d1 = self.dv();
        let mut out: Vec<Action> = Vec::new();
        proof {
            assert(acts_view(out@) =~= Seq::<ActionVal>::empty());
        }
        match p {
            Packet::Message { link, data, tracer } => {
                let mut idx_opt: Option<usize> = None;
                match link.dst {
                    NodeAddress::Local(l) => {
                        if l.id < self.nodes.len() {
                            idx_opt = Some(l.id);
                        }
                    },
                    NodeAddress::Global(_) => {},
                }
                match idx_opt {
                    None => {
                        out.push(Action::Fatal);
                        proof {
                            assert(acts_view(out@) =~= seq![ActionVal::Fatal]);
                        }
                        out
                    },
                    Some(i) => {
                        let out_data = match &self.nodes[i].desc.kind {
                            NodeKind::Filter { col } => filter_records(*col, data),
                            _ => data,
                        };
                        proof {
                            assert(out_data@ == process_recs(d1.nodes[i as int].desc.kind, pv.spec_data()));
                        }
                        let landed = self.land_on_node(i, &out_data, None);
                        proof {
                            assert(self.dv().nodes == self.nodes@.map(
                                |_k: int, e: NodeEntry| e@,
                            ));
                            assert(self.dv().nodes.len() == d1.nodes.len());
                            assert(self.nodes@.len() == d1.nodes.len());
                        }
                        if !landed {
                            out.push(Action::Fatal);
                            proof {
                                assert(acts_view(out@) =~= seq![ActionVal::Fatal]);
                            }
                            return out;
                        }
                        proof {
                            assert(self.dv().nodes == self.nodes@.map(
                                |_k: int, e: NodeEntry| e@,
                            ));
                            assert(self.dv().nodes[i as int] == self.nodes@[i as int]@);
                            assert(self.dv().nodes[i as int].desc == d1.nodes[i as int].desc);
                        }
                        match &tracer {
                            Some(c) => {
                                out.push(
                                    Action::Trace {
                                        channel: *c,
                                        at: 0,
                                        event: PacketEvent::Handle,
                                    },
                                );
                                out.push(
                                    Action::Trace {
                                        channel: *c,
                                        at: 0,
                                        event: PacketEvent::Process,
                                    },
                                );
                            },
                            None => {},
                        }
                        let ghost base = acts_view(out@);
                        proof {
                            assert(base =~= trace_acts(tracer, PacketEvent::Handle) + trace_acts(
                                tracer,
                                PacketEvent::Process,
                            ));
                        }
                        let is_reader = matches!(&self.nodes[i].desc.kind, NodeKind::Reader);
                        if is_reader {
                            match &tracer {
                                Some(c) => {
                                    out.push(
                                        Action::Trace {
                                            channel: *c,
                                            at: 0,
                                            event: PacketEvent::ReachedReader,
                                        },
                                    );
                                },
                                None => {},
                            }
                            let ghost mid = acts_view(out@);
                            proof {
                                assert(mid =~= base + trace_acts(
                                    tracer,
                                    PacketEvent::ReachedReader,
                                ));
                            }
                            push_streams(&mut out, &self.nodes[i].desc, &out_data);
                        }
                        push_forwards(&mut out, &self.nodes[i].desc, &out_data, &tracer);
                        proof {
                            assert(self.nodes@[i as int]@.desc == d1.nodes[i as int].desc);
                            assert(acts_view(out@) =~= msg_acts(
                                d1,
                                link,
                                pv.spec_data(),
                                tracer,
                            ));
                            assert(acts_view(out@) =~= actions_of(d0, pv));
                            assert(self.dv() =~~= state_of(d0, pv));
                        }
                        out
                    },
                }
            },
            Packet::Transaction { link, data, state, tracer } => {
                let mut ts_prev: Option<(i64, i64)> = None;
                match &state {
                    TransactionState::Pending(tok, reply) => {
                        match &tracer {
                            Some(c) => {
                                out.push(
                                    Action::Trace {
                                        channel: *c,
                                        at: 0,
                                        event: PacketEvent::Handle,
                                    },
                                );
                            },
                            None => {},
                        }
                        out.push(Action::CheckTable { token: *tok, reply: *reply });
                        proof {
                            assert(acts_view(out@) =~= trace_acts(tracer, PacketEvent::Handle)
                                + seq![
                                ActionVal::CheckTable { token: *tok, reply: *reply },
                            ]);
                        }
                        return out;
                    },
                    TransactionState::Committed(ts, _base, prevs) => {
                        let prev_opt = match prevs {
                            None => Some(self.gate.last_ts),
                            Some(list) => find_prev_exec(list, self.index),
                        };
                        match prev_opt {
                            None => {},
                            Some(prev) => {
                                ts_prev = Some((*ts, prev));
                            },
                        }
                    },
                    TransactionState::WillCommit => {
                        if self.gate.last_ts < i64::MAX {
                            ts_prev = Some((self.gate.last_ts + 1, self.gate.last_ts));
                        }
                    },
                }
                proof {
                    assert(ts_prev == tx_times(d1, state@));
                }
                match ts_prev {
                    None => {
                        out.push(Action::Fatal);
                        proof {
                            assert(acts_view(out@) =~= seq![ActionVal::Fatal]);
                        }
                        out
                    },
                    Some((ts, prev)) => {
                        if ts <= prev {
                            out.push(Action::Fatal);
                            proof {
                                assert(acts_view(out@) =~= seq![ActionVal::Fatal]);
                            }
                            return out;
                        }
                        let ghost oldbuf = self.gate.buffer@;
                        let entry = TxEntry { ts, prev, link, data };
                        proof {
                            assert(tx_view(entry) == (TxVal {
                                ts,
                                prev,
                                link,
                                data: pv.spec_data(),
                            }));
                        }
                        let ready = self.gate.offer(entry);
                        proof {
                            crate::transactions::lemma_drain_fuel(
                                oldbuf.push(entry),
                                d1.gate_last,
                                d1.gate_window,
                                (oldbuf.len() + 1) as nat,
                            );
                            lemma_drain_view(
                                oldbuf.push(entry),
                                d1.gate_last,
                                d1.gate_window,
                                (oldbuf.len() + 1) as nat,
                            );
                            assert(txs_view(oldbuf.push(entry)) =~= d1.gate_buffer.push(
                                tx_view(entry),
                            ));
                        }
                        match &tracer {
                            Some(c) => {
                                out.push(
                                    Action::Trace {
                                        channel: *c,
                                        at: 0,
                                        event: PacketEvent::Handle,
                                    },
                                );
                            },
                            None => {},
                        }
                        proof {
                            assert(acts_view(out@) =~= trace_acts(tracer, PacketEvent::Handle));
                        }
                        push_ready_sends(&mut out, ready);
                        proof {
                            assert(acts_view(out@) =~= txn_acts(
                                d1,
                                link,
                                pv.spec_data(),
                                state@,
                                tracer,
                            ));
                            assert(acts_view(out@) =~= actions_of(d0, pv));
                            assert(self.dv() =~~= state_of(d0, pv));
                        }
                        out
                    },
                }
            },
            Packet::ReplayPiece { link, tag, data, context, transaction_state } => {
                let out = self.handle_piece(link, tag, data, context, transaction_state);
                proof {
                    assert(self.dv() =~~= state_of(d0, pv));
                }
                out
            },
            Packet::FullReplay { link, tag, state } => {
                let recs = records_of_rows(state);
                let out = self.handle_piece(
                    link,
                    tag,
                    recs,
                    ReplayPieceContext::Regular { last: true },
                    None,
                );
                proof {
                    assert(self.dv() =~~= state_of(d0, pv));
                }
                out
            },
            _ => {
                let out = self.handle_control(p);
                proof {
                    assert(self.dv() =~~= state_of(d0, pv));
                }
                out
            },
        }
    }
}

impl Domain {
    /// Route one replay chunk: apply it at the addressed node (filling the
    /// replayed key when partial), resolve captures at a join, forward the
    /// processed piece, and fire the path's completion ack when a full
    /// replay drains at its terminal node.
    #[verifier::rlimit(100)]
    fn handle_piece(
        &mut self,
        link: Link,
        tag: Tag,
        data: Records,
        context: ReplayPieceContext,
        tstate: Option<crate::checktable::ReplayTransactionState>,
    ) -> (out: Vec<Action>)
        requires
            old(self).wf(),
        ensures
            final(self).wf(),
            final(self).dv() == piece_state(old(self).dv(), link, tag, data@, context@),
            acts_view(out@) == piece_acts(
                old(self).dv(),
                link,
                tag,
                data@,
                context@,
                (match tstate {
                    Some(t) => Some(t@),
                    None => None,
                }),
            ),
    {
        let ghost d1 = self.dv();
        let ghost dv0 = data@;
        let mut out: Vec<Action> = Vec::new();
        proof {
            assert(acts_view(out@) =~= Seq::<ActionVal>::empty());
        }
        let is_partial_ignore = match &context {
            ReplayPieceContext::Partial { ignore, .. } => *ignore,
            _ => false,
        };
        if is_partial_ignore {
            return out;
        }
        let mut idx_opt: Option<usize> = None;
        match link.dst {
            NodeAddress::Local(l) => {
                if l.id < self.nodes.len() {
                    idx_opt = Some(l.id);
                }
            },
            NodeAddress::Global(_) => {},
        }
        let i = match idx_opt {
            Some(i) => i,
            None => {
                out.push(Action::Fatal);
                proof {
                    assert(acts_view(out@) =~= seq![ActionVal::Fatal]);
                }
                return out;
            },
        };
        let is_join = matches!(&self.nodes[i].desc.kind, NodeKind::PairJoin { .. });
        match &context {
            ReplayPieceContext::Partial { for_key, ignore: _ } => {
                if is_join {
                    let ghost oldnodes = self.nodes@;
                    let mut release: Option<Records> = None;
                    let entry = &mut self.nodes[i];
                    match &mut entry.desc.kind {
                        NodeKind::PairJoin { held } => {
                            let taken = core::mem::replace(held, None);
                            match taken {
                                None => {
                                    *held = Some(data);
                                },
                                Some(mut prev) => {
                                    let mut rest = data;
                                    prev.append(&mut rest);
                                    release = Some(prev);
                                },
                            }
                        },
                        _ => {
                            proof {
                                assert(false);
                            }
                        },
                    }
                    proof {
                        assert(self.nodes@ =~= oldnodes.update(i as int, self.nodes@[i as int]));
                        assert(self.nodes@.map(|_k: int, e: NodeEntry| e@) =~= oldnodes.map(
                            |_k: int, e: NodeEntry| e@,
                        ).update(i as int, self.nodes@[i as int]@));
                    }
                    match &release {
                        None => {
                            proof {
                                assert(self.dv() =~~= piece_state(d1, link, tag, dv0, context@));
                            }
                            return out;
                        },
                        Some(combined) => {
                            push_piece_forwards(
                                &mut out,
                                &self.nodes[i].desc,
                                combined,
                                tag,
                                &context,
                                &tstate,
                            );
                            proof {
                                assert(self.dv() =~~= piece_state(d1, link, tag, dv0, context@));
                                assert(acts_view(out@) =~= piece_acts(
                                    d1,
                                    link,
                                    tag,
                                    dv0,
                                    context@,
                                    (match tstate {
                                        Some(t) => Some(t@),
                                        None => None,
                                    }),
                                ));
                            }
                            return out;
                        },
                    }
                }
                let out_data = match &self.nodes[i].desc.kind {
                    NodeKind::Filter { col } => filter_records(*col, data),
                    _ => data,
                };
                proof {
                    assert(out_data@ == process_recs(d1.nodes[i as int].desc.kind, dv0));
                }
                let landed = self.land_on_node(i, &out_data, Some(for_key));
                proof {
                    assert(self.dv().nodes == self.nodes@.map(|_k: int, e: NodeEntry| e@));
                    assert(self.dv().nodes.len() == d1.nodes.len());
                    assert(self.nodes@.len() == d1.nodes.len());
                }
                if !landed {
                    out.push(Action::Fatal);
                    proof {
                        assert(acts_view(out@) =~= seq![ActionVal::Fatal]);
                    }
                    return out;
                }
                self.registry.complete(tag, for_key);
                proof {
                    assert(self.dv().nodes == self.nodes@.map(|_k: int, e: NodeEntry| e@));
                    assert(self.dv().nodes[i as int] == self.nodes@[i as int]@);
                    assert(self.dv().nodes[i as int].desc == d1.nodes[i as int].desc);
                    assert(self.dv().paths == d1.paths);
                    assert(self.dv().pending == crate::replay::pending_after_complete(
                        d1.pending,
                        tag.id,
                        for_key@,
                    ));
                }
                push_piece_forwards(
                    &mut out,
                    &self.nodes[i].desc,
                    &out_data,
                    tag,
                    &context,
                    &tstate,
                );
                proof {
                    assert(self.dv() =~~= piece_state(d1, link, tag, dv0, context@));
                    assert(acts_view(out@) =~= piece_acts(
                        d1,
                        link,
                        tag,
                        dv0,
                        context@,
                        (match tstate {
                            Some(t) => Some(t@),
                            None => None,
                        }),
                    ));
                }
                out
            },
            ReplayPieceContext::Regular { last } => {
                let out_data = match &self.nodes[i].desc.kind {
                    NodeKind::Filter { col } => filter_records(*col, data),
                    _ => data,
                };
                proof {
                    assert(out_data@ == process_recs(d1.nodes[i as int].desc.kind, dv0));
                }
                let landed = self.land_on_node(i, &out_data, None);
                proof {
                    assert(self.dv().nodes == self.nodes@.map(|_k: int, e: NodeEntry| e@));
                    assert(self.dv().nodes.len() == d1.nodes.len());
                    assert(self.nodes@.len() == d1.nodes.len());
                }
                if !landed {
                    out.push(Action::Fatal);
                    proof {
                        assert(acts_view(out@) =~= seq![ActionVal::Fatal]);
                    }
                    return out;
                }
                proof {
                    assert(self.dv().nodes == self.nodes@.map(|_k: int, e: NodeEntry| e@));
                    assert(self.dv().nodes[i as int] == self.nodes@[i as int]@);
                    assert(self.dv().nodes[i as int].desc == d1.nodes[i as int].desc);
                    assert(self.dv().paths == d1.paths);
                    assert(self.dv().pending == d1.pending);
                }
                push_piece_forwards(
                    &mut out,
                    &self.nodes[i].desc,
                    &out_data,
                    tag,
                    &context,
                    &tstate,
                );
                let terminal = match &self.nodes[i].desc.kind {
                    NodeKind::Egress { txs, .. } => txs.len() == 0,
                    _ => self.nodes[i].desc.children.len() == 0,
                };
                let ghost mid = acts_view(out@);
                if *last && terminal {
                    match self.registry.path_for(tag) {
                        Some(path) => {
                            proof {
                                lemma_path_index_view(self.registry.paths@, tag.id);
                            }
                            match &path.done_tx {
                                Some(c) => {
                                    out.push(Action::Ack { channel: *c });
                                },
                                None => {},
                            }
                        },
                        None => {
                            proof {
                                lemma_path_index_view(self.registry.paths@, tag.id);
                            }
                        },
                    }
                }
                proof {
                    assert(self.dv() =~~= piece_state(d1, link, tag, dv0, context@));
                    assert(acts_view(out@) =~= mid + done_acts(
                        d1,
                        tag,
                        d1.nodes[i as int].desc,
                        *last,
                    ));
                    assert(acts_view(out@) =~= piece_acts(
                        d1,
                        link,
                        tag,
                        dv0,
                        context@,
                        (match tstate {
                            Some(t) => Some(t@),
                            None => None,
                        }),
                    ));
                }
                out
            },
        }
    }
}

impl Domain {
    /// Dispatch the control packets: graph edits, replay setup, state
    /// preparation, migration boundaries, probes and termination.
    #[verifier::rlimit(100)]
    fn handle_control(&mut self, p: Packet) -> (out: Vec<Action>)
        requires
            old(self).wf(),
            packet_wf(p),
            !(p matches Packet::Message { .. }),
            !(p matches Packet::Transaction { .. }),
            !(p matches Packet::ReplayPiece { .. }),
            !(p matches Packet::FullReplay { .. }),
        ensures
            final(self).wf(),
            final(self).dv() == state_nb(old(self).dv(), p@),
            acts_view(out@) == acts_nb(old(self).dv(), p@),
    {
        let ghost d1 = self.dv();
        let ghost pv = p@;
        let mut out: Vec<Action> = Vec::new();
        proof {
            assert(acts_view(out@) =~= Seq::<ActionVal>::empty());
        }
        match p {
            Packet::RequestPartialReplay { tag, key } => {
                let issue = self.registry.request_partial(tag, key.clone_row());
                proof {
                    assert(self.dv() =~~= state_nb(d1, pv));
                }
                if !issue {
                    return out;
                }
                match self.registry.path_for(tag) {
                    None => {
                        proof {
                            lemma_path_index_view(self.registry.paths@, tag.id);
                        }
                        out.push(Action::Fatal);
                        proof {
                            assert(acts_view(out@) =~= seq![ActionVal::Fatal]);
                        }
                        out
                    },
                    Some(path) => {
                        proof {
                            lemma_path_index_view(self.registry.paths@, tag.id);
                        }
                        match &path.trigger {
                            TriggerEndpoint::End(c) => {
                                out.push(
                                    Action::SendRemote {
                                        channel: *c,
                                        packet: Packet::RequestPartialReplay { tag, key },
                                    },
                                );
                                proof {
                                    assert(acts_view(out@) =~= acts_nb(d1, pv));
                                }
                                out
                            },
                            TriggerEndpoint::NoTrigger => {
                                out.push(Action::Fatal);
                                proof {
                                    assert(acts_view(out@) =~= seq![ActionVal::Fatal]);
                                }
                                out
                            },
                            _ => {
                                let mut src_idx: Option<usize> = None;
                                match &path.source {
                                    Some(NodeAddress::Local(l)) => {
                                        if l.id < self.nodes.len() {
                                            src_idx = Some(l.id);
                                        }
                                    },
                                    _ => {},
                                }
                                match src_idx {
                                    None => {
                                        out.push(Action::Fatal);
                                        proof {
                                            assert(acts_view(out@) =~= seq![ActionVal::Fatal]);
                                        }
                                        out
                                    },
                                    Some(si) => {
                                        match &self.nodes[si].state {
                                            NodeState::Local(k) => {
                                                if path.path.len() == 0 {
                                                    out.push(Action::Fatal);
                                                    proof {
                                                        assert(acts_view(out@) =~= seq![
                                                            ActionVal::Fatal,
                                                        ]);
                                                    }
                                                    return out;
                                                }
                                                match k.lookup(&key) {
                                                    LookupResult::Hit(rows) => {
                                                        let src_addr = match &path.source {
                                                            Some(a) => *a,
                                                            None => unreached(),
                                                        };
                                                        out.push(
                                                            Action::SendLocal {
                                                                packet: Packet::ReplayPiece {
                                                                    link: Link {
                                                                        src: src_addr,
                                                                        dst: path.path[0].0,
                                                                    },
                                                                    tag,
                                                                    data: records_of_rows(rows),
                                                                    context: ReplayPieceContext::Partial {
                                                                        for_key: key,
                                                                        ignore: false,
                                                                    },
                                                                    transaction_state: None,
                                                                },
                                                            },
                                                        );
                                                        proof {
                                                            assert(acts_view(out@) =~= acts_nb(
                                                                d1,
                                                                pv,
                                                            ));
                                                        }
                                                        out
                                                    },
                                                    LookupResult::Miss => {
                                                        out.push(Action::Fatal);
                                                        proof {
                                                            assert(acts_view(out@) =~= seq![
                                                                ActionVal::Fatal,
                                                            ]);
                                                        }
                                                        out
                                                    },
                                                }
                                            },
                                            _ => {
                                                out.push(Action::Fatal);
                                                proof {
                                                    assert(acts_view(out@) =~= seq![
                                                        ActionVal::Fatal,
                                                    ]);
                                                }
                                                out
                                            },
                                        }
                                    },
                                }
                            },
                        }
                    },
                }
            },
            Packet::StartReplay { tag, from, ack } => {
                match self.registry.path_for(tag) {
                    None => {
                        proof {
                            lemma_path_index_view(self.registry.paths@, tag.id);
                        }
                        out.push(Action::Fatal);
                        proof {
                            assert(acts_view(out@) =~= seq![ActionVal::Fatal]);
                        }
                        out
                    },
                    Some(path) => {
                        proof {
                            lemma_path_index_view(self.registry.paths@, tag.id);
                        }
                        let mut src_idx: Option<usize> = None;
                        match from {
                            NodeAddress::Local(l) => {
                                if l.id < self.nodes.len() && path.path.len() > 0 {
                                    src_idx = Some(l.id);
                                }
                            },
                            NodeAddress::Global(_) => {},
                        }
                        match src_idx {
                            None => {
                                out.push(Action::Fatal);
                                proof {
                                    assert(acts_view(out@) =~= seq![ActionVal::Fatal]);
                                }
                                out
                            },
                            Some(si) => {
                                let dump: Vec<Row> = match &self.nodes[si].state {
                                    NodeState::Local(k) => k.clone_rows(),
                                    NodeState::Glob(b) => b.clone_rows(),
                                    NodeState::Stateless => {
                                        out.push(Action::Fatal);
                                        proof {
                                            assert(acts_view(out@) =~= seq![ActionVal::Fatal]);
                                        }
                                        return out;
                                    },
                                };
                                out.push(
                                    Action::SendLocal {
                                        packet: Packet::FullReplay {
                                            link: Link { src: from, dst: path.path[0].0 },
                                            tag,
                                            state: dump,
                                        },
                                    },
                                );
                                out.push(Action::Ack { channel: ack });
                                proof {
                                    assert(acts_view(out@) =~= acts_nb(d1, pv));
                                }
                                out
                            },
                        }
                    },
                }
            },
            Packet::SetupReplayPath { tag, source, path, done_tx, trigger, ack } => {
                let fresh = match self.registry.path_for(tag) {
                    Some(_) => false,
                    None => true,
                };
                proof {
                    lemma_path_index_view(self.registry.paths@, tag.id);
                }
                if !fresh {
                    out.push(Action::Fatal);
                    proof {
                        assert(acts_view(out@) =~= seq![ActionVal::Fatal]);
                    }
                    return out;
                }
                self.registry.add_path(ReplayPath { tag, source, path, done_tx, trigger });
                out.push(Action::Ack { channel: ack });
                proof {
                    assert(self.registry.paths@.map(|_i: int, q: ReplayPath| path_view(q)) =~= d1
                        .paths.push(
                        path_view(self.registry.paths@.last()),
                    ));
                    assert(self.dv() =~~= state_nb(d1, pv));
                    assert(acts_view(out@) =~= acts_nb(d1, pv));
                }
                out
            },
            Packet::PrepareState { node, state } => {
                if node.id >= self.nodes.len() {
                    out.push(Action::Fatal);
                    proof {
                        assert(acts_view(out@) =~= seq![ActionVal::Fatal]);
                    }
                    return out;
                }
                let i = node.id;
                let ghost oldnodes = self.nodes@;
                match state {
                    InitialState::PartialLocal(c) => {
                        let mut cols: Vec<usize> = Vec::new();
                        cols.push(c);
                        proof {
                            assert(cols@ =~= seq![c]);
                        }
                        let ns = NodeState::Local(KeyedState::new(cols, true));
                        let entry = &mut self.nodes[i];
                        entry.state = ns;
                    },
                    InitialState::IndexedLocal(v) => {
                        if v.len() == 0 {
                            out.push(Action::Fatal);
                            proof {
                                assert(acts_view(out@) =~= seq![ActionVal::Fatal]);
                            }
                            return out;
                        }
                        let mut vv = v;
                        let first = vv.remove(0);
                        let ns = NodeState::Local(KeyedState::new(first, false));
                        let entry = &mut self.nodes[i];
                        entry.state = ns;
                    },
                    InitialState::PartialGlobal(b) => {
                        let ns = NodeState::Glob(b);
                        let entry = &mut self.nodes[i];
                        entry.state = ns;
                    },
                    InitialState::Global => {
                        let ns = NodeState::Glob(crate::backlog::Backlog::new(Vec::new(), false));
                        let entry = &mut self.nodes[i];
                        entry.state = ns;
                    },
                }
                proof {
                    assert(self.nodes@ =~= oldnodes.update(i as int, self.nodes@[i as int]));
                    assert(self.nodes@.map(|_k: int, e: NodeEntry| e@) =~= oldnodes.map(
                        |_k: int, e: NodeEntry| e@,
                    ).update(i as int, self.nodes@[i as int]@));
                    assert(self.dv() =~~= state_nb(d1, pv));
                }
                out
            },
            Packet::StateSizeProbe { node, ack } => {
                if node.id >= self.nodes.len() {
                    out.push(Action::Fatal);
                    proof {
                        assert(acts_view(out@) =~= seq![ActionVal::Fatal]);
                    }
                    return out;
                }
                let size = match &self.nodes[node.id].state {
                    NodeState::Local(k) => k.row_count(),
                    NodeState::Glob(b) => b.len(),
                    NodeState::Stateless => 0,
                };
                out.push(Action::ReplySize { channel: ack, size });
                proof {
                    assert(acts_view(out@) =~= acts_nb(d1, pv));
                }
                out
            },
            Packet::Ready { node, index, ack } => {
                if node.id >= self.nodes.len() {
                    out.push(Action::Fatal);
                    proof {
                        assert(acts_view(out@) =~= seq![ActionVal::Fatal]);
                    }
                    return out;
                }
                let i = node.id;
                let stateless = matches!(&self.nodes[i].state, NodeState::Stateless);
                if stateless && index.len() > 0 {
                    let ghost oldnodes = self.nodes@;
                    let mut vv = index;
                    let first = vv.remove(0);
                    let ns = NodeState::Local(KeyedState::new(first, false));
                    let entry = &mut self.nodes[i];
                    entry.state = ns;
                    proof {
                        assert(self.nodes@ =~= oldnodes.update(i as int, self.nodes@[i as int]));
                        assert(self.nodes@.map(|_k: int, e: NodeEntry| e@) =~= oldnodes.map(
                            |_k: int, e: NodeEntry| e@,
                        ).update(i as int, self.nodes@[i as int]@));
                    }
                }
                out.push(Action::Ack { channel: ack });
                proof {
                    assert(self.dv() =~~= state_nb(d1, pv));
                    assert(acts_view(out@) =~= acts_nb(d1, pv));
                }
                out
            },
            Packet::AddNode { node, parents } => {
                let child = LocalNodeIndex::new(self.nodes.len());
                let n = parents.len();
                let mut i: usize = 0;
                proof {
                    assert(parents@.subrange(0, 0) =~= Seq::<LocalNodeIndex>::empty());
                }
                while i < n
                    invariant
                        n == parents.len(),
                        i <= n,
                        self.wf(),
                        child.id == d1.nodes.len(),
                        self.nodes@.len() == d1.nodes.len(),
                        self.registry == old(self).registry,
                        self.gate == old(self).gate,
                        self.index == old(self).index,
                        self.unbounded == old(self).unbounded,
                        self.ingress_from_base == old(self).ingress_from_base,
                        self.stats == old(self).stats,
                        self.running == old(self).running,
                        d1 == old(self).dv(),
                        self.nodes@.map(|_k: int, e: NodeEntry| e@) == wire_parents(
                            d1.nodes,
                            parents@.subrange(0, i as int),
                            child,
                        ),
                    decreases n - i,
                {
                    let pidx = parents[i];
                    let ghost pre = self.nodes@.map(|_k: int, e: NodeEntry| e@);
                    if pidx.id < self.nodes.len() {
                        let entry = &mut self.nodes[pidx.id];
                        entry.desc.children.push(child);
                        proof {
                            assert(self.nodes@.map(|_k: int, e: NodeEntry| e@) =~= pre.update(
                                pidx.id as int,
                                NodeVal {
                                    desc: NodeDescVal {
                                        children: pre[pidx.id as int].desc.children.push(child),
                                        ..pre[pidx.id as int].desc
                                    },
                                    ..pre[pidx.id as int]
                                },
                            ));
                        }
                    }
                    proof {
                        assert(parents@.subrange(0, i + 1) =~= parents@.subrange(0, i as int).push(
                            parents@[i as int],
                        ));
                        lemma_wire_parents_push(
                            d1.nodes,
                            parents@.subrange(0, i as int),
                            parents@[i as int],
                            child,
                        );
                    }
                    i = i + 1;
                }
                proof {
                    assert(parents@.subrange(0, n as int) =~= parents@);
                }
                self.nodes.push(NodeEntry { desc: node, state: NodeState::Stateless });
                proof {
                    assert(self.nodes@.map(|_k: int, e: NodeEntry| e@) =~= wire_parents(
                        d1.nodes,
                        parents@,
                        child,
                    ).push(self.nodes@.last()@));
                    assert(self.dv() =~~= state_nb(d1, pv));
                }
                out
            },
            Packet::AddBaseColumn { node, field, default, ack } => {
                let valid = node.id < self.nodes.len() && matches!(
                    &self.nodes[node.id].desc.kind,
                    NodeKind::Base { .. },
                );
                if !valid {
                    out.push(Action::Fatal);
                    proof {
                        assert(acts_view(out@) =~= seq![ActionVal::Fatal]);
                    }
                    return out;
                }
                let ghost oldnodes = self.nodes@;
                let entry = &mut self.nodes[node.id];
                match &mut entry.desc.kind {
                    NodeKind::Base { fields, defaults } => {
                        fields.push(field);
                        defaults.push(default);
                    },
                    _ => {
                        proof {
                            assert(false);
                        }
                    },
                }
                out.push(Action::Ack { channel: ack });
                proof {
                    assert(self.nodes@ =~= oldnodes.update(
                        node.id as int,
                        self.nodes@[node.id as int],
                    ));
                    assert(self.nodes@.map(|_k: int, e: NodeEntry| e@) =~= oldnodes.map(
                        |_k: int, e: NodeEntry| e@,
                    ).update(node.id as int, self.nodes@[node.id as int]@));
                    assert(self.nodes@[node.id as int]@ =~~= state_nb(d1, pv).nodes[node.id as int]);
                    assert(self.dv() =~~= state_nb(d1, pv));
                    assert(acts_view(out@) =~= acts_nb(d1, pv));
                }
                out
            },
            Packet::DropBaseColumn { node, column, ack } => {
                let mut valid = node.id < self.nodes.len();
                if valid {
                    valid = match &self.nodes[node.id].desc.kind {
                        NodeKind::Base { fields, defaults } => column < fields.len() && column
                            < defaults.len(),
                        _ => false,
                    };
                }
                if !valid {
                    out.push(Action::Fatal);
                    proof {
                        assert(acts_view(out@) =~= seq![ActionVal::Fatal]);
                    }
                    return out;
                }
                let ghost oldnodes = self.nodes@;
                let entry = &mut self.nodes[node.id];
                match &mut entry.desc.kind {
                    NodeKind::Base { fields, defaults } => {
                        fields.remove(column);
                        defaults.remove(column);
                    },
                    _ => {
                        proof {
                            assert(false);
                        }
                    },
                }
                out.push(Action::Ack { channel: ack });
                proof {
                    assert(self.nodes@ =~= oldnodes.update(
                        node.id as int,
                        self.nodes@[node.id as int],
                    ));
                    assert(self.nodes@.map(|_k: int, e: NodeEntry| e@) =~= oldnodes.map(
                        |_k: int, e: NodeEntry| e@,
                    ).update(node.id as int, self.nodes@[node.id as int]@));
                    assert(self.nodes@[node.id as int]@ =~~= state_nb(d1, pv).nodes[node.id as int]);
                    assert(self.dv() =~~= state_nb(d1, pv));
                    assert(acts_view(out@) =~= acts_nb(d1, pv));
                }
                out
            },
            Packet::UpdateEgress { node, new_tx, new_tag } => {
                let valid = node.id < self.nodes.len() && matches!(
                    &self.nodes[node.id].desc.kind,
                    NodeKind::Egress { .. },
                );
                if !valid {
                    out.push(Action::Fatal);
                    proof {
                        assert(acts_view(out@) =~= seq![ActionVal::Fatal]);
                    }
                    return out;
                }
                let ghost oldnodes = self.nodes@;
                let entry = &mut self.nodes[node.id];
                match &mut entry.desc.kind {
                    NodeKind::Egress { txs, tags } => {
                        match new_tx {
                            Some((a, b, c)) => {
                                txs.push(EgressTx { node: a, dest: b, channel: c });
                            },
                            None => {},
                        }
                        match new_tag {
                            Some(t) => {
                                tags.push(t);
                            },
                            None => {},
                        }
                    },
                    _ => {
                        proof {
                            assert(false);
                        }
                    },
                }
                proof {
                    assert(self.nodes@ =~= oldnodes.update(
                        node.id as int,
                        self.nodes@[node.id as int],
                    ));
                    assert(self.nodes@.map(|_k: int, e: NodeEntry| e@) =~= oldnodes.map(
                        |_k: int, e: NodeEntry| e@,
                    ).update(node.id as int, self.nodes@[node.id as int]@));
                    assert(self.nodes@[node.id as int]@ =~~= state_nb(d1, pv).nodes[node.id as int]);
                    assert(self.dv() =~~= state_nb(d1, pv));
                }
                out
            },
            Packet::AddStreamer { node, new_streamer } => {
                let valid = node.id < self.nodes.len() && matches!(
                    &self.nodes[node.id].desc.kind,
                    NodeKind::Reader,
                );
                if !valid {
                    out.push(Action::Fatal);
                    proof {
                        assert(acts_view(out@) =~= seq![ActionVal::Fatal]);
                    }
                    return out;
                }
                let ghost oldnodes = self.nodes@;
                let entry = &mut self.nodes[node.id];
                entry.desc.streamers.push(new_streamer);
                proof {
                    assert(self.nodes@ =~= oldnodes.update(
                        node.id as int,
                        self.nodes@[node.id as int],
                    ));
                    assert(self.nodes@.map(|_k: int, e: NodeEntry| e@) =~= oldnodes.map(
                        |_k: int, e: NodeEntry| e@,
                    ).update(node.id as int, self.nodes@[node.id as int]@));
                    assert(self.dv() =~~= state_nb(d1, pv));
                }
                out
            },
            Packet::RequestUnboundedTx(c) => {
                out.push(Action::ReplyUnbounded { channel: c, unbounded: self.unbounded });
                proof {
                    assert(acts_view(out@) =~= acts_nb(d1, pv));
                }
                out
            },
            Packet::StartMigration { at, prev_ts, ack } => {
                let ok = self.gate.window.is_none() && prev_ts >= self.gate.last_ts && at
                    > prev_ts;
                if !ok {
                    out.push(Action::Fatal);
                    proof {
                        assert(acts_view(out@) =~= seq![ActionVal::Fatal]);
                    }
                    return out;
                }
                self.gate.start_migration(at, prev_ts);
                out.push(Action::Ack { channel: ack });
                proof {
                    assert(self.dv() =~~= state_nb(d1, pv));
                    assert(acts_view(out@) =~= acts_nb(d1, pv));
                }
                out
            },
            Packet::CompleteMigration { at, ingress_from_base } => {
                let matched = match self.gate.window {
                    Some((w_at, _)) => w_at == at,
                    None => false,
                };
                if !matched {
                    out.push(Action::Fatal);
                    proof {
                        assert(acts_view(out@) =~= seq![ActionVal::Fatal]);
                    }
                    return out;
                }
                let ghost oldbuf = self.gate.buffer@;
                let ready = self.gate.complete_migration(at);
                self.ingress_from_base = ingress_from_base;
                proof {
                    lemma_drain_view(oldbuf, (at - 1) as i64, None, oldbuf.len());
                }
                push_ready_sends(&mut out, ready);
                proof {
                    assert(self.dv() =~~= state_nb(d1, pv));
                    assert(acts_view(out@) =~= acts_nb(d1, pv));
                }
                out
            },
            Packet::GetStatistics(c) => {
                let mut nstats: Vec<(usize, NodeStats)> = Vec::new();
                let n = self.nodes.len();
                let mut i: usize = 0;
                while i < n
                    invariant
                        n == self.nodes.len(),
                        i <= n,
                        nstats@.len() == i,
                        forall|j: int| 0 <= j < i ==> nstats@[j] == node_stats_of(
                            self.nodes@.map(|_k: int, e: NodeEntry| e@),
                        )[j],
                    decreases n - i,
                {
                    let rows = match &self.nodes[i].state {
                        NodeState::Local(k) => k.row_count(),
                        NodeState::Glob(b) => b.len(),
                        NodeState::Stateless => 0,
                    };
                    nstats.push((i, NodeStats { rows_materialized: rows as u64, bytes: 0 }));
                    i = i + 1;
                }
                proof {
                    assert(nstats@ =~= node_stats_of(d1.nodes));
                }
                out.push(
                    Action::ReplyStats { channel: c, domain: self.stats, nodes: nstats },
                );
                proof {
                    assert(acts_view(out@) =~= acts_nb(d1, pv));
                }
                out
            },
            Packet::Finish(tag, _node) => {
                match self.registry.path_for(tag) {
                    None => {
                        proof {
                            lemma_path_index_view(self.registry.paths@, tag.id);
                        }
                        out.push(Action::Fatal);
                        proof {
                            assert(acts_view(out@) =~= seq![ActionVal::Fatal]);
                        }
                        out
                    },
                    Some(path) => {
                        proof {
                            lemma_path_index_view(self.registry.paths@, tag.id);
                        }
                        match &path.done_tx {
                            Some(ch) => {
                                out.push(Action::Ack { channel: *ch });
                            },
                            None => {},
                        }
                        proof {
                            assert(acts_view(out@) =~= acts_nb(d1, pv));
                        }
                        out
                    },
                }
            },
            Packet::Quit => {
                self.running = false;
                proof {
                    assert(self.dv() =~~= state_nb(d1, pv));
                }
                out
            },
            Packet::Captured => out,
            Packet::Empty => out,
            _ => {
                proof {
                    assert(false);
                }
                out
            },
        }
    }
}

/// Determinism: the domain is a pure function of its input order. Two
/// domains in the same state, fed the same packet value, move to the same
/// state and emit the same actions — so for any fixed packet sequence the
/// sequence of output packets on each egress is a function of that sequence
/// alone.
pub proof fn lemma_determinism(d1: DomainVal, d2: DomainVal, p1: PacketVal, p2: PacketVal)
    requires
        d1 == d2,
        p1 == p2,
    ensures
        state_of(d1, p1) == state_of(d2, p2),
        actions_of(d1, p1) == actions_of(d2, p2),
{
}

/// Empty-packet elision: a node's fan-out forwards nothing when the
/// processed update is empty, and every data packet it does forward carries
/// at least one record.
pub proof fn lemma_empty_elision(
    desc: NodeDescVal,
    out: Seq<RecordVal>,
    tracer: Tracer,
    tag: Tag,
    context: ContextVal,
    ts: Option<crate::checktable::ReplayTxVal>,
)
    ensures
        out.len() == 0 ==> forward_acts(desc, out, tracer) == Seq::<ActionVal>::empty(),
        out.len() == 0 ==> forward_piece(desc, out, tag, context, ts) == Seq::<ActionVal>::empty(),
        forall|i: int| 0 <= i < forward_acts(desc, out, tracer).len() ==> (match #[trigger] forward_acts(
            desc,
            out,
            tracer,
        )[i] {
            ActionVal::SendLocal { packet } => !packet.spec_is_empty(),
            ActionVal::SendRemote { packet, .. } => !packet.spec_is_empty(),
            _ => true,
        }),
        forall|i: int| 0 <= i < forward_piece(desc, out, tag, context, ts).len() ==> (match
            #[trigger] forward_piece(desc, out, tag, context, ts)[i] {
            ActionVal::SendLocal { packet } => !packet.spec_is_empty(),
            ActionVal::SendRemote { packet, .. } => !packet.spec_is_empty(),
            _ => true,
        }),
{
}

/// Clone idempotence: a copy with the same packet value drives the domain
/// exactly as the original does, so cloning a packet and processing both
/// copies yields the state and outputs of processing the original twice.
pub proof fn lemma_clone_idempotence(d: DomainVal, p: PacketVal, c: PacketVal)
    requires
        c == p,
    ensures
        state_of(state_of(d, p), c) == state_of(state_of(d, p), p),
        actions_of(state_of(d, p), c) == actions_of(state_of(d, p), p),
{
}

/// A value copy of a replay context.
fn clone_context(c: &ReplayPieceContext) -> (r: ReplayPieceContext)
    ensures
        r@ == c@,
{
    match c {
        ReplayPieceContext::Partial { for_key, ignore } => ReplayPieceContext::Partial {
            for_key: for_key.clone_row(),
            ignore: *ignore,
        },
        ReplayPieceContext::Regular { last } => ReplayPieceContext::Regular { last: *last },
    }
}

/// The index of the first path value configured for `tag`, or `-1`.
pub open spec fn path_index_v(paths: Seq<PathVal>, tag: u32) -> int
    decreases paths.len(),
{
    if paths.len() == 0 {
        -1
    } else if paths[0].tag.id == tag {
        0
    } else {
        let m = path_index_v(paths.drop_first(), tag);
        if m == -1 {
            -1
        } else {
            m + 1
        }
    }
}

pub proof fn lemma_path_index_view(paths: Seq<ReplayPath>, tag: u32)
    ensures
        path_index_v(paths.map(|_i: int, p: ReplayPath| path_view(p)), tag)
            == crate::replay::path_index_of(paths, tag),
    decreases paths.len(),
{
    let mapped = paths.map(|_i: int, p: ReplayPath| path_view(p));
    if paths.len() > 0 {
        assert(mapped[0] == path_view(paths[0]));
        assert(mapped.drop_first() =~= paths.drop_first().map(
            |_i: int, p: ReplayPath| path_view(p),
        ));
        lemma_path_index_view(paths.drop_first(), tag);
    }
}

/// The state after one packet: the model [`Domain::handle`] is proved
/// against. Every handled packet bumps the packet counter; what else changes
/// depends on the packet, exactly as written here.
pub open spec fn state_of(d: DomainVal, p: PacketVal) -> DomainVal {
    state_nb(bump(d), p)
}

/// `state_of` after the counter bump.
pub open spec fn state_nb(d1: DomainVal, p: PacketVal) -> DomainVal {
    match p {
        PacketVal::Message { link, data, tracer: _ } => msg_state(d1, link, data),
        PacketVal::Transaction { link, data, state, tracer: _ } => txn_state(d1, link, data, state),
        PacketVal::ReplayPiece { link, tag, data, context, transaction_state: _ } => piece_state(
            d1,
            link,
            tag,
            data,
            context,
        ),
        PacketVal::FullReplay { link, tag, state } => piece_state(
            d1,
            link,
            tag,
            positives(state),
            ContextVal::Regular { last: true },
        ),
        PacketVal::RequestPartialReplay { tag, key } => if d1.pending.contains((tag.id, key)) {
            d1
        } else {
            DomainVal { pending: d1.pending.push((tag.id, key)), ..d1 }
        },
        PacketVal::StartReplay { .. } => d1,
        PacketVal::SetupReplayPath { tag, source, path, done_tx, trigger, ack: _ } => if path_index_v(
            d1.paths,
            tag.id,
        ) == -1 {
            DomainVal {
                paths: d1.paths.push(PathVal { tag, source, path, done_tx, trigger }),
                ..d1
            }
        } else {
            d1
        },
        PacketVal::PrepareState { node, state } => if node.id < d1.nodes.len() {
            let i = node.id as int;
            match state {
                crate::packet::InitialStateVal::PartialLocal(c) => DomainVal {
                    nodes: d1.nodes.update(
                        i,
                        NodeVal {
                            state: NodeStateVal::Local(
                                KeyedStateVal {
                                    cols: seq![c],
                                    partial: true,
                                    rows: Seq::empty(),
                                    filled: Seq::empty(),
                                },
                            ),
                            ..d1.nodes[i]
                        },
                    ),
                    ..d1
                },
                crate::packet::InitialStateVal::IndexedLocal(v) => if v.len() > 0 {
                    DomainVal {
                        nodes: d1.nodes.update(
                            i,
                            NodeVal {
                                state: NodeStateVal::Local(
                                    KeyedStateVal {
                                        cols: v[0],
                                        partial: false,
                                        rows: Seq::empty(),
                                        filled: Seq::empty(),
                                    },
                                ),
                                ..d1.nodes[i]
                            },
                        ),
                        ..d1
                    }
                } else {
                    d1
                },
                crate::packet::InitialStateVal::PartialGlobal(kv) => DomainVal {
                    nodes: d1.nodes.update(
                        i,
                        NodeVal { state: NodeStateVal::Glob(kv), ..d1.nodes[i] },
                    ),
                    ..d1
                },
                crate::packet::InitialStateVal::Global => DomainVal {
                    nodes: d1.nodes.update(
                        i,
                        NodeVal {
                            state: NodeStateVal::Glob(
                                KeyedStateVal {
                                    cols: Seq::empty(),
                                    partial: false,
                                    rows: Seq::empty(),
                                    filled: Seq::empty(),
                                },
                            ),
                            ..d1.nodes[i]
                        },
                    ),
                    ..d1
                },
            }
        } else {
            d1
        },
        PacketVal::StateSizeProbe { .. } => d1,
        PacketVal::Ready { node, index, ack: _ } => if node.id < d1.nodes.len() && (d1.nodes[node.id as int].state matches NodeStateVal::Stateless) && index.len() > 0 {
            DomainVal {
                nodes: d1.nodes.update(
                    node.id as int,
                    NodeVal {
                        state: NodeStateVal::Local(
                            KeyedStateVal {
                                cols: index[0],
                                partial: false,
                                rows: Seq::empty(),
                                filled: Seq::empty(),
                            },
                        ),
                        ..d1.nodes[node.id as int]
                    },
                ),
                ..d1
            }
        } else {
            d1
        },
        PacketVal::AddNode { node, parents } => {
            let child = LocalNodeIndex { id: d1.nodes.len() as usize };
            DomainVal {
                nodes: wire_parents(d1.nodes, parents, child).push(
                    NodeVal { desc: node, state: NodeStateVal::Stateless },
                ),
                ..d1
            }
        },
        PacketVal::AddBaseColumn { node, field, default, ack: _ } => if node.id < d1.nodes.len()
            && (d1.nodes[node.id as int].desc.kind matches NodeKindVal::Base { .. }) {
            let i = node.id as int;
            match d1.nodes[i].desc.kind {
                NodeKindVal::Base { fields, defaults } => DomainVal {
                    nodes: d1.nodes.update(
                        i,
                        NodeVal {
                            desc: NodeDescVal {
                                kind: NodeKindVal::Base {
                                    fields: fields.push(field),
                                    defaults: defaults.push(default),
                                },
                                ..d1.nodes[i].desc
                            },
                            ..d1.nodes[i]
                        },
                    ),
                    ..d1
                },
                _ => d1,
            }
        } else {
            d1
        },
        PacketVal::DropBaseColumn { node, column, ack: _ } => if node.id < d1.nodes.len() {
            let i = node.id as int;
            match d1.nodes[i].desc.kind {
                NodeKindVal::Base { fields, defaults } => if column < fields.len() && column
                    < defaults.len() {
                    DomainVal {
                        nodes: d1.nodes.update(
                            i,
                            NodeVal {
                                desc: NodeDescVal {
                                    kind: NodeKindVal::Base {
                                        fields: fields.remove(column as int),
                                        defaults: defaults.remove(column as int),
                                    },
                                    ..d1.nodes[i].desc
                                },
                                ..d1.nodes[i]
                            },
                        ),
                        ..d1
                    }
                } else {
                    d1
                },
                _ => d1,
            }
        } else {
            d1
        },
        PacketVal::UpdateEgress { node, new_tx, new_tag } => if node.id < d1.nodes.len() {
            let i = node.id as int;
            match d1.nodes[i].desc.kind {
                NodeKindVal::Egress { txs, tags } => {
                    let txs2 = match new_tx {
                        Some((a, b, c)) => txs.push(EgressTx { node: a, dest: b, channel: c }),
                        None => txs,
                    };
                    let tags2 = match new_tag {
                        Some(t) => tags.push(t),
                        None => tags,
                    };
                    DomainVal {
                        nodes: d1.nodes.update(
                            i,
                            NodeVal {
                                desc: NodeDescVal {
                                    kind: NodeKindVal::Egress { txs: txs2, tags: tags2 },
                                    ..d1.nodes[i].desc
                                },
                                ..d1.nodes[i]
                            },
                        ),
                        ..d1
                    }
                },
                _ => d1,
            }
        } else {
            d1
        },
        PacketVal::AddStreamer { node, new_streamer } => if node.id < d1.nodes.len()
            && (d1.nodes[node.id as int].desc.kind matches NodeKindVal::Reader) {
            let i = node.id as int;
            DomainVal {
                nodes: d1.nodes.update(
                    i,
                    NodeVal {
                        desc: NodeDescVal {
                            streamers: d1.nodes[i].desc.streamers.push(new_streamer),
                            ..d1.nodes[i].desc
                        },
                        ..d1.nodes[i]
                    },
                ),
                ..d1
            }
        } else {
            d1
        },
        PacketVal::RequestUnboundedTx(_) => d1,
        PacketVal::StartMigration { at, prev_ts, ack: _ } => if (d1.gate_window
            matches None) && prev_ts >= d1.gate_last && at > prev_ts {
            DomainVal { gate_window: Some((at, prev_ts)), ..d1 }
        } else {
            d1
        },
        PacketVal::CompleteMigration { at, ingress_from_base } => (match d1.gate_window {
            Some((w_at, _w_prev)) => if w_at == at {
                let r = drain_v(
                    d1.gate_buffer,
                    (at - 1) as i64,
                    None,
                    d1.gate_buffer.len(),
                );
                DomainVal {
                    gate_window: None,
                    gate_buffer: r.1,
                    gate_last: r.2,
                    ingress_from_base,
                    ..d1
                }
            } else {
                d1
            },
            None => d1,
        }),
        PacketVal::GetStatistics(_) => d1,
        PacketVal::Finish(_, _) => d1,
        PacketVal::Quit => DomainVal { running: false, ..d1 },
        PacketVal::Captured => d1,
        PacketVal::Empty => d1,
        PacketVal::AddNode { .. } => d1,
    }
}

pub open spec fn msg_state(d1: DomainVal, link: Link, data: Seq<RecordVal>) -> DomainVal {
    match dest_of(d1, link) {
        None => d1,
        Some(i) => {
            let node = d1.nodes[i];
            let out = process_recs(node.desc.kind, data);
            match land(node.state, out, None) {
                None => d1,
                Some(st2) => DomainVal {
                    nodes: d1.nodes.update(i, NodeVal { desc: node.desc, state: st2 }),
                    ..d1
                },
            }
        },
    }
}

pub open spec fn msg_acts(d: DomainVal, link: Link, data: Seq<RecordVal>, tracer: Tracer) -> Seq<
    ActionVal,
> {
    match dest_of(d, link) {
        None => seq![ActionVal::Fatal],
        Some(i) => {
            let node = d.nodes[i];
            let out = process_recs(node.desc.kind, data);
            match land(node.state, out, None) {
                None => seq![ActionVal::Fatal],
                Some(_) => trace_acts(tracer, PacketEvent::Handle) + trace_acts(
                    tracer,
                    PacketEvent::Process,
                ) + (if (node.desc.kind matches NodeKindVal::Reader) {
                    trace_acts(tracer, PacketEvent::ReachedReader) + stream_acts(node.desc, out)
                } else {
                    Seq::empty()
                }) + forward_acts(node.desc, out, tracer),
            }
        },
    }
}

pub open spec fn txn_state(
    d1: DomainVal,
    link: Link,
    data: Seq<RecordVal>,
    st: TxStateVal,
) -> DomainVal {
    match st {
        TxStateVal::Pending(_, _) => d1,
        _ => match tx_times(d1, st) {
            None => d1,
            Some((ts, prev)) => if ts <= prev {
                d1
            } else {
                let e = TxVal { ts, prev, link, data };
                let r = drain_v(
                    d1.gate_buffer.push(e),
                    d1.gate_last,
                    d1.gate_window,
                    (d1.gate_buffer.len() + 1) as nat,
                );
                DomainVal { gate_buffer: r.1, gate_last: r.2, ..d1 }
            },
        },
    }
}

pub open spec fn ready_sends(ready: Seq<TxVal>) -> Seq<ActionVal> {
    ready.map(
        |_i: int, e: TxVal| ActionVal::SendLocal {
            packet: PacketVal::Message { link: e.link, data: e.data, tracer: None },
        },
    )
}

pub open spec fn txn_acts(
    d: DomainVal,
    link: Link,
    data: Seq<RecordVal>,
    st: TxStateVal,
    tracer: Tracer,
) -> Seq<ActionVal> {
    match st {
        TxStateVal::Pending(tok, reply) => trace_acts(tracer, PacketEvent::Handle) + seq![
            ActionVal::CheckTable { token: tok, reply },
        ],
        _ => match tx_times(d, st) {
            None => seq![ActionVal::Fatal],
            Some((ts, prev)) => if ts <= prev {
                seq![ActionVal::Fatal]
            } else {
                let e = TxVal { ts, prev, link, data };
                let r = drain_v(
                    d.gate_buffer.push(e),
                    d.gate_last,
                    d.gate_window,
                    (d.gate_buffer.len() + 1) as nat,
                );
                trace_acts(tracer, PacketEvent::Handle) + ready_sends(r.0)
            },
        },
    }
}

pub open spec fn piece_state(
    d1: DomainVal,
    link: Link,
    tag: Tag,
    data: Seq<RecordVal>,
    context: ContextVal,
) -> DomainVal {
    match context {
        ContextVal::Partial { for_key, ignore } => if ignore {
            d1
        } else {
            match dest_of(d1, link) {
                None => d1,
                Some(i) => {
                    let node = d1.nodes[i];
                    match node.desc.kind {
                        NodeKindVal::PairJoin { held } => match held {
                            None => DomainVal {
                                nodes: d1.nodes.update(
                                    i,
                                    NodeVal {
                                        desc: NodeDescVal {
                                            kind: NodeKindVal::PairJoin { held: Some(data) },
                                            ..node.desc
                                        },
                                        ..node
                                    },
                                ),
                                ..d1
                            },
                            Some(_) => DomainVal {
                                nodes: d1.nodes.update(
                                    i,
                                    NodeVal {
                                        desc: NodeDescVal {
                                            kind: NodeKindVal::PairJoin { held: None },
                                            ..node.desc
                                        },
                                        ..node
                                    },
                                ),
                                ..d1
                            },
                        },
                        _ => {
                            let out = process_recs(node.desc.kind, data);
                            match land(node.state, out, Some(for_key)) {
                                None => d1,
                                Some(st2) => DomainVal {
                                    nodes: d1.nodes.update(
                                        i,
                                        NodeVal { desc: node.desc, state: st2 },
                                    ),
                                    pending: crate::replay::pending_after_complete(
                                        d1.pending,
                                        tag.id,
                                        for_key,
                                    ),
                                    ..d1
                                },
                            }
                        },
                    }
                },
            }
        },
        ContextVal::Regular { last: _ } => match dest_of(d1, link) {
            None => d1,
            Some(i) => {
                let node = d1.nodes[i];
                let out = process_recs(node.desc.kind, data);
                match land(node.state, out, None) {
                    None => d1,
                    Some(st2) => DomainVal {
                        nodes: d1.nodes.update(i, NodeVal { desc: node.desc, state: st2 }),
                        ..d1
                    },
                }
            },
        },
    }
}

/// Whether a node forwards to nobody: the end of a replay chain.
pub open spec fn is_terminal(desc: NodeDescVal) -> bool {
    match desc.kind {
        NodeKindVal::Egress { txs, .. } => txs.len() == 0,
        _ => desc.children.len() == 0,
    }
}

/// The ack fired when a full replay drains at the end of its path.
pub open spec fn done_acts(d: DomainVal, tag: Tag, desc: NodeDescVal, last: bool) -> Seq<
    ActionVal,
> {
    if last && is_terminal(desc) {
        let f = path_index_v(d.paths, tag.id);
        if f >= 0 {
            match d.paths[f].done_tx {
                Some(c) => seq![ActionVal::Ack { channel: c }],
                None => Seq::empty(),
            }
        } else {
            Seq::empty()
        }
    } else {
        Seq::empty()
    }
}

pub open spec fn piece_acts(
    d: DomainVal,
    link: Link,
    tag: Tag,
    data: Seq<RecordVal>,
    context: ContextVal,
    txs_state: Option<crate::checktable::ReplayTxVal>,
) -> Seq<ActionVal> {
    match context {
        ContextVal::Partial { for_key, ignore } => if ignore {
            Seq::empty()
        } else {
            match dest_of(d, link) {
                None => seq![ActionVal::Fatal],
                Some(i) => {
                    let node = d.nodes[i];
                    match node.desc.kind {
                        NodeKindVal::PairJoin { held } => match held {
                            None => Seq::empty(),
                            Some(prev) => forward_piece(
                                node.desc,
                                prev + data,
                                tag,
                                context,
                                txs_state,
                            ),
                        },
                        _ => {
                            let out = process_recs(node.desc.kind, data);
                            match land(node.state, out, Some(for_key)) {
                                None => seq![ActionVal::Fatal],
                                Some(_) => forward_piece(node.desc, out, tag, context, txs_state),
                            }
                        },
                    }
                },
            }
        },
        ContextVal::Regular { last } => match dest_of(d, link) {
            None => seq![ActionVal::Fatal],
            Some(i) => {
                let node = d.nodes[i];
                let out = process_recs(node.desc.kind, data);
                match land(node.state, out, None) {
                    None => seq![ActionVal::Fatal],
                    Some(_) => forward_piece(node.desc, out, tag, context, txs_state) + done_acts(
                        d,
                        tag,
                        node.desc,
                        last,
                    ),
                }
            },
        },
    }
}

/// The reply to a partial-replay request this domain originates: the rows
/// under the key at the path's source, shipped as a partial piece to the
/// path's first hop.
pub open spec fn serve_acts(d: DomainVal, tag: Tag, key: Seq<DataVal>, f: int) -> Seq<ActionVal> {
    let p = d.paths[f];
    match p.source {
        Some(src) => match src {
            NodeAddress::Local(l) => if l.id < d.nodes.len() {
                match d.nodes[l.id as int].state {
                    NodeStateVal::Local(k) => if (k.partial && !k.filled.contains(key)) || p.path.len() == 0 {
                        seq![ActionVal::Fatal]
                    } else {
                        seq![
                            ActionVal::SendLocal {
                                packet: PacketVal::ReplayPiece {
                                    link: Link { src, dst: p.path[0].0 },
                                    tag,
                                    data: positives(rows_for_key(k.rows, k.cols, key)),
                                    context: ContextVal::Partial { for_key: key, ignore: false },
                                    transaction_state: None,
                                },
                            },
                        ]
                    },
                    _ => seq![ActionVal::Fatal],
                }
            } else {
                seq![ActionVal::Fatal]
            },
            NodeAddress::Global(_) => seq![ActionVal::Fatal],
        },
        None => seq![ActionVal::Fatal],
    }
}

/// The actions one packet causes: the other half of the model.
pub open spec fn actions_of(d: DomainVal, p: PacketVal) -> Seq<ActionVal> {
    acts_nb(bump(d), p)
}

/// `actions_of` after the counter bump.
pub open spec fn acts_nb(d1: DomainVal, p: PacketVal) -> Seq<ActionVal> {
    match p {
        PacketVal::Message { link, data, tracer } => msg_acts(d1, link, data, tracer),
        PacketVal::Transaction { link, data, state, tracer } => txn_acts(
            d1,
            link,
            data,
            state,
            tracer,
        ),
        PacketVal::ReplayPiece { link, tag, data, context, transaction_state } => piece_acts(
            d1,
            link,
            tag,
            data,
            context,
            transaction_state,
        ),
        PacketVal::FullReplay { link, tag, state } => piece_acts(
            d1,
            link,
            tag,
            positives(state),
            ContextVal::Regular { last: true },
            None,
        ),
        PacketVal::RequestPartialReplay { tag, key } => if d1.pending.contains((tag.id, key)) {
            Seq::empty()
        } else {
            let f = path_index_v(d1.paths, tag.id);
            if f == -1 {
                seq![ActionVal::Fatal]
            } else {
                match d1.paths[f].trigger {
                    TriggerVal::End(c) => seq![
                        ActionVal::SendRemote {
                            channel: c,
                            packet: PacketVal::RequestPartialReplay { tag, key },
                        },
                    ],
                    TriggerVal::Start(_) => serve_acts(d1, tag, key, f),
                    TriggerVal::Local(_) => serve_acts(d1, tag, key, f),
                    TriggerVal::NoTrigger => seq![ActionVal::Fatal],
                }
            }
        },
        PacketVal::StartReplay { tag, from, ack } => {
            let f = path_index_v(d1.paths, tag.id);
            if f == -1 {
                seq![ActionVal::Fatal]
            } else {
                match from {
                    NodeAddress::Local(l) => if l.id < d1.nodes.len() && d1.paths[f].path.len() > 0 {
                        match d1.nodes[l.id as int].state {
                            NodeStateVal::Stateless => seq![ActionVal::Fatal],
                            _ => seq![
                                ActionVal::SendLocal {
                                    packet: PacketVal::FullReplay {
                                        link: Link { src: from, dst: d1.paths[f].path[0].0 },
                                        tag,
                                        state: state_rows(d1.nodes[l.id as int].state),
                                    },
                                },
                                ActionVal::Ack { channel: ack },
                            ],
                        }
                    } else {
                        seq![ActionVal::Fatal]
                    },
                    NodeAddress::Global(_) => seq![ActionVal::Fatal],
                }
            }
        },
        PacketVal::SetupReplayPath { tag, ack, .. } => if path_index_v(d1.paths, tag.id) == -1 {
            seq![ActionVal::Ack { channel: ack }]
        } else {
            seq![ActionVal::Fatal]
        },
        PacketVal::PrepareState { node, state } => if node.id < d1.nodes.len() {
            match state {
                crate::packet::InitialStateVal::IndexedLocal(v) => if v.len() > 0 {
                    Seq::empty()
                } else {
                    seq![ActionVal::Fatal]
                },
                _ => Seq::empty(),
            }
        } else {
            seq![ActionVal::Fatal]
        },
        PacketVal::StateSizeProbe { node, ack } => if node.id < d1.nodes.len() {
            seq![
                ActionVal::ReplySize {
                    channel: ack,
                    size: state_rows(d1.nodes[node.id as int].state).len() as usize,
                },
            ]
        } else {
            seq![ActionVal::Fatal]
        },
        PacketVal::Ready { node, ack, .. } => if node.id < d1.nodes.len() {
            seq![ActionVal::Ack { channel: ack }]
        } else {
            seq![ActionVal::Fatal]
        },
        PacketVal::AddNode { .. } => Seq::empty(),
        PacketVal::AddBaseColumn { node, ack, .. } => if node.id < d1.nodes.len() && (d1.nodes[node.id as int].desc.kind matches NodeKindVal::Base { .. }) {
            seq![ActionVal::Ack { channel: ack }]
        } else {
            seq![ActionVal::Fatal]
        },
        PacketVal::DropBaseColumn { node, column, ack } => if node.id < d1.nodes.len() {
            match d1.nodes[node.id as int].desc.kind {
                NodeKindVal::Base { fields, defaults } => if column < fields.len() && column
                    < defaults.len() {
                    seq![ActionVal::Ack { channel: ack }]
                } else {
                    seq![ActionVal::Fatal]
                },
                _ => seq![ActionVal::Fatal],
            }
        } else {
            seq![ActionVal::Fatal]
        },
        PacketVal::UpdateEgress { node, .. } => if node.id < d1.nodes.len() && (d1.nodes[node.id as int].desc.kind matches NodeKindVal::Egress { .. }) {
            Seq::empty()
        } else {
            seq![ActionVal::Fatal]
        },
        PacketVal::AddStreamer { node, .. } => if node.id < d1.nodes.len() && (d1.nodes[node.id as int].desc.kind matches NodeKindVal::Reader) {
            Seq::empty()
        } else {
            seq![ActionVal::Fatal]
        },
        PacketVal::RequestUnboundedTx(c) => seq![
            ActionVal::ReplyUnbounded { channel: c, unbounded: d1.unbounded },
        ],
        PacketVal::StartMigration { at, prev_ts, ack } => if (d1.gate_window matches None) && prev_ts
            >= d1.gate_last && at > prev_ts {
            seq![ActionVal::Ack { channel: ack }]
        } else {
            seq![ActionVal::Fatal]
        },
        PacketVal::CompleteMigration { at, .. } => (match d1.gate_window {
            Some((w_at, _)) => if w_at == at {
                let r = drain_v(d1.gate_buffer, (at - 1) as i64, None, d1.gate_buffer.len());
                ready_sends(r.0)
            } else {
                seq![ActionVal::Fatal]
            },
            None => seq![ActionVal::Fatal],
        }),
        PacketVal::GetStatistics(c) => seq![
            ActionVal::ReplyStats {
                channel: c,
                domain: d1.stats,
                nodes: node_stats_of(d1.nodes),
            },
        ],
        PacketVal::Finish(tag, _) => {
            let f = path_index_v(d1.paths, tag.id);
            if f == -1 {
                seq![ActionVal::Fatal]
            } else {
                match d1.paths[f].done_tx {
                    Some(c) => seq![ActionVal::Ack { channel: c }],
                    None => Seq::empty(),
                }
            }
        },
        PacketVal::Quit => Seq::empty(),
        PacketVal::Captured => Seq::empty(),
        PacketVal::Empty => Seq::empty(),
    }
}

/// A value copy of a replay piece's transactional context.
fn clone_txstate(t: &Option<crate::checktable::ReplayTransactionState>) -> (r: Option<
    crate::checktable::ReplayTransactionState,
>)
    ensures
        (match (t, &r) {
            (Some(a), Some(b)) => a@ == b@,
            (None, None) => true,
            _ => false,
        }),
{
    match t {
        Some(s) => Some(
            crate::checktable::ReplayTransactionState {
                ts: s.ts,
                prevs: crate::checktable::clone_prevs(&s.prevs),
            },
        ),
        None => None,
    }
}

} // verus!
