//! The tagged message unit that traverses the dataflow graph.
//!
//! A packet is either a data update (`Message`, `Transaction`), a replay
//! chunk (`FullReplay`, `ReplayPiece`), or one of the control kinds the
//! controller sends. Channel endpoints (acks, egress senders, tracers) are
//! named by [`ChannelId`] handles; the runtime that owns the real channels
//! performs the sends the domain asks for.

use vstd::prelude::*;
use crate::addr::{ChannelId, Link, LocalNodeIndex, NodeAddress, Tag};
use crate::checktable::{ReplayTransactionState, ReplayTxVal, TransactionState, TxStateVal};
use crate::data::{DataVal, RecordVal, Records, Row};
use crate::keyed::rows_view;
use crate::replay::{ReplayPieceContext, TriggerEndpoint};
use crate::state::{cols_list_view, InitialState, KeyedStateVal, NodeDescriptor, NodeDescVal};
use crate::trace::{PacketEvent, TimeInstant, Tracer};

verus! {

/// Relies on core::mem::replace: moves `src` into `dest` and returns the
/// value `dest` held before.
pub assume_specification<T>[ core::mem::replace ](dest: &mut T, src: T) -> (r: T)
    ensures
        r == *old(dest),
        *final(dest) == src,
;

/// The mathematical value of a [`ReplayPieceContext`].
#[verifier::ext_equal]
pub enum ContextVal {
    Partial { for_key: Seq<DataVal>, ignore: bool },
    Regular { last: bool },
}

impl View for ReplayPieceContext {
    type V = ContextVal;

    open spec fn view(&self) -> ContextVal {
        match self {
            ReplayPieceContext::Partial { for_key, ignore } => ContextVal::Partial {
                for_key: for_key@,
                ignore: *ignore,
            },
            ReplayPieceContext::Regular { last } => ContextVal::Regular { last: *last },
        }
    }
}

/// The mathematical value of a [`TriggerEndpoint`].
#[verifier::ext_equal]
pub enum TriggerVal {
    NoTrigger,
    Start(Seq<usize>),
    End(ChannelId),
    Local(Seq<usize>),
}

impl View for TriggerEndpoint {
    type V = TriggerVal;

    open spec fn view(&self) -> TriggerVal {
        match self {
            TriggerEndpoint::NoTrigger => TriggerVal::NoTrigger,
            TriggerEndpoint::Start(c) => TriggerVal::Start(c@),
            TriggerEndpoint::End(c) => TriggerVal::End(*c),
            TriggerEndpoint::Local(c) => TriggerVal::Local(c@),
        }
    }
}

/// The mathematical value of an [`InitialState`].
#[verifier::ext_equal]
pub enum InitialStateVal {
    PartialLocal(usize),
    IndexedLocal(Seq<Seq<usize>>),
    PartialGlobal(KeyedStateVal),
    Global,
}

impl View for InitialState {
    type V = InitialStateVal;

    open spec fn view(&self) -> InitialStateVal {
        match self {
            InitialState::PartialLocal(u) => InitialStateVal::PartialLocal(*u),
            InitialState::IndexedLocal(v) => InitialStateVal::IndexedLocal(cols_list_view(v@)),
            InitialState::PartialGlobal(b) => InitialStateVal::PartialGlobal(
                crate::state::backlog_view(*b),
            ),
            InitialState::Global => InitialStateVal::Global,
        }
    }
}

/// A message unit in transit through a domain.
pub enum Packet {
    /// Regular data-flow update.
    Message { link: Link, data: Records, tracer: Tracer },
    /// Transactional data-flow update.
    Transaction { link: Link, data: Records, state: TransactionState, tracer: Tracer },
    /// A whole materialization shipped along a tagged replay path.
    FullReplay { link: Link, tag: Tag, state: Vec<Row> },
    /// One chunk of a tagged data-flow replay.
    ReplayPiece {
        link: Link,
        tag: Tag,
        data: Records,
        context: ReplayPieceContext,
        transaction_state: Option<ReplayTransactionState>,
    },
    /// A full replay along the tag has drained into the node.
    Finish(Tag, LocalNodeIndex),
    /// Add a new node to this domain below the given parents.
    AddNode { node: NodeDescriptor, parents: Vec<LocalNodeIndex> },
    /// Add a new column to an existing base node.
    AddBaseColumn { node: LocalNodeIndex, field: String, default: crate::data::DataType, ack: ChannelId },
    /// Drop an existing column from a base node.
    DropBaseColumn { node: LocalNodeIndex, column: usize, ack: ChannelId },
    /// Update an egress node's connections or tag routing.
    UpdateEgress {
        node: LocalNodeIndex,
        new_tx: Option<(NodeAddress, NodeAddress, ChannelId)>,
        new_tag: Option<(Tag, NodeAddress)>,
    },
    /// Add a streamer to an existing reader node.
    AddStreamer { node: LocalNodeIndex, new_streamer: ChannelId },
    /// Request a handle to this domain's unbounded channel, used for replay
    /// requests where the bounded channel could deadlock.
    RequestUnboundedTx(ChannelId),
    /// Set up a fresh, empty state for a node ahead of a replay.
    PrepareState { node: LocalNodeIndex, state: InitialState },
    /// Probe for the number of records in the given node's state.
    StateSizeProbe { node: LocalNodeIndex, ack: ChannelId },
    /// Inform the domain about a new replay path.
    SetupReplayPath {
        tag: Tag,
        source: Option<NodeAddress>,
        path: Vec<(NodeAddress, Option<usize>)>,
        done_tx: Option<ChannelId>,
        trigger: TriggerEndpoint,
        ack: ChannelId,
    },
    /// Ask the domain to replay a particular key.
    RequestPartialReplay { tag: Tag, key: Row },
    /// Replay the state of a node along an existing replay path.
    StartReplay { tag: Tag, from: NodeAddress, ack: ChannelId },
    /// Consider a node ready to process updates, with the given indices.
    Ready { node: LocalNodeIndex, index: Vec<Vec<usize>>, ack: ChannelId },
    /// Terminate the domain.
    Quit,
    /// Flush transactions up to `prev_ts`, then hold transactional traffic
    /// until the matching `CompleteMigration`.
    StartMigration { at: i64, prev_ts: i64, ack: ChannelId },
    /// Resume transactions from timestamp `at` with the new ingress counts.
    CompleteMigration { at: i64, ingress_from_base: Vec<(usize, usize)> },
    /// Send usage statistics on the given channel.
    GetStatistics(ChannelId),
    /// The packet was absorbed by an operator awaiting other replays.
    Captured,
    /// The hollow sentinel left where a packet's data was taken.
    Empty,
}

/// The mathematical value of a [`Packet`].
#[verifier::ext_equal]
pub enum PacketVal {
    Message { link: Link, data: Seq<RecordVal>, tracer: Tracer },
    Transaction { link: Link, data: Seq<RecordVal>, state: TxStateVal, tracer: Tracer },
    FullReplay { link: Link, tag: Tag, state: Seq<Seq<DataVal>> },
    ReplayPiece {
        link: Link,
        tag: Tag,
        data: Seq<RecordVal>,
        context: ContextVal,
        transaction_state: Option<ReplayTxVal>,
    },
    Finish(Tag, LocalNodeIndex),
    AddNode { node: NodeDescVal, parents: Seq<LocalNodeIndex> },
    AddBaseColumn { node: LocalNodeIndex, field: Seq<char>, default: DataVal, ack: ChannelId },
    DropBaseColumn { node: LocalNodeIndex, column: usize, ack: ChannelId },
    UpdateEgress {
        node: LocalNodeIndex,
        new_tx: Option<(NodeAddress, NodeAddress, ChannelId)>,
        new_tag: Option<(Tag, NodeAddress)>,
    },
    AddStreamer { node: LocalNodeIndex, new_streamer: ChannelId },
    RequestUnboundedTx(ChannelId),
    PrepareState { node: LocalNodeIndex, state: InitialStateVal },
    StateSizeProbe { node: LocalNodeIndex, ack: ChannelId },
    SetupReplayPath {
        tag: Tag,
        source: Option<NodeAddress>,
        path: Seq<(NodeAddress, Option<usize>)>,
        done_tx: Option<ChannelId>,
        trigger: TriggerVal,
        ack: ChannelId,
    },
    RequestPartialReplay { tag: Tag, key: Seq<DataVal> },
    StartReplay { tag: Tag, from: NodeAddress, ack: ChannelId },
    Ready { node: LocalNodeIndex, index: Seq<Seq<usize>>, ack: ChannelId },
    Quit,
    StartMigration { at: i64, prev_ts: i64, ack: ChannelId },
    CompleteMigration { at: i64, ingress_from_base: Seq<(usize, usize)> },
    GetStatistics(ChannelId),
    Captured,
    Empty,
}

impl View for Packet {
    type V = PacketVal;

    open spec fn view(&self) -> PacketVal {
        match self {
            Packet::Message { link, data, tracer } => PacketVal::Message {
                link: *link,
                data: data@,
                tracer: *tracer,
            },
            Packet::Transaction { link, data, state, tracer } => PacketVal::Transaction {
                link: *link,
                data: data@,
                state: state@,
                tracer: *tracer,
            },
            Packet::FullReplay { link, tag, state } => PacketVal::FullReplay {
                link: *link,
                tag: *tag,
                state: rows_view(state@),
            },
            Packet::ReplayPiece { link, tag, data, context, transaction_state } => PacketVal::ReplayPiece {
                link: *link,
                tag: *tag,
                data: data@,
                context: context@,
                transaction_state: match transaction_state {
                    Some(t) => Some(t@),
                    None => None,
                },
            },
            Packet::Finish(tag, node) => PacketVal::Finish(*tag, *node),
            Packet::AddNode { node, parents } => PacketVal::AddNode {
                node: node@,
                parents: parents@,
            },
            Packet::AddBaseColumn { node, field, default, ack } => PacketVal::AddBaseColumn {
                node: *node,
                field: field@,
                default: default@,
                ack: *ack,
            },
            Packet::DropBaseColumn { node, column, ack } => PacketVal::DropBaseColumn {
                node: *node,
                column: *column,
                ack: *ack,
            },
            Packet::UpdateEgress { node, new_tx, new_tag } => PacketVal::UpdateEgress {
                node: *node,
                new_tx: *new_tx,
                new_tag: *new_tag,
            },
            Packet::AddStreamer { node, new_streamer } => PacketVal::AddStreamer {
                node: *node,
                new_streamer: *new_streamer,
            },
            Packet::RequestUnboundedTx(c) => PacketVal::RequestUnboundedTx(*c),
            Packet::PrepareState { node, state } => PacketVal::PrepareState {
                node: *node,
                state: state@,
            },
            Packet::StateSizeProbe { node, ack } => PacketVal::StateSizeProbe {
                node: *node,
                ack: *ack,
            },
            Packet::SetupReplayPath { tag, source, path, done_tx, trigger, ack } => PacketVal::SetupReplayPath {
                tag: *tag,
                source: *source,
                path: path@,
                done_tx: *done_tx,
                trigger: trigger@,
                ack: *ack,
            },
            Packet::RequestPartialReplay { tag, key } => PacketVal::RequestPartialReplay {
                tag: *tag,
                key: key@,
            },
            Packet::StartReplay { tag, from, ack } => PacketVal::StartReplay {
                tag: *tag,
                from: *from,
                ack: *ack,
            },
            Packet::Ready { node, index, ack } => PacketVal::Ready {
                node: *node,
                index: cols_list_view(index@),
                ack: *ack,
            },
            Packet::Quit => PacketVal::Quit,
            Packet::StartMigration { at, prev_ts, ack } => PacketVal::StartMigration {
                at: *at,
                prev_ts: *prev_ts,
                ack: *ack,
            },
            Packet::CompleteMigration { at, ingress_from_base } => PacketVal::CompleteMigration {
                at: *at,
                ingress_from_base: ingress_from_base@,
            },
            Packet::GetStatistics(c) => PacketVal::GetStatistics(*c),
            Packet::Captured => PacketVal::Captured,
            Packet::Empty => PacketVal::Empty,
        }
    }
}

impl PacketVal {
    /// Whether this packet kind carries a link.
    pub open spec fn has_link(self) -> bool {
        match self {
            PacketVal::Message { .. } => true,
            PacketVal::Transaction { .. } => true,
            PacketVal::FullReplay { .. } => true,
            PacketVal::ReplayPiece { .. } => true,
            _ => false,
        }
    }

    pub open spec fn spec_link(self) -> Link {
        match self {
            PacketVal::Message { link, .. } => link,
            PacketVal::Transaction { link, .. } => link,
            PacketVal::FullReplay { link, .. } => link,
            PacketVal::ReplayPiece { link, .. } => link,
            _ => arbitrary(),
        }
    }

    /// The same packet value with its link rewritten.
    pub open spec fn with_link(self, l: Link) -> PacketVal {
        match self {
            PacketVal::Message { link, data, tracer } => PacketVal::Message {
                link: l,
                data,
                tracer,
            },
            PacketVal::Transaction { link, data, state, tracer } => PacketVal::Transaction {
                link: l,
                data,
                state,
                tracer,
            },
            PacketVal::FullReplay { link, tag, state } => PacketVal::FullReplay {
                link: l,
                tag,
                state,
            },
            PacketVal::ReplayPiece { link, tag, data, context, transaction_state } => PacketVal::ReplayPiece {
                link: l,
                tag,
                data,
                context,
                transaction_state,
            },
            _ => self,
        }
    }

    /// Whether this packet kind carries records.
    pub open spec fn has_data(self) -> bool {
        match self {
            PacketVal::Message { .. } => true,
            PacketVal::Transaction { .. } => true,
            PacketVal::ReplayPiece { .. } => true,
            _ => false,
        }
    }

    pub open spec fn spec_data(self) -> Seq<RecordVal> {
        match self {
            PacketVal::Message { data, .. } => data,
            PacketVal::Transaction { data, .. } => data,
            PacketVal::ReplayPiece { data, .. } => data,
            _ => arbitrary(),
        }
    }

    /// The same packet value with its records rewritten.
    pub open spec fn with_data(self, d: Seq<RecordVal>) -> PacketVal {
        match self {
            PacketVal::Message { link, data, tracer } => PacketVal::Message {
                link,
                data: d,
                tracer,
            },
            PacketVal::Transaction { link, data, state, tracer } => PacketVal::Transaction {
                link,
                data: d,
                state,
                tracer,
            },
            PacketVal::ReplayPiece { link, tag, data, context, transaction_state } => PacketVal::ReplayPiece {
                link,
                tag,
                data: d,
                context,
                transaction_state,
            },
            _ => self,
        }
    }

    /// Regular packets are the non-replay data updates.
    pub open spec fn is_regular(self) -> bool {
        match self {
            PacketVal::Message { .. } => true,
            PacketVal::Transaction { .. } => true,
            _ => false,
        }
    }

    pub open spec fn spec_tracer(self) -> Tracer {
        match self {
            PacketVal::Message { tracer, .. } => tracer,
            PacketVal::Transaction { tracer, .. } => tracer,
            _ => arbitrary(),
        }
    }

    /// The same packet value with its tracer rewritten.
    pub open spec fn with_tracer(self, t: Tracer) -> PacketVal {
        match self {
            PacketVal::Message { link, data, tracer } => PacketVal::Message {
                link,
                data,
                tracer: t,
            },
            PacketVal::Transaction { link, data, state, tracer } => PacketVal::Transaction {
                link,
                data,
                state,
                tracer: t,
            },
            _ => self,
        }
    }

    /// Whether the packet carries no records at all. Defined for the packet
    /// kinds the data path routes; control packets are never asked.
    pub open spec fn spec_is_empty(self) -> bool {
        match self {
            PacketVal::Message { data, .. } => data.len() == 0,
            PacketVal::Transaction { data, .. } => data.len() == 0,
            PacketVal::ReplayPiece { data, .. } => data.len() == 0,
            PacketVal::FullReplay { .. } => false,
            PacketVal::Empty => true,
            _ => arbitrary(),
        }
    }

    /// The packet kinds on which [`Packet::is_empty`] is defined.
    pub open spec fn empty_defined(self) -> bool {
        match self {
            PacketVal::Message { .. } => true,
            PacketVal::Transaction { .. } => true,
            PacketVal::ReplayPiece { .. } => true,
            PacketVal::FullReplay { .. } => true,
            PacketVal::Empty => true,
            _ => false,
        }
    }
}

impl Packet {
    /// The edge this data packet is traversing. Control packets carry none,
    /// so the dispatcher never asks them.
    pub fn link(&self) -> (r: &Link)
        requires
            self@.has_link(),
        ensures
            *r == self@.spec_link(),
    {
        match self {
            Packet::Message { link, .. } => link,
            Packet::Transaction { link, .. } => link,
            Packet::FullReplay { link, .. } => link,
            Packet::ReplayPiece { link, .. } => link,
            _ => unreached(),
        }
    }

    /// Mutable access to the link, used to rewrite it on each hop.
    pub fn link_mut(&mut self) -> (r: &mut Link)
        requires
            old(self)@.has_link(),
        ensures
            *r == old(self)@.spec_link(),
            final(self)@ == old(self)@.with_link(*final(r)),
    {
        match self {
            Packet::Message { link, .. } => link,
            Packet::Transaction { link, .. } => link,
            Packet::FullReplay { link, .. } => link,
            Packet::ReplayPiece { link, .. } => link,
            _ => unreached(),
        }
    }

    /// Whether the packet carries no records: an empty packet is never
    /// forwarded.
    pub fn is_empty(&self) -> (r: bool)
        requires
            self@.empty_defined(),
        ensures
            r == self@.spec_is_empty(),
    {
        match self {
            Packet::Message { data, .. } => data.is_empty(),
            Packet::Transaction { data, .. } => data.is_empty(),
            Packet::FullReplay { .. } => false,
            Packet::ReplayPiece { data, .. } => data.is_empty(),
            Packet::Empty => true,
            _ => unreached(),
        }
    }

    /// Rewrite the packet's records in place, used by operators to transform
    /// rows.
    pub fn map_data<F: FnOnce(Records) -> Records>(&mut self, map: F)
        requires
            old(self)@.has_data(),
            call_requires(map, (old(self).get_data(),)),
        ensures
            final(self)@.has_data(),
            call_ensures(map, (old(self).get_data(),), final(self).get_data()),
            final(self)@ == old(self)@.with_data(final(self).get_data()@),
    {
        let taken = core::mem::replace(self, Packet::Empty);
        match taken {
            Packet::Message { link, data, tracer } => {
                let data = map(data);
                *self = Packet::Message { link, data, tracer };
            },
            Packet::Transaction { link, data, state, tracer } => {
                let data = map(data);
                *self = Packet::Transaction { link, data, state, tracer };
            },
            Packet::ReplayPiece { link, tag, data, context, transaction_state } => {
                let data = map(data);
                *self = Packet::ReplayPiece { link, tag, data, context, transaction_state };
            },
            _ => {
                proof {
                    assert(false);
                }
            },
        }
    }

    /// The concrete records of a data packet.
    pub open spec fn get_data(&self) -> Records {
        match self {
            Packet::Message { data, .. } => *data,
            Packet::Transaction { data, .. } => *data,
            Packet::ReplayPiece { data, .. } => *data,
            _ => arbitrary(),
        }
    }

    /// Whether this is a regular (non-replay, non-control) data update.
    pub fn is_regular(&self) -> (r: bool)
        ensures
            r == self@.is_regular(),
    {
        match self {
            Packet::Message { .. } => true,
            Packet::Transaction { .. } => true,
            _ => false,
        }
    }

    /// The replay tag, for the packet kinds that belong to a replay.
    pub fn tag(&self) -> (r: Option<Tag>)
        ensures
            r == (match self@ {
                PacketVal::FullReplay { tag, .. } => Some(tag),
                PacketVal::ReplayPiece { tag, .. } => Some(tag),
                _ => None::<Tag>,
            }),
    {
        match self {
            Packet::FullReplay { tag, .. } => Some(*tag),
            Packet::ReplayPiece { tag, .. } => Some(*tag),
            _ => None,
        }
    }

    /// Borrow the records of a data packet.
    pub fn data(&self) -> (r: &Records)
        requires
            self@.has_data(),
        ensures
            r@ == self@.spec_data(),
    {
        match self {
            Packet::Message { data, .. } => data,
            Packet::Transaction { data, .. } => data,
            Packet::ReplayPiece { data, .. } => data,
            _ => unreached(),
        }
    }

    /// Move the records out, leaving the hollow sentinel behind.
    pub fn take_data(&mut self) -> (r: Records)
        requires
            old(self)@.has_data(),
        ensures
            r@ == old(self)@.spec_data(),
            final(self)@ == PacketVal::Empty,
    {
        let taken = core::mem::replace(self, Packet::Empty);
        match taken {
            Packet::Message { data, .. } => data,
            Packet::Transaction { data, .. } => data,
            Packet::ReplayPiece { data, .. } => data,
            _ => unreached(),
        }
    }

    /// Duplicate a regular data packet, used to fan out on multi-child
    /// edges: the copy has the same value.
    pub fn clone_data(&self) -> (r: Packet)
        requires
            self@.is_regular(),
        ensures
            r@ == self@,
    {
        match self {
            Packet::Message { link, data, tracer } => Packet::Message {
                link: *link,
                data: data.clone_records(),
                tracer: *tracer,
            },
            Packet::Transaction { link, data, state, tracer } => Packet::Transaction {
                link: *link,
                data: data.clone_records(),
                state: state.clone_state(),
                tracer: *tracer,
            },
            _ => unreached(),
        }
    }

    /// The event emission this packet's tracer asks for: regular packets
    /// with a tracer report `(0, event)` toward it; all others stay silent.
    /// Emission is best-effort — the runtime drops it when the channel is
    /// full.
    pub fn trace(&self, event: PacketEvent) -> (r: Option<(ChannelId, TimeInstant, PacketEvent)>)
        ensures
            r == (if self@.is_regular() {
                match self@.spec_tracer() {
                    Some(c) => Some((c, 0u64, event)),
                    None => None::<(ChannelId, TimeInstant, PacketEvent)>,
                }
            } else {
                None::<(ChannelId, TimeInstant, PacketEvent)>
            }),
    {
        match self {
            Packet::Message { tracer, .. } => crate::trace::trace_emission(tracer, event),
            Packet::Transaction { tracer, .. } => crate::trace::trace_emission(tracer, event),
            _ => None,
        }
    }

    /// Mutable access to a regular packet's tracer.
    pub fn tracer(&mut self) -> (r: Option<&mut Tracer>)
        ensures
            match r {
                Some(t) => old(self)@.is_regular() && *t == old(self)@.spec_tracer()
                    && final(self)@ == old(self)@.with_tracer(*final(t)),
                None => !old(self)@.is_regular() && final(self)@ == old(self)@,
            },
    {
        match self {
            Packet::Message { tracer, .. } => Some(tracer),
            Packet::Transaction { tracer, .. } => Some(tracer),
            _ => None,
        }
    }
}

} // verus!
