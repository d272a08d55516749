//! Node descriptors and the state a node materializes.

use vstd::prelude::*;
use crate::addr::{ChannelId, LocalNodeIndex, NodeAddress, Tag};
use crate::backlog::Backlog;
use crate::data::{DataVal, RecordVal, Records};
use crate::keyed::KeyedState;

verus! {

/// One egress connection: packets leaving through it are readdressed to
/// `(node, dest)` and sent on `channel` toward the destination domain.
#[derive(Clone, Copy, PartialEq, Eq, Structural)]
pub struct EgressTx {
    pub node: NodeAddress,
    pub dest: NodeAddress,
    pub channel: ChannelId,
}

/// What a node does with the records that reach it.
pub enum NodeKind {
    /// A base relation: externally written, records pass through to state.
    /// Its schema is the parallel lists of column names and column defaults,
    /// grown and shrunk during migration windows.
    Base { fields: Vec<String>, defaults: Vec<crate::data::DataType> },
    /// Keeps the rows whose column `col` holds an odd integer.
    Filter { col: usize },
    /// Boundary node that ships packets to other domains.
    Egress { txs: Vec<EgressTx>, tags: Vec<(Tag, NodeAddress)> },
    /// Exposes a reader-facing materialization.
    Reader,
    /// A two-input operator that must see both sides' replays before its
    /// output is complete: the first side is captured, the second releases
    /// both.
    PairJoin { held: Option<Records> },
}

/// The mathematical value of a [`NodeKind`].
#[verifier::ext_equal]
pub enum NodeKindVal {
    Base { fields: Seq<Seq<char>>, defaults: Seq<DataVal> },
    Filter { col: usize },
    Egress { txs: Seq<EgressTx>, tags: Seq<(Tag, NodeAddress)> },
    Reader,
    PairJoin { held: Option<Seq<RecordVal>> },
}

impl View for NodeKind {
    type V = NodeKindVal;

    open spec fn view(&self) -> NodeKindVal {
        match self {
            NodeKind::Base { fields, defaults } => NodeKindVal::Base {
                fields: fields@.map(|_i: int, f: String| f@),
                defaults: defaults@.map(|_i: int, d: crate::data::DataType| d@),
            },
            NodeKind::Filter { col } => NodeKindVal::Filter { col: *col },
            NodeKind::Egress { txs, tags } => NodeKindVal::Egress { txs: txs@, tags: tags@ },
            NodeKind::Reader => NodeKindVal::Reader,
            NodeKind::PairJoin { held } => NodeKindVal::PairJoin {
                held: match held {
                    Some(r) => Some(r@),
                    None => None,
                },
            },
        }
    }
}

/// A node as the controller describes it to a domain.
pub struct NodeDescriptor {
    /// The node's graph-wide address.
    pub addr: NodeAddress,
    pub kind: NodeKind,
    /// Domain-local successors that packets fan out to.
    pub children: Vec<LocalNodeIndex>,
    /// Channels that receive a reader node's stream of updates.
    pub streamers: Vec<ChannelId>,
}

/// The mathematical value of a [`NodeDescriptor`].
#[verifier::ext_equal]
pub struct NodeDescVal {
    pub addr: NodeAddress,
    pub kind: NodeKindVal,
    pub children: Seq<LocalNodeIndex>,
    pub streamers: Seq<ChannelId>,
}

impl View for NodeDescriptor {
    type V = NodeDescVal;

    open spec fn view(&self) -> NodeDescVal {
        NodeDescVal {
            addr: self.addr,
            kind: self.kind@,
            children: self.children@,
            streamers: self.streamers@,
        }
    }
}

/// The mathematical value of a [`KeyedState`].
#[verifier::ext_equal]
pub struct KeyedStateVal {
    pub cols: Seq<usize>,
    pub partial: bool,
    pub rows: Seq<Seq<DataVal>>,
    pub filled: Seq<Seq<DataVal>>,
}

pub open spec fn keyed_view(s: KeyedState) -> KeyedStateVal {
    KeyedStateVal {
        cols: s.cols_v(),
        partial: s.partial,
        rows: s.rows_v(),
        filled: s.filled_v(),
    }
}

/// The mathematical value a reader observes of a [`Backlog`]: its public
/// side.
pub open spec fn backlog_view(b: Backlog) -> KeyedStateVal {
    keyed_view(b.public_side())
}

/// The materialized state a live node owns.
pub enum NodeState {
    /// The node is stateless (filter, projection, ingress).
    Stateless,
    /// Locally indexed rows, complete or tombstoned-on-miss.
    Local(KeyedState),
    /// A reader-facing double-buffered materialization.
    Glob(Backlog),
}

/// The mathematical value of a [`NodeState`].
#[verifier::ext_equal]
pub enum NodeStateVal {
    Stateless,
    Local(KeyedStateVal),
    Glob(KeyedStateVal),
}

impl View for NodeState {
    type V = NodeStateVal;

    open spec fn view(&self) -> NodeStateVal {
        match self {
            NodeState::Stateless => NodeStateVal::Stateless,
            NodeState::Local(k) => NodeStateVal::Local(keyed_view(*k)),
            NodeState::Glob(b) => NodeStateVal::Glob(backlog_view(*b)),
        }
    }
}

impl NodeState {
    pub open spec fn wf(self) -> bool {
        match self {
            NodeState::Stateless => true,
            NodeState::Local(k) => k.wf(),
            NodeState::Glob(b) => b.wf(),
        }
    }
}

/// A fresh, empty state for a node, as `PrepareState` describes it ahead of
/// a replay.
pub enum InitialState {
    /// Tombstoned-on-miss local state indexed by one column.
    PartialLocal(usize),
    /// Complete local state with the given indices.
    IndexedLocal(Vec<Vec<usize>>),
    /// A reader-facing materialization with per-key holes.
    PartialGlobal(Backlog),
    /// A complete reader-facing materialization.
    Global,
}

/// The serializable description of an [`InitialState`]. `PartialGlobal`
/// carries live reader/writer handles and intentionally has no description:
/// state moved to another domain must be rebuilt there by a replay.
pub enum InitialStateDef {
    PartialLocal(usize),
    IndexedLocal(Vec<Vec<usize>>),
    Global,
}

pub open spec fn cols_list_view(v: Seq<Vec<usize>>) -> Seq<Seq<usize>> {
    v.map(|_i: int, c: Vec<usize>| c@)
}

impl InitialState {
    /// The serializable description of this state: every variant has one
    /// except `PartialGlobal`, whose live handles cannot leave the domain.
    pub fn serializable_def(&self) -> (r: Option<InitialStateDef>)
        ensures
            match (self, &r) {
                (InitialState::PartialLocal(u), Some(InitialStateDef::PartialLocal(v))) => u == v,
                (InitialState::IndexedLocal(u), Some(InitialStateDef::IndexedLocal(v))) => cols_list_view(
                    u@,
                ) == cols_list_view(v@),
                (InitialState::Global, Some(InitialStateDef::Global)) => true,
                (InitialState::PartialGlobal(_), None) => true,
                _ => false,
            },
    {
        match self {
            InitialState::PartialLocal(u) => Some(InitialStateDef::PartialLocal(*u)),
            InitialState::IndexedLocal(v) => {
                let mut out: Vec<Vec<usize>> = Vec::new();
                let n = v.len();
                let mut i: usize = 0;
                while i < n
                    invariant
                        n == v.len(),
                        i <= n,
                        out@.len() == i,
                        forall|j: int| 0 <= j < i ==> out@[j]@ == v@[j]@,
                    decreases n - i,
                {
                    let c = v[i].clone();
                    proof {
                        assert(c@ =~= v@[i as int]@);
                    }
                    out.push(c);
                    i = i + 1;
                }
                proof {
                    assert(cols_list_view(out@) =~= cols_list_view(v@));
                }
                Some(InitialStateDef::IndexedLocal(out))
            },
            InitialState::PartialGlobal(_) => None,
            InitialState::Global => Some(InitialStateDef::Global),
        }
    }
}

impl InitialStateDef {
    /// Rebuild an [`InitialState`] from its description: total, because only
    /// describable variants exist.
    pub fn into_state(self) -> (r: InitialState)
        ensures
            match (&self, &r) {
                (InitialStateDef::PartialLocal(u), InitialState::PartialLocal(v)) => u == v,
                (InitialStateDef::IndexedLocal(u), InitialState::IndexedLocal(v)) => u@ == v@,
                (InitialStateDef::Global, InitialState::Global) => true,
                _ => false,
            },
    {
        match self {
            InitialStateDef::PartialLocal(u) => InitialState::PartialLocal(u),
            InitialStateDef::IndexedLocal(v) => InitialState::IndexedLocal(v),
            InitialStateDef::Global => InitialState::Global,
        }
    }
}

} // verus!
