//! Node addressing: graph-wide and domain-local node identifiers, the edge
//! descriptor carried by every data packet, and replay-path tags.

use vstd::prelude::*;

verus! {

/// A node's position inside the domain that owns it: an index into the
/// domain's node table.
#[derive(Clone, Copy, PartialEq, Eq, Structural)]
pub struct LocalNodeIndex {
    pub id: usize,
}

impl LocalNodeIndex {
    pub fn new(id: usize) -> (r: LocalNodeIndex)
        ensures
            r.id == id,
    {
        LocalNodeIndex { id }
    }
}

/// A graph-wide node identifier. A node always lives in exactly one domain;
/// a global address is resolvable there to a [`LocalNodeIndex`].
#[derive(Clone, Copy, PartialEq, Eq, Structural)]
pub enum NodeAddress {
    /// An index into the whole dataflow graph.
    Global(usize),
    /// An address already resolved within the owning domain.
    Local(LocalNodeIndex),
}

impl NodeAddress {
    /// The domain-local index this address resolves to, when it is local.
    pub fn as_local(&self) -> (r: Option<LocalNodeIndex>)
        ensures
            r == (match self {
                NodeAddress::Local(l) => Some(*l),
                NodeAddress::Global(_) => None::<LocalNodeIndex>,
            }),
    {
        match self {
            NodeAddress::Local(l) => Some(*l),
            NodeAddress::Global(_) => None,
        }
    }
}

/// The edge a data packet is currently traversing: an ordered pair of node
/// addresses, rewritten on each hop.
#[derive(Clone, Copy, PartialEq, Eq, Structural)]
pub struct Link {
    pub src: NodeAddress,
    pub dst: NodeAddress,
}

impl Link {
    pub fn new(src: NodeAddress, dst: NodeAddress) -> (r: Link)
        ensures
            r.src == src,
            r.dst == dst,
    {
        Link { src, dst }
    }
}

/// A handle naming one channel endpoint outside the domain: an ack or reply
/// sender, an egress connection to another domain, or a tracer sink. The
/// domain never performs the send itself; it emits an action naming the
/// handle, and the surrounding runtime owns the real endpoints.
#[derive(Clone, Copy, PartialEq, Eq, Structural)]
pub struct ChannelId {
    pub id: u64,
}

impl ChannelId {
    pub fn new(id: u64) -> (r: ChannelId)
        ensures
            r.id == id,
    {
        ChannelId { id }
    }
}

/// A dense identifier for one configured replay path.
#[derive(Clone, Copy, PartialEq, Eq, Structural)]
pub struct Tag {
    pub id: u32,
}

impl Tag {
    pub fn new(id: u32) -> (r: Tag)
        ensures
            r.id == id,
    {
        Tag { id }
    }

    pub fn id(&self) -> (r: u32)
        ensures
            r == self.id,
    {
        self.id
    }
}

} // verus!
