//! The replay path registry: per-tag descriptions of how state is backfilled
//! along an edge chain, and the pending-key set that coalesces duplicate
//! partial-replay requests.
//!
//! One tag names one (source node → destination materialization) chain with a
//! fixed ordered list of intermediate hops. A full replay ships the source's
//! whole state along the chain; a partial replay backfills a single key. At
//! most one partial replay per `(tag, key)` is in flight at any instant:
//! duplicate requests coalesce against the pending-key set, and the entry is
//! removed when the replay completes.

use vstd::prelude::*;
use crate::addr::{ChannelId, NodeAddress, Tag};
use crate::data::{DataVal, Row};

verus! {

/// This domain's role on a replay path.
pub enum TriggerEndpoint {
    /// The domain forwards replay traffic through; it neither starts nor ends
    /// the path.
    NoTrigger,
    /// The domain originates replays on the named key columns.
    Start(Vec<usize>),
    /// The domain is the sink; replayed rows are delivered toward the named
    /// channel.
    End(ChannelId),
    /// Source and sink are both here: a fully local partial replay on the
    /// named key columns.
    Local(Vec<usize>),
}

/// Which part of a replay a piece carries.
pub enum ReplayPieceContext {
    /// One key's backfill. `ignore` marks a piece whose key was subsumed by a
    /// concurrent full replay: the destination drops it without touching
    /// state.
    Partial { for_key: Row, ignore: bool },
    /// A chunk of a full replay; `last` marks the final chunk.
    Regular { last: bool },
}

/// One configured replay path.
pub struct ReplayPath {
    pub tag: Tag,
    /// The origin node, when the path starts inside this domain.
    pub source: Option<NodeAddress>,
    /// The ordered hops, each with the column its state is indexed on when
    /// partial replays route through it.
    pub path: Vec<(NodeAddress, Option<usize>)>,
    /// Fired when a full replay across this path has drained.
    pub done_tx: Option<ChannelId>,
    pub trigger: TriggerEndpoint,
}

/// The replay bookkeeping of one domain: the configured paths and, per tag,
/// the keys whose partial replay is in flight.
pub struct ReplayRegistry {
    pub paths: Vec<ReplayPath>,
    pub pending: Vec<(Tag, Row)>,
}

/// The mathematical value of a pending entry.
pub open spec fn pending_view(pending: Seq<(Tag, Row)>) -> Seq<(u32, Seq<DataVal>)> {
    pending.map(|_i: int, e: (Tag, Row)| (e.0.id, e.1@))
}

/// The index of the first pending entry for `(tag, key)`, or `-1`.
pub open spec fn pending_first(
    pending: Seq<(u32, Seq<DataVal>)>,
    tag: u32,
    key: Seq<DataVal>,
) -> int
    decreases pending.len(),
{
    if pending.len() == 0 {
        -1
    } else if pending[0] == (tag, key) {
        0
    } else {
        let m = pending_first(pending.drop_first(), tag, key);
        if m == -1 {
            -1
        } else {
            m + 1
        }
    }
}

pub proof fn lemma_pending_first_at(
    pending: Seq<(u32, Seq<DataVal>)>,
    tag: u32,
    key: Seq<DataVal>,
    j: int,
)
    requires
        0 <= j < pending.len(),
        pending[j] == (tag, key),
        forall|k: int| 0 <= k < j ==> pending[k] != (tag, key),
    ensures
        pending_first(pending, tag, key) == j,
    decreases j,
{
    if j > 0 {
        assert forall|k: int| 0 <= k < j - 1 implies pending.drop_first()[k] != (tag, key) by {
            assert(pending.drop_first()[k] == pending[k + 1]);
        }
        assert(pending.drop_first()[j - 1] == pending[j]);
        lemma_pending_first_at(pending.drop_first(), tag, key, j - 1);
    }
}

pub proof fn lemma_pending_first_none(pending: Seq<(u32, Seq<DataVal>)>, tag: u32, key: Seq<DataVal>)
    requires
        forall|k: int| 0 <= k < pending.len() ==> pending[k] != (tag, key),
    ensures
        pending_first(pending, tag, key) == -1,
    decreases pending.len(),
{
    if pending.len() > 0 {
        assert forall|k: int| 0 <= k < pending.len() - 1 implies pending.drop_first()[k] != (
        tag,
        key,
        ) by {
            assert(pending.drop_first()[k] == pending[k + 1]);
        }
        lemma_pending_first_none(pending.drop_first(), tag, key);
    }
}

/// The pending set after a completion: the `(tag, key)` entry leaves, and in
/// a well-formed registry it was the only one.
pub open spec fn pending_after_complete(
    pending: Seq<(u32, Seq<DataVal>)>,
    tag: u32,
    key: Seq<DataVal>,
) -> Seq<(u32, Seq<DataVal>)> {
    let f = pending_first(pending, tag, key);
    if f >= 0 {
        pending.remove(f)
    } else {
        pending
    }
}

impl ReplayRegistry {
    pub open spec fn pending_v(self) -> Seq<(u32, Seq<DataVal>)> {
        pending_view(self.pending@)
    }

    pub open spec fn paths_v(self) -> Seq<ReplayPath> {
        self.paths@
    }

    /// The single-flight invariant: no two pending entries name the same
    /// `(tag, key)`, and configured tags are distinct.
    pub open spec fn wf(self) -> bool {
        &&& forall|i: int, j: int|
            0 <= i < j < self.pending_v().len() ==> self.pending_v()[i] != self.pending_v()[j]
        &&& forall|i: int, j: int|
            0 <= i < j < self.paths@.len() ==> self.paths@[i].tag.id != self.paths@[j].tag.id
    }

    pub open spec fn is_pending(self, tag: u32, key: Seq<DataVal>) -> bool {
        self.pending_v().contains((tag, key))
    }

    pub fn new() -> (r: ReplayRegistry)
        ensures
            r.wf(),
            r.pending_v() == Seq::<(u32, Seq<DataVal>)>::empty(),
            r.paths_v() == Seq::<ReplayPath>::empty(),
    {
        let r = ReplayRegistry { paths: Vec::new(), pending: Vec::new() };
        proof {
            assert(r.pending_v() =~= Seq::<(u32, Seq<DataVal>)>::empty());
        }
        r
    }

    /// Register a path. The caller (the domain, on `SetupReplayPath`) only
    /// installs tags it has not seen.
    pub fn add_path(&mut self, path: ReplayPath)
        requires
            old(self).wf(),
            forall|i: int| 0 <= i < old(self).paths@.len() ==> old(self).paths@[i].tag.id
                != path.tag.id,
        ensures
            final(self).wf(),
            final(self).paths_v() == old(self).paths_v().push(path),
            final(self).pending_v() == old(self).pending_v(),
    {
        self.paths.push(path);
        proof {
            assert(self.pending_v() =~= old(self).pending_v());
        }
    }

    /// Find the path configured for `tag`.
    pub fn path_for(&self, tag: Tag) -> (r: Option<&ReplayPath>)
        ensures
            match r {
                Some(p) => {
                    let f = path_index_of(self.paths@, tag.id);
                    0 <= f < self.paths@.len() && *p == self.paths@[f] && p.tag.id == tag.id
                },
                None => path_index_of(self.paths@, tag.id) == -1 && forall|i: int|
                    0 <= i < self.paths_v().len() ==> self.paths_v()[i].tag.id != tag.id,
            },
    {
        let n = self.paths.len();
        let mut i: usize = 0;
        while i < n
            invariant
                n == self.paths.len(),
                i <= n,
                forall|j: int| 0 <= j < i ==> self.paths_v()[j].tag.id != tag.id,
            decreases n - i,
        {
            if self.paths[i].tag.id() == tag.id {
                proof {
                    lemma_path_index_at(self.paths@, tag.id, i as int);
                }
                return Some(&self.paths[i]);
            }
            i = i + 1;
        }
        proof {
            lemma_path_index_none(self.paths@, tag.id);
        }
        None
    }

    /// Whether a partial replay for `(tag, key)` is already in flight.
    pub fn is_in_flight(&self, tag: Tag, key: &Row) -> (r: bool)
        ensures
            r == self.is_pending(tag.id, key@),
    {
        let n = self.pending.len();
        let mut i: usize = 0;
        while i < n
            invariant
                n == self.pending.len(),
                i <= n,
                forall|j: int| 0 <= j < i ==> self.pending_v()[j] != (tag.id, key@),
            decreases n - i,
        {
            let e = &self.pending[i];
            if e.0.id() == tag.id && e.1.same(key) {
                proof {
                    assert(self.pending_v()[i as int] == (tag.id, key@));
                }
                return true;
            }
            i = i + 1;
        }
        proof {
            if self.pending_v().contains((tag.id, key@)) {
                let j = choose|j: int|
                    0 <= j < self.pending_v().len() && self.pending_v()[j] == (tag.id, key@);
                assert(self.pending_v()[j] != (tag.id, key@));
            }
        }
        false
    }

    /// Ask for a partial replay of `key` along `tag`'s path. Returns whether
    /// a request must actually be issued: a request is issued if and only if
    /// none is in flight for the same `(tag, key)`, so duplicate requests
    /// coalesce.
    pub fn request_partial(&mut self, tag: Tag, key: Row) -> (issue: bool)
        requires
            old(self).wf(),
        ensures
            final(self).wf(),
            issue == !old(self).is_pending(tag.id, key@),
            final(self).pending_v() == (if issue {
                old(self).pending_v().push((tag.id, key@))
            } else {
                old(self).pending_v()
            }),
            final(self).paths_v() == old(self).paths_v(),
            final(self).is_pending(tag.id, key@),
    {
        if self.is_in_flight(tag, &key) {
            proof {
                assert(self.is_pending(tag.id, key@));
            }
            return false;
        }
        self.pending.push((tag, key));
        proof {
            let ghost last = self.pending@.last();
            assert(self.pending_v() =~= old(self).pending_v().push((last.0.id, last.1@)));
            assert(self.pending_v().last() == (tag.id, key@));
            assert(self.pending_v().contains(self.pending_v().last()));
            assert forall|i: int, j: int| 0 <= i < j < self.pending_v().len() implies self
                .pending_v()[i] != self.pending_v()[j] by {
                if j == self.pending_v().len() - 1 {
                    assert(old(self).pending_v().contains(old(self).pending_v()[i]));
                }
            }
        }
        true
    }

    /// A partial replay for `(tag, key)` has completed: it is no longer in
    /// flight, and a later miss may request it again.
    pub fn complete(&mut self, tag: Tag, key: &Row)
        requires
            old(self).wf(),
        ensures
            final(self).wf(),
            !final(self).is_pending(tag.id, key@),
            final(self).paths_v() == old(self).paths_v(),
            final(self).pending_v() == pending_after_complete(old(self).pending_v(), tag.id, key@),
            forall|t: u32, k: Seq<DataVal>| (t, k) != (tag.id, key@) ==> final(self).is_pending(
                t,
                k,
            ) == old(self).is_pending(t, k),
            forall|t: u32, k: Seq<DataVal>| #[trigger] final(self).is_pending(t, k) ==> old(
                self,
            ).is_pending(t, k),
    {
        let n = self.pending.len();
        let mut i: usize = 0;
        while i < n
            invariant
                self == old(self),
                old(self).wf(),
                n == self.pending.len(),
                i <= n,
                forall|j: int| 0 <= j < i ==> self.pending_v()[j] != (tag.id, key@),
            decreases n - i,
        {
            let e = &self.pending[i];
            if e.0.id() == tag.id && e.1.same(key) {
                proof {
                    assert(self.pending_v()[i as int] == (tag.id, key@));
                    lemma_pending_first_at(self.pending_v(), tag.id, key@, i as int);
                }
                self.pending.remove(i);
                proof {
                    assert(self.pending_v() =~= old(self).pending_v().remove(i as int));
                    assert forall|j: int| 0 <= j < self.pending_v().len() implies self.pending_v()[j]
                        != (tag.id, key@) by {
                        if j < i {
                        } else {
                            assert(self.pending_v()[j] == old(self).pending_v()[j + 1]);
                        }
                    }
                    if self.pending_v().contains((tag.id, key@)) {
                        let j = choose|j: int|
                            0 <= j < self.pending_v().len() && self.pending_v()[j] == (
                            tag.id,
                            key@,
                            );
                    }
                    assert forall|t: u32, k: Seq<DataVal>| #[trigger] self.is_pending(t, k) implies
                        old(self).is_pending(t, k) by {
                        let j = choose|j: int|
                            0 <= j < self.pending_v().len() && self.pending_v()[j] == (t, k);
                        if j < i {
                            assert(old(self).pending_v()[j] == (t, k));
                            assert(old(self).pending_v().contains(old(self).pending_v()[j]));
                        } else {
                            assert(old(self).pending_v()[j + 1] == (t, k));
                            assert(old(self).pending_v().contains(old(self).pending_v()[j + 1]));
                        }
                    }
                    assert forall|t: u32, k: Seq<DataVal>| (t, k) != (tag.id, key@) && old(
                        self,
                    ).is_pending(t, k) implies self.is_pending(t, k) by {
                        let j = choose|j: int|
                            0 <= j < old(self).pending_v().len() && old(self).pending_v()[j] == (
                            t,
                            k,
                            );
                        if j < i {
                            assert(self.pending_v()[j] == (t, k));
                            assert(self.pending_v().contains(self.pending_v()[j]));
                        } else if j > i {
                            assert(self.pending_v()[j - 1] == (t, k));
                            assert(self.pending_v().contains(self.pending_v()[j - 1]));
                        }
                    }
                    assert forall|x: int, y: int| 0 <= x < y < self.pending_v().len() implies self
                        .pending_v()[x] != self.pending_v()[y] by {
                        let ghost xo = if x < i {
                            x
                        } else {
                            x + 1
                        };
                        let ghost yo = if y < i {
                            y
                        } else {
                            y + 1
                        };
                        assert(self.pending_v()[x] == old(self).pending_v()[xo]);
                        assert(self.pending_v()[y] == old(self).pending_v()[yo]);
                    }
                }
                return ;
            }
            i = i + 1;
        }
        proof {
            if self.pending_v().contains((tag.id, key@)) {
                let j = choose|j: int|
                    0 <= j < self.pending_v().len() && self.pending_v()[j] == (tag.id, key@);
            }
            lemma_pending_first_none(self.pending_v(), tag.id, key@);
        }
    }
}

/// The index of the first path configured for `tag`, or `-1`.
pub open spec fn path_index_of(paths: Seq<ReplayPath>, tag: u32) -> int
    decreases paths.len(),
{
    if paths.len() == 0 {
        -1
    } else if paths[0].tag.id == tag {
        0
    } else {
        let m = path_index_of(paths.drop_first(), tag);
        if m == -1 {
            -1
        } else {
            m + 1
        }
    }
}

pub proof fn lemma_path_index_at(paths: Seq<ReplayPath>, tag: u32, j: int)
    requires
        0 <= j < paths.len(),
        paths[j].tag.id == tag,
        forall|k: int| 0 <= k < j ==> paths[k].tag.id != tag,
    ensures
        path_index_of(paths, tag) == j,
    decreases j,
{
    if j > 0 {
        assert forall|k: int| 0 <= k < j - 1 implies paths.drop_first()[k].tag.id != tag by {
            assert(paths.drop_first()[k] == paths[k + 1]);
        }
        assert(paths.drop_first()[j - 1] == paths[j]);
        lemma_path_index_at(paths.drop_first(), tag, j - 1);
    }
}

pub proof fn lemma_path_index_none(paths: Seq<ReplayPath>, tag: u32)
    requires
        forall|k: int| 0 <= k < paths.len() ==> paths[k].tag.id != tag,
    ensures
        path_index_of(paths, tag) == -1,
    decreases paths.len(),
{
    if paths.len() > 0 {
        assert forall|k: int| 0 <= k < paths.len() - 1 implies paths.drop_first()[k].tag.id
            != tag by {
            assert(paths.drop_first()[k] == paths[k + 1]);
        }
        lemma_path_index_none(paths.drop_first(), tag);
    }
}

/// At most one partial replay per `(tag, key)` is in flight: the pending set
/// of a well-formed registry never holds two entries for the same pair, and
/// [`ReplayRegistry::request_partial`] issues a request only when the pair is
/// absent, so every issue is matched by a completion before the next issue of
/// the same pair.
pub proof fn lemma_single_flight(r: ReplayRegistry, i: int, j: int)
    requires
        r.wf(),
        0 <= i < r.pending_v().len(),
        0 <= j < r.pending_v().len(),
        i != j,
    ensures
        r.pending_v()[i] != r.pending_v()[j],
{
}

} // verus!
