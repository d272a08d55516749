//! The transaction gatekeeper: per-domain ordering of committed transactions
//! and migration boundaries.
//!
//! Committed transactions carry a timestamp and the timestamp committed just
//! before them. A transaction is admitted only when its predecessor was the
//! last one admitted, so admission follows the global commit order whatever
//! order packets arrive in; the rest wait in a buffer. A migration opens a
//! window `(prev_ts, at)`: transactions up to `prev_ts` still flow, later
//! ones are held until the migration completes, and after completion
//! admission resumes from timestamp `at`. No admitted timestamp ever falls
//! strictly inside a migration window.

use vstd::prelude::*;
use crate::addr::Link;
use crate::data::Records;

verus! {

/// One committed transaction awaiting admission: its timestamp, the
/// timestamp committed immediately before it, and its payload.
pub struct TxEntry {
    pub ts: i64,
    pub prev: i64,
    pub link: Link,
    pub data: Records,
}

/// Whether `e` may be admitted now: its predecessor must be the last
/// admitted timestamp, and while a migration window is open only
/// transactions up to the window's `prev_ts` flow.
pub open spec fn admissible(e: TxEntry, last_ts: i64, window: Option<(i64, i64)>) -> bool {
    e.prev == last_ts && (match window {
        Some((_at, prev_w)) => e.ts <= prev_w,
        None => true,
    })
}

/// The first admissible entry of the buffer, or `-1`.
pub open spec fn find_ready(buffer: Seq<TxEntry>, last_ts: i64, window: Option<(i64, i64)>) -> int
    decreases buffer.len(),
{
    if buffer.len() == 0 {
        -1
    } else if admissible(buffer[0], last_ts, window) {
        0
    } else {
        let m = find_ready(buffer.drop_first(), last_ts, window);
        if m == -1 {
            -1
        } else {
            m + 1
        }
    }
}

pub proof fn lemma_find_ready_at(
    buffer: Seq<TxEntry>,
    last_ts: i64,
    window: Option<(i64, i64)>,
    j: int,
)
    requires
        0 <= j < buffer.len(),
        admissible(buffer[j], last_ts, window),
        forall|k: int| 0 <= k < j ==> !admissible(buffer[k], last_ts, window),
    ensures
        find_ready(buffer, last_ts, window) == j,
    decreases j,
{
    if j > 0 {
        assert forall|k: int| 0 <= k < j - 1 implies !admissible(
            buffer.drop_first()[k],
            last_ts,
            window,
        ) by {
            assert(buffer.drop_first()[k] == buffer[k + 1]);
        }
        assert(buffer.drop_first()[j - 1] == buffer[j]);
        lemma_find_ready_at(buffer.drop_first(), last_ts, window, j - 1);
    }
}

pub proof fn lemma_find_ready_none(buffer: Seq<TxEntry>, last_ts: i64, window: Option<(i64, i64)>)
    requires
        forall|k: int| 0 <= k < buffer.len() ==> !admissible(buffer[k], last_ts, window),
    ensures
        find_ready(buffer, last_ts, window) == -1,
    decreases buffer.len(),
{
    if buffer.len() > 0 {
        assert forall|k: int| 0 <= k < buffer.len() - 1 implies !admissible(
            buffer.drop_first()[k],
            last_ts,
            window,
        ) by {
            assert(buffer.drop_first()[k] == buffer[k + 1]);
        }
        lemma_find_ready_none(buffer.drop_first(), last_ts, window);
    }
}

pub proof fn lemma_find_ready_props(buffer: Seq<TxEntry>, last_ts: i64, window: Option<(i64, i64)>)
    ensures
        find_ready(buffer, last_ts, window) == -1 || (0 <= find_ready(buffer, last_ts, window)
            < buffer.len() && admissible(buffer[find_ready(buffer, last_ts, window)], last_ts, window)),
    decreases buffer.len(),
{
    if buffer.len() > 0 && !admissible(buffer[0], last_ts, window) {
        lemma_find_ready_props(buffer.drop_first(), last_ts, window);
    }
}

/// The transactions a drain admits, the buffer it leaves, and the new last
/// admitted timestamp: admissible entries leave the buffer one at a time, in
/// predecessor-chain order, until none is admissible.
pub open spec fn drain_spec(
    buffer: Seq<TxEntry>,
    last_ts: i64,
    window: Option<(i64, i64)>,
    fuel: nat,
) -> (Seq<TxEntry>, Seq<TxEntry>, i64)
    decreases fuel,
{
    let f = find_ready(buffer, last_ts, window);
    if f == -1 || fuel == 0 {
        (Seq::empty(), buffer, last_ts)
    } else {
        let e = buffer[f];
        let rest = drain_spec(buffer.remove(f), e.ts, window, (fuel - 1) as nat);
        (seq![e] + rest.0, rest.1, rest.2)
    }
}

/// The per-domain transaction gatekeeper.
pub struct Gatekeeper {
    /// The last admitted timestamp; admission resumes from here.
    pub last_ts: i64,
    /// Committed transactions waiting for their predecessor.
    pub buffer: Vec<TxEntry>,
    /// The open migration window `(at, prev_ts)`, if any.
    pub window: Option<(i64, i64)>,
    /// Every admitted timestamp, in admission order.
    pub applied: Ghost<Seq<i64>>,
    /// Every completed migration `(at, prev_ts)`.
    pub migrations: Ghost<Seq<(i64, i64)>>,
}

impl Gatekeeper {
    pub open spec fn wf(self) -> bool {
        &&& forall|i: int, j: int| 0 <= i < j < self.applied@.len() ==> self.applied@[i]
            < self.applied@[j]
        &&& forall|i: int| 0 <= i < self.applied@.len() ==> self.applied@[i] <= self.last_ts
        &&& forall|i: int| 0 <= i < self.buffer@.len() ==> (#[trigger] self.buffer@[i]).ts
            > self.buffer@[i].prev
        &&& (match self.window {
            Some((at, prev_w)) => at > prev_w && self.last_ts <= prev_w,
            None => true,
        })
        &&& forall|m: int| 0 <= m < self.migrations@.len() ==> (#[trigger] self.migrations@[m]).0
            > self.migrations@[m].1 && self.last_ts >= self.migrations@[m].0 - 1
        &&& forall|m: int, i: int|
            0 <= m < self.migrations@.len() && 0 <= i < self.applied@.len() ==> (
            #[trigger] self.applied@[i]) <= (#[trigger] self.migrations@[m]).1 || self.applied@[i]
                >= self.migrations@[m].0
    }

    /// A gatekeeper that has seen everything up to `initial_ts` committed.
    pub fn new(initial_ts: i64) -> (r: Gatekeeper)
        ensures
            r.wf(),
            r.last_ts == initial_ts,
            r.applied@ == Seq::<i64>::empty(),
            r.migrations@ == Seq::<(i64, i64)>::empty(),
            r.buffer@ == Seq::<TxEntry>::empty(),
            r.window == None::<(i64, i64)>,
    {
        Gatekeeper {
            last_ts: initial_ts,
            buffer: Vec::new(),
            window: None,
            applied: Ghost(Seq::empty()),
            migrations: Ghost(Seq::empty()),
        }
    }

    /// The position of the first admissible buffered transaction.
    fn find_admissible(&self) -> (r: Option<usize>)
        ensures
            match r {
                Some(i) => i == find_ready(self.buffer@, self.last_ts, self.window) && i
                    < self.buffer@.len(),
                None => find_ready(self.buffer@, self.last_ts, self.window) == -1,
            },
    {
        let n = self.buffer.len();
        let mut i: usize = 0;
        while i < n
            invariant
                n == self.buffer.len(),
                i <= n,
                forall|k: int| 0 <= k < i ==> !admissible(
                    self.buffer@[k],
                    self.last_ts,
                    self.window,
                ),
            decreases n - i,
        {
            let adm = self.buffer[i].prev == self.last_ts && (match self.window {
                Some((_at, prev_w)) => self.buffer[i].ts <= prev_w,
                None => true,
            });
            if adm {
                proof {
                    lemma_find_ready_at(self.buffer@, self.last_ts, self.window, i as int);
                }
                return Some(i);
            }
            i = i + 1;
        }
        proof {
            lemma_find_ready_none(self.buffer@, self.last_ts, self.window);
        }
        None
    }

    /// Admit every transaction whose predecessor chain is now complete, in
    /// chain order.
    fn drain(&mut self) -> (ready: Vec<TxEntry>)
        requires
            old(self).wf(),
        ensures
            final(self).wf(),
            (ready@, final(self).buffer@, final(self).last_ts) == drain_spec(
                old(self).buffer@,
                old(self).last_ts,
                old(self).window,
                old(self).buffer@.len(),
            ),
            final(self).window == old(self).window,
            final(self).migrations@ == old(self).migrations@,
            final(self).applied@ == old(self).applied@ + ready@.map(|_i: int, e: TxEntry| e.ts),
            final(self).last_ts >= old(self).last_ts,
    {
        let mut ready: Vec<TxEntry> = Vec::new();
        proof {
            assert(old(self).applied@ + ready@.map(|_i: int, e: TxEntry| e.ts) =~= old(
                self,
            ).applied@);
        }
        loop
            invariant
                self.wf(),
                self.window == old(self).window,
                self.migrations@ == old(self).migrations@,
                self.applied@ == old(self).applied@ + ready@.map(|_i: int, e: TxEntry| e.ts),
                self.last_ts >= old(self).last_ts,
                drain_spec(
                    old(self).buffer@,
                    old(self).last_ts,
                    old(self).window,
                    old(self).buffer@.len(),
                ) == {
                    let rest = drain_spec(
                        self.buffer@,
                        self.last_ts,
                        self.window,
                        self.buffer@.len(),
                    );
                    (ready@ + rest.0, rest.1, rest.2)
                },
            decreases self.buffer@.len(),
        {
            let i = match self.find_admissible() {
                Some(i) => i,
                None => {
                    return ready;
                },
            };
            let ghost pre_buffer = self.buffer@;
            let ghost pre_last = self.last_ts;
            let ghost pre_ready = ready@;
            proof {
                lemma_find_ready_props(self.buffer@, self.last_ts, self.window);
            }
            let e = self.buffer.remove(i);
            proof {
                assert(admissible(e, pre_last, self.window));
                assert(e.ts > e.prev);
            }
            self.last_ts = e.ts;
            self.applied = Ghost(self.applied@.push(e.ts));
            let ghost ets = e.ts;
            ready.push(e);
            proof {
                // one unfolding of the drain: the found entry is admitted first
                assert(drain_spec(pre_buffer, pre_last, self.window, pre_buffer.len()) == {
                    let rest = drain_spec(
                        self.buffer@,
                        ets,
                        self.window,
                        (pre_buffer.len() - 1) as nat,
                    );
                    (seq![pre_buffer[i as int]] + rest.0, rest.1, rest.2)
                });
                lemma_drain_fuel(self.buffer@, ets, self.window, (pre_buffer.len() - 1) as nat);
                assert(ready@ =~= pre_ready.push(pre_buffer[i as int]));
                assert(pre_ready + (seq![pre_buffer[i as int]] + drain_spec(
                    self.buffer@,
                    ets,
                    self.window,
                    self.buffer@.len(),
                ).0) =~= ready@ + drain_spec(
                    self.buffer@,
                    ets,
                    self.window,
                    self.buffer@.len(),
                ).0);
                // the admitted timestamp respects order, window and migrations
                assert(self.applied@ == old(self).applied@ + ready@.map(
                    |_i: int, x: TxEntry| x.ts,
                )) by {
                    assert(ready@.map(|_i: int, x: TxEntry| x.ts) =~= pre_ready.map(
                        |_i: int, x: TxEntry| x.ts,
                    ).push(ets));
                    assert(old(self).applied@ + pre_ready.map(|_i: int, x: TxEntry| x.ts).push(ets)
                        =~= (old(self).applied@ + pre_ready.map(|_i: int, x: TxEntry| x.ts)).push(
                        ets,
                    ));
                }
                assert forall|x: int, y: int| 0 <= x < y < self.applied@.len() implies self
                    .applied@[x] < self.applied@[y] by {}
            }
        }
    }

    /// Accept one committed transaction. It is admitted at once when its
    /// predecessor was the last admitted timestamp (and no open migration
    /// window holds it back); otherwise it waits. Either way, every waiting
    /// transaction whose turn has come is returned, in commit order.
    pub fn offer(&mut self, tx: TxEntry) -> (ready: Vec<TxEntry>)
        requires
            old(self).wf(),
            tx.ts > tx.prev,
        ensures
            final(self).wf(),
            (ready@, final(self).buffer@, final(self).last_ts) == drain_spec(
                old(self).buffer@.push(tx),
                old(self).last_ts,
                old(self).window,
                old(self).buffer@.len() + 1,
            ),
            final(self).window == old(self).window,
            final(self).migrations@ == old(self).migrations@,
            final(self).applied@ == old(self).applied@ + ready@.map(|_i: int, e: TxEntry| e.ts),
    {
        self.buffer.push(tx);
        self.drain()
    }

    /// Open a migration window: everything up to `prev_ts` has flowed (or
    /// still flows); transactions past it are held until completion.
    pub fn start_migration(&mut self, at: i64, prev_ts: i64)
        requires
            old(self).wf(),
            old(self).window == None::<(i64, i64)>,
            prev_ts >= old(self).last_ts,
            at > prev_ts,
        ensures
            final(self).wf(),
            final(self).window == Some((at, prev_ts)),
            final(self).last_ts == old(self).last_ts,
            final(self).buffer@ == old(self).buffer@,
            final(self).applied@ == old(self).applied@,
            final(self).migrations@ == old(self).migrations@,
    {
        self.window = Some((at, prev_ts));
    }

    /// Close the window: admission resumes from timestamp `at`, and the
    /// window joins the record of completed migrations. Transactions that
    /// were held and now chain from `at` are returned in commit order.
    pub fn complete_migration(&mut self, at: i64) -> (ready: Vec<TxEntry>)
        requires
            old(self).wf(),
            old(self).window == Some((at, old(self).window.unwrap().1)),
        ensures
            final(self).wf(),
            final(self).window == None::<(i64, i64)>,
            final(self).migrations@ == old(self).migrations@.push(
                (at, old(self).window.unwrap().1),
            ),
            (ready@, final(self).buffer@, final(self).last_ts) == drain_spec(
                old(self).buffer@,
                (at - 1) as i64,
                None,
                old(self).buffer@.len(),
            ),
            final(self).applied@ == old(self).applied@ + ready@.map(|_i: int, e: TxEntry| e.ts),
    {
        let ghost prev_w = self.window.unwrap().1;
        self.window = None;
        self.last_ts = at - 1;
        self.migrations = Ghost(self.migrations@.push((at, prev_w)));
        proof {
            assert forall|m: int, i: int|
                0 <= m < self.migrations@.len() && 0 <= i < self.applied@.len() implies (
            #[trigger] self.applied@[i]) <= (#[trigger] self.migrations@[m]).1 || self.applied@[i]
                >= self.migrations@[m].0 by {
                if m == self.migrations@.len() - 1 {
                    assert(self.applied@[i] <= old(self).last_ts);
                }
            }
        }
        self.drain()
    }
}

/// More fuel than entries never cuts a drain short.
pub proof fn lemma_drain_fuel(
    buffer: Seq<TxEntry>,
    last_ts: i64,
    window: Option<(i64, i64)>,
    fuel: nat,
)
    requires
        fuel >= buffer.len(),
    ensures
        drain_spec(buffer, last_ts, window, fuel) == drain_spec(
            buffer,
            last_ts,
            window,
            buffer.len(),
        ),
    decreases fuel,
{
    lemma_find_ready_props(buffer, last_ts, window);
    let f = find_ready(buffer, last_ts, window);
    if f != -1 && fuel != 0 {
        let e = buffer[f];
        lemma_drain_fuel(buffer.remove(f), e.ts, window, (fuel - 1) as nat);
        lemma_drain_fuel(buffer.remove(f), e.ts, window, buffer.remove(f).len());
        if buffer.len() >= 1 {
            lemma_drain_fuel(buffer.remove(f), e.ts, window, (buffer.len() - 1) as nat);
        }
    }
}

/// Committed transactions take effect in strictly increasing timestamp
/// order: of any two admitted timestamps, the earlier-admitted one is
/// smaller.
pub proof fn lemma_transaction_order(g: Gatekeeper, i: int, j: int)
    requires
        g.wf(),
        0 <= i < j < g.applied@.len(),
    ensures
        g.applied@[i] < g.applied@[j],
{
}

/// A migration is atomic with respect to every transaction: each admitted
/// timestamp lies at or before the migration's `prev_ts`, or at or after its
/// `at` — never strictly inside the window.
pub proof fn lemma_migration_atomicity(g: Gatekeeper, m: int, i: int)
    requires
        g.wf(),
        0 <= m < g.migrations@.len(),
        0 <= i < g.applied@.len(),
    ensures
        g.applied@[i] <= g.migrations@[m].1 || g.applied@[i] >= g.migrations@[m].0,
{
}

} // verus!
