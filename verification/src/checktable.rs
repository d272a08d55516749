//! Transaction claims and the checktable contract.
//!
//! The checktable is an external service, shared by every domain, that
//! validates optimistic-transaction tokens and assigns commit timestamps. A
//! domain never calls it directly: a pending transaction is surfaced as an
//! action carrying its token, and the verdict re-enters the domain as a
//! committed transaction or as an abort on the reply channel.

use vstd::prelude::*;
use crate::addr::ChannelId;

verus! {

/// An optimistic-transaction token, presented to the checktable for
/// validation.
#[derive(Clone, Copy, PartialEq, Eq, Structural)]
pub struct Token {
    pub id: u64,
}

/// The last timestamp seen from one upstream domain, carried by committed
/// transactions so the destination can verify it is not ahead of its source.
#[derive(Clone, Copy, PartialEq, Eq, Structural)]
pub struct PrevTimestamp {
    /// The upstream domain's index.
    pub domain: usize,
    /// The last timestamp that domain committed before this transaction.
    pub ts: i64,
}

/// The mathematical value of a [`TransactionState`].
#[verifier::ext_equal]
pub enum TxStateVal {
    Committed(i64, usize, Option<Seq<PrevTimestamp>>),
    Pending(Token, ChannelId),
    WillCommit,
}

/// How far a transactional packet has come toward commitment.
pub enum TransactionState {
    /// Committed at the given timestamp, from the given base node (a
    /// graph-wide node index), optionally with per-source-domain previous
    /// timestamps.
    Committed(i64, usize, Option<Vec<PrevTimestamp>>),
    /// Awaiting a checktable verdict; the verdict is sent on the reply
    /// channel.
    Pending(Token, ChannelId),
    /// Optimistically treated as committed at the next available timestamp.
    WillCommit,
}

impl View for TransactionState {
    type V = TxStateVal;

    open spec fn view(&self) -> TxStateVal {
        match self {
            TransactionState::Committed(ts, base, prevs) => TxStateVal::Committed(
                *ts,
                *base,
                match prevs {
                    Some(v) => Some(v@),
                    None => None,
                },
            ),
            TransactionState::Pending(t, c) => TxStateVal::Pending(*t, *c),
            TransactionState::WillCommit => TxStateVal::WillCommit,
        }
    }
}

pub fn clone_prevs(prevs: &Option<Vec<PrevTimestamp>>) -> (r: Option<Vec<PrevTimestamp>>)
    ensures
        (match (prevs, &r) {
            (Some(a), Some(b)) => a@ == b@,
            (None, None) => true,
            _ => false,
        }),
{
    match prevs {
        Some(v) => {
            let c = v.clone();
            proof {
                assert(c@ =~= v@);
            }
            Some(c)
        },
        None => None,
    }
}

impl TransactionState {
    pub fn clone_state(&self) -> (r: TransactionState)
        ensures
            r@ == self@,
    {
        match self {
            TransactionState::Committed(ts, base, prevs) => TransactionState::Committed(
                *ts,
                *base,
                clone_prevs(prevs),
            ),
            TransactionState::Pending(t, c) => TransactionState::Pending(*t, *c),
            TransactionState::WillCommit => TransactionState::WillCommit,
        }
    }
}

/// The transactional context a replay piece carries when it stands in for a
/// transaction.
pub struct ReplayTransactionState {
    pub ts: i64,
    pub prevs: Option<Vec<PrevTimestamp>>,
}

/// The mathematical value of a [`ReplayTransactionState`].
#[verifier::ext_equal]
pub struct ReplayTxVal {
    pub ts: i64,
    pub prevs: Option<Seq<PrevTimestamp>>,
}

impl View for ReplayTransactionState {
    type V = ReplayTxVal;

    open spec fn view(&self) -> ReplayTxVal {
        ReplayTxVal {
            ts: self.ts,
            prevs: match &self.prevs {
                Some(v) => Some(v@),
                None => None,
            },
        }
    }
}

} // verus!
