//! The comment-vote write path: the decisions behind one endpoint that
//! records a user's vote on a comment.
//!
//! The surrounding runtime owns the connection and performs the view lookups
//! and the base-table insert; this module decides, step by step, what to ask
//! for next and what row finally lands in the vote base table.

use vstd::prelude::*;
use crate::data::{DataType, DataVal, Row};

verus! {

/// The direction of a vote.
#[derive(Clone, Copy, PartialEq, Eq, Structural)]
pub enum VoteDir {
    Up,
    Down,
}

/// The column value a vote direction is stored as: one for up, zero for
/// down.
pub fn vote_value(dir: VoteDir) -> (r: DataType)
    ensures
        r@ == (match dir {
            VoteDir::Up => DataVal::Int(1),
            VoteDir::Down => DataVal::Int(0),
        }),
{
    match dir {
        VoteDir::Up => DataType::Int(1),
        VoteDir::Down => DataType::Int(0),
    }
}

/// The row inserted into the vote base table: user, story, comment, and the
/// vote value.
pub fn vote_row(user: DataType, story: DataType, comment: DataType, dir: VoteDir) -> (r: Row)
    ensures
        r@ == seq![
            user@,
            story@,
            comment@,
            (match dir {
                VoteDir::Up => DataVal::Int(1),
                VoteDir::Down => DataVal::Int(0),
            }),
        ],
{
    let mut cells: Vec<DataType> = Vec::new();
    let ghost uv = user@;
    let ghost sv = story@;
    let ghost cv = comment@;
    cells.push(user);
    cells.push(story);
    cells.push(comment);
    cells.push(vote_value(dir));
    let r = Row { cells };
    proof {
        assert(r@ =~= seq![uv, sv, cv, (match dir {
            VoteDir::Up => DataVal::Int(1),
            VoteDir::Down => DataVal::Int(0),
        })]);
    }
    r
}

/// Where the endpoint stands between I/O steps.
pub enum VoteStep {
    /// Look the comment up by its id in the comment view.
    LookupComment,
    /// Check whether the user has already voted on `(story, comment)`.
    LookupExisting { story: DataType, comment: DataType },
    /// Insert the vote row into the vote base table.
    Insert { row: Row },
    /// The vote is recorded.
    Done,
}

/// What the runtime observed at the last step.
pub enum VoteEvent {
    /// The comment view returned the comment's story id and id.
    CommentRow { story: DataType, comment: DataType },
    /// The existing-vote check came back (its result does not change the
    /// insert).
    ExistingChecked,
    /// The insert completed.
    Inserted,
}

/// One step of the endpoint: from the current step and the observed event to
/// the next step. `None` when the event does not answer the step — the
/// runtime fails the request.
pub fn vote_next(step: VoteStep, event: VoteEvent, user: DataType, dir: VoteDir) -> (r: Option<
    VoteStep,
>)
    ensures
        (match (&step, &event) {
            (VoteStep::LookupComment, VoteEvent::CommentRow { story, comment }) => (match &r {
                Some(VoteStep::LookupExisting { story: s2, comment: c2 }) => s2@ == story@ && c2@
                    == comment@,
                _ => false,
            }),
            (VoteStep::LookupExisting { story, comment }, VoteEvent::ExistingChecked) => (match &r {
                Some(VoteStep::Insert { row }) => row@ == seq![
                    user@,
                    story@,
                    comment@,
                    (match dir {
                        VoteDir::Up => DataVal::Int(1),
                        VoteDir::Down => DataVal::Int(0),
                    }),
                ],
                _ => false,
            }),
            (VoteStep::Insert { .. }, VoteEvent::Inserted) => r matches Some(VoteStep::Done),
            _ => r is None,
        }),
{
    match (step, event) {
        (VoteStep::LookupComment, VoteEvent::CommentRow { story, comment }) => Some(
            VoteStep::LookupExisting { story, comment },
        ),
        (VoteStep::LookupExisting { story, comment }, VoteEvent::ExistingChecked) => {
            let row = vote_row(user, story.clone_val(), comment.clone_val(), dir);
            proof {
                assert(row@ =~= seq![
                    user@,
                    story@,
                    comment@,
                    (match dir {
                        VoteDir::Up => DataVal::Int(1),
                        VoteDir::Down => DataVal::Int(0),
                    }),
                ]);
            }
            Some(VoteStep::Insert { row })
        },
        (VoteStep::Insert { .. }, VoteEvent::Inserted) => Some(VoteStep::Done),
        _ => None,
    }
}

} // verus!
