//! Materialized node state: a set of rows indexed by key columns.
//!
//! Rows are kept as an ordered list; a lookup for key `k` returns the rows
//! whose projection onto the index columns equals `k`. A *partial* state
//! additionally tracks which keys have been filled by replay: a key that was
//! never filled is a hole, and a lookup for it is a miss rather than an empty
//! result. Records for holes are skipped — the rows they carry will arrive
//! with the replay that eventually fills the key.

use vstd::prelude::*;
use crate::data::{DataType, DataVal, Record, RecordVal, Records, Row};

verus! {

/// The projection of a row onto the index columns: the key under which the
/// row is found.
pub open spec fn project(row: Seq<DataVal>, cols: Seq<usize>) -> Seq<DataVal> {
    cols.map(|_i: int, c: usize| row[c as int])
}

/// The rows of `rows` materialized under key `key`.
pub open spec fn rows_for_key(rows: Seq<Seq<DataVal>>, cols: Seq<usize>, key: Seq<DataVal>) -> Seq<
    Seq<DataVal>,
> {
    rows.filter(|r: Seq<DataVal>| project(r, cols) == key)
}

/// The index of the first occurrence of `r` in `rows`, or `-1` when absent.
pub open spec fn first_match(rows: Seq<Seq<DataVal>>, r: Seq<DataVal>) -> int
    decreases rows.len(),
{
    if rows.len() == 0 {
        -1
    } else if rows[0] == r {
        0
    } else {
        let m = first_match(rows.drop_first(), r);
        if m == -1 {
            -1
        } else {
            m + 1
        }
    }
}

/// The effect of one record on a list of rows: a positive record appends its
/// row; a negative record retracts the first occurrence of its row, if any.
pub open spec fn apply_one(rows: Seq<Seq<DataVal>>, rec: RecordVal) -> Seq<Seq<DataVal>> {
    if rec.positive {
        rows.push(rec.row)
    } else {
        let m = first_match(rows, rec.row);
        if m >= 0 {
            rows.remove(m)
        } else {
            rows
        }
    }
}

/// Whether a record lands in state at all: in partial state a record whose
/// key is a hole is skipped.
pub open spec fn record_lands(
    rec: RecordVal,
    cols: Seq<usize>,
    partial: bool,
    filled: Seq<Seq<DataVal>>,
) -> bool {
    !partial || filled.contains(project(rec.row, cols))
}

/// The effect of a batch of records, applied in order.
pub open spec fn apply_all(
    rows: Seq<Seq<DataVal>>,
    recs: Seq<RecordVal>,
    cols: Seq<usize>,
    partial: bool,
    filled: Seq<Seq<DataVal>>,
) -> Seq<Seq<DataVal>>
    decreases recs.len(),
{
    if recs.len() == 0 {
        rows
    } else {
        let first = if record_lands(recs[0], cols, partial, filled) {
            apply_one(rows, recs[0])
        } else {
            rows
        };
        apply_all(first, recs.drop_first(), cols, partial, filled)
    }
}

/// Appending a record to a batch applies it last.
pub proof fn lemma_apply_all_push(
    rows: Seq<Seq<DataVal>>,
    recs: Seq<RecordVal>,
    rec: RecordVal,
    cols: Seq<usize>,
    partial: bool,
    filled: Seq<Seq<DataVal>>,
)
    ensures
        apply_all(rows, recs.push(rec), cols, partial, filled) == (if record_lands(
            rec,
            cols,
            partial,
            filled,
        ) {
            apply_one(apply_all(rows, recs, cols, partial, filled), rec)
        } else {
            apply_all(rows, recs, cols, partial, filled)
        }),
    decreases recs.len(),
{
    reveal_with_fuel(apply_all, 3);
    if recs.len() == 0 {
        assert(recs.push(rec).drop_first() =~= recs);
        assert(recs.push(rec)[0] == rec);
    } else {
        assert(recs.push(rec)[0] == recs[0]);
        assert(recs.push(rec).drop_first() =~= recs.drop_first().push(rec));
        let first = if record_lands(recs[0], cols, partial, filled) {
            apply_one(rows, recs[0])
        } else {
            rows
        };
        lemma_apply_all_push(first, recs.drop_first(), rec, cols, partial, filled);
    }
}

/// An exec scan that found `r` at `j`, with no earlier occurrence, found the
/// first match.
pub proof fn lemma_first_match_at(rows: Seq<Seq<DataVal>>, r: Seq<DataVal>, j: int)
    requires
        0 <= j < rows.len(),
        rows[j] == r,
        forall|k: int| 0 <= k < j ==> rows[k] != r,
    ensures
        first_match(rows, r) == j,
    decreases j,
{
    if j == 0 {
    } else {
        assert forall|k: int| 0 <= k < j - 1 implies rows.drop_first()[k] != r by {
            assert(rows.drop_first()[k] == rows[k + 1]);
        }
        assert(rows.drop_first()[j - 1] == rows[j]);
        lemma_first_match_at(rows.drop_first(), r, j - 1);
    }
}

pub proof fn lemma_first_match_none(rows: Seq<Seq<DataVal>>, r: Seq<DataVal>)
    requires
        forall|k: int| 0 <= k < rows.len() ==> rows[k] != r,
    ensures
        first_match(rows, r) == -1,
    decreases rows.len(),
{
    if rows.len() > 0 {
        assert forall|k: int| 0 <= k < rows.len() - 1 implies rows.drop_first()[k] != r by {
            assert(rows.drop_first()[k] == rows[k + 1]);
        }
        lemma_first_match_none(rows.drop_first(), r);
    }
}

/// Materialized state for one node: rows indexed by `key_cols`. When
/// `partial` is set, `filled` lists the keys that have been backfilled; other
/// keys are holes.
pub struct KeyedState {
    pub key_cols: Vec<usize>,
    pub partial: bool,
    pub rows: Vec<Row>,
    pub filled: Vec<Row>,
}

/// What a lookup found: the materialized rows, or a hole that a replay has
/// yet to fill.
pub enum LookupResult {
    Hit(Vec<Row>),
    Miss,
}

pub open spec fn rows_view(rows: Seq<Row>) -> Seq<Seq<DataVal>> {
    rows.map(|_i: int, r: Row| r@)
}

impl KeyedState {
    pub open spec fn rows_v(self) -> Seq<Seq<DataVal>> {
        rows_view(self.rows@)
    }

    pub open spec fn filled_v(self) -> Seq<Seq<DataVal>> {
        rows_view(self.filled@)
    }

    pub open spec fn cols_v(self) -> Seq<usize> {
        self.key_cols@
    }

    /// Whether `key` is materialized: always in full state, only once filled
    /// in partial state.
    pub open spec fn key_present(self, key: Seq<DataVal>) -> bool {
        !self.partial || self.filled_v().contains(key)
    }

    /// Every key column falls inside every row the state could project.
    pub open spec fn row_covers_cols(self, row: Seq<DataVal>) -> bool {
        forall|i: int| 0 <= i < self.key_cols@.len() ==> (self.key_cols@[i] as int) < row.len()
    }

    pub open spec fn wf(self) -> bool {
        forall|i: int| 0 <= i < self.rows@.len() ==> self.row_covers_cols(#[trigger] self.rows@[i]@)
    }

    /// Fresh, empty state indexed by `key_cols`.
    pub fn new(key_cols: Vec<usize>, partial: bool) -> (r: KeyedState)
        ensures
            r.wf(),
            r.cols_v() == key_cols@,
            r.partial == partial,
            r.rows_v() == Seq::<Seq<DataVal>>::empty(),
            r.filled_v() == Seq::<Seq<DataVal>>::empty(),
    {
        let r = KeyedState { key_cols, partial, rows: Vec::new(), filled: Vec::new() };
        proof {
            assert(r.rows_v() =~= Seq::<Seq<DataVal>>::empty());
            assert(r.filled_v() =~= Seq::<Seq<DataVal>>::empty());
        }
        r
    }

    /// Whether `row` projects onto `key` under this state's index columns.
    pub fn matches_key(&self, row: &Row, key: &Row) -> (r: bool)
        requires
            self.row_covers_cols(row@),
        ensures
            r == (project(row@, self.cols_v()) == key@),
    {
        let n = self.key_cols.len();
        if key.cells.len() != n {
            proof {
                assert(project(row@, self.cols_v()).len() == n);
            }
            return false;
        }
        let mut i: usize = 0;
        while i < n
            invariant
                n == self.key_cols.len(),
                key.cells@.len() == n,
                i <= n,
                self.row_covers_cols(row@),
                forall|j: int| 0 <= j < i ==> project(row@, self.cols_v())[j] == key@[j],
            decreases n - i,
        {
            let c = self.key_cols[i];
            if !row.cells[c].same(&key.cells[i]) {
                proof {
                    assert(project(row@, self.cols_v())[i as int] == row@[
                        self.key_cols@[i as int] as int
                    ]);
                    assert(project(row@, self.cols_v())[i as int] != key@[i as int]);
                }
                return false;
            }
            i = i + 1;
        }
        proof {
            assert(project(row@, self.cols_v()) =~= key@);
        }
        true
    }

    /// Whether `key` has been filled (meaningful for partial state).
    pub fn is_filled(&self, key: &Row) -> (r: bool)
        ensures
            r == self.filled_v().contains(key@),
    {
        let n = self.filled.len();
        let mut i: usize = 0;
        while i < n
            invariant
                n == self.filled.len(),
                i <= n,
                forall|j: int| 0 <= j < i ==> self.filled_v()[j] != key@,
            decreases n - i,
        {
            if self.filled[i].same(key) {
                proof {
                    assert(self.filled_v()[i as int] == key@);
                }
                return true;
            }
            i = i + 1;
        }
        proof {
            if self.filled_v().contains(key@) {
                let j = choose|j: int| 0 <= j < self.filled_v().len() && self.filled_v()[j] == key@;
                assert(self.filled_v()[j] != key@);
            }
        }
        false
    }

    /// Declare `key` filled: subsequent records and lookups for it hit state.
    pub fn mark_filled(&mut self, key: Row)
        requires
            old(self).wf(),
        ensures
            final(self).wf(),
            final(self).filled_v() == old(self).filled_v().push(key@),
            final(self).rows_v() == old(self).rows_v(),
            final(self).cols_v() == old(self).cols_v(),
            final(self).partial == old(self).partial,
    {
        self.filled.push(key);
        proof {
            assert(self.filled_v() =~= old(self).filled_v().push(self.filled@.last()@));
            assert(self.rows_v() =~= old(self).rows_v());
        }
    }

    /// Apply one record: append on positive, retract the first matching row
    /// on negative. Records whose key is a hole are skipped.
    pub fn apply_record(&mut self, rec: &Record)
        requires
            old(self).wf(),
            old(self).row_covers_cols(rec.row@),
        ensures
            final(self).wf(),
            final(self).rows_v() == (if record_lands(
                rec@,
                old(self).cols_v(),
                old(self).partial,
                old(self).filled_v(),
            ) {
                apply_one(old(self).rows_v(), rec@)
            } else {
                old(self).rows_v()
            }),
            final(self).filled_v() == old(self).filled_v(),
            final(self).cols_v() == old(self).cols_v(),
            final(self).partial == old(self).partial,
    {
        if self.partial {
            let mut key_cells: Vec<DataType> = Vec::new();
            let n = self.key_cols.len();
            let mut i: usize = 0;
            while i < n
                invariant
                    self == old(self),
                    n == self.key_cols.len(),
                    i <= n,
                    self.row_covers_cols(rec.row@),
                    key_cells@.len() == i,
                    forall|j: int| 0 <= j < i ==> key_cells@[j]@ == project(
                        rec.row@,
                        self.cols_v(),
                    )[j],
                decreases n - i,
            {
                key_cells.push(rec.row.cells[self.key_cols[i]].clone_val());
                i = i + 1;
            }
            let key = Row { cells: key_cells };
            proof {
                assert(key@ =~= project(rec.row@, self.cols_v()));
            }
            if !self.is_filled(&key) {
                return ;
            }
        }
        if rec.positive {
            self.rows.push(rec.row.clone_row());
            proof {
                assert(self.rows_v() =~= old(self).rows_v().push(rec@.row));
            }
        } else {
            let n = self.rows.len();
            let mut i: usize = 0;
            while i < n
                invariant
                    self == old(self),
                    old(self).wf(),
                    record_lands(
                        rec@,
                        old(self).cols_v(),
                        old(self).partial,
                        old(self).filled_v(),
                    ),
                    !rec@.positive,
                    n == self.rows.len(),
                    i <= n,
                    forall|j: int| 0 <= j < i ==> self.rows_v()[j] != rec@.row,
                decreases n - i,
            {
                if self.rows[i].same(&rec.row) {
                    proof {
                        assert(self.rows_v()[i as int] == rec@.row);
                        lemma_first_match_at(self.rows_v(), rec@.row, i as int);
                    }
                    self.rows.remove(i);
                    proof {
                        assert(self.rows_v() =~= old(self).rows_v().remove(i as int));
                        assert(first_match(old(self).rows_v(), rec@.row) == i as int);
                        assert(self.rows_v() == apply_one(old(self).rows_v(), rec@));
                        assert(self.key_cols@ == old(self).key_cols@);
                        assert forall|j: int| 0 <= j < self.rows@.len() implies self.row_covers_cols(
                            #[trigger] self.rows@[j]@,
                        ) by {
                            if j < i {
                                assert(self.rows@[j] == old(self).rows@[j]);
                                assert(old(self).row_covers_cols(old(self).rows@[j]@));
                            } else {
                                assert(self.rows@[j] == old(self).rows@[j + 1]);
                                assert(old(self).row_covers_cols(old(self).rows@[j + 1]@));
                            }
                        }
                    }
                    return ;
                }
                i = i + 1;
            }
            proof {
                lemma_first_match_none(self.rows_v(), rec@.row);
            }
        }
    }

    /// Apply a batch of records in order.
    pub fn apply_records(&mut self, recs: &Records)
        requires
            old(self).wf(),
            forall|i: int| 0 <= i < recs@.len() ==> old(self).row_covers_cols(
                #[trigger] recs@[i].row,
            ),
        ensures
            final(self).wf(),
            final(self).rows_v() == apply_all(
                old(self).rows_v(),
                recs@,
                old(self).cols_v(),
                old(self).partial,
                old(self).filled_v(),
            ),
            final(self).filled_v() == old(self).filled_v(),
            final(self).cols_v() == old(self).cols_v(),
            final(self).partial == old(self).partial,
    {
        let n = recs.recs.len();
        let mut i: usize = 0;
        proof {
            assert(recs@.subrange(0, 0) =~= Seq::<RecordVal>::empty());
        }
        while i < n
            invariant
                old(self).wf(),
                n == recs.recs.len(),
                n == recs@.len(),
                i <= n,
                forall|j: int| 0 <= j < recs@.len() ==> old(self).row_covers_cols(
                    #[trigger] recs@[j].row,
                ),
                self.wf(),
                self.filled_v() == old(self).filled_v(),
                self.cols_v() == old(self).cols_v(),
                self.partial == old(self).partial,
                self.rows_v() == apply_all(
                    old(self).rows_v(),
                    recs@.subrange(0, i as int),
                    old(self).cols_v(),
                    old(self).partial,
                    old(self).filled_v(),
                ),
            decreases n - i,
        {
            proof {
                assert(recs@[i as int] == recs.recs@[i as int]@);
                assert(old(self).row_covers_cols(recs@[i as int].row));
                assert(self.row_covers_cols(recs.recs@[i as int]@.row));
            }
            self.apply_record(&recs.recs[i]);
            proof {
                assert(recs@.subrange(0, i + 1) =~= recs@.subrange(0, i as int).push(
                    recs@[i as int],
                ));
                lemma_apply_all_push(
                    old(self).rows_v(),
                    recs@.subrange(0, i as int),
                    recs@[i as int],
                    old(self).cols_v(),
                    old(self).partial,
                    old(self).filled_v(),
                );
            }
            i = i + 1;
        }
        proof {
            assert(recs@.subrange(0, n as int) =~= recs@);
        }
    }

    /// Look `key` up: a hole in partial state is a miss; otherwise the hit
    /// carries exactly the rows whose projection equals `key`.
    pub fn lookup(&self, key: &Row) -> (r: LookupResult)
        requires
            self.wf(),
        ensures
            match r {
                LookupResult::Miss => !self.key_present(key@),
                LookupResult::Hit(rows) => self.key_present(key@) && rows_view(rows@)
                    == rows_for_key(self.rows_v(), self.cols_v(), key@),
            },
    {
        if self.partial && !self.is_filled(key) {
            return LookupResult::Miss;
        }
        let mut out: Vec<Row> = Vec::new();
        let n = self.rows.len();
        let mut i: usize = 0;
        proof {
            reveal_with_fuel(Seq::<_>::filter, 2);
            assert(self.rows_v().subrange(0, 0) =~= Seq::<Seq<DataVal>>::empty());
            assert(rows_view(out@) =~= self.rows_v().subrange(0, 0).filter(
                |r: Seq<DataVal>| project(r, self.cols_v()) == key@,
            ));
        }
        while i < n
            invariant
                self.wf(),
                n == self.rows.len(),
                i <= n,
                rows_view(out@) == self.rows_v().subrange(0, i as int).filter(
                    |r: Seq<DataVal>| project(r, self.cols_v()) == key@,
                ),
            decreases n - i,
        {
            let ghost pre = self.rows_v().subrange(0, i as int);
            let ghost cur = self.rows_v().subrange(0, i + 1);
            proof {
                reveal_with_fuel(Seq::<_>::filter, 2);
                assert(cur.drop_last() =~= pre);
                assert(cur.last() == self.rows_v()[i as int]);
            }
            if self.matches_key(&self.rows[i], key) {
                out.push(self.rows[i].clone_row());
                proof {
                    reveal_with_fuel(Seq::<_>::filter, 2);
                    assert(rows_view(out@) =~= pre.filter(
                        |r: Seq<DataVal>| project(r, self.cols_v()) == key@,
                    ).push(self.rows_v()[i as int]));
                    assert(cur.filter(|r: Seq<DataVal>| project(r, self.cols_v()) == key@)
                        == cur.drop_last().filter(
                        |r: Seq<DataVal>| project(r, self.cols_v()) == key@,
                    ).push(cur.last()));
                }
            } else {
                proof {
                    reveal_with_fuel(Seq::<_>::filter, 2);
                    assert(cur.filter(|r: Seq<DataVal>| project(r, self.cols_v()) == key@)
                        == cur.drop_last().filter(
                        |r: Seq<DataVal>| project(r, self.cols_v()) == key@,
                    ));
                }
            }
            i = i + 1;
        }
        proof {
            assert(self.rows_v().subrange(0, n as int) =~= self.rows_v());
        }
        LookupResult::Hit(out)
    }

    /// A copy of every materialized row, in order: the state dump a full
    /// replay ships.
    pub fn clone_rows(&self) -> (r: Vec<Row>)
        ensures
            rows_view(r@) == self.rows_v(),
    {
        let mut out: Vec<Row> = Vec::new();
        let n = self.rows.len();
        let mut i: usize = 0;
        while i < n
            invariant
                n == self.rows.len(),
                i <= n,
                out@.len() == i,
                forall|j: int| 0 <= j < i ==> out@[j]@ == self.rows_v()[j],
            decreases n - i,
        {
            out.push(self.rows[i].clone_row());
            i = i + 1;
        }
        proof {
            assert(rows_view(out@) =~= self.rows_v());
        }
        out
    }

    /// The number of materialized rows.
    pub fn row_count(&self) -> (r: usize)
        ensures
            r == self.rows_v().len(),
    {
        self.rows.len()
    }
}

} // verus!
