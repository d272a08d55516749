//! The double-buffered materialization a reader node exposes.
//!
//! The writer owns two copies of the state and a flag naming the public one.
//! A write batch lands on the private copy, the flag flips so that copy
//! becomes public, and the same batch then lands on the other copy so the two
//! converge. Readers only consult the public copy, so they never observe a
//! torn update; after every finished batch the two copies hold identical
//! state.

use vstd::prelude::*;
use crate::data::{DataVal, Records, Row};
use crate::keyed::{apply_all, KeyedState, LookupResult};

verus! {

/// A reader-facing materialization: two converging copies of keyed state and
/// the flag that names the public one.
pub struct Backlog {
    pub side_a: KeyedState,
    pub side_b: KeyedState,
    pub a_public: bool,
}

impl Backlog {
    /// The copy readers consult.
    pub open spec fn public_side(self) -> KeyedState {
        if self.a_public {
            self.side_a
        } else {
            self.side_b
        }
    }

    /// Both copies are well formed and agree: the double-buffer convergence
    /// invariant, restored at the end of every write batch.
    pub open spec fn wf(self) -> bool {
        &&& self.side_a.wf()
        &&& self.side_b.wf()
        &&& self.side_a.rows_v() == self.side_b.rows_v()
        &&& self.side_a.filled_v() == self.side_b.filled_v()
        &&& self.side_a.cols_v() == self.side_b.cols_v()
        &&& self.side_a.partial == self.side_b.partial
    }

    pub open spec fn rows_v(self) -> Seq<Seq<DataVal>> {
        self.public_side().rows_v()
    }

    pub open spec fn filled_v(self) -> Seq<Seq<DataVal>> {
        self.public_side().filled_v()
    }

    pub open spec fn cols_v(self) -> Seq<usize> {
        self.public_side().cols_v()
    }

    pub open spec fn partial(self) -> bool {
        self.public_side().partial
    }

    /// A fresh, empty materialization indexed by `key_cols`.
    pub fn new(key_cols: Vec<usize>, partial: bool) -> (r: Backlog)
        ensures
            r.wf(),
            r.cols_v() == key_cols@,
            r.partial() == partial,
            r.rows_v() == Seq::<Seq<DataVal>>::empty(),
            r.filled_v() == Seq::<Seq<DataVal>>::empty(),
    {
        let cols_copy = key_cols.clone();
        proof {
            assert(cols_copy@ =~= key_cols@);
        }
        Backlog {
            side_a: KeyedState::new(key_cols, partial),
            side_b: KeyedState::new(cols_copy, partial),
            a_public: true,
        }
    }

    /// Apply a write batch: first to the private copy, which then becomes
    /// public, then to the demoted copy so both converge.
    pub fn write(&mut self, recs: &Records)
        requires
            old(self).wf(),
            forall|i: int| 0 <= i < recs@.len() ==> old(self).public_side().row_covers_cols(
                #[trigger] recs@[i].row,
            ),
        ensures
            final(self).wf(),
            final(self).rows_v() == apply_all(
                old(self).rows_v(),
                recs@,
                old(self).cols_v(),
                old(self).partial(),
                old(self).filled_v(),
            ),
            final(self).filled_v() == old(self).filled_v(),
            final(self).cols_v() == old(self).cols_v(),
            final(self).partial() == old(self).partial(),
    {
        if self.a_public {
            self.side_b.apply_records(recs);
            self.a_public = false;
            self.side_a.apply_records(recs);
        } else {
            self.side_a.apply_records(recs);
            self.a_public = true;
            self.side_b.apply_records(recs);
        }
    }

    /// Declare `key` filled on both copies.
    pub fn mark_filled(&mut self, key: Row)
        requires
            old(self).wf(),
        ensures
            final(self).wf(),
            final(self).filled_v() == old(self).filled_v().push(key@),
            final(self).rows_v() == old(self).rows_v(),
            final(self).cols_v() == old(self).cols_v(),
            final(self).partial() == old(self).partial(),
    {
        let copy = key.clone_row();
        self.side_a.mark_filled(copy);
        self.side_b.mark_filled(key);
    }

    /// A reader lookup against the public copy: a hole in partial state is a
    /// miss (the caller registers the key for replay); otherwise the hit
    /// carries exactly the rows materialized under `key`.
    pub fn lookup(&self, key: &Row) -> (r: LookupResult)
        requires
            self.wf(),
        ensures
            match r {
                LookupResult::Miss => !self.public_side().key_present(key@),
                LookupResult::Hit(rows) => self.public_side().key_present(key@)
                    && crate::keyed::rows_view(rows@) == crate::keyed::rows_for_key(
                    self.rows_v(),
                    self.cols_v(),
                    key@,
                ),
            },
    {
        if self.a_public {
            self.side_a.lookup(key)
        } else {
            self.side_b.lookup(key)
        }
    }

    /// The key columns of the public copy.
    pub fn key_cols(&self) -> (r: &Vec<usize>)
        ensures
            r@ == self.cols_v(),
    {
        if self.a_public {
            &self.side_a.key_cols
        } else {
            &self.side_b.key_cols
        }
    }

    /// Whether the materialization is partial.
    pub fn is_partial(&self) -> (r: bool)
        ensures
            r == self.partial(),
    {
        if self.a_public {
            self.side_a.partial
        } else {
            self.side_b.partial
        }
    }

    /// A copy of every public row, for state dumps.
    pub fn clone_rows(&self) -> (r: Vec<Row>)
        ensures
            crate::keyed::rows_view(r@) == self.rows_v(),
    {
        if self.a_public {
            self.side_a.clone_rows()
        } else {
            self.side_b.clone_rows()
        }
    }

    /// The number of rows readers can see.
    pub fn len(&self) -> (r: usize)
        ensures
            r == self.rows_v().len(),
    {
        if self.a_public {
            self.side_a.row_count()
        } else {
            self.side_b.row_count()
        }
    }
}

/// All record batches in order, as one stream.
pub open spec fn concat_all(batches: Seq<Seq<crate::data::RecordVal>>) -> Seq<
    crate::data::RecordVal,
>
    decreases batches.len(),
{
    if batches.len() == 0 {
        Seq::empty()
    } else {
        batches[0] + concat_all(batches.drop_first())
    }
}

/// The rows of an initially empty full materialization after the batches
/// land in order.
pub open spec fn rows_after(
    batches: Seq<Seq<crate::data::RecordVal>>,
    cols: Seq<usize>,
) -> Seq<Seq<DataVal>>
    decreases batches.len(),
{
    if batches.len() == 0 {
        Seq::empty()
    } else {
        crate::keyed::apply_all(
            rows_after(batches.drop_last(), cols),
            batches.last(),
            cols,
            false,
            Seq::empty(),
        )
    }
}

/// Batches compose: applying a concatenation is applying the parts in turn.
pub proof fn lemma_apply_all_concat(
    rows: Seq<Seq<DataVal>>,
    a: Seq<crate::data::RecordVal>,
    b: Seq<crate::data::RecordVal>,
    cols: Seq<usize>,
    partial: bool,
    filled: Seq<Seq<DataVal>>,
)
    ensures
        crate::keyed::apply_all(rows, a + b, cols, partial, filled) == crate::keyed::apply_all(
            crate::keyed::apply_all(rows, a, cols, partial, filled),
            b,
            cols,
            partial,
            filled,
        ),
    decreases a.len(),
{
    if a.len() == 0 {
        assert(a + b =~= b);
    } else {
        assert((a + b)[0] == a[0]);
        assert((a + b).drop_first() =~= a.drop_first() + b);
        let first = if crate::keyed::record_lands(a[0], cols, partial, filled) {
            crate::keyed::apply_one(rows, a[0])
        } else {
            rows
        };
        lemma_apply_all_concat(first, a.drop_first(), b, cols, partial, filled);
    }
}

/// Materialization completeness: once every batch has landed on an initially
/// empty, full (hole-free) materialization, the rows present — and so what
/// `lookup` returns for each key, namely their projection onto that key —
/// are exactly the rows implied by applying every observed record in order.
pub proof fn lemma_materialization_complete(
    batches: Seq<Seq<crate::data::RecordVal>>,
    cols: Seq<usize>,
    key: Seq<DataVal>,
)
    ensures
        rows_after(batches, cols) == crate::keyed::apply_all(
            Seq::empty(),
            concat_all(batches),
            cols,
            false,
            Seq::empty(),
        ),
        crate::keyed::rows_for_key(rows_after(batches, cols), cols, key)
            == crate::keyed::rows_for_key(
            crate::keyed::apply_all(Seq::empty(), concat_all(batches), cols, false, Seq::empty()),
            cols,
            key,
        ),
    decreases batches.len(),
{
    if batches.len() == 0 {
        assert(concat_all(batches) =~= Seq::<crate::data::RecordVal>::empty());
    } else {
        lemma_materialization_complete(batches.drop_last(), cols, key);
        lemma_concat_all_push(batches.drop_last(), batches.last());
        assert(batches.drop_last().push(batches.last()) =~= batches);
        lemma_apply_all_concat(
            Seq::empty(),
            concat_all(batches.drop_last()),
            batches.last(),
            cols,
            false,
            Seq::empty(),
        );
    }
}

pub proof fn lemma_concat_all_push(
    batches: Seq<Seq<crate::data::RecordVal>>,
    b: Seq<crate::data::RecordVal>,
)
    ensures
        concat_all(batches.push(b)) == concat_all(batches) + b,
    decreases batches.len(),
{
    if batches.len() == 0 {
        assert(batches.push(b).drop_first() =~= batches);
        assert(batches.push(b)[0] == b);
        assert(concat_all(batches.push(b)) == b + concat_all(batches));
        assert(b + concat_all(batches) =~= concat_all(batches) + b);
    } else {
        assert(batches.push(b)[0] == batches[0]);
        assert(batches.push(b).drop_first() =~= batches.drop_first().push(b));
        lemma_concat_all_push(batches.drop_first(), b);
        assert(batches[0] + (concat_all(batches.drop_first()) + b) =~= (batches[0] + concat_all(
            batches.drop_first(),
        )) + b);
    }
}

} // verus!
