//! Rows and records: the data carried by dataflow packets.
//!
//! A [`Row`] is an ordered list of column values. A [`Record`] pairs a row
//! with a polarity: positive records insert the row, negative records retract
//! it. [`Records`] is an ordered batch of records; batches compose additively,
//! so a positive record followed by a matching negative one collapses to
//! nothing at materialization.

use vstd::prelude::*;

verus! {

/// One column value of a row.
pub enum DataType {
    Int(i64),
    Text(String),
}

/// The mathematical value of one column: an unbounded integer or a character
/// sequence.
#[verifier::ext_equal]
pub enum DataVal {
    Int(int),
    Text(Seq<char>),
}

impl View for DataType {
    type V = DataVal;

    open spec fn view(&self) -> DataVal {
        match self {
            DataType::Int(i) => DataVal::Int(*i as int),
            DataType::Text(s) => DataVal::Text(s@),
        }
    }
}

impl DataType {
    /// Column-value equality, decided on the mathematical values.
    pub fn same(&self, other: &DataType) -> (r: bool)
        ensures
            r == (self@ == other@),
    {
        match (self, other) {
            (DataType::Int(a), DataType::Int(b)) => *a == *b,
            (DataType::Text(a), DataType::Text(b)) => *a == *b,
            _ => false,
        }
    }

    pub fn clone_val(&self) -> (r: DataType)
        ensures
            r@ == self@,
    {
        match self {
            DataType::Int(i) => DataType::Int(*i),
            DataType::Text(s) => DataType::Text(s.clone()),
        }
    }
}

/// An ordered list of column values.
pub struct Row {
    pub cells: Vec<DataType>,
}

impl View for Row {
    type V = Seq<DataVal>;

    open spec fn view(&self) -> Seq<DataVal> {
        self.cells@.map(|_i: int, c: DataType| c@)
    }
}

impl Row {
    pub fn new(cells: Vec<DataType>) -> (r: Row)
        ensures
            r@ == cells@.map(|_i: int, c: DataType| c@),
    {
        Row { cells }
    }

    pub fn len(&self) -> (r: usize)
        ensures
            r == self@.len(),
    {
        self.cells.len()
    }

    /// Row equality, decided on the mathematical values.
    pub fn same(&self, other: &Row) -> (r: bool)
        ensures
            r == (self@ == other@),
    {
        if self.cells.len() != other.cells.len() {
            proof {
                assert(self@.len() != other@.len());
            }
            return false;
        }
        let n = self.cells.len();
        let mut i: usize = 0;
        while i < n
            invariant
                n == self.cells.len(),
                n == other.cells.len(),
                i <= n,
                forall|j: int| 0 <= j < i ==> self@[j] == other@[j],
            decreases n - i,
        {
            if !self.cells[i].same(&other.cells[i]) {
                proof {
                    assert(self@[i as int] != other@[i as int]);
                }
                return false;
            }
            i = i + 1;
        }
        proof {
            assert(self@ =~= other@);
        }
        true
    }

    pub fn clone_row(&self) -> (r: Row)
        ensures
            r@ == self@,
    {
        let mut cells: Vec<DataType> = Vec::new();
        let n = self.cells.len();
        let mut i: usize = 0;
        while i < n
            invariant
                n == self.cells.len(),
                i <= n,
                cells@.len() == i,
                forall|j: int| 0 <= j < i ==> cells@[j]@ == self@[j],
            decreases n - i,
        {
            cells.push(self.cells[i].clone_val());
            i = i + 1;
        }
        let r = Row { cells };
        proof {
            assert(r@ =~= self@);
        }
        r
    }
}

/// The mathematical value of a record: a row and its polarity.
#[verifier::ext_equal]
pub struct RecordVal {
    pub row: Seq<DataVal>,
    pub positive: bool,
}

/// A row tagged with a polarity: `positive` inserts the row, otherwise the
/// record retracts one occurrence of it.
pub struct Record {
    pub row: Row,
    pub positive: bool,
}

impl View for Record {
    type V = RecordVal;

    open spec fn view(&self) -> RecordVal {
        RecordVal { row: self.row@, positive: self.positive }
    }
}

impl Record {
    pub fn clone_record(&self) -> (r: Record)
        ensures
            r@ == self@,
    {
        Record { row: self.row.clone_row(), positive: self.positive }
    }
}

/// An ordered batch of records.
pub struct Records {
    pub recs: Vec<Record>,
}

impl View for Records {
    type V = Seq<RecordVal>;

    open spec fn view(&self) -> Seq<RecordVal> {
        self.recs@.map(|_i: int, r: Record| r@)
    }
}

impl Records {
    pub fn new() -> (r: Records)
        ensures
            r@ == Seq::<RecordVal>::empty(),
    {
        let r = Records { recs: Vec::new() };
        proof {
            assert(r@ =~= Seq::<RecordVal>::empty());
        }
        r
    }

    pub fn is_empty(&self) -> (r: bool)
        ensures
            r == (self@.len() == 0),
    {
        self.recs.len() == 0
    }

    pub fn len(&self) -> (r: usize)
        ensures
            r == self@.len(),
    {
        self.recs.len()
    }

    pub fn push(&mut self, rec: Record)
        ensures
            final(self)@ == old(self)@.push(rec@),
    {
        self.recs.push(rec);
        proof {
            assert(self@ =~= old(self)@.push(self.recs@.last()@));
        }
    }

    /// Append all of `other`'s records after this batch's.
    pub fn append(&mut self, other: &mut Records)
        ensures
            final(self)@ == old(self)@ + old(other)@,
            final(other)@ == Seq::<RecordVal>::empty(),
    {
        self.recs.append(&mut other.recs);
        proof {
            assert(self@ =~= old(self)@ + old(other)@);
            assert(other@ =~= Seq::<RecordVal>::empty());
        }
    }

    pub fn clone_records(&self) -> (r: Records)
        ensures
            r@ == self@,
    {
        let mut recs: Vec<Record> = Vec::new();
        let n = self.recs.len();
        let mut i: usize = 0;
        while i < n
            invariant
                n == self.recs.len(),
                i <= n,
                recs@.len() == i,
                forall|j: int| 0 <= j < i ==> recs@[j]@ == self@[j],
            decreases n - i,
        {
            recs.push(self.recs[i].clone_record());
            i = i + 1;
        }
        let r = Records { recs };
        proof {
            assert(r@ =~= self@);
        }
        r
    }
}

/// Rows recast as positive records: the shape a state dump takes when it is
/// replayed forward.
pub open spec fn positives(rows: Seq<Seq<DataVal>>) -> Seq<RecordVal> {
    rows.map(|_i: int, r: Seq<DataVal>| RecordVal { row: r, positive: true })
}

/// Build the positive-record batch carrying the given rows.
pub fn records_of_rows(rows: Vec<Row>) -> (r: Records)
    ensures
        r@ == positives(rows@.map(|_i: int, w: Row| w@)),
{
    let mut recs: Vec<Record> = Vec::new();
    let n = rows.len();
    let mut i: usize = 0;
    let mut rest = rows;
    let ghost all = rest@;
    let mut taken: usize = 0;
    while taken < n
        invariant
            n == all.len(),
            taken <= n,
            rest@ =~= all.subrange(taken as int, n as int),
            recs@.len() == taken,
            forall|j: int| 0 <= j < taken ==> recs@[j]@ == (RecordVal {
                row: all[j]@,
                positive: true,
            }),
        decreases n - taken,
    {
        let row = rest.remove(0);
        proof {
            assert(row == all[taken as int]);
            assert(rest@ =~= all.subrange(taken + 1, n as int));
        }
        recs.push(Record { row, positive: true });
        taken = taken + 1;
    }
    let r = Records { recs };
    proof {
        assert(r@ =~= positives(all.map(|_i: int, w: Row| w@)));
    }
    r
}

} // verus!
