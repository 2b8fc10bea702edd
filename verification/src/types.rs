//! Column values, column vectors, batches, schemas and the operator's error
//! kinds.
//!
//! A floating-point column value is carried as its IEEE-754 bit pattern
//! (`u64`); the ordering the comparator gives it is the IEEE-754 total order,
//! under which every quiet NaN with the sign bit clear sorts above positive
//! infinity and the negative zero sorts below the positive zero. A date-time
//! value is carried as its packed chronological core, whose numeric order is
//! the chronological order; a duration is its signed length in nanoseconds; a
//! fixed-point decimal is its value scaled to an integer by the column's
//! fixed denominator.

use vstd::prelude::*;

verus! {

/// The collations a byte-string column can declare.
#[derive(Clone, Copy, Debug, PartialEq, Eq, Structural)]
pub enum CollationId {
    /// Plain byte-sequence comparison.
    Binary,
    /// Code-point comparison of UTF-8 text; on well-formed UTF-8 this equals
    /// byte-sequence comparison, which is how it is defined here.
    Utf8Mb4Bin,
    /// Case- and accent-insensitive comparison of UTF-8 text by per-character
    /// weights.
    Utf8Mb4GeneralCi,
}

/// The semantic kinds of column the comparator distinguishes.
#[derive(Clone, Copy, Debug, PartialEq, Eq, Structural)]
pub enum ColKind {
    Int,
    Real,
    Bytes,
    DateTime,
    Duration,
    Decimal,
}

/// One field-type descriptor: the semantic kind plus the flags the comparator
/// reads (unsignedness of integers, collation of byte strings).
#[derive(Clone, Copy, Debug, PartialEq, Eq, Structural)]
pub struct ColType {
    pub kind: ColKind,
    /// Meaningful for `Int` columns: compare the 64-bit pattern as unsigned.
    pub unsigned: bool,
    /// Meaningful for `Bytes` columns.
    pub collation: CollationId,
}

/// One evaluated sort-key value (also one cell of a column, where `Null`
/// stands for an absent value).
#[derive(Clone, Debug)]
pub enum SortValue {
    Null,
    Int(i64),
    /// IEEE-754 bit pattern of a 64-bit float.
    Real(u64),
    Bytes(Vec<u8>),
    /// Packed chronological core of a date-time.
    DateTime(u64),
    /// Signed duration in nanoseconds.
    Duration(i64),
    /// Fixed-point decimal scaled to an integer.
    Decimal(i128),
}

/// The mathematical value of a [`SortValue`].
pub enum SortValueV {
    Null,
    Int(i64),
    Real(u64),
    Bytes(Seq<u8>),
    DateTime(u64),
    Duration(i64),
    Decimal(i128),
}

impl View for SortValue {
    type V = SortValueV;

    open spec fn view(&self) -> SortValueV {
        match self {
            SortValue::Null => SortValueV::Null,
            SortValue::Int(x) => SortValueV::Int(*x),
            SortValue::Real(b) => SortValueV::Real(*b),
            SortValue::Bytes(s) => SortValueV::Bytes(s@),
            SortValue::DateTime(t) => SortValueV::DateTime(*t),
            SortValue::Duration(d) => SortValueV::Duration(*d),
            SortValue::Decimal(d) => SortValueV::Decimal(*d),
        }
    }
}

impl SortValue {
    /// Structural copy of the value.
    pub fn duplicate(&self) -> (r: SortValue)
        ensures
            r@ == self@,
    {
        match self {
            SortValue::Null => SortValue::Null,
            SortValue::Int(x) => SortValue::Int(*x),
            SortValue::Real(b) => SortValue::Real(*b),
            SortValue::Bytes(s) => SortValue::Bytes(clone_bytes(s)),
            SortValue::DateTime(t) => SortValue::DateTime(*t),
            SortValue::Duration(d) => SortValue::Duration(*d),
            SortValue::Decimal(d) => SortValue::Decimal(*d),
        }
    }
}

/// One physical column of a batch: a vector of optional values, all of one
/// kind.
#[derive(Clone, Debug)]
pub enum Column {
    Int(Vec<Option<i64>>),
    Real(Vec<Option<u64>>),
    Bytes(Vec<Option<Vec<u8>>>),
    DateTime(Vec<Option<u64>>),
    Duration(Vec<Option<i64>>),
    Decimal(Vec<Option<i128>>),
}

/// The mathematical value of a [`Column`].
pub enum ColumnV {
    Int(Seq<Option<i64>>),
    Real(Seq<Option<u64>>),
    Bytes(Seq<Option<Seq<u8>>>),
    DateTime(Seq<Option<u64>>),
    Duration(Seq<Option<i64>>),
    Decimal(Seq<Option<i128>>),
}

impl View for Column {
    type V = ColumnV;

    open spec fn view(&self) -> ColumnV {
        match self {
            Column::Int(v) => ColumnV::Int(v@),
            Column::Real(v) => ColumnV::Real(v@),
            Column::Bytes(v) => ColumnV::Bytes(v@.map_values(|c: Option<Vec<u8>>| match c {
                Option::Some(b) => Option::Some(b@),
                Option::None => Option::None,
            })),
            Column::DateTime(v) => ColumnV::DateTime(v@),
            Column::Duration(v) => ColumnV::Duration(v@),
            Column::Decimal(v) => ColumnV::Decimal(v@),
        }
    }
}

impl ColumnV {
    /// Number of physical rows.
    pub open spec fn len(self) -> nat {
        match self {
            ColumnV::Int(v) => v.len(),
            ColumnV::Real(v) => v.len(),
            ColumnV::Bytes(v) => v.len(),
            ColumnV::DateTime(v) => v.len(),
            ColumnV::Duration(v) => v.len(),
            ColumnV::Decimal(v) => v.len(),
        }
    }

    /// The semantic kind of the column.
    pub open spec fn kind(self) -> ColKind {
        match self {
            ColumnV::Int(_) => ColKind::Int,
            ColumnV::Real(_) => ColKind::Real,
            ColumnV::Bytes(_) => ColKind::Bytes,
            ColumnV::DateTime(_) => ColKind::DateTime,
            ColumnV::Duration(_) => ColKind::Duration,
            ColumnV::Decimal(_) => ColKind::Decimal,
        }
    }

    /// The cell at physical row `i`, an absent value reading as `Null`.
    pub open spec fn cell(self, i: int) -> SortValueV {
        match self {
            ColumnV::Int(v) => match v[i] {
                Option::Some(x) => SortValueV::Int(x),
                Option::None => SortValueV::Null,
            },
            ColumnV::Real(v) => match v[i] {
                Option::Some(x) => SortValueV::Real(x),
                Option::None => SortValueV::Null,
            },
            ColumnV::Bytes(v) => match v[i] {
                Option::Some(x) => SortValueV::Bytes(x),
                Option::None => SortValueV::Null,
            },
            ColumnV::DateTime(v) => match v[i] {
                Option::Some(x) => SortValueV::DateTime(x),
                Option::None => SortValueV::Null,
            },
            ColumnV::Duration(v) => match v[i] {
                Option::Some(x) => SortValueV::Duration(x),
                Option::None => SortValueV::Null,
            },
            ColumnV::Decimal(v) => match v[i] {
                Option::Some(x) => SortValueV::Decimal(x),
                Option::None => SortValueV::Null,
            },
        }
    }
}

impl Column {
    /// Number of physical rows.
    pub fn len(&self) -> (r: usize)
        ensures
            r == self@.len(),
    {
        match self {
            Column::Int(v) => v.len(),
            Column::Real(v) => v.len(),
            Column::Bytes(v) => v.len(),
            Column::DateTime(v) => v.len(),
            Column::Duration(v) => v.len(),
            Column::Decimal(v) => v.len(),
        }
    }

    /// The semantic kind of the column.
    pub fn kind(&self) -> (r: ColKind)
        ensures
            r == self@.kind(),
    {
        match self {
            Column::Int(_) => ColKind::Int,
            Column::Real(_) => ColKind::Real,
            Column::Bytes(_) => ColKind::Bytes,
            Column::DateTime(_) => ColKind::DateTime,
            Column::Duration(_) => ColKind::Duration,
            Column::Decimal(_) => ColKind::Decimal,
        }
    }

    /// An empty column of the given kind.
    pub fn empty(kind: ColKind) -> (r: Column)
        ensures
            r@.kind() == kind,
            r@.len() == 0,
    {
        match kind {
            ColKind::Int => Column::Int(Vec::new()),
            ColKind::Real => Column::Real(Vec::new()),
            ColKind::Bytes => {
                let c = Column::Bytes(Vec::new());
                proof {
                    assert(c@.len() == 0) by {
                        assert(Seq::<Option<Vec<u8>>>::empty().map_values(
                            |x: Option<Vec<u8>>| match x {
                                Option::Some(b) => Option::Some(b@),
                                Option::None => Option::None,
                            },
                        ).len() == 0);
                    }
                }
                c
            },
            ColKind::DateTime => Column::DateTime(Vec::new()),
            ColKind::Duration => Column::Duration(Vec::new()),
            ColKind::Decimal => Column::Decimal(Vec::new()),
        }
    }

    /// The cell at physical row `i`, an absent value reading as `Null`.
    pub fn cell(&self, i: usize) -> (r: SortValue)
        requires
            i < self@.len(),
        ensures
            r@ == self@.cell(i as int),
    {
        match self {
            Column::Int(v) => match v[i] {
                Option::Some(x) => SortValue::Int(x),
                Option::None => SortValue::Null,
            },
            Column::Real(v) => match v[i] {
                Option::Some(x) => SortValue::Real(x),
                Option::None => SortValue::Null,
            },
            Column::Bytes(v) => match &v[i] {
                Option::Some(x) => SortValue::Bytes(clone_bytes(x)),
                Option::None => SortValue::Null,
            },
            Column::DateTime(v) => match v[i] {
                Option::Some(x) => SortValue::DateTime(x),
                Option::None => SortValue::Null,
            },
            Column::Duration(v) => match v[i] {
                Option::Some(x) => SortValue::Duration(x),
                Option::None => SortValue::Null,
            },
            Column::Decimal(v) => match v[i] {
                Option::Some(x) => SortValue::Decimal(x),
                Option::None => SortValue::Null,
            },
        }
    }

    /// Appends a cell. The cell must fit the column's kind; `Null` appends an
    /// absent value.
    pub fn push_cell(&mut self, v: SortValue)
        requires
            v@ is Null || value_kind(v@) == old(self)@.kind(),
        ensures
            final(self)@.kind() == old(self)@.kind(),
            final(self)@.len() == old(self)@.len() + 1,
            forall|i: int|
                0 <= i < old(self)@.len() ==> final(self)@.cell(i) == old(self)@.cell(i),
            final(self)@.cell(old(self)@.len() as int) == v@,
    {
        match self {
            Column::Int(vec) => match v {
                SortValue::Int(x) => vec.push(Option::Some(x)),
                _ => vec.push(Option::None),
            },
            Column::Real(vec) => match v {
                SortValue::Real(x) => vec.push(Option::Some(x)),
                _ => vec.push(Option::None),
            },
            Column::Bytes(vec) => match v {
                SortValue::Bytes(x) => {
                    vec.push(Option::Some(x));
                    proof {
                        lemma_bytes_view_push(vec@.drop_last(), vec@.last());
                    }
                },
                _ => {
                    vec.push(Option::None);
                    proof {
                        lemma_bytes_view_push(vec@.drop_last(), vec@.last());
                    }
                },
            },
            Column::DateTime(vec) => match v {
                SortValue::DateTime(x) => vec.push(Option::Some(x)),
                _ => vec.push(Option::None),
            },
            Column::Duration(vec) => match v {
                SortValue::Duration(x) => vec.push(Option::Some(x)),
                _ => vec.push(Option::None),
            },
            Column::Decimal(vec) => match v {
                SortValue::Decimal(x) => vec.push(Option::Some(x)),
                _ => vec.push(Option::None),
            },
        }
    }
}

/// Whether the stream continues after a batch.
#[derive(Clone, Copy, Debug, PartialEq, Eq, Structural)]
pub enum DrainState {
    /// More batches follow; the caller must pull again.
    Remain,
    /// End of stream; the producer must not be pulled again.
    Drain,
}

impl DrainState {
    /// True when the stream has ended.
    pub fn stop(&self) -> (r: bool)
        ensures
            r == (*self is Drain),
    {
        match self {
            DrainState::Drain => true,
            DrainState::Remain => false,
        }
    }

    /// True when more batches follow.
    pub fn is_remain(&self) -> (r: bool)
        ensures
            r == (*self is Remain),
    {
        match self {
            DrainState::Remain => true,
            DrainState::Drain => false,
        }
    }
}

/// The error kinds the operator distinguishes. An error arriving from the
/// upstream source is propagated verbatim, whatever its kind.
#[derive(Clone, Copy, Debug, PartialEq, Eq, Structural)]
pub enum ExecError {
    /// The pushdown descriptor cannot be served: no ORDER BY column, or an
    /// expression outside the supported subset.
    UnsupportedPushdown,
    /// A malformed ORDER BY expression at construction time: a column
    /// reference outside the schema, or an ill-typed operand.
    ExpressionBuild,
    /// A runtime failure evaluating an ORDER BY expression over a batch.
    Evaluation,
    /// A failure signalled by a collaborator below this operator.
    Upstream,
}

/// Warnings accumulated while evaluating; only their number is carried.
#[derive(Clone, Copy, Debug, PartialEq, Eq, Structural)]
pub struct EvalWarnings {
    pub warning_cnt: usize,
}

impl Default for EvalWarnings {
    /// No warnings.
    fn default() -> (r: EvalWarnings)
        ensures
            r.warning_cnt == 0,
    {
        EvalWarnings { warning_cnt: 0 }
    }
}

/// The key range a storage scan has covered so far.
#[derive(Clone, Debug)]
pub struct IntervalRange {
    pub lower_inclusive: Vec<u8>,
    pub upper_exclusive: Vec<u8>,
}

/// Per-operator execution summaries, filled bottom-up through the pipeline.
#[derive(Clone, Debug)]
pub struct ExecuteStats {
    pub scanned_rows_per_range: Vec<usize>,
}

/// One pulled batch: the physical columns, the ordered list of visible
/// (logical) row indices, warnings, and the drain status or a terminal
/// error.
#[derive(Debug)]
pub struct BatchExecuteResult {
    pub physical_columns: Vec<Column>,
    pub logical_rows: Vec<usize>,
    pub warnings: EvalWarnings,
    pub is_drained: Result<DrainState, ExecError>,
}

/// The mathematical value of a [`BatchExecuteResult`].
pub struct BatchV {
    pub cols: Seq<ColumnV>,
    pub logical_rows: Seq<usize>,
    pub warnings: EvalWarnings,
    pub is_drained: Result<DrainState, ExecError>,
}

impl View for BatchExecuteResult {
    type V = BatchV;

    open spec fn view(&self) -> BatchV {
        BatchV {
            cols: self.physical_columns@.map_values(|c: Column| c@),
            logical_rows: self.logical_rows@,
            warnings: self.warnings,
            is_drained: self.is_drained,
        }
    }
}

impl BatchV {
    /// A batch is well formed for a schema when its columns match the schema
    /// kind for kind, all columns have one common physical length, and every
    /// logical row index stays below it.
    pub open spec fn wf(self, schema: Seq<ColType>) -> bool {
        &&& self.cols.len() == schema.len()
        &&& forall|c: int| 0 <= c < self.cols.len() ==> (#[trigger] self.cols[c]).kind()
            == schema[c].kind
        &&& forall|c: int| 0 <= c < self.cols.len() ==> (#[trigger] self.cols[c]).len()
            == self.phys_len()
        &&& forall|i: int| 0 <= i < self.logical_rows.len() ==> (#[trigger] self.logical_rows[i])
            < self.phys_len()
    }

    /// The common physical length of the columns (0 for a batch of no
    /// columns).
    pub open spec fn phys_len(self) -> nat {
        if self.cols.len() == 0 {
            0
        } else {
            self.cols[0].len()
        }
    }
}

impl BatchExecuteResult {
    /// An empty batch carrying the given status.
    pub fn empty_with(warnings: EvalWarnings, is_drained: Result<DrainState, ExecError>) -> (r:
        BatchExecuteResult)
        ensures
            r@.cols.len() == 0,
            r@.logical_rows.len() == 0,
            r@.warnings == warnings,
            r@.is_drained == is_drained,
    {
        let r = BatchExecuteResult {
            physical_columns: Vec::new(),
            logical_rows: Vec::new(),
            warnings,
            is_drained,
        };
        proof {
            assert(r@.cols =~= Seq::<ColumnV>::empty());
        }
        r
    }
}

/// The kind a non-`Null` value belongs to.
pub open spec fn value_kind(v: SortValueV) -> ColKind {
    match v {
        SortValueV::Null => ColKind::Int,
        SortValueV::Int(_) => ColKind::Int,
        SortValueV::Real(_) => ColKind::Real,
        SortValueV::Bytes(_) => ColKind::Bytes,
        SortValueV::DateTime(_) => ColKind::DateTime,
        SortValueV::Duration(_) => ColKind::Duration,
        SortValueV::Decimal(_) => ColKind::Decimal,
    }
}

/// Structural copy of a byte string.
pub fn clone_bytes(s: &Vec<u8>) -> (r: Vec<u8>)
    ensures
        r@ == s@,
{
    let mut t: Vec<u8> = Vec::new();
    let mut i: usize = 0;
    while i < s.len()
        invariant
            i <= s.len(),
            t@ == s@.take(i as int),
        decreases s.len() - i,
    {
        t.push(s[i]);
        proof {
            assert(s@.take(i + 1) == s@.take(i as int).push(s@[i as int]));
        }
        i = i + 1;
    }
    proof {
        assert(s@.take(s@.len() as int) == s@);
    }
    t
}

proof fn lemma_bytes_view_push(s: Seq<Option<Vec<u8>>>, v: Option<Vec<u8>>)
    ensures
        s.push(v).map_values(
            |x: Option<Vec<u8>>| match x {
                Option::Some(b) => Option::Some(b@),
                Option::None => Option::None,
            },
        ) == s.map_values(
            |x: Option<Vec<u8>>| match x {
                Option::Some(b) => Option::Some(b@),
                Option::None => Option::None,
            },
        ).push(
            match v {
                Option::Some(b) => Option::Some(b@),
                Option::None => Option::None,
            },
        ),
{
    let f = |x: Option<Vec<u8>>| match x {
        Option::Some(b) => Option::Some(b@),
        Option::None => Option::None,
    };
    assert(s.push(v).map_values(f) =~= s.map_values(f).push(f(v)));
}

} // verus!
