//! The supported ORDER BY expression subset and its evaluation.
//!
//! An ORDER BY term is a small expression over one batch row: a column
//! reference, a constant, a null test, or a checked 64-bit signed addition.
//! Evaluation is per logical row and NULL-propagating; the only runtime
//! failure is an addition overflowing, which is a terminal evaluation error
//! for the whole operator.

use vstd::prelude::*;

use crate::types::ColKind;
use crate::types::ColType;
use crate::types::CollationId;
use crate::types::Column;
use crate::types::ColumnV;
use crate::types::ExecError;
use crate::types::SortValue;
use crate::types::SortValueV;
use crate::types::value_kind;

verus! {

/// One compiled ORDER BY expression.
pub enum OrderExpr {
    /// The value of the referenced output column.
    ColumnRef(usize),
    /// A constant value.
    Constant(SortValue),
    /// 1 when the operand is NULL, else 0.
    IsNull(Box<OrderExpr>),
    /// NULL-propagating checked 64-bit signed addition.
    PlusInt(Box<OrderExpr>, Box<OrderExpr>),
}

/// NULL-propagating checked signed addition on evaluated values; `None` is
/// the overflow or type failure.
pub open spec fn plus_int_value(x: SortValueV, y: SortValueV) -> Option<SortValueV> {
    if x is Null || y is Null {
        Option::Some(SortValueV::Null)
    } else {
        match (x, y) {
            (SortValueV::Int(a), SortValueV::Int(b)) => if i64::MIN <= a + b <= i64::MAX {
                Option::Some(SortValueV::Int((a + b) as i64))
            } else {
                Option::None
            },
            _ => Option::None,
        }
    }
}

/// The value an expression takes on the physical row `phys` of a batch's
/// columns; `None` is an evaluation failure.
pub open spec fn eval_expr(e: OrderExpr, cols: Seq<ColumnV>, phys: int) -> Option<SortValueV>
    decreases e,
{
    match e {
        OrderExpr::ColumnRef(c) => Option::Some(cols[c as int].cell(phys)),
        OrderExpr::Constant(v) => Option::Some(v@),
        OrderExpr::IsNull(inner) => match eval_expr(*inner, cols, phys) {
            Option::Some(x) => Option::Some(
                SortValueV::Int(
                    if x is Null {
                        1
                    } else {
                        0
                    },
                ),
            ),
            Option::None => Option::None,
        },
        OrderExpr::PlusInt(l, r) => match (eval_expr(*l, cols, phys), eval_expr(*r, cols, phys)) {
            (Option::Some(x), Option::Some(y)) => plus_int_value(x, y),
            _ => Option::None,
        },
    }
}

/// The field type of an expression's result under a schema.
pub open spec fn expr_ret_type(e: OrderExpr, schema: Seq<ColType>) -> ColType
    decreases e,
{
    match e {
        OrderExpr::ColumnRef(c) => schema[c as int],
        OrderExpr::Constant(v) => ColType {
            kind: value_kind(v@),
            unsigned: false,
            collation: CollationId::Binary,
        },
        OrderExpr::IsNull(_) => ColType {
            kind: ColKind::Int,
            unsigned: false,
            collation: CollationId::Binary,
        },
        OrderExpr::PlusInt(_, _) => ColType {
            kind: ColKind::Int,
            unsigned: false,
            collation: CollationId::Binary,
        },
    }
}

/// An expression is buildable for a schema when every column reference lies
/// inside it and every addition operand is of integer kind.
pub open spec fn expr_valid(e: OrderExpr, schema: Seq<ColType>) -> bool
    decreases e,
{
    match e {
        OrderExpr::ColumnRef(c) => (c as int) < schema.len(),
        OrderExpr::Constant(_) => true,
        OrderExpr::IsNull(inner) => expr_valid(*inner, schema),
        OrderExpr::PlusInt(l, r) => {
            &&& expr_valid(*l, schema)
            &&& expr_valid(*r, schema)
            &&& expr_ret_type(*l, schema).kind == ColKind::Int
            &&& expr_ret_type(*r, schema).kind == ColKind::Int
        },
    }
}

/// Decides [`expr_valid`].
pub fn check_expr(e: &OrderExpr, schema: &Vec<ColType>) -> (r: bool)
    ensures
        r == expr_valid(*e, schema@),
    decreases *e,
{
    match e {
        OrderExpr::ColumnRef(c) => *c < schema.len(),
        OrderExpr::Constant(_) => true,
        OrderExpr::IsNull(inner) => check_expr(inner, schema),
        OrderExpr::PlusInt(l, r) => {
            let lv = check_expr(l, schema);
            let rv = check_expr(r, schema);
            if lv && rv {
                let lt = ret_type(l, schema);
                let rt = ret_type(r, schema);
                lt.kind == ColKind::Int && rt.kind == ColKind::Int
            } else {
                false
            }
        },
    }
}

/// Computes [`expr_ret_type`].
pub fn ret_type(e: &OrderExpr, schema: &Vec<ColType>) -> (r: ColType)
    requires
        expr_valid(*e, schema@),
    ensures
        r == expr_ret_type(*e, schema@),
    decreases *e,
{
    match e {
        OrderExpr::ColumnRef(c) => schema[*c],
        OrderExpr::Constant(v) => {
            let kind = match v {
                SortValue::Null => ColKind::Int,
                SortValue::Int(_) => ColKind::Int,
                SortValue::Real(_) => ColKind::Real,
                SortValue::Bytes(_) => ColKind::Bytes,
                SortValue::DateTime(_) => ColKind::DateTime,
                SortValue::Duration(_) => ColKind::Duration,
                SortValue::Decimal(_) => ColKind::Decimal,
            };
            ColType { kind, unsigned: false, collation: CollationId::Binary }
        },
        OrderExpr::IsNull(_) => ColType {
            kind: ColKind::Int,
            unsigned: false,
            collation: CollationId::Binary,
        },
        OrderExpr::PlusInt(_, _) => ColType {
            kind: ColKind::Int,
            unsigned: false,
            collation: CollationId::Binary,
        },
    }
}

/// Evaluates an expression on one physical row.
fn eval_expr_at(e: &OrderExpr, cols: &Vec<Column>, phys: usize) -> (r: Result<SortValue, ExecError>)
    requires
        forall|c: int| 0 <= c < cols@.len() ==> phys < (#[trigger] cols@[c])@.len(),
        in_bounds_expr(*e, cols@.len() as int),
    ensures
        match r {
            Result::Ok(v) => eval_expr(*e, cols@.map_values(|c: Column| c@), phys as int)
                == Option::Some(v@),
            Result::Err(err) => {
                &&& eval_expr(*e, cols@.map_values(|c: Column| c@), phys as int) is None
                &&& err == ExecError::Evaluation
            },
        },
    decreases *e,
{
    let ghost cv = cols@.map_values(|c: Column| c@);
    match e {
        OrderExpr::ColumnRef(c) => {
            proof {
                assert(cv[*c as int] == cols@[*c as int]@);
            }
            Result::Ok(cols[*c].cell(phys))
        },
        OrderExpr::Constant(v) => Result::Ok(v.duplicate()),
        OrderExpr::IsNull(inner) => match eval_expr_at(inner, cols, phys) {
            Result::Ok(v) => match v {
                SortValue::Null => Result::Ok(SortValue::Int(1)),
                _ => Result::Ok(SortValue::Int(0)),
            },
            Result::Err(err) => Result::Err(err),
        },
        OrderExpr::PlusInt(l, r) => {
            let lv = match eval_expr_at(l, cols, phys) {
                Result::Ok(v) => v,
                Result::Err(err) => {
                    return Result::Err(err);
                },
            };
            let rv = match eval_expr_at(r, cols, phys) {
                Result::Ok(v) => v,
                Result::Err(err) => {
                    return Result::Err(err);
                },
            };
            match (lv, rv) {
                (SortValue::Null, _) => Result::Ok(SortValue::Null),
                (_, SortValue::Null) => Result::Ok(SortValue::Null),
                (SortValue::Int(a), SortValue::Int(b)) => {
                    let s = a.checked_add(b);
                    match s {
                        Option::Some(x) => Result::Ok(SortValue::Int(x)),
                        Option::None => Result::Err(ExecError::Evaluation),
                    }
                },
                _ => Result::Err(ExecError::Evaluation),
            }
        },
    }
}

/// Column references an expression makes stay below `n_cols`.
pub open spec fn in_bounds_expr(e: OrderExpr, n_cols: int) -> bool
    decreases e,
{
    match e {
        OrderExpr::ColumnRef(c) => (c as int) < n_cols,
        OrderExpr::Constant(_) => true,
        OrderExpr::IsNull(inner) => in_bounds_expr(*inner, n_cols),
        OrderExpr::PlusInt(l, r) => in_bounds_expr(*l, n_cols) && in_bounds_expr(*r, n_cols),
    }
}

/// A valid expression only references columns inside the schema.
pub proof fn lemma_valid_in_bounds(e: OrderExpr, schema: Seq<ColType>)
    requires
        expr_valid(e, schema),
    ensures
        in_bounds_expr(e, schema.len() as int),
    decreases e,
{
    match e {
        OrderExpr::IsNull(inner) => lemma_valid_in_bounds(*inner, schema),
        OrderExpr::PlusInt(l, r) => {
            lemma_valid_in_bounds(*l, schema);
            lemma_valid_in_bounds(*r, schema);
        },
        _ => {},
    }
}

/// Evaluates one expression across a batch's logical rows, producing the
/// sort-key column aligned with them. `Ok` exactly when every row evaluates.
pub fn eval_expr_column(e: &OrderExpr, cols: &Vec<Column>, logical_rows: &Vec<usize>) -> (r: Result<
    Vec<SortValue>,
    ExecError,
>)
    requires
        in_bounds_expr(*e, cols@.len() as int),
        forall|i: int, c: int|
            0 <= i < logical_rows@.len() && 0 <= c < cols@.len() ==> (#[trigger] logical_rows@[i])
                < (#[trigger] cols@[c])@.len(),
    ensures
        match r {
            Result::Ok(keys) => {
                &&& keys@.len() == logical_rows@.len()
                &&& forall|i: int|
                    0 <= i < logical_rows@.len() ==> eval_expr(
                        *e,
                        cols@.map_values(|c: Column| c@),
                        logical_rows@[i] as int,
                    ) == Option::Some((#[trigger] keys@[i])@)
            },
            Result::Err(err) => {
                &&& err == ExecError::Evaluation
                &&& exists|i: int|
                    0 <= i < logical_rows@.len() && eval_expr(
                        *e,
                        cols@.map_values(|c: Column| c@),
                        (#[trigger] logical_rows@[i]) as int,
                    ) is None
            },
        },
{
    let ghost cv = cols@.map_values(|c: Column| c@);
    let mut keys: Vec<SortValue> = Vec::new();
    let mut i: usize = 0;
    while i < logical_rows.len()
        invariant
            i <= logical_rows@.len(),
            keys@.len() == i,
            cv == cols@.map_values(|c: Column| c@),
            in_bounds_expr(*e, cols@.len() as int),
            forall|q: int, c: int|
                0 <= q < logical_rows@.len() && 0 <= c < cols@.len() ==> (
                #[trigger] logical_rows@[q]) < (#[trigger] cols@[c])@.len(),
            forall|q: int|
                0 <= q < i ==> eval_expr(*e, cv, logical_rows@[q] as int) == Option::Some(
                    (#[trigger] keys@[q])@,
                ),
        decreases logical_rows@.len() - i,
    {
        let phys = logical_rows[i];
        match eval_expr_at(e, cols, phys) {
            Result::Ok(v) => {
                keys.push(v);
            },
            Result::Err(err) => {
                proof {
                    assert(eval_expr(*e, cv, logical_rows@[i as int] as int) is None);
                }
                return Result::Err(err);
            },
        }
        i = i + 1;
    }
    Result::Ok(keys)
}

} // verus!
