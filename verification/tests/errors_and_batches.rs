use std::sync::Arc;

use batch_top_n::executor::BatchTopNExecutor;
use batch_top_n::executor::ByItem;
use batch_top_n::executor::EvalConfig;
use batch_top_n::executor::TopNDescriptor;
use batch_top_n::expr::OrderExpr;
use batch_top_n::source::FixedSource;
use batch_top_n::types::BatchExecuteResult;
use batch_top_n::types::ColKind;
use batch_top_n::types::ColType;
use batch_top_n::types::CollationId;
use batch_top_n::types::Column;
use batch_top_n::types::DrainState;
use batch_top_n::types::EvalWarnings;
use batch_top_n::types::ExecError;
use batch_top_n::types::SortValue;

fn int_type() -> ColType {
    ColType { kind: ColKind::Int, unsigned: false, collation: CollationId::Binary }
}

fn one_int_batch(values: Vec<Option<i64>>, drained: DrainState) -> BatchExecuteResult {
    let n = values.len();
    BatchExecuteResult {
        physical_columns: vec![Column::Int(values)],
        logical_rows: (0..n).collect(),
        warnings: EvalWarnings::default(),
        is_drained: Ok(drained),
    }
}

fn col_ref(i: usize) -> OrderExpr {
    OrderExpr::ColumnRef(i)
}

#[test]
fn check_supported_rejects_an_empty_order_by() {
    let empty = TopNDescriptor { order_by: Vec::new() };
    assert_eq!(
        BatchTopNExecutor::<FixedSource>::check_supported(&empty),
        Err(ExecError::UnsupportedPushdown)
    );
    let one = TopNDescriptor { order_by: vec![ByItem { expr: col_ref(0), desc: false }] };
    assert!(BatchTopNExecutor::<FixedSource>::check_supported(&one).is_ok());
}

#[test]
fn new_rejects_a_column_reference_outside_the_schema() {
    let src = FixedSource::new(vec![int_type()], Vec::new());
    let r = BatchTopNExecutor::new(
        Arc::new(EvalConfig { paging_size: None }),
        src,
        vec![col_ref(3)],
        vec![false],
        5,
    );
    assert!(matches!(r, Err(ExecError::ExpressionBuild)));
}

#[test]
fn new_rejects_an_addition_over_a_non_integer_operand() {
    let bytes_schema = vec![ColType {
        kind: ColKind::Bytes,
        unsigned: false,
        collation: CollationId::Binary,
    }];
    let src = FixedSource::new(bytes_schema, Vec::new());
    let r = BatchTopNExecutor::new(
        Arc::new(EvalConfig { paging_size: None }),
        src,
        vec![OrderExpr::PlusInt(
            Box::new(col_ref(0)),
            Box::new(OrderExpr::Constant(SortValue::Int(1))),
        )],
        vec![false],
        5,
    );
    assert!(matches!(r, Err(ExecError::ExpressionBuild)));
}

#[test]
fn new_accepts_valid_expressions() {
    let src = FixedSource::new(
        vec![int_type()],
        vec![one_int_batch(vec![Some(2), Some(1)], DrainState::Drain)],
    );
    let r = BatchTopNExecutor::new(
        Arc::new(EvalConfig { paging_size: None }),
        src,
        vec![col_ref(0)],
        vec![false],
        1,
    );
    let mut exec = match r {
        Ok(e) => e,
        Err(_) => panic!("construction should succeed"),
    };
    let out = exec.next_batch(1);
    assert_eq!(out.logical_rows, vec![0]);
    match &out.physical_columns[0] {
        Column::Int(v) => assert_eq!(v, &vec![Some(1)]),
        _ => panic!("wrong column kind"),
    }
    assert!(out.is_drained.unwrap().stop());
}

#[test]
fn an_overflowing_addition_is_a_terminal_evaluation_error() {
    let src = FixedSource::new(
        vec![int_type()],
        vec![one_int_batch(vec![Some(i64::MAX)], DrainState::Drain)],
    );
    let mut exec = BatchTopNExecutor::new_for_test(
        src,
        vec![OrderExpr::PlusInt(
            Box::new(col_ref(0)),
            Box::new(OrderExpr::Constant(SortValue::Int(1))),
        )],
        vec![false],
        5,
    );
    let r = exec.next_batch(1);
    assert_eq!(r.physical_columns.len(), 0);
    assert!(r.logical_rows.is_empty());
    assert_eq!(r.is_drained, Err(ExecError::Evaluation));
}

#[test]
fn an_upstream_error_is_propagated_verbatim() {
    let src = FixedSource::new(
        vec![int_type()],
        vec![BatchExecuteResult {
            physical_columns: vec![Column::Int(vec![Some(1)])],
            logical_rows: vec![0],
            warnings: EvalWarnings::default(),
            is_drained: Err(ExecError::Upstream),
        }],
    );
    let mut exec = BatchTopNExecutor::new_for_test(src, vec![col_ref(0)], vec![false], 5);
    let r = exec.next_batch(1);
    assert_eq!(r.physical_columns.len(), 0);
    assert!(r.logical_rows.is_empty());
    assert_eq!(r.is_drained, Err(ExecError::Upstream));
}

#[test]
fn output_row_count_is_the_smaller_of_limit_and_input() {
    // seven input rows, limit three: the three smallest come back sorted
    let src = FixedSource::new(
        vec![int_type()],
        vec![
            one_int_batch(vec![Some(5), Some(1), Some(9), None], DrainState::Remain),
            one_int_batch(vec![Some(0), Some(7), Some(3)], DrainState::Drain),
        ],
    );
    let mut exec = BatchTopNExecutor::new_for_test(src, vec![col_ref(0)], vec![false], 3);
    let r = exec.next_batch(1);
    assert!(r.is_drained.unwrap().is_remain());
    let r = exec.next_batch(1);
    match &r.physical_columns[0] {
        Column::Int(v) => assert_eq!(v, &vec![None, Some(0), Some(1)]),
        _ => panic!("wrong column kind"),
    }
    assert_eq!(r.logical_rows, vec![0, 1, 2]);
    assert!(r.is_drained.unwrap().stop());
}

#[test]
fn drain_state_reports_itself() {
    assert!(DrainState::Drain.stop());
    assert!(!DrainState::Drain.is_remain());
    assert!(!DrainState::Remain.stop());
    assert!(DrainState::Remain.is_remain());
}

#[test]
fn default_config_has_no_paging_size() {
    let c = EvalConfig::default();
    assert_eq!(c.paging_size, None);
    let w = EvalWarnings::default();
    assert_eq!(w.warning_cnt, 0);
}

#[test]
fn columns_give_back_pushed_cells() {
    let mut col = Column::empty(ColKind::Int);
    col.push_cell(SortValue::Int(7));
    col.push_cell(SortValue::Null);
    assert_eq!(col.len(), 2);
    assert!(matches!(col.cell(0), SortValue::Int(7)));
    assert!(matches!(col.cell(1), SortValue::Null));
    assert_eq!(col.kind(), ColKind::Int);
}

#[test]
fn equal_keys_stay_contiguous_without_a_fixed_internal_order() {
    // ties are unordered: assert only that the tied group sits between its
    // neighbours, not how the group is arranged inside
    let src = FixedSource::new(
        vec![int_type(), int_type()],
        vec![BatchExecuteResult {
            physical_columns: vec![
                Column::Int(vec![Some(2), Some(1), Some(2), Some(0), Some(2)]),
                Column::Int(vec![Some(10), Some(20), Some(30), Some(40), Some(50)]),
            ],
            logical_rows: vec![0, 1, 2, 3, 4],
            warnings: EvalWarnings::default(),
            is_drained: Ok(DrainState::Drain),
        }],
    );
    let mut exec = BatchTopNExecutor::new_for_test(src, vec![col_ref(0)], vec![false], 5);
    let r = exec.next_batch(1);
    let keys = match &r.physical_columns[0] {
        Column::Int(v) => v.clone(),
        _ => panic!("wrong column kind"),
    };
    assert_eq!(keys, vec![Some(0), Some(1), Some(2), Some(2), Some(2)]);
    let tied: Vec<Option<i64>> = match &r.physical_columns[1] {
        Column::Int(v) => {
            let mut g: Vec<Option<i64>> = v[2..5].to_vec();
            g.sort();
            g
        },
        _ => panic!("wrong column kind"),
    };
    assert_eq!(tied, vec![Some(10), Some(30), Some(50)]);
    assert!(r.is_drained.unwrap().stop());
}
