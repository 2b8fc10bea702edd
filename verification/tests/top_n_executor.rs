use std::sync::Arc;

use batch_top_n::executor::BatchTopNExecutor;
use batch_top_n::executor::EvalConfig;
use batch_top_n::expr::OrderExpr;
use batch_top_n::source::BatchSource;
use batch_top_n::source::FixedSource;
use batch_top_n::types::BatchExecuteResult;
use batch_top_n::types::ColKind;
use batch_top_n::types::ColType;
use batch_top_n::types::CollationId;
use batch_top_n::types::Column;
use batch_top_n::types::DrainState;
use batch_top_n::types::EvalWarnings;
use batch_top_n::types::SortValue;

fn int_type() -> ColType {
    ColType { kind: ColKind::Int, unsigned: false, collation: CollationId::Binary }
}

fn uint_type() -> ColType {
    ColType { kind: ColKind::Int, unsigned: true, collation: CollationId::Binary }
}

fn real_type() -> ColType {
    ColType { kind: ColKind::Real, unsigned: false, collation: CollationId::Binary }
}

fn bytes_type(collation: CollationId) -> ColType {
    ColType { kind: ColKind::Bytes, unsigned: false, collation }
}

fn fbits(x: f64) -> Option<u64> {
    Some(x.to_bits())
}

fn bs(s: &str) -> Option<Vec<u8>> {
    Some(s.as_bytes().to_vec())
}

fn rows_len(r: &BatchExecuteResult) -> usize {
    if r.physical_columns.is_empty() { 0 } else { r.physical_columns[0].len() }
}

fn columns_len(r: &BatchExecuteResult) -> usize {
    r.physical_columns.len()
}

fn to_int_vec(c: &Column) -> Vec<Option<i64>> {
    match c {
        Column::Int(v) => v.clone(),
        _ => panic!("not an int column"),
    }
}

fn to_real_vec(c: &Column) -> Vec<Option<u64>> {
    match c {
        Column::Real(v) => v.clone(),
        _ => panic!("not a real column"),
    }
}

fn to_bytes_vec(c: &Column) -> Vec<Option<Vec<u8>>> {
    match c {
        Column::Bytes(v) => v.clone(),
        _ => panic!("not a bytes column"),
    }
}

fn col_ref(i: usize) -> OrderExpr {
    OrderExpr::ColumnRef(i)
}

#[test]
fn test_top_0() {
    let src_exec = FixedSource::new(
        vec![real_type()],
        vec![BatchExecuteResult {
            physical_columns: vec![Column::Real(vec![None, fbits(7.0), None, None])],
            logical_rows: (0..1).collect(),
            warnings: EvalWarnings::default(),
            is_drained: Ok(DrainState::Drain),
        }],
    );

    let mut exec = BatchTopNExecutor::new_for_test(
        src_exec,
        vec![OrderExpr::Constant(SortValue::Int(1))],
        vec![false],
        0,
    );

    let r = exec.next_batch(1);
    assert_eq!(rows_len(&r), 0);
    assert!(r.is_drained.unwrap().stop());
}

#[test]
fn test_no_row() {
    let src_exec = FixedSource::new(
        vec![int_type()],
        vec![
            BatchExecuteResult {
                physical_columns: vec![Column::Int(vec![Some(5)])],
                logical_rows: Vec::new(),
                warnings: EvalWarnings::default(),
                is_drained: Ok(DrainState::Remain),
            },
            BatchExecuteResult {
                physical_columns: Vec::new(),
                logical_rows: Vec::new(),
                warnings: EvalWarnings::default(),
                is_drained: Ok(DrainState::Drain),
            },
        ],
    );

    let mut exec = BatchTopNExecutor::new_for_test(src_exec, vec![col_ref(0)], vec![false], 10);

    let r = exec.next_batch(1);
    assert_eq!(rows_len(&r), 0);
    assert!(r.is_drained.unwrap().is_remain());

    let r = exec.next_batch(1);
    assert_eq!(rows_len(&r), 0);
    assert!(r.is_drained.unwrap().stop());
}

/// Builds a source that delivers, over three pulls:
///
/// Col0 (Int)      Col1(Int)       Col2(Real)
/// == Pull 1 ==
/// NULL            -1              -1.0
/// NULL            NULL            2.0
/// NULL            1               4.0
/// == Pull 2 == (no rows)
/// == Pull 3 ==
/// -1              NULL            NULL
/// -10             10              3.0
/// -10             NULL            -5.0
/// -10             -10             0.0
/// (drained)
fn make_src_executor() -> FixedSource {
    FixedSource::new(
        vec![int_type(), int_type(), real_type()],
        vec![
            BatchExecuteResult {
                physical_columns: vec![
                    Column::Int(vec![None, None, Some(5), None]),
                    Column::Int(vec![None, Some(1), None, Some(-1)]),
                    Column::Real(vec![fbits(2.0), fbits(4.0), None, fbits(-1.0)]),
                ],
                logical_rows: vec![3, 0, 1],
                warnings: EvalWarnings::default(),
                is_drained: Ok(DrainState::Remain),
            },
            BatchExecuteResult {
                physical_columns: vec![
                    Column::Int(vec![Some(0)]),
                    Column::Int(vec![Some(10)]),
                    Column::Real(vec![fbits(10.0)]),
                ],
                logical_rows: Vec::new(),
                warnings: EvalWarnings::default(),
                is_drained: Ok(DrainState::Remain),
            },
            BatchExecuteResult {
                physical_columns: vec![
                    Column::Int(vec![Some(-10), Some(-1), Some(-10), None, Some(-10), None]),
                    Column::Int(vec![None, None, Some(10), Some(-9), Some(-10), None]),
                    Column::Real(vec![fbits(-5.0), None, fbits(3.0), None, fbits(0.0), fbits(9.9)]),
                ],
                logical_rows: vec![1, 2, 0, 4],
                warnings: EvalWarnings::default(),
                is_drained: Ok(DrainState::Drain),
            },
        ],
    )
}

#[test]
fn test_integration_1() {
    // Order by a single column, fewer rows than the limit.
    let src_exec = make_src_executor();

    let mut exec = BatchTopNExecutor::new_for_test(src_exec, vec![col_ref(2)], vec![false], 100);

    let r = exec.next_batch(1);
    assert!(r.logical_rows.is_empty());
    assert_eq!(rows_len(&r), 0);
    assert!(r.is_drained.unwrap().is_remain());

    let r = exec.next_batch(1);
    assert!(r.logical_rows.is_empty());
    assert_eq!(rows_len(&r), 0);
    assert!(r.is_drained.unwrap().is_remain());

    let r = exec.next_batch(1);
    assert_eq!(&r.logical_rows, &[0, 1, 2, 3, 4, 5, 6]);
    assert_eq!(rows_len(&r), 7);
    assert_eq!(columns_len(&r), 3);
    assert_eq!(
        to_int_vec(&r.physical_columns[0]),
        vec![Some(-1), Some(-10), None, Some(-10), None, Some(-10), None]
    );
    assert_eq!(
        to_int_vec(&r.physical_columns[1]),
        vec![None, None, Some(-1), Some(-10), None, Some(10), Some(1)]
    );
    assert_eq!(
        to_real_vec(&r.physical_columns[2]),
        vec![None, fbits(-5.0), fbits(-1.0), fbits(0.0), fbits(2.0), fbits(3.0), fbits(4.0)]
    );
    assert!(r.is_drained.unwrap().stop());
}

#[test]
fn test_integration_2() {
    // Order by two columns, as many rows as the limit.
    let src_exec = make_src_executor();

    let mut exec = BatchTopNExecutor::new_for_test(
        src_exec,
        vec![col_ref(0), col_ref(1)],
        vec![true, false],
        7,
    );

    let r = exec.next_batch(1);
    assert!(r.logical_rows.is_empty());
    assert_eq!(rows_len(&r), 0);
    assert!(r.is_drained.unwrap().is_remain());

    let r = exec.next_batch(1);
    assert!(r.logical_rows.is_empty());
    assert_eq!(rows_len(&r), 0);
    assert!(r.is_drained.unwrap().is_remain());

    let r = exec.next_batch(1);
    assert_eq!(&r.logical_rows, &[0, 1, 2, 3, 4, 5, 6]);
    assert_eq!(rows_len(&r), 7);
    assert_eq!(columns_len(&r), 3);
    assert_eq!(
        to_int_vec(&r.physical_columns[0]),
        vec![Some(-1), Some(-10), Some(-10), Some(-10), None, None, None]
    );
    assert_eq!(
        to_int_vec(&r.physical_columns[1]),
        vec![None, None, Some(-10), Some(10), None, Some(-1), Some(1)]
    );
    assert_eq!(
        to_real_vec(&r.physical_columns[2]),
        vec![None, fbits(-5.0), fbits(0.0), fbits(3.0), fbits(2.0), fbits(-1.0), fbits(4.0)]
    );
    assert!(r.is_drained.unwrap().stop());
}

#[test]
fn test_integration_3() {
    // Order by three expressions, more rows than the limit.
    let src_exec = make_src_executor();

    let mut exec = BatchTopNExecutor::new_for_test(
        src_exec,
        vec![
            OrderExpr::IsNull(Box::new(col_ref(0))),
            col_ref(0),
            OrderExpr::PlusInt(Box::new(col_ref(1)), Box::new(OrderExpr::Constant(SortValue::Int(1)))),
        ],
        vec![false, false, true],
        5,
    );

    let r = exec.next_batch(1);
    assert!(r.logical_rows.is_empty());
    assert_eq!(rows_len(&r), 0);
    assert!(r.is_drained.unwrap().is_remain());

    let r = exec.next_batch(1);
    assert!(r.logical_rows.is_empty());
    assert_eq!(rows_len(&r), 0);
    assert!(r.is_drained.unwrap().is_remain());

    let r = exec.next_batch(1);
    assert_eq!(&r.logical_rows, &[0, 1, 2, 3, 4]);
    assert_eq!(rows_len(&r), 5);
    assert_eq!(columns_len(&r), 3);
    assert_eq!(
        to_int_vec(&r.physical_columns[0]),
        vec![Some(-10), Some(-10), Some(-10), Some(-1), None]
    );
    assert_eq!(
        to_int_vec(&r.physical_columns[1]),
        vec![Some(10), Some(-10), None, None, Some(1)]
    );
    assert_eq!(
        to_real_vec(&r.physical_columns[2]),
        vec![fbits(3.0), fbits(0.0), fbits(-5.0), None, fbits(4.0)]
    );
    assert!(r.is_drained.unwrap().stop());
}

/// Builds a source that delivers, over three pulls:
///
/// Col0 (Bytes[Utf8Mb4GeneralCi])   Col1(Bytes[Utf8Mb4Bin])   Col2(Bytes[Binary])
/// == Pull 1 ==
/// "aa"                             "aaa"                     "áaA"
/// NULL                             NULL                      "Aa"
/// "aa"                             "aa"                      NULL
/// == Pull 2 == (no rows)
/// == Pull 3 ==
/// "áaA"                            "áa"                      NULL
/// "áa"                             "áaA"                     "aa"
/// "Aa"                             NULL                      "aaa"
/// "aaa"                            "Aa"                      "áa"
/// (drained)
fn make_bytes_src_executor() -> FixedSource {
    FixedSource::new(
        vec![
            bytes_type(CollationId::Utf8Mb4GeneralCi),
            bytes_type(CollationId::Utf8Mb4Bin),
            bytes_type(CollationId::Binary),
        ],
        vec![
            BatchExecuteResult {
                physical_columns: vec![
                    Column::Bytes(vec![bs("aa"), None, bs("aa")]),
                    Column::Bytes(vec![bs("aa"), None, bs("aaa")]),
                    Column::Bytes(vec![None, bs("Aa"), bs("áaA")]),
                ],
                logical_rows: vec![2, 1, 0],
                warnings: EvalWarnings::default(),
                is_drained: Ok(DrainState::Remain),
            },
            BatchExecuteResult {
                physical_columns: Vec::new(),
                logical_rows: Vec::new(),
                warnings: EvalWarnings::default(),
                is_drained: Ok(DrainState::Remain),
            },
            BatchExecuteResult {
                physical_columns: vec![
                    Column::Bytes(vec![bs("áaA"), bs("áa"), bs("Aa"), bs("aaa")]),
                    Column::Bytes(vec![bs("áa"), bs("áaA"), None, bs("Aa")]),
                    Column::Bytes(vec![None, bs("aa"), bs("aaa"), bs("áa")]),
                ],
                logical_rows: vec![0, 1, 2, 3],
                warnings: EvalWarnings::default(),
                is_drained: Ok(DrainState::Drain),
            },
        ],
    )
}

#[test]
fn test_bytes_1() {
    // Order by collated columns, descending first.
    let src_exec = make_bytes_src_executor();

    let mut exec = BatchTopNExecutor::new_for_test(
        src_exec,
        vec![col_ref(0), col_ref(2), col_ref(1)],
        vec![true, true, false],
        5,
    );

    let r = exec.next_batch(1);
    assert!(r.logical_rows.is_empty());
    assert_eq!(rows_len(&r), 0);
    assert!(r.is_drained.unwrap().is_remain());

    let r = exec.next_batch(1);
    assert!(r.logical_rows.is_empty());
    assert_eq!(rows_len(&r), 0);
    assert!(r.is_drained.unwrap().is_remain());

    let r = exec.next_batch(1);
    assert_eq!(&r.logical_rows, &[0, 1, 2, 3, 4]);
    assert_eq!(rows_len(&r), 5);
    assert_eq!(columns_len(&r), 3);
    assert_eq!(
        to_bytes_vec(&r.physical_columns[0]),
        vec![bs("aaa"), bs("áaA"), bs("aa"), bs("Aa"), bs("áa")]
    );
    assert_eq!(
        to_bytes_vec(&r.physical_columns[1]),
        vec![bs("Aa"), bs("áa"), bs("aaa"), None, bs("áaA")]
    );
    assert_eq!(
        to_bytes_vec(&r.physical_columns[2]),
        vec![bs("áa"), None, bs("áaA"), bs("aaa"), bs("aa")]
    );
    assert!(r.is_drained.unwrap().stop());
}

#[test]
fn test_bytes_2() {
    // Order by collated columns, all ascending.
    let src_exec = make_bytes_src_executor();

    let mut exec = BatchTopNExecutor::new_for_test(
        src_exec,
        vec![col_ref(0), col_ref(1), col_ref(2)],
        vec![false, false, false],
        5,
    );

    let r = exec.next_batch(1);
    assert!(r.logical_rows.is_empty());
    assert_eq!(rows_len(&r), 0);
    assert!(r.is_drained.unwrap().is_remain());

    let r = exec.next_batch(1);
    assert!(r.logical_rows.is_empty());
    assert_eq!(rows_len(&r), 0);
    assert!(r.is_drained.unwrap().is_remain());

    let r = exec.next_batch(1);
    assert_eq!(&r.logical_rows, &[0, 1, 2, 3, 4]);
    assert_eq!(rows_len(&r), 5);
    assert_eq!(columns_len(&r), 3);
    assert_eq!(
        to_bytes_vec(&r.physical_columns[0]),
        vec![None, bs("Aa"), bs("aa"), bs("aa"), bs("áa")]
    );
    assert_eq!(
        to_bytes_vec(&r.physical_columns[1]),
        vec![None, None, bs("aa"), bs("aaa"), bs("áaA")]
    );
    assert_eq!(
        to_bytes_vec(&r.physical_columns[2]),
        vec![bs("Aa"), bs("aaa"), None, bs("áaA"), bs("aa")]
    );
    assert!(r.is_drained.unwrap().stop());
}

/// Builds a source that delivers, over three pulls:
///
/// Col0 (Int[Unsigned])           Col1(Int[Signed])            Col2(Int[Unsigned])
/// == Pull 1 ==
/// 18,446,744,073,709,551,615     -3                           4,294,967,293 (as stored: 4,294,967,295)
/// NULL                           NULL                         NULL
/// 18,446,744,073,709,551,613     -1                           4,294,967,295
/// == Pull 2 == (no rows)
/// == Pull 3 ==
/// 2000                           2000                         2000
/// 9,223,372,036,854,775,807      9,223,372,036,854,775,807    2,147,483,647
/// 300                            300                          300
/// 9,223,372,036,854,775,808      -9,223,372,036,854,775,808   2,147,483,648
/// (drained)
fn make_src_executor_unsigned() -> FixedSource {
    FixedSource::new(
        vec![uint_type(), int_type(), uint_type()],
        vec![
            BatchExecuteResult {
                physical_columns: vec![
                    Column::Int(vec![
                        Some(18_446_744_073_709_551_613_u64 as i64),
                        None,
                        Some(18_446_744_073_709_551_615_u64 as i64),
                    ]),
                    Column::Int(vec![Some(-1), None, Some(-3)]),
                    Column::Int(vec![
                        Some(4_294_967_295_u32 as i64),
                        None,
                        Some(4_294_967_295_u32 as i64),
                    ]),
                ],
                logical_rows: vec![2, 1, 0],
                warnings: EvalWarnings::default(),
                is_drained: Ok(DrainState::Remain),
            },
            BatchExecuteResult {
                physical_columns: Vec::new(),
                logical_rows: Vec::new(),
                warnings: EvalWarnings::default(),
                is_drained: Ok(DrainState::Remain),
            },
            BatchExecuteResult {
                physical_columns: vec![
                    Column::Int(vec![
                        Some(300_u64 as i64),
                        Some(9_223_372_036_854_775_807_u64 as i64),
                        Some(2000_u64 as i64),
                        Some(9_223_372_036_854_775_808_u64 as i64),
                    ]),
                    Column::Int(vec![
                        Some(300),
                        Some(9_223_372_036_854_775_807),
                        Some(2000),
                        Some(-9_223_372_036_854_775_808),
                    ]),
                    Column::Int(vec![
                        Some(300_u32 as i64),
                        Some(2_147_483_647_u32 as i64),
                        Some(2000_u32 as i64),
                        Some(2_147_483_648_u32 as i64),
                    ]),
                ],
                logical_rows: vec![2, 1, 0, 3],
                warnings: EvalWarnings::default(),
                is_drained: Ok(DrainState::Drain),
            },
        ],
    )
}

#[test]
fn test_top_unsigned() {
    let test_top5 = |col_index: usize, is_desc: bool, expected: &[Option<i64>]| {
        let src_exec = make_src_executor_unsigned();
        let mut exec =
            BatchTopNExecutor::new_for_test(src_exec, vec![col_ref(col_index)], vec![is_desc], 5);

        let r = exec.next_batch(1);
        assert!(r.logical_rows.is_empty());
        assert_eq!(rows_len(&r), 0);
        assert!(r.is_drained.unwrap().is_remain());

        let r = exec.next_batch(1);
        assert!(r.logical_rows.is_empty());
        assert_eq!(rows_len(&r), 0);
        assert!(r.is_drained.unwrap().is_remain());

        let r = exec.next_batch(1);
        assert_eq!(&r.logical_rows, &[0, 1, 2, 3, 4]);
        assert_eq!(rows_len(&r), 5);
        assert_eq!(columns_len(&r), 3);
        assert_eq!(to_int_vec(&r.physical_columns[col_index]), expected.to_vec());
        assert!(r.is_drained.unwrap().stop());
    };

    test_top5(
        0,
        false,
        &[
            None,
            Some(300_u64 as i64),
            Some(2000_u64 as i64),
            Some(9_223_372_036_854_775_807_u64 as i64),
            Some(9_223_372_036_854_775_808_u64 as i64),
        ],
    );

    test_top5(
        0,
        true,
        &[
            Some(18_446_744_073_709_551_615_u64 as i64),
            Some(18_446_744_073_709_551_613_u64 as i64),
            Some(9_223_372_036_854_775_808_u64 as i64),
            Some(9_223_372_036_854_775_807_u64 as i64),
            Some(2000_u64 as i64),
        ],
    );

    test_top5(
        1,
        false,
        &[None, Some(-9_223_372_036_854_775_808), Some(-3), Some(-1), Some(300)],
    );

    test_top5(
        1,
        true,
        &[
            Some(9_223_372_036_854_775_807),
            Some(2000),
            Some(300),
            Some(-1),
            Some(-3),
        ],
    );

    test_top5(
        2,
        false,
        &[
            None,
            Some(300_u32 as i64),
            Some(2000_u32 as i64),
            Some(2_147_483_647_u32 as i64),
            Some(2_147_483_648_u32 as i64),
        ],
    );

    test_top5(
        2,
        true,
        &[
            Some(4_294_967_295_u32 as i64),
            Some(4_294_967_295_u32 as i64),
            Some(2_147_483_648_u32 as i64),
            Some(2_147_483_647_u32 as i64),
            Some(2000_u32 as i64),
        ],
    );
}

#[test]
fn test_top_paging() {
    // A limit of 5 under a paging size of 6: identical to no paging.
    let test_top5_paging6 = |col_index: usize, is_desc: bool, expected: &[Option<i64>]| {
        let config = Arc::new(EvalConfig { paging_size: Some(6) });
        let src_exec = make_src_executor_unsigned();
        let mut exec = BatchTopNExecutor::new_for_test_with_config(
            config,
            src_exec,
            vec![col_ref(col_index)],
            vec![is_desc],
            5,
        );

        let r = exec.next_batch(1);
        assert!(r.logical_rows.is_empty());
        assert_eq!(rows_len(&r), 0);
        assert!(r.is_drained.unwrap().is_remain());

        let r = exec.next_batch(1);
        assert!(r.logical_rows.is_empty());
        assert_eq!(rows_len(&r), 0);
        assert!(r.is_drained.unwrap().is_remain());

        let r = exec.next_batch(1);
        assert_eq!(&r.logical_rows, &[0, 1, 2, 3, 4]);
        assert_eq!(rows_len(&r), 5);
        assert_eq!(columns_len(&r), 3);
        assert_eq!(to_int_vec(&r.physical_columns[col_index]), expected.to_vec());
        assert!(r.is_drained.unwrap().stop());
    };

    test_top5_paging6(
        0,
        false,
        &[
            None,
            Some(300_u64 as i64),
            Some(2000_u64 as i64),
            Some(9_223_372_036_854_775_807_u64 as i64),
            Some(9_223_372_036_854_775_808_u64 as i64),
        ],
    );

    test_top5_paging6(
        0,
        true,
        &[
            Some(18_446_744_073_709_551_615_u64 as i64),
            Some(18_446_744_073_709_551_613_u64 as i64),
            Some(9_223_372_036_854_775_808_u64 as i64),
            Some(9_223_372_036_854_775_807_u64 as i64),
            Some(2000_u64 as i64),
        ],
    );

    test_top5_paging6(
        1,
        false,
        &[None, Some(-9_223_372_036_854_775_808), Some(-3), Some(-1), Some(300)],
    );

    test_top5_paging6(
        1,
        true,
        &[
            Some(9_223_372_036_854_775_807),
            Some(2000),
            Some(300),
            Some(-1),
            Some(-3),
        ],
    );

    test_top5_paging6(
        2,
        false,
        &[
            None,
            Some(300_u32 as i64),
            Some(2000_u32 as i64),
            Some(2_147_483_647_u32 as i64),
            Some(2_147_483_648_u32 as i64),
        ],
    );

    test_top5_paging6(
        2,
        true,
        &[
            Some(4_294_967_295_u32 as i64),
            Some(4_294_967_295_u32 as i64),
            Some(2_147_483_648_u32 as i64),
            Some(2_147_483_647_u32 as i64),
            Some(2000_u32 as i64),
        ],
    );

    // A limit of 5 over a paging size of 4: a pure pass-through of the
    // source, batch for batch.
    let test_top5_paging4 = |build_src_executor: fn() -> FixedSource| {
        let config = Arc::new(EvalConfig { paging_size: Some(4) });
        let src_exec = build_src_executor();
        let mut exec = BatchTopNExecutor::new_for_test_with_config(
            config,
            src_exec,
            vec![col_ref(0)],
            vec![false],
            5,
        );
        let mut exec2 = build_src_executor();

        loop {
            let r1 = exec.next_batch(1);
            let r2 = exec2.next_batch(1);
            assert_eq!(r1.logical_rows, r2.logical_rows);
            assert_eq!(rows_len(&r1), rows_len(&r2));
            assert_eq!(columns_len(&r1), columns_len(&r2));
            let r1_is_drained = r1.is_drained.unwrap();
            assert_eq!(r1_is_drained, r2.is_drained.unwrap());
            if r1_is_drained.stop() {
                break;
            }
        }
    };

    test_top5_paging4(make_src_executor_unsigned);
    test_top5_paging4(make_src_executor);
    test_top5_paging4(make_bytes_src_executor);
}
