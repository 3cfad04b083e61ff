use std::cmp::Ordering;
use std::collections::HashSet;

use sql_planner::error::ErrorKind;
use sql_planner::scalar::{
    AggregateFunction, DataType, NumberDataType, ScalarExpr, ScalarItem,
};
use sql_planner::window::{
    Window, WindowFuncFrame, WindowFuncFrameBound, WindowFuncFrameUnits, WindowFuncType,
    WindowOrderByInfo,
};

fn scalar(id: u64, columns: &[usize]) -> ScalarExpr {
    ScalarExpr { id, column_refs: columns.to_vec(), is_subquery: false }
}

fn item(id: u64, index: usize, columns: &[usize]) -> ScalarItem {
    ScalarItem { scalar: scalar(id, columns), index }
}

fn sum(args: Vec<ScalarExpr>) -> WindowFuncType {
    WindowFuncType::Aggregate(AggregateFunction {
        func_name: "sum".to_string(),
        args,
        return_type: Box::new(DataType::Other("Decimal(38, 2)".to_string())),
    })
}

fn set(columns: &[usize]) -> HashSet<usize> {
    columns.iter().copied().collect()
}

#[test]
fn bounds_have_positions() {
    assert_eq!(WindowFuncFrameBound::CurrentRow.to_number(), 0);
    assert_eq!(WindowFuncFrameBound::Preceding(Some(3)).to_number(), -3);
    assert_eq!(WindowFuncFrameBound::Following(Some(3)).to_number(), 3);
    assert_eq!(WindowFuncFrameBound::Preceding(None).to_number(), i64::MIN);
    assert_eq!(WindowFuncFrameBound::Following(None).to_number(), i64::MAX);
}

#[test]
fn large_offsets_are_taken_by_their_bits() {
    let top = i64::MAX as usize;
    assert_eq!(WindowFuncFrameBound::Following(Some(top)).to_number(), i64::MAX);
    assert_eq!(WindowFuncFrameBound::Preceding(Some(top)).to_number(), -i64::MAX);
    assert_eq!(WindowFuncFrameBound::Following(Some(usize::MAX)).to_number(), -1);
    assert_eq!(WindowFuncFrameBound::Preceding(Some(usize::MAX)).to_number(), 1);
    assert_eq!(WindowFuncFrameBound::Following(Some(top + 1)).to_number(), i64::MIN);
    // The offset that cannot be negated has no number, but compares as the lowest one.
    let lowest = WindowFuncFrameBound::Preceding(Some(top + 1));
    assert_eq!(
        lowest.partial_cmp(&WindowFuncFrameBound::Preceding(None)),
        Some(Ordering::Equal)
    );
    assert!(lowest < WindowFuncFrameBound::Preceding(Some(top)));
}

#[test]
fn bounds_compare_by_position() {
    let bounds = [
        WindowFuncFrameBound::Preceding(None),
        WindowFuncFrameBound::Preceding(Some(2)),
        WindowFuncFrameBound::Preceding(Some(1)),
        WindowFuncFrameBound::CurrentRow,
        WindowFuncFrameBound::Following(Some(1)),
        WindowFuncFrameBound::Following(Some(2)),
        WindowFuncFrameBound::Following(None),
    ];
    for i in 0..bounds.len() {
        for j in 0..bounds.len() {
            assert_eq!(bounds[i].partial_cmp(&bounds[j]), Some(i.cmp(&j)));
        }
    }
    assert!(bounds[1] < bounds[2] && bounds[2] < bounds[3] && bounds[1] < bounds[3]);
}

#[test]
fn bounds_at_one_position_compare_as_equal() {
    let current = WindowFuncFrameBound::CurrentRow;
    let none_before = WindowFuncFrameBound::Preceding(Some(0));
    let none_after = WindowFuncFrameBound::Following(Some(0));
    assert_eq!(current.partial_cmp(&none_before), Some(Ordering::Equal));
    assert_eq!(none_before.partial_cmp(&none_after), Some(Ordering::Equal));
    assert_ne!(current, none_before);
    assert_ne!(none_before, none_after);
}

#[test]
fn frames_have_defaults() {
    assert_eq!(WindowFuncFrameUnits::default(), WindowFuncFrameUnits::Rows);
    assert_eq!(WindowFuncFrameBound::default(), WindowFuncFrameBound::CurrentRow);
    assert_eq!(
        WindowFuncFrame::default(),
        WindowFuncFrame {
            units: WindowFuncFrameUnits::Rows,
            start_bound: WindowFuncFrameBound::CurrentRow,
            end_bound: WindowFuncFrameBound::CurrentRow,
        }
    );
}

#[test]
fn frames_are_shown() {
    assert_eq!(WindowFuncFrame::default().to_string(), "Rows: CurrentRow ~ CurrentRow");
    let frames = [
        (WindowFuncFrameBound::Preceding(None), WindowFuncFrameBound::Following(Some(120))),
        (WindowFuncFrameBound::Preceding(Some(0)), WindowFuncFrameBound::Following(None)),
        (WindowFuncFrameBound::Preceding(Some(9)), WindowFuncFrameBound::Following(Some(10))),
        (WindowFuncFrameBound::Preceding(Some(usize::MAX)), WindowFuncFrameBound::CurrentRow),
    ];
    for (start_bound, end_bound) in frames {
        for units in [WindowFuncFrameUnits::Rows, WindowFuncFrameUnits::Range] {
            let frame = WindowFuncFrame { units, start_bound, end_bound };
            assert_eq!(
                frame.to_string(),
                format!("{:?}: {:?} ~ {:?}", frame.units, frame.start_bound, frame.end_bound)
            );
        }
    }
    let frame = WindowFuncFrame {
        units: WindowFuncFrameUnits::Range,
        start_bound: WindowFuncFrameBound::Preceding(None),
        end_bound: WindowFuncFrameBound::Following(Some(120)),
    };
    assert_eq!(frame.to_string(), "Range: Preceding(None) ~ Following(Some(120))");
}

#[test]
fn general_functions_are_found_by_name() {
    assert_eq!(WindowFuncType::from_name("row_number"), Ok(WindowFuncType::RowNumber));
    assert_eq!(WindowFuncType::from_name("rank"), Ok(WindowFuncType::Rank));
    assert_eq!(WindowFuncType::from_name("dense_rank"), Ok(WindowFuncType::DenseRank));
    for name in ["row_number", "rank", "dense_rank"] {
        let function = WindowFuncType::from_name(name).unwrap();
        assert_eq!(function.func_name(), name);
    }
}

#[test]
fn other_functions_are_not_found() {
    for name in ["sum", "RANK", "rank ", ""] {
        let error = WindowFuncType::from_name(name).unwrap_err();
        assert_eq!(error.kind, ErrorKind::UnknownFunction);
        assert_eq!(error.message, format!("Unknown window function: {}", name));
    }
}

#[test]
fn aggregates_have_their_own_name_and_type() {
    let function = sum(vec![scalar(1, &[4, 5, 4]), scalar(2, &[7])]);
    assert_eq!(function.func_name(), "sum");
    assert_eq!(function.return_type(), DataType::Other("Decimal(38, 2)".to_string()));
    assert_eq!(function.used_columns(), set(&[4, 5, 7]));
}

#[test]
fn general_functions_return_numbers_and_use_no_columns() {
    for function in
        [WindowFuncType::RowNumber, WindowFuncType::Rank, WindowFuncType::DenseRank]
    {
        assert_eq!(function.return_type(), DataType::Number(NumberDataType::UInt64));
        assert_eq!(function.used_columns(), set(&[]));
    }
}

#[test]
fn windows_use_result_arguments_and_keys() {
    let window = Window {
        index: 10,
        function: sum(vec![scalar(1, &[4, 5])]),
        partition_by: vec![item(2, 20, &[6]), item(3, 21, &[])],
        order_by: vec![WindowOrderByInfo { order_by_item: item(4, 30, &[5, 7]) }],
        frame: WindowFuncFrame::default(),
    };
    assert_eq!(window.used_columns(), Ok(set(&[10, 4, 5, 20, 6, 21, 30, 7])));

    let bare = Window {
        index: 3,
        function: WindowFuncType::Rank,
        partition_by: vec![],
        order_by: vec![],
        frame: WindowFuncFrame::default(),
    };
    assert_eq!(bare.used_columns(), Ok(set(&[3])));
}
