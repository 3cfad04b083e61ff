use std::collections::{HashMap, HashSet};

use sql_planner::error::{ErrorCode, ErrorKind};
use sql_planner::property::{
    Cardinality, Distribution, PhysicalProperty, RelOp, RelationalProperty, RequiredProperty,
    Statistics,
};
use sql_planner::scalar::{ScalarExpr, ScalarItem};
use sql_planner::window::{Window, WindowFuncFrame, WindowFuncType};

fn partitioned(columns: &[usize]) -> Window {
    Window {
        index: 9,
        function: WindowFuncType::RowNumber,
        partition_by: columns
            .iter()
            .map(|index| ScalarItem {
                scalar: ScalarExpr { id: 0, column_refs: vec![*index], is_subquery: false },
                index: *index,
            })
            .collect(),
        order_by: vec![],
        frame: WindowFuncFrame::default(),
    }
}

fn input(stats: &[(usize, f64)]) -> RelationalProperty<f64, f64> {
    RelationalProperty {
        output_columns: HashSet::from([1, 2]),
        outer_columns: HashSet::from([9, 40]),
        used_columns: HashSet::from([1, 2, 3]),
        cardinality: 100.0,
        statistics: Statistics {
            precise_cardinality: Some(100),
            column_stats: HashMap::from_iter(stats.iter().copied()),
            is_accurate: true,
        },
    }
}

fn failure() -> ErrorCode {
    ErrorCode::new(ErrorKind::Other(1001), "no such group")
}

#[test]
fn properties_follow_from_the_input() {
    let derived = partitioned(&[1]).derive_relational_prop(Ok(input(&[(1, 5.0)]))).unwrap();
    assert_eq!(derived.output_columns, HashSet::from([9]));
    assert_eq!(derived.outer_columns, HashSet::from([40]));
    assert_eq!(derived.used_columns, HashSet::from([9, 1, 2, 3]));
    assert_eq!(derived.statistics.precise_cardinality, None);
    assert_eq!(derived.statistics.column_stats, HashMap::from([(1, 5.0)]));
    assert!(derived.statistics.is_accurate);
}

#[test]
fn no_partition_means_one_row() {
    let derived = partitioned(&[]).derive_relational_prop(Ok(input(&[]))).unwrap();
    assert_eq!(derived.cardinality, Cardinality::One);
    assert_eq!(derived.statistics.precise_cardinality, Some(1));
}

#[test]
fn unknown_partition_columns_mean_the_input() {
    let derived = partitioned(&[1, 2]).derive_relational_prop(Ok(input(&[(1, 5.0)]))).unwrap();
    assert_eq!(derived.cardinality, Cardinality::Input(100.0));
}

#[test]
fn known_partition_columns_are_combined() {
    let derived =
        partitioned(&[2, 1]).derive_relational_prop(Ok(input(&[(1, 5.0), (2, 3.0)]))).unwrap();
    match derived.cardinality {
        Cardinality::DistinctCombinations { columns, input } => {
            assert_eq!(columns, vec![2, 1]);
            assert_eq!(input, 100.0);
            assert!(columns.iter().all(|c| derived.statistics.column_stats.contains_key(c)));
        }
        other => panic!("{:?}", other),
    }
}

#[test]
fn errors_of_the_input_are_passed_on() {
    let window = partitioned(&[]);
    let input: Result<RelationalProperty<f64, f64>, ErrorCode> = Err(failure());
    assert_eq!(window.derive_relational_prop(input).unwrap_err(), failure());
    assert_eq!(window.derive_physical_prop(Err(failure())), Err(failure()));
}

#[test]
fn windows_provide_what_the_input_provides() {
    let provided = PhysicalProperty { distribution: Distribution::Random };
    assert_eq!(partitioned(&[]).derive_physical_prop(Ok(provided.clone())), Ok(provided));
}

#[test]
fn windows_need_their_input_on_one_node() {
    for distribution in [Distribution::Any, Distribution::Broadcast, Distribution::Hash(vec![])] {
        let required = RequiredProperty { distribution };
        assert_eq!(
            partitioned(&[]).compute_required_prop_child(0, &required),
            Ok(RequiredProperty { distribution: Distribution::Serial })
        );
    }
    assert_eq!(partitioned(&[]).rel_op(), RelOp::Window);
}
