use std::collections::{HashMap, HashSet};

use sql_planner::error::{ErrorCode, ErrorKind};
use sql_planner::matched::{
    bind_matched_clause, ColumnTarget, MatchedBinding, MatchedEvaluator, MatchedRequest,
};
use sql_planner::scalar::{DataType, NumberDataType, ScalarExpr};
use sql_planner::schema::{find_column_index, ColumnEntry, TableField, TableSchema};
use sql_planner::statement::{
    has_update, InsertOperation, MatchOperation, MatchedClause, MergeUpdateExpr, NodeId,
    UnmatchedClause,
};
use sql_planner::unmatched::{
    bind_unmatched_clause, UnmatchedBinding, UnmatchedEvaluator, UnmatchedRequest,
};

fn scalar(id: u64, columns: &[usize]) -> ScalarExpr {
    ScalarExpr { id, column_refs: columns.to_vec(), is_subquery: false }
}

fn field(name: &str, column_id: u32) -> TableField {
    TableField {
        name: name.to_string(),
        data_type: DataType::Number(NumberDataType::Int32),
        default_expr: None,
        computed_expr: None,
        column_id,
    }
}

fn schema(names: &[&str]) -> TableSchema {
    TableSchema {
        fields: names.iter().enumerate().map(|(i, name)| field(name, i as u32)).collect(),
        metadata: vec![],
        next_column_id: names.len() as u32,
    }
}

fn target(name: &str, index: usize) -> Result<ColumnTarget, ErrorCode> {
    Ok(ColumnTarget { name: name.to_string(), index })
}

fn failure() -> ErrorCode {
    ErrorCode::new(ErrorKind::Other(1065), "unknown column")
}

fn update(selection: Option<u64>, assignments: &[(u64, u64)]) -> MatchedClause {
    MatchedClause {
        selection: selection.map(NodeId),
        operation: MatchOperation::Update {
            update_list: assignments
                .iter()
                .map(|(name, expr)| MergeUpdateExpr { name: NodeId(*name), expr: NodeId(*expr) })
                .collect(),
        },
    }
}

fn delete(selection: Option<u64>) -> MatchedClause {
    MatchedClause { selection: selection.map(NodeId), operation: MatchOperation::Delete }
}

fn insert(selection: Option<u64>, columns: Option<&[u64]>, values: &[u64]) -> UnmatchedClause {
    UnmatchedClause {
        selection: selection.map(NodeId),
        insert_operation: InsertOperation {
            columns: columns.map(|c| c.iter().copied().map(NodeId).collect()),
            values: values.iter().copied().map(NodeId).collect(),
        },
    }
}

fn matched_evaluator(binding: MatchedBinding) -> MatchedEvaluator {
    match binding {
        MatchedBinding::Bound(evaluator) => evaluator,
        other => panic!("{:?}", other),
    }
}

fn unmatched_evaluator(binding: UnmatchedBinding) -> UnmatchedEvaluator {
    match binding {
        UnmatchedBinding::Bound(evaluator) => evaluator,
        other => panic!("{:?}", other),
    }
}

#[test]
fn updates_are_noticed() {
    assert!(!has_update(&vec![]));
    assert!(!has_update(&vec![delete(None), delete(Some(1))]));
    assert!(has_update(&vec![delete(Some(1)), update(None, &[])]));
}

#[test]
fn the_first_column_with_a_name_is_found() {
    let entries = vec![
        ColumnEntry { name: "a".to_string(), index: 7 },
        ColumnEntry { name: "b".to_string(), index: 8 },
        ColumnEntry { name: "b".to_string(), index: 9 },
    ];
    assert_eq!(find_column_index(&entries, "a"), Ok(7));
    assert_eq!(find_column_index(&entries, "b"), Ok(8));
    let error = find_column_index(&entries, "B").unwrap_err();
    assert_eq!(error.kind, ErrorKind::BadArguments);
    assert_eq!(error.message, "not found col name: B");
    assert!(find_column_index(&vec![], "a").is_err());
}

#[test]
fn schemas_agree_in_everything_or_not() {
    let table = schema(&["a", "b"]);
    assert!(table.same_as(&table));
    assert!(table.same_as(&table.clone()));
    assert!(!table.same_as(&schema(&["b", "a"])));
    assert!(!table.same_as(&schema(&["a"])));
    assert!(!TableSchema::empty().same_as(&table));

    let mut other = table.clone();
    other.next_column_id = 5;
    assert!(!table.same_as(&other) && !other.same_as(&table));
    let mut other = table.clone();
    other.metadata.push(("k".to_string(), "v".to_string()));
    assert!(!table.same_as(&other));
    let mut changed = other.clone();
    assert!(changed.same_as(&other));
    changed.metadata[0].1 = "w".to_string();
    assert!(!changed.same_as(&other));
    let mut other = table.clone();
    other.fields[1].data_type = DataType::Other("String".to_string());
    assert!(!table.same_as(&other));
    let mut other = table.clone();
    other.fields[1].default_expr = Some("0".to_string());
    assert!(!table.same_as(&other));
    let mut other = table.clone();
    other.fields[0].computed_expr = Some("b + 1".to_string());
    assert!(!table.same_as(&other));
    assert!(other.has_computed_field() && !table.has_computed_field());
    let mut other = table.clone();
    other.fields[0].column_id = 9;
    assert!(!table.same_as(&other));
}

#[test]
fn deletes_need_at_most_a_condition() {
    let clause = delete(None);
    let evaluator = matched_evaluator(bind_matched_clause(&clause));
    assert_eq!(evaluator.condition, None);
    assert_eq!(evaluator.update, None);

    let clause = delete(Some(3));
    let binding = bind_matched_clause(&clause);
    assert_eq!(binding.request(&clause), MatchedRequest::Scalar(NodeId(3)));
    let mut columns = HashSet::from([1]);
    let binding = binding.on_scalar(&clause, Ok(scalar(30, &[2, 4])), &mut columns).unwrap();
    assert_eq!(columns, HashSet::from([1, 2, 4]));
    assert_eq!(binding.request(&clause), MatchedRequest::Nothing);
    let evaluator = matched_evaluator(binding);
    assert_eq!(evaluator.condition, Some(scalar(30, &[2, 4])));
    assert_eq!(evaluator.update, None);
}

#[test]
fn updates_bind_to_all_their_assignments() {
    let table = schema(&["a", "b", "c"]);
    let clause = update(Some(3), &[(10, 11), (20, 21)]);
    let mut columns = HashSet::new();
    let binding = bind_matched_clause(&clause);
    let binding = binding.on_scalar(&clause, Ok(scalar(30, &[5])), &mut columns).unwrap();
    assert_eq!(binding.request(&clause), MatchedRequest::Scalar(NodeId(11)));
    let binding = binding.on_scalar(&clause, Ok(scalar(110, &[6])), &mut columns).unwrap();
    assert_eq!(binding.request(&clause), MatchedRequest::Column(NodeId(10)));
    let binding = binding.on_column(&clause, &table, target("c", 2)).unwrap();
    assert_eq!(binding.request(&clause), MatchedRequest::Scalar(NodeId(21)));
    let binding = binding.on_scalar(&clause, Ok(scalar(210, &[7])), &mut columns).unwrap();
    let binding = binding.on_column(&clause, &table, target("a", 0)).unwrap();
    let evaluator = matched_evaluator(binding);
    assert_eq!(evaluator.condition, Some(scalar(30, &[5])));
    assert_eq!(
        evaluator.update,
        Some(HashMap::from([(2, scalar(110, &[6])), (0, scalar(210, &[7]))]))
    );
    // The columns of the assigned values do not count.
    assert_eq!(columns, HashSet::from([5]));
}

#[test]
fn updates_without_assignments_are_bound_at_once() {
    let evaluator = matched_evaluator(bind_matched_clause(&update(None, &[])));
    assert_eq!(evaluator.update, Some(HashMap::new()));
}

#[test]
fn second_assignments_are_refused() {
    let table = schema(&["a", "b"]);
    let clause = update(None, &[(10, 11), (20, 21)]);
    let mut columns = HashSet::new();
    let binding = bind_matched_clause(&clause)
        .on_scalar(&clause, Ok(scalar(1, &[])), &mut columns)
        .unwrap()
        .on_column(&clause, &table, target("b", 1))
        .unwrap()
        .on_scalar(&clause, Ok(ScalarExpr { is_subquery: true, ..scalar(2, &[]) }), &mut columns)
        .unwrap();
    let error = binding.on_column(&clause, &table, target("b", 1)).unwrap_err();
    assert_eq!(error.kind, ErrorKind::BadArguments);
    assert_eq!(error.message, "Multiple assignments in the single statement to column `b`");
}

#[test]
fn computed_columns_are_refused() {
    let mut table = schema(&["a", "b"]);
    table.fields[1].computed_expr = Some("a + 1".to_string());
    let clause = update(None, &[(10, 11)]);
    let mut columns = HashSet::new();
    let error = bind_matched_clause(&clause)
        .on_scalar(&clause, Ok(ScalarExpr { is_subquery: true, ..scalar(2, &[]) }), &mut columns)
        .unwrap()
        .on_column(&clause, &table, target("B", 1))
        .unwrap_err();
    assert_eq!(error.kind, ErrorKind::BadArguments);
    assert_eq!(error.message, "The value specified for computed column 'b' is not allowed");
}

#[test]
fn assigned_subqueries_are_refused() {
    let table = schema(&["a"]);
    let clause = update(None, &[(10, 11)]);
    let mut columns = HashSet::new();
    let error = bind_matched_clause(&clause)
        .on_scalar(&clause, Ok(ScalarExpr { is_subquery: true, ..scalar(2, &[]) }), &mut columns)
        .unwrap()
        .on_column(&clause, &table, target("a", 0))
        .unwrap_err();
    assert_eq!(error.kind, ErrorKind::Internal);
    assert_eq!(
        error.message,
        "update_list in update clause does not support subquery temporarily"
    );
}

#[test]
fn failed_replies_end_a_matched_clause() {
    let table = schema(&["a"]);
    let clause = update(Some(3), &[(10, 11)]);
    let mut columns = HashSet::from([1]);
    let error =
        bind_matched_clause(&clause).on_scalar(&clause, Err(failure()), &mut columns).unwrap_err();
    assert_eq!(error, failure());
    assert_eq!(columns, HashSet::from([1]));

    let clause = update(None, &[(10, 11)]);
    let error = bind_matched_clause(&clause)
        .on_scalar(&clause, Ok(scalar(2, &[])), &mut columns)
        .unwrap()
        .on_column(&clause, &table, Err(failure()))
        .unwrap_err();
    assert_eq!(error, failure());
}

#[test]
fn inserts_bind_to_all_their_cast_values() {
    let mut table = schema(&["a", "b"]);
    table.fields[1].data_type = DataType::Other("String".to_string());
    let clause = insert(Some(3), None, &[11, 12]);
    let mut columns = HashSet::new();
    let binding = bind_unmatched_clause(&clause, &table).unwrap();
    assert_eq!(binding.request(&clause), UnmatchedRequest::Scalar(NodeId(3)));
    let binding = binding.on_scalar(&clause, &table, Ok(scalar(30, &[4])), &mut columns).unwrap();
    assert_eq!(binding.request(&clause), UnmatchedRequest::Scalar(NodeId(11)));
    let binding = binding.on_scalar(&clause, &table, Ok(scalar(110, &[5])), &mut columns).unwrap();
    assert_eq!(columns, HashSet::from([4]));
    assert_eq!(binding.request(&clause), UnmatchedRequest::Type(&scalar(110, &[5])));
    let uint8 = DataType::Number(NumberDataType::UInt8);
    let binding = binding.on_type(&clause, Ok(uint8.clone())).unwrap();
    assert_eq!(
        binding.request(&clause),
        UnmatchedRequest::Cast {
            scalar: &scalar(110, &[5]),
            from: &uint8,
            to: &DataType::Number(NumberDataType::Int32),
        }
    );
    let binding = binding.on_cast(&clause, Ok(scalar(111, &[5])), &mut columns).unwrap();
    let binding = binding
        .on_scalar(&clause, &table, Ok(scalar(120, &[6])), &mut columns)
        .unwrap()
        .on_type(&clause, Ok(uint8.clone()))
        .unwrap();
    assert_eq!(
        binding.request(&clause),
        UnmatchedRequest::Cast {
            scalar: &scalar(120, &[6]),
            from: &uint8,
            to: &DataType::Other("String".to_string()),
        }
    );
    let binding = binding.on_cast(&clause, Ok(scalar(121, &[6, 7])), &mut columns).unwrap();
    assert_eq!(binding.request(&clause), UnmatchedRequest::Nothing);
    let evaluator = unmatched_evaluator(binding);
    assert_eq!(evaluator.condition, Some(scalar(30, &[4])));
    assert_eq!(evaluator.values, vec![scalar(111, &[5]), scalar(121, &[6, 7])]);
    assert_eq!(evaluator.source_schema, table);
    assert_eq!(columns, HashSet::from([4, 5, 6, 7]));
}

#[test]
fn listed_columns_have_to_be_those_of_the_table() {
    let table = schema(&["a", "b"]);
    let names = vec![NodeId(7), NodeId(8)];
    let clause = insert(None, Some(&[7, 8]), &[11]);
    let binding = bind_unmatched_clause(&clause, &table).unwrap();
    assert_eq!(binding.request(&clause), UnmatchedRequest::Schema(&names));
    let binding = binding.on_schema(&clause, &table, Ok(schema(&["a", "b"]))).unwrap();
    assert_eq!(binding.request(&clause), UnmatchedRequest::Scalar(NodeId(11)));

    let error = bind_unmatched_clause(&clause, &table)
        .unwrap()
        .on_schema(&clause, &table, Ok(schema(&["a"])))
        .unwrap_err();
    assert_eq!(error.kind, ErrorKind::BadArguments);
    assert_eq!(
        error.message,
        "for now, we need to make sure the input schema same with table schema"
    );
    let error = bind_unmatched_clause(&clause, &table)
        .unwrap()
        .on_schema(&clause, &table, Err(failure()))
        .unwrap_err();
    assert_eq!(error, failure());
}

#[test]
fn inserts_need_values() {
    let table = schema(&["a"]);
    let message = "Values lists must have at least one row";
    let error = bind_unmatched_clause(&insert(None, None, &[]), &table).unwrap_err();
    assert_eq!(error.kind, ErrorKind::SemanticError);
    assert_eq!(error.message, message);

    // With a condition, the condition comes first.
    let clause = insert(Some(3), Some(&[7]), &[]);
    let mut columns = HashSet::new();
    let error = bind_unmatched_clause(&clause, &table)
        .unwrap()
        .on_scalar(&clause, &table, Ok(scalar(30, &[4])), &mut columns)
        .unwrap_err();
    assert_eq!(error.message, message);
    assert_eq!(columns, HashSet::from([4]));
}

#[test]
fn failed_replies_end_an_unmatched_clause() {
    let table = schema(&["a"]);
    let clause = insert(None, None, &[11]);
    let mut columns = HashSet::new();
    let start = || bind_unmatched_clause(&clause, &table).unwrap();
    let error = start().on_scalar(&clause, &table, Err(failure()), &mut columns).unwrap_err();
    assert_eq!(error, failure());
    let value = scalar(1, &[3]);
    let typed = start().on_scalar(&clause, &table, Ok(value.clone()), &mut columns).unwrap();
    assert_eq!(typed.on_type(&clause, Err(failure())).unwrap_err(), failure());
    let cast = start()
        .on_scalar(&clause, &table, Ok(value), &mut columns)
        .unwrap()
        .on_type(&clause, Ok(DataType::Number(NumberDataType::Int8)))
        .unwrap();
    assert_eq!(cast.on_cast(&clause, Err(failure()), &mut columns).unwrap_err(), failure());
    assert_eq!(columns, HashSet::new());
}
