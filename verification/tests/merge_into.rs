use std::collections::{HashMap, HashSet};

use sql_planner::error::{ErrorCode, ErrorKind};
use sql_planner::matched::ColumnTarget;
use sql_planner::merge_into::{
    bind_merge_into, InternalColumnType, Join, JoinOperator, MergeInto, MergeIntoBinder, Reply,
    Request, Table, TableReference,
};
use sql_planner::scalar::{DataType, NumberDataType, ScalarExpr};
use sql_planner::schema::{ColumnEntry, TableField, TableSchema};
use sql_planner::statement::{
    InsertOperation, MatchOperation, MatchedClause, MergeIntoStmt, MergeUpdateExpr, NodeId,
    UnmatchedClause,
};

const TARGET: TableReference = TableReference {
    catalog: None,
    database: Some(NodeId(1)),
    table: NodeId(2),
    alias: Some(NodeId(3)),
};

fn stmt() -> MergeIntoStmt {
    MergeIntoStmt {
        catalog: None,
        database: Some(NodeId(1)),
        table_ident: NodeId(2),
        source: NodeId(4),
        alias_target: Some(NodeId(3)),
        join_expr: NodeId(5),
        merge_options: vec![NodeId(6), NodeId(7)],
    }
}

fn scalar(id: u64, columns: &[usize]) -> ScalarExpr {
    ScalarExpr { id, column_refs: columns.to_vec(), is_subquery: false }
}

fn schema(names: &[&str]) -> TableSchema {
    TableSchema {
        fields: names
            .iter()
            .enumerate()
            .map(|(i, name)| TableField {
                name: name.to_string(),
                data_type: DataType::Number(NumberDataType::Int64),
                default_expr: None,
                computed_expr: None,
                column_id: i as u32,
            })
            .collect(),
        metadata: vec![],
        next_column_id: names.len() as u32,
    }
}

fn entry(name: &str, index: usize) -> ColumnEntry {
    ColumnEntry { name: name.to_string(), index }
}

fn failure() -> ErrorCode {
    ErrorCode::new(ErrorKind::Other(1025), "unknown table")
}

fn update() -> MatchedClause {
    MatchedClause {
        selection: Some(NodeId(10)),
        operation: MatchOperation::Update {
            update_list: vec![MergeUpdateExpr { name: NodeId(11), expr: NodeId(12) }],
        },
    }
}

fn delete() -> MatchedClause {
    MatchedClause { selection: None, operation: MatchOperation::Delete }
}

fn insert() -> UnmatchedClause {
    UnmatchedClause {
        selection: Some(NodeId(20)),
        insert_operation: InsertOperation {
            columns: Some(vec![NodeId(21), NodeId(22)]),
            values: vec![NodeId(23), NodeId(24)],
        },
    }
}

fn next(binder: MergeIntoBinder, reply: Reply) -> MergeIntoBinder {
    assert!(binder.accepts(&reply));
    binder.resume(reply).unwrap()
}

/// The replies that lead up to the clauses.
fn prologue(matched: Vec<MatchedClause>, unmatched: Vec<UnmatchedClause>) -> Vec<Reply> {
    vec![
        Reply::Clauses { matched, unmatched },
        Reply::Checked(Ok(())),
        Reply::Checked(Ok(())),
        Reply::TableName {
            catalog: "default".to_string(),
            database: "db".to_string(),
            table: "t".to_string(),
        },
        Reply::Table(Ok(Table { id: 77, schema: schema(&["a", "b"]) })),
        Reply::Source(Ok(HashSet::from([0, 1]))),
        Reply::Bound(Ok(())),
        Reply::TableIndex(3),
        Reply::InternalColumn(Ok(9)),
        Reply::Attached,
        Reply::Bound(Ok(())),
        Reply::Scalar(Ok(scalar(50, &[0, 5]))),
        Reply::Columns(vec![entry("a", 5), entry("b", 16), entry("_row_id", 9)]),
    ]
}

fn bind(replies: Vec<Reply>) -> MergeIntoBinder {
    let mut binder = bind_merge_into(stmt(), Ok(true)).unwrap();
    for reply in replies {
        binder = next(binder, reply);
    }
    binder
}

fn plan(binder: MergeIntoBinder) -> MergeInto {
    assert!(binder.is_finished());
    binder.finish()
}

/// The error when the reply at a place is replaced.
fn error_at(place: usize, reply: Reply) -> ErrorCode {
    let mut replies = prologue(vec![update()], vec![]);
    replies.truncate(place);
    let binder = bind(replies);
    assert!(binder.accepts(&reply));
    binder.resume(reply).unwrap_err()
}

#[test]
fn the_setting_has_to_be_on() {
    for enabled in [Ok(false), Err(failure())] {
        for options in [vec![], vec![NodeId(6)]] {
            let stmt = MergeIntoStmt { merge_options: options, ..stmt() };
            let error = bind_merge_into(stmt, enabled.clone()).unwrap_err();
            assert_eq!(error.kind, ErrorKind::Unimplemented);
            assert_eq!(
                error.message,
                "merge into is unstable for now, you can use 'set enable_experimental_merge_into = 1' to set up it"
            );
        }
    }
}

#[test]
fn a_statement_needs_clauses() {
    let stmt = MergeIntoStmt { merge_options: vec![], ..stmt() };
    let error = bind_merge_into(stmt, Ok(true)).unwrap_err();
    assert_eq!(error.kind, ErrorKind::BadArguments);
    assert_eq!(error.message, "at least one matched or unmatched clause for merge into");
}

#[test]
fn requests_come_in_order() {
    let mut binder = bind_merge_into(stmt(), Ok(true)).unwrap();
    let options = vec![NodeId(6), NodeId(7)];
    let (matched, unmatched) = (vec![update()], vec![insert()]);
    let (catalog, database, table) = ("default".to_string(), "db".to_string(), "t".to_string());
    let expected = vec![
        Request::SplitClauses(&options),
        Request::CheckMatchedClauses(&matched),
        Request::CheckUnmatchedClauses(&unmatched),
        Request::NormalizeTableName {
            catalog_ident: None,
            database_ident: Some(NodeId(1)),
            table_ident: NodeId(2),
        },
        Request::GetTable { catalog: &catalog, database: &database, table: &table },
        Request::BindSource(NodeId(4)),
        Request::BindTarget(TARGET),
        Request::FindTableIndex { database: &database, table: &table },
        Request::AddInternalColumn {
            database: &database,
            table: &table,
            internal_column: InternalColumnType::RowId,
        },
        Request::AttachRowId { table_index: 3, column: 9 },
        Request::BindJoin(Join {
            op: JoinOperator::LeftOuter,
            condition: NodeId(5),
            left: NodeId(4),
            right: TARGET,
        }),
        Request::BindScalar(NodeId(5)),
        Request::ListColumns(3),
    ];
    let replies = prologue(vec![update()], vec![insert()]);
    assert_eq!(replies.len(), expected.len());
    for (request, reply) in expected.into_iter().zip(replies) {
        assert_eq!(binder.request(), request);
        assert!(!binder.is_finished());
        binder = next(binder, reply);
    }
    assert_eq!(binder.request(), Request::BindScalar(NodeId(10)));
}

#[test]
fn a_statement_is_bound_to_the_end() {
    let mut binder = bind(prologue(vec![update(), delete()], vec![insert()]));
    let names = vec![NodeId(21), NodeId(22)];
    let int8 = DataType::Number(NumberDataType::Int8);
    let int64 = DataType::Number(NumberDataType::Int64);
    let (first, second) = (scalar(230, &[30]), scalar(240, &[]));
    let cast = |scalar| Request::Cast { scalar, from: &int8, to: &int64 };
    let script = vec![
        (Request::BindScalar(NodeId(10)), Reply::Scalar(Ok(scalar(100, &[21])))),
        (Request::BindScalar(NodeId(12)), Reply::Scalar(Ok(scalar(120, &[22])))),
        (
            Request::ResolveColumn(NodeId(11)),
            Reply::Column(Ok(ColumnTarget { name: "b".to_string(), index: 1 })),
        ),
        (Request::BindScalar(NodeId(20)), Reply::Scalar(Ok(scalar(200, &[23])))),
        (Request::ProjectSchema(&names), Reply::Schema(Ok(schema(&["a", "b"])))),
        (Request::BindScalar(NodeId(23)), Reply::Scalar(Ok(first.clone()))),
        (Request::TypeOf(&first), Reply::Type(Ok(int8.clone()))),
        (cast(&first), Reply::Scalar(Ok(scalar(231, &[24])))),
        (Request::BindScalar(NodeId(24)), Reply::Scalar(Ok(second.clone()))),
        (Request::TypeOf(&second), Reply::Type(Ok(int8.clone()))),
        (cast(&second), Reply::Scalar(Ok(scalar(241, &[25])))),
    ];
    // One request for each condition, two for each assignment, one for the listed columns and
    // three for each value.
    assert_eq!(script.len(), 1 + 2 + 1 + 1 + 2 * 3);
    for (request, reply) in script {
        assert_eq!(binder.request(), request);
        binder = next(binder, reply);
    }
    assert_eq!(binder.request(), Request::Nothing);

    let plan = plan(binder);
    assert_eq!(plan.catalog, "default");
    assert_eq!(plan.database, "db");
    assert_eq!(plan.table, "t");
    assert_eq!(plan.table_id, 77);
    assert_eq!(plan.target_table_idx, 3);
    // Source, row id, join condition, fields of the target, conditions and cast values; not
    // the assigned value (22), nor a value before its cast (30).
    assert_eq!(plan.columns_set, HashSet::from([0, 1, 9, 5, 16, 21, 23, 24, 25]));
    assert_eq!(
        plan.field_index_map,
        HashMap::from([(0, "5".to_string()), (1, "16".to_string())])
    );
    assert_eq!(plan.matched_evaluators.len(), 2);
    assert_eq!(plan.matched_evaluators[0].condition, Some(scalar(100, &[21])));
    assert_eq!(
        plan.matched_evaluators[0].update,
        Some(HashMap::from([(1, scalar(120, &[22]))]))
    );
    assert_eq!(plan.matched_evaluators[1].condition, None);
    assert_eq!(plan.matched_evaluators[1].update, None);
    assert_eq!(plan.unmatched_evaluators.len(), 1);
    let inserted = &plan.unmatched_evaluators[0];
    assert_eq!(inserted.condition, Some(scalar(200, &[23])));
    assert_eq!(inserted.values, vec![scalar(231, &[24]), scalar(241, &[25])]);
    assert_eq!(inserted.source_schema, schema(&["a", "b"]));
}

#[test]
fn a_statement_that_only_deletes_reads_no_field() {
    let plan = plan(bind(prologue(vec![delete(), delete()], vec![])));
    assert_eq!(plan.columns_set, HashSet::from([0, 1, 9, 5]));
    assert_eq!(plan.field_index_map, HashMap::new());
    assert_eq!(plan.matched_evaluators.len(), 2);
    assert_eq!(plan.unmatched_evaluators.len(), 0);
}

#[test]
fn a_computed_field_is_refused() {
    let mut computed = schema(&["a", "b"]);
    computed.fields[1].computed_expr = Some("a + 1".to_string());
    let error = error_at(4, Reply::Table(Ok(Table { id: 1, schema: computed })));
    assert_eq!(error.kind, ErrorKind::Unimplemented);
    assert_eq!(error.message, "merge into doesn't support computed expr for now");
}

#[test]
fn a_field_without_a_column_is_refused() {
    let error = error_at(12, Reply::Columns(vec![entry("a", 5), entry("c", 6)]));
    assert_eq!(error.kind, ErrorKind::BadArguments);
    assert_eq!(error.message, "not found col name: b");
    // The first one counts.
    let error = error_at(12, Reply::Columns(vec![]));
    assert_eq!(error.message, "not found col name: a");
}

#[test]
fn an_unused_field_needs_no_column() {
    let mut replies = prologue(vec![delete()], vec![]);
    replies[12] = Reply::Columns(vec![]);
    assert!(bind(replies).is_finished());
}

#[test]
fn an_error_in_a_reply_ends_the_statement() {
    assert_eq!(error_at(1, Reply::Checked(Err(failure()))), failure());
    assert_eq!(error_at(2, Reply::Checked(Err(failure()))), failure());
    assert_eq!(error_at(4, Reply::Table(Err(failure()))), failure());
    assert_eq!(error_at(5, Reply::Source(Err(failure()))), failure());
    assert_eq!(error_at(6, Reply::Bound(Err(failure()))), failure());
    assert_eq!(error_at(8, Reply::InternalColumn(Err(failure()))), failure());
    assert_eq!(error_at(10, Reply::Bound(Err(failure()))), failure());
    assert_eq!(error_at(11, Reply::Scalar(Err(failure()))), failure());
    assert_eq!(error_at(13, Reply::Scalar(Err(failure()))), failure());
}

#[test]
fn an_error_of_a_clause_ends_the_statement() {
    let mut empty = insert();
    empty.selection = None;
    empty.insert_operation.values.clear();
    let mut replies = prologue(vec![delete()], vec![empty]);
    let columns = replies.pop().unwrap();
    let error = bind(replies).resume(columns).unwrap_err();
    assert_eq!(error.kind, ErrorKind::SemanticError);
    assert_eq!(error.message, "Values lists must have at least one row");
}

#[test]
fn only_fitting_replies_are_accepted() {
    let binder = bind_merge_into(stmt(), Ok(true)).unwrap();
    assert!(!binder.accepts(&Reply::Attached));

    // A target that is no field of the table.
    let binder = next(
        next(
            bind(prologue(vec![update()], vec![])),
            Reply::Scalar(Ok(scalar(100, &[]))),
        ),
        Reply::Scalar(Ok(scalar(120, &[]))),
    );
    let column = |index| Reply::Column(Ok(ColumnTarget { name: "x".to_string(), index }));
    assert!(binder.accepts(&column(1)));
    assert!(!binder.accepts(&column(2)));
    assert!(binder.accepts(&Reply::Column(Err(failure()))));

    // A value for which there is no field.
    let clause = UnmatchedClause {
        selection: None,
        insert_operation: InsertOperation {
            columns: None,
            values: vec![NodeId(23), NodeId(24), NodeId(25)],
        },
    };
    let int8 = || Reply::Type(Ok(DataType::Number(NumberDataType::Int8)));
    let mut binder = bind(prologue(vec![], vec![clause]));
    for id in 0..2 {
        binder = next(binder, Reply::Scalar(Ok(scalar(id, &[]))));
        binder = next(binder, int8());
        binder = next(binder, Reply::Scalar(Ok(scalar(id, &[]))));
    }
    binder = next(binder, Reply::Scalar(Ok(scalar(2, &[]))));
    assert!(!binder.accepts(&int8()));
    assert!(binder.accepts(&Reply::Type(Err(failure()))));
}
