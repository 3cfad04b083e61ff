//! What a `MERGE INTO` statement asks for at each stage, and what each reply does to it.

use vstd::prelude::*;

use crate::error::{ErrorCode, ErrorKind, ErrorView};
use crate::matched::{MatchedState, MatchedView};
use crate::merge_into::{
    is_merge_outcome, merge_start, InternalColumnType, Join, JoinOperator, MergeInto,
    MergeIntoBinder, MergeIntoView, MergeState, Reply, Request, RequestView, StageView, Table,
    TableReference,
};
use crate::scalar::{law_columns_are_references, ColumnSet, DataType, ScalarExpr};
use crate::schema::{SchemaView, TableSchema};
use crate::statement::{
    MatchOperation, MatchedClause, MergeIntoStmt, MergeUpdateExpr, NodeId, UnmatchedClause,
};
use crate::unmatched::{UnmatchedState, UnmatchedView};

verus! {

/// The contents of a plan are those of its parts: names by their characters, evaluators and
/// columns one for one, and the columns of the fields by their characters.
pub proof fn law_plan_contents(plan: MergeInto)
    ensures
        plan@.catalog == plan.catalog@,
        plan@.database == plan.database@,
        plan@.table == plan.table@,
        plan@.table_id == plan.table_id,
        plan@.target_table_idx == plan.target_table_idx,
        forall|c: usize| plan@.columns_set.contains(c) <==> plan.columns_set@.contains(c),
        plan@.matched_evaluators.len() == plan.matched_evaluators@.len(),
        forall|i: int|
            0 <= i < plan.matched_evaluators@.len() ==> #[trigger] plan@.matched_evaluators[i]
                == plan.matched_evaluators@[i]@,
        plan@.unmatched_evaluators.len() == plan.unmatched_evaluators@.len(),
        forall|i: int|
            0 <= i < plan.unmatched_evaluators@.len() ==> #[trigger] plan@.unmatched_evaluators[i]
                == plan.unmatched_evaluators@[i]@,
        forall|k: usize| #[trigger]
            plan@.field_index_map.contains_key(k) <==> plan.field_index_map@.contains_key(k),
        forall|k: usize|
            plan.field_index_map@.contains_key(k) ==> #[trigger] plan@.field_index_map[k]
                == plan.field_index_map@[k]@,
{
}

/// The contents of a request to the catalog, the name resolution or the metadata are its names
/// and numbers, each in its own place.
pub proof fn law_table_request_contents(
    catalog: String,
    database: String,
    table: String,
    internal_column: InternalColumnType,
    catalog_ident: Option<NodeId>,
    database_ident: Option<NodeId>,
    table_ident: NodeId,
    table_index: usize,
    column: usize,
)
    ensures
        (Request::NormalizeTableName { catalog_ident, database_ident, table_ident })@
            == (RequestView::NormalizeTableName { catalog_ident, database_ident, table_ident }),
        (Request::GetTable { catalog: &catalog, database: &database, table: &table })@
            == (RequestView::GetTable {
            catalog: catalog@,
            database: database@,
            table: table@,
        }),
        (Request::FindTableIndex { database: &database, table: &table })@
            == (RequestView::FindTableIndex { database: database@, table: table@ }),
        (Request::AddInternalColumn { database: &database, table: &table, internal_column })@
            == (RequestView::AddInternalColumn {
            database: database@,
            table: table@,
            internal_column,
        }),
        (Request::AttachRowId { table_index, column })@ == (RequestView::AttachRowId {
            table_index,
            column,
        }),
        Request::ListColumns(table_index)@ == RequestView::ListColumns(table_index),
{
}

/// The contents of a request about clauses, tables and expressions are the clauses, tables and
/// expressions that it names.
pub proof fn law_binding_request_contents(
    nodes: Vec<NodeId>,
    matched: Vec<MatchedClause>,
    unmatched: Vec<UnmatchedClause>,
    node: NodeId,
    target: TableReference,
    join: Join,
    scalar: ScalarExpr,
    from: DataType,
    to: DataType,
)
    ensures
        Request::SplitClauses(&nodes)@ == RequestView::SplitClauses(nodes@),
        Request::CheckMatchedClauses(&matched)@ == RequestView::CheckMatchedClauses(matched@),
        Request::CheckUnmatchedClauses(&unmatched)@ == RequestView::CheckUnmatchedClauses(
            unmatched@,
        ),
        Request::BindSource(node)@ == RequestView::BindSource(node),
        Request::BindTarget(target)@ == RequestView::BindTarget(target),
        Request::BindJoin(join)@ == RequestView::BindJoin(join),
        Request::BindScalar(node)@ == RequestView::BindScalar(node),
        Request::ResolveColumn(node)@ == RequestView::ResolveColumn(node),
        Request::ProjectSchema(&nodes)@ == RequestView::ProjectSchema(nodes@),
        Request::TypeOf(&scalar)@ == RequestView::TypeOf(scalar),
        (Request::Cast { scalar: &scalar, from: &from, to: &to })@ == (RequestView::Cast {
            scalar,
            from,
            to,
        }),
        Request::Nothing@ == RequestView::Nothing,
{
}

/// An outcome is success exactly where success is stated, with the state that is stated, and
/// an error exactly where one is stated, with its kind and message.
pub proof fn law_merge_outcome(
    r: Result<MergeIntoBinder, ErrorCode>,
    stated: Result<MergeState, ErrorView>,
)
    ensures
        is_merge_outcome(r, stated) <==> {
            &&& r is Ok <==> stated is Ok
            &&& r is Ok ==> r->Ok_0@ == stated->Ok_0
            &&& r is Err ==> r->Err_0.kind == stated->Err_0.kind && r->Err_0.message@
                == stated->Err_0.message
        },
{
}

/// Binding begins exactly when the setting is read and on, and the statement has a clause.
/// Then it begins with the statement's own clauses and an empty plan. The setting is looked at
/// first.
pub proof fn law_merge_begins(stmt: MergeIntoStmt, enabled: Result<bool, ErrorCode>)
    ensures
        merge_start(stmt, enabled) is Ok <==> (enabled matches Ok(on) && on)
            && stmt.merge_options@.len() > 0,
        !(enabled matches Ok(on) && on) ==> merge_start(stmt, enabled) == Err::<
            MergeState,
            ErrorView,
        >(
            ErrorView {
                kind: ErrorKind::Unimplemented,
                message:
                    "merge into is unstable for now, you can use 'set enable_experimental_merge_into = 1' to set up it"@,
            },
        ),
        (enabled matches Ok(on) && on) && stmt.merge_options@.len() == 0 ==> merge_start(
            stmt,
            enabled,
        ) == Err::<MergeState, ErrorView>(
            ErrorView {
                kind: ErrorKind::BadArguments,
                message: "at least one matched or unmatched clause for merge into"@,
            },
        ),
        merge_start(stmt, enabled) matches Ok(s) ==> {
            &&& s.stmt == stmt
            &&& s.stage == StageView::Split
            &&& s.request() == RequestView::SplitClauses(stmt.merge_options@)
            &&& s.matched.len() == 0
            &&& s.unmatched.len() == 0
            &&& s.schema.fields.len() == 0
            &&& s.plan.matched_evaluators.len() == 0
            &&& s.plan.unmatched_evaluators.len() == 0
            &&& forall|c: usize| !s.plan.columns_set.contains(c)
            &&& forall|k: usize| !s.plan.field_index_map.contains_key(k)
        },
{
}

/// The target that is to be bound, and the right side of the join, have the catalog, the
/// database, the table and the alias that the statement names. The join is a left outer one, of
/// the statement's own source, on its own condition.
pub proof fn law_target_and_join_are_the_statements(s: MergeState)
    ensures
        s.stage is Target ==> (s.request() matches RequestView::BindTarget(target) && {
            &&& target.catalog == s.stmt.catalog
            &&& target.database == s.stmt.database
            &&& target.table == s.stmt.table_ident
            &&& target.alias == s.stmt.alias_target
        }),
        s.stage is Join ==> (s.request() matches RequestView::BindJoin(join) && {
            &&& join.op == JoinOperator::LeftOuter
            &&& join.condition == s.stmt.join_expr
            &&& join.left == s.stmt.source
            &&& join.right.catalog == s.stmt.catalog
            &&& join.right.database == s.stmt.database
            &&& join.right.table == s.stmt.table_ident
            &&& join.right.alias == s.stmt.alias_target
        }),
{
}

/// What is asked for before the clauses, at each other stage: the parts of the statement, of
/// the name that was resolved and of the columns that were found, each in its own place.
pub proof fn law_requests_before_clauses(s: MergeState)
    ensures
        s.stage is Split ==> s.request() == RequestView::SplitClauses(s.stmt.merge_options@),
        s.stage is CheckMatched ==> s.request() == RequestView::CheckMatchedClauses(s.matched),
        s.stage is CheckUnmatched ==> s.request() == RequestView::CheckUnmatchedClauses(
            s.unmatched,
        ),
        s.stage is Name ==> s.request() == (RequestView::NormalizeTableName {
            catalog_ident: s.stmt.catalog,
            database_ident: s.stmt.database,
            table_ident: s.stmt.table_ident,
        }),
        s.stage is Table ==> s.request() == (RequestView::GetTable {
            catalog: s.plan.catalog,
            database: s.plan.database,
            table: s.plan.table,
        }),
        s.stage is Source ==> s.request() == RequestView::BindSource(s.stmt.source),
        s.stage is TableIndex ==> s.request() == (RequestView::FindTableIndex {
            database: s.plan.database,
            table: s.plan.table,
        }),
        s.stage is RowId ==> s.request() == (RequestView::AddInternalColumn {
            database: s.plan.database,
            table: s.plan.table,
            internal_column: InternalColumnType::RowId,
        }),
        s.stage is AttachRowId ==> s.request() == (RequestView::AttachRowId {
            table_index: s.plan.target_table_idx,
            column: s.row_id,
        }),
        s.stage is JoinCondition ==> s.request() == RequestView::BindScalar(s.stmt.join_expr),
        s.stage is Columns ==> s.request() == RequestView::ListColumns(s.plan.target_table_idx),
        s.stage is Finished ==> s.request() == RequestView::Nothing,
{
}

/// What is asked for a matched clause: the clause at hand is the first without an evaluator.
/// It asks for its own condition, and for the value and the name of its own next assignment.
pub proof fn law_requests_of_matched_clause(
    s: MergeState,
    expr: NodeId,
    update_list: Vec<MergeUpdateExpr>,
)
    requires
        s.wf(),
    ensures
        ({
            let clause = s.matched[s.plan.matched_evaluators.len() as int];
            let lists = clause.operation == (MatchOperation::Update { update_list });
            &&& s.stage == StageView::Matched(MatchedState::Condition) && clause.selection == Some(
                expr,
            ) ==> s.request() == RequestView::BindScalar(expr)
            &&& s.stage matches StageView::Matched(MatchedState::Value { next, .. }) ==> (lists
                ==> s.request() == RequestView::BindScalar(update_list@[next].expr))
            &&& s.stage matches StageView::Matched(MatchedState::Target { next, .. }) ==> (lists
                ==> s.request() == RequestView::ResolveColumn(update_list@[next].name))
        }),
{
}

/// What is asked for an unmatched clause: the clause at hand is the first without an evaluator.
/// It asks for its own condition, the projection to its own columns, its own next value, the
/// type of that value, and the cast of that value from its type to that of its own field.
pub proof fn law_requests_of_unmatched_clause(s: MergeState, expr: NodeId, columns: Vec<NodeId>)
    requires
        s.wf(),
    ensures
        ({
            let clause = s.unmatched[s.plan.unmatched_evaluators.len() as int];
            &&& s.stage == StageView::Unmatched(UnmatchedState::Condition) && clause.selection
                == Some(expr) ==> s.request() == RequestView::BindScalar(expr)
            &&& s.stage matches StageView::Unmatched(UnmatchedState::Schema { .. }) ==> (
            clause.insert_operation.columns == Some(columns) ==> s.request()
                == RequestView::ProjectSchema(columns@))
            &&& s.stage matches StageView::Unmatched(UnmatchedState::Value { evaluator })
                ==> s.request() == RequestView::BindScalar(
                clause.insert_operation.values@[evaluator.values.len() as int],
            )
            &&& s.stage matches StageView::Unmatched(UnmatchedState::Type { value, .. })
                ==> s.request() == RequestView::TypeOf(value)
            &&& s.stage matches StageView::Unmatched(
                UnmatchedState::Cast { evaluator, value, data_type },
            ) ==> s.request() == (RequestView::Cast {
                scalar: value,
                from: data_type,
                to: evaluator.source_schema.fields[evaluator.values.len() as int].data_type,
            })
        }),
{
}

/// Each request before the clauses takes every reply of its own kind, whatever it holds, and no
/// reply of another kind. A bound statement takes none.
pub proof fn law_replies_before_clauses(s: MergeState, reply: Reply)
    ensures
        s.stage is Split ==> (s.accepts(reply) <==> reply is Clauses),
        s.stage is CheckMatched ==> (s.accepts(reply) <==> reply is Checked),
        s.stage is CheckUnmatched ==> (s.accepts(reply) <==> reply is Checked),
        s.stage is Name ==> (s.accepts(reply) <==> reply is TableName),
        s.stage is Table ==> (s.accepts(reply) <==> reply is Table),
        s.stage is Source ==> (s.accepts(reply) <==> reply is Source),
        s.stage is Target ==> (s.accepts(reply) <==> reply is Bound),
        s.stage is TableIndex ==> (s.accepts(reply) <==> reply is TableIndex),
        s.stage is RowId ==> (s.accepts(reply) <==> reply is InternalColumn),
        s.stage is AttachRowId ==> (s.accepts(reply) <==> reply is Attached),
        s.stage is Join ==> (s.accepts(reply) <==> reply is Bound),
        s.stage is JoinCondition ==> (s.accepts(reply) <==> reply is Scalar),
        s.stage is Columns ==> (s.accepts(reply) <==> reply is Columns),
        s.stage is Finished ==> !s.accepts(reply),
{
}

/// A clause takes every reply of the kind that it awaits, and no other. Two replies have to
/// fit besides: a resolved target has to be a field of the table, and a typed value has to have
/// a field.
pub proof fn law_replies_to_clauses(s: MergeState, reply: Reply)
    ensures
        s.stage matches StageView::Matched(state) ==> (s.accepts(reply) <==> match state {
            MatchedState::Condition => reply is Scalar,
            MatchedState::Value { .. } => reply is Scalar,
            MatchedState::Target { .. } => match reply {
                Reply::Column(Ok(target)) => target.index < s.schema.fields.len(),
                Reply::Column(Err(_)) => true,
                _ => false,
            },
            MatchedState::Bound(_) => false,
        }),
        s.stage matches StageView::Unmatched(state) ==> (s.accepts(reply) <==> match state {
            UnmatchedState::Condition => reply is Scalar,
            UnmatchedState::Schema { .. } => reply is Schema,
            UnmatchedState::Value { .. } => reply is Scalar,
            UnmatchedState::Type { evaluator, .. } => match reply {
                Reply::Type(Ok(_)) => evaluator.values.len()
                    < evaluator.source_schema.fields.len(),
                Reply::Type(Err(_)) => true,
                _ => false,
            },
            UnmatchedState::Cast { .. } => reply is Scalar,
            UnmatchedState::Bound(_) => false,
        }),
{
}

/// A state belongs together exactly when the clause at hand, if there is one, is there and is
/// in a state of its own.
pub proof fn law_states_belong_together(s: MergeState)
    ensures
        s.wf() <==> match s.stage {
            StageView::Matched(state) => s.plan.matched_evaluators.len() < s.matched.len()
                && state.wf(s.matched[s.plan.matched_evaluators.len() as int]),
            StageView::Unmatched(state) => s.plan.unmatched_evaluators.len() < s.unmatched.len()
                && state.wf(s.unmatched[s.plan.unmatched_evaluators.len() as int]),
            _ => true,
        },
{
}

/// What a successful reply before the target's row id changes, and that it changes nothing
/// else: the clauses, the names, the table and its schema, and the columns of the source.
pub proof fn law_names_and_table_are_kept(
    s: MergeState,
    matched: Vec<MatchedClause>,
    unmatched: Vec<UnmatchedClause>,
    catalog: String,
    database: String,
    name: String,
    table: Table,
    columns: ColumnSet,
)
    ensures
        s.stage is Split ==> s.step(Reply::Clauses { matched, unmatched }) == Ok::<
            MergeState,
            ErrorView,
        >(
            MergeState {
                matched: matched@,
                unmatched: unmatched@,
                stage: StageView::CheckMatched,
                ..s
            },
        ),
        s.stage is CheckMatched ==> s.step(Reply::Checked(Ok(()))) == Ok::<MergeState, ErrorView>(
            MergeState { stage: StageView::CheckUnmatched, ..s },
        ),
        s.stage is CheckUnmatched ==> s.step(Reply::Checked(Ok(()))) == Ok::<
            MergeState,
            ErrorView,
        >(MergeState { stage: StageView::Name, ..s }),
        s.stage is Name ==> s.step(Reply::TableName { catalog, database, table: name }) == Ok::<
            MergeState,
            ErrorView,
        >(
            MergeState {
                plan: MergeIntoView {
                    catalog: catalog@,
                    database: database@,
                    table: name@,
                    ..s.plan
                },
                stage: StageView::Table,
                ..s
            },
        ),
        s.stage is Table ==> s.step(Reply::Table(Ok(table))) == if exists|i: int|
            0 <= i < table.schema.fields@.len() && (
            #[trigger] table.schema.fields@[i]).computed_expr is Some {
            Err::<MergeState, ErrorView>(
                ErrorView {
                    kind: ErrorKind::Unimplemented,
                    message: "merge into doesn't support computed expr for now"@,
                },
            )
        } else {
            Ok::<MergeState, ErrorView>(
                MergeState {
                    schema: SchemaView {
                        fields: table.schema.fields@,
                        metadata: table.schema.metadata@,
                        next_column_id: table.schema.next_column_id,
                    },
                    plan: MergeIntoView { table_id: table.id, ..s.plan },
                    stage: StageView::Source,
                    ..s
                },
            )
        },
        s.stage is Source ==> s.step(Reply::Source(Ok(columns))) == Ok::<MergeState, ErrorView>(
            MergeState {
                plan: MergeIntoView { columns_set: columns@, ..s.plan },
                stage: StageView::Target,
                ..s
            },
        ),
{
}

/// What a successful reply from the target to the join changes, and that it changes nothing
/// else: the number of the table and the row id, which is then read.
pub proof fn law_target_and_row_id_are_kept(s: MergeState, index: usize, column: usize)
    ensures
        s.stage is Target ==> s.step(Reply::Bound(Ok(()))) == Ok::<MergeState, ErrorView>(
            MergeState { stage: StageView::TableIndex, ..s },
        ),
        s.stage is TableIndex ==> s.step(Reply::TableIndex(index)) == Ok::<MergeState, ErrorView>(
            MergeState {
                plan: MergeIntoView { target_table_idx: index, ..s.plan },
                stage: StageView::RowId,
                ..s
            },
        ),
        s.stage is RowId ==> s.step(Reply::InternalColumn(Ok(column))) == Ok::<
            MergeState,
            ErrorView,
        >(MergeState { row_id: column, stage: StageView::AttachRowId, ..s }),
        s.stage is AttachRowId ==> s.step(Reply::Attached) == Ok::<MergeState, ErrorView>(
            MergeState {
                plan: MergeIntoView {
                    columns_set: s.plan.columns_set.insert(s.row_id),
                    ..s.plan
                },
                stage: StageView::Join,
                ..s
            },
        ),
        s.stage is Join ==> s.step(Reply::Bound(Ok(()))) == Ok::<MergeState, ErrorView>(
            MergeState { stage: StageView::JoinCondition, ..s },
        ),
{
}

/// The bound join condition adds exactly the columns that some place of its references holds,
/// and changes nothing else.
pub proof fn law_join_condition_is_read(s: MergeState, scalar: ScalarExpr)
    requires
        s.stage is JoinCondition,
    ensures
        s.step(Reply::Scalar(Ok(scalar))) matches Ok(t) && {
            &&& forall|c: usize|
                t.plan.columns_set.contains(c) <==> s.plan.columns_set.contains(c) || exists|
                    i: int,
                |
                    0 <= i < scalar.column_refs@.len() && #[trigger] scalar.column_refs@[i] == c
            &&& t == (MergeState {
                plan: MergeIntoView { columns_set: t.plan.columns_set, ..s.plan },
                stage: StageView::Columns,
                ..s
            })
        },
{
    assert forall|c: usize|
        s.step(Reply::Scalar(Ok(scalar)))->Ok_0.plan.columns_set.contains(c)
            <==> s.plan.columns_set.contains(c) || exists|i: int|
            0 <= i < scalar.column_refs@.len() && #[trigger] scalar.column_refs@[i] == c by {
        law_columns_are_references(scalar, c);
    }
}

/// A failed reply ends the statement with the error's own kind and message, at every stage.
pub proof fn law_failure_is_reported(s: MergeState, e: ErrorCode)
    ensures
        ({
            let failed = Err::<MergeState, ErrorView>(
                ErrorView { kind: e.kind, message: e.message@ },
            );
            &&& s.stage is CheckMatched || s.stage is CheckUnmatched ==> s.step(
                Reply::Checked(Err(e)),
            ) == failed
            &&& s.stage is Table ==> s.step(Reply::Table(Err(e))) == failed
            &&& s.stage is Source ==> s.step(Reply::Source(Err(e))) == failed
            &&& s.stage is Target || s.stage is Join ==> s.step(Reply::Bound(Err(e))) == failed
            &&& s.stage is RowId ==> s.step(Reply::InternalColumn(Err(e))) == failed
            &&& s.stage is JoinCondition || s.stage is Matched || s.stage is Unmatched ==> s.step(
                Reply::Scalar(Err(e)),
            ) == failed
            &&& s.stage is Matched ==> s.step(Reply::Column(Err(e))) == failed
            &&& s.stage is Unmatched ==> s.step(Reply::Schema(Err(e))) == failed
            &&& s.stage is Unmatched ==> s.step(Reply::Type(Err(e))) == failed
        }),
{
}

/// Where the matched clauses go on. Those that need nothing of the planner get their evaluators
/// in turn; the first other one is next, with its condition, or else with its first assignment.
/// After the last, the unmatched clauses follow.
pub proof fn law_matched_clauses_in_turn(s: MergeState, update_list: Vec<MergeUpdateExpr>)
    ensures
        ({
            let i = s.plan.matched_evaluators.len() as int;
            let clause = s.matched[i];
            let updates = clause.operation == (MatchOperation::Update { update_list });
            &&& i >= s.matched.len() ==> s.next_matched() == s.next_unmatched()
            &&& i < s.matched.len() && clause.selection is Some ==> s.next_matched() == Ok::<
                MergeState,
                ErrorView,
            >(MergeState { stage: StageView::Matched(MatchedState::Condition), ..s })
            &&& i < s.matched.len() && clause.selection is None && updates && update_list@.len()
                > 0 ==> s.next_matched() == Ok::<MergeState, ErrorView>(
                MergeState {
                    stage: StageView::Matched(
                        MatchedState::Value { condition: None, update: Map::empty(), next: 0 },
                    ),
                    ..s
                },
            )
            &&& i < s.matched.len() && clause.selection is None && updates && update_list@.len()
                == 0 ==> s.next_matched() == with_next_matched(
                s,
                MatchedView { condition: None, update: Some(Map::empty()) },
            ).next_matched()
            &&& i < s.matched.len() && clause.selection is None && clause.operation
                == MatchOperation::Delete ==> s.next_matched() == with_next_matched(
                s,
                MatchedView { condition: None, update: None },
            ).next_matched()
        }),
{
}

/// A state with one more evaluator, after the others, for the matched clauses.
pub open spec fn with_next_matched(s: MergeState, evaluator: MatchedView) -> MergeState {
    MergeState {
        plan: MergeIntoView {
            matched_evaluators: s.plan.matched_evaluators.push(evaluator),
            ..s.plan
        },
        ..s
    }
}

/// A state with one more evaluator, after the others, for the unmatched clauses.
pub open spec fn with_next_unmatched(s: MergeState, evaluator: UnmatchedView) -> MergeState {
    MergeState {
        plan: MergeIntoView {
            unmatched_evaluators: s.plan.unmatched_evaluators.push(evaluator),
            ..s.plan
        },
        ..s
    }
}

/// Where the unmatched clauses go on: with the condition of the first one that has no
/// evaluator, or without one with its columns or its first value. One without condition and
/// values ends the statement. After the last clause, the statement is bound.
pub proof fn law_unmatched_clauses_in_turn(s: MergeState)
    ensures
        ({
            let i = s.plan.unmatched_evaluators.len() as int;
            let clause = s.unmatched[i];
            let count = clause.insert_operation.values@.len();
            &&& i >= s.unmatched.len() ==> s.next_unmatched() == Ok::<MergeState, ErrorView>(
                MergeState { stage: StageView::Finished, ..s },
            )
            &&& i < s.unmatched.len() && clause.selection is Some ==> s.next_unmatched() == Ok::<
                MergeState,
                ErrorView,
            >(MergeState { stage: StageView::Unmatched(UnmatchedState::Condition), ..s })
            &&& i < s.unmatched.len() && clause.selection is None && count == 0
                ==> s.next_unmatched() == Err::<MergeState, ErrorView>(
                ErrorView {
                    kind: ErrorKind::SemanticError,
                    message: "Values lists must have at least one row"@,
                },
            )
            &&& i < s.unmatched.len() && clause.selection is None && count > 0
                && clause.insert_operation.columns is Some ==> s.next_unmatched() == Ok::<
                MergeState,
                ErrorView,
            >(
                MergeState {
                    stage: StageView::Unmatched(UnmatchedState::Schema { condition: None }),
                    ..s
                },
            )
            &&& i < s.unmatched.len() && clause.selection is None && count > 0
                && clause.insert_operation.columns is None ==> s.next_unmatched() == Ok::<
                MergeState,
                ErrorView,
            >(
                MergeState {
                    stage: StageView::Unmatched(
                        UnmatchedState::Value {
                            evaluator: UnmatchedView {
                                source_schema: s.schema,
                                condition: None,
                                values: Seq::empty(),
                            },
                        },
                    ),
                    ..s
                },
            )
        }),
{
}

/// A state that differs at most in the columns that are read.
pub open spec fn with_columns(s: MergeState, columns: Set<usize>) -> MergeState {
    MergeState { plan: MergeIntoView { columns_set: columns, ..s.plan }, ..s }
}

/// A reply to a matched clause does to the statement what it does to the clause: an error ends
/// it, a clause that is bound gets the next evaluator and the clauses go on, and any other
/// stays at hand. Besides, a condition's references are read, and nothing else is.
pub proof fn law_reply_to_matched_clause(
    s: MergeState,
    state: MatchedState,
    scalar: ScalarExpr,
    resolved: crate::matched::ColumnTarget,
    columns: Set<usize>,
)
    requires
        s.stage == StageView::Matched(state),
        forall|c: usize| #[trigger]
            columns.contains(c) <==> s.plan.columns_set.contains(c) || (state is Condition
                && exists|i: int|
                0 <= i < scalar.column_refs@.len() && #[trigger] scalar.column_refs@[i] == c),
    ensures
        ({
            let clause = s.matched[s.plan.matched_evaluators.len() as int];
            let read = with_columns(s, columns);
            &&& s.step(Reply::Scalar(Ok(scalar))) == match state.on_scalar(clause, Ok(scalar)) {
                Err(e) => Err(e),
                Ok(MatchedState::Bound(evaluator)) => with_next_matched(
                    read,
                    evaluator,
                ).next_matched(),
                Ok(next) => Ok(MergeState { stage: StageView::Matched(next), ..read }),
            }
            &&& s.step(Reply::Column(Ok(resolved))) == match state.on_column(
                clause,
                s.schema,
                Ok(resolved),
            ) {
                Err(e) => Err(e),
                Ok(MatchedState::Bound(evaluator)) => with_next_matched(
                    s,
                    evaluator,
                ).next_matched(),
                Ok(next) => Ok(MergeState { stage: StageView::Matched(next), ..s }),
            }
        }),
{
    assert forall|c: usize|
        s.plan.columns_set.union(state.columns_of(Ok(scalar))).contains(c) == columns.contains(c) by {
        law_columns_are_references(scalar, c);
    }
    assert(s.plan.columns_set.union(state.columns_of(Ok(scalar))) =~= columns);
}

/// A reply to an unmatched clause does to the statement what it does to the clause: an error
/// ends it, a clause that is bound gets the next evaluator and the clauses go on, and any other
/// stays at hand. Besides, the references of a condition and of a cast value are read, and
/// nothing else is.
pub proof fn law_reply_to_unmatched_clause(
    s: MergeState,
    state: UnmatchedState,
    scalar: ScalarExpr,
    projected: TableSchema,
    data_type: DataType,
    columns: Set<usize>,
)
    requires
        s.stage == StageView::Unmatched(state),
        forall|c: usize| #[trigger]
            columns.contains(c) <==> s.plan.columns_set.contains(c) || ((state is Condition
                || state is Cast) && exists|i: int|
                0 <= i < scalar.column_refs@.len() && #[trigger] scalar.column_refs@[i] == c),
    ensures
        ({
            let clause = s.unmatched[s.plan.unmatched_evaluators.len() as int];
            let read = with_columns(s, columns);
            &&& state is Cast ==> s.step(Reply::Scalar(Ok(scalar))) == match state.on_cast(
                clause,
                Ok(scalar),
            ) {
                Err(e) => Err(e),
                Ok(UnmatchedState::Bound(evaluator)) => with_next_unmatched(
                    read,
                    evaluator,
                ).next_unmatched(),
                Ok(next) => Ok(MergeState { stage: StageView::Unmatched(next), ..read }),
            }
            &&& state is Condition || state is Value ==> s.step(Reply::Scalar(Ok(scalar)))
                == match state.on_scalar(clause, s.schema, Ok(scalar)) {
                Err(e) => Err(e),
                Ok(UnmatchedState::Bound(evaluator)) => with_next_unmatched(
                    read,
                    evaluator,
                ).next_unmatched(),
                Ok(next) => Ok(MergeState { stage: StageView::Unmatched(next), ..read }),
            }
            &&& state is Schema ==> s.step(Reply::Schema(Ok(projected))) == match state.on_schema(
                s.schema,
                Ok(projected),
            ) {
                Err(e) => Err(e),
                Ok(next) => Ok(MergeState { stage: StageView::Unmatched(next), ..s }),
            }
            &&& state is Type ==> s.step(Reply::Type(Ok(data_type))) == match state.on_type(
                Ok(data_type),
            ) {
                Err(e) => Err(e),
                Ok(next) => Ok(MergeState { stage: StageView::Unmatched(next), ..s }),
            }
        }),
{
    assert forall|c: usize|
        s.plan.columns_set.union(state.columns_of(Ok(scalar))).contains(c) == columns.contains(c) by {
        law_columns_are_references(scalar, c);
    }
    assert(s.plan.columns_set.union(state.columns_of(Ok(scalar))) =~= columns);
}

} // verus!
