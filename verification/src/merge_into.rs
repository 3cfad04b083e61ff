//! Binding of a `MERGE INTO` statement.
//!
//! The statement becomes a left outer join of the source with the target table, and one
//! evaluator for each `WHEN ..` clause. A [`MergeIntoBinder`] holds every decision on the way.
//! The catalog, the name resolution, the metadata and the binding of tables, joins and
//! expressions belong to the planner around this crate: [`MergeIntoBinder::request`] says
//! what the planner has to do next, and [`MergeIntoBinder::resume`] takes the reply.

use std::collections::{HashMap, HashSet};

use vstd::prelude::*;

use crate::error::{ErrorCode, ErrorKind, ErrorView};
use crate::matched::{
    bind_matched_clause, matched_start, ColumnTarget, MatchedBinding, MatchedEvaluator,
    MatchedRequest, MatchedState, MatchedView,
};
use crate::scalar::{ColumnSet, DataType, ScalarExpr};
use crate::schema::{
    column_named, find_column_index, some_computed, unknown_column, ColumnEntry, SchemaView,
    TableSchema,
};
use crate::statement::{
    has_update, some_update, MatchedClause, MergeIntoStmt, NodeId, UnmatchedClause,
};
use crate::text::{decimal, to_decimal};
use crate::unmatched::{
    bind_unmatched_clause, unmatched_start, UnmatchedBinding, UnmatchedEvaluator,
    UnmatchedRequest, UnmatchedState, UnmatchedView,
};

verus! {

/// A table of the catalog.
#[derive(Debug)]
pub struct Table {
    pub id: u64,
    pub schema: TableSchema,
}

/// The target table as the statement names it, at its current version and unpivoted.
#[derive(Clone, Copy, Debug, PartialEq, Eq)]
pub struct TableReference {
    pub catalog: Option<NodeId>,
    pub database: Option<NodeId>,
    pub table: NodeId,
    pub alias: Option<NodeId>,
}

/// How two tables are joined.
#[derive(Clone, Copy, Debug, PartialEq, Eq)]
pub enum JoinOperator {
    LeftOuter,
}

/// A join of the source with the target on a condition.
#[derive(Clone, Copy, Debug, PartialEq, Eq)]
pub struct Join {
    pub op: JoinOperator,
    pub condition: NodeId,
    pub left: NodeId,
    pub right: TableReference,
}

/// A column that the storage adds to every table.
#[derive(Clone, Copy, Debug, PartialEq, Eq)]
pub enum InternalColumnType {
    /// `_row_id`, which tells the rows of a table apart.
    RowId,
}

/// A bound `MERGE INTO` statement. The bound join stays with the planner.
#[derive(Debug)]
pub struct MergeInto {
    pub catalog: String,
    pub database: String,
    pub table: String,
    pub table_id: u64,
    /// The columns that have to be read.
    pub columns_set: ColumnSet,
    pub matched_evaluators: Vec<MatchedEvaluator>,
    pub unmatched_evaluators: Vec<UnmatchedEvaluator>,
    pub target_table_idx: usize,
    /// For a statement that updates: the column that holds each field of the target, by the
    /// field's place in the table, written in base ten.
    pub field_index_map: HashMap<usize, String>,
}

/// The contents of a [`MergeInto`].
pub ghost struct MergeIntoView {
    pub catalog: Seq<char>,
    pub database: Seq<char>,
    pub table: Seq<char>,
    pub table_id: u64,
    pub columns_set: Set<usize>,
    pub matched_evaluators: Seq<MatchedView>,
    pub unmatched_evaluators: Seq<UnmatchedView>,
    pub target_table_idx: usize,
    pub field_index_map: Map<usize, Seq<char>>,
}

impl View for MergeInto {
    type V = MergeIntoView;

    open spec fn view(&self) -> MergeIntoView {
        MergeIntoView {
            catalog: self.catalog@,
            database: self.database@,
            table: self.table@,
            table_id: self.table_id,
            columns_set: self.columns_set@,
            matched_evaluators: self.matched_evaluators@.map_values(|e: MatchedEvaluator| e@),
            unmatched_evaluators: self.unmatched_evaluators@.map_values(|e: UnmatchedEvaluator| e@),
            target_table_idx: self.target_table_idx,
            field_index_map: self.field_index_map@.map_values(|s: String| s@),
        }
    }
}

/// What the planner has to do next.
#[derive(Clone, Copy, Debug, PartialEq, Eq)]
pub enum Request<'a> {
    /// Split these clauses into the matched and the unmatched ones.
    SplitClauses(&'a Vec<NodeId>),
    /// Check that these clauses make sense together.
    CheckMatchedClauses(&'a Vec<MatchedClause>),
    /// Check that these clauses make sense together.
    CheckUnmatchedClauses(&'a Vec<UnmatchedClause>),
    /// Normalize and complete the name of the target table.
    NormalizeTableName {
        catalog_ident: Option<NodeId>,
        database_ident: Option<NodeId>,
        table_ident: NodeId,
    },
    /// Look the target table up in the catalog.
    GetTable { catalog: &'a String, database: &'a String, table: &'a String },
    /// Bind the source, in the scope of the statement.
    BindSource(NodeId),
    /// Bind the target table, in the scope that binding the source gave. What comes out is the
    /// scope of the target.
    BindTarget(TableReference),
    /// Find the number of the target table among the tables of the query.
    FindTableIndex { database: &'a String, table: &'a String },
    /// Add an internal column of the target table to the columns of the query, in the scope of
    /// the target.
    AddInternalColumn {
        database: &'a String,
        table: &'a String,
        internal_column: InternalColumnType,
    },
    /// Have the scan of the target table produce the row id as this column, and record it.
    AttachRowId { table_index: usize, column: usize },
    /// Join the bound source with the bound target, in the scope of the statement.
    BindJoin(Join),
    /// Bind this expression: the join condition, or an expression of a clause. All of them are
    /// bound in the scope of the target, with its row id.
    BindScalar(NodeId),
    /// List the columns of this table.
    ListColumns(usize),
    /// Normalize this name and look it up in the schema of the target table.
    ResolveColumn(NodeId),
    /// Project the schema of the target table to the fields with these names.
    ProjectSchema(&'a Vec<NodeId>),
    /// Determine the type of this expression.
    TypeOf(&'a ScalarExpr),
    /// Wrap this expression into a cast from one type to another.
    Cast { scalar: &'a ScalarExpr, from: &'a DataType, to: &'a DataType },
    /// Nothing: the statement is bound.
    Nothing,
}

/// The contents of a [`Request`].
pub ghost enum RequestView {
    SplitClauses(Seq<NodeId>),
    CheckMatchedClauses(Seq<MatchedClause>),
    CheckUnmatchedClauses(Seq<UnmatchedClause>),
    NormalizeTableName {
        catalog_ident: Option<NodeId>,
        database_ident: Option<NodeId>,
        table_ident: NodeId,
    },
    GetTable { catalog: Seq<char>, database: Seq<char>, table: Seq<char> },
    BindSource(NodeId),
    BindTarget(TableReference),
    FindTableIndex { database: Seq<char>, table: Seq<char> },
    AddInternalColumn {
        database: Seq<char>,
        table: Seq<char>,
        internal_column: InternalColumnType,
    },
    AttachRowId { table_index: usize, column: usize },
    BindJoin(Join),
    BindScalar(NodeId),
    ListColumns(usize),
    ResolveColumn(NodeId),
    ProjectSchema(Seq<NodeId>),
    TypeOf(ScalarExpr),
    Cast { scalar: ScalarExpr, from: DataType, to: DataType },
    Nothing,
}

impl<'a> View for Request<'a> {
    type V = RequestView;

    open spec fn view(&self) -> RequestView {
        match *self {
            Request::SplitClauses(options) => RequestView::SplitClauses(options@),
            Request::CheckMatchedClauses(clauses) => RequestView::CheckMatchedClauses(clauses@),
            Request::CheckUnmatchedClauses(clauses) => RequestView::CheckUnmatchedClauses(clauses@),
            Request::NormalizeTableName { catalog_ident, database_ident, table_ident } => {
                RequestView::NormalizeTableName { catalog_ident, database_ident, table_ident }
            },
            Request::GetTable { catalog, database, table } => RequestView::GetTable {
                catalog: catalog@,
                database: database@,
                table: table@,
            },
            Request::BindSource(source) => RequestView::BindSource(source),
            Request::BindTarget(target) => RequestView::BindTarget(target),
            Request::FindTableIndex { database, table } => RequestView::FindTableIndex {
                database: database@,
                table: table@,
            },
            Request::AddInternalColumn { database, table, internal_column } => {
                RequestView::AddInternalColumn {
                    database: database@,
                    table: table@,
                    internal_column,
                }
            },
            Request::AttachRowId { table_index, column } => RequestView::AttachRowId {
                table_index,
                column,
            },
            Request::BindJoin(join) => RequestView::BindJoin(join),
            Request::BindScalar(expr) => RequestView::BindScalar(expr),
            Request::ListColumns(table_index) => RequestView::ListColumns(table_index),
            Request::ResolveColumn(name) => RequestView::ResolveColumn(name),
            Request::ProjectSchema(columns) => RequestView::ProjectSchema(columns@),
            Request::TypeOf(scalar) => RequestView::TypeOf(*scalar),
            Request::Cast { scalar, from, to } => RequestView::Cast {
                scalar: *scalar,
                from: *from,
                to: *to,
            },
            Request::Nothing => RequestView::Nothing,
        }
    }
}

/// A reply of the planner. Each belongs to one kind of request.
#[derive(Debug)]
pub enum Reply {
    /// To `SplitClauses`.
    Clauses { matched: Vec<MatchedClause>, unmatched: Vec<UnmatchedClause> },
    /// To `CheckMatchedClauses` and `CheckUnmatchedClauses`.
    Checked(Result<(), ErrorCode>),
    /// To `NormalizeTableName`.
    TableName { catalog: String, database: String, table: String },
    /// To `GetTable`.
    Table(Result<Table, ErrorCode>),
    /// To `BindSource`: the columns of the source.
    Source(Result<ColumnSet, ErrorCode>),
    /// To `BindTarget` and `BindJoin`.
    Bound(Result<(), ErrorCode>),
    /// To `FindTableIndex`.
    TableIndex(usize),
    /// To `AddInternalColumn`: the new column.
    InternalColumn(Result<usize, ErrorCode>),
    /// To `AttachRowId`.
    Attached,
    /// To `BindScalar` and `Cast`.
    Scalar(Result<ScalarExpr, ErrorCode>),
    /// To `ListColumns`.
    Columns(Vec<ColumnEntry>),
    /// To `ResolveColumn`.
    Column(Result<ColumnTarget, ErrorCode>),
    /// To `ProjectSchema`.
    Schema(Result<TableSchema, ErrorCode>),
    /// To `TypeOf`.
    Type(Result<DataType, ErrorCode>),
}

/// How far binding is: what is awaited.
#[derive(Debug)]
enum Stage {
    Split,
    CheckMatched,
    CheckUnmatched,
    Name,
    Table,
    Source,
    Target,
    TableIndex,
    RowId,
    AttachRowId,
    Join,
    JoinCondition,
    Columns,
    Matched(MatchedBinding),
    Unmatched(UnmatchedBinding),
    Finished,
}

/// A `MERGE INTO` statement on its way to being bound.
#[derive(Debug)]
pub struct MergeIntoBinder {
    stmt: MergeIntoStmt,
    matched_clauses: Vec<MatchedClause>,
    unmatched_clauses: Vec<UnmatchedClause>,
    schema: TableSchema,
    row_id: usize,
    plan: MergeInto,
    stage: Stage,
}

/// How far binding is. In `Matched` and `Unmatched`, the clause at hand is the one that comes
/// after those that have an evaluator.
pub ghost enum StageView {
    Split,
    CheckMatched,
    CheckUnmatched,
    Name,
    Table,
    Source,
    Target,
    TableIndex,
    RowId,
    AttachRowId,
    Join,
    JoinCondition,
    Columns,
    Matched(MatchedState),
    Unmatched(UnmatchedState),
    Finished,
}

/// The contents of a [`MergeIntoBinder`].
pub ghost struct MergeState {
    pub stmt: MergeIntoStmt,
    pub matched: Seq<MatchedClause>,
    pub unmatched: Seq<UnmatchedClause>,
    /// The schema of the target table.
    pub schema: SchemaView,
    /// The column that holds the row id.
    pub row_id: usize,
    /// The plan as far as it is known.
    pub plan: MergeIntoView,
    pub stage: StageView,
}

impl View for Stage {
    type V = StageView;

    closed spec fn view(&self) -> StageView {
        match *self {
            Stage::Split => StageView::Split,
            Stage::CheckMatched => StageView::CheckMatched,
            Stage::CheckUnmatched => StageView::CheckUnmatched,
            Stage::Name => StageView::Name,
            Stage::Table => StageView::Table,
            Stage::Source => StageView::Source,
            Stage::Target => StageView::Target,
            Stage::TableIndex => StageView::TableIndex,
            Stage::RowId => StageView::RowId,
            Stage::AttachRowId => StageView::AttachRowId,
            Stage::Join => StageView::Join,
            Stage::JoinCondition => StageView::JoinCondition,
            Stage::Columns => StageView::Columns,
            Stage::Matched(binding) => StageView::Matched(binding@),
            Stage::Unmatched(binding) => StageView::Unmatched(binding@),
            Stage::Finished => StageView::Finished,
        }
    }
}

impl View for MergeIntoBinder {
    type V = MergeState;

    closed spec fn view(&self) -> MergeState {
        MergeState {
            stmt: self.stmt,
            matched: self.matched_clauses@,
            unmatched: self.unmatched_clauses@,
            schema: self.schema@,
            row_id: self.row_id,
            plan: self.plan@,
            stage: self.stage@,
        }
    }
}

/// The error when the setting that allows the statement is off.
pub open spec fn merge_disabled() -> ErrorView {
    ErrorView {
        kind: ErrorKind::Unimplemented,
        message:
            "merge into is unstable for now, you can use 'set enable_experimental_merge_into = 1' to set up it"@,
    }
}

/// The error for a statement without clauses.
pub open spec fn no_clauses() -> ErrorView {
    ErrorView {
        kind: ErrorKind::BadArguments,
        message: "at least one matched or unmatched clause for merge into"@,
    }
}

/// The error for a target table with a computed field.
pub open spec fn computed_target() -> ErrorView {
    ErrorView {
        kind: ErrorKind::Unimplemented,
        message: "merge into doesn't support computed expr for now"@,
    }
}

/// The target table of a statement.
pub open spec fn target_of(stmt: MergeIntoStmt) -> TableReference {
    TableReference {
        catalog: stmt.catalog,
        database: stmt.database,
        table: stmt.table_ident,
        alias: stmt.alias_target,
    }
}

/// The join of a statement: every source row, with the target rows that match it.
pub open spec fn join_of(stmt: MergeIntoStmt) -> Join {
    Join {
        op: JoinOperator::LeftOuter,
        condition: stmt.join_expr,
        left: stmt.source,
        right: target_of(stmt),
    }
}

/// Where binding a statement begins.
pub open spec fn merge_start(stmt: MergeIntoStmt, enabled: Result<bool, ErrorCode>) -> Result<
    MergeState,
    ErrorView,
> {
    if enabled != Ok::<bool, ErrorCode>(true) {
        Err(merge_disabled())
    } else if stmt.merge_options@.len() == 0 {
        Err(no_clauses())
    } else {
        Ok(
            MergeState {
                stmt,
                matched: Seq::empty(),
                unmatched: Seq::empty(),
                schema: SchemaView {
                    fields: Seq::empty(),
                    metadata: Seq::empty(),
                    next_column_id: 0,
                },
                row_id: 0,
                plan: MergeIntoView {
                    catalog: Seq::empty(),
                    database: Seq::empty(),
                    table: Seq::empty(),
                    table_id: 0,
                    columns_set: Set::empty(),
                    matched_evaluators: Seq::empty(),
                    unmatched_evaluators: Seq::empty(),
                    target_table_idx: 0,
                    field_index_map: Map::empty(),
                },
                stage: StageView::Split,
            },
        )
    }
}

/// A plan that also reads the columns which hold the first `n` fields of the target table,
/// and maps these fields to them. The first field without a column is an error.
pub open spec fn with_fields(
    plan: MergeIntoView,
    schema: SchemaView,
    entries: Seq<ColumnEntry>,
    n: nat,
) -> Result<MergeIntoView, ErrorView>
    decreases n,
{
    if n == 0 {
        Ok(plan)
    } else {
        let name = schema.fields[n - 1].name@;
        match (with_fields(plan, schema, entries, (n - 1) as nat), column_named(entries, name)) {
            (Err(e), _) => Err(e),
            (Ok(_), None) => Err(unknown_column(name)),
            (Ok(plan), Some(index)) => Ok(
                MergeIntoView {
                    columns_set: plan.columns_set.insert(index),
                    field_index_map: plan.field_index_map.insert(
                        (n - 1) as usize,
                        decimal(index as nat),
                    ),
                    ..plan
                },
            ),
        }
    }
}

impl MergeState {
    /// The matched clause at hand.
    pub open spec fn matched_clause(self) -> MatchedClause {
        self.matched[self.plan.matched_evaluators.len() as int]
    }

    /// The unmatched clause at hand.
    pub open spec fn unmatched_clause(self) -> UnmatchedClause {
        self.unmatched[self.plan.unmatched_evaluators.len() as int]
    }

    /// Whether the parts of this state belong together.
    pub open spec fn wf(self) -> bool {
        match self.stage {
            StageView::Matched(state) => self.plan.matched_evaluators.len() < self.matched.len()
                && state.wf(self.matched_clause()),
            StageView::Unmatched(state) => self.plan.unmatched_evaluators.len()
                < self.unmatched.len() && state.wf(self.unmatched_clause()),
            _ => true,
        }
    }

    /// Whether a reply is to the request at hand. A resolved column has to be a field of the
    /// table, and a typed value needs a field that it is for.
    pub open spec fn accepts(self, reply: Reply) -> bool {
        match (self.stage, reply) {
            (StageView::Split, Reply::Clauses { .. }) => true,
            (StageView::CheckMatched, Reply::Checked(_)) => true,
            (StageView::CheckUnmatched, Reply::Checked(_)) => true,
            (StageView::Name, Reply::TableName { .. }) => true,
            (StageView::Table, Reply::Table(_)) => true,
            (StageView::Source, Reply::Source(_)) => true,
            (StageView::Target, Reply::Bound(_)) => true,
            (StageView::TableIndex, Reply::TableIndex(_)) => true,
            (StageView::RowId, Reply::InternalColumn(_)) => true,
            (StageView::AttachRowId, Reply::Attached) => true,
            (StageView::Join, Reply::Bound(_)) => true,
            (StageView::JoinCondition, Reply::Scalar(_)) => true,
            (StageView::Columns, Reply::Columns(_)) => true,
            (StageView::Matched(state), Reply::Scalar(_)) => state.awaits_scalar(),
            (StageView::Matched(state), Reply::Column(r)) => state is Target && (r matches Ok(
                target,
            ) ==> target.index < self.schema.fields.len()),
            (StageView::Unmatched(state), Reply::Scalar(_)) => state.awaits_scalar()
                || state is Cast,
            (StageView::Unmatched(state), Reply::Schema(_)) => state is Schema,
            (StageView::Unmatched(state), Reply::Type(r)) => state is Type && (r is Ok
                ==> state.has_field()),
            _ => false,
        }
    }

    /// What is requested of the planner for a matched clause.
    pub open spec fn matched_request(state: MatchedState, clause: MatchedClause) -> RequestView {
        match state.request(clause) {
            MatchedRequest::Scalar(expr) => RequestView::BindScalar(expr),
            MatchedRequest::Column(name) => RequestView::ResolveColumn(name),
            MatchedRequest::Nothing => RequestView::Nothing,
        }
    }

    /// What is requested of the planner for an unmatched clause.
    pub open spec fn unmatched_request(
        state: UnmatchedState,
        clause: UnmatchedClause,
    ) -> RequestView {
        match state {
            UnmatchedState::Condition => RequestView::BindScalar(clause.selection->0),
            UnmatchedState::Schema { .. } => RequestView::ProjectSchema(
                clause.insert_operation.columns->0@,
            ),
            UnmatchedState::Value { evaluator } => RequestView::BindScalar(
                clause.insert_operation.values@[evaluator.values.len() as int],
            ),
            UnmatchedState::Type { value, .. } => RequestView::TypeOf(value),
            UnmatchedState::Cast { evaluator, value, data_type } => RequestView::Cast {
                scalar: value,
                from: data_type,
                to: evaluator.source_schema.fields[evaluator.values.len() as int].data_type,
            },
            UnmatchedState::Bound(_) => RequestView::Nothing,
        }
    }

    /// What is requested of the planner.
    pub open spec fn request(self) -> RequestView {
        match self.stage {
            StageView::Split => RequestView::SplitClauses(self.stmt.merge_options@),
            StageView::CheckMatched => RequestView::CheckMatchedClauses(self.matched),
            StageView::CheckUnmatched => RequestView::CheckUnmatchedClauses(self.unmatched),
            StageView::Name => RequestView::NormalizeTableName {
                catalog_ident: self.stmt.catalog,
                database_ident: self.stmt.database,
                table_ident: self.stmt.table_ident,
            },
            StageView::Table => RequestView::GetTable {
                catalog: self.plan.catalog,
                database: self.plan.database,
                table: self.plan.table,
            },
            StageView::Source => RequestView::BindSource(self.stmt.source),
            StageView::Target => RequestView::BindTarget(target_of(self.stmt)),
            StageView::TableIndex => RequestView::FindTableIndex {
                database: self.plan.database,
                table: self.plan.table,
            },
            StageView::RowId => RequestView::AddInternalColumn {
                database: self.plan.database,
                table: self.plan.table,
                internal_column: InternalColumnType::RowId,
            },
            StageView::AttachRowId => RequestView::AttachRowId {
                table_index: self.plan.target_table_idx,
                column: self.row_id,
            },
            StageView::Join => RequestView::BindJoin(join_of(self.stmt)),
            StageView::JoinCondition => RequestView::BindScalar(self.stmt.join_expr),
            StageView::Columns => RequestView::ListColumns(self.plan.target_table_idx),
            StageView::Matched(state) => MergeState::matched_request(state, self.matched_clause()),
            StageView::Unmatched(state) => MergeState::unmatched_request(
                state,
                self.unmatched_clause(),
            ),
            StageView::Finished => RequestView::Nothing,
        }
    }

    /// This state at another stage.
    pub open spec fn at(self, stage: StageView) -> MergeState {
        MergeState { stage, ..self }
    }

    /// Goes on to the next unmatched clause, or to the end.
    pub open spec fn next_unmatched(self) -> Result<MergeState, ErrorView> {
        if self.plan.unmatched_evaluators.len() < self.unmatched.len() {
            match unmatched_start(self.unmatched_clause(), self.schema) {
                Ok(state) => Ok(self.at(StageView::Unmatched(state))),
                Err(e) => Err(e),
            }
        } else {
            Ok(self.at(StageView::Finished))
        }
    }

    /// This state with an evaluator for the matched clause at hand.
    pub open spec fn with_matched(self, evaluator: MatchedView) -> MergeState {
        MergeState {
            plan: MergeIntoView {
                matched_evaluators: self.plan.matched_evaluators.push(evaluator),
                ..self.plan
            },
            ..self
        }
    }

    /// This state with an evaluator for the unmatched clause at hand.
    pub open spec fn with_unmatched(self, evaluator: UnmatchedView) -> MergeState {
        MergeState {
            plan: MergeIntoView {
                unmatched_evaluators: self.plan.unmatched_evaluators.push(evaluator),
                ..self.plan
            },
            ..self
        }
    }

    /// This state with more columns to read.
    pub open spec fn reading(self, columns: Set<usize>) -> MergeState {
        MergeState {
            plan: MergeIntoView {
                columns_set: self.plan.columns_set.union(columns),
                ..self.plan
            },
            ..self
        }
    }

    /// Goes on to the next matched clause that needs something of the planner, or to the
    /// unmatched clauses.
    pub open spec fn next_matched(self) -> Result<MergeState, ErrorView>
        decreases self.matched.len() - self.plan.matched_evaluators.len(),
    {
        if self.plan.matched_evaluators.len() < self.matched.len() {
            match matched_start(self.matched_clause()) {
                MatchedState::Bound(evaluator) => self.with_matched(evaluator).next_matched(),
                state => Ok(self.at(StageView::Matched(state))),
            }
        } else {
            self.next_unmatched()
        }
    }

    /// Goes on from an outcome for the matched clause at hand.
    pub open spec fn after_matched(self, outcome: Result<MatchedState, ErrorView>) -> Result<
        MergeState,
        ErrorView,
    > {
        match outcome {
            Err(e) => Err(e),
            Ok(MatchedState::Bound(evaluator)) => self.with_matched(evaluator).next_matched(),
            Ok(state) => Ok(self.at(StageView::Matched(state))),
        }
    }

    /// Goes on from an outcome for the unmatched clause at hand.
    pub open spec fn after_unmatched(self, outcome: Result<UnmatchedState, ErrorView>) -> Result<
        MergeState,
        ErrorView,
    > {
        match outcome {
            Err(e) => Err(e),
            Ok(UnmatchedState::Bound(evaluator)) => self.with_unmatched(evaluator).next_unmatched(),
            Ok(state) => Ok(self.at(StageView::Unmatched(state))),
        }
    }

    /// The state after a reply. An error in the reply ends the statement with that error.
    pub open spec fn step(self, reply: Reply) -> Result<MergeState, ErrorView> {
        match (self.stage, reply) {
            (StageView::Split, Reply::Clauses { matched, unmatched }) => Ok(
                MergeState {
                    matched: matched@,
                    unmatched: unmatched@,
                    stage: StageView::CheckMatched,
                    ..self
                },
            ),
            (StageView::CheckMatched, Reply::Checked(Ok(_))) => Ok(
                self.at(StageView::CheckUnmatched),
            ),
            (StageView::CheckMatched, Reply::Checked(Err(e))) => Err(e@),
            (StageView::CheckUnmatched, Reply::Checked(Ok(_))) => Ok(self.at(StageView::Name)),
            (StageView::CheckUnmatched, Reply::Checked(Err(e))) => Err(e@),
            (StageView::Name, Reply::TableName { catalog, database, table }) => Ok(
                MergeState {
                    plan: MergeIntoView {
                        catalog: catalog@,
                        database: database@,
                        table: table@,
                        ..self.plan
                    },
                    stage: StageView::Table,
                    ..self
                },
            ),
            (StageView::Table, Reply::Table(Ok(table))) => if some_computed(table.schema@.fields) {
                Err(computed_target())
            } else {
                Ok(
                    MergeState {
                        schema: table.schema@,
                        plan: MergeIntoView { table_id: table.id, ..self.plan },
                        stage: StageView::Source,
                        ..self
                    },
                )
            },
            (StageView::Table, Reply::Table(Err(e))) => Err(e@),
            (StageView::Source, Reply::Source(Ok(columns))) => Ok(
                MergeState {
                    plan: MergeIntoView { columns_set: columns@, ..self.plan },
                    stage: StageView::Target,
                    ..self
                },
            ),
            (StageView::Source, Reply::Source(Err(e))) => Err(e@),
            (StageView::Target, Reply::Bound(Ok(_))) => Ok(self.at(StageView::TableIndex)),
            (StageView::Target, Reply::Bound(Err(e))) => Err(e@),
            (StageView::TableIndex, Reply::TableIndex(index)) => Ok(
                MergeState {
                    plan: MergeIntoView { target_table_idx: index, ..self.plan },
                    stage: StageView::RowId,
                    ..self
                },
            ),
            (StageView::RowId, Reply::InternalColumn(Ok(column))) => Ok(
                MergeState { row_id: column, stage: StageView::AttachRowId, ..self },
            ),
            (StageView::RowId, Reply::InternalColumn(Err(e))) => Err(e@),
            (StageView::AttachRowId, Reply::Attached) => Ok(
                MergeState {
                    plan: MergeIntoView {
                        columns_set: self.plan.columns_set.insert(self.row_id),
                        ..self.plan
                    },
                    stage: StageView::Join,
                    ..self
                },
            ),
            (StageView::Join, Reply::Bound(Ok(_))) => Ok(self.at(StageView::JoinCondition)),
            (StageView::Join, Reply::Bound(Err(e))) => Err(e@),
            (StageView::JoinCondition, Reply::Scalar(Ok(scalar))) => Ok(
                self.reading(scalar.columns()).at(StageView::Columns),
            ),
            (StageView::JoinCondition, Reply::Scalar(Err(e))) => Err(e@),
            (StageView::Columns, Reply::Columns(entries)) => if some_update(self.matched) {
                match with_fields(self.plan, self.schema, entries@, self.schema.fields.len()) {
                    Ok(plan) => (MergeState { plan, ..self }).next_matched(),
                    Err(e) => Err(e),
                }
            } else {
                self.next_matched()
            },
            (StageView::Matched(state), Reply::Scalar(r)) => self.reading(
                state.columns_of(r),
            ).after_matched(state.on_scalar(self.matched_clause(), r)),
            (StageView::Matched(state), Reply::Column(r)) => self.after_matched(
                state.on_column(self.matched_clause(), self.schema, r),
            ),
            (StageView::Unmatched(state), Reply::Scalar(r)) => self.reading(
                state.columns_of(r),
            ).after_unmatched(
                if state is Cast {
                    state.on_cast(self.unmatched_clause(), r)
                } else {
                    state.on_scalar(self.unmatched_clause(), self.schema, r)
                },
            ),
            (StageView::Unmatched(state), Reply::Schema(r)) => self.after_unmatched(
                state.on_schema(self.schema, r),
            ),
            (StageView::Unmatched(state), Reply::Type(r)) => self.after_unmatched(
                state.on_type(r),
            ),
            _ => Ok(self),
        }
    }
}

/// Whether an outcome is the one that is stated.
pub open spec fn is_merge_outcome(
    r: Result<MergeIntoBinder, ErrorCode>,
    stated: Result<MergeState, ErrorView>,
) -> bool {
    match (r, stated) {
        (Ok(binder), Ok(state)) => binder@ == state,
        (Err(e), Err(view)) => e@ == view,
        _ => false,
    }
}

/// Begins to bind a statement. `enabled` is the setting that allows `MERGE INTO`; one that
/// cannot be read counts as off.
pub fn bind_merge_into(stmt: MergeIntoStmt, enabled: Result<bool, ErrorCode>) -> (r: Result<
    MergeIntoBinder,
    ErrorCode,
>)
    ensures
        is_merge_outcome(r, merge_start(stmt, enabled)),
        r matches Ok(binder) ==> binder@.wf(),
{
    let on = match enabled {
        Ok(on) => on,
        Err(_) => false,
    };
    if !on {
        return Err(
            ErrorCode::new(
                ErrorKind::Unimplemented,
                "merge into is unstable for now, you can use 'set enable_experimental_merge_into = 1' to set up it",
            ),
        );
    }
    if stmt.merge_options.len() == 0 {
        return Err(
            ErrorCode::new(
                ErrorKind::BadArguments,
                "at least one matched or unmatched clause for merge into",
            ),
        );
    }
    let plan = MergeInto {
        catalog: String::new(),
        database: String::new(),
        table: String::new(),
        table_id: 0,
        columns_set: HashSet::new(),
        matched_evaluators: Vec::new(),
        unmatched_evaluators: Vec::new(),
        target_table_idx: 0,
        field_index_map: HashMap::new(),
    };
    let binder = MergeIntoBinder {
        stmt,
        matched_clauses: Vec::new(),
        unmatched_clauses: Vec::new(),
        schema: TableSchema::empty(),
        row_id: 0,
        plan,
        stage: Stage::Split,
    };
    proof {
        let state = merge_start(stmt, enabled)->Ok_0;
        assert(binder@.plan.matched_evaluators =~= state.plan.matched_evaluators);
        assert(binder@.plan.unmatched_evaluators =~= state.plan.unmatched_evaluators);
        assert(binder@.plan.field_index_map =~= state.plan.field_index_map);
    }
    Ok(binder)
}

/// Where the clauses go on does not depend on the stage before.
proof fn lemma_next_is_stage_free(state: MergeState, stage: StageView)
    ensures
        state.at(stage).next_unmatched() == state.next_unmatched(),
        state.at(stage).next_matched() == state.next_matched(),
    decreases state.matched.len() - state.plan.matched_evaluators.len(),
{
    if state.plan.matched_evaluators.len() < state.matched.len() {
        match matched_start(state.matched_clause()) {
            MatchedState::Bound(evaluator) => {
                lemma_next_is_stage_free(state.with_matched(evaluator), stage);
            },
            _ => {},
        }
    }
}

/// Where the clauses go on does not depend on the stage before.
proof fn lemma_outcome_is_stage_free(state: MergeState, stage: StageView)
    ensures
        forall|outcome: Result<MatchedState, ErrorView>|
            #[trigger] state.at(stage).after_matched(outcome) == state.after_matched(outcome),
        forall|outcome: Result<UnmatchedState, ErrorView>|
            #[trigger] state.at(stage).after_unmatched(outcome) == state.after_unmatched(outcome),
{
    assert forall|outcome: Result<MatchedState, ErrorView>|
        #[trigger] state.at(stage).after_matched(outcome) == state.after_matched(outcome) by {
        if let Ok(MatchedState::Bound(evaluator)) = outcome {
            lemma_next_is_stage_free(state.with_matched(evaluator), stage);
        }
    }
    assert forall|outcome: Result<UnmatchedState, ErrorView>|
        #[trigger] state.at(stage).after_unmatched(outcome) == state.after_unmatched(outcome) by {
        if let Ok(UnmatchedState::Bound(evaluator)) = outcome {
            lemma_next_is_stage_free(state.with_unmatched(evaluator), stage);
        }
    }
}

proof fn lemma_unknown_field_stays(
    plan: MergeIntoView,
    schema: SchemaView,
    entries: Seq<ColumnEntry>,
    n: nat,
    m: nat,
)
    requires
        n <= m,
        with_fields(plan, schema, entries, n) is Err,
    ensures
        with_fields(plan, schema, entries, m) == with_fields(plan, schema, entries, n),
    decreases m,
{
    if n < m {
        lemma_unknown_field_stays(plan, schema, entries, n, (m - 1) as nat);
    }
}

impl MergeInto {
    /// Adds what a statement that updates has to read: the columns of all fields of the target.
    fn read_fields(&mut self, schema: &TableSchema, entries: &Vec<ColumnEntry>) -> (r: Result<
        (),
        ErrorCode,
    >)
        ensures
            match (r, with_fields(old(self)@, schema@, entries@, schema@.fields.len())) {
                (Ok(_), Ok(plan)) => final(self)@ == plan,
                (Err(e), Err(view)) => e@ == view,
                _ => false,
            },
    {
        broadcast use vstd::std_specs::hash::group_hash_axioms;

        let ghost before = self@;
        let mut i: usize = 0;
        while i < schema.fields.len()
            invariant
                before == old(self)@,
                i <= schema.fields.len(),
                with_fields(before, schema@, entries@, i as nat) == Ok::<MergeIntoView, ErrorView>(
                    self@,
                ),
            decreases schema.fields.len() - i,
        {
            let ghost now = self@;
            let index = match find_column_index(entries, &schema.fields[i].name) {
                Ok(index) => index,
                Err(e) => {
                    proof {
                        lemma_unknown_field_stays(
                            before,
                            schema@,
                            entries@,
                            (i + 1) as nat,
                            schema@.fields.len(),
                        );
                    }
                    return Err(e);
                },
            };
            self.columns_set.insert(index);
            self.field_index_map.insert(i, to_decimal(index));
            assert(self@.field_index_map =~= now.field_index_map.insert(i, decimal(index as nat)));
            i += 1;
        }
        Ok(())
    }
}

impl MergeIntoBinder {
    fn go_unmatched(self) -> (r: Result<MergeIntoBinder, ErrorCode>)
        ensures
            is_merge_outcome(r, self@.next_unmatched()),
            r matches Ok(binder) ==> binder@.wf(),
    {
        let mut b = self;
        let next: usize = b.plan.unmatched_evaluators.len();
        if next < b.unmatched_clauses.len() {
            match bind_unmatched_clause(&b.unmatched_clauses[next], &b.schema) {
                Ok(binding) => {
                    b.stage = Stage::Unmatched(binding);
                    Ok(b)
                },
                Err(e) => Err(e),
            }
        } else {
            b.stage = Stage::Finished;
            Ok(b)
        }
    }

    fn go_matched(self) -> (r: Result<MergeIntoBinder, ErrorCode>)
        ensures
            is_merge_outcome(r, self@.next_matched()),
            r matches Ok(binder) ==> binder@.wf(),
    {
        let mut b = self;
        while b.plan.matched_evaluators.len() < b.matched_clauses.len()
            invariant
                b@.next_matched() == self@.next_matched(),
            decreases b.matched_clauses.len() - b.plan.matched_evaluators.len(),
        {
            let ghost before = b@;
            let next: usize = b.plan.matched_evaluators.len();
            match bind_matched_clause(&b.matched_clauses[next]) {
                MatchedBinding::Bound(evaluator) => {
                    b.plan.matched_evaluators.push(evaluator);
                    assert(b@.plan.matched_evaluators =~= before.plan.matched_evaluators.push(
                        evaluator@,
                    ));
                    assert(b@ == before.with_matched(evaluator@));
                },
                binding => {
                    b.stage = Stage::Matched(binding);
                    assert(b@ == before.at(StageView::Matched(binding@)));
                    return Ok(b);
                },
            }
        }
        b.go_unmatched()
    }

    fn settle_matched(self, outcome: Result<MatchedBinding, ErrorCode>) -> (r: Result<
        MergeIntoBinder,
        ErrorCode,
    >)
        requires
            self@.plan.matched_evaluators.len() < self@.matched.len(),
            outcome matches Ok(binding) ==> binding@.wf(self@.matched_clause()),
        ensures
            forall|stated: Result<MatchedState, ErrorView>|
                crate::matched::is_matched_outcome(outcome, stated) ==> is_merge_outcome(
                    r,
                    #[trigger] self@.after_matched(stated),
                ),
            r matches Ok(binder) ==> binder@.wf(),
    {
        match outcome {
            Err(e) => Err(e),
            Ok(MatchedBinding::Bound(evaluator)) => {
                let mut b = self;
                b.plan.matched_evaluators.push(evaluator);
                assert(b@.plan.matched_evaluators =~= self@.plan.matched_evaluators.push(
                    evaluator@,
                ));
                assert(b@ == self@.with_matched(evaluator@));
                b.go_matched()
            },
            Ok(binding) => {
                let mut b = self;
                b.stage = Stage::Matched(binding);
                Ok(b)
            },
        }
    }

    fn settle_unmatched(self, outcome: Result<UnmatchedBinding, ErrorCode>) -> (r: Result<
        MergeIntoBinder,
        ErrorCode,
    >)
        requires
            self@.plan.unmatched_evaluators.len() < self@.unmatched.len(),
            outcome matches Ok(binding) ==> binding@.wf(self@.unmatched_clause()),
        ensures
            forall|stated: Result<UnmatchedState, ErrorView>|
                crate::unmatched::is_unmatched_outcome(outcome, stated) ==> is_merge_outcome(
                    r,
                    #[trigger] self@.after_unmatched(stated),
                ),
            r matches Ok(binder) ==> binder@.wf(),
    {
        match outcome {
            Err(e) => Err(e),
            Ok(UnmatchedBinding::Bound(evaluator)) => {
                let mut b = self;
                b.plan.unmatched_evaluators.push(evaluator);
                assert(b@.plan.unmatched_evaluators =~= self@.plan.unmatched_evaluators.push(
                    evaluator@,
                ));
                assert(b@ == self@.with_unmatched(evaluator@));
                b.go_unmatched()
            },
            Ok(binding) => {
                let mut b = self;
                b.stage = Stage::Unmatched(binding);
                Ok(b)
            },
        }
    }

    /// What the planner has to do next.
    pub fn request<'a>(&'a self) -> (r: Request<'a>)
        requires
            self@.wf(),
        ensures
            r@ == self@.request(),
            r matches Request::BindTarget(target) ==> {
                &&& target.catalog == self@.stmt.catalog
                &&& target.database == self@.stmt.database
                &&& target.table == self@.stmt.table_ident
                &&& target.alias == self@.stmt.alias_target
            },
            r matches Request::BindJoin(join) ==> {
                &&& join.condition == self@.stmt.join_expr
                &&& join.left == self@.stmt.source
                &&& join.right.catalog == self@.stmt.catalog
                &&& join.right.database == self@.stmt.database
                &&& join.right.table == self@.stmt.table_ident
                &&& join.right.alias == self@.stmt.alias_target
            },
    {
        let stmt = &self.stmt;
        let target = TableReference {
            catalog: stmt.catalog,
            database: stmt.database,
            table: stmt.table_ident,
            alias: stmt.alias_target,
        };
        match &self.stage {
            Stage::Split => Request::SplitClauses(&stmt.merge_options),
            Stage::CheckMatched => Request::CheckMatchedClauses(&self.matched_clauses),
            Stage::CheckUnmatched => Request::CheckUnmatchedClauses(&self.unmatched_clauses),
            Stage::Name => Request::NormalizeTableName {
                catalog_ident: stmt.catalog,
                database_ident: stmt.database,
                table_ident: stmt.table_ident,
            },
            Stage::Table => Request::GetTable {
                catalog: &self.plan.catalog,
                database: &self.plan.database,
                table: &self.plan.table,
            },
            Stage::Source => Request::BindSource(stmt.source),
            Stage::Target => Request::BindTarget(target),
            Stage::TableIndex => Request::FindTableIndex {
                database: &self.plan.database,
                table: &self.plan.table,
            },
            Stage::RowId => Request::AddInternalColumn {
                database: &self.plan.database,
                table: &self.plan.table,
                internal_column: InternalColumnType::RowId,
            },
            Stage::AttachRowId => Request::AttachRowId {
                table_index: self.plan.target_table_idx,
                column: self.row_id,
            },
            Stage::Join => Request::BindJoin(
                Join {
                    op: JoinOperator::LeftOuter,
                    condition: stmt.join_expr,
                    left: stmt.source,
                    right: target,
                },
            ),
            Stage::JoinCondition => Request::BindScalar(stmt.join_expr),
            Stage::Columns => Request::ListColumns(self.plan.target_table_idx),
            Stage::Matched(binding) => {
                let next: usize = self.plan.matched_evaluators.len();
                match binding.request(&self.matched_clauses[next]) {
                    MatchedRequest::Scalar(expr) => Request::BindScalar(expr),
                    MatchedRequest::Column(name) => Request::ResolveColumn(name),
                    MatchedRequest::Nothing => Request::Nothing,
                }
            },
            Stage::Unmatched(binding) => {
                let next: usize = self.plan.unmatched_evaluators.len();
                match binding.request(&self.unmatched_clauses[next]) {
                    UnmatchedRequest::Scalar(expr) => Request::BindScalar(expr),
                    UnmatchedRequest::Schema(columns) => Request::ProjectSchema(columns),
                    UnmatchedRequest::Type(scalar) => Request::TypeOf(scalar),
                    UnmatchedRequest::Cast { scalar, from, to } => Request::Cast {
                        scalar,
                        from,
                        to,
                    },
                    UnmatchedRequest::Nothing => Request::Nothing,
                }
            },
            Stage::Finished => Request::Nothing,
        }
    }

    /// Whether a reply is to the request at hand. A resolved column has to be a field of the
    /// table, and a typed value needs a field that it is for.
    pub fn accepts(&self, reply: &Reply) -> (r: bool)
        ensures
            r == self@.accepts(*reply),
    {
        match (&self.stage, reply) {
            (Stage::Split, Reply::Clauses { .. }) => true,
            (Stage::CheckMatched, Reply::Checked(_)) => true,
            (Stage::CheckUnmatched, Reply::Checked(_)) => true,
            (Stage::Name, Reply::TableName { .. }) => true,
            (Stage::Table, Reply::Table(_)) => true,
            (Stage::Source, Reply::Source(_)) => true,
            (Stage::Target, Reply::Bound(_)) => true,
            (Stage::TableIndex, Reply::TableIndex(_)) => true,
            (Stage::RowId, Reply::InternalColumn(_)) => true,
            (Stage::AttachRowId, Reply::Attached) => true,
            (Stage::Join, Reply::Bound(_)) => true,
            (Stage::JoinCondition, Reply::Scalar(_)) => true,
            (Stage::Columns, Reply::Columns(_)) => true,
            (Stage::Matched(MatchedBinding::Condition), Reply::Scalar(_)) => true,
            (Stage::Matched(MatchedBinding::Value { .. }), Reply::Scalar(_)) => true,
            (Stage::Matched(MatchedBinding::Target { .. }), Reply::Column(r)) => match r {
                Ok(target) => target.index < self.schema.fields.len(),
                Err(_) => true,
            },
            (Stage::Unmatched(UnmatchedBinding::Condition), Reply::Scalar(_)) => true,
            (Stage::Unmatched(UnmatchedBinding::Value { .. }), Reply::Scalar(_)) => true,
            (Stage::Unmatched(UnmatchedBinding::Cast { .. }), Reply::Scalar(_)) => true,
            (Stage::Unmatched(UnmatchedBinding::Schema { .. }), Reply::Schema(_)) => true,
            (Stage::Unmatched(UnmatchedBinding::Type { evaluator, .. }), Reply::Type(r)) => match r {
                Ok(_) => evaluator.values.len() < evaluator.source_schema.fields.len(),
                Err(_) => true,
            },
            _ => false,
        }
    }

    /// Takes the reply to the request at hand.
    pub fn resume(self, reply: Reply) -> (r: Result<MergeIntoBinder, ErrorCode>)
        requires
            self@.wf(),
            self@.accepts(reply),
        ensures
            is_merge_outcome(r, self@.step(reply)),
            r matches Ok(binder) ==> binder@.wf(),
    {
        broadcast use vstd::std_specs::hash::group_hash_axioms;

        let mut b = self;
        let mut stage = Stage::Finished;
        std::mem::swap(&mut stage, &mut b.stage);
        match (stage, reply) {
            (Stage::Split, Reply::Clauses { matched, unmatched }) => {
                b.matched_clauses = matched;
                b.unmatched_clauses = unmatched;
                b.stage = Stage::CheckMatched;
                Ok(b)
            },
            (Stage::CheckMatched, Reply::Checked(checked)) => match checked {
                Ok(_) => {
                    b.stage = Stage::CheckUnmatched;
                    Ok(b)
                },
                Err(e) => Err(e),
            },
            (Stage::CheckUnmatched, Reply::Checked(checked)) => match checked {
                Ok(_) => {
                    b.stage = Stage::Name;
                    Ok(b)
                },
                Err(e) => Err(e),
            },
            (Stage::Name, Reply::TableName { catalog, database, table }) => {
                b.plan.catalog = catalog;
                b.plan.database = database;
                b.plan.table = table;
                b.stage = Stage::Table;
                Ok(b)
            },
            (Stage::Table, Reply::Table(found)) => match found {
                Ok(table) => {
                    if table.schema.has_computed_field() {
                        return Err(
                            ErrorCode::new(
                                ErrorKind::Unimplemented,
                                "merge into doesn't support computed expr for now",
                            ),
                        );
                    }
                    b.plan.table_id = table.id;
                    b.schema = table.schema;
                    b.stage = Stage::Source;
                    Ok(b)
                },
                Err(e) => Err(e),
            },
            (Stage::Source, Reply::Source(bound)) => match bound {
                Ok(columns) => {
                    b.plan.columns_set = columns;
                    b.stage = Stage::Target;
                    Ok(b)
                },
                Err(e) => Err(e),
            },
            (Stage::Target, Reply::Bound(bound)) => match bound {
                Ok(_) => {
                    b.stage = Stage::TableIndex;
                    Ok(b)
                },
                Err(e) => Err(e),
            },
            (Stage::TableIndex, Reply::TableIndex(index)) => {
                b.plan.target_table_idx = index;
                b.stage = Stage::RowId;
                Ok(b)
            },
            (Stage::RowId, Reply::InternalColumn(added)) => match added {
                Ok(column) => {
                    b.row_id = column;
                    b.stage = Stage::AttachRowId;
                    Ok(b)
                },
                Err(e) => Err(e),
            },
            (Stage::AttachRowId, Reply::Attached) => {
                b.plan.columns_set.insert(b.row_id);
                b.stage = Stage::Join;
                Ok(b)
            },
            (Stage::Join, Reply::Bound(bound)) => match bound {
                Ok(_) => {
                    b.stage = Stage::JoinCondition;
                    Ok(b)
                },
                Err(e) => Err(e),
            },
            (Stage::JoinCondition, Reply::Scalar(bound)) => match bound {
                Ok(scalar) => {
                    scalar.add_columns(&mut b.plan.columns_set);
                    b.stage = Stage::Columns;
                    Ok(b)
                },
                Err(e) => Err(e),
            },
            (Stage::Columns, Reply::Columns(entries)) => {
                if has_update(&b.matched_clauses) {
                    match b.plan.read_fields(&b.schema, &entries) {
                        Ok(_) => {},
                        Err(e) => {
                            return Err(e);
                        },
                    }
                }
                proof {
                    lemma_next_is_stage_free(b@, StageView::Columns);
                }
                b.go_matched()
            },
            (Stage::Matched(binding), Reply::Scalar(bound)) => {
                let next: usize = b.plan.matched_evaluators.len();
                let outcome = binding.on_scalar(
                    &b.matched_clauses[next],
                    bound,
                    &mut b.plan.columns_set,
                );
                proof {
                    lemma_outcome_is_stage_free(b@, self@.stage);
                }
                b.settle_matched(outcome)
            },
            (Stage::Matched(binding), Reply::Column(resolved)) => {
                let next: usize = b.plan.matched_evaluators.len();
                let outcome = binding.on_column(&b.matched_clauses[next], &b.schema, resolved);
                proof {
                    lemma_outcome_is_stage_free(b@, self@.stage);
                }
                b.settle_matched(outcome)
            },
            (Stage::Unmatched(binding), Reply::Scalar(bound)) => {
                let next: usize = b.plan.unmatched_evaluators.len();
                let outcome = match binding {
                    UnmatchedBinding::Cast { .. } => binding.on_cast(
                        &b.unmatched_clauses[next],
                        bound,
                        &mut b.plan.columns_set,
                    ),
                    _ => binding.on_scalar(
                        &b.unmatched_clauses[next],
                        &b.schema,
                        bound,
                        &mut b.plan.columns_set,
                    ),
                };
                proof {
                    lemma_outcome_is_stage_free(b@, self@.stage);
                }
                b.settle_unmatched(outcome)
            },
            (Stage::Unmatched(binding), Reply::Schema(projected)) => {
                let next: usize = b.plan.unmatched_evaluators.len();
                let outcome = binding.on_schema(&b.unmatched_clauses[next], &b.schema, projected);
                proof {
                    lemma_outcome_is_stage_free(b@, self@.stage);
                }
                b.settle_unmatched(outcome)
            },
            (Stage::Unmatched(binding), Reply::Type(typed)) => {
                let next: usize = b.plan.unmatched_evaluators.len();
                let outcome = binding.on_type(&b.unmatched_clauses[next], typed);
                proof {
                    lemma_outcome_is_stage_free(b@, self@.stage);
                }
                b.settle_unmatched(outcome)
            },
            (stage, _) => {
                b.stage = stage;
                Ok(b)
            },
        }
    }

    /// Whether the statement is bound.
    pub fn is_finished(&self) -> (r: bool)
        ensures
            r == (self@.stage is Finished),
    {
        match &self.stage {
            Stage::Finished => true,
            _ => false,
        }
    }

    /// The plan of a bound statement.
    pub fn finish(self) -> (plan: MergeInto)
        requires
            self@.stage is Finished,
        ensures
            plan@ == self@.plan,
    {
        self.plan
    }
}

} // verus!
