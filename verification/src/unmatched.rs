//! Binding of one `WHEN NOT MATCHED` clause.
//!
//! Binding, typing and casting an expression and projecting a schema is work of the planner
//! around this crate. An [`UnmatchedBinding`] says what comes next, takes the reply and moves
//! on, until the clause's [`UnmatchedEvaluator`] is complete or an error ends the statement.

use vstd::prelude::*;

use crate::error::{ErrorCode, ErrorKind, ErrorView};
use crate::matched::condition_columns;
use crate::scalar::{
    all_columns, law_columns_are_references, lemma_all_columns_push, ColumnSet, DataType,
    ScalarExpr,
};
use crate::schema::{law_same_schema_reflexive, same_schema, SchemaView, TableSchema};
use crate::statement::{NodeId, UnmatchedClause};

verus! {

/// A bound `WHEN NOT MATCHED` clause.
#[derive(Debug)]
pub struct UnmatchedEvaluator {
    /// The fields that the values are for.
    pub source_schema: TableSchema,
    /// The clause's condition; without one, the clause applies to every unmatched row.
    pub condition: Option<ScalarExpr>,
    /// The inserted values, each cast to its field's type.
    pub values: Vec<ScalarExpr>,
}

/// The contents of an [`UnmatchedEvaluator`].
pub ghost struct UnmatchedView {
    pub source_schema: SchemaView,
    pub condition: Option<ScalarExpr>,
    pub values: Seq<ScalarExpr>,
}

impl View for UnmatchedEvaluator {
    type V = UnmatchedView;

    open spec fn view(&self) -> UnmatchedView {
        UnmatchedView {
            source_schema: self.source_schema@,
            condition: self.condition,
            values: self.values@,
        }
    }
}

/// What the planner has to do next for an unmatched clause.
#[derive(Clone, Copy, Debug, PartialEq, Eq)]
pub enum UnmatchedRequest<'a> {
    /// Bind this expression, in the scope of the target table.
    Scalar(NodeId),
    /// Project the table's schema to the fields with these names.
    Schema(&'a Vec<NodeId>),
    /// Determine the type of this expression.
    Type(&'a ScalarExpr),
    /// Wrap this expression into a cast from one type to another.
    Cast { scalar: &'a ScalarExpr, from: &'a DataType, to: &'a DataType },
    /// Nothing: the clause is bound.
    Nothing,
}

/// A `WHEN NOT MATCHED` clause on its way to being bound. The values that are bound and cast
/// so far are in `evaluator`; the next one is the clause's value at `evaluator.values.len()`.
#[derive(Debug)]
pub enum UnmatchedBinding {
    /// Waits for the bound condition.
    Condition,
    /// Waits for the schema of the listed columns.
    Schema { condition: Option<ScalarExpr> },
    /// Waits for the next value, bound.
    Value { evaluator: UnmatchedEvaluator },
    /// Has the next value, bound; waits for its type.
    Type { evaluator: UnmatchedEvaluator, value: ScalarExpr },
    /// Has the next value and its type; waits for the cast value.
    Cast { evaluator: UnmatchedEvaluator, value: ScalarExpr, data_type: DataType },
    /// The clause is bound.
    Bound(UnmatchedEvaluator),
}

/// The contents of an [`UnmatchedBinding`].
pub ghost enum UnmatchedState {
    Condition,
    Schema { condition: Option<ScalarExpr> },
    Value { evaluator: UnmatchedView },
    Type { evaluator: UnmatchedView, value: ScalarExpr },
    Cast { evaluator: UnmatchedView, value: ScalarExpr, data_type: DataType },
    Bound(UnmatchedView),
}

impl View for UnmatchedBinding {
    type V = UnmatchedState;

    open spec fn view(&self) -> UnmatchedState {
        match *self {
            UnmatchedBinding::Condition => UnmatchedState::Condition,
            UnmatchedBinding::Schema { condition } => UnmatchedState::Schema { condition },
            UnmatchedBinding::Value { evaluator } => UnmatchedState::Value {
                evaluator: evaluator@,
            },
            UnmatchedBinding::Type { evaluator, value } => UnmatchedState::Type {
                evaluator: evaluator@,
                value,
            },
            UnmatchedBinding::Cast { evaluator, value, data_type } => UnmatchedState::Cast {
                evaluator: evaluator@,
                value,
                data_type,
            },
            UnmatchedBinding::Bound(evaluator) => UnmatchedState::Bound(evaluator@),
        }
    }
}

/// The error for a clause without values.
pub open spec fn no_values() -> ErrorView {
    ErrorView {
        kind: ErrorKind::SemanticError,
        message: "Values lists must have at least one row"@,
    }
}

/// The error for a column list that is not the table's own.
pub open spec fn schema_mismatch() -> ErrorView {
    ErrorView {
        kind: ErrorKind::BadArguments,
        message: "for now, we need to make sure the input schema same with table schema"@,
    }
}

/// Where binding stands when the condition is settled.
pub open spec fn after_condition(
    clause: UnmatchedClause,
    schema: SchemaView,
    condition: Option<ScalarExpr>,
) -> Result<UnmatchedState, ErrorView> {
    if clause.insert_operation.values@.len() == 0 {
        Err(no_values())
    } else if clause.insert_operation.columns is Some {
        Ok(UnmatchedState::Schema { condition })
    } else {
        Ok(
            UnmatchedState::Value {
                evaluator: UnmatchedView {
                    source_schema: schema,
                    condition,
                    values: Seq::empty(),
                },
            },
        )
    }
}

/// Where binding a clause begins.
pub open spec fn unmatched_start(clause: UnmatchedClause, schema: SchemaView) -> Result<
    UnmatchedState,
    ErrorView,
> {
    if clause.selection is Some {
        Ok(UnmatchedState::Condition)
    } else {
        after_condition(clause, schema, None)
    }
}

impl UnmatchedView {
    /// Whether another value of the clause is still to come.
    pub open spec fn unfinished(self, clause: UnmatchedClause) -> bool {
        self.values.len() < clause.insert_operation.values@.len()
    }
}

impl UnmatchedState {
    /// Whether this state belongs to the clause.
    pub open spec fn wf(self, clause: UnmatchedClause) -> bool {
        match self {
            UnmatchedState::Condition => clause.selection is Some,
            UnmatchedState::Schema { .. } => clause.insert_operation.columns is Some
                && clause.insert_operation.values@.len() > 0,
            UnmatchedState::Value { evaluator } => evaluator.unfinished(clause),
            UnmatchedState::Type { evaluator, .. } => evaluator.unfinished(clause),
            UnmatchedState::Cast { evaluator, .. } => evaluator.unfinished(clause)
                && evaluator.values.len() < evaluator.source_schema.fields.len(),
            UnmatchedState::Bound(_) => true,
        }
    }

    /// Whether a bound expression is awaited.
    pub open spec fn awaits_scalar(self) -> bool {
        self is Condition || self is Value
    }

    /// Whether the awaited type is that of a value for which there is a field.
    pub open spec fn has_field(self) -> bool {
        self matches UnmatchedState::Type { evaluator, .. } && evaluator.values.len()
            < evaluator.source_schema.fields.len()
    }

    /// The state after an expression came back bound, or failed to bind.
    pub open spec fn on_scalar(
        self,
        clause: UnmatchedClause,
        schema: SchemaView,
        reply: Result<ScalarExpr, ErrorCode>,
    ) -> Result<UnmatchedState, ErrorView> {
        match reply {
            Err(e) => Err(e@),
            Ok(scalar) => match self {
                UnmatchedState::Value { evaluator } => Ok(
                    UnmatchedState::Type { evaluator, value: scalar },
                ),
                _ => after_condition(clause, schema, Some(scalar)),
            },
        }
    }

    /// The columns that have to be read on account of a bound expression: those of the
    /// condition. A value counts when it is cast.
    pub open spec fn columns_of(self, reply: Result<ScalarExpr, ErrorCode>) -> Set<usize> {
        match (self, reply) {
            (UnmatchedState::Condition, Ok(scalar)) => scalar.columns(),
            (UnmatchedState::Cast { .. }, Ok(scalar)) => scalar.columns(),
            _ => Set::empty(),
        }
    }

    /// The state after the listed columns were projected.
    pub open spec fn on_schema(
        self,
        schema: SchemaView,
        reply: Result<TableSchema, ErrorCode>,
    ) -> Result<UnmatchedState, ErrorView> {
        match (self, reply) {
            (UnmatchedState::Schema { condition }, Ok(projected)) => if same_schema(
                projected@,
                schema,
            ) {
                Ok(
                    UnmatchedState::Value {
                        evaluator: UnmatchedView {
                            source_schema: projected@,
                            condition,
                            values: Seq::empty(),
                        },
                    },
                )
            } else {
                Err(schema_mismatch())
            },
            (_, Ok(_)) => Ok(self),
            (_, Err(e)) => Err(e@),
        }
    }

    /// The state after a value was typed.
    pub open spec fn on_type(self, reply: Result<DataType, ErrorCode>) -> Result<
        UnmatchedState,
        ErrorView,
    > {
        match (self, reply) {
            (UnmatchedState::Type { evaluator, value }, Ok(data_type)) => Ok(
                UnmatchedState::Cast { evaluator, value, data_type },
            ),
            (_, Ok(_)) => Ok(self),
            (_, Err(e)) => Err(e@),
        }
    }

    /// The state after a value was cast.
    pub open spec fn on_cast(
        self,
        clause: UnmatchedClause,
        reply: Result<ScalarExpr, ErrorCode>,
    ) -> Result<UnmatchedState, ErrorView> {
        match (self, reply) {
            (UnmatchedState::Cast { evaluator, .. }, Ok(scalar)) => {
                let grown = UnmatchedView { values: evaluator.values.push(scalar), ..evaluator };
                if grown.unfinished(clause) {
                    Ok(UnmatchedState::Value { evaluator: grown })
                } else {
                    Ok(UnmatchedState::Bound(grown))
                }
            },
            (_, Ok(_)) => Ok(self),
            (_, Err(e)) => Err(e@),
        }
    }
}

/// Whether an outcome is the one that is stated.
pub open spec fn is_unmatched_outcome(
    r: Result<UnmatchedBinding, ErrorCode>,
    stated: Result<UnmatchedState, ErrorView>,
) -> bool {
    match (r, stated) {
        (Ok(binding), Ok(state)) => binding@ == state,
        (Err(e), Err(view)) => e@ == view,
        _ => false,
    }
}

/// Begins to bind a clause. A clause without values is refused, once its condition is bound.
pub fn bind_unmatched_clause(clause: &UnmatchedClause, table_schema: &TableSchema) -> (r: Result<
    UnmatchedBinding,
    ErrorCode,
>)
    ensures
        is_unmatched_outcome(r, unmatched_start(*clause, table_schema@)),
        r matches Ok(binding) ==> binding@.wf(*clause),
{
    if clause.selection.is_some() {
        Ok(UnmatchedBinding::Condition)
    } else {
        UnmatchedBinding::settle_condition(clause, table_schema, None)
    }
}

impl UnmatchedBinding {
    fn settle_condition(
        clause: &UnmatchedClause,
        table_schema: &TableSchema,
        condition: Option<ScalarExpr>,
    ) -> (r: Result<UnmatchedBinding, ErrorCode>)
        ensures
            is_unmatched_outcome(r, after_condition(*clause, table_schema@, condition)),
            r matches Ok(binding) ==> binding@.wf(*clause),
    {
        if clause.insert_operation.values.len() == 0 {
            return Err(
                ErrorCode::new(ErrorKind::SemanticError, "Values lists must have at least one row"),
            );
        }
        if clause.insert_operation.columns.is_some() {
            Ok(UnmatchedBinding::Schema { condition })
        } else {
            Ok(
                UnmatchedBinding::Value {
                    evaluator: UnmatchedEvaluator {
                        source_schema: table_schema.clone(),
                        condition,
                        values: Vec::new(),
                    },
                },
            )
        }
    }

    /// What the planner has to do next.
    pub fn request<'a>(&'a self, clause: &'a UnmatchedClause) -> (r: UnmatchedRequest<'a>)
        requires
            self@.wf(*clause),
        ensures
            match self@ {
                UnmatchedState::Condition => r == UnmatchedRequest::Scalar(clause.selection->0),
                UnmatchedState::Schema { .. } => r == UnmatchedRequest::Schema(
                    &clause.insert_operation.columns->0,
                ),
                UnmatchedState::Value { evaluator } => r == UnmatchedRequest::Scalar(
                    clause.insert_operation.values@[evaluator.values.len() as int],
                ),
                UnmatchedState::Type { value, .. } => r == UnmatchedRequest::Type(&value),
                UnmatchedState::Cast { evaluator, value, data_type } => r
                    == (UnmatchedRequest::Cast {
                    scalar: &value,
                    from: &data_type,
                    to: &evaluator.source_schema.fields[evaluator.values.len() as int].data_type,
                }),
                UnmatchedState::Bound(_) => r == UnmatchedRequest::Nothing,
            },
    {
        match self {
            UnmatchedBinding::Condition => match clause.selection {
                Some(expr) => UnmatchedRequest::Scalar(expr),
                None => UnmatchedRequest::Nothing,
            },
            UnmatchedBinding::Schema { .. } => match &clause.insert_operation.columns {
                Some(columns) => UnmatchedRequest::Schema(columns),
                None => UnmatchedRequest::Nothing,
            },
            UnmatchedBinding::Value { evaluator } => UnmatchedRequest::Scalar(
                clause.insert_operation.values[evaluator.values.len()],
            ),
            UnmatchedBinding::Type { value, .. } => UnmatchedRequest::Type(value),
            UnmatchedBinding::Cast { evaluator, value, data_type } => UnmatchedRequest::Cast {
                scalar: value,
                from: data_type,
                to: &evaluator.source_schema.fields[evaluator.values.len()].data_type,
            },
            UnmatchedBinding::Bound(_) => UnmatchedRequest::Nothing,
        }
    }

    /// Takes the bound expression that was awaited. The columns of a condition are added to
    /// `columns`.
    pub fn on_scalar(
        self,
        clause: &UnmatchedClause,
        table_schema: &TableSchema,
        reply: Result<ScalarExpr, ErrorCode>,
        columns: &mut ColumnSet,
    ) -> (r: Result<UnmatchedBinding, ErrorCode>)
        requires
            self@.wf(*clause),
            self@.awaits_scalar(),
        ensures
            is_unmatched_outcome(r, self@.on_scalar(*clause, table_schema@, reply)),
            r matches Ok(binding) ==> binding@.wf(*clause),
            final(columns)@ == old(columns)@.union(self@.columns_of(reply)),
    {
        match reply {
            Err(e) => {
                assert(columns@.union(Set::empty()) =~= columns@);
                Err(e)
            },
            Ok(scalar) => match self {
                UnmatchedBinding::Value { evaluator } => {
                    assert(columns@.union(Set::empty()) =~= columns@);
                    Ok(UnmatchedBinding::Type { evaluator, value: scalar })
                },
                _ => {
                    scalar.add_columns(columns);
                    UnmatchedBinding::settle_condition(clause, table_schema, Some(scalar))
                },
            },
        }
    }

    /// Takes the projected schema that was awaited. It has to be the table's own.
    pub fn on_schema(
        self,
        clause: &UnmatchedClause,
        table_schema: &TableSchema,
        reply: Result<TableSchema, ErrorCode>,
    ) -> (r: Result<UnmatchedBinding, ErrorCode>)
        requires
            self@.wf(*clause),
            self@ is Schema,
        ensures
            is_unmatched_outcome(r, self@.on_schema(table_schema@, reply)),
            r matches Ok(binding) ==> binding@.wf(*clause),
    {
        match reply {
            Err(e) => Err(e),
            Ok(projected) => match self {
                UnmatchedBinding::Schema { condition } => {
                    if !projected.same_as(table_schema) {
                        return Err(
                            ErrorCode::new(
                                ErrorKind::BadArguments,
                                "for now, we need to make sure the input schema same with table schema",
                            ),
                        );
                    }
                    Ok(
                        UnmatchedBinding::Value {
                            evaluator: UnmatchedEvaluator {
                                source_schema: projected,
                                condition,
                                values: Vec::new(),
                            },
                        },
                    )
                },
                _ => Ok(self),
            },
        }
    }

    /// Takes the type that was awaited. There has to be a field for the value.
    pub fn on_type(self, clause: &UnmatchedClause, reply: Result<DataType, ErrorCode>) -> (r:
        Result<UnmatchedBinding, ErrorCode>)
        requires
            self@.wf(*clause),
            self@ is Type,
            reply is Ok ==> self@.has_field(),
        ensures
            is_unmatched_outcome(r, self@.on_type(reply)),
            r matches Ok(binding) ==> binding@.wf(*clause),
    {
        match reply {
            Err(e) => Err(e),
            Ok(data_type) => match self {
                UnmatchedBinding::Type { evaluator, value } => Ok(
                    UnmatchedBinding::Cast { evaluator, value, data_type },
                ),
                _ => Ok(self),
            },
        }
    }

    /// Takes the cast value that was awaited. Its columns are added to `columns`.
    pub fn on_cast(
        self,
        clause: &UnmatchedClause,
        reply: Result<ScalarExpr, ErrorCode>,
        columns: &mut ColumnSet,
    ) -> (r: Result<UnmatchedBinding, ErrorCode>)
        requires
            self@.wf(*clause),
            self@ is Cast,
        ensures
            is_unmatched_outcome(r, self@.on_cast(*clause, reply)),
            r matches Ok(binding) ==> binding@.wf(*clause),
            final(columns)@ == old(columns)@.union(self@.columns_of(reply)),
    {
        match reply {
            Err(e) => {
                assert(columns@.union(Set::empty()) =~= columns@);
                Err(e)
            },
            Ok(scalar) => match self {
                UnmatchedBinding::Cast { evaluator, .. } => {
                    scalar.add_columns(columns);
                    let mut evaluator = evaluator;
                    evaluator.values.push(scalar);
                    if evaluator.values.len() < clause.insert_operation.values.len() {
                        Ok(UnmatchedBinding::Value { evaluator })
                    } else {
                        Ok(UnmatchedBinding::Bound(evaluator))
                    }
                },
                _ => Ok(self),
            },
        }
    }
}

impl UnmatchedView {
    /// What holds of a clause whose values are bound in part: it has a condition as the clause
    /// says, its schema agrees with the table's, and each value has a field.
    pub open spec fn partly_sound(self, clause: UnmatchedClause, schema: SchemaView) -> bool {
        &&& self.condition is Some <==> clause.selection is Some
        &&& same_schema(self.source_schema, schema)
        &&& self.values.len() <= schema.fields.len()
    }

    /// What holds of a bound clause: besides, it has all values that the clause lists, and at
    /// least one.
    pub open spec fn sound(self, clause: UnmatchedClause, schema: SchemaView) -> bool {
        &&& self.partly_sound(clause, schema)
        &&& self.values.len() == clause.insert_operation.values@.len()
        &&& self.values.len() > 0
    }

    /// The columns that the bound clause itself has to read.
    pub open spec fn columns(self) -> Set<usize> {
        condition_columns(self.condition).union(all_columns(self.values))
    }
}

impl UnmatchedState {
    /// What holds of a clause on its way to being bound, as far as it is bound.
    pub open spec fn sound(self, clause: UnmatchedClause, schema: SchemaView) -> bool {
        match self {
            UnmatchedState::Condition => true,
            UnmatchedState::Schema { condition } => condition is Some <==> clause.selection is Some,
            UnmatchedState::Value { evaluator } => evaluator.partly_sound(clause, schema),
            UnmatchedState::Type { evaluator, .. } => evaluator.partly_sound(clause, schema),
            UnmatchedState::Cast { evaluator, .. } => evaluator.partly_sound(clause, schema),
            UnmatchedState::Bound(evaluator) => evaluator.sound(clause, schema),
        }
    }

    /// The columns that have to be read for the part that is bound.
    pub open spec fn columns(self) -> Set<usize> {
        match self {
            UnmatchedState::Condition => Set::empty(),
            UnmatchedState::Schema { condition } => condition_columns(condition),
            UnmatchedState::Value { evaluator } => evaluator.columns(),
            UnmatchedState::Type { evaluator, .. } => evaluator.columns(),
            UnmatchedState::Cast { evaluator, .. } => evaluator.columns(),
            UnmatchedState::Bound(evaluator) => evaluator.columns(),
        }
    }
}

/// Binding a clause begins sound, is not done at once, and reads nothing yet.
pub proof fn law_unmatched_start(clause: UnmatchedClause, schema: SchemaView)
    ensures
        unmatched_start(clause, schema) matches Ok(state) ==> state.wf(clause) && state.sound(
            clause,
            schema,
        ) && !(state is Bound) && state.columns() == Set::<usize>::empty(),
{
    law_same_schema_reflexive(schema);
    if let Ok(state) = unmatched_start(clause, schema) {
        assert(state.columns() =~= Set::<usize>::empty());
    }
}

/// A bound expression keeps a clause sound, and what the clause reads grows by the columns
/// that are reported.
pub proof fn law_unmatched_scalar(
    state: UnmatchedState,
    clause: UnmatchedClause,
    schema: SchemaView,
    reply: Result<ScalarExpr, ErrorCode>,
)
    requires
        state.wf(clause),
        state.sound(clause, schema),
        state.awaits_scalar(),
    ensures
        state.on_scalar(clause, schema, reply) matches Ok(next) ==> next.wf(clause) && next.sound(
            clause,
            schema,
        ) && !(next is Bound) && next.columns() == state.columns().union(state.columns_of(reply)),
{
    law_same_schema_reflexive(schema);
    if let Ok(next) = state.on_scalar(clause, schema, reply) {
        assert(next.columns() =~= state.columns().union(state.columns_of(reply)));
    }
}

/// A projected schema keeps a clause sound, and the clause reads no more on its account.
pub proof fn law_unmatched_schema(
    state: UnmatchedState,
    clause: UnmatchedClause,
    schema: SchemaView,
    reply: Result<TableSchema, ErrorCode>,
)
    requires
        state.wf(clause),
        state.sound(clause, schema),
        state is Schema,
    ensures
        state.on_schema(schema, reply) matches Ok(next) ==> next.wf(clause) && next.sound(
            clause,
            schema,
        ) && !(next is Bound) && next.columns() == state.columns(),
{
    if let Ok(next) = state.on_schema(schema, reply) {
        assert(next.columns() =~= state.columns());
    }
}

/// A typed value keeps a clause sound, and the clause reads no more on its account.
pub proof fn law_unmatched_type(
    state: UnmatchedState,
    clause: UnmatchedClause,
    schema: SchemaView,
    reply: Result<DataType, ErrorCode>,
)
    requires
        state.wf(clause),
        state.sound(clause, schema),
        state is Type,
        reply is Ok ==> state.has_field(),
    ensures
        state.on_type(reply) matches Ok(next) ==> next.wf(clause) && next.sound(clause, schema)
            && !(next is Bound) && next.columns() == state.columns(),
{
}

/// A cast value keeps a clause sound, and what the clause reads grows by the value's columns.
pub proof fn law_unmatched_cast(
    state: UnmatchedState,
    clause: UnmatchedClause,
    schema: SchemaView,
    reply: Result<ScalarExpr, ErrorCode>,
)
    requires
        state.wf(clause),
        state.sound(clause, schema),
        state is Cast,
    ensures
        state.on_cast(clause, reply) matches Ok(next) ==> next.wf(clause) && next.sound(
            clause,
            schema,
        ) && next.columns() == state.columns().union(state.columns_of(reply)),
{
    if let (UnmatchedState::Cast { evaluator, .. }, Ok(scalar)) = (state, reply) {
        let next = state.on_cast(clause, reply)->Ok_0;
        lemma_all_columns_push(evaluator.values, scalar);
        assert(next.columns() =~= state.columns().union(scalar.columns()));
    }
}

/// Where binding stands after the first `n` values came back bound, typed and cast.
pub open spec fn insert_all(
    clause: UnmatchedClause,
    schema: SchemaView,
    evaluator: UnmatchedView,
    bound: Seq<ScalarExpr>,
    types: Seq<DataType>,
    casts: Seq<ScalarExpr>,
    n: int,
) -> Result<UnmatchedState, ErrorView>
    decreases n,
{
    if n <= 0 {
        Ok(UnmatchedState::Value { evaluator })
    } else {
        match insert_all(clause, schema, evaluator, bound, types, casts, n - 1) {
            Err(e) => Err(e),
            Ok(state) => match state.on_scalar(clause, schema, Ok(bound[n - 1])) {
                Err(e) => Err(e),
                Ok(state) => match state.on_type(Ok(types[n - 1])) {
                    Err(e) => Err(e),
                    Ok(state) => state.on_cast(clause, Ok(casts[n - 1])),
                },
            },
        }
    }
}

proof fn lemma_insert_some(
    clause: UnmatchedClause,
    schema: SchemaView,
    evaluator: UnmatchedView,
    bound: Seq<ScalarExpr>,
    types: Seq<DataType>,
    casts: Seq<ScalarExpr>,
    n: int,
)
    requires
        evaluator.values.len() == 0,
        casts.len() == clause.insert_operation.values@.len(),
        0 <= n <= casts.len(),
        casts.len() > 0,
    ensures
        ({
            let grown = UnmatchedView { values: casts.take(n), ..evaluator };
            insert_all(clause, schema, evaluator, bound, types, casts, n) == Ok::<
                UnmatchedState,
                ErrorView,
            >(
                if n < casts.len() {
                    UnmatchedState::Value { evaluator: grown }
                } else {
                    UnmatchedState::Bound(grown)
                },
            )
        }),
    decreases n,
{
    if n > 0 {
        lemma_insert_some(clause, schema, evaluator, bound, types, casts, n - 1);
        assert(casts.take(n) == casts.take(n - 1).push(casts[n - 1]));
    } else {
        assert(casts.take(0) == evaluator.values);
    }
}

/// When every value of an insert comes back bound, typed and cast, the clause is bound to
/// exactly the cast values, in the order of the clause.
pub proof fn law_insert_is_all_values(
    clause: UnmatchedClause,
    schema: SchemaView,
    evaluator: UnmatchedView,
    bound: Seq<ScalarExpr>,
    types: Seq<DataType>,
    casts: Seq<ScalarExpr>,
)
    requires
        clause.insert_operation.values@.len() > 0,
        evaluator.values.len() == 0,
        bound.len() == clause.insert_operation.values@.len(),
        types.len() == clause.insert_operation.values@.len(),
        casts.len() == clause.insert_operation.values@.len(),
    ensures
        insert_all(clause, schema, evaluator, bound, types, casts, casts.len() as int) == Ok::<
            UnmatchedState,
            ErrorView,
        >(UnmatchedState::Bound(UnmatchedView { values: casts, ..evaluator })),
{
    lemma_insert_some(clause, schema, evaluator, bound, types, casts, casts.len() as int);
    assert(casts.take(casts.len() as int) == casts);
}

/// The contents of a bound clause are its schema, its condition and its values, in order.
pub proof fn law_unmatched_contents(evaluator: UnmatchedEvaluator)
    ensures
        evaluator@.source_schema == evaluator.source_schema@,
        evaluator@.condition == evaluator.condition,
        evaluator@.values == evaluator.values@,
{
}

/// The contents of a clause on its way tell each of its states, and all that a state holds.
pub proof fn law_unmatched_states(
    condition: Option<ScalarExpr>,
    evaluator: UnmatchedEvaluator,
    value: ScalarExpr,
    data_type: DataType,
)
    ensures
        UnmatchedBinding::Condition@ == UnmatchedState::Condition,
        (UnmatchedBinding::Schema { condition })@ == (UnmatchedState::Schema { condition }),
        (UnmatchedBinding::Value { evaluator })@ == (UnmatchedState::Value {
            evaluator: evaluator@,
        }),
        (UnmatchedBinding::Type { evaluator, value })@ == (UnmatchedState::Type {
            evaluator: evaluator@,
            value,
        }),
        (UnmatchedBinding::Cast { evaluator, value, data_type })@ == (UnmatchedState::Cast {
            evaluator: evaluator@,
            value,
            data_type,
        }),
        UnmatchedBinding::Bound(evaluator)@ == UnmatchedState::Bound(evaluator@),
{
}

/// An outcome is success exactly where success is stated, with the state that is stated, and
/// an error exactly where one is stated, with its kind and message.
pub proof fn law_unmatched_outcome(
    r: Result<UnmatchedBinding, ErrorCode>,
    stated: Result<UnmatchedState, ErrorView>,
)
    ensures
        is_unmatched_outcome(r, stated) <==> {
            &&& r is Ok <==> stated is Ok
            &&& r is Ok ==> r->Ok_0@ == stated->Ok_0
            &&& r is Err ==> r->Err_0.kind == stated->Err_0.kind && r->Err_0.message@
                == stated->Err_0.message
        },
{
}

/// A clause with a condition begins with it, whatever else it holds. One without is refused
/// when it has no values; else it begins with its list of columns, or with its first value and
/// the table's own schema when it has no such list.
pub proof fn law_unmatched_begins_by_parts(clause: UnmatchedClause, schema: SchemaView)
    ensures
        clause.selection is Some ==> unmatched_start(clause, schema) == Ok::<
            UnmatchedState,
            ErrorView,
        >(UnmatchedState::Condition),
        clause.selection is None && clause.insert_operation.values@.len() == 0 ==> unmatched_start(
            clause,
            schema,
        ) == Err::<UnmatchedState, ErrorView>(
            ErrorView {
                kind: ErrorKind::SemanticError,
                message: "Values lists must have at least one row"@,
            },
        ),
        clause.selection is None && clause.insert_operation.values@.len() > 0
            && clause.insert_operation.columns is Some ==> unmatched_start(clause, schema) == Ok::<
            UnmatchedState,
            ErrorView,
        >(UnmatchedState::Schema { condition: None }),
        clause.selection is None && clause.insert_operation.values@.len() > 0
            && clause.insert_operation.columns is None ==> unmatched_start(clause, schema) == Ok::<
            UnmatchedState,
            ErrorView,
        >(
            UnmatchedState::Value {
                evaluator: UnmatchedView {
                    source_schema: schema,
                    condition: None,
                    values: Seq::empty(),
                },
            },
        ),
{
}

/// A bound condition is kept. The clause is then refused when it has no values; else it goes on
/// with its list of columns, or with its first value and the table's own schema when it has no
/// such list.
pub proof fn law_unmatched_condition_is_kept(
    clause: UnmatchedClause,
    schema: SchemaView,
    scalar: ScalarExpr,
)
    ensures
        clause.insert_operation.values@.len() == 0 ==> UnmatchedState::Condition.on_scalar(
            clause,
            schema,
            Ok(scalar),
        ) == Err::<UnmatchedState, ErrorView>(
            ErrorView {
                kind: ErrorKind::SemanticError,
                message: "Values lists must have at least one row"@,
            },
        ),
        clause.insert_operation.values@.len() > 0 && clause.insert_operation.columns is Some
            ==> UnmatchedState::Condition.on_scalar(clause, schema, Ok(scalar)) == Ok::<
            UnmatchedState,
            ErrorView,
        >(UnmatchedState::Schema { condition: Some(scalar) }),
        clause.insert_operation.values@.len() > 0 && clause.insert_operation.columns is None
            ==> UnmatchedState::Condition.on_scalar(clause, schema, Ok(scalar)) == Ok::<
            UnmatchedState,
            ErrorView,
        >(
            UnmatchedState::Value {
                evaluator: UnmatchedView {
                    source_schema: schema,
                    condition: Some(scalar),
                    values: Seq::empty(),
                },
            },
        ),
{
}

/// A projected schema is kept when it agrees with the table's, and refused when it does not.
/// The condition stays.
pub proof fn law_projected_schema_is_kept(
    condition: Option<ScalarExpr>,
    schema: SchemaView,
    projected: TableSchema,
)
    ensures
        same_schema(projected@, schema) ==> (UnmatchedState::Schema { condition }).on_schema(
            schema,
            Ok(projected),
        ) == Ok::<UnmatchedState, ErrorView>(
            UnmatchedState::Value {
                evaluator: UnmatchedView {
                    source_schema: projected@,
                    condition,
                    values: Seq::empty(),
                },
            },
        ),
        !same_schema(projected@, schema) ==> (UnmatchedState::Schema { condition }).on_schema(
            schema,
            Ok(projected),
        ) == Err::<UnmatchedState, ErrorView>(
            ErrorView {
                kind: ErrorKind::BadArguments,
                message:
                    "for now, we need to make sure the input schema same with table schema"@,
            },
        ),
{
}

/// A value is kept while it is typed, and with its type while it is cast. The cast value comes
/// after the values so far, and the clause goes on with the next value, or is bound after the
/// last. Schema and condition stay.
pub proof fn law_value_is_typed_and_cast(
    clause: UnmatchedClause,
    schema: SchemaView,
    evaluator: UnmatchedView,
    value: ScalarExpr,
    data_type: DataType,
    cast: ScalarExpr,
)
    ensures
        (UnmatchedState::Value { evaluator }).on_scalar(clause, schema, Ok(value)) == Ok::<
            UnmatchedState,
            ErrorView,
        >(UnmatchedState::Type { evaluator, value }),
        (UnmatchedState::Type { evaluator, value }).on_type(Ok(data_type)) == Ok::<
            UnmatchedState,
            ErrorView,
        >(UnmatchedState::Cast { evaluator, value, data_type }),
        ({
            let grown = UnmatchedView {
                source_schema: evaluator.source_schema,
                condition: evaluator.condition,
                values: evaluator.values.push(cast),
            };
            (UnmatchedState::Cast { evaluator, value, data_type }).on_cast(clause, Ok(cast))
                == Ok::<UnmatchedState, ErrorView>(
                if evaluator.values.len() + 1 < clause.insert_operation.values@.len() {
                    UnmatchedState::Value { evaluator: grown }
                } else {
                    UnmatchedState::Bound(grown)
                },
            )
        }),
{
}

/// A failed reply ends the clause with the error's own kind and message.
pub proof fn law_unmatched_failure(
    state: UnmatchedState,
    clause: UnmatchedClause,
    schema: SchemaView,
    e: ErrorCode,
)
    ensures
        state.on_scalar(clause, schema, Err(e)) matches Err(view) && view.kind == e.kind
            && view.message == e.message@,
        state.on_schema(schema, Err(e)) matches Err(view) && view.kind == e.kind && view.message
            == e.message@,
        state.on_type(Err(e)) matches Err(view) && view.kind == e.kind && view.message
            == e.message@,
        state.on_cast(clause, Err(e)) matches Err(view) && view.kind == e.kind && view.message
            == e.message@,
{
}

/// Columns have to be read on account of a bound expression exactly when it is the condition or
/// a cast value: then those that some place of its references holds. A value before it is cast
/// adds none.
pub proof fn law_condition_and_casts_are_read(
    state: UnmatchedState,
    reply: Result<ScalarExpr, ErrorCode>,
    c: usize,
)
    ensures
        state.columns_of(reply).contains(c) <==> ((state is Condition || state is Cast) && (
        reply matches Ok(scalar) && exists|i: int|
            0 <= i < scalar.column_refs@.len() && #[trigger] scalar.column_refs@[i] == c)),
{
    if let Ok(scalar) = reply {
        law_columns_are_references(scalar, c);
    }
}

/// A clause awaits an expression that is bound exactly for its condition and for a value, and a
/// typed value has a field exactly when the schema has more fields than there are values so
/// far. It can be at its condition exactly when it has one, and at a value exactly when it
/// lists that one.
pub proof fn law_unmatched_states_belong(
    clause: UnmatchedClause,
    condition: Option<ScalarExpr>,
    evaluator: UnmatchedView,
    value: ScalarExpr,
    data_type: DataType,
)
    ensures
        UnmatchedState::Condition.awaits_scalar(),
        (UnmatchedState::Value { evaluator }).awaits_scalar(),
        !(UnmatchedState::Schema { condition }).awaits_scalar(),
        !(UnmatchedState::Type { evaluator, value }).awaits_scalar(),
        !(UnmatchedState::Cast { evaluator, value, data_type }).awaits_scalar(),
        !UnmatchedState::Bound(evaluator).awaits_scalar(),
        (UnmatchedState::Type { evaluator, value }).has_field() <==> evaluator.values.len()
            < evaluator.source_schema.fields.len(),
        UnmatchedState::Condition.wf(clause) <==> clause.selection is Some,
        (UnmatchedState::Schema { condition }).wf(clause) <==> clause.insert_operation.columns
            is Some && clause.insert_operation.values@.len() > 0,
        (UnmatchedState::Value { evaluator }).wf(clause) <==> evaluator.values.len()
            < clause.insert_operation.values@.len(),
        (UnmatchedState::Type { evaluator, value }).wf(clause) <==> evaluator.values.len()
            < clause.insert_operation.values@.len(),
        (UnmatchedState::Cast { evaluator, value, data_type }).wf(clause) <==> (
        evaluator.values.len() < clause.insert_operation.values@.len() && evaluator.values.len()
            < evaluator.source_schema.fields.len()),
        UnmatchedState::Bound(evaluator).wf(clause),
{
}

} // verus!
