//! Binding of one `WHEN MATCHED` clause.
//!
//! Binding an expression and resolving a column name is work of the planner around this
//! crate. A [`MatchedBinding`] says which of the two comes next, takes the reply and moves
//! on, until the clause's [`MatchedEvaluator`] is complete or an error ends the statement.

use std::collections::HashMap;

use vstd::prelude::*;

use crate::error::{ErrorCode, ErrorKind, ErrorView};
use crate::scalar::{law_columns_are_references, ColumnSet, ScalarExpr};
use crate::schema::{SchemaView, TableSchema};
use crate::statement::{MatchOperation, MatchedClause, MergeUpdateExpr, NodeId};
use crate::text::enclose;

verus! {

/// A bound `WHEN MATCHED` clause.
#[derive(Debug)]
pub struct MatchedEvaluator {
    /// The clause's condition; without one, the clause applies to every matched row.
    pub condition: Option<ScalarExpr>,
    /// The new value of each updated field, by the field's place in the table; nothing for a
    /// clause that deletes.
    pub update: Option<HashMap<usize, ScalarExpr>>,
}

/// The contents of a [`MatchedEvaluator`].
pub ghost struct MatchedView {
    pub condition: Option<ScalarExpr>,
    pub update: Option<Map<usize, ScalarExpr>>,
}

impl View for MatchedEvaluator {
    type V = MatchedView;

    open spec fn view(&self) -> MatchedView {
        MatchedView {
            condition: self.condition,
            update: match self.update {
                Some(update) => Some(update@),
                None => None,
            },
        }
    }
}

/// The target of an assignment: the normalized name, and the field it names by its place in
/// the table.
#[derive(Clone, Debug, PartialEq, Eq)]
pub struct ColumnTarget {
    pub name: String,
    pub index: usize,
}

/// What the planner has to do next for a matched clause.
#[derive(Clone, Copy, Debug, PartialEq, Eq)]
pub enum MatchedRequest {
    /// Bind this expression, in the scope of the target table.
    Scalar(NodeId),
    /// Normalize this name and look it up in the table's schema.
    Column(NodeId),
    /// Nothing: the clause is bound.
    Nothing,
}

/// A `WHEN MATCHED` clause on its way to being bound.
#[derive(Debug)]
pub enum MatchedBinding {
    /// Waits for the bound condition.
    Condition,
    /// Waits for the bound value of the assignment at `next`.
    Value {
        condition: Option<ScalarExpr>,
        update: HashMap<usize, ScalarExpr>,
        next: usize,
    },
    /// Has the value of the assignment at `next`; waits for its target.
    Target {
        condition: Option<ScalarExpr>,
        update: HashMap<usize, ScalarExpr>,
        next: usize,
        value: ScalarExpr,
    },
    /// The clause is bound.
    Bound(MatchedEvaluator),
}

/// The contents of a [`MatchedBinding`].
pub ghost enum MatchedState {
    Condition,
    Value { condition: Option<ScalarExpr>, update: Map<usize, ScalarExpr>, next: int },
    Target {
        condition: Option<ScalarExpr>,
        update: Map<usize, ScalarExpr>,
        next: int,
        value: ScalarExpr,
    },
    Bound(MatchedView),
}

impl View for MatchedBinding {
    type V = MatchedState;

    open spec fn view(&self) -> MatchedState {
        match *self {
            MatchedBinding::Condition => MatchedState::Condition,
            MatchedBinding::Value { condition, update, next } => MatchedState::Value {
                condition,
                update: update@,
                next: next as int,
            },
            MatchedBinding::Target { condition, update, next, value } => MatchedState::Target {
                condition,
                update: update@,
                next: next as int,
                value,
            },
            MatchedBinding::Bound(evaluator) => MatchedState::Bound(evaluator@),
        }
    }
}

/// The error for a second assignment to a column.
pub open spec fn multiple_assignments(name: Seq<char>) -> ErrorView {
    ErrorView {
        kind: ErrorKind::BadArguments,
        message: "Multiple assignments in the single statement to column `"@ + name + "`"@,
    }
}

/// The error for an assignment to a computed column.
pub open spec fn computed_column(name: Seq<char>) -> ErrorView {
    ErrorView {
        kind: ErrorKind::BadArguments,
        message: "The value specified for computed column '"@ + name + "' is not allowed"@,
    }
}

/// The error for an assigned subquery.
pub open spec fn subquery_update() -> ErrorView {
    ErrorView {
        kind: ErrorKind::Internal,
        message: "update_list in update clause does not support subquery temporarily"@,
    }
}

/// Where binding stands when the first `next` assignments are done.
pub open spec fn next_update(
    clause: MatchedClause,
    condition: Option<ScalarExpr>,
    update: Map<usize, ScalarExpr>,
    next: int,
) -> MatchedState {
    if next < clause.updates().len() {
        MatchedState::Value { condition, update, next }
    } else {
        MatchedState::Bound(MatchedView { condition, update: Some(update) })
    }
}

/// Where binding stands when the condition is settled.
pub open spec fn after_condition(
    clause: MatchedClause,
    condition: Option<ScalarExpr>,
) -> MatchedState {
    match clause.operation {
        MatchOperation::Update { .. } => next_update(clause, condition, Map::empty(), 0),
        MatchOperation::Delete => MatchedState::Bound(MatchedView { condition, update: None }),
    }
}

/// Where binding a clause begins.
pub open spec fn matched_start(clause: MatchedClause) -> MatchedState {
    if clause.selection is Some {
        MatchedState::Condition
    } else {
        after_condition(clause, None)
    }
}

impl MatchedState {
    /// Whether this state belongs to the clause.
    pub open spec fn wf(self, clause: MatchedClause) -> bool {
        match self {
            MatchedState::Condition => clause.selection is Some,
            MatchedState::Value { next, .. } => clause.operation is Update && 0 <= next
                < clause.updates().len(),
            MatchedState::Target { next, .. } => clause.operation is Update && 0 <= next
                < clause.updates().len(),
            MatchedState::Bound(_) => true,
        }
    }

    /// What comes next.
    pub open spec fn request(self, clause: MatchedClause) -> MatchedRequest {
        match self {
            MatchedState::Condition => MatchedRequest::Scalar(clause.selection->0),
            MatchedState::Value { next, .. } => MatchedRequest::Scalar(clause.updates()[next].expr),
            MatchedState::Target { next, .. } => MatchedRequest::Column(
                clause.updates()[next].name,
            ),
            MatchedState::Bound(_) => MatchedRequest::Nothing,
        }
    }

    /// Whether a bound expression is awaited.
    pub open spec fn awaits_scalar(self) -> bool {
        self is Condition || self is Value
    }

    /// The state after an expression came back bound, or failed to bind.
    pub open spec fn on_scalar(
        self,
        clause: MatchedClause,
        reply: Result<ScalarExpr, ErrorCode>,
    ) -> Result<MatchedState, ErrorView> {
        match reply {
            Err(e) => Err(e@),
            Ok(scalar) => Ok(
                match self {
                    MatchedState::Value { condition, update, next } => MatchedState::Target {
                        condition,
                        update,
                        next,
                        value: scalar,
                    },
                    _ => after_condition(clause, Some(scalar)),
                },
            ),
        }
    }

    /// The columns that have to be read on account of a bound expression: those of the
    /// condition, but none of an assigned value.
    pub open spec fn columns_of(self, reply: Result<ScalarExpr, ErrorCode>) -> Set<usize> {
        match (self, reply) {
            (MatchedState::Condition, Ok(scalar)) => scalar.columns(),
            _ => Set::empty(),
        }
    }

    /// The state after the awaited name was looked up.
    pub open spec fn on_column(
        self,
        clause: MatchedClause,
        schema: SchemaView,
        reply: Result<ColumnTarget, ErrorCode>,
    ) -> Result<MatchedState, ErrorView> {
        match (self, reply) {
            (MatchedState::Target { condition, update, next, value }, Ok(target)) => {
                let field = schema.fields[target.index as int];
                if update.contains_key(target.index) {
                    Err(multiple_assignments(target.name@))
                } else if field.computed_expr is Some {
                    Err(computed_column(field.name@))
                } else if value.is_subquery {
                    Err(subquery_update())
                } else {
                    Ok(next_update(clause, condition, update.insert(target.index, value), next + 1))
                }
            },
            (_, Ok(_)) => Ok(self),
            (_, Err(e)) => Err(e@),
        }
    }
}

/// Whether an outcome is the one that is stated.
pub open spec fn is_matched_outcome(
    r: Result<MatchedBinding, ErrorCode>,
    stated: Result<MatchedState, ErrorView>,
) -> bool {
    match (r, stated) {
        (Ok(binding), Ok(state)) => binding@ == state,
        (Err(e), Err(view)) => e@ == view,
        _ => false,
    }
}

/// Begins to bind a clause.
pub fn bind_matched_clause(clause: &MatchedClause) -> (r: MatchedBinding)
    ensures
        r@ == matched_start(*clause),
        r@.wf(*clause),
{
    if clause.selection.is_some() {
        MatchedBinding::Condition
    } else {
        MatchedBinding::settle_condition(clause, None)
    }
}

impl MatchedBinding {
    fn settle_condition(clause: &MatchedClause, condition: Option<ScalarExpr>) -> (r: Self)
        ensures
            r@ == after_condition(*clause, condition),
            r@.wf(*clause),
    {
        match &clause.operation {
            MatchOperation::Update { update_list } => {
                let update: HashMap<usize, ScalarExpr> = HashMap::new();
                if update_list.len() > 0 {
                    MatchedBinding::Value { condition, update, next: 0 }
                } else {
                    MatchedBinding::Bound(MatchedEvaluator { condition, update: Some(update) })
                }
            },
            MatchOperation::Delete => MatchedBinding::Bound(
                MatchedEvaluator { condition, update: None },
            ),
        }
    }

    /// What the planner has to do next.
    pub fn request(&self, clause: &MatchedClause) -> (r: MatchedRequest)
        requires
            self@.wf(*clause),
        ensures
            r == self@.request(*clause),
    {
        match self {
            MatchedBinding::Condition => match clause.selection {
                Some(expr) => MatchedRequest::Scalar(expr),
                None => MatchedRequest::Nothing,
            },
            MatchedBinding::Value { next, .. } => match &clause.operation {
                MatchOperation::Update { update_list } => MatchedRequest::Scalar(
                    update_list[*next].expr,
                ),
                MatchOperation::Delete => MatchedRequest::Nothing,
            },
            MatchedBinding::Target { next, .. } => match &clause.operation {
                MatchOperation::Update { update_list } => MatchedRequest::Column(
                    update_list[*next].name,
                ),
                MatchOperation::Delete => MatchedRequest::Nothing,
            },
            MatchedBinding::Bound(_) => MatchedRequest::Nothing,
        }
    }

    /// Takes the bound expression that was awaited. The columns of a condition are added to
    /// `columns`.
    pub fn on_scalar(
        self,
        clause: &MatchedClause,
        reply: Result<ScalarExpr, ErrorCode>,
        columns: &mut ColumnSet,
    ) -> (r: Result<MatchedBinding, ErrorCode>)
        requires
            self@.wf(*clause),
            self@.awaits_scalar(),
        ensures
            is_matched_outcome(r, self@.on_scalar(*clause, reply)),
            r matches Ok(binding) ==> binding@.wf(*clause),
            final(columns)@ == old(columns)@.union(self@.columns_of(reply)),
    {
        match reply {
            Err(e) => {
                assert(columns@.union(Set::empty()) =~= columns@);
                Err(e)
            },
            Ok(scalar) => match self {
                MatchedBinding::Value { condition, update, next } => {
                    assert(columns@.union(Set::empty()) =~= columns@);
                    Ok(MatchedBinding::Target { condition, update, next, value: scalar })
                },
                _ => {
                    scalar.add_columns(columns);
                    Ok(MatchedBinding::settle_condition(clause, Some(scalar)))
                },
            },
        }
    }

    /// Takes the target that was awaited. A column that is assigned already, a computed column
    /// and a value that is a subquery are refused, in this order.
    pub fn on_column(
        self,
        clause: &MatchedClause,
        schema: &TableSchema,
        reply: Result<ColumnTarget, ErrorCode>,
    ) -> (r: Result<MatchedBinding, ErrorCode>)
        requires
            self@.wf(*clause),
            self@ is Target,
            reply matches Ok(target) ==> target.index < schema.fields.len(),
        ensures
            is_matched_outcome(r, self@.on_column(*clause, schema@, reply)),
            r matches Ok(binding) ==> binding@.wf(*clause),
    {
        broadcast use vstd::std_specs::hash::group_hash_axioms;

        match reply {
            Err(e) => Err(e),
            Ok(target) => match self {
                MatchedBinding::Target { condition, update, next, value } => {
                    if update.contains_key(&target.index) {
                        return Err(
                            ErrorCode {
                                kind: ErrorKind::BadArguments,
                                message: enclose(
                                    "Multiple assignments in the single statement to column `",
                                    &target.name,
                                    "`",
                                ),
                            },
                        );
                    }
                    let field = &schema.fields[target.index];
                    if field.computed_expr.is_some() {
                        return Err(
                            ErrorCode {
                                kind: ErrorKind::BadArguments,
                                message: enclose(
                                    "The value specified for computed column '",
                                    &field.name,
                                    "' is not allowed",
                                ),
                            },
                        );
                    }
                    if value.is_subquery {
                        return Err(
                            ErrorCode::new(
                                ErrorKind::Internal,
                                "update_list in update clause does not support subquery temporarily",
                            ),
                        );
                    }
                    let mut update = update;
                    update.insert(target.index, value);
                    let count: usize = match &clause.operation {
                        MatchOperation::Update { update_list } => update_list.len(),
                        MatchOperation::Delete => 0,
                    };
                    if next + 1 < count {
                        Ok(MatchedBinding::Value { condition, update, next: next + 1 })
                    } else {
                        Ok(
                            MatchedBinding::Bound(
                                MatchedEvaluator { condition, update: Some(update) },
                            ),
                        )
                    }
                },
                _ => Ok(self),
            },
        }
    }
}

impl MatchedView {
    /// What holds of a bound clause: it has a condition and updates as the clause says, and
    /// as many fields are updated as there are assignments. No updated field is computed, and
    /// no new value is a subquery.
    pub open spec fn sound(self, clause: MatchedClause, schema: SchemaView) -> bool {
        &&& self.condition is Some <==> clause.selection is Some
        &&& self.update is Some <==> clause.operation is Update
        &&& self.update matches Some(update) ==> assigns(update, clause.updates().len(), schema)
    }

    /// The columns that the bound clause itself has to read.
    pub open spec fn columns(self) -> Set<usize> {
        condition_columns(self.condition)
    }
}

/// The columns of an optional condition.
pub open spec fn condition_columns(condition: Option<ScalarExpr>) -> Set<usize> {
    match condition {
        Some(scalar) => scalar.columns(),
        None => Set::empty(),
    }
}

/// Whether an update assigns to `count` fields, none computed, values that are no subqueries.
pub open spec fn assigns(update: Map<usize, ScalarExpr>, count: nat, schema: SchemaView) -> bool {
    &&& update.dom().finite()
    &&& update.dom().len() == count
    &&& forall|k: usize| #[trigger]
        update.contains_key(k) ==> k < schema.fields.len() && schema.fields[k as int].computed_expr
            is None && !update[k].is_subquery
}

impl MatchedState {
    /// What holds of a clause on its way to being bound, as far as it is bound.
    pub open spec fn sound(self, clause: MatchedClause, schema: SchemaView) -> bool {
        match self {
            MatchedState::Condition => true,
            MatchedState::Value { condition, update, next } => (condition is Some
                <==> clause.selection is Some) && assigns(update, next as nat, schema),
            MatchedState::Target { condition, update, next, .. } => (condition is Some
                <==> clause.selection is Some) && assigns(update, next as nat, schema),
            MatchedState::Bound(evaluator) => evaluator.sound(clause, schema),
        }
    }

    /// The columns that have to be read for the part that is bound.
    pub open spec fn columns(self) -> Set<usize> {
        match self {
            MatchedState::Condition => Set::empty(),
            MatchedState::Value { condition, .. } => condition_columns(condition),
            MatchedState::Target { condition, .. } => condition_columns(condition),
            MatchedState::Bound(evaluator) => evaluator.columns(),
        }
    }
}

/// Binding a clause begins sound, and reads nothing yet.
pub proof fn law_matched_start(clause: MatchedClause, schema: SchemaView)
    ensures
        matched_start(clause).wf(clause),
        matched_start(clause).sound(clause, schema),
        matched_start(clause).columns() == Set::<usize>::empty(),
{
}

/// A bound expression keeps a clause sound, and what the clause reads grows by the columns
/// that are reported.
pub proof fn law_matched_scalar(
    state: MatchedState,
    clause: MatchedClause,
    schema: SchemaView,
    reply: Result<ScalarExpr, ErrorCode>,
)
    requires
        state.wf(clause),
        state.sound(clause, schema),
        state.awaits_scalar(),
    ensures
        state.on_scalar(clause, reply) matches Ok(next) ==> next.wf(clause) && next.sound(
            clause,
            schema,
        ) && next.columns() == state.columns().union(state.columns_of(reply)),
{
    if let Ok(next) = state.on_scalar(clause, reply) {
        assert(next.columns() =~= state.columns().union(state.columns_of(reply)));
    }
}

/// A resolved target keeps a clause sound, and the clause reads no more on its account.
pub proof fn law_matched_column(
    state: MatchedState,
    clause: MatchedClause,
    schema: SchemaView,
    reply: Result<ColumnTarget, ErrorCode>,
)
    requires
        state.wf(clause),
        state.sound(clause, schema),
        state is Target,
        reply matches Ok(target) ==> target.index < schema.fields.len(),
    ensures
        state.on_column(clause, schema, reply) matches Ok(next) ==> next.wf(clause) && next.sound(
            clause,
            schema,
        ) && next.columns() == state.columns(),
{
    if let (MatchedState::Target { update, value, .. }, Ok(target)) = (state, reply) {
        let grown = update.insert(target.index, value);
        assert(grown.dom() =~= update.dom().insert(target.index));
    }
}

/// Why the assignment at `i` is refused, if it is: the column is assigned to by an earlier
/// one, or is computed, or the value is a subquery.
pub open spec fn refusal(
    schema: SchemaView,
    values: Seq<ScalarExpr>,
    targets: Seq<ColumnTarget>,
    i: int,
) -> Option<ErrorView> {
    let field = schema.fields[targets[i].index as int];
    if exists|j: int| 0 <= j < i && (#[trigger] targets[j]).index == targets[i].index {
        Some(multiple_assignments(targets[i].name@))
    } else if field.computed_expr is Some {
        Some(computed_column(field.name@))
    } else if values[i].is_subquery {
        Some(subquery_update())
    } else {
        None
    }
}

/// Where binding stands after the first `n` assignments came back bound and resolved.
pub open spec fn assign_all(
    clause: MatchedClause,
    schema: SchemaView,
    condition: Option<ScalarExpr>,
    values: Seq<ScalarExpr>,
    targets: Seq<ColumnTarget>,
    n: int,
) -> Result<MatchedState, ErrorView>
    decreases n,
{
    if n <= 0 {
        Ok(after_condition(clause, condition))
    } else {
        match assign_all(clause, schema, condition, values, targets, n - 1) {
            Err(e) => Err(e),
            Ok(state) => match state.on_scalar(clause, Ok(values[n - 1])) {
                Err(e) => Err(e),
                Ok(state) => state.on_column(clause, schema, Ok(targets[n - 1])),
            },
        }
    }
}

/// The fields that the first `n` assignments set, and to what.
pub open spec fn assigned(
    values: Seq<ScalarExpr>,
    targets: Seq<ColumnTarget>,
    n: int,
) -> Map<usize, ScalarExpr>
    decreases n,
{
    if n <= 0 {
        Map::empty()
    } else {
        assigned(values, targets, n - 1).insert(targets[n - 1].index, values[n - 1])
    }
}

proof fn lemma_assigned_fields(values: Seq<ScalarExpr>, targets: Seq<ColumnTarget>, n: int)
    requires
        0 <= n <= targets.len(),
    ensures
        forall|k: usize| #[trigger]
            assigned(values, targets, n).contains_key(k) <==> exists|j: int|
                0 <= j < n && (#[trigger] targets[j]).index == k,
    decreases n,
{
    if n > 0 {
        lemma_assigned_fields(values, targets, n - 1);
        assert forall|k: usize| #[trigger]
            assigned(values, targets, n).contains_key(k) <==> exists|j: int|
                0 <= j < n && (#[trigger] targets[j]).index == k by {
            let before = assigned(values, targets, n - 1);
            if k == targets[n - 1].index {
                assert(assigned(values, targets, n).contains_key(k));
            } else if before.contains_key(k) {
                let j = choose|j: int| 0 <= j < n - 1 && (#[trigger] targets[j]).index == k;
                assert(targets[j].index == k);
            } else if exists|j: int| 0 <= j < n && (#[trigger] targets[j]).index == k {
                let j = choose|j: int| 0 <= j < n && (#[trigger] targets[j]).index == k;
                assert(j < n - 1);
            }
        }
    }
}

proof fn lemma_assign_some(
    clause: MatchedClause,
    schema: SchemaView,
    condition: Option<ScalarExpr>,
    values: Seq<ScalarExpr>,
    targets: Seq<ColumnTarget>,
    n: int,
)
    requires
        clause.operation is Update,
        values.len() == clause.updates().len(),
        targets.len() == clause.updates().len(),
        0 <= n <= clause.updates().len(),
        forall|i: int| 0 <= i < n ==> refusal(schema, values, targets, i) is None,
    ensures
        assign_all(clause, schema, condition, values, targets, n) == Ok::<MatchedState, ErrorView>(
            next_update(clause, condition, assigned(values, targets, n), n),
        ),
    decreases n,
{
    if n > 0 {
        lemma_assign_some(clause, schema, condition, values, targets, n - 1);
        lemma_assigned_fields(values, targets, n - 1);
        assert(refusal(schema, values, targets, n - 1) is None);
    }
}

proof fn lemma_refusal_stays(
    clause: MatchedClause,
    schema: SchemaView,
    condition: Option<ScalarExpr>,
    values: Seq<ScalarExpr>,
    targets: Seq<ColumnTarget>,
    n: int,
    m: int,
)
    requires
        n <= m,
        assign_all(clause, schema, condition, values, targets, n) is Err,
    ensures
        assign_all(clause, schema, condition, values, targets, m) == assign_all(
            clause,
            schema,
            condition,
            values,
            targets,
            n,
        ),
    decreases m - n,
{
    if n < m {
        lemma_refusal_stays(clause, schema, condition, values, targets, n, m - 1);
    }
}

/// When every assignment of an update comes back bound and resolved, the clause is bound to
/// exactly these assignments, unless one is refused. The first one that is refused decides
/// the error.
pub proof fn law_update_is_all_assignments(
    clause: MatchedClause,
    schema: SchemaView,
    condition: Option<ScalarExpr>,
    values: Seq<ScalarExpr>,
    targets: Seq<ColumnTarget>,
)
    requires
        clause.operation is Update,
        values.len() == clause.updates().len(),
        targets.len() == clause.updates().len(),
    ensures
        ({
            let n = clause.updates().len() as int;
            let outcome = assign_all(clause, schema, condition, values, targets, n);
            &&& (forall|i: int| 0 <= i < n ==> refusal(schema, values, targets, i) is None) ==> {
                &&& outcome == Ok::<MatchedState, ErrorView>(
                    MatchedState::Bound(
                        MatchedView {
                            condition,
                            update: Some(assigned(values, targets, n)),
                        },
                    ),
                )
                &&& forall|i: int|
                    0 <= i < n ==> assigned(values, targets, n).contains_key(
                        (#[trigger] targets[i]).index,
                    ) && assigned(values, targets, n)[targets[i].index] == values[i]
            }
            &&& forall|i: int|
                0 <= i < n && (#[trigger] refusal(schema, values, targets, i)) is Some && (forall|
                    j: int,
                |
                    0 <= j < i ==> refusal(schema, values, targets, j) is None) ==> outcome == Err::<
                    MatchedState,
                    ErrorView,
                >(refusal(schema, values, targets, i)->0)
        }),
{
    let n = clause.updates().len() as int;
    if forall|i: int| 0 <= i < n ==> refusal(schema, values, targets, i) is None {
        lemma_assign_some(clause, schema, condition, values, targets, n);
        assert forall|i: int| 0 <= i < n implies assigned(values, targets, n).contains_key(
            (#[trigger] targets[i]).index,
        ) && assigned(values, targets, n)[targets[i].index] == values[i] by {
            lemma_assigned_value(schema, values, targets, i, n);
        }
    }
    assert forall|i: int|
        0 <= i < n && (#[trigger] refusal(schema, values, targets, i)) is Some && (forall|j: int|
            0 <= j < i ==> refusal(schema, values, targets, j) is None) implies assign_all(
        clause,
        schema,
        condition,
        values,
        targets,
        n,
    ) == Err::<MatchedState, ErrorView>(refusal(schema, values, targets, i)->0) by {
        lemma_assign_some(clause, schema, condition, values, targets, i);
        lemma_assigned_fields(values, targets, i);
        lemma_refusal_stays(clause, schema, condition, values, targets, i + 1, n);
    }
}

proof fn lemma_assigned_value(
    schema: SchemaView,
    values: Seq<ScalarExpr>,
    targets: Seq<ColumnTarget>,
    i: int,
    n: int,
)
    requires
        0 <= i < n <= targets.len(),
        forall|k: int| 0 <= k < n ==> refusal(schema, values, targets, k) is None,
    ensures
        assigned(values, targets, n).contains_key(targets[i].index),
        assigned(values, targets, n)[targets[i].index] == values[i],
    decreases n,
{
    if i < n - 1 {
        lemma_assigned_value(schema, values, targets, i, n - 1);
        assert(refusal(schema, values, targets, n - 1) is None);
        assert(targets[i].index != targets[n - 1].index);
    }
}

/// The contents of a bound clause are its condition and what it assigns.
pub proof fn law_matched_contents(evaluator: MatchedEvaluator)
    ensures
        evaluator@.condition == evaluator.condition,
        evaluator@.update is Some <==> evaluator.update is Some,
        evaluator.update matches Some(update) ==> evaluator@.update == Some(update@),
{
}

/// The contents of a clause on its way tell each of its states, and all that a state holds.
pub proof fn law_matched_states(
    condition: Option<ScalarExpr>,
    update: HashMap<usize, ScalarExpr>,
    next: usize,
    value: ScalarExpr,
    evaluator: MatchedEvaluator,
)
    ensures
        MatchedBinding::Condition@ == MatchedState::Condition,
        (MatchedBinding::Value { condition, update, next })@ == (MatchedState::Value {
            condition,
            update: update@,
            next: next as int,
        }),
        (MatchedBinding::Target { condition, update, next, value })@ == (MatchedState::Target {
            condition,
            update: update@,
            next: next as int,
            value,
        }),
        MatchedBinding::Bound(evaluator)@ == MatchedState::Bound(evaluator@),
{
}

/// An outcome is success exactly where success is stated, with the state that is stated, and
/// an error exactly where one is stated, with its kind and message.
pub proof fn law_matched_outcome(
    r: Result<MatchedBinding, ErrorCode>,
    stated: Result<MatchedState, ErrorView>,
)
    ensures
        is_matched_outcome(r, stated) <==> {
            &&& r is Ok <==> stated is Ok
            &&& r is Ok ==> r->Ok_0@ == stated->Ok_0
            &&& r is Err ==> r->Err_0.kind == stated->Err_0.kind && r->Err_0.message@
                == stated->Err_0.message
        },
{
}

/// A clause with a condition begins with it. One without is bound at once if it deletes or
/// lists no assignment; otherwise it begins with the first assignment.
pub proof fn law_matched_begins_by_parts(
    clause: MatchedClause,
    expr: NodeId,
    update_list: Vec<MergeUpdateExpr>,
)
    ensures
        clause.selection == Some(expr) ==> matched_start(clause) == MatchedState::Condition,
        clause.selection is None && clause.operation == MatchOperation::Delete ==> matched_start(
            clause,
        ) == MatchedState::Bound(MatchedView { condition: None, update: None }),
        clause.selection is None && clause.operation == (MatchOperation::Update { update_list })
            && update_list@.len() == 0 ==> matched_start(clause) == MatchedState::Bound(
            MatchedView { condition: None, update: Some(Map::empty()) },
        ),
        clause.selection is None && clause.operation == (MatchOperation::Update { update_list })
            && update_list@.len() > 0 ==> matched_start(clause) == (MatchedState::Value {
            condition: None,
            update: Map::empty(),
            next: 0,
        }),
{
}

/// A bound condition is kept, for every clause. A clause that deletes or lists no assignment is
/// then bound; otherwise it goes on with the first assignment.
pub proof fn law_condition_is_kept(
    selection: Option<NodeId>,
    update_list: Vec<MergeUpdateExpr>,
    scalar: ScalarExpr,
)
    ensures
        MatchedState::Condition.on_scalar(
            MatchedClause { selection, operation: MatchOperation::Delete },
            Ok(scalar),
        ) == Ok::<MatchedState, ErrorView>(
            MatchedState::Bound(MatchedView { condition: Some(scalar), update: None }),
        ),
        ({
            let clause = MatchedClause {
                selection,
                operation: MatchOperation::Update { update_list },
            };
            &&& update_list@.len() == 0 ==> MatchedState::Condition.on_scalar(clause, Ok(scalar))
                == Ok::<MatchedState, ErrorView>(
                MatchedState::Bound(
                    MatchedView { condition: Some(scalar), update: Some(Map::empty()) },
                ),
            )
            &&& update_list@.len() > 0 ==> MatchedState::Condition.on_scalar(clause, Ok(scalar))
                == Ok::<MatchedState, ErrorView>(
                MatchedState::Value { condition: Some(scalar), update: Map::empty(), next: 0 },
            )
        }),
{
}

/// A bound value is kept beside what is bound already, until its target is known.
pub proof fn law_value_is_kept(
    clause: MatchedClause,
    condition: Option<ScalarExpr>,
    update: Map<usize, ScalarExpr>,
    next: int,
    value: ScalarExpr,
)
    ensures
        (MatchedState::Value { condition, update, next }).on_scalar(clause, Ok(value)) == Ok::<
            MatchedState,
            ErrorView,
        >(MatchedState::Target { condition, update, next, value }),
{
}

/// A failed reply ends the clause with the error's own kind and message.
pub proof fn law_matched_failure(
    state: MatchedState,
    clause: MatchedClause,
    schema: SchemaView,
    e: ErrorCode,
)
    ensures
        state.on_scalar(clause, Err(e)) matches Err(view) && view.kind == e.kind && view.message
            == e.message@,
        state.on_column(clause, schema, Err(e)) matches Err(view) && view.kind == e.kind
            && view.message == e.message@,
{
}

/// Columns have to be read on account of a bound expression exactly when it is the condition:
/// then those that some place of its references holds. An assigned value adds none.
pub proof fn law_condition_is_read(
    state: MatchedState,
    reply: Result<ScalarExpr, ErrorCode>,
    c: usize,
)
    ensures
        state.columns_of(reply).contains(c) <==> (state is Condition && (reply matches Ok(scalar)
            && exists|i: int|
            0 <= i < scalar.column_refs@.len() && #[trigger] scalar.column_refs@[i] == c)),
{
    if let Ok(scalar) = reply {
        law_columns_are_references(scalar, c);
    }
}

/// A resolved target is refused exactly when its field is assigned to already, or is computed,
/// or the value is a subquery, and the first of these that holds decides the error. Else the
/// field gets the value, the other fields keep theirs, and the clause goes on with the next
/// assignment, or is bound after the last.
pub proof fn law_target_is_assigned(
    selection: Option<NodeId>,
    update_list: Vec<MergeUpdateExpr>,
    schema: SchemaView,
    condition: Option<ScalarExpr>,
    update: Map<usize, ScalarExpr>,
    next: int,
    value: ScalarExpr,
    target: ColumnTarget,
)
    ensures
        ({
            let clause = MatchedClause {
                selection,
                operation: MatchOperation::Update { update_list },
            };
            let state = MatchedState::Target { condition, update, next, value };
            let field = schema.fields[target.index as int];
            let assigned_already = update.contains_key(target.index);
            let computed = field.computed_expr is Some;
            let grown = update.insert(target.index, value);
            let outcome = state.on_column(clause, schema, Ok(target));
            &&& outcome is Err <==> assigned_already || computed || value.is_subquery
            &&& assigned_already ==> outcome == Err::<MatchedState, ErrorView>(
                ErrorView {
                    kind: ErrorKind::BadArguments,
                    message: "Multiple assignments in the single statement to column `"@
                        + target.name@ + "`"@,
                },
            )
            &&& !assigned_already && computed ==> outcome == Err::<MatchedState, ErrorView>(
                ErrorView {
                    kind: ErrorKind::BadArguments,
                    message: "The value specified for computed column '"@ + field.name@
                        + "' is not allowed"@,
                },
            )
            &&& !assigned_already && !computed && value.is_subquery ==> outcome == Err::<
                MatchedState,
                ErrorView,
            >(
                ErrorView {
                    kind: ErrorKind::Internal,
                    message:
                        "update_list in update clause does not support subquery temporarily"@,
                },
            )
            &&& outcome is Ok && next + 1 < update_list@.len() ==> outcome->Ok_0
                == (MatchedState::Value { condition, update: grown, next: next + 1 })
            &&& outcome is Ok && next + 1 >= update_list@.len() ==> outcome->Ok_0
                == MatchedState::Bound(MatchedView { condition, update: Some(grown) })
        }),
{
}

/// What is asked for a clause: its own condition, then for each assignment in turn its own
/// value and its own name.
pub proof fn law_matched_asks_for_its_parts(
    selection: NodeId,
    update_list: Vec<MergeUpdateExpr>,
    operation: MatchOperation,
    condition: Option<ScalarExpr>,
    update: Map<usize, ScalarExpr>,
    next: int,
    value: ScalarExpr,
    evaluator: MatchedView,
    any: Option<NodeId>,
)
    requires
        0 <= next < update_list@.len(),
    ensures
        MatchedState::Condition.request(MatchedClause { selection: Some(selection), operation })
            == MatchedRequest::Scalar(selection),
        (MatchedState::Value { condition, update, next }).request(
            MatchedClause { selection: any, operation: MatchOperation::Update { update_list } },
        ) == MatchedRequest::Scalar(update_list@[next].expr),
        (MatchedState::Target { condition, update, next, value }).request(
            MatchedClause { selection: any, operation: MatchOperation::Update { update_list } },
        ) == MatchedRequest::Column(update_list@[next].name),
        MatchedState::Bound(evaluator).request(MatchedClause { selection: any, operation })
            == MatchedRequest::Nothing,
{
}

/// A clause awaits an expression exactly for its condition and for a value. It can be at its
/// condition exactly when it has one, and at an assignment exactly when it lists that one.
pub proof fn law_matched_states_belong(
    clause: MatchedClause,
    condition: Option<ScalarExpr>,
    update: Map<usize, ScalarExpr>,
    next: int,
    value: ScalarExpr,
    evaluator: MatchedView,
)
    ensures
        MatchedState::Condition.awaits_scalar(),
        (MatchedState::Value { condition, update, next }).awaits_scalar(),
        !(MatchedState::Target { condition, update, next, value }).awaits_scalar(),
        !MatchedState::Bound(evaluator).awaits_scalar(),
        MatchedState::Condition.wf(clause) <==> clause.selection is Some,
        (MatchedState::Value { condition, update, next }).wf(clause) <==> (clause.operation matches
            MatchOperation::Update { update_list } && 0 <= next < update_list@.len()),
        (MatchedState::Target { condition, update, next, value }).wf(clause) <==> (
        clause.operation matches MatchOperation::Update { update_list } && 0 <= next
            < update_list@.len()),
        MatchedState::Bound(evaluator).wf(clause),
{
}

} // verus!
