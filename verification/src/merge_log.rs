//! What was asked and replied on the way to a bound `MERGE INTO` statement, and how the plan
//! follows from it.

use vstd::prelude::*;

use crate::error::{ErrorCode, ErrorView};
use crate::matched::{matched_start, ColumnTarget, MatchedState, MatchedView};
use crate::merge_into::{
    join_of, merge_start, target_of, with_fields, InternalColumnType, MergeIntoView,
    MergeState, Reply, RequestView, StageView,
};
use crate::merge_laws::{
    all_matched_requests, all_requests, all_unmatched_requests, answered, base_columns, binds_to,
    lemma_explained_run, lemma_more_matched_requests, lemma_more_unmatched_requests,
    matched_requests, merge_run, replied_schema, unmatched_requests,
};
use crate::scalar::{DataType, ScalarExpr};
use crate::schema::{ColumnEntry, SchemaView, TableSchema};
use crate::statement::{some_update, MatchedClause, MergeIntoStmt, NodeId, UnmatchedClause};
use crate::unmatched::{unmatched_start, UnmatchedState, UnmatchedView};

verus! {

/// A request and the reply to it.
pub ghost struct Exchange {
    pub request: RequestView,
    pub reply: Reply,
}

/// What was asked and replied, from a state on.
pub open spec fn exchanges(start: MergeState, replies: Seq<Reply>) -> Seq<Exchange>
    decreases replies.len(),
{
    if replies.len() == 0 {
        Seq::empty()
    } else {
        let before = replies.drop_last();
        exchanges(start, before).push(
            Exchange {
                request: merge_run(start, before)->Ok_0.request(),
                reply: replies.last(),
            },
        )
    }
}

impl Exchange {
    /// Whether this expression was to be bound, and was bound to that one.
    pub open spec fn binds(self, expr: NodeId, scalar: ScalarExpr) -> bool {
        &&& self.request == RequestView::BindScalar(expr)
        &&& self.reply == Reply::Scalar(Ok(scalar))
    }

    /// Whether this name was to be resolved, and was resolved to that target.
    pub open spec fn resolves(self, name: NodeId, target: ColumnTarget) -> bool {
        &&& self.request == RequestView::ResolveColumn(name)
        &&& self.reply == Reply::Column(Ok(target))
    }

    /// Whether the schema was to be projected to these columns, and that one came out.
    pub open spec fn projects(self, columns: Seq<NodeId>, schema: TableSchema) -> bool {
        &&& self.request == RequestView::ProjectSchema(columns)
        &&& self.reply == Reply::Schema(Ok(schema))
    }

    /// Whether this expression was to be typed, and has that type.
    pub open spec fn types(self, scalar: ScalarExpr, data_type: DataType) -> bool {
        &&& self.request == RequestView::TypeOf(scalar)
        &&& self.reply == Reply::Type(Ok(data_type))
    }

    /// Whether this expression was to be cast between these types, and that one came out.
    pub open spec fn casts(
        self,
        scalar: ScalarExpr,
        from: DataType,
        to: DataType,
        cast: ScalarExpr,
    ) -> bool {
        &&& self.request == RequestView::Cast { scalar, from, to }
        &&& self.reply == Reply::Scalar(Ok(cast))
    }

    /// The bound expression in the reply.
    pub open spec fn scalar(self) -> ScalarExpr {
        self.reply->Scalar_0->Ok_0
    }

    /// The target in the reply.
    pub open spec fn target(self) -> ColumnTarget {
        self.reply->Column_0->Ok_0
    }

    /// The type in the reply.
    pub open spec fn data_type(self) -> DataType {
        self.reply->Type_0->Ok_0
    }

    /// The schema in the reply.
    pub open spec fn schema(self) -> TableSchema {
        self.reply->Schema_0->Ok_0
    }
}

/// One exchange for something that is there, none for something that is not.
pub open spec fn one_if<A>(part: Option<A>) -> int {
    if part is Some {
        1
    } else {
        0
    }
}

/// Whether a clause's condition is what the first exchange bound it to, if there is one.
pub open spec fn condition_logged(
    selection: Option<NodeId>,
    log: Seq<Exchange>,
    condition: Option<ScalarExpr>,
) -> bool {
    match selection {
        Some(expr) => condition == Some(log[0].scalar()) && log[0].binds(expr, log[0].scalar()),
        None => condition is None,
    }
}

/// Whether the two exchanges from `at` on bind an assignment's value and resolve its name, and
/// the update assigns that value to that field.
pub open spec fn assignment_logged(
    clause: MatchedClause,
    log: Seq<Exchange>,
    at: int,
    k: int,
    update: Map<usize, ScalarExpr>,
) -> bool {
    let (value, target) = (log[at + 2 * k].scalar(), log[at + 2 * k + 1].target());
    &&& log[at + 2 * k].binds(clause.updates()[k].expr, value)
    &&& log[at + 2 * k + 1].resolves(clause.updates()[k].name, target)
    &&& update.contains_key(target.index)
    &&& update[target.index] == value
}

/// The field that the assignment at `k` is to, by the exchange that resolved it.
pub open spec fn logged_field(log: Seq<Exchange>, at: int, k: int) -> usize {
    log[at + 2 * k + 1].target().index
}

/// Whether an update holds the first `n` assignments of a clause, as they were bound and
/// resolved from `at` on, each to a field of its own, and nothing else.
pub open spec fn update_logged(
    clause: MatchedClause,
    log: Seq<Exchange>,
    at: int,
    n: int,
    update: Map<usize, ScalarExpr>,
) -> bool {
    &&& forall|k: int|
        0 <= k < n ==> #[trigger] assignment_logged(clause, log, at, k, update)
    &&& forall|j: int, k: int|
        0 <= j < k < n ==> #[trigger] logged_field(log, at, j) != #[trigger] logged_field(
            log,
            at,
            k,
        )
    &&& forall|field: usize| #[trigger]
        update.contains_key(field) ==> exists|k: int|
            0 <= k < n && #[trigger] logged_field(log, at, k) == field
}

/// Whether these exchanges are all that a matched clause takes, in order, and the evaluator is
/// what they bind the clause to.
pub open spec fn matched_logged(
    clause: MatchedClause,
    log: Seq<Exchange>,
    evaluator: MatchedView,
) -> bool {
    &&& log.len() == matched_requests(clause)
    &&& condition_logged(clause.selection, log, evaluator.condition)
    &&& evaluator.update is Some <==> clause.operation is Update
    &&& evaluator.update matches Some(update) ==> update_logged(
        clause,
        log,
        one_if(clause.selection),
        clause.updates().len() as int,
        update,
    )
}

/// Whether the three exchanges from `at` on bind a value, type it and cast it to the type of
/// its field, and the evaluator holds the cast value.
pub open spec fn value_logged(
    clause: UnmatchedClause,
    log: Seq<Exchange>,
    at: int,
    k: int,
    evaluator: UnmatchedView,
) -> bool {
    let value = log[at + 3 * k].scalar();
    let data_type = log[at + 3 * k + 1].data_type();
    &&& log[at + 3 * k].binds(clause.insert_operation.values@[k], value)
    &&& log[at + 3 * k + 1].types(value, data_type)
    &&& log[at + 3 * k + 2].casts(
        value,
        data_type,
        evaluator.source_schema.fields[k].data_type,
        evaluator.values[k],
    )
}

/// Whether an evaluator's schema is the projected one where the clause lists columns, and the
/// table's where it does not.
pub open spec fn schema_logged(
    clause: UnmatchedClause,
    schema: SchemaView,
    log: Seq<Exchange>,
    source_schema: SchemaView,
) -> bool {
    match clause.insert_operation.columns {
        Some(columns) => {
            let at = one_if(clause.selection);
            log[at].projects(columns@, log[at].schema()) && source_schema == log[at].schema()@
        },
        None => source_schema == schema,
    }
}

/// How many exchanges come before those of a clause's values.
pub open spec fn values_start(clause: UnmatchedClause) -> int {
    one_if(clause.selection) + one_if(clause.insert_operation.columns)
}

/// Whether an evaluator holds the first values of a clause, as far as it has any, as they were
/// bound, typed and cast.
pub open spec fn values_logged(
    clause: UnmatchedClause,
    schema: SchemaView,
    log: Seq<Exchange>,
    evaluator: UnmatchedView,
) -> bool {
    &&& condition_logged(clause.selection, log, evaluator.condition)
    &&& schema_logged(clause, schema, log, evaluator.source_schema)
    &&& forall|k: int|
        0 <= k < evaluator.values.len() ==> #[trigger] value_logged(
            clause,
            log,
            values_start(clause),
            k,
            evaluator,
        )
}

/// Whether these exchanges are all that an unmatched clause takes, in order, and the evaluator
/// is what they bind the clause to.
pub open spec fn unmatched_logged(
    clause: UnmatchedClause,
    schema: SchemaView,
    log: Seq<Exchange>,
    evaluator: UnmatchedView,
) -> bool {
    &&& log.len() == unmatched_requests(clause)
    &&& evaluator.values.len() == clause.insert_operation.values@.len()
    &&& values_logged(clause, schema, log, evaluator)
}

/// How a matched clause on its way stands to the exchanges so far.
spec fn matched_on_the_way(clause: MatchedClause, log: Seq<Exchange>, state: MatchedState) -> bool {
    let at = one_if(clause.selection);
    match state {
        MatchedState::Condition => log.len() == 0,
        MatchedState::Value { condition, update, next } => {
            &&& log.len() == at + 2 * next
            &&& condition_logged(clause.selection, log, condition)
            &&& update_logged(clause, log, at, next, update)
        },
        MatchedState::Target { condition, update, next, value } => {
            &&& log.len() == at + 2 * next + 1
            &&& condition_logged(clause.selection, log, condition)
            &&& update_logged(clause, log, at, next, update)
            &&& log[at + 2 * next].binds(clause.updates()[next].expr, value)
        },
        MatchedState::Bound(evaluator) => matched_logged(clause, log, evaluator),
    }
}

/// How an unmatched clause on its way stands to the exchanges so far.
spec fn unmatched_on_the_way(
    clause: UnmatchedClause,
    schema: SchemaView,
    log: Seq<Exchange>,
    state: UnmatchedState,
) -> bool {
    let at = values_start(clause);
    match state {
        UnmatchedState::Condition => log.len() == 0,
        UnmatchedState::Schema { condition } => {
            &&& log.len() == one_if(clause.selection)
            &&& condition_logged(clause.selection, log, condition)
        },
        UnmatchedState::Value { evaluator } => {
            &&& log.len() == at + 3 * evaluator.values.len()
            &&& values_logged(clause, schema, log, evaluator)
        },
        UnmatchedState::Type { evaluator, value } => {
            let k = evaluator.values.len() as int;
            &&& log.len() == at + 3 * k + 1
            &&& values_logged(clause, schema, log, evaluator)
            &&& log[at + 3 * k].binds(clause.insert_operation.values@[k], value)
        },
        UnmatchedState::Cast { evaluator, value, data_type } => {
            let k = evaluator.values.len() as int;
            &&& log.len() == at + 3 * k + 2
            &&& values_logged(clause, schema, log, evaluator)
            &&& log[at + 3 * k].binds(clause.insert_operation.values@[k], value)
            &&& log[at + 3 * k + 1].types(value, data_type)
        },
        UnmatchedState::Bound(evaluator) => unmatched_logged(clause, schema, log, evaluator),
    }
}

proof fn lemma_matched_begins(clause: MatchedClause)
    ensures
        matched_on_the_way(clause, Seq::empty(), matched_start(clause)),
{
}

proof fn lemma_update_logged_longer(
    clause: MatchedClause,
    log: Seq<Exchange>,
    e: Exchange,
    at: int,
    n: int,
    update: Map<usize, ScalarExpr>,
)
    requires
        0 <= at,
        0 <= n,
        at + 2 * n <= log.len(),
        update_logged(clause, log, at, n, update),
    ensures
        update_logged(clause, log.push(e), at, n, update),
{
    let more = log.push(e);
    assert forall|k: int| 0 <= k < n implies #[trigger] assignment_logged(
        clause,
        more,
        at,
        k,
        update,
    ) by {
        assert(assignment_logged(clause, log, at, k, update));
    }
    assert forall|k: int| 0 <= k < n implies #[trigger] logged_field(more, at, k) == logged_field(
        log,
        at,
        k,
    ) by {}
    assert forall|field: usize| #[trigger] update.contains_key(field) implies exists|k: int|
        0 <= k < n && #[trigger] logged_field(more, at, k) == field by {
        let k = choose|k: int| 0 <= k < n && #[trigger] logged_field(log, at, k) == field;
        assert(logged_field(more, at, k) == field);
    }
}

proof fn lemma_matched_scalar_logged(
    clause: MatchedClause,
    log: Seq<Exchange>,
    state: MatchedState,
    reply: Result<ScalarExpr, ErrorCode>,
)
    requires
        state.wf(clause),
        state.awaits_scalar(),
        matched_on_the_way(clause, log, state),
    ensures
        state.on_scalar(clause, reply) matches Ok(next) ==> matched_on_the_way(
            clause,
            log.push(
                Exchange {
                    request: MergeState::matched_request(state, clause),
                    reply: Reply::Scalar(reply),
                },
            ),
            next,
        ),
{
    let e = Exchange {
        request: MergeState::matched_request(state, clause),
        reply: Reply::Scalar(reply),
    };
    if let MatchedState::Value { update, next, .. } = state {
        lemma_update_logged_longer(clause, log, e, one_if(clause.selection), next, update);
    }
}

proof fn lemma_matched_column_logged(
    clause: MatchedClause,
    schema: SchemaView,
    log: Seq<Exchange>,
    state: MatchedState,
    reply: Result<ColumnTarget, ErrorCode>,
)
    requires
        state.wf(clause),
        state is Target,
        matched_on_the_way(clause, log, state),
    ensures
        state.on_column(clause, schema, reply) matches Ok(next) ==> matched_on_the_way(
            clause,
            log.push(
                Exchange {
                    request: MergeState::matched_request(state, clause),
                    reply: Reply::Column(reply),
                },
            ),
            next,
        ),
{
    let e = Exchange {
        request: MergeState::matched_request(state, clause),
        reply: Reply::Column(reply),
    };
    let more = log.push(e);
    let at = one_if(clause.selection);
    if let (MatchedState::Target { update, next, value, .. }, Ok(target)) = (state, reply) {
        if state.on_column(clause, schema, reply) is Ok {
            lemma_update_logged_longer(clause, log, e, at, next, update);
            let grown = update.insert(target.index, value);
            assert(logged_field(more, at, next) == target.index);
            assert forall|k: int| 0 <= k < next implies #[trigger] logged_field(more, at, k)
                != target.index by {
                assert(assignment_logged(clause, more, at, k, update));
            }
            assert forall|k: int| 0 <= k < next + 1 implies #[trigger] assignment_logged(
                clause,
                more,
                at,
                k,
                grown,
            ) by {
                if k < next {
                    assert(assignment_logged(clause, more, at, k, update));
                    assert(logged_field(more, at, k) != target.index);
                }
            }
            assert forall|field: usize| #[trigger] grown.contains_key(field) implies exists|k: int|
                0 <= k < next + 1 && #[trigger] logged_field(more, at, k) == field by {
                if field != target.index {
                    assert(update.contains_key(field));
                    let k = choose|k: int|
                        0 <= k < next && #[trigger] logged_field(more, at, k) == field;
                    assert(logged_field(more, at, k) == field);
                }
            }
            assert(update_logged(clause, more, at, next + 1, grown));
        }
    }
}

proof fn lemma_unmatched_begins(clause: UnmatchedClause, schema: SchemaView)
    ensures
        unmatched_start(clause, schema) matches Ok(state) ==> unmatched_on_the_way(
            clause,
            schema,
            Seq::empty(),
            state,
        ),
{
}

proof fn lemma_values_logged_longer(
    clause: UnmatchedClause,
    schema: SchemaView,
    log: Seq<Exchange>,
    e: Exchange,
    evaluator: UnmatchedView,
)
    requires
        values_start(clause) + 3 * evaluator.values.len() <= log.len(),
        values_logged(clause, schema, log, evaluator),
    ensures
        values_logged(clause, schema, log.push(e), evaluator),
{
    let at = values_start(clause);
    assert forall|k: int| 0 <= k < evaluator.values.len() implies #[trigger] value_logged(
        clause,
        log.push(e),
        at,
        k,
        evaluator,
    ) by {
        assert(value_logged(clause, log, at, k, evaluator));
    }
}

proof fn lemma_unmatched_logged_step(
    clause: UnmatchedClause,
    schema: SchemaView,
    log: Seq<Exchange>,
    state: UnmatchedState,
    reply: Reply,
    outcome: Result<UnmatchedState, ErrorView>,
)
    requires
        state.wf(clause),
        unmatched_on_the_way(clause, schema, log, state),
        match reply {
            Reply::Scalar(r) => if state is Cast {
                outcome == state.on_cast(clause, r)
            } else {
                state.awaits_scalar() && outcome == state.on_scalar(clause, schema, r)
            },
            Reply::Schema(r) => state is Schema && outcome == state.on_schema(schema, r),
            Reply::Type(r) => state is Type && outcome == state.on_type(r),
            _ => false,
        },
    ensures
        outcome matches Ok(next) ==> unmatched_on_the_way(
            clause,
            schema,
            log.push(Exchange { request: MergeState::unmatched_request(state, clause), reply }),
            next,
        ),
{
    let e = Exchange { request: MergeState::unmatched_request(state, clause), reply };
    let more = log.push(e);
    match state {
        UnmatchedState::Value { evaluator } => {
            lemma_values_logged_longer(clause, schema, log, e, evaluator);
        },
        UnmatchedState::Type { evaluator, .. } => {
            lemma_values_logged_longer(clause, schema, log, e, evaluator);
        },
        UnmatchedState::Cast { evaluator, .. } => {
            lemma_values_logged_longer(clause, schema, log, e, evaluator);
            if let Reply::Scalar(Ok(cast)) = reply {
                let grown = UnmatchedView { values: evaluator.values.push(cast), ..evaluator };
                let at = values_start(clause);
                assert forall|k: int| 0 <= k < grown.values.len() implies #[trigger] value_logged(
                    clause,
                    more,
                    at,
                    k,
                    grown,
                ) by {
                    if k < evaluator.values.len() {
                        assert(value_logged(clause, more, at, k, evaluator));
                    }
                }
                assert(values_logged(clause, schema, more, grown));
            }
        },
        _ => {},
    }
}

/// Where the exchanges of the matched clause at `i` begin.
pub open spec fn matched_at(matched: Seq<MatchedClause>, i: int) -> int {
    13int + all_matched_requests(matched, i as nat)
}

/// Where the exchanges of the unmatched clause at `i` begin.
pub open spec fn unmatched_at(
    matched: Seq<MatchedClause>,
    unmatched: Seq<UnmatchedClause>,
    i: int,
) -> int {
    matched_at(matched, matched.len() as int) + all_unmatched_requests(unmatched, i as nat)
}

/// Whether the evaluator of each matched clause is what the clause's own exchanges bind it to.
pub open spec fn matched_evaluators_logged(
    matched: Seq<MatchedClause>,
    log: Seq<Exchange>,
    evaluators: Seq<MatchedView>,
) -> bool {
    forall|i: int|
        0 <= i < evaluators.len() ==> matched_logged(
            matched[i],
            log.subrange(matched_at(matched, i), matched_at(matched, i + 1)),
            #[trigger] evaluators[i],
        )
}

/// Whether the evaluator of each unmatched clause is what the clause's own exchanges bind it
/// to.
pub open spec fn unmatched_evaluators_logged(
    matched: Seq<MatchedClause>,
    unmatched: Seq<UnmatchedClause>,
    schema: SchemaView,
    log: Seq<Exchange>,
    evaluators: Seq<UnmatchedView>,
) -> bool {
    forall|i: int|
        0 <= i < evaluators.len() ==> unmatched_logged(
            unmatched[i],
            schema,
            log.subrange(
                unmatched_at(matched, unmatched, i),
                unmatched_at(matched, unmatched, i + 1),
            ),
            #[trigger] evaluators[i],
        )
}

/// Whether all evaluators so far are what the exchanges bind their clauses to.
spec fn evaluators_logged(s: MergeState, log: Seq<Exchange>) -> bool {
    &&& s.plan.matched_evaluators.len() <= s.matched.len()
    &&& s.plan.unmatched_evaluators.len() <= s.unmatched.len()
    &&& matched_evaluators_logged(s.matched, log, s.plan.matched_evaluators)
    &&& unmatched_evaluators_logged(
        s.matched,
        s.unmatched,
        s.schema,
        log,
        s.plan.unmatched_evaluators,
    )
}

/// How the clauses stand to the exchanges so far.
spec fn clauses_logged(s: MergeState, log: Seq<Exchange>) -> bool {
    let (i, j) = (
        s.plan.matched_evaluators.len() as int,
        s.plan.unmatched_evaluators.len() as int,
    );
    &&& evaluators_logged(s, log)
    &&& match s.stage {
        StageView::Matched(state) => {
            &&& j == 0
            &&& matched_at(s.matched, i) <= log.len()
            &&& matched_on_the_way(
                s.matched_clause(),
                log.subrange(matched_at(s.matched, i), log.len() as int),
                state,
            )
        },
        StageView::Unmatched(state) => {
            &&& i == s.matched.len()
            &&& unmatched_at(s.matched, s.unmatched, j) <= log.len()
            &&& unmatched_on_the_way(
                s.unmatched_clause(),
                s.schema,
                log.subrange(unmatched_at(s.matched, s.unmatched, j), log.len() as int),
                state,
            )
        },
        StageView::Finished => {
            &&& i == s.matched.len()
            &&& j == s.unmatched.len()
            &&& log.len() == unmatched_at(s.matched, s.unmatched, j)
        },
        _ => false,
    }
}

proof fn lemma_next_unmatched_logged(s: MergeState, log: Seq<Exchange>)
    requires
        evaluators_logged(s, log),
        s.plan.matched_evaluators.len() == s.matched.len(),
        log.len() == unmatched_at(
            s.matched,
            s.unmatched,
            s.plan.unmatched_evaluators.len() as int,
        ),
    ensures
        s.next_unmatched() matches Ok(t) ==> clauses_logged(t, log),
{
    if s.plan.unmatched_evaluators.len() < s.unmatched.len() {
        lemma_unmatched_begins(s.unmatched_clause(), s.schema);
        assert(log.subrange(log.len() as int, log.len() as int) =~= Seq::<Exchange>::empty());
    }
}

proof fn lemma_next_matched_logged(s: MergeState, log: Seq<Exchange>)
    requires
        evaluators_logged(s, log),
        s.plan.unmatched_evaluators.len() == 0,
        log.len() == matched_at(s.matched, s.plan.matched_evaluators.len() as int),
    ensures
        s.next_matched() matches Ok(t) ==> clauses_logged(t, log),
    decreases s.matched.len() - s.plan.matched_evaluators.len(),
{
    if s.plan.matched_evaluators.len() < s.matched.len() {
        lemma_matched_begins(s.matched_clause());
        assert(log.subrange(log.len() as int, log.len() as int) =~= Seq::<Exchange>::empty());
        if let MatchedState::Bound(evaluator) = matched_start(s.matched_clause()) {
            lemma_with_matched_logged(s, log, evaluator);
            lemma_next_matched_logged(s.with_matched(evaluator), log);
        }
    } else {
        lemma_next_unmatched_logged(s, log);
    }
}

/// A clause that its exchanges bind to an evaluator takes its place after those before.
proof fn lemma_with_matched_logged(s: MergeState, log: Seq<Exchange>, evaluator: MatchedView)
    requires
        evaluators_logged(s, log),
        s.plan.unmatched_evaluators.len() == 0,
        s.plan.matched_evaluators.len() < s.matched.len(),
        matched_at(s.matched, s.plan.matched_evaluators.len() as int) <= log.len(),
        matched_logged(
            s.matched_clause(),
            log.subrange(
                matched_at(s.matched, s.plan.matched_evaluators.len() as int),
                log.len() as int,
            ),
            evaluator,
        ),
    ensures
        evaluators_logged(s.with_matched(evaluator), log),
        log.len() == matched_at(s.matched, s.plan.matched_evaluators.len() + 1int),
{
    let last = s.plan.matched_evaluators.len() as int;
    let grown = s.plan.matched_evaluators.push(evaluator);
    assert forall|i: int| 0 <= i < grown.len() implies matched_logged(
        s.matched[i],
        log.subrange(matched_at(s.matched, i), matched_at(s.matched, i + 1)),
        #[trigger] grown[i],
    ) by {
        if i < last {
            assert(grown[i] == s.plan.matched_evaluators[i]);
        }
    }
}

/// A clause that its exchanges bind to an evaluator takes its place after those before.
proof fn lemma_with_unmatched_logged(s: MergeState, log: Seq<Exchange>, evaluator: UnmatchedView)
    requires
        evaluators_logged(s, log),
        s.plan.unmatched_evaluators.len() < s.unmatched.len(),
        unmatched_at(s.matched, s.unmatched, s.plan.unmatched_evaluators.len() as int)
            <= log.len(),
        unmatched_logged(
            s.unmatched_clause(),
            s.schema,
            log.subrange(
                unmatched_at(s.matched, s.unmatched, s.plan.unmatched_evaluators.len() as int),
                log.len() as int,
            ),
            evaluator,
        ),
    ensures
        evaluators_logged(s.with_unmatched(evaluator), log),
        log.len() == unmatched_at(
            s.matched,
            s.unmatched,
            s.plan.unmatched_evaluators.len() + 1int,
        ),
{
    let last = s.plan.unmatched_evaluators.len() as int;
    let grown = s.plan.unmatched_evaluators.push(evaluator);
    assert forall|i: int| 0 <= i < grown.len() implies unmatched_logged(
        s.unmatched[i],
        s.schema,
        log.subrange(
            unmatched_at(s.matched, s.unmatched, i),
            unmatched_at(s.matched, s.unmatched, i + 1),
        ),
        #[trigger] grown[i],
    ) by {
        if i < last {
            assert(grown[i] == s.plan.unmatched_evaluators[i]);
        }
    }
}

/// What the evaluators so far are bound to does not depend on what comes later.
proof fn lemma_evaluators_logged_longer(s: MergeState, log: Seq<Exchange>, e: Exchange)
    requires
        evaluators_logged(s, log),
        matched_at(s.matched, s.plan.matched_evaluators.len() as int) <= log.len(),
        s.plan.unmatched_evaluators.len() > 0 ==> unmatched_at(
            s.matched,
            s.unmatched,
            s.plan.unmatched_evaluators.len() as int,
        ) <= log.len(),
    ensures
        evaluators_logged(s, log.push(e)),
{
    let more = log.push(e);
    assert forall|i: int| 0 <= i < s.plan.matched_evaluators.len() implies matched_logged(
        s.matched[i],
        more.subrange(matched_at(s.matched, i), matched_at(s.matched, i + 1)),
        #[trigger] s.plan.matched_evaluators[i],
    ) by {
        let (from, to) = (matched_at(s.matched, i), matched_at(s.matched, i + 1));
        lemma_more_matched_requests(s.matched, i as nat, (i + 1) as nat);
        lemma_more_matched_requests(
            s.matched,
            (i + 1) as nat,
            s.plan.matched_evaluators.len(),
        );
        assert(more.subrange(from, to) =~= log.subrange(from, to));
    }
    assert forall|i: int| 0 <= i < s.plan.unmatched_evaluators.len() implies unmatched_logged(
        s.unmatched[i],
        s.schema,
        more.subrange(
            unmatched_at(s.matched, s.unmatched, i),
            unmatched_at(s.matched, s.unmatched, i + 1),
        ),
        #[trigger] s.plan.unmatched_evaluators[i],
    ) by {
        let (from, to) = (
            unmatched_at(s.matched, s.unmatched, i),
            unmatched_at(s.matched, s.unmatched, i + 1),
        );
        lemma_more_unmatched_requests(s.unmatched, i as nat, (i + 1) as nat);
        lemma_more_unmatched_requests(
            s.unmatched,
            (i + 1) as nat,
            s.plan.unmatched_evaluators.len(),
        );
        assert(more.subrange(from, to) =~= log.subrange(from, to));
    }
}

proof fn lemma_clause_step_logged(
    s: MergeState,
    base: Set<usize>,
    log: Seq<Exchange>,
    reply: Reply,
)
    requires
        s.clauses_sound(base),
        s.accepts(reply),
        clauses_logged(s, log),
    ensures
        s.step(reply) matches Ok(t) ==> clauses_logged(
            t,
            log.push(Exchange { request: s.request(), reply }),
        ),
{
    let e = Exchange { request: s.request(), reply };
    let more = log.push(e);
    let (i, j) = (
        s.plan.matched_evaluators.len() as int,
        s.plan.unmatched_evaluators.len() as int,
    );
    lemma_evaluators_logged_longer(s, log, e);
    match s.stage {
        StageView::Matched(state) => {
            let clause = s.matched_clause();
            let at = matched_at(s.matched, i);
            let part = log.subrange(at, log.len() as int);
            assert(more.subrange(at, more.len() as int) =~= part.push(e));
            match reply {
                Reply::Scalar(r) => {
                    lemma_matched_scalar_logged(clause, part, state, r);
                    let t = s.reading(state.columns_of(r));
                    if let Ok(MatchedState::Bound(evaluator)) = state.on_scalar(clause, r) {
                        lemma_with_matched_logged(t, more, evaluator);
                        lemma_next_matched_logged(t.with_matched(evaluator), more);
                    }
                },
                Reply::Column(r) => {
                    lemma_matched_column_logged(clause, s.schema, part, state, r);
                    if let Ok(MatchedState::Bound(evaluator)) = state.on_column(
                        clause,
                        s.schema,
                        r,
                    ) {
                        lemma_with_matched_logged(s, more, evaluator);
                        lemma_next_matched_logged(s.with_matched(evaluator), more);
                    }
                },
                _ => {},
            }
        },
        StageView::Unmatched(state) => {
            let clause = s.unmatched_clause();
            let at = unmatched_at(s.matched, s.unmatched, j);
            let part = log.subrange(at, log.len() as int);
            assert(more.subrange(at, more.len() as int) =~= part.push(e));
            match reply {
                Reply::Scalar(r) => {
                    let outcome = if state is Cast {
                        state.on_cast(clause, r)
                    } else {
                        state.on_scalar(clause, s.schema, r)
                    };
                    lemma_unmatched_logged_step(clause, s.schema, part, state, reply, outcome);
                    let t = s.reading(state.columns_of(r));
                    if let Ok(UnmatchedState::Bound(evaluator)) = outcome {
                        lemma_with_unmatched_logged(t, more, evaluator);
                        lemma_next_unmatched_logged(t.with_unmatched(evaluator), more);
                    }
                },
                Reply::Schema(r) => {
                    let outcome = state.on_schema(s.schema, r);
                    lemma_unmatched_logged_step(clause, s.schema, part, state, reply, outcome);
                },
                Reply::Type(r) => {
                    let outcome = state.on_type(r);
                    lemma_unmatched_logged_step(clause, s.schema, part, state, reply, outcome);
                },
                _ => {},
            }
        },
        _ => {},
    }
}

/// Whether the exchanges before those of the clauses, as far as there are any, ask what binding
/// a statement asks first, in order.
pub open spec fn prologue_logged(stmt: MergeIntoStmt, log: Seq<Exchange>) -> bool {
    let n = log.len();
    &&& n > 0 ==> log[0].request == RequestView::SplitClauses(stmt.merge_options@)
    &&& n > 1 ==> log[1].request == RequestView::CheckMatchedClauses(log[0].reply->matched@)
    &&& n > 2 ==> log[2].request == RequestView::CheckUnmatchedClauses(log[0].reply->unmatched@)
    &&& n > 3 ==> log[3].request == (RequestView::NormalizeTableName {
        catalog_ident: stmt.catalog,
        database_ident: stmt.database,
        table_ident: stmt.table_ident,
    })
    &&& n > 4 ==> log[4].request == (RequestView::GetTable {
        catalog: log[3].reply->catalog@,
        database: log[3].reply->database@,
        table: log[3].reply->table@,
    })
    &&& n > 5 ==> log[5].request == RequestView::BindSource(stmt.source)
    &&& n > 6 ==> log[6].request == RequestView::BindTarget(target_of(stmt))
    &&& n > 7 ==> log[7].request == (RequestView::FindTableIndex {
        database: log[3].reply->database@,
        table: log[3].reply->table@,
    })
    &&& n > 8 ==> log[8].request == (RequestView::AddInternalColumn {
        database: log[3].reply->database@,
        table: log[3].reply->table@,
        internal_column: InternalColumnType::RowId,
    })
    &&& n > 9 ==> log[9].request == (RequestView::AttachRowId {
        table_index: log[7].reply->TableIndex_0,
        column: log[8].reply->InternalColumn_0->Ok_0,
    })
    &&& n > 10 ==> log[10].request == RequestView::BindJoin(join_of(stmt))
    &&& n > 11 ==> log[11].request == RequestView::BindScalar(stmt.join_expr)
    &&& n > 12 ==> log[12].request == RequestView::ListColumns(log[7].reply->TableIndex_0)
}

proof fn lemma_exchanges_hold_replies(start: MergeState, replies: Seq<Reply>)
    ensures
        exchanges(start, replies).len() == replies.len(),
        forall|i: int|
            0 <= i < replies.len() ==> (#[trigger] exchanges(start, replies)[i]).reply
                == replies[i],
    decreases replies.len(),
{
    if replies.len() > 0 {
        lemma_exchanges_hold_replies(start, replies.drop_last());
    }
}

proof fn lemma_columns_step_logged(s: MergeState, log: Seq<Exchange>, reply: Reply)
    requires
        s.stage is Columns,
        reply is Columns,
        log.len() == 13,
        s.plan.matched_evaluators.len() == 0,
        s.plan.unmatched_evaluators.len() == 0,
    ensures
        s.step(reply) matches Ok(t) ==> clauses_logged(t, log),
{
    let entries = reply->Columns_0@;
    if some_update(s.matched) {
        if let Ok(plan) = with_fields(s.plan, s.schema, entries, s.schema.fields.len()) {
            lemma_with_fields_keeps_evaluators(
                s.plan,
                s.schema,
                entries,
                s.schema.fields.len(),
            );
            lemma_next_matched_logged(MergeState { plan, ..s }, log);
        }
    } else {
        lemma_next_matched_logged(s, log);
    }
}

proof fn lemma_with_fields_keeps_evaluators(
    plan: MergeIntoView,
    schema: SchemaView,
    entries: Seq<ColumnEntry>,
    n: nat,
)
    ensures
        with_fields(plan, schema, entries, n) matches Ok(read) ==> read.matched_evaluators
            == plan.matched_evaluators && read.unmatched_evaluators == plan.unmatched_evaluators,
    decreases n,
{
    if n > 0 {
        lemma_with_fields_keeps_evaluators(plan, schema, entries, (n - 1) as nat);
    }
}

proof fn lemma_run_logged(
    stmt: MergeIntoStmt,
    enabled: Result<bool, ErrorCode>,
    replies: Seq<Reply>,
)
    requires
        merge_start(stmt, enabled) is Ok,
        answered(merge_start(stmt, enabled)->Ok_0, replies),
    ensures
        merge_run(merge_start(stmt, enabled)->Ok_0, replies) matches Ok(s) ==> {
            let log = exchanges(merge_start(stmt, enabled)->Ok_0, replies);
            &&& prologue_logged(stmt, log)
            &&& replies.len() >= 13 ==> clauses_logged(s, log)
        },
    decreases replies.len(),
{
    let start = merge_start(stmt, enabled)->Ok_0;
    if replies.len() > 0 {
        let before = replies.drop_last();
        let reply = replies.last();
        lemma_run_logged(stmt, enabled, before);
        lemma_explained_run(stmt, enabled, before);
        lemma_exchanges_hold_replies(start, before);
        if let Ok(s) = merge_run(start, before) {
            let log = exchanges(start, before);
            let more = log.push(Exchange { request: s.request(), reply });
            assert(more == exchanges(start, replies));
            assert(forall|i: int| 0 <= i < log.len() ==> #[trigger] more[i] == log[i]);
            assert(more[log.len() as int] == Exchange { request: s.request(), reply });
            if before.len() >= 13 {
                lemma_clause_step_logged(
                    s,
                    base_columns(before),
                    log,
                    reply,
                );
            } else if before.len() == 12 {
                lemma_columns_step_logged(s, more, reply);
            }
            assert(prologue_logged(stmt, more));
        }
    }
}

/// A statement that is bound to the end asked, in order, what binding asks before the clauses,
/// then what each matched clause takes, then what each unmatched clause takes, and nothing
/// else. The evaluator of each clause has as its condition, its targets and its values the
/// replies to the requests for that clause: no expression is bound twice, and none is left
/// out.
pub proof fn law_plan_follows_from_exchanges(
    stmt: MergeIntoStmt,
    enabled: Result<bool, ErrorCode>,
    replies: Seq<Reply>,
    s: MergeState,
)
    requires
        binds_to(stmt, enabled, replies, s),
    ensures
        ({
            let log = exchanges(merge_start(stmt, enabled)->Ok_0, replies);
            let (matched, unmatched) = (replies[0]->matched@, replies[0]->unmatched@);
            &&& log.len() == all_requests(matched, unmatched)
            &&& forall|i: int|
                0 <= i < replies.len() ==> (#[trigger] log[i]).reply == replies[i]
            &&& prologue_logged(stmt, log)
            &&& s.plan.matched_evaluators.len() == matched.len()
            &&& s.plan.unmatched_evaluators.len() == unmatched.len()
            &&& matched_evaluators_logged(matched, log, s.plan.matched_evaluators)
            &&& unmatched_evaluators_logged(
                matched,
                unmatched,
                replied_schema(replies),
                log,
                s.plan.unmatched_evaluators,
            )
        }),
{
    let start = merge_start(stmt, enabled)->Ok_0;
    lemma_run_logged(stmt, enabled, replies);
    lemma_explained_run(stmt, enabled, replies);
    lemma_exchanges_hold_replies(start, replies);
}

} // verus!
