//! What holds of every `MERGE INTO` statement that is bound to the end.

use vstd::prelude::*;

use crate::error::{ErrorCode, ErrorView};
use crate::matched::{
    law_matched_column, law_matched_scalar, law_matched_start, matched_start, MatchedState,
    MatchedView,
};
use crate::merge_into::{
    merge_start, with_fields, MergeIntoView, MergeState, Reply, StageView,
};
use crate::schema::{column_named, some_computed, unknown_column, ColumnEntry, SchemaView};
use crate::statement::{some_update, MatchedClause, MergeIntoStmt, UnmatchedClause};
use crate::text::decimal;
use crate::unmatched::{
    law_unmatched_cast, law_unmatched_scalar, law_unmatched_schema, law_unmatched_start,
    law_unmatched_type, unmatched_start, UnmatchedState, UnmatchedView,
};

verus! {

/// The state after some replies, one after the other.
pub open spec fn merge_run(start: MergeState, replies: Seq<Reply>) -> Result<MergeState, ErrorView>
    decreases replies.len(),
{
    if replies.len() == 0 {
        Ok(start)
    } else {
        match merge_run(start, replies.drop_last()) {
            Ok(state) => state.step(replies.last()),
            Err(e) => Err(e),
        }
    }
}

/// Whether each reply is to the request that is at hand when it comes.
pub open spec fn answered(start: MergeState, replies: Seq<Reply>) -> bool
    decreases replies.len(),
{
    replies.len() > 0 ==> {
        &&& answered(start, replies.drop_last())
        &&& merge_run(start, replies.drop_last()) matches Ok(state) ==> state.accepts(
            replies.last(),
        )
    }
}

/// The columns that bound matched clauses have to read.
pub open spec fn matched_columns(evaluators: Seq<MatchedView>) -> Set<usize> {
    Set::new(
        |c: usize|
            exists|i: int|
                0 <= i < evaluators.len() && (#[trigger] evaluators[i]).columns().contains(c),
    )
}

/// The columns that bound unmatched clauses have to read.
pub open spec fn unmatched_columns(evaluators: Seq<UnmatchedView>) -> Set<usize> {
    Set::new(
        |c: usize|
            exists|i: int|
                0 <= i < evaluators.len() && (#[trigger] evaluators[i]).columns().contains(c),
    )
}

proof fn lemma_matched_columns_push(evaluators: Seq<MatchedView>, evaluator: MatchedView)
    ensures
        matched_columns(evaluators.push(evaluator)) == matched_columns(evaluators).union(
            evaluator.columns(),
        ),
{
    let grown = evaluators.push(evaluator);
    let stated = matched_columns(evaluators).union(evaluator.columns());
    assert forall|c: usize| #[trigger]
        matched_columns(grown).contains(c) == stated.contains(c) by {
        if matched_columns(evaluators).contains(c) {
            let i = choose|i: int|
                0 <= i < evaluators.len() && (#[trigger] evaluators[i]).columns().contains(c);
            assert(grown[i].columns().contains(c));
        }
        assert(grown[evaluators.len() as int] == evaluator);
        if matched_columns(grown).contains(c) {
            let i = choose|i: int|
                0 <= i < grown.len() && (#[trigger] grown[i]).columns().contains(c);
            if i < evaluators.len() {
                assert(evaluators[i].columns().contains(c));
            }
        }
    }
    assert(matched_columns(grown) =~= stated);
}

proof fn lemma_unmatched_columns_push(evaluators: Seq<UnmatchedView>, evaluator: UnmatchedView)
    ensures
        unmatched_columns(evaluators.push(evaluator)) == unmatched_columns(evaluators).union(
            evaluator.columns(),
        ),
{
    let grown = evaluators.push(evaluator);
    let stated = unmatched_columns(evaluators).union(evaluator.columns());
    assert forall|c: usize| #[trigger]
        unmatched_columns(grown).contains(c) == stated.contains(c) by {
        if unmatched_columns(evaluators).contains(c) {
            let i = choose|i: int|
                0 <= i < evaluators.len() && (#[trigger] evaluators[i]).columns().contains(c);
            assert(grown[i].columns().contains(c));
        }
        assert(grown[evaluators.len() as int] == evaluator);
        if unmatched_columns(grown).contains(c) {
            let i = choose|i: int|
                0 <= i < grown.len() && (#[trigger] grown[i]).columns().contains(c);
            if i < evaluators.len() {
                assert(evaluators[i].columns().contains(c));
            }
        }
    }
    assert(unmatched_columns(grown) =~= stated);
}

/// Whether two states differ at most in what the clauses contribute.
pub open spec fn same_frame(s: MergeState, t: MergeState) -> bool {
    &&& s.stmt == t.stmt
    &&& s.matched == t.matched
    &&& s.unmatched == t.unmatched
    &&& s.schema == t.schema
    &&& s.row_id == t.row_id
    &&& s.plan.catalog == t.plan.catalog
    &&& s.plan.database == t.plan.database
    &&& s.plan.table == t.plan.table
    &&& s.plan.table_id == t.plan.table_id
    &&& s.plan.target_table_idx == t.plan.target_table_idx
    &&& s.plan.field_index_map == t.plan.field_index_map
}

impl MergeState {
    /// The columns that the clauses bound so far have to read.
    pub open spec fn clause_columns(self) -> Set<usize> {
        matched_columns(self.plan.matched_evaluators).union(
            unmatched_columns(self.plan.unmatched_evaluators),
        )
    }

    /// Whether the clauses bound so far are what the statement's clauses ask for.
    pub open spec fn evaluators_sound(self) -> bool {
        &&& self.plan.matched_evaluators.len() <= self.matched.len()
        &&& self.plan.unmatched_evaluators.len() <= self.unmatched.len()
        &&& forall|i: int|
            0 <= i < self.plan.matched_evaluators.len()
                ==> (#[trigger] self.plan.matched_evaluators[i]).sound(self.matched[i], self.schema)
        &&& forall|i: int|
            0 <= i < self.plan.unmatched_evaluators.len()
                ==> (#[trigger] self.plan.unmatched_evaluators[i]).sound(
                self.unmatched[i],
                self.schema,
            )
    }

    /// What holds while clauses are bound, when `base` is read on account of the rest of the
    /// statement.
    pub open spec fn clauses_sound(self, base: Set<usize>) -> bool {
        &&& self.wf()
        &&& self.evaluators_sound()
        &&& match self.stage {
            StageView::Matched(state) => {
                &&& self.plan.unmatched_evaluators.len() == 0
                &&& !(state is Bound)
                &&& state.sound(self.matched_clause(), self.schema)
                &&& self.plan.columns_set == base.union(self.clause_columns()).union(
                    state.columns(),
                )
            },
            StageView::Unmatched(state) => {
                &&& self.plan.matched_evaluators.len() == self.matched.len()
                &&& !(state is Bound)
                &&& state.sound(self.unmatched_clause(), self.schema)
                &&& self.plan.columns_set == base.union(self.clause_columns()).union(
                    state.columns(),
                )
            },
            StageView::Finished => {
                &&& self.plan.matched_evaluators.len() == self.matched.len()
                &&& self.plan.unmatched_evaluators.len() == self.unmatched.len()
                &&& self.plan.columns_set == base.union(self.clause_columns())
            },
            _ => false,
        }
    }
}

proof fn lemma_next_unmatched(s: MergeState, base: Set<usize>)
    requires
        s.evaluators_sound(),
        s.plan.matched_evaluators.len() == s.matched.len(),
        s.plan.columns_set == base.union(s.clause_columns()),
    ensures
        s.next_unmatched() matches Ok(t) ==> t.clauses_sound(base) && same_frame(s, t),
{
    if s.plan.unmatched_evaluators.len() < s.unmatched.len() {
        law_unmatched_start(s.unmatched_clause(), s.schema);
        if let Ok(state) = unmatched_start(s.unmatched_clause(), s.schema) {
            let read = base.union(s.clause_columns());
            assert(read.union(Set::<usize>::empty()) =~= read);
        }
    }
}

proof fn lemma_next_matched(s: MergeState, base: Set<usize>)
    requires
        s.evaluators_sound(),
        s.plan.unmatched_evaluators.len() == 0,
        s.plan.columns_set == base.union(s.clause_columns()),
    ensures
        s.next_matched() matches Ok(t) ==> t.clauses_sound(base) && same_frame(s, t),
    decreases s.matched.len() - s.plan.matched_evaluators.len(),
{
    if s.plan.matched_evaluators.len() < s.matched.len() {
        law_matched_start(s.matched_clause(), s.schema);
        match matched_start(s.matched_clause()) {
            MatchedState::Bound(evaluator) => {
                let t = s.with_matched(evaluator);
                lemma_matched_columns_push(s.plan.matched_evaluators, evaluator);
                assert(evaluator.columns() =~= Set::<usize>::empty());
                assert(t.clause_columns() =~= s.clause_columns());
                lemma_next_matched(t, base);
            },
            state => {
                let read = base.union(s.clause_columns());
                assert(read.union(Set::<usize>::empty()) =~= read);
            },
        }
    } else {
        lemma_next_unmatched(s, base);
    }
}

proof fn lemma_after_matched(
    s: MergeState,
    base: Set<usize>,
    outcome: Result<MatchedState, ErrorView>,
)
    requires
        s.evaluators_sound(),
        s.plan.unmatched_evaluators.len() == 0,
        s.plan.matched_evaluators.len() < s.matched.len(),
        outcome matches Ok(state) ==> state.wf(s.matched_clause()) && state.sound(
            s.matched_clause(),
            s.schema,
        ) && s.plan.columns_set == base.union(s.clause_columns()).union(state.columns()),
    ensures
        s.after_matched(outcome) matches Ok(t) ==> t.clauses_sound(base) && same_frame(s, t),
{
    if let Ok(MatchedState::Bound(evaluator)) = outcome {
        let t = s.with_matched(evaluator);
        lemma_matched_columns_push(s.plan.matched_evaluators, evaluator);
        assert(t.plan.columns_set =~= base.union(t.clause_columns()));
        lemma_next_matched(t, base);
    }
}

proof fn lemma_after_unmatched(
    s: MergeState,
    base: Set<usize>,
    outcome: Result<UnmatchedState, ErrorView>,
)
    requires
        s.evaluators_sound(),
        s.plan.matched_evaluators.len() == s.matched.len(),
        s.plan.unmatched_evaluators.len() < s.unmatched.len(),
        outcome matches Ok(state) ==> state.wf(s.unmatched_clause()) && state.sound(
            s.unmatched_clause(),
            s.schema,
        ) && s.plan.columns_set == base.union(s.clause_columns()).union(state.columns()),
    ensures
        s.after_unmatched(outcome) matches Ok(t) ==> t.clauses_sound(base) && same_frame(s, t),
{
    if let Ok(UnmatchedState::Bound(evaluator)) = outcome {
        let t = s.with_unmatched(evaluator);
        lemma_unmatched_columns_push(s.plan.unmatched_evaluators, evaluator);
        assert(t.plan.columns_set =~= base.union(t.clause_columns()));
        lemma_next_unmatched(t, base);
    }
}

/// Binding the clauses keeps all that holds of them, whatever the replies, and leaves the
/// rest of the statement alone.
pub proof fn law_clause_step(s: MergeState, base: Set<usize>, reply: Reply)
    requires
        s.clauses_sound(base),
        s.accepts(reply),
    ensures
        s.step(reply) matches Ok(t) ==> t.clauses_sound(base) && same_frame(s, t),
{
    match (s.stage, reply) {
        (StageView::Matched(state), Reply::Scalar(r)) => {
            let clause = s.matched_clause();
            law_matched_scalar(state, clause, s.schema, r);
            let t = s.reading(state.columns_of(r));
            let outcome = state.on_scalar(clause, r);
            if let Ok(next) = outcome {
                assert(t.plan.columns_set =~= base.union(t.clause_columns()).union(next.columns()));
            }
            lemma_after_matched(t, base, outcome);
        },
        (StageView::Matched(state), Reply::Column(r)) => {
            law_matched_column(state, s.matched_clause(), s.schema, r);
            lemma_after_matched(s, base, state.on_column(s.matched_clause(), s.schema, r));
        },
        (StageView::Unmatched(state), Reply::Scalar(r)) => {
            let clause = s.unmatched_clause();
            let t = s.reading(state.columns_of(r));
            if state is Cast {
                law_unmatched_cast(state, clause, s.schema, r);
                let outcome = state.on_cast(clause, r);
                if let Ok(next) = outcome {
                    assert(t.plan.columns_set =~= base.union(t.clause_columns()).union(
                        next.columns(),
                    ));
                }
                lemma_after_unmatched(t, base, outcome);
            } else {
                law_unmatched_scalar(state, clause, s.schema, r);
                let outcome = state.on_scalar(clause, s.schema, r);
                if let Ok(next) = outcome {
                    assert(t.plan.columns_set =~= base.union(t.clause_columns()).union(
                        next.columns(),
                    ));
                }
                lemma_after_unmatched(t, base, outcome);
            }
        },
        (StageView::Unmatched(state), Reply::Schema(r)) => {
            law_unmatched_schema(state, s.unmatched_clause(), s.schema, r);
            lemma_after_unmatched(s, base, state.on_schema(s.schema, r));
        },
        (StageView::Unmatched(state), Reply::Type(r)) => {
            law_unmatched_type(state, s.unmatched_clause(), s.schema, r);
            lemma_after_unmatched(s, base, state.on_type(r));
        },
        _ => {},
    }
}

/// The columns that hold the first `n` fields of a table.
pub open spec fn field_columns(schema: SchemaView, entries: Seq<ColumnEntry>, n: nat) -> Set<
    usize,
> {
    Set::new(
        |c: usize|
            exists|i: int|
                0 <= i < n && column_named(entries, (#[trigger] schema.fields[i]).name@) == Some(c),
    )
}

/// The first `n` fields of a table, each with the column that holds it.
pub open spec fn field_map(schema: SchemaView, entries: Seq<ColumnEntry>, n: nat) -> Map<
    usize,
    Seq<char>,
> {
    Map::new(
        |i: usize| i < n,
        |i: usize| decimal(column_named(entries, schema.fields[i as int].name@)->0 as nat),
    )
}

/// Whether the first `n` fields of a table each have a column.
pub open spec fn all_fields_found(schema: SchemaView, entries: Seq<ColumnEntry>, n: nat) -> bool {
    forall|i: int| 0 <= i < n ==> column_named(entries, (#[trigger] schema.fields[i]).name@) is Some
}

/// A statement that updates reads a column for every field of its target and maps every field
/// to its column. It fails exactly when some field has no column, and then for the first such
/// field.
pub proof fn law_update_reads_every_field(
    plan: MergeIntoView,
    schema: SchemaView,
    entries: Seq<ColumnEntry>,
    n: nat,
)
    requires
        plan.field_index_map == Map::<usize, Seq<char>>::empty(),
        n <= schema.fields.len(),
        n <= usize::MAX,
    ensures
        match with_fields(plan, schema, entries, n) {
            Ok(read) => all_fields_found(schema, entries, n) && read == (MergeIntoView {
                columns_set: plan.columns_set.union(field_columns(schema, entries, n)),
                field_index_map: field_map(schema, entries, n),
                ..plan
            }),
            Err(e) => exists|i: int|
                0 <= i < n && column_named(entries, (#[trigger] schema.fields[i]).name@) is None
                    && all_fields_found(schema, entries, i as nat) && e == unknown_column(
                    schema.fields[i].name@,
                ),
        },
    decreases n,
{
    if n == 0 {
        assert(plan.columns_set.union(field_columns(schema, entries, 0)) =~= plan.columns_set);
        assert(field_map(schema, entries, 0) =~= plan.field_index_map);
    } else {
        let last = n - 1;
        law_update_reads_every_field(plan, schema, entries, last as nat);
        let name = schema.fields[last].name@;
        match (with_fields(plan, schema, entries, last as nat), column_named(entries, name)) {
            (Ok(before), Some(index)) => {
                let columns = before.columns_set.insert(index);
                let stated = plan.columns_set.union(field_columns(schema, entries, n));
                assert forall|c: usize| columns.contains(c) == #[trigger] stated.contains(c) by {
                    if field_columns(schema, entries, n).contains(c) {
                        let i = choose|i: int|
                            0 <= i < n && column_named(
                                entries,
                                (#[trigger] schema.fields[i]).name@,
                            ) == Some(c);
                        if i < last {
                            assert(field_columns(schema, entries, last as nat).contains(c));
                        }
                    }
                }
                assert(columns =~= stated);
                assert(before.field_index_map.insert(last as usize, decimal(index as nat))
                    =~= field_map(schema, entries, n));
            },
            (Ok(_), None) => {
                assert(column_named(entries, schema.fields[last].name@) is None);
            },
            (Err(_), _) => {},
        }
    }
}

/// The schema of the target table, from the reply that holds it.
pub open spec fn replied_schema(replies: Seq<Reply>) -> SchemaView {
    replies[4]->Table_0->Ok_0.schema@
}

/// Whether some matched clause updates, from the reply that holds them.
pub open spec fn replied_update(replies: Seq<Reply>) -> bool {
    some_update(replies[0]->matched@)
}

/// The columns that are read whatever the clauses are: those of the source, the row id, and
/// those of the join condition.
pub open spec fn join_columns(replies: Seq<Reply>) -> Set<usize> {
    replies[5]->Source_0->Ok_0@.insert(replies[8]->InternalColumn_0->Ok_0).union(
        replies[11]->Scalar_0->Ok_0.columns(),
    )
}

/// The columns that are read besides those of the clauses: for a statement that updates, all
/// columns of the target are among them.
pub open spec fn base_columns(replies: Seq<Reply>) -> Set<usize> {
    if replied_update(replies) {
        let schema = replied_schema(replies);
        join_columns(replies).union(
            field_columns(schema, replies[12]->Columns_0@, schema.fields.len()),
        )
    } else {
        join_columns(replies)
    }
}

/// The column of each field of the target, for a statement that updates.
pub open spec fn base_map(replies: Seq<Reply>) -> Map<usize, Seq<char>> {
    if replied_update(replies) {
        let schema = replied_schema(replies);
        field_map(schema, replies[12]->Columns_0@, schema.fields.len())
    } else {
        Map::empty()
    }
}

/// How many replies lead to a stage before the clauses.
pub open spec fn stage_number(stage: StageView) -> int {
    match stage {
        StageView::Split => 0,
        StageView::CheckMatched => 1,
        StageView::CheckUnmatched => 2,
        StageView::Name => 3,
        StageView::Table => 4,
        StageView::Source => 5,
        StageView::Target => 6,
        StageView::TableIndex => 7,
        StageView::RowId => 8,
        StageView::AttachRowId => 9,
        StageView::Join => 10,
        StageView::JoinCondition => 11,
        StageView::Columns => 12,
        _ => 13,
    }
}

/// What a state holds after some replies.
pub open spec fn explained(stmt: MergeIntoStmt, replies: Seq<Reply>, s: MergeState) -> bool {
    let n = replies.len();
    &&& s.stmt == stmt
    &&& if n < 13 {
        stage_number(s.stage) == n
    } else {
        stage_number(s.stage) == 13
    }
    &&& n < 13 ==> {
        &&& s.plan.matched_evaluators.len() == 0
        &&& s.plan.unmatched_evaluators.len() == 0
        &&& s.plan.field_index_map == Map::<usize, Seq<char>>::empty()
    }
    &&& n >= 1 ==> replies[0] is Clauses && s.matched == replies[0]->matched@ && s.unmatched
        == replies[0]->unmatched@
    &&& n >= 2 ==> (replies[1] matches Reply::Checked(Ok(_)))
    &&& n >= 3 ==> (replies[2] matches Reply::Checked(Ok(_)))
    &&& n >= 4 ==> replies[3] is TableName && s.plan.catalog == replies[3]->catalog@
        && s.plan.database == replies[3]->database@ && s.plan.table == replies[3]->table@
    &&& n >= 5 ==> (replies[4] matches Reply::Table(Ok(table)) && s.schema == table.schema@
        && s.plan.table_id == table.id && !some_computed(table.schema@.fields))
    &&& n >= 6 ==> (replies[5] matches Reply::Source(Ok(_)))
    &&& n >= 7 ==> (replies[6] matches Reply::Bound(Ok(_)))
    &&& n >= 8 ==> replies[7] == Reply::TableIndex(s.plan.target_table_idx)
    &&& n >= 9 ==> (replies[8] matches Reply::InternalColumn(Ok(column)) && s.row_id == column)
    &&& n >= 10 ==> replies[9] is Attached
    &&& n >= 11 ==> (replies[10] matches Reply::Bound(Ok(_)))
    &&& n >= 12 ==> (replies[11] matches Reply::Scalar(Ok(_)))
    &&& n >= 13 ==> replies[12] is Columns
    &&& 6 <= n <= 9 ==> s.plan.columns_set == replies[5]->Source_0->Ok_0@
    &&& 10 <= n <= 11 ==> s.plan.columns_set == replies[5]->Source_0->Ok_0@.insert(s.row_id)
    &&& n == 12 ==> s.plan.columns_set == join_columns(replies)
    &&& n >= 13 ==> {
        &&& s.clauses_sound(base_columns(replies))
        &&& s.plan.field_index_map == base_map(replies)
        &&& replied_update(replies) ==> all_fields_found(
            s.schema,
            replies[12]->Columns_0@,
            s.schema.fields.len(),
        )
    }
}

proof fn lemma_explained_step(stmt: MergeIntoStmt, replies: Seq<Reply>, s: MergeState, reply: Reply)
    requires
        explained(stmt, replies, s),
        s.accepts(reply),
    ensures
        s.step(reply) matches Ok(t) ==> explained(stmt, replies.push(reply), t),
{
    let more = replies.push(reply);
    assert forall|i: int| 0 <= i < replies.len() implies #[trigger] more[i] == replies[i] by {}
    assert(more[replies.len() as int] == reply);
    if replies.len() >= 13 {
        law_clause_step(s, base_columns(replies), reply);
        assert(base_columns(more) == base_columns(replies));
        assert(base_map(more) == base_map(replies));
    } else if let (StageView::Columns, Reply::Columns(entries)) = (s.stage, reply) {
        let schema = s.schema;
        let table = replies[4]->Table_0->Ok_0;
        assert(schema.fields.len() == table.schema.fields.len());
        assert(matched_columns(s.plan.matched_evaluators) =~= Set::<usize>::empty());
        assert(unmatched_columns(s.plan.unmatched_evaluators) =~= Set::<usize>::empty());
        assert(join_columns(more) == join_columns(replies));
        if some_update(s.matched) {
            law_update_reads_every_field(s.plan, schema, entries@, schema.fields.len());
            if let Ok(plan) = with_fields(s.plan, schema, entries@, schema.fields.len()) {
                let t = MergeState { plan, ..s };
                assert(t.plan.columns_set =~= base_columns(more).union(t.clause_columns()));
                lemma_next_matched(t, base_columns(more));
            }
        } else {
            assert(s.plan.columns_set =~= base_columns(more).union(s.clause_columns()));
            lemma_next_matched(s, base_columns(more));
        }
    }
}

/// Every state that a statement leads to is explained by the replies.
pub proof fn lemma_explained_run(
    stmt: MergeIntoStmt,
    enabled: Result<bool, ErrorCode>,
    replies: Seq<Reply>,
)
    requires
        merge_start(stmt, enabled) is Ok,
        answered(merge_start(stmt, enabled)->Ok_0, replies),
    ensures
        merge_run(merge_start(stmt, enabled)->Ok_0, replies) matches Ok(s) ==> explained(
            stmt,
            replies,
            s,
        ),
    decreases replies.len(),
{
    let start = merge_start(stmt, enabled)->Ok_0;
    if replies.len() > 0 {
        let before = replies.drop_last();
        lemma_explained_run(stmt, enabled, before);
        if let Ok(s) = merge_run(start, before) {
            lemma_explained_step(stmt, before, s, replies.last());
            assert(before.push(replies.last()) == replies);
        }
    }
}

/// Whether a statement leads, with these replies, to this state.
pub open spec fn leads_to(
    stmt: MergeIntoStmt,
    enabled: Result<bool, ErrorCode>,
    replies: Seq<Reply>,
    s: MergeState,
) -> bool {
    merge_start(stmt, enabled) matches Ok(start) && answered(start, replies) && merge_run(
        start,
        replies,
    ) == Ok::<MergeState, ErrorView>(s)
}

/// Whether a statement is bound to the end, with these replies, and leads to this state.
pub open spec fn binds_to(
    stmt: MergeIntoStmt,
    enabled: Result<bool, ErrorCode>,
    replies: Seq<Reply>,
    s: MergeState,
) -> bool {
    leads_to(stmt, enabled, replies, s) && s.stage is Finished
}

/// A statement that is bound to the end has a plan for the table that the name resolution and
/// the catalog gave. The table has no computed field.
pub proof fn law_plan_is_for_the_target(
    stmt: MergeIntoStmt,
    enabled: Result<bool, ErrorCode>,
    replies: Seq<Reply>,
    s: MergeState,
)
    requires
        binds_to(stmt, enabled, replies, s),
    ensures
        replies.len() >= 13,
        replies[3] matches Reply::TableName { catalog, database, table } && s.plan.catalog
            == catalog@ && s.plan.database == database@ && s.plan.table == table@,
        replies[4] matches Reply::Table(Ok(table)) && s.plan.table_id == table.id
            && !some_computed(table.schema@.fields),
        replies[7] == Reply::TableIndex(s.plan.target_table_idx),
{
    lemma_explained_run(stmt, enabled, replies);
}

/// A statement that is bound to the end reads exactly the columns of its source, the row id of
/// its target, the columns of its join condition, for a statement that updates a column for
/// every field of its target, and the columns that its bound clauses refer to. The values that
/// an update assigns do not count among the latter.
pub proof fn law_plan_reads(
    stmt: MergeIntoStmt,
    enabled: Result<bool, ErrorCode>,
    replies: Seq<Reply>,
    s: MergeState,
)
    requires
        binds_to(stmt, enabled, replies, s),
    ensures
        s.plan.columns_set == base_columns(replies).union(
            matched_columns(s.plan.matched_evaluators),
        ).union(unmatched_columns(s.plan.unmatched_evaluators)),
{
    lemma_explained_run(stmt, enabled, replies);
    assert(s.plan.columns_set =~= base_columns(replies).union(
        matched_columns(s.plan.matched_evaluators),
    ).union(unmatched_columns(s.plan.unmatched_evaluators)));
}

/// A statement that is bound to the end and updates maps every field of its target to its
/// column; one that does not update maps none.
pub proof fn law_plan_maps_fields(
    stmt: MergeIntoStmt,
    enabled: Result<bool, ErrorCode>,
    replies: Seq<Reply>,
    s: MergeState,
)
    requires
        binds_to(stmt, enabled, replies, s),
    ensures
        s.plan.field_index_map == base_map(replies),
        replied_update(replies) ==> all_fields_found(
            replied_schema(replies),
            replies[12]->Columns_0@,
            replied_schema(replies).fields.len(),
        ),
{
    lemma_explained_run(stmt, enabled, replies);
}

/// A statement that is bound to the end has one evaluator for each clause, in the order of the
/// clauses, and each is what its clause asks for.
pub proof fn law_plan_has_every_clause(
    stmt: MergeIntoStmt,
    enabled: Result<bool, ErrorCode>,
    replies: Seq<Reply>,
    s: MergeState,
)
    requires
        binds_to(stmt, enabled, replies, s),
    ensures
        s.plan.matched_evaluators.len() == replies[0]->matched@.len(),
        s.plan.unmatched_evaluators.len() == replies[0]->unmatched@.len(),
        forall|i: int|
            0 <= i < s.plan.matched_evaluators.len()
                ==> (#[trigger] s.plan.matched_evaluators[i]).sound(
                replies[0]->matched@[i],
                replied_schema(replies),
            ),
        forall|i: int|
            0 <= i < s.plan.unmatched_evaluators.len()
                ==> (#[trigger] s.plan.unmatched_evaluators[i]).sound(
                replies[0]->unmatched@[i],
                replied_schema(replies),
            ),
{
    lemma_explained_run(stmt, enabled, replies);
}

/// An error in a reply ends the statement with that error.
pub proof fn law_failed_reply_ends_binding(s: MergeState, reply: Reply, e: ErrorCode)
    requires
        s.wf(),
        s.accepts(reply),
        match reply {
            Reply::Checked(r) => r == Err::<(), ErrorCode>(e),
            Reply::Table(r) => r matches Err(f) && e == f,
            Reply::Source(r) => r matches Err(f) && e == f,
            Reply::Bound(r) => r matches Err(f) && e == f,
            Reply::InternalColumn(r) => r matches Err(f) && e == f,
            Reply::Scalar(r) => r matches Err(f) && e == f,
            Reply::Column(r) => r matches Err(f) && e == f,
            Reply::Schema(r) => r matches Err(f) && e == f,
            Reply::Type(r) => r matches Err(f) && e == f,
            _ => false,
        },
    ensures
        s.step(reply) == Err::<MergeState, ErrorView>(e@),
{
}

/// How many requests a matched clause takes: one for its condition, and two for each
/// assignment.
pub open spec fn matched_requests(clause: MatchedClause) -> nat {
    (if clause.selection is Some {
        1nat
    } else {
        0nat
    }) + 2 * clause.updates().len()
}

/// How many requests an unmatched clause takes: one for its condition, one for its list of
/// columns, and three for each value.
pub open spec fn unmatched_requests(clause: UnmatchedClause) -> nat {
    (if clause.selection is Some {
        1nat
    } else {
        0nat
    }) + (if clause.insert_operation.columns is Some {
        1nat
    } else {
        0nat
    }) + 3 * clause.insert_operation.values@.len()
}

/// How many requests the first `n` matched clauses take.
pub open spec fn all_matched_requests(clauses: Seq<MatchedClause>, n: nat) -> nat
    decreases n,
{
    if n == 0 {
        0
    } else {
        all_matched_requests(clauses, (n - 1) as nat) + matched_requests(clauses[n - 1])
    }
}

/// How many requests the first `n` unmatched clauses take.
pub open spec fn all_unmatched_requests(clauses: Seq<UnmatchedClause>, n: nat) -> nat
    decreases n,
{
    if n == 0 {
        0
    } else {
        all_unmatched_requests(clauses, (n - 1) as nat) + unmatched_requests(clauses[n - 1])
    }
}

/// How many requests a statement with these clauses takes.
pub open spec fn all_requests(matched: Seq<MatchedClause>, unmatched: Seq<UnmatchedClause>) -> nat {
    13 + all_matched_requests(matched, matched.len()) + all_unmatched_requests(
        unmatched,
        unmatched.len(),
    )
}

spec fn matched_done(state: MatchedState, clause: MatchedClause) -> int {
    let condition: int = if clause.selection is Some {
        1
    } else {
        0
    };
    match state {
        MatchedState::Condition => 0,
        MatchedState::Value { next, .. } => condition + 2 * next,
        MatchedState::Target { next, .. } => condition + 2 * next + 1,
        MatchedState::Bound(_) => matched_requests(clause) as int,
    }
}

spec fn unmatched_done(state: UnmatchedState, clause: UnmatchedClause) -> int {
    let condition: int = if clause.selection is Some {
        1
    } else {
        0
    };
    let first: int = condition + if clause.insert_operation.columns is Some {
        1int
    } else {
        0int
    };
    match state {
        UnmatchedState::Condition => 0,
        UnmatchedState::Schema { .. } => condition,
        UnmatchedState::Value { evaluator } => first + 3 * evaluator.values.len(),
        UnmatchedState::Type { evaluator, .. } => first + 3 * evaluator.values.len() + 1,
        UnmatchedState::Cast { evaluator, .. } => first + 3 * evaluator.values.len() + 2,
        UnmatchedState::Bound(_) => unmatched_requests(clause) as int,
    }
}

/// How many requests the clauses took so far.
spec fn clauses_done(s: MergeState) -> int {
    all_matched_requests(s.matched, s.plan.matched_evaluators.len()) + all_unmatched_requests(
        s.unmatched,
        s.plan.unmatched_evaluators.len(),
    ) + match s.stage {
        StageView::Matched(state) => matched_done(state, s.matched_clause()),
        StageView::Unmatched(state) => unmatched_done(state, s.unmatched_clause()),
        _ => 0,
    }
}

proof fn lemma_next_unmatched_takes_none(s: MergeState)
    ensures
        s.next_unmatched() matches Ok(t) ==> clauses_done(t) == clauses_done(
            s.at(StageView::Finished),
        ),
{
}

proof fn lemma_next_matched_takes_none(s: MergeState)
    ensures
        s.next_matched() matches Ok(t) ==> clauses_done(t) == clauses_done(
            s.at(StageView::Finished),
        ),
    decreases s.matched.len() - s.plan.matched_evaluators.len(),
{
    if s.plan.matched_evaluators.len() < s.matched.len() {
        match matched_start(s.matched_clause()) {
            MatchedState::Bound(evaluator) => {
                lemma_next_matched_takes_none(s.with_matched(evaluator));
            },
            _ => {},
        }
    } else {
        lemma_next_unmatched_takes_none(s);
    }
}

proof fn lemma_clause_step_takes_one(s: MergeState, base: Set<usize>, reply: Reply)
    requires
        s.clauses_sound(base),
        s.accepts(reply),
    ensures
        s.step(reply) matches Ok(t) ==> clauses_done(t) == clauses_done(s) + 1,
{
    match (s.stage, reply) {
        (StageView::Matched(state), Reply::Scalar(r)) => {
            let t = s.reading(state.columns_of(r));
            if let Ok(MatchedState::Bound(evaluator)) = state.on_scalar(s.matched_clause(), r) {
                lemma_next_matched_takes_none(t.with_matched(evaluator));
            }
        },
        (StageView::Matched(state), Reply::Column(r)) => {
            if let Ok(MatchedState::Bound(evaluator)) = state.on_column(
                s.matched_clause(),
                s.schema,
                r,
            ) {
                lemma_next_matched_takes_none(s.with_matched(evaluator));
            }
        },
        (StageView::Unmatched(state), Reply::Scalar(r)) => {
            let t = s.reading(state.columns_of(r));
            if state is Cast {
                if let Ok(UnmatchedState::Bound(evaluator)) = state.on_cast(
                    s.unmatched_clause(),
                    r,
                ) {
                    lemma_next_unmatched_takes_none(t.with_unmatched(evaluator));
                }
            }
        },
        _ => {},
    }
}

proof fn lemma_run_takes(
    stmt: MergeIntoStmt,
    enabled: Result<bool, ErrorCode>,
    replies: Seq<Reply>,
)
    requires
        merge_start(stmt, enabled) is Ok,
        answered(merge_start(stmt, enabled)->Ok_0, replies),
    ensures
        merge_run(merge_start(stmt, enabled)->Ok_0, replies) matches Ok(s) ==> (replies.len() >= 13
            ==> replies.len() == 13 + clauses_done(s)),
    decreases replies.len(),
{
    let start = merge_start(stmt, enabled)->Ok_0;
    if replies.len() > 0 {
        let before = replies.drop_last();
        lemma_run_takes(stmt, enabled, before);
        lemma_explained_run(stmt, enabled, before);
        if let Ok(s) = merge_run(start, before) {
            let reply = replies.last();
            if before.len() >= 13 {
                lemma_clause_step_takes_one(s, base_columns(before), reply);
            } else if let (StageView::Columns, Reply::Columns(entries)) = (s.stage, reply) {
                if some_update(s.matched) {
                    let table = before[4]->Table_0->Ok_0;
                    assert(s.schema.fields.len() == table.schema.fields.len());
                    law_update_reads_every_field(
                        s.plan,
                        s.schema,
                        entries@,
                        s.schema.fields.len(),
                    );
                    if let Ok(plan) = with_fields(
                        s.plan,
                        s.schema,
                        entries@,
                        s.schema.fields.len(),
                    ) {
                        lemma_next_matched_takes_none(MergeState { plan, ..s });
                    }
                } else {
                    lemma_next_matched_takes_none(s);
                }
            }
        }
    }
}

/// More clauses take no fewer requests.
pub proof fn lemma_more_matched_requests(clauses: Seq<MatchedClause>, n: nat, m: nat)
    requires
        n <= m,
    ensures
        all_matched_requests(clauses, n) <= all_matched_requests(clauses, m),
    decreases m,
{
    if n < m {
        lemma_more_matched_requests(clauses, n, (m - 1) as nat);
    }
}

/// More clauses take no fewer requests.
pub proof fn lemma_more_unmatched_requests(clauses: Seq<UnmatchedClause>, n: nat, m: nat)
    requires
        n <= m,
    ensures
        all_unmatched_requests(clauses, n) <= all_unmatched_requests(clauses, m),
    decreases m,
{
    if n < m {
        lemma_more_unmatched_requests(clauses, n, (m - 1) as nat);
    }
}

/// Binding comes to an end: unless it fails, a statement takes a number of requests that its
/// clauses alone determine, and it is bound as soon as so many are answered, not before.
pub proof fn law_binding_ends(
    stmt: MergeIntoStmt,
    enabled: Result<bool, ErrorCode>,
    replies: Seq<Reply>,
    s: MergeState,
)
    requires
        leads_to(stmt, enabled, replies, s),
        replies.len() > 0,
    ensures
        replies[0] is Clauses,
        replies.len() <= all_requests(replies[0]->matched@, replies[0]->unmatched@),
        s.stage is Finished <==> replies.len() == all_requests(
            replies[0]->matched@,
            replies[0]->unmatched@,
        ),
{
    lemma_run_takes(stmt, enabled, replies);
    lemma_explained_run(stmt, enabled, replies);
    if replies.len() >= 13 {
        let (i, j) = (s.plan.matched_evaluators.len(), s.plan.unmatched_evaluators.len());
        match s.stage {
            StageView::Matched(_) => {
                lemma_more_matched_requests(s.matched, i + 1, s.matched.len());
                lemma_more_unmatched_requests(s.unmatched, j, s.unmatched.len());
            },
            StageView::Unmatched(_) => {
                lemma_more_unmatched_requests(s.unmatched, j + 1, s.unmatched.len());
            },
            _ => {},
        }
    }
}

} // verus!
