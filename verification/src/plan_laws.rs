//! What the plan of a bound `MERGE INTO` statement holds, said of the replies that led to it.

use vstd::prelude::*;

use crate::error::{ErrorCode, ErrorKind, ErrorView};
use crate::matched::MatchedView;
use crate::merge_into::{
    merge_start, with_fields, JoinOperator, MergeIntoView, MergeState, Reply, RequestView,
};
use crate::merge_laws::{
    all_fields_found, binds_to, field_columns, field_map, law_plan_is_for_the_target,
    law_plan_maps_fields, law_plan_reads, law_update_reads_every_field, lemma_explained_run,
    matched_columns, unmatched_columns,
};
use crate::merge_log::{exchanges, law_plan_follows_from_exchanges};
use crate::scalar::{law_all_columns_are_references, law_columns_are_references};
use crate::schema::{column_named, law_first_column_counts, ColumnEntry, TableField};
use crate::statement::{
    law_any_update_counts, law_deletes_do_not_update, some_update, MatchOperation, MatchedClause,
    MergeIntoStmt,
};
use crate::text::decimal;
use crate::unmatched::UnmatchedView;

verus! {

/// Whether the column at `j` has a name, and no column before it has.
pub open spec fn first_named(entries: Seq<ColumnEntry>, j: int, name: Seq<char>) -> bool {
    &&& 0 <= j < entries.len()
    &&& entries[j].name@ == name
    &&& forall|i: int| 0 <= i < j ==> (#[trigger] entries[i]).name@ != name
}

/// Looking a name up gives the column at `j` exactly when that is the first with the name.
pub proof fn law_first_named_is_found(entries: Seq<ColumnEntry>, name: Seq<char>)
    ensures
        forall|j: int| #[trigger]
            first_named(entries, j, name) ==> column_named(entries, name) == Some(entries[j].index),
        column_named(entries, name) matches Some(index) ==> exists|j: int| #[trigger]
            first_named(entries, j, name) && entries[j].index == index,
        column_named(entries, name) is None <==> forall|j: int|
            0 <= j < entries.len() ==> (#[trigger] entries[j]).name@ != name,
{
    law_first_column_counts(entries, name);
    if let Some(index) = column_named(entries, name) {
        let i = choose|i: int|
            0 <= i < entries.len() && (#[trigger] entries[i]).name@ == name && entries[i].index
                == index && forall|j: int| 0 <= j < i ==> (#[trigger] entries[j]).name@ != name;
        assert(first_named(entries, i, name));
        assert forall|j: int| #[trigger] first_named(entries, j, name) implies i == j by {
            if i < j {
                assert(entries[i].name@ != name);
            } else if j < i {
                assert(entries[j].name@ != name);
            }
        }
    }
}

proof fn lemma_update_or_deletes(clauses: Seq<MatchedClause>)
    ensures
        some_update(clauses) <==> exists|i: int|
            0 <= i < clauses.len() && (#[trigger] clauses[i]).operation is Update,
{
    if exists|i: int| 0 <= i < clauses.len() && (#[trigger] clauses[i]).operation is Update {
        let i = choose|i: int|
            0 <= i < clauses.len() && (#[trigger] clauses[i]).operation is Update;
        law_any_update_counts(clauses, i, clauses[i].selection, clauses[i].operation->update_list);
    } else {
        assert forall|i: int| 0 <= i < clauses.len() implies (#[trigger] clauses[i]).operation
            == MatchOperation::Delete by {
            assert(!(clauses[i].operation is Update));
        }
        law_deletes_do_not_update(clauses);
    }
}

/// When all clauses delete, the listed columns change nothing: the clauses follow.
pub proof fn law_deletes_need_no_fields(s: MergeState, entries: Vec<ColumnEntry>)
    requires
        s.stage is Columns,
        forall|i: int|
            0 <= i < s.matched.len() ==> (#[trigger] s.matched[i]).operation
                == MatchOperation::Delete,
    ensures
        s.step(Reply::Columns(entries)) == s.next_matched(),
{
    law_deletes_do_not_update(s.matched);
}

/// When some clause updates, with however many assignments, and a field of the target has no
/// column with its name, binding ends with an error that names the first such field.
pub proof fn law_update_needs_every_field(
    s: MergeState,
    entries: Vec<ColumnEntry>,
    i: int,
    k: int,
)
    requires
        s.stage is Columns,
        s.plan.field_index_map == Map::<usize, Seq<char>>::empty(),
        s.schema.fields.len() <= usize::MAX,
        0 <= i < s.matched.len(),
        s.matched[i].operation is Update,
        0 <= k < s.schema.fields.len(),
        forall|j: int|
            0 <= j < entries@.len() ==> (#[trigger] entries@[j]).name@ != s.schema.fields[k].name@,
        forall|h: int|
            0 <= h < k ==> exists|j: int|
                0 <= j < entries@.len() && (#[trigger] entries@[j]).name@ == (
                #[trigger] s.schema.fields[h]).name@,
    ensures
        s.step(Reply::Columns(entries)) == Err::<MergeState, ErrorView>(
            ErrorView {
                kind: ErrorKind::BadArguments,
                message: "not found col name: "@ + s.schema.fields[k].name@,
            },
        ),
{
    let schema = s.schema;
    let n = schema.fields.len();
    lemma_update_or_deletes(s.matched);
    law_update_reads_every_field(s.plan, schema, entries@, n);
    law_first_named_is_found(entries@, schema.fields[k].name@);
    assert forall|h: int| 0 <= h < k implies column_named(
        entries@,
        (#[trigger] schema.fields[h]).name@,
    ) is Some by {
        law_first_named_is_found(entries@, schema.fields[h].name@);
    }
    if let Err(e) = with_fields(s.plan, schema, entries@, n) {
        let h = choose|h: int|
            0 <= h < n && column_named(entries@, (#[trigger] schema.fields[h]).name@) is None
                && all_fields_found(schema, entries@, h as nat)
                && e == crate::schema::unknown_column(schema.fields[h].name@);
        assert(h == k);
    } else {
        assert(column_named(entries@, schema.fields[k].name@) is Some);
    }
}

/// When some clause updates, with however many assignments, and every field of the target has a
/// column with its name, the first such column of each field is read besides, each field is
/// mapped to that column, and the clauses follow. Nothing else changes.
pub proof fn law_update_reads_the_fields(
    s: MergeState,
    entries: Vec<ColumnEntry>,
    i: int,
    columns: Set<usize>,
    map: Map<usize, Seq<char>>,
)
    requires
        s.stage is Columns,
        s.plan.field_index_map == Map::<usize, Seq<char>>::empty(),
        s.schema.fields.len() <= usize::MAX,
        0 <= i < s.matched.len(),
        s.matched[i].operation is Update,
        forall|k: int|
            0 <= k < s.schema.fields.len() ==> exists|j: int|
                first_named(entries@, j, (#[trigger] s.schema.fields[k]).name@),
        forall|c: usize| #[trigger]
            columns.contains(c) <==> s.plan.columns_set.contains(c) || exists|k: int, j: int|
                0 <= k < s.schema.fields.len() && #[trigger] first_named(
                    entries@,
                    j,
                    s.schema.fields[k].name@,
                ) && entries@[j].index == c,
        forall|k: usize| #[trigger] map.contains_key(k) <==> k < s.schema.fields.len(),
        forall|k: usize, j: int|
            k < s.schema.fields.len() && #[trigger] first_named(
                entries@,
                j,
                s.schema.fields[k as int].name@,
            ) ==> map[k] == decimal(entries@[j].index as nat),
    ensures
        s.step(Reply::Columns(entries)) == (MergeState {
            plan: MergeIntoView { columns_set: columns, field_index_map: map, ..s.plan },
            ..s
        }).next_matched(),
{
    let schema = s.schema;
    let n = schema.fields.len();
    lemma_update_or_deletes(s.matched);
    law_update_reads_every_field(s.plan, schema, entries@, n);
    assert forall|k: int| 0 <= k < n implies column_named(
        entries@,
        (#[trigger] schema.fields[k]).name@,
    ) is Some by {
        law_first_named_is_found(entries@, schema.fields[k].name@);
    }
    let read = s.plan.columns_set.union(field_columns(schema, entries@, n));
    assert forall|c: usize| #[trigger] read.contains(c) == columns.contains(c) by {
        lemma_field_columns(schema.fields, entries@, c);
    }
    assert(read =~= columns);
    assert forall|k: usize| k < n implies #[trigger] field_map(schema, entries@, n)[k]
        == map[k] by {
        law_first_named_is_found(entries@, schema.fields[k as int].name@);
        let j = choose|j: int| first_named(entries@, j, schema.fields[k as int].name@);
        assert(first_named(entries@, j, schema.fields[k as int].name@));
    }
    assert(field_map(schema, entries@, n) =~= map);
}

/// The columns that hold the fields are the first with their names.
proof fn lemma_field_columns(fields: Seq<TableField>, entries: Seq<ColumnEntry>, c: usize)
    ensures
        (exists|k: int|
            0 <= k < fields.len() && column_named(entries, (#[trigger] fields[k]).name@) == Some(c))
            <==> exists|k: int, j: int|
            0 <= k < fields.len() && #[trigger] first_named(entries, j, fields[k].name@)
                && entries[j].index == c,
{
    if exists|k: int|
        0 <= k < fields.len() && column_named(entries, (#[trigger] fields[k]).name@) == Some(c) {
        let k = choose|k: int|
            0 <= k < fields.len() && column_named(entries, (#[trigger] fields[k]).name@) == Some(c);
        law_first_named_is_found(entries, fields[k].name@);
        let j = choose|j: int| #[trigger]
            first_named(entries, j, fields[k].name@) && entries[j].index == c;
        assert(first_named(entries, j, fields[k].name@));
    }
    if exists|k: int, j: int|
        0 <= k < fields.len() && #[trigger] first_named(entries, j, fields[k].name@)
            && entries[j].index == c {
        let (k, j) = choose|k: int, j: int|
            0 <= k < fields.len() && #[trigger] first_named(entries, j, fields[k].name@)
                && entries[j].index == c;
        law_first_named_is_found(entries, fields[k].name@);
        assert(column_named(entries, fields[k].name@) == Some(c));
    }
}

/// A bound statement with an update at any place among its matched clauses, whatever the update
/// lists, maps every place of the target's fields and no other. Each field is mapped to the
/// first column with its name, written in base ten, and that column is read.
pub proof fn law_updating_plan_maps_every_field(
    stmt: MergeIntoStmt,
    enabled: Result<bool, ErrorCode>,
    replies: Seq<Reply>,
    s: MergeState,
    i: int,
    k: usize,
)
    requires
        binds_to(stmt, enabled, replies, s),
        0 <= i < replies[0]->matched@.len(),
        replies[0]->matched@[i].operation is Update,
    ensures
        ({
            let fields = replies[4]->Table_0->Ok_0.schema.fields@;
            let entries = replies[12]->Columns_0@;
            &&& s.plan.field_index_map.contains_key(k) <==> k < fields.len()
            &&& k < fields.len() ==> exists|j: int| #[trigger]
                first_named(entries, j, fields[k as int].name@) && s.plan.field_index_map[k]
                    == decimal(entries[j].index as nat) && s.plan.columns_set.contains(
                    entries[j].index,
                )
        }),
{
    let table = replies[4]->Table_0->Ok_0;
    let (fields, entries) = (table.schema.fields@, replies[12]->Columns_0@);
    lemma_update_or_deletes(replies[0]->matched@);
    law_plan_maps_fields(stmt, enabled, replies, s);
    law_plan_reads(stmt, enabled, replies, s);
    if k < fields.len() {
        let name = fields[k as int].name@;
        assert(column_named(entries, table.schema@.fields[k as int].name@) is Some);
        law_first_named_is_found(entries, name);
        let index = column_named(entries, name)->0;
        let j = choose|j: int| #[trigger]
            first_named(entries, j, name) && entries[j].index == index;
        assert(field_columns(table.schema@, entries, fields.len()).contains(index));
        assert(first_named(entries, j, name));
    }
}

/// A bound statement whose matched clauses all delete maps no field.
pub proof fn law_deleting_plan_maps_no_field(
    stmt: MergeIntoStmt,
    enabled: Result<bool, ErrorCode>,
    replies: Seq<Reply>,
    s: MergeState,
    k: usize,
)
    requires
        binds_to(stmt, enabled, replies, s),
        forall|i: int|
            0 <= i < replies[0]->matched@.len() ==> (#[trigger] replies[0]->matched@[i]).operation
                == MatchOperation::Delete,
    ensures
        !s.plan.field_index_map.contains_key(k),
{
    law_deletes_do_not_update(replies[0]->matched@);
    law_plan_maps_fields(stmt, enabled, replies, s);
}

/// Whether some bound matched clause refers to a column in its condition.
pub open spec fn matched_refer(evaluators: Seq<MatchedView>, c: usize) -> bool {
    exists|i: int, j: int|
        0 <= i < evaluators.len() && evaluators[i].condition is Some && 0 <= j
            < evaluators[i].condition->0.column_refs@.len()
            && #[trigger] evaluators[i].condition->0.column_refs@[j] == c
}

/// Whether some bound unmatched clause refers to a column in its condition or in a value.
pub open spec fn unmatched_refer(evaluators: Seq<UnmatchedView>, c: usize) -> bool {
    ||| exists|i: int, j: int|
        0 <= i < evaluators.len() && evaluators[i].condition is Some && 0 <= j
            < evaluators[i].condition->0.column_refs@.len()
            && #[trigger] evaluators[i].condition->0.column_refs@[j] == c
    ||| exists|i: int, v: int, j: int|
        0 <= i < evaluators.len() && 0 <= v < evaluators[i].values.len() && 0 <= j
            < evaluators[i].values[v].column_refs@.len()
            && #[trigger] evaluators[i].values[v].column_refs@[j] == c
}

proof fn lemma_matched_refer(evaluators: Seq<MatchedView>, c: usize)
    ensures
        matched_columns(evaluators).contains(c) <==> matched_refer(evaluators, c),
{
    if matched_columns(evaluators).contains(c) {
        let i = choose|i: int|
            0 <= i < evaluators.len() && (#[trigger] evaluators[i]).columns().contains(c);
        let scalar = evaluators[i].condition->0;
        law_columns_are_references(scalar, c);
        let j = choose|j: int|
            0 <= j < scalar.column_refs@.len() && #[trigger] scalar.column_refs@[j] == c;
        assert(evaluators[i].condition->0.column_refs@[j] == c);
    }
    if matched_refer(evaluators, c) {
        let (i, j) = choose|i: int, j: int|
            0 <= i < evaluators.len() && evaluators[i].condition is Some && 0 <= j
                < evaluators[i].condition->0.column_refs@.len()
                && #[trigger] evaluators[i].condition->0.column_refs@[j] == c;
        law_columns_are_references(evaluators[i].condition->0, c);
        assert(evaluators[i].columns().contains(c));
    }
}

proof fn lemma_unmatched_refer(evaluators: Seq<UnmatchedView>, c: usize)
    ensures
        unmatched_columns(evaluators).contains(c) <==> unmatched_refer(evaluators, c),
{
    if unmatched_columns(evaluators).contains(c) {
        let i = choose|i: int|
            0 <= i < evaluators.len() && (#[trigger] evaluators[i]).columns().contains(c);
        law_all_columns_are_references(evaluators[i].values, c);
        if crate::scalar::all_columns(evaluators[i].values).contains(c) {
            let (v, j) = choose|v: int, j: int|
                0 <= v < evaluators[i].values.len() && 0 <= j
                    < evaluators[i].values[v].column_refs@.len()
                    && #[trigger] evaluators[i].values[v].column_refs@[j] == c;
            assert(evaluators[i].values[v].column_refs@[j] == c);
        } else {
            let scalar = evaluators[i].condition->0;
            law_columns_are_references(scalar, c);
            let j = choose|j: int|
                0 <= j < scalar.column_refs@.len() && #[trigger] scalar.column_refs@[j] == c;
            assert(evaluators[i].condition->0.column_refs@[j] == c);
        }
    }
    if exists|i: int, j: int|
        0 <= i < evaluators.len() && evaluators[i].condition is Some && 0 <= j
            < evaluators[i].condition->0.column_refs@.len()
            && #[trigger] evaluators[i].condition->0.column_refs@[j] == c {
        let (i, j) = choose|i: int, j: int|
            0 <= i < evaluators.len() && evaluators[i].condition is Some && 0 <= j
                < evaluators[i].condition->0.column_refs@.len()
                && #[trigger] evaluators[i].condition->0.column_refs@[j] == c;
        law_columns_are_references(evaluators[i].condition->0, c);
        assert(evaluators[i].columns().contains(c));
    }
    if exists|i: int, v: int, j: int|
        0 <= i < evaluators.len() && 0 <= v < evaluators[i].values.len() && 0 <= j
            < evaluators[i].values[v].column_refs@.len()
            && #[trigger] evaluators[i].values[v].column_refs@[j] == c {
        let (i, v, j) = choose|i: int, v: int, j: int|
            0 <= i < evaluators.len() && 0 <= v < evaluators[i].values.len() && 0 <= j
                < evaluators[i].values[v].column_refs@.len()
                && #[trigger] evaluators[i].values[v].column_refs@[j] == c;
        law_all_columns_are_references(evaluators[i].values, c);
        assert(evaluators[i].values[v].column_refs@[j] == c);
        assert(evaluators[i].columns().contains(c));
    }
}

/// A bound statement reads a column exactly when it is a column of the source, or the row id of
/// the target, or some place of the references of the join condition, of a clause's condition
/// or of an inserted value holds it, or some clause updates and it is the first column with the
/// name of a field of the target.
pub proof fn law_plan_reads_references(
    stmt: MergeIntoStmt,
    enabled: Result<bool, ErrorCode>,
    replies: Seq<Reply>,
    s: MergeState,
    c: usize,
)
    requires
        binds_to(stmt, enabled, replies, s),
    ensures
        s.plan.columns_set.contains(c) <==> {
            let matched = replies[0]->matched@;
            let fields = replies[4]->Table_0->Ok_0.schema.fields@;
            let condition = replies[11]->Scalar_0->Ok_0;
            let entries = replies[12]->Columns_0@;
            ||| replies[5]->Source_0->Ok_0@.contains(c)
            ||| replies[8]->InternalColumn_0->Ok_0 == c
            ||| exists|j: int|
                0 <= j < condition.column_refs@.len() && #[trigger] condition.column_refs@[j] == c
            ||| (exists|i: int|
                0 <= i < matched.len() && (#[trigger] matched[i]).operation is Update) && (exists|
                k: int,
                j: int,
            |
                0 <= k < fields.len() && #[trigger] first_named(entries, j, fields[k].name@)
                    && entries[j].index == c)
            ||| matched_refer(s.plan.matched_evaluators, c)
            ||| unmatched_refer(s.plan.unmatched_evaluators, c)
        },
{
    let table = replies[4]->Table_0->Ok_0;
    let entries = replies[12]->Columns_0@;
    law_plan_reads(stmt, enabled, replies, s);
    lemma_explained_run(stmt, enabled, replies);
    lemma_update_or_deletes(replies[0]->matched@);
    law_columns_are_references(replies[11]->Scalar_0->Ok_0, c);
    lemma_matched_refer(s.plan.matched_evaluators, c);
    lemma_unmatched_refer(s.plan.unmatched_evaluators, c);
    lemma_field_columns(table.schema.fields@, entries, c);
    assert(table.schema@.fields == table.schema.fields@);
    assert(field_columns(table.schema@, entries, table.schema@.fields.len()).contains(c)
        <==> exists|k: int|
        0 <= k < table.schema.fields@.len() && column_named(
            entries,
            (#[trigger] table.schema.fields@[k]).name@,
        ) == Some(c));
}

/// No field of the target of a bound statement is computed.
pub proof fn law_bound_target_is_not_computed(
    stmt: MergeIntoStmt,
    enabled: Result<bool, ErrorCode>,
    replies: Seq<Reply>,
    s: MergeState,
    k: int,
)
    requires
        binds_to(stmt, enabled, replies, s),
        0 <= k < replies[4]->Table_0->Ok_0.schema.fields@.len(),
    ensures
        replies[4]->Table_0->Ok_0.schema.fields@[k].computed_expr is None,
{
    law_plan_is_for_the_target(stmt, enabled, replies, s);
    assert(!(replies[4]->Table_0->Ok_0.schema@.fields[k].computed_expr is Some));
}

/// A bound statement asked once for its own target, and once for the join of its own source
/// with that target on its own condition: catalog, database, table and alias are those that the
/// statement names.
pub proof fn law_bound_statement_asked_for_its_tables(
    stmt: MergeIntoStmt,
    enabled: Result<bool, ErrorCode>,
    replies: Seq<Reply>,
    s: MergeState,
)
    requires
        binds_to(stmt, enabled, replies, s),
    ensures
        ({
            let log = exchanges(merge_start(stmt, enabled)->Ok_0, replies);
            &&& log[6].request matches RequestView::BindTarget(target) && {
                &&& target.catalog == stmt.catalog
                &&& target.database == stmt.database
                &&& target.table == stmt.table_ident
                &&& target.alias == stmt.alias_target
            }
            &&& log[10].request matches RequestView::BindJoin(join) && {
                &&& join.op == JoinOperator::LeftOuter
                &&& join.condition == stmt.join_expr
                &&& join.left == stmt.source
                &&& join.right.catalog == stmt.catalog
                &&& join.right.database == stmt.database
                &&& join.right.table == stmt.table_ident
                &&& join.right.alias == stmt.alias_target
            }
        }),
{
    law_plan_is_for_the_target(stmt, enabled, replies, s);
    law_plan_follows_from_exchanges(stmt, enabled, replies, s);
}

} // verus!
