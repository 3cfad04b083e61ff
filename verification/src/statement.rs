//! Parsed `MERGE INTO` statements, as far as binding reads them.

use vstd::prelude::*;

verus! {

/// A node of the parsed statement (an expression, an identifier, a table source), by its
/// number. The node itself stays with the parser.
#[derive(Clone, Copy, Debug, PartialEq, Eq, Hash)]
pub struct NodeId(pub u64);

/// `MERGE INTO <target> USING <source> ON <join_expr> <merge_options>`.
#[derive(Clone, Debug, PartialEq, Eq, Hash)]
pub struct MergeIntoStmt {
    pub catalog: Option<NodeId>,
    pub database: Option<NodeId>,
    pub table_ident: NodeId,
    pub source: NodeId,
    pub alias_target: Option<NodeId>,
    pub join_expr: NodeId,
    /// The `WHEN ..` clauses.
    pub merge_options: Vec<NodeId>,
}

/// One `<name> = <expr>` of an update list.
#[derive(Clone, Copy, Debug, PartialEq, Eq, Hash)]
pub struct MergeUpdateExpr {
    pub name: NodeId,
    pub expr: NodeId,
}

/// What a matched clause does with the row.
#[derive(Clone, Debug, PartialEq, Eq, Hash)]
pub enum MatchOperation {
    Update { update_list: Vec<MergeUpdateExpr> },
    Delete,
}

/// `WHEN MATCHED [AND <selection>] THEN <operation>`.
#[derive(Clone, Debug, PartialEq, Eq, Hash)]
pub struct MatchedClause {
    pub selection: Option<NodeId>,
    pub operation: MatchOperation,
}

/// `INSERT [(<columns>)] VALUES (<values>)`.
#[derive(Clone, Debug, PartialEq, Eq, Hash)]
pub struct InsertOperation {
    pub columns: Option<Vec<NodeId>>,
    pub values: Vec<NodeId>,
}

/// `WHEN NOT MATCHED [AND <selection>] THEN <insert_operation>`.
#[derive(Clone, Debug, PartialEq, Eq, Hash)]
pub struct UnmatchedClause {
    pub selection: Option<NodeId>,
    pub insert_operation: InsertOperation,
}

impl MatchedClause {
    /// The clause's assignments; a clause that deletes has none.
    pub open spec fn updates(self) -> Seq<MergeUpdateExpr> {
        match self.operation {
            MatchOperation::Update { update_list } => update_list@,
            MatchOperation::Delete => Seq::empty(),
        }
    }
}

/// Whether some clause updates.
pub open spec fn some_update(clauses: Seq<MatchedClause>) -> bool {
    exists|i: int| 0 <= i < clauses.len() && (#[trigger] clauses[i]).operation is Update
}

/// Whether some matched clause updates the row.
pub fn has_update(matched_clauses: &Vec<MatchedClause>) -> (r: bool)
    ensures
        r == some_update(matched_clauses@),
        r == exists|i: int|
            0 <= i < matched_clauses@.len() && (#[trigger] matched_clauses@[i]).operation is Update,
{
    let mut i: usize = 0;
    while i < matched_clauses.len()
        invariant
            i <= matched_clauses.len(),
            forall|j: int| 0 <= j < i ==> !((#[trigger] matched_clauses[j]).operation is Update),
        decreases matched_clauses.len() - i,
    {
        if let MatchOperation::Update { update_list: _ } = &matched_clauses[i].operation {
            assert(matched_clauses@[i as int].operation is Update);
            return true;
        }
        i += 1;
    }
    false
}

/// A clause that updates has the assignments that it lists, one that deletes has none.
pub proof fn law_clause_assignments(
    selection: Option<NodeId>,
    update_list: Vec<MergeUpdateExpr>,
)
    ensures
        (MatchedClause { selection, operation: MatchOperation::Update { update_list } }).updates()
            == update_list@,
        (MatchedClause { selection, operation: MatchOperation::Delete }).updates().len() == 0,
{
}

/// Clauses update as soon as one of them, at any place and with any list of assignments, is an
/// update.
pub proof fn law_any_update_counts(
    clauses: Seq<MatchedClause>,
    i: int,
    selection: Option<NodeId>,
    update_list: Vec<MergeUpdateExpr>,
)
    requires
        0 <= i < clauses.len(),
        clauses[i] == (MatchedClause {
            selection,
            operation: MatchOperation::Update { update_list },
        }),
    ensures
        some_update(clauses),
{
    assert(clauses[i].operation is Update);
}

/// Clauses that all delete do not update.
pub proof fn law_deletes_do_not_update(clauses: Seq<MatchedClause>)
    requires
        forall|i: int|
            0 <= i < clauses.len() ==> (#[trigger] clauses[i]).operation == MatchOperation::Delete,
    ensures
        !some_update(clauses),
{
}

/// Clauses update exactly when those before or those after any place do.
pub proof fn law_updates_split(left: Seq<MatchedClause>, right: Seq<MatchedClause>)
    ensures
        some_update(left + right) <==> some_update(left) || some_update(right),
{
    let all = left + right;
    if some_update(left) {
        let i = choose|i: int| 0 <= i < left.len() && (#[trigger] left[i]).operation is Update;
        assert(all[i].operation is Update);
    }
    if some_update(right) {
        let i = choose|i: int| 0 <= i < right.len() && (#[trigger] right[i]).operation is Update;
        assert(all[left.len() + i].operation is Update);
    }
    if some_update(all) {
        let i = choose|i: int| 0 <= i < all.len() && (#[trigger] all[i]).operation is Update;
        if i < left.len() {
            assert(left[i].operation is Update);
        } else {
            assert(right[i - left.len()].operation is Update);
        }
    }
}

} // verus!
