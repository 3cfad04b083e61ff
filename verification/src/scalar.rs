//! Bound scalar expressions, as far as planning rules read them.

use std::collections::HashSet;

use vstd::prelude::*;

verus! {

/// The number of a column within a query.
pub type IndexType = usize;

/// A set of columns of a query.
pub type ColumnSet = HashSet<usize>;

/// The numeric types.
#[derive(Clone, Copy, Debug, PartialEq, Eq, Structural, Hash)]
pub enum NumberDataType {
    UInt8,
    UInt16,
    UInt32,
    UInt64,
    Int8,
    Int16,
    Int32,
    Int64,
    Float32,
    Float64,
}

/// The type of a value: a number, or any other type by its name.
#[derive(Debug, PartialEq, Eq, Hash)]
pub enum DataType {
    Number(NumberDataType),
    Other(String),
}

impl Clone for DataType {
    fn clone(&self) -> (r: Self)
        ensures
            r == *self,
    {
        match self {
            DataType::Number(n) => DataType::Number(*n),
            DataType::Other(name) => DataType::Other(name.clone()),
        }
    }
}

/// A bound scalar expression. The expression itself stays with the planner, under `id`;
/// the rules read the columns it refers to and whether it is a subquery.
#[derive(Clone, Debug, PartialEq, Eq, Hash)]
pub struct ScalarExpr {
    /// The expression's number among the bound expressions of the query.
    pub id: u64,
    /// Every column that the expression refers to, in any order; repeats are allowed.
    pub column_refs: Vec<usize>,
    /// Whether the expression is, at its root, a subquery.
    pub is_subquery: bool,
}

impl ScalarExpr {
    /// The columns that the expression refers to.
    pub open spec fn columns(self) -> Set<usize> {
        self.column_refs@.to_set()
    }

    /// Adds the columns that the expression refers to.
    pub fn add_columns(&self, set: &mut ColumnSet)
        ensures
            final(set)@ == old(set)@.union(self.columns()),
    {
        broadcast use vstd::std_specs::hash::group_hash_axioms;

        let mut i: usize = 0;
        while i < self.column_refs.len()
            invariant
                i <= self.column_refs.len(),
                set@ == old(set)@.union(self.column_refs@.take(i as int).to_set()),
            decreases self.column_refs.len() - i,
        {
            proof {
                let seen = self.column_refs@.take(i as int);
                assert(self.column_refs@.take(i + 1) == seen.push(self.column_refs[i as int]));
                lemma_push_to_set(seen, self.column_refs[i as int]);
            }
            set.insert(self.column_refs[i]);
            i += 1;
        }
        assert(self.column_refs@.take(i as int) == self.column_refs@);
    }

    /// The columns that the expression refers to.
    pub fn used_columns(&self) -> (r: ColumnSet)
        ensures
            r@ == self.columns(),
            forall|c: usize| #[trigger]
                r@.contains(c) <==> exists|i: int|
                    0 <= i < self.column_refs@.len() && #[trigger] self.column_refs@[i] == c,
    {
        let mut set: ColumnSet = HashSet::new();
        self.add_columns(&mut set);
        set
    }
}

/// A bound expression together with the column that holds its value.
#[derive(Clone, Debug, PartialEq, Eq, Hash)]
pub struct ScalarItem {
    pub scalar: ScalarExpr,
    pub index: IndexType,
}

/// A bound aggregate function.
#[derive(Clone, Debug, PartialEq, Eq, Hash)]
pub struct AggregateFunction {
    pub func_name: String,
    pub args: Vec<ScalarExpr>,
    pub return_type: Box<DataType>,
}

/// The columns of some expressions together.
pub open spec fn all_columns(values: Seq<ScalarExpr>) -> Set<usize> {
    Set::new(
        |c: usize|
            exists|i: int| 0 <= i < values.len() && (#[trigger] values[i]).columns().contains(c),
    )
}

/// One more expression adds its columns.
pub proof fn lemma_all_columns_push(values: Seq<ScalarExpr>, value: ScalarExpr)
    ensures
        all_columns(values.push(value)) == all_columns(values).union(value.columns()),
{
    let grown = values.push(value);
    assert forall|c: usize| #[trigger]
        all_columns(grown).contains(c) == all_columns(values).union(value.columns()).contains(
            c,
        ) by {
        if all_columns(values).contains(c) {
            let i = choose|i: int|
                0 <= i < values.len() && (#[trigger] values[i]).columns().contains(c);
            assert(grown[i].columns().contains(c));
        }
        assert(grown[values.len() as int] == value);
        if all_columns(grown).contains(c) {
            let i = choose|i: int|
                0 <= i < grown.len() && (#[trigger] grown[i]).columns().contains(c);
            if i < values.len() {
                assert(values[i].columns().contains(c));
            }
        }
    }
    assert(all_columns(grown) =~= all_columns(values).union(value.columns()));
}

impl AggregateFunction {
    /// Adds the columns that the arguments refer to.
    pub fn add_columns(&self, set: &mut ColumnSet)
        ensures
            final(set)@ == old(set)@.union(all_columns(self.args@)),
    {
        let mut i: usize = 0;
        assert(set@.union(all_columns(self.args@.take(0))) =~= set@);
        while i < self.args.len()
            invariant
                i <= self.args.len(),
                set@ == old(set)@.union(all_columns(self.args@.take(i as int))),
            decreases self.args.len() - i,
        {
            proof {
                let seen = self.args@.take(i as int);
                assert(self.args@.take(i + 1) == seen.push(self.args[i as int]));
                lemma_all_columns_push(seen, self.args[i as int]);
            }
            self.args[i].add_columns(set);
            i += 1;
            assert(set@ =~= old(set)@.union(all_columns(self.args@.take(i as int))));
        }
        assert(self.args@.take(i as int) == self.args@);
    }
}

/// What a sequence holds after one more element is what it held and that element.
pub proof fn lemma_push_to_set<A>(s: Seq<A>, a: A)
    ensures
        s.push(a).to_set() == s.to_set().insert(a),
{
    let pushed = s.push(a);
    assert forall|x: A| pushed.contains(x) == s.to_set().insert(a).contains(x) by {
        if s.contains(x) {
            let i = s.index_of(x);
            assert(pushed[i] == x);
        }
        assert(pushed[s.len() as int] == a);
    }
    assert(pushed.to_set() =~= s.to_set().insert(a));
}

/// A column is used by an expression exactly when some place of its references holds it.
pub proof fn law_columns_are_references(scalar: ScalarExpr, c: usize)
    ensures
        scalar.columns().contains(c) <==> exists|i: int|
            0 <= i < scalar.column_refs@.len() && #[trigger] scalar.column_refs@[i] == c,
{
}

/// A column is used by some expressions exactly when some place of the references of one of
/// them holds it.
pub proof fn law_all_columns_are_references(values: Seq<ScalarExpr>, c: usize)
    ensures
        all_columns(values).contains(c) <==> exists|i: int, j: int|
            0 <= i < values.len() && 0 <= j < values[i].column_refs@.len()
                && #[trigger] values[i].column_refs@[j] == c,
{
    if all_columns(values).contains(c) {
        let i = choose|i: int|
            0 <= i < values.len() && (#[trigger] values[i]).columns().contains(c);
        law_columns_are_references(values[i], c);
        let j = choose|j: int|
            0 <= j < values[i].column_refs@.len() && #[trigger] values[i].column_refs@[j] == c;
        assert(values[i].column_refs@[j] == c);
    }
    if exists|i: int, j: int|
        0 <= i < values.len() && 0 <= j < values[i].column_refs@.len()
            && #[trigger] values[i].column_refs@[j] == c {
        let (i, j) = choose|i: int, j: int|
            0 <= i < values.len() && 0 <= j < values[i].column_refs@.len()
                && #[trigger] values[i].column_refs@[j] == c;
        law_columns_are_references(values[i], c);
        assert(values[i].columns().contains(c));
    }
}

} // verus!
