//! Properties that the optimizer derives for the operators of a plan.

use std::collections::HashMap;

use vstd::prelude::*;

use crate::scalar::{ColumnSet, IndexType, ScalarExpr};

verus! {

/// The kinds of operators that are planned here.
#[derive(Clone, Copy, Debug, PartialEq, Eq, Hash)]
pub enum RelOp {
    Window,
}

/// How rows are spread over the nodes of a cluster.
#[derive(Clone, Debug, PartialEq, Eq, Hash)]
pub enum Distribution {
    Any,
    Random,
    /// All rows on one node.
    Serial,
    Broadcast,
    Hash(Vec<ScalarExpr>),
}

/// What an operator's parent requires of it.
#[derive(Clone, Debug, PartialEq, Eq, Hash)]
pub struct RequiredProperty {
    pub distribution: Distribution,
}

/// What an operator provides.
#[derive(Clone, Debug, PartialEq, Eq, Hash)]
pub struct PhysicalProperty {
    pub distribution: Distribution,
}

/// Statistics on the rows of an operator. `S` is what is known of one column.
#[verifier::reject_recursive_types(S)]
#[derive(Debug)]
pub struct Statistics<S> {
    pub precise_cardinality: Option<u64>,
    pub column_stats: HashMap<IndexType, S>,
    pub is_accurate: bool,
}

/// The logical properties of an operator. `C` is an estimate of the number of rows.
#[verifier::reject_recursive_types(S)]
#[verifier::reject_recursive_types(C)]
#[derive(Debug)]
pub struct RelationalProperty<S, C> {
    pub output_columns: ColumnSet,
    pub outer_columns: ColumnSet,
    pub used_columns: ColumnSet,
    pub cardinality: C,
    pub statistics: Statistics<S>,
}

/// How many rows are estimated, given the estimate `C` for the input.
#[derive(Clone, Debug, PartialEq, Eq)]
pub enum Cardinality<C> {
    /// One row.
    One,
    /// As many as the input has.
    Input(C),
    /// As many as there are combinations of distinct values in these columns, but at most as
    /// many as the input has.
    DistinctCombinations { columns: Vec<IndexType>, input: C },
}

} // verus!
