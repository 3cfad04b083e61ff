//! Window operators: the window function, its frame, and the properties of the operator.

use std::cmp::Ordering;
use std::collections::HashSet;

use vstd::prelude::*;
use vstd::std_specs::cmp::PartialOrdSpec;
use vstd::string::*;

use crate::error::{ErrorCode, ErrorKind, ErrorView};
use crate::property::{
    Cardinality, Distribution, PhysicalProperty, RelOp, RelationalProperty, RequiredProperty,
    Statistics,
};
use crate::scalar::{
    all_columns, law_all_columns_are_references, law_columns_are_references, AggregateFunction,
    ColumnSet, DataType, IndexType, NumberDataType, ScalarItem,
};
use crate::text::{decimal, enclose, same_text, to_decimal};

verus! {

/// One key of a window's `ORDER BY`.
#[derive(Clone, Debug, PartialEq, Eq, Hash)]
pub struct WindowOrderByInfo {
    pub order_by_item: ScalarItem,
}

/// A window operator.
#[derive(Clone, Debug, PartialEq, Eq, Hash)]
pub struct Window {
    /// The column that holds the result.
    pub index: IndexType,
    /// An aggregate function, such as `sum(col1)` or `count(*)`, or a general window function,
    /// such as `row_number()` or `rank()`.
    pub function: WindowFuncType,
    /// The keys of `PARTITION BY`.
    pub partition_by: Vec<ScalarItem>,
    /// The keys of `ORDER BY`.
    pub order_by: Vec<WindowOrderByInfo>,
    /// The window frame.
    pub frame: WindowFuncFrame,
}

/// The function that a window computes.
#[derive(Clone, Debug, PartialEq, Eq, Hash)]
pub enum WindowFuncType {
    Aggregate(AggregateFunction),
    RowNumber,
    Rank,
    DenseRank,
}

/// The rows around the current one that a window function sees.
#[derive(Clone, Debug, PartialEq, Eq, Hash)]
pub struct WindowFuncFrame {
    pub units: WindowFuncFrameUnits,
    pub start_bound: WindowFuncFrameBound,
    pub end_bound: WindowFuncFrameBound,
}

/// What a frame counts.
#[derive(Clone, Copy, Debug, PartialEq, Eq, Hash)]
pub enum WindowFuncFrameUnits {
    Rows,
    Range,
}

/// One end of a frame.
#[derive(Clone, Copy, Debug, PartialEq, Eq, Hash)]
pub enum WindowFuncFrameBound {
    /// `CURRENT ROW`
    CurrentRow,
    /// `<N> PRECEDING` or `UNBOUNDED PRECEDING`
    Preceding(Option<usize>),
    /// `<N> FOLLOWING` or `UNBOUNDED FOLLOWING`.
    Following(Option<usize>),
}

impl Default for WindowFuncFrameUnits {
    fn default() -> (r: Self)
        ensures
            r == WindowFuncFrameUnits::Rows,
    {
        WindowFuncFrameUnits::Rows
    }
}

impl Default for WindowFuncFrameBound {
    fn default() -> (r: Self)
        ensures
            r == WindowFuncFrameBound::CurrentRow,
    {
        WindowFuncFrameBound::CurrentRow
    }
}

impl Default for WindowFuncFrame {
    fn default() -> (r: Self)
        ensures
            r == (WindowFuncFrame {
                units: WindowFuncFrameUnits::Rows,
                start_bound: WindowFuncFrameBound::CurrentRow,
                end_bound: WindowFuncFrameBound::CurrentRow,
            }),
    {
        WindowFuncFrame {
            units: WindowFuncFrameUnits::Rows,
            start_bound: WindowFuncFrameBound::CurrentRow,
            end_bound: WindowFuncFrameBound::CurrentRow,
        }
    }
}

/// The signed 64-bit number with the same bits as an offset.
pub open spec fn as_signed(n: usize) -> int {
    if n <= i64::MAX {
        n as int
    } else {
        n - 0x1_0000_0000_0000_0000
    }
}

impl WindowFuncFrameBound {
    /// Where a bound lies relative to the current row: preceding offsets count downwards,
    /// following ones upwards, and an unbounded end lies at the end of the 64-bit range.
    /// Offsets that do not fit are taken by their bits; the number that has no negation stays
    /// as it is.
    pub open spec fn position(self) -> int {
        match self {
            WindowFuncFrameBound::CurrentRow => 0,
            WindowFuncFrameBound::Preceding(None) => i64::MIN as int,
            WindowFuncFrameBound::Preceding(Some(n)) => if as_signed(n) == i64::MIN {
                i64::MIN as int
            } else {
                -as_signed(n)
            },
            WindowFuncFrameBound::Following(None) => i64::MAX as int,
            WindowFuncFrameBound::Following(Some(n)) => as_signed(n),
        }
    }

    /// Whether the bound's offset, taken by its bits, is the one number that has no negation
    /// in 64 bits, and would have to be negated.
    pub open spec fn overflows(self) -> bool {
        self matches WindowFuncFrameBound::Preceding(Some(n)) && n == 0x8000_0000_0000_0000
    }

    /// Where a bound lies relative to the current row. The one offset that cannot be negated is
    /// left out.
    pub fn to_number(&self) -> (r: i64)
        requires
            !self.overflows(),
        ensures
            r == self.position(),
    {
        self.wrapping_number()
    }

    /// Where a bound lies relative to the current row, for every bound.
    fn wrapping_number(&self) -> (r: i64)
        ensures
            r == self.position(),
    {
        match self {
            WindowFuncFrameBound::CurrentRow => 0,
            WindowFuncFrameBound::Preceding(n) => match n {
                None => i64::MIN,
                Some(n) => {
                    let offset = signed(*n);
                    if offset == i64::MIN {
                        offset
                    } else {
                        -offset
                    }
                },
            },
            WindowFuncFrameBound::Following(n) => match n {
                None => i64::MAX,
                Some(n) => signed(*n),
            },
        }
    }
}

/// Reinterprets the bits of an offset.
fn signed(n: usize) -> (r: i64)
    ensures
        r == as_signed(n),
{
    let wide: u64 = n as u64;
    assert(wide <= 0x7fff_ffff_ffff_ffff ==> (wide as i64) == wide) by (bit_vector);
    assert(wide > 0x7fff_ffff_ffff_ffff ==> (wide as i64) == wide - 0x1_0000_0000_0000_0000)
        by (bit_vector);
    #[verifier::truncate]
    (wide as i64)
}

impl PartialOrd for WindowFuncFrameBound {
    fn partial_cmp(&self, other: &Self) -> (r: Option<Ordering>) {
        let a = self.wrapping_number();
        let b = other.wrapping_number();
        if a < b {
            Some(Ordering::Less)
        } else if a == b {
            Some(Ordering::Equal)
        } else {
            Some(Ordering::Greater)
        }
    }
}

impl vstd::std_specs::cmp::PartialOrdSpecImpl for WindowFuncFrameBound {
    open spec fn obeys_partial_cmp_spec() -> bool {
        true
    }

    open spec fn partial_cmp_spec(&self, other: &Self) -> Option<Ordering> {
        if self.position() < other.position() {
            Some(Ordering::Less)
        } else if self.position() == other.position() {
            Some(Ordering::Equal)
        } else {
            Some(Ordering::Greater)
        }
    }
}

impl WindowFuncFrameUnits {
    /// How the units are shown.
    pub open spec fn text(self) -> Seq<char> {
        match self {
            WindowFuncFrameUnits::Rows => "Rows"@,
            WindowFuncFrameUnits::Range => "Range"@,
        }
    }

    fn show(&self) -> (r: &'static str)
        ensures
            r@ == self.text(),
    {
        match self {
            WindowFuncFrameUnits::Rows => "Rows",
            WindowFuncFrameUnits::Range => "Range",
        }
    }
}

/// How an offset is shown.
pub open spec fn offset_text(n: Option<usize>) -> Seq<char> {
    match n {
        None => "None"@,
        Some(n) => "Some("@ + decimal(n as nat) + ")"@,
    }
}

fn show_offset(n: Option<usize>) -> (r: String)
    ensures
        r@ == offset_text(n),
{
    match n {
        None => "None".to_owned(),
        Some(n) => enclose("Some(", &to_decimal(n), ")"),
    }
}

impl WindowFuncFrameBound {
    /// How a bound is shown.
    pub open spec fn text(self) -> Seq<char> {
        match self {
            WindowFuncFrameBound::CurrentRow => "CurrentRow"@,
            WindowFuncFrameBound::Preceding(n) => "Preceding("@ + offset_text(n) + ")"@,
            WindowFuncFrameBound::Following(n) => "Following("@ + offset_text(n) + ")"@,
        }
    }

    fn show(&self) -> (r: String)
        ensures
            r@ == self.text(),
    {
        match self {
            WindowFuncFrameBound::CurrentRow => "CurrentRow".to_owned(),
            WindowFuncFrameBound::Preceding(n) => enclose("Preceding(", &show_offset(*n), ")"),
            WindowFuncFrameBound::Following(n) => enclose("Following(", &show_offset(*n), ")"),
        }
    }
}

impl WindowFuncFrame {
    /// How a frame is shown: the units, the start and the end.
    pub open spec fn text(self) -> Seq<char> {
        self.units.text() + ": "@ + self.start_bound.text() + " ~ "@ + self.end_bound.text()
    }

    /// Shows a frame.
    pub fn to_string(&self) -> (r: String)
        ensures
            r@ == self.text(),
    {
        let mut s = self.units.show().to_owned();
        s.append(": ");
        s.append(&self.start_bound.show());
        s.append(" ~ ");
        s.append(&self.end_bound.show());
        s
    }
}

/// The error for a name that no window function has.
pub open spec fn unknown_function(name: Seq<char>) -> ErrorView {
    ErrorView {
        kind: ErrorKind::UnknownFunction,
        message: "Unknown window function: "@ + name,
    }
}

impl WindowFuncType {
    /// The general window function with a name.
    pub open spec fn named(name: Seq<char>) -> Option<WindowFuncType> {
        if name == "row_number"@ {
            Some(WindowFuncType::RowNumber)
        } else if name == "rank"@ {
            Some(WindowFuncType::Rank)
        } else if name == "dense_rank"@ {
            Some(WindowFuncType::DenseRank)
        } else {
            None
        }
    }

    /// The function's name.
    pub open spec fn name(self) -> Seq<char> {
        match self {
            WindowFuncType::Aggregate(agg) => agg.func_name@,
            WindowFuncType::RowNumber => "row_number"@,
            WindowFuncType::Rank => "rank"@,
            WindowFuncType::DenseRank => "dense_rank"@,
        }
    }

    /// The columns that the function's arguments refer to; only an aggregate has any.
    pub open spec fn columns(self) -> Set<usize> {
        match self {
            WindowFuncType::Aggregate(agg) => all_columns(agg.args@),
            _ => Set::empty(),
        }
    }

    /// Looks a general window function up by its name.
    pub fn from_name(name: &str) -> (r: Result<WindowFuncType, ErrorCode>)
        ensures
            match r {
                Ok(function) => WindowFuncType::named(name@) == Some(function),
                Err(e) => WindowFuncType::named(name@) is None && e@ == unknown_function(name@),
            },
    {
        if same_text(name, "row_number") {
            Ok(WindowFuncType::RowNumber)
        } else if same_text(name, "rank") {
            Ok(WindowFuncType::Rank)
        } else if same_text(name, "dense_rank") {
            Ok(WindowFuncType::DenseRank)
        } else {
            let mut message = "Unknown window function: ".to_owned();
            message.append(name);
            Err(ErrorCode { kind: ErrorKind::UnknownFunction, message })
        }
    }

    /// The function's name.
    pub fn func_name(&self) -> (r: String)
        ensures
            r@ == self.name(),
            *self matches WindowFuncType::Aggregate(agg) ==> r@ == agg.func_name@,
    {
        match self {
            WindowFuncType::Aggregate(agg) => agg.func_name.clone(),
            WindowFuncType::RowNumber => "row_number".to_owned(),
            WindowFuncType::Rank => "rank".to_owned(),
            WindowFuncType::DenseRank => "dense_rank".to_owned(),
        }
    }

    /// Adds the columns that the function's arguments refer to.
    fn add_columns(&self, set: &mut ColumnSet)
        ensures
            final(set)@ == old(set)@.union(self.columns()),
    {
        match self {
            WindowFuncType::Aggregate(agg) => agg.add_columns(set),
            _ => {
                assert(set@.union(Set::empty()) =~= set@);
            },
        }
    }

    /// The columns that the function's arguments refer to.
    pub fn used_columns(&self) -> (r: ColumnSet)
        ensures
            r@ == self.columns(),
    {
        let mut set: ColumnSet = HashSet::new();
        self.add_columns(&mut set);
        assert(Set::<usize>::empty().union(self.columns()) =~= self.columns());
        set
    }

    /// The type of the function's result.
    pub fn return_type(&self) -> (r: DataType)
        ensures
            match *self {
                WindowFuncType::Aggregate(agg) => r == *agg.return_type,
                _ => r == DataType::Number(NumberDataType::UInt64),
            },
    {
        match self {
            WindowFuncType::Aggregate(agg) => (*agg.return_type).clone(),
            WindowFuncType::RowNumber | WindowFuncType::Rank | WindowFuncType::DenseRank => {
                DataType::Number(NumberDataType::UInt64)
            },
        }
    }
}

/// The columns of some items: those that hold them and those that they refer to.
pub open spec fn item_columns(items: Seq<ScalarItem>) -> Set<usize> {
    Set::new(
        |c: usize|
            exists|i: int|
                0 <= i < items.len() && ((#[trigger] items[i]).index == c
                    || items[i].scalar.columns().contains(c)),
    )
}

proof fn lemma_item_columns_push(items: Seq<ScalarItem>, item: ScalarItem)
    ensures
        item_columns(items.push(item)) == item_columns(items).insert(item.index).union(
            item.scalar.columns(),
        ),
{
    let grown = items.push(item);
    let stated = item_columns(items).insert(item.index).union(item.scalar.columns());
    assert forall|c: usize| #[trigger]
        item_columns(grown).contains(c) == stated.contains(c) by {
        if item_columns(items).contains(c) {
            let i = choose|i: int|
                0 <= i < items.len() && ((#[trigger] items[i]).index == c
                    || items[i].scalar.columns().contains(c));
            assert(grown[i] == items[i]);
        }
        assert(grown[items.len() as int] == item);
        if item_columns(grown).contains(c) {
            let i = choose|i: int|
                0 <= i < grown.len() && ((#[trigger] grown[i]).index == c
                    || grown[i].scalar.columns().contains(c));
            if i < items.len() {
                assert(items[i] == grown[i]);
            }
        }
    }
    assert(item_columns(grown) =~= stated);
}

impl ScalarItem {
    /// Adds the column that holds the item and those that it refers to.
    fn add_columns(&self, set: &mut ColumnSet)
        ensures
            final(set)@ == old(set)@.insert(self.index).union(self.scalar.columns()),
    {
        broadcast use vstd::std_specs::hash::group_hash_axioms;

        set.insert(self.index);
        self.scalar.add_columns(set);
    }
}

impl Window {
    /// The items of `ORDER BY`.
    pub open spec fn order_items(self) -> Seq<ScalarItem> {
        self.order_by@.map_values(|o: WindowOrderByInfo| o.order_by_item)
    }

    /// The columns of `PARTITION BY`.
    pub open spec fn partition_columns(self) -> Seq<usize> {
        self.partition_by@.map_values(|item: ScalarItem| item.index)
    }

    /// The columns that the operator uses: its result, the arguments of its function, and its
    /// keys.
    pub open spec fn columns(self) -> Set<usize> {
        set![self.index].union(self.function.columns()).union(
            item_columns(self.partition_by@),
        ).union(item_columns(self.order_items()))
    }

    /// Adds the columns that the operator uses.
    fn add_columns(&self, set: &mut ColumnSet)
        ensures
            final(set)@ == old(set)@.union(self.columns()),
    {
        broadcast use vstd::std_specs::hash::group_hash_axioms;

        let ghost start = set@.insert(self.index).union(self.function.columns());
        set.insert(self.index);
        self.function.add_columns(set);

        let mut i: usize = 0;
        assert(start.union(item_columns(self.partition_by@.take(0))) =~= start);
        while i < self.partition_by.len()
            invariant
                i <= self.partition_by.len(),
                set@ == start.union(item_columns(self.partition_by@.take(i as int))),
            decreases self.partition_by.len() - i,
        {
            let ghost seen = self.partition_by@.take(i as int);
            self.partition_by[i].add_columns(set);
            proof {
                lemma_item_columns_push(seen, self.partition_by@[i as int]);
                assert(self.partition_by@.take(i + 1) == seen.push(self.partition_by@[i as int]));
                assert(set@ =~= start.union(item_columns(self.partition_by@.take(i + 1))));
            }
            i += 1;
        }
        assert(self.partition_by@.take(i as int) == self.partition_by@);

        let ghost middle = set@;
        let mut j: usize = 0;
        assert(middle.union(item_columns(self.order_items().take(0))) =~= middle);
        while j < self.order_by.len()
            invariant
                j <= self.order_by.len(),
                set@ == middle.union(item_columns(self.order_items().take(j as int))),
            decreases self.order_by.len() - j,
        {
            let ghost seen = self.order_items().take(j as int);
            self.order_by[j].order_by_item.add_columns(set);
            proof {
                let item = self.order_items()[j as int];
                lemma_item_columns_push(seen, item);
                assert(self.order_items().take(j + 1) == seen.push(item));
                assert(set@ =~= middle.union(item_columns(self.order_items().take(j + 1))));
            }
            j += 1;
        }
        assert(self.order_items().take(j as int) == self.order_items());
        assert(set@ =~= old(set)@.union(self.columns()));
    }

    /// The columns that the operator uses. This does not fail.
    pub fn used_columns(&self) -> (r: Result<ColumnSet, ErrorCode>)
        ensures
            r matches Ok(set) && set@ == self.columns(),
    {
        let mut set: ColumnSet = HashSet::new();
        self.add_columns(&mut set);
        assert(Set::<usize>::empty().union(self.columns()) =~= self.columns());
        Ok(set)
    }

    /// The operator's kind.
    pub fn rel_op(&self) -> (r: RelOp)
        ensures
            r == RelOp::Window,
    {
        RelOp::Window
    }

    /// The operator provides what its input provides; `input` is the property of the first
    /// child, or the error on the way to it.
    pub fn derive_physical_prop(&self, input: Result<PhysicalProperty, ErrorCode>) -> (r: Result<
        PhysicalProperty,
        ErrorCode,
    >)
        ensures
            r == input,
    {
        input
    }

    /// The operator needs all rows of its input on one node, whatever is required of the
    /// operator itself. This does not fail.
    pub fn compute_required_prop_child(
        &self,
        child_index: usize,
        required: &RequiredProperty,
    ) -> (r: Result<RequiredProperty, ErrorCode>)
        ensures
            r matches Ok(property) && property.distribution == Distribution::Serial,
    {
        let mut required = required.clone();
        required.distribution = Distribution::Serial;
        Ok(required)
    }

    /// How many rows are estimated: one without `PARTITION BY`; as many as the input has when
    /// some partition column has no statistics; else as many as there are partitions at most.
    pub open spec fn cardinality_is<S, C>(
        self,
        input: RelationalProperty<S, C>,
        r: Cardinality<C>,
    ) -> bool {
        if self.partition_by@.len() == 0 {
            r is One
        } else if exists|i: int|
            0 <= i < self.partition_by@.len() && !input.statistics.column_stats@.contains_key(
                (#[trigger] self.partition_by@[i]).index,
            ) {
            r == Cardinality::<C>::Input(input.cardinality)
        } else {
            r matches Cardinality::DistinctCombinations { columns, input: c } && columns@
                == self.partition_columns() && c == input.cardinality
        }
    }

    fn estimate_cardinality<S, C>(&self, statistics: &Statistics<S>, cardinality: C) -> (r:
        Cardinality<C>)
        ensures
            forall|input: RelationalProperty<S, C>|
                input.statistics == *statistics && input.cardinality == cardinality
                    ==> #[trigger] self.cardinality_is(input, r),
    {
        broadcast use vstd::std_specs::hash::group_hash_axioms;

        if self.partition_by.len() == 0 {
            return Cardinality::One;
        }
        let mut columns: Vec<IndexType> = Vec::new();
        let mut i: usize = 0;
        while i < self.partition_by.len()
            invariant
                i <= self.partition_by.len(),
                columns@ == self.partition_columns().take(i as int),
                forall|k: int|
                    0 <= k < i ==> statistics.column_stats@.contains_key(
                        (#[trigger] self.partition_by@[k]).index,
                    ),
            decreases self.partition_by.len() - i,
        {
            let index = self.partition_by[i].index;
            if !statistics.column_stats.contains_key(&index) {
                assert(!statistics.column_stats@.contains_key(self.partition_by@[i as int].index));
                return Cardinality::Input(cardinality);
            }
            columns.push(index);
            assert(columns@ =~= self.partition_columns().take(i + 1));
            i += 1;
        }
        assert(columns@ =~= self.partition_columns());
        Cardinality::DistinctCombinations { columns, input: cardinality }
    }

    /// The operator's logical properties; `input` is the property of the first child, or the
    /// error on the way to it.
    pub fn derive_relational_prop<S, C>(
        &self,
        input: Result<RelationalProperty<S, C>, ErrorCode>,
    ) -> (r: Result<RelationalProperty<S, Cardinality<C>>, ErrorCode>)
        ensures
            match (input, r) {
                (Err(e), Err(f)) => e == f,
                (Ok(p), Ok(q)) => {
                    &&& q.output_columns@ == set![self.index]
                    &&& q.outer_columns@ == p.outer_columns@.difference(set![self.index])
                    &&& q.used_columns@ == self.columns().union(p.used_columns@)
                    &&& self.cardinality_is(p, q.cardinality)
                    &&& q.cardinality is One <==> self.partition_by@.len() == 0
                    &&& q.statistics.precise_cardinality == (if self.partition_by@.len() == 0 {
                        Some(1u64)
                    } else {
                        None
                    })
                    &&& q.statistics.column_stats == p.statistics.column_stats
                    &&& q.statistics.is_accurate == p.statistics.is_accurate
                },
                _ => false,
            },
    {
        broadcast use vstd::std_specs::hash::group_hash_axioms;

        let input_prop = match input {
            Ok(p) => p,
            Err(e) => {
                return Err(e);
            },
        };
        let mut output_columns: ColumnSet = HashSet::new();
        output_columns.insert(self.index);

        let mut outer_columns = input_prop.outer_columns;
        outer_columns.remove(&self.index);
        assert(outer_columns@ =~= input_prop.outer_columns@.difference(set![self.index]));

        let cardinality = self.estimate_cardinality(
            &input_prop.statistics,
            input_prop.cardinality,
        );
        let precise_cardinality = if self.partition_by.len() == 0 {
            Some(1)
        } else {
            None
        };

        let mut used_columns = input_prop.used_columns;
        self.add_columns(&mut used_columns);
        assert(used_columns@ =~= self.columns().union(input_prop.used_columns@));

        Ok(
            RelationalProperty {
                output_columns,
                outer_columns,
                used_columns,
                cardinality,
                statistics: Statistics {
                    precise_cardinality,
                    column_stats: input_prop.statistics.column_stats,
                    is_accurate: input_prop.statistics.is_accurate,
                },
            },
        )
    }
}

/// A general window function is found again under its own name.
pub proof fn law_name_finds_function(function: WindowFuncType)
    requires
        !(function is Aggregate),
    ensures
        WindowFuncType::named(function.name()) == Some(function),
{
    reveal_strlit("row_number");
    reveal_strlit("rank");
    reveal_strlit("dense_rank");
    assert("row_number"@.len() != "rank"@.len());
    assert("row_number"@[0] != "dense_rank"@[0]);
    assert("rank"@.len() != "dense_rank"@.len());
}

/// A function that is found under a name has that name, and is no aggregate.
pub proof fn law_found_function_has_name(name: Seq<char>)
    ensures
        WindowFuncType::named(name) matches Some(function) ==> function.name() == name && !(
        function is Aggregate),
{
}

/// Any two bounds compare, as their positions do: the order is total, and bounds at the same
/// position compare as equal even where they are written differently.
pub proof fn law_bounds_compare_by_position(a: WindowFuncFrameBound, b: WindowFuncFrameBound)
    ensures
        a.partial_cmp_spec(&b) is Some,
        (a.partial_cmp_spec(&b) == Some(Ordering::Less)) == (a.position() < b.position()),
        (a.partial_cmp_spec(&b) == Some(Ordering::Equal)) == (a.position() == b.position()),
        (a.partial_cmp_spec(&b) == Some(Ordering::Greater)) == (b.partial_cmp_spec(&a) == Some(
            Ordering::Less,
        )),
{
}

/// Comparing bounds is transitive.
pub proof fn law_bounds_transitive(
    a: WindowFuncFrameBound,
    b: WindowFuncFrameBound,
    c: WindowFuncFrameBound,
)
    requires
        a.partial_cmp_spec(&b) != Some(Ordering::Greater),
        b.partial_cmp_spec(&c) != Some(Ordering::Greater),
    ensures
        a.partial_cmp_spec(&c) != Some(Ordering::Greater),
{
}

/// Nothing comes before `UNBOUNDED PRECEDING`, and nothing after `UNBOUNDED FOLLOWING`.
pub proof fn law_unbounded_is_extreme(a: WindowFuncFrameBound)
    ensures
        WindowFuncFrameBound::Preceding(None).partial_cmp_spec(&a) != Some(Ordering::Greater),
        a.partial_cmp_spec(&WindowFuncFrameBound::Following(None)) != Some(Ordering::Greater),
{
}

/// Bounds with offsets that fit in 63 bits lie as they read: a larger `PRECEDING` comes
/// earlier, a larger `FOLLOWING` later, and the current row between them.
pub proof fn law_offsets_in_order(m: usize, n: usize)
    requires
        m < n <= i64::MAX,
    ensures
        WindowFuncFrameBound::Preceding(Some(n)).partial_cmp_spec(
            &WindowFuncFrameBound::Preceding(Some(m)),
        ) == Some(Ordering::Less),
        WindowFuncFrameBound::Preceding(Some(n)).partial_cmp_spec(&WindowFuncFrameBound::CurrentRow)
            == Some(Ordering::Less),
        WindowFuncFrameBound::CurrentRow.partial_cmp_spec(&WindowFuncFrameBound::Following(Some(n)))
            == Some(Ordering::Less),
        WindowFuncFrameBound::Following(Some(m)).partial_cmp_spec(
            &WindowFuncFrameBound::Following(Some(n)),
        ) == Some(Ordering::Less),
{
}

/// A window uses its result column, whatever its function uses, and the columns of its keys.
pub proof fn law_window_uses_its_parts(window: Window)
    ensures
        window.columns().contains(window.index),
        window.function.columns().subset_of(window.columns()),
        forall|i: int|
            0 <= i < window.partition_by@.len() ==> window.columns().contains(
                (#[trigger] window.partition_by@[i]).index,
            ) && window.partition_by@[i].scalar.columns().subset_of(window.columns()),
        forall|i: int|
            0 <= i < window.order_by@.len() ==> window.columns().contains(
                (#[trigger] window.order_by@[i]).order_by_item.index,
            ) && window.order_by@[i].order_by_item.scalar.columns().subset_of(window.columns()),
{
    assert forall|i: int| 0 <= i < window.order_by@.len() implies window.columns().contains(
        (#[trigger] window.order_by@[i]).order_by_item.index,
    ) && window.order_by@[i].order_by_item.scalar.columns().subset_of(window.columns()) by {
        assert(window.order_items()[i] == window.order_by@[i].order_by_item);
    }
}

/// Every partition column of an estimate by distinct values has statistics.
pub proof fn law_estimate_has_statistics<S, C>(
    window: Window,
    input: RelationalProperty<S, C>,
    estimate: Cardinality<C>,
)
    requires
        window.cardinality_is(input, estimate),
    ensures
        estimate matches Cardinality::DistinctCombinations { columns, .. } ==> columns@.len() > 0
            && forall|i: int|
            0 <= i < columns@.len() ==> input.statistics.column_stats@.contains_key(
                #[trigger] columns@[i],
            ),
{
    if let Cardinality::DistinctCombinations { columns, .. } = estimate {
        assert forall|i: int| 0 <= i < columns@.len() implies input.statistics.column_stats@.contains_key(
            #[trigger] columns@[i],
        ) by {
            assert(columns@[i] == window.partition_by@[i].index);
        }
    }
}

/// A window estimates one row exactly when it has no `PARTITION BY`. With one or more keys of
/// `PARTITION BY`, it estimates as many rows as its input has exactly when the column of some
/// key has no statistics; otherwise it estimates by the columns of the keys, one for each key
/// and in their order, and by the rows of its input.
pub proof fn law_estimate_by_keys<S, C>(
    window: Window,
    input: RelationalProperty<S, C>,
    estimate: Cardinality<C>,
)
    requires
        window.cardinality_is(input, estimate),
    ensures
        estimate is One <==> window.partition_by@.len() == 0,
        estimate is Input <==> exists|i: int|
            0 <= i < window.partition_by@.len() && !input.statistics.column_stats@.contains_key(
                (#[trigger] window.partition_by@[i]).index,
            ),
        estimate is DistinctCombinations <==> window.partition_by@.len() > 0 && forall|i: int|
            0 <= i < window.partition_by@.len() ==> input.statistics.column_stats@.contains_key(
                (#[trigger] window.partition_by@[i]).index,
            ),
        estimate matches Cardinality::Input(rows) ==> rows == input.cardinality,
        estimate matches Cardinality::DistinctCombinations { columns, input: rows } ==> {
            &&& rows == input.cardinality
            &&& columns@.len() == window.partition_by@.len()
            &&& forall|i: int|
                0 <= i < columns@.len() ==> #[trigger] columns@[i] == window.partition_by@[i].index
        },
{
}

/// A window with a single key of `PARTITION BY` estimates by the distinct values of the key's
/// column where that column has statistics, and otherwise as many rows as its input has.
pub proof fn law_estimate_by_one_key<S, C>(
    window: Window,
    input: RelationalProperty<S, C>,
    estimate: Cardinality<C>,
    key: ScalarItem,
)
    requires
        window.cardinality_is(input, estimate),
        window.partition_by@ == seq![key],
    ensures
        match estimate {
            Cardinality::One => false,
            Cardinality::Input(rows) => rows == input.cardinality
                && !input.statistics.column_stats@.contains_key(key.index),
            Cardinality::DistinctCombinations { columns, input: rows } => rows == input.cardinality
                && input.statistics.column_stats@.contains_key(key.index) && columns@
                == seq![key.index],
        },
{
    law_estimate_by_keys(window, input, estimate);
    assert(window.partition_by@[0] == key);
}

/// Two inputs with the same columns of statistics and as many rows are estimated alike.
pub proof fn law_estimate_depends_on_statistics<S, C>(
    window: Window,
    a: RelationalProperty<S, C>,
    b: RelationalProperty<S, C>,
    estimate: Cardinality<C>,
)
    requires
        a.statistics.column_stats@.dom() == b.statistics.column_stats@.dom(),
        a.cardinality == b.cardinality,
    ensures
        window.cardinality_is(a, estimate) <==> window.cardinality_is(b, estimate),
{
    assert(forall|c: usize|
        a.statistics.column_stats@.dom().contains(c) == b.statistics.column_stats@.dom().contains(c));
}

/// The name of an aggregate as a window function is the aggregate's own, character by
/// character; a general window function has a fixed name.
pub proof fn law_function_has_its_name(agg: AggregateFunction)
    ensures
        WindowFuncType::Aggregate(agg).name() == agg.func_name@,
        WindowFuncType::RowNumber.name() == "row_number"@,
        WindowFuncType::Rank.name() == "rank"@,
        WindowFuncType::DenseRank.name() == "dense_rank"@,
{
}

/// Aggregates with different names have different names as window functions too.
pub proof fn law_aggregate_names_differ(a: AggregateFunction, b: AggregateFunction)
    requires
        a.func_name@ != b.func_name@,
    ensures
        WindowFuncType::Aggregate(a).name() != WindowFuncType::Aggregate(b).name(),
{
}

/// Exactly three names are found, each with its own function. Any other name is reported.
pub proof fn law_three_names_are_known(name: Seq<char>)
    ensures
        WindowFuncType::named(name) == Some(WindowFuncType::RowNumber) <==> name == "row_number"@,
        WindowFuncType::named(name) == Some(WindowFuncType::Rank) <==> name == "rank"@,
        WindowFuncType::named(name) == Some(WindowFuncType::DenseRank) <==> name == "dense_rank"@,
        WindowFuncType::named(name) is None <==> name != "row_number"@ && name != "rank"@ && name
            != "dense_rank"@,
        unknown_function(name).kind == ErrorKind::UnknownFunction,
        unknown_function(name).message == "Unknown window function: "@ + name,
{
    law_name_finds_function(WindowFuncType::Rank);
    law_name_finds_function(WindowFuncType::DenseRank);
}

/// A bound lies as many rows before or after the current one as its offset says. Offsets from
/// the 63rd bit on wrap around, and an unbounded end lies at the end of the 64-bit range.
pub proof fn law_bound_positions(n: usize)
    ensures
        WindowFuncFrameBound::CurrentRow.position() == 0,
        WindowFuncFrameBound::Preceding(None).position() == -0x8000_0000_0000_0000,
        WindowFuncFrameBound::Following(None).position() == 0x7fff_ffff_ffff_ffff,
        n < 0x8000_0000_0000_0000 ==> WindowFuncFrameBound::Preceding(Some(n)).position() == -n,
        n < 0x8000_0000_0000_0000 ==> WindowFuncFrameBound::Following(Some(n)).position() == n,
        n == 0x8000_0000_0000_0000 ==> WindowFuncFrameBound::Preceding(Some(n)).position()
            == -0x8000_0000_0000_0000,
        n > 0x8000_0000_0000_0000 ==> WindowFuncFrameBound::Preceding(Some(n)).position()
            == 0x1_0000_0000_0000_0000 - n,
        n >= 0x8000_0000_0000_0000 ==> WindowFuncFrameBound::Following(Some(n)).position() == n
            - 0x1_0000_0000_0000_0000,
{
}

/// A preceding and a following bound with the same offset lie on opposite sides of the current
/// row, equally far away, unless the offset has no negation. That is the one preceding offset
/// that overflows; no other bound does.
pub proof fn law_bounds_mirror(bound: WindowFuncFrameBound, n: usize)
    ensures
        n != 0x8000_0000_0000_0000 ==> WindowFuncFrameBound::Preceding(Some(n)).position()
            + WindowFuncFrameBound::Following(Some(n)).position() == 0,
        WindowFuncFrameBound::Preceding(Some(n)).overflows() <==> n == 0x8000_0000_0000_0000,
        !(bound is Preceding) ==> !bound.overflows(),
        !WindowFuncFrameBound::Preceding(None).overflows(),
        -0x8000_0000_0000_0000 <= bound.position() <= 0x7fff_ffff_ffff_ffff,
{
}

/// The order of bounds is the one that comparing them goes by.
pub proof fn law_order_is_stated(a: WindowFuncFrameBound, b: WindowFuncFrameBound)
    ensures
        WindowFuncFrameBound::obeys_partial_cmp_spec(),
        a.partial_cmp_spec(&b) == Some(Ordering::Greater) <==> a.position() > b.position(),
{
}

/// How bounds and units read: an offset is written in base ten.
pub proof fn law_bounds_read(n: usize)
    ensures
        WindowFuncFrameUnits::Rows.text() == "Rows"@,
        WindowFuncFrameUnits::Range.text() == "Range"@,
        WindowFuncFrameBound::CurrentRow.text() == "CurrentRow"@,
        WindowFuncFrameBound::Preceding(None).text() == "Preceding(None)"@,
        WindowFuncFrameBound::Following(None).text() == "Following(None)"@,
        WindowFuncFrameBound::Preceding(Some(n)).text() == "Preceding(Some("@ + decimal(n as nat)
            + "))"@,
        WindowFuncFrameBound::Following(Some(n)).text() == "Following(Some("@ + decimal(n as nat)
            + "))"@,
{
    reveal_strlit("None");
    reveal_strlit("Some(");
    reveal_strlit(")");
    reveal_strlit("))");
    reveal_strlit("Preceding(");
    reveal_strlit("Preceding(None)");
    reveal_strlit("Preceding(Some(");
    reveal_strlit("Following(");
    reveal_strlit("Following(None)");
    reveal_strlit("Following(Some(");
    assert(WindowFuncFrameBound::Preceding(None).text() =~= "Preceding(None)"@);
    assert(WindowFuncFrameBound::Following(None).text() =~= "Following(None)"@);
    assert(WindowFuncFrameBound::Preceding(Some(n)).text() =~= "Preceding(Some("@ + decimal(
        n as nat,
    ) + "))"@);
    assert(WindowFuncFrameBound::Following(Some(n)).text() =~= "Following(Some("@ + decimal(
        n as nat,
    ) + "))"@);
}

/// A frame reads as its units, its start and its end, in this order.
pub proof fn law_frame_reads(
    units: WindowFuncFrameUnits,
    start_bound: WindowFuncFrameBound,
    end_bound: WindowFuncFrameBound,
)
    ensures
        (WindowFuncFrame { units, start_bound, end_bound }).text() == match units {
            WindowFuncFrameUnits::Rows => "Rows: "@,
            WindowFuncFrameUnits::Range => "Range: "@,
        } + start_bound.text() + " ~ "@ + end_bound.text(),
{
    reveal_strlit("Rows");
    reveal_strlit("Range");
    reveal_strlit(": ");
    reveal_strlit("Rows: ");
    reveal_strlit("Range: ");
    assert("Rows"@ + ": "@ =~= "Rows: "@);
    assert("Range"@ + ": "@ =~= "Range: "@);
}

/// A window function refers to a column exactly when it is an aggregate and some place of the
/// references of one of its arguments holds the column.
pub proof fn law_function_uses_references(function: WindowFuncType, c: usize)
    ensures
        function.columns().contains(c) <==> (function matches WindowFuncType::Aggregate(agg)
            && exists|i: int, j: int|
            0 <= i < agg.args@.len() && 0 <= j < agg.args@[i].column_refs@.len()
                && #[trigger] agg.args@[i].column_refs@[j] == c),
{
    if let WindowFuncType::Aggregate(agg) = function {
        law_all_columns_are_references(agg.args@, c);
    }
}

/// A window uses a column exactly when the column holds its result, or is referred to by an
/// argument of its aggregate, or holds a key of `PARTITION BY` or `ORDER BY`, or is referred to
/// by such a key.
pub proof fn law_window_uses_references(window: Window, c: usize)
    ensures
        window.columns().contains(c) <==> {
            ||| c == window.index
            ||| (window.function matches WindowFuncType::Aggregate(agg) && exists|i: int, j: int|
                0 <= i < agg.args@.len() && 0 <= j < agg.args@[i].column_refs@.len()
                    && #[trigger] agg.args@[i].column_refs@[j] == c)
            ||| exists|i: int|
                0 <= i < window.partition_by@.len() && (#[trigger] window.partition_by@[i]).index
                    == c
            ||| exists|i: int, j: int|
                0 <= i < window.partition_by@.len() && 0 <= j
                    < window.partition_by@[i].scalar.column_refs@.len()
                    && #[trigger] window.partition_by@[i].scalar.column_refs@[j] == c
            ||| exists|i: int|
                0 <= i < window.order_by@.len() && (
                #[trigger] window.order_by@[i]).order_by_item.index == c
            ||| exists|i: int, j: int|
                0 <= i < window.order_by@.len() && 0 <= j
                    < window.order_by@[i].order_by_item.scalar.column_refs@.len()
                    && #[trigger] window.order_by@[i].order_by_item.scalar.column_refs@[j] == c
        },
{
    law_function_uses_references(window.function, c);
    law_items_use_references(window.partition_by@, c);
    law_items_use_references(window.order_items(), c);
    let items = window.order_items();
    assert(items.len() == window.order_by@.len());
    assert(forall|i: int|
        0 <= i < items.len() ==> #[trigger] items[i] == window.order_by@[i].order_by_item);
    if item_columns(items).contains(c) {
        if exists|i: int| 0 <= i < items.len() && (#[trigger] items[i]).index == c {
            let i = choose|i: int| 0 <= i < items.len() && (#[trigger] items[i]).index == c;
            assert(window.order_by@[i].order_by_item.index == c);
        } else {
            let (i, j) = choose|i: int, j: int|
                0 <= i < items.len() && 0 <= j < items[i].scalar.column_refs@.len()
                    && #[trigger] items[i].scalar.column_refs@[j] == c;
            assert(window.order_by@[i].order_by_item.scalar.column_refs@[j] == c);
        }
    }
    if exists|i: int|
        0 <= i < window.order_by@.len() && (#[trigger] window.order_by@[i]).order_by_item.index
            == c {
        let i = choose|i: int|
            0 <= i < window.order_by@.len() && (#[trigger] window.order_by@[i]).order_by_item.index
                == c;
        assert(items[i].index == c);
    }
    if exists|i: int, j: int|
        0 <= i < window.order_by@.len() && 0 <= j
            < window.order_by@[i].order_by_item.scalar.column_refs@.len()
            && #[trigger] window.order_by@[i].order_by_item.scalar.column_refs@[j] == c {
        let (i, j) = choose|i: int, j: int|
            0 <= i < window.order_by@.len() && 0 <= j
                < window.order_by@[i].order_by_item.scalar.column_refs@.len()
                && #[trigger] window.order_by@[i].order_by_item.scalar.column_refs@[j] == c;
        assert(items[i].scalar.column_refs@[j] == c);
    }
}

/// Some items use a column exactly when it holds one of them or some place of the references
/// of one of them holds it.
pub proof fn law_items_use_references(items: Seq<ScalarItem>, c: usize)
    ensures
        item_columns(items).contains(c) <==> {
            ||| exists|i: int| 0 <= i < items.len() && (#[trigger] items[i]).index == c
            ||| exists|i: int, j: int|
                0 <= i < items.len() && 0 <= j < items[i].scalar.column_refs@.len()
                    && #[trigger] items[i].scalar.column_refs@[j] == c
        },
{
    if item_columns(items).contains(c) {
        let i = choose|i: int|
            0 <= i < items.len() && ((#[trigger] items[i]).index == c
                || items[i].scalar.columns().contains(c));
        law_columns_are_references(items[i].scalar, c);
        if items[i].index != c {
            let j = choose|j: int|
                0 <= j < items[i].scalar.column_refs@.len()
                    && #[trigger] items[i].scalar.column_refs@[j] == c;
            assert(items[i].scalar.column_refs@[j] == c);
        }
    }
    if exists|i: int, j: int|
        0 <= i < items.len() && 0 <= j < items[i].scalar.column_refs@.len()
            && #[trigger] items[i].scalar.column_refs@[j] == c {
        let (i, j) = choose|i: int, j: int|
            0 <= i < items.len() && 0 <= j < items[i].scalar.column_refs@.len()
                && #[trigger] items[i].scalar.column_refs@[j] == c;
        law_columns_are_references(items[i].scalar, c);
        assert(items[i].scalar.columns().contains(c));
    }
}

} // verus!
