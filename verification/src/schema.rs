//! Table schemas and the columns of a bound table.

use vstd::prelude::*;

use crate::error::{ErrorCode, ErrorKind, ErrorView};
use crate::scalar::DataType;
use crate::text::{enclose, same_text};

verus! {

/// One field of a table.
#[derive(Debug, PartialEq, Eq, Hash)]
pub struct TableField {
    pub name: String,
    pub data_type: DataType,
    pub default_expr: Option<String>,
    /// The expression that computes the field, for a computed field.
    pub computed_expr: Option<String>,
    pub column_id: u32,
}

/// The fields of a table, in order.
#[derive(Debug, PartialEq, Eq, Hash)]
pub struct TableSchema {
    pub fields: Vec<TableField>,
    pub metadata: Vec<(String, String)>,
    pub next_column_id: u32,
}

/// The contents of a [`TableSchema`].
pub ghost struct SchemaView {
    pub fields: Seq<TableField>,
    pub metadata: Seq<(String, String)>,
    pub next_column_id: u32,
}

impl View for TableSchema {
    type V = SchemaView;

    open spec fn view(&self) -> SchemaView {
        SchemaView {
            fields: self.fields@,
            metadata: self.metadata@,
            next_column_id: self.next_column_id,
        }
    }
}

/// Whether two optional strings agree.
pub open spec fn same_optional(a: Option<String>, b: Option<String>) -> bool {
    match (a, b) {
        (Some(x), Some(y)) => x@ == y@,
        (None, None) => true,
        _ => false,
    }
}

/// Whether two types are the same type.
pub open spec fn same_type(a: DataType, b: DataType) -> bool {
    match (a, b) {
        (DataType::Number(x), DataType::Number(y)) => x == y,
        (DataType::Other(x), DataType::Other(y)) => x@ == y@,
        _ => false,
    }
}

/// Whether two fields agree in everything.
pub open spec fn same_field(a: TableField, b: TableField) -> bool {
    &&& a.name@ == b.name@
    &&& same_type(a.data_type, b.data_type)
    &&& same_optional(a.default_expr, b.default_expr)
    &&& same_optional(a.computed_expr, b.computed_expr)
    &&& a.column_id == b.column_id
}

/// Whether two schemas agree in everything, field by field.
pub open spec fn same_schema(a: SchemaView, b: SchemaView) -> bool {
    &&& a.fields.len() == b.fields.len()
    &&& forall|i: int| 0 <= i < a.fields.len() ==> same_field(#[trigger] a.fields[i], b.fields[i])
    &&& a.metadata.len() == b.metadata.len()
    &&& forall|i: int|
        0 <= i < a.metadata.len() ==> (#[trigger] a.metadata[i]).0@ == b.metadata[i].0@
            && a.metadata[i].1@ == b.metadata[i].1@
    &&& a.next_column_id == b.next_column_id
}

fn optional_eq(a: &Option<String>, b: &Option<String>) -> (r: bool)
    ensures
        r == same_optional(*a, *b),
{
    match (a, b) {
        (Some(x), Some(y)) => same_text(x, y),
        (None, None) => true,
        _ => false,
    }
}

fn type_eq(a: &DataType, b: &DataType) -> (r: bool)
    ensures
        r == same_type(*a, *b),
{
    match (a, b) {
        (DataType::Number(x), DataType::Number(y)) => *x == *y,
        (DataType::Other(x), DataType::Other(y)) => same_text(x, y),
        _ => false,
    }
}

impl Clone for TableField {
    fn clone(&self) -> (r: Self)
        ensures
            r == *self,
    {
        TableField {
            name: self.name.clone(),
            data_type: self.data_type.clone(),
            default_expr: match &self.default_expr {
                Some(e) => Some(e.clone()),
                None => None,
            },
            computed_expr: match &self.computed_expr {
                Some(e) => Some(e.clone()),
                None => None,
            },
            column_id: self.column_id,
        }
    }
}

impl TableField {
    /// Whether two fields agree in everything.
    pub fn same_as(&self, other: &TableField) -> (r: bool)
        ensures
            r == same_field(*self, *other),
    {
        same_text(&self.name, &other.name) && type_eq(&self.data_type, &other.data_type)
            && optional_eq(&self.default_expr, &other.default_expr) && optional_eq(
            &self.computed_expr,
            &other.computed_expr,
        ) && self.column_id == other.column_id
    }
}

impl Clone for TableSchema {
    fn clone(&self) -> (r: Self)
        ensures
            r@ == self@,
    {
        let mut fields: Vec<TableField> = Vec::new();
        let mut i: usize = 0;
        while i < self.fields.len()
            invariant
                i <= self.fields.len(),
                fields@ == self.fields@.take(i as int),
            decreases self.fields.len() - i,
        {
            fields.push(self.fields[i].clone());
            i += 1;
        }
        let mut metadata: Vec<(String, String)> = Vec::new();
        let mut j: usize = 0;
        while j < self.metadata.len()
            invariant
                j <= self.metadata.len(),
                metadata@ == self.metadata@.take(j as int),
            decreases self.metadata.len() - j,
        {
            metadata.push((self.metadata[j].0.clone(), self.metadata[j].1.clone()));
            j += 1;
        }
        assert(fields@ == self.fields@);
        assert(metadata@ == self.metadata@);
        TableSchema { fields, metadata, next_column_id: self.next_column_id }
    }
}

/// Whether some field is computed.
pub open spec fn some_computed(fields: Seq<TableField>) -> bool {
    exists|i: int| 0 <= i < fields.len() && (#[trigger] fields[i]).computed_expr is Some
}

impl TableSchema {
    /// A schema without fields.
    pub fn empty() -> (r: TableSchema)
        ensures
            r@ == (SchemaView {
                fields: Seq::empty(),
                metadata: Seq::empty(),
                next_column_id: 0,
            }),
    {
        TableSchema { fields: Vec::new(), metadata: Vec::new(), next_column_id: 0 }
    }

    /// Whether two schemas agree in everything, field by field.
    pub fn same_as(&self, other: &TableSchema) -> (r: bool)
        ensures
            r == same_schema(self@, other@),
    {
        if self.fields.len() != other.fields.len() || self.metadata.len() != other.metadata.len()
            || self.next_column_id != other.next_column_id {
            return false;
        }
        let mut i: usize = 0;
        while i < self.fields.len()
            invariant
                i <= self.fields.len(),
                self.fields.len() == other.fields.len(),
                forall|k: int|
                    0 <= k < i ==> same_field(#[trigger] self@.fields[k], other@.fields[k]),
            decreases self.fields.len() - i,
        {
            if !self.fields[i].same_as(&other.fields[i]) {
                assert(!same_field(self@.fields[i as int], other@.fields[i as int]));
                return false;
            }
            i += 1;
        }
        let mut j: usize = 0;
        while j < self.metadata.len()
            invariant
                j <= self.metadata.len(),
                self.metadata.len() == other.metadata.len(),
                forall|k: int|
                    0 <= k < j ==> (#[trigger] self@.metadata[k]).0@ == other@.metadata[k].0@
                        && self@.metadata[k].1@ == other@.metadata[k].1@,
            decreases self.metadata.len() - j,
        {
            if !same_text(&self.metadata[j].0, &other.metadata[j].0) || !same_text(
                &self.metadata[j].1,
                &other.metadata[j].1,
            ) {
                assert(self@.metadata[j as int].0@ != other@.metadata[j as int].0@
                    || self@.metadata[j as int].1@ != other@.metadata[j as int].1@);
                return false;
            }
            j += 1;
        }
        true
    }

    /// Whether some field of the table is computed.
    pub fn has_computed_field(&self) -> (r: bool)
        ensures
            r == some_computed(self.fields@),
    {
        let mut i: usize = 0;
        while i < self.fields.len()
            invariant
                i <= self.fields.len(),
                forall|j: int| 0 <= j < i ==> (#[trigger] self.fields@[j]).computed_expr is None,
            decreases self.fields.len() - i,
        {
            if self.fields[i].computed_expr.is_some() {
                assert(self.fields@[i as int].computed_expr is Some);
                return true;
            }
            i += 1;
        }
        false
    }
}

/// A column of a bound table: its name and its number within the query.
#[derive(Clone, Debug, PartialEq, Eq, Hash)]
pub struct ColumnEntry {
    pub name: String,
    pub index: usize,
}

/// The number of the first column with a name.
pub open spec fn column_named(entries: Seq<ColumnEntry>, name: Seq<char>) -> Option<usize>
    decreases entries.len(),
{
    if entries.len() == 0 {
        None
    } else if entries[0].name@ == name {
        Some(entries[0].index)
    } else {
        column_named(entries.drop_first(), name)
    }
}

/// The error for a name that no column has.
pub open spec fn unknown_column(name: Seq<char>) -> ErrorView {
    ErrorView { kind: ErrorKind::BadArguments, message: "not found col name: "@ + name }
}

/// Looks a column up by its name. The first column with the name counts.
pub fn find_column_index(column_entries: &Vec<ColumnEntry>, col_name: &str) -> (r: Result<
    usize,
    ErrorCode,
>)
    ensures
        match r {
            Ok(index) => column_named(column_entries@, col_name@) == Some(index),
            Err(e) => column_named(column_entries@, col_name@) is None && e@ == unknown_column(
                col_name@,
            ),
        },
{
    assert(column_entries@.skip(0) == column_entries@);
    let mut i: usize = 0;
    while i < column_entries.len()
        invariant
            i <= column_entries.len(),
            column_named(column_entries@, col_name@) == column_named(
                column_entries@.skip(i as int),
                col_name@,
            ),
        decreases column_entries.len() - i,
    {
        let ghost rest = column_entries@.skip(i as int);
        assert(rest[0] == column_entries@[i as int]);
        if same_text(col_name, &column_entries[i].name) {
            return Ok(column_entries[i].index);
        }
        assert(rest.drop_first() == column_entries@.skip(i + 1));
        i += 1;
    }
    proof {
        reveal_strlit("");
    }
    let message = enclose("not found col name: ", col_name, "");
    assert(message@ == "not found col name: "@ + col_name@);
    Err(ErrorCode { kind: ErrorKind::BadArguments, message })
}

/// Looking a name up gives the column that has the name before any other column does, and
/// nothing exactly when no column has the name.
pub proof fn law_first_column_counts(entries: Seq<ColumnEntry>, name: Seq<char>)
    ensures
        match column_named(entries, name) {
            Some(index) => exists|i: int|
                0 <= i < entries.len() && (#[trigger] entries[i]).name@ == name && entries[i].index
                    == index && forall|j: int| 0 <= j < i ==> (#[trigger] entries[j]).name@ != name,
            None => forall|i: int| 0 <= i < entries.len() ==> (#[trigger] entries[i]).name@ != name,
        },
    decreases entries.len(),
{
    if entries.len() > 0 && entries[0].name@ != name {
        let rest = entries.drop_first();
        law_first_column_counts(rest, name);
        assert(forall|i: int| 0 <= i < rest.len() ==> #[trigger] rest[i] == entries[i + 1]);
        assert(forall|i: int| 1 <= i < entries.len() ==> #[trigger] entries[i] == rest[i - 1]);
        match column_named(rest, name) {
            Some(index) => {
                let i = choose|i: int|
                    0 <= i < rest.len() && (#[trigger] rest[i]).name@ == name && rest[i].index
                        == index && forall|j: int|
                        0 <= j < i ==> (#[trigger] rest[j]).name@ != name;
                assert(entries[i + 1].name@ == name);
            },
            None => {},
        }
    } else if entries.len() > 0 {
        assert(entries[0].name@ == name);
    }
}

/// A schema agrees with itself.
pub proof fn law_same_schema_reflexive(a: SchemaView)
    ensures
        same_schema(a, a),
{
}

/// Agreement of schemas goes both ways.
pub proof fn law_same_schema_symmetric(a: SchemaView, b: SchemaView)
    requires
        same_schema(a, b),
    ensures
        same_schema(b, a),
{
    assert forall|i: int| 0 <= i < b.fields.len() implies same_field(
        #[trigger] b.fields[i],
        a.fields[i],
    ) by {
        assert(same_field(a.fields[i], b.fields[i]));
    }
    assert forall|i: int| 0 <= i < b.metadata.len() implies (#[trigger] b.metadata[i]).0@
        == a.metadata[i].0@ && b.metadata[i].1@ == a.metadata[i].1@ by {
        assert(a.metadata[i].0@ == b.metadata[i].0@);
    }
}

/// The contents of a schema are its fields and its metadata, in order, and the next number.
pub proof fn law_schema_contents(schema: TableSchema)
    ensures
        schema@.fields == schema.fields@,
        schema@.metadata == schema.metadata@,
        schema@.next_column_id == schema.next_column_id,
{
}

/// Two types agree exactly when both are the same number or both have the same name.
pub proof fn law_types_agree(
    m: crate::scalar::NumberDataType,
    n: crate::scalar::NumberDataType,
    s: String,
    t: String,
)
    ensures
        same_type(DataType::Number(m), DataType::Number(n)) <==> m == n,
        same_type(DataType::Other(s), DataType::Other(t)) <==> s@ == t@,
        !same_type(DataType::Number(m), DataType::Other(t)),
        !same_type(DataType::Other(s), DataType::Number(n)),
{
}

/// Two fields agree exactly when names, types, defaults, computing expressions and numbers all
/// do; an expression agrees with one that reads the same, and a missing one with a missing one.
pub proof fn law_fields_agree(a: TableField, b: TableField)
    ensures
        same_field(a, b) <==> {
            &&& a.name@ == b.name@
            &&& same_type(a.data_type, b.data_type)
            &&& a.default_expr is Some <==> b.default_expr is Some
            &&& a.default_expr is Some ==> a.default_expr->0@ == b.default_expr->0@
            &&& a.computed_expr is Some <==> b.computed_expr is Some
            &&& a.computed_expr is Some ==> a.computed_expr->0@ == b.computed_expr->0@
            &&& a.column_id == b.column_id
        },
{
}

/// Schemas that agree have as many fields and entries of metadata, and agree at each place.
/// Schemas that differ anywhere do not agree.
pub proof fn law_schemas_agree(a: SchemaView, b: SchemaView)
    ensures
        a.fields.len() != b.fields.len() ==> !same_schema(a, b),
        a.metadata.len() != b.metadata.len() ==> !same_schema(a, b),
        a.next_column_id != b.next_column_id ==> !same_schema(a, b),
        forall|i: int|
            0 <= i < a.fields.len() && !same_field(#[trigger] a.fields[i], b.fields[i])
                ==> !same_schema(a, b),
        forall|i: int|
            0 <= i < a.metadata.len() && ((#[trigger] a.metadata[i]).0@ != b.metadata[i].0@
                || a.metadata[i].1@ != b.metadata[i].1@) ==> !same_schema(a, b),
        a.fields.len() == b.fields.len() && a.metadata.len() == b.metadata.len()
            && a.next_column_id == b.next_column_id && (forall|i: int|
            0 <= i < a.fields.len() ==> same_field(#[trigger] a.fields[i], b.fields[i])) && (
        forall|i: int|
            0 <= i < a.metadata.len() ==> (#[trigger] a.metadata[i]).0@ == b.metadata[i].0@
                && a.metadata[i].1@ == b.metadata[i].1@) ==> same_schema(a, b),
{
}

/// A table has a computed field as soon as one field, at any place, is computed by any
/// expression, and only then.
pub proof fn law_any_computed_field_counts(fields: Seq<TableField>, i: int, expr: String)
    ensures
        0 <= i < fields.len() && fields[i].computed_expr == Some(expr) ==> some_computed(fields),
        (forall|k: int| 0 <= k < fields.len() ==> (#[trigger] fields[k]).computed_expr is None)
            ==> !some_computed(fields),
{
}

/// A name that no column has is reported with that name.
pub proof fn law_unknown_column_names_it(name: Seq<char>)
    ensures
        unknown_column(name) == (ErrorView {
            kind: ErrorKind::BadArguments,
            message: "not found col name: "@ + name,
        }),
{
}

} // verus!
