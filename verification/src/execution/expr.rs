//! Evaluable expressions over chunks, and building them from bound expressions.
//!
//! A chunk is held by its columns, each a sequence of datums of the chunk's length.
use vstd::prelude::*;

use crate::data_type::{LogicalType, LogicalTypeKind, TypeView};
use crate::plan::expr::{Constant, Schema, VariableRef};
use crate::scalar::{datum_model, datums_model, duplicate_datum, duplicate_datums, Datum, ScalarValue};

verus! {

/// A reference to a column of the input chunk.
#[derive(Debug)]
pub struct VariableRefExpr {
    pub idx: usize,
    typ: LogicalType,
}

impl VariableRefExpr {
    pub fn new(idx: usize, typ: LogicalType) -> (r: VariableRefExpr)
        ensures
            r.column() == idx,
            r.spec_typ() == typ,
    {
        VariableRefExpr { idx, typ }
    }

    pub closed spec fn spec_typ(&self) -> LogicalType {
        self.typ
    }

    /// The referenced column.
    pub closed spec fn column(&self) -> usize {
        self.idx
    }

    pub fn typ(&self) -> (r: &LogicalType)
        ensures
            *r == self.spec_typ(),
    {
        &self.typ
    }

    /// The referenced column.
    pub fn eval_batch(&self, columns: &Vec<Vec<Datum>>) -> (r: Vec<Datum>)
        requires
            self.column() < columns@.len(),
        ensures
            datums_model(r@) == datums_model(columns@[self.column() as int]@),
    {
        duplicate_datums(columns[self.idx].as_slice())
    }
}

/// A constant, the same on every row.
#[derive(Debug)]
pub struct ConstantExpr {
    pub value: Option<ScalarValue>,
    pub typ: LogicalType,
}

impl ConstantExpr {
    pub fn typ(&self) -> (r: &LogicalType)
        ensures
            *r == self.typ,
    {
        &self.typ
    }

    /// The constant repeated for each of the `len` rows of the chunk.
    pub fn eval_batch(&self, len: usize) -> (r: Vec<Datum>)
        ensures
            r@.len() == len,
            forall|i: int| 0 <= i < len ==> datum_model(#[trigger] r@[i]) == datum_model(self.value),
    {
        let mut out: Vec<Datum> = Vec::new();
        let mut i: usize = 0;
        while i < len
            invariant
                i <= len,
                out@.len() == i,
                forall|k: int| 0 <= k < i ==> datum_model(#[trigger] out@[k]) == datum_model(self.value),
            decreases len - i,
        {
            out.push(duplicate_datum(&self.value));
            i = i + 1;
        }
        out
    }
}

/// Errors of building executors and expressions.
pub enum BuildError {
    VariableNotFound(String),
}

impl BuildError {
    pub fn variable_not_found(name: String) -> (r: BuildError)
        ensures
            r == BuildError::VariableNotFound(name),
    {
        BuildError::VariableNotFound(name)
    }
}

/// The position of the column named `name` in `names`: the last one of that name.
pub open spec fn column_of(names: Seq<Seq<char>>, name: Seq<char>) -> Option<int>
    decreases names.len(),
{
    if names.len() == 0 {
        None
    } else if names.last() == name {
        Some(names.len() - 1)
    } else {
        column_of(names.drop_last(), name)
    }
}

/// The names of the columns of a schema.
pub open spec fn column_names(schema: Schema) -> Seq<Seq<char>> {
    schema.columns@.map_values(|v: crate::plan::expr::Variable| v.name@)
}

/// What building expressions needs: the input schema and its columns by name.
pub struct BuildExprContext<'a> {
    pub schema: &'a Schema,
    /// Each column name with its position; a name that occurs twice maps to its last column.
    pub name2col: Vec<(String, usize)>,
}

impl<'a> BuildExprContext<'a> {
    pub open spec fn wf(&self) -> bool {
        forall|name: Seq<char>| #[trigger] self.lookup(name) == column_of(column_names(*self.schema), name)
    }

    /// The column that `name2col` gives for `name`.
    pub open spec fn lookup(&self, name: Seq<char>) -> Option<int> {
        column_of(self.name2col@.map_values(|e: (String, usize)| e.0@), name)
    }

    pub fn new(schema: &'a Schema) -> (r: BuildExprContext<'a>)
        ensures
            r.wf(),
            r.schema == schema,
            forall|k: int| 0 <= k < r.name2col@.len() ==> (#[trigger] r.name2col@[k]).1 == k,
            r.name2col@.len() == schema.columns@.len(),
    {
        let mut name2col: Vec<(String, usize)> = Vec::new();
        let mut i: usize = 0;
        while i < schema.columns.len()
            invariant
                i <= schema.columns@.len(),
                name2col@.len() == i,
                forall|k: int| 0 <= k < i ==> (#[trigger] name2col@[k]).1 == k,
                name2col@.map_values(|e: (String, usize)| e.0@) == column_names(*schema).take(i as int),
            decreases schema.columns@.len() - i,
        {
            let ghost before = name2col@;
            name2col.push((schema.columns[i].name.clone(), i));
            proof {
                assert(name2col@.map_values(|e: (String, usize)| e.0@) =~= before.map_values(
                    |e: (String, usize)| e.0@,
                ).push(schema.columns@[i as int].name@));
                assert(column_names(*schema).take(i + 1) =~= column_names(*schema).take(i as int).push(
                    schema.columns@[i as int].name@,
                ));
            }
            i = i + 1;
        }
        proof {
            assert(column_names(*schema).take(schema.columns@.len() as int) =~= column_names(*schema));
        }
        BuildExprContext { schema, name2col }
    }

    /// The position of the column named `name`.
    pub fn column_index(&self, name: &String) -> (r: Option<usize>)
        requires
            self.wf(),
            forall|k: int| 0 <= k < self.name2col@.len() ==> (#[trigger] self.name2col@[k]).1 == k,
        ensures
            match column_of(column_names(*self.schema), name@) {
                Some(c) => r == Some(c as usize),
                None => r is None,
            },
    {
        let ghost names = self.name2col@.map_values(|e: (String, usize)| e.0@);
        let mut i: usize = self.name2col.len();
        proof {
            assert(names.take(i as int) =~= names);
            assert(self.lookup(name@) == column_of(column_names(*self.schema), name@));
        }
        while i > 0
            invariant
                i <= self.name2col@.len(),
                names == self.name2col@.map_values(|e: (String, usize)| e.0@),
                forall|k: int| 0 <= k < self.name2col@.len() ==> (#[trigger] self.name2col@[k]).1 == k,
                column_of(names, name@) == column_of(names.take(i as int), name@),
                column_of(names, name@) == column_of(column_names(*self.schema), name@),
            decreases i,
        {
            proof {
                assert(names.take(i as int).drop_last() =~= names.take(i - 1));
            }
            if self.name2col[i - 1].0 == *name {
                proof {
                    assert(names[i - 1] == name@);
                    assert(names.take(i as int).last() == names[i - 1]);
                }
                return Some(self.name2col[i - 1].1);
            }
            i = i - 1;
        }
        None
    }
}

/// The type of a column, for a variable that refers to it.
fn column_type(schema: &Schema, col: usize) -> (r: LogicalType)
    requires
        col < schema.columns@.len(),
    ensures
        r@ == schema.columns@[col as int].typ@,
{
    schema.columns[col].typ.duplicate()
}

/// Builds the reference to the column of a variable, which must be in the schema.
pub fn build_variable(ctx: &BuildExprContext<'_>, variable_ref: &VariableRef) -> (r: Result<VariableRefExpr, BuildError>)
    requires
        ctx.wf(),
        forall|k: int| 0 <= k < ctx.name2col@.len() ==> (#[trigger] ctx.name2col@[k]).1 == k,
        ctx.name2col@.len() == ctx.schema.columns@.len(),
    ensures
        match column_of(column_names(*ctx.schema), variable_ref.name@) {
            Some(c) => r matches Ok(e) && e.column() == c && e.spec_typ()@ == ctx.schema.columns@[c].typ@,
            None => r matches Err(BuildError::VariableNotFound(n)) && n@ == variable_ref.name@,
        },
{
    match ctx.column_index(&variable_ref.name) {
        Some(col) => {
            proof {
                lemma_column_of_bound(column_names(*ctx.schema), variable_ref.name@);
                assert(column_names(*ctx.schema).len() == ctx.schema.columns@.len());
                assert(ctx.schema.columns@.len() == ctx.schema.columns.len());
            }
            let typ = column_type(ctx.schema, col);
            Ok(VariableRefExpr::new(col, typ))
        },
        None => Err(BuildError::variable_not_found(variable_ref.name.clone())),
    }
}

proof fn lemma_column_of_bound(names: Seq<Seq<char>>, name: Seq<char>)
    ensures
        column_of(names, name) matches Some(c) ==> 0 <= c < names.len(),
    decreases names.len(),
{
    if names.len() > 0 {
        lemma_column_of_bound(names.drop_last(), name);
    }
}

/// Builds a constant. A constant that the binder left untyped is typed `ANY`.
pub fn build_constant(constant: &Constant) -> (r: ConstantExpr)
    ensures
        datum_model(r.value) == datum_model(constant.data),
        r.typ@ == match constant.typ {
            Some(t) => t@,
            None => TypeView { kind: LogicalTypeKind::Any, physical_type: crate::data_type::kind_physical_type(LogicalTypeKind::Any), extra: None },
        },
{
    let typ = match &constant.typ {
        Some(t) => t.duplicate(),
        None => LogicalType::simple(LogicalTypeKind::Any),
    };
    ConstantExpr { value: duplicate_datum(&constant.data), typ }
}

} // verus!
