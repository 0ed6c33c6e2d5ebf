//! Function registries: overload sets by name.
use vstd::prelude::*;

use crate::data_type::{LogicalType, TypeView};
use crate::function::agg::AggFunctionKind;
use crate::function::registry::{NameTable, Named};
use crate::function::sig::{
    all_wf, args_match, coercion_resolved, matches_with_null_coercion, signature_matches,
    types_view,
};

pub mod agg;
pub mod arith;
pub mod builtin;
pub mod convert;
pub mod list;
pub mod logic;
pub mod registry;
pub mod sig;

verus! {

/// The implementations of the scalar functions.
#[derive(Debug, Clone, Copy, PartialEq, Eq, Structural)]
pub enum ScalarFunctionKind {
    Add,
    Subtract,
    Multiply,
    Divide,
    Modulo,
    Pow,
    UnaryAdd,
    UnarySubtract,
    And,
    Or,
    Xor,
    Not,
    IsNull,
    IsNotNull,
    Eq,
    NotEq,
    Gt,
    GtEq,
    Lt,
    LtEq,
    ListIndex,
    ListSlice,
    BooleanToBoolean,
    AnyToBoolean,
    BooleanToInteger,
    AnyToInteger,
    BooleanToFloat,
    AnyToFloat,
    BooleanToString,
    AnyToString,
}

/// The lower case form of a text, as `str::to_lowercase` computes it.
pub uninterp spec fn lowercase(s: Seq<char>) -> Seq<char>;

/// Whether `s` is ASCII text without upper case letters: such a text is its own lower case form.
pub open spec fn is_plain_lowercase(s: Seq<char>) -> bool {
    forall|i: int| 0 <= i < s.len() ==> (#[trigger] s[i] as u32) < 128 && !('A' <= s[i] <= 'Z')
}

/// Calls `str::to_lowercase`, which maps each character to its Unicode lower case form; an ASCII
/// character that is not an upper case letter maps to itself.
#[verifier::external_body]
fn to_lowercase(s: &str) -> (r: String)
    ensures
        r@ == lowercase(s@),
        is_plain_lowercase(s@) ==> r@ == s@,
{
    s.to_lowercase()
}

pub open spec fn opt_type_view(t: Option<LogicalType>) -> Option<TypeView> {
    match t {
        Some(t) => Some(t@),
        None => None,
    }
}

fn duplicate_types(types: &Vec<LogicalType>) -> (r: Vec<LogicalType>)
    ensures
        types_view(r@) == types_view(types@),
{
    let mut out: Vec<LogicalType> = Vec::new();
    let mut i: usize = 0;
    while i < types.len()
        invariant
            i <= types.len(),
            out@.len() == i,
            forall|j: int| 0 <= j < i ==> (#[trigger] out@[j])@ == types@[j]@,
        decreases types.len() - i,
    {
        out.push(types[i].duplicate());
        i = i + 1;
    }
    assert(types_view(out@) =~= types_view(types@));
    out
}

/// A scalar function overload: its signature and the implementation that runs it.
pub struct ScalarFunction {
    pub name: String,
    pub arguments: Vec<LogicalType>,
    pub varargs: Option<LogicalType>,
    pub return_type: LogicalType,
    pub execute: ScalarFunctionKind,
}

impl ScalarFunction {
    /// Same name, signature and implementation.
    pub open spec fn same_as(&self, other: &ScalarFunction) -> bool {
        &&& self.name@ == other.name@
        &&& types_view(self.arguments@) == types_view(other.arguments@)
        &&& opt_type_view(self.varargs) == opt_type_view(other.varargs)
        &&& self.return_type@ == other.return_type@
        &&& self.execute == other.execute
    }

    pub fn duplicate(&self) -> (r: ScalarFunction)
        ensures
            r.same_as(self),
    {
        let varargs = match &self.varargs {
            Some(t) => Some(t.duplicate()),
            None => None,
        };
        ScalarFunction {
            name: self.name.clone(),
            arguments: duplicate_types(&self.arguments),
            varargs,
            return_type: self.return_type.duplicate(),
            execute: self.execute,
        }
    }

    pub fn matches_with_null_coercion(&self, args: &Vec<LogicalType>, is_untyped_null: &Vec<bool>) -> (r: Option<
        (LogicalType, Vec<LogicalType>),
    >)
        requires
            all_wf(self.arguments@),
            all_wf(args@),
        ensures
            coercion_resolved(self.arguments@, self.return_type, args@, is_untyped_null@, r),
    {
        matches_with_null_coercion(&self.arguments, &self.return_type, args, is_untyped_null)
    }

    pub fn matches(&self, args: &Vec<LogicalType>) -> (r: Option<LogicalType>)
        requires
            all_wf(args@),
        ensures
            match r {
                Some(t) => args_match(types_view(self.arguments@), types_view(args@)) && t@ == self.return_type@,
                None => !args_match(types_view(self.arguments@), types_view(args@)),
            },
    {
        signature_matches(&self.arguments, &self.return_type, args)
    }
}

/// The overloads of one scalar function name.
pub struct ScalarFunctionSet {
    pub name: String,
    pub functions: Vec<ScalarFunction>,
}

impl ScalarFunctionSet {
    /// Same name, and the same overloads in the same order.
    pub open spec fn same_set(&self, other: &ScalarFunctionSet) -> bool {
        &&& self.name@ == other.name@
        &&& self.functions@.len() == other.functions@.len()
        &&& forall|i: int| 0 <= i < self.functions@.len() ==> (#[trigger] self.functions@[i]).same_as(&other.functions@[i])
    }

    pub fn duplicate(&self) -> (r: ScalarFunctionSet)
        ensures
            r.same_set(self),
    {
        let mut functions: Vec<ScalarFunction> = Vec::new();
        let mut i: usize = 0;
        while i < self.functions.len()
            invariant
                i <= self.functions@.len(),
                functions@.len() == i,
                forall|k: int| 0 <= k < i ==> (#[trigger] functions@[k]).same_as(&self.functions@[k]),
            decreases self.functions@.len() - i,
        {
            functions.push(self.functions[i].duplicate());
            i = i + 1;
        }
        ScalarFunctionSet { name: self.name.clone(), functions }
    }
    pub fn new(name: &str) -> (r: ScalarFunctionSet)
        ensures
            r.name@ == name@,
            r.functions@.len() == 0,
    {
        ScalarFunctionSet { name: name.to_owned(), functions: Vec::new() }
    }

    pub fn add_function(&mut self, function: ScalarFunction)
        ensures
            final(self).name == old(self).name,
            final(self).functions@ == old(self).functions@.push(function),
    {
        self.functions.push(function);
    }
}

impl Named for ScalarFunctionSet {
    open spec fn key(&self) -> Seq<char> {
        self.name@
    }

    fn name(&self) -> (r: &String) {
        &self.name
    }
}

/// The scalar functions by name.
pub struct ScalarFunctionRegistry {
    entries: NameTable<ScalarFunctionSet>,
}

impl ScalarFunctionRegistry {
    /// The set registered under `name`, if any.
    pub closed spec fn lookup(&self, name: Seq<char>) -> Option<ScalarFunctionSet> {
        self.entries.lookup(name)
    }

    pub closed spec fn wf(&self) -> bool {
        self.entries.wf()
    }

    pub fn new() -> (r: ScalarFunctionRegistry)
        ensures
            r.wf(),
            forall|name: Seq<char>| r.lookup(name) is None,
    {
        ScalarFunctionRegistry { entries: NameTable::new() }
    }

    /// Registers `func` under its name, replacing the set of that name if there is one.
    pub fn insert(&mut self, func: ScalarFunctionSet)
        requires
            old(self).wf(),
        ensures
            final(self).wf(),
            final(self).lookup(func.name@) == Some(func),
            forall|name: Seq<char>| #![trigger final(self).lookup(name)] #![trigger old(self).lookup(name)] name != func.name@ ==> final(self).lookup(name) == old(self).lookup(name),
    {
        self.entries.insert(func);
    }

    /// The set registered under `name` in lower case.
    pub fn get_function(&self, name: &str) -> (r: Option<&ScalarFunctionSet>)
        requires
            self.wf(),
        ensures
            match self.lookup(lowercase(name@)) {
                Some(s) => r is Some && *r.unwrap() == s,
                None => r is None,
            },
            is_plain_lowercase(name@) ==> lowercase(name@) == name@,
    {
        self.entries.get(&to_lowercase(name))
    }

    /// The first overload registered under `name`, a name already in lower case.
    fn first_overload(&self, name: &str) -> (r: ScalarFunction)
        requires
            self.wf(),
            is_plain_lowercase(name@),
            self.lookup(name@) matches Some(s) && s.functions@.len() > 0,
        ensures
            r.same_as(&self.lookup(name@).unwrap().functions@[0]),
    {
        let set = self.get_function(name).unwrap();
        set.functions[0].duplicate()
    }

    /// The `and` function; there is a single one.
    pub fn get_and_function(&self) -> (r: ScalarFunction)
        requires
            self.wf(),
            self.lookup("and"@) matches Some(s) && s.functions@.len() > 0,
        ensures
            r.same_as(&self.lookup("and"@).unwrap().functions@[0]),
    {
        proof {
            reveal_strlit("and");
        }
        self.first_overload("and")
    }

    /// The `or` function; there is a single one.
    pub fn get_or_function(&self) -> (r: ScalarFunction)
        requires
            self.wf(),
            self.lookup("or"@) matches Some(s) && s.functions@.len() > 0,
        ensures
            r.same_as(&self.lookup("or"@).unwrap().functions@[0]),
    {
        proof {
            reveal_strlit("or");
        }
        self.first_overload("or")
    }

    /// The `eq` function; there is a single one.
    pub fn get_eq_function(&self) -> (r: ScalarFunction)
        requires
            self.wf(),
            self.lookup("eq"@) matches Some(s) && s.functions@.len() > 0,
        ensures
            r.same_as(&self.lookup("eq"@).unwrap().functions@[0]),
    {
        proof {
            reveal_strlit("eq");
        }
        self.first_overload("eq")
    }
}

/// A aggregate function overload: its signature and the implementation that runs it.
pub struct AggFunction {
    pub name: String,
    pub arguments: Vec<LogicalType>,
    pub varargs: Option<LogicalType>,
    pub return_type: LogicalType,
    pub execute: AggFunctionKind,
}

impl AggFunction {
    /// Same name, signature and implementation.
    pub open spec fn same_as(&self, other: &AggFunction) -> bool {
        &&& self.name@ == other.name@
        &&& types_view(self.arguments@) == types_view(other.arguments@)
        &&& opt_type_view(self.varargs) == opt_type_view(other.varargs)
        &&& self.return_type@ == other.return_type@
        &&& self.execute == other.execute
    }

    pub fn duplicate(&self) -> (r: AggFunction)
        ensures
            r.same_as(self),
    {
        let varargs = match &self.varargs {
            Some(t) => Some(t.duplicate()),
            None => None,
        };
        AggFunction {
            name: self.name.clone(),
            arguments: duplicate_types(&self.arguments),
            varargs,
            return_type: self.return_type.duplicate(),
            execute: self.execute,
        }
    }

    pub fn matches_with_null_coercion(&self, args: &Vec<LogicalType>, is_untyped_null: &Vec<bool>) -> (r: Option<
        (LogicalType, Vec<LogicalType>),
    >)
        requires
            all_wf(self.arguments@),
            all_wf(args@),
        ensures
            coercion_resolved(self.arguments@, self.return_type, args@, is_untyped_null@, r),
    {
        matches_with_null_coercion(&self.arguments, &self.return_type, args, is_untyped_null)
    }

    pub fn matches(&self, args: &Vec<LogicalType>) -> (r: Option<LogicalType>)
        requires
            all_wf(args@),
        ensures
            match r {
                Some(t) => args_match(types_view(self.arguments@), types_view(args@)) && t@ == self.return_type@,
                None => !args_match(types_view(self.arguments@), types_view(args@)),
            },
    {
        signature_matches(&self.arguments, &self.return_type, args)
    }
}

/// The overloads of one aggregate function name.
pub struct AggFunctionSet {
    pub name: String,
    pub functions: Vec<AggFunction>,
}

impl AggFunctionSet {
    /// Same name, and the same overloads in the same order.
    pub open spec fn same_set(&self, other: &AggFunctionSet) -> bool {
        &&& self.name@ == other.name@
        &&& self.functions@.len() == other.functions@.len()
        &&& forall|i: int| 0 <= i < self.functions@.len() ==> (#[trigger] self.functions@[i]).same_as(&other.functions@[i])
    }

    pub fn duplicate(&self) -> (r: AggFunctionSet)
        ensures
            r.same_set(self),
    {
        let mut functions: Vec<AggFunction> = Vec::new();
        let mut i: usize = 0;
        while i < self.functions.len()
            invariant
                i <= self.functions@.len(),
                functions@.len() == i,
                forall|k: int| 0 <= k < i ==> (#[trigger] functions@[k]).same_as(&self.functions@[k]),
            decreases self.functions@.len() - i,
        {
            functions.push(self.functions[i].duplicate());
            i = i + 1;
        }
        AggFunctionSet { name: self.name.clone(), functions }
    }
    pub fn new(name: &str) -> (r: AggFunctionSet)
        ensures
            r.name@ == name@,
            r.functions@.len() == 0,
    {
        AggFunctionSet { name: name.to_owned(), functions: Vec::new() }
    }

    pub fn add_function(&mut self, function: AggFunction)
        ensures
            final(self).name == old(self).name,
            final(self).functions@ == old(self).functions@.push(function),
    {
        self.functions.push(function);
    }
}

impl Named for AggFunctionSet {
    open spec fn key(&self) -> Seq<char> {
        self.name@
    }

    fn name(&self) -> (r: &String) {
        &self.name
    }
}

/// The aggregate functions by name.
pub struct AggFunctionRegistry {
    entries: NameTable<AggFunctionSet>,
}

impl AggFunctionRegistry {
    /// The set registered under `name`, if any.
    pub closed spec fn lookup(&self, name: Seq<char>) -> Option<AggFunctionSet> {
        self.entries.lookup(name)
    }

    pub closed spec fn wf(&self) -> bool {
        self.entries.wf()
    }

    pub fn new() -> (r: AggFunctionRegistry)
        ensures
            r.wf(),
            forall|name: Seq<char>| r.lookup(name) is None,
    {
        AggFunctionRegistry { entries: NameTable::new() }
    }

    /// Registers `func` under its name, replacing the set of that name if there is one.
    pub fn insert(&mut self, func: AggFunctionSet)
        requires
            old(self).wf(),
        ensures
            final(self).wf(),
            final(self).lookup(func.name@) == Some(func),
            forall|name: Seq<char>| #![trigger final(self).lookup(name)] #![trigger old(self).lookup(name)] name != func.name@ ==> final(self).lookup(name) == old(self).lookup(name),
    {
        self.entries.insert(func);
    }

    /// The set registered under `name` in lower case.
    pub fn get_function(&self, name: &str) -> (r: Option<&AggFunctionSet>)
        requires
            self.wf(),
        ensures
            match self.lookup(lowercase(name@)) {
                Some(s) => r is Some && *r.unwrap() == s,
                None => r is None,
            },
            is_plain_lowercase(name@) ==> lowercase(name@) == name@,
    {
        self.entries.get(&to_lowercase(name))
    }
}

/// A function found by name: scalar or aggregate.
pub enum FunctionCatalogEntry {
    Scalar(ScalarFunctionSet),
    Agg(AggFunctionSet),
}

/// The functions of a database: its scalar and aggregate registries.
pub struct FunctionCatalog {
    pub scalar_functions: ScalarFunctionRegistry,
    pub agg_functions: AggFunctionRegistry,
}

impl FunctionCatalog {
    /// The functions named `name` in lower case: the scalar ones when there are, else the
    /// aggregate ones.
    pub fn get_function_by_name(&self, name: &str) -> (r: Option<FunctionCatalogEntry>)
        requires
            self.scalar_functions.wf(),
            self.agg_functions.wf(),
        ensures
            match self.scalar_functions.lookup(lowercase(name@)) {
                Some(s) => r matches Some(FunctionCatalogEntry::Scalar(x)) && x.same_set(&s),
                None => match self.agg_functions.lookup(lowercase(name@)) {
                    Some(a) => r matches Some(FunctionCatalogEntry::Agg(x)) && x.same_set(&a),
                    None => r is None,
                },
            },
    {
        match self.scalar_functions.get_function(name) {
            Some(func) => Some(FunctionCatalogEntry::Scalar(func.duplicate())),
            None => match self.agg_functions.get_function(name) {
                Some(func) => Some(FunctionCatalogEntry::Agg(func.duplicate())),
                None => None,
            },
        }
    }
}


/// Registering a set under a name that is already registered replaces the earlier set and leaves
/// every other name as it was.
pub proof fn law_insert_replaces(
    a: ScalarFunctionRegistry,
    b: ScalarFunctionRegistry,
    c: ScalarFunctionRegistry,
    first: ScalarFunctionSet,
    second: ScalarFunctionSet,
)
    requires
        first.name@ == second.name@,
        b.lookup(first.name@) == Some(first),
        forall|n: Seq<char>| n != first.name@ ==> #[trigger] b.lookup(n) == a.lookup(n),
        c.lookup(second.name@) == Some(second),
        forall|n: Seq<char>| n != second.name@ ==> #[trigger] c.lookup(n) == b.lookup(n),
    ensures
        c.lookup(first.name@) == Some(second),
        forall|n: Seq<char>| n != first.name@ ==> #[trigger] c.lookup(n) == a.lookup(n),
{
    assert forall|n: Seq<char>| n != first.name@ implies #[trigger] c.lookup(n) == a.lookup(n) by {
        assert(c.lookup(n) == b.lookup(n));
    }
}

} // verus!
