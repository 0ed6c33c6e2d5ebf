//! The built-in functions and the registration of each family of them.
use vstd::prelude::*;

use crate::data_type::{kind_physical_type, ExtraView, LogicalType, LogicalTypeKind, PhysicalType, TypeView};
use crate::function::agg::AggFunctionKind;
use crate::function::sig::types_view;
use crate::function::{
    AggFunction, AggFunctionRegistry, AggFunctionSet, ScalarFunction, ScalarFunctionKind, ScalarFunctionRegistry,
    ScalarFunctionSet,
};

verus! {

pub open spec fn simple_view(kind: LogicalTypeKind) -> TypeView {
    TypeView { kind, physical_type: kind_physical_type(kind), extra: None }
}

/// `LIST<ANY>`.
pub open spec fn list_of_any() -> TypeView {
    TypeView {
        kind: LogicalTypeKind::List,
        physical_type: PhysicalType::List,
        extra: Some(ExtraView::List(Box::new(simple_view(LogicalTypeKind::Any)))),
    }
}

/// The declared argument types and return type of each scalar implementation.
pub open spec fn scalar_signature(kind: ScalarFunctionKind) -> (Seq<TypeView>, TypeView) {
    let any = simple_view(LogicalTypeKind::Any);
    let boolean = simple_view(LogicalTypeKind::Bool);
    let integer = simple_view(LogicalTypeKind::Integer);
    match kind {
        ScalarFunctionKind::Add
        | ScalarFunctionKind::Subtract
        | ScalarFunctionKind::Multiply
        | ScalarFunctionKind::Divide
        | ScalarFunctionKind::Modulo
        | ScalarFunctionKind::Pow => (seq![any, any], any),
        ScalarFunctionKind::UnaryAdd | ScalarFunctionKind::UnarySubtract => (seq![any], any),
        ScalarFunctionKind::And | ScalarFunctionKind::Or | ScalarFunctionKind::Xor => (seq![boolean, boolean], boolean),
        ScalarFunctionKind::Not | ScalarFunctionKind::IsNull | ScalarFunctionKind::IsNotNull => (
            seq![boolean],
            boolean,
        ),
        ScalarFunctionKind::Eq
        | ScalarFunctionKind::NotEq
        | ScalarFunctionKind::Gt
        | ScalarFunctionKind::GtEq
        | ScalarFunctionKind::Lt
        | ScalarFunctionKind::LtEq => (seq![any, any], boolean),
        ScalarFunctionKind::ListIndex => (seq![list_of_any(), integer], any),
        ScalarFunctionKind::ListSlice => (seq![list_of_any(), integer, integer], list_of_any()),
        ScalarFunctionKind::BooleanToBoolean => (seq![boolean], boolean),
        ScalarFunctionKind::AnyToBoolean => (seq![any], boolean),
        ScalarFunctionKind::BooleanToInteger
        | ScalarFunctionKind::BooleanToFloat
        | ScalarFunctionKind::BooleanToString => (seq![boolean], any),
        ScalarFunctionKind::AnyToInteger | ScalarFunctionKind::AnyToFloat | ScalarFunctionKind::AnyToString => (
            seq![any],
            any,
        ),
    }
}

/// `f` is the implementation `kind` registered under `name`.
pub open spec fn is_builtin(f: ScalarFunction, name: Seq<char>, kind: ScalarFunctionKind) -> bool {
    &&& f.name@ == name
    &&& types_view(f.arguments@) == scalar_signature(kind).0
    &&& f.varargs is None
    &&& f.return_type@ == scalar_signature(kind).1
    &&& f.execute == kind
}

/// `set` holds the implementations `kinds`, in this order, under `name`.
pub open spec fn builtin_set(set: ScalarFunctionSet, name: Seq<char>, kinds: Seq<ScalarFunctionKind>) -> bool {
    &&& set.name@ == name
    &&& set.functions@.len() == kinds.len()
    &&& forall|i: int| 0 <= i < kinds.len() ==> is_builtin(#[trigger] set.functions@[i], name, kinds[i])
}

/// The registry holds the implementations `kinds` under `name`.
pub open spec fn has_builtin(reg: ScalarFunctionRegistry, name: Seq<char>, kinds: Seq<ScalarFunctionKind>) -> bool {
    reg.lookup(name) matches Some(s) && builtin_set(s, name, kinds)
}

fn simple(kind: LogicalTypeKind) -> (r: LogicalType)
    requires
        kind != LogicalTypeKind::List,
        kind != LogicalTypeKind::Struct,
    ensures
        r@ == simple_view(kind),
{
    LogicalType::simple(kind)
}

fn list_any() -> (r: LogicalType)
    ensures
        r@ == list_of_any(),
{
    LogicalType::new_list(simple(LogicalTypeKind::Any))
}

fn type_list1(a: LogicalType) -> (r: Vec<LogicalType>)
    ensures
        types_view(r@) == seq![a@],
{
    let mut v: Vec<LogicalType> = Vec::new();
    v.push(a);
    assert(types_view(v@) =~= seq![a@]);
    v
}

fn type_list2(a: LogicalType, b: LogicalType) -> (r: Vec<LogicalType>)
    ensures
        types_view(r@) == seq![a@, b@],
{
    let mut v: Vec<LogicalType> = Vec::new();
    v.push(a);
    v.push(b);
    assert(types_view(v@) =~= seq![a@, b@]);
    v
}

fn type_list3(a: LogicalType, b: LogicalType, c: LogicalType) -> (r: Vec<LogicalType>)
    ensures
        types_view(r@) == seq![a@, b@, c@],
{
    let mut v: Vec<LogicalType> = Vec::new();
    v.push(a);
    v.push(b);
    v.push(c);
    assert(types_view(v@) =~= seq![a@, b@, c@]);
    v
}

/// The implementation `kind` under the name `name`.
fn builtin(name: &str, kind: ScalarFunctionKind) -> (r: ScalarFunction)
    ensures
        is_builtin(r, name@, kind),
{
    let any = LogicalTypeKind::Any;
    let boolean = LogicalTypeKind::Bool;
    let (arguments, return_type) = match kind {
        ScalarFunctionKind::Add
        | ScalarFunctionKind::Subtract
        | ScalarFunctionKind::Multiply
        | ScalarFunctionKind::Divide
        | ScalarFunctionKind::Modulo
        | ScalarFunctionKind::Pow => (type_list2(simple(any), simple(any)), simple(any)),
        ScalarFunctionKind::UnaryAdd | ScalarFunctionKind::UnarySubtract => (type_list1(simple(any)), simple(any)),
        ScalarFunctionKind::And | ScalarFunctionKind::Or | ScalarFunctionKind::Xor => (
            type_list2(simple(boolean), simple(boolean)),
            simple(boolean),
        ),
        ScalarFunctionKind::Not | ScalarFunctionKind::IsNull | ScalarFunctionKind::IsNotNull => (
            type_list1(simple(boolean)),
            simple(boolean),
        ),
        ScalarFunctionKind::Eq
        | ScalarFunctionKind::NotEq
        | ScalarFunctionKind::Gt
        | ScalarFunctionKind::GtEq
        | ScalarFunctionKind::Lt
        | ScalarFunctionKind::LtEq => (type_list2(simple(any), simple(any)), simple(boolean)),
        ScalarFunctionKind::ListIndex => (type_list2(list_any(), simple(LogicalTypeKind::Integer)), simple(any)),
        ScalarFunctionKind::ListSlice => (
            type_list3(list_any(), simple(LogicalTypeKind::Integer), simple(LogicalTypeKind::Integer)),
            list_any(),
        ),
        ScalarFunctionKind::BooleanToBoolean => (type_list1(simple(boolean)), simple(boolean)),
        ScalarFunctionKind::AnyToBoolean => (type_list1(simple(any)), simple(boolean)),
        ScalarFunctionKind::BooleanToInteger
        | ScalarFunctionKind::BooleanToFloat
        | ScalarFunctionKind::BooleanToString => (type_list1(simple(boolean)), simple(any)),
        ScalarFunctionKind::AnyToInteger | ScalarFunctionKind::AnyToFloat | ScalarFunctionKind::AnyToString => (
            type_list1(simple(any)),
            simple(any),
        ),
    };
    ScalarFunction { name: name.to_owned(), arguments, varargs: None, return_type, execute: kind }
}

/// A set that holds the single implementation `kind` under `name`.
fn single_set(name: &str, kind: ScalarFunctionKind) -> (r: ScalarFunctionSet)
    ensures
        builtin_set(r, name@, seq![kind]),
{
    let mut set = ScalarFunctionSet::new(name);
    set.add_function(builtin(name, kind));
    set
}

/// A set that holds the implementations `first` and `second`, in this order, under `name`.
fn pair_set(name: &str, first: ScalarFunctionKind, second: ScalarFunctionKind) -> (r: ScalarFunctionSet)
    ensures
        builtin_set(r, name@, seq![first, second]),
{
    let mut set = ScalarFunctionSet::new(name);
    set.add_function(builtin(name, first));
    set.add_function(builtin(name, second));
    set
}

/// The lengths and a few characters of the built-in names, which tell them apart.
proof fn lemma_builtin_name_facts()
    ensures
        builtin_name_facts(),
{
    reveal_strlit("add");
    reveal_strlit("subtract");
    reveal_strlit("multiply");
    reveal_strlit("divide");
    reveal_strlit("modulo");
    reveal_strlit("pow");
    reveal_strlit("unary_add");
    reveal_strlit("unary_subtract");
    reveal_strlit("and");
    reveal_strlit("or");
    reveal_strlit("xor");
    reveal_strlit("not");
    reveal_strlit("is_null");
    reveal_strlit("is_not_null");
    reveal_strlit("eq");
    reveal_strlit("not_eq");
    reveal_strlit("gt");
    reveal_strlit("gt_eq");
    reveal_strlit("lt");
    reveal_strlit("lt_eq");
    reveal_strlit("list_index");
    reveal_strlit("list_slice");
    reveal_strlit("toboolean");
    reveal_strlit("tointeger");
    reveal_strlit("tofloat");
    reveal_strlit("tostring");
}

pub open spec fn builtin_name_facts() -> bool {
    &&& "add"@.len() == 3
    &&& "subtract"@.len() == 8
    &&& "multiply"@.len() == 8
    &&& "divide"@.len() == 6
    &&& "modulo"@.len() == 6
    &&& "pow"@.len() == 3
    &&& "unary_add"@.len() == 9
    &&& "unary_subtract"@.len() == 14
    &&& "and"@.len() == 3
    &&& "or"@.len() == 2
    &&& "xor"@.len() == 3
    &&& "not"@.len() == 3
    &&& "is_null"@.len() == 7
    &&& "is_not_null"@.len() == 11
    &&& "eq"@.len() == 2
    &&& "not_eq"@.len() == 6
    &&& "gt"@.len() == 2
    &&& "gt_eq"@.len() == 5
    &&& "lt"@.len() == 2
    &&& "lt_eq"@.len() == 5
    &&& "list_index"@.len() == 10
    &&& "list_slice"@.len() == 10
    &&& "toboolean"@.len() == 9
    &&& "tointeger"@.len() == 9
    &&& "tofloat"@.len() == 7
    &&& "tostring"@.len() == 8
    &&& "add"@[0] == 'a'
    &&& "subtract"@[0] == 's'
    &&& "multiply"@[0] == 'm'
    &&& "divide"@[0] == 'd'
    &&& "modulo"@[0] == 'm'
    &&& "pow"@[0] == 'p'
    &&& "unary_add"@[0] == 'u'
    &&& "unary_subtract"@[0] == 'u'
    &&& "and"@[0] == 'a'
    &&& "or"@[0] == 'o'
    &&& "xor"@[0] == 'x'
    &&& "not"@[0] == 'n'
    &&& "is_null"@[0] == 'i'
    &&& "is_not_null"@[0] == 'i'
    &&& "eq"@[0] == 'e'
    &&& "not_eq"@[0] == 'n'
    &&& "gt"@[0] == 'g'
    &&& "gt_eq"@[0] == 'g'
    &&& "lt"@[0] == 'l'
    &&& "lt_eq"@[0] == 'l'
    &&& "list_index"@[0] == 'l'
    &&& "list_slice"@[0] == 'l'
    &&& "toboolean"@[0] == 't'
    &&& "tointeger"@[0] == 't'
    &&& "tofloat"@[0] == 't'
    &&& "tostring"@[0] == 't'
    &&& "add"@[1] == 'd'
    &&& "and"@[1] == 'n'
    &&& "list_index"@[5] == 'i'
    &&& "list_slice"@[5] == 's'
    &&& "tointeger"@[2] == 'i'
    &&& "toboolean"@[2] == 'b'
}

/// Registers `add`, `subtract`, `multiply`, `divide`, `modulo` and `pow`.
pub fn register_arith(registry: &mut ScalarFunctionRegistry)
    requires
        old(registry).wf(),
    ensures
        final(registry).wf(),
        has_builtin(*final(registry), "add"@, seq![ScalarFunctionKind::Add]),
        has_builtin(*final(registry), "subtract"@, seq![ScalarFunctionKind::Subtract]),
        has_builtin(*final(registry), "multiply"@, seq![ScalarFunctionKind::Multiply]),
        has_builtin(*final(registry), "divide"@, seq![ScalarFunctionKind::Divide]),
        has_builtin(*final(registry), "modulo"@, seq![ScalarFunctionKind::Modulo]),
        has_builtin(*final(registry), "pow"@, seq![ScalarFunctionKind::Pow]),
        forall|name: Seq<char>|
            #![trigger final(registry).lookup(name)]
            #![trigger old(registry).lookup(name)]
            name != "add"@ && name != "subtract"@ && name != "multiply"@ && name != "divide"@ && name != "modulo"@ && name != "pow"@ ==> final(registry).lookup(name) == old(registry).lookup(name),
{
    proof {
        reveal_strlit("add");
        reveal_strlit("subtract");
        reveal_strlit("multiply");
        reveal_strlit("divide");
        reveal_strlit("modulo");
        reveal_strlit("pow");
        lemma_builtin_name_facts();
    }
    registry.insert(single_set("add", ScalarFunctionKind::Add));
    registry.insert(single_set("subtract", ScalarFunctionKind::Subtract));
    registry.insert(single_set("multiply", ScalarFunctionKind::Multiply));
    registry.insert(single_set("divide", ScalarFunctionKind::Divide));
    registry.insert(single_set("modulo", ScalarFunctionKind::Modulo));
    registry.insert(single_set("pow", ScalarFunctionKind::Pow));
}

/// Registers `unary_add` and `unary_subtract`.
pub fn register_unary(registry: &mut ScalarFunctionRegistry)
    requires
        old(registry).wf(),
    ensures
        final(registry).wf(),
        has_builtin(*final(registry), "unary_add"@, seq![ScalarFunctionKind::UnaryAdd]),
        has_builtin(*final(registry), "unary_subtract"@, seq![ScalarFunctionKind::UnarySubtract]),
        forall|name: Seq<char>|
            #![trigger final(registry).lookup(name)]
            #![trigger old(registry).lookup(name)]
            name != "unary_add"@ && name != "unary_subtract"@ ==> final(registry).lookup(name) == old(registry).lookup(name),
{
    proof {
        reveal_strlit("unary_add");
        reveal_strlit("unary_subtract");
        lemma_builtin_name_facts();
    }
    registry.insert(single_set("unary_add", ScalarFunctionKind::UnaryAdd));
    registry.insert(single_set("unary_subtract", ScalarFunctionKind::UnarySubtract));
}

/// Registers `and`, `or`, `xor`, `not`, `is_null` and `is_not_null`.
pub fn register_bool(registry: &mut ScalarFunctionRegistry)
    requires
        old(registry).wf(),
    ensures
        final(registry).wf(),
        has_builtin(*final(registry), "and"@, seq![ScalarFunctionKind::And]),
        has_builtin(*final(registry), "or"@, seq![ScalarFunctionKind::Or]),
        has_builtin(*final(registry), "xor"@, seq![ScalarFunctionKind::Xor]),
        has_builtin(*final(registry), "not"@, seq![ScalarFunctionKind::Not]),
        has_builtin(*final(registry), "is_null"@, seq![ScalarFunctionKind::IsNull]),
        has_builtin(*final(registry), "is_not_null"@, seq![ScalarFunctionKind::IsNotNull]),
        forall|name: Seq<char>|
            #![trigger final(registry).lookup(name)]
            #![trigger old(registry).lookup(name)]
            name != "and"@ && name != "or"@ && name != "xor"@ && name != "not"@ && name != "is_null"@ && name != "is_not_null"@ ==> final(registry).lookup(name) == old(registry).lookup(name),
{
    proof {
        reveal_strlit("and");
        reveal_strlit("or");
        reveal_strlit("xor");
        reveal_strlit("not");
        reveal_strlit("is_null");
        reveal_strlit("is_not_null");
        lemma_builtin_name_facts();
    }
    registry.insert(single_set("and", ScalarFunctionKind::And));
    registry.insert(single_set("or", ScalarFunctionKind::Or));
    registry.insert(single_set("xor", ScalarFunctionKind::Xor));
    registry.insert(single_set("not", ScalarFunctionKind::Not));
    registry.insert(single_set("is_null", ScalarFunctionKind::IsNull));
    registry.insert(single_set("is_not_null", ScalarFunctionKind::IsNotNull));
}

/// Registers `eq`, `not_eq`, `gt`, `gt_eq`, `lt` and `lt_eq`.
pub fn register_compare(registry: &mut ScalarFunctionRegistry)
    requires
        old(registry).wf(),
    ensures
        final(registry).wf(),
        has_builtin(*final(registry), "eq"@, seq![ScalarFunctionKind::Eq]),
        has_builtin(*final(registry), "not_eq"@, seq![ScalarFunctionKind::NotEq]),
        has_builtin(*final(registry), "gt"@, seq![ScalarFunctionKind::Gt]),
        has_builtin(*final(registry), "gt_eq"@, seq![ScalarFunctionKind::GtEq]),
        has_builtin(*final(registry), "lt"@, seq![ScalarFunctionKind::Lt]),
        has_builtin(*final(registry), "lt_eq"@, seq![ScalarFunctionKind::LtEq]),
        forall|name: Seq<char>|
            #![trigger final(registry).lookup(name)]
            #![trigger old(registry).lookup(name)]
            name != "eq"@ && name != "not_eq"@ && name != "gt"@ && name != "gt_eq"@ && name != "lt"@ && name != "lt_eq"@ ==> final(registry).lookup(name) == old(registry).lookup(name),
{
    proof {
        reveal_strlit("eq");
        reveal_strlit("not_eq");
        reveal_strlit("gt");
        reveal_strlit("gt_eq");
        reveal_strlit("lt");
        reveal_strlit("lt_eq");
        lemma_builtin_name_facts();
    }
    registry.insert(single_set("eq", ScalarFunctionKind::Eq));
    registry.insert(single_set("not_eq", ScalarFunctionKind::NotEq));
    registry.insert(single_set("gt", ScalarFunctionKind::Gt));
    registry.insert(single_set("gt_eq", ScalarFunctionKind::GtEq));
    registry.insert(single_set("lt", ScalarFunctionKind::Lt));
    registry.insert(single_set("lt_eq", ScalarFunctionKind::LtEq));
}

/// Registers `list_index` and `list_slice`.
pub fn register_list(registry: &mut ScalarFunctionRegistry)
    requires
        old(registry).wf(),
    ensures
        final(registry).wf(),
        has_builtin(*final(registry), "list_index"@, seq![ScalarFunctionKind::ListIndex]),
        has_builtin(*final(registry), "list_slice"@, seq![ScalarFunctionKind::ListSlice]),
        forall|name: Seq<char>|
            #![trigger final(registry).lookup(name)]
            #![trigger old(registry).lookup(name)]
            name != "list_index"@ && name != "list_slice"@ ==> final(registry).lookup(name) == old(registry).lookup(name),
{
    proof {
        reveal_strlit("list_index");
        reveal_strlit("list_slice");
        lemma_builtin_name_facts();
    }
    registry.insert(single_set("list_index", ScalarFunctionKind::ListIndex));
    registry.insert(single_set("list_slice", ScalarFunctionKind::ListSlice));
}

/// Registers `toboolean`, `tointeger`, `tofloat` and `tostring`, each with an overload for booleans
/// followed by one for any value.
pub fn register_convert(registry: &mut ScalarFunctionRegistry)
    requires
        old(registry).wf(),
    ensures
        final(registry).wf(),
        has_builtin(*final(registry), "toboolean"@, seq![ScalarFunctionKind::BooleanToBoolean, ScalarFunctionKind::AnyToBoolean]),
        has_builtin(*final(registry), "tointeger"@, seq![ScalarFunctionKind::BooleanToInteger, ScalarFunctionKind::AnyToInteger]),
        has_builtin(*final(registry), "tofloat"@, seq![ScalarFunctionKind::BooleanToFloat, ScalarFunctionKind::AnyToFloat]),
        has_builtin(*final(registry), "tostring"@, seq![ScalarFunctionKind::BooleanToString, ScalarFunctionKind::AnyToString]),
        forall|name: Seq<char>|
            #![trigger final(registry).lookup(name)]
            #![trigger old(registry).lookup(name)]
            name != "toboolean"@ && name != "tointeger"@ && name != "tofloat"@ && name != "tostring"@ ==> final(registry).lookup(name) == old(registry).lookup(name),
{
    proof {
        reveal_strlit("toboolean");
        reveal_strlit("tointeger");
        reveal_strlit("tofloat");
        reveal_strlit("tostring");
        lemma_builtin_name_facts();
    }
    registry.insert(pair_set("toboolean", ScalarFunctionKind::BooleanToBoolean, ScalarFunctionKind::AnyToBoolean));
    registry.insert(pair_set("tointeger", ScalarFunctionKind::BooleanToInteger, ScalarFunctionKind::AnyToInteger));
    registry.insert(pair_set("tofloat", ScalarFunctionKind::BooleanToFloat, ScalarFunctionKind::AnyToFloat));
    registry.insert(pair_set("tostring", ScalarFunctionKind::BooleanToString, ScalarFunctionKind::AnyToString));
}

/// The registry holds every built-in scalar function.
pub open spec fn has_all_scalar_builtins(reg: ScalarFunctionRegistry) -> bool {
    &&& has_builtin(reg, "and"@, seq![ScalarFunctionKind::And])
    &&& has_builtin(reg, "or"@, seq![ScalarFunctionKind::Or])
    &&& has_builtin(reg, "xor"@, seq![ScalarFunctionKind::Xor])
    &&& has_builtin(reg, "not"@, seq![ScalarFunctionKind::Not])
    &&& has_builtin(reg, "is_null"@, seq![ScalarFunctionKind::IsNull])
    &&& has_builtin(reg, "is_not_null"@, seq![ScalarFunctionKind::IsNotNull])
    &&& has_builtin(reg, "eq"@, seq![ScalarFunctionKind::Eq])
    &&& has_builtin(reg, "not_eq"@, seq![ScalarFunctionKind::NotEq])
    &&& has_builtin(reg, "gt"@, seq![ScalarFunctionKind::Gt])
    &&& has_builtin(reg, "gt_eq"@, seq![ScalarFunctionKind::GtEq])
    &&& has_builtin(reg, "lt"@, seq![ScalarFunctionKind::Lt])
    &&& has_builtin(reg, "lt_eq"@, seq![ScalarFunctionKind::LtEq])
    &&& has_builtin(reg, "add"@, seq![ScalarFunctionKind::Add])
    &&& has_builtin(reg, "subtract"@, seq![ScalarFunctionKind::Subtract])
    &&& has_builtin(reg, "multiply"@, seq![ScalarFunctionKind::Multiply])
    &&& has_builtin(reg, "divide"@, seq![ScalarFunctionKind::Divide])
    &&& has_builtin(reg, "modulo"@, seq![ScalarFunctionKind::Modulo])
    &&& has_builtin(reg, "pow"@, seq![ScalarFunctionKind::Pow])
    &&& has_builtin(reg, "unary_add"@, seq![ScalarFunctionKind::UnaryAdd])
    &&& has_builtin(reg, "unary_subtract"@, seq![ScalarFunctionKind::UnarySubtract])
    &&& has_builtin(reg, "list_index"@, seq![ScalarFunctionKind::ListIndex])
    &&& has_builtin(reg, "list_slice"@, seq![ScalarFunctionKind::ListSlice])
    &&& has_builtin(reg, "toboolean"@, seq![ScalarFunctionKind::BooleanToBoolean, ScalarFunctionKind::AnyToBoolean])
    &&& has_builtin(reg, "tointeger"@, seq![ScalarFunctionKind::BooleanToInteger, ScalarFunctionKind::AnyToInteger])
    &&& has_builtin(reg, "tofloat"@, seq![ScalarFunctionKind::BooleanToFloat, ScalarFunctionKind::AnyToFloat])
    &&& has_builtin(reg, "tostring"@, seq![ScalarFunctionKind::BooleanToString, ScalarFunctionKind::AnyToString])
}

/// Whether `name` is the name of no built-in scalar function.
pub open spec fn not_scalar_builtin(name: Seq<char>) -> bool {
    name != "and"@
        && name != "or"@
        && name != "xor"@
        && name != "not"@
        && name != "is_null"@
        && name != "is_not_null"@
        && name != "eq"@
        && name != "not_eq"@
        && name != "gt"@
        && name != "gt_eq"@
        && name != "lt"@
        && name != "lt_eq"@
        && name != "add"@
        && name != "subtract"@
        && name != "multiply"@
        && name != "divide"@
        && name != "modulo"@
        && name != "pow"@
        && name != "unary_add"@
        && name != "unary_subtract"@
        && name != "list_index"@
        && name != "list_slice"@
        && name != "toboolean"@
        && name != "tointeger"@
        && name != "tofloat"@
        && name != "tostring"@
}

/// Registers every built-in scalar function.
pub fn register_scalar_functions(registry: &mut ScalarFunctionRegistry)
    requires
        old(registry).wf(),
    ensures
        final(registry).wf(),
        has_all_scalar_builtins(*final(registry)),
        forall|name: Seq<char>|
            #![trigger final(registry).lookup(name)]
            #![trigger old(registry).lookup(name)]
            not_scalar_builtin(name) ==> final(registry).lookup(name) == old(registry).lookup(name),
{
    proof {
        lemma_builtin_name_facts();
    }
    register_bool(registry);
    register_compare(registry);
    register_arith(registry);
    register_unary(registry);
    register_list(registry);
    register_convert(registry);
}

/// A registry that holds the built-in scalar functions and nothing else.
pub fn default_scalar_registry() -> (r: ScalarFunctionRegistry)
    ensures
        r.wf(),
        has_all_scalar_builtins(r),
        forall|name: Seq<char>| not_scalar_builtin(name) ==> #[trigger] r.lookup(name) is None,
{
    let mut registry = ScalarFunctionRegistry::new();
    register_scalar_functions(&mut registry);
    registry
}

/// The declared argument types and return type of each aggregate implementation.
pub open spec fn agg_signature(kind: AggFunctionKind) -> (Seq<TypeView>, TypeView) {
    let any = simple_view(LogicalTypeKind::Any);
    let integer = simple_view(LogicalTypeKind::Integer);
    match kind {
        AggFunctionKind::Count => (seq![any], integer),
        AggFunctionKind::CountStar => (Seq::empty(), integer),
        AggFunctionKind::Sum => (seq![any], any),
        AggFunctionKind::Collect => (seq![any], list_of_any()),
    }
}

/// `f` is the aggregate implementation `kind` registered under `name`.
pub open spec fn is_agg_builtin(f: AggFunction, name: Seq<char>, kind: AggFunctionKind) -> bool {
    &&& f.name@ == name
    &&& types_view(f.arguments@) == agg_signature(kind).0
    &&& f.varargs is None
    &&& f.return_type@ == agg_signature(kind).1
    &&& f.execute == kind
}

/// `set` holds the aggregate implementations `kinds`, in this order, under `name`.
pub open spec fn agg_builtin_set(set: AggFunctionSet, name: Seq<char>, kinds: Seq<AggFunctionKind>) -> bool {
    &&& set.name@ == name
    &&& set.functions@.len() == kinds.len()
    &&& forall|i: int| 0 <= i < kinds.len() ==> is_agg_builtin(#[trigger] set.functions@[i], name, kinds[i])
}

pub open spec fn has_agg_builtin(reg: AggFunctionRegistry, name: Seq<char>, kinds: Seq<AggFunctionKind>) -> bool {
    reg.lookup(name) matches Some(s) && agg_builtin_set(s, name, kinds)
}

/// The aggregate implementation `kind` under the name `name`.
fn agg_builtin(name: &str, kind: AggFunctionKind) -> (r: AggFunction)
    ensures
        is_agg_builtin(r, name@, kind),
{
    let any = LogicalTypeKind::Any;
    let (arguments, return_type) = match kind {
        AggFunctionKind::Count => (type_list1(simple(any)), simple(LogicalTypeKind::Integer)),
        AggFunctionKind::CountStar => {
            let v: Vec<LogicalType> = Vec::new();
            assert(types_view(v@) =~= Seq::<TypeView>::empty());
            (v, simple(LogicalTypeKind::Integer))
        },
        AggFunctionKind::Sum => (type_list1(simple(any)), simple(any)),
        AggFunctionKind::Collect => (type_list1(simple(any)), list_any()),
    };
    AggFunction { name: name.to_owned(), arguments, varargs: None, return_type, execute: kind }
}

/// Registers `collect`.
pub fn register_collect(registry: &mut AggFunctionRegistry)
    requires
        old(registry).wf(),
    ensures
        final(registry).wf(),
        has_agg_builtin(*final(registry), "collect"@, seq![AggFunctionKind::Collect]),
        forall|name: Seq<char>|
            #![trigger final(registry).lookup(name)]
            #![trigger old(registry).lookup(name)]
            name != "collect"@ ==> final(registry).lookup(name) == old(registry).lookup(name),
{
    let mut collect = AggFunctionSet::new("collect");
    collect.add_function(agg_builtin("collect", AggFunctionKind::Collect));
    registry.insert(collect);
}

/// Registers `count`: `count(expr)` followed by `count(*)`.
pub fn register_count(registry: &mut AggFunctionRegistry)
    requires
        old(registry).wf(),
    ensures
        final(registry).wf(),
        has_agg_builtin(*final(registry), "count"@, seq![AggFunctionKind::Count, AggFunctionKind::CountStar]),
        forall|name: Seq<char>|
            #![trigger final(registry).lookup(name)]
            #![trigger old(registry).lookup(name)]
            name != "count"@ ==> final(registry).lookup(name) == old(registry).lookup(name),
{
    let mut count = AggFunctionSet::new("count");
    count.add_function(agg_builtin("count", AggFunctionKind::Count));
    count.add_function(agg_builtin("count", AggFunctionKind::CountStar));
    registry.insert(count);
}

/// Registers `sum`.
pub fn register_sum(registry: &mut AggFunctionRegistry)
    requires
        old(registry).wf(),
    ensures
        final(registry).wf(),
        has_agg_builtin(*final(registry), "sum"@, seq![AggFunctionKind::Sum]),
        forall|name: Seq<char>|
            #![trigger final(registry).lookup(name)]
            #![trigger old(registry).lookup(name)]
            name != "sum"@ ==> final(registry).lookup(name) == old(registry).lookup(name),
{
    let mut sum = AggFunctionSet::new("sum");
    sum.add_function(agg_builtin("sum", AggFunctionKind::Sum));
    registry.insert(sum);
}

/// The registry holds every built-in aggregate function.
pub open spec fn has_all_agg_builtins(reg: AggFunctionRegistry) -> bool {
    &&& has_agg_builtin(reg, "collect"@, seq![AggFunctionKind::Collect])
    &&& has_agg_builtin(reg, "count"@, seq![AggFunctionKind::Count, AggFunctionKind::CountStar])
    &&& has_agg_builtin(reg, "sum"@, seq![AggFunctionKind::Sum])
}

/// Registers every built-in aggregate function.
pub fn register_agg_functions(registry: &mut AggFunctionRegistry)
    requires
        old(registry).wf(),
    ensures
        final(registry).wf(),
        has_all_agg_builtins(*final(registry)),
        forall|name: Seq<char>|
            #![trigger final(registry).lookup(name)]
            #![trigger old(registry).lookup(name)]
            name != "collect"@ && name != "count"@ && name != "sum"@ ==> final(registry).lookup(name) == old(
                registry,
            ).lookup(name),
{
    proof {
        reveal_strlit("collect");
        reveal_strlit("count");
        reveal_strlit("sum");
        assert("collect"@.len() == 7 && "count"@.len() == 5 && "sum"@.len() == 3);
    }
    register_collect(registry);
    register_count(registry);
    register_sum(registry);
}

/// A registry that holds the built-in aggregate functions and nothing else.
pub fn default_agg_registry() -> (r: AggFunctionRegistry)
    ensures
        r.wf(),
        has_all_agg_builtins(r),
        forall|name: Seq<char>|
            name != "collect"@ && name != "count"@ && name != "sum"@ ==> #[trigger] r.lookup(name) is None,
{
    let mut registry = AggFunctionRegistry::new();
    register_agg_functions(&mut registry);
    registry
}

/// In a registry of the built-in functions, `and`, `or` and `eq` each have a first overload, which
/// is the one `get_and_function`, `get_or_function` and `get_eq_function` hand out.
pub proof fn law_builtin_and_or_eq(reg: ScalarFunctionRegistry)
    requires
        has_all_scalar_builtins(reg),
    ensures
        reg.lookup("and"@) matches Some(s) && s.functions@.len() > 0 && s.functions@[0].execute
            == ScalarFunctionKind::And,
        reg.lookup("or"@) matches Some(s) && s.functions@.len() > 0 && s.functions@[0].execute
            == ScalarFunctionKind::Or,
        reg.lookup("eq"@) matches Some(s) && s.functions@.len() > 0 && s.functions@[0].execute
            == ScalarFunctionKind::Eq,
{
}

} // verus!
