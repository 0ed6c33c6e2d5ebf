//! Function signatures and the resolution of argument types against them.
use vstd::prelude::*;

use crate::data_type::{ExtraView, LogicalType, LogicalTypeKind, PhysicalType, TypeView};

verus! {

/// The type that accepts values of every type.
pub open spec fn any_view() -> TypeView {
    TypeView { kind: LogicalTypeKind::Any, physical_type: PhysicalType::Variant, extra: None }
}

/// Whether a value of type `provided` may be passed where `expected` is declared:
/// the types are equal, `expected` is `Any`, or both are lists whose elements match.
pub open spec fn type_matches(provided: TypeView, expected: TypeView) -> bool
    decreases expected,
{
    if provided == expected {
        true
    } else if expected == any_view() {
        true
    } else {
        match expected.extra {
            Some(ExtraView::List(expected_inner)) => {
                &&& provided.kind == LogicalTypeKind::List
                &&& match provided.extra {
                    Some(ExtraView::List(provided_inner)) => type_matches(*provided_inner, *expected_inner),
                    _ => false,
                }
            },
            _ => false,
        }
    }
}

/// Whether every provided type matches the declared argument at the same position.
pub open spec fn args_match(arguments: Seq<TypeView>, provided: Seq<TypeView>) -> bool {
    &&& arguments.len() == provided.len()
    &&& forall|i: int| 0 <= i < provided.len() ==> type_matches(#[trigger] provided[i], arguments[i])
}

/// The type an argument takes after coercion: an untyped `NULL` takes the declared type.
pub open spec fn coerced_type(argument: TypeView, provided: TypeView, is_untyped_null: bool) -> TypeView {
    if is_untyped_null {
        argument
    } else {
        provided
    }
}

pub open spec fn types_view(types: Seq<LogicalType>) -> Seq<TypeView> {
    types.map_values(|t: LogicalType| t@)
}

pub open spec fn all_wf(types: Seq<LogicalType>) -> bool {
    forall|i: int| 0 <= i < types.len() ==> (#[trigger] types[i]).wf()
}

/// Whether `provided` matches `expected` (see `type_matches`).
pub fn matches_type(provided: &LogicalType, expected: &LogicalType) -> (r: bool)
    requires
        provided.wf(),
    ensures
        r == type_matches(provided@, expected@),
    decreases expected,
{
    if provided.same_as(expected) {
        return true;
    }
    let any = LogicalType::simple(LogicalTypeKind::Any);
    if expected.same_as(&any) {
        return true;
    }
    match expected.as_list() {
        Some(inner) => {
            if !provided.is_list() {
                return false;
            }
            match provided.as_list() {
                Some(provided_inner) => {
                    proof {
                        assert(decreases_to!(*expected => expected.extra));
                        assert(decreases_to!(expected.extra => expected.extra->0));
                        assert(decreases_to!(expected.extra->0 => (expected.extra->0)->List_0));
                    }
                    matches_type(provided_inner, inner)
                },
                None => false,
            }
        },
        None => false,
    }
}


/// The return type when every provided argument matches the declared arguments, otherwise `None`.
pub fn signature_matches(arguments: &Vec<LogicalType>, return_type: &LogicalType, provided: &Vec<LogicalType>) -> (r:
    Option<LogicalType>)
    requires
        all_wf(provided@),
    ensures
        match r {
            Some(t) => args_match(types_view(arguments@), types_view(provided@)) && t@ == return_type@,
            None => !args_match(types_view(arguments@), types_view(provided@)),
        },
{
    if arguments.len() != provided.len() {
        return None;
    }
    let mut i: usize = 0;
    while i < provided.len()
        invariant
            i <= provided.len(),
            arguments.len() == provided.len(),
            all_wf(provided@),
            forall|j: int| 0 <= j < i ==> type_matches(#[trigger] provided@[j]@, arguments@[j]@),
        decreases provided.len() - i,
    {
        if !matches_type(&provided[i], &arguments[i]) {
            assert(types_view(provided@)[i as int] == provided@[i as int]@);
            assert(types_view(arguments@)[i as int] == arguments@[i as int]@);
            return None;
        }
        i = i + 1;
    }
    assert(args_match(types_view(arguments@), types_view(provided@))) by {
        assert forall|j: int| 0 <= j < provided.len() implies type_matches(
            #[trigger] types_view(provided@)[j],
            types_view(arguments@)[j],
        ) by {
            assert(types_view(provided@)[j] == provided@[j]@);
            assert(types_view(arguments@)[j] == arguments@[j]@);
        }
    }
    Some(return_type.duplicate())
}

/// `r` is the outcome of resolving a call with argument types `provided`, where `is_untyped_null`
/// marks the untyped `NULL` arguments, against the declared `arguments` and `return_type`.
pub open spec fn coercion_resolved(
    arguments: Seq<LogicalType>,
    return_type: LogicalType,
    provided: Seq<LogicalType>,
    is_untyped_null: Seq<bool>,
    r: Option<(LogicalType, Vec<LogicalType>)>,
) -> bool {
        match r {
            Some((ret, coerced)) => {
                &&& arguments.len() == provided.len() == is_untyped_null.len() == coerced.len()
                &&& ret@ == return_type@
                &&& forall|i: int|
                    0 <= i < coerced.len() ==> (#[trigger] coerced@[i])@ == coerced_type(
                        arguments[i]@,
                        provided[i]@,
                        is_untyped_null[i],
                    )
                &&& args_match(types_view(arguments), types_view(coerced@))
            },
            None => {
                ||| arguments.len() != provided.len()
                ||| arguments.len() != is_untyped_null.len()
                ||| exists|i: int|
                    0 <= i < arguments.len() && !type_matches(
                        coerced_type(arguments[i]@, provided[i]@, #[trigger] is_untyped_null[i]),
                        arguments[i]@,
                    )
            },
        }
}

/// Resolves a call in which some arguments are untyped `NULL`s: such an argument takes the declared
/// type. Returns the return type and the coerced argument types when all of them match.
pub fn matches_with_null_coercion(
    arguments: &Vec<LogicalType>,
    return_type: &LogicalType,
    provided: &Vec<LogicalType>,
    is_untyped_null: &Vec<bool>,
) -> (r: Option<(LogicalType, Vec<LogicalType>)>)
    requires
        all_wf(arguments@),
        all_wf(provided@),
    ensures
        coercion_resolved(arguments@, *return_type, provided@, is_untyped_null@, r),
{
    if arguments.len() != provided.len() || arguments.len() != is_untyped_null.len() {
        return None;
    }
    let mut coerced: Vec<LogicalType> = Vec::new();
    let mut i: usize = 0;
    while i < arguments.len()
        invariant
            i <= arguments.len(),
            arguments.len() == provided.len() == is_untyped_null.len(),
            all_wf(arguments@),
            all_wf(provided@),
            coerced.len() == i,
            forall|j: int|
                0 <= j < i ==> (#[trigger] coerced@[j])@ == coerced_type(
                    arguments@[j]@,
                    provided@[j]@,
                    is_untyped_null@[j],
                ),
            forall|j: int| 0 <= j < i ==> type_matches(#[trigger] coerced@[j]@, arguments@[j]@),
        decreases arguments.len() - i,
    {
        let arg_type = if is_untyped_null[i] {
            arguments[i].duplicate()
        } else {
            provided[i].duplicate()
        };
        if !matches_type(&arg_type, &arguments[i]) {
            assert(!type_matches(
                coerced_type(arguments@[i as int]@, provided@[i as int]@, is_untyped_null@[i as int]),
                arguments@[i as int]@,
            ));
            return None;
        }
        coerced.push(arg_type);
        i = i + 1;
    }
    assert(args_match(types_view(arguments@), types_view(coerced@))) by {
        assert forall|j: int| 0 <= j < coerced.len() implies type_matches(
            #[trigger] types_view(coerced@)[j],
            types_view(arguments@)[j],
        ) by {
            assert(types_view(coerced@)[j] == coerced@[j]@);
            assert(types_view(arguments@)[j] == arguments@[j]@);
        }
    }
    Some((return_type.duplicate(), coerced))
}

/// A call whose argument types are exactly the declared ones matches.
pub proof fn law_declared_types_match(arguments: Seq<TypeView>)
    ensures
        args_match(arguments, arguments),
{
}

/// Untyped `NULL` arguments take the declared types: a call whose arguments are all untyped
/// `NULL`s, as many as declared, resolves, and each argument gets its declared type.
pub proof fn law_untyped_nulls_take_declared_types(
    arguments: Seq<LogicalType>,
    return_type: LogicalType,
    provided: Seq<LogicalType>,
    is_untyped_null: Seq<bool>,
    r: Option<(LogicalType, Vec<LogicalType>)>,
)
    requires
        coercion_resolved(arguments, return_type, provided, is_untyped_null, r),
        arguments.len() == provided.len(),
        arguments.len() == is_untyped_null.len(),
        forall|i: int| 0 <= i < is_untyped_null.len() ==> #[trigger] is_untyped_null[i],
    ensures
        r matches Some((ret, coerced)) && ret@ == return_type@ && types_view(coerced@) == types_view(arguments),
{
    match r {
        Some((ret, coerced)) => {
            assert(types_view(coerced@) =~= types_view(arguments));
        },
        None => {
            if exists|i: int|
                0 <= i < arguments.len() && !type_matches(
                    coerced_type(arguments[i]@, provided[i]@, #[trigger] is_untyped_null[i]),
                    arguments[i]@,
                ) {
                let i = choose|i: int|
                    0 <= i < arguments.len() && !type_matches(
                        coerced_type(arguments[i]@, provided[i]@, #[trigger] is_untyped_null[i]),
                        arguments[i]@,
                    );
                assert(is_untyped_null[i]);
            }
        },
    }
}

} // verus!
