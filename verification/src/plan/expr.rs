//! Bound expressions of a query plan.
use vstd::prelude::*;

use crate::data_type::{kind_physical_type, LogicalType, LogicalTypeKind, TypeView};
use crate::scalar::{datum_model, duplicate_datum, same_datum, ScalarModel, ScalarValue};

verus! {

/// Name of a variable bound in a query.
pub type VariableName = String;

/// A named, typed column of a schema.
pub struct Variable {
    pub name: VariableName,
    pub typ: LogicalType,
}

/// The columns produced by a plan node.
pub struct Schema {
    pub columns: Vec<Variable>,
}

pub struct VariableRef {
    pub name: VariableName,
    pub typ: LogicalType,
}

pub struct Constant {
    pub data: Option<ScalarValue>,
    pub typ: Option<LogicalType>,
}

/// A bound expression.
pub enum Expr {
    VariableRef(VariableRef),
    Constant(Constant),
    ScalarCall { function: String, args: Vec<Expr>, typ: LogicalType },
    AggCall { function: String, args: Vec<Expr>, distinct: bool, typ: LogicalType },
    PropertyAccess { expr: Box<Expr>, property: String, typ: LogicalType },
    HasLabel { entity: Box<Expr>, label: String },
    CreateList { elements: Vec<Expr>, typ: LogicalType },
    CreateStruct { properties: Vec<(String, Expr)>, typ: LogicalType },
}

/// Mathematical model of a bound expression. The properties of a struct are held as their names
/// and their values, in order.
pub enum ExprView {
    VariableRef(Seq<char>, TypeView),
    Constant(Option<ScalarModel>, Option<TypeView>),
    ScalarCall(Seq<char>, Seq<ExprView>, TypeView),
    AggCall(Seq<char>, Seq<ExprView>, bool, TypeView),
    PropertyAccess(Box<ExprView>, Seq<char>, TypeView),
    HasLabel(Box<ExprView>, Seq<char>),
    CreateList(Seq<ExprView>, TypeView),
    CreateStruct(Seq<Seq<char>>, Seq<ExprView>, TypeView),
}

pub open spec fn type_option_model(t: Option<LogicalType>) -> Option<TypeView> {
    match t {
        Some(t) => Some(t@),
        None => None,
    }
}

impl Expr {
    pub open spec fn model(self) -> ExprView
        decreases self,
    {
        match self {
            Expr::VariableRef(v) => ExprView::VariableRef(v.name@, v.typ@),
            Expr::Constant(c) => ExprView::Constant(datum_model(c.data), type_option_model(c.typ)),
            Expr::ScalarCall { function, args, typ } => ExprView::ScalarCall(function@, exprs_model(args@), typ@),
            Expr::AggCall { function, args, distinct, typ } => ExprView::AggCall(
                function@,
                exprs_model(args@),
                distinct,
                typ@,
            ),
            Expr::PropertyAccess { expr, property, typ } => ExprView::PropertyAccess(
                Box::new((*expr).model()),
                property@,
                typ@,
            ),
            Expr::HasLabel { entity, label } => ExprView::HasLabel(Box::new((*entity).model()), label@),
            Expr::CreateList { elements, typ } => ExprView::CreateList(exprs_model(elements@), typ@),
            Expr::CreateStruct { properties, typ } => ExprView::CreateStruct(
                property_names(properties@),
                property_values_model(properties@),
                typ@,
            ),
        }
    }
}

impl View for Expr {
    type V = ExprView;

    open spec fn view(&self) -> ExprView {
        self.model()
    }
}

/// Models of a sequence of expressions, in order.
pub open spec fn exprs_model(es: Seq<Expr>) -> Seq<ExprView>
    decreases es,
{
    if es.len() == 0 {
        Seq::empty()
    } else {
        exprs_model(es.drop_last()).push(es.last().model())
    }
}

/// The names of the properties of a struct, in order.
pub open spec fn property_names(ps: Seq<(String, Expr)>) -> Seq<Seq<char>> {
    ps.map_values(|p: (String, Expr)| p.0@)
}

/// Models of the values of the properties of a struct, in order.
pub open spec fn property_values_model(ps: Seq<(String, Expr)>) -> Seq<ExprView>
    decreases ps,
{
    if ps.len() == 0 {
        Seq::empty()
    } else {
        property_values_model(ps.drop_last()).push(ps.last().1.model())
    }
}

pub proof fn lemma_exprs_model(es: Seq<Expr>)
    ensures
        exprs_model(es).len() == es.len(),
        forall|i: int| 0 <= i < es.len() ==> #[trigger] exprs_model(es)[i] == es[i]@,
    decreases es.len(),
{
    if es.len() > 0 {
        lemma_exprs_model(es.drop_last());
    }
}

pub proof fn lemma_property_values_model(ps: Seq<(String, Expr)>)
    ensures
        property_values_model(ps).len() == ps.len(),
        forall|i: int| 0 <= i < ps.len() ==> #[trigger] property_values_model(ps)[i] == ps[i].1@,
    decreases ps.len(),
{
    if ps.len() > 0 {
        lemma_property_values_model(ps.drop_last());
    }
}

/// The type of the value of an expression: the type it carries; `Bool` for a label test, and
/// `Null` for a constant that carries none.
pub open spec fn expr_type(e: ExprView) -> TypeView {
    match e {
        ExprView::VariableRef(_, t) => t,
        ExprView::Constant(_, t) => match t {
            Some(t) => t,
            None => TypeView {
                kind: LogicalTypeKind::Null,
                physical_type: kind_physical_type(LogicalTypeKind::Null),
                extra: None,
            },
        },
        ExprView::ScalarCall(_, _, t) => t,
        ExprView::AggCall(_, _, _, t) => t,
        ExprView::PropertyAccess(_, _, t) => t,
        ExprView::HasLabel(_, _) => TypeView {
            kind: LogicalTypeKind::Bool,
            physical_type: kind_physical_type(LogicalTypeKind::Bool),
            extra: None,
        },
        ExprView::CreateList(_, t) => t,
        ExprView::CreateStruct(_, _, t) => t,
    }
}

impl Expr {
    /// The type of the value of this expression.
    pub fn typ(&self) -> (r: LogicalType)
        ensures
            r@ == expr_type(self@),
    {
        match self {
            Expr::VariableRef(v) => v.typ.duplicate(),
            Expr::Constant(c) => match &c.typ {
                Some(t) => t.duplicate(),
                None => LogicalType::simple(LogicalTypeKind::Null),
            },
            Expr::ScalarCall { typ, .. } => typ.duplicate(),
            Expr::AggCall { typ, .. } => typ.duplicate(),
            Expr::PropertyAccess { typ, .. } => typ.duplicate(),
            Expr::HasLabel { .. } => LogicalType::simple(LogicalTypeKind::Bool),
            Expr::CreateList { typ, .. } => typ.duplicate(),
            Expr::CreateStruct { typ, .. } => typ.duplicate(),
        }
    }

    /// Whether two expressions are the same, compared part by part.
    pub fn same_as(&self, other: &Expr) -> (r: bool)
        ensures
            r == (self@ == other@),
        decreases self,
    {
        match (self, other) {
            (Expr::VariableRef(a), Expr::VariableRef(b)) => a.name == b.name && a.typ.same_as(&b.typ),
            (Expr::Constant(a), Expr::Constant(b)) => {
                let same_type = match (&a.typ, &b.typ) {
                    (None, None) => true,
                    (Some(x), Some(y)) => x.same_as(y),
                    _ => false,
                };
                same_datum(&a.data, &b.data) && same_type
            },
            (
                Expr::ScalarCall { function: f1, args: a1, typ: t1 },
                Expr::ScalarCall { function: f2, args: a2, typ: t2 },
            ) => {
                if !(*f1 == *f2 && t1.same_as(t2)) {
                    return false;
                }
                proof {
                    broadcast use vstd::std_specs::vec::axiom_vec_decreases_to_view;
                    assert(decreases_to!(*self => *a1));
                }
                self.same_list(a1, a2)
            },
            (
                Expr::AggCall { function: f1, args: a1, distinct: d1, typ: t1 },
                Expr::AggCall { function: f2, args: a2, distinct: d2, typ: t2 },
            ) => {
                if !(*f1 == *f2 && *d1 == *d2 && t1.same_as(t2)) {
                    return false;
                }
                proof {
                    broadcast use vstd::std_specs::vec::axiom_vec_decreases_to_view;
                    assert(decreases_to!(*self => *a1));
                }
                self.same_list(a1, a2)
            },
            (
                Expr::PropertyAccess { expr: e1, property: p1, typ: t1 },
                Expr::PropertyAccess { expr: e2, property: p2, typ: t2 },
            ) => *p1 == *p2 && t1.same_as(t2) && (**e1).same_as(&**e2),
            (Expr::HasLabel { entity: e1, label: l1 }, Expr::HasLabel { entity: e2, label: l2 }) => *l1 == *l2
                && (**e1).same_as(&**e2),
            (Expr::CreateList { elements: a1, typ: t1 }, Expr::CreateList { elements: a2, typ: t2 }) => {
                if !t1.same_as(t2) {
                    return false;
                }
                proof {
                    broadcast use vstd::std_specs::vec::axiom_vec_decreases_to_view;
                    assert(decreases_to!(*self => *a1));
                }
                self.same_list(a1, a2)
            },
            (Expr::CreateStruct { properties: p1, typ: t1 }, Expr::CreateStruct { properties: p2, typ: t2 }) => {
                if !t1.same_as(t2) {
                    return false;
                }
                proof {
                    broadcast use vstd::std_specs::vec::axiom_vec_decreases_to_view;
                    assert(decreases_to!(*self => *p1));
                }
                self.same_properties(p1, p2)
            },
            _ => false,
        }
    }

    /// Whether two lists of subexpressions of `self` are the same, element by element.
    fn same_list(&self, a: &Vec<Expr>, b: &Vec<Expr>) -> (r: bool)
        requires
            decreases_to!(*self => *a),
        ensures
            r == (exprs_model(a@) == exprs_model(b@)),
        decreases self, 0nat,
    {
        proof {
            lemma_exprs_model(a@);
            lemma_exprs_model(b@);
        }
        if a.len() != b.len() {
            return false;
        }
        let mut i: usize = 0;
        while i < a.len()
            invariant
                i <= a@.len(),
                a@.len() == b@.len(),
                decreases_to!(*self => *a),
                exprs_model(a@).len() == a@.len(),
                exprs_model(b@).len() == b@.len(),
                forall|k: int| 0 <= k < a@.len() ==> #[trigger] exprs_model(a@)[k] == a@[k]@,
                forall|k: int| 0 <= k < b@.len() ==> #[trigger] exprs_model(b@)[k] == b@[k]@,
                forall|k: int| 0 <= k < i ==> a@[k]@ == b@[k]@,
            decreases a@.len() - i,
        {
            proof {
                broadcast use vstd::std_specs::vec::axiom_vec_decreases_to_view;
                broadcast use vstd::seq::axiom_seq_index_decreases;
                assert(decreases_to!(*a => a@));
                assert(decreases_to!(a@ => a@[i as int]));
                assert(decreases_to!(*self => a@[i as int]));
            }
            if !a[i].same_as(&b[i]) {
                assert(exprs_model(a@)[i as int] != exprs_model(b@)[i as int]);
                return false;
            }
            i = i + 1;
        }
        assert(exprs_model(a@) =~= exprs_model(b@));
        true
    }

    /// Whether two lists of properties of subexpressions of `self` are the same, pair by pair.
    fn same_properties(&self, a: &Vec<(String, Expr)>, b: &Vec<(String, Expr)>) -> (r: bool)
        requires
            decreases_to!(*self => *a),
        ensures
            r == (property_names(a@) == property_names(b@) && property_values_model(a@)
                == property_values_model(b@)),
        decreases self, 0nat,
    {
        proof {
            lemma_property_values_model(a@);
            lemma_property_values_model(b@);
        }
        if a.len() != b.len() {
            assert(property_names(a@).len() != property_names(b@).len());
            return false;
        }
        let mut i: usize = 0;
        while i < a.len()
            invariant
                i <= a@.len(),
                a@.len() == b@.len(),
                decreases_to!(*self => *a),
                property_values_model(a@).len() == a@.len(),
                property_values_model(b@).len() == b@.len(),
                forall|k: int| 0 <= k < a@.len() ==> #[trigger] property_values_model(a@)[k] == a@[k].1@,
                forall|k: int| 0 <= k < b@.len() ==> #[trigger] property_values_model(b@)[k] == b@[k].1@,
                forall|k: int| 0 <= k < i ==> a@[k].1@ == b@[k].1@ && a@[k].0@ == b@[k].0@,
            decreases a@.len() - i,
        {
            proof {
                broadcast use vstd::std_specs::vec::axiom_vec_decreases_to_view;
                broadcast use vstd::seq::axiom_seq_index_decreases;
                assert(decreases_to!(*a => a@));
                assert(decreases_to!(a@ => a@[i as int]));
                assert(decreases_to!(a@[i as int] => a@[i as int].1));
                assert(decreases_to!(*self => a@[i as int].1));
            }
            if !(a[i].0 == b[i].0) {
                assert(property_names(a@)[i as int] != property_names(b@)[i as int]);
                return false;
            }
            if !a[i].1.same_as(&b[i].1) {
                assert(property_values_model(a@)[i as int] != property_values_model(b@)[i as int]);
                return false;
            }
            i = i + 1;
        }
        assert(property_names(a@) =~= property_names(b@));
        assert(property_values_model(a@) =~= property_values_model(b@));
        true
    }
}


impl Expr {
    /// A copy of this expression, subexpressions included.
    pub fn duplicate(&self) -> (r: Expr)
        ensures
            r@ == self@,
        decreases self,
    {
        match self {
            Expr::VariableRef(v) => Expr::VariableRef(VariableRef { name: v.name.clone(), typ: v.typ.duplicate() }),
            Expr::Constant(c) => {
                let typ = match &c.typ {
                    Some(t) => Some(t.duplicate()),
                    None => None,
                };
                Expr::Constant(Constant { data: duplicate_datum(&c.data), typ })
            },
            Expr::ScalarCall { function, args, typ } => {
                proof {
                    broadcast use vstd::std_specs::vec::axiom_vec_decreases_to_view;
                    assert(decreases_to!(*self => *args));
                }
                let args = self.duplicate_list(args);
                Expr::ScalarCall { function: function.clone(), args, typ: typ.duplicate() }
            },
            Expr::AggCall { function, args, distinct, typ } => {
                proof {
                    broadcast use vstd::std_specs::vec::axiom_vec_decreases_to_view;
                    assert(decreases_to!(*self => *args));
                }
                let args = self.duplicate_list(args);
                Expr::AggCall { function: function.clone(), args, distinct: *distinct, typ: typ.duplicate() }
            },
            Expr::PropertyAccess { expr, property, typ } => Expr::PropertyAccess {
                expr: Box::new((**expr).duplicate()),
                property: property.clone(),
                typ: typ.duplicate(),
            },
            Expr::HasLabel { entity, label } => Expr::HasLabel {
                entity: Box::new((**entity).duplicate()),
                label: label.clone(),
            },
            Expr::CreateList { elements, typ } => {
                proof {
                    broadcast use vstd::std_specs::vec::axiom_vec_decreases_to_view;
                    assert(decreases_to!(*self => *elements));
                }
                let elements = self.duplicate_list(elements);
                Expr::CreateList { elements, typ: typ.duplicate() }
            },
            Expr::CreateStruct { properties, typ } => {
                proof {
                    broadcast use vstd::std_specs::vec::axiom_vec_decreases_to_view;
                    assert(decreases_to!(*self => *properties));
                }
                let properties = self.duplicate_properties(properties);
                Expr::CreateStruct { properties, typ: typ.duplicate() }
            },
        }
    }

    /// Copies of a list of subexpressions of `self`.
    fn duplicate_list(&self, a: &Vec<Expr>) -> (r: Vec<Expr>)
        requires
            decreases_to!(*self => *a),
        ensures
            exprs_model(r@) == exprs_model(a@),
        decreases self, 0nat,
    {
        let mut out: Vec<Expr> = Vec::new();
        let mut i: usize = 0;
        while i < a.len()
            invariant
                i <= a@.len(),
                out@.len() == i,
                decreases_to!(*self => *a),
                forall|k: int| 0 <= k < i ==> (#[trigger] out@[k])@ == a@[k]@,
            decreases a@.len() - i,
        {
            proof {
                broadcast use vstd::std_specs::vec::axiom_vec_decreases_to_view;
                broadcast use vstd::seq::axiom_seq_index_decreases;
                assert(decreases_to!(*a => a@));
                assert(decreases_to!(a@ => a@[i as int]));
                assert(decreases_to!(*self => a@[i as int]));
            }
            out.push(a[i].duplicate());
            i = i + 1;
        }
        proof {
            lemma_exprs_model(out@);
            lemma_exprs_model(a@);
            assert(exprs_model(out@) =~= exprs_model(a@));
        }
        out
    }

    /// Copies of a list of properties of subexpressions of `self`.
    fn duplicate_properties(&self, a: &Vec<(String, Expr)>) -> (r: Vec<(String, Expr)>)
        requires
            decreases_to!(*self => *a),
        ensures
            property_names(r@) == property_names(a@),
            property_values_model(r@) == property_values_model(a@),
        decreases self, 0nat,
    {
        let mut out: Vec<(String, Expr)> = Vec::new();
        let mut i: usize = 0;
        while i < a.len()
            invariant
                i <= a@.len(),
                out@.len() == i,
                decreases_to!(*self => *a),
                forall|k: int| 0 <= k < i ==> (#[trigger] out@[k]).1@ == a@[k].1@ && out@[k].0@ == a@[k].0@,
            decreases a@.len() - i,
        {
            proof {
                broadcast use vstd::std_specs::vec::axiom_vec_decreases_to_view;
                broadcast use vstd::seq::axiom_seq_index_decreases;
                assert(decreases_to!(*a => a@));
                assert(decreases_to!(a@ => a@[i as int]));
                assert(decreases_to!(a@[i as int] => a@[i as int].1));
                assert(decreases_to!(*self => a@[i as int].1));
            }
            let name = a[i].0.clone();
            let value = a[i].1.duplicate();
            out.push((name, value));
            i = i + 1;
        }
        proof {
            lemma_property_values_model(out@);
            lemma_property_values_model(a@);
            assert(property_values_model(out@) =~= property_values_model(a@));
            assert(property_names(out@) =~= property_names(a@));
        }
        out
    }
}

} // verus!
