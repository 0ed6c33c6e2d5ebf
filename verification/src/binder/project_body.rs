//! Binding of projection bodies (`RETURN` and `WITH` items): the items that hold an aggregate are
//! told apart from the grouping keys, and each aggregate call is lifted into a variable of its own.
use vstd::prelude::*;

use crate::binder::query::{AggregateProjection, DistinctProjection, Pagination, Projection, RegularProjection};
use crate::plan::expr::{
    expr_type, exprs_model, lemma_exprs_model, lemma_property_values_model, property_values_model, Expr,
    ExprView, Variable, VariableName, VariableRef,
};
use crate::plan::plan_node::SortItem;
use crate::scalar::{digits, unsigned_text};

verus! {

/// The bound items of a projection: plain projections of expressions into variables, or an
/// aggregation.
pub enum BoundReturnItems {
    Project(Vec<(Variable, Expr)>),
    Aggregate(),
}

/// Whether an expression holds an aggregate call. The arguments of an aggregate call are not
/// looked into.
pub open spec fn contains_agg(e: ExprView) -> bool
    decreases e,
{
    match e {
        ExprView::AggCall(..) => true,
        ExprView::ScalarCall(_, args, _) => any_contains_agg(args),
        ExprView::PropertyAccess(inner, _, _) => contains_agg(*inner),
        ExprView::HasLabel(inner, _) => contains_agg(*inner),
        ExprView::CreateList(elements, _) => any_contains_agg(elements),
        ExprView::CreateStruct(_, values, _) => any_contains_agg(values),
        _ => false,
    }
}

/// Whether one of the expressions holds an aggregate call.
pub open spec fn any_contains_agg(es: Seq<ExprView>) -> bool
    decreases es,
{
    if es.len() == 0 {
        false
    } else {
        any_contains_agg(es.drop_last()) || contains_agg(es.last())
    }
}

pub proof fn lemma_any_contains_agg(es: Seq<ExprView>)
    ensures
        any_contains_agg(es) <==> exists|k: int| 0 <= k < es.len() && contains_agg(#[trigger] es[k]),
    decreases es.len(),
{
    if es.len() > 0 {
        lemma_any_contains_agg(es.drop_last());
        if any_contains_agg(es.drop_last()) {
            let k = choose|k: int| 0 <= k < es.drop_last().len() && contains_agg(#[trigger] es.drop_last()[k]);
            assert(es[k] == es.drop_last()[k]);
        }
        if exists|k: int| 0 <= k < es.len() && contains_agg(#[trigger] es[k]) {
            let k = choose|k: int| 0 <= k < es.len() && contains_agg(#[trigger] es[k]);
            if k < es.len() - 1 {
                assert(es.drop_last()[k] == es[k]);
            }
        }
    }
}

/// A projection item by its model: the variable's name and the expression.
pub type ItemView = (Seq<char>, ExprView);

/// Models of projection items, in order.
pub open spec fn items_view(items: Seq<(VariableName, Expr)>) -> Seq<ItemView> {
    items.map_values(|p: (VariableName, Expr)| (p.0@, p.1@))
}

/// Where the key `k` first stands in an ordered map, if it does.
pub open spec fn key_index(m: Seq<ItemView>, k: Seq<char>) -> Option<int>
    decreases m.len(),
{
    if m.len() == 0 {
        None
    } else if m[0].0 == k {
        Some(0)
    } else {
        match key_index(m.drop_first(), k) {
            Some(i) => Some(i + 1),
            None => None,
        }
    }
}

/// Inserting into an ordered map: a key that is there keeps its place and takes the new value;
/// a new key goes at the end.
pub open spec fn map_insert(m: Seq<ItemView>, k: Seq<char>, v: ExprView) -> Seq<ItemView> {
    match key_index(m, k) {
        Some(i) => m.update(i, (k, v)),
        None => m.push((k, v)),
    }
}

/// Inserting the items one after the other into the ordered map `m`.
pub open spec fn map_insert_all(m: Seq<ItemView>, items: Seq<ItemView>) -> Seq<ItemView>
    decreases items.len(),
{
    if items.len() == 0 {
        m
    } else {
        let front = map_insert_all(m, items.drop_last());
        map_insert(front, items.last().0, items.last().1)
    }
}

/// The name of the anonymous variable numbered `n`.
pub open spec fn anonymous_name(n: u64) -> Seq<char> {
    "_anon_"@ + digits(n as nat)
}

/// The number after `n`, wrapping around.
pub open spec fn next_number(n: u64) -> u64 {
    if n == u64::MAX {
        0
    } else {
        (n + 1) as u64
    }
}

/// The state of aggregate lifting: the lifted aggregates in the order of their names, each
/// aggregate call met so far with the variable it was lifted into, and the number of the next
/// anonymous variable.
pub struct Extraction {
    pub aggregates: Seq<ItemView>,
    pub seen: Seq<(ExprView, Seq<char>)>,
    pub next: u64,
}

/// The variable that the aggregate call `agg` was first lifted into, if it was.
pub open spec fn seen_name(seen: Seq<(ExprView, Seq<char>)>, agg: ExprView) -> Option<Seq<char>>
    decreases seen.len(),
{
    if seen.len() == 0 {
        None
    } else if seen[0].0 == agg {
        Some(seen[0].1)
    } else {
        seen_name(seen.drop_first(), agg)
    }
}

/// Lifting the aggregate call `agg`: a call met before gives a reference to the same variable.
/// A new one is lifted into the variable `hint` when given, and into the next anonymous variable
/// otherwise.
pub open spec fn lift(agg: ExprView, st: Extraction, hint: Option<Seq<char>>) -> (ExprView, Extraction) {
    match seen_name(st.seen, agg) {
        Some(name) => (ExprView::VariableRef(name, expr_type(agg)), st),
        None => {
            let name = match hint {
                Some(h) => h,
                None => anonymous_name(st.next),
            };
            let next = match hint {
                Some(_) => st.next,
                None => next_number(st.next),
            };
            (
                ExprView::VariableRef(name, expr_type(agg)),
                Extraction { aggregates: map_insert(st.aggregates, name, agg), seen: st.seen.push((agg, name)), next },
            )
        },
    }
}

/// Rewriting an expression below the root of an item: every aggregate call, visited left to
/// right, becomes a reference to the variable it is lifted into.
pub open spec fn extract(e: ExprView, st: Extraction) -> (ExprView, Extraction)
    decreases e,
{
    match e {
        ExprView::AggCall(..) => lift(e, st, None),
        ExprView::ScalarCall(f, args, t) => {
            let (a, s) = extract_all(args, st);
            (ExprView::ScalarCall(f, a, t), s)
        },
        ExprView::PropertyAccess(inner, p, t) => {
            let (i, s) = extract(*inner, st);
            (ExprView::PropertyAccess(Box::new(i), p, t), s)
        },
        ExprView::HasLabel(inner, l) => {
            let (i, s) = extract(*inner, st);
            (ExprView::HasLabel(Box::new(i), l), s)
        },
        ExprView::CreateList(elements, t) => {
            let (a, s) = extract_all(elements, st);
            (ExprView::CreateList(a, t), s)
        },
        ExprView::CreateStruct(names, values, t) => {
            let (a, s) = extract_all(values, st);
            (ExprView::CreateStruct(names, a, t), s)
        },
        _ => (e, st),
    }
}

/// Rewriting a sequence of expressions, left to right.
pub open spec fn extract_all(es: Seq<ExprView>, st: Extraction) -> (Seq<ExprView>, Extraction)
    decreases es,
{
    if es.len() == 0 {
        (Seq::empty(), st)
    } else {
        let (front, s1) = extract_all(es.drop_last(), st);
        let (x, s2) = extract(es.last(), s1);
        (front.push(x), s2)
    }
}

/// Rewriting the expression of the item `name`: an item that is itself an aggregate call is lifted
/// into the item's own variable.
pub open spec fn extract_item(name: Seq<char>, e: ExprView, st: Extraction) -> (ExprView, Extraction) {
    if e is AggCall {
        lift(e, st, Some(name))
    } else {
        extract(e, st)
    }
}

/// Rewriting the items in order: each keeps its name and takes its rewritten expression.
pub open spec fn extract_items(items: Seq<ItemView>, st: Extraction) -> (Seq<ItemView>, Extraction)
    decreases items.len(),
{
    if items.len() == 0 {
        (Seq::empty(), st)
    } else {
        let (front, s1) = extract_items(items.drop_last(), st);
        let (x, s2) = extract_item(items.last().0, items.last().1, s1);
        (front.push((items.last().0, x)), s2)
    }
}

pub open spec fn no_extraction(next: u64) -> Extraction {
    Extraction { aggregates: Seq::empty(), seen: Seq::empty(), next }
}


/// Whether `e` holds an aggregate call.
pub fn expr_contains_agg(e: &Expr) -> (r: bool)
    ensures
        r == contains_agg(e@),
    decreases e,
{
    match e {
        Expr::AggCall { .. } => true,
        Expr::ScalarCall { args, .. } => {
            proof {
                broadcast use vstd::std_specs::vec::axiom_vec_decreases_to_view;
                assert(decreases_to!(*e => *args));
            }
            list_contains_agg(e, args)
        },
        Expr::PropertyAccess { expr, .. } => expr_contains_agg(&**expr),
        Expr::HasLabel { entity, .. } => expr_contains_agg(&**entity),
        Expr::CreateList { elements, .. } => {
            proof {
                broadcast use vstd::std_specs::vec::axiom_vec_decreases_to_view;
                assert(decreases_to!(*e => *elements));
            }
            list_contains_agg(e, elements)
        },
        Expr::CreateStruct { properties, .. } => {
            proof {
                broadcast use vstd::std_specs::vec::axiom_vec_decreases_to_view;
                assert(decreases_to!(*e => *properties));
            }
            let mut i: usize = 0;
            proof {
                lemma_property_values_model(properties@);
                lemma_any_contains_agg(property_values_model(properties@));
            }
            while i < properties.len()
                invariant
                    i <= properties@.len(),
                    decreases_to!(*e => *properties),
                    contains_agg(e@) == any_contains_agg(property_values_model(properties@)),
                    property_values_model(properties@).len() == properties@.len(),
                    forall|k: int|
                        0 <= k < properties@.len() ==> #[trigger] property_values_model(properties@)[k]
                            == properties@[k].1@,
                    forall|k: int| 0 <= k < i ==> !contains_agg(#[trigger] properties@[k].1@),
                decreases properties@.len() - i,
            {
                proof {
                    broadcast use vstd::std_specs::vec::axiom_vec_decreases_to_view;
                    broadcast use vstd::seq::axiom_seq_index_decreases;
                    assert(decreases_to!(*properties => properties@));
                    assert(decreases_to!(properties@ => properties@[i as int]));
                    assert(decreases_to!(properties@[i as int] => properties@[i as int].1));
                    assert(decreases_to!(*e => properties@[i as int].1));
                }
                if expr_contains_agg(&properties[i].1) {
                    proof {
                        lemma_any_contains_agg(property_values_model(properties@));
                        assert(contains_agg(property_values_model(properties@)[i as int]));
                    }
                    return true;
                }
                i = i + 1;
            }
            proof {
                assert forall|k: int| 0 <= k < property_values_model(properties@).len() implies !contains_agg(
                    #[trigger] property_values_model(properties@)[k],
                ) by {
                    assert(property_values_model(properties@)[k] == properties@[k].1@);
                }
            }
            false
        },
        _ => false,
    }
}

/// Whether one of the subexpressions `a` of `parent` holds an aggregate call.
fn list_contains_agg(parent: &Expr, a: &Vec<Expr>) -> (r: bool)
    requires
        decreases_to!(*parent => *a),
    ensures
        r == any_contains_agg(exprs_model(a@)),
    decreases parent, 0nat,
{
    proof {
        lemma_exprs_model(a@);
        lemma_any_contains_agg(exprs_model(a@));
    }
    let mut i: usize = 0;
    while i < a.len()
        invariant
            i <= a@.len(),
            decreases_to!(*parent => *a),
            exprs_model(a@).len() == a@.len(),
            forall|k: int| 0 <= k < a@.len() ==> #[trigger] exprs_model(a@)[k] == a@[k]@,
            forall|k: int| 0 <= k < i ==> !contains_agg(#[trigger] a@[k]@),
        decreases a@.len() - i,
    {
        proof {
            broadcast use vstd::std_specs::vec::axiom_vec_decreases_to_view;
            broadcast use vstd::seq::axiom_seq_index_decreases;
            assert(decreases_to!(*a => a@));
            assert(decreases_to!(a@ => a@[i as int]));
            assert(decreases_to!(*parent => a@[i as int]));
        }
        if expr_contains_agg(&a[i]) {
            proof {
                lemma_any_contains_agg(exprs_model(a@));
                assert(contains_agg(exprs_model(a@)[i as int]));
            }
            return true;
        }
        i = i + 1;
    }
    proof {
        assert forall|k: int| 0 <= k < exprs_model(a@).len() implies !contains_agg(#[trigger] exprs_model(a@)[k]) by {
            assert(exprs_model(a@)[k] == a@[k]@);
        }
    }
    false
}

/// The name of the anonymous variable numbered `n`.
fn anonymous(n: u64) -> (r: String)
    ensures
        r@ == anonymous_name(n),
{
    let mut s = String::from_str("_anon_");
    let d = unsigned_text(n);
    s.append(d.as_str());
    s
}

/// Inserts `(k, v)` into the ordered map `m`.
fn map_put(m: &mut Vec<(VariableName, Expr)>, k: VariableName, v: Expr)
    ensures
        items_view(final(m)@) == map_insert(items_view(old(m)@), k@, v@),
{
    let ghost start = items_view(m@);
    let mut i: usize = 0;
    assert(start.skip(0) =~= start);
    while i < m.len()
        invariant
            i <= m@.len(),
            start == items_view(m@),
            m@ == old(m)@,
            key_index(start, k@) == (match key_index(start.skip(i as int), k@) {
                Some(j) => Some(j + i),
                None => None::<int>,
            }),
        decreases m@.len() - i,
    {
        assert(start.skip(i as int)[0] == start[i as int]);
        assert(start.skip(i as int).drop_first() =~= start.skip(i + 1));
        if m[i].0 == k {
            m.set(i, (k, v));
            assert(items_view(m@) =~= start.update(i as int, (k@, v@)));
            return;
        }
        i = i + 1;
    }
    assert(start.skip(i as int).len() == 0);
    m.push((k, v));
    assert(items_view(m@) =~= start.push((k@, v@)));
}

/// The state of aggregate lifting.
struct Extractor {
    aggregates: Vec<(VariableName, Expr)>,
    seen: Vec<(Expr, VariableName)>,
    next: u64,
}

/// Models of the aggregate calls met, each with its variable.
pub open spec fn seen_view(seen: Seq<(Expr, VariableName)>) -> Seq<(ExprView, Seq<char>)> {
    seen.map_values(|p: (Expr, VariableName)| (p.0@, p.1@))
}

pub open spec fn hint_view(hint: Option<&VariableName>) -> Option<Seq<char>> {
    match hint {
        Some(h) => Some(h@),
        None => None,
    }
}

impl Extractor {
    spec fn state(&self) -> Extraction {
        Extraction { aggregates: items_view(self.aggregates@), seen: seen_view(self.seen@), next: self.next }
    }

    /// The variable that `agg` was first lifted into, if it was.
    fn find_seen(&self, agg: &Expr) -> (r: Option<VariableName>)
        ensures
            match r {
                Some(n) => seen_name(self.state().seen, agg@) == Some(n@),
                None => seen_name(self.state().seen, agg@) is None,
            },
    {
        let ghost all = seen_view(self.seen@);
        let mut i: usize = 0;
        assert(all.skip(0) =~= all);
        while i < self.seen.len()
            invariant
                i <= self.seen@.len(),
                all == seen_view(self.seen@),
                seen_name(all, agg@) == seen_name(all.skip(i as int), agg@),
            decreases self.seen@.len() - i,
        {
            assert(all.skip(i as int)[0] == all[i as int]);
            assert(all.skip(i as int).drop_first() =~= all.skip(i + 1));
            if self.seen[i].0.same_as(agg) {
                return Some(self.seen[i].1.clone());
            }
            i = i + 1;
        }
        assert(all.skip(i as int).len() == 0);
        None
    }

    /// Lifts the aggregate call `agg`, into `hint` when given and new.
    fn lift(&mut self, agg: &Expr, hint: Option<&VariableName>) -> (r: Expr)
        ensures
            (r@, final(self).state()) == lift(agg@, old(self).state(), hint_view(hint)),
    {
        match self.find_seen(agg) {
            Some(name) => Expr::VariableRef(VariableRef { name, typ: agg.typ() }),
            None => {
                let name = match hint {
                    Some(h) => h.clone(),
                    None => {
                        let n = anonymous(self.next);
                        self.next = if self.next == u64::MAX {
                            0
                        } else {
                            self.next + 1
                        };
                        n
                    },
                };
                let ghost before = self.state();
                map_put(&mut self.aggregates, name.clone(), agg.duplicate());
                self.seen.push((agg.duplicate(), name.clone()));
                proof {
                    assert(seen_view(self.seen@) =~= before.seen.push((agg@, name@)));
                }
                Expr::VariableRef(VariableRef { name, typ: agg.typ() })
            },
        }
    }

    /// Rewrites an expression below the root of an item.
    fn extract(&mut self, e: &Expr) -> (r: Expr)
        ensures
            (r@, final(self).state()) == extract(e@, old(self).state()),
        decreases e,
    {
        match e {
            Expr::AggCall { .. } => self.lift(e, None),
            Expr::ScalarCall { function, args, typ } => {
                proof {
                    broadcast use vstd::std_specs::vec::axiom_vec_decreases_to_view;
                    assert(decreases_to!(*e => *args));
                }
                let a = self.extract_list(e, args);
                Expr::ScalarCall { function: function.clone(), args: a, typ: typ.duplicate() }
            },
            Expr::PropertyAccess { expr, property, typ } => {
                let inner = self.extract(&**expr);
                Expr::PropertyAccess { expr: Box::new(inner), property: property.clone(), typ: typ.duplicate() }
            },
            Expr::HasLabel { entity, label } => {
                let inner = self.extract(&**entity);
                Expr::HasLabel { entity: Box::new(inner), label: label.clone() }
            },
            Expr::CreateList { elements, typ } => {
                proof {
                    broadcast use vstd::std_specs::vec::axiom_vec_decreases_to_view;
                    assert(decreases_to!(*e => *elements));
                }
                let a = self.extract_list(e, elements);
                Expr::CreateList { elements: a, typ: typ.duplicate() }
            },
            Expr::CreateStruct { properties, typ } => {
                proof {
                    broadcast use vstd::std_specs::vec::axiom_vec_decreases_to_view;
                    assert(decreases_to!(*e => *properties));
                }
                let a = self.extract_properties(e, properties);
                Expr::CreateStruct { properties: a, typ: typ.duplicate() }
            },
            Expr::VariableRef(_) | Expr::Constant(_) => e.duplicate(),
        }
    }

    /// Rewrites the subexpressions `a` of `parent`, left to right.
    fn extract_list(&mut self, parent: &Expr, a: &Vec<Expr>) -> (r: Vec<Expr>)
        requires
            decreases_to!(*parent => *a),
        ensures
            (exprs_model(r@), final(self).state()) == extract_all(exprs_model(a@), old(self).state()),
        decreases parent, 0nat,
    {
        let ghost st0 = self.state();
        let ghost all = exprs_model(a@);
        proof {
            lemma_exprs_model(a@);
        }
        let mut out: Vec<Expr> = Vec::new();
        let mut i: usize = 0;
        assert(all.take(0) =~= Seq::<ExprView>::empty());
        while i < a.len()
            invariant
                i <= a@.len(),
                decreases_to!(*parent => *a),
                all == exprs_model(a@),
                all.len() == a@.len(),
                forall|k: int| 0 <= k < a@.len() ==> #[trigger] all[k] == a@[k]@,
                (exprs_model(out@), self.state()) == extract_all(all.take(i as int), st0),
            decreases a@.len() - i,
        {
            proof {
                broadcast use vstd::std_specs::vec::axiom_vec_decreases_to_view;
                broadcast use vstd::seq::axiom_seq_index_decreases;
                assert(decreases_to!(*a => a@));
                assert(decreases_to!(a@ => a@[i as int]));
                assert(decreases_to!(*parent => a@[i as int]));
                assert(all.take(i + 1).drop_last() =~= all.take(i as int));
                assert(all.take(i + 1).last() == a@[i as int]@);
            }
            let ghost before = out@;
            let x = self.extract(&a[i]);
            out.push(x);
            proof {
                assert(out@.drop_last() =~= before);
            }
            i = i + 1;
        }
        assert(all.take(a@.len() as int) =~= all);
        out
    }

    /// Rewrites the values of the properties `a` of `parent`, left to right, keeping their names.
    fn extract_properties(&mut self, parent: &Expr, a: &Vec<(VariableName, Expr)>) -> (r: Vec<(VariableName, Expr)>)
        requires
            decreases_to!(*parent => *a),
        ensures
            crate::plan::expr::property_names(r@) == crate::plan::expr::property_names(a@),
            (property_values_model(r@), final(self).state()) == extract_all(
                property_values_model(a@),
                old(self).state(),
            ),
        decreases parent, 0nat,
    {
        let ghost st0 = self.state();
        let ghost all = property_values_model(a@);
        proof {
            lemma_property_values_model(a@);
        }
        let mut out: Vec<(VariableName, Expr)> = Vec::new();
        let mut i: usize = 0;
        assert(all.take(0) =~= Seq::<ExprView>::empty());
        while i < a.len()
            invariant
                i <= a@.len(),
                out@.len() == i,
                decreases_to!(*parent => *a),
                all == property_values_model(a@),
                all.len() == a@.len(),
                forall|k: int| 0 <= k < a@.len() ==> #[trigger] all[k] == a@[k].1@,
                forall|k: int| 0 <= k < i ==> (#[trigger] out@[k]).0@ == a@[k].0@,
                (property_values_model(out@), self.state()) == extract_all(all.take(i as int), st0),
            decreases a@.len() - i,
        {
            proof {
                broadcast use vstd::std_specs::vec::axiom_vec_decreases_to_view;
                broadcast use vstd::seq::axiom_seq_index_decreases;
                assert(decreases_to!(*a => a@));
                assert(decreases_to!(a@ => a@[i as int]));
                assert(decreases_to!(a@[i as int] => a@[i as int].1));
                assert(decreases_to!(*parent => a@[i as int].1));
                assert(all.take(i + 1).drop_last() =~= all.take(i as int));
                assert(all.take(i + 1).last() == a@[i as int].1@);
            }
            let ghost before = out@;
            let x = self.extract(&a[i].1);
            out.push((a[i].0.clone(), x));
            proof {
                assert(out@.drop_last() =~= before);
            }
            i = i + 1;
        }
        assert(all.take(a@.len() as int) =~= all);
        assert(crate::plan::expr::property_names(out@) =~= crate::plan::expr::property_names(a@));
        out
    }

    /// Rewrites the expression of the item `name`.
    fn extract_item(&mut self, name: &VariableName, e: &Expr) -> (r: Expr)
        ensures
            (r@, final(self).state()) == extract_item(name@, e@, old(self).state()),
    {
        match e {
            Expr::AggCall { .. } => self.lift(e, Some(name)),
            _ => self.extract(e),
        }
    }
}

/// Lifts the aggregate calls out of the items of a projection, item after item and left to right
/// within an item. Each aggregate call becomes a reference to a variable that holds it; calls
/// equal to one met before share its variable. An item that is itself an aggregate call is lifted
/// into the item's own variable, and every other call into a new anonymous variable, numbered from
/// `next_unnamed` on. Gives the lifted aggregates, as an ordered map from variable to call, and
/// the items with their rewritten expressions.
pub fn extract_aggregates(items: Vec<(VariableName, Expr)>, next_unnamed: &mut u64) -> (r: (
    Vec<(VariableName, Expr)>,
    Vec<(VariableName, Expr)>,
))
    ensures
        items_view(r.0@) == extract_items(items_view(items@), no_extraction(*old(next_unnamed))).1.aggregates,
        items_view(r.1@) == extract_items(items_view(items@), no_extraction(*old(next_unnamed))).0,
        *final(next_unnamed) == extract_items(items_view(items@), no_extraction(*old(next_unnamed))).1.next,
{
    let ghost all = items_view(items@);
    let ghost st0 = no_extraction(*next_unnamed);
    let mut ex = Extractor { aggregates: Vec::new(), seen: Vec::new(), next: *next_unnamed };
    assert(ex.state().aggregates =~= st0.aggregates);
    assert(ex.state().seen =~= st0.seen);
    let mut out: Vec<(VariableName, Expr)> = Vec::new();
    let mut i: usize = 0;
    assert(all.take(0) =~= Seq::<ItemView>::empty());
    assert(items_view(out@) =~= Seq::<ItemView>::empty());
    while i < items.len()
        invariant
            i <= items@.len(),
            all == items_view(items@),
            (items_view(out@), ex.state()) == extract_items(all.take(i as int), st0),
        decreases items@.len() - i,
    {
        proof {
            assert(all.take(i + 1).drop_last() =~= all.take(i as int));
            assert(all.take(i + 1).last() == (items@[i as int].0@, items@[i as int].1@));
        }
        let ghost before = out@;
        let x = ex.extract_item(&items[i].0, &items[i].1);
        out.push((items[i].0.clone(), x));
        proof {
            assert(items_view(out@) =~= items_view(before).push((items@[i as int].0@, x@)));
        }
        i = i + 1;
    }
    assert(all.take(items@.len() as int) =~= all);
    *next_unnamed = ex.next;
    (ex.aggregates, out)
}


/// The items, in order, that hold an aggregate call (`with_agg`) or that hold none.
pub open spec fn items_where(items: Seq<ItemView>, with_agg: bool) -> Seq<ItemView>
    decreases items.len(),
{
    if items.len() == 0 {
        Seq::empty()
    } else {
        let front = items_where(items.drop_last(), with_agg);
        if contains_agg(items.last().1) == with_agg {
            front.push(items.last())
        } else {
            front
        }
    }
}

/// Splits the items of a projection, keeping their order, into the grouping keys (the items
/// that hold no aggregate call) and the items that hold one.
pub fn split_return_items(items: &Vec<(VariableName, Expr)>) -> (r: (Vec<(VariableName, Expr)>, Vec<(VariableName, Expr)>))
    ensures
        items_view(r.0@) == items_where(items_view(items@), false),
        items_view(r.1@) == items_where(items_view(items@), true),
{
    let ghost all = items_view(items@);
    let mut keys: Vec<(VariableName, Expr)> = Vec::new();
    let mut aggs: Vec<(VariableName, Expr)> = Vec::new();
    let mut i: usize = 0;
    assert(all.take(0) =~= Seq::<ItemView>::empty());
    assert(items_view(keys@) =~= Seq::<ItemView>::empty());
    assert(items_view(aggs@) =~= Seq::<ItemView>::empty());
    while i < items.len()
        invariant
            i <= items@.len(),
            all == items_view(items@),
            items_view(keys@) == items_where(all.take(i as int), false),
            items_view(aggs@) == items_where(all.take(i as int), true),
        decreases items@.len() - i,
    {
        proof {
            assert(all.take(i + 1).drop_last() =~= all.take(i as int));
            assert(all.take(i + 1).last() == (items@[i as int].0@, items@[i as int].1@));
        }
        let ghost k0 = keys@;
        let ghost a0 = aggs@;
        let item = (items[i].0.clone(), items[i].1.duplicate());
        if expr_contains_agg(&items[i].1) {
            aggs.push(item);
            assert(items_view(aggs@) =~= items_view(a0).push(all[i as int]));
        } else {
            keys.push(item);
            assert(items_view(keys@) =~= items_view(k0).push(all[i as int]));
        }
        i = i + 1;
    }
    assert(all.take(items@.len() as int) =~= all);
    (keys, aggs)
}

/// Inserts the items, in order, into the ordered map `m`.
fn map_put_all(m: &mut Vec<(VariableName, Expr)>, items: &Vec<(VariableName, Expr)>)
    ensures
        items_view(final(m)@) == map_insert_all(items_view(old(m)@), items_view(items@)),
{
    let ghost m0 = items_view(m@);
    let ghost all = items_view(items@);
    let mut i: usize = 0;
    assert(all.take(0) =~= Seq::<ItemView>::empty());
    while i < items.len()
        invariant
            i <= items@.len(),
            all == items_view(items@),
            items_view(m@) == map_insert_all(m0, all.take(i as int)),
        decreases items@.len() - i,
    {
        proof {
            assert(all.take(i + 1).drop_last() =~= all.take(i as int));
            assert(all.take(i + 1).last() == (items@[i as int].0@, items@[i as int].1@));
        }
        map_put(m, items[i].0.clone(), items[i].1.duplicate());
        i = i + 1;
    }
    assert(all.take(items@.len() as int) =~= all);
}

/// What the post-projection of an aggregation takes over from a grouping key: a reference to its
/// variable, with the type of its expression.
pub open spec fn key_refs(items: Seq<ItemView>) -> Seq<ItemView> {
    items.map_values(|p: ItemView| (p.0, ExprView::VariableRef(p.0, expr_type(p.1))))
}

fn key_references(items: &Vec<(VariableName, Expr)>) -> (r: Vec<(VariableName, Expr)>)
    ensures
        items_view(r@) == key_refs(items_view(items@)),
{
    let mut out: Vec<(VariableName, Expr)> = Vec::new();
    let mut i: usize = 0;
    while i < items.len()
        invariant
            i <= items@.len(),
            out@.len() == i,
            forall|k: int|
                0 <= k < i ==> (#[trigger] out@[k]).0@ == items@[k].0@ && out@[k].1@ == ExprView::VariableRef(
                    items@[k].0@,
                    expr_type(items@[k].1@),
                ),
        decreases items@.len() - i,
    {
        let name = items[i].0.clone();
        let r = Expr::VariableRef(VariableRef { name: items[i].0.clone(), typ: items[i].1.typ() });
        out.push((name, r));
        i = i + 1;
    }
    assert(items_view(out@) =~= key_refs(items_view(items@)));
    out
}

/// The projection of a `RETURN` or `WITH` that aggregates or is `DISTINCT`, from its grouping keys
/// and its items that hold an aggregate call, all bound and named. The keys go into an ordered
/// map of groups. Without aggregate items this is a distinct projection over the keys. Otherwise
/// the aggregate items go into an ordered map, their aggregate calls are lifted
/// (`extract_aggregates`), and the post-projection maps each key to a reference to its variable
/// and each aggregate item to its rewritten expression.
pub fn aggregate_projection(
    group_items: Vec<(VariableName, Expr)>,
    agg_items: Vec<(VariableName, Expr)>,
    order_by: Vec<SortItem>,
    pagination: Pagination,
    filter: Vec<Expr>,
    next_unnamed: &mut u64,
) -> (r: Projection)
    ensures
        agg_items@.len() == 0 ==> (r matches Projection::Distinct(d) && items_view(d.group_by@) == map_insert_all(
            Seq::empty(),
            items_view(group_items@),
        ) && d.order_by == order_by && d.pagination == pagination && d.filter == filter && *final(next_unnamed)
            == *old(next_unnamed)),
        agg_items@.len() > 0 ==> (r matches Projection::Aggregate(a) && {
            let aggs = map_insert_all(Seq::empty(), items_view(agg_items@));
            let lifted = extract_items(aggs, no_extraction(*old(next_unnamed)));
            &&& items_view(a.group_by@) == map_insert_all(Seq::empty(), items_view(group_items@))
            &&& items_view(a.aggregate@) == lifted.1.aggregates
            &&& items_view(a.post_projection@) == map_insert_all(
                map_insert_all(Seq::empty(), key_refs(items_view(group_items@))),
                lifted.0,
            )
            &&& a.order_by == order_by
            &&& a.pagination == pagination
            &&& a.filter == filter
            &&& *final(next_unnamed) == lifted.1.next
        }),
{
    let mut group_by: Vec<(VariableName, Expr)> = Vec::new();
    assert(items_view(group_by@) =~= Seq::<ItemView>::empty());
    map_put_all(&mut group_by, &group_items);
    if agg_items.len() == 0 {
        return Projection::Distinct(DistinctProjection { group_by, order_by, pagination, filter });
    }
    let mut post_projection: Vec<(VariableName, Expr)> = Vec::new();
    assert(items_view(post_projection@) =~= Seq::<ItemView>::empty());
    let refs = key_references(&group_items);
    map_put_all(&mut post_projection, &refs);
    let mut agg_map: Vec<(VariableName, Expr)> = Vec::new();
    assert(items_view(agg_map@) =~= Seq::<ItemView>::empty());
    map_put_all(&mut agg_map, &agg_items);
    let (aggregate, rewritten) = extract_aggregates(agg_map, next_unnamed);
    map_put_all(&mut post_projection, &rewritten);
    Projection::Aggregate(AggregateProjection { group_by, aggregate, post_projection, order_by, pagination, filter })
}


/// Every lifted aggregate, and every call met, is an aggregate call.
pub open spec fn only_aggregates(st: Extraction) -> bool {
    &&& forall|i: int| 0 <= i < st.aggregates.len() ==> (#[trigger] st.aggregates[i]).1 is AggCall
    &&& forall|i: int| 0 <= i < st.seen.len() ==> (#[trigger] st.seen[i]).0 is AggCall
}

proof fn lemma_lift(agg: ExprView, st: Extraction, hint: Option<Seq<char>>)
    requires
        agg is AggCall,
        only_aggregates(st),
    ensures
        lift(agg, st, hint).0 is VariableRef,
        only_aggregates(lift(agg, st, hint).1),
{
    let r = lift(agg, st, hint).1;
    if seen_name(st.seen, agg) is None {
        let name = match hint {
            Some(h) => h,
            None => anonymous_name(st.next),
        };
        lemma_key_index_bounds(st.aggregates, name);
        assert forall|i: int| 0 <= i < r.aggregates.len() implies (#[trigger] r.aggregates[i]).1 is AggCall by {
            match key_index(st.aggregates, name) {
                Some(j) => {
                    if i != j {
                        assert(r.aggregates[i] == st.aggregates[i]);
                    }
                },
                None => {
                    if i < st.aggregates.len() {
                        assert(r.aggregates[i] == st.aggregates[i]);
                    }
                },
            }
        }
        assert forall|i: int| 0 <= i < r.seen.len() implies (#[trigger] r.seen[i]).0 is AggCall by {
            if i < st.seen.len() {
                assert(r.seen[i] == st.seen[i]);
            }
        }
    }
}

proof fn lemma_key_index_bounds(m: Seq<ItemView>, k: Seq<char>)
    ensures
        key_index(m, k) matches Some(i) ==> 0 <= i < m.len(),
    decreases m.len(),
{
    if m.len() > 0 {
        lemma_key_index_bounds(m.drop_first(), k);
    }
}

/// Rewriting leaves no aggregate call in an expression, and lifts nothing but aggregate calls.
pub proof fn lemma_extract(e: ExprView, st: Extraction)
    requires
        only_aggregates(st),
    ensures
        !contains_agg(extract(e, st).0),
        only_aggregates(extract(e, st).1),
    decreases e,
{
    match e {
        ExprView::AggCall(..) => {
            lemma_lift(e, st, None);
        },
        ExprView::ScalarCall(_, args, _) => {
            lemma_extract_all(args, st);
        },
        ExprView::PropertyAccess(inner, _, _) => {
            lemma_extract(*inner, st);
        },
        ExprView::HasLabel(inner, _) => {
            lemma_extract(*inner, st);
        },
        ExprView::CreateList(elements, _) => {
            lemma_extract_all(elements, st);
        },
        ExprView::CreateStruct(_, values, _) => {
            lemma_extract_all(values, st);
        },
        _ => {},
    }
}

/// Rewriting a sequence of expressions leaves no aggregate call in any of them.
pub proof fn lemma_extract_all(es: Seq<ExprView>, st: Extraction)
    requires
        only_aggregates(st),
    ensures
        extract_all(es, st).0.len() == es.len(),
        !any_contains_agg(extract_all(es, st).0),
        only_aggregates(extract_all(es, st).1),
    decreases es,
{
    if es.len() > 0 {
        lemma_extract_all(es.drop_last(), st);
        let (front, s1) = extract_all(es.drop_last(), st);
        lemma_extract(es.last(), s1);
        let out = extract_all(es, st).0;
        assert(out.drop_last() =~= front);
    }
}

/// Lifting the aggregates of a projection's items keeps each item's name and place, leaves no
/// aggregate call in the rewritten items and turns an item that is an aggregate call into a
/// reference to a variable; what it lifts are aggregate calls.
pub proof fn lemma_extract_items(items: Seq<ItemView>, next: u64)
    ensures
        extract_items(items, no_extraction(next)).0.len() == items.len(),
        forall|k: int|
            0 <= k < items.len() ==> {
                let rw = #[trigger] extract_items(items, no_extraction(next)).0[k];
                &&& rw.0 == items[k].0
                &&& !contains_agg(rw.1)
                &&& items[k].1 is AggCall ==> rw.1 is VariableRef
            },
        forall|i: int|
            0 <= i < extract_items(items, no_extraction(next)).1.aggregates.len() ==> (
            #[trigger] extract_items(items, no_extraction(next)).1.aggregates[i]).1 is AggCall,
{
    lemma_extract_items_from(items, no_extraction(next));
}

proof fn lemma_extract_items_from(items: Seq<ItemView>, st: Extraction)
    requires
        only_aggregates(st),
    ensures
        extract_items(items, st).0.len() == items.len(),
        forall|k: int|
            0 <= k < items.len() ==> {
                let rw = #[trigger] extract_items(items, st).0[k];
                &&& rw.0 == items[k].0
                &&& !contains_agg(rw.1)
                &&& items[k].1 is AggCall ==> rw.1 is VariableRef
            },
        only_aggregates(extract_items(items, st).1),
    decreases items.len(),
{
    if items.len() > 0 {
        let d = items.drop_last();
        lemma_extract_items_from(d, st);
        let (front, s1) = extract_items(d, st);
        let last = items.last();
        if last.1 is AggCall {
            lemma_lift(last.1, s1, Some(last.0));
        } else {
            lemma_extract(last.1, s1);
        }
        let out = extract_items(items, st).0;
        assert forall|k: int| 0 <= k < items.len() implies {
            let rw = #[trigger] out[k];
            &&& rw.0 == items[k].0
            &&& !contains_agg(rw.1)
            &&& items[k].1 is AggCall ==> rw.1 is VariableRef
        } by {
            if k < d.len() {
                assert(out[k] == front[k]);
                assert(items[k] == d[k]);
            }
        }
    }
}


/// The names of an ordered map, in order.
pub open spec fn map_keys(m: Seq<ItemView>) -> Seq<Seq<char>> {
    m.map_values(|p: ItemView| p.0)
}

/// The projection of a `RETURN` or `WITH` that neither aggregates nor is `DISTINCT`, from its
/// items, bound and named. The items go into an ordered map, and the output is its variables in
/// order.
pub fn regular_projection(
    items: Vec<(VariableName, Expr)>,
    order_by: Vec<SortItem>,
    pagination: Pagination,
    filter: Vec<Expr>,
) -> (r: RegularProjection)
    ensures
        items_view(r.items@) == map_insert_all(Seq::empty(), items_view(items@)),
        r.output@.map_values(|n: VariableName| n@) == map_keys(map_insert_all(Seq::empty(), items_view(items@))),
        r.order_by == order_by,
        r.pagination == pagination,
        r.filter == filter,
{
    let mut projected: Vec<(VariableName, Expr)> = Vec::new();
    assert(items_view(projected@) =~= Seq::<ItemView>::empty());
    map_put_all(&mut projected, &items);
    let mut output: Vec<VariableName> = Vec::new();
    let mut i: usize = 0;
    while i < projected.len()
        invariant
            i <= projected@.len(),
            output@.len() == i,
            forall|k: int| 0 <= k < i ==> (#[trigger] output@[k])@ == projected@[k].0@,
        decreases projected@.len() - i,
    {
        output.push(projected[i].0.clone());
        i = i + 1;
    }
    assert(output@.map_values(|n: VariableName| n@) =~= map_keys(items_view(projected@)));
    RegularProjection { items: projected, order_by, pagination, filter, output }
}


/// An expression holds an aggregate call when it is one, or when one of its direct parts holds
/// one: an argument of a call, an element of a list, a value of a map, or the operand of a
/// property access or label test. Variables and constants hold none.
pub proof fn law_contains_agg_parts(e: Expr)
    ensures
        e is AggCall ==> contains_agg(e@),
        e matches Expr::ScalarCall { args, .. } ==> (contains_agg(e@) <==> exists|k: int|
            0 <= k < args@.len() && contains_agg(#[trigger] args@[k]@)),
        e matches Expr::CreateList { elements, .. } ==> (contains_agg(e@) <==> exists|k: int|
            0 <= k < elements@.len() && contains_agg(#[trigger] elements@[k]@)),
        e matches Expr::CreateStruct { properties, .. } ==> (contains_agg(e@) <==> exists|k: int|
            0 <= k < properties@.len() && contains_agg(#[trigger] properties@[k].1@)),
        e matches Expr::PropertyAccess { expr, .. } ==> (contains_agg(e@) == contains_agg((*expr)@)),
        e matches Expr::HasLabel { entity, .. } ==> (contains_agg(e@) == contains_agg((*entity)@)),
        e is VariableRef || e is Constant ==> !contains_agg(e@),
{
    match e {
        Expr::ScalarCall { args, .. } => {
            lemma_exprs_model(args@);
            lemma_any_contains_agg(exprs_model(args@));
            assert((exists|k: int| 0 <= k < args@.len() && contains_agg(#[trigger] args@[k]@)) <==> (exists|k: int|
                0 <= k < exprs_model(args@).len() && contains_agg(#[trigger] exprs_model(args@)[k]))) by {
                if exists|k: int| 0 <= k < args@.len() && contains_agg(#[trigger] args@[k]@) {
                    let k = choose|k: int| 0 <= k < args@.len() && contains_agg(#[trigger] args@[k]@);
                    assert(exprs_model(args@)[k] == args@[k]@);
                }
            }
        },
        Expr::CreateList { elements, .. } => {
            lemma_exprs_model(elements@);
            lemma_any_contains_agg(exprs_model(elements@));
            assert((exists|k: int| 0 <= k < elements@.len() && contains_agg(#[trigger] elements@[k]@)) <==> (exists|
                k: int,
            | 0 <= k < exprs_model(elements@).len() && contains_agg(#[trigger] exprs_model(elements@)[k]))) by {
                if exists|k: int| 0 <= k < elements@.len() && contains_agg(#[trigger] elements@[k]@) {
                    let k = choose|k: int| 0 <= k < elements@.len() && contains_agg(#[trigger] elements@[k]@);
                    assert(exprs_model(elements@)[k] == elements@[k]@);
                }
            }
        },
        Expr::CreateStruct { properties, .. } => {
            lemma_property_values_model(properties@);
            lemma_any_contains_agg(property_values_model(properties@));
            assert((exists|k: int| 0 <= k < properties@.len() && contains_agg(#[trigger] properties@[k].1@)) <==> (
            exists|k: int|
                0 <= k < property_values_model(properties@).len() && contains_agg(
                    #[trigger] property_values_model(properties@)[k],
                ))) by {
                if exists|k: int| 0 <= k < properties@.len() && contains_agg(#[trigger] properties@[k].1@) {
                    let k = choose|k: int| 0 <= k < properties@.len() && contains_agg(#[trigger] properties@[k].1@);
                    assert(property_values_model(properties@)[k] == properties@[k].1@);
                }
            }
        },
        _ => {},
    }
}

} // verus!
