//! Constraint DDL. Creating a `UNIQUE` or `NODE KEY` constraint builds its index over the existing
//! nodes of the label: a node that lacks one of the properties (or holds `NULL` there) is left out
//! of a `UNIQUE` index and rejects a `NODE KEY` constraint, and two nodes with the same property
//! values reject either constraint.
use vstd::prelude::*;

use crate::catalog::{ConstraintKind, LabelId, PropertyKeyId};
use crate::execution::error::ExecError;
use crate::scalar::{digits, duplicate_datum, same_datums, unsigned_text, Datum, ScalarModel, datums_model};

verus! {

/// A node as the scan materializes it: its id, labels and properties.
pub struct NodeRecord {
    pub id: u64,
    pub labels: Vec<String>,
    pub props: Vec<(String, Datum)>,
}

/// The property values of a node for the properties of a constraint, or the first property it
/// lacks.
pub enum PropertyResult {
    AllPresent(Vec<Datum>),
    MissingOrNull(String),
}

/// An entry of a unique index: the property values of a node, and the node.
pub struct IndexEntry {
    pub values: Vec<Datum>,
    pub node_id: u64,
}

/// The value of the first property named `name`, if any.
pub open spec fn field_at(props: Seq<(String, Datum)>, name: Seq<char>) -> Option<Option<ScalarModel>>
    decreases props.len(),
{
    if props.len() == 0 {
        None
    } else if props[0].0@ == name {
        Some(crate::scalar::datum_model(props[0].1))
    } else {
        field_at(props.drop_first(), name)
    }
}

/// Whether a property value counts as `NULL`: missing, or the `Unknown` placeholder.
pub open spec fn is_null_value(v: Option<ScalarModel>) -> bool {
    v is None || v == Some(ScalarModel::Unknown)
}

/// Whether the node has a value that is not `NULL` for the property `name`.
pub open spec fn has_value(props: Seq<(String, Datum)>, name: Seq<char>) -> bool {
    field_at(props, name) matches Some(v) && !is_null_value(v)
}

/// The position of the first property name that the node lacks, if any.
pub open spec fn first_missing(props: Seq<(String, Datum)>, names: Seq<String>) -> Option<int> {
    if exists|i: int| 0 <= i < names.len() && !has_value(props, (#[trigger] names[i])@) {
        Some(choose|i: int|
            0 <= i < names.len() && !has_value(props, (#[trigger] names[i])@) && forall|j: int|
                0 <= j < i ==> has_value(props, (#[trigger] names[j])@))
    } else {
        None
    }
}

/// The values of the node for `names`, in order.
pub open spec fn property_values(props: Seq<(String, Datum)>, names: Seq<String>) -> Seq<Option<ScalarModel>> {
    Seq::new(names.len(), |i: int| field_at(props, names[i]@)->0)
}

fn find_field<'a>(props: &'a [(String, Datum)], name: &String) -> (r: Option<&'a Datum>)
    ensures
        match field_at(props@, name@) {
            Some(v) => r matches Some(d) && crate::scalar::datum_model(*d) == v,
            None => r is None,
        },
{
    let mut i: usize = 0;
    assert(props@.skip(0) =~= props@);
    while i < props.len()
        invariant
            i <= props@.len(),
            field_at(props@, name@) == field_at(props@.skip(i as int), name@),
        decreases props@.len() - i,
    {
        proof {
            assert(props@.skip(i as int).drop_first() =~= props@.skip(i + 1));
        }
        if props[i].0 == *name {
            return Some(&props[i].1);
        }
        i = i + 1;
    }
    None
}

/// The values of the node for the properties `property_names`, or the first of them that it lacks.
pub fn extract_node_properties(props: &[(String, Datum)], property_names: &[String]) -> (r: PropertyResult)
    ensures
        match first_missing(props@, property_names@) {
            Some(i) => r matches PropertyResult::MissingOrNull(n) && n@ == property_names@[i]@,
            None => r matches PropertyResult::AllPresent(vals) && datums_model(vals@) == property_values(
                props@,
                property_names@,
            ),
        },
{
    let mut values: Vec<Datum> = Vec::new();
    let mut i: usize = 0;
    while i < property_names.len()
        invariant
            i <= property_names@.len(),
            values@.len() == i,
            forall|j: int| 0 <= j < i ==> has_value(props@, (#[trigger] property_names@[j])@),
            forall|j: int|
                0 <= j < i ==> crate::scalar::datum_model(#[trigger] values@[j]) == field_at(
                    props@,
                    property_names@[j]@,
                )->0,
        decreases property_names@.len() - i,
    {
        let found = find_field(props, &property_names[i]);
        let present = match found {
            None => false,
            Some(None) => false,
            Some(Some(crate::scalar::ScalarValue::Unknown)) => false,
            Some(_) => true,
        };
        if !present {
            proof {
                assert(!has_value(props@, property_names@[i as int]@));
                let w = choose|k: int|
                    0 <= k < property_names@.len() && !has_value(props@, (#[trigger] property_names@[k])@) && forall|
                        j: int,
                    |
                        0 <= j < k ==> has_value(props@, (#[trigger] property_names@[j])@);
                assert(0 <= i < property_names@.len() && !has_value(props@, property_names@[i as int]@) && forall|
                    j: int,
                |
                    0 <= j < i ==> has_value(props@, (#[trigger] property_names@[j])@));
                if w < i {
                    assert(has_value(props@, property_names@[w]@));
                } else if w > i {
                    assert(has_value(props@, property_names@[i as int]@));
                }
            }
            return PropertyResult::MissingOrNull(property_names[i].clone());
        }
        values.push(duplicate_datum(found.unwrap()));
        i = i + 1;
    }
    proof {
        assert(datums_model(values@) =~= property_values(props@, property_names@));
    }
    PropertyResult::AllPresent(values)
}

/// What building an index over a sequence of nodes comes to.
pub enum IndexOutcome {
    /// The index entries: property values and node id, in scan order.
    Entries(Seq<(Seq<Option<ScalarModel>>, u64)>),
    /// The node with this id repeats the property values of an earlier node.
    Duplicate(u64),
    /// The node with this id lacks the named property of a `NODE KEY` constraint.
    Missing(u64, Seq<char>),
}

/// Whether the node carries the label `label`.
pub open spec fn has_label(node: NodeRecord, label: Seq<char>) -> bool {
    exists|i: int| 0 <= i < node.labels@.len() && (#[trigger] node.labels@[i])@ == label
}

/// Building the index over `nodes`, in order: nodes without the label are passed over, a node
/// that lacks a property is passed over (or rejects a `NODE KEY` constraint), and a node whose
/// property values an earlier entry already holds rejects the constraint.
pub open spec fn index_outcome(nodes: Seq<NodeRecord>, label: Seq<char>, is_node_key: bool, names: Seq<String>) -> IndexOutcome
    decreases nodes.len(),
{
    if nodes.len() == 0 {
        IndexOutcome::Entries(Seq::empty())
    } else {
        match index_outcome(nodes.drop_last(), label, is_node_key, names) {
            IndexOutcome::Entries(es) => {
                let n = nodes.last();
                if !has_label(n, label) {
                    IndexOutcome::Entries(es)
                } else {
                    match first_missing(n.props@, names) {
                        Some(i) => if is_node_key {
                            IndexOutcome::Missing(n.id, names[i]@)
                        } else {
                            IndexOutcome::Entries(es)
                        },
                        None => {
                            let vals = property_values(n.props@, names);
                            if exists|k: int| 0 <= k < es.len() && (#[trigger] es[k]).0 == vals {
                                IndexOutcome::Duplicate(n.id)
                            } else {
                                IndexOutcome::Entries(es.push((vals, n.id)))
                            }
                        },
                    }
                }
            },
            other => other,
        }
    }
}

/// Models of index entries.
pub open spec fn entries_model(es: Seq<IndexEntry>) -> Seq<(Seq<Option<ScalarModel>>, u64)> {
    es.map_values(|e: IndexEntry| (datums_model(e.values@), e.node_id))
}

/// Whether `r` is the result that `o` describes for the label `label`.
pub open spec fn index_result_matches(r: Result<Vec<IndexEntry>, ExecError>, o: IndexOutcome, label: Seq<char>) -> bool {
    match o {
        IndexOutcome::Entries(es) => r matches Ok(v) && entries_model(v@) == es,
        IndexOutcome::Duplicate(id) => r matches Err(ExecError::ConstraintViolation { constraint, reason })
            && constraint@ == "constraint on :"@ + label && reason@ == "Duplicate property values for node "@
            + digits(id as nat),
        IndexOutcome::Missing(id, p) => r matches Err(ExecError::ConstraintViolation { constraint, reason })
            && constraint@ == "NODE KEY constraint on :"@ + label && reason@ == "Node "@ + digits(id as nat)
            + " has missing or null property '"@ + p + "'"@,
    }
}

fn node_has_label(node: &NodeRecord, label: &String) -> (r: bool)
    ensures
        r == has_label(*node, label@),
{
    let mut i: usize = 0;
    while i < node.labels.len()
        invariant
            i <= node.labels@.len(),
            forall|k: int| 0 <= k < i ==> (#[trigger] node.labels@[k])@ != label@,
        decreases node.labels@.len() - i,
    {
        if node.labels[i] == *label {
            assert((node.labels@[i as int])@ == label@);
            return true;
        }
        i = i + 1;
    }
    false
}

/// Once building the index over a prefix of the nodes fails, building it over all of them fails
/// the same way.
proof fn lemma_outcome_sticky(nodes: Seq<NodeRecord>, k: int, label: Seq<char>, is_node_key: bool, names: Seq<String>)
    requires
        0 <= k <= nodes.len(),
        !(index_outcome(nodes.take(k), label, is_node_key, names) is Entries),
    ensures
        index_outcome(nodes, label, is_node_key, names) == index_outcome(nodes.take(k), label, is_node_key, names),
    decreases nodes.len(),
{
    if nodes.len() == k {
        assert(nodes.take(k) =~= nodes);
    } else {
        assert(nodes.drop_last().take(k) =~= nodes.take(k));
        lemma_outcome_sticky(nodes.drop_last(), k, label, is_node_key, names);
    }
}

fn contains_values(entries: &Vec<IndexEntry>, values: &Vec<Datum>) -> (r: bool)
    ensures
        r == exists|k: int| 0 <= k < entries@.len() && (#[trigger] entries_model(entries@)[k]).0 == datums_model(values@),
{
    let mut k: usize = 0;
    while k < entries.len()
        invariant
            k <= entries@.len(),
            forall|m: int| 0 <= m < k ==> (#[trigger] entries_model(entries@)[m]).0 != datums_model(values@),
        decreases entries@.len() - k,
    {
        if same_datums(entries[k].values.as_slice(), values.as_slice()) {
            assert(entries_model(entries@)[k as int].0 == datums_model(values@));
            return true;
        }
        k = k + 1;
    }
    false
}

fn concat3(a: &str, b: &str, c: &str) -> (r: String)
    ensures
        r@ == a@ + b@ + c@,
{
    let mut s = String::from_str(a);
    s.append(b);
    s.append(c);
    s
}

/// Validates the constraint over the nodes of a scan and gives the index entries to write.
///
/// Two nodes collide when their property values are equal value by value. The index key itself
/// is an encoding of those values that the storage layer computes; this function compares the
/// values, not the encoded key bytes, and hands the values on for the caller to encode.
pub fn build_index(
    nodes: &[NodeRecord],
    label_name: &str,
    constraint_kind: ConstraintKind,
    property_names: &[String],
) -> (r: Result<Vec<IndexEntry>, ExecError>)
    ensures
        index_result_matches(
            r,
            index_outcome(nodes@, label_name@, constraint_kind == ConstraintKind::NodeKey, property_names@),
            label_name@,
        ),
{
    let is_node_key = match constraint_kind {
        ConstraintKind::NodeKey => true,
        _ => false,
    };
    let ghost names = property_names@;
    let label = String::from_str(label_name);
    let mut entries: Vec<IndexEntry> = Vec::new();
    let mut i: usize = 0;
    proof {
        assert(nodes@.take(0) =~= Seq::<NodeRecord>::empty());
        assert(entries_model(entries@) =~= Seq::<(Seq<Option<ScalarModel>>, u64)>::empty());
    }
    while i < nodes.len()
        invariant
            i <= nodes@.len(),
            label@ == label_name@,
            names == property_names@,
            is_node_key == (constraint_kind == ConstraintKind::NodeKey),
            index_outcome(nodes@.take(i as int), label_name@, is_node_key, names) == IndexOutcome::Entries(
                entries_model(entries@),
            ),
        decreases nodes@.len() - i,
    {
        let node = &nodes[i];
        proof {
            assert(nodes@.take(i + 1).drop_last() =~= nodes@.take(i as int));
            assert(nodes@.take(i + 1).last() == nodes@[i as int]);
        }
        if node_has_label(node, &label) {
            match extract_node_properties(node.props.as_slice(), property_names) {
                PropertyResult::MissingOrNull(prop_name) => {
                    if is_node_key {
                        proof {
                            reveal_strlit("NODE KEY constraint on :");
                            reveal_strlit("Node ");
                            reveal_strlit(" has missing or null property '");
                            reveal_strlit("'");
                        }
                        let constraint = concat3("NODE KEY constraint on :", label_name, "");
                        let id_text = unsigned_text(node.id);
                        let mut reason = concat3("Node ", id_text.as_str(), " has missing or null property '");
                        reason.append(prop_name.as_str());
                        reason.append("'");
                        proof {
                            reveal_strlit("");
                            assert(constraint@ =~= "NODE KEY constraint on :"@ + label_name@);
                            lemma_outcome_sticky(nodes@, i + 1, label_name@, is_node_key, names);
                        }
                        return Err(ExecError::ConstraintViolation { constraint, reason });
                    }
                },
                PropertyResult::AllPresent(values) => {
                    if contains_values(&entries, &values) {
                        proof {
                            reveal_strlit("constraint on :");
                            reveal_strlit("Duplicate property values for node ");
                            reveal_strlit("");
                        }
                        let constraint = concat3("constraint on :", label_name, "");
                        let id_text = unsigned_text(node.id);
                        let reason = concat3("Duplicate property values for node ", id_text.as_str(), "");
                        proof {
                            assert(constraint@ =~= "constraint on :"@ + label_name@);
                            assert(reason@ =~= "Duplicate property values for node "@ + digits(node.id as nat));
                            lemma_outcome_sticky(nodes@, i + 1, label_name@, is_node_key, names);
                        }
                        return Err(ExecError::ConstraintViolation { constraint, reason });
                    }
                    let ghost before = entries_model(entries@);
                    let ghost vm = datums_model(values@);
                    entries.push(IndexEntry { values, node_id: node.id });
                    proof {
                        assert(entries_model(entries@) =~= before.push((vm, node.id)));
                    }
                },
            }
        }
        i = i + 1;
    }
    proof {
        assert(nodes@.take(nodes@.len() as int) =~= nodes@);
    }
    Ok(entries)
}

pub struct CreateConstraintExecutor {
    pub constraint_kind: ConstraintKind,
    pub label_id: LabelId,
    pub property_key_ids: Vec<PropertyKeyId>,
    pub property_names: Vec<String>,
}

impl CreateConstraintExecutor {
    pub fn new(
        constraint_kind: ConstraintKind,
        label_id: LabelId,
        property_key_ids: Vec<PropertyKeyId>,
        property_names: Vec<String>,
    ) -> (r: CreateConstraintExecutor)
        ensures
            r.constraint_kind == constraint_kind,
            r.label_id == label_id,
            r.property_key_ids == property_key_ids,
            r.property_names == property_names,
    {
        CreateConstraintExecutor { constraint_kind, label_id, property_key_ids, property_names }
    }

    /// Whether the constraint is backed by an index, which creating it builds.
    pub open spec fn has_index(&self) -> bool {
        self.constraint_kind == ConstraintKind::Unique || self.constraint_kind == ConstraintKind::NodeKey
    }

    /// Creates the constraint over the nodes of the label's scan: the index entries to write, or the
    /// violation. A constraint without an index writes nothing.
    pub fn execute(&self, label_name: &str, nodes: &[NodeRecord]) -> (r: Result<Vec<IndexEntry>, ExecError>)
        ensures
            self.has_index() ==> index_result_matches(
                r,
                index_outcome(
                    nodes@,
                    label_name@,
                    self.constraint_kind == ConstraintKind::NodeKey,
                    self.property_names@,
                ),
                label_name@,
            ),
            !self.has_index() ==> (r matches Ok(v) && v@.len() == 0),
    {
        match self.constraint_kind {
            ConstraintKind::Unique | ConstraintKind::NodeKey => build_index(
                nodes,
                label_name,
                self.constraint_kind,
                self.property_names.as_slice(),
            ),
            _ => Ok(Vec::new()),
        }
    }
}

/// Dropping a constraint has nothing to do here.
pub struct DropConstraintExecutor;

impl DropConstraintExecutor {
    pub fn execute(&self) -> (r: Result<(), ExecError>)
        ensures
            r is Ok,
    {
        Ok(())
    }
}

/// The entries' values are pairwise different, and every entry belongs to a node of `nodes` that
/// has the label and every property, with those values.
pub open spec fn index_entries_sound(
    nodes: Seq<NodeRecord>,
    label: Seq<char>,
    names: Seq<String>,
    es: Seq<(Seq<Option<ScalarModel>>, u64)>,
) -> bool {
    &&& forall|i: int, j: int| 0 <= i < j < es.len() ==> (#[trigger] es[i]).0 != (#[trigger] es[j]).0
    &&& forall|k: int| 0 <= k < es.len() ==> #[trigger] entry_of_node(nodes, label, names, es[k])
}

/// The entry `e` is that of a node of `nodes` that has the label and every property.
pub open spec fn entry_of_node(
    nodes: Seq<NodeRecord>,
    label: Seq<char>,
    names: Seq<String>,
    e: (Seq<Option<ScalarModel>>, u64),
) -> bool {
    exists|m: int|
        0 <= m < nodes.len() && #[trigger] nodes[m].id == e.1 && has_label(nodes[m], label) && first_missing(
            nodes[m].props@,
            names,
        ) is None && property_values(nodes[m].props@, names) == e.0
}

/// A unique index holds each combination of property values at most once, and only for nodes of
/// its label that have every property: when building succeeds, its entries are sound.
pub proof fn law_index_entries_unique(nodes: Seq<NodeRecord>, label: Seq<char>, is_node_key: bool, names: Seq<String>)
    ensures
        index_outcome(nodes, label, is_node_key, names) matches IndexOutcome::Entries(es) ==> index_entries_sound(
            nodes,
            label,
            names,
            es,
        ),
    decreases nodes.len(),
{
    if nodes.len() > 0 {
        let d = nodes.drop_last();
        law_index_entries_unique(d, label, is_node_key, names);
        if let IndexOutcome::Entries(es0) = index_outcome(d, label, is_node_key, names) {
            if let IndexOutcome::Entries(es) = index_outcome(nodes, label, is_node_key, names) {
                assert(es == es0 || (es.len() == es0.len() + 1 && es.drop_last() == es0 && !(exists|k: int|
                    0 <= k < es0.len() && (#[trigger] es0[k]).0 == es.last().0))) by {
                    if es != es0 {
                        assert(es.drop_last() =~= es0);
                    }
                }
                assert forall|i: int, j: int| 0 <= i < j < es.len() implies (#[trigger] es[i]).0 != (#[trigger] es[j]).0 by {
                    if es != es0 {
                        assert(es[i] == es0[i]);
                        if j < es0.len() {
                            assert(es[j] == es0[j]);
                        } else {
                            assert(es[j] == es.last());
                        }
                    }
                }
                assert forall|k: int| 0 <= k < es.len() implies #[trigger] entry_of_node(nodes, label, names, es[k]) by {
                    if k < es0.len() {
                        assert(es[k] == es0[k]);
                        assert(entry_of_node(d, label, names, es0[k]));
                        let m = choose|m: int|
                            0 <= m < d.len() && #[trigger] d[m].id == es0[k].1 && has_label(d[m], label)
                                && first_missing(d[m].props@, names) is None && property_values(d[m].props@, names)
                                == es0[k].0;
                        assert(nodes[m] == d[m]);
                    } else {
                        let m = nodes.len() - 1;
                        assert(nodes[m] == nodes.last());
                    }
                }
                assert(index_entries_sound(nodes, label, names, es));
            }
        }
    }
}

} // verus!
