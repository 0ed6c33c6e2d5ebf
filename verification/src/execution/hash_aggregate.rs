//! Row-wise hash aggregation: rows are grouped by their key, and each group keeps one state per
//! aggregate. Groups are kept in the order in which their keys first appeared.
use vstd::prelude::*;

use crate::execution::error::EvalError;
use crate::function::agg::{
    agg_updated, finish_float_sum, lemma_update_keeps_kind, state_matches, AggFunctionKind, AggFunctionState, AggUpdate,
    SumState,
};
use crate::scalar::{
    canon_datums, canonical_datums, datum_model, datums_model, duplicate_datum, duplicate_datums, equal_datums,
    items_model, lemma_items_model, Datum, ScalarModel, ScalarValue,
};

verus! {

/// One group: its key and one state per aggregate.
pub struct RowContainer {
    pub keys: Vec<Datum>,
    pub states: Vec<AggFunctionState>,
}

/// The key of a group as groups are told apart: the representatives of its values, so that NaN
/// goes with NaN and `-0.0` with `0.0`.
pub open spec fn group_key(row: RowContainer) -> Seq<Option<ScalarModel>> {
    canon_datums(datums_model(row.keys@))
}

/// The hash of a group key, as `DefaultHasher` computes it from the derived `Hash` of the key.
/// It is the same for the same key throughout a program; builds for targets whose `usize` differs
/// in width may hash a key differently, since the length of each sequence is hashed as a `usize`.
pub uninterp spec fn key_hash(key: Seq<Option<ScalarModel>>) -> u64;

/// Hashes a group key with `BuildHasher::hash_one` of a default `BuildHasherDefault<DefaultHasher>`.
/// Every `DefaultHasher` made this way starts from the same fixed keys, so the hash depends on the
/// key alone.
#[verifier::external_body]
pub(crate) fn hash_key(key: &[Datum]) -> (r: u64)
    ensures
        r == key_hash(datums_model(key@)),
{
    std::hash::BuildHasher::hash_one(
        &std::hash::BuildHasherDefault::<std::collections::hash_map::DefaultHasher>::default(),
        key,
    )
}

/// The hash index from group keys to group positions: a `hashbrown::HashTable` of positions.
#[verifier::external_body]
pub struct GroupIndex {
    table: hashbrown::HashTable<usize>,
}

/// The positions that the index holds, each with the hash it was inserted with.
pub uninterp spec fn index_entries(index: GroupIndex) -> Map<usize, u64>;

/// `HashTable::new`: an empty table.
#[verifier::external_body]
pub(crate) fn index_new() -> (r: GroupIndex)
    ensures
        forall|i: usize| !#[trigger] index_entries(r).contains_key(i),
{
    GroupIndex { table: hashbrown::HashTable::new() }
}

/// Whether the group at position `i` has the key `key`.
fn group_has_key(rows: &Vec<RowContainer>, i: usize, key: &[Datum]) -> (r: bool)
    requires
        i < rows@.len(),
    ensures
        r == (group_key(rows@[i as int]) == canon_datums(datums_model(key@))),
{
    equal_datums(rows[i].keys.as_slice(), key)
}

/// The hash of the key of the group at position `i`.
fn group_hash(rows: &Vec<RowContainer>, i: usize) -> (r: u64)
    requires
        i < rows@.len(),
    ensures
        r == key_hash(group_key(rows@[i as int])),
{
    let canonical = canonical_datums(rows[i].keys.as_slice());
    hash_key(canonical.as_slice())
}

/// `HashTable::find` with an equality that compares the key of the group at a position with `key`.
/// The table tries the equality on every position inserted with `hash` (and perhaps on others)
/// and returns a position on which it holds.
#[verifier::external_body]
pub(crate) fn index_find(index: &GroupIndex, hash: u64, rows: &Vec<RowContainer>, key: &[Datum]) -> (r: Option<usize>)
    requires
        forall|i: usize| #[trigger] index_entries(*index).contains_key(i) ==> i < rows@.len(),
    ensures
        r matches Some(i) ==> index_entries(*index).contains_key(i) && group_key(rows@[i as int])
            == canon_datums(datums_model(key@)),
        r is None ==> forall|i: usize|
            #[trigger] index_entries(*index).contains_key(i) && index_entries(*index)[i] == hash ==> group_key(rows@[i as int]) != canon_datums(datums_model(key@)),
{
    index.table.find(hash, |&i| group_has_key(rows, i, key)).copied()
}

/// `HashTable::insert_unique` of the position `i` with `hash`. When the table grows it rehashes
/// each position with the hash of the key of its group, which is the hash it was inserted with.
#[verifier::external_body]
pub(crate) fn index_insert(index: &mut GroupIndex, hash: u64, i: usize, rows: &Vec<RowContainer>)
    requires
        !index_entries(*old(index)).contains_key(i),
        i < rows@.len(),
        hash == key_hash(group_key(rows@[i as int])),
        forall|j: usize| #[trigger]
            index_entries(*old(index)).contains_key(j) ==> j < rows@.len() && index_entries(*old(index))[j]
                == key_hash(group_key(rows@[j as int])),
    ensures
        index_entries(*final(index)) == index_entries(*old(index)).insert(i, hash),
{
    index.table.insert_unique(hash, i, |&j| group_hash(rows, j));
}

/// The arguments of an aggregate: the values of the input row at the argument positions, `NULL`
/// where a position is past the end of the row.
pub open spec fn agg_arguments(arg_idx: Seq<usize>, input_row: Seq<Datum>) -> Seq<Option<ScalarModel>> {
    Seq::new(
        arg_idx.len(),
        |m: int|
            if (arg_idx[m] as int) < input_row.len() {
                datum_model(input_row[arg_idx[m] as int])
            } else {
                None
            },
    )
}

/// The arguments of an aggregate taken from `input_row` at the positions `arg_idx`.
fn agg_args_of(arg_idx: &Vec<usize>, input_row: &[Datum]) -> (r: Vec<Datum>)
    ensures
        datums_model(r@) == agg_arguments(arg_idx@, input_row@),
{
    let mut out: Vec<Datum> = Vec::new();
    let mut m: usize = 0;
    while m < arg_idx.len()
        invariant
            m <= arg_idx@.len(),
            out@.len() == m,
            forall|k: int| 0 <= k < m ==> datum_model(#[trigger] out@[k]) == agg_arguments(arg_idx@, input_row@)[k],
        decreases arg_idx@.len() - m,
    {
        let idx = arg_idx[m];
        if idx < input_row.len() {
            out.push(duplicate_datum(&input_row[idx]));
        } else {
            out.push(None);
        }
        m = m + 1;
    }
    assert(datums_model(out@) =~= agg_arguments(arg_idx@, input_row@));
    out
}

/// A state as `create_state` makes it.
pub open spec fn is_fresh(kind: AggFunctionKind, s: AggFunctionState) -> bool {
    &&& state_matches(kind, s)
    &&& s matches AggFunctionState::Count(c) ==> c.count == 0
    &&& s matches AggFunctionState::Sum(x) ==> x.acc == ScalarValue::Integer(0)
    &&& s matches AggFunctionState::Collect(c) ==> c.values@.len() == 0
}

/// Where an output column of an aggregation comes from: a column of the group key (`Left`) or the
/// result of an aggregate (`Right`).
#[derive(Debug, Clone, Copy, PartialEq, Eq, Structural)]
pub enum OutputColumnSource {
    Left(usize),
    Right(usize),
}

/// The value that `extract_value` gives for a state.
pub open spec fn extracted(s: AggFunctionState) -> Option<ScalarModel> {
    match s {
        AggFunctionState::Count(c) => Some(ScalarModel::Integer(c.count)),
        AggFunctionState::Sum(x) => Some(x.acc@),
        AggFunctionState::Collect(c) => Some(ScalarModel::List(items_model(c.values@))),
    }
}

/// What `extract_value` leaves of a state: a collection is emptied, other states are kept.
pub open spec fn drained(before: AggFunctionState, after: AggFunctionState) -> bool {
    match before {
        AggFunctionState::Collect(_) => after matches AggFunctionState::Collect(c) && c.values@.len() == 0,
        _ => after == before,
    }
}

/// The value of one output column for a group.
pub open spec fn output_cell(row: RowContainer, src: OutputColumnSource) -> Option<ScalarModel> {
    match src {
        OutputColumnSource::Left(idx) => if idx < row.keys@.len() {
            datum_model(row.keys@[idx as int])
        } else {
            None
        },
        OutputColumnSource::Right(idx) => if idx < row.states@.len() {
            extracted(row.states@[idx as int])
        } else {
            None
        },
    }
}

/// The output row of a group.
pub open spec fn output_row(row: RowContainer, mapping: Seq<OutputColumnSource>) -> Seq<Option<ScalarModel>> {
    Seq::new(mapping.len(), |c: int| output_cell(row, mapping[c]))
}

/// `chunks` cuts `rows` in order into pieces of `size` rows, the last of which may be shorter; no
/// piece is empty.
pub open spec fn is_chunking<A>(chunks: Seq<Seq<A>>, rows: Seq<A>, size: nat) -> bool {
    &&& chunks.flatten() == rows
    &&& forall|k: int| 0 <= k < chunks.len() ==> 0 < (#[trigger] chunks[k]).len() <= size
    &&& forall|k: int| 0 <= k < chunks.len() - 1 ==> (#[trigger] chunks[k]).len() == size
}

/// Models of rows of datums.
pub open spec fn rows_model(rows: Seq<Vec<Datum>>) -> Seq<Seq<Option<ScalarModel>>> {
    rows.map_values(|r: Vec<Datum>| datums_model(r@))
}

/// Models of chunks of rows.
pub open spec fn chunks_model(chunks: Seq<Vec<Vec<Datum>>>) -> Seq<Seq<Seq<Option<ScalarModel>>>> {
    chunks.map_values(|c: Vec<Vec<Datum>>| rows_model(c@))
}

/// The sets of groups of one aggregation.
pub struct GroupingSet {
    pub agg_args: Vec<Vec<usize>>,
    pub aggs: Vec<AggFunctionKind>,
    pub rows: Vec<RowContainer>,
    pub index: GroupIndex,
}

impl GroupingSet {
    /// No two groups share a key, every group has one state per aggregate of the matching kind, and
    /// the index holds every group position with the hash of its key.
    pub closed spec fn wf(&self) -> bool {
        &&& self.agg_args@.len() == self.aggs@.len()
        &&& forall|i: int, j: int|
            0 <= i < j < self.rows@.len() ==> group_key(#[trigger] self.rows@[i]) != group_key(#[trigger] self.rows@[j])
        &&& forall|i: int|
            0 <= i < self.rows@.len() ==> (#[trigger] self.rows@[i]).states@.len() == self.aggs@.len()
        &&& forall|i: int, j: int|
            0 <= i < self.rows@.len() && 0 <= j < self.aggs@.len() ==> state_matches(
                self.aggs@[j],
                #[trigger] self.rows@[i].states@[j],
            )
        &&& forall|i: usize| #[trigger] index_entries(self.index).contains_key(i) <==> i < self.rows@.len()
        &&& forall|i: usize|
            #[trigger] index_entries(self.index).contains_key(i) ==> index_entries(self.index)[i] == key_hash(
                group_key(self.rows@[i as int]),
            )
    }

    /// Every aggregate that is not `count(*)` takes exactly one argument.
    pub open spec fn args_fit(&self) -> bool {
        forall|j: int|
            0 <= j < self.aggs@.len() && self.aggs@[j] != AggFunctionKind::CountStar ==> (
            #[trigger] self.agg_args@[j])@.len() == 1
    }

    /// No count has reached `i64::MAX`.
    pub open spec fn counts_below_max(&self) -> bool {
        forall|i: int, j: int|
            0 <= i < self.rows@.len() && 0 <= j < self.rows@[i].states@.len() ==> (
            #[trigger] self.rows@[i].states@[j] matches AggFunctionState::Count(c) ==> c.count < i64::MAX)
    }

    /// The position of the group whose key is `key`, if any.
    pub open spec fn group_of(&self, key: Seq<Option<ScalarModel>>) -> Option<int> {
        if exists|i: int| 0 <= i < self.rows@.len() && group_key(#[trigger] self.rows@[i]) == canon_datums(key) {
            Some(choose|i: int| 0 <= i < self.rows@.len() && group_key(#[trigger] self.rows@[i]) == canon_datums(key))
        } else {
            None
        }
    }

    pub fn new(agg_args: Vec<Vec<usize>>, aggs: Vec<AggFunctionKind>) -> (r: GroupingSet)
        requires
            agg_args@.len() == aggs@.len(),
        ensures
            r.wf(),
            r.agg_args == agg_args,
            r.aggs == aggs,
            r.rows@.len() == 0,
    {
        GroupingSet { agg_args, aggs, rows: Vec::new(), index: index_new() }
    }

    /// The number of groups.
    pub fn len(&self) -> (r: usize)
        ensures
            r == self.rows@.len(),
    {
        self.rows.len()
    }

    pub fn is_empty(&self) -> (r: bool)
        ensures
            r == (self.rows@.len() == 0),
    {
        self.rows.len() == 0
    }

    /// The position of the group whose key is `key`.
    pub fn lookup(&self, key: &[Datum]) -> (r: Option<usize>)
        requires
            self.wf(),
        ensures
            match self.group_of(datums_model(key@)) {
                Some(i) => r matches Some(x) && x as int == i,
                None => r is None,
            },
    {
        let canonical = canonical_datums(key);
        let hash = hash_key(canonical.as_slice());
        let found = index_find(&self.index, hash, &self.rows, key);
        proof {
            match found {
                Some(i) => {
                    assert(0 <= i < self.rows@.len() && group_key(self.rows@[i as int]) == canon_datums(
                        datums_model(key@),
                    ));
                    self.lemma_group_unique(i as int, datums_model(key@));
                },
                None => {
                    if exists|i: int|
                        0 <= i < self.rows@.len() && group_key(#[trigger] self.rows@[i]) == canon_datums(
                            datums_model(key@),
                        ) {
                        let i = choose|i: int|
                            0 <= i < self.rows@.len() && group_key(#[trigger] self.rows@[i])
                                == canon_datums(datums_model(key@));
                        assert(self.rows@.len() == self.rows.len());
                        let u = i as usize;
                        assert(u as int == i);
                        assert(index_entries(self.index).contains_key(u));
                        assert(index_entries(self.index)[u] == hash);
                        assert(false);
                    }
                },
            }
        }
        found
    }

    /// Where the group of `key` stands: its position, or the end when there is none yet.
    pub open spec fn group_position(&self, key: Seq<Option<ScalarModel>>) -> int {
        match self.group_of(key) {
            Some(i) => i,
            None => self.rows@.len() as int,
        }
    }

    /// The position of the group of `key`, which is appended with fresh states when there is none.
    fn find_or_create(&mut self, key: &[Datum]) -> (g: usize)
        requires
            old(self).wf(),
        ensures
            final(self).wf(),
            final(self).aggs == old(self).aggs,
            final(self).agg_args == old(self).agg_args,
            g == old(self).group_position(datums_model(key@)),
            g < final(self).rows@.len(),
            group_key(final(self).rows@[g as int]) == canon_datums(datums_model(key@)),
            old(self).group_of(datums_model(key@)) is Some ==> final(self).rows@ == old(self).rows@,
            old(self).group_of(datums_model(key@)) is None ==> {
                &&& datums_model(final(self).rows@[g as int].keys@) == datums_model(key@)
                &&& final(self).rows@.len() == old(self).rows@.len() + 1
                &&& final(self).rows@.take(old(self).rows@.len() as int) == old(self).rows@
                &&& forall|j: int|
                    0 <= j < old(self).aggs@.len() ==> is_fresh(
                        old(self).aggs@[j],
                        #[trigger] final(self).rows@[g as int].states@[j],
                    )
            },
            old(self).counts_below_max() ==> final(self).counts_below_max(),
    {
        match self.lookup(key) {
            Some(i) => i,
            None => {
                let mut states: Vec<AggFunctionState> = Vec::new();
                let mut j: usize = 0;
                while j < self.aggs.len()
                    invariant
                        j <= self.aggs@.len(),
                        states@.len() == j,
                        forall|m: int| 0 <= m < j ==> is_fresh(self.aggs@[m], #[trigger] states@[m]),
                    decreases self.aggs@.len() - j,
                {
                    states.push(self.aggs[j].create_state());
                    j = j + 1;
                }
                let ghost old_rows = self.rows@;
                let idx = self.rows.len();
                let keys = duplicate_datums(key);
                let ghost fresh = states@;
                self.rows.push(RowContainer { keys, states });
                let canonical = canonical_datums(key);
                let hash = hash_key(canonical.as_slice());
                proof {
                    assert(self.rows@.take(old_rows.len() as int) =~= old_rows);
                    assert forall|k: usize| #[trigger]
                        index_entries(self.index).contains_key(k) implies k < self.rows@.len()
                        && index_entries(self.index)[k] == key_hash(group_key(self.rows@[k as int])) by {
                        assert(self.rows@[k as int] == old_rows[k as int]);
                    }
                }
                index_insert(&mut self.index, hash, idx, &self.rows);
                proof {
                    assert forall|a: int, b: int|
                        0 <= a < b < self.rows@.len() implies group_key(#[trigger] self.rows@[a])
                        != group_key(#[trigger] self.rows@[b]) by {
                        if b < old_rows.len() {
                            assert(self.rows@[a] == old_rows[a] && self.rows@[b] == old_rows[b]);
                        } else {
                            assert(self.rows@[a] == old_rows[a]);
                            assert(group_key(old_rows[a]) != canon_datums(datums_model(key@)));
                        }
                    }
                    assert forall|a: int, m: int|
                        0 <= a < self.rows@.len() && 0 <= m < self.aggs@.len() implies state_matches(
                        self.aggs@[m],
                        #[trigger] self.rows@[a].states@[m],
                    ) by {
                        if a < old_rows.len() {
                            assert(self.rows@[a] == old_rows[a]);
                        }
                    }
                    assert forall|a: int| 0 <= a < self.rows@.len() implies (
                    #[trigger] self.rows@[a]).states@.len() == self.aggs@.len() by {
                        if a < old_rows.len() {
                            assert(self.rows@[a] == old_rows[a]);
                        }
                    }
                    assert forall|k: usize| #[trigger]
                        index_entries(self.index).contains_key(k) implies index_entries(self.index)[k] == key_hash(
                        group_key(self.rows@[k as int]),
                    ) by {
                        if k != idx {
                            assert(self.rows@[k as int] == old_rows[k as int]);
                        }
                    }
                    if old(self).counts_below_max() {
                        assert forall|a: int, m: int|
                            0 <= a < self.rows@.len() && 0 <= m < self.rows@[a].states@.len() implies (
                            #[trigger] self.rows@[a].states@[m] matches AggFunctionState::Count(c) ==> c.count
                                < i64::MAX) by {
                            if a < old_rows.len() {
                                assert(self.rows@[a] == old_rows[a]);
                            } else {
                                assert(self.rows@[a].states@[m] == fresh[m]);
                            }
                        }
                    }
                }
                idx
            },
        }
    }

    /// Updates the state of aggregate `j` in group `g` with the arguments `args`.
    fn update_state_at(&mut self, g: usize, j: usize, args: &[Datum]) -> (r: Result<AggUpdate, EvalError>)
        requires
            old(self).wf(),
            g < old(self).rows@.len(),
            j < old(self).aggs@.len(),
            old(self).aggs@[j as int] != AggFunctionKind::CountStar ==> args@.len() == 1,
            old(self).rows@[g as int].states@[j as int] matches AggFunctionState::Count(c) ==> c.count < i64::MAX,
        ensures
            final(self).wf(),
            final(self).aggs == old(self).aggs,
            final(self).agg_args == old(self).agg_args,
            final(self).rows@.len() == old(self).rows@.len(),
            forall|i: int| 0 <= i < old(self).rows@.len() && i != g ==> #[trigger] final(self).rows@[i] == old(self).rows@[i],
            final(self).rows@[g as int].keys == old(self).rows@[g as int].keys,
            final(self).rows@[g as int].states@.len() == old(self).rows@[g as int].states@.len(),
            forall|m: int|
                0 <= m < old(self).aggs@.len() && m != j ==> #[trigger] final(self).rows@[g as int].states@[m] == old(
                    self,
                ).rows@[g as int].states@[m],
            agg_updated(
                old(self).aggs@[j as int],
                datums_model(args@),
                old(self).rows@[g as int].states@[j as int],
                r,
                final(self).rows@[g as int].states@[j as int],
            ),
    {
        let kind = self.aggs[j];
        let ghost before = self.rows@;
        let r = kind.update_state(&mut self.rows[g].states[j], args);
        proof {
            lemma_update_keeps_kind(
                kind,
                datums_model(args@),
                before[g as int].states@[j as int],
                r,
                self.rows@[g as int].states@[j as int],
            );
            assert forall|a: int, b: int|
                0 <= a < b < self.rows@.len() implies group_key(#[trigger] self.rows@[a]) != group_key(#[trigger] self.rows@[b]) by {
                assert(group_key(before[a]) != group_key(before[b]));
            }
            assert forall|a: int, m: int|
                0 <= a < self.rows@.len() && 0 <= m < self.aggs@.len() implies state_matches(
                self.aggs@[m],
                #[trigger] self.rows@[a].states@[m],
            ) by {
                assert(state_matches(self.aggs@[m], before[a].states@[m]));
            }
            assert forall|a: int| 0 <= a < self.rows@.len() implies (#[trigger] self.rows@[a]).states@.len()
                == self.aggs@.len() by {
                assert(before[a].states@.len() == self.aggs@.len());
            }
            assert forall|k: usize| #[trigger]
                index_entries(self.index).contains_key(k) implies index_entries(self.index)[k] == key_hash(
                group_key(self.rows@[k as int]),
            ) by {
                assert(self.rows@[k as int].keys == before[k as int].keys);
            }
        }
        r
    }

    /// The state from which aggregate `j` updates the group of `key`: the group's state when the
    /// group exists, a fresh state otherwise.
    pub open spec fn start_state(&self, key: Seq<Option<ScalarModel>>, j: int, s: AggFunctionState) -> bool {
        match self.group_of(key) {
            Some(g) => s == self.rows@[g].states@[j],
            None => is_fresh(self.aggs@[j], s),
        }
    }

    /// The arguments of aggregate `j` for the row `input_row`.
    pub open spec fn arguments_for(&self, j: int, input_row: Seq<Datum>) -> Seq<Option<ScalarModel>> {
        agg_arguments(self.agg_args@[j]@, input_row)
    }

    /// Aggregate `j`, started from its start state for `key`, updated with its arguments from
    /// `input_row` into `after_state` with the result `res`.
    pub open spec fn agg_step(
        &self,
        key: Seq<Option<ScalarModel>>,
        input_row: Seq<Datum>,
        j: int,
        res: Result<AggUpdate, EvalError>,
        after_state: AggFunctionState,
    ) -> bool {
        exists|s0: AggFunctionState|
            #[trigger] self.start_state(key, j, s0) && agg_updated(
                self.aggs@[j],
                self.arguments_for(j, input_row),
                s0,
                res,
                after_state,
            )
    }

    /// A successful `agg_step`.
    pub open spec fn agg_step_ok(
        &self,
        key: Seq<Option<ScalarModel>>,
        input_row: Seq<Datum>,
        j: int,
        after_state: AggFunctionState,
    ) -> bool {
        exists|u: AggUpdate| #[trigger] self.agg_step(key, input_row, j, Ok(u), after_state)
    }

    /// `after` is this set once `input_row` has been accumulated into the group of `key`, with the
    /// result `r`: the group is found or appended, then each aggregate in order updates its state,
    /// stopping at the first error.
    pub open spec fn accumulated(
        &self,
        after: GroupingSet,
        key: Seq<Option<ScalarModel>>,
        input_row: Seq<Datum>,
        r: Result<(usize, Vec<AggUpdate>), EvalError>,
    ) -> bool {
        let g = self.group_position(key);
        let n = self.aggs@.len() as int;
        &&& after.aggs == self.aggs
        &&& after.agg_args == self.agg_args
        &&& after.rows@.len() == if self.group_of(key) is Some {
            self.rows@.len() as int
        } else {
            self.rows@.len() + 1int
        }
        &&& group_key(after.rows@[g]) == canon_datums(key)
        &&& datums_model(after.rows@[g].keys@) == if self.group_of(key) is Some {
            datums_model(self.rows@[g].keys@)
        } else {
            key
        }
        &&& forall|i: int| 0 <= i < self.rows@.len() && i != g ==> #[trigger] after.rows@[i] == self.rows@[i]
        &&& match r {
            Ok((gi, updates)) => {
                &&& gi == g
                &&& updates@.len() == n
                &&& forall|j: int|
                    0 <= j < n ==> #[trigger] self.agg_step(key, input_row, j, Ok(updates@[j]), after.rows@[g].states@[j])
            },
            Err(e) => exists|k: int| 0 <= k < n && #[trigger] self.stopped_at(after, key, input_row, k, e),
        }
    }

    /// The updates of the aggregates before `k` succeeded, that of `k` failed with `e`, and the
    /// later ones were not made.
    pub open spec fn stopped_at(
        &self,
        after: GroupingSet,
        key: Seq<Option<ScalarModel>>,
        input_row: Seq<Datum>,
        k: int,
        e: EvalError,
    ) -> bool {
        let g = self.group_position(key);
        &&& forall|j: int| 0 <= j < k ==> #[trigger] self.agg_step_ok(key, input_row, j, after.rows@[g].states@[j])
        &&& self.agg_step(key, input_row, k, Err(e), after.rows@[g].states@[k])
        &&& forall|j: int| k < j < self.aggs@.len() ==> #[trigger] self.start_state(key, j, after.rows@[g].states@[j])
    }

    /// Accumulates one input row into the group of `key`, creating the group when there is none, and
    /// gives the position of the group with what each aggregate asks of the caller.
    pub fn accumulate_row(&mut self, key: &[Datum], input_row: &[Datum]) -> (r: Result<
        (usize, Vec<AggUpdate>),
        EvalError,
    >)
        requires
            old(self).wf(),
            old(self).args_fit(),
            old(self).counts_below_max(),
        ensures
            final(self).wf(),
            old(self).accumulated(*final(self), datums_model(key@), input_row@, r),
    {
        let ghost before = *self;
        let ghost kv = datums_model(key@);
        let g = self.find_or_create(key);
        let ghost mid = *self;
        proof {
            assert forall|j: int| 0 <= j < mid.aggs@.len() implies before.start_state(
                kv,
                j,
                #[trigger] mid.rows@[g as int].states@[j],
            ) by {
                if before.group_of(kv) is Some {
                    assert(mid.rows@ == before.rows@);
                }
            }
            assert forall|i: int| 0 <= i < before.rows@.len() && i != g implies #[trigger] mid.rows@[i]
                == before.rows@[i] by {
                if before.group_of(kv) is None {
                    assert(mid.rows@.take(before.rows@.len() as int)[i] == before.rows@[i]);
                }
            }
        }
        let mut updates: Vec<AggUpdate> = Vec::new();
        let mut j: usize = 0;
        while j < self.aggs.len()
            invariant
                self.wf(),
                before.wf(),
                before == *old(self),
                j <= self.aggs@.len(),
                g < self.rows@.len(),
                self.aggs == mid.aggs,
                self.agg_args == mid.agg_args,
                self.rows@.len() == mid.rows@.len(),
                mid.aggs == before.aggs,
                mid.agg_args == before.agg_args,
                before.args_fit(),
                before.counts_below_max(),
                g == before.group_position(kv),
                kv == datums_model(key@),
                mid.rows@.len() == if before.group_of(kv) is Some {
                    before.rows@.len() as int
                } else {
                    before.rows@.len() + 1int
                },
                forall|i: int| 0 <= i < before.rows@.len() && i != g ==> #[trigger] mid.rows@[i] == before.rows@[i],
                group_key(mid.rows@[g as int]) == canon_datums(kv),
                before.group_of(kv) is None ==> datums_model(mid.rows@[g as int].keys@) == kv,
                before.group_of(kv) is Some ==> mid.rows@ == before.rows@,
                forall|m: int| 0 <= m < mid.aggs@.len() ==> #[trigger] before.start_state(kv, m, mid.rows@[g as int].states@[m]),
                forall|i: int| 0 <= i < mid.rows@.len() && i != g ==> #[trigger] self.rows@[i] == mid.rows@[i],
                self.rows@[g as int].keys == mid.rows@[g as int].keys,
                forall|m: int| j <= m < self.aggs@.len() ==> #[trigger] self.rows@[g as int].states@[m] == mid.rows@[g as int].states@[m],
                updates@.len() == j,
                forall|m: int|
                    0 <= m < j ==> agg_updated(
                        before.aggs@[m],
                        before.arguments_for(m, input_row@),
                        mid.rows@[g as int].states@[m],
                        Ok(#[trigger] updates@[m]),
                        self.rows@[g as int].states@[m],
                    ),
            decreases self.aggs@.len() - j,
        {
            let args = agg_args_of(&self.agg_args[j], input_row);
            proof {
                assert(before.start_state(kv, j as int, mid.rows@[g as int].states@[j as int]));
                assert(self.rows@[g as int].states@[j as int] == mid.rows@[g as int].states@[j as int]);
                if before.group_of(kv) is Some {
                    assert(mid.rows@[g as int] == before.rows@[g as int]);
                    assert(before.rows@[g as int].states@.len() == before.aggs@.len());
                    let st = before.rows@[g as int].states@[j as int];
                    assert(st matches AggFunctionState::Count(c) ==> c.count < i64::MAX);
                }
                assert(datums_model(args@).len() == args@.len());
                let ai = before.agg_args@[j as int];
                assert(before.aggs@[j as int] != AggFunctionKind::CountStar ==> ai@.len() == 1);
            }
            let ghost pre = *self;
            let res = self.update_state_at(g, j, args.as_slice());
            match res {
                Ok(u) => {
                    updates.push(u);
                },
                Err(e) => {
                    proof {
                        let after = *self;
                        let gp = before.group_position(kv);
                        assert forall|m: int| 0 <= m < j implies #[trigger] before.agg_step_ok(
                            kv,
                            input_row@,
                            m,
                            after.rows@[gp].states@[m],
                        ) by {
                            assert(before.start_state(kv, m, mid.rows@[gp].states@[m]));
                            assert(after.rows@[gp].states@[m] == pre.rows@[gp].states@[m]);
                            assert(before.agg_step(kv, input_row@, m, Ok(updates@[m]), after.rows@[gp].states@[m]));
                        }
                        assert(before.start_state(kv, j as int, mid.rows@[gp].states@[j as int]));
                        assert forall|m: int| j < m < before.aggs@.len() implies #[trigger] before.start_state(
                            kv,
                            m,
                            after.rows@[gp].states@[m],
                        ) by {
                            assert(after.rows@[gp].states@[m] == mid.rows@[gp].states@[m]);
                        }
                        assert(before.stopped_at(after, kv, input_row@, j as int, e));
                        assert forall|i: int| 0 <= i < before.rows@.len() && i != gp implies #[trigger] after.rows@[i]
                            == before.rows@[i] by {
                            assert(mid.rows@[i] == before.rows@[i]);
                        }
                    }
                    return Err(e);
                },
            }
            j = j + 1;
        }
        proof {
            let after = *self;
            let gp = before.group_position(kv);
            assert forall|m: int| 0 <= m < before.aggs@.len() implies #[trigger] before.agg_step(
                kv,
                input_row@,
                m,
                Ok(updates@[m]),
                after.rows@[gp].states@[m],
            ) by {
                assert(before.start_state(kv, m, mid.rows@[gp].states@[m]));
            }
            assert forall|i: int| 0 <= i < before.rows@.len() && i != gp implies #[trigger] after.rows@[i]
                == before.rows@[i] by {
                assert(mid.rows@[i] == before.rows@[i]);
            }
        }
        Ok((g, updates))
    }

    /// The results of the aggregates of group `i`, which hand their values over.
    fn extract_group(&mut self, i: usize) -> (r: Vec<Datum>)
        requires
            old(self).wf(),
            i < old(self).rows@.len(),
        ensures
            final(self).wf(),
            final(self).aggs == old(self).aggs,
            final(self).agg_args == old(self).agg_args,
            final(self).rows@.len() == old(self).rows@.len(),
            forall|a: int| 0 <= a < old(self).rows@.len() && a != i ==> #[trigger] final(self).rows@[a] == old(self).rows@[a],
            final(self).rows@[i as int].keys == old(self).rows@[i as int].keys,
            final(self).rows@[i as int].states@.len() == old(self).rows@[i as int].states@.len(),
            forall|m: int|
                0 <= m < old(self).aggs@.len() ==> drained(
                    old(self).rows@[i as int].states@[m],
                    #[trigger] final(self).rows@[i as int].states@[m],
                ),
            r@.len() == old(self).aggs@.len(),
            forall|m: int| 0 <= m < r@.len() ==> datum_model(#[trigger] r@[m]) == extracted(old(self).rows@[i as int].states@[m]),
    {
        let ghost before = *self;
        let mut out: Vec<Datum> = Vec::new();
        let mut m: usize = 0;
        while m < self.aggs.len()
            invariant
                self.wf(),
                before.wf(),
                i < self.rows@.len(),
                m <= self.aggs@.len(),
                self.aggs == before.aggs,
                self.agg_args == before.agg_args,
                self.rows@.len() == before.rows@.len(),
                forall|a: int| 0 <= a < before.rows@.len() && a != i ==> #[trigger] self.rows@[a] == before.rows@[a],
                self.rows@[i as int].keys == before.rows@[i as int].keys,
                forall|k: int| m <= k < self.aggs@.len() ==> #[trigger] self.rows@[i as int].states@[k] == before.rows@[i as int].states@[k],
                forall|k: int| 0 <= k < m ==> drained(before.rows@[i as int].states@[k], #[trigger] self.rows@[i as int].states@[k]),
                out@.len() == m,
                forall|k: int| 0 <= k < m ==> datum_model(#[trigger] out@[k]) == extracted(before.rows@[i as int].states@[k]),
            decreases self.aggs@.len() - m,
        {
            let kind = self.aggs[m];
            let ghost rows_before = self.rows@;
            proof {
                assert(state_matches(self.aggs@[m as int], self.rows@[i as int].states@[m as int]));
            }
            let v = kind.extract_value(&mut self.rows[i].states[m]);
            proof {
                let st = before.rows@[i as int].states@[m as int];
                if let AggFunctionState::Collect(c) = st {
                    lemma_items_model(c.values@);
                }
                assert forall|a: int, b: int|
                    0 <= a < b < self.rows@.len() implies group_key(#[trigger] self.rows@[a]) != group_key(#[trigger] self.rows@[b]) by {
                    assert(group_key(rows_before[a]) != group_key(rows_before[b]));
                }
                assert forall|a: int, k: int|
                    0 <= a < self.rows@.len() && 0 <= k < self.aggs@.len() implies state_matches(
                    self.aggs@[k],
                    #[trigger] self.rows@[a].states@[k],
                ) by {
                    assert(state_matches(self.aggs@[k], rows_before[a].states@[k]));
                }
                assert forall|a: int| 0 <= a < self.rows@.len() implies (#[trigger] self.rows@[a]).states@.len()
                    == self.aggs@.len() by {
                    assert(rows_before[a].states@.len() == self.aggs@.len());
                }
                assert forall|k: usize| #[trigger]
                    index_entries(self.index).contains_key(k) implies index_entries(self.index)[k] == key_hash(
                    group_key(self.rows@[k as int]),
                ) by {
                    assert(self.rows@[k as int].keys == rows_before[k as int].keys);
                }
            }
            out.push(v);
            m = m + 1;
        }
        out
    }

    /// Finishes the aggregation: the output row of each group, in group order, cut into chunks of
    /// `chunk_size` rows. The aggregates hand their values over.
    pub fn finalize_chunks(&mut self, output_mapping: &[OutputColumnSource], chunk_size: usize) -> (r: Vec<
        Vec<Vec<Datum>>,
    >)
        requires
            old(self).wf(),
            chunk_size > 0,
        ensures
            final(self).wf(),
            final(self).aggs == old(self).aggs,
            final(self).agg_args == old(self).agg_args,
            final(self).rows@.len() == old(self).rows@.len(),
            forall|i: int|
                0 <= i < old(self).rows@.len() ==> (#[trigger] final(self).rows@[i]).keys == old(self).rows@[i].keys,
            forall|i: int, m: int|
                0 <= i < old(self).rows@.len() && 0 <= m < old(self).aggs@.len() ==> drained(
                    old(self).rows@[i].states@[m],
                    #[trigger] final(self).rows@[i].states@[m],
                ),
            is_chunking(
                chunks_model(r@),
                Seq::new(old(self).rows@.len(), |i: int| output_row(old(self).rows@[i], output_mapping@)),
                chunk_size as nat,
            ),
    {
        let ghost before = *self;
        let ghost expected = Seq::new(before.rows@.len(), |i: int| output_row(before.rows@[i], output_mapping@));
        let mut chunks: Vec<Vec<Vec<Datum>>> = Vec::new();
        let mut current: Vec<Vec<Datum>> = Vec::new();
        let mut i: usize = 0;
        while i < self.rows.len()
            invariant
                self.wf(),
                before.wf(),
                before == *old(self),
                chunk_size > 0,
                i <= self.rows@.len(),
                self.aggs == before.aggs,
                self.agg_args == before.agg_args,
                self.rows@.len() == before.rows@.len(),
                expected == Seq::new(before.rows@.len(), |k: int| output_row(before.rows@[k], output_mapping@)),
                forall|a: int| 0 <= a < before.rows@.len() ==> (#[trigger] self.rows@[a]).keys == before.rows@[a].keys,
                forall|a: int| i <= a < before.rows@.len() ==> #[trigger] self.rows@[a] == before.rows@[a],
                forall|a: int, m: int|
                    0 <= a < i && 0 <= m < before.aggs@.len() ==> drained(
                        before.rows@[a].states@[m],
                        #[trigger] self.rows@[a].states@[m],
                    ),
                chunks_model(chunks@).flatten() + rows_model(current@) == expected.take(i as int),
                forall|k: int| 0 <= k < chunks@.len() ==> (#[trigger] chunks@[k])@.len() == chunk_size,
                current@.len() < chunk_size,
            decreases self.rows@.len() - i,
        {
            let ghost pre = *self;
            let agg_vals = self.extract_group(i);
            let mut out_row: Vec<Datum> = Vec::new();
            let mut c: usize = 0;
            while c < output_mapping.len()
                invariant
                    c <= output_mapping@.len(),
                    i < before.rows@.len(),
                    self.rows@.len() == before.rows@.len(),
                    pre.rows@[i as int] == before.rows@[i as int],
                    before.rows@[i as int].states@.len() == before.aggs@.len(),
                    self.rows@[i as int].keys == before.rows@[i as int].keys,
                    agg_vals@.len() == before.aggs@.len(),
                    forall|m: int|
                        0 <= m < agg_vals@.len() ==> datum_model(#[trigger] agg_vals@[m]) == extracted(
                            before.rows@[i as int].states@[m],
                        ),
                    out_row@.len() == c,
                    forall|k: int|
                        0 <= k < c ==> datum_model(#[trigger] out_row@[k]) == output_cell(
                            before.rows@[i as int],
                            output_mapping@[k],
                        ),
                decreases output_mapping@.len() - c,
            {
                let cell = match output_mapping[c] {
                    OutputColumnSource::Left(idx) => if idx < self.rows[i].keys.len() {
                        duplicate_datum(&self.rows[i].keys[idx])
                    } else {
                        None
                    },
                    OutputColumnSource::Right(idx) => if idx < agg_vals.len() {
                        duplicate_datum(&agg_vals[idx])
                    } else {
                        None
                    },
                };
                out_row.push(cell);
                c = c + 1;
            }
            proof {
                assert(datums_model(out_row@) =~= output_row(before.rows@[i as int], output_mapping@));
                assert(expected.take(i + 1) =~= expected.take(i as int).push(expected[i as int]));
            }
            let ghost cur_before = current@;
            let ghost row_m = datums_model(out_row@);
            current.push(out_row);
            proof {
                assert(rows_model(current@) =~= rows_model(cur_before).push(row_m));
                assert(chunks_model(chunks@).flatten() + rows_model(current@) =~= (chunks_model(chunks@).flatten()
                    + rows_model(cur_before)).push(row_m));
            }
            if current.len() == chunk_size {
                let ghost ch_before = chunks@;
                let ghost full_m = rows_model(current@);
                let mut full: Vec<Vec<Datum>> = Vec::new();
                std::mem::swap(&mut full, &mut current);
                chunks.push(full);
                proof {
                    assert(chunks_model(chunks@) =~= chunks_model(ch_before).push(full_m));
                    chunks_model(ch_before).lemma_flatten_push(full_m);
                    assert(chunks_model(chunks@).flatten() =~= chunks_model(ch_before).flatten() + full_m);
                    assert(rows_model(current@) =~= Seq::<Seq<Option<ScalarModel>>>::empty());
                    assert(chunks_model(chunks@).flatten() + rows_model(current@) =~= chunks_model(chunks@).flatten());
                }
            }
            i = i + 1;
        }
        if current.len() > 0 {
            let ghost ch_before = chunks@;
            let ghost cur_m = rows_model(current@);
            chunks.push(current);
            proof {
                assert(chunks_model(chunks@) =~= chunks_model(ch_before).push(cur_m));
                chunks_model(ch_before).lemma_flatten_push(cur_m);
                assert(chunks_model(chunks@).flatten() =~= chunks_model(ch_before).flatten() + cur_m);
            }
        } else {
            proof {
                assert(rows_model(current@) =~= Seq::<Seq<Option<ScalarModel>>>::empty());
                assert(chunks_model(chunks@).flatten() + rows_model(current@) =~= chunks_model(chunks@).flatten());
            }
        }
        proof {
            assert(expected.take(before.rows@.len() as int) =~= expected);
            let cm = chunks_model(chunks@);
            assert forall|k: int| 0 <= k < cm.len() implies 0 < (#[trigger] cm[k]).len() <= chunk_size by {
                assert(cm[k] == rows_model(chunks@[k]@));
            }
            assert forall|k: int| 0 <= k < cm.len() - 1 implies (#[trigger] cm[k]).len() == chunk_size by {
                assert(cm[k] == rows_model(chunks@[k]@));
            }
        }
        chunks
    }

    /// Stores the float sum that an update of aggregate `j` in group `g` asked for with
    /// `AggUpdate::FloatSum`.
    pub fn complete_float_sum(&mut self, g: usize, j: usize, bits: u64)
        requires
            old(self).wf(),
            g < old(self).rows@.len(),
            j < old(self).aggs@.len(),
            old(self).aggs@[j as int] == AggFunctionKind::Sum,
        ensures
            final(self).wf(),
            final(self).aggs == old(self).aggs,
            final(self).agg_args == old(self).agg_args,
            final(self).rows@.len() == old(self).rows@.len(),
            forall|i: int| 0 <= i < old(self).rows@.len() && i != g ==> #[trigger] final(self).rows@[i] == old(self).rows@[i],
            final(self).rows@[g as int].keys == old(self).rows@[g as int].keys,
            final(self).rows@[g as int].states@ == old(self).rows@[g as int].states@.update(
                j as int,
                AggFunctionState::Sum(SumState { acc: ScalarValue::Float(bits) }),
            ),
    {
        let ghost rows_before = self.rows@;
        proof {
            assert(state_matches(self.aggs@[j as int], self.rows@[g as int].states@[j as int]));
        }
        finish_float_sum(&mut self.rows[g].states[j], bits);
        proof {
            assert(self.rows@[g as int].states@ =~= rows_before[g as int].states@.update(
                j as int,
                AggFunctionState::Sum(SumState { acc: ScalarValue::Float(bits) }),
            ));
            assert forall|a: int, b: int|
                0 <= a < b < self.rows@.len() implies group_key(#[trigger] self.rows@[a]) != group_key(#[trigger] self.rows@[b]) by {
                assert(group_key(rows_before[a]) != group_key(rows_before[b]));
            }
            assert forall|a: int, k: int|
                0 <= a < self.rows@.len() && 0 <= k < self.aggs@.len() implies state_matches(
                self.aggs@[k],
                #[trigger] self.rows@[a].states@[k],
            ) by {
                assert(state_matches(self.aggs@[k], rows_before[a].states@[k]));
            }
            assert forall|a: int| 0 <= a < self.rows@.len() implies (#[trigger] self.rows@[a]).states@.len()
                == self.aggs@.len() by {
                assert(rows_before[a].states@.len() == self.aggs@.len());
            }
            assert forall|k: usize| #[trigger]
                index_entries(self.index).contains_key(k) implies index_entries(self.index)[k] == key_hash(
                group_key(self.rows@[k as int]),
            ) by {
                assert(self.rows@[k as int].keys == rows_before[k as int].keys);
            }
        }
    }

    proof fn lemma_group_unique(&self, i: int, key: Seq<Option<ScalarModel>>)
        requires
            self.wf(),
            0 <= i < self.rows@.len(),
            group_key(self.rows@[i]) == canon_datums(key),
        ensures
            self.group_of(key) == Some(i),
    {
        let c = choose|c: int| 0 <= c < self.rows@.len() && group_key(#[trigger] self.rows@[c]) == canon_datums(key);
        if c < i {
            assert(group_key(self.rows@[c]) != group_key(self.rows@[i]));
        } else if i < c {
            assert(group_key(self.rows@[i]) != group_key(self.rows@[c]));
        }
    }
}

/// The group key of row `row` of a chunk: the values of the group-by columns.
pub fn row_key(columns: &Vec<Vec<Datum>>, group_by: &[usize], row: usize) -> (r: Vec<Datum>)
    requires
        forall|c: int| 0 <= c < group_by@.len() ==> (#[trigger] group_by@[c] as int) < columns@.len(),
        forall|c: int| 0 <= c < columns@.len() ==> row < (#[trigger] columns@[c])@.len(),
    ensures
        datums_model(r@) == Seq::new(
            group_by@.len(),
            |c: int| datum_model(columns@[group_by@[c] as int]@[row as int]),
        ),
{
    let mut out: Vec<Datum> = Vec::new();
    let mut c: usize = 0;
    while c < group_by.len()
        invariant
            c <= group_by@.len(),
            forall|k: int| 0 <= k < group_by@.len() ==> (#[trigger] group_by@[k] as int) < columns@.len(),
            forall|k: int| 0 <= k < columns@.len() ==> row < (#[trigger] columns@[k])@.len(),
            out@.len() == c,
            forall|k: int|
                0 <= k < c ==> datum_model(#[trigger] out@[k]) == datum_model(columns@[group_by@[k] as int]@[row as int]),
        decreases group_by@.len() - c,
    {
        let col = group_by[c];
        out.push(duplicate_datum(&columns[col][row]));
        c = c + 1;
    }
    assert(datums_model(out@) =~= Seq::new(
        group_by@.len(),
        |k: int| datum_model(columns@[group_by@[k] as int]@[row as int]),
    ));
    out
}

/// The values of row `row` of a chunk, one per column.
pub fn row_values(columns: &Vec<Vec<Datum>>, row: usize) -> (r: Vec<Datum>)
    requires
        forall|c: int| 0 <= c < columns@.len() ==> row < (#[trigger] columns@[c])@.len(),
    ensures
        datums_model(r@) == Seq::new(columns@.len(), |c: int| datum_model(columns@[c]@[row as int])),
{
    let mut out: Vec<Datum> = Vec::new();
    let mut c: usize = 0;
    while c < columns.len()
        invariant
            c <= columns@.len(),
            forall|k: int| 0 <= k < columns@.len() ==> row < (#[trigger] columns@[k])@.len(),
            out@.len() == c,
            forall|k: int| 0 <= k < c ==> datum_model(#[trigger] out@[k]) == datum_model(columns@[k]@[row as int]),
        decreases columns@.len() - c,
    {
        out.push(duplicate_datum(&columns[c][row]));
        c = c + 1;
    }
    assert(datums_model(out@) =~= Seq::new(columns@.len(), |k: int| datum_model(columns@[k]@[row as int])));
    out
}

impl GroupingSet {
    /// Each key has a single group: no two groups of a well-formed set have keys that compare equal
    /// (NaN equal to NaN, `-0.0` equal to `0.0`).
    pub proof fn law_one_group_per_key(&self)
        requires
            self.wf(),
        ensures
            forall|i: int, j: int|
                0 <= i < j < self.rows@.len() ==> group_key(#[trigger] self.rows@[i]) != group_key(#[trigger] self.rows@[j]),
    {
    }
}


/// Accumulating a row succeeds whenever no aggregate can fail on it: when every update that
/// aggregate `j` may make from its start state for `key`, with its arguments from `input_row`,
/// succeeds, `accumulate_row` gives `Ok` with the group of `key`, which then holds the key.
pub proof fn lemma_accumulate_row_ok(
    before: GroupingSet,
    after: GroupingSet,
    key: Seq<Option<ScalarModel>>,
    input_row: Seq<Datum>,
    r: Result<(usize, Vec<AggUpdate>), EvalError>,
)
    requires
        before.accumulated(after, key, input_row, r),
        forall|j: int, s0: AggFunctionState, res: Result<AggUpdate, EvalError>, s1: AggFunctionState|
            0 <= j < before.aggs@.len() && #[trigger] before.start_state(key, j, s0) && #[trigger] agg_updated(
                before.aggs@[j],
                before.arguments_for(j, input_row),
                s0,
                res,
                s1,
            ) ==> res is Ok,
    ensures
        r matches Ok((g, _)) && g == before.group_position(key) && group_key(after.rows@[g as int]) == canon_datums(key),
        before.group_of(key) is None ==> after.rows@.len() == before.rows@.len() + 1,
        before.group_of(key) is Some ==> after.rows@.len() == before.rows@.len(),
{
    if let Err(e) = r {
        let k = choose|k: int| 0 <= k < before.aggs@.len() && #[trigger] before.stopped_at(after, key, input_row, k, e);
        let g = before.group_position(key);
        assert(before.agg_step(key, input_row, k, Err(e), after.rows@[g].states@[k]));
        let s0 = choose|s0: AggFunctionState|
            #[trigger] before.start_state(key, k, s0) && agg_updated(
                before.aggs@[k],
                before.arguments_for(k, input_row),
                s0,
                Err::<AggUpdate, EvalError>(e),
                after.rows@[g].states@[k],
            );
        assert(before.start_state(key, k, s0));
    }
}

} // verus!
