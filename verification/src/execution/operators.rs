//! Row operators over chunks: filtering, distinct rows, cross products and list construction.
//!
//! A chunk is held by its columns, each a sequence of datums, with a visibility bit per row.
use vstd::prelude::*;

use crate::bits::{bits, ones, Bits, MAX_BITS};
use crate::execution::hash_aggregate::{
    group_key, hash_key, index_entries, index_find, index_insert, index_new, key_hash, GroupIndex, OutputColumnSource,
    RowContainer,
};
use crate::scalar::{
    canon_datums, canonical_datums, datum_model, datums_model, duplicate_datum, duplicate_datums, items_model,
    lemma_items_model, Datum, ScalarModel, ScalarValue,
};

verus! {

/// The model of a row.
pub type RowModel = Seq<Option<ScalarModel>>;

/// The rows that a filter result keeps: those where it is `true` (not `false` or `NULL`).
pub fn to_filter_mask(col: &[Option<bool>]) -> (r: Bits)
    requires
        col@.len() <= MAX_BITS,
    ensures
        bits(r).len() == col@.len(),
        forall|i: int| 0 <= i < col@.len() ==> #[trigger] bits(r)[i] == (col@[i] == Some(true)),
{
    let mut flags: Vec<bool> = Vec::new();
    let mut i: usize = 0;
    while i < col.len()
        invariant
            i <= col@.len(),
            flags@.len() == i,
            forall|k: int| 0 <= k < i ==> #[trigger] flags@[k] == (col@[k] == Some(true)),
        decreases col@.len() - i,
    {
        let keep = match col[i] {
            Some(b) => b,
            None => false,
        };
        flags.push(keep);
        i = i + 1;
    }
    Bits::from_bools(flags.as_slice())
}

/// `FILTER`: hides the rows of a chunk on which the filter result is not `true`.
pub fn apply_filter(visibility: &mut Bits, filter: &[Option<bool>])
    requires
        bits(*old(visibility)).len() == filter@.len(),
        filter@.len() <= MAX_BITS,
    ensures
        bits(*final(visibility)).len() == filter@.len(),
        forall|i: int|
            0 <= i < filter@.len() ==> #[trigger] bits(*final(visibility))[i] == (bits(*old(visibility))[i]
                && filter@[i] == Some(true)),
{
    let mask = to_filter_mask(filter);
    visibility.and_assign(&mask);
}

/// The values of a chunk at row `p`, one per column.
pub open spec fn row_at(columns: Seq<Vec<Datum>>, p: int) -> RowModel {
    Seq::new(columns.len(), |c: int| datum_model(columns[c]@[p]))
}

/// Every column holds at least `n` rows.
pub open spec fn columns_cover(columns: Seq<Vec<Datum>>, n: int) -> bool {
    forall|c: int| 0 <= c < columns.len() ==> n <= (#[trigger] columns[c])@.len()
}

/// The visible rows of a chunk, in order.
pub open spec fn visible_rows(columns: Seq<Vec<Datum>>, vis: Seq<bool>) -> Seq<RowModel> {
    ones(vis).map_values(|p: int| row_at(columns, p))
}

/// The positions of the set bits are positions of the sequence.
pub proof fn lemma_ones_bounds(s: Seq<bool>)
    ensures
        forall|k: int| 0 <= k < ones(s).len() ==> 0 <= #[trigger] ones(s)[k] < s.len(),
    decreases s.len(),
{
    if s.len() > 0 {
        let d = s.drop_last();
        lemma_ones_bounds(d);
        assert forall|k: int| 0 <= k < ones(s).len() implies 0 <= #[trigger] ones(s)[k] < s.len() by {
            if k < ones(d).len() {
                assert(ones(s)[k] == ones(d)[k]);
                assert(ones(d)[k] < d.len());
            }
        }
    }
}

/// The visible rows of a chunk, each as its values (a compacted chunk, row by row).
pub fn compact_rows(columns: &Vec<Vec<Datum>>, vis: &Bits) -> (r: Vec<Vec<Datum>>)
    requires
        columns_cover(columns@, bits(*vis).len() as int),
    ensures
        r@.map_values(|row: Vec<Datum>| datums_model(row@)) == visible_rows(columns@, bits(*vis)),
{
    let positions = vis.iter_ones();
    proof {
        lemma_ones_bounds(bits(*vis));
    }
    let ghost want = visible_rows(columns@, bits(*vis));
    let mut out: Vec<Vec<Datum>> = Vec::new();
    let mut k: usize = 0;
    while k < positions.len()
        invariant
            k <= positions@.len(),
            columns_cover(columns@, bits(*vis).len() as int),
            positions@.map_values(|p: usize| p as int) == ones(bits(*vis)),
            forall|m: int| 0 <= m < ones(bits(*vis)).len() ==> 0 <= #[trigger] ones(bits(*vis))[m] < bits(*vis).len(),
            want == visible_rows(columns@, bits(*vis)),
            out@.map_values(|row: Vec<Datum>| datums_model(row@)) == want.take(k as int),
        decreases positions@.len() - k,
    {
        let p = positions[k];
        proof {
            assert(positions@.map_values(|q: usize| q as int)[k as int] == p as int);
        }
        let mut row: Vec<Datum> = Vec::new();
        let mut c: usize = 0;
        while c < columns.len()
            invariant
                c <= columns@.len(),
                (p as int) < bits(*vis).len(),
                columns_cover(columns@, bits(*vis).len() as int),
                row@.len() == c,
                forall|m: int| 0 <= m < c ==> datum_model(#[trigger] row@[m]) == datum_model(columns@[m]@[p as int]),
            decreases columns@.len() - c,
        {
            row.push(duplicate_datum(&columns[c][p]));
            c = c + 1;
        }
        let ghost before = out@;
        proof {
            assert(datums_model(row@) =~= row_at(columns@, p as int));
        }
        out.push(row);
        proof {
            assert(out@.map_values(|row: Vec<Datum>| datums_model(row@)) =~= before.map_values(
                |row: Vec<Datum>| datums_model(row@),
            ).push(row_at(columns@, p as int)));
            assert(want.take(k + 1) =~= want.take(k as int).push(want[k as int]));
        }
        k = k + 1;
    }
    proof {
        assert(want.take(positions@.len() as int) =~= want);
    }
    out
}

/// The rows that `DISTINCT` has let through so far, found again through a hash index of their
/// positions.
pub struct DistinctState {
    seen: Vec<RowContainer>,
    index: GroupIndex,
}

/// Feeding `rows` in order to a distinct operator that has seen the rows whose representatives
/// are `seen`: the rows let through, and the representatives seen afterwards. A row is let through
/// when no row equal to it (NaN equal to NaN, `-0.0` equal to `0.0`) was seen before it.
pub open spec fn distinct_step(seen: Set<RowModel>, rows: Seq<RowModel>) -> (Seq<RowModel>, Set<RowModel>)
    decreases rows.len(),
{
    if rows.len() == 0 {
        (Seq::empty(), seen)
    } else {
        let (out, s) = distinct_step(seen, rows.drop_last());
        if s.contains(canon_datums(rows.last())) {
            (out, s)
        } else {
            (out.push(rows.last()), s.insert(canon_datums(rows.last())))
        }
    }
}

impl DistinctState {
    /// Every seen row is indexed at its position with the hash of its representatives, and the
    /// index holds no other position.
    pub closed spec fn wf(&self) -> bool {
        &&& forall|i: usize| #[trigger] index_entries(self.index).contains_key(i) <==> i < self.seen@.len()
        &&& forall|i: usize|
            #[trigger] index_entries(self.index).contains_key(i) ==> index_entries(self.index)[i] == key_hash(
                group_key(self.seen@[i as int]),
            )
    }

    /// The representatives of the rows seen, as a set.
    pub closed spec fn view_set(&self) -> Set<RowModel> {
        Set::new(|r: RowModel| exists|i: int| 0 <= i < self.seen@.len() && group_key(#[trigger] self.seen@[i]) == r)
    }

    pub fn new() -> (r: DistinctState)
        ensures
            r.wf(),
            r.view_set() == Set::<RowModel>::empty(),
    {
        let r = DistinctState { seen: Vec::new(), index: index_new() };
        assert(r.view_set() =~= Set::<RowModel>::empty());
        r
    }

    /// Whether a row equal to `row` was seen.
    pub fn contains(&self, row: &Vec<Datum>) -> (r: bool)
        requires
            self.wf(),
        ensures
            r == self.view_set().contains(canon_datums(datums_model(row@))),
    {
        let c = canonical_datums(row.as_slice());
        let hash = hash_key(c.as_slice());
        let found = index_find(&self.index, hash, &self.seen, row.as_slice());
        proof {
            let want = canon_datums(datums_model(row@));
            match found {
                Some(i) => {
                    assert(0 <= i < self.seen@.len() && group_key(self.seen@[i as int]) == want);
                },
                None => {
                    if exists|i: int| 0 <= i < self.seen@.len() && group_key(#[trigger] self.seen@[i]) == want {
                        let i = choose|i: int| 0 <= i < self.seen@.len() && group_key(#[trigger] self.seen@[i]) == want;
                        assert(self.seen@.len() == self.seen.len());
                        let u = i as usize;
                        assert(u as int == i);
                        assert(index_entries(self.index).contains_key(u));
                        assert(index_entries(self.index)[u] == hash);
                        assert(false);
                    }
                },
            }
        }
        found.is_some()
    }

    /// Records `row` as seen.
    pub fn insert(&mut self, row: Vec<Datum>)
        requires
            old(self).wf(),
        ensures
            final(self).wf(),
            final(self).view_set() == old(self).view_set().insert(canon_datums(datums_model(row@))),
    {
        let c = canonical_datums(row.as_slice());
        let hash = hash_key(c.as_slice());
        let ghost r = canon_datums(datums_model(row@));
        let ghost before = self.seen@;
        let idx = self.seen.len();
        self.seen.push(RowContainer { keys: row, states: Vec::new() });
        proof {
            assert(group_key(self.seen@[idx as int]) == r);
            assert forall|k: usize| #[trigger]
                index_entries(self.index).contains_key(k) implies k < self.seen@.len()
                && index_entries(self.index)[k] == key_hash(group_key(self.seen@[k as int])) by {
                assert(self.seen@[k as int] == before[k as int]);
            }
        }
        index_insert(&mut self.index, hash, idx, &self.seen);
        proof {
            assert forall|k: usize| #[trigger]
                index_entries(self.index).contains_key(k) implies index_entries(self.index)[k] == key_hash(
                group_key(self.seen@[k as int]),
            ) by {
                if k != idx {
                    assert(self.seen@[k as int] == before[k as int]);
                }
            }
            assert forall|x: RowModel| #[trigger] self.view_set().contains(x) == old(self).view_set().insert(r).contains(
                x,
            ) by {
                if self.view_set().contains(x) {
                    let i = choose|i: int| 0 <= i < self.seen@.len() && group_key(#[trigger] self.seen@[i]) == x;
                    if i < before.len() {
                        assert(before[i] == self.seen@[i]);
                    }
                }
                if old(self).view_set().contains(x) {
                    let i = choose|i: int| 0 <= i < before.len() && group_key(#[trigger] before[i]) == x;
                    assert(self.seen@[i] == before[i]);
                }
                if x == r {
                    assert(group_key(self.seen@[before.len() as int]) == r);
                }
            }
            assert(self.view_set() =~= old(self).view_set().insert(r));
        }
    }
}

/// `DISTINCT` over one chunk: the visible rows of the group columns that no earlier row equals,
/// which the state then remembers.
pub fn distinct_rows(state: &mut DistinctState, group_columns: &Vec<Vec<Datum>>, vis: &Bits) -> (r: Vec<Vec<Datum>>)
    requires
        old(state).wf(),
        columns_cover(group_columns@, bits(*vis).len() as int),
    ensures
        final(state).wf(),
        r@.map_values(|row: Vec<Datum>| datums_model(row@)) == distinct_step(
            old(state).view_set(),
            visible_rows(group_columns@, bits(*vis)),
        ).0,
        final(state).view_set() == distinct_step(old(state).view_set(), visible_rows(group_columns@, bits(*vis))).1,
{
    let rows = compact_rows(group_columns, vis);
    let ghost all = rows@.map_values(|row: Vec<Datum>| datums_model(row@));
    let ghost start = state.view_set();
    let mut out: Vec<Vec<Datum>> = Vec::new();
    let mut i: usize = 0;
    while i < rows.len()
        invariant
            i <= rows@.len(),
            state.wf(),
            all == rows@.map_values(|row: Vec<Datum>| datums_model(row@)),
            out@.map_values(|row: Vec<Datum>| datums_model(row@)) == distinct_step(start, all.take(i as int)).0,
            state.view_set() == distinct_step(start, all.take(i as int)).1,
        decreases rows@.len() - i,
    {
        proof {
            assert(all.take(i + 1).drop_last() =~= all.take(i as int));
            assert(all.take(i + 1).last() == datums_model(rows@[i as int]@));
        }
        if !state.contains(&rows[i]) {
            let ghost before = out@;
            state.insert(duplicate_datums(rows[i].as_slice()));
            out.push(duplicate_datums(rows[i].as_slice()));
            proof {
                assert(out@.map_values(|row: Vec<Datum>| datums_model(row@)) =~= before.map_values(
                    |row: Vec<Datum>| datums_model(row@),
                ).push(datums_model(rows@[i as int]@)));
            }
        }
        i = i + 1;
    }
    proof {
        assert(all.take(rows@.len() as int) =~= all);
    }
    out
}

/// One output column of a pair of rows.
pub open spec fn pick(left: RowModel, right: RowModel, src: OutputColumnSource) -> Option<ScalarModel> {
    match src {
        OutputColumnSource::Left(i) => if i < left.len() {
            left[i as int]
        } else {
            None
        },
        OutputColumnSource::Right(i) => if i < right.len() {
            right[i as int]
        } else {
            None
        },
    }
}

/// The output row of a pair of rows.
pub open spec fn combine(left: RowModel, right: RowModel, mapping: Seq<OutputColumnSource>) -> RowModel {
    Seq::new(mapping.len(), |c: int| pick(left, right, mapping[c]))
}

/// The cross product: for each left row in order, its pairing with each right row in order.
pub open spec fn product(left: Seq<RowModel>, right: Seq<RowModel>, mapping: Seq<OutputColumnSource>) -> Seq<RowModel>
    decreases left.len(),
{
    if left.len() == 0 {
        Seq::empty()
    } else {
        product(left.drop_last(), right, mapping) + right.map_values(|r: RowModel| combine(left.last(), r, mapping))
    }
}

fn combine_rows(left: &Vec<Datum>, right: &Vec<Datum>, mapping: &[OutputColumnSource]) -> (r: Vec<Datum>)
    ensures
        datums_model(r@) == combine(datums_model(left@), datums_model(right@), mapping@),
{
    let mut out: Vec<Datum> = Vec::new();
    let mut c: usize = 0;
    while c < mapping.len()
        invariant
            c <= mapping@.len(),
            out@.len() == c,
            forall|k: int|
                0 <= k < c ==> datum_model(#[trigger] out@[k]) == pick(datums_model(left@), datums_model(right@), mapping@[k]),
        decreases mapping@.len() - c,
    {
        let v = match mapping[c] {
            OutputColumnSource::Left(i) => if i < left.len() {
                duplicate_datum(&left[i])
            } else {
                None
            },
            OutputColumnSource::Right(i) => if i < right.len() {
                duplicate_datum(&right[i])
            } else {
                None
            },
        };
        out.push(v);
        c = c + 1;
    }
    assert(datums_model(out@) =~= combine(datums_model(left@), datums_model(right@), mapping@));
    out
}

/// The rows of a cross product of `left` and `right`, output columns picked by `mapping`.
pub fn cross_product(left: &Vec<Vec<Datum>>, right: &Vec<Vec<Datum>>, mapping: &[OutputColumnSource]) -> (r: Vec<
    Vec<Datum>,
>)
    ensures
        r@.map_values(|row: Vec<Datum>| datums_model(row@)) == product(
            left@.map_values(|row: Vec<Datum>| datums_model(row@)),
            right@.map_values(|row: Vec<Datum>| datums_model(row@)),
            mapping@,
        ),
{
    let ghost lm = left@.map_values(|row: Vec<Datum>| datums_model(row@));
    let ghost rm = right@.map_values(|row: Vec<Datum>| datums_model(row@));
    let mut out: Vec<Vec<Datum>> = Vec::new();
    let mut i: usize = 0;
    while i < left.len()
        invariant
            i <= left@.len(),
            lm == left@.map_values(|row: Vec<Datum>| datums_model(row@)),
            rm == right@.map_values(|row: Vec<Datum>| datums_model(row@)),
            out@.map_values(|row: Vec<Datum>| datums_model(row@)) == product(lm.take(i as int), rm, mapping@),
        decreases left@.len() - i,
    {
        let ghost base = out@.map_values(|row: Vec<Datum>| datums_model(row@));
        let ghost l = lm[i as int];
        let mut j: usize = 0;
        while j < right.len()
            invariant
                i < left@.len(),
                j <= right@.len(),
                l == datums_model(left@[i as int]@),
                rm == right@.map_values(|row: Vec<Datum>| datums_model(row@)),
                out@.map_values(|row: Vec<Datum>| datums_model(row@)) == base + rm.take(j as int).map_values(
                    |r: RowModel| combine(l, r, mapping@),
                ),
            decreases right@.len() - j,
        {
            let ghost prev = out@;
            let row = combine_rows(&left[i], &right[j], mapping);
            out.push(row);
            proof {
                assert(out@.map_values(|row: Vec<Datum>| datums_model(row@)) =~= prev.map_values(
                    |row: Vec<Datum>| datums_model(row@),
                ).push(combine(l, rm[j as int], mapping@)));
                assert(rm.take(j + 1).map_values(|r: RowModel| combine(l, r, mapping@)) =~= rm.take(j as int).map_values(
                    |r: RowModel| combine(l, r, mapping@),
                ).push(combine(l, rm[j as int], mapping@)));
            }
            j = j + 1;
        }
        proof {
            assert(rm.take(right@.len() as int) =~= rm);
            assert(lm.take(i + 1).drop_last() =~= lm.take(i as int));
            assert(lm.take(i + 1).last() == l);
        }
        i = i + 1;
    }
    proof {
        assert(lm.take(left@.len() as int) =~= lm);
    }
    out
}

/// A list element taken from a column: the value, or the `Unknown` placeholder for `NULL` or a
/// row past the end of the column.
pub open spec fn list_item(col: Seq<Datum>, p: int) -> ScalarModel {
    if p < col.len() {
        match datum_model(col[p]) {
            Some(v) => v,
            None => ScalarModel::Unknown,
        }
    } else {
        ScalarModel::Unknown
    }
}

/// `[e1, e2, ...]` over a chunk: for each visible row, the list of the element columns' values
/// at that row.
pub fn create_list_batch(elements: &Vec<Vec<Datum>>, vis: &Bits) -> (r: Vec<Datum>)
    ensures
        r@.len() == ones(bits(*vis)).len(),
        forall|k: int|
            0 <= k < r@.len() ==> datum_model(#[trigger] r@[k]) == Some(
                ScalarModel::List(Seq::new(elements@.len(), |e: int| list_item(elements@[e]@, ones(bits(*vis))[k]))),
            ),
{
    let positions = vis.iter_ones();
    let mut out: Vec<Datum> = Vec::new();
    let mut k: usize = 0;
    while k < positions.len()
        invariant
            k <= positions@.len(),
            positions@.map_values(|p: usize| p as int) == ones(bits(*vis)),
            out@.len() == k,
            forall|m: int|
                0 <= m < k ==> datum_model(#[trigger] out@[m]) == Some(
                    ScalarModel::List(Seq::new(elements@.len(), |e: int| list_item(elements@[e]@, ones(bits(*vis))[m]))),
                ),
        decreases positions@.len() - k,
    {
        let p = positions[k];
        proof {
            assert(positions@.map_values(|q: usize| q as int)[k as int] == p as int);
        }
        let mut items: Vec<ScalarValue> = Vec::new();
        let mut e: usize = 0;
        while e < elements.len()
            invariant
                e <= elements@.len(),
                items@.len() == e,
                forall|m: int| 0 <= m < e ==> (#[trigger] items@[m])@ == list_item(elements@[m]@, p as int),
            decreases elements@.len() - e,
        {
            let item = if p < elements[e].len() {
                match &elements[e][p] {
                    Some(v) => v.duplicate(),
                    None => ScalarValue::Unknown,
                }
            } else {
                ScalarValue::Unknown
            };
            items.push(item);
            e = e + 1;
        }
        proof {
            lemma_items_model(items@);
            assert(items_model(items@) =~= Seq::new(elements@.len(), |m: int| list_item(elements@[m]@, p as int)));
        }
        out.push(Some(ScalarValue::List(items)));
        k = k + 1;
    }
    out
}

/// `DISTINCT` lets each row value through at most once: no two rows let through are equal, none
/// of them equals a row seen before, and afterwards exactly the rows seen before and the rows fed
/// count as seen.
pub proof fn law_distinct_emits_each_row_once(seen: Set<RowModel>, rows: Seq<RowModel>)
    ensures
        forall|i: int, j: int|
            0 <= i < j < distinct_step(seen, rows).0.len() ==> canon_datums(#[trigger] distinct_step(seen, rows).0[i])
                != canon_datums(#[trigger] distinct_step(seen, rows).0[j]),
        forall|i: int|
            0 <= i < distinct_step(seen, rows).0.len() ==> !seen.contains(
                canon_datums(#[trigger] distinct_step(seen, rows).0[i]),
            ),
        distinct_step(seen, rows).1 == seen + rows.map_values(|r: RowModel| canon_datums(r)).to_set(),
    decreases rows.len(),
{
    let cm = rows.map_values(|r: RowModel| canon_datums(r));
    if rows.len() > 0 {
        let d = rows.drop_last();
        let last = rows.last();
        let cl = canon_datums(last);
        law_distinct_emits_each_row_once(seen, d);
        let (out, s) = distinct_step(seen, d);
        let cd = d.map_values(|r: RowModel| canon_datums(r));
        assert(cm =~= cd.push(cl));
        assert(cd.to_set().insert(cl) =~= cm.to_set()) by {
            cd.lemma_push_to_set_commute(cl);
        }
        if !s.contains(cl) {
            let out2 = out.push(last);
            assert forall|i: int| 0 <= i < out.len() implies canon_datums(#[trigger] out[i]) != cl by {
                assert(s.contains(canon_datums(out[i]))) by {
                    lemma_distinct_outputs_seen(seen, d, i);
                }
            }
            assert forall|i: int, j: int| 0 <= i < j < out2.len() implies canon_datums(#[trigger] out2[i])
                != canon_datums(#[trigger] out2[j]) by {
                if j == out.len() {
                    assert(out2[i] == out[i]);
                } else {
                    assert(out2[i] == out[i] && out2[j] == out[j]);
                }
            }
            assert forall|i: int| 0 <= i < out2.len() implies !seen.contains(canon_datums(#[trigger] out2[i])) by {
                if i < out.len() {
                    assert(out2[i] == out[i]);
                } else {
                    assert(out2[i] == last);
                    assert(seen.subset_of(s));
                }
            }
        }
        assert((seen + cd.to_set()).insert(cl) =~= seen + cm.to_set());
    } else {
        assert(cm.to_set() =~= Set::<RowModel>::empty());
        assert(seen + cm.to_set() =~= seen);
    }
}

proof fn lemma_distinct_outputs_seen(seen: Set<RowModel>, rows: Seq<RowModel>, i: int)
    requires
        0 <= i < distinct_step(seen, rows).0.len(),
    ensures
        distinct_step(seen, rows).1.contains(canon_datums(distinct_step(seen, rows).0[i])),
    decreases rows.len(),
{
    if rows.len() > 0 {
        let d = rows.drop_last();
        let (out, s) = distinct_step(seen, d);
        if i < out.len() {
            lemma_distinct_outputs_seen(seen, d, i);
        }
    }
}

/// A cross product has one row per pair of a left row and a right row.
pub proof fn law_product_size(left: Seq<RowModel>, right: Seq<RowModel>, mapping: Seq<OutputColumnSource>)
    ensures
        product(left, right, mapping).len() == left.len() * right.len(),
    decreases left.len(),
{
    if left.len() > 0 {
        law_product_size(left.drop_last(), right, mapping);
        assert(left.len() * right.len() == (left.len() - 1) * right.len() + right.len()) by (nonlinear_arith);
    }
}

} // verus!
