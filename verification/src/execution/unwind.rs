//! `UNWIND list AS x`: one output row per element of the list.
use vstd::prelude::*;

use crate::scalar::{datum_model, datums_model, duplicate_datums, items_model, lemma_items_model, Datum, ScalarModel, ScalarValue};

verus! {

/// The values that unwinding `d` binds: the elements of a list (none for an empty list), and a
/// single `NULL` for `NULL` or a value that is not a list.
pub open spec fn unwound(d: Option<ScalarModel>) -> Seq<Option<ScalarModel>> {
    match d {
        Some(ScalarModel::List(items)) => items.map_values(|x: ScalarModel| Some(x)),
        _ => seq![None],
    }
}

/// The output rows of unwinding: for each input row in order, the row extended with each value
/// that its list binds.
pub open spec fn unwound_rows(rows: Seq<Seq<Option<ScalarModel>>>, lists: Seq<Option<ScalarModel>>) -> Seq<
    Seq<Option<ScalarModel>>,
>
    decreases rows.len(),
{
    if rows.len() == 0 || lists.len() == 0 {
        Seq::empty()
    } else {
        unwound_rows(rows.drop_last(), lists.drop_last()) + unwound(lists[rows.len() - 1]).map_values(
            |v: Option<ScalarModel>| rows.last().push(v),
        )
    }
}

/// The values bound by unwinding `d`.
pub fn unwind_values(d: &Datum) -> (r: Vec<Datum>)
    ensures
        r@.map_values(|x: Datum| datum_model(x)) == unwound(datum_model(*d)),
{
    let mut out: Vec<Datum> = Vec::new();
    match d {
        Some(ScalarValue::List(items)) => {
            proof {
                lemma_items_model(items@);
            }
            let mut i: usize = 0;
            while i < items.len()
                invariant
                    i <= items.len(),
                    out@.len() == i,
                    items_model(items@).len() == items@.len(),
                    forall|k: int| 0 <= k < items@.len() ==> #[trigger] items_model(items@)[k] == items@[k]@,
                    forall|j: int| 0 <= j < i ==> datum_model(#[trigger] out@[j]) == Some(items@[j]@),
                decreases items.len() - i,
            {
                out.push(Some(items[i].duplicate()));
                i = i + 1;
            }
            assert(out@.map_values(|x: Datum| datum_model(x)) =~= unwound(datum_model(*d)));
        },
        _ => {
            out.push(None);
            assert(out@.map_values(|x: Datum| datum_model(x)) =~= unwound(datum_model(*d)));
        },
    }
    out
}

/// Unwinds `lists[i]` against `rows[i]` for each row, in order.
pub fn unwind_rows(rows: &Vec<Vec<Datum>>, lists: &Vec<Datum>) -> (r: Vec<Vec<Datum>>)
    requires
        rows@.len() == lists@.len(),
    ensures
        r@.map_values(|row: Vec<Datum>| datums_model(row@)) == unwound_rows(
            rows@.map_values(|row: Vec<Datum>| datums_model(row@)),
            datums_model(lists@),
        ),
{
    let ghost rv = rows@.map_values(|row: Vec<Datum>| datums_model(row@));
    let ghost lv = datums_model(lists@);
    let mut out: Vec<Vec<Datum>> = Vec::new();
    let mut i: usize = 0;
    while i < rows.len()
        invariant
            i <= rows.len(),
            rows@.len() == lists@.len(),
            rv == rows@.map_values(|row: Vec<Datum>| datums_model(row@)),
            lv == datums_model(lists@),
            out@.map_values(|row: Vec<Datum>| datums_model(row@)) == unwound_rows(rv.take(i as int), lv.take(i as int)),
        decreases rows.len() - i,
    {
        let values = unwind_values(&lists[i]);
        let ghost before = out@.map_values(|row: Vec<Datum>| datums_model(row@));
        let ghost vals = values@.map_values(|x: Datum| datum_model(x));
        let mut j: usize = 0;
        while j < values.len()
            invariant
                j <= values.len(),
                i < rows.len(),
                vals == values@.map_values(|x: Datum| datum_model(x)),
                out@.map_values(|row: Vec<Datum>| datums_model(row@)) == before + vals.take(j as int).map_values(
                    |v: Option<ScalarModel>| datums_model(rows@[i as int]@).push(v),
                ),
            decreases values.len() - j,
        {
            let mut row = duplicate_datums(rows[i].as_slice());
            let v = match &values[j] {
                Some(x) => Some(x.duplicate()),
                None => None,
            };
            row.push(v);
            let ghost prev = out@;
            let ghost new_row = datums_model(row@);
            proof {
                assert(new_row =~= datums_model(rows@[i as int]@).push(vals[j as int]));
            }
            out.push(row);
            proof {
                assert(out@.map_values(|row: Vec<Datum>| datums_model(row@)) =~= prev.map_values(
                    |row: Vec<Datum>| datums_model(row@),
                ).push(new_row));
                assert(vals.take(j + 1) =~= vals.take(j as int).push(vals[j as int]));
                assert(out@.map_values(|row: Vec<Datum>| datums_model(row@)) =~= before + vals.take(j + 1).map_values(
                    |v: Option<ScalarModel>| datums_model(rows@[i as int]@).push(v),
                ));
            }
            j = j + 1;
        }
        proof {
            assert(vals.take(values@.len() as int) =~= vals);
            assert(rv.take(i + 1).drop_last() =~= rv.take(i as int));
            assert(lv.take(i + 1).drop_last() =~= lv.take(i as int));
            assert(rv.take(i + 1).last() == datums_model(rows@[i as int]@));
            assert(lv.take(i + 1)[i as int] == datum_model(lists@[i as int]));
        }
        i = i + 1;
    }
    proof {
        assert(rv.take(rows@.len() as int) =~= rv);
        assert(lv.take(rows@.len() as int) =~= lv);
    }
    out
}

} // verus!
