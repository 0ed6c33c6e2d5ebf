//! List functions: `list_index(list, i)` and `list_slice(list, start, end)`.
//! Negative positions count from the end of the list (`-1` is the last element).
use vstd::prelude::*;

use crate::bits::{bits, Bits};
use crate::execution::error::EvalError;
use crate::scalar::{datum_model, duplicate_items, items_model, lemma_items_model, Datum, ScalarModel, ScalarValue};

verus! {

/// The position that index `idx` designates in a list of `len` elements, if it is in bounds.
pub open spec fn resolve_index(len: int, idx: int) -> Option<int> {
    let actual = if idx < 0 { len + idx } else { idx };
    if 0 <= actual < len {
        Some(actual)
    } else {
        None
    }
}

/// A slice bound clamped to `0..=len`, negative bounds counting from the end.
pub open spec fn clamp_bound(len: int, b: int) -> int {
    if b < 0 {
        if len + b < 0 { 0 } else { len + b }
    } else {
        if b < len { b } else { len }
    }
}

/// The elements of a list of length `len` that a slice from `start` to `end` keeps.
pub open spec fn slice_range(len: int, start: int, end: int) -> (int, int) {
    let s = clamp_bound(len, start);
    let e = clamp_bound(len, end);
    if s >= e {
        (0, 0)
    } else {
        (s, e)
    }
}

fn list_len_i64(items: &Vec<ScalarValue>) -> (r: i64)
    requires
        items@.len() <= i64::MAX,
    ensures
        r as int == items@.len(),
{
    items.len() as i64
}

/// The element at index `idx`, or `None` when the index is out of bounds.
pub fn list_index(items: &Vec<ScalarValue>, idx: i64) -> (r: Option<ScalarValue>)
    requires
        items@.len() <= i64::MAX,
    ensures
        match resolve_index(items@.len() as int, idx as int) {
            Some(p) => r matches Some(v) && v@ == items@[p]@,
            None => r is None,
        },
{
    let len = list_len_i64(items);
    let actual = if idx < 0 { len + idx } else { idx };
    if actual < 0 || actual >= len {
        None
    } else {
        let n = items.len();
        assert(len as int == n as int);
        let pos = actual as usize;
        assert(pos as int == actual as int);
        Some(items[pos].duplicate())
    }
}

/// The elements from `start` (inclusive) to `end` (exclusive); a missing bound defaults to the
/// start or the end of the list.
pub fn list_slice(items: &Vec<ScalarValue>, start: Option<i64>, end: Option<i64>) -> (r: Vec<ScalarValue>)
    requires
        items@.len() <= i64::MAX,
    ensures
        ({
            let len = items@.len() as int;
            let s = match start { Some(x) => x as int, None => 0 };
            let e = match end { Some(x) => x as int, None => len };
            let (a, b) = slice_range(len, s, e);
            items_model(r@) == items_model(items@.subrange(a, b))
        }),
{
    let len = list_len_i64(items);
    let start = match start {
        Some(s) => s,
        None => 0,
    };
    let end = match end {
        Some(e) => e,
        None => len,
    };
    let actual_start = if start < 0 {
        if len + start < 0 { 0 } else { len + start }
    } else {
        if start < len { start } else { len }
    };
    let actual_end = if end < 0 {
        if len + end < 0 { 0 } else { len + end }
    } else {
        if end < len { end } else { len }
    };
    let mut out: Vec<ScalarValue> = Vec::new();
    if actual_start < actual_end {
        assert(0 <= actual_start && actual_end <= len);
        let n = items.len();
        assert(len as int == n as int);
        let mut i = actual_start as usize;
        let stop = actual_end as usize;
        assert(i as int == actual_start as int && stop as int == actual_end as int);
        while i < stop
            invariant
                actual_start as int <= i as int <= stop as int,
                stop as int == actual_end as int,
                stop <= items@.len(),
                out@.len() == i - actual_start,
                forall|j: int| 0 <= j < out@.len() ==> (#[trigger] out@[j])@ == items@[actual_start as int + j]@,
            decreases stop - i,
        {
            out.push(items[i].duplicate());
            i = i + 1;
        }
    }
    proof {
        let (a, b) = slice_range(len as int, start as int, end as int);
        assert(a == (if actual_start < actual_end { actual_start as int } else { 0 }));
        assert(b == (if actual_start < actual_end { actual_end as int } else { 0 }));
        let sub = items@.subrange(a, b);
        lemma_items_model(out@);
        lemma_items_model(sub);
        assert(items_model(out@) =~= items_model(sub));
    }
    out
}


/// What `list_index` gives on one row: `Ok(value)` or `Err(())` for a type error. An invisible row
/// or a missing argument gives `NULL`.
pub open spec fn list_index_row(visible: bool, list: Option<ScalarModel>, idx: Option<ScalarModel>) -> Result<
    Option<ScalarModel>,
    (),
> {
    if !visible || list is None || idx is None {
        Ok(None)
    } else {
        match (list->0, idx->0) {
            (ScalarModel::List(items), ScalarModel::Integer(i)) => Ok(
                match resolve_index(items.len() as int, i as int) {
                    Some(p) => Some(items[p]),
                    None => None,
                },
            ),
            _ => Err(()),
        }
    }
}

/// What `list_slice` gives on one row. A missing or `Unknown` bound takes its default.
pub open spec fn list_slice_row(visible: bool, list: Option<ScalarModel>, start: Option<ScalarModel>, end: Option<
    ScalarModel,
>) -> Result<Option<ScalarModel>, ()> {
    if !visible || list is None {
        Ok(None)
    } else {
        match list->0 {
            ScalarModel::List(items) => {
                let len = items.len() as int;
                match (bound_of(start, 0), bound_of(end, len)) {
                    (Some(s), Some(e)) => {
                        let (a, b) = slice_range(len, s, e);
                        Ok(Some(ScalarModel::List(items.subrange(a, b))))
                    },
                    _ => Err(()),
                }
            },
            _ => Err(()),
        }
    }
}

/// The value of a slice bound: its integer, `default` when it is missing or `Unknown`, `None` when it
/// is of another type.
pub open spec fn bound_of(b: Option<ScalarModel>, default: int) -> Option<int> {
    match b {
        None => Some(default),
        Some(ScalarModel::Unknown) => Some(default),
        Some(ScalarModel::Integer(i)) => Some(i as int),
        _ => None,
    }
}


pub open spec fn lists_bounded(col: Seq<Datum>) -> bool {
    forall|i: int|
        0 <= i < col.len() ==> (#[trigger] col[i] matches Some(ScalarValue::List(items)) ==> items@.len()
            <= i64::MAX)
}

/// `list_index` over the first `len` rows of the columns `lists` and `indexes`.
pub fn list_index_batch(lists: &[Datum], indexes: &[Datum], vis: &Bits, len: usize) -> (r: Result<
    Vec<Datum>,
    EvalError,
>)
    requires
        lists@.len() >= len,
        indexes@.len() >= len,
        bits(*vis).len() >= len,
        lists_bounded(lists@),
    ensures
        match r {
            Ok(out) => {
                &&& out@.len() == len
                &&& forall|i: int|
                    0 <= i < len ==> list_index_row(bits(*vis)[i], datum_model(lists@[i]), datum_model(indexes@[i]))
                        == Ok::<Option<ScalarModel>, ()>(datum_model(#[trigger] out@[i]))
            },
            Err(e) => e is TypeError && exists|i: int|
                0 <= i < len && #[trigger] list_index_row(bits(*vis)[i], datum_model(lists@[i]), datum_model(indexes@[i]))
                    is Err,
        },
{
    let flags = vis.to_bools();
    let mut out: Vec<Datum> = Vec::new();
    let mut i: usize = 0;
    while i < len
        invariant
            i <= len,
            flags@ == bits(*vis),
            lists@.len() >= len,
            indexes@.len() >= len,
            bits(*vis).len() >= len,
            lists_bounded(lists@),
            out@.len() == i,
            forall|j: int|
                0 <= j < i ==> list_index_row(bits(*vis)[j], datum_model(lists@[j]), datum_model(indexes@[j]))
                    == Ok::<Option<ScalarModel>, ()>(datum_model(#[trigger] out@[j])),
        decreases len - i,
    {
        let ghost row = list_index_row(bits(*vis)[i as int], datum_model(lists@[i as int]), datum_model(indexes@[i as int]));
        if !flags[i] {
            out.push(None);
        } else {
            match (&lists[i], &indexes[i]) {
                (Some(list), Some(idx)) => {
                    let items = match list {
                        ScalarValue::List(items) => items,
                        _ => {
                            assert(row is Err);
                            return Err(EvalError::type_error("expected list value"));
                        },
                    };
                    let k = match idx {
                        ScalarValue::Integer(k) => *k,
                        _ => {
                            assert(row is Err);
                            return Err(EvalError::type_error("list index must be integer"));
                        },
                    };
                    assert(lists@[i as int] matches Some(ScalarValue::List(its)) && its@.len() <= i64::MAX);
                    proof {
                        lemma_items_model(items@);
                    }
                    let v = list_index(items, k);
                    out.push(v);
                },
                _ => {
                    out.push(None);
                },
            }
        }
        i = i + 1;
    }
    Ok(out)
}

/// `list_slice` over the first `len` rows of the columns `lists`, `starts` and `ends`.
pub fn list_slice_batch(lists: &[Datum], starts: &[Datum], ends: &[Datum], vis: &Bits, len: usize) -> (r: Result<
    Vec<Datum>,
    EvalError,
>)
    requires
        lists@.len() >= len,
        starts@.len() >= len,
        ends@.len() >= len,
        bits(*vis).len() >= len,
        lists_bounded(lists@),
    ensures
        match r {
            Ok(out) => {
                &&& out@.len() == len
                &&& forall|i: int|
                    0 <= i < len ==> list_slice_row(
                        bits(*vis)[i],
                        datum_model(lists@[i]),
                        datum_model(starts@[i]),
                        datum_model(ends@[i]),
                    ) == Ok::<Option<ScalarModel>, ()>(datum_model(#[trigger] out@[i]))
            },
            Err(e) => e is TypeError && exists|i: int|
                0 <= i < len && #[trigger] list_slice_row(
                    bits(*vis)[i],
                    datum_model(lists@[i]),
                    datum_model(starts@[i]),
                    datum_model(ends@[i]),
                ) is Err,
        },
{
    let flags = vis.to_bools();
    let mut out: Vec<Datum> = Vec::new();
    let mut i: usize = 0;
    while i < len
        invariant
            i <= len,
            flags@ == bits(*vis),
            lists@.len() >= len,
            starts@.len() >= len,
            ends@.len() >= len,
            bits(*vis).len() >= len,
            lists_bounded(lists@),
            out@.len() == i,
            forall|j: int|
                0 <= j < i ==> list_slice_row(
                    bits(*vis)[j],
                    datum_model(lists@[j]),
                    datum_model(starts@[j]),
                    datum_model(ends@[j]),
                ) == Ok::<Option<ScalarModel>, ()>(datum_model(#[trigger] out@[j])),
        decreases len - i,
    {
        let ghost row = list_slice_row(
            bits(*vis)[i as int],
            datum_model(lists@[i as int]),
            datum_model(starts@[i as int]),
            datum_model(ends@[i as int]),
        );
        if !flags[i] {
            out.push(None);
        } else {
            match &lists[i] {
                None => out.push(None),
                Some(list) => {
                    let items = match list {
                        ScalarValue::List(items) => items,
                        _ => {
                            assert(row is Err);
                            return Err(EvalError::type_error("expected list value"));
                        },
                    };
                    assert(lists@[i as int] matches Some(ScalarValue::List(its)) && its@.len() <= i64::MAX);
                    proof {
                        lemma_items_model(items@);
                    }
                    let start = match &starts[i] {
                        None => None,
                        Some(ScalarValue::Unknown) => None,
                        Some(ScalarValue::Integer(s)) => Some(*s),
                        Some(_) => {
                            assert(row is Err);
                            return Err(EvalError::type_error("list slice start must be integer"));
                        },
                    };
                    let end = match &ends[i] {
                        None => None,
                        Some(ScalarValue::Unknown) => None,
                        Some(ScalarValue::Integer(e)) => Some(*e),
                        Some(_) => {
                            assert(row is Err);
                            return Err(EvalError::type_error("list slice end must be integer"));
                        },
                    };
                    let sliced = list_slice(items, start, end);
                    proof {
                        let ln = items@.len() as int;
                        let (a, b) = slice_range(
                            ln,
                            match start { Some(x) => x as int, None => 0 },
                            match end { Some(x) => x as int, None => ln },
                        );
                        assert(items_model(items@.subrange(a, b)) =~= items_model(items@).subrange(a, b)) by {
                            lemma_items_model(items@.subrange(a, b));
                        }
                    }
                    out.push(Some(ScalarValue::List(sliced)));
                },
            }
        }
        i = i + 1;
    }
    Ok(out)
}

/// Index `-k` designates the `k`-th element from the end, the same element as index `len - k`.
pub proof fn law_negative_index(len: int, k: int)
    requires
        0 < k <= len,
    ensures
        resolve_index(len, -k) == Some(len - k),
        resolve_index(len, len - k) == Some(len - k),
{
}

/// A slice stays within the list, and slicing from the start to the end keeps the whole list.
pub proof fn law_slice_bounds(len: int, start: int, end: int)
    requires
        len >= 0,
    ensures
        0 <= slice_range(len, start, end).0 <= slice_range(len, start, end).1 <= len,
        len > 0 ==> slice_range(len, 0, len) == (0int, len),
{
}

} // verus!
