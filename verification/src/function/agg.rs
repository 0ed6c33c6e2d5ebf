//! Aggregate functions: `count(expr)`, `count(*)`, `sum(expr)` and `collect(expr)`.
//!
//! `count(expr)` and `collect(expr)` ignore nulls (a missing value or the `Unknown` placeholder),
//! `count(*)` counts every row and `sum(expr)` ignores missing values.
use vstd::prelude::*;

use crate::execution::error::EvalError;
use crate::scalar::{datum_model, datums_model, decimal, integer_text, items_model, lemma_items_model, Datum, ScalarModel, ScalarValue};

verus! {

#[derive(Debug, Clone, Copy, PartialEq, Eq, Structural)]
pub enum AggFunctionKind {
    Count,
    CountStar,
    Sum,
    Collect,
}

pub struct CountState {
    pub count: i64,
}

impl CountState {
    pub fn new() -> (r: CountState)
        ensures
            r.count == 0,
    {
        CountState { count: 0 }
    }
}

pub struct SumState {
    pub acc: ScalarValue,
}

impl SumState {
    pub fn new() -> (r: SumState)
        ensures
            r.acc == ScalarValue::Integer(0),
    {
        SumState { acc: ScalarValue::Integer(0) }
    }
}

pub struct CollectState {
    pub values: Vec<ScalarValue>,
}

impl CollectState {
    pub fn new() -> (r: CollectState)
        ensures
            r.values@ == Seq::<ScalarValue>::empty(),
    {
        CollectState { values: Vec::new() }
    }
}

/// The running state of one aggregate over one group.
pub enum AggFunctionState {
    Count(CountState),
    Sum(SumState),
    Collect(CollectState),
}

/// One operand of a floating point addition left to the caller: an integer, or the bits of a float.
#[derive(Debug, Clone, Copy, PartialEq, Eq, Structural)]
pub enum NumberBits {
    Integer(i64),
    Float(u64),
}

/// What an update asks of its caller.
#[derive(Debug, Clone, Copy, PartialEq, Eq, Structural)]
pub enum AggUpdate {
    /// The state is up to date.
    Done,
    /// A sum met a float: the caller adds the two operands as floats and stores the result with
    /// `finish_float_sum`.
    FloatSum { acc: NumberBits, value: NumberBits },
}

/// Whether a value is ignored by `count(expr)` and `collect(expr)`.
pub open spec fn is_null(d: Option<ScalarModel>) -> bool {
    d is None || d == Some(ScalarModel::Unknown)
}

pub open spec fn state_matches(kind: AggFunctionKind, state: AggFunctionState) -> bool {
    match kind {
        AggFunctionKind::Count | AggFunctionKind::CountStar => state is Count,
        AggFunctionKind::Sum => state is Sum,
        AggFunctionKind::Collect => state is Collect,
    }
}

pub open spec fn is_type_error(e: EvalError) -> bool {
    e is TypeError
}

/// The new accumulator of a sum of two integers, or `None` when the sum does not fit in an `i64`.
pub open spec fn int_sum(a: i64, b: i64) -> Option<i64> {
    if i64::MIN <= a + b <= i64::MAX {
        Some((a + b) as i64)
    } else {
        None
    }
}

impl AggFunctionKind {
    pub fn create_state(&self) -> (r: AggFunctionState)
        ensures
            state_matches(*self, r),
            r matches AggFunctionState::Count(c) ==> c.count == 0,
            r matches AggFunctionState::Sum(s) ==> s.acc == ScalarValue::Integer(0),
            r matches AggFunctionState::Collect(c) ==> c.values@.len() == 0,
    {
        match self {
            AggFunctionKind::Count | AggFunctionKind::CountStar => AggFunctionState::Count(CountState::new()),
            AggFunctionKind::Sum => AggFunctionState::Sum(SumState::new()),
            AggFunctionKind::Collect => AggFunctionState::Collect(CollectState::new()),
        }
    }

    /// Accumulates one row of arguments into `state`.
    pub fn update_state(&self, state: &mut AggFunctionState, row: &[Datum]) -> (r: Result<AggUpdate, EvalError>)
        requires
            *self != AggFunctionKind::CountStar ==> row@.len() == 1,
            *old(state) matches AggFunctionState::Count(c) ==> c.count < i64::MAX,
        ensures
            agg_updated(*self, datums_model(row@), *old(state), r, *final(state)),
    {
        match self {
            AggFunctionKind::Count => {
                match &row[0] {
                    None => return Ok(AggUpdate::Done),
                    Some(ScalarValue::Unknown) => return Ok(AggUpdate::Done),
                    _ => {},
                }
                match state {
                    AggFunctionState::Count(c) => {
                        c.count = c.count + 1;
                        Ok(AggUpdate::Done)
                    },
                    _ => Err(EvalError::type_error("count state type mismatch")),
                }
            },
            AggFunctionKind::CountStar => {
                match state {
                    AggFunctionState::Count(c) => {
                        c.count = c.count + 1;
                        Ok(AggUpdate::Done)
                    },
                    _ => Err(EvalError::type_error("count state type mismatch")),
                }
            },
            AggFunctionKind::Collect => {
                let value = match &row[0] {
                    None => return Ok(AggUpdate::Done),
                    Some(ScalarValue::Unknown) => return Ok(AggUpdate::Done),
                    Some(v) => v,
                };
                match state {
                    AggFunctionState::Collect(c) => {
                        let ghost before = c.values@;
                        c.values.push(value.duplicate());
                        proof {
                            lemma_items_model(before);
                            lemma_items_model(c.values@);
                            assert(items_model(c.values@) =~= items_model(before).push(value@));
                        }
                        Ok(AggUpdate::Done)
                    },
                    _ => Err(EvalError::type_error("collect state type mismatch")),
                }
            },
            AggFunctionKind::Sum => {
                let value = match &row[0] {
                    None => return Ok(AggUpdate::Done),
                    Some(v) => v,
                };
                match state {
                    AggFunctionState::Sum(s) => {
                        let mut acc = ScalarValue::Unknown;
                        std::mem::swap(&mut acc, &mut s.acc);
                        match (acc, value) {
                            (ScalarValue::Integer(a), ScalarValue::Integer(b)) => {
                                match a.checked_add(*b) {
                                    Some(total) => {
                                        s.acc = ScalarValue::Integer(total);
                                        Ok(AggUpdate::Done)
                                    },
                                    None => {
                                        let mut args: Vec<String> = Vec::new();
                                        args.push(integer_text(a));
                                        args.push(integer_text(*b));
                                        Err(EvalError::arithmetic_overflow("sum", args))
                                    },
                                }
                            },
                            (ScalarValue::Integer(a), ScalarValue::Float(b)) => Ok(
                                AggUpdate::FloatSum { acc: NumberBits::Integer(a), value: NumberBits::Float(*b) },
                            ),
                            (ScalarValue::Float(a), ScalarValue::Float(b)) => Ok(
                                AggUpdate::FloatSum { acc: NumberBits::Float(a), value: NumberBits::Float(*b) },
                            ),
                            (ScalarValue::Float(a), ScalarValue::Integer(b)) => Ok(
                                AggUpdate::FloatSum { acc: NumberBits::Float(a), value: NumberBits::Integer(*b) },
                            ),
                            _ => Err(EvalError::type_error("sum state type mismatch")),
                        }
                    },
                    _ => Err(EvalError::type_error("sum state type mismatch")),
                }
            },
        }
    }

    /// The result of the aggregate. `collect` hands its values over and is left empty.
    pub fn extract_value(&self, state: &mut AggFunctionState) -> (r: Datum)
        requires
            state_matches(*self, *old(state)),
        ensures
            match *old(state) {
                AggFunctionState::Count(c) => r == Some(ScalarValue::Integer(c.count)) && *final(state) == *old(state),
                AggFunctionState::Sum(s) => r matches Some(v) && v@ == s.acc@ && *final(state) == *old(state),
                AggFunctionState::Collect(c) => r == Some(ScalarValue::List(c.values)) && (*final(state)) is Collect
                    && (*final(state))->Collect_0.values@.len() == 0,
            },
    {
        match state {
            AggFunctionState::Count(c) => Some(ScalarValue::Integer(c.count)),
            AggFunctionState::Sum(s) => Some(s.acc.duplicate()),
            AggFunctionState::Collect(c) => {
                let mut values: Vec<ScalarValue> = Vec::new();
                std::mem::swap(&mut values, &mut c.values);
                Some(ScalarValue::List(values))
            },
        }
    }
}

/// What updating `before` with the arguments `row` gives: the result `r` and the new state `after`.
pub open spec fn agg_updated(
    kind: AggFunctionKind,
    row: Seq<Option<ScalarModel>>,
    before: AggFunctionState,
    r: Result<AggUpdate, EvalError>,
    after: AggFunctionState,
) -> bool {
    match kind {
        AggFunctionKind::Count => if is_null(row[0]) {
            r == Ok::<AggUpdate, EvalError>(AggUpdate::Done) && after == before
        } else {
            match before {
                AggFunctionState::Count(c) => r == Ok::<AggUpdate, EvalError>(AggUpdate::Done)
                    && after == AggFunctionState::Count(CountState { count: (c.count + 1) as i64 }),
                _ => r matches Err(e) && is_type_error(e) && after == before,
            }
        },
        AggFunctionKind::CountStar => match before {
            AggFunctionState::Count(c) => r == Ok::<AggUpdate, EvalError>(AggUpdate::Done)
                && after == AggFunctionState::Count(CountState { count: (c.count + 1) as i64 }),
            _ => r matches Err(e) && is_type_error(e) && after == before,
        },
        AggFunctionKind::Collect => if is_null(row[0]) {
            r == Ok::<AggUpdate, EvalError>(AggUpdate::Done) && after == before
        } else {
            match before {
                AggFunctionState::Collect(c) => r == Ok::<AggUpdate, EvalError>(AggUpdate::Done)
                    && after is Collect
                    && items_model(after->Collect_0.values@) == items_model(c.values@).push(
                    row[0]->0,
                ),
                _ => r matches Err(e) && is_type_error(e) && after == before,
            }
        },
        AggFunctionKind::Sum => match row[0] {
            None => r == Ok::<AggUpdate, EvalError>(AggUpdate::Done) && after == before,
            Some(v) => match before {
                AggFunctionState::Sum(s) => sum_updated(s.acc@, v, r, after),
                _ => r matches Err(e) && is_type_error(e) && after == before,
            },
        },
    }
}

/// An update keeps a state of the kind its aggregate expects.
pub proof fn lemma_update_keeps_kind(
    kind: AggFunctionKind,
    row: Seq<Option<ScalarModel>>,
    before: AggFunctionState,
    r: Result<AggUpdate, EvalError>,
    after: AggFunctionState,
)
    requires
        state_matches(kind, before),
        agg_updated(kind, row, before, r, after),
    ensures
        state_matches(kind, after),
{
}


/// What updating a sum whose accumulator is `acc` with the value `v` gives: the new accumulator,
/// a float addition left to the caller, or an error. On an error the accumulator is reset to
/// `Unknown`.
pub open spec fn sum_updated(acc: ScalarModel, v: ScalarModel, r: Result<AggUpdate, EvalError>, after: AggFunctionState) -> bool {
    match (acc, v) {
        (ScalarModel::Integer(a), ScalarModel::Integer(b)) => match int_sum(a, b) {
            Some(t) => r == Ok::<AggUpdate, EvalError>(AggUpdate::Done) && after == AggFunctionState::Sum(SumState { acc: ScalarValue::Integer(t) }),
            None => r matches Err(EvalError::ArithmeticOverflow { op, args }) && op@ == "sum"@ && args@.len() == 2
                && args@[0]@ == decimal(a as int) && args@[1]@ == decimal(b as int)
                && after == AggFunctionState::Sum(SumState { acc: ScalarValue::Unknown }),
        },
        (ScalarModel::Integer(a), ScalarModel::Float(b)) => r == Ok::<AggUpdate, EvalError>(AggUpdate::FloatSum { acc: NumberBits::Integer(a), value: NumberBits::Float(b) })
            && after == AggFunctionState::Sum(SumState { acc: ScalarValue::Unknown }),
        (ScalarModel::Float(a), ScalarModel::Float(b)) => r == Ok::<AggUpdate, EvalError>(AggUpdate::FloatSum { acc: NumberBits::Float(a), value: NumberBits::Float(b) })
            && after == AggFunctionState::Sum(SumState { acc: ScalarValue::Unknown }),
        (ScalarModel::Float(a), ScalarModel::Integer(b)) => r == Ok::<AggUpdate, EvalError>(AggUpdate::FloatSum { acc: NumberBits::Float(a), value: NumberBits::Integer(b) })
            && after == AggFunctionState::Sum(SumState { acc: ScalarValue::Unknown }),
        _ => r matches Err(e) && is_type_error(e) && after == AggFunctionState::Sum(SumState { acc: ScalarValue::Unknown }),
    }
}

/// Stores the float sum that an `AggUpdate::FloatSum` asked for.
pub fn finish_float_sum(state: &mut AggFunctionState, bits: u64)
    requires
        (*old(state)) is Sum,
    ensures
        *final(state) == AggFunctionState::Sum(SumState { acc: ScalarValue::Float(bits) }),
{
    match state {
        AggFunctionState::Sum(s) => {
            s.acc = ScalarValue::Float(bits);
        },
        _ => {},
    }
}

/// How many of `rows` are not `NULL`.
pub open spec fn non_null_count(rows: Seq<Option<ScalarModel>>) -> int
    decreases rows.len(),
{
    if rows.len() == 0 {
        0
    } else {
        non_null_count(rows.drop_last()) + if is_null(rows.last()) {
            0int
        } else {
            1int
        }
    }
}

/// The values of `rows` that are not `NULL`, in order.
pub open spec fn non_null_values(rows: Seq<Option<ScalarModel>>) -> Seq<ScalarModel>
    decreases rows.len(),
{
    if rows.len() == 0 {
        Seq::empty()
    } else if is_null(rows.last()) {
        non_null_values(rows.drop_last())
    } else {
        non_null_values(rows.drop_last()).push(rows.last()->0)
    }
}

proof fn lemma_non_null_count_bound(rows: Seq<Option<ScalarModel>>)
    ensures
        0 <= non_null_count(rows) <= rows.len(),
    decreases rows.len(),
{
    if rows.len() > 0 {
        lemma_non_null_count_bound(rows.drop_last());
    }
}

/// `count(expr)` counts the values that are not `NULL`: updating a fresh state with each row in
/// turn succeeds every time and leaves the number of rows that are not `NULL`.
pub proof fn law_count_counts_non_null(
    rows: Seq<Option<ScalarModel>>,
    states: Seq<AggFunctionState>,
    results: Seq<Result<AggUpdate, EvalError>>,
)
    requires
        rows.len() < i64::MAX,
        states.len() == rows.len() + 1,
        results.len() == rows.len(),
        states[0] == AggFunctionState::Count(CountState { count: 0 }),
        forall|i: int|
            0 <= i < rows.len() ==> #[trigger] agg_updated(
                AggFunctionKind::Count,
                seq![rows[i]],
                states[i],
                results[i],
                states[i + 1],
            ),
    ensures
        states[rows.len() as int] == AggFunctionState::Count(CountState { count: non_null_count(rows) as i64 }),
        forall|i: int| 0 <= i < results.len() ==> #[trigger] results[i] == Ok::<AggUpdate, EvalError>(AggUpdate::Done),
    decreases rows.len(),
{
    if rows.len() > 0 {
        let n = rows.len() - 1;
        let r0 = rows.drop_last();
        assert(agg_updated(AggFunctionKind::Count, seq![rows[n]], states[n], results[n], states[n + 1]));
        law_count_counts_non_null(r0, states.take(n + 1), results.take(n));
        assert(states.take(n + 1)[n] == states[n]);
        lemma_non_null_count_bound(r0);
        assert(seq![rows[n]][0] == rows.last());
        assert forall|i: int| 0 <= i < results.len() implies #[trigger] results[i] == Ok::<AggUpdate, EvalError>(
            AggUpdate::Done,
        ) by {
            if i < n {
                assert(results.take(n)[i] == results[i]);
            }
        }
    }
}

/// `collect(expr)` collects the values that are not `NULL`, in order: updating a fresh state with
/// each row in turn leaves exactly those values.
pub proof fn law_collect_keeps_non_null_in_order(
    rows: Seq<Option<ScalarModel>>,
    states: Seq<AggFunctionState>,
    results: Seq<Result<AggUpdate, EvalError>>,
)
    requires
        states.len() == rows.len() + 1,
        results.len() == rows.len(),
        states[0] matches AggFunctionState::Collect(c) && c.values@.len() == 0,
        forall|i: int|
            0 <= i < rows.len() ==> #[trigger] agg_updated(
                AggFunctionKind::Collect,
                seq![rows[i]],
                states[i],
                results[i],
                states[i + 1],
            ),
    ensures
        states[rows.len() as int] matches AggFunctionState::Collect(c) && items_model(c.values@) == non_null_values(
            rows,
        ),
    decreases rows.len(),
{
    if rows.len() == 0 {
        if let AggFunctionState::Collect(c) = states[0] {
            assert(items_model(c.values@) =~= Seq::<ScalarModel>::empty());
        }
    } else {
        let n = rows.len() - 1;
        assert(agg_updated(AggFunctionKind::Collect, seq![rows[n]], states[n], results[n], states[n + 1]));
        law_collect_keeps_non_null_in_order(rows.drop_last(), states.take(n + 1), results.take(n));
        assert(states.take(n + 1)[n] == states[n]);
        assert(seq![rows[n]][0] == rows.last());
    }
}

} // verus!
