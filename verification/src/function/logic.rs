//! Boolean and comparison functions over columns.
//!
//! A boolean column is a sequence of `Option<bool>`, `None` standing for `NULL`. `and` and `xor`
//! give `NULL` when either input is `NULL`; `or` follows three-valued logic (true when either side
//! is true); `is_null` and `is_not_null` are never `NULL`.
//! A comparison gives `NULL` on rows that are hidden or where either side is `NULL`; where the two
//! values cannot be ordered, `=` gives `false`, `<>` gives `true` and the others `NULL`.
use vstd::prelude::*;

use crate::bits::{bits, Bits};
use crate::scalar::{Datum, ScalarValue};

verus! {

/// How two values are ordered.
#[derive(Debug, Clone, Copy, PartialEq, Eq, Structural)]
pub enum ValueOrder {
    Less,
    Equal,
    Greater,
}

#[derive(Debug, Clone, Copy, PartialEq, Eq, Structural)]
pub enum CompareOp {
    Eq,
    NotEq,
    Gt,
    GtEq,
    Lt,
    LtEq,
}

/// Whether two values in order `o` satisfy `op`.
pub open spec fn compare_holds(op: CompareOp, o: ValueOrder) -> bool {
    match op {
        CompareOp::Eq => o == ValueOrder::Equal,
        CompareOp::NotEq => o != ValueOrder::Equal,
        CompareOp::Gt => o == ValueOrder::Greater,
        CompareOp::GtEq => o != ValueOrder::Less,
        CompareOp::Lt => o == ValueOrder::Less,
        CompareOp::LtEq => o != ValueOrder::Greater,
    }
}

/// The result of `op` on two values that cannot be ordered.
pub open spec fn incomparable_result(op: CompareOp) -> Option<bool> {
    match op {
        CompareOp::Eq => Some(false),
        CompareOp::NotEq => Some(true),
        _ => None,
    }
}

/// The result of `op` on two values whose order is `o` (`None`: they cannot be ordered).
pub open spec fn compare_result(op: CompareOp, o: Option<ValueOrder>) -> Option<bool> {
    match o {
        Some(ord) => Some(compare_holds(op, ord)),
        None => incomparable_result(op),
    }
}

fn holds(op: CompareOp, o: ValueOrder) -> (r: bool)
    ensures
        r == compare_holds(op, o),
{
    match op {
        CompareOp::Eq => o == ValueOrder::Equal,
        CompareOp::NotEq => o != ValueOrder::Equal,
        CompareOp::Gt => o == ValueOrder::Greater,
        CompareOp::GtEq => o != ValueOrder::Less,
        CompareOp::Lt => o == ValueOrder::Less,
        CompareOp::LtEq => o != ValueOrder::Greater,
    }
}

fn incomparable(op: CompareOp) -> (r: Option<bool>)
    ensures
        r == incomparable_result(op),
{
    match op {
        CompareOp::Eq => Some(false),
        CompareOp::NotEq => Some(true),
        _ => None,
    }
}

/// Compares the rows of two columns with `op`. `order` orders two values, or gives `None` when
/// they cannot be ordered; it is consulted only on rows that are visible and hold two values.
pub fn do_compare<F: Fn(&ScalarValue, &ScalarValue) -> Option<ValueOrder>>(
    lhs: &[Datum],
    rhs: &[Datum],
    vis: &Bits,
    len: usize,
    op: CompareOp,
    order: F,
) -> (r: Vec<Option<bool>>)
    requires
        lhs@.len() == len,
        rhs@.len() == len,
        bits(*vis).len() == len,
        forall|a: &ScalarValue, b: &ScalarValue| order.requires((a, b)),
    ensures
        r@.len() == len,
        forall|i: int|
            0 <= i < len ==> if bits(*vis)[i] && lhs@[i] is Some && rhs@[i] is Some {
                exists|o: Option<ValueOrder>|
                    order.ensures((&lhs@[i]->0, &rhs@[i]->0), o) && #[trigger] r@[i] == compare_result(op, o)
            } else {
                r@[i] is None
            },
{
    let flags = vis.to_bools();
    let mut out: Vec<Option<bool>> = Vec::new();
    let mut i: usize = 0;
    while i < len
        invariant
            i <= len,
            lhs@.len() == len,
            rhs@.len() == len,
            bits(*vis).len() == len,
            flags@ == bits(*vis),
            forall|a: &ScalarValue, b: &ScalarValue| order.requires((a, b)),
            out@.len() == i,
            forall|k: int|
                0 <= k < i ==> if bits(*vis)[k] && lhs@[k] is Some && rhs@[k] is Some {
                    exists|o: Option<ValueOrder>|
                        order.ensures((&lhs@[k]->0, &rhs@[k]->0), o) && #[trigger] out@[k] == compare_result(op, o)
                } else {
                    out@[k] is None
                },
        decreases len - i,
    {
        let cell = if flags[i] {
            match (&lhs[i], &rhs[i]) {
                (Some(a), Some(b)) => {
                    let o = order(a, b);
                    let c = match o {
                        Some(ord) => Some(holds(op, ord)),
                        None => incomparable(op),
                    };
                    assert(c == compare_result(op, o));
                    c
                },
                _ => None,
            }
        } else {
            None
        };
        out.push(cell);
        i = i + 1;
    }
    out
}

/// `=` over the rows of two columns (see `do_compare`).
pub struct AnyEqBatch;

impl AnyEqBatch {
    pub fn execute<F: Fn(&ScalarValue, &ScalarValue) -> Option<ValueOrder>>(
        &self,
        lhs: &[Datum],
        rhs: &[Datum],
        vis: &Bits,
        len: usize,
        order: F,
    ) -> (r: Vec<Option<bool>>)
        requires
            lhs@.len() == len,
            rhs@.len() == len,
            bits(*vis).len() == len,
            forall|a: &ScalarValue, b: &ScalarValue| order.requires((a, b)),
        ensures
            r@.len() == len,
            forall|i: int|
                0 <= i < len ==> if bits(*vis)[i] && lhs@[i] is Some && rhs@[i] is Some {
                    exists|o: Option<ValueOrder>|
                        order.ensures((&lhs@[i]->0, &rhs@[i]->0), o) && #[trigger] r@[i] == compare_result(CompareOp::Eq, o)
                } else {
                    r@[i] is None
                },
    {
        do_compare(lhs, rhs, vis, len, CompareOp::Eq, order)
    }
}

/// `<>` over the rows of two columns (see `do_compare`).
pub struct AnyNotEqBatch;

impl AnyNotEqBatch {
    pub fn execute<F: Fn(&ScalarValue, &ScalarValue) -> Option<ValueOrder>>(
        &self,
        lhs: &[Datum],
        rhs: &[Datum],
        vis: &Bits,
        len: usize,
        order: F,
    ) -> (r: Vec<Option<bool>>)
        requires
            lhs@.len() == len,
            rhs@.len() == len,
            bits(*vis).len() == len,
            forall|a: &ScalarValue, b: &ScalarValue| order.requires((a, b)),
        ensures
            r@.len() == len,
            forall|i: int|
                0 <= i < len ==> if bits(*vis)[i] && lhs@[i] is Some && rhs@[i] is Some {
                    exists|o: Option<ValueOrder>|
                        order.ensures((&lhs@[i]->0, &rhs@[i]->0), o) && #[trigger] r@[i] == compare_result(CompareOp::NotEq, o)
                } else {
                    r@[i] is None
                },
    {
        do_compare(lhs, rhs, vis, len, CompareOp::NotEq, order)
    }
}

/// `>` over the rows of two columns (see `do_compare`).
pub struct AnyGtBatch;

impl AnyGtBatch {
    pub fn execute<F: Fn(&ScalarValue, &ScalarValue) -> Option<ValueOrder>>(
        &self,
        lhs: &[Datum],
        rhs: &[Datum],
        vis: &Bits,
        len: usize,
        order: F,
    ) -> (r: Vec<Option<bool>>)
        requires
            lhs@.len() == len,
            rhs@.len() == len,
            bits(*vis).len() == len,
            forall|a: &ScalarValue, b: &ScalarValue| order.requires((a, b)),
        ensures
            r@.len() == len,
            forall|i: int|
                0 <= i < len ==> if bits(*vis)[i] && lhs@[i] is Some && rhs@[i] is Some {
                    exists|o: Option<ValueOrder>|
                        order.ensures((&lhs@[i]->0, &rhs@[i]->0), o) && #[trigger] r@[i] == compare_result(CompareOp::Gt, o)
                } else {
                    r@[i] is None
                },
    {
        do_compare(lhs, rhs, vis, len, CompareOp::Gt, order)
    }
}

/// `>=` over the rows of two columns (see `do_compare`).
pub struct AnyGtEqBatch;

impl AnyGtEqBatch {
    pub fn execute<F: Fn(&ScalarValue, &ScalarValue) -> Option<ValueOrder>>(
        &self,
        lhs: &[Datum],
        rhs: &[Datum],
        vis: &Bits,
        len: usize,
        order: F,
    ) -> (r: Vec<Option<bool>>)
        requires
            lhs@.len() == len,
            rhs@.len() == len,
            bits(*vis).len() == len,
            forall|a: &ScalarValue, b: &ScalarValue| order.requires((a, b)),
        ensures
            r@.len() == len,
            forall|i: int|
                0 <= i < len ==> if bits(*vis)[i] && lhs@[i] is Some && rhs@[i] is Some {
                    exists|o: Option<ValueOrder>|
                        order.ensures((&lhs@[i]->0, &rhs@[i]->0), o) && #[trigger] r@[i] == compare_result(CompareOp::GtEq, o)
                } else {
                    r@[i] is None
                },
    {
        do_compare(lhs, rhs, vis, len, CompareOp::GtEq, order)
    }
}

/// `<` over the rows of two columns (see `do_compare`).
pub struct AnyLtBatch;

impl AnyLtBatch {
    pub fn execute<F: Fn(&ScalarValue, &ScalarValue) -> Option<ValueOrder>>(
        &self,
        lhs: &[Datum],
        rhs: &[Datum],
        vis: &Bits,
        len: usize,
        order: F,
    ) -> (r: Vec<Option<bool>>)
        requires
            lhs@.len() == len,
            rhs@.len() == len,
            bits(*vis).len() == len,
            forall|a: &ScalarValue, b: &ScalarValue| order.requires((a, b)),
        ensures
            r@.len() == len,
            forall|i: int|
                0 <= i < len ==> if bits(*vis)[i] && lhs@[i] is Some && rhs@[i] is Some {
                    exists|o: Option<ValueOrder>|
                        order.ensures((&lhs@[i]->0, &rhs@[i]->0), o) && #[trigger] r@[i] == compare_result(CompareOp::Lt, o)
                } else {
                    r@[i] is None
                },
    {
        do_compare(lhs, rhs, vis, len, CompareOp::Lt, order)
    }
}

/// `<=` over the rows of two columns (see `do_compare`).
pub struct AnyLtEqBatch;

impl AnyLtEqBatch {
    pub fn execute<F: Fn(&ScalarValue, &ScalarValue) -> Option<ValueOrder>>(
        &self,
        lhs: &[Datum],
        rhs: &[Datum],
        vis: &Bits,
        len: usize,
        order: F,
    ) -> (r: Vec<Option<bool>>)
        requires
            lhs@.len() == len,
            rhs@.len() == len,
            bits(*vis).len() == len,
            forall|a: &ScalarValue, b: &ScalarValue| order.requires((a, b)),
        ensures
            r@.len() == len,
            forall|i: int|
                0 <= i < len ==> if bits(*vis)[i] && lhs@[i] is Some && rhs@[i] is Some {
                    exists|o: Option<ValueOrder>|
                        order.ensures((&lhs@[i]->0, &rhs@[i]->0), o) && #[trigger] r@[i] == compare_result(CompareOp::LtEq, o)
                } else {
                    r@[i] is None
                },
    {
        do_compare(lhs, rhs, vis, len, CompareOp::LtEq, order)
    }
}

/// `a AND b`.
pub open spec fn and3(a: Option<bool>, b: Option<bool>) -> Option<bool> {
    match (a, b) {
        (Some(x), Some(y)) => Some(x && y),
        _ => None,
    }
}

/// `a OR b` in three-valued logic: true when either side is true, false when both are false,
/// `NULL` otherwise.
pub open spec fn or3(a: Option<bool>, b: Option<bool>) -> Option<bool> {
    if a == Some(true) || b == Some(true) {
        Some(true)
    } else if a == Some(false) && b == Some(false) {
        Some(false)
    } else {
        None
    }
}

/// `a XOR b`.
pub open spec fn xor3(a: Option<bool>, b: Option<bool>) -> Option<bool> {
    match (a, b) {
        (Some(x), Some(y)) => Some(x != y),
        _ => None,
    }
}

#[derive(Debug, Clone, Copy, PartialEq, Eq, Structural)]
pub enum BoolOp {
    And,
    Or,
    Xor,
}

pub open spec fn bool_op(op: BoolOp, a: Option<bool>, b: Option<bool>) -> Option<bool> {
    match op {
        BoolOp::And => and3(a, b),
        BoolOp::Or => or3(a, b),
        BoolOp::Xor => xor3(a, b),
    }
}

fn combine(op: BoolOp, lhs: &[Option<bool>], rhs: &[Option<bool>]) -> (r: Vec<Option<bool>>)
    requires
        lhs@.len() == rhs@.len(),
    ensures
        r@.len() == lhs@.len(),
        forall|i: int| 0 <= i < lhs@.len() ==> #[trigger] r@[i] == bool_op(op, lhs@[i], rhs@[i]),
{
    let mut out: Vec<Option<bool>> = Vec::new();
    let mut i: usize = 0;
    while i < lhs.len()
        invariant
            i <= lhs@.len(),
            lhs@.len() == rhs@.len(),
            out@.len() == i,
            forall|k: int| 0 <= k < i ==> #[trigger] out@[k] == bool_op(op, lhs@[k], rhs@[k]),
        decreases lhs@.len() - i,
    {
        let cell = match op {
            BoolOp::Or => match (lhs[i], rhs[i]) {
                (Some(true), _) | (_, Some(true)) => Some(true),
                (Some(false), Some(false)) => Some(false),
                _ => None,
            },
            _ => match (lhs[i], rhs[i]) {
                (Some(x), Some(y)) => match op {
                    BoolOp::And => Some(x && y),
                    _ => Some(x != y),
                },
                _ => None,
            },
        };
        out.push(cell);
        i = i + 1;
    }
    out
}

/// `lhs AND rhs`, row by row.
pub fn bool_and_batch(lhs: &[Option<bool>], rhs: &[Option<bool>]) -> (r: Vec<Option<bool>>)
    requires
        lhs@.len() == rhs@.len(),
    ensures
        r@.len() == lhs@.len(),
        forall|i: int| 0 <= i < lhs@.len() ==> #[trigger] r@[i] == and3(lhs@[i], rhs@[i]),
{
    combine(BoolOp::And, lhs, rhs)
}

/// `lhs OR rhs`, row by row.
pub fn bool_or_batch(lhs: &[Option<bool>], rhs: &[Option<bool>]) -> (r: Vec<Option<bool>>)
    requires
        lhs@.len() == rhs@.len(),
    ensures
        r@.len() == lhs@.len(),
        forall|i: int| 0 <= i < lhs@.len() ==> #[trigger] r@[i] == or3(lhs@[i], rhs@[i]),
{
    combine(BoolOp::Or, lhs, rhs)
}

/// `lhs XOR rhs`, row by row.
pub fn bool_xor_batch(lhs: &[Option<bool>], rhs: &[Option<bool>]) -> (r: Vec<Option<bool>>)
    requires
        lhs@.len() == rhs@.len(),
    ensures
        r@.len() == lhs@.len(),
        forall|i: int| 0 <= i < lhs@.len() ==> #[trigger] r@[i] == xor3(lhs@[i], rhs@[i]),
{
    combine(BoolOp::Xor, lhs, rhs)
}

/// `NOT arg`, row by row.
pub fn bool_not_batch(arg: &[Option<bool>]) -> (r: Vec<Option<bool>>)
    ensures
        r@.len() == arg@.len(),
        forall|i: int|
            0 <= i < arg@.len() ==> #[trigger] r@[i] == match arg@[i] {
                Some(x) => Some(!x),
                None => None,
            },
{
    let mut out: Vec<Option<bool>> = Vec::new();
    let mut i: usize = 0;
    while i < arg.len()
        invariant
            i <= arg@.len(),
            out@.len() == i,
            forall|k: int|
                0 <= k < i ==> #[trigger] out@[k] == match arg@[k] {
                    Some(x) => Some(!x),
                    None => None,
                },
        decreases arg@.len() - i,
    {
        let cell = match arg[i] {
            Some(x) => Some(!x),
            None => None,
        };
        out.push(cell);
        i = i + 1;
    }
    out
}

/// `arg IS NULL` (or `IS NOT NULL` when `negated`), row by row; never `NULL`.
fn null_test<T>(arg: &[Option<T>], negated: bool) -> (r: Vec<Option<bool>>)
    ensures
        r@.len() == arg@.len(),
        forall|i: int| 0 <= i < arg@.len() ==> #[trigger] r@[i] == Some((arg@[i] is None) != negated),
{
    let mut out: Vec<Option<bool>> = Vec::new();
    let mut i: usize = 0;
    while i < arg.len()
        invariant
            i <= arg@.len(),
            out@.len() == i,
            forall|k: int| 0 <= k < i ==> #[trigger] out@[k] == Some((arg@[k] is None) != negated),
        decreases arg@.len() - i,
    {
        let missing = match &arg[i] {
            Some(_) => false,
            None => true,
        };
        out.push(Some(missing != negated));
        i = i + 1;
    }
    out
}

/// `arg IS NULL`, row by row.
pub fn bool_is_null_batch<T>(arg: &[Option<T>]) -> (r: Vec<Option<bool>>)
    ensures
        r@.len() == arg@.len(),
        forall|i: int| 0 <= i < arg@.len() ==> #[trigger] r@[i] == Some(arg@[i] is None),
{
    null_test(arg, false)
}

/// `arg IS NOT NULL`, row by row.
pub fn bool_is_not_null_batch<T>(arg: &[Option<T>]) -> (r: Vec<Option<bool>>)
    ensures
        r@.len() == arg@.len(),
        forall|i: int| 0 <= i < arg@.len() ==> #[trigger] r@[i] == Some(arg@[i] is Some),
{
    null_test(arg, true)
}

} // verus!
