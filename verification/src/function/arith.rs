//! Arithmetic on scalar values: `+`, `-`, `*`, `/`, `%`, `^` and the unary `+` and `-`.
//!
//! A `NULL` operand (`Unknown`) gives `NULL`. Integer arithmetic is checked: a result that does
//! not fit in an `i64`, or a division by zero, is an arithmetic overflow error. Arithmetic in which
//! a float takes part is handed back to the caller as `ArithOutcome::Float`. A string joined with
//! an integer gives the joined text; joined with a value of another kind (not a string or an
//! integer) it is handed back as `ArithOutcome::Concat`, which the caller completes with the
//! display text of that value.
use vstd::prelude::*;

use crate::execution::error::EvalError;
use crate::function::agg::NumberBits;
use crate::scalar::{decimal, duplicate_items, integer_text, items_model, lemma_items_model, ScalarModel, ScalarValue};

verus! {

#[derive(Debug, Clone, Copy, PartialEq, Eq, Structural)]
pub enum ArithOp {
    Add,
    Subtract,
    Multiply,
    Divide,
    Modulo,
    Pow,
}

/// What an arithmetic function gives when it does not fail.
pub enum ArithOutcome {
    /// The result.
    Value(ScalarValue),
    /// `lhs op rhs` in IEEE double arithmetic, integers converted with `as f64`; left to the caller.
    Float { op: ArithOp, lhs: NumberBits, rhs: NumberBits },
    /// The string `text` joined with the display text of `value`: `text` first when `text_first`.
    Concat { text: String, value: ScalarValue, text_first: bool },
}

/// Mathematical model of an arithmetic result.
pub enum ArithModel {
    Value(ScalarModel),
    Float(ArithOp, NumberBits, NumberBits),
    Concat(Seq<char>, ScalarModel, bool),
    /// An arithmetic overflow error of the named operation on two integers.
    Overflow(Seq<char>, i64, i64),
    TypeError,
}

/// Whether `r` is the result that `m` describes.
pub open spec fn arith_matches(r: Result<ArithOutcome, EvalError>, m: ArithModel) -> bool {
    match m {
        ArithModel::Value(v) => r matches Ok(ArithOutcome::Value(x)) && x@ == v,
        ArithModel::Float(op, a, b) => r matches Ok(ArithOutcome::Float { op: o, lhs, rhs }) && o == op && lhs == a
            && rhs == b,
        ArithModel::Concat(t, v, first) => r matches Ok(ArithOutcome::Concat { text, value, text_first }) && text@
            == t && value@ == v && text_first == first,
        ArithModel::Overflow(op, a, b) => r matches Err(EvalError::ArithmeticOverflow { op: o, args }) && o@ == op
            && args@.len() == 2 && args@[0]@ == decimal(a as int) && args@[1]@ == decimal(b as int),
        ArithModel::TypeError => r matches Err(EvalError::TypeError(_)),
    }
}

/// The operand of a floating point operation, when `v` is a number.
pub open spec fn number_bits(v: ScalarModel) -> Option<NumberBits> {
    match v {
        ScalarModel::Integer(i) => Some(NumberBits::Integer(i)),
        ScalarModel::Float(f) => Some(NumberBits::Float(f)),
        _ => None,
    }
}

/// Both operands are numbers and at least one of them is a float.
pub open spec fn float_pair(a: ScalarModel, b: ScalarModel) -> bool {
    &&& number_bits(a) is Some
    &&& number_bits(b) is Some
    &&& (a is Float || b is Float)
}

pub open spec fn float_model(op: ArithOp, a: ScalarModel, b: ScalarModel) -> ArithModel {
    ArithModel::Float(op, number_bits(a)->0, number_bits(b)->0)
}

/// `lhs + rhs`.
pub open spec fn add_model(a: ScalarModel, b: ScalarModel) -> ArithModel {
    if a is Unknown || b is Unknown {
        ArithModel::Value(ScalarModel::Unknown)
    } else {
        match (a, b) {
            (ScalarModel::Integer(x), ScalarModel::Integer(y)) => match x.checked_add(y) {
                Some(z) => ArithModel::Value(ScalarModel::Integer(z)),
                None => ArithModel::Overflow("add"@, x, y),
            },
            (ScalarModel::String(x), ScalarModel::String(y)) => ArithModel::Value(ScalarModel::String(x + y)),
            (ScalarModel::List(x), ScalarModel::List(y)) => ArithModel::Value(ScalarModel::List(x + y)),
            _ => if float_pair(a, b) {
                float_model(ArithOp::Add, a, b)
            } else if a is String {
                match b {
                    ScalarModel::Integer(i) => ArithModel::Value(ScalarModel::String(a->String_0 + decimal(i as int))),
                    _ => ArithModel::Concat(a->String_0, b, true),
                }
            } else if b is String {
                match a {
                    ScalarModel::Integer(i) => ArithModel::Value(ScalarModel::String(decimal(i as int) + b->String_0)),
                    _ => ArithModel::Concat(b->String_0, a, false),
                }
            } else if a is List {
                ArithModel::Value(ScalarModel::List(a->List_0.push(b)))
            } else if b is List {
                ArithModel::Value(ScalarModel::List(seq![a] + b->List_0))
            } else {
                ArithModel::TypeError
            },
        }
    }
}

/// `lhs - rhs`.
pub open spec fn sub_model(a: ScalarModel, b: ScalarModel) -> ArithModel {
    if a is Unknown || b is Unknown {
        ArithModel::Value(ScalarModel::Unknown)
    } else {
        match (a, b) {
            (ScalarModel::Integer(x), ScalarModel::Integer(y)) => match x.checked_sub(y) {
                Some(z) => ArithModel::Value(ScalarModel::Integer(z)),
                None => ArithModel::Overflow("subtract"@, x, y),
            },
            _ => if float_pair(a, b) {
                float_model(ArithOp::Subtract, a, b)
            } else {
                ArithModel::TypeError
            },
        }
    }
}

/// `lhs * rhs`.
pub open spec fn mul_model(a: ScalarModel, b: ScalarModel) -> ArithModel {
    if a is Unknown || b is Unknown {
        ArithModel::Value(ScalarModel::Unknown)
    } else {
        match (a, b) {
            (ScalarModel::Integer(x), ScalarModel::Integer(y)) => match x.checked_mul(y) {
                Some(z) => ArithModel::Value(ScalarModel::Integer(z)),
                None => ArithModel::Overflow("multiply"@, x, y),
            },
            _ => if float_pair(a, b) {
                float_model(ArithOp::Multiply, a, b)
            } else {
                ArithModel::TypeError
            },
        }
    }
}

/// `lhs / rhs`; integer division rounds toward zero.
pub open spec fn div_model(a: ScalarModel, b: ScalarModel) -> ArithModel {
    if a is Unknown || b is Unknown {
        ArithModel::Value(ScalarModel::Unknown)
    } else {
        match (a, b) {
            (ScalarModel::Integer(x), ScalarModel::Integer(y)) => if y == 0 {
                ArithModel::Overflow("divide"@, x, y)
            } else {
                ArithModel::Value(ScalarModel::Integer(x.checked_div(y)->0))
            },
            _ => if float_pair(a, b) {
                float_model(ArithOp::Divide, a, b)
            } else {
                ArithModel::TypeError
            },
        }
    }
}

/// `lhs % rhs`; the integer remainder takes the sign of `lhs`.
pub open spec fn mod_model(a: ScalarModel, b: ScalarModel) -> ArithModel {
    if a is Unknown || b is Unknown {
        ArithModel::Value(ScalarModel::Unknown)
    } else {
        match (a, b) {
            (ScalarModel::Integer(x), ScalarModel::Integer(y)) => if y == 0 {
                ArithModel::Overflow("modulo"@, x, y)
            } else {
                ArithModel::Value(ScalarModel::Integer(x.checked_rem(y)->0))
            },
            _ => if float_pair(a, b) {
                float_model(ArithOp::Modulo, a, b)
            } else {
                ArithModel::TypeError
            },
        }
    }
}

/// `lhs ^ rhs`, always computed as floats.
pub open spec fn pow_model(a: ScalarModel, b: ScalarModel) -> ArithModel {
    if a is Unknown || b is Unknown {
        ArithModel::Value(ScalarModel::Unknown)
    } else if number_bits(a) is Some && number_bits(b) is Some {
        float_model(ArithOp::Pow, a, b)
    } else {
        ArithModel::TypeError
    }
}

/// Whether a division or remainder of `lhs` by `rhs` overflows a machine integer.
pub open spec fn division_overflows(lhs: ScalarModel, rhs: ScalarModel) -> bool {
    lhs == ScalarModel::Integer(i64::MIN) && rhs == ScalarModel::Integer(-1i64)
}

proof fn lemma_quotient_bounds(p: int, q: int)
    by (nonlinear_arith)
    requires
        p >= 0,
        q >= 1,
    ensures
        0 <= p / q <= p,
        q >= 2 ==> p / q <= p / 2,
        0 <= p % q < q,
{
}

/// Truncated division of two machine integers fits, unless it is `i64::MIN / -1`.
proof fn lemma_truncated_division_fits(x: int, d: int)
    requires
        i64::MIN <= x <= i64::MAX,
        i64::MIN <= d <= i64::MAX,
        d != 0,
        !(x == i64::MIN && d == -1),
    ensures
        (x as i64).checked_div(d as i64) is Some,
        (x as i64).checked_rem(d as i64) is Some,
{
    if x > 0 && d > 0 {
        lemma_quotient_bounds(x, d);
    } else if x < 0 && d < 0 {
        lemma_quotient_bounds(-x, -d);
        lemma_quotient_bounds(-x, 2);
    } else if x < 0 {
        lemma_quotient_bounds(-x, d);
    } else if x > 0 {
        lemma_quotient_bounds(x, -d);
    }
}

fn overflow(op: &str, a: i64, b: i64) -> (r: EvalError)
    ensures
        r matches EvalError::ArithmeticOverflow { op: o, args } && o@ == op@ && args@.len() == 2 && args@[0]@
            == decimal(a as int) && args@[1]@ == decimal(b as int),
{
    let mut args: Vec<String> = Vec::new();
    args.push(integer_text(a));
    args.push(integer_text(b));
    EvalError::arithmetic_overflow(op, args)
}

fn number_operand(v: &ScalarValue) -> (r: Option<NumberBits>)
    ensures
        r == number_bits(v@),
{
    match v {
        ScalarValue::Integer(i) => Some(NumberBits::Integer(*i)),
        ScalarValue::Float(f) => Some(NumberBits::Float(*f)),
        _ => None,
    }
}

/// The float operation on two numbers of which one is a float, if they are such a pair.
fn float_operation(op: ArithOp, lhs: &ScalarValue, rhs: &ScalarValue) -> (r: Option<ArithOutcome>)
    ensures
        float_pair(lhs@, rhs@) ==> (r matches Some(o) && arith_matches(Ok(o), float_model(op, lhs@, rhs@))),
        !float_pair(lhs@, rhs@) ==> r is None,
{
    let is_float = match (lhs, rhs) {
        (ScalarValue::Float(_), _) | (_, ScalarValue::Float(_)) => true,
        _ => false,
    };
    match (number_operand(lhs), number_operand(rhs)) {
        (Some(a), Some(b)) => if is_float {
            Some(ArithOutcome::Float { op, lhs: a, rhs: b })
        } else {
            None
        },
        _ => None,
    }
}

fn is_unknown(v: &ScalarValue) -> (r: bool)
    ensures
        r == (v@ is Unknown),
{
    match v {
        ScalarValue::Unknown => true,
        _ => false,
    }
}

/// The values of `a` followed by those of `b`.
fn concat_items(a: &Vec<ScalarValue>, b: &Vec<ScalarValue>) -> (r: Vec<ScalarValue>)
    ensures
        items_model(r@) == items_model(a@) + items_model(b@),
{
    let mut out = duplicate_items(a.as_slice());
    let ghost front = out@;
    let tail = duplicate_items(b.as_slice());
    let mut i: usize = 0;
    while i < tail.len()
        invariant
            i <= tail@.len(),
            out@.len() == front.len() + i,
            forall|j: int| 0 <= j < front.len() ==> #[trigger] out@[j] == front[j],
            forall|j: int| 0 <= j < i ==> (#[trigger] out@[front.len() + j])@ == tail@[j]@,
        decreases tail@.len() - i,
    {
        out.push(tail[i].duplicate());
        i = i + 1;
    }
    proof {
        lemma_items_model(out@);
        lemma_items_model(a@);
        lemma_items_model(b@);
        let n = front.len() as int;
        assert forall|j: int| 0 <= j < out@.len() implies (#[trigger] out@[j])@ == (items_model(a@) + items_model(
            b@,
        ))[j] by {
            if j < n {
                assert(out@[j] == front[j]);
            } else {
                assert(out@[n + (j - n)]@ == tail@[j - n]@);
            }
        }
        assert(items_model(out@) =~= items_model(a@) + items_model(b@));
    }
    out
}

/// `lhs + rhs`: numbers are added, strings and lists joined, and a string or list joined with a
/// value of another kind.
pub fn any_add(lhs: &ScalarValue, rhs: &ScalarValue) -> (r: Result<ArithOutcome, EvalError>)
    ensures
        arith_matches(r, add_model(lhs@, rhs@)),
{
    proof {
        reveal_strlit("add");
    }
    if is_unknown(lhs) || is_unknown(rhs) {
        return Ok(ArithOutcome::Value(ScalarValue::Unknown));
    }
    if let Some(o) = float_operation(ArithOp::Add, lhs, rhs) {
        return Ok(o);
    }
    match (lhs, rhs) {
        (ScalarValue::Integer(a), ScalarValue::Integer(b)) => match a.checked_add(*b) {
            Some(c) => Ok(ArithOutcome::Value(ScalarValue::Integer(c))),
            None => Err(overflow("add", *a, *b)),
        },
        (ScalarValue::String(a), ScalarValue::String(b)) => {
            let mut s = a.clone();
            s.append(b.as_str());
            Ok(ArithOutcome::Value(ScalarValue::String(s)))
        },
        (ScalarValue::String(a), ScalarValue::Integer(i)) => {
            let mut s = a.clone();
            let digits = integer_text(*i);
            s.append(digits.as_str());
            Ok(ArithOutcome::Value(ScalarValue::String(s)))
        },
        (ScalarValue::Integer(i), ScalarValue::String(b)) => {
            let mut s = integer_text(*i);
            s.append(b.as_str());
            Ok(ArithOutcome::Value(ScalarValue::String(s)))
        },
        (ScalarValue::String(a), b) => Ok(
            ArithOutcome::Concat { text: a.clone(), value: b.duplicate(), text_first: true },
        ),
        (a, ScalarValue::String(b)) => Ok(
            ArithOutcome::Concat { text: b.clone(), value: a.duplicate(), text_first: false },
        ),
        (ScalarValue::List(a), ScalarValue::List(b)) => Ok(ArithOutcome::Value(ScalarValue::List(concat_items(a, b)))),
        (ScalarValue::List(a), b) => {
            let mut items = duplicate_items(a.as_slice());
            let ghost before = items@;
            items.push(b.duplicate());
            proof {
                lemma_items_model(before);
                lemma_items_model(items@);
                lemma_items_model(a@);
                assert(items_model(items@) =~= items_model(a@).push(b@));
            }
            Ok(ArithOutcome::Value(ScalarValue::List(items)))
        },
        (a, ScalarValue::List(b)) => {
            let mut items: Vec<ScalarValue> = Vec::new();
            items.push(a.duplicate());
            let tail = duplicate_items(b.as_slice());
            let mut i: usize = 0;
            while i < tail.len()
                invariant
                    i <= tail@.len(),
                    items@.len() == 1 + i,
                    items@[0]@ == a@,
                    forall|j: int| 0 <= j < i ==> (#[trigger] items@[1 + j])@ == tail@[j]@,
                decreases tail@.len() - i,
            {
                items.push(tail[i].duplicate());
                i = i + 1;
            }
            proof {
                lemma_items_model(items@);
                lemma_items_model(b@);
                assert forall|j: int| 0 <= j < items@.len() implies (#[trigger] items@[j])@ == (seq![a@]
                    + items_model(b@))[j] by {
                    if j > 0 {
                        assert(items@[1 + (j - 1)]@ == tail@[j - 1]@);
                    }
                }
                assert(items_model(items@) =~= seq![a@] + items_model(b@));
            }
            Ok(ArithOutcome::Value(ScalarValue::List(items)))
        },
        _ => Err(EvalError::type_error("Cannot add these operands")),
    }
}

/// `lhs - rhs` on numbers.
pub fn any_sub(lhs: &ScalarValue, rhs: &ScalarValue) -> (r: Result<ArithOutcome, EvalError>)
    ensures
        arith_matches(r, sub_model(lhs@, rhs@)),
{
    proof {
        reveal_strlit("subtract");
    }
    if is_unknown(lhs) || is_unknown(rhs) {
        return Ok(ArithOutcome::Value(ScalarValue::Unknown));
    }
    if let Some(o) = float_operation(ArithOp::Subtract, lhs, rhs) {
        return Ok(o);
    }
    match (lhs, rhs) {
        (ScalarValue::Integer(a), ScalarValue::Integer(b)) => match a.checked_sub(*b) {
            Some(c) => Ok(ArithOutcome::Value(ScalarValue::Integer(c))),
            None => Err(overflow("subtract", *a, *b)),
        },
        _ => Err(EvalError::type_error("Cannot subtract these operands")),
    }
}

/// `lhs * rhs` on numbers.
pub fn any_mul(lhs: &ScalarValue, rhs: &ScalarValue) -> (r: Result<ArithOutcome, EvalError>)
    ensures
        arith_matches(r, mul_model(lhs@, rhs@)),
{
    proof {
        reveal_strlit("multiply");
    }
    if is_unknown(lhs) || is_unknown(rhs) {
        return Ok(ArithOutcome::Value(ScalarValue::Unknown));
    }
    if let Some(o) = float_operation(ArithOp::Multiply, lhs, rhs) {
        return Ok(o);
    }
    match (lhs, rhs) {
        (ScalarValue::Integer(a), ScalarValue::Integer(b)) => match a.checked_mul(*b) {
            Some(c) => Ok(ArithOutcome::Value(ScalarValue::Integer(c))),
            None => Err(overflow("multiply", *a, *b)),
        },
        _ => Err(EvalError::type_error("Cannot multiply these operands")),
    }
}

/// `lhs / rhs` on numbers. Dividing `i64::MIN` by `-1` overflows the machine integer and is left out.
pub fn any_div(lhs: &ScalarValue, rhs: &ScalarValue) -> (r: Result<ArithOutcome, EvalError>)
    requires
        !division_overflows(lhs@, rhs@),
    ensures
        arith_matches(r, div_model(lhs@, rhs@)),
{
    proof {
        reveal_strlit("divide");
    }
    if is_unknown(lhs) || is_unknown(rhs) {
        return Ok(ArithOutcome::Value(ScalarValue::Unknown));
    }
    if let Some(o) = float_operation(ArithOp::Divide, lhs, rhs) {
        return Ok(o);
    }
    match (lhs, rhs) {
        (ScalarValue::Integer(a), ScalarValue::Integer(b)) => {
            if *b == 0 {
                return Err(overflow("divide", *a, *b));
            }
            proof {
                lemma_truncated_division_fits(*a as int, *b as int);
            }
            let q = a.checked_div(*b).unwrap();
            Ok(ArithOutcome::Value(ScalarValue::Integer(q)))
        },
        _ => Err(EvalError::type_error("Cannot divide these operands")),
    }
}

/// `lhs % rhs` on numbers. The remainder of `i64::MIN` by `-1` overflows the machine integer and is
/// left out.
pub fn any_mod(lhs: &ScalarValue, rhs: &ScalarValue) -> (r: Result<ArithOutcome, EvalError>)
    requires
        !division_overflows(lhs@, rhs@),
    ensures
        arith_matches(r, mod_model(lhs@, rhs@)),
{
    proof {
        reveal_strlit("modulo");
    }
    if is_unknown(lhs) || is_unknown(rhs) {
        return Ok(ArithOutcome::Value(ScalarValue::Unknown));
    }
    if let Some(o) = float_operation(ArithOp::Modulo, lhs, rhs) {
        return Ok(o);
    }
    match (lhs, rhs) {
        (ScalarValue::Integer(a), ScalarValue::Integer(b)) => {
            if *b == 0 {
                return Err(overflow("modulo", *a, *b));
            }
            proof {
                lemma_truncated_division_fits(*a as int, *b as int);
            }
            let m = a.checked_rem(*b).unwrap();
            Ok(ArithOutcome::Value(ScalarValue::Integer(m)))
        },
        _ => Err(EvalError::type_error("Cannot modulo these operands")),
    }
}

/// `lhs ^ rhs` on numbers, always a float.
pub fn any_pow(lhs: &ScalarValue, rhs: &ScalarValue) -> (r: Result<ArithOutcome, EvalError>)
    ensures
        arith_matches(r, pow_model(lhs@, rhs@)),
{
    if is_unknown(lhs) || is_unknown(rhs) {
        return Ok(ArithOutcome::Value(ScalarValue::Unknown));
    }
    match (number_operand(lhs), number_operand(rhs)) {
        (Some(a), Some(b)) => Ok(ArithOutcome::Float { op: ArithOp::Pow, lhs: a, rhs: b }),
        _ => Err(EvalError::type_error("Cannot pow these operands")),
    }
}

/// What a unary arithmetic function gives.
pub enum UnaryOutcome {
    Value(ScalarValue),
    /// The argument is not a number: the caller reports an invalid argument error that names the
    /// function, the expected `Integer | Float` and the display text of the argument.
    NotANumber(ScalarValue),
}

/// The bit that holds the sign of an IEEE-754 double.
pub const SIGN_BIT: u64 = 0x8000_0000_0000_0000u64;

/// `+arg`: a number is returned unchanged.
pub fn any_unary_add(arg: &ScalarValue) -> (r: UnaryOutcome)
    ensures
        match arg@ {
            ScalarModel::Integer(_) | ScalarModel::Float(_) => r matches UnaryOutcome::Value(v) && v@ == arg@,
            _ => r matches UnaryOutcome::NotANumber(v) && v@ == arg@,
        },
{
    match arg {
        ScalarValue::Integer(i) => UnaryOutcome::Value(ScalarValue::Integer(*i)),
        ScalarValue::Float(f) => UnaryOutcome::Value(ScalarValue::Float(*f)),
        _ => UnaryOutcome::NotANumber(arg.duplicate()),
    }
}

/// `-arg`: an integer is negated, and a float has its sign bit flipped. Negating `i64::MIN`
/// overflows the machine integer and is left out.
pub fn any_unary_subtract(arg: &ScalarValue) -> (r: UnaryOutcome)
    requires
        arg@ != ScalarModel::Integer(i64::MIN),
    ensures
        match arg@ {
            ScalarModel::Integer(i) => r matches UnaryOutcome::Value(v) && v@ == ScalarModel::Integer(-i as i64),
            ScalarModel::Float(f) => r matches UnaryOutcome::Value(v) && v@ == ScalarModel::Float(f ^ SIGN_BIT),
            _ => r matches UnaryOutcome::NotANumber(v) && v@ == arg@,
        },
{
    match arg {
        ScalarValue::Integer(i) => UnaryOutcome::Value(ScalarValue::Integer(-*i)),
        ScalarValue::Float(f) => UnaryOutcome::Value(ScalarValue::Float(*f ^ SIGN_BIT)),
        _ => UnaryOutcome::NotANumber(arg.duplicate()),
    }
}

/// Arithmetic on `NULL` gives `NULL`: every binary arithmetic function with a `NULL` operand.
pub proof fn law_null_operand_gives_null(a: ScalarModel, b: ScalarModel)
    requires
        a is Unknown || b is Unknown,
    ensures
        add_model(a, b) == ArithModel::Value(ScalarModel::Unknown),
        sub_model(a, b) == ArithModel::Value(ScalarModel::Unknown),
        mul_model(a, b) == ArithModel::Value(ScalarModel::Unknown),
        div_model(a, b) == ArithModel::Value(ScalarModel::Unknown),
        mod_model(a, b) == ArithModel::Value(ScalarModel::Unknown),
        pow_model(a, b) == ArithModel::Value(ScalarModel::Unknown),
{
}

/// Integer addition and multiplication do not depend on the order of the operands.
pub proof fn law_integer_add_mul_commute(x: i64, y: i64)
    ensures
        add_model(ScalarModel::Integer(x), ScalarModel::Integer(y)) is Value <==> add_model(
            ScalarModel::Integer(y),
            ScalarModel::Integer(x),
        ) is Value,
        add_model(ScalarModel::Integer(x), ScalarModel::Integer(y)) is Value ==> add_model(
            ScalarModel::Integer(x),
            ScalarModel::Integer(y),
        ) == add_model(ScalarModel::Integer(y), ScalarModel::Integer(x)),
        mul_model(ScalarModel::Integer(x), ScalarModel::Integer(y)) is Value ==> mul_model(
            ScalarModel::Integer(x),
            ScalarModel::Integer(y),
        ) == mul_model(ScalarModel::Integer(y), ScalarModel::Integer(x)),
{
    assert(x * y == y * x) by (nonlinear_arith);
}


/// Integer `+`, `-` and `*` give the mathematical sum, difference and product of `lhs` and `rhs`,
/// in that order, when it fits a machine integer, and an overflow error naming the operation and
/// both operands otherwise.
pub proof fn law_integer_add_sub_mul(x: i64, y: i64)
    ensures
        i64::MIN <= x + y <= i64::MAX ==> add_model(ScalarModel::Integer(x), ScalarModel::Integer(y))
            == ArithModel::Value(ScalarModel::Integer((x + y) as i64)),
        !(i64::MIN <= x + y <= i64::MAX) ==> add_model(ScalarModel::Integer(x), ScalarModel::Integer(y))
            == ArithModel::Overflow("add"@, x, y),
        i64::MIN <= x - y <= i64::MAX ==> sub_model(ScalarModel::Integer(x), ScalarModel::Integer(y))
            == ArithModel::Value(ScalarModel::Integer((x - y) as i64)),
        !(i64::MIN <= x - y <= i64::MAX) ==> sub_model(ScalarModel::Integer(x), ScalarModel::Integer(y))
            == ArithModel::Overflow("subtract"@, x, y),
        i64::MIN <= x * y <= i64::MAX ==> mul_model(ScalarModel::Integer(x), ScalarModel::Integer(y))
            == ArithModel::Value(ScalarModel::Integer((x * y) as i64)),
        !(i64::MIN <= x * y <= i64::MAX) ==> mul_model(ScalarModel::Integer(x), ScalarModel::Integer(y))
            == ArithModel::Overflow("multiply"@, x, y),
{
}

/// Subtraction undoes addition: when `x + y` fits, subtracting `y` from it gives `x` back.
pub proof fn law_sub_undoes_add(x: i64, y: i64)
    requires
        i64::MIN <= x + y <= i64::MAX,
    ensures
        add_model(ScalarModel::Integer(x), ScalarModel::Integer(y)) matches ArithModel::Value(
            ScalarModel::Integer(s),
        ) && sub_model(ScalarModel::Integer(s), ScalarModel::Integer(y)) == ArithModel::Value(
            ScalarModel::Integer(x),
        ),
{
}

/// Integer `/` and `%` give the truncated quotient and remainder: `q * rhs + r == lhs`, the
/// remainder is smaller than the divisor in size and is zero or has the sign of `lhs`. Division
/// by zero is an error naming the operation and both operands.
pub proof fn law_integer_div_mod(x: i64, y: i64)
    requires
        !(x == i64::MIN && y == -1),
    ensures
        y == 0 ==> div_model(ScalarModel::Integer(x), ScalarModel::Integer(y)) == ArithModel::Overflow(
            "divide"@,
            x,
            y,
        ) && mod_model(ScalarModel::Integer(x), ScalarModel::Integer(y)) == ArithModel::Overflow(
            "modulo"@,
            x,
            y,
        ),
        y != 0 ==> (div_model(ScalarModel::Integer(x), ScalarModel::Integer(y)) matches ArithModel::Value(
            ScalarModel::Integer(q),
        ) && mod_model(ScalarModel::Integer(x), ScalarModel::Integer(y)) matches ArithModel::Value(
            ScalarModel::Integer(m),
        ) && q * y + m == x && (if y > 0 { -y < m < y } else { y < m < -y }) && (m == 0 || (m < 0) == (x < 0))),
{
    if y != 0 {
        lemma_truncated_division_fits(x as int, y as int);
        let q = x.checked_div(y)->0;
        let m = x.checked_rem(y)->0;
        let xi = x as int;
        let d = y as int;
        if xi == 0 {
            assert(q == 0 && m == 0);
            assert(q * y == 0) by (nonlinear_arith)
                requires
                    q == 0,
            ;
        } else if xi > 0 && d > 0 {
            assert(xi == d * (xi / d) + xi % d && 0 <= xi % d < d) by (nonlinear_arith)
                requires
                    d > 0,
            ;
            assert(q == xi / d);
            assert(m == xi % d);
            assert(q * y == d * (xi / d)) by (nonlinear_arith)
                requires
                    q == xi / d,
                    y == d,
            ;
            assert(q * y + m == x);
        } else if xi < 0 && d < 0 {
            let a = -xi;
            let b = -d;
            assert(a == b * (a / b) + a % b && 0 <= a % b < b) by (nonlinear_arith)
                requires
                    b > 0,
            ;
            assert(q == a / b);
            assert(m == -(a % b));
            assert(q * y == -(b * (a / b))) by (nonlinear_arith)
                requires
                    q == a / b,
                    y == -b,
            ;
            assert(q * y + m == x);
        } else if xi < 0 {
            let a = -xi;
            assert(a == d * (a / d) + a % d && 0 <= a % d < d) by (nonlinear_arith)
                requires
                    d > 0,
            ;
            assert(q == -(a / d));
            assert(m == -(a % d));
            assert(q * y == -(d * (a / d))) by (nonlinear_arith)
                requires
                    q == -(a / d),
                    y == d,
            ;
            assert(q * y + m == x);
        } else {
            let b = -d;
            assert(xi == b * (xi / b) + xi % b && 0 <= xi % b < b) by (nonlinear_arith)
                requires
                    b > 0,
            ;
            assert(q == -(xi / b));
            assert(m == xi % b);
            assert(q * y == b * (xi / b)) by (nonlinear_arith)
                requires
                    q == -(xi / b),
                    y == -b,
            ;
            assert(q * y + m == x);
        }
        assert(q * y + m == x);
        assert(if y > 0 { -y < m < y } else { y < m < -y });
        assert(m == 0 || (m < 0) == (x < 0));
        assert(div_model(ScalarModel::Integer(x), ScalarModel::Integer(y)) == ArithModel::Value(ScalarModel::Integer(q)));
        assert(mod_model(ScalarModel::Integer(x), ScalarModel::Integer(y)) == ArithModel::Value(ScalarModel::Integer(m)));
    }
}

/// String concatenation keeps the order of its operands: `lhs` first, then `rhs`.
pub proof fn law_concat_order(s: Seq<char>, t: Seq<char>)
    ensures
        add_model(ScalarModel::String(s), ScalarModel::String(t)) matches ArithModel::Value(ScalarModel::String(u))
            && u.len() == s.len() + t.len() && u.take(s.len() as int) == s && u.skip(s.len() as int) == t,
{
    let u = s + t;
    assert(u.take(s.len() as int) =~= s);
    assert(u.skip(s.len() as int) =~= t);
}


/// `+` on lists keeps the order of its operands: two lists are joined `lhs` first, a value added
/// to a list goes at its end, and a list added to a value follows it.
pub proof fn law_list_add_order(xs: Seq<ScalarModel>, ys: Seq<ScalarModel>, v: ScalarModel)
    requires
        !(v is Unknown),
        !(v is List),
        !(v is String),
    ensures
        add_model(ScalarModel::List(xs), ScalarModel::List(ys)) matches ArithModel::Value(ScalarModel::List(u))
            && u.len() == xs.len() + ys.len() && u.take(xs.len() as int) == xs && u.skip(xs.len() as int) == ys,
        add_model(ScalarModel::List(xs), v) matches ArithModel::Value(ScalarModel::List(u)) && u.len() == xs.len()
            + 1 && u.take(xs.len() as int) == xs && u[xs.len() as int] == v,
        add_model(v, ScalarModel::List(xs)) matches ArithModel::Value(ScalarModel::List(u)) && u.len() == xs.len()
            + 1 && u[0] == v && u.skip(1) == xs,
{
    assert((xs + ys).take(xs.len() as int) =~= xs);
    assert((xs + ys).skip(xs.len() as int) =~= ys);
    assert(xs.push(v).take(xs.len() as int) =~= xs);
    assert((seq![v] + xs).skip(1) =~= xs);
}

} // verus!
