use elio_query::execution::error::EvalError;
use elio_query::function::agg::NumberBits;
use elio_query::function::arith::{
    any_add, any_div, any_mod, any_mul, any_pow, any_sub, any_unary_add, any_unary_subtract, ArithOp, ArithOutcome,
    UnaryOutcome,
};
use elio_query::function::convert::{
    any_to_boolean, any_to_float, any_to_integer, any_to_string, boolean_to_boolean, boolean_to_float,
    boolean_to_integer, boolean_to_string, parse_integer, Converted, ONE_BITS,
};
use elio_query::scalar::ScalarValue;

fn ival(i: i64) -> ScalarValue {
    ScalarValue::Integer(i)
}

fn text(s: &str) -> ScalarValue {
    ScalarValue::String(s.to_string())
}

fn fval(f: f64) -> ScalarValue {
    ScalarValue::Float(f.to_bits())
}

fn value_of(r: Result<ArithOutcome, EvalError>) -> ScalarValue {
    match r {
        Ok(ArithOutcome::Value(v)) => v,
        _ => panic!("expected a value"),
    }
}

fn overflow_of(r: Result<ArithOutcome, EvalError>) -> (String, Vec<String>) {
    match r {
        Err(EvalError::ArithmeticOverflow { op, args }) => (op, args),
        _ => panic!("expected an arithmetic overflow"),
    }
}

fn is_type_error(r: &Result<ArithOutcome, EvalError>) -> bool {
    matches!(r, Err(EvalError::TypeError(_)))
}

#[test]
fn add_integers() {
    assert!(value_of(any_add(&ival(2), &ival(3))).same_as(&ival(5)));
    assert!(value_of(any_add(&ival(-7), &ival(3))).same_as(&ival(-4)));
}

#[test]
fn add_overflow_names_operation_and_operands() {
    let (op, args) = overflow_of(any_add(&ival(i64::MAX), &ival(1)));
    assert_eq!(op, "add");
    assert_eq!(args, vec!["9223372036854775807".to_string(), "1".to_string()]);
    let (op, args) = overflow_of(any_sub(&ival(i64::MIN), &ival(1)));
    assert_eq!(op, "subtract");
    assert_eq!(args, vec!["-9223372036854775808".to_string(), "1".to_string()]);
    let (op, _) = overflow_of(any_mul(&ival(i64::MAX), &ival(2)));
    assert_eq!(op, "multiply");
}

#[test]
fn add_joins_strings_and_lists() {
    assert!(value_of(any_add(&text("ab"), &text("cd"))).same_as(&text("abcd")));
    let l = ScalarValue::List(vec![ival(1)]);
    let m = ScalarValue::List(vec![ival(2), ival(3)]);
    assert!(value_of(any_add(&l, &m)).same_as(&ScalarValue::List(vec![ival(1), ival(2), ival(3)])));
    assert!(matches!(any_add(&l, &text("x")), Ok(ArithOutcome::Concat { text_first: false, .. })));
    assert!(value_of(any_add(&l, &ScalarValue::Bool(true)))
        .same_as(&ScalarValue::List(vec![ival(1), ScalarValue::Bool(true)])));
    assert!(value_of(any_add(&ScalarValue::Bool(false), &m))
        .same_as(&ScalarValue::List(vec![ScalarValue::Bool(false), ival(2), ival(3)])));
}

#[test]
fn add_string_with_integer_joins_the_text() {
    assert!(value_of(any_add(&text("a"), &ival(1))).same_as(&text("a1")));
    assert!(value_of(any_add(&ival(1), &text("a"))).same_as(&text("1a")));
    assert!(value_of(any_add(&text("n="), &ival(-42))).same_as(&text("n=-42")));
}

#[test]
fn add_string_with_other_value_is_a_concatenation_request() {
    match any_add(&text("flag="), &ScalarValue::Bool(true)) {
        Ok(ArithOutcome::Concat { text, value, text_first }) => {
            assert_eq!(text, "flag=");
            assert!(value.same_as(&ScalarValue::Bool(true)));
            assert!(text_first);
        },
        _ => panic!("expected a concatenation"),
    }
    match any_add(&fval(0.5), &text("!")) {
        Ok(ArithOutcome::Concat { text, value, text_first }) => {
            assert_eq!(text, "!");
            assert!(value.same_as(&fval(0.5)));
            assert!(!text_first);
        },
        _ => panic!("expected a concatenation"),
    }
}

#[test]
fn float_arithmetic_is_handed_back() {
    match any_add(&fval(1.5), &ival(2)) {
        Ok(ArithOutcome::Float { op, lhs, rhs }) => {
            assert_eq!(op, ArithOp::Add);
            assert_eq!(lhs, NumberBits::Float(1.5f64.to_bits()));
            assert_eq!(rhs, NumberBits::Integer(2));
        },
        _ => panic!("expected a float request"),
    }
    match any_pow(&ival(2), &ival(10)) {
        Ok(ArithOutcome::Float { op, lhs, rhs }) => {
            assert_eq!(op, ArithOp::Pow);
            assert_eq!(lhs, NumberBits::Integer(2));
            assert_eq!(rhs, NumberBits::Integer(10));
        },
        _ => panic!("expected a float request"),
    }
}

#[test]
fn null_operand_gives_null() {
    assert!(value_of(any_add(&ScalarValue::Unknown, &ival(1))).same_as(&ScalarValue::Unknown));
    assert!(value_of(any_mul(&ival(1), &ScalarValue::Unknown)).same_as(&ScalarValue::Unknown));
    assert!(value_of(any_div(&ScalarValue::Unknown, &ival(0))).same_as(&ScalarValue::Unknown));
    assert!(value_of(any_pow(&ScalarValue::Unknown, &text("x"))).same_as(&ScalarValue::Unknown));
}

#[test]
fn type_errors() {
    assert!(is_type_error(&any_add(&ScalarValue::Bool(true), &ival(1))));
    assert!(is_type_error(&any_sub(&text("a"), &ival(1))));
    assert!(is_type_error(&any_mul(&ScalarValue::Bool(true), &ScalarValue::Bool(false))));
    assert!(is_type_error(&any_div(&text("a"), &ival(1))));
    assert!(is_type_error(&any_mod(&ival(1), &text("a"))));
    assert!(is_type_error(&any_pow(&text("a"), &ival(1))));
}

#[test]
fn division_truncates_toward_zero() {
    assert!(value_of(any_div(&ival(7), &ival(2))).same_as(&ival(3)));
    assert!(value_of(any_div(&ival(7), &ival(-2))).same_as(&ival(-3)));
    assert!(value_of(any_div(&ival(-7), &ival(2))).same_as(&ival(-3)));
    assert!(value_of(any_mod(&ival(7), &ival(-2))).same_as(&ival(1)));
    assert!(value_of(any_mod(&ival(-7), &ival(2))).same_as(&ival(-1)));
}

#[test]
fn division_by_zero_is_an_overflow() {
    let (op, args) = overflow_of(any_div(&ival(1), &ival(0)));
    assert_eq!(op, "divide");
    assert_eq!(args, vec!["1".to_string(), "0".to_string()]);
    let (op, args) = overflow_of(any_mod(&ival(-5), &ival(0)));
    assert_eq!(op, "modulo");
    assert_eq!(args, vec!["-5".to_string(), "0".to_string()]);
}

#[test]
fn unary_operators() {
    match any_unary_add(&ival(3)) {
        UnaryOutcome::Value(v) => assert!(v.same_as(&ival(3))),
        _ => panic!("expected a value"),
    }
    match any_unary_add(&text("3")) {
        UnaryOutcome::NotANumber(v) => assert!(v.same_as(&text("3"))),
        _ => panic!("expected a rejected argument"),
    }
    match any_unary_subtract(&ival(3)) {
        UnaryOutcome::Value(v) => assert!(v.same_as(&ival(-3))),
        _ => panic!("expected a value"),
    }
    match any_unary_subtract(&fval(2.5)) {
        UnaryOutcome::Value(v) => assert!(v.same_as(&fval(-2.5))),
        _ => panic!("expected a value"),
    }
    match any_unary_subtract(&ScalarValue::Bool(true)) {
        UnaryOutcome::NotANumber(v) => assert!(v.same_as(&ScalarValue::Bool(true))),
        _ => panic!("expected a rejected argument"),
    }
}

#[test]
fn parse_integer_follows_std() {
    assert_eq!(parse_integer("42"), Some(42));
    assert_eq!(parse_integer("-42"), Some(-42));
    assert_eq!(parse_integer("+5"), Some(5));
    assert_eq!(parse_integer("007"), Some(7));
    assert_eq!(parse_integer("9223372036854775807"), Some(i64::MAX));
    assert_eq!(parse_integer("-9223372036854775808"), Some(i64::MIN));
    assert_eq!(parse_integer("9223372036854775808"), None);
    assert_eq!(parse_integer("-9223372036854775809"), None);
    assert_eq!(parse_integer(""), None);
    assert_eq!(parse_integer("-"), None);
    assert_eq!(parse_integer("+"), None);
    assert_eq!(parse_integer(" 1"), None);
    assert_eq!(parse_integer("1.5"), None);
    assert_eq!(parse_integer("12a"), None);
    for s in ["0", "-1", "123456789", "+77", "x", "--1"] {
        assert_eq!(parse_integer(s), s.parse::<i64>().ok());
    }
}

#[test]
fn to_boolean() {
    assert!(boolean_to_boolean(true));
    assert_eq!(any_to_boolean(&ScalarValue::Bool(false)), Some(false));
    assert_eq!(any_to_boolean(&text("TRUE")), Some(true));
    assert_eq!(any_to_boolean(&text("True")), Some(true));
    assert_eq!(any_to_boolean(&text("yes")), None);
    assert_eq!(any_to_boolean(&text("False")), Some(false));
    assert_eq!(any_to_boolean(&text(" true")), None);
    assert_eq!(any_to_boolean(&ival(0)), Some(false));
    assert_eq!(any_to_boolean(&ival(-3)), Some(true));
    assert_eq!(any_to_boolean(&fval(-0.0)), Some(false));
    assert_eq!(any_to_boolean(&fval(0.25)), Some(true));
    assert_eq!(any_to_boolean(&ScalarValue::Unknown), None);
    assert_eq!(any_to_boolean(&ScalarValue::List(vec![])), None);
}

fn converted_value(c: Converted) -> Option<ScalarValue> {
    match c {
        Converted::Value(v) => v,
        _ => panic!("expected a converted value"),
    }
}

#[test]
fn to_integer() {
    assert!(boolean_to_integer(true).same_as(&ival(1)));
    assert!(boolean_to_integer(false).same_as(&ival(0)));
    assert!(converted_value(any_to_integer(&ival(9))).unwrap().same_as(&ival(9)));
    assert!(converted_value(any_to_integer(&ScalarValue::Bool(true))).unwrap().same_as(&ival(1)));
    assert!(converted_value(any_to_integer(&text("-12"))).unwrap().same_as(&ival(-12)));
    assert!(converted_value(any_to_integer(&text("twelve"))).is_none());
    assert!(converted_value(any_to_integer(&text(" 12"))).is_none());
    assert!(converted_value(any_to_integer(&ScalarValue::Unknown)).is_none());
    match any_to_integer(&fval(3.75)) {
        Converted::FloatToInteger(bits) => assert_eq!(f64::from_bits(bits) as i64, 3),
        _ => panic!("expected a float conversion request"),
    }
}

#[test]
fn to_float() {
    assert!(boolean_to_float(true).same_as(&fval(1.0)));
    assert_eq!(ONE_BITS, 1.0f64.to_bits());
    assert!(boolean_to_float(false).same_as(&fval(0.0)));
    assert!(converted_value(any_to_float(&fval(2.5))).unwrap().same_as(&fval(2.5)));
    match any_to_float(&ival(7)) {
        Converted::IntegerToFloat(i) => assert_eq!(i, 7),
        _ => panic!("expected an integer conversion request"),
    }
    match any_to_float(&text("1e3")) {
        Converted::ParseFloat(t) => assert_eq!(t, "1e3"),
        _ => panic!("expected a parse request"),
    }
    assert!(converted_value(any_to_float(&ScalarValue::Bool(true))).is_none());
}

#[test]
fn to_string_conversions() {
    assert!(boolean_to_string(true).same_as(&text("true")));
    assert!(boolean_to_string(false).same_as(&text("false")));
    assert!(converted_value(any_to_string(&ival(-120))).unwrap().same_as(&text("-120")));
    assert!(converted_value(any_to_string(&ival(i64::MIN))).unwrap().same_as(&text("-9223372036854775808")));
    assert!(converted_value(any_to_string(&text("s"))).unwrap().same_as(&text("s")));
    assert!(converted_value(any_to_string(&ScalarValue::Bool(false))).unwrap().same_as(&text("false")));
    assert!(converted_value(any_to_string(&ScalarValue::Unknown)).is_none());
    match any_to_string(&fval(0.5)) {
        Converted::FloatText(bits) => assert_eq!(bits, 0.5f64.to_bits()),
        _ => panic!("expected a float text request"),
    }
}
