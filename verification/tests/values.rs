use chrono::{Datelike, NaiveDateTime, Timelike, Utc};
use todo_list::datetime::DateTime;
use todo_list::float::Float;
use todo_list::query::ast::expression::BinaryOp;
use todo_list::query::evaluator::value::conversion::{ConversionError, Type};
use todo_list::query::evaluator::value::operations::BinaryOperationError;
use todo_list::query::evaluator::value::{Number, Value};
use todo_list::query::EvaluationError;

fn moment(date: chrono::DateTime<Utc>) -> DateTime {
    DateTime::from_timestamp(date.timestamp(), date.timestamp_subsec_nanos()).unwrap()
}

fn at(text: &str) -> DateTime {
    moment(NaiveDateTime::parse_from_str(text, "%Y-%m-%d %H:%M").unwrap().and_utc())
}

fn double(value: f64) -> Number {
    Number::Float(Float::new(value.to_bits(), value.to_string()))
}

fn text(value: &str) -> Value {
    Value::String(value.to_string())
}

#[test]
fn date_format() {
    let date = chrono::DateTime::<Utc>::default()
        .with_year(2020).unwrap()
        .with_month(12).unwrap()
        .with_day(12).unwrap()
        .with_hour(20).unwrap()
        .with_minute(20).unwrap();

    let date = Value::DateTime(moment(date));

    assert_eq!(date.to_text(), "2020-12-12 20:20");
}

#[test]
fn value_cmp() {
    let left = Value::Number(1.into());
    let right = Value::Number(double(10.));

    assert!(left < right)
}

#[test]
fn unify_types() {
    let left = Value::String("2020-12-12 20:20".to_string());
    let right = Value::DateTime(moment(Utc::now()));

    assert_ne!(left.get_type(), right.get_type());

    let (left, right) = Value::unify_types(&left, &right).unwrap();

    assert_eq!(left.get_type(), right.get_type());
    assert_eq!(left.get_type(), Type::DateTime);

    let null = Value::Null;

    assert!(matches!(Value::unify_types(&left, &null), Err(ConversionError::NotAllowed {..})));
}

#[test]
fn cast_string_to_num() {
    let value = Value::String("3.14".to_string());

    assert_ne!(value.get_type(), Type::Number);

    assert!(matches!(value.cast_to_number(), Ok(Number::Float(f)) if f.bits() == 3.14f64.to_bits()));

    let incorrect = Value::String("IncorrectNumber".to_string());

    assert!(matches!(
        incorrect.cast_to_number(),
        Err(ConversionError::Failed { .. })
    ));
}

#[test]
fn cast_string_to_datetime() {
    let value = Value::String("2020-12-12 20:20".to_string());

    assert_ne!(value.get_type(), Type::DateTime);

    assert!(matches!(value.cast_to_datetime(),
        Ok(datetime) if Value::DateTime(datetime) == Value::DateTime(at("2020-12-12 20:20")))
    );

    let incorrect = Value::String("IncorrectDate".to_string());

    assert!(matches!(
        incorrect.cast_to_datetime(),
        Err(ConversionError::Failed { .. })
    ));
}

#[test]
fn not_allowed_cast() {
    let value = Value::Bool(true);

    assert_ne!(value.get_type(), Type::DateTime);

    assert!(matches!(value.cast_to_datetime(), Err(ConversionError::NotAllowed { .. })));
}

#[test]
fn gt_same_types() {
    let left = Value::Number(Number::from(10));
    let right = Value::Number(Number::from(11));

    assert!(matches!(Value::gt(&left, &right), Ok(Value::Bool(false))));
}

#[test]
fn gt_different_types() {
    let left = Value::String("2024-12-12 20:20".to_string());
    let right = Value::DateTime(at("2020-12-12 20:20"));

    assert!(matches!(Value::gt(&left, &right), Ok(Value::Bool(true))));
}

#[test]
fn gt_null() {
    let left = Value::Number(Number::from(10));
    let right = Value::Null;

    assert!(matches!(Value::gt(&left, &right), Err(EvaluationError::BinaryOperation(BinaryOperationError::Unsupported { .. }))));
}

#[test]
fn eq_null() {
    let left = Value::Number(Number::from(10));
    let right = Value::Null;

    assert!(matches!(Value::eq(&left, &right), Ok(Value::Bool(false))));
}

#[test]
fn and_no_bool() {
    let left = Value::String("2024-12-12 20:20".to_string());
    let right = Value::DateTime(at("2020-12-12 20:20"));

    assert!(matches!(Value::and(&left, &right), Err(EvaluationError::BinaryOperation(BinaryOperationError::Unsupported { .. }))));
}

#[test]
fn and() {
    let left = Value::Bool(true);
    let right = Value::Bool(false);

    assert!(matches!(Value::and(&left, &right), Ok(Value::Bool(false))));
}

#[test]
fn like_not_string_pattern() {
    let left = Value::String("string".to_string());
    let pattern = Value::Bool(false);

    assert!(matches!(Value::like(&left, &pattern), Err(EvaluationError::BinaryOperation(BinaryOperationError::Unsupported { .. }))));
}

#[test]
fn like() {
    let left = Value::String("string".to_string());
    let pattern = Value::String("str".to_string());

    assert!(matches!(Value::like(&left, &pattern), Ok(Value::Bool(true))));
}

#[test]
fn types_are_ranked_from_datetime_down_to_null() {
    assert_eq!(Type::DateTime.precedence(), 0);
    assert_eq!(Type::Number.precedence(), 1);
    assert_eq!(Type::Bool.precedence(), 3);
    assert_eq!(Type::String.precedence(), 4);
    assert_eq!(Type::Null.precedence(), 5);
    assert_eq!(Type::DateTime.as_str(), "DateTime");
    assert_eq!(Type::Null.as_str(), "Null");
    assert_eq!(Value::Null.get_type(), Type::Null);
    assert_eq!(Value::Bool(true).get_type(), Type::Bool);
    assert_eq!(Value::Number(Number::Int(1)).get_type(), Type::Number);
    assert_eq!(text("a").get_type(), Type::String);
    assert_eq!(Value::DateTime(at("2020-12-12 20:20")).get_type(), Type::DateTime);
}

#[test]
fn unify_casts_the_weaker_side() {
    let (l, r) = Value::unify_types(&Value::Bool(true), &Value::Number(Number::Int(7))).unwrap();
    assert_eq!(l, Value::Number(Number::Int(1)));
    assert_eq!(r, Value::Number(Number::Int(7)));
    let (l, r) = Value::unify_types(&text("12"), &Value::Number(Number::Int(7))).unwrap();
    assert_eq!(l, Value::Number(Number::Int(12)));
    assert_eq!(r, Value::Number(Number::Int(7)));
    let (l, r) = Value::unify_types(&text("true"), &Value::Bool(false)).unwrap();
    assert_eq!(l, Value::Bool(true));
    assert_eq!(r, Value::Bool(false));
    let (l, r) = Value::unify_types(&Value::Number(Number::Int(60)), &Value::DateTime(at("1970-01-01 00:01"))).unwrap();
    assert_eq!(l, r);
    let (l, r) = Value::unify_types(&text("a"), &text("b")).unwrap();
    assert_eq!((l, r), (text("a"), text("b")));
    assert!(matches!(Value::unify_types(&Value::Null, &Value::Null), Ok((Value::Null, Value::Null))));
}

#[test]
fn unify_with_null_is_not_allowed() {
    for value in [Value::Bool(true), Value::Number(Number::Int(1)), text("a"), Value::DateTime(at("2020-12-12 20:20"))] {
        let from_right = Value::unify_types(&value, &Value::Null);
        assert!(matches!(from_right, Err(ConversionError::NotAllowed { from: Type::Null, to }) if to == value.get_type()));
        let from_left = Value::unify_types(&Value::Null, &value);
        assert!(matches!(from_left, Err(ConversionError::NotAllowed { from: Type::Null, to }) if to == value.get_type()));
    }
}

#[test]
fn cast_to_null_is_not_allowed() {
    assert!(matches!(
        text("a").cast_to(Type::Null),
        Err(ConversionError::NotAllowed { from: Type::String, to: Type::Null })
    ));
    assert!(matches!(
        Value::Null.cast_to(Type::Null),
        Err(ConversionError::NotAllowed { from: Type::Null, to: Type::Null })
    ));
}

#[test]
fn cast_to_datetime_counts_seconds() {
    let day = Value::Number(Number::Int(86_400)).cast_to_datetime().unwrap();
    assert_eq!(day.timestamp(), 86_400);
    assert_eq!(day.subsec_nanos(), 0);
    assert_eq!(day.format(), "1970-01-02 00:00");
    let cut = Value::Number(double(59.9)).cast_to_datetime().unwrap();
    assert_eq!(cut.timestamp(), 59);
    assert!(matches!(
        Value::Number(Number::Int(i64::MAX)).cast_to_datetime(),
        Err(ConversionError::Failed { dest_type: Type::DateTime, reason, .. }) if reason == "Number is out-of-range"
    ));
    assert!(matches!(
        Value::Null.cast_to_datetime(),
        Err(ConversionError::NotAllowed { from: Type::Null, to: Type::DateTime })
    ));
    let same = Value::DateTime(at("2020-12-12 20:20")).cast_to_datetime().unwrap();
    assert_eq!(same.timestamp(), 1_607_804_400);
}

#[test]
fn cast_to_number_reads_integers_first() {
    assert!(matches!(text("42").cast_to_number(), Ok(Number::Int(42))));
    assert!(matches!(text("-42").cast_to_number(), Ok(Number::Int(-42))));
    assert!(matches!(text("+42").cast_to_number(), Ok(Number::Int(42))));
    assert!(matches!(text("1e2").cast_to_number(), Ok(Number::Float(f)) if f.bits() == 100f64.to_bits()));
    assert!(matches!(text("inf").cast_to_number(), Ok(Number::Float(f)) if f.bits() == f64::INFINITY.to_bits()));
    assert!(matches!(text("42 ").cast_to_number(), Err(ConversionError::Failed { dest_type: Type::Number, .. })));
    assert!(matches!(text("").cast_to_number(), Err(ConversionError::Failed { .. })));
    assert!(matches!(text("1e").cast_to_number(), Err(ConversionError::Failed { .. })));
    assert!(matches!(Value::Bool(true).cast_to_number(), Ok(Number::Int(1))));
    assert!(matches!(Value::Bool(false).cast_to_number(), Ok(Number::Int(0))));
    assert!(matches!(Value::DateTime(at("1970-01-01 00:02")).cast_to_number(), Ok(Number::Int(120))));
    assert!(matches!(
        Value::Null.cast_to_number(),
        Err(ConversionError::NotAllowed { from: Type::Null, to: Type::Number })
    ));
}

#[test]
fn cast_to_string_writes_values_out() {
    assert_eq!(text("a").cast_to_string().unwrap(), "a");
    assert_eq!(Value::Bool(true).cast_to_string().unwrap(), "true");
    assert_eq!(Value::Bool(false).cast_to_string().unwrap(), "false");
    assert_eq!(Value::Number(Number::Int(-120)).cast_to_string().unwrap(), "-120");
    assert_eq!(Value::Number(Number::Int(0)).cast_to_string().unwrap(), "0");
    assert_eq!(Value::Number(Number::Int(i64::MIN)).cast_to_string().unwrap(), i64::MIN.to_string());
    assert_eq!(Value::Number(Number::Int(i64::MAX)).cast_to_string().unwrap(), i64::MAX.to_string());
    assert_eq!(Value::Number(double(2.5)).cast_to_string().unwrap(), "2.5");
    assert_eq!(Value::DateTime(at("2020-12-12 20:20")).cast_to_string().unwrap(), "2020-12-12 20:20");
    assert!(matches!(
        Value::Null.cast_to_string(),
        Err(ConversionError::NotAllowed { from: Type::Null, to: Type::String })
    ));
    assert_eq!(Value::Null.to_text(), "NULL");
}

#[test]
fn cast_to_bool_takes_zero_for_false() {
    assert!(matches!(Value::Bool(true).cast_to_bool(), Ok(true)));
    assert!(matches!(Value::Number(Number::Int(0)).cast_to_bool(), Ok(false)));
    assert!(matches!(Value::Number(Number::Int(-3)).cast_to_bool(), Ok(true)));
    assert!(matches!(Value::Number(double(0.9)).cast_to_bool(), Ok(false)));
    assert!(matches!(Value::Number(double(-1.5)).cast_to_bool(), Ok(true)));
    assert!(matches!(Value::Number(double(f64::NAN)).cast_to_bool(), Ok(false)));
    assert!(matches!(text("true").cast_to_bool(), Ok(true)));
    assert!(matches!(text("false").cast_to_bool(), Ok(false)));
    assert!(matches!(
        text("True").cast_to_bool(),
        Err(ConversionError::Failed { dest_type: Type::Bool, .. })
    ));
    assert!(matches!(
        Value::Null.cast_to_bool(),
        Err(ConversionError::NotAllowed { from: Type::Null, to: Type::Bool })
    ));
    assert!(matches!(
        Value::DateTime(at("2020-12-12 20:20")).cast_to_bool(),
        Err(ConversionError::NotAllowed { from: Type::DateTime, to: Type::Bool })
    ));
}

#[test]
fn eq_of_null_with_null_is_true() {
    assert!(matches!(Value::eq(&Value::Null, &Value::Null), Ok(Value::Bool(true))));
    assert!(matches!(Value::eq(&Value::Null, &text("a")), Ok(Value::Bool(false))));
    assert!(matches!(Value::eq(&text("1"), &Value::Number(Number::Int(1))), Ok(Value::Bool(true))));
    assert!(matches!(Value::eq(&text("a"), &text("a")), Ok(Value::Bool(true))));
    assert!(matches!(Value::eq(&text("a"), &text("b")), Ok(Value::Bool(false))));
    assert!(matches!(
        Value::eq(&text("a"), &Value::Number(Number::Int(1))),
        Err(EvaluationError::Conversion(ConversionError::Failed { .. }))
    ));
}

#[test]
fn comparisons_follow_the_order_of_values() {
    let one = Value::Number(Number::Int(1));
    let two = Value::Number(double(2.0));
    assert!(matches!(Value::lt(&one, &two), Ok(Value::Bool(true))));
    assert!(matches!(Value::lte(&one, &one), Ok(Value::Bool(true))));
    assert!(matches!(Value::gt(&one, &two), Ok(Value::Bool(false))));
    assert!(matches!(Value::gte(&two, &one), Ok(Value::Bool(true))));
    assert!(matches!(Value::gte(&one, &two), Ok(Value::Bool(false))));
    assert!(matches!(Value::lt(&text("abc"), &text("abd")), Ok(Value::Bool(true))));
    assert!(matches!(Value::lt(&text("ab"), &text("abc")), Ok(Value::Bool(true))));
    assert!(matches!(Value::lt(&text("b"), &text("abc")), Ok(Value::Bool(false))));
    assert!(matches!(Value::lt(&Value::Bool(false), &Value::Bool(true)), Ok(Value::Bool(true))));
    assert!(matches!(
        Value::lt(&Value::DateTime(at("2020-12-12 20:20")), &text("2020-12-12 20:21")),
        Ok(Value::Bool(true))
    ));
    let nan = Value::Number(double(f64::NAN));
    assert!(matches!(Value::lt(&nan, &one), Ok(Value::Bool(false))));
    assert!(matches!(Value::gte(&nan, &one), Ok(Value::Bool(false))));
    assert!(matches!(Value::eq(&nan, &nan), Ok(Value::Bool(false))));
    for op in [Value::lt, Value::lte, Value::gt, Value::gte] {
        assert!(matches!(
            op(&Value::Null, &one),
            Err(EvaluationError::BinaryOperation(BinaryOperationError::Unsupported {
                left: Type::Null,
                right: Type::Number,
                ..
            }))
        ));
    }
    assert!(matches!(
        Value::lte(&one, &Value::Null),
        Err(EvaluationError::BinaryOperation(BinaryOperationError::Unsupported {
            operator: BinaryOp::Lte,
            ..
        }))
    ));
}

#[test]
fn and_casts_the_side_that_is_no_boolean() {
    assert!(matches!(Value::and(&Value::Bool(true), &text("true")), Ok(Value::Bool(true))));
    assert!(matches!(Value::and(&Value::Number(Number::Int(0)), &Value::Bool(true)), Ok(Value::Bool(false))));
    assert!(matches!(Value::or(&Value::Bool(false), &Value::Number(Number::Int(2))), Ok(Value::Bool(true))));
    assert!(matches!(Value::or(&text("false"), &Value::Bool(false)), Ok(Value::Bool(false))));
    assert!(matches!(
        Value::and(&Value::Bool(false), &text("x")),
        Err(EvaluationError::Conversion(ConversionError::Failed { dest_type: Type::Bool, .. }))
    ));
    assert!(matches!(
        Value::or(&Value::Bool(true), &Value::Null),
        Err(EvaluationError::Conversion(ConversionError::NotAllowed { .. }))
    ));
    assert!(matches!(
        Value::or(&text("a"), &text("b")),
        Err(EvaluationError::BinaryOperation(BinaryOperationError::Unsupported {
            left: Type::String,
            right: Type::String,
            operator: BinaryOp::Or,
        }))
    ));
}

#[test]
fn like_looks_for_the_pattern_as_it_is_written() {
    assert!(matches!(Value::like(&text("Hello World"), &text("lo W")), Ok(Value::Bool(true))));
    assert!(matches!(Value::like(&text("Hello World"), &text("hello")), Ok(Value::Bool(false))));
    assert!(matches!(Value::like(&text("Hello"), &text("%ell%")), Ok(Value::Bool(false))));
    assert!(matches!(Value::like(&text("Hello"), &text("")), Ok(Value::Bool(true))));
    assert!(matches!(Value::like(&text(""), &text("a")), Ok(Value::Bool(false))));
    assert!(matches!(Value::like(&text("héllo"), &text("él")), Ok(Value::Bool(true))));
    assert!(matches!(Value::like(&Value::Number(Number::Int(1234)), &text("23")), Ok(Value::Bool(true))));
    assert!(matches!(Value::like(&Value::Number(double(12.5)), &text("2.5")), Ok(Value::Bool(true))));
    assert!(matches!(Value::like(&Value::Bool(true), &text("ru")), Ok(Value::Bool(true))));
    assert!(matches!(
        Value::like(&Value::Null, &text("a")),
        Err(EvaluationError::Conversion(ConversionError::NotAllowed { from: Type::Null, to: Type::String }))
    ));
}

#[test]
fn not_negates_what_converts_to_a_boolean() {
    assert!(matches!(Value::not(&Value::Bool(true)), Ok(Value::Bool(false))));
    assert!(matches!(Value::not(&Value::Number(Number::Int(0))), Ok(Value::Bool(true))));
    assert!(matches!(Value::not(&text("false")), Ok(Value::Bool(true))));
    assert!(matches!(
        Value::not(&Value::Null),
        Err(EvaluationError::Conversion(ConversionError::NotAllowed { .. }))
    ));
}

#[test]
fn operators_are_written_as_in_a_query() {
    assert_eq!(BinaryOp::Gt.as_str(), ">");
    assert_eq!(BinaryOp::Lt.as_str(), "<");
    assert_eq!(BinaryOp::Gte.as_str(), ">=");
    assert_eq!(BinaryOp::Lte.as_str(), "<=");
    assert_eq!(BinaryOp::Eq.as_str(), "=");
    assert_eq!(BinaryOp::Like.to_text(), "LIKE");
    assert_eq!(BinaryOp::And.to_text(), "AND");
    assert_eq!(BinaryOp::Or.to_text(), "OR");
}

#[test]
fn numbers_compare_as_doubles_where_one_is_a_double() {
    assert!(Number::Int(1) == double(1.0));
    assert!(Number::Int(2) > double(1.5));
    assert!(double(-0.0) == double(0.0));
    assert!(double(f64::NAN) != double(f64::NAN));
    assert!(Number::Int(9_007_199_254_740_993) == double(9_007_199_254_740_992.0));
    assert!(Number::Int(9_007_199_254_740_993) != Number::Int(9_007_199_254_740_992));
    assert!(double(f64::NEG_INFINITY) < Number::Int(i64::MIN));
    assert_eq!(double(3.99).as_i64(), 3);
    assert_eq!(Number::Int(-5).as_i64(), -5);
    assert_eq!(Number::Int(12).to_text(), "12");
    assert!(matches!(Number::parse("12"), Some(Number::Int(12))));
    assert!(Number::parse("twelve").is_none());
}

#[test]
fn values_of_different_types_are_ordered_by_their_variant() {
    assert!(Value::Null < Value::Bool(false));
    assert!(Value::Bool(true) < Value::Number(Number::Int(0)));
    assert!(Value::Number(Number::Int(9)) < text(""));
    assert!(text("z") < Value::DateTime(at("1970-01-01 00:00")));
    assert!(Value::Null == Value::Null);
    assert!(text("a") != Value::Null);
}

#[test]
fn numbers_are_read_from_texts() {
    assert!(matches!("12".parse::<Number>(), Ok(Number::Int(12))));
    assert!(matches!("1.5".parse::<Number>(), Ok(Number::Float(f)) if f.bits() == 1.5f64.to_bits()));
    assert!("x".parse::<Number>().is_err());
}
