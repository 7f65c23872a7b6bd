use todo_list::float::Float;
use todo_list::query::ast::expression::{
    BinaryOp, BinaryOperation, Expression, Identifier, Literal, Operation, UnaryOp, UnaryOperation,
};
use todo_list::query::ast::grammar::Rule;
use todo_list::query::ast::parser::{
    boolean, escaped_double_quote_string, escaped_single_quote_string, expression, expression2,
    expression3, expression4, field, fields_projection, identifier, literal, null, number,
    predicate, query, relation_operator, string, Fault,
};
use todo_list::query::ast::{Field, FieldsProjection, Query};
use todo_list::query::evaluator::value::Number;

fn name(text: &str) -> Expression {
    Expression::Identifier(Identifier(text.to_string()))
}

fn integer(value: i64) -> Expression {
    Expression::Literal(Literal::Number(Number::Int(value)))
}

fn binary(left: Expression, op: BinaryOp, right: Expression) -> Expression {
    Expression::Operation(Box::new(Operation::Binary(BinaryOperation {
        left_expression: left,
        op,
        right_expression: right,
    })))
}

fn not(operand: Expression) -> Expression {
    Expression::Operation(Box::new(Operation::Unary(UnaryOperation {
        op: UnaryOp::Not,
        expression: operand,
    })))
}

#[test]
fn parse_number() {
    let input = "30.1";

    let valid = number(input);

    assert!(matches!(valid, Ok(("", Number::Float(ref f))) if f.bits() == 30.1f64.to_bits()));

    let input = "d31.12";

    let invalid = number(input);

    assert!(matches!(invalid, Err(_)));
}

#[test]
fn parse_single_quoted_string() {
    let input = "'string'";

    let valid = string(input);

    assert!(matches!(valid, Ok(("", str)) if str == "string"));

    let input = r#"'string""#;

    let invalid = string(input);

    assert!(matches!(invalid, Err(_)));
}

#[test]
fn parse_double_quoted_string() {
    let input = r#""string""#;

    let valid = string(input);

    assert!(matches!(valid, Ok(("", str)) if str == "string"));

    let input = r#""string"#;

    let invalid = string(input);

    assert!(matches!(invalid, Err(_)));
}

#[test]
fn parse_escaped_quoted_string() {
    let input = r#""str\"ing""#;

    let valid = string(input);

    assert!(matches!(valid, Ok(("", str)) if str == "str\\\"ing"));

    let input = r#""str"ing"#;

    let invalid = string(input);

    assert!(matches!(invalid, Ok(("ing", str)) if str == "str"));
}

#[test]
fn parse_fields() {
    let input = "field1, field2, field3";

    let valid = fields_projection(input);

    assert!(matches!(valid, Ok(("", FieldsProjection(fields))) if fields.len() == 3));

    let input = r#"field1, field2, field3,"#;

    let invalid = fields_projection(input);

    assert!(matches!(invalid, Ok((",", FieldsProjection(_)))));
}

#[test]
fn parse_identifier() {
    let input = "_identifier_123";

    let valid = identifier(input);

    assert!(matches!(valid, Ok(("", Identifier(_)))));

    let input = r#"123_identifier"#;

    let invalid = identifier(input);

    assert!(matches!(invalid, Err(_)));
}

#[test]
fn check_operator_precedence() {
    let input = "value AND (NOT value > 1) OR value";

    let received = expression(input).unwrap().1;

    let expect = Expression::Operation(Box::new(Operation::Binary(BinaryOperation {
        op: BinaryOp::Or,
        right_expression: Expression::Identifier(Identifier("value".to_string())),
        left_expression: Expression::Operation(Box::new(Operation::Binary(BinaryOperation {
            op: BinaryOp::And,
            left_expression: Expression::Identifier(Identifier("value".to_string())),
            right_expression: Expression::Operation(Box::new(Operation::Unary(UnaryOperation {
                op: UnaryOp::Not,
                expression: Expression::Operation(Box::new(Operation::Binary(BinaryOperation {
                    op: BinaryOp::Gt,
                    left_expression: Expression::Identifier(Identifier("value".to_string())),
                    right_expression: Expression::Literal(Literal::Number(Number::Int(1))),
                }))),
            }))),
        }))),
    })));

    assert_eq!(received, expect)
}

#[test]
fn number_is_an_integer_unless_a_fraction_or_an_exponent_follows() {
    assert!(matches!(number("10"), Ok(("", Number::Int(10)))));
    assert!(matches!(number("-7 "), Ok((" ", Number::Int(-7)))));
    assert!(matches!(number("+5)"), Ok((")", Number::Int(5)))));
    assert!(matches!(number("10.5"), Ok(("", Number::Float(ref f))) if f.bits() == 10.5f64.to_bits()));
    assert!(matches!(number("10e3"), Ok(("", Number::Float(ref f))) if f.bits() == 10e3f64.to_bits()));
    assert!(matches!(number("10E3x"), Ok(("x", Number::Float(ref f))) if f.bits() == 10e3f64.to_bits()));
    assert!(matches!(number("1."), Ok(("", Number::Float(ref f))) if f.bits() == 1f64.to_bits()));
}

#[test]
fn number_keeps_the_text_of_a_double() {
    match number("30.10") {
        Ok(("", Number::Float(f))) => {
            assert_eq!(f.text(), "30.1");
            assert_eq!(f.bits(), 30.1f64.to_bits());
        }
        other => panic!("unexpected {:?}", other),
    }
}

#[test]
fn number_reads_the_ends_of_the_integer_range() {
    assert!(matches!(number("9223372036854775807"), Ok(("", Number::Int(i64::MAX)))));
    assert!(matches!(number("-9223372036854775808"), Ok(("", Number::Int(i64::MIN)))));
    assert!(matches!(number("007"), Ok(("", Number::Int(7)))));
}

#[test]
fn number_too_large_for_an_integer_is_a_double() {
    assert!(matches!(
        number("9223372036854775808"),
        Ok(("", Number::Float(ref f))) if f.bits() == 9223372036854775808f64.to_bits()
    ));
}

#[test]
fn number_with_an_exponent_without_digits_is_a_failure() {
    assert!(matches!(number("1e"), Err(Fault::Failure(m)) if m.rule == Rule::Number && m.rest == "1e"));
    assert!(matches!(number("x"), Err(Fault::Error(m)) if m.rule == Rule::Number && m.rest == "x"));
    assert!(matches!(number(""), Err(Fault::Error(_))));
    assert!(matches!(number("-"), Err(Fault::Error(_))));
}

#[test]
fn null_is_read_in_any_case() {
    assert!(matches!(null("null"), Ok(("", ()))));
    assert!(matches!(null("NuLL rest"), Ok((" rest", ()))));
    assert!(matches!(null("nul"), Err(Fault::Error(m)) if m.rule == Rule::Null));
    assert!(matches!(literal("NULL"), Ok(("", Literal::Null))));
}

#[test]
fn boolean_is_read_in_lower_case_only() {
    assert!(matches!(boolean("true"), Ok(("", true))));
    assert!(matches!(boolean("false,"), Ok((",", false))));
    assert!(matches!(boolean("True"), Err(Fault::Error(m)) if m.rule == Rule::Boolean));
    assert!(matches!(boolean("FALSE"), Err(_)));
}

#[test]
fn string_keeps_escapes_as_they_are_written() {
    assert!(matches!(string(r#"'a\nb'"#), Ok(("", s)) if s == r#"a\nb"#));
    assert!(matches!(string(r#"'a\'b' x"#), Ok((" x", s)) if s == r#"a\'b"#));
    assert!(matches!(string(r#""a\\""#), Ok(("", s)) if s == r#"a\\"#));
    assert!(matches!(string(r#"'a\/\b\f\r\t'"#), Ok(("", s)) if s == r#"a\/\b\f\r\t"#));
    assert!(matches!(string("''"), Ok(("", s)) if s.is_empty()));
    assert!(matches!(string("'é \"x\"'"), Ok(("", s)) if s == "é \"x\""));
}

#[test]
fn string_with_a_wrong_escape_is_a_failure() {
    assert!(matches!(string(r#"'a\xb'"#), Err(Fault::Failure(m)) if m.rule == Rule::ClosingQuote));
    assert!(matches!(string(r#"'a\"b'"#), Err(Fault::Failure(_))));
    assert!(matches!(string(r#"'ab\"#), Err(Fault::Failure(_))));
    assert!(matches!(string("'"), Err(Fault::Failure(_))));
    assert!(matches!(string("abc"), Err(Fault::Error(m)) if m.rule == Rule::String && m.rest == "abc"));
}

#[test]
fn string_body_ends_before_the_quote() {
    assert!(matches!(escaped_double_quote_string(r#"ab\"c" x"#), Ok(("\" x", s)) if s == r#"ab\"c"#));
    assert!(matches!(escaped_single_quote_string("ab' x"), Ok(("' x", s)) if s == "ab"));
    assert!(matches!(escaped_single_quote_string("ab\" x"), Ok(("", s)) if s == "ab\" x"));
    assert!(matches!(escaped_single_quote_string("'x"), Ok(("'x", s)) if s.is_empty()));
    assert!(matches!(escaped_single_quote_string(r#"a\x'"#), Ok((r#"a\x'"#, s)) if s.is_empty()));
    assert!(matches!(escaped_double_quote_string(""), Ok(("", s)) if s.is_empty()));
}

#[test]
fn identifier_takes_letters_digits_and_underscores() {
    assert!(matches!(identifier("a1_b c"), Ok((" c", Identifier(n))) if n == "a1_b"));
    assert!(matches!(identifier("_"), Ok(("", Identifier(n))) if n == "_"));
    assert!(matches!(identifier("né"), Ok(("é", Identifier(n))) if n == "n"));
    assert!(matches!(identifier(""), Err(Fault::Error(m)) if m.rule == Rule::Identifier));
}

#[test]
fn relation_operators_are_read_longest_first() {
    assert!(matches!(relation_operator(">=1"), Ok(("1", BinaryOp::Gte))));
    assert!(matches!(relation_operator(">1"), Ok(("1", BinaryOp::Gt))));
    assert!(matches!(relation_operator("<=1"), Ok(("1", BinaryOp::Lte))));
    assert!(matches!(relation_operator("<1"), Ok(("1", BinaryOp::Lt))));
    assert!(matches!(relation_operator("=1"), Ok(("1", BinaryOp::Eq))));
    assert!(matches!(relation_operator("LIKE 'a'"), Ok((" 'a'", BinaryOp::Like))));
    assert!(matches!(relation_operator("like 'a'"), Ok((" 'a'", BinaryOp::Like))));
    assert!(matches!(relation_operator("!"), Err(Fault::Error(m)) if m.rule == Rule::RelationOperator));
}

#[test]
fn field_is_a_name_or_an_asterisk() {
    assert!(matches!(field("*"), Ok(("", Field::Asterisk))));
    assert!(matches!(field("a,"), Ok((",", Field::Name(Identifier(n)))) if n == "a"));
    assert!(matches!(field("1"), Err(Fault::Error(m)) if m.rule == Rule::Field));
    assert!(matches!(
        fields_projection("a , a,*"),
        Ok(("", FieldsProjection(fields))) if fields == vec![
            Field::Name(Identifier("a".to_string())),
            Field::Name(Identifier("a".to_string())),
            Field::Asterisk,
        ]
    ));
}

#[test]
fn operators_associate_to_the_right() {
    assert_eq!(
        expression("a OR b OR c").unwrap().1,
        binary(name("a"), BinaryOp::Or, binary(name("b"), BinaryOp::Or, name("c")))
    );
    assert_eq!(
        expression("a AND b AND c").unwrap().1,
        binary(name("a"), BinaryOp::And, binary(name("b"), BinaryOp::And, name("c")))
    );
    assert_eq!(
        expression3("a < b = c").unwrap().1,
        binary(name("a"), BinaryOp::Lt, binary(name("b"), BinaryOp::Eq, name("c")))
    );
}

#[test]
fn not_takes_the_comparison_after_it() {
    assert_eq!(
        expression2("NOT a > 1").unwrap().1,
        not(binary(name("a"), BinaryOp::Gt, integer(1)))
    );
    assert_eq!(expression2("not NOT a").unwrap().1, not(not(name("a"))));
    assert_eq!(expression2("NOTa").unwrap().1, not(name("a")));
}

#[test]
fn keywords_are_read_in_any_case() {
    assert_eq!(
        expression("a or b and not c").unwrap().1,
        binary(name("a"), BinaryOp::Or, binary(name("b"), BinaryOp::And, not(name("c"))))
    );
    assert!(Query::from_str("select a where a = 1").is_ok());
    assert!(Query::from_str("SeLeCt a WhErE a = 1").is_ok());
}

#[test]
fn parentheses_group_and_must_be_closed() {
    assert_eq!(
        expression4("( a OR b ) AND c").unwrap(),
        (" AND c", binary(name("a"), BinaryOp::Or, name("b")))
    );
    assert!(matches!(
        expression4("(a OR b"),
        Err(Fault::Failure(m)) if m.rule == Rule::ClosingParenthesis && m.rest.is_empty()
    ));
    assert!(matches!(expression("(a OR b"), Err(Fault::Failure(_))));
    assert!(matches!(expression4("()"), Err(Fault::Error(m)) if m.rule == Rule::Identifier));
}

#[test]
fn expression_leaves_what_it_cannot_read() {
    assert_eq!(expression("a > ").unwrap(), ("> ", name("a")));
    assert_eq!(expression(" a = 1 , b").unwrap(), (", b", binary(name("a"), BinaryOp::Eq, integer(1))));
    assert_eq!(predicate("a").unwrap().1.expr, name("a"));
}

#[test]
fn query_is_read_whole() {
    let read = Query::from_str("  SELECT a, *  WHERE b = 'x'  ").unwrap();
    assert_eq!(
        read.fields_projection,
        FieldsProjection(vec![Field::Name(Identifier("a".to_string())), Field::Asterisk])
    );
    assert_eq!(
        read.predicate.unwrap().expr,
        binary(name("b"), BinaryOp::Eq, Expression::Literal(Literal::String("x".to_string())))
    );
    let read = Query::from_str("SELECT *").unwrap();
    assert!(read.predicate.is_none());
    assert!(matches!(query("SELECT a WHERE"), Ok(("WHERE", q)) if q.predicate.is_none()));
}

#[test]
fn query_with_text_left_over_is_refused() {
    let error = Query::from_str("SELECT a WHERE").unwrap_err();
    assert_eq!(error.rule, Rule::EndOfInput);
    assert_eq!(error.rest, "WHERE");
    assert_eq!(
        error.to_text(),
        "Query parsing failed. Error: expected the end of the query at: WHERE"
    );
    let error = Query::from_str("a = 1").unwrap_err();
    assert_eq!(error.rule, Rule::Select);
    let error = Query::from_str("SELECT").unwrap_err();
    assert_eq!(error.rule, Rule::Field);
    let error = Query::from_str("SELECT a WHERE b = 'x").unwrap_err();
    assert_eq!(error.rule, Rule::ClosingQuote);
    assert_eq!(error.rest, "'x");
}

#[test]
fn double_carries_bits_and_text() {
    let f = Float::new(1.5f64.to_bits(), 1.5f64.to_string());
    assert_eq!(f.bits(), 0x3FF8_0000_0000_0000);
    assert_eq!(f.text(), "1.5");
    assert_eq!(f.truncate(), 1);
}

#[test]
fn parentheses_nest_up_to_a_bound() {
    let nested = |depth: usize| format!("{}a{}", "(".repeat(depth), ")".repeat(depth));
    let deepest = nested(64);
    assert_eq!(expression(&deepest).unwrap(), ("", name("a")));
    let spaced = format!("{}a{}", "( ".repeat(64), " )".repeat(64));
    assert_eq!(expression(&spaced).unwrap(), ("", name("a")));
    let too_deep = nested(65);
    assert!(matches!(
        expression(&too_deep),
        Err(Fault::Failure(m)) if m.rule == Rule::Nesting && m.rest == &too_deep[64..]
    ));
    let far_too_deep = "(".repeat(100_000);
    assert!(matches!(expression(&far_too_deep), Err(Fault::Failure(m)) if m.rule == Rule::Nesting));
    let error = Query::from_str(&format!("SELECT * WHERE {}", too_deep)).unwrap_err();
    assert_eq!(error.rule, Rule::Nesting);
    assert_eq!(
        error.to_text(),
        format!("Query parsing failed. Error: expected fewer parentheses within parentheses at: {}", &too_deep[64..])
    );
}

#[test]
fn long_chains_are_read() {
    let terms = vec!["a = 1"; 200].join(" OR ");
    let (rest, tree) = expression(&terms).unwrap();
    assert_eq!(rest, "");
    let mut count = 1;
    let mut node = &tree;
    while let Expression::Operation(operation) = node {
        match &**operation {
            Operation::Binary(BinaryOperation { op: BinaryOp::Or, right_expression, .. }) => {
                count += 1;
                node = right_expression;
            }
            _ => break,
        }
    }
    assert_eq!(count, 200);
    let mixed = vec!["(NOT a > 1 AND b LIKE 'x')"; 50].join(" OR ");
    assert!(Query::from_str(&format!("SELECT * WHERE {}", mixed)).is_ok());
}

#[test]
fn whitespace_at_the_front_is_passed_over() {
    assert_eq!(expression("  a = 1").unwrap(), ("", binary(name("a"), BinaryOp::Eq, integer(1))));
    assert_eq!(
        expression(" \t\r\n a AND b OR c ").unwrap(),
        ("", binary(binary(name("a"), BinaryOp::And, name("b")), BinaryOp::Or, name("c")))
    );
    assert_eq!(expression3(" a > 1").unwrap(), ("> 1", name("a")));
    assert_eq!(expression2(" a > 1").unwrap(), ("", binary(name("a"), BinaryOp::Gt, integer(1))));
    assert_eq!(expression3("a >").unwrap(), (">", name("a")));
    assert!(matches!(expression4(" a "), Err(Fault::Error(m)) if m.rule == Rule::Identifier && m.rest == " a "));
}
