//! The parser of the query language: one function for each rule of the
//! grammar, each proved to read what the rule says.

use super::expression::{
    BinaryOp, BinaryOperation, Expression, Identifier, Literal, Operation, UnaryOp, UnaryOperation,
};
use super::grammar;
use super::grammar::{Body, MismatchView, Parsed, Rule, MAX_NESTING};
use super::fields_view;
use super::{Field, FieldsProjection, Predicate, Query};
use crate::float::read_double;
use crate::query::evaluator::value::Number;
use crate::text::{
    ascii_upper, char_ascii_upper, char_is_alpha, char_is_alphanumeric, char_is_space, first_char,
    is_space,
    lemma_run_is, lemma_skip_spaces_shorter, owned, read_leading_i64, skip_chars, skip_spaces,
    take_chars, trim_start,
};
use vstd::prelude::*;

verus! {

/// Where a rule did not match: the text it stood at and what it looked for.
#[derive(Clone, Copy, Debug)]
pub struct Mismatch<'a> {
    pub rest: &'a str,
    pub rule: Rule,
}

impl<'a> View for Mismatch<'a> {
    type V = MismatchView;

    open spec fn view(&self) -> MismatchView {
        MismatchView { rest: self.rest@, rule: self.rule }
    }
}

/// Why a rule read nothing.
#[derive(Clone, Copy, Debug)]
pub enum Fault<'a> {
    /// The rule does not match here; another reading may.
    Error(Mismatch<'a>),
    /// The text is broken; no other reading is tried.
    Failure(Mismatch<'a>),
}

/// Whether the result of a parser is what the rule makes of the text.
pub open spec fn reads<T: View>(r: Result<(&str, T), Fault>, parsed: Parsed<T::V>) -> bool {
    match r {
        Ok((rest, value)) => parsed == Parsed::Done(value@, rest@),
        Err(Fault::Error(m)) => parsed == Parsed::<T::V>::Error(m@),
        Err(Fault::Failure(m)) => parsed == Parsed::<T::V>::Failure(m@),
    }
}

/// Whether a parser that read something left less text than it was given.
pub open spec fn advances<T>(r: Result<(&str, T), Fault>, input: &str) -> bool {
    r matches Ok((rest, _)) ==> rest@.len() < input@.len()
}

fn error<'a, T>(rest: &'a str, rule: Rule) -> (r: Result<(&'a str, T), Fault<'a>>)
    ensures
        r == Err::<(&str, T), _>(Fault::Error(Mismatch { rest, rule })),
{
    Err(Fault::Error(Mismatch { rest, rule }))
}

fn failure<'a, T>(rest: &'a str, rule: Rule) -> (r: Result<(&'a str, T), Fault<'a>>)
    ensures
        r == Err::<(&str, T), _>(Fault::Failure(Mismatch { rest, rule })),
{
    Err(Fault::Failure(Mismatch { rest, rule }))
}

/// The text after `word`, where `input` begins with it letter for letter.
fn tag<'a>(input: &'a str, word: &str) -> (rest: Option<&'a str>)
    ensures
        rest is Some == grammar::begins_with(input@, word@),
        rest matches Some(r) ==> r@ == input@.skip(word@.len() as int),
{
    let n = word.unicode_len();
    let len = input.unicode_len();
    if len < n {
        return None;
    }
    let mut i: usize = 0;
    while i < n
        invariant
            i <= n <= len,
            n == word@.len(),
            len == input@.len(),
            forall|j: int| 0 <= j < i ==> input@[j] == word@[j],
        decreases n - i,
    {
        if input.get_char(i) != word.get_char(i) {
            assert(input@.take(n as int)[i as int] != word@[i as int]);
            return None;
        }
        i += 1;
    }
    assert(input@.take(n as int) =~= word@);
    Some(input.substring_char(n, len))
}

/// The text after `word`, where `input` begins with it in any case.
fn tag_no_case<'a>(input: &'a str, word: &str) -> (rest: Option<&'a str>)
    ensures
        rest is Some == grammar::begins_with_no_case(input@, word@),
        rest matches Some(r) ==> r@ == input@.skip(word@.len() as int),
{
    let n = word.unicode_len();
    let len = input.unicode_len();
    if len < n {
        return None;
    }
    let mut i: usize = 0;
    while i < n
        invariant
            i <= n <= len,
            n == word@.len(),
            len == input@.len(),
            forall|j: int| 0 <= j < i ==> ascii_upper(#[trigger] input@[j]) == ascii_upper(word@[j]),
        decreases n - i,
    {
        if char_ascii_upper(input.get_char(i)) != char_ascii_upper(word.get_char(i)) {
            return None;
        }
        i += 1;
    }
    Some(input.substring_char(n, len))
}

/// The text after a keyword and the whitespace around it.
fn keyword<'a>(input: &'a str, word: &str) -> (rest: Option<&'a str>)
    requires
        word@.len() > 0,
    ensures
        match rest {
            Some(r) => grammar::keyword(input@, word@) == Some(r@) && r@.len() < input@.len(),
            None => grammar::keyword(input@, word@) is None,
        },
{
    let front = trim_start(input);
    match tag_no_case(front, word) {
        Some(after) => {
            proof {
                lemma_skip_spaces_shorter(after@);
            }
            Some(trim_start(after))
        },
        None => None,
    }
}

/// The text after the character `c`, where `input` begins with it.
fn symbol<'a>(input: &'a str, c: char) -> (rest: Option<&'a str>)
    ensures
        rest is Some == (input@.len() > 0 && input@[0] == c),
        rest matches Some(r) ==> r@ == input@.skip(1),
{
    match first_char(input) {
        Some(first) => if first == c {
            Some(skip_chars(input, 1))
        } else {
            None
        },
        None => None,
    }
}

/// The same result with the whitespace after a value passed over.
fn trimmed<'a, T: View>(r: Result<(&'a str, T), Fault<'a>>) -> (t: Result<(&'a str, T), Fault<'a>>)
    ensures
        forall|parsed: Parsed<T::V>| reads(r, parsed) ==> reads(t, grammar::trimmed(parsed)),
        r matches Ok((rest, _)) ==> t matches Ok((shorter, _)) && shorter@.len() <= rest@.len(),
        r is Err ==> t is Err,
{
    match r {
        Ok((rest, value)) => Ok((trim_start(rest), value)),
        Err(fault) => Err(fault),
    }
}

/// Parse a literal: `NULL`, a number, a boolean or a string
pub fn literal<'a>(input: &'a str) -> (r: Result<(&'a str, Literal), Fault<'a>>)
    ensures
        reads(r, grammar::literal(input@)),
        advances(r, input),
{
    match null(input) {
        Ok((rest, _)) => Ok((rest, Literal::Null)),
        Err(_) => match number(input) {
            Ok((rest, n)) => Ok((rest, Literal::Number(n))),
            Err(Fault::Failure(m)) => Err(Fault::Failure(m)),
            Err(Fault::Error(_)) => match boolean(input) {
                Ok((rest, b)) => Ok((rest, Literal::Bool(b))),
                Err(_) => match string(input) {
                    Ok((rest, text)) => Ok((rest, Literal::String(text))),
                    Err(fault) => Err(fault),
                },
            },
        },
    }
}

/// Parse `NULL`, in any case
pub fn null<'a>(input: &'a str) -> (r: Result<(&'a str, ()), Fault<'a>>)
    ensures
        reads(r, grammar::null(input@)),
        advances(r, input),
{
    proof {
        reveal_strlit("null");
    }
    match tag_no_case(input, "null") {
        Some(rest) => Ok((rest, ())),
        None => error(input, Rule::Null),
    }
}

/// Parse a number: an integer, or a double where a fraction or an exponent
/// follows the integer or the integer does not fit
pub fn number<'a>(input: &'a str) -> (r: Result<(&'a str, Number), Fault<'a>>)
    ensures
        reads(r, grammar::number(input@)),
        advances(r, input),
{
    match read_leading_i64(input) {
        Some((value, used)) => {
            let rest = skip_chars(input, used);
            let followed = match first_char(rest) {
                Some(c) => c == '.' || c == 'e' || c == 'E',
                None => false,
            };
            if !followed {
                return Ok((rest, Number::Int(value)));
            }
        },
        None => {},
    }
    match read_double(input) {
        Ok((float, rest)) => Ok((rest, Number::Float(float))),
        Err(fatal) => if fatal {
            failure(input, Rule::Number)
        } else {
            error(input, Rule::Number)
        },
    }
}

/// Parse `true` or `false`
pub fn boolean<'a>(input: &'a str) -> (r: Result<(&'a str, bool), Fault<'a>>)
    ensures
        reads(r, grammar::boolean(input@)),
        advances(r, input),
{
    proof {
        reveal_strlit("false");
        reveal_strlit("true");
    }
    match tag(input, "false") {
        Some(rest) => Ok((rest, false)),
        None => match tag(input, "true") {
            Some(rest) => Ok((rest, true)),
            None => error(input, Rule::Boolean),
        },
    }
}

/// How the body of a string ends.
enum BodyEnd {
    Closed(usize),
    Open,
    Broken,
}

impl View for BodyEnd {
    type V = Body;

    closed spec fn view(&self) -> Body {
        match self {
            BodyEnd::Closed(end) => Body::Closed(*end as int),
            BodyEnd::Open => Body::Open,
            BodyEnd::Broken => Body::Broken,
        }
    }
}

fn escapable(c: char, quote: char) -> (b: bool)
    ensures
        b == grammar::escapable(c, quote),
{
    c == quote || c == '\\' || c == '/' || c == 'b' || c == 'f' || c == 'n' || c == 'r' || c == 't'
}

/// Looks for the end of the body of a string from `from` on.
fn body_end(input: &str, quote: char, from: usize) -> (r: BodyEnd)
    requires
        from <= input@.len(),
    ensures
        r@ == grammar::body_end(input@, quote, from as int),
        r matches BodyEnd::Closed(end) ==> from <= end < input@.len(),
{
    let len = input.unicode_len();
    let mut i: usize = from;
    while i < len && input.get_char(i) != quote
        invariant
            from <= i <= len,
            len == input@.len(),
            grammar::body_end(input@, quote, from as int) == grammar::body_end(
                input@,
                quote,
                i as int,
            ),
        decreases len - i,
    {
        if input.get_char(i) == '\\' {
            if i + 1 < len && escapable(input.get_char(i + 1), quote) {
                if i + 2 > len {
                    return BodyEnd::Open;
                }
                i += 2;
            } else {
                return BodyEnd::Broken;
            }
        } else {
            i += 1;
        }
    }
    if i >= len {
        BodyEnd::Open
    } else {
        BodyEnd::Closed(i)
    }
}

/// Reads a string in the given quotes.
fn quoted<'a>(input: &'a str, quote: char) -> (r: Result<(&'a str, String), Fault<'a>>)
    ensures
        reads(r, grammar::quoted(input@, quote)),
        advances(r, input),
{
    match first_char(input) {
        Some(c) => if c != quote {
            return error(input, Rule::String);
        },
        None => {
            return error(input, Rule::String);
        },
    }
    let len = input.unicode_len();
    match body_end(input, quote, 1) {
        BodyEnd::Closed(end) => {
            let content = owned(input.substring_char(1, end));
            Ok((input.substring_char(end + 1, len), content))
        },
        _ => failure(input, Rule::ClosingQuote),
    }
}

/// Parse a string in single or in double quotes
pub fn string<'a>(input: &'a str) -> (r: Result<(&'a str, String), Fault<'a>>)
    ensures
        reads(r, grammar::string(input@)),
        advances(r, input),
{
    match quoted(input, '\'') {
        Err(Fault::Error(_)) => quoted(input, '"'),
        other => other,
    }
}

/// Reads the body of a string whose opening quote has been read.
fn escaped_string<'a>(input: &'a str, quote: char) -> (r: Result<(&'a str, String), Fault<'a>>)
    ensures
        reads(r, grammar::string_body(input@, quote)),
{
    match body_end(input, quote, 0) {
        BodyEnd::Closed(end) => Ok((skip_chars(input, end), owned(take_chars(input, end)))),
        BodyEnd::Open => {
            let len = input.unicode_len();
            proof {
                assert(input@.skip(len as int) =~= Seq::<char>::empty());
            }
            Ok((skip_chars(input, len), owned(input)))
        },
        BodyEnd::Broken => Ok((input, String::new())),
    }
}

/// Parse double-quoted string, escapes kept as they are written
pub fn escaped_double_quote_string<'a>(input: &'a str) -> (r: Result<
    (&'a str, String),
    Fault<'a>,
>)
    ensures
        reads(r, grammar::string_body(input@, '"')),
{
    escaped_string(input, '"')
}

/// Parse single-quoted string, escapes kept as they are written
pub fn escaped_single_quote_string<'a>(input: &'a str) -> (r: Result<
    (&'a str, String),
    Fault<'a>,
>)
    ensures
        reads(r, grammar::string_body(input@, '\'')),
{
    escaped_string(input, '\'')
}

fn is_word(c: char) -> (b: bool)
    ensures
        b == grammar::is_word(c),
{
    char_is_alphanumeric(c) || c == '_'
}

/// Parse an identifier
pub fn identifier<'a>(input: &'a str) -> (r: Result<(&'a str, Identifier), Fault<'a>>)
    ensures
        reads(r, grammar::identifier(input@)),
        advances(r, input),
{
    match first_char(input) {
        Some(c) => if !(char_is_alpha(c) || c == '_') {
            return error(input, Rule::Identifier);
        },
        None => {
            return error(input, Rule::Identifier);
        },
    }
    let len = input.unicode_len();
    let ghost tail = input@.skip(1);
    let mut i: usize = 1;
    while i < len && is_word(input.get_char(i))
        invariant
            1 <= i <= len,
            len == input@.len(),
            tail == input@.skip(1),
            forall|j: int| 0 <= j < i - 1 ==> grammar::is_word(#[trigger] tail[j]),
        decreases len - i,
    {
        i += 1;
    }
    proof {
        lemma_run_is(tail, |c: char| grammar::is_word(c), (i - 1) as nat);
    }
    let name = owned(take_chars(input, i));
    Ok((input.substring_char(i, len), Identifier(name)))
}

/// Whether `input` has whitespace at its front.
fn begins_with_space(input: &str) -> (b: bool)
    ensures
        b == (skip_spaces(input@) != input@),
{
    proof {
        lemma_skip_spaces_shorter(input@);
        if input@.len() > 0 && !is_space(input@[0]) {
            lemma_run_is(input@, |c: char| is_space(c), 0);
            assert(input@.skip(0) =~= input@);
        }
        if input@.len() == 0 {
            assert(input@.skip(0) =~= input@);
        }
    }
    match first_char(input) {
        Some(c) => {
            proof {
                if is_space(c) {
                    crate::text::lemma_run_bound(input@, |c: char| is_space(c));
                }
            }
            char_is_space(c)
        },
        None => false,
    }
}

/// `left op right` as a tree.
fn binary(left: Expression, op: BinaryOp, right: Expression) -> (tree: Expression)
    ensures
        tree@ == grammar::binary(left@, op, right@),
{
    Expression::Operation(
        Box::new(
            Operation::Binary(BinaryOperation { left_expression: left, op, right_expression: right }),
        ),
    )
}

/// Parse operators with precedence 4
pub fn expression<'a>(input: &'a str) -> (r: Result<(&'a str, Expression), Fault<'a>>)
    ensures
        reads(r, grammar::expression(input@)),
        advances(r, input),
{
    expression_within(input, MAX_NESTING)
}

/// Parse operators with precedence 3
pub fn expression1<'a>(input: &'a str) -> (r: Result<(&'a str, Expression), Fault<'a>>)
    ensures
        reads(r, grammar::expression1(input@)),
        advances(r, input),
{
    expression1_within(input, MAX_NESTING)
}

/// Parse operators with precedence 2
pub fn expression2<'a>(input: &'a str) -> (r: Result<(&'a str, Expression), Fault<'a>>)
    ensures
        reads(r, grammar::expression2(input@)),
        advances(r, input),
{
    expression2_within(input, MAX_NESTING)
}

/// Parse operators with precedence 1
pub fn expression3<'a>(input: &'a str) -> (r: Result<(&'a str, Expression), Fault<'a>>)
    ensures
        reads(r, grammar::expression3(input@)),
        advances(r, input),
{
    expression3_within(input, MAX_NESTING)
}

/// Parse expressions in parentheses, literals and identifiers
pub fn expression4<'a>(input: &'a str) -> (r: Result<(&'a str, Expression), Fault<'a>>)
    ensures
        reads(r, grammar::expression4(input@)),
        advances(r, input),
{
    expression4_within(input, MAX_NESTING)
}

/// Parse `expression1 (OR expression)?` with `depth` levels of parentheses
/// still to open.
///
/// The second reading of the rule is `expression1` again, with the
/// whitespace around it passed over. Where no whitespace stands at the
/// front, that is what the first reading began with, and it is not read a
/// second time.
pub fn expression_within<'a>(input: &'a str, depth: usize) -> (r: Result<
    (&'a str, Expression),
    Fault<'a>,
>)
    ensures
        reads(r, grammar::expression_at(4, input@, depth as nat)),
        advances(r, input),
    decreases input@.len(), 4nat,
{
    proof {
        reveal_strlit("OR");
        lemma_skip_spaces_shorter(input@);
    }
    let spaced = begins_with_space(input);
    match expression1_within(input, depth) {
        Ok((rest, left)) => {
            match keyword(rest, "OR") {
                Some(after) => match expression_within(after, depth) {
                    Ok((end, right)) => {
                        return Ok((end, binary(left, BinaryOp::Or, right)));
                    },
                    Err(Fault::Failure(m)) => {
                        return Err(Fault::Failure(m));
                    },
                    Err(Fault::Error(_)) => {},
                },
                None => {},
            }
            if spaced {
                trimmed(expression1_within(trim_start(input), depth))
            } else {
                Ok((trim_start(rest), left))
            }
        },
        Err(Fault::Failure(m)) => Err(Fault::Failure(m)),
        Err(Fault::Error(m)) => if spaced {
            trimmed(expression1_within(trim_start(input), depth))
        } else {
            Err(Fault::Error(m))
        },
    }
}

/// Parse `expression2 (AND expression1)?` with `depth` levels of
/// parentheses still to open.
pub fn expression1_within<'a>(input: &'a str, depth: usize) -> (r: Result<
    (&'a str, Expression),
    Fault<'a>,
>)
    ensures
        reads(r, grammar::expression_at(3, input@, depth as nat)),
        advances(r, input),
    decreases input@.len(), 3nat,
{
    proof {
        reveal_strlit("AND");
        lemma_skip_spaces_shorter(input@);
    }
    let spaced = begins_with_space(input);
    match expression2_within(input, depth) {
        Ok((rest, left)) => {
            match keyword(rest, "AND") {
                Some(after) => match expression1_within(after, depth) {
                    Ok((end, right)) => {
                        return Ok((end, binary(left, BinaryOp::And, right)));
                    },
                    Err(Fault::Failure(m)) => {
                        return Err(Fault::Failure(m));
                    },
                    Err(Fault::Error(_)) => {},
                },
                None => {},
            }
            if spaced {
                trimmed(expression2_within(trim_start(input), depth))
            } else {
                Ok((trim_start(rest), left))
            }
        },
        Err(Fault::Failure(m)) => Err(Fault::Failure(m)),
        Err(Fault::Error(m)) => if spaced {
            trimmed(expression2_within(trim_start(input), depth))
        } else {
            Err(Fault::Error(m))
        },
    }
}

/// Parse `NOT expression2 | expression3` with `depth` levels of parentheses
/// still to open.
pub fn expression2_within<'a>(input: &'a str, depth: usize) -> (r: Result<
    (&'a str, Expression),
    Fault<'a>,
>)
    ensures
        reads(r, grammar::expression_at(2, input@, depth as nat)),
        advances(r, input),
    decreases input@.len(), 2nat,
{
    proof {
        reveal_strlit("NOT");
        lemma_skip_spaces_shorter(input@);
    }
    match keyword(input, "NOT") {
        Some(rest) => match expression2_within(rest, depth) {
            Ok((rest, operand)) => {
                return Ok(
                    (
                        rest,
                        Expression::Operation(
                            Box::new(
                                Operation::Unary(
                                    UnaryOperation { op: UnaryOp::Not, expression: operand },
                                ),
                            ),
                        ),
                    ),
                );
            },
            Err(Fault::Failure(m)) => {
                return Err(Fault::Failure(m));
            },
            Err(Fault::Error(_)) => {},
        },
        None => {},
    }
    trimmed(expression3_within(trim_start(input), depth))
}

/// Parse `expression4 (relation expression3)?` with `depth` levels of
/// parentheses still to open.
pub fn expression3_within<'a>(input: &'a str, depth: usize) -> (r: Result<
    (&'a str, Expression),
    Fault<'a>,
>)
    ensures
        reads(r, grammar::expression_at(1, input@, depth as nat)),
        advances(r, input),
    decreases input@.len(), 1nat,
{
    proof {
        lemma_skip_spaces_shorter(input@);
    }
    let spaced = begins_with_space(input);
    match expression4_within(input, depth) {
        Ok((rest, left)) => {
            match trimmed(relation_operator(trim_start(rest))) {
                Ok((after, op)) => {
                    proof {
                        lemma_skip_spaces_shorter(rest@);
                    }
                    match expression3_within(after, depth) {
                        Ok((end, right)) => {
                            return Ok((end, binary(left, op, right)));
                        },
                        Err(Fault::Failure(m)) => {
                            return Err(Fault::Failure(m));
                        },
                        Err(Fault::Error(_)) => {},
                    }
                },
                Err(_) => {},
            }
            if spaced {
                trimmed(expression4_within(trim_start(input), depth))
            } else {
                Ok((trim_start(rest), left))
            }
        },
        Err(Fault::Failure(m)) => Err(Fault::Failure(m)),
        Err(Fault::Error(m)) => if spaced {
            trimmed(expression4_within(trim_start(input), depth))
        } else {
            Err(Fault::Error(m))
        },
    }
}

/// Parse expressions in parentheses, literals and identifiers with `depth`
/// levels of parentheses still to open.
pub fn expression4_within<'a>(input: &'a str, depth: usize) -> (r: Result<
    (&'a str, Expression),
    Fault<'a>,
>)
    ensures
        reads(r, grammar::expression_at(0, input@, depth as nat)),
        advances(r, input),
    decreases input@.len(), 0nat,
{
    match symbol(input, '(') {
        Some(after) => {
            proof {
                lemma_skip_spaces_shorter(after@);
            }
            if depth == 0 {
                return failure(input, Rule::Nesting);
            }
            match trimmed(expression_within(trim_start(after), depth - 1)) {
                Ok((rest, value)) => {
                    return match symbol(rest, ')') {
                        Some(rest) => Ok((rest, value)),
                        None => failure(rest, Rule::ClosingParenthesis),
                    };
                },
                Err(Fault::Failure(m)) => {
                    return Err(Fault::Failure(m));
                },
                Err(Fault::Error(_)) => {},
            }
        },
        None => {},
    }
    match literal(input) {
        Ok((rest, value)) => Ok((rest, Expression::Literal(value))),
        Err(Fault::Failure(m)) => Err(Fault::Failure(m)),
        Err(Fault::Error(_)) => match identifier(input) {
            Ok((rest, name)) => Ok((rest, Expression::Identifier(name))),
            Err(fault) => Err(fault),
        },
    }
}

/// Parse an operator that compares
pub fn relation_operator<'a>(input: &'a str) -> (r: Result<(&'a str, BinaryOp), Fault<'a>>)
    ensures
        reads(r, grammar::relation_operator(input@)),
        advances(r, input),
{
    proof {
        reveal_strlit("LIKE");
    }
    match tag_no_case(input, "LIKE") {
        Some(rest) => {
            return Ok((rest, BinaryOp::Like));
        },
        None => {},
    }
    match first_char(input) {
        Some(c) => {
            let rest = skip_chars(input, 1);
            if c == '>' || c == '<' {
                match symbol(rest, '=') {
                    Some(after) => {
                        assert(after@ =~= input@.skip(2));
                        Ok(
                            (
                                after,
                                if c == '>' {
                                    BinaryOp::Gte
                                } else {
                                    BinaryOp::Lte
                                },
                            ),
                        )
                    },
                    None => Ok(
                        (
                            rest,
                            if c == '>' {
                                BinaryOp::Gt
                            } else {
                                BinaryOp::Lt
                            },
                        ),
                    ),
                }
            } else if c == '=' {
                Ok((rest, BinaryOp::Eq))
            } else {
                error(input, Rule::RelationOperator)
            }
        },
        None => error(input, Rule::RelationOperator),
    }
}

/// Parse predicate
pub fn predicate<'a>(input: &'a str) -> (r: Result<(&'a str, Predicate), Fault<'a>>)
    ensures
        reads(r, grammar::predicate(input@)),
        advances(r, input),
{
    match expression(input) {
        Ok((rest, expr)) => Ok((rest, Predicate { expr })),
        Err(fault) => Err(fault),
    }
}

/// Parse query
pub fn query<'a>(input: &'a str) -> (r: Result<(&'a str, Query), Fault<'a>>)
    ensures
        reads(r, grammar::query(input@)),
        advances(r, input),
{
    proof {
        reveal_strlit("SELECT");
        reveal_strlit("WHERE");
    }
    match keyword(input, "SELECT") {
        Some(after) => match fields_projection(after) {
            Ok((rest, fields)) => {
                let found = match keyword(rest, "WHERE") {
                    Some(after) => match predicate(after) {
                        Ok((rest, predicate)) => Ok((rest, Some(predicate))),
                        Err(Fault::Error(_)) => Ok((rest, None)),
                        Err(Fault::Failure(m)) => Err(Fault::Failure(m)),
                    },
                    None => Ok((rest, None)),
                };
                match found {
                    Ok((rest, predicate)) => {
                        proof {
                            lemma_skip_spaces_shorter(rest@);
                        }
                        Ok((trim_start(rest), Query { fields_projection: fields, predicate }))
                    },
                    Err(fault) => Err(fault),
                }
            },
            Err(fault) => Err(fault),
        },
        None => error(trim_start(input), Rule::Select),
    }
}

/// Parse fields projection
pub fn fields_projection<'a>(input: &'a str) -> (r: Result<
    (&'a str, FieldsProjection),
    Fault<'a>,
>)
    ensures
        reads(r, grammar::fields_projection(input@)),
        advances(r, input),
{
    let (mut rest, first) = match field(input) {
        Ok(read) => read,
        Err(fault) => {
            return Err(fault);
        },
    };
    let mut fields: Vec<Field> = Vec::new();
    fields.push(first);
    proof {
        assert(fields_view(fields@) =~= seq![first@]);
    }
    loop
        invariant_except_break
            grammar::fields_projection(input@) == ({
                let (all, end) = grammar::more_fields(fields_view(fields@), rest@);
                Parsed::Done(all, end)
            }),
        invariant
            rest@.len() < input@.len(),
        ensures
            grammar::fields_projection(input@) == Parsed::Done(fields_view(fields@), rest@),
        decreases rest@.len(),
    {
        let after = match symbol(trim_start(rest), ',') {
            Some(after) => trim_start(after),
            None => {
                break ;
            },
        };
        proof {
            lemma_skip_spaces_shorter(rest@);
            lemma_skip_spaces_shorter(skip_spaces(rest@).skip(1));
        }
        match field(after) {
            Ok((next_rest, next)) => {
                proof {
                    assert(fields_view(fields@.push(next)) =~= fields_view(
                        fields@,
                    ).push(next@));
                }
                fields.push(next);
                rest = next_rest;
            },
            Err(_) => {
                break ;
            },
        }
    }
    Ok((rest, FieldsProjection(fields)))
}

/// Parse a field of the projection: an identifier or `*`
pub fn field<'a>(input: &'a str) -> (r: Result<(&'a str, Field), Fault<'a>>)
    ensures
        reads(r, grammar::field(input@)),
        advances(r, input),
{
    match identifier(input) {
        Ok((rest, name)) => Ok((rest, Field::Name(name))),
        Err(_) => match symbol(input, '*') {
            Some(rest) => Ok((rest, Field::Asterisk)),
            None => error(input, Rule::Field),
        },
    }
}

} // verus!
