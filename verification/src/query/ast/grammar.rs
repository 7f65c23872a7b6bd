//! The grammar of the query language, as functions from a text to what is
//! read at its front.
//!
//! ```text
//! query       := SELECT fields (WHERE expression)?
//! fields      := field (',' field)*
//! field       := identifier | '*'
//! expression  := expression1 (OR expression)?
//! expression1 := expression2 (AND expression1)?
//! expression2 := NOT expression2 | expression3
//! expression3 := expression4 (relation expression3)?
//! expression4 := '(' expression ')' | literal | identifier
//! relation    := LIKE | '>=' | '>' | '<=' | '<' | '='
//! literal     := NULL | number | boolean | string
//! ```
//!
//! Each rule reads from the front of the text and hands back what it read
//! with the text left over. A rule that does not match gives an *error*,
//! after which the rule that asked may try another reading, or a *failure*,
//! which ends the whole reading: a string without its closing quote, a
//! parenthesis that is not closed or that is nested too deeply, an exponent
//! without digits.
//!
//! Where a rule has two readings, the first is tried first and the second
//! only after an error of the first. The first readings of `expression3`
//! and of the rules above it start at the text as it stands; their second
//! readings pass over whitespace before and after.

use super::expression::{BinaryOp, ExpressionView, LiteralView, UnaryOp};
use crate::float::{double_prefix, FloatView};
use crate::query::evaluator::value::NumberView;
use crate::text::{
    ascii_upper, is_alpha, is_alphanumeric, leading_i64, lemma_skip_spaces_shorter, run_of,
    skip_spaces,
};
use vstd::prelude::*;

verus! {

/// What a rule was looking for when it did not match.
#[derive(Clone, Copy, Debug, PartialEq, Eq, Structural)]
pub enum Rule {
    Null,
    Number,
    Boolean,
    String,
    ClosingQuote,
    Identifier,
    RelationOperator,
    ClosingParenthesis,
    Nesting,
    Select,
    Field,
    EndOfInput,
}

/// Where a rule did not match: the text it stood at and what it looked for.
pub struct MismatchView {
    pub rest: Seq<char>,
    pub rule: Rule,
}

/// What a rule makes of a text.
pub enum Parsed<T> {
    /// The rule read a value; the second part is the text left over.
    Done(T, Seq<char>),
    /// The rule does not match here; another reading may.
    Error(MismatchView),
    /// The text is broken; no other reading is tried.
    Failure(MismatchView),
}

/// A field of the projection as a plain value.
pub enum FieldView {
    Asterisk,
    Name(Seq<char>),
}

/// A query as a plain value.
pub struct QueryView {
    pub fields: Seq<FieldView>,
    pub predicate: Option<ExpressionView>,
}

/// The error of a rule that does not match at `rest`.
pub open spec fn error<T>(rest: Seq<char>, rule: Rule) -> Parsed<T> {
    Parsed::Error(MismatchView { rest, rule })
}

/// The failure of a rule at `rest`.
pub open spec fn failure<T>(rest: Seq<char>, rule: Rule) -> Parsed<T> {
    Parsed::Failure(MismatchView { rest, rule })
}

/// The same outcome with the whitespace after a value passed over.
pub open spec fn trimmed<T>(parsed: Parsed<T>) -> Parsed<T> {
    match parsed {
        Parsed::Done(value, rest) => Parsed::Done(value, skip_spaces(rest)),
        other => other,
    }
}

/// Whether `s` begins with `word`, letter for letter.
pub open spec fn begins_with(s: Seq<char>, word: Seq<char>) -> bool {
    s.len() >= word.len() && s.take(word.len() as int) == word
}

/// Whether `s` begins with `word`, ASCII letters taken without their case.
pub open spec fn begins_with_no_case(s: Seq<char>, word: Seq<char>) -> bool {
    s.len() >= word.len() && forall|i: int|
        0 <= i < word.len() ==> ascii_upper(#[trigger] s[i]) == ascii_upper(word[i])
}

/// `NULL`, in any case.
pub open spec fn null(s: Seq<char>) -> Parsed<()> {
    if begins_with_no_case(s, "null"@) {
        Parsed::Done((), s.skip("null"@.len() as int))
    } else {
        error(s, Rule::Null)
    }
}

/// Whether the character after an integer makes the integer the front of a
/// double.
pub open spec fn continues_number(c: char) -> bool {
    c == '.' || c == 'e' || c == 'E'
}

/// A number: a 64-bit integer that no `.`, `e` or `E` follows, or else
/// what `double_prefix` reads as a double.
pub open spec fn number(s: Seq<char>) -> Parsed<NumberView> {
    let integer = match leading_i64(s) {
        Some((value, used)) => if used < s.len() && continues_number(s[used as int]) {
            None
        } else {
            Some((value, used))
        },
        None => None,
    };
    match integer {
        Some((value, used)) => Parsed::Done(NumberView::Int(value), s.skip(used as int)),
        None => match double_prefix(s) {
            Ok((bits, text, rest)) => Parsed::Done(
                NumberView::Float(FloatView { bits, text }),
                rest,
            ),
            Err(fatal) => if fatal {
                failure(s, Rule::Number)
            } else {
                error(s, Rule::Number)
            },
        },
    }
}

/// `false` or `true`, in lower case.
pub open spec fn boolean(s: Seq<char>) -> Parsed<bool> {
    if begins_with(s, "false"@) {
        Parsed::Done(false, s.skip("false"@.len() as int))
    } else if begins_with(s, "true"@) {
        Parsed::Done(true, s.skip("true"@.len() as int))
    } else {
        error(s, Rule::Boolean)
    }
}

/// Whether a backslash may stand before `c` inside a string with the given
/// quote.
pub open spec fn escapable(c: char, quote: char) -> bool {
    c == quote || c == '\\' || c == '/' || c == 'b' || c == 'f' || c == 'n' || c == 'r' || c
        == 't'
}

/// How the body of a string ends.
pub enum Body {
    /// A quote closes it at this place.
    Closed(int),
    /// The text ends before a quote closes it.
    Open,
    /// A backslash stands before a character that is not `escapable`, or
    /// at the very end.
    Broken,
}

/// The end of the body of a string, looked for from `from` on. A backslash
/// and the character after it are passed over together.
pub open spec fn body_end(s: Seq<char>, quote: char, from: int) -> Body
    decreases s.len() - from,
{
    if from < 0 || from >= s.len() {
        Body::Open
    } else if s[from] == quote {
        Body::Closed(from)
    } else if s[from] == '\\' {
        if from + 1 < s.len() && escapable(s[from + 1], quote) {
            body_end(s, quote, from + 2)
        } else {
            Body::Broken
        }
    } else {
        body_end(s, quote, from + 1)
    }
}

/// The body of a string whose opening quote has been read, with the text
/// that follows it. A body that a quote closes ends before that quote. A
/// body that nothing closes is the whole text. A broken body counts as
/// empty, with the whole text after it.
pub open spec fn string_body(s: Seq<char>, quote: char) -> Parsed<Seq<char>> {
    match body_end(s, quote, 0) {
        Body::Closed(end) => Parsed::Done(s.take(end), s.skip(end)),
        Body::Open => Parsed::Done(s, Seq::empty()),
        Body::Broken => Parsed::Done(Seq::empty(), s),
    }
}

/// A string in the given quotes. What stands between the quotes is the
/// value as it is written, backslashes and all.
pub open spec fn quoted(s: Seq<char>, quote: char) -> Parsed<Seq<char>> {
    if s.len() > 0 && s[0] == quote {
        match body_end(s, quote, 1) {
            Body::Closed(end) => Parsed::Done(s.subrange(1, end), s.skip(end + 1)),
            _ => failure(s, Rule::ClosingQuote),
        }
    } else {
        error(s, Rule::String)
    }
}

/// A string in single or in double quotes.
pub open spec fn string(s: Seq<char>) -> Parsed<Seq<char>> {
    match quoted(s, '\'') {
        Parsed::Error(_) => quoted(s, '"'),
        other => other,
    }
}

/// A literal: `NULL`, a number, a boolean or a string, tried in this order.
pub open spec fn literal(s: Seq<char>) -> Parsed<LiteralView> {
    match null(s) {
        Parsed::Done(_, rest) => Parsed::Done(LiteralView::Null, rest),
        _ => match number(s) {
            Parsed::Done(n, rest) => Parsed::Done(LiteralView::Number(n), rest),
            Parsed::Failure(m) => Parsed::Failure(m),
            Parsed::Error(_) => match boolean(s) {
                Parsed::Done(b, rest) => Parsed::Done(LiteralView::Bool(b), rest),
                _ => match string(s) {
                    Parsed::Done(text, rest) => Parsed::Done(LiteralView::String(text), rest),
                    Parsed::Error(m) => Parsed::Error(m),
                    Parsed::Failure(m) => Parsed::Failure(m),
                },
            },
        },
    }
}

/// Whether `c` may stand in an identifier after its first character.
pub open spec fn is_word(c: char) -> bool {
    is_alphanumeric(c) || c == '_'
}

/// An identifier: a letter or an underscore, then letters, digits and
/// underscores.
pub open spec fn identifier(s: Seq<char>) -> Parsed<Seq<char>> {
    if s.len() > 0 && (is_alpha(s[0]) || s[0] == '_') {
        let length = 1 + run_of(s.skip(1), |c: char| is_word(c));
        Parsed::Done(s.take(length as int), s.skip(length as int))
    } else {
        error(s, Rule::Identifier)
    }
}

/// An operator that compares: `LIKE` in any case, `>=`, `>`, `<=`, `<`, `=`.
pub open spec fn relation_operator(s: Seq<char>) -> Parsed<BinaryOp> {
    if begins_with_no_case(s, "LIKE"@) {
        Parsed::Done(BinaryOp::Like, s.skip("LIKE"@.len() as int))
    } else if s.len() > 1 && s[0] == '>' && s[1] == '=' {
        Parsed::Done(BinaryOp::Gte, s.skip(2))
    } else if s.len() > 0 && s[0] == '>' {
        Parsed::Done(BinaryOp::Gt, s.skip(1))
    } else if s.len() > 1 && s[0] == '<' && s[1] == '=' {
        Parsed::Done(BinaryOp::Lte, s.skip(2))
    } else if s.len() > 0 && s[0] == '<' {
        Parsed::Done(BinaryOp::Lt, s.skip(1))
    } else if s.len() > 0 && s[0] == '=' {
        Parsed::Done(BinaryOp::Eq, s.skip(1))
    } else {
        error(s, Rule::RelationOperator)
    }
}

/// A keyword in any case with the whitespace around it; the text after it
/// where it stands at the front of `s`.
pub open spec fn keyword(s: Seq<char>, word: Seq<char>) -> Option<Seq<char>> {
    let front = skip_spaces(s);
    if begins_with_no_case(front, word) {
        Some(skip_spaces(front.skip(word.len() as int)))
    } else {
        None
    }
}

/// `left operator right` as a tree.
pub open spec fn binary(left: ExpressionView, op: BinaryOp, right: ExpressionView)
    -> ExpressionView {
    ExpressionView::Binary(Box::new(left), op, Box::new(right))
}

/// The deepest that parentheses may stand in parentheses.
pub const MAX_NESTING: usize = 64;

/// The rule `expression` (level 4) and the rules below it, down to
/// `expression4` (level 0), with `depth` levels of parentheses still to
/// open: a parenthesis opened beyond them is a failure. Every rule calls
/// the rule one level down on the same text and any rule only on a shorter
/// one.
pub open spec fn expression_at(level: nat, s: Seq<char>, depth: nat) -> Parsed<ExpressionView>
    decreases s.len(), level,
{
    if level == 0 {
        // '(' expression ')' | literal | identifier
        let inner = if s.len() > 0 && s[0] == '(' {
            proof {
                lemma_skip_spaces_shorter(s.skip(1));
            }
            if depth == 0 {
                failure(s, Rule::Nesting)
            } else {
                match trimmed(expression_at(4, skip_spaces(s.skip(1)), (depth - 1) as nat)) {
                    Parsed::Done(value, rest) => if rest.len() > 0 && rest[0] == ')' {
                        Parsed::Done(value, rest.skip(1))
                    } else {
                        failure(rest, Rule::ClosingParenthesis)
                    },
                    other => other,
                }
            }
        } else {
            error(s, Rule::ClosingParenthesis)
        };
        match inner {
            Parsed::Error(_) => match literal(s) {
                Parsed::Done(value, rest) => Parsed::Done(ExpressionView::Literal(value), rest),
                Parsed::Failure(m) => Parsed::Failure(m),
                Parsed::Error(_) => match identifier(s) {
                    Parsed::Done(name, rest) => Parsed::Done(
                        ExpressionView::Identifier(name),
                        rest,
                    ),
                    Parsed::Error(m) => Parsed::Error(m),
                    Parsed::Failure(m) => Parsed::Failure(m),
                },
            },
            other => other,
        }
    } else if level == 2 {
        // NOT expression2 | expression3
        let first = match keyword(s, "NOT"@) {
            Some(rest) => if rest.len() < s.len() {
                match expression_at(2, rest, depth) {
                    Parsed::Done(value, rest) => Parsed::Done(
                        ExpressionView::Unary(UnaryOp::Not, Box::new(value)),
                        rest,
                    ),
                    other => other,
                }
            } else {
                error(s, Rule::Identifier)
            },
            None => error(s, Rule::Identifier),
        };
        proof {
            lemma_skip_spaces_shorter(s);
        }
        match first {
            Parsed::Error(_) => trimmed(expression_at(1, skip_spaces(s), depth)),
            other => other,
        }
    } else {
        // lower (operator same)? for the levels 1, 3 and 4
        let lower = (level - 1) as nat;
        let first = match expression_at(lower, s, depth) {
            Parsed::Done(left, rest) => match operator_at(level, rest) {
                Parsed::Done(op, rest) => if rest.len() < s.len() {
                    match expression_at(level, rest, depth) {
                        Parsed::Done(right, rest) => Parsed::Done(binary(left, op, right), rest),
                        other => other,
                    }
                } else {
                    error(s, Rule::Identifier)
                },
                Parsed::Error(m) => Parsed::Error(m),
                Parsed::Failure(m) => Parsed::Failure(m),
            },
            other => other,
        };
        proof {
            lemma_skip_spaces_shorter(s);
        }
        match first {
            Parsed::Error(_) => trimmed(expression_at(lower, skip_spaces(s), depth)),
            other => other,
        }
    }
}

/// The operator that joins two operands at a level: a relation at level 1,
/// `AND` at level 3, `OR` at level 4, each with the whitespace around it.
pub open spec fn operator_at(level: nat, s: Seq<char>) -> Parsed<BinaryOp> {
    if level == 1 {
        trimmed(relation_operator(skip_spaces(s)))
    } else if level == 3 {
        match keyword(s, "AND"@) {
            Some(rest) => Parsed::Done(BinaryOp::And, rest),
            None => error(s, Rule::RelationOperator),
        }
    } else {
        match keyword(s, "OR"@) {
            Some(rest) => Parsed::Done(BinaryOp::Or, rest),
            None => error(s, Rule::RelationOperator),
        }
    }
}

/// An operand, in parentheses or not: `'(' expression ')'`, a literal or
/// an identifier.
pub open spec fn expression4(s: Seq<char>) -> Parsed<ExpressionView> {
    expression_at(0, s, MAX_NESTING as nat)
}

/// A comparison: `expression4 relation expression3`, or else an operand
/// alone.
pub open spec fn expression3(s: Seq<char>) -> Parsed<ExpressionView> {
    expression_at(1, s, MAX_NESTING as nat)
}

/// A negation: `NOT expression2`, or else a comparison.
pub open spec fn expression2(s: Seq<char>) -> Parsed<ExpressionView> {
    expression_at(2, s, MAX_NESTING as nat)
}

/// A conjunction: `expression2 AND expression1`, or else a negation.
pub open spec fn expression1(s: Seq<char>) -> Parsed<ExpressionView> {
    expression_at(3, s, MAX_NESTING as nat)
}

/// An expression: `expression1 OR expression`, or else a conjunction.
pub open spec fn expression(s: Seq<char>) -> Parsed<ExpressionView> {
    expression_at(4, s, MAX_NESTING as nat)
}

/// The predicate of a query: an expression.
pub open spec fn predicate(s: Seq<char>) -> Parsed<ExpressionView> {
    expression(s)
}

/// A field of the projection: an identifier or `*`.
pub open spec fn field(s: Seq<char>) -> Parsed<FieldView> {
    match identifier(s) {
        Parsed::Done(name, rest) => Parsed::Done(FieldView::Name(name), rest),
        _ => if s.len() > 0 && s[0] == '*' {
            Parsed::Done(FieldView::Asterisk, s.skip(1))
        } else {
            error(s, Rule::Field)
        },
    }
}

/// The text after a comma and the whitespace around it, where a comma
/// stands at the front of `s`.
pub open spec fn comma(s: Seq<char>) -> Option<Seq<char>> {
    let front = skip_spaces(s);
    if front.len() > 0 && front[0] == ',' {
        Some(skip_spaces(front.skip(1)))
    } else {
        None
    }
}

/// The fields after the first: as long as a comma and a field follow, the
/// field joins `fields`. A comma that no field follows is left in the text.
pub open spec fn more_fields(fields: Seq<FieldView>, s: Seq<char>) -> (Seq<FieldView>, Seq<char>)
    decreases s.len(),
{
    match comma(s) {
        Some(after) => match field(after) {
            Parsed::Done(next, rest) => if rest.len() < s.len() {
                more_fields(fields.push(next), rest)
            } else {
                (fields, s)
            },
            _ => (fields, s),
        },
        None => (fields, s),
    }
}

/// The projection: one field or more, with commas between them.
pub open spec fn fields_projection(s: Seq<char>) -> Parsed<Seq<FieldView>> {
    match field(s) {
        Parsed::Done(first, rest) => {
            let (fields, rest) = more_fields(seq![first], rest);
            Parsed::Done(fields, rest)
        },
        Parsed::Error(m) => Parsed::Error(m),
        Parsed::Failure(m) => Parsed::Failure(m),
    }
}

/// The predicate of a query after its fields: `WHERE` and an expression.
/// Where `WHERE` is missing or no expression follows it, there is no
/// predicate and the text stays as it was.
pub open spec fn where_clause(s: Seq<char>) -> Parsed<Option<ExpressionView>> {
    match keyword(s, "WHERE"@) {
        Some(after) => match predicate(after) {
            Parsed::Done(value, rest) => Parsed::Done(Some(value), rest),
            Parsed::Error(_) => Parsed::Done(None, s),
            Parsed::Failure(m) => Parsed::Failure(m),
        },
        None => Parsed::Done(None, s),
    }
}

/// A query: `SELECT`, the fields and, if there is one, the predicate, with
/// whitespace before and after.
pub open spec fn query(s: Seq<char>) -> Parsed<QueryView> {
    match keyword(s, "SELECT"@) {
        Some(after) => match fields_projection(after) {
            Parsed::Done(fields, rest) => match where_clause(rest) {
                Parsed::Done(predicate, rest) => Parsed::Done(
                    QueryView { fields, predicate },
                    skip_spaces(rest),
                ),
                Parsed::Error(m) => Parsed::Error(m),
                Parsed::Failure(m) => Parsed::Failure(m),
            },
            Parsed::Error(m) => Parsed::Error(m),
            Parsed::Failure(m) => Parsed::Failure(m),
        },
        None => error(skip_spaces(s), Rule::Select),
    }
}

/// A whole text as a query: nothing may be left over.
pub open spec fn whole_query(s: Seq<char>) -> Result<QueryView, MismatchView> {
    match query(s) {
        Parsed::Done(value, rest) => if rest.len() == 0 {
            Ok(value)
        } else {
            Err(MismatchView { rest, rule: Rule::EndOfInput })
        },
        Parsed::Error(m) => Err(m),
        Parsed::Failure(m) => Err(m),
    }
}

} // verus!
