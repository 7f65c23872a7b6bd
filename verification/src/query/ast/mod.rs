//! Queries: what they are made of and how they are read from a text.

pub mod expression;
pub mod grammar;
pub mod parser;

use crate::query::ast::expression::{Expression, ExpressionView, Identifier};
use crate::query::ast::grammar::{FieldView, MismatchView, QueryView, Rule};
use crate::query::ast::parser::Fault;
use crate::text::owned;
use vstd::prelude::*;

verus! {

/// Represents a query, that will filter items by predicate and then project
/// them to a `ResultSet`.
#[derive(Clone, Debug, PartialEq)]
pub struct Query {
    pub fields_projection: FieldsProjection,
    pub predicate: Option<Predicate>,
}

/// Fields that will be projected to a `ResultSet`.
#[derive(Clone, Debug, PartialEq)]
pub struct FieldsProjection(pub Vec<Field>);

/// One of the possible field projection type.
///
///  * `Field::Asterisk` - all fields of the record will be included;
///  * `Field::Name` - the named field will be included;
#[derive(Clone, Debug, PartialEq)]
pub enum Field {
    Asterisk,
    Name(Identifier),
}

/// Predicate that will filter values.
#[derive(Clone, Debug, PartialEq)]
pub struct Predicate {
    pub expr: Expression,
}

impl View for Field {
    type V = FieldView;

    open spec fn view(&self) -> FieldView {
        match self {
            Field::Asterisk => FieldView::Asterisk,
            Field::Name(name) => FieldView::Name(name@),
        }
    }
}

/// A list of fields as plain values.
pub open spec fn fields_view(fields: Seq<Field>) -> Seq<FieldView> {
    fields.map_values(|field: Field| field@)
}

impl View for FieldsProjection {
    type V = Seq<FieldView>;

    open spec fn view(&self) -> Seq<FieldView> {
        fields_view(self.0@)
    }
}

impl View for Predicate {
    type V = ExpressionView;

    open spec fn view(&self) -> ExpressionView {
        self.expr@
    }
}

impl View for Query {
    type V = QueryView;

    open spec fn view(&self) -> QueryView {
        QueryView {
            fields: self.fields_projection@,
            predicate: match self.predicate {
                Some(predicate) => Some(predicate@),
                None => None,
            },
        }
    }
}

/// Represents possible errors of query parsing: the text at which the
/// reading stopped and what was looked for there.
#[derive(Debug)]
pub struct ParseError {
    pub rest: String,
    pub rule: Rule,
}

impl View for ParseError {
    type V = MismatchView;

    open spec fn view(&self) -> MismatchView {
        MismatchView { rest: self.rest@, rule: self.rule }
    }
}

impl Rule {
    /// What the rule looks for, in words.
    pub open spec fn description(self) -> Seq<char> {
        match self {
            Rule::Null => "NULL"@,
            Rule::Number => "a number"@,
            Rule::Boolean => "true or false"@,
            Rule::String => "a string"@,
            Rule::ClosingQuote => "the closing quote of a string"@,
            Rule::Identifier => "an identifier, a literal or an expression in parentheses"@,
            Rule::RelationOperator => "a comparison operator"@,
            Rule::ClosingParenthesis => "a closing parenthesis"@,
            Rule::Nesting => "fewer parentheses within parentheses"@,
            Rule::Select => "SELECT"@,
            Rule::Field => "a field name or *"@,
            Rule::EndOfInput => "the end of the query"@,
        }
    }

    /// What the rule looks for, in words.
    pub fn describe(&self) -> (s: &'static str)
        ensures
            s@ == self.description(),
    {
        match self {
            Rule::Null => "NULL",
            Rule::Number => "a number",
            Rule::Boolean => "true or false",
            Rule::String => "a string",
            Rule::ClosingQuote => "the closing quote of a string",
            Rule::Identifier => "an identifier, a literal or an expression in parentheses",
            Rule::RelationOperator => "a comparison operator",
            Rule::ClosingParenthesis => "a closing parenthesis",
            Rule::Nesting => "fewer parentheses within parentheses",
            Rule::Select => "SELECT",
            Rule::Field => "a field name or *",
            Rule::EndOfInput => "the end of the query",
        }
    }
}

impl ParseError {
    /// The text of the error: what was looked for, and the text at which it
    /// was not found.
    pub open spec fn message(self) -> Seq<char> {
        "Query parsing failed. Error: expected "@ + self.rule.description() + " at: "@
            + self.rest@
    }

    /// The error as a text.
    pub fn to_text(&self) -> (s: String)
        ensures
            s@ == self.message(),
    {
        let mut s = owned("Query parsing failed. Error: expected ");
        s.append(self.rule.describe());
        s.append(" at: ");
        s.append(self.rest.as_str());
        s
    }
}

impl Query {
    /// Reads a query from a text, the whole of it.
    pub fn from_str(s: &str) -> (r: Result<Query, ParseError>)
        ensures
            match r {
                Ok(query) => grammar::whole_query(s@) == Ok::<_, MismatchView>(query@),
                Err(e) => grammar::whole_query(s@) == Err::<QueryView, _>(e@),
            },
    {
        match parser::query(s) {
            Ok((rest, query)) => if rest.is_empty() {
                Ok(query)
            } else {
                Err(ParseError { rest: owned(rest), rule: Rule::EndOfInput })
            },
            Err(Fault::Error(m)) => Err(ParseError { rest: owned(m.rest), rule: m.rule }),
            Err(Fault::Failure(m)) => Err(ParseError { rest: owned(m.rest), rule: m.rule }),
        }
    }
}

impl std::str::FromStr for Query {
    type Err = ParseError;

    fn from_str(s: &str) -> (r: Result<Query, ParseError>)
        ensures
            match r {
                Ok(query) => grammar::whole_query(s@) == Ok::<_, MismatchView>(query@),
                Err(e) => grammar::whole_query(s@) == Err::<QueryView, _>(e@),
            },
    {
        Query::from_str(s)
    }
}

} // verus!
