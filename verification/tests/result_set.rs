use todo_list::query::evaluator::value::{Number, Value};
use todo_list::query::ResultSet;

fn row<const N: usize>(values: [(&str, Value); N]) -> Vec<(String, Value)> {
    values.into_iter().map(|(name, value)| (name.to_string(), value)).collect()
}

fn names<const N: usize>(names: [&str; N]) -> Vec<String> {
    names.iter().map(|name| name.to_string()).collect()
}

pub fn test_result_set() -> ResultSet {
    let mut result_set = ResultSet::with_columns(&names(["first", "second", "third"]));
    result_set.add_rows(vec![
        row([("second", Value::Bool(true)), ("third", Value::Null), ("first", Value::Number(1.into()))]),
        row([("third", Value::Null), ("first", Value::Number(1.into())), ("second", Value::Bool(true))]),
        row([("first", Value::Number(1.into())), ("second", Value::Bool(true)), ("third", Value::Null)]),
    ]);

    result_set
}

#[test]
fn null_column() {
    let mut result_set = test_result_set();
    result_set.add_column("fourth");

    assert!(result_set.get_column("fourth").iter().eq(&[Value::Null, Value::Null, Value::Null]))
}

#[test]
fn add_row_with_new_column() {
    let mut result_set = test_result_set();
    result_set.add_row(row([("first", Value::Number(1.into())), ("second", Value::Bool(true)), ("third", Value::Null), ("fourth", Value::Bool(true))]));
    assert!(result_set.get_column("fourth").iter().eq(&[Value::Null, Value::Null, Value::Null, Value::Bool(true)]))
}

#[test]
fn print_table() {
    let result_set = test_result_set();
    println!("{}", result_set.to_text());

    assert_eq!(result_set.to_text(), [
        "╭───────┬────────┬───────╮",
        "│ first │ second │ third │",
        "├───────┼────────┼───────┤",
        "│ 1     │ true   │ NULL  │",
        "├───────┼────────┼───────┤",
        "│ 1     │ true   │ NULL  │",
        "├───────┼────────┼───────┤",
        "│ 1     │ true   │ NULL  │",
        "╰───────┴────────┴───────╯"
    ].join("\n"));
}

#[test]
fn new_result_set_is_empty() {
    let result_set = ResultSet::new();
    assert!(result_set.columns().is_empty());
    assert!(result_set.rows().is_empty());
    assert!(result_set.get_column("any").is_empty());
    assert!(result_set.get_row(0).is_empty());
}

#[test]
fn add_column_twice_changes_nothing() {
    let mut result_set = test_result_set();
    result_set.add_column("second");
    assert_eq!(result_set.columns(), &names(["first", "second", "third"]));
    assert_eq!(result_set.get_row(0).len(), 3);
    result_set.add_columns(&names(["third", "fourth", "fourth", "first"]));
    assert_eq!(result_set.columns(), &names(["first", "second", "third", "fourth"]));
    assert_eq!(
        result_set.get_row(2),
        vec![Value::Number(Number::Int(1)), Value::Bool(true), Value::Null, Value::Null]
    );
    let set = ResultSet::with_columns(&names(["a", "b", "a"]));
    assert_eq!(set.columns(), &names(["a", "b"]));
}

#[test]
fn unseen_column_is_null_in_the_earlier_rows() {
    let mut result_set = ResultSet::new();
    result_set.add_row(row([("a", Value::Bool(true))]));
    result_set.add_row(row([("b", Value::Bool(false)), ("c", Value::Number(3.into()))]));
    result_set.add_row(row([("c", Value::Number(4.into()))]));
    assert_eq!(result_set.columns(), &names(["a", "b", "c"]));
    assert_eq!(result_set.get_row(0), vec![Value::Bool(true), Value::Null, Value::Null]);
    assert_eq!(result_set.get_row(1), vec![Value::Null, Value::Bool(false), Value::Number(3.into())]);
    assert_eq!(result_set.get_row(2), vec![Value::Null, Value::Null, Value::Number(4.into())]);
    assert_eq!(result_set.get_column("b"), vec![Value::Null, Value::Bool(false), Value::Null]);
    assert!(result_set.get_column("d").is_empty());
    assert!(result_set.get_row(3).is_empty());
}

#[test]
fn later_value_for_a_column_stays() {
    let mut result_set = ResultSet::new();
    result_set.add_row(row([
        ("a", Value::Bool(true)),
        ("new", Value::Number(1.into())),
        ("a", Value::Bool(false)),
        ("new", Value::Number(2.into())),
    ]));
    assert_eq!(result_set.columns(), &names(["a", "new"]));
    assert_eq!(result_set.rows(), &vec![vec![Value::Bool(false), Value::Number(2.into())]]);
    result_set.add_row(Vec::new());
    assert_eq!(result_set.get_row(1), vec![Value::Null, Value::Null]);
}

#[test]
fn table_without_rows_shows_its_columns() {
    let result_set = ResultSet::with_columns(&names(["a", "bc"]));
    assert_eq!(result_set.to_text(), [
        "╭───┬────╮",
        "│ a │ bc │",
        "╰───┴────╯"
    ].join("\n"));
}
