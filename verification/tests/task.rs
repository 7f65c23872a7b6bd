use chrono::NaiveDateTime;
use todo_list::datetime::DateTime;
use todo_list::query::evaluator::reflect::{ReflectError, Reflectable};
use todo_list::query::evaluator::value::Value;
use todo_list::query::Query;
use todo_list::task::{Status, Task};

fn at(text: &str) -> DateTime {
    let date = NaiveDateTime::parse_from_str(text, "%Y-%m-%d %H:%M").unwrap().and_utc();
    DateTime::from_timestamp(date.timestamp(), date.timestamp_subsec_nanos()).unwrap()
}

fn test_task() -> Task {
    Task {
        name: "RandomName".to_string(),
        description: "RandomDescription".to_string(),
        date: at("2020-12-12 20:20"),
        category: "RandomCategory".to_string(),
        status: Status::On,
    }
}

#[test]
fn get_field_reflectable() {
    let task = test_task();

    let name = task.get_field("name").unwrap();
    assert_eq!(name, Value::String(task.name.to_string()));

    let date = task.get_field("date").unwrap();
    assert_eq!(date, Value::DateTime(task.date));

    let status = task.get_field("status").unwrap();
    assert_eq!(status, Value::String(task.status.as_str().to_string()));

}

#[test]
fn fields_reflectable() {
    let task = test_task();

    let fields = <Task as Reflectable>::fields(&task);

    assert!(fields.into_iter().eq([
        ("name".to_string(), Value::String(task.name.to_string())),
        ("description".to_string(), Value::String(task.description.to_string())),
        ("date".to_string(), Value::DateTime(task.date)),
        ("category".to_string(), Value::String(task.category.to_string())),
        ("status".to_string(), Value::String(task.status.as_str().to_string()))
    ]));

}

#[test]
fn task_has_five_fields() {
    assert_eq!(Task::field_names(), ["name", "description", "date", "category", "status"]);
    let task = test_task();
    assert_eq!(task.get_field("description").unwrap(), Value::String("RandomDescription".to_string()));
    assert_eq!(task.get_field("category").unwrap(), Value::String("RandomCategory".to_string()));
    assert!(matches!(task.get_field("Name"), Err(ReflectError::NoField(name)) if name == "Name"));
}

#[test]
fn status_is_read_in_three_spellings() {
    for text in ["on", "ON", "On"] {
        assert_eq!(Status::from_str(text), Ok(Status::On));
    }
    for text in ["off", "OFF", "Off"] {
        assert_eq!(Status::from_str(text), Ok(Status::Off));
    }
    assert_eq!(
        Status::from_str("oN"),
        Err("String must be one of the possible value: ['on', 'On', 'ON', 'off', 'Off', 'OFF']")
    );
    assert_eq!(Status::On.as_str(), "on");
    assert_eq!(Status::Off.as_str(), "off");
}

#[test]
fn tasks_are_found_by_a_query() {
    let mut done = test_task();
    done.name = "Done".to_string();
    done.status = Status::Off;
    done.date = at("2021-01-01 08:00");
    let tasks = vec![test_task(), done];
    let query = Query::from_str("SELECT name, status WHERE date > '2020-12-31 00:00' AND status = 'off'").unwrap();
    let table = query.execute(&tasks).unwrap();
    assert_eq!(table.columns(), &vec!["name".to_string(), "status".to_string()]);
    assert_eq!(
        table.rows(),
        &vec![vec![Value::String("Done".to_string()), Value::String("off".to_string())]]
    );
    let all = Query::from_str("SELECT *").unwrap().execute(&tasks).unwrap();
    assert_eq!(all.to_text().lines().nth(3).unwrap(), "│ RandomName │ RandomDescription │ 2020-12-12 20:20 │ RandomCategory │ on     │");
}

#[test]
fn status_and_query_are_read_with_parse() {
    assert_eq!("On".parse::<Status>(), Ok(Status::On));
    assert!("o".parse::<Status>().is_err());
    assert_eq!("SELECT *".parse::<Query>().unwrap(), Query::from_str("SELECT *").unwrap());
    assert!("SELECT".parse::<Query>().is_err());
}
