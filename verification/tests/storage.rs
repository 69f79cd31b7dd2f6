use htrackr::date::Date;
use htrackr::error::{CliError, ErrorKind};
use htrackr::storage::{
    check_habit_found, check_marked, check_new_habit, check_unmarked, connect, habit_id, not_found,
    parse_stored_dates, Query, Storage, SQL_INSERT_HABIT, SQL_SELECT_NAMES,
};

fn connect_test() -> Result<Storage, CliError> {
    connect(":memory:")
}

fn date(year: i32, month: i32, day: i32) -> Date {
    Date { year, month, day }
}

#[test]
fn test_create_habit() {
    let mut storage = connect_test().unwrap();

    storage.create_habit("read").unwrap();
    let exists = storage.habit_exists("read").unwrap();
    assert!(exists);
}

#[test]
fn test_delete_habit() {
    let mut storage = connect_test().unwrap();

    storage.create_habit("read").unwrap();
    storage.delete_habit("read").unwrap();
    let exists = storage.habit_exists("read").unwrap();
    assert!(!exists);
}

#[test]
fn test_rename_habit() {
    let mut storage = connect_test().unwrap();

    storage.create_habit("abcde").unwrap();
    storage.rename_habit("abcde", "asdfgh").unwrap();

    let exists = storage.habit_exists("asdfgh").unwrap();
    assert!(exists);
    let exists = storage.habit_exists("abcde").unwrap();
    assert!(!exists);
}

#[test]
fn test_list_habit() {
    let mut storage = connect_test().unwrap();

    storage.create_habit("abcde").unwrap();
    storage.create_habit("asdfgh").unwrap();

    let list = storage.habit_list().unwrap();
    assert!(list.contains(&String::from("abcde")));
    assert!(list.contains(&String::from("asdfgh")));
}

#[test]
fn test_mark_habit() {
    let mut storage = connect_test().unwrap();

    storage.create_habit("abcde").unwrap();
    let date1 = Date { year: 2006, month: 6, day: 7 };
    let date2 = Date { year: 2006, month: 6, day: 9 };
    storage.mark_habit("abcde", &date1).unwrap();
    storage.mark_habit("abcde", &date2).unwrap();
    let days = storage.get_marked_days("abcde", &Date { year: 2006, month: 6, day: 1 }, &Date { year: 2006, month: 6, day: 20 }).unwrap();

    assert!(days.len() == 2);
    assert!(days.contains(&date1));
    assert!(days.contains(&date2));
    assert!(!days.contains(&Date { year: 2006, month: 6, day: 10 }));
}

#[test]
fn test_mark_unhabit() {
    let mut storage = connect_test().unwrap();

    storage.create_habit("abcde").unwrap();
    let date1 = Date { year: 2006, month: 6, day: 7 };
    let date2 = Date { year: 2006, month: 6, day: 9 };
    storage.mark_habit("abcde", &date1).unwrap();
    storage.mark_habit("abcde", &date2).unwrap();
    storage.unmark_habit("abcde", &date2).unwrap();
    let days = storage.get_marked_days("abcde", &Date { year: 2006, month: 6, day: 1 }, &Date { year: 2006, month: 6, day: 20 }).unwrap();

    assert!(days.len() == 1);
    assert!(days.contains(&date1));
    assert!(!days.contains(&date2));
}

#[test]
fn a_habit_is_not_there_before_it_is_created() {
    let mut storage = connect_test().unwrap();
    assert!(!storage.habit_exists("read").unwrap());
    assert!(storage.habit_list().unwrap().is_empty());
}

#[test]
fn create_refuses_a_name_that_is_taken() {
    let mut storage = connect_test().unwrap();
    storage.create_habit("read").unwrap();
    let err = storage.create_habit("read").unwrap_err();
    assert_eq!(err.kind, ErrorKind::Duplicate);
    assert_eq!(storage.habit_list().unwrap(), vec![String::from("read")]);
}

#[test]
fn create_refuses_the_empty_name() {
    let mut storage = connect_test().unwrap();
    let err = storage.create_habit("").unwrap_err();
    assert_eq!(err.kind, ErrorKind::Validation);
    assert!(!storage.habit_exists("").unwrap());
}

#[test]
fn created_habits_get_different_identifiers() {
    let mut storage = connect_test().unwrap();
    storage.create_habit("read").unwrap();
    storage.create_habit("run").unwrap();
    let first = storage.get_habit_id("read").unwrap();
    let second = storage.get_habit_id("run").unwrap();
    assert!(first.starts_with("hbt_"));
    assert!(second.starts_with("hbt_"));
    assert_eq!(first.len(), 40);
    assert_ne!(first, second);
}

#[test]
fn delete_removes_the_habit_and_its_entries() {
    let mut storage = connect_test().unwrap();
    storage.create_habit("read").unwrap();
    storage.mark_habit("read", &date(2006, 6, 7)).unwrap();
    storage.mark_habit("read", &date(2006, 6, 9)).unwrap();
    storage.delete_habit("read").unwrap();

    assert!(!storage.habit_exists("read").unwrap());
    let err = storage.get_marked_days("read", &date(2006, 6, 1), &date(2006, 6, 30)).unwrap_err();
    assert_eq!(err.kind, ErrorKind::NotFound);

    storage.create_habit("read").unwrap();
    let days = storage.get_marked_days("read", &date(2006, 6, 1), &date(2006, 6, 30)).unwrap();
    assert!(days.is_empty());
}

#[test]
fn delete_leaves_other_habits_alone() {
    let mut storage = connect_test().unwrap();
    storage.create_habit("read").unwrap();
    storage.create_habit("run").unwrap();
    storage.mark_habit("run", &date(2006, 6, 7)).unwrap();
    storage.delete_habit("read").unwrap();
    assert!(storage.habit_exists("run").unwrap());
    let days = storage.get_marked_days("run", &date(2006, 6, 1), &date(2006, 6, 30)).unwrap();
    assert_eq!(days, vec![date(2006, 6, 7)]);
}

#[test]
fn delete_refuses_a_habit_that_is_not_there() {
    let mut storage = connect_test().unwrap();
    let err = storage.delete_habit("read").unwrap_err();
    assert_eq!(err.kind, ErrorKind::NotFound);
    assert_eq!(err.message, "habit read not found");
}

#[test]
fn rename_keeps_the_entries_and_the_identifier() {
    let mut storage = connect_test().unwrap();
    storage.create_habit("abcde").unwrap();
    storage.mark_habit("abcde", &date(2006, 6, 7)).unwrap();
    let id = storage.get_habit_id("abcde").unwrap();
    storage.rename_habit("abcde", "asdfgh").unwrap();

    let days = storage.get_marked_days("asdfgh", &date(2006, 6, 1), &date(2006, 6, 30)).unwrap();
    assert_eq!(days, vec![date(2006, 6, 7)]);
    assert_eq!(storage.get_habit_id("asdfgh").unwrap(), id);
    let err = storage.get_habit_id("abcde").unwrap_err();
    assert_eq!(err.kind, ErrorKind::NotFound);
}

#[test]
fn rename_refuses_a_habit_that_is_not_there() {
    let mut storage = connect_test().unwrap();
    let err = storage.rename_habit("abcde", "asdfgh").unwrap_err();
    assert_eq!(err.kind, ErrorKind::NotFound);
}

#[test]
fn rename_does_not_look_at_the_new_name() {
    let mut storage = connect_test().unwrap();
    storage.create_habit("abcde").unwrap();
    storage.create_habit("asdfgh").unwrap();
    storage.rename_habit("abcde", "asdfgh").unwrap();
    let list = storage.habit_list().unwrap();
    assert_eq!(list, vec![String::from("asdfgh"), String::from("asdfgh")]);
}

#[test]
fn identifier_of_a_habit_that_is_not_there() {
    let mut storage = connect_test().unwrap();
    let err = storage.get_habit_id("read").unwrap_err();
    assert_eq!(err.kind, ErrorKind::NotFound);
    assert_eq!(err.message, "habit read not found");
}

#[test]
fn marking_twice_fails_the_second_time() {
    let mut storage = connect_test().unwrap();
    storage.create_habit("read").unwrap();
    storage.mark_habit("read", &date(2006, 6, 7)).unwrap();
    let err = storage.mark_habit("read", &date(2006, 6, 7)).unwrap_err();
    assert_eq!(err.kind, ErrorKind::AlreadyMarked);
    let days = storage.get_marked_days("read", &date(2006, 6, 1), &date(2006, 6, 30)).unwrap();
    assert_eq!(days, vec![date(2006, 6, 7)]);
}

#[test]
fn unmarking_what_is_not_marked_fails() {
    let mut storage = connect_test().unwrap();
    storage.create_habit("read").unwrap();
    let err = storage.unmark_habit("read", &date(2006, 6, 7)).unwrap_err();
    assert_eq!(err.kind, ErrorKind::NotMarked);
    storage.mark_habit("read", &date(2006, 6, 7)).unwrap();
    storage.unmark_habit("read", &date(2006, 6, 7)).unwrap();
    let err = storage.unmark_habit("read", &date(2006, 6, 7)).unwrap_err();
    assert_eq!(err.kind, ErrorKind::NotMarked);
}

#[test]
fn marks_of_habits_are_kept_apart() {
    let mut storage = connect_test().unwrap();
    storage.create_habit("read").unwrap();
    storage.create_habit("run").unwrap();
    storage.mark_habit("read", &date(2006, 6, 7)).unwrap();
    storage.mark_habit("run", &date(2006, 6, 7)).unwrap();
    storage.unmark_habit("read", &date(2006, 6, 7)).unwrap();
    let days = storage.get_marked_days("run", &date(2006, 6, 1), &date(2006, 6, 30)).unwrap();
    assert_eq!(days, vec![date(2006, 6, 7)]);
    let days = storage.get_marked_days("read", &date(2006, 6, 1), &date(2006, 6, 30)).unwrap();
    assert!(days.is_empty());
}

#[test]
fn mark_refuses_a_habit_that_is_not_there() {
    let mut storage = connect_test().unwrap();
    let err = storage.mark_habit("read", &date(2006, 6, 7)).unwrap_err();
    assert_eq!(err.kind, ErrorKind::NotFound);
    let err = storage.unmark_habit("read", &date(2006, 6, 7)).unwrap_err();
    assert_eq!(err.kind, ErrorKind::NotFound);
}

#[test]
fn mark_refuses_a_date_that_the_calendar_lacks() {
    let mut storage = connect_test().unwrap();
    storage.create_habit("read").unwrap();
    let err = storage.mark_habit("read", &date(2006, 2, 29)).unwrap_err();
    assert_eq!(err.kind, ErrorKind::Validation);
    let err = storage.unmark_habit("read", &date(2006, 2, 29)).unwrap_err();
    assert_eq!(err.kind, ErrorKind::Validation);
    let err = storage.mark_habit("nobody", &date(2006, 2, 29)).unwrap_err();
    assert_eq!(err.kind, ErrorKind::Validation);
}

#[test]
fn marked_days_of_a_range() {
    let mut storage = connect_test().unwrap();
    storage.create_habit("read").unwrap();
    for day in [1, 7, 9, 20, 21, 30] {
        storage.mark_habit("read", &date(2006, 6, day)).unwrap();
    }
    storage.mark_habit("read", &date(2006, 5, 31)).unwrap();
    storage.mark_habit("read", &date(2006, 7, 1)).unwrap();
    let mut days = storage.get_marked_days("read", &date(2006, 6, 1), &date(2006, 6, 20)).unwrap();
    days.sort_by_key(|d| (d.year, d.month, d.day));
    assert_eq!(days, vec![date(2006, 6, 1), date(2006, 6, 7), date(2006, 6, 9), date(2006, 6, 20)]);
}

#[test]
fn marked_days_refuse_bounds_that_the_calendar_lacks() {
    let mut storage = connect_test().unwrap();
    storage.create_habit("read").unwrap();
    let err = storage.get_marked_days("read", &date(2006, 6, 0), &date(2006, 6, 30)).unwrap_err();
    assert_eq!(err.kind, ErrorKind::Validation);
    let err = storage.get_marked_days("read", &date(2006, 6, 1), &date(2006, 6, 31)).unwrap_err();
    assert_eq!(err.kind, ErrorKind::Validation);
}

#[test]
fn marked_days_of_a_habit_that_is_not_there() {
    let mut storage = connect_test().unwrap();
    let err = storage.get_marked_days("read", &date(2006, 6, 1), &date(2006, 6, 30)).unwrap_err();
    assert_eq!(err.kind, ErrorKind::NotFound);
}

#[test]
fn connect_twice_keeps_what_is_there() {
    let mut first = connect_test().unwrap();
    first.create_habit("read").unwrap();
    let mut second = connect_test().unwrap();
    assert!(first.habit_exists("read").unwrap());
    assert!(!second.habit_exists("read").unwrap());
}

#[test]
fn connect_fails_where_no_database_can_be() {
    let err = match connect("/nonexistent_directory_for_habits/deeper/habits.db") {
        Ok(_) => panic!("opened a database in a directory that is not there"),
        Err(err) => err,
    };
    assert_eq!(err.kind, ErrorKind::Storage);
}

#[test]
fn stored_texts_that_are_no_dates_are_passed_over() {
    let stored = vec![
        String::from("2006-06-07"),
        String::from("garbage"),
        String::from("2006-02-30"),
        String::from("2006-6-9"),
        String::from("2006-06-09"),
        String::from(""),
        String::from("2006-06-07"),
    ];
    let dates = parse_stored_dates(&stored);
    assert_eq!(dates, vec![date(2006, 6, 7), date(2006, 6, 9), date(2006, 6, 7)]);
    assert!(parse_stored_dates(&Vec::new()).is_empty());
}

#[test]
fn identifier_from_a_unique_text() {
    assert_eq!(habit_id("1234"), "hbt_1234");
    assert_eq!(habit_id(""), "hbt_");
}

#[test]
fn a_new_habit_is_checked() {
    assert!(check_new_habit("read", false).is_ok());
    assert_eq!(check_new_habit("read", true).unwrap_err().kind, ErrorKind::Duplicate);
    assert_eq!(check_new_habit("", false).unwrap_err().kind, ErrorKind::Validation);
    assert_eq!(check_new_habit("", true).unwrap_err().kind, ErrorKind::Duplicate);
}

#[test]
fn a_habit_is_checked_to_be_there() {
    assert!(check_habit_found("read", true).is_ok());
    let err = check_habit_found("read", false).unwrap_err();
    assert_eq!(err.kind, ErrorKind::NotFound);
    assert_eq!(err.message, "habit read not found");
    assert_eq!(not_found("run").message, "habit run not found");
}

#[test]
fn marks_are_checked_by_their_count() {
    assert!(check_unmarked("read", "2006-06-07", 0).is_ok());
    assert!(check_unmarked("read", "2006-06-07", -1).is_ok());
    let err = check_unmarked("read", "2006-06-07", 1).unwrap_err();
    assert_eq!(err.kind, ErrorKind::AlreadyMarked);
    assert_eq!(err.message, "habit read already marked for 2006-06-07 date");
    assert_eq!(check_unmarked("read", "2006-06-07", 2).unwrap_err().kind, ErrorKind::AlreadyMarked);

    assert!(check_marked("read", "2006-06-07", 1).is_ok());
    assert!(check_marked("read", "2006-06-07", 2).is_ok());
    assert!(check_marked("read", "2006-06-07", -1).is_ok());
    let err = check_marked("read", "2006-06-07", 0).unwrap_err();
    assert_eq!(err.kind, ErrorKind::NotMarked);
    assert_eq!(err.message, "habit read is not marked for 2006-06-07 date");
}

#[test]
fn statements_hold_their_parameters() {
    let q = Query::plain(SQL_SELECT_NAMES);
    assert_eq!(q.sql, "select name from habits");
    assert!(q.params.is_empty());
    let q = Query::with_one(SQL_SELECT_NAMES, "a");
    assert_eq!(q.params, vec![String::from("a")]);
    let q = Query::with_two(SQL_INSERT_HABIT, "hbt_1", "read");
    assert_eq!(q.sql, "insert into habits (id, name) values (?1, ?2)");
    assert_eq!(q.params, vec![String::from("hbt_1"), String::from("read")]);
    let q = Query::with_three(SQL_SELECT_NAMES, "a", "b", "c");
    assert_eq!(q.params, vec![String::from("a"), String::from("b"), String::from("c")]);
}
