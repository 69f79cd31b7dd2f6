use htrackr::date::Date;
use htrackr::error::{CliError, ErrorKind};
use htrackr::grid::{
    column_width, error_line, habit_line, header_line, is_marked, month_label, render_grid,
    HabitRow,
};

fn date(year: i32, month: i32, day: i32) -> Date {
    Date { year, month, day }
}

fn row(name: &str, days: Vec<Date>) -> HabitRow {
    HabitRow { name: String::from(name), days: Ok(days) }
}

#[test]
fn label_of_a_month() {
    assert_eq!(month_label(2006, 6), "2006-06");
    assert_eq!(month_label(2006, 12), "2006-12");
    assert_eq!(month_label(987, 1), "0987-01");
    assert_eq!(month_label(12345, 1), "12345-01");
    assert_eq!(month_label(-5, 3), "-005-03");
}

#[test]
fn width_of_the_left_column() {
    assert_eq!(column_width("2006-06", &Vec::new()), 9);
    assert_eq!(column_width("2006-06", &vec![row("read", vec![])]), 9);
    assert_eq!(column_width("2006-06", &vec![row("123456789", vec![])]), 9);
    assert_eq!(column_width("2006-06", &vec![row("1234567890", vec![])]), 10);
    assert_eq!(
        column_width("2006-06", &vec![row("a", vec![]), row("a long name of a habit", vec![]), row("b", vec![])]),
        22
    );
    assert_eq!(column_width("2006-06", &vec![row("ééééé", vec![])]), 10);
}

#[test]
fn header_of_june() {
    assert_eq!(header_line("2006-06", 9, 30), "2006-06  | 123456789012345678901234567890");
}

#[test]
fn header_of_months_of_other_lengths() {
    assert_eq!(header_line("2006-02", 9, 28), "2006-02  | 1234567890123456789012345678");
    assert_eq!(header_line("2000-02", 9, 29), "2000-02  | 12345678901234567890123456789");
    assert_eq!(header_line("2006-01", 12, 31), "2006-01     | 1234567890123456789012345678901");
    assert_eq!(header_line("2006-13", 9, 0), "2006-13  | ");
    assert_eq!(header_line("2006-13", 3, -1), "2006-13| ");
}

#[test]
fn marked_days_are_found_by_their_day() {
    let days = vec![date(2006, 6, 7), date(2006, 6, 9)];
    assert!(is_marked(&days, 7));
    assert!(is_marked(&days, 9));
    assert!(!is_marked(&days, 8));
    assert!(!is_marked(&days, 10));
    assert!(!is_marked(&Vec::new(), 7));
}

#[test]
fn line_of_a_habit() {
    let days = vec![date(2006, 6, 7), date(2006, 6, 9)];
    assert_eq!(habit_line("abcde", 9, 30, &days), "abcde    |       X X                     ");
    assert_eq!(habit_line("abcde", 9, 30, &Vec::new()), format!("abcde    | {}", " ".repeat(30)));
    assert_eq!(habit_line("123456789", 9, 3, &vec![date(2006, 6, 1), date(2006, 6, 3)]), "123456789| X X");
    assert_eq!(habit_line("1234567890", 9, 2, &vec![date(2006, 6, 2)]), "1234567890|  X");
    assert_eq!(habit_line("a", 3, 0, &days), "a  | ");
}

#[test]
fn line_of_a_habit_marked_on_the_last_day() {
    let days = vec![date(2006, 6, 30), date(2006, 6, 1)];
    let line = habit_line("r", 2, 30, &days);
    assert_eq!(line, format!("r | X{}X", " ".repeat(28)));
}

#[test]
fn line_of_a_failure() {
    let e = CliError::with_kind(ErrorKind::NotFound, String::from("habit read not found"));
    assert_eq!(error_line(&e), "error habit read not found");
}

#[test]
fn grid_of_june_2006() {
    let rows = vec![
        row("abcde", vec![date(2006, 6, 7), date(2006, 6, 9)]),
        HabitRow {
            name: String::from("gone"),
            days: Err(CliError::with_kind(ErrorKind::NotFound, String::from("habit gone not found"))),
        },
        row("a long name of a habit", vec![date(2006, 6, 30)]),
    ];
    let lines = render_grid(2006, 6, &rows);
    assert_eq!(
        lines,
        vec![
            String::from("2006-06               | 123456789012345678901234567890"),
            String::from("abcde                 |       X X                     "),
            String::from("error habit gone not found"),
            format!("a long name of a habit| {}X", " ".repeat(29)),
        ]
    );
}

#[test]
fn grid_without_habits() {
    assert_eq!(render_grid(2000, 2, &Vec::new()), vec![String::from("2000-02  | 12345678901234567890123456789")]);
}
