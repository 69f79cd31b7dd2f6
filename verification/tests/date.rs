use htrackr::date::{num_days, Date};
use htrackr::error::ErrorKind;

fn date(year: i32, month: i32, day: i32) -> Date {
    Date { year, month, day }
}

#[test]
fn days_of_each_month() {
    let expected = [31, 28, 31, 30, 31, 30, 31, 31, 30, 31, 30, 31];
    for month in 1..=12 {
        assert_eq!(num_days(2006, month), expected[(month - 1) as usize]);
    }
}

#[test]
fn days_of_june_2006() {
    assert_eq!(num_days(2006, 6), 30);
}

#[test]
fn days_of_february_in_leap_years() {
    assert_eq!(num_days(2000, 2), 29);
    assert_eq!(num_days(1900, 2), 28);
    assert_eq!(num_days(2004, 2), 29);
    assert_eq!(num_days(2001, 2), 28);
    assert_eq!(num_days(2400, 2), 29);
    assert_eq!(num_days(2100, 2), 28);
}

#[test]
fn days_of_a_month_out_of_range() {
    assert_eq!(num_days(2006, 0), 0);
    assert_eq!(num_days(2006, 13), 0);
    assert_eq!(num_days(2006, -1), 0);
}

#[test]
fn days_of_february_before_year_one() {
    assert_eq!(num_days(0, 2), 29);
    assert_eq!(num_days(-1, 2), 28);
    assert_eq!(num_days(-4, 2), 29);
    assert_eq!(num_days(-100, 2), 28);
    assert_eq!(num_days(-400, 2), 29);
    assert_eq!(num_days(i32::MIN, 2), 29);
    assert_eq!(num_days(i32::MAX, 2), 28);
    assert_eq!(num_days(-7, 4), 30);
}

#[test]
fn february_29_follows_the_leap_rule() {
    for year in 1..=2400 {
        let leap = year % 4 == 0 && (year % 100 != 0 || year % 400 == 0);
        assert_eq!(date(year, 2, 29).is_valid(), leap, "year {}", year);
    }
}

#[test]
fn february_29_before_year_one_is_no_date() {
    assert!(!date(0, 2, 29).is_valid());
    assert!(!date(-4, 2, 29).is_valid());
}

#[test]
fn validity_at_the_edges() {
    assert!(date(1, 1, 1).is_valid());
    assert!(!date(0, 12, 31).is_valid());
    assert!(!date(2006, 0, 1).is_valid());
    assert!(!date(2006, 13, 1).is_valid());
    assert!(!date(2006, 6, 0).is_valid());
    assert!(date(2006, 6, 30).is_valid());
    assert!(!date(2006, 6, 31).is_valid());
    assert!(date(2006, 12, 31).is_valid());
    assert!(!date(2006, 12, 32).is_valid());
    assert!(!date(2006, 6, -7).is_valid());
}

#[test]
fn parse_a_date() {
    let parsed = Date::from_string("2006-06-07").unwrap();
    assert_eq!(parsed, date(2006, 6, 7));
}

#[test]
fn parse_refuses_short_fields() {
    let err = Date::from_string("2006-6-7").unwrap_err();
    assert_eq!(err.kind, ErrorKind::Parse);
}

#[test]
fn parse_refuses_other_shapes() {
    for text in [
        "",
        "2006",
        "2006-06",
        "2006-06-07-08",
        "2006/06/07",
        "20060607",
        "206-006-07",
        "2006-06-7a",
        "abcd-ef-gh",
        "2006-06-+7",
        "+200-06-07",
        " 2006-06-07",
        "2006-06-07 ",
        "2006-06-07\n",
        "２００６-06-07",
    ] {
        let err = Date::from_string(text).unwrap_err();
        assert_eq!(err.kind, ErrorKind::Parse, "text {:?}", text);
    }
}

#[test]
fn parse_refuses_dates_that_the_calendar_lacks() {
    for text in ["2006-02-29", "2006-13-01", "2006-00-10", "2006-06-31", "2006-06-00", "0000-01-01"] {
        let err = Date::from_string(text).unwrap_err();
        assert_eq!(err.kind, ErrorKind::Parse, "text {:?}", text);
    }
}

#[test]
fn parse_takes_the_edges_of_the_calendar() {
    assert_eq!(Date::from_string("0001-01-01").unwrap(), date(1, 1, 1));
    assert_eq!(Date::from_string("9999-12-31").unwrap(), date(9999, 12, 31));
    assert_eq!(Date::from_string("2000-02-29").unwrap(), date(2000, 2, 29));
}

#[test]
fn format_a_date() {
    assert_eq!(date(2006, 6, 7).to_string().unwrap(), "2006-06-07");
    assert_eq!(date(1, 1, 1).to_string().unwrap(), "0001-01-01");
    assert_eq!(date(987, 10, 31).to_string().unwrap(), "0987-10-31");
    assert_eq!(date(9999, 12, 31).to_string().unwrap(), "9999-12-31");
}

#[test]
fn format_a_year_of_five_digits() {
    assert_eq!(date(12345, 1, 2).to_string().unwrap(), "12345-01-02");
    let err = Date::from_string("12345-01-02").unwrap_err();
    assert_eq!(err.kind, ErrorKind::Parse);
}

#[test]
fn format_refuses_dates_that_the_calendar_lacks() {
    for d in [date(2006, 2, 29), date(0, 1, 1), date(2006, 13, 1), date(2006, 6, 31), date(-5, 1, 1)] {
        let err = d.to_string().unwrap_err();
        assert_eq!(err.kind, ErrorKind::Validation);
    }
}

#[test]
fn format_then_parse_gives_the_date_back() {
    for year in [1, 9, 10, 99, 100, 999, 1000, 1900, 2000, 2006, 2024, 9999] {
        for month in 1..=12 {
            for day in 1..=num_days(year, month) {
                let d = date(year, month, day);
                let text = d.to_string().unwrap();
                assert_eq!(text.len(), 10);
                assert_eq!(Date::from_string(&text).unwrap(), d);
            }
        }
    }
}

#[test]
fn the_day_before() {
    assert_eq!(date(2006, 6, 7).previous(), date(2006, 6, 6));
    assert_eq!(date(2006, 6, 1).previous(), date(2006, 5, 31));
    assert_eq!(date(2006, 5, 1).previous(), date(2006, 4, 30));
    assert_eq!(date(2006, 3, 1).previous(), date(2006, 2, 28));
    assert_eq!(date(2000, 3, 1).previous(), date(2000, 2, 29));
    assert_eq!(date(1900, 3, 1).previous(), date(1900, 2, 28));
    assert_eq!(date(2006, 1, 1).previous(), date(2005, 12, 31));
    assert_eq!(date(1, 1, 1).previous(), date(0, 12, 31));
    assert!(!date(1, 1, 1).previous().is_valid());
}

#[test]
fn today_is_a_date_of_the_calendar() {
    let today = Date::today();
    assert!(today.year >= 2024, "year {}", today.year);
    assert!(1 <= today.month && today.month <= 12);
    assert!(1 <= today.day && today.day <= num_days(today.year, today.month));
    assert!(today.is_valid());
}

#[test]
fn yesterday_is_the_day_before_today() {
    let before = Date::today();
    let yesterday = Date::yesterday();
    let after = Date::today();
    assert!(yesterday.is_valid());
    assert!(yesterday == before.previous() || yesterday == after.previous());
}

#[test]
fn texts_of_dates_sort_as_the_dates() {
    let dates = [
        date(1, 1, 1),
        date(9, 12, 31),
        date(10, 1, 1),
        date(999, 12, 31),
        date(1000, 1, 1),
        date(2006, 5, 31),
        date(2006, 6, 1),
        date(2006, 6, 9),
        date(2006, 6, 10),
        date(2006, 10, 1),
        date(2007, 1, 1),
        date(9999, 12, 31),
    ];
    for a in dates {
        for b in dates {
            let before = (a.year, a.month, a.day) <= (b.year, b.month, b.day);
            assert_eq!(a.to_string().unwrap() <= b.to_string().unwrap(), before, "{:?} {:?}", a, b);
        }
    }
}

#[test]
fn texts_of_later_years_do_not_sort_as_the_dates() {
    let a = date(10000, 1, 1).to_string().unwrap();
    let b = date(9999, 12, 31).to_string().unwrap();
    assert!(a < b);
}

#[test]
fn parse_then_format_gives_the_text_back() {
    for text in ["0001-01-01", "2006-06-07", "2000-02-29", "1999-12-31", "9999-12-31", "0987-10-09"] {
        assert_eq!(Date::from_string(text).unwrap().to_string().unwrap(), text);
    }
}
