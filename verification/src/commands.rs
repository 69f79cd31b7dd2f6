//! The commands: what each does with the store, given its arguments as plain values.

use vstd::prelude::*;
use vstd::string::{StrSliceExecFns, StringExecFns};

use crate::date::{day_before, days_in_month, num_days, parse_date, Date};
use crate::error::{fails_with, CliError, ErrorKind};
use crate::grid::{grid_text, render_grid, row_names, HabitRow};
use crate::storage::{
    create_steps, delete_steps, id_steps, mark_steps, marked_days_steps, rename_steps,
    unmark_steps, Answer, Exchange, Storage, SQL_SELECT_NAMES,
};
use crate::text::{byte_len, byte_length, same_text, texts};

verus! {

/// Whether `date` is one of the two words that stand for the day before today.
pub open spec fn means_yesterday(date: Seq<char>) -> bool {
    date == seq!['y', 'e', 's', 't', 'e', 'r', 'd', 'a', 'y'] || date == seq!['y']
}

/// The text of the first day of the month that `month` names as `YYYY-MM`.
pub open spec fn first_day_text(month: Seq<char>) -> Seq<char> {
    month + seq!['-', '0', '1']
}

/// Whether `answer`, a line as it was typed, agrees: it begins with `y` and is longer
/// than one byte.
pub open spec fn agrees(answer: Seq<char>) -> bool {
    answer.len() > 0 && answer[0] == 'y' && byte_len(answer) > 1
}

/// Whether `date` is given and names no day: it is neither a word for yesterday nor the
/// text of a date.
pub open spec fn names_no_day(date: Option<&str>) -> bool {
    match date {
        Some(text) => !means_yesterday(text@) && parse_date(text@) is None,
        None => false,
    }
}

/// Whether `month` is given and names no month: with `-01` behind it, it is not the text
/// of a date.
pub open spec fn names_no_month(month: Option<&str>) -> bool {
    match month {
        Some(text) => parse_date(first_day_text(text@)) is None,
        None => false,
    }
}

/// Whether `day` can be the day that `date` names: the date that `date` is the text of;
/// for a word that means yesterday, and where no date is given, a date of the calendar,
/// which one being the clock's to say.
pub open spec fn names_day(date: Option<&str>, day: Date) -> bool {
    match date {
        Some(text) => if means_yesterday(text@) {
            day.valid()
        } else {
            parse_date(text@) == Some(day)
        },
        None => day.valid(),
    }
}

/// Whether `first` can be the first day of the month that `month` names: the date that
/// `month` with `-01` behind it is the text of; where no month is given, the first day
/// of a month of the calendar, which one being the clock's to say.
pub open spec fn names_month(month: Option<&str>, first: Date) -> bool {
    match month {
        Some(text) => parse_date(first_day_text(text@)) == Some(first),
        None => first.valid() && first.day == 1,
    }
}

/// The first day of the month `month` of `year`.
pub open spec fn month_start(year: i32, month: i32) -> Date {
    Date { year, month, day: 1 }
}

/// The last day of the month `month` of `year`.
pub open spec fn month_end(year: i32, month: i32) -> Date {
    Date { year, month, day: days_in_month(year as int, month as int) as i32 }
}

/// The exchanges of asking for the marked days of each of `names` from `date_start` to
/// `date_end`, one name after the other: `steps` is the exchanges of the first name, then
/// those of the second, and so on, and `rows` holds each name with what came of it.
pub open spec fn rows_steps(
    names: Seq<Seq<char>>,
    date_start: Date,
    date_end: Date,
    steps: Seq<Exchange>,
    rows: Seq<HabitRow>,
) -> bool
    decreases names.len(),
{
    if names.len() == 0 {
        steps.len() == 0 && rows.len() == 0
    } else {
        &&& rows.len() == names.len()
        &&& rows.last().name@ == names.last()
        &&& exists|cut: int|
            {
                &&& 0 <= cut <= steps.len()
                &&& rows_steps(
                    names.drop_last(),
                    date_start,
                    date_end,
                    #[trigger] steps.take(cut),
                    rows.drop_last(),
                )
                &&& marked_days_steps(
                    names.last(),
                    date_start,
                    date_end,
                    steps.skip(cut),
                    rows.last().days,
                )
            }
    }
}

/// The exchanges of listing a month: the names of all habits are asked for. Where they
/// come and `date` names a month, or none is given, the marked days of each name are
/// asked for, from the first day of the month to the last, in the order of the names,
/// and the lines are the grid of the month for these names and what came of each.
pub open spec fn grid_steps(
    date: Option<&str>,
    steps: Seq<Exchange>,
    r: Result<Vec<String>, CliError>,
) -> bool {
    &&& steps.len() >= 1
    &&& steps[0].asks(SQL_SELECT_NAMES, seq![])
    &&& match steps[0].answer {
        Answer::Texts(names) => if names_no_month(date) {
            steps.len() == 1 && fails_with(r, ErrorKind::Parse)
        } else {
            match r {
                Ok(lines) => exists|first: Date, rows: Seq<HabitRow>|
                    {
                        &&& names_month(date, first)
                        &&& row_names(rows) == names
                        &&& rows_steps(
                            names,
                            first,
                            month_end(first.year, first.month),
                            steps.skip(1),
                            rows,
                        )
                        &&& texts(lines@) == #[trigger] grid_text(
                            first.year as int,
                            first.month as int,
                            rows,
                        )
                    },
                Err(_) => false,
            }
        },
        Answer::Failed => steps.len() == 1 && fails_with(r, ErrorKind::Storage),
        _ => false,
    }
}

fn is_yesterday_word(date: &str) -> (r: bool)
    ensures
        r == means_yesterday(date@),
{
    proof {
        reveal_strlit("yesterday");
        reveal_strlit("y");
        assert("yesterday"@ =~= seq!['y', 'e', 's', 't', 'e', 'r', 'd', 'a', 'y']);
        assert("y"@ =~= seq!['y']);
    }
    same_text(date, "yesterday") || same_text(date, "y")
}

/// Whether `answer`, a line as it was typed, agrees.
pub fn confirms(answer: &str) -> (yes: bool)
    ensures
        yes == agrees(answer@),
{
    !answer.is_empty() && answer.get_char(0) == 'y' && byte_length(answer) > 1
}

/// The date that the argument `date` names on the day `today`: the day before `today` for
/// one of the two words that mean yesterday, else the date that `date` is the text of.
pub fn resolve_date_arg(date: &str, today: &Date) -> (r: Result<Date, CliError>)
    requires
        today.year > i32::MIN,
    ensures
        means_yesterday(date@) ==> r == Ok::<Date, CliError>(day_before(*today)),
        !means_yesterday(date@) ==> match r {
            Ok(d) => parse_date(date@) == Some(d),
            Err(e) => parse_date(date@) is None && e.kind == ErrorKind::Parse,
        },
{
    if is_yesterday_word(date) {
        return Ok(today.previous());
    }
    Date::from_string(date)
}

/// The date that the argument `date` names. For one of the two words that mean yesterday
/// the clock is read: the result is a date of the calendar, and which one is the clock's
/// to say.
pub fn parse_date_arg(date: &str) -> (r: Result<Date, CliError>)
    ensures
        match r {
            Ok(d) => !names_no_day(Some(date)) && names_day(Some(date), d),
            Err(e) => names_no_day(Some(date)) && e.kind == ErrorKind::Parse,
        },
{
    if is_yesterday_word(date) {
        return Ok(Date::yesterday());
    }
    Date::from_string(date)
}

/// The year and the month of the grid: those that `month` names as `YYYY-MM`, or those of
/// `today` where no month is given.
pub fn month_of(month: Option<&str>, today: &Date) -> (r: Result<(i32, i32), CliError>)
    ensures
        match month {
            Some(text) => match r {
                Ok(found) => parse_date(first_day_text(text@)) == Some(
                    month_start(found.0, found.1),
                ),
                Err(e) => parse_date(first_day_text(text@)) is None && e.kind == ErrorKind::Parse,
            },
            None => r == Ok::<(i32, i32), CliError>((today.year, today.month)),
        },
{
    match month {
        Some(text) => {
            proof {
                reveal_strlit("-01");
                assert("-01"@ =~= seq!['-', '0', '1']);
            }
            let full_date = String::from_str(text).concat("-01");
            let date = Date::from_string(full_date.as_str())?;
            proof {
                let full = first_day_text(text@);
                assert(full.len() == 10 && text@.len() == 7);
                assert(full[8] == '0' && full[9] == '1');
                assert(date.day == 1);
            }
            Ok((date.year, date.month))
        },
        None => Ok((today.year, today.month)),
    }
}

/// Asks the store for the marked days of each of `names` in the month `month` of `year`,
/// from its first day to its last, and keeps each answer, the failures too.
pub fn marked_rows(storage: &mut Storage, names: &Vec<String>, year: i32, month: i32) -> (rows: Vec<
    HabitRow,
>)
    ensures
        final(storage).continues(*old(storage)),
        row_names(rows@) == texts(names@),
        rows_steps(
            texts(names@),
            month_start(year, month),
            month_end(year, month),
            final(storage).steps_after(*old(storage)),
            rows@,
        ),
{
    let date_start = Date { year, month, day: 1 };
    let date_end = Date { year, month, day: num_days(year, month) };
    let mut rows: Vec<HabitRow> = Vec::new();
    let mut done: usize = 0;
    while done < names.len()
        invariant
            done <= names.len(),
            rows.len() == done,
            date_start == month_start(year, month),
            date_end == month_end(year, month),
            storage.continues(*old(storage)),
            forall|i: int| 0 <= i < rows.len() ==> (#[trigger] rows[i]).name@ == names[i]@,
            rows_steps(
                texts(names@).take(done as int),
                date_start,
                date_end,
                storage.steps_after(*old(storage)),
                rows@,
            ),
        decreases names.len() - done,
    {
        let ghost between = *storage;
        let ghost rows_before = rows@;
        let days = storage.get_marked_days(names[done].as_str(), &date_start, &date_end);
        rows.push(HabitRow { name: names[done].clone(), days });
        proof {
            storage.lemma_steps_join(*old(storage), between);
            let asked = texts(names@).take(done + 1);
            let steps = storage.steps_after(*old(storage));
            let cut = between.steps_after(*old(storage)).len() as int;
            assert(asked.drop_last() =~= texts(names@).take(done as int));
            assert(asked.last() == names[done as int]@);
            assert(rows@.drop_last() =~= rows_before);
            assert(steps.take(cut) =~= between.steps_after(*old(storage)));
            assert(steps.skip(cut) =~= storage.steps_after(between));
            assert(rows_steps(
                asked.drop_last(),
                date_start,
                date_end,
                steps.take(cut),
                rows@.drop_last(),
            ));
            assert(marked_days_steps(
                asked.last(),
                date_start,
                date_end,
                steps.skip(cut),
                rows@.last().days,
            ));
        }
        done = done + 1;
    }
    assert(texts(names@).take(done as int) =~= texts(names@));
    assert(row_names(rows@) =~= texts(names@));
    rows
}

/// The grid of a month as lines: of the month that `date` names as `YYYY-MM`, or of the
/// month of today where none is given. A habit whose marked days cannot be had gets a line
/// that says so, and the others follow.
pub fn list(storage: &mut Storage, date: Option<&str>) -> (r: Result<Vec<String>, CliError>)
    ensures
        final(storage).continues(*old(storage)),
        grid_steps(date, final(storage).steps_after(*old(storage)), r),
{
    let names = storage.habit_list()?;
    let ghost between = *storage;
    let today = Date::today();
    let (year, month) = month_of(date, &today)?;
    let rows = marked_rows(storage, &names, year, month);
    let lines = render_grid(year, month, &rows);
    proof {
        storage.lemma_steps_join(*old(storage), between);
        let steps = storage.steps_after(*old(storage));
        assert(steps.skip(1) =~= storage.steps_after(between));
        let first = month_start(year, month);
        assert(names_month(date, first));
        assert(texts(lines@) == grid_text(first.year as int, first.month as int, rows@));
    }
    Ok(lines)
}

/// Creates the habit `name`. A missing name is a validation error.
pub fn create(storage: &mut Storage, name: Option<&str>) -> (r: Result<(), CliError>)
    ensures
        final(storage).continues(*old(storage)),
        match name {
            Some(text) => create_steps(text@, final(storage).steps_after(*old(storage)), r),
            None => final(storage).steps_after(*old(storage)).len() == 0 && fails_with(
                r,
                ErrorKind::Validation,
            ),
        },
{
    match name {
        Some(name) => storage.create_habit(name),
        None => Err(CliError::new("name is required")),
    }
}

/// Deletes the habit `name` and its entries where `answer`, the line that the user typed
/// when asked, agrees; does nothing where it does not.
pub fn delete(storage: &mut Storage, name: &str, answer: &str) -> (r: Result<(), CliError>)
    ensures
        final(storage).continues(*old(storage)),
        if agrees(answer@) {
            delete_steps(name@, final(storage).steps_after(*old(storage)), r)
        } else {
            final(storage).steps_after(*old(storage)).len() == 0 && r is Ok
        },
{
    if confirms(answer) {
        storage.delete_habit(name)?;
    }
    Ok(())
}

/// Gives the habit `name` the name `new_name`. A missing argument is a validation error.
pub fn rename(storage: &mut Storage, name: Option<&str>, new_name: Option<&str>) -> (r: Result<
    (),
    CliError,
>)
    ensures
        final(storage).continues(*old(storage)),
        match (name, new_name) {
            (Some(from), Some(to)) => rename_steps(
                from@,
                to@,
                final(storage).steps_after(*old(storage)),
                r,
            ),
            _ => final(storage).steps_after(*old(storage)).len() == 0 && fails_with(
                r,
                ErrorKind::Validation,
            ),
        },
{
    match (name, new_name) {
        (Some(name), Some(new_name)) => storage.rename_habit(name, new_name),
        _ => Err(CliError::new("invalid args")),
    }
}

/// The identifier of the habit `name`. A missing name is a validation error.
pub fn id(storage: &mut Storage, name: Option<&str>) -> (r: Result<String, CliError>)
    ensures
        final(storage).continues(*old(storage)),
        match name {
            Some(text) => id_steps(text@, final(storage).steps_after(*old(storage)), r),
            None => final(storage).steps_after(*old(storage)).len() == 0 && fails_with(
                r,
                ErrorKind::Validation,
            ),
        },
{
    match name {
        Some(name) => storage.get_habit_id(name),
        None => Err(CliError::new("invalid args")),
    }
}

/// The day that a command works on: the one that `date` names, or today where no date is
/// given.
fn day_of(date: Option<&str>) -> (r: Result<Date, CliError>)
    ensures
        match r {
            Ok(day) => !names_no_day(date) && names_day(date, day),
            Err(e) => names_no_day(date) && e.kind == ErrorKind::Parse,
        },
{
    match date {
        Some(text) => parse_date_arg(text),
        None => Ok(Date::today()),
    }
}

/// Marks the habit `name` as done on the day that `date` names, or today where no date is
/// given. A missing name is a validation error.
pub fn mark(storage: &mut Storage, name: Option<&str>, date: Option<&str>) -> (r: Result<
    (),
    CliError,
>)
    ensures
        final(storage).continues(*old(storage)),
        match name {
            Some(text) => if names_no_day(date) {
                final(storage).steps_after(*old(storage)).len() == 0 && fails_with(
                    r,
                    ErrorKind::Parse,
                )
            } else {
                exists|day: Date|
                    names_day(date, day) && #[trigger] mark_steps(
                        text@,
                        day,
                        final(storage).steps_after(*old(storage)),
                        r,
                    )
            },
            None => final(storage).steps_after(*old(storage)).len() == 0 && fails_with(
                r,
                ErrorKind::Validation,
            ),
        },
{
    match name {
        Some(name) => {
            let day = day_of(date)?;
            storage.mark_habit(name, &day)
        },
        None => Err(CliError::new("invalid args")),
    }
}

/// Takes the mark of the habit `name` away on the day that `date` names, or today where no
/// date is given. A missing name is a validation error.
pub fn unmark(storage: &mut Storage, name: Option<&str>, date: Option<&str>) -> (r: Result<
    (),
    CliError,
>)
    ensures
        final(storage).continues(*old(storage)),
        match name {
            Some(text) => if names_no_day(date) {
                final(storage).steps_after(*old(storage)).len() == 0 && fails_with(
                    r,
                    ErrorKind::Parse,
                )
            } else {
                exists|day: Date|
                    names_day(date, day) && #[trigger] unmark_steps(
                        text@,
                        day,
                        final(storage).steps_after(*old(storage)),
                        r,
                    )
            },
            None => final(storage).steps_after(*old(storage)).len() == 0 && fails_with(
                r,
                ErrorKind::Validation,
            ),
        },
{
    match name {
        Some(name) => {
            let day = day_of(date)?;
            storage.unmark_habit(name, &day)
        },
        None => Err(CliError::new("invalid args")),
    }
}

} // verus!
