//! The monthly grid: one line for the month with a ruler of days, and one line for each
//! habit with a mark under each day on which it was done.

use vstd::prelude::*;
use vstd::string::StringExecFns;

use crate::date::{days_in_month, num_days, Date};
use crate::error::CliError;
use crate::text::{
    byte_len, byte_length, digit_char, lemma_padded_int, padded_int, push_digit,
    push_padded_int, push_spaces, repeated, texts,
};

verus! {

/// A habit with what the store gave for its marked days: the days, or the failure.
pub struct HabitRow {
    pub name: String,
    pub days: Result<Vec<Date>, CliError>,
}

/// The label of a month: the year in at least four digits, a hyphen, and the month in at
/// least two.
pub open spec fn month_label_text(year: int, month: int) -> Seq<char> {
    padded_int(year, 4) + seq!['-'] + padded_int(month, 2)
}

/// The greater of `least` and the greatest length in bytes among `names`.
pub open spec fn longest(names: Seq<Seq<char>>, least: nat) -> nat
    decreases names.len(),
{
    if names.len() == 0 {
        least
    } else {
        let before = longest(names.drop_last(), least);
        if byte_len(names.last()) > before {
            byte_len(names.last())
        } else {
            before
        }
    }
}

/// The names of `rows`.
pub open spec fn row_names(rows: Seq<HabitRow>) -> Seq<Seq<char>> {
    Seq::new(rows.len(), |i: int| rows[i].name@)
}

/// The width of the left column: that of the label and two more, or that of the longest
/// name where that is more. Widths are counted in bytes.
pub open spec fn column_width_of(label: Seq<char>, names: Seq<Seq<char>>) -> nat {
    longest(names, byte_len(label) + 2)
}

/// `text` with spaces behind it up to `width` bytes; `text` itself where it is as wide.
pub open spec fn left_column(text: Seq<char>, width: nat) -> Seq<char> {
    if width > byte_len(text) {
        text + repeated(' ', (width - byte_len(text)) as nat)
    } else {
        text
    }
}

/// One digit for each of the days 1 to `num_days`: the last digit of the day.
pub open spec fn ruler(num_days: int) -> Seq<char> {
    Seq::new(
        if num_days > 0 {
            num_days as nat
        } else {
            0
        },
        |i: int| digit_char((i + 1) % 10),
    )
}

/// Whether one of `days` falls on the day `day` of its month.
pub open spec fn marked_on(days: Seq<Date>, day: int) -> bool {
    exists|k: int| 0 <= k < days.len() && (#[trigger] days[k]).day == day
}

/// One character for each of the days 1 to `num_days`: `X` where one of `days` falls on
/// it, a space where none does.
pub open spec fn marks(num_days: int, days: Seq<Date>) -> Seq<char> {
    Seq::new(
        if num_days > 0 {
            num_days as nat
        } else {
            0
        },
        |i: int|
            if marked_on(days, i + 1) {
                'X'
            } else {
                ' '
            },
    )
}

/// The first line of the grid.
pub open spec fn header_line_text(label: Seq<char>, width: nat, num_days: int) -> Seq<char> {
    left_column(label, width) + seq!['|', ' '] + ruler(num_days)
}

/// The line of a habit whose marked days are `days`.
pub open spec fn habit_line_text(
    name: Seq<char>,
    width: nat,
    num_days: int,
    days: Seq<Date>,
) -> Seq<char> {
    left_column(name, width) + seq!['|', ' '] + marks(num_days, days)
}

/// The line of a habit whose marked days could not be had.
pub open spec fn error_line_text(message: Seq<char>) -> Seq<char> {
    seq!['e', 'r', 'r', 'o', 'r', ' '] + message
}

/// The line of `row` in a grid whose left column is `width` wide, for a month of
/// `num_days` days.
pub open spec fn row_line_text(row: HabitRow, width: nat, num_days: int) -> Seq<char> {
    match row.days {
        Ok(days) => habit_line_text(row.name@, width, num_days, days@),
        Err(e) => error_line_text(e.message@),
    }
}

/// The lines of the grid of the month `month` of `year` for `rows`: the header, then the
/// line of each row, in order.
pub open spec fn grid_text(year: int, month: int, rows: Seq<HabitRow>) -> Seq<Seq<char>> {
    let label = month_label_text(year, month);
    let width = column_width_of(label, row_names(rows));
    let num_days = days_in_month(year, month);
    Seq::new(
        rows.len() + 1,
        |i: int|
            if i == 0 {
                header_line_text(label, width, num_days)
            } else {
                row_line_text(rows[i - 1], width, num_days)
            },
    )
}

/// The label of a month is ASCII and at most 23 characters long.
pub proof fn lemma_month_label_len(year: int, month: int)
    requires
        i32::MIN <= year <= i32::MAX,
        i32::MIN <= month <= i32::MAX,
    ensures
        byte_len(month_label_text(year, month)) == month_label_text(year, month).len(),
        month_label_text(year, month).len() <= 23,
{
    lemma_padded_int(year, 4);
    lemma_padded_int(month, 2);
    let label = month_label_text(year, month);
    assert(vstd::utf8::is_ascii_chars(label)) by {
        assert forall|i: int| 0 <= i < label.len() implies '\0' <= #[trigger] label[i]
            <= '\u{7f}' by {
            let y = padded_int(year, 4);
            let m = padded_int(month, 2);
            if i < y.len() {
                assert(label[i] == y[i]);
            } else if i == y.len() {
                assert(label[i] == '-');
            } else {
                assert(label[i] == m[i - y.len() - 1]);
            }
        }
    }
    vstd::utf8::is_ascii_chars_encode_utf8(label);
}

/// The label of the month `month` of `year`.
pub fn month_label(year: i32, month: i32) -> (label: String)
    ensures
        label@ == month_label_text(year as int, month as int),
{
    let mut label = String::new();
    push_padded_int(&mut label, year, 4);
    label.append("-");
    push_padded_int(&mut label, month, 2);
    proof {
        reveal_strlit("-");
        assert("-"@ =~= seq!['-']);
        assert(label@ =~= month_label_text(year as int, month as int));
    }
    label
}

/// The width of the left column for the label `label` and the names of `rows`.
pub fn column_width(label: &str, rows: &Vec<HabitRow>) -> (width: usize)
    requires
        byte_len(label@) + 2 <= usize::MAX,
    ensures
        width == column_width_of(label@, row_names(rows@)),
{
    let mut width: usize = byte_length(label) + 2;
    let mut done: usize = 0;
    while done < rows.len()
        invariant
            done <= rows.len(),
            width == longest(row_names(rows@).take(done as int), byte_len(label@) + 2),
        decreases rows.len() - done,
    {
        let len = byte_length(rows[done].name.as_str());
        proof {
            let upto = row_names(rows@).take(done + 1);
            assert(upto.drop_last() =~= row_names(rows@).take(done as int));
            assert(upto.last() == rows[done as int].name@);
        }
        if len > width {
            width = len;
        }
        done = done + 1;
    }
    assert(row_names(rows@).take(done as int) =~= row_names(rows@));
    width
}

/// Appends `text` and the spaces that fill the left column up to `width` bytes.
fn push_left_column(line: &mut String, text: &str, width: usize)
    ensures
        final(line)@ == old(line)@ + left_column(text@, width as nat),
{
    line.append(text);
    let len = byte_length(text);
    if width > len {
        push_spaces(line, width - len);
    }
    assert(line@ =~= old(line)@ + left_column(text@, width as nat));
}

/// The first line of the grid: the label in the left column, a bar, and the ruler.
pub fn header_line(label: &str, width: usize, num_days: i32) -> (line: String)
    ensures
        line@ == header_line_text(label@, width as nat, num_days as int),
{
    let mut line = String::new();
    push_left_column(&mut line, label, width);
    line.append("| ");
    proof {
        reveal_strlit("| ");
        assert("| "@ =~= seq!['|', ' ']);
    }
    let ghost start = line@;
    let mut done: i32 = 0;
    while done < num_days
        invariant
            0 <= done,
            done <= num_days || done == 0,
            line@ == start + ruler(done as int),
        decreases num_days - done,
    {
        push_digit(&mut line, ((done + 1) % 10) as u8);
        done = done + 1;
        assert(line@ =~= start + ruler(done as int));
    }
    assert(ruler(done as int) =~= ruler(num_days as int));
    assert(line@ =~= header_line_text(label@, width as nat, num_days as int));
    line
}

/// Whether one of `days` falls on the day `day` of its month.
pub fn is_marked(days: &Vec<Date>, day: i32) -> (found: bool)
    ensures
        found == marked_on(days@, day as int),
{
    let mut done: usize = 0;
    while done < days.len()
        invariant
            done <= days.len(),
            forall|k: int| 0 <= k < done ==> (#[trigger] days[k]).day != day,
        decreases days.len() - done,
    {
        if days[done].day == day {
            return true;
        }
        done = done + 1;
    }
    false
}

/// The line of the habit `name`: the name in the left column, a bar, and a mark for each
/// day of the month on which one of `days` falls.
pub fn habit_line(name: &str, width: usize, num_days: i32, days: &Vec<Date>) -> (line: String)
    ensures
        line@ == habit_line_text(name@, width as nat, num_days as int, days@),
{
    let mut line = String::new();
    push_left_column(&mut line, name, width);
    line.append("| ");
    proof {
        reveal_strlit("| ");
        reveal_strlit("X");
        reveal_strlit(" ");
        assert("| "@ =~= seq!['|', ' ']);
    }
    let ghost start = line@;
    let mut done: i32 = 0;
    while done < num_days
        invariant
            0 <= done,
            done <= num_days || done == 0,
            line@ == start + marks(done as int, days@),
            "X"@ =~= seq!['X'],
            " "@ =~= seq![' '],
        decreases num_days - done,
    {
        if is_marked(days, done + 1) {
            line.append("X");
        } else {
            line.append(" ");
        }
        done = done + 1;
        assert(line@ =~= start + marks(done as int, days@));
    }
    assert(marks(done as int, days@) =~= marks(num_days as int, days@));
    assert(line@ =~= habit_line_text(name@, width as nat, num_days as int, days@));
    line
}

/// The line that stands for a habit whose marked days could not be had.
pub fn error_line(error: &CliError) -> (line: String)
    ensures
        line@ == error_line_text(error.message@),
{
    proof {
        reveal_strlit("error ");
        assert("error "@ =~= seq!['e', 'r', 'r', 'o', 'r', ' ']);
    }
    String::from_str("error ").concat(error.message.as_str())
}

/// The lines of the grid of the month `month` of `year`: the header, then one line for
/// each of `rows`, in order.
pub fn render_grid(year: i32, month: i32, rows: &Vec<HabitRow>) -> (lines: Vec<String>)
    ensures
        texts(lines@) == grid_text(year as int, month as int, rows@),
{
    let days = num_days(year, month);
    let label = month_label(year, month);
    proof {
        lemma_month_label_len(year as int, month as int);
    }
    let width = column_width(label.as_str(), rows);
    let mut lines: Vec<String> = Vec::new();
    lines.push(header_line(label.as_str(), width, days));
    let mut done: usize = 0;
    while done < rows.len()
        invariant
            done <= rows.len(),
            lines.len() == done + 1,
            lines[0]@ == header_line_text(label@, width as nat, days as int),
            forall|i: int|
                0 <= i < done ==> (#[trigger] lines[i + 1])@ == row_line_text(
                    rows[i],
                    width as nat,
                    days as int,
                ),
        decreases rows.len() - done,
    {
        let line = match &rows[done].days {
            Ok(marked) => habit_line(rows[done].name.as_str(), width, days, marked),
            Err(error) => error_line(error),
        };
        lines.push(line);
        done = done + 1;
    }
    let ghost grid = grid_text(year as int, month as int, rows@);
    assert(texts(lines@).len() == grid.len());
    assert forall|i: int| 0 <= i < grid.len() implies texts(lines@)[i]
        == grid[i] by {
        if i > 0 {
            assert(lines[(i - 1) + 1]@ == row_line_text(rows[i - 1], width as nat, days as int));
        }
    }
    assert(texts(lines@) =~= grid);
    lines
}

} // verus!
