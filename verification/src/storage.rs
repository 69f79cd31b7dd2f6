//! The habit store: habits and the dates on which they were done, kept in SQLite.
//!
//! What the database holds and answers is outside of what is proved here. The store
//! keeps a journal of the statements that it sent and of what came back, and each
//! operation states which statements it sends, in which order, and what it returns for
//! each answer.

use vstd::prelude::*;
use vstd::string::StringExecFns;

use crate::date::{date_text, parse_date, Date};
use crate::error::{fails_with, CliError, ErrorKind};
use crate::text::texts;

verus! {

/// `rusqlite::Connection`, an open database. Nothing of its contents is visible here.
#[verifier::external_type_specification]
#[verifier::external_body]
pub struct ExConnection(rusqlite::Connection);

/// `rusqlite::Error`, the failure of a database call.
#[verifier::external_type_specification]
#[verifier::external_body]
pub struct ExSqlError(rusqlite::Error);

/// `uuid::Uuid`, a universally unique identifier.
#[verifier::external_type_specification]
#[verifier::external_body]
pub struct ExUuid(uuid::Uuid);

/// Makes the table of habits: an identifier and a name each.
pub const SQL_CREATE_HABITS: &'static str =
    "create table if not exists habits(id varchar(255) primary key, name varchar(255))";

/// Makes the table of entries: the identifier of a habit and a date each.
pub const SQL_CREATE_ENTRIES: &'static str =
    "create table if not exists habit_entries(habit_id varchar(255), date DATE, foreign key (habit_id) references habits(id))";

/// Counts the habits of the name `?1`.
pub const SQL_COUNT_HABITS: &'static str = "select count(1) from habits where name = ?1";

/// Adds the habit of the identifier `?1` and the name `?2`.
pub const SQL_INSERT_HABIT: &'static str = "insert into habits (id, name) values (?1, ?2)";

/// Removes the entries of the habit of the identifier `?1`.
pub const SQL_DELETE_ENTRIES: &'static str = "delete from habit_entries where habit_id = ?1";

/// Removes the habits of the name `?1`.
pub const SQL_DELETE_HABIT: &'static str = "delete from habits where name = ?1";

/// Gives the habits of the name `?2` the name `?1`.
pub const SQL_RENAME_HABIT: &'static str = "update habits set name = ?1 where name = ?2";

/// The names of all habits.
pub const SQL_SELECT_NAMES: &'static str = "select name from habits";

/// The identifiers of the habits of the name `?1`.
pub const SQL_SELECT_ID: &'static str = "select id from habits where name = ?1";

/// Counts the entries of the habit of the identifier `?1` on the date `?2`.
pub const SQL_COUNT_ENTRIES: &'static str =
    "select count(1) from habit_entries where habit_id = ?1 and date = ?2";

/// Adds an entry of the habit of the identifier `?1` on the date `?2`.
pub const SQL_INSERT_ENTRY: &'static str =
    "insert into habit_entries (habit_id, date) values (?1, ?2)";

/// Removes the entries of the habit of the identifier `?1` on the date `?2`.
pub const SQL_DELETE_ENTRY: &'static str =
    "delete from habit_entries where habit_id = ?1 and date = ?2";

/// The dates from `?2` to `?3`, both included, of the entries of the habit of the
/// identifier `?1`. Dates are compared as texts.
pub const SQL_SELECT_ENTRIES: &'static str =
    "select date from habit_entries where habit_id = ?1 and date between ?2 and ?3";

/// What the database gave back for a statement.
pub enum Answer {
    /// The call failed.
    Failed,
    /// The statement was run. It gives no rows.
    Done,
    /// The first column of the first row, a number.
    Number(int),
    /// The first column of the first row, a text.
    Text(Seq<char>),
    /// The statement was run and gave no row.
    NoRow,
    /// The first column of every row, in the order of the rows.
    Texts(Seq<Seq<char>>),
}

/// A statement that was sent to the database, with the values of its parameters, and
/// what came back.
pub struct Exchange {
    pub sql: Seq<char>,
    pub params: Seq<Seq<char>>,
    pub answer: Answer,
}

impl Exchange {
    /// Whether the statement `sql` was sent with the parameter values `params`.
    pub open spec fn asks(self, sql: &str, params: Seq<Seq<char>>) -> bool {
        self.sql == sql@ && self.params == params
    }
}

/// The exchange in which `query` was sent and `answer` came back.
pub open spec fn exchange(query: Query, answer: Answer) -> Exchange {
    Exchange { sql: query.sql@, params: texts(query.params@), answer }
}

/// A statement for the database: its SQL text, and the values of its parameters `?1`,
/// `?2` and so on, in that order.
pub struct Query {
    pub sql: &'static str,
    pub params: Vec<String>,
}

impl Query {
    /// Whether this is the statement `sql` with the parameter values `values`.
    pub open spec fn is_statement(&self, sql: &str, values: Seq<Seq<char>>) -> bool {
        self.sql@ == sql@ && texts(self.params@) == values
    }

    /// The statement `sql`, which has no parameters.
    pub fn plain(sql: &'static str) -> (q: Query)
        ensures
            q.is_statement(sql, seq![]),
    {
        let q = Query { sql, params: Vec::new() };
        assert(texts(q.params@) =~= seq![]);
        q
    }

    /// The statement `sql` with one parameter.
    pub fn with_one(sql: &'static str, first: &str) -> (q: Query)
        ensures
            q.is_statement(sql, seq![first@]),
    {
        let mut params: Vec<String> = Vec::new();
        params.push(String::from_str(first));
        let q = Query { sql, params };
        assert(texts(q.params@) =~= seq![first@]);
        q
    }

    /// The statement `sql` with two parameters.
    pub fn with_two(sql: &'static str, first: &str, second: &str) -> (q: Query)
        ensures
            q.is_statement(sql, seq![first@, second@]),
    {
        let mut params: Vec<String> = Vec::new();
        params.push(String::from_str(first));
        params.push(String::from_str(second));
        let q = Query { sql, params };
        assert(texts(q.params@) =~= seq![first@, second@]);
        q
    }

    /// The statement `sql` with three parameters.
    pub fn with_three(sql: &'static str, first: &str, second: &str, third: &str) -> (q: Query)
        ensures
            q.is_statement(sql, seq![first@, second@, third@]),
    {
        let mut params: Vec<String> = Vec::new();
        params.push(String::from_str(first));
        params.push(String::from_str(second));
        params.push(String::from_str(third));
        let q = Query { sql, params };
        assert(texts(q.params@) =~= seq![first@, second@, third@]);
        q
    }
}

/// The message that no habit has the name `name`.
pub open spec fn not_found_message(name: Seq<char>) -> Seq<char> {
    "habit "@ + name + " not found"@
}

/// The identifier of a habit, made from the unique text `unique`.
pub open spec fn habit_id_text(unique: Seq<char>) -> Seq<char> {
    "hbt_"@ + unique
}

/// The identifier of a habit, made from the unique text `unique`.
pub fn habit_id(unique: &str) -> (id: String)
    ensures
        id@ == habit_id_text(unique@),
{
    String::from_str("hbt_").concat(unique)
}

/// Whether a habit can be created under `name`, where `exists` tells whether one of that
/// name is there: not where one is, and not under the empty name.
pub fn check_new_habit(name: &str, exists: bool) -> (r: Result<(), CliError>)
    ensures
        r is Ok <==> !exists && name@.len() > 0,
        r matches Err(e) ==> e.kind == (if exists {
            ErrorKind::Duplicate
        } else {
            ErrorKind::Validation
        }),
{
    if exists {
        return Err(
            CliError::with_kind(ErrorKind::Duplicate, String::from_str("habit already exists")),
        );
    }
    if name.is_empty() {
        return Err(CliError::new("invalid name"));
    }
    Ok(())
}

/// The error that no habit has the name `name`.
pub fn not_found(name: &str) -> (e: CliError)
    ensures
        e.kind == ErrorKind::NotFound,
        e.message@ == not_found_message(name@),
{
    CliError::about(ErrorKind::NotFound, "habit ", name, " not found")
}

/// Whether the habit `name` is there to be worked on, where `exists` tells whether it is.
pub fn check_habit_found(name: &str, exists: bool) -> (r: Result<(), CliError>)
    ensures
        r is Ok <==> exists,
        r matches Err(e) ==> e.kind == ErrorKind::NotFound && e.message@ == not_found_message(
            name@,
        ),
{
    if !exists {
        return Err(not_found(name));
    }
    Ok(())
}

/// Whether the habit `name` can be marked for the date `date`, where `count` is the
/// number of entries that the store has for the two: only where it has none.
pub fn check_unmarked(name: &str, date: &str, count: i32) -> (r: Result<(), CliError>)
    ensures
        r is Ok <==> count <= 0,
        r matches Err(e) ==> e.kind == ErrorKind::AlreadyMarked,
{
    if count > 0 {
        let message = String::from_str("habit ").concat(name).concat(" already marked for ").concat(
            date,
        ).concat(" date");
        return Err(CliError::with_kind(ErrorKind::AlreadyMarked, message));
    }
    Ok(())
}

/// Whether the mark of the habit `name` for the date `date` can be taken away, where
/// `count` is the number of entries that the store has for the two: not where it has none.
pub fn check_marked(name: &str, date: &str, count: i32) -> (r: Result<(), CliError>)
    ensures
        r is Ok <==> count != 0,
        r matches Err(e) ==> e.kind == ErrorKind::NotMarked,
{
    if count == 0 {
        let message = String::from_str("habit ").concat(name).concat(" is not marked for ").concat(
            date,
        ).concat(" date");
        return Err(CliError::with_kind(ErrorKind::NotMarked, message));
    }
    Ok(())
}

/// The dates among `stored`, in order: each text that denotes a date gives that date, any
/// other text is passed over.
pub open spec fn stored_dates(stored: Seq<Seq<char>>) -> Seq<Date>
    decreases stored.len(),
{
    if stored.len() == 0 {
        seq![]
    } else {
        let before = stored_dates(stored.drop_last());
        match parse_date(stored.last()) {
            Some(d) => before.push(d),
            None => before,
        }
    }
}

/// The dates among `stored` are the dates that one of the texts of `stored` denotes.
pub proof fn lemma_stored_dates_contains(stored: Seq<Seq<char>>, d: Date)
    ensures
        stored_dates(stored).contains(d) <==> exists|k: int|
            0 <= k < stored.len() && parse_date(#[trigger] stored[k]) == Some(d),
    decreases stored.len(),
{
    if stored.len() > 0 {
        let before = stored.drop_last();
        lemma_stored_dates_contains(before, d);
        let dates = stored_dates(stored);
        if dates.contains(d) {
            let i = choose|i: int| 0 <= i < dates.len() && dates[i] == d;
            if parse_date(stored.last()) is Some && i == dates.len() - 1 {
                assert(parse_date(stored[stored.len() - 1]) == Some(d));
            } else {
                assert(stored_dates(before)[i] == d);
                let k = choose|k: int|
                    0 <= k < before.len() && parse_date(#[trigger] before[k]) == Some(d);
                assert(parse_date(stored[k]) == Some(d));
            }
        }
        if exists|k: int| 0 <= k < stored.len() && parse_date(#[trigger] stored[k]) == Some(d) {
            let k = choose|k: int|
                0 <= k < stored.len() && parse_date(#[trigger] stored[k]) == Some(d);
            if k == stored.len() - 1 {
                assert(dates.last() == d);
            } else {
                assert(parse_date(before[k]) == Some(d));
                let i = choose|i: int|
                    0 <= i < stored_dates(before).len() && stored_dates(before)[i] == d;
                assert(dates[i] == d);
            }
        }
    }
}

/// Reads the dates that the store gave as texts, and passes over a text that is no date.
pub fn parse_stored_dates(stored: &Vec<String>) -> (dates: Vec<Date>)
    ensures
        dates@ == stored_dates(texts(stored@)),
        forall|i: int| 0 <= i < dates.len() ==> (#[trigger] dates[i]).valid(),
{
    let mut dates: Vec<Date> = Vec::new();
    let mut done: usize = 0;
    while done < stored.len()
        invariant
            done <= stored.len(),
            dates@ == stored_dates(texts(stored@).take(done as int)),
            forall|i: int| 0 <= i < dates.len() ==> (#[trigger] dates[i]).valid(),
        decreases stored.len() - done,
    {
        let parsed = Date::from_string(stored[done].as_str());
        proof {
            let upto = texts(stored@).take(done + 1);
            assert(upto.drop_last() =~= texts(stored@).take(done as int));
            assert(upto.last() == stored[done as int]@);
        }
        match parsed {
            Ok(date) => dates.push(date),
            Err(_) => (),
        }
        done = done + 1;
    }
    assert(texts(stored@).take(done as int) =~= texts(stored@));
    dates
}

/// `rusqlite::Connection::open`: opens the database at `path`, and makes it where there is
/// none. Whether that succeeds depends on the file system.
#[verifier::external_body]
fn open_connection(path: &str) -> (r: Result<rusqlite::Connection, rusqlite::Error>) {
    rusqlite::Connection::open(path)
}

/// `rusqlite::Connection::execute`: runs one statement that returns no rows, and gives the
/// number of rows that it changed. Nothing is stated of that number or of the failure.
#[verifier::external_body]
fn execute(conn: &rusqlite::Connection, query: &Query) -> (r: Result<usize, rusqlite::Error>) {
    conn.execute(query.sql, rusqlite::params_from_iter(query.params.iter()))
}

/// `rusqlite::Connection::query_row`, for a statement whose first column is a number:
/// gives that column of the first row. Nothing is stated of the number or of the failure.
#[verifier::external_body]
fn query_number(conn: &rusqlite::Connection, query: &Query) -> (r: Result<i32, rusqlite::Error>) {
    conn.query_row(query.sql, rusqlite::params_from_iter(query.params.iter()), |row| row.get(0))
}

/// `rusqlite::Connection::query_row`, for a statement whose first column is a text, and
/// `rusqlite::OptionalExtension::optional` on its result: gives that column of the first
/// row, nothing where there is no row, or the failure. Nothing is stated of which it is.
#[verifier::external_body]
fn query_text(conn: &rusqlite::Connection, query: &Query) -> (r: Result<
    Option<String>,
    rusqlite::Error,
>) {
    let params = rusqlite::params_from_iter(query.params.iter());
    rusqlite::OptionalExtension::optional(conn.query_row(query.sql, params, |row| row.get(0)))
}

/// `rusqlite::Connection::prepare` and `rusqlite::Statement::query_map`, for a statement
/// whose first column is a text: gives that column of every row, in the order of the rows,
/// or the first failure. Nothing is stated of the texts or of the failure.
#[verifier::external_body]
fn query_texts(conn: &rusqlite::Connection, query: &Query) -> (r: Result<
    Vec<String>,
    rusqlite::Error,
>) {
    let mut statement = conn.prepare(query.sql)?;
    let params = rusqlite::params_from_iter(query.params.iter());
    let rows = statement.query_map(params, |row| row.get(0))?;
    rows.collect()
}

/// `uuid::Uuid::new_v4`: a random identifier. Nothing is stated of it. uuid stops the
/// program where the system gives no random bytes.
#[verifier::external_body]
fn random_uuid() -> (r: uuid::Uuid) {
    uuid::Uuid::new_v4()
}

/// What is noted of the outcome `r` of a statement that changes the store.
pub open spec fn done_answer(r: Result<usize, rusqlite::Error>) -> Answer {
    match r {
        Ok(_) => Answer::Done,
        Err(_) => Answer::Failed,
    }
}

/// What is noted of the outcome `r` of a statement that gives a number.
pub open spec fn number_answer(r: Result<i32, rusqlite::Error>) -> Answer {
    match r {
        Ok(number) => Answer::Number(number as int),
        Err(_) => Answer::Failed,
    }
}

/// What is noted of the outcome `r` of a statement that gives a text.
pub open spec fn text_answer(r: Result<Option<String>, rusqlite::Error>) -> Answer {
    match r {
        Ok(Some(text)) => Answer::Text(text@),
        Ok(None) => Answer::NoRow,
        Err(_) => Answer::Failed,
    }
}

/// What is noted of the outcome `r` of a statement that gives a text for each row.
pub open spec fn texts_answer(r: Result<Vec<String>, rusqlite::Error>) -> Answer {
    match r {
        Ok(rows) => Answer::Texts(texts(rows@)),
        Err(_) => Answer::Failed,
    }
}

/// The failure `err` of the database as an error of this library.
fn storage_error(err: rusqlite::Error) -> (e: CliError)
    ensures
        e.kind == ErrorKind::Storage,
{
    CliError::with_kind(ErrorKind::Storage, err.to_string())
}

/// Whether `r` is the failure that no habit has the name `name`.
pub open spec fn is_not_found<T>(name: Seq<char>, r: Result<T, CliError>) -> bool {
    match r {
        Ok(_) => false,
        Err(e) => e.kind == ErrorKind::NotFound && e.message@ == not_found_message(name),
    }
}

/// Whether `text` is the identifier of a habit.
pub open spec fn is_habit_id(text: Seq<char>) -> bool {
    exists|unique: Seq<char>| text == #[trigger] habit_id_text(unique)
}

/// What an operation returns that ends with the exchange `last`, a statement that changes
/// the store: success where it was run, the failure of the store where it was not.
pub open spec fn ends_with(last: Exchange, r: Result<(), CliError>) -> bool {
    match last.answer {
        Answer::Done => r is Ok,
        Answer::Failed => fails_with(r, ErrorKind::Storage),
        _ => false,
    }
}

/// The exchanges of making the tables: the table of habits, then, where that was run,
/// the table of entries.
pub open spec fn initialize_steps(steps: Seq<Exchange>, r: Result<(), CliError>) -> bool {
    &&& steps.len() >= 1
    &&& steps[0].asks(SQL_CREATE_HABITS, seq![])
    &&& match steps[0].answer {
        Answer::Done => {
            &&& steps.len() == 2
            &&& steps[1].asks(SQL_CREATE_ENTRIES, seq![])
            &&& ends_with(steps[1], r)
        },
        Answer::Failed => steps.len() == 1 && fails_with(r, ErrorKind::Storage),
        _ => false,
    }
}

/// The exchange of asking whether there is a habit `name`: the habits of that name are
/// counted, and there is one where the count is above 0.
pub open spec fn exists_steps(
    name: Seq<char>,
    steps: Seq<Exchange>,
    r: Result<bool, CliError>,
) -> bool {
    &&& steps.len() == 1
    &&& steps[0].asks(SQL_COUNT_HABITS, seq![name])
    &&& match steps[0].answer {
        Answer::Number(count) => r == Ok::<bool, CliError>(count > 0),
        Answer::Failed => fails_with(r, ErrorKind::Storage),
        _ => false,
    }
}

/// The exchange of asking for the names of all habits: the names come back as the store
/// gave them.
pub open spec fn list_steps(steps: Seq<Exchange>, r: Result<Vec<String>, CliError>) -> bool {
    &&& steps.len() == 1
    &&& steps[0].asks(SQL_SELECT_NAMES, seq![])
    &&& match steps[0].answer {
        Answer::Texts(names) => match r {
            Ok(found) => texts(found@) == names,
            Err(_) => false,
        },
        Answer::Failed => fails_with(r, ErrorKind::Storage),
        _ => false,
    }
}

/// The exchange of asking for the identifier of the habit `name`: the identifier comes
/// back as the store gave it; where the store gave no row, the habit is not there.
pub open spec fn id_steps(
    name: Seq<char>,
    steps: Seq<Exchange>,
    r: Result<String, CliError>,
) -> bool {
    &&& steps.len() == 1
    &&& steps[0].asks(SQL_SELECT_ID, seq![name])
    &&& match steps[0].answer {
        Answer::Text(id) => match r {
            Ok(found) => found@ == id,
            Err(_) => false,
        },
        Answer::NoRow => is_not_found(name, r),
        Answer::Failed => fails_with(r, ErrorKind::Storage),
        _ => false,
    }
}

/// The exchanges of creating the habit `name`: the habits of that name are counted; where
/// there is none and the name is not empty, the habit is added under a new identifier.
pub open spec fn create_steps(
    name: Seq<char>,
    steps: Seq<Exchange>,
    r: Result<(), CliError>,
) -> bool {
    &&& steps.len() >= 1
    &&& steps[0].asks(SQL_COUNT_HABITS, seq![name])
    &&& match steps[0].answer {
        Answer::Number(count) => if count > 0 {
            steps.len() == 1 && fails_with(r, ErrorKind::Duplicate)
        } else if name.len() == 0 {
            steps.len() == 1 && fails_with(r, ErrorKind::Validation)
        } else {
            &&& steps.len() == 2
            &&& steps[1].sql == SQL_INSERT_HABIT@
            &&& steps[1].params.len() == 2
            &&& is_habit_id(steps[1].params[0])
            &&& steps[1].params[1] == name
            &&& ends_with(steps[1], r)
        },
        Answer::Failed => steps.len() == 1 && fails_with(r, ErrorKind::Storage),
        _ => false,
    }
}

/// The exchanges of deleting the habit `name`: the habits of that name are counted; where
/// there is one, its identifier is asked for, then the entries of that identifier are
/// removed, then the habit.
pub open spec fn delete_steps(
    name: Seq<char>,
    steps: Seq<Exchange>,
    r: Result<(), CliError>,
) -> bool {
    &&& steps.len() >= 1
    &&& steps[0].asks(SQL_COUNT_HABITS, seq![name])
    &&& match steps[0].answer {
        Answer::Number(count) => if count > 0 {
            &&& steps.len() >= 2
            &&& steps[1].asks(SQL_SELECT_ID, seq![name])
            &&& match steps[1].answer {
                Answer::Text(id) => {
                    &&& steps.len() >= 3
                    &&& steps[2].asks(SQL_DELETE_ENTRIES, seq![id])
                    &&& match steps[2].answer {
                        Answer::Done => {
                            &&& steps.len() == 4
                            &&& steps[3].asks(SQL_DELETE_HABIT, seq![name])
                            &&& ends_with(steps[3], r)
                        },
                        Answer::Failed => steps.len() == 3 && fails_with(r, ErrorKind::Storage),
                        _ => false,
                    }
                },
                Answer::NoRow => steps.len() == 2 && is_not_found(name, r),
                Answer::Failed => steps.len() == 2 && fails_with(r, ErrorKind::Storage),
                _ => false,
            }
        } else {
            steps.len() == 1 && is_not_found(name, r)
        },
        Answer::Failed => steps.len() == 1 && fails_with(r, ErrorKind::Storage),
        _ => false,
    }
}

/// The exchanges of giving the habit `name` the name `new_name`: the habits of the name
/// `name` are counted; where there is one, the name is changed.
pub open spec fn rename_steps(
    name: Seq<char>,
    new_name: Seq<char>,
    steps: Seq<Exchange>,
    r: Result<(), CliError>,
) -> bool {
    &&& steps.len() >= 1
    &&& steps[0].asks(SQL_COUNT_HABITS, seq![name])
    &&& match steps[0].answer {
        Answer::Number(count) => if count > 0 {
            &&& steps.len() == 2
            &&& steps[1].asks(SQL_RENAME_HABIT, seq![new_name, name])
            &&& ends_with(steps[1], r)
        } else {
            steps.len() == 1 && is_not_found(name, r)
        },
        Answer::Failed => steps.len() == 1 && fails_with(r, ErrorKind::Storage),
        _ => false,
    }
}

/// The exchanges of marking the habit `name` on `date`: nothing is sent for a date that
/// the calendar does not have; else the identifier is asked for, then the entries of that
/// identifier on that date are counted; where there is none, one is added.
pub open spec fn mark_steps(
    name: Seq<char>,
    date: Date,
    steps: Seq<Exchange>,
    r: Result<(), CliError>,
) -> bool {
    if !date.valid() {
        steps.len() == 0 && fails_with(r, ErrorKind::Validation)
    } else {
        &&& steps.len() >= 1
        &&& steps[0].asks(SQL_SELECT_ID, seq![name])
        &&& match steps[0].answer {
            Answer::Text(id) => {
                &&& steps.len() >= 2
                &&& steps[1].asks(SQL_COUNT_ENTRIES, seq![id, date_text(date)])
                &&& match steps[1].answer {
                    Answer::Number(count) => if count > 0 {
                        steps.len() == 2 && fails_with(r, ErrorKind::AlreadyMarked)
                    } else {
                        &&& steps.len() == 3
                        &&& steps[2].asks(SQL_INSERT_ENTRY, seq![id, date_text(date)])
                        &&& ends_with(steps[2], r)
                    },
                    Answer::Failed => steps.len() == 2 && fails_with(r, ErrorKind::Storage),
                    _ => false,
                }
            },
            Answer::NoRow => steps.len() == 1 && is_not_found(name, r),
            Answer::Failed => steps.len() == 1 && fails_with(r, ErrorKind::Storage),
            _ => false,
        }
    }
}

/// The exchanges of taking the mark of the habit `name` on `date` away: nothing is sent
/// for a date that the calendar does not have; else the identifier is asked for, then the
/// entries of that identifier on that date are counted; where there is one, they are
/// removed.
pub open spec fn unmark_steps(
    name: Seq<char>,
    date: Date,
    steps: Seq<Exchange>,
    r: Result<(), CliError>,
) -> bool {
    if !date.valid() {
        steps.len() == 0 && fails_with(r, ErrorKind::Validation)
    } else {
        &&& steps.len() >= 1
        &&& steps[0].asks(SQL_SELECT_ID, seq![name])
        &&& match steps[0].answer {
            Answer::Text(id) => {
                &&& steps.len() >= 2
                &&& steps[1].asks(SQL_COUNT_ENTRIES, seq![id, date_text(date)])
                &&& match steps[1].answer {
                    Answer::Number(count) => if count == 0 {
                        steps.len() == 2 && fails_with(r, ErrorKind::NotMarked)
                    } else {
                        &&& steps.len() == 3
                        &&& steps[2].asks(SQL_DELETE_ENTRY, seq![id, date_text(date)])
                        &&& ends_with(steps[2], r)
                    },
                    Answer::Failed => steps.len() == 2 && fails_with(r, ErrorKind::Storage),
                    _ => false,
                }
            },
            Answer::NoRow => steps.len() == 1 && is_not_found(name, r),
            Answer::Failed => steps.len() == 1 && fails_with(r, ErrorKind::Storage),
            _ => false,
        }
    }
}

/// The exchanges of asking for the marked days of the habit `name` from `date_start` to
/// `date_end`: nothing is sent where the calendar lacks one of the two; else the
/// identifier is asked for, then the dates of its entries in that range, and the dates
/// among what the store gave come back.
pub open spec fn marked_days_steps(
    name: Seq<char>,
    date_start: Date,
    date_end: Date,
    steps: Seq<Exchange>,
    r: Result<Vec<Date>, CliError>,
) -> bool {
    if !(date_start.valid() && date_end.valid()) {
        steps.len() == 0 && fails_with(r, ErrorKind::Validation)
    } else {
        &&& steps.len() >= 1
        &&& steps[0].asks(SQL_SELECT_ID, seq![name])
        &&& match steps[0].answer {
            Answer::Text(id) => {
                &&& steps.len() == 2
                &&& steps[1].asks(
                    SQL_SELECT_ENTRIES,
                    seq![id, date_text(date_start), date_text(date_end)],
                )
                &&& match steps[1].answer {
                    Answer::Texts(stored) => match r {
                        Ok(days) => days@ == stored_dates(stored),
                        Err(_) => false,
                    },
                    Answer::Failed => fails_with(r, ErrorKind::Storage),
                    _ => false,
                }
            },
            Answer::NoRow => steps.len() == 1 && is_not_found(name, r),
            Answer::Failed => steps.len() == 1 && fails_with(r, ErrorKind::Storage),
            _ => false,
        }
    }
}

/// The habit store, on an open database, with the journal of what it sent and got.
pub struct Storage {
    conn: rusqlite::Connection,
    path: Ghost<Seq<char>>,
    journal: Ghost<Seq<Exchange>>,
}

impl Storage {
    /// The path of the database that was opened.
    pub closed spec fn path(&self) -> Seq<char> {
        self.path@
    }

    /// The exchanges with the database so far, the first one first.
    pub closed spec fn journal(&self) -> Seq<Exchange> {
        self.journal@
    }

    /// Whether this is the store `before` after more exchanges, or none.
    pub open spec fn continues(&self, before: Storage) -> bool {
        self.path() == before.path() && before.journal().is_prefix_of(self.journal())
    }

    /// The exchanges that this store has had since it was `before`.
    pub open spec fn steps_after(&self, before: Storage) -> Seq<Exchange> {
        self.journal().skip(before.journal().len() as int)
    }

    /// What a store has had since `before` is what it had up to `between`, followed by
    /// what it has had since.
    pub proof fn lemma_steps_join(self, before: Storage, between: Storage)
        requires
            between.continues(before),
            self.continues(between),
        ensures
            self.continues(before),
            self.steps_after(before) == between.steps_after(before) + self.steps_after(between),
    {
        assert(self.steps_after(before) =~= between.steps_after(before) + self.steps_after(
            between,
        ));
    }

    /// Sends a statement that changes the store, and notes the exchange.
    fn send(&mut self, query: &Query) -> (r: Result<usize, rusqlite::Error>)
        ensures
            final(self).path() == old(self).path(),
            final(self).journal() == old(self).journal().push(
                exchange(*query, done_answer(r)),
            ),
    {
        let r = execute(&self.conn, query);
        self.journal = Ghost(
            self.journal@.push(
                exchange(*query, done_answer(r)),
            ),
        );
        r
    }

    /// Sends a statement that gives a number, and notes the exchange.
    fn ask_number(&mut self, query: &Query) -> (r: Result<i32, rusqlite::Error>)
        ensures
            final(self).path() == old(self).path(),
            final(self).journal() == old(self).journal().push(
                exchange(*query, number_answer(r)),
            ),
    {
        let r = query_number(&self.conn, query);
        self.journal = Ghost(
            self.journal@.push(
                exchange(*query, number_answer(r)),
            ),
        );
        r
    }

    /// Sends a statement that gives a text, and notes the exchange.
    fn ask_text(&mut self, query: &Query) -> (r: Result<Option<String>, rusqlite::Error>)
        ensures
            final(self).path() == old(self).path(),
            final(self).journal() == old(self).journal().push(
                exchange(*query, text_answer(r)),
            ),
    {
        let r = query_text(&self.conn, query);
        self.journal = Ghost(
            self.journal@.push(
                exchange(*query, text_answer(r)),
            ),
        );
        r
    }

    /// Sends a statement that gives a text for each row, and notes the exchange.
    fn ask_texts(&mut self, query: &Query) -> (r: Result<Vec<String>, rusqlite::Error>)
        ensures
            final(self).path() == old(self).path(),
            final(self).journal() == old(self).journal().push(
                exchange(*query, texts_answer(r)),
            ),
    {
        let r = query_texts(&self.conn, query);
        self.journal = Ghost(
            self.journal@.push(
                exchange(*query, texts_answer(r)),
            ),
        );
        r
    }

    /// Makes the two tables where they are not there yet.
    fn initialize(&mut self) -> (r: Result<(), CliError>)
        ensures
            final(self).continues(*old(self)),
            initialize_steps(final(self).steps_after(*old(self)), r),
    {
        match self.send(&Query::plain(SQL_CREATE_HABITS)) {
            Ok(_) => (),
            Err(err) => {
                return Err(storage_error(err));
            },
        }
        match self.send(&Query::plain(SQL_CREATE_ENTRIES)) {
            Ok(_) => Ok(()),
            Err(err) => Err(storage_error(err)),
        }
    }

    /// Whether there is a habit `name`.
    pub fn habit_exists(&mut self, name: &str) -> (r: Result<bool, CliError>)
        ensures
            final(self).continues(*old(self)),
            exists_steps(name@, final(self).steps_after(*old(self)), r),
    {
        match self.ask_number(&Query::with_one(SQL_COUNT_HABITS, name)) {
            Ok(count) => Ok(count > 0),
            Err(err) => Err(storage_error(err)),
        }
    }

    /// The names of all habits, in the order in which the database gives them.
    pub fn habit_list(&mut self) -> (r: Result<Vec<String>, CliError>)
        ensures
            final(self).continues(*old(self)),
            list_steps(final(self).steps_after(*old(self)), r),
    {
        match self.ask_texts(&Query::plain(SQL_SELECT_NAMES)) {
            Ok(names) => Ok(names),
            Err(err) => Err(storage_error(err)),
        }
    }

    /// The identifier of the habit `name`. Where the database has no row for the name,
    /// the habit is not there.
    pub fn get_habit_id(&mut self, name: &str) -> (r: Result<String, CliError>)
        ensures
            final(self).continues(*old(self)),
            id_steps(name@, final(self).steps_after(*old(self)), r),
    {
        match self.ask_text(&Query::with_one(SQL_SELECT_ID, name)) {
            Ok(Some(id)) => Ok(id),
            Ok(None) => Err(not_found(name)),
            Err(err) => Err(storage_error(err)),
        }
    }

    /// Creates the habit `name`. The empty name, and a name that a habit has already, are
    /// refused.
    pub fn create_habit(&mut self, name: &str) -> (r: Result<(), CliError>)
        ensures
            final(self).continues(*old(self)),
            create_steps(name@, final(self).steps_after(*old(self)), r),
    {
        let exists = self.habit_exists(name)?;
        check_new_habit(name, exists)?;
        let id = habit_id(random_uuid().to_string().as_str());
        match self.send(&Query::with_two(SQL_INSERT_HABIT, id.as_str(), name)) {
            Ok(_) => Ok(()),
            Err(err) => Err(storage_error(err)),
        }
    }

    /// Deletes the habit `name`: first its entries, then the habit.
    pub fn delete_habit(&mut self, name: &str) -> (r: Result<(), CliError>)
        ensures
            final(self).continues(*old(self)),
            delete_steps(name@, final(self).steps_after(*old(self)), r),
    {
        let exists = self.habit_exists(name)?;
        check_habit_found(name, exists)?;
        let id = self.get_habit_id(name)?;
        match self.send(&Query::with_one(SQL_DELETE_ENTRIES, id.as_str())) {
            Ok(_) => (),
            Err(err) => {
                return Err(storage_error(err));
            },
        }
        match self.send(&Query::with_one(SQL_DELETE_HABIT, name)) {
            Ok(_) => Ok(()),
            Err(err) => Err(storage_error(err)),
        }
    }

    /// Gives the habit `name` the name `new_name`. Whether another habit has that name
    /// already is not looked at.
    pub fn rename_habit(&mut self, name: &str, new_name: &str) -> (r: Result<(), CliError>)
        ensures
            final(self).continues(*old(self)),
            rename_steps(name@, new_name@, final(self).steps_after(*old(self)), r),
    {
        let exists = self.habit_exists(name)?;
        check_habit_found(name, exists)?;
        match self.send(&Query::with_two(SQL_RENAME_HABIT, new_name, name)) {
            Ok(_) => Ok(()),
            Err(err) => Err(storage_error(err)),
        }
    }

    /// Marks the habit `name` as done on `date`. A date that the calendar does not have is
    /// refused before the database is asked; then a habit that is not there, then a mark
    /// that is there already.
    pub fn mark_habit(&mut self, name: &str, date: &Date) -> (r: Result<(), CliError>)
        ensures
            final(self).continues(*old(self)),
            mark_steps(name@, *date, final(self).steps_after(*old(self)), r),
    {
        let date = date.to_string()?;
        let id = self.get_habit_id(name)?;
        let entry = Query::with_two(SQL_COUNT_ENTRIES, id.as_str(), date.as_str());
        let count = match self.ask_number(&entry) {
            Ok(count) => count,
            Err(err) => {
                return Err(storage_error(err));
            },
        };
        check_unmarked(name, date.as_str(), count)?;
        match self.send(&Query::with_two(SQL_INSERT_ENTRY, id.as_str(), date.as_str())) {
            Ok(_) => Ok(()),
            Err(err) => Err(storage_error(err)),
        }
    }

    /// Takes the mark of the habit `name` on `date` away. A date that the calendar does
    /// not have is refused before the database is asked; then a habit that is not there,
    /// then a mark that is not there.
    pub fn unmark_habit(&mut self, name: &str, date: &Date) -> (r: Result<(), CliError>)
        ensures
            final(self).continues(*old(self)),
            unmark_steps(name@, *date, final(self).steps_after(*old(self)), r),
    {
        let date = date.to_string()?;
        let id = self.get_habit_id(name)?;
        let entry = Query::with_two(SQL_COUNT_ENTRIES, id.as_str(), date.as_str());
        let count = match self.ask_number(&entry) {
            Ok(count) => count,
            Err(err) => {
                return Err(storage_error(err));
            },
        };
        check_marked(name, date.as_str(), count)?;
        match self.send(&Query::with_two(SQL_DELETE_ENTRY, id.as_str(), date.as_str())) {
            Ok(_) => Ok(()),
            Err(err) => Err(storage_error(err)),
        }
    }

    /// The dates from `date_start` to `date_end`, both included, on which the habit `name`
    /// is marked. An entry whose stored text is no date is passed over.
    pub fn get_marked_days(&mut self, name: &str, date_start: &Date, date_end: &Date) -> (r: Result<
        Vec<Date>,
        CliError,
    >)
        ensures
            final(self).continues(*old(self)),
            marked_days_steps(
                name@,
                *date_start,
                *date_end,
                final(self).steps_after(*old(self)),
                r,
            ),
            r matches Ok(days) ==> forall|i: int|
                0 <= i < days.len() ==> (#[trigger] days[i]).valid(),
    {
        let date_start = date_start.to_string()?;
        let date_end = date_end.to_string()?;
        let id = self.get_habit_id(name)?;
        let entries = Query::with_three(
            SQL_SELECT_ENTRIES,
            id.as_str(),
            date_start.as_str(),
            date_end.as_str(),
        );
        match self.ask_texts(&entries) {
            Ok(stored) => Ok(parse_stored_dates(&stored)),
            Err(err) => Err(storage_error(err)),
        }
    }
}

/// Opens the store at `path` and makes its tables where they are not there yet.
pub fn connect(path: &str) -> (r: Result<Storage, CliError>)
    ensures
        match r {
            Ok(storage) => storage.path() == path@ && initialize_steps(
                storage.journal(),
                Ok::<(), CliError>(()),
            ),
            Err(e) => e.kind == ErrorKind::Storage,
        },
{
    let conn = match open_connection(path) {
        Ok(conn) => conn,
        Err(err) => {
            return Err(storage_error(err));
        },
    };
    let mut storage = Storage { conn, path: Ghost(path@), journal: Ghost(Seq::empty()) };
    storage.initialize()?;
    assert(storage.journal().skip(0) =~= storage.journal());
    Ok(storage)
}

} // verus!
