//! What a store holds, and what the statements mean for it.
//!
//! The database is outside of what is proved, so nothing here is claimed of it. This is
//! the meaning that the operations of the store rely on, written down: two tables, what
//! each statement that was run does to them, and which answers are true of them. The laws
//! at the end hold of every store that answers as its tables say.

use vstd::prelude::*;

use crate::date::{
    date_le, date_text, lemma_date_text_order, lemma_date_text_parsed, lemma_parse_date_text,
    parse_date, Date,
};
use crate::error::{fails_with, CliError, ErrorKind};
use crate::storage::{
    create_steps, delete_steps, exists_steps, id_steps, lemma_stored_dates_contains, mark_steps,
    marked_days_steps, rename_steps, stored_dates, unmark_steps, Answer, Exchange,
    SQL_COUNT_ENTRIES, SQL_COUNT_HABITS, SQL_DELETE_ENTRIES, SQL_DELETE_ENTRY, SQL_DELETE_HABIT,
    SQL_INSERT_ENTRY, SQL_INSERT_HABIT, SQL_RENAME_HABIT, SQL_SELECT_ENTRIES, SQL_SELECT_ID,
};
use crate::text::text_le;

verus! {

/// A row of the table of habits.
pub struct HabitRecord {
    pub id: Seq<char>,
    pub name: Seq<char>,
}

/// A row of the table of entries: the habit of the identifier `habit_id` was done on the
/// date that `date` is the text of.
pub struct EntryRecord {
    pub habit_id: Seq<char>,
    pub date: Seq<char>,
}

/// What a store holds.
pub struct Tables {
    pub habits: Set<HabitRecord>,
    pub entries: Set<EntryRecord>,
}

impl Tables {
    /// Whether a habit has the name `name`.
    pub open spec fn has_name(self, name: Seq<char>) -> bool {
        exists|h: HabitRecord| #[trigger] self.habits.contains(h) && h.name == name
    }

    /// Whether the tables are in order: no two habits share a name or an identifier, and
    /// every entry is the entry of a habit.
    pub open spec fn well_kept(self) -> bool {
        &&& forall|a: HabitRecord, b: HabitRecord|
            #![trigger self.habits.contains(a), self.habits.contains(b)]
            self.habits.contains(a) && self.habits.contains(b) && (a.name == b.name || a.id
                == b.id) ==> a == b
        &&& forall|e: EntryRecord| #[trigger]
            self.entries.contains(e) ==> exists|h: HabitRecord| #[trigger]
                self.habits.contains(h) && h.id == e.habit_id
    }
}

/// The habit `h` under the name that it has after the habits of the name `old` were given
/// the name `new`.
pub open spec fn renamed(h: HabitRecord, new: Seq<char>, old: Seq<char>) -> HabitRecord {
    if h.name == old {
        HabitRecord { id: h.id, name: new }
    } else {
        h
    }
}

/// What a store holds after the exchange `ex`, where it held `t` before. A statement that
/// adds, removes or renames and was run does that; every other exchange, a failure too,
/// leaves the tables as they were.
pub open spec fn after(t: Tables, ex: Exchange) -> Tables {
    if !(ex.answer is Done) {
        t
    } else if ex.sql == SQL_DELETE_ENTRIES@ && ex.params.len() == 1 {
        Tables {
            habits: t.habits,
            entries: t.entries.filter(|e: EntryRecord| e.habit_id != ex.params[0]),
        }
    } else if ex.sql == SQL_DELETE_HABIT@ && ex.params.len() == 1 {
        Tables {
            habits: t.habits.filter(|h: HabitRecord| h.name != ex.params[0]),
            entries: t.entries,
        }
    } else if ex.sql == SQL_RENAME_HABIT@ && ex.params.len() == 2 {
        Tables {
            habits: t.habits.map(|h: HabitRecord| renamed(h, ex.params[0], ex.params[1])),
            entries: t.entries,
        }
    } else if ex.sql == SQL_INSERT_HABIT@ && ex.params.len() == 2 {
        Tables {
            habits: t.habits.insert(HabitRecord { id: ex.params[0], name: ex.params[1] }),
            entries: t.entries,
        }
    } else if ex.sql == SQL_INSERT_ENTRY@ && ex.params.len() == 2 {
        Tables {
            habits: t.habits,
            entries: t.entries.insert(EntryRecord { habit_id: ex.params[0], date: ex.params[1] }),
        }
    } else if ex.sql == SQL_DELETE_ENTRY@ && ex.params.len() == 2 {
        Tables {
            habits: t.habits,
            entries: t.entries.remove(EntryRecord { habit_id: ex.params[0], date: ex.params[1] }),
        }
    } else {
        t
    }
}

/// Whether the answer of the exchange `ex` is true of a store that holds `t`. A count of
/// the habits of a name is above 0 exactly where a habit has the name, and a count of the
/// entries of a habit on a date is above 0 exactly where there is that entry, and never
/// below 0; an identifier is that of a habit of the name that was asked for, and no row
/// comes where no habit has it; the dates of a range are the dates of the entries of the
/// habit whose texts are neither before the first bound nor behind the last. Of a
/// failure, and of the other statements, nothing is asked.
pub open spec fn true_of(t: Tables, ex: Exchange) -> bool {
    match ex.answer {
        Answer::Number(count) => if ex.sql == SQL_COUNT_HABITS@ && ex.params.len() == 1 {
            count >= 0 && (count > 0 <==> t.has_name(ex.params[0]))
        } else if ex.sql == SQL_COUNT_ENTRIES@ && ex.params.len() == 2 {
            count >= 0 && (count > 0 <==> t.entries.contains(
                EntryRecord { habit_id: ex.params[0], date: ex.params[1] },
            ))
        } else {
            true
        },
        Answer::Text(id) => ex.sql == SQL_SELECT_ID@ && ex.params.len() == 1
            ==> t.habits.contains(HabitRecord { id, name: ex.params[0] }),
        Answer::NoRow => ex.sql == SQL_SELECT_ID@ && ex.params.len() == 1 ==> !t.has_name(
            ex.params[0],
        ),
        Answer::Texts(rows) => ex.sql == SQL_SELECT_ENTRIES@ && ex.params.len() == 3 ==> forall|
            date: Seq<char>,
        |
            #![trigger rows.contains(date)]
            rows.contains(date) <==> {
                &&& t.entries.contains(EntryRecord { habit_id: ex.params[0], date })
                &&& text_le(ex.params[1], date)
                &&& text_le(date, ex.params[2])
            },
        _ => true,
    }
}

/// What a store holds after the first `k` of the exchanges `steps`, where it held `t`
/// before the first.
pub open spec fn after_first(t: Tables, steps: Seq<Exchange>, k: int) -> Tables
    decreases k,
{
    if k <= 0 {
        t
    } else {
        after(after_first(t, steps, k - 1), steps[k - 1])
    }
}

/// What a store holds after the exchanges `steps`, where it held `t` before.
pub open spec fn after_all(t: Tables, steps: Seq<Exchange>) -> Tables {
    after_first(t, steps, steps.len() as int)
}

/// Whether the store, which held `t` before the exchanges `steps`, did not fail in any of
/// them and gave answers that were true of what it held at the time.
pub open spec fn answers_truly(t: Tables, steps: Seq<Exchange>) -> bool {
    forall|k: int|
        0 <= k < steps.len() ==> !((#[trigger] steps[k]).answer is Failed) && true_of(
            after_first(t, steps, k),
            steps[k],
        )
}

/// The statements that change the store are six different texts, and the two that count
/// are two.
proof fn lemma_statements_differ()
    ensures
        SQL_DELETE_ENTRIES@ != SQL_DELETE_HABIT@,
        SQL_DELETE_ENTRIES@ != SQL_RENAME_HABIT@,
        SQL_DELETE_ENTRIES@ != SQL_INSERT_HABIT@,
        SQL_DELETE_ENTRIES@ != SQL_INSERT_ENTRY@,
        SQL_DELETE_ENTRIES@ != SQL_DELETE_ENTRY@,
        SQL_DELETE_HABIT@ != SQL_RENAME_HABIT@,
        SQL_DELETE_HABIT@ != SQL_INSERT_HABIT@,
        SQL_DELETE_HABIT@ != SQL_INSERT_ENTRY@,
        SQL_DELETE_HABIT@ != SQL_DELETE_ENTRY@,
        SQL_RENAME_HABIT@ != SQL_INSERT_HABIT@,
        SQL_RENAME_HABIT@ != SQL_INSERT_ENTRY@,
        SQL_RENAME_HABIT@ != SQL_DELETE_ENTRY@,
        SQL_INSERT_HABIT@ != SQL_INSERT_ENTRY@,
        SQL_INSERT_HABIT@ != SQL_DELETE_ENTRY@,
        SQL_INSERT_ENTRY@ != SQL_DELETE_ENTRY@,
        SQL_COUNT_HABITS@ != SQL_COUNT_ENTRIES@,
{
    reveal_strlit("delete from habit_entries where habit_id = ?1");
    reveal_strlit("delete from habits where name = ?1");
    reveal_strlit("update habits set name = ?1 where name = ?2");
    reveal_strlit("insert into habits (id, name) values (?1, ?2)");
    reveal_strlit("insert into habit_entries (habit_id, date) values (?1, ?2)");
    reveal_strlit("delete from habit_entries where habit_id = ?1 and date = ?2");
    reveal_strlit("select count(1) from habits where name = ?1");
    reveal_strlit("select count(1) from habit_entries where habit_id = ?1 and date = ?2");
    assert(SQL_DELETE_ENTRIES@.len() == 45 && SQL_DELETE_ENTRIES@[0] == 'd');
    assert(SQL_DELETE_HABIT@.len() == 34);
    assert(SQL_RENAME_HABIT@.len() == 43);
    assert(SQL_INSERT_HABIT@.len() == 45 && SQL_INSERT_HABIT@[0] == 'i');
    assert(SQL_INSERT_ENTRY@.len() == 58);
    assert(SQL_DELETE_ENTRY@.len() == 59);
    assert(SQL_COUNT_HABITS@.len() == 43);
    assert(SQL_COUNT_ENTRIES@.len() == 68);
}

/// Asking whether a habit exists is exact. Where a store answers truly and does not
/// fail, asking whether `name` exists gives whether a habit has the name, and leaves the
/// store as it was.
pub proof fn lemma_exists_exact(
    t: Tables,
    name: Seq<char>,
    steps: Seq<Exchange>,
    r: Result<bool, CliError>,
)
    requires
        exists_steps(name, steps, r),
        answers_truly(t, steps),
    ensures
        r == Ok::<bool, CliError>(t.has_name(name)),
        after_all(t, steps) == t,
{
    reveal_with_fuel(after_first, 2);
    assert(true_of(after_first(t, steps, 0), steps[0]));
}

/// Asking for an identifier is exact. Where a store that is in order answers truly and
/// does not fail, asking for the identifier of `name` gives the identifier of the habit
/// of that name where there is one, is the failure that the habit is not found exactly
/// where there is none, and leaves the store as it was.
pub proof fn lemma_identifier_exact(
    t: Tables,
    name: Seq<char>,
    steps: Seq<Exchange>,
    r: Result<String, CliError>,
)
    requires
        t.well_kept(),
        id_steps(name, steps, r),
        answers_truly(t, steps),
    ensures
        after_all(t, steps) == t,
        match r {
            Ok(id) => t.habits.contains(HabitRecord { id: id@, name }),
            Err(e) => e.kind == ErrorKind::NotFound && !t.has_name(name),
        },
        r is Ok <==> t.has_name(name),
{
    reveal_with_fuel(after_first, 2);
    assert(true_of(after_first(t, steps, 0), steps[0]));
}

/// Creating a habit makes it exist. Where a store holds no habit of the name `name`,
/// which is not empty, answers truly and does not fail, creating `name` succeeds. After
/// it the store holds the habits that it held and one of that name, and the entries that
/// it held; and asking whether `name` exists gives that it does, where that answer is
/// true and no failure.
pub proof fn lemma_create_then_exists(
    t: Tables,
    name: Seq<char>,
    steps: Seq<Exchange>,
    r: Result<(), CliError>,
)
    requires
        !t.has_name(name),
        name.len() > 0,
        create_steps(name, steps, r),
        answers_truly(t, steps),
    ensures
        r is Ok,
        after_all(t, steps).has_name(name),
        forall|h: HabitRecord|
            h.name != name ==> (after_all(t, steps).habits.contains(h) <==> t.habits.contains(h)),
        after_all(t, steps).entries == t.entries,
        forall|ask: Exchange, found: Result<bool, CliError>|
            #[trigger] exists_steps(name, seq![ask], found) && answers_truly(
                after_all(t, steps),
                seq![ask],
            ) ==> found == Ok::<bool, CliError>(true),
{
    lemma_statements_differ();
    reveal_with_fuel(after_first, 3);
    assert(after_first(t, steps, 1) == t);
    assert(steps.len() == 2);
    let u = after_all(t, steps);
    let made = HabitRecord { id: steps[1].params[0], name };
    assert(u.habits == t.habits.insert(made));
    assert(u.habits.contains(made));
    assert forall|ask: Exchange, found: Result<bool, CliError>|
        #[trigger] exists_steps(name, seq![ask], found) && answers_truly(
            u,
            seq![ask],
        ) implies found == Ok::<bool, CliError>(true) by {
        let one = seq![ask];
        assert(one[0] == ask);
        assert(after_first(u, one, 0) == u);
        assert(true_of(u, ask) && !(ask.answer is Failed));
    }
}

/// A habit is not created twice. Where a store holds a habit of the name `name` and
/// answers truly and does not fail, creating `name` fails as a duplicate, and the store
/// holds what it held.
pub proof fn lemma_create_twice(
    t: Tables,
    name: Seq<char>,
    steps: Seq<Exchange>,
    r: Result<(), CliError>,
)
    requires
        t.has_name(name),
        create_steps(name, steps, r),
        answers_truly(t, steps),
    ensures
        fails_with(r, ErrorKind::Duplicate),
        after_all(t, steps) == t,
{
    reveal_with_fuel(after_first, 2);
    assert(true_of(after_first(t, steps, 0), steps[0]));
}

/// The entry of the habit of the identifier `id` on `date`.
pub open spec fn entry_of(id: Seq<char>, date: Date) -> EntryRecord {
    EntryRecord { habit_id: id, date: date_text(date) }
}

/// A habit is marked once for a date. Where a store that is in order holds the habit of
/// the identifier `id` and the name `name`, answers truly and does not fail, marking
/// `name` on `date`, a date of the calendar, succeeds exactly where the store does not
/// hold the entry of `id` on `date`, and then adds it; where the store holds it, marking
/// fails as already marked, and the store holds what it held.
pub proof fn lemma_mark_once(
    t: Tables,
    id: Seq<char>,
    name: Seq<char>,
    date: Date,
    steps: Seq<Exchange>,
    r: Result<(), CliError>,
)
    requires
        t.well_kept(),
        t.habits.contains(HabitRecord { id, name }),
        date.valid(),
        mark_steps(name, date, steps, r),
        answers_truly(t, steps),
    ensures
        after_all(t, steps).habits == t.habits,
        after_all(t, steps).entries.contains(entry_of(id, date)),
        if t.entries.contains(entry_of(id, date)) {
            fails_with(r, ErrorKind::AlreadyMarked) && after_all(t, steps) == t
        } else {
            r is Ok && after_all(t, steps).entries == t.entries.insert(entry_of(id, date))
        },
{
    lemma_statements_differ();
    reveal_with_fuel(after_first, 4);
    lemma_identifier_found(t, id, name, steps[0]);
    assert(after_first(t, steps, 1) == t);
    assert(after_first(t, steps, 2) == t);
    assert(true_of(after_first(t, steps, 1), steps[1]));
}

/// A mark is taken away once. Where a store that is in order holds the habit of the
/// identifier `id` and the name `name`, answers truly and does not fail, taking the mark
/// of `name` on `date`, a date of the calendar, away succeeds exactly where the store
/// holds the entry of `id` on `date`, and then removes it; where the store does not hold
/// it, that fails as not marked, and the store holds what it held.
pub proof fn lemma_unmark_once(
    t: Tables,
    id: Seq<char>,
    name: Seq<char>,
    date: Date,
    steps: Seq<Exchange>,
    r: Result<(), CliError>,
)
    requires
        t.well_kept(),
        t.habits.contains(HabitRecord { id, name }),
        date.valid(),
        unmark_steps(name, date, steps, r),
        answers_truly(t, steps),
    ensures
        after_all(t, steps).habits == t.habits,
        !after_all(t, steps).entries.contains(entry_of(id, date)),
        if t.entries.contains(entry_of(id, date)) {
            r is Ok && after_all(t, steps).entries == t.entries.remove(entry_of(id, date))
        } else {
            fails_with(r, ErrorKind::NotMarked) && after_all(t, steps) == t
        },
{
    lemma_statements_differ();
    reveal_with_fuel(after_first, 4);
    lemma_identifier_found(t, id, name, steps[0]);
    assert(after_first(t, steps, 1) == t);
    assert(after_first(t, steps, 2) == t);
    assert(true_of(after_first(t, steps, 1), steps[1]));
}

/// A range of marked days is exact. Where a store that is in order holds the habit of the
/// identifier `id` and the name `name`, answers truly and does not fail, asking for the
/// marked days of `name` from `date_start` to `date_end`, two dates of the calendar up to
/// the year 9999, succeeds and leaves the store as it was. A date is among the days that
/// come back exactly where it is a date of the calendar up to the year 9999, the store
/// holds the entry of `id` on it, and it is neither before `date_start` nor behind
/// `date_end`.
pub proof fn lemma_marked_days_exact(
    t: Tables,
    id: Seq<char>,
    name: Seq<char>,
    date_start: Date,
    date_end: Date,
    steps: Seq<Exchange>,
    r: Result<Vec<Date>, CliError>,
)
    requires
        t.well_kept(),
        t.habits.contains(HabitRecord { id, name }),
        date_start.valid(),
        date_start.year <= 9999,
        date_end.valid(),
        date_end.year <= 9999,
        marked_days_steps(name, date_start, date_end, steps, r),
        answers_truly(t, steps),
    ensures
        after_all(t, steps) == t,
        match r {
            Ok(days) => forall|d: Date|
                #![trigger days@.contains(d)]
                days@.contains(d) <==> {
                    &&& d.valid()
                    &&& d.year <= 9999
                    &&& t.entries.contains(entry_of(id, d))
                    &&& date_le(date_start, d)
                    &&& date_le(d, date_end)
                },
            Err(_) => false,
        },
{
    reveal_with_fuel(after_first, 3);
    lemma_identifier_found(t, id, name, steps[0]);
    assert(after_first(t, steps, 1) == t);
    assert(true_of(after_first(t, steps, 1), steps[1]));
    let rows = steps[1].answer->Texts_0;
    let days = r->Ok_0;
    assert(days@ == stored_dates(rows));
    assert forall|d: Date| #![trigger days@.contains(d)] days@.contains(d) <==> {
        &&& d.valid()
        &&& d.year <= 9999
        &&& t.entries.contains(entry_of(id, d))
        &&& date_le(date_start, d)
        &&& date_le(d, date_end)
    } by {
        lemma_stored_dates_contains(rows, d);
        if days@.contains(d) {
            let k = choose|k: int|
                0 <= k < rows.len() && parse_date(#[trigger] rows[k]) == Some(d);
            lemma_date_text_parsed(rows[k], d);
            assert(rows.contains(rows[k]));
            lemma_date_text_order(date_start, d);
            lemma_date_text_order(d, date_end);
        }
        if d.valid() && d.year <= 9999 && t.entries.contains(entry_of(id, d)) && date_le(
            date_start,
            d,
        ) && date_le(d, date_end) {
            lemma_date_text_order(date_start, d);
            lemma_date_text_order(d, date_end);
            lemma_parse_date_text(d);
            assert(rows.contains(date_text(d)));
            let k = choose|k: int| 0 <= k < rows.len() && rows[k] == date_text(d);
            assert(parse_date(rows[k]) == Some(d));
        }
    }
}

/// The identifier that a store in order gives for the name of a habit that it holds is
/// the identifier of that habit, where the answer is true and no failure.
proof fn lemma_identifier_found(t: Tables, id: Seq<char>, name: Seq<char>, ask: Exchange)
    requires
        t.well_kept(),
        t.habits.contains(HabitRecord { id, name }),
        ask.asks(SQL_SELECT_ID, seq![name]),
        true_of(t, ask),
        !(ask.answer is Failed),
        ask.answer is Text || ask.answer is NoRow,
    ensures
        ask.answer == Answer::Text(id),
{
    let held = HabitRecord { id, name };
    assert(t.has_name(name));
    let other = HabitRecord { id: ask.answer->Text_0, name };
    assert(t.habits.contains(other) && t.habits.contains(held));
}

/// Deleting a habit removes the habit and what depends on it. Where a store that is in
/// order holds the habit of the identifier `id` and the name `name`, answers truly and
/// does not fail, deleting `name` succeeds. After it the store holds the habits that it
/// held but for that one, and the entries that it held but for those of `id`: no habit
/// has the name, no entry is left without its habit, and the store is in order.
pub proof fn lemma_delete_removes(
    t: Tables,
    id: Seq<char>,
    name: Seq<char>,
    steps: Seq<Exchange>,
    r: Result<(), CliError>,
)
    requires
        t.well_kept(),
        t.habits.contains(HabitRecord { id, name }),
        delete_steps(name, steps, r),
        answers_truly(t, steps),
    ensures
        r is Ok,
        !after_all(t, steps).has_name(name),
        forall|h: HabitRecord|
            after_all(t, steps).habits.contains(h) <==> t.habits.contains(h) && h.name != name,
        forall|e: EntryRecord|
            after_all(t, steps).entries.contains(e) <==> t.entries.contains(e) && e.habit_id
                != id,
        after_all(t, steps).well_kept(),
{
    lemma_statements_differ();
    reveal_with_fuel(after_first, 5);
    let held = HabitRecord { id, name };
    assert(t.has_name(name));
    assert(steps[0].answer is Number && steps[0].answer->Number_0 > 0);
    assert(after_first(t, steps, 1) == t);
    let found = steps[1].answer->Text_0;
    assert(steps[1].answer is Text);
    assert(t.habits.contains(HabitRecord { id: found, name }));
    assert(found == id);
    assert(after_first(t, steps, 2) == t);
    assert(steps.len() == 4);
    let u = after_all(t, steps);
    assert(u.entries == t.entries.filter(|e: EntryRecord| e.habit_id != id));
    assert(u.habits == t.habits.filter(|h: HabitRecord| h.name != name));
    assert forall|e: EntryRecord| #[trigger] u.entries.contains(e) implies exists|
        h: HabitRecord,
    | #[trigger] u.habits.contains(h) && h.id == e.habit_id by {
        let h = choose|h: HabitRecord| #[trigger] t.habits.contains(h) && h.id == e.habit_id;
        assert(t.habits.contains(h) && t.habits.contains(held));
        assert(u.habits.contains(h));
    }
}

/// Renaming a habit keeps its identifier and all entries. Where a store that is in order
/// holds the habit of the identifier `id` and the name `name` and no habit of the name
/// `new_name`, answers truly and does not fail, renaming succeeds. After it the store
/// holds that habit under the new name and the other habits as they were, and the
/// entries that it held; it is in order; and asking for the identifier of `new_name`
/// gives `id`, where that answer is true and no failure.
pub proof fn lemma_rename_keeps(
    t: Tables,
    id: Seq<char>,
    name: Seq<char>,
    new_name: Seq<char>,
    steps: Seq<Exchange>,
    r: Result<(), CliError>,
)
    requires
        t.well_kept(),
        t.habits.contains(HabitRecord { id, name }),
        !t.has_name(new_name),
        rename_steps(name, new_name, steps, r),
        answers_truly(t, steps),
    ensures
        r is Ok,
        after_all(t, steps).habits.contains(HabitRecord { id, name: new_name }),
        !after_all(t, steps).has_name(name),
        forall|h: HabitRecord|
            h.name != name && h.name != new_name ==> (after_all(t, steps).habits.contains(h)
                <==> t.habits.contains(h)),
        after_all(t, steps).entries == t.entries,
        after_all(t, steps).well_kept(),
        forall|ask: Exchange, found: Result<String, CliError>|
            id_steps(new_name, seq![ask], found) && answers_truly(after_all(t, steps), seq![ask])
                ==> (#[trigger] id_steps(new_name, seq![ask], found) && match found {
                Ok(text) => text@ == id,
                Err(_) => false,
            }),
{
    lemma_statements_differ();
    reveal_with_fuel(after_first, 3);
    let held = HabitRecord { id, name };
    let kept = HabitRecord { id, name: new_name };
    let change = |h: HabitRecord| renamed(h, new_name, name);
    assert(t.has_name(name));
    assert(name != new_name);
    assert(steps[0].answer is Number && steps[0].answer->Number_0 > 0);
    assert(after_first(t, steps, 1) == t);
    assert(steps.len() == 2);
    let u = after_all(t, steps);
    assert(u.habits == t.habits.map(change));
    assert(u.entries == t.entries);
    assert(change(held) == kept);
    assert(u.habits.contains(kept));
    assert forall|h: HabitRecord| #[trigger] u.habits.contains(h) implies exists|
        was: HabitRecord,
    | #[trigger] t.habits.contains(was) && h == change(was) by {}
    assert(!u.has_name(name)) by {
        if u.has_name(name) {
            let h = choose|h: HabitRecord| #[trigger] u.habits.contains(h) && h.name == name;
            let was = choose|was: HabitRecord| #[trigger]
                t.habits.contains(was) && h == change(was);
            assert(t.has_name(was.name));
        }
    }
    assert forall|h: HabitRecord| h.name != name && h.name != new_name implies (
    u.habits.contains(h) <==> t.habits.contains(h)) by {
        if t.habits.contains(h) {
            assert(change(h) == h);
            assert(u.habits.contains(h));
        }
        if u.habits.contains(h) {
            let was = choose|was: HabitRecord| #[trigger]
                t.habits.contains(was) && h == change(was);
            assert(was == h);
        }
    }
    assert(u.well_kept()) by {
        assert forall|a: HabitRecord, b: HabitRecord|
            #![trigger u.habits.contains(a), u.habits.contains(b)]
            u.habits.contains(a) && u.habits.contains(b) && (a.name == b.name || a.id
                == b.id) implies a == b by {
            let was_a = choose|was: HabitRecord| #[trigger]
                t.habits.contains(was) && a == change(was);
            let was_b = choose|was: HabitRecord| #[trigger]
                t.habits.contains(was) && b == change(was);
            assert(t.habits.contains(was_a) && t.habits.contains(was_b));
            assert(t.has_name(was_a.name) && t.has_name(was_b.name));
            assert(was_a == was_b);
        }
        assert forall|e: EntryRecord| #[trigger] u.entries.contains(e) implies exists|
            h: HabitRecord,
        | #[trigger] u.habits.contains(h) && h.id == e.habit_id by {
            let was = choose|was: HabitRecord| #[trigger]
                t.habits.contains(was) && was.id == e.habit_id;
            assert(u.habits.contains(change(was)));
        }
    }
    assert forall|ask: Exchange, found: Result<String, CliError>|
        id_steps(new_name, seq![ask], found) && answers_truly(u, seq![ask]) implies (
    #[trigger] id_steps(new_name, seq![ask], found) && match found {
        Ok(text) => text@ == id,
        Err(_) => false,
    }) by {
        let one = seq![ask];
        assert(one[0] == ask);
        assert(after_first(u, one, 0) == u);
        assert(true_of(u, ask) && !(ask.answer is Failed));
        assert(u.has_name(new_name));
        if ask.answer is Text {
            let other = HabitRecord { id: ask.answer->Text_0, name: new_name };
            assert(u.habits.contains(other) && u.habits.contains(kept));
            assert(other == kept);
        }
    }
}

} // verus!
