//! Laws of reading a month from the calendar page.

use crate::attendance::{
    cell_texts, dates_rise, day_names, detail_day, detail_days, grid_day, grid_day_number,
    grid_days, input_value, last_named, merged_days, merged_days_are_the_dates_in_order, page_days,
    page_records, row_day, scan_cells, table_days, with_day,
};
use crate::calendar::{
    calendar_source, cell_value, day_number_in, meets, shown_option, strict_day_number_in,
    stronger_source, time_pattern, type_keywords, visible_between, visible_cell, AttrTest,
};
use crate::date::{is_after, is_date, weekday_text, CalendarDate};
use crate::dom::{attr_at, children, select, select_in, spaced_text, text_in, Dom, Selector};
use crate::hr_core::{AttendanceSource, DayView};
use crate::text::{
    contains, contains_any, index_from_is_first, joined, lowercased, parsed_up_to, split, trimmed,
    words,
};
use vstd::prelude::*;

verus! {

/// Whether a part occurs in a text.
pub open spec fn occurs(part: Seq<char>, text: Seq<char>) -> bool {
    exists|at: int|
        0 <= at && at + part.len() <= text.len() && #[trigger] text.subrange(at, at + part.len())
            == part
}

/// A text contains just what occurs in it.
pub proof fn a_text_contains_what_occurs_in_it(text: Seq<char>, part: Seq<char>)
    ensures
        contains(text, part) <==> occurs(part, text),
{
    index_from_is_first(text, part, 0);
    if contains(text, part) {
        let at = crate::text::index_from(text, part, 0)->0;
        assert(text.subrange(at, at + part.len()) == part);
    }
}

// ---------------------------------------------------------------------------
// Grid cells
// ---------------------------------------------------------------------------

/// Whether an element's class holds a word.
pub open spec fn class_holds(dom: Dom, at: int, word: Seq<char>) -> bool {
    attr_at(dom, at, "class"@) matches Some(class) && occurs(word, class)
}

proof fn nothing_occurs_in_nothing(word: Seq<char>)
    requires
        word.len() > 0,
    ensures
        !contains(""@, word),
{
    reveal_strlit("");
    a_text_contains_what_occurs_in_it(""@, word);
}

/// A day has an error if and only if one of its icons is marked as an error or
/// a warning and not as filled by the system, or its message speaks of an
/// error or of something missing.
pub proof fn a_marked_day_has_an_error(dom: Dom, cell: int, month: CalendarDate)
    requires
        grid_day(dom, cell, month) is Some,
    ensures
        ({
            let icons = select_in(dom, cell, Selector::DayIcon);
            let message = crate::attendance::grid_message(dom, cell);
            grid_day(dom, cell, month)->0.has_error <==> ((exists|i: int|
                0 <= i < icons.len() && (class_holds(dom, #[trigger] icons[i], "fh-error"@)
                    || class_holds(dom, icons[i], "fh-warning"@)) && !class_holds(
                    dom,
                    icons[i],
                    "fh-x"@,
                )) || (message matches Some(words) && (occurs("שגיאה"@, words) || occurs(
                "error"@,
                lowercased(words),
            ) || occurs("missing"@, lowercased(words)))))
        }),
{
    reveal_strlit("fh-x");
    reveal_strlit("fh-error");
    reveal_strlit("fh-warning");
    let icons = select_in(dom, cell, Selector::DayIcon);
    assert forall|i: int| 0 <= i < icons.len() implies (crate::attendance::is_problem_icon(
        dom,
        #[trigger] icons[i],
    ) <==> (class_holds(dom, icons[i], "fh-error"@) || class_holds(dom, icons[i], "fh-warning"@))
        && !class_holds(dom, icons[i], "fh-x"@)) by {
        nothing_occurs_in_nothing("fh-x"@);
        nothing_occurs_in_nothing("fh-error"@);
        nothing_occurs_in_nothing("fh-warning"@);
        if let Some(class) = attr_at(dom, icons[i], "class"@) {
            a_text_contains_what_occurs_in_it(class, "fh-x"@);
            a_text_contains_what_occurs_in_it(class, "fh-error"@);
            a_text_contains_what_occurs_in_it(class, "fh-warning"@);
        }
    }
    if let Some(words) = crate::attendance::grid_message(dom, cell) {
        a_text_contains_what_occurs_in_it(words, "שגיאה"@);
        a_text_contains_what_occurs_in_it(lowercased(words), "error"@);
        a_text_contains_what_occurs_in_it(lowercased(words), "missing"@);
    }
}

/// A cell with a day number gives the day of that number in the month, where
/// the month has it; without a number it gives none.
pub proof fn a_cell_is_of_its_day(dom: Dom, cell: int, month: CalendarDate)
    ensures
        match grid_day_number(dom, cell) {
            Some(number) => {
                let date = CalendarDate {
                    year: month.year,
                    month: month.month,
                    day: number as int,
                };
                &&& is_date(date) <==> grid_day(dom, cell, month) is Some
                &&& grid_day(dom, cell, month) matches Some(day) ==> day.date == date
            },
            None => grid_day(dom, cell, month) is None,
        },
{
}

/// The entry time of a cell is its title where that is a time of day, else its
/// message where that is one; a cell gives no exit time and no total.
pub proof fn a_cell_gives_its_entry_time(dom: Dom, cell: int, month: CalendarDate)
    requires
        grid_day(dom, cell, month) is Some,
    ensures
        ({
            let day = grid_day(dom, cell, month)->0;
            let title = match attr_at(dom, cell, "title"@) {
                Some(title) => trimmed(title),
                None => seq![],
            };
            let message = crate::attendance::grid_message(dom, cell);
            &&& title.len() > 0 && time_pattern(title) ==> day.entry_time == Some(title)
            &&& !(title.len() > 0 && time_pattern(title)) ==> match message {
                Some(words) => if time_pattern(words) {
                    day.entry_time == Some(words)
                } else {
                    day.entry_time is None
                },
                None => day.entry_time is None,
            }
            &&& day.exit_time is None
            &&& day.total_hours is None
        }),
{
}

/// The kind of a cell: a title that is no time of day; else vacation where an
/// icon says that the system filled the day; else a message that names a kind
/// and no problem; else a work day where there is an entry time; else none.
pub proof fn a_cell_gives_its_kind(dom: Dom, cell: int, month: CalendarDate)
    requires
        grid_day(dom, cell, month) is Some,
    ensures
        ({
            let day = grid_day(dom, cell, month)->0;
            let title = match attr_at(dom, cell, "title"@) {
                Some(title) => trimmed(title),
                None => seq![],
            };
            let icons = select_in(dom, cell, Selector::DayIcon);
            let filled = exists|i: int|
                0 <= i < icons.len() && class_holds(dom, #[trigger] icons[i], "fh-x"@);
            &&& title.len() > 0 && !time_pattern(title) ==> day.attendance_type == Some(title)
            &&& (title.len() == 0 || time_pattern(title)) && filled ==> day.attendance_type == Some(
                "vacation"@,
            )
            &&& day.attendance_type is None ==> day.entry_time is None
            &&& title.len() > 0 && time_pattern(title) && !filled
                && crate::attendance::grid_message(dom, cell) is None ==> day.attendance_type
                == Some("work day"@)
        }),
{
    reveal_strlit("fh-x");
    let icons = select_in(dom, cell, Selector::DayIcon);
    assert forall|i: int| 0 <= i < icons.len() implies (crate::attendance::is_fill_icon(
        dom,
        #[trigger] icons[i],
    ) <==> class_holds(dom, icons[i], "fh-x"@)) by {
        nothing_occurs_in_nothing("fh-x"@);
        if let Some(class) = attr_at(dom, icons[i], "class"@) {
            a_text_contains_what_occurs_in_it(class, "fh-x"@);
        }
    }
}

/// How a cell's day came to its data: filled by the system where its class
/// says so; else reported where the class marks an absence; else by its words.
pub proof fn a_cell_gives_its_source(dom: Dom, cell: int, month: CalendarDate)
    requires
        grid_day(dom, cell, month) is Some,
    ensures
        ({
            let day = grid_day(dom, cell, month)->0;
            let title = attr_at(dom, cell, "title"@);
            &&& class_holds(dom, cell, "cED"@) ==> day.source == AttendanceSource::SystemAutoFill
            &&& !class_holds(dom, cell, "cED"@) && class_holds(dom, cell, "calendarAbcenseDay"@)
                ==> day.source == AttendanceSource::UserReported
            &&& !class_holds(dom, cell, "cED"@) && !class_holds(dom, cell, "calendarAbcenseDay"@)
                ==> {
                &&& day.attendance_type is None && (title is None || trimmed(title->0).len() == 0)
                    ==> day.source == AttendanceSource::Unreported
                &&& day.attendance_type is Some && (class_holds(dom, cell, "cHD"@) || class_holds(
                    dom,
                    cell,
                    "holiday"@,
                )) ==> day.source == AttendanceSource::Holiday
                &&& day.attendance_type is Some ==> day.source == AttendanceSource::Holiday
                    || day.source == AttendanceSource::UserReported
            }
        }),
{
    reveal_strlit("cED");
    reveal_strlit("calendarAbcenseDay");
    reveal_strlit("cHD");
    reveal_strlit("holiday");
    nothing_occurs_in_nothing("cED"@);
    nothing_occurs_in_nothing("calendarAbcenseDay"@);
    nothing_occurs_in_nothing("cHD"@);
    nothing_occurs_in_nothing("holiday"@);
    if let Some(class) = attr_at(dom, cell, "class"@) {
        a_text_contains_what_occurs_in_it(class, "cED"@);
        a_text_contains_what_occurs_in_it(class, "calendarAbcenseDay"@);
        a_text_contains_what_occurs_in_it(class, "cHD"@);
        a_text_contains_what_occurs_in_it(class, "holiday"@);
    }
}

/// The message of a day with an error is kept only where it speaks of the
/// problem; a day without an error has none.
pub proof fn a_cell_keeps_the_words_of_a_problem(dom: Dom, cell: int, month: CalendarDate)
    requires
        grid_day(dom, cell, month) is Some,
    ensures
        ({
            let day = grid_day(dom, cell, month)->0;
            let message = crate::attendance::grid_message(dom, cell);
            &&& day.error_message is Some ==> day.has_error && day.error_message == message
            &&& (message matches Some(words) && (occurs("שגיאה"@, words) || occurs(
                "error"@,
                lowercased(words),
            ) || occurs("missing"@, lowercased(words)))) ==> day.error_message == message
        }),
{
    if let Some(words) = crate::attendance::grid_message(dom, cell) {
        a_text_contains_what_occurs_in_it(words, "שגיאה"@);
        a_text_contains_what_occurs_in_it(lowercased(words), "error"@);
        a_text_contains_what_occurs_in_it(lowercased(words), "missing"@);
    }
}

/// What a source says of words: a day off that the organization set where the
/// class or the words say so, reported where there are words, else nothing.
pub proof fn words_have_a_source(
    class: Seq<char>,
    title: Option<Seq<char>>,
    kind: Option<Seq<char>>,
)
    ensures
        title is None && kind is None <==> calendar_source(class, title, kind)
            == AttendanceSource::Unreported,
        (title is Some || kind is Some) && (occurs("cHD"@, class) || occurs("holiday"@, class))
            ==> calendar_source(class, title, kind) == AttendanceSource::Holiday,
        ({
            let words = lowercased(
                match title {
                    Some(title) => title,
                    None => kind->0,
                },
            );
            (title is Some || kind is Some) && (occurs("חג"@, words) || occurs("d.off"@, words)
                || occurs("day off"@, words)) ==> calendar_source(class, title, kind)
                == AttendanceSource::Holiday
        }),
        calendar_source(class, title, kind) != AttendanceSource::SystemAutoFill,
{
    a_text_contains_what_occurs_in_it(class, "cHD"@);
    a_text_contains_what_occurs_in_it(class, "holiday"@);
    let words = lowercased(
        match title {
            Some(title) => title,
            None => kind->0,
        },
    );
    a_text_contains_what_occurs_in_it(words, "חג"@);
    a_text_contains_what_occurs_in_it(words, "d.off"@);
    a_text_contains_what_occurs_in_it(words, "day off"@);
}

/// Every cell that gives a day has it among the days of the grid, and the
/// grid has no other days.
pub proof fn the_grid_holds_the_days_of_its_cells(
    dom: Dom,
    cells: Seq<int>,
    month: CalendarDate,
    at: int,
)
    requires
        0 <= at < cells.len(),
    ensures
        grid_day(dom, cells[at], month) matches Some(day) ==> grid_days(
            dom,
            cells,
            month,
        ).contains(day),
        grid_days(dom, cells, month).len() <= cells.len(),
    decreases cells.len(),
{
    let rest = cells.drop_last();
    let found = grid_days(dom, cells, month);
    let before = grid_days(dom, rest, month);
    if rest.len() > 0 {
        the_grid_holds_the_days_of_its_cells(dom, rest, month, if at < rest.len() {
            at
        } else {
            0
        });
    }
    if at < rest.len() {
        assert(rest[at] == cells[at]);
        if let Some(day) = grid_day(dom, cells[at], month) {
            let k = choose|k: int| 0 <= k < before.len() && before[k] == day;
            assert(found[k] == day);
        }
    } else if let Some(day) = grid_day(dom, cells[at], month) {
        assert(found[found.len() - 1] == day);
    }
}

// ---------------------------------------------------------------------------
// Detail rows
// ---------------------------------------------------------------------------

/// A detail row gives the entry time from its entry field, the exit time from
/// its exit field, and has no error; it is reported or a day off where it
/// names a kind.
pub proof fn a_detail_row_gives_its_times(dom: Dom, row: int, month: CalendarDate)
    requires
        detail_day(dom, row, month) is Some,
    ensures
        ({
            let day = detail_day(dom, row, month)->0;
            let entry = input_value(dom, row, "ManualEntry_EmployeeReports"@);
            let exit = input_value(dom, row, "ManualExit_EmployeeReports"@);
            &&& entry is Some ==> day.entry_time == entry
            &&& exit is Some ==> day.exit_time == exit
            &&& entry is None ==> day.entry_time == crate::attendance::detail_time(
                dom,
                row,
                "cellOf_ManualEntry_EmployeeReports"@,
            )
            &&& exit is None ==> day.exit_time == crate::attendance::detail_time(
                dom,
                row,
                "cellOf_ManualExit_EmployeeReports"@,
            )
            &&& day.total_hours == crate::attendance::detail_time(
                dom,
                row,
                "cellOf_ManualTotal_EmployeeReports"@,
            )
            &&& !day.has_error && day.error_message is None
            &&& day.attendance_type is None ==> day.source == AttendanceSource::Unreported
            &&& day.attendance_type is Some ==> day.source == AttendanceSource::UserReported
                || day.source == AttendanceSource::Holiday
            &&& day.date.year == month.year && day.date.month == month.month
        }),
{
}

/// The value of a field of a row is that of the first input whose name holds
/// the field's name, unless it stands for nothing.
pub proof fn a_field_is_found_by_its_name(dom: Dom, row: int, fragment: Seq<char>, at: int)
    requires
        ({
            let inputs = select_in(dom, row, Selector::Input);
            &&& 0 <= at < inputs.len()
            &&& attr_at(dom, inputs[at], "name"@) matches Some(name) && contains(name, fragment)
            &&& forall|j: int|
                0 <= j < at ==> !(attr_at(dom, #[trigger] inputs[j], "name"@) matches Some(name)
                    && contains(name, fragment))
        }),
    ensures
        input_value(dom, row, fragment) == cell_value(
            attr_at(dom, select_in(dom, row, Selector::Input)[at], "value"@),
        ),
{
    let inputs = select_in(dom, row, Selector::Input);
    first_is_found(dom, inputs, "name"@, AttrTest::Holds(fragment), at);
}

proof fn first_is_found(dom: Dom, list: Seq<int>, name: Seq<char>, test: AttrTest, at: int)
    requires
        0 <= at < list.len(),
        attr_at(dom, list[at], name) matches Some(value) && meets(value, test),
        forall|j: int|
            0 <= j < at ==> !(attr_at(dom, #[trigger] list[j], name) matches Some(value) && meets(
                value,
                test,
            )),
    ensures
        crate::calendar::first_where(dom, list, name, test) == Some(list[at]),
    decreases list.len(),
{
    if at > 0 {
        let rest = list.skip(1);
        assert(list[0] == list[0]);
        assert(rest[at - 1] == list[at]);
        assert forall|j: int| 0 <= j < at - 1 implies !(attr_at(dom, #[trigger] rest[j], name)
            matches Some(value) && meets(value, test)) by {
            assert(rest[j] == list[j + 1]);
        }
        first_is_found(dom, rest, name, test, at - 1);
    }
}

/// The value of a cell is its text without white space around it; nothing, and
/// what stands for nothing, is none.
pub proof fn a_cell_value_is_its_text(text: Seq<char>)
    requires
        forall|i: int| 0 <= i < text.len() ==> #[trigger] text[i] != '\u{a0}',
    ensures
        cell_value(None) is None,
        cell_value(Some(text)) == (if trimmed(text).len() == 0 || trimmed(text) == "--:--"@
            || trimmed(text) == "&nbsp;"@ {
            None
        } else {
            Some(trimmed(text))
        }),
{
    assert(crate::calendar::plain_spaces(text) == text);
}

// ---------------------------------------------------------------------------
// Table rows
// ---------------------------------------------------------------------------

/// Whether a cell of a row holds a time of day.
pub open spec fn is_time_cell(cells: Seq<Seq<char>>, at: int) -> bool {
    time_pattern(trimmed(cells[at]))
}

/// Whether a cell is the first of a row that holds a time of day.
pub open spec fn is_first_time(cells: Seq<Seq<char>>, at: int) -> bool {
    &&& 0 <= at < cells.len()
    &&& is_time_cell(cells, at)
    &&& forall|i: int| 0 <= i < at ==> !is_time_cell(cells, i)
}

/// Whether a cell is the next of a row that holds a time of day, behind
/// another.
pub open spec fn is_next_time(cells: Seq<Seq<char>>, before: int, at: int) -> bool {
    &&& 0 <= before < at < cells.len()
    &&& is_time_cell(cells, at)
    &&& forall|i: int| before < i < at ==> !is_time_cell(cells, i)
}

proof fn a_time_is_not_empty(text: Seq<char>)
    requires
        time_pattern(text),
    ensures
        text.len() > 0,
{
    if text.len() == 0 {
        assert(split(text, ':').len() == 1);
    }
}

/// The first time of day in a row is its entry time and the next one its exit
/// time; without a time of day it has neither.
pub proof fn a_row_gives_its_times_in_order(cells: Seq<Seq<char>>, problem: bool)
    ensures
        ({
            let scan = scan_cells(cells, problem);
            &&& scan.entry_time is None <==> forall|i: int|
                0 <= i < cells.len() ==> !is_time_cell(cells, i)
            &&& scan.entry_time is None ==> scan.exit_time is None
            &&& scan.entry_time matches Some(entry) ==> exists|i: int| #[trigger]
                is_first_time(cells, i) && entry == trimmed(cells[i]) && (scan.exit_time is None
                    ==> forall|j: int| i < j < cells.len() ==> !is_time_cell(cells, j)) && (
                scan.exit_time matches Some(exit) ==> exists|j: int| #[trigger]
                    is_next_time(cells, i, j) && exit == trimmed(cells[j]))
        }),
    decreases cells.len(),
{
    let scan = scan_cells(cells, problem);
    if cells.len() > 0 {
        let rest = cells.drop_last();
        let last = cells.len() - 1;
        let before = scan_cells(rest, problem);
        a_row_gives_its_times_in_order(rest, problem);
        assert forall|i: int| 0 <= i < rest.len() implies is_time_cell(rest, i) == is_time_cell(
            cells,
            i,
        ) by {
            assert(rest[i] == cells[i]);
        }
        if is_time_cell(cells, last) {
            a_time_is_not_empty(trimmed(cells[last]));
        }
        if before.entry_time is Some {
            let entry = before.entry_time->0;
            let i = choose|i: int| #[trigger]
                is_first_time(rest, i) && entry == trimmed(rest[i]) && (before.exit_time is None
                    ==> forall|j: int| i < j < rest.len() ==> !is_time_cell(rest, j)) && (
                before.exit_time matches Some(exit) ==> exists|j: int| #[trigger]
                    is_next_time(rest, i, j) && exit == trimmed(rest[j]));
            assert(is_first_time(cells, i));
            assert(rest[i] == cells[i]);
            assert(scan.entry_time == before.entry_time);
            if before.exit_time is Some {
                let j = choose|j: int| #[trigger]
                    is_next_time(rest, i, j) && before.exit_time->0 == trimmed(rest[j]);
                assert(rest[j] == cells[j]);
                assert(is_next_time(cells, i, j));
            } else if is_time_cell(cells, last) {
                assert(is_next_time(cells, i, last));
            }
        } else if is_time_cell(cells, last) {
            assert(is_first_time(cells, last));
            assert(scan.exit_time is None);
        }
    }
}

/// The total of a row is a time of day behind both its entry and its exit
/// time, in the fourth cell or later.
pub proof fn a_row_gives_its_total_last(cells: Seq<Seq<char>>, problem: bool)
    ensures
        ({
            let scan = scan_cells(cells, problem);
            scan.total_hours matches Some(total) ==> scan.entry_time is Some && scan.exit_time
                is Some && exists|i: int, j: int, k: int|
                i < j < k && 3 <= k && #[trigger] is_first_time(cells, i)
                    && #[trigger] is_next_time(cells, i, j) && 0 <= k < cells.len()
                    && #[trigger] is_time_cell(cells, k) && total == trimmed(cells[k])
        }),
    decreases cells.len(),
{
    let scan = scan_cells(cells, problem);
    if cells.len() > 0 {
        let rest = cells.drop_last();
        let last = cells.len() - 1;
        let before = scan_cells(rest, problem);
        a_row_gives_its_total_last(rest, problem);
        a_row_gives_its_times_in_order(rest, problem);
        assert forall|i: int| 0 <= i < rest.len() implies is_time_cell(rest, i) == is_time_cell(
            cells,
            i,
        ) by {
            assert(rest[i] == cells[i]);
        }
        if before.total_hours is Some {
            let (i, j, k) = choose|i: int, j: int, k: int|
                i < j < k && 3 <= k && #[trigger] is_first_time(rest, i)
                    && #[trigger] is_next_time(rest, i, j) && 0 <= k < rest.len()
                    && #[trigger] is_time_cell(rest, k) && before.total_hours->0 == trimmed(
                    rest[k],
                );
            assert(rest[k] == cells[k]);
            assert(is_first_time(cells, i) && is_next_time(cells, i, j) && is_time_cell(cells, k));
        } else if scan.total_hours is Some {
            assert(before.exit_time is Some);
            let entry = before.entry_time->0;
            let i = choose|i: int| #[trigger]
                is_first_time(rest, i) && entry == trimmed(rest[i]) && (before.exit_time is None
                    ==> forall|j: int| i < j < rest.len() ==> !is_time_cell(rest, j)) && (
                before.exit_time matches Some(exit) ==> exists|j: int| #[trigger]
                    is_next_time(rest, i, j) && exit == trimmed(rest[j]));
            let j = choose|j: int| #[trigger]
                is_next_time(rest, i, j) && before.exit_time->0 == trimmed(rest[j]);
            assert(is_first_time(cells, i) && is_next_time(cells, i, j) && is_time_cell(
                cells,
                last,
            ));
        }
    }
}

/// A row is of the day that its first cell begins with, has an error where its
/// cells speak of one, and gives what its cells give.
pub proof fn a_row_is_of_its_day(cells: Seq<Seq<char>>, month: CalendarDate)
    requires
        row_day(cells, month) is Some,
    ensures
        ({
            let day = row_day(cells, month)->0;
            let text = joined(cells, " "@);
            let scan = scan_cells(cells, day.has_error);
            &&& cells.len() > 0
            &&& day_number_in(cells[0]) == Some(day.date.day as nat)
            &&& day.date.year == month.year && day.date.month == month.month && is_date(day.date)
            &&& day.has_error <==> occurs("שגיאה"@, text) || occurs("חסר"@, text) || occurs(
                "error"@,
                text,
            ) || occurs("✗"@, text) || occurs("×"@, text)
            &&& day.entry_time == scan.entry_time && day.exit_time == scan.exit_time
            &&& day.total_hours == scan.total_hours
            &&& day.attendance_type == scan.attendance_type
            &&& day.attendance_type is None && day.entry_time is Some ==> day.source
                == AttendanceSource::UserReported
            &&& day.attendance_type is None && day.entry_time is None ==> day.source
                == AttendanceSource::Unreported
        }),
{
    let text = joined(cells, " "@);
    a_text_contains_what_occurs_in_it(text, "שגיאה"@);
    a_text_contains_what_occurs_in_it(text, "חסר"@);
    a_text_contains_what_occurs_in_it(text, "error"@);
    a_text_contains_what_occurs_in_it(text, "✗"@);
    a_text_contains_what_occurs_in_it(text, "×"@);
}

/// Table rows count only where the grid and the detail rows give no day.
pub proof fn the_table_is_the_last_resort(dom: Dom, month: CalendarDate)
    ensures
        ({
            let grid = grid_days(dom, select(dom, Selector::DayCell), month);
            let detail = crate::attendance::detail_days(
                dom,
                select(dom, Selector::ReportDayRow),
                month,
            );
            &&& grid.len() + detail.len() > 0 ==> page_records(dom, month) == grid + detail
            &&& grid.len() + detail.len() == 0 ==> page_records(dom, month) == table_days(
                dom,
                select(dom, Selector::TableRow),
                month,
            )
            &&& page_days(dom, month) == merged_days(page_records(dom, month))
        }),
{
}

// ---------------------------------------------------------------------------
// Merging
// ---------------------------------------------------------------------------

/// The first day of a list with a date.
pub open spec fn day_on(days: Seq<DayView>, date: CalendarDate) -> Option<DayView>
    decreases days.len(),
{
    if days.len() == 0 {
        None
    } else if days[0].date == date {
        Some(days[0])
    } else {
        day_on(days.skip(1), date)
    }
}

/// The later of two values, where there is one.
pub open spec fn later<A>(earlier: Option<A>, later: Option<A>) -> Option<A> {
    if later is Some {
        later
    } else {
        earlier
    }
}

proof fn no_day_on(days: Seq<DayView>, date: CalendarDate)
    requires
        forall|i: int| 0 <= i < days.len() ==> (#[trigger] days[i]).date != date,
    ensures
        day_on(days, date) is None,
    decreases days.len(),
{
    if days.len() > 0 {
        assert forall|i: int| 0 <= i < days.skip(1).len() implies (#[trigger] days.skip(1)[i]).date
            != date by {
            assert(days.skip(1)[i] == days[i + 1]);
        }
        assert(days[0].date != date);
        no_day_on(days.skip(1), date);
    }
}

/// One more record of a date changes the day of that date alone: an error
/// stays, what the record knows takes the place of what was known, and of the
/// sources the stronger one counts.
pub proof fn a_record_is_merged_into_its_day(
    days: Seq<DayView>,
    record: DayView,
    date: CalendarDate,
)
    requires
        dates_rise(days),
    ensures
        date != record.date ==> day_on(with_day(days, record), date) == day_on(days, date),
        day_on(days, record.date) is None ==> day_on(with_day(days, record), record.date) == Some(
            record,
        ),
        day_on(days, record.date) matches Some(known) ==> (day_on(
            with_day(days, record),
            record.date,
        ) matches Some(day) && day.date == record.date && day.has_error == (known.has_error
            || record.has_error) && day.entry_time == later(known.entry_time, record.entry_time)
            && day.exit_time == later(known.exit_time, record.exit_time) && day.attendance_type
            == later(known.attendance_type, record.attendance_type) && day.total_hours == later(
            known.total_hours,
            record.total_hours,
        ) && day.error_message == later(known.error_message, record.error_message) && (day.source
            == known.source || day.source == record.source)),
    decreases days.len(),
{
    reveal_with_fuel(day_on, 2);
    let result = with_day(days, record);
    if days.len() == 0 {
        assert(result.skip(1) == Seq::<DayView>::empty());
    } else if days[0].date == record.date {
        assert(result[0].date == record.date);
        assert(result.skip(1) == days.skip(1));
    } else if is_after(days[0].date, record.date) {
        assert(result[0] == record);
        assert(result.skip(1) == days);
        assert forall|i: int| 0 <= i < days.len() implies (#[trigger] days[i]).date
            != record.date by {
            if i > 0 {
                assert(is_after(days[i].date, days[0].date));
            }
        }
        no_day_on(days, record.date);
    } else {
        let rest = days.skip(1);
        assert forall|i: int, j: int| 0 <= i < j < rest.len() implies is_after(
            #[trigger] rest[j].date,
            #[trigger] rest[i].date,
        ) by {
            assert(rest[i] == days[i + 1] && rest[j] == days[j + 1]);
        }
        a_record_is_merged_into_its_day(rest, record, date);
        assert(result[0] == days[0]);
        assert(result.skip(1) == with_day(rest, record));
    }
}

/// An error that some record of a date has is not lost: the day of that date
/// has an error.
pub proof fn an_error_is_not_lost(records: Seq<DayView>, at: int)
    requires
        0 <= at < records.len(),
        records[at].has_error,
    ensures
        day_on(merged_days(records), records[at].date) matches Some(day) && day.has_error,
    decreases records.len(),
{
    let rest = records.drop_last();
    merged_days_are_the_dates_in_order(rest);
    a_record_is_merged_into_its_day(merged_days(rest), records.last(), records[at].date);
    if at < rest.len() {
        assert(rest[at] == records[at]);
        an_error_is_not_lost(rest, at);
    }
}

/// The last record of a date decides on its times and its kind, where it knows
/// them.
pub proof fn the_last_record_decides(records: Seq<DayView>)
    requires
        records.len() > 0,
    ensures
        ({
            let last = records.last();
            day_on(merged_days(records), last.date) matches Some(day) && (last.entry_time is Some
                ==> day.entry_time == last.entry_time) && (last.exit_time is Some ==> day.exit_time
                == last.exit_time) && (last.attendance_type is Some ==> day.attendance_type
                == last.attendance_type) && (last.total_hours is Some ==> day.total_hours
                == last.total_hours)
        }),
{
    let rest = records.drop_last();
    merged_days_are_the_dates_in_order(rest);
    a_record_is_merged_into_its_day(merged_days(rest), records.last(), records.last().date);
}

/// Of two sources the stronger one counts: a report over a day off, a day off
/// over what the system filled, and that over nothing; in either order.
pub proof fn the_stronger_source_counts(left: AttendanceSource, right: AttendanceSource)
    ensures
        stronger_source(left, right) == left || stronger_source(left, right) == right,
        stronger_source(left, right) == stronger_source(right, left),
        left == AttendanceSource::UserReported ==> stronger_source(left, right) == left,
        left == AttendanceSource::Unreported ==> stronger_source(left, right) == right,
        left == AttendanceSource::Holiday && right == AttendanceSource::SystemAutoFill
            ==> stronger_source(left, right) == left,
{
}

/// Whether words name a kind of attendance, whatever the case.
pub open spec fn names_a_kind(words: Seq<char>) -> bool {
    ||| contains(lowercased(words), "work day"@)
    ||| contains(lowercased(words), "work from home"@)
    ||| contains(lowercased(words), "vacation"@)
    ||| contains(lowercased(words), "sickness"@)
    ||| contains(lowercased(words), "d off"@)
    ||| contains(lowercased(words), "day off"@)
    ||| contains(lowercased(words), "reserve"@)
    ||| contains(lowercased(words), "mourning"@)
    ||| contains(lowercased(words), "course"@)
    ||| contains(lowercased(words), "work abroad"@)
    ||| contains(lowercased(words), "conference"@)
    ||| contains(lowercased(words), "offsite"@)
    ||| contains(lowercased(words), "parental"@)
    ||| contains(lowercased(words), "יום עבודה"@)
    ||| contains(lowercased(words), "עבודה מהבית"@)
    ||| contains(lowercased(words), "עבודה"@)
    ||| contains(lowercased(words), "חופשה"@)
    ||| contains(lowercased(words), "מחלה"@)
}

proof fn kinds_are_named_by_their_words(words: Seq<char>)
    ensures
        contains_any(lowercased(words), type_keywords()) <==> names_a_kind(words),
{
    let list = type_keywords();
    assert(list.len() == 18);
    assert(list[0] == "work day"@);
    assert(list[1] == "work from home"@);
    assert(list[2] == "vacation"@);
    assert(list[3] == "sickness"@);
    assert(list[4] == "d off"@);
    assert(list[5] == "day off"@);
    assert(list[6] == "reserve"@);
    assert(list[7] == "mourning"@);
    assert(list[8] == "course"@);
    assert(list[9] == "work abroad"@);
    assert(list[10] == "conference"@);
    assert(list[11] == "offsite"@);
    assert(list[12] == "parental"@);
    assert(list[13] == "יום עבודה"@);
    assert(list[14] == "עבודה מהבית"@);
    assert(list[15] == "עבודה"@);
    assert(list[16] == "חופשה"@);
    assert(list[17] == "מחלה"@);
    if contains_any(lowercased(words), list) {
        let i = choose|i: int| 0 <= i < list.len() && contains(lowercased(words), #[trigger] list[i]);
        assert(contains(lowercased(words), list[i]));
    }
}

/// A cell without a title and without a mark of the system has its message as
/// its kind where that names one and no problem.
pub proof fn a_message_gives_the_kind_it_names(
    dom: Dom,
    cell: int,
    month: CalendarDate,
    words: Seq<char>,
)
    requires
        grid_day(dom, cell, month) is Some,
        attr_at(dom, cell, "title"@) is None,
        forall|i: int|
            0 <= i < select_in(dom, cell, Selector::DayIcon).len() ==> !class_holds(
                dom,
                #[trigger] select_in(dom, cell, Selector::DayIcon)[i],
                "fh-x"@,
            ),
        crate::attendance::grid_message(dom, cell) == Some(words),
        !occurs("שגיאה"@, words),
        !occurs("error"@, lowercased(words)),
        !occurs("missing"@, lowercased(words)),
    ensures
        names_a_kind(words) ==> grid_day(dom, cell, month)->0.attendance_type == Some(words),
        !names_a_kind(words) && !time_pattern(words) ==> grid_day(
            dom,
            cell,
            month,
        )->0.attendance_type is None,
        !names_a_kind(words) && time_pattern(words) ==> grid_day(
            dom,
            cell,
            month,
        )->0.attendance_type == Some("work day"@),
{
    kinds_are_named_by_their_words(words);
    a_text_contains_what_occurs_in_it(words, "שגיאה"@);
    a_text_contains_what_occurs_in_it(lowercased(words), "error"@);
    a_text_contains_what_occurs_in_it(lowercased(words), "missing"@);
    reveal_strlit("fh-x");
    let icons = select_in(dom, cell, Selector::DayIcon);
    assert forall|i: int| 0 <= i < icons.len() implies !crate::attendance::is_fill_icon(
        dom,
        #[trigger] icons[i],
    ) by {
        nothing_occurs_in_nothing("fh-x"@);
        assert(!class_holds(dom, icons[i], "fh-x"@));
        if let Some(class) = attr_at(dom, icons[i], "class"@) {
            a_text_contains_what_occurs_in_it(class, "fh-x"@);
        }
    }
}

/// The message of a cell is the first that says something, without the
/// whitespace around it.
pub proof fn the_first_message_counts(dom: Dom, list: Seq<int>, at: int)
    requires
        0 <= at < list.len(),
        trimmed(visible_cell(dom, list[at])).len() > 0,
        forall|i: int|
            0 <= i < at ==> trimmed(visible_cell(dom, #[trigger] list[i])).len() == 0,
    ensures
        crate::attendance::first_message(dom, list) == Some(trimmed(visible_cell(dom, list[at]))),
    decreases list.len(),
{
    if at > 0 {
        assert(trimmed(visible_cell(dom, list[0])).len() == 0);
        let rest = list.skip(1);
        assert(rest[at - 1] == list[at]);
        assert forall|i: int| 0 <= i < at - 1 implies trimmed(
            visible_cell(dom, #[trigger] rest[i]),
        ).len() == 0 by {
            assert(rest[i] == list[i + 1]);
        }
        the_first_message_counts(dom, rest, at - 1);
    }
}

/// The number of a cell's day is that which is seen in it, or else that of its
/// label.
pub proof fn a_cell_shows_its_number(dom: Dom, cell: int)
    ensures
        ({
            let numbers = select_in(dom, cell, Selector::DayNumber);
            let shown = strict_day_number_in(visible_cell(dom, numbers[0]));
            &&& (numbers.len() > 0 && shown is Some ==> grid_day_number(dom, cell) == shown)
            &&& (numbers.len() == 0 && attr_at(dom, cell, "aria-label"@) is None
                ==> grid_day_number(dom, cell) is None)
            &&& (numbers.len() == 0 || shown is None ==> (attr_at(
                dom,
                cell,
                "aria-label"@,
            ) matches Some(label) ==> (parsed_up_to(label, u32::MAX as nat) matches Some(number)
                ==> (1 <= number <= 31 ==> grid_day_number(dom, cell) == Some(number)))))
        }),
{
}

/// The names of the days of the week, from Sunday on, in Hebrew and in English.
pub open spec fn weekday_names() -> Seq<Seq<char>> {
    seq![
        "ראשון"@,
        "שני"@,
        "שלישי"@,
        "רביעי"@,
        "חמישי"@,
        "שישי"@,
        "שבת"@,
        "Sun"@,
        "Mon"@,
        "Tue"@,
        "Wed"@,
        "Thu"@,
        "Fri"@,
        "Sat"@,
    ]
}

/// The day of the week of a row is the last of the known names that stands in
/// its text; without any it is what was known before.
pub proof fn a_row_names_its_day_of_the_week(text: Seq<char>, before: Seq<char>, at: int)
    ensures
        0 <= at < 14 && contains(text, weekday_names()[at]) && (forall|j: int|
            at < j < 14 ==> !contains(text, #[trigger] weekday_names()[j])) ==> last_named(
            text,
            day_names(),
            before,
        ) == weekday_names()[at],
        (forall|i: int| 0 <= i < 14 ==> !contains(text, #[trigger] weekday_names()[i]))
            ==> last_named(text, day_names(), before) == before,
{
    assert(day_names() == weekday_names());
    last_name_decides(text, weekday_names(), before);
}

proof fn last_name_decides(text: Seq<char>, names: Seq<Seq<char>>, before: Seq<char>)
    ensures
        forall|at: int|
            0 <= at < names.len() && contains(text, #[trigger] names[at]) && (forall|j: int|
                at < j < names.len() ==> !contains(text, #[trigger] names[j])) ==> last_named(
                text,
                names,
                before,
            ) == names[at],
        (forall|i: int| 0 <= i < names.len() ==> !contains(text, #[trigger] names[i]))
            ==> last_named(text, names, before) == before,
    decreases names.len(),
{
    if names.len() > 0 {
        let front = names.drop_last();
        let last = names.len() - 1;
        last_name_decides(text, front, before);
        assert(names[last] == names.last());
        assert forall|at: int|
            0 <= at < names.len() && contains(text, #[trigger] names[at]) && (forall|j: int|
                at < j < names.len() ==> !contains(text, #[trigger] names[j])) implies last_named(
            text,
            names,
            before,
        ) == names[at] by {
            if at < last {
                assert(!contains(text, names[last]));
                assert(front[at] == names[at]);
                assert forall|j: int| at < j < front.len() implies !contains(
                    text,
                    #[trigger] front[j],
                ) by {
                    assert(front[j] == names[j]);
                }
            }
        }
        if forall|i: int| 0 <= i < names.len() ==> !contains(text, #[trigger] names[i]) {
            assert(!contains(text, names[last]));
            assert forall|i: int| 0 <= i < front.len() implies !contains(
                text,
                #[trigger] front[i],
            ) by {
                assert(front[i] == names[i]);
            }
        }
    }
}

/// The kind of a detail row is what is seen in its cell for symbols, or else
/// what its drop-down for symbols shows.
pub proof fn a_detail_row_gives_its_kind(dom: Dom, row: int, month: CalendarDate)
    requires
        detail_day(dom, row, month) is Some,
    ensures
        ({
            let day = detail_day(dom, row, month)->0;
            let shown = crate::attendance::detail_text(
                dom,
                row,
                "cellOf_Symbol.SymbolId_EmployeeReports"@,
            );
            &&& (shown is Some ==> day.attendance_type == shown)
            &&& (shown is None ==> day.attendance_type == crate::attendance::drop_down_text(
                dom,
                row,
                "Symbol.SymbolId_EmployeeReports"@,
            ))
            &&& day.day_name == weekday_text(day.date)
        }),
{
}

/// A detail row is of the day that its date cell says: by its original value,
/// else by its title, else by what is seen in it.
pub proof fn a_detail_row_is_of_its_date(dom: Dom, row: int, month: CalendarDate)
    requires
        detail_day(dom, row, month) is Some,
    ensures
        ({
            let cells = select_in(dom, row, Selector::ReportDateCell);
            let day = detail_day(dom, row, month)->0.date.day;
            &&& cells.len() > 0
            &&& (attr_at(dom, cells[0], "ov"@) matches Some(text) ==> (day_number_in(
                text,
            ) matches Some(number) ==> day == number))
            &&& (attr_at(dom, cells[0], "ov"@) is None ==> (attr_at(
                dom,
                cells[0],
                "title"@,
            ) matches Some(text) ==> (day_number_in(text) matches Some(number) ==> day
                == number)))
            &&& (attr_at(dom, cells[0], "ov"@) is None && attr_at(dom, cells[0], "title"@) is None
                ==> day_number_in(visible_cell(dom, cells[0])) == Some(day as nat))
        }),
{
}

/// A cell of a detail row is the first with the words in its id, and stands for
/// what is seen in it before its original value.
pub proof fn a_detail_cell_is_read(dom: Dom, row: int, fragment: Seq<char>, at: int)
    requires
        0 <= at < select_in(dom, row, Selector::TableCell).len(),
        attr_at(dom, select_in(dom, row, Selector::TableCell)[at], "id"@) matches Some(id)
            && contains(id, fragment),
        forall|i: int|
            0 <= i < at ==> !(attr_at(
                dom,
                #[trigger] select_in(dom, row, Selector::TableCell)[i],
                "id"@,
            ) matches Some(id) && contains(id, fragment)),
    ensures
        ({
            let cell = select_in(dom, row, Selector::TableCell)[at];
            let seen = cell_value(Some(visible_cell(dom, cell)));
            let text = crate::attendance::detail_text(dom, row, fragment);
            let time = crate::attendance::detail_time(dom, row, fragment);
            &&& (seen is Some ==> text == seen)
            &&& (seen is None ==> text == cell_value(attr_at(dom, cell, "ov"@)))
            &&& (text matches Some(value) ==> (time_pattern(value) ==> time == text))
            &&& (text matches Some(value) ==> (!time_pattern(value) ==> time is None))
        }),
{
    the_first_cell_with_the_words(dom, select_in(dom, row, Selector::TableCell), fragment, at);
}

proof fn the_first_cell_with_the_words(dom: Dom, list: Seq<int>, fragment: Seq<char>, at: int)
    requires
        0 <= at < list.len(),
        attr_at(dom, list[at], "id"@) matches Some(id) && contains(id, fragment),
        forall|i: int|
            0 <= i < at ==> !(attr_at(dom, #[trigger] list[i], "id"@) matches Some(id) && contains(
                id,
                fragment,
            )),
    ensures
        crate::calendar::first_where(dom, list, "id"@, AttrTest::Holds(fragment)) == Some(list[at]),
    decreases list.len(),
{
    if at > 0 {
        assert(!(attr_at(dom, list[0], "id"@) matches Some(id) && contains(id, fragment)));
        let rest = list.skip(1);
        assert(rest[at - 1] == list[at]);
        assert forall|i: int| 0 <= i < at - 1 implies !(attr_at(
            dom,
            #[trigger] rest[i],
            "id"@,
        ) matches Some(id) && contains(id, fragment)) by {
            assert(rest[i] == list[i + 1]);
        }
        the_first_cell_with_the_words(dom, rest, fragment, at - 1);
    }
}

/// Whether a cell says what is wrong with its row.
pub open spec fn says_the_problem(cell: Seq<char>) -> bool {
    contains(trimmed(cell), "חסר דיווח"@) || contains(trimmed(cell), "missing"@) || contains(
        trimmed(cell),
        "שגיאה"@,
    )
}

/// The words for the problem of a row are those of its first cell that says
/// it; its kind is that of its first cell that names one.
pub proof fn a_row_gives_its_words(cells: Seq<Seq<char>>, at: int)
    requires
        0 <= at < cells.len(),
        trimmed(cells[at]).len() > 0,
    ensures
        says_the_problem(cells[at]) && (forall|i: int|
            0 <= i < at ==> !says_the_problem(#[trigger] cells[i]) || trimmed(cells[i]).len() == 0)
            ==> scan_cells(cells, true).error_message == Some(trimmed(cells[at])),
        names_a_kind(trimmed(cells[at])) && (forall|i: int|
            0 <= i < at ==> !names_a_kind(trimmed(#[trigger] cells[i])) || trimmed(cells[i]).len()
                == 0) ==> scan_cells(cells, true).attendance_type == Some(trimmed(cells[at]))
            && scan_cells(cells, false).attendance_type == Some(trimmed(cells[at])),
        scan_cells(cells, false).error_message is None,
    decreases cells.len(),
{
    no_words_without_a_problem(cells);
    kinds_are_named_by_their_words(trimmed(cells[at]));
    if at < cells.len() - 1 {
        let front = cells.drop_last();
        a_row_gives_its_words(front, at);
        assert(front[at] == cells[at]);
        if forall|i: int|
            0 <= i < at ==> !says_the_problem(#[trigger] cells[i]) || trimmed(cells[i]).len()
                == 0 {
            assert forall|i: int| 0 <= i < at implies !says_the_problem(#[trigger] front[i])
                || trimmed(front[i]).len() == 0 by {
                assert(front[i] == cells[i]);
            }
        }
        if forall|i: int|
            0 <= i < at ==> !names_a_kind(trimmed(#[trigger] cells[i])) || trimmed(cells[i]).len()
                == 0 {
            assert forall|i: int| 0 <= i < at implies !names_a_kind(trimmed(#[trigger] front[i]))
                || trimmed(front[i]).len() == 0 by {
                assert(front[i] == cells[i]);
            }
        }
    } else {
        let front = cells.drop_last();
        nothing_said_before(front);
        if forall|i: int|
            0 <= i < at ==> !says_the_problem(#[trigger] cells[i]) || trimmed(cells[i]).len()
                == 0 {
            assert forall|i: int| 0 <= i < front.len() implies !says_the_problem(
                #[trigger] front[i],
            ) || trimmed(front[i]).len() == 0 by {
                assert(front[i] == cells[i]);
            }
        }
        if forall|i: int|
            0 <= i < at ==> !names_a_kind(trimmed(#[trigger] cells[i])) || trimmed(cells[i]).len()
                == 0 {
            assert forall|i: int| 0 <= i < front.len() implies !names_a_kind(
                trimmed(#[trigger] front[i]),
            ) || trimmed(front[i]).len() == 0 by {
                assert(front[i] == cells[i]);
            }
        }
    }
}

proof fn no_words_without_a_problem(cells: Seq<Seq<char>>)
    ensures
        scan_cells(cells, false).error_message is None,
    decreases cells.len(),
{
    if cells.len() > 0 {
        no_words_without_a_problem(cells.drop_last());
    }
}

proof fn nothing_said_before(cells: Seq<Seq<char>>)
    ensures
        (forall|i: int|
            0 <= i < cells.len() ==> !says_the_problem(#[trigger] cells[i]) || trimmed(
                cells[i],
            ).len() == 0) ==> scan_cells(cells, true).error_message is None,
        (forall|i: int|
            0 <= i < cells.len() ==> !names_a_kind(trimmed(#[trigger] cells[i])) || trimmed(
                cells[i],
            ).len() == 0) ==> scan_cells(cells, true).attendance_type is None && scan_cells(
            cells,
            false,
        ).attendance_type is None,
    decreases cells.len(),
{
    if cells.len() > 0 {
        let front = cells.drop_last();
        let last = cells.len() - 1;
        nothing_said_before(front);
        assert(cells[last] == cells.last());
        kinds_are_named_by_their_words(trimmed(cells.last()));
        if forall|i: int|
            0 <= i < cells.len() ==> !says_the_problem(#[trigger] cells[i]) || trimmed(
                cells[i],
            ).len() == 0 {
            assert(!says_the_problem(cells[last]) || trimmed(cells[last]).len() == 0);
            assert forall|i: int| 0 <= i < front.len() implies !says_the_problem(
                #[trigger] front[i],
            ) || trimmed(front[i]).len() == 0 by {
                assert(front[i] == cells[i]);
            }
        }
        if forall|i: int|
            0 <= i < cells.len() ==> !names_a_kind(trimmed(#[trigger] cells[i])) || trimmed(
                cells[i],
            ).len() == 0 {
            assert(!names_a_kind(trimmed(cells[last])) || trimmed(cells[last]).len() == 0);
            assert forall|i: int| 0 <= i < front.len() implies !names_a_kind(
                trimmed(#[trigger] front[i]),
            ) || trimmed(front[i]).len() == 0 by {
                assert(front[i] == cells[i]);
            }
        }
    }
}

/// The words `ho` and `h.o` mark a day off too; words that say nothing of one,
/// in a cell whose class does not either, are reported by the user.
pub proof fn other_words_are_reported_by_the_user(class: Seq<char>, said: Seq<char>)
    ensures
        words(lowercased(said)).contains("ho"@) ==> calendar_source(class, Some(said), None)
            == AttendanceSource::Holiday,
        words(lowercased(said)).contains("h.o"@) ==> calendar_source(class, Some(said), None)
            == AttendanceSource::Holiday,
        !words(lowercased(said)).contains("ho"@) && !words(lowercased(said)).contains("h.o"@)
            && !contains(lowercased(said), "חג"@) && !contains(lowercased(said), "d.off"@)
            && !contains(lowercased(said), "day off"@) && !contains(class, "cHD"@) && !contains(
            class,
            "holiday"@,
        ) ==> calendar_source(class, Some(said), None) == AttendanceSource::UserReported
            && calendar_source(class, None, Some(said)) == AttendanceSource::UserReported,
{
}

/// What is seen in a cell without drop-downs is all its text; of a drop-down
/// only the option that it shows is seen.
pub proof fn a_drop_down_is_seen_by_its_option(
    dom: Dom,
    cell: int,
    from: int,
    to: int,
    original: Option<Seq<char>>,
    option: int,
)
    ensures
        select_in(dom, cell, Selector::Select).len() == 0 ==> visible_cell(dom, cell)
            == spaced_text(dom, cell),
        from < to && dom.nodes[from].size == to - from && dom.nodes[from].name == Some("select"@)
            && attr_at(dom, from, "ov"@) is None && shown_option(dom, from, original) == Some(
            option,
        ) && trimmed(text_in(dom, option)).len() > 0 ==> visible_between(dom, from, to, original)
            == seq![trimmed(text_in(dom, option))],
{
    reveal_with_fuel(visible_between, 2);
    if from < to && dom.nodes[from].size == to - from && dom.nodes[from].name == Some("select"@)
        && attr_at(dom, from, "ov"@) is None && shown_option(dom, from, original) == Some(option)
        && trimmed(text_in(dom, option)).len() > 0 {
        assert(visible_between(dom, to, to, original) == Seq::<Seq<char>>::empty());
        assert(visible_between(dom, from, to, original) == seq![trimmed(text_in(dom, option))]
            + visible_between(dom, to, to, original));
    }
}

/// Every detail row that reports a day has it among the days of the rows.
pub proof fn each_detail_row_is_listed(dom: Dom, rows: Seq<int>, month: CalendarDate, at: int)
    requires
        0 <= at < rows.len(),
        detail_day(dom, rows[at], month) is Some,
    ensures
        detail_days(dom, rows, month).contains(detail_day(dom, rows[at], month)->0),
    decreases rows.len(),
{
    let front = rows.drop_last();
    let before = detail_days(dom, front, month);
    let all = detail_days(dom, rows, month);
    let day = detail_day(dom, rows[at], month)->0;
    if at < rows.len() - 1 {
        assert(front[at] == rows[at]);
        each_detail_row_is_listed(dom, front, month, at);
        let k = choose|k: int| 0 <= k < before.len() && before[k] == day;
        assert(all[k] == day);
    } else {
        assert(all[before.len() as int] == day);
    }
}

/// Every row of a table with three cells or more that reports a day has it
/// among the days of the table; a shorter row gives none.
pub proof fn each_table_row_is_listed(dom: Dom, rows: Seq<int>, month: CalendarDate, at: int)
    requires
        0 <= at < rows.len(),
    ensures
        ({
            let cells = cell_texts(dom, children(dom, rows[at]));
            &&& (cells.len() >= 3 ==> (row_day(cells, month) matches Some(day) ==> table_days(
                dom,
                rows,
                month,
            ).contains(day)))
            &&& (at == rows.len() - 1 && cells.len() < 3 ==> table_days(dom, rows, month)
                == table_days(dom, rows.drop_last(), month))
        }),
    decreases rows.len(),
{
    let front = rows.drop_last();
    let before = table_days(dom, front, month);
    let all = table_days(dom, rows, month);
    let cells = cell_texts(dom, children(dom, rows[at]));
    if at < rows.len() - 1 {
        assert(front[at] == rows[at]);
        each_table_row_is_listed(dom, front, month, at);
        if cells.len() >= 3 && row_day(cells, month) is Some {
            let day = row_day(cells, month)->0;
            let k = choose|k: int| 0 <= k < before.len() && before[k] == day;
            assert(all[k] == day);
        }
    } else if cells.len() >= 3 && row_day(cells, month) is Some {
        assert(all[before.len() as int] == row_day(cells, month)->0);
    }
}

} // verus!
