//! What is shown to a person at a terminal: the lines of tables and lists.

use crate::api::{symbol_views, SymbolView};
use crate::date::{iso_text, minute_of, minute_text, month_text, CalendarDate};
use crate::forms::byte_len;
use crate::hr_core::{
    day_views, reported, row_texts, type_views, AbsenceSymbol, AttendanceType, CalendarDay,
    DayView, MonthCalendar, ReportTable, TypeView,
};
use crate::ontology::OrgOntology;
use crate::text::{
    chars_of, decimal, decimal_text, join, joined, left_align, left_aligned, opt_text, repeat,
    repeated, same, slice_text, strs, texts,
};
use crate::use_cases::{
    error_days, skipped_views, with_error, AutoFillDayResult, AutoFillResult, FilledView,
    SkippedDay,
};
use vstd::prelude::*;

verus! {

// ---------------------------------------------------------------------------
// Rows
// ---------------------------------------------------------------------------

/// The cells of a row, each filled up to the width of its column.
pub open spec fn aligned(cells: Seq<Seq<char>>, widths: Seq<usize>) -> Seq<Seq<char>> {
    Seq::new(cells.len(), |i: int| left_aligned(cells[i], widths[i] as nat))
}

/// A row of a table: its cells with two spaces between them.
pub open spec fn row_line(cells: Seq<Seq<char>>, widths: Seq<usize>) -> Seq<char> {
    joined(aligned(cells, widths), "  "@)
}

/// A line of dashes under each column.
pub open spec fn rule_line(widths: Seq<usize>) -> Seq<char> {
    joined(widths.map_values(|width: usize| repeated('-', width as nat)), "  "@)
}

/// Writes a row.
pub fn row_text(cells: &Vec<&str>, widths: &Vec<usize>) -> (line: String)
    requires
        cells.len() == widths.len(),
    ensures
        line@ == row_line(strs(cells@), widths@),
{
    let mut parts: Vec<String> = Vec::new();
    let mut i: usize = 0;
    while i < cells.len()
        invariant
            i <= cells.len(),
            cells.len() == widths.len(),
            parts.len() == i,
            forall|j: int|
                0 <= j < i ==> (#[trigger] parts@[j])@ == left_aligned(
                    cells@[j]@,
                    widths@[j] as nat,
                ),
        decreases cells.len() - i,
    {
        parts.push(left_align(cells[i], widths[i]));
        i = i + 1;
    }
    assert(texts(parts@) == aligned(strs(cells@), widths@));
    join(&parts, "  ")
}

/// Writes a line of dashes.
pub fn rule_text(widths: &Vec<usize>) -> (line: String)
    ensures
        line@ == rule_line(widths@),
{
    let mut parts: Vec<String> = Vec::new();
    let mut i: usize = 0;
    while i < widths.len()
        invariant
            i <= widths.len(),
            parts.len() == i,
            forall|j: int|
                0 <= j < i ==> (#[trigger] parts@[j])@ == repeated('-', widths@[j] as nat),
        decreases widths.len() - i,
    {
        parts.push(repeat('-', widths[i]));
        i = i + 1;
    }
    assert(texts(parts@) == widths@.map_values(|width: usize| repeated('-', width as nat)));
    join(&parts, "  ")
}

/// A text, or a stand-in where there is none.
pub open spec fn text_or(text: Option<Seq<char>>, missing: Seq<char>) -> Seq<char> {
    match text {
        Some(text) => text,
        None => missing,
    }
}

/// A text, or a stand-in where there is none.
pub fn text_or_else<'a>(text: &'a Option<String>, missing: &'a str) -> (shown: &'a str)
    ensures
        shown@ == text_or(opt_text(*text), missing@),
{
    match text {
        Some(text) => text.as_str(),
        None => missing,
    }
}

/// A line added to lines.
pub(crate) fn add_line(lines: &mut Vec<String>, line: String)
    ensures
        texts(final(lines)@) == texts(old(lines)@).push(line@),
{
    let ghost before = texts(lines@);
    lines.push(line);
    assert(texts(lines@) == before.push(line@));
}

// ---------------------------------------------------------------------------
// Days with errors
// ---------------------------------------------------------------------------

/// The columns of a list of days with errors.
pub open spec fn error_widths() -> Seq<usize> {
    seq![10usize, 5, 40]
}

/// A day with an error as a row.
pub open spec fn error_row(day: DayView) -> Seq<char> {
    row_line(
        seq![iso_text(day.date), day.day_name, text_or(day.error_message, "missing report"@)],
        error_widths(),
    )
}

/// A list of days with errors under a title.
pub open spec fn error_table(title: Seq<char>, days: Seq<DayView>) -> Seq<Seq<char>> {
    seq![
        title,
        ""@,
        row_line(seq!["Date"@, "Day"@, "Error"@], error_widths()),
        rule_line(error_widths()),
    ] + days.map_values(|day: DayView| error_row(day))
}

/// Writes a list of days with errors.
fn error_table_lines(title: String, days: &Vec<CalendarDay>) -> (lines: Vec<String>)
    ensures
        texts(lines@) == error_table(title@, day_views(days@)),
{
    let widths: Vec<usize> = vec![10, 5, 40];
    assert(widths@ == error_widths());
    let mut lines: Vec<String> = Vec::new();
    let ghost heading = title@;
    add_line(&mut lines, title);
    add_line(&mut lines, "".to_owned());
    let head: Vec<&str> = vec!["Date", "Day", "Error"];
    assert(strs(head@) == seq!["Date"@, "Day"@, "Error"@]);
    add_line(&mut lines, row_text(&head, &widths));
    add_line(&mut lines, rule_text(&widths));
    let ghost start = error_table(heading, seq![]);
    assert(texts(lines@) == start);
    let ghost all = day_views(days@);
    let mut i: usize = 0;
    assert(error_table(heading, all.take(0)) == start) by {
        assert(all.take(0) == Seq::<DayView>::empty());
    }
    while i < days.len()
        invariant
            i <= days.len(),
            all == day_views(days@),
            widths@ == error_widths(),
            texts(lines@) == error_table(heading, all.take(i as int)),
        decreases days.len() - i,
    {
        let date = days[i].date.iso();
        let cells: Vec<&str> = vec![
            date.as_str(),
            days[i].day_name.as_str(),
            text_or_else(&days[i].error_message, "missing report"),
        ];
        assert(strs(cells@) == seq![
            iso_text(all[i as int].date),
            all[i as int].day_name,
            text_or(all[i as int].error_message, "missing report"@),
        ]);
        add_line(&mut lines, row_text(&cells, &widths));
        assert(error_table(heading, all.take(i + 1)) == error_table(heading, all.take(i as int)).push(
            error_row(all[i as int]),
        ));
        i = i + 1;
    }
    assert(all.take(all.len() as int) == all);
    lines
}

/// The days of a month with errors, as they are listed.
pub open spec fn error_day_list(
    month: CalendarDate,
    employee: Seq<char>,
    days: Seq<DayView>,
) -> Seq<Seq<char>> {
    let found = with_error(days);
    if found.len() == 0 {
        seq!["No attendance errors found."@]
    } else {
        error_table(
            "Attendance errors for "@ + month_text(month) + " ("@ + employee + "): "@ + decimal(
                found.len(),
            ) + " day(s)"@,
            found,
        )
    }
}

/// Lists the days of a month with errors.
pub fn error_day_lines(calendar: &MonthCalendar) -> (lines: Vec<String>)
    ensures
        texts(lines@) == error_day_list(
            calendar.month@,
            calendar.employee_id@,
            day_views(calendar.days@),
        ),
{
    let found = error_days(calendar);
    assert(day_views(found@).len() == found.len());
    if found.len() == 0 {
        let mut lines: Vec<String> = Vec::new();
        add_line(&mut lines, "No attendance errors found.".to_owned());
        assert(texts(lines@) == seq!["No attendance errors found."@]);
        lines
    } else {
        let mut title = "Attendance errors for ".to_owned();
        title.append(calendar.month.year_month().as_str());
        title.append(" (");
        title.append(calendar.employee_id.as_str());
        title.append("): ");
        title.append(decimal_text(found.len() as u64).as_str());
        title.append(" day(s)");
        error_table_lines(title, &found)
    }
}

/// The days of an employee's month with errors, as they are listed.
pub open spec fn employee_error_list(
    month: CalendarDate,
    employee: Seq<char>,
    days: Seq<DayView>,
) -> Seq<Seq<char>> {
    let found = with_error(days);
    if found.len() == 0 {
        seq!["No errors found for "@ + month_text(month) + " (employee "@ + employee + ")"@]
    } else {
        error_table(
            "Errors for "@ + month_text(month) + " (employee "@ + employee + "): "@ + decimal(
                found.len(),
            ) + " day(s)"@,
            found,
        )
    }
}

/// Lists the days of an employee's month with errors.
pub fn employee_error_lines(calendar: &MonthCalendar) -> (lines: Vec<String>)
    ensures
        texts(lines@) == employee_error_list(
            calendar.month@,
            calendar.employee_id@,
            day_views(calendar.days@),
        ),
{
    let found = error_days(calendar);
    assert(day_views(found@).len() == found.len());
    if found.len() == 0 {
        let mut title = "No errors found for ".to_owned();
        title.append(calendar.month.year_month().as_str());
        title.append(" (employee ");
        title.append(calendar.employee_id.as_str());
        title.append(")");
        let mut lines: Vec<String> = Vec::new();
        let ghost heading = title@;
        add_line(&mut lines, title);
        assert(texts(lines@) == seq![heading]);
        lines
    } else {
        let mut title = "Errors for ".to_owned();
        title.append(calendar.month.year_month().as_str());
        title.append(" (employee ");
        title.append(calendar.employee_id.as_str());
        title.append("): ");
        title.append(decimal_text(found.len() as u64).as_str());
        title.append(" day(s)");
        error_table_lines(title, &found)
    }
}

// ---------------------------------------------------------------------------
// A month
// ---------------------------------------------------------------------------

/// The columns of a month.
pub open spec fn calendar_widths() -> Seq<usize> {
    seq![10usize, 5, 5, 5, 15, 5, 6]
}

/// How a day stands, in a word.
pub open spec fn day_status(day: DayView) -> Seq<char> {
    if day.has_error {
        "x"@
    } else if reported(day) {
        "ok"@
    } else {
        "?"@
    }
}

/// The cells of a day.
pub open spec fn calendar_cells(day: DayView) -> Seq<Seq<char>> {
    seq![
        iso_text(day.date),
        day.day_name,
        text_or(day.entry_time, "-"@),
        text_or(day.exit_time, "-"@),
        text_or(day.attendance_type, "-"@),
        text_or(day.total_hours, "-"@),
        day_status(day),
    ]
}

/// How many of the days were reported.
pub open spec fn reported_count(days: Seq<DayView>) -> nat
    decreases days.len(),
{
    if days.len() == 0 {
        0
    } else {
        reported_count(days.drop_last()) + if reported(days.last()) {
            1nat
        } else {
            0
        }
    }
}

/// What is left of a number after another is taken away, and nothing less
/// than nothing.
pub open spec fn less(a: nat, b: nat) -> nat {
    if a < b {
        0
    } else {
        (a - b) as nat
    }
}

/// The last line of a month: how many days there are, and how they stand.
pub open spec fn calendar_totals(days: Seq<DayView>) -> Seq<char> {
    decimal(days.len()) + " days: "@ + decimal(reported_count(days)) + " reported, "@ + decimal(
        with_error(days).len(),
    ) + " errors, "@ + decimal(
        less(less(days.len(), reported_count(days)), with_error(days).len()),
    ) + " missing"@
}

/// A month as it is shown.
pub open spec fn calendar_table(
    month: CalendarDate,
    employee: Seq<char>,
    days: Seq<DayView>,
) -> Seq<Seq<char>> {
    calendar_head(month, employee) + days.map_values(
        |day: DayView| row_line(calendar_cells(day), calendar_widths()),
    ) + seq![""@, calendar_totals(days)]
}

/// The lines above the days of a month.
pub open spec fn calendar_head(month: CalendarDate, employee: Seq<char>) -> Seq<Seq<char>> {
    seq![
        "Attendance for "@ + month_text(month) + " (employee "@ + employee + ")"@,
        ""@,
        row_line(
            seq!["Date"@, "Day"@, "Entry"@, "Exit"@, "Type"@, "Hours"@, "Status"@],
            calendar_widths(),
        ),
        rule_line(calendar_widths()),
    ]
}

/// The rows of a month, and how many of its days were reported.
fn calendar_rows(days: &Vec<CalendarDay>, lines: &mut Vec<String>) -> (count: usize)
    ensures
        count == reported_count(day_views(days@)),
        count <= days.len(),
        texts(final(lines)@) == texts(old(lines)@) + day_views(days@).map_values(
            |day: DayView| row_line(calendar_cells(day), calendar_widths()),
        ),
{
    let widths: Vec<usize> = vec![10, 5, 5, 5, 15, 5, 6];
    assert(widths@ == calendar_widths());
    let ghost all = day_views(days@);
    let ghost rows = all.map_values(
        |day: DayView| row_line(calendar_cells(day), calendar_widths()),
    );
    let ghost start = texts(lines@);
    let mut count: usize = 0;
    let mut i: usize = 0;
    assert(start + rows.take(0) == start);
    while i < days.len()
        invariant
            i <= days.len(),
            all == day_views(days@),
            rows == all.map_values(
                |day: DayView| row_line(calendar_cells(day), calendar_widths()),
            ),
            widths@ == calendar_widths(),
            count == reported_count(all.take(i as int)),
            count <= i,
            texts(lines@) == start + rows.take(i as int),
        decreases days.len() - i,
    {
        assert(all.take(i + 1).drop_last() == all.take(i as int));
        assert(all.take(i + 1).last() == days@[i as int]@);
        let date = days[i].date.iso();
        let status = if days[i].has_error {
            "x"
        } else if days[i].is_reported() {
            "ok"
        } else {
            "?"
        };
        let cells: Vec<&str> = vec![
            date.as_str(),
            days[i].day_name.as_str(),
            text_or_else(&days[i].entry_time, "-"),
            text_or_else(&days[i].exit_time, "-"),
            text_or_else(&days[i].attendance_type, "-"),
            text_or_else(&days[i].total_hours, "-"),
            status,
        ];
        assert(strs(cells@) == calendar_cells(all[i as int]));
        add_line(lines, row_text(&cells, &widths));
        assert(start + rows.take(i + 1) == (start + rows.take(i as int)).push(rows[i as int]));
        if days[i].is_reported() {
            count = count + 1;
        }
        i = i + 1;
    }
    assert(all.take(all.len() as int) == all);
    assert(rows.take(rows.len() as int) == rows);
    count
}

/// Shows a month.
pub fn calendar_lines(calendar: &MonthCalendar) -> (lines: Vec<String>)
    ensures
        texts(lines@) == calendar_table(
            calendar.month@,
            calendar.employee_id@,
            day_views(calendar.days@),
        ),
{
    let widths: Vec<usize> = vec![10, 5, 5, 5, 15, 5, 6];
    assert(widths@ == calendar_widths());
    let mut title = "Attendance for ".to_owned();
    title.append(calendar.month.year_month().as_str());
    title.append(" (employee ");
    title.append(calendar.employee_id.as_str());
    title.append(")");
    let mut lines: Vec<String> = Vec::new();
    add_line(&mut lines, title);
    add_line(&mut lines, "".to_owned());
    let head: Vec<&str> = vec!["Date", "Day", "Entry", "Exit", "Type", "Hours", "Status"];
    assert(strs(head@) == seq![
        "Date"@,
        "Day"@,
        "Entry"@,
        "Exit"@,
        "Type"@,
        "Hours"@,
        "Status"@,
    ]);
    add_line(&mut lines, row_text(&head, &widths));
    add_line(&mut lines, rule_text(&widths));
    assert(texts(lines@) == calendar_head(calendar.month@, calendar.employee_id@));
    let total: usize = calendar.days.len();
    let reported_days: usize = calendar_rows(&calendar.days, &mut lines);
    let found = error_days(calendar);
    let errors: usize = found.len();
    assert(day_views(found@).len() == errors);
    let rest: usize = total - reported_days;
    let missing: usize = if rest < errors {
        0
    } else {
        rest - errors
    };
    let mut totals = decimal_text(total as u64);
    totals.append(" days: ");
    totals.append(decimal_text(reported_days as u64).as_str());
    totals.append(" reported, ");
    totals.append(decimal_text(errors as u64).as_str());
    totals.append(" errors, ");
    totals.append(decimal_text(missing as u64).as_str());
    totals.append(" missing");
    assert(totals@ == calendar_totals(day_views(calendar.days@)));
    let ghost before = texts(lines@);
    let ghost last = totals@;
    add_line(&mut lines, "".to_owned());
    add_line(&mut lines, totals);
    assert(before.push(""@).push(last) == before + seq![""@, last]);
    lines
}

// ---------------------------------------------------------------------------
// Days that were filled
// ---------------------------------------------------------------------------

/// How a day that was to be filled came out.
pub open spec fn status_part(day: FilledView) -> Seq<char> {
    if day.status == "would_fill"@ {
        " [would fill]"@
    } else if day.status == "success"@ {
        " [filled]"@
    } else if day.status == "failed"@ {
        " [FAILED: "@ + text_or(day.error, "unknown error"@) + "]"@
    } else {
        " ["@ + day.status + "]"@
    }
}

/// A day that was filled, or would be.
pub open spec fn filled_line(day: FilledView) -> Seq<char> {
    "  "@ + day.date + " \u{2014} "@ + day.attendance_type + match day.hours {
        Some(hours) => " "@ + hours,
        None => ""@,
    } + status_part(day)
}

/// Writes a day that was filled, or would be.
fn filled_text(day: &AutoFillDayResult) -> (line: String)
    ensures
        line@ == filled_line(day@),
{
    let status = if same(day.status.as_str(), "would_fill") {
        " [would fill]".to_owned()
    } else if same(day.status.as_str(), "success") {
        " [filled]".to_owned()
    } else if same(day.status.as_str(), "failed") {
        let mut text = " [FAILED: ".to_owned();
        text.append(text_or_else(&day.error, "unknown error"));
        text.append("]");
        text
    } else {
        let mut text = " [".to_owned();
        text.append(day.status.as_str());
        text.append("]");
        text
    };
    assert(status@ == status_part(day@));
    let hours = match &day.hours {
        Some(hours) => {
            let mut text = " ".to_owned();
            text.append(hours.as_str());
            text
        },
        None => "".to_owned(),
    };
    let mut line = "  ".to_owned();
    line.append(day.date.as_str());
    line.append(" \u{2014} ");
    line.append(day.attendance_type.as_str());
    line.append(hours.as_str());
    line.append(status.as_str());
    line
}

/// The lines of the days that were left because they hold part of a report.
pub open spec fn partial_lines(skipped: Seq<(Seq<char>, Seq<char>)>) -> Seq<Seq<char>>
    decreases skipped.len(),
{
    if skipped.len() == 0 {
        seq![]
    } else {
        let before = partial_lines(skipped.drop_last());
        if skipped.last().1 == "partial_data"@ {
            before.push("  "@ + skipped.last().0 + " \u{2014} skipped (partial data)"@)
        } else {
            before
        }
    }
}

/// Lists the days that were left because they hold part of a report.
fn partial_days(skipped: &Vec<SkippedDay>) -> (lines: Vec<String>)
    ensures
        texts(lines@) == partial_lines(skipped_views(skipped@)),
{
    let ghost all = skipped_views(skipped@);
    let mut lines: Vec<String> = Vec::new();
    let mut i: usize = 0;
    assert(texts(lines@) == partial_lines(all.take(0)));
    while i < skipped.len()
        invariant
            i <= skipped.len(),
            all == skipped_views(skipped@),
            texts(lines@) == partial_lines(all.take(i as int)),
        decreases skipped.len() - i,
    {
        assert(all.take(i + 1).drop_last() == all.take(i as int));
        assert(all.take(i + 1).last() == (skipped@[i as int].date@, skipped@[i as int].reason@));
        if same(skipped[i].reason.as_str(), "partial_data") {
            let mut line = "  ".to_owned();
            line.append(skipped[i].date.as_str());
            line.append(" \u{2014} skipped (partial data)");
            add_line(&mut lines, line);
        }
        i = i + 1;
    }
    assert(all.take(all.len() as int) == all);
    lines
}

/// The lines about the days that hold part of a report, with their heading.
pub open spec fn partial_section(skipped: Seq<(Seq<char>, Seq<char>)>) -> Seq<Seq<char>> {
    let partial = partial_lines(skipped);
    if partial.len() == 0 {
        seq![]
    } else {
        seq![""@, "Skipped (partial data):"@] + partial
    }
}

/// The last lines about a month that was filled.
pub open spec fn fill_summary(result: AutoFillResult) -> Seq<Seq<char>> {
    let summary = result.summary;
    if result.mode@ == "dry_run"@ {
        seq![
            ""@,
            "Summary: "@ + decimal(summary.total_candidates as nat) + " days to fill, "@ + decimal(
                summary.skipped as nat,
            ) + " skipped"@,
            "Run with --execute to submit."@,
        ]
    } else {
        seq![
            ""@,
            "Summary: "@ + decimal(summary.filled as nat) + " filled, "@ + decimal(
                summary.failed as nat,
            ) + " failed, "@ + decimal(summary.skipped as nat) + " skipped"@,
        ]
    }
}

/// The first lines about a month that was filled.
pub open spec fn fill_head(result: AutoFillResult) -> Seq<Seq<char>> {
    seq![
        "Auto-fill "@ + result.month@ + if result.mode@ == "dry_run"@ {
            " [DRY RUN]"@
        } else {
            ""@
        },
        ""@,
    ]
}

/// What became of the days of a month, as it is shown.
pub open spec fn fill_report(result: AutoFillResult) -> Seq<Seq<char>> {
    fill_head(result) + result.filled@.map_values(|day: AutoFillDayResult| filled_line(day@))
        + partial_section(skipped_views(result.skipped@)) + fill_summary(result)
}

/// Lines put behind lines.
pub(crate) fn add_lines(lines: &mut Vec<String>, more: Vec<String>)
    ensures
        texts(final(lines)@) == texts(old(lines)@) + texts(more@),
{
    let ghost start = texts(lines@);
    let ghost all = texts(more@);
    let mut i: usize = 0;
    assert(start + all.take(0) == start);
    while i < more.len()
        invariant
            i <= more.len(),
            all == texts(more@),
            texts(lines@) == start + all.take(i as int),
        decreases more.len() - i,
    {
        assert(start + all.take(i + 1) == (start + all.take(i as int)).push(all[i as int]));
        add_line(lines, more[i].clone());
        i = i + 1;
    }
    assert(all.take(all.len() as int) == all);
}

/// The last lines about a month that was filled.
fn fill_summary_lines(result: &AutoFillResult) -> (lines: Vec<String>)
    ensures
        texts(lines@) == fill_summary(*result),
{
    let mut lines: Vec<String> = Vec::new();
    add_line(&mut lines, "".to_owned());
    let mut line = "Summary: ".to_owned();
    if same(result.mode.as_str(), "dry_run") {
        line.append(decimal_text(result.summary.total_candidates as u64).as_str());
        line.append(" days to fill, ");
        line.append(decimal_text(result.summary.skipped as u64).as_str());
        line.append(" skipped");
        add_line(&mut lines, line);
        add_line(&mut lines, "Run with --execute to submit.".to_owned());
    } else {
        line.append(decimal_text(result.summary.filled as u64).as_str());
        line.append(" filled, ");
        line.append(decimal_text(result.summary.failed as u64).as_str());
        line.append(" failed, ");
        line.append(decimal_text(result.summary.skipped as u64).as_str());
        line.append(" skipped");
        add_line(&mut lines, line);
    }
    assert(texts(lines@) == fill_summary(*result));
    lines
}

/// Shows what became of the days of a month.
pub fn auto_fill_lines(result: &AutoFillResult) -> (lines: Vec<String>)
    ensures
        texts(lines@) == fill_report(*result),
{
    let mut title = "Auto-fill ".to_owned();
    title.append(result.month.as_str());
    title.append(
        if same(result.mode.as_str(), "dry_run") {
            " [DRY RUN]"
        } else {
            ""
        },
    );
    let mut lines: Vec<String> = Vec::new();
    add_line(&mut lines, title);
    add_line(&mut lines, "".to_owned());
    let ghost head = fill_head(*result);
    assert(texts(lines@) == head);
    let ghost filled = result.filled@.map_values(|day: AutoFillDayResult| filled_line(day@));
    let mut i: usize = 0;
    assert(head + filled.take(0) == head);
    while i < result.filled.len()
        invariant
            i <= result.filled.len(),
            filled == result.filled@.map_values(|day: AutoFillDayResult| filled_line(day@)),
            texts(lines@) == head + filled.take(i as int),
        decreases result.filled.len() - i,
    {
        assert(head + filled.take(i + 1) == (head + filled.take(i as int)).push(
            filled_line(result.filled@[i as int]@),
        ));
        add_line(&mut lines, filled_text(&result.filled[i]));
        i = i + 1;
    }
    assert(filled.take(filled.len() as int) == filled);
    let partial = partial_days(&result.skipped);
    assert(texts(partial@).len() == partial.len());
    let mut section: Vec<String> = Vec::new();
    assert(texts(section@) == Seq::<Seq<char>>::empty());
    if partial.len() > 0 {
        add_line(&mut section, "".to_owned());
        add_line(&mut section, "Skipped (partial data):".to_owned());
        assert(texts(section@) == seq![""@, "Skipped (partial data):"@]);
        add_lines(&mut section, partial);
    }
    assert(texts(section@) == partial_section(skipped_views(result.skipped@)));
    add_lines(&mut lines, section);
    add_lines(&mut lines, fill_summary_lines(result));
    lines
}

// ---------------------------------------------------------------------------
// Kinds of attendance
// ---------------------------------------------------------------------------

/// The greatest of some lengths and a least one.
pub open spec fn widest(lengths: Seq<nat>, least: nat) -> nat
    decreases lengths.len(),
{
    if lengths.len() == 0 {
        least
    } else {
        let before = widest(lengths.drop_last(), least);
        if lengths.last() > before {
            lengths.last()
        } else {
            before
        }
    }
}

/// The bytes that the codes of kinds take.
pub open spec fn code_lengths(types: Seq<TypeView>) -> Seq<nat> {
    types.map_values(|item: TypeView| byte_len(item.code))
}

/// The bytes that the Hebrew names of kinds take.
pub open spec fn hebrew_lengths(types: Seq<TypeView>) -> Seq<nat> {
    types.map_values(|item: TypeView| byte_len(item.name_he))
}

/// The bytes that the English names of kinds take.
pub open spec fn english_lengths(types: Seq<TypeView>) -> Seq<nat> {
    types.map_values(
        |item: TypeView|
            match item.name_en {
                Some(name) => byte_len(name),
                None => 0,
            },
    )
}

/// The columns of a table of kinds: as wide as the longest of their cells is
/// in bytes, and at least as wide as their headings.
pub open spec fn type_widths(types: Seq<TypeView>) -> Seq<usize> {
    seq![
        widest(code_lengths(types), 4) as usize,
        widest(hebrew_lengths(types), 6) as usize,
        widest(english_lengths(types), 7) as usize,
    ]
}

/// A kind as a row.
pub open spec fn type_row(item: TypeView, widths: Seq<usize>) -> Seq<char> {
    row_line(seq![item.code, item.name_he, text_or(item.name_en, ""@)], widths)
}

/// A table of kinds.
pub open spec fn type_table(types: Seq<TypeView>) -> Seq<Seq<char>> {
    seq![
        row_line(seq!["Code"@, "Hebrew"@, "English"@], type_widths(types)),
        rule_line(type_widths(types)),
    ] + types.map_values(|item: TypeView| type_row(item, type_widths(types)))
}

/// The columns of a table of kinds.
fn widths_of_types(types: &Vec<AttendanceType>) -> (widths: Vec<usize>)
    ensures
        widths@ == type_widths(type_views(types@)),
{
    let ghost all = type_views(types@);
    let ghost codes = code_lengths(all);
    let ghost hebrew = hebrew_lengths(all);
    let ghost english = english_lengths(all);
    let mut code_width: usize = 4;
    let mut hebrew_width: usize = 6;
    let mut english_width: usize = 7;
    let mut i: usize = 0;
    while i < types.len()
        invariant
            i <= types.len(),
            all == type_views(types@),
            codes == code_lengths(all),
            hebrew == hebrew_lengths(all),
            english == english_lengths(all),
            code_width == widest(codes.take(i as int), 4),
            hebrew_width == widest(hebrew.take(i as int), 6),
            english_width == widest(english.take(i as int), 7),
        decreases types.len() - i,
    {
        assert(all[i as int] == types@[i as int]@);
        assert(codes.take(i + 1).drop_last() == codes.take(i as int));
        assert(hebrew.take(i + 1).drop_last() == hebrew.take(i as int));
        assert(english.take(i + 1).drop_last() == english.take(i as int));
        let code: usize = types[i].code.as_str().len();
        let name_he: usize = types[i].name_he.as_str().len();
        let name_en: usize = match &types[i].name_en {
            Some(name) => name.as_str().len(),
            None => 0,
        };
        if code > code_width {
            code_width = code;
        }
        if name_he > hebrew_width {
            hebrew_width = name_he;
        }
        if name_en > english_width {
            english_width = name_en;
        }
        i = i + 1;
    }
    assert(codes.take(codes.len() as int) == codes);
    assert(hebrew.take(hebrew.len() as int) == hebrew);
    assert(english.take(english.len() as int) == english);
    let widths: Vec<usize> = vec![code_width, hebrew_width, english_width];
    assert(widths@ == type_widths(all));
    widths
}

/// Writes a table of kinds.
fn type_table_lines(types: &Vec<AttendanceType>) -> (lines: Vec<String>)
    ensures
        texts(lines@) == type_table(type_views(types@)),
{
    let ghost all = type_views(types@);
    let widths = widths_of_types(types);
    let mut lines: Vec<String> = Vec::new();
    let head: Vec<&str> = vec!["Code", "Hebrew", "English"];
    assert(strs(head@) == seq!["Code"@, "Hebrew"@, "English"@]);
    add_line(&mut lines, row_text(&head, &widths));
    add_line(&mut lines, rule_text(&widths));
    let ghost start = texts(lines@);
    let ghost rows = all.map_values(|item: TypeView| type_row(item, type_widths(all)));
    assert(start == seq![
        row_line(seq!["Code"@, "Hebrew"@, "English"@], type_widths(all)),
        rule_line(type_widths(all)),
    ]);
    assert(start + rows.take(0) == start);
    let mut i: usize = 0;
    while i < types.len()
        invariant
            i <= types.len(),
            all == type_views(types@),
            widths@ == type_widths(all),
            rows == all.map_values(|item: TypeView| type_row(item, type_widths(all))),
            texts(lines@) == start + rows.take(i as int),
        decreases types.len() - i,
    {
        let cells: Vec<&str> = vec![
            types[i].code.as_str(),
            types[i].name_he.as_str(),
            text_or_else(&types[i].name_en, ""),
        ];
        assert(strs(cells@) == seq![
            all[i as int].code,
            all[i as int].name_he,
            text_or(all[i as int].name_en, ""@),
        ]);
        assert(start + rows.take(i + 1) == (start + rows.take(i as int)).push(rows[i as int]));
        add_line(&mut lines, row_text(&cells, &widths));
        i = i + 1;
    }
    assert(rows.take(rows.len() as int) == rows);
    lines
}

/// Shows the kinds of attendance.
pub fn attendance_type_lines(types: &Vec<AttendanceType>) -> (lines: Vec<String>)
    ensures
        texts(lines@) == if types@.len() == 0 {
            seq!["No attendance types found."@]
        } else {
            type_table(type_views(types@))
        },
{
    if types.len() == 0 {
        let mut lines: Vec<String> = Vec::new();
        add_line(&mut lines, "No attendance types found.".to_owned());
        assert(texts(lines@) == seq!["No attendance types found."@]);
        lines
    } else {
        type_table_lines(types)
    }
}

/// Shows the kinds of attendance of an organization and when they were
/// fetched. There is nothing to show where that moment has no place in the
/// calendar.
pub fn ontology_lines(ontology: &OrgOntology) -> (lines: Option<Vec<String>>)
    ensures
        match (lines, minute_text(ontology.fetched_at.seconds as int)) {
            (Some(lines), Some(minute)) => texts(lines@) == type_table(type_views(ontology.types@))
                + seq![""@, "Cached from "@ + ontology.subdomain@ + " at "@ + minute],
            (None, None) => true,
            _ => false,
        },
{
    let minute = match minute_of(ontology.fetched_at.seconds) {
        Some(minute) => minute,
        None => {
            return None;
        },
    };
    let mut lines = type_table_lines(&ontology.types);
    let ghost before = texts(lines@);
    let mut last = "Cached from ".to_owned();
    last.append(ontology.subdomain.as_str());
    last.append(" at ");
    last.append(minute.as_str());
    let ghost text = last@;
    add_line(&mut lines, "".to_owned());
    add_line(&mut lines, last);
    assert(before.push(""@).push(text) == before + seq![""@, text]);
    Some(lines)
}

// ---------------------------------------------------------------------------
// Symbols of absence
// ---------------------------------------------------------------------------

/// A symbol as a row.
pub open spec fn symbol_row(symbol: SymbolView) -> Seq<char> {
    left_aligned(symbol.id, 6) + "  "@ + left_aligned(symbol.name, 20) + "  "@ + text_or(
        symbol.display_name,
        ""@,
    )
}

/// A table of symbols.
pub open spec fn symbol_table(symbols: Seq<SymbolView>) -> Seq<Seq<char>> {
    if symbols.len() == 0 {
        seq!["No absence symbols found."@]
    } else {
        seq![
            left_aligned("ID"@, 6) + "  "@ + left_aligned("Name"@, 20) + "  "@ + "Display"@,
            rule_line(seq![6usize, 20, 30]),
        ] + symbols.map_values(|symbol: SymbolView| symbol_row(symbol))
    }
}

/// Writes three cells, the last as it is.
fn symbol_text(id: &str, name: &str, display: &str) -> (line: String)
    ensures
        line@ == left_aligned(id@, 6) + "  "@ + left_aligned(name@, 20) + "  "@ + display@,
{
    let mut line = left_align(id, 6);
    line.append("  ");
    line.append(left_align(name, 20).as_str());
    line.append("  ");
    line.append(display);
    line
}

/// Shows the symbols of absence.
pub fn absence_symbol_lines(symbols: &Vec<AbsenceSymbol>) -> (lines: Vec<String>)
    ensures
        texts(lines@) == symbol_table(symbol_views(symbols@)),
{
    let ghost all = symbol_views(symbols@);
    let mut lines: Vec<String> = Vec::new();
    if symbols.len() == 0 {
        add_line(&mut lines, "No absence symbols found.".to_owned());
        assert(texts(lines@) == seq!["No absence symbols found."@]);
        return lines;
    }
    add_line(&mut lines, symbol_text("ID", "Name", "Display"));
    let widths: Vec<usize> = vec![6, 20, 30];
    assert(widths@ == seq![6usize, 20, 30]);
    add_line(&mut lines, rule_text(&widths));
    let ghost start = texts(lines@);
    assert(start == seq![
        left_aligned("ID"@, 6) + "  "@ + left_aligned("Name"@, 20) + "  "@ + "Display"@,
        rule_line(seq![6usize, 20, 30]),
    ]);
    let ghost rows = all.map_values(|symbol: SymbolView| symbol_row(symbol));
    assert(start + rows.take(0) == start);
    let mut i: usize = 0;
    while i < symbols.len()
        invariant
            i <= symbols.len(),
            all == symbol_views(symbols@),
            rows == all.map_values(|symbol: SymbolView| symbol_row(symbol)),
            texts(lines@) == start + rows.take(i as int),
        decreases symbols.len() - i,
    {
        assert(rows[i as int] == symbol_row(symbols@[i as int]@));
        assert(start + rows.take(i + 1) == (start + rows.take(i as int)).push(rows[i as int]));
        let line = symbol_text(
            symbols[i].id.as_str(),
            symbols[i].name.as_str(),
            text_or_else(&symbols[i].display_name, ""),
        );
        add_line(&mut lines, line);
        i = i + 1;
    }
    assert(rows.take(rows.len() as int) == rows);
    lines
}

// ---------------------------------------------------------------------------
// Reports
// ---------------------------------------------------------------------------

/// The greater of two numbers.
pub open spec fn greater(a: nat, b: nat) -> nat {
    if a < b {
        b
    } else {
        a
    }
}

/// How many cells the longest of some rows has, and at least `least`.
pub open spec fn longest(rows: Seq<Seq<Seq<char>>>, least: nat) -> nat
    decreases rows.len(),
{
    if rows.len() == 0 {
        least
    } else {
        greater(longest(rows.drop_last(), least), rows.last().len())
    }
}

/// A cell of a row; a row that ends before it has an empty one there.
pub open spec fn cell_at(row: Seq<Seq<char>>, column: int) -> Seq<char> {
    if column < row.len() {
        row[column]
    } else {
        ""@
    }
}

/// How many characters the longest cell of a column has.
pub open spec fn column_length(
    headers: Seq<Seq<char>>,
    rows: Seq<Seq<Seq<char>>>,
    column: int,
) -> nat
    decreases rows.len(),
{
    if rows.len() == 0 {
        cell_at(headers, column).len()
    } else {
        greater(
            column_length(headers, rows.drop_last(), column),
            cell_at(rows.last(), column).len(),
        )
    }
}

/// How wide a column is shown: as its longest cell, but from 2 to 40.
pub open spec fn shown_width(length: nat) -> usize {
    if length < 2 {
        2
    } else if length > 40 {
        40
    } else {
        length as usize
    }
}

/// The columns of a report.
pub open spec fn report_widths(
    headers: Seq<Seq<char>>,
    rows: Seq<Seq<Seq<char>>>,
) -> Seq<usize> {
    Seq::new(
        longest(rows, headers.len()),
        |column: int| shown_width(column_length(headers, rows, column)),
    )
}

/// A value cut or filled up to a width.
pub open spec fn fitted(value: Seq<char>, width: nat) -> Seq<char> {
    if value.len() > width {
        value.take(width as int)
    } else {
        left_aligned(value, width)
    }
}

/// A row of a report.
pub open spec fn report_row(row: Seq<Seq<char>>, widths: Seq<usize>) -> Seq<char> {
    joined(
        Seq::new(
            widths.len(),
            |column: int| fitted(cell_at(row, column), widths[column] as nat),
        ),
        "  "@,
    )
}

/// A report as it is shown.
pub open spec fn report_table(
    headers: Seq<Seq<char>>,
    rows: Seq<Seq<Seq<char>>>,
) -> Seq<Seq<char>> {
    let widths = report_widths(headers, rows);
    if headers.len() == 0 && rows.len() == 0 {
        seq!["(empty report - no data rows found)"@]
    } else if widths.len() == 0 {
        seq!["(empty report - no columns found)"@]
    } else {
        report_head(headers, widths) + rows.map_values(
            |row: Seq<Seq<char>>| report_row(row, widths),
        ) + seq![""@, "("@ + decimal(rows.len()) + " rows)"@]
    }
}

/// The lines above the rows of a report.
pub open spec fn report_head(headers: Seq<Seq<char>>, widths: Seq<usize>) -> Seq<Seq<char>> {
    if headers.len() == 0 {
        seq![]
    } else {
        seq![report_row(headers, widths), rule_line(widths)]
    }
}

/// Rows that are joined have the same length where their cells have.
proof fn joined_lengths(a: Seq<Seq<char>>, b: Seq<Seq<char>>, separator: Seq<char>)
    requires
        a.len() == b.len(),
        forall|i: int| 0 <= i < a.len() ==> (#[trigger] a[i]).len() == b[i].len(),
    ensures
        joined(a, separator).len() == joined(b, separator).len(),
    decreases a.len(),
{
    if a.len() > 1 {
        assert forall|i: int| 0 <= i < a.drop_last().len() implies (#[trigger] a.drop_last()[i]).len()
            == b.drop_last()[i].len() by {
            assert(a[i].len() == b[i].len());
        }
        joined_lengths(a.drop_last(), b.drop_last(), separator);
        assert(a[a.len() - 1].len() == b[b.len() - 1].len());
    } else if a.len() == 1 {
        assert(a[0].len() == b[0].len());
    }
}

/// The columns of a report line up: all its rows are shown in lines of the
/// same length.
pub proof fn report_rows_line_up(a: Seq<Seq<char>>, b: Seq<Seq<char>>, widths: Seq<usize>)
    ensures
        report_row(a, widths).len() == report_row(b, widths).len(),
{
    let left = Seq::new(
        widths.len(),
        |column: int| fitted(cell_at(a, column), widths[column] as nat),
    );
    let right = Seq::new(
        widths.len(),
        |column: int| fitted(cell_at(b, column), widths[column] as nat),
    );
    joined_lengths(left, right, "  "@);
}

/// Cuts a value or fills it up to a width.
pub fn pad_or_truncate(value: &str, width: usize) -> (text: String)
    ensures
        text@ == fitted(value@, width as nat),
{
    let chars = chars_of(value);
    if chars.len() > width {
        let text = slice_text(&chars, 0, width);
        assert(text@ == value@.take(width as int));
        text
    } else {
        left_align(value, width)
    }
}

/// The length of a cell, which is none where the row ends before it.
fn cell_length(row: &Vec<String>, column: usize) -> (length: usize)
    ensures
        length == cell_at(texts(row@), column as int).len(),
{
    if column < row.len() {
        row[column].as_str().unicode_len()
    } else {
        proof {
            reveal_strlit("");
        }
        0
    }
}

/// The columns of a report.
fn widths_of_report(table: &ReportTable) -> (widths: Vec<usize>)
    ensures
        widths@ == report_widths(texts(table.headers@), row_texts(table.rows@)),
{
    let ghost headers = texts(table.headers@);
    let ghost rows = row_texts(table.rows@);
    let mut columns: usize = table.headers.len();
    let mut i: usize = 0;
    while i < table.rows.len()
        invariant
            i <= table.rows.len(),
            rows == row_texts(table.rows@),
            headers == texts(table.headers@),
            columns == longest(rows.take(i as int), headers.len()),
        decreases table.rows.len() - i,
    {
        assert(rows.take(i + 1).drop_last() == rows.take(i as int));
        assert(rows.take(i + 1).last().len() == table.rows@[i as int]@.len());
        if table.rows[i].len() > columns {
            columns = table.rows[i].len();
        }
        i = i + 1;
    }
    assert(rows.take(rows.len() as int) == rows);
    let mut widths: Vec<usize> = Vec::new();
    while widths.len() < columns
        invariant
            widths.len() <= columns,
            rows == row_texts(table.rows@),
            headers == texts(table.headers@),
            forall|k: int|
                0 <= k < widths.len() ==> #[trigger] widths@[k] == shown_width(
                    column_length(headers, rows, k),
                ),
        decreases columns - widths.len(),
    {
        let column: usize = widths.len();
        let mut length: usize = cell_length(&table.headers, column);
        let mut j: usize = 0;
        while j < table.rows.len()
            invariant
                j <= table.rows.len(),
                rows == row_texts(table.rows@),
                length == column_length(headers, rows.take(j as int), column as int),
            decreases table.rows.len() - j,
        {
            assert(rows.take(j + 1).drop_last() == rows.take(j as int));
            assert(rows.take(j + 1).last() == texts(table.rows@[j as int]@));
            let cell: usize = cell_length(&table.rows[j], column);
            if cell > length {
                length = cell;
            }
            j = j + 1;
        }
        assert(rows.take(rows.len() as int) == rows);
        widths.push(
            if length < 2 {
                2
            } else if length > 40 {
                40
            } else {
                length
            },
        );
    }
    assert(widths@ == report_widths(headers, rows));
    widths
}

/// Writes a row of a report.
fn report_row_text(row: &Vec<String>, widths: &Vec<usize>) -> (line: String)
    ensures
        line@ == report_row(texts(row@), widths@),
{
    let mut parts: Vec<String> = Vec::new();
    let mut i: usize = 0;
    while i < widths.len()
        invariant
            i <= widths.len(),
            parts.len() == i,
            forall|k: int|
                0 <= k < i ==> (#[trigger] parts@[k])@ == fitted(
                    cell_at(texts(row@), k),
                    widths@[k] as nat,
                ),
        decreases widths.len() - i,
    {
        let value = if i < row.len() {
            row[i].as_str()
        } else {
            ""
        };
        assert(value@ == cell_at(texts(row@), i as int));
        parts.push(pad_or_truncate(value, widths[i]));
        i = i + 1;
    }
    assert(texts(parts@) == Seq::new(
        widths@.len(),
        |column: int| fitted(cell_at(texts(row@), column), widths@[column] as nat),
    ));
    join(&parts, "  ")
}

/// Shows a report.
pub fn report_lines(table: &ReportTable) -> (lines: Vec<String>)
    ensures
        texts(lines@) == report_table(texts(table.headers@), row_texts(table.rows@)),
{
    let ghost headers = texts(table.headers@);
    let ghost all = row_texts(table.rows@);
    let mut lines: Vec<String> = Vec::new();
    if table.headers.len() == 0 && table.rows.len() == 0 {
        add_line(&mut lines, "(empty report - no data rows found)".to_owned());
        assert(texts(lines@) == seq!["(empty report - no data rows found)"@]);
        return lines;
    }
    let widths = widths_of_report(table);
    if widths.len() == 0 {
        add_line(&mut lines, "(empty report - no columns found)".to_owned());
        assert(texts(lines@) == seq!["(empty report - no columns found)"@]);
        return lines;
    }
    if table.headers.len() > 0 {
        add_line(&mut lines, report_row_text(&table.headers, &widths));
        add_line(&mut lines, rule_text(&widths));
    }
    let ghost start = texts(lines@);
    assert(start == report_head(headers, widths@));
    let ghost rows = all.map_values(|row: Seq<Seq<char>>| report_row(row, widths@));
    assert(start + rows.take(0) == start);
    let mut i: usize = 0;
    while i < table.rows.len()
        invariant
            i <= table.rows.len(),
            all == row_texts(table.rows@),
            rows == all.map_values(|row: Seq<Seq<char>>| report_row(row, widths@)),
            texts(lines@) == start + rows.take(i as int),
        decreases table.rows.len() - i,
    {
        assert(all[i as int] == texts(table.rows@[i as int]@));
        assert(start + rows.take(i + 1) == (start + rows.take(i as int)).push(rows[i as int]));
        add_line(&mut lines, report_row_text(&table.rows[i], &widths));
        i = i + 1;
    }
    assert(rows.take(rows.len() as int) == rows);
    let ghost before = texts(lines@);
    let mut count = "(".to_owned();
    count.append(decimal_text(table.rows.len() as u64).as_str());
    count.append(" rows)");
    let ghost last = count@;
    add_line(&mut lines, "".to_owned());
    add_line(&mut lines, count);
    assert(before.push(""@).push(last) == before + seq![""@, last]);
    lines
}

} // verus!
