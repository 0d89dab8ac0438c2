//! Laws of what is shown on lines: which part of a record stands in which
//! column, and what the numbers count.

use crate::api::SymbolView;
use crate::cli::{
    command_hint, detail_line, missing_line, month_line, overview_text, provider_preview_text,
    salary_text, section, source_label, submit_preview_text,
};
use crate::date::{day_number, iso_text, month_text, weekday_text, CalendarDate};
use crate::forms::byte_len;
use crate::hr_core::{
    debug_text, reported, work_day, AttendanceSource, DayView, PreviewView, SalaryEntry, TypeView,
};
use crate::months::date_views;
use crate::render::{
    calendar_cells, calendar_head, calendar_table, calendar_widths, cell_at, column_length,
    employee_error_list, error_day_list, error_row, fill_report, fill_summary, filled_line, fitted,
    longest, partial_lines, partial_section, report_row, report_table, report_widths,
    reported_count, row_line, shown_width, symbol_row, symbol_table, type_row, type_table,
    type_widths, widest,
};
use crate::submit::ShownWrite;
use crate::text::{decimal, joined, left_aligned};
use crate::use_cases::{
    with_error, AutoFillResult, FilledView, OverviewData, OverviewSummary, PlanView,
};
use vstd::prelude::*;

verus! {

// ---------------------------------------------------------------------------
// Days
// ---------------------------------------------------------------------------

/// A text, or a dash where there is none.
pub open spec fn text_or_dash(text: Option<Seq<char>>) -> Seq<char> {
    match text {
        Some(text) => text,
        None => "-"@,
    }
}

/// A text, or nothing where there is none.
pub open spec fn text_or_nothing(text: Option<Seq<char>>) -> Seq<char> {
    match text {
        Some(text) => text,
        None => ""@,
    }
}

proof fn three_joined(a: Seq<char>, b: Seq<char>, c: Seq<char>, mark: Seq<char>)
    ensures
        joined(seq![a, b, c], mark) == a + mark + b + mark + c,
{
    reveal_with_fuel(joined, 4);
    assert(seq![a, b, c].drop_last() == seq![a, b]);
    assert(seq![a, b].drop_last() == seq![a]);
}

proof fn seven_joined(cells: Seq<Seq<char>>, mark: Seq<char>)
    requires
        cells.len() == 7,
    ensures
        joined(cells, mark) == cells[0] + mark + cells[1] + mark + cells[2] + mark + cells[3] + mark
            + cells[4] + mark + cells[5] + mark + cells[6],
{
    reveal_with_fuel(joined, 8);
    let six = cells.drop_last();
    let five = six.drop_last();
    let four = five.drop_last();
    let three = four.drop_last();
    let two = three.drop_last();
    let one = two.drop_last();
    assert(joined(one, mark) == cells[0]);
    assert(joined(two, mark) == cells[0] + mark + cells[1]);
}

/// A day stands on its line with its date, its day of the week, its entry, its
/// exit, its kind, its hours and how it stands, in this order.
pub proof fn a_day_stands_on_its_line(
    month: CalendarDate,
    employee: Seq<char>,
    days: Seq<DayView>,
    at: int,
)
    requires
        0 <= at < days.len(),
    ensures
        calendar_table(month, employee, days).len() == days.len() + 6,
        calendar_table(month, employee, days)[at + 4] == left_aligned(iso_text(days[at].date), 10)
            + "  "@ + left_aligned(days[at].day_name, 5) + "  "@ + left_aligned(
            text_or_dash(days[at].entry_time),
            5,
        ) + "  "@ + left_aligned(text_or_dash(days[at].exit_time), 5) + "  "@ + left_aligned(
            text_or_dash(days[at].attendance_type),
            15,
        ) + "  "@ + left_aligned(text_or_dash(days[at].total_hours), 5) + "  "@ + left_aligned(
            if days[at].has_error {
                "x"@
            } else if days[at].source == AttendanceSource::UserReported || days[at].source
                == AttendanceSource::Holiday {
                "ok"@
            } else {
                "?"@
            },
            6,
        ),
{
    let cells = crate::render::aligned(calendar_cells(days[at]), calendar_widths());
    seven_joined(cells, "  "@);
    let head = calendar_head(month, employee);
    assert(head.len() == 4);
    assert(calendar_table(month, employee, days)[at + 4] == row_line(
        calendar_cells(days[at]),
        calendar_widths(),
    ));
}

/// In detail a day stands on its line with the same, where it came from, and
/// whether it has an error.
pub proof fn a_day_stands_on_its_line_in_detail(day: DayView)
    ensures
        detail_line(day) == left_aligned(iso_text(day.date), 10) + "  "@ + left_aligned(
            day.day_name,
            5,
        ) + "  "@ + left_aligned(text_or_nothing(day.entry_time), 5) + "  "@ + left_aligned(
            text_or_nothing(day.exit_time),
            5,
        ) + "  "@ + left_aligned(text_or_nothing(day.attendance_type), 20) + "  "@ + left_aligned(
            match day.source {
                AttendanceSource::UserReported => "user"@,
                AttendanceSource::SystemAutoFill => "auto"@,
                AttendanceSource::Holiday => "holiday"@,
                AttendanceSource::Unreported => ""@,
            },
            9,
        ) + "  "@ + left_aligned(text_or_nothing(day.total_hours), 5) + ("  "@ + if day.has_error {
            "yes"@
        } else {
            ""@
        }),
{
    let cells = crate::render::aligned(
        seq![
            iso_text(day.date),
            day.day_name,
            crate::render::text_or(day.entry_time, ""@),
            crate::render::text_or(day.exit_time, ""@),
            crate::render::text_or(day.attendance_type, ""@),
            source_label(day.source),
            crate::render::text_or(day.total_hours, ""@),
        ],
        crate::cli::detail_widths(),
    );
    seven_joined(cells, "  "@);
}

/// A day counts as reported where one reported it or the organization set it.
pub proof fn a_day_is_reported_by_its_source(day: DayView)
    ensures
        reported(day) <==> day.source == AttendanceSource::UserReported || day.source
            == AttendanceSource::Holiday,
        work_day(day.date) <==> 0 <= day_number(day.date) % 7 <= 4,
{
}

proof fn found_are_those_with_errors(days: Seq<DayView>)
    ensures
        with_error(days) == days.filter(|day: DayView| day.has_error),
        reported_count(days) == days.filter(
            |day: DayView|
                day.source == AttendanceSource::UserReported || day.source
                    == AttendanceSource::Holiday,
        ).len(),
    decreases days.len(),
{
    reveal(Seq::filter);
    if days.len() > 0 {
        found_are_those_with_errors(days.drop_last());
    }
}

/// The last line of a month counts its days, those reported, those with errors,
/// and what is left as missing.
pub proof fn the_last_line_counts_the_days(
    month: CalendarDate,
    employee: Seq<char>,
    days: Seq<DayView>,
)
    ensures
        ({
            let known = days.filter(
                |day: DayView|
                    day.source == AttendanceSource::UserReported || day.source
                        == AttendanceSource::Holiday,
            ).len() as int;
            let errors = days.filter(|day: DayView| day.has_error).len() as int;
            let left = days.len() - known - errors;
            calendar_table(month, employee, days).last() == decimal(days.len()) + " days: "@
                + decimal(known as nat) + " reported, "@ + decimal(errors as nat) + " errors, "@
                + decimal(
                (if left > 0 {
                    left
                } else {
                    0
                }) as nat,
            ) + " missing"@
        }),
{
    found_are_those_with_errors(days);
    let lambda = |day: DayView|
        day.source == AttendanceSource::UserReported || day.source == AttendanceSource::Holiday;
    days.lemma_filter_len(lambda);
}

/// A list of errors has a line for each day with an error, in order, and says
/// how many there are; without any it says that there are none.
pub proof fn each_error_stands_on_its_line(
    month: CalendarDate,
    employee: Seq<char>,
    days: Seq<DayView>,
    at: int,
)
    ensures
        ({
            let found = days.filter(|day: DayView| day.has_error);
            &&& (found.len() == 0 ==> error_day_list(month, employee, days)
                == seq!["No attendance errors found."@])
            &&& (0 <= at < found.len() ==> {
                let line = left_aligned(iso_text(found[at].date), 10) + "  "@ + left_aligned(
                    found[at].day_name,
                    5,
                ) + "  "@ + left_aligned(
                    match found[at].error_message {
                        Some(message) => message,
                        None => "missing report"@,
                    },
                    40,
                );
                &&& error_day_list(month, employee, days).len() == found.len() + 4
                &&& error_day_list(month, employee, days)[at + 4] == line
                &&& employee_error_list(month, employee, days).len() == found.len() + 4
                &&& employee_error_list(month, employee, days)[at + 4] == line
            })
        }),
{
    found_are_those_with_errors(days);
    let found = with_error(days);
    if 0 <= at < found.len() {
        let cells = seq![
            iso_text(found[at].date),
            found[at].day_name,
            crate::render::text_or(found[at].error_message, "missing report"@),
        ];
        let shown = crate::render::aligned(cells, crate::render::error_widths());
        three_joined(shown[0], shown[1], shown[2], "  "@);
        assert(shown == seq![shown[0], shown[1], shown[2]]);
        assert(error_day_list(month, employee, days)[at + 4] == error_row(found[at]));
        assert(employee_error_list(month, employee, days)[at + 4] == error_row(found[at]));
    }
}

// ---------------------------------------------------------------------------
// Filled months
// ---------------------------------------------------------------------------

/// A filled day stands on its line with its date, its kind, its hours and what
/// became of it.
pub proof fn a_filled_day_stands_on_its_line(day: FilledView)
    ensures
        ({
            let start = "  "@ + day.date + " \u{2014} "@ + day.attendance_type + match day.hours {
                Some(hours) => " "@ + hours,
                None => ""@,
            };
            &&& (day.status == "would_fill"@ ==> filled_line(day) == start + " [would fill]"@)
            &&& (day.status == "success"@ ==> filled_line(day) == start + " [filled]"@)
            &&& (day.status == "failed"@ ==> (day.error matches Some(error) ==> filled_line(day)
                == start + (" [FAILED: "@ + error + "]"@)))
        }),
{
    reveal_strlit("would_fill");
    reveal_strlit("success");
    reveal_strlit("failed");
    assert("would_fill"@.len() == 10 && "success"@.len() == 7 && "failed"@.len() == 6);
}

/// A month that was only looked at says how many days would be filled; one that
/// was filled says how many were, and how many failed.
pub proof fn a_filled_month_counts_its_days(result: AutoFillResult)
    ensures
        result.mode@ == "dry_run"@ ==> fill_summary(result)[1] == "Summary: "@ + decimal(
            result.summary.total_candidates as nat,
        ) + " days to fill, "@ + decimal(result.summary.skipped as nat) + " skipped"@,
        result.mode@ != "dry_run"@ ==> fill_summary(result)[1] == "Summary: "@ + decimal(
            result.summary.filled as nat,
        ) + " filled, "@ + decimal(result.summary.failed as nat) + " failed, "@ + decimal(
            result.summary.skipped as nat,
        ) + " skipped"@,
{
}

/// A day that was left for its partial data is listed.
pub proof fn a_day_with_part_of_a_report_is_listed(skipped: Seq<(Seq<char>, Seq<char>)>, at: int)
    requires
        0 <= at < skipped.len(),
        skipped[at].1 == "partial_data"@,
    ensures
        partial_lines(skipped).contains(
            "  "@ + skipped[at].0 + " \u{2014} skipped (partial data)"@,
        ),
    decreases skipped.len(),
{
    let before = partial_lines(skipped.drop_last());
    let line = "  "@ + skipped[at].0 + " \u{2014} skipped (partial data)"@;
    if at < skipped.len() - 1 {
        a_day_with_part_of_a_report_is_listed(skipped.drop_last(), at);
        let k = choose|k: int| 0 <= k < before.len() && before[k] == line;
        assert(partial_lines(skipped)[k] == line);
    } else {
        assert(partial_lines(skipped)[before.len() as int] == line);
    }
}

// ---------------------------------------------------------------------------
// Overviews, writes and salaries
// ---------------------------------------------------------------------------

/// A month is summed up with those reported over its work days, its errors and
/// what is missing.
pub proof fn a_month_is_summed_up(month: CalendarDate, summary: OverviewSummary)
    ensures
        month_line(month, summary) == "Month: "@ + month_text(month) + " -- "@ + decimal(
            summary.reported as nat,
        ) + "/"@ + decimal(summary.total_work_days as nat) + " reported, "@ + decimal(
            summary.errors as nat,
        ) + " errors, "@ + decimal(summary.missing as nat) + " missing"@,
{
}

/// What is suggested is said with its command: errors by their month, missing
/// days by their first and last.
pub proof fn a_suggestion_says_its_command(plan: PlanView)
    ensures
        plan matches PlanView::FixErrors { month, .. } ==> command_hint(plan)
            == "shaon attendance errors --month "@ + month_text(month),
        plan matches PlanView::FillMissing { from, to, .. } ==> command_hint(plan)
            == "shaon attendance report range --from "@ + iso_text(from) + " --to "@ + iso_text(to)
            + " --type <type> --hours <HH:MM-HH:MM>"@,
{
}

/// A write says first whether it was carried out, then where it goes, for whom,
/// with which button, and what it sends.
pub proof fn a_write_says_whether_it_was_carried_out(action: Seq<char>, preview: ShownWrite)
    ensures
        ({
            let lines = submit_preview_text(action, preview);
            &&& lines.len() == 5
            &&& (preview.executed ==> lines[0] == action + " ["@ + "EXECUTED"@ + "]"@)
            &&& (!preview.executed ==> lines[0] == action + " ["@ + "DRY RUN"@ + "]"@)
            &&& lines[1] == "Target URL: "@ + preview.url
            &&& lines[2] == "Employee ID: "@ + preview.employee_id
            &&& lines[3] == "Button: "@ + preview.button_name + " = "@ + preview.button_value
            &&& lines[4] == preview.payload_display
        }),
{
}

/// A provider's write says first whether it was carried out, and last what it
/// sends, or else what it is.
pub proof fn a_providers_write_says_whether_it_was_carried_out(
    action: Seq<char>,
    preview: PreviewView,
)
    ensures
        ({
            let lines = provider_preview_text(action, preview);
            &&& lines.len() >= 2
            &&& (preview.executed ==> lines[0] == action + " ["@ + "EXECUTED"@ + "]"@)
            &&& (!preview.executed ==> lines[0] == action + " ["@ + "DRY RUN"@ + "]"@)
            &&& (debug_text(preview.provider_debug, "payload_display"@) matches Some(payload)
                ==> lines.last() == payload)
            &&& (debug_text(preview.provider_debug, "payload_display"@) is None ==> lines.last()
                == preview.summary)
            &&& (debug_text(preview.provider_debug, "url"@) matches Some(url) ==> lines[1]
                == "Target URL: "@ + url)
        }),
{
}

/// Each salary stands on its line with its month and its amount, behind the
/// label where there is one.
pub proof fn each_salary_stands_on_its_line(
    label: Seq<char>,
    entries: Seq<SalaryEntry>,
    at: int,
)
    requires
        0 <= at < entries.len(),
    ensures
        label.len() > 0 ==> salary_text(label, entries)[0] == "Salary row: "@ + label
            && salary_text(label, entries)[at + 1] == month_text(entries[at].month@) + ": "@
            + crate::cli::grouped(entries[at].amount as nat),
        label.len() == 0 ==> salary_text(label, entries)[at] == month_text(entries[at].month@)
            + ": "@ + crate::cli::grouped(entries[at].amount as nat),
{
}

// ---------------------------------------------------------------------------
// Kinds and symbols
// ---------------------------------------------------------------------------

/// A kind stands on its line with its code, its Hebrew name and its English
/// one.
pub proof fn a_kind_stands_on_its_line(item: TypeView, widths: Seq<usize>)
    requires
        widths.len() == 3,
    ensures
        type_row(item, widths) == left_aligned(item.code, widths[0] as nat) + "  "@ + left_aligned(
            item.name_he,
            widths[1] as nat,
        ) + "  "@ + left_aligned(text_or_nothing(item.name_en), widths[2] as nat),
{
    let cells = seq![item.code, item.name_he, crate::render::text_or(item.name_en, ""@)];
    let shown = crate::render::aligned(cells, widths);
    three_joined(shown[0], shown[1], shown[2], "  "@);
    assert(shown == seq![shown[0], shown[1], shown[2]]);
}

/// A symbol stands on its line with its id, its name and the name to show.
pub proof fn a_symbol_stands_on_its_line(symbol: SymbolView)
    ensures
        symbol_row(symbol) == left_aligned(symbol.id, 6) + "  "@ + left_aligned(symbol.name, 20)
            + "  "@ + text_or_nothing(symbol.display_name),
{
}

/// A column is no narrower than any of its cells, nor than its heading, and as
/// wide as one of these.
pub proof fn a_column_holds_its_longest_cell(lengths: Seq<nat>, least: nat)
    ensures
        widest(lengths, least) >= least,
        forall|i: int| 0 <= i < lengths.len() ==> #[trigger] lengths[i] <= widest(lengths, least),
        widest(lengths, least) == least || lengths.contains(widest(lengths, least)),
    decreases lengths.len(),
{
    if lengths.len() > 0 {
        let front = lengths.drop_last();
        a_column_holds_its_longest_cell(front, least);
        let last = lengths.len() - 1;
        assert(lengths[last] == lengths.last());
        assert forall|i: int| 0 <= i < lengths.len() implies #[trigger] lengths[i] <= widest(
            lengths,
            least,
        ) by {
            if i < last {
                assert(front[i] == lengths[i]);
            }
        }
        if front.contains(widest(front, least)) {
            let k = choose|k: int| 0 <= k < front.len() && front[k] == widest(front, least);
            assert(lengths[k] == widest(front, least));
        }
    }
}

// ---------------------------------------------------------------------------
// Reports
// ---------------------------------------------------------------------------

/// A column of a report is as wide as its longest cell, but no narrower than 2
/// and no wider than 40.
pub proof fn a_column_of_a_report_has_its_width(
    headers: Seq<Seq<char>>,
    rows: Seq<Seq<Seq<char>>>,
    column: int,
)
    ensures
        cell_at(headers, column).len() <= column_length(headers, rows, column),
        forall|i: int|
            0 <= i < rows.len() ==> cell_at(#[trigger] rows[i], column).len() <= column_length(
                headers,
                rows,
                column,
            ),
        column_length(headers, rows, column) == cell_at(headers, column).len() || exists|i: int|
            0 <= i < rows.len() && cell_at(#[trigger] rows[i], column).len() == column_length(
                headers,
                rows,
                column,
            ),
    decreases rows.len(),
{
    if rows.len() > 0 {
        let front = rows.drop_last();
        a_column_of_a_report_has_its_width(headers, front, column);
        let last = rows.len() - 1;
        assert(rows[last] == rows.last());
        assert forall|i: int| 0 <= i < rows.len() implies cell_at(#[trigger] rows[i], column).len()
            <= column_length(headers, rows, column) by {
            if i < last {
                assert(front[i] == rows[i]);
            }
        }
        if column_length(headers, rows, column) == column_length(headers, front, column)
            && column_length(headers, rows, column) != cell_at(headers, column).len() {
            let i = choose|i: int|
                0 <= i < front.len() && cell_at(#[trigger] front[i], column).len()
                    == column_length(headers, front, column);
            assert(rows[i] == front[i]);
        }
    }
}

/// A width is kept between 2 and 40.
pub proof fn a_width_is_kept_in_bounds(length: nat)
    ensures
        2 <= shown_width(length) <= 40,
        2 <= length <= 40 ==> shown_width(length) == length,
        length < 2 ==> shown_width(length) == 2,
        length > 40 ==> shown_width(length) == 40,
{
}

/// A cell is cut or filled up to its width exactly, and begins as its value.
pub proof fn a_cell_fits_its_width(value: Seq<char>, width: nat)
    ensures
        fitted(value, width).len() == width,
        value.len() <= width ==> fitted(value, width).take(value.len() as int) == value,
        value.len() > width ==> fitted(value, width) == value.take(width as int),
{
}

/// A report shows its rows in order, each by itself, and says how many there
/// are.
pub proof fn a_report_shows_its_rows(
    headers: Seq<Seq<char>>,
    rows: Seq<Seq<Seq<char>>>,
    at: int,
)
    requires
        headers.len() > 0,
        0 <= at < rows.len(),
    ensures
        report_table(headers, rows).len() == rows.len() + 4,
        report_table(headers, rows)[0] == report_row(headers, report_widths(headers, rows)),
        report_table(headers, rows)[at + 2] == report_row(rows[at], report_widths(headers, rows)),
        report_table(headers, rows).last() == "("@ + decimal(rows.len()) + " rows)"@,
{
    no_fewer_columns_than_headers(rows, headers.len());
}

proof fn no_fewer_columns_than_headers(rows: Seq<Seq<Seq<char>>>, least: nat)
    ensures
        longest(rows, least) >= least,
        forall|i: int| 0 <= i < rows.len() ==> (#[trigger] rows[i]).len() <= longest(rows, least),
    decreases rows.len(),
{
    if rows.len() > 0 {
        let front = rows.drop_last();
        no_fewer_columns_than_headers(front, least);
        assert forall|i: int| 0 <= i < rows.len() implies (#[trigger] rows[i]).len() <= longest(
            rows,
            least,
        ) by {
            if i < rows.len() - 1 {
                assert(front[i] == rows[i]);
            }
        }
    }
}

/// An overview shows who is signed in, then how the month stands, then each
/// missing day, each error and each suggestion under its heading.
pub proof fn an_overview_shows_its_parts(overview: OverviewData)
    ensures
        ({
            let lines = overview_text(overview);
            let missing = date_views(overview.missing_days@);
            &&& lines.len() >= 2
            &&& lines[0] == "User: "@ + overview.identity.display_name@ + " (employee "@
                + overview.identity.employee_id@ + ")"@
            &&& lines[1] == month_line(overview.month@, overview.summary)
            &&& (missing.len() > 0 ==> lines[3] == "Missing days:"@ && forall|i: int|
                0 <= i < missing.len() ==> lines[i + 4] == "  "@ + iso_text(#[trigger] missing[i])
                    + " ("@ + weekday_text(missing[i]) + ")"@)
        }),
{
    let missing = date_views(overview.missing_days@);
    let lines = overview_text(overview);
    assert forall|i: int| 0 <= i < missing.len() implies lines[i + 4] == "  "@ + iso_text(
        #[trigger] missing[i],
    ) + " ("@ + weekday_text(missing[i]) + ")"@ by {
        assert(lines[i + 4] == missing_line(missing[i]));
    }
}

/// Lines stand under their heading, in their order; without lines there is no
/// heading.
pub proof fn lines_stand_under_their_heading(heading: Seq<char>, lines: Seq<Seq<char>>)
    ensures
        lines.len() == 0 ==> section(heading, lines).len() == 0,
        lines.len() > 0 ==> section(heading, lines)[1] == heading && section(heading, lines).skip(2)
            == lines,
{
    if lines.len() > 0 {
        assert(section(heading, lines).skip(2) == lines);
    }
}

/// The columns of a table of kinds are those of the codes, the Hebrew names and
/// the English names, each wide enough for its cells and its heading.
pub proof fn the_columns_of_kinds_hold_their_cells(types: Seq<TypeView>, at: int)
    requires
        0 <= at < types.len(),
        widest(crate::render::code_lengths(types), 4) <= usize::MAX,
        widest(crate::render::hebrew_lengths(types), 6) <= usize::MAX,
        widest(crate::render::english_lengths(types), 7) <= usize::MAX,
    ensures
        type_widths(types).len() == 3,
        byte_len(types[at].code) <= type_widths(types)[0],
        byte_len(types[at].name_he) <= type_widths(types)[1],
        types[at].name_en matches Some(english) ==> byte_len(english) <= type_widths(types)[2],
        type_table(types).len() == types.len() + 2,
        type_table(types)[at + 2] == type_row(types[at], type_widths(types)),
{
    a_column_holds_its_longest_cell(crate::render::code_lengths(types), 4);
    a_column_holds_its_longest_cell(crate::render::hebrew_lengths(types), 6);
    a_column_holds_its_longest_cell(crate::render::english_lengths(types), 7);
    assert(crate::render::code_lengths(types)[at] == byte_len(types[at].code));
    assert(crate::render::hebrew_lengths(types)[at] == byte_len(types[at].name_he));
    let english = crate::render::english_lengths(types);
    if let Some(name) = types[at].name_en {
        assert(english[at] == byte_len(name));
    }
}

/// The symbols of absence stand on their lines in their order.
pub proof fn symbols_stand_on_their_lines(symbols: Seq<SymbolView>, at: int)
    requires
        0 <= at < symbols.len(),
    ensures
        symbol_table(symbols).len() == symbols.len() + 2,
        symbol_table(symbols)[at + 2] == symbol_row(symbols[at]),
{
}

/// A month that was filled is named first, with a mark where it was only looked
/// at; each filled day follows in order.
pub proof fn a_filled_month_is_named_first(result: AutoFillResult, at: int)
    ensures
        result.mode@ == "dry_run"@ ==> fill_report(result)[0] == "Auto-fill "@ + result.month@
            + " [DRY RUN]"@,
        result.mode@ != "dry_run"@ ==> fill_report(result)[0] == "Auto-fill "@ + result.month@
            + ""@,
        0 <= at < result.filled@.len() ==> fill_report(result)[at + 2] == filled_line(
            result.filled@[at]@,
        ),
{
}

/// The days with part of a report stand under their heading; without any there
/// is no heading.
pub proof fn days_with_part_of_a_report_have_a_heading(skipped: Seq<(Seq<char>, Seq<char>)>)
    ensures
        partial_lines(skipped).len() == 0 ==> partial_section(skipped).len() == 0,
        partial_lines(skipped).len() > 0 ==> partial_section(skipped)[1]
            == "Skipped (partial data):"@ && partial_section(skipped).skip(2) == partial_lines(
            skipped,
        ),
{
    if partial_lines(skipped).len() > 0 {
        assert(partial_section(skipped).skip(2) == partial_lines(skipped));
    }
}

} // verus!
