//! Laws of the reports that a day already has.

use crate::calendar::{day_number_in, first_where, shown_option, strict_day_number_in, AttrTest};
use crate::date::{is_date, moment_text, CalendarDate};
use crate::dom::{attr_at, select, select_in, text_in, Dom, Selector};
use crate::existing::{
    context_of, data_for, data_row, data_rows_in, hyphen_date, joined_report, joined_reports,
    live_rows, optional_symbol, page_data_rows, page_reports, report_moment, report_row,
    reported_option, row_data_text, row_date_text, same_symbol_from, service_moment, unused_from,
    DataView, ReportView, RowView,
};
use crate::json::{json_read, Json};
use crate::laws::answers::fields_are_found_by_their_names;
use crate::laws::texts::{
    a_number_below_zero_is_read_back, a_number_is_written_by_its_digits,
    a_written_number_is_read_back, digits_are_read_as_their_number, digits_in_front_are_counted,
    number_of, the_last_place_is_the_last,
};
use crate::records::{
    bool_field, json_members, named_values, opt_text_field, sole_value, text_field, u32_field,
};
use crate::text::{
    char_from, contains, decimal, index_from, index_from_is_first, last_index, second_piece,
    signed_decimal, split, starts_with, trimmed,
};
use vstd::prelude::*;

verus! {

// ---------------------------------------------------------------------------
// Rows of the page
// ---------------------------------------------------------------------------

/// A row of the page reports the option of its first drop-down that is
/// chosen: its value as the code, its text as the name, and whether it is an
/// absence.
pub proof fn a_row_reports_its_chosen_option(
    dom: Dom,
    row: int,
    employee_id: Seq<char>,
    date: CalendarDate,
    id: Seq<char>,
    suffix: Seq<char>,
    option: int,
)
    requires
        attr_at(dom, row, "id"@) == Some(id),
        second_piece(id, "_EmployeeReports_row_"@) == Some(suffix),
        select_in(dom, row, Selector::Select).len() > 0,
        reported_option(dom, select_in(dom, row, Selector::Select)[0]) == Some(option),
    ensures
        report_row(dom, row, employee_id, date) matches Some(report) && {
            &&& (attr_at(dom, option, "value"@) matches Some(value) ==> (value.len() > 0
                ==> report.symbol_code == Some(value)))
            &&& (attr_at(dom, option, "value"@) is None ==> report.symbol_code is None)
            &&& (attr_at(dom, option, "value"@) matches Some(value) ==> (value.len() == 0
                ==> report.symbol_code is None))
            &&& report.symbol_name == Some(trimmed(text_in(dom, option)))
            &&& (attr_at(dom, option, "isAbsenceSymbol"@) matches Some(mark) ==> (
            report.is_absence <==> mark == "true"@))
            &&& (attr_at(dom, option, "isAbsenceSymbol"@) is None ==> (report.is_absence
                <==> attr_at(dom, option, "isabsencesymbol"@) == Some("true"@)))
        },
{
}

/// The first of a list with an attribute that is not empty, or that is there.
proof fn the_first_that_meets(
    dom: Dom,
    list: Seq<int>,
    name: Seq<char>,
    test: AttrTest,
    at: int,
)
    requires
        0 <= at < list.len(),
        attr_at(dom, list[at], name) matches Some(value) && crate::calendar::meets(value, test),
        forall|i: int|
            0 <= i < at ==> !(attr_at(dom, #[trigger] list[i], name) matches Some(value)
                && crate::calendar::meets(value, test)),
    ensures
        first_where(dom, list, name, test) == Some(list[at]),
    decreases list.len(),
{
    if at > 0 {
        assert(!(attr_at(dom, list[0], name) matches Some(value) && crate::calendar::meets(
            value,
            test,
        )));
        let rest = list.skip(1);
        assert(rest[at - 1] == list[at]);
        assert forall|i: int| 0 <= i < at - 1 implies !(attr_at(
            dom,
            #[trigger] rest[i],
            name,
        ) matches Some(value) && crate::calendar::meets(value, test)) by {
            assert(rest[i] == list[i + 1]);
        }
        the_first_that_meets(dom, rest, name, test, at - 1);
    }
}

/// The option of a row is the first that is marked as selected.
pub proof fn the_marked_option_is_chosen(dom: Dom, drop_down: int, at: int)
    requires
        0 <= at < select_in(dom, drop_down, Selector::AnyOption).len(),
        attr_at(dom, select_in(dom, drop_down, Selector::AnyOption)[at], "selected"@) is Some,
        forall|i: int|
            0 <= i < at ==> attr_at(
                dom,
                #[trigger] select_in(dom, drop_down, Selector::AnyOption)[i],
                "selected"@,
            ) is None,
    ensures
        reported_option(dom, drop_down) == Some(
            select_in(dom, drop_down, Selector::AnyOption)[at],
        ),
{
    the_first_that_meets(
        dom,
        select_in(dom, drop_down, Selector::AnyOption),
        "selected"@,
        AttrTest::Present,
        at,
    );
}

/// A cell's drop-down shows its first marked option before the one with the
/// original value, and that before its first.
pub proof fn a_drop_down_shows_what_is_chosen(dom: Dom, at: int, original: Seq<char>, k: int)
    ensures
        select_in(dom, at, Selector::SelectedOption).len() > 0 ==> shown_option(
            dom,
            at,
            Some(original),
        ) == Some(select_in(dom, at, Selector::SelectedOption)[0]),
        select_in(dom, at, Selector::SelectedOption).len() == 0 && 0 <= k < select_in(
            dom,
            at,
            Selector::AnyOption,
        ).len() && attr_at(dom, select_in(dom, at, Selector::AnyOption)[k], "value"@) == Some(
            original,
        ) && (forall|i: int|
            0 <= i < k ==> attr_at(
                dom,
                #[trigger] select_in(dom, at, Selector::AnyOption)[i],
                "value"@,
            ) != Some(original)) ==> shown_option(dom, at, Some(original)) == Some(
            select_in(dom, at, Selector::AnyOption)[k],
        ),
        select_in(dom, at, Selector::SelectedOption).len() == 0 && select_in(
            dom,
            at,
            Selector::AnyOption,
        ).len() > 0 ==> shown_option(dom, at, None) == Some(
            select_in(dom, at, Selector::AnyOption)[0],
        ),
{
    let options = select_in(dom, at, Selector::AnyOption);
    if 0 <= k < options.len() && attr_at(dom, options[k], "value"@) == Some(original) && (forall|
        i: int,
    |
        0 <= i < k ==> attr_at(dom, #[trigger] options[i], "value"@) != Some(original)) {
        the_first_that_meets(dom, options, "value"@, AttrTest::Is(original), k);
    }
}

// ---------------------------------------------------------------------------
// Data of the page
// ---------------------------------------------------------------------------

/// A report of the page's data is taken from the members of their names.
pub proof fn a_report_is_read_by_name(text: Seq<char>, members: Seq<(Seq<char>, Seq<char>)>)
    requires
        json_members(text) == Some(members),
    ensures
        data_row(text) matches Some(row) ==> {
            &&& sole_value(members, "ID"@) matches Some(field) && text_field(field) == Some(row.id)
            &&& sole_value(members, "EmployeeId"@) matches Some(field) && u32_field(field) == Some(
                row.employee_id,
            )
            &&& sole_value(members, "ReportDate"@) matches Some(field) && text_field(field)
                == Some(row.report_date)
            &&& sole_value(members, "FromDate"@) matches Some(field) && opt_text_field(field)
                == Some(row.from_date)
            &&& sole_value(members, "IsRange"@) matches Some(field) && bool_field(field) == Some(
                row.is_range,
            )
            &&& sole_value(members, "IsReportDeleted"@) matches Some(field) && bool_field(field)
                == Some(row.is_report_deleted)
            &&& sole_value(members, "Symbol"@) matches Some(field) && optional_symbol(field)
                == Some((row.symbol_code, row.symbol_name))
        },
{
    let names = seq![
        "ID"@,
        "EmployeeId"@,
        "ReportDate"@,
        "FromDate"@,
        "IsRange"@,
        "IsReportDeleted"@,
        "Symbol"@,
    ];
    fields_are_found_by_their_names(members, names);
    if let Some(values) = named_values(members, names) {
        assert(Some(values[0]) == sole_value(members, names[0]));
        assert(Some(values[1]) == sole_value(members, names[1]));
        assert(Some(values[2]) == sole_value(members, names[2]));
        assert(Some(values[3]) == sole_value(members, names[3]));
        assert(Some(values[4]) == sole_value(members, names[4]));
        assert(Some(values[5]) == sole_value(members, names[5]));
        assert(Some(values[6]) == sole_value(members, names[6]));
    }
}

/// The symbol of a report is its code first and its name second.
pub proof fn a_symbol_of_a_report_is_code_and_name(
    written: Seq<char>,
    members: Seq<(Seq<char>, Seq<char>)>,
)
    requires
        json_members(written) == Some(members),
        !crate::records::null_field(Some(written)),
    ensures
        optional_symbol(Some(written)) matches Some(symbol) ==> {
            &&& sole_value(members, "First"@) matches Some(field) && opt_text_field(field) == Some(
                symbol.0,
            )
            &&& sole_value(members, "Second"@) matches Some(field) && opt_text_field(field)
                == Some(symbol.1)
        },
        optional_symbol(None) == Some((None::<Seq<char>>, None::<Seq<char>>)),
{
    let names = seq!["First"@, "Second"@];
    fields_are_found_by_their_names(members, names);
    if let Some(values) = named_values(members, names) {
        assert(Some(values[0]) == sole_value(members, names[0]));
        assert(Some(values[1]) == sole_value(members, names[1]));
    }
}

/// The reports that are kept are none that is deleted, each id once; and every
/// report that is not deleted has its id kept.
pub proof fn only_live_reports_are_kept(rows: Seq<DataView>)
    ensures
        forall|i: int|
            0 <= i < live_rows(rows).len() ==> !(#[trigger] live_rows(rows)[i]).is_report_deleted
                && rows.contains(live_rows(rows)[i]),
        forall|i: int, j: int|
            0 <= i < j < live_rows(rows).len() ==> (#[trigger] live_rows(rows)[i]).id != (
            #[trigger] live_rows(rows)[j]).id,
        forall|i: int|
            0 <= i < rows.len() && !(#[trigger] rows[i]).is_report_deleted ==> exists|k: int|
                0 <= k < live_rows(rows).len() && (#[trigger] live_rows(rows)[k]).id == rows[i].id,
    decreases rows.len(),
{
    if rows.len() > 0 {
        let front = rows.drop_last();
        only_live_reports_are_kept(front);
        let before = live_rows(front);
        let all = live_rows(rows);
        let last = rows.len() - 1;
        assert(rows[last] == rows.last());
        assert forall|i: int| 0 <= i < all.len() implies !(#[trigger] all[i]).is_report_deleted
            && rows.contains(all[i]) by {
            if i < before.len() {
                assert(all[i] == before[i]);
                let k = choose|k: int| 0 <= k < front.len() && front[k] == before[i];
                assert(rows[k] == all[i]);
            } else {
                assert(all[i] == rows[last]);
            }
        }
        assert forall|i: int, j: int| 0 <= i < j < all.len() implies (#[trigger] all[i]).id != (
        #[trigger] all[j]).id by {
            assert(all[i] == before[i]);
            if j < before.len() {
                assert(all[j] == before[j]);
            }
        }
        assert forall|i: int|
            0 <= i < rows.len() && !(#[trigger] rows[i]).is_report_deleted implies exists|k: int|
            0 <= k < all.len() && (#[trigger] all[k]).id == rows[i].id by {
            if i < last {
                assert(front[i] == rows[i]);
                let k = choose|k: int|
                    0 <= k < before.len() && (#[trigger] before[k]).id == front[i].id;
                assert(all[k] == before[k]);
            } else if crate::existing::has_id(before, rows[last].id) {
                let k = choose|k: int|
                    0 <= k < before.len() && (#[trigger] before[k]).id == rows[last].id;
                assert(all[k] == before[k]);
            } else {
                assert(all[before.len() as int] == rows[last]);
            }
        }
    }
}

/// A moment that the service writes in milliseconds is that many milliseconds
/// after the start of 1970.
pub proof fn a_moment_is_read_in_milliseconds(millis: int)
    requires
        i64::MIN <= millis <= i64::MAX,
    ensures
        service_moment("/Date("@ + signed_decimal(millis) + ")/"@) == moment_text(millis),
{
    let number = signed_decimal(millis);
    let raw = "/Date("@ + number + ")/"@;
    let n = "/Date("@.len() as int;
    assert(raw.take(n) == "/Date("@);
    let rest = raw.skip(n);
    assert(rest == number + ")/"@);
    assert(rest.skip(rest.len() - ")/"@.len()) == ")/"@);
    assert(rest.take(rest.len() - ")/"@.len()) == number);
    if millis >= 0 {
        a_written_number_is_read_back(millis as nat);
    } else {
        a_number_below_zero_is_read_back(millis);
    }
}

/// A report is of its own moment; one of a range is of the moment from which
/// it runs, where that is given.
pub proof fn a_report_is_of_its_moment(row: DataView)
    ensures
        !row.is_range ==> report_moment(row) == service_moment(row.report_date),
        row.is_range && row.from_date is None ==> report_moment(row) == service_moment(
            row.report_date,
        ),
        row.is_range ==> (row.from_date matches Some(from) ==> report_moment(row)
            == service_moment(from)),
{
}

/// The date of a row is written with its year, month and day, without zeros in
/// front.
pub proof fn a_row_is_found_by_its_date(date: CalendarDate)
    requires
        date.year >= 0,
    ensures
        row_date_text(date) == decimal(date.year as nat) + "-"@ + decimal(date.month as nat)
            + "-"@ + decimal(date.day as nat),
{
}

// ---------------------------------------------------------------------------
// Rows and data together
// ---------------------------------------------------------------------------

/// A report has its id, employee and moment from the data, its row from the
/// page, and its kind from the page before the data.
pub proof fn a_report_is_its_row_and_its_data(row: RowView, data: DataView, moment: Seq<char>)
    ensures
        ({
            let report = joined_report(row, data, moment);
            &&& report.object_id == data.id
            &&& report.employee_id == data.employee_id
            &&& report.row_name == row.row_name
            &&& report.is_absence == row.is_absence
            &&& report.report_date_iso_utc == moment
            &&& (row.symbol_code is Some ==> report.symbol_code == row.symbol_code)
            &&& (row.symbol_code is None ==> report.symbol_code == data.symbol_code)
            &&& (row.symbol_name is Some ==> report.symbol_name == row.symbol_name)
            &&& (row.symbol_name is None ==> report.symbol_name == data.symbol_name)
        }),
{
}

proof fn what_same_symbol_finds(
    code: Option<Seq<char>>,
    data: Seq<DataView>,
    used: Seq<bool>,
    from: int,
)
    requires
        0 <= from <= data.len(),
        used.len() == data.len(),
    ensures
        match same_symbol_from(code, data, used, from) {
            Some(at) => from <= at < data.len() && !used[at] && data[at].symbol_code == code
                && forall|i: int|
                from <= i < at && !(#[trigger] used[i]) ==> data[i].symbol_code != code,
            None => forall|i: int|
                from <= i < data.len() && !(#[trigger] used[i]) ==> data[i].symbol_code != code,
        },
    decreases data.len() - from,
{
    if from < data.len() && (used[from] || data[from].symbol_code != code) {
        what_same_symbol_finds(code, data, used, from + 1);
    }
}

proof fn what_unused_finds(used: Seq<bool>, from: int)
    requires
        0 <= from <= used.len(),
    ensures
        match unused_from(used, from) {
            Some(at) => from <= at < used.len() && !used[at] && forall|i: int|
                from <= i < at ==> #[trigger] used[i],
            None => forall|i: int| from <= i < used.len() ==> #[trigger] used[i],
        },
    decreases used.len() - from,
{
    if from < used.len() && used[from] {
        what_unused_finds(used, from + 1);
    }
}

/// A row takes data that no row took: the first of its own kind, or else the
/// first that is left; it takes none only where none is left.
pub proof fn a_row_takes_data_of_its_kind(row: RowView, data: Seq<DataView>, used: Seq<bool>)
    requires
        used.len() == data.len(),
    ensures
        match data_for(row, data, used) {
            Some(at) => 0 <= at < data.len() && !used[at] && (data[at].symbol_code
                != row.symbol_code ==> forall|i: int|
                0 <= i < data.len() && !(#[trigger] used[i]) ==> data[i].symbol_code
                    != row.symbol_code && at <= i) && (data[at].symbol_code == row.symbol_code
                ==> forall|i: int|
                0 <= i < at && !(#[trigger] used[i]) ==> data[i].symbol_code != row.symbol_code),
            None => forall|i: int| 0 <= i < data.len() ==> #[trigger] used[i],
        },
{
    what_same_symbol_finds(row.symbol_code, data, used, 0);
    what_unused_finds(used, 0);
}

/// No report of a day has the data of another, and each has the row and the
/// data of its own.
pub proof fn each_report_has_data_of_its_own(
    rows: Seq<RowView>,
    data: Seq<DataView>,
    date: CalendarDate,
)
    requires
        forall|i: int, j: int|
            0 <= i < j < data.len() ==> (#[trigger] data[i]).id != (#[trigger] data[j]).id,
    ensures
        joined_reports(rows, data, date) matches Ok(found) ==> {
            &&& found.1.len() == data.len()
            &&& found.0.len() <= rows.len()
            &&& forall|k: int|
                0 <= k < found.0.len() ==> exists|d: int|
                    0 <= d < data.len() && found.1[d] && (#[trigger] data[d]).id == (
                    #[trigger] found.0[k]).object_id && data[d].employee_id
                        == found.0[k].employee_id
            &&& forall|i: int, j: int|
                0 <= i < j < found.0.len() ==> (#[trigger] found.0[i]).object_id != (
                #[trigger] found.0[j]).object_id
        },
    decreases rows.len(),
{
    if rows.len() > 0 {
        each_report_has_data_of_its_own(rows.drop_last(), data, date);
        if let Ok((reports, used)) = joined_reports(rows.drop_last(), data, date) {
            a_row_takes_data_of_its_kind(rows.last(), data, used);
            if let Some(at) = data_for(rows.last(), data, used) {
                if let Some(moment) = report_moment(data[at]) {
                    let all = reports.push(joined_report(rows.last(), data[at], moment));
                    let taken = used.update(at, true);
                    assert forall|k: int| 0 <= k < all.len() implies exists|d: int|
                        0 <= d < data.len() && taken[d] && (#[trigger] data[d]).id == (
                        #[trigger] all[k]).object_id && data[d].employee_id
                            == all[k].employee_id by {
                        if k < reports.len() {
                            assert(all[k] == reports[k]);
                            let d = choose|d: int|
                                0 <= d < data.len() && used[d] && (#[trigger] data[d]).id
                                    == reports[k].object_id && data[d].employee_id
                                    == reports[k].employee_id;
                            assert(taken[d]);
                        } else {
                            assert(taken[at] && data[at].id == all[k].object_id);
                        }
                    }
                    assert forall|i: int, j: int| 0 <= i < j < all.len() implies (
                    #[trigger] all[i]).object_id != (#[trigger] all[j]).object_id by {
                        assert(all[i] == reports[i]);
                        if j < reports.len() {
                            assert(all[j] == reports[j]);
                        } else {
                            let d = choose|d: int|
                                0 <= d < data.len() && used[d] && (#[trigger] data[d]).id
                                    == reports[i].object_id && data[d].employee_id
                                    == reports[i].employee_id;
                            assert(d != at);
                            if d < at {
                                assert(data[d].id != data[at].id);
                            } else {
                                assert(data[at].id != data[d].id);
                            }
                        }
                    }
                }
            }
        }
    }
}

// ---------------------------------------------------------------------------
// Days
// ---------------------------------------------------------------------------

/// The day that a text begins with is the number of the digits in front, where
/// it is from 1 to 31.
pub proof fn a_day_is_the_number_in_front(text: Seq<char>)
    ensures
        ({
            let count = crate::text::digit_run(text) as int;
            let number = number_of(text.take(count));
            &&& (count > 0 && 1 <= number <= 31 ==> (day_number_in(text) matches Some(day) && day
                == number))
            &&& (count == 0 || number < 1 || number > 31 ==> day_number_in(text) is None)
        }),
{
    digits_in_front_are_counted(text);
    let run = text.take(crate::text::digit_run(text) as int);
    digits_are_read_as_their_number(run);
    if run.len() > 0 {
        assert('0' <= run[0] <= '9');
    }
}

/// An hour is not taken for a day.
pub proof fn an_hour_is_no_day(text: Seq<char>)
    ensures
        ({
            let body = trimmed(text);
            let count = crate::text::digit_run(body) as int;
            &&& (count < body.len() && body[count] == ':' ==> strict_day_number_in(text) is None)
            &&& (count >= body.len() || body[count] != ':' ==> strict_day_number_in(text)
                == day_number_in(body))
        }),
{
}

/// A selected day is what the page shows of it: its reports, with the address,
/// the date, the employee and the fields as they were.
pub proof fn a_selected_day_is_what_the_page_shows(
    url: Seq<char>,
    date: CalendarDate,
    employee_id: Seq<char>,
    fields: Map<Seq<char>, Seq<char>>,
    html: Seq<char>,
)
    ensures
        page_reports(html, employee_id, date) matches Ok(reports) ==> (context_of(
            url,
            date,
            employee_id,
            fields,
            html,
        ) matches Ok(context) && context.url == url && context.date == date && context.employee_id
            == employee_id && context.fields == fields && context.reports == reports),
        page_reports(html, employee_id, date) is Err ==> context_of(
            url,
            date,
            employee_id,
            fields,
            html,
        ) is Err,
{
}

/// A day without rows has no reports, whatever the page carries besides; one
/// with rows has those that its rows and its data make together.
pub proof fn a_day_without_rows_has_no_reports(
    html: Seq<char>,
    employee_id: Seq<char>,
    date: CalendarDate,
)
    ensures
        ({
            let dom = crate::dom::page_of(html);
            let rows = crate::existing::report_rows(
                dom,
                select(dom, Selector::EmployeeReportRow),
                employee_id,
                date,
            );
            &&& (rows.len() == 0 ==> page_reports(html, employee_id, date) == Ok::<
                Seq<ReportView>,
                Seq<char>,
            >(Seq::<ReportView>::empty()))
            &&& (rows.len() > 0 ==> (crate::existing::page_data_rows(html, date) matches Ok(data)
                ==> (joined_reports(rows, data, date) matches Ok(found) ==> page_reports(
                html,
                employee_id,
                date,
            ) == Ok::<Seq<ReportView>, Seq<char>>(found.0))))
            &&& (rows.len() > 0 && crate::existing::page_data_rows(html, date) is Err
                ==> page_reports(html, employee_id, date) is Err)
        }),
{
}

/// Each row of the page that reports something is read, and nothing else.
pub proof fn each_row_of_the_page_is_read(
    dom: Dom,
    rows: Seq<int>,
    employee_id: Seq<char>,
    date: CalendarDate,
    at: int,
)
    requires
        0 <= at < rows.len(),
        report_row(dom, rows[at], employee_id, date) is Some,
    ensures
        crate::existing::report_rows(dom, rows, employee_id, date).contains(
            report_row(dom, rows[at], employee_id, date)->Some_0,
        ),
        crate::existing::report_rows(dom, rows, employee_id, date).len() <= rows.len(),
    decreases rows.len(),
{
    let front = rows.drop_last();
    let before = crate::existing::report_rows(dom, front, employee_id, date);
    let all = crate::existing::report_rows(dom, rows, employee_id, date);
    let row = report_row(dom, rows[at], employee_id, date)->Some_0;
    no_more_than_the_rows(dom, rows, employee_id, date);
    if at < rows.len() - 1 {
        assert(front[at] == rows[at]);
        each_row_of_the_page_is_read(dom, front, employee_id, date, at);
        let k = choose|k: int| 0 <= k < before.len() && before[k] == row;
        assert(all[k] == row);
    } else {
        assert(all[before.len() as int] == row);
    }
}

proof fn no_more_than_the_rows(
    dom: Dom,
    rows: Seq<int>,
    employee_id: Seq<char>,
    date: CalendarDate,
)
    ensures
        crate::existing::report_rows(dom, rows, employee_id, date).len() <= rows.len(),
    decreases rows.len(),
{
    if rows.len() > 0 {
        no_more_than_the_rows(dom, rows.drop_last(), employee_id, date);
    }
}

proof fn three_pieces(a: Seq<char>, b: Seq<char>, c: Seq<char>)
    requires
        !a.contains('-'),
        !b.contains('-'),
        !c.contains('-'),
    ensures
        split(a + seq!['-'] + b + seq!['-'] + c, '-') == seq![a, b, c],
{
    let text = a + seq!['-'] + b + seq!['-'] + c;
    let rest = b + seq!['-'] + c;
    mark_at(text, a.len() as int);
    assert(text.take(a.len() as int) == a);
    assert(text.skip(a.len() as int + 1) == rest);
    mark_at(rest, b.len() as int);
    assert(rest.take(b.len() as int) == b);
    assert(rest.skip(b.len() as int + 1) == c);
    no_mark(c, 0);
    assert(split(c, '-') == seq![c]);
    assert(split(rest, '-') == seq![b] + seq![c]);
    assert(split(text, '-') == seq![a] + (seq![b] + seq![c]));
}

proof fn mark_at(text: Seq<char>, at: int)
    requires
        0 <= at < text.len(),
        text[at] == '-',
        !text.take(at).contains('-'),
    ensures
        char_from(text, '-', 0) == Some(at),
{
    assert forall|i: int| 0 <= i < at implies #[trigger] text[i] != '-' by {
        assert(text.take(at)[i] == text[i]);
    }
    mark_from(text, 0, at);
}

proof fn mark_from(text: Seq<char>, from: int, at: int)
    requires
        0 <= from <= at < text.len(),
        text[at] == '-',
        forall|i: int| from <= i < at ==> #[trigger] text[i] != '-',
    ensures
        char_from(text, '-', from) == Some(at),
    decreases at - from,
{
    if from < at {
        mark_from(text, from + 1, at);
    }
}

proof fn no_mark(text: Seq<char>, from: int)
    requires
        0 <= from <= text.len(),
        !text.contains('-'),
    ensures
        char_from(text, '-', from) is None,
    decreases text.len() - from,
{
    if from < text.len() {
        assert(text[from] != '-');
        no_mark(text, from + 1);
    }
}

/// A date that is written as its three numbers between hyphens is read as that
/// date, and never as one that the calendar does not have.
pub proof fn a_date_between_hyphens_is_read_back(date: CalendarDate)
    requires
        0 <= date.year <= i32::MAX,
        0 <= date.month <= u32::MAX,
        0 <= date.day <= u32::MAX,
    ensures
        ({
            let text = decimal(date.year as nat) + seq!['-'] + decimal(date.month as nat)
                + seq!['-'] + decimal(date.day as nat);
            &&& (is_date(date) ==> hyphen_date(text) == Some(date))
            &&& (!is_date(date) ==> hyphen_date(text) is None)
        }),
{
    let year = decimal(date.year as nat);
    let month = decimal(date.month as nat);
    let day = decimal(date.day as nat);
    a_number_is_written_by_its_digits(date.year as nat);
    a_number_is_written_by_its_digits(date.month as nat);
    a_number_is_written_by_its_digits(date.day as nat);
    assert(!year.contains('-') && !month.contains('-') && !day.contains('-'));
    a_written_number_is_read_back(date.year as nat);
    a_written_number_is_read_back(date.month as nat);
    a_written_number_is_read_back(date.day as nat);
    three_pieces(year, month, day);
}

/// The data of a date is what stands between the last opening mark and the
/// mention of the date, and holds no other opening mark.
pub proof fn the_data_of_a_date_stands_before_it(html: Seq<char>, row_date: Seq<char>)
    ensures
        row_data_text(html, row_date) matches Some(raw) ==> exists|start: int, end: int|
            0 <= start && start + "RowData\":\""@.len() <= end <= html.len()
                && #[trigger] html.subrange(start, start + "RowData\":\""@.len())
                == "RowData\":\""@ && raw == #[trigger] html.subrange(
                start + "RowData\":\""@.len() as int,
                end,
            ) && starts_with(html.skip(end), "\",\"RowDate\":\""@ + row_date + "\""@),
        !contains(html, "\",\"RowDate\":\""@ + row_date + "\""@) ==> row_data_text(html, row_date)
            is None,
{
    let mention = "\",\"RowDate\":\""@ + row_date + "\""@;
    let mark = "RowData\":\""@;
    index_from_is_first(html, mention, 0);
    if let Some(end) = index_from(html, mention, 0) {
        the_last_place_is_the_last(html.take(end), mark);
        assert(html.skip(end).take(mention.len() as int) == html.subrange(
            end,
            end + mention.len(),
        ));
        assert(starts_with(html.skip(end), mention));
        if let Some(start) = last_index(html.take(end), mark) {
            assert(html.take(end).subrange(start, start + mark.len()) == html.subrange(
                start,
                start + mark.len(),
            ));
            let raw = html.subrange(start + mark.len() as int, end);
            assert(row_data_text(html, row_date) == Some(raw));
        }
    }
}

/// The reports of a date are the live ones of its data, which is a JSON text
/// within a JSON text.
pub proof fn the_reports_of_a_date_are_its_live_data(
    html: Seq<char>,
    date: CalendarDate,
    raw: Seq<char>,
    decoded: Seq<char>,
)
    requires
        row_data_text(html, row_date_text(date)) == Some(raw),
        json_read("\""@ + raw + "\""@) == Ok::<Json, Seq<char>>(Json::Text(decoded)),
    ensures
        data_rows_in(decoded) matches Some(rows) ==> page_data_rows(html, date) == Ok::<
            Seq<DataView>,
            Seq<char>,
        >(live_rows(rows)),
        data_rows_in(decoded) is None ==> page_data_rows(html, date) is Err,
{
}

} // verus!
