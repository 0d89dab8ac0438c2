//! What the calendar page holds for a day: the reports that are there, what
//! of them is in the way of a write, and taking them away.

use crate::calendar::{find_where, first_where, AttrCheck, AttrTest};
use crate::date::{dated, iso_text, is_date, moment_from_millis, moment_text, CalendarDate, NaiveDate};
use crate::dom::{attr_at, page_of, positions, select, select_in, text_in, Dom, Page, Selector};
use crate::fields::{pair_texts, FormFields};
use crate::forms::{format_form_fields_for_display, shown_form};
use crate::json::{json_quoted, json_read, parse_json, quote, Json, JsonValue};
use crate::months::{
    calendar_selected_day_value, month_field, month_field_value, selected_day,
};
use crate::records::{
    bool_field, bool_in_field, field_views, fields_of, find_fault, is_null_field, items_of,
    json_fault, json_items, null_field, opt_text_field, opt_text_in_field, record_fields,
    text_field, text_in_field, u32_field, u32_in_field,
};
use crate::submit::{
    calendar_grid_dom_id, day_field_prefix, extract_submit_error_message, field_or_empty,
    field_prefix, fields_after, fields_after_response, grid_id, refusal, retain_browser_fields,
    sent_fields, ShownWrite, SubmitPage, SubmitPreview,
};
use crate::text::{
    char_from, chars_of, copy_opt, decimal, decimal_text, ends_with, ends_with_text, find_char,
    find_from, find_last, index_from, last_index, opt_text, or_else, parse_int, parse_up_to,
    parsed_int, parsed_up_to, replace_char, replaced, same, second_piece, second_piece_of,
    signed_decimal, signed_text, slice_text, split, split_at_char, starts_with, starts_with_text,
    strs, texts, trim, trimmed,
};
use vstd::prelude::*;

verus! {

/// The id of a report that is none.
pub const EMPTY_OBJECT_ID: &'static str = "00000000-0000-0000-0000-000000000000";

/// A report that the calendar page holds for a day.
#[derive(Debug, Clone)]
pub struct CalendarExistingReport {
    pub object_id: String,
    pub employee_id: u32,
    pub row_name: String,
    pub symbol_code: Option<String>,
    pub symbol_name: Option<String>,
    pub is_absence: bool,
    pub report_date_iso_utc: String,
}

/// A report that the calendar page holds for a day, as mathematics.
pub struct ReportView {
    pub object_id: Seq<char>,
    pub employee_id: nat,
    pub row_name: Seq<char>,
    pub symbol_code: Option<Seq<char>>,
    pub symbol_name: Option<Seq<char>>,
    pub is_absence: bool,
    pub report_date_iso_utc: Seq<char>,
}

impl View for CalendarExistingReport {
    type V = ReportView;

    open spec fn view(&self) -> ReportView {
        ReportView {
            object_id: self.object_id@,
            employee_id: self.employee_id as nat,
            row_name: self.row_name@,
            symbol_code: opt_text(self.symbol_code),
            symbol_name: opt_text(self.symbol_name),
            is_absence: self.is_absence,
            report_date_iso_utc: self.report_date_iso_utc@,
        }
    }
}

impl CalendarExistingReport {
    /// A copy of the record.
    pub fn copy(&self) -> (copy: CalendarExistingReport)
        ensures
            copy@ == self@,
    {
        CalendarExistingReport {
            object_id: self.object_id.clone(),
            employee_id: self.employee_id,
            row_name: self.row_name.clone(),
            symbol_code: copy_opt(&self.symbol_code),
            symbol_name: copy_opt(&self.symbol_name),
            is_absence: self.is_absence,
            report_date_iso_utc: self.report_date_iso_utc.clone(),
        }
    }
}

/// The views of a list of reports.
pub open spec fn report_views(reports: Seq<CalendarExistingReport>) -> Seq<ReportView> {
    reports.map_values(|report: CalendarExistingReport| report@)
}

// ---------------------------------------------------------------------------
// Rows of the page
// ---------------------------------------------------------------------------

/// A report row of the page.
pub struct ParsedCalendarReportRow {
    pub row_name: String,
    pub symbol_code: Option<String>,
    pub symbol_name: Option<String>,
    pub is_absence: bool,
}

/// A report row of the page, as mathematics.
pub struct RowView {
    pub row_name: Seq<char>,
    pub symbol_code: Option<Seq<char>>,
    pub symbol_name: Option<Seq<char>>,
    pub is_absence: bool,
}

impl View for ParsedCalendarReportRow {
    type V = RowView;

    open spec fn view(&self) -> RowView {
        RowView {
            row_name: self.row_name@,
            symbol_code: opt_text(self.symbol_code),
            symbol_name: opt_text(self.symbol_name),
            is_absence: self.is_absence,
        }
    }
}

/// The views of a list of rows.
pub open spec fn row_views(rows: Seq<ParsedCalendarReportRow>) -> Seq<RowView> {
    rows.map_values(|row: ParsedCalendarReportRow| row@)
}

/// The name under which a row is deleted.
pub open spec fn row_delete_name(
    employee_id: Seq<char>,
    date: CalendarDate,
    suffix: Seq<char>,
) -> Seq<char> {
    field_prefix(employee_id, date) + "$cellOf_SysColumn_Delete_EmployeeReports_row_"@ + suffix
        + "$sysCol_EmployeeReports_row_"@ + suffix
}

/// The option of a drop-down that a row reports: the one marked selected, else
/// the first with a value.
pub open spec fn reported_option(dom: Dom, drop_down: int) -> Option<int> {
    let options = select_in(dom, drop_down, Selector::AnyOption);
    or_else(
        first_where(dom, options, "selected"@, AttrTest::Present),
        first_where(dom, options, "value"@, AttrTest::NotEmpty),
    )
}

/// What a report row of the page says.
pub open spec fn report_row(dom: Dom, row: int, employee_id: Seq<char>, date: CalendarDate) -> Option<
    RowView,
> {
    let suffix = match attr_at(dom, row, "id"@) {
        Some(id) => second_piece(id, "_EmployeeReports_row_"@),
        None => None,
    };
    let drop_downs = select_in(dom, row, Selector::Select);
    match suffix {
        Some(suffix) => if drop_downs.len() > 0 {
            let row_name = row_delete_name(employee_id, date, suffix);
            match reported_option(dom, drop_downs[0]) {
                Some(option) => Some(
                    RowView {
                        row_name,
                        symbol_code: match attr_at(dom, option, "value"@) {
                            Some(value) => if value.len() > 0 {
                                Some(value)
                            } else {
                                None
                            },
                            None => None,
                        },
                        symbol_name: Some(trimmed(text_in(dom, option))),
                        is_absence: or_else(
                            attr_at(dom, option, "isAbsenceSymbol"@),
                            attr_at(dom, option, "isabsencesymbol"@),
                        ) == Some("true"@),
                    },
                ),
                None => Some(
                    RowView { row_name, symbol_code: None, symbol_name: None, is_absence: false },
                ),
            }
        } else {
            None
        },
        None => None,
    }
}

/// What the report rows of a list say.
pub open spec fn report_rows(
    dom: Dom,
    rows: Seq<int>,
    employee_id: Seq<char>,
    date: CalendarDate,
) -> Seq<RowView>
    decreases rows.len(),
{
    if rows.len() == 0 {
        seq![]
    } else {
        let before = report_rows(dom, rows.drop_last(), employee_id, date);
        match report_row(dom, rows.last(), employee_id, date) {
            Some(row) => before.push(row),
            None => before,
        }
    }
}

/// The name under which a row is deleted.
pub fn delete_row_name(employee_id: &str, date: NaiveDate, suffix: &str) -> (name: String)
    ensures
        name@ == row_delete_name(employee_id@, date@, suffix@),
{
    let mut name = day_field_prefix(employee_id, date);
    name.append("$cellOf_SysColumn_Delete_EmployeeReports_row_");
    name.append(suffix);
    name.append("$sysCol_EmployeeReports_row_");
    name.append(suffix);
    name
}

fn parse_report_row(page: &Page, row: usize, employee_id: &str, date: NaiveDate) -> (parsed: Option<
    ParsedCalendarReportRow,
>)
    requires
        row < page@.nodes.len(),
    ensures
        match parsed {
            Some(parsed) => report_row(page@, row as int, employee_id@, date@) == Some(parsed@),
            None => report_row(page@, row as int, employee_id@, date@) is None,
        },
{
    let id = match page.attr(row, "id") {
        Some(id) => id,
        None => {
            return None;
        },
    };
    let suffix = match second_piece_of(id, "_EmployeeReports_row_") {
        Some(suffix) => suffix,
        None => {
            return None;
        },
    };
    let drop_downs = page.select_in(row, Selector::Select);
    assert(drop_downs.len() == positions(drop_downs@).len());
    if drop_downs.len() == 0 {
        return None;
    }
    let drop_down: usize = drop_downs[0];
    assert(positions(drop_downs@)[0] == drop_down);
    let options = page.select_in(drop_down, Selector::AnyOption);
    let selected: Option<usize> = match find_where(
        page,
        &options,
        "selected",
        AttrCheck::Present,
    ) {
        Some(option) => Some(option),
        None => find_where(page, &options, "value", AttrCheck::NotEmpty),
    };
    let row_name = delete_row_name(employee_id, date, suffix.as_str());
    match selected {
        Some(option) => {
            let symbol_code = match page.attr(option, "value") {
                Some(value) => if value.is_empty() {
                    None
                } else {
                    Some(value.to_owned())
                },
                None => None,
            };
            let text = page.text_in(option);
            let mark = match page.attr(option, "isAbsenceSymbol") {
                Some(mark) => Some(mark),
                None => page.attr(option, "isabsencesymbol"),
            };
            let is_absence = match mark {
                Some(mark) => same(mark, "true"),
                None => false,
            };
            Some(
                ParsedCalendarReportRow {
                    row_name,
                    symbol_code,
                    symbol_name: Some(trim(text.as_str())),
                    is_absence,
                },
            )
        },
        None => Some(
            ParsedCalendarReportRow {
                row_name,
                symbol_code: None,
                symbol_name: None,
                is_absence: false,
            },
        ),
    }
}

/// The report rows of a page.
pub fn parse_calendar_report_rows_from_dom(page: &Page, employee_id: &str, date: NaiveDate) -> (rows:
    Vec<ParsedCalendarReportRow>)
    ensures
        row_views(rows@) == report_rows(
            page@,
            select(page@, Selector::EmployeeReportRow),
            employee_id@,
            date@,
        ),
{
    let found = page.select(Selector::EmployeeReportRow);
    let ghost all = positions(found@);
    let mut rows: Vec<ParsedCalendarReportRow> = Vec::new();
    let mut i: usize = 0;
    while i < found.len()
        invariant
            i <= found.len(),
            all == positions(found@),
            forall|j: int| 0 <= j < found.len() ==> (#[trigger] found@[j]) < page@.nodes.len(),
            row_views(rows@) == report_rows(page@, all.take(i as int), employee_id@, date@),
        decreases found.len() - i,
    {
        assert(all.take(i + 1).drop_last() == all.take(i as int));
        assert(all.take(i + 1).last() == found@[i as int]);
        let ghost before = row_views(rows@);
        if let Some(row) = parse_report_row(page, found[i], employee_id, date) {
            rows.push(row);
            assert(row_views(rows@) == before.push(row@));
        }
        i = i + 1;
    }
    assert(all.take(all.len() as int) == all);
    rows
}

// ---------------------------------------------------------------------------
// Row data
// ---------------------------------------------------------------------------

/// A report in the data that the page carries for its rows.
#[derive(Debug)]
pub struct RowDataEntry {
    pub id: String,
    pub employee_id: u32,
    pub report_date: String,
    pub from_date: Option<String>,
    pub is_range: bool,
    pub is_report_deleted: bool,
    pub symbol_code: Option<String>,
    pub symbol_name: Option<String>,
}

/// A report in the data that the page carries, as mathematics.
pub struct DataView {
    pub id: Seq<char>,
    pub employee_id: nat,
    pub report_date: Seq<char>,
    pub from_date: Option<Seq<char>>,
    pub is_range: bool,
    pub is_report_deleted: bool,
    pub symbol_code: Option<Seq<char>>,
    pub symbol_name: Option<Seq<char>>,
}

impl View for RowDataEntry {
    type V = DataView;

    open spec fn view(&self) -> DataView {
        DataView {
            id: self.id@,
            employee_id: self.employee_id as nat,
            report_date: self.report_date@,
            from_date: opt_text(self.from_date),
            is_range: self.is_range,
            is_report_deleted: self.is_report_deleted,
            symbol_code: opt_text(self.symbol_code),
            symbol_name: opt_text(self.symbol_name),
        }
    }
}

/// The views of a list of reports.
pub open spec fn data_views(rows: Seq<RowDataEntry>) -> Seq<DataView> {
    rows.map_values(|row: RowDataEntry| row@)
}

/// The fields of a symbol of a report.
pub open spec fn symbol_names() -> Seq<Seq<char>> {
    seq!["First"@, "Second"@]
}

/// The code and the name of a symbol that may be missing or null; `None` says
/// that it is something else.
pub open spec fn optional_symbol(field: Option<Seq<char>>) -> Option<
    (Option<Seq<char>>, Option<Seq<char>>),
> {
    match field {
        None => Some((None, None)),
        Some(written) => if null_field(field) {
            Some((None, None))
        } else {
            match record_fields(written, symbol_names()) {
                Some(fields) => match (opt_text_field(fields[0]), opt_text_field(fields[1])) {
                    (Some(first), Some(second)) => Some((first, second)),
                    _ => None,
                },
                None => None,
            }
        },
    }
}

/// The fields of a report.
pub open spec fn data_names() -> Seq<Seq<char>> {
    seq![
        "ID"@,
        "EmployeeId"@,
        "ReportDate"@,
        "FromDate"@,
        "IsRange"@,
        "IsReportDeleted"@,
        "Symbol"@,
    ]
}

/// The report that a JSON text stands for.
pub open spec fn data_row(text: Seq<char>) -> Option<DataView> {
    match record_fields(text, data_names()) {
        Some(fields) => match (
            text_field(fields[0]),
            u32_field(fields[1]),
            text_field(fields[2]),
            opt_text_field(fields[3]),
            bool_field(fields[4]),
            bool_field(fields[5]),
            optional_symbol(fields[6]),
        ) {
            (
                Some(id),
                Some(employee_id),
                Some(report_date),
                Some(from_date),
                Some(is_range),
                Some(is_report_deleted),
                Some(symbol),
            ) => Some(
                DataView {
                    id,
                    employee_id,
                    report_date,
                    from_date,
                    is_range,
                    is_report_deleted,
                    symbol_code: symbol.0,
                    symbol_name: symbol.1,
                },
            ),
            _ => None,
        },
        None => None,
    }
}

/// The reports that JSON texts stand for, where all do.
pub open spec fn data_rows(items: Seq<Seq<char>>) -> Option<Seq<DataView>>
    decreases items.len(),
{
    if items.len() == 0 {
        Some(seq![])
    } else {
        match (data_rows(items.drop_last()), data_row(items.last())) {
            (Some(before), Some(row)) => Some(before.push(row)),
            _ => None,
        }
    }
}

/// The reports of a JSON text, where it is an array of reports.
pub open spec fn data_rows_in(text: Seq<char>) -> Option<Seq<DataView>> {
    match (json_fault(text), json_items(text)) {
        (None, Some(items)) => data_rows(items),
        _ => None,
    }
}

/// Whether a list of reports has an id.
pub open spec fn has_id(rows: Seq<DataView>, id: Seq<char>) -> bool {
    exists|i: int| 0 <= i < rows.len() && (#[trigger] rows[i]).id == id
}

/// The reports that are not deleted, each id once.
pub open spec fn live_rows(rows: Seq<DataView>) -> Seq<DataView>
    decreases rows.len(),
{
    if rows.len() == 0 {
        seq![]
    } else {
        let before = live_rows(rows.drop_last());
        if rows.last().is_report_deleted || has_id(before, rows.last().id) {
            before
        } else {
            before.push(rows.last())
        }
    }
}

fn read_symbol(field: &Option<String>) -> (symbol: Option<(Option<String>, Option<String>)>)
    ensures
        match symbol {
            Some(symbol) => optional_symbol(opt_text(*field)) == Some(
                (opt_text(symbol.0), opt_text(symbol.1)),
            ),
            None => optional_symbol(opt_text(*field)) is None,
        },
{
    match field {
        None => Some((None, None)),
        Some(written) => {
            if is_null_field(field) {
                return Some((None, None));
            }
            let names: Vec<&'static str> = vec!["First", "Second"];
            assert(strs(names@) == symbol_names());
            match fields_of(written.as_str(), &names) {
                Some(fields) => {
                    assert forall|i: int| 0 <= i < 2 implies field_views(fields@)[i] == opt_text(
                        #[trigger] fields@[i],
                    ) by {}
                    let first = opt_text_in_field(&fields[0]);
                    let second = opt_text_in_field(&fields[1]);
                    match (first, second) {
                        (Some(first), Some(second)) => Some((first, second)),
                        _ => None,
                    }
                },
                None => None,
            }
        },
    }
}

fn read_data_row(text: &str) -> (row: Option<RowDataEntry>)
    ensures
        match row {
            Some(row) => data_row(text@) == Some(row@),
            None => data_row(text@) is None,
        },
{
    let names: Vec<&'static str> = vec![
        "ID",
        "EmployeeId",
        "ReportDate",
        "FromDate",
        "IsRange",
        "IsReportDeleted",
        "Symbol",
    ];
    assert(strs(names@) == data_names());
    let fields = match fields_of(text, &names) {
        Some(fields) => fields,
        None => {
            return None;
        },
    };
    assert forall|i: int| 0 <= i < 7 implies field_views(fields@)[i] == opt_text(
        #[trigger] fields@[i],
    ) by {}
    let id = text_in_field(&fields[0]);
    let employee_id = u32_in_field(&fields[1]);
    let report_date = text_in_field(&fields[2]);
    let from_date = opt_text_in_field(&fields[3]);
    let is_range = bool_in_field(&fields[4]);
    let is_report_deleted = bool_in_field(&fields[5]);
    let symbol = read_symbol(&fields[6]);
    match (id, employee_id, report_date, from_date, is_range, is_report_deleted, symbol) {
        (
            Some(id),
            Some(employee_id),
            Some(report_date),
            Some(from_date),
            Some(is_range),
            Some(is_report_deleted),
            Some(symbol),
        ) => Some(
            RowDataEntry {
                id,
                employee_id,
                report_date,
                from_date,
                is_range,
                is_report_deleted,
                symbol_code: symbol.0,
                symbol_name: symbol.1,
            },
        ),
        _ => None,
    }
}

proof fn data_rows_need_each(items: Seq<Seq<char>>, at: int)
    requires
        0 <= at < items.len(),
        data_row(items[at]) is None,
    ensures
        data_rows(items) is None,
    decreases items.len(),
{
    if at < items.len() - 1 {
        assert(items.drop_last()[at] == items[at]);
        data_rows_need_each(items.drop_last(), at);
    }
}

fn has_row(rows: &Vec<RowDataEntry>, id: &str) -> (found: bool)
    ensures
        found == has_id(data_views(rows@), id@),
{
    let ghost all = data_views(rows@);
    let mut i: usize = 0;
    while i < rows.len()
        invariant
            i <= rows.len(),
            all == data_views(rows@),
            forall|j: int| 0 <= j < i ==> (#[trigger] all[j]).id != id@,
        decreases rows.len() - i,
    {
        assert(all[i as int].id == rows@[i as int].id@);
        if same(rows[i].id.as_str(), id) {
            return true;
        }
        i = i + 1;
    }
    false
}

/// The reports with one more, unless that is deleted or its id is there.
fn add_live_row(rows: &mut Vec<RowDataEntry>, row: RowDataEntry)
    ensures
        data_views(final(rows)@) == (if row@.is_report_deleted || has_id(
            data_views(old(rows)@),
            row@.id,
        ) {
            data_views(old(rows)@)
        } else {
            data_views(old(rows)@).push(row@)
        }),
{
    let ghost before = data_views(rows@);
    if !row.is_report_deleted && !has_row(rows, row.id.as_str()) {
        rows.push(row);
        assert(data_views(rows@) == before.push(row@));
    }
}

/// The reports that JSON texts stand for, but those that are deleted, each id
/// once; `None` where one is no report.
pub fn live_data_rows(items: &Vec<String>) -> (rows: Option<Vec<RowDataEntry>>)
    ensures
        match (data_rows(texts(items@)), rows) {
            (Some(all), Some(rows)) => data_views(rows@) == live_rows(all),
            (None, None) => true,
            _ => false,
        },
{
    let ghost all = texts(items@);
    let mut rows: Vec<RowDataEntry> = Vec::new();
    let ghost mut seen: Seq<DataView> = seq![];
    let mut i: usize = 0;
    while i < items.len()
        invariant
            i <= items.len(),
            all == texts(items@),
            data_rows(all.take(i as int)) == Some(seen),
            data_views(rows@) == live_rows(seen),
        decreases items.len() - i,
    {
        assert(all.take(i + 1).drop_last() == all.take(i as int));
        assert(all.take(i + 1).last() == items@[i as int]@);
        let row = match read_data_row(items[i].as_str()) {
            Some(row) => row,
            None => {
                proof {
                    assert(all[i as int] == items@[i as int]@);
                    data_rows_need_each(all, i as int);
                }
                return None;
            },
        };
        proof {
            assert(seen.push(row@).drop_last() == seen);
            seen = seen.push(row@);
        }
        add_live_row(&mut rows, row);
        i = i + 1;
    }
    assert(all.take(all.len() as int) == all);
    Some(rows)
}

/// How the page writes the date of a row: without zeros in front.
pub open spec fn row_date_text(date: CalendarDate) -> Seq<char> {
    signed_decimal(date.year) + "-"@ + decimal(date.month as nat) + "-"@ + decimal(date.day as nat)
}

/// The row data that a page carries for a row date: what stands between the
/// last opening mark before the first mention of the date, and the mention.
pub open spec fn row_data_text(html: Seq<char>, row_date: Seq<char>) -> Option<Seq<char>> {
    match index_from(html, "\",\"RowDate\":\""@ + row_date + "\""@, 0) {
        Some(end) => match last_index(html.take(end), "RowData\":\""@) {
            Some(start) => Some(html.subrange(start + "RowData\":\""@.len() as int, end)),
            None => None,
        },
        None => None,
    }
}

/// The reports that a page carries for a date, or what is wrong with them.
pub open spec fn page_data_rows(html: Seq<char>, date: CalendarDate) -> Result<
    Seq<DataView>,
    Seq<char>,
> {
    match row_data_text(html, row_date_text(date)) {
        Some(raw) => match json_read("\""@ + raw + "\""@) {
            Ok(Json::Text(decoded)) => match data_rows_in(decoded) {
                Some(rows) => Ok(live_rows(rows)),
                None => Err("parse RowData array for "@ + iso_text(date)),
            },
            _ => Err("decode RowData JSON string for "@ + iso_text(date)),
        },
        None => Err("missing RowData JSON for "@ + iso_text(date)),
    }
}

/// The row data that a page carries for a row date.
pub fn extract_row_data_json_for_date(html: &str, row_date: &str) -> (raw: Option<String>)
    ensures
        opt_text(raw) == row_data_text(html@, row_date@),
{
    let chars = chars_of(html);
    let mut mention = "\",\"RowDate\":\"".to_owned();
    mention.append(row_date);
    mention.append("\"");
    let mention = chars_of(mention.as_str());
    let end: usize = match find_from(&chars, &mention, 0) {
        Some(end) => end,
        None => {
            return None;
        },
    };
    let head = slice_text(&chars, 0, end);
    assert(head@ == html@.take(end as int));
    let head = chars_of(head.as_str());
    let needle = chars_of("RowData\":\"");
    match find_last(&head, &needle) {
        Some(start) => {
            let raw = slice_text(&chars, start + needle.len(), end);
            Some(raw)
        },
        None => None,
    }
}

/// The reports that a page carries for a date.
pub fn parse_row_data_entries(html: &str, date: NaiveDate) -> (rows: Result<
    Vec<RowDataEntry>,
    String,
>)
    ensures
        match rows {
            Ok(rows) => page_data_rows(html@, date@) == Ok::<Seq<DataView>, Seq<char>>(
                data_views(rows@),
            ),
            Err(message) => page_data_rows(html@, date@) == Err::<Seq<DataView>, Seq<char>>(
                message@,
            ),
        },
{
    let mut row_date = signed_text(date.year() as i64);
    row_date.append("-");
    let month = decimal_text(date.month() as u64);
    row_date.append(month.as_str());
    row_date.append("-");
    let day = decimal_text(date.day() as u64);
    row_date.append(day.as_str());
    let raw = match extract_row_data_json_for_date(html, row_date.as_str()) {
        Some(raw) => raw,
        None => {
            return Err(dated("missing RowData JSON for ", date));
        },
    };
    let mut quoted = "\"".to_owned();
    quoted.append(raw.as_str());
    quoted.append("\"");
    let decoded = match parse_json(quoted.as_str()) {
        Ok(JsonValue::Text(decoded)) => decoded,
        _ => {
            return Err(dated("decode RowData JSON string for ", date));
        },
    };
    if find_fault(decoded.as_str()).is_some() {
        return Err(dated("parse RowData array for ", date));
    }
    match items_of(decoded.as_str()) {
        Some(items) => match live_data_rows(&items) {
            Some(rows) => Ok(rows),
            None => Err(dated("parse RowData array for ", date)),
        },
        None => Err(dated("parse RowData array for ", date)),
    }
}

/// The moment that the service writes as `/Date(millis)/`, written as a date
/// and time.
pub open spec fn service_moment(raw: Seq<char>) -> Option<Seq<char>> {
    if starts_with(raw, "/Date("@) && ends_with(raw.skip("/Date("@.len() as int), ")/"@) {
        let rest = raw.skip("/Date("@.len() as int);
        match parsed_int(rest.take(rest.len() - ")/"@.len())) {
            Some(millis) => moment_text(millis),
            None => None,
        }
    } else {
        None
    }
}

/// The moment that the service writes as `/Date(millis)/`, written as a date
/// and time.
pub fn aspx_json_date_to_iso_utc(raw: &str) -> (text: Option<String>)
    ensures
        opt_text(text) == service_moment(raw@),
{
    if !starts_with_text(raw, "/Date(") {
        return None;
    }
    let chars = chars_of(raw);
    let prefix = chars_of("/Date(");
    let suffix = chars_of(")/");
    let rest = slice_text(&chars, prefix.len(), chars.len());
    assert(rest@ == raw@.skip("/Date("@.len() as int));
    if !ends_with_text(rest.as_str(), ")/") {
        return None;
    }
    let rest_chars = chars_of(rest.as_str());
    let millis = slice_text(&rest_chars, 0, rest_chars.len() - suffix.len());
    assert(millis@ == rest@.take(rest@.len() - ")/"@.len()));
    match parse_int(millis.as_str()) {
        Some(millis) => moment_from_millis(millis),
        None => None,
    }
}

/// The moment of a report: of a range the start, where there is one.
pub open spec fn report_moment(row: DataView) -> Option<Seq<char>> {
    if row.is_range && row.from_date is Some {
        service_moment(row.from_date->0)
    } else {
        service_moment(row.report_date)
    }
}

/// The moment of a report: of a range the start, where there is one.
pub fn row_data_report_date_to_iso_utc(row: &RowDataEntry) -> (text: Option<String>)
    ensures
        opt_text(text) == report_moment(row@),
{
    if row.is_range {
        if let Some(from) = &row.from_date {
            return aspx_json_date_to_iso_utc(from.as_str());
        }
    }
    aspx_json_date_to_iso_utc(row.report_date.as_str())
}

// ---------------------------------------------------------------------------
// Reports of a day
// ---------------------------------------------------------------------------

/// The first place of a list, from `from` on, that is not used and whose
/// symbol is the wanted one.
pub open spec fn same_symbol_from(
    code: Option<Seq<char>>,
    data: Seq<DataView>,
    used: Seq<bool>,
    from: int,
) -> Option<int>
    decreases data.len() - from,
{
    if from < 0 || from >= data.len() {
        None
    } else if !used[from] && data[from].symbol_code == code {
        Some(from)
    } else {
        same_symbol_from(code, data, used, from + 1)
    }
}

/// The first place that is not used, from `from` on.
pub open spec fn unused_from(used: Seq<bool>, from: int) -> Option<int>
    decreases used.len() - from,
{
    if from < 0 || from >= used.len() {
        None
    } else if !used[from] {
        Some(from)
    } else {
        unused_from(used, from + 1)
    }
}

/// The data that belongs to a row of the page: the first not used with the
/// same symbol, else the first not used.
pub open spec fn data_for(row: RowView, data: Seq<DataView>, used: Seq<bool>) -> Option<int> {
    or_else(same_symbol_from(row.symbol_code, data, used, 0), unused_from(used, 0))
}

/// The report of a row of the page and the data that belongs to it.
pub open spec fn joined_report(row: RowView, data: DataView, moment: Seq<char>) -> ReportView {
    ReportView {
        object_id: data.id,
        employee_id: data.employee_id,
        row_name: row.row_name,
        symbol_code: or_else(row.symbol_code, data.symbol_code),
        symbol_name: or_else(row.symbol_name, data.symbol_name),
        is_absence: row.is_absence,
        report_date_iso_utc: moment,
    }
}

/// The reports of some rows of the page, and which data were used for them.
/// A row for which no data is left has no report.
pub open spec fn joined_reports(
    rows: Seq<RowView>,
    data: Seq<DataView>,
    date: CalendarDate,
) -> Result<(Seq<ReportView>, Seq<bool>), Seq<char>>
    decreases rows.len(),
{
    if rows.len() == 0 {
        Ok((seq![], Seq::new(data.len(), |i: int| false)))
    } else {
        match joined_reports(rows.drop_last(), data, date) {
            Ok((reports, used)) => match data_for(rows.last(), data, used) {
                Some(at) => match report_moment(data[at]) {
                    Some(moment) => Ok(
                        (
                            reports.push(joined_report(rows.last(), data[at], moment)),
                            used.update(at, true),
                        ),
                    ),
                    None => Err("parse row-data report date for "@ + iso_text(date)),
                },
                None => Ok((reports, used)),
            },
            Err(message) => Err(message),
        }
    }
}

/// The reports that a page holds for a day, or what is wrong with them.
pub open spec fn page_reports(html: Seq<char>, employee_id: Seq<char>, date: CalendarDate) -> Result<
    Seq<ReportView>,
    Seq<char>,
> {
    let dom = page_of(html);
    let rows = report_rows(dom, select(dom, Selector::EmployeeReportRow), employee_id, date);
    if rows.len() == 0 {
        Ok(seq![])
    } else {
        match page_data_rows(html, date) {
            Ok(data) => match joined_reports(rows, data, date) {
                Ok((reports, _)) => Ok(reports),
                Err(message) => Err(message),
            },
            Err(message) => Err(message),
        }
    }
}

fn same_opt(a: &Option<String>, b: &Option<String>) -> (equal: bool)
    ensures
        equal == (opt_text(*a) == opt_text(*b)),
{
    match (a, b) {
        (Some(a), Some(b)) => same(a.as_str(), b.as_str()),
        (None, None) => true,
        _ => false,
    }
}

fn find_data(row: &ParsedCalendarReportRow, data: &Vec<RowDataEntry>, used: &Vec<bool>) -> (found:
    Option<usize>)
    requires
        used.len() == data.len(),
    ensures
        match found {
            Some(at) => at < data.len() && data_for(row@, data_views(data@), used@) == Some(
                at as int,
            ),
            None => data_for(row@, data_views(data@), used@) is None,
        },
{
    let ghost all = data_views(data@);
    let mut i: usize = 0;
    while i < data.len()
        invariant
            i <= data.len(),
            used.len() == data.len(),
            all == data_views(data@),
            same_symbol_from(row@.symbol_code, all, used@, 0) == same_symbol_from(
                row@.symbol_code,
                all,
                used@,
                i as int,
            ),
        decreases data.len() - i,
    {
        assert(all[i as int] == data@[i as int]@);
        if !used[i] && same_opt(&data[i].symbol_code, &row.symbol_code) {
            return Some(i);
        }
        i = i + 1;
    }
    let mut k: usize = 0;
    while k < used.len()
        invariant
            k <= used.len(),
            used.len() == data.len(),
            all == data_views(data@),
            same_symbol_from(row@.symbol_code, all, used@, 0) is None,
            unused_from(used@, 0) == unused_from(used@, k as int),
        decreases used.len() - k,
    {
        if !used[k] {
            return Some(k);
        }
        k = k + 1;
    }
    None
}

fn join_report(row: &ParsedCalendarReportRow, data: &RowDataEntry, moment: String) -> (report:
    CalendarExistingReport)
    ensures
        report@ == joined_report(row@, data@, moment@),
{
    CalendarExistingReport {
        object_id: data.id.clone(),
        employee_id: data.employee_id,
        row_name: row.row_name.clone(),
        symbol_code: if row.symbol_code.is_some() {
            copy_opt(&row.symbol_code)
        } else {
            copy_opt(&data.symbol_code)
        },
        symbol_name: if row.symbol_name.is_some() {
            copy_opt(&row.symbol_name)
        } else {
            copy_opt(&data.symbol_name)
        },
        is_absence: row.is_absence,
        report_date_iso_utc: moment,
    }
}

proof fn joined_errors_stay(rows: Seq<RowView>, data: Seq<DataView>, date: CalendarDate, at: int)
    requires
        0 <= at <= rows.len(),
        joined_reports(rows.take(at), data, date) is Err,
    ensures
        joined_reports(rows, data, date) == joined_reports(rows.take(at), data, date),
    decreases rows.len() - at,
{
    if at == rows.len() {
        assert(rows.take(at) == rows);
    } else {
        assert(rows.take(at + 1).drop_last() == rows.take(at));
        joined_errors_stay(rows, data, date, at + 1);
    }
}

/// Joins the rows of the page with the data that belongs to them.
pub fn join_reports(
    rows: Vec<ParsedCalendarReportRow>,
    data: &Vec<RowDataEntry>,
    date: NaiveDate,
) -> (reports: Result<Vec<CalendarExistingReport>, String>)
    ensures
        match reports {
            Ok(reports) => joined_reports(row_views(rows@), data_views(data@), date@) matches Ok(
                pair,
            ) && pair.0 == report_views(reports@),
            Err(message) => joined_reports(row_views(rows@), data_views(data@), date@) == Err::<
                (Seq<ReportView>, Seq<bool>),
                Seq<char>,
            >(message@),
        },
{
    let ghost all_rows = row_views(rows@);
    let ghost all_data = data_views(data@);
    let mut used: Vec<bool> = Vec::new();
    let mut n: usize = 0;
    while n < data.len()
        invariant
            n <= data.len(),
            used@ == Seq::new(n as nat, |i: int| false),
        decreases data.len() - n,
    {
        used.push(false);
        n = n + 1;
        assert(used@ == Seq::new(n as nat, |i: int| false));
    }
    let mut reports: Vec<CalendarExistingReport> = Vec::new();
    let mut i: usize = 0;
    assert(all_rows.take(0) == Seq::<RowView>::empty());
    assert(report_views(reports@) == Seq::<ReportView>::empty());
    assert(used@ == Seq::new(all_data.len(), |i: int| false));
    while i < rows.len()
        invariant
            i <= rows.len(),
            all_rows == row_views(rows@),
            used.len() == data.len(),
            all_data == data_views(data@),
            joined_reports(all_rows.take(i as int), all_data, date@) == Ok::<
                (Seq<ReportView>, Seq<bool>),
                Seq<char>,
            >((report_views(reports@), used@)),
        decreases rows.len() - i,
    {
        let row = &rows[i];
        assert(all_rows.take(i + 1).drop_last() == all_rows.take(i as int));
        assert(all_rows.take(i + 1).last() == row@);
        if let Some(at) = find_data(row, data, &used) {
            assert(all_data[at as int] == data@[at as int]@);
            let moment = match row_data_report_date_to_iso_utc(&data[at]) {
                Some(moment) => moment,
                None => {
                    proof {
                        joined_errors_stay(all_rows, all_data, date@, i + 1);
                    }
                    return Err(dated("parse row-data report date for ", date));
                },
            };
            let ghost before = report_views(reports@);
            let report = join_report(row, &data[at], moment);
            reports.push(report);
            assert(report_views(reports@) == before.push(report@));
            used.set(at, true);
        }
        i = i + 1;
    }
    assert(all_rows.take(all_rows.len() as int) == all_rows);
    Ok(reports)
}

/// The reports that a page holds for a day.
pub fn parse_calendar_existing_reports(html: &str, employee_id: &str, date: NaiveDate) -> (reports:
    Result<Vec<CalendarExistingReport>, String>)
    ensures
        match reports {
            Ok(reports) => page_reports(html@, employee_id@, date@) == Ok::<
                Seq<ReportView>,
                Seq<char>,
            >(report_views(reports@)),
            Err(message) => page_reports(html@, employee_id@, date@) == Err::<
                Seq<ReportView>,
                Seq<char>,
            >(message@),
        },
{
    let page = Page::parse(html);
    let rows = parse_calendar_report_rows_from_dom(&page, employee_id, date);
    assert(rows.len() == row_views(rows@).len());
    if rows.len() == 0 {
        let none: Vec<CalendarExistingReport> = Vec::new();
        assert(report_views(none@) == Seq::<ReportView>::empty());
        return Ok(none);
    }
    match parse_row_data_entries(html, date) {
        Ok(data) => join_reports(rows, &data, date),
        Err(message) => Err(message),
    }
}

// ---------------------------------------------------------------------------
// The day that is being written
// ---------------------------------------------------------------------------

/// The calendar page with a day selected.
pub struct CalendarSubmitContext {
    pub url: String,
    pub date: NaiveDate,
    pub employee_id: String,
    pub fields: FormFields,
    pub reports: Vec<CalendarExistingReport>,
}

/// The calendar page with a day selected, as mathematics.
pub struct ContextView {
    pub url: Seq<char>,
    pub date: CalendarDate,
    pub employee_id: Seq<char>,
    pub fields: Map<Seq<char>, Seq<char>>,
    pub reports: Seq<ReportView>,
}

impl View for CalendarSubmitContext {
    type V = ContextView;

    open spec fn view(&self) -> ContextView {
        ContextView {
            url: self.url@,
            date: self.date@,
            employee_id: self.employee_id@,
            fields: self.fields@,
            reports: report_views(self.reports@),
        }
    }
}

/// The id of the report that a write of the day goes to: the first that is
/// one.
pub open spec fn target_object(reports: Seq<ReportView>) -> Seq<char>
    decreases reports.len(),
{
    if reports.len() == 0 {
        EMPTY_OBJECT_ID@
    } else if reports[0].object_id != EMPTY_OBJECT_ID@ {
        reports[0].object_id
    } else {
        target_object(reports.skip(1))
    }
}

/// The id of the report that a write of the day goes to.
pub fn calendar_submit_object_id(context: &CalendarSubmitContext) -> (id: String)
    ensures
        id@ == target_object(context@.reports),
{
    let ghost all = context@.reports;
    let mut i: usize = 0;
    assert(all.skip(0) == all);
    while i < context.reports.len()
        invariant
            i <= context.reports.len(),
            all == report_views(context.reports@),
            target_object(all.skip(i as int)) == target_object(all),
        decreases context.reports.len() - i,
    {
        assert(all.skip(i as int).skip(1) == all.skip(i + 1));
        assert(all.skip(i as int)[0] == context.reports@[i as int]@);
        if !same(context.reports[i].object_id.as_str(), EMPTY_OBJECT_ID) {
            return context.reports[i].object_id.clone();
        }
        i = i + 1;
    }
    EMPTY_OBJECT_ID.to_owned()
}

/// Whether a report is in the way of a kind: an absence of another kind.
pub open spec fn conflicts(report: ReportView, desired: Seq<char>) -> bool {
    report.is_absence && report.symbol_code != Some(desired)
}

/// The first report that is in the way of a kind.
pub open spec fn first_conflict(reports: Seq<ReportView>, desired: Seq<char>) -> Option<ReportView>
    decreases reports.len(),
{
    if reports.len() == 0 {
        None
    } else if conflicts(reports[0], desired) {
        Some(reports[0])
    } else {
        first_conflict(reports.skip(1), desired)
    }
}

/// The reports that are in the way of a kind.
pub open spec fn conflicting(reports: Seq<ReportView>, desired: Seq<char>) -> Seq<ReportView>
    decreases reports.len(),
{
    if reports.len() == 0 {
        seq![]
    } else {
        let before = conflicting(reports.drop_last(), desired);
        if conflicts(reports.last(), desired) {
            before.push(reports.last())
        } else {
            before
        }
    }
}

fn has_code(report: &CalendarExistingReport, code: &str) -> (answer: bool)
    ensures
        answer == (report@.symbol_code == Some(code@)),
{
    match &report.symbol_code {
        Some(own) => same(own.as_str(), code),
        None => false,
    }
}

/// The reports that are in the way of a kind.
pub fn conflicting_absence_reports(context: &CalendarSubmitContext, desired_type_code: &str) -> (
    reports: Vec<CalendarExistingReport>)
    ensures
        report_views(reports@) == conflicting(context@.reports, desired_type_code@),
{
    let ghost all = context@.reports;
    let mut reports: Vec<CalendarExistingReport> = Vec::new();
    let mut i: usize = 0;
    while i < context.reports.len()
        invariant
            i <= context.reports.len(),
            all == report_views(context.reports@),
            report_views(reports@) == conflicting(all.take(i as int), desired_type_code@),
        decreases context.reports.len() - i,
    {
        assert(all.take(i + 1).drop_last() == all.take(i as int));
        assert(all.take(i + 1).last() == context.reports@[i as int]@);
        let ghost before = report_views(reports@);
        if context.reports[i].is_absence && !has_code(&context.reports[i], desired_type_code) {
            let report = context.reports[i].copy();
            reports.push(report);
            assert(report_views(reports@) == before.push(report@));
        }
        i = i + 1;
    }
    assert(all.take(all.len() as int) == all);
    reports
}

/// Finds the first report that is in the way of a kind.
pub fn find_conflict(context: &CalendarSubmitContext, desired_type_code: &str) -> (found: Option<
    CalendarExistingReport,
>)
    ensures
        match found {
            Some(report) => first_conflict(context@.reports, desired_type_code@) == Some(report@),
            None => first_conflict(context@.reports, desired_type_code@) is None,
        },
{
    let ghost all = context@.reports;
    let mut i: usize = 0;
    assert(all.skip(0) == all);
    while i < context.reports.len()
        invariant
            i <= context.reports.len(),
            all == report_views(context.reports@),
            first_conflict(all.skip(i as int), desired_type_code@) == first_conflict(
                all,
                desired_type_code@,
            ),
        decreases context.reports.len() - i,
    {
        assert(all.skip(i as int).skip(1) == all.skip(i + 1));
        assert(all.skip(i as int)[0] == context.reports@[i as int]@);
        if context.reports[i].is_absence && !has_code(&context.reports[i], desired_type_code) {
            return Some(context.reports[i].copy());
        }
        i = i + 1;
    }
    None
}

/// The first report in the way is the first of the reports in the way.
pub proof fn first_conflict_is_first(reports: Seq<ReportView>, desired: Seq<char>)
    ensures
        match first_conflict(reports, desired) {
            Some(report) => conflicting(reports, desired).len() > 0 && conflicting(
                reports,
                desired,
            )[0] == report && conflicts(report, desired) && reports.contains(report),
            None => conflicting(reports, desired).len() == 0,
        },
    decreases reports.len(),
{
    if reports.len() > 0 {
        let rest = reports.skip(1);
        first_conflict_is_first(rest, desired);
        conflicting_splits(reports, desired);
        if conflicts(reports[0], desired) {
            assert(reports.contains(reports[0]));
        } else {
            assert(seq![] + conflicting(rest, desired) == conflicting(rest, desired));
            if let Some(report) = first_conflict(rest, desired) {
                let i = choose|i: int| 0 <= i < rest.len() && rest[i] == report;
                assert(reports[i + 1] == report);
            }
        }
    }
}

proof fn conflicting_splits(reports: Seq<ReportView>, desired: Seq<char>)
    requires
        reports.len() > 0,
    ensures
        conflicting(reports, desired) == (if conflicts(reports[0], desired) {
            seq![reports[0]]
        } else {
            seq![]
        }) + conflicting(reports.skip(1), desired),
    decreases reports.len(),
{
    if reports.len() == 1 {
        assert(reports.drop_last() == Seq::<ReportView>::empty());
        assert(reports.skip(1) == Seq::<ReportView>::empty());
    } else {
        conflicting_splits(reports.drop_last(), desired);
        assert(reports.drop_last().skip(1) == reports.skip(1).drop_last());
        assert(reports.skip(1).last() == reports.last());
    }
}

/// Whether some report is of a kind.
pub open spec fn has_kind(reports: Seq<ReportView>, desired: Seq<char>) -> bool {
    exists|i: int| 0 <= i < reports.len() && (#[trigger] reports[i]).symbol_code == Some(desired)
}

/// Whether the day has a report of a kind.
pub fn has_matching_report(context: &CalendarSubmitContext, desired_type_code: &str) -> (found: bool)
    ensures
        found == has_kind(context@.reports, desired_type_code@),
{
    let ghost all = context@.reports;
    let mut i: usize = 0;
    while i < context.reports.len()
        invariant
            i <= context.reports.len(),
            all == report_views(context.reports@),
            forall|j: int|
                0 <= j < i ==> (#[trigger] all[j]).symbol_code != Some(desired_type_code@),
        decreases context.reports.len() - i,
    {
        assert(all[i as int] == context.reports@[i as int]@);
        if has_code(&context.reports[i], desired_type_code) {
            return true;
        }
        i = i + 1;
    }
    false
}

/// The reports without those of an id.
pub open spec fn without_object(reports: Seq<ReportView>, id: Seq<char>) -> Seq<ReportView>
    decreases reports.len(),
{
    if reports.len() == 0 {
        seq![]
    } else {
        let before = without_object(reports.drop_last(), id);
        if reports.last().object_id == id {
            before
        } else {
            before.push(reports.last())
        }
    }
}

/// The reports after one was deleted: those that the answer shows, else those
/// from before, and in any case not the one deleted.
pub open spec fn reports_after_delete(
    previous: Seq<ReportView>,
    refreshed: Seq<ReportView>,
    deleted: Seq<char>,
) -> Seq<ReportView> {
    without_object(
        if refreshed.len() == 0 {
            previous
        } else {
            refreshed
        },
        deleted,
    )
}

/// After a deletion no report has the deleted id, and there are no more than
/// there were to choose from; where the answer shows none, fewer than before.
pub proof fn deleted_reports_are_gone(
    previous: Seq<ReportView>,
    refreshed: Seq<ReportView>,
    deleted: Seq<char>,
)
    ensures
        forall|i: int|
            0 <= i < reports_after_delete(previous, refreshed, deleted).len()
                ==> (#[trigger] reports_after_delete(previous, refreshed, deleted)[i]).object_id
                != deleted,
        refreshed.len() == 0 && (exists|i: int|
            0 <= i < previous.len() && (#[trigger] previous[i]).object_id == deleted)
            ==> reports_after_delete(previous, refreshed, deleted).len() < previous.len(),
{
    object_is_gone(previous, deleted);
    object_is_gone(refreshed, deleted);
}

proof fn object_is_gone(reports: Seq<ReportView>, id: Seq<char>)
    ensures
        forall|i: int|
            0 <= i < without_object(reports, id).len() ==> (#[trigger] without_object(
                reports,
                id,
            )[i]).object_id != id,
        without_object(reports, id).len() <= reports.len(),
        (exists|i: int| 0 <= i < reports.len() && (#[trigger] reports[i]).object_id == id)
            ==> without_object(reports, id).len() < reports.len(),
    decreases reports.len(),
{
    if reports.len() > 0 {
        let before = reports.drop_last();
        object_is_gone(before, id);
        if exists|i: int| 0 <= i < reports.len() && (#[trigger] reports[i]).object_id == id {
            let i = choose|i: int| 0 <= i < reports.len() && (#[trigger] reports[i]).object_id == id;
            if i < before.len() {
                assert(before[i].object_id == id);
            }
        }
    }
}

fn drop_object(reports: Vec<CalendarExistingReport>, id: &str) -> (kept: Vec<
    CalendarExistingReport,
>)
    ensures
        report_views(kept@) == without_object(report_views(reports@), id@),
{
    let ghost all = report_views(reports@);
    let mut kept: Vec<CalendarExistingReport> = Vec::new();
    let mut i: usize = 0;
    while i < reports.len()
        invariant
            i <= reports.len(),
            all == report_views(reports@),
            report_views(kept@) == without_object(all.take(i as int), id@),
        decreases reports.len() - i,
    {
        assert(all.take(i + 1).drop_last() == all.take(i as int));
        assert(all.take(i + 1).last() == reports@[i as int]@);
        let ghost before = report_views(kept@);
        if !same(reports[i].object_id.as_str(), id) {
            let report = reports[i].copy();
            kept.push(report);
            assert(report_views(kept@) == before.push(report@));
        }
        i = i + 1;
    }
    assert(all.take(all.len() as int) == all);
    kept
}

/// The selected day after a report was deleted: as the answer shows it, but
/// with the reports from before where it shows none, and never with the one
/// that was deleted.
pub fn merge_deleted_report_context(
    previous: CalendarSubmitContext,
    refreshed: CalendarSubmitContext,
    deleted_object_id: &str,
) -> (context: CalendarSubmitContext)
    ensures
        context@ == (ContextView {
            reports: reports_after_delete(
                previous@.reports,
                refreshed@.reports,
                deleted_object_id@,
            ),
            ..refreshed@
        }),
{
    assert(refreshed.reports.len() == refreshed@.reports.len());
    let reports = if refreshed.reports.len() == 0 {
        previous.reports
    } else {
        refreshed.reports
    };
    CalendarSubmitContext {
        url: refreshed.url,
        date: refreshed.date,
        employee_id: refreshed.employee_id,
        fields: refreshed.fields,
        reports: drop_object(reports, deleted_object_id),
    }
}

// ---------------------------------------------------------------------------
// Deleting a report
// ---------------------------------------------------------------------------

/// The event that a day's grid raises.
pub open spec fn grid_event(context: ContextView) -> Seq<char> {
    field_prefix(context.employee_id, context.date) + "$reportsGrid"@
}

/// What the script manager is told of a deletion.
pub open spec fn delete_manager_value(context: ContextView) -> Seq<char> {
    grid_event(context) + "_updatePanel|"@ + grid_event(context)
}

/// The report that is deleted, as the service wants it named.
pub open spec fn delete_argument(report: ReportView) -> Seq<char> {
    "{\"EmployeeId\":"@ + decimal(report.employee_id) + ",\"ObjectId\":"@ + json_quoted(
        report.object_id,
    ) + ",\"ReportDate\":"@ + json_quoted(report.report_date_iso_utc) + ",\"RowName\":"@
        + json_quoted(report.row_name) + "}"@
}

/// The fields of the page that a deletion sends.
pub open spec fn delete_fields(context: ContextView) -> Map<Seq<char>, Seq<char>> {
    sent_fields(context.fields, SubmitPage::Calendar, None)
}

/// The overrides of a deletion.
pub open spec fn delete_overrides(context: ContextView, report: ReportView) -> Seq<
    (Seq<char>, Seq<char>),
> {
    seq![
        (
            replaced(grid_id(context.employee_id, context.date), '_', '$') + "_action"@,
            "DELETE_ROW"@,
        ),
        ("ctl00$ms"@, delete_manager_value(context)),
        ("__EVENTTARGET"@, grid_event(context)),
        ("__EVENTARGUMENT"@, delete_argument(report)),
        ("__ASYNCPOST"@, "true"@),
        ("H-XSRF-Token"@, field_or_empty(delete_fields(context), "H-XSRF-Token"@)),
    ]
}

/// A deletion as it is shown.
pub open spec fn delete_shown(context: ContextView, report: ReportView, executed: bool) -> ShownWrite {
    ShownWrite {
        url: context.url,
        button_name: "__EVENTTARGET"@,
        button_value: grid_event(context),
        employee_id: context.employee_id,
        payload_display: shown_form(delete_fields(context), delete_overrides(context, report)),
        executed,
    }
}

/// A deletion that is ready to be sent.
pub struct DeletePlan {
    pub fields: FormFields,
    pub overrides: Vec<(String, String)>,
    pub manager_value: String,
    pub event_target: String,
    pub event_argument: String,
    pub preview: SubmitPreview,
}

fn delete_argument_text(report: &CalendarExistingReport) -> (text: String)
    ensures
        text@ == delete_argument(report@),
{
    let mut text = "{\"EmployeeId\":".to_owned();
    let employee = decimal_text(report.employee_id as u64);
    text.append(employee.as_str());
    text.append(",\"ObjectId\":");
    let object = quote(report.object_id.as_str());
    text.append(object.as_str());
    text.append(",\"ReportDate\":");
    let moment = quote(report.report_date_iso_utc.as_str());
    text.append(moment.as_str());
    text.append(",\"RowName\":");
    let name = quote(report.row_name.as_str());
    text.append(name.as_str());
    text.append("}");
    text
}

/// Makes the deletion of a report from the selected day.
pub fn plan_delete(context: &CalendarSubmitContext, report: &CalendarExistingReport, executed: bool) -> (
    plan: DeletePlan)
    ensures
        plan.fields@ == delete_fields(context@),
        pair_texts(plan.overrides@) == delete_overrides(context@, report@),
        plan.manager_value@ == delete_manager_value(context@),
        plan.event_target@ == grid_event(context@),
        plan.event_argument@ == delete_argument(report@),
        plan.preview@ == delete_shown(context@, report@, executed),
{
    let mut event_target = day_field_prefix(context.employee_id.as_str(), context.date);
    event_target.append("$reportsGrid");
    let grid = calendar_grid_dom_id(context.employee_id.as_str(), context.date);
    let mut action_key = replace_char(grid.as_str(), '_', '$');
    action_key.append("_action");
    let fields = retain_browser_fields(&context.fields, SubmitPage::Calendar, None);
    let mut manager_value = event_target.clone();
    manager_value.append("_updatePanel|");
    manager_value.append(event_target.as_str());
    let event_argument = delete_argument_text(report);
    let token = match fields.get("H-XSRF-Token") {
        Some(token) => token.clone(),
        None => "".to_owned(),
    };
    let mut overrides: Vec<(String, String)> = Vec::new();
    overrides.push((action_key, "DELETE_ROW".to_owned()));
    overrides.push(("ctl00$ms".to_owned(), manager_value.clone()));
    overrides.push(("__EVENTTARGET".to_owned(), event_target.clone()));
    overrides.push(("__EVENTARGUMENT".to_owned(), event_argument.clone()));
    overrides.push(("__ASYNCPOST".to_owned(), "true".to_owned()));
    overrides.push(("H-XSRF-Token".to_owned(), token));
    assert(pair_texts(overrides@) == delete_overrides(context@, report@));
    let payload_display = format_form_fields_for_display(&fields, &overrides);
    let preview = SubmitPreview {
        url: context.url.clone(),
        button_name: "__EVENTTARGET".to_owned(),
        button_value: event_target.clone(),
        employee_id: context.employee_id.clone(),
        payload_display,
        executed,
    };
    DeletePlan { fields, overrides, manager_value, event_target, event_argument, preview }
}

/// The selected day after the answer to a deletion, or the words with which it
/// was refused.
pub open spec fn deletion_outcome(context: ContextView, report: ReportView, response: Seq<char>) -> Result<
    ContextView,
    Seq<char>,
> {
    match refusal(response) {
        Some(message) => Err("Hilan rejected attendance delete: "@ + message),
        None => Ok(
            ContextView {
                fields: fields_after(delete_fields(context), response),
                reports: reports_after_delete(
                    context.reports,
                    match page_reports(response, context.employee_id, context.date) {
                        Ok(reports) => reports,
                        Err(_) => seq![],
                    },
                    report.object_id,
                ),
                ..context
            },
        ),
    }
}

/// Takes in the answer to a deletion.
pub fn delete_answered(
    context: CalendarSubmitContext,
    report: &CalendarExistingReport,
    response: &str,
) -> (outcome: Result<CalendarSubmitContext, String>)
    ensures
        match outcome {
            Ok(after) => deletion_outcome(context@, report@, response@) == Ok::<
                ContextView,
                Seq<char>,
            >(after@),
            Err(message) => deletion_outcome(context@, report@, response@) == Err::<
                ContextView,
                Seq<char>,
            >(message@),
        },
{
    if let Some(message) = extract_submit_error_message(response) {
        let mut error = "Hilan rejected attendance delete: ".to_owned();
        error.append(message.as_str());
        return Err(error);
    }
    let sent = retain_browser_fields(&context.fields, SubmitPage::Calendar, None);
    let fields = fields_after_response(&sent, response);
    let reports = match parse_calendar_existing_reports(
        response,
        context.employee_id.as_str(),
        context.date,
    ) {
        Ok(reports) => reports,
        Err(_) => {
            let none: Vec<CalendarExistingReport> = Vec::new();
            assert(report_views(none@) == Seq::<ReportView>::empty());
            none
        },
    };
    let refreshed = CalendarSubmitContext {
        url: context.url.clone(),
        date: context.date,
        employee_id: context.employee_id.clone(),
        fields,
        reports,
    };
    Ok(merge_deleted_report_context(context, refreshed, report.object_id.as_str()))
}

// ---------------------------------------------------------------------------
// Selecting a day
// ---------------------------------------------------------------------------

/// The overrides that select a day on the calendar page.
pub open spec fn selection_overrides(date: CalendarDate) -> Seq<(Seq<char>, Seq<char>)> {
    seq![
        ("__calendarSelectedDays"@, ","@ + selected_day(date)),
        ("ctl00$mp$currentMonth"@, month_field(date)),
        ("ctl00$mp$RefreshSelectedDays"@, "ימים נבחרים"@),
    ]
}

/// The overrides that select a day on the calendar page. The refresh wants the
/// day with a comma in front, as the browser sends it; a write wants it bare.
pub fn select_day_overrides(date: NaiveDate) -> (overrides: Vec<(String, String)>)
    ensures
        pair_texts(overrides@) == selection_overrides(date@),
{
    let mut day = ",".to_owned();
    let number = calendar_selected_day_value(date);
    day.append(number.as_str());
    let mut overrides: Vec<(String, String)> = Vec::new();
    overrides.push(("__calendarSelectedDays".to_owned(), day));
    overrides.push(("ctl00$mp$currentMonth".to_owned(), month_field_value(date)));
    overrides.push(("ctl00$mp$RefreshSelectedDays".to_owned(), "ימים נבחרים".to_owned()));
    assert(pair_texts(overrides@) == selection_overrides(date@));
    overrides
}

/// A number in the range of 32 bits.
pub open spec fn in_i32(number: Option<int>) -> Option<int> {
    match number {
        Some(value) => if i32::MIN <= value <= i32::MAX {
            Some(value)
        } else {
            None
        },
        None => None,
    }
}

/// The date that a text of three numbers between hyphens stands for.
pub open spec fn hyphen_date(raw: Seq<char>) -> Option<CalendarDate> {
    let parts = split(raw, '-');
    if parts.len() != 3 {
        None
    } else {
        match (
            in_i32(parsed_int(parts[0])),
            parsed_up_to(parts[1], u32::MAX as nat),
            parsed_up_to(parts[2], u32::MAX as nat),
        ) {
            (Some(year), Some(month), Some(day)) => {
                let date = CalendarDate { year, month: month as int, day: day as int };
                if is_date(date) {
                    Some(date)
                } else {
                    None
                }
            },
            _ => None,
        }
    }
}

/// The date of the row that an answer shows as selected.
pub open spec fn shown_row_date(html: Seq<char>) -> Option<CalendarDate> {
    match index_from(html, "\"RowDate\":\""@, 0) {
        Some(at) => {
            let start = at + "\"RowDate\":\""@.len() as int;
            match char_from(html, '"', start) {
                Some(end) => hyphen_date(html.subrange(start, end)),
                None => None,
            }
        },
        None => None,
    }
}

/// The date of the row that an answer shows as selected. The service writes
/// it without zeros in front.
pub fn selected_row_date(html: &str) -> (date: Option<NaiveDate>)
    ensures
        match date {
            Some(date) => shown_row_date(html@) == Some(date@),
            None => shown_row_date(html@) is None,
        },
{
    let chars = chars_of(html);
    let needle = chars_of("\"RowDate\":\"");
    let at: usize = match find_from(&chars, &needle, 0) {
        Some(at) => at,
        None => {
            return None;
        },
    };
    let start: usize = at + needle.len();
    let end: usize = match find_char(&chars, '"', start) {
        Some(end) => end,
        None => {
            return None;
        },
    };
    let raw = slice_text(&chars, start, end);
    let parts = split_at_char(raw.as_str(), '-');
    assert(parts.len() == texts(parts@).len());
    if parts.len() != 3 {
        return None;
    }
    assert(texts(parts@)[0] == parts@[0]@ && texts(parts@)[1] == parts@[1]@ && texts(parts@)[2]
        == parts@[2]@);
    let year: i32 = match parse_int(parts[0].as_str()) {
        Some(year) => {
            if year < i32::MIN as i64 || year > i32::MAX as i64 {
                return None;
            }
            year as i32
        },
        None => {
            return None;
        },
    };
    let month: u32 = match parse_up_to(parts[1].as_str(), u32::MAX as u64) {
        Some(month) => month as u32,
        None => {
            return None;
        },
    };
    let day: u32 = match parse_up_to(parts[2].as_str(), u32::MAX as u64) {
        Some(day) => day as u32,
        None => {
            return None;
        },
    };
    NaiveDate::from_ymd_opt(year, month, day)
}

/// The fields of the page with the day selected, after the answer to the
/// selection, or what is wrong with it. The fields that the browser keeps are
/// put in, since the answer leaves them out and a write needs them.
pub open spec fn selection_outcome(
    fields: Map<Seq<char>, Seq<char>>,
    response: Seq<char>,
    date: CalendarDate,
) -> Result<Map<Seq<char>, Seq<char>>, Seq<char>> {
    match shown_row_date(response) {
        Some(shown) => if shown == date {
            Ok(
                fields_after(fields, response).insert(
                    "__calendarSelectedDays"@,
                    selected_day(date),
                ).insert("ctl00$mp$currentMonth"@, month_field(date)),
            )
        } else {
            Err(
                "calendar selection stayed on "@ + iso_text(shown) + " instead of "@ + iso_text(
                    date,
                ),
            )
        },
        None => Err(
            "calendar selection response for "@ + iso_text(date)
                + " did not expose a selected row date"@,
        ),
    }
}

/// Takes in the answer to the selection of a day.
pub fn selection_answered(fields: &FormFields, response: &str, date: NaiveDate) -> (outcome: Result<
    FormFields,
    String,
>)
    ensures
        match outcome {
            Ok(after) => selection_outcome(fields@, response@, date@) == Ok::<
                Map<Seq<char>, Seq<char>>,
                Seq<char>,
            >(after@),
            Err(message) => selection_outcome(fields@, response@, date@) == Err::<
                Map<Seq<char>, Seq<char>>,
                Seq<char>,
            >(message@),
        },
{
    let shown = match selected_row_date(response) {
        Some(shown) => shown,
        None => {
            let mut message = dated("calendar selection response for ", date);
            message.append(" did not expose a selected row date");
            return Err(message);
        },
    };
    if !shown.same_as(date) {
        let mut message = dated("calendar selection stayed on ", shown);
        message.append(" instead of ");
        let iso = date.iso();
        message.append(iso.as_str());
        return Err(message);
    }
    let mut after = fields_after_response(fields, response);
    after.insert("__calendarSelectedDays".to_owned(), calendar_selected_day_value(date));
    after.insert("ctl00$mp$currentMonth".to_owned(), month_field_value(date));
    Ok(after)
}

/// The selected day that an answer and its fields show, or what is wrong with
/// it.
pub open spec fn context_of(
    url: Seq<char>,
    date: CalendarDate,
    employee_id: Seq<char>,
    fields: Map<Seq<char>, Seq<char>>,
    html: Seq<char>,
) -> Result<ContextView, Seq<char>> {
    match page_reports(html, employee_id, date) {
        Ok(reports) => Ok(ContextView { url, date, employee_id, fields, reports }),
        Err(message) => Err(message),
    }
}

/// The selected day that an answer and its fields show.
pub fn calendar_submit_context(
    url: &str,
    date: NaiveDate,
    employee_id: String,
    fields: FormFields,
    html: &str,
) -> (context: Result<CalendarSubmitContext, String>)
    ensures
        match context {
            Ok(context) => context_of(url@, date@, employee_id@, fields@, html@) == Ok::<
                ContextView,
                Seq<char>,
            >(context@),
            Err(message) => context_of(url@, date@, employee_id@, fields@, html@) == Err::<
                ContextView,
                Seq<char>,
            >(message@),
        },
{
    match parse_calendar_existing_reports(html, employee_id.as_str(), date) {
        Ok(reports) => Ok(
            CalendarSubmitContext { url: url.to_owned(), date, employee_id, fields, reports },
        ),
        Err(message) => Err(message),
    }
}

} // verus!
