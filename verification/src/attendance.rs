//! The days of the attendance calendar page.

use crate::calendar::{
    as_day, calendar_source, cell_value, cell_visible_text, extract_day_number,
    extract_day_number_strict, find_where, first, first_where, is_time_pattern,
    normalized_cell_value, opt_u32, preferred_source, source_from_calendar_state,
    strict_day_number_in, stronger_source, time_pattern, type_keyword_list, type_keywords,
    visible_cell, day_number_in, AttrCheck, AttrTest, LABEL_VACATION, LABEL_WORK_DAY,
};
use crate::date::{is_after, is_date, weekday_text, CalendarDate, NaiveDate};
use crate::dom::{
    attr_at, children, page_of, positions, select, select_in, text_in, Dom, Page, Selector,
};
use crate::hr_core::{day_views, AttendanceSource, CalendarDay, DayView};
use crate::text::{
    borrow_opt, contains, contains_any, contains_any_text, contains_text, join, joined, lowercased,
    opt_text, or_else, parse_up_to, parsed_up_to, strs, texts, to_lowercase, trim, trimmed,
};
use vstd::prelude::*;

verus! {

/// The date of a day of a month.
pub open spec fn date_in_month(month: CalendarDate, day: nat) -> CalendarDate {
    CalendarDate { year: month.year, month: month.month, day: day as int }
}

/// A value where it meets a condition.
pub open spec fn kept_if<A>(value: Option<A>, keep: bool) -> Option<A> {
    if keep {
        value
    } else {
        None
    }
}

/// The characters of an optional text, or none.
pub open spec fn text_or_empty(value: Option<Seq<char>>) -> Seq<char> {
    match value {
        Some(text) => text,
        None => ""@,
    }
}

// ---------------------------------------------------------------------------
// The month grid
// ---------------------------------------------------------------------------

/// The day of the month of a grid cell: the number to be seen in it, else its
/// label.
pub open spec fn grid_day_number(dom: Dom, cell: int) -> Option<nat> {
    let shown = match first(select_in(dom, cell, Selector::DayNumber)) {
        Some(number) => strict_day_number_in(visible_cell(dom, number)),
        None => None,
    };
    let label = match attr_at(dom, cell, "aria-label"@) {
        Some(label) => as_day(parsed_up_to(label, u32::MAX as nat)),
        None => None,
    };
    or_else(shown, label)
}

/// The first message that is not empty.
pub open spec fn first_message(dom: Dom, list: Seq<int>) -> Option<Seq<char>>
    decreases list.len(),
{
    if list.len() == 0 {
        None
    } else if trimmed(visible_cell(dom, list[0])).len() > 0 {
        Some(trimmed(visible_cell(dom, list[0])))
    } else {
        first_message(dom, list.skip(1))
    }
}

/// The message of a grid cell.
pub open spec fn grid_message(dom: Dom, cell: int) -> Option<Seq<char>> {
    first_message(dom, select_in(dom, cell, Selector::DayMessage))
}

/// The title of a grid cell, where it says something.
pub open spec fn grid_title(dom: Dom, cell: int) -> Option<Seq<char>> {
    match attr_at(dom, cell, "title"@) {
        Some(title) => kept_if(Some(trimmed(title)), trimmed(title).len() > 0),
        None => None,
    }
}

/// Whether an icon marks a day that the system filled.
pub open spec fn is_fill_icon(dom: Dom, icon: int) -> bool {
    contains(text_or_empty(attr_at(dom, icon, "class"@)), "fh-x"@)
}

/// Whether an icon marks a problem.
pub open spec fn is_problem_icon(dom: Dom, icon: int) -> bool {
    let class = text_or_empty(attr_at(dom, icon, "class"@));
    !contains(class, "fh-x"@) && (contains(class, "fh-error"@) || contains(class, "fh-warning"@))
}

/// Whether the icons of a list hold one that marks a day the system filled.
pub open spec fn any_fill_icon(dom: Dom, icons: Seq<int>) -> bool {
    exists|i: int| 0 <= i < icons.len() && is_fill_icon(dom, #[trigger] icons[i])
}

/// Whether the icons of a list hold one that marks a problem.
pub open spec fn any_problem_icon(dom: Dom, icons: Seq<int>) -> bool {
    exists|i: int| 0 <= i < icons.len() && is_problem_icon(dom, #[trigger] icons[i])
}

/// Whether a message speaks of a problem.
pub open spec fn problem_message(message: Seq<char>) -> bool {
    ||| contains(message, "שגיאה"@)
    ||| contains(lowercased(message), "error"@)
    ||| contains(lowercased(message), "missing"@)
}

/// The entry time of a grid cell: its title or its message, where that is a
/// time of day.
pub open spec fn grid_entry_time(title: Option<Seq<char>>, message: Option<Seq<char>>) -> Option<
    Seq<char>,
> {
    or_else(
        kept_if(title, title matches Some(text) && time_pattern(text)),
        kept_if(message, message matches Some(text) && time_pattern(text)),
    )
}

/// The kind of a grid cell: its title where that is no time of day, else
/// vacation where an icon says that the system filled the day, else the
/// message where that names a kind, else a work day where there is an entry
/// time.
pub open spec fn grid_type(
    title: Option<Seq<char>>,
    filled: bool,
    message: Option<Seq<char>>,
) -> Option<Seq<char>> {
    let by_title = kept_if(title, title matches Some(text) && !time_pattern(text));
    let by_icon = kept_if(Some(LABEL_VACATION@), filled);
    let by_message = kept_if(
        message,
        message matches Some(text) && !problem_message(text) && contains_any(
            lowercased(text),
            type_keywords(),
        ),
    );
    let by_time = kept_if(Some(LABEL_WORK_DAY@), grid_entry_time(title, message) is Some);
    or_else(by_title, or_else(by_icon, or_else(by_message, by_time)))
}

/// How the day of a grid cell came to its data.
pub open spec fn grid_source(
    class: Seq<char>,
    title: Option<Seq<char>>,
    kind: Option<Seq<char>>,
) -> AttendanceSource {
    if contains(class, "cED"@) {
        AttendanceSource::SystemAutoFill
    } else if contains(class, "calendarAbcenseDay"@) {
        AttendanceSource::UserReported
    } else {
        calendar_source(class, title, kind)
    }
}

/// The day that a grid cell shows.
pub open spec fn grid_day(dom: Dom, cell: int, month: CalendarDate) -> Option<DayView> {
    match grid_day_number(dom, cell) {
        Some(day) => {
            let date = date_in_month(month, day);
            let class = text_or_empty(attr_at(dom, cell, "class"@));
            let title = grid_title(dom, cell);
            let message = grid_message(dom, cell);
            let icons = select_in(dom, cell, Selector::DayIcon);
            let problem = message matches Some(text) && problem_message(text);
            let kind = grid_type(title, any_fill_icon(dom, icons), message);
            if is_date(date) {
                Some(
                    DayView {
                        date,
                        day_name: weekday_text(date),
                        has_error: any_problem_icon(dom, icons) || problem,
                        error_message: kept_if(message, problem),
                        entry_time: grid_entry_time(title, message),
                        exit_time: None,
                        attendance_type: kind,
                        total_hours: None,
                        source: grid_source(class, title, kind),
                    },
                )
            } else {
                None
            }
        },
        None => None,
    }
}

/// The days that the grid cells of a list show.
pub open spec fn grid_days(dom: Dom, cells: Seq<int>, month: CalendarDate) -> Seq<DayView>
    decreases cells.len(),
{
    if cells.len() == 0 {
        seq![]
    } else {
        let before = grid_days(dom, cells.drop_last(), month);
        match grid_day(dom, cells.last(), month) {
            Some(day) => before.push(day),
            None => before,
        }
    }
}

fn class_of(page: &Page, at: usize) -> (class: &str)
    requires
        at < page@.nodes.len(),
    ensures
        class@ == text_or_empty(attr_at(page@, at as int, "class"@)),
{
    match page.attr(at, "class") {
        Some(class) => class,
        None => "",
    }
}

fn grid_cell_day_number(page: &Page, cell: usize) -> (day: Option<u32>)
    requires
        cell < page@.nodes.len(),
    ensures
        opt_u32(day) == grid_day_number(page@, cell as int),
        day matches Some(day) ==> 1 <= day <= 31,
{
    let numbers = page.select_in(cell, Selector::DayNumber);
    assert(numbers.len() == positions(numbers@).len());
    if numbers.len() > 0 {
        assert(positions(numbers@)[0] == numbers@[0]);
        let text = cell_visible_text(page, numbers[0]);
        if let Some(day) = extract_day_number_strict(text.as_str()) {
            assert(opt_u32(Some(day)) == strict_day_number_in(text@));
            return Some(day);
        }
        assert(strict_day_number_in(text@) is None);
    }
    match page.attr(cell, "aria-label") {
        Some(label) => match parse_up_to(label, u32::MAX as u64) {
            Some(number) => if 1 <= number && number <= 31 {
                Some(number as u32)
            } else {
                None
            },
            None => None,
        },
        None => None,
    }
}

fn grid_cell_message(page: &Page, cell: usize) -> (message: Option<String>)
    requires
        cell < page@.nodes.len(),
    ensures
        opt_text(message) == grid_message(page@, cell as int),
{
    let list = page.select_in(cell, Selector::DayMessage);
    let ghost all = positions(list@);
    let mut i: usize = 0;
    assert(all.skip(0) == all);
    while i < list.len()
        invariant
            i <= list.len(),
            all == positions(list@),
            forall|j: int| 0 <= j < list.len() ==> (#[trigger] list@[j]) < page@.nodes.len(),
            grid_message(page@, cell as int) == first_message(page@, all.skip(i as int)),
        decreases list.len() - i,
    {
        assert(all.skip(i as int).skip(1) == all.skip(i + 1));
        assert(all.skip(i as int)[0] == list@[i as int]);
        let text = cell_visible_text(page, list[i]);
        let body = trim(text.as_str());
        if !body.as_str().is_empty() {
            return Some(body);
        }
        i = i + 1;
    }
    None
}

fn scan_icons(page: &Page, cell: usize) -> (marks: (bool, bool))
    requires
        cell < page@.nodes.len(),
    ensures
        marks.0 == any_fill_icon(page@, select_in(page@, cell as int, Selector::DayIcon)),
        marks.1 == any_problem_icon(page@, select_in(page@, cell as int, Selector::DayIcon)),
{
    let icons = page.select_in(cell, Selector::DayIcon);
    let ghost all = positions(icons@);
    let mut filled = false;
    let mut problem = false;
    let mut i: usize = 0;
    while i < icons.len()
        invariant
            i <= icons.len(),
            all == positions(icons@),
            forall|j: int| 0 <= j < icons.len() ==> (#[trigger] icons@[j]) < page@.nodes.len(),
            filled == exists|j: int| 0 <= j < i && is_fill_icon(page@, #[trigger] all[j]),
            problem == exists|j: int| 0 <= j < i && is_problem_icon(page@, #[trigger] all[j]),
        decreases icons.len() - i,
    {
        assert(all[i as int] == icons@[i as int]);
        let class = class_of(page, icons[i]);
        if contains_text(class, "fh-x") {
            assert(is_fill_icon(page@, all[i as int]));
            filled = true;
        } else if contains_text(class, "fh-error") || contains_text(class, "fh-warning") {
            assert(is_problem_icon(page@, all[i as int]));
            problem = true;
        }
        i = i + 1;
    }
    (filled, problem)
}

fn is_problem_message(message: &str) -> (answer: bool)
    ensures
        answer == problem_message(message@),
{
    let lower = to_lowercase(message);
    contains_text(message, "שגיאה") || contains_text(lower.as_str(), "error") || contains_text(
        lower.as_str(),
        "missing",
    )
}

fn names_a_type(message: &str) -> (answer: bool)
    ensures
        answer == contains_any(lowercased(message@), type_keywords()),
{
    let lower = to_lowercase(message);
    let list = type_keyword_list();
    contains_any_text(lower.as_str(), &list)
}

fn parse_grid_cell(page: &Page, cell: usize, month: NaiveDate) -> (day: Option<CalendarDay>)
    requires
        cell < page@.nodes.len(),
    ensures
        match day {
            Some(day) => grid_day(page@, cell as int, month@) == Some(day@),
            None => grid_day(page@, cell as int, month@) is None,
        },
{
    let number: u32 = match grid_cell_day_number(page, cell) {
        Some(number) => number,
        None => {
            return None;
        },
    };
    let date = match NaiveDate::from_ymd_opt(month.year(), month.month(), number) {
        Some(date) => date,
        None => {
            return None;
        },
    };
    let class = class_of(page, cell);
    let message = grid_cell_message(page, cell);
    let title: Option<String> = match page.attr(cell, "title") {
        Some(title) => {
            let body = trim(title);
            if body.as_str().is_empty() {
                None
            } else {
                Some(body)
            }
        },
        None => None,
    };
    assert(opt_text(title) == grid_title(page@, cell as int));
    let (filled, problem_icon) = scan_icons(page, cell);

    let mut entry_time: Option<String> = None;
    let mut kind: Option<String> = None;
    if let Some(text) = &title {
        if is_time_pattern(text.as_str()) {
            entry_time = Some(text.clone());
        } else {
            kind = Some(text.clone());
        }
    }
    if entry_time.is_none() {
        if let Some(text) = &message {
            if is_time_pattern(text.as_str()) {
                entry_time = Some(text.clone());
            }
        }
    }
    assert(opt_text(entry_time) == grid_entry_time(opt_text(title), opt_text(message)));
    if filled && kind.is_none() {
        kind = Some(LABEL_VACATION.to_owned());
    }
    let mut has_error = problem_icon;
    let mut error_message: Option<String> = None;
    if let Some(text) = &message {
        if is_problem_message(text.as_str()) {
            has_error = true;
            error_message = Some(text.clone());
        } else if kind.is_none() && names_a_type(text.as_str()) {
            kind = Some(text.clone());
        }
    }
    if entry_time.is_some() && kind.is_none() {
        kind = Some(LABEL_WORK_DAY.to_owned());
    }
    assert(opt_text(kind) == grid_type(opt_text(title), filled, opt_text(message)));
    let source = if contains_text(class, "cED") {
        AttendanceSource::SystemAutoFill
    } else if contains_text(class, "calendarAbcenseDay") {
        AttendanceSource::UserReported
    } else {
        source_from_calendar_state(class, borrow_opt(&title), borrow_opt(&kind))
    };
    Some(
        CalendarDay {
            date,
            day_name: date.weekday_name(),
            has_error,
            error_message,
            entry_time,
            exit_time: None,
            attendance_type: kind,
            total_hours: None,
            source,
        },
    )
}

/// Reads the month grid, in which each day is a cell.
pub fn parse_calendar_grid(page: &Page, month: NaiveDate) -> (days: Vec<CalendarDay>)
    ensures
        day_views(days@) == grid_days(page@, select(page@, Selector::DayCell), month@),
{
    let cells = page.select(Selector::DayCell);
    let ghost all = positions(cells@);
    let mut days: Vec<CalendarDay> = Vec::new();
    let mut i: usize = 0;
    while i < cells.len()
        invariant
            i <= cells.len(),
            all == positions(cells@),
            forall|j: int| 0 <= j < cells.len() ==> (#[trigger] cells@[j]) < page@.nodes.len(),
            day_views(days@) == grid_days(page@, all.take(i as int), month@),
        decreases cells.len() - i,
    {
        assert(all.take(i + 1).drop_last() == all.take(i as int));
        assert(all.take(i + 1).last() == cells@[i as int]);
        let ghost before = day_views(days@);
        if let Some(day) = parse_grid_cell(page, cells[i], month) {
            days.push(day);
            assert(day_views(days@) == before.push(day@));
        }
        i = i + 1;
    }
    assert(all.take(all.len() as int) == all);
    days
}

// ---------------------------------------------------------------------------
// Detail rows
// ---------------------------------------------------------------------------

/// The date of a detail row.
pub open spec fn detail_date(dom: Dom, row: int, month: CalendarDate) -> Option<CalendarDate> {
    match first(select_in(dom, row, Selector::ReportDateCell)) {
        Some(cell) => {
            let by_value = match attr_at(dom, cell, "ov"@) {
                Some(text) => day_number_in(text),
                None => None,
            };
            let by_title = match attr_at(dom, cell, "title"@) {
                Some(text) => day_number_in(text),
                None => None,
            };
            let by_text = day_number_in(visible_cell(dom, cell));
            match or_else(by_value, or_else(by_title, by_text)) {
                Some(day) => kept_if(
                    Some(date_in_month(month, day)),
                    is_date(date_in_month(month, day)),
                ),
                None => None,
            }
        },
        None => None,
    }
}

/// The first element of a list whose name, else whose id, holds a fragment.
pub open spec fn by_name_or_id(dom: Dom, list: Seq<int>, fragment: Seq<char>) -> Option<int> {
    or_else(
        first_where(dom, list, "name"@, AttrTest::Holds(fragment)),
        first_where(dom, list, "id"@, AttrTest::Holds(fragment)),
    )
}

/// The value of an input of a row.
pub open spec fn input_value(dom: Dom, row: int, fragment: Seq<char>) -> Option<Seq<char>> {
    match by_name_or_id(dom, select_in(dom, row, Selector::Input), fragment) {
        Some(input) => cell_value(attr_at(dom, input, "value"@)),
        None => None,
    }
}

/// The value of a cell of a row: what is to be seen in it, else its original
/// value.
pub open spec fn detail_text(dom: Dom, row: int, fragment: Seq<char>) -> Option<Seq<char>> {
    match first_where(
        dom,
        select_in(dom, row, Selector::TableCell),
        "id"@,
        AttrTest::Holds(fragment),
    ) {
        Some(cell) => or_else(
            cell_value(Some(visible_cell(dom, cell))),
            cell_value(attr_at(dom, cell, "ov"@)),
        ),
        None => None,
    }
}

/// The value of a cell of a row, where it is a time of day.
pub open spec fn detail_time(dom: Dom, row: int, fragment: Seq<char>) -> Option<Seq<char>> {
    let text = detail_text(dom, row, fragment);
    kept_if(text, text matches Some(value) && time_pattern(value))
}

/// The option that a drop-down of a row shows: the one marked selected, else
/// the first with a value, else the first.
pub open spec fn drop_down_text(dom: Dom, row: int, fragment: Seq<char>) -> Option<Seq<char>> {
    match by_name_or_id(dom, select_in(dom, row, Selector::Select), fragment) {
        Some(drop_down) => {
            let options = select_in(dom, drop_down, Selector::AnyOption);
            let shown = or_else(
                first(select_in(dom, drop_down, Selector::SelectedOption)),
                or_else(
                    first_where(dom, options, "value"@, AttrTest::NotEmpty),
                    first(options),
                ),
            );
            match shown {
                Some(option) => cell_value(Some(text_in(dom, option))),
                None => None,
            }
        },
        None => None,
    }
}

/// The day that a detail row reports.
pub open spec fn detail_day(dom: Dom, row: int, month: CalendarDate) -> Option<DayView> {
    match detail_date(dom, row, month) {
        Some(date) => {
            let entry_time = or_else(
                input_value(dom, row, "ManualEntry_EmployeeReports"@),
                detail_time(dom, row, "cellOf_ManualEntry_EmployeeReports"@),
            );
            let exit_time = or_else(
                input_value(dom, row, "ManualExit_EmployeeReports"@),
                detail_time(dom, row, "cellOf_ManualExit_EmployeeReports"@),
            );
            let total_hours = detail_time(dom, row, "cellOf_ManualTotal_EmployeeReports"@);
            let kind = or_else(
                detail_text(dom, row, "cellOf_Symbol.SymbolId_EmployeeReports"@),
                drop_down_text(dom, row, "Symbol.SymbolId_EmployeeReports"@),
            );
            if entry_time is None && exit_time is None && total_hours is None && kind is None {
                None
            } else {
                Some(
                    DayView {
                        date,
                        day_name: weekday_text(date),
                        has_error: false,
                        error_message: None,
                        entry_time,
                        exit_time,
                        attendance_type: kind,
                        total_hours,
                        source: calendar_source(""@, None, kind),
                    },
                )
            }
        },
        None => None,
    }
}

/// The days that the detail rows of a list report.
pub open spec fn detail_days(dom: Dom, rows: Seq<int>, month: CalendarDate) -> Seq<DayView>
    decreases rows.len(),
{
    if rows.len() == 0 {
        seq![]
    } else {
        let before = detail_days(dom, rows.drop_last(), month);
        match detail_day(dom, rows.last(), month) {
            Some(day) => before.push(day),
            None => before,
        }
    }
}

fn parse_detail_row_date(page: &Page, row: usize, month: NaiveDate) -> (date: Option<NaiveDate>)
    requires
        row < page@.nodes.len(),
    ensures
        match date {
            Some(date) => detail_date(page@, row as int, month@) == Some(date@),
            None => detail_date(page@, row as int, month@) is None,
        },
{
    let cells = page.select_in(row, Selector::ReportDateCell);
    assert(cells.len() == positions(cells@).len());
    if cells.len() == 0 {
        return None;
    }
    let cell: usize = cells[0];
    assert(positions(cells@)[0] == cell);
    let mut day: Option<u32> = None;
    if let Some(text) = page.attr(cell, "ov") {
        day = extract_day_number(text);
    }
    if day.is_none() {
        if let Some(text) = page.attr(cell, "title") {
            day = extract_day_number(text);
        }
    }
    if day.is_none() {
        let text = cell_visible_text(page, cell);
        day = extract_day_number(text.as_str());
    }
    match day {
        Some(day) => NaiveDate::from_ymd_opt(month.year(), month.month(), day),
        None => None,
    }
}

fn find_by_name_or_id(page: &Page, list: &Vec<usize>, fragment: &str) -> (found: Option<usize>)
    requires
        forall|i: int| 0 <= i < list.len() ==> (#[trigger] list@[i]) < page@.nodes.len(),
    ensures
        match found {
            Some(at) => at < page@.nodes.len() && by_name_or_id(
                page@,
                positions(list@),
                fragment@,
            ) == Some(at as int),
            None => by_name_or_id(page@, positions(list@), fragment@) is None,
        },
{
    match find_where(page, list, "name", AttrCheck::Holds(fragment)) {
        Some(at) => Some(at),
        None => find_where(page, list, "id", AttrCheck::Holds(fragment)),
    }
}

fn detail_input_value(page: &Page, row: usize, fragment: &str) -> (value: Option<String>)
    requires
        row < page@.nodes.len(),
    ensures
        opt_text(value) == input_value(page@, row as int, fragment@),
{
    let inputs = page.select_in(row, Selector::Input);
    match find_by_name_or_id(page, &inputs, fragment) {
        Some(input) => normalized_cell_value(page.attr(input, "value")),
        None => None,
    }
}

fn detail_cell_text(page: &Page, row: usize, fragment: &str) -> (value: Option<String>)
    requires
        row < page@.nodes.len(),
    ensures
        opt_text(value) == detail_text(page@, row as int, fragment@),
{
    let cells = page.select_in(row, Selector::TableCell);
    match find_where(page, &cells, "id", AttrCheck::Holds(fragment)) {
        Some(cell) => {
            let text = cell_visible_text(page, cell);
            let shown = normalized_cell_value(Some(text.as_str()));
            if shown.is_some() {
                shown
            } else {
                normalized_cell_value(page.attr(cell, "ov"))
            }
        },
        None => None,
    }
}

fn detail_cell_time(page: &Page, row: usize, fragment: &str) -> (value: Option<String>)
    requires
        row < page@.nodes.len(),
    ensures
        opt_text(value) == detail_time(page@, row as int, fragment@),
{
    match detail_cell_text(page, row, fragment) {
        Some(text) => if is_time_pattern(text.as_str()) {
            Some(text)
        } else {
            None
        },
        None => None,
    }
}

fn detail_select_text(page: &Page, row: usize, fragment: &str) -> (value: Option<String>)
    requires
        row < page@.nodes.len(),
    ensures
        opt_text(value) == drop_down_text(page@, row as int, fragment@),
{
    let drop_downs = page.select_in(row, Selector::Select);
    let drop_down: usize = match find_by_name_or_id(page, &drop_downs, fragment) {
        Some(drop_down) => drop_down,
        None => {
            return None;
        },
    };
    let selected = page.select_in(drop_down, Selector::SelectedOption);
    let options = page.select_in(drop_down, Selector::AnyOption);
    assert(selected.len() == positions(selected@).len());
    assert(options.len() == positions(options@).len());
    let shown: Option<usize> = if selected.len() > 0 {
        assert(positions(selected@)[0] == selected@[0]);
        Some(selected[0])
    } else {
        match find_where(page, &options, "value", AttrCheck::NotEmpty) {
            Some(option) => Some(option),
            None => if options.len() > 0 {
                assert(positions(options@)[0] == options@[0]);
                Some(options[0])
            } else {
                None
            },
        }
    };
    match shown {
        Some(option) => {
            let text = page.text_in(option);
            normalized_cell_value(Some(text.as_str()))
        },
        None => None,
    }
}

fn parse_detail_row(page: &Page, row: usize, month: NaiveDate) -> (day: Option<CalendarDay>)
    requires
        row < page@.nodes.len(),
    ensures
        match day {
            Some(day) => detail_day(page@, row as int, month@) == Some(day@),
            None => detail_day(page@, row as int, month@) is None,
        },
{
    let date = match parse_detail_row_date(page, row, month) {
        Some(date) => date,
        None => {
            return None;
        },
    };
    let mut entry_time = detail_input_value(page, row, "ManualEntry_EmployeeReports");
    if entry_time.is_none() {
        entry_time = detail_cell_time(page, row, "cellOf_ManualEntry_EmployeeReports");
    }
    let mut exit_time = detail_input_value(page, row, "ManualExit_EmployeeReports");
    if exit_time.is_none() {
        exit_time = detail_cell_time(page, row, "cellOf_ManualExit_EmployeeReports");
    }
    let total_hours = detail_cell_time(page, row, "cellOf_ManualTotal_EmployeeReports");
    let mut kind = detail_cell_text(page, row, "cellOf_Symbol.SymbolId_EmployeeReports");
    if kind.is_none() {
        kind = detail_select_text(page, row, "Symbol.SymbolId_EmployeeReports");
    }
    if entry_time.is_none() && exit_time.is_none() && total_hours.is_none() && kind.is_none() {
        return None;
    }
    let source = source_from_calendar_state("", None, borrow_opt(&kind));
    Some(
        CalendarDay {
            date,
            day_name: date.weekday_name(),
            has_error: false,
            error_message: None,
            entry_time,
            exit_time,
            attendance_type: kind,
            total_hours,
            source,
        },
    )
}

/// Reads the rows in which single days are reported in detail.
pub fn parse_calendar_detail_rows_from_dom(page: &Page, month: NaiveDate) -> (days: Vec<
    CalendarDay,
>)
    ensures
        day_views(days@) == detail_days(page@, select(page@, Selector::ReportDayRow), month@),
{
    let rows = page.select(Selector::ReportDayRow);
    let ghost all = positions(rows@);
    let mut days: Vec<CalendarDay> = Vec::new();
    let mut i: usize = 0;
    while i < rows.len()
        invariant
            i <= rows.len(),
            all == positions(rows@),
            forall|j: int| 0 <= j < rows.len() ==> (#[trigger] rows@[j]) < page@.nodes.len(),
            day_views(days@) == detail_days(page@, all.take(i as int), month@),
        decreases rows.len() - i,
    {
        assert(all.take(i + 1).drop_last() == all.take(i as int));
        assert(all.take(i + 1).last() == rows@[i as int]);
        let ghost before = day_views(days@);
        if let Some(day) = parse_detail_row(page, rows[i], month) {
            days.push(day);
            assert(day_views(days@) == before.push(day@));
        }
        i = i + 1;
    }
    assert(all.take(all.len() as int) == all);
    days
}

// ---------------------------------------------------------------------------
// Table rows
// ---------------------------------------------------------------------------

/// The names of the days of the week that a row can hold.
pub open spec fn day_names() -> Seq<Seq<char>> {
    seq![
        "ראשון"@,
        "שני"@,
        "שלישי"@,
        "רביעי"@,
        "חמישי"@,
        "שישי"@,
        "שבת"@,
        "Sun"@,
        "Mon"@,
        "Tue"@,
        "Wed"@,
        "Thu"@,
        "Fri"@,
        "Sat"@,
    ]
}

fn day_name_list() -> (list: Vec<&'static str>)
    ensures
        strs(list@) == day_names(),
{
    let list: Vec<&'static str> = vec![
        "ראשון",
        "שני",
        "שלישי",
        "רביעי",
        "חמישי",
        "שישי",
        "שבת",
        "Sun",
        "Mon",
        "Tue",
        "Wed",
        "Thu",
        "Fri",
        "Sat",
    ];
    assert(strs(list@) == day_names());
    list
}

/// The last of some names that occurs in a text, else what there was before.
pub open spec fn last_named(text: Seq<char>, names: Seq<Seq<char>>, before: Seq<char>) -> Seq<char>
    decreases names.len(),
{
    if names.len() == 0 {
        before
    } else if contains(text, names.last()) {
        names.last()
    } else {
        last_named(text, names.drop_last(), before)
    }
}

/// What is known of a row after some of its cells.
pub struct RowScan {
    pub day_name: Seq<char>,
    pub entry_time: Option<Seq<char>>,
    pub exit_time: Option<Seq<char>>,
    pub attendance_type: Option<Seq<char>>,
    pub total_hours: Option<Seq<char>>,
    pub error_message: Option<Seq<char>>,
}

/// Nothing is known.
pub open spec fn empty_scan() -> RowScan {
    RowScan {
        day_name: seq![],
        entry_time: None,
        exit_time: None,
        attendance_type: None,
        total_hours: None,
        error_message: None,
    }
}

/// Whether a row's text speaks of a problem.
pub open spec fn problem_row(text: Seq<char>) -> bool {
    ||| contains(text, "שגיאה"@)
    ||| contains(text, "חסר"@)
    ||| contains(text, "error"@)
    ||| contains(text, "✗"@)
    ||| contains(text, "×"@)
}

/// Whether a cell's text says what the problem is.
pub open spec fn problem_cell(text: Seq<char>) -> bool {
    ||| contains(text, "חסר דיווח"@)
    ||| contains(text, "missing"@)
    ||| contains(text, "שגיאה"@)
}

/// What is known of a row after one more cell, the one at place `at`. A time
/// of day is the entry, then the exit; one behind both, from the fourth cell
/// on, is the total.
pub open spec fn scan_cell(scan: RowScan, at: int, cell: Seq<char>, problem: bool) -> RowScan {
    let text = trimmed(cell);
    if text.len() == 0 {
        scan
    } else {
        let is_time = time_pattern(text);
        let entry_time = or_else(scan.entry_time, kept_if(Some(text), is_time));
        RowScan {
            day_name: if at <= 2 {
                last_named(text, day_names(), scan.day_name)
            } else {
                scan.day_name
            },
            entry_time,
            exit_time: or_else(
                scan.exit_time,
                kept_if(Some(text), is_time && scan.entry_time is Some),
            ),
            attendance_type: or_else(
                scan.attendance_type,
                kept_if(Some(text), contains_any(lowercased(text), type_keywords())),
            ),
            total_hours: or_else(
                scan.total_hours,
                kept_if(Some(text), at > 2 && is_time && scan.exit_time is Some),
            ),
            error_message: or_else(
                scan.error_message,
                kept_if(Some(text), problem && problem_cell(text)),
            ),
        }
    }
}

/// What is known of a row after its cells.
pub open spec fn scan_cells(cells: Seq<Seq<char>>, problem: bool) -> RowScan
    decreases cells.len(),
{
    if cells.len() == 0 {
        empty_scan()
    } else {
        scan_cell(
            scan_cells(cells.drop_last(), problem),
            cells.len() - 1,
            cells.last(),
            problem,
        )
    }
}

/// The day that the cells of a table row report.
pub open spec fn row_day(cells: Seq<Seq<char>>, month: CalendarDate) -> Option<DayView> {
    if cells.len() == 0 {
        None
    } else {
        match day_number_in(cells[0]) {
            Some(day) => {
                let date = date_in_month(month, day);
                let problem = problem_row(joined(cells, " "@));
                let scan = scan_cells(cells, problem);
                let source = if scan.attendance_type is Some {
                    calendar_source(""@, None, scan.attendance_type)
                } else if scan.entry_time is Some {
                    AttendanceSource::UserReported
                } else {
                    AttendanceSource::Unreported
                };
                kept_if(
                    Some(
                        DayView {
                            date,
                            day_name: if scan.day_name.len() == 0 {
                                weekday_text(date)
                            } else {
                                scan.day_name
                            },
                            has_error: problem,
                            error_message: scan.error_message,
                            entry_time: scan.entry_time,
                            exit_time: scan.exit_time,
                            attendance_type: scan.attendance_type,
                            total_hours: scan.total_hours,
                            source,
                        },
                    ),
                    is_date(date),
                )
            },
            None => None,
        }
    }
}

fn name_in(text: &str, before: String) -> (name: String)
    ensures
        name@ == last_named(text@, day_names(), before@),
{
    let names = day_name_list();
    let ghost all = strs(names@);
    let mut i: usize = names.len();
    assert(all.take(i as int) == all);
    while i > 0
        invariant
            i <= names.len(),
            all == strs(names@),
            all == day_names(),
            last_named(text@, all.take(i as int), before@) == last_named(
                text@,
                day_names(),
                before@,
            ),
        decreases i,
    {
        assert(all.take(i as int).drop_last() == all.take(i - 1));
        assert(all.take(i as int).last() == names@[i - 1]@);
        i = i - 1;
        if contains_text(text, names[i]) {
            return names[i].to_owned();
        }
    }
    before
}

/// Reads a table row as a day: the day of the month, a day name, times, a
/// kind, and a problem.
pub fn try_parse_day_row(cells: &Vec<String>, month: NaiveDate) -> (day: Option<CalendarDay>)
    ensures
        match day {
            Some(day) => row_day(texts(cells@), month@) == Some(day@),
            None => row_day(texts(cells@), month@) is None,
        },
{
    let ghost all = texts(cells@);
    if cells.len() == 0 {
        return None;
    }
    assert(all[0] == cells@[0]@);
    let number: u32 = match extract_day_number(cells[0].as_str()) {
        Some(number) => number,
        None => {
            return None;
        },
    };
    let date = match NaiveDate::from_ymd_opt(month.year(), month.month(), number) {
        Some(date) => date,
        None => {
            return None;
        },
    };
    let row_text = join(cells, " ");
    let has_error = contains_text(row_text.as_str(), "שגיאה") || contains_text(
        row_text.as_str(),
        "חסר",
    ) || contains_text(row_text.as_str(), "error") || contains_text(row_text.as_str(), "✗")
        || contains_text(row_text.as_str(), "×");
    let mut day_name = String::new();
    let mut entry_time: Option<String> = None;
    let mut exit_time: Option<String> = None;
    let mut attendance_type: Option<String> = None;
    let mut total_hours: Option<String> = None;
    let mut error_message: Option<String> = None;
    let mut i: usize = 0;
    while i < cells.len()
        invariant
            i <= cells.len(),
            all == texts(cells@),
            scan_cells(all.take(i as int), has_error) == (RowScan {
                day_name: day_name@,
                entry_time: opt_text(entry_time),
                exit_time: opt_text(exit_time),
                attendance_type: opt_text(attendance_type),
                total_hours: opt_text(total_hours),
                error_message: opt_text(error_message),
            }),
        decreases cells.len() - i,
    {
        assert(all.take(i + 1).drop_last() == all.take(i as int));
        assert(all.take(i + 1).last() == cells@[i as int]@);
        let text = trim(cells[i].as_str());
        if !text.as_str().is_empty() {
            if i <= 2 {
                day_name = name_in(text.as_str(), day_name);
            }
            let is_time = is_time_pattern(text.as_str());
            let is_total = i > 2 && is_time && exit_time.is_some() && total_hours.is_none();
            if is_time {
                if entry_time.is_none() {
                    entry_time = Some(text.clone());
                } else if exit_time.is_none() {
                    exit_time = Some(text.clone());
                }
            }
            if attendance_type.is_none() && names_a_type(text.as_str()) {
                attendance_type = Some(text.clone());
            }
            if is_total {
                total_hours = Some(text.clone());
            }
            if has_error && error_message.is_none() && (contains_text(text.as_str(), "חסר דיווח")
                || contains_text(text.as_str(), "missing") || contains_text(
                text.as_str(),
                "שגיאה",
            )) {
                error_message = Some(text);
            }
        }
        i = i + 1;
    }
    assert(all.take(all.len() as int) == all);
    if day_name.as_str().is_empty() {
        day_name = date.weekday_name();
    }
    let source = if attendance_type.is_some() {
        source_from_calendar_state("", None, borrow_opt(&attendance_type))
    } else if entry_time.is_some() {
        AttendanceSource::UserReported
    } else {
        AttendanceSource::Unreported
    };
    Some(
        CalendarDay {
            date,
            day_name,
            has_error,
            error_message,
            entry_time,
            exit_time,
            attendance_type,
            total_hours,
            source,
        },
    )
}

// ---------------------------------------------------------------------------
// Merging
// ---------------------------------------------------------------------------

/// A day with what a later record of the same day adds: what the record has
/// takes the place of what was there, a problem stays, and the stronger source
/// wins.
pub open spec fn merged_day(existing: DayView, candidate: DayView) -> DayView {
    DayView {
        date: existing.date,
        day_name: if candidate.day_name.len() > 0 {
            candidate.day_name
        } else {
            existing.day_name
        },
        has_error: existing.has_error || candidate.has_error,
        error_message: or_else(candidate.error_message, existing.error_message),
        entry_time: or_else(candidate.entry_time, existing.entry_time),
        exit_time: or_else(candidate.exit_time, existing.exit_time),
        attendance_type: or_else(candidate.attendance_type, existing.attendance_type),
        total_hours: or_else(candidate.total_hours, existing.total_hours),
        source: stronger_source(existing.source, candidate.source),
    }
}

/// A list of days in the order of their dates, with one more record.
pub open spec fn with_day(days: Seq<DayView>, day: DayView) -> Seq<DayView>
    decreases days.len(),
{
    if days.len() == 0 {
        seq![day]
    } else if days[0].date == day.date {
        seq![merged_day(days[0], day)] + days.skip(1)
    } else if is_after(days[0].date, day.date) {
        seq![day] + days
    } else {
        seq![days[0]] + with_day(days.skip(1), day)
    }
}

/// The days of some records: one for each date, in the order of the dates,
/// each merged from its records in their order.
pub open spec fn merged_days(records: Seq<DayView>) -> Seq<DayView>
    decreases records.len(),
{
    if records.len() == 0 {
        seq![]
    } else {
        with_day(merged_days(records.drop_last()), records.last())
    }
}

/// Whether the dates of a list rise strictly.
pub open spec fn dates_rise(days: Seq<DayView>) -> bool {
    forall|i: int, j: int|
        0 <= i < j < days.len() ==> is_after(#[trigger] days[j].date, #[trigger] days[i].date)
}

/// Whether some day of a list has a date.
pub open spec fn has_date(days: Seq<DayView>, date: CalendarDate) -> bool {
    exists|i: int| 0 <= i < days.len() && (#[trigger] days[i]).date == date
}

proof fn with_day_keeps_order(days: Seq<DayView>, day: DayView)
    requires
        dates_rise(days),
    ensures
        dates_rise(with_day(days, day)),
        forall|date: CalendarDate| #[trigger]
            has_date(with_day(days, day), date) <==> has_date(days, date) || date == day.date,
    decreases days.len(),
{
    let result = with_day(days, day);
    if days.len() == 0 {
        assert(result[0].date == day.date);
    } else if days[0].date == day.date {
        assert forall|i: int| 0 <= i < days.len() implies (#[trigger] result[i]).date
            == days[i].date by {}
        assert forall|date: CalendarDate| #[trigger] has_date(result, date) <==> has_date(
            days,
            date,
        ) || date == day.date by {
            if has_date(result, date) {
                let i = choose|i: int| 0 <= i < result.len() && (#[trigger] result[i]).date == date;
                assert(days[i].date == date);
            }
            if has_date(days, date) {
                let i = choose|i: int| 0 <= i < days.len() && (#[trigger] days[i]).date == date;
                assert(result[i].date == date);
            }
            assert(result[0].date == day.date);
        }
    } else if is_after(days[0].date, day.date) {
        assert forall|i: int, j: int| 0 <= i < j < result.len() implies is_after(
            #[trigger] result[j].date,
            #[trigger] result[i].date,
        ) by {
            assert(result[j] == days[j - 1]);
            if i > 0 {
                assert(result[i] == days[i - 1]);
            } else if j > 1 {
                assert(is_after(days[j - 1].date, days[0].date));
            }
        }
        assert forall|date: CalendarDate| #[trigger] has_date(result, date) <==> has_date(
            days,
            date,
        ) || date == day.date by {
            if has_date(result, date) {
                let i = choose|i: int| 0 <= i < result.len() && (#[trigger] result[i]).date == date;
                if i > 0 {
                    assert(days[i - 1].date == date);
                }
            }
            if has_date(days, date) {
                let i = choose|i: int| 0 <= i < days.len() && (#[trigger] days[i]).date == date;
                assert(result[i + 1].date == date);
            }
            assert(result[0].date == day.date);
        }
    } else {
        let rest = days.skip(1);
        assert forall|i: int, j: int| 0 <= i < j < rest.len() implies is_after(
            #[trigger] rest[j].date,
            #[trigger] rest[i].date,
        ) by {
            assert(rest[i] == days[i + 1] && rest[j] == days[j + 1]);
        }
        with_day_keeps_order(rest, day);
        let tail = with_day(rest, day);
        assert forall|i: int, j: int| 0 <= i < j < result.len() implies is_after(
            #[trigger] result[j].date,
            #[trigger] result[i].date,
        ) by {
            assert(result[j] == tail[j - 1]);
            if i > 0 {
                assert(result[i] == tail[i - 1]);
            } else {
                assert(has_date(tail, tail[j - 1].date));
                if tail[j - 1].date != day.date {
                    let k = choose|k: int|
                        0 <= k < rest.len() && (#[trigger] rest[k]).date == tail[j - 1].date;
                    assert(rest[k] == days[k + 1]);
                }
            }
        }
        assert forall|date: CalendarDate| #[trigger] has_date(result, date) <==> has_date(
            days,
            date,
        ) || date == day.date by {
            if has_date(result, date) {
                let i = choose|i: int| 0 <= i < result.len() && (#[trigger] result[i]).date == date;
                if i > 0 {
                    assert(tail[i - 1].date == date);
                    assert(has_date(tail, date));
                    if has_date(rest, date) {
                        let k = choose|k: int|
                            0 <= k < rest.len() && (#[trigger] rest[k]).date == date;
                        assert(days[k + 1].date == date);
                    }
                } else {
                    assert(days[0].date == date);
                }
            }
            if has_date(days, date) || date == day.date {
                if has_date(days, date) {
                    let i = choose|i: int| 0 <= i < days.len() && (#[trigger] days[i]).date == date;
                    if i > 0 {
                        assert(rest[i - 1].date == date);
                    } else {
                        assert(result[0].date == date);
                    }
                }
                if !has_date(days, date) || !(days[0].date == date) {
                    assert(has_date(rest, date) || date == day.date);
                    assert(has_date(tail, date));
                    let k = choose|k: int| 0 <= k < tail.len() && (#[trigger] tail[k]).date == date;
                    assert(result[k + 1].date == date);
                }
            }
        }
    }
}

/// Merging gives each date of the records exactly one day, in the order of the
/// dates, and no other.
pub proof fn merged_days_are_the_dates_in_order(records: Seq<DayView>)
    ensures
        dates_rise(merged_days(records)),
        forall|date: CalendarDate| #[trigger]
            has_date(merged_days(records), date) <==> has_date(records, date),
    decreases records.len(),
{
    if records.len() > 0 {
        let before = records.drop_last();
        merged_days_are_the_dates_in_order(before);
        with_day_keeps_order(merged_days(before), records.last());
        assert forall|date: CalendarDate| #[trigger] has_date(
            merged_days(records),
            date,
        ) <==> has_date(records, date) by {
            if has_date(records, date) {
                let i = choose|i: int|
                    0 <= i < records.len() && (#[trigger] records[i]).date == date;
                if i < before.len() {
                    assert(before[i].date == date);
                    assert(has_date(before, date));
                    assert(has_date(merged_days(before), date));
                }
                assert(has_date(merged_days(before), date) || date == records.last().date);
            }
            if has_date(merged_days(records), date) {
                if has_date(merged_days(before), date) {
                    let i = choose|i: int|
                        0 <= i < before.len() && (#[trigger] before[i]).date == date;
                    assert(records[i].date == date);
                } else {
                    assert(records[records.len() - 1].date == date);
                }
            }
        }
    }
}

proof fn with_day_behind(days: Seq<DayView>, day: DayView, at: int)
    requires
        0 <= at <= days.len(),
        forall|i: int|
            0 <= i < at ==> (#[trigger] days[i]).date != day.date && !is_after(
                days[i].date,
                day.date,
            ),
    ensures
        with_day(days, day) == days.take(at) + with_day(days.skip(at), day),
    decreases at,
{
    if at == 0 {
        assert(days.skip(0) == days);
        assert(days.take(0) + with_day(days, day) == with_day(days, day));
    } else {
        let rest = days.skip(1);
        assert forall|i: int| 0 <= i < at - 1 implies (#[trigger] rest[i]).date != day.date
            && !is_after(rest[i].date, day.date) by {
            assert(rest[i] == days[i + 1]);
        }
        with_day_behind(rest, day, at - 1);
        assert(rest.skip(at - 1) == days.skip(at));
        assert(days[0].date != day.date);
        assert(seq![days[0]] + (rest.take(at - 1) + with_day(days.skip(at), day)) == days.take(at)
            + with_day(days.skip(at), day));
    }
}

fn merge_calendar_day_into(existing: CalendarDay, candidate: CalendarDay) -> (merged: CalendarDay)
    ensures
        merged@ == merged_day(existing@, candidate@),
{
    CalendarDay {
        date: existing.date,
        day_name: if candidate.day_name.as_str().is_empty() {
            existing.day_name
        } else {
            candidate.day_name
        },
        has_error: existing.has_error || candidate.has_error,
        error_message: if candidate.error_message.is_some() {
            candidate.error_message
        } else {
            existing.error_message
        },
        entry_time: if candidate.entry_time.is_some() {
            candidate.entry_time
        } else {
            existing.entry_time
        },
        exit_time: if candidate.exit_time.is_some() {
            candidate.exit_time
        } else {
            existing.exit_time
        },
        attendance_type: if candidate.attendance_type.is_some() {
            candidate.attendance_type
        } else {
            existing.attendance_type
        },
        total_hours: if candidate.total_hours.is_some() {
            candidate.total_hours
        } else {
            existing.total_hours
        },
        source: preferred_source(existing.source, candidate.source),
    }
}

fn put_day(days: &mut Vec<CalendarDay>, day: CalendarDay)
    ensures
        day_views(final(days)@) == with_day(day_views(old(days)@), day@),
{
    let ghost before = day_views(days@);
    let mut at: usize = 0;
    while at < days.len() && !days[at].date.same_as(day.date) && !days[at].date.is_after(day.date)
        invariant
            at <= days.len(),
            before == day_views(days@),
            forall|i: int|
                0 <= i < at ==> (#[trigger] before[i]).date != day@.date && !is_after(
                    before[i].date,
                    day@.date,
                ),
        decreases days.len() - at,
    {
        assert(before[at as int] == days@[at as int]@);
        at = at + 1;
    }
    proof {
        with_day_behind(before, day@, at as int);
    }
    let ghost rest = before.skip(at as int);
    if at < days.len() && days[at].date.same_as(day.date) {
        assert(rest[0] == days@[at as int]@);
        let existing = days.remove(at);
        let ghost old_day = existing@;
        let ghost new_day = day@;
        let merged = merge_calendar_day_into(existing, day);
        days.insert(at, merged);
        assert(day_views(days@) == before.update(at as int, merged_day(old_day, new_day)));
        assert(before.update(at as int, merged_day(old_day, new_day)) == before.take(at as int) + (
        seq![merged_day(old_day, new_day)] + rest.skip(1)));
    } else {
        let ghost new_day = day@;
        if at < days.len() {
            assert(rest[0] == days@[at as int]@);
        }
        days.insert(at, day);
        assert(day_views(days@) == before.insert(at as int, new_day));
        proof {
            if at < before.len() {
                assert(before.insert(at as int, new_day) == before.take(at as int) + (
                seq![new_day] + rest));
            } else {
                assert(before.insert(at as int, new_day) == before.take(at as int) + seq![
                    new_day,
                ]);
            }
        }
    }
}

/// Brings the records of a month to one day for each date, in order.
pub fn merge_calendar_days(records: Vec<CalendarDay>) -> (days: Vec<CalendarDay>)
    ensures
        day_views(days@) == merged_days(day_views(records@)),
{
    let ghost all = day_views(records@);
    let mut days: Vec<CalendarDay> = Vec::new();
    let mut i: usize = 0;
    assert(all.take(0) == Seq::<DayView>::empty());
    assert(day_views(days@) == Seq::<DayView>::empty());
    while i < records.len()
        invariant
            i <= records.len(),
            all == day_views(records@),
            day_views(days@) == merged_days(all.take(i as int)),
        decreases records.len() - i,
    {
        assert(all.take(i + 1).drop_last() == all.take(i as int));
        assert(all.take(i + 1).last() == records@[i as int]@);
        let day = records[i].copy();
        put_day(&mut days, day);
        i = i + 1;
    }
    assert(all.take(all.len() as int) == all);
    days
}

// ---------------------------------------------------------------------------
// The page
// ---------------------------------------------------------------------------

/// The texts of the table cells among some nodes.
pub open spec fn cell_texts(dom: Dom, nodes: Seq<int>) -> Seq<Seq<char>>
    decreases nodes.len(),
{
    if nodes.len() == 0 {
        seq![]
    } else {
        let before = cell_texts(dom, nodes.drop_last());
        if dom.nodes[nodes.last()].name == Some("td"@) {
            before.push(visible_cell(dom, nodes.last()))
        } else {
            before
        }
    }
}

/// The days that the table rows of a list report, of the rows with at least
/// three cells.
pub open spec fn table_days(dom: Dom, rows: Seq<int>, month: CalendarDate) -> Seq<DayView>
    decreases rows.len(),
{
    if rows.len() == 0 {
        seq![]
    } else {
        let before = table_days(dom, rows.drop_last(), month);
        let cells = cell_texts(dom, children(dom, rows.last()));
        match kept_if(row_day(cells, month), cells.len() >= 3) {
            Some(day) => before.push(day),
            None => before,
        }
    }
}

/// The records of a calendar page: those of the grid and the detail rows, and
/// only where there is none of these, those of the table rows.
pub open spec fn page_records(dom: Dom, month: CalendarDate) -> Seq<DayView> {
    let records = grid_days(dom, select(dom, Selector::DayCell), month) + detail_days(
        dom,
        select(dom, Selector::ReportDayRow),
        month,
    );
    if records.len() == 0 {
        table_days(dom, select(dom, Selector::TableRow), month)
    } else {
        records
    }
}

/// The days of a calendar page.
pub open spec fn page_days(dom: Dom, month: CalendarDate) -> Seq<DayView> {
    merged_days(page_records(dom, month))
}

fn row_cells(page: &Page, row: usize) -> (cells: Vec<String>)
    requires
        row < page@.nodes.len(),
    ensures
        texts(cells@) == cell_texts(page@, children(page@, row as int)),
{
    let nodes = page.children(row);
    let ghost all = positions(nodes@);
    let mut cells: Vec<String> = Vec::new();
    let mut i: usize = 0;
    while i < nodes.len()
        invariant
            i <= nodes.len(),
            all == positions(nodes@),
            forall|j: int| 0 <= j < nodes.len() ==> (#[trigger] nodes@[j]) < page@.nodes.len(),
            texts(cells@) == cell_texts(page@, all.take(i as int)),
        decreases nodes.len() - i,
    {
        assert(all.take(i + 1).drop_last() == all.take(i as int));
        assert(all.take(i + 1).last() == nodes@[i as int]);
        let ghost before = texts(cells@);
        if page.is_named(nodes[i], "td") {
            let text = cell_visible_text(page, nodes[i]);
            cells.push(text);
            assert(texts(cells@) == before.push(text@));
        }
        i = i + 1;
    }
    assert(all.take(all.len() as int) == all);
    cells
}

fn parse_table_rows(page: &Page, month: NaiveDate) -> (days: Vec<CalendarDay>)
    ensures
        day_views(days@) == table_days(page@, select(page@, Selector::TableRow), month@),
{
    let rows = page.select(Selector::TableRow);
    let ghost all = positions(rows@);
    let mut days: Vec<CalendarDay> = Vec::new();
    let mut i: usize = 0;
    while i < rows.len()
        invariant
            i <= rows.len(),
            all == positions(rows@),
            forall|j: int| 0 <= j < rows.len() ==> (#[trigger] rows@[j]) < page@.nodes.len(),
            day_views(days@) == table_days(page@, all.take(i as int), month@),
        decreases rows.len() - i,
    {
        assert(all.take(i + 1).drop_last() == all.take(i as int));
        assert(all.take(i + 1).last() == rows@[i as int]);
        let ghost before = day_views(days@);
        let cells = row_cells(page, rows[i]);
        assert(cells.len() == texts(cells@).len());
        if cells.len() >= 3 {
            if let Some(day) = try_parse_day_row(&cells, month) {
                days.push(day);
                assert(day_views(days@) == before.push(day@));
            }
        }
        i = i + 1;
    }
    assert(all.take(all.len() as int) == all);
    days
}

/// The days that a parsed calendar page reports for a month.
pub fn parse_calendar_page(page: &Page, month: NaiveDate) -> (days: Vec<CalendarDay>)
    ensures
        day_views(days@) == page_days(page@, month@),
{
    let mut records = parse_calendar_grid(page, month);
    let ghost grid = day_views(records@);
    let mut details = parse_calendar_detail_rows_from_dom(page, month);
    let ghost rows = day_views(details@);
    records.append(&mut details);
    assert(day_views(records@) == grid + rows);
    assert(records.len() == day_views(records@).len());
    if records.len() == 0 {
        records = parse_table_rows(page, month);
    }
    merge_calendar_days(records)
}

/// The days that a calendar page reports for a month.
pub fn parse_calendar_html(html: &str, month: NaiveDate) -> (days: Vec<CalendarDay>)
    ensures
        day_views(days@) == page_days(page_of(html@), month@),
{
    let page = Page::parse(html);
    parse_calendar_page(&page, month)
}

/// A day of which nothing is known.
pub open spec fn blank_day(date: CalendarDate) -> DayView {
    DayView {
        date,
        day_name: weekday_text(date),
        has_error: false,
        error_message: None,
        entry_time: None,
        exit_time: None,
        attendance_type: None,
        total_hours: None,
        source: AttendanceSource::Unreported,
    }
}

/// A day of which nothing is known.
pub fn blank_calendar_day(date: NaiveDate) -> (day: CalendarDay)
    ensures
        day@ == blank_day(date@),
{
    CalendarDay {
        date,
        day_name: date.weekday_name(),
        has_error: false,
        error_message: None,
        entry_time: None,
        exit_time: None,
        attendance_type: None,
        total_hours: None,
        source: AttendanceSource::Unreported,
    }
}

} // verus!
