//! Reading a month of the attendance calendar: the page itself, then the full
//! grid in a partial answer, then day by day.

use crate::attendance::{
    blank_calendar_day, blank_day, date_in_month, page_days, parse_calendar_html,
};
use crate::date::{is_date, iso_text, CalendarDate, NaiveDate};
use crate::dom::page_of;
use crate::fields::{pair_texts, sorted_pairs, FormFields};
use crate::forms::{delta_records, page_fields, parse_aspx_delta, parse_aspx_form_fields, EntryView};
use crate::hr_core::{day_views, CalendarDay, DayView, MonthCalendar};
use crate::months::{calendar_selected_day_value, month_field, month_field_value, selected_day};
use crate::submit::{is_whole_page, whole_page};
use crate::text::{contains, contains_text, reply_view, same};
use vstd::prelude::*;

verus! {

/// The value of the first field whose name marks the current employee.
pub open spec fn current_employee(pairs: Seq<(Seq<char>, Seq<char>)>) -> Seq<char>
    decreases pairs.len(),
{
    if pairs.len() == 0 {
        seq![]
    } else if contains(pairs[0].0, "hCurrentItemId"@) {
        pairs[0].1
    } else {
        current_employee(pairs.skip(1))
    }
}

/// The employee that a calendar page is about.
pub fn employee_of_calendar(fields: &FormFields) -> (employee_id: String)
    ensures
        employee_id@ == current_employee(sorted_pairs(fields@)),
{
    proof {
        use_type_invariant(fields);
        fields.pairs_are_sorted();
    }
    let ghost all = fields.pairs();
    let mut i: usize = 0;
    assert(all.skip(0) == all);
    while i < fields.len()
        invariant
            i <= all.len(),
            all == fields.pairs(),
            all == sorted_pairs(fields@),
            current_employee(all.skip(i as int)) == current_employee(all),
        decreases all.len() - i,
    {
        assert(all.skip(i as int).skip(1) == all.skip(i + 1));
        assert(all.skip(i as int)[0] == all[i as int]);
        if contains_text(fields.key_at(i).as_str(), "hCurrentItemId") {
            return fields.value_at(i).clone();
        }
        i = i + 1;
    }
    String::new()
}

/// Whether something is known of a day beyond its number.
pub open spec fn says_something(day: DayView) -> bool {
    day.entry_time is Some || day.exit_time is Some || day.attendance_type is Some || day.has_error
}

/// Whether something is known of some day.
pub open spec fn any_says_something(days: Seq<DayView>) -> bool {
    exists|i: int| 0 <= i < days.len() && says_something(#[trigger] days[i])
}

/// Whether a calendar page gives attendance, and not only the numbers of the
/// days as the small calendar does.
pub fn has_attendance_data(days: &Vec<CalendarDay>) -> (answer: bool)
    ensures
        answer == any_says_something(day_views(days@)),
{
    let ghost all = day_views(days@);
    let mut i: usize = 0;
    while i < days.len()
        invariant
            i <= days.len(),
            all == day_views(days@),
            forall|j: int| 0 <= j < i ==> !says_something(#[trigger] all[j]),
        decreases days.len() - i,
    {
        assert(all[i as int] == days@[i as int]@);
        if days[i].entry_time.is_some() || days[i].exit_time.is_some()
            || days[i].attendance_type.is_some() || days[i].has_error {
            assert(says_something(all[i as int]));
            return true;
        }
        i = i + 1;
    }
    false
}

// ---------------------------------------------------------------------------
// The full grid
// ---------------------------------------------------------------------------

/// Whether a record is a panel of the grid.
pub open spec fn is_grid_panel(entry: EntryView) -> bool {
    entry.kind == "updatePanel"@ && (contains(entry.id, "upGrid"@) || contains(
        entry.id,
        "reportsGrid_bodyUpdate"@,
    ))
}

/// Whether a record is a panel with rows.
pub open spec fn is_row_panel(entry: EntryView) -> bool {
    entry.kind == "updatePanel"@ && contains(entry.content, "row_"@)
}

/// The days of the first panel of the grid that gives any.
pub open spec fn first_grid_days(entries: Seq<EntryView>, month: CalendarDate) -> Seq<DayView>
    decreases entries.len(),
{
    if entries.len() == 0 {
        seq![]
    } else if is_grid_panel(entries[0]) && page_days(page_of(entries[0].content), month).len() > 0 {
        page_days(page_of(entries[0].content), month)
    } else {
        first_grid_days(entries.skip(1), month)
    }
}

/// The days of the first panel with rows that gives any.
pub open spec fn first_row_days(entries: Seq<EntryView>, month: CalendarDate) -> Seq<DayView>
    decreases entries.len(),
{
    if entries.len() == 0 {
        seq![]
    } else if is_row_panel(entries[0]) && page_days(page_of(entries[0].content), month).len() > 0 {
        page_days(page_of(entries[0].content), month)
    } else {
        first_row_days(entries.skip(1), month)
    }
}

/// The days that an answer to the request for the full grid gives.
pub open spec fn full_grid(response: Seq<char>, month: CalendarDate) -> Seq<DayView> {
    if whole_page(response) {
        page_days(page_of(response), month)
    } else if first_grid_days(delta_records(response), month).len() > 0 {
        first_grid_days(delta_records(response), month)
    } else {
        first_row_days(delta_records(response), month)
    }
}

/// The overrides that ask for the full grid of a month.
pub open spec fn full_grid_overrides(month: CalendarDate) -> Seq<(Seq<char>, Seq<char>)> {
    seq![
        ("ctl00$mp$currentMonth"@, month_field(month)),
        ("ctl00$mp$RefreshPeriod"@, "דיווח תקופתי"@),
    ]
}

/// The overrides that ask for the full grid of a month.
pub fn grid_overrides(month: NaiveDate) -> (overrides: Vec<(String, String)>)
    ensures
        pair_texts(overrides@) == full_grid_overrides(month@),
{
    let mut overrides: Vec<(String, String)> = Vec::new();
    overrides.push(("ctl00$mp$currentMonth".to_owned(), month_field_value(month)));
    overrides.push(("ctl00$mp$RefreshPeriod".to_owned(), "דיווח תקופתי".to_owned()));
    assert(pair_texts(overrides@) == full_grid_overrides(month@));
    overrides
}

/// The days that an answer to the request for the full grid gives.
pub fn full_grid_days(response: &str, month: NaiveDate) -> (days: Vec<CalendarDay>)
    ensures
        day_views(days@) == full_grid(response@, month@),
{
    if is_whole_page(response) {
        return parse_calendar_html(response, month);
    }
    let entries = parse_aspx_delta(response);
    let ghost all = entries@;
    let mut i: usize = 0;
    assert(all.skip(0) == all);
    while i < entries.entries.len()
        invariant
            i <= entries.entries.len(),
            all == entries@,
            all == delta_records(response@),
            !whole_page(response@),
            first_grid_days(all.skip(i as int), month@) == first_grid_days(all, month@),
        decreases entries.entries.len() - i,
    {
        assert(all.skip(i as int).skip(1) == all.skip(i + 1));
        assert(all.skip(i as int)[0] == entries.entries@[i as int]@);
        let entry = &entries.entries[i];
        if same(entry.kind.as_str(), "updatePanel") && (contains_text(entry.id.as_str(), "upGrid")
            || contains_text(entry.id.as_str(), "reportsGrid_bodyUpdate")) {
            let days = parse_calendar_html(entry.content.as_str(), month);
            assert(days.len() == day_views(days@).len());
            if days.len() > 0 {
                return days;
            }
        }
        i = i + 1;
    }
    assert(all.skip(all.len() as int).len() == 0);
    let mut k: usize = 0;
    while k < entries.entries.len()
        invariant
            k <= entries.entries.len(),
            all == entries@,
            all == delta_records(response@),
            !whole_page(response@),
            first_grid_days(all, month@).len() == 0,
            first_row_days(all.skip(k as int), month@) == first_row_days(all, month@),
        decreases entries.entries.len() - k,
    {
        assert(all.skip(k as int).skip(1) == all.skip(k + 1));
        assert(all.skip(k as int)[0] == entries.entries@[k as int]@);
        let entry = &entries.entries[k];
        if same(entry.kind.as_str(), "updatePanel") && contains_text(
            entry.content.as_str(),
            "row_",
        ) {
            let days = parse_calendar_html(entry.content.as_str(), month);
            assert(days.len() == day_views(days@).len());
            if days.len() > 0 {
                return days;
            }
        }
        k = k + 1;
    }
    assert(all.skip(all.len() as int).len() == 0);
    let none: Vec<CalendarDay> = Vec::new();
    assert(day_views(none@) == Seq::<DayView>::empty());
    none
}

// ---------------------------------------------------------------------------
// Day by day
// ---------------------------------------------------------------------------

/// The first day of a list with a date.
pub open spec fn day_on(days: Seq<DayView>, date: CalendarDate) -> Option<DayView>
    decreases days.len(),
{
    if days.len() == 0 {
        None
    } else if days[0].date == date {
        Some(days[0])
    } else {
        day_on(days.skip(1), date)
    }
}

/// What a page with a day selected says of the day.
pub open spec fn probed(html: Seq<char>, month: CalendarDate, date: CalendarDate) -> DayView {
    match day_on(page_days(page_of(html), month), date) {
        Some(day) => day,
        None => blank_day(date),
    }
}

/// What a page with a day selected says of the day.
pub fn probed_day(html: &str, month: NaiveDate, date: NaiveDate) -> (day: CalendarDay)
    ensures
        day@ == probed(html@, month@, date@),
{
    let days = parse_calendar_html(html, month);
    let ghost all = day_views(days@);
    let mut i: usize = 0;
    assert(all.skip(0) == all);
    while i < days.len()
        invariant
            i <= days.len(),
            all == day_views(days@),
            all == page_days(page_of(html@), month@),
            day_on(all.skip(i as int), date@) == day_on(all, date@),
        decreases days.len() - i,
    {
        assert(all.skip(i as int).skip(1) == all.skip(i + 1));
        assert(all.skip(i as int)[0] == days@[i as int]@);
        if days[i].date.same_as(date) {
            return days[i].copy();
        }
        i = i + 1;
    }
    blank_calendar_day(date)
}

/// The overrides that select a day for reading.
pub open spec fn probing_overrides(date: CalendarDate) -> Seq<(Seq<char>, Seq<char>)> {
    seq![
        ("__calendarSelectedDays"@, selected_day(date)),
        ("ctl00$mp$currentMonth"@, month_field(date)),
    ]
}

/// The overrides that select a day for reading.
pub fn probe_overrides(date: NaiveDate) -> (overrides: Vec<(String, String)>)
    ensures
        pair_texts(overrides@) == probing_overrides(date@),
{
    let mut overrides: Vec<(String, String)> = Vec::new();
    overrides.push(("__calendarSelectedDays".to_owned(), calendar_selected_day_value(date)));
    overrides.push(("ctl00$mp$currentMonth".to_owned(), month_field_value(date)));
    assert(pair_texts(overrides@) == probing_overrides(date@));
    overrides
}

// ---------------------------------------------------------------------------
// The whole reading
// ---------------------------------------------------------------------------

/// Where the reading of a month stands.
#[derive(Debug, Clone, Copy, PartialEq, Eq, Structural)]
pub enum ReadStage {
    /// The full grid is to be asked for.
    Grid,
    /// This day is to be asked for.
    Probe(NaiveDate),
    /// Done.
    Done,
}

/// A month that is being read.
pub struct CalendarReading {
    pub month: NaiveDate,
    pub employee_id: String,
    pub fields: FormFields,
    pub days: Vec<CalendarDay>,
    pub stage: ReadStage,
}

/// Where the reading of a month stands, as mathematics.
pub enum ReadStageView {
    Grid,
    Probe(CalendarDate),
    Done,
}

/// A month that is being read, as mathematics.
pub struct ReadingView {
    pub month: CalendarDate,
    pub employee_id: Seq<char>,
    pub fields: Map<Seq<char>, Seq<char>>,
    pub days: Seq<DayView>,
    pub stage: ReadStageView,
}

impl View for ReadStage {
    type V = ReadStageView;

    open spec fn view(&self) -> ReadStageView {
        match self {
            ReadStage::Grid => ReadStageView::Grid,
            ReadStage::Probe(date) => ReadStageView::Probe(date@),
            ReadStage::Done => ReadStageView::Done,
        }
    }
}

impl View for CalendarReading {
    type V = ReadingView;

    open spec fn view(&self) -> ReadingView {
        ReadingView {
            month: self.month@,
            employee_id: self.employee_id@,
            fields: self.fields@,
            days: day_views(self.days@),
            stage: self.stage@,
        }
    }
}

/// The reading once the page of the month is there: done where it gives
/// attendance.
pub open spec fn reading_of_page(
    html: Seq<char>,
    fields: Map<Seq<char>, Seq<char>>,
    month: CalendarDate,
) -> Result<ReadingView, Seq<char>> {
    let employee_id = current_employee(sorted_pairs(fields));
    let days = page_days(page_of(html), month);
    if employee_id.len() == 0 {
        Err("Could not find employee ID (hCurrentItemId) on calendar page"@)
    } else {
        Ok(
            ReadingView {
                month,
                employee_id,
                fields,
                days,
                stage: if any_says_something(days) {
                    ReadStageView::Done
                } else {
                    ReadStageView::Grid
                },
            },
        )
    }
}

/// The reading from its first day on, day by day.
pub open spec fn reading_day_by_day(reading: ReadingView) -> ReadingView {
    ReadingView {
        days: seq![],
        stage: ReadStageView::Probe(date_in_month(reading.month, 1)),
        ..reading
    }
}

/// The reading after the answer to the request for the full grid: done where
/// it gives days, else day by day.
pub open spec fn after_grid(reading: ReadingView, reply: Result<Seq<char>, Seq<char>>) -> ReadingView {
    match reply {
        Ok(response) => {
            let days = full_grid(response, reading.month);
            if days.len() > 0 {
                ReadingView { days, stage: ReadStageView::Done, ..reading }
            } else {
                reading_day_by_day(reading)
            }
        },
        Err(_) => reading_day_by_day(reading),
    }
}

/// The reading after the answer to the request for a day.
pub open spec fn after_probe(
    reading: ReadingView,
    date: CalendarDate,
    reply: Result<Seq<char>, Seq<char>>,
) -> Result<ReadingView, Seq<char>> {
    match reply {
        Ok(html) => {
            let next = date_in_month(reading.month, (date.day + 1) as nat);
            Ok(
                ReadingView {
                    fields: page_fields(page_of(html)),
                    days: reading.days.push(probed(html, reading.month, date)),
                    stage: if is_date(next) {
                        ReadStageView::Probe(next)
                    } else {
                        ReadStageView::Done
                    },
                    ..reading
                },
            )
        },
        Err(_) => Err("load attendance details for "@ + iso_text(date)),
    }
}

/// Day by day, each answer leads on to the next day or to the end, so that a
/// month is read with at most one request for each of its days.
pub proof fn reading_day_by_day_ends(
    reading: ReadingView,
    date: CalendarDate,
    reply: Result<Seq<char>, Seq<char>>,
)
    requires
        is_date(date),
        date.year == reading.month.year,
        date.month == reading.month.month,
    ensures
        after_probe(reading, date, reply) matches Ok(next) ==> next.days.len() == reading.days.len()
            + 1 && (next.stage matches ReadStageView::Probe(later) ==> later.day == date.day + 1
            && later.day <= 31),
{
}

impl CalendarReading {
    /// Begins with the page of the month.
    pub fn start(html: &str, fields: FormFields, month: NaiveDate) -> (reading: Result<
        CalendarReading,
        String,
    >)
        ensures
            match reading {
                Ok(reading) => reading_of_page(html@, fields@, month@) == Ok::<
                    ReadingView,
                    Seq<char>,
                >(reading@),
                Err(message) => reading_of_page(html@, fields@, month@) == Err::<
                    ReadingView,
                    Seq<char>,
                >(message@),
            },
    {
        let employee_id = employee_of_calendar(&fields);
        if employee_id.as_str().is_empty() {
            return Err("Could not find employee ID (hCurrentItemId) on calendar page".to_owned());
        }
        let days = parse_calendar_html(html, month);
        let stage = if has_attendance_data(&days) {
            ReadStage::Done
        } else {
            ReadStage::Grid
        };
        Ok(CalendarReading { month, employee_id, fields, days, stage })
    }

    /// Takes in the answer to the request for the full grid.
    pub fn grid_answered(self, reply: Result<String, String>) -> (reading: CalendarReading)
        requires
            self@.stage is Grid,
        ensures
            reading@ == after_grid(self@, reply_view(reply)),
    {
        if let Ok(response) = reply {
            let days = full_grid_days(response.as_str(), self.month);
            assert(days.len() == day_views(days@).len());
            if days.len() > 0 {
                return CalendarReading {
                    month: self.month,
                    employee_id: self.employee_id,
                    fields: self.fields,
                    days,
                    stage: ReadStage::Done,
                };
            }
        }
        let first = crate::months::month_start(self.month);
        let none: Vec<CalendarDay> = Vec::new();
        assert(day_views(none@) == Seq::<DayView>::empty());
        CalendarReading {
            month: self.month,
            employee_id: self.employee_id,
            fields: self.fields,
            days: none,
            stage: ReadStage::Probe(first),
        }
    }

    /// Takes in the answer to the request for a day.
    pub fn probe_answered(self, reply: Result<String, String>) -> (reading: Result<
        CalendarReading,
        String,
    >)
        requires
            self@.stage is Probe,
        ensures
            match reading {
                Ok(reading) => self@.stage matches ReadStageView::Probe(date) && after_probe(
                    self@,
                    date,
                    reply_view(reply),
                ) == Ok::<ReadingView, Seq<char>>(reading@),
                Err(message) => self@.stage matches ReadStageView::Probe(date) && after_probe(
                    self@,
                    date,
                    reply_view(reply),
                ) == Err::<ReadingView, Seq<char>>(message@),
            },
    {
        let date = match self.stage {
            ReadStage::Probe(date) => date,
            _ => self.month,
        };
        let html = match reply {
            Ok(html) => html,
            Err(_) => {
                let mut message = "load attendance details for ".to_owned();
                let iso = date.iso();
                message.append(iso.as_str());
                return Err(message);
            },
        };
        let fields = parse_aspx_form_fields(html.as_str());
        let day = probed_day(html.as_str(), self.month, date);
        let mut days = self.days;
        let ghost before = day_views(days@);
        days.push(day);
        assert(day_views(days@) == before.push(day@));
        let stage = match NaiveDate::from_ymd_opt(
            self.month.year(),
            self.month.month(),
            date.day() + 1,
        ) {
            Some(next) => ReadStage::Probe(next),
            None => ReadStage::Done,
        };
        Ok(CalendarReading { month: self.month, employee_id: self.employee_id, fields, days, stage })
    }

    /// The month as far as it was read.
    pub fn into_calendar(self) -> (calendar: MonthCalendar)
        ensures
            calendar.month@ == self@.month,
            calendar.employee_id@ == self@.employee_id,
            day_views(calendar.days@) == self@.days,
    {
        MonthCalendar { month: self.month, employee_id: self.employee_id, days: self.days }
    }
}

} // verus!
