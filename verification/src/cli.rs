//! What commands at a terminal are asked for, and the lines they show.

use crate::calendar::is_time_pattern;
use crate::date::{
    is_after, iso_text, month_text, weekday_text, CalendarDate, NaiveDate,
};
use crate::hr_core::{
    day_views, debug_text, target_views, AttendanceChange, AttendanceSource, CalendarDay,
    ChangeView, DayView, DocumentDownload, FixTarget, MonthCalendar, PreviewView, ReportSpec,
    SalaryEntry, SalarySummary, TargetView, WritePreview,
};
use crate::months::date_views;
use crate::render::{add_line, add_lines, row_line, row_text, text_or, text_or_else};
use crate::requests::hours_range;
use crate::responses::{action_kind, action_reason, error_day_from_overview, error_entry};
use crate::submit::{AttendanceSubmit, ShownWrite, SubmitPreview, SubmitView};
use crate::text::{
    decimal, decimal_text, digit_char, opt_str, opt_text, padded, padded_text, split_once_at, strs,
    texts,
};
use crate::use_cases::{
    error_day_views, hours_view, plan_views, ErrorDayView, OverviewData,
    OverviewErrorDay, OverviewSummary, PlanView, SuggestedActionPlan, targets_of_date, targets_on,
};
use vstd::prelude::*;

verus! {

/// Where the analyzed attendance sheet stands.
pub const SHEET_REPORT_PATH: &'static str = "/Hilannetv2/Attendance/HoursAnalysis.aspx";

/// Where the log of corrections stands.
pub const CORRECTIONS_REPORT_PATH: &'static str = "/Hilannetv2/Attendance/HoursReportLog.aspx";

// ---------------------------------------------------------------------------
// What is asked for
// ---------------------------------------------------------------------------

/// Reads a range of hours, as `HH:MM-HH:MM`.
pub fn parse_hours_range(value: &str) -> (hours: Result<(String, String), String>)
    ensures
        match (hours, hours_range(value@)) {
            (Ok(hours), Some(range)) => (hours.0@, hours.1@) == range,
            (Err(message), None) => message@ == "hours must be in HH:MM-HH:MM format"@,
            _ => false,
        },
{
    match split_once_at(value, '-') {
        Some(parts) => {
            if is_time_pattern(parts.0.as_str()) && is_time_pattern(parts.1.as_str()) {
                Ok(parts)
            } else {
                Err("hours must be in HH:MM-HH:MM format".to_owned())
            }
        },
        None => Err("hours must be in HH:MM-HH:MM format".to_owned()),
    }
}

/// What is written for a day: a kind, hours, or both. Hours without a kind
/// take the usual one.
pub open spec fn day_change(
    date: CalendarDate,
    code: Option<Seq<char>>,
    hours: Option<(Seq<char>, Seq<char>)>,
) -> ChangeView {
    ChangeView {
        date,
        attendance_type_code: code,
        use_default_attendance_type: code is None && hours is Some,
        entry_time: match hours {
            Some(hours) => Some(hours.0),
            None => None,
        },
        exit_time: match hours {
            Some(hours) => Some(hours.1),
            None => None,
        },
        comment: None,
        clear_entry: false,
        clear_exit: false,
        clear_comment: false,
    }
}

/// What is written for a day, which is nothing without a kind or hours.
pub fn build_day_change(
    date: NaiveDate,
    attendance_type_code: Option<String>,
    hours: Option<(String, String)>,
) -> (change: Result<AttendanceChange, String>)
    ensures
        match change {
            Ok(change) => !(attendance_type_code is None && hours is None) && change@
                == day_change(date@, opt_text(attendance_type_code), hours_view(hours)),
            Err(message) => attendance_type_code is None && hours is None && message@
                == "attendance report day requires --type or --hours"@,
        },
{
    let (entry_time, exit_time) = match hours {
        Some((entry, exit)) => (Some(entry), Some(exit)),
        None => (None, None),
    };
    if attendance_type_code.is_none() && entry_time.is_none() {
        return Err("attendance report day requires --type or --hours".to_owned());
    }
    let use_default_attendance_type = attendance_type_code.is_none() && entry_time.is_some();
    Ok(
        AttendanceChange {
            date,
            attendance_type_code,
            use_default_attendance_type,
            entry_time,
            exit_time,
            comment: None,
            clear_entry: false,
            clear_exit: false,
            clear_comment: false,
        },
    )
}

/// The one target of a date, or why there is not one.
pub open spec fn date_target(targets: Seq<TargetView>, date: CalendarDate) -> Result<
    TargetView,
    Seq<char>,
> {
    let found = targets_on(targets, date);
    if found.len() == 1 {
        Ok(found[0])
    } else if found.len() == 0 {
        Err(
            "No fix target found for "@ + iso_text(date)
                + ". Run `shaon attendance errors --month "@ + month_text(date)
                + "` first and confirm the day is still fixable."@,
        )
    } else {
        Err(
            "Found multiple fix targets for "@ + iso_text(date)
                + ". Inspect `shaon attendance errors --month "@ + month_text(date)
                + "` and retry."@,
        )
    }
}

/// Finds the one target of a date.
pub fn find_fix_target_for_date(fix_targets: &Vec<FixTarget>, date: NaiveDate) -> (target: Result<
    FixTarget,
    String,
>)
    ensures
        match (target, date_target(target_views(fix_targets@), date@)) {
            (Ok(target), Ok(only)) => target@ == only,
            (Err(message), Err(only)) => message@ == only,
            _ => false,
        },
{
    let found = targets_of_date(fix_targets, date);
    assert(target_views(found@).len() == found.len());
    if found.len() == 1 {
        assert(target_views(found@)[0] == found@[0]@);
        Ok(found[0].copy())
    } else if found.len() == 0 {
        let mut message = "No fix target found for ".to_owned();
        message.append(date.iso().as_str());
        message.append(". Run `shaon attendance errors --month ");
        message.append(date.year_month().as_str());
        message.append("` first and confirm the day is still fixable.");
        Err(message)
    } else {
        let mut message = "Found multiple fix targets for ".to_owned();
        message.append(date.iso().as_str());
        message.append(". Inspect `shaon attendance errors --month ");
        message.append(date.year_month().as_str());
        message.append("` and retry.");
        Err(message)
    }
}

/// Whether one comes or leaves.
#[derive(Debug, Clone, Copy, PartialEq, Eq, Structural)]
pub enum TodayAction {
    In,
    Out,
}

/// What is reported about today: that one comes, or else that one leaves, and
/// a kind only where one comes.
pub fn today_action(comes: bool, leaves: bool, has_type: bool) -> (action: Result<
    TodayAction,
    String,
>)
    ensures
        match action {
            Ok(action) => (comes || leaves) && !(leaves && has_type) && action == (if comes {
                TodayAction::In
            } else {
                TodayAction::Out
            }),
            Err(message) => if !comes && !leaves {
                message@ == "attendance report today requires one of --in or --out"@
            } else {
                leaves && has_type && message@
                    == "--type is only supported with `shaon attendance report today --in`"@
            },
        },
{
    if !comes && !leaves {
        return Err("attendance report today requires one of --in or --out".to_owned());
    }
    if leaves && has_type {
        return Err(
            "--type is only supported with `shaon attendance report today --in`".to_owned(),
        );
    }
    if comes {
        Ok(TodayAction::In)
    } else {
        Ok(TodayAction::Out)
    }
}

/// What is written when one comes, of the usual kind where none is named, or
/// leaves.
pub open spec fn today_write(
    action: TodayAction,
    date: CalendarDate,
    time: Seq<char>,
    code: Option<Seq<char>>,
) -> SubmitView {
    SubmitView {
        date,
        attendance_type_code: match action {
            TodayAction::In => code,
            TodayAction::Out => None,
        },
        entry_time: match action {
            TodayAction::In => Some(time),
            TodayAction::Out => None,
        },
        exit_time: match action {
            TodayAction::In => None,
            TodayAction::Out => Some(time),
        },
        comment: None,
        clear_entry: false,
        clear_exit: false,
        clear_comment: false,
        default_work_day: match action {
            TodayAction::In => code is None,
            TodayAction::Out => false,
        },
    }
}

/// What is written when one comes or leaves.
pub fn today_submit(
    action: TodayAction,
    date: NaiveDate,
    time: &str,
    code: Option<String>,
) -> (submit: AttendanceSubmit)
    ensures
        submit@ == today_write(action, date@, time@, opt_text(code)),
{
    match action {
        TodayAction::In => {
            let default_work_day = code.is_none();
            AttendanceSubmit {
                date,
                attendance_type_code: code,
                entry_time: Some(time.to_owned()),
                exit_time: None,
                comment: None,
                clear_entry: false,
                clear_exit: false,
                clear_comment: false,
                default_work_day,
            }
        },
        TodayAction::Out => AttendanceSubmit {
            date,
            attendance_type_code: None,
            entry_time: None,
            exit_time: Some(time.to_owned()),
            comment: None,
            clear_entry: false,
            clear_exit: false,
            clear_comment: false,
            default_work_day: false,
        },
    }
}

/// Why a range of dates cannot be reported: it ends before it starts.
pub fn check_range(from: NaiveDate, to: NaiveDate) -> (refusal: Option<String>)
    ensures
        match refusal {
            Some(message) => is_after(from@, to@) && message@
                == "--from must be before or equal to --to"@,
            None => !is_after(from@, to@),
        },
{
    if from.is_after(to) {
        Some("--from must be before or equal to --to".to_owned())
    } else {
        None
    }
}

/// Whether a request to fill a month gives neither a kind nor hours.
pub fn auto_fill_is_empty(
    attendance_type: Option<&str>,
    hours: &Option<(String, String)>,
) -> (answer: bool)
    ensures
        answer == (attendance_type is None && hours is None),
{
    attendance_type.is_none() && hours.is_none()
}

/// Why a month cannot be filled without a kind and without hours; `help` lists
/// the kinds, where they are known.
pub fn auto_fill_needs_more(help: Option<&str>) -> (message: String)
    ensures
        message@ == "attendance auto-fill requires --type or --hours.\n"@ + match opt_str(help) {
            Some(help) => help,
            None =>
                "Use `shaon attendance types` to inspect available types, or pass --type <code>."@,
        },
{
    let mut message = "attendance auto-fill requires --type or --hours.\n".to_owned();
    message.append(
        match help {
            Some(help) => help,
            None => "Use `shaon attendance types` to inspect available types, or pass --type <code>.",
        },
    );
    message
}

/// Which report is asked for.
#[derive(Debug)]
pub enum ReportRequest {
    Named(String),
    Sheet,
    Corrections,
}

/// The kind of a report, the name it is asked for by, and where it stands.
pub open spec fn report_asked(request: ReportRequest) -> (Seq<char>, Seq<char>, ReportPlace) {
    match request {
        ReportRequest::Named(name) => ("named"@, name@, ReportPlace::Named(name@)),
        ReportRequest::Sheet => ("sheet"@, "sheet"@, ReportPlace::Path(SHEET_REPORT_PATH@)),
        ReportRequest::Corrections => (
            "corrections"@,
            "corrections"@,
            ReportPlace::Path(CORRECTIONS_REPORT_PATH@),
        ),
    }
}

/// Where a report stands, as mathematics.
pub enum ReportPlace {
    Named(Seq<char>),
    Path(Seq<char>),
}

/// Where a report stands, as mathematics.
pub open spec fn place_of(spec: ReportSpec) -> ReportPlace {
    match spec {
        ReportSpec::Named(name) => ReportPlace::Named(name@),
        ReportSpec::Path(path) => ReportPlace::Path(path@),
    }
}

/// The kind of a report, the name it is asked for by, and where it stands.
pub fn requested_report(request: ReportRequest) -> (asked: (&'static str, String, ReportSpec))
    ensures
        (asked.0@, asked.1@, place_of(asked.2)) == report_asked(request),
{
    match request {
        ReportRequest::Named(name) => {
            let spec = ReportSpec::Named(name.clone());
            ("named", name, spec)
        },
        ReportRequest::Sheet => (
            "sheet",
            "sheet".to_owned(),
            ReportSpec::Path(SHEET_REPORT_PATH.to_owned()),
        ),
        ReportRequest::Corrections => (
            "corrections",
            "corrections".to_owned(),
            ReportSpec::Path(CORRECTIONS_REPORT_PATH.to_owned()),
        ),
    }
}

// ---------------------------------------------------------------------------
// Numbers
// ---------------------------------------------------------------------------

/// A number with a comma before every three digits.
pub open spec fn grouped(n: nat) -> Seq<char>
    decreases n,
{
    if n < 1000 {
        decimal(n)
    } else {
        grouped(n / 1000) + ","@ + padded(n % 1000, 3)
    }
}

/// Writes a number with a comma before every three digits.
pub fn format_number(value: u64) -> (text: String)
    ensures
        text@ == grouped(value as nat),
    decreases value,
{
    if value < 1000 {
        decimal_text(value)
    } else {
        let mut text = format_number(value / 1000);
        text.append(",");
        text.append(padded_text(value % 1000, 3).as_str());
        text
    }
}

/// A text without its commas.
pub open spec fn without_commas(text: Seq<char>) -> Seq<char>
    decreases text.len(),
{
    if text.len() == 0 {
        seq![]
    } else {
        let before = without_commas(text.drop_last());
        if text.last() == ',' {
            before
        } else {
            before.push(text.last())
        }
    }
}

/// The digits of a number from one thousand on: those of its thousands, and
/// three more.
proof fn thousands_then_rest(n: nat)
    requires
        n >= 1000,
    ensures
        decimal(n) == decimal(n / 1000) + padded(n % 1000, 3),
{
    let m = n % 1000;
    let a = n / 10;
    let b = a / 10;
    assert(b / 10 == n / 1000);
    assert(m % 10 == n % 10);
    assert((m / 10) % 10 == a % 10);
    assert(m / 100 == b % 10);
    reveal_with_fuel(decimal, 4);
    assert(decimal(n) == decimal(n / 1000) + seq![
        digit_char((m / 100) as nat),
        digit_char((m / 10) % 10),
        digit_char(m % 10),
    ]);
    assert(padded(m, 3) == seq![
        digit_char((m / 100) as nat),
        digit_char((m / 10) % 10),
        digit_char(m % 10),
    ]);
}

/// The digits of a number hold no comma.
proof fn digits_hold_no_comma(n: nat)
    ensures
        without_commas(decimal(n)) == decimal(n),
    decreases n,
{
    if n < 10 {
        assert(decimal(n).drop_last() == Seq::<char>::empty());
        assert(without_commas(decimal(n).drop_last()) == Seq::<char>::empty());
        assert(decimal(n).last() == digit_char(n));
        assert(without_commas(decimal(n)) == Seq::<char>::empty().push(digit_char(n)));
    } else {
        digits_hold_no_comma(n / 10);
        assert(decimal(n).drop_last() == decimal(n / 10));
        assert(decimal(n).last() == digit_char(n % 10));
    }
}

/// Commas are taken out of two texts as out of each.
proof fn commas_of_a_sum(a: Seq<char>, b: Seq<char>)
    ensures
        without_commas(a + b) == without_commas(a) + without_commas(b),
    decreases b.len(),
{
    if b.len() == 0 {
        assert(a + b == a);
    } else {
        commas_of_a_sum(a, b.drop_last());
        assert((a + b).drop_last() == a + b.drop_last());
        assert((a + b).last() == b.last());
    }
}

/// A number written with commas is, without them, the number.
pub proof fn numbers_keep_their_digits(n: nat)
    ensures
        without_commas(grouped(n)) == decimal(n),
    decreases n,
{
    digits_hold_no_comma(n);
    if n >= 1000 {
        numbers_keep_their_digits(n / 1000);
        thousands_then_rest(n);
        let head = grouped(n / 1000);
        let tail = padded(n % 1000, 3);
        digits_hold_no_comma(n / 1000);
        commas_of_a_sum(decimal(n / 1000), tail);
        assert(without_commas(tail) == tail) by {
            let all = decimal(n / 1000) + tail;
            let kept = decimal(n / 1000) + without_commas(tail);
            assert(all == kept);
            assert(all.skip(decimal(n / 1000).len() as int) == tail);
            assert(kept.skip(decimal(n / 1000).len() as int) == without_commas(tail));
        }
        commas_of_a_sum(head + ","@, tail);
        commas_of_a_sum(head, ","@);
        assert(without_commas(","@) == Seq::<char>::empty()) by {
            reveal_strlit(",");
            assert(","@.drop_last() == Seq::<char>::empty());
            assert(","@.last() == ',');
            assert(without_commas(","@.drop_last()) == Seq::<char>::empty());
            assert(","@.len() == 1);
        }
        assert(without_commas(head + ","@) == without_commas(head));
    }
}

// ---------------------------------------------------------------------------
// The overview of a month
// ---------------------------------------------------------------------------

/// Lines under a heading, or nothing where there are none.
pub open spec fn section(heading: Seq<char>, lines: Seq<Seq<char>>) -> Seq<Seq<char>> {
    if lines.len() == 0 {
        seq![]
    } else {
        seq![""@, heading] + lines
    }
}

/// Adds lines under a heading, where there are any.
fn add_section(lines: &mut Vec<String>, heading: &str, more: Vec<String>)
    ensures
        texts(final(lines)@) == texts(old(lines)@) + section(heading@, texts(more@)),
{
    let ghost before = texts(lines@);
    assert(texts(more@).len() == more.len());
    if more.len() > 0 {
        let ghost found = texts(more@);
        add_line(lines, "".to_owned());
        add_line(lines, heading.to_owned());
        add_lines(lines, more);
        assert(texts(lines@) == before + section(heading@, found));
    } else {
        assert(texts(lines@) == before + section(heading@, texts(more@)));
    }
}

/// A day without a report.
pub open spec fn missing_line(date: CalendarDate) -> Seq<char> {
    "  "@ + iso_text(date) + " ("@ + weekday_text(date) + ")"@
}

fn missing_lines(dates: &Vec<NaiveDate>) -> (lines: Vec<String>)
    ensures
        texts(lines@) == date_views(dates@).map_values(|date: CalendarDate| missing_line(date)),
{
    let ghost all = date_views(dates@);
    let mut lines: Vec<String> = Vec::new();
    let mut i: usize = 0;
    while i < dates.len()
        invariant
            i <= dates.len(),
            all == date_views(dates@),
            lines.len() == i,
            forall|j: int| 0 <= j < i ==> (#[trigger] lines@[j])@ == missing_line(all[j]),
        decreases dates.len() - i,
    {
        let mut line = "  ".to_owned();
        line.append(dates[i].iso().as_str());
        line.append(" (");
        line.append(dates[i].weekday_name().as_str());
        line.append(")");
        lines.push(line);
        i = i + 1;
    }
    assert(texts(lines@) == all.map_values(|date: CalendarDate| missing_line(date)));
    lines
}

/// A day with an error.
pub open spec fn error_line(entry: ErrorDayView) -> Seq<char> {
    let shown = error_entry(entry);
    "  "@ + shown.date + " ("@ + shown.day_name + ") -- "@ + shown.error_message
}

fn error_lines(days: &Vec<OverviewErrorDay>) -> (lines: Vec<String>)
    ensures
        texts(lines@) == error_day_views(days@).map_values(
            |entry: ErrorDayView| error_line(entry),
        ),
{
    let ghost all = error_day_views(days@);
    let mut lines: Vec<String> = Vec::new();
    let mut i: usize = 0;
    while i < days.len()
        invariant
            i <= days.len(),
            all == error_day_views(days@),
            lines.len() == i,
            forall|j: int| 0 <= j < i ==> (#[trigger] lines@[j])@ == error_line(all[j]),
        decreases days.len() - i,
    {
        let entry = error_day_from_overview(&days[i]);
        let mut line = "  ".to_owned();
        line.append(entry.date.as_str());
        line.append(" (");
        line.append(entry.day_name.as_str());
        line.append(") -- ");
        line.append(entry.error_message.as_str());
        lines.push(line);
        i = i + 1;
    }
    assert(texts(lines@) == all.map_values(|entry: ErrorDayView| error_line(entry)));
    lines
}

/// The command that something one could do is done by.
pub open spec fn command_hint(plan: PlanView) -> Seq<char> {
    match plan {
        PlanView::FixErrors { month, .. } => "shaon attendance errors --month "@ + month_text(month),
        PlanView::FillMissing { from, to, .. } => "shaon attendance report range --from "@
            + iso_text(from) + " --to "@ + iso_text(to)
            + " --type <type> --hours <HH:MM-HH:MM>"@,
    }
}

/// Something that one could do.
pub open spec fn action_line(plan: PlanView) -> Seq<char> {
    "  ["@ + action_kind(plan) + "] "@ + action_reason(plan) + " -- "@ + command_hint(plan)
}

fn hint_of(plan: &SuggestedActionPlan) -> (hint: String)
    ensures
        hint@ == command_hint(plan@),
{
    match plan {
        SuggestedActionPlan::FixErrors { month, .. } => {
            let mut hint = "shaon attendance errors --month ".to_owned();
            hint.append(month.year_month().as_str());
            hint
        },
        SuggestedActionPlan::FillMissing { from, to, .. } => {
            let mut hint = "shaon attendance report range --from ".to_owned();
            hint.append(from.iso().as_str());
            hint.append(" --to ");
            hint.append(to.iso().as_str());
            hint.append(" --type <type> --hours <HH:MM-HH:MM>");
            hint
        },
    }
}

fn action_lines(plans: &Vec<SuggestedActionPlan>) -> (lines: Vec<String>)
    ensures
        texts(lines@) == plan_views(plans@).map_values(|plan: PlanView| action_line(plan)),
{
    let ghost all = plan_views(plans@);
    let mut lines: Vec<String> = Vec::new();
    let mut i: usize = 0;
    while i < plans.len()
        invariant
            i <= plans.len(),
            all == plan_views(plans@),
            lines.len() == i,
            forall|j: int| 0 <= j < i ==> (#[trigger] lines@[j])@ == action_line(all[j]),
        decreases plans.len() - i,
    {
        let mut line = "  [".to_owned();
        line.append(plans[i].kind());
        line.append("] ");
        line.append(plans[i].reason().as_str());
        line.append(" -- ");
        line.append(hint_of(&plans[i]).as_str());
        lines.push(line);
        i = i + 1;
    }
    assert(texts(lines@) == all.map_values(|plan: PlanView| action_line(plan)));
    lines
}

/// How a month stands, in a line.
pub open spec fn month_line(month: CalendarDate, summary: OverviewSummary) -> Seq<char> {
    "Month: "@ + month_text(month) + " -- "@ + decimal(summary.reported as nat) + "/"@ + decimal(
        summary.total_work_days as nat,
    ) + " reported, "@ + decimal(summary.errors as nat) + " errors, "@ + decimal(
        summary.missing as nat,
    ) + " missing"@
}

/// The overview of a month, as it is shown.
pub open spec fn overview_text(overview: OverviewData) -> Seq<Seq<char>> {
    seq![
        "User: "@ + overview.identity.display_name@ + " (employee "@
            + overview.identity.employee_id@ + ")"@,
        month_line(overview.month@, overview.summary),
    ] + section(
        "Missing days:"@,
        date_views(overview.missing_days@).map_values(|date: CalendarDate| missing_line(date)),
    ) + section(
        "Error days:"@,
        error_day_views(overview.error_days@).map_values(|entry: ErrorDayView| error_line(entry)),
    ) + section(
        "Suggested actions:"@,
        plan_views(overview.suggested_actions@).map_values(|plan: PlanView| action_line(plan)),
    )
}

/// Shows the overview of a month.
pub fn overview_lines(overview: &OverviewData) -> (lines: Vec<String>)
    ensures
        texts(lines@) == overview_text(*overview),
{
    let mut lines: Vec<String> = Vec::new();
    let mut user = "User: ".to_owned();
    user.append(overview.identity.display_name.as_str());
    user.append(" (employee ");
    user.append(overview.identity.employee_id.as_str());
    user.append(")");
    add_line(&mut lines, user);
    let mut month = "Month: ".to_owned();
    month.append(overview.month.year_month().as_str());
    month.append(" -- ");
    month.append(decimal_text(overview.summary.reported as u64).as_str());
    month.append("/");
    month.append(decimal_text(overview.summary.total_work_days as u64).as_str());
    month.append(" reported, ");
    month.append(decimal_text(overview.summary.errors as u64).as_str());
    month.append(" errors, ");
    month.append(decimal_text(overview.summary.missing as u64).as_str());
    month.append(" missing");
    add_line(&mut lines, month);
    assert(texts(lines@) == seq![
        "User: "@ + overview.identity.display_name@ + " (employee "@
            + overview.identity.employee_id@ + ")"@,
        month_line(overview.month@, overview.summary),
    ]);
    add_section(&mut lines, "Missing days:", missing_lines(&overview.missing_days));
    add_section(&mut lines, "Error days:", error_lines(&overview.error_days));
    add_section(&mut lines, "Suggested actions:", action_lines(&overview.suggested_actions));
    lines
}

// ---------------------------------------------------------------------------
// The days of a month
// ---------------------------------------------------------------------------

/// A source in a word.
pub open spec fn source_label(source: AttendanceSource) -> Seq<char> {
    match source {
        AttendanceSource::UserReported => "user"@,
        AttendanceSource::SystemAutoFill => "auto"@,
        AttendanceSource::Holiday => "holiday"@,
        AttendanceSource::Unreported => ""@,
    }
}

/// A source in a word.
pub fn attendance_source_label(source: AttendanceSource) -> (label: &'static str)
    ensures
        label@ == source_label(source),
{
    match source {
        AttendanceSource::UserReported => "user",
        AttendanceSource::SystemAutoFill => "auto",
        AttendanceSource::Holiday => "holiday",
        AttendanceSource::Unreported => "",
    }
}

/// The columns of a month in detail.
pub open spec fn detail_widths() -> Seq<usize> {
    seq![10usize, 5, 5, 5, 20, 9, 5]
}

/// A day in detail.
pub open spec fn detail_line(day: DayView) -> Seq<char> {
    row_line(
        seq![
            iso_text(day.date),
            day.day_name,
            text_or(day.entry_time, ""@),
            text_or(day.exit_time, ""@),
            text_or(day.attendance_type, ""@),
            source_label(day.source),
            text_or(day.total_hours, ""@),
        ],
        detail_widths(),
    ) + "  "@ + if day.has_error {
        "yes"@
    } else {
        ""@
    }
}

/// The lines above the days of a month in detail.
pub open spec fn detail_head(month: CalendarDate, employee: Seq<char>) -> Seq<Seq<char>> {
    seq![
        "Calendar "@ + month_text(month) + " (employee "@ + employee + ")"@,
        "Date        Day    Entry  Exit   Type                  Source     Hours  Error"@,
        "----------  -----  -----  -----  --------------------  ---------  -----  -----"@,
    ]
}

/// A day in detail.
fn detail_text(day: &CalendarDay) -> (line: String)
    ensures
        line@ == detail_line(day@),
{
    let widths: Vec<usize> = vec![10, 5, 5, 5, 20, 9, 5];
    assert(widths@ == detail_widths());
    let date = day.date.iso();
    let cells: Vec<&str> = vec![
        date.as_str(),
        day.day_name.as_str(),
        text_or_else(&day.entry_time, ""),
        text_or_else(&day.exit_time, ""),
        text_or_else(&day.attendance_type, ""),
        attendance_source_label(day.source),
        text_or_else(&day.total_hours, ""),
    ];
    assert(strs(cells@) == seq![
        iso_text(day@.date),
        day@.day_name,
        text_or(day@.entry_time, ""@),
        text_or(day@.exit_time, ""@),
        text_or(day@.attendance_type, ""@),
        source_label(day@.source),
        text_or(day@.total_hours, ""@),
    ]);
    let mut line = row_text(&cells, &widths);
    line.append("  ");
    line.append(
        if day.has_error {
            "yes"
        } else {
            ""
        },
    );
    line
}

/// Shows a month in detail.
pub fn detailed_calendar_lines(calendar: &MonthCalendar) -> (lines: Vec<String>)
    ensures
        texts(lines@) == detail_head(calendar.month@, calendar.employee_id@) + day_views(
            calendar.days@,
        ).map_values(|day: DayView| detail_line(day)),
{
    let mut title = "Calendar ".to_owned();
    title.append(calendar.month.year_month().as_str());
    title.append(" (employee ");
    title.append(calendar.employee_id.as_str());
    title.append(")");
    let mut lines: Vec<String> = Vec::new();
    add_line(&mut lines, title);
    add_line(
        &mut lines,
        "Date        Day    Entry  Exit   Type                  Source     Hours  Error".to_owned(),
    );
    add_line(
        &mut lines,
        "----------  -----  -----  -----  --------------------  ---------  -----  -----".to_owned(),
    );
    let ghost head = detail_head(calendar.month@, calendar.employee_id@);
    assert(texts(lines@) == head);
    let ghost all = day_views(calendar.days@);
    let ghost rows = all.map_values(|day: DayView| detail_line(day));
    assert(head + rows.take(0) == head);
    let mut i: usize = 0;
    while i < calendar.days.len()
        invariant
            i <= calendar.days.len(),
            all == day_views(calendar.days@),
            rows == all.map_values(|day: DayView| detail_line(day)),
            texts(lines@) == head + rows.take(i as int),
        decreases calendar.days.len() - i,
    {
        assert(rows[i as int] == detail_line(calendar.days@[i as int]@));
        assert(head + rows.take(i + 1) == (head + rows.take(i as int)).push(rows[i as int]));
        add_line(&mut lines, detail_text(&calendar.days[i]));
        i = i + 1;
    }
    assert(rows.take(rows.len() as int) == rows);
    lines
}

// ---------------------------------------------------------------------------
// Writes
// ---------------------------------------------------------------------------

/// The first line about a write.
pub open spec fn write_title(action: Seq<char>, executed: bool) -> Seq<char> {
    action + " ["@ + if executed {
        "EXECUTED"@
    } else {
        "DRY RUN"@
    } + "]"@
}

fn write_heading(action: &str, executed: bool) -> (title: String)
    ensures
        title@ == write_title(action@, executed),
{
    let mut title = action.to_owned();
    title.append(" [");
    title.append(
        if executed {
            "EXECUTED"
        } else {
            "DRY RUN"
        },
    );
    title.append("]");
    title
}

fn named_line(name: &str, value: &str) -> (line: String)
    ensures
        line@ == name@ + value@,
{
    let mut line = name.to_owned();
    line.append(value);
    line
}

fn button_line(name: &str, value: &str) -> (line: String)
    ensures
        line@ == "Button: "@ + name@ + " = "@ + value@,
{
    let mut line = "Button: ".to_owned();
    line.append(name);
    line.append(" = ");
    line.append(value);
    line
}

/// A write, as it is shown.
pub open spec fn submit_preview_text(action: Seq<char>, preview: ShownWrite) -> Seq<Seq<char>> {
    seq![
        write_title(action, preview.executed),
        "Target URL: "@ + preview.url,
        "Employee ID: "@ + preview.employee_id,
        "Button: "@ + preview.button_name + " = "@ + preview.button_value,
        preview.payload_display,
    ]
}

/// Shows a write.
pub fn submit_preview_lines(action: &str, preview: &SubmitPreview) -> (lines: Vec<String>)
    ensures
        texts(lines@) == submit_preview_text(action@, preview@),
{
    let mut lines: Vec<String> = Vec::new();
    add_line(&mut lines, write_heading(action, preview.executed));
    add_line(&mut lines, named_line("Target URL: ", preview.url.as_str()));
    add_line(&mut lines, named_line("Employee ID: ", preview.employee_id.as_str()));
    add_line(
        &mut lines,
        button_line(preview.button_name.as_str(), preview.button_value.as_str()),
    );
    add_line(&mut lines, preview.payload_display.clone());
    assert(texts(lines@) == submit_preview_text(action@, preview@));
    lines
}

/// A line that stands only where there is a value.
pub open spec fn with_line(
    lines: Seq<Seq<char>>,
    name: Seq<char>,
    value: Option<Seq<char>>,
) -> Seq<Seq<char>> {
    match value {
        Some(value) => lines.push(name + value),
        None => lines,
    }
}

/// A provider's write, as it is shown: what the provider tells of it.
pub open spec fn provider_preview_text(action: Seq<char>, preview: PreviewView) -> Seq<Seq<char>> {
    let debug = preview.provider_debug;
    let lines = seq![write_title(action, preview.executed)];
    let lines = with_line(lines, "Target URL: "@, debug_text(debug, "url"@));
    let lines = with_line(lines, "Employee ID: "@, debug_text(debug, "employee_id"@));
    let lines = match (debug_text(debug, "button_name"@), debug_text(debug, "button_value"@)) {
        (Some(name), Some(value)) => lines.push("Button: "@ + name + " = "@ + value),
        _ => lines,
    };
    lines.push(
        match debug_text(debug, "payload_display"@) {
            Some(payload) => payload,
            None => preview.summary,
        },
    )
}

fn add_named(lines: &mut Vec<String>, name: &str, value: Option<&str>)
    ensures
        texts(final(lines)@) == with_line(texts(old(lines)@), name@, opt_str(value)),
{
    match value {
        Some(value) => add_line(lines, named_line(name, value)),
        None => {},
    }
}

/// Shows a provider's write.
pub fn provider_preview_lines(action: &str, preview: &WritePreview) -> (lines: Vec<String>)
    ensures
        texts(lines@) == provider_preview_text(action@, preview@),
{
    let mut lines: Vec<String> = Vec::new();
    add_line(&mut lines, write_heading(action, preview.executed));
    assert(texts(lines@) == seq![write_title(action@, preview@.executed)]);
    add_named(&mut lines, "Target URL: ", preview.debug_field("url"));
    add_named(&mut lines, "Employee ID: ", preview.debug_field("employee_id"));
    match (preview.debug_field("button_name"), preview.debug_field("button_value")) {
        (Some(name), Some(value)) => add_line(&mut lines, button_line(name, value)),
        _ => {},
    }
    let last = match preview.debug_field("payload_display") {
        Some(payload) => payload.to_owned(),
        None => preview.summary.clone(),
    };
    add_line(&mut lines, last);
    lines
}

// ---------------------------------------------------------------------------
// Salaries and payslips
// ---------------------------------------------------------------------------

/// A month's salary.
pub open spec fn salary_line(entry: SalaryEntry) -> Seq<char> {
    month_text(entry.month@) + ": "@ + grouped(entry.amount as nat)
}

/// Salaries, as they are shown.
pub open spec fn salary_text(label: Seq<char>, entries: Seq<SalaryEntry>) -> Seq<Seq<char>> {
    let head = if label.len() == 0 {
        seq![]
    } else {
        seq!["Salary row: "@ + label]
    };
    head + entries.map_values(|entry: SalaryEntry| salary_line(entry))
}

/// Shows salaries.
pub fn salary_lines(summary: &SalarySummary) -> (lines: Vec<String>)
    ensures
        texts(lines@) == salary_text(summary.label@, summary.entries@),
{
    let mut lines: Vec<String> = Vec::new();
    if !summary.label.as_str().is_empty() {
        add_line(&mut lines, named_line("Salary row: ", summary.label.as_str()));
    }
    let ghost head = texts(lines@);
    assert(head == if summary.label@.len() == 0 {
        Seq::<Seq<char>>::empty()
    } else {
        seq!["Salary row: "@ + summary.label@]
    });
    let ghost rows = summary.entries@.map_values(|entry: SalaryEntry| salary_line(entry));
    assert(head + rows.take(0) == head);
    let mut i: usize = 0;
    while i < summary.entries.len()
        invariant
            i <= summary.entries.len(),
            rows == summary.entries@.map_values(|entry: SalaryEntry| salary_line(entry)),
            texts(lines@) == head + rows.take(i as int),
        decreases summary.entries.len() - i,
    {
        assert(head + rows.take(i + 1) == (head + rows.take(i as int)).push(rows[i as int]));
        let entry = summary.entries[i];
        let mut line = entry.month.year_month();
        line.append(": ");
        line.append(format_number(entry.amount).as_str());
        add_line(&mut lines, line);
        i = i + 1;
    }
    assert(rows.take(rows.len() as int) == rows);
    lines
}

/// Says where a payslip was stored.
pub fn payslip_line(download: &DocumentDownload) -> (line: String)
    ensures
        line@ == "Saved password-protected payslip for "@ + month_text(download.month@) + " to "@
            + download.path@ + " ("@ + decimal(download.size_bytes as nat) + " bytes)"@,
{
    let mut line = "Saved password-protected payslip for ".to_owned();
    line.append(download.month.year_month().as_str());
    line.append(" to ");
    line.append(download.path.as_str());
    line.append(" (");
    line.append(decimal_text(download.size_bytes as u64).as_str());
    line.append(" bytes)");
    line
}

} // verus!
