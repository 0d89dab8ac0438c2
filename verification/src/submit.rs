//! Writing a day: the form that is posted, how it is shown, and what the
//! answer says.

use crate::date::{CalendarDate, NaiveDate};
use crate::dom::page_of;
use crate::fields::{has_key, pair_texts, FormFields};
use crate::forms::{
    delta_records, format_form_fields_for_display, page_fields, parse_aspx_delta,
    parse_aspx_form_fields, shown_form, DeltaEntries, EntryView,
};
use crate::text::{
    chars_of, contains, contains_text, copy_opt, decimal, decimal_text, find_from, index_from,
    opt_text, padded, padded_text, same, signed_decimal, signed_padded, signed_padded_text,
    signed_text, slice_text, starts_with, starts_with_text, strs,
};
use vstd::prelude::*;

verus! {

// ---------------------------------------------------------------------------
// What is written
// ---------------------------------------------------------------------------

/// The pages on which a day can be written.
#[derive(Debug, Clone, Copy, PartialEq, Eq, Structural)]
pub enum SubmitPage {
    Calendar,
    ErrorWizard,
}

/// What is to be written for a day.
#[derive(Debug, Clone)]
pub struct AttendanceSubmit {
    pub date: NaiveDate,
    pub attendance_type_code: Option<String>,
    pub entry_time: Option<String>,
    pub exit_time: Option<String>,
    pub comment: Option<String>,
    pub clear_entry: bool,
    pub clear_exit: bool,
    pub clear_comment: bool,
    pub default_work_day: bool,
}

/// What is to be written for a day, as mathematics.
pub struct SubmitView {
    pub date: CalendarDate,
    pub attendance_type_code: Option<Seq<char>>,
    pub entry_time: Option<Seq<char>>,
    pub exit_time: Option<Seq<char>>,
    pub comment: Option<Seq<char>>,
    pub clear_entry: bool,
    pub clear_exit: bool,
    pub clear_comment: bool,
    pub default_work_day: bool,
}

impl View for AttendanceSubmit {
    type V = SubmitView;

    open spec fn view(&self) -> SubmitView {
        SubmitView {
            date: self.date@,
            attendance_type_code: opt_text(self.attendance_type_code),
            entry_time: opt_text(self.entry_time),
            exit_time: opt_text(self.exit_time),
            comment: opt_text(self.comment),
            clear_entry: self.clear_entry,
            clear_exit: self.clear_exit,
            clear_comment: self.clear_comment,
            default_work_day: self.default_work_day,
        }
    }
}

impl AttendanceSubmit {
    /// A copy of the record.
    pub fn copy(&self) -> (copy: AttendanceSubmit)
        ensures
            copy@ == self@,
    {
        AttendanceSubmit {
            date: self.date,
            attendance_type_code: copy_opt(&self.attendance_type_code),
            entry_time: copy_opt(&self.entry_time),
            exit_time: copy_opt(&self.exit_time),
            comment: copy_opt(&self.comment),
            clear_entry: self.clear_entry,
            clear_exit: self.clear_exit,
            clear_comment: self.clear_comment,
            default_work_day: self.default_work_day,
        }
    }
}

/// A write as it is shown.
#[derive(Debug, Clone)]
pub struct SubmitPreview {
    pub url: String,
    pub button_name: String,
    pub button_value: String,
    pub employee_id: String,
    pub payload_display: String,
    pub executed: bool,
}

/// A write as it is shown, as mathematics.
pub struct ShownWrite {
    pub url: Seq<char>,
    pub button_name: Seq<char>,
    pub button_value: Seq<char>,
    pub employee_id: Seq<char>,
    pub payload_display: Seq<char>,
    pub executed: bool,
}

impl View for SubmitPreview {
    type V = ShownWrite;

    open spec fn view(&self) -> ShownWrite {
        ShownWrite {
            url: self.url@,
            button_name: self.button_name@,
            button_value: self.button_value@,
            employee_id: self.employee_id@,
            payload_display: self.payload_display@,
            executed: self.executed,
        }
    }
}

impl SubmitPreview {
    /// A copy of the record.
    pub fn copy(&self) -> (copy: SubmitPreview)
        ensures
            copy@ == self@,
    {
        SubmitPreview {
            url: self.url.clone(),
            button_name: self.button_name.clone(),
            button_value: self.button_value.clone(),
            employee_id: self.employee_id.clone(),
            payload_display: self.payload_display.clone(),
            executed: self.executed,
        }
    }
}

// ---------------------------------------------------------------------------
// Fields
// ---------------------------------------------------------------------------

/// The fields that a browser sends from the page.
pub open spec fn browser_fields(page: SubmitPage) -> Seq<Seq<char>> {
    match page {
        SubmitPage::Calendar => seq![
            "DisableTimeout"@,
            "H-XSRF-Token"@,
            "Time"@,
            "__EVENTARGUMENT"@,
            "__EVENTTARGET"@,
            "__LASTFOCUS"@,
            "__VIEWSTATE"@,
            "__VIEWSTATEGENERATOR"@,
            "__calendarSelectedDays"@,
            "ctl00$DummyAutoCompleteText"@,
            "ctl00$DummyAutoComplete_Value"@,
            "ctl00$mp$Strip$ACESearch_Value"@,
            "ctl00$mp$Strip$blSaveList"@,
            "ctl00$mp$Strip$hCurrentItemId"@,
            "ctl00$mp$Strip$hSelectedIds"@,
            "ctl00$mp$Strip$txtSearch"@,
            "ctl00$mp$currentMonth"@,
            "ctl00$mp$scriptBox"@,
            "ctl00$datePickerTmp$jdatePicker"@,
            "ctl00_datePickerTmp_State"@,
        ],
        SubmitPage::ErrorWizard => seq![
            "DisableTimeout"@,
            "H-XSRF-Token"@,
            "Time"@,
            "__EVENTARGUMENT"@,
            "__EVENTTARGET"@,
            "__VIEWSTATE"@,
            "__VIEWSTATEGENERATOR"@,
            "ctl00$DummyAutoCompleteText"@,
            "ctl00$DummyAutoComplete_Value"@,
            "ctl00$mp$ScriptBox"@,
            "ctl00$datePickerTmp$jdatePicker"@,
            "ctl00_datePickerTmp_State"@,
        ],
    }
}

/// The fields that a browser sends from the page.
pub fn browser_field_allowlist(page: SubmitPage) -> (list: Vec<&'static str>)
    ensures
        strs(list@) == browser_fields(page),
{
    let list: Vec<&'static str> = match page {
        SubmitPage::Calendar => vec![
            "DisableTimeout",
            "H-XSRF-Token",
            "Time",
            "__EVENTARGUMENT",
            "__EVENTTARGET",
            "__LASTFOCUS",
            "__VIEWSTATE",
            "__VIEWSTATEGENERATOR",
            "__calendarSelectedDays",
            "ctl00$DummyAutoCompleteText",
            "ctl00$DummyAutoComplete_Value",
            "ctl00$mp$Strip$ACESearch_Value",
            "ctl00$mp$Strip$blSaveList",
            "ctl00$mp$Strip$hCurrentItemId",
            "ctl00$mp$Strip$hSelectedIds",
            "ctl00$mp$Strip$txtSearch",
            "ctl00$mp$currentMonth",
            "ctl00$mp$scriptBox",
            "ctl00$datePickerTmp$jdatePicker",
            "ctl00_datePickerTmp_State",
        ],
        SubmitPage::ErrorWizard => vec![
            "DisableTimeout",
            "H-XSRF-Token",
            "Time",
            "__EVENTARGUMENT",
            "__EVENTTARGET",
            "__VIEWSTATE",
            "__VIEWSTATEGENERATOR",
            "ctl00$DummyAutoCompleteText",
            "ctl00$DummyAutoComplete_Value",
            "ctl00$mp$ScriptBox",
            "ctl00$datePickerTmp$jdatePicker",
            "ctl00_datePickerTmp_State",
        ],
    };
    assert(strs(list@) == browser_fields(page));
    list
}

/// Whether a field is sent: one that the browser sends, or one of the day,
/// whose name begins with the day's prefix.
pub open spec fn is_sent(page: SubmitPage, prefix: Option<Seq<char>>, key: Seq<char>) -> bool {
    browser_fields(page).contains(key) || (prefix matches Some(prefix) && starts_with(key, prefix))
}

/// The fields that are sent.
pub open spec fn sent_fields(
    fields: Map<Seq<char>, Seq<char>>,
    page: SubmitPage,
    prefix: Option<Seq<char>>,
) -> Map<Seq<char>, Seq<char>> {
    Map::new(
        |key: Seq<char>| fields.dom().contains(key) && is_sent(page, prefix, key),
        |key: Seq<char>| fields[key],
    )
}

fn lists(list: &Vec<&'static str>, key: &str) -> (found: bool)
    ensures
        found == strs(list@).contains(key@),
{
    let ghost all = strs(list@);
    let mut i: usize = 0;
    while i < list.len()
        invariant
            i <= list.len(),
            all == strs(list@),
            forall|j: int| 0 <= j < i ==> #[trigger] all[j] != key@,
        decreases list.len() - i,
    {
        if same(list[i], key) {
            assert(all[i as int] == key@);
            return true;
        }
        i = i + 1;
    }
    false
}

/// Leaves out the fields that a browser would not send.
pub fn retain_browser_fields(fields: &FormFields, page: SubmitPage, prefix: Option<&str>) -> (kept:
    FormFields)
    ensures
        kept@ == sent_fields(fields@, page, crate::text::opt_str(prefix)),
{
    proof {
        use_type_invariant(fields);
        fields.pairs_are_the_map();
    }
    let list = browser_field_allowlist(page);
    let ghost pairs = fields.pairs();
    let ghost goal = sent_fields(fields@, page, crate::text::opt_str(prefix));
    let mut kept = FormFields::new();
    let mut i: usize = 0;
    while i < fields.len()
        invariant
            i <= pairs.len(),
            pairs == fields.pairs(),
            strs(list@) == browser_fields(page),
            goal == sent_fields(fields@, page, crate::text::opt_str(prefix)),
            forall|j: int|
                0 <= j < pairs.len() ==> fields@.dom().contains(#[trigger] pairs[j].0)
                    && fields@[pairs[j].0] == pairs[j].1,
            forall|key: Seq<char>| #[trigger]
                kept@.dom().contains(key) ==> goal.dom().contains(key) && kept@[key] == goal[key],
            forall|j: int|
                0 <= j < i && is_sent(page, crate::text::opt_str(prefix), #[trigger] pairs[j].0)
                    ==> kept@.dom().contains(pairs[j].0),
        decreases pairs.len() - i,
    {
        let key = fields.key_at(i);
        let mut send = lists(&list, key.as_str());
        if !send {
            if let Some(prefix) = prefix {
                send = starts_with_text(key.as_str(), prefix);
            }
        }
        if send {
            let value = fields.value_at(i);
            assert(pairs[i as int].0 == key@);
            kept.insert(key.clone(), value.clone());
        }
        i = i + 1;
    }
    assert forall|key: Seq<char>| goal.dom().contains(key) implies #[trigger] kept@.dom().contains(
        key,
    ) by {
        assert(fields@.dom().contains(key));
        assert(has_key(pairs, key));
        let j = choose|j: int| 0 <= j < pairs.len() && (#[trigger] pairs[j]).0 == key;
        assert(is_sent(page, crate::text::opt_str(prefix), pairs[j].0));
    }
    assert(kept@ == goal);
    kept
}

/// No field is sent that a browser would not send or that is not of the day.
pub proof fn only_browser_fields_are_sent(
    fields: Map<Seq<char>, Seq<char>>,
    page: SubmitPage,
    prefix: Option<Seq<char>>,
    key: Seq<char>,
)
    ensures
        sent_fields(fields, page, prefix).dom().contains(key) ==> is_sent(page, prefix, key)
            && fields.dom().contains(key) && sent_fields(fields, page, prefix)[key] == fields[key],
{
}

/// The beginning of the names of a day's fields.
pub open spec fn field_prefix(employee_id: Seq<char>, date: CalendarDate) -> Seq<char> {
    "ctl00$mp$RG_Days_"@ + employee_id + "_"@ + signed_padded(date.year, 4) + "_"@ + padded(
        date.month as nat,
        2,
    )
}

/// The id of a day's grid in the page.
pub open spec fn grid_id(employee_id: Seq<char>, date: CalendarDate) -> Seq<char> {
    "ctl00_mp_RG_Days_"@ + employee_id + "_"@ + signed_padded(date.year, 4) + "_"@ + padded(
        date.month as nat,
        2,
    ) + "_reportsGrid"@
}

/// The beginning of the names of a day's fields.
pub fn day_field_prefix(employee_id: &str, date: NaiveDate) -> (prefix: String)
    ensures
        prefix@ == field_prefix(employee_id@, date@),
{
    let mut prefix = "ctl00$mp$RG_Days_".to_owned();
    prefix.append(employee_id);
    prefix.append("_");
    let year = signed_padded_text(date.year() as i64, 4);
    prefix.append(year.as_str());
    prefix.append("_");
    let month = padded_text(date.month() as u64, 2);
    prefix.append(month.as_str());
    prefix
}

/// The id of a day's grid in the page.
pub fn calendar_grid_dom_id(employee_id: &str, date: NaiveDate) -> (id: String)
    ensures
        id@ == grid_id(employee_id@, date@),
{
    let mut id = "ctl00_mp_RG_Days_".to_owned();
    id.append(employee_id);
    id.append("_");
    let year = signed_padded_text(date.year() as i64, 4);
    id.append(year.as_str());
    id.append("_");
    let month = padded_text(date.month() as u64, 2);
    id.append(month.as_str());
    id.append("_reportsGrid");
    id
}

fn suffixed(prefix: &str, suffix: &str) -> (text: String)
    ensures
        text@ == prefix@ + suffix@,
{
    let mut text = prefix.to_owned();
    text.append(suffix);
    text
}

// ---------------------------------------------------------------------------
// The form of a write
// ---------------------------------------------------------------------------

/// The marks of the fields that a write changes.
pub open spec fn dirty_marks(completion: bool) -> Seq<char> {
    "\"ManualEntry\":true,\"ManualExit\":true,\"Comment\":true,\"Symbol.SymbolId\":true"@ + if completion {
        ",\"CompletionToStandard\":true"@
    } else {
        ""@
    }
}

/// The record that tells the service which fields of the day a write changes.
pub open spec fn dirty_record(
    date: CalendarDate,
    employee: nat,
    object_id: Seq<char>,
    completion: bool,
) -> Seq<char> {
    "[{\"DirtyFields\":{"@ + dirty_marks(completion) + "},\"EmployeeId\":"@ + decimal(employee)
        + ",\"IsRangeObject\":false,\"ReportDate\":\""@ + signed_decimal(date.year) + "-"@ + decimal(
        date.month as nat,
    ) + "-"@ + decimal(date.day as nat)
        + "\",\"RequestRowName\":\"row_0_0\",\"ReportTypeName\":\"RG\",\"ObjectId\":\""@ + object_id
        + "\"}]"@
}

/// The record that tells the service which fields of the day a write changes.
/// The whole row is marked, even where values are blank.
pub fn build_dirty_fields_json(
    submit: &AttendanceSubmit,
    short_employee_id: u32,
    object_id: &str,
    completion_to_standard: bool,
) -> (text: String)
    ensures
        text@ == dirty_record(
            submit@.date,
            short_employee_id as nat,
            object_id@,
            completion_to_standard,
        ),
{
    let mut marks =
        "\"ManualEntry\":true,\"ManualExit\":true,\"Comment\":true,\"Symbol.SymbolId\":true".to_owned();
    if completion_to_standard {
        marks.append(",\"CompletionToStandard\":true");
    } else {
        marks.append("");
    }
    let mut text = "[{\"DirtyFields\":{".to_owned();
    text.append(marks.as_str());
    text.append("},\"EmployeeId\":");
    let employee = decimal_text(short_employee_id as u64);
    text.append(employee.as_str());
    text.append(",\"IsRangeObject\":false,\"ReportDate\":\"");
    let year = signed_text(submit.date.year() as i64);
    text.append(year.as_str());
    text.append("-");
    let month = decimal_text(submit.date.month() as u64);
    text.append(month.as_str());
    text.append("-");
    let day = decimal_text(submit.date.day() as u64);
    text.append(day.as_str());
    text.append("\",\"RequestRowName\":\"row_0_0\",\"ReportTypeName\":\"RG\",\"ObjectId\":\"");
    text.append(object_id);
    text.append("\"}]");
    text
}

/// The employee that a page's fields are about: the item that the page has
/// current, else the one who is signed in.
pub open spec fn page_employee(fields: Map<Seq<char>, Seq<char>>, user_id: Seq<char>) -> Seq<char> {
    if fields.dom().contains("ctl00$mp$Strip$hCurrentItemId"@)
        && fields["ctl00$mp$Strip$hCurrentItemId"@].len() > 0 {
        fields["ctl00$mp$Strip$hCurrentItemId"@]
    } else {
        user_id
    }
}

/// The employee that a page's fields are about.
pub fn employee_of_page(fields: &FormFields, user_id: &str) -> (employee_id: String)
    ensures
        employee_id@ == page_employee(fields@, user_id@),
{
    match fields.get("ctl00$mp$Strip$hCurrentItemId") {
        Some(id) => {
            if id.as_str().is_empty() {
                user_id.to_owned()
            } else {
                id.clone()
            }
        },
        None => user_id.to_owned(),
    }
}

/// The value of a field, or none.
pub open spec fn field_or_empty(fields: Map<Seq<char>, Seq<char>>, key: Seq<char>) -> Seq<char> {
    if fields.dom().contains(key) {
        fields[key]
    } else {
        ""@
    }
}

fn field_value(fields: &FormFields, key: &str) -> (value: String)
    ensures
        value@ == field_or_empty(fields@, key@),
{
    match fields.get(key) {
        Some(value) => value.clone(),
        None => "".to_owned(),
    }
}

/// The override of a field of the day: its new value, or nothing where it is
/// to be cleared.
pub open spec fn day_override(
    key: Seq<char>,
    value: Option<Seq<char>>,
    default: Option<Seq<char>>,
) -> Seq<(Seq<char>, Seq<char>)> {
    match crate::text::or_else(value, default) {
        Some(text) => seq![(key, text)],
        None => seq![],
    }
}

/// A text where a condition holds.
pub open spec fn text_if(condition: bool, text: Seq<char>) -> Option<Seq<char>> {
    if condition {
        Some(text)
    } else {
        None
    }
}

/// The name of the day's field of this kind.
pub open spec fn day_key(prefix: Seq<char>, kind: Seq<char>) -> Seq<char> {
    prefix + kind
}

/// Whether a write has neither an entry nor an exit time.
pub open spec fn without_times(submit: SubmitView) -> bool {
    submit.entry_time is None && submit.exit_time is None
}

/// The name of the script field of a page.
pub open spec fn script_box(page: SubmitPage) -> Seq<char> {
    match page {
        SubmitPage::Calendar => "ctl00$mp$scriptBox"@,
        SubmitPage::ErrorWizard => "ctl00$mp$ScriptBox"@,
    }
}

/// What a write is made from.
pub struct ReplayInput {
    pub url: Seq<char>,
    pub submit: SubmitView,
    pub object_id: Seq<char>,
    pub button_value: Seq<char>,
    pub fields: Map<Seq<char>, Seq<char>>,
    pub page: SubmitPage,
    pub user_id: Seq<char>,
    pub short_employee_id: nat,
}

/// The prefix of the day's fields in a write.
pub open spec fn replay_prefix(input: ReplayInput) -> Seq<char> {
    field_prefix(page_employee(input.fields, input.user_id), input.submit.date)
}

/// The fields of the page that a write sends: without the mark that completes
/// the day to the standard, only what a browser sends or what is of the day,
/// and on the calendar an empty search value.
pub open spec fn replay_fields(input: ReplayInput) -> Map<Seq<char>, Seq<char>> {
    let prefix = replay_prefix(input);
    let base = input.fields.remove(
        day_key(
            prefix,
            "$cellOf_CompletionToStandard_EmployeeReports_row_0_0$CompletionToStandard_EmployeeReports_row_0_0"@,
        ),
    );
    let sent = sent_fields(base, input.page, Some(prefix));
    match input.page {
        SubmitPage::Calendar => sent.insert("ctl00$mp$Strip$ACESearch_Value"@, ""@),
        SubmitPage::ErrorWizard => sent,
    }
}

/// The overrides of the day's own fields.
pub open spec fn day_overrides(prefix: Seq<char>, submit: SubmitView, page: SubmitPage) -> Seq<
    (Seq<char>, Seq<char>),
> {
    day_override(
        day_key(
            prefix,
            "$cellOf_ManualEntry_EmployeeReports_row_0_0$ManualEntry_EmployeeReports_row_0_0"@,
        ),
        submit.entry_time,
        text_if(submit.clear_entry, ""@),
    ) + day_override(
        day_key(
            prefix,
            "$cellOf_ManualExit_EmployeeReports_row_0_0$ManualExit_EmployeeReports_row_0_0"@,
        ),
        submit.exit_time,
        text_if(submit.clear_exit, ""@),
    ) + day_override(
        day_key(
            prefix,
            "$cellOf_Symbol.SymbolId_EmployeeReports_row_0_0$Symbol.SymbolId_EmployeeReports_row_0_0"@,
        ),
        submit.attendance_type_code,
        text_if(submit.default_work_day, "0"@),
    ) + day_override(
        day_key(
            prefix,
            "$cellOf_Comment_EmployeeReports_row_0_0$Comment_EmployeeReports_row_0_0"@,
        ),
        submit.comment,
        text_if(submit.clear_comment, ""@),
    ) + day_override(
        day_key(
            prefix,
            "$cellOf_CompletionToStandard_EmployeeReports_row_0_0$CompletionToStandard_EmployeeReports_row_0_0"@,
        ),
        text_if(page == SubmitPage::ErrorWizard && without_times(submit), "on"@),
        None,
    )
}

/// The overrides of the page's own fields, over the fields that are sent.
pub open spec fn page_overrides(sent: Map<Seq<char>, Seq<char>>, input: ReplayInput) -> Seq<
    (Seq<char>, Seq<char>),
> {
    let completion = input.page == SubmitPage::Calendar || without_times(input.submit);
    let employee = page_employee(input.fields, input.user_id);
    let common = Seq::<(Seq<char>, Seq<char>)>::empty().push(
        (script_box(input.page), field_or_empty(sent, script_box(input.page))),
    ).push(("H-XSRF-Token"@, field_or_empty(sent, "H-XSRF-Token"@))).push(
        (
            grid_id(employee, input.submit.date) + "_data"@,
            dirty_record(input.submit.date, input.short_employee_id, input.object_id, completion),
        ),
    ).push(
        (
            "ReportPageMode"@,
            match input.page {
                SubmitPage::Calendar => "2"@,
                SubmitPage::ErrorWizard => "Days"@,
            },
        ),
    ).push(("hiddenInputToUpdateATBuffer_CommonToolkitScripts"@, "1"@));
    let states = match input.page {
        SubmitPage::Calendar => common.push(("__NextBtnState"@, "false"@)).push(
            ("__PrevBtnState"@, "false"@),
        ),
        SubmitPage::ErrorWizard => common,
    };
    states.push((replay_prefix(input) + "$btnSave"@, input.button_value))
}

/// The overrides of a write.
pub open spec fn replay_overrides(input: ReplayInput) -> Seq<(Seq<char>, Seq<char>)> {
    day_overrides(replay_prefix(input), input.submit, input.page) + page_overrides(
        replay_fields(input),
        input,
    )
}

/// A write as it is shown.
pub open spec fn replay_shown(input: ReplayInput, executed: bool) -> ShownWrite {
    ShownWrite {
        url: input.url,
        button_name: replay_prefix(input) + "$btnSave"@,
        button_value: input.button_value,
        employee_id: page_employee(input.fields, input.user_id),
        payload_display: shown_form(replay_fields(input), replay_overrides(input)),
        executed,
    }
}

/// A write that is ready to be sent.
pub struct ReplayPlan {
    pub fields: FormFields,
    pub overrides: Vec<(String, String)>,
    pub preview: SubmitPreview,
}

fn push_override(
    overrides: &mut Vec<(String, String)>,
    prefix: &str,
    kind: &str,
    value: &Option<String>,
    default: Option<&str>,
)
    ensures
        pair_texts(final(overrides)@) == pair_texts(old(overrides)@) + day_override(
            day_key(prefix@, kind@),
            opt_text(*value),
            crate::text::opt_str(default),
        ),
{
    let ghost before = pair_texts(overrides@);
    let text: String = match value {
        Some(text) => text.clone(),
        None => match default {
            Some(text) => text.to_owned(),
            None => {
                assert(before + Seq::<(Seq<char>, Seq<char>)>::empty() == before);
                return ;
            },
        },
    };
    let key = suffixed(prefix, kind);
    overrides.push((key, text));
    assert(pair_texts(overrides@) == before + seq![(key@, text@)]);
}

fn push_pair(overrides: &mut Vec<(String, String)>, key: String, value: String)
    ensures
        pair_texts(final(overrides)@) == pair_texts(old(overrides)@).push((key@, value@)),
{
    let ghost before = pair_texts(overrides@);
    overrides.push((key, value));
    assert(pair_texts(overrides@) == before.push((key@, value@)));
}

fn push_day_overrides(
    overrides: &mut Vec<(String, String)>,
    prefix: &str,
    submit: &AttendanceSubmit,
    page: SubmitPage,
)
    requires
        old(overrides)@.len() == 0,
    ensures
        pair_texts(final(overrides)@) == day_overrides(prefix@, submit@, page),
{
    let ghost a = day_override(
        day_key(
            prefix@,
            "$cellOf_ManualEntry_EmployeeReports_row_0_0$ManualEntry_EmployeeReports_row_0_0"@,
        ),
        submit@.entry_time,
        text_if(submit@.clear_entry, ""@),
    );
    push_override(
        overrides,
        prefix,
        "$cellOf_ManualEntry_EmployeeReports_row_0_0$ManualEntry_EmployeeReports_row_0_0",
        &submit.entry_time,
        if submit.clear_entry {
            Some("")
        } else {
            None
        },
    );
    assert(pair_texts(overrides@) == a);
    push_override(
        overrides,
        prefix,
        "$cellOf_ManualExit_EmployeeReports_row_0_0$ManualExit_EmployeeReports_row_0_0",
        &submit.exit_time,
        if submit.clear_exit {
            Some("")
        } else {
            None
        },
    );
    push_override(
        overrides,
        prefix,
        "$cellOf_Symbol.SymbolId_EmployeeReports_row_0_0$Symbol.SymbolId_EmployeeReports_row_0_0",
        &submit.attendance_type_code,
        if submit.default_work_day {
            Some("0")
        } else {
            None
        },
    );
    push_override(
        overrides,
        prefix,
        "$cellOf_Comment_EmployeeReports_row_0_0$Comment_EmployeeReports_row_0_0",
        &submit.comment,
        if submit.clear_comment {
            Some("")
        } else {
            None
        },
    );
    let completion: Option<String> = if matches!(page, SubmitPage::ErrorWizard)
        && submit.entry_time.is_none() && submit.exit_time.is_none() {
        Some("on".to_owned())
    } else {
        None
    };
    push_override(
        overrides,
        prefix,
        "$cellOf_CompletionToStandard_EmployeeReports_row_0_0$CompletionToStandard_EmployeeReports_row_0_0",
        &completion,
        None,
    );
}

fn page_override_list(
    sent: &FormFields,
    submit: &AttendanceSubmit,
    object_id: &str,
    button_value: &str,
    page: SubmitPage,
    employee_id: &str,
    short_employee_id: u32,
    input: Ghost<ReplayInput>,
) -> (overrides: Vec<(String, String)>)
    requires
        input@.submit == submit@,
        input@.object_id == object_id@,
        input@.button_value == button_value@,
        input@.page == page,
        input@.short_employee_id == short_employee_id,
        page_employee(input@.fields, input@.user_id) == employee_id@,
    ensures
        pair_texts(overrides@) == page_overrides(sent@, input@),
{
    let mut overrides: Vec<(String, String)> = Vec::new();
    assert(pair_texts(overrides@) == Seq::<(Seq<char>, Seq<char>)>::empty());
    let script = match page {
        SubmitPage::Calendar => "ctl00$mp$scriptBox",
        SubmitPage::ErrorWizard => "ctl00$mp$ScriptBox",
    };
    let script_value = field_value(sent, script);
    push_pair(&mut overrides, script.to_owned(), script_value);
    let token = field_value(sent, "H-XSRF-Token");
    push_pair(&mut overrides, "H-XSRF-Token".to_owned(), token);
    let completion = matches!(page, SubmitPage::Calendar) || (submit.entry_time.is_none()
        && submit.exit_time.is_none());
    let record = build_dirty_fields_json(submit, short_employee_id, object_id, completion);
    let grid = calendar_grid_dom_id(employee_id, submit.date);
    let grid_key = suffixed(grid.as_str(), "_data");
    push_pair(&mut overrides, grid_key, record);
    let mode = match page {
        SubmitPage::Calendar => "2",
        SubmitPage::ErrorWizard => "Days",
    };
    push_pair(&mut overrides, "ReportPageMode".to_owned(), mode.to_owned());
    push_pair(
        &mut overrides,
        "hiddenInputToUpdateATBuffer_CommonToolkitScripts".to_owned(),
        "1".to_owned(),
    );
    if matches!(page, SubmitPage::Calendar) {
        push_pair(&mut overrides, "__NextBtnState".to_owned(), "false".to_owned());
        push_pair(&mut overrides, "__PrevBtnState".to_owned(), "false".to_owned());
    }
    let prefix = day_field_prefix(employee_id, submit.date);
    let button_name = suffixed(prefix.as_str(), "$btnSave");
    push_pair(&mut overrides, button_name, button_value.to_owned());
    overrides
}

/// Makes the write of a day from the fields of the page: what is sent, what is
/// put over it, and how it is shown.
pub fn plan_replay(
    url: &str,
    submit: &AttendanceSubmit,
    object_id: &str,
    button_value: &str,
    executed: bool,
    base_fields: &FormFields,
    page: SubmitPage,
    user_id: &str,
    short_employee_id: u32,
) -> (plan: ReplayPlan)
    ensures
        ({
            let input = ReplayInput {
                url: url@,
                submit: submit@,
                object_id: object_id@,
                button_value: button_value@,
                fields: base_fields@,
                page,
                user_id: user_id@,
                short_employee_id: short_employee_id as nat,
            };
            &&& plan.fields@ == replay_fields(input)
            &&& pair_texts(plan.overrides@) == replay_overrides(input)
            &&& plan.preview@ == replay_shown(input, executed)
        }),
{
    let ghost input = ReplayInput {
        url: url@,
        submit: submit@,
        object_id: object_id@,
        button_value: button_value@,
        fields: base_fields@,
        page,
        user_id: user_id@,
        short_employee_id: short_employee_id as nat,
    };
    let employee_id = employee_of_page(base_fields, user_id);
    let prefix = day_field_prefix(employee_id.as_str(), submit.date);
    let completion_key = suffixed(
        prefix.as_str(),
        "$cellOf_CompletionToStandard_EmployeeReports_row_0_0$CompletionToStandard_EmployeeReports_row_0_0",
    );
    let mut base = base_fields.copy();
    base.remove(completion_key.as_str());
    let mut fields = retain_browser_fields(&base, page, Some(prefix.as_str()));
    if matches!(page, SubmitPage::Calendar) {
        fields.insert("ctl00$mp$Strip$ACESearch_Value".to_owned(), "".to_owned());
    }
    let mut overrides: Vec<(String, String)> = Vec::new();
    push_day_overrides(&mut overrides, prefix.as_str(), submit, page);
    let mut rest = page_override_list(
        &fields,
        submit,
        object_id,
        button_value,
        page,
        employee_id.as_str(),
        short_employee_id,
        Ghost(input),
    );
    let ghost day = pair_texts(overrides@);
    let ghost own = pair_texts(rest@);
    overrides.append(&mut rest);
    assert(pair_texts(overrides@) == day + own);
    let payload_display = format_form_fields_for_display(&fields, &overrides);
    let button_name = suffixed(prefix.as_str(), "$btnSave");
    let preview = SubmitPreview {
        url: url.to_owned(),
        button_name,
        button_value: button_value.to_owned(),
        employee_id,
        payload_display,
        executed,
    };
    ReplayPlan { fields, overrides, preview }
}

// ---------------------------------------------------------------------------
// The answer to a write
// ---------------------------------------------------------------------------

/// What stands between a prefix and the next `')` behind it.
pub open spec fn quoted_after(text: Seq<char>, prefix: Seq<char>) -> Option<Seq<char>> {
    match index_from(text, prefix, 0) {
        Some(at) => match index_from(text, "')"@, at + prefix.len()) {
            Some(end) => Some(text.subrange(at + prefix.len() as int, end)),
            None => None,
        },
        None => None,
    }
}

/// The message that a script shows.
pub open spec fn script_message(text: Seq<char>) -> Option<Seq<char>> {
    crate::text::or_else(
        quoted_after(text, "alert('"@),
        crate::text::or_else(quoted_after(text, "HWarning('"@), quoted_after(text, "HError('"@)),
    )
}

/// The message of the first script among some records.
pub open spec fn records_message(entries: Seq<EntryView>) -> Option<Seq<char>>
    decreases entries.len(),
{
    if entries.len() == 0 {
        None
    } else if (entries[0].kind == "scriptStartupBlock"@ || entries[0].kind == "scriptBlock"@)
        && script_message(entries[0].content) is Some {
        script_message(entries[0].content)
    } else {
        records_message(entries.skip(1))
    }
}

/// The message with which an answer refuses a write.
pub open spec fn refusal(response: Seq<char>) -> Option<Seq<char>> {
    crate::text::or_else(
        records_message(delta_records(response)),
        script_message(response),
    )
}

fn find_quoted(text: &Vec<char>, prefix: &str) -> (found: Option<String>)
    ensures
        opt_text(found) == quoted_after(text@, prefix@),
{
    let prefix = chars_of(prefix);
    let close = chars_of("')");
    let at: usize = match find_from(text, &prefix, 0) {
        Some(at) => at,
        None => {
            return None;
        },
    };
    let start: usize = at + prefix.len();
    match find_from(text, &close, start) {
        Some(end) => Some(slice_text(text, start, end)),
        None => None,
    }
}

/// The message that a script shows.
pub fn extract_js_message(text: &str) -> (message: Option<String>)
    ensures
        opt_text(message) == script_message(text@),
{
    let chars = chars_of(text);
    let found = find_quoted(&chars, "alert('");
    if found.is_some() {
        return found;
    }
    let found = find_quoted(&chars, "HWarning('");
    if found.is_some() {
        return found;
    }
    find_quoted(&chars, "HError('")
}

/// The message with which the service refuses a write, where it does.
pub fn extract_submit_error_message(response: &str) -> (message: Option<String>)
    ensures
        opt_text(message) == refusal(response@),
{
    let entries = parse_aspx_delta(response);
    let ghost all = entries@;
    let mut i: usize = 0;
    assert(all.skip(0) == all);
    while i < entries.entries.len()
        invariant
            i <= entries.entries.len(),
            all == entries@,
            all == delta_records(response@),
            records_message(all.skip(i as int)) == records_message(all),
        decreases entries.entries.len() - i,
    {
        assert(all.skip(i as int).skip(1) == all.skip(i + 1));
        assert(all.skip(i as int)[0] == entries.entries@[i as int]@);
        let entry = &entries.entries[i];
        if same(entry.kind.as_str(), "scriptStartupBlock") || same(
            entry.kind.as_str(),
            "scriptBlock",
        ) {
            let message = extract_js_message(entry.content.as_str());
            if message.is_some() {
                return message;
            }
        }
        i = i + 1;
    }
    assert(all.skip(all.len() as int).len() == 0);
    extract_js_message(response)
}

/// Whether an answer is a whole page.
pub open spec fn whole_page(response: Seq<char>) -> bool {
    contains(response, "<html"@) || contains(response, "<!DOCTYPE"@)
}

/// Whether an answer is a whole page.
pub fn is_whole_page(response: &str) -> (answer: bool)
    ensures
        answer == whole_page(response@),
{
    contains_text(response, "<html") || contains_text(response, "<!DOCTYPE")
}

/// A piece of a page, put into a form of its own.
pub open spec fn wrapped(fragment: Seq<char>) -> Seq<char> {
    "<html><body><form id=\"aspnetForm\">"@ + fragment + "</form></body></html>"@
}

/// Some fields with all of another map's fields put over them.
pub open spec fn updated(
    fields: Map<Seq<char>, Seq<char>>,
    news: Map<Seq<char>, Seq<char>>,
) -> Map<Seq<char>, Seq<char>> {
    fields.union_prefer_right(news)
}

/// Some fields with the hidden fields of some records put over them.
pub open spec fn with_hidden(
    fields: Map<Seq<char>, Seq<char>>,
    entries: Seq<EntryView>,
) -> Map<Seq<char>, Seq<char>>
    decreases entries.len(),
{
    if entries.len() == 0 {
        fields
    } else {
        let before = with_hidden(fields, entries.drop_last());
        if entries.last().kind == "hiddenField"@ {
            before.insert(entries.last().id, entries.last().content)
        } else {
            before
        }
    }
}

/// Some fields with the fields of the panels of some records put over them.
pub open spec fn with_panels(
    fields: Map<Seq<char>, Seq<char>>,
    entries: Seq<EntryView>,
) -> Map<Seq<char>, Seq<char>>
    decreases entries.len(),
{
    if entries.len() == 0 {
        fields
    } else {
        let before = with_panels(fields, entries.drop_last());
        if entries.last().kind == "updatePanel"@ {
            updated(before, page_fields(page_of(wrapped(entries.last().content))))
        } else {
            before
        }
    }
}

/// The fields of a page after a partial answer: the hidden fields of the
/// answer, then the fields in its panels.
pub open spec fn merged_fields(
    fields: Map<Seq<char>, Seq<char>>,
    entries: Seq<EntryView>,
) -> Map<Seq<char>, Seq<char>> {
    with_panels(with_hidden(fields, entries), entries)
}

/// The fields after an answer, whether it is a whole page or a partial one.
pub open spec fn fields_after(fields: Map<Seq<char>, Seq<char>>, response: Seq<char>) -> Map<
    Seq<char>,
    Seq<char>,
> {
    if whole_page(response) {
        page_fields(page_of(response))
    } else {
        merged_fields(fields, delta_records(response))
    }
}

/// The fields of a piece of a page.
pub fn parse_aspx_fragment_fields(fragment: &str) -> (fields: FormFields)
    ensures
        fields@ == page_fields(page_of(wrapped(fragment@))),
{
    let mut page = "<html><body><form id=\"aspnetForm\">".to_owned();
    page.append(fragment);
    page.append("</form></body></html>");
    parse_aspx_form_fields(page.as_str())
}

fn put_all(fields: &mut FormFields, news: &FormFields)
    ensures
        final(fields)@ == updated(old(fields)@, news@),
{
    proof {
        use_type_invariant(news);
        news.pairs_are_the_map();
    }
    let ghost start = fields@;
    let ghost pairs = news.pairs();
    let mut i: usize = 0;
    while i < news.len()
        invariant
            i <= pairs.len(),
            pairs == news.pairs(),
            forall|j: int|
                0 <= j < pairs.len() ==> news@.dom().contains(#[trigger] pairs[j].0)
                    && news@[pairs[j].0] == pairs[j].1,
            forall|key: Seq<char>| #[trigger]
                fields@.dom().contains(key) ==> start.dom().contains(key) || news@.dom().contains(
                    key,
                ),
            forall|key: Seq<char>| #[trigger]
                start.dom().contains(key) ==> fields@.dom().contains(key),
            forall|j: int|
                0 <= j < i ==> fields@.dom().contains(#[trigger] pairs[j].0)
                    && fields@[pairs[j].0] == news@[pairs[j].0],
            forall|key: Seq<char>|
                start.dom().contains(key) && !news@.dom().contains(key) ==> #[trigger] fields@[key]
                    == start[key],
        decreases pairs.len() - i,
    {
        let key = news.key_at(i);
        let value = news.value_at(i);
        assert(pairs[i as int].0 == key@);
        fields.insert(key.clone(), value.clone());
        i = i + 1;
    }
    let ghost goal = updated(start, news@);
    assert forall|key: Seq<char>| #[trigger] news@.dom().contains(key) implies fields@.dom().contains(
        key,
    ) && fields@[key] == news@[key] by {
        assert(has_key(pairs, key));
        let j = choose|j: int| 0 <= j < pairs.len() && (#[trigger] pairs[j]).0 == key;
        assert(fields@.dom().contains(pairs[j].0));
    }
    assert(fields@.dom() =~= goal.dom());
    assert forall|key: Seq<char>| #[trigger] fields@.dom().contains(key) implies fields@[key]
        == goal[key] by {
        if !news@.dom().contains(key) {
            assert(start.dom().contains(key));
        }
    }
    assert(fields@ =~= goal);
}

/// The fields of a page after a partial answer: the hidden fields of the
/// answer, then the fields in its panels.
pub fn merge_delta_fields(base_fields: &FormFields, entries: &DeltaEntries) -> (fields: FormFields)
    ensures
        fields@ == merged_fields(base_fields@, entries@),
{
    let ghost all = entries@;
    let mut fields = base_fields.copy();
    let mut i: usize = 0;
    while i < entries.entries.len()
        invariant
            i <= entries.entries.len(),
            all == entries@,
            fields@ == with_hidden(base_fields@, all.take(i as int)),
        decreases entries.entries.len() - i,
    {
        assert(all.take(i + 1).drop_last() == all.take(i as int));
        assert(all.take(i + 1).last() == entries.entries@[i as int]@);
        let entry = &entries.entries[i];
        if same(entry.kind.as_str(), "hiddenField") {
            fields.insert(entry.id.clone(), entry.content.clone());
        }
        i = i + 1;
    }
    assert(all.take(all.len() as int) == all);
    let ghost hidden = fields@;
    let mut k: usize = 0;
    while k < entries.entries.len()
        invariant
            k <= entries.entries.len(),
            all == entries@,
            fields@ == with_panels(hidden, all.take(k as int)),
        decreases entries.entries.len() - k,
    {
        assert(all.take(k + 1).drop_last() == all.take(k as int));
        assert(all.take(k + 1).last() == entries.entries@[k as int]@);
        let entry = &entries.entries[k];
        if same(entry.kind.as_str(), "updatePanel") {
            let news = parse_aspx_fragment_fields(entry.content.as_str());
            put_all(&mut fields, &news);
        }
        k = k + 1;
    }
    fields
}

/// The fields after an answer, whether it is a whole page or a partial one.
pub fn fields_after_response(fields: &FormFields, response: &str) -> (after: FormFields)
    ensures
        after@ == fields_after(fields@, response@),
{
    if is_whole_page(response) {
        parse_aspx_form_fields(response)
    } else {
        let entries = parse_aspx_delta(response);
        merge_delta_fields(fields, &entries)
    }
}

/// What the answer to a write means: done, or refused with these words.
pub open spec fn submit_outcome(response: Seq<char>) -> Option<Seq<char>> {
    match refusal(response) {
        Some(message) => Some("Hilan rejected attendance submit: "@ + message),
        None => None,
    }
}

/// What the answer to a write means: done, or refused with these words.
pub fn check_submit_response(response: &str) -> (error: Option<String>)
    ensures
        opt_text(error) == submit_outcome(response@),
{
    match extract_submit_error_message(response) {
        Some(message) => {
            let mut error = "Hilan rejected attendance submit: ".to_owned();
            error.append(message.as_str());
            Some(error)
        },
        None => None,
    }
}

} // verus!
