//! The Hilan service as a provider of attendance: what a change is written
//! as, how an error day is fixed, and what is shown of it.

use crate::date::{dated, iso_text, slashed_text, CalendarDate, NaiveDate};
use crate::existing::{
    delete_answered, delete_shown, deletion_outcome, find_conflict, first_conflict,
    has_kind, has_matching_report, plan_delete, CalendarExistingReport, CalendarSubmitContext,
    ContextView, DeletePlan, ReportView,
};
use crate::fields::{sorted_pairs, FormFields};
use crate::flows::{
    apply_label, context_view, delete_label, deletes, identity_view, render_step_list, save_error, saves, step_list, step_views, SubmitFlow,
};
use crate::hr_core::{
    plain_error, AttendanceChange, ChangeView, ErrorView, FixTarget, PreviewView, ProviderError,
    TargetView, WriteMode, WritePreview,
};
use crate::json::{Json, JsonValue, ObjectBuilder};
use crate::submit::{
    check_submit_response, plan_replay, replay_shown, AttendanceSubmit, ReplayInput, ReplayPlan,
    ShownWrite, SubmitPage, SubmitPreview, SubmitView,
};
use crate::text::{copy_opt, reply_view, same, split_once, split_once_at};
use vstd::prelude::*;

verus! {

/// The kind of error of a day without a report.
pub const MISSING_REPORT_ERROR_TYPE: &'static str = "63";

/// The kind of attendance of work from home.
pub const WORK_FROM_HOME_TYPE_CODE: &'static str = "120";

/// The kind of attendance of a plain work day.
pub const WORK_DAY_TYPE_CODE: &'static str = "0";

/// How an error day is fixed.
#[derive(Debug, Clone, Copy, PartialEq, Eq, Structural)]
pub enum FixStrategy {
    ErrorWizardOnly,
    ErrorWizardThenCalendar,
}

/// What a change is written as.
pub open spec fn submit_of(change: ChangeView) -> SubmitView {
    SubmitView {
        date: change.date,
        attendance_type_code: change.attendance_type_code,
        entry_time: change.entry_time,
        exit_time: change.exit_time,
        comment: change.comment,
        clear_entry: change.clear_entry,
        clear_exit: change.clear_exit,
        clear_comment: change.clear_comment,
        default_work_day: change.use_default_attendance_type,
    }
}

/// The change that a write stands for.
pub open spec fn change_of(submit: SubmitView) -> ChangeView {
    ChangeView {
        date: submit.date,
        attendance_type_code: submit.attendance_type_code,
        use_default_attendance_type: submit.default_work_day,
        entry_time: submit.entry_time,
        exit_time: submit.exit_time,
        comment: submit.comment,
        clear_entry: submit.clear_entry,
        clear_exit: submit.clear_exit,
        clear_comment: submit.clear_comment,
    }
}

/// Changes and writes stand for each other, and nothing is lost between them.
pub proof fn changes_and_writes_match(change: ChangeView, submit: SubmitView)
    ensures
        change_of(submit_of(change)) == change,
        submit_of(change_of(submit)) == submit,
{
}

/// What a change is written as.
pub fn change_to_submit(change: &AttendanceChange) -> (submit: AttendanceSubmit)
    ensures
        submit@ == submit_of(change@),
{
    AttendanceSubmit {
        date: change.date,
        attendance_type_code: copy_opt(&change.attendance_type_code),
        entry_time: copy_opt(&change.entry_time),
        exit_time: copy_opt(&change.exit_time),
        comment: copy_opt(&change.comment),
        clear_entry: change.clear_entry,
        clear_exit: change.clear_exit,
        clear_comment: change.clear_comment,
        default_work_day: change.use_default_attendance_type,
    }
}

/// The change that a write stands for.
pub fn submit_to_change(submit: AttendanceSubmit) -> (change: AttendanceChange)
    ensures
        change@ == change_of(submit@),
{
    AttendanceChange {
        date: submit.date,
        attendance_type_code: submit.attendance_type_code,
        use_default_attendance_type: submit.default_work_day,
        entry_time: submit.entry_time,
        exit_time: submit.exit_time,
        comment: submit.comment,
        clear_entry: submit.clear_entry,
        clear_exit: submit.clear_exit,
        clear_comment: submit.clear_comment,
    }
}

// ---------------------------------------------------------------------------
// Fix targets
// ---------------------------------------------------------------------------

/// The fields of a map as a JSON object.
pub open spec fn json_of_fields(fields: Map<Seq<char>, Seq<char>>) -> Json {
    Json::Object(
        sorted_pairs(fields).map_values(
            |pair: (Seq<char>, Seq<char>)| (pair.0, Json::Text(pair.1)),
        ),
    )
}

/// The report id and the error type of a target: from its data, else from its
/// reference, `id:type`.
pub open spec fn target_params(target: TargetView) -> Option<(Seq<char>, Seq<char>)> {
    if target.metadata.dom().contains("report_id"@) && target.metadata.dom().contains(
        "error_type"@,
    ) {
        Some((target.metadata["report_id"@], target.metadata["error_type"@]))
    } else {
        split_once(target.provider_ref, ':')
    }
}

/// The error for a target without them.
pub open spec fn no_params_error(target: TargetView) -> ErrorView {
    ErrorView {
        code: "invalid_fix_target"@,
        message: "fix target for "@ + iso_text(target.date) + " is missing Hilan error parameters"@,
        retryable: false,
        details: Some(
            Json::Object(
                seq![
                    ("provider_ref"@, Json::Text(target.provider_ref)),
                    ("metadata"@, json_of_fields(target.metadata)),
                ],
            ),
        ),
    }
}

fn json_from_fields(fields: &FormFields) -> (value: JsonValue)
    ensures
        value.model() == json_of_fields(fields@),
{
    proof {
        use_type_invariant(fields);
        fields.pairs_are_sorted();
    }
    let ghost pairs = fields.pairs();
    let ghost goal = json_of_fields(fields@)->Object_0;
    let mut object = ObjectBuilder::new();
    let mut i: usize = 0;
    while i < fields.len()
        invariant
            i <= pairs.len(),
            pairs == fields.pairs(),
            pairs == sorted_pairs(fields@),
            goal == json_of_fields(fields@)->Object_0,
            goal.len() == pairs.len(),
            object@ == goal.take(i as int),
        decreases pairs.len() - i,
    {
        let ghost before = object@;
        object.put_text(fields.key_at(i).as_str(), fields.value_at(i).as_str());
        assert(goal[i as int] == (pairs[i as int].0, Json::Text(pairs[i as int].1)));
        i = i + 1;
        assert(object@ == goal.take(i as int));
    }
    assert(goal.take(goal.len() as int) == goal);
    object.build()
}

/// The report id and the error type of a target.
pub fn fix_params(target: &FixTarget) -> (params: Result<(String, String), ProviderError>)
    ensures
        match params {
            Ok(params) => target_params(target@) == Some((params.0@, params.1@)),
            Err(error) => target_params(target@) is None && error@ == no_params_error(target@),
        },
{
    if let (Some(report_id), Some(error_type)) = (
        target.metadata.get("report_id"),
        target.metadata.get("error_type"),
    ) {
        return Ok((report_id.clone(), error_type.clone()));
    }
    match split_once_at(target.provider_ref.as_str(), ':') {
        Some(params) => Ok(params),
        None => {
            let mut message = "fix target for ".to_owned();
            let iso = target.date.iso();
            message.append(iso.as_str());
            message.append(" is missing Hilan error parameters");
            let mut details = ObjectBuilder::new();
            details.put_text("provider_ref", target.provider_ref.as_str());
            details.put("metadata", json_from_fields(&target.metadata));
            assert(details@ == seq![
                ("provider_ref"@, Json::Text(target@.provider_ref)),
                ("metadata"@, json_of_fields(target@.metadata)),
            ]);
            let error = ProviderError::new("invalid_fix_target", message.as_str());
            Err(error.with_details(details.build()))
        },
    }
}

/// How an error day is fixed: a missing report that is to become work from
/// home takes the error wizard and then the calendar, all else the wizard
/// alone.
pub open spec fn strategy_for(error_type: Seq<char>, submit: SubmitView) -> FixStrategy {
    if error_type == MISSING_REPORT_ERROR_TYPE@ && submit.attendance_type_code == Some(
        WORK_FROM_HOME_TYPE_CODE@,
    ) {
        FixStrategy::ErrorWizardThenCalendar
    } else {
        FixStrategy::ErrorWizardOnly
    }
}

/// How an error day is fixed.
pub fn fix_strategy(error_type: &str, submit: &AttendanceSubmit) -> (strategy: FixStrategy)
    ensures
        strategy == strategy_for(error_type@, submit@),
{
    let from_home = match &submit.attendance_type_code {
        Some(code) => same(code.as_str(), WORK_FROM_HOME_TYPE_CODE),
        None => false,
    };
    if same(error_type, MISSING_REPORT_ERROR_TYPE) && from_home {
        FixStrategy::ErrorWizardThenCalendar
    } else {
        FixStrategy::ErrorWizardOnly
    }
}

/// The write that clears an error: the same day as a plain work day.
pub open spec fn clearing_submit(submit: SubmitView) -> SubmitView {
    SubmitView {
        attendance_type_code: Some(WORK_DAY_TYPE_CODE@),
        default_work_day: false,
        ..submit
    }
}

/// The write that clears an error.
pub fn error_clear_submit(submit: &AttendanceSubmit) -> (clear: AttendanceSubmit)
    ensures
        clear@ == clearing_submit(submit@),
{
    let mut clear = submit.copy();
    clear.attendance_type_code = Some(WORK_DAY_TYPE_CODE.to_owned());
    clear.default_work_day = false;
    clear
}

// ---------------------------------------------------------------------------
// What is shown
// ---------------------------------------------------------------------------

/// What is said of a write in one line.
pub open spec fn write_summary(executed: bool, action: Seq<char>, date: CalendarDate) -> Seq<char> {
    if executed {
        action + " "@ + iso_text(date)
    } else {
        "dry run: "@ + action + " "@ + iso_text(date)
    }
}

/// The data of a write, with this payload.
pub open spec fn write_members(write: ShownWrite, payload: Seq<char>) -> Seq<(Seq<char>, Json)> {
    seq![
        ("url"@, Json::Text(write.url)),
        ("button_name"@, Json::Text(write.button_name)),
        ("button_value"@, Json::Text(write.button_value)),
        ("employee_id"@, Json::Text(write.employee_id)),
        ("payload_display"@, Json::Text(payload)),
    ]
}

/// What is shown of a single write.
pub open spec fn single_preview(write: ShownWrite, action: Seq<char>, date: CalendarDate) -> PreviewView {
    PreviewView {
        executed: write.executed,
        summary: write_summary(write.executed, action, date),
        provider_debug: Some(Json::Object(write_members(write, write.payload_display))),
    }
}

/// The data of a step.
pub open spec fn step_json(step: (Seq<char>, ShownWrite)) -> Json {
    Json::Object(
        seq![("label"@, Json::Text(step.0))] + write_members(step.1, step.1.payload_display),
    )
}

/// What is shown of a write in several steps.
pub open spec fn steps_preview(
    steps: Seq<(Seq<char>, ShownWrite)>,
    action: Seq<char>,
    date: CalendarDate,
) -> PreviewView {
    let last = steps.last().1;
    PreviewView {
        executed: last.executed,
        summary: write_summary(last.executed, action, date),
        provider_debug: Some(
            Json::Object(
                write_members(last, step_list(steps)).push(
                    (
                        "steps"@,
                        Json::Array(
                            steps.map_values(|step: (Seq<char>, ShownWrite)| step_json(step)),
                        ),
                    ),
                ),
            ),
        ),
    }
}

fn summary_text(executed: bool, action: &str, date: NaiveDate) -> (text: String)
    ensures
        text@ == write_summary(executed, action@, date@),
{
    let iso = date.iso();
    if executed {
        let mut text = action.to_owned();
        text.append(" ");
        text.append(iso.as_str());
        text
    } else {
        let mut text = "dry run: ".to_owned();
        text.append(action);
        text.append(" ");
        text.append(iso.as_str());
        text
    }
}

fn put_write(object: &mut ObjectBuilder, write: &SubmitPreview, payload: &str)
    ensures
        final(object)@ == old(object)@ + write_members(write@, payload@),
{
    let ghost before = object@;
    object.put_text("url", write.url.as_str());
    object.put_text("button_name", write.button_name.as_str());
    object.put_text("button_value", write.button_value.as_str());
    object.put_text("employee_id", write.employee_id.as_str());
    object.put_text("payload_display", payload);
    assert(object@ == before + write_members(write@, payload@));
}

/// What is shown of a single write.
pub fn preview_with_summary(preview: SubmitPreview, action: &str, date: NaiveDate) -> (shown:
    WritePreview)
    ensures
        shown@ == single_preview(preview@, action@, date@),
{
    let mut object = ObjectBuilder::new();
    put_write(&mut object, &preview, preview.payload_display.as_str());
    assert(object@ == write_members(preview@, preview@.payload_display));
    WritePreview {
        executed: preview.executed,
        summary: summary_text(preview.executed, action, date),
        provider_debug: Some(object.build()),
    }
}

/// What is shown of a write in several steps.
pub fn preview_with_steps(steps: &Vec<(String, SubmitPreview)>, action: &str, date: NaiveDate) -> (
    shown: WritePreview)
    requires
        steps.len() > 0,
    ensures
        shown@ == steps_preview(step_views(steps@), action@, date@),
{
    let ghost all = step_views(steps@);
    let last: usize = steps.len() - 1;
    assert(all.last() == (steps@[last as int].0@, steps@[last as int].1@));
    let payload = render_step_list(steps);
    let mut items: Vec<JsonValue> = Vec::new();
    let mut i: usize = 0;
    while i < steps.len()
        invariant
            i <= steps.len(),
            all == step_views(steps@),
            items.len() == i,
            forall|j: int| 0 <= j < i ==> (#[trigger] items@[j]).model() == step_json(all[j]),
        decreases steps.len() - i,
    {
        let mut object = ObjectBuilder::new();
        object.put_text("label", steps[i].0.as_str());
        assert(object@ == seq![("label"@, Json::Text(steps@[i as int].0@))]);
        put_write(&mut object, &steps[i].1, steps[i].1.payload_display.as_str());
        let item = object.build();
        assert(item.model() == step_json(all[i as int]));
        items.push(item);
        i = i + 1;
    }
    let array = JsonValue::array(items);
    assert(crate::json::value_models(items@) == all.map_values(
        |step: (Seq<char>, ShownWrite)| step_json(step),
    ));
    let mut object = ObjectBuilder::new();
    put_write(&mut object, &steps[last].1, payload.as_str());
    assert(object@ == write_members(all.last().1, payload@));
    object.put("steps", array);
    let executed = steps[last].1.executed;
    WritePreview {
        executed,
        summary: summary_text(executed, action, date),
        provider_debug: Some(object.build()),
    }
}

// ---------------------------------------------------------------------------
// Fixing an error day
// ---------------------------------------------------------------------------

/// The address of the error wizard for a day.
pub open spec fn wizard_url(
    base_url: Seq<char>,
    date: CalendarDate,
    report_id: Seq<char>,
    error_type: Seq<char>,
) -> Seq<char> {
    base_url + "/Hilannetv2/EmployeeErrorHandling.aspx?date="@ + slashed_text(date) + "&reportId="@
        + report_id + "&errorType="@ + error_type + "&HideStrip=1&HideEmployeeStrip=1"@
}

/// The address of the error wizard for a day.
pub fn error_wizard_url(base_url: &str, date: NaiveDate, report_id: &str, error_type: &str) -> (url:
    String)
    ensures
        url@ == wizard_url(base_url@, date@, report_id@, error_type@),
{
    let mut url = base_url.to_owned();
    url.append("/Hilannetv2/EmployeeErrorHandling.aspx?date=");
    let day = date.slashed();
    url.append(day.as_str());
    url.append("&reportId=");
    url.append(report_id);
    url.append("&errorType=");
    url.append(error_type);
    url.append("&HideStrip=1&HideEmployeeStrip=1");
    url
}

/// What a fix begins with.
pub struct FixSetup {
    pub base_url: String,
    pub submit: AttendanceSubmit,
    pub report_id: String,
    pub error_type: String,
    pub execute: bool,
}

/// What a fix begins with, as mathematics.
pub struct SetupView {
    pub base_url: Seq<char>,
    pub submit: SubmitView,
    pub report_id: Seq<char>,
    pub error_type: Seq<char>,
    pub execute: bool,
}

impl View for FixSetup {
    type V = SetupView;

    open spec fn view(&self) -> SetupView {
        SetupView {
            base_url: self.base_url@,
            submit: self.submit@,
            report_id: self.report_id@,
            error_type: self.error_type@,
            execute: self.execute,
        }
    }
}

/// Whether a fix goes on to the calendar after the error wizard.
pub open spec fn two_steps(setup: SetupView) -> bool {
    strategy_for(setup.error_type, setup.submit) == FixStrategy::ErrorWizardThenCalendar
}

/// The write in the error wizard.
pub open spec fn wizard_submit(setup: SetupView) -> SubmitView {
    if two_steps(setup) {
        clearing_submit(setup.submit)
    } else {
        setup.submit
    }
}

/// The write in the error wizard, over the wizard's fields.
pub open spec fn wizard_write(
    setup: SetupView,
    fields: Map<Seq<char>, Seq<char>>,
    user_id: Seq<char>,
    short_employee_id: nat,
) -> ReplayInput {
    ReplayInput {
        url: wizard_url(setup.base_url, setup.submit.date, setup.report_id, setup.error_type),
        submit: wizard_submit(setup),
        object_id: setup.report_id,
        button_value: "שמור וסגור"@,
        fields,
        page: SubmitPage::ErrorWizard,
        user_id,
        short_employee_id,
    }
}

/// Where a fix stands.
pub enum FixStage {
    /// The wizard's form is to be loaded.
    Loading,
    /// It is to be found out who is signed in.
    Identifying(FormFields),
    /// The wizard's form is to be sent.
    Saving { fields: FormFields, user_id: String, short_employee_id: u32 },
    /// The error is cleared: the calendar is to be loaded.
    Opening,
    /// What is in the way on the calendar is being deleted.
    Clearing(CalendarSubmitContext),
    /// The day is being written on the calendar.
    Writing(SubmitFlow),
    /// Done.
    Finished(Result<WritePreview, ProviderError>),
}

/// Where a fix stands, as mathematics.
pub enum FixStageView {
    Loading,
    Identifying(Map<Seq<char>, Seq<char>>),
    Saving { fields: Map<Seq<char>, Seq<char>>, user_id: Seq<char>, short_employee_id: nat },
    Opening,
    Clearing(ContextView),
    Writing(crate::flows::FlowView),
    Finished(Result<PreviewView, ErrorView>),
}

/// The view of an outcome.
pub open spec fn fix_outcome_view(outcome: Result<WritePreview, ProviderError>) -> Result<
    PreviewView,
    ErrorView,
> {
    match outcome {
        Ok(preview) => Ok(preview@),
        Err(error) => Err(error@),
    }
}

impl View for FixStage {
    type V = FixStageView;

    open spec fn view(&self) -> FixStageView {
        match self {
            FixStage::Loading => FixStageView::Loading,
            FixStage::Identifying(fields) => FixStageView::Identifying(fields@),
            FixStage::Saving { fields, user_id, short_employee_id } => FixStageView::Saving {
                fields: fields@,
                user_id: user_id@,
                short_employee_id: *short_employee_id as nat,
            },
            FixStage::Opening => FixStageView::Opening,
            FixStage::Clearing(context) => FixStageView::Clearing(context@),
            FixStage::Writing(flow) => FixStageView::Writing(flow@),
            FixStage::Finished(outcome) => FixStageView::Finished(fix_outcome_view(*outcome)),
        }
    }
}

/// A fix of an error day that is being carried out.
pub struct FixFlow {
    pub setup: FixSetup,
    pub steps: Vec<(String, SubmitPreview)>,
    pub stage: FixStage,
}

/// A fix of an error day, as mathematics.
pub struct FixView {
    pub setup: SetupView,
    pub steps: Seq<(Seq<char>, ShownWrite)>,
    pub stage: FixStageView,
}

impl View for FixFlow {
    type V = FixView;

    open spec fn view(&self) -> FixView {
        FixView { setup: self.setup@, steps: step_views(self.steps@), stage: self.stage@ }
    }
}

/// What fixes are called.
pub open spec fn fix_action() -> Seq<char> {
    "fixed attendance error for"@
}

/// What the clearing of an error is called.
pub open spec fn clear_label() -> Seq<char> {
    "clear the Hilan error via the error wizard"@
}

/// What is added where the later steps are not known yet.
pub open spec fn later_steps_note() -> Seq<char> {
    "\n\nNote: the follow-up calendar delete/apply steps depend on the post-clear Hilan state and are determined only during --execute."@
}

/// A fix that failed.
pub open spec fn fix_failed(fix: FixView, message: Seq<char>) -> FixView {
    FixView {
        stage: FixStageView::Finished(Err(plain_error("attendance_fix_failed"@, message))),
        ..fix
    }
}

/// The words of a failure in the error wizard: those of the failure itself,
/// or, where the calendar was to follow, that the clearing failed.
pub open spec fn wizard_failure(setup: SetupView, message: Seq<char>) -> Seq<char> {
    if two_steps(setup) {
        "clear Hilan missing-report error before applying work from home for "@ + iso_text(
            setup.submit.date,
        )
    } else {
        message
    }
}

/// The fix after the wizard's form was loaded.
pub open spec fn after_form(fix: FixView, reply: Result<Map<Seq<char>, Seq<char>>, Seq<char>>) -> FixView {
    match reply {
        Ok(fields) => FixView { stage: FixStageView::Identifying(fields), ..fix },
        Err(_) => fix_failed(
            fix,
            wizard_failure(fix.setup, "load form for "@ + iso_text(fix.setup.submit.date)),
        ),
    }
}

/// The fix once the wizard's write is done, or shown.
pub open spec fn after_wizard(fix: FixView, write: ShownWrite) -> FixView {
    let date = fix.setup.submit.date;
    if !two_steps(fix.setup) {
        FixView { stage: FixStageView::Finished(Ok(single_preview(write, fix_action(), date))), ..fix }
    } else if !fix.setup.execute {
        let noted = ShownWrite {
            payload_display: write.payload_display + later_steps_note(),
            ..write
        };
        FixView {
            stage: FixStageView::Finished(
                Ok(steps_preview(seq![(clear_label(), noted)], fix_action(), date)),
            ),
            ..fix
        }
    } else {
        FixView { steps: seq![(clear_label(), write)], stage: FixStageView::Opening, ..fix }
    }
}

/// The fix once it is known who is signed in. Without leave to write, the
/// wizard's write is only shown.
pub open spec fn after_fix_identity(fix: FixView, reply: Result<(Seq<char>, nat), Seq<char>>) -> FixView {
    match (fix.stage, reply) {
        (FixStageView::Identifying(fields), Ok(identity)) => if fix.setup.execute {
            FixView {
                stage: FixStageView::Saving {
                    fields,
                    user_id: identity.0,
                    short_employee_id: identity.1,
                },
                ..fix
            }
        } else {
            after_wizard(
                fix,
                replay_shown(wizard_write(fix.setup, fields, identity.0, identity.1), false),
            )
        },
        (FixStageView::Identifying(_), Err(_)) => fix_failed(
            fix,
            wizard_failure(fix.setup, "bootstrap employee info for form replay"@),
        ),
        _ => fix,
    }
}

/// The fix after the answer to the wizard's write.
pub open spec fn after_fix_save(fix: FixView, reply: Result<Seq<char>, Seq<char>>) -> FixView {
    match fix.stage {
        FixStageView::Saving { fields, user_id, short_employee_id } => match save_error(
            fix.setup.submit.date,
            reply,
        ) {
            None => after_wizard(
                fix,
                replay_shown(
                    wizard_write(fix.setup, fields, user_id, short_employee_id),
                    true,
                ),
            ),
            Some(message) => fix_failed(fix, wizard_failure(fix.setup, message)),
        },
        _ => fix,
    }
}

/// The fix after the calendar was loaded.
pub open spec fn after_open(fix: FixView, reply: Result<ContextView, Seq<char>>) -> FixView {
    match reply {
        Ok(context) => settled(FixView { stage: FixStageView::Clearing(context), ..fix }),
        Err(_) => fix_failed(
            fix,
            "load calendar submit context after clearing error for "@ + iso_text(
                fix.setup.submit.date,
            ),
        ),
    }
}

/// The kind that a fix is to bring about.
pub open spec fn desired_kind(fix: FixView) -> Seq<char> {
    match fix.setup.submit.attendance_type_code {
        Some(code) => code,
        None => ""@,
    }
}

/// A fix with nothing left in the way: done where the day has a report of the
/// kind, else written on the calendar.
pub open spec fn settled(fix: FixView) -> FixView {
    match fix.stage {
        FixStageView::Clearing(context) => if first_conflict(
            context.reports,
            desired_kind(fix),
        ) is Some {
            fix
        } else if has_kind(context.reports, desired_kind(fix)) {
            FixView {
                stage: FixStageView::Finished(
                    Ok(steps_preview(fix.steps, fix_action(), fix.setup.submit.date)),
                ),
                ..fix
            }
        } else {
            FixView {
                stage: FixStageView::Writing(
                    crate::flows::FlowView {
                        submit: fix.setup.submit,
                        context,
                        steps: seq![],
                        refused: None,
                        deleted: false,
                        stage: crate::flows::StageView::Clearing,
                    },
                ),
                ..fix
            }
        },
        _ => fix,
    }
}

/// The fix after the answer to the deletion of a report.
pub open spec fn after_fix_delete(
    fix: FixView,
    report: ReportView,
    reply: Result<Seq<char>, Seq<char>>,
) -> FixView {
    let failure = "delete conflicting existing attendance before applying requested type for "@
        + iso_text(fix.setup.submit.date);
    match (fix.stage, reply) {
        (FixStageView::Clearing(context), Ok(response)) => match deletion_outcome(
            context,
            report,
            response,
        ) {
            Ok(after) => settled(
                FixView {
                    steps: fix.steps.push((delete_label(), delete_shown(context, report, true))),
                    stage: FixStageView::Clearing(after),
                    ..fix
                },
            ),
            Err(_) => fix_failed(fix, failure),
        },
        (FixStageView::Clearing(_), Err(_)) => fix_failed(fix, failure),
        _ => fix,
    }
}

/// The fix after the write on the calendar ended.
pub open spec fn after_calendar(fix: FixView, outcome: Result<ShownWrite, Seq<char>>) -> FixView {
    match outcome {
        Ok(write) => FixView {
            stage: FixStageView::Finished(
                Ok(
                    steps_preview(
                        fix.steps.push((apply_label(), write)),
                        fix_action(),
                        fix.setup.submit.date,
                    ),
                ),
            ),
            ..fix
        },
        Err(_) => fix_failed(
            fix,
            "apply requested attendance via calendar page after clearing error for "@ + iso_text(
                fix.setup.submit.date,
            ),
        ),
    }
}

/// Without leave to write, a fix ends before anything is sent: it never comes
/// to a stage in which a form is saved, a report deleted or a day written.
pub proof fn a_shown_fix_sends_nothing(
    fix: FixView,
    form: Result<Map<Seq<char>, Seq<char>>, Seq<char>>,
    identity: Result<(Seq<char>, nat), Seq<char>>,
)
    requires
        !fix.setup.execute,
        fix.stage is Loading || fix.stage is Identifying,
    ensures
        after_form(fix, form).stage is Identifying || after_form(fix, form).stage is Finished,
        fix.stage is Identifying ==> after_fix_identity(fix, identity).stage is Finished,
        after_fix_identity(fix, identity).stage matches FixStageView::Finished(Ok(preview))
            ==> !preview.executed,
{
}

/// Begins the fix of an error day.
pub open spec fn fix_start(
    base_url: Seq<char>,
    target: TargetView,
    change: ChangeView,
    execute: bool,
) -> Result<FixView, ErrorView> {
    match target_params(target) {
        Some(params) => Ok(
            FixView {
                setup: SetupView {
                    base_url,
                    submit: submit_of(change),
                    report_id: params.0,
                    error_type: params.1,
                    execute,
                },
                steps: seq![],
                stage: FixStageView::Loading,
            },
        ),
        None => Err(no_params_error(target)),
    }
}

/// What is to be done next.
pub enum FixAction {
    /// Load the form at this address.
    LoadForm(String),
    /// Ask who is signed in.
    Identify,
    /// Send this write of the form at this address.
    Save { url: String, plan: ReplayPlan },
    /// Load the calendar with the day selected.
    OpenCalendar,
    /// Send this deletion of this report.
    Delete { report: CalendarExistingReport, url: String, plan: DeletePlan },
    /// Go on with the write on the calendar.
    Write,
    /// Nothing: this came of it.
    Finish,
}

/// Whether an action is what a fix does next.
pub open spec fn is_next_fix(fix: FixView, action: FixAction) -> bool {
    match fix.stage {
        FixStageView::Loading => action matches FixAction::LoadForm(url) && url@ == wizard_url(
            fix.setup.base_url,
            fix.setup.submit.date,
            fix.setup.report_id,
            fix.setup.error_type,
        ),
        FixStageView::Identifying(_) => action is Identify,
        FixStageView::Saving { fields, user_id, short_employee_id } => action matches FixAction::Save {
            url,
            plan,
        } && url@ == wizard_url(
            fix.setup.base_url,
            fix.setup.submit.date,
            fix.setup.report_id,
            fix.setup.error_type,
        ) && saves(plan, wizard_write(fix.setup, fields, user_id, short_employee_id)),
        FixStageView::Opening => action is OpenCalendar,
        FixStageView::Clearing(context) => match first_conflict(
            context.reports,
            desired_kind(fix),
        ) {
            Some(report) => action matches FixAction::Delete { report: own, url, plan } && own@
                == report && url@ == context.url && deletes(plan, context, report),
            None => action is Finish,
        },
        FixStageView::Writing(_) => action is Write,
        FixStageView::Finished(_) => action is Finish,
    }
}

/// The view of the wizard's form.
pub open spec fn form_view(reply: Result<FormFields, String>) -> Result<
    Map<Seq<char>, Seq<char>>,
    Seq<char>,
> {
    match reply {
        Ok(fields) => Ok(fields@),
        Err(message) => Err(message@),
    }
}

impl FixFlow {
    /// Begins the fix of an error day.
    pub fn start(base_url: &str, target: &FixTarget, change: &AttendanceChange, mode: WriteMode) -> (
        fix: Result<FixFlow, ProviderError>)
        ensures
            match fix {
                Ok(fix) => fix_start(
                    base_url@,
                    target@,
                    change@,
                    mode == WriteMode::Execute,
                ) == Ok::<FixView, ErrorView>(fix@),
                Err(error) => fix_start(
                    base_url@,
                    target@,
                    change@,
                    mode == WriteMode::Execute,
                ) == Err::<FixView, ErrorView>(error@),
            },
    {
        match fix_params(target) {
            Ok((report_id, error_type)) => {
                let fix = FixFlow {
                    setup: FixSetup {
                        base_url: base_url.to_owned(),
                        submit: change_to_submit(change),
                        report_id,
                        error_type,
                        execute: mode.should_execute(),
                    },
                    steps: Vec::new(),
                    stage: FixStage::Loading,
                };
                assert(fix@.steps == Seq::<(Seq<char>, ShownWrite)>::empty());
                Ok(fix)
            },
            Err(error) => Err(error),
        }
    }

    fn is_two_steps(&self) -> (answer: bool)
        ensures
            answer == two_steps(self@.setup),
    {
        match fix_strategy(self.setup.error_type.as_str(), &self.setup.submit) {
            FixStrategy::ErrorWizardThenCalendar => true,
            FixStrategy::ErrorWizardOnly => false,
        }
    }

    fn wizard_plan(&self, fields: &FormFields, user_id: &str, short_employee_id: u32, executed: bool) -> (
        plan: ReplayPlan)
        ensures
            ({
                let input = wizard_write(
                    self@.setup,
                    fields@,
                    user_id@,
                    short_employee_id as nat,
                );
                &&& executed ==> saves(plan, input)
                &&& plan.preview@ == replay_shown(input, executed)
            }),
    {
        let url = error_wizard_url(
            self.setup.base_url.as_str(),
            self.setup.submit.date,
            self.setup.report_id.as_str(),
            self.setup.error_type.as_str(),
        );
        let submit = if self.is_two_steps() {
            error_clear_submit(&self.setup.submit)
        } else {
            self.setup.submit.copy()
        };
        plan_replay(
            url.as_str(),
            &submit,
            self.setup.report_id.as_str(),
            "שמור וסגור",
            executed,
            fields,
            SubmitPage::ErrorWizard,
            user_id,
            short_employee_id,
        )
    }

    /// What is to be done next.
    pub fn next_action(&self) -> (action: FixAction)
        ensures
            is_next_fix(self@, action),
    {
        let url = error_wizard_url(
            self.setup.base_url.as_str(),
            self.setup.submit.date,
            self.setup.report_id.as_str(),
            self.setup.error_type.as_str(),
        );
        match &self.stage {
            FixStage::Loading => FixAction::LoadForm(url),
            FixStage::Identifying(_) => FixAction::Identify,
            FixStage::Saving { fields, user_id, short_employee_id } => {
                let plan = self.wizard_plan(fields, user_id.as_str(), *short_employee_id, true);
                FixAction::Save { url, plan }
            },
            FixStage::Opening => FixAction::OpenCalendar,
            FixStage::Clearing(context) => {
                let desired = self.desired();
                match find_conflict(context, desired.as_str()) {
                    Some(report) => {
                        let plan = plan_delete(context, &report, true);
                        FixAction::Delete { report, url: context.url.clone(), plan }
                    },
                    None => FixAction::Finish,
                }
            },
            FixStage::Writing(_) => FixAction::Write,
            FixStage::Finished(_) => FixAction::Finish,
        }
    }

    fn desired(&self) -> (code: String)
        ensures
            code@ == desired_kind(self@),
    {
        match &self.setup.submit.attendance_type_code {
            Some(code) => code.clone(),
            None => "".to_owned(),
        }
    }

    fn fail(self, message: String) -> (fix: FixFlow)
        ensures
            fix@ == fix_failed(self@, message@),
    {
        FixFlow {
            setup: self.setup,
            steps: self.steps,
            stage: FixStage::Finished(
                Err(ProviderError::new("attendance_fix_failed", message.as_str())),
            ),
        }
    }

    fn fail_in_wizard(self, message: String) -> (fix: FixFlow)
        ensures
            fix@ == fix_failed(self@, wizard_failure(self@.setup, message@)),
    {
        if self.is_two_steps() {
            let message = dated(
                "clear Hilan missing-report error before applying work from home for ",
                self.setup.submit.date,
            );
            self.fail(message)
        } else {
            self.fail(message)
        }
    }

    fn wizard_done(self, write: SubmitPreview) -> (fix: FixFlow)
        ensures
            fix@ == after_wizard(self@, write@),
    {
        let date = self.setup.submit.date;
        if !self.is_two_steps() {
            let shown = preview_with_summary(write, "fixed attendance error for", date);
            return FixFlow {
                setup: self.setup,
                steps: self.steps,
                stage: FixStage::Finished(Ok(shown)),
            };
        }
        let mut write = write;
        if !self.setup.execute {
            write.payload_display.append(
                "\n\nNote: the follow-up calendar delete/apply steps depend on the post-clear Hilan state and are determined only during --execute.",
            );
            let ghost noted = write@;
            let mut steps: Vec<(String, SubmitPreview)> = Vec::new();
            steps.push(("clear the Hilan error via the error wizard".to_owned(), write));
            assert(step_views(steps@) == seq![(clear_label(), noted)]);
            let shown = preview_with_steps(&steps, "fixed attendance error for", date);
            return FixFlow {
                setup: self.setup,
                steps: self.steps,
                stage: FixStage::Finished(Ok(shown)),
            };
        }
        let ghost done = write@;
        let mut steps: Vec<(String, SubmitPreview)> = Vec::new();
        steps.push(("clear the Hilan error via the error wizard".to_owned(), write));
        assert(step_views(steps@) == seq![(clear_label(), done)]);
        FixFlow { setup: self.setup, steps, stage: FixStage::Opening }
    }

    /// Takes in the wizard's form.
    pub fn form_loaded(self, reply: Result<FormFields, String>) -> (fix: FixFlow)
        requires
            self@.stage is Loading,
        ensures
            fix@ == after_form(self@, form_view(reply)),
    {
        match reply {
            Ok(fields) => FixFlow {
                setup: self.setup,
                steps: self.steps,
                stage: FixStage::Identifying(fields),
            },
            Err(_) => {
                let message = dated("load form for ", self.setup.submit.date);
                self.fail_in_wizard(message)
            },
        }
    }

    /// Takes in who is signed in.
    pub fn identified(self, reply: Result<(String, u32), String>) -> (fix: FixFlow)
        requires
            self@.stage is Identifying,
        ensures
            fix@ == after_fix_identity(self@, identity_view(reply)),
    {
        let (user_id, short_employee_id) = match reply {
            Ok(identity) => identity,
            Err(_) => {
                return self.fail_in_wizard("bootstrap employee info for form replay".to_owned());
            },
        };
        if !self.setup.execute {
            let write = match &self.stage {
                FixStage::Identifying(fields) => {
                    let plan = self.wizard_plan(fields, user_id.as_str(), short_employee_id, false);
                    plan.preview
                },
                _ => {
                    return self;
                },
            };
            return self.wizard_done(write);
        }
        let FixFlow { setup, steps, stage } = self;
        match stage {
            FixStage::Identifying(fields) => FixFlow {
                setup,
                steps,
                stage: FixStage::Saving { fields, user_id, short_employee_id },
            },
            stage => FixFlow { setup, steps, stage },
        }
    }

    /// Takes in the answer to the wizard's write.
    pub fn saved(self, reply: Result<String, String>) -> (fix: FixFlow)
        requires
            self@.stage is Saving,
        ensures
            fix@ == after_fix_save(self@, reply_view(reply)),
    {
        let error: Option<String> = match reply {
            Ok(response) => check_submit_response(response.as_str()),
            Err(_) => Some(dated("submit attendance form for ", self.setup.submit.date)),
        };
        if let Some(message) = error {
            return self.fail_in_wizard(message);
        }
        let write = match &self.stage {
            FixStage::Saving { fields, user_id, short_employee_id } => {
                let plan = self.wizard_plan(fields, user_id.as_str(), *short_employee_id, true);
                plan.preview
            },
            _ => {
                return self;
            },
        };
        self.wizard_done(write)
    }

    fn settle(self) -> (fix: FixFlow)
        requires
            self@.stage is Clearing ==> self@.steps.len() > 0,
        ensures
            fix@ == settled(self@),
    {
        let desired = self.desired();
        let ghost view = self@;
        let FixFlow { setup, steps, stage } = self;
        match stage {
            FixStage::Clearing(context) => {
                if find_conflict(&context, desired.as_str()).is_some() {
                    return FixFlow { setup, steps, stage: FixStage::Clearing(context) };
                }
                if has_matching_report(&context, desired.as_str()) {
                    assert(steps.len() == step_views(steps@).len());
                    let shown = preview_with_steps(
                        &steps,
                        "fixed attendance error for",
                        setup.submit.date,
                    );
                    return FixFlow { setup, steps, stage: FixStage::Finished(Ok(shown)) };
                }
                let flow = SubmitFlow::start(setup.submit.copy(), context);
                FixFlow { setup, steps, stage: FixStage::Writing(flow) }
            },
            stage => FixFlow { setup, steps, stage },
        }
    }

    /// Takes in the calendar with the day selected.
    pub fn calendar_opened(self, reply: Result<CalendarSubmitContext, String>) -> (fix: FixFlow)
        requires
            self@.stage is Opening,
            self@.steps.len() > 0,
        ensures
            fix@ == after_open(self@, context_view(reply)),
    {
        match reply {
            Ok(context) => {
                let fix = FixFlow {
                    setup: self.setup,
                    steps: self.steps,
                    stage: FixStage::Clearing(context),
                };
                fix.settle()
            },
            Err(_) => {
                let message = dated(
                    "load calendar submit context after clearing error for ",
                    self.setup.submit.date,
                );
                self.fail(message)
            },
        }
    }

    /// Takes in the answer to the deletion of a report.
    pub fn deleted(self, report: &CalendarExistingReport, reply: Result<String, String>) -> (fix:
        FixFlow)
        requires
            self@.stage is Clearing,
        ensures
            fix@ == after_fix_delete(self@, report@, reply_view(reply)),
    {
        let failure = dated(
            "delete conflicting existing attendance before applying requested type for ",
            self.setup.submit.date,
        );
        let response = match reply {
            Ok(response) => response,
            Err(_) => {
                return self.fail(failure);
            },
        };
        let ghost view = self@;
        let ghost before = step_views(self.steps@);
        let FixFlow { setup, steps, stage } = self;
        match stage {
            FixStage::Clearing(context) => {
                let plan = plan_delete(&context, report, true);
                match delete_answered(context, report, response.as_str()) {
                    Ok(after) => {
                        let mut steps = steps;
                        steps.push(
                            (
                                "delete the conflicting calendar row before applying the requested attendance".to_owned(),
                                plan.preview,
                            ),
                        );
                        assert(step_views(steps@) == before.push((delete_label(), plan.preview@)));
                        let fix = FixFlow { setup, steps, stage: FixStage::Clearing(after) };
                        fix.settle()
                    },
                    Err(_) => FixFlow {
                        setup,
                        steps,
                        stage: FixStage::Finished(
                            Err(ProviderError::new("attendance_fix_failed", failure.as_str())),
                        ),
                    },
                }
            },
            stage => FixFlow { setup, steps, stage },
        }
    }

    /// Takes in what came of the write on the calendar.
    pub fn written(self, outcome: Result<SubmitPreview, String>) -> (fix: FixFlow)
        requires
            self@.stage is Writing,
        ensures
            fix@ == after_calendar(self@, crate::flows::outcome_view(outcome)),
    {
        let ghost before = step_views(self.steps@);
        match outcome {
            Ok(write) => {
                let ghost done = write@;
                let FixFlow { setup, steps, stage } = self;
                let mut all = crate::flows::copy_steps(&steps);
                all.push(("apply the requested attendance via the calendar page".to_owned(), write));
                assert(step_views(all@) == before.push((apply_label(), done)));
                let shown = preview_with_steps(
                    &all,
                    "fixed attendance error for",
                    setup.submit.date,
                );
                FixFlow { setup, steps, stage: FixStage::Finished(Ok(shown)) }
            },
            Err(_) => {
                let message = dated(
                    "apply requested attendance via calendar page after clearing error for ",
                    self.setup.submit.date,
                );
                self.fail(message)
            },
        }
    }
}

} // verus!
