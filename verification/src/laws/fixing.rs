//! Laws of fixing a day with an error, from the target to what is shown.

use crate::date::{iso_text, CalendarDate};
use crate::existing::{delete_shown, deletion_outcome, ContextView, ReportView};
use crate::flows::save_error;
use crate::hr_core::{ChangeView, TargetView};
use crate::json::Json;
use crate::laws::replies::says;
use crate::provider::{
    after_calendar, after_fix_delete, after_fix_save, after_form, after_open, fix_start,
    is_next_fix, settled, single_preview, steps_preview, target_params, wizard_url, wizard_write,
    FixAction, FixStageView, FixView,
};
use crate::submit::{replay_shown, ShownWrite};
use vstd::prelude::*;

verus! {

/// A fix begins with what is asked for: the change that is to be written, the
/// report and the kind of error of the target, and whether it is carried out.
pub proof fn a_fix_begins_with_what_is_asked_for(
    base_url: Seq<char>,
    target: TargetView,
    change: ChangeView,
    execute: bool,
)
    ensures
        target_params(target) matches Some(params) ==> (fix_start(
            base_url,
            target,
            change,
            execute,
        ) matches Ok(fix) && {
            &&& fix.setup.base_url == base_url
            &&& fix.setup.report_id == params.0
            &&& fix.setup.error_type == params.1
            &&& fix.setup.execute == execute
            &&& fix.setup.submit.date == change.date
            &&& fix.setup.submit.attendance_type_code == change.attendance_type_code
            &&& fix.setup.submit.entry_time == change.entry_time
            &&& fix.setup.submit.exit_time == change.exit_time
            &&& fix.setup.submit.comment == change.comment
            &&& fix.setup.submit.default_work_day == change.use_default_attendance_type
            &&& fix.steps.len() == 0
            &&& fix.stage is Loading
        }),
        target_params(target) is None ==> (fix_start(base_url, target, change, execute) matches Err(
            error,
        ) && error.code == "invalid_fix_target"@ && !error.retryable),
{
}

/// A step that fails ends the fix with an error; what was asked for is not
/// forgotten by one that succeeds.
pub proof fn a_fix_fails_with_its_step(
    fix: FixView,
    fields: Map<Seq<char>, Seq<char>>,
    message: Seq<char>,
    context: ContextView,
    write: ShownWrite,
)
    ensures
        after_form(fix, Ok(fields)).stage == FixStageView::Identifying(fields),
        after_form(fix, Ok(fields)).setup == fix.setup,
        after_form(fix, Err(message)).stage matches FixStageView::Finished(Err(error))
            && error.code == "attendance_fix_failed"@,
        after_open(fix, Err(message)).stage matches FixStageView::Finished(Err(error))
            && error.code == "attendance_fix_failed"@,
        after_open(fix, Ok(context)) == settled(
            FixView { stage: FixStageView::Clearing(context), ..fix },
        ),
        after_calendar(fix, Err(message)).stage matches FixStageView::Finished(Err(error))
            && error.code == "attendance_fix_failed"@,
        after_calendar(fix, Ok(write)).stage matches FixStageView::Finished(Ok(shown))
            && shown.executed == write.executed,
{
}

/// The answer to the write on the error page decides: where it refuses, the fix
/// failed; where not, the write was carried out.
pub proof fn the_error_pages_answer_decides(
    fix: FixView,
    fields: Map<Seq<char>, Seq<char>>,
    user_id: Seq<char>,
    short_employee_id: nat,
    reply: Result<Seq<char>, Seq<char>>,
)
    requires
        fix.stage == (FixStageView::Saving { fields, user_id, short_employee_id }),
    ensures
        save_error(fix.setup.submit.date, reply) is Some ==> (after_fix_save(
            fix,
            reply,
        ).stage matches FixStageView::Finished(Err(error)) && error.code
            == "attendance_fix_failed"@),
        save_error(fix.setup.submit.date, reply) is None ==> after_fix_save(fix, reply)
            == crate::provider::after_wizard(
            fix,
            replay_shown(wizard_write(fix.setup, fields, user_id, short_employee_id), true),
        ),
        reply is Err ==> save_error(fix.setup.submit.date, reply) is Some,
{
}

/// A deletion that the service takes is put down as carried out, and the day
/// is looked at again; one that it refuses ends the fix.
pub proof fn a_fix_puts_down_its_deletions(
    fix: FixView,
    context: ContextView,
    report: ReportView,
    response: Seq<char>,
)
    requires
        fix.stage == FixStageView::Clearing(context),
    ensures
        deletion_outcome(context, report, response) matches Ok(after) ==> {
            let next = after_fix_delete(fix, report, Ok(response));
            &&& next.steps.len() == fix.steps.len() + 1
            &&& next.steps.last().1 == delete_shown(context, report, true)
            &&& next.setup == fix.setup
        },
        deletion_outcome(context, report, response) is Err ==> (after_fix_delete(
            fix,
            report,
            Ok(response),
        ).stage matches FixStageView::Finished(Err(_))),
{
}

/// A fix asks for the error page first, saves there what it is to save, and
/// deletes on the calendar only what is in the way.
pub proof fn a_fix_does_one_thing_after_another(fix: FixView, action: FixAction)
    requires
        is_next_fix(fix, action),
    ensures
        fix.stage is Loading ==> (action matches FixAction::LoadForm(url) && url@ == wizard_url(
            fix.setup.base_url,
            fix.setup.submit.date,
            fix.setup.report_id,
            fix.setup.error_type,
        )),
        fix.stage is Identifying ==> action is Identify,
        fix.stage is Saving ==> action is Save,
        fix.stage is Opening ==> action is OpenCalendar,
        fix.stage is Finished ==> action is Finish,
        fix.stage is Writing ==> action is Write,
        action matches FixAction::Delete { report, url, plan } ==> (
        fix.stage matches FixStageView::Clearing(context) && report@.is_absence
            && report@.symbol_code != fix.setup.submit.attendance_type_code && url@
            == context.url) || fix.setup.submit.attendance_type_code is None,
{
    if let FixStageView::Clearing(context) = fix.stage {
        let desired = crate::provider::desired_kind(fix);
        crate::existing::first_conflict_is_first(context.reports, desired);
    }
}

/// A write is shown as carried out just where it was, and says so: one that
/// was not begins with the words for a dry run.
pub proof fn what_is_shown_says_whether_it_was_done(
    write: ShownWrite,
    action: Seq<char>,
    date: CalendarDate,
)
    ensures
        ({
            let shown = single_preview(write, action, date);
            &&& shown.executed == write.executed
            &&& (write.executed ==> shown.summary == action + " "@ + iso_text(date))
            &&& (!write.executed ==> shown.summary == "dry run: "@ + action + " "@ + iso_text(date))
            &&& (shown.provider_debug matches Some(debug) && {
                &&& says(debug, "url"@, Json::Text(write.url))
                &&& says(debug, "button_name"@, Json::Text(write.button_name))
                &&& says(debug, "button_value"@, Json::Text(write.button_value))
                &&& says(debug, "employee_id"@, Json::Text(write.employee_id))
                &&& says(debug, "payload_display"@, Json::Text(write.payload_display))
            })
        }),
{
    let debug = single_preview(write, action, date).provider_debug->Some_0;
    let members = debug->Object_0;
    assert(members[0] == ("url"@, Json::Text(write.url)));
    assert(members[1] == ("button_name"@, Json::Text(write.button_name)));
    assert(members[2] == ("button_value"@, Json::Text(write.button_value)));
    assert(members[3] == ("employee_id"@, Json::Text(write.employee_id)));
    assert(members[4] == ("payload_display"@, Json::Text(write.payload_display)));
}

/// What is shown of several steps is carried out where the last of them is,
/// and lists each step.
pub proof fn what_is_shown_of_steps_is_that_of_the_last(
    steps: Seq<(Seq<char>, ShownWrite)>,
    action: Seq<char>,
    date: CalendarDate,
)
    requires
        steps.len() > 0,
    ensures
        ({
            let shown = steps_preview(steps, action, date);
            let last = steps[steps.len() - 1].1;
            &&& shown.executed == last.executed
            &&& (last.executed ==> shown.summary == action + " "@ + iso_text(date))
            &&& (!last.executed ==> shown.summary == "dry run: "@ + action + " "@ + iso_text(date))
            &&& (shown.provider_debug matches Some(debug) && says(
                debug,
                "url"@,
                Json::Text(last.url),
            ))
        }),
{
    let debug = steps_preview(steps, action, date).provider_debug->Some_0;
    assert(debug->Object_0[0] == ("url"@, Json::Text(steps.last().1.url)));
}

} // verus!
