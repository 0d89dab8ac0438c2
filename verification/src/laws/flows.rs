//! Laws of carrying a write out: what is deleted before it, when it is tried
//! again, and how an error is fixed.

use crate::date::{iso_text, CalendarDate};
use crate::existing::{
    delete_fields, delete_overrides, deleted_reports_are_gone, first_conflict,
    first_conflict_is_first, selection_outcome, shown_row_date, target_object, without_object,
    ContextView, ReportView,
};
use crate::flows::{
    after_delete, after_reload, after_save, calendar_write, composed, deletes, dry_submit, is_next,
    save_error, shown_deletions, step_texts, FlowView, StageView, SubmitAction,
};
use crate::forms::overridden;
use crate::hr_core::{ChangeView, TargetView};
use crate::json::json_quoted;
use crate::laws::calendar::{a_text_contains_what_occurs_in_it, occurs};
use crate::laws::writing::{an_override_takes_the_place_of_a_field, value_in};
use crate::provider::{
    after_fix_identity, after_wizard, settled, submit_of, target_params, two_steps, wizard_submit,
    wizard_write, FixStageView, FixView, SetupView,
};
use crate::submit::{page_employee, refusal, replay_shown, ShownWrite, SubmitPage, SubmitView};
use crate::text::{decimal, joined, padded, signed_padded, split_once};
use vstd::prelude::*;

verus! {

// ---------------------------------------------------------------------------
// What is in the way
// ---------------------------------------------------------------------------

/// Whether a report is an absence of another kind than the one wanted.
pub open spec fn is_other_absence(report: ReportView, desired: Seq<char>) -> bool {
    report.is_absence && !(report.symbol_code matches Some(code) && code == desired)
}

/// What is deleted before a write is the first absence of another kind, and
/// nothing where there is none.
pub proof fn an_absence_of_another_kind_is_in_the_way(
    reports: Seq<ReportView>,
    desired: Seq<char>,
)
    ensures
        match first_conflict(reports, desired) {
            Some(report) => exists|i: int|
                0 <= i < reports.len() && #[trigger] reports[i] == report && is_other_absence(
                    report,
                    desired,
                ) && forall|j: int| 0 <= j < i ==> !is_other_absence(#[trigger] reports[j], desired),
            None => forall|i: int|
                0 <= i < reports.len() ==> !is_other_absence(#[trigger] reports[i], desired),
        },
    decreases reports.len(),
{
    if reports.len() > 0 && !is_other_absence(reports[0], desired) {
        let rest = reports.skip(1);
        an_absence_of_another_kind_is_in_the_way(rest, desired);
        match first_conflict(rest, desired) {
            Some(report) => {
                let i = choose|i: int|
                    0 <= i < rest.len() && #[trigger] rest[i] == report && is_other_absence(
                        report,
                        desired,
                    ) && forall|j: int| 0 <= j < i ==> !is_other_absence(#[trigger] rest[j], desired);
                assert(reports[i + 1] == report);
                assert forall|j: int| 0 <= j < i + 1 implies !is_other_absence(
                    #[trigger] reports[j],
                    desired,
                ) by {
                    if j > 0 {
                        assert(reports[j] == rest[j - 1]);
                    }
                }
            },
            None => {
                assert forall|i: int| 0 <= i < reports.len() implies !is_other_absence(
                    #[trigger] reports[i],
                    desired,
                ) by {
                    if i > 0 {
                        assert(reports[i] == rest[i - 1]);
                    }
                }
            },
        }
    } else if reports.len() > 0 {
        assert(reports[0] == reports[0]);
    }
}

/// A write goes to the first report of the day that has an id of its own, and
/// else to a new one, whose id is all zeros.
pub proof fn a_write_goes_to_the_first_report(reports: Seq<ReportView>)
    ensures
        (forall|i: int|
            0 <= i < reports.len() ==> (#[trigger] reports[i]).object_id
                == "00000000-0000-0000-0000-000000000000"@) ==> target_object(reports)
            == "00000000-0000-0000-0000-000000000000"@,
        forall|i: int|
            0 <= i < reports.len() && (#[trigger] reports[i]).object_id
                != "00000000-0000-0000-0000-000000000000"@ && (forall|j: int|
                0 <= j < i ==> (#[trigger] reports[j]).object_id
                    == "00000000-0000-0000-0000-000000000000"@) ==> target_object(reports)
                == reports[i].object_id,
    decreases reports.len(),
{
    if reports.len() > 0 {
        let rest = reports.skip(1);
        a_write_goes_to_the_first_report(rest);
        if forall|i: int|
            0 <= i < reports.len() ==> (#[trigger] reports[i]).object_id
                == "00000000-0000-0000-0000-000000000000"@ {
            assert(reports[0].object_id == "00000000-0000-0000-0000-000000000000"@);
            assert forall|i: int| 0 <= i < rest.len() implies (#[trigger] rest[i]).object_id
                == "00000000-0000-0000-0000-000000000000"@ by {
                assert(rest[i] == reports[i + 1]);
            }
        }
        assert forall|i: int|
            0 <= i < reports.len() && (#[trigger] reports[i]).object_id
                != "00000000-0000-0000-0000-000000000000"@ && (forall|j: int|
                0 <= j < i ==> (#[trigger] reports[j]).object_id
                    == "00000000-0000-0000-0000-000000000000"@) implies target_object(reports)
            == reports[i].object_id by {
            if i > 0 {
                assert(reports[0].object_id == "00000000-0000-0000-0000-000000000000"@);
                assert(rest[i - 1] == reports[i]);
                assert forall|j: int| 0 <= j < i - 1 implies (#[trigger] rest[j]).object_id
                    == "00000000-0000-0000-0000-000000000000"@ by {
                    assert(rest[j] == reports[j + 1]);
                }
            }
        }
    }
}

/// Once the deletions that a write begins with are done, nothing is in its
/// way.
pub proof fn nothing_is_left_in_the_way(
    context: ContextView,
    reports: Seq<ReportView>,
    desired: Seq<char>,
    shown: Seq<(Seq<char>, ShownWrite)>,
)
    ensures
        first_conflict(shown_deletions(context, reports, desired, shown).1, desired) is None,
        first_conflict(reports, desired) is None ==> shown_deletions(
            context,
            reports,
            desired,
            shown,
        ) == (shown, reports),
        first_conflict(reports, desired) is Some ==> shown_deletions(
            context,
            reports,
            desired,
            shown,
        ).0.len() > shown.len(),
    decreases reports.len(),
{
    if let Some(report) = first_conflict(reports, desired) {
        let left = without_object(reports, report.object_id);
        first_conflict_is_first(reports, desired);
        let i = choose|i: int| 0 <= i < reports.len() && reports[i] == report;
        assert(reports[i].object_id == report.object_id);
        deleted_reports_are_gone(reports, seq![], report.object_id);
        assert(left.len() < reports.len());
        let more = shown.push(
            (
                crate::flows::delete_label(),
                crate::existing::delete_shown(ContextView { reports, ..context }, report, false),
            ),
        );
        nothing_is_left_in_the_way(context, left, desired, more);
        deletions_only_grow(context, left, desired, more);
    }
}

proof fn deletions_only_grow(
    context: ContextView,
    reports: Seq<ReportView>,
    desired: Seq<char>,
    shown: Seq<(Seq<char>, ShownWrite)>,
)
    ensures
        shown_deletions(context, reports, desired, shown).0.len() >= shown.len(),
    decreases reports.len(),
{
    if let Some(report) = first_conflict(reports, desired) {
        let left = without_object(reports, report.object_id);
        let more = shown.push(
            (
                crate::flows::delete_label(),
                crate::existing::delete_shown(ContextView { reports, ..context }, report, false),
            ),
        );
        if left.len() < reports.len() {
            deletions_only_grow(context, left, desired, more);
        }
    }
}

/// A deletion keeps all other reports of the day.
pub proof fn a_deletion_keeps_the_others(reports: Seq<ReportView>, id: Seq<char>, at: int)
    requires
        0 <= at < reports.len(),
        reports[at].object_id != id,
    ensures
        without_object(reports, id).contains(reports[at]),
    decreases reports.len(),
{
    let rest = reports.drop_last();
    let left = without_object(reports, id);
    let before = without_object(rest, id);
    if at == reports.len() - 1 {
        assert(left[left.len() - 1] == reports[at]);
    } else {
        assert(rest[at] == reports[at]);
        a_deletion_keeps_the_others(rest, id, at);
        let k = choose|k: int| 0 <= k < before.len() && before[k] == reports[at];
        assert(left[k] == reports[at]);
    }
}

/// What is posted to delete a report raises the delete event of the day's grid
/// and names the report, its employee, its day and its row.
pub proof fn a_deletion_names_its_report(context: ContextView, report: ReportView)
    ensures
        ({
            let form = overridden(delete_fields(context), delete_overrides(context, report));
            let grid = "ctl00$mp$RG_Days_"@ + context.employee_id + "_"@ + signed_padded(
                context.date.year,
                4,
            ) + "_"@ + padded(context.date.month as nat, 2) + "$reportsGrid"@;
            &&& value_in(form, "__EVENTTARGET"@) == Some(grid)
            &&& value_in(form, "__EVENTARGUMENT"@) == Some(
                "{\"EmployeeId\":"@ + decimal(report.employee_id) + ",\"ObjectId\":"@ + json_quoted(
                    report.object_id,
                ) + ",\"ReportDate\":"@ + json_quoted(report.report_date_iso_utc) + ",\"RowName\":"@
                    + json_quoted(report.row_name) + "}"@,
            )
            &&& value_in(form, "__ASYNCPOST"@) == Some("true"@)
            &&& value_in(form, "ctl00$ms"@) == Some(grid + "_updatePanel|"@ + grid)
        }),
{
    let fields = delete_fields(context);
    let list = delete_overrides(context, report);
    reveal_strlit("__EVENTTARGET");
    reveal_strlit("__EVENTARGUMENT");
    reveal_strlit("__ASYNCPOST");
    reveal_strlit("H-XSRF-Token");
    reveal_strlit("ctl00$ms");
    assert("__EVENTTARGET"@.len() != "__EVENTARGUMENT"@.len());
    assert("__EVENTTARGET"@.len() != "__ASYNCPOST"@.len());
    assert("__EVENTTARGET"@.len() != "H-XSRF-Token"@.len());
    assert("__EVENTTARGET"@.len() != "ctl00$ms"@.len());
    assert("__EVENTARGUMENT"@.len() != "__ASYNCPOST"@.len());
    assert("__EVENTARGUMENT"@.len() != "H-XSRF-Token"@.len());
    assert("__EVENTARGUMENT"@.len() != "ctl00$ms"@.len());
    assert("__ASYNCPOST"@.len() != "H-XSRF-Token"@.len());
    assert("__ASYNCPOST"@.len() != "ctl00$ms"@.len());
    assert("H-XSRF-Token"@.len() != "ctl00$ms"@.len());
    an_override_takes_the_place_of_a_field(fields, list, "__EVENTTARGET"@);
    an_override_takes_the_place_of_a_field(fields, list, "__EVENTARGUMENT"@);
    an_override_takes_the_place_of_a_field(fields, list, "__ASYNCPOST"@);
    an_override_takes_the_place_of_a_field(fields, list, "ctl00$ms"@);
    crate::laws::writing::value_at(list, 1, "ctl00$ms"@);
    crate::laws::writing::value_at(list, 2, "__EVENTTARGET"@);
    crate::laws::writing::value_at(list, 3, "__EVENTARGUMENT"@);
    crate::laws::writing::value_at(list, 4, "__ASYNCPOST"@);
}

// ---------------------------------------------------------------------------
// Carrying a write out
// ---------------------------------------------------------------------------

/// While a kind is wanted and an absence of another kind is in the way, that
/// is deleted; else the write is sent, to the report and with the fields of
/// the day as they are then.
pub proof fn a_write_is_sent_once_the_way_is_free(flow: FlowView, action: SubmitAction)
    requires
        flow.stage is Clearing,
        flow.refused is None,
        is_next(flow, action),
    ensures
        flow.submit.attendance_type_code matches Some(desired) ==> (first_conflict(
            flow.context.reports,
            desired,
        ) matches Some(found) ==> action matches SubmitAction::Delete { report, plan } && report@
            == found),
        flow.submit.attendance_type_code is None ==> action is Identify,
        flow.submit.attendance_type_code matches Some(desired) ==> (first_conflict(
            flow.context.reports,
            desired,
        ) is None ==> action is Identify),
{
}

/// What is sent to save a day: the write that was asked for, over the fields
/// of the day's page, to the report of the day, with the save button.
pub proof fn a_save_is_the_write_that_was_asked_for(
    context: ContextView,
    submit: SubmitView,
    user_id: Seq<char>,
    short_employee_id: nat,
)
    ensures
        ({
            let write = calendar_write(context, submit, user_id, short_employee_id);
            &&& write.url == context.url
            &&& write.submit == submit
            &&& write.fields == context.fields
            &&& write.object_id == target_object(context.reports)
            &&& write.button_value == "שמירה"@
            &&& write.page == SubmitPage::Calendar
            &&& write.user_id == user_id
            &&& write.short_employee_id == short_employee_id
        }),
{
}

/// A save that the service does not refuse ends the write with success. One
/// that is refused because of another report is tried again after the day was
/// loaded anew: once, where nothing was deleted before and a kind is wanted.
/// Every other refusal ends it with the words of the refusal.
pub proof fn a_refused_save_is_tried_again_once(
    flow: FlowView,
    user_id: Seq<char>,
    short_employee_id: nat,
    reply: Result<Seq<char>, Seq<char>>,
)
    ensures
        ({
            let next = after_save(flow, user_id, short_employee_id, reply);
            match save_error(flow.submit.date, reply) {
                None => next.stage matches StageView::Finished(Ok(write)) && write.executed,
                Some(message) => {
                    let again = flow.refused is None && !flow.deleted && occurs(
                        "קיים דיווח"@,
                        message,
                    ) && flow.submit.attendance_type_code is Some;
                    &&& again ==> next.stage is Reloading && next.refused == Some(message)
                    &&& !again ==> next.stage == StageView::Finished(Err(message))
                },
            }
        }),
{
    if let Some(message) = save_error(flow.submit.date, reply) {
        a_text_contains_what_occurs_in_it(message, "קיים דיווח"@);
    }
}

/// What is wrong with a save: that it could not be sent, or the words with
/// which the service refused it.
pub proof fn a_save_fails_with_its_reason(date: CalendarDate, reply: Result<Seq<char>, Seq<char>>)
    ensures
        match reply {
            Ok(response) => match refusal(response) {
                Some(words) => save_error(date, reply) == Some(
                    "Hilan rejected attendance submit: "@ + words,
                ),
                None => save_error(date, reply) is None,
            },
            Err(_) => save_error(date, reply) == Some(
                "submit attendance form for "@ + iso_text(date),
            ),
        },
{
}

/// A second try without anything to delete ends with the words of the first
/// refusal.
pub proof fn a_second_try_needs_a_deletion(flow: FlowView, action: SubmitAction)
    requires
        flow.stage is Clearing,
        flow.refused is Some,
        !flow.deleted,
        is_next(flow, action),
        flow.submit.attendance_type_code matches Some(desired) && first_conflict(
            flow.context.reports,
            desired,
        ) is None,
    ensures
        action matches SubmitAction::Finish(Err(message)) && message@ == flow.refused->0,
{
}

/// After a deletion the write goes on with the report gone; a deletion that is
/// refused ends it.
pub proof fn a_deletion_is_taken_in(
    flow: FlowView,
    report: ReportView,
    reply: Result<Seq<char>, Seq<char>>,
)
    ensures
        ({
            let next = after_delete(flow, report, reply);
            &&& (reply is Err ==> (next.stage matches StageView::Finished(Err(_))))
            &&& (reply matches Ok(response) ==> match refusal(response) {
                Some(words) => next.stage == StageView::Finished(
                    Err("Hilan rejected attendance delete: "@ + words),
                ),
                None => next.stage == flow.stage && next.deleted && next.submit == flow.submit
                    && next.steps.len() == flow.steps.len() + 1 && (forall|i: int|
                    0 <= i < next.context.reports.len() ==> (
                    #[trigger] next.context.reports[i]).object_id != report.object_id),
            })
        }),
{
    if let Ok(response) = reply {
        let refreshed = match crate::existing::page_reports(
            response,
            flow.context.employee_id,
            flow.context.date,
        ) {
            Ok(reports) => reports,
            Err(_) => seq![],
        };
        deleted_reports_are_gone(flow.context.reports, refreshed, report.object_id);
    }
}

/// Loading the day again keeps the write and starts over with what is there.
pub proof fn a_reload_starts_over(flow: FlowView, reply: Result<ContextView, Seq<char>>)
    ensures
        reply matches Ok(context) ==> after_reload(flow, reply).context == context && after_reload(
            flow,
            reply,
        ).stage is Clearing && after_reload(flow, reply).submit == flow.submit && !after_reload(
            flow,
            reply,
        ).deleted,
        reply is Err ==> after_reload(flow, reply).stage matches StageView::Finished(Err(_)),
{
}

/// A day counts as selected only where the answer shows just that day, and
/// then the page names it as the selected one.
pub proof fn a_day_is_selected_only_where_it_is_shown(
    fields: Map<Seq<char>, Seq<char>>,
    response: Seq<char>,
    date: CalendarDate,
)
    ensures
        selection_outcome(fields, response, date) is Ok <==> shown_row_date(response) == Some(date),
        selection_outcome(fields, response, date) matches Ok(after) ==> value_in(
            after,
            "__calendarSelectedDays"@,
        ) == Some(crate::months::selected_day(date)) && value_in(after, "ctl00$mp$currentMonth"@)
            == Some(crate::months::month_field(date)),
{
    reveal_strlit("__calendarSelectedDays");
    reveal_strlit("ctl00$mp$currentMonth");
    assert("__calendarSelectedDays"@[0] == '_');
    assert("ctl00$mp$currentMonth"@[0] == 'c');
}

// ---------------------------------------------------------------------------
// Changes, writes and fixes
// ---------------------------------------------------------------------------

/// A change is written as it is: each of its parts under its own name, and
/// the usual kind where it asks for that.
pub proof fn a_change_is_written_as_it_is(change: ChangeView)
    ensures
        submit_of(change).date == change.date,
        submit_of(change).attendance_type_code == change.attendance_type_code,
        submit_of(change).entry_time == change.entry_time,
        submit_of(change).exit_time == change.exit_time,
        submit_of(change).comment == change.comment,
        submit_of(change).clear_entry == change.clear_entry,
        submit_of(change).clear_exit == change.clear_exit,
        submit_of(change).clear_comment == change.clear_comment,
        submit_of(change).default_work_day == change.use_default_attendance_type,
{
}

/// The report and the error type of a target are those of its data where it
/// has both, else the parts of its reference before and behind the first
/// colon.
pub proof fn a_target_names_its_error(target: TargetView)
    ensures
        target.metadata.dom().contains("report_id"@) && target.metadata.dom().contains(
            "error_type"@,
        ) ==> target_params(target) == Some(
            (target.metadata["report_id"@], target.metadata["error_type"@]),
        ),
        !(target.metadata.dom().contains("report_id"@) && target.metadata.dom().contains(
            "error_type"@,
        )) ==> target_params(target) == split_once(target.provider_ref, ':'),
{
}

/// A missing report that is to become work from home is first cleared as a
/// plain work day with the same times, and then written on the calendar; every
/// other error is fixed at once, with the write that was asked for.
pub proof fn an_error_is_fixed_in_one_step_or_two(setup: SetupView)
    ensures
        two_steps(setup) <==> setup.error_type == "63"@ && setup.submit.attendance_type_code
            == Some("120"@),
        !two_steps(setup) ==> wizard_submit(setup) == setup.submit,
        two_steps(setup) ==> wizard_submit(setup).attendance_type_code == Some("0"@)
            && !wizard_submit(setup).default_work_day,
        wizard_submit(setup).date == setup.submit.date,
        wizard_submit(setup).entry_time == setup.submit.entry_time,
        wizard_submit(setup).exit_time == setup.submit.exit_time,
        wizard_submit(setup).comment == setup.submit.comment,
        wizard_submit(setup).clear_entry == setup.submit.clear_entry,
        wizard_submit(setup).clear_exit == setup.submit.clear_exit,
{
}

/// The write that fixes an error goes to the page of that error, which is
/// named by the day, the report and the error type, and to that report.
pub proof fn an_error_is_fixed_on_its_own_page(
    setup: SetupView,
    fields: Map<Seq<char>, Seq<char>>,
    user_id: Seq<char>,
    short_employee_id: nat,
)
    requires
        0 <= setup.submit.date.year <= 9999,
    ensures
        ({
            let write = wizard_write(setup, fields, user_id, short_employee_id);
            let date = setup.submit.date;
            &&& write.url == setup.base_url + "/Hilannetv2/EmployeeErrorHandling.aspx?date="@
                + padded(date.day as nat, 2) + "/"@ + padded(date.month as nat, 2) + "/"@ + padded(
                date.year as nat,
                4,
            ) + "&reportId="@ + setup.report_id + "&errorType="@ + setup.error_type
                + "&HideStrip=1&HideEmployeeStrip=1"@
            &&& write.object_id == setup.report_id
            &&& write.page == SubmitPage::ErrorWizard
            &&& write.button_value == "שמור וסגור"@
            &&& write.fields == fields
            &&& write.user_id == user_id && write.short_employee_id == short_employee_id
            &&& write.submit == wizard_submit(setup)
        }),
{
    let date = setup.submit.date;
    let write = wizard_write(setup, fields, user_id, short_employee_id);
    assert(write.url =~= setup.base_url + "/Hilannetv2/EmployeeErrorHandling.aspx?date="@ + padded(
        date.day as nat,
        2,
    ) + "/"@ + padded(date.month as nat, 2) + "/"@ + padded(date.year as nat, 4) + "&reportId="@
        + setup.report_id + "&errorType="@ + setup.error_type
        + "&HideStrip=1&HideEmployeeStrip=1"@);
}

/// Once the error page is done with, a fix in one step is finished with that
/// write; one in two steps goes on to the calendar where it is carried out, and
/// else shows the first step alone.
pub proof fn a_fix_goes_on_to_the_calendar(fix: FixView, write: ShownWrite)
    ensures
        ({
            let next = after_wizard(fix, write);
            &&& (!two_steps(fix.setup) ==> (next.stage matches FixStageView::Finished(Ok(shown))
                && shown.executed == write.executed))
            &&& (two_steps(fix.setup) && fix.setup.execute ==> next.stage is Opening
                && next.steps.len() == 1 && next.steps[0].1 == write)
            &&& (two_steps(fix.setup) && !fix.setup.execute ==> (
            next.stage matches FixStageView::Finished(Ok(shown)) && shown.executed
                == write.executed))
            &&& next.setup == fix.setup
        }),
{
}

/// On the calendar a fix deletes what is in the way; then it is done where the
/// day has a report of the wanted kind, and else writes what was asked for.
pub proof fn a_fix_ends_with_the_wanted_kind(fix: FixView, context: ContextView, desired: Seq<char>)
    requires
        fix.stage == FixStageView::Clearing(context),
        fix.setup.submit.attendance_type_code == Some(desired),
    ensures
        ({
            let next = settled(fix);
            let there = exists|i: int|
                0 <= i < context.reports.len() && (#[trigger] context.reports[i]).symbol_code
                    == Some(desired);
            &&& (first_conflict(context.reports, desired) is Some ==> next == fix)
            &&& (first_conflict(context.reports, desired) is None && there ==> (
            next.stage matches FixStageView::Finished(Ok(_))))
            &&& (first_conflict(context.reports, desired) is None && !there ==> (
            next.stage matches FixStageView::Writing(flow) && flow.submit == fix.setup.submit
                && flow.context == context && flow.refused is None && !flow.deleted))
        }),
{
}

/// Until it is known who is signed in nothing is sent; then the error page is
/// sent where the fix is carried out, and else only shown.
pub proof fn a_fix_is_sent_only_where_it_is_carried_out(
    fix: FixView,
    fields: Map<Seq<char>, Seq<char>>,
    user_id: Seq<char>,
    short_employee_id: nat,
)
    requires
        fix.stage == FixStageView::Identifying(fields),
    ensures
        ({
            let next = after_fix_identity(fix, Ok((user_id, short_employee_id)));
            &&& (fix.setup.execute ==> next.stage == (FixStageView::Saving {
                fields,
                user_id,
                short_employee_id,
            }))
            &&& (!fix.setup.execute ==> (next.stage matches FixStageView::Finished(Ok(shown))
                && !shown.executed))
        }),
{
}

/// A write that is only shown is not carried out; it is for the page and the
/// employee of the day, and where nothing is in the way it shows what would be
/// sent.
pub proof fn a_shown_write_is_not_carried_out(
    context: ContextView,
    submit: SubmitView,
    user_id: Seq<char>,
    short_employee_id: nat,
)
    ensures
        ({
            let shown = dry_submit(context, submit, user_id, short_employee_id);
            let write = calendar_write(context, submit, user_id, short_employee_id);
            &&& !shown.executed
            &&& shown.url == context.url
            &&& shown.button_value == "שמירה"@
            &&& shown.employee_id == page_employee(context.fields, user_id)
            &&& (submit.attendance_type_code is None ==> shown == replay_shown(write, false))
            &&& (submit.attendance_type_code matches Some(desired) ==> (first_conflict(
                context.reports,
                desired,
            ) is None ==> shown.payload_display == replay_shown(write, false).payload_display))
        }),
{
    if let Some(desired) = submit.attendance_type_code {
        if first_conflict(context.reports, desired) is None {
            assert(shown_deletions(context, context.reports, desired, seq![]) == (
                Seq::<(Seq<char>, ShownWrite)>::empty(),
                context.reports,
            ));
        }
    }
}

/// Deletions that are only shown are of reports that are in the way, and none
/// of them is carried out.
pub proof fn shown_deletions_are_not_carried_out(
    context: ContextView,
    reports: Seq<ReportView>,
    desired: Seq<char>,
    before: Seq<(Seq<char>, ShownWrite)>,
)
    requires
        forall|i: int| 0 <= i < before.len() ==> !(#[trigger] before[i]).1.executed,
    ensures
        forall|i: int|
            0 <= i < shown_deletions(context, reports, desired, before).0.len()
                ==> !(#[trigger] shown_deletions(context, reports, desired, before).0[i]).1.executed,
    decreases reports.len(),
{
    if let Some(report) = first_conflict(reports, desired) {
        let left = crate::existing::without_object(reports, report.object_id);
        let more = before.push(
            (
                crate::flows::delete_label(),
                crate::existing::delete_shown(ContextView { reports, ..context }, report, false),
            ),
        );
        assert forall|i: int| 0 <= i < more.len() implies !(#[trigger] more[i]).1.executed by {
            if i < before.len() {
                assert(more[i] == before[i]);
            }
        }
        if left.len() < reports.len() {
            shown_deletions_are_not_carried_out(context, left, desired, more);
            assert(shown_deletions(context, reports, desired, before) == shown_deletions(
                context,
                left,
                desired,
                more,
            ));
        } else {
            assert(shown_deletions(context, reports, desired, before).0 == more);
        }
    } else {
        assert(shown_deletions(context, reports, desired, before).0 == before);
    }
}

/// A step is shown with its number, what it is called, where it goes, its
/// button and what it sends; the steps are numbered from one.
pub proof fn a_step_is_shown_with_its_parts(steps: Seq<(Seq<char>, ShownWrite)>, at: int)
    requires
        0 <= at < steps.len(),
    ensures
        step_texts(steps).len() == steps.len(),
        step_texts(steps)[at] == "Step "@ + decimal((at + 1) as nat) + ": "@ + steps[at].0
            + "\nTarget URL: "@ + steps[at].1.url + "\nButton: "@ + steps[at].1.button_name + " = "@
            + steps[at].1.button_value + "\n"@ + steps[at].1.payload_display,
{
}

/// A write behind earlier steps is shown as the last of them; without any it
/// is shown as it is.
pub proof fn a_write_is_shown_behind_its_steps(
    write: ShownWrite,
    earlier: Seq<(Seq<char>, ShownWrite)>,
    label: Seq<char>,
)
    ensures
        earlier.len() == 0 ==> composed(write, earlier, label) == write,
        earlier.len() > 0 ==> composed(write, earlier, label).payload_display == joined(
            step_texts(earlier.push((label, write))),
            "\n\n"@,
        ),
        composed(write, earlier, label).executed == write.executed,
        composed(write, earlier, label).url == write.url,
{
}

} // verus!
