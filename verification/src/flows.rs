//! Writing a day step by step: what is in the way is deleted, the day is
//! saved, and a refusal because of another report is answered once.

use crate::date::{dated, iso_text, CalendarDate};
use crate::existing::{
    calendar_submit_object_id, delete_answered, delete_shown, deletion_outcome, find_conflict,
    first_conflict, plan_delete, report_views, target_object, without_object,
    CalendarExistingReport, CalendarSubmitContext, ContextView, DeletePlan, ReportView,
};
use crate::submit::{
    check_submit_response, plan_replay, replay_fields, replay_overrides, replay_shown,
    submit_outcome, AttendanceSubmit, ReplayInput, ReplayPlan, ShownWrite, SubmitPage,
    SubmitPreview, SubmitView,
};
use crate::text::{
    contains, contains_text, decimal, decimal_text, join, joined, opt_text, reply_view, texts,
};
use vstd::prelude::*;

verus! {

// ---------------------------------------------------------------------------
// Showing steps
// ---------------------------------------------------------------------------

/// A step as it is shown.
pub open spec fn step_text(number: nat, label: Seq<char>, write: ShownWrite) -> Seq<char> {
    "Step "@ + decimal(number) + ": "@ + label + "\nTarget URL: "@ + write.url + "\nButton: "@
        + write.button_name + " = "@ + write.button_value + "\n"@ + write.payload_display
}

/// The steps as they are shown one by one.
pub open spec fn step_texts(steps: Seq<(Seq<char>, ShownWrite)>) -> Seq<Seq<char>> {
    Seq::new(
        steps.len(),
        |i: int| step_text((i + 1) as nat, steps[i].0, steps[i].1),
    )
}

/// The steps as they are shown together.
pub open spec fn step_list(steps: Seq<(Seq<char>, ShownWrite)>) -> Seq<char> {
    joined(step_texts(steps), "\n\n"@)
}

/// The views of labelled writes.
pub open spec fn step_views(steps: Seq<(String, SubmitPreview)>) -> Seq<(Seq<char>, ShownWrite)> {
    steps.map_values(|step: (String, SubmitPreview)| (step.0@, step.1@))
}

/// A write as it is shown behind earlier steps.
pub open spec fn composed(
    write: ShownWrite,
    earlier: Seq<(Seq<char>, ShownWrite)>,
    label: Seq<char>,
) -> ShownWrite {
    if earlier.len() == 0 {
        write
    } else {
        ShownWrite { payload_display: step_list(earlier.push((label, write))), ..write }
    }
}

/// A step as it is shown.
pub fn render_submit_preview_step(step_number: usize, label: &str, preview: &SubmitPreview) -> (text:
    String)
    ensures
        text@ == step_text(step_number as nat, label@, preview@),
{
    let mut text = "Step ".to_owned();
    let number = decimal_text(step_number as u64);
    text.append(number.as_str());
    text.append(": ");
    text.append(label);
    text.append("\nTarget URL: ");
    text.append(preview.url.as_str());
    text.append("\nButton: ");
    text.append(preview.button_name.as_str());
    text.append(" = ");
    text.append(preview.button_value.as_str());
    text.append("\n");
    text.append(preview.payload_display.as_str());
    text
}

/// The steps as they are shown together, with blank lines between them.
pub fn render_step_list(steps: &Vec<(String, SubmitPreview)>) -> (text: String)
    ensures
        text@ == step_list(step_views(steps@)),
{
    let ghost all = step_views(steps@);
    let mut parts: Vec<String> = Vec::new();
    let mut i: usize = 0;
    while i < steps.len()
        invariant
            i <= steps.len(),
            all == step_views(steps@),
            texts(parts@) == step_texts(all).take(i as int),
        decreases steps.len() - i,
    {
        let ghost done = texts(parts@);
        let part = render_submit_preview_step(i + 1, steps[i].0.as_str(), &steps[i].1);
        assert(part@ == step_texts(all)[i as int]);
        parts.push(part);
        assert(texts(parts@) == done.push(part@));
        i = i + 1;
        assert(texts(parts@) == step_texts(all).take(i as int));
    }
    assert(step_texts(all).take(all.len() as int) == step_texts(all));
    join(&parts, "\n\n")
}

/// A write as it is shown behind earlier steps.
pub fn compose_submit_preview_steps(
    final_preview: SubmitPreview,
    earlier_steps: Vec<(String, SubmitPreview)>,
    final_label: &str,
) -> (preview: SubmitPreview)
    ensures
        preview@ == composed(final_preview@, step_views(earlier_steps@), final_label@),
{
    let ghost earlier = step_views(earlier_steps@);
    assert(earlier_steps.len() == earlier.len());
    if earlier_steps.len() == 0 {
        return final_preview;
    }
    let mut steps = earlier_steps;
    steps.push((final_label.to_owned(), final_preview.copy()));
    assert(step_views(steps@) == earlier.push((final_label@, final_preview@)));
    let payload_display = render_step_list(&steps);
    SubmitPreview {
        url: final_preview.url,
        button_name: final_preview.button_name,
        button_value: final_preview.button_value,
        employee_id: final_preview.employee_id,
        payload_display,
        executed: final_preview.executed,
    }
}

// ---------------------------------------------------------------------------
// Showing a write without carrying it out
// ---------------------------------------------------------------------------

/// What deletions before a write are called.
pub open spec fn delete_label() -> Seq<char> {
    "delete the conflicting calendar row before applying the requested attendance"@
}

/// What deletions after a refusal are called.
pub open spec fn late_delete_label() -> Seq<char> {
    "delete the conflicting calendar row after Hilan rejected the first submit"@
}

/// What the write itself is called.
pub open spec fn apply_label() -> Seq<char> {
    "apply the requested attendance via the calendar page"@
}

/// The deletions that a write would begin with, and the reports that would be
/// left.
pub open spec fn shown_deletions(
    context: ContextView,
    reports: Seq<ReportView>,
    desired: Seq<char>,
    shown: Seq<(Seq<char>, ShownWrite)>,
) -> (Seq<(Seq<char>, ShownWrite)>, Seq<ReportView>)
    decreases reports.len(),
{
    match first_conflict(reports, desired) {
        Some(report) => {
            let left = without_object(reports, report.object_id);
            let more = shown.push(
                (
                    delete_label(),
                    delete_shown(ContextView { reports, ..context }, report, false),
                ),
            );
            if left.len() < reports.len() {
                shown_deletions(context, left, desired, more)
            } else {
                (more, left)
            }
        },
        None => (shown, reports),
    }
}

/// The write of a day on the calendar page.
pub open spec fn calendar_write(
    context: ContextView,
    submit: SubmitView,
    user_id: Seq<char>,
    short_employee_id: nat,
) -> ReplayInput {
    ReplayInput {
        url: context.url,
        submit,
        object_id: target_object(context.reports),
        button_value: "שמירה"@,
        fields: context.fields,
        page: SubmitPage::Calendar,
        user_id,
        short_employee_id,
    }
}

/// What a write of a day would do, as it is shown.
pub open spec fn dry_submit(
    context: ContextView,
    submit: SubmitView,
    user_id: Seq<char>,
    short_employee_id: nat,
) -> ShownWrite {
    let (steps, reports) = match submit.attendance_type_code {
        Some(desired) => shown_deletions(context, context.reports, desired, seq![]),
        None => (seq![], context.reports),
    };
    composed(
        replay_shown(
            calendar_write(
                ContextView { reports, ..context },
                submit,
                user_id,
                short_employee_id,
            ),
            false,
        ),
        steps,
        apply_label(),
    )
}

fn drop_reports(context: &mut CalendarSubmitContext, id: &str)
    ensures
        final(context)@ == (ContextView {
            reports: without_object(old(context)@.reports, id@),
            ..old(context)@
        }),
{
    let ghost all = context@.reports;
    let ghost start = context@;
    let mut kept: Vec<CalendarExistingReport> = Vec::new();
    let mut i: usize = 0;
    while i < context.reports.len()
        invariant
            i <= context.reports.len(),
            start == context@,
            all == report_views(context.reports@),
            report_views(kept@) == without_object(all.take(i as int), id@),
        decreases context.reports.len() - i,
    {
        assert(all.take(i + 1).drop_last() == all.take(i as int));
        assert(all.take(i + 1).last() == context.reports@[i as int]@);
        let ghost before = report_views(kept@);
        if !crate::text::same(context.reports[i].object_id.as_str(), id) {
            let report = context.reports[i].copy();
            kept.push(report);
            assert(report_views(kept@) == before.push(report@));
        }
        i = i + 1;
    }
    assert(all.take(all.len() as int) == all);
    context.reports = kept;
}

/// Shows what a write of a day would do: the deletions it would begin with,
/// and the write itself. Nothing is sent.
pub fn preview_submit(
    submit: &AttendanceSubmit,
    context: CalendarSubmitContext,
    user_id: &str,
    short_employee_id: u32,
) -> (preview: SubmitPreview)
    ensures
        preview@ == dry_submit(context@, submit@, user_id@, short_employee_id as nat),
        !preview@.executed,
{
    let ghost start = context@;
    let mut context = context;
    let mut steps: Vec<(String, SubmitPreview)> = Vec::new();
    assert(step_views(steps@) == Seq::<(Seq<char>, ShownWrite)>::empty());
    if let Some(desired) = &submit.attendance_type_code {
        let ghost goal = shown_deletions(start, start.reports, desired@, seq![]);
        loop
            invariant_except_break
                shown_deletions(start, context@.reports, desired@, step_views(steps@)) == goal,
            invariant
                context@ == (ContextView { reports: context@.reports, ..start }),
            ensures
                goal == (step_views(steps@), context@.reports),
            decreases context@.reports.len(),
        {
            let report = match find_conflict(&context, desired.as_str()) {
                Some(report) => report,
                None => {
                    break ;
                },
            };
            let ghost before = step_views(steps@);
            let ghost shown = context@;
            let plan = plan_delete(&context, &report, false);
            steps.push(
                (
                    "delete the conflicting calendar row before applying the requested attendance".to_owned(),
                    plan.preview,
                ),
            );
            assert(step_views(steps@) == before.push((delete_label(), plan.preview@)));
            drop_reports(&mut context, report.object_id.as_str());
            proof {
                crate::existing::first_conflict_is_first(shown.reports, desired@);
                let i = choose|i: int| 0 <= i < shown.reports.len() && shown.reports[i] == report@;
                assert(shown.reports[i].object_id == report@.object_id);
                crate::existing::deleted_reports_are_gone(
                    shown.reports,
                    seq![],
                    report@.object_id,
                );
            }
        }
    }
    let object_id = calendar_submit_object_id(&context);
    let plan = plan_replay(
        context.url.as_str(),
        submit,
        object_id.as_str(),
        "שמירה",
        false,
        &context.fields,
        SubmitPage::Calendar,
        user_id,
        short_employee_id,
    );
    compose_submit_preview_steps(
        plan.preview,
        steps,
        "apply the requested attendance via the calendar page",
    )
}

// ---------------------------------------------------------------------------
// Carrying a write out
// ---------------------------------------------------------------------------

/// Where a write stands.
pub enum SubmitStage {
    /// What is in the way is being deleted.
    Clearing,
    /// The one who is signed in is known: the day is to be saved.
    Saving { user_id: String, short_employee_id: u32 },
    /// The save was refused because of another report: the day is to be loaded
    /// again.
    Reloading,
    /// Done.
    Finished(Result<SubmitPreview, String>),
}

/// Where a write stands, as mathematics.
pub enum StageView {
    Clearing,
    Saving { user_id: Seq<char>, short_employee_id: nat },
    Reloading,
    Finished(Result<ShownWrite, Seq<char>>),
}

/// The view of an outcome.
pub open spec fn outcome_view(outcome: Result<SubmitPreview, String>) -> Result<
    ShownWrite,
    Seq<char>,
> {
    match outcome {
        Ok(preview) => Ok(preview@),
        Err(message) => Err(message@),
    }
}

impl View for SubmitStage {
    type V = StageView;

    open spec fn view(&self) -> StageView {
        match self {
            SubmitStage::Clearing => StageView::Clearing,
            SubmitStage::Saving { user_id, short_employee_id } => StageView::Saving {
                user_id: user_id@,
                short_employee_id: *short_employee_id as nat,
            },
            SubmitStage::Reloading => StageView::Reloading,
            SubmitStage::Finished(outcome) => StageView::Finished(outcome_view(*outcome)),
        }
    }
}

/// A write of a day that is being carried out.
pub struct SubmitFlow {
    pub submit: AttendanceSubmit,
    pub context: CalendarSubmitContext,
    pub steps: Vec<(String, SubmitPreview)>,
    /// The words with which the first save was refused because of another
    /// report.
    pub refused: Option<String>,
    /// Whether something was deleted since the day was loaded.
    pub deleted: bool,
    pub stage: SubmitStage,
}

/// A write of a day that is being carried out, as mathematics.
pub struct FlowView {
    pub submit: SubmitView,
    pub context: ContextView,
    pub steps: Seq<(Seq<char>, ShownWrite)>,
    pub refused: Option<Seq<char>>,
    pub deleted: bool,
    pub stage: StageView,
}

impl View for SubmitFlow {
    type V = FlowView;

    open spec fn view(&self) -> FlowView {
        FlowView {
            submit: self.submit@,
            context: self.context@,
            steps: step_views(self.steps@),
            refused: opt_text(self.refused),
            deleted: self.deleted,
            stage: self.stage@,
        }
    }
}

/// What is to be done next.
pub enum SubmitAction {
    /// Send this deletion of this report.
    Delete { report: CalendarExistingReport, plan: DeletePlan },
    /// Ask who is signed in.
    Identify,
    /// Send this write.
    Save(ReplayPlan),
    /// Load the day again.
    Reload,
    /// Nothing: this came of it.
    Finish(Result<SubmitPreview, String>),
}

/// The report that is to be deleted next.
pub open spec fn next_conflict(flow: FlowView) -> Option<ReportView> {
    match (flow.stage, flow.submit.attendance_type_code) {
        (StageView::Clearing, Some(desired)) => first_conflict(flow.context.reports, desired),
        _ => None,
    }
}

/// The save of a write.
pub open spec fn flow_save(flow: FlowView, user_id: Seq<char>, short_employee_id: nat) -> ReplayInput {
    calendar_write(flow.context, flow.submit, user_id, short_employee_id)
}

/// Whether an action is what a write does next.
pub open spec fn is_next(flow: FlowView, action: SubmitAction) -> bool {
    match flow.stage {
        StageView::Clearing => match next_conflict(flow) {
            Some(report) => action matches SubmitAction::Delete { report: own, plan } && own@
                == report && deletes(plan, flow.context, report),
            None => if flow.refused is Some && !flow.deleted {
                action matches SubmitAction::Finish(Err(message)) && message@ == flow.refused->0
            } else {
                action is Identify
            },
        },
        StageView::Saving { user_id, short_employee_id } => action matches SubmitAction::Save(plan)
            && saves(plan, flow_save(flow, user_id, short_employee_id)),
        StageView::Reloading => action is Reload,
        StageView::Finished(outcome) => action matches SubmitAction::Finish(own) && outcome_view(
            own,
        ) == outcome,
    }
}

/// Whether a plan is the deletion of a report.
pub open spec fn deletes(plan: DeletePlan, context: ContextView, report: ReportView) -> bool {
    &&& plan.fields@ == crate::existing::delete_fields(context)
    &&& crate::fields::pair_texts(plan.overrides@) == crate::existing::delete_overrides(
        context,
        report,
    )
    &&& plan.manager_value@ == crate::existing::delete_manager_value(context)
    &&& plan.event_target@ == crate::existing::grid_event(context)
    &&& plan.event_argument@ == crate::existing::delete_argument(report)
    &&& plan.preview@ == delete_shown(context, report, true)
}

/// Whether a plan is a write.
pub open spec fn saves(plan: ReplayPlan, input: ReplayInput) -> bool {
    &&& plan.fields@ == replay_fields(input)
    &&& crate::fields::pair_texts(plan.overrides@) == replay_overrides(input)
    &&& plan.preview@ == replay_shown(input, true)
}

/// A write that ended.
pub open spec fn finished(flow: FlowView, outcome: Result<ShownWrite, Seq<char>>) -> FlowView {
    FlowView { stage: StageView::Finished(outcome), ..flow }
}

/// The label of a deletion.
pub open spec fn flow_delete_label(flow: FlowView) -> Seq<char> {
    if flow.refused is Some {
        late_delete_label()
    } else {
        delete_label()
    }
}

/// The write after the answer to the deletion of a report.
pub open spec fn after_delete(
    flow: FlowView,
    report: ReportView,
    reply: Result<Seq<char>, Seq<char>>,
) -> FlowView {
    match reply {
        Ok(response) => match deletion_outcome(flow.context, report, response) {
            Ok(context) => FlowView {
                context,
                steps: flow.steps.push(
                    (flow_delete_label(flow), delete_shown(flow.context, report, true)),
                ),
                deleted: true,
                ..flow
            },
            Err(message) => finished(flow, Err(message)),
        },
        Err(_) => finished(
            flow,
            Err("delete calendar attendance row for "@ + iso_text(flow.context.date)),
        ),
    }
}

/// The write once it is known who is signed in.
pub open spec fn after_identify(flow: FlowView, reply: Result<(Seq<char>, nat), Seq<char>>) -> FlowView {
    match reply {
        Ok(identity) => FlowView {
            stage: StageView::Saving { user_id: identity.0, short_employee_id: identity.1 },
            ..flow
        },
        Err(_) => finished(flow, Err("bootstrap employee info for form replay"@)),
    }
}

/// What went wrong with a save.
pub open spec fn save_error(date: CalendarDate, reply: Result<Seq<char>, Seq<char>>) -> Option<
    Seq<char>,
> {
    match reply {
        Ok(response) => submit_outcome(response),
        Err(_) => Some("submit attendance form for "@ + iso_text(date)),
    }
}

/// Whether a save was refused because of another report.
pub open spec fn is_conflict(message: Seq<char>) -> bool {
    contains(message, "קיים דיווח"@)
}

/// Whether a refused save is answered with another try: only once, only where
/// nothing was deleted yet, and only where a kind is wanted.
pub open spec fn tries_again(flow: FlowView, message: Seq<char>) -> bool {
    flow.refused is None && !flow.deleted && is_conflict(message)
        && flow.submit.attendance_type_code is Some
}

/// The write after the answer to the save.
pub open spec fn after_save(
    flow: FlowView,
    user_id: Seq<char>,
    short_employee_id: nat,
    reply: Result<Seq<char>, Seq<char>>,
) -> FlowView {
    match save_error(flow.submit.date, reply) {
        None => finished(
            flow,
            Ok(
                composed(
                    replay_shown(flow_save(flow, user_id, short_employee_id), true),
                    flow.steps,
                    apply_label(),
                ),
            ),
        ),
        Some(message) => if tries_again(flow, message) {
            FlowView { refused: Some(message), stage: StageView::Reloading, ..flow }
        } else {
            finished(flow, Err(message))
        },
    }
}

/// The write after the day was loaded again.
pub open spec fn after_reload(flow: FlowView, reply: Result<ContextView, Seq<char>>) -> FlowView {
    match reply {
        Ok(context) => FlowView { context, deleted: false, stage: StageView::Clearing, ..flow },
        Err(_) => finished(
            flow,
            Err(
                "reload calendar submit context after conflict for "@ + iso_text(flow.submit.date),
            ),
        ),
    }
}

/// How many saves can still be sent: two, and one once the first was refused.
pub open spec fn saves_left(flow: FlowView) -> int {
    match flow.stage {
        StageView::Finished(_) => 0,
        _ => if flow.refused is Some {
            1
        } else {
            2
        },
    }
}

/// A day is saved at most twice: every answer to a save leaves fewer saves,
/// and no other answer leaves more.
pub proof fn a_day_is_saved_at_most_twice(
    flow: FlowView,
    report: ReportView,
    reply: Result<Seq<char>, Seq<char>>,
    identity: Result<(Seq<char>, nat), Seq<char>>,
    context: Result<ContextView, Seq<char>>,
    user_id: Seq<char>,
    short_employee_id: nat,
)
    ensures
        saves_left(flow) <= 2,
        flow.stage is Saving ==> saves_left(after_save(flow, user_id, short_employee_id, reply))
            < saves_left(flow),
        flow.stage is Clearing ==> saves_left(after_delete(flow, report, reply)) <= saves_left(flow),
        flow.stage is Clearing ==> saves_left(after_identify(flow, identity)) <= saves_left(flow),
        flow.stage is Reloading ==> saves_left(after_reload(flow, context)) <= saves_left(flow),
{
}

/// What is shown of a write that went well says that it was carried out.
pub proof fn finished_writes_were_carried_out(
    flow: FlowView,
    user_id: Seq<char>,
    short_employee_id: nat,
    reply: Result<Seq<char>, Seq<char>>,
)
    ensures
        after_save(flow, user_id, short_employee_id, reply).stage matches StageView::Finished(
            Ok(write),
        ) ==> write.executed && save_error(flow.submit.date, reply) is None,
{
}

/// The view of who is signed in.
pub open spec fn identity_view(reply: Result<(String, u32), String>) -> Result<
    (Seq<char>, nat),
    Seq<char>,
> {
    match reply {
        Ok(identity) => Ok((identity.0@, identity.1 as nat)),
        Err(message) => Err(message@),
    }
}

/// The view of a loaded day.
pub open spec fn context_view(reply: Result<CalendarSubmitContext, String>) -> Result<
    ContextView,
    Seq<char>,
> {
    match reply {
        Ok(context) => Ok(context@),
        Err(message) => Err(message@),
    }
}

impl SubmitFlow {
    /// Begins a write.
    pub fn start(submit: AttendanceSubmit, context: CalendarSubmitContext) -> (flow: SubmitFlow)
        ensures
            flow@ == (FlowView {
                submit: submit@,
                context: context@,
                steps: seq![],
                refused: None,
                deleted: false,
                stage: StageView::Clearing,
            }),
    {
        let flow = SubmitFlow {
            submit,
            context,
            steps: Vec::new(),
            refused: None,
            deleted: false,
            stage: SubmitStage::Clearing,
        };
        assert(flow@.steps == Seq::<(Seq<char>, ShownWrite)>::empty());
        flow
    }

    /// What is to be done next.
    pub fn next_action(&self) -> (action: SubmitAction)
        ensures
            is_next(self@, action),
    {
        match &self.stage {
            SubmitStage::Clearing => {
                if let Some(desired) = &self.submit.attendance_type_code {
                    if let Some(report) = find_conflict(&self.context, desired.as_str()) {
                        let plan = plan_delete(&self.context, &report, true);
                        return SubmitAction::Delete { report, plan };
                    }
                }
                assert(next_conflict(self@) is None);
                if let Some(message) = &self.refused {
                    if !self.deleted {
                        return SubmitAction::Finish(Err(message.clone()));
                    }
                }
                SubmitAction::Identify
            },
            SubmitStage::Saving { user_id, short_employee_id } => {
                let object_id = calendar_submit_object_id(&self.context);
                let plan = plan_replay(
                    self.context.url.as_str(),
                    &self.submit,
                    object_id.as_str(),
                    "שמירה",
                    true,
                    &self.context.fields,
                    SubmitPage::Calendar,
                    user_id.as_str(),
                    *short_employee_id,
                );
                SubmitAction::Save(plan)
            },
            SubmitStage::Reloading => SubmitAction::Reload,
            SubmitStage::Finished(outcome) => match outcome {
                Ok(preview) => SubmitAction::Finish(Ok(preview.copy())),
                Err(message) => SubmitAction::Finish(Err(message.clone())),
            },
        }
    }

    fn finish(self, outcome: Result<SubmitPreview, String>) -> (flow: SubmitFlow)
        ensures
            flow@ == finished(self@, outcome_view(outcome)),
    {
        SubmitFlow {
            submit: self.submit,
            context: self.context,
            steps: self.steps,
            refused: self.refused,
            deleted: self.deleted,
            stage: SubmitStage::Finished(outcome),
        }
    }

    /// Takes in the answer to the deletion of a report.
    pub fn deleted(self, report: &CalendarExistingReport, reply: Result<String, String>) -> (flow:
        SubmitFlow)
        requires
            self@.stage is Clearing,
        ensures
            flow@ == after_delete(self@, report@, reply_view(reply)),
    {
        let response = match reply {
            Ok(response) => response,
            Err(_) => {
                let message = dated("delete calendar attendance row for ", self.context.date);
                return self.finish(Err(message));
            },
        };
        let plan = plan_delete(&self.context, report, true);
        let ghost before = step_views(self.steps@);
        let ghost view = self@;
        let label = if self.refused.is_some() {
            "delete the conflicting calendar row after Hilan rejected the first submit"
        } else {
            "delete the conflicting calendar row before applying the requested attendance"
        };
        let SubmitFlow { submit, context, steps, refused, deleted: before_deleted, stage } = self;
        let kept = CalendarSubmitContext {
            url: context.url.clone(),
            date: context.date,
            employee_id: context.employee_id.clone(),
            fields: context.fields.copy(),
            reports: copy_reports(&context.reports),
        };
        match delete_answered(context, report, response.as_str()) {
            Ok(context) => {
                let mut steps = steps;
                steps.push((label.to_owned(), plan.preview));
                assert(step_views(steps@) == before.push((label@, plan.preview@)));
                SubmitFlow { submit, context, steps, refused, deleted: true, stage }
            },
            Err(message) => SubmitFlow {
                submit,
                context: kept,
                steps,
                refused,
                deleted: before_deleted,
                stage: SubmitStage::Finished(Err(message)),
            },
        }
    }

    /// Takes in who is signed in.
    pub fn identified(self, reply: Result<(String, u32), String>) -> (flow: SubmitFlow)
        requires
            self@.stage is Clearing,
        ensures
            flow@ == after_identify(self@, identity_view(reply)),
    {
        match reply {
            Ok((user_id, short_employee_id)) => SubmitFlow {
                submit: self.submit,
                context: self.context,
                steps: self.steps,
                refused: self.refused,
                deleted: self.deleted,
                stage: SubmitStage::Saving { user_id, short_employee_id },
            },
            Err(_) => self.finish(Err("bootstrap employee info for form replay".to_owned())),
        }
    }

    /// Takes in the answer to the save.
    pub fn saved(self, reply: Result<String, String>) -> (flow: SubmitFlow)
        requires
            self@.stage is Saving,
        ensures
            self@.stage matches StageView::Saving { user_id, short_employee_id } && flow@
                == after_save(self@, user_id, short_employee_id, reply_view(reply)),
    {
        let error: Option<String> = match reply {
            Ok(response) => check_submit_response(response.as_str()),
            Err(_) => Some(dated("submit attendance form for ", self.submit.date)),
        };
        match error {
            None => {
                let action = self.next_action();
                match action {
                    SubmitAction::Save(plan) => {
                        let ghost view = self@;
                        let SubmitFlow { submit, context, steps, refused, deleted, stage } = self;
                        let earlier = copy_steps(&steps);
                        let preview = compose_submit_preview_steps(
                            plan.preview,
                            earlier,
                            "apply the requested attendance via the calendar page",
                        );
                        SubmitFlow {
                            submit,
                            context,
                            steps,
                            refused,
                            deleted,
                            stage: SubmitStage::Finished(Ok(preview)),
                        }
                    },
                    _ => self,
                }
            },
            Some(message) => {
                if self.refused.is_none() && !self.deleted && contains_text(
                    message.as_str(),
                    "קיים דיווח",
                ) && self.submit.attendance_type_code.is_some() {
                    SubmitFlow {
                        submit: self.submit,
                        context: self.context,
                        steps: self.steps,
                        refused: Some(message),
                        deleted: self.deleted,
                        stage: SubmitStage::Reloading,
                    }
                } else {
                    self.finish(Err(message))
                }
            },
        }
    }

    /// Takes in the day, loaded again.
    pub fn reloaded(self, reply: Result<CalendarSubmitContext, String>) -> (flow: SubmitFlow)
        requires
            self@.stage is Reloading,
        ensures
            flow@ == after_reload(self@, context_view(reply)),
    {
        match reply {
            Ok(context) => SubmitFlow {
                submit: self.submit,
                context,
                steps: self.steps,
                refused: self.refused,
                deleted: false,
                stage: SubmitStage::Clearing,
            },
            Err(_) => {
                let message = dated(
                    "reload calendar submit context after conflict for ",
                    self.submit.date,
                );
                self.finish(Err(message))
            },
        }
    }
}

/// A copy of labelled writes.
pub fn copy_steps(steps: &Vec<(String, SubmitPreview)>) -> (copy: Vec<(String, SubmitPreview)>)
    ensures
        step_views(copy@) == step_views(steps@),
{
    let mut copy: Vec<(String, SubmitPreview)> = Vec::new();
    let mut i: usize = 0;
    while i < steps.len()
        invariant
            i <= steps.len(),
            copy.len() == i,
            forall|j: int|
                0 <= j < i ==> (#[trigger] copy@[j]).0@ == steps@[j].0@ && copy@[j].1@
                    == steps@[j].1@,
        decreases steps.len() - i,
    {
        copy.push((steps[i].0.clone(), steps[i].1.copy()));
        i = i + 1;
    }
    assert(step_views(copy@) == step_views(steps@));
    copy
}

/// A copy of some reports.
pub fn copy_reports(reports: &Vec<CalendarExistingReport>) -> (copy: Vec<CalendarExistingReport>)
    ensures
        report_views(copy@) == report_views(reports@),
{
    let mut copy: Vec<CalendarExistingReport> = Vec::new();
    let mut i: usize = 0;
    while i < reports.len()
        invariant
            i <= reports.len(),
            copy.len() == i,
            forall|j: int| 0 <= j < i ==> (#[trigger] copy@[j])@ == reports@[j]@,
        decreases reports.len() - i,
    {
        copy.push(reports[i].copy());
        i = i + 1;
    }
    assert(report_views(copy@) == report_views(reports@));
    copy
}

} // verus!
