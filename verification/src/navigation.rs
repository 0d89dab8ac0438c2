//! Bringing the calendar page to a month: which request comes next, and what
//! its answer changes.

use crate::date::{is_after, is_date, month_text, CalendarDate, NaiveDate};
use crate::dom::page_of;
use crate::fields::{pair_texts, FormFields};
use crate::forms::{page_fields, parse_aspx_form_fields};
use crate::months::{
    calendar_selected_day_value, displayed_month, first_of_month, month_field, month_field_value,
    month_number, month_shifted, month_shown, month_start, selected_day, shift_month,
};
use crate::text::reply_view;
use vstd::prelude::*;

verus! {

/// How many single steps are taken at most.
pub const MAX_NAV_STEPS: u32 = 24;

/// What has been tried to get to the month.
#[derive(Debug, Clone, Copy, PartialEq, Eq, Structural)]
pub enum NavStage {
    /// Nothing.
    Refresh,
    /// Setting the month and refreshing the period.
    DropDown,
    /// Also choosing the month in the list, and then this many single steps.
    Steps(u32),
}

/// On the way to a month.
pub struct MonthNavigation {
    pub(crate) requested: NaiveDate,
    pub(crate) current: NaiveDate,
    pub(crate) html: String,
    pub(crate) fields: FormFields,
    pub(crate) stage: NavStage,
}

/// On the way to a month, as mathematics.
pub struct NavView {
    pub requested: CalendarDate,
    pub current: CalendarDate,
    pub html: Seq<char>,
    pub fields: Map<Seq<char>, Seq<char>>,
    pub stage: NavStage,
}

impl View for MonthNavigation {
    type V = NavView;

    open(crate) spec fn view(&self) -> NavView {
        NavView {
            requested: self.requested@,
            current: self.current@,
            html: self.html@,
            fields: self.fields@,
            stage: self.stage,
        }
    }
}

/// What is to be done next.
pub enum NavAction {
    /// Post the page's form with these overrides and this button.
    PressButton { overrides: Vec<(String, String)>, name: String, value: String },
    /// Post the page's form with these overrides and this event.
    RaiseEvent { overrides: Vec<(String, String)>, target: String, argument: String },
    /// Nothing: the page shows the month.
    Arrived,
    /// Nothing: the month cannot be reached, for this reason.
    Stuck(String),
}

/// What is to be done next, as mathematics.
pub enum ActionView {
    PressButton { overrides: Seq<(Seq<char>, Seq<char>)>, name: Seq<char>, value: Seq<char> },
    RaiseEvent { overrides: Seq<(Seq<char>, Seq<char>)>, target: Seq<char>, argument: Seq<char> },
    Arrived,
    Stuck(Seq<char>),
}

impl View for NavAction {
    type V = ActionView;

    open spec fn view(&self) -> ActionView {
        match self {
            NavAction::PressButton { overrides, name, value } => ActionView::PressButton {
                overrides: pair_texts(overrides@),
                name: name@,
                value: value@,
            },
            NavAction::RaiseEvent { overrides, target, argument } => ActionView::RaiseEvent {
                overrides: pair_texts(overrides@),
                target: target@,
                argument: argument@,
            },
            NavAction::Arrived => ActionView::Arrived,
            NavAction::Stuck(message) => ActionView::Stuck(message@),
        }
    }
}

/// The overrides that ask for a month, whose first day is selected.
pub open spec fn month_overrides(month: CalendarDate) -> Seq<(Seq<char>, Seq<char>)> {
    seq![
        ("__calendarSelectedDays"@, selected_day(month)),
        ("ctl00$mp$currentMonth"@, month_field(month)),
    ]
}

/// Whether the requested month is later than the one shown.
pub open spec fn goes_forward(view: NavView) -> bool {
    is_after(view.requested, view.current)
}

/// The month that a single step leads to.
pub open spec fn step_month(view: NavView) -> CalendarDate {
    month_shifted(
        view.current,
        if goes_forward(view) {
            1
        } else {
            -1
        },
    )
}

/// The event of a single step.
pub open spec fn step_target(view: NavView) -> Seq<char> {
    if goes_forward(view) {
        "ctl00_mp_calendar_next"@
    } else {
        "ctl00_mp_calendar_prev"@
    }
}

/// What is to be done next: nothing where the page shows the month; else
/// refresh the period with the month set, then choose the month in the list,
/// then go month by month.
pub open spec fn next_action(view: NavView) -> ActionView {
    if view.current == view.requested {
        ActionView::Arrived
    } else {
        match view.stage {
            NavStage::Refresh => ActionView::PressButton {
                overrides: month_overrides(view.requested),
                name: "ctl00$mp$RefreshPeriod"@,
                value: "דיווח תקופתי"@,
            },
            NavStage::DropDown => ActionView::RaiseEvent {
                overrides: month_overrides(view.requested),
                target: "ctl00$mp$calendar_monthChanged"@,
                argument: month_field(view.requested),
            },
            NavStage::Steps(taken) => if taken >= MAX_NAV_STEPS {
                ActionView::Stuck(
                    "calendar navigation exceeded 24 steps (stuck at "@ + month_text(view.current)
                        + ")"@,
                )
            } else {
                ActionView::RaiseEvent {
                    overrides: month_overrides(step_month(view)),
                    target: step_target(view),
                    argument: ""@,
                }
            },
        }
    }
}

/// The way with the page of an answer in place of the one before.
pub open spec fn on_page(view: NavView, html: Seq<char>, month: CalendarDate, stage: NavStage) -> NavView {
    NavView {
        requested: view.requested,
        current: month,
        html,
        fields: page_fields(page_of(html)),
        stage,
    }
}

/// The stage after the one in which a request is sent.
pub open spec fn stage_after(stage: NavStage) -> NavStage {
    match stage {
        NavStage::Refresh => NavStage::DropDown,
        NavStage::DropDown => NavStage::Steps(0),
        NavStage::Steps(taken) => NavStage::Steps((taken + 1) as u32),
    }
}

/// The way after the answer to the request that was sent. In the first two
/// stages a request that fails, or a page without a month, changes nothing
/// but the stage; in single steps it ends the way, as does a page that still
/// shows the same month.
pub open spec fn answered(view: NavView, reply: Result<Seq<char>, Seq<char>>) -> Result<
    NavView,
    Seq<char>,
> {
    let stage = stage_after(view.stage);
    if view.stage is Steps {
        match reply {
            Ok(html) => match month_shown(page_fields(page_of(html))) {
                Ok(month) => if month == view.current {
                    Err(
                        "calendar navigation via "@ + step_target(view)
                            + " did not change displayed month from "@ + month_text(view.current),
                    )
                } else {
                    Ok(on_page(view, html, month, stage))
                },
                Err(message) => Err(message),
            },
            Err(_) => Err(
                "navigate attendance calendar from "@ + month_text(view.current) + " to "@
                    + month_text(step_month(view)),
            ),
        }
    } else {
        match reply {
            Ok(html) => match month_shown(page_fields(page_of(html))) {
                Ok(month) => Ok(on_page(view, html, month, stage)),
                Err(_) => Ok(NavView { stage, ..view }),
            },
            Err(_) => Ok(NavView { stage, ..view }),
        }
    }
}

/// Whether a way is one: both months are given by their first days, and no
/// more steps were taken than are allowed.
pub open spec fn on_the_way(view: NavView) -> bool {
    &&& is_date(view.requested)
    &&& is_date(view.current)
    &&& view.requested.day == 1
    &&& view.current.day == 1
    &&& (view.stage matches NavStage::Steps(taken) ==> taken <= MAX_NAV_STEPS)
}

/// How many requests can still be sent.
pub open spec fn requests_left(view: NavView) -> int {
    match view.stage {
        NavStage::Refresh => 26,
        NavStage::DropDown => 25,
        NavStage::Steps(taken) => MAX_NAV_STEPS - taken,
    }
}

/// The way ends: every answer leaves fewer requests to be sent, and with none
/// left the way has arrived or is stuck. So no more than 26 are sent.
pub proof fn navigation_ends(view: NavView, reply: Result<Seq<char>, Seq<char>>)
    requires
        on_the_way(view),
        next_action(view) is PressButton || next_action(view) is RaiseEvent,
    ensures
        requests_left(view) > 0,
        requests_left(view) <= 26,
        answered(view, reply) matches Ok(next) ==> requests_left(next) == requests_left(view) - 1,
{
}

/// Whether the month that a way is at is the one that its page shows.
pub open spec fn follows_its_page(view: NavView) -> bool {
    month_shown(view.fields) == Ok::<CalendarDate, Seq<char>>(view.current)
}

/// The month that a way is at stays the one that its page shows, so that it
/// has arrived exactly with a page that shows the requested month.
pub proof fn arrival_is_at_the_requested_month(
    view: NavView,
    reply: Result<Seq<char>, Seq<char>>,
)
    ensures
        follows_its_page(view) && answered(view, reply) is Ok ==> follows_its_page(
            answered(view, reply)->Ok_0,
        ),
        follows_its_page(view) ==> (next_action(view) is Arrived <==> month_shown(view.fields)
            == Ok::<CalendarDate, Seq<char>>(view.requested)),
{
}

fn asking_for(month: NaiveDate) -> (overrides: Vec<(String, String)>)
    ensures
        pair_texts(overrides@) == month_overrides(month@),
{
    let mut overrides: Vec<(String, String)> = Vec::new();
    overrides.push(("__calendarSelectedDays".to_owned(), calendar_selected_day_value(month)));
    overrides.push(("ctl00$mp$currentMonth".to_owned(), month_field_value(month)));
    assert(pair_texts(overrides@) == month_overrides(month@));
    overrides
}

proof fn step_stays_in_range(view: NavView)
    requires
        on_the_way(view),
        view.current != view.requested,
    ensures
        is_date(step_month(view)),
{
    let number = month_number(view.current);
    let goal = month_number(view.requested);
    assert((view.current.year * 12 + (view.current.month - 1)) / 12 == view.current.year);
    if goes_forward(view) {
        assert(number + 1 <= goal);
        assert((number + 1) / 12 <= goal / 12);
        assert((view.requested.year * 12 + (view.requested.month - 1)) / 12 == view.requested.year);
        assert(number / 12 <= (number + 1) / 12);
    } else {
        assert(goal <= number - 1);
        assert(goal / 12 <= (number - 1) / 12);
        assert((view.requested.year * 12 + (view.requested.month - 1)) / 12 == view.requested.year);
        assert((number - 1) / 12 <= number / 12);
    }
}

impl MonthNavigation {
    #[verifier::type_invariant]
    pub open(crate) spec fn holds(self) -> bool {
        on_the_way(self@)
    }

    /// Sets out from a calendar page to a month.
    pub fn start(html: String, fields: FormFields, requested: NaiveDate) -> (way: Result<
        MonthNavigation,
        String,
    >)
        ensures
            match way {
                Ok(way) => month_shown(fields@) == Ok::<CalendarDate, Seq<char>>(way@.current)
                    && way@ == (NavView {
                    requested: first_of_month(requested@),
                    current: way@.current,
                    html: html@,
                    fields: fields@,
                    stage: NavStage::Refresh,
                }) && follows_its_page(way@) && on_the_way(way@),
                Err(message) => month_shown(fields@) == Err::<CalendarDate, Seq<char>>(message@),
            },
    {
        match displayed_month(&fields) {
            Ok(current) => {
                let requested = month_start(requested);
                Ok(MonthNavigation { requested, current, html, fields, stage: NavStage::Refresh })
            },
            Err(message) => Err(message),
        }
    }

    /// The page that the way is at, and its fields.
    pub fn into_page(self) -> (page: (String, FormFields))
        ensures
            page.0@ == self@.html,
            page.1@ == self@.fields,
    {
        (self.html, self.fields)
    }

    /// The fields of the page that the way is at.
    pub fn page_fields(&self) -> (fields: &FormFields)
        ensures
            fields@ == self@.fields,
    {
        &self.fields
    }

    /// What is to be done next.
    pub fn next_action(&self) -> (action: NavAction)
        ensures
            action@ == next_action(self@),
    {
        proof {
            use_type_invariant(self);
        }
        if self.current.same_as(self.requested) {
            return NavAction::Arrived;
        }
        match self.stage {
            NavStage::Refresh => NavAction::PressButton {
                overrides: asking_for(self.requested),
                name: "ctl00$mp$RefreshPeriod".to_owned(),
                value: "דיווח תקופתי".to_owned(),
            },
            NavStage::DropDown => NavAction::RaiseEvent {
                overrides: asking_for(self.requested),
                target: "ctl00$mp$calendar_monthChanged".to_owned(),
                argument: month_field_value(self.requested),
            },
            NavStage::Steps(taken) => {
                if taken >= MAX_NAV_STEPS {
                    let mut message = "calendar navigation exceeded 24 steps (stuck at ".to_owned();
                    let month = self.current.year_month();
                    message.append(month.as_str());
                    message.append(")");
                    NavAction::Stuck(message)
                } else {
                    proof {
                        step_stays_in_range(self@);
                    }
                    let forward = self.requested.is_after(self.current);
                    let month = shift_month(
                        self.current,
                        if forward {
                            1
                        } else {
                            -1
                        },
                    );
                    NavAction::RaiseEvent {
                        overrides: asking_for(month),
                        target: if forward {
                            "ctl00_mp_calendar_next".to_owned()
                        } else {
                            "ctl00_mp_calendar_prev".to_owned()
                        },
                        argument: "".to_owned(),
                    }
                }
            },
        }
    }

    /// Takes in the answer to the request that `next_action` asked for.
    pub fn answered(self, reply: Result<String, String>) -> (way: Result<MonthNavigation, String>)
        requires
            next_action(self@) is PressButton || next_action(self@) is RaiseEvent,
        ensures
            match way {
                Ok(way) => answered(self@, reply_view(reply)) == Ok::<NavView, Seq<char>>(way@)
                    && on_the_way(way@),
                Err(message) => answered(self@, reply_view(reply)) == Err::<NavView, Seq<char>>(
                    message@,
                ),
            },
    {
        proof {
            use_type_invariant(&self);
        }
        let ghost view = self@;
        match self.stage {
            NavStage::Steps(taken) => {
                proof {
                    step_stays_in_range(view);
                }
                let forward = self.requested.is_after(self.current);
                let shown = self.current.year_month();
                let html = match reply {
                    Ok(html) => html,
                    Err(_) => {
                        let goal = shift_month(
                            self.current,
                            if forward {
                                1
                            } else {
                                -1
                            },
                        );
                        let goal = goal.year_month();
                        let mut message = "navigate attendance calendar from ".to_owned();
                        message.append(shown.as_str());
                        message.append(" to ");
                        message.append(goal.as_str());
                        return Err(message);
                    },
                };
                let fields = parse_aspx_form_fields(html.as_str());
                let month = match displayed_month(&fields) {
                    Ok(month) => month,
                    Err(message) => {
                        return Err(message);
                    },
                };
                if month.same_as(self.current) {
                    let mut message = "calendar navigation via ".to_owned();
                    message.append(
                        if forward {
                            "ctl00_mp_calendar_next"
                        } else {
                            "ctl00_mp_calendar_prev"
                        },
                    );
                    message.append(" did not change displayed month from ");
                    message.append(shown.as_str());
                    return Err(message);
                }
                Ok(
                    MonthNavigation {
                        requested: self.requested,
                        current: month,
                        html,
                        fields,
                        stage: NavStage::Steps(taken + 1),
                    },
                )
            },
            _ => {
                let stage = match self.stage {
                    NavStage::Refresh => NavStage::DropDown,
                    _ => NavStage::Steps(0),
                };
                if let Ok(html) = reply {
                    let fields = parse_aspx_form_fields(html.as_str());
                    if let Ok(month) = displayed_month(&fields) {
                        return Ok(
                            MonthNavigation {
                                requested: self.requested,
                                current: month,
                                html,
                                fields,
                                stage,
                            },
                        );
                    }
                }
                Ok(
                    MonthNavigation {
                        requested: self.requested,
                        current: self.current,
                        html: self.html,
                        fields: self.fields,
                        stage,
                    },
                )
            },
        }
    }
}

} // verus!
