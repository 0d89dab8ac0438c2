//! Fetching salaries step by step: the service is asked first, and where it
//! does not help the salary page is read.

use crate::client::{
    contains_salary_rows, data_rows, date_picker_state, given_salaries, gross_label, last_two,
    opt_pair, paired_salaries, parse_salary_summary, picker_state, salary_form, salary_month_range,
    salary_months, salary_page_form, salary_row, salary_rows, salary_summary_from_initial_data,
    salary_views, selected_months, SalaryInitialData, SalaryView,
};
use crate::date::{is_date, CalendarDate, NaiveDate};
use crate::dom::page_of;
use crate::fields::{has_key, pair_texts, FormFields};
use crate::hr_core::SalarySummary;
use crate::months::{date_views, month_shifted};
use crate::text::{opt_text, texts};
use vstd::prelude::*;

verus! {

/// Salaries as mathematics.
pub struct SummaryView {
    pub label: Seq<char>,
    pub entries: Seq<SalaryView>,
    pub latest_change: Option<(nat, nat)>,
}

impl View for SalarySummary {
    type V = SummaryView;

    open spec fn view(&self) -> SummaryView {
        SummaryView {
            label: self.label@,
            entries: salary_views(self.entries@),
            latest_change: opt_pair(self.latest_change),
        }
    }
}

/// The salaries with this label and these entries.
pub open spec fn summary_of(label: Seq<char>, entries: Seq<SalaryView>) -> SummaryView {
    SummaryView { label, entries, latest_change: last_two(entries) }
}

/// The salaries that the service gives, where it gives them.
pub open spec fn service_summary(data: SalaryInitialData, months: nat) -> Option<SummaryView> {
    match given_salaries(
        selected_months(texts(data.selected_dates@), opt_text(data.selected_single_date)),
        data_rows(data.table_data@),
        months,
    ) {
        Ok(entries) => Some(summary_of(gross_label(data.table_columns@), entries)),
        Err(_) => None,
    }
}

/// The salaries of some months that a page shows, or why it shows none.
pub open spec fn page_summary(html: Seq<char>, months: Seq<CalendarDate>) -> Result<
    SummaryView,
    Seq<char>,
> {
    match salary_row(salary_rows(page_of(html)), months.len()) {
        Some(row) => Ok(summary_of(row.0, paired_salaries(months, row.1))),
        None => Err("Could not find a salary row in the summary table"@),
    }
}

/// The view of an outcome.
pub open spec fn summary_view(outcome: Result<SalarySummary, String>) -> Result<
    SummaryView,
    Seq<char>,
> {
    match outcome {
        Ok(summary) => Ok(summary@),
        Err(message) => Err(message@),
    }
}

/// Where a fetch of salaries stands.
pub enum SalaryStage {
    /// The service is to be asked.
    Asking,
    /// The service did not help, and the months that the page is to show are
    /// to be settled.
    Falling,
    /// The page is to be sent the months and nothing else.
    Posting,
    /// The page is to be loaded.
    Loading,
    /// The page is to be sent its own fields and the months.
    Replaying(FormFields),
    /// Done.
    Finished(Result<SalarySummary, String>),
}

/// Where a fetch of salaries stands, as mathematics.
pub enum SalaryStageView {
    Asking,
    Falling,
    Posting,
    Loading,
    Replaying(Map<Seq<char>, Seq<char>>),
    Finished(Result<SummaryView, Seq<char>>),
}

/// A fetch of the salaries of some months.
pub struct SalaryFetch {
    pub count: u32,
    pub months: Vec<NaiveDate>,
    pub stage: SalaryStage,
}

/// A fetch of salaries, as mathematics.
pub struct FetchView {
    pub count: nat,
    pub months: Seq<CalendarDate>,
    pub stage: SalaryStageView,
}

impl View for SalaryFetch {
    type V = FetchView;

    open spec fn view(&self) -> FetchView {
        FetchView {
            count: self.count as nat,
            months: date_views(self.months@),
            stage: match self.stage {
                SalaryStage::Asking => SalaryStageView::Asking,
                SalaryStage::Falling => SalaryStageView::Falling,
                SalaryStage::Posting => SalaryStageView::Posting,
                SalaryStage::Loading => SalaryStageView::Loading,
                SalaryStage::Replaying(fields) => SalaryStageView::Replaying(fields@),
                SalaryStage::Finished(outcome) => SalaryStageView::Finished(summary_view(outcome)),
            },
        }
    }
}

/// What a fetch of salaries does next.
pub enum SalaryAction {
    /// Ask the service.
    AskService,
    /// Settle the months that the page is to show.
    FallBack,
    /// Send the salary page these fields.
    Post(Vec<(String, String)>),
    /// Load the salary page.
    Load,
    /// Nothing: it is done.
    Finish,
}

/// What a fetch of salaries does next, as mathematics.
pub enum ActionView {
    AskService,
    FallBack,
    Post(Seq<(Seq<char>, Seq<char>)>),
    Load,
    Finish,
}

impl View for SalaryAction {
    type V = ActionView;

    open spec fn view(&self) -> ActionView {
        match self {
            SalaryAction::AskService => ActionView::AskService,
            SalaryAction::FallBack => ActionView::FallBack,
            SalaryAction::Post(form) => ActionView::Post(pair_texts(form@)),
            SalaryAction::Load => ActionView::Load,
            SalaryAction::Finish => ActionView::Finish,
        }
    }
}

/// How the page is told the months of a fetch.
pub open spec fn months_told(months: Seq<CalendarDate>) -> Seq<char> {
    if months.len() == 0 {
        ""@
    } else {
        picker_state(months[0], months.last())
    }
}

/// What a fetch of salaries does next.
pub open spec fn next_step(fetch: FetchView) -> ActionView {
    match fetch.stage {
        SalaryStageView::Asking => ActionView::AskService,
        SalaryStageView::Falling => ActionView::FallBack,
        SalaryStageView::Posting => ActionView::Post(
            salary_form(Map::empty(), months_told(fetch.months)),
        ),
        SalaryStageView::Loading => ActionView::Load,
        SalaryStageView::Replaying(fields) => ActionView::Post(
            salary_form(fields, months_told(fetch.months)),
        ),
        SalaryStageView::Finished(_) => ActionView::Finish,
    }
}

/// The fetch at another stage.
pub open spec fn at_stage(fetch: FetchView, stage: SalaryStageView) -> FetchView {
    FetchView { stage, ..fetch }
}

/// The fetch once its salaries are read from a page.
pub open spec fn read_from(fetch: FetchView, html: Seq<char>) -> FetchView {
    at_stage(fetch, SalaryStageView::Finished(page_summary(html, fetch.months)))
}

/// The fetch after the service's answer: done where that gives the salaries,
/// else the page is tried.
pub open spec fn after_service(fetch: FetchView, summary: Option<SummaryView>) -> FetchView {
    match summary {
        Some(summary) => at_stage(fetch, SalaryStageView::Finished(Ok(summary))),
        None => at_stage(fetch, SalaryStageView::Falling),
    }
}

/// The fetch once the months that the page is to show are settled: the last
/// before today's.
pub open spec fn after_fall(fetch: FetchView, today: CalendarDate) -> FetchView {
    FetchView {
        months: salary_months(today, fetch.count),
        stage: SalaryStageView::Posting,
        ..fetch
    }
}

/// The fetch after the page's answer.
pub open spec fn after_post(fetch: FetchView, reply: Result<Seq<char>, Seq<char>>) -> FetchView {
    match reply {
        Ok(html) => if fetch.stage is Posting && salary_rows(page_of(html)).len() == 0 {
            at_stage(fetch, SalaryStageView::Loading)
        } else {
            read_from(fetch, html)
        },
        Err(message) => at_stage(fetch, SalaryStageView::Finished(Err(message))),
    }
}

/// The fetch after the page was loaded.
pub open spec fn after_load(
    fetch: FetchView,
    reply: Result<(Seq<char>, Map<Seq<char>, Seq<char>>), Seq<char>>,
) -> FetchView {
    match reply {
        Ok((html, fields)) => if salary_rows(page_of(html)).len() > 0 {
            read_from(fetch, html)
        } else if fields.dom() == Set::<Seq<char>>::empty() {
            at_stage(
                fetch,
                SalaryStageView::Finished(
                    Err(
                        "Salary summary page did not return a salary table or ASP.NET hidden fields"@,
                    ),
                ),
            )
        } else {
            at_stage(fetch, SalaryStageView::Replaying(fields))
        },
        Err(_) => at_stage(
            fetch,
            SalaryStageView::Finished(Err("GET salary summary page for form fields"@)),
        ),
    }
}

/// The view of a loaded page.
pub open spec fn loaded_view(reply: Result<(String, FormFields), String>) -> Result<
    (Seq<char>, Map<Seq<char>, Seq<char>>),
    Seq<char>,
> {
    match reply {
        Ok((html, fields)) => Ok((html@, fields@)),
        Err(message) => Err(message@),
    }
}

/// How many steps a fetch can still take.
pub open spec fn steps_left(fetch: FetchView) -> int {
    match fetch.stage {
        SalaryStageView::Asking => 5,
        SalaryStageView::Falling => 4,
        SalaryStageView::Posting => 3,
        SalaryStageView::Loading => 2,
        SalaryStageView::Replaying(_) => 1,
        SalaryStageView::Finished(_) => 0,
    }
}

/// A fetch of salaries ends: every step leaves fewer to take.
pub proof fn fetching_salaries_ends(
    fetch: FetchView,
    summary: Option<SummaryView>,
    today: CalendarDate,
    reply: Result<Seq<char>, Seq<char>>,
    loaded: Result<(Seq<char>, Map<Seq<char>, Seq<char>>), Seq<char>>,
)
    ensures
        fetch.stage is Asking ==> steps_left(after_service(fetch, summary)) < steps_left(
            fetch,
        ),
        fetch.stage is Falling ==> steps_left(after_fall(fetch, today)) < steps_left(fetch),
        fetch.stage is Posting || fetch.stage is Replaying ==> steps_left(
            after_post(fetch, reply),
        ) < steps_left(fetch),
        fetch.stage is Loading ==> steps_left(after_load(fetch, loaded)) < steps_left(fetch),
        steps_left(fetch) == 0 <==> next_step(fetch) is Finish,
{
}

impl SalaryFetch {
    /// A fetch of the salaries of the last `months` months.
    pub fn start(months: u32) -> (fetch: Result<SalaryFetch, String>)
        ensures
            match fetch {
                Ok(fetch) => months > 0 && fetch@ == (FetchView {
                    count: months as nat,
                    months: seq![],
                    stage: SalaryStageView::Asking,
                }),
                Err(message) => months == 0 && message@ == "months must be greater than 0"@,
            },
    {
        if months == 0 {
            return Err("months must be greater than 0".to_owned());
        }
        let fetch = SalaryFetch { count: months, months: Vec::new(), stage: SalaryStage::Asking };
        assert(fetch@.months == Seq::<CalendarDate>::empty());
        Ok(fetch)
    }

    /// Settles the months that the page is to show, the last before today's.
    pub fn fell_back(self, today: NaiveDate) -> (fetch: SalaryFetch)
        requires
            self@.stage is Falling,
            self@.count > 0,
            is_date(month_shifted(today@, -1)),
            is_date(month_shifted(today@, -self@.count)),
        ensures
            fetch@ == after_fall(self@, today@),
    {
        SalaryFetch {
            count: self.count,
            months: salary_month_range(today, self.count),
            stage: SalaryStage::Posting,
        }
    }

    fn told(&self) -> (state: String)
        ensures
            state@ == months_told(self@.months),
    {
        assert(self@.months.len() == self.months@.len());
        if self.months.len() == 0 {
            return "".to_owned();
        }
        let last: usize = self.months.len() - 1;
        assert(self@.months[0] == self.months@[0]@);
        assert(self@.months.last() == self.months@[last as int]@);
        date_picker_state(self.months[0], self.months[last])
    }

    /// What is to be done next.
    pub fn next_action(&self) -> (action: SalaryAction)
        ensures
            action@ == next_step(self@),
    {
        match &self.stage {
            SalaryStage::Asking => SalaryAction::AskService,
            SalaryStage::Falling => SalaryAction::FallBack,
            SalaryStage::Posting => {
                let none = FormFields::new();
                SalaryAction::Post(salary_page_form(&none, self.told().as_str()))
            },
            SalaryStage::Loading => SalaryAction::Load,
            SalaryStage::Replaying(fields) => SalaryAction::Post(
                salary_page_form(fields, self.told().as_str()),
            ),
            SalaryStage::Finished(_) => SalaryAction::Finish,
        }
    }

    fn read_page(self, html: &str) -> (fetch: SalaryFetch)
        ensures
            fetch@ == read_from(self@, html@),
    {
        let outcome = parse_salary_summary(html, &self.months);
        assert(self@.months.len() == self.months@.len());
        assert(summary_view(outcome) == page_summary(html@, self@.months));
        SalaryFetch {
            count: self.count,
            months: self.months,
            stage: SalaryStage::Finished(outcome),
        }
    }

    /// Takes in the service's answer.
    pub fn service_answered(self, reply: Result<SalaryInitialData, String>) -> (fetch: SalaryFetch)
        requires
            self@.stage is Asking,
        ensures
            fetch@ == after_service(
                self@,
                match reply {
                    Ok(data) => service_summary(data, self@.count),
                    Err(_) => None,
                },
            ),
    {
        if let Ok(data) = reply {
            if let Ok(summary) = salary_summary_from_initial_data(&data, self.count) {
                return SalaryFetch {
                    count: self.count,
                    months: self.months,
                    stage: SalaryStage::Finished(Ok(summary)),
                };
            }
        }
        SalaryFetch { count: self.count, months: self.months, stage: SalaryStage::Falling }
    }

    /// Takes in the page's answer.
    pub fn posted(self, reply: Result<String, String>) -> (fetch: SalaryFetch)
        requires
            self@.stage is Posting || self@.stage is Replaying,
        ensures
            fetch@ == after_post(
                self@,
                match reply {
                    Ok(html) => Ok(html@),
                    Err(message) => Err(message@),
                },
            ),
    {
        match reply {
            Ok(html) => {
                let first = match self.stage {
                    SalaryStage::Posting => true,
                    _ => false,
                };
                if first && !contains_salary_rows(html.as_str()) {
                    SalaryFetch {
                        count: self.count,
                        months: self.months,
                        stage: SalaryStage::Loading,
                    }
                } else {
                    self.read_page(html.as_str())
                }
            },
            Err(message) => SalaryFetch {
                count: self.count,
                months: self.months,
                stage: SalaryStage::Finished(Err(message)),
            },
        }
    }

    /// Takes in the page that was loaded.
    pub fn loaded(self, reply: Result<(String, FormFields), String>) -> (fetch: SalaryFetch)
        requires
            self@.stage is Loading,
        ensures
            fetch@ == after_load(self@, loaded_view(reply)),
    {
        match reply {
            Ok((html, fields)) => {
                if contains_salary_rows(html.as_str()) {
                    return self.read_page(html.as_str());
                }
                proof {
                    use_type_invariant(&fields);
                    fields.pairs_are_the_map();
                }
                let empty = fields.len() == 0;
                assert(empty == (fields@.dom() == Set::<Seq<char>>::empty())) by {
                    if empty {
                        assert forall|key: Seq<char>| !fields@.dom().contains(key) by {
                            if fields@.dom().contains(key) {
                                assert(has_key(fields.pairs(), key));
                            }
                        }
                        assert(fields@.dom() =~= Set::<Seq<char>>::empty());
                    } else {
                        assert(fields@.dom().contains(fields.pairs()[0].0));
                    }
                }
                if empty {
                    return SalaryFetch {
                        count: self.count,
                        months: self.months,
                        stage: SalaryStage::Finished(
                            Err(
                                "Salary summary page did not return a salary table or ASP.NET hidden fields".to_owned(),
                            ),
                        ),
                    };
                }
                SalaryFetch {
                    count: self.count,
                    months: self.months,
                    stage: SalaryStage::Replaying(fields),
                }
            },
            Err(_) => SalaryFetch {
                count: self.count,
                months: self.months,
                stage: SalaryStage::Finished(
                    Err("GET salary summary page for form fields".to_owned()),
                ),
            },
        }
    }
}

} // verus!
