//! The JSON answers of the service: who is signed in, how many tasks wait,
//! which absences there are, and which days have errors.

use crate::date::{is_after, parsed_date, CalendarDate, NaiveDate};
use crate::fields::FormFields;
use crate::hr_core::{target_views, AbsenceSymbol, FixTarget, TargetView, UserIdentity};
use crate::json::{json_member, json_read, json_text, parse_json, Json, JsonValue};
use crate::records::{
    bool_field, bool_in_field, field_views, fields_of, find_fault, find_sole, items_of, json_fault,
    json_items, json_members, members_of, opt_members, opt_text_field, opt_text_in_field,
    record_fields, sole_value, text_field, text_in_field, u32_field, u32_in_field,
};
use crate::text::{
    before, contains, contains_text, decimal, decimal_text, is_before, opt_text, same, split,
    split_at_char, split_once, split_once_at, strs, texts,
};
use vstd::prelude::*;

verus! {

// ---------------------------------------------------------------------------
// Records
// ---------------------------------------------------------------------------

/// Who is signed in.
#[derive(Debug)]
pub struct BootstrapInfo {
    pub user_id: String,
    pub employee_id: u32,
    pub org_id: String,
    pub name: String,
    pub is_manager: bool,
}

/// Who is signed in, as mathematics.
pub struct BootstrapView {
    pub user_id: Seq<char>,
    pub employee_id: nat,
    pub org_id: Seq<char>,
    pub name: Seq<char>,
    pub is_manager: bool,
}

impl View for BootstrapInfo {
    type V = BootstrapView;

    open spec fn view(&self) -> BootstrapView {
        BootstrapView {
            user_id: self.user_id@,
            employee_id: self.employee_id as nat,
            org_id: self.org_id@,
            name: self.name@,
            is_manager: self.is_manager,
        }
    }
}

impl BootstrapInfo {
    /// Who is signed in, as every provider says it.
    pub fn into_identity(self) -> (identity: UserIdentity)
        ensures
            identity.user_id@ == self@.user_id,
            identity.employee_id@ == decimal(self@.employee_id),
            identity.display_name@ == self@.name,
            identity.is_manager == self@.is_manager,
    {
        UserIdentity {
            user_id: self.user_id,
            employee_id: decimal_text(self.employee_id as u64),
            display_name: self.name,
            is_manager: self.is_manager,
        }
    }
}

/// How many tasks wait.
#[derive(Debug, Clone, Copy, PartialEq, Eq, Structural)]
pub struct TasksCount {
    pub tasks_count: u32,
}

/// The symbols that absences are marked with.
#[derive(Debug)]
pub struct AbsencesInitialData {
    pub symbols: Vec<AbsenceSymbol>,
}

/// A symbol as mathematics.
pub struct SymbolView {
    pub id: Seq<char>,
    pub name: Seq<char>,
    pub display_name: Option<Seq<char>>,
}

impl View for AbsenceSymbol {
    type V = SymbolView;

    open spec fn view(&self) -> SymbolView {
        SymbolView {
            id: self.id@,
            name: self.name@,
            display_name: opt_text(self.display_name),
        }
    }
}

/// The views of a list of symbols.
pub open spec fn symbol_views(symbols: Seq<AbsenceSymbol>) -> Seq<SymbolView> {
    symbols.map_values(|symbol: AbsenceSymbol| symbol@)
}

/// Why an answer could not be read.
#[derive(Debug)]
pub enum ApiError {
    /// It is no JSON, for this reason.
    NotJson(String),
    /// It is JSON of another form.
    WrongShape,
    /// It names no organization.
    NoOrganization,
}

/// Why an answer could not be read, as mathematics.
pub enum ApiFailure {
    NotJson(Seq<char>),
    WrongShape,
    NoOrganization,
}

impl View for ApiError {
    type V = ApiFailure;

    open spec fn view(&self) -> ApiFailure {
        match self {
            ApiError::NotJson(message) => ApiFailure::NotJson(message@),
            ApiError::WrongShape => ApiFailure::WrongShape,
            ApiError::NoOrganization => ApiFailure::NoOrganization,
        }
    }
}

// ---------------------------------------------------------------------------
// Who is signed in
// ---------------------------------------------------------------------------

/// Who is signed in, from what an answer says of them, or why it says too
/// little. The organization is named at the top, else at the user.
pub open spec fn bootstrap_from(
    organization: Option<Option<Seq<char>>>,
    user_id: Option<Seq<char>>,
    employee_id: Option<nat>,
    name: Option<Seq<char>>,
    is_manager: Option<bool>,
    user_organization: Option<Option<Seq<char>>>,
) -> Result<BootstrapView, ApiFailure> {
    match (organization, user_id, employee_id, name, is_manager, user_organization) {
        (
            Some(organization),
            Some(user_id),
            Some(employee_id),
            Some(name),
            Some(is_manager),
            Some(user_organization),
        ) => match crate::text::or_else(organization, user_organization) {
            Some(org_id) => Ok(BootstrapView { user_id, employee_id, org_id, name, is_manager }),
            None => Err(ApiFailure::NoOrganization),
        },
        _ => Err(ApiFailure::WrongShape),
    }
}

/// The fields of an answer that says who is signed in.
pub open spec fn bootstrap_names() -> Seq<Seq<char>> {
    seq!["PrincipalUser"@, "OrganizationId"@]
}

/// The fields of the one who is signed in.
pub open spec fn user_names() -> Seq<Seq<char>> {
    seq!["UserId"@, "EmployeeId"@, "Name"@, "IsManager"@, "OrganizationId"@]
}

/// Who a JSON text says is signed in.
pub open spec fn bootstrap_of(text: Seq<char>) -> Result<BootstrapView, ApiFailure> {
    match record_fields(text, bootstrap_names()) {
        Some(fields) => match fields[0] {
            Some(user) => match record_fields(user, user_names()) {
                Some(user) => bootstrap_from(
                    opt_text_field(fields[1]),
                    text_field(user[0]),
                    u32_field(user[1]),
                    text_field(user[2]),
                    bool_field(user[3]),
                    opt_text_field(user[4]),
                ),
                None => Err(ApiFailure::WrongShape),
            },
            None => Err(ApiFailure::WrongShape),
        },
        None => Err(ApiFailure::WrongShape),
    }
}

/// Who an answer says is signed in.
pub open spec fn bootstrap_in(text: Seq<char>) -> Result<BootstrapView, ApiFailure> {
    match json_fault(text) {
        Some(message) => Err(ApiFailure::NotJson(message)),
        None => bootstrap_of(text),
    }
}

/// An optional text that may not be readable.
pub open spec fn opt_opt_text(text: Option<Option<String>>) -> Option<Option<Seq<char>>> {
    match text {
        Some(text) => Some(opt_text(text)),
        None => None,
    }
}

/// A number that may not be readable.
pub open spec fn opt_number(number: Option<u32>) -> Option<nat> {
    match number {
        Some(number) => Some(number as nat),
        None => None,
    }
}

/// Who is signed in, from what an answer says of them.
pub fn bootstrap_from_fields(
    organization: Option<Option<String>>,
    user_id: Option<String>,
    employee_id: Option<u32>,
    name: Option<String>,
    is_manager: Option<bool>,
    user_organization: Option<Option<String>>,
) -> (info: Result<BootstrapInfo, ApiError>)
    ensures
        ({
            let found = bootstrap_from(
                opt_opt_text(organization),
                opt_text(user_id),
                opt_number(employee_id),
                opt_text(name),
                is_manager,
                opt_opt_text(user_organization),
            );
            match info {
                Ok(info) => found == Ok::<BootstrapView, ApiFailure>(info@),
                Err(error) => found == Err::<BootstrapView, ApiFailure>(error@),
            }
        }),
{
    match (organization, user_id, employee_id, name, is_manager, user_organization) {
        (
            Some(organization),
            Some(user_id),
            Some(employee_id),
            Some(name),
            Some(is_manager),
            Some(user_organization),
        ) => {
            let org_id = match organization {
                Some(org_id) => Some(org_id),
                None => user_organization,
            };
            match org_id {
                Some(org_id) => Ok(
                    BootstrapInfo { user_id, employee_id, org_id, name, is_manager },
                ),
                None => Err(ApiError::NoOrganization),
            }
        },
        _ => Err(ApiError::WrongShape),
    }
}

fn read_bootstrap(text: &str) -> (info: Result<BootstrapInfo, ApiError>)
    ensures
        match info {
            Ok(info) => bootstrap_of(text@) == Ok::<BootstrapView, ApiFailure>(info@),
            Err(error) => bootstrap_of(text@) == Err::<BootstrapView, ApiFailure>(error@),
        },
{
    let names: Vec<&'static str> = vec!["PrincipalUser", "OrganizationId"];
    assert(strs(names@) == bootstrap_names());
    let fields = match fields_of(text, &names) {
        Some(fields) => fields,
        None => {
            return Err(ApiError::WrongShape);
        },
    };
    let ghost all = field_views(fields@);
    assert(all[0] == opt_text(fields@[0]) && all[1] == opt_text(fields@[1]));
    let user_text = match &fields[0] {
        Some(user) => user,
        None => {
            return Err(ApiError::WrongShape);
        },
    };
    let names: Vec<&'static str> = vec![
        "UserId",
        "EmployeeId",
        "Name",
        "IsManager",
        "OrganizationId",
    ];
    assert(strs(names@) == user_names());
    let user = match fields_of(user_text.as_str(), &names) {
        Some(user) => user,
        None => {
            return Err(ApiError::WrongShape);
        },
    };
    assert forall|i: int| 0 <= i < 5 implies field_views(user@)[i] == opt_text(
        #[trigger] user@[i],
    ) by {}
    bootstrap_from_fields(
        opt_text_in_field(&fields[1]),
        text_in_field(&user[0]),
        u32_in_field(&user[1]),
        text_in_field(&user[2]),
        bool_in_field(&user[3]),
        opt_text_in_field(&user[4]),
    )
}

/// Who an answer says is signed in.
pub fn parse_bootstrap_info(text: &str) -> (info: Result<BootstrapInfo, ApiError>)
    ensures
        match info {
            Ok(info) => bootstrap_in(text@) == Ok::<BootstrapView, ApiFailure>(info@),
            Err(error) => bootstrap_in(text@) == Err::<BootstrapView, ApiFailure>(error@),
        },
{
    match find_fault(text) {
        Some(message) => Err(ApiError::NotJson(message)),
        None => read_bootstrap(text),
    }
}

// ---------------------------------------------------------------------------
// Tasks and symbols
// ---------------------------------------------------------------------------

/// The number of tasks that an answer gives: a bare number, or the one member
/// of its name in an object.
pub open spec fn tasks_count_of(
    value: Json,
    members: Option<Seq<(Seq<char>, Seq<char>)>>,
) -> Option<nat> {
    match (value, members) {
        (Json::Number(Some(number), _), _) => if number <= u32::MAX {
            Some(number)
        } else {
            None
        },
        (Json::Object(_), Some(members)) => match sole_value(members, "TasksCount"@) {
            Some(field) => u32_field(field),
            None => None,
        },
        _ => None,
    }
}

/// The number of tasks that a JSON value gives, with its members as they are
/// written.
pub fn tasks_count_from_json(value: &JsonValue, members: &Option<Vec<(String, String)>>) -> (count:
    Option<TasksCount>)
    ensures
        match count {
            Some(count) => tasks_count_of(value.model(), opt_members(*members)) == Some(
                count.tasks_count as nat,
            ),
            None => tasks_count_of(value.model(), opt_members(*members)) is None,
        },
{
    match value {
        JsonValue::Number(Some(number), _) => {
            if *number <= u32::MAX as u64 {
                Some(TasksCount { tasks_count: *number as u32 })
            } else {
                None
            }
        },
        JsonValue::Object(_) => match members {
            Some(members) => match find_sole(members, "TasksCount") {
                Some(field) => match u32_in_field(&field) {
                    Some(tasks_count) => Some(TasksCount { tasks_count }),
                    None => None,
                },
                None => None,
            },
            None => None,
        },
        _ => None,
    }
}

/// The number of tasks that an answer gives.
pub fn parse_tasks_count(text: &str) -> (count: Result<TasksCount, ApiError>)
    ensures
        match (json_read(text@), count) {
            (Ok(value), Ok(count)) => tasks_count_of(value, json_members(text@)) == Some(
                count.tasks_count as nat,
            ),
            (Ok(value), Err(error)) => tasks_count_of(value, json_members(text@)) is None && error@
                == ApiFailure::WrongShape,
            (Err(message), Ok(_)) => false,
            (Err(message), Err(error)) => error@ == ApiFailure::NotJson(message),
        },
{
    match parse_json(text) {
        Ok(value) => match tasks_count_from_json(&value, &members_of(text)) {
            Some(count) => Ok(count),
            None => Err(ApiError::WrongShape),
        },
        Err(message) => Err(ApiError::NotJson(message)),
    }
}

/// The fields of a symbol.
pub open spec fn symbol_names() -> Seq<Seq<char>> {
    seq!["Id"@, "Name"@, "DisplayName"@]
}

/// The symbol that a JSON text stands for.
pub open spec fn symbol_of(text: Seq<char>) -> Option<SymbolView> {
    match record_fields(text, symbol_names()) {
        Some(fields) => match (
            text_field(fields[0]),
            text_field(fields[1]),
            opt_text_field(fields[2]),
        ) {
            (Some(id), Some(name), Some(display_name)) => Some(
                SymbolView { id, name, display_name },
            ),
            _ => None,
        },
        None => None,
    }
}

/// The symbols that JSON texts stand for, where all do.
pub open spec fn symbols_of(items: Seq<Seq<char>>) -> Option<Seq<SymbolView>>
    decreases items.len(),
{
    if items.len() == 0 {
        Some(seq![])
    } else {
        match (symbols_of(items.drop_last()), symbol_of(items.last())) {
            (Some(before), Some(symbol)) => Some(before.push(symbol)),
            _ => None,
        }
    }
}

/// The symbols of an answer.
pub open spec fn answer_symbols(text: Seq<char>) -> Option<Seq<SymbolView>> {
    match record_fields(text, seq!["Symbols"@]) {
        Some(fields) => match fields[0] {
            Some(list) => match json_items(list) {
                Some(items) => symbols_of(items),
                None => None,
            },
            None => None,
        },
        None => None,
    }
}

proof fn symbols_need_each(items: Seq<Seq<char>>, at: int)
    requires
        0 <= at < items.len(),
        symbol_of(items[at]) is None,
    ensures
        symbols_of(items) is None,
    decreases items.len(),
{
    if at < items.len() - 1 {
        assert(items.drop_last()[at] == items[at]);
        symbols_need_each(items.drop_last(), at);
    }
}

fn read_symbol(text: &str) -> (symbol: Option<AbsenceSymbol>)
    ensures
        match symbol {
            Some(symbol) => symbol_of(text@) == Some(symbol@),
            None => symbol_of(text@) is None,
        },
{
    let names: Vec<&'static str> = vec!["Id", "Name", "DisplayName"];
    assert(strs(names@) == symbol_names());
    match fields_of(text, &names) {
        Some(fields) => {
            assert forall|i: int| 0 <= i < 3 implies field_views(fields@)[i] == opt_text(
                #[trigger] fields@[i],
            ) by {}
            let id = text_in_field(&fields[0]);
            let name = text_in_field(&fields[1]);
            let display_name = opt_text_in_field(&fields[2]);
            match (id, name, display_name) {
                (Some(id), Some(name), Some(display_name)) => Some(
                    AbsenceSymbol { id, name, display_name },
                ),
                _ => None,
            }
        },
        None => None,
    }
}

/// The symbols that JSON texts stand for, where all do.
pub fn symbols_of_items(items: &Vec<String>) -> (symbols: Option<Vec<AbsenceSymbol>>)
    ensures
        match symbols {
            Some(symbols) => symbols_of(texts(items@)) == Some(symbol_views(symbols@)),
            None => symbols_of(texts(items@)) is None,
        },
{
    let ghost all = texts(items@);
    let mut symbols: Vec<AbsenceSymbol> = Vec::new();
    let mut i: usize = 0;
    assert(symbol_views(symbols@) == Seq::<SymbolView>::empty());
    while i < items.len()
        invariant
            i <= items.len(),
            all == texts(items@),
            symbols_of(all.take(i as int)) == Some(symbol_views(symbols@)),
        decreases items.len() - i,
    {
        assert(all.take(i + 1).drop_last() == all.take(i as int));
        assert(all.take(i + 1).last() == items@[i as int]@);
        let ghost before = symbol_views(symbols@);
        match read_symbol(items[i].as_str()) {
            Some(symbol) => {
                symbols.push(symbol);
                assert(symbol_views(symbols@) == before.push(symbol@));
            },
            None => {
                proof {
                    assert(all[i as int] == items@[i as int]@);
                    symbols_need_each(all, i as int);
                }
                return None;
            },
        }
        i = i + 1;
    }
    assert(all.take(all.len() as int) == all);
    Some(symbols)
}

fn read_absences(text: &str) -> (data: Option<AbsencesInitialData>)
    ensures
        match data {
            Some(data) => answer_symbols(text@) == Some(symbol_views(data.symbols@)),
            None => answer_symbols(text@) is None,
        },
{
    let names: Vec<&'static str> = vec!["Symbols"];
    assert(strs(names@) == seq!["Symbols"@]);
    let fields = match fields_of(text, &names) {
        Some(fields) => fields,
        None => {
            return None;
        },
    };
    assert(field_views(fields@)[0] == opt_text(fields@[0]));
    match &fields[0] {
        Some(list) => match items_of(list.as_str()) {
            Some(items) => match symbols_of_items(&items) {
                Some(symbols) => Some(AbsencesInitialData { symbols }),
                None => None,
            },
            None => None,
        },
        None => None,
    }
}

/// The symbols of an answer.
pub fn parse_absences_initial_data(text: &str) -> (data: Result<AbsencesInitialData, ApiError>)
    ensures
        match (json_fault(text@), data) {
            (None, Ok(data)) => answer_symbols(text@) == Some(symbol_views(data.symbols@)),
            (None, Err(error)) => answer_symbols(text@) is None && error@
                == ApiFailure::WrongShape,
            (Some(message), Ok(_)) => false,
            (Some(message), Err(error)) => error@ == ApiFailure::NotJson(message),
        },
{
    match find_fault(text) {
        Some(message) => Err(ApiError::NotJson(message)),
        None => match read_absences(text) {
            Some(data) => Ok(data),
            None => Err(ApiError::WrongShape),
        },
    }
}

// ---------------------------------------------------------------------------
// Error tasks
// ---------------------------------------------------------------------------

/// A day with an error, as the service lists it.
#[derive(Debug, Clone)]
pub struct ErrorTask {
    pub date: NaiveDate,
    pub report_id: String,
    pub error_type: String,
}

/// A day with an error, as mathematics.
pub struct TaskView {
    pub date: CalendarDate,
    pub report_id: Seq<char>,
    pub error_type: Seq<char>,
}

impl View for ErrorTask {
    type V = TaskView;

    open spec fn view(&self) -> TaskView {
        TaskView {
            date: self.date@,
            report_id: self.report_id@,
            error_type: self.error_type@,
        }
    }
}

/// The views of a list of tasks.
pub open spec fn task_views(tasks: Seq<ErrorTask>) -> Seq<TaskView> {
    tasks.map_values(|task: ErrorTask| task@)
}

/// What `urlencoding::decode` makes of a text: `%XX` read as bytes, where the
/// bytes are UTF-8.
pub uninterp spec fn url_decoded(text: Seq<char>) -> Option<Seq<char>>;

/// Calls `urlencoding::decode`.
#[verifier::external_body]
fn decode_url(text: &str) -> (decoded: Option<String>)
    ensures
        opt_text(decoded) == url_decoded(text@),
{
    urlencoding::decode(text).ok().map(|decoded| decoded.into_owned())
}

/// What the query of a link gives.
pub struct LinkParams {
    pub date: Option<CalendarDate>,
    pub report_id: Option<Seq<char>>,
    pub error_type: Option<Seq<char>>,
}

/// The date of a text, where it is one.
pub open spec fn slashed_date(text: Seq<char>) -> Option<CalendarDate> {
    match parsed_date(text, "%d/%m/%Y"@) {
        Ok(date) => Some(date),
        Err(_) => None,
    }
}

/// What is known of a link after one more part of its query, `key=value`.
pub open spec fn with_part(params: LinkParams, part: Seq<char>) -> Option<LinkParams> {
    match split_once(part, '=') {
        Some((key, raw)) => match url_decoded(raw) {
            Some(value) => Some(
                if key == "date"@ {
                    LinkParams { date: slashed_date(value), ..params }
                } else if key == "reportId"@ {
                    LinkParams { report_id: Some(value), ..params }
                } else if key == "errorType"@ {
                    LinkParams { error_type: Some(value), ..params }
                } else {
                    params
                },
            ),
            None => None,
        },
        None => None,
    }
}

/// What the parts of a query give, where each can be read.
pub open spec fn link_params(parts: Seq<Seq<char>>) -> Option<LinkParams>
    decreases parts.len(),
{
    if parts.len() == 0 {
        Some(LinkParams { date: None, report_id: None, error_type: None })
    } else {
        match link_params(parts.drop_last()) {
            Some(params) => with_part(params, parts.last()),
            None => None,
        }
    }
}

/// The task that a link leads to.
pub open spec fn link_task(link: Seq<char>) -> Option<TaskView> {
    if !contains(link, "EmployeeErrorHandling.aspx"@) {
        None
    } else {
        match split_once(link, '?') {
            Some((_, query)) => match link_params(split(query, '&')) {
                Some(params) => match (params.date, params.report_id, params.error_type) {
                    (Some(date), Some(report_id), Some(error_type)) => Some(
                        TaskView { date, report_id, error_type },
                    ),
                    _ => None,
                },
                None => None,
            },
            None => None,
        }
    }
}

proof fn link_params_need_each(parts: Seq<Seq<char>>, at: int)
    requires
        0 <= at <= parts.len(),
        link_params(parts.take(at)) is None,
    ensures
        link_params(parts) is None,
    decreases parts.len() - at,
{
    if at < parts.len() {
        assert(parts.take(at + 1).drop_last() == parts.take(at));
        link_params_need_each(parts, at + 1);
    } else {
        assert(parts.take(at) == parts);
    }
}

/// The view of an optional date.
pub open spec fn opt_date(date: Option<NaiveDate>) -> Option<CalendarDate> {
    match date {
        Some(date) => Some(date@),
        None => None,
    }
}

/// The task that a link of the service leads to.
pub fn parse_error_task_link(link: &str) -> (task: Option<ErrorTask>)
    ensures
        match task {
            Some(task) => link_task(link@) == Some(task@),
            None => link_task(link@) is None,
        },
{
    if !contains_text(link, "EmployeeErrorHandling.aspx") {
        return None;
    }
    let query = match split_once_at(link, '?') {
        Some((_, query)) => query,
        None => {
            return None;
        },
    };
    let parts = split_at_char(query.as_str(), '&');
    let ghost all = texts(parts@);
    let mut date: Option<NaiveDate> = None;
    let mut report_id: Option<String> = None;
    let mut error_type: Option<String> = None;
    let mut i: usize = 0;
    while i < parts.len()
        invariant
            i <= parts.len(),
            all == texts(parts@),
            contains(link@, "EmployeeErrorHandling.aspx"@),
            split_once(link@, '?') matches Some(pair) && split(pair.1, '&') == all,
            link_params(all.take(i as int)) == Some(
                LinkParams {
                    date: opt_date(date),
                    report_id: opt_text(report_id),
                    error_type: opt_text(error_type),
                },
            ),
        decreases parts.len() - i,
    {
        assert(all.take(i + 1).drop_last() == all.take(i as int));
        assert(all.take(i + 1).last() == parts@[i as int]@);
        let (key, raw) = match split_once_at(parts[i].as_str(), '=') {
            Some(pair) => pair,
            None => {
                proof {
                    link_params_need_each(all, i + 1);
                }
                return None;
            },
        };
        let value = match decode_url(raw.as_str()) {
            Some(value) => value,
            None => {
                proof {
                    link_params_need_each(all, i + 1);
                }
                return None;
            },
        };
        if same(key.as_str(), "date") {
            date = match NaiveDate::parse_from_str(value.as_str(), "%d/%m/%Y") {
                Ok(date) => Some(date),
                Err(_) => None,
            };
        } else if same(key.as_str(), "reportId") {
            report_id = Some(value);
        } else if same(key.as_str(), "errorType") {
            error_type = Some(value);
        }
        i = i + 1;
    }
    assert(all.take(all.len() as int) == all);
    match (date, report_id, error_type) {
        (Some(date), Some(report_id), Some(error_type)) => Some(
            ErrorTask { date, report_id, error_type },
        ),
        _ => None,
    }
}

/// A list of tasks with one more, unless it is there.
pub open spec fn with_task(tasks: Seq<TaskView>, task: Option<TaskView>) -> Seq<TaskView> {
    match task {
        Some(task) => if tasks.contains(task) {
            tasks
        } else {
            tasks.push(task)
        },
        None => tasks,
    }
}

/// The task that an object links to under a name.
pub open spec fn member_task(value: Json, key: Seq<char>) -> Option<TaskView> {
    match json_member(value, key) {
        Some(found) => match json_text(found) {
            Some(link) => link_task(link),
            None => None,
        },
        None => None,
    }
}

/// The number of children of a value.
pub open spec fn child_count(value: Json) -> nat {
    match value {
        Json::Array(items) => items.len(),
        Json::Object(members) => members.len(),
        _ => 0,
    }
}

/// Some tasks, with those that a value links to, anywhere in it, each once:
/// first those of an object itself, then those of its children.
pub open spec fn with_tasks_in(value: Json, tasks: Seq<TaskView>) -> Seq<TaskView>
    decreases value, child_count(value) + 1,
{
    let own = match value {
        Json::Object(_) => with_task(
            with_task(tasks, member_task(value, "link"@)),
            member_task(value, "Link"@),
        ),
        _ => tasks,
    };
    with_tasks_of_children(value, child_count(value), own)
}

/// Some tasks, with those of the first children of a value.
pub open spec fn with_tasks_of_children(value: Json, count: nat, tasks: Seq<TaskView>) -> Seq<
    TaskView,
>
    decreases value, count,
{
    if count == 0 || count > child_count(value) {
        tasks
    } else {
        match value {
            Json::Array(items) => with_tasks_in(
                items[count - 1],
                with_tasks_of_children(value, (count - 1) as nat, tasks),
            ),
            Json::Object(members) => with_tasks_in(
                members[count - 1].1,
                with_tasks_of_children(value, (count - 1) as nat, tasks),
            ),
            _ => tasks,
        }
    }
}

fn add_task(tasks: &mut Vec<ErrorTask>, task: ErrorTask)
    ensures
        task_views(final(tasks)@) == with_task(task_views(old(tasks)@), Some(task@)),
{
    let ghost before = task_views(tasks@);
    let mut i: usize = 0;
    while i < tasks.len()
        invariant
            i <= tasks.len(),
            before == task_views(tasks@),
            before == task_views(old(tasks)@),
            forall|j: int| 0 <= j < i ==> #[trigger] before[j] != task@,
        decreases tasks.len() - i,
    {
        assert(before[i as int] == tasks@[i as int]@);
        if tasks[i].date.same_as(task.date) && same(
            tasks[i].report_id.as_str(),
            task.report_id.as_str(),
        ) && same(tasks[i].error_type.as_str(), task.error_type.as_str()) {
            assert(before[i as int] == task@);
            return ;
        }
        i = i + 1;
    }
    tasks.push(task);
    assert(task_views(tasks@) == before.push(task@));
}

fn add_member_task(tasks: &mut Vec<ErrorTask>, value: &JsonValue, key: &str)
    ensures
        task_views(final(tasks)@) == with_task(
            task_views(old(tasks)@),
            member_task(value.model(), key@),
        ),
{
    if let Some(found) = value.get(key) {
        if let Some(link) = found.as_str() {
            if let Some(task) = parse_error_task_link(link) {
                add_task(tasks, task);
            }
        }
    }
}

fn collect_error_tasks(value: &JsonValue, tasks: &mut Vec<ErrorTask>)
    ensures
        task_views(final(tasks)@) == with_tasks_in(value.model(), task_views(old(tasks)@)),
    decreases value,
{
    match value {
        JsonValue::Array(items) => {
            let ghost own = task_views(tasks@);
            let ghost model = value.model();
            let mut i: usize = 0;
            while i < items.len()
                invariant
                    i <= items.len(),
                    *value == JsonValue::Array(*items),
                    model == value.model(),
                    child_count(model) == items.len(),
                    task_views(tasks@) == with_tasks_of_children(model, i as nat, own),
                decreases items.len() - i,
            {
                assert(model->Array_0[i as int] == items@[i as int].model());
                collect_error_tasks(&items[i], tasks);
                i = i + 1;
            }
        },
        JsonValue::Object(members) => {
            add_member_task(tasks, value, "link");
            add_member_task(tasks, value, "Link");
            let ghost own = task_views(tasks@);
            let ghost model = value.model();
            let mut i: usize = 0;
            while i < members.len()
                invariant
                    i <= members.len(),
                    *value == JsonValue::Object(*members),
                    model == value.model(),
                    child_count(model) == members.len(),
                    task_views(tasks@) == with_tasks_of_children(model, i as nat, own),
                decreases members.len() - i,
            {
                assert(model->Object_0[i as int] == (
                    members@[i as int].0@,
                    members@[i as int].1.model(),
                ));
                collect_error_tasks(&members[i].1, tasks);
                i = i + 1;
            }
        },
        _ => {},
    }
}

/// The days with errors that a JSON value links to, each once.
pub fn extract_error_tasks(value: &JsonValue) -> (tasks: Vec<ErrorTask>)
    ensures
        task_views(tasks@) == with_tasks_in(value.model(), seq![]),
{
    let mut tasks: Vec<ErrorTask> = Vec::new();
    assert(task_views(tasks@) == Seq::<TaskView>::empty());
    collect_error_tasks(value, &mut tasks);
    tasks
}

/// The days with errors that an answer links to.
pub fn parse_error_tasks(text: &str) -> (tasks: Result<Vec<ErrorTask>, String>)
    ensures
        match (json_read(text@), tasks) {
            (Ok(value), Ok(tasks)) => task_views(tasks@) == with_tasks_in(value, seq![]),
            (Err(message), Err(error)) => error@ == message,
            _ => false,
        },
{
    match parse_json(text) {
        Ok(value) => Ok(extract_error_tasks(&value)),
        Err(message) => Err(message),
    }
}

/// Whether no task occurs twice.
pub open spec fn tasks_differ(tasks: Seq<TaskView>) -> bool {
    forall|i: int, j: int| 0 <= i < j < tasks.len() ==> #[trigger] tasks[i] != #[trigger] tasks[j]
}

proof fn with_task_keeps_differing(tasks: Seq<TaskView>, task: Option<TaskView>)
    requires
        tasks_differ(tasks),
    ensures
        tasks_differ(with_task(tasks, task)),
{
    if let Some(task) = task {
        if !tasks.contains(task) {
            let more = tasks.push(task);
            assert forall|i: int, j: int| 0 <= i < j < more.len() implies #[trigger] more[i]
                != #[trigger] more[j] by {
                if j == tasks.len() {
                    assert(tasks[i] == more[i]);
                    assert(tasks.contains(tasks[i]));
                }
            }
        }
    }
}

/// No day with an error is listed twice, however often it is linked to.
pub proof fn error_tasks_differ(value: Json, tasks: Seq<TaskView>)
    requires
        tasks_differ(tasks),
    ensures
        tasks_differ(with_tasks_in(value, tasks)),
    decreases value, child_count(value) + 1,
{
    let own = match value {
        Json::Object(_) => with_task(
            with_task(tasks, member_task(value, "link"@)),
            member_task(value, "Link"@),
        ),
        _ => tasks,
    };
    with_task_keeps_differing(tasks, member_task(value, "link"@));
    with_task_keeps_differing(
        with_task(tasks, member_task(value, "link"@)),
        member_task(value, "Link"@),
    );
    children_tasks_differ(value, child_count(value), own);
}

proof fn children_tasks_differ(value: Json, count: nat, tasks: Seq<TaskView>)
    requires
        tasks_differ(tasks),
    ensures
        tasks_differ(with_tasks_of_children(value, count, tasks)),
    decreases value, count,
{
    if count > 0 && count <= child_count(value) {
        children_tasks_differ(value, (count - 1) as nat, tasks);
        match value {
            Json::Array(items) => error_tasks_differ(
                items[count - 1],
                with_tasks_of_children(value, (count - 1) as nat, tasks),
            ),
            Json::Object(members) => {
                let pair = members[count - 1];
                assert(decreases_to!(value => pair));
                error_tasks_differ(
                    members[count - 1].1,
                    with_tasks_of_children(value, (count - 1) as nat, tasks),
                )
            },
            _ => {},
        }
    }
}

// ---------------------------------------------------------------------------
// Fix targets
// ---------------------------------------------------------------------------

/// The target that a task stands for.
pub open spec fn task_target(task: TaskView) -> TargetView {
    TargetView {
        date: task.date,
        issue_kind: None,
        provider_ref: task.report_id + ":"@ + task.error_type,
        metadata: Map::<Seq<char>, Seq<char>>::empty().insert("report_id"@, task.report_id).insert(
            "error_type"@,
            task.error_type,
        ),
    }
}

/// The target that a task stands for.
pub fn target_of_task(task: &ErrorTask) -> (target: FixTarget)
    ensures
        target@ == task_target(task@),
{
    let mut provider_ref = task.report_id.clone();
    provider_ref.append(":");
    provider_ref.append(task.error_type.as_str());
    let mut metadata = FormFields::new();
    metadata.insert("report_id".to_owned(), task.report_id.clone());
    metadata.insert("error_type".to_owned(), task.error_type.clone());
    FixTarget { date: task.date, issue_kind: None, provider_ref, metadata }
}

/// Whether a task comes before another: by date, then by reference, then by
/// error type, then by report.
pub open spec fn task_before(a: TaskView, b: TaskView) -> bool {
    let a_ref = task_target(a).provider_ref;
    let b_ref = task_target(b).provider_ref;
    is_after(b.date, a.date) || (a.date == b.date && (before(a_ref, b_ref) || (a_ref == b_ref && (
    before(a.error_type, b.error_type) || (a.error_type == b.error_type && before(
        a.report_id,
        b.report_id,
    ))))))
}

/// A list in order with one more task, behind those that do not come after
/// it.
pub open spec fn with_sorted(tasks: Seq<TaskView>, task: TaskView) -> Seq<TaskView>
    decreases tasks.len(),
{
    if tasks.len() == 0 {
        seq![task]
    } else if task_before(task, tasks.last()) {
        with_sorted(tasks.drop_last(), task).push(tasks.last())
    } else {
        tasks.push(task)
    }
}

/// The tasks of a month, in order.
pub open spec fn month_tasks(tasks: Seq<TaskView>, month: CalendarDate) -> Seq<TaskView>
    decreases tasks.len(),
{
    if tasks.len() == 0 {
        seq![]
    } else {
        let before = month_tasks(tasks.drop_last(), month);
        if tasks.last().date.year == month.year && tasks.last().date.month == month.month {
            with_sorted(before, tasks.last())
        } else {
            before
        }
    }
}

/// The targets of tasks.
pub open spec fn targets_of(tasks: Seq<TaskView>) -> Seq<TargetView> {
    tasks.map_values(|task: TaskView| task_target(task))
}

fn comes_before(a: &ErrorTask, b: &ErrorTask) -> (answer: bool)
    ensures
        answer == task_before(a@, b@),
{
    if b.date.is_after(a.date) {
        return true;
    }
    if !a.date.same_as(b.date) {
        return false;
    }
    let a_target = target_of_task(a);
    let b_target = target_of_task(b);
    if is_before(a_target.provider_ref.as_str(), b_target.provider_ref.as_str()) {
        return true;
    }
    if !same(a_target.provider_ref.as_str(), b_target.provider_ref.as_str()) {
        return false;
    }
    if is_before(a.error_type.as_str(), b.error_type.as_str()) {
        return true;
    }
    same(a.error_type.as_str(), b.error_type.as_str()) && is_before(
        a.report_id.as_str(),
        b.report_id.as_str(),
    )
}

proof fn with_sorted_splits(tasks: Seq<TaskView>, task: TaskView, at: int)
    requires
        0 <= at <= tasks.len(),
        forall|i: int| at <= i < tasks.len() ==> task_before(task, #[trigger] tasks[i]),
        at > 0 ==> !task_before(task, tasks[at - 1]),
    ensures
        with_sorted(tasks, task) == tasks.insert(at, task),
    decreases tasks.len(),
{
    if tasks.len() == 0 {
        assert(tasks.insert(0, task) == seq![task]);
    } else if at == tasks.len() {
        assert(tasks.insert(at, task) == tasks.push(task));
    } else {
        let shorter = tasks.drop_last();
        assert forall|i: int| at <= i < shorter.len() implies task_before(
            task,
            #[trigger] shorter[i],
        ) by {
            assert(shorter[i] == tasks[i]);
        }
        with_sorted_splits(shorter, task, at);
        assert(tasks.insert(at, task) == shorter.insert(at, task).push(tasks.last()));
    }
}

fn put_sorted(tasks: &mut Vec<ErrorTask>, task: ErrorTask)
    ensures
        task_views(final(tasks)@) == with_sorted(task_views(old(tasks)@), task@),
{
    let ghost all = task_views(tasks@);
    let mut at: usize = tasks.len();
    while at > 0 && comes_before(&task, &tasks[at - 1])
        invariant
            at <= tasks.len(),
            all == task_views(tasks@),
            forall|i: int| at <= i < all.len() ==> task_before(task@, #[trigger] all[i]),
        decreases at,
    {
        assert(all[at - 1] == tasks@[at - 1]@);
        at = at - 1;
    }
    proof {
        if at > 0 {
            assert(all[at - 1] == tasks@[at - 1]@);
        }
        with_sorted_splits(all, task@, at as int);
    }
    let ghost new = task@;
    tasks.insert(at, task);
    assert(task_views(tasks@) == all.insert(at as int, new));
}

/// The targets of a month's tasks, in order.
pub fn fix_targets_of_month(tasks: &Vec<ErrorTask>, month: NaiveDate) -> (targets: Vec<FixTarget>)
    ensures
        target_views(targets@) == targets_of(month_tasks(task_views(tasks@), month@)),
{
    let ghost all = task_views(tasks@);
    let mut sorted: Vec<ErrorTask> = Vec::new();
    let mut i: usize = 0;
    assert(task_views(sorted@) == Seq::<TaskView>::empty());
    while i < tasks.len()
        invariant
            i <= tasks.len(),
            all == task_views(tasks@),
            task_views(sorted@) == month_tasks(all.take(i as int), month@),
        decreases tasks.len() - i,
    {
        assert(all.take(i + 1).drop_last() == all.take(i as int));
        assert(all.take(i + 1).last() == tasks@[i as int]@);
        let task = &tasks[i];
        if task.date.year() == month.year() && task.date.month() == month.month() {
            let copy = ErrorTask {
                date: task.date,
                report_id: task.report_id.clone(),
                error_type: task.error_type.clone(),
            };
            put_sorted(&mut sorted, copy);
        }
        i = i + 1;
    }
    assert(all.take(all.len() as int) == all);
    let mut targets: Vec<FixTarget> = Vec::new();
    let mut k: usize = 0;
    while k < sorted.len()
        invariant
            k <= sorted.len(),
            targets.len() == k,
            forall|j: int| 0 <= j < k ==> (#[trigger] targets@[j])@ == task_target(sorted@[j]@),
        decreases sorted.len() - k,
    {
        targets.push(target_of_task(&sorted[k]));
        k = k + 1;
    }
    assert(target_views(targets@) == targets_of(task_views(sorted@)));
    targets
}

/// The targets of a month name the same report and error that their task did:
/// they can be read back.
pub proof fn targets_name_their_task(task: TaskView)
    ensures
        crate::provider::target_params(task_target(task)) == Some(
            (task.report_id, task.error_type),
        ),
{
    reveal_strlit("report_id");
    reveal_strlit("error_type");
    assert("report_id"@[0] != "error_type"@[0]);
}

} // verus!
