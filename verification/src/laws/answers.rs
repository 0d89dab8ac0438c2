//! Laws of what the service answers: its records, who is signed in, and the
//! days with errors.

use crate::api::{
    answer_symbols, bootstrap_in, bootstrap_of, child_count, link_params, link_task, month_tasks,
    symbol_of, symbols_of, targets_of, task_before, task_target, tasks_count_of, url_decoded,
    with_sorted, with_task, with_tasks_in, with_tasks_of_children, ApiFailure, BootstrapView,
    LinkParams, TaskView,
};
use crate::config::stored_of;
use crate::date::{is_after, parsed_date, CalendarDate};
use crate::json::{json_member, Json};
use crate::records::{
    bool_field, first_member, first_value, items_from, json_fault, json_items, json_members,
    members_from, named_values, opt_text_field, sole_value, text_field, u32_field,
};
use crate::text::{contains, split, split_once};
use vstd::prelude::*;

verus! {

// ---------------------------------------------------------------------------
// Records
// ---------------------------------------------------------------------------

/// How often a name is that of a member.
pub open spec fn times_named(members: Seq<(Seq<char>, Seq<char>)>, name: Seq<char>) -> nat
    decreases members.len(),
{
    if members.len() == 0 {
        0
    } else {
        times_named(members.drop_last(), name) + (if members.last().0 == name {
            1nat
        } else {
            0
        })
    }
}

/// The value of a name is that of the one member of the name; there is none
/// without such a member, and two of them are refused.
pub proof fn a_value_is_that_of_its_one_name(
    members: Seq<(Seq<char>, Seq<char>)>,
    name: Seq<char>,
)
    ensures
        sole_value(members, name) is None <==> times_named(members, name) > 1,
        sole_value(members, name) == Some(None::<Seq<char>>) <==> times_named(members, name) == 0,
        forall|i: int|
            0 <= i < members.len() && (#[trigger] members[i]).0 == name && times_named(
                members,
                name,
            ) == 1 ==> sole_value(members, name) == Some(Some(members[i].1)),
    decreases members.len(),
{
    if members.len() > 0 {
        let front = members.drop_last();
        a_value_is_that_of_its_one_name(front, name);
        assert forall|i: int|
            0 <= i < members.len() && (#[trigger] members[i]).0 == name && times_named(
                members,
                name,
            ) == 1 implies sole_value(members, name) == Some(Some(members[i].1)) by {
            if i < members.len() - 1 {
                assert(front[i] == members[i]);
                a_named_member_counts(front, name, i);
            }
        }
    }
}

proof fn a_named_member_counts(
    members: Seq<(Seq<char>, Seq<char>)>,
    name: Seq<char>,
    at: int,
)
    requires
        0 <= at < members.len(),
        members[at].0 == name,
    ensures
        times_named(members, name) >= 1,
    decreases members.len(),
{
    if at < members.len() - 1 {
        assert(members.drop_last()[at] == members[at]);
        a_named_member_counts(members.drop_last(), name, at);
    }
}

/// The fields of an object are the values of their names.
pub proof fn fields_are_found_by_their_names(
    members: Seq<(Seq<char>, Seq<char>)>,
    names: Seq<Seq<char>>,
)
    ensures
        named_values(members, names) matches Some(values) ==> values.len() == names.len() && forall|
            i: int,
        |
            0 <= i < names.len() ==> Some(#[trigger] values[i]) == sole_value(members, names[i]),
    decreases names.len(),
{
    if names.len() > 0 {
        fields_are_found_by_their_names(members, names.drop_last());
    }
}

/// Who is signed in is taken from the members of their names: the user's own
/// from the user, the organization from the top, else from the user.
pub proof fn who_is_signed_in_is_read_by_name(
    text: Seq<char>,
    members: Seq<(Seq<char>, Seq<char>)>,
    user: Seq<char>,
    own: Seq<(Seq<char>, Seq<char>)>,
)
    requires
        json_members(text) == Some(members),
        sole_value(members, "PrincipalUser"@) == Some(Some(user)),
        json_members(user) == Some(own),
    ensures
        bootstrap_of(text) matches Ok(info) ==> {
            &&& sole_value(own, "UserId"@) matches Some(field) && text_field(field) == Some(
                info.user_id,
            )
            &&& sole_value(own, "EmployeeId"@) matches Some(field) && u32_field(field) == Some(
                info.employee_id,
            )
            &&& sole_value(own, "Name"@) matches Some(field) && text_field(field) == Some(
                info.name,
            )
            &&& sole_value(own, "IsManager"@) matches Some(field) && bool_field(field) == Some(
                info.is_manager,
            )
            &&& sole_value(members, "OrganizationId"@) matches Some(top) && sole_value(
                own,
                "OrganizationId"@,
            ) matches Some(at_user) && (opt_text_field(top) == Some(Some(info.org_id)) || (
            opt_text_field(top) == Some(None::<Seq<char>>) && opt_text_field(at_user) == Some(
                Some(info.org_id),
            )))
        },
{
    let outer = seq!["PrincipalUser"@, "OrganizationId"@];
    let inner = seq!["UserId"@, "EmployeeId"@, "Name"@, "IsManager"@, "OrganizationId"@];
    fields_are_found_by_their_names(members, outer);
    fields_are_found_by_their_names(own, inner);
    if let Some(fields) = named_values(members, outer) {
        assert(Some(fields[0]) == sole_value(members, outer[0]));
        assert(Some(fields[1]) == sole_value(members, outer[1]));
        if let Some(values) = named_values(own, inner) {
            assert(Some(values[0]) == sole_value(own, inner[0]));
            assert(Some(values[1]) == sole_value(own, inner[1]));
            assert(Some(values[2]) == sole_value(own, inner[2]));
            assert(Some(values[3]) == sole_value(own, inner[3]));
            assert(Some(values[4]) == sole_value(own, inner[4]));
        }
    }
}

/// A symbol is taken from the members of their names.
pub proof fn a_symbol_is_read_by_name(text: Seq<char>, members: Seq<(Seq<char>, Seq<char>)>)
    requires
        json_members(text) == Some(members),
    ensures
        symbol_of(text) matches Some(symbol) ==> {
            &&& sole_value(members, "Id"@) matches Some(field) && text_field(field) == Some(
                symbol.id,
            )
            &&& sole_value(members, "Name"@) matches Some(field) && text_field(field) == Some(
                symbol.name,
            )
            &&& sole_value(members, "DisplayName"@) matches Some(field) && opt_text_field(field)
                == Some(symbol.display_name)
        },
{
    let names = seq!["Id"@, "Name"@, "DisplayName"@];
    fields_are_found_by_their_names(members, names);
    if let Some(values) = named_values(members, names) {
        assert(Some(values[0]) == sole_value(members, names[0]));
        assert(Some(values[1]) == sole_value(members, names[1]));
        assert(Some(values[2]) == sole_value(members, names[2]));
    }
}

/// The record of the keychain is taken from the members of their names.
pub proof fn a_stored_record_is_read_by_name(
    text: Seq<char>,
    members: Seq<(Seq<char>, Seq<char>)>,
)
    requires
        json_members(text) == Some(members),
    ensures
        stored_of(text) matches Some(stored) ==> {
            &&& sole_value(members, "v"@) matches Some(field) && u32_field(field) == Some(stored.v)
            &&& sole_value(members, "password"@) matches Some(field) && text_field(field) == Some(
                stored.password,
            )
            &&& sole_value(members, "local_master_key"@) matches Some(field) && text_field(field)
                == Some(stored.local_master_key)
        },
{
    let names = seq!["v"@, "password"@, "local_master_key"@];
    fields_are_found_by_their_names(members, names);
    if let Some(values) = named_values(members, names) {
        assert(Some(values[0]) == sole_value(members, names[0]));
        assert(Some(values[1]) == sole_value(members, names[1]));
        assert(Some(values[2]) == sole_value(members, names[2]));
    }
}

/// The symbols of a list are those of its items, one for one.
pub proof fn each_item_is_a_symbol(items: Seq<Seq<char>>)
    ensures
        symbols_of(items) matches Some(symbols) ==> symbols.len() == items.len() && forall|i: int|
            0 <= i < items.len() ==> symbol_of(items[i]) == Some(#[trigger] symbols[i]),
        (forall|i: int| 0 <= i < items.len() ==> symbol_of(#[trigger] items[i]) is Some)
            ==> symbols_of(items) is Some,
    decreases items.len(),
{
    if items.len() > 0 {
        let front = items.drop_last();
        each_item_is_a_symbol(front);
        if forall|i: int| 0 <= i < items.len() ==> symbol_of(#[trigger] items[i]) is Some {
            assert(items.last() == items[items.len() - 1]);
            assert forall|i: int| 0 <= i < front.len() implies symbol_of(
                #[trigger] front[i],
            ) is Some by {
                assert(front[i] == items[i]);
            }
        }
    }
}

/// The number of tasks is the bare number, or that of its name in an object.
pub proof fn tasks_are_counted_by_the_service(
    number: nat,
    written: Seq<char>,
    value: Json,
    members: Seq<(Seq<char>, Seq<char>)>,
)
    ensures
        number <= u32::MAX ==> tasks_count_of(Json::Number(Some(number), written), None) == Some(
            number,
        ),
        value is Object ==> (sole_value(members, "TasksCount"@) matches Some(field)
            ==> tasks_count_of(value, Some(members)) == u32_field(field)),
{
}

// ---------------------------------------------------------------------------
// Days with errors
// ---------------------------------------------------------------------------

/// The key and the value of a part of a query.
pub open spec fn part_is(part: Seq<char>, key: Seq<char>, value: Seq<char>) -> bool {
    split_once(part, '=') matches Some(sides) && sides.0 == key && url_decoded(sides.1) == Some(
        value,
    )
}

/// Whether a part of a query is of a key.
pub open spec fn part_of(part: Seq<char>, key: Seq<char>) -> bool {
    split_once(part, '=') matches Some(sides) && sides.0 == key
}

proof fn the_keys_differ()
    ensures
        "date"@ != "reportId"@,
        "date"@ != "errorType"@,
        "reportId"@ != "errorType"@,
{
    reveal_strlit("date");
    reveal_strlit("reportId");
    reveal_strlit("errorType");
    assert("date"@.len() == 4 && "reportId"@.len() == 8 && "errorType"@.len() == 9);
}

/// The date, the report and the kind of error of a link are those of the last
/// parts of their names.
pub proof fn a_link_is_read_by_the_names_of_its_parts(
    parts: Seq<Seq<char>>,
    at: int,
    value: Seq<char>,
)
    requires
        0 <= at < parts.len(),
        link_params(parts) is Some,
    ensures
        part_is(parts[at], "date"@, value) && (forall|j: int|
            at < j < parts.len() ==> !part_of(#[trigger] parts[j], "date"@)) ==> (
        match parsed_date(value, "%d/%m/%Y"@) {
            Ok(date) => link_params(parts)->Some_0.date == Some(date),
            Err(_) => link_params(parts)->Some_0.date is None,
        }),
        part_is(parts[at], "reportId"@, value) && (forall|j: int|
            at < j < parts.len() ==> !part_of(#[trigger] parts[j], "reportId"@)) ==> link_params(
            parts,
        )->Some_0.report_id == Some(value),
        part_is(parts[at], "errorType"@, value) && (forall|j: int|
            at < j < parts.len() ==> !part_of(#[trigger] parts[j], "errorType"@)) ==> link_params(
            parts,
        )->Some_0.error_type == Some(value),
    decreases parts.len(),
{
    the_keys_differ();
    let front = parts.drop_last();
    let last = parts.len() - 1;
    assert(parts[last] == parts.last());
    if at < last {
        assert(front[at] == parts[at]);
        a_link_is_read_by_the_names_of_its_parts(front, at, value);
        if forall|j: int| at < j < parts.len() ==> !part_of(#[trigger] parts[j], "date"@) {
            assert(!part_of(parts[last], "date"@));
            assert forall|j: int| at < j < front.len() implies !part_of(
                #[trigger] front[j],
                "date"@,
            ) by {
                assert(front[j] == parts[j]);
            }
        }
        if forall|j: int| at < j < parts.len() ==> !part_of(#[trigger] parts[j], "reportId"@) {
            assert(!part_of(parts[last], "reportId"@));
            assert forall|j: int| at < j < front.len() implies !part_of(
                #[trigger] front[j],
                "reportId"@,
            ) by {
                assert(front[j] == parts[j]);
            }
        }
        if forall|j: int| at < j < parts.len() ==> !part_of(#[trigger] parts[j], "errorType"@) {
            assert(!part_of(parts[last], "errorType"@));
            assert forall|j: int| at < j < front.len() implies !part_of(
                #[trigger] front[j],
                "errorType"@,
            ) by {
                assert(front[j] == parts[j]);
            }
        }
    }
}

/// A link leads to a task only where it is one to the page for errors and gives
/// all three of date, report and kind of error.
pub proof fn a_task_is_what_its_link_says(link: Seq<char>)
    ensures
        link_task(link) matches Some(task) ==> contains(link, "EmployeeErrorHandling.aspx"@) && (
        split_once(link, '?') matches Some(sides) && link_params(split(sides.1, '&')) == Some(
            LinkParams {
                date: Some(task.date),
                report_id: Some(task.report_id),
                error_type: Some(task.error_type),
            },
        )),
        contains(link, "EmployeeErrorHandling.aspx"@) ==> (split_once(link, '?') matches Some(
            sides,
        ) ==> (link_params(split(sides.1, '&')) matches Some(params) ==> (params.date is Some
            && params.report_id is Some && params.error_type is Some ==> link_task(link)
            is Some))),
{
}

/// A task gives a target of its date that names its report and its kind of
/// error, and nothing of another.
pub proof fn a_target_is_of_its_task(task: TaskView)
    ensures
        task_target(task).date == task.date,
        task_target(task).provider_ref == task.report_id + ":"@ + task.error_type,
        task_target(task).issue_kind is None,
        task_target(task).metadata.dom() =~= set!["report_id"@, "error_type"@],
        task_target(task).metadata["report_id"@] == task.report_id,
        task_target(task).metadata["error_type"@] == task.error_type,
{
    reveal_strlit("report_id");
    reveal_strlit("error_type");
    assert("report_id"@.len() == 9 && "error_type"@.len() == 10);
}

proof fn a_task_is_put_in(tasks: Seq<TaskView>, task: TaskView)
    ensures
        with_sorted(tasks, task).to_multiset() =~= tasks.to_multiset().insert(task),
        with_sorted(tasks, task).len() == tasks.len() + 1,
    decreases tasks.len(),
{
    broadcast use vstd::seq_lib::group_to_multiset_ensures;

    if tasks.len() > 0 && task_before(task, tasks.last()) {
        a_task_is_put_in(tasks.drop_last(), task);
        assert(tasks == tasks.drop_last().push(tasks.last()));
    } else if tasks.len() == 0 {
        assert(seq![task] == tasks.push(task));
    }
}

/// Whether tasks come by their dates, the earliest first.
pub open spec fn earliest_first(tasks: Seq<TaskView>) -> bool {
    forall|i: int, j: int|
        0 <= i < j < tasks.len() ==> !is_after(
            (#[trigger] tasks[i]).date,
            (#[trigger] tasks[j]).date,
        )
}

proof fn a_task_is_put_in_order(tasks: Seq<TaskView>, task: TaskView)
    requires
        earliest_first(tasks),
    ensures
        earliest_first(with_sorted(tasks, task)),
        forall|i: int|
            0 <= i < with_sorted(tasks, task).len() ==> tasks.contains(
                #[trigger] with_sorted(tasks, task)[i],
            ) || with_sorted(tasks, task)[i] == task,
    decreases tasks.len(),
{
    let result = with_sorted(tasks, task);
    if tasks.len() > 0 {
        if task_before(task, tasks.last()) {
            let front = tasks.drop_last();
            assert forall|i: int, j: int| 0 <= i < j < front.len() implies !is_after(
                (#[trigger] front[i]).date,
                (#[trigger] front[j]).date,
            ) by {
                assert(front[i] == tasks[i] && front[j] == tasks[j]);
            }
            a_task_is_put_in_order(front, task);
            let before = with_sorted(front, task);
            assert(result == before.push(tasks.last()));
            assert forall|i: int| 0 <= i < result.len() implies tasks.contains(
                #[trigger] result[i],
            ) || result[i] == task by {
                if i < before.len() {
                    assert(result[i] == before[i]);
                    if before[i] != task {
                        assert(front.contains(before[i]));
                        let k = choose|k: int| 0 <= k < front.len() && front[k] == before[i];
                        assert(tasks[k] == before[i]);
                    }
                } else {
                    assert(result[i] == tasks[tasks.len() - 1]);
                }
            }
            assert forall|i: int, j: int| 0 <= i < j < result.len() implies !is_after(
                (#[trigger] result[i]).date,
                (#[trigger] result[j]).date,
            ) by {
                assert(result[i] == before[i]);
                if j < before.len() {
                    assert(result[j] == before[j]);
                } else {
                    assert(result[j] == tasks.last());
                    if before[i] != task {
                        assert(front.contains(before[i]));
                        let k = choose|k: int| 0 <= k < front.len() && front[k] == before[i];
                        assert(tasks[k] == before[i] && tasks[tasks.len() - 1] == tasks.last());
                    }
                }
            }
        } else {
            assert(result == tasks.push(task));
            assert(!is_after(tasks.last().date, task.date));
            assert forall|i: int| 0 <= i < result.len() implies tasks.contains(
                #[trigger] result[i],
            ) || result[i] == task by {
                if i < tasks.len() {
                    assert(result[i] == tasks[i]);
                }
            }
            assert forall|i: int, j: int| 0 <= i < j < result.len() implies !is_after(
                (#[trigger] result[i]).date,
                (#[trigger] result[j]).date,
            ) by {
                assert(result[i] == tasks[i]);
                if j < tasks.len() {
                    assert(result[j] == tasks[j]);
                } else {
                    let last = tasks.len() - 1;
                    assert(tasks[last] == tasks.last());
                    if i < last {
                        assert(!is_after(tasks[i].date, tasks[last].date));
                    }
                }
            }
        }
    }
}

/// The tasks of a month are those of its days, all of them, by their dates,
/// the earliest first.
pub proof fn the_tasks_of_a_month_are_all_of_it(tasks: Seq<TaskView>, month: CalendarDate)
    ensures
        month_tasks(tasks, month).to_multiset() =~= tasks.filter(
            |task: TaskView| task.date.year == month.year && task.date.month == month.month,
        ).to_multiset(),
        earliest_first(month_tasks(tasks, month)),
    decreases tasks.len(),
{
    broadcast use vstd::seq_lib::group_to_multiset_ensures;

    reveal(Seq::filter);
    if tasks.len() > 0 {
        the_tasks_of_a_month_are_all_of_it(tasks.drop_last(), month);
        let before = month_tasks(tasks.drop_last(), month);
        a_task_is_put_in(before, tasks.last());
        a_task_is_put_in_order(before, tasks.last());
    }
}

/// The targets of tasks come one for one, in their order.
pub proof fn each_task_gives_its_target(tasks: Seq<TaskView>, at: int)
    requires
        0 <= at < tasks.len(),
    ensures
        targets_of(tasks).len() == tasks.len(),
        targets_of(tasks)[at].date == tasks[at].date,
        targets_of(tasks)[at].provider_ref == tasks[at].report_id + ":"@ + tasks[at].error_type,
{
}

/// A task is taken in once, and none is lost.
pub proof fn a_task_is_taken_in_once(tasks: Seq<TaskView>, task: TaskView)
    ensures
        with_task(tasks, Some(task)).contains(task),
        with_task(tasks, None) == tasks,
        tasks.contains(task) ==> with_task(tasks, Some(task)) == tasks,
        !tasks.contains(task) ==> with_task(tasks, Some(task)).drop_last() == tasks,
{
    if !tasks.contains(task) {
        assert(tasks.push(task)[tasks.len() as int] == task);
        assert(tasks.push(task).drop_last() == tasks);
    }
}

// ---------------------------------------------------------------------------
// Lists and objects
// ---------------------------------------------------------------------------

/// A list that holds a value begins with it, and a comma behind it leads to
/// the rest of the list; a closing bracket ends the list.
pub proof fn no_value_of_a_list_is_left_out(text: Seq<char>, value: Seq<char>, rest: Seq<char>)
    requires
        first_value(text) == Some((value, rest)),
        rest.len() < text.len(),
        rest.len() > 0,
    ensures
        rest[0] == ',' ==> (items_from(rest.skip(1)) matches Some(more) ==> (items_from(
            text,
        ) matches Some(items) && items[0] == value && items.skip(1) == more)),
        rest[0] == ']' ==> items_from(text) == Some(seq![value]),
        rest[0] != ',' && rest[0] != ']' ==> items_from(text) is None,
{
    if rest[0] == ',' {
        if let Some(more) = items_from(rest.skip(1)) {
            assert((seq![value] + more).skip(1) == more);
        }
    }
}

/// An object that has a member begins with it, and a comma behind it leads to
/// the rest of the members; a closing brace ends the object.
pub proof fn no_member_of_an_object_is_left_out(
    text: Seq<char>,
    name: Seq<char>,
    value: Seq<char>,
    rest: Seq<char>,
)
    requires
        first_member(text) == Some(((name, value), rest)),
        rest.len() < text.len(),
        rest.len() > 0,
    ensures
        rest[0] == ',' ==> (members_from(rest.skip(1)) matches Some(more) ==> (members_from(
            text,
        ) matches Some(members) && members[0] == (name, value) && members.skip(1) == more)),
        rest[0] == '}' ==> members_from(text) == Some(seq![(name, value)]),
        rest[0] != ',' && rest[0] != '}' ==> members_from(text) is None,
{
    if rest[0] == ',' {
        if let Some(more) = members_from(rest.skip(1)) {
            assert((seq![(name, value)] + more).skip(1) == more);
        }
    }
}

/// The symbols of an answer are those of the list under its name.
pub proof fn an_answer_lists_its_symbols(
    text: Seq<char>,
    members: Seq<(Seq<char>, Seq<char>)>,
    list: Seq<char>,
    items: Seq<Seq<char>>,
)
    requires
        json_members(text) == Some(members),
        sole_value(members, "Symbols"@) == Some(Some(list)),
        json_items(list) == Some(items),
    ensures
        answer_symbols(text) == symbols_of(items),
{
    let names = seq!["Symbols"@];
    fields_are_found_by_their_names(members, names);
    assert(names.drop_last() == Seq::<Seq<char>>::empty());
    assert(named_values(members, names.drop_last()) == Some(Seq::<Option<Seq<char>>>::empty()));
    let values = named_values(members, names)->Some_0;
    assert(Some(values[0]) == sole_value(members, names[0]));
}

/// An answer that is no JSON says nothing of who is signed in.
pub proof fn an_answer_that_is_no_json_is_refused(text: Seq<char>)
    ensures
        json_fault(text) matches Some(message) ==> bootstrap_in(text) == Err::<
            BootstrapView,
            ApiFailure,
        >(ApiFailure::NotJson(message)),
        json_fault(text) is None ==> bootstrap_in(text) == bootstrap_of(text),
{
}

/// No task that is known is lost, whatever more a value links to.
pub proof fn a_known_task_stays(value: Json, tasks: Seq<TaskView>, task: TaskView)
    requires
        tasks.contains(task),
    ensures
        with_tasks_in(value, tasks).contains(task),
    decreases value, child_count(value) + 1,
{
    let first = with_task(tasks, crate::api::member_task(value, "link"@));
    let own = with_task(first, crate::api::member_task(value, "Link"@));
    stays_with_one_more(tasks, crate::api::member_task(value, "link"@), task);
    stays_with_one_more(first, crate::api::member_task(value, "Link"@), task);
    match value {
        Json::Object(_) => {
            a_known_task_stays_with_children(value, child_count(value), own, task);
        },
        _ => {
            a_known_task_stays_with_children(value, child_count(value), tasks, task);
        },
    }
}

proof fn stays_with_one_more(tasks: Seq<TaskView>, more: Option<TaskView>, task: TaskView)
    requires
        tasks.contains(task),
    ensures
        with_task(tasks, more).contains(task),
{
    if let Some(own) = more {
        let k = choose|k: int| 0 <= k < tasks.len() && tasks[k] == task;
        assert(tasks.push(own)[k] == task);
    }
}

proof fn a_known_task_stays_with_children(
    value: Json,
    count: nat,
    tasks: Seq<TaskView>,
    task: TaskView,
)
    requires
        tasks.contains(task),
    ensures
        with_tasks_of_children(value, count, tasks).contains(task),
    decreases value, count,
{
    if count > 0 && count <= child_count(value) {
        a_known_task_stays_with_children(value, (count - 1) as nat, tasks, task);
        let before = with_tasks_of_children(value, (count - 1) as nat, tasks);
        match value {
            Json::Array(items) => a_known_task_stays(items[count - 1], before, task),
            Json::Object(members) => {
                let pair = members[count - 1];
                assert(decreases_to!(value => pair));
                a_known_task_stays(members[count - 1].1, before, task)
            },
            _ => {},
        }
    }
}

/// Whether an object links to a task under a name.
pub open spec fn links_to(value: Json, name: Seq<char>, task: TaskView) -> bool {
    value is Object && (json_member(value, name) matches Some(Json::Text(link)) && link_task(link)
        == Some(task))
}

/// A task that an object links to is found.
pub proof fn a_linked_task_is_found(value: Json, tasks: Seq<TaskView>, task: TaskView)
    requires
        links_to(value, "link"@, task) || links_to(value, "Link"@, task),
    ensures
        with_tasks_in(value, tasks).contains(task),
{
    let first = with_task(tasks, crate::api::member_task(value, "link"@));
    let own = with_task(first, crate::api::member_task(value, "Link"@));
    if links_to(value, "link"@, task) {
        a_task_is_taken_in_once(tasks, task);
        stays_with_one_more(first, crate::api::member_task(value, "Link"@), task);
    } else {
        a_task_is_taken_in_once(first, task);
    }
    a_known_task_stays_with_children(value, child_count(value), own, task);
}

/// What is found in each child of a value is found in the value.
pub proof fn a_task_of_a_child_is_found(
    value: Json,
    tasks: Seq<TaskView>,
    at: int,
    task: TaskView,
)
    requires
        value matches Json::Array(items) && 0 <= at < items.len() && forall|known: Seq<TaskView>|
            (#[trigger] with_tasks_in(items[at], known)).contains(task),
    ensures
        with_tasks_in(value, tasks).contains(task),
{
    a_task_of_a_child_stays(value, child_count(value), tasks, at, task);
}

proof fn a_task_of_a_child_stays(
    value: Json,
    count: nat,
    tasks: Seq<TaskView>,
    at: int,
    task: TaskView,
)
    requires
        value matches Json::Array(items) && 0 <= at < items.len() && forall|known: Seq<TaskView>|
            (#[trigger] with_tasks_in(items[at], known)).contains(task),
        at < count <= child_count(value),
    ensures
        with_tasks_of_children(value, count, tasks).contains(task),
    decreases count,
{
    let before = with_tasks_of_children(value, (count - 1) as nat, tasks);
    if at < count - 1 {
        a_task_of_a_child_stays(value, (count - 1) as nat, tasks, at, task);
        a_known_task_stays(value->Array_0[count - 1], before, task);
    } else {
        assert(with_tasks_in(value->Array_0[at], before).contains(task));
    }
}

} // verus!
