//! Laws of writing a day: what stands in the form that is posted.

use crate::date::CalendarDate;
use crate::forms::overridden;
use crate::submit::{
    day_override, day_overrides, grid_id, page_employee, page_overrides, replay_fields,
    replay_overrides, replay_prefix, ReplayInput, SubmitPage,
};
use crate::text::{decimal, or_else, padded, signed_decimal, signed_padded};
use vstd::prelude::*;

verus! {

// ---------------------------------------------------------------------------
// Overrides
// ---------------------------------------------------------------------------

/// The last value that a list of overrides gives a key.
pub open spec fn last_value(overrides: Seq<(Seq<char>, Seq<char>)>, key: Seq<char>) -> Option<
    Seq<char>,
>
    decreases overrides.len(),
{
    if overrides.len() == 0 {
        None
    } else if overrides.last().0 == key {
        Some(overrides.last().1)
    } else {
        last_value(overrides.drop_last(), key)
    }
}

/// A form has under a key the last override of that key, and else what the
/// page had there.
pub proof fn an_override_takes_the_place_of_a_field(
    fields: Map<Seq<char>, Seq<char>>,
    overrides: Seq<(Seq<char>, Seq<char>)>,
    key: Seq<char>,
)
    ensures
        ({
            let form = overridden(fields, overrides);
            match last_value(overrides, key) {
                Some(value) => form.dom().contains(key) && form[key] == value,
                None => (form.dom().contains(key) <==> fields.dom().contains(key)) && (
                fields.dom().contains(key) ==> form[key] == fields[key]),
            }
        }),
    decreases overrides.len(),
{
    if overrides.len() > 0 {
        an_override_takes_the_place_of_a_field(fields, overrides.drop_last(), key);
    }
}

proof fn last_value_of_both(
    first: Seq<(Seq<char>, Seq<char>)>,
    second: Seq<(Seq<char>, Seq<char>)>,
    key: Seq<char>,
)
    ensures
        last_value(first + second, key) == or_else(last_value(second, key), last_value(first, key)),
    decreases second.len(),
{
    if second.len() > 0 {
        assert((first + second).last() == second.last());
        assert((first + second).drop_last() == first + second.drop_last());
        last_value_of_both(first, second.drop_last(), key);
    } else {
        assert(first + second == first);
    }
}

proof fn last_value_of_one_more(
    first: Seq<(Seq<char>, Seq<char>)>,
    more: (Seq<char>, Seq<char>),
    key: Seq<char>,
)
    ensures
        last_value(first.push(more), key) == (if more.0 == key {
            Some(more.1)
        } else {
            last_value(first, key)
        }),
{
    assert(first.push(more).drop_last() == first);
}

proof fn last_value_of_a_day_override(
    name: Seq<char>,
    value: Option<Seq<char>>,
    default: Option<Seq<char>>,
    key: Seq<char>,
)
    ensures
        last_value(day_override(name, value, default), key) == (if name == key {
            or_else(value, default)
        } else {
            None
        }),
{
    reveal_with_fuel(last_value, 2);
    let list = day_override(name, value, default);
    if list.len() > 0 {
        assert(list.drop_last() == Seq::<(Seq<char>, Seq<char>)>::empty());
    }
}

// ---------------------------------------------------------------------------
// Names of fields
// ---------------------------------------------------------------------------

/// The beginning of the names of the fields of an employee's month.
pub open spec fn month_prefix(employee: Seq<char>, date: CalendarDate) -> Seq<char> {
    "ctl00$mp$RG_Days_"@ + employee + "_"@ + signed_padded(date.year, 4) + "_"@ + padded(
        date.month as nat,
        2,
    )
}

/// The name of the field of a day's entry time.
pub open spec fn entry_field(employee: Seq<char>, date: CalendarDate) -> Seq<char> {
    month_prefix(employee, date)
        + "$cellOf_ManualEntry_EmployeeReports_row_0_0$ManualEntry_EmployeeReports_row_0_0"@
}

/// The name of the field of a day's exit time.
pub open spec fn exit_field(employee: Seq<char>, date: CalendarDate) -> Seq<char> {
    month_prefix(employee, date)
        + "$cellOf_ManualExit_EmployeeReports_row_0_0$ManualExit_EmployeeReports_row_0_0"@
}

/// The name of the field of a day's kind.
pub open spec fn kind_field(employee: Seq<char>, date: CalendarDate) -> Seq<char> {
    month_prefix(employee, date)
        + "$cellOf_Symbol.SymbolId_EmployeeReports_row_0_0$Symbol.SymbolId_EmployeeReports_row_0_0"@
}

/// The name of the field of a day's comment.
pub open spec fn comment_field(employee: Seq<char>, date: CalendarDate) -> Seq<char> {
    month_prefix(employee, date)
        + "$cellOf_Comment_EmployeeReports_row_0_0$Comment_EmployeeReports_row_0_0"@
}

/// The name of the field that completes a day to the standard.
pub open spec fn completion_field(employee: Seq<char>, date: CalendarDate) -> Seq<char> {
    month_prefix(employee, date)
        + "$cellOf_CompletionToStandard_EmployeeReports_row_0_0$CompletionToStandard_EmployeeReports_row_0_0"@
}

/// The name of the button that saves a day.
pub open spec fn save_field(employee: Seq<char>, date: CalendarDate) -> Seq<char> {
    month_prefix(employee, date) + "$btnSave"@
}

proof fn day_fields_differ(employee: Seq<char>, date: CalendarDate)
    ensures
        entry_field(employee, date) != exit_field(employee, date),
        entry_field(employee, date) != kind_field(employee, date),
        entry_field(employee, date) != comment_field(employee, date),
        entry_field(employee, date) != completion_field(employee, date),
        entry_field(employee, date) != save_field(employee, date),
        exit_field(employee, date) != kind_field(employee, date),
        exit_field(employee, date) != comment_field(employee, date),
        exit_field(employee, date) != completion_field(employee, date),
        exit_field(employee, date) != save_field(employee, date),
        kind_field(employee, date) != comment_field(employee, date),
        kind_field(employee, date) != completion_field(employee, date),
        kind_field(employee, date) != save_field(employee, date),
        comment_field(employee, date) != completion_field(employee, date),
        comment_field(employee, date) != save_field(employee, date),
        completion_field(employee, date) != save_field(employee, date),
{
    reveal_strlit("$cellOf_ManualEntry_EmployeeReports_row_0_0$ManualEntry_EmployeeReports_row_0_0");
    reveal_strlit("$cellOf_ManualExit_EmployeeReports_row_0_0$ManualExit_EmployeeReports_row_0_0");
    reveal_strlit(
        "$cellOf_Symbol.SymbolId_EmployeeReports_row_0_0$Symbol.SymbolId_EmployeeReports_row_0_0",
    );
    reveal_strlit("$cellOf_Comment_EmployeeReports_row_0_0$Comment_EmployeeReports_row_0_0");
    reveal_strlit(
        "$cellOf_CompletionToStandard_EmployeeReports_row_0_0$CompletionToStandard_EmployeeReports_row_0_0",
    );
    reveal_strlit("$btnSave");
    let entry = entry_field(employee, date).len();
    let exit = exit_field(employee, date).len();
    let kind = kind_field(employee, date).len();
    let comment = comment_field(employee, date).len();
    let completion = completion_field(employee, date).len();
    let save = save_field(employee, date).len();
    assert(save < comment < exit < entry < kind < completion);
}

/// Whether a name is one of the fields that belong to the page and not to the
/// day.
spec fn is_page_name(employee: Seq<char>, date: CalendarDate, name: Seq<char>) -> bool {
    ||| name == "ctl00$mp$scriptBox"@
    ||| name == "ctl00$mp$ScriptBox"@
    ||| name == "H-XSRF-Token"@
    ||| name == grid_id(employee, date) + "_data"@
    ||| name == "ReportPageMode"@
    ||| name == "hiddenInputToUpdateATBuffer_CommonToolkitScripts"@
    ||| name == "__NextBtnState"@
    ||| name == "__PrevBtnState"@
}

proof fn page_names_are_no_day_fields(
    employee: Seq<char>,
    date: CalendarDate,
    name: Seq<char>,
    rest: Seq<char>,
)
    requires
        is_page_name(employee, date, name),
    ensures
        name != month_prefix(employee, date) + rest,
{
    let key = month_prefix(employee, date) + rest;
    reveal_strlit("ctl00$mp$RG_Days_");
    reveal_strlit("ctl00$mp$scriptBox");
    reveal_strlit("ctl00$mp$ScriptBox");
    reveal_strlit("H-XSRF-Token");
    reveal_strlit("ctl00_mp_RG_Days_");
    reveal_strlit("ReportPageMode");
    reveal_strlit("hiddenInputToUpdateATBuffer_CommonToolkitScripts");
    reveal_strlit("__NextBtnState");
    reveal_strlit("__PrevBtnState");
    assert(key[0] == 'c' && key[5] == '$' && key[9] == 'R');
    if name == grid_id(employee, date) + "_data"@ {
        assert(name[5] == '_');
    } else if name == "ctl00$mp$scriptBox"@ {
        assert(name[9] == 's');
    } else if name == "ctl00$mp$ScriptBox"@ {
        assert(name[9] == 'S');
    } else if name == "H-XSRF-Token"@ {
        assert(name[0] == 'H');
    } else if name == "ReportPageMode"@ {
        assert(name[0] == 'R');
    } else if name == "hiddenInputToUpdateATBuffer_CommonToolkitScripts"@ {
        assert(name[0] == 'h');
    } else {
        assert(name[0] == '_');
    }
}

proof fn page_overrides_leave_the_day_alone(
    sent: Map<Seq<char>, Seq<char>>,
    input: ReplayInput,
    rest: Seq<char>,
)
    requires
        rest != "$btnSave"@,
    ensures
        last_value(
            page_overrides(sent, input),
            month_prefix(page_employee(input.fields, input.user_id), input.submit.date) + rest,
        ) is None,
{
    let employee = page_employee(input.fields, input.user_id);
    let date = input.submit.date;
    let prefix = month_prefix(employee, date);
    let key = prefix + rest;
    let list = page_overrides(sent, input);
    assert forall|i: int| 0 <= i < list.len() implies (#[trigger] list[i]).0 != key by {
        if i == list.len() - 1 {
            assert(list[i].0 == prefix + "$btnSave"@);
            if list[i].0 == key {
                assert(rest =~= key.skip(prefix.len() as int));
                assert("$btnSave"@ =~= list[i].0.skip(prefix.len() as int));
            }
        } else {
            assert(is_page_name(employee, date, list[i].0));
            page_names_are_no_day_fields(employee, date, list[i].0, rest);
        }
    }
    no_value_for(list, key);
}

proof fn no_value_for(list: Seq<(Seq<char>, Seq<char>)>, key: Seq<char>)
    requires
        forall|i: int| 0 <= i < list.len() ==> (#[trigger] list[i]).0 != key,
    ensures
        last_value(list, key) is None,
    decreases list.len(),
{
    if list.len() > 0 {
        assert(list[list.len() - 1].0 != key);
        assert forall|i: int| 0 <= i < list.drop_last().len() implies (#[trigger] list.drop_last()[i]).0
            != key by {
            assert(list.drop_last()[i] == list[i]);
        }
        no_value_for(list.drop_last(), key);
    }
}

// ---------------------------------------------------------------------------
// The form of a day
// ---------------------------------------------------------------------------

/// The form that is posted to write a day.
pub open spec fn posted_form(input: ReplayInput) -> Map<Seq<char>, Seq<char>> {
    overridden(replay_fields(input), replay_overrides(input))
}

/// The value that a form gives a key, where it has one.
pub open spec fn value_in(form: Map<Seq<char>, Seq<char>>, key: Seq<char>) -> Option<Seq<char>> {
    if form.dom().contains(key) {
        Some(form[key])
    } else {
        None
    }
}

proof fn day_values(input: ReplayInput, key: Seq<char>)
    ensures
        ({
            let employee = page_employee(input.fields, input.user_id);
            let date = input.submit.date;
            last_value(day_overrides(month_prefix(employee, date), input.submit, input.page), key)
                == (if key == completion_field(employee, date) {
                if input.page == SubmitPage::ErrorWizard && input.submit.entry_time is None
                    && input.submit.exit_time is None {
                    Some("on"@)
                } else {
                    None
                }
            } else if key == comment_field(employee, date) {
                or_else(
                    input.submit.comment,
                    if input.submit.clear_comment {
                        Some(""@)
                    } else {
                        None
                    },
                )
            } else if key == kind_field(employee, date) {
                or_else(
                    input.submit.attendance_type_code,
                    if input.submit.default_work_day {
                        Some("0"@)
                    } else {
                        None
                    },
                )
            } else if key == exit_field(employee, date) {
                or_else(
                    input.submit.exit_time,
                    if input.submit.clear_exit {
                        Some(""@)
                    } else {
                        None
                    },
                )
            } else if key == entry_field(employee, date) {
                or_else(
                    input.submit.entry_time,
                    if input.submit.clear_entry {
                        Some(""@)
                    } else {
                        None
                    },
                )
            } else {
                None
            })
        }),
{
    let employee = page_employee(input.fields, input.user_id);
    let date = input.submit.date;
    let submit = input.submit;
    let prefix = month_prefix(employee, date);
    day_fields_differ(employee, date);
    let clear_entry = crate::submit::text_if(submit.clear_entry, ""@);
    let clear_exit = crate::submit::text_if(submit.clear_exit, ""@);
    let default_kind = crate::submit::text_if(submit.default_work_day, "0"@);
    let clear_comment = crate::submit::text_if(submit.clear_comment, ""@);
    let completes = crate::submit::text_if(
        input.page == SubmitPage::ErrorWizard && crate::submit::without_times(submit),
        "on"@,
    );
    let a = day_override(entry_field(employee, date), submit.entry_time, clear_entry);
    let b = day_override(exit_field(employee, date), submit.exit_time, clear_exit);
    let c = day_override(kind_field(employee, date), submit.attendance_type_code, default_kind);
    let d = day_override(comment_field(employee, date), submit.comment, clear_comment);
    let e = day_override(completion_field(employee, date), completes, None);
    assert(day_overrides(prefix, submit, input.page) == a + b + c + d + e);
    last_value_of_both(a + b + c + d, e, key);
    last_value_of_both(a + b + c, d, key);
    last_value_of_both(a + b, c, key);
    last_value_of_both(a, b, key);
    last_value_of_a_day_override(
        entry_field(employee, date),
        submit.entry_time,
        clear_entry,
        key,
    );
    last_value_of_a_day_override(exit_field(employee, date), submit.exit_time, clear_exit, key);
    last_value_of_a_day_override(
        kind_field(employee, date),
        submit.attendance_type_code,
        default_kind,
        key,
    );
    last_value_of_a_day_override(
        comment_field(employee, date),
        submit.comment,
        clear_comment,
        key,
    );
    last_value_of_a_day_override(completion_field(employee, date), completes, None, key);
}

proof fn posted_day_value(input: ReplayInput, rest: Seq<char>)
    requires
        rest != "$btnSave"@,
    ensures
        ({
            let employee = page_employee(input.fields, input.user_id);
            let date = input.submit.date;
            let key = month_prefix(employee, date) + rest;
            let day = last_value(
                day_overrides(month_prefix(employee, date), input.submit, input.page),
                key,
            );
            value_in(posted_form(input), key) == or_else(day, value_in(replay_fields(input), key))
        }),
{
    let employee = page_employee(input.fields, input.user_id);
    let date = input.submit.date;
    let prefix = month_prefix(employee, date);
    let key = prefix + rest;
    assert(replay_prefix(input) == prefix);
    let day = day_overrides(prefix, input.submit, input.page);
    let page = page_overrides(replay_fields(input), input);
    page_overrides_leave_the_day_alone(replay_fields(input), input, rest);
    last_value_of_both(day, page, key);
    an_override_takes_the_place_of_a_field(replay_fields(input), replay_overrides(input), key);
}

/// The page's own value of a field of the day is sent as it is, but for the
/// one that completes the day to the standard, which is not sent.
pub proof fn the_days_own_fields_are_sent(input: ReplayInput, rest: Seq<char>)
    requires
        rest != "$btnSave"@,
    ensures
        ({
            let employee = page_employee(input.fields, input.user_id);
            let date = input.submit.date;
            let key = month_prefix(employee, date) + rest;
            value_in(replay_fields(input), key) == (if key == completion_field(employee, date) {
                None
            } else {
                value_in(input.fields, key)
            })
        }),
{
    let employee = page_employee(input.fields, input.user_id);
    let date = input.submit.date;
    let prefix = month_prefix(employee, date);
    let key = prefix + rest;
    assert(key.take(prefix.len() as int) == prefix);
    reveal_strlit("ctl00$mp$Strip$ACESearch_Value");
    reveal_strlit("ctl00$mp$RG_Days_");
    assert(key[9] == 'R');
    assert("ctl00$mp$Strip$ACESearch_Value"@[9] == 'S');
}

/// The form of a day gives its entry field the entry time of the write and its
/// exit field the exit time; a time that is to be cleared is empty; and a time
/// that the write does not speak of is as the page has it.
pub proof fn a_write_posts_its_times(input: ReplayInput)
    ensures
        ({
            let employee = page_employee(input.fields, input.user_id);
            let entry = entry_field(employee, input.submit.date);
            let exit = exit_field(employee, input.submit.date);
            let form = posted_form(input);
            &&& input.submit.entry_time matches Some(time) ==> value_in(form, entry) == Some(time)
            &&& input.submit.entry_time is None && input.submit.clear_entry ==> value_in(
                form,
                entry,
            ) == Some(""@)
            &&& input.submit.entry_time is None && !input.submit.clear_entry ==> value_in(
                form,
                entry,
            ) == value_in(input.fields, entry)
            &&& input.submit.exit_time matches Some(time) ==> value_in(form, exit) == Some(time)
            &&& input.submit.exit_time is None && input.submit.clear_exit ==> value_in(form, exit)
                == Some(""@)
            &&& input.submit.exit_time is None && !input.submit.clear_exit ==> value_in(form, exit)
                == value_in(input.fields, exit)
        }),
{
    let employee = page_employee(input.fields, input.user_id);
    let date = input.submit.date;
    let entry = "$cellOf_ManualEntry_EmployeeReports_row_0_0$ManualEntry_EmployeeReports_row_0_0"@;
    let exit = "$cellOf_ManualExit_EmployeeReports_row_0_0$ManualExit_EmployeeReports_row_0_0"@;
    reveal_strlit("$cellOf_ManualEntry_EmployeeReports_row_0_0$ManualEntry_EmployeeReports_row_0_0");
    reveal_strlit("$cellOf_ManualExit_EmployeeReports_row_0_0$ManualExit_EmployeeReports_row_0_0");
    reveal_strlit("$btnSave");
    assert(entry.len() != "$btnSave"@.len());
    assert(exit.len() != "$btnSave"@.len());
    day_fields_differ(employee, date);
    day_values(input, entry_field(employee, date));
    day_values(input, exit_field(employee, date));
    posted_day_value(input, entry);
    posted_day_value(input, exit);
    the_days_own_fields_are_sent(input, entry);
    the_days_own_fields_are_sent(input, exit);
}

/// The form of a day gives the day's kind field the kind of the write, or the
/// usual one where that is wanted, and the comment field its comment; else
/// they are as the page has them.
pub proof fn a_write_posts_its_kind_and_comment(input: ReplayInput)
    ensures
        ({
            let employee = page_employee(input.fields, input.user_id);
            let kind = kind_field(employee, input.submit.date);
            let comment = comment_field(employee, input.submit.date);
            let form = posted_form(input);
            &&& input.submit.attendance_type_code matches Some(code) ==> value_in(form, kind)
                == Some(code)
            &&& input.submit.attendance_type_code is None && input.submit.default_work_day
                ==> value_in(form, kind) == Some("0"@)
            &&& input.submit.attendance_type_code is None && !input.submit.default_work_day
                ==> value_in(form, kind) == value_in(input.fields, kind)
            &&& input.submit.comment matches Some(words) ==> value_in(form, comment) == Some(words)
            &&& input.submit.comment is None && input.submit.clear_comment ==> value_in(
                form,
                comment,
            ) == Some(""@)
            &&& input.submit.comment is None && !input.submit.clear_comment ==> value_in(
                form,
                comment,
            ) == value_in(input.fields, comment)
        }),
{
    let employee = page_employee(input.fields, input.user_id);
    let date = input.submit.date;
    let kind =
        "$cellOf_Symbol.SymbolId_EmployeeReports_row_0_0$Symbol.SymbolId_EmployeeReports_row_0_0"@;
    let comment = "$cellOf_Comment_EmployeeReports_row_0_0$Comment_EmployeeReports_row_0_0"@;
    reveal_strlit(
        "$cellOf_Symbol.SymbolId_EmployeeReports_row_0_0$Symbol.SymbolId_EmployeeReports_row_0_0",
    );
    reveal_strlit("$cellOf_Comment_EmployeeReports_row_0_0$Comment_EmployeeReports_row_0_0");
    reveal_strlit("$btnSave");
    assert(kind.len() != "$btnSave"@.len());
    assert(comment.len() != "$btnSave"@.len());
    day_fields_differ(employee, date);
    day_values(input, kind_field(employee, date));
    day_values(input, comment_field(employee, date));
    posted_day_value(input, kind);
    posted_day_value(input, comment);
    the_days_own_fields_are_sent(input, kind);
    the_days_own_fields_are_sent(input, comment);
}

/// A day is completed to the standard only on the error page, and there just
/// where the write has neither time.
pub proof fn a_write_completes_a_day_without_times(input: ReplayInput)
    ensures
        ({
            let employee = page_employee(input.fields, input.user_id);
            let completion = completion_field(employee, input.submit.date);
            value_in(posted_form(input), completion) == (if input.page == SubmitPage::ErrorWizard
                && input.submit.entry_time is None && input.submit.exit_time is None {
                Some("on"@)
            } else {
                None
            })
        }),
{
    let employee = page_employee(input.fields, input.user_id);
    let date = input.submit.date;
    let completion =
        "$cellOf_CompletionToStandard_EmployeeReports_row_0_0$CompletionToStandard_EmployeeReports_row_0_0"@;
    reveal_strlit(
        "$cellOf_CompletionToStandard_EmployeeReports_row_0_0$CompletionToStandard_EmployeeReports_row_0_0",
    );
    reveal_strlit("$btnSave");
    assert(completion.len() != "$btnSave"@.len());
    day_fields_differ(employee, date);
    day_values(input, completion_field(employee, date));
    posted_day_value(input, completion);
    the_days_own_fields_are_sent(input, completion);
}

/// The record that goes with a write, which names the employee, the day and
/// the report, and marks the whole row as changed.
pub open spec fn marked_row(input: ReplayInput, completion: bool) -> Seq<char> {
    "[{\"DirtyFields\":{\"ManualEntry\":true,\"ManualExit\":true,\"Comment\":true,\"Symbol.SymbolId\":true"@
        + (if completion {
        ",\"CompletionToStandard\":true"@
    } else {
        ""@
    }) + "},\"EmployeeId\":"@ + decimal(input.short_employee_id)
        + ",\"IsRangeObject\":false,\"ReportDate\":\""@ + signed_decimal(input.submit.date.year)
        + "-"@ + decimal(input.submit.date.month as nat) + "-"@ + decimal(
        input.submit.date.day as nat,
    ) + "\",\"RequestRowName\":\"row_0_0\",\"ReportTypeName\":\"RG\",\"ObjectId\":\""@
        + input.object_id + "\"}]"@
}

/// The form of a day presses the day's save button, sends the token of the
/// page, says on which page it is written, and names the employee, the day and
/// the report that it writes.
pub proof fn a_write_names_what_it_writes(input: ReplayInput)
    ensures
        ({
            let employee = page_employee(input.fields, input.user_id);
            let date = input.submit.date;
            let form = posted_form(input);
            let without_times = input.submit.entry_time is None && input.submit.exit_time is None;
            &&& value_in(form, save_field(employee, date)) == Some(input.button_value)
            &&& value_in(form, "ReportPageMode"@) == Some(
                if input.page == SubmitPage::Calendar {
                    "2"@
                } else {
                    "Days"@
                },
            )
            &&& value_in(form, "H-XSRF-Token"@) == Some(
                if input.fields.dom().contains("H-XSRF-Token"@) {
                    input.fields["H-XSRF-Token"@]
                } else {
                    ""@
                },
            )
            &&& value_in(
                form,
                "ctl00_mp_RG_Days_"@ + employee + "_"@ + signed_padded(date.year, 4) + "_"@
                    + padded(date.month as nat, 2) + "_reportsGrid_data"@,
            ) == Some(marked_row(input, input.page == SubmitPage::Calendar || without_times))
        }),
{
    let employee = page_employee(input.fields, input.user_id);
    let date = input.submit.date;
    let prefix = month_prefix(employee, date);
    let sent = replay_fields(input);
    let list = page_overrides(sent, input);
    let day = day_overrides(prefix, input.submit, input.page);
    let grid = grid_id(employee, date) + "_data"@;
    let shown = "ctl00_mp_RG_Days_"@ + employee + "_"@ + signed_padded(date.year, 4) + "_"@
        + padded(date.month as nat, 2) + "_reportsGrid_data"@;
    reveal_strlit("_reportsGrid");
    reveal_strlit("_data");
    reveal_strlit("_reportsGrid_data");
    assert("_reportsGrid"@ + "_data"@ =~= "_reportsGrid_data"@);
    assert(grid =~= shown);
    reveal_strlit("ctl00$mp$RG_Days_");
    reveal_strlit("ctl00$mp$scriptBox");
    reveal_strlit("ctl00$mp$ScriptBox");
    reveal_strlit("H-XSRF-Token");
    reveal_strlit("ctl00_mp_RG_Days_");
    reveal_strlit("ReportPageMode");
    reveal_strlit("hiddenInputToUpdateATBuffer_CommonToolkitScripts");
    reveal_strlit("__NextBtnState");
    reveal_strlit("__PrevBtnState");
    reveal_strlit("$btnSave");
    let save = prefix + "$btnSave"@;
    assert(save == save_field(employee, date));
    assert(save[0] == 'c' && save[5] == '$' && save[9] == 'R');
    assert(grid[0] == 'c' && grid[5] == '_');
    let mode = "ReportPageMode"@;
    let token = "H-XSRF-Token"@;
    assert(mode[0] == 'R' && token[0] == 'H');
    assert("hiddenInputToUpdateATBuffer_CommonToolkitScripts"@[0] == 'h');
    assert("__NextBtnState"@[0] == '_' && "__PrevBtnState"@[0] == '_');
    let last = (save, input.button_value);
    let count = list.len() as int;
    assert(list[count - 1] == last);
    assert(list.drop_last().push(last) == list);
    last_value_of_both(day, list, save);
    last_value_of_both(day, list, mode);
    last_value_of_both(day, list, token);
    last_value_of_both(day, list, grid);
    an_override_takes_the_place_of_a_field(sent, replay_overrides(input), save);
    an_override_takes_the_place_of_a_field(sent, replay_overrides(input), mode);
    an_override_takes_the_place_of_a_field(sent, replay_overrides(input), token);
    an_override_takes_the_place_of_a_field(sent, replay_overrides(input), grid);
    value_at(list, 1, token);
    value_at(list, 2, grid);
    value_at(list, 3, mode);
    value_at(list, count - 1, save);
    assert(list[2].1 == marked_row(
        input,
        input.page == SubmitPage::Calendar || crate::submit::without_times(input.submit),
    )) by {
        reveal_strlit("[{\"DirtyFields\":{");
        reveal_strlit("\"ManualEntry\":true,\"ManualExit\":true,\"Comment\":true,\"Symbol.SymbolId\":true");
        reveal_strlit(
            "[{\"DirtyFields\":{\"ManualEntry\":true,\"ManualExit\":true,\"Comment\":true,\"Symbol.SymbolId\":true",
        );
        assert("[{\"DirtyFields\":{"@
            + "\"ManualEntry\":true,\"ManualExit\":true,\"Comment\":true,\"Symbol.SymbolId\":true"@
            =~= "[{\"DirtyFields\":{\"ManualEntry\":true,\"ManualExit\":true,\"Comment\":true,\"Symbol.SymbolId\":true"@);
        assert(list[2].1 =~= marked_row(
            input,
            input.page == SubmitPage::Calendar || crate::submit::without_times(input.submit),
        ));
    }
    the_token_is_sent(input);
}

proof fn the_token_is_sent(input: ReplayInput)
    ensures
        value_in(replay_fields(input), "H-XSRF-Token"@) == value_in(
            input.fields,
            "H-XSRF-Token"@,
        ),
{
    let token = "H-XSRF-Token"@;
    let names = crate::submit::browser_fields(input.page);
    assert(names[1] == token);
    assert(names.contains(token));
    reveal_strlit("H-XSRF-Token");
    reveal_strlit("ctl00$mp$RG_Days_");
    reveal_strlit("ctl00$mp$Strip$ACESearch_Value");
    let completion = completion_field(
        page_employee(input.fields, input.user_id),
        input.submit.date,
    );
    assert(completion[0] == 'c');
    assert(token[0] == 'H' && "ctl00$mp$Strip$ACESearch_Value"@[0] == 'c');
}

pub(crate) proof fn value_at(list: Seq<(Seq<char>, Seq<char>)>, at: int, key: Seq<char>)
    requires
        0 <= at < list.len(),
        list[at].0 == key,
        forall|i: int| at < i < list.len() ==> (#[trigger] list[i]).0 != key,
    ensures
        last_value(list, key) == Some(list[at].1),
    decreases list.len(),
{
    if at < list.len() - 1 {
        let rest = list.drop_last();
        assert(list[list.len() - 1].0 != key);
        assert forall|i: int| at < i < rest.len() implies (#[trigger] rest[i]).0 != key by {
            assert(rest[i] == list[i]);
        }
        assert(rest[at] == list[at]);
        value_at(rest, at, key);
    }
}

} // verus!
