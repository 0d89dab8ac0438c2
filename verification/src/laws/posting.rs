//! Laws of what is posted from a page and of how the answer is understood.

use crate::date::CalendarDate;
use crate::dom::page_of;
use crate::existing::{deletion_outcome, selection_overrides, ContextView, ReportView};
use crate::forms::{delta_records, page_fields, EntryView};
use crate::laws::calendar::{a_text_contains_what_occurs_in_it, occurs};
use crate::months::{month_field, selected_day};
use crate::submit::{
    browser_fields, fields_after, is_sent, merged_fields, page_employee, quoted_after,
    records_message, refusal, replay_shown, script_message, sent_fields, submit_outcome,
    with_hidden, with_panels, ReplayInput, SubmitPage,
};
use crate::text::{contains, index_from, index_from_is_first, padded, signed_padded, starts_with};
use vstd::prelude::*;

verus! {

// ---------------------------------------------------------------------------
// What is sent
// ---------------------------------------------------------------------------

/// Whether the calendar page's own field of a name is sent.
pub open spec fn calendar_sends(key: Seq<char>) -> bool {
    ||| key == "DisableTimeout"@
    ||| key == "H-XSRF-Token"@
    ||| key == "Time"@
    ||| key == "__EVENTARGUMENT"@
    ||| key == "__EVENTTARGET"@
    ||| key == "__LASTFOCUS"@
    ||| key == "__VIEWSTATE"@
    ||| key == "__VIEWSTATEGENERATOR"@
    ||| key == "__calendarSelectedDays"@
    ||| key == "ctl00$DummyAutoCompleteText"@
    ||| key == "ctl00$DummyAutoComplete_Value"@
    ||| key == "ctl00$mp$Strip$ACESearch_Value"@
    ||| key == "ctl00$mp$Strip$blSaveList"@
    ||| key == "ctl00$mp$Strip$hCurrentItemId"@
    ||| key == "ctl00$mp$Strip$hSelectedIds"@
    ||| key == "ctl00$mp$Strip$txtSearch"@
    ||| key == "ctl00$mp$currentMonth"@
    ||| key == "ctl00$mp$scriptBox"@
    ||| key == "ctl00$datePickerTmp$jdatePicker"@
    ||| key == "ctl00_datePickerTmp_State"@
}

/// Whether the error page's own field of a name is sent.
pub open spec fn wizard_sends(key: Seq<char>) -> bool {
    ||| key == "DisableTimeout"@
    ||| key == "H-XSRF-Token"@
    ||| key == "Time"@
    ||| key == "__EVENTARGUMENT"@
    ||| key == "__EVENTTARGET"@
    ||| key == "__VIEWSTATE"@
    ||| key == "__VIEWSTATEGENERATOR"@
    ||| key == "ctl00$DummyAutoCompleteText"@
    ||| key == "ctl00$DummyAutoComplete_Value"@
    ||| key == "ctl00$mp$ScriptBox"@
    ||| key == "ctl00$datePickerTmp$jdatePicker"@
    ||| key == "ctl00_datePickerTmp_State"@
}

/// A field is sent just where it is one of the page's own that a browser
/// sends, or one of the day.
pub proof fn only_known_fields_are_sent(prefix: Option<Seq<char>>, key: Seq<char>)
    ensures
        is_sent(SubmitPage::Calendar, prefix, key) <==> calendar_sends(key) || (prefix is Some
            && starts_with(key, prefix->Some_0)),
        is_sent(SubmitPage::ErrorWizard, prefix, key) <==> wizard_sends(key) || (prefix is Some
            && starts_with(key, prefix->Some_0)),
{
    assert(browser_fields(SubmitPage::Calendar).contains(key) <==> calendar_sends(key)) by {
        let list = browser_fields(SubmitPage::Calendar);
        if calendar_sends(key) {
            assert(list[0] == "DisableTimeout"@);
            assert(list[1] == "H-XSRF-Token"@);
            assert(list[2] == "Time"@);
            assert(list[3] == "__EVENTARGUMENT"@);
            assert(list[4] == "__EVENTTARGET"@);
            assert(list[5] == "__LASTFOCUS"@);
            assert(list[6] == "__VIEWSTATE"@);
            assert(list[7] == "__VIEWSTATEGENERATOR"@);
            assert(list[8] == "__calendarSelectedDays"@);
            assert(list[9] == "ctl00$DummyAutoCompleteText"@);
            assert(list[10] == "ctl00$DummyAutoComplete_Value"@);
            assert(list[11] == "ctl00$mp$Strip$ACESearch_Value"@);
            assert(list[12] == "ctl00$mp$Strip$blSaveList"@);
            assert(list[13] == "ctl00$mp$Strip$hCurrentItemId"@);
            assert(list[14] == "ctl00$mp$Strip$hSelectedIds"@);
            assert(list[15] == "ctl00$mp$Strip$txtSearch"@);
            assert(list[16] == "ctl00$mp$currentMonth"@);
            assert(list[17] == "ctl00$mp$scriptBox"@);
            assert(list[18] == "ctl00$datePickerTmp$jdatePicker"@);
            assert(list[19] == "ctl00_datePickerTmp_State"@);
        }
    }
    assert(browser_fields(SubmitPage::ErrorWizard).contains(key) <==> wizard_sends(key)) by {
        let list = browser_fields(SubmitPage::ErrorWizard);
        if wizard_sends(key) {
            assert(list[0] == "DisableTimeout"@);
            assert(list[1] == "H-XSRF-Token"@);
            assert(list[2] == "Time"@);
            assert(list[3] == "__EVENTARGUMENT"@);
            assert(list[4] == "__EVENTTARGET"@);
            assert(list[5] == "__VIEWSTATE"@);
            assert(list[6] == "__VIEWSTATEGENERATOR"@);
            assert(list[7] == "ctl00$DummyAutoCompleteText"@);
            assert(list[8] == "ctl00$DummyAutoComplete_Value"@);
            assert(list[9] == "ctl00$mp$ScriptBox"@);
            assert(list[10] == "ctl00$datePickerTmp$jdatePicker"@);
            assert(list[11] == "ctl00_datePickerTmp_State"@);
        }
    }
}

/// What is sent of a page is sent as it is, and nothing else is sent.
pub proof fn what_is_sent_is_sent_as_it_is(
    fields: Map<Seq<char>, Seq<char>>,
    page: SubmitPage,
    prefix: Option<Seq<char>>,
    key: Seq<char>,
)
    ensures
        sent_fields(fields, page, prefix).dom().contains(key) ==> fields.dom().contains(key)
            && sent_fields(fields, page, prefix)[key] == fields[key],
        fields.dom().contains(key) && is_sent(page, prefix, key) ==> sent_fields(
            fields,
            page,
            prefix,
        ).dom().contains(key),
        !is_sent(page, prefix, key) ==> !sent_fields(fields, page, prefix).dom().contains(key),
{
}

/// A write is about the employee that the page has current, or else about the
/// one who is signed in.
pub proof fn a_write_is_about_the_pages_employee(
    fields: Map<Seq<char>, Seq<char>>,
    user_id: Seq<char>,
)
    ensures
        fields.dom().contains("ctl00$mp$Strip$hCurrentItemId"@)
            && fields["ctl00$mp$Strip$hCurrentItemId"@].len() > 0 ==> page_employee(fields, user_id)
            == fields["ctl00$mp$Strip$hCurrentItemId"@],
        !fields.dom().contains("ctl00$mp$Strip$hCurrentItemId"@) ==> page_employee(fields, user_id)
            == user_id,
        fields.dom().contains("ctl00$mp$Strip$hCurrentItemId"@)
            && fields["ctl00$mp$Strip$hCurrentItemId"@].len() == 0 ==> page_employee(
            fields,
            user_id,
        ) == user_id,
{
}

/// A write is shown with its address, its button, its employee and whether it
/// was carried out.
pub proof fn a_write_is_shown_as_it_is(input: ReplayInput, executed: bool)
    ensures
        ({
            let shown = replay_shown(input, executed);
            &&& shown.url == input.url
            &&& shown.executed == executed
            &&& shown.button_value == input.button_value
            &&& shown.employee_id == page_employee(input.fields, input.user_id)
            &&& shown.button_name == "ctl00$mp$RG_Days_"@ + page_employee(
                input.fields,
                input.user_id,
            ) + "_"@ + signed_padded(input.submit.date.year, 4) + "_"@ + padded(
                input.submit.date.month as nat,
                2,
            ) + "$btnSave"@
        }),
{
}

/// A day is selected with a comma before its number, on its own month.
pub proof fn a_day_is_selected_with_a_comma(date: CalendarDate)
    ensures
        selection_overrides(date).contains(("__calendarSelectedDays"@, ","@ + selected_day(date))),
        selection_overrides(date).contains(("ctl00$mp$currentMonth"@, month_field(date))),
        selection_overrides(date).len() == 3,
{
    assert(selection_overrides(date)[0] == ("__calendarSelectedDays"@, ","@ + selected_day(date)));
    assert(selection_overrides(date)[1] == ("ctl00$mp$currentMonth"@, month_field(date)));
}

// ---------------------------------------------------------------------------
// Answers
// ---------------------------------------------------------------------------

/// What stands between a mark and the next `')` is found, wherever there is
/// such a place, and holds no such end.
pub proof fn what_is_quoted_stands_between_its_marks(text: Seq<char>, mark: Seq<char>)
    requires
        mark.len() > 0,
    ensures
        match quoted_after(text, mark) {
            Some(message) => occurs(mark + message + "')"@, text) && !occurs("')"@, message),
            None => forall|message: Seq<char>| !occurs(#[trigger] (mark + message + "')"@), text),
        },
        !occurs(mark, text) ==> quoted_after(text, mark) is None,
{
    reveal_strlit("')");
    index_from_is_first(text, mark, 0);
    match index_from(text, mark, 0) {
        Some(at) => {
            let from = at + mark.len() as int;
            index_from_is_first(text, "')"@, from);
            match index_from(text, "')"@, from) {
                Some(end) => {
                    let message = text.subrange(from, end);
                    let whole = mark + message + "')"@;
                    assert(text.subrange(at, at + whole.len()) == whole) by {
                        let part = text.subrange(at, at + whole.len());
                        assert(text.subrange(at, from) == mark);
                        assert(text.subrange(end, end + 2) == "')"@);
                        assert forall|i: int| 0 <= i < whole.len() implies part[i] == whole[i] by {
                            if i < mark.len() {
                                assert(part[i] == text.subrange(at, from)[i]);
                            } else if i >= mark.len() + message.len() {
                                assert(part[i] == text.subrange(end, end + 2)[i - mark.len()
                                    - message.len()]);
                            }
                        }
                    }
                    if occurs("')"@, message) {
                        let k = choose|k: int|
                            0 <= k && k + 2 <= message.len() && #[trigger] message.subrange(
                                k,
                                k + 2,
                            ) == "')"@;
                        assert(text.subrange(from + k, from + k + 2) == message.subrange(k, k + 2));
                    }
                },
                None => {
                    assert forall|message: Seq<char>| !occurs(
                        #[trigger] (mark + message + "')"@),
                        text,
                    ) by {
                        if occurs(mark + message + "')"@, text) {
                            let k = where_it_is_quoted(text, mark, message);
                            if k < at {
                                assert(text.subrange(k, k + mark.len()) == mark);
                            }
                            let end = k + mark.len() + message.len();
                            assert(text.subrange(end, end + 2) == "')"@);
                        }
                    }
                },
            }
        },
        None => {
            assert forall|message: Seq<char>| !occurs(
                #[trigger] (mark + message + "')"@),
                text,
            ) by {
                if occurs(mark + message + "')"@, text) {
                    let k = where_it_is_quoted(text, mark, message);
                    assert(text.subrange(k, k + mark.len()) == mark);
                }
            }
        },
    }
}

proof fn where_it_is_quoted(text: Seq<char>, mark: Seq<char>, message: Seq<char>) -> (k: int)
    requires
        occurs(mark + message + "')"@, text),
    ensures
        0 <= k,
        k + mark.len() + message.len() + 2 <= text.len(),
        text.subrange(k, k + mark.len()) == mark,
        text.subrange(k + mark.len() + message.len(), k + mark.len() + message.len() + 2) == "')"@,
{
    reveal_strlit("')");
    let whole = mark + message + "')"@;
    let k = choose|k: int|
        0 <= k && k + whole.len() <= text.len() && #[trigger] text.subrange(k, k + whole.len())
            == whole;
    let end = k + mark.len() + message.len();
    assert forall|i: int| 0 <= i < mark.len() implies text.subrange(k, k + mark.len())[i]
        == mark[i] by {
        assert(text.subrange(k, k + whole.len())[i] == whole[i]);
    }
    assert forall|i: int| 0 <= i < 2 implies text.subrange(end, end + 2)[i] == "')"@[i] by {
        assert(text.subrange(k, k + whole.len())[i + mark.len() + message.len()] == whole[i
            + mark.len() + message.len()]);
    }
    assert(text.subrange(k, k + mark.len()) == mark);
    assert(text.subrange(end, end + 2) == "')"@);
    k
}

/// A script's message is that of its alert, else of its warning, else of its
/// error.
pub proof fn a_script_says_its_message(text: Seq<char>)
    ensures
        quoted_after(text, "alert('"@) matches Some(message) ==> script_message(text) == Some(
            message,
        ),
        quoted_after(text, "alert('"@) is None ==> (quoted_after(text, "HWarning('"@) matches Some(
            message,
        ) ==> script_message(text) == Some(message)),
        quoted_after(text, "alert('"@) is None && quoted_after(text, "HWarning('"@) is None ==> (
        quoted_after(text, "HError('"@) matches Some(message) ==> script_message(text) == Some(
            message,
        )),
        !occurs("alert('"@, text) && !occurs("HWarning('"@, text) && !occurs("HError('"@, text)
            ==> script_message(text) is None,
{
    reveal_strlit("alert('");
    reveal_strlit("HWarning('");
    reveal_strlit("HError('");
    what_is_quoted_stands_between_its_marks(text, "alert('"@);
    what_is_quoted_stands_between_its_marks(text, "HWarning('"@);
    what_is_quoted_stands_between_its_marks(text, "HError('"@);
}

/// Whether a record is a script with a message.
pub open spec fn tells(entry: EntryView) -> bool {
    (entry.kind == "scriptStartupBlock"@ || entry.kind == "scriptBlock"@) && script_message(
        entry.content,
    ) is Some
}

/// A partial answer refuses with the message of its first script that has one.
pub proof fn the_first_script_tells_the_refusal(entries: Seq<EntryView>)
    ensures
        forall|at: int|
            0 <= at < entries.len() && tells(#[trigger] entries[at]) && (forall|i: int|
                0 <= i < at ==> !tells(#[trigger] entries[i])) ==> records_message(entries)
                == script_message(entries[at].content),
        (forall|i: int| 0 <= i < entries.len() ==> !tells(#[trigger] entries[i]))
            ==> records_message(entries) is None,
    decreases entries.len(),
{
    if entries.len() > 0 {
        let rest = entries.skip(1);
        the_first_script_tells_the_refusal(rest);
        assert forall|at: int|
            0 <= at < entries.len() && tells(#[trigger] entries[at]) && (forall|i: int|
                0 <= i < at ==> !tells(#[trigger] entries[i])) implies records_message(entries)
            == script_message(entries[at].content) by {
            if at > 0 {
                assert(!tells(entries[0]));
                assert(rest[at - 1] == entries[at]);
                assert forall|i: int| 0 <= i < at - 1 implies !tells(#[trigger] rest[i]) by {
                    assert(rest[i] == entries[i + 1]);
                }
            }
        }
        if forall|i: int| 0 <= i < entries.len() ==> !tells(#[trigger] entries[i]) {
            assert(!tells(entries[0]));
            assert forall|i: int| 0 <= i < rest.len() implies !tells(#[trigger] rest[i]) by {
                assert(rest[i] == entries[i + 1]);
            }
        }
    }
}

/// An answer with a message refuses the write and says so; one without is
/// taken.
pub proof fn an_answer_with_a_message_refuses(response: Seq<char>)
    ensures
        records_message(delta_records(response)) matches Some(message) ==> submit_outcome(response)
            == Some("Hilan rejected attendance submit: "@ + message),
        records_message(delta_records(response)) is None ==> (script_message(
            response,
        ) matches Some(message) ==> submit_outcome(response) == Some(
            "Hilan rejected attendance submit: "@ + message,
        )),
        records_message(delta_records(response)) is None && script_message(response) is None
            ==> submit_outcome(response) is None,
{
}

/// A refused deletion is an error with the service's words; one that is taken
/// keeps the day, its employee and its address.
pub proof fn a_deletion_is_refused_by_a_message(
    context: ContextView,
    report: ReportView,
    response: Seq<char>,
)
    ensures
        refusal(response) matches Some(message) ==> deletion_outcome(context, report, response)
            == Err::<ContextView, Seq<char>>("Hilan rejected attendance delete: "@ + message),
        refusal(response) is None ==> (deletion_outcome(context, report, response) matches Ok(after)
            && after.date == context.date && after.employee_id == context.employee_id && after.url
            == context.url),
{
}

/// A whole page gives its own fields; a partial answer changes those of the
/// page before.
pub proof fn a_whole_page_gives_its_own_fields(
    fields: Map<Seq<char>, Seq<char>>,
    response: Seq<char>,
)
    ensures
        occurs("<html"@, response) || occurs("<!DOCTYPE"@, response) ==> fields_after(
            fields,
            response,
        ) == page_fields(page_of(response)),
        !occurs("<html"@, response) && !occurs("<!DOCTYPE"@, response) ==> fields_after(
            fields,
            response,
        ) == merged_fields(fields, delta_records(response)),
{
    a_text_contains_what_occurs_in_it(response, "<html"@);
    a_text_contains_what_occurs_in_it(response, "<!DOCTYPE"@);
}

/// A hidden field of a partial answer is taken in under its id, where no later
/// one has the same; what the answer does not name stays.
pub proof fn a_hidden_field_is_taken_in(
    fields: Map<Seq<char>, Seq<char>>,
    entries: Seq<EntryView>,
    key: Seq<char>,
)
    ensures
        forall|at: int|
            0 <= at < entries.len() && (#[trigger] entries[at]).kind == "hiddenField"@
                && entries[at].id == key && (forall|j: int|
                at < j < entries.len() ==> !((#[trigger] entries[j]).kind == "hiddenField"@
                    && entries[j].id == key)) ==> with_hidden(fields, entries).dom().contains(key)
                && with_hidden(fields, entries)[key] == entries[at].content,
        (forall|i: int|
            0 <= i < entries.len() ==> !((#[trigger] entries[i]).kind == "hiddenField"@
                && entries[i].id == key)) ==> (with_hidden(fields, entries).dom().contains(key)
            <==> fields.dom().contains(key)) && (fields.dom().contains(key) ==> with_hidden(
            fields,
            entries,
        )[key] == fields[key]),
    decreases entries.len(),
{
    if entries.len() > 0 {
        let front = entries.drop_last();
        let last = entries.len() - 1;
        a_hidden_field_is_taken_in(fields, front, key);
        assert(entries[last] == entries.last());
        assert forall|at: int|
            0 <= at < entries.len() && (#[trigger] entries[at]).kind == "hiddenField"@
                && entries[at].id == key && (forall|j: int|
                at < j < entries.len() ==> !((#[trigger] entries[j]).kind == "hiddenField"@
                    && entries[j].id == key)) implies with_hidden(fields, entries).dom().contains(
            key,
        ) && with_hidden(fields, entries)[key] == entries[at].content by {
            if at < last {
                assert(front[at] == entries[at]);
                assert(!(entries[last].kind == "hiddenField"@ && entries[last].id == key));
                assert forall|j: int| at < j < front.len() implies !((#[trigger] front[j]).kind
                    == "hiddenField"@ && front[j].id == key) by {
                    assert(front[j] == entries[j]);
                }
            }
        }
        if forall|i: int|
            0 <= i < entries.len() ==> !((#[trigger] entries[i]).kind == "hiddenField"@
                && entries[i].id == key) {
            assert(!(entries[last].kind == "hiddenField"@ && entries[last].id == key));
            assert forall|i: int| 0 <= i < front.len() implies !((#[trigger] front[i]).kind
                == "hiddenField"@ && front[i].id == key) by {
                assert(front[i] == entries[i]);
            }
        }
    }
}

/// A panel of a partial answer gives its fields, where no later panel does.
pub proof fn a_panel_gives_its_fields(
    fields: Map<Seq<char>, Seq<char>>,
    entries: Seq<EntryView>,
    key: Seq<char>,
)
    requires
        entries.len() > 0,
        entries.last().kind == "updatePanel"@,
    ensures
        ({
            let inside = page_fields(
                page_of(
                    "<html><body><form id=\"aspnetForm\">"@ + entries.last().content
                        + "</form></body></html>"@,
                ),
            );
            &&& (inside.dom().contains(key) ==> merged_fields(fields, entries).dom().contains(key)
                && merged_fields(fields, entries)[key] == inside[key])
            &&& (!inside.dom().contains(key) ==> (merged_fields(fields, entries).dom().contains(
                key,
            ) <==> with_panels(with_hidden(fields, entries), entries.drop_last()).dom().contains(
                key,
            )))
        }),
{
}

} // verus!
