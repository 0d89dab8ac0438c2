//! Laws of salaries.

use crate::client::{
    amount_in, amounts_in, data_rows, digits_of, given_salaries, gross_amount, gross_label,
    last_two, named_cell, paired_salaries, pairs_without, salaries_of, salary_form, salary_months,
    salary_row, selected_months, shown_cells, shown_rows, token_months, CellView, SalaryInitialData,
    SalaryTableColumn, SalaryView,
};
use crate::date::{parsed_date, CalendarDate};
use crate::dom::{select_in, spaced_text, Dom, Selector};
use crate::fields::sorted_pairs;
use crate::laws::months::{a_shift_counts_months, months_follow_each_other};
use crate::laws::texts::{all_digits, digits_are_read_as_their_number, number_of};
use crate::salary::{
    after_fall, after_load, after_post, after_service, months_told, next_step, page_summary,
    service_summary, summary_of, ActionView, FetchView, SalaryStageView, SummaryView,
};
use crate::text::{opt_text, padded, signed_padded, texts};
use vstd::prelude::*;

verus! {

// ---------------------------------------------------------------------------
// Amounts
// ---------------------------------------------------------------------------

proof fn digits_of_are_digits(text: Seq<char>)
    ensures
        all_digits(digits_of(text)),
        digits_of(text) == text.filter(|c: char| '0' <= c <= '9'),
    decreases text.len(),
{
    reveal(Seq::filter);
    if text.len() > 0 {
        digits_of_are_digits(text.drop_last());
        let front = digits_of(text.drop_last());
        let all = digits_of(text);
        assert forall|i: int| 0 <= i < all.len() implies '0' <= #[trigger] all[i] <= '9' by {
            if i < front.len() {
                assert(all[i] == front[i]);
            }
        }
    }
}

/// The amount that a text shows is the number of all its digits, whatever
/// stands between them; a text without digits shows none.
pub proof fn an_amount_is_the_number_of_its_digits(text: Seq<char>)
    ensures
        ({
            let digits = text.filter(|c: char| '0' <= c <= '9');
            &&& (digits.len() == 0 ==> amount_in(text) is None)
            &&& (digits.len() > 0 && number_of(digits) <= u64::MAX ==> (amount_in(
                text,
            ) matches Some(amount) && amount == number_of(digits)))
            &&& (digits.len() > 0 && number_of(digits) > u64::MAX ==> amount_in(text) is None)
        }),
{
    digits_of_are_digits(text);
    digits_are_read_as_their_number(digits_of(text));
}

/// The gross amount of a row is that of its first cell named `Bruto`: the
/// number, or the amount that the text shows.
pub proof fn a_gross_amount_is_that_of_its_cell(row: Seq<(Seq<char>, CellView)>, at: int)
    requires
        0 <= at < row.len(),
        row[at].0 == "Bruto"@,
        forall|i: int| 0 <= i < at ==> (#[trigger] row[i]).0 != "Bruto"@,
    ensures
        row[at].1 matches CellView::Number(Some(amount)) ==> gross_amount(row) == Ok::<
            nat,
            Seq<char>,
        >(amount),
        row[at].1 matches CellView::Text(text) ==> (amount_in(text) matches Some(amount)
            ==> gross_amount(row) == Ok::<nat, Seq<char>>(amount)),
        row[at].1 is Other ==> gross_amount(row) is Err,
{
    the_first_cell_of_a_name(row, "Bruto"@, at);
}

proof fn the_first_cell_of_a_name(row: Seq<(Seq<char>, CellView)>, name: Seq<char>, at: int)
    requires
        0 <= at < row.len(),
        row[at].0 == name,
        forall|i: int| 0 <= i < at ==> (#[trigger] row[i]).0 != name,
    ensures
        named_cell(row, name) == Some(row[at].1),
    decreases row.len(),
{
    if at > 0 {
        assert(row[0].0 != name);
        let rest = row.skip(1);
        assert(rest[at - 1] == row[at]);
        assert forall|i: int| 0 <= i < at - 1 implies (#[trigger] rest[i]).0 != name by {
            assert(rest[i] == row[i + 1]);
        }
        the_first_cell_of_a_name(rest, name, at - 1);
    }
}

/// The change of a salary is reckoned from the last but one to the last, in
/// this order, and not from nothing.
pub proof fn a_change_is_from_the_last_but_one(entries: Seq<SalaryView>)
    ensures
        entries.len() >= 2 && entries[entries.len() - 2].amount > 0 ==> last_two(entries) == Some(
            (entries[entries.len() - 2].amount, entries[entries.len() - 1].amount),
        ),
        entries.len() < 2 ==> last_two(entries) is None,
        entries.len() >= 2 && entries[entries.len() - 2].amount == 0 ==> last_two(entries) is None,
{
}

// ---------------------------------------------------------------------------
// What the service gives
// ---------------------------------------------------------------------------

proof fn salaries_are_one_for_one(
    months: Seq<CalendarDate>,
    rows: Seq<Seq<(Seq<char>, CellView)>>,
    count: nat,
)
    requires
        count <= months.len(),
        count <= rows.len(),
    ensures
        salaries_of(months, rows, count) matches Ok(entries) ==> entries.len() == count && forall|
            i: int,
        |
            0 <= i < count ==> (#[trigger] entries[i]).month == months[i] && gross_amount(rows[i])
                == Ok::<nat, Seq<char>>(entries[i].amount),
    decreases count,
{
    if count > 0 {
        salaries_are_one_for_one(months, rows, (count - 1) as nat);
    }
}

/// The service's salaries are those of the last months and the last rows, as
/// many as are asked for and given, each month with its own row.
pub proof fn the_last_salaries_are_given(
    months: Seq<CalendarDate>,
    rows: Seq<Seq<(Seq<char>, CellView)>>,
    requested: nat,
)
    ensures
        given_salaries(Ok(months), rows, requested) matches Ok(entries) ==> {
            &&& entries.len() <= requested && entries.len() <= months.len() && entries.len()
                <= rows.len()
            &&& entries.len() == requested || entries.len() == months.len() || entries.len()
                == rows.len()
            &&& forall|i: int|
                0 <= i < entries.len() ==> (#[trigger] entries[i]).month == months[months.len()
                    - entries.len() + i] && gross_amount(rows[rows.len() - entries.len() + i])
                    == Ok::<nat, Seq<char>>(entries[i].amount)
        },
        months.len() == 0 || rows.len() == 0 ==> given_salaries(Ok(months), rows, requested)
            is Err,
{
    let available = crate::client::smaller(months.len(), rows.len());
    let count = crate::client::smaller(requested, available);
    if available > 0 {
        salaries_are_one_for_one(
            months.skip(months.len() - count),
            rows.skip(rows.len() - count),
            count,
        );
    }
}

/// The months of salaries are those that are selected, in their order, or the
/// single one where none is.
pub proof fn salaries_are_of_the_selected_months(
    dates: Seq<Seq<char>>,
    single: Option<Seq<char>>,
)
    ensures
        dates.len() > 0 ==> (selected_months(dates, single) matches Ok(months) ==> months.len()
            == dates.len() && forall|i: int|
            0 <= i < dates.len() ==> parsed_date("01/"@ + dates[i], "%d/%m/%Y"@) == Ok::<
                CalendarDate,
                Seq<char>,
            >(#[trigger] months[i])),
        dates.len() == 0 ==> (single matches Some(token) ==> (selected_months(
            dates,
            single,
        ) matches Ok(months) ==> months.len() == 1 && parsed_date(
            "01/"@ + token,
            "%d/%m/%Y"@,
        ) == Ok::<CalendarDate, Seq<char>>(months[0]))),
        dates.len() == 0 && single is None ==> selected_months(dates, single) is Err,
{
    months_are_read_in_order(dates);
    if let Some(token) = single {
        months_are_read_in_order(seq![token]);
    }
}

proof fn months_are_read_in_order(tokens: Seq<Seq<char>>)
    ensures
        token_months(tokens) matches Ok(months) ==> months.len() == tokens.len() && forall|i: int|
            0 <= i < tokens.len() ==> parsed_date("01/"@ + tokens[i], "%d/%m/%Y"@) == Ok::<
                CalendarDate,
                Seq<char>,
            >(#[trigger] months[i]),
    decreases tokens.len(),
{
    if tokens.len() > 0 {
        months_are_read_in_order(tokens.drop_last());
    }
}

// ---------------------------------------------------------------------------
// What the page shows
// ---------------------------------------------------------------------------

/// The salaries of a page are those of its months, in their order, with the
/// last amounts of the row.
pub proof fn the_last_amounts_are_those_of_the_months(
    months: Seq<CalendarDate>,
    amounts: Seq<nat>,
    back: int,
)
    requires
        1 <= back <= months.len(),
        months.len() <= amounts.len(),
    ensures
        paired_salaries(months, amounts).len() == months.len(),
        paired_salaries(months, amounts)[months.len() - back].month == months[months.len() - back],
        paired_salaries(months, amounts)[months.len() - back].amount == amounts[amounts.len()
            - back],
{
}

/// The row of salaries is the first with enough amounts behind its label.
pub proof fn the_row_has_enough_amounts(rows: Seq<Seq<Seq<char>>>, months: nat, at: int)
    requires
        0 <= at < rows.len(),
        rows[at].len() > 0,
        amounts_in(rows[at].skip(1)).len() >= months,
        forall|i: int|
            0 <= i < at ==> (#[trigger] rows[i]).len() == 0 || amounts_in(rows[i].skip(1)).len()
                < months,
    ensures
        salary_row(rows, months) == Some((rows[at][0], amounts_in(rows[at].skip(1)))),
    decreases rows.len(),
{
    if at > 0 {
        assert(rows[0].len() == 0 || amounts_in(rows[0].skip(1)).len() < months);
        let rest = rows.skip(1);
        assert(rest[at - 1] == rows[at]);
        assert forall|i: int| 0 <= i < at - 1 implies (#[trigger] rest[i]).len() == 0
            || amounts_in(rest[i].skip(1)).len() < months by {
            assert(rest[i] == rows[i + 1]);
        }
        the_row_has_enough_amounts(rest, months, at - 1);
    }
}

/// The months that salaries are asked for are the last before the current one,
/// the oldest first.
pub proof fn salaries_are_of_the_last_months(today: CalendarDate, months: nat, at: int)
    requires
        0 <= at < months,
    ensures
        salary_months(today, months).len() == months,
        ({
            let month = salary_months(today, months)[at];
            &&& month.year * 12 + month.month == today.year * 12 + today.month - months + at
            &&& month.day == 1
        }),
{
    a_shift_counts_months(today, -(months as int));
    months_follow_each_other(crate::months::month_shifted(today, -(months as int)), months, at);
}

/// The page is told the oldest and the latest month, in this order.
pub proof fn the_page_is_told_its_months(months: Seq<CalendarDate>)
    requires
        months.len() > 0,
    ensures
        months_told(months) == "01/"@ + padded(months[0].month as nat, 2) + "/"@ + signed_padded(
            months[0].year,
            4,
        ) + ",0,30/"@ + padded(months[months.len() - 1].month as nat, 2) + "/"@ + signed_padded(
            months[months.len() - 1].year,
            4,
        ) + ",0"@,
{
}

proof fn pairs_of_other_keys_stay(pairs: Seq<(Seq<char>, Seq<char>)>, key: Seq<char>)
    ensures
        forall|i: int|
            0 <= i < pairs.len() && (#[trigger] pairs[i]).0 != key ==> pairs_without(
                pairs,
                key,
            ).contains(pairs[i]),
        forall|i: int|
            0 <= i < pairs_without(pairs, key).len() ==> (#[trigger] pairs_without(
                pairs,
                key,
            )[i]).0 != key,
    decreases pairs.len(),
{
    if pairs.len() > 0 {
        let front = pairs.drop_last();
        pairs_of_other_keys_stay(front, key);
        let before = pairs_without(front, key);
        let all = pairs_without(pairs, key);
        assert forall|i: int| 0 <= i < pairs.len() && (#[trigger] pairs[i]).0 != key implies
            all.contains(pairs[i]) by {
            if i < front.len() {
                assert(front[i] == pairs[i]);
                assert(before.contains(front[i]));
                let k = choose|k: int| 0 <= k < before.len() && before[k] == front[i];
                assert(all[k] == pairs[i]);
            } else {
                assert(all[before.len() as int] == pairs[i]);
            }
        }
        assert forall|i: int| 0 <= i < all.len() implies (#[trigger] all[i]).0 != key by {
            if i < before.len() {
                assert(all[i] == before[i]);
            }
        }
    }
}

/// What is posted to the salary page ends with the months, tells them once,
/// and keeps the other fields of the page.
pub proof fn the_months_are_posted_once(fields: Map<Seq<char>, Seq<char>>, state: Seq<char>)
    ensures
        salary_form(fields, state).last() == ("__DatePicker_State"@, state),
        forall|i: int|
            0 <= i < salary_form(fields, state).len() - 1 ==> (#[trigger] salary_form(
                fields,
                state,
            )[i]).0 != "__DatePicker_State"@,
        forall|i: int|
            0 <= i < sorted_pairs(fields).len() && (#[trigger] sorted_pairs(fields)[i]).0
                != "__DatePicker_State"@ ==> salary_form(fields, state).contains(
                sorted_pairs(fields)[i],
            ),
{
    reveal_strlit("__DatePicker_State");
    reveal_strlit("__EVENTTARGET");
    reveal_strlit("__EVENTARGUMENT");
    assert("__DatePicker_State"@[2] == 'D' && "__EVENTTARGET"@[2] == 'E'
        && "__EVENTARGUMENT"@[2] == 'E');
    let pairs = sorted_pairs(fields);
    let kept = pairs_without(pairs, "__DatePicker_State"@);
    pairs_of_other_keys_stay(pairs, "__DatePicker_State"@);
    let form = salary_form(fields, state);
    assert(kept.len() <= form.len() - 1);
    assert forall|i: int| 0 <= i < kept.len() implies form[i] == kept[i] by {}
    assert forall|i: int|
        0 <= i < pairs.len() && (#[trigger] pairs[i]).0 != "__DatePicker_State"@ implies
        form.contains(pairs[i]) by {
        let k = choose|k: int| 0 <= k < kept.len() && kept[k] == pairs[i];
        assert(form[k] == pairs[i]);
    }
    assert forall|i: int| 0 <= i < form.len() - 1 implies (#[trigger] form[i]).0
        != "__DatePicker_State"@ by {
        if i < kept.len() {
            assert(form[i] == kept[i]);
        }
    }
}

// ---------------------------------------------------------------------------
// Fetching
// ---------------------------------------------------------------------------

/// What the service gives is taken as it is; where it gives nothing the page is
/// asked, for the last months before today's.
pub proof fn the_page_is_asked_where_the_service_gives_nothing(
    fetch: FetchView,
    summary: SummaryView,
    today: CalendarDate,
)
    ensures
        after_service(fetch, Some(summary)).stage == SalaryStageView::Finished(Ok(summary)),
        after_service(fetch, None).stage is Falling,
        after_service(fetch, None).count == fetch.count,
        after_fall(fetch, today).stage is Posting,
        after_fall(fetch, today).months == salary_months(today, fetch.count),
{
}

/// A page that shows salaries is read; one that does not is loaded anew, and
/// its fields are posted with the months once more, but not a third time.
pub proof fn a_page_without_salaries_is_asked_once_more(
    fetch: FetchView,
    html: Seq<char>,
    fields: Map<Seq<char>, Seq<char>>,
)
    ensures
        ({
            let shows = crate::client::salary_rows(crate::dom::page_of(html)).len() > 0;
            let read = SalaryStageView::Finished(page_summary(html, fetch.months));
            &&& (shows ==> after_post(fetch, Ok(html)).stage == read)
            &&& (!shows && fetch.stage is Posting ==> after_post(fetch, Ok(html)).stage is Loading)
            &&& (!(fetch.stage is Posting) ==> after_post(fetch, Ok(html)).stage == read)
            &&& (shows ==> after_load(fetch, Ok((html, fields))).stage == read)
            &&& (!shows && (exists|key: Seq<char>| fields.dom().contains(key)) ==> after_load(
                fetch,
                Ok((html, fields)),
            ).stage == SalaryStageView::Replaying(fields))
            &&& after_post(fetch, Ok(html)).months == fetch.months
        }),
        (forall|key: Seq<char>| !fields.dom().contains(key)) && crate::client::salary_rows(
            crate::dom::page_of(html),
        ).len() == 0 ==> (after_load(fetch, Ok((html, fields))).stage matches
            SalaryStageView::Finished(Err(_))),
{
    if forall|key: Seq<char>| !fields.dom().contains(key) {
        assert(fields.dom() =~= Set::<Seq<char>>::empty());
    }
}

/// What is posted tells the months of the fetch.
pub proof fn what_is_posted_tells_the_months(fetch: FetchView)
    ensures
        fetch.stage is Posting || fetch.stage is Replaying ==> (next_step(
            fetch,
        ) matches ActionView::Post(form) && form.last() == (
            "__DatePicker_State"@,
            months_told(fetch.months),
        )),
        fetch.stage is Asking <==> next_step(fetch) is AskService,
        fetch.stage is Loading <==> next_step(fetch) is Load,
        fetch.stage is Finished <==> next_step(fetch) is Finish,
{
}

/// A summary holds its label, its salaries and the change of the last two.
pub proof fn a_summary_holds_its_salaries(label: Seq<char>, entries: Seq<SalaryView>)
    ensures
        summary_of(label, entries).label == label,
        summary_of(label, entries).entries == entries,
        summary_of(label, entries).latest_change == last_two(entries),
{
}

/// The label of salaries is the name to show of the first column named
/// `Bruto`, or that name itself.
pub proof fn salaries_are_labelled_by_their_column(columns: Seq<SalaryTableColumn>, at: int)
    ensures
        0 <= at < columns.len() && columns[at].name@ == "Bruto"@ && (forall|i: int|
            0 <= i < at ==> (#[trigger] columns[i]).name@ != "Bruto"@) ==> gross_label(columns)
            == columns[at].display_name@,
        (forall|i: int| 0 <= i < columns.len() ==> (#[trigger] columns[i]).name@ != "Bruto"@)
            ==> gross_label(columns) == "Bruto"@,
    decreases columns.len(),
{
    if columns.len() > 0 {
        let rest = columns.skip(1);
        salaries_are_labelled_by_their_column(rest, at - 1);
        if 0 < at < columns.len() && columns[at].name@ == "Bruto"@ && (forall|i: int|
            0 <= i < at ==> (#[trigger] columns[i]).name@ != "Bruto"@) {
            assert(columns[0].name@ != "Bruto"@);
            assert(rest[at - 1] == columns[at]);
            assert forall|i: int| 0 <= i < at - 1 implies (#[trigger] rest[i]).name@
                != "Bruto"@ by {
                assert(rest[i] == columns[i + 1]);
            }
        }
        if forall|i: int| 0 <= i < columns.len() ==> (#[trigger] columns[i]).name@ != "Bruto"@ {
            assert(columns[0].name@ != "Bruto"@);
            assert forall|i: int| 0 <= i < rest.len() implies (#[trigger] rest[i]).name@
                != "Bruto"@ by {
                assert(rest[i] == columns[i + 1]);
            }
        }
    }
}

/// Each cell that shows an amount gives it, in the order of the cells.
pub proof fn each_cell_gives_its_amount(cells: Seq<Seq<char>>, at: int)
    requires
        0 <= at < cells.len(),
    ensures
        amount_in(cells[at]) matches Some(amount) ==> amounts_in(cells).contains(amount),
        (forall|i: int| 0 <= i < cells.len() ==> amount_in(#[trigger] cells[i]) is Some)
            ==> amounts_in(cells).len() == cells.len() && amount_in(cells[at]) == Some(
            amounts_in(cells)[at],
        ),
    decreases cells.len(),
{
    let front = cells.drop_last();
    let before = amounts_in(front);
    let all = amounts_in(cells);
    let last = cells.len() - 1;
    assert(cells[last] == cells.last());
    if front.len() > 0 {
        each_cell_gives_its_amount(
            front,
            if at < last {
                at
            } else {
                0
            },
        );
    }
    if at < last {
        assert(front[at] == cells[at]);
        if let Some(amount) = amount_in(cells[at]) {
            let k = choose|k: int| 0 <= k < before.len() && before[k] == amount;
            assert(all[k] == amount);
        }
    } else if let Some(amount) = amount_in(cells[at]) {
        assert(all[before.len() as int] == amount);
    }
    if forall|i: int| 0 <= i < cells.len() ==> amount_in(#[trigger] cells[i]) is Some {
        assert(amount_in(cells[last]) is Some);
        assert forall|i: int| 0 <= i < front.len() implies amount_in(#[trigger] front[i]) is Some by {
            assert(front[i] == cells[i]);
        }
    }
}

/// What the service gives is the summary of its salaries under its label; where
/// they cannot be read it gives none.
pub proof fn the_service_gives_its_summary(data: SalaryInitialData, months: nat)
    ensures
        ({
            let given = given_salaries(
                selected_months(texts(data.selected_dates@), opt_text(data.selected_single_date)),
                data_rows(data.table_data@),
                months,
            );
            &&& (given matches Ok(entries) ==> (service_summary(data, months) matches Some(summary)
                && summary.label == gross_label(data.table_columns@) && summary.entries == entries
                && summary.latest_change == last_two(entries)))
            &&& (given is Err ==> service_summary(data, months) is None)
        }),
{
}

/// Each cell of a row that shows something is kept, in order, and each row with
/// such a cell.
pub proof fn each_cell_that_shows_something_is_kept(dom: Dom, cells: Seq<int>, at: int)
    requires
        0 <= at < cells.len(),
        spaced_text(dom, cells[at]).len() > 0,
    ensures
        shown_cells(dom, cells).contains(spaced_text(dom, cells[at])),
    decreases cells.len(),
{
    let front = cells.drop_last();
    let before = shown_cells(dom, front);
    let all = shown_cells(dom, cells);
    let text = spaced_text(dom, cells[at]);
    if at < cells.len() - 1 {
        assert(front[at] == cells[at]);
        each_cell_that_shows_something_is_kept(dom, front, at);
        let k = choose|k: int| 0 <= k < before.len() && before[k] == text;
        assert(all[k] == text);
    } else {
        assert(all[before.len() as int] == text);
    }
}

/// Each row of a salary page that shows something is kept with its cells.
pub proof fn each_row_that_shows_something_is_kept(dom: Dom, rows: Seq<int>, at: int)
    requires
        0 <= at < rows.len(),
        shown_cells(dom, select_in(dom, rows[at], Selector::TableCell)).len() > 0,
    ensures
        shown_rows(dom, rows).contains(
            shown_cells(dom, select_in(dom, rows[at], Selector::TableCell)),
        ),
    decreases rows.len(),
{
    let front = rows.drop_last();
    let before = shown_rows(dom, front);
    let all = shown_rows(dom, rows);
    let row = shown_cells(dom, select_in(dom, rows[at], Selector::TableCell));
    if at < rows.len() - 1 {
        assert(front[at] == rows[at]);
        each_row_that_shows_something_is_kept(dom, front, at);
        let k = choose|k: int| 0 <= k < before.len() && before[k] == row;
        assert(all[k] == row);
    } else {
        assert(all[before.len() as int] == row);
    }
}

} // verus!
