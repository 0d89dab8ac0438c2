//! Laws of pages: what a form sends, how it is shown, partial answers, and the
//! tables of reports.

use crate::dom::{attr_at, select, select_in, spaced_text, text_in, Dom, Selector};
use crate::fields::sorted_pairs;
use crate::forms::{
    attr_or, byte_len, chars_of_units, chars_within, control_sends, field_line, field_lines,
    first_record, form_of, new_lines, page_fields, shown_form, shown_value, with_controls,
    with_entry, Control, EntryView,
};
use crate::laws::texts::{a_number_is_written_by_its_digits, digits_are_read_as_their_number};
use crate::reports::{
    element_table, largest_table, page_table, percent_encoded, table_of_rows, table_size,
    whole_address, TableView,
};
use crate::text::{char_from, contains, decimal, joined, lowercased, parsed_up_to, starts_with};
use vstd::prelude::*;

verus! {

// ---------------------------------------------------------------------------
// Forms
// ---------------------------------------------------------------------------

/// A button sends nothing of its own, a box or a choice only where it is
/// marked, and any other input its value.
pub proof fn an_input_sends_its_value(dom: Dom, input: int)
    ensures
        ({
            let kind = lowercased(attr_or(dom, input, "type"@, "text"@));
            let marked = attr_at(dom, input, "checked"@) is Some;
            let button = kind == "submit"@ || kind == "button"@ || kind == "image"@ || kind
                == "reset"@;
            let box_or_choice = kind == "checkbox"@ || kind == "radio"@;
            let sent = control_sends(dom, input, Control::Input);
            &&& (button ==> sent is None)
            &&& (!button && box_or_choice ==> (sent is Some <==> marked))
            &&& (!button && !box_or_choice ==> (attr_at(dom, input, "value"@) matches Some(value)
                ==> sent == Some(value)))
            &&& (!button && !box_or_choice && attr_at(dom, input, "value"@) is None ==> sent
                == Some(""@))
            &&& (kind == "radio"@ && marked && !button && kind != "checkbox"@ ==> (attr_at(
                dom,
                input,
                "value"@,
            ) matches Some(value) ==> sent == Some(value)))
        }),
{
}

/// A drop-down sends the value of its first option that is marked, or of its
/// first one where none is.
pub proof fn a_drop_down_sends_what_is_chosen(dom: Dom, drop_down: int)
    ensures
        ({
            let chosen = select_in(dom, drop_down, Selector::SelectedOption);
            let options = select_in(dom, drop_down, Selector::AnyOption);
            let sent = control_sends(dom, drop_down, Control::DropDown);
            &&& (chosen.len() > 0 ==> sent == Some(attr_or(dom, chosen[0], "value"@, ""@)))
            &&& (chosen.len() == 0 && options.len() > 0 ==> sent == Some(
                attr_or(dom, options[0], "value"@, ""@),
            ))
            &&& (chosen.len() == 0 && options.len() == 0 ==> sent is None)
        }),
        control_sends(dom, drop_down, Control::TextArea) == Some(text_in(dom, drop_down)),
{
}

/// The last value that the elements of a list send under a name.
pub open spec fn last_sent(dom: Dom, list: Seq<int>, control: Control, name: Seq<char>) -> Option<
    Seq<char>,
>
    decreases list.len(),
{
    if list.len() == 0 {
        None
    } else if attr_or(dom, list.last(), "name"@, ""@) == name && control_sends(
        dom,
        list.last(),
        control,
    ) is Some {
        control_sends(dom, list.last(), control)
    } else {
        last_sent(dom, list.drop_last(), control, name)
    }
}

proof fn the_last_element_decides(
    fields: Map<Seq<char>, Seq<char>>,
    dom: Dom,
    list: Seq<int>,
    control: Control,
    name: Seq<char>,
)
    requires
        name.len() > 0,
    ensures
        ({
            let all = with_controls(fields, dom, list, control);
            match last_sent(dom, list, control, name) {
                Some(value) => all.dom().contains(name) && all[name] == value,
                None => (all.dom().contains(name) <==> fields.dom().contains(name)) && (
                fields.dom().contains(name) ==> all[name] == fields[name]),
            }
        }),
    decreases list.len(),
{
    if list.len() > 0 {
        the_last_element_decides(fields, dom, list.drop_last(), control, name);
    }
}

/// A page has under a name what its form sends there: a text area before a
/// drop-down before an input, and of several of a sort the last.
pub proof fn a_page_has_what_its_form_sends(dom: Dom, form: int, name: Seq<char>)
    requires
        form_of(dom) == Some(form),
        name.len() > 0,
    ensures
        ({
            let fields = page_fields(dom);
            let input = last_sent(
                dom,
                select_in(dom, form, Selector::Input),
                Control::Input,
                name,
            );
            let chosen = last_sent(
                dom,
                select_in(dom, form, Selector::Select),
                Control::DropDown,
                name,
            );
            let area = last_sent(
                dom,
                select_in(dom, form, Selector::TextArea),
                Control::TextArea,
                name,
            );
            &&& (fields.dom().contains(name) <==> input is Some || chosen is Some || area is Some)
            &&& (area matches Some(value) ==> fields[name] == value)
            &&& (area is None ==> (chosen matches Some(value) ==> fields[name] == value))
            &&& (area is None && chosen is None ==> (input matches Some(value) ==> fields[name]
                == value))
        }),
{
    let inputs = with_controls(
        Map::empty(),
        dom,
        select_in(dom, form, Selector::Input),
        Control::Input,
    );
    let drop_downs = with_controls(
        inputs,
        dom,
        select_in(dom, form, Selector::Select),
        Control::DropDown,
    );
    the_last_element_decides(
        Map::empty(),
        dom,
        select_in(dom, form, Selector::Input),
        Control::Input,
        name,
    );
    the_last_element_decides(
        inputs,
        dom,
        select_in(dom, form, Selector::Select),
        Control::DropDown,
        name,
    );
    the_last_element_decides(
        drop_downs,
        dom,
        select_in(dom, form, Selector::TextArea),
        Control::TextArea,
        name,
    );
}

/// The form of a page is the one with the known id, or else the first.
pub proof fn the_form_is_the_known_one(dom: Dom)
    ensures
        select(dom, Selector::AspNetForm).len() > 0 ==> form_of(dom) == Some(
            select(dom, Selector::AspNetForm)[0],
        ),
        select(dom, Selector::AspNetForm).len() == 0 && select(dom, Selector::AnyForm).len() > 0
            ==> form_of(dom) == Some(select(dom, Selector::AnyForm)[0]),
        select(dom, Selector::AspNetForm).len() == 0 && select(dom, Selector::AnyForm).len() == 0
            ==> form_of(dom) is None,
{
}

/// Whether the name of a field says that its value is secret.
pub open spec fn says_secret(key: Seq<char>) -> bool {
    contains(key, "__VIEWSTATE"@) || contains(key, "password"@) || contains(key, "Password"@)
        || contains(key, "token"@) || contains(key, "Token"@)
}

/// Of a secret value of more than eight bytes at most the first four
/// characters are shown, and of another of more than eighty at most the first
/// forty; any other is shown as it is.
pub proof fn secret_values_are_not_shown(key: Seq<char>, value: Seq<char>)
    ensures
        says_secret(key) && byte_len(value) > 8 ==> exists|count: int|
            0 <= count <= 4 && shown_value(key, value) == #[trigger] value.take(count) + "...("@
                + decimal(byte_len(value)) + " chars)"@,
        !says_secret(key) && byte_len(value) > 80 ==> exists|count: int|
            0 <= count <= 40 && shown_value(key, value) == #[trigger] value.take(count) + "...("@
                + decimal(byte_len(value)) + " chars)"@,
        byte_len(value) <= 8 || (!says_secret(key) && byte_len(value) <= 80) ==> shown_value(
            key,
            value,
        ) == value,
{
    let patterns = crate::forms::sensitive_patterns();
    if says_secret(key) {
        assert(patterns[0] == "__VIEWSTATE"@ && patterns[1] == "password"@ && patterns[2]
            == "Password"@ && patterns[3] == "token"@ && patterns[4] == "Token"@);
        assert(crate::text::contains_any(key, patterns)) by {
            if contains(key, "__VIEWSTATE"@) {
                assert(contains(key, patterns[0]));
            } else if contains(key, "password"@) {
                assert(contains(key, patterns[1]));
            } else if contains(key, "Password"@) {
                assert(contains(key, patterns[2]));
            } else if contains(key, "token"@) {
                assert(contains(key, patterns[3]));
            } else {
                assert(contains(key, patterns[4]));
            }
        }
    }
    few_characters_fit(value, 4);
    few_characters_fit(value, 40);
    let few = value.take(chars_within(value, 4) as int);
    let more = value.take(chars_within(value, 40) as int);
    assert(few == value.take(chars_within(value, 4) as int));
    assert(more == value.take(chars_within(value, 40) as int));
}

proof fn few_characters_fit(text: Seq<char>, bytes: nat)
    ensures
        chars_within(text, bytes) <= bytes,
        chars_within(text, bytes) <= text.len(),
    decreases text.len(),
{
    if text.len() > 0 && crate::forms::char_bytes(text[0]) <= bytes {
        few_characters_fit(
            text.skip(1),
            (bytes - crate::forms::char_bytes(text[0])) as nat,
        );
    }
}

// ---------------------------------------------------------------------------
// Partial answers
// ---------------------------------------------------------------------------

proof fn the_mark_is_found(text: Seq<char>, from: int, at: int)
    requires
        0 <= from <= at < text.len(),
        text[at] == '|',
        forall|i: int| from <= i < at ==> #[trigger] text[i] != '|',
    ensures
        char_from(text, '|', from) == Some(at),
    decreases at - from,
{
    if from < at {
        the_mark_is_found(text, from + 1, at);
    }
}

proof fn units_of_plain_characters(text: Seq<char>, count: nat)
    requires
        count <= text.len(),
        forall|i: int| 0 <= i < count ==> (#[trigger] text[i] as int) < 0x10000,
    ensures
        chars_of_units(text, count) == Some(count),
    decreases count,
{
    if count > 0 {
        let rest = text.skip(1);
        assert((text[0] as int) < 0x10000);
        assert forall|i: int| 0 <= i < count - 1 implies (#[trigger] rest[i] as int) < 0x10000 by {
            assert(rest[i] == text[i + 1]);
        }
        units_of_plain_characters(rest, (count - 1) as nat);
    }
}

/// A record of an answer is read as it was written: its kind, its id and its
/// content, whatever the content holds and whatever comes behind.
#[verifier::rlimit(40)]
pub proof fn a_record_is_read_as_it_was_written(
    kind: Seq<char>,
    id: Seq<char>,
    content: Seq<char>,
    behind: Seq<char>,
)
    requires
        !kind.contains('|'),
        !id.contains('|'),
        content.len() <= u32::MAX,
        forall|i: int| 0 <= i < content.len() ==> (#[trigger] content[i] as int) < 0x10000,
    ensures
        ({
            let text = decimal(content.len()) + seq!['|'] + kind + seq!['|'] + id + seq!['|']
                + content + seq!['|'] + behind;
            first_record(text) == Some(
                (EntryView { kind, id, content }, text.len() - behind.len()),
            )
        }),
{
    let number = decimal(content.len());
    a_number_is_written_by_its_digits(content.len());
    digits_are_read_as_their_number(number);
    let text = number + seq!['|'] + kind + seq!['|'] + id + seq!['|'] + content + seq!['|']
        + behind;
    let a = number.len() as int;
    let b = a + 1 + kind.len();
    let c = b + 1 + id.len();
    let end = c + 1 + content.len();
    assert forall|i: int| 0 <= i < a implies #[trigger] text[i] != '|' by {
        assert(text[i] == number[i]);
    }
    the_mark_is_found(text, 0, a);
    assert forall|i: int| a + 1 <= i < b implies #[trigger] text[i] != '|' by {
        assert(text[i] == kind[i - a - 1]);
    }
    the_mark_is_found(text, a + 1, b);
    assert forall|i: int| b + 1 <= i < c implies #[trigger] text[i] != '|' by {
        assert(text[i] == id[i - b - 1]);
    }
    the_mark_is_found(text, b + 1, c);
    assert(text.take(a) == number);
    assert('0' <= number[0] <= '9');
    assert(parsed_up_to(text.take(a), u32::MAX as nat) == Some(content.len()));
    let tail = text.skip(c + 1);
    assert forall|i: int| 0 <= i < content.len() implies (#[trigger] tail[i] as int) < 0x10000 by {
        assert(tail[i] == content[i]);
    }
    units_of_plain_characters(tail, content.len());
    assert(text[end] == '|');
    assert(text.subrange(a + 1, b) == kind);
    assert(text.subrange(b + 1, c) == id);
    assert(text.subrange(c + 1, end) == content);
}

/// A record that is put in is there, takes the place of one of its kind and
/// id alone, and leaves the others.
pub proof fn a_record_takes_its_own_place(entries: Seq<EntryView>, entry: EntryView)
    ensures
        with_entry(entries, entry).contains(entry),
        forall|i: int|
            0 <= i < entries.len() && ((#[trigger] entries[i]).kind != entry.kind || entries[i].id
                != entry.id) ==> with_entry(entries, entry).contains(entries[i]),
        forall|i: int|
            0 <= i < with_entry(entries, entry).len() ==> (#[trigger] with_entry(
                entries,
                entry,
            )[i]) == entry || entries.contains(with_entry(entries, entry)[i]),
    decreases entries.len(),
{
    let all = with_entry(entries, entry);
    if entries.len() == 0 {
        assert(all[0] == entry);
    } else {
        let rest = entries.skip(1);
        if entries[0].kind == entry.kind && entries[0].id == entry.id {
            assert(all == seq![entry] + rest);
            assert(all[0] == entry);
            assert forall|i: int|
                0 <= i < entries.len() && ((#[trigger] entries[i]).kind != entry.kind
                    || entries[i].id != entry.id) implies all.contains(entries[i]) by {
                assert(all[i] == entries[i]);
            }
            assert forall|i: int| 0 <= i < all.len() implies (#[trigger] all[i]) == entry
                || entries.contains(all[i]) by {
                if i > 0 {
                    assert(all[i] == entries[i]);
                }
            }
        } else if crate::forms::entry_before(entry, entries[0]) {
            assert(all == seq![entry] + entries);
            assert(all[0] == entry);
            assert forall|i: int| 0 <= i < entries.len() implies all.contains(
                #[trigger] entries[i],
            ) by {
                assert(all[i + 1] == entries[i]);
            }
            assert forall|i: int| 0 <= i < all.len() implies (#[trigger] all[i]) == entry
                || entries.contains(all[i]) by {
                if i > 0 {
                    assert(all[i] == entries[i - 1]);
                }
            }
        } else {
            a_record_takes_its_own_place(rest, entry);
            let more = with_entry(rest, entry);
            assert(all == seq![entries[0]] + more);
            let k = choose|k: int| 0 <= k < more.len() && more[k] == entry;
            assert(all[k + 1] == entry);
            assert forall|i: int|
                0 <= i < entries.len() && ((#[trigger] entries[i]).kind != entry.kind
                    || entries[i].id != entry.id) implies all.contains(entries[i]) by {
                if i == 0 {
                    assert(all[0] == entries[0]);
                } else {
                    assert(rest[i - 1] == entries[i]);
                    assert(more.contains(rest[i - 1]));
                    let m = choose|m: int| 0 <= m < more.len() && more[m] == rest[i - 1];
                    assert(all[m + 1] == entries[i]);
                }
            }
            assert forall|i: int| 0 <= i < all.len() implies (#[trigger] all[i]) == entry
                || entries.contains(all[i]) by {
                if i == 0 {
                    assert(all[0] == entries[0]);
                } else {
                    assert(all[i] == more[i - 1]);
                    if more[i - 1] != entry {
                        let m = choose|m: int| 0 <= m < rest.len() && rest[m] == more[i - 1];
                        assert(entries[m + 1] == all[i]);
                    }
                }
            }
        }
    }
}

// ---------------------------------------------------------------------------
// Reports
// ---------------------------------------------------------------------------

/// The texts of the cells that a row has of a sort.
pub open spec fn row_cells(dom: Dom, row: int, selector: Selector) -> Seq<Seq<char>> {
    select_in(dom, row, selector).map_values(|cell: int| spaced_text(dom, cell))
}

/// A row without header cells stands in the table with its cells, and the
/// headers are those of the last row that has some.
pub proof fn each_row_stands_in_the_table(dom: Dom, rows: Seq<int>, at: int)
    requires
        0 <= at < rows.len(),
    ensures
        row_cells(dom, rows[at], Selector::HeaderCell).len() == 0 && row_cells(
            dom,
            rows[at],
            Selector::TableCell,
        ).len() > 0 ==> table_of_rows(dom, rows).rows.contains(
            row_cells(dom, rows[at], Selector::TableCell),
        ),
        row_cells(dom, rows[at], Selector::HeaderCell).len() > 0 && (forall|j: int|
            at < j < rows.len() ==> row_cells(dom, #[trigger] rows[j], Selector::HeaderCell).len()
                == 0) ==> table_of_rows(dom, rows).headers == row_cells(
            dom,
            rows[at],
            Selector::HeaderCell,
        ),
    decreases rows.len(),
{
    let front = rows.drop_last();
    let before = table_of_rows(dom, front);
    let table = table_of_rows(dom, rows);
    let last = rows.len() - 1;
    let cells = row_cells(dom, rows[at], Selector::TableCell);
    assert(rows[last] == rows.last());
    assert(crate::reports::cells_of(dom, select_in(dom, rows.last(), Selector::HeaderCell))
        == row_cells(dom, rows[last], Selector::HeaderCell));
    assert(crate::reports::cells_of(dom, select_in(dom, rows.last(), Selector::TableCell))
        == row_cells(dom, rows[last], Selector::TableCell));
    if at < last {
        each_row_stands_in_the_table(dom, front, at);
        assert(front[at] == rows[at]);
        if before.rows.contains(cells) {
            let k = choose|k: int| 0 <= k < before.rows.len() && before.rows[k] == cells;
            assert(table.rows[k] == cells);
        }
        if forall|j: int|
            at < j < rows.len() ==> row_cells(dom, #[trigger] rows[j], Selector::HeaderCell).len()
                == 0 {
            assert(row_cells(dom, rows[last], Selector::HeaderCell).len() == 0);
            assert forall|j: int| at < j < front.len() implies row_cells(
                dom,
                #[trigger] front[j],
                Selector::HeaderCell,
            ).len() == 0 by {
                assert(front[j] == rows[j]);
            }
        }
    } else if row_cells(dom, rows[at], Selector::HeaderCell).len() == 0 && cells.len() > 0 {
        assert(table.rows == before.rows.push(cells));
        assert(table.rows[before.rows.len() as int] == cells);
    }
}

/// No table of a page is larger than the largest, its headers counted as a
/// row, and that one is of the page.
pub proof fn no_table_is_larger_than_the_largest(dom: Dom, tables: Seq<int>)
    ensures
        forall|i: int|
            0 <= i < tables.len() ==> match largest_table(dom, tables) {
                Some(best) => table_size(element_table(dom, #[trigger] tables[i])) <= table_size(
                    best,
                ),
                None => table_size(element_table(dom, tables[i])) == 0,
            },
        largest_table(dom, tables) matches Some(best) ==> table_size(best) > 0 && exists|i: int|
            0 <= i < tables.len() && best == element_table(dom, #[trigger] tables[i]),
    decreases tables.len(),
{
    if tables.len() > 0 {
        let front = tables.drop_last();
        no_table_is_larger_than_the_largest(dom, front);
        let last = tables.len() - 1;
        assert(tables[last] == tables.last());
        assert forall|i: int| 0 <= i < tables.len() implies match largest_table(dom, tables) {
            Some(best) => table_size(element_table(dom, #[trigger] tables[i])) <= table_size(best),
            None => table_size(element_table(dom, tables[i])) == 0,
        } by {
            if i < last {
                assert(front[i] == tables[i]);
            }
        }
        if let Some(best) = largest_table(dom, tables) {
            if largest_table(dom, front) == Some(best) {
                let i = choose|i: int|
                    0 <= i < front.len() && best == element_table(dom, #[trigger] front[i]);
                assert(tables[i] == front[i]);
            }
        }
    }
}

/// The size of a table is the number of its rows, and one more with headers.
pub proof fn a_table_is_as_large_as_its_rows(table: TableView)
    ensures
        table_size(table) == table.rows.len() + (if table.headers.len() > 0 {
            1int
        } else {
            0
        }),
{
}

/// An address that names its scheme is whole; another is taken from the
/// portal's.
pub proof fn an_address_is_made_whole(base_url: Seq<char>, url: Seq<char>)
    ensures
        starts_with(url, "https://"@) ==> whole_address(base_url, url) == url,
        starts_with(url, "http://"@) ==> whole_address(base_url, url) == url,
        !starts_with(url, "https://"@) && !starts_with(url, "http://"@) ==> whole_address(
            base_url,
            url,
        ) == base_url + url,
{
}

/// A hexadecimal digit is written as a digit or as a letter from A on.
pub open spec fn hex_char(value: int) -> char {
    if value < 10 {
        ('0' as int + value) as char
    } else {
        ('A' as int + value - 10) as char
    }
}

/// In an address a byte of a letter, a digit or one of `-_.~` stands for itself;
/// any other is a percent sign and its two hexadecimal digits, the higher
/// first.
pub proof fn a_byte_is_written_in_an_address(bytes: Seq<u8>, byte: u8)
    ensures
        ({
            let plain = ('0' as int <= byte <= '9' as int) || ('A' as int <= byte <= 'Z' as int) || (
            'a' as int <= byte <= 'z' as int) || byte == '-' as int || byte == '_' as int || byte
                == '.' as int || byte == '~' as int;
            percent_encoded(bytes.push(byte)) == percent_encoded(bytes) + (if plain {
                seq![byte as char]
            } else {
                seq!['%', hex_char(byte as int / 16), hex_char(byte as int % 16)]
            })
        }),
        percent_encoded(Seq::<u8>::empty()).len() == 0,
{
    reveal_strlit("0123456789ABCDEF");
    assert(bytes.push(byte).drop_last() == bytes);
    assert(forall|v: int|
        0 <= v < 16 ==> #[trigger] crate::reports::hex_digit(v) == hex_char(v));
}

/// The table of a report is that of the first grid that holds something, in the
/// order of their sorts, and the largest table where there is none.
pub proof fn the_table_is_that_of_a_grid(dom: Dom)
    ensures
        ({
            let by_view = crate::reports::grid_table(dom, Selector::GridViewTable);
            let by_grid = crate::reports::grid_table(dom, Selector::GridTable);
            let by_master = crate::reports::grid_table(dom, Selector::MasterTable);
            let by_data = crate::reports::grid_table(dom, Selector::DataGridTable);
            &&& (by_view is Some ==> page_table(dom) == by_view)
            &&& (by_view is None && by_grid is Some ==> page_table(dom) == by_grid)
            &&& (by_view is None && by_grid is None && by_master is Some ==> page_table(dom)
                == by_master)
            &&& (by_view is None && by_grid is None && by_master is None && by_data is Some
                ==> page_table(dom) == by_data)
            &&& (by_view is None && by_grid is None && by_master is None && by_data is None
                ==> page_table(dom) == largest_table(dom, select(dom, Selector::Table)))
        }),
{
}

/// A field stands on its line with its name and what is shown of its value, and
/// is marked just where something is put over it.
pub proof fn a_field_stands_on_its_line(
    key: Seq<char>,
    value: Seq<char>,
    overrides: Seq<(Seq<char>, Seq<char>)>,
)
    ensures
        (exists|i: int| 0 <= i < overrides.len() && (#[trigger] overrides[i]).0 == key)
            ==> field_line(key, value, overrides) == "  "@ + key + " = "@ + shown_value(key, value)
            + " [OVERRIDE]"@,
        !(exists|i: int| 0 <= i < overrides.len() && (#[trigger] overrides[i]).0 == key)
            ==> field_line(key, value, overrides) == "  "@ + key + " = "@ + shown_value(key, value)
            + ""@,
{
}

/// A form is shown field by field in the order of their names, and after these
/// whatever is put over it that is no field yet.
pub proof fn a_form_is_shown_field_by_field(
    fields: Map<Seq<char>, Seq<char>>,
    overrides: Seq<(Seq<char>, Seq<char>)>,
    at: int,
)
    ensures
        0 <= at < sorted_pairs(fields).len() ==> field_lines(sorted_pairs(fields), overrides)[at]
            == field_line(sorted_pairs(fields)[at].0, sorted_pairs(fields)[at].1, overrides),
        field_lines(sorted_pairs(fields), overrides).len() == sorted_pairs(fields).len(),
        0 <= at < overrides.len() && !fields.dom().contains(overrides[at].0) ==> new_lines(
            overrides,
            fields,
        ).contains(
            "  "@ + overrides[at].0 + " = "@ + shown_value(overrides[at].0, overrides[at].1)
                + " [NEW]"@,
        ),
        shown_form(fields, overrides) == joined(
            field_lines(sorted_pairs(fields), overrides) + new_lines(overrides, fields),
            "\n"@,
        ),
{
    if 0 <= at < overrides.len() && !fields.dom().contains(overrides[at].0) {
        a_new_field_has_its_line(overrides, fields, at);
    }
}

proof fn a_new_field_has_its_line(
    overrides: Seq<(Seq<char>, Seq<char>)>,
    fields: Map<Seq<char>, Seq<char>>,
    at: int,
)
    requires
        0 <= at < overrides.len(),
        !fields.dom().contains(overrides[at].0),
    ensures
        new_lines(overrides, fields).contains(
            "  "@ + overrides[at].0 + " = "@ + shown_value(overrides[at].0, overrides[at].1)
                + " [NEW]"@,
        ),
    decreases overrides.len(),
{
    let front = overrides.drop_last();
    let before = new_lines(front, fields);
    let all = new_lines(overrides, fields);
    let line = "  "@ + overrides[at].0 + " = "@ + shown_value(overrides[at].0, overrides[at].1)
        + " [NEW]"@;
    if at < overrides.len() - 1 {
        assert(front[at] == overrides[at]);
        a_new_field_has_its_line(front, fields, at);
        let k = choose|k: int| 0 <= k < before.len() && before[k] == line;
        assert(all[k] == line);
    } else {
        assert(all[before.len() as int] == line);
    }
}

/// The table of a grid is that of the first element of its sort, where that
/// holds something.
pub proof fn a_grid_gives_its_first_table(dom: Dom, selector: Selector)
    ensures
        ({
            let found = select(dom, selector);
            let table = element_table(dom, found[0]);
            &&& (found.len() == 0 ==> crate::reports::grid_table(dom, selector) is None)
            &&& (found.len() > 0 && (table.headers.len() > 0 || table.rows.len() > 0)
                ==> crate::reports::grid_table(dom, selector) == Some(table))
            &&& (found.len() > 0 && table.headers.len() == 0 && table.rows.len() == 0
                ==> crate::reports::grid_table(dom, selector) is None)
        }),
{
}

/// As many characters of a text are shown as fit: those of ASCII take one byte
/// each.
pub proof fn as_many_characters_as_fit_are_shown(text: Seq<char>, bytes: nat)
    requires
        bytes <= text.len(),
        forall|i: int| 0 <= i < text.len() ==> (#[trigger] text[i] as int) < 0x80,
    ensures
        chars_within(text, bytes) == bytes,
    decreases bytes,
{
    if bytes > 0 {
        let rest = text.skip(1);
        assert((text[0] as int) < 0x80);
        assert forall|i: int| 0 <= i < rest.len() implies (#[trigger] rest[i] as int) < 0x80 by {
            assert(rest[i] == text[i + 1]);
        }
        as_many_characters_as_fit_are_shown(rest, (bytes - 1) as nat);
    }
}

} // verus!
