//! Web forms: reading the fields of a page, building what is posted, showing
//! it, and reading the records of a partial-page answer.

use crate::calendar::first;
use crate::dom::{
    attr_at, page_of, positions, select, select_in, text_in, Dom, Page, Selector,
};
use crate::fields::{pair_texts, sorted_pairs, FormFields};
use crate::text::{
    before, chars_of, char_from, contains_any, contains_any_text, decimal, decimal_text, find_char,
    is_before, join, joined, lowercased, or_else, parse_up_to, parsed_up_to, same, slice_text,
    strs, texts, to_lowercase,
};
use vstd::prelude::*;
use vstd::string::StringSliceAdditionalSpecFns;

verus! {

// ---------------------------------------------------------------------------
// Fields of a page
// ---------------------------------------------------------------------------

/// The form of a page: the one with the id `aspnetForm`, else the first.
pub open spec fn form_of(dom: Dom) -> Option<int> {
    or_else(first(select(dom, Selector::AspNetForm)), first(select(dom, Selector::AnyForm)))
}

/// The value of an attribute, or what stands for it where it is missing.
pub open spec fn attr_or(dom: Dom, at: int, name: Seq<char>, default: Seq<char>) -> Seq<char> {
    match attr_at(dom, at, name) {
        Some(value) => value,
        None => default,
    }
}

/// The value that an input sends, where it sends one.
pub open spec fn input_sends(dom: Dom, input: int) -> Option<Seq<char>> {
    let kind = lowercased(attr_or(dom, input, "type"@, "text"@));
    let checked = attr_at(dom, input, "checked"@) is Some;
    if kind == "submit"@ || kind == "button"@ || kind == "image"@ || kind == "reset"@ {
        None
    } else if kind == "checkbox"@ {
        if checked {
            Some("on"@)
        } else {
            None
        }
    } else if kind == "radio"@ {
        if checked {
            Some(attr_or(dom, input, "value"@, "on"@))
        } else {
            None
        }
    } else {
        Some(attr_or(dom, input, "value"@, ""@))
    }
}

/// The value that a drop-down sends: that of the option marked selected, else
/// of the first.
pub open spec fn drop_down_sends(dom: Dom, drop_down: int) -> Option<Seq<char>> {
    match or_else(
        first(select_in(dom, drop_down, Selector::SelectedOption)),
        first(select_in(dom, drop_down, Selector::AnyOption)),
    ) {
        Some(option) => Some(attr_or(dom, option, "value"@, ""@)),
        None => None,
    }
}

/// The kinds of elements that send a value.
pub enum Control {
    Input,
    DropDown,
    TextArea,
}

/// The value that an element sends, where it sends one.
pub open spec fn control_sends(dom: Dom, at: int, control: Control) -> Option<Seq<char>> {
    match control {
        Control::Input => input_sends(dom, at),
        Control::DropDown => drop_down_sends(dom, at),
        Control::TextArea => Some(text_in(dom, at)),
    }
}

/// Some fields, with those that the elements of a list send under their
/// names.
pub open spec fn with_controls(
    fields: Map<Seq<char>, Seq<char>>,
    dom: Dom,
    list: Seq<int>,
    control: Control,
) -> Map<Seq<char>, Seq<char>>
    decreases list.len(),
{
    if list.len() == 0 {
        fields
    } else {
        let before = with_controls(fields, dom, list.drop_last(), control);
        let name = attr_or(dom, list.last(), "name"@, ""@);
        match control_sends(dom, list.last(), control) {
            Some(value) => if name.len() > 0 {
                before.insert(name, value)
            } else {
                before
            },
            None => before,
        }
    }
}

/// The fields of a page: those of the inputs, the drop-downs and the text
/// areas of its form.
pub open spec fn page_fields(dom: Dom) -> Map<Seq<char>, Seq<char>> {
    match form_of(dom) {
        Some(form) => {
            let inputs = with_controls(
                Map::empty(),
                dom,
                select_in(dom, form, Selector::Input),
                Control::Input,
            );
            let drop_downs = with_controls(
                inputs,
                dom,
                select_in(dom, form, Selector::Select),
                Control::DropDown,
            );
            with_controls(
                drop_downs,
                dom,
                select_in(dom, form, Selector::TextArea),
                Control::TextArea,
            )
        },
        None => Map::empty(),
    }
}

fn attr_or_default<'a>(page: &'a Page, at: usize, name: &str, default: &'a str) -> (value: &'a str)
    requires
        at < page@.nodes.len(),
    ensures
        value@ == attr_or(page@, at as int, name@, default@),
{
    match page.attr(at, name) {
        Some(value) => value,
        None => default,
    }
}

fn input_value_sent(page: &Page, input: usize) -> (value: Option<String>)
    requires
        input < page@.nodes.len(),
    ensures
        crate::text::opt_text(value) == input_sends(page@, input as int),
{
    let kind = to_lowercase(attr_or_default(page, input, "type", "text"));
    let checked = page.attr(input, "checked").is_some();
    let kind = kind.as_str();
    if same(kind, "submit") || same(kind, "button") || same(kind, "image") || same(kind, "reset") {
        None
    } else if same(kind, "checkbox") {
        if checked {
            Some("on".to_owned())
        } else {
            None
        }
    } else if same(kind, "radio") {
        if checked {
            Some(attr_or_default(page, input, "value", "on").to_owned())
        } else {
            None
        }
    } else {
        Some(attr_or_default(page, input, "value", "").to_owned())
    }
}

fn drop_down_value_sent(page: &Page, drop_down: usize) -> (value: Option<String>)
    requires
        drop_down < page@.nodes.len(),
    ensures
        crate::text::opt_text(value) == drop_down_sends(page@, drop_down as int),
{
    let selected = page.select_in(drop_down, Selector::SelectedOption);
    let options = page.select_in(drop_down, Selector::AnyOption);
    assert(selected.len() == positions(selected@).len());
    assert(options.len() == positions(options@).len());
    if selected.len() > 0 {
        assert(positions(selected@)[0] == selected@[0]);
        Some(attr_or_default(page, selected[0], "value", "").to_owned())
    } else if options.len() > 0 {
        assert(positions(options@)[0] == options@[0]);
        Some(attr_or_default(page, options[0], "value", "").to_owned())
    } else {
        None
    }
}

fn add_controls(fields: &mut FormFields, page: &Page, list: &Vec<usize>, control: Control)
    requires
        forall|i: int| 0 <= i < list.len() ==> (#[trigger] list@[i]) < page@.nodes.len(),
    ensures
        final(fields)@ == with_controls(old(fields)@, page@, positions(list@), control),
{
    let ghost all = positions(list@);
    let ghost start = fields@;
    let mut i: usize = 0;
    while i < list.len()
        invariant
            i <= list.len(),
            all == positions(list@),
            forall|j: int| 0 <= j < list.len() ==> (#[trigger] list@[j]) < page@.nodes.len(),
            fields@ == with_controls(start, page@, all.take(i as int), control),
        decreases list.len() - i,
    {
        assert(all.take(i + 1).drop_last() == all.take(i as int));
        assert(all.take(i + 1).last() == list@[i as int]);
        let at: usize = list[i];
        let name = attr_or_default(page, at, "name", "");
        proof {
            reveal_strlit("");
        }
        if !name.is_empty() {
            let value = match control {
                Control::Input => input_value_sent(page, at),
                Control::DropDown => drop_down_value_sent(page, at),
                Control::TextArea => Some(page.text_in(at)),
            };
            if let Some(value) = value {
                fields.insert(name.to_owned(), value);
            }
        }
        i = i + 1;
    }
    assert(all.take(all.len() as int) == all);
}

/// The fields of a parsed page.
pub fn fields_of_page(page: &Page) -> (fields: FormFields)
    ensures
        fields@ == page_fields(page@),
{
    let mut fields = FormFields::new();
    let own = page.select(Selector::AspNetForm);
    let any = page.select(Selector::AnyForm);
    assert(own.len() == positions(own@).len());
    assert(any.len() == positions(any@).len());
    let form: usize = if own.len() > 0 {
        assert(positions(own@)[0] == own@[0]);
        own[0]
    } else if any.len() > 0 {
        assert(positions(any@)[0] == any@[0]);
        any[0]
    } else {
        return fields;
    };
    let inputs = page.select_in(form, Selector::Input);
    add_controls(&mut fields, page, &inputs, Control::Input);
    let drop_downs = page.select_in(form, Selector::Select);
    add_controls(&mut fields, page, &drop_downs, Control::DropDown);
    let areas = page.select_in(form, Selector::TextArea);
    add_controls(&mut fields, page, &areas, Control::TextArea);
    fields
}

/// The fields of a page: those of the form with the id `aspnetForm`, else of
/// the first form. Buttons are left to the caller.
pub fn parse_aspx_form_fields(html: &str) -> (fields: FormFields)
    ensures
        fields@ == page_fields(page_of(html@)),
{
    let page = Page::parse(html);
    fields_of_page(&page)
}

// ---------------------------------------------------------------------------
// What is posted
// ---------------------------------------------------------------------------

/// Some fields with overrides put over them, in their order.
pub open spec fn overridden(
    fields: Map<Seq<char>, Seq<char>>,
    overrides: Seq<(Seq<char>, Seq<char>)>,
) -> Map<Seq<char>, Seq<char>>
    decreases overrides.len(),
{
    if overrides.len() == 0 {
        fields
    } else {
        overridden(fields, overrides.drop_last()).insert(overrides.last().0, overrides.last().1)
    }
}

fn override_fields(fields: &FormFields, overrides: &Vec<(String, String)>) -> (merged: FormFields)
    ensures
        merged@ == overridden(fields@, pair_texts(overrides@)),
{
    let ghost all = pair_texts(overrides@);
    let mut merged = fields.copy();
    let mut i: usize = 0;
    while i < overrides.len()
        invariant
            i <= overrides.len(),
            all == pair_texts(overrides@),
            merged@ == overridden(fields@, all.take(i as int)),
        decreases overrides.len() - i,
    {
        assert(all.take(i + 1).drop_last() == all.take(i as int));
        assert(all.take(i + 1).last() == (overrides@[i as int].0@, overrides@[i as int].1@));
        merged.insert(overrides[i].0.clone(), overrides[i].1.clone());
        i = i + 1;
    }
    assert(all.take(all.len() as int) == all);
    merged
}

/// What is posted when a button is pressed: the fields of the page, the
/// overrides, and the button.
pub fn button_form(
    fields: &FormFields,
    overrides: &Vec<(String, String)>,
    button_name: &str,
    button_value: &str,
) -> (form: FormFields)
    ensures
        form@ == overridden(fields@, pair_texts(overrides@)).insert(button_name@, button_value@),
{
    let mut form = override_fields(fields, overrides);
    form.insert(button_name.to_owned(), button_value.to_owned());
    form
}

/// What is posted when the page raises an event: the fields of the page, the
/// overrides, and the event's target and argument.
pub fn event_form(
    fields: &FormFields,
    overrides: &Vec<(String, String)>,
    target: &str,
    argument: &str,
) -> (form: FormFields)
    ensures
        form@ == overridden(fields@, pair_texts(overrides@)).insert(
            "__EVENTTARGET"@,
            target@,
        ).insert("__EVENTARGUMENT"@, argument@),
{
    let mut form = override_fields(fields, overrides);
    form.insert("__EVENTTARGET".to_owned(), target.to_owned());
    form.insert("__EVENTARGUMENT".to_owned(), argument.to_owned());
    form
}

/// What is posted when part of a page is to be refreshed: an event, the name
/// of what asked for it under the script manager's name, and the mark of a
/// partial request.
pub fn async_form(
    fields: &FormFields,
    overrides: &Vec<(String, String)>,
    manager_name: &str,
    manager_value: &str,
    target: &str,
    argument: &str,
) -> (form: FormFields)
    ensures
        form@ == overridden(fields@, pair_texts(overrides@)).insert(
            "__EVENTTARGET"@,
            target@,
        ).insert("__EVENTARGUMENT"@, argument@).insert(manager_name@, manager_value@).insert(
            "__ASYNCPOST"@,
            "true"@,
        ),
{
    let mut form = event_form(fields, overrides, target, argument);
    form.insert(manager_name.to_owned(), manager_value.to_owned());
    form.insert("__ASYNCPOST".to_owned(), "true".to_owned());
    form
}

// ---------------------------------------------------------------------------
// Showing a form
// ---------------------------------------------------------------------------

/// The words that mark the names of fields whose values are not shown.
pub open spec fn sensitive_patterns() -> Seq<Seq<char>> {
    seq!["__VIEWSTATE"@, "password"@, "Password"@, "token"@, "Token"@]
}

/// The number of bytes of a text.
pub open spec fn byte_len(text: Seq<char>) -> nat {
    vstd::utf8::encode_utf8(text).len() as usize as nat
}

/// The number of bytes of a character.
pub open spec fn char_bytes(c: char) -> nat {
    if (c as int) < 0x80 {
        1
    } else if (c as int) < 0x800 {
        2
    } else if (c as int) < 0x10000 {
        3
    } else {
        4
    }
}

/// How many characters of a text fit whole into a number of bytes.
pub open spec fn chars_within(text: Seq<char>, bytes: nat) -> nat
    decreases text.len(),
{
    if text.len() == 0 || char_bytes(text[0]) > bytes {
        0
    } else {
        1 + chars_within(text.skip(1), (bytes - char_bytes(text[0])) as nat)
    }
}

/// The beginning of a value and how long it is.
pub open spec fn abbreviated(value: Seq<char>, bytes: nat) -> Seq<char> {
    value.take(chars_within(value, bytes) as int) + "...("@ + decimal(byte_len(value)) + " chars)"@
}

/// How a field's value is shown: the beginning alone where it is long, and
/// less where the name marks it as sensitive.
pub open spec fn shown_value(key: Seq<char>, value: Seq<char>) -> Seq<char> {
    if contains_any(key, sensitive_patterns()) && byte_len(value) > 8 {
        abbreviated(value, 4)
    } else if byte_len(value) > 80 {
        abbreviated(value, 40)
    } else {
        value
    }
}

/// Whether a list of pairs has a key.
pub open spec fn lists_key(pairs: Seq<(Seq<char>, Seq<char>)>, key: Seq<char>) -> bool {
    exists|i: int| 0 <= i < pairs.len() && (#[trigger] pairs[i]).0 == key
}

/// The line of a field.
pub open spec fn field_line(
    key: Seq<char>,
    value: Seq<char>,
    overrides: Seq<(Seq<char>, Seq<char>)>,
) -> Seq<char> {
    "  "@ + key + " = "@ + shown_value(key, value) + if lists_key(overrides, key) {
        " [OVERRIDE]"@
    } else {
        ""@
    }
}

/// The lines of the fields.
pub open spec fn field_lines(
    pairs: Seq<(Seq<char>, Seq<char>)>,
    overrides: Seq<(Seq<char>, Seq<char>)>,
) -> Seq<Seq<char>> {
    pairs.map_values(
        |pair: (Seq<char>, Seq<char>)| field_line(pair.0, pair.1, overrides),
    )
}

/// The lines of the overrides that are no fields yet.
pub open spec fn new_lines(
    overrides: Seq<(Seq<char>, Seq<char>)>,
    fields: Map<Seq<char>, Seq<char>>,
) -> Seq<Seq<char>>
    decreases overrides.len(),
{
    if overrides.len() == 0 {
        seq![]
    } else {
        let before = new_lines(overrides.drop_last(), fields);
        let (key, value) = overrides.last();
        if fields.dom().contains(key) {
            before
        } else {
            before.push("  "@ + key + " = "@ + shown_value(key, value) + " [NEW]"@)
        }
    }
}

/// A form as it is shown before it is posted.
pub open spec fn shown_form(
    fields: Map<Seq<char>, Seq<char>>,
    overrides: Seq<(Seq<char>, Seq<char>)>,
) -> Seq<char> {
    joined(field_lines(sorted_pairs(fields), overrides) + new_lines(overrides, fields), "\n"@)
}

fn sensitive_list() -> (list: Vec<&'static str>)
    ensures
        strs(list@) == sensitive_patterns(),
{
    let list: Vec<&'static str> = vec!["__VIEWSTATE", "password", "Password", "token", "Token"];
    assert(strs(list@) == sensitive_patterns());
    list
}

fn abbreviate(value: &str, bytes: usize) -> (text: String)
    ensures
        text@ == abbreviated(value@, bytes as nat),
{
    let chars = chars_of(value);
    let mut count: usize = 0;
    let mut left: usize = bytes;
    assert(value@.skip(0) == value@);
    while count < chars.len()
        invariant
            chars@ == value@,
            count <= chars.len(),
            chars_within(value@, bytes as nat) == count + chars_within(
                value@.skip(count as int),
                left as nat,
            ),
        ensures
            chars_within(value@, bytes as nat) == count,
            count <= chars.len(),
        decreases chars.len() - count,
    {
        assert(value@.skip(count as int).skip(1) == value@.skip(count + 1));
        let c = chars[count];
        let size: usize = if c <= '\u{7f}' {
            1
        } else if c <= '\u{7ff}' {
            2
        } else if c <= '\u{ffff}' {
            3
        } else {
            4
        };
        if size > left {
            break ;
        }
        left = left - size;
        count = count + 1;
    }
    let mut text = slice_text(&chars, 0, count);
    assert(text@ == value@.take(count as int));
    text.append("...(");
    let total = decimal_text(value.len() as u64);
    text.append(total.as_str());
    text.append(" chars)");
    text
}

fn show_value(key: &str, value: &str) -> (text: String)
    ensures
        text@ == shown_value(key@, value@),
{
    let patterns = sensitive_list();
    let length: usize = value.len();
    if contains_any_text(key, &patterns) && length > 8 {
        abbreviate(value, 4)
    } else if length > 80 {
        abbreviate(value, 40)
    } else {
        value.to_owned()
    }
}

fn has_override(overrides: &Vec<(String, String)>, key: &str) -> (found: bool)
    ensures
        found == lists_key(pair_texts(overrides@), key@),
{
    let ghost all = pair_texts(overrides@);
    let mut i: usize = 0;
    while i < overrides.len()
        invariant
            i <= overrides.len(),
            all == pair_texts(overrides@),
            forall|j: int| 0 <= j < i ==> (#[trigger] all[j]).0 != key@,
        decreases overrides.len() - i,
    {
        assert(all[i as int].0 == overrides@[i as int].0@);
        if same(overrides[i].0.as_str(), key) {
            return true;
        }
        i = i + 1;
    }
    false
}

/// Shows a form before it is posted: each field in the order of the names,
/// then the overrides that are new, with long and sensitive values shortened.
pub fn format_form_fields_for_display(fields: &FormFields, overrides: &Vec<(String, String)>) -> (
    text: String)
    ensures
        text@ == shown_form(fields@, pair_texts(overrides@)),
{
    proof {
        use_type_invariant(fields);
        fields.pairs_are_sorted();
    }
    let ghost all = pair_texts(overrides@);
    let ghost pairs = fields.pairs();
    let mut lines: Vec<String> = Vec::new();
    let mut i: usize = 0;
    while i < fields.len()
        invariant
            i <= pairs.len(),
            pairs == fields.pairs(),
            all == pair_texts(overrides@),
            texts(lines@) == field_lines(pairs, all).take(i as int),
        decreases pairs.len() - i,
    {
        let ghost done = texts(lines@);
        let key = fields.key_at(i);
        let value = fields.value_at(i);
        let mut line = "  ".to_owned();
        line.append(key.as_str());
        line.append(" = ");
        let shown = show_value(key.as_str(), value.as_str());
        line.append(shown.as_str());
        if has_override(overrides, key.as_str()) {
            line.append(" [OVERRIDE]");
        } else {
            line.append("");
        }
        assert(line@ == field_lines(pairs, all)[i as int]);
        lines.push(line);
        assert(texts(lines@) == done.push(line@));
        i = i + 1;
        assert(texts(lines@) == field_lines(pairs, all).take(i as int));
    }
    let ghost first_lines = field_lines(pairs, all);
    assert(texts(lines@) == first_lines);
    let mut k: usize = 0;
    assert(first_lines + new_lines(all.take(0), fields@) == first_lines);
    while k < overrides.len()
        invariant
            k <= overrides.len(),
            all == pair_texts(overrides@),
            texts(lines@) == first_lines + new_lines(all.take(k as int), fields@),
        decreases overrides.len() - k,
    {
        let ghost done = texts(lines@);
        assert(all.take(k + 1).drop_last() == all.take(k as int));
        assert(all.take(k + 1).last() == (overrides@[k as int].0@, overrides@[k as int].1@));
        if !fields.contains_key(overrides[k].0.as_str()) {
            let mut line = "  ".to_owned();
            line.append(overrides[k].0.as_str());
            line.append(" = ");
            let shown = show_value(overrides[k].0.as_str(), overrides[k].1.as_str());
            line.append(shown.as_str());
            line.append(" [NEW]");
            let ghost added = line@;
            lines.push(line);
            assert(texts(lines@) == done.push(added));
            assert(done.push(added) == first_lines + new_lines(all.take(k as int), fields@).push(
                added,
            ));
        }
        k = k + 1;
    }
    assert(all.take(all.len() as int) == all);
    join(&lines, "\n")
}

/// The value of a field whose name marks it as sensitive is shown with at
/// most its first four bytes, where it is longer than eight.
pub proof fn sensitive_values_are_shortened(key: Seq<char>, value: Seq<char>)
    requires
        contains_any(key, sensitive_patterns()),
        byte_len(value) > 8,
    ensures
        shown_value(key, value) == value.take(chars_within(value, 4) as int) + "...("@ + decimal(
            byte_len(value),
        ) + " chars)"@,
        chars_within(value, 4) <= 4,
{
    reveal_with_fuel(chars_within, 6);
}

// ---------------------------------------------------------------------------
// Partial-page answers
// ---------------------------------------------------------------------------

/// A record of a partial-page answer.
#[derive(Debug)]
pub struct DeltaEntry {
    pub kind: String,
    pub id: String,
    pub content: String,
}

/// A record of a partial-page answer, as mathematics.
pub struct EntryView {
    pub kind: Seq<char>,
    pub id: Seq<char>,
    pub content: Seq<char>,
}

impl View for DeltaEntry {
    type V = EntryView;

    open spec fn view(&self) -> EntryView {
        EntryView { kind: self.kind@, id: self.id@, content: self.content@ }
    }
}

/// The views of a list of records.
pub open spec fn entry_views(entries: Seq<DeltaEntry>) -> Seq<EntryView> {
    entries.map_values(|entry: DeltaEntry| entry@)
}

/// Whether a record stands before another: by kind, then by id.
pub open spec fn entry_before(a: EntryView, b: EntryView) -> bool {
    before(a.kind, b.kind) || (a.kind == b.kind && before(a.id, b.id))
}

/// A list of records in their order, with one more, which takes the place of
/// one with the same kind and id.
pub open spec fn with_entry(entries: Seq<EntryView>, entry: EntryView) -> Seq<EntryView>
    decreases entries.len(),
{
    if entries.len() == 0 {
        seq![entry]
    } else if entries[0].kind == entry.kind && entries[0].id == entry.id {
        seq![entry] + entries.skip(1)
    } else if entry_before(entry, entries[0]) {
        seq![entry] + entries
    } else {
        seq![entries[0]] + with_entry(entries.skip(1), entry)
    }
}

proof fn with_entry_behind(entries: Seq<EntryView>, entry: EntryView, at: int)
    requires
        0 <= at <= entries.len(),
        forall|i: int|
            0 <= i < at ==> !((#[trigger] entries[i]).kind == entry.kind && entries[i].id
                == entry.id) && !entry_before(entry, entries[i]),
    ensures
        with_entry(entries, entry) == entries.take(at) + with_entry(entries.skip(at), entry),
    decreases at,
{
    if at == 0 {
        assert(entries.skip(0) == entries);
        assert(entries.take(0) + with_entry(entries, entry) == with_entry(entries, entry));
    } else {
        let rest = entries.skip(1);
        assert forall|i: int| 0 <= i < at - 1 implies !((#[trigger] rest[i]).kind == entry.kind
            && rest[i].id == entry.id) && !entry_before(entry, rest[i]) by {
            assert(rest[i] == entries[i + 1]);
        }
        with_entry_behind(rest, entry, at - 1);
        assert(rest.skip(at - 1) == entries.skip(at));
        assert(!(entries[0].kind == entry.kind && entries[0].id == entry.id));
        assert(seq![entries[0]] + (rest.take(at - 1) + with_entry(entries.skip(at), entry))
            == entries.take(at) + with_entry(entries.skip(at), entry));
    }
}

/// The records of a partial-page answer, in the order of kind and id.
pub struct DeltaEntries {
    pub entries: Vec<DeltaEntry>,
}

impl View for DeltaEntries {
    type V = Seq<EntryView>;

    open spec fn view(&self) -> Seq<EntryView> {
        entry_views(self.entries@)
    }
}

impl DeltaEntries {
    /// No records.
    pub fn new() -> (entries: DeltaEntries)
        ensures
            entries@ == Seq::<EntryView>::empty(),
    {
        let entries = DeltaEntries { entries: Vec::new() };
        assert(entries@ == Seq::<EntryView>::empty());
        entries
    }

    /// Adds a record, in place of one with the same kind and id.
    pub fn insert(&mut self, kind: String, id: String, content: String)
        ensures
            final(self)@ == with_entry(
                old(self)@,
                EntryView { kind: kind@, id: id@, content: content@ },
            ),
    {
        let ghost list = self@;
        let ghost new = EntryView { kind: kind@, id: id@, content: content@ };
        let mut at: usize = 0;
        let mut replace = false;
        while at < self.entries.len()
            invariant_except_break
                !replace,
            invariant
                at <= self.entries.len(),
                list == self@,
                new == (EntryView { kind: kind@, id: id@, content: content@ }),
                forall|i: int|
                    0 <= i < at ==> !((#[trigger] list[i]).kind == new.kind && list[i].id
                        == new.id) && !entry_before(new, list[i]),
            ensures
                at <= self.entries.len(),
                forall|i: int|
                    0 <= i < at ==> !((#[trigger] list[i]).kind == new.kind && list[i].id
                        == new.id) && !entry_before(new, list[i]),
                replace ==> at < list.len() && list[at as int].kind == new.kind
                    && list[at as int].id == new.id,
                !replace && at < list.len() ==> !(list[at as int].kind == new.kind
                    && list[at as int].id == new.id) && entry_before(new, list[at as int]),
            decreases self.entries.len() - at,
        {
            assert(list[at as int] == self.entries@[at as int]@);
            let own = &self.entries[at];
            let same_kind = same(own.kind.as_str(), kind.as_str());
            if same_kind && same(own.id.as_str(), id.as_str()) {
                replace = true;
                break ;
            }
            if is_before(kind.as_str(), own.kind.as_str()) || (same_kind && is_before(
                id.as_str(),
                own.id.as_str(),
            )) {
                break ;
            }
            at = at + 1;
        }
        proof {
            with_entry_behind(list, new, at as int);
        }
        let ghost rest = list.skip(at as int);
        let entry = DeltaEntry { kind, id, content };
        if replace {
            let _gone = self.entries.remove(at);
            self.entries.insert(at, entry);
            assert(self@ == list.update(at as int, new));
            assert(list.update(at as int, new) == list.take(at as int) + (seq![new] + rest.skip(
                1,
            )));
        } else {
            self.entries.insert(at, entry);
            assert(self@ == list.insert(at as int, new));
            proof {
                if at < list.len() {
                    assert(list.insert(at as int, new) == list.take(at as int) + (seq![new]
                        + rest));
                } else {
                    assert(list.insert(at as int, new) == list.take(at as int) + seq![new]);
                }
            }
        }
    }
}

/// The number of UTF-16 units of a character.
pub open spec fn char_units(c: char) -> nat {
    if (c as int) < 0x10000 {
        1
    } else {
        2
    }
}

/// How many characters make up a number of UTF-16 units at the beginning of a
/// text, where whole characters do.
pub open spec fn chars_of_units(text: Seq<char>, units: nat) -> Option<nat>
    decreases text.len(),
{
    if units == 0 {
        Some(0)
    } else if text.len() == 0 || char_units(text[0]) > units {
        None
    } else {
        match chars_of_units(text.skip(1), (units - char_units(text[0])) as nat) {
            Some(count) => Some(1 + count),
            None => None,
        }
    }
}

/// The first record of an answer, `length|kind|id|content|` with the length of
/// the content in UTF-16 units, and the place behind it.
pub open spec fn first_record(text: Seq<char>) -> Option<(EntryView, int)> {
    match char_from(text, '|', 0) {
        Some(a) => match char_from(text, '|', a + 1) {
            Some(b) => match char_from(text, '|', b + 1) {
                Some(c) => match parsed_up_to(text.take(a), u32::MAX as nat) {
                    Some(units) => match chars_of_units(text.skip(c + 1), units) {
                        Some(count) => {
                            let end = c + 1 + count;
                            if end < text.len() && text[end] == '|' {
                                Some(
                                    (
                                        EntryView {
                                            kind: text.subrange(a + 1, b),
                                            id: text.subrange(b + 1, c),
                                            content: text.subrange(c + 1, end),
                                        },
                                        end + 1,
                                    ),
                                )
                            } else {
                                None
                            }
                        },
                        None => None,
                    },
                    None => None,
                },
                None => None,
            },
            None => None,
        },
        None => None,
    }
}

/// The records of an answer up to the first place that is none, put into some
/// records.
pub open spec fn records_from(text: Seq<char>, entries: Seq<EntryView>) -> Seq<EntryView>
    decreases text.len(),
{
    match first_record(text) {
        Some((entry, end)) => if 0 < end <= text.len() {
            records_from(text.skip(end), with_entry(entries, entry))
        } else {
            entries
        },
        None => entries,
    }
}

/// The records of an answer.
pub open spec fn delta_records(text: Seq<char>) -> Seq<EntryView> {
    records_from(text, seq![])
}

proof fn count_fits(text: Seq<char>, units: nat)
    ensures
        chars_of_units(text, units) matches Some(count) ==> count <= text.len(),
    decreases text.len(),
{
    if units > 0 && text.len() > 0 && char_units(text[0]) <= units {
        count_fits(text.skip(1), (units - char_units(text[0])) as nat);
    }
}

fn count_units(chars: &Vec<char>, from: usize, units: u64) -> (count: Option<usize>)
    requires
        from <= chars.len(),
    ensures
        match count {
            Some(count) => chars_of_units(chars@.skip(from as int), units as nat) == Some(
                count as nat,
            ) && from + count <= chars.len(),
            None => chars_of_units(chars@.skip(from as int), units as nat) is None,
        },
{
    let mut at: usize = from;
    let mut left: u64 = units;
    let ghost rest = chars@.skip(from as int);
    while left > 0
        invariant
            from <= at <= chars.len(),
            rest == chars@.skip(from as int),
            match chars_of_units(chars@.skip(at as int), left as nat) {
                Some(more) => chars_of_units(rest, units as nat) == Some(
                    (at - from + more) as nat,
                ),
                None => chars_of_units(rest, units as nat) is None,
            },
        decreases left,
    {
        if at == chars.len() {
            return None;
        }
        assert(chars@.skip(at as int).skip(1) == chars@.skip(at + 1));
        let c = chars[at];
        let size: u64 = if c <= '\u{ffff}' {
            1
        } else {
            2
        };
        if size > left {
            return None;
        }
        left = left - size;
        at = at + 1;
    }
    Some(at - from)
}

proof fn char_from_moves(text: Seq<char>, c: char, from: int, base: int)
    requires
        0 <= base <= from <= text.len(),
    ensures
        match char_from(text, c, from) {
            Some(at) => char_from(text.skip(base), c, from - base) == Some(at - base) && from <= at
                < text.len(),
            None => char_from(text.skip(base), c, from - base) is None,
        },
    decreases text.len() - from,
{
    if from < text.len() {
        assert(text.skip(base)[from - base] == text[from]);
        if text[from] != c {
            char_from_moves(text, c, from + 1, base);
        }
    }
}

fn read_record(chars: &Vec<char>, from: usize) -> (record: Option<(DeltaEntry, usize)>)
    requires
        from <= chars.len(),
    ensures
        match record {
            Some((entry, end)) => from < end <= chars.len() && first_record(
                chars@.skip(from as int),
            ) == Some((entry@, end - from)),
            None => first_record(chars@.skip(from as int)) is None,
        },
{
    let ghost text = chars@.skip(from as int);
    proof {
        char_from_moves(chars@, '|', from as int, from as int);
    }
    let a: usize = match find_char(chars, '|', from) {
        Some(a) => a,
        None => {
            return None;
        },
    };
    proof {
        char_from_moves(chars@, '|', a + 1, from as int);
    }
    let b: usize = match find_char(chars, '|', a + 1) {
        Some(b) => b,
        None => {
            return None;
        },
    };
    proof {
        char_from_moves(chars@, '|', b + 1, from as int);
    }
    let c: usize = match find_char(chars, '|', b + 1) {
        Some(c) => c,
        None => {
            return None;
        },
    };
    let length = slice_text(chars, from, a);
    assert(length@ == text.take(a - from));
    let units: u64 = match parse_up_to(length.as_str(), u32::MAX as u64) {
        Some(units) => units,
        None => {
            return None;
        },
    };
    assert(chars@.skip(c + 1) == text.skip(c - from + 1));
    let count: usize = match count_units(chars, c + 1, units) {
        Some(count) => count,
        None => {
            return None;
        },
    };
    let end: usize = c + 1 + count;
    if end >= chars.len() || chars[end] != '|' {
        return None;
    }
    let kind = slice_text(chars, a + 1, b);
    let id = slice_text(chars, b + 1, c);
    let content = slice_text(chars, c + 1, end);
    assert(kind@ == text.subrange(a - from + 1, b - from));
    assert(id@ == text.subrange(b - from + 1, c - from));
    assert(content@ == text.subrange(c - from + 1, end - from));
    Some((DeltaEntry { kind, id, content }, end + 1))
}

/// Reads the records of a partial-page answer: `length|kind|id|content|` one
/// after another, up to the first place that is none.
pub fn parse_aspx_delta(text: &str) -> (entries: DeltaEntries)
    ensures
        entries@ == delta_records(text@),
{
    let chars = chars_of(text);
    let mut entries = DeltaEntries::new();
    let mut at: usize = 0;
    assert(text@.skip(0) == text@);
    loop
        invariant
            chars@ == text@,
            at <= chars.len(),
            records_from(text@.skip(at as int), entries@) == delta_records(text@),
        decreases chars.len() - at,
    {
        match read_record(&chars, at) {
            Some((entry, end)) => {
                assert(text@.skip(at as int).skip(end - at) == text@.skip(end as int));
                entries.insert(entry.kind, entry.id, entry.content);
                at = end;
            },
            None => {
                return entries;
            },
        }
    }
}

} // verus!
