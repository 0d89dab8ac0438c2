//! Reading the attendance calendar page: the month grid, the detail rows, and
//! the tabular fallback.

use crate::dom::{attr_at, positions, select, select_in, spaced_text, text_in, Dom, Page, Selector};
use crate::hr_core::AttendanceSource;
use crate::text::{
    chars_of, contains, contains_text, count_digits, digit_run, is_whitespace, join, joined,
    lowercased, opt_str, opt_text, or_else, parse_up_to, parsed_up_to, push_char, same, slice_text,
    split, split_at_char, split_words, strs, texts, to_lowercase, trim, trimmed, whitespace, words,
};
use vstd::prelude::*;

verus! {

// ---------------------------------------------------------------------------
// Words and numbers
// ---------------------------------------------------------------------------

/// What days with clock times but no other kind are called.
pub const LABEL_WORK_DAY: &'static str = "work day";

/// What days that the system filled are called.
pub const LABEL_VACATION: &'static str = "vacation";

/// The words that mark a kind of attendance in a calendar cell.
pub open spec fn type_keywords() -> Seq<Seq<char>> {
    seq![
        "work day"@,
        "work from home"@,
        "vacation"@,
        "sickness"@,
        "d off"@,
        "day off"@,
        "reserve"@,
        "mourning"@,
        "course"@,
        "work abroad"@,
        "conference"@,
        "offsite"@,
        "parental"@,
        "יום עבודה"@,
        "עבודה מהבית"@,
        "עבודה"@,
        "חופשה"@,
        "מחלה"@,
    ]
}

pub(crate) fn type_keyword_list() -> (list: Vec<&'static str>)
    ensures
        strs(list@) == type_keywords(),
{
    let list: Vec<&'static str> = vec![
        "work day",
        "work from home",
        "vacation",
        "sickness",
        "d off",
        "day off",
        "reserve",
        "mourning",
        "course",
        "work abroad",
        "conference",
        "offsite",
        "parental",
        "יום עבודה",
        "עבודה מהבית",
        "עבודה",
        "חופשה",
        "מחלה",
    ];
    assert(strs(list@) == type_keywords());
    list
}

/// A number, where it can be a day of a month.
pub open spec fn as_day(number: Option<nat>) -> Option<nat> {
    match number {
        Some(number) => if 1 <= number <= 31 {
            Some(number)
        } else {
            None
        },
        None => None,
    }
}

/// The day of a month that a text begins with.
pub open spec fn day_number_in(text: Seq<char>) -> Option<nat> {
    let count = digit_run(text);
    if count == 0 {
        None
    } else {
        as_day(parsed_up_to(text.take(count as int), u32::MAX as nat))
    }
}

/// The day of a month that a text begins with, unless what begins there is a
/// time of day.
pub open spec fn strict_day_number_in(text: Seq<char>) -> Option<nat> {
    let body = trimmed(text);
    let count = digit_run(body) as int;
    if count < body.len() && body[count] == ':' {
        None
    } else {
        day_number_in(body)
    }
}

/// The number of an optional machine number.
pub open spec fn opt_u32(value: Option<u32>) -> Option<nat> {
    match value {
        Some(value) => Some(value as nat),
        None => None,
    }
}

fn day_in_range(number: Option<u64>) -> (day: Option<u32>)
    requires
        number matches Some(value) ==> value <= u32::MAX,
    ensures
        opt_u32(day) == as_day(
            match number {
                Some(value) => Some(value as nat),
                None => None,
            },
        ),
{
    match number {
        Some(value) => {
            if 1 <= value && value <= 31 {
                Some(value as u32)
            } else {
                None
            }
        },
        None => None,
    }
}

/// The day of a month (1 to 31) that a text begins with.
pub fn extract_day_number(text: &str) -> (day: Option<u32>)
    ensures
        opt_u32(day) == day_number_in(text@),
{
    let chars = chars_of(text);
    let count: usize = count_digits(&chars);
    if count == 0 {
        return None;
    }
    let digits = slice_text(&chars, 0, count);
    assert(digits@ == text@.take(count as int));
    day_in_range(parse_up_to(digits.as_str(), u32::MAX as u64))
}

/// The day of a month that a text begins with, where the number is not the
/// hour of a time of day.
pub fn extract_day_number_strict(text: &str) -> (day: Option<u32>)
    ensures
        opt_u32(day) == strict_day_number_in(text@),
{
    let body = trim(text);
    let chars = chars_of(body.as_str());
    let count: usize = count_digits(&chars);
    if count < chars.len() && chars[count] == ':' {
        return None;
    }
    extract_day_number(body.as_str())
}

/// Whether a text is a time of day: hours below 24, a colon, minutes below 60.
pub open spec fn time_pattern(text: Seq<char>) -> bool {
    let parts = split(text, ':');
    &&& parts.len() == 2
    &&& parsed_up_to(parts[0], u32::MAX as nat) matches Some(hour) && hour < 24
    &&& parsed_up_to(parts[1], u32::MAX as nat) matches Some(minute) && minute < 60
}

/// Whether a text is a time of day.
pub fn is_time_pattern(text: &str) -> (answer: bool)
    ensures
        answer == time_pattern(text@),
{
    let parts = split_at_char(text, ':');
    if parts.len() != 2 {
        assert(texts(parts@).len() != 2);
        return false;
    }
    assert(texts(parts@)[0] == parts@[0]@ && texts(parts@)[1] == parts@[1]@);
    let hour = parse_up_to(parts[0].as_str(), u32::MAX as u64);
    let minute = parse_up_to(parts[1].as_str(), u32::MAX as u64);
    match (hour, minute) {
        (Some(hour), Some(minute)) => hour < 24 && minute < 60,
        _ => false,
    }
}

/// Whether a text names a day off that the organization set.
pub open spec fn holiday_text(text: Seq<char>) -> bool {
    let lower = lowercased(text);
    ||| contains(lower, "חג"@)
    ||| contains(lower, "d.off"@)
    ||| contains(lower, "day off"@)
    ||| words(lower).contains("ho"@)
    ||| words(lower).contains("h.o"@)
}

fn has_word(list: &Vec<String>, word: &str) -> (found: bool)
    ensures
        found == texts(list@).contains(word@),
{
    let mut i: usize = 0;
    while i < list.len()
        invariant
            i <= list.len(),
            forall|j: int| 0 <= j < i ==> (#[trigger] texts(list@)[j]) != word@,
        decreases list.len() - i,
    {
        if same(list[i].as_str(), word) {
            assert(texts(list@)[i as int] == word@);
            return true;
        }
        i = i + 1;
    }
    false
}

fn is_holiday_text(text: &str) -> (answer: bool)
    ensures
        answer == holiday_text(text@),
{
    let lower = to_lowercase(text);
    let list = split_words(lower.as_str());
    contains_text(lower.as_str(), "חג") || contains_text(lower.as_str(), "d.off") || contains_text(
        lower.as_str(),
        "day off",
    ) || has_word(&list, "ho") || has_word(&list, "h.o")
}

/// How strong a claim a source makes about a day.
pub open spec fn priority(source: AttendanceSource) -> int {
    match source {
        AttendanceSource::Unreported => 0,
        AttendanceSource::SystemAutoFill => 1,
        AttendanceSource::Holiday => 2,
        AttendanceSource::UserReported => 3,
    }
}

fn source_priority(source: AttendanceSource) -> (rank: u8)
    ensures
        rank == priority(source),
{
    match source {
        AttendanceSource::Unreported => 0,
        AttendanceSource::SystemAutoFill => 1,
        AttendanceSource::Holiday => 2,
        AttendanceSource::UserReported => 3,
    }
}

/// The stronger of two sources.
pub open spec fn stronger_source(left: AttendanceSource, right: AttendanceSource) -> AttendanceSource {
    if priority(left) >= priority(right) {
        left
    } else {
        right
    }
}

/// The stronger of two sources.
pub fn preferred_source(left: AttendanceSource, right: AttendanceSource) -> (source:
    AttendanceSource)
    ensures
        source == stronger_source(left, right),
{
    if source_priority(left) >= source_priority(right) {
        left
    } else {
        right
    }
}

/// How a day came to its data, by its cell's class, its title and its kind.
pub open spec fn calendar_source(
    class: Seq<char>,
    title: Option<Seq<char>>,
    kind: Option<Seq<char>>,
) -> AttendanceSource {
    match or_else(title, kind) {
        Some(words) => if contains(class, "cHD"@) || contains(class, "holiday"@) || holiday_text(
            words,
        ) {
            AttendanceSource::Holiday
        } else {
            AttendanceSource::UserReported
        },
        None => AttendanceSource::Unreported,
    }
}

/// How a day came to its data, by its cell's class, its title and its kind.
pub fn source_from_calendar_state(class: &str, title: Option<&str>, kind: Option<&str>) -> (source:
    AttendanceSource)
    ensures
        source == calendar_source(class@, opt_str(title), opt_str(kind)),
{
    let words = match title {
        Some(title) => Some(title),
        None => kind,
    };
    match words {
        Some(words) => {
            if contains_text(class, "cHD") || contains_text(class, "holiday") || is_holiday_text(
                words,
            ) {
                AttendanceSource::Holiday
            } else {
                AttendanceSource::UserReported
            }
        },
        None => AttendanceSource::Unreported,
    }
}

// ---------------------------------------------------------------------------
// Cells
// ---------------------------------------------------------------------------

/// The first position of a list.
pub open spec fn first(list: Seq<int>) -> Option<int> {
    if list.len() > 0 {
        Some(list[0])
    } else {
        None
    }
}

/// What is asked of an attribute.
pub enum AttrTest {
    /// That it has this value.
    Is(Seq<char>),
    /// That this occurs in its value.
    Holds(Seq<char>),
    /// That its value is not empty.
    NotEmpty,
    /// That it is there.
    Present,
}

/// Whether an attribute's value meets a test.
pub open spec fn meets(value: Seq<char>, test: AttrTest) -> bool {
    match test {
        AttrTest::Is(wanted) => value == wanted,
        AttrTest::Holds(part) => contains(value, part),
        AttrTest::NotEmpty => value.len() > 0,
        AttrTest::Present => true,
    }
}

/// The first element of a list whose attribute meets a test.
pub open spec fn first_where(dom: Dom, list: Seq<int>, name: Seq<char>, test: AttrTest) -> Option<
    int,
>
    decreases list.len(),
{
    if list.len() == 0 {
        None
    } else if attr_at(dom, list[0], name) matches Some(value) && meets(value, test) {
        Some(list[0])
    } else {
        first_where(dom, list.skip(1), name, test)
    }
}

/// How an attribute is tested.
#[derive(Clone, Copy)]
pub enum AttrCheck<'a> {
    Is(&'a str),
    Holds(&'a str),
    NotEmpty,
    Present,
}

impl<'a> View for AttrCheck<'a> {
    type V = AttrTest;

    open spec fn view(&self) -> AttrTest {
        match self {
            AttrCheck::Is(wanted) => AttrTest::Is(wanted@),
            AttrCheck::Holds(part) => AttrTest::Holds(part@),
            AttrCheck::NotEmpty => AttrTest::NotEmpty,
            AttrCheck::Present => AttrTest::Present,
        }
    }
}

/// Finds the first element of a list whose attribute meets a test.
pub fn find_where(page: &Page, list: &Vec<usize>, name: &str, check: AttrCheck) -> (found: Option<
    usize,
>)
    requires
        forall|i: int| 0 <= i < list.len() ==> (#[trigger] list@[i]) < page@.nodes.len(),
    ensures
        match found {
            Some(at) => at < page@.nodes.len() && first_where(
                page@,
                positions(list@),
                name@,
                check@,
            ) == Some(at as int),
            None => first_where(page@, positions(list@), name@, check@) is None,
        },
{
    let ghost all = positions(list@);
    let mut i: usize = 0;
    assert(all.skip(0) == all);
    while i < list.len()
        invariant
            i <= list.len(),
            all == positions(list@),
            forall|j: int| 0 <= j < list.len() ==> (#[trigger] list@[j]) < page@.nodes.len(),
            first_where(page@, all.skip(i as int), name@, check@) == first_where(
                page@,
                all,
                name@,
                check@,
            ),
        decreases list.len() - i,
    {
        assert(all.skip(i as int).skip(1) == all.skip(i + 1));
        assert(all.skip(i as int)[0] == list@[i as int]);
        if let Some(own) = page.attr(list[i], name) {
            let passes = match check {
                AttrCheck::Is(wanted) => same(own, wanted),
                AttrCheck::Holds(part) => contains_text(own, part),
                AttrCheck::NotEmpty => !own.is_empty(),
                AttrCheck::Present => true,
            };
            if passes {
                return Some(list[i]);
            }
        }
        i = i + 1;
    }
    None
}

/// Whether a text is only whitespace.
pub open spec fn blank(text: Seq<char>) -> bool {
    forall|i: int| 0 <= i < text.len() ==> whitespace(#[trigger] text[i])
}

fn is_blank(text: &str) -> (answer: bool)
    ensures
        answer == blank(text@),
{
    let chars = chars_of(text);
    let mut i: usize = 0;
    while i < chars.len()
        invariant
            i <= chars.len(),
            chars@ == text@,
            forall|j: int| 0 <= j < i ==> whitespace(#[trigger] text@[j]),
        decreases chars.len() - i,
    {
        if !is_whitespace(chars[i]) {
            assert(!whitespace(text@[i as int]));
            return false;
        }
        i = i + 1;
    }
    true
}

/// The original value that an element carries or has from what is around it.
pub open spec fn original_value(dom: Dom, at: int, inherited: Option<Seq<char>>) -> Option<
    Seq<char>,
> {
    match attr_at(dom, at, "ov"@) {
        Some(value) => if blank(value) {
            inherited
        } else {
            Some(value)
        },
        None => inherited,
    }
}

/// The option that a drop-down shows: the one marked selected, else the one
/// with the original value, else the first.
pub open spec fn shown_option(dom: Dom, at: int, original: Option<Seq<char>>) -> Option<int> {
    let options = select_in(dom, at, Selector::AnyOption);
    let by_value = match original {
        Some(value) => first_where(dom, options, "value"@, AttrTest::Is(value)),
        None => None,
    };
    or_else(
        first(select_in(dom, at, Selector::SelectedOption)),
        or_else(by_value, first(options)),
    )
}

/// A text, trimmed, as a list that is empty where nothing is left.
pub open spec fn visible_text(text: Seq<char>) -> Seq<Seq<char>> {
    if trimmed(text).len() == 0 {
        seq![]
    } else {
        seq![trimmed(text)]
    }
}

/// The texts to be seen in the nodes from `from` up to `to`: of a drop-down
/// only the option that it shows.
pub open spec fn visible_between(
    dom: Dom,
    from: int,
    to: int,
    inherited: Option<Seq<char>>,
) -> Seq<Seq<char>>
    decreases to - from,
{
    if from >= to {
        seq![]
    } else {
        let size = dom.nodes[from].size;
        let end = if size >= 1 && from + size < to {
            from + size
        } else {
            to
        };
        let own = match dom.nodes[from].name {
            Some(name) => {
                let original = original_value(dom, from, inherited);
                if name == "select"@ {
                    match shown_option(dom, from, original) {
                        Some(option) => visible_text(text_in(dom, option)),
                        None => seq![],
                    }
                } else {
                    visible_between(dom, from + 1, end, original)
                }
            },
            None => match dom.nodes[from].text {
                Some(text) => visible_text(text),
                None => seq![],
            },
        };
        own + visible_between(dom, end, to, inherited)
    }
}

/// The text to be seen in a cell.
pub open spec fn visible_cell(dom: Dom, at: int) -> Seq<char> {
    if select_in(dom, at, Selector::Select).len() == 0 {
        spaced_text(dom, at)
    } else {
        joined(visible_between(dom, at, at + dom.nodes[at].size, None), " "@)
    }
}

fn push_visible(parts: &mut Vec<String>, text: &str)
    ensures
        texts(final(parts)@) == texts(old(parts)@) + visible_text(text@),
{
    let body = trim(text);
    let ghost before = texts(parts@);
    if !body.as_str().is_empty() {
        let ghost added = body@;
        parts.push(body);
        assert(texts(parts@) == before + seq![added]);
    } else {
        assert(before + Seq::<Seq<char>>::empty() == before);
    }
}

fn collect_visible(
    page: &Page,
    from: usize,
    to: usize,
    inherited: Option<&str>,
    parts: &mut Vec<String>,
)
    requires
        to <= page@.nodes.len(),
    ensures
        texts(final(parts)@) == texts(old(parts)@) + visible_between(
            page@,
            from as int,
            to as int,
            opt_str(inherited),
        ),
    decreases to - from,
{
    let ghost before = texts(parts@);
    if from >= to {
        assert(before + Seq::<Seq<char>>::empty() == before);
        return ;
    }
    let behind: usize = page.end(from);
    let end: usize = if behind < to {
        behind
    } else {
        to
    };
    let ghost mut own: Seq<Seq<char>> = seq![];
    if page.is_element(from) {
        let original = match page.attr(from, "ov") {
            Some(value) => if is_blank(value) {
                inherited
            } else {
                Some(value)
            },
            None => inherited,
        };
        if page.is_named(from, "select") {
            let selected = page.select_in(from, Selector::SelectedOption);
            let options = page.select_in(from, Selector::AnyOption);
            let by_value = match original {
                Some(value) => find_where(page, &options, "value", AttrCheck::Is(value)),
                None => None,
            };
            let shown: Option<usize> = if selected.len() > 0 {
                Some(selected[0])
            } else if by_value.is_some() {
                by_value
            } else if options.len() > 0 {
                Some(options[0])
            } else {
                None
            };
            assert(selected.len() == positions(selected@).len());
            assert(options.len() == positions(options@).len());
            match shown {
                Some(option) => {
                    assert(shown_option(page@, from as int, opt_str(original)) == Some(
                        option as int,
                    ));
                    let text = page.text_in(option);
                    push_visible(parts, text.as_str());
                    proof {
                        own = visible_text(text@);
                    }
                },
                None => {
                    assert(before + own == before);
                },
            }
        } else {
            collect_visible(page, from + 1, end, original, parts);
            proof {
                own = visible_between(page@, from + 1, end as int, opt_str(original));
            }
        }
    } else {
        match page.node_text(from) {
            Some(text) => {
                push_visible(parts, text);
                proof {
                    own = visible_text(text@);
                }
            },
            None => {
                assert(before + own == before);
            },
        }
    }
    assert(texts(parts@) == before + own);
    collect_visible(page, end, to, inherited, parts);
    assert((before + own) + visible_between(page@, end as int, to as int, opt_str(inherited))
        == before + (own + visible_between(page@, end as int, to as int, opt_str(inherited))));
}

/// The text to be seen in a cell: of a drop-down only the option it shows.
pub fn cell_visible_text(page: &Page, at: usize) -> (text: String)
    requires
        at < page@.nodes.len(),
    ensures
        text@ == visible_cell(page@, at as int),
{
    let drop_downs = page.select_in(at, Selector::Select);
    assert(drop_downs.len() == positions(drop_downs@).len());
    if drop_downs.len() == 0 {
        return page.spaced_text(at);
    }
    let end: usize = page.end(at);
    let mut parts: Vec<String> = Vec::new();
    collect_visible(page, at, end, None, &mut parts);
    assert(texts(parts@) == visible_between(page@, at as int, end as int, None));
    join(&parts, " ")
}

/// A text with plain spaces in place of those that do not break.
pub open spec fn plain_spaces(text: Seq<char>) -> Seq<char> {
    text.map_values(
        |c: char|
            if c == '\u{a0}' {
                ' '
            } else {
                c
            },
    )
}

/// The value that a cell's text stands for, unless it stands for none.
pub open spec fn cell_value(value: Option<Seq<char>>) -> Option<Seq<char>> {
    match value {
        Some(text) => {
            let body = trimmed(plain_spaces(text));
            if body.len() == 0 || body == "--:--"@ || body == "&nbsp;"@ {
                None
            } else {
                Some(body)
            }
        },
        None => None,
    }
}

/// The value that a cell's text stands for, unless it stands for none.
pub fn normalized_cell_value(value: Option<&str>) -> (result: Option<String>)
    ensures
        opt_text(result) == cell_value(opt_str(value)),
{
    let text = match value {
        Some(text) => text,
        None => {
            return None;
        },
    };
    let chars = chars_of(text);
    let mut plain = String::new();
    let mut i: usize = 0;
    while i < chars.len()
        invariant
            i <= chars.len(),
            chars@ == text@,
            plain@ == plain_spaces(text@).take(i as int),
        decreases chars.len() - i,
    {
        if chars[i] == '\u{a0}' {
            push_char(&mut plain, ' ');
        } else {
            push_char(&mut plain, chars[i]);
        }
        i = i + 1;
        assert(plain@ == plain_spaces(text@).take(i as int));
    }
    assert(plain@ == plain_spaces(text@));
    let body = trim(plain.as_str());
    if body.as_str().is_empty() || same(body.as_str(), "--:--") || same(body.as_str(), "&nbsp;") {
        None
    } else {
        Some(body)
    }
}

} // verus!
