//! Records in JSON texts: their members as they are written, each read only
//! where it is wanted.

use crate::json::{json_read, parse_json, Json, JsonValue};
use crate::text::{chars_of, opt_text, same, slice_text, strs, texts};
use vstd::prelude::*;

verus! {

// ---------------------------------------------------------------------------
// Taking a text apart
// ---------------------------------------------------------------------------

/// Why a text is no JSON, in the words of `serde_json`.
pub uninterp spec fn json_fault(text: Seq<char>) -> Option<Seq<char>>;

/// The number of characters up to the end of the first JSON value of a text,
/// where it begins with one.
pub uninterp spec fn json_span(text: Seq<char>) -> Option<int>;

/// Calls `serde_json::from_str` for `serde::de::IgnoredAny`, which checks that
/// a text is JSON and keeps nothing of it, and writes its error out.
#[verifier::external_body]
pub(crate) fn find_fault(text: &str) -> (fault: Option<String>)
    ensures
        opt_text(fault) == json_fault(text@),
{
    serde_json::from_str::<serde::de::IgnoredAny>(text).err().map(|error| error.to_string())
}

/// Calls `next` and `byte_offset` of a `serde_json::StreamDeserializer` over
/// `serde::de::IgnoredAny`: the end of the first value, behind at least one
/// character.
#[verifier::external_body]
fn find_span(text: &str) -> (span: Option<usize>)
    ensures
        span_view(span) == json_span(text@),
        span matches Some(count) ==> 0 < count <= text@.len(),
{
    let mut values = serde_json::Deserializer::from_str(text).into_iter::<serde::de::IgnoredAny>();
    let first = values.next()?;
    first.ok().map(|_| text[..values.byte_offset()].chars().count())
}

/// A number of characters as a whole number.
pub open spec fn span_view(span: Option<usize>) -> Option<int> {
    match span {
        Some(count) => Some(count as int),
        None => None,
    }
}

/// Whether a character is white space between the parts of a JSON text.
pub open spec fn json_space(c: char) -> bool {
    c == ' ' || c == '\n' || c == '\r' || c == '\t'
}

/// A text without the white space before it.
pub open spec fn unspaced(text: Seq<char>) -> Seq<char>
    decreases text.len(),
{
    if text.len() > 0 && json_space(text[0]) {
        unspaced(text.skip(1))
    } else {
        text
    }
}

/// Whether a text begins with a character.
pub open spec fn begins(text: Seq<char>, c: char) -> bool {
    text.len() > 0 && text[0] == c
}

/// The first value of a text, as it is written, and what stands behind it.
pub open spec fn first_value(text: Seq<char>) -> Option<(Seq<char>, Seq<char>)> {
    match json_span(text) {
        Some(count) => if 0 < count <= text.len() {
            Some((text.take(count), unspaced(text.skip(count))))
        } else {
            None
        },
        None => None,
    }
}

/// The values of a list up to its end, from the beginning of one on.
pub open spec fn items_from(text: Seq<char>) -> Option<Seq<Seq<char>>>
    decreases text.len(),
{
    match first_value(text) {
        Some((value, rest)) => if begins(rest, ',') && rest.len() < text.len() {
            match items_from(rest.skip(1)) {
                Some(more) => Some(seq![value] + more),
                None => None,
            }
        } else if begins(rest, ']') {
            Some(seq![value])
        } else {
            None
        },
        None => None,
    }
}

/// The values of an array, as they are written, where a text is one.
pub open spec fn json_items(text: Seq<char>) -> Option<Seq<Seq<char>>> {
    let body = unspaced(text);
    if !begins(body, '[') {
        None
    } else if begins(unspaced(body.skip(1)), ']') {
        Some(seq![])
    } else {
        items_from(body.skip(1))
    }
}

/// The first member of a text: its name, its value as it is written, and what
/// stands behind.
pub open spec fn first_member(text: Seq<char>) -> Option<((Seq<char>, Seq<char>), Seq<char>)> {
    match first_value(text) {
        Some((name, behind)) => match json_read(name) {
            Ok(Json::Text(name)) => if begins(behind, ':') {
                match first_value(behind.skip(1)) {
                    Some((value, rest)) => Some(((name, value), rest)),
                    None => None,
                }
            } else {
                None
            },
            _ => None,
        },
        None => None,
    }
}

/// The members of an object up to its end, from the beginning of one on.
pub open spec fn members_from(text: Seq<char>) -> Option<Seq<(Seq<char>, Seq<char>)>>
    decreases text.len(),
{
    match first_member(text) {
        Some((member, rest)) => if begins(rest, ',') && rest.len() < text.len() {
            match members_from(rest.skip(1)) {
                Some(more) => Some(seq![member] + more),
                None => None,
            }
        } else if begins(rest, '}') {
            Some(seq![member])
        } else {
            None
        },
        None => None,
    }
}

/// The members of an object in the order in which they are written, each with
/// its name and its value as it is written, where a text is an object.
pub open spec fn json_members(text: Seq<char>) -> Option<Seq<(Seq<char>, Seq<char>)>> {
    let body = unspaced(text);
    if !begins(body, '{') {
        None
    } else if begins(unspaced(body.skip(1)), '}') {
        Some(seq![])
    } else {
        members_from(body.skip(1))
    }
}

fn skip_space(chars: &Vec<char>, from: usize) -> (at: usize)
    requires
        from <= chars.len(),
    ensures
        from <= at <= chars.len(),
        chars@.skip(at as int) == unspaced(chars@.skip(from as int)),
{
    let mut at: usize = from;
    while at < chars.len() && (chars[at] == ' ' || chars[at] == '\n' || chars[at] == '\r'
        || chars[at] == '\t')
        invariant
            from <= at <= chars.len(),
            unspaced(chars@.skip(at as int)) == unspaced(chars@.skip(from as int)),
        decreases chars.len() - at,
    {
        assert(chars@.skip(at as int)[0] == chars@[at as int]);
        assert(chars@.skip(at as int).skip(1) == chars@.skip(at + 1));
        at = at + 1;
    }
    if at < chars.len() {
        assert(chars@.skip(at as int)[0] == chars@[at as int]);
    }
    at
}

fn stands_at(chars: &Vec<char>, at: usize, c: char) -> (answer: bool)
    requires
        at <= chars.len(),
    ensures
        answer == begins(chars@.skip(at as int), c),
{
    if at < chars.len() {
        assert(chars@.skip(at as int)[0] == chars@[at as int]);
        chars[at] == c
    } else {
        false
    }
}

fn take_value(chars: &Vec<char>, from: usize) -> (parts: Option<(String, usize)>)
    requires
        from <= chars.len(),
    ensures
        match parts {
            Some(parts) => from < parts.1 <= chars.len() && first_value(chars@.skip(from as int))
                == Some((parts.0@, chars@.skip(parts.1 as int))),
            None => first_value(chars@.skip(from as int)) is None,
        },
{
    let rest = slice_text(chars, from, chars.len());
    assert(rest@ == chars@.skip(from as int));
    match find_span(rest.as_str()) {
        Some(count) => {
            let value = slice_text(chars, from, from + count);
            assert(value@ == chars@.skip(from as int).take(count as int));
            assert(chars@.skip(from as int).skip(count as int) == chars@.skip(from + count));
            let at: usize = skip_space(chars, from + count);
            Some((value, at))
        },
        None => None,
    }
}

/// What is found of a list, given what was found and what is still to come.
pub open spec fn with_rest<A>(done: Seq<A>, rest: Option<Seq<A>>) -> Option<Seq<A>> {
    match rest {
        Some(rest) => Some(done + rest),
        None => None,
    }
}

/// The views of an optional list of texts.
pub open spec fn opt_texts(list: Option<Vec<String>>) -> Option<Seq<Seq<char>>> {
    match list {
        Some(list) => Some(texts(list@)),
        None => None,
    }
}

/// The views of an optional list of members.
pub open spec fn opt_members(list: Option<Vec<(String, String)>>) -> Option<
    Seq<(Seq<char>, Seq<char>)>,
> {
    match list {
        Some(list) => Some(crate::fields::pair_texts(list@)),
        None => None,
    }
}

/// The values of an array, as they are written, where a text is one.
pub fn items_of(text: &str) -> (items: Option<Vec<String>>)
    ensures
        opt_texts(items) == json_items(text@),
{
    let chars = chars_of(text);
    assert(chars@.skip(0) == text@);
    let body: usize = skip_space(&chars, 0);
    if !stands_at(&chars, body, '[') {
        return None;
    }
    let mut items: Vec<String> = Vec::new();
    assert(chars@.skip(body as int).skip(1) == chars@.skip(body + 1));
    let inside: usize = skip_space(&chars, body + 1);
    if stands_at(&chars, inside, ']') {
        assert(texts(items@) == Seq::<Seq<char>>::empty());
        return Some(items);
    }
    let ghost goal = json_items(text@);
    let mut at: usize = body + 1;
    assert(goal == items_from(chars@.skip(at as int)));
    proof {
        if let Some(all) = goal {
            assert(texts(items@) + all == all);
        }
    }
    loop
        invariant
            at <= chars.len(),
            goal == json_items(text@),
            goal == with_rest(texts(items@), items_from(chars@.skip(at as int))),
        decreases chars.len() - at,
    {
        let ghost done = texts(items@);
        match take_value(&chars, at) {
            Some((value, next)) => {
                let ghost written = value@;
                items.push(value);
                assert(texts(items@) == done.push(written));
                if stands_at(&chars, next, ',') {
                    assert(chars@.skip(next as int).skip(1) == chars@.skip(next + 1));
                    proof {
                        if let Some(more) = items_from(chars@.skip(next + 1)) {
                            assert(done + (seq![written] + more) == done.push(written) + more);
                        }
                    }
                    at = next + 1;
                } else if stands_at(&chars, next, ']') {
                    assert(done + seq![written] == done.push(written));
                    return Some(items);
                } else {
                    return None;
                }
            },
            None => {
                return None;
            },
        }
    }
}

fn take_member(chars: &Vec<char>, from: usize) -> (parts: Option<((String, String), usize)>)
    requires
        from <= chars.len(),
    ensures
        match parts {
            Some(parts) => from < parts.1 <= chars.len() && first_member(chars@.skip(from as int))
                == Some(((parts.0.0@, parts.0.1@), chars@.skip(parts.1 as int))),
            None => first_member(chars@.skip(from as int)) is None,
        },
{
    match take_value(chars, from) {
        Some((name, behind)) => match parse_json(name.as_str()) {
            Ok(JsonValue::Text(name)) => {
                if !stands_at(chars, behind, ':') {
                    return None;
                }
                assert(chars@.skip(behind as int).skip(1) == chars@.skip(behind + 1));
                match take_value(chars, behind + 1) {
                    Some((value, rest)) => Some(((name, value), rest)),
                    None => None,
                }
            },
            _ => None,
        },
        None => None,
    }
}

/// The members of an object in the order in which they are written, each with
/// its name and its value as it is written, where a text is an object.
pub fn members_of(text: &str) -> (members: Option<Vec<(String, String)>>)
    ensures
        opt_members(members) == json_members(text@),
{
    let chars = chars_of(text);
    assert(chars@.skip(0) == text@);
    let body: usize = skip_space(&chars, 0);
    if !stands_at(&chars, body, '{') {
        return None;
    }
    let mut members: Vec<(String, String)> = Vec::new();
    assert(chars@.skip(body as int).skip(1) == chars@.skip(body + 1));
    let inside: usize = skip_space(&chars, body + 1);
    if stands_at(&chars, inside, '}') {
        assert(crate::fields::pair_texts(members@) == Seq::<(Seq<char>, Seq<char>)>::empty());
        return Some(members);
    }
    let ghost goal = json_members(text@);
    let mut at: usize = body + 1;
    assert(goal == members_from(chars@.skip(at as int)));
    proof {
        if let Some(all) = goal {
            assert(crate::fields::pair_texts(members@) + all == all);
        }
    }
    loop
        invariant
            at <= chars.len(),
            goal == json_members(text@),
            goal == with_rest(
                crate::fields::pair_texts(members@),
                members_from(chars@.skip(at as int)),
            ),
        decreases chars.len() - at,
    {
        let ghost done = crate::fields::pair_texts(members@);
        match take_member(&chars, at) {
            Some((member, next)) => {
                let ghost written = (member.0@, member.1@);
                members.push(member);
                assert(crate::fields::pair_texts(members@) == done.push(written));
                if stands_at(&chars, next, ',') {
                    assert(chars@.skip(next as int).skip(1) == chars@.skip(next + 1));
                    proof {
                        if let Some(more) = members_from(chars@.skip(next + 1)) {
                            assert(done + (seq![written] + more) == done.push(written) + more);
                        }
                    }
                    at = next + 1;
                } else if stands_at(&chars, next, '}') {
                    assert(done + seq![written] == done.push(written));
                    return Some(members);
                } else {
                    return None;
                }
            },
            None => {
                return None;
            },
        }
    }
}

// ---------------------------------------------------------------------------
// Fields of a record
// ---------------------------------------------------------------------------

/// The value of the one member of a name, where there is one; `None` where the
/// name is repeated.
pub open spec fn sole_value(members: Seq<(Seq<char>, Seq<char>)>, name: Seq<char>) -> Option<
    Option<Seq<char>>,
>
    decreases members.len(),
{
    if members.len() == 0 {
        Some(None)
    } else {
        match sole_value(members.drop_last(), name) {
            Some(found) => if members.last().0 != name {
                Some(found)
            } else if found is None {
                Some(Some(members.last().1))
            } else {
                None
            },
            None => None,
        }
    }
}

/// The values under some names, each where there is one; `None` where one of
/// the names is repeated. Members of other names do not count.
pub open spec fn named_values(
    members: Seq<(Seq<char>, Seq<char>)>,
    names: Seq<Seq<char>>,
) -> Option<Seq<Option<Seq<char>>>>
    decreases names.len(),
{
    if names.len() == 0 {
        Some(seq![])
    } else {
        match (named_values(members, names.drop_last()), sole_value(members, names.last())) {
            (Some(before), Some(value)) => Some(before.push(value)),
            _ => None,
        }
    }
}

/// The fields of a record, as they are written: by their names in an object
/// that repeats none of these, or by their order in an array of just as many.
pub open spec fn record_fields(text: Seq<char>, names: Seq<Seq<char>>) -> Option<
    Seq<Option<Seq<char>>>,
> {
    match (json_members(text), json_items(text)) {
        (Some(members), _) => named_values(members, names),
        (None, Some(items)) => if items.len() == names.len() {
            Some(items.map_values(|item: Seq<char>| Some(item)))
        } else {
            None
        },
        _ => None,
    }
}

/// The views of fields.
pub open spec fn field_views(fields: Seq<Option<String>>) -> Seq<Option<Seq<char>>> {
    fields.map_values(|field: Option<String>| opt_text(field))
}

/// The views of optional fields.
pub open spec fn opt_fields(fields: Option<Vec<Option<String>>>) -> Option<
    Seq<Option<Seq<char>>>,
> {
    match fields {
        Some(fields) => Some(field_views(fields@)),
        None => None,
    }
}

proof fn a_repeated_name_stays(members: Seq<(Seq<char>, Seq<char>)>, name: Seq<char>, count: int)
    requires
        0 <= count <= members.len(),
        sole_value(members.take(count), name) is None,
    ensures
        sole_value(members, name) is None,
    decreases members.len() - count,
{
    if count < members.len() {
        assert(members.take(count + 1).drop_last() == members.take(count));
        a_repeated_name_stays(members, name, count + 1);
    } else {
        assert(members.take(count) == members);
    }
}

pub(crate) fn find_sole(members: &Vec<(String, String)>, name: &str) -> (value: Option<Option<String>>)
    ensures
        match value {
            Some(value) => sole_value(crate::fields::pair_texts(members@), name@) == Some(
                opt_text(value),
            ),
            None => sole_value(crate::fields::pair_texts(members@), name@) is None,
        },
{
    let ghost all = crate::fields::pair_texts(members@);
    let mut found: Option<String> = None;
    let mut i: usize = 0;
    while i < members.len()
        invariant
            i <= members.len(),
            all == crate::fields::pair_texts(members@),
            sole_value(all.take(i as int), name@) == Some(opt_text(found)),
        decreases members.len() - i,
    {
        assert(all.take(i + 1).drop_last() == all.take(i as int));
        assert(all.take(i + 1).last() == (members@[i as int].0@, members@[i as int].1@));
        if same(members[i].0.as_str(), name) {
            if found.is_some() {
                proof {
                    a_repeated_name_stays(all, name@, i + 1);
                }
                return None;
            }
            found = Some(members[i].1.clone());
        }
        i = i + 1;
    }
    assert(all.take(all.len() as int) == all);
    Some(found)
}

proof fn a_repeated_name_counts(
    members: Seq<(Seq<char>, Seq<char>)>,
    names: Seq<Seq<char>>,
    at: int,
)
    requires
        0 <= at < names.len(),
        sole_value(members, names[at]) is None,
    ensures
        named_values(members, names) is None,
    decreases names.len(),
{
    if at < names.len() - 1 {
        assert(names.drop_last()[at] == names[at]);
        a_repeated_name_counts(members, names.drop_last(), at);
    }
}

/// The values under some names, each where there is one; `None` where one of
/// the names is repeated.
pub fn fields_of_members(members: &Vec<(String, String)>, names: &Vec<&str>) -> (fields: Option<
    Vec<Option<String>>,
>)
    ensures
        opt_fields(fields) == named_values(crate::fields::pair_texts(members@), strs(names@)),
        fields matches Some(fields) ==> fields.len() == names.len(),
{
    let ghost all = strs(names@);
    let ghost pairs = crate::fields::pair_texts(members@);
    let mut fields: Vec<Option<String>> = Vec::new();
    let mut i: usize = 0;
    assert(field_views(fields@) == Seq::<Option<Seq<char>>>::empty());
    while i < names.len()
        invariant
            i <= names.len(),
            all == strs(names@),
            pairs == crate::fields::pair_texts(members@),
            named_values(pairs, all.take(i as int)) == Some(field_views(fields@)),
            fields.len() == i,
        decreases names.len() - i,
    {
        assert(all.take(i + 1).drop_last() == all.take(i as int));
        assert(all.take(i + 1).last() == names@[i as int]@);
        let ghost before = field_views(fields@);
        match find_sole(members, names[i]) {
            Some(value) => {
                fields.push(value);
                assert(field_views(fields@) == before.push(opt_text(value)));
            },
            None => {
                proof {
                    assert(all[i as int] == names@[i as int]@);
                    a_repeated_name_counts(pairs, all, i as int);
                }
                return None;
            },
        }
        i = i + 1;
    }
    assert(all.take(all.len() as int) == all);
    Some(fields)
}

/// The fields of a record, as they are written: by their names in an object
/// that repeats none of these, or by their order in an array of just as many.
pub fn fields_of(text: &str, names: &Vec<&str>) -> (fields: Option<Vec<Option<String>>>)
    ensures
        opt_fields(fields) == record_fields(text@, strs(names@)),
        fields matches Some(fields) ==> fields.len() == names.len(),
{
    if let Some(members) = members_of(text) {
        return fields_of_members(&members, names);
    }
    match items_of(text) {
        Some(items) => {
            if items.len() != names.len() {
                return None;
            }
            let ghost all = texts(items@);
            let mut fields: Vec<Option<String>> = Vec::new();
            let mut i: usize = 0;
            while i < items.len()
                invariant
                    i <= items.len(),
                    all == texts(items@),
                    fields.len() == i,
                    forall|j: int| 0 <= j < i ==> opt_text(#[trigger] fields@[j]) == Some(all[j]),
                decreases items.len() - i,
            {
                assert(all[i as int] == items@[i as int]@);
                fields.push(Some(items[i].clone()));
                i = i + 1;
            }
            assert(field_views(fields@) == all.map_values(|item: Seq<char>| Some(item)));
            Some(fields)
        },
        None => None,
    }
}

// ---------------------------------------------------------------------------
// Values of fields
// ---------------------------------------------------------------------------

/// A text that must be there.
pub open spec fn text_field(field: Option<Seq<char>>) -> Option<Seq<char>> {
    match field {
        Some(written) => match json_read(written) {
            Ok(Json::Text(text)) => Some(text),
            _ => None,
        },
        None => None,
    }
}

/// A text that may be missing or null; the outer `None` says that it is
/// something else.
pub open spec fn opt_text_field(field: Option<Seq<char>>) -> Option<Option<Seq<char>>> {
    match field {
        Some(written) => match json_read(written) {
            Ok(Json::Null) => Some(None),
            Ok(Json::Text(text)) => Some(Some(text)),
            _ => None,
        },
        None => Some(None),
    }
}

/// A truth value that must be there.
pub open spec fn bool_field(field: Option<Seq<char>>) -> Option<bool> {
    match field {
        Some(written) => match json_read(written) {
            Ok(Json::Bool(value)) => Some(value),
            _ => None,
        },
        None => None,
    }
}

/// A number of 32 bits that must be there.
pub open spec fn u32_field(field: Option<Seq<char>>) -> Option<nat> {
    match field {
        Some(written) => match json_read(written) {
            Ok(Json::Number(Some(number), _)) => if number <= u32::MAX {
                Some(number)
            } else {
                None
            },
            _ => None,
        },
        None => None,
    }
}

/// Whether a field is null.
pub open spec fn null_field(field: Option<Seq<char>>) -> bool {
    field matches Some(written) && json_read(written) == Ok::<Json, Seq<char>>(Json::Null)
}

pub(crate) fn text_in_field(field: &Option<String>) -> (text: Option<String>)
    ensures
        opt_text(text) == text_field(opt_text(*field)),
{
    match field {
        Some(written) => match parse_json(written.as_str()) {
            Ok(JsonValue::Text(text)) => Some(text),
            _ => None,
        },
        None => None,
    }
}

pub(crate) fn opt_text_in_field(field: &Option<String>) -> (text: Option<Option<String>>)
    ensures
        match text {
            Some(text) => opt_text_field(opt_text(*field)) == Some(opt_text(text)),
            None => opt_text_field(opt_text(*field)) is None,
        },
{
    match field {
        Some(written) => match parse_json(written.as_str()) {
            Ok(JsonValue::Null) => Some(None),
            Ok(JsonValue::Text(text)) => Some(Some(text)),
            _ => None,
        },
        None => Some(None),
    }
}

pub(crate) fn bool_in_field(field: &Option<String>) -> (value: Option<bool>)
    ensures
        value == bool_field(opt_text(*field)),
{
    match field {
        Some(written) => match parse_json(written.as_str()) {
            Ok(JsonValue::Bool(value)) => Some(value),
            _ => None,
        },
        None => None,
    }
}

pub(crate) fn u32_in_field(field: &Option<String>) -> (value: Option<u32>)
    ensures
        match value {
            Some(value) => u32_field(opt_text(*field)) == Some(value as nat),
            None => u32_field(opt_text(*field)) is None,
        },
{
    match field {
        Some(written) => match parse_json(written.as_str()) {
            Ok(JsonValue::Number(Some(number), _)) => {
                if number <= u32::MAX as u64 {
                    Some(number as u32)
                } else {
                    None
                }
            },
            _ => None,
        },
        None => None,
    }
}

pub(crate) fn is_null_field(field: &Option<String>) -> (answer: bool)
    ensures
        answer == null_field(opt_text(*field)),
{
    match field {
        Some(written) => matches!(parse_json(written.as_str()), Ok(JsonValue::Null)),
        None => false,
    }
}

} // verus!
