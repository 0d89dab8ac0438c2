//! Laws of JSON values and of the elements of a page.

use crate::dom::{
    attribute, found_between, select, select_in, texts_between, trimmed_parts, Dom, Selector,
};
use crate::hr_core::{debug_text, error_text, ErrorView};
use crate::json::{json_member, json_number, json_opt_text, json_text, member, Json};
use crate::text::{decimal, trimmed};
use vstd::prelude::*;

verus! {

// ---------------------------------------------------------------------------
// Values
// ---------------------------------------------------------------------------

/// What an object has under a name is the value of its first member of that
/// name; no other value has anything under a name.
pub proof fn a_member_is_found_by_its_name(
    members: Seq<(Seq<char>, Json)>,
    key: Seq<char>,
    at: int,
)
    ensures
        0 <= at < members.len() && members[at].0 == key && (forall|i: int|
            0 <= i < at ==> (#[trigger] members[i]).0 != key) ==> json_member(
            Json::Object(members),
            key,
        ) == Some(members[at].1),
        (forall|i: int| 0 <= i < members.len() ==> (#[trigger] members[i]).0 != key)
            ==> json_member(Json::Object(members), key) is None,
        json_member(Json::Null, key) is None,
    decreases members.len(),
{
    if members.len() > 0 {
        let rest = members.skip(1);
        a_member_is_found_by_its_name(rest, key, at - 1);
        if 0 < at < members.len() && members[at].0 == key && (forall|i: int|
            0 <= i < at ==> (#[trigger] members[i]).0 != key) {
            assert(members[0].0 != key);
            assert(rest[at - 1] == members[at]);
            assert forall|i: int| 0 <= i < at - 1 implies (#[trigger] rest[i]).0 != key by {
                assert(rest[i] == members[i + 1]);
            }
        }
        if forall|i: int| 0 <= i < members.len() ==> (#[trigger] members[i]).0 != key {
            assert(members[0].0 != key);
            assert forall|i: int| 0 <= i < rest.len() implies (#[trigger] rest[i]).0 != key by {
                assert(rest[i] == members[i + 1]);
            }
        }
    }
}

/// A value that is no text has no characters, and one that is has its own.
pub proof fn only_a_text_has_characters(value: Json, text: Seq<char>, n: nat)
    ensures
        json_text(Json::Text(text)) == Some(text),
        !(value is Text) ==> json_text(value) is None,
        json_opt_text(Some(text)) == Json::Text(text),
        json_opt_text(None) == Json::Null,
        json_number(n) == Json::Number(Some(n), decimal(n)),
{
}

/// What a provider tells under a name is the text of that name in its data.
pub proof fn a_provider_tells_by_name(data: Json, key: Seq<char>, text: Seq<char>)
    ensures
        json_member(data, key) == Some(Json::Text(text)) ==> debug_text(Some(data), key) == Some(
            text,
        ),
        json_member(data, key) is None ==> debug_text(Some(data), key) is None,
        debug_text(None, key) is None,
{
}

/// An error is put in words by its code and its message.
pub proof fn an_error_is_its_code_and_message(error: ErrorView)
    ensures
        error_text(error) == error.code + ": "@ + error.message,
{
}

// ---------------------------------------------------------------------------
// Elements
// ---------------------------------------------------------------------------

/// An attribute of an element is the first of its name.
pub proof fn an_attribute_is_found_by_its_name(
    attributes: Seq<(Seq<char>, Seq<char>)>,
    name: Seq<char>,
    at: int,
)
    ensures
        0 <= at < attributes.len() && attributes[at].0 == name && (forall|i: int|
            0 <= i < at ==> (#[trigger] attributes[i]).0 != name) ==> attribute(attributes, name)
            == Some(attributes[at].1),
        (forall|i: int| 0 <= i < attributes.len() ==> (#[trigger] attributes[i]).0 != name)
            ==> attribute(attributes, name) is None,
    decreases attributes.len(),
{
    if attributes.len() > 0 {
        let rest = attributes.skip(1);
        an_attribute_is_found_by_its_name(rest, name, at - 1);
        if 0 < at < attributes.len() && attributes[at].0 == name && (forall|i: int|
            0 <= i < at ==> (#[trigger] attributes[i]).0 != name) {
            assert(attributes[0].0 != name);
            assert(rest[at - 1] == attributes[at]);
            assert forall|i: int| 0 <= i < at - 1 implies (#[trigger] rest[i]).0 != name by {
                assert(rest[i] == attributes[i + 1]);
            }
        }
        if forall|i: int| 0 <= i < attributes.len() ==> (#[trigger] attributes[i]).0 != name {
            assert(attributes[0].0 != name);
            assert forall|i: int| 0 <= i < rest.len() implies (#[trigger] rest[i]).0 != name by {
                assert(rest[i] == attributes[i + 1]);
            }
        }
    }
}

proof fn what_is_found_between(dom: Dom, selector: Selector, from: int, to: int, at: int)
    ensures
        found_between(dom, selector, from, to).contains(at) <==> from <= at < to && select(
            dom,
            selector,
        ).contains(at),
    decreases to - from,
{
    if from < to {
        what_is_found_between(dom, selector, from + 1, to, at);
        let rest = found_between(dom, selector, from + 1, to);
        let all = found_between(dom, selector, from, to);
        if select(dom, selector).contains(from) {
            assert(all == seq![from] + rest);
            if all.contains(at) {
                let k = choose|k: int| 0 <= k < all.len() && all[k] == at;
                if k > 0 {
                    assert(rest[k - 1] == at);
                    assert(rest.contains(at));
                }
            }
            if at == from {
                assert(all[0] == at);
            }
            if rest.contains(at) {
                let k = choose|k: int| 0 <= k < rest.len() && rest[k] == at;
                assert(all[k + 1] == at);
            }
        } else {
            assert(all == rest);
        }
    }
}

proof fn what_is_found_is_in_order(dom: Dom, selector: Selector, from: int, to: int)
    ensures
        forall|i: int, j: int|
            0 <= i < j < found_between(dom, selector, from, to).len() ==> (#[trigger] found_between(
                dom,
                selector,
                from,
                to,
            )[i]) < (#[trigger] found_between(dom, selector, from, to)[j]),
    decreases to - from,
{
    if from < to {
        what_is_found_is_in_order(dom, selector, from + 1, to);
        let rest = found_between(dom, selector, from + 1, to);
        let all = found_between(dom, selector, from, to);
        if select(dom, selector).contains(from) {
            assert(all == seq![from] + rest);
            assert forall|i: int, j: int| 0 <= i < j < all.len() implies (#[trigger] all[i]) < (
            #[trigger] all[j]) by {
                assert(all[j] == rest[j - 1]);
                if i > 0 {
                    assert(all[i] == rest[i - 1]);
                } else {
                    assert(rest.contains(rest[j - 1]));
                    what_is_found_between(dom, selector, from + 1, to, rest[j - 1]);
                }
            }
        } else {
            assert(all == rest);
        }
    }
}

/// The elements that are found inside another are those of the whole page that
/// stand in it, in the order of the page, and the element itself is not one
/// of them.
pub proof fn what_is_found_inside_stands_inside(dom: Dom, at: int, selector: Selector, k: int)
    ensures
        select_in(dom, at, selector).contains(k) <==> at < k < at + dom.nodes[at].size && select(
            dom,
            selector,
        ).contains(k),
        forall|i: int, j: int|
            0 <= i < j < select_in(dom, at, selector).len() ==> (#[trigger] select_in(
                dom,
                at,
                selector,
            )[i]) < (#[trigger] select_in(dom, at, selector)[j]),
{
    what_is_found_between(dom, selector, at + 1, at + dom.nodes[at].size, k);
    what_is_found_is_in_order(dom, selector, at + 1, at + dom.nodes[at].size);
}

/// The parts of a text are those that hold more than whitespace, without the
/// whitespace around them, in their order.
pub proof fn each_part_that_says_something_is_kept(parts: Seq<Seq<char>>, at: int)
    requires
        0 <= at < parts.len(),
        trimmed(parts[at]).len() > 0,
    ensures
        trimmed_parts(parts).contains(trimmed(parts[at])),
    decreases parts.len(),
{
    let rest = parts.skip(1);
    let more = trimmed_parts(rest);
    let all = trimmed_parts(parts);
    if at == 0 {
        assert(all[0] == trimmed(parts[0]));
    } else {
        assert(rest[at - 1] == parts[at]);
        each_part_that_says_something_is_kept(rest, at - 1);
        let k = choose|k: int| 0 <= k < more.len() && more[k] == trimmed(parts[at]);
        if trimmed(parts[0]).len() == 0 {
            assert(all == more);
        } else {
            assert(all[k + 1] == trimmed(parts[at]));
        }
    }
}

/// The texts of some nodes are those of each that has one, in their order.
pub proof fn each_text_is_taken(dom: Dom, from: int, to: int, at: int)
    requires
        from <= at < to,
        dom.nodes[at].text is Some,
    ensures
        texts_between(dom, from, to).contains(dom.nodes[at].text->Some_0),
    decreases to - from,
{
    let rest = texts_between(dom, from + 1, to);
    let all = texts_between(dom, from, to);
    let text = dom.nodes[at].text->Some_0;
    if at == from {
        assert(all[0] == text);
    } else {
        each_text_is_taken(dom, from + 1, to, at);
        let k = choose|k: int| 0 <= k < rest.len() && rest[k] == text;
        if dom.nodes[from].text is Some {
            assert(all[k + 1] == text);
        } else {
            assert(all == rest);
        }
    }
}

} // verus!
