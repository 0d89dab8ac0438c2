//! Laws of the kinds of attendance.

use crate::api::SymbolView;
use crate::dom::{select, select_in, spaced_text, Dom, Selector};
use crate::forms::attr_or;
use crate::hr_core::TypeView;
use crate::laws::texts::all_digits;
use crate::ontology::{
    first_named, hours_between, kind_asked, merged_types, offered_types, option_pairs,
    symbol_drop_down, symbol_name, type_lines, within_a_day, Moment,
};
use crate::text::{contains, lowercased};
use crate::use_cases::resolved;
use vstd::prelude::*;

verus! {

/// Whether a kind has a text as its code or as one of its names, whatever the
/// case.
pub open spec fn is_called(item: TypeView, text: Seq<char>) -> bool {
    ||| lowercased(item.code) == lowercased(text)
    ||| lowercased(item.name_he) == lowercased(text)
    ||| (item.name_en is Some && lowercased(item.name_en->Some_0) == lowercased(text))
}

proof fn the_first_of_a_name(types: Seq<TypeView>, name: Seq<char>, at: int)
    requires
        0 <= at < types.len(),
        is_called(types[at], name),
        forall|i: int| 0 <= i < at ==> !is_called(#[trigger] types[i], name),
    ensures
        first_named(types, name) == Some(types[at]),
    decreases types.len(),
{
    if at > 0 {
        assert(!is_called(types[0], name));
        let rest = types.skip(1);
        assert(rest[at - 1] == types[at]);
        assert forall|i: int| 0 <= i < at - 1 implies !is_called(#[trigger] rest[i], name) by {
            assert(rest[i] == types[i + 1]);
        }
        the_first_of_a_name(rest, name, at - 1);
    }
}

proof fn none_of_a_name(types: Seq<TypeView>, name: Seq<char>)
    requires
        forall|i: int| 0 <= i < types.len() ==> !is_called(#[trigger] types[i], name),
    ensures
        first_named(types, name) is None,
    decreases types.len(),
{
    if types.len() > 0 {
        assert(!is_called(types[0], name));
        let rest = types.skip(1);
        assert forall|i: int| 0 <= i < rest.len() implies !is_called(#[trigger] rest[i], name) by {
            assert(rest[i] == types[i + 1]);
        }
        none_of_a_name(rest, name);
    }
}

/// A kind that is asked for is the first that is called so: its code is
/// written, and its English name is shown where it has one.
pub proof fn a_kind_is_found_by_what_it_is_called(
    types: Seq<TypeView>,
    name: Seq<char>,
    at: int,
)
    requires
        0 <= at < types.len(),
        is_called(types[at], name),
        forall|i: int| 0 <= i < at ==> !is_called(#[trigger] types[i], name),
    ensures
        kind_asked(Some(Ok(types)), Some(name)) matches Ok(found) && found.0 == Some(types[at].code)
            && (types[at].name_en matches Some(english) ==> found.1 == english) && (
        types[at].name_en is None ==> found.1 == types[at].name_he),
        all_digits(name) ==> resolved(Some(name), Ok(types)) == Ok::<
            Option<(Seq<char>, Seq<char>)>,
            crate::hr_core::ErrorView,
        >(Some((name, name))),
        !all_digits(name) ==> (resolved(Some(name), Ok(types)) matches Ok(
            Some(found),
        ) && found.0 == types[at].code && (types[at].name_en matches Some(english) ==> found.1
            == english) && (types[at].name_en is None ==> found.1 == types[at].name_he)),
{
    the_first_of_a_name(types, name, at);
}

/// A kind that nothing is called by is refused; a code passes as it is where
/// nothing is known of the kinds, and no request asks for no kind.
pub proof fn a_kind_that_is_not_there_is_refused(types: Seq<TypeView>, name: Seq<char>)
    requires
        forall|i: int| 0 <= i < types.len() ==> !is_called(#[trigger] types[i], name),
    ensures
        kind_asked(Some(Ok(types)), Some(name)) is Err,
        !all_digits(name) ==> (resolved(Some(name), Ok(types)) matches Err(
            error,
        ) && error.code == "unknown_attendance_type"@),
        all_digits(name) ==> kind_asked(None, Some(name)) == Ok::<
            (Option<Seq<char>>, Seq<char>),
            Seq<char>,
        >((Some(name), name)),
        !all_digits(name) ==> kind_asked(None, Some(name)) is Err,
        kind_asked(Some(Ok(types)), None) matches Ok(found) && found.0 is None,
        resolved(None, Ok(types)) == Ok::<
            Option<(Seq<char>, Seq<char>)>,
            crate::hr_core::ErrorView,
        >(None),
{
    none_of_a_name(types, name);
}

/// Kinds that are kept are used for 24 hours from when they were fetched, and
/// their age in whole hours is said after that.
pub proof fn kinds_are_kept_for_a_day(fetched: Moment, now: Moment)
    requires
        0 <= fetched.nanos < 1_000_000_000,
        0 <= now.nanos < 1_000_000_000,
    ensures
        ({
            let age = (now.seconds - fetched.seconds) * 1_000_000_000 + (now.nanos - fetched.nanos);
            &&& (within_a_day(fetched, now) <==> age < 86_400_000_000_000)
            &&& hours_between(fetched, now) * 3_600_000_000_000 <= age
            &&& age < (hours_between(fetched, now) + 1) * 3_600_000_000_000
        }),
{
}

/// The kinds of a page and of the service are merged one for one: the code and
/// the English name are those that the page offers, the Hebrew name is that of
/// the last symbol of the code.
pub proof fn kinds_are_merged_by_their_codes(
    pairs: Seq<(Seq<char>, Seq<char>)>,
    symbols: Seq<SymbolView>,
    at: int,
)
    requires
        0 <= at < pairs.len(),
    ensures
        merged_types(pairs, symbols).len() == pairs.len(),
        merged_types(pairs, symbols)[at].code == pairs[at].0,
        merged_types(pairs, symbols)[at].name_en == (if pairs[at].1.len() == 0 {
            None
        } else {
            Some(pairs[at].1)
        }),
        forall|i: int|
            0 <= i < symbols.len() && (#[trigger] symbols[i]).id == pairs[at].0 && (forall|j: int|
                i < j < symbols.len() ==> (#[trigger] symbols[j]).id != pairs[at].0)
                ==> merged_types(pairs, symbols)[at].name_he == symbols[i].name,
        (forall|i: int| 0 <= i < symbols.len() ==> (#[trigger] symbols[i]).id != pairs[at].0)
            ==> merged_types(pairs, symbols)[at].name_he.len() == 0,
{
    the_name_of_a_code(symbols, pairs[at].0);
}

proof fn the_name_of_a_code(symbols: Seq<SymbolView>, code: Seq<char>)
    ensures
        forall|i: int|
            0 <= i < symbols.len() && (#[trigger] symbols[i]).id == code && (forall|j: int|
                i < j < symbols.len() ==> (#[trigger] symbols[j]).id != code) ==> symbol_name(
                symbols,
                code,
            ) == symbols[i].name,
        (forall|i: int| 0 <= i < symbols.len() ==> (#[trigger] symbols[i]).id != code)
            ==> symbol_name(symbols, code).len() == 0,
    decreases symbols.len(),
{
    if symbols.len() > 0 {
        let front = symbols.drop_last();
        the_name_of_a_code(front, code);
        let last = symbols.len() - 1;
        assert(symbols[last] == symbols.last());
        assert forall|i: int|
            0 <= i < symbols.len() && (#[trigger] symbols[i]).id == code && (forall|j: int|
                i < j < symbols.len() ==> (#[trigger] symbols[j]).id != code) implies symbol_name(
            symbols,
            code,
        ) == symbols[i].name by {
            if i < last {
                assert(symbols[last].id != code);
                assert(front[i] == symbols[i]);
                assert forall|j: int| i < j < front.len() implies (#[trigger] front[j]).id
                    != code by {
                    assert(front[j] == symbols[j]);
                }
            }
        }
        if forall|i: int| 0 <= i < symbols.len() ==> (#[trigger] symbols[i]).id != code {
            assert forall|i: int| 0 <= i < front.len() implies (#[trigger] front[i]).id != code by {
                assert(front[i] == symbols[i]);
            }
        }
    }
}

/// Each option of the drop-down for kinds offers its value as the code and its
/// text as the name, unless both are empty.
pub proof fn each_option_offers_its_kind(dom: Dom, options: Seq<int>, at: int)
    requires
        0 <= at < options.len(),
        attr_or(dom, options[at], "value"@, ""@).len() > 0 || spaced_text(dom, options[at]).len()
            > 0,
    ensures
        option_pairs(dom, options).contains(
            (attr_or(dom, options[at], "value"@, ""@), spaced_text(dom, options[at])),
        ),
    decreases options.len(),
{
    let before = option_pairs(dom, options.drop_last());
    let pair = (attr_or(dom, options[at], "value"@, ""@), spaced_text(dom, options[at]));
    if at == options.len() - 1 {
        assert(option_pairs(dom, options) == before.push(pair));
        assert(before.push(pair)[before.len() as int] == pair);
    } else {
        each_option_offers_its_kind(dom, options.drop_last(), at);
        let i = choose|i: int| 0 <= i < before.len() && before[i] == pair;
        assert(option_pairs(dom, options)[i] == pair);
    }
}

/// What is offered is what an option of the drop-down has.
pub proof fn what_is_offered_is_an_option(dom: Dom, options: Seq<int>, k: int)
    requires
        0 <= k < option_pairs(dom, options).len(),
    ensures
        exists|at: int|
            0 <= at < options.len() && option_pairs(dom, options)[k] == (
                attr_or(dom, #[trigger] options[at], "value"@, ""@),
                spaced_text(dom, options[at]),
            ),
    decreases options.len(),
{
    let before = option_pairs(dom, options.drop_last());
    if k < before.len() {
        what_is_offered_is_an_option(dom, options.drop_last(), k);
        let at = choose|at: int|
            0 <= at < options.drop_last().len() && before[k] == (
                attr_or(dom, #[trigger] options.drop_last()[at], "value"@, ""@),
                spaced_text(dom, options.drop_last()[at]),
            );
        assert(options[at] == options.drop_last()[at]);
    } else {
        assert(options[options.len() - 1] == options.last());
    }
}

/// The kinds of a page are the options of its first drop-down for symbols.
pub proof fn kinds_are_offered_by_the_drop_down_for_symbols(dom: Dom, at: int)
    requires
        0 <= at < select(dom, Selector::Select).len(),
        contains(
            attr_or(dom, select(dom, Selector::Select)[at], "name"@, ""@),
            "SymbolId"@,
        ),
        forall|i: int|
            0 <= i < at ==> !contains(
                attr_or(dom, #[trigger] select(dom, Selector::Select)[i], "name"@, ""@),
                "SymbolId"@,
            ),
    ensures
        offered_types(dom) == option_pairs(
            dom,
            select_in(dom, select(dom, Selector::Select)[at], Selector::AnyOption),
        ),
{
    the_first_drop_down_for_symbols(dom, select(dom, Selector::Select), at);
}

proof fn the_first_drop_down_for_symbols(dom: Dom, list: Seq<int>, at: int)
    requires
        0 <= at < list.len(),
        contains(attr_or(dom, list[at], "name"@, ""@), "SymbolId"@),
        forall|i: int|
            0 <= i < at ==> !contains(attr_or(dom, #[trigger] list[i], "name"@, ""@), "SymbolId"@),
    ensures
        symbol_drop_down(dom, list) == Some(list[at]),
    decreases list.len(),
{
    if at > 0 {
        assert(!contains(attr_or(dom, list[0], "name"@, ""@), "SymbolId"@));
        let rest = list.skip(1);
        assert(rest[at - 1] == list[at]);
        assert forall|i: int| 0 <= i < at - 1 implies !contains(
            attr_or(dom, #[trigger] rest[i], "name"@, ""@),
            "SymbolId"@,
        ) by {
            assert(rest[i] == list[i + 1]);
        }
        the_first_drop_down_for_symbols(dom, rest, at - 1);
    }
}

/// A list of kinds names each with its code and its names, one on a line.
pub proof fn each_kind_is_named_on_a_line(types: Seq<TypeView>, dash: Seq<char>)
    requires
        types.len() > 0,
    ensures
        type_lines(types, dash) == type_lines(types.drop_last(), dash) + ("  "@
            + types.last().code + dash + types.last().name_he + (match types.last().name_en {
            Some(english) => " ("@ + english + ")"@,
            None => ""@,
        }) + "\n"@),
{
}

} // verus!
