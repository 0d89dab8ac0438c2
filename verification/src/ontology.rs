//! The kinds of attendance of an organization: reading them from the calendar
//! page, naming them, and keeping them for a day.

use crate::api::{symbol_views, SymbolView};
use crate::dom::{page_of, positions, select, select_in, spaced_text, Dom, Page, Selector};
use crate::forms::attr_or;
use crate::hr_core::{type_views, AbsenceSymbol, AttendanceType, TypeView};
use crate::text::{
    contains, contains_text, lowercased, opt_str, opt_text, same, to_lowercase,
};
use crate::use_cases::{is_code, is_type_code};
use vstd::prelude::*;

verus! {

/// A moment: seconds since the start of 1970, and nanoseconds of the second.
#[derive(Debug, Clone, Copy, PartialEq, Eq, Structural)]
pub struct Moment {
    pub seconds: i64,
    pub nanos: u32,
}

/// The kinds of attendance of an organization, and when they were fetched.
#[derive(Debug)]
pub struct OrgOntology {
    pub subdomain: String,
    pub types: Vec<AttendanceType>,
    pub fetched_at: Moment,
}

/// Whether a moment is less than a day before another.
pub open spec fn within_a_day(fetched: Moment, now: Moment) -> bool {
    now.seconds < fetched.seconds + 86400 || (now.seconds == fetched.seconds + 86400 && now.nanos
        < fetched.nanos)
}

/// Whether a kind goes by a name, whatever the case: by its code or by one of
/// its names.
pub open spec fn goes_by(item: TypeView, name: Seq<char>) -> bool {
    ||| lowercased(item.code) == lowercased(name)
    ||| lowercased(item.name_he) == lowercased(name)
    ||| item.name_en matches Some(name_en) && lowercased(name_en) == lowercased(name)
}

/// The first kind that goes by a name.
pub open spec fn first_named(types: Seq<TypeView>, name: Seq<char>) -> Option<TypeView>
    decreases types.len(),
{
    if types.len() == 0 {
        None
    } else if goes_by(types[0], name) {
        Some(types[0])
    } else {
        first_named(types.skip(1), name)
    }
}

/// The place of the first kind that goes by a name.
pub fn find_named(types: &Vec<AttendanceType>, name: &str) -> (found: Option<usize>)
    ensures
        match found {
            Some(at) => at < types.len() && first_named(type_views(types@), name@) == Some(
                types@[at as int]@,
            ),
            None => first_named(type_views(types@), name@) is None,
        },
{
    let ghost all = type_views(types@);
    let lower = to_lowercase(name);
    let mut i: usize = 0;
    assert(all.skip(0) == all);
    while i < types.len()
        invariant
            i <= types.len(),
            all == type_views(types@),
            lower@ == lowercased(name@),
            first_named(all.skip(i as int), name@) == first_named(all, name@),
        decreases types.len() - i,
    {
        assert(all.skip(i as int).skip(1) == all.skip(i + 1));
        assert(all.skip(i as int)[0] == types@[i as int]@);
        let code = to_lowercase(types[i].code.as_str());
        let name_he = to_lowercase(types[i].name_he.as_str());
        let english = match &types[i].name_en {
            Some(name_en) => {
                let own = to_lowercase(name_en.as_str());
                same(own.as_str(), lower.as_str())
            },
            None => false,
        };
        if same(code.as_str(), lower.as_str()) || same(name_he.as_str(), lower.as_str())
            || english {
            return Some(i);
        }
        i = i + 1;
    }
    None
}

/// The English name of a kind in brackets, where it has one.
pub open spec fn bracketed(name: Option<Seq<char>>) -> Seq<char> {
    match name {
        Some(name) => " ("@ + name + ")"@,
        None => ""@,
    }
}

/// The lines of a list of kinds, with `dash` between code and name.
pub open spec fn type_lines(types: Seq<TypeView>, dash: Seq<char>) -> Seq<char>
    decreases types.len(),
{
    if types.len() == 0 {
        "Available attendance types:\n"@
    } else {
        let last = types.last();
        type_lines(types.drop_last(), dash) + ("  "@ + last.code + dash + last.name_he + bracketed(
            last.name_en,
        ) + "\n"@)
    }
}

/// Lists kinds, with `dash` between code and name.
pub fn list_types(types: &Vec<AttendanceType>, dash: &str) -> (text: String)
    ensures
        text@ == type_lines(type_views(types@), dash@),
{
    let ghost all = type_views(types@);
    let mut text = "Available attendance types:\n".to_owned();
    let mut i: usize = 0;
    while i < types.len()
        invariant
            i <= types.len(),
            all == type_views(types@),
            text@ == type_lines(all.take(i as int), dash@),
        decreases types.len() - i,
    {
        assert(all.take(i + 1).drop_last() == all.take(i as int));
        assert(all.take(i + 1).last() == types@[i as int]@);
        let mut line = "  ".to_owned();
        line.append(types[i].code.as_str());
        line.append(dash);
        line.append(types[i].name_he.as_str());
        let mut english = "".to_owned();
        if let Some(name) = &types[i].name_en {
            english = " (".to_owned();
            english.append(name.as_str());
            english.append(")");
        }
        line.append(english.as_str());
        line.append("\n");
        text.append(line.as_str());
        i = i + 1;
    }
    assert(all.take(all.len() as int) == all);
    text
}

/// The words for a kind that there is not.
pub open spec fn unknown_type_text(types: Seq<TypeView>, name: Seq<char>) -> Seq<char> {
    "Unknown attendance type '"@ + name + "'.\n"@ + type_lines(types, " — "@)
}

impl OrgOntology {
    /// The first kind that goes by a name, whatever the case; the words of the
    /// error list the kinds there are.
    pub fn validate_type(&self, name: &str) -> (found: Result<&AttendanceType, String>)
        ensures
            match found {
                Ok(item) => first_named(type_views(self.types@), name@) == Some(item@),
                Err(message) => first_named(type_views(self.types@), name@) is None && message@
                    == unknown_type_text(type_views(self.types@), name@),
            },
    {
        match find_named(&self.types, name) {
            Some(at) => Ok(&self.types[at]),
            None => {
                let mut message = "Unknown attendance type '".to_owned();
                message.append(name);
                message.append("'.\n");
                let list = list_types(&self.types, " — ");
                message.append(list.as_str());
                Err(message)
            },
        }
    }
}

/// The code and the name to show of a kind that is asked for, or why there is
/// none. The kinds that are kept decide where there are any; without them a
/// code passes as it is.
pub open spec fn kind_asked(
    kept: Option<Result<Seq<TypeView>, Seq<char>>>,
    requested: Option<Seq<char>>,
) -> Result<(Option<Seq<char>>, Seq<char>), Seq<char>> {
    match (requested, kept) {
        (None, _) => Ok((None, ""@)),
        (Some(_), Some(Err(reason))) => Err(reason),
        (Some(name), Some(Ok(types))) => match first_named(types, name) {
            Some(item) => Ok(
                (
                    Some(item.code),
                    match item.name_en {
                        Some(name_en) => name_en,
                        None => item.name_he,
                    },
                ),
            ),
            None => Err(unknown_type_text(types, name)),
        },
        (Some(name), None) => if is_code(name) {
            Ok((Some(name), name))
        } else {
            Err(
                "Attendance type '"@ + name
                    + "' needs cached ontology. Run `shaon cache refresh attendance-types` first or pass a numeric code."@,
            )
        },
    }
}

/// The kinds of what is kept, or why it could not be read.
pub open spec fn kept_types(kept: Option<Result<OrgOntology, String>>) -> Option<
    Result<Seq<TypeView>, Seq<char>>,
> {
    match kept {
        Some(Ok(ontology)) => Some(Ok(type_views(ontology.types@))),
        Some(Err(reason)) => Some(Err(reason@)),
        None => None,
    }
}

/// Finds the code and the name to show of a kind that is asked for. Without a
/// request there is no code.
pub fn resolve_auto_fill_type(
    kept: Option<Result<OrgOntology, String>>,
    requested: Option<&str>,
) -> (found: Result<(Option<String>, String), String>)
    ensures
        match (found, kind_asked(kept_types(kept), opt_str(requested))) {
            (Ok(found), Ok(asked)) => (opt_text(found.0), found.1@) == asked,
            (Err(message), Err(asked)) => message@ == asked,
            _ => false,
        },
{
    let name = match requested {
        Some(name) => name,
        None => {
            return Ok((None, "".to_owned()));
        },
    };
    match kept {
        Some(Ok(ontology)) => match ontology.validate_type(name) {
            Ok(item) => {
                let display = match &item.name_en {
                    Some(name_en) => name_en.clone(),
                    None => item.name_he.clone(),
                };
                Ok((Some(item.code.clone()), display))
            },
            Err(message) => Err(message),
        },
        Some(Err(reason)) => Err(reason),
        None => {
            if is_type_code(name) {
                Ok((Some(name.to_owned()), name.to_owned()))
            } else {
                let mut message = "Attendance type '".to_owned();
                message.append(name);
                message.append(
                    "' needs cached ontology. Run `shaon cache refresh attendance-types` first or pass a numeric code.",
                );
                Err(message)
            }
        },
    }
}

/// What is done with the kinds that are kept.
#[derive(Debug, Clone, Copy, PartialEq, Eq, Structural)]
pub enum CacheUse {
    /// They are fresh and are used.
    Use,
    /// They are this many hours old and are fetched again.
    Refresh(i64),
    /// There are none and they are fetched.
    Fetch,
}

/// The whole hours from one moment to another.
pub open spec fn hours_between(fetched: Moment, now: Moment) -> int {
    let nanos = (now.seconds - fetched.seconds) * 1_000_000_000 + now.nanos - fetched.nanos;
    nanos / 3_600_000_000_000
}

/// What is done with the kinds that are kept, where there are any.
pub fn cache_use(cached: Option<Moment>, now: Moment) -> (plan: CacheUse)
    ensures
        match cached {
            Some(fetched) => if within_a_day(fetched, now) {
                plan == CacheUse::Use
            } else {
                plan matches CacheUse::Refresh(hours) && hours == hours_between(fetched, now)
            },
            None => plan == CacheUse::Fetch,
        },
{
    match cached {
        Some(fetched) => {
            let limit: i128 = fetched.seconds as i128 + 86400;
            let seconds: i128 = now.seconds as i128;
            if seconds < limit || (seconds == limit && now.nanos < fetched.nanos) {
                CacheUse::Use
            } else {
                let nanos: i128 = (seconds - fetched.seconds as i128) * 1_000_000_000
                    + now.nanos as i128 - fetched.nanos as i128;
                let hours: i128 = nanos / 3_600_000_000_000;
                CacheUse::Refresh(hours as i64)
            }
        },
        None => CacheUse::Fetch,
    }
}

// ---------------------------------------------------------------------------
// Reading the calendar page
// ---------------------------------------------------------------------------

/// The first drop-down of a list that chooses a kind.
pub open spec fn symbol_drop_down(dom: Dom, list: Seq<int>) -> Option<int>
    decreases list.len(),
{
    if list.len() == 0 {
        None
    } else if contains(attr_or(dom, list[0], "name"@, ""@), "SymbolId"@) {
        Some(list[0])
    } else {
        symbol_drop_down(dom, list.skip(1))
    }
}

/// The options of a list as code and name, but those with neither.
pub open spec fn option_pairs(dom: Dom, options: Seq<int>) -> Seq<(Seq<char>, Seq<char>)>
    decreases options.len(),
{
    if options.len() == 0 {
        seq![]
    } else {
        let before = option_pairs(dom, options.drop_last());
        let value = attr_or(dom, options.last(), "value"@, ""@);
        let text = spaced_text(dom, options.last());
        if value.len() == 0 && text.len() == 0 {
            before
        } else {
            before.push((value, text))
        }
    }
}

/// The kinds that a page offers, as code and name.
pub open spec fn offered_types(dom: Dom) -> Seq<(Seq<char>, Seq<char>)> {
    match symbol_drop_down(dom, select(dom, Selector::Select)) {
        Some(drop_down) => option_pairs(dom, select_in(dom, drop_down, Selector::AnyOption)),
        None => seq![],
    }
}

fn value_attr<'a>(page: &'a Page, at: usize, name: &str) -> (value: &'a str)
    requires
        at < page@.nodes.len(),
    ensures
        value@ == attr_or(page@, at as int, name@, ""@),
{
    match page.attr(at, name) {
        Some(value) => value,
        None => "",
    }
}

/// The kinds that a parsed page offers, as code and name.
pub fn types_of_page(page: &Page) -> (types: Vec<(String, String)>)
    ensures
        crate::fields::pair_texts(types@) == offered_types(page@),
{
    let found = page.select(Selector::Select);
    let ghost all = positions(found@);
    let mut drop_down: Option<usize> = None;
    let mut i: usize = 0;
    assert(all.skip(0) == all);
    while i < found.len()
        invariant_except_break
            drop_down is None,
            symbol_drop_down(page@, all.skip(i as int)) == symbol_drop_down(page@, all),
        invariant
            i <= found.len(),
            all == positions(found@),
            forall|j: int| 0 <= j < found.len() ==> (#[trigger] found@[j]) < page@.nodes.len(),
        ensures
            match drop_down {
                Some(at) => at < page@.nodes.len() && symbol_drop_down(page@, all) == Some(
                    at as int,
                ),
                None => symbol_drop_down(page@, all) is None,
            },
        decreases found.len() - i,
    {
        assert(all.skip(i as int).skip(1) == all.skip(i + 1));
        assert(all.skip(i as int)[0] == found@[i as int]);
        if contains_text(value_attr(page, found[i], "name"), "SymbolId") {
            drop_down = Some(found[i]);
            break ;
        }
        i = i + 1;
    }
    let mut types: Vec<(String, String)> = Vec::new();
    assert(crate::fields::pair_texts(types@) == Seq::<(Seq<char>, Seq<char>)>::empty());
    let drop_down: usize = match drop_down {
        Some(drop_down) => drop_down,
        None => {
            return types;
        },
    };
    let options = page.select_in(drop_down, Selector::AnyOption);
    let ghost listed = positions(options@);
    let mut k: usize = 0;
    while k < options.len()
        invariant
            k <= options.len(),
            listed == positions(options@),
            forall|j: int| 0 <= j < options.len() ==> (#[trigger] options@[j]) < page@.nodes.len(),
            crate::fields::pair_texts(types@) == option_pairs(page@, listed.take(k as int)),
        decreases options.len() - k,
    {
        assert(listed.take(k + 1).drop_last() == listed.take(k as int));
        assert(listed.take(k + 1).last() == options@[k as int]);
        let ghost before = crate::fields::pair_texts(types@);
        let value = value_attr(page, options[k], "value");
        let text = page.spaced_text(options[k]);
        if !(value.is_empty() && text.as_str().is_empty()) {
            let ghost pair = (value@, text@);
            types.push((value.to_owned(), text));
            assert(crate::fields::pair_texts(types@) == before.push(pair));
        }
        k = k + 1;
    }
    assert(listed.take(listed.len() as int) == listed);
    types
}

/// The kinds that a calendar page offers, as code and name.
pub fn parse_symbol_dropdown(html: &str) -> (types: Vec<(String, String)>)
    ensures
        crate::fields::pair_texts(types@) == offered_types(page_of(html@)),
{
    let page = Page::parse(html);
    types_of_page(&page)
}

/// The name of the last symbol with a code, or none.
pub open spec fn symbol_name(symbols: Seq<SymbolView>, code: Seq<char>) -> Seq<char>
    decreases symbols.len(),
{
    if symbols.len() == 0 {
        seq![]
    } else if symbols.last().id == code {
        symbols.last().name
    } else {
        symbol_name(symbols.drop_last(), code)
    }
}

/// The kind of an offered code and name: the English name is the one offered,
/// the Hebrew one that of the symbol with the code.
pub open spec fn merged_type(pair: (Seq<char>, Seq<char>), symbols: Seq<SymbolView>) -> TypeView {
    TypeView {
        code: pair.0,
        name_he: symbol_name(symbols, pair.0),
        name_en: if pair.1.len() == 0 {
            None
        } else {
            Some(pair.1)
        },
    }
}

/// The kinds of what a page offers and the symbols of the service.
pub open spec fn merged_types(
    pairs: Seq<(Seq<char>, Seq<char>)>,
    symbols: Seq<SymbolView>,
) -> Seq<TypeView> {
    pairs.map_values(|pair: (Seq<char>, Seq<char>)| merged_type(pair, symbols))
}

fn find_symbol_name(symbols: &Vec<AbsenceSymbol>, code: &str) -> (name: String)
    ensures
        name@ == symbol_name(symbol_views(symbols@), code@),
{
    let ghost all = symbol_views(symbols@);
    let mut i: usize = symbols.len();
    assert(all.take(i as int) == all);
    while i > 0
        invariant
            i <= symbols.len(),
            all == symbol_views(symbols@),
            symbol_name(all.take(i as int), code@) == symbol_name(all, code@),
        decreases i,
    {
        assert(all.take(i as int).drop_last() == all.take(i - 1));
        assert(all.take(i as int).last() == symbols@[i - 1]@);
        i = i - 1;
        if same(symbols[i].id.as_str(), code) {
            return symbols[i].name.clone();
        }
    }
    String::new()
}

/// The kinds of what a page offers and the symbols of the service; none where
/// the page offers none.
pub fn merge_types(pairs: Vec<(String, String)>, symbols: &Vec<AbsenceSymbol>) -> (types: Result<
    Vec<AttendanceType>,
    String,
>)
    ensures
        match types {
            Ok(types) => pairs@.len() > 0 && type_views(types@) == merged_types(
                crate::fields::pair_texts(pairs@),
                symbol_views(symbols@),
            ),
            Err(message) => pairs@.len() == 0 && message@
                == "No attendance types found in the calendar page dropdown"@,
        },
{
    if pairs.len() == 0 {
        return Err("No attendance types found in the calendar page dropdown".to_owned());
    }
    let mut types: Vec<AttendanceType> = Vec::new();
    let mut i: usize = 0;
    while i < pairs.len()
        invariant
            i <= pairs.len(),
            types.len() == i,
            forall|j: int|
                0 <= j < i ==> (#[trigger] types@[j])@ == merged_type(
                    (pairs@[j].0@, pairs@[j].1@),
                    symbol_views(symbols@),
                ),
        decreases pairs.len() - i,
    {
        let name_he = find_symbol_name(symbols, pairs[i].0.as_str());
        let name_en = if pairs[i].1.as_str().is_empty() {
            None
        } else {
            Some(pairs[i].1.clone())
        };
        types.push(AttendanceType { code: pairs[i].0.clone(), name_he, name_en });
        i = i + 1;
    }
    assert(type_views(types@) == merged_types(
        crate::fields::pair_texts(pairs@),
        symbol_views(symbols@),
    ));
    Ok(types)
}

/// Where the kinds of an organization are kept, below the home directory.
pub fn ontology_path(subdomain: &str) -> (path: Vec<String>)
    ensures
        crate::text::texts(path@) == seq![".shaon"@, subdomain@, "types.json"@],
{
    let mut path = crate::config::subdomain_dir(subdomain);
    let ghost before = crate::text::texts(path@);
    path.push("types.json".to_owned());
    assert(crate::text::texts(path@) == before.push("types.json"@));
    path
}

} // verus!
