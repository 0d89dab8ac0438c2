//! Web pages as plain data: the nodes of the parsed document in document
//! order, and the elements that each CSS selector finds.

use crate::text::{join, joined, same, texts, trim, trimmed};
use std::collections::HashMap;
use vstd::prelude::*;

verus! {

/// The selectors that pages are read with.
#[derive(Debug, Clone, Copy, PartialEq, Eq, Structural)]
pub enum Selector {
    DayCell,
    DayNumber,
    DayMessage,
    DayIcon,
    ReportDayRow,
    ReportDateCell,
    EmployeeReportRow,
    TableCell,
    HeaderCell,
    TableRow,
    Table,
    Input,
    Select,
    SelectedOption,
    AnyOption,
    TextArea,
    AspNetForm,
    AnyForm,
    SalaryRow,
    GridViewTable,
    GridTable,
    MasterTable,
    DataGridTable,
}

/// The number of selectors.
pub const SELECTOR_COUNT: usize = 23;

impl Selector {
    /// The selector's place in the list of selectors.
    pub open spec fn place(self) -> int {
        match self {
            Selector::DayCell => 0,
            Selector::DayNumber => 1,
            Selector::DayMessage => 2,
            Selector::DayIcon => 3,
            Selector::ReportDayRow => 4,
            Selector::ReportDateCell => 5,
            Selector::EmployeeReportRow => 6,
            Selector::TableCell => 7,
            Selector::HeaderCell => 8,
            Selector::TableRow => 9,
            Selector::Table => 10,
            Selector::Input => 11,
            Selector::Select => 12,
            Selector::SelectedOption => 13,
            Selector::AnyOption => 14,
            Selector::TextArea => 15,
            Selector::AspNetForm => 16,
            Selector::AnyForm => 17,
            Selector::SalaryRow => 18,
            Selector::GridViewTable => 19,
            Selector::GridTable => 20,
            Selector::MasterTable => 21,
            Selector::DataGridTable => 22,
        }
    }

    /// The selector at a place.
    pub open spec fn at(place: int) -> Selector {
        if place == 0 {
            Selector::DayCell
        } else if place == 1 {
            Selector::DayNumber
        } else if place == 2 {
            Selector::DayMessage
        } else if place == 3 {
            Selector::DayIcon
        } else if place == 4 {
            Selector::ReportDayRow
        } else if place == 5 {
            Selector::ReportDateCell
        } else if place == 6 {
            Selector::EmployeeReportRow
        } else if place == 7 {
            Selector::TableCell
        } else if place == 8 {
            Selector::HeaderCell
        } else if place == 9 {
            Selector::TableRow
        } else if place == 10 {
            Selector::Table
        } else if place == 11 {
            Selector::Input
        } else if place == 12 {
            Selector::Select
        } else if place == 13 {
            Selector::SelectedOption
        } else if place == 14 {
            Selector::AnyOption
        } else if place == 15 {
            Selector::TextArea
        } else if place == 16 {
            Selector::AspNetForm
        } else if place == 17 {
            Selector::AnyForm
        } else if place == 18 {
            Selector::SalaryRow
        } else if place == 19 {
            Selector::GridViewTable
        } else if place == 20 {
            Selector::GridTable
        } else if place == 21 {
            Selector::MasterTable
        } else {
            Selector::DataGridTable
        }
    }

    /// The selector in CSS.
    pub open spec fn css(self) -> Seq<char> {
        match self {
            Selector::DayCell => "td[Days]"@,
            Selector::DayNumber => "tr.dayImageNumberContainer td.dTS"@,
            Selector::DayMessage => "td.calendarMessageCell .cDM"@,
            Selector::DayIcon => "td.imageContainerStyle span.calendarIcon"@,
            Selector::ReportDayRow => "tr[id*=\"_RG_Days_\"][id$=\"_row_0\"]"@,
            Selector::ReportDateCell => "td[id*=\"cellOf_ReportDate_row_\"]"@,
            Selector::EmployeeReportRow => "tr[id*=\"_EmployeeReports_row_\"]"@,
            Selector::TableCell => "td"@,
            Selector::HeaderCell => "th"@,
            Selector::TableRow => "tr"@,
            Selector::Table => "table"@,
            Selector::Input => "input"@,
            Selector::Select => "select"@,
            Selector::SelectedOption => "option[selected]"@,
            Selector::AnyOption => "option"@,
            Selector::TextArea => "textarea"@,
            Selector::AspNetForm => "form#aspnetForm"@,
            Selector::AnyForm => "form"@,
            Selector::SalaryRow => "tr.RSGrid, tr.ARSGrid"@,
            Selector::GridViewTable => "table.GridView"@,
            Selector::GridTable => "table.grid"@,
            Selector::MasterTable => "table.rgMasterTable"@,
            Selector::DataGridTable => "table.DataGrid"@,
        }
    }

    fn index(self) -> (place: usize)
        ensures
            place == self.place(),
            place < SELECTOR_COUNT,
            Selector::at(place as int) == self,
    {
        match self {
            Selector::DayCell => 0,
            Selector::DayNumber => 1,
            Selector::DayMessage => 2,
            Selector::DayIcon => 3,
            Selector::ReportDayRow => 4,
            Selector::ReportDateCell => 5,
            Selector::EmployeeReportRow => 6,
            Selector::TableCell => 7,
            Selector::HeaderCell => 8,
            Selector::TableRow => 9,
            Selector::Table => 10,
            Selector::Input => 11,
            Selector::Select => 12,
            Selector::SelectedOption => 13,
            Selector::AnyOption => 14,
            Selector::TextArea => 15,
            Selector::AspNetForm => 16,
            Selector::AnyForm => 17,
            Selector::SalaryRow => 18,
            Selector::GridViewTable => 19,
            Selector::GridTable => 20,
            Selector::MasterTable => 21,
            Selector::DataGridTable => 22,
        }
    }
}

/// Whether a text is one of the selectors.
pub open spec fn is_selector(css: Seq<char>) -> bool {
    exists|selector: Selector| css == #[trigger] selector.css()
}

fn all_css() -> (list: Vec<&'static str>)
    ensures
        list.len() == SELECTOR_COUNT,
        forall|i: int| 0 <= i < list.len() ==> (#[trigger] list@[i])@ == Selector::at(i).css(),
{
    let mut list: Vec<&'static str> = Vec::new();
    list.push("td[Days]");
    list.push("tr.dayImageNumberContainer td.dTS");
    list.push("td.calendarMessageCell .cDM");
    list.push("td.imageContainerStyle span.calendarIcon");
    list.push("tr[id*=\"_RG_Days_\"][id$=\"_row_0\"]");
    list.push("td[id*=\"cellOf_ReportDate_row_\"]");
    list.push("tr[id*=\"_EmployeeReports_row_\"]");
    list.push("td");
    list.push("th");
    list.push("tr");
    list.push("table");
    list.push("input");
    list.push("select");
    list.push("option[selected]");
    list.push("option");
    list.push("textarea");
    list.push("form#aspnetForm");
    list.push("form");
    list.push("tr.RSGrid, tr.ARSGrid");
    list.push("table.GridView");
    list.push("table.grid");
    list.push("table.rgMasterTable");
    list.push("table.DataGrid");
    list
}

/// A node of a page as mathematics.
pub struct Node {
    /// The number of nodes of the subtree, this one counted.
    pub size: int,
    /// The tag name, where the node is an element.
    pub name: Option<Seq<char>>,
    /// The attributes of an element.
    pub attributes: Seq<(Seq<char>, Seq<char>)>,
    /// The characters, where the node is a text.
    pub text: Option<Seq<char>>,
}

/// A page as mathematics: its nodes in document order, and for each selector
/// the positions of the elements that it finds in the whole page.
pub struct Dom {
    pub nodes: Seq<Node>,
    pub found: Seq<Seq<int>>,
}

/// A node of a page.
#[derive(Debug)]
pub struct DomNode {
    pub size: usize,
    pub name: Option<String>,
    pub attributes: Vec<(String, String)>,
    pub text: Option<String>,
}

impl View for DomNode {
    type V = Node;

    open spec fn view(&self) -> Node {
        Node {
            size: self.size as int,
            name: crate::text::opt_text(self.name),
            attributes: crate::fields::pair_texts(self.attributes@),
            text: crate::text::opt_text(self.text),
        }
    }
}

/// The nodes of a list.
pub open spec fn node_views(nodes: Seq<DomNode>) -> Seq<Node> {
    nodes.map_values(|node: DomNode| node@)
}

/// Positions as whole numbers.
pub open spec fn positions(list: Seq<usize>) -> Seq<int> {
    list.map_values(|at: usize| at as int)
}

/// Position lists as whole numbers.
pub open spec fn position_lists(lists: Seq<Vec<usize>>) -> Seq<Seq<int>> {
    lists.map_values(|list: Vec<usize>| positions(list@))
}

/// Whether every subtree ends inside the page.
pub open spec fn sizes_fit(nodes: Seq<Node>) -> bool {
    forall|i: int|
        0 <= i < nodes.len() ==> 1 <= (#[trigger] nodes[i]).size && i + nodes[i].size
            <= nodes.len()
}

/// Whether every position is one of the page.
pub open spec fn positions_fit(list: Seq<int>, count: int) -> bool {
    forall|i: int| 0 <= i < list.len() ==> 0 <= #[trigger] list[i] < count
}

/// Whether a page is a page: sizes and positions inside it, one list for each
/// selector.
pub open spec fn is_page(dom: Dom) -> bool {
    &&& sizes_fit(dom.nodes)
    &&& dom.found.len() == SELECTOR_COUNT
    &&& forall|i: int|
        0 <= i < dom.found.len() ==> positions_fit(#[trigger] dom.found[i], dom.nodes.len() as int)
}

/// Whether the nodes that `scraper::Html::parse_document` makes of a text have
/// parents, in the order in which it makes them. The first is the root.
pub uninterp spec fn html_parents(html: Seq<char>) -> Seq<bool>;

/// The nodes of the subtree of the node made as number `top`, in document
/// order.
pub uninterp spec fn html_subtree(html: Seq<char>, top: int) -> Seq<Node>;

/// The numbers under which the nodes of that subtree were made, in the same
/// order.
pub uninterp spec fn html_numbers(html: Seq<char>, top: int) -> Seq<int>;

/// The numbers of the elements that `scraper::Html::select` finds in a page, in
/// the order in which it gives them.
pub uninterp spec fn html_matches(html: Seq<char>, css: Seq<char>) -> Seq<int>;

/// The subtrees of those of the first `count` nodes that have no parent, one
/// behind the other: that of the root, then what was cut off from it.
pub open spec fn listed(html: Seq<char>, count: nat) -> (Seq<int>, Seq<Node>)
    decreases count,
{
    if count == 0 {
        (seq![], seq![])
    } else {
        let before = listed(html, (count - 1) as nat);
        if html_parents(html)[count - 1] {
            before
        } else {
            (before.0 + html_numbers(html, count - 1), before.1 + html_subtree(html, count - 1))
        }
    }
}

/// The nodes of a page, and the numbers under which they were made.
pub open spec fn html_nodes(html: Seq<char>) -> (Seq<int>, Seq<Node>) {
    listed(html, html_parents(html).len())
}

/// The first place of a number in a list, from `from` on.
pub open spec fn place_from(order: Seq<int>, number: int, from: int) -> Option<int>
    decreases order.len() - from,
{
    if from < 0 || from >= order.len() {
        None
    } else if order[from] == number {
        Some(from)
    } else {
        place_from(order, number, from + 1)
    }
}

/// The places of numbers in a list.
pub open spec fn places(order: Seq<int>, numbers: Seq<int>) -> Seq<int>
    decreases numbers.len(),
{
    if numbers.len() == 0 {
        seq![]
    } else {
        let before = places(order, numbers.drop_last());
        match place_from(order, numbers.last(), 0) {
            Some(place) => before.push(place),
            None => before,
        }
    }
}

/// The page that a text stands for.
pub open spec fn page_of(html: Seq<char>) -> Dom {
    Dom {
        nodes: html_nodes(html).1,
        found: Seq::new(
            SELECTOR_COUNT as nat,
            |i: int| places(html_nodes(html).0, html_matches(html, Selector::at(i).css())),
        ),
    }
}

/// Calls `scraper::Html::parse_document` and asks each node that it made
/// whether it has a parent.
#[verifier::external_body]
fn parse_parents(html: &str) -> (parents: Vec<bool>)
    ensures
        parents@ == html_parents(html@),
{
    let page = scraper::Html::parse_document(html);
    page.tree.nodes().map(|node| node.parent().is_some()).collect()
}

/// Calls `scraper::Html::parse_document` and lists the subtree of one node in
/// document order: for each node the size of its subtree, which ends inside
/// the one listed, its name, its attributes and its text. An attribute in a
/// namespace has the namespace before its name.
#[verifier::external_body]
fn parse_subtree(html: &str, top: usize) -> (nodes: Vec<DomNode>)
    requires
        top < html_parents(html@).len(),
    ensures
        node_views(nodes@) == html_subtree(html@, top as int),
        sizes_fit(node_views(nodes@)),
{
    let page = scraper::Html::parse_document(html);
    page.tree.nodes().nth(top).iter().flat_map(|top| top.descendants()).map(|node| DomNode {
        size: node.descendants().count(),
        name: node.value().as_element().map(|element| element.name().to_string()),
        attributes: node.value().as_element().map(|element| {
            element.attrs.iter().map(|(name, value)| (format!("{}{}", name.ns, name.local), value.to_string())).collect()
        }).unwrap_or_default(),
        text: node.value().as_text().map(|text| text.to_string()),
    }).collect()
}

/// Calls `scraper::Html::parse_document` and lists the numbers of the nodes of
/// the subtree of one node in document order, one for each node.
#[verifier::external_body]
fn parse_numbers(html: &str, top: usize) -> (numbers: Vec<usize>)
    requires
        top < html_parents(html@).len(),
    ensures
        positions(numbers@) == html_numbers(html@, top as int),
        numbers@.len() == html_subtree(html@, top as int).len(),
{
    let page = scraper::Html::parse_document(html);
    let numbers: HashMap<_, _> = page.tree.nodes().map(|node| node.id()).zip(0..).collect();
    page.tree.nodes().nth(top).iter().flat_map(|top| top.descendants()).map(|node| numbers[&node.id()]).collect()
}

/// Calls `scraper::Html::select` with each selector of a list, all of which
/// `scraper::Selector::parse` accepts, and gives the numbers of the elements
/// found.
#[verifier::external_body]
fn parse_matches(html: &str, list: &Vec<&str>) -> (found: Vec<Vec<usize>>)
    requires
        forall|i: int|
            0 <= i < list.len() ==> is_selector((#[trigger] list@[i])@),
    ensures
        found.len() == list.len(),
        forall|i: int|
            0 <= i < list.len() ==> positions(#[trigger] found@[i]@) == html_matches(
                html@,
                list@[i]@,
            ),
{
    let page = scraper::Html::parse_document(html);
    let numbers: HashMap<_, _> = page.tree.nodes().map(|node| node.id()).zip(0..).collect();
    list.iter().map(|css| {
        let selector = scraper::Selector::parse(css).expect("valid selector");
        page.select(&selector).map(|element| numbers[&element.id()]).collect()
    }).collect()
}

/// Lists the nodes of a page, and the numbers under which they were made.
fn list_nodes(html: &str) -> (all: (Vec<usize>, Vec<DomNode>))
    ensures
        (positions(all.0@), node_views(all.1@)) == html_nodes(html@),
        all.0@.len() == all.1@.len(),
        sizes_fit(node_views(all.1@)),
{
    let parents = parse_parents(html);
    let mut numbers: Vec<usize> = Vec::new();
    let mut nodes: Vec<DomNode> = Vec::new();
    let mut i: usize = 0;
    assert(positions(numbers@) == listed(html@, 0).0);
    assert(node_views(nodes@) == listed(html@, 0).1);
    while i < parents.len()
        invariant
            i <= parents.len(),
            parents@ == html_parents(html@),
            positions(numbers@) == listed(html@, i as nat).0,
            node_views(nodes@) == listed(html@, i as nat).1,
            numbers@.len() == nodes@.len(),
            sizes_fit(node_views(nodes@)),
        decreases parents.len() - i,
    {
        if !parents[i] {
            let ghost before = node_views(nodes@);
            let ghost numbered = positions(numbers@);
            let mut part = parse_subtree(html, i);
            let mut part_numbers = parse_numbers(html, i);
            let ghost added = node_views(part@);
            let ghost more = positions(part_numbers@);
            numbers.append(&mut part_numbers);
            nodes.append(&mut part);
            assert(positions(numbers@) == numbered + more);
            assert(node_views(nodes@) == before + added);
            assert forall|j: int| 0 <= j < before.len() + added.len() implies 1 <= (#[trigger] (
            before + added)[j]).size && j + (before + added)[j].size <= before.len()
                + added.len() by {
                if j < before.len() {
                    assert((before + added)[j] == before[j]);
                } else {
                    assert((before + added)[j] == added[j - before.len()]);
                }
            }
        }
        i = i + 1;
    }
    (numbers, nodes)
}

fn find_place(order: &Vec<usize>, number: usize) -> (place: Option<usize>)
    ensures
        match place {
            Some(place) => place < order.len() && place_from(positions(order@), number as int, 0)
                == Some(place as int),
            None => place_from(positions(order@), number as int, 0) is None,
        },
{
    let mut i: usize = 0;
    while i < order.len()
        invariant
            i <= order.len(),
            place_from(positions(order@), number as int, 0) == place_from(
                positions(order@),
                number as int,
                i as int,
            ),
        decreases order.len() - i,
    {
        if order[i] == number {
            return Some(i);
        }
        i = i + 1;
    }
    None
}

fn find_places(order: &Vec<usize>, numbers: &Vec<usize>) -> (found: Vec<usize>)
    ensures
        positions(found@) == places(positions(order@), positions(numbers@)),
        positions_fit(positions(found@), order@.len() as int),
{
    let ghost all = positions(numbers@);
    let mut found: Vec<usize> = Vec::new();
    let mut i: usize = 0;
    assert(positions(found@) == places(positions(order@), all.take(0)));
    while i < numbers.len()
        invariant
            i <= numbers.len(),
            all == positions(numbers@),
            positions(found@) == places(positions(order@), all.take(i as int)),
            positions_fit(positions(found@), order@.len() as int),
        decreases numbers.len() - i,
    {
        assert(all.take(i + 1).drop_last() == all.take(i as int));
        assert(all.take(i + 1).last() == numbers@[i as int]);
        let ghost before = positions(found@);
        if let Some(place) = find_place(order, numbers[i]) {
            found.push(place);
            assert(positions(found@) == before.push(place as int));
        }
        i = i + 1;
    }
    assert(all.take(all.len() as int) == all);
    found
}

/// A parsed page.
pub struct Page {
    pub(crate) nodes: Vec<DomNode>,
    pub(crate) found: Vec<Vec<usize>>,
}

impl View for Page {
    type V = Dom;

    open(crate) spec fn view(&self) -> Dom {
        Dom { nodes: node_views(self.nodes@), found: position_lists(self.found@) }
    }
}

/// The first value of an attribute.
pub open spec fn attribute(attributes: Seq<(Seq<char>, Seq<char>)>, name: Seq<char>) -> Option<
    Seq<char>,
>
    decreases attributes.len(),
{
    if attributes.len() == 0 {
        None
    } else if attributes[0].0 == name {
        Some(attributes[0].1)
    } else {
        attribute(attributes.skip(1), name)
    }
}

/// The value of an attribute of the node at a position.
pub open spec fn attr_at(dom: Dom, at: int, name: Seq<char>) -> Option<Seq<char>> {
    attribute(dom.nodes[at].attributes, name)
}

/// The elements that a selector finds in the whole page.
pub open spec fn select(dom: Dom, selector: Selector) -> Seq<int> {
    dom.found[selector.place()]
}

/// Whether a selector finds the element at a position.
pub open spec fn is_found(dom: Dom, selector: Selector, at: int) -> bool {
    select(dom, selector).contains(at)
}

/// The elements from `from` up to `to` that a selector finds, in document
/// order.
pub open spec fn found_between(dom: Dom, selector: Selector, from: int, to: int) -> Seq<int>
    decreases to - from,
{
    if from >= to {
        seq![]
    } else if is_found(dom, selector, from) {
        seq![from] + found_between(dom, selector, from + 1, to)
    } else {
        found_between(dom, selector, from + 1, to)
    }
}

/// The descendants of an element that a selector finds, in document order.
pub open spec fn select_in(dom: Dom, at: int, selector: Selector) -> Seq<int> {
    found_between(dom, selector, at + 1, at + dom.nodes[at].size)
}

/// The texts of the nodes from `from` up to `to`.
pub open spec fn texts_between(dom: Dom, from: int, to: int) -> Seq<Seq<char>>
    decreases to - from,
{
    if from >= to {
        seq![]
    } else {
        match dom.nodes[from].text {
            Some(text) => seq![text] + texts_between(dom, from + 1, to),
            None => texts_between(dom, from + 1, to),
        }
    }
}

/// The texts inside the node at a position.
pub open spec fn texts_in(dom: Dom, at: int) -> Seq<Seq<char>> {
    texts_between(dom, at, at + dom.nodes[at].size)
}

/// The whole text inside the node at a position.
pub open spec fn text_in(dom: Dom, at: int) -> Seq<char> {
    joined(texts_in(dom, at), seq![])
}

/// The texts of a list, trimmed, without those that are then empty.
pub open spec fn trimmed_parts(parts: Seq<Seq<char>>) -> Seq<Seq<char>>
    decreases parts.len(),
{
    if parts.len() == 0 {
        seq![]
    } else if trimmed(parts[0]).len() == 0 {
        trimmed_parts(parts.skip(1))
    } else {
        seq![trimmed(parts[0])] + trimmed_parts(parts.skip(1))
    }
}

/// The texts inside a node, trimmed and put together with spaces.
pub open spec fn spaced_text(dom: Dom, at: int) -> Seq<char> {
    joined(trimmed_parts(texts_in(dom, at)), " "@)
}

/// The children of a node: the roots of the subtrees that fill the positions
/// from `from` up to `to`.
pub open spec fn siblings(dom: Dom, from: int, to: int) -> Seq<int>
    decreases to - from,
{
    if from >= to {
        seq![]
    } else if dom.nodes[from].size < 1 || from + dom.nodes[from].size >= to {
        seq![from]
    } else {
        seq![from] + siblings(dom, from + dom.nodes[from].size, to)
    }
}

/// The children of the node at a position.
pub open spec fn children(dom: Dom, at: int) -> Seq<int> {
    siblings(dom, at + 1, at + dom.nodes[at].size)
}

impl Page {
    #[verifier::type_invariant]
    pub open(crate) spec fn holds(self) -> bool {
        is_page(self@)
    }

    /// The page that an HTML text stands for.
    pub fn parse(html: &str) -> (page: Page)
        ensures
            page@ == page_of(html@),
            is_page(page@),
    {
        let all = list_nodes(html);
        let list = all_css();
        assert forall|i: int| 0 <= i < list.len() implies is_selector((#[trigger] list@[i])@) by {
            assert(list@[i]@ == Selector::at(i).css());
        }
        let matches = parse_matches(html, &list);
        let mut found: Vec<Vec<usize>> = Vec::new();
        let mut i: usize = 0;
        while i < matches.len()
            invariant
                i <= matches.len(),
                list.len() == SELECTOR_COUNT,
                matches.len() == SELECTOR_COUNT,
                forall|j: int|
                    0 <= j < list.len() ==> (#[trigger] list@[j])@ == Selector::at(j).css(),
                forall|j: int|
                    0 <= j < list.len() ==> positions(#[trigger] matches@[j]@) == html_matches(
                        html@,
                        list@[j]@,
                    ),
                positions(all.0@) == html_nodes(html@).0,
                all.0@.len() == all.1@.len(),
                found.len() == i,
                forall|j: int|
                    0 <= j < i ==> positions(#[trigger] found@[j]@) == page_of(html@).found[j],
                forall|j: int|
                    0 <= j < i ==> positions_fit(
                        positions(#[trigger] found@[j]@),
                        all.1@.len() as int,
                    ),
            decreases matches.len() - i,
        {
            assert(list@[i as int]@ == Selector::at(i as int).css());
            found.push(find_places(&all.0, &matches[i]));
            i = i + 1;
        }
        assert(position_lists(found@) == page_of(html@).found);
        let page = Page { nodes: all.1, found };
        page
    }

    /// The page with these nodes and found positions, where they fit.
    pub fn from_parts(nodes: Vec<DomNode>, found: Vec<Vec<usize>>) -> (page: Option<Page>)
        ensures
            ({
                let dom = Dom { nodes: node_views(nodes@), found: position_lists(found@) };
                match page {
                    Some(page) => is_page(dom) && page@ == dom,
                    None => !is_page(dom),
                }
            }),
    {
        let ghost dom = Dom { nodes: node_views(nodes@), found: position_lists(found@) };
        if found.len() != SELECTOR_COUNT {
            return None;
        }
        let mut i: usize = 0;
        while i < nodes.len()
            invariant
                i <= nodes.len(),
                dom.nodes == node_views(nodes@),
                forall|j: int|
                    0 <= j < i ==> 1 <= (#[trigger] dom.nodes[j]).size && j + dom.nodes[j].size
                        <= nodes.len(),
            decreases nodes.len() - i,
        {
            assert(dom.nodes[i as int].size == nodes@[i as int].size);
            if nodes[i].size < 1 || nodes[i].size > nodes.len() - i {
                return None;
            }
            i = i + 1;
        }
        let mut k: usize = 0;
        while k < found.len()
            invariant
                k <= found.len(),
                dom.nodes == node_views(nodes@),
                dom.found == position_lists(found@),
                dom.nodes.len() == nodes.len(),
                forall|j: int|
                    0 <= j < k ==> positions_fit(#[trigger] dom.found[j], nodes.len() as int),
            decreases found.len() - k,
        {
            let list = &found[k];
            assert(dom.found[k as int] == positions(list@));
            let mut m: usize = 0;
            while m < list.len()
                invariant
                    m <= list.len(),
                    k < found.len(),
                    dom.nodes == node_views(nodes@),
                    dom.found == position_lists(found@),
                    dom.nodes.len() == nodes.len(),
                    dom.found.len() == found.len(),
                    dom.found[k as int] == positions(list@),
                    forall|j: int|
                        0 <= j < m ==> 0 <= #[trigger] dom.found[k as int][j] < nodes.len(),
                decreases list.len() - m,
            {
                assert(dom.found[k as int][m as int] == list@[m as int]);
                if list[m] >= nodes.len() {
                    assert(!positions_fit(dom.found[k as int], dom.nodes.len() as int));
                    return None;
                }
                m = m + 1;
            }
            k = k + 1;
        }
        Some(Page { nodes, found })
    }

    /// The number of nodes.
    pub fn len(&self) -> (count: usize)
        ensures
            count == self@.nodes.len(),
            is_page(self@),
    {
        proof {
            use_type_invariant(self);
        }
        self.nodes.len()
    }

    /// The first position behind the subtree of a node.
    pub fn end(&self, at: usize) -> (end: usize)
        requires
            at < self@.nodes.len(),
        ensures
            end == at + self@.nodes[at as int].size,
            at < end <= self@.nodes.len(),
    {
        proof {
            use_type_invariant(self);
            assert(self@.nodes[at as int].size == self.nodes@[at as int].size);
        }
        let count: usize = self.nodes.len();
        assert(at + self@.nodes[at as int].size <= count);
        at + self.nodes[at].size
    }

    /// The value of an attribute.
    pub fn attr(&self, at: usize, name: &str) -> (value: Option<&str>)
        requires
            at < self@.nodes.len(),
        ensures
            crate::text::opt_str(value) == attr_at(self@, at as int, name@),
    {
        let attributes = &self.nodes[at].attributes;
        let ghost all = self@.nodes[at as int].attributes;
        assert(all == crate::fields::pair_texts(attributes@));
        let mut i: usize = 0;
        assert(all.skip(0) == all);
        while i < attributes.len()
            invariant
                i <= attributes.len(),
                all == crate::fields::pair_texts(attributes@),
                all == self@.nodes[at as int].attributes,
                attribute(all.skip(i as int), name@) == attribute(all, name@),
            decreases attributes.len() - i,
        {
            assert(all.skip(i as int).skip(1) == all.skip(i + 1));
            if same(attributes[i].0.as_str(), name) {
                return Some(attributes[i].1.as_str());
            }
            i = i + 1;
        }
        None
    }

    /// Whether the node is an element of this tag name.
    pub fn is_named(&self, at: usize, name: &str) -> (answer: bool)
        requires
            at < self@.nodes.len(),
        ensures
            answer == (self@.nodes[at as int].name == Some(name@)),
    {
        match &self.nodes[at].name {
            Some(own) => same(own.as_str(), name),
            None => false,
        }
    }

    /// Whether the node is an element.
    pub fn is_element(&self, at: usize) -> (answer: bool)
        requires
            at < self@.nodes.len(),
        ensures
            answer == (self@.nodes[at as int].name is Some),
    {
        self.nodes[at].name.is_some()
    }

    /// The characters of a text node.
    pub fn node_text(&self, at: usize) -> (text: Option<&str>)
        requires
            at < self@.nodes.len(),
        ensures
            crate::text::opt_str(text) == self@.nodes[at as int].text,
    {
        match &self.nodes[at].text {
            Some(text) => Some(text.as_str()),
            None => None,
        }
    }

    /// The elements that a selector finds in the whole page.
    pub fn select(&self, selector: Selector) -> (list: Vec<usize>)
        ensures
            positions(list@) == select(self@, selector),
            forall|i: int| 0 <= i < list.len() ==> (#[trigger] list@[i]) < self@.nodes.len(),
    {
        proof {
            use_type_invariant(self);
        }
        let place: usize = selector.index();
        let found = &self.found[place];
        assert(self@.found[place as int] == positions(found@));
        let mut list: Vec<usize> = Vec::new();
        let mut i: usize = 0;
        while i < found.len()
            invariant
                i <= found.len(),
                list@ == found@.take(i as int),
            decreases found.len() - i,
        {
            list.push(found[i]);
            i = i + 1;
            assert(list@ == found@.take(i as int));
        }
        assert(list@ == found@);
        assert forall|j: int| 0 <= j < list.len() implies (#[trigger] list@[j])
            < self@.nodes.len() by {
            assert(positions(found@)[j] == list@[j]);
        }
        list
    }

    /// Whether a selector finds the element at a position.
    pub fn is_found(&self, selector: Selector, at: usize) -> (answer: bool)
        ensures
            answer == is_found(self@, selector, at as int),
    {
        proof {
            use_type_invariant(self);
        }
        let place: usize = selector.index();
        let found = &self.found[place];
        let ghost all = self@.found[place as int];
        assert(all == positions(found@));
        let mut i: usize = 0;
        while i < found.len()
            invariant
                i <= found.len(),
                all == positions(found@),
                all == select(self@, selector),
                forall|j: int| 0 <= j < i ==> all[j] != at,
            decreases found.len() - i,
        {
            if found[i] == at {
                assert(all[i as int] == at);
                return true;
            }
            i = i + 1;
        }
        false
    }

    /// The descendants of an element that a selector finds.
    pub fn select_in(&self, at: usize, selector: Selector) -> (list: Vec<usize>)
        requires
            at < self@.nodes.len(),
        ensures
            positions(list@) == select_in(self@, at as int, selector),
            forall|i: int|
                0 <= i < list.len() ==> at < (#[trigger] list@[i]) < self@.nodes.len(),
    {
        let end: usize = self.end(at);
        let mut list: Vec<usize> = Vec::new();
        let mut i: usize = at + 1;
        assert(positions(list@) + found_between(self@, selector, i as int, end as int)
            == select_in(self@, at as int, selector));
        while i < end
            invariant
                at < i <= end <= self@.nodes.len(),
                positions(list@) + found_between(self@, selector, i as int, end as int)
                    == select_in(self@, at as int, selector),
                forall|j: int|
                    0 <= j < list.len() ==> at < (#[trigger] list@[j]) < self@.nodes.len(),
            decreases end - i,
        {
            let ghost done = positions(list@);
            if self.is_found(selector, i) {
                list.push(i);
                assert(positions(list@) == done.push(i as int));
                assert(done + (seq![i as int] + found_between(
                    self@,
                    selector,
                    i + 1,
                    end as int,
                )) == done.push(i as int) + found_between(self@, selector, i + 1, end as int));
            }
            i = i + 1;
        }
        assert(positions(list@) + Seq::<int>::empty() == positions(list@));
        list
    }

    /// The texts inside a node.
    pub fn texts_in(&self, at: usize) -> (parts: Vec<String>)
        requires
            at < self@.nodes.len(),
        ensures
            texts(parts@) == texts_in(self@, at as int),
    {
        let end: usize = self.end(at);
        let mut parts: Vec<String> = Vec::new();
        let mut i: usize = at;
        assert(texts(parts@) + texts_between(self@, i as int, end as int) == texts_in(
            self@,
            at as int,
        ));
        while i < end
            invariant
                at <= i <= end <= self@.nodes.len(),
                texts(parts@) + texts_between(self@, i as int, end as int) == texts_in(
                    self@,
                    at as int,
                ),
            decreases end - i,
        {
            let ghost done = texts(parts@);
            if let Some(text) = self.node_text(i) {
                parts.push(text.to_owned());
                assert(texts(parts@) == done.push(text@));
                assert(done + (seq![text@] + texts_between(self@, i + 1, end as int)) == done.push(
                    text@,
                ) + texts_between(self@, i + 1, end as int));
            }
            i = i + 1;
        }
        assert(texts(parts@) + Seq::<Seq<char>>::empty() == texts(parts@));
        parts
    }

    /// The whole text inside a node.
    pub fn text_in(&self, at: usize) -> (text: String)
        requires
            at < self@.nodes.len(),
        ensures
            text@ == text_in(self@, at as int),
    {
        let parts = self.texts_in(at);
        proof {
            reveal_strlit("");
            assert(""@ == Seq::<char>::empty());
        }
        join(&parts, "")
    }

    /// The texts inside a node, trimmed and put together with spaces.
    pub fn spaced_text(&self, at: usize) -> (text: String)
        requires
            at < self@.nodes.len(),
        ensures
            text@ == spaced_text(self@, at as int),
    {
        let parts = self.texts_in(at);
        let parts = trim_parts(&parts);
        join(&parts, " ")
    }

    /// The children of a node.
    pub fn children(&self, at: usize) -> (list: Vec<usize>)
        requires
            at < self@.nodes.len(),
        ensures
            positions(list@) == children(self@, at as int),
            forall|i: int|
                0 <= i < list.len() ==> at < (#[trigger] list@[i]) < at + self@.nodes[at as int].size
                    && list@[i] < self@.nodes.len(),
    {
        let end: usize = self.end(at);
        let mut list: Vec<usize> = Vec::new();
        let mut i: usize = at + 1;
        assert(positions(list@) + siblings(self@, i as int, end as int) == children(
            self@,
            at as int,
        ));
        while i < end
            invariant
                at < i,
                at < self@.nodes.len(),
                end <= self@.nodes.len(),
                end == at + self@.nodes[at as int].size,
                positions(list@) + siblings(self@, i as int, end as int) == children(
                    self@,
                    at as int,
                ),
                forall|j: int|
                    0 <= j < list.len() ==> at < (#[trigger] list@[j]) < end,
            decreases end - i,
        {
            let ghost done = positions(list@);
            let next: usize = self.end(i);
            list.push(i);
            assert(positions(list@) == done.push(i as int));
            if next >= end {
                assert(done + seq![i as int] == done.push(i as int));
                return list;
            }
            assert(done + (seq![i as int] + siblings(self@, next as int, end as int)) == done.push(
                i as int,
            ) + siblings(self@, next as int, end as int));
            i = next;
        }
        assert(positions(list@) + Seq::<int>::empty() == positions(list@));
        list
    }
}

/// Trims the texts of a list and leaves out those that are then empty.
pub fn trim_parts(parts: &Vec<String>) -> (kept: Vec<String>)
    ensures
        texts(kept@) == trimmed_parts(texts(parts@)),
{
    let mut kept: Vec<String> = Vec::new();
    let mut i: usize = 0;
    let ghost all = texts(parts@);
    assert(all.skip(0) == all);
    assert(texts(kept@) + trimmed_parts(all.skip(0)) == trimmed_parts(all));
    while i < parts.len()
        invariant
            i <= parts.len(),
            all == texts(parts@),
            texts(kept@) + trimmed_parts(all.skip(i as int)) == trimmed_parts(all),
        decreases parts.len() - i,
    {
        let ghost done = texts(kept@);
        let ghost rest = all.skip(i as int);
        assert(rest.skip(1) == all.skip(i + 1));
        assert(rest[0] == parts@[i as int]@);
        let part = trim(parts[i].as_str());
        if !part.as_str().is_empty() {
            kept.push(part);
            assert(texts(kept@) == done.push(part@));
            assert(done + (seq![part@] + trimmed_parts(rest.skip(1))) == done.push(part@)
                + trimmed_parts(rest.skip(1)));
        }
        i = i + 1;
    }
    assert(texts(kept@) + Seq::<Seq<char>>::empty() == texts(kept@));
    kept
}

} // verus!
