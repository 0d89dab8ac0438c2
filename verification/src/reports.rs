//! Report pages: where they are, and the table that a page shows.

use crate::dom::{
    page_of, positions, select, select_in, spaced_text, Dom, Page, Selector,
};
use crate::hr_core::row_texts;
use crate::text::{starts_with, starts_with_text, texts};
use vstd::prelude::*;

verus! {

/// The table of a report page.
#[derive(Debug)]
pub struct ReportTable {
    pub headers: Vec<String>,
    pub rows: Vec<Vec<String>>,
}

/// The table of a report page, as mathematics.
pub struct TableView {
    pub headers: Seq<Seq<char>>,
    pub rows: Seq<Seq<Seq<char>>>,
}

impl View for ReportTable {
    type V = TableView;

    open spec fn view(&self) -> TableView {
        TableView { headers: texts(self.headers@), rows: row_texts(self.rows@) }
    }
}

/// Whether a byte stands for itself in an address: a letter, a digit or one of
/// `-_.~`.
pub open spec fn stands_for_itself(byte: u8) -> bool {
    ||| 0x30 <= byte <= 0x39
    ||| 0x41 <= byte <= 0x5A
    ||| 0x61 <= byte <= 0x7A
    ||| byte == 0x2D
    ||| byte == 0x2E
    ||| byte == 0x5F
    ||| byte == 0x7E
}

/// A hexadecimal digit.
pub open spec fn hex_digit(value: int) -> char {
    "0123456789ABCDEF"@[value]
}

/// Bytes as they are written in an address.
pub open spec fn percent_encoded(bytes: Seq<u8>) -> Seq<char>
    decreases bytes.len(),
{
    if bytes.len() == 0 {
        seq![]
    } else {
        let byte = bytes.last();
        percent_encoded(bytes.drop_last()) + if stands_for_itself(byte) {
            seq![byte as char]
        } else {
            seq!['%', hex_digit(byte as int / 16), hex_digit(byte as int % 16)]
        }
    }
}

/// A text as it is written in an address: every byte but letters, digits and
/// `-_.~` as `%XX`.
pub open spec fn url_encoded(text: Seq<char>) -> Seq<char> {
    percent_encoded(vstd::utf8::encode_utf8(text))
}

/// Calls `urlencoding::encode`, which writes every byte but letters, digits and
/// `-_.~` as `%XX`.
#[verifier::external_body]
fn encode_url(text: &str) -> (encoded: String)
    ensures
        encoded@ == url_encoded(text@),
{
    urlencoding::encode(text).into_owned()
}

/// The address of a named report.
pub fn report_url(base_url: &str, report_name: &str) -> (url: String)
    ensures
        url@ == base_url@ + "/Hilannetv2/Reports/repAttendanceviewerGeneric.aspx?reportName="@
            + url_encoded(report_name@),
{
    let mut url = base_url.to_owned();
    url.append("/Hilannetv2/Reports/repAttendanceviewerGeneric.aspx?reportName=");
    let name = encode_url(report_name);
    url.append(name.as_str());
    url
}

/// The whole address of a page that may be given relative to the service.
pub open spec fn whole_address(base_url: Seq<char>, url: Seq<char>) -> Seq<char> {
    if starts_with(url, "http://"@) || starts_with(url, "https://"@) {
        url
    } else {
        base_url + url
    }
}

/// The whole address of a page that may be given relative to the service.
pub fn table_url(base_url: &str, url: &str) -> (whole: String)
    ensures
        whole@ == whole_address(base_url@, url@),
{
    if starts_with_text(url, "http://") || starts_with_text(url, "https://") {
        url.to_owned()
    } else {
        let mut whole = base_url.to_owned();
        whole.append(url);
        whole
    }
}

/// The texts of some cells.
pub open spec fn cells_of(dom: Dom, cells: Seq<int>) -> Seq<Seq<char>> {
    cells.map_values(|cell: int| spaced_text(dom, cell))
}

/// The table that some rows make: the last row with header cells gives the
/// headers, and the others with cells are the rows.
pub open spec fn table_of_rows(dom: Dom, rows: Seq<int>) -> TableView
    decreases rows.len(),
{
    if rows.len() == 0 {
        TableView { headers: seq![], rows: seq![] }
    } else {
        let before = table_of_rows(dom, rows.drop_last());
        let headers = cells_of(dom, select_in(dom, rows.last(), Selector::HeaderCell));
        let cells = cells_of(dom, select_in(dom, rows.last(), Selector::TableCell));
        if headers.len() > 0 {
            TableView { headers, ..before }
        } else if cells.len() > 0 {
            TableView { rows: before.rows.push(cells), ..before }
        } else {
            before
        }
    }
}

/// The table of a table element.
pub open spec fn element_table(dom: Dom, table: int) -> TableView {
    table_of_rows(dom, select_in(dom, table, Selector::TableRow))
}

/// Whether a table holds nothing.
pub open spec fn is_empty_table(table: TableView) -> bool {
    table.headers.len() == 0 && table.rows.len() == 0
}

/// The number of rows of a table, its headers counted as one.
pub open spec fn table_size(table: TableView) -> nat {
    table.rows.len() + if table.headers.len() == 0 {
        0nat
    } else {
        1nat
    }
}

/// The first table that a selector finds, where it holds something.
pub open spec fn grid_table(dom: Dom, selector: Selector) -> Option<TableView> {
    let found = select(dom, selector);
    if found.len() > 0 && !is_empty_table(element_table(dom, found[0])) {
        Some(element_table(dom, found[0]))
    } else {
        None
    }
}

/// The largest table of a list, the first of those of the same size; none
/// where all are empty.
pub open spec fn largest_table(dom: Dom, tables: Seq<int>) -> Option<TableView>
    decreases tables.len(),
{
    if tables.len() == 0 {
        None
    } else {
        let before = largest_table(dom, tables.drop_last());
        let table = element_table(dom, tables.last());
        let size = match before {
            Some(best) => table_size(best),
            None => 0,
        };
        if table_size(table) > size {
            Some(table)
        } else {
            before
        }
    }
}

/// The table of a report page: that of a grid, else the largest.
pub open spec fn page_table(dom: Dom) -> Option<TableView> {
    crate::text::or_else(
        grid_table(dom, Selector::GridViewTable),
        crate::text::or_else(
            grid_table(dom, Selector::GridTable),
            crate::text::or_else(
                grid_table(dom, Selector::MasterTable),
                crate::text::or_else(
                    grid_table(dom, Selector::DataGridTable),
                    largest_table(dom, select(dom, Selector::Table)),
                ),
            ),
        ),
    )
}

fn cell_texts(page: &Page, cells: &Vec<usize>) -> (list: Vec<String>)
    requires
        forall|i: int| 0 <= i < cells.len() ==> (#[trigger] cells@[i]) < page@.nodes.len(),
    ensures
        texts(list@) == cells_of(page@, positions(cells@)),
        list.len() == cells.len(),
{
    let mut list: Vec<String> = Vec::new();
    let mut i: usize = 0;
    while i < cells.len()
        invariant
            i <= cells.len(),
            list.len() == i,
            forall|j: int| 0 <= j < cells.len() ==> (#[trigger] cells@[j]) < page@.nodes.len(),
            forall|j: int|
                0 <= j < i ==> (#[trigger] list@[j])@ == spaced_text(page@, cells@[j] as int),
        decreases cells.len() - i,
    {
        list.push(page.spaced_text(cells[i]));
        i = i + 1;
    }
    assert(texts(list@) == cells_of(page@, positions(cells@)));
    list
}

/// The table of a table element.
pub fn extract_table(page: &Page, table: usize) -> (result: ReportTable)
    requires
        table < page@.nodes.len(),
    ensures
        result@ == element_table(page@, table as int),
{
    let found = page.select_in(table, Selector::TableRow);
    let ghost all = positions(found@);
    let mut headers: Vec<String> = Vec::new();
    let mut rows: Vec<Vec<String>> = Vec::new();
    assert(texts(headers@) == Seq::<Seq<char>>::empty());
    assert(row_texts(rows@) == Seq::<Seq<Seq<char>>>::empty());
    let mut i: usize = 0;
    while i < found.len()
        invariant
            i <= found.len(),
            all == positions(found@),
            forall|j: int| 0 <= j < found.len() ==> (#[trigger] found@[j]) < page@.nodes.len(),
            table_of_rows(page@, all.take(i as int)) == (TableView {
                headers: texts(headers@),
                rows: row_texts(rows@),
            }),
        decreases found.len() - i,
    {
        assert(all.take(i + 1).drop_last() == all.take(i as int));
        assert(all.take(i + 1).last() == found@[i as int]);
        let header_cells = page.select_in(found[i], Selector::HeaderCell);
        let own_headers = cell_texts(page, &header_cells);
        assert(own_headers.len() == texts(own_headers@).len());
        if own_headers.len() > 0 {
            headers = own_headers;
        } else {
            let cells = page.select_in(found[i], Selector::TableCell);
            let row = cell_texts(page, &cells);
            assert(row.len() == texts(row@).len());
            if row.len() > 0 {
                let ghost before = row_texts(rows@);
                rows.push(row);
                assert(row_texts(rows@) == before.push(texts(row@)));
            }
        }
        i = i + 1;
    }
    assert(all.take(all.len() as int) == all);
    ReportTable { headers, rows }
}

fn extract_grid(page: &Page, selector: Selector) -> (table: Option<ReportTable>)
    ensures
        match table {
            Some(table) => grid_table(page@, selector) == Some(table@),
            None => grid_table(page@, selector) is None,
        },
{
    let found = page.select(selector);
    assert(found.len() == positions(found@).len());
    if found.len() == 0 {
        return None;
    }
    assert(positions(found@)[0] == found@[0]);
    let table = extract_table(page, found[0]);
    assert(table.headers.len() == table@.headers.len());
    assert(table.rows.len() == table@.rows.len());
    if table.headers.len() == 0 && table.rows.len() == 0 {
        None
    } else {
        Some(table)
    }
}

fn size_of_table(table: &ReportTable) -> (size: u64)
    requires
        table.rows.len() < usize::MAX,
    ensures
        size == table_size(table@),
{
    assert(table.headers.len() == table@.headers.len());
    assert(table.rows.len() == table@.rows.len());
    table.rows.len() as u64 + if table.headers.len() == 0 {
        0u64
    } else {
        1u64
    }
}

proof fn rows_are_bounded(dom: Dom, rows: Seq<int>)
    ensures
        table_of_rows(dom, rows).rows.len() <= rows.len(),
    decreases rows.len(),
{
    if rows.len() > 0 {
        rows_are_bounded(dom, rows.drop_last());
    }
}

proof fn found_are_bounded(dom: Dom, selector: Selector, from: int, to: int)
    ensures
        from <= to ==> crate::dom::found_between(dom, selector, from, to).len() <= to - from,
        from > to ==> crate::dom::found_between(dom, selector, from, to).len() == 0,
    decreases to - from,
{
    if from < to {
        found_are_bounded(dom, selector, from + 1, to);
    }
}

/// The table of a parsed report page: that of a grid, else the largest.
pub fn table_of_page(page: &Page) -> (table: Option<ReportTable>)
    ensures
        match table {
            Some(table) => page_table(page@) == Some(table@),
            None => page_table(page@) is None,
        },
{
    if let Some(table) = extract_grid(page, Selector::GridViewTable) {
        return Some(table);
    }
    if let Some(table) = extract_grid(page, Selector::GridTable) {
        return Some(table);
    }
    if let Some(table) = extract_grid(page, Selector::MasterTable) {
        return Some(table);
    }
    if let Some(table) = extract_grid(page, Selector::DataGridTable) {
        return Some(table);
    }
    let tables = page.select(Selector::Table);
    let ghost all = positions(tables@);
    let count: usize = page.len();
    let mut best: Option<ReportTable> = None;
    let mut best_size: u64 = 0;
    let mut i: usize = 0;
    while i < tables.len()
        invariant
            i <= tables.len(),
            all == positions(tables@),
            count == page@.nodes.len(),
            crate::dom::is_page(page@),
            forall|j: int| 0 <= j < tables.len() ==> (#[trigger] tables@[j]) < page@.nodes.len(),
            match best {
                Some(table) => largest_table(page@, all.take(i as int)) == Some(table@)
                    && best_size == table_size(table@),
                None => largest_table(page@, all.take(i as int)) is None && best_size == 0,
            },
        decreases tables.len() - i,
    {
        assert(all.take(i + 1).drop_last() == all.take(i as int));
        assert(all.take(i + 1).last() == tables@[i as int]);
        let at: usize = tables[i];
        let table = extract_table(page, at);
        proof {
            let rows = select_in(page@, at as int, Selector::TableRow);
            rows_are_bounded(page@, rows);
            found_are_bounded(
                page@,
                Selector::TableRow,
                at + 1,
                at + page@.nodes[at as int].size,
            );
            assert(page@.nodes[at as int].size <= count);
            assert(table@.rows.len() == table.rows.len());
        }
        let size: u64 = size_of_table(&table);
        if size > best_size {
            best_size = size;
            best = Some(table);
        }
        i = i + 1;
    }
    assert(all.take(all.len() as int) == all);
    best
}

/// The table of a report page.
pub fn parse_report_html(html: &str) -> (table: Option<ReportTable>)
    ensures
        match table {
            Some(table) => page_table(page_of(html@)) == Some(table@),
            None => page_table(page_of(html@)) is None,
        },
{
    let page = Page::parse(html);
    table_of_page(&page)
}

} // verus!
