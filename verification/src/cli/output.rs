//! Rendering items as tables and text.

use vstd::prelude::*;
use crate::text::views;

verus! {

/// Output format
#[derive(Clone, Copy, Debug, PartialEq, Eq, Structural)]
pub enum OutputFormat {
    Table,
    Json,
}

/// Trait for items that can be displayed as a table row
pub trait TableRow {
    /// The column titles.
    spec fn header_cells(&self) -> Seq<Seq<char>>;

    /// The cells of the item's row.
    spec fn row_cells(&self) -> Seq<Seq<char>>;

    /// The column titles.
    fn headers(&self) -> (r: Vec<String>)
        ensures
            views(r@) == self.header_cells(),
    ;

    /// The cells of the item's row.
    fn row(&self) -> (r: Vec<String>)
        ensures
            views(r@) == self.row_cells(),
    ;
}

/// The text of a table with the given header and rows, as `comfy_table`
/// lays it out with its default style (ASCII borders, columns as wide as
/// their contents).
pub uninterp spec fn table_text(header: Seq<Seq<char>>, rows: Seq<Seq<Seq<char>>>) -> Seq<char>;

/// The contents of a list of rows.
pub open spec fn rows_view(rows: Seq<Vec<String>>) -> Seq<Seq<Seq<char>>> {
    rows.map_values(|r: Vec<String>| views(r@))
}

/// Lays out a table.
///
/// Trusted: builds a `comfy_table::Table` with `Table::new`, `set_header`
/// and `add_rows`, and renders it with `to_string`. With unstyled cells and
/// the default (disabled) content arrangement the text depends only on the
/// header and rows; the contract names that text and states nothing more.
#[verifier::external_body]
fn render_table(header: &Vec<String>, rows: &Vec<Vec<String>>) -> (r: String)
    ensures
        r@ == table_text(views(header@), rows_view(rows@)),
{
    let mut table = comfy_table::Table::new();
    table.set_header(header.clone());
    table.add_rows(rows.clone());
    table.to_string()
}

/// The text shown for a list of items: a note when there are none,
/// otherwise a table titled by the first item's headers with one row per
/// item.
pub open spec fn items_text<T: TableRow>(items: Seq<T>) -> Seq<char> {
    if items.len() == 0 {
        "No items found."@
    } else {
        table_text(items[0].header_cells(), items.map_values(|x: T| x.row_cells()))
    }
}

/// The table (or note) that shows the items.
pub fn items_table<T: TableRow>(items: &Vec<T>) -> (r: String)
    ensures
        r@ == items_text(items@),
{
    if items.len() == 0 {
        return String::from_str("No items found.");
    }
    let header = items[0].headers();
    let mut rows: Vec<Vec<String>> = Vec::new();
    let n = items.len();
    for i in 0..n
        invariant
            n == items@.len(),
            rows_view(rows@) == items@.take(i as int).map_values(|x: T| x.row_cells()),
    {
        let row = items[i].row();
        let ghost before = rows@;
        rows.push(row);
        assert(rows_view(rows@) =~= rows_view(before).push(views(row@)));
        assert(items@.take(i + 1) =~= items@.take(i as int).push(items@[i as int]));
    }
    assert(items@.take(n as int) =~= items@);
    render_table(&header, &rows)
}

/// The lines that show one item: `  header: cell` for each column (as far
/// as both headers and cells go).
pub open spec fn item_text_lines(headers: Seq<Seq<char>>, cells: Seq<Seq<char>>) -> Seq<Seq<char>> {
    Seq::new(
        if headers.len() < cells.len() {
            headers.len()
        } else {
            cells.len()
        },
        |i: int| "  "@ + headers[i] + ": "@ + cells[i],
    )
}

/// The lines that show one item.
pub fn item_lines<T: TableRow>(item: &T) -> (r: Vec<String>)
    ensures
        views(r@) == item_text_lines(item.header_cells(), item.row_cells()),
{
    let headers = item.headers();
    let row = item.row();
    let n = if headers.len() < row.len() {
        headers.len()
    } else {
        row.len()
    };
    let mut lines: Vec<String> = Vec::new();
    for i in 0..n
        invariant
            n <= headers@.len(),
            n <= row@.len(),
            n == (if headers@.len() < row@.len() { headers@.len() } else { row@.len() }),
            views(headers@) == item.header_cells(),
            views(row@) == item.row_cells(),
            views(lines@) == item_text_lines(item.header_cells(), item.row_cells()).take(i as int),
    {
        let mut line = crate::text::concat3("  ", headers[i].as_str(), ": ");
        line.append(row[i].as_str());
        let ghost before = lines@;
        lines.push(line);
        assert(views(lines@) =~= views(before).push(line@));
        assert(item_text_lines(item.header_cells(), item.row_cells()).take(i + 1) =~= item_text_lines(
            item.header_cells(),
            item.row_cells(),
        ).take(i as int).push(line@));
    }
    assert(item_text_lines(item.header_cells(), item.row_cells()).take(n as int) =~= item_text_lines(
        item.header_cells(),
        item.row_cells(),
    ));
    lines
}

} // verus!
