//! Laying out tables for reading: one line of column names, a rule, and one
//! line for each record, the columns padded to a common width.
//!
//! The library decides which value stands in which cell and how the lines
//! are laid out. Turning a value into the text of its cell, and printing the
//! lines, is the caller's part.

use vstd::prelude::*;
use vstd::utf8::encode_utf8;
use crate::columns::{column_names, ColumnView};
use crate::database::{Database, DatabaseView};
use crate::json::{Json, JsonView};
use crate::row::RowView;
use crate::table::{Table, TableView};

verus! {

/// The value that the cell of `row` under `column` shows: the payload's
/// member of that name, and null when it has none.
pub open spec fn cell_value(row: RowView, column: ColumnView) -> JsonView {
    match row.data.get(column.name) {
        Some(value) => value,
        None => JsonView::Null,
    }
}

/// The values that a table shows, record by record and column by column.
pub open spec fn cell_values(table: TableView) -> Seq<Seq<JsonView>> {
    Seq::new(
        table.rows.len(),
        |r: int| Seq::new(table.columns.len(), |c: int| cell_value(table.rows[r], table.columns[c])),
    )
}

/// The mathematical value of a grid of JSON values.
pub open spec fn grid_view(grid: Seq<Vec<Json>>) -> Seq<Seq<JsonView>> {
    Seq::new(grid.len(), |r: int| Seq::new(grid[r]@.len(), |c: int| grid[r]@[c]@))
}

/// The mathematical value of a list of texts.
pub open spec fn texts_view(texts: Seq<String>) -> Seq<Seq<char>> {
    Seq::new(texts.len(), |i: int| texts[i]@)
}

/// The mathematical value of a grid of texts.
pub open spec fn text_grid_view(grid: Seq<Vec<String>>) -> Seq<Seq<Seq<char>>> {
    Seq::new(grid.len(), |r: int| texts_view(grid[r]@))
}

/// The width of a text: the number of bytes of its UTF-8 form.
pub open spec fn text_width(text: Seq<char>) -> nat {
    encode_utf8(text).len()
}

/// The text of cell `c` of a record's line; empty when the line is shorter.
pub open spec fn cell_text(row: Seq<Seq<char>>, c: int) -> Seq<char> {
    if 0 <= c < row.len() {
        row[c]
    } else {
        Seq::empty()
    }
}

/// The width of column `c`: that of the widest among its name and its cells.
pub open spec fn column_width(name: Seq<char>, rows: Seq<Seq<Seq<char>>>, c: int) -> nat
    decreases rows.len(),
{
    if rows.len() == 0 {
        text_width(name)
    } else {
        let before = column_width(name, rows.drop_last(), c);
        let here = text_width(cell_text(rows.last(), c));
        if here > before {
            here
        } else {
            before
        }
    }
}

/// The widths of the columns called `names`.
pub open spec fn column_widths(names: Seq<Seq<char>>, rows: Seq<Seq<Seq<char>>>) -> Seq<nat> {
    Seq::new(names.len(), |c: int| column_width(names[c], rows, c))
}

/// `unit`, `count` times over.
pub open spec fn repeated(unit: Seq<char>, count: nat) -> Seq<char>
    decreases count,
{
    if count == 0 {
        Seq::empty()
    } else {
        repeated(unit, (count - 1) as nat) + unit
    }
}

/// `text` with spaces after it until it has `width` characters; a text that
/// has as many or more is left as it is.
pub open spec fn padded(text: Seq<char>, width: nat) -> Seq<char> {
    if text.len() < width {
        text + repeated(" "@, (width - text.len()) as nat)
    } else {
        text
    }
}

/// The parts one after another, with `separator` between each two.
pub open spec fn joined(parts: Seq<Seq<char>>, separator: Seq<char>) -> Seq<char>
    decreases parts.len(),
{
    if parts.len() == 0 {
        Seq::empty()
    } else if parts.len() == 1 {
        parts[0]
    } else {
        joined(parts.drop_last(), separator) + separator + parts.last()
    }
}

/// The line of a record: its cells, each padded to its column's width.
pub open spec fn row_line(row: Seq<Seq<char>>, widths: Seq<nat>) -> Seq<char> {
    joined(Seq::new(widths.len(), |c: int| padded(cell_text(row, c), widths[c])), " | "@)
}

/// The rule under the column names: dashes as wide as each column.
pub open spec fn rule_line(widths: Seq<nat>) -> Seq<char> {
    joined(Seq::new(widths.len(), |c: int| repeated("-"@, widths[c])), "-+-"@)
}

/// The title of a table: an empty line, then the table's name.
pub open spec fn title_lines(name: Seq<char>) -> Seq<Seq<char>> {
    seq![Seq::empty(), "Table: "@ + name]
}

/// The lines that show a table: its title, then either a note that it has
/// no columns, or the column names, the rule and one line for each record.
pub open spec fn table_lines(
    name: Seq<char>,
    names: Seq<Seq<char>>,
    rows: Seq<Seq<Seq<char>>>,
) -> Seq<Seq<char>> {
    if names.len() == 0 {
        title_lines(name).push("No columns defined for table '"@ + name + "'."@)
    } else {
        let widths = column_widths(names, rows);
        title_lines(name).push(row_line(names, widths)).push(rule_line(widths)) + Seq::new(
            rows.len(),
            |r: int| row_line(rows[r], widths),
        )
    }
}

/// The rows of texts given for table `t`; none when none were given.
pub open spec fn texts_of(texts: Seq<Seq<Seq<Seq<char>>>>, t: int) -> Seq<Seq<Seq<char>>> {
    if 0 <= t < texts.len() {
        texts[t]
    } else {
        Seq::empty()
    }
}

/// The lines that show the first `count` tables, one table after another.
pub open spec fn tables_lines(
    tables: Seq<TableView>,
    texts: Seq<Seq<Seq<Seq<char>>>>,
    count: nat,
) -> Seq<Seq<char>>
    decreases count,
{
    if count == 0 {
        Seq::empty()
    } else {
        let t = count - 1;
        tables_lines(tables, texts, t as nat) + table_lines(
            tables[t].name,
            column_names(tables[t].columns),
            texts_of(texts, t),
        )
    }
}

/// The lines that show a database: its name, then each of its tables.
pub open spec fn database_lines(
    database: DatabaseView,
    texts: Seq<Seq<Seq<Seq<char>>>>,
) -> Seq<Seq<char>> {
    seq!["Database: "@ + database.name] + tables_lines(
        database.tables,
        texts,
        database.tables.len(),
    )
}

/// The width of a text.
fn width_of(text: &str) -> (width: usize)
    ensures
        width as nat == text_width(text@),
{
    text.as_bytes().len()
}

/// `unit`, `count` times over.
fn repeat(unit: &str, count: usize) -> (text: String)
    ensures
        text@ == repeated(unit@, count as nat),
{
    let mut text = String::new();
    let mut i: usize = 0;
    while i < count
        invariant
            i <= count,
            text@ == repeated(unit@, i as nat),
        decreases count - i,
    {
        text.append(unit);
        i += 1;
    }
    text
}

/// `text` with spaces after it until it has `width` characters.
fn pad(text: &str, width: usize) -> (line: String)
    ensures
        line@ == padded(text@, width as nat),
{
    let count = text.unicode_len();
    let line = String::from_str(text);
    if count < width {
        let spaces = repeat(" ", width - count);
        line.concat(spaces.as_str())
    } else {
        line
    }
}

/// The parts one after another, with `separator` between each two.
fn join(parts: &Vec<String>, separator: &str) -> (line: String)
    ensures
        line@ == joined(texts_view(parts@), separator@),
{
    let ghost all = texts_view(parts@);
    let mut line = String::new();
    let mut i: usize = 0;
    while i < parts.len()
        invariant
            i <= parts.len(),
            all == texts_view(parts@),
            line@ == joined(all.take(i as int), separator@),
        decreases parts.len() - i,
    {
        proof {
            let next = all.take(i as int + 1);
            assert(next.drop_last() =~= all.take(i as int));
            assert(next.last() == all[i as int]);
            if i == 0 {
                assert(Seq::<char>::empty() + all[0] =~= all[0]);
            }
        }
        if i > 0 {
            line.append(separator);
        }
        line.append(parts[i].as_str());
        i += 1;
    }
    assert(all.take(i as int) =~= all);
    line
}

/// The widths of the columns called `names`, given the texts of the cells.
fn measure(names: &Vec<String>, rows: &Vec<Vec<String>>) -> (widths: Vec<usize>)
    ensures
        Seq::new(widths@.len(), |c: int| widths@[c] as nat) == column_widths(
            texts_view(names@),
            text_grid_view(rows@),
        ),
{
    let ghost all = text_grid_view(rows@);
    let mut widths: Vec<usize> = Vec::new();
    let mut c: usize = 0;
    while c < names.len()
        invariant
            c <= names.len(),
            widths.len() == c,
            all == text_grid_view(rows@),
            forall|k: int| 0 <= k < c ==> widths@[k] as nat == column_width(names@[k]@, all, k),
        decreases names.len() - c,
    {
        let mut width = width_of(names[c].as_str());
        assert(all.take(0).len() == 0);
        let mut r: usize = 0;
        while r < rows.len()
            invariant
                r <= rows.len(),
                c < names.len(),
                all == text_grid_view(rows@),
                width as nat == column_width(names@[c as int]@, all.take(r as int), c as int),
            decreases rows.len() - r,
        {
            proof {
                let next = all.take(r as int + 1);
                assert(next.drop_last() =~= all.take(r as int));
                assert(next.last() == all[r as int]);
            }
            if c < rows[r].len() {
                let here = width_of(rows[r][c].as_str());
                if here > width {
                    width = here;
                }
            } else {
                assert(encode_utf8(Seq::<char>::empty()).len() == 0);
            }
            r += 1;
        }
        assert(all.take(r as int) =~= all);
        widths.push(width);
        c += 1;
    }
    assert(Seq::new(widths@.len(), |c: int| widths@[c] as nat) =~= column_widths(
        texts_view(names@),
        all,
    ));
    widths
}

/// The line of a record: its cells, each padded to its column's width.
fn line_of(row: &Vec<String>, widths: &Vec<usize>) -> (line: String)
    ensures
        line@ == row_line(texts_view(row@), Seq::new(widths@.len(), |c: int| widths@[c] as nat)),
{
    let ghost wanted = Seq::new(widths@.len(), |c: int| widths@[c] as nat);
    let mut cells: Vec<String> = Vec::new();
    let mut c: usize = 0;
    while c < widths.len()
        invariant
            c <= widths.len(),
            cells.len() == c,
            wanted == Seq::new(widths@.len(), |c: int| widths@[c] as nat),
            forall|k: int|
                0 <= k < c ==> cells@[k]@ == padded(cell_text(texts_view(row@), k), wanted[k]),
        decreases widths.len() - c,
    {
        if c < row.len() {
            cells.push(pad(row[c].as_str(), widths[c]));
        } else {
            let cell = pad("", widths[c]);
            proof {
                reveal_strlit("");
                assert(""@ =~= Seq::<char>::empty());
            }
            cells.push(cell);
        }
        c += 1;
    }
    assert(texts_view(cells@) =~= Seq::new(
        wanted.len(),
        |c: int| padded(cell_text(texts_view(row@), c), wanted[c]),
    ));
    join(&cells, " | ")
}

/// The rule under the column names.
fn rule_of(widths: &Vec<usize>) -> (line: String)
    ensures
        line@ == rule_line(Seq::new(widths@.len(), |c: int| widths@[c] as nat)),
{
    let ghost wanted = Seq::new(widths@.len(), |c: int| widths@[c] as nat);
    let mut cells: Vec<String> = Vec::new();
    let mut c: usize = 0;
    while c < widths.len()
        invariant
            c <= widths.len(),
            cells.len() == c,
            wanted == Seq::new(widths@.len(), |c: int| widths@[c] as nat),
            forall|k: int| 0 <= k < c ==> cells@[k]@ == repeated("-"@, wanted[k]),
        decreases widths.len() - c,
    {
        cells.push(repeat("-", widths[c]));
        c += 1;
    }
    assert(texts_view(cells@) =~= Seq::new(wanted.len(), |c: int| repeated("-"@, wanted[c])));
    join(&cells, "-+-")
}

impl Table {
    /// The value that each cell of the table shows, record by record and
    /// column by column: the payload's member of the column's name, and null
    /// where the payload has none.
    pub fn cells(&self) -> (grid: Vec<Vec<Json>>)
        ensures
            grid_view(grid@) == cell_values(self@),
    {
        let mut grid: Vec<Vec<Json>> = Vec::new();
        let mut r: usize = 0;
        while r < self.rows.len()
            invariant
                r <= self.rows.len(),
                grid.len() == r,
                forall|k: int|
                    0 <= k < r ==> Seq::new(grid@[k]@.len(), |c: int| grid@[k]@[c]@)
                        == cell_values(self@)[k],
            decreases self.rows.len() - r,
        {
            let mut line: Vec<Json> = Vec::new();
            let mut c: usize = 0;
            while c < self.columns.0.len()
                invariant
                    r < self.rows.len(),
                    c <= self.columns.0.len(),
                    line.len() == c,
                    forall|k: int|
                        0 <= k < c ==> line@[k]@ == cell_value(self@.rows[r as int], self@.columns[k]),
                decreases self.columns.0.len() - c,
            {
                let value = match self.rows[r].data.get(self.columns.0[c].name.as_str()) {
                    Some(value) => value.clone(),
                    None => Json::Null,
                };
                line.push(value);
                c += 1;
            }
            assert(Seq::new(line@.len(), |c: int| line@[c]@) =~= cell_values(self@)[r as int]);
            grid.push(line);
            r += 1;
        }
        assert(grid_view(grid@) =~= cell_values(self@));
        grid
    }

    /// The lines that show the table, given the text of each cell: a title,
    /// then the column names, a rule and one line for each row of `texts`,
    /// or a note when the table has no columns. Each column is as wide as
    /// the widest of its name and its cells.
    pub fn display(&self, texts: &Vec<Vec<String>>) -> (lines: Vec<String>)
        ensures
            texts_view(lines@) == table_lines(
                self@.name,
                column_names(self@.columns),
                text_grid_view(texts@),
            ),
    {
        let ghost rows = text_grid_view(texts@);
        let mut lines: Vec<String> = Vec::new();
        lines.push(String::new());
        lines.push(String::from_str("Table: ").concat(self.name.as_str()));
        if self.columns.0.len() == 0 {
            let note = String::from_str("No columns defined for table '").concat(
                self.name.as_str(),
            ).concat("'.");
            lines.push(note);
            assert(texts_view(lines@) =~= table_lines(
                self@.name,
                column_names(self@.columns),
                rows,
            ));
            return lines;
        }
        let mut names: Vec<String> = Vec::new();
        let mut c: usize = 0;
        while c < self.columns.0.len()
            invariant
                c <= self.columns.0.len(),
                names.len() == c,
                forall|k: int| 0 <= k < c ==> names@[k]@ == self@.columns[k].name,
            decreases self.columns.0.len() - c,
        {
            names.push(self.columns.0[c].name.clone());
            c += 1;
        }
        assert(texts_view(names@) =~= column_names(self@.columns));
        let widths = measure(&names, texts);
        let ghost wanted = column_widths(column_names(self@.columns), rows);
        lines.push(line_of(&names, &widths));
        lines.push(rule_of(&widths));
        let ghost head = texts_view(lines@);
        assert(head =~= title_lines(self@.name).push(
            row_line(column_names(self@.columns), wanted),
        ).push(rule_line(wanted)));
        let mut r: usize = 0;
        while r < texts.len()
            invariant
                r <= texts.len(),
                lines.len() == 4 + r,
                rows == text_grid_view(texts@),
                wanted == Seq::new(widths@.len(), |c: int| widths@[c] as nat),
                texts_view(lines@).take(4) == head,
                forall|k: int| 0 <= k < r ==> lines@[4 + k]@ == row_line(rows[k], wanted),
            decreases texts.len() - r,
        {
            let line = line_of(&texts[r], &widths);
            let ghost before = texts_view(lines@);
            lines.push(line);
            assert(texts_view(lines@).take(4) =~= before.take(4));
            r += 1;
        }
        assert(texts_view(lines@) =~= head + Seq::new(
            rows.len(),
            |r: int| row_line(rows[r], wanted),
        )) by {
            assert(texts_view(lines@).take(4) == head);
            assert forall|k: int| 0 <= k < 4 implies texts_view(lines@)[k] == head[k] by {
                assert(texts_view(lines@).take(4)[k] == texts_view(lines@)[k]);
            }
        }
        lines
    }
}

/// The mathematical value of the texts given for several tables.
pub open spec fn text_grids_view(grids: Seq<Vec<Vec<String>>>) -> Seq<Seq<Seq<Seq<char>>>> {
    Seq::new(grids.len(), |t: int| text_grid_view(grids[t]@))
}

/// The line that says that no table is called `name`.
pub open spec fn missing_table_line(name: Seq<char>) -> Seq<char> {
    "Table '"@ + name + "' not found in the database."@
}

/// A database seen as lines of text.
pub struct Listing<'a> {
    pub database: &'a Database,
}

impl<'a> Listing<'a> {
    /// A listing of `database`.
    pub fn new(database: &'a Database) -> (listing: Listing<'a>)
        ensures
            listing.database == database,
    {
        Listing { database }
    }

    /// The value that each cell shows, table by table.
    pub fn cells(&self) -> (grids: Vec<Vec<Vec<Json>>>)
        ensures
            grids.len() == self.database@.tables.len(),
            forall|t: int|
                0 <= t < grids.len() ==> grid_view(#[trigger] grids@[t]@) == cell_values(
                    self.database@.tables[t],
                ),
    {
        let mut grids: Vec<Vec<Vec<Json>>> = Vec::new();
        let mut t: usize = 0;
        while t < self.database.tables.len()
            invariant
                t <= self.database.tables.len(),
                grids.len() == t,
                forall|k: int|
                    0 <= k < t ==> grid_view(#[trigger] grids@[k]@) == cell_values(
                        self.database@.tables[k],
                    ),
            decreases self.database.tables.len() - t,
        {
            grids.push(self.database.tables[t].cells());
            t += 1;
        }
        grids
    }

    /// The lines that show the whole database, given the text of each cell
    /// of each table: the database's name, then every table as
    /// [`Table::display`] shows it. A table for which no texts are given is
    /// shown without records.
    pub fn all_tables(&self, texts: &Vec<Vec<Vec<String>>>) -> (lines: Vec<String>)
        ensures
            texts_view(lines@) == database_lines(self.database@, text_grids_view(texts@)),
    {
        let ghost given = text_grids_view(texts@);
        let ghost tables = self.database@.tables;
        let mut lines: Vec<String> = Vec::new();
        lines.push(String::from_str("Database: ").concat(self.database.name.as_str()));
        let ghost head = texts_view(lines@);
        assert(head =~= seq!["Database: "@ + self.database@.name]);
        let none: Vec<Vec<String>> = Vec::new();
        assert(text_grid_view(none@) =~= Seq::empty());
        let mut t: usize = 0;
        while t < self.database.tables.len()
            invariant
                t <= self.database.tables.len(),
                given == text_grids_view(texts@),
                tables == self.database@.tables,
                text_grid_view(none@) == Seq::<Seq<Seq<char>>>::empty(),
                texts_view(lines@) == head + tables_lines(tables, given, t as nat),
            decreases self.database.tables.len() - t,
        {
            let mut shown = if t < texts.len() {
                self.database.tables[t].display(&texts[t])
            } else {
                self.database.tables[t].display(&none)
            };
            let ghost before = texts_view(lines@);
            let ghost added = texts_view(shown@);
            lines.append(&mut shown);
            assert(texts_view(lines@) =~= before + added);
            assert(head + tables_lines(tables, given, t as nat) + added =~= head + (tables_lines(
                tables,
                given,
                t as nat,
            ) + added));
            t += 1;
        }
        lines
    }

    /// The lines that show the table called `table_name`, given the text of
    /// each of its cells; one line that says so when there is no such table.
    pub fn single_table(&self, table_name: &str, texts: &Vec<Vec<String>>) -> (lines: Vec<String>)
        ensures
            texts_view(lines@) == match self.database@.table_at(table_name@) {
                Some(t) => table_lines(
                    self.database@.tables[t].name,
                    column_names(self.database@.tables[t].columns),
                    text_grid_view(texts@),
                ),
                None => seq![missing_table_line(table_name@)],
            },
    {
        match self.database.table_index(table_name) {
            Some(t) => self.database.tables[t].display(texts),
            None => {
                let mut lines: Vec<String> = Vec::new();
                lines.push(
                    String::from_str("Table '").concat(table_name).concat(
                        "' not found in the database.",
                    ),
                );
                assert(texts_view(lines@) =~= seq![missing_table_line(table_name@)]);
                lines
            },
        }
    }
}

} // verus!
