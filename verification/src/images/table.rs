//! The rows of a mini league table.
use super::colours::GREEN_COLOUR;
use crate::text::{decimal, decimal_string};
use vstd::prelude::*;

verus! {

/// One manager's line in the table.
#[derive(Debug)]
pub struct TableRow {
    pub name: String,
    pub team_name: String,
    pub confirmed_points: u16,
    pub live_points: u16,
    pub caller: bool,
}

impl TableRow {
    pub fn new(
        name: String,
        team_name: String,
        confirmed_points: u16,
        live_points: u16,
        caller: bool,
    ) -> (r: Self)
        ensures
            r.name == name && r.team_name == team_name && r.confirmed_points == confirmed_points
                && r.live_points == live_points && r.caller == caller,
    {
        Self { name, team_name, confirmed_points, live_points, caller }
    }
}

/// A titled table, its rows in ranking order.
#[derive(Debug)]
pub struct TableData {
    pub title: String,
    pub rows: Vec<TableRow>,
}

impl TableData {
    pub fn new(title: String) -> (t: Self)
        ensures
            t.title == title,
            t.rows@.len() == 0,
    {
        Self { title, rows: Vec::new() }
    }

    pub fn add_row(
        &mut self,
        name: String,
        team_name: String,
        confirmed_points: u16,
        live_points: u16,
        caller: bool,
    )
        ensures
            final(self).title == old(self).title,
            final(self).rows@ == old(self).rows@.push(
                TableRow { name, team_name, confirmed_points, live_points, caller },
            ),
    {
        self.rows.push(TableRow::new(name, team_name, confirmed_points, live_points, caller));
    }
}

/// The layout of the table image.
#[derive(Debug, Clone, Copy)]
pub struct TableRenderer {
    pub width: u32,
    pub row_height: u32,
    pub header_height: u32,
    pub title_height: u32,
    pub padding: u32,
}

impl Default for TableRenderer {
    fn default() -> (r: Self)
        ensures
            r.width == 1000 && r.row_height == 80 && r.header_height == 60 && r.title_height == 80
                && r.padding == 20,
    {
        Self { width: 1000, row_height: 80, header_height: 60, title_height: 80, padding: 20 }
    }
}

/// Where and how one row of the table is drawn.
#[derive(Debug)]
pub struct TableRowLayout {
    /// The top of the row, where its border line runs.
    pub y: u32,
    /// The background colour.
    pub fill: String,
    /// The rank shown, counting from 1.
    pub rank: String,
    /// The baseline of the rank and of the points.
    pub text_y: u32,
    /// The middle of the row, where the team and manager names sit.
    pub names_y: u32,
    pub confirmed_points: String,
    pub live_points: String,
}

/// Where the parts of the table image go.
#[derive(Debug)]
pub struct TableLayout {
    pub width: u32,
    pub height: u32,
    pub title_x: u32,
    pub title_y: u32,
    /// The top of the column header.
    pub header_y: u32,
    /// The middle of the column header.
    pub header_center: u32,
    pub confirmed_x: u32,
    pub live_x: u32,
    pub rows: Vec<TableRowLayout>,
}

/// The top of row `i`.
pub open spec fn table_row_y(r: TableRenderer, i: int) -> int {
    r.title_height + r.header_height + i * r.row_height
}

/// The background of row `i`: green for the caller's row, otherwise white and light grey in turn.
pub open spec fn table_row_fill(i: int, caller: bool) -> Seq<char> {
    if caller {
        GREEN_COLOUR@
    } else if i % 2 == 0 {
        "#FFFFFF"@
    } else {
        "#F0F0F0"@
    }
}

/// The image of `n` rows fits in the `u32` coordinates it is drawn with.
pub open spec fn table_fits(r: TableRenderer, n: int) -> bool {
    &&& r.width >= 500
    &&& n <= u32::MAX
    &&& table_row_y(r, n) <= u32::MAX
    &&& n > 0 ==> table_row_y(r, n - 1) + 45 <= u32::MAX
    &&& n > 0 ==> table_row_y(r, n - 1) + r.row_height / 2 <= u32::MAX
}

/// Row `row` of the layout draws row `i` of the table.
pub open spec fn is_table_row_layout(r: TableRenderer, i: int, row: TableRowLayout, data_row: TableRow) -> bool {
    &&& row.y == table_row_y(r, i)
    &&& row.fill@ == table_row_fill(i, data_row.caller)
    &&& row.rank@ == decimal(i + 1)
    &&& row.text_y == row.y + 45
    &&& row.names_y == row.y + r.row_height / 2
    &&& row.confirmed_points@ == decimal(data_row.confirmed_points as int)
    &&& row.live_points@ == decimal(data_row.live_points as int)
}

proof fn lemma_row_y_monotone(r: TableRenderer, i: int, n: int)
    requires
        0 <= i < n,
    ensures
        table_row_y(r, i) <= table_row_y(r, n - 1) <= table_row_y(r, n),
{
    assert(i * r.row_height <= (n - 1) * r.row_height) by (nonlinear_arith)
        requires i <= n - 1, 0 <= r.row_height;
    assert((n - 1) * r.row_height <= n * r.row_height) by (nonlinear_arith)
        requires 0 <= r.row_height;
}

impl TableRenderer {
    /// Where everything of the table image goes: the title centred in its band, the column
    /// header below it, then one band per row, top to bottom in table order.
    pub fn layout(&self, data: &TableData) -> (l: TableLayout)
        requires
            table_fits(*self, data.rows@.len() as int),
        ensures
            l.width == self.width,
            l.height == table_row_y(*self, data.rows@.len() as int),
            l.title_x == self.width / 2,
            l.title_y == self.title_height / 2 + 10,
            l.header_y == self.title_height,
            l.header_center == self.title_height + self.header_height / 2,
            l.confirmed_x == self.width - 500,
            l.live_x == self.width - 200,
            l.rows@.len() == data.rows@.len(),
            forall|i: int| 0 <= i < l.rows@.len() ==> is_table_row_layout(*self, i, #[trigger] l.rows@[i], data.rows@[i]),
    {
        let n = data.rows.len();
        proof {
            if n > 0 {
                lemma_row_y_monotone(*self, 0, n as int);
            }
            assert(0 <= (n as int) * self.row_height) by (nonlinear_arith)
                requires 0 <= n, 0 <= self.row_height;
        }
        let height = self.title_height + self.header_height + (n as u32) * self.row_height;
        let mut rows: Vec<TableRowLayout> = Vec::new();
        let mut i: usize = 0;
        while i < n
            invariant
                n == data.rows@.len(),
                table_fits(*self, n as int),
                0 <= i <= n,
                rows@.len() == i,
                forall|j: int| 0 <= j < i ==> is_table_row_layout(*self, j, #[trigger] rows@[j], data.rows@[j]),
            decreases n - i,
        {
            proof {
                lemma_row_y_monotone(*self, i as int, n as int);
                assert(0 <= (i as int) * self.row_height) by (nonlinear_arith)
                    requires 0 <= i, 0 <= self.row_height;
            }
            let y = self.title_height + self.header_height + (i as u32) * self.row_height;
            let row = &data.rows[i];
            let fill = if row.caller {
                GREEN_COLOUR.to_owned()
            } else if i % 2 == 0 {
                "#FFFFFF".to_owned()
            } else {
                "#F0F0F0".to_owned()
            };
            rows.push(
                TableRowLayout {
                    y,
                    fill,
                    rank: decimal_string((i + 1) as i64),
                    text_y: y + 45,
                    names_y: y + self.row_height / 2,
                    confirmed_points: decimal_string(row.confirmed_points as i64),
                    live_points: decimal_string(row.live_points as i64),
                },
            );
            i = i + 1;
        }
        TableLayout {
            width: self.width,
            height,
            title_x: self.width / 2,
            title_y: self.title_height / 2 + 10,
            header_y: self.title_height,
            header_center: self.title_height + self.header_height / 2,
            confirmed_x: self.width - 500,
            live_x: self.width - 200,
            rows,
        }
    }
}

impl TableRenderer {
    /// Whether a table of `n` rows can be laid out: the image fits its `u32` coordinates.
    pub fn fits(&self, n: usize) -> (b: bool)
        ensures
            b == table_fits(*self, n as int),
    {
        let rows = n as u128;
        let last_row = if n == 0 { 0 } else { rows - 1 };
        proof {
            assert((n as int) * (self.row_height as int) <= 0xffff_ffff_ffff_ffff * 0xffff_ffff) by (nonlinear_arith)
                requires n <= 0xffff_ffff_ffff_ffff, self.row_height <= 0xffff_ffff;
            assert((last_row as int) * (self.row_height as int) <= (n as int) * (self.row_height as int))
                by (nonlinear_arith)
                requires last_row <= n, 0 <= self.row_height;
            assert(0 <= (last_row as int) * (self.row_height as int)) by (nonlinear_arith)
                requires 0 <= last_row, 0 <= self.row_height;
        }
        let top = self.title_height as u128 + self.header_height as u128;
        let bottom = top + rows * self.row_height as u128;
        let last_top = top + last_row * self.row_height as u128;
        let max = u32::MAX as u128;
        self.width >= 500 && rows <= max && bottom <= max && (n == 0 || (last_top + 45 <= max && last_top
            + (self.row_height / 2) as u128 <= max))
    }
}

} // verus!
