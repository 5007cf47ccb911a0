use vstd::prelude::*;

verus! {

/// The characters of a list of strings.
pub open spec fn texts(v: Seq<String>) -> Seq<Seq<char>> {
    v.map_values(|s: String| s@)
}

/// The characters of a list of rows of strings.
pub open spec fn row_texts(v: Seq<Vec<String>>) -> Seq<Seq<Seq<char>>> {
    v.map_values(|r: Vec<String>| texts(r@))
}

pub open spec fn digit_char(d: nat) -> char {
    if d == 0 {
        '0'
    } else if d == 1 {
        '1'
    } else if d == 2 {
        '2'
    } else if d == 3 {
        '3'
    } else if d == 4 {
        '4'
    } else if d == 5 {
        '5'
    } else if d == 6 {
        '6'
    } else if d == 7 {
        '7'
    } else if d == 8 {
        '8'
    } else {
        '9'
    }
}

/// `n` written in base ten, without leading zeros.
pub open spec fn decimal_digits(n: nat) -> Seq<char>
    decreases n,
{
    if n < 10 {
        seq![digit_char(n)]
    } else {
        decimal_digits(n / 10).push(digit_char(n % 10))
    }
}

/// A table under construction: its column count, the finished rows, the row
/// being filled and the text of the pending cell.
pub ghost struct TableView {
    pub columns: nat,
    pub rows: Seq<Seq<Seq<char>>>,
    pub row: Seq<Seq<char>>,
    pub cell: Option<Seq<char>>,
}

/// The text of a pending cell, empty where none was given.
pub open spec fn cell_text(c: Option<Seq<char>>) -> Seq<char> {
    match c {
        Some(x) => x,
        None => Seq::empty(),
    }
}

pub open spec fn empty_table(columns: nat) -> TableView {
    TableView { columns, rows: Seq::empty(), row: Seq::empty(), cell: None }
}

/// One `[cell]...[/cell]` group per cell, in order.
pub open spec fn cells_markup(row: Seq<Seq<char>>) -> Seq<char>
    decreases row.len(),
{
    if row.len() == 0 {
        Seq::empty()
    } else {
        cells_markup(row.drop_last()) + "[cell]"@ + row.last() + "[/cell]"@
    }
}

/// One line per row.
pub open spec fn rows_markup(rows: Seq<Seq<Seq<char>>>) -> Seq<char>
    decreases rows.len(),
{
    if rows.len() == 0 {
        Seq::empty()
    } else {
        rows_markup(rows.drop_last()) + cells_markup(rows.last()) + "\n"@
    }
}

/// The complete block for a table: a `[table=N]` line, the row lines, and a
/// `[/table]` line.
pub open spec fn table_markup(t: TableView) -> Seq<char> {
    "[table="@ + decimal_digits(t.columns) + "]\n"@ + rows_markup(t.rows) + "[/table]\n"@
}

fn digit_str(d: usize) -> (r: &'static str)
    requires
        d < 10,
    ensures
        r@ == seq![digit_char(d as nat)],
{
    proof {
        reveal_strlit("0");
        reveal_strlit("1");
        reveal_strlit("2");
        reveal_strlit("3");
        reveal_strlit("4");
        reveal_strlit("5");
        reveal_strlit("6");
        reveal_strlit("7");
        reveal_strlit("8");
        reveal_strlit("9");
    }
    let r = if d == 0 {
        "0"
    } else if d == 1 {
        "1"
    } else if d == 2 {
        "2"
    } else if d == 3 {
        "3"
    } else if d == 4 {
        "4"
    } else if d == 5 {
        "5"
    } else if d == 6 {
        "6"
    } else if d == 7 {
        "7"
    } else if d == 8 {
        "8"
    } else {
        "9"
    };
    assert(r@ =~= seq![digit_char(d as nat)]);
    r
}

/// Writes `n` in base ten.
pub fn decimal(n: usize) -> (r: String)
    ensures
        r@ == decimal_digits(n as nat),
    decreases n,
{
    if n < 10 {
        String::from_str(digit_str(n))
    } else {
        let mut s = decimal(n / 10);
        s.append(digit_str(n % 10));
        proof {
            assert(s@ =~= decimal_digits(n as nat));
        }
        s
    }
}

/// Collects the cells of one table, row by row, and renders them as one block.
#[derive(Debug)]
pub struct TableBuilder {
    column_count: usize,
    rows: Vec<Vec<String>>,
    row_builder: Vec<String>,
    cell_builder: Option<String>,
}

impl View for TableBuilder {
    type V = TableView;

    closed spec fn view(&self) -> TableView {
        TableView {
            columns: self.column_count as nat,
            rows: row_texts(self.rows@),
            row: texts(self.row_builder@),
            cell: match self.cell_builder {
                Some(c) => Some(c@),
                None => None,
            },
        }
    }
}

impl TableBuilder {
    pub fn new(column_count: usize) -> (r: Self)
        ensures
            r@ == empty_table(column_count as nat),
    {
        let r = TableBuilder {
            column_count,
            rows: Vec::new(),
            row_builder: Vec::new(),
            cell_builder: None,
        };
        assert(r@.rows =~= Seq::empty());
        assert(r@.row =~= Seq::empty());
        r
    }

    pub fn column_count(&self) -> (r: usize)
        ensures
            r as nat == self@.columns,
    {
        self.column_count
    }

    /// The number of cells finished in the current row.
    pub fn row_len(&self) -> (r: usize)
        ensures
            r as nat == self@.row.len(),
    {
        self.row_builder.len()
    }

    /// Adds `text` to the end of the pending cell's text.
    pub fn push_cell(&mut self, text: String)
        ensures
            final(self)@ == (TableView { cell: Some(cell_text(old(self)@.cell) + text@), ..old(self)@ }),
    {
        let pending = self.cell_builder.take();
        match pending {
            Some(mut c) => {
                c.append(text.as_str());
                self.cell_builder = Some(c);
            },
            None => {
                self.cell_builder = Some(text);
                assert(cell_text(old(self)@.cell) + text@ =~= text@);
            },
        }
    }

    /// Moves the pending text (or an empty string) into the current row.
    pub fn finish_cell(&mut self)
        ensures
            final(self)@ == (TableView {
                row: old(self)@.row.push(cell_text(old(self)@.cell)),
                cell: None,
                ..old(self)@
            }),
    {
        let cell = self.cell_builder.take();
        let text = match cell {
            Some(c) => c,
            None => String::new(),
        };
        self.row_builder.push(text);
        assert(texts(self.row_builder@) =~= texts(old(self).row_builder@).push(cell_text(old(self)@.cell)));
    }

    /// Appends the current row to the finished rows.
    pub fn build_row(&mut self)
        requires
            old(self)@.row.len() == old(self)@.columns,
        ensures
            final(self)@ == (TableView {
                rows: old(self)@.rows.push(old(self)@.row),
                row: Seq::empty(),
                ..old(self)@
            }),
    {
        let mut row: Vec<String> = Vec::new();
        std::mem::swap(&mut row, &mut self.row_builder);
        self.rows.push(row);
        assert(row_texts(self.rows@) =~= row_texts(old(self).rows@).push(old(self)@.row));
        assert(texts(self.row_builder@) =~= Seq::empty());
    }

    /// Renders the finished rows as one table block.
    pub fn build_table(self) -> (r: String)
        ensures
            r@ == table_markup(self@),
    {
        let mut out = String::from_str("[table=");
        let count = decimal(self.column_count);
        out.append(count.as_str());
        out.append("]\n");
        let ghost rows = self@.rows;
        let mut i: usize = 0;
        while i < self.rows.len()
            invariant
                i <= self.rows@.len(),
                rows == row_texts(self.rows@),
                out@ == "[table="@ + decimal_digits(self.column_count as nat) + "]\n"@
                    + rows_markup(rows.take(i as int)),
            decreases self.rows@.len() - i,
        {
            let row = &self.rows[i];
            let mut j: usize = 0;
            let ghost before = out@;
            while j < row.len()
                invariant
                    j <= row@.len(),
                    out@ == before + cells_markup(texts(row@).take(j as int)),
                decreases row@.len() - j,
            {
                out.append("[cell]");
                out.append(row[j].as_str());
                out.append("[/cell]");
                proof {
                    assert(texts(row@).take(j + 1).drop_last() =~= texts(row@).take(j as int));
                }
                j += 1;
            }
            out.append("\n");
            proof {
                assert(texts(row@).take(j as int) =~= texts(row@));
                assert(rows.take(i + 1).drop_last() =~= rows.take(i as int));
            }
            i += 1;
        }
        out.append("[/table]\n");
        proof {
            assert(rows.take(i as int) =~= rows);
        }
        out
    }
}

} // verus!
