use vstd::prelude::*;
use crate::convert::{
    ConvState, EmtobeError, concat, ends_with_blank_line, initial_state, normalize, render, run,
    step,
};
use crate::events::{MdEvent, MdTag};
use crate::lemmas::lemma_concat_push;
use crate::table::{TableView, table_markup};

verus! {

/// The state after `events`, run from `s`, or the first error.
pub open spec fn run_from(s: ConvState, events: Seq<MdEvent>) -> Result<ConvState, EmtobeError>
    decreases events.len(),
{
    if events.len() == 0 {
        Ok(s)
    } else {
        match run_from(s, events.drop_last()) {
            Ok(t) => step(t, events.last()),
            Err(e) => Err(e),
        }
    }
}

pub proof fn lemma_run_from_initial(events: Seq<MdEvent>)
    ensures
        run(events) == run_from(initial_state(), events),
    decreases events.len(),
{
    if events.len() > 0 {
        lemma_run_from_initial(events.drop_last());
    }
}

/// Running two sequences one after the other.
pub proof fn lemma_run_from_append(s: ConvState, a: Seq<MdEvent>, b: Seq<MdEvent>)
    ensures
        run_from(s, a + b) == match run_from(s, a) {
            Ok(t) => run_from(t, b),
            Err(e) => Err(e),
        },
    decreases b.len(),
{
    if b.len() == 0 {
        assert(a + b =~= a);
    } else {
        lemma_run_from_append(s, a, b.drop_last());
        assert((a + b).drop_last() =~= a + b.drop_last());
        assert((a + b).last() == b.last());
    }
}

pub proof fn lemma_run_from_push(s: ConvState, events: Seq<MdEvent>, e: MdEvent)
    ensures
        run_from(s, events.push(e)) == match run_from(s, events) {
            Ok(t) => step(t, e),
            Err(x) => Err(x),
        },
{
    assert(events.push(e).drop_last() =~= events);
}

pub proof fn lemma_run_from_one(s: ConvState, e: MdEvent)
    ensures
        run_from(s, seq![e]) == step(s, e),
{
    lemma_run_from_push(s, Seq::empty(), e);
    assert(Seq::<MdEvent>::empty().push(e) =~= seq![e]);
}

/// The events of one cell: its text, or no text event for an empty cell.
pub open spec fn cell_events(c: Option<String>) -> Seq<MdEvent> {
    match c {
        Some(x) => seq![
            MdEvent::Start(MdTag::TableCell),
            MdEvent::Text(x),
            MdEvent::End(MdTag::TableCell),
        ],
        None => seq![MdEvent::Start(MdTag::TableCell), MdEvent::End(MdTag::TableCell)],
    }
}

/// The text of a cell, empty where it has none.
pub open spec fn cell_content(c: Option<String>) -> Seq<char> {
    match c {
        Some(x) => x@,
        None => Seq::empty(),
    }
}

/// The texts of the cells of one row.
pub open spec fn cell_texts(cells: Seq<Option<String>>) -> Seq<Seq<char>> {
    cells.map_values(|c: Option<String>| cell_content(c))
}

/// The events of the cells of one row.
pub open spec fn cells_events(cells: Seq<Option<String>>) -> Seq<MdEvent>
    decreases cells.len(),
{
    if cells.len() == 0 {
        Seq::empty()
    } else {
        cells_events(cells.drop_last()) + cell_events(cells.last())
    }
}

/// The events of one row: the first row of a table is its head.
pub open spec fn row_events(head: bool, cells: Seq<Option<String>>) -> Seq<MdEvent> {
    let t = if head {
        MdTag::TableHead
    } else {
        MdTag::TableRow
    };
    seq![MdEvent::Start(t)] + cells_events(cells) + seq![MdEvent::End(t)]
}

/// The events of the rows of a table, head first.
pub open spec fn rows_events(rows: Seq<Seq<Option<String>>>) -> Seq<MdEvent>
    decreases rows.len(),
{
    if rows.len() == 0 {
        Seq::empty()
    } else {
        rows_events(rows.drop_last()) + row_events(rows.len() == 1, rows.last())
    }
}

/// The events of a table with `n` columns and the given rows.
pub open spec fn table_events(n: usize, rows: Seq<Seq<Option<String>>>) -> Seq<MdEvent> {
    seq![MdEvent::Start(MdTag::Table(n))] + rows_events(rows) + seq![MdEvent::End(MdTag::Table(n))]
}

pub open spec fn in_table(frags: Seq<Seq<char>>, tb: TableView) -> ConvState {
    ConvState { frags, table: Some(tb) }
}

proof fn lemma_cells(frags: Seq<Seq<char>>, tb: TableView, cells: Seq<Option<String>>)
    requires
        tb.cell is None,
    ensures
        run_from(in_table(frags, tb), cells_events(cells)) == Ok::<ConvState, EmtobeError>(
            in_table(frags, TableView { row: tb.row + cell_texts(cells), ..tb }),
        ),
    decreases cells.len(),
{
    let s = in_table(frags, tb);
    if cells.len() == 0 {
        assert(cell_texts(cells) =~= Seq::empty());
        assert(tb.row + cell_texts(cells) =~= tb.row);
        assert(TableView { row: tb.row + cell_texts(cells), ..tb } == tb);
    } else {
        let init = cells.drop_last();
        let c = cells.last();
        lemma_cells(frags, tb, init);
        lemma_run_from_append(s, cells_events(init), cell_events(c));
        let mid = TableView { row: tb.row + cell_texts(init), ..tb };
        let s1 = in_table(frags, mid);
        let e1 = seq![MdEvent::Start(MdTag::TableCell)];
        lemma_run_from_one(s1, MdEvent::Start(MdTag::TableCell));
        match c {
            Some(x) => {
                let e2 = e1.push(MdEvent::Text(x));
                let e3 = e2.push(MdEvent::End(MdTag::TableCell));
                assert(cell_events(c) =~= e3);
                lemma_run_from_push(s1, e1, MdEvent::Text(x));
                lemma_run_from_push(s1, e2, MdEvent::End(MdTag::TableCell));
                assert(Seq::<char>::empty() + x@ =~= x@);
            },
            None => {
                let e2 = e1.push(MdEvent::End(MdTag::TableCell));
                assert(cell_events(c) =~= e2);
                lemma_run_from_push(s1, e1, MdEvent::End(MdTag::TableCell));
            },
        }
        assert(tb.row + cell_texts(cells) =~= mid.row.push(cell_content(c)));
    }
}

proof fn lemma_row(frags: Seq<Seq<char>>, tb: TableView, head: bool, cells: Seq<Option<String>>)
    requires
        tb.cell is None,
        tb.row.len() == 0,
        cells.len() == tb.columns,
    ensures
        run_from(in_table(frags, tb), row_events(head, cells)) == Ok::<ConvState, EmtobeError>(
            in_table(frags, TableView { rows: tb.rows.push(cell_texts(cells)), ..tb }),
        ),
{
    let s = in_table(frags, tb);
    let t = if head {
        MdTag::TableHead
    } else {
        MdTag::TableRow
    };
    let first = seq![MdEvent::Start(t)];
    assert(row_events(head, cells) =~= (first + cells_events(cells)).push(MdEvent::End(t)));
    lemma_run_from_push(s, first + cells_events(cells), MdEvent::End(t));
    lemma_run_from_append(s, first, cells_events(cells));
    lemma_run_from_one(s, MdEvent::Start(t));
    lemma_cells(frags, tb, cells);
    assert(tb.row + cell_texts(cells) =~= cell_texts(cells));
    let filled = TableView { row: cell_texts(cells), ..tb };
    assert(step(s, MdEvent::Start(t)) == Ok::<ConvState, EmtobeError>(s));
    assert(run_from(s, first) == Ok::<ConvState, EmtobeError>(s));
    assert(run_from(s, first + cells_events(cells)) == Ok::<ConvState, EmtobeError>(
        in_table(frags, filled),
    ));
    assert(filled.row.len() == filled.columns);
    assert(tb.row =~= Seq::<Seq<char>>::empty());
    assert(step(in_table(frags, filled), MdEvent::End(t)) == Ok::<ConvState, EmtobeError>(
        in_table(frags, TableView { rows: tb.rows.push(cell_texts(cells)), ..tb }),
    ));
}

proof fn lemma_rows(frags: Seq<Seq<char>>, n: nat, rows: Seq<Seq<Option<String>>>)
    requires
        forall|i: int| 0 <= i < rows.len() ==> (#[trigger] rows[i]).len() == n,
    ensures
        run_from(in_table(frags, TableView { columns: n, rows: Seq::empty(), row: Seq::empty(), cell: None }), rows_events(rows))
            == Ok::<ConvState, EmtobeError>(
            in_table(
                frags,
                TableView {
                    columns: n,
                    rows: rows.map_values(|r: Seq<Option<String>>| cell_texts(r)),
                    row: Seq::empty(),
                    cell: None,
                },
            ),
        ),
    decreases rows.len(),
{
    let tb = TableView { columns: n, rows: Seq::empty(), row: Seq::empty(), cell: None };
    if rows.len() == 0 {
        assert(rows.map_values(|r: Seq<Option<String>>| cell_texts(r)) =~= Seq::empty());
    } else {
        let init = rows.drop_last();
        assert forall|i: int| 0 <= i < init.len() implies (#[trigger] init[i]).len() == n by {
            assert(init[i] == rows[i]);
        }
        lemma_rows(frags, n, init);
        lemma_run_from_append(in_table(frags, tb), rows_events(init), row_events(rows.len() == 1, rows.last()));
        let mid = TableView { columns: n, rows: init.map_values(|r: Seq<Option<String>>| cell_texts(r)), row: Seq::empty(), cell: None };
        assert(rows[rows.len() - 1].len() == n);
        lemma_row(frags, mid, rows.len() == 1, rows.last());
        assert(rows.map_values(|r: Seq<Option<String>>| cell_texts(r)) =~= mid.rows.push(cell_texts(rows.last())));
    }
}

/// A table with `n` columns whose rows (the head first) each hold `n` cells,
/// each with one piece of text or none, renders as one `[table=n]` line, one
/// line of `n` `[cell]...[/cell]` groups per row in order (an empty cell as
/// `[cell][/cell]`), and one `[/table]` line.
pub proof fn lemma_table_rendering(n: usize, rows: Seq<Seq<Option<String>>>)
    requires
        forall|i: int| 0 <= i < rows.len() ==> (#[trigger] rows[i]).len() == n,
    ensures
        render(table_events(n, rows)) == Ok::<Seq<char>, EmtobeError>(
            table_markup(
                TableView {
                    columns: n as nat,
                    rows: rows.map_values(|r: Seq<Option<String>>| cell_texts(r)),
                    row: Seq::empty(),
                    cell: None,
                },
            ),
        ),
{
    let events = table_events(n, rows);
    let open = seq![MdEvent::Start(MdTag::Table(n))];
    assert(events =~= (open + rows_events(rows)).push(MdEvent::End(MdTag::Table(n))));
    lemma_run_from_initial(events);
    lemma_run_from_push(initial_state(), open + rows_events(rows), MdEvent::End(MdTag::Table(n)));
    lemma_run_from_append(initial_state(), open, rows_events(rows));
    lemma_run_from_one(initial_state(), MdEvent::Start(MdTag::Table(n)));
    let empty = TableView { columns: n as nat, rows: Seq::empty(), row: Seq::empty(), cell: None };
    assert(run_from(initial_state(), open) == Ok::<ConvState, EmtobeError>(in_table(Seq::empty(), empty)));
    lemma_rows(Seq::empty(), n as nat, rows);
    let full = TableView { columns: n as nat, rows: rows.map_values(|r: Seq<Option<String>>| cell_texts(r)), row: Seq::empty(), cell: None };
    let block = table_markup(full);
    let frags = seq![block];
    assert(run(events) == Ok::<ConvState, EmtobeError>(ConvState { frags: Seq::empty().push(block), table: None }));
    assert(Seq::<Seq<char>>::empty().push(block) =~= frags);
    reveal_strlit("[/table]\n");
    let tail = "[/table]\n"@;
    assert(block[block.len() - 2] == tail[tail.len() - 2]);
    assert(!ends_with_blank_line(block));
    assert(normalize(frags) == frags);
    assert(frags.drop_last() =~= Seq::<Seq<char>>::empty());
    lemma_concat_push(Seq::empty(), block);
    assert(concat(Seq::<Seq<char>>::empty()) =~= Seq::<char>::empty());
    assert(concat(frags) =~= block);
}

} // verus!
