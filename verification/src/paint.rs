//! What the editor asks of a terminal: the commands of one frame.

use vstd::prelude::*;
use crate::display::Region;
use crate::display::Theme;
use crate::text::push_char;

verus! {

/// A colour, by its red, green and blue parts.
#[derive(Clone, Copy, Debug, PartialEq, Eq, Structural)]
pub struct Rgb {
    pub r: u8,
    pub g: u8,
    pub b: u8,
}

/// One command to the terminal.
#[derive(Debug, PartialEq, Eq)]
pub enum Paint {
    /// Clear the whole screen.
    Clear,
    /// Move the terminal's cursor to a column and a row, both from zero.
    MoveTo(u16, u16),
    /// Use this background colour for the text that follows.
    Background(Rgb),
    /// Use this foreground colour for the text that follows.
    Foreground(Rgb),
    /// Write this text at the terminal's cursor.
    Text(String),
}

/// A command to the terminal as mathematics: its text is a sequence of
/// characters.
pub enum PaintView {
    Clear,
    MoveTo(u16, u16),
    Background(Rgb),
    Foreground(Rgb),
    Text(Seq<char>),
}

impl DeepView for Paint {
    type V = PaintView;

    open spec fn deep_view(&self) -> PaintView {
        match self {
            Paint::Clear => PaintView::Clear,
            Paint::MoveTo(col, row) => PaintView::MoveTo(*col, *row),
            Paint::Background(rgb) => PaintView::Background(*rgb),
            Paint::Foreground(rgb) => PaintView::Foreground(*rgb),
            Paint::Text(text) => PaintView::Text(text@),
        }
    }
}

/// One cell of the screen: a character, and the part of the screen that it
/// belongs to, which decides its colours.
#[derive(Clone, Copy, Debug, PartialEq, Eq, Structural)]
pub struct Cell {
    pub ch: char,
    pub region: Region,
}

/// The cell that shows `ch` in `region`.
pub open spec fn cell(ch: char, region: Region) -> Cell {
    Cell { ch, region }
}

/// The cells that show `text`, all in `region`.
pub open spec fn plain(text: Seq<char>, region: Region) -> Seq<Cell> {
    Seq::new(text.len(), |i: int| cell(text[i], region))
}

/// The characters that `cells` show, from left to right.
pub open spec fn text_of(cells: Seq<Cell>) -> Seq<char> {
    Seq::new(cells.len(), |i: int| cells[i].ch)
}

/// Showing one more character adds one cell.
pub proof fn plain_push(text: Seq<char>, ch: char, region: Region)
    ensures
        plain(text.push(ch), region) == plain(text, region).push(Cell { ch, region }),
{
    assert(plain(text.push(ch), region) =~= plain(text, region).push(Cell { ch, region }));
}

/// A stretch of neighbouring cells of one region, as the text in them.
pub struct Run {
    pub region: Region,
    pub text: Seq<char>,
}

/// The cells of a row gathered into runs, from left to right: a cell of the
/// same region as the cell before it lengthens that cell's run, and any other
/// cell begins a new one.
pub open spec fn runs(cells: Seq<Cell>) -> Seq<Run>
    decreases cells.len(),
{
    if cells.len() == 0 {
        Seq::empty()
    } else {
        let before = runs(cells.drop_last());
        let last = cells.last();
        if before.len() > 0 && before.last().region == last.region {
            before.drop_last().push(
                Run { region: last.region, text: before.last().text.push(last.ch) },
            )
        } else {
            before.push(Run { region: last.region, text: seq![last.ch] })
        }
    }
}

/// The cells that a sequence of runs shows, from left to right.
pub open spec fn shown(runs: Seq<Run>) -> Seq<Cell>
    decreases runs.len(),
{
    if runs.len() == 0 {
        Seq::empty()
    } else {
        shown(runs.drop_last()) + plain(runs.last().text, runs.last().region)
    }
}

/// The commands that paint one run: its background, its foreground, its
/// text.
pub open spec fn run_paint(theme: Theme, run: Run) -> Seq<PaintView> {
    seq![
        PaintView::Background(theme.color(run.region).background),
        PaintView::Foreground(theme.color(run.region).foreground),
        PaintView::Text(run.text),
    ]
}

/// The commands that paint a sequence of runs, one after the other.
pub open spec fn runs_paint(theme: Theme, runs: Seq<Run>) -> Seq<PaintView>
    decreases runs.len(),
{
    if runs.len() == 0 {
        Seq::empty()
    } else {
        runs_paint(theme, runs.drop_last()) + run_paint(theme, runs.last())
    }
}

/// The commands that paint the cells of row `row`: a move to the start of
/// the row, then the row's runs. Colours change only where a run begins.
pub open spec fn row_paint(theme: Theme, row: u16, cells: Seq<Cell>) -> Seq<PaintView> {
    seq![PaintView::MoveTo(0, row)] + runs_paint(theme, runs(cells))
}

/// The runs of a row show the row's cells and nothing else, and the last
/// run is of the last cell's region.
pub proof fn runs_show_cells(cells: Seq<Cell>)
    ensures
        shown(runs(cells)) == cells,
        cells.len() > 0 ==> runs(cells).len() > 0 && runs(cells).last().region
            == cells.last().region,
    decreases cells.len(),
{
    if cells.len() > 0 {
        let before = runs(cells.drop_last());
        let last = cells.last();
        runs_show_cells(cells.drop_last());
        assert(cells.drop_last().push(last) =~= cells);
        if before.len() > 0 && before.last().region == last.region {
            let grown = Run { region: last.region, text: before.last().text.push(last.ch) };
            let all = before.drop_last().push(grown);
            assert(runs(cells) == all);
            assert(all.drop_last() =~= before.drop_last());
            plain_push(before.last().text, last.ch, last.region);
            assert(shown(all) == shown(before.drop_last()) + plain(grown.text, grown.region));
            assert(shown(before) == shown(before.drop_last()) + plain(
                before.last().text,
                before.last().region,
            ));
            assert(shown(all) =~= shown(before).push(last));
        } else {
            let fresh = Run { region: last.region, text: seq![last.ch] };
            let all = before.push(fresh);
            assert(runs(cells) == all);
            assert(all.drop_last() =~= before);
            assert(plain(fresh.text, fresh.region) =~= seq![last]);
            assert(shown(all) == shown(before) + plain(fresh.text, fresh.region));
            assert(shown(all) =~= shown(before).push(last));
        }
    }
}

/// Whether no run is empty and no run has the region of the run before it.
pub open spec fn maximal(runs: Seq<Run>) -> bool {
    &&& forall|k: int| 0 <= k < runs.len() ==> (#[trigger] runs[k]).text.len() > 0
    &&& forall|j: int, k: int|
        0 <= j && k == j + 1 && k < runs.len() ==> (#[trigger] runs[j]).region != (
        #[trigger] runs[k]).region
}

/// Colours change only where the region changes: the runs of a row are not
/// empty, and neighbouring runs differ in region.
pub proof fn runs_are_maximal(cells: Seq<Cell>)
    ensures
        maximal(runs(cells)),
    decreases cells.len(),
{
    if cells.len() > 0 {
        let before = runs(cells.drop_last());
        let last = cells.last();
        runs_are_maximal(cells.drop_last());
        if before.len() > 0 && before.last().region == last.region {
            let grown = Run { region: last.region, text: before.last().text.push(last.ch) };
            let all = before.drop_last().push(grown);
            assert(runs(cells) == all);
            assert forall|k: int| 0 <= k < all.len() implies (#[trigger] all[k]).text.len() > 0 by {
                if k < all.len() - 1 {
                    assert(all[k] == before[k]);
                }
            }
            assert forall|j: int, k: int| 0 <= j && k == j + 1 && k < all.len() implies (
            #[trigger] all[j]).region != (#[trigger] all[k]).region by {
                assert(all[j] == before[j]);
                assert(all[k].region == before[k].region);
            }
        } else {
            let fresh = Run { region: last.region, text: seq![last.ch] };
            let all = before.push(fresh);
            assert(runs(cells) == all);
            assert forall|k: int| 0 <= k < all.len() implies (#[trigger] all[k]).text.len() > 0 by {
                if k < all.len() - 1 {
                    assert(all[k] == before[k]);
                }
            }
            assert forall|j: int, k: int| 0 <= j && k == j + 1 && k < all.len() implies (
            #[trigger] all[j]).region != (#[trigger] all[k]).region by {
                assert(all[j] == before[j]);
                if k < all.len() - 1 {
                    assert(all[k] == before[k]);
                }
            }
        }
    }
}

/// Appends one command to `sink`.
pub fn emit(sink: &mut Vec<Paint>, paint: Paint)
    ensures
        final(sink).deep_view() == old(sink).deep_view().push(paint.deep_view()),
{
    sink.push(paint);
    assert(sink.deep_view() =~= old(sink).deep_view().push(paint.deep_view()));
}

/// Appends to `sink` the commands that paint `cells` as row `row` of the
/// screen, in the colours of `theme`.
pub fn paint_row(theme: &Theme, row: u16, cells: &Vec<Cell>, sink: &mut Vec<Paint>)
    ensures
        final(sink).deep_view() == old(sink).deep_view() + row_paint(*theme, row, cells@),
{
    let ghost base = sink.deep_view() + seq![PaintView::MoveTo(0, row)];
    emit(sink, Paint::MoveTo(0, row));
    if cells.len() == 0 {
        assert(base + runs_paint(*theme, runs(cells@)) =~= base);
        return ;
    }
    let mut region = cells[0].region;
    let mut text = String::new();
    push_char(&mut text, cells[0].ch);
    let mut i: usize = 1;
    proof {
        reveal_with_fuel(runs, 2);
        assert(cells@.take(1).drop_last() =~= Seq::<Cell>::empty());
        assert(text@ =~= seq![cells@[0].ch]);
        assert(runs(cells@.take(1)) =~= seq![Run { region, text: text@ }]);
        assert(runs(cells@.take(1)).drop_last() =~= Seq::<Run>::empty());
    }
    while i < cells.len()
        invariant
            1 <= i <= cells.len(),
            runs(cells@.take(i as int)).len() > 0,
            runs(cells@.take(i as int)).last() == (Run { region, text: text@ }),
            sink.deep_view() == base + runs_paint(*theme, runs(cells@.take(i as int)).drop_last()),
        decreases cells.len() - i,
    {
        let cell = cells[i];
        let ghost before = runs(cells@.take(i as int));
        proof {
            assert(cells@.take(i + 1).drop_last() =~= cells@.take(i as int));
            assert(cells@.take(i + 1).last() == cell);
        }
        if cell.region == region {
            push_char(&mut text, cell.ch);
            proof {
                let grown = Run { region, text: text@ };
                assert(before.drop_last().push(grown).drop_last() =~= before.drop_last());
            }
        } else {
            let ghost painted = sink.deep_view();
            theme.color(region).set(sink);
            emit(sink, Paint::Text(text));
            proof {
                assert(sink.deep_view() =~= painted + run_paint(*theme, before.last()));
                assert(sink.deep_view() =~= base + runs_paint(*theme, before));
            }
            region = cell.region;
            text = String::new();
            push_char(&mut text, cell.ch);
            proof {
                let fresh = Run { region, text: text@ };
                assert(text@ =~= seq![cell.ch]);
                assert(before.push(fresh).drop_last() =~= before);
            }
        }
        i += 1;
    }
    let ghost painted = sink.deep_view();
    let ghost all = runs(cells@);
    proof {
        assert(cells@.take(cells.len() as int) =~= cells@);
    }
    theme.color(region).set(sink);
    emit(sink, Paint::Text(text));
    proof {
        assert(sink.deep_view() =~= painted + run_paint(*theme, all.last()));
        assert(sink.deep_view() =~= base + runs_paint(*theme, all));
        assert(sink.deep_view() =~= old(sink).deep_view() + row_paint(*theme, row, cells@));
    }
}

} // verus!
