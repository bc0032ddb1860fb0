//! Where everything stands on the screen.
//!
//! The screen has a header with the file's path, a column ruler, the window
//! on the document with a gutter of row numbers at its left, a status bar and
//! a line that echoes the command being typed. The window is centred on the
//! cursor: the cursor's cell stands in the middle of it, and document rows and
//! columns around it fill the window as far as they reach.
//!
//! Each row of the screen is specified as the sequence of its cells.

use vstd::prelude::*;
use crate::display::Display;
use crate::display::Region;
use crate::file::File;
use crate::paint::cell;
use crate::paint::plain;
use crate::paint::plain_push;
use crate::paint::row_paint;
use crate::paint::text_of;
use crate::paint::PaintView;
use crate::paint::Cell;
use crate::text::chars_of;
use crate::text::decimal;
use crate::text::decimal_of;
use crate::text::decimal_width;
use crate::text::decimal_width_bounded;
use crate::text::decimal_width_monotone;

verus! {

/// `n` blank characters.
pub open spec fn blanks(n: int) -> Seq<char> {
    Seq::new(n as nat, |i: int| ' ')
}

/// `text` as it is shown in `width` cells: the text itself where it fits;
/// otherwise two dots followed by its last `width - 2` characters (in fewer
/// than two cells, as many dots as there are cells).
pub open spec fn clipped(text: Seq<char>, width: int) -> Seq<char> {
    if text.len() <= width {
        text
    } else if width >= 2 {
        seq!['.', '.'] + text.skip(text.len() - (width - 2))
    } else {
        Seq::new(width as nat, |i: int| '.')
    }
}

/// `text` at the left of `width` cells, with blanks after it.
pub open spec fn flush_left(text: Seq<char>, width: int) -> Seq<char> {
    text + blanks(width - text.len())
}

/// `text` at the right of `width` cells, with blanks before it.
pub open spec fn flush_right(text: Seq<char>, width: int) -> Seq<char> {
    blanks(width - text.len()) + text
}

/// The column at which the ruler's label over column `x` begins. Labels
/// begin at the columns whose number, counted from one, is a multiple of
/// five, and each has five cells.
pub open spec fn label_start(x: int) -> int {
    x - (x + 1) % 5
}

/// Showing two texts one after the other shows the cells of both.
pub proof fn plain_add(a: Seq<char>, b: Seq<char>, region: Region)
    ensures
        plain(a + b, region) == plain(a, region) + plain(b, region),
{
    assert(plain(a + b, region) =~= plain(a, region) + plain(b, region));
}

/// The window on the document, in numbers: how many rows and columns of
/// text the screen shows, how wide the gutter is, and which document rows
/// and columns are shown. `top_num` and `left_num` are the first document
/// row and column in the window, and are negative where the window begins
/// before the document; `right_num` is the column after the last one shown.
#[derive(Clone, Copy, Debug, PartialEq, Eq, Structural)]
pub struct Window {
    pub code_rows: u16,
    pub code_cols: u16,
    pub gutter_width: u16,
    pub top_num: i128,
    pub left_num: i128,
    pub right_num: i128,
}

impl Window {
    /// Whether these are the numbers of `display`'s window on `lines`.
    pub open spec fn of(self, display: Display, lines: Seq<Seq<char>>) -> bool {
        &&& self.code_rows == display.spec_code_rows()
        &&& self.code_cols == display.spec_code_cols(lines)
        &&& self.gutter_width == display.spec_gutter_width(lines)
        &&& self.top_num == display.spec_top_num()
        &&& self.left_num == display.spec_left_num(lines)
        &&& self.right_num == display.spec_right_num(lines)
    }
}

impl Display {
    /// The number of screen rows that show the document: all but the two
    /// rows above them and the two rows below.
    pub open spec fn spec_code_rows(&self) -> int {
        if self.row >= 4 {
            self.row - 4
        } else {
            0
        }
    }

    /// The first document row in the window. The cursor's row is the middle
    /// one; where the number of rows is even, the row that has no partner
    /// is above the cursor.
    pub open spec fn spec_top_num(&self) -> int {
        self.center_y - self.spec_code_rows() / 2
    }

    /// The largest row number in the window, rows counted from one: that of
    /// the window's last row, or of the document's last row where the window
    /// reaches past it.
    pub open spec fn spec_last_number(&self, lines: Seq<Seq<char>>) -> int {
        let end = self.spec_top_num() + self.spec_code_rows();
        if end < lines.len() {
            end
        } else {
            lines.len() as int
        }
    }

    /// The width of the gutter: as many cells as the largest row number in
    /// the window has digits, and none where the window has no row.
    pub open spec fn spec_gutter_width(&self, lines: Seq<Seq<char>>) -> int {
        if self.spec_code_rows() == 0 {
            0
        } else {
            decimal_width(self.spec_last_number(lines) as nat) as int
        }
    }

    /// The number of screen columns that show the document: those right of
    /// the gutter.
    pub open spec fn spec_code_cols(&self, lines: Seq<Seq<char>>) -> int {
        if self.col > self.spec_gutter_width(lines) {
            self.col - self.spec_gutter_width(lines)
        } else {
            0
        }
    }

    /// The first document column in the window. The cursor's column is the
    /// middle one; where the number of columns is even, the column that has
    /// no partner is left of the cursor.
    pub open spec fn spec_left_num(&self, lines: Seq<Seq<char>>) -> int {
        self.center_x - self.spec_code_cols(lines) / 2
    }

    /// The document column after the last one in the window.
    pub open spec fn spec_right_num(&self, lines: Seq<Seq<char>>) -> int {
        self.spec_left_num(lines) + self.spec_code_cols(lines)
    }

    /// The header: the path at the right of the row, clipped to the row's
    /// width.
    pub open spec fn header(&self, path: Seq<char>) -> Seq<Cell> {
        plain(flush_right(clipped(path, self.col as int), self.col as int), Region::FilePath)
    }

    /// Whether the ruler shows the label that begins at column `start`: it
    /// does where the label's digits fit in the label's five cells and all
    /// stand on columns of the window.
    pub open spec fn label_shown(&self, lines: Seq<Seq<char>>, start: int) -> bool {
        let width = decimal_width((start + 1) as nat);
        start >= 4 && width <= 5 && self.spec_left_num(lines) <= start && start + width
            <= self.spec_right_num(lines)
    }

    /// The ruler's cell over document column `x`. A label writes the number
    /// of the column it begins at, counted from one, and is followed by
    /// blanks up to the next label. The five cells of the label that begins
    /// at the cursor's column are in the colours of the cursor's column.
    pub open spec fn ruler_mark(&self, lines: Seq<Seq<char>>, x: int) -> Cell {
        let start = label_start(x);
        let label = decimal((start + 1) as nat);
        if x >= 4 && self.label_shown(lines, start) {
            cell(
                if x - start < label.len() {
                    label[x - start]
                } else {
                    ' '
                },
                if start == self.center_x {
                    Region::CenterCol
                } else {
                    Region::ColNum
                },
            )
        } else {
            cell(' ', Region::ColNum)
        }
    }

    /// The cell of the ruler at screen column `c`: blank over the gutter,
    /// and right of it the ruler's cell over the document column shown
    /// there.
    pub open spec fn ruler_cell(&self, lines: Seq<Seq<char>>, c: int) -> Cell {
        if c < self.spec_gutter_width(lines) {
            cell(' ', Region::ColNum)
        } else {
            self.ruler_mark(lines, self.spec_left_num(lines) + (c - self.spec_gutter_width(lines)))
        }
    }

    /// The column ruler.
    pub open spec fn ruler(&self, lines: Seq<Seq<char>>) -> Seq<Cell> {
        Seq::new(self.col as nat, |c: int| self.ruler_cell(lines, c))
    }

    /// The gutter's cell at screen column `c`, beside document row `y`: the
    /// row's number, counted from one, at the right of the gutter, in the
    /// colours of the cursor's row where it is the cursor's row; blank
    /// beside a row that the document does not have.
    pub open spec fn number_cell(&self, lines: Seq<Seq<char>>, y: int, c: int) -> Cell {
        if 0 <= y < lines.len() {
            let label = decimal((y + 1) as nat);
            let pad = self.spec_gutter_width(lines) - label.len();
            cell(
                if c < pad {
                    ' '
                } else {
                    label[c - pad]
                },
                if y == self.center_y {
                    Region::CenterRow
                } else {
                    Region::RowNum
                },
            )
        } else {
            cell(' ', Region::RowNum)
        }
    }

    /// The cell that shows column `x` of document row `y`. The cursor's cell
    /// has the colours of the centre, also where the cursor stands past the
    /// end of its row; any other cell shows the document's character in the
    /// colours of text, or is a blank of empty space where the document has
    /// no character there.
    pub open spec fn text_cell(&self, lines: Seq<Seq<char>>, y: int, x: int) -> Cell {
        if 0 <= y < lines.len() && y == self.center_y && x == self.center_x {
            cell(
                if 0 <= x < lines[y].len() {
                    lines[y][x]
                } else {
                    ' '
                },
                Region::Center,
            )
        } else if 0 <= y < lines.len() && 0 <= x < lines[y].len() {
            cell(lines[y][x], Region::Code)
        } else {
            cell(' ', Region::Space)
        }
    }

    /// The cell at screen column `c` of the window's row `i`: of the gutter,
    /// or of the document's text right of it.
    pub open spec fn code_cell(&self, lines: Seq<Seq<char>>, i: int, c: int) -> Cell {
        let y = self.spec_top_num() + i;
        if c < self.spec_gutter_width(lines) {
            self.number_cell(lines, y, c)
        } else {
            self.text_cell(lines, y, self.spec_left_num(lines) + (c - self.spec_gutter_width(lines)))
        }
    }

    /// Row `i` of the window on the document.
    pub open spec fn code(&self, lines: Seq<Seq<char>>, i: int) -> Seq<Cell> {
        Seq::new(self.col as nat, |c: int| self.code_cell(lines, i, c))
    }

    /// The long form of the status: the cursor's column and row, counted
    /// from one, and the terminal's size.
    pub open spec fn status_full(&self) -> Seq<char> {
        "center("@ + decimal((self.center_x + 1) as nat) + ", "@ + decimal(
            (self.center_y + 1) as nat,
        ) + ")  display("@ + decimal(self.col as nat) + ", "@ + decimal(self.row as nat) + ")"@
    }

    /// The short form of the status: the cursor's column and row, counted
    /// from one.
    pub open spec fn status_short(&self) -> Seq<char> {
        "center("@ + decimal((self.center_x + 1) as nat) + ", "@ + decimal(
            (self.center_y + 1) as nat,
        ) + ")"@
    }

    /// What the status bar says: the long form where it fits in the
    /// terminal's width, else the short form where that fits, else nothing.
    pub open spec fn status_text(&self) -> Seq<char> {
        if self.col >= self.status_full().len() {
            self.status_full()
        } else if self.col >= self.status_short().len() {
            self.status_short()
        } else {
            Seq::empty()
        }
    }

    /// The status bar.
    pub open spec fn status(&self) -> Seq<Cell> {
        plain(flush_left(self.status_text(), self.col as int), Region::Bar)
    }

    /// The command line: `echo` at the left of the row, clipped to the row's
    /// width.
    pub open spec fn command(&self, echo: Seq<char>) -> Seq<Cell> {
        plain(flush_left(clipped(echo, self.col as int), self.col as int), Region::Cmd)
    }

    /// The cells of row `r` of the screen. From the top: the header, the
    /// ruler, the rows of the window, the status bar, the command line.
    pub open spec fn row_cells(
        &self,
        lines: Seq<Seq<char>>,
        path: Seq<char>,
        echo: Seq<char>,
        r: int,
    ) -> Seq<Cell> {
        if r == 0 {
            self.header(path)
        } else if r == 1 {
            self.ruler(lines)
        } else if r < 2 + self.spec_code_rows() {
            self.code(lines, r - 2)
        } else if r == 2 + self.spec_code_rows() {
            self.status()
        } else {
            self.command(echo)
        }
    }

    /// The commands that paint the first `n` rows of the screen, from the
    /// top.
    pub open spec fn rows_paint(
        &self,
        lines: Seq<Seq<char>>,
        path: Seq<char>,
        echo: Seq<char>,
        n: int,
    ) -> Seq<PaintView>
        decreases n,
    {
        if n <= 0 {
            Seq::empty()
        } else {
            self.rows_paint(lines, path, echo, n - 1) + row_paint(
                self.theme,
                (n - 1) as u16,
                self.row_cells(lines, path, echo, n - 1),
            )
        }
    }

    /// The commands that paint a frame: the screen is cleared, every row is
    /// painted from the top, and the terminal's cursor is left at the top
    /// left.
    pub open spec fn frame(&self, lines: Seq<Seq<char>>, path: Seq<char>, echo: Seq<char>) -> Seq<
        PaintView,
    > {
        seq![PaintView::Clear] + self.rows_paint(lines, path, echo, self.row as int) + seq![
            PaintView::MoveTo(0, 0),
        ]
    }

    /// What a row of the window reads, where it shows a row of the document
    /// and the whole gutter is on the screen: the row's number at the right
    /// of the gutter; then blanks for the columns left of the document, if
    /// the window begins there; then the part of the line that lies in the
    /// window; then blanks up to the right edge.
    pub proof fn code_row_text(&self, lines: Seq<Seq<char>>, i: int)
        requires
            0 <= i < self.spec_code_rows(),
            0 <= self.spec_top_num() + i < lines.len(),
            self.spec_gutter_width(lines) <= self.col,
        ensures
            ({
                let line = lines[self.spec_top_num() + i];
                let cols = self.spec_code_cols(lines);
                let left = self.spec_left_num(lines);
                let right = self.spec_right_num(lines);
                let lead = if left >= 0 {
                    0
                } else if -left > cols {
                    cols
                } else {
                    -left
                };
                let from = if left < 0 {
                    0
                } else if left > line.len() {
                    line.len() as int
                } else {
                    left
                };
                let to = if right < from {
                    from
                } else if right > line.len() {
                    line.len() as int
                } else {
                    right
                };
                text_of(self.code(lines, i)) == flush_right(
                    decimal((self.spec_top_num() + i + 1) as nat),
                    self.spec_gutter_width(lines),
                ) + blanks(lead) + line.subrange(from, to) + blanks(cols - lead - (to - from))
            }),
    {
        let y = self.spec_top_num() + i;
        let line = lines[y];
        let gutter = self.spec_gutter_width(lines);
        let cols = self.spec_code_cols(lines);
        let left = self.spec_left_num(lines);
        let right = self.spec_right_num(lines);
        let lead = if left >= 0 {
            0
        } else if -left > cols {
            cols
        } else {
            -left
        };
        let from = if left < 0 {
            0
        } else if left > line.len() {
            line.len() as int
        } else {
            left
        };
        let to = if right < from {
            from
        } else if right > line.len() {
            line.len() as int
        } else {
            right
        };
        let label = decimal((y + 1) as nat);
        decimal_width_monotone((y + 1) as nat, self.spec_last_number(lines) as nat);
        let number = flush_right(label, gutter);
        let shown = text_of(self.code(lines, i));
        let told = number + blanks(lead) + line.subrange(from, to) + blanks(
            cols - lead - (to - from),
        );
        assert(number.len() == gutter);
        assert(told.len() == self.col);
        assert forall|c: int| 0 <= c < self.col implies shown[c] == told[c] by {
            assert(shown[c] == self.code_cell(lines, i, c).ch);
            if c < gutter {
                assert(told[c] == number[c]);
            } else {
                let x = left + (c - gutter);
                let k = c - gutter;
                if k < lead {
                    assert(told[c] == blanks(lead)[k]);
                } else if k < lead + (to - from) {
                    assert(told[c] == line.subrange(from, to)[k - lead]);
                    assert(x == from + (k - lead));
                } else {
                    assert(told[c] == blanks(cols - lead - (to - from))[k - lead - (to - from)]);
                }
            }
        }
        assert(shown =~= told);
    }

    /// The long form of the status has 23 characters besides its four
    /// numbers, the short form 10 besides its two.
    pub proof fn status_lengths(&self)
        ensures
            self.status_full().len() == 23 + decimal_width((self.center_x + 1) as nat)
                + decimal_width((self.center_y + 1) as nat) + decimal_width(self.col as nat)
                + decimal_width(self.row as nat),
            self.status_short().len() == 10 + decimal_width((self.center_x + 1) as nat)
                + decimal_width((self.center_y + 1) as nat),
    {
        reveal_strlit("center(");
        reveal_strlit(", ");
        reveal_strlit(")  display(");
        reveal_strlit(")");
    }

    /// Which form the status takes. With `wide` for 23 more than the digits
    /// of the cursor's column and row and of the terminal's size, and `narrow`
    /// for 10 more than the digits of the cursor's column and row: a terminal
    /// of at least `wide` columns shows the long form, a narrower one of at
    /// least `narrow` columns the short form, and one narrower than that a
    /// blank status bar.
    pub proof fn status_by_width(&self)
        ensures
            ({
                let narrow = 10 + decimal_width((self.center_x + 1) as nat) + decimal_width(
                    (self.center_y + 1) as nat,
                );
                let wide = narrow + 13 + decimal_width(self.col as nat) + decimal_width(
                    self.row as nat,
                );
                &&& self.col >= wide ==> self.status_text() == self.status_full()
                &&& narrow <= self.col < wide ==> self.status_text() == self.status_short()
                &&& self.col < narrow ==> self.status_text() == Seq::<char>::empty()
                &&& self.col < narrow ==> self.status() == plain(
                    blanks(self.col as int),
                    Region::Bar,
                )
            }),
    {
        self.status_lengths();
        if self.col < self.status_short().len() {
            assert(flush_left(Seq::empty(), self.col as int) =~= blanks(self.col as int));
        }
    }

    /// Every row of the screen has as many cells as the terminal has
    /// columns.
    pub proof fn rows_are_full(
        &self,
        lines: Seq<Seq<char>>,
        path: Seq<char>,
        echo: Seq<char>,
        r: int,
    )
        ensures
            self.row_cells(lines, path, echo, r).len() == self.col,
    {
        let width = self.col as int;
        assert(clipped(path, width).len() <= width);
        assert(clipped(echo, width).len() <= width);
        assert(self.status_text().len() <= width);
    }

    /// The window is centred on the cursor: where it has a row and a column,
    /// the cursor's cell is in it, in the colours of the centre, on the
    /// middle row and the middle column.
    pub proof fn cursor_is_centred(&self, lines: Seq<Seq<char>>)
        requires
            self.cursor().within(lines),
            self.spec_code_rows() >= 1,
            self.spec_code_cols(lines) >= 1,
        ensures
            self.spec_top_num() <= self.center_y < self.spec_top_num() + self.spec_code_rows(),
            self.spec_left_num(lines) <= self.center_x < self.spec_right_num(lines),
            self.center_y - self.spec_top_num() == self.spec_code_rows() / 2,
            self.center_x - self.spec_left_num(lines) == self.spec_code_cols(lines) / 2,
            self.code_cell(
                lines,
                self.spec_code_rows() / 2,
                self.spec_gutter_width(lines) + self.spec_code_cols(lines) / 2,
            ).region == Region::Center,
    {
    }

    /// The number of screen rows that show the document.
    pub fn code_rows(&self) -> (n: u16)
        ensures
            n == self.spec_code_rows(),
    {
        if self.row >= 4 {
            self.row - 4
        } else {
            0
        }
    }

    /// Computes the numbers of the window on the document.
    pub fn window(&self, file: &File) -> (w: Window)
        ensures
            w.of(*self, file@),
    {
        let code_rows: u16 = self.code_rows();
        let top_num: i128 = self.center_y as i128 - (code_rows / 2) as i128;
        let end: i128 = top_num + code_rows as i128;
        let len: i128 = file.get_content().len() as i128;
        let last_number: i128 = if end < len {
            end
        } else {
            len
        };
        let gutter_width: u16 = if code_rows == 0 {
            0
        } else {
            proof {
                decimal_width_bounded(last_number as nat);
            }
            decimal_of(last_number as u128).len() as u16
        };
        let code_cols: u16 = if self.col > gutter_width {
            self.col - gutter_width
        } else {
            0
        };
        let left_num: i128 = self.center_x as i128 - (code_cols / 2) as i128;
        let right_num: i128 = left_num + code_cols as i128;
        Window { code_rows, code_cols, gutter_width, top_num, left_num, right_num }
    }

    /// The cells of the header.
    pub fn header_cells(&self, file: &File) -> (cells: Vec<Cell>)
        ensures
            cells@ == self.header(file.path_view()),
    {
        let path = match &file.path {
            Some(p) => chars_of(p.as_str()),
            None => Vec::new(),
        };
        let text = clip(&path, self.col as usize);
        let mut cells: Vec<Cell> = Vec::new();
        blank_cells(&mut cells, self.col as usize - text.len(), Region::FilePath);
        text_cells(&mut cells, &text, Region::FilePath);
        proof {
            plain_add(blanks(self.col - text@.len()), text@, Region::FilePath);
        }
        cells
    }

    /// The cells of a row that shows `text` at its left, in `region`.
    fn left_cells(&self, text: &Vec<char>, region: Region) -> (cells: Vec<Cell>)
        requires
            text@.len() <= self.col,
        ensures
            cells@ == plain(flush_left(text@, self.col as int), region),
    {
        let mut cells: Vec<Cell> = Vec::new();
        text_cells(&mut cells, text, region);
        blank_cells(&mut cells, self.col as usize - text.len(), region);
        proof {
            plain_add(text@, blanks(self.col - text@.len()), region);
        }
        cells
    }

    /// The cells of the command line, which echoes `echo`.
    pub fn command_cells(&self, echo: &str) -> (cells: Vec<Cell>)
        ensures
            cells@ == self.command(echo@),
    {
        let text = clip(&chars_of(echo), self.col as usize);
        self.left_cells(&text, Region::Cmd)
    }

    /// The cells of the status bar.
    pub fn status_cells(&self) -> (cells: Vec<Cell>)
        ensures
            cells@ == self.status(),
    {
        let mut short: Vec<char> = chars_of("center(");
        let mut x = decimal_of(self.center_x as u128 + 1);
        let mut y = decimal_of(self.center_y as u128 + 1);
        short.append(&mut x);
        short.append(&mut chars_of(", "));
        short.append(&mut y);
        let mut full = short.clone();
        short.append(&mut chars_of(")"));
        full.append(&mut chars_of(")  display("));
        full.append(&mut decimal_of(self.col as u128));
        full.append(&mut chars_of(", "));
        full.append(&mut decimal_of(self.row as u128));
        full.append(&mut chars_of(")"));
        proof {
            assert(short@ =~= self.status_short());
            assert(full@ =~= self.status_full());
        }
        if self.col as usize >= full.len() {
            self.left_cells(&full, Region::Bar)
        } else if self.col as usize >= short.len() {
            self.left_cells(&short, Region::Bar)
        } else {
            self.left_cells(&Vec::new(), Region::Bar)
        }
    }

    /// The ruler's cell over document column `x`.
    fn mark(&self, file: &File, w: &Window, x: i128) -> (mark: Cell)
        requires
            w.of(*self, file@),
            x <= w.right_num,
        ensures
            mark == self.ruler_mark(file@, x as int),
    {
        if x < 4 {
            return Cell { ch: ' ', region: Region::ColNum };
        }
        let start: i128 = x - (x + 1) % 5;
        let label = decimal_of((start + 1) as u128);
        let width: i128 = label.len() as i128;
        if width <= 5 && w.left_num <= start && start + width <= w.right_num {
            let at: usize = (x - start) as usize;
            Cell {
                ch: if at < label.len() {
                    label[at]
                } else {
                    ' '
                },
                region: if start == self.center_x as i128 {
                    Region::CenterCol
                } else {
                    Region::ColNum
                },
            }
        } else {
            Cell { ch: ' ', region: Region::ColNum }
        }
    }

    /// The cells of the column ruler.
    pub fn ruler_cells(&self, file: &File) -> (cells: Vec<Cell>)
        ensures
            cells@ == self.ruler(file@),
    {
        let w = self.window(file);
        let mut cells: Vec<Cell> = Vec::new();
        let mut c: u16 = 0;
        while c < self.col
            invariant
                c <= self.col,
                w.of(*self, file@),
                cells@ == Seq::new(c as nat, |k: int| self.ruler_cell(file@, k)),
            decreases self.col - c,
        {
            let next = if c < w.gutter_width {
                Cell { ch: ' ', region: Region::ColNum }
            } else {
                self.mark(file, &w, w.left_num + (c - w.gutter_width) as i128)
            };
            cells.push(next);
            proof {
                assert(cells@ =~= Seq::new((c + 1) as nat, |k: int| self.ruler_cell(file@, k)));
            }
            c += 1;
        }
        cells
    }

    /// The cells of row `i` of the window on the document.
    pub fn code_cells(&self, file: &File, i: u16) -> (cells: Vec<Cell>)
        requires
            i < self.spec_code_rows(),
        ensures
            cells@ == self.code(file@, i as int),
    {
        let w = self.window(file);
        let y: i128 = w.top_num + i as i128;
        let inside = 0 <= y && y < file.get_content().len() as i128;
        let line: Vec<char> = if inside {
            chars_of(file.get_content()[y as usize].as_str())
        } else {
            Vec::new()
        };
        let label: Vec<char> = if inside {
            decimal_of((y + 1) as u128)
        } else {
            Vec::new()
        };
        proof {
            if inside {
                decimal_width_monotone((y + 1) as nat, self.spec_last_number(file@) as nat);
            }
        }
        let pad: usize = if inside {
            w.gutter_width as usize - label.len()
        } else {
            0
        };
        let number_region = if inside && y == self.center_y as i128 {
            Region::CenterRow
        } else {
            Region::RowNum
        };
        let mut cells: Vec<Cell> = Vec::new();
        let mut c: u16 = 0;
        while c < self.col
            invariant
                c <= self.col,
                w.of(*self, file@),
                y == self.spec_top_num() + i,
                inside == (0 <= y < file@.len()),
                inside ==> line@ == file@[y as int] && label@ == decimal((y + 1) as nat) && pad
                    == w.gutter_width - label@.len(),
                number_region == if inside && y == self.center_y {
                    Region::CenterRow
                } else {
                    Region::RowNum
                },
                cells@ == Seq::new(c as nat, |k: int| self.code_cell(file@, i as int, k)),
            decreases self.col - c,
        {
            let next = if c < w.gutter_width {
                Cell {
                    ch: if inside && c as usize >= pad {
                        label[c as usize - pad]
                    } else {
                        ' '
                    },
                    region: number_region,
                }
            } else {
                let x: i128 = w.left_num + (c - w.gutter_width) as i128;
                let on_line = inside && 0 <= x && x < line.len() as i128;
                if inside && y == self.center_y as i128 && x == self.center_x as i128 {
                    Cell {
                        ch: if on_line {
                            line[x as usize]
                        } else {
                            ' '
                        },
                        region: Region::Center,
                    }
                } else if on_line {
                    Cell { ch: line[x as usize], region: Region::Code }
                } else {
                    Cell { ch: ' ', region: Region::Space }
                }
            };
            assert(next == self.code_cell(file@, i as int, c as int));
            cells.push(next);
            proof {
                assert(cells@ =~= Seq::new(
                    (c + 1) as nat,
                    |k: int| self.code_cell(file@, i as int, k),
                ));
            }
            c += 1;
        }
        cells
    }
}

/// Appends `n` blank cells of `region` to `cells`.
pub fn blank_cells(cells: &mut Vec<Cell>, n: usize, region: Region)
    ensures
        final(cells)@ == old(cells)@ + plain(blanks(n as int), region),
{
    let mut i: usize = 0;
    while i < n
        invariant
            i <= n,
            cells@ == old(cells)@ + plain(blanks(i as int), region),
        decreases n - i,
    {
        cells.push(Cell { ch: ' ', region });
        proof {
            assert(cells@ =~= old(cells)@ + plain(blanks(i + 1), region));
        }
        i += 1;
    }
    proof {
        assert(old(cells)@ + plain(blanks(0), region) =~= old(cells)@);
    }
}

/// Appends the cells that show `text` in `region` to `cells`.
pub fn text_cells(cells: &mut Vec<Cell>, text: &Vec<char>, region: Region)
    ensures
        final(cells)@ == old(cells)@ + plain(text@, region),
{
    let mut i: usize = 0;
    while i < text.len()
        invariant
            i <= text.len(),
            cells@ == old(cells)@ + plain(text@.take(i as int), region),
        decreases text.len() - i,
    {
        let ghost before = cells@;
        cells.push(Cell { ch: text[i], region });
        proof {
            assert(text@.take(i + 1) =~= text@.take(i as int).push(text@[i as int]));
            plain_push(text@.take(i as int), text@[i as int], region);
            assert(cells@ == before.push(cell(text@[i as int], region)));
        }
        i += 1;
    }
    proof {
        assert(text@.take(text.len() as int) =~= text@);
    }
}

/// Clips `text` to `width` cells.
pub fn clip(text: &Vec<char>, width: usize) -> (shown: Vec<char>)
    ensures
        shown@ == clipped(text@, width as int),
        shown@.len() <= width,
{
    let mut shown: Vec<char> = Vec::new();
    if text.len() <= width {
        let mut i: usize = 0;
        while i < text.len()
            invariant
                i <= text.len(),
                shown@ == text@.take(i as int),
            decreases text.len() - i,
        {
            shown.push(text[i]);
            i += 1;
        }
        proof {
            assert(text@.take(text.len() as int) =~= text@);
        }
    } else if width >= 2 {
        shown.push('.');
        shown.push('.');
        let first: usize = text.len() - (width - 2);
        let mut i: usize = first;
        while i < text.len()
            invariant
                first <= i <= text.len(),
                shown@ == seq!['.', '.'] + text@.subrange(first as int, i as int),
            decreases text.len() - i,
        {
            shown.push(text[i]);
            proof {
                assert(shown@ =~= seq!['.', '.'] + text@.subrange(first as int, i + 1));
            }
            i += 1;
        }
        proof {
            assert(text@.subrange(first as int, text.len() as int) =~= text@.skip(first as int));
        }
    } else {
        if width == 1 {
            shown.push('.');
        }
        proof {
            assert(shown@ =~= clipped(text@, width as int));
        }
    }
    shown
}

} // verus!
