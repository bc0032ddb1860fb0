//! The viewport: the terminal's size, the cursor in the document and the
//! colours in use, with the cursor's movements and the painting of a frame.

use vstd::prelude::*;
use crate::cmd::Cmd;
use crate::file::File;
use crate::paint::emit;
use crate::paint::paint_row;
use crate::paint::Cell;
use crate::paint::Paint;
use crate::paint::PaintView;
use crate::paint::Rgb;

verus! {

/// The colours of one part of the screen.
#[derive(Clone, Copy, Debug, PartialEq, Eq, Structural)]
pub struct Color {
    pub background: Rgb,
    pub foreground: Rgb,
}

impl Color {
    /// Asks the terminal for these colours: appends to `sink` the command
    /// for the background, then the one for the foreground.
    pub fn set(&self, sink: &mut Vec<Paint>)
        ensures
            final(sink).deep_view() == old(sink).deep_view() + seq![
                PaintView::Background(self.background),
                PaintView::Foreground(self.foreground),
            ],
    {
        emit(sink, Paint::Background(self.background));
        emit(sink, Paint::Foreground(self.foreground));
        proof {
            assert(sink.deep_view() =~= old(sink).deep_view() + seq![
                PaintView::Background(self.background),
                PaintView::Foreground(self.foreground),
            ]);
        }
    }
}

/// The parts of the screen that have colours of their own.
#[derive(Clone, Copy, Debug, PartialEq, Eq, Structural)]
pub enum Region {
    /// The status bar.
    Bar,
    /// The cell under the cursor.
    Center,
    /// The label of the cursor's column in the ruler.
    CenterCol,
    /// The number of the cursor's row in the gutter.
    CenterRow,
    /// The line that echoes a command being typed.
    Cmd,
    /// The text of the document.
    Code,
    /// The column ruler.
    ColNum,
    /// The header that shows the file's path.
    FilePath,
    /// The gutter of row numbers.
    RowNum,
    /// The cells around the text that hold none of it.
    Space,
}

/// A colour theme: the colours of each part of the screen.
#[derive(Clone, Copy, Debug, PartialEq, Eq, Structural)]
pub struct Theme {
    pub bar: Color,
    pub center: Color,
    pub center_col: Color,
    pub center_row: Color,
    pub cmd: Color,
    pub code: Color,
    pub col_num: Color,
    pub file_path: Color,
    pub row_num: Color,
    pub space: Color,
}

/// The colours `background` and `foreground`, each written as red, green
/// and blue.
pub open spec fn pair(background: (u8, u8, u8), foreground: (u8, u8, u8)) -> Color {
    Color {
        background: Rgb { r: background.0, g: background.1, b: background.2 },
        foreground: Rgb { r: foreground.0, g: foreground.1, b: foreground.2 },
    }
}

impl Theme {
    /// The dark theme, colour by colour.
    pub open spec fn spec_one_dark() -> Theme {
        Theme {
            bar: pair((0x21, 0x25, 0x2B), (0x9D, 0xA5, 0xB4)),
            center: pair((0x52, 0x8B, 0xFF), (0xAB, 0xB2, 0xBF)),
            center_col: pair((0x28, 0x2C, 0x34), (0xAB, 0xB2, 0xBF)),
            center_row: pair((0x28, 0x2C, 0x34), (0xAB, 0xB2, 0xBF)),
            cmd: pair((0x28, 0x2C, 0x34), (0xAB, 0xB2, 0xBF)),
            code: pair((0x28, 0x2C, 0x34), (0xAB, 0xB2, 0xBF)),
            col_num: pair((0x28, 0x2C, 0x34), (0x63, 0x6D, 0x83)),
            file_path: pair((0x21, 0x25, 0x2B), (0x9D, 0xA5, 0xB4)),
            row_num: pair((0x28, 0x2C, 0x34), (0x63, 0x6D, 0x83)),
            space: pair((0x21, 0x25, 0x2B), (0x21, 0x25, 0x2B)),
        }
    }

    /// The light theme, colour by colour.
    pub open spec fn spec_one_light() -> Theme {
        Theme {
            bar: pair((0xEA, 0xEA, 0xEB), (0x42, 0x42, 0x43)),
            center: pair((0x52, 0x6F, 0xFF), (0xFA, 0xFA, 0xFA)),
            center_col: pair((0xFA, 0xFA, 0xFA), (0x38, 0x3A, 0x42)),
            center_row: pair((0xFA, 0xFA, 0xFA), (0x38, 0x3A, 0x42)),
            cmd: pair((0xFA, 0xFA, 0xFA), (0x38, 0x3A, 0x42)),
            code: pair((0xFA, 0xFA, 0xFA), (0x38, 0x3A, 0x42)),
            col_num: pair((0xFA, 0xFA, 0xFA), (0x9D, 0x9D, 0x9F)),
            file_path: pair((0xEA, 0xEA, 0xEB), (0x42, 0x42, 0x43)),
            row_num: pair((0xFA, 0xFA, 0xFA), (0x9D, 0x9D, 0x9F)),
            space: pair((0xEA, 0xEA, 0xEB), (0xEA, 0xEA, 0xEB)),
        }
    }

    /// The dark theme.
    #[verifier::when_used_as_spec(spec_one_dark)]
    pub fn one_dark() -> (theme: Self)
        ensures
            theme == Self::spec_one_dark(),
    {
        let bg = Rgb { r: 0x28, g: 0x2C, b: 0x34 };
        let fg = Rgb { r: 0xAB, g: 0xB2, b: 0xBF };
        let panel = Rgb { r: 0x21, g: 0x25, b: 0x2B };
        let panel_text = Rgb { r: 0x9D, g: 0xA5, b: 0xB4 };
        let faint = Rgb { r: 0x63, g: 0x6D, b: 0x83 };
        Self {
            bar: Color { background: panel, foreground: panel_text },
            center: Color { background: Rgb { r: 0x52, g: 0x8B, b: 0xFF }, foreground: fg },
            center_col: Color { background: bg, foreground: fg },
            center_row: Color { background: bg, foreground: fg },
            cmd: Color { background: bg, foreground: fg },
            code: Color { background: bg, foreground: fg },
            col_num: Color { background: bg, foreground: faint },
            file_path: Color { background: panel, foreground: panel_text },
            row_num: Color { background: bg, foreground: faint },
            space: Color { background: panel, foreground: panel },
        }
    }

    /// The light theme.
    #[verifier::when_used_as_spec(spec_one_light)]
    pub fn one_light() -> (theme: Self)
        ensures
            theme == Self::spec_one_light(),
    {
        let bg = Rgb { r: 0xFA, g: 0xFA, b: 0xFA };
        let fg = Rgb { r: 0x38, g: 0x3A, b: 0x42 };
        let panel = Rgb { r: 0xEA, g: 0xEA, b: 0xEB };
        let panel_text = Rgb { r: 0x42, g: 0x42, b: 0x43 };
        let faint = Rgb { r: 0x9D, g: 0x9D, b: 0x9F };
        Self {
            bar: Color { background: panel, foreground: panel_text },
            center: Color { background: Rgb { r: 0x52, g: 0x6F, b: 0xFF }, foreground: bg },
            center_col: Color { background: bg, foreground: fg },
            center_row: Color { background: bg, foreground: fg },
            cmd: Color { background: bg, foreground: fg },
            code: Color { background: bg, foreground: fg },
            col_num: Color { background: bg, foreground: faint },
            file_path: Color { background: panel, foreground: panel_text },
            row_num: Color { background: bg, foreground: faint },
            space: Color { background: panel, foreground: panel },
        }
    }

    /// The colours of `region` in this theme.
    pub open spec fn spec_color(&self, region: Region) -> Color {
        match region {
            Region::Bar => self.bar,
            Region::Center => self.center,
            Region::CenterCol => self.center_col,
            Region::CenterRow => self.center_row,
            Region::Cmd => self.cmd,
            Region::Code => self.code,
            Region::ColNum => self.col_num,
            Region::FilePath => self.file_path,
            Region::RowNum => self.row_num,
            Region::Space => self.space,
        }
    }

    /// The colours of `region` in this theme.
    #[verifier::when_used_as_spec(spec_color)]
    pub fn color(&self, region: Region) -> (color: Color)
        ensures
            color == self.spec_color(region),
    {
        match region {
            Region::Bar => self.bar,
            Region::Center => self.center,
            Region::CenterCol => self.center_col,
            Region::CenterRow => self.center_row,
            Region::Cmd => self.cmd,
            Region::Code => self.code,
            Region::ColNum => self.col_num,
            Region::FilePath => self.file_path,
            Region::RowNum => self.row_num,
            Region::Space => self.space,
        }
    }
}

/// A place in a document: a column `x` and a row `y`, both from zero.
pub struct Cursor {
    pub x: int,
    pub y: int,
}

impl Cursor {
    /// Whether the cursor stands in `lines`: on one of its rows, and on a
    /// column of that row or just past its last character.
    pub open spec fn within(self, lines: Seq<Seq<char>>) -> bool {
        0 <= self.y < lines.len() && 0 <= self.x <= lines[self.y].len()
    }

    /// The cursor on the same row, no further right than the end of that row.
    pub open spec fn clamped(self, lines: Seq<Seq<char>>) -> Cursor {
        if self.x > lines[self.y].len() {
            Cursor { x: lines[self.y].len() as int, y: self.y }
        } else {
            self
        }
    }

    /// One column to the left, unless already at column zero.
    pub open spec fn left(self) -> Cursor {
        if self.x > 0 {
            Cursor { x: self.x - 1, y: self.y }
        } else {
            self
        }
    }

    /// One column to the right, unless already at the end of the row.
    pub open spec fn right(self, lines: Seq<Seq<char>>) -> Cursor {
        if self.x < lines[self.y].len() {
            Cursor { x: self.x + 1, y: self.y }
        } else {
            self
        }
    }

    /// One row up, unless already on the first row; the column is kept as
    /// far as the new row reaches.
    pub open spec fn up(self, lines: Seq<Seq<char>>) -> Cursor {
        if self.y > 0 {
            Cursor { x: self.x, y: self.y - 1 }.clamped(lines)
        } else {
            self
        }
    }

    /// One row down, unless already on the last row; the column is kept as
    /// far as the new row reaches.
    pub open spec fn down(self, lines: Seq<Seq<char>>) -> Cursor {
        if self.y + 1 < lines.len() {
            Cursor { x: self.x, y: self.y + 1 }.clamped(lines)
        } else {
            self
        }
    }

    /// The start of the cursor's row.
    pub open spec fn start_line(self) -> Cursor {
        Cursor { x: 0, y: self.y }
    }

    /// The end of the cursor's row, just past its last character.
    pub open spec fn end_line(self, lines: Seq<Seq<char>>) -> Cursor {
        Cursor { x: lines[self.y].len() as int, y: self.y }
    }

    /// The start of the document.
    pub open spec fn start_file() -> Cursor {
        Cursor { x: 0, y: 0 }
    }

    /// The end of the document: the end of its last row.
    pub open spec fn end_file(lines: Seq<Seq<char>>) -> Cursor {
        Cursor { x: lines.last().len() as int, y: lines.len() - 1 }
    }
}

/// Every movement leaves the cursor in the document.
pub proof fn moves_stay_within(cursor: Cursor, lines: Seq<Seq<char>>)
    requires
        cursor.within(lines),
    ensures
        cursor.left().within(lines),
        cursor.right(lines).within(lines),
        cursor.up(lines).within(lines),
        cursor.down(lines).within(lines),
        cursor.start_line().within(lines),
        cursor.end_line(lines).within(lines),
        Cursor::start_file().within(lines),
        Cursor::end_file(lines).within(lines),
        cursor.clamped(lines) == cursor,
{
}

/// The viewport: the terminal's size in columns and rows, the cursor's
/// column and row in the document, and the theme.
#[derive(Clone, Copy, Debug, PartialEq, Eq, Structural)]
pub struct Display {
    pub col: u16,
    pub row: u16,
    pub center_x: usize,
    pub center_y: usize,
    pub theme: Theme,
}

impl Display {
    /// The cursor's place in the document.
    pub open spec fn cursor(&self) -> Cursor {
        Cursor { x: self.center_x as int, y: self.center_y as int }
    }

    /// Everything but the cursor: the terminal's size and the theme.
    pub open spec fn screen(&self) -> (u16, u16, Theme) {
        (self.col, self.row, self.theme)
    }

    /// A viewport of no size, with the cursor at the start of the document
    /// and the light theme.
    pub fn new() -> (display: Self)
        ensures
            display.col == 0,
            display.row == 0,
            display.cursor() == Cursor::start_file(),
            display.theme == Theme::one_light(),
    {
        Self { col: 0, row: 0, center_x: 0, center_y: 0, theme: Theme::one_light() }
    }

    /// Takes the terminal's size: `col` columns and `row` rows.
    pub fn resize(&mut self, col: u16, row: u16)
        ensures
            final(self).col == col,
            final(self).row == row,
            final(self).cursor() == old(self).cursor(),
            final(self).theme == old(self).theme,
    {
        self.col = col;
        self.row = row;
    }

    /// Puts `theme` in the place of the theme in use.
    pub fn set_theme(&mut self, theme: Theme)
        ensures
            final(self).theme == theme,
            final(self).col == old(self).col,
            final(self).row == old(self).row,
            final(self).cursor() == old(self).cursor(),
    {
        self.theme = theme;
    }

    /// Whether the cursor stands in the document: on one of its rows, and on
    /// a column of that row or just past its last character.
    pub fn within(&self, file: &File) -> (within: bool)
        ensures
            within == self.cursor().within(file@),
    {
        self.center_y < file.get_content().len() && self.center_x <= file.line_len(self.center_y)
    }

    /// Moves the cursor one column to the left; at column zero it stays.
    pub fn left(&mut self)
        ensures
            final(self).cursor() == old(self).cursor().left(),
            final(self).screen() == old(self).screen(),
            forall|lines: Seq<Seq<char>>| #[trigger]
                old(self).cursor().within(lines) ==> final(self).cursor().within(lines),
    {
        if self.center_x != 0 {
            self.center_x -= 1;
        }
    }

    /// Moves the cursor one column to the right; at the end of its row it
    /// stays.
    pub fn right(&mut self, file: &File)
        requires
            old(self).cursor().within(file@),
        ensures
            final(self).cursor() == old(self).cursor().right(file@),
            final(self).cursor().within(file@),
            final(self).screen() == old(self).screen(),
    {
        if self.center_x < file.line_len(self.center_y) {
            self.center_x += 1;
        }
    }

    /// Moves the cursor one row up, and back to the end of that row where
    /// the row is shorter; on the first row it stays.
    pub fn up(&mut self, file: &File)
        requires
            old(self).cursor().within(file@),
        ensures
            final(self).cursor() == old(self).cursor().up(file@),
            final(self).cursor().within(file@),
            final(self).screen() == old(self).screen(),
    {
        if self.center_y != 0 {
            self.center_y -= 1;
            self.clamp(file);
        }
    }

    /// Moves the cursor one row down, and back to the end of that row where
    /// the row is shorter; on the last row it stays.
    pub fn down(&mut self, file: &File)
        requires
            old(self).cursor().within(file@),
        ensures
            final(self).cursor() == old(self).cursor().down(file@),
            final(self).cursor().within(file@),
            final(self).screen() == old(self).screen(),
    {
        if self.center_y < file.get_content().len() - 1 {
            self.center_y += 1;
            self.clamp(file);
        }
    }

    /// Moves the cursor to the start of its row.
    pub fn start_line(&mut self)
        ensures
            final(self).cursor() == old(self).cursor().start_line(),
            final(self).screen() == old(self).screen(),
            forall|lines: Seq<Seq<char>>| #[trigger]
                old(self).cursor().within(lines) ==> final(self).cursor().within(lines),
    {
        self.center_x = 0;
    }

    /// Moves the cursor to the end of its row, just past the last character.
    pub fn end_line(&mut self, file: &File)
        requires
            old(self).center_y < file@.len(),
        ensures
            final(self).cursor() == old(self).cursor().end_line(file@),
            final(self).cursor().within(file@),
            final(self).screen() == old(self).screen(),
    {
        self.center_x = file.line_len(self.center_y);
    }

    /// Moves the cursor to the start of the document.
    pub fn start_file(&mut self)
        ensures
            final(self).cursor() == Cursor::start_file(),
            final(self).screen() == old(self).screen(),
            forall|lines: Seq<Seq<char>>| #[trigger]
                old(self).cursor().within(lines) ==> final(self).cursor().within(lines),
    {
        self.center_x = 0;
        self.center_y = 0;
    }

    /// Moves the cursor to the end of the document: the end of its last row.
    pub fn end_file(&mut self, file: &File)
        requires
            file@.len() >= 1,
        ensures
            final(self).cursor() == Cursor::end_file(file@),
            final(self).cursor().within(file@),
            final(self).screen() == old(self).screen(),
    {
        self.center_y = file.get_content().len() - 1;
        self.center_x = file.line_len(self.center_y);
    }

    /// The cells of row `r` of the screen, from left to right.
    pub fn row(&self, cmd_handle: &Cmd, file_handle: &File, r: u16) -> (cells: Vec<Cell>)
        requires
            self.cursor().within(file_handle@),
            r < self.row,
        ensures
            cells@ == self.row_cells(
                file_handle@,
                file_handle.path_view(),
                cmd_handle@.buffer,
                r as int,
            ),
    {
        let code_rows: u16 = self.code_rows();
        if r == 0 {
            self.header_cells(file_handle)
        } else if r == 1 {
            self.ruler_cells(file_handle)
        } else if r - 2 < code_rows {
            self.code_cells(file_handle, r - 2)
        } else if r - 2 == code_rows {
            self.status_cells()
        } else {
            self.command_cells(cmd_handle.buffer())
        }
    }

    /// Lays out one frame and returns the commands that paint it: the screen
    /// is cleared, every row is painted from the top with a change of
    /// colours wherever the part of the screen changes, and the terminal's
    /// cursor is left at the top left. The cursor must stand in the
    /// document.
    pub fn print(&self, cmd_handle: &Cmd, file_handle: &File) -> (paints: Vec<Paint>)
        requires
            self.cursor().within(file_handle@),
        ensures
            paints.deep_view() == self.frame(
                file_handle@,
                file_handle.path_view(),
                cmd_handle@.buffer,
            ),
    {
        let mut paints: Vec<Paint> = Vec::new();
        emit(&mut paints, Paint::Clear);
        let mut r: u16 = 0;
        while r < self.row
            invariant
                r <= self.row,
                self.cursor().within(file_handle@),
                paints.deep_view() == seq![PaintView::Clear] + self.rows_paint(
                    file_handle@,
                    file_handle.path_view(),
                    cmd_handle@.buffer,
                    r as int,
                ),
            decreases self.row - r,
        {
            let cells = self.row(cmd_handle, file_handle, r);
            paint_row(&self.theme, r, &cells, &mut paints);
            r += 1;
        }
        emit(&mut paints, Paint::MoveTo(0, 0));
        paints
    }

    /// Brings the cursor back to the end of its row where it stands past it.
    pub fn clamp(&mut self, file: &File)
        requires
            old(self).center_y < file@.len(),
        ensures
            final(self).cursor() == old(self).cursor().clamped(file@),
            final(self).cursor().within(file@),
            final(self).screen() == old(self).screen(),
    {
        let n: usize = file.line_len(self.center_y);
        if self.center_x > n {
            self.center_x = n;
        }
    }
}

} // verus!
