//! An editing session: the interpreter, the viewport and the document
//! together, and what each event from the terminal does to them.

use vstd::prelude::*;
use crate::cmd::state;
use crate::cmd::Cmd;
use crate::cmd::CmdView;
use crate::cmd::State;
use crate::display::Cursor;
use crate::display::Display;
use crate::display::Theme;
use crate::file::loaded;
use crate::file::File;
use crate::paint::Paint;
use crate::paint::PaintView;

verus! {

/// What the terminal reports.
#[derive(Clone, Copy, Debug, PartialEq, Eq, Structural)]
pub enum Event {
    /// A key that types a character.
    Key(char),
    /// The backspace key.
    Backspace,
    /// The terminal has a new size, in columns and rows.
    Resize(u16, u16),
    /// Anything else.
    Other,
}

impl Event {
    /// The key that the event hands to the interpreter, if any: the
    /// character typed, or the backspace character for the backspace key.
    pub open spec fn key(self) -> Option<char> {
        match self {
            Event::Key(key) => Some(key),
            Event::Backspace => Some('\u{8}'),
            _ => None,
        }
    }
}

/// An editing session.
pub struct Session {
    pub cmd: Cmd,
    pub display: Display,
    pub file: File,
}

impl Session {
    /// Whether the document has a line and the cursor stands in it.
    pub open spec fn wf(&self) -> bool {
        self.display.cursor().within(self.file@)
    }

    /// Everything that a key can change, as mathematics.
    pub open spec fn state(&self) -> State {
        state(self.cmd@, self.display, self.file@)
    }

    /// The commands that paint the session's frame.
    pub open spec fn frame(&self) -> Seq<PaintView> {
        self.display.frame(self.file@, self.file.path_view(), self.cmd@.buffer)
    }

    /// Begins a session on the file named by `path`, whose text is `source`
    /// (`None` where no path was given or nothing exists at the path), in a
    /// terminal of `col` columns and `row` rows. The cursor is at the start
    /// of the document, the theme is the light one, and the interpreter
    /// awaits its first key.
    pub fn open(path: Option<String>, source: Option<&str>, col: u16, row: u16) -> (session: Self)
        ensures
            session.wf(),
            session.cmd@ == CmdView::start(),
            session.cmd@.wf(),
            session.display.col == col,
            session.display.row == row,
            session.display.cursor() == Cursor::start_file(),
            session.display.theme == Theme::one_light(),
            session.file.path == path,
            session.file.wf(),
            session.file@ == loaded(
                match source {
                    Some(text) => Some(text@),
                    None => None,
                },
            ),
    {
        let mut display = Display::new();
        display.resize(col, row);
        let mut file = File::new(path);
        file.read(source);
        Session { cmd: Cmd::new(), display, file }
    }

    /// The commands that paint the session's frame.
    pub fn paint(&self) -> (paints: Vec<Paint>)
        requires
            self.wf(),
        ensures
            paints.deep_view() == self.frame(),
    {
        self.display.print(&self.cmd, &self.file)
    }

    /// Takes one event and says what to do next: `None` to end the session,
    /// or the commands that paint the next frame.
    ///
    /// A key goes to the interpreter, the backspace key as the backspace
    /// character; the session ends exactly when the key completes the
    /// command to quit. A new size is taken over by the viewport. Any other
    /// event changes nothing. Unless the session ends, the frame is painted
    /// anew after every event.
    pub fn handle(&mut self, event: Event) -> (paints: Option<Vec<Paint>>)
        requires
            old(self).wf(),
        ensures
            final(self).wf(),
            final(self).file.path == old(self).file.path,
            old(self).cmd@.wf() ==> final(self).cmd@.wf(),
            old(self).file.wf() ==> final(self).file.wf(),
            match event.key() {
                Some(key) => {
                    &&& final(self).state() == old(self).state().step(key)
                    &&& final(self).display.col == old(self).display.col
                    &&& final(self).display.row == old(self).display.row
                    &&& paints is None <==> old(self).state().quits(key)
                },
                None => {
                    &&& final(self).state() == old(self).state()
                    &&& final(self).cmd == old(self).cmd
                    &&& final(self).file == old(self).file
                    &&& paints is Some
                    &&& match event {
                        Event::Resize(col, row) => {
                            &&& final(self).display.col == col
                            &&& final(self).display.row == row
                        },
                        _ => final(self).display == old(self).display,
                    }
                },
            },
            match paints {
                Some(paints) => paints.deep_view() == final(self).frame(),
                None => true,
            },
    {
        let go_on = match event {
            Event::Key(key) => self.cmd.key(key, &mut self.display, &mut self.file),
            Event::Backspace => self.cmd.key('\u{8}', &mut self.display, &mut self.file),
            Event::Resize(col, row) => {
                self.display.resize(col, row);
                true
            },
            Event::Other => true,
        };
        if go_on {
            Some(self.paint())
        } else {
            None
        }
    }
}

} // verus!
