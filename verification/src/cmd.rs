//! The interpreter of typed keys.
//!
//! Keys arrive one at a time. In the default mode they spell commands: the
//! keys typed so far are kept while some command begins with them, and a
//! command runs as soon as it is spelled out. In append mode they are text
//! for the document, and in replace mode the next key replaces a character.
//!
//! What a key does is specified by `State::step`, a function from the state
//! before the key to the state after it; `Cmd::key` computes it.

use vstd::prelude::*;
use vstd::string::StringExecFns;
use crate::display::Cursor;
use crate::display::Display;
use crate::display::Theme;
use crate::file::deleted;
use crate::file::inserted;
use crate::file::edits_keep_single_lines;
use crate::file::replaced;
use crate::file::single_lines;
use crate::file::split;
use crate::file::File;
use crate::text::push_char;
use crate::text::same_text;
use crate::text::starts_with;

verus! {

/// How the interpreter reads the next key.
#[derive(Clone, Copy, Debug, PartialEq, Eq, Structural)]
pub enum Mode {
    /// Keys are text that goes into the document at the cursor.
    Append,
    /// Keys spell commands.
    Default,
    /// The next key replaces the character at the cursor.
    Replace,
}

/// The commands of the editor.
#[derive(Clone, Copy, Debug, PartialEq, Eq, Structural)]
pub enum Command {
    /// Enter append mode at the cursor.
    Append,
    /// Delete the character at the cursor and step left.
    BackspaceLeft,
    /// Delete the character at the cursor and stay.
    BackspaceRight,
    /// Move the cursor one row down.
    CenterDown,
    /// Move the cursor to the end of the document.
    CenterEndFile,
    /// Move the cursor to the end of its row.
    CenterEndLine,
    /// Move the cursor one column left.
    CenterLeft,
    /// Move the cursor one column right.
    CenterRight,
    /// Move the cursor to the start of the document.
    CenterStartFile,
    /// Move the cursor to the start of its row.
    CenterStartLine,
    /// Move the cursor one row up.
    CenterUp,
    /// Split the cursor's row at the cursor.
    Newline,
    /// Leave the editor.
    Quit,
    /// Enter replace mode at the cursor.
    Replace,
    /// Switch to the dark theme.
    ThemeOneDark,
    /// Switch to the light theme.
    ThemeOneLight,
}

impl Command {
    /// The keys that spell the command, in the order in which they are
    /// typed.
    pub open spec fn keys(self) -> Seq<char> {
        match self {
            Command::Append => "a"@,
            Command::BackspaceLeft => "b"@,
            Command::BackspaceRight => "B"@,
            Command::CenterDown => "j"@,
            Command::CenterEndFile => "J"@,
            Command::CenterEndLine => "K"@,
            Command::CenterLeft => "h"@,
            Command::CenterRight => "k"@,
            Command::CenterStartFile => "I"@,
            Command::CenterStartLine => "H"@,
            Command::CenterUp => "i"@,
            Command::Newline => "n"@,
            Command::Quit => "q"@,
            Command::Replace => "r"@,
            Command::ThemeOneDark => "t:one_dark"@,
            Command::ThemeOneLight => "t:one_light"@,
        }
    }

    /// The command that `keys` spell, if they spell one.
    pub open spec fn parse(keys: Seq<char>) -> Option<Command> {
        if keys == Command::Append.keys() {
            Some(Command::Append)
        } else if keys == Command::BackspaceLeft.keys() {
            Some(Command::BackspaceLeft)
        } else if keys == Command::BackspaceRight.keys() {
            Some(Command::BackspaceRight)
        } else if keys == Command::CenterDown.keys() {
            Some(Command::CenterDown)
        } else if keys == Command::CenterEndFile.keys() {
            Some(Command::CenterEndFile)
        } else if keys == Command::CenterEndLine.keys() {
            Some(Command::CenterEndLine)
        } else if keys == Command::CenterLeft.keys() {
            Some(Command::CenterLeft)
        } else if keys == Command::CenterRight.keys() {
            Some(Command::CenterRight)
        } else if keys == Command::CenterStartFile.keys() {
            Some(Command::CenterStartFile)
        } else if keys == Command::CenterStartLine.keys() {
            Some(Command::CenterStartLine)
        } else if keys == Command::CenterUp.keys() {
            Some(Command::CenterUp)
        } else if keys == Command::Newline.keys() {
            Some(Command::Newline)
        } else if keys == Command::Quit.keys() {
            Some(Command::Quit)
        } else if keys == Command::Replace.keys() {
            Some(Command::Replace)
        } else if keys == Command::ThemeOneDark.keys() {
            Some(Command::ThemeOneDark)
        } else if keys == Command::ThemeOneLight.keys() {
            Some(Command::ThemeOneLight)
        } else {
            None
        }
    }

    /// Whether some command begins with `keys`.
    pub open spec fn begins(keys: Seq<char>) -> bool {
        exists|command: Command| keys.is_prefix_of(#[trigger] command.keys())
    }

    /// The keys that spell the command.
    pub fn name(&self) -> (name: &'static str)
        ensures
            name@ == self.keys(),
    {
        match self {
            Command::Append => "a",
            Command::BackspaceLeft => "b",
            Command::BackspaceRight => "B",
            Command::CenterDown => "j",
            Command::CenterEndFile => "J",
            Command::CenterEndLine => "K",
            Command::CenterLeft => "h",
            Command::CenterRight => "k",
            Command::CenterStartFile => "I",
            Command::CenterStartLine => "H",
            Command::CenterUp => "i",
            Command::Newline => "n",
            Command::Quit => "q",
            Command::Replace => "r",
            Command::ThemeOneDark => "t:one_dark",
            Command::ThemeOneLight => "t:one_light",
        }
    }
}

/// The interpreter's own state as mathematics.
pub struct CmdView {
    /// How the next key is read.
    pub mode: Mode,
    /// The keys typed towards a command that is not yet spelled out.
    pub buffer: Seq<char>,
    /// The text typed since append mode was entered.
    pub typed: Seq<char>,
    /// Every command and every text accepted so far, in order.
    pub history: Seq<char>,
}

impl CmdView {
    /// The interpreter before any key: in the default mode, with nothing
    /// typed and nothing accepted.
    pub open spec fn start() -> CmdView {
        CmdView {
            mode: Mode::Default,
            buffer: Seq::empty(),
            typed: Seq::empty(),
            history: Seq::empty(),
        }
    }

    /// What holds of the interpreter between keys: the buffer is the
    /// beginning of some command and not a whole one, it is empty outside the
    /// default mode, and typed text is kept only in append mode.
    pub open spec fn wf(self) -> bool {
        &&& Command::begins(self.buffer)
        &&& Command::parse(self.buffer) is None
        &&& self.mode != Mode::Default ==> self.buffer.len() == 0
        &&& self.mode != Mode::Append ==> self.typed.len() == 0
    }
}

/// Everything that a key can change, as mathematics: the interpreter, the
/// document, the cursor and the theme.
pub struct State {
    pub cmd: CmdView,
    pub lines: Seq<Seq<char>>,
    pub cursor: Cursor,
    pub theme: Theme,
}

/// The state that an interpreter, a viewport and a document make up.
pub open spec fn state(cmd: CmdView, display: Display, lines: Seq<Seq<char>>) -> State {
    State { cmd, lines, cursor: display.cursor(), theme: display.theme }
}

impl State {
    /// Whether the document has a line and the cursor stands in it.
    pub open spec fn valid(self) -> bool {
        self.cursor.within(self.lines)
    }

    /// The state in which `keys` have been accepted: they are added to the
    /// history, and the buffer is empty.
    pub open spec fn accept(self, keys: Seq<char>) -> State {
        State {
            cmd: CmdView { buffer: Seq::empty(), history: self.cmd.history + keys, ..self.cmd },
            ..self
        }
    }

    /// The state in which the buffer holds `keys`.
    pub open spec fn hold(self, keys: Seq<char>) -> State {
        State { cmd: CmdView { buffer: keys, ..self.cmd }, ..self }
    }

    /// The state after `command` has run.
    pub open spec fn run(self, command: Command) -> State {
        let x = self.cursor.x;
        let y = self.cursor.y;
        match command {
            Command::Append => State {
                cmd: CmdView { mode: Mode::Append, ..self.cmd },
                lines: inserted(self.lines, y, x, ' '),
                ..self
            },
            Command::BackspaceLeft => State {
                lines: deleted(self.lines, y, x),
                cursor: self.cursor.left(),
                ..self
            },
            Command::BackspaceRight => State {
                lines: deleted(self.lines, y, x),
                cursor: self.cursor.clamped(deleted(self.lines, y, x)),
                ..self
            },
            Command::CenterDown => State { cursor: self.cursor.down(self.lines), ..self },
            Command::CenterEndFile => State { cursor: Cursor::end_file(self.lines), ..self },
            Command::CenterEndLine => State { cursor: self.cursor.end_line(self.lines), ..self },
            Command::CenterLeft => State { cursor: self.cursor.left(), ..self },
            Command::CenterRight => State { cursor: self.cursor.right(self.lines), ..self },
            Command::CenterStartFile => State { cursor: Cursor::start_file(), ..self },
            Command::CenterStartLine => State { cursor: self.cursor.start_line(), ..self },
            Command::CenterUp => State { cursor: self.cursor.up(self.lines), ..self },
            Command::Newline => State {
                lines: split(self.lines, y, x),
                cursor: Cursor { x: 0, y: y + 1 },
                ..self
            },
            Command::Quit => self,
            Command::Replace => State {
                cmd: CmdView { mode: Mode::Replace, ..self.cmd },
                lines: replaced(self.lines, y, x, ' '),
                ..self
            },
            Command::ThemeOneDark => State { theme: Theme::one_dark(), ..self },
            Command::ThemeOneLight => State { theme: Theme::one_light(), ..self },
        }
    }

    /// The state after `key` in the default mode. A line feed empties the
    /// buffer. Any other key is added to the buffer: if the buffer then
    /// spells a command, its keys are accepted and the command runs; if some
    /// command begins with it, it is kept; otherwise it is dropped.
    pub open spec fn step_default(self, key: char) -> State {
        let candidate = self.cmd.buffer.push(key);
        if key == '\n' {
            self.hold(Seq::empty())
        } else {
            match Command::parse(candidate) {
                Some(command) => self.accept(candidate).run(command),
                None => if Command::begins(candidate) {
                    self.hold(candidate)
                } else {
                    self.hold(Seq::empty())
                },
            }
        }
    }

    /// The state after `key` in append mode. A line feed ends the mode: the
    /// blank that held the place of the text is deleted, and the text typed
    /// in this mode, with the line feed, is accepted. Any other key goes
    /// into the document at the cursor, which moves right.
    pub open spec fn step_append(self, key: char) -> State {
        if key == '\n' {
            State {
                cmd: CmdView {
                    mode: Mode::Default,
                    typed: Seq::empty(),
                    history: self.cmd.history + self.cmd.typed.push(key),
                    ..self.cmd
                },
                lines: deleted(self.lines, self.cursor.y, self.cursor.x),
                ..self
            }
        } else {
            State {
                cmd: CmdView { typed: self.cmd.typed.push(key), ..self.cmd },
                lines: inserted(self.lines, self.cursor.y, self.cursor.x, key),
                cursor: Cursor { x: self.cursor.x + 1, y: self.cursor.y },
                ..self
            }
        }
    }

    /// The state after `key` in replace mode. A line feed gives up the
    /// replacement and deletes the character at the cursor; any other key
    /// takes its place. Either way the key is accepted and the default mode
    /// returns.
    pub open spec fn step_replace(self, key: char) -> State {
        State {
            cmd: CmdView {
                mode: Mode::Default,
                history: self.cmd.history.push(key),
                ..self.cmd
            },
            lines: if key == '\n' {
                deleted(self.lines, self.cursor.y, self.cursor.x)
            } else {
                replaced(self.lines, self.cursor.y, self.cursor.x, key)
            },
            ..self
        }
    }

    /// The state after `key`.
    pub open spec fn step(self, key: char) -> State {
        match self.cmd.mode {
            Mode::Append => self.step_append(key),
            Mode::Default => self.step_default(key),
            Mode::Replace => self.step_replace(key),
        }
    }

    /// Whether `key` completes the command to quit.
    pub open spec fn quits(self, key: char) -> bool {
        self.cmd.mode == Mode::Default && key != '\n' && Command::parse(self.cmd.buffer.push(key))
            == Some(Command::Quit)
    }

    /// What `key` adds to the history: the keys of the command it completes,
    /// the text that it ends, or the key itself in replace mode; nothing
    /// where the key is kept or dropped.
    pub open spec fn accepted(self, key: char) -> Seq<char> {
        match self.cmd.mode {
            Mode::Append => if key == '\n' {
                self.cmd.typed.push(key)
            } else {
                Seq::empty()
            },
            Mode::Default => if key != '\n' && Command::parse(self.cmd.buffer.push(key)) is Some {
                self.cmd.buffer.push(key)
            } else {
                Seq::empty()
            },
            Mode::Replace => seq![key],
        }
    }

    /// Whether the interpreter awaits a command with no key typed towards
    /// one.
    pub open spec fn idle(self) -> bool {
        self.cmd.mode == Mode::Default && self.cmd.buffer.len() == 0
    }

    /// Whether `other` shows what this state shows: the same document, the
    /// same cursor and the same theme.
    pub open spec fn looks_like(self, other: State) -> bool {
        self.lines == other.lines && self.cursor == other.cursor && self.theme == other.theme
    }

    /// The state after the keys of `keys`, one after the other.
    pub open spec fn after(self, keys: Seq<char>) -> State
        decreases keys.len(),
    {
        if keys.len() == 0 {
            self
        } else {
            self.after(keys.drop_last()).step(keys.last())
        }
    }

    /// What the keys of `keys` add to the history, one after the other.
    pub open spec fn accepted_during(self, keys: Seq<char>) -> Seq<char>
        decreases keys.len(),
    {
        if keys.len() == 0 {
            Seq::empty()
        } else {
            self.accepted_during(keys.drop_last()) + self.after(keys.drop_last()).accepted(
                keys.last(),
            )
        }
    }
}

/// The interpreter: its mode, the keys typed towards a command, the text
/// typed in append mode, and the history of what was accepted.
#[derive(Debug, PartialEq, Eq)]
pub struct Cmd {
    history: String,
    buffer: String,
    typed: String,
    mode: Mode,
}

impl View for Cmd {
    type V = CmdView;

    closed spec fn view(&self) -> CmdView {
        CmdView {
            mode: self.mode,
            buffer: self.buffer@,
            typed: self.typed@,
            history: self.history@,
        }
    }
}

impl Cmd {
    /// An interpreter before any key.
    pub fn new() -> (cmd: Self)
        ensures
            cmd@ == CmdView::start(),
            cmd@.wf(),
    {
        proof {
            start_is_wf();
        }
        Self {
            history: String::new(),
            buffer: String::new(),
            typed: String::new(),
            mode: Mode::Default,
        }
    }

    /// How the next key is read.
    pub fn mode(&self) -> (mode: Mode)
        ensures
            mode == self@.mode,
    {
        self.mode
    }

    /// The keys typed towards a command that is not yet spelled out.
    pub fn buffer(&self) -> (buffer: &str)
        ensures
            buffer@ == self@.buffer,
    {
        self.buffer.as_str()
    }

    /// The text typed since append mode was entered.
    pub fn typed(&self) -> (typed: &str)
        ensures
            typed@ == self@.typed,
    {
        self.typed.as_str()
    }

    /// Every command and every text accepted so far, in order.
    pub fn history(&self) -> (history: &str)
        ensures
            history@ == self@.history,
    {
        self.history.as_str()
    }

    /// Tries `key` as the next key of what `cmd_msg` spells. Where `cmd_msg`
    /// begins with the buffer followed by `key`, the key is taken: if that
    /// is the whole of `cmd_msg`, it is accepted (added to the history, and
    /// the buffer emptied) and the result is `true`; if more keys are to
    /// come, the key is kept in the buffer. Otherwise nothing changes.
    ///
    /// The interpreter stays as it is meant to be between keys where it
    /// awaits a command and `cmd_msg` spells one.
    pub fn check(&mut self, cmd_msg: &str, key: char) -> (accepted: bool)
        ensures
            accepted == (old(self)@.buffer.push(key) == cmd_msg@),
            accepted ==> final(self)@ == (CmdView {
                buffer: Seq::empty(),
                history: old(self)@.history + cmd_msg@,
                ..old(self)@
            }),
            !accepted && old(self)@.buffer.push(key).is_prefix_of(cmd_msg@) ==> final(self)@ == (
            CmdView { buffer: old(self)@.buffer.push(key), ..old(self)@ }),
            !accepted && !old(self)@.buffer.push(key).is_prefix_of(cmd_msg@) ==> final(self)@
                == old(self)@,
            old(self)@.wf() && old(self)@.mode == Mode::Default && Command::parse(cmd_msg@) is Some
                ==> final(self)@.wf(),
    {
        proof {
            checked_keeps_wf(self@, cmd_msg@, key);
        }
        let mut start = self.buffer.clone();
        push_char(&mut start, key);
        if starts_with(cmd_msg, start.as_str()) {
            if same_text(cmd_msg, start.as_str()) {
                self.history.append(start.as_str());
                self.buffer = String::new();
                return true;
            }
            self.buffer = start;
        }
        false
    }

    /// Takes one key. The key is read in the interpreter's mode and may
    /// change the interpreter, the cursor and theme of `display_handle`, and
    /// the document of `file_handle`. Returns whether the editor goes on:
    /// `false` exactly when the key completes the command to quit.
    pub fn key(&mut self, key: char, display_handle: &mut Display, file_handle: &mut File) -> (go_on:
        bool)
        requires
            old(display_handle).cursor().within(old(file_handle)@),
        ensures
            state(final(self)@, *final(display_handle), final(file_handle)@) == state(
                old(self)@,
                *old(display_handle),
                old(file_handle)@,
            ).step(key),
            go_on == !state(old(self)@, *old(display_handle), old(file_handle)@).quits(key),
            final(file_handle)@.len() >= 1,
            final(display_handle).cursor().within(final(file_handle)@),
            old(file_handle).wf() ==> final(file_handle).wf(),
            final(display_handle).col == old(display_handle).col,
            final(display_handle).row == old(display_handle).row,
            final(file_handle).path == old(file_handle).path,
            old(self)@.wf() ==> final(self)@.wf(),
    {
        let ghost before = state(self@, *display_handle, file_handle@);
        proof {
            step_keeps_valid(before, key);
            if single_lines(before.lines) {
                step_keeps_single_lines(before, key);
            }
            if self@.wf() {
                step_keeps_wf(before, key);
            }
        }
        let x: usize = display_handle.center_x;
        let y: usize = display_handle.center_y;
        match self.mode {
            Mode::Append => {
                if key == '\n' {
                    file_handle.delete_char(y, x);
                    push_char(&mut self.typed, key);
                    self.history.append(self.typed.as_str());
                    self.typed = String::new();
                    self.mode = Mode::Default;
                } else {
                    file_handle.insert_char(y, x, key);
                    display_handle.right(file_handle);
                    push_char(&mut self.typed, key);
                }
            },
            Mode::Default => {
                // Each command is tried in turn. A command that begins with
                // the keys typed keeps the key, and none after it takes the
                // key again, since no command has a key twice in a row.
                let typed: usize = self.buffer.as_str().unicode_len();
                proof {
                    keys_are_known();
                    kept_by_a_theme(self@.buffer.push(key));
                }
                if key == '\n' {
                    self.buffer = String::new();
                } else if self.check(Command::Append.name(), key) {
                    file_handle.insert_char(y, x, ' ');
                    self.mode = Mode::Append;
                } else if self.check(Command::BackspaceLeft.name(), key) {
                    file_handle.delete_char(y, x);
                    display_handle.left();
                } else if self.check(Command::BackspaceRight.name(), key) {
                    file_handle.delete_char(y, x);
                    display_handle.clamp(file_handle);
                } else if self.check(Command::CenterDown.name(), key) {
                    display_handle.down(file_handle);
                } else if self.check(Command::CenterEndFile.name(), key) {
                    display_handle.end_file(file_handle);
                } else if self.check(Command::CenterEndLine.name(), key) {
                    display_handle.end_line(file_handle);
                } else if self.check(Command::CenterLeft.name(), key) {
                    display_handle.left();
                } else if self.check(Command::CenterRight.name(), key) {
                    display_handle.right(file_handle);
                } else if self.check(Command::CenterStartFile.name(), key) {
                    display_handle.start_file();
                } else if self.check(Command::CenterStartLine.name(), key) {
                    display_handle.start_line();
                } else if self.check(Command::CenterUp.name(), key) {
                    display_handle.up(file_handle);
                } else if self.check(Command::Newline.name(), key) {
                    assert(y < file_handle.content.len());
                    file_handle.split_line(y, x);
                    display_handle.center_x = 0;
                    display_handle.center_y += 1;
                } else if self.check(Command::Quit.name(), key) {
                    return false;
                } else if self.check(Command::Replace.name(), key) {
                    file_handle.replace_char(y, x, ' ');
                    self.mode = Mode::Replace;
                } else if self.check(Command::ThemeOneDark.name(), key) {
                    display_handle.set_theme(Theme::one_dark());
                } else if self.check(Command::ThemeOneLight.name(), key) {
                    display_handle.set_theme(Theme::one_light());
                } else if self.buffer.as_str().unicode_len() == typed {
                    // No command kept the key: what was typed begins none.
                    self.buffer = String::new();
                }
            },
            Mode::Replace => {
                if key == '\n' {
                    file_handle.delete_char(y, x);
                } else {
                    file_handle.replace_char(y, x, key);
                }
                push_char(&mut self.history, key);
                self.mode = Mode::Default;
            },
        }
        true
    }
}

/// What `Cmd::check` leaves of an interpreter that awaits a command is as
/// it is meant to be between keys, where what was checked spells a command.
pub proof fn checked_keeps_wf(v: CmdView, cmd_msg: Seq<char>, key: char)
    ensures
        v.wf() && v.mode == Mode::Default && Command::parse(cmd_msg) is Some ==> {
            &&& (CmdView { buffer: Seq::empty(), history: v.history + cmd_msg, ..v }).wf()
            &&& v.buffer.push(key) != cmd_msg && v.buffer.push(key).is_prefix_of(cmd_msg) ==> (
            CmdView { buffer: v.buffer.push(key), ..v }).wf()
        },
{
    empty_is_kept();
    let candidate = v.buffer.push(key);
    if v.wf() && v.mode == Mode::Default && candidate != cmd_msg && candidate.is_prefix_of(cmd_msg) {
        if let Some(command) = Command::parse(cmd_msg) {
            keys_of_parse(cmd_msg);
            assert(candidate.is_prefix_of(command.keys()));
            keys_of_parse(candidate);
            if let Some(other) = Command::parse(candidate) {
                no_command_begins_another(other, command);
            }
        }
    }
}

/// No command has the same key twice in a row.
pub proof fn no_key_twice_in_a_row(command: Command, i: int)
    requires
        0 < i < command.keys().len(),
    ensures
        command.keys()[i] != command.keys()[i - 1],
{
    keys_are_known();
}

/// Keys that are not a whole command are the beginning of one only if a
/// command to change the theme begins with them; and then no such command
/// begins with them and their last key once more.
pub proof fn kept_by_a_theme(keys: Seq<char>)
    requires
        keys.len() > 0,
    ensures
        Command::parse(keys) is None ==> (Command::begins(keys) <==> keys.is_prefix_of(
            Command::ThemeOneDark.keys(),
        ) || keys.is_prefix_of(Command::ThemeOneLight.keys())),
        Command::begins(keys) ==> !keys.push(keys.last()).is_prefix_of(
            Command::ThemeOneDark.keys(),
        ) && !keys.push(keys.last()).is_prefix_of(Command::ThemeOneLight.keys()),
{
    keys_are_known();
    let dark = Command::ThemeOneDark.keys();
    let light = Command::ThemeOneLight.keys();
    let twice = keys.push(keys.last());
    let n = keys.len() as int;
    if twice.is_prefix_of(dark) {
        assert(twice[n] == dark.subrange(0, n + 1)[n]);
        assert(twice[n - 1] == dark.subrange(0, n + 1)[n - 1]);
        no_key_twice_in_a_row(Command::ThemeOneDark, n);
    }
    if twice.is_prefix_of(light) {
        assert(twice[n] == light.subrange(0, n + 1)[n]);
        assert(twice[n - 1] == light.subrange(0, n + 1)[n - 1]);
        no_key_twice_in_a_row(Command::ThemeOneLight, n);
    }
    if Command::parse(keys) is None {
        keys_of_parse(keys);
        if Command::begins(keys) {
            let command = choose|command: Command| keys.is_prefix_of(#[trigger] command.keys());
            if command != Command::ThemeOneDark && command != Command::ThemeOneLight {
                assert(command.keys().len() == 1);
                assert(keys =~= command.keys());
            }
        }
    }
}

/// The empty buffer is the beginning of a command and spells none.
pub proof fn empty_is_kept()
    ensures
        Command::begins(Seq::empty()),
        Command::parse(Seq::empty()) is None,
{
    assert(Seq::<char>::empty().is_prefix_of(Command::Append.keys()));
    keys_are_known();
}

/// The keys of every command, character by character.
pub proof fn keys_are_known()
    ensures
        Command::Append.keys() == seq!['a'],
        Command::BackspaceLeft.keys() == seq!['b'],
        Command::BackspaceRight.keys() == seq!['B'],
        Command::CenterDown.keys() == seq!['j'],
        Command::CenterEndFile.keys() == seq!['J'],
        Command::CenterEndLine.keys() == seq!['K'],
        Command::CenterLeft.keys() == seq!['h'],
        Command::CenterRight.keys() == seq!['k'],
        Command::CenterStartFile.keys() == seq!['I'],
        Command::CenterStartLine.keys() == seq!['H'],
        Command::CenterUp.keys() == seq!['i'],
        Command::Newline.keys() == seq!['n'],
        Command::Quit.keys() == seq!['q'],
        Command::Replace.keys() == seq!['r'],
        Command::ThemeOneDark.keys() == seq!['t', ':', 'o', 'n', 'e', '_', 'd', 'a', 'r', 'k'],
        Command::ThemeOneLight.keys() == seq!['t', ':', 'o', 'n', 'e', '_', 'l', 'i', 'g', 'h', 't'],
{
    reveal_strlit("a");
    reveal_strlit("b");
    reveal_strlit("B");
    reveal_strlit("j");
    reveal_strlit("J");
    reveal_strlit("K");
    reveal_strlit("h");
    reveal_strlit("k");
    reveal_strlit("I");
    reveal_strlit("H");
    reveal_strlit("i");
    reveal_strlit("n");
    reveal_strlit("q");
    reveal_strlit("r");
    reveal_strlit("t:one_dark");
    reveal_strlit("t:one_light");
    assert(Command::Append.keys() =~= seq!['a']);
    assert(Command::BackspaceLeft.keys() =~= seq!['b']);
    assert(Command::BackspaceRight.keys() =~= seq!['B']);
    assert(Command::CenterDown.keys() =~= seq!['j']);
    assert(Command::CenterEndFile.keys() =~= seq!['J']);
    assert(Command::CenterEndLine.keys() =~= seq!['K']);
    assert(Command::CenterLeft.keys() =~= seq!['h']);
    assert(Command::CenterRight.keys() =~= seq!['k']);
    assert(Command::CenterStartFile.keys() =~= seq!['I']);
    assert(Command::CenterStartLine.keys() =~= seq!['H']);
    assert(Command::CenterUp.keys() =~= seq!['i']);
    assert(Command::Newline.keys() =~= seq!['n']);
    assert(Command::Quit.keys() =~= seq!['q']);
    assert(Command::Replace.keys() =~= seq!['r']);
    assert(Command::ThemeOneDark.keys() =~= seq!['t', ':', 'o', 'n', 'e', '_', 'd', 'a', 'r', 'k']);
    assert(Command::ThemeOneLight.keys() =~= seq![
        't',
        ':',
        'o',
        'n',
        'e',
        '_',
        'l',
        'i',
        'g',
        'h',
        't',
    ]);
}

/// A key leaves the document with a line and the cursor in it.
pub proof fn step_keeps_valid(s: State, key: char)
    requires
        s.valid(),
    ensures
        s.step(key).valid(),
{
}

/// A key leaves every line of the document without a line feed.
pub proof fn step_keeps_single_lines(s: State, key: char)
    requires
        s.valid(),
        single_lines(s.lines),
    ensures
        single_lines(s.step(key).lines),
{
    edits_keep_single_lines(s.lines, s.cursor.y, s.cursor.x, ' ');
    if key != '\n' {
        edits_keep_single_lines(s.lines, s.cursor.y, s.cursor.x, key);
    }
}

/// Before any key, the interpreter is as it is meant to be between keys.
pub proof fn start_is_wf()
    ensures
        CmdView::start().wf(),
{
    empty_is_kept();
}

/// A key leaves the interpreter as it is meant to be between keys: the
/// buffer is empty or the beginning of a command.
pub proof fn step_keeps_wf(s: State, key: char)
    requires
        s.cmd.wf(),
    ensures
        s.step(key).cmd.wf(),
        Command::begins(s.step(key).cmd.buffer),
{
    empty_is_kept();
}

/// The keys of a command spell that command: `parse` is the inverse of
/// `keys`.
pub proof fn parse_of_keys(command: Command)
    ensures
        Command::parse(command.keys()) == Some(command),
{
    keys_are_known();
    assert(seq!['a'][0] == 'a');
    assert(seq!['b'][0] == 'b');
    assert(seq!['B'][0] == 'B');
    assert(seq!['j'][0] == 'j');
    assert(seq!['J'][0] == 'J');
    assert(seq!['K'][0] == 'K');
    assert(seq!['h'][0] == 'h');
    assert(seq!['k'][0] == 'k');
    assert(seq!['I'][0] == 'I');
    assert(seq!['H'][0] == 'H');
    assert(seq!['i'][0] == 'i');
    assert(seq!['n'][0] == 'n');
    assert(seq!['q'][0] == 'q');
    assert(seq!['r'][0] == 'r');
    assert(Command::ThemeOneDark.keys()[0] == 't');
    assert(Command::ThemeOneLight.keys()[0] == 't');
    assert(Command::ThemeOneDark.keys().len() == 10);
    assert(Command::ThemeOneLight.keys().len() == 11);
}

/// Keys that spell a command are the keys of that command.
pub proof fn keys_of_parse(keys: Seq<char>)
    ensures
        match Command::parse(keys) {
            Some(command) => command.keys() == keys,
            None => forall|command: Command| #[trigger] command.keys() != keys,
        },
{
    if Command::parse(keys) is None {
        assert forall|command: Command| #[trigger] command.keys() != keys by {
            parse_of_keys(command);
        }
    }
}

/// No command begins with the keys of another, so a command can run as soon
/// as it is spelled out.
pub proof fn no_command_begins_another(a: Command, b: Command)
    requires
        a.keys().is_prefix_of(b.keys()),
    ensures
        a == b,
{
    keys_are_known();
    assert(a.keys()[0] == b.keys().subrange(0, a.keys().len() as int)[0]);
    if a.keys().len() == 10 && b.keys().len() == 11 {
        assert(a.keys()[6] == b.keys().subrange(0, 10)[6]);
    }
}

/// No command has a line feed among its keys.
pub proof fn keys_hold_no_line_feed(command: Command, i: int)
    requires
        0 <= i < command.keys().len(),
    ensures
        command.keys()[i] != '\n',
{
    keys_are_known();
}

/// While the keys typed are the beginning of a command and not yet the
/// whole of it, they are kept in the buffer and nothing else changes.
pub proof fn typed_beginning(s: State, command: Command, n: int)
    requires
        s.idle(),
        0 <= n < command.keys().len(),
    ensures
        s.after(command.keys().take(n)) == s.hold(command.keys().take(n)),
    decreases n,
{
    let keys = command.keys();
    if n == 0 {
        assert(keys.take(0) =~= Seq::<char>::empty());
        assert(s.cmd.buffer =~= Seq::<char>::empty());
        assert(s.hold(keys.take(0)).cmd == s.cmd);
    } else {
        typed_beginning(s, command, n - 1);
        let shorter = keys.take(n - 1);
        let key = keys[n - 1];
        assert(keys.take(n).drop_last() =~= shorter);
        assert(keys.take(n).last() == key);
        assert(shorter.push(key) =~= keys.take(n));
        keys_hold_no_line_feed(command, n - 1);
        keys_of_parse(keys.take(n));
        if let Some(other) = Command::parse(keys.take(n)) {
            assert(other.keys().is_prefix_of(keys));
            no_command_begins_another(other, command);
        }
        assert(keys.take(n).is_prefix_of(keys));
        assert(s.hold(shorter).step(key) == s.hold(keys.take(n)));
    }
}

/// Typing the keys of a command, with no key pending, accepts them and runs
/// the command.
pub proof fn typed_command(s: State, command: Command)
    requires
        s.idle(),
    ensures
        s.after(command.keys()) == s.accept(command.keys()).run(command),
{
    let keys = command.keys();
    keys_are_known();
    let n = keys.len() - 1;
    typed_beginning(s, command, n);
    keys_hold_no_line_feed(command, n);
    parse_of_keys(command);
    assert(keys.drop_last() =~= keys.take(n));
    assert(keys.take(n).push(keys.last()) =~= keys);
    assert(s.hold(keys.take(n)).accept(keys) == s.accept(keys));
}

/// One key that is a whole command, typed with no key pending, is accepted
/// and runs the command.
pub proof fn typed_key(s: State, command: Command)
    requires
        s.idle(),
        command.keys().len() == 1,
    ensures
        s.step(command.keys()[0]) == s.accept(command.keys()).run(command),
{
    typed_command(s, command);
    let keys = command.keys();
    assert(keys.drop_last() =~= Seq::<char>::empty());
    reveal_with_fuel(State::after, 2);
}

/// Keys typed one after the other: the state after `first` followed by
/// `rest` is the state after `rest`, typed in the state after `first`.
pub proof fn after_both(s: State, first: Seq<char>, rest: Seq<char>)
    ensures
        s.after(first + rest) == s.after(first).after(rest),
    decreases rest.len(),
{
    if rest.len() == 0 {
        assert(first + rest =~= first);
    } else {
        after_both(s, first, rest.drop_last());
        assert((first + rest).drop_last() =~= first + rest.drop_last());
    }
}

/// A key adds to the history what it accepts, and nothing else.
pub proof fn history_grows(s: State, key: char)
    ensures
        s.step(key).cmd.history == s.cmd.history + s.accepted(key),
{
    match s.cmd.mode {
        Mode::Append => {
            assert(s.cmd.history + Seq::<char>::empty() =~= s.cmd.history);
        },
        Mode::Default => {
            assert(s.cmd.history + Seq::<char>::empty() =~= s.cmd.history);
        },
        Mode::Replace => {
            assert(s.cmd.history.push(key) =~= s.cmd.history + seq![key]);
        },
    }
}

/// The history is the concatenation, in order, of everything accepted: after
/// any keys, it is the history before them followed by what each key
/// accepted.
pub proof fn history_is_all_accepted(s: State, keys: Seq<char>)
    ensures
        s.after(keys).cmd.history == s.cmd.history + s.accepted_during(keys),
    decreases keys.len(),
{
    if keys.len() == 0 {
        assert(s.cmd.history + Seq::<char>::empty() =~= s.cmd.history);
    } else {
        history_is_all_accepted(s, keys.drop_last());
        history_grows(s.after(keys.drop_last()), keys.last());
        assert(s.after(keys).cmd.history =~= s.cmd.history + s.accepted_during(keys));
    }
}

/// Any keys leave the document with a line, the cursor in it, and the
/// buffer the beginning of a command.
pub proof fn keys_keep_invariants(s: State, keys: Seq<char>)
    requires
        s.valid(),
        s.cmd.wf(),
    ensures
        s.after(keys).valid(),
        s.after(keys).lines.len() >= 1,
        s.after(keys).cmd.wf(),
        Command::begins(s.after(keys).cmd.buffer),
    decreases keys.len(),
{
    if keys.len() > 0 {
        keys_keep_invariants(s, keys.drop_last());
        step_keeps_valid(s.after(keys.drop_last()), keys.last());
        step_keeps_wf(s.after(keys.drop_last()), keys.last());
    }
}

/// `H` then `K` leaves the cursor on its row, at the end of it: as
/// commands in any state, and as keys typed while a command is awaited.
pub proof fn start_then_end_of_line(s: State)
    requires
        s.valid(),
    ensures
        s.run(Command::CenterStartLine).run(Command::CenterEndLine).cursor == (Cursor {
            x: s.lines[s.cursor.y].len() as int,
            y: s.cursor.y,
        }),
        s.idle() ==> s.step('H').step('K').lines == s.lines && s.step('H').step('K').cursor
            == (Cursor { x: s.lines[s.cursor.y].len() as int, y: s.cursor.y }),
{
    if s.idle() {
        keys_are_known();
        typed_key(s, Command::CenterStartLine);
        typed_key(s.step('H'), Command::CenterEndLine);
    }
}

/// `I` then `J` leaves the cursor at the end of the document, wherever it
/// was: as commands in any state, and as keys typed while a command is
/// awaited.
pub proof fn start_then_end_of_file(s: State)
    requires
        s.valid(),
    ensures
        s.run(Command::CenterStartFile).run(Command::CenterEndFile).cursor == (Cursor {
            x: s.lines.last().len() as int,
            y: s.lines.len() - 1,
        }),
        s.idle() ==> s.step('I').step('J').lines == s.lines && s.step('I').step('J').cursor
            == (Cursor { x: s.lines.last().len() as int, y: s.lines.len() - 1 }),
{
    if s.idle() {
        keys_are_known();
        typed_key(s, Command::CenterStartFile);
        typed_key(s.step('I'), Command::CenterEndFile);
    }
}

/// `h` then `k` brings the cursor back where it was, if it was right of
/// column zero or on an empty row, and at column zero `h` moves nothing: as
/// commands in any such state, and as keys typed while a command is awaited.
pub proof fn left_then_right(s: State)
    requires
        s.valid(),
        s.cursor.x > 0 || s.lines[s.cursor.y].len() == 0,
    ensures
        s.run(Command::CenterLeft).run(Command::CenterRight) == s,
        s.cursor.x == 0 ==> s.run(Command::CenterLeft) == s,
        s.idle() ==> s.step('h').step('k').looks_like(s),
        s.idle() && s.cursor.x == 0 ==> s.step('h').looks_like(s),
{
    if s.idle() {
        keys_are_known();
        typed_key(s, Command::CenterLeft);
        typed_key(s.step('h'), Command::CenterRight);
    }
}

/// Changing to the theme already in use changes nothing: after the command
/// of a theme, the same command again leaves the state as it is; typed as
/// keys while a command is awaited, it leaves the document, the cursor and
/// the theme as they are.
pub proof fn same_theme_twice(s: State, command: Command)
    requires
        command == Command::ThemeOneDark || command == Command::ThemeOneLight,
    ensures
        s.run(command).run(command) == s.run(command),
        s.run(command).theme == if command == Command::ThemeOneDark {
            Theme::one_dark()
        } else {
            Theme::one_light()
        },
        s.idle() ==> s.after(command.keys()).after(command.keys()).looks_like(
            s.after(command.keys()),
        ),
        s.idle() ==> s.after(command.keys()).looks_like(s.run(command)),
{
    if s.idle() {
        typed_command(s, command);
        typed_command(s.after(command.keys()), command);
    }
}

/// `h` at column zero and `k` at the end of the row move nothing: as
/// commands in any state, and as keys typed while a command is awaited.
pub proof fn sideways_at_the_ends(s: State)
    requires
        s.valid(),
    ensures
        s.cursor.x == 0 ==> s.run(Command::CenterLeft) == s,
        s.cursor.x == s.lines[s.cursor.y].len() ==> s.run(Command::CenterRight) == s,
        s.idle() && s.cursor.x == 0 ==> s.step('h').looks_like(s),
        s.idle() && s.cursor.x == s.lines[s.cursor.y].len() ==> s.step('k').looks_like(s),
{
    if s.idle() {
        keys_are_known();
        typed_key(s, Command::CenterLeft);
        typed_key(s, Command::CenterRight);
    }
}

/// `i` on the first row and `j` on the last row move nothing; elsewhere
/// they move the cursor one row and keep its column, or bring it to the end
/// of the new row where that row is shorter. As commands in any state, and
/// as keys typed while a command is awaited.
pub proof fn up_and_down(s: State)
    requires
        s.valid(),
    ensures
        s.cursor.y == 0 ==> s.run(Command::CenterUp) == s,
        s.cursor.y == s.lines.len() - 1 ==> s.run(Command::CenterDown) == s,
        s.cursor.y > 0 ==> s.run(Command::CenterUp).cursor == (Cursor {
            x: if s.cursor.x > s.lines[s.cursor.y - 1].len() {
                s.lines[s.cursor.y - 1].len() as int
            } else {
                s.cursor.x
            },
            y: s.cursor.y - 1,
        }),
        s.cursor.y < s.lines.len() - 1 ==> s.run(Command::CenterDown).cursor == (Cursor {
            x: if s.cursor.x > s.lines[s.cursor.y + 1].len() {
                s.lines[s.cursor.y + 1].len() as int
            } else {
                s.cursor.x
            },
            y: s.cursor.y + 1,
        }),
        s.run(Command::CenterUp).lines == s.lines,
        s.run(Command::CenterDown).lines == s.lines,
        s.idle() ==> s.step('i').looks_like(s.run(Command::CenterUp)) && s.step('j').looks_like(
            s.run(Command::CenterDown),
        ),
{
    if s.idle() {
        keys_are_known();
        typed_key(s, Command::CenterUp);
        typed_key(s, Command::CenterDown);
    }
}

/// `n` at the end of a row leaves the row as it is, makes an empty row
/// below it, and puts the cursor at the start of that new row: as a command
/// in any state, and as a key typed while a command is awaited.
pub proof fn split_at_end_of_line(s: State)
    requires
        s.valid(),
        s.cursor.x == s.lines[s.cursor.y].len(),
    ensures
        s.run(Command::Newline).lines == s.lines.insert(s.cursor.y + 1, Seq::empty()),
        s.run(Command::Newline).lines[s.cursor.y] == s.lines[s.cursor.y],
        s.run(Command::Newline).lines[s.cursor.y + 1] == Seq::<char>::empty(),
        s.run(Command::Newline).cursor == (Cursor { x: 0, y: s.cursor.y + 1 }),
        s.idle() ==> s.step('n').looks_like(s.run(Command::Newline)),
{
    let y = s.cursor.y;
    let x = s.cursor.x;
    assert(s.lines[y].take(x) =~= s.lines[y]);
    assert(s.lines[y].skip(x) =~= Seq::<char>::empty());
    assert(s.lines.update(y, s.lines[y]) =~= s.lines);
    if s.idle() {
        keys_are_known();
        typed_key(s, Command::Newline);
    }
}

} // verus!
