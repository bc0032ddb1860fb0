//! The document: an ordered sequence of lines, each a sequence of
//! characters, with the line-level edits that the editor performs on it.
//!
//! Columns count characters, not bytes. The mathematical model of a document
//! is `Seq<Seq<char>>`; the functions `inserted`, `deleted`, `replaced` and
//! `split` say what each edit does to it.

use vstd::prelude::*;
use vstd::string::StrSliceExecFns;
use vstd::string::StringExecFns;
use crate::text::push_char;

verus! {

/// The document in which line `y` has `ch` put in front of column `x`.
pub open spec fn inserted(lines: Seq<Seq<char>>, y: int, x: int, ch: char) -> Seq<Seq<char>> {
    lines.update(y, lines[y].insert(x, ch))
}

/// The document in which line `y` has lost the character at column `x`.
/// Where line `y` has no such column, the document itself.
pub open spec fn deleted(lines: Seq<Seq<char>>, y: int, x: int) -> Seq<Seq<char>> {
    if 0 <= x < lines[y].len() {
        lines.update(y, lines[y].remove(x))
    } else {
        lines
    }
}

/// The document in which the character at column `x` of line `y` is `ch`.
/// Where line `y` has no such column, the document itself.
pub open spec fn replaced(lines: Seq<Seq<char>>, y: int, x: int, ch: char) -> Seq<Seq<char>> {
    if 0 <= x < lines[y].len() {
        lines.update(y, lines[y].update(x, ch))
    } else {
        lines
    }
}

/// The document in which line `y` ends before column `x` and the rest of it
/// is a new line at `y + 1`.
pub open spec fn split(lines: Seq<Seq<char>>, y: int, x: int) -> Seq<Seq<char>> {
    lines.update(y, lines[y].take(x)).insert(y + 1, lines[y].skip(x))
}

/// Whether no line holds a newline character.
pub open spec fn single_lines(lines: Seq<Seq<char>>) -> bool {
    forall|y: int, x: int|
        0 <= y < lines.len() && 0 <= x < lines[y].len() ==> #[trigger] lines[y][x] != '\n'
}

/// A line as it is kept: without the carriage return that stood before its
/// line feed, if there was one.
pub open spec fn without_return(line: Seq<char>) -> Seq<char> {
    if line.len() > 0 && line.last() == '\r' {
        line.drop_last()
    } else {
        line
    }
}

/// The state of reading `text` line by line: the lines that a line feed has
/// ended, and the characters read since the last line feed.
pub open spec fn scanned(text: Seq<char>) -> (Seq<Seq<char>>, Seq<char>)
    decreases text.len(),
{
    if text.len() == 0 {
        (Seq::empty(), Seq::empty())
    } else {
        let (done, open) = scanned(text.drop_last());
        if text.last() == '\n' {
            (done.push(without_return(open)), Seq::empty())
        } else {
            (done, open.push(text.last()))
        }
    }
}

/// The lines of `text`. A line ends at a line feed, or at a carriage return
/// followed by a line feed, and the last line needs no line ending: text
/// after the last line feed is a line if it has any character.
pub open spec fn lines_of(text: Seq<char>) -> Seq<Seq<char>> {
    let (done, open) = scanned(text);
    if open.len() > 0 {
        done.push(open)
    } else {
        done
    }
}

/// The document that a source gives: its lines, or one empty line where
/// there is no source or the source has no line.
pub open spec fn loaded(source: Option<Seq<char>>) -> Seq<Seq<char>> {
    match source {
        Some(text) => if lines_of(text).len() > 0 {
            lines_of(text)
        } else {
            seq![Seq::empty()]
        },
        None => seq![Seq::empty()],
    }
}

/// The text of `lines`, each followed by a line feed.
pub open spec fn joined(lines: Seq<Seq<char>>) -> Seq<char>
    decreases lines.len(),
{
    if lines.len() == 0 {
        Seq::empty()
    } else {
        joined(lines.drop_last()) + lines.last().push('\n')
    }
}

/// Reading on after a line feed: characters that are no line feed gather in
/// the open line.
pub proof fn scanned_line(text: Seq<char>, line: Seq<char>)
    requires
        scanned(text).1.len() == 0,
        forall|x: int| 0 <= x < line.len() ==> line[x] != '\n',
    ensures
        scanned(text + line) == (scanned(text).0, line),
    decreases line.len(),
{
    if line.len() == 0 {
        assert(text + line =~= text);
        assert(scanned(text).1 =~= line);
    } else {
        scanned_line(text, line.drop_last());
        assert((text + line).drop_last() =~= text + line.drop_last());
        assert(line.drop_last().push(line.last()) =~= line);
    }
}

/// The lines of a text are the lines it was written from: where no line
/// holds a line feed or ends in a carriage return, the text of `lines` has
/// the lines `lines`.
pub proof fn lines_of_joined(lines: Seq<Seq<char>>)
    requires
        single_lines(lines),
        forall|y: int|
            0 <= y < lines.len() ==> (#[trigger] lines[y]).len() == 0 || lines[y].last() != '\r',
    ensures
        scanned(joined(lines)) == (lines, Seq::<char>::empty()),
        lines_of(joined(lines)) == lines,
    decreases lines.len(),
{
    if lines.len() > 0 {
        let before = lines.drop_last();
        let line = lines.last();
        assert(single_lines(before)) by {
            assert forall|y: int, x: int|
                0 <= y < before.len() && 0 <= x < before[y].len() implies #[trigger] before[y][x]
                != '\n' by {
                assert(before[y][x] == lines[y][x]);
            }
        }
        assert forall|y: int| 0 <= y < before.len() implies (#[trigger] before[y]).len() == 0
            || before[y].last() != '\r' by {
            assert(before[y] == lines[y]);
        }
        lines_of_joined(before);
        assert forall|x: int| 0 <= x < line.len() implies line[x] != '\n' by {
            assert(line[x] == lines[lines.len() - 1][x]);
        }
        scanned_line(joined(before), line);
        let text = joined(before) + line.push('\n');
        assert(text.drop_last() =~= joined(before) + line);
        assert(text.last() == '\n');
        assert(without_return(line) == line);
        assert(before.push(line) =~= lines);
    }
}

/// Reading text line by line leaves no line feed in any line, finished or
/// open.
pub proof fn scanned_single_lines(text: Seq<char>)
    ensures
        single_lines(scanned(text).0),
        forall|x: int| 0 <= x < scanned(text).1.len() ==> scanned(text).1[x] != '\n',
    decreases text.len(),
{
    if text.len() > 0 {
        scanned_single_lines(text.drop_last());
    }
}

/// A loaded document has at least one line, and no line of it holds a line
/// feed.
pub proof fn loaded_is_document(source: Option<Seq<char>>)
    ensures
        loaded(source).len() >= 1,
        single_lines(loaded(source)),
{
    if let Some(text) = source {
        scanned_single_lines(text);
    }
}

/// The edits leave every line without a line feed, where the character put
/// in is not one.
pub proof fn edits_keep_single_lines(lines: Seq<Seq<char>>, y: int, x: int, ch: char)
    requires
        single_lines(lines),
        0 <= y < lines.len(),
        ch != '\n',
    ensures
        0 <= x <= lines[y].len() ==> single_lines(inserted(lines, y, x, ch)),
        single_lines(deleted(lines, y, x)),
        single_lines(replaced(lines, y, x, ch)),
        0 <= x <= lines[y].len() ==> single_lines(split(lines, y, x)),
{
    if 0 <= x <= lines[y].len() {
        let after = inserted(lines, y, x, ch);
        assert forall|r: int, c: int|
            0 <= r < after.len() && 0 <= c < after[r].len() implies #[trigger] after[r][c]
            != '\n' by {
            if r == y {
                if c < x {
                    assert(after[r][c] == lines[y][c]);
                } else if c > x {
                    assert(after[r][c] == lines[y][c - 1]);
                }
            } else {
                assert(after[r][c] == lines[r][c]);
            }
        }
        let parted = split(lines, y, x);
        assert forall|r: int, c: int|
            0 <= r < parted.len() && 0 <= c < parted[r].len() implies #[trigger] parted[r][c]
            != '\n' by {
            if r < y {
                assert(parted[r][c] == lines[r][c]);
            } else if r == y {
                assert(parted[r][c] == lines[y][c]);
            } else if r == y + 1 {
                assert(parted[r][c] == lines[y][x + c]);
            } else {
                assert(parted[r][c] == lines[r - 1][c]);
            }
        }
    }
    let shorter = deleted(lines, y, x);
    assert forall|r: int, c: int|
        0 <= r < shorter.len() && 0 <= c < shorter[r].len() implies #[trigger] shorter[r][c]
        != '\n' by {
        if r == y && 0 <= x < lines[y].len() {
            if c < x {
                assert(shorter[r][c] == lines[y][c]);
            } else {
                assert(shorter[r][c] == lines[y][c + 1]);
            }
        } else {
            assert(shorter[r][c] == lines[r][c]);
        }
    }
    let changed = replaced(lines, y, x, ch);
    assert forall|r: int, c: int|
        0 <= r < changed.len() && 0 <= c < changed[r].len() implies #[trigger] changed[r][c]
        != '\n' by {
        if r == y && 0 <= x < lines[y].len() {
            if c != x {
                assert(changed[r][c] == lines[y][c]);
            }
        } else {
            assert(changed[r][c] == lines[r][c]);
        }
    }
}

/// A file being edited: the path it was named by, if any, and its lines.
#[derive(Debug, PartialEq, Eq)]
pub struct File {
    pub path: Option<String>,
    pub content: Vec<String>,
}

impl View for File {
    type V = Seq<Seq<char>>;

    /// The lines of the document, each as its characters.
    open spec fn view(&self) -> Seq<Seq<char>> {
        self.content.deep_view()
    }
}

impl File {
    /// Whether the file holds a document: at least one line, and no line
    /// feed within a line.
    pub open spec fn wf(&self) -> bool {
        self@.len() >= 1 && single_lines(self@)
    }

    /// The characters of the path, or none where the file has no path.
    pub open spec fn path_view(&self) -> Seq<char> {
        match self.path {
            Some(p) => p@,
            None => Seq::empty(),
        }
    }

    /// A file named by `_path`, with no line yet: `read` gives it its lines.
    pub fn new(_path: Option<String>) -> (file: Self)
        ensures
            file.path == _path,
            file@ == Seq::<Seq<char>>::empty(),
    {
        Self { path: _path, content: Vec::new() }
    }

    /// The lines of the document.
    pub fn get_content(&self) -> (content: &Vec<String>)
        ensures
            *content == self.content,
            content.deep_view() == self@,
    {
        &self.content
    }

    /// Fills the document from what its source holds: the lines of `source`,
    /// or a single empty line where there is no source (no path was given, or
    /// nothing exists at the path) or the source has no line.
    pub fn read(&mut self, source: Option<&str>)
        ensures
            final(self).path == old(self).path,
            final(self)@ == loaded(
                match source {
                    Some(text) => Some(text@),
                    None => None,
                },
            ),
            final(self).wf(),
    {
        let mut content: Vec<String> = Vec::new();
        if let Some(text) = source {
            let mut open = String::new();
            let mut after_return = false;
            proof {
                assert(text@.take(0) =~= Seq::<char>::empty());
            }
            for c in it: text.chars()
                invariant
                    it.seq() == text@,
                    content.deep_view() == scanned(text@.take(it.index() as int)).0,
                    open@ == without_return(scanned(text@.take(it.index() as int)).1),
                    after_return == (scanned(text@.take(it.index() as int)).1.len() > 0 && scanned(
                        text@.take(it.index() as int),
                    ).1.last() == '\r'),
            {
                proof {
                    let i = it.index() as int;
                    assert(text@.take(i + 1).drop_last() =~= text@.take(i));
                    assert(text@.take(i + 1).last() == c);
                }
                let ghost before = scanned(text@.take(it.index() as int)).1;
                if c == '\n' {
                    let ghost lines = content.deep_view();
                    content.push(open);
                    open = String::new();
                    after_return = false;
                    proof {
                        assert(content.deep_view() =~= lines.push(without_return(before)));
                    }
                } else {
                    if after_return {
                        push_char(&mut open, '\r');
                    }
                    if c != '\r' {
                        push_char(&mut open, c);
                    }
                    after_return = c == '\r';
                    proof {
                        assert(before.push(c).drop_last() =~= before);
                        assert(open@ =~= without_return(before.push(c)));
                    }
                }
            }
            proof {
                assert(text@.take(text@.len() as int) =~= text@);
            }
            if after_return {
                push_char(&mut open, '\r');
            }
            proof {
                assert(open@ =~= scanned(text@).1);
            }
            if !open.as_str().is_empty() {
                let ghost lines = content.deep_view();
                content.push(open);
                proof {
                    assert(content.deep_view() =~= lines.push(scanned(text@).1));
                }
            }
        }
        if content.len() == 0 {
            content.push(String::new());
            proof {
                assert(content.deep_view() =~= seq![Seq::<char>::empty()]);
            }
        }
        self.content = content;
        proof {
            loaded_is_document(
                match source {
                    Some(text) => Some(text@),
                    None => None,
                },
            );
        }
    }

    /// The number of characters in line `y`.
    pub fn line_len(&self, y: usize) -> (n: usize)
        requires
            y < self@.len(),
        ensures
            n == self@[y as int].len(),
    {
        self.content[y].as_str().unicode_len()
    }

    /// Puts `ch` in front of column `x` of line `y`; at `x` equal to the
    /// line's length, at its end.
    pub fn insert_char(&mut self, y: usize, x: usize, ch: char)
        requires
            y < old(self)@.len(),
            x <= old(self)@[y as int].len(),
        ensures
            final(self).path == old(self).path,
            final(self)@ == inserted(old(self)@, y as int, x as int, ch),
            final(self)@.len() == old(self)@.len(),
            old(self).wf() && ch != '\n' ==> final(self).wf(),
    {
        proof {
            if self.wf() && ch != '\n' {
                edits_keep_single_lines(self@, y as int, x as int, ch);
            }
        }
        let line = self.content[y].as_str();
        let n: usize = line.unicode_len();
        let mut next = String::from_str(line.substring_char(0, x));
        push_char(&mut next, ch);
        next.append(line.substring_char(x, n));
        proof {
            assert(next@ =~= old(self)@[y as int].insert(x as int, ch));
        }
        self.content[y] = next;
        proof {
            assert(self@ =~= inserted(old(self)@, y as int, x as int, ch));
        }
    }

    /// Removes the character at column `x` of line `y`. Where the line has no
    /// character there (an empty line, or `x` at or past its end), nothing
    /// changes.
    pub fn delete_char(&mut self, y: usize, x: usize)
        requires
            y < old(self)@.len(),
        ensures
            final(self).path == old(self).path,
            final(self)@ == deleted(old(self)@, y as int, x as int),
            final(self)@.len() == old(self)@.len(),
            old(self).wf() ==> final(self).wf(),
    {
        proof {
            if self.wf() {
                edits_keep_single_lines(self@, y as int, x as int, ' ');
            }
        }
        let line = self.content[y].as_str();
        let n: usize = line.unicode_len();
        if x < n {
            let mut next = String::from_str(line.substring_char(0, x));
            next.append(line.substring_char(x + 1, n));
            proof {
                assert(next@ =~= old(self)@[y as int].remove(x as int));
            }
            self.content[y] = next;
            proof {
                assert(self@ =~= deleted(old(self)@, y as int, x as int));
            }
        }
    }

    /// Puts `ch` in the place of the character at column `x` of line `y`.
    /// Where the line has no character there, nothing changes.
    pub fn replace_char(&mut self, y: usize, x: usize, ch: char)
        requires
            y < old(self)@.len(),
        ensures
            final(self).path == old(self).path,
            final(self)@ == replaced(old(self)@, y as int, x as int, ch),
            final(self)@.len() == old(self)@.len(),
            old(self).wf() && ch != '\n' ==> final(self).wf(),
    {
        proof {
            if self.wf() && ch != '\n' {
                edits_keep_single_lines(self@, y as int, x as int, ch);
            }
        }
        let line = self.content[y].as_str();
        let n: usize = line.unicode_len();
        if x < n {
            let mut next = String::from_str(line.substring_char(0, x));
            push_char(&mut next, ch);
            next.append(line.substring_char(x + 1, n));
            proof {
                assert(next@ =~= old(self)@[y as int].update(x as int, ch));
            }
            self.content[y] = next;
            proof {
                assert(self@ =~= replaced(old(self)@, y as int, x as int, ch));
            }
        }
    }

    /// Ends line `y` before column `x` and makes the rest of it a new line
    /// at `y + 1`.
    pub fn split_line(&mut self, y: usize, x: usize)
        requires
            y < old(self)@.len(),
            x <= old(self)@[y as int].len(),
        ensures
            final(self).path == old(self).path,
            final(self)@ == split(old(self)@, y as int, x as int),
            final(self)@.len() == old(self)@.len() + 1,
            old(self).wf() ==> final(self).wf(),
    {
        proof {
            if self.wf() {
                edits_keep_single_lines(self@, y as int, x as int, ' ');
            }
        }
        let line = self.content[y].as_str();
        let n: usize = line.unicode_len();
        let head = String::from_str(line.substring_char(0, x));
        let tail = String::from_str(line.substring_char(x, n));
        self.content[y] = head;
        assert(y < self.content.len());
        self.content.insert(y + 1, tail);
        proof {
            assert(self@ =~= split(old(self)@, y as int, x as int));
        }
    }
}

} // verus!
