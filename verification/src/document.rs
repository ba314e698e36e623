//! The rows of a text, in order, and the edits that reach across rows.
use crate::editor::{Position, SearchDirection};
use crate::row::{word_view, Row, RowView};
use crate::segment::{clusters, lemma_clusters_tile, lemma_flatten_split};
use crate::text::{push_char, to_chars};
use vstd::prelude::*;
use vstd::string::*;
use vstd::utf8::encode_utf8;

verus! {

/// A text as a sequence of rows, the file it belongs to, and whether it was
/// changed since it was last saved.
pub struct Document {
    rows: Vec<Row>,
    filename: Option<String>,
    dirty: bool,
}

/// What a [`Document`] holds.
pub struct DocumentView {
    /// The rows, first line first.
    pub rows: Seq<RowView>,
    /// The name of the file, if the document has one.
    pub filename: Option<Seq<char>>,
    /// Whether the rows were changed since the last save.
    pub dirty: bool,
}

/// The row that holds `text` and counts its graphemes, not yet highlighted.
pub open spec fn row_of(text: Seq<char>) -> RowView {
    RowView { text, len: clusters(text).len(), highlighting: Seq::empty() }
}

/// The row without text.
pub open spec fn empty_row() -> RowView {
    RowView { text: Seq::empty(), len: 0, highlighting: Seq::empty() }
}

/// The views of `rows`, in order.
pub open spec fn row_views(rows: Seq<Row>) -> Seq<RowView> {
    Seq::new(rows.len(), |y: int| rows[y]@)
}

impl DocumentView {
    /// The document after a line break went in at `at`.
    ///
    /// Beyond the line after the last, nothing changes. On the line after the
    /// last, an empty row is added. Otherwise row `at.y` is split before
    /// grapheme `at.x`, both halves are highlighted anew, and the second
    /// half becomes the row after the first. A change marks the document
    /// as changed.
    pub open spec fn insert_newline(self, at: Position) -> DocumentView {
        let y = at.y as int;
        if y > self.rows.len() {
            self
        } else if y == self.rows.len() {
            DocumentView { rows: self.rows.push(empty_row()), dirty: true, ..self }
        } else {
            let head = self.rows[y].split_head(at.x as int).highlight(None);
            let tail = self.rows[y].split_tail(at.x as int).highlight(None);
            DocumentView { rows: self.rows.update(y, head).insert(y + 1, tail), dirty: true, ..self }
        }
    }

    /// The document after `c` went in at `at`.
    ///
    /// Beyond the line after the last, nothing changes. A line break splits
    /// the row. On the line after the last, any other character becomes a new
    /// row. Otherwise it goes into row `at.y` before grapheme `at.x`. The row
    /// that changed is highlighted anew, and the document is marked as
    /// changed.
    pub open spec fn insert(self, at: Position, c: char) -> DocumentView {
        let y = at.y as int;
        if y > self.rows.len() {
            self
        } else if c == '\n' {
            self.insert_newline(at)
        } else if y == self.rows.len() {
            let row = empty_row().insert(0, c).highlight(None);
            DocumentView { rows: self.rows.push(row), dirty: true, ..self }
        } else {
            let row = self.rows[y].insert(at.x as int, c).highlight(None);
            DocumentView { rows: self.rows.update(y, row), dirty: true, ..self }
        }
    }

    /// The document after the grapheme at `at` went out.
    ///
    /// At or beyond the line after the last, nothing changes. At the end of a
    /// row that is not the last, the next row is appended to it and leaves
    /// the sequence. Otherwise grapheme `at.x` leaves row `at.y`. The row
    /// that changed is highlighted anew, and the document is marked as
    /// changed.
    pub open spec fn delete(self, at: Position) -> DocumentView {
        let y = at.y as int;
        if y >= self.rows.len() {
            self
        } else if at.x == self.rows[y].len && y + 1 < self.rows.len() {
            let row = self.rows[y].append(self.rows[y + 1]).highlight(None);
            DocumentView { rows: self.rows.update(y, row).remove(y + 1), dirty: true, ..self }
        } else {
            let row = self.rows[y].delete(at.x as int).highlight(None);
            DocumentView { rows: self.rows.update(y, row), dirty: true, ..self }
        }
    }

    /// The first place at which `query` is found, looking forward in row `y`
    /// from grapheme `x` and then in each later row from its start.
    pub open spec fn find_forward(self, query: Seq<char>, x: int, y: int) -> Option<(int, int)>
        decreases self.rows.len() - y,
    {
        if y < 0 || y >= self.rows.len() {
            None
        } else {
            match self.rows[y].find(query, x, SearchDirection::Forward) {
                Some(found) => Some((found, y)),
                None => self.find_forward(query, 0, y + 1),
            }
        }
    }

    /// The first place at which `query` is found, looking backward in row `y`
    /// from grapheme `x` and then in each earlier row from its end.
    pub open spec fn find_backward(self, query: Seq<char>, x: int, y: int) -> Option<(int, int)>
        decreases y,
    {
        if y < 0 || y >= self.rows.len() {
            None
        } else {
            match self.rows[y].find(query, x, SearchDirection::Backward) {
                Some(found) => Some((found, y)),
                None => if y == 0 {
                    None
                } else {
                    self.find_backward(query, self.rows[y - 1].len as int, y - 1)
                },
            }
        }
    }

    /// The place at which a search for `query` from `at` ends, as grapheme
    /// and row. The search passes once over the rows in its direction and
    /// does not wrap around.
    pub open spec fn find(self, query: Seq<char>, at: Position, direction: SearchDirection) -> Option<(int, int)> {
        match direction {
            SearchDirection::Forward => self.find_forward(query, at.x as int, at.y as int),
            SearchDirection::Backward => self.find_backward(query, at.x as int, at.y as int),
        }
    }

    /// The document with every row highlighted anew for `word`.
    pub open spec fn highlight(self, word: Option<Seq<char>>) -> DocumentView {
        DocumentView { rows: Seq::new(self.rows.len(), |y: int| self.rows[y].highlight(word)), ..self }
    }
}

/// Why the text of a file could not be had.
#[derive(PartialEq, Eq, Structural, Clone, Copy, Debug)]
pub enum LoadError {
    /// The file is missing, or may not be read, or reading it failed.
    Unreadable,
    /// What the file holds is not UTF-8.
    InvalidEncoding,
}

/// Why the text could not be written out.
#[derive(PartialEq, Eq, Structural, Clone, Copy, Debug)]
pub enum SaveError {
    /// The file could not be created or not be written in full.
    Unwritable,
}

/// The index of the first line feed of `text` at or behind `from`, or the
/// length of `text` where there is none.
pub open spec fn line_end(text: Seq<char>, from: int) -> int
    decreases text.len() - from,
{
    if from >= text.len() {
        text.len() as int
    } else if text[from] == '\n' {
        from
    } else {
        line_end(text, from + 1)
    }
}

/// `line` without the carriage return at its end, if it has one.
pub open spec fn strip_cr(line: Seq<char>) -> Seq<char> {
    if line.len() > 0 && line.last() == '\r' {
        line.drop_last()
    } else {
        line
    }
}

/// The lines of `text` from character `from` on.
///
/// A line ends at a line feed, or at a carriage return followed by a line
/// feed; neither belongs to the line. What stands behind the last line feed
/// is a line as it is, unless it is empty.
pub open spec fn lines_from(text: Seq<char>, from: int) -> Seq<Seq<char>>
    decreases text.len() - from,
{
    if from < 0 || from >= text.len() {
        Seq::empty()
    } else {
        let end = line_end(text, from);
        if end >= text.len() {
            seq![text.subrange(from, text.len() as int)]
        } else {
            proof {
                lemma_line_end(text, from);
            }
            seq![strip_cr(text.subrange(from, end))] + lines_from(text, end + 1)
        }
    }
}

/// The lines of `text`.
pub open spec fn lines(text: Seq<char>) -> Seq<Seq<char>> {
    lines_from(text, 0)
}

/// The first line feed at or behind `from` lies between `from` and the end.
pub proof fn lemma_line_end(text: Seq<char>, from: int)
    requires
        0 <= from <= text.len(),
    ensures
        from <= line_end(text, from) <= text.len(),
        line_end(text, from) < text.len() ==> text[line_end(text, from)] == '\n',
        forall|k: int| from <= k < line_end(text, from) ==> text[k] != '\n',
    decreases text.len() - from,
{
    if from < text.len() && text[from] != '\n' {
        lemma_line_end(text, from + 1);
    }
}

/// What a save writes for the rows from `from` on: the text of each row in
/// UTF-8, each followed by one line feed.
pub open spec fn file_bytes(rows: Seq<RowView>, from: int) -> Seq<u8>
    decreases rows.len() - from,
{
    if from < 0 || from >= rows.len() {
        Seq::empty()
    } else {
        encode_utf8(rows[from].text) + seq![10u8] + file_bytes(rows, from + 1)
    }
}

impl DocumentView {
    /// The document that a file named `filename` with the text `contents`
    /// opens as: one row for each line, highlighted without a search word.
    pub open spec fn opened(filename: Seq<char>, contents: Seq<char>) -> DocumentView {
        DocumentView {
            rows: Seq::new(
                lines(contents).len(),
                |y: int| row_of(lines(contents)[y]).highlight(None),
            ),
            filename: Some(filename),
            dirty: false,
        }
    }

    /// The document after a save was tried and ended as `written` says: a
    /// document with a file name whose rows were written is no longer
    /// changed; otherwise nothing changes.
    pub open spec fn saved(self, written: Result<(), SaveError>) -> DocumentView {
        if self.filename is Some && written is Ok {
            DocumentView { dirty: false, ..self }
        } else {
            self
        }
    }
}

impl View for Document {
    type V = DocumentView;

    closed spec fn view(&self) -> DocumentView {
        DocumentView {
            rows: row_views(self.rows@),
            filename: match self.filename {
                Some(name) => Some(name@),
                None => None,
            },
            dirty: self.dirty,
        }
    }
}

impl Default for Document {
    /// The empty document: no rows, no file, nothing to save.
    fn default() -> (document: Document)
        ensures
            document@ == (DocumentView { rows: Seq::empty(), filename: None, dirty: false }),
    {
        let document = Document { rows: Vec::new(), filename: None, dirty: false };
        assert(row_views(document.rows@) =~= Seq::<RowView>::empty());
        document
    }
}

impl Document {
    /// The row on line `index`, if there is one.
    pub fn row(&self, index: usize) -> (row: Option<&Row>)
        ensures
            match row {
                Some(r) => index < self@.rows.len() && r@ == self@.rows[index as int],
                None => index >= self@.rows.len(),
            },
    {
        if index < self.rows.len() {
            Some(&self.rows[index])
        } else {
            None
        }
    }

    /// The name of the file that the document belongs to, if it has one.
    pub fn file_name(&self) -> (name: Option<&str>)
        ensures
            match name {
                Some(text) => self@.filename == Some(text@),
                None => self@.filename is None,
            },
    {
        match &self.filename {
            Some(name) => Some(name.as_str()),
            None => None,
        }
    }

    /// Gives the document the file name `name`.
    pub fn set_file_name(&mut self, name: String)
        ensures
            final(self)@ == (DocumentView { filename: Some(name@), ..old(self)@ }),
    {
        self.filename = Some(name);
        assert(self@.rows == old(self)@.rows);
    }

    /// Whether the document has no rows.
    pub fn is_empty(&self) -> (empty: bool)
        ensures
            empty == (self@.rows.len() == 0),
    {
        self.rows.len() == 0
    }

    /// The number of rows.
    pub fn len(&self) -> (count: usize)
        ensures
            count == self@.rows.len(),
    {
        self.rows.len()
    }

    /// Whether the rows were changed since the last save.
    pub fn is_dirty(&self) -> (dirty: bool)
        ensures
            dirty == self@.dirty,
    {
        self.dirty
    }

    /// Puts `c` into the document at `at`.
    pub fn insert(&mut self, at: &Position, c: char)
        ensures
            final(self)@ == old(self)@.insert(*at, c),
    {
        if at.y > self.rows.len() {
            return ;
        }
        self.dirty = true;
        if c == '\n' {
            self.insert_newline(at);
            return ;
        }
        if at.y == self.rows.len() {
            let mut row = Row::default();
            row.insert(0, c);
            row.hightlight(None);
            self.rows.push(row);
            assert(row_views(self.rows@) =~= row_views(old(self).rows@).push(row@));
        } else {
            self.rows[at.y].insert(at.x, c);
            self.rows[at.y].hightlight(None);
            assert(row_views(self.rows@) =~= row_views(old(self).rows@).update(
                at.y as int,
                self.rows[at.y as int]@,
            ));
        }
    }

    /// Takes the grapheme at `at` out of the document, or joins row `at.y`
    /// with the next one where `at` is the end of the row.
    pub fn delete(&mut self, at: &Position)
        ensures
            final(self)@ == old(self)@.delete(*at),
    {
        let len = self.rows.len();
        if at.y >= len {
            return ;
        }
        self.dirty = true;
        if at.x == self.rows[at.y].len() && at.y + 1 < len {
            let next_row = self.rows.remove(at.y + 1);
            self.rows[at.y].append(&next_row);
            self.rows[at.y].hightlight(None);
            assert(row_views(self.rows@) =~= row_views(old(self).rows@).update(
                at.y as int,
                self.rows[at.y as int]@,
            ).remove(at.y + 1));
        } else {
            self.rows[at.y].delete(at.x);
            self.rows[at.y].hightlight(None);
            assert(row_views(self.rows@) =~= row_views(old(self).rows@).update(
                at.y as int,
                self.rows[at.y as int]@,
            ));
        }
    }

    /// Breaks the line at `at`.
    pub fn insert_newline(&mut self, at: &Position)
        ensures
            final(self)@ == old(self)@.insert_newline(*at),
    {
        if at.y > self.rows.len() {
            return ;
        }
        self.dirty = true;
        if at.y == self.rows.len() {
            let row = Row::default();
            self.rows.push(row);
            assert(row_views(self.rows@) =~= row_views(old(self).rows@).push(row@));
            return ;
        }
        let mut new_row = self.rows[at.y].split(at.x);
        self.rows[at.y].hightlight(None);
        new_row.hightlight(None);
        self.rows.insert(at.y + 1, new_row);
        assert(row_views(self.rows@) =~= row_views(old(self).rows@).update(
            at.y as int,
            self.rows[at.y as int]@,
        ).insert(at.y + 1, new_row@));
    }

    /// Searches the document for `query` from `at` on, row by row in the
    /// given direction, and stops at the first or last row without wrapping
    /// around.
    pub fn find(&self, query: &str, at: &Position, direction: SearchDirection) -> (found: Option<Position>)
        ensures
            match found {
                Some(p) => self@.find(query@, *at, direction) == Some((p.x as int, p.y as int)),
                None => self@.find(query@, *at, direction) is None,
            },
    {
        if at.y >= self.rows.len() {
            return None;
        }
        let mut position = Position { x: at.x, y: at.y };
        loop
            invariant
                position.y < self.rows.len(),
                self@.find(query@, *at, direction) == self@.find(query@, position, direction),
            decreases
                (if direction == SearchDirection::Forward {
                    self.rows.len() - position.y
                } else {
                    position.y + 1
                }),
        {
            if let Some(x) = self.rows[position.y].find(query, position.x, direction) {
                position.x = x;
                return Some(position);
            }
            if direction == SearchDirection::Forward {
                if position.y + 1 >= self.rows.len() {
                    assert(self@.find_forward(query@, 0, position.y + 1) is None);
                    return None;
                }
                position.y = position.y + 1;
                position.x = 0;
            } else {
                if position.y == 0 {
                    return None;
                }
                position.y = position.y - 1;
                position.x = self.rows[position.y].len();
            }
        }
    }

    /// Opens the document of the file named `filename`, given what reading
    /// that file gave: its text, or the reason why it could not be had.
    pub fn open(filename: &str, loaded: Result<String, LoadError>) -> (opened: Result<Document, LoadError>)
        ensures
            match loaded {
                Ok(contents) => opened is Ok && opened->Ok_0@ == DocumentView::opened(
                    filename@,
                    contents@,
                ),
                Err(error) => opened == Err::<Document, LoadError>(error),
            },
    {
        let contents = match loaded {
            Ok(contents) => contents,
            Err(error) => {
                return Err(error);
            },
        };
        let text = to_chars(contents.as_str());
        let mut rows: Vec<Row> = Vec::new();
        let mut from: usize = 0;
        while from < text.len()
            invariant
                from <= text.len(),
                lines(text@) == Seq::new(rows.len() as nat, |y: int| rows[y]@.text) + lines_from(
                    text@,
                    from as int,
                ),
                forall|y: int|
                    0 <= y < rows.len() ==> (#[trigger] rows[y])@ == row_of(rows[y]@.text).highlight(
                        None,
                    ),
            decreases text.len() - from,
        {
            let mut end: usize = from;
            while end < text.len() && text[end] != '\n'
                invariant
                    from <= end <= text.len(),
                    line_end(text@, from as int) == line_end(text@, end as int),
                decreases text.len() - end,
            {
                end += 1;
            }
            let mut stop: usize = end;
            if end < text.len() && end > from && text[end - 1] == '\r' {
                stop = end - 1;
            }
            let mut line = String::new();
            let mut k: usize = from;
            while k < stop
                invariant
                    from <= k <= stop <= text.len(),
                    line@ == text@.subrange(from as int, k as int),
                decreases stop - k,
            {
                push_char(&mut line, text[k]);
                assert(text@.subrange(from as int, k + 1) =~= text@.subrange(from as int, k as int).push(
                    text@[k as int],
                ));
                k += 1;
            }
            let mut row = Row::from(line.as_str());
            row.hightlight(None);
            proof {
                let ghost done = Seq::new(rows.len() as nat, |y: int| rows[y]@.text);
                if end < text.len() {
                    assert(line@ =~= strip_cr(text@.subrange(from as int, end as int)));
                }
                assert(Seq::new((rows.len() + 1) as nat, |y: int| rows@.push(row)[y]@.text) =~= done.push(
                    row@.text,
                ));
            }
            rows.push(row);
            from = if end < text.len() {
                end + 1
            } else {
                end
            };
        }
        let document = Document { rows, filename: Some(String::from_str(filename)), dirty: false };
        proof {
            let texts = Seq::new(document.rows.len() as nat, |y: int| document.rows[y]@.text);
            assert(texts =~= lines(text@));
            assert(document@.rows =~= DocumentView::opened(filename@, contents@).rows);
        }
        Ok(document)
    }

    /// What a save writes: the text of every row in UTF-8, each followed by
    /// one line feed, in the order of the rows.
    pub fn save_bytes(&self) -> (bytes: Vec<u8>)
        ensures
            bytes@ == file_bytes(self@.rows, 0),
    {
        let mut bytes: Vec<u8> = Vec::new();
        let mut y: usize = 0;
        while y < self.rows.len()
            invariant
                y <= self.rows.len(),
                file_bytes(self@.rows, 0) == bytes@ + file_bytes(self@.rows, y as int),
            decreases self.rows.len() - y,
        {
            let ghost before = bytes@;
            let line = self.rows[y].as_bytes();
            let mut k: usize = 0;
            while k < line.len()
                invariant
                    k <= line.len(),
                    bytes@ == before + line@.take(k as int),
                decreases line.len() - k,
            {
                bytes.push(line[k]);
                assert(line@.take(k + 1) =~= line@.take(k as int).push(line@[k as int]));
                k += 1;
            }
            bytes.push(10u8);
            proof {
                assert(line@.take(line.len() as int) =~= line@);
                assert(bytes@ =~= before + (encode_utf8(self@.rows[y as int].text) + seq![10u8]));
            }
            y += 1;
        }
        bytes
    }

    /// Takes note of how writing the rows to the file ended.
    ///
    /// A document without a file name has nothing written and stays as it
    /// is; the answer is then `Ok`. Otherwise the answer is `written`, and
    /// where that is `Ok` the document is no longer changed.
    pub fn save(&mut self, written: Result<(), SaveError>) -> (saved: Result<(), SaveError>)
        ensures
            final(self)@ == old(self)@.saved(written),
            saved == (if old(self)@.filename is Some {
                written
            } else {
                Ok::<(), SaveError>(())
            }),
    {
        if self.filename.is_some() {
            if written.is_ok() {
                self.dirty = false;
            }
            assert(self@.rows == old(self)@.rows);
            return written;
        }
        Ok(())
    }

    /// Highlights every row anew for `word`.
    pub fn hightlight(&mut self, word: Option<&str>)
        ensures
            final(self)@ == old(self)@.highlight(word_view(word)),
    {
        let mut y: usize = 0;
        while y < self.rows.len()
            invariant
                y <= self.rows.len() == old(self).rows.len(),
                self.filename == old(self).filename,
                self.dirty == old(self).dirty,
                forall|k: int| 0 <= k < y ==> (#[trigger] self.rows[k])@ == old(self).rows[k]@.highlight(
                    word_view(word),
                ),
                forall|k: int| y <= k < self.rows.len() ==> (#[trigger] self.rows[k]) == old(self).rows[k],
            decreases self.rows.len() - y,
        {
            self.rows[y].hightlight(word);
            y += 1;
        }
        assert(self@.rows =~= old(self)@.highlight(word_view(word)).rows);
    }
}

/// Breaking a line and then deleting at the same place joins it again.
///
/// For a place inside the document, with `at.x` no more than the number of
/// graphemes of its row: the break makes two rows of row `at.y`, the delete
/// finds `at` at the end of the first and appends the second, and the
/// document has its rows as before, with the text of row `at.y` as it
/// was, its length the number of its graphemes, and every other row
/// untouched.
pub proof fn lemma_newline_then_delete(doc: DocumentView, at: Position)
    requires
        at.y < doc.rows.len(),
        at.x <= doc.rows[at.y as int].graphemes().len(),
    ensures
        doc.insert(at, '\n').delete(at).rows.len() == doc.rows.len(),
        doc.insert(at, '\n').delete(at).rows[at.y as int].text == doc.rows[at.y as int].text,
        doc.insert(at, '\n').delete(at).rows[at.y as int].len
            == doc.rows[at.y as int].graphemes().len(),
        forall|y: int|
            0 <= y < doc.rows.len() && y != at.y ==> doc.insert(at, '\n').delete(at).rows[y]
                == doc.rows[y],
{
    let row = doc.rows[at.y as int];
    lemma_clusters_tile(row.text);
    lemma_flatten_split(row.graphemes(), at.x as int);
}

} // verus!
