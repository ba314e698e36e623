//! The state of the editor between two keys: the document, the cursor and
//! the viewport, and what each key does to them.
//!
//! Reading keys and painting the screen are left to the program around this
//! library. It hands each key to [`Editor::process_keypress`], runs what the
//! answer asks for, and paints what [`Editor::draw_row`] and
//! [`Editor::screen_cursor`] give.
use crate::document::{Document, DocumentView, SaveError};
use crate::row::Row;
use crate::text::{decimal, decimal_string, greatest, least, pad, pop_char, push_char, spaces, truncate, truncated};
use vstd::prelude::*;
use vstd::string::*;

verus! {

/// How often the quit key has to be pressed on a changed document.
pub const QUIT_TIMES: u8 = 3;

/// The way a search walks through the text.
#[derive(PartialEq, Eq, Structural, Clone, Copy, Debug)]
pub enum SearchDirection {
    Forward,
    Backward,
}

/// A place in a document: grapheme `x` of row `y`.
#[derive(PartialEq, Eq, Structural, Clone, Copy, Debug)]
pub struct Position {
    pub x: usize,
    pub y: usize,
}

impl Default for Position {
    fn default() -> (position: Position)
        ensures
            position == (Position { x: 0, y: 0 }),
    {
        Position { x: 0, y: 0 }
    }
}

/// The part of the terminal that shows text, in cells.
#[derive(PartialEq, Eq, Structural, Clone, Copy, Debug)]
pub struct Size {
    pub width: u16,
    pub height: u16,
}

/// A key as the terminal reports it.
#[derive(PartialEq, Eq, Structural, Clone, Copy, Debug)]
pub enum Key {
    Backspace,
    Left,
    Right,
    Up,
    Down,
    Home,
    End,
    PageUp,
    PageDown,
    BackTab,
    Delete,
    Insert,
    F(u8),
    Char(char),
    Alt(char),
    Ctrl(char),
    Null,
    Esc,
}

/// What is left to do once a key was taken in.
#[derive(PartialEq, Eq, Structural, Clone, Copy, Debug)]
pub enum Action {
    /// The key was dealt with. `clear_status` says whether the status
    /// message is to be taken away.
    Done { clear_status: bool },
    /// The document is to be saved; [`Editor::settle`] follows.
    Save,
    /// A search is to be run; [`Editor::settle`] follows.
    Search,
    /// The document has unsaved changes and stays open. The quit key has to
    /// be pressed `presses_left` more times.
    QuitRefused { presses_left: u8 },
}

/// How a save ended, for the status message.
#[derive(PartialEq, Eq, Structural, Clone, Copy, Debug)]
pub enum SaveStatus {
    /// No file name was given.
    Aborted,
    /// The rows were written.
    Saved,
    /// Writing failed.
    Failed,
}

/// What a row of the screen shows.
#[derive(Debug)]
pub enum Line {
    /// A row of the document, as it is shown.
    Text(String),
    /// The welcome message of an empty document.
    Welcome,
    /// The mark of a line behind the end of the document.
    Beyond,
}

/// The offset of the viewport along one axis after the cursor moved.
///
/// A cursor before the window pulls the window back to itself. A cursor at
/// or behind the end of the window, an end that is held within the machine
/// word, pulls the window forward until the cursor is its last cell.
/// Otherwise the window stays.
pub open spec fn scrolled(cursor: int, extent: int, offset: int) -> int {
    if cursor < offset {
        cursor
    } else if cursor >= least(offset + extent, usize::MAX as int) {
        least(greatest(cursor - extent, 0) + 1, usize::MAX as int)
    } else {
        offset
    }
}

/// After scrolling, a window of at least one cell holds the cursor, and a
/// window that held it before and ends within the machine word has not
/// moved.
pub proof fn lemma_scrolled_shows_cursor(cursor: int, extent: int, offset: int)
    requires
        0 <= cursor <= usize::MAX,
        0 <= offset <= usize::MAX,
        0 < extent,
    ensures
        scrolled(cursor, extent, offset) <= cursor < scrolled(cursor, extent, offset) + extent,
        offset <= cursor < offset + extent <= usize::MAX ==> scrolled(cursor, extent, offset)
            == offset,
        cursor < offset ==> scrolled(cursor, extent, offset) == cursor,
        offset + extent <= cursor ==> scrolled(cursor, extent, offset) + extent == cursor + 1,
{
}

/// The length of row `y` of the document; 0 where it has no such row.
pub open spec fn row_len(document: DocumentView, y: int) -> int {
    if 0 <= y < document.rows.len() {
        document.rows[y].len as int
    } else {
        0
    }
}

/// Where the cursor stands after a key that moves it.
///
/// The arrows step by one grapheme or one row; left and right pass from one
/// row to the next at its ends. The page keys step by `page` rows, home and
/// end go to the ends of the row. No key leads beyond the line after the
/// last, and at the end the cursor is pulled back into its row.
pub open spec fn moved(document: DocumentView, cursor: Position, key: Key, page: int) -> Position {
    let x = cursor.x as int;
    let y = cursor.y as int;
    let width = row_len(document, y);
    let height = document.rows.len() as int;
    let place: (int, int) = match key {
        Key::Up => (x, greatest(y - 1, 0)),
        Key::Down => (x, if y < height {
            y + 1
        } else {
            y
        }),
        Key::Left => if x > 0 {
            (x - 1, y)
        } else if y > 0 {
            (row_len(document, y - 1), y - 1)
        } else {
            (x, y)
        },
        Key::Right => if x < width {
            (x + 1, y)
        } else if y < height {
            (0, y + 1)
        } else {
            (x, y)
        },
        Key::PageUp => (x, greatest(y - page, 0)),
        Key::PageDown => (x, if y + page < height {
            y + page
        } else {
            height
        }),
        Key::Home => (0, y),
        Key::End => (width, y),
        _ => (x, y),
    };
    Position { x: least(place.0, row_len(document, place.1)) as usize, y: place.1 as usize }
}

/// Whether `c` is a control character: U+0000 to U+001F, or U+007F to U+009F.
pub open spec fn is_control(c: char) -> bool {
    c <= '\u{1f}' || ('\u{7f}' <= c && c <= '\u{9f}')
}

/// The text of a prompt after `key`, and whether the prompt is over.
///
/// Backspace takes the last character away. A line feed ends the prompt,
/// escape ends it with nothing typed. Any other character that is no control
/// character is added.
pub open spec fn prompted(input: Seq<char>, key: Key) -> (Seq<char>, bool) {
    match key {
        Key::Backspace => (if input.len() > 0 {
            input.drop_last()
        } else {
            input
        }, false),
        Key::Char(c) => if c == '\n' {
            (input, true)
        } else if !is_control(c) {
            (input.push(c), false)
        } else {
            (input, false)
        },
        Key::Esc => (Seq::empty(), true),
        _ => (input, false),
    }
}

/// The editor between two keys.
pub struct Editor {
    should_quit: bool,
    size: Size,
    cursor_pos: Position,
    offset: Position,
    document: Document,
    quit_times: u8,
}

/// What an [`Editor`] holds.
pub struct EditorView {
    /// Whether the editor is to close.
    pub should_quit: bool,
    /// The part of the terminal that shows text.
    pub size: Size,
    /// Where the cursor stands in the document.
    pub cursor: Position,
    /// The place of the document in the top left cell.
    pub offset: Position,
    /// The document.
    pub document: DocumentView,
    /// How often the quit key is still to be pressed on a changed document.
    pub quit_times: u8,
}

impl EditorView {
    /// The editor with its viewport moved to where it shows the cursor.
    pub open spec fn scroll(self) -> EditorView {
        EditorView {
            offset: Position {
                x: scrolled(self.cursor.x as int, self.size.width as int, self.offset.x as int) as usize,
                y: scrolled(self.cursor.y as int, self.size.height as int, self.offset.y as int) as usize,
            },
            ..self
        }
    }

    /// The editor with its cursor moved as `key` asks.
    pub open spec fn move_cursor(self, key: Key) -> EditorView {
        EditorView { cursor: moved(self.document, self.cursor, key, self.size.height as int), ..self }
    }

    /// Whether the quit key is refused: the document has unsaved changes and
    /// the key was not pressed often enough.
    pub open spec fn refuses_quit(self) -> bool {
        self.quit_times > 0 && self.document.dirty
    }

    /// What is left to do once `key` was taken in.
    pub open spec fn action(self, key: Key) -> Action {
        match key {
            Key::Ctrl(c) => if c == 'a' && self.refuses_quit() {
                Action::QuitRefused { presses_left: self.quit_times }
            } else if c == 's' {
                Action::Save
            } else if c == 'f' {
                Action::Search
            } else {
                Action::Done { clear_status: self.quit_times < QUIT_TIMES }
            },
            _ => Action::Done { clear_status: self.quit_times < QUIT_TIMES },
        }
    }

    /// The editor after what `key` itself does to the document and the
    /// cursor.
    ///
    /// The quit key closes the editor. A character goes into the document at
    /// the cursor, which steps right. Backspace steps left and deletes there,
    /// unless the cursor is at the start of the document. Delete deletes at
    /// the cursor. The keys that move the cursor move it. Every other key
    /// does nothing.
    pub open spec fn edit(self, key: Key) -> EditorView {
        match key {
            Key::Ctrl(c) => if c == 'a' {
                EditorView { should_quit: true, ..self }
            } else {
                self
            },
            Key::Char(c) => (EditorView {
                document: self.document.insert(self.cursor, c),
                ..self
            }).move_cursor(Key::Right),
            Key::Backspace => if self.cursor.x > 0 || self.cursor.y > 0 {
                let back = self.move_cursor(Key::Left);
                EditorView { document: back.document.delete(back.cursor), ..back }
            } else {
                self
            },
            Key::Delete => EditorView { document: self.document.delete(self.cursor), ..self },
            Key::Up | Key::Down | Key::Left | Key::Right | Key::PageUp | Key::PageDown | Key::End | Key::Home => self.move_cursor(key),
            _ => self,
        }
    }

    /// The editor once a key is dealt with: the viewport shows the cursor,
    /// and the count of the quit key starts anew.
    pub open spec fn settle(self) -> EditorView {
        EditorView { quit_times: greatest(self.quit_times as int, QUIT_TIMES as int) as u8, ..self.scroll() }
    }

    /// The editor after `key` was taken in.
    ///
    /// A refused quit only counts the key. A save or a search is left to the
    /// caller, and nothing changes yet. Any other key is carried out and the
    /// editor settles.
    pub open spec fn process_keypress(self, key: Key) -> EditorView {
        match self.action(key) {
            Action::QuitRefused { .. } => EditorView { quit_times: (self.quit_times - 1) as u8, ..self },
            Action::Save => self,
            Action::Search => self,
            Action::Done { .. } => self.edit(key).settle(),
        }
    }

    /// The direction of a search after `key`: right and down look forward,
    /// left and up look backward, any other key keeps the direction.
    pub open spec fn search_direction(key: Key, direction: SearchDirection) -> SearchDirection {
        match key {
            Key::Right | Key::Down => SearchDirection::Forward,
            Key::Left | Key::Up => SearchDirection::Backward,
            _ => direction,
        }
    }

    /// The editor after one key of a search for `query`.
    ///
    /// Right and down step off the place found before. The search then runs
    /// from the cursor in the direction that the key gives. Where it finds
    /// `query`, the cursor goes there and the viewport follows; where it does
    /// not, a step taken is taken back. Every row is highlighted for `query`.
    pub open spec fn search_step(self, key: Key, query: Seq<char>, direction: SearchDirection) -> EditorView {
        let stepped = key == Key::Right || key == Key::Down;
        let start = if stepped {
            self.move_cursor(Key::Right)
        } else {
            self
        };
        let after = match start.document.find(
            query,
            start.cursor,
            Self::search_direction(key, direction),
        ) {
            Some(place) => (EditorView {
                cursor: Position { x: place.0 as usize, y: place.1 as usize },
                ..start
            }).scroll(),
            None => if stepped {
                start.move_cursor(Key::Left)
            } else {
                start
            },
        };
        EditorView { document: after.document.highlight(Some(query)), ..after }
    }

    /// The editor after a search ended. A search given up puts the cursor
    /// back to `origin`. The highlighting of the search goes away.
    pub open spec fn finish_search(self, origin: Position, found: bool) -> EditorView {
        let back = if found {
            self
        } else {
            (EditorView { cursor: origin, ..self }).scroll()
        };
        EditorView { document: back.document.highlight(None), ..back }
    }

    /// The status bar: on the left the name of the file, cut to 20
    /// characters, the number of lines and whether the document was changed;
    /// on the right the line of the cursor and the number of lines. Spaces
    /// between the two fill the width of the terminal, and what is longer
    /// than that is cut off.
    pub open spec fn status_bar(self) -> Seq<char> {
        let name = match self.document.filename {
            Some(name) => truncated(name, 20),
            None => "[No Name]"@,
        };
        let lines = decimal(self.document.rows.len());
        let changed = if self.document.dirty {
            " (modeified)"@
        } else {
            Seq::empty()
        };
        let left = name + " - "@ + lines + " lines"@ + changed;
        let right = decimal(least(self.cursor.y + 1, usize::MAX as int) as nat) + "/"@ + lines;
        let gap = greatest(self.size.width - left.len() - right.len(), 0) as nat;
        truncated(left + spaces(gap) + right, self.size.width as nat)
    }

    /// The welcome message for `version` of the editor: a tilde, then the
    /// message moved towards the middle of the terminal, cut to its width.
    pub open spec fn welcome_message(self, version: Seq<char>) -> Seq<char> {
        let message = "Hecto editor -- version "@ + version + "\r"@;
        let padding = (greatest(self.size.width - message.len(), 0) / 2) as nat;
        truncated("~"@ + spaces(padding) + message, self.size.width as nat)
    }

    /// The place of the cursor on the screen.
    pub open spec fn screen_cursor(self) -> Position {
        Position {
            x: greatest(self.cursor.x - self.offset.x, 0) as usize,
            y: greatest(self.cursor.y - self.offset.y, 0) as usize,
        }
    }
}

impl View for Editor {
    type V = EditorView;

    closed spec fn view(&self) -> EditorView {
        EditorView {
            should_quit: self.should_quit,
            size: self.size,
            cursor: self.cursor_pos,
            offset: self.offset,
            document: self.document@,
            quit_times: self.quit_times,
        }
    }
}

/// The text that a prompt has taken in so far.
pub struct Prompt {
    input: String,
}

impl View for Prompt {
    type V = Seq<char>;

    closed spec fn view(&self) -> Seq<char> {
        self.input@
    }
}

impl Prompt {
    /// A prompt with nothing typed.
    pub fn new() -> (prompt: Prompt)
        ensures
            prompt@ == Seq::<char>::empty(),
    {
        Prompt { input: String::new() }
    }

    /// What was typed so far.
    pub fn text(&self) -> (text: &str)
        ensures
            text@ == self@,
    {
        self.input.as_str()
    }

    /// Takes `key` in and says whether the prompt is over.
    pub fn key(&mut self, key: Key) -> (over: bool)
        ensures
            final(self)@ == prompted(old(self)@, key).0,
            over == prompted(old(self)@, key).1,
    {
        match key {
            Key::Backspace => {
                if !self.input.as_str().is_empty() {
                    pop_char(&mut self.input);
                }
                false
            },
            Key::Char(c) => {
                if c == '\n' {
                    true
                } else {
                    if !(c <= '\u{1f}' || ('\u{7f}' <= c && c <= '\u{9f}')) {
                        push_char(&mut self.input, c);
                    }
                    false
                }
            },
            Key::Esc => {
                self.input = String::new();
                true
            },
            _ => false,
        }
    }

    /// What the prompt gives in the end: the text typed, or nothing where
    /// none was.
    pub fn finish(self) -> (answer: Option<String>)
        ensures
            match answer {
                Some(text) => text@ == self@ && self@.len() > 0,
                None => self@.len() == 0,
            },
    {
        if self.input.as_str().is_empty() {
            None
        } else {
            Some(self.input)
        }
    }
}

impl Editor {
    /// An editor on `document`, with the cursor and the viewport at its
    /// start, for a terminal that shows `size` cells of text.
    pub fn new(document: Document, size: Size) -> (editor: Editor)
        ensures
            editor@ == (EditorView {
                should_quit: false,
                size,
                cursor: Position { x: 0, y: 0 },
                offset: Position { x: 0, y: 0 },
                document: document@,
                quit_times: 0,
            }),
    {
        Editor {
            should_quit: false,
            size,
            cursor_pos: Position { x: 0, y: 0 },
            offset: Position { x: 0, y: 0 },
            document,
            quit_times: 0,
        }
    }

    /// Whether the editor is to close.
    pub fn should_quit(&self) -> (quit: bool)
        ensures
            quit == self@.should_quit,
    {
        self.should_quit
    }

    /// The document.
    pub fn document(&self) -> (document: &Document)
        ensures
            document@ == self@.document,
    {
        &self.document
    }

    /// Where the cursor stands in the document.
    pub fn cursor_position(&self) -> (cursor: Position)
        ensures
            cursor == self@.cursor,
    {
        self.cursor_pos
    }

    /// The place of the document in the top left cell.
    pub fn offset(&self) -> (offset: Position)
        ensures
            offset == self@.offset,
    {
        self.offset
    }

    /// The part of the terminal that shows text.
    pub fn size(&self) -> (size: Size)
        ensures
            size == self@.size,
    {
        self.size
    }

    /// Moves the viewport to where it shows the cursor, by no more than that
    /// takes.
    pub fn scroll(&mut self)
        ensures
            final(self)@ == old(self)@.scroll(),
            old(self)@.size.height > 0 ==> final(self)@.offset.y <= final(self)@.cursor.y
                < final(self)@.offset.y + final(self)@.size.height,
            old(self)@.size.width > 0 ==> final(self)@.offset.x <= final(self)@.cursor.x
                < final(self)@.offset.x + final(self)@.size.width,
    {
        let Position { x, y } = self.cursor_pos;
        let width = self.size.width as usize;
        let height = self.size.height as usize;
        if y < self.offset.y {
            self.offset.y = y;
        } else if y >= self.offset.y.saturating_add(height) {
            self.offset.y = y.saturating_sub(height).saturating_add(1);
        }
        if x < self.offset.x {
            self.offset.x = x;
        } else if x >= self.offset.x.saturating_add(width) {
            self.offset.x = x.saturating_sub(width).saturating_add(1);
        }
    }

    /// Moves the cursor as `key` asks.
    pub fn move_cursor(&mut self, key: Key)
        ensures
            final(self)@ == old(self)@.move_cursor(key),
            final(self)@.cursor.x <= row_len(final(self)@.document, final(self)@.cursor.y as int),
            old(self)@.cursor.y <= old(self)@.document.rows.len() ==> final(self)@.cursor.y
                <= final(self)@.document.rows.len(),
    {
        let Position { x, y } = self.cursor_pos;
        let mut x = x;
        let mut y = y;
        let mut width = self.row_length(y);
        let height = self.document.len();
        let terminal_height = self.size.height as usize;
        match key {
            Key::Up => {
                y = y.saturating_sub(1);
            },
            Key::Down => {
                if y < height {
                    y = y + 1;
                }
            },
            Key::Left => {
                if x > 0 {
                    x = x - 1;
                } else if y > 0 {
                    y = y - 1;
                    x = self.row_length(y);
                }
            },
            Key::Right => {
                if x < width {
                    x = x + 1;
                } else if y < height {
                    y = y + 1;
                    x = 0;
                }
            },
            Key::PageUp => {
                y = if y > terminal_height {
                    y - terminal_height
                } else {
                    0
                };
            },
            Key::PageDown => {
                y = if y.saturating_add(terminal_height) < height {
                    y + terminal_height
                } else {
                    height
                };
            },
            Key::Home => {
                x = 0;
            },
            Key::End => {
                x = width;
            },
            _ => {},
        }
        width = self.row_length(y);
        if x > width {
            x = width;
        }
        self.cursor_pos = Position { x, y };
    }

    /// The length of row `y` of the document; 0 where it has no such row.
    fn row_length(&self, y: usize) -> (width: usize)
        ensures
            width == row_len(self@.document, y as int),
    {
        match self.document.row(y) {
            Some(row) => row.len(),
            None => 0,
        }
    }

    /// Takes `key` in and says what is left to do.
    pub fn process_keypress(&mut self, key: Key) -> (action: Action)
        ensures
            action == old(self)@.action(key),
            final(self)@ == old(self)@.process_keypress(key),
    {
        match key {
            Key::Ctrl(c) => {
                if c == 'a' {
                    if self.quit_times > 0 && self.document.is_dirty() {
                        let presses_left = self.quit_times;
                        self.quit_times = self.quit_times - 1;
                        return Action::QuitRefused { presses_left };
                    }
                    self.should_quit = true;
                } else if c == 's' {
                    return Action::Save;
                } else if c == 'f' {
                    return Action::Search;
                }
            },
            Key::Char(c) => {
                self.document.insert(&self.cursor_pos, c);
                self.move_cursor(Key::Right);
            },
            Key::Backspace => {
                if self.cursor_pos.x > 0 || self.cursor_pos.y > 0 {
                    self.move_cursor(Key::Left);
                    self.document.delete(&self.cursor_pos);
                }
            },
            Key::Delete => {
                self.document.delete(&self.cursor_pos);
            },
            Key::Up | Key::Down | Key::Left | Key::Right | Key::PageUp | Key::PageDown | Key::End | Key::Home => {
                self.move_cursor(key);
            },
            _ => {},
        }
        let clear_status = self.settle();
        Action::Done { clear_status }
    }

    /// Ends the work on a key: the viewport is moved to the cursor and the
    /// count of the quit key starts anew. The answer says whether the status
    /// message is to be taken away.
    pub fn settle(&mut self) -> (clear_status: bool)
        ensures
            final(self)@ == old(self)@.settle(),
            clear_status == (old(self)@.quit_times < QUIT_TIMES),
    {
        self.scroll();
        if self.quit_times < QUIT_TIMES {
            self.quit_times = QUIT_TIMES;
            true
        } else {
            false
        }
    }

    /// Whether a save has to ask for a file name first.
    pub fn needs_file_name(&self) -> (needed: bool)
        ensures
            needed == (self@.document.filename is None),
    {
        self.document.file_name().is_none()
    }

    /// Gives the document the file name that was asked for. Without a name
    /// nothing changes, and the answer says that the save is given up.
    pub fn name_file(&mut self, name: Option<String>) -> (status: Option<SaveStatus>)
        ensures
            match name {
                Some(text) => status is None && final(self)@ == (EditorView {
                    document: DocumentView { filename: Some(text@), ..old(self)@.document },
                    ..old(self)@
                }),
                None => status == Some(SaveStatus::Aborted) && final(self)@ == old(self)@,
            },
    {
        match name {
            Some(text) => {
                self.document.set_file_name(text);
                None
            },
            None => Some(SaveStatus::Aborted),
        }
    }

    /// Takes note of how writing the document ended, and says which message
    /// the status line gets.
    pub fn save(&mut self, written: Result<(), SaveError>) -> (status: SaveStatus)
        ensures
            final(self)@ == (EditorView { document: old(self)@.document.saved(written), ..old(self)@ }),
            status == (if old(self)@.document.filename is None || written is Ok {
                SaveStatus::Saved
            } else {
                SaveStatus::Failed
            }),
    {
        if self.document.save(written).is_ok() {
            SaveStatus::Saved
        } else {
            SaveStatus::Failed
        }
    }

    /// Takes one key of a search for `query` in, and gives the direction in
    /// which the search goes on.
    pub fn search_step(&mut self, key: Key, query: &str, direction: SearchDirection) -> (next: SearchDirection)
        ensures
            next == EditorView::search_direction(key, direction),
            final(self)@ == old(self)@.search_step(key, query@, direction),
    {
        let mut direction = direction;
        let mut stepped = false;
        match key {
            Key::Right | Key::Down => {
                direction = SearchDirection::Forward;
                self.move_cursor(Key::Right);
                stepped = true;
            },
            Key::Left | Key::Up => {
                direction = SearchDirection::Backward;
            },
            _ => {},
        }
        if let Some(position) = self.document.find(query, &self.cursor_pos, direction) {
            self.cursor_pos = position;
            self.scroll();
        } else if stepped {
            self.move_cursor(Key::Left);
        }
        self.document.hightlight(Some(query));
        direction
    }

    /// Ends a search that began with the cursor at `origin`; `found` says
    /// whether it ended on a query.
    pub fn finish_search(&mut self, origin: Position, found: bool)
        ensures
            final(self)@ == old(self)@.finish_search(origin, found),
    {
        if !found {
            self.cursor_pos = origin;
            self.scroll();
        }
        self.document.hightlight(None);
    }

    /// The part of `row` that the viewport shows, as it is painted.
    pub fn draw_row(&self, row: &Row) -> (shown: String)
        ensures
            shown@ == row@.render(
                self@.offset.x as int,
                least(self@.offset.x + self@.size.width, usize::MAX as int),
            ),
    {
        let width = self.size.width as usize;
        let start = self.offset.x;
        let end = self.offset.x.saturating_add(width);
        row.render(start, end)
    }

    /// What row `terminal_row` of the screen shows: the row of the document
    /// that the viewport puts there; or the welcome message, a third down
    /// the screen of an empty document; or the mark of a line behind the end.
    pub fn draw_rows(&self, terminal_row: u16) -> (line: Line)
        ensures
            match line {
                Line::Text(shown) => {
                    let y = least(self@.offset.y + terminal_row, usize::MAX as int);
                    &&& y < self@.document.rows.len()
                    &&& shown@ == self@.document.rows[y].render(
                        self@.offset.x as int,
                        least(self@.offset.x + self@.size.width, usize::MAX as int),
                    )
                },
                Line::Welcome => {
                    &&& self@.document.rows.len() == 0
                    &&& terminal_row == self@.size.height / 3
                },
                Line::Beyond => {
                    &&& least(self@.offset.y + terminal_row, usize::MAX as int)
                        >= self@.document.rows.len()
                    &&& !(self@.document.rows.len() == 0 && terminal_row == self@.size.height / 3)
                },
            },
    {
        match self.document.row(self.offset.y.saturating_add(terminal_row as usize)) {
            Some(row) => Line::Text(self.draw_row(row)),
            None => {
                if self.document.is_empty() && terminal_row == self.size.height / 3 {
                    Line::Welcome
                } else {
                    Line::Beyond
                }
            },
        }
    }

    /// The text of the status bar.
    pub fn draw_status_bar(&self) -> (bar: String)
        ensures
            bar@ == self@.status_bar(),
    {
        let width = self.size.width as usize;
        let mut status = match self.document.file_name() {
            Some(name) => truncate(name, 20),
            None => String::from_str("[No Name]"),
        };
        let lines = decimal_string(self.document.len());
        status.append(" - ");
        status.append(lines.as_str());
        status.append(" lines");
        if self.document.is_dirty() {
            status.append(" (modeified)");
        }
        let mut line_indicator = decimal_string(self.cursor_pos.y.saturating_add(1));
        line_indicator.append("/");
        line_indicator.append(lines.as_str());
        let len = status.as_str().unicode_len().saturating_add(line_indicator.as_str().unicode_len());
        pad(&mut status, width.saturating_sub(len));
        status.append(line_indicator.as_str());
        truncate(status.as_str(), width)
    }

    /// The text of the welcome message for `version` of the editor.
    pub fn draw_welcome_msg(&self, version: &str) -> (message: String)
        ensures
            message@ == self@.welcome_message(version@),
    {
        let width = self.size.width as usize;
        let mut welcome_msg = String::from_str("Hecto editor -- version ");
        welcome_msg.append(version);
        welcome_msg.append("\r");
        let len = welcome_msg.as_str().unicode_len();
        let padding = width.saturating_sub(len) / 2;
        let mut message = String::from_str("~");
        pad(&mut message, padding);
        message.append(welcome_msg.as_str());
        truncate(message.as_str(), width)
    }

    /// The place of the cursor on the screen: its place in the document,
    /// less the offset of the viewport.
    pub fn screen_cursor(&self) -> (place: Position)
        ensures
            place == self@.screen_cursor(),
    {
        Position {
            x: self.cursor_pos.x.saturating_sub(self.offset.x),
            y: self.cursor_pos.y.saturating_sub(self.offset.y),
        }
    }
}

} // verus!
