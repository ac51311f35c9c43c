//! Cursor, viewport and command dispatch: the controller that applies one
//! discrete command at a time to the buffer, then re-clamps the cursor and
//! the scroll offset so that all three stay mutually consistent.

use vstd::prelude::*;

use crate::document::{
    doc_delete, doc_delete_row, doc_find_from, doc_insert, Document,
};
use crate::text::grapheme_clusters;

verus! {

/// A buffer coordinate: `x` is a grapheme column, `y` is a line index.
/// `y` may equal the line count (the append-past-last-line position).
#[derive(Clone, Copy, PartialEq, Eq, Structural, Debug)]
pub struct Position {
    pub x: usize,
    pub y: usize,
}

impl Default for Position {
    /// The origin, (0, 0).
    fn default() -> (r: Self)
        ensures
            r.x == 0 && r.y == 0,
    {
        Position { x: 0, y: 0 }
    }
}

/// A cursor movement direction.
#[derive(Clone, Copy, PartialEq, Eq, Structural, Debug)]
pub enum Direction {
    Up,
    Down,
    Left,
    Right,
    PageUp,
    PageDown,
    Home,
    End,
}

/// The controller mode: ordinary navigation, or a pending line move in
/// which Up and Down reorder the current line instead of moving the
/// cursor.
#[derive(Clone, Copy, PartialEq, Eq, Structural, Debug)]
pub enum EditorMode {
    Normal,
    PendingLineMove,
}

/// One discrete editing command, produced by an input-decoding
/// collaborator.
pub enum Command {
    InsertChar(char),
    InsertNewline,
    DeleteForward,
    DeleteBackward,
    Move(Direction),
    ToggleLineMoveMode,
    MoveLine(Direction),
    Find(String),
    DeleteLine,
    SetBufferName(String),
}

/// The grapheme length of line `y`, or 0 where there is no such line.
pub open spec fn line_len(lines: Seq<Seq<Seq<char>>>, y: int) -> int {
    if 0 <= y < lines.len() {
        lines[y].len() as int
    } else {
        0
    }
}

/// The cursor after one movement over `lines`: the direction's own rule,
/// then the column re-clamped to the destination line.
pub open spec fn cursor_moved(
    lines: Seq<Seq<Seq<char>>>,
    x: int,
    y: int,
    terminal_height: int,
    direction: Direction,
) -> (int, int) {
    let height = lines.len() as int;
    let width = line_len(lines, y);
    let moved: (int, int) = match direction {
        Direction::Up => (
            x,
            if y > 0 {
                y - 1
            } else {
                0
            },
        ),
        Direction::Down => (
            x,
            if y < height {
                y + 1
            } else {
                y
            },
        ),
        Direction::Left => if x > 0 {
            (x - 1, y)
        } else if y > 0 {
            (line_len(lines, y - 1), y - 1)
        } else {
            (x, y)
        },
        Direction::Right => if x < width {
            (x + 1, y)
        } else if y < height {
            (0, y + 1)
        } else {
            (x, y)
        },
        Direction::PageUp => (
            x,
            if y > terminal_height {
                y - terminal_height
            } else {
                0
            },
        ),
        Direction::PageDown => (
            x,
            if y + terminal_height < height {
                y + terminal_height
            } else {
                height
            },
        ),
        Direction::Home => (0, y),
        Direction::End => (width, y),
    };
    let end = line_len(lines, moved.1);
    (
        if moved.0 > end {
            end
        } else {
            moved.0
        },
        moved.1,
    )
}

/// One scroll coordinate after adjusting the viewport: the offset moves up
/// to the cursor, or down so the cursor is the last visible coordinate,
/// mirroring the saturating machine arithmetic of the adjustment.
pub open spec fn scroll_coord(c: int, o: int, extent: int) -> int {
    let lim = if o + extent <= usize::MAX {
        o + extent
    } else {
        usize::MAX as int
    };
    if c < o {
        c
    } else if c >= lim {
        if c - extent + 1 <= usize::MAX {
            c - extent + 1
        } else {
            usize::MAX as int
        }
    } else {
        o
    }
}

/// The buffer after the line at `y` is moved one step up or down: the line
/// is removed and re-inserted one index earlier or later where that
/// position exists; at the boundary the removal stands alone.
pub open spec fn lines_after_move(
    lines: Seq<Seq<Seq<char>>>,
    y: int,
    direction: Direction,
) -> Seq<Seq<Seq<char>>> {
    if !(0 <= y < lines.len()) {
        lines
    } else {
        let removed = lines.remove(y);
        if direction == Direction::Up {
            if y > 0 {
                removed.insert(y - 1, lines[y])
            } else {
                removed
            }
        } else {
            if y + 1 <= removed.len() {
                removed.insert(y + 1, lines[y])
            } else {
                removed
            }
        }
    }
}

/// The other controller mode.
pub open spec fn mode_toggled(mode: EditorMode) -> EditorMode {
    match mode {
        EditorMode::Normal => EditorMode::PendingLineMove,
        EditorMode::PendingLineMove => EditorMode::Normal,
    }
}

/// Everything a collaborator can observe of the controller: the buffer's
/// lines, name and dirty flag, the cursor, the scroll offset and the mode.
#[verifier::ext_equal]
pub ghost struct EditorView {
    pub lines: Seq<Seq<Seq<char>>>,
    pub file_name: Option<String>,
    pub dirty: bool,
    pub cursor_x: int,
    pub cursor_y: int,
    pub offset_x: int,
    pub offset_y: int,
    pub mode: EditorMode,
}

/// The cursor lies inside the buffer: on a line, at most one past its
/// last cluster; or at the append position, in column 0.
pub open spec fn cursor_in_bounds(lines: Seq<Seq<Seq<char>>>, x: int, y: int) -> bool {
    &&& 0 <= y <= lines.len()
    &&& y < lines.len() ==> 0 <= x <= lines[y].len()
    &&& y == lines.len() ==> x == 0
}

/// The state after an insertion at the cursor followed by one move to the
/// right.
pub open spec fn step_insert(v: EditorView, c: char, height: int) -> EditorView {
    let lines1 = doc_insert(v.lines, v.cursor_x, v.cursor_y, c);
    let dirty1 = if v.cursor_y <= v.lines.len() {
        true
    } else {
        v.dirty
    };
    let moved = cursor_moved(lines1, v.cursor_x, v.cursor_y, height, Direction::Right);
    EditorView { lines: lines1, dirty: dirty1, cursor_x: moved.0, cursor_y: moved.1, ..v }
}

/// The state after a backward deletion: one move to the left, then a
/// deletion at the new cursor; at the buffer's origin nothing happens.
pub open spec fn step_delete_backward(v: EditorView, height: int) -> EditorView {
    if v.cursor_x > 0 || v.cursor_y > 0 {
        let moved = cursor_moved(v.lines, v.cursor_x, v.cursor_y, height, Direction::Left);
        let lines1 = doc_delete(v.lines, moved.0, moved.1);
        EditorView { lines: lines1, dirty: true, cursor_x: moved.0, cursor_y: moved.1, ..v }
    } else {
        v
    }
}

/// The state after one cursor movement.
pub open spec fn step_move(v: EditorView, direction: Direction, height: int) -> EditorView {
    let moved = cursor_moved(v.lines, v.cursor_x, v.cursor_y, height, direction);
    EditorView { cursor_x: moved.0, cursor_y: moved.1, ..v }
}

/// The state after the cursor's line is moved one step up or down, the
/// cursor following it.
pub open spec fn step_move_line(v: EditorView, direction: Direction, height: int) -> EditorView {
    if v.cursor_y < v.lines.len() {
        let lines1 = lines_after_move(v.lines, v.cursor_y, direction);
        let moved = cursor_moved(lines1, v.cursor_x, v.cursor_y, height, direction);
        EditorView { lines: lines1, dirty: true, cursor_x: moved.0, cursor_y: moved.1, ..v }
    } else {
        v
    }
}

/// The state after a search: the cursor jumps to the first match at or
/// below its line, or stays where it is.
pub open spec fn step_find(v: EditorView, q: Seq<Seq<char>>) -> EditorView {
    match doc_find_from(v.lines, q, v.cursor_y) {
        Some(p) => EditorView { cursor_x: p.0, cursor_y: p.1, ..v },
        None => v,
    }
}

/// The state after the cursor's whole line is removed and the cursor's
/// column is re-clamped against the line that took its place.
pub open spec fn step_delete_line(v: EditorView) -> EditorView {
    let lines1 = doc_delete_row(v.lines, v.cursor_y);
    let end = line_len(lines1, v.cursor_y);
    EditorView {
        lines: lines1,
        dirty: true,
        cursor_x: if v.cursor_x > end {
            end
        } else {
            v.cursor_x
        },
        ..v
    }
}

/// The state after a command's edit, before the viewport is adjusted.
pub open spec fn step_edit(v: EditorView, command: Command, height: int) -> EditorView {
    match command {
        Command::InsertChar(c) => step_insert(v, c, height),
        Command::InsertNewline => step_insert(v, '\n', height),
        Command::DeleteForward => EditorView {
            lines: doc_delete(v.lines, v.cursor_x, v.cursor_y),
            dirty: true,
            ..v
        },
        Command::DeleteBackward => step_delete_backward(v, height),
        Command::Move(direction) => if v.mode == EditorMode::PendingLineMove && (direction
            == Direction::Up || direction == Direction::Down) {
            step_move_line(v, direction, height)
        } else {
            step_move(v, direction, height)
        },
        Command::ToggleLineMoveMode => EditorView { mode: mode_toggled(v.mode), ..v },
        Command::MoveLine(direction) => if direction == Direction::Up || direction
            == Direction::Down {
            step_move_line(v, direction, height)
        } else {
            v
        },
        Command::Find(query) => step_find(v, grapheme_clusters(query@)),
        Command::DeleteLine => step_delete_line(v),
        Command::SetBufferName(name) => EditorView { file_name: Some(name), ..v },
    }
}

/// The state after one whole command: the command's edit, then the
/// viewport adjusted to the resulting cursor.
pub open spec fn step(v: EditorView, command: Command, width: int, height: int) -> EditorView {
    let m = step_edit(v, command, height);
    EditorView {
        offset_x: scroll_coord(m.cursor_x, m.offset_x, width),
        offset_y: scroll_coord(m.cursor_y, m.offset_y, height),
        ..m
    }
}

/// The controller: the buffer it owns, the cursor, the scroll offset and
/// the mode.
pub struct Editor {
    document: Document,
    cursor_position: Position,
    offset: Position,
    mode: EditorMode,
}

impl View for Editor {
    type V = EditorView;

    closed spec fn view(&self) -> EditorView {
        EditorView {
            lines: self.document.lines(),
            file_name: self.document.spec_file_name(),
            dirty: self.document.spec_dirty(),
            cursor_x: self.cursor_position.x as int,
            cursor_y: self.cursor_position.y as int,
            offset_x: self.offset.x as int,
            offset_y: self.offset.y as int,
            mode: self.mode,
        }
    }
}

impl Editor {
    /// The controller's invariant: every line is well formed and the
    /// cursor lies inside the buffer.
    pub open spec fn wf(&self) -> bool {
        &&& self.wf_loose()
        &&& cursor_in_bounds(self@.lines, self@.cursor_x, self@.cursor_y)
    }

    /// As `wf`, without the bound on the cursor's column: enough for a
    /// movement, which re-clamps the column itself.
    pub closed spec fn wf_loose(&self) -> bool {
        &&& self.document.wf()
        &&& 0 <= self@.cursor_y <= self@.lines.len()
    }

    /// A controller over `document`, with the cursor and the offset at the
    /// origin, in normal mode.
    pub fn new(document: Document) -> (r: Editor)
        requires
            document.wf(),
        ensures
            r.wf(),
            r@.lines == document.lines(),
            r@.file_name == document.spec_file_name(),
            r@.dirty == document.spec_dirty(),
            r@.cursor_x == 0,
            r@.cursor_y == 0,
            r@.offset_x == 0,
            r@.offset_y == 0,
            r@.mode == EditorMode::Normal,
    {
        Editor {
            document,
            cursor_position: Position { x: 0, y: 0 },
            offset: Position { x: 0, y: 0 },
            mode: EditorMode::Normal,
        }
    }

    /// The current cursor position.
    pub fn cursor_position(&self) -> (r: Position)
        ensures
            r.x == self@.cursor_x,
            r.y == self@.cursor_y,
    {
        self.cursor_position
    }

    /// The current scroll offset.
    pub fn offset(&self) -> (r: Position)
        ensures
            r.x == self@.offset_x,
            r.y == self@.offset_y,
    {
        self.offset
    }

    /// Whether the buffer holds unsaved mutations.
    pub fn is_dirty(&self) -> (r: bool)
        ensures
            r == self@.dirty,
    {
        self.document.dirty()
    }

    /// The current controller mode.
    pub fn mode(&self) -> (r: EditorMode)
        ensures
            r == self@.mode,
    {
        self.mode
    }

    /// The buffer, read-only, for a rendering collaborator.
    pub fn document(&self) -> (r: &Document)
        ensures
            r.lines() == self@.lines,
            r.spec_file_name() == self@.file_name,
            r.spec_dirty() == self@.dirty,
            self.wf() ==> r.wf(),
    {
        &self.document
    }

    /// The text of each line in order, for a persisting collaborator.
    pub fn save_lines(&self) -> (r: Vec<String>)
        requires
            self.wf(),
        ensures
            r@.len() == self@.lines.len(),
            forall|i: int| 0 <= i < r@.len() ==> r@[i]@ == crate::text::concat_all(
                self@.lines[i],
            ),
    {
        self.document.save_lines()
    }

    /// Records the outcome the persisting collaborator reported: success
    /// clears the dirty flag, failure leaves it as it was.
    pub fn finish_save(&mut self, success: bool)
        requires
            old(self).wf(),
        ensures
            final(self).wf(),
            final(self)@ == (EditorView { dirty: old(self)@.dirty && !success, ..old(self)@ }),
    {
        self.document.finish_save(success);
        proof {
            assert(self@ =~= (EditorView { dirty: old(self)@.dirty && !success, ..old(self)@ }));
        }
    }

    /// Moves the cursor one step and re-clamps its column against the
    /// destination line.
    pub fn move_cursor(&mut self, direction: Direction, terminal_height: usize)
        requires
            old(self).wf_loose(),
        ensures
            final(self).wf(),
            final(self)@.lines == old(self)@.lines,
            final(self)@.file_name == old(self)@.file_name,
            final(self)@.dirty == old(self)@.dirty,
            final(self)@.mode == old(self)@.mode,
            final(self)@.offset_x == old(self)@.offset_x,
            final(self)@.offset_y == old(self)@.offset_y,
            (final(self)@.cursor_x, final(self)@.cursor_y) == cursor_moved(
                old(self)@.lines,
                old(self)@.cursor_x,
                old(self)@.cursor_y,
                terminal_height as int,
                direction,
            ),
    {
        let mut x: usize = self.cursor_position.x;
        let mut y: usize = self.cursor_position.y;
        let height = self.document.len();
        let width = match self.document.row(y) {
            Some(row) => row.len(),
            None => 0,
        };
        match direction {
            Direction::Up => {
                y = if y > 0 {
                    y - 1
                } else {
                    0
                };
            },
            Direction::Down => {
                if y < height {
                    y = y + 1;
                }
            },
            Direction::Left => {
                if x > 0 {
                    x = x - 1;
                } else if y > 0 {
                    y = y - 1;
                    x = match self.document.row(y) {
                        Some(row) => row.len(),
                        None => 0,
                    };
                }
            },
            Direction::Right => {
                if x < width {
                    x = x + 1;
                } else if y < height {
                    y = y + 1;
                    x = 0;
                }
            },
            Direction::PageUp => {
                y = if y > terminal_height {
                    y - terminal_height
                } else {
                    0
                };
            },
            Direction::PageDown => {
                let jumped = y.saturating_add(terminal_height);
                y = if jumped < height {
                    jumped
                } else {
                    height
                };
            },
            Direction::Home => {
                x = 0;
            },
            Direction::End => {
                x = width;
            },
        }
        let end_of_row = match self.document.row(y) {
            Some(row) => row.len(),
            None => 0,
        };
        if x > end_of_row {
            x = end_of_row;
        }
        self.cursor_position = Position { x, y };
    }

    /// Moves the cursor's line one step up or down, the cursor following
    /// it; at the boundary the line is removed without re-insertion, as
    /// the raw container operations leave it.
    pub fn move_row(&mut self, direction: Direction, terminal_height: usize)
        requires
            old(self).wf(),
            direction == Direction::Up || direction == Direction::Down,
        ensures
            final(self).wf(),
            final(self)@ == step_move_line(old(self)@, direction, terminal_height as int),
    {
        let y = self.cursor_position.y;
        let len = self.document.len();
        if y >= len {
            proof {
                assert(self@ =~= step_move_line(old(self)@, direction, terminal_height as int));
            }
            return ;
        }
        let new_row = match self.document.row(y) {
            Some(row) => row.clone(),
            None => {
                proof {
                    assert(false);
                }
                crate::row::Row::default()
            },
        };
        self.document.delete_row(y);
        match direction {
            Direction::Up => {
                if y > 0 {
                    self.document.insert_row(new_row, y - 1);
                }
            },
            _ => {
                if y + 1 <= self.document.len() {
                    self.document.insert_row(new_row, y + 1);
                }
            },
        }
        proof {
            assert(self@.lines =~= lines_after_move(
                old(self)@.lines,
                old(self)@.cursor_y,
                direction,
            ));
        }
        self.move_cursor(direction, terminal_height);
        proof {
            assert(self@ =~= step_move_line(old(self)@, direction, terminal_height as int));
        }
    }

    /// Moves the cursor to the first match of `query` at or below its
    /// line, if there is one, and reports the match position.
    pub fn search(&mut self, query: &str) -> (r: Option<Position>)
        requires
            old(self).wf(),
        ensures
            final(self).wf(),
            final(self)@ == step_find(old(self)@, grapheme_clusters(query@)),
            r matches Some(p) ==> doc_find_from(
                old(self)@.lines,
                grapheme_clusters(query@),
                old(self)@.cursor_y,
            ) == Some((p.x as int, p.y as int)),
            r is None ==> doc_find_from(
                old(self)@.lines,
                grapheme_clusters(query@),
                old(self)@.cursor_y,
            ) is None,
    {
        let pos = self.cursor_position;
        let result = self.document.find(query, &pos);
        if let Some(position) = result {
            proof {
                crate::document::lemma_doc_find_from_bounds(
                    self@.lines,
                    grapheme_clusters(query@),
                    pos.y as int,
                );
            }
            self.cursor_position = position;
        }
        proof {
            assert(self@ =~= step_find(old(self)@, grapheme_clusters(query@)));
        }
        result
    }

    /// Adjusts the viewport so the cursor lies inside the visible window
    /// of the given dimensions.
    pub fn scroll(&mut self, width: usize, height: usize)
        ensures
            final(self).wf() == old(self).wf(),
            final(self)@ == (EditorView {
                offset_x: scroll_coord(old(self)@.cursor_x, old(self)@.offset_x, width as int),
                offset_y: scroll_coord(old(self)@.cursor_y, old(self)@.offset_y, height as int),
                ..old(self)@
            }),
    {
        let x = self.cursor_position.x;
        let y = self.cursor_position.y;
        if y < self.offset.y {
            self.offset.y = y;
        } else if y >= self.offset.y.saturating_add(height) {
            self.offset.y = y.saturating_sub(height).saturating_add(1);
        }
        if x < self.offset.x {
            self.offset.x = x;
        } else if x >= self.offset.x.saturating_add(width) {
            self.offset.x = x.saturating_sub(width).saturating_add(1);
        }
        proof {
            assert(self@ =~= (EditorView {
                offset_x: scroll_coord(old(self)@.cursor_x, old(self)@.offset_x, width as int),
                offset_y: scroll_coord(old(self)@.cursor_y, old(self)@.offset_y, height as int),
                ..old(self)@
            }));
        }
    }

    /// Applies one discrete command to the buffer and the cursor, then
    /// adjusts the viewport to the given dimensions.
    pub fn process_command(&mut self, command: Command, width: usize, height: usize)
        requires
            old(self).wf(),
        ensures
            final(self).wf(),
            final(self)@ == step(old(self)@, command, width as int, height as int),
    {
        let ghost pre = self@;
        let ghost cmd = command;
        match command {
            Command::InsertChar(c) => {
                let pos = self.cursor_position;
                self.document.insert(&pos, c);
                self.move_cursor(Direction::Right, height);
                proof {
                    assert(self@ =~= step_edit(pre, cmd, height as int));
                }
            },
            Command::InsertNewline => {
                let pos = self.cursor_position;
                self.document.insert(&pos, '\n');
                self.move_cursor(Direction::Right, height);
                proof {
                    assert(self@ =~= step_edit(pre, cmd, height as int));
                }
            },
            Command::DeleteForward => {
                let pos = self.cursor_position;
                self.document.delete(&pos);
                proof {
                    assert(self@ =~= step_edit(pre, cmd, height as int));
                }
            },
            Command::DeleteBackward => {
                if self.cursor_position.x > 0 || self.cursor_position.y > 0 {
                    self.move_cursor(Direction::Left, height);
                    let pos = self.cursor_position;
                    self.document.delete(&pos);
                }
                proof {
                    assert(self@ =~= step_edit(pre, cmd, height as int));
                }
            },
            Command::Move(direction) => {
                let line_move = matches!(self.mode, EditorMode::PendingLineMove) && (matches!(
                    direction,
                    Direction::Up,
                ) || matches!(direction, Direction::Down));
                if line_move {
                    self.move_row(direction, height);
                } else {
                    self.move_cursor(direction, height);
                }
                proof {
                    assert(self@ =~= step_edit(pre, cmd, height as int));
                }
            },
            Command::ToggleLineMoveMode => {
                self.mode = match self.mode {
                    EditorMode::Normal => EditorMode::PendingLineMove,
                    EditorMode::PendingLineMove => EditorMode::Normal,
                };
                proof {
                    assert(self@ =~= step_edit(pre, cmd, height as int));
                }
            },
            Command::MoveLine(direction) => {
                if matches!(direction, Direction::Up) || matches!(direction, Direction::Down) {
                    self.move_row(direction, height);
                }
                proof {
                    assert(self@ =~= step_edit(pre, cmd, height as int));
                }
            },
            Command::Find(query) => {
                let _found = self.search(query.as_str());
                proof {
                    assert(self@ =~= step_edit(pre, cmd, height as int));
                }
            },
            Command::DeleteLine => {
                let y = self.cursor_position.y;
                self.document.delete_row(y);
                let end = match self.document.row(self.cursor_position.y) {
                    Some(row) => row.len(),
                    None => 0,
                };
                if self.cursor_position.x > end {
                    self.cursor_position.x = end;
                }
                proof {
                    assert(self@ =~= step_edit(pre, cmd, height as int));
                }
            },
            Command::SetBufferName(name) => {
                self.document.set_file_name(Some(name));
                proof {
                    assert(self@ =~= step_edit(pre, cmd, height as int));
                }
            },
        }
        self.scroll(width, height);
        proof {
            assert(self@ =~= step(pre, cmd, width as int, height as int));
        }
    }
}

/// Law: moving right at the end of a line that is not the last moves the
/// cursor to the start of the next line, and moving left at the start of
/// a line that is not the first moves it to the end of the previous line.
pub proof fn lemma_cursor_wraps(lines: Seq<Seq<Seq<char>>>, x: int, y: int, terminal_height: int)
    requires
        0 <= y < lines.len(),
    ensures
        x == lines[y].len() ==> cursor_moved(lines, x, y, terminal_height, Direction::Right) == (
            0int,
            y + 1,
        ),
        x == 0 && y > 0 ==> cursor_moved(lines, x, y, terminal_height, Direction::Left) == (
            lines[y - 1].len() as int,
            y - 1,
        ),
{
}

/// Law: adjusting the viewport is idempotent — adjusting again with the
/// same cursor and the same (non-empty) dimensions leaves the offset
/// unchanged.
pub proof fn lemma_scroll_idempotent(c: int, o: int, extent: int)
    requires
        0 <= c <= usize::MAX,
        0 <= o <= usize::MAX,
        1 <= extent <= usize::MAX,
    ensures
        scroll_coord(c, scroll_coord(c, o, extent), extent) == scroll_coord(c, o, extent),
{
}

/// Law: after the viewport is adjusted, the cursor lies inside the
/// visible window of the given (non-empty) dimensions.
pub proof fn lemma_scroll_contains_cursor(c: int, o: int, extent: int)
    requires
        0 <= c <= usize::MAX,
        0 <= o <= usize::MAX,
        1 <= extent <= usize::MAX,
    ensures
        scroll_coord(c, o, extent) <= c < scroll_coord(c, o, extent) + extent,
{
}

} // verus!
