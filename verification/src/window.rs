//! One view over one buffer: cursor, optional selection anchor, scroll
//! offset, and viewport geometry.
//!
//! The stored cursor may sit past the end of a short line after vertical
//! movement; `get_effective_cursor` clamps the column to the
//! mode-appropriate maximum without mutating stored state, and is what
//! every reader uses. Every committed move resynchronizes the scroll
//! offset so that the cursor stays inside the viewport.

use vstd::prelude::*;

use crate::action::{CursorAction, WindowAction};
use crate::api::{BufferId, Mode};
use crate::buffer::Buffer;
use crate::vec2::{spec_checked_add, IVec2, UVec2};

verus! {

/// Where a window's cursor stands: a bare position, or a visual
/// selection from an anchor to the cursor.
#[derive(Clone, Copy, Debug)]
pub enum CursorPosition {
    Normal(UVec2),
    Selection(UVec2, UVec2),
}

impl Default for CursorPosition {
    fn default() -> (r: CursorPosition)
        ensures
            r == CursorPosition::Normal(UVec2 { x: 0usize, y: 0usize }),
    {
        CursorPosition::Normal(UVec2 { x: 0, y: 0 })
    }
}

/// The mode-appropriate maximum cursor column on a line of length `len`:
/// the line length in insert modes, one less (but never negative)
/// otherwise.
pub open spec fn spec_max_col(len: int, mode: Mode) -> int {
    if mode.is_insert() {
        len
    } else if len == 0 {
        0
    } else {
        len - 1
    }
}

/// The scroll offset after resynchronizing to a cursor line: unchanged
/// while the cursor is inside the viewport, else moved the least that
/// brings the cursor back in (with a zero-height viewport following the
/// cursor exactly).
pub open spec fn spec_sync_scroll(cursor_y: int, scroll: int, height: int) -> int {
    if cursor_y < scroll {
        cursor_y
    } else if cursor_y >= scroll + height {
        if height > 0 {
            cursor_y - height + 1
        } else {
            cursor_y
        }
    } else {
        scroll
    }
}

/// The stored cursor after the pre-clamp of a relative move: when a
/// horizontal component is requested and the stored column overshoots the
/// mode-appropriate maximum of an existing cursor line, the column is
/// clamped first.
pub open spec fn spec_clamped_for_move(
    c0: UVec2,
    lines: Seq<Seq<char>>,
    mode: Mode,
    offset: IVec2,
) -> UVec2 {
    if c0.y < lines.len() && offset.x != 0 && c0.x as int > spec_max_col(
        lines[c0.y as int].len() as int,
        mode,
    ) {
        UVec2 { x: spec_max_col(lines[c0.y as int].len() as int, mode) as usize, y: c0.y }
    } else {
        c0
    }
}

/// Where a relative move commits the cursor: the clamped cursor plus the
/// offset, provided both coordinates stay in range and the target line
/// exists; absent when the move is rejected.
pub open spec fn spec_move_target(
    c0: UVec2,
    lines: Seq<Seq<char>>,
    mode: Mode,
    offset: IVec2,
) -> Option<UVec2> {
    let clamped = spec_clamped_for_move(c0, lines, mode, offset);
    match spec_checked_add(clamped, offset) {
        Some(pos) => if pos.y < lines.len() {
            Some(pos)
        } else {
            None
        },
        None => None,
    }
}

/// The cursor as readers see it: the stored cursor with its column
/// clamped to the mode-appropriate maximum of its line; unclamped when
/// the line does not exist.
pub open spec fn spec_effective_cursor(c: UVec2, lines: Seq<Seq<char>>, mode: Mode) -> UVec2 {
    if c.y < lines.len() {
        if c.x as int > spec_max_col(lines[c.y as int].len() as int, mode) {
            UVec2 { x: spec_max_col(lines[c.y as int].len() as int, mode) as usize, y: c.y }
        } else {
            c
        }
    } else {
        c
    }
}

/// One window over one buffer.
#[derive(Debug)]
pub struct Window {
    buffer_id: BufferId,
    cursor: UVec2,
    anchor: Option<UVec2>,
    scroll: usize,
    position: UVec2,
    size: UVec2,
}

impl Window {
    /// The stored cursor position.
    pub closed spec fn spec_cursor(&self) -> UVec2 {
        self.cursor
    }

    /// The stored selection anchor, if a visual selection is active.
    pub closed spec fn spec_anchor(&self) -> Option<UVec2> {
        self.anchor
    }

    /// The first visible line.
    pub closed spec fn spec_scroll(&self) -> int {
        self.scroll as int
    }

    /// The viewport size.
    pub closed spec fn spec_size(&self) -> UVec2 {
        self.size
    }

    /// The viewport position.
    pub closed spec fn spec_position(&self) -> UVec2 {
        self.position
    }

    /// The buffer this window views.
    pub closed spec fn spec_buffer_id(&self) -> BufferId {
        self.buffer_id
    }

    /// Everything but the cursor and the scroll offset is unchanged.
    pub open spec fn same_but_cursor(&self, other: &Window) -> bool {
        &&& self.spec_anchor() == other.spec_anchor()
        &&& self.spec_size() == other.spec_size()
        &&& self.spec_position() == other.spec_position()
        &&& self.spec_buffer_id() == other.spec_buffer_id()
    }

    /// The scroll offset keeps the cursor line inside the viewport: with
    /// a positive height the cursor line lies in
    /// `[scroll, scroll + height)`, and with height zero the scroll
    /// offset equals the cursor line.
    pub open spec fn scroll_in_sync(&self) -> bool {
        if self.spec_size().y > 0 {
            self.spec_scroll() <= self.spec_cursor().y < self.spec_scroll() + self.spec_size().y
        } else {
            self.spec_scroll() == self.spec_cursor().y
        }
    }

    /// A new window over the given buffer with the given viewport size;
    /// the cursor, the scroll offset and the viewport position start at
    /// the origin and no selection is active.
    pub fn new(buffer_id: BufferId, size: UVec2) -> (r: Window)
        ensures
            r.spec_buffer_id() == buffer_id,
            r.spec_cursor() == (UVec2 { x: 0usize, y: 0usize }),
            r.spec_anchor() is None,
            r.spec_scroll() == 0,
            r.spec_size() == size,
            r.spec_position() == (UVec2 { x: 0usize, y: 0usize }),
    {
        Window {
            buffer_id,
            cursor: UVec2 { x: 0, y: 0 },
            anchor: None,
            scroll: 0,
            position: UVec2 { x: 0, y: 0 },
            size,
        }
    }

    /// The handle of the buffer this window views.
    pub fn get_buffer_id(&self) -> (r: BufferId)
        ensures
            r == self.spec_buffer_id(),
    {
        self.buffer_id
    }

    /// The handle of the buffer this window views.
    pub fn get_buf(&self) -> (r: BufferId)
        ensures
            r == self.spec_buffer_id(),
    {
        self.buffer_id
    }

    /// The stored cursor position, unclamped.
    pub fn get_cursor(&self) -> (r: UVec2)
        ensures
            r == self.spec_cursor(),
    {
        self.cursor
    }

    /// The stored cursor and anchor as one value: a bare position, or the
    /// active selection.
    pub fn get_cursor_position(&self) -> (r: CursorPosition)
        ensures
            r == match self.spec_anchor() {
                Some(a) => CursorPosition::Selection(a, self.spec_cursor()),
                None => CursorPosition::Normal(self.spec_cursor()),
            },
    {
        match self.anchor {
            Some(a) => CursorPosition::Selection(a, self.cursor),
            None => CursorPosition::Normal(self.cursor),
        }
    }

    /// Where the visual selection started: the anchor if one is set, else
    /// the cursor itself.
    pub fn get_visual_start(&self) -> (r: UVec2)
        ensures
            r == match self.spec_anchor() {
                Some(a) => a,
                None => self.spec_cursor(),
            },
    {
        match self.anchor {
            Some(a) => a,
            None => self.cursor,
        }
    }

    /// Begin a visual selection anchored at the current cursor.
    pub fn set_anchor_here(&mut self)
        ensures
            final(self).spec_anchor() == Some(old(self).spec_cursor()),
            final(self).spec_cursor() == old(self).spec_cursor(),
            final(self).spec_scroll() == old(self).spec_scroll(),
            final(self).spec_size() == old(self).spec_size(),
            final(self).spec_position() == old(self).spec_position(),
            final(self).spec_buffer_id() == old(self).spec_buffer_id(),
    {
        self.anchor = Some(self.cursor);
    }

    /// Drop the visual selection.
    pub fn clear_anchor(&mut self)
        ensures
            final(self).spec_anchor() is None,
            final(self).spec_cursor() == old(self).spec_cursor(),
            final(self).spec_scroll() == old(self).spec_scroll(),
            final(self).spec_size() == old(self).spec_size(),
            final(self).spec_position() == old(self).spec_position(),
            final(self).spec_buffer_id() == old(self).spec_buffer_id(),
    {
        self.anchor = None;
    }

    /// The viewport position.
    pub fn get_position(&self) -> (r: UVec2)
        ensures
            r == self.spec_position(),
    {
        self.position
    }

    /// Set the viewport position (done by the renderer).
    pub fn set_position(&mut self, position: UVec2)
        ensures
            final(self).spec_position() == position,
            final(self).spec_cursor() == old(self).spec_cursor(),
            final(self).spec_anchor() == old(self).spec_anchor(),
            final(self).spec_scroll() == old(self).spec_scroll(),
            final(self).spec_size() == old(self).spec_size(),
            final(self).spec_buffer_id() == old(self).spec_buffer_id(),
    {
        self.position = position;
    }

    /// The viewport size.
    pub fn get_size(&self) -> (r: UVec2)
        ensures
            r == self.spec_size(),
    {
        self.size
    }

    /// Set the viewport size (done by the renderer).
    pub fn set_size(&mut self, size: UVec2)
        ensures
            final(self).spec_size() == size,
            final(self).spec_cursor() == old(self).spec_cursor(),
            final(self).spec_anchor() == old(self).spec_anchor(),
            final(self).spec_scroll() == old(self).spec_scroll(),
            final(self).spec_position() == old(self).spec_position(),
            final(self).spec_buffer_id() == old(self).spec_buffer_id(),
    {
        self.size = size;
    }

    /// The first visible line.
    pub fn get_scroll(&self) -> (r: usize)
        ensures
            r == self.spec_scroll(),
    {
        self.scroll
    }

    /// The mode-appropriate maximum cursor column on the cursor's line,
    /// absent when the cursor line does not exist in the buffer.
    pub fn get_cursor_max_x(&self, buf: &Buffer, mode: Mode) -> (r: Option<usize>)
        ensures
            r == if self.spec_cursor().y < buf.lines().len() {
                Some(
                    spec_max_col(
                        buf.lines()[self.spec_cursor().y as int].len() as int,
                        mode,
                    ) as usize,
                )
            } else {
                None::<usize>
            },
            self.spec_cursor().y < buf.lines().len() ==> buf.lines()[self.spec_cursor().y as int].len()
                <= usize::MAX,
    {
        match buf.get_line_length(self.cursor.y) {
            Some(len) => {
                if let Mode::Insert(_) = mode {
                    Some(len)
                } else if len == 0 {
                    Some(0)
                } else {
                    Some(len - 1)
                }
            },
            None => None,
        }
    }

    /// The cursor as every reader sees it: the stored cursor with its
    /// column clamped to the mode-appropriate maximum. Stored state is
    /// not mutated. When the cursor line does not exist the stored cursor
    /// is returned as it is.
    pub fn get_effective_cursor(&self, buf: &Buffer, mode: Mode) -> (r: UVec2)
        ensures
            r == spec_effective_cursor(self.spec_cursor(), buf.lines(), mode),
            r.y == self.spec_cursor().y,
            self.spec_cursor().y < buf.lines().len() ==> r.x == if self.spec_cursor().x as int
                > spec_max_col(buf.lines()[self.spec_cursor().y as int].len() as int, mode) {
                spec_max_col(buf.lines()[self.spec_cursor().y as int].len() as int, mode)
            } else {
                self.spec_cursor().x as int
            },
            self.spec_cursor().y < buf.lines().len() ==> r.x as int <= spec_max_col(
                buf.lines()[self.spec_cursor().y as int].len() as int,
                mode,
            ),
            self.spec_cursor().y >= buf.lines().len() ==> r == self.spec_cursor(),
    {
        match self.get_cursor_max_x(buf, mode) {
            Some(max_x) => {
                if self.cursor.x > max_x {
                    UVec2 { x: max_x, y: self.cursor.y }
                } else {
                    self.cursor
                }
            },
            None => self.cursor,
        }
    }

    /// Resynchronize the scroll offset to the cursor line, changing
    /// nothing else. Afterwards the cursor line lies inside the viewport
    /// (`scroll <= cursor.y < scroll + height`), or equals the scroll
    /// offset when the viewport height is zero.
    pub fn sync_scroll(&mut self)
        ensures
            final(self).spec_scroll() == spec_sync_scroll(
                old(self).spec_cursor().y as int,
                old(self).spec_scroll(),
                old(self).spec_size().y as int,
            ),
            final(self).scroll_in_sync(),
            final(self).spec_cursor() == old(self).spec_cursor(),
            final(self).same_but_cursor(old(self)),
    {
        if self.cursor.y < self.scroll {
            self.scroll = self.cursor.y;
        } else if self.cursor.y - self.scroll >= self.size.y {
            if self.size.y > 0 {
                self.scroll = self.cursor.y - self.size.y + 1;
            } else {
                self.scroll = self.cursor.y;
            }
        }
    }

    /// Move the cursor by a signed offset. When a horizontal component is
    /// requested the stored column is first clamped to the maximum of the
    /// cursor's line. The move is then rejected (leaving only that clamp)
    /// when either coordinate would leave the `usize` range or the target
    /// line does not exist; otherwise the cursor moves and the scroll is
    /// resynchronized.
    pub fn move_by(&mut self, buf: &Buffer, mode: Mode, offset: IVec2)
        ensures
            ({
                let c0 = old(self).spec_cursor();
                let clamped = spec_clamped_for_move(c0, buf.lines(), mode, offset);
                match spec_move_target(c0, buf.lines(), mode, offset) {
                    Some(pos) => {
                        &&& final(self).spec_cursor() == pos
                        &&& final(self).spec_scroll() == spec_sync_scroll(
                            pos.y as int,
                            old(self).spec_scroll(),
                            old(self).spec_size().y as int,
                        )
                        &&& final(self).scroll_in_sync()
                    },
                    None => {
                        &&& final(self).spec_cursor() == clamped
                        &&& final(self).spec_scroll() == old(self).spec_scroll()
                    },
                }
            }),
            final(self).same_but_cursor(old(self)),
            old(self).spec_cursor().y < buf.lines().len() ==> final(self).spec_cursor().y
                < buf.lines().len(),
    {
        if offset.x != 0 {
            if let Some(max_x) = self.get_cursor_max_x(buf, mode) {
                if self.cursor.x > max_x {
                    self.cursor.x = max_x;
                }
            }
        }
        if let Some(pos) = self.cursor.checked_add(offset) {
            if pos.y >= buf.get_line_count() {
                return;
            }
            self.cursor = pos;
            self.sync_scroll();
        }
    }

    /// Move the cursor to an absolute column, clamped to the
    /// mode-appropriate maximum of the cursor's line; rejected when the
    /// cursor line does not exist.
    pub fn move_to_x(&mut self, buf: &Buffer, mode: Mode, x: usize)
        ensures
            ({
                let c0 = old(self).spec_cursor();
                if c0.y < buf.lines().len() {
                    let m = spec_max_col(buf.lines()[c0.y as int].len() as int, mode);
                    &&& final(self).spec_cursor().y == c0.y
                    &&& final(self).spec_cursor().x as int == if x as int > m {
                        m
                    } else {
                        x as int
                    }
                    &&& final(self).scroll_in_sync()
                } else {
                    &&& final(self).spec_cursor() == c0
                    &&& final(self).spec_scroll() == old(self).spec_scroll()
                }
            }),
            final(self).same_but_cursor(old(self)),
            old(self).spec_cursor().y < buf.lines().len() ==> final(self).spec_cursor().y
                < buf.lines().len(),
    {
        if self.cursor.y >= buf.get_line_count() {
            return;
        }
        if let Some(max_x) = self.get_cursor_max_x(buf, mode) {
            if x > max_x {
                self.cursor.x = max_x;
            } else {
                self.cursor.x = x;
            }
        }
        self.sync_scroll();
    }

    /// Move the cursor to an absolute line, clamping the column to that
    /// line's length; rejected when the line does not exist.
    pub fn move_to_y(&mut self, buf: &Buffer, y: usize)
        ensures
            y < buf.lines().len() ==> {
                &&& final(self).spec_cursor().y == y
                &&& final(self).spec_cursor().x as int == if old(self).spec_cursor().x as int
                    > buf.lines()[y as int].len() {
                    buf.lines()[y as int].len() as int
                } else {
                    old(self).spec_cursor().x as int
                }
                &&& final(self).scroll_in_sync()
            },
            y >= buf.lines().len() ==> final(self).spec_cursor() == old(self).spec_cursor()
                && final(self).spec_scroll() == old(self).spec_scroll(),
            final(self).same_but_cursor(old(self)),
            old(self).spec_cursor().y < buf.lines().len() ==> final(self).spec_cursor().y
                < buf.lines().len(),
    {
        if y >= buf.get_line_count() {
            return;
        }
        self.cursor.y = y;
        match buf.get_line_length(y) {
            Some(len) => {
                if self.cursor.x > len {
                    self.cursor.x = len;
                }
            },
            None => {},
        }
        self.sync_scroll();
    }

    /// Move the cursor to the start of its line.
    pub fn move_to_line_start(&mut self)
        ensures
            final(self).spec_cursor() == (UVec2 { x: 0usize, y: old(self).spec_cursor().y }),
            final(self).scroll_in_sync(),
            final(self).same_but_cursor(old(self)),
    {
        self.cursor.x = 0;
        self.sync_scroll();
    }

    /// Move the cursor column past every column of its line (readers see
    /// it clamped to the line end); rejected when the cursor line does
    /// not exist.
    pub fn move_to_line_end(&mut self, buf: &Buffer)
        ensures
            old(self).spec_cursor().y < buf.lines().len() ==> {
                &&& final(self).spec_cursor() == (UVec2 {
                    x: usize::MAX,
                    y: old(self).spec_cursor().y,
                })
                &&& final(self).scroll_in_sync()
            },
            old(self).spec_cursor().y >= buf.lines().len() ==> final(self).spec_cursor() == old(self).spec_cursor() && final(self).spec_scroll() == old(self).spec_scroll(),
            final(self).same_but_cursor(old(self)),
            old(self).spec_cursor().y < buf.lines().len() ==> final(self).spec_cursor().y
                < buf.lines().len(),
    {
        if self.cursor.y >= buf.get_line_count() {
            return;
        }
        self.cursor.x = usize::MAX;
        self.sync_scroll();
    }

    /// Move the cursor to the first line's first column.
    pub fn move_to_buffer_start(&mut self)
        ensures
            final(self).spec_cursor() == (UVec2 { x: 0usize, y: 0usize }),
            final(self).scroll_in_sync(),
            final(self).same_but_cursor(old(self)),
    {
        self.cursor = UVec2 { x: 0, y: 0 };
        self.sync_scroll();
    }

    /// Move the cursor to the end of the last line; with no lines at all
    /// only the scroll offset is resynchronized.
    pub fn move_to_buffer_end(&mut self, buf: &Buffer)
        ensures
            buf.lines().len() > 0 ==> {
                &&& final(self).spec_cursor() == (UVec2 {
                    x: buf.lines()[buf.lines().len() - 1].len() as usize,
                    y: (buf.lines().len() - 1) as usize,
                })
                &&& final(self).scroll_in_sync()
                &&& final(self).spec_cursor().y < buf.lines().len()
            },
            buf.lines().len() == 0 ==> final(self).spec_cursor() == old(self).spec_cursor(),
            final(self).same_but_cursor(old(self)),
    {
        let count = buf.get_line_count();
        if count > 0 {
            match buf.get_line_length(count - 1) {
                Some(len) => {
                    self.cursor = UVec2 { x: len, y: count - 1 };
                },
                None => {},
            }
        }
        self.sync_scroll();
    }
    /// Carry out a window-addressed action. Cursor actions move the
    /// cursor as the corresponding move operations do; edit actions are
    /// carried by the protocol dispatcher, not the window, and leave it
    /// unchanged.
    pub fn on_action(&mut self, buf: &Buffer, mode: Mode, action: WindowAction)
        ensures
            final(self).same_but_cursor(old(self)),
            ({
                match action {
                    WindowAction::Cursor(CursorAction::MoveToStartOfLine) => final(self).spec_cursor() == (UVec2 { x: 0usize, y: old(self).spec_cursor().y })
                        && final(self).scroll_in_sync(),
                    WindowAction::Cursor(CursorAction::MoveToStartOfBuffer) => final(self).spec_cursor() == (UVec2 { x: 0usize, y: 0usize }) && final(self).scroll_in_sync(),
                    WindowAction::Cursor(CursorAction::MoveToEndOfLine) => ({
                        &&& final(self).spec_cursor().y == old(self).spec_cursor().y
                        &&& (old(self).spec_cursor().y < buf.lines().len() ==> final(self).spec_cursor().x == buf.lines()[old(self).spec_cursor().y as int].len())
                        &&& (old(self).spec_cursor().y >= buf.lines().len() ==> final(self).spec_cursor().x == old(self).spec_cursor().x)
                        &&& final(self).scroll_in_sync()
                    }),
                    WindowAction::Cursor(CursorAction::MoveToEndOfBuffer) => ({
                        &&& (buf.lines().len() > 0 ==> final(self).spec_cursor() == (UVec2 {
                            x: buf.lines()[buf.lines().len() - 1].len() as usize,
                            y: (buf.lines().len() - 1) as usize,
                        }))
                        &&& (buf.lines().len() == 0 ==> final(self).spec_cursor() == old(self).spec_cursor())
                    }),
                    WindowAction::Cursor(c) => ({
                        let offset = match c {
                            CursorAction::MoveLeft => IVec2 { x: -1isize, y: 0isize },
                            CursorAction::MoveRight => IVec2 { x: 1isize, y: 0isize },
                            CursorAction::MoveUp => IVec2 { x: 0isize, y: -1isize },
                            CursorAction::MoveDown => IVec2 { x: 0isize, y: 1isize },
                            _ => IVec2 { x: 0isize, y: 0isize },
                        };
                        match spec_move_target(old(self).spec_cursor(), buf.lines(), mode, offset) {
                            Some(pos) => final(self).spec_cursor() == pos && final(self).scroll_in_sync(),
                            None => final(self).spec_cursor() == spec_clamped_for_move(
                                old(self).spec_cursor(),
                                buf.lines(),
                                mode,
                                offset,
                            ) && final(self).spec_scroll() == old(self).spec_scroll(),
                        }
                    }),
                    WindowAction::Edit(_) => *final(self) == *old(self),
                }
            }),
    {
        match action {
            WindowAction::Cursor(c) => match c {
                CursorAction::MoveLeft => self.move_by(buf, mode, IVec2 { x: -1, y: 0 }),
                CursorAction::MoveRight => self.move_by(buf, mode, IVec2 { x: 1, y: 0 }),
                CursorAction::MoveUp => self.move_by(buf, mode, IVec2 { x: 0, y: -1 }),
                CursorAction::MoveDown => self.move_by(buf, mode, IVec2 { x: 0, y: 1 }),
                CursorAction::MoveToStartOfLine => self.move_to_line_start(),
                CursorAction::MoveToEndOfLine => {
                    match buf.get_line_length(self.cursor.y) {
                        Some(len) => {
                            self.cursor = UVec2 { x: len, y: self.cursor.y };
                        },
                        None => {},
                    }
                    self.sync_scroll();
                },
                CursorAction::MoveToStartOfBuffer => self.move_to_buffer_start(),
                CursorAction::MoveToEndOfBuffer => self.move_to_buffer_end(buf),
            },
            WindowAction::Edit(_) => {},
        }
    }
}

} // verus!
