//! One document: its text store, a dirty flag, and an optional backing
//! file association.
//!
//! Every operation that changes the text marks the buffer dirty; saving
//! writes the joined text through the file layer and clears the flag.
//! Out-of-range positions and offsets give an absent result and leave the
//! document unchanged.

use vstd::prelude::*;

use crate::action::BufferAction;

use crate::content::BufferContent;
use crate::fileio::FileIo;
use crate::strings::views_of;
use crate::text::{
    col_of_offset, flat_of, line_of_offset, line_start_of, lines_ok, offset_of_pos, split_of,
    valid_pos,
};
use crate::vec2::UVec2;

verus! {

/// Whether `(l, r)` is an ordered, in-range selection: both lines exist
/// and `l` does not come after `r` in (line, column) order.
pub open spec fn range_ordered(ls: Seq<Seq<char>>, l: UVec2, r: UVec2) -> bool {
    l.y < ls.len() && r.y < ls.len() && (l.y < r.y || (l.y == r.y && l.x <= r.x))
}

/// The lines after removing the inclusive selection from `l` to `r`: the
/// right line keeps what follows the right column, fully interior lines
/// vanish, the left line keeps what precedes the left column, and the two
/// remaining fragments join into one line. Columns past a line's end are
/// clamped to it.
pub open spec fn spec_remove_range(ls: Seq<Seq<char>>, l: UVec2, r: UVec2) -> Seq<Seq<char>> {
    let rx = if r.x + 1 <= ls[r.y as int].len() {
        r.x + 1
    } else {
        ls[r.y as int].len() as int
    };
    if l.y == r.y {
        let lx = if l.x as int <= rx {
            l.x as int
        } else {
            rx
        };
        ls.update(l.y as int, ls[l.y as int].take(lx) + ls[l.y as int].skip(rx))
    } else {
        let lx = if l.x <= ls[l.y as int].len() {
            l.x as int
        } else {
            ls[l.y as int].len() as int
        };
        ls.take(l.y as int) + seq![ls[l.y as int].take(lx) + ls[r.y as int].skip(rx)] + ls.skip(
            r.y + 1,
        )
    }
}

/// One open document.
#[derive(Debug)]
pub struct Buffer {
    path: Option<String>,
    content: BufferContent,
    dirty: bool,
}

impl Buffer {
    /// The lines of the document.
    pub closed spec fn lines(&self) -> Seq<Seq<char>> {
        self.content@
    }

    /// The flat text of the document: lines joined with `'\n'`.
    pub open spec fn text(&self) -> Seq<char> {
        flat_of(self.lines())
    }

    /// Whether the document has unsaved changes.
    pub closed spec fn is_dirty(&self) -> bool {
        self.dirty
    }

    /// The backing file path, if the document has one.
    pub closed spec fn backing(&self) -> Option<Seq<char>> {
        match self.path {
            Some(p) => Some(p@),
            None => None,
        }
    }

    /// No stored line holds a newline.
    pub open spec fn wf(&self) -> bool {
        lines_ok(self.lines())
    }

    /// A buffer holding the given text (split at newlines), associated
    /// with the given backing path.
    pub fn from_text(path: Option<String>, text: &str) -> (r: Buffer)
        ensures
            r.lines() == split_of(text@),
            r.backing() == match path {
                Some(p) => Some(p@),
                None => None::<Seq<char>>,
            },
            !r.is_dirty(),
            r.wf(),
    {
        Buffer { path, content: BufferContent::from_str(text), dirty: false }
    }

    /// Open the file at `path` through the file layer; the buffer holds
    /// the text that the read returned. A failed read is reported and no
    /// buffer is made.
    pub fn open<F: FileIo>(fs: &mut F, path: String) -> (r: Result<Buffer, ()>)
        ensures
            match r {
                Ok(b) => {
                    &&& b.wf()
                    &&& !b.is_dirty()
                    &&& b.backing() == Some(path@)
                    &&& exists|t: Seq<char>| b.lines() == split_of(t)
                },
                Err(()) => true,
            },
    {
        match fs.read(&path) {
            Ok(text) => {
                let b = Buffer::from_text(Some(path), text.as_str());
                proof {
                    assert(b.lines() == split_of(text@));
                }
                Ok(b)
            },
            Err(()) => Err(()),
        }
    }

    /// Save the joined text through the file layer. With no backing file
    /// this does nothing and succeeds. A failed write is reported; in
    /// either case the text is unchanged, and the dirty flag is cleared
    /// exactly when a write succeeded.
    pub fn save<F: FileIo>(&mut self, fs: &mut F) -> (r: Result<(), ()>)
        ensures
            final(self).lines() == old(self).lines(),
            final(self).backing() == old(self).backing(),
            old(self).backing() is None ==> r is Ok && final(self).is_dirty() == old(self).is_dirty(),
            old(self).backing() is Some ==> {
                ||| (r is Ok && !final(self).is_dirty())
                ||| (r is Err && final(self).is_dirty() == old(self).is_dirty())
            },
    {
        let content = self.content.get();
        match &self.path {
            Some(p) => {
                let path = p.clone();
                match fs.write(&path, &content) {
                    Ok(()) => {
                        self.dirty = false;
                        Ok(())
                    },
                    Err(()) => Err(()),
                }
            },
            None => Ok(()),
        }
    }

    /// Mark the document as holding unsaved changes.
    pub fn mark_dirty(&mut self)
        ensures
            final(self).is_dirty(),
            final(self).lines() == old(self).lines(),
            final(self).backing() == old(self).backing(),
    {
        self.dirty = true;
    }

    /// How many lines the document holds.
    pub fn get_line_count(&self) -> (r: usize)
        ensures
            r == self.lines().len(),
    {
        self.content.get_line_count()
    }

    /// The character length of line `y`, absent when the line does not exist.
    pub fn get_line_length(&self, y: usize) -> (r: Option<usize>)
        ensures
            r == if y < self.lines().len() {
                Some(self.lines()[y as int].len() as usize)
            } else {
                None::<usize>
            },
            y < self.lines().len() ==> self.lines()[y as int].len() <= usize::MAX,
    {
        self.content.get_line_length(y)
    }

    /// A copy of every line, in order.
    pub fn get_lines(&self) -> (r: Vec<String>)
        ensures
            views_of(r@) == self.lines(),
    {
        self.content.get_lines()
    }

    /// A copy of every line, in order.
    pub fn get_all_lines(&self) -> (r: Vec<String>)
        ensures
            views_of(r@) == self.lines(),
    {
        self.content.get_lines()
    }

    /// The whole text, lines joined with `'\n'`.
    pub fn get_content(&self) -> (r: String)
        ensures
            r@ == self.text(),
    {
        self.content.get()
    }

    /// A copy of line `y`, absent when the line does not exist.
    pub fn get_line(&self, y: usize) -> (r: Option<String>)
        ensures
            match r {
                Some(l) => y < self.lines().len() && l@ == self.lines()[y as int],
                None => y >= self.lines().len(),
            },
    {
        self.content.get_line(y)
    }

    /// The character at position `(x, y)`, absent when the line does not
    /// exist or the column is past its end.
    pub fn get_char(&self, x: usize, y: usize) -> (r: Option<char>)
        ensures
            r == if y < self.lines().len() && x < self.lines()[y as int].len() {
                Some(self.lines()[y as int][x as int])
            } else {
                None::<char>
            },
    {
        self.content.char_at(x, y)
    }

    /// The flat offset at which line `y` begins, absent when the line
    /// does not exist.
    pub fn get_line_start(&self, y: usize) -> (r: Option<usize>)
        ensures
            match r {
                Some(s) => y < self.lines().len() && s == line_start_of(self.lines(), y as int),
                None => y >= self.lines().len(),
            },
    {
        self.content.get_line_start(y)
    }

    /// The flat offset of position `(column, line)`, absent when the
    /// position is not valid.
    pub fn vec2_to_index(&self, vec2: UVec2) -> (r: Option<usize>)
        ensures
            match r {
                Some(i) => {
                    &&& valid_pos(self.lines(), vec2.x as int, vec2.y as int)
                    &&& i == offset_of_pos(self.lines(), vec2.x as int, vec2.y as int)
                    &&& i <= self.text().len()
                },
                None => !valid_pos(self.lines(), vec2.x as int, vec2.y as int),
            },
    {
        self.content.vec2_to_index(vec2)
    }

    /// The `(column, line)` position of a flat offset, absent when the
    /// document has no lines or the offset is past the end of the text.
    pub fn index_to_vec2(&self, i: usize) -> (r: Option<UVec2>)
        ensures
            match r {
                Some(v) => {
                    &&& v.y == line_of_offset(self.lines(), i as int)
                    &&& v.x == col_of_offset(self.lines(), i as int)
                    &&& valid_pos(self.lines(), v.x as int, v.y as int)
                    &&& offset_of_pos(self.lines(), v.x as int, v.y as int) == i
                },
                None => self.lines().len() == 0 || i > self.text().len(),
            },
    {
        self.content.index_to_vec2(i)
    }

    /// Insert text (which may hold newlines) at flat offset `i`; an
    /// offset past the end of the text leaves the document unchanged.
    pub fn insert(&mut self, i: usize, text: &str)
        ensures
            i <= old(self).text().len() ==> {
                &&& final(self).text() == old(self).text().take(i as int) + text@ + old(self).text().skip(i as int)
                &&& final(self).lines() == split_of(final(self).text())
                &&& final(self).is_dirty()
            },
            i > old(self).text().len() ==> final(self).lines() == old(self).lines() && final(self).is_dirty() == old(self).is_dirty(),
            final(self).backing() == old(self).backing(),
            old(self).wf() ==> final(self).wf(),
            i <= old(self).text().len() ==> final(self).wf(),
    {
        let joined = self.content.get();
        let n = joined.as_str().unicode_len();
        if i > n {
            return;
        }
        self.content.insert(i, text);
        self.dirty = true;
    }

    /// Insert one character at position `(x, y)`; a newline splits the
    /// line at the column. An invalid position leaves the document
    /// unchanged.
    pub fn insert_char(&mut self, x: usize, y: usize, ch: char)
        ensures
            valid_pos(old(self).lines(), x as int, y as int) && ch != '\n' ==> final(self).lines()
                == old(self).lines().update(
                y as int,
                old(self).lines()[y as int].take(x as int) + seq![ch] + old(self).lines()[y as int].skip(x as int),
            ) && final(self).is_dirty(),
            valid_pos(old(self).lines(), x as int, y as int) && ch == '\n' ==> final(self).lines()
                == old(self).lines().take(y as int) + seq![
                old(self).lines()[y as int].take(x as int),
                old(self).lines()[y as int].skip(x as int),
            ] + old(self).lines().skip(y + 1) && final(self).is_dirty(),
            !valid_pos(old(self).lines(), x as int, y as int) ==> final(self).lines() == old(self).lines() && final(self).is_dirty() == old(self).is_dirty(),
            final(self).backing() == old(self).backing(),
            old(self).wf() ==> final(self).wf(),
    {
        let count = self.content.get_line_count();
        if y >= count {
            return;
        }
        match self.content.get_line_length(y) {
            Some(ll) => {
                if x > ll {
                    return;
                }
            },
            None => {
                return;
            },
        }
        self.content.insert_char_at(x, y, ch);
        self.dirty = true;
    }

    /// Remove and return the character at position `(x, y)`; absent when
    /// the line does not exist or the column is past its last character.
    pub fn remove_char(&mut self, x: usize, y: usize) -> (r: Option<char>)
        ensures
            y < old(self).lines().len() && x < old(self).lines()[y as int].len() ==> {
                &&& r == Some(old(self).lines()[y as int][x as int])
                &&& final(self).lines() == old(self).lines().update(
                    y as int,
                    old(self).lines()[y as int].take(x as int) + old(self).lines()[y as int].skip(
                        x + 1,
                    ),
                )
                &&& final(self).is_dirty()
            },
            !(y < old(self).lines().len() && x < old(self).lines()[y as int].len()) ==> {
                &&& r is None
                &&& final(self).lines() == old(self).lines()
                &&& final(self).is_dirty() == old(self).is_dirty()
            },
            final(self).backing() == old(self).backing(),
            old(self).wf() ==> final(self).wf(),
    {
        let r = self.content.remove_char_at(x, y);
        if r.is_some() {
            self.dirty = true;
        }
        r
    }

    /// Remove the flat text between offsets `start` (inclusive) and `end`
    /// (exclusive) and return it; an empty result range or one past the
    /// end of the text gives an absent result.
    pub fn remove(&mut self, start: usize, end: usize) -> (r: Option<String>)
        ensures
            start <= end <= old(self).text().len() ==> {
                &&& r matches Some(t)
                &&& t@ == old(self).text().subrange(start as int, end as int)
                &&& final(self).text() == old(self).text().take(start as int) + old(self).text().skip(end as int)
                &&& final(self).lines() == split_of(final(self).text())
                &&& final(self).is_dirty()
            },
            !(start <= end <= old(self).text().len()) ==> {
                &&& r is None
                &&& final(self).lines() == old(self).lines()
                &&& final(self).is_dirty() == old(self).is_dirty()
            },
            final(self).backing() == old(self).backing(),
            old(self).wf() ==> final(self).wf(),
            start <= end <= old(self).text().len() ==> final(self).wf(),
    {
        let r = self.content.remove(start, end);
        if r.is_some() {
            self.dirty = true;
        }
        r
    }

    /// Insert text before line `y` (split at newlines, so a newline-free
    /// argument becomes exactly one new line). A line number past the end
    /// of the document leaves it unchanged.
    pub fn insert_line(&mut self, y: usize, line: String)
        ensures
            y <= old(self).lines().len() ==> final(self).lines() == old(self).lines().take(
                y as int,
            ) + split_of(line@) + old(self).lines().skip(y as int) && final(self).is_dirty(),
            y > old(self).lines().len() ==> final(self).lines() == old(self).lines() && final(self).is_dirty() == old(self).is_dirty(),
            final(self).backing() == old(self).backing(),
            old(self).wf() ==> final(self).wf(),
    {
        let count = self.content.get_line_count();
        if y > count {
            return;
        }
        self.content.insert_line(y, line.as_str());
        self.dirty = true;
    }

    /// Replace line `y` with the given text (split at newlines) and
    /// return the old line; absent when the line does not exist.
    pub fn replace_line(&mut self, y: usize, line: String) -> (r: Option<String>)
        ensures
            y < old(self).lines().len() ==> {
                &&& r matches Some(l)
                &&& l@ == old(self).lines()[y as int]
                &&& final(self).lines() == old(self).lines().take(y as int) + split_of(line@)
                    + old(self).lines().skip(y + 1)
                &&& final(self).is_dirty()
            },
            y >= old(self).lines().len() ==> {
                &&& r is None
                &&& final(self).lines() == old(self).lines()
                &&& final(self).is_dirty() == old(self).is_dirty()
            },
            final(self).backing() == old(self).backing(),
            old(self).wf() ==> final(self).wf(),
    {
        let r = self.content.replace_line(y, line.as_str());
        if r.is_some() {
            self.dirty = true;
        }
        r
    }

    /// Remove line `y` and return it; absent when the line does not exist.
    pub fn remove_line(&mut self, y: usize) -> (r: Option<String>)
        ensures
            y < old(self).lines().len() ==> {
                &&& r matches Some(l)
                &&& l@ == old(self).lines()[y as int]
                &&& final(self).lines() == old(self).lines().remove(y as int)
                &&& final(self).is_dirty()
            },
            y >= old(self).lines().len() ==> {
                &&& r is None
                &&& final(self).lines() == old(self).lines()
                &&& final(self).is_dirty() == old(self).is_dirty()
            },
            final(self).backing() == old(self).backing(),
            old(self).wf() ==> final(self).wf(),
    {
        let r = self.content.remove_line(y);
        if r.is_some() {
            self.dirty = true;
        }
        r
    }

    /// Split line `y` at column `x`: the line keeps its first `x`
    /// characters and a new line holding the rest follows it. An invalid
    /// position leaves the document unchanged.
    pub fn split_line(&mut self, x: usize, y: usize)
        ensures
            valid_pos(old(self).lines(), x as int, y as int) ==> final(self).lines() == old(self).lines().take(y as int) + seq![
                old(self).lines()[y as int].take(x as int),
                old(self).lines()[y as int].skip(x as int),
            ] + old(self).lines().skip(y + 1) && final(self).is_dirty(),
            !valid_pos(old(self).lines(), x as int, y as int) ==> final(self).lines() == old(self).lines() && final(self).is_dirty() == old(self).is_dirty(),
            final(self).backing() == old(self).backing(),
            old(self).wf() ==> final(self).wf(),
    {
        let count = self.content.get_line_count();
        if y >= count {
            return;
        }
        match self.content.get_line_length(y) {
            Some(ll) => {
                if x > ll {
                    return;
                }
            },
            None => {
                return;
            },
        }
        self.content.split_line(x, y);
        self.dirty = true;
    }

    /// Join line `y` with the line after it; when no line follows, the
    /// document is unchanged.
    pub fn join_lines(&mut self, y: usize)
        ensures
            y + 1 < old(self).lines().len() ==> final(self).lines() == old(self).lines().take(
                y as int,
            ) + seq![old(self).lines()[y as int] + old(self).lines()[y + 1]] + old(self).lines().skip(y + 2) && final(self).is_dirty(),
            y + 1 >= old(self).lines().len() ==> final(self).lines() == old(self).lines()
                && final(self).is_dirty() == old(self).is_dirty(),
            final(self).backing() == old(self).backing(),
            old(self).wf() ==> final(self).wf(),
    {
        let count = self.content.get_line_count();
        if y >= count {
            return;
        }
        if y + 1 >= count {
            return;
        }
        self.content.join_lines(y);
        self.dirty = true;
    }

    /// Remove the inclusive selection from `l` to `r` (both in (column,
    /// line) order, `l` not after `r`): trim the right line's prefix up
    /// to and including the right column, delete the fully interior
    /// lines, trim the left line's suffix from the left column, and join
    /// the two remaining fragments into one line. An unordered or
    /// out-of-range selection leaves the document unchanged.
    pub fn remove_range(&mut self, l: UVec2, r: UVec2)
        ensures
            range_ordered(old(self).lines(), l, r) ==> final(self).lines() == spec_remove_range(
                old(self).lines(),
                l,
                r,
            ) && final(self).is_dirty(),
            !range_ordered(old(self).lines(), l, r) ==> final(self).lines() == old(self).lines()
                && final(self).is_dirty() == old(self).is_dirty(),
            final(self).backing() == old(self).backing(),
            old(self).wf() ==> final(self).wf(),
    {
        let count = self.content.get_line_count();
        if l.y >= count || r.y >= count {
            return;
        }
        if l.y > r.y || (l.y == r.y && l.x > r.x) {
            return;
        }
        let x1 = if r.x == usize::MAX {
            usize::MAX
        } else {
            r.x + 1
        };
        if l.y == r.y {
            let ghost ls0 = self.lines();
            self.content.remove_cols(l.y, l.x, x1);
            self.dirty = true;
            proof {
                assert(self.lines() =~~= spec_remove_range(ls0, l, r));
            }
        } else {
            let ghost ls0 = self.lines();
            self.content.remove_cols(r.y, 0, x1);
            let ghost a1 = self.content@;
            proof {
                assert(a1[r.y as int] =~= ls0[r.y as int].skip(
                    if r.x + 1 <= ls0[r.y as int].len() {
                        r.x + 1
                    } else {
                        ls0[r.y as int].len() as int
                    },
                ));
                assert(a1.take(l.y + 1) + a1.skip(l.y + 1) =~~= a1);
            }
            let n_interior = r.y - l.y - 1;
            let mut k: usize = 0;
            while k < n_interior
                invariant
                    k <= n_interior,
                    n_interior == r.y - l.y - 1,
                    l.y < r.y < ls0.len(),
                    a1.len() == ls0.len(),
                    self.content@ =~~= a1.take(l.y + 1) + a1.skip(l.y + 1 + k),
                    self.backing() == old(self).backing(),
                    self.is_dirty() == old(self).is_dirty(),
                    old(self).wf() ==> lines_ok(self.content@),
                decreases n_interior - k,
            {
                let ghost before = self.content@;
                proof {
                    assert(before.len() == a1.len() - k);
                    assert(l.y + 1 < before.len());
                }
                let removed = self.content.remove_line(l.y + 1);
                proof {
                    assert(self.content@ =~~= before.remove(l.y + 1));
                    assert(before.remove(l.y + 1) =~~= a1.take(l.y + 1) + a1.skip(l.y + 1 + k + 1));
                }
                k += 1;
            }
            let ghost a2 = self.content@;
            proof {
                assert(a2 =~~= a1.take(l.y + 1) + a1.skip(r.y as int));
                assert(a2[l.y as int] == ls0[l.y as int]);
                assert(a2.len() == l.y + 1 + (a1.len() - r.y));
            }
            self.content.remove_cols(l.y, l.x, usize::MAX);
            let ghost a3 = self.content@;
            proof {
                assert(a3 =~~= a2.update(
                    l.y as int,
                    ls0[l.y as int].take(
                        if l.x <= ls0[l.y as int].len() {
                            l.x as int
                        } else {
                            ls0[l.y as int].len() as int
                        },
                    ),
                ));
            }
            self.content.join_lines(l.y);
            self.dirty = true;
            proof {
                assert(a3[l.y + 1] == a1[r.y as int]);
                assert(self.lines() =~~= spec_remove_range(ls0, l, r));
            }
        }
    }

    /// Replace the character at position `(x, y)` and return the old one;
    /// absent when the line does not exist or the column is past its last
    /// character. A newline replacement removes the old character and
    /// splits the line at the column.
    pub fn replace_char(&mut self, x: usize, y: usize, ch: char) -> (r: Option<char>)
        ensures
            y < old(self).lines().len() && x < old(self).lines()[y as int].len() ==> {
                &&& r == Some(old(self).lines()[y as int][x as int])
                &&& final(self).is_dirty()
            },
            y < old(self).lines().len() && x < old(self).lines()[y as int].len() && ch != '\n'
                ==> final(self).lines() == old(self).lines().update(
                y as int,
                old(self).lines()[y as int].take(x as int) + seq![ch] + old(self).lines()[y as int].skip(x + 1),
            ),
            y < old(self).lines().len() && x < old(self).lines()[y as int].len() && ch == '\n'
                ==> final(self).lines() == old(self).lines().take(y as int) + seq![
                old(self).lines()[y as int].take(x as int),
                old(self).lines()[y as int].skip(x + 1),
            ] + old(self).lines().skip(y + 1),
            !(y < old(self).lines().len() && x < old(self).lines()[y as int].len()) ==> {
                &&& r is None
                &&& final(self).lines() == old(self).lines()
                &&& final(self).is_dirty() == old(self).is_dirty()
            },
            final(self).backing() == old(self).backing(),
            old(self).wf() ==> final(self).wf(),
    {
        let removed = self.content.remove_char_at(x, y);
        match removed {
            Some(c) => {
                let ghost mid = self.content@;
                self.content.insert_char_at(x, y, ch);
                self.dirty = true;
                proof {
                    if ch != '\n' {
                        assert(final(self).lines() =~~= old(self).lines().update(
                            y as int,
                            old(self).lines()[y as int].take(x as int) + seq![ch] + old(self).lines()[y as int].skip(x + 1),
                        ));
                    } else {
                        assert(mid[y as int].take(x as int) =~= old(self).lines()[y as int].take(
                            x as int,
                        ));
                        assert(mid[y as int].skip(x as int) =~= old(self).lines()[y as int].skip(
                            x + 1,
                        ));
                        assert(self.lines() =~~= old(self).lines().take(y as int) + seq![
                            old(self).lines()[y as int].take(x as int),
                            old(self).lines()[y as int].skip(x + 1),
                        ] + old(self).lines().skip(y + 1));
                    }
                }
                Some(c)
            },
            None => None,
        }
    }

    /// Carry out one buffer-addressed action: saving writes the document
    /// through the file layer, clearing the dirty flag exactly when the
    /// write succeeded.
    pub fn on_action<F: FileIo>(&mut self, fs: &mut F, action: BufferAction) -> (r: Result<
        (),
        (),
    >)
        ensures
            final(self).lines() == old(self).lines(),
            final(self).backing() == old(self).backing(),
            action is Save && old(self).backing() is None ==> r is Ok && final(self).is_dirty()
                == old(self).is_dirty(),
            action is Save && old(self).backing() is Some ==> {
                ||| (r is Ok && !final(self).is_dirty())
                ||| (r is Err && final(self).is_dirty() == old(self).is_dirty())
            },
    {
        match action {
            BufferAction::Save => self.save(fs),
        }
    }

    /// Replace every line of the document with the given lines and return
    /// the old ones. The given lines are joined and re-split, so lines
    /// holding newlines are normalized; an empty vector gives a document
    /// of one empty line.
    pub fn replace_all_lines(&mut self, lines: Vec<String>) -> (r: Vec<String>)
        ensures
            views_of(r@) == old(self).lines(),
            final(self).lines() == split_of(flat_of(views_of(lines@))),
            final(self).is_dirty(),
            final(self).backing() == old(self).backing(),
            final(self).wf(),
    {
        let old_lines = self.content.get_lines();
        let joined = crate::strings::join_lines_text(&lines);
        self.content = BufferContent::from_str(joined.as_str());
        self.dirty = true;
        old_lines
    }

    /// Replace the whole text of the document and return the old text.
    pub fn replace_content(&mut self, content: String) -> (r: String)
        ensures
            r@ == old(self).text(),
            final(self).lines() == split_of(content@),
            final(self).is_dirty(),
            final(self).backing() == old(self).backing(),
            final(self).wf(),
    {
        let old_content = self.content.get();
        self.content = BufferContent::from_str(content.as_str());
        self.dirty = true;
        old_content
    }
}

impl Default for Buffer {
    /// An empty, clean buffer with no lines and no backing file.
    fn default() -> (r: Buffer)
        ensures
            r.lines() == Seq::<Seq<char>>::empty(),
            r.backing() is None,
            !r.is_dirty(),
            r.wf(),
    {
        Buffer { path: None, content: BufferContent::new(), dirty: false }
    }
}

} // verus!
