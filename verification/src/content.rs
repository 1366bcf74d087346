//! The text store of one document: a sequence of newline-free lines,
//! addressed both by `(column, line)` positions and by flat character
//! offsets into the joined text.
//!
//! The view of a [`BufferContent`] is its sequence of lines
//! (`Seq<Seq<char>>`); `text()` is the joined flat text. Offsets are
//! half-open character indices into the flat text. Out-of-range queries
//! and edits return an absent result and leave the store unchanged.

use vstd::prelude::*;
use vstd::string::*;

use crate::strings::{char_to_string, join_lines_text, split_lines, views_of};
use crate::text::{
    col_of_offset, flat_of, lemma_flat_len, lemma_flat_split, lemma_line_start_mono,
    lemma_line_start_nonneg, lemma_pos_to_offset_to_pos,
    lemma_split_len, lemma_split_ok, line_ok, line_of_offset, line_start_of, lines_ok, offset_of_pos, split_of,
    valid_pos,
};
use crate::vec2::UVec2;

verus! {

/// The text of one document, stored line by line.
#[derive(Debug)]
pub struct BufferContent {
    lines: Vec<String>,
}

impl View for BufferContent {
    type V = Seq<Seq<char>>;

    closed spec fn view(&self) -> Seq<Seq<char>> {
        views_of(self.lines@)
    }
}

impl BufferContent {
    /// No stored line holds a newline character.
    pub open spec fn wf(&self) -> bool {
        lines_ok(self@)
    }

    /// The flat text: the lines joined with `'\n'`.
    pub open spec fn text(&self) -> Seq<char> {
        flat_of(self@)
    }

    /// An empty store, with no lines at all.
    pub fn new() -> (r: BufferContent)
        ensures
            r@ == Seq::<Seq<char>>::empty(),
            r.wf(),
    {
        let r = BufferContent { lines: Vec::new() };
        proof {
            assert(r@ =~= Seq::<Seq<char>>::empty());
        }
        r
    }

    /// A store holding the given text, split at newlines; the empty text
    /// gives one empty line.
    pub fn from_str(text: &str) -> (r: BufferContent)
        ensures
            r@ == split_of(text@),
            r.wf(),
    {
        BufferContent { lines: split_lines(text) }
    }

    /// The whole text, lines joined with `'\n'`.
    pub fn get(&self) -> (r: String)
        ensures
            r@ == self.text(),
    {
        join_lines_text(&self.lines)
    }

    /// How many lines the store holds.
    pub fn get_line_count(&self) -> (r: usize)
        ensures
            r == self@.len(),
    {
        self.lines.len()
    }

    /// The character length of line `y`, absent when the line does not exist.
    pub fn get_line_length(&self, y: usize) -> (r: Option<usize>)
        ensures
            r == if y < self@.len() {
                Some(self@[y as int].len() as usize)
            } else {
                None::<usize>
            },
            y < self@.len() ==> self@[y as int].len() <= usize::MAX,
    {
        if y < self.lines.len() {
            Some(self.lines[y].as_str().unicode_len())
        } else {
            None
        }
    }

    /// A copy of line `y`, absent when the line does not exist.
    pub fn get_line(&self, y: usize) -> (r: Option<String>)
        ensures
            match r {
                Some(l) => y < self@.len() && l@ == self@[y as int],
                None => y >= self@.len(),
            },
    {
        if y < self.lines.len() {
            Some(self.lines[y].clone())
        } else {
            None
        }
    }

    /// A copy of every line, in order.
    pub fn get_lines(&self) -> (r: Vec<String>)
        ensures
            views_of(r@) == self@,
    {
        let mut out: Vec<String> = Vec::new();
        let mut y: usize = 0;
        proof {
            assert(views_of(out@) =~= self@.take(0));
        }
        while y < self.lines.len()
            invariant
                y <= self.lines@.len(),
                views_of(out@) == self@.take(y as int),
            decreases self.lines@.len() - y,
        {
            let ghost prev = views_of(out@);
            out.push(self.lines[y].clone());
            proof {
                assert(views_of(out@) =~~= prev.push(self@[y as int]));
                assert(prev.push(self@[y as int]) =~~= self@.take(y + 1));
            }
            y += 1;
        }
        proof {
            assert(self@.take(self.lines@.len() as int) =~= self@);
        }
        out
    }

    /// The character at position `(x, y)`, absent when the line does not
    /// exist or the column is past its end.
    pub fn char_at(&self, x: usize, y: usize) -> (r: Option<char>)
        ensures
            r == if y < self@.len() && x < self@[y as int].len() {
                Some(self@[y as int][x as int])
            } else {
                None::<char>
            },
    {
        if y < self.lines.len() {
            let line = &self.lines[y];
            if x < line.as_str().unicode_len() {
                return Some(line.as_str().get_char(x));
            }
        }
        None
    }

    /// The flat offset at which line `y` begins, absent when the line does
    /// not exist. The returned offset and the whole of line `y` lie within
    /// the flat text.
    pub fn get_line_start(&self, y: usize) -> (r: Option<usize>)
        ensures
            match r {
                Some(s) => {
                    &&& y < self@.len()
                    &&& s == line_start_of(self@, y as int)
                    &&& s + self@[y as int].len() <= self.text().len()
                    &&& self.text().len() <= usize::MAX
                },
                None => y >= self@.len(),
            },
    {
        if y >= self.lines.len() {
            return None;
        }
        let joined = self.get();
        let total = joined.as_str().unicode_len();
        proof {
            lemma_flat_len(self@);
            lemma_line_start_mono(self@, y as int, self@.len() - 1);
        }
        let mut start: usize = 0;
        let mut yy: usize = 0;
        while yy < y
            invariant
                yy <= y < self@.len(),
                total == self.text().len(),
                start == line_start_of(self@, yy as int),
            decreases y - yy,
        {
            proof {
                lemma_flat_len(self@);
                lemma_line_start_mono(self@, yy + 1, self@.len() - 1);
                assert(line_start_of(self@, yy + 1) == start + self@[yy as int].len() + 1);
                lemma_line_start_nonneg(self@, yy as int);
            }
            let ll = self.lines[yy].as_str().unicode_len();
            start = start + ll + 1;
            yy += 1;
        }
        proof {
            lemma_flat_len(self@);
            lemma_line_start_mono(self@, y as int, self@.len() - 1);
        }
        Some(start)
    }

    /// The flat offset of position `(column, line)`, absent when the
    /// position is not valid. Column `line length` addresses the slot of
    /// the separating newline (or the end of the document).
    pub fn vec2_to_index(&self, vec2: UVec2) -> (r: Option<usize>)
        ensures
            match r {
                Some(i) => {
                    &&& valid_pos(self@, vec2.x as int, vec2.y as int)
                    &&& i == offset_of_pos(self@, vec2.x as int, vec2.y as int)
                    &&& i <= self.text().len()
                },
                None => !valid_pos(self@, vec2.x as int, vec2.y as int),
            },
    {
        if vec2.y >= self.lines.len() {
            return None;
        }
        let ll = self.lines[vec2.y].as_str().unicode_len();
        if vec2.x > ll {
            return None;
        }
        match self.get_line_start(vec2.y) {
            Some(start) => Some(start + vec2.x),
            None => None,
        }
    }

    /// The `(column, line)` position of a flat offset, absent when the
    /// store has no lines or the offset is past the end of the text.
    pub fn index_to_vec2(&self, i: usize) -> (r: Option<UVec2>)
        ensures
            match r {
                Some(v) => {
                    &&& self@.len() > 0
                    &&& i <= self.text().len()
                    &&& v.y == line_of_offset(self@, i as int)
                    &&& v.x == col_of_offset(self@, i as int)
                    &&& valid_pos(self@, v.x as int, v.y as int)
                    &&& offset_of_pos(self@, v.x as int, v.y as int) == i
                },
                None => self@.len() == 0 || i > self.text().len(),
            },
    {
        let count = self.lines.len();
        if count == 0 {
            return None;
        }
        let joined = self.get();
        let total = joined.as_str().unicode_len();
        if i > total {
            return None;
        }
        proof {
            lemma_flat_len(self@);
        }
        let mut start: usize = 0;
        let mut y: usize = 0;
        loop
            invariant
                y < count,
                count == self@.len(),
                total == self.text().len(),
                start == line_start_of(self@, y as int),
                i <= total,
                i >= start,
            decreases count - y,
        {
            proof {
                lemma_flat_len(self@);
                lemma_line_start_mono(self@, y as int, self@.len() - 1);
                lemma_line_start_nonneg(self@, y as int);
            }
            let ll = self.lines[y].as_str().unicode_len();
            if i <= start + ll {
                proof {
                    lemma_pos_to_offset_to_pos(self@, i - start, y as int);
                }
                return Some(UVec2::new(i - start, y));
            }
            if y + 1 == count {
                proof {
                    assert(start + self@[y as int].len() == self.text().len());
                    assert(false);
                }
                return None;
            }
            proof {
                lemma_line_start_mono(self@, y + 1, self@.len() - 1);
                assert(line_start_of(self@, y + 1) == start + self@[y as int].len() + 1);
            }
            start = start + ll + 1;
            y += 1;
        }
    }

    /// Insert text (which may hold newlines) at flat offset `i`. Offsets
    /// past the end of the text leave the store unchanged. The edited
    /// store holds the split of the new flat text, so an empty store is
    /// renormalized to one (possibly empty) line.
    pub fn insert(&mut self, i: usize, text: &str)
        ensures
            i <= old(self).text().len() ==> {
                &&& final(self)@ == split_of(
                    old(self).text().take(i as int) + text@ + old(self).text().skip(i as int),
                )
                &&& final(self).text() == old(self).text().take(i as int) + text@
                    + old(self).text().skip(i as int)
            },
            i > old(self).text().len() ==> *final(self) == *old(self),
            i <= old(self).text().len() ==> final(self).wf(),
            old(self).wf() ==> final(self).wf(),
    {
        let joined = self.get();
        let total = joined.as_str().unicode_len();
        if i > total {
            return;
        }
        let a = joined.as_str().substring_char(0, i).to_owned();
        let b = joined.as_str().substring_char(i, total).to_owned();
        let nt = a.concat(text).concat(b.as_str());
        proof {
            assert(nt@ =~= old(self).text().take(i as int) + text@ + old(self).text().skip(
                i as int,
            ));
        }
        self.lines = split_lines(nt.as_str());
        proof {
            lemma_flat_split(nt@);
        }
    }

    /// Remove the flat text between offsets `start` (inclusive) and `end`
    /// (exclusive) and return it. An empty or inverted range past the end
    /// of the text gives an absent result and leaves the store unchanged.
    pub fn remove(&mut self, start: usize, end: usize) -> (r: Option<String>)
        ensures
            start <= end <= old(self).text().len() ==> {
                &&& r matches Some(t)
                &&& t@ == old(self).text().subrange(start as int, end as int)
                &&& final(self)@ == split_of(
                    old(self).text().take(start as int) + old(self).text().skip(end as int),
                )
                &&& final(self).text() == old(self).text().take(start as int)
                    + old(self).text().skip(end as int)
            },
            !(start <= end <= old(self).text().len()) ==> {
                &&& r is None
                &&& *final(self) == *old(self)
            },
            start <= end <= old(self).text().len() ==> final(self).wf(),
            old(self).wf() ==> final(self).wf(),
    {
        let joined = self.get();
        let total = joined.as_str().unicode_len();
        if start > end || end > total {
            return None;
        }
        let removed = joined.as_str().substring_char(start, end).to_owned();
        let a = joined.as_str().substring_char(0, start).to_owned();
        let b = joined.as_str().substring_char(end, total).to_owned();
        let nt = a.concat(b.as_str());
        proof {
            assert(nt@ =~= old(self).text().take(start as int) + old(self).text().skip(
                end as int,
            ));
            assert(removed@ =~= old(self).text().subrange(start as int, end as int));
        }
        self.lines = split_lines(nt.as_str());
        proof {
            lemma_flat_split(nt@);
        }
        Some(removed)
    }

    /// Remove and return the character at flat offset `i`; absent when the
    /// offset is past the end of the text, leaving the store unchanged.
    pub fn remove_char(&mut self, i: usize) -> (r: Option<char>)
        ensures
            i < old(self).text().len() ==> {
                &&& r == Some(old(self).text()[i as int])
                &&& final(self).text() == old(self).text().take(i as int) + old(self).text().skip(i + 1)
                &&& final(self)@ == split_of(
                    old(self).text().take(i as int) + old(self).text().skip(i + 1),
                )
            },
            i >= old(self).text().len() ==> {
                &&& r is None
                &&& *final(self) == *old(self)
            },
            old(self).wf() ==> final(self).wf(),
    {
        let joined = self.get();
        let total = joined.as_str().unicode_len();
        if i >= total {
            return None;
        }
        match self.remove(i, i + 1) {
            Some(t) => {
                proof {
                    assert(t@.len() == 1);
                    assert(t@[0] == old(self).text()[i as int]);
                }
                Some(t.as_str().get_char(0))
            },
            None => None,
        }
    }

    /// Insert the given lines (already newline-free) before line `y`.
    fn insert_parts(&mut self, y: usize, parts: Vec<String>)
        requires
            y <= old(self)@.len(),
        ensures
            final(self)@ == old(self)@.take(y as int) + views_of(parts@) + old(self)@.skip(
                y as int,
            ),
    {
        let mut idx = y;
        let mut k: usize = 0;
        proof {
            assert(old(self)@.take(y as int) + views_of(parts@).take(0) + old(self)@.skip(y as int)
                =~= old(self)@);
        }
        while k < parts.len()
            invariant
                k <= parts@.len(),
                y <= old(self)@.len(),
                idx == y + k,
                self@ == old(self)@.take(y as int) + views_of(parts@).take(k as int) + old(self)@.skip(y as int),
            decreases parts@.len() - k,
        {
            let ghost prev = self@;
            proof {
                assert(self@.len() == old(self)@.len() + k);
            }
            self.lines.insert(idx, parts[k].clone());
            proof {
                assert(self@ =~~= prev.insert(idx as int, views_of(parts@)[k as int]));
                assert(prev.insert(idx as int, views_of(parts@)[k as int]) =~~= old(self)@.take(
                    y as int,
                ) + views_of(parts@).take(k + 1) + old(self)@.skip(y as int));
            }
            let len_now = self.lines.len();
            proof {
                assert(idx < len_now);
            }
            idx += 1;
            k += 1;
        }
        proof {
            assert(views_of(parts@).take(parts@.len() as int) =~= views_of(parts@));
        }
    }

    /// Insert text before line `y`; the text is split at newlines, so a
    /// newline-free argument becomes exactly one new line. A line number
    /// past the end of the document leaves the store unchanged.
    pub fn insert_line(&mut self, y: usize, line: &str)
        ensures
            y <= old(self)@.len() ==> final(self)@ == old(self)@.take(y as int) + split_of(line@)
                + old(self)@.skip(y as int),
            y > old(self)@.len() ==> *final(self) == *old(self),
            old(self).wf() ==> final(self).wf(),
    {
        if y > self.lines.len() {
            return;
        }
        let parts = split_lines(line);
        self.insert_parts(y, parts);
        proof {
            lemma_split_ok(line@);
        }
    }

    /// Replace line `y` with the given text (split at newlines) and return
    /// the old line; absent when the line does not exist.
    pub fn replace_line(&mut self, y: usize, line: &str) -> (r: Option<String>)
        ensures
            y < old(self)@.len() ==> {
                &&& r matches Some(l)
                &&& l@ == old(self)@[y as int]
                &&& final(self)@ == old(self)@.take(y as int) + split_of(line@) + old(self)@.skip(y + 1)
            },
            y >= old(self)@.len() ==> r is None && *final(self) == *old(self),
            old(self).wf() ==> final(self).wf(),
    {
        if y >= self.lines.len() {
            return None;
        }
        let old_line = self.lines.remove(y);
        proof {
            assert(views_of(self.lines@) =~~= old(self)@.take(y as int) + old(self)@.skip(y + 1));
        }
        let parts = split_lines(line);
        let ghost mid = self@;
        self.insert_parts(y, parts);
        proof {
            assert(mid.take(y as int) =~~= old(self)@.take(y as int));
            assert(mid.skip(y as int) =~~= old(self)@.skip(y + 1));
            lemma_split_ok(line@);
        }
        Some(old_line)
    }

    /// Remove line `y` and return it; absent when the line does not exist.
    pub fn remove_line(&mut self, y: usize) -> (r: Option<String>)
        ensures
            y < old(self)@.len() ==> {
                &&& r matches Some(l)
                &&& l@ == old(self)@[y as int]
                &&& final(self)@ == old(self)@.remove(y as int)
            },
            y >= old(self)@.len() ==> r is None && *final(self) == *old(self),
            old(self).wf() ==> final(self).wf(),
    {
        if y >= self.lines.len() {
            return None;
        }
        let l = self.lines.remove(y);
        proof {
            assert(views_of(self.lines@) =~~= old(self)@.remove(y as int));
        }
        Some(l)
    }

    /// Split line `y` at column `x`: the line keeps its first `x`
    /// characters and a new line holding the rest follows it. An invalid
    /// position leaves the store unchanged.
    pub fn split_line(&mut self, x: usize, y: usize)
        ensures
            valid_pos(old(self)@, x as int, y as int) ==> final(self)@ == old(self)@.take(y as int)
                + seq![old(self)@[y as int].take(x as int), old(self)@[y as int].skip(x as int)]
                + old(self)@.skip(y + 1),
            !valid_pos(old(self)@, x as int, y as int) ==> *final(self) == *old(self),
            old(self).wf() ==> final(self).wf(),
    {
        if y >= self.lines.len() {
            return;
        }
        let ll = self.lines[y].as_str().unicode_len();
        if x > ll {
            return;
        }
        let a = self.lines[y].as_str().substring_char(0, x).to_owned();
        let b = self.lines[y].as_str().substring_char(x, ll).to_owned();
        let ghost before = self@;
        self.lines[y] = a;
        self.lines.insert(y + 1, b);
        proof {
            assert(views_of(self.lines@) =~~= before.take(y as int) + seq![
                before[y as int].take(x as int),
                before[y as int].skip(x as int),
            ] + before.skip(y + 1));
        }
    }

    /// Join line `y` with the line after it; when no line follows, the
    /// store is unchanged.
    pub fn join_lines(&mut self, y: usize)
        ensures
            y + 1 < old(self)@.len() ==> final(self)@ == old(self)@.take(y as int) + seq![
                old(self)@[y as int] + old(self)@[y + 1],
            ] + old(self)@.skip(y + 2),
            y + 1 >= old(self)@.len() ==> *final(self) == *old(self),
            old(self).wf() ==> final(self).wf(),
    {
        if y >= self.lines.len() || y + 1 >= self.lines.len() {
            return;
        }
        let next = self.lines.remove(y + 1);
        let ghost before = old(self)@;
        let joined = self.lines[y].clone().concat(next.as_str());
        self.lines[y] = joined;
        proof {
            assert(views_of(self.lines@) =~~= before.take(y as int) + seq![
                before[y as int] + before[y + 1],
            ] + before.skip(y + 2));
        }
    }

    /// Remove the characters of line `y` from column `x0` (inclusive) to
    /// column `x1` (exclusive), both clamped to the line length. An
    /// inverted range or a missing line leaves the store unchanged.
    pub fn remove_cols(&mut self, y: usize, x0: usize, x1: usize)
        ensures
            y < old(self)@.len() && x0 <= x1 ==> final(self)@ == old(self)@.update(
                y as int,
                old(self)@[y as int].take(
                    if x0 <= old(self)@[y as int].len() {
                        x0 as int
                    } else {
                        old(self)@[y as int].len() as int
                    },
                ) + old(self)@[y as int].skip(
                    if x1 <= old(self)@[y as int].len() {
                        x1 as int
                    } else {
                        old(self)@[y as int].len() as int
                    },
                ),
            ),
            !(y < old(self)@.len() && x0 <= x1) ==> *final(self) == *old(self),
            y < old(self)@.len() && x0 <= x1 ==> old(self)@[y as int].len() <= usize::MAX,
            old(self).wf() ==> final(self).wf(),
    {
        if y >= self.lines.len() || x0 > x1 {
            return;
        }
        let ll = self.lines[y].as_str().unicode_len();
        let a0 = if x0 > ll {
            ll
        } else {
            x0
        };
        let a1 = if x1 > ll {
            ll
        } else {
            x1
        };
        let a = self.lines[y].as_str().substring_char(0, a0).to_owned();
        let b = self.lines[y].as_str().substring_char(a1, ll).to_owned();
        let nl = a.concat(b.as_str());
        let ghost before = self@;
        self.lines[y] = nl;
        proof {
            assert(views_of(self.lines@) =~~= before.update(
                y as int,
                before[y as int].take(a0 as int) + before[y as int].skip(a1 as int),
            ));
        }
    }

    /// Insert a character at position `(x, y)`. A newline splits the line
    /// at the column; any other character is spliced into the line. An
    /// invalid position leaves the store unchanged.
    pub fn insert_char_at(&mut self, x: usize, y: usize, ch: char)
        ensures
            valid_pos(old(self)@, x as int, y as int) && ch != '\n' ==> final(self)@ == old(self)@.update(
                y as int,
                old(self)@[y as int].take(x as int) + seq![ch] + old(self)@[y as int].skip(
                    x as int,
                ),
            ),
            valid_pos(old(self)@, x as int, y as int) && ch == '\n' ==> final(self)@ == old(self)@.take(y as int) + seq![
                old(self)@[y as int].take(x as int),
                old(self)@[y as int].skip(x as int),
            ] + old(self)@.skip(y + 1),
            !valid_pos(old(self)@, x as int, y as int) ==> *final(self) == *old(self),
            old(self).wf() ==> final(self).wf(),
    {
        if ch == '\n' {
            self.split_line(x, y);
            return;
        }
        if y >= self.lines.len() {
            return;
        }
        let ll = self.lines[y].as_str().unicode_len();
        if x > ll {
            return;
        }
        let a = self.lines[y].as_str().substring_char(0, x).to_owned();
        let b = self.lines[y].as_str().substring_char(x, ll).to_owned();
        let cs = char_to_string(ch);
        let nl = a.concat(cs.as_str()).concat(b.as_str());
        let ghost before = self@;
        self.lines[y] = nl;
        proof {
            assert(views_of(self.lines@) =~~= before.update(
                y as int,
                before[y as int].take(x as int) + seq![ch] + before[y as int].skip(x as int),
            ));
        }
    }

    /// Remove and return the character at position `(x, y)`; absent when
    /// the line does not exist or the column is past its last character.
    pub fn remove_char_at(&mut self, x: usize, y: usize) -> (r: Option<char>)
        ensures
            y < old(self)@.len() && x < old(self)@[y as int].len() ==> {
                &&& r == Some(old(self)@[y as int][x as int])
                &&& final(self)@ == old(self)@.update(
                    y as int,
                    old(self)@[y as int].take(x as int) + old(self)@[y as int].skip(x + 1),
                )
            },
            !(y < old(self)@.len() && x < old(self)@[y as int].len()) ==> {
                &&& r is None
                &&& *final(self) == *old(self)
            },
            old(self).wf() ==> final(self).wf(),
    {
        if y >= self.lines.len() {
            return None;
        }
        let ll = self.lines[y].as_str().unicode_len();
        if x >= ll {
            return None;
        }
        let c = self.lines[y].as_str().get_char(x);
        let a = self.lines[y].as_str().substring_char(0, x).to_owned();
        let b = self.lines[y].as_str().substring_char(x + 1, ll).to_owned();
        let nl = a.concat(b.as_str());
        let ghost before = self@;
        self.lines[y] = nl;
        proof {
            assert(views_of(self.lines@) =~~= before.update(
                y as int,
                before[y as int].take(x as int) + before[y as int].skip(x + 1),
            ));
        }
        Some(c)
    }

    /// The character at flat offset `i`, absent when the offset is past
    /// the end of the text.
    pub fn get_char(&self, i: usize) -> (r: Option<char>)
        ensures
            r == if i < self.text().len() {
                Some(self.text()[i as int])
            } else {
                None::<char>
            },
    {
        let joined = self.get();
        let total = joined.as_str().unicode_len();
        if i < total {
            Some(joined.as_str().get_char(i))
        } else {
            None
        }
    }
}

} // verus!
