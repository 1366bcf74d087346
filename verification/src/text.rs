//! The mathematical model of document text.
//!
//! A document is a sequence of lines, each a sequence of characters holding
//! no newline. Joining the lines with `'\n'` gives the flat text, and flat
//! character offsets address the joined text; `line_start_of` gives the flat
//! offset at which a line begins. This module states the algebra between the
//! joined and the split forms that the buffer engine's contracts rest on.

use vstd::prelude::*;

verus! {

/// A stored line holds no newline character.
pub open spec fn line_ok(l: Seq<char>) -> bool {
    forall|i: int| 0 <= i < l.len() ==> l[i] != '\n'
}

/// Every line of the document is newline-free.
pub open spec fn lines_ok(ls: Seq<Seq<char>>) -> bool {
    forall|k: int| 0 <= k < ls.len() ==> line_ok(#[trigger] ls[k])
}

/// The flat text of a document: its lines joined with `'\n'`.
/// A document with no lines is the empty text.
pub open spec fn flat_of(ls: Seq<Seq<char>>) -> Seq<char>
    decreases ls.len(),
{
    if ls.len() == 0 {
        Seq::empty()
    } else if ls.len() == 1 {
        ls[0]
    } else {
        ls[0] + seq!['\n'] + flat_of(ls.skip(1))
    }
}

/// The lines of a flat text: split at every `'\n'`. The empty text gives
/// one empty line.
pub open spec fn split_of(s: Seq<char>) -> Seq<Seq<char>>
    decreases s.len(),
{
    if s.len() == 0 {
        seq![Seq::<char>::empty()]
    } else if s[0] == '\n' {
        seq![Seq::<char>::empty()] + split_of(s.skip(1))
    } else {
        let r = split_of(s.skip(1));
        seq![seq![s[0]] + r[0]] + r.skip(1)
    }
}

/// The flat offset at which line `y` begins: the lengths of the earlier
/// lines, plus one separating newline after each.
pub open spec fn line_start_of(ls: Seq<Seq<char>>, y: int) -> int
    decreases y,
{
    if y <= 0 {
        0
    } else {
        line_start_of(ls, y - 1) + ls[y - 1].len() + 1
    }
}

/// Whether `(x, y)` addresses a character slot of the document: line `y`
/// exists and column `x` lies on it. Column `line length` is the slot of
/// the separating newline (or, on the last line, the end of the document).
pub open spec fn valid_pos(ls: Seq<Seq<char>>, x: int, y: int) -> bool {
    0 <= y < ls.len() && 0 <= x <= ls[y].len()
}

/// The flat offset of position `(x, y)`.
pub open spec fn offset_of_pos(ls: Seq<Seq<char>>, x: int, y: int) -> int {
    line_start_of(ls, y) + x
}

/// The line on which flat offset `i` falls; offsets past the end fall on
/// the last line.
pub open spec fn line_of_offset(ls: Seq<Seq<char>>, i: int) -> int
    decreases ls.len(),
{
    if ls.len() <= 1 {
        0
    } else if i <= ls[0].len() {
        0
    } else {
        1 + line_of_offset(ls.skip(1), i - ls[0].len() - 1)
    }
}

/// The column at which flat offset `i` falls on its line.
pub open spec fn col_of_offset(ls: Seq<Seq<char>>, i: int) -> int {
    i - line_start_of(ls, line_of_offset(ls, i))
}

/// Inverse addressing, one direction: the flat offset of a valid position
/// maps back to that position.
pub proof fn lemma_pos_to_offset_to_pos(ls: Seq<Seq<char>>, x: int, y: int)
    requires
        valid_pos(ls, x, y),
    ensures
        line_of_offset(ls, offset_of_pos(ls, x, y)) == y,
        col_of_offset(ls, offset_of_pos(ls, x, y)) == x,
    decreases y,
{
    let i = offset_of_pos(ls, x, y);
    if y == 0 {
        assert(line_start_of(ls, 0) == 0);
    } else {
        lemma_line_start_mono(ls, 1, y);
        assert(line_start_of(ls, 1) == line_start_of(ls, 0) + ls[0].len() + 1);
        assert(line_start_of(ls, 0) == 0);
        assert(line_start_of(ls, 1) <= line_start_of(ls, y));
        assert(i >= line_start_of(ls, y));
        assert(i > ls[0].len());
        lemma_line_start_skip(ls, y);
        assert(ls.skip(1)[y - 1] == ls[y]);
        lemma_pos_to_offset_to_pos(ls.skip(1), x, y - 1);
        assert(i - ls[0].len() - 1 == offset_of_pos(ls.skip(1), x, y - 1));
    }
}

/// Inverse addressing, the other direction: every flat offset of the
/// document (up to and including its length) falls on a valid position,
/// and that position maps back to the offset.
pub proof fn lemma_offset_to_pos_to_offset(ls: Seq<Seq<char>>, i: int)
    requires
        ls.len() > 0,
        0 <= i <= flat_of(ls).len(),
    ensures
        valid_pos(ls, col_of_offset(ls, i), line_of_offset(ls, i)),
        offset_of_pos(ls, col_of_offset(ls, i), line_of_offset(ls, i)) == i,
    decreases ls.len(),
{
    if ls.len() == 1 {
        assert(line_of_offset(ls, i) == 0);
        assert(flat_of(ls) == ls[0]);
    } else {
        assert(flat_of(ls) == ls[0] + seq!['\n'] + flat_of(ls.skip(1)));
        if i <= ls[0].len() {
            assert(line_of_offset(ls, i) == 0);
        } else {
            let j = i - ls[0].len() - 1;
            lemma_offset_to_pos_to_offset(ls.skip(1), j);
            let yr = line_of_offset(ls.skip(1), j);
            assert(line_of_offset(ls, i) == 1 + yr);
            lemma_line_start_skip(ls, 1 + yr);
            assert(ls.skip(1)[yr] == ls[1 + yr]);
        }
    }
}

/// Splitting always yields at least one line.
pub proof fn lemma_split_len(s: Seq<char>)
    ensures
        split_of(s).len() >= 1,
    decreases s.len(),
{
    if s.len() == 0 {
    } else {
        lemma_split_len(s.skip(1));
    }
}

/// Splitting yields newline-free lines.
pub proof fn lemma_split_ok(s: Seq<char>)
    ensures
        lines_ok(split_of(s)),
    decreases s.len(),
{
    if s.len() == 0 {
    } else if s[0] == '\n' {
        lemma_split_ok(s.skip(1));
        assert forall|k: int| 0 <= k < split_of(s).len() implies line_ok(#[trigger] split_of(s)[k]) by {
            if k > 0 {
                assert(split_of(s)[k] == split_of(s.skip(1))[k - 1]);
            }
        }
    } else {
        lemma_split_ok(s.skip(1));
        lemma_split_len(s.skip(1));
        let r = split_of(s.skip(1));
        assert forall|k: int| 0 <= k < split_of(s).len() implies line_ok(#[trigger] split_of(s)[k]) by {
            if k == 0 {
                assert(line_ok(r[0]));
                assert(split_of(s)[0] == seq![s[0]] + r[0]);
            } else {
                assert(split_of(s)[k] == r[k]);
            }
        }
    }
}

/// Joining the lines of a split recovers the flat text.
pub proof fn lemma_flat_split(s: Seq<char>)
    ensures
        flat_of(split_of(s)) == s,
    decreases s.len(),
{
    if s.len() == 0 {
        assert(flat_of(split_of(s)) =~= s);
    } else if s[0] == '\n' {
        lemma_flat_split(s.skip(1));
        lemma_split_len(s.skip(1));
        let w = seq![Seq::<char>::empty()] + split_of(s.skip(1));
        assert(split_of(s) == w);
        assert(w.len() >= 2);
        assert(w.skip(1) =~= split_of(s.skip(1)));
        assert(flat_of(w) == w[0] + seq!['\n'] + flat_of(split_of(s.skip(1))));
        assert(flat_of(w) == w[0] + seq!['\n'] + s.skip(1));
        assert(w[0] =~= Seq::<char>::empty());
        assert(flat_of(split_of(s)) =~= s);
    } else {
        lemma_flat_split(s.skip(1));
        lemma_split_len(s.skip(1));
        let r = split_of(s.skip(1));
        let w = seq![seq![s[0]] + r[0]] + r.skip(1);
        assert(split_of(s) == w);
        assert(w[0] == seq![s[0]] + r[0]);
        if r.len() == 1 {
            assert(w.len() == 1);
            assert(flat_of(w) == seq![s[0]] + r[0]);
            assert(flat_of(r) == r[0]);
            assert(r[0] == s.skip(1));
            assert(flat_of(split_of(s)) =~= s);
        } else {
            assert(w.len() >= 2);
            assert(w.skip(1) =~= r.skip(1));
            assert(flat_of(w) == w[0] + seq!['\n'] + flat_of(r.skip(1)));
            assert(flat_of(r) == r[0] + seq!['\n'] + flat_of(r.skip(1)));
            assert(flat_of(r) == s.skip(1));
            assert(flat_of(w) =~= seq![s[0]] + (r[0] + seq!['\n'] + flat_of(r.skip(1))));
            assert(flat_of(w) =~= seq![s[0]] + s.skip(1));
            assert(flat_of(split_of(s)) =~= s);
        }
    }
}

/// A single newline-free line splits into itself alone.
pub proof fn lemma_split_single(l: Seq<char>)
    requires
        line_ok(l),
    ensures
        split_of(l) == seq![l],
    decreases l.len(),
{
    if l.len() == 0 {
        assert(split_of(l) =~~= seq![l]);
    } else {
        assert(line_ok(l.skip(1)));
        lemma_split_single(l.skip(1));
        let r = split_of(l.skip(1));
        assert(r == seq![l.skip(1)]);
        assert(r[0] == l.skip(1));
        assert(seq![l[0]] + l.skip(1) =~= l);
        assert(r.skip(1) =~= Seq::<Seq<char>>::empty());
        assert(split_of(l) =~~= seq![l]);
    }
}

/// Splitting a newline-free line, a newline, and a tail gives the line
/// followed by the split of the tail.
pub proof fn lemma_split_line_concat(l: Seq<char>, s: Seq<char>)
    requires
        line_ok(l),
    ensures
        split_of(l + seq!['\n'] + s) == seq![l] + split_of(s),
    decreases l.len(),
{
    let t = l + seq!['\n'] + s;
    if l.len() == 0 {
        assert(t =~= seq!['\n'] + s);
        assert(t[0] == '\n');
        assert(t.skip(1) =~= s);
        assert(split_of(t) == seq![Seq::<char>::empty()] + split_of(s));
        assert(Seq::<char>::empty() =~= l);
        assert(seq![Seq::<char>::empty()] + split_of(s) =~= seq![l] + split_of(s));
    } else {
        assert(line_ok(l.skip(1)));
        lemma_split_line_concat(l.skip(1), s);
        lemma_split_len(s);
        assert(t[0] == l[0]);
        assert(t[0] != '\n');
        assert(t.skip(1) =~= l.skip(1) + seq!['\n'] + s);
        let r = split_of(t.skip(1));
        assert(r == seq![l.skip(1)] + split_of(s));
        assert(r[0] == l.skip(1));
        assert(seq![t[0]] + r[0] =~= l);
        assert(r.skip(1) =~= split_of(s));
        assert(split_of(t) =~= seq![l] + split_of(s));
    }
}

/// Splitting the joined lines of a nonempty, newline-free document recovers
/// the document.
pub proof fn lemma_split_flat(ls: Seq<Seq<char>>)
    requires
        ls.len() > 0,
        lines_ok(ls),
    ensures
        split_of(flat_of(ls)) == ls,
    decreases ls.len(),
{
    if ls.len() == 1 {
        lemma_split_single(ls[0]);
        assert(split_of(flat_of(ls)) =~= ls);
    } else {
        assert(lines_ok(ls.skip(1))) by {
            assert(forall|k: int|
                0 <= k < ls.skip(1).len() ==> #[trigger] ls.skip(1)[k] == ls[k + 1]);
        }
        lemma_split_flat(ls.skip(1));
        lemma_split_line_concat(ls[0], flat_of(ls.skip(1)));
        assert(flat_of(ls) == ls[0] + seq!['\n'] + flat_of(ls.skip(1)));
        assert(split_of(flat_of(ls)) == seq![ls[0]] + ls.skip(1));
        assert(seq![ls[0]] + ls.skip(1) =~= ls);
    }
}

/// Appending one more line to a document extends its flat text by a
/// separating newline (when the document was nonempty) and the new line.
pub proof fn lemma_flat_push(ls: Seq<Seq<char>>, l: Seq<char>)
    ensures
        ls.len() == 0 ==> flat_of(ls.push(l)) == l,
        ls.len() > 0 ==> flat_of(ls.push(l)) == flat_of(ls) + seq!['\n'] + l,
    decreases ls.len(),
{
    if ls.len() == 0 {
        assert(flat_of(ls.push(l)) == ls.push(l)[0]);
        assert(ls.push(l)[0] == l);
    } else if ls.len() == 1 {
        assert(ls.push(l).skip(1) =~~= seq![l]);
        assert(flat_of(ls.push(l)) == ls[0] + seq!['\n'] + flat_of(seq![l]));
        assert(flat_of(seq![l]) == l);
    } else {
        lemma_flat_push(ls.skip(1), l);
        assert(ls.push(l).skip(1) =~~= ls.skip(1).push(l));
        assert(flat_of(ls.push(l)) == ls[0] + seq!['\n'] + flat_of(ls.skip(1).push(l)));
        assert(flat_of(ls) == ls[0] + seq!['\n'] + flat_of(ls.skip(1)));
        assert(ls[0] + seq!['\n'] + (flat_of(ls.skip(1)) + seq!['\n'] + l) =~= (ls[0] + seq!['\n']
            + flat_of(ls.skip(1))) + seq!['\n'] + l);
    }
}

/// Line starts are never negative.
pub proof fn lemma_line_start_nonneg(ls: Seq<Seq<char>>, y: int)
    ensures
        line_start_of(ls, y) >= 0,
    decreases y,
{
    if y > 0 {
        lemma_line_start_nonneg(ls, y - 1);
    }
}

/// Line starts written through the first line: dropping the first line
/// shifts every later start left by that line's length plus one.
pub proof fn lemma_line_start_skip(ls: Seq<Seq<char>>, y: int)
    requires
        ls.len() >= 1,
        1 <= y < ls.len(),
    ensures
        line_start_of(ls, y) == ls[0].len() + 1 + line_start_of(ls.skip(1), y - 1),
    decreases y,
{
    if y == 1 {
        assert(line_start_of(ls, 1) == line_start_of(ls, 0) + ls[0].len() + 1);
        assert(line_start_of(ls.skip(1), 0) == 0);
    } else {
        lemma_line_start_skip(ls, y - 1);
        assert(ls.skip(1)[y - 2] == ls[y - 1]);
        assert(line_start_of(ls, y) == line_start_of(ls, y - 1) + ls[y - 1].len() + 1);
        assert(line_start_of(ls.skip(1), y - 1) == line_start_of(ls.skip(1), y - 2)
            + ls.skip(1)[y - 2].len() + 1);
    }
}

/// The flat length of a nonempty document is the start of its last line
/// plus that line's length.
pub proof fn lemma_flat_len(ls: Seq<Seq<char>>)
    requires
        ls.len() > 0,
    ensures
        flat_of(ls).len() == line_start_of(ls, ls.len() - 1) + ls[ls.len() - 1].len(),
    decreases ls.len(),
{
    if ls.len() == 1 {
    } else {
        lemma_flat_len(ls.skip(1));
        lemma_line_start_skip(ls, ls.len() - 1);
        assert(ls.skip(1)[ls.len() - 2] == ls[ls.len() - 1]);
    }
}

/// Line starts are ordered: an earlier line starts earlier, with room for
/// its text and its separating newline.
pub proof fn lemma_line_start_mono(ls: Seq<Seq<char>>, a: int, b: int)
    requires
        0 <= a <= b < ls.len(),
    ensures
        line_start_of(ls, a) <= line_start_of(ls, b),
        a < b ==> line_start_of(ls, a) + ls[a].len() + 1 <= line_start_of(ls, b),
    decreases b - a,
{
    if a < b {
        lemma_line_start_mono(ls, a, b - 1);
    }
}

} // verus!
