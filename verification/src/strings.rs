//! Executable helpers over strings: splitting text into newline-free lines
//! and joining lines back into text, each proved against the model in
//! [`crate::text`].

use vstd::prelude::*;
use vstd::string::*;

use crate::text::{
    flat_of, line_ok, lines_ok, lemma_flat_push, split_of, lemma_split_len,
};

verus! {

/// The lines of a vector of strings, as sequences of characters.
pub open spec fn views_of(v: Seq<String>) -> Seq<Seq<char>> {
    v.map_values(|s: String| s@)
}

/// Relies on `String::from(char)`: the returned string holds exactly the
/// given character.
#[verifier::external_body]
pub fn char_to_string(c: char) -> (r: String)
    ensures
        r@ == seq![c],
{
    String::from(c)
}

/// A one-character newline string.
pub fn newline_string() -> (r: String)
    ensures
        r@ == seq!['\n'],
{
    char_to_string('\n')
}

/// Whether the string holds no newline character.
pub fn is_line_free(s: &str) -> (r: bool)
    ensures
        r == line_ok(s@),
{
    let n = s.unicode_len();
    let mut i: usize = 0;
    while i < n
        invariant
            i <= n,
            n == s@.len(),
            forall|k: int| 0 <= k < i ==> s@[k] != '\n',
        decreases n - i,
    {
        if s.get_char(i) == '\n' {
            return false;
        }
        i += 1;
    }
    true
}

/// Split text into its lines at every newline; the empty text gives one
/// empty line.
pub fn split_lines(text: &str) -> (r: Vec<String>)
    ensures
        views_of(r@) == split_of(text@),
        lines_ok(views_of(r@)),
{
    let n = text.unicode_len();
    let mut lines: Vec<String> = Vec::new();
    let mut cur = String::new();
    let mut i: usize = 0;
    proof {
        lemma_split_len(text@);
        assert(views_of(lines@) =~= Seq::<Seq<char>>::empty());
        assert(text@.skip(0) =~= text@);
        assert(split_of(text@) =~~= views_of(lines@) + seq![cur@ + split_of(text@.skip(0))[0]]
            + split_of(text@.skip(0)).skip(1));
    }
    while i < n
        invariant
            i <= n,
            n == text@.len(),
            line_ok(cur@),
            lines_ok(views_of(lines@)),
            split_of(text@) == views_of(lines@) + seq![cur@ + split_of(text@.skip(i as int))[0]]
                + split_of(text@.skip(i as int)).skip(1),
        decreases n - i,
    {
        let c = text.get_char(i);
        proof {
            assert(text@.skip(i as int)[0] == text@[i as int]);
            assert(text@.skip(i as int).skip(1) =~= text@.skip(i + 1));
            lemma_split_len(text@.skip(i + 1));
        }
        if c == '\n' {
            let ghost old_lines = views_of(lines@);
            let ghost old_cur = cur@;
            lines.push(cur);
            cur = String::new();
            proof {
                assert(views_of(lines@) =~~= old_lines.push(old_cur));
                assert(split_of(text@.skip(i as int)) == seq![Seq::<char>::empty()]
                    + split_of(text@.skip(i + 1)));
                let w = seq![Seq::<char>::empty()] + split_of(text@.skip(i + 1));
                assert(w[0] == Seq::<char>::empty());
                assert(w.skip(1) =~= split_of(text@.skip(i + 1)));
                assert(old_cur + w[0] =~= old_cur);
                assert(split_of(text@) =~~= views_of(lines@) + seq![cur@ + split_of(
                    text@.skip(i + 1),
                )[0]] + split_of(text@.skip(i + 1)).skip(1));
            }
        } else {
            let ghost old_cur = cur@;
            let cs = char_to_string(c);
            cur.append(cs.as_str());
            proof {
                let r = split_of(text@.skip(i + 1));
                let w = seq![seq![c] + r[0]] + r.skip(1);
                assert(split_of(text@.skip(i as int)) == w);
                assert(w[0] == seq![c] + r[0]);
                assert(w.skip(1) =~= r.skip(1));
                assert(old_cur + (seq![c] + r[0]) =~= cur@ + r[0]);
                assert(split_of(text@) =~~= views_of(lines@) + seq![cur@ + r[0]] + r.skip(1));
            }
        }
        i += 1;
    }
    let ghost old_lines = views_of(lines@);
    let ghost old_cur = cur@;
    lines.push(cur);
    proof {
        assert(text@.skip(n as int) =~= Seq::<char>::empty());
        let w = split_of(text@.skip(n as int));
        assert(w == seq![Seq::<char>::empty()]);
        assert(old_cur + w[0] =~= old_cur);
        assert(w.skip(1) =~= Seq::<Seq<char>>::empty());
        assert(views_of(lines@) =~~= old_lines.push(old_cur));
        assert(views_of(lines@) =~~= split_of(text@));
    }
    lines
}

/// Join lines with a newline between each pair.
pub fn join_lines_text(lines: &Vec<String>) -> (r: String)
    ensures
        r@ == flat_of(views_of(lines@)),
{
    let mut out = String::new();
    let mut y: usize = 0;
    proof {
        assert(views_of(lines@).take(0) =~= Seq::<Seq<char>>::empty());
    }
    while y < lines.len()
        invariant
            y <= lines@.len(),
            out@ == flat_of(views_of(lines@).take(y as int)),
        decreases lines@.len() - y,
    {
        let ghost prefix = views_of(lines@).take(y as int);
        if y > 0 {
            let nl = newline_string();
            out.append(nl.as_str());
        }
        out.append(lines[y].as_str());
        proof {
            lemma_flat_push(prefix, views_of(lines@)[y as int]);
            assert(prefix.push(views_of(lines@)[y as int]) =~~= views_of(lines@).take(y + 1));
        }
        y += 1;
    }
    proof {
        assert(views_of(lines@).take(lines@.len() as int) =~= views_of(lines@));
    }
    out
}

} // verus!
