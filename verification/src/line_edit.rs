//! The line editor of the prompts (`:`, `z`, new item, rename): a text, the
//! cursor within it, and the terminal columns of the cursor and of the end.
use vstd::prelude::*;
use crate::functions::{char_width, width_of_char};

verus! {

/// The columns that a character takes on the prompt line: its display width,
/// none for a control character.
pub open spec fn cols(c: char) -> nat {
    match char_width(c) {
        Some(w) => w as nat,
        None => 0,
    }
}

/// The columns that a text takes on the prompt line.
pub open spec fn cols_of(s: Seq<char>) -> nat
    decreases s.len(),
{
    if s.len() == 0 {
        0
    } else {
        cols_of(s.drop_last()) + cols(s.last())
    }
}

pub proof fn lemma_cols_of_concat(a: Seq<char>, b: Seq<char>)
    ensures
        cols_of(a + b) == cols_of(a) + cols_of(b),
    decreases b.len(),
{
    if b.len() == 0 {
        assert(a + b =~= a);
    } else {
        lemma_cols_of_concat(a, b.drop_last());
        assert((a + b).drop_last() =~= a + b.drop_last());
    }
}

/// Whether a character of width `w` may be typed with the cursor at `col`:
/// a prompt with a limit keeps the cursor within it.
pub open spec fn fits(limit: Option<u16>, col: nat, w: nat) -> bool {
    match limit {
        Some(l) => col + w <= l,
        None => true,
    }
}

/// An edited line: the text, the index of the cursor in it, the column where
/// the text starts, and the columns of the cursor and of the end of the text.
pub struct LineEdit {
    pub text: Vec<char>,
    pub pos: usize,
    pub start: u16,
    pub col: u16,
    pub end: u16,
}

/// The text, cursor index, cursor column and end column of a line.
pub type LineView = (Seq<char>, nat, nat, nat);

/// Typing `c`: a character with a width is inserted at the cursor, which moves
/// past it, when it fits the limit and the columns stay countable; anything
/// else leaves the line as it was.
pub open spec fn spec_insert(v: LineView, c: char, limit: Option<u16>) -> LineView {
    match char_width(c) {
        Some(w) => if v.3 + w <= u16::MAX && fits(limit, v.2, w as nat) {
            (v.0.take(v.1 as int) + seq![c] + v.0.skip(v.1 as int), v.1 + 1, v.2 + w as nat, v.3 + w as nat)
        } else {
            v
        },
        None => v,
    }
}

/// Typing each character of `s` in turn.
pub open spec fn spec_insert_all(v: LineView, s: Seq<char>, limit: Option<u16>) -> LineView
    decreases s.len(),
{
    if s.len() == 0 {
        v
    } else {
        spec_insert_all(spec_insert(v, s[0], limit), s.drop_first(), limit)
    }
}

impl View for LineEdit {
    type V = LineView;

    open spec fn view(&self) -> LineView {
        (self.text@, self.pos as nat, self.col as nat, self.end as nat)
    }
}

impl LineEdit {
    /// The cursor lies in the text, and the columns are those of the text
    /// before the cursor and of the whole text, counted from `start`.
    pub open spec fn wf(&self) -> bool {
        &&& self.pos <= self.text@.len()
        &&& self.col == self.start + cols_of(self.text@.take(self.pos as int))
        &&& self.end == self.start + cols_of(self.text@)
    }

    /// An empty line starting at column `start`.
    pub fn new(start: u16) -> (r: Self)
        ensures
            r.wf(),
            r.start == start,
            r@ == (Seq::<char>::empty(), 0nat, start as nat, start as nat),
    {
        let r = LineEdit { text: Vec::new(), pos: 0, start, col: start, end: start };
        proof {
            assert(r.text@.take(0) =~= Seq::<char>::empty());
        }
        r
    }

    /// A line holding `initial`, with the cursor at its end (as the rename
    /// prompt starts), or `None` when its columns do not fit in a `u16`.
    pub fn from_text(initial: &str, start: u16) -> (r: Option<Self>)
        ensures
            r is Some <==> start + cols_of(initial@) <= u16::MAX,
            r matches Some(e) ==> {
                &&& e.wf()
                &&& e.start == start
                &&& e.text@ == initial@
                &&& e.pos == initial@.len()
            },
    {
        let n = initial.unicode_len();
        let mut text: Vec<char> = Vec::new();
        let mut end: u16 = start;
        let mut i: usize = 0;
        while i < n
            invariant
                n == initial@.len(),
                i <= n,
                text@ == initial@.take(i as int),
                end == start + cols_of(text@),
            decreases n - i,
        {
            let c = initial.get_char(i);
            let w: usize = match width_of_char(c) {
                Some(w) => w,
                None => 0,
            };
            proof {
                assert(initial@.take(i + 1).drop_last() =~= initial@.take(i as int));
                lemma_cols_of_prefix_mono(initial@, i + 1);
            }
            if w > (u16::MAX - end) as usize {
                proof {
                    assert(start + cols_of(initial@.take(i + 1)) > u16::MAX);
                    assert(initial@.take(n as int) =~= initial@);
                }
                return None;
            }
            text.push(c);
            end = end + w as u16;
            i = i + 1;
            proof {
                assert(text@.drop_last() =~= initial@.take(i - 1));
            }
        }
        proof {
            assert(initial@.take(n as int) =~= initial@);
            assert(text@.take(n as int) =~= text@);
        }
        Some(LineEdit { text, pos: n, start, col: end, end })
    }

    /// Type `c` at the cursor.
    pub fn insert(&mut self, c: char, limit: Option<u16>) -> (done: bool)
        requires
            old(self).wf(),
        ensures
            final(self).wf(),
            final(self).start == old(self).start,
            final(self)@ == spec_insert(old(self)@, c, limit),
            done <==> final(self)@ != old(self)@,
    {
        let w = match width_of_char(c) {
            Some(w) => w,
            None => {
                return false;
            },
        };
        if w > (u16::MAX - self.end) as usize {
            return false;
        }
        match limit {
            Some(l) => {
                if self.col as usize + w > l as usize {
                    return false;
                }
            },
            None => {},
        }
        let ghost old_text = self.text@;
        let p = self.pos;
        proof {
            lemma_cols_of_prefix_mono(old_text, p as int);
        }
        self.text.insert(p, c);
        let len = self.text.len();
        assert(p < len);
        self.pos = p + 1;
        self.col = self.col + w as u16;
        self.end = self.end + w as u16;
        proof {
            assert(self.text@ =~= old_text.take(p as int) + seq![c] + old_text.skip(p as int));
            assert(self.text@.take(p + 1) =~= old_text.take(p as int) + seq![c]);
            assert(old_text =~= old_text.take(p as int) + old_text.skip(p as int));
            lemma_cols_of_concat(old_text.take(p as int), seq![c]);
            lemma_cols_of_concat(old_text.take(p as int), old_text.skip(p as int));
            lemma_cols_of_concat(old_text.take(p as int) + seq![c], old_text.skip(p as int));
            assert(seq![c].drop_last() =~= Seq::<char>::empty());
            assert(seq![c].last() == c);
            assert(cols_of(seq![c]) == w) by {
                reveal_with_fuel(cols_of, 2);
            }
        }
        true
    }

    /// Type each character of `s` at the cursor, in turn (the register text
    /// that `<C-r>` puts).
    pub fn insert_text(&mut self, s: &str, limit: Option<u16>)
        requires
            old(self).wf(),
        ensures
            final(self).wf(),
            final(self).start == old(self).start,
            final(self)@ == spec_insert_all(old(self)@, s@, limit),
    {
        let n = s.unicode_len();
        let mut i: usize = 0;
        proof {
            assert(s@.skip(0) =~= s@);
        }
        while i < n
            invariant
                n == s@.len(),
                i <= n,
                self.wf(),
                self.start == old(self).start,
                spec_insert_all(old(self)@, s@, limit) == spec_insert_all(self@, s@.skip(i as int), limit),
            decreases n - i,
        {
            let c = s.get_char(i);
            proof {
                assert(s@.skip(i as int)[0] == c);
                assert(s@.skip(i as int).drop_first() =~= s@.skip(i + 1));
            }
            self.insert(c, limit);
            i = i + 1;
        }
    }

    /// Delete the character before the cursor.
    pub fn backspace(&mut self) -> (done: bool)
        requires
            old(self).wf(),
        ensures
            final(self).wf(),
            final(self).start == old(self).start,
            done <==> old(self).pos > 0,
            done ==> final(self).text@ == old(self).text@.remove(old(self).pos - 1)
                && final(self).pos == old(self).pos - 1,
            !done ==> final(self)@ == old(self)@,
    {
        if self.pos == 0 {
            return false;
        }
        let ghost old_text = self.text@;
        let p = self.pos - 1;
        let c = self.text.remove(p);
        let w: usize = match width_of_char(c) {
            Some(w) => w,
            None => 0,
        };
        proof {
            assert(old_text.take(p + 1).drop_last() =~= old_text.take(p as int));
            assert(old_text =~= old_text.take(p + 1) + old_text.skip(p + 1));
            assert(self.text@ =~= old_text.take(p as int) + old_text.skip(p + 1));
            assert(self.text@.take(p as int) =~= old_text.take(p as int));
            lemma_cols_of_concat(old_text.take(p + 1), old_text.skip(p + 1));
            lemma_cols_of_concat(old_text.take(p as int), old_text.skip(p + 1));
        }
        self.pos = p;
        self.col = self.col - w as u16;
        self.end = self.end - w as u16;
        true
    }

    /// Move the cursor one character left.
    pub fn left(&mut self) -> (done: bool)
        requires
            old(self).wf(),
        ensures
            final(self).wf(),
            final(self).start == old(self).start,
            final(self).text@ == old(self).text@,
            done <==> old(self).pos > 0,
            final(self).pos == if done { old(self).pos - 1 } else { old(self).pos as int },
    {
        if self.pos == 0 {
            return false;
        }
        let p = self.pos - 1;
        let c = self.text[p];
        let w: usize = match width_of_char(c) {
            Some(w) => w,
            None => 0,
        };
        proof {
            assert(self.text@.take(p + 1).drop_last() =~= self.text@.take(p as int));
        }
        self.pos = p;
        self.col = self.col - w as u16;
        true
    }

    /// Move the cursor one character right.
    pub fn right(&mut self) -> (done: bool)
        requires
            old(self).wf(),
        ensures
            final(self).wf(),
            final(self).start == old(self).start,
            final(self).text@ == old(self).text@,
            done <==> old(self).pos < old(self).text@.len(),
            final(self).pos == if done { old(self).pos + 1 } else { old(self).pos as int },
    {
        if self.pos >= self.text.len() {
            return false;
        }
        let p = self.pos;
        let c = self.text[p];
        let w: usize = match width_of_char(c) {
            Some(w) => w,
            None => 0,
        };
        proof {
            assert(self.text@.take(p + 1).drop_last() =~= self.text@.take(p as int));
            lemma_cols_of_prefix_mono(self.text@, p + 1);
        }
        self.pos = p + 1;
        self.col = self.col + w as u16;
        true
    }
}

/// The columns of a prefix are at most those of the whole text.
pub proof fn lemma_cols_of_prefix_mono(s: Seq<char>, i: int)
    requires
        0 <= i <= s.len(),
    ensures
        cols_of(s.take(i)) <= cols_of(s),
{
    assert(s =~= s.take(i) + s.skip(i));
    lemma_cols_of_concat(s.take(i), s.skip(i));
}

} // verus!
