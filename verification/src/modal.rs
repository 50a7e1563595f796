//! Dialogs: the single-line and multi-line text editors, every modal's state,
//! and how each modal answers a key press.
//!
//! Cursors are byte offsets into the edited `String`, always on a character
//! boundary (see [`crate::text::is_boundary`]).
use vstd::prelude::*;

use crate::layout::{
    console_theme_name, console_theme_name_spec, theme_name, theme_name_spec, CONSOLE_THEME_COUNT,
    THEME_COUNT,
};
use crate::nav::{list_move, list_move_spec, KeyCode, KeyModifiers, PAGE};
use crate::numeric::usize_to_u16_saturating;
use crate::settings::ColorMode;
use crate::text::{parse_u32, parse_u32_spec, split_nl, trim, trim_chars,
    byte_len, char_index, char_index_of, char_width, chars_of, concat_chars, is_boundary,
    lemma_byte_len_full, lemma_byte_len_mono, lemma_byte_len_prefix, lemma_byte_len_step,
    lemma_char_index, slice_chars, str_lines, lines_of, string_len, string_of, utf8_width, byte_offset_of,
};

verus! {

// -- Text-input widget ------------------------------------------------------

/// A single-line text field with a cursor.
#[derive(Debug, Clone)]
pub struct TextInput {
    pub value: String,
    /// Byte offset of the cursor in `value`.
    pub cursor: usize,
}

/// `post` is `pre` with `c` typed at the cursor.
pub open spec fn push_rel(pre: TextInput, post: TextInput, c: char) -> bool {
    &&& post.wf()
    &&& post.value@ == pre.value@.insert(pre.pos(), c)
    &&& post.cursor == pre.cursor + char_width(c)
    &&& post.pos() == pre.pos() + 1
}

/// `post` is `pre` after Backspace.
pub open spec fn backspace_rel(pre: TextInput, post: TextInput) -> bool {
    &&& post.wf()
    &&& pre.cursor == 0 ==> post == pre
    &&& pre.cursor > 0 ==> {
        &&& post.value@ == pre.value@.remove(pre.pos() - 1)
        &&& post.cursor == byte_len(pre.value@.take(pre.pos() - 1))
        &&& post.pos() == pre.pos() - 1
    }
}

/// `post` is `pre` after Left.
pub open spec fn left_rel(pre: TextInput, post: TextInput) -> bool {
    &&& post.wf()
    &&& post.value == pre.value
    &&& pre.cursor == 0 ==> post.cursor == 0
    &&& pre.cursor > 0 ==> post.cursor == byte_len(pre.value@.take(pre.pos() - 1)) && post.pos()
        == pre.pos() - 1
}

/// `post` is `pre` after Right.
pub open spec fn right_rel(pre: TextInput, post: TextInput) -> bool {
    &&& post.wf()
    &&& post.value == pre.value
    &&& pre.cursor >= byte_len(pre.value@) ==> post.cursor == pre.cursor
    &&& pre.cursor < byte_len(pre.value@) ==> post.cursor == byte_len(
        pre.value@.take(pre.pos() + 1),
    ) && post.pos() == pre.pos() + 1
}

impl TextInput {
    /// The cursor sits on a character boundary of the value.
    pub open spec fn wf(&self) -> bool {
        is_boundary(self.value@, self.cursor as int)
    }

    /// Character position of the cursor.
    pub open spec fn pos(&self) -> int {
        char_index(self.value@, self.cursor as int)
    }

    /// A field holding `v` with the cursor at its end.
    pub fn with_value(v: &str) -> (r: Self)
        ensures
            r.wf(),
            r.value@ == v@,
            r.cursor == byte_len(v@),
            r.pos() == v@.len(),
    {
        let value = v.to_owned();
        let cursor = string_len(&value);
        proof {
            lemma_byte_len_full(value@);
            lemma_char_index(value@, value@.len() as int);
        }
        Self { value, cursor }
    }

    /// Inserts `c` at the cursor and moves the cursor past it.
    pub fn push(&mut self, c: char)
        requires
            old(self).wf(),
            byte_len(old(self).value@) + char_width(c) <= usize::MAX,
        ensures
            push_rel(*old(self), *final(self), c),
    {
        let mut cs = chars_of(self.value.as_str());
        let k = char_index_of(&cs, self.cursor);
        let ghost old_cs = cs@;
        proof {
            lemma_byte_len_prefix(old_cs, k as int);
        }
        cs.insert(k, c);
        self.value = string_of(&cs);
        self.cursor = self.cursor + utf8_width(c);
        proof {
            assert(cs@.take(k as int) =~= old_cs.take(k as int));
            lemma_byte_len_step(cs@, k as int);
            lemma_char_index(cs@, k + 1);
        }
    }

    /// Deletes the character before the cursor, if any.
    pub fn backspace(&mut self)
        requires
            old(self).wf(),
        ensures
            backspace_rel(*old(self), *final(self)),
    {
        if self.cursor == 0 {
            return;
        }
        let total = string_len(&self.value);
        let mut cs = chars_of(self.value.as_str());
        let k = char_index_of(&cs, self.cursor);
        let ghost old_cs = cs@;
        proof {
            if k == 0 {
                assert(cs@.take(0) =~= Seq::<char>::empty());
            }
        }
        let nb = byte_offset_of(&cs, k - 1);
        cs.remove(k - 1);
        self.value = string_of(&cs);
        self.cursor = nb;
        proof {
            assert(cs@.take(k - 1) =~= old_cs.take(k - 1));
            lemma_char_index(cs@, k - 1);
        }
    }

    /// Moves the cursor one character left, if it can.
    pub fn move_left(&mut self)
        requires
            old(self).wf(),
        ensures
            left_rel(*old(self), *final(self)),
    {
        if self.cursor == 0 {
            return;
        }
        let total = string_len(&self.value);
        let cs = chars_of(self.value.as_str());
        let k = char_index_of(&cs, self.cursor);
        proof {
            if k == 0 {
                assert(cs@.take(0) =~= Seq::<char>::empty());
            }
        }
        self.cursor = byte_offset_of(&cs, k - 1);
        proof {
            lemma_char_index(cs@, k - 1);
        }
    }

    /// Moves the cursor one character right, if it can.
    pub fn move_right(&mut self)
        requires
            old(self).wf(),
        ensures
            right_rel(*old(self), *final(self)),
    {
        let total = string_len(&self.value);
        if self.cursor >= total {
            return;
        }
        let cs = chars_of(self.value.as_str());
        let k = char_index_of(&cs, self.cursor);
        proof {
            if k == cs.len() {
                lemma_byte_len_full(cs@);
            }
        }
        self.cursor = byte_offset_of(&cs, k + 1);
        proof {
            lemma_char_index(cs@, k + 1);
        }
    }
}

impl Default for TextInput {
    fn default() -> (r: Self)
        ensures
            r.wf(),
            r.value@ == Seq::<char>::empty(),
            r.cursor == 0,
    {
        let r = Self { value: String::new(), cursor: 0 };
        proof {
            lemma_char_index(r.value@, 0);
        }
        r
    }
}

// -- Multi-line text editor -------------------------------------------------

/// `s` without its trailing carriage returns.
pub open spec fn trim_end_cr(s: Seq<char>) -> Seq<char>
    decreases s.len(),
{
    if s.len() > 0 && s.last() == '\r' {
        trim_end_cr(s.drop_last())
    } else {
        s
    }
}

/// The lines an editor opens with for `text`: its lines without trailing
/// carriage returns, or one empty line when there are none.
pub open spec fn editor_lines(text: Seq<char>) -> Seq<Seq<char>> {
    let ls = str_lines(text);
    if ls.len() == 0 {
        seq![Seq::<char>::empty()]
    } else {
        Seq::new(ls.len(), |i: int| trim_end_cr(ls[i]))
    }
}

/// `lines` joined by `'\n'`.
pub open spec fn join_lines(lines: Seq<Seq<char>>) -> Seq<char>
    decreases lines.len(),
{
    if lines.len() == 0 {
        Seq::empty()
    } else if lines.len() == 1 {
        lines[0]
    } else {
        join_lines(lines.drop_last()) + seq!['\n'] + lines.last()
    }
}

/// A multi-line text editor (the lyrics editor).
#[derive(Debug, Clone)]
pub struct TextArea {
    pub lines: Vec<String>,
    pub cursor_row: usize,
    /// Byte offset of the cursor in `lines[cursor_row]`.
    pub cursor_col: usize,
}

/// `post` is `pre` with `c` typed at the cursor.
pub open spec fn insert_char_rel(pre: TextArea, post: TextArea, c: char) -> bool {
    &&& post.text() == pre.text().update(
        pre.cursor_row as int,
        pre.cur_line().insert(pre.pos(), c),
    )
    &&& post.cursor_row == pre.cursor_row
    &&& post.cursor_col == pre.cursor_col + char_width(c)
}

/// `post` is `pre` after Backspace: the character before the cursor goes, or
/// at the start of a line the line joins the one above.
pub open spec fn delete_char_rel(pre: TextArea, post: TextArea) -> bool {
    let r = pre.cursor_row as int;
    if pre.cursor_col > 0 {
        &&& post.text() == pre.text().update(r, pre.cur_line().remove(pre.pos() - 1))
        &&& post.cursor_row == pre.cursor_row
        &&& post.cursor_col == byte_len(pre.cur_line().take(pre.pos() - 1))
    } else if r > 0 {
        &&& post.text() == pre.text().take(r - 1).push(pre.text()[r - 1] + pre.text()[r])
            + pre.text().skip(r + 1)
        &&& post.cursor_row == r - 1
        &&& post.cursor_col == byte_len(pre.text()[r - 1])
    } else {
        post == pre
    }
}

/// `post` is `pre` after Delete: the character under the cursor goes, or at
/// the end of a line the next line joins it.
pub open spec fn delete_next_rel(pre: TextArea, post: TextArea) -> bool {
    let r = pre.cursor_row as int;
    &&& post.cursor_row == pre.cursor_row
    &&& post.cursor_col == pre.cursor_col
    &&& if pre.cursor_col < byte_len(pre.cur_line()) {
        post.text() == pre.text().update(r, pre.cur_line().remove(pre.pos()))
    } else if r + 1 < pre.lines@.len() {
        post.text() == pre.text().take(r).push(pre.text()[r] + pre.text()[r + 1]) + pre.text().skip(
            r + 2,
        )
    } else {
        post == pre
    }
}

/// `post` is `pre` with its line split at the cursor, the cursor at the start
/// of the second half.
pub open spec fn newline_rel(pre: TextArea, post: TextArea) -> bool {
    let r = pre.cursor_row as int;
    let l = pre.cur_line();
    let k = pre.pos();
    &&& post.text() == pre.text().take(r).push(l.take(k)).push(l.skip(k)) + pre.text().skip(r + 1)
    &&& post.cursor_row == pre.cursor_row + 1
    &&& post.cursor_col == 0
}

/// `post` is `pre` with the cursor one character left, stopping at the start
/// of the line.
pub open spec fn area_left_rel(pre: TextArea, post: TextArea) -> bool {
    &&& post.lines == pre.lines
    &&& post.cursor_row == pre.cursor_row
    &&& pre.cursor_col == 0 ==> post.cursor_col == 0
    &&& pre.cursor_col > 0 ==> post.cursor_col == byte_len(pre.cur_line().take(pre.pos() - 1))
}

/// `post` is `pre` with the cursor one character right, stopping at the end
/// of the line.
pub open spec fn area_right_rel(pre: TextArea, post: TextArea) -> bool {
    &&& post.lines == pre.lines
    &&& post.cursor_row == pre.cursor_row
    &&& pre.cursor_col >= byte_len(pre.cur_line()) ==> post.cursor_col == pre.cursor_col
    &&& pre.cursor_col < byte_len(pre.cur_line()) ==> post.cursor_col == byte_len(
        pre.cur_line().take(pre.pos() + 1),
    )
}

/// `post` is `pre` with the cursor a line up, its column clamped to that line.
pub open spec fn up_rel(pre: TextArea, post: TextArea) -> bool {
    &&& post.lines == pre.lines
    &&& pre.cursor_row == 0 ==> post == pre
    &&& pre.cursor_row > 0 ==> post.cursor_row == pre.cursor_row - 1 && post.cursor_col
        == clamp_col_spec(pre.text()[pre.cursor_row - 1], pre.cursor_col as int)
}

/// `post` is `pre` with the cursor a line down, its column clamped to that line.
pub open spec fn down_rel(pre: TextArea, post: TextArea) -> bool {
    &&& post.lines == pre.lines
    &&& pre.cursor_row + 1 >= pre.lines@.len() ==> post == pre
    &&& pre.cursor_row + 1 < pre.lines@.len() ==> post.cursor_row == pre.cursor_row + 1
        && post.cursor_col == clamp_col_spec(pre.text()[pre.cursor_row + 1], pre.cursor_col as int)
}

/// `post` is `pre` with the cursor at the start of its line.
pub open spec fn home_rel(pre: TextArea, post: TextArea) -> bool {
    &&& post.lines == pre.lines
    &&& post.cursor_row == pre.cursor_row
    &&& post.cursor_col == 0
}

/// `post` is `pre` with the cursor at the end of its line.
pub open spec fn end_rel(pre: TextArea, post: TextArea) -> bool {
    &&& post.lines == pre.lines
    &&& post.cursor_row == pre.cursor_row
    &&& post.cursor_col == byte_len(pre.cur_line())
}

impl TextArea {
    /// The text, line by line.
    pub open spec fn text(&self) -> Seq<Seq<char>> {
        Seq::new(self.lines@.len(), |i: int| self.lines@[i]@)
    }

    /// The line under the cursor.
    pub open spec fn cur_line(&self) -> Seq<char> {
        self.lines@[self.cursor_row as int]@
    }

    /// Character position of the cursor within its line.
    pub open spec fn pos(&self) -> int {
        char_index(self.cur_line(), self.cursor_col as int)
    }

    /// At least one line, and the cursor inside the text on a boundary.
    pub open spec fn wf(&self) -> bool {
        &&& self.lines@.len() >= 1
        &&& self.cursor_row < self.lines@.len()
        &&& is_boundary(self.cur_line(), self.cursor_col as int)
    }

    /// An editor holding `text`, with the cursor at the end of its last line.
    pub fn from_text(text: &str) -> (r: Self)
        ensures
            r.wf(),
            r.text() == editor_lines(text@),
            r.cursor_row == r.text().len() - 1,
            r.cursor_col == byte_len(r.text().last()),
    {
        let cs = chars_of(text);
        let raw = lines_of(&cs);
        let mut lines: Vec<String> = Vec::new();
        for i in 0..raw.len()
            invariant
                raw@.len() == str_lines(text@).len(),
                forall|j: int| 0 <= j < raw@.len() ==> #[trigger] raw@[j]@ == str_lines(text@)[j],
                lines@.len() == i,
                forall|j: int|
                    0 <= j < i ==> #[trigger] lines@[j]@ == trim_end_cr(str_lines(text@)[j]),
        {
            let t = trim_end_cr_chars(&raw[i]);
            lines.push(string_of(&t));
        }
        if lines.len() == 0 {
            lines.push(String::new());
        }
        let cursor_row = lines.len() - 1;
        let cursor_col = string_len(&lines[cursor_row]);
        let r = Self { lines, cursor_row, cursor_col };
        proof {
            assert(r.text() =~= editor_lines(text@));
            lemma_byte_len_full(r.cur_line());
            lemma_char_index(r.cur_line(), r.cur_line().len() as int);
        }
        r
    }

    /// The text with lines joined by `'\n'`.
    pub fn as_string(&self) -> (s: String)
        ensures
            s@ == join_lines(self.text()),
    {
        let mut out: Vec<char> = Vec::new();
        for i in 0..self.lines.len()
            invariant
                out@ == join_lines(self.text().take(i as int)),
        {
            let line = chars_of(self.lines[i].as_str());
            proof {
                assert(self.text().take(i + 1).drop_last() =~= self.text().take(i as int));
            }
            if i > 0 {
                out.push('\n');
            }
            out = concat_chars(&out, &line);
            proof {
                if i == 0 {
                    assert(self.text().take(1) =~= seq![self.text()[0]]);
                    assert(out@ =~= self.text()[0]);
                } else {
                    assert(out@ =~= join_lines(self.text().take(i as int)) + seq!['\n']
                        + self.text()[i as int]);
                }
            }
        }
        proof {
            assert(self.text().take(self.lines.len() as int) =~= self.text());
        }
        string_of(&out)
    }

    /// Replaces the line under the cursor.
    fn set_line(&mut self, v: &Vec<char>)
        requires
            old(self).cursor_row < old(self).lines@.len(),
        ensures
            final(self).lines@.len() == old(self).lines@.len(),
            final(self).text() == old(self).text().update(old(self).cursor_row as int, v@),
            final(self).cursor_row == old(self).cursor_row,
            final(self).cursor_col == old(self).cursor_col,
    {
        let row = self.cursor_row;
        self.lines.set(row, string_of(v));
        proof {
            assert(self.text() =~= old(self).text().update(row as int, v@));
        }
    }

    /// Inserts `c` at the cursor and moves past it.
    pub fn insert_char(&mut self, c: char)
        requires
            old(self).wf(),
            byte_len(old(self).cur_line()) + char_width(c) <= usize::MAX,
        ensures
            final(self).wf(),
            insert_char_rel(*old(self), *final(self), c),
    {
        let mut cs = chars_of(self.lines[self.cursor_row].as_str());
        let k = char_index_of(&cs, self.cursor_col);
        let ghost old_cs = cs@;
        proof {
            lemma_byte_len_prefix(old_cs, k as int);
        }
        cs.insert(k, c);
        self.set_line(&cs);
        self.cursor_col = self.cursor_col + utf8_width(c);
        proof {
            assert(self.cur_line() == self.text()[self.cursor_row as int]);
            assert(cs@.take(k as int) =~= old_cs.take(k as int));
            lemma_byte_len_step(cs@, k as int);
            lemma_char_index(cs@, k + 1);
            assert(self.cur_line() == cs@);
        }
    }

    /// Backspace: deletes the character before the cursor, or joins the line
    /// onto the one above when the cursor is at its start.
    pub fn delete_char(&mut self)
        requires
            old(self).wf(),
            old(self).cursor_row > 0 ==> byte_len(old(self).text()[old(self).cursor_row - 1])
                + byte_len(old(self).cur_line()) <= usize::MAX,
        ensures
            final(self).wf(),
            delete_char_rel(*old(self), *final(self)),
    {
        if self.cursor_col > 0 {
            let total = string_len(&self.lines[self.cursor_row]);
            let mut cs = chars_of(self.lines[self.cursor_row].as_str());
            let k = char_index_of(&cs, self.cursor_col);
            let ghost old_cs = cs@;
            proof {
                if k == 0 {
                    assert(cs@.take(0) =~= Seq::<char>::empty());
                }
            }
            let nb = byte_offset_of(&cs, k - 1);
            cs.remove(k - 1);
            self.set_line(&cs);
            self.cursor_col = nb;
            proof {
                assert(cs@.take(k - 1) =~= old_cs.take(k - 1));
                lemma_char_index(cs@, k - 1);
                assert(self.cur_line() == self.text()[self.cursor_row as int]);
                assert(self.cur_line() == cs@);
            }
        } else if self.cursor_row > 0 {
            let ghost t0 = self.text();
            let row = self.cursor_row;
            let current = self.lines.remove(row);
            let prev = chars_of(self.lines[row - 1].as_str());
            let prev_len = string_len(&self.lines[row - 1]);
            let cur = chars_of(current.as_str());
            let joined = concat_chars(&prev, &cur);
            self.lines.set(row - 1, string_of(&joined));
            self.cursor_row = row - 1;
            self.cursor_col = prev_len;
            proof {
                assert(self.text() =~= t0.take(row - 1).push(t0[row - 1] + t0[row as int])
                    + t0.skip(row + 1));
                assert(joined@.take(prev@.len() as int) =~= prev@);
                lemma_char_index(joined@, prev@.len() as int);
                lemma_byte_len_full(prev@);
            }
        }
    }

    /// Delete: removes the character under the cursor, or joins the next line
    /// onto this one when the cursor is at the end of its line.
    pub fn delete_next_char(&mut self)
        requires
            old(self).wf(),
            old(self).cursor_row + 1 < old(self).lines@.len() ==> byte_len(old(self).cur_line())
                + byte_len(old(self).text()[old(self).cursor_row + 1]) <= usize::MAX,
        ensures
            final(self).wf(),
            delete_next_rel(*old(self), *final(self)),
    {
        let row = self.cursor_row;
        let n = self.lines.len();
        let line_len = string_len(&self.lines[row]);
        if self.cursor_col < line_len {
            let mut cs = chars_of(self.lines[row].as_str());
            let k = char_index_of(&cs, self.cursor_col);
            let ghost old_cs = cs@;
            proof {
                if k == cs.len() {
                    lemma_byte_len_full(cs@);
                }
            }
            cs.remove(k);
            self.set_line(&cs);
            proof {
                assert(cs@.take(k as int) =~= old_cs.take(k as int));
                lemma_char_index(cs@, k as int);
                assert(self.cur_line() == self.text()[self.cursor_row as int]);
                assert(self.cur_line() == cs@);
            }
        } else if row + 1 < n {
            let ghost t0 = self.text();
            let next = self.lines.remove(row + 1);
            let here = chars_of(self.lines[row].as_str());
            let nx = chars_of(next.as_str());
            let joined = concat_chars(&here, &nx);
            let ghost col_k = char_index(here@, self.cursor_col as int);
            self.lines.set(row, string_of(&joined));
            proof {
                assert(self.text() =~= t0.take(row as int).push(t0[row as int] + t0[row + 1])
                    + t0.skip(row + 2));
                assert(joined@.take(col_k) =~= here@.take(col_k));
                lemma_char_index(joined@, col_k);
            }
        }
    }

    /// Splits the line at the cursor; the cursor moves to the start of the
    /// new line below.
    pub fn insert_newline(&mut self)
        requires
            old(self).wf(),
        ensures
            final(self).wf(),
            newline_rel(*old(self), *final(self)),
    {
        let ghost t0 = self.text();
        let row = self.cursor_row;
        let n = self.lines.len();
        let cs = chars_of(self.lines[row].as_str());
        let k = char_index_of(&cs, self.cursor_col);
        let head = slice_chars(&cs, 0, k);
        let rest = slice_chars(&cs, k, cs.len());
        self.lines.set(row, string_of(&head));
        self.lines.insert(row + 1, string_of(&rest));
        self.cursor_row = row + 1;
        self.cursor_col = 0;
        proof {
            assert(head@ =~= cs@.take(k as int));
            assert(rest@ =~= cs@.skip(k as int));
            assert(self.text() =~= t0.take(row as int).push(cs@.take(k as int)).push(
                cs@.skip(k as int),
            ) + t0.skip(row + 1));
            lemma_char_index(self.cur_line(), 0);
            assert(self.cur_line().take(0) =~= Seq::<char>::empty());
        }
    }

    /// Moves the cursor one character left within its line.
    pub fn move_left(&mut self)
        requires
            old(self).wf(),
        ensures
            final(self).wf(),
            area_left_rel(*old(self), *final(self)),
    {
        if self.cursor_col > 0 {
            let total = string_len(&self.lines[self.cursor_row]);
            let cs = chars_of(self.lines[self.cursor_row].as_str());
            let k = char_index_of(&cs, self.cursor_col);
            proof {
                if k == 0 {
                    assert(cs@.take(0) =~= Seq::<char>::empty());
                }
            }
            self.cursor_col = byte_offset_of(&cs, k - 1);
            proof {
                lemma_char_index(cs@, k - 1);
            }
        }
    }

    /// Moves the cursor one character right within its line.
    pub fn move_right(&mut self)
        requires
            old(self).wf(),
        ensures
            final(self).wf(),
            area_right_rel(*old(self), *final(self)),
    {
        let total = string_len(&self.lines[self.cursor_row]);
        if self.cursor_col < total {
            let cs = chars_of(self.lines[self.cursor_row].as_str());
            let k = char_index_of(&cs, self.cursor_col);
            proof {
                if k == cs.len() {
                    lemma_byte_len_full(cs@);
                }
            }
            self.cursor_col = byte_offset_of(&cs, k + 1);
            proof {
                lemma_char_index(cs@, k + 1);
            }
        }
    }

    /// Moves the cursor up a line, keeping its column where the line allows.
    pub fn move_up(&mut self)
        requires
            old(self).wf(),
        ensures
            final(self).wf(),
            up_rel(*old(self), *final(self)),
    {
        if self.cursor_row > 0 {
            self.cursor_row = self.cursor_row - 1;
            self.cursor_col = clamp_col(&self.lines[self.cursor_row], self.cursor_col);
        }
    }

    /// Moves the cursor down a line, keeping its column where the line allows.
    pub fn move_down(&mut self)
        requires
            old(self).wf(),
        ensures
            final(self).wf(),
            down_rel(*old(self), *final(self)),
    {
        let n = self.lines.len();
        if self.cursor_row + 1 < n {
            self.cursor_row = self.cursor_row + 1;
            self.cursor_col = clamp_col(&self.lines[self.cursor_row], self.cursor_col);
        }
    }

    /// Home: the cursor to the start of its line.
    pub fn move_line_start(&mut self)
        requires
            old(self).wf(),
        ensures
            final(self).wf(),
            home_rel(*old(self), *final(self)),
    {
        self.cursor_col = 0;
        proof {
            lemma_char_index(self.cur_line(), 0);
            assert(self.cur_line().take(0) =~= Seq::<char>::empty());
        }
    }

    /// End: the cursor to the end of its line.
    pub fn move_line_end(&mut self)
        requires
            old(self).wf(),
        ensures
            final(self).wf(),
            end_rel(*old(self), *final(self)),
    {
        self.cursor_col = string_len(&self.lines[self.cursor_row]);
        proof {
            lemma_byte_len_full(self.cur_line());
            lemma_char_index(self.cur_line(), self.cur_line().len() as int);
        }
    }
}

/// The furthest boundary of `line` at or before byte `col`.
pub open spec fn clamp_col_spec(line: Seq<char>, col: int) -> int {
    byte_len(line.take(clamp_index(line, col))) as int
}

/// Characters of `line` whose encodings end at or before byte `col`.
pub open spec fn clamp_index(line: Seq<char>, col: int) -> int
    decreases line.len(),
{
    if line.len() == 0 {
        0
    } else if byte_len(line) <= col {
        line.len() as int
    } else {
        clamp_index(line.drop_last(), col)
    }
}

proof fn lemma_clamp_index(line: Seq<char>, col: int, k: int)
    requires
        0 <= k <= line.len(),
        0 <= col,
    ensures
        0 <= clamp_index(line, col) <= line.len(),
        byte_len(line.take(clamp_index(line, col))) <= col,
        byte_len(line.take(k)) <= col ==> k <= clamp_index(line, col),
    decreases line.len(),
{
    if line.len() == 0 {
        assert(line.take(0) =~= line);
    } else if byte_len(line) <= col {
        lemma_byte_len_full(line);
    } else {
        let p = line.drop_last();
        if k == line.len() {
            lemma_byte_len_full(line);
            lemma_clamp_index(p, col, 0);
        } else {
            lemma_clamp_index(p, col, k);
            assert(p.take(k) =~= line.take(k));
        }
        assert(p.take(clamp_index(p, col)) =~= line.take(clamp_index(p, col)));
    }
}

/// The furthest character boundary of `line` at or before byte `col`.
fn clamp_col(line: &String, col: usize) -> (c: usize)
    ensures
        c == clamp_col_spec(line@, col as int),
        is_boundary(line@, c as int),
        c <= col,
{
    let total = string_len(line);
    let cs = chars_of(line.as_str());
    let mut k: usize = 0;
    let mut acc: usize = 0;
    let ghost ci = clamp_index(cs@, col as int);
    proof {
        lemma_clamp_index(cs@, col as int, 0);
        assert(cs@.take(0) =~= Seq::<char>::empty());
    }
    while k < cs.len() && utf8_width(cs[k]) <= col - acc
        invariant
            k <= cs.len(),
            total == byte_len(cs@),
            acc == byte_len(cs@.take(k as int)),
            acc <= col,
            ci == clamp_index(cs@, col as int),
            k <= ci,
            0 <= ci <= cs.len(),
            byte_len(cs@.take(ci)) <= col,
        decreases cs.len() - k,
    {
        proof {
            lemma_byte_len_step(cs@, k as int);
            lemma_clamp_index(cs@, col as int, k + 1);
        }
        acc = acc + utf8_width(cs[k]);
        k = k + 1;
    }
    proof {
        if k < ci {
            lemma_byte_len_step(cs@, k as int);
            lemma_byte_len_mono(cs@, k + 1, ci);
        }
        lemma_char_index(cs@, k as int);
    }
    acc
}

/// `s` without its trailing carriage returns.
fn trim_end_cr_chars(v: &Vec<char>) -> (r: Vec<char>)
    ensures
        r@ == trim_end_cr(v@),
{
    let mut hi = v.len();
    proof {
        assert(v@.take(hi as int) =~= v@);
    }
    while hi > 0 && v[hi - 1] == '\r'
        invariant
            hi <= v.len(),
            trim_end_cr(v@) == trim_end_cr(v@.take(hi as int)),
        decreases hi,
    {
        proof {
            assert(v@.take(hi as int).drop_last() =~= v@.take(hi - 1));
        }
        hi = hi - 1;
    }
    proof {
        assert(v@.subrange(0, hi as int) =~= v@.take(hi as int));
    }
    slice_chars(v, 0, hi)
}

/// The lyrics editor opened on `raw`.
pub fn make_lyrics_textarea(raw: &str) -> (r: TextArea)
    ensures
        r.wf(),
        r.text() == editor_lines(raw@),
        r.cursor_row == r.text().len() - 1,
        r.cursor_col == byte_len(r.text().last()),
{
    TextArea::from_text(raw)
}


// -- RemoveTarget -----------------------------------------------------------

/// What a confirmed removal removes.
#[derive(Debug, Clone, Copy, PartialEq, Eq, Structural)]
pub enum RemoveTarget {
    TrackFromQueue { queue_idx: usize },
    TrackFromLibrary { track_id: u64 },
    TrackFromPlaylist { playlist_id: u64, track_id: u64 },
    Playlist { playlist_id: u64 },
    Queue,
}

// -- Settings modal state ---------------------------------------------------

/// Live state of the settings modal, mutated in place while it is open.
#[derive(Debug, Clone, Copy, PartialEq, Eq, Structural)]
pub struct SettingsState {
    pub cursor: usize,
    pub volume_pct: u32,
    pub seek_secs: u64,
    pub preview_theme_idx: usize,
    pub transparent: bool,
    /// Index into the 16-color console themes, previewed independently of
    /// `preview_theme_idx` so neither choice clobbers the other.
    pub preview_console_idx: usize,
    /// Editable color-mode preference (Auto / Truecolor / 16-color).
    pub color_mode: ColorMode,
    /// What truecolor auto-detection found; drives the banner and whether the
    /// transparency row is interactive.
    pub detected_truecolor: bool,
}

// -- Modal variants ---------------------------------------------------------

/// Every dialog the app can show.
#[derive(Debug, Clone)]
pub enum Modal {
    Notify { message: String },
    ConfirmRemove { description: String, target: RemoveTarget },
    EditPlaylist { id: u64, input: TextInput },
    NewPlaylist {
        input: TextInput,
        /// If set, the track to drop into the playlist right after it's created.
        add_track: Option<u64>,
    },
    AddToPlaylist { track_id: u64, track_name: String, choices: Vec<(u64, String)>, cursor: usize },
    Help,
    /// Confirms shuffling the active view into the queue.
    ShuffleView { view_name: String },
    /// Top-level menu: Settings / About / Quit.
    Menu { cursor: usize },
    About,
    ConfirmQuit,
    Settings(SettingsState),
    /// In-app editor for track metadata (name, artist, album, year, genre).
    EditMetadata {
        track_id: u64,
        /// [0]=name [1]=artist [2]=album [3]=year [4]=genre
        fields: [TextInput; 5],
        active_field: usize,
        /// Restored if the name field is cleared, so closing always writes a
        /// valid name (the editor never traps you).
        original_name: String,
    },
    /// Multi-line editor for raw LRC (or plain) lyrics text.
    EditLyrics { track_id: u64, textarea: TextArea },
}

/// Entries of the top-level menu.
pub const MENU_ENTRIES: usize = 3;

// -- ModalOutcome -----------------------------------------------------------

/// What a key press in a dialog amounts to.
#[derive(Debug)]
pub enum ModalOutcome {
    Consumed,
    Confirm(ModalConfirm),
    Dismissed,
}

/// A decision a dialog hands back to the app.
#[derive(Debug)]
pub enum ModalConfirm {
    Remove(RemoveTarget),
    RenamePlaylist { id: u64, new_name: String },
    NewPlaylist { name: String, add_track: Option<u64> },
    AddToPlaylist { track_id: u64, playlist_id: u64 },
    SaveSettings {
        volume_pct: u32,
        seek_secs: u64,
        theme_name: String,
        console_theme_name: String,
        transparent: bool,
        color_mode: ColorMode,
    },
    /// Apply a theme live during settings preview without closing the modal.
    PreviewTheme {
        theme_name: String,
        console_theme_name: String,
        transparent: bool,
        color_mode: ColorMode,
    },
    ShuffleView,
    OpenSettings,
    OpenAbout,
    Quit,
    SaveMetadata {
        track_id: u64,
        name: String,
        artist: Option<String>,
        album: Option<String>,
        year: Option<u32>,
        genre: Option<String>,
    },
    SaveLyrics {
        track_id: u64,
        /// `None` means the user cleared the lyrics field entirely.
        lyrics: Option<String>,
    },
    /// Saves all metadata fields then immediately opens the lyrics editor.
    SaveMetadataAndEditLyrics {
        track_id: u64,
        name: String,
        artist: Option<String>,
        album: Option<String>,
        year: Option<u32>,
        genre: Option<String>,
    },
}

// -- Shared helpers ---------------------------------------------------------

/// `s` trimmed, or `None` when nothing is left.
pub open spec fn nonempty_spec(s: Seq<char>) -> Option<Seq<char>> {
    if trim(s).len() == 0 {
        None
    } else {
        Some(trim(s))
    }
}

/// An optional string field matches [`nonempty_spec`] of `s`.
pub open spec fn opt_matches(o: Option<String>, s: Seq<char>) -> bool {
    match o {
        Some(v) => nonempty_spec(s) == Some(v@),
        None => nonempty_spec(s) is None,
    }
}

fn nonempty_opt(s: &str) -> (r: Option<String>)
    ensures
        opt_matches(r, s@),
{
    let t = trim_chars(&chars_of(s));
    if t.len() == 0 {
        None
    } else {
        Some(string_of(&t))
    }
}

// -- Text-input key helper --------------------------------------------------

enum TextInputResult {
    Consumed,
    Dismissed,
    Submitted(String),
}

/// Room to type one more character into a field holding `v`.
pub open spec fn has_room(v: Seq<char>) -> bool {
    byte_len(v) + 4 <= usize::MAX
}

/// `new` is `old` after `code`, as a single-line field edits itself: typed
/// characters go in at the cursor, Backspace / Left / Right act on it, every
/// other key leaves it alone.
pub open spec fn text_key_rel(old: TextInput, new: TextInput, code: KeyCode) -> bool {
    match code {
        KeyCode::Char(c) => push_rel(old, new, c),
        KeyCode::Backspace => backspace_rel(old, new),
        KeyCode::Left => left_rel(old, new),
        KeyCode::Right => right_rel(old, new),
        _ => new == old,
    }
}

fn handle_text_key(input: &mut TextInput, code: KeyCode) -> (r: TextInputResult)
    requires
        old(input).wf(),
        has_room(old(input).value@),
    ensures
        text_key_rel(*old(input), *final(input), code),
        match code {
            KeyCode::Enter => match r {
                TextInputResult::Submitted(n) => n@ == trim(old(input).value@) && n@.len() > 0,
                TextInputResult::Consumed => trim(old(input).value@).len() == 0,
                TextInputResult::Dismissed => false,
            },
            KeyCode::Esc => r is Dismissed,
            _ => r is Consumed,
        },
{
    match code {
        KeyCode::Enter => {
            let name = trim_chars(&chars_of(input.value.as_str()));
            if name.len() == 0 {
                TextInputResult::Consumed
            } else {
                TextInputResult::Submitted(string_of(&name))
            }
        },
        KeyCode::Esc => TextInputResult::Dismissed,
        KeyCode::Char(c) => {
            input.push(c);
            TextInputResult::Consumed
        },
        KeyCode::Backspace => {
            input.backspace();
            TextInputResult::Consumed
        },
        KeyCode::Left => {
            input.move_left();
            TextInputResult::Consumed
        },
        KeyCode::Right => {
            input.move_right();
            TextInputResult::Consumed
        },
        _ => TextInputResult::Consumed,
    }
}

// -- Settings ---------------------------------------------------------------

// Settings rows, in display order.
pub const SET_VOLUME: usize = 0;
pub const SET_SEEK: usize = 1;
pub const SET_COLOR_MODE: usize = 2;
pub const SET_THEME: usize = 3;
pub const SET_TRANSPARENCY: usize = 4;
pub const SET_ROWS: usize = 5;

/// Which rows accept input.  Every mode has themes to choose from, so only
/// transparency is locked (and skipped by the cursor) without truecolor.
pub fn settings_enabled(color_mode: ColorMode, detected: bool) -> (r: [bool; 5])
    ensures
        r@ == seq![true, true, true, true, color_mode.truecolor_spec(detected)],
{
    let tc = color_mode.truecolor(detected);
    let r = [true, true, true, true, tc];
    proof {
        assert(r@ =~= seq![true, true, true, true, tc]);
    }
    r
}

/// The key moves or adjusts a row: Left / Right / `h` / `l`.
pub open spec fn is_adjust(code: KeyCode) -> bool {
    code == KeyCode::Left || code == KeyCode::Right || code == KeyCode::Char('h') || code
        == KeyCode::Char('l')
}

/// Adjusting left rather than right.
pub open spec fn is_left(code: KeyCode) -> bool {
    code == KeyCode::Left || code == KeyCode::Char('h')
}

/// The key closes the settings dialog.
pub open spec fn is_close(code: KeyCode) -> bool {
    code == KeyCode::Enter || code == KeyCode::Esc || code == KeyCode::Char('q')
}

/// Both previewed themes name a theme that exists.
pub open spec fn theme_indices_ok(s: SettingsState) -> bool {
    s.preview_theme_idx < THEME_COUNT && s.preview_console_idx < CONSOLE_THEME_COUNT
}

/// The cursor is on a row that accepts input, and both previewed themes
/// exist.
pub open spec fn settings_wf(s: SettingsState) -> bool {
    &&& s.cursor < SET_ROWS
    &&& s.cursor == SET_TRANSPARENCY ==> s.color_mode.truecolor_spec(s.detected_truecolor)
    &&& theme_indices_ok(s)
}

/// `code` does not raise the volume or the seek step past its machine limit:
/// only raising the one under the cursor adds to it.
pub open spec fn settings_room(s: SettingsState, code: KeyCode) -> bool {
    &&& (s.cursor == SET_VOLUME && is_adjust(code) && !is_left(code) ==> s.volume_pct < u32::MAX)
    &&& (s.cursor == SET_SEEK && is_adjust(code) && !is_left(code) ==> s.seek_secs < u64::MAX)
}

/// The settings state after `code`.
pub open spec fn settings_step(code: KeyCode, s: SettingsState) -> SettingsState {
    let tc = s.color_mode.truecolor_spec(s.detected_truecolor);
    if code == KeyCode::Char('j') || code == KeyCode::Down {
        let c = if s.cursor + 1 < SET_TRANSPARENCY {
            s.cursor + 1
        } else if s.cursor + 1 == SET_TRANSPARENCY && tc {
            SET_TRANSPARENCY as int
        } else {
            s.cursor as int
        };
        SettingsState { cursor: c as usize, ..s }
    } else if code == KeyCode::Char('k') || code == KeyCode::Up {
        let c = if s.cursor == 0 {
            0
        } else if s.cursor - 1 < SET_TRANSPARENCY {
            s.cursor - 1
        } else if tc {
            SET_TRANSPARENCY as int
        } else {
            (SET_TRANSPARENCY - 1) as int
        };
        SettingsState { cursor: c as usize, ..s }
    } else if code == KeyCode::Char('g') || code == KeyCode::Home || code == KeyCode::PageUp {
        SettingsState { cursor: 0, ..s }
    } else if code == KeyCode::Char('G') || code == KeyCode::End || code == KeyCode::PageDown {
        SettingsState {
            cursor: if tc {
                SET_TRANSPARENCY
            } else {
                SET_THEME
            },
            ..s
        }
    } else if is_adjust(code) {
        let left = is_left(code);
        if s.cursor == SET_VOLUME {
            SettingsState {
                volume_pct: if left {
                    if s.volume_pct >= 1 {
                        (s.volume_pct - 1) as u32
                    } else {
                        0
                    }
                } else if s.volume_pct + 1 <= 100 {
                    (s.volume_pct + 1) as u32
                } else {
                    100
                },
                ..s
            }
        } else if s.cursor == SET_SEEK {
            SettingsState {
                seek_secs: if left {
                    if s.seek_secs >= 2 {
                        (s.seek_secs - 1) as u64
                    } else {
                        1
                    }
                } else if s.seek_secs + 1 <= 120 {
                    (s.seek_secs + 1) as u64
                } else {
                    120
                },
                ..s
            }
        } else if s.cursor == SET_COLOR_MODE {
            SettingsState { color_mode: s.color_mode.toggle_spec(s.detected_truecolor), ..s }
        } else if s.cursor == SET_THEME {
            if tc {
                SettingsState {
                    preview_theme_idx: if left {
                        if s.preview_theme_idx >= 1 {
                            (s.preview_theme_idx - 1) as usize
                        } else {
                            (THEME_COUNT - 1) as usize
                        }
                    } else {
                        ((s.preview_theme_idx + 1) % (THEME_COUNT as int)) as usize
                    },
                    ..s
                }
            } else {
                SettingsState {
                    preview_console_idx: if left {
                        if s.preview_console_idx >= 1 {
                            (s.preview_console_idx - 1) as usize
                        } else {
                            (CONSOLE_THEME_COUNT - 1) as usize
                        }
                    } else {
                        ((s.preview_console_idx + 1) % (CONSOLE_THEME_COUNT as int)) as usize
                    },
                    ..s
                }
            }
        } else {
            SettingsState { transparent: !s.transparent, ..s }
        }
    } else {
        s
    }
}

/// `r` previews the themes, transparency and color mode of `s`.
pub open spec fn is_preview_of(r: ModalOutcome, s: SettingsState) -> bool {
    r matches ModalOutcome::Confirm(
        ModalConfirm::PreviewTheme { theme_name, console_theme_name, transparent, color_mode },
    ) && theme_name@ == theme_name_spec(s.preview_theme_idx as int) && console_theme_name@
        == console_theme_name_spec(s.preview_console_idx as int) && transparent == s.transparent
        && color_mode == s.color_mode
}

/// `r` saves the settings of `s`.
pub open spec fn is_save_of(r: ModalOutcome, s: SettingsState) -> bool {
    r matches ModalOutcome::Confirm(
        ModalConfirm::SaveSettings {
            volume_pct,
            seek_secs,
            theme_name,
            console_theme_name,
            transparent,
            color_mode,
        },
    ) && volume_pct == s.volume_pct && seek_secs == s.seek_secs && theme_name@ == theme_name_spec(
        s.preview_theme_idx as int,
    ) && console_theme_name@ == console_theme_name_spec(s.preview_console_idx as int)
        && transparent == s.transparent && color_mode == s.color_mode
}

fn preview(s: &SettingsState) -> (r: ModalOutcome)
    requires
        theme_indices_ok(*s),
    ensures
        is_preview_of(r, *s),
{
    ModalOutcome::Confirm(
        ModalConfirm::PreviewTheme {
            theme_name: theme_name(s.preview_theme_idx).to_owned(),
            console_theme_name: console_theme_name(s.preview_console_idx).to_owned(),
            transparent: s.transparent,
            color_mode: s.color_mode,
        },
    )
}

fn handle_settings_key(code: KeyCode, s: &mut SettingsState) -> (r: ModalOutcome)
    requires
        settings_wf(*old(s)),
        settings_room(*old(s), code),
    ensures
        *final(s) == settings_step(code, *old(s)),
        settings_wf(*final(s)),
        is_adjust(code) && old(s).cursor >= SET_COLOR_MODE ==> is_preview_of(r, *final(s)),
        is_close(code) ==> is_save_of(r, *old(s)),
        !(is_adjust(code) && old(s).cursor >= SET_COLOR_MODE) && !is_close(code) ==> r is Consumed,
{
    let enabled = settings_enabled(s.color_mode, s.detected_truecolor);
    match code {
        KeyCode::Char('j') | KeyCode::Down => {
            let ghost tc = s.color_mode.truecolor_spec(s.detected_truecolor);
            let mut n = s.cursor;
            while n + 1 < SET_ROWS
                invariant_except_break
                    *s == *old(s),
                    n == old(s).cursor || (n == SET_TRANSPARENCY && !tc && old(s).cursor + 1
                        == SET_TRANSPARENCY),
                invariant
                    code == KeyCode::Char('j') || code == KeyCode::Down,
                    enabled@ == seq![true, true, true, true, tc],
                    tc == old(s).color_mode.truecolor_spec(old(s).detected_truecolor),
                    settings_wf(*old(s)),
                    n < SET_ROWS,
                ensures
                    *s == settings_step(code, *old(s)),
                decreases SET_ROWS - n,
            {
                n = n + 1;
                if enabled[n] {
                    s.cursor = n;
                    break;
                }
            }
            ModalOutcome::Consumed
        },
        KeyCode::Char('k') | KeyCode::Up => {
            let mut n = s.cursor;
            while n > 0
                invariant_except_break
                    *s == *old(s),
                    n == old(s).cursor,
                invariant
                    code == KeyCode::Char('k') || code == KeyCode::Up,
                    enabled@ == seq![
                        true,
                        true,
                        true,
                        true,
                        old(s).color_mode.truecolor_spec(old(s).detected_truecolor),
                    ],
                    settings_wf(*old(s)),
                    n < SET_ROWS,
                ensures
                    *s == settings_step(code, *old(s)),
                decreases n,
            {
                n = n - 1;
                if enabled[n] {
                    s.cursor = n;
                    break;
                }
            }
            ModalOutcome::Consumed
        },
        KeyCode::Char('g') | KeyCode::Home | KeyCode::PageUp => {
            s.cursor = 0;
            ModalOutcome::Consumed
        },
        KeyCode::Char('G') | KeyCode::End | KeyCode::PageDown => {
            s.cursor = if enabled[4] {
                4
            } else {
                3
            };
            ModalOutcome::Consumed
        },
        KeyCode::Left | KeyCode::Right | KeyCode::Char('h') | KeyCode::Char('l') => {
            let left = code == KeyCode::Left || code == KeyCode::Char('h');
            if s.cursor == SET_VOLUME {
                if left {
                    s.volume_pct = if s.volume_pct >= 1 {
                        s.volume_pct - 1
                    } else {
                        0
                    };
                } else {
                    s.volume_pct = if s.volume_pct + 1 <= 100 {
                        s.volume_pct + 1
                    } else {
                        100
                    };
                }
                ModalOutcome::Consumed
            } else if s.cursor == SET_SEEK {
                if left {
                    s.seek_secs = if s.seek_secs >= 2 {
                        s.seek_secs - 1
                    } else {
                        1
                    };
                } else {
                    s.seek_secs = if s.seek_secs + 1 <= 120 {
                        s.seek_secs + 1
                    } else {
                        120
                    };
                }
                ModalOutcome::Consumed
            } else if s.cursor == SET_COLOR_MODE {
                s.color_mode = s.color_mode.toggle(s.detected_truecolor);
                preview(s)
            } else if s.cursor == SET_THEME {
                if s.color_mode.truecolor(s.detected_truecolor) {
                    s.preview_theme_idx = if left {
                        if s.preview_theme_idx >= 1 {
                            s.preview_theme_idx - 1
                        } else {
                            THEME_COUNT - 1
                        }
                    } else {
                        (s.preview_theme_idx + 1) % THEME_COUNT
                    };
                } else {
                    s.preview_console_idx = if left {
                        if s.preview_console_idx >= 1 {
                            s.preview_console_idx - 1
                        } else {
                            CONSOLE_THEME_COUNT - 1
                        }
                    } else {
                        (s.preview_console_idx + 1) % CONSOLE_THEME_COUNT
                    };
                }
                preview(s)
            } else {
                s.transparent = !s.transparent;
                preview(s)
            }
        },
        // Enter, Esc and q all save and close.
        KeyCode::Enter | KeyCode::Esc | KeyCode::Char('q') => {
            ModalOutcome::Confirm(
                ModalConfirm::SaveSettings {
                    volume_pct: s.volume_pct,
                    seek_secs: s.seek_secs,
                    theme_name: theme_name(s.preview_theme_idx).to_owned(),
                    console_theme_name: console_theme_name(s.preview_console_idx).to_owned(),
                    transparent: s.transparent,
                    color_mode: s.color_mode,
                },
            )
        },
        _ => ModalOutcome::Consumed,
    }
}

// -- Metadata editor -------------------------------------------------------------

/// Row of the year field, which takes digits only.
pub const META_YEAR: usize = 3;

/// Rows of the metadata editor: five fields and the "Edit Lyrics" button.
pub const META_ROWS: usize = 6;

/// Every field's cursor sits on a boundary.
pub open spec fn fields_wf(fields: [TextInput; 5]) -> bool {
    forall|i: int| 0 <= i < 5 ==> #[trigger] fields@[i].wf()
}

/// Every field has room for one more character.
pub open spec fn fields_room(fields: [TextInput; 5]) -> bool {
    forall|i: int| 0 <= i < 5 ==> has_room(#[trigger] fields@[i].value@)
}

/// `r` commits the fields: the trimmed name (or `original_name` when that is
/// blank), the trimmed optional fields, and the year when it parses; it asks
/// for the lyrics editor next exactly when `lyrics` holds.
pub open spec fn is_metadata_commit(
    r: ModalOutcome,
    track_id: u64,
    fields: [TextInput; 5],
    original_name: Seq<char>,
    lyrics: bool,
) -> bool {
    let typed = trim(fields@[0].value@);
    let name = if typed.len() == 0 {
        original_name
    } else {
        typed
    };
    let year = parse_u32_spec(trim(fields@[3].value@));
    if lyrics {
        r matches ModalOutcome::Confirm(
            ModalConfirm::SaveMetadataAndEditLyrics { track_id: t, name: n, artist, album, year: y, genre },
        ) && t == track_id && n@ == name && opt_matches(artist, fields@[1].value@) && opt_matches(
            album,
            fields@[2].value@,
        ) && y == year && opt_matches(genre, fields@[4].value@)
    } else {
        r matches ModalOutcome::Confirm(
            ModalConfirm::SaveMetadata { track_id: t, name: n, artist, album, year: y, genre },
        ) && t == track_id && n@ == name && opt_matches(artist, fields@[1].value@) && opt_matches(
            album,
            fields@[2].value@,
        ) && y == year && opt_matches(genre, fields@[4].value@)
    }
}

/// The metadata editor after `code`: Tab / Down and BackTab / Up move between
/// the six rows, text keys edit the active field (the year takes digits
/// only), the button row ignores them.
pub open spec fn metadata_key_rel(
    old_fields: [TextInput; 5],
    old_active: int,
    new_fields: [TextInput; 5],
    new_active: int,
    code: KeyCode,
) -> bool {
    if code == KeyCode::Esc || code == KeyCode::Enter {
        new_fields == old_fields && new_active == old_active
    } else if code == KeyCode::Tab || code == KeyCode::Down {
        new_fields == old_fields && new_active == (old_active + 1) % (META_ROWS as int)
    } else if code == KeyCode::BackTab || code == KeyCode::Up {
        new_fields == old_fields && new_active == (old_active + META_ROWS - 1) % (
        META_ROWS as int)
    } else if old_active < 5 && (code is Char || code == KeyCode::Backspace || code
        == KeyCode::Left || code == KeyCode::Right) {
        let typed_ok = match code {
            KeyCode::Char(c) => old_active != META_YEAR || ('0' <= c && c <= '9'),
            _ => true,
        };
        &&& new_active == old_active
        &&& forall|i: int| 0 <= i < 5 && i != old_active ==> new_fields@[i] == old_fields@[i]
        &&& if typed_ok {
            text_key_rel(old_fields@[old_active], new_fields@[old_active], code)
        } else {
            new_fields@[old_active] == old_fields@[old_active]
        }
    } else {
        new_fields == old_fields && new_active == old_active
    }
}

fn handle_edit_metadata_key(
    code: KeyCode,
    track_id: u64,
    fields: &mut [TextInput; 5],
    active_field: &mut usize,
    original_name: &str,
) -> (r: ModalOutcome)
    requires
        fields_wf(*old(fields)),
        fields_room(*old(fields)),
        *old(active_field) < META_ROWS,
    ensures
        fields_wf(*final(fields)),
        *final(active_field) < META_ROWS,
        metadata_key_rel(
            *old(fields),
            *old(active_field) as int,
            *final(fields),
            *final(active_field) as int,
            code,
        ),
        (code == KeyCode::Esc || code == KeyCode::Enter) ==> is_metadata_commit(
            r,
            track_id,
            *old(fields),
            original_name@,
            code == KeyCode::Enter && *old(active_field) == 5,
        ),
        !(code == KeyCode::Esc || code == KeyCode::Enter) ==> r is Consumed,
{
    match code {
        KeyCode::Esc | KeyCode::Enter => {
            let typed = trim_chars(&chars_of(fields[0].value.as_str()));
            let name = if typed.len() == 0 {
                original_name.to_owned()
            } else {
                string_of(&typed)
            };
            let artist = nonempty_opt(fields[1].value.as_str());
            let album = nonempty_opt(fields[2].value.as_str());
            let year = parse_u32(&trim_chars(&chars_of(fields[META_YEAR].value.as_str())));
            let genre = nonempty_opt(fields[4].value.as_str());
            if code == KeyCode::Enter && *active_field == 5 {
                ModalOutcome::Confirm(
                    ModalConfirm::SaveMetadataAndEditLyrics {
                        track_id,
                        name,
                        artist,
                        album,
                        year,
                        genre,
                    },
                )
            } else {
                ModalOutcome::Confirm(
                    ModalConfirm::SaveMetadata { track_id, name, artist, album, year, genre },
                )
            }
        },
        KeyCode::Tab | KeyCode::Down => {
            *active_field = (*active_field + 1) % META_ROWS;
            ModalOutcome::Consumed
        },
        KeyCode::BackTab | KeyCode::Up => {
            *active_field = (*active_field + META_ROWS - 1) % META_ROWS;
            ModalOutcome::Consumed
        },
        KeyCode::Char(c) => {
            let i = *active_field;
            if i < 5 && (i != META_YEAR || ('0' <= c && c <= '9')) {
                let mut f = TextInput { value: fields[i].value.clone(), cursor: fields[i].cursor };
                f.push(c);
                fields[i] = f;
            }
            ModalOutcome::Consumed
        },
        KeyCode::Backspace => {
            let i = *active_field;
            if i < 5 {
                let mut f = TextInput { value: fields[i].value.clone(), cursor: fields[i].cursor };
                f.backspace();
                fields[i] = f;
            }
            ModalOutcome::Consumed
        },
        KeyCode::Left => {
            let i = *active_field;
            if i < 5 {
                let mut f = TextInput { value: fields[i].value.clone(), cursor: fields[i].cursor };
                f.move_left();
                fields[i] = f;
            }
            ModalOutcome::Consumed
        },
        KeyCode::Right => {
            let i = *active_field;
            if i < 5 {
                let mut f = TextInput { value: fields[i].value.clone(), cursor: fields[i].cursor };
                f.move_right();
                fields[i] = f;
            }
            ModalOutcome::Consumed
        },
        _ => ModalOutcome::Consumed,
    }
}

// -- Lyrics editor ----------------------------------------------------------

/// Room to join any two lines of `t` and still type a character.
pub open spec fn area_room(t: TextArea) -> bool {
    forall|i: int, j: int|
        0 <= i < t.lines@.len() && 0 <= j < t.lines@.len() ==> #[trigger] byte_len(t.text()[i])
            + #[trigger] byte_len(t.text()[j]) + 4 <= usize::MAX
}

/// The editor after `code`, each key doing what its editing method does.
pub open spec fn lyrics_key_rel(pre: TextArea, post: TextArea, code: KeyCode) -> bool {
    match code {
        KeyCode::Enter => newline_rel(pre, post),
        KeyCode::Backspace => delete_char_rel(pre, post),
        KeyCode::Delete => delete_next_rel(pre, post),
        KeyCode::Up => up_rel(pre, post),
        KeyCode::Down => down_rel(pre, post),
        KeyCode::Left => area_left_rel(pre, post),
        KeyCode::Right => area_right_rel(pre, post),
        KeyCode::Home => home_rel(pre, post),
        KeyCode::End => end_rel(pre, post),
        KeyCode::Char(c) => insert_char_rel(pre, post, c),
        _ => post == pre,
    }
}

/// `r` saves the text of `t` as the lyrics of `track_id`, or clears them
/// when the text is blank.
pub open spec fn is_lyrics_save(r: ModalOutcome, track_id: u64, t: TextArea) -> bool {
    let s = join_lines(t.text());
    r matches ModalOutcome::Confirm(ModalConfirm::SaveLyrics { track_id: id, lyrics }) && id
        == track_id && match lyrics {
        Some(l) => l@ == s && trim(s).len() > 0,
        None => trim(s).len() == 0,
    }
}

fn handle_edit_lyrics_key(code: KeyCode, track_id: u64, textarea: &mut TextArea) -> (r:
    ModalOutcome)
    requires
        old(textarea).wf(),
        area_room(*old(textarea)),
    ensures
        final(textarea).wf(),
        lyrics_key_rel(*old(textarea), *final(textarea), code),
        code == KeyCode::Esc ==> is_lyrics_save(r, track_id, *old(textarea)),
        code != KeyCode::Esc ==> r is Consumed,
{
    let ghost row = textarea.cursor_row as int;
    proof {
        assert(textarea.text()[row] == textarea.cur_line());
        assert(byte_len(textarea.text()[row]) + byte_len(textarea.text()[row]) + 4 <= usize::MAX);
        if row > 0 {
            assert(byte_len(textarea.text()[row - 1]) + byte_len(textarea.text()[row]) + 4
                <= usize::MAX);
        }
        if row + 1 < textarea.lines@.len() {
            assert(byte_len(textarea.text()[row]) + byte_len(textarea.text()[row + 1]) + 4
                <= usize::MAX);
        }
    }
    match code {
        KeyCode::Esc => {
            let s = textarea.as_string();
            let t = trim_chars(&chars_of(s.as_str()));
            let lyrics = if t.len() == 0 {
                None
            } else {
                Some(s)
            };
            return ModalOutcome::Confirm(ModalConfirm::SaveLyrics { track_id, lyrics });
        },
        KeyCode::Enter => textarea.insert_newline(),
        KeyCode::Backspace => textarea.delete_char(),
        KeyCode::Delete => textarea.delete_next_char(),
        KeyCode::Up => textarea.move_up(),
        KeyCode::Down => textarea.move_down(),
        KeyCode::Left => textarea.move_left(),
        KeyCode::Right => textarea.move_right(),
        KeyCode::Home => textarea.move_line_start(),
        KeyCode::End => textarea.move_line_end(),
        KeyCode::Char(c) => textarea.insert_char(c),
        _ => {},
    }
    ModalOutcome::Consumed
}

// -- Playlist picker ----------------------------------------------------------

/// The picker's answer to a key that is not list navigation: Enter adds the
/// track to the playlist under the cursor (or closes when there is none),
/// Esc and `q` close.
pub open spec fn picker_outcome(
    code: KeyCode,
    choices: Seq<(u64, String)>,
    cursor: int,
    track_id: u64,
    r: ModalOutcome,
) -> bool {
    if code == KeyCode::Enter {
        if 0 <= cursor < choices.len() {
            r == ModalOutcome::Confirm(
                ModalConfirm::AddToPlaylist { track_id, playlist_id: choices[cursor].0 },
            )
        } else {
            r is Dismissed
        }
    } else if code == KeyCode::Esc || code == KeyCode::Char('q') {
        r is Dismissed
    } else {
        r is Consumed
    }
}

fn handle_add_to_playlist_key(
    code: KeyCode,
    choices: &Vec<(u64, String)>,
    cursor: &mut usize,
    track_id: u64,
) -> (r: ModalOutcome)
    requires
        *old(cursor) + PAGE <= usize::MAX,
    ensures
        match list_move_spec(code, *old(cursor) as int, choices@.len() as int) {
            Some(t) => *final(cursor) == t && r is Consumed,
            None => *final(cursor) == *old(cursor) && picker_outcome(
                code,
                choices@,
                *old(cursor) as int,
                track_id,
                r,
            ),
        },
{
    match list_move(code, *cursor, choices.len()) {
        Some(n) => {
            *cursor = n;
            ModalOutcome::Consumed
        },
        None => match code {
            KeyCode::Enter => {
                if *cursor < choices.len() {
                    let playlist_id = choices[*cursor].0;
                    ModalOutcome::Confirm(ModalConfirm::AddToPlaylist { track_id, playlist_id })
                } else {
                    ModalOutcome::Dismissed
                }
            },
            KeyCode::Esc | KeyCode::Char('q') => ModalOutcome::Dismissed,
            _ => ModalOutcome::Consumed,
        },
    }
}

// -- Confirmation dialogs -----------------------------------------------------------

/// Uniform yes/no decision shared by every confirmation dialog.
enum Confirm {
    Yes,
    No,
    Ignore,
}

/// `y`, `Y` or Enter.
pub open spec fn is_yes(code: KeyCode) -> bool {
    code == KeyCode::Char('y') || code == KeyCode::Char('Y') || code == KeyCode::Enter
}

/// `n`, `N`, `q` or Esc.
pub open spec fn is_no(code: KeyCode) -> bool {
    code == KeyCode::Char('n') || code == KeyCode::Char('N') || code == KeyCode::Char('q')
        || code == KeyCode::Esc
}

fn confirm_key(code: KeyCode) -> (r: Confirm)
    ensures
        r is Yes <==> is_yes(code),
        r is No <==> is_no(code),
{
    match code {
        KeyCode::Char('y') | KeyCode::Char('Y') | KeyCode::Enter => Confirm::Yes,
        KeyCode::Char('n') | KeyCode::Char('N') | KeyCode::Char('q') | KeyCode::Esc => Confirm::No,
        _ => Confirm::Ignore,
    }
}

/// A confirmation dialog's answer: `yes` on a yes key, closed on a no key,
/// nothing otherwise.
pub open spec fn confirm_outcome(code: KeyCode, yes: ModalConfirm, r: ModalOutcome) -> bool {
    if is_yes(code) {
        r == ModalOutcome::Confirm(yes)
    } else if is_no(code) {
        r is Dismissed
    } else {
        r is Consumed
    }
}

/// A yes/no question: `y`, `Y` and Enter answer yes, `n`, `N`, `q` and Esc
/// close it, and every other key is taken without an answer.
pub proof fn lemma_confirm_keys(code: KeyCode, yes: ModalConfirm, r: ModalOutcome)
    requires
        confirm_outcome(code, yes, r),
    ensures
        code == KeyCode::Char('y') || code == KeyCode::Char('Y') || code == KeyCode::Enter ==> r
            == ModalOutcome::Confirm(yes),
        code == KeyCode::Char('n') || code == KeyCode::Char('N') || code == KeyCode::Char('q')
            || code == KeyCode::Esc ==> r is Dismissed,
        !(code == KeyCode::Char('y') || code == KeyCode::Char('Y') || code == KeyCode::Enter
            || code == KeyCode::Char('n') || code == KeyCode::Char('N') || code == KeyCode::Char('q')
            || code == KeyCode::Esc) ==> r is Consumed,
{
}

// -- Whole dialogs ------------------------------------------------------------------

/// What the menu entry under `cursor` opens.
pub open spec fn menu_choice(cursor: int) -> ModalConfirm {
    if cursor == 0 {
        ModalConfirm::OpenSettings
    } else if cursor == 1 {
        ModalConfirm::OpenAbout
    } else {
        ModalConfirm::Quit
    }
}

/// The settings dialog's answer to `code` in state `s`: adjusting the color
/// mode, theme or transparency previews the result, closing saves, anything
/// else is just taken.
pub open spec fn settings_outcome(code: KeyCode, s: SettingsState, r: ModalOutcome) -> bool {
    if is_adjust(code) && s.cursor >= SET_COLOR_MODE {
        is_preview_of(r, settings_step(code, s))
    } else if is_close(code) {
        is_save_of(r, s)
    } else {
        r is Consumed
    }
}

/// The rename dialog's answer: Enter and Esc both write a non-blank trimmed
/// name; on a blank one Enter is ignored and Esc closes.
pub open spec fn rename_outcome(code: KeyCode, id: u64, input: TextInput, r: ModalOutcome) -> bool {
    let name = trim(input.value@);
    if code == KeyCode::Enter || code == KeyCode::Esc {
        if name.len() > 0 {
            r matches ModalOutcome::Confirm(ModalConfirm::RenamePlaylist { id: i, new_name }) && i
                == id && new_name@ == name
        } else if code == KeyCode::Enter {
            r is Consumed
        } else {
            r is Dismissed
        }
    } else {
        r is Consumed
    }
}

/// The new-playlist dialog's answer: Enter creates a playlist named by the
/// non-blank trimmed text (and is ignored on a blank one), Esc cancels.
pub open spec fn create_outcome(
    code: KeyCode,
    input: TextInput,
    add_track: Option<u64>,
    r: ModalOutcome,
) -> bool {
    let name = trim(input.value@);
    if code == KeyCode::Enter {
        if name.len() > 0 {
            r matches ModalOutcome::Confirm(ModalConfirm::NewPlaylist { name: n, add_track: a })
                && n@ == name && a == add_track
        } else {
            r is Consumed
        }
    } else if code == KeyCode::Esc {
        r is Dismissed
    } else {
        r is Consumed
    }
}

/// The metadata editor's answer: Esc and Enter commit, every other key is
/// taken.
pub open spec fn metadata_outcome(
    code: KeyCode,
    track_id: u64,
    fields: [TextInput; 5],
    active_field: int,
    original_name: Seq<char>,
    r: ModalOutcome,
) -> bool {
    if code == KeyCode::Esc || code == KeyCode::Enter {
        is_metadata_commit(
            r,
            track_id,
            fields,
            original_name,
            code == KeyCode::Enter && active_field == 5,
        )
    } else {
        r is Consumed
    }
}

/// `post` and `r` are the dialog `pre` after `code`.
pub open spec fn modal_key_rel(pre: Modal, post: Modal, code: KeyCode, r: ModalOutcome) -> bool {
    match pre {
        Modal::Notify { .. } => post == pre && r is Dismissed,
        Modal::Help => post == pre && r is Dismissed,
        Modal::About => post == pre && r is Dismissed,
        Modal::ConfirmQuit => post == pre && confirm_outcome(code, ModalConfirm::Quit, r),
        Modal::ShuffleView { .. } => post == pre && confirm_outcome(
            code,
            ModalConfirm::ShuffleView,
            r,
        ),
        Modal::ConfirmRemove { target, .. } => post == pre && confirm_outcome(
            code,
            ModalConfirm::Remove(target),
            r,
        ),
        Modal::Menu { cursor } => match list_move_spec(code, cursor as int, MENU_ENTRIES as int) {
            Some(t) => post == Modal::Menu { cursor: t as usize } && r is Consumed,
            None => post == pre && if code == KeyCode::Enter {
                r == ModalOutcome::Confirm(menu_choice(cursor as int))
            } else if code == KeyCode::Esc || code == KeyCode::Char('q') {
                r is Dismissed
            } else {
                r is Consumed
            },
        },
        Modal::Settings(s) => post == Modal::Settings(settings_step(code, s)) && settings_outcome(
            code,
            s,
            r,
        ),
        Modal::EditPlaylist { id, input } => post matches Modal::EditPlaylist {
            id: id2,
            input: input2,
        } && id2 == id && text_key_rel(input, input2, code) && rename_outcome(code, id, input, r),
        Modal::NewPlaylist { input, add_track } => post matches Modal::NewPlaylist {
            input: input2,
            add_track: a2,
        } && a2 == add_track && text_key_rel(input, input2, code) && create_outcome(
            code,
            input,
            add_track,
            r,
        ),
        Modal::AddToPlaylist { track_id, track_name, choices, cursor } => post matches Modal::AddToPlaylist {
            track_id: t2,
            track_name: n2,
            choices: c2,
            cursor: k2,
        } && t2 == track_id && n2 == track_name && c2 == choices && match list_move_spec(
            code,
            cursor as int,
            choices@.len() as int,
        ) {
            Some(t) => k2 == t && r is Consumed,
            None => k2 == cursor && picker_outcome(code, choices@, cursor as int, track_id, r),
        },
        Modal::EditMetadata { track_id, fields, active_field, original_name } => post matches Modal::EditMetadata {
            track_id: t2,
            fields: f2,
            active_field: a2,
            original_name: o2,
        } && t2 == track_id && o2 == original_name && metadata_key_rel(
            fields,
            active_field as int,
            f2,
            a2 as int,
            code,
        ) && metadata_outcome(code, track_id, fields, active_field as int, original_name@, r),
        Modal::EditLyrics { track_id, textarea } => post matches Modal::EditLyrics {
            track_id: t2,
            textarea: a2,
        } && t2 == track_id && lyrics_key_rel(textarea, a2, code) && (if code == KeyCode::Esc {
            is_lyrics_save(r, track_id, textarea)
        } else {
            r is Consumed
        }),
    }
}

impl Modal {
    /// Every cursor of the dialog is where the dialog's keys can leave it.
    pub open spec fn wf(&self) -> bool {
        match *self {
            Modal::EditPlaylist { input, .. } => input.wf(),
            Modal::NewPlaylist { input, .. } => input.wf(),
            Modal::AddToPlaylist { choices, cursor, .. } => cursor < choices@.len() || cursor == 0,
            Modal::Menu { cursor } => cursor < MENU_ENTRIES,
            Modal::Settings(s) => settings_wf(s),
            Modal::EditMetadata { fields, active_field, .. } => fields_wf(fields) && active_field
                < META_ROWS,
            Modal::EditLyrics { textarea, .. } => textarea.wf(),
            _ => true,
        }
    }

    /// Room for the key `code`: it takes no text or counter past its
    /// machine limit.
    pub open spec fn room(&self, code: KeyCode) -> bool {
        match *self {
            Modal::EditPlaylist { input, .. } => has_room(input.value@),
            Modal::NewPlaylist { input, .. } => has_room(input.value@),
            Modal::AddToPlaylist { cursor, .. } => cursor + PAGE <= usize::MAX,
            Modal::Settings(s) => settings_room(s, code),
            Modal::EditMetadata { fields, .. } => fields_room(fields),
            Modal::EditLyrics { textarea, .. } => area_room(textarea),
            _ => true,
        }
    }

    /// Answers a key press in this dialog, editing its state in place.
    pub fn handle_key(&mut self, code: KeyCode, _modifiers: KeyModifiers) -> (r: ModalOutcome)
        requires
            old(self).wf(),
            old(self).room(code),
        ensures
            final(self).wf(),
            modal_key_rel(*old(self), *final(self), code, r),
    {
        match self {
            Modal::Notify { .. } | Modal::Help | Modal::About => ModalOutcome::Dismissed,
            Modal::ConfirmQuit => match confirm_key(code) {
                Confirm::Yes => ModalOutcome::Confirm(ModalConfirm::Quit),
                Confirm::No => ModalOutcome::Dismissed,
                Confirm::Ignore => ModalOutcome::Consumed,
            },
            Modal::Menu { cursor } => match list_move(code, *cursor, MENU_ENTRIES) {
                Some(n) => {
                    *cursor = n;
                    ModalOutcome::Consumed
                },
                None => match code {
                    KeyCode::Enter => {
                        if *cursor == 0 {
                            ModalOutcome::Confirm(ModalConfirm::OpenSettings)
                        } else if *cursor == 1 {
                            ModalOutcome::Confirm(ModalConfirm::OpenAbout)
                        } else {
                            ModalOutcome::Confirm(ModalConfirm::Quit)
                        }
                    },
                    KeyCode::Esc | KeyCode::Char('q') => ModalOutcome::Dismissed,
                    _ => ModalOutcome::Consumed,
                },
            },
            Modal::ShuffleView { .. } => match confirm_key(code) {
                Confirm::Yes => ModalOutcome::Confirm(ModalConfirm::ShuffleView),
                Confirm::No => ModalOutcome::Dismissed,
                Confirm::Ignore => ModalOutcome::Consumed,
            },
            Modal::Settings(state) => handle_settings_key(code, state),
            Modal::ConfirmRemove { target, .. } => match confirm_key(code) {
                Confirm::Yes => ModalOutcome::Confirm(ModalConfirm::Remove(*target)),
                Confirm::No => ModalOutcome::Dismissed,
                Confirm::Ignore => ModalOutcome::Consumed,
            },
            // Editing existing data, so Enter and Esc both write the change;
            // a blank name keeps the original (nothing is lost).
            Modal::EditPlaylist { id, input } => match handle_text_key(input, code) {
                TextInputResult::Submitted(name) => ModalOutcome::Confirm(
                    ModalConfirm::RenamePlaylist { id: *id, new_name: name },
                ),
                TextInputResult::Dismissed => {
                    let name = trim_chars(&chars_of(input.value.as_str()));
                    if name.len() == 0 {
                        ModalOutcome::Dismissed
                    } else {
                        ModalOutcome::Confirm(
                            ModalConfirm::RenamePlaylist { id: *id, new_name: string_of(&name) },
                        )
                    }
                },
                TextInputResult::Consumed => ModalOutcome::Consumed,
            },
            Modal::NewPlaylist { input, add_track } => match handle_text_key(input, code) {
                TextInputResult::Submitted(name) => ModalOutcome::Confirm(
                    ModalConfirm::NewPlaylist { name, add_track: *add_track },
                ),
                TextInputResult::Dismissed => ModalOutcome::Dismissed,
                TextInputResult::Consumed => ModalOutcome::Consumed,
            },
            Modal::AddToPlaylist { choices, cursor, track_id, .. } => handle_add_to_playlist_key(
                code,
                choices,
                cursor,
                *track_id,
            ),
            Modal::EditMetadata { track_id, fields, active_field, original_name } =>
                handle_edit_metadata_key(
                code,
                *track_id,
                fields,
                active_field,
                original_name.as_str(),
            ),
            Modal::EditLyrics { track_id, textarea } => handle_edit_lyrics_key(
                code,
                *track_id,
                textarea,
            ),
        }
    }
}

// -- Sizes --------------------------------------------------------------------------

/// Columns of inset between a modal's border and its content, on each side.
pub const MODAL_PAD_X: u16 = 2;

/// Rows of inset between a modal's border and its content, top and bottom.
pub const MODAL_PAD_Y: u16 = 1;

/// Rows a modal spends on its border plus the inset.
pub const MODAL_CHROME_H: u16 = 2 + 2 * MODAL_PAD_Y;

/// Usable content width inside a modal of total width `w`.
pub fn modal_inner_width(w: u16) -> (r: usize)
    ensures
        r == if w >= 2 + 2 * MODAL_PAD_X {
            w - (2 + 2 * MODAL_PAD_X)
        } else {
            0
        },
{
    let chrome: u16 = 2 + 2 * MODAL_PAD_X;
    if w >= chrome {
        (w - chrome) as usize
    } else {
        0
    }
}

// -- Dialog hint footer -------------------------------------------------------------

/// One key hint in a dialog footer.
#[derive(Clone, Copy)]
pub struct Hint<'a> {
    pub key: &'a str,
    pub action: &'a str,
    /// Rendered in the danger color: this key destroys something.
    pub danger: bool,
}

/// An ordinary hint: press `key` to `action`.
pub fn hint<'a>(key: &'a str, action: &'a str) -> (r: Hint<'a>)
    ensures
        r.key == key,
        r.action == action,
        !r.danger,
{
    Hint { key, action, danger: false }
}

/// A hint whose key destroys something.
pub fn danger_hint<'a>(key: &'a str, action: &'a str) -> (r: Hint<'a>)
    ensures
        r.key == key,
        r.action == action,
        r.danger,
{
    Hint { key, action, danger: true }
}

/// Widths of the `[key] action` pairs of `hints`.
pub open spec fn pair_widths(hints: Seq<Hint>) -> Seq<nat> {
    Seq::new(hints.len(), |i: int| hints[i].key@.len() + hints[i].action@.len() + 3)
}

/// Rows used and cells used on the last row after laying out pairs of widths
/// `pairs` left to right, `sep` cells between neighbours, starting a new row
/// whenever the next pair and its separator would pass `width`.
pub open spec fn hint_wrap(pairs: Seq<nat>, width: nat, sep: nat) -> (nat, nat)
    decreases pairs.len(),
{
    if pairs.len() == 0 {
        (0, 0)
    } else {
        let (rows, used) = hint_wrap(pairs.drop_last(), width, sep);
        let p = pairs.last();
        if rows == 0 {
            (1, p)
        } else if used + sep + p > width {
            (rows + 1, p)
        } else {
            (rows, used + sep + p)
        }
    }
}

proof fn lemma_hint_wrap_bound(pairs: Seq<nat>, width: nat, sep: nat)
    ensures
        hint_wrap(pairs, width, sep).0 <= pairs.len(),
        pairs.len() > 0 ==> hint_wrap(pairs, width, sep).0 >= 1,
    decreases pairs.len(),
{
    if pairs.len() > 0 {
        lemma_hint_wrap_bound(pairs.drop_last(), width, sep);
    }
}

/// Rows the hint footer takes at `width`, with separators `sep_w` cells
/// wide.  Wraps at whole pairs, never mid-pair.
pub fn hint_rows(hints: &[Hint], width: usize, sep_w: usize) -> (r: usize)
    ensures
        r == hint_wrap(pair_widths(hints@), width as nat, sep_w as nat).0,
{
    let ghost pw = pair_widths(hints@);
    let mut rows: usize = 0;
    let mut used: u128 = 0;
    let n = hints.len();
    for i in 0..n
        invariant
            n == hints@.len(),
            pw == pair_widths(hints@),
            (rows as nat, used as nat) == hint_wrap(pw.take(i as int), width as nat, sep_w as nat),
            rows <= i,
            used <= 2 * (usize::MAX as u128) + 3,
    {
        proof {
            assert(pw.take(i + 1).drop_last() =~= pw.take(i as int));
            assert(pw.take(i + 1).last() == pw[i as int]);
            lemma_hint_wrap_bound(pw.take(i as int), width as nat, sep_w as nat);
        }
        let h = hints[i];
        let k = chars_of(h.key).len();
        let a = chars_of(h.action).len();
        let p: u128 = k as u128 + a as u128 + 3;
        if rows == 0 {
            rows = 1;
            used = p;
        } else if used + sep_w as u128 + p > width as u128 {
            rows = rows + 1;
            used = p;
        } else {
            used = used + sep_w as u128 + p;
        }
    }
    proof {
        assert(pw.take(n as int) =~= pw);
    }
    rows
}

/// Rows the hint footer takes at `width`, saturated to a `u16`.
pub fn hint_height(hints: &[Hint], width: usize, sep_w: usize) -> (r: u16)
    ensures
        r == if hint_wrap(pair_widths(hints@), width as nat, sep_w as nat).0 <= u16::MAX {
            hint_wrap(pair_widths(hints@), width as nat, sep_w as nat).0
        } else {
            u16::MAX as nat
        },
{
    usize_to_u16_saturating(hint_rows(hints, width, sep_w))
}

// -- Settings footnotes ---------------------------------------------------------------

/// The footnote shown under the settings rows for the row at `cursor`.
pub open spec fn row_description_spec(cursor: int, truecolor: bool) -> Seq<char> {
    if cursor == SET_VOLUME {
        "Volume applied each time audium starts."@
    } else if cursor == SET_SEEK {
        "How far the seek keys jump, in seconds."@
    } else if cursor == SET_COLOR_MODE && truecolor {
        "Auto follows what your terminal reports. Switch to 16-color if the colors look wrong."@
    } else if cursor == SET_COLOR_MODE {
        "Auto follows what your terminal reports. Switch to Truecolor only if it does support it."@
    } else if cursor == SET_THEME && truecolor {
        "Color scheme for the interface."@
    } else if cursor == SET_THEME {
        "Console themes track your terminal's own palette. Pick the one matching its background."@
    } else if cursor == SET_TRANSPARENCY && truecolor {
        "Shows the terminal background through the UI. Best with a transparent or blurred terminal."@
    } else {
        "Console themes already leave the background untouched, so there is nothing to blend."@
    }
}

/// One-line description of a settings row, shown in the footnote when
/// selected.
pub fn settings_row_description(cursor: usize, truecolor: bool) -> (r: &'static str)
    ensures
        r@ == row_description_spec(cursor as int, truecolor),
{
    if cursor == SET_VOLUME {
        "Volume applied each time audium starts."
    } else if cursor == SET_SEEK {
        "How far the seek keys jump, in seconds."
    } else if cursor == SET_COLOR_MODE && truecolor {
        "Auto follows what your terminal reports. Switch to 16-color if the colors look wrong."
    } else if cursor == SET_COLOR_MODE {
        "Auto follows what your terminal reports. Switch to Truecolor only if it does support it."
    } else if cursor == SET_THEME && truecolor {
        "Color scheme for the interface."
    } else if cursor == SET_THEME {
        "Console themes track your terminal's own palette. Pick the one matching its background."
    } else if cursor == SET_TRANSPARENCY && truecolor {
        "Shows the terminal background through the UI. Best with a transparent or blurred terminal."
    } else {
        "Console themes already leave the background untouched, so there is nothing to blend."
    }
}

// -- Room checks ----------------------------------------------------------------

/// Whether a field holding `s` has room for one more character.
fn text_has_room(s: &String) -> (r: bool)
    ensures
        r == has_room(s@),
{
    string_len(s) <= usize::MAX - 4
}

/// Whether every line of `t` can take the longest other line and a
/// character more.
fn area_has_room(t: &TextArea) -> (r: bool)
    ensures
        r == area_room(*t),
{
    let mut longest: usize = 0;
    let mut i: usize = 0;
    while i < t.lines.len()
        invariant
            i <= t.lines@.len(),
            forall|k: int| 0 <= k < i ==> byte_len(#[trigger] t.text()[k]) <= longest,
            i == 0 ==> longest == 0,
            i > 0 ==> exists|k: int| 0 <= k < i && byte_len(#[trigger] t.text()[k]) == longest,
        decreases t.lines@.len() - i,
    {
        let n = string_len(&t.lines[i]);
        proof {
            assert(t.text()[i as int] == t.lines@[i as int]@);
        }
        if n > longest {
            longest = n;
        }
        i = i + 1;
    }
    if t.lines.len() == 0 {
        return true;
    }
    let ok = longest <= (usize::MAX - 4) / 2;
    proof {
        let k = choose|k: int| 0 <= k < t.lines@.len() && byte_len(#[trigger] t.text()[k]) == longest;
        if !ok {
            assert(byte_len(t.text()[k]) + byte_len(t.text()[k]) + 4 > usize::MAX);
        }
    }
    ok
}

impl Modal {
    /// Whether the dialog has room for the key `code`.
    pub fn has_room(&self, code: KeyCode) -> (r: bool)
        ensures
            r == self.room(code),
    {
        match self {
            Modal::EditPlaylist { input, .. } => text_has_room(&input.value),
            Modal::NewPlaylist { input, .. } => text_has_room(&input.value),
            Modal::AddToPlaylist { cursor, .. } => *cursor <= usize::MAX - PAGE,
            Modal::Settings(s) => {
                let raise = match code {
                    KeyCode::Right | KeyCode::Char('l') => true,
                    _ => false,
                };
                !(raise && s.cursor == SET_VOLUME && s.volume_pct == u32::MAX) && !(raise && s.cursor
                    == SET_SEEK && s.seek_secs == u64::MAX)
            },
            Modal::EditMetadata { fields, .. } => {
                let mut ok = true;
                let mut i: usize = 0;
                while i < 5
                    invariant
                        i <= 5,
                        ok == forall|k: int| 0 <= k < i ==> has_room(#[trigger] fields@[k].value@),
                    decreases 5 - i,
                {
                    if !text_has_room(&fields[i].value) {
                        ok = false;
                    }
                    i = i + 1;
                }
                ok
            },
            Modal::EditLyrics { textarea, .. } => area_has_room(textarea),
            _ => true,
        }
    }
}

// -- Laws of the editors and the settings dialog -----------------------------------

/// The cursor position behind a boundary: the character position `pos`
/// spans exactly `b` bytes.
proof fn lemma_pos_bytes(v: Seq<char>, b: int)
    requires
        is_boundary(v, b),
    ensures
        0 <= char_index(v, b) <= v.len(),
        byte_len(v.take(char_index(v, b))) == b,
{
}

/// Typing a character and then Backspace gives the field back: the same
/// text, the cursor where it was.  (Backspace at the start changes nothing:
/// [`backspace_rel`] says so.)
pub proof fn lemma_push_backspace(a: TextInput, b: TextInput, d: TextInput, c: char)
    requires
        a.wf(),
        push_rel(a, b, c),
        backspace_rel(b, d),
    ensures
        d.value@ == a.value@,
        d.cursor == a.cursor,
{
    let k = a.pos();
    lemma_pos_bytes(a.value@, a.cursor as int);
    assert(b.cursor > 0);
    assert(b.value@.remove(k) =~= a.value@);
    assert(b.value@.take(k) =~= a.value@.take(k));
}

/// Typing a character and then Backspace in the lyrics editor gives the
/// text and the cursor back.
pub proof fn lemma_insert_delete(a: TextArea, b: TextArea, d: TextArea, c: char)
    requires
        a.wf(),
        insert_char_rel(a, b, c),
        delete_char_rel(b, d),
    ensures
        d.text() == a.text(),
        d.cursor_row == a.cursor_row,
        d.cursor_col == a.cursor_col,
{
    let l = a.cur_line();
    let k = a.pos();
    lemma_pos_bytes(l, a.cursor_col as int);
    let l2 = l.insert(k, c);
    assert(b.text().len() == a.text().len());
    assert(b.text()[a.cursor_row as int] == l2);
    assert(b.text()[a.cursor_row as int] == b.lines@[a.cursor_row as int]@);
    assert(b.cur_line() == l2);
    assert(l2.take(k) =~= l.take(k));
    assert(l2[k] == c);
    lemma_byte_len_step(l2, k);
    lemma_char_index(l2, k + 1);
    assert(b.pos() == k + 1);
    assert(l2.remove(k) =~= l);
    assert(d.text() =~= a.text());
}

/// Enter and then Backspace in the lyrics editor join the split line back:
/// the text and the cursor are as before.
pub proof fn lemma_newline_delete(a: TextArea, b: TextArea, d: TextArea)
    requires
        a.wf(),
        newline_rel(a, b),
        delete_char_rel(b, d),
    ensures
        d.text() == a.text(),
        d.cursor_row == a.cursor_row,
        d.cursor_col == a.cursor_col,
{
    let r = a.cursor_row as int;
    let l = a.cur_line();
    let k = a.pos();
    lemma_pos_bytes(l, a.cursor_col as int);
    let t = a.text();
    let bt = b.text();
    assert(bt[r] == l.take(k));
    assert(bt[r + 1] == l.skip(k));
    assert(bt.take(r) =~= t.take(r));
    assert(bt.skip(r + 2) =~= t.skip(r + 1));
    assert(l.take(k) + l.skip(k) =~= l);
    assert(d.text() =~= t);
}

/// `s` cut at its newlines and joined again is `s`.
proof fn lemma_join_split(s: Seq<char>)
    ensures
        join_lines(split_nl(s)) == s,
        split_nl(s).len() >= 1,
        !s.contains('\r') ==> forall|i: int|
            0 <= i < split_nl(s).len() ==> !(#[trigger] split_nl(s)[i]).contains('\r'),
    decreases s.len(),
{
    if s.len() > 0 {
        let d = s.drop_last();
        lemma_join_split(d);
        let p = split_nl(d);
        assert(s =~= d.push(s.last()));
        if !s.contains('\r') {
            assert(!d.contains('\r')) by {
                if d.contains('\r') {
                    let j = choose|j: int| 0 <= j < d.len() && d[j] == '\r';
                    assert(s[j] == '\r');
                }
            }
            assert(s.last() != '\r') by {
                assert(s[s.len() - 1] == s.last());
            }
        }
        if s.last() == '\n' {
            let q = p.push(Seq::<char>::empty());
            assert(q.drop_last() =~= p);
            assert(join_lines(q) =~= s);
            if !s.contains('\r') {
                assert forall|i: int| 0 <= i < q.len() implies !(#[trigger] q[i]).contains('\r') by {
                    if i < p.len() {
                        assert(q[i] == p[i]);
                    }
                }
            }
        } else {
            let q = p.update(p.len() - 1, p.last().push(s.last()));
            if p.len() == 1 {
                assert(join_lines(q) =~= s);
            } else {
                assert(q.drop_last() =~= p.drop_last());
                assert(join_lines(q) =~= s);
            }
            if !s.contains('\r') {
                assert forall|i: int| 0 <= i < q.len() implies !(#[trigger] q[i]).contains('\r') by {
                    if i < p.len() - 1 {
                        assert(q[i] == p[i]);
                    } else {
                        let x = p.last();
                        assert(!x.contains('\r'));
                        if q[i].contains('\r') {
                            let j = choose|j: int| 0 <= j < q[i].len() && q[i][j] == '\r';
                            assert(q[i] == x.push(s.last()));
                            if j < x.len() {
                                assert(x[j] == '\r');
                            }
                        }
                    }
                }
            }
        }
    }
}

/// Opening the lyrics editor on a text and saving it gives the text back,
/// when it has no carriage returns and does not end in a newline.
pub proof fn lemma_editor_round_trip(text: Seq<char>)
    requires
        !text.contains('\r'),
        !(text.len() > 0 && text.last() == '\n'),
    ensures
        join_lines(editor_lines(text)) == text,
{
    if text.len() > 0 {
        lemma_join_split(text);
        let ls = split_nl(text);
        assert(str_lines(text) == ls);
        assert forall|i: int| 0 <= i < ls.len() implies trim_end_cr(#[trigger] ls[i]) == ls[i] by {
            if ls[i].len() > 0 {
                assert(ls[i].last() == ls[i][ls[i].len() - 1]);
            }
        }
        assert(editor_lines(text) =~= ls);
    } else {
        assert(editor_lines(text) =~= seq![Seq::<char>::empty()]);
    }
}

/// Every character of `v` is a decimal digit.
pub open spec fn all_decimal(v: Seq<char>) -> bool {
    forall|j: int| 0 <= j < v.len() ==> '0' <= #[trigger] v[j] <= '9'
}

/// The year field of the metadata editor holds only digits, whatever key
/// is pressed on it: a typed character changes it exactly when it is a
/// digit, and the other fields never change.
pub proof fn lemma_year_digits(
    pre: [TextInput; 5],
    post: [TextInput; 5],
    active: int,
    code: KeyCode,
)
    requires
        fields_wf(pre),
        metadata_key_rel(pre, META_YEAR as int, post, active, code),
        all_decimal(pre@[META_YEAR as int].value@),
    ensures
        all_decimal(post@[META_YEAR as int].value@),
        forall|i: int| 0 <= i < 5 && i != META_YEAR ==> post@[i] == pre@[i],
        code matches KeyCode::Char(c) ==> (post@[META_YEAR as int].value@ != pre@[META_YEAR as int].value@
            <==> ('0' <= c <= '9')),
{
    let y = META_YEAR as int;
    let v = pre@[y].value@;
    let w = post@[y].value@;
    assert(pre@[y].wf());
    lemma_pos_bytes(v, pre@[y].cursor as int);
    if code is Char || code == KeyCode::Backspace || code == KeyCode::Left || code == KeyCode::Right {
        match code {
            KeyCode::Char(c) => {
                if '0' <= c <= '9' {
                    let k = pre@[y].pos();
                    assert(w == v.insert(k, c));
                    assert(w.len() == v.len() + 1);
                    assert forall|j: int| 0 <= j < w.len() implies '0' <= #[trigger] w[j] <= '9' by {
                        if j < k {
                            assert(w[j] == v[j]);
                        } else if j > k {
                            assert(w[j] == v[j - 1]);
                        }
                    }
                }
            },
            KeyCode::Backspace => {
                if pre@[y].cursor > 0 {
                    let k = pre@[y].pos();
                    if k == 0 {
                        assert(v.take(0) =~= Seq::<char>::empty());
                    }
                    assert(w == v.remove(k - 1));
                    assert forall|j: int| 0 <= j < w.len() implies '0' <= #[trigger] w[j] <= '9' by {
                        if j < k - 1 {
                            assert(w[j] == v[j]);
                        } else {
                            assert(w[j] == v[j + 1]);
                        }
                    }
                }
            },
            _ => {},
        }
    }
}

/// Keys in the settings dialog never leave the cursor on a row that takes
/// no input, nor a previewed theme that does not exist; End, `G` and
/// PageDown reach the last row that takes input (transparency, only with
/// truecolor), Home, `g` and PageUp the first.
pub proof fn lemma_settings_cursor(s: SettingsState, code: KeyCode)
    requires
        settings_wf(s),
    ensures
        settings_wf(settings_step(code, s)),
        code == KeyCode::End || code == KeyCode::Char('G') || code == KeyCode::PageDown
            ==> settings_step(code, s).cursor == (if s.color_mode.truecolor_spec(s.detected_truecolor) {
            SET_TRANSPARENCY
        } else {
            SET_THEME
        }),
        code == KeyCode::Home || code == KeyCode::Char('g') || code == KeyCode::PageUp
            ==> settings_step(code, s).cursor == 0,
{
}

/// The settings dialog keeps its values in range: the volume at most 100,
/// the seek step within 1..=120 seconds, both themes existing.  Only
/// adjusting on the volume row changes the volume, by one step clamped to
/// 0..=100, and only adjusting on the seek row changes the seek step, by
/// one second clamped to 1..=120.
pub proof fn lemma_settings_values(s: SettingsState, code: KeyCode)
    requires
        s.volume_pct <= 100,
        1 <= s.seek_secs <= 120,
        theme_indices_ok(s),
    ensures
        settings_step(code, s).volume_pct <= 100,
        1 <= settings_step(code, s).seek_secs <= 120,
        theme_indices_ok(settings_step(code, s)),
        is_adjust(code) && s.cursor == SET_VOLUME ==> settings_step(code, s).volume_pct == (if is_left(
            code,
        ) {
            if s.volume_pct >= 1 {
                s.volume_pct - 1
            } else {
                0
            }
        } else if s.volume_pct + 1 <= 100 {
            s.volume_pct + 1
        } else {
            100
        }),
        is_adjust(code) && s.cursor == SET_SEEK ==> settings_step(code, s).seek_secs == (if is_left(
            code,
        ) {
            if s.seek_secs >= 2 {
                s.seek_secs - 1
            } else {
                1
            }
        } else if s.seek_secs + 1 <= 120 {
            s.seek_secs + 1
        } else {
            120
        }),
        !(is_adjust(code) && s.cursor == SET_VOLUME) ==> settings_step(code, s).volume_pct
            == s.volume_pct,
        !(is_adjust(code) && s.cursor == SET_SEEK) ==> settings_step(code, s).seek_secs
            == s.seek_secs,
{
}

} // verus!
