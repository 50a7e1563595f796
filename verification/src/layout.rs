//! Layout arithmetic and text shaping behind every panel: theme names,
//! truncation, durations, table columns, horizontal windows over long text,
//! word-wrapped heights and centred rectangles.
use vstd::prelude::*;

use crate::text::{
    char_index, char_index_of, chars_of, concat_chars, is_boundary, is_ws, is_whitespace,
    slice_chars, string_of,
};

verus! {

// -- Theme names --------------------------------------------------------------

/// Number of built-in truecolor themes.
pub const THEME_COUNT: usize = 15;

/// Number of 16-color console themes.
pub const CONSOLE_THEME_COUNT: usize = 2;

/// Names of the truecolor themes, in cycling order.
pub open spec fn theme_name_spec(i: int) -> Seq<char> {
    if i == 0 {
        "dark"@
    } else if i == 1 {
        "light"@
    } else if i == 2 {
        "nord"@
    } else if i == 3 {
        "gruvbox"@
    } else if i == 4 {
        "gruvbox_light"@
    } else if i == 5 {
        "rosepine"@
    } else if i == 6 {
        "rosepine_dawn"@
    } else if i == 7 {
        "catppuccin"@
    } else if i == 8 {
        "catppuccin_latte"@
    } else if i == 9 {
        "dracula"@
    } else if i == 10 {
        "tokyo_night"@
    } else if i == 11 {
        "solarized_dark"@
    } else if i == 12 {
        "solarized_light"@
    } else if i == 13 {
        "everforest"@
    } else {
        "kanagawa"@
    }
}

/// Names of the console themes: one for a dark background, one for a light.
pub open spec fn console_theme_name_spec(i: int) -> Seq<char> {
    if i == 0 {
        "console_dark"@
    } else {
        "console_light"@
    }
}

/// Name of truecolor theme `i`.
pub fn theme_name(i: usize) -> (r: &'static str)
    requires
        i < THEME_COUNT,
    ensures
        r@ == theme_name_spec(i as int),
{
    match i {
        0 => "dark",
        1 => "light",
        2 => "nord",
        3 => "gruvbox",
        4 => "gruvbox_light",
        5 => "rosepine",
        6 => "rosepine_dawn",
        7 => "catppuccin",
        8 => "catppuccin_latte",
        9 => "dracula",
        10 => "tokyo_night",
        11 => "solarized_dark",
        12 => "solarized_light",
        13 => "everforest",
        _ => "kanagawa",
    }
}

/// Name of console theme `i`.
pub fn console_theme_name(i: usize) -> (r: &'static str)
    requires
        i < CONSOLE_THEME_COUNT,
    ensures
        r@ == console_theme_name_spec(i as int),
{
    if i == 0 {
        "console_dark"
    } else {
        "console_light"
    }
}

// -- Numbers as text ------------------------------------------------------------

/// The ASCII digit for `d`.
pub open spec fn digit_char(d: nat) -> char {
    ((48 + d) as u8) as char
}

/// Decimal digits of `n`, without leading zeros (`"0"` for zero).
pub open spec fn decimal(n: nat) -> Seq<char>
    decreases n,
{
    if n < 10 {
        seq![digit_char(n)]
    } else {
        decimal(n / 10).push(digit_char(n % 10))
    }
}

/// `n.to_string()`, as characters.
pub fn decimal_chars(n: u64) -> (v: Vec<char>)
    ensures
        v@ == decimal(n as nat),
        v@.len() >= 1,
    decreases n,
{
    let d = (n % 10) as u8;
    let c = (48u8 + d) as char;
    if n < 10 {
        let mut v = Vec::new();
        v.push(c);
        v
    } else {
        let mut v = decimal_chars(n / 10);
        v.push(c);
        v
    }
}

/// `m:ss`, as the player bar and the settings dialog show a duration.
pub open spec fn format_duration_spec(secs: nat) -> Seq<char> {
    let s = secs % 60;
    decimal(secs / 60) + seq![':'] + if s < 10 {
        seq!['0'] + decimal(s)
    } else {
        decimal(s)
    }
}

/// Formats a duration in seconds as `m:ss`.
pub fn format_duration(secs: u64) -> (r: String)
    ensures
        r@ == format_duration_spec(secs as nat),
{
    let m = decimal_chars(secs / 60);
    let s = secs % 60;
    let mut mid = m;
    mid.push(':');
    if s < 10 {
        mid.push('0');
    }
    let sec = decimal_chars(s);
    let all = concat_chars(&mid, &sec);
    proof {
        if s < 10 {
            assert(all@ =~= decimal(secs as nat / 60) + seq![':'] + (seq!['0'] + decimal(
                s as nat,
            )));
        } else {
            assert(all@ =~= decimal(secs as nat / 60) + seq![':'] + decimal(s as nat));
        }
    }
    string_of(&all)
}

/// A duration reads as its whole minutes, a colon, and its remaining
/// seconds as exactly two digits, tens first.
pub proof fn lemma_duration_text(secs: nat)
    ensures
        ({
            let r = format_duration_spec(secs);
            let s = secs % 60;
            &&& r.len() == decimal(secs / 60).len() + 3
            &&& r.take(r.len() - 3) == decimal(secs / 60)
            &&& r[r.len() - 3] == ':'
            &&& r[r.len() - 2] == digit_char(s / 10)
            &&& r[r.len() - 1] == digit_char(s % 10)
        }),
{
    let s = secs % 60;
    let m = decimal(secs / 60);
    let r = format_duration_spec(secs);
    reveal_with_fuel(decimal, 2);
    if s < 10 {
        assert(s / 10 == 0 && s % 10 == s);
        assert(decimal(s) == seq![digit_char(s)]);
        assert(r =~= m + seq![':', digit_char(0), digit_char(s)]);
    } else {
        assert(s / 10 < 10);
        assert(decimal(s / 10) == seq![digit_char(s / 10)]);
        assert(decimal(s) == seq![digit_char(s / 10)].push(digit_char(s % 10)));
        assert(r =~= m + seq![':', digit_char(s / 10), digit_char(s % 10)]);
    }
    assert(r.take(r.len() - 3) =~= m);
}

// -- Truncation ---------------------------------------------------------------------

/// `s` cut to `max` characters, the last replaced by `~` when anything was
/// cut; empty when `max` is 0 and `s` does not fit.
pub open spec fn truncate_spec(s: Seq<char>, max: nat) -> Seq<char> {
    if s.len() <= max {
        s
    } else if max == 0 {
        Seq::empty()
    } else {
        s.take(max - 1).push('~')
    }
}

fn truncate_chars(v: &Vec<char>, max: usize) -> (r: Vec<char>)
    ensures
        r@ == truncate_spec(v@, max as nat),
        r@.len() <= max || r@ == v@,
{
    if v.len() <= max {
        return v.clone();
    }
    if max == 0 {
        return Vec::new();
    }
    let mut r = slice_chars(v, 0, max - 1);
    r.push('~');
    proof {
        assert(r@ =~= v@.take(max - 1).push('~'));
    }
    r
}

/// Truncates a string to `max` chars, appending `~` if truncated.
pub fn truncate(s: &str, max: usize) -> (r: String)
    ensures
        r@ == truncate_spec(s@, max as nat),
        r@.len() <= max || r@ == s@,
{
    let v = chars_of(s);
    let t = truncate_chars(&v, max);
    string_of(&t)
}

/// `n` spaces.
pub open spec fn spaces(n: nat) -> Seq<char> {
    Seq::new(n, |i: int| ' ')
}

fn push_spaces(v: &mut Vec<char>, n: usize)
    ensures
        final(v)@ == old(v)@ + spaces(n as nat),
{
    let ghost v0 = v@;
    for i in 0..n
        invariant
            v@ == v0 + spaces(i as nat),
    {
        v.push(' ');
        proof {
            assert(v0 + spaces(i as nat) + seq![' '] =~= v0 + spaces((i + 1) as nat));
        }
    }
}

/// `s` cut and then padded to exactly `width` characters.
pub open spec fn pad_spec(s: Seq<char>, width: nat) -> Seq<char> {
    let t = truncate_spec(s, width);
    t + spaces((width - t.len()) as nat)
}

fn pad_chars(s: &Vec<char>, width: usize) -> (r: Vec<char>)
    ensures
        r@ == pad_spec(s@, width as nat),
        r@.len() == width,
{
    let mut t = truncate_chars(s, width);
    let fill = width - t.len();
    push_spaces(&mut t, fill);
    t
}

/// Truncates to `width` and pads back out to it, so a short value still
/// occupies its whole column.
pub fn pad(s: &str, width: usize) -> (r: String)
    ensures
        r@ == pad_spec(s@, width as nat),
        r@.len() == width,
{
    let v = chars_of(s);
    let p = pad_chars(&v, width);
    string_of(&p)
}

/// A value that fits is shown whole; one that does not is cut to exactly
/// the width, keeping its first characters and marking the cut with `~` in
/// the last cell.  Padding then fills a column to exactly its width with
/// spaces after the shown text.
pub proof fn lemma_truncate_pad(s: Seq<char>, width: nat)
    ensures
        s.len() <= width ==> truncate_spec(s, width) == s,
        s.len() > width && width > 0 ==> truncate_spec(s, width).len() == width
            && truncate_spec(s, width)[width - 1] == '~' && forall|i: int|
            0 <= i < width - 1 ==> #[trigger] truncate_spec(s, width)[i] == s[i],
        s.len() > width && width == 0 ==> truncate_spec(s, width).len() == 0,
        pad_spec(s, width).len() == width,
        s.len() <= width ==> pad_spec(s, width).take(s.len() as int) == s && forall|i: int|
            s.len() <= i < width ==> #[trigger] pad_spec(s, width)[i] == ' ',
{
    if s.len() <= width {
        assert(pad_spec(s, width).take(s.len() as int) =~= s);
    }
}

// -- Horizontal windows ------------------------------------------------------------

/// First visible character of a `width`-wide window over `value` that keeps
/// the cursor (at byte `cursor`) in view.
pub open spec fn h_window_start_spec(value: Seq<char>, cursor: int, width: int) -> int {
    let len = value.len() as int;
    if width == 0 || len < width {
        0
    } else {
        let cur = char_index(value, cursor);
        let s = if cur >= width - 1 {
            cur - (width - 1)
        } else {
            0
        };
        if s < len + 1 - width {
            s
        } else {
            len + 1 - width
        }
    }
}

/// First visible character of a `width`-wide window that keeps `cursor` in
/// view.
///
/// Exposed so a multi-line editor can offset every row by the same amount:
/// scrolling only the cursor's row would slide it out of alignment with the
/// lines above and below it.
pub fn h_window_start(value: &str, cursor: usize, width: usize) -> (r: usize)
    requires
        is_boundary(value@, cursor as int),
    ensures
        r == h_window_start_spec(value@, cursor as int, width as int),
        r + width <= value@.len() + 1 || r == 0,
        width > 0 ==> r <= char_index(value@, cursor as int) < r + width,
{
    let v = chars_of(value);
    let len = v.len();
    if width == 0 || len < width {
        return 0;
    }
    let cur = char_index_of(&v, cursor);
    let s = if cur >= width - 1 {
        cur - (width - 1)
    } else {
        0
    };
    if s < len - width + 1 {
        s
    } else {
        len - width + 1
    }
}

/// A `width`-wide slice of `line` starting at `start` characters in.
pub open spec fn h_window_spec(line: Seq<char>, start: int, width: int) -> Seq<char> {
    let lo = if start < line.len() {
        start
    } else {
        line.len() as int
    };
    let hi = if lo + width < line.len() {
        lo + width
    } else {
        line.len() as int
    };
    line.subrange(lo, hi)
}

/// A `width`-wide slice of `line` starting at `start` characters in.
pub fn h_window(line: &str, start: usize, width: usize) -> (r: String)
    ensures
        r@ == h_window_spec(line@, start as int, width as int),
{
    let v = chars_of(line);
    let lo = if start < v.len() {
        start
    } else {
        v.len()
    };
    let hi = if width < v.len() - lo {
        lo + width
    } else {
        v.len()
    };
    let w = slice_chars(&v, lo, hi);
    string_of(&w)
}

// -- Table columns -------------------------------------------------------------------

/// Width of the index column.
pub const NUM_W: usize = 3;

/// Gap between columns.
pub const GAP: usize = 2;

/// Column widths for one tracklist row.
///
/// A library reads as a table, not as `artist - title` run together. Narrow
/// panels drop columns from the right rather than squeezing all three into
/// illegibility, so the title always keeps a usable width.
#[derive(Debug, Clone, Copy, PartialEq, Eq)]
pub struct Columns {
    pub title: usize,
    pub artist: usize,
    pub album: usize,
    pub time: usize,
}

/// Narrowest title column before metadata columns are dropped.
pub const MIN_TITLE: usize = 16;
/// Narrowest artist / album column.
pub const MIN_META: usize = 10;
/// Enough for `mm:ss` up to 99 minutes; longer runs simply widen the cell.
pub const TIME_W: usize = 5;

/// Column widths for a row `width` cells wide: roughly 4:3:3 with a time
/// column when everything fits with the title at its minimum, then title
/// and artist with time, then without, then the title alone.
pub open spec fn columns_spec(width: int) -> (int, int, int, int) {
    let body = if width >= (NUM_W + GAP) as int {
        width - (NUM_W + GAP)
    } else {
        0
    };
    let meta2 = ((GAP + MIN_META) * 2) as int;
    let time = (GAP + TIME_W) as int;
    let rest3 = body - time - GAP * 2;
    let meta = rest3 * 3 / 10;
    if body >= MIN_TITLE + meta2 + time && rest3 - 2 * meta >= MIN_TITLE {
        (rest3 - 2 * meta, meta, meta, TIME_W as int)
    } else if body >= MIN_TITLE + GAP + MIN_META + time {
        let rest = body - time;
        let title = rest * 3 / 5;
        (title, rest - title - GAP, 0, TIME_W as int)
    } else if body >= MIN_TITLE + GAP + MIN_META {
        let title = body * 3 / 5;
        (title, body - title - GAP, 0, 0)
    } else {
        (body, 0, 0, 0)
    }
}

impl Columns {
    /// Cells a row of these columns spans after the index column, gaps
    /// included.
    pub open spec fn span(&self) -> int {
        self.title + (if self.artist > 0 {
            GAP + self.artist
        } else {
            0
        }) + (if self.album > 0 {
            GAP + self.album
        } else {
            0
        }) + (if self.time > 0 {
            GAP + self.time
        } else {
            0
        })
    }

    /// Column widths for a panel `width` cells wide.
    pub fn for_width(width: usize) -> (r: Self)
        ensures
            (r.title as int, r.artist as int, r.album as int, r.time as int) == columns_spec(
                width as int,
            ),
            r.span() + NUM_W + GAP <= width || (r.artist == 0 && r.album == 0 && r.time == 0),
            r.artist > 0 ==> r.title >= MIN_TITLE,
    {
        let body = if width >= NUM_W + GAP {
            width - (NUM_W + GAP)
        } else {
            0
        };
        let meta2 = (GAP + MIN_META) * 2;
        let time = GAP + TIME_W;
        let rest = if body >= time + GAP * 2 {
            body - time - GAP * 2
        } else {
            0
        };
        let meta = rest / 10 * 3 + rest % 10 * 3 / 10;
        proof {
            assert(meta == rest * 3 / 10) by (nonlinear_arith)
                requires
                    meta == rest / 10 * 3 + rest % 10 * 3 / 10,
            ;
            assert(2 * meta <= rest) by (nonlinear_arith)
                requires
                    meta == rest * 3 / 10,
            ;
        }
        if body >= MIN_TITLE + meta2 + time && rest - 2 * meta >= MIN_TITLE {
            Self { title: rest - 2 * meta, artist: meta, album: meta, time: TIME_W }
        } else if body >= MIN_TITLE + GAP + MIN_META + time {
            let rest = body - time;
            let title = rest / 5 * 3 + rest % 5 * 3 / 5;
            proof {
                assert(title == rest * 3 / 5) by (nonlinear_arith)
                    requires
                        title == rest / 5 * 3 + rest % 5 * 3 / 5,
                ;
                assert(rest - title >= GAP) by (nonlinear_arith)
                    requires
                        title == rest * 3 / 5,
                        rest >= MIN_TITLE + GAP + MIN_META,
                ;
            }
            Self { title, artist: rest - title - GAP, album: 0, time: TIME_W }
        } else if body >= MIN_TITLE + GAP + MIN_META {
            let title = body / 5 * 3 + body % 5 * 3 / 5;
            proof {
                assert(title == body * 3 / 5) by (nonlinear_arith)
                    requires
                        title == body / 5 * 3 + body % 5 * 3 / 5,
                ;
                assert(body - title >= GAP) by (nonlinear_arith)
                    requires
                        title == body * 3 / 5,
                        body >= MIN_TITLE + GAP + MIN_META,
                ;
            }
            Self { title, artist: body - title - GAP, album: 0, time: 0 }
        } else {
            Self { title: body, artist: 0, album: 0, time: 0 }
        }
    }

    /// The text of each visible column, each padded to its width so the
    /// columns line up whatever the contents are: the title, then (when
    /// shown) the artist and album after a gap, then the time after a gap,
    /// right-aligned so durations line up on the colon.
    pub fn cells(&self, title: &str, artist: &str, album: &str, time: &str) -> (r: Vec<String>)
        ensures
            r@.len() == 1 + (if self.artist > 0 {
                1int
            } else {
                0
            }) + (if self.album > 0 {
                1int
            } else {
                0
            }) + (if self.time > 0 {
                1int
            } else {
                0
            }),
            r@[0]@ == pad_spec(title@, self.title as nat),
            self.artist > 0 ==> r@[1]@ == spaces(GAP as nat) + pad_spec(
                artist@,
                self.artist as nat,
            ),
            self.album > 0 ==> r@[if self.artist > 0 {
                2int
            } else {
                1
            }]@ == spaces(GAP as nat) + pad_spec(album@, self.album as nat),
            self.time > 0 ==> r@.last()@ == spaces(GAP as nat) + spaces(
                (if self.time >= time@.len() {
                    self.time - time@.len()
                } else {
                    0
                }) as nat,
            ) + time@,
    {
        let mut out: Vec<String> = Vec::new();
        let t = chars_of(title);
        out.push(string_of(&pad_chars(&t, self.title)));
        if self.artist > 0 {
            let mut cell: Vec<char> = Vec::new();
            push_spaces(&mut cell, GAP);
            let a = pad_chars(&chars_of(artist), self.artist);
            out.push(string_of(&concat_chars(&cell, &a)));
        }
        if self.album > 0 {
            let mut cell: Vec<char> = Vec::new();
            push_spaces(&mut cell, GAP);
            let a = pad_chars(&chars_of(album), self.album);
            out.push(string_of(&concat_chars(&cell, &a)));
        }
        if self.time > 0 {
            let tm = chars_of(time);
            let mut cell: Vec<char> = Vec::new();
            push_spaces(&mut cell, GAP);
            let fill = if self.time >= tm.len() {
                self.time - tm.len()
            } else {
                0
            };
            push_spaces(&mut cell, fill);
            out.push(string_of(&concat_chars(&cell, &tm)));
            proof {
                assert(Seq::<char>::empty() + spaces(GAP as nat) =~= spaces(GAP as nat));
            }
        }
        proof {
            assert(Seq::<char>::empty() + spaces(GAP as nat) =~= spaces(GAP as nat));
        }
        out
    }
}

// -- Sidebar rows ------------------------------------------------------------------

/// A row with its name on the left and its count flush right, so counts
/// line up in a column; the count is never truncated and eats into the name
/// as it grows.
pub open spec fn entry_spec(name: Seq<char>, count: nat, width: nat) -> Seq<char> {
    let c = decimal(count);
    let room = if width >= c.len() + 1 {
        width - c.len() - 1
    } else {
        0
    };
    if room == 0 {
        truncate_spec(c, width)
    } else {
        let n = truncate_spec(name, room as nat);
        let fill = if width >= n.len() + c.len() {
            width - n.len() - c.len()
        } else {
            0
        };
        n + spaces(fill as nat) + c
    }
}

/// A sidebar row: `name` then `count` flush right within `width` cells.
pub fn entry(name: &str, count: usize, width: usize) -> (r: String)
    ensures
        r@ == entry_spec(name@, count as nat, width as nat),
        r@.len() <= width,
{
    let c = decimal_chars(count as u64);
    let room = if width > c.len() {
        width - c.len() - 1
    } else {
        0
    };
    if room == 0 {
        return string_of(&truncate_chars(&c, width));
    }
    let n = truncate_chars(&chars_of(name), room);
    let fill = if width >= n.len() + c.len() {
        width - n.len() - c.len()
    } else {
        0
    };
    let mut left = n;
    push_spaces(&mut left, fill);
    let all = concat_chars(&left, &c);
    string_of(&all)
}

// -- Word wrapping --------------------------------------------------------------

/// Lengths of the whitespace-separated words of `s`, in order.
pub open spec fn word_lens(s: Seq<char>) -> Seq<nat>
    decreases s.len(),
{
    if s.len() == 0 {
        Seq::empty()
    } else {
        let w = word_lens(s.drop_last());
        if is_ws(s.last()) {
            w
        } else if s.len() == 1 || is_ws(s.drop_last().last()) {
            w.push(1)
        } else {
            w.update(w.len() - 1, w.last() + 1)
        }
    }
}

proof fn lemma_word_lens_nonempty(s: Seq<char>)
    requires
        s.len() > 0,
        !is_ws(s.last()),
    ensures
        word_lens(s).len() > 0,
    decreases s.len(),
{
    if s.len() > 1 && !is_ws(s.drop_last().last()) {
        lemma_word_lens_nonempty(s.drop_last());
    }
}

/// Rows used and cells used on the last row after greedily laying out words
/// of lengths `words` in rows `width` wide, one space between words.
pub open spec fn wrap_state(words: Seq<nat>, width: nat) -> (nat, nat)
    decreases words.len(),
{
    if words.len() == 0 {
        (1, 0)
    } else {
        let (rows, used) = wrap_state(words.drop_last(), width);
        let w = words.last();
        if used == 0 {
            (rows, w)
        } else if used + 1 + w <= width {
            (rows, used + 1 + w)
        } else {
            (rows + 1, w)
        }
    }
}

/// Rows `text` occupies once wrapped to `width`: greedy whitespace
/// wrapping, one row when `width` is 0.
pub open spec fn wrapped_height_spec(text: Seq<char>, width: nat) -> nat {
    if width == 0 {
        1
    } else {
        wrap_state(word_lens(text), width).0
    }
}

/// Lengths of the words of `v`.
fn word_lengths(v: &Vec<char>) -> (r: Vec<usize>)
    ensures
        r@.map_values(|x: usize| x as nat) == word_lens(v@),
{
    let mut r: Vec<usize> = Vec::new();
    let n = v.len();
    proof {
        assert(r@.map_values(|x: usize| x as nat) =~= word_lens(v@.take(0)));
    }
    for i in 0..n
        invariant
            n == v.len(),
            r@.map_values(|x: usize| x as nat) == word_lens(v@.take(i as int)),
            forall|j: int| 0 <= j < r@.len() ==> r@[j] <= i,
    {
        let ghost pre = v@.take(i as int);
        let ghost r0 = r@;
        proof {
            assert(v@.take(i + 1).drop_last() =~= pre);
            assert(v@.take(i + 1).last() == v@[i as int]);
            if i > 0 {
                assert(pre.last() == v@[i - 1]);
            }
        }
        if !is_whitespace(v[i]) {
            if i == 0 || is_whitespace(v[i - 1]) {
                r.push(1);
                proof {
                    assert(r@.map_values(|x: usize| x as nat) =~= word_lens(pre).push(1));
                }
            } else {
                proof {
                    lemma_word_lens_nonempty(pre);
                }
                let last = r.len() - 1;
                let l = r[last];
                r.set(last, l + 1);
                proof {
                    let w = word_lens(pre);
                    assert(r0.map_values(|x: usize| x as nat)[last as int] == w[last as int]);
                    assert(r@.map_values(|x: usize| x as nat) =~= w.update(
                        w.len() - 1,
                        w.last() + 1,
                    ));
                }
            }
        }
    }
    proof {
        assert(v@.take(n as int) =~= v@);
    }
    r
}

/// Rows `text` occupies once wrapped to `width`, so a dialog can be sized
/// from its message instead of reserving a fixed guess that clips anything
/// longer.  Greedy whitespace wrapping, matching the paragraph widget's.
pub fn wrapped_height(text: &str, width: usize) -> (r: u16)
    ensures
        r == if wrapped_height_spec(text@, width as nat) <= u16::MAX {
            wrapped_height_spec(text@, width as nat)
        } else {
            u16::MAX as nat
        },
{
    if width == 0 {
        return 1;
    }
    let v = chars_of(text);
    let words = word_lengths(&v);
    let mut rows: u128 = 1;
    let mut used: usize = 0;
    for i in 0..words.len()
        invariant
            words@.map_values(|x: usize| x as nat) == word_lens(v@),
            (rows as nat, used as nat) == wrap_state(word_lens(v@).take(i as int), width as nat),
            rows <= i + 1,
    {
        let ghost ws = word_lens(v@);
        proof {
            assert(ws.take(i + 1).drop_last() =~= ws.take(i as int));
            assert(ws.take(i + 1).last() == ws[i as int]);
            assert(words@.map_values(|x: usize| x as nat)[i as int] == words@[i as int]);
        }
        let w = words[i];
        if used == 0 {
            used = w;
        } else if used <= width && w <= width - used && 1 <= width - used - w {
            used = used + 1 + w;
        } else {
            rows = rows + 1;
            used = w;
        }
    }
    proof {
        assert(word_lens(v@).take(words.len() as int) =~= word_lens(v@));
    }
    if rows <= 65535 {
        rows as u16
    } else {
        65535
    }
}

// -- Rectangles -------------------------------------------------------------------

/// A `width` x `height` rectangle centred in the area at (`ax`, `ay`) of size
/// `aw` x `ah`, clipped to it: `(x, y, width, height)`.
pub fn centered_rect(width: u16, height: u16, ax: u16, ay: u16, aw: u16, ah: u16) -> (r: (
    u16,
    u16,
    u16,
    u16,
))
    requires
        ax + aw <= u16::MAX,
        ay + ah <= u16::MAX,
    ensures
        r.0 == ax + (if aw >= width {
            aw - width
        } else {
            0
        }) / 2,
        r.1 == ay + (if ah >= height {
            ah - height
        } else {
            0
        }) / 2,
        r.2 == if width <= aw {
            width
        } else {
            aw
        },
        r.3 == if height <= ah {
            height
        } else {
            ah
        },
        r.0 + r.2 <= ax + aw,
        r.1 + r.3 <= ay + ah,
{
    let x = ax + (if aw >= width {
        aw - width
    } else {
        0
    }) / 2;
    let y = ay + (if ah >= height {
        ah - height
    } else {
        0
    }) / 2;
    let w = if width <= aw {
        width
    } else {
        aw
    };
    let h = if height <= ah {
        height
    } else {
        ah
    };
    (x, y, w, h)
}

// -- Player bar pieces ---------------------------------------------------------------

/// Frame of the playing-row equaliser: one of four, advancing every 250 ms.
pub fn eq_frame(elapsed_ms: u64) -> (r: usize)
    ensures
        r == (elapsed_ms / 250) % 4,
        r < 4,
{
    ((elapsed_ms / 250) % 4) as usize
}

/// Filled cells of the settings volume bar (ten cells, one per 10%).
pub fn volume_bar_cells(pct: u32) -> (r: (usize, usize))
    ensures
        r.0 == pct / 10,
        r.1 == if pct / 10 <= 10 {
            10 - pct / 10
        } else {
            0
        },
{
    let filled = (pct / 10) as usize;
    let empty = if filled <= 10 {
        10 - filled
    } else {
        0
    };
    (filled, empty)
}

/// The scrubber split for `filled` progressed cells of `width`: cells of
/// track before the head, then after it.
pub fn scrubber_split(width: usize, filled: usize) -> (r: (usize, usize))
    requires
        filled <= width,
        width > 0,
    ensures
        r.0 == if filled >= 1 {
            filled - 1
        } else {
            0
        },
        r.0 + 1 + r.1 == width,
{
    let before = if filled >= 1 {
        filled - 1
    } else {
        0
    };
    (before, width - (before + 1))
}

/// Name on the left, tagline centred on the whole bar, hint on the right:
/// the spaces before and after the tagline, or `None` when the bar is too
/// narrow for all three and the tagline is dropped.
pub open spec fn top_bar_gaps_spec(width: int, name: int, tagline: int, hint: int) -> Option<
    (int, int),
> {
    let tagline_start = (if width >= tagline {
        width - tagline
    } else {
        0
    }) / 2;
    let lead = if tagline_start >= name {
        tagline_start - name
    } else {
        0
    };
    let trail = if width >= name + lead + tagline + hint {
        width - (name + lead + tagline + hint)
    } else {
        0
    };
    if lead == 0 || trail == 0 {
        None
    } else {
        Some((lead, trail))
    }
}

/// Gaps around the centred tagline of the top bar; see [`top_bar_gaps_spec`].
pub fn top_bar_gaps(width: usize, name: usize, tagline: usize, hint: usize) -> (r: Option<
    (usize, usize),
>)
    requires
        name + tagline + hint + width <= usize::MAX,
    ensures
        r matches Some(g) ==> top_bar_gaps_spec(width as int, name as int, tagline as int, hint as int) == Some((g.0 as int, g.1 as int)),
        r is None <==> top_bar_gaps_spec(width as int, name as int, tagline as int, hint as int) is None,
{
    let tagline_start = (if width >= tagline {
        width - tagline
    } else {
        0
    }) / 2;
    let lead = if tagline_start >= name {
        tagline_start - name
    } else {
        0
    };
    let trail = if width >= name + lead + tagline + hint {
        width - (name + lead + tagline + hint)
    } else {
        0
    };
    if lead == 0 || trail == 0 {
        None
    } else {
        Some((lead, trail))
    }
}

// -- Glyphs ---------------------------------------------------------------------

/// Semantic UI glyphs, chosen per terminal so a tty or limited console gets
/// ASCII fallbacks instead of unrenderable Unicode.  Every render site reads
/// from one table rather than hard-coding glyph literals.
#[derive(Debug, Clone, Copy)]
pub struct Glyphs {
    /// Vertical rule separating items in a status cluster.
    pub divider: &'static str,
    /// 3-column list prefix marking the selected / active row.
    pub marker: &'static str,
    /// Left / right value-cycle arrows in the settings rows.
    pub arrow_left: &'static str,
    pub arrow_right: &'static str,
    /// Horizontal bar fill / empty (progress, thumb, settings volume).
    pub bar_fill: &'static str,
    pub bar_empty: &'static str,
    /// Padded metadata separator (e.g. `album - year`).
    pub sep: &'static str,
    /// Music note (lyrics title, file-picker audio entries).
    pub note: &'static str,
    /// Directory marker in the file picker's title.
    pub folder: &'static str,
    /// Terminal-capability banner bullet.
    pub bullet: &'static str,
    /// Playback-speed multiplier sign.
    pub times: &'static str,
    /// Horizontal rule fill, used under the track table's header row.
    pub rule: &'static str,
    /// Scrubber: the track line, and the head riding along it.
    pub track: &'static str,
    pub thumb: &'static str,
    /// Frames of the small equaliser shown against the playing row, cycled
    /// by elapsed time.
    pub eq: [&'static str; 4],
    /// The same equaliser at rest, for the track that is loaded but paused.
    pub eq_idle: &'static str,
}

/// The Unicode table.
pub open spec fn unicode_glyphs() -> Glyphs {
    Glyphs {
        divider: "\u{2502}",
        marker: "\u{25b6}  ",
        arrow_left: "\u{25c0}",
        arrow_right: "\u{25b6}",
        bar_fill: "\u{2588}",
        bar_empty: "\u{2591}",
        sep: "  \u{b7}  ",
        note: "\u{266a}",
        folder: "\u{1f4c1}",
        bullet: "\u{25cf}",
        times: "\u{d7}",
        rule: "\u{2500}",
        track: "\u{2501}",
        thumb: "\u{25cf}",
        eq: ["\u{2581}\u{2583}\u{2585}", "\u{2583}\u{2585}\u{2582}", "\u{2585}\u{2582}\u{2586}", "\u{2582}\u{2586}\u{2583}"],
        eq_idle: "\u{2581}\u{2581}\u{2581}",
    }
}

/// The ASCII table, for limited terminals.
pub open spec fn ascii_glyphs() -> Glyphs {
    Glyphs {
        divider: "|",
        marker: ">  ",
        arrow_left: "<",
        arrow_right: ">",
        bar_fill: "#",
        bar_empty: "-",
        sep: "  -  ",
        note: "*",
        folder: "[/]",
        bullet: "*",
        times: "x",
        rule: "-",
        track: "=",
        thumb: "O",
        eq: [".oO", "oO.", "O.o", ".Oo"],
        eq_idle: "...",
    }
}

/// The glyph table to render with: ASCII on limited terminals.
pub fn glyphs(ascii: bool) -> (g: Glyphs)
    ensures
        g == if ascii {
            ascii_glyphs()
        } else {
            unicode_glyphs()
        },
{
    if ascii {
        Glyphs {
            divider: "|",
            marker: ">  ",
            arrow_left: "<",
            arrow_right: ">",
            bar_fill: "#",
            bar_empty: "-",
            sep: "  -  ",
            note: "*",
            folder: "[/]",
            bullet: "*",
            times: "x",
            rule: "-",
            track: "=",
            thumb: "O",
            eq: [".oO", "oO.", "O.o", ".Oo"],
            eq_idle: "...",
        }
    } else {
        Glyphs {
            divider: "\u{2502}",
            marker: "\u{25b6}  ",
            arrow_left: "\u{25c0}",
            arrow_right: "\u{25b6}",
            bar_fill: "\u{2588}",
            bar_empty: "\u{2591}",
            sep: "  \u{b7}  ",
            note: "\u{266a}",
            folder: "\u{1f4c1}",
            bullet: "\u{25cf}",
            times: "\u{d7}",
            rule: "\u{2500}",
            track: "\u{2501}",
            thumb: "\u{25cf}",
            eq: ["\u{2581}\u{2583}\u{2585}", "\u{2583}\u{2585}\u{2582}", "\u{2585}\u{2582}\u{2586}", "\u{2582}\u{2586}\u{2583}"],
            eq_idle: "\u{2581}\u{2581}\u{2581}",
        }
    }
}

/// The gutter cell for a track row: the equaliser frame for `elapsed_ms` on
/// the playing track, its resting frame while paused, blank on every other.
/// Shared so the library and the queue mark the current track the same way.
pub fn row_marker(is_playing: bool, paused: bool, elapsed_ms: u64, g: &Glyphs) -> (r: String)
    ensures
        r@ == if !is_playing {
            Seq::<char>::empty()
        } else if paused {
            g.eq_idle@
        } else {
            g.eq@[((elapsed_ms / 250) % 4) as int]@
        },
{
    if !is_playing {
        return String::new();
    }
    if paused {
        return g.eq_idle.to_owned();
    }
    let frame = eq_frame(elapsed_ms);
    g.eq[frame].to_owned()
}

// -- Lookups and windows ------------------------------------------------------------

/// Whether `a` and `b` hold the same characters.
fn same_chars(a: &str, b: &str) -> (r: bool)
    ensures
        r == (a@ == b@),
{
    a.to_owned() == b.to_owned()
}

/// Whether some truecolor theme is named `name`.
pub open spec fn is_theme_name(name: Seq<char>) -> bool {
    exists|i: int| 0 <= i < THEME_COUNT && theme_name_spec(i) == name
}

/// Whether some console theme is named `name`.
pub open spec fn is_console_theme_name(name: Seq<char>) -> bool {
    exists|i: int| 0 <= i < CONSOLE_THEME_COUNT && console_theme_name_spec(i) == name
}

/// Position of the truecolor theme named `name`, or of the first theme when
/// none is.
pub fn theme_index(name: &str) -> (r: usize)
    ensures
        r < THEME_COUNT,
        is_theme_name(name@) ==> theme_name_spec(r as int) == name@,
        !is_theme_name(name@) ==> r == 0,
{
    let mut i: usize = 0;
    while i < THEME_COUNT
        invariant
            i <= THEME_COUNT,
            forall|k: int| 0 <= k < i ==> theme_name_spec(k) != name@,
        decreases THEME_COUNT - i,
    {
        if same_chars(theme_name(i), name) {
            return i;
        }
        i = i + 1;
    }
    0
}

/// Position of the console theme named `name`, or of the first console
/// theme when none is.
pub fn console_theme_index(name: &str) -> (r: usize)
    ensures
        r < CONSOLE_THEME_COUNT,
        is_console_theme_name(name@) ==> console_theme_name_spec(r as int) == name@,
        !is_console_theme_name(name@) ==> r == 0,
{
    let mut i: usize = 0;
    while i < CONSOLE_THEME_COUNT
        invariant
            i <= CONSOLE_THEME_COUNT,
            forall|k: int| 0 <= k < i ==> console_theme_name_spec(k) != name@,
        decreases CONSOLE_THEME_COUNT - i,
    {
        if same_chars(console_theme_name(i), name) {
            return i;
        }
        i = i + 1;
    }
    0
}

/// The first row shown of a list `height` rows high, scrolled just far
/// enough that row `cursor` is on screen.
pub open spec fn first_visible_spec(cursor: int, height: int) -> int {
    if height == 0 {
        cursor
    } else if cursor >= height {
        cursor - height + 1
    } else {
        0
    }
}

/// The first row shown of a list `height` rows high that keeps row
/// `cursor` in view.
pub fn first_visible(cursor: usize, height: usize) -> (r: usize)
    ensures
        r == first_visible_spec(cursor as int, height as int),
        height > 0 ==> r <= cursor < r + height,
{
    if height == 0 {
        cursor
    } else if cursor >= height {
        cursor - height + 1
    } else {
        0
    }
}

/// `n` less `k`, stopping at zero.
pub open spec fn sat_sub(n: int, k: int) -> int {
    if n >= k {
        n - k
    } else {
        0
    }
}

/// Size of the lyrics overlay on a `w` x `h` screen: two thirds of the
/// width (at least 40 cells) and half the height (at least 8 rows), keeping
/// a margin of 2 on every side.
pub fn lyrics_box(w: u16, h: u16) -> (r: (u16, u16))
    ensures
        r.0 == if (if w * 2 / 3 >= 40 { w * 2 / 3 } else { 40 }) <= sat_sub(w as int, 4) {
            (if w * 2 / 3 >= 40 { w * 2 / 3 } else { 40 }) as int
        } else {
            sat_sub(w as int, 4)
        },
        r.1 == if (if h / 2 >= 8 { h / 2 } else { 8 }) <= sat_sub(h as int, 4) {
            (if h / 2 >= 8 { h / 2 } else { 8 }) as int
        } else {
            sat_sub(h as int, 4)
        },
{
    let w2: u16 = ((w as u32) * 2 / 3) as u16;
    let wide: u16 = if w2 >= 40 {
        w2
    } else {
        40
    };
    let wmax: u16 = if w >= 4 {
        w - 4
    } else {
        0
    };
    let h2: u16 = h / 2;
    let tall: u16 = if h2 >= 8 {
        h2
    } else {
        8
    };
    let hmax: u16 = if h >= 4 {
        h - 4
    } else {
        0
    };
    (if wide <= wmax {
        wide
    } else {
        wmax
    }, if tall <= hmax {
        tall
    } else {
        hmax
    })
}

} // verus!
