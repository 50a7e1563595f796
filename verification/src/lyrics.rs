//! Lyrics: LRC parsing and the line that is active at a playback position.
use vstd::prelude::*;

use crate::text::{
    all_digits, chars_of, digits_value, find_char, find_char_in, is_digit, lemma_find_char,
    lines_of, parse_u64, parse_u64_spec, slice_chars, str_lines, string_of, trim, trim_chars,
};

verus! {

/// One line of lyrics, with its timestamp when the source was timed.
#[derive(Debug, Clone)]
pub struct LyricLine {
    pub time_ms: Option<u64>,
    pub text: String,
}

impl View for LyricLine {
    type V = (Option<u64>, Seq<char>);

    open spec fn view(&self) -> (Option<u64>, Seq<char>) {
        (self.time_ms, self.text@)
    }
}

/// Milliseconds of `mm` minutes, `ss` seconds and `sub` milliseconds, or
/// `None` when that count does not fit in a `u64`.
pub open spec fn lrc_ms(mm: u64, ss: u64, sub: nat) -> Option<u64> {
    let t = mm * 60_000 + ss * 1_000 + sub;
    if t <= u64::MAX {
        Some(t as u64)
    } else {
        None
    }
}

/// Milliseconds written by the fraction digits after the dot: one digit is
/// tenths, two are hundredths, any other count is read as milliseconds.
pub open spec fn sub_ms(len: nat, p: u64) -> nat {
    if len == 1 {
        (p * 100) as nat
    } else if len == 2 {
        (p * 10) as nat
    } else {
        p as nat
    }
}

/// The timestamp and text of a `[mm:ss]` or `[mm:ss.xx]` line, or `None` for
/// any other line (metadata tags such as `[ti:Title]` among them, and a
/// timestamp whose millisecond count does not fit in a `u64`).
pub open spec fn try_timed_spec(line: Seq<char>) -> Option<(u64, Seq<char>)> {
    let close = find_char(line, ']');
    let tag = line.subrange(1, close);
    let text = trim(line.subrange(close + 1, line.len() as int));
    let colon = find_char(tag, ':');
    let frac = tag.subrange(colon + 1, tag.len() as int);
    let dot = find_char(frac, '.');
    if line.len() == 0 || line[0] != '[' || close >= line.len() || tag.len() == 0 || !is_digit(
        tag[0],
    ) || colon >= tag.len() {
        None
    } else {
        match parse_u64_spec(tag.take(colon)) {
            None => None,
            Some(mm) => if dot < frac.len() {
                let sub = frac.skip(dot + 1);
                match (parse_u64_spec(frac.take(dot)), parse_u64_spec(sub)) {
                    (Some(ss), Some(p)) => match lrc_ms(mm, ss, sub_ms(sub.len(), p)) {
                        Some(ms) => Some((ms, text)),
                        None => None,
                    },
                    _ => None,
                }
            } else {
                match parse_u64_spec(frac) {
                    Some(ss) => match lrc_ms(mm, ss, 0) {
                        Some(ms) => Some((ms, text)),
                        None => None,
                    },
                    None => None,
                }
            },
        }
    }
}

/// The timestamp and text of a timed line.
pub open spec fn timed_entry(line: Seq<char>) -> (u64, Seq<char>) {
    try_timed_spec(line)->0
}

/// The input's lines, trimmed.
pub open spec fn trimmed_lines(raw: Seq<char>) -> Seq<Seq<char>> {
    Seq::new(str_lines(raw).len(), |i: int| trim(str_lines(raw)[i]))
}

/// The timed lines among `ls`, in input order.
pub open spec fn timed_of(ls: Seq<Seq<char>>) -> Seq<(u64, Seq<char>)>
    decreases ls.len(),
{
    if ls.len() == 0 {
        Seq::empty()
    } else {
        let t = timed_of(ls.drop_last());
        match try_timed_spec(ls.last()) {
            Some(p) => t.push(p),
            None => t,
        }
    }
}

/// A plain line: not timed, not a tag, not empty.
pub open spec fn is_plain(l: Seq<char>) -> bool {
    try_timed_spec(l) is None && !(l.len() > 0 && l[0] == '[') && l.len() > 0
}

/// The plain lines among `ls`, in input order.
pub open spec fn plain_of(ls: Seq<Seq<char>>) -> Seq<Seq<char>>
    decreases ls.len(),
{
    if ls.len() == 0 {
        Seq::empty()
    } else {
        let t = plain_of(ls.drop_last());
        if is_plain(ls.last()) {
            t.push(ls.last())
        } else {
            t
        }
    }
}

/// `s` with `e` inserted after the last entry timed at or before `e`.
pub open spec fn insert_by_time(s: Seq<(u64, Seq<char>)>, e: (u64, Seq<char>)) -> Seq<
    (u64, Seq<char>),
>
    decreases s.len(),
{
    if s.len() == 0 {
        seq![e]
    } else if s.last().0 <= e.0 {
        s.push(e)
    } else {
        insert_by_time(s.drop_last(), e).push(s.last())
    }
}

/// `s` stably sorted by time.
pub open spec fn sort_by_time(s: Seq<(u64, Seq<char>)>) -> Seq<(u64, Seq<char>)>
    decreases s.len(),
{
    if s.len() == 0 {
        Seq::empty()
    } else {
        insert_by_time(sort_by_time(s.drop_last()), s.last())
    }
}

/// Times never decrease along `s`.
pub open spec fn time_sorted(s: Seq<(u64, Seq<char>)>) -> bool {
    forall|i: int, j: int| 0 <= i <= j < s.len() ==> s[i].0 <= s[j].0
}

/// What [`parse_lrc`] returns for `raw`: the timed lines sorted by time when
/// there are any, else every plain line without a time.
pub open spec fn parse_lrc_spec(raw: Seq<char>) -> Seq<(Option<u64>, Seq<char>)> {
    let ls = trimmed_lines(raw);
    let timed = timed_of(ls);
    if timed.len() > 0 {
        with_times(sort_by_time(timed))
    } else {
        without_times(plain_of(ls))
    }
}

/// The views of `ls`.
pub open spec fn views(ls: Seq<LyricLine>) -> Seq<(Option<u64>, Seq<char>)> {
    Seq::new(ls.len(), |i: int| ls[i]@)
}

/// Timed entries as lines with a time.
pub open spec fn with_times(s: Seq<(u64, Seq<char>)>) -> Seq<(Option<u64>, Seq<char>)> {
    Seq::new(s.len(), |i: int| (Some(s[i].0), s[i].1))
}

/// Texts as lines without a time.
pub open spec fn without_times(s: Seq<Seq<char>>) -> Seq<(Option<u64>, Seq<char>)> {
    Seq::new(s.len(), |i: int| (None::<u64>, s[i]))
}

/// The millisecond count of `mm:ss` plus `sub` milliseconds, unless it
/// overflows a `u64`.
fn checked_ms(mm: u64, ss: u64, sub: u64) -> (r: Option<u64>)
    ensures
        r == lrc_ms(mm, ss, sub as nat),
{
    let a = match mm.checked_mul(60_000) {
        Some(a) => a,
        None => {
            return None;
        },
    };
    let b = match ss.checked_mul(1_000) {
        Some(b) => b,
        None => {
            return None;
        },
    };
    let ab = match a.checked_add(b) {
        Some(ab) => ab,
        None => {
            return None;
        },
    };
    ab.checked_add(sub)
}

proof fn lemma_short_digits(s: Seq<char>, p: u64)
    requires
        parse_u64_spec(s) == Some(p),
    ensures
        s.len() == 1 ==> p <= 9,
        s.len() == 2 ==> p <= 99,
{
    reveal_with_fuel(digits_value, 3);
    if s.len() == 1 {
        assert(s.drop_last().len() == 0);
        assert(is_digit(s[0]));
    } else if s.len() == 2 {
        if s[0] == '+' {
            assert(s.drop_first().len() == 1);
            assert(is_digit(s.drop_first()[0]));
            assert(s.drop_first().drop_last().len() == 0);
        } else {
            assert(is_digit(s[0]));
            assert(is_digit(s[1]));
            assert(s.drop_last().drop_last().len() == 0);
            assert(s.drop_last().last() == s[0]);
        }
    }
}

/// Parses one trimmed line; `None` unless it is `[mm:ss]` or `[mm:ss.xx]`
/// followed by the text.
pub fn try_timed(line: &str) -> (r: Option<LyricLine>)
    ensures
        r is Some <==> try_timed_spec(line@) is Some,
        r matches Some(l) ==> l.time_ms == Some(timed_entry(line@).0) && l.text@ == timed_entry(
            line@,
        ).1,
{
    let cs = chars_of(line);
    proof {
        lemma_find_char(cs@, ']');
    }
    if cs.len() == 0 || cs[0] != '[' {
        return None;
    }
    let close = find_char_in(&cs, ']');
    if close >= cs.len() {
        return None;
    }
    let tag = slice_chars(&cs, 1, close);
    let text = string_of(&trim_chars(&slice_chars(&cs, close + 1, cs.len())));
    // Reject metadata tags whose first char is not a digit (e.g. [ti:Title]).
    if tag.len() == 0 || !('0' <= tag[0] && tag[0] <= '9') {
        return None;
    }
    proof {
        lemma_find_char(tag@, ':');
    }
    let colon = find_char_in(&tag, ':');
    if colon >= tag.len() {
        return None;
    }
    let mm = match parse_u64(&slice_chars(&tag, 0, colon)) {
        Some(v) => v,
        None => {
            return None;
        },
    };
    let frac = slice_chars(&tag, colon + 1, tag.len());
    proof {
        lemma_find_char(frac@, '.');
        assert(tag@.take(colon as int) =~= tag@.subrange(0, colon as int));
    }
    let dot = find_char_in(&frac, '.');
    let ms = if dot < frac.len() {
        let ss = match parse_u64(&slice_chars(&frac, 0, dot)) {
            Some(v) => v,
            None => {
                proof {
                    assert(frac@.take(dot as int) =~= frac@.subrange(0, dot as int));
                }
                return None;
            },
        };
        let sub = slice_chars(&frac, dot + 1, frac.len());
        proof {
            assert(frac@.take(dot as int) =~= frac@.subrange(0, dot as int));
            assert(sub@ =~= frac@.skip(dot + 1));
        }
        let p = match parse_u64(&sub) {
            Some(v) => v,
            None => {
                return None;
            },
        };
        proof {
            lemma_short_digits(sub@, p);
        }
        let sub_ms: u64 = if sub.len() == 1 {
            p * 100
        } else if sub.len() == 2 {
            p * 10
        } else {
            p
        };
        checked_ms(mm, ss, sub_ms)
    } else {
        let ss = match parse_u64(&frac) {
            Some(v) => v,
            None => {
                return None;
            },
        };
        checked_ms(mm, ss, 0)
    };
    match ms {
        Some(t) => Some(LyricLine { time_ms: Some(t), text }),
        None => None,
    }
}

proof fn lemma_insert_by_time_scan(s: Seq<(u64, Seq<char>)>, e: (u64, Seq<char>), j: int)
    requires
        0 < j <= s.len(),
        s[j - 1].0 > e.0,
    ensures
        insert_by_time(s.take(j), e) == insert_by_time(s.take(j - 1), e).push(s[j - 1]),
{
    assert(s.take(j).drop_last() =~= s.take(j - 1));
}

/// `l` is timed after `t`.
fn timed_after(l: &LyricLine, t: u64) -> (r: bool)
    ensures
        r == (l.time_ms matches Some(u) && u > t),
{
    match l.time_ms {
        Some(u) => u > t,
        None => false,
    }
}

/// Inserts `e` into `out` after the last entry timed at or before it.
fn insert_timed(out: &mut Vec<LyricLine>, e: LyricLine)
    requires
        e.time_ms is Some,
        forall|i: int| 0 <= i < old(out)@.len() ==> (#[trigger] old(out)@[i]).time_ms is Some,
    ensures
        forall|i: int| 0 <= i < final(out)@.len() ==> (#[trigger] final(out)@[i]).time_ms is Some,
        timed_view(final(out)@) == insert_by_time(timed_view(old(out)@), (e.time_ms->0, e.text@)),
{
    let ghost s = timed_view(out@);
    let ghost ev = (e.time_ms->0, e.text@);
    let t = match e.time_ms {
        Some(t) => t,
        None => 0,
    };
    let mut j = out.len();
    proof {
        assert(s.take(j as int) =~= s);
        assert(insert_by_time(s, ev) =~= insert_by_time(s.take(j as int), ev) + s.skip(j as int));
    }
    while j > 0 && timed_after(&out[j - 1], t)
        invariant
            j <= out@.len(),
            out@ == old(out)@,
            s == timed_view(out@),
            ev.0 == t,
            forall|i: int| 0 <= i < out@.len() ==> (#[trigger] out@[i]).time_ms is Some,
            insert_by_time(s, ev) == insert_by_time(s.take(j as int), ev) + s.skip(j as int),
        decreases j,
    {
        proof {
            lemma_insert_by_time_scan(s, ev, j as int);
            assert(s.skip(j - 1) =~= seq![s[j - 1]] + s.skip(j as int));
            assert(insert_by_time(s.take(j - 1), ev).push(s[j - 1]) + s.skip(j as int)
                =~= insert_by_time(s.take(j - 1), ev) + s.skip(j - 1));
        }
        j = j - 1;
    }
    proof {
        if j > 0 {
            assert(s.take(j as int).last() == s[j - 1]);
            assert(s.take(j as int).last().0 <= ev.0);
        } else {
            assert(s.take(0) =~= Seq::<(u64, Seq<char>)>::empty());
        }
    }
    out.insert(j, e);
    proof {
        assert(timed_view(out@) =~= s.take(j as int).push(ev) + s.skip(j as int));
        assert(insert_by_time(s, ev) =~= s.take(j as int).push(ev) + s.skip(j as int));
    }
}

/// The times (read as present) and texts of `ls`.
pub open spec fn timed_view(ls: Seq<LyricLine>) -> Seq<(u64, Seq<char>)> {
    Seq::new(ls.len(), |i: int| (ls[i].time_ms->0, ls[i].text@))
}

/// Parses raw LRC text or plain text into lyric lines.
///
/// If the input contains any `[mm:ss.xx]` timestamp tags those lines are
/// extracted and returned sorted by time; metadata tags like `[ti:...]` are
/// skipped.  If no timed lines are found every non-empty input line is
/// returned with `time_ms: None`.
pub fn parse_lrc(raw: &str) -> (r: Vec<LyricLine>)
    ensures
        views(r@) == parse_lrc_spec(raw@),
{
    let ghost ls = trimmed_lines(raw@);
    let lines = lines_of(&chars_of(raw));
    let mut timed: Vec<LyricLine> = Vec::new();
    let mut plain: Vec<LyricLine> = Vec::new();
    let n = lines.len();
    for i in 0..n
        invariant
            n == lines@.len(),
            n == ls.len(),
            forall|k: int| 0 <= k < n ==> trim(#[trigger] lines@[k]@) == ls[k],
            forall|k: int| 0 <= k < timed@.len() ==> (#[trigger] timed@[k]).time_ms is Some,
            timed_view(timed@) == sort_by_time(timed_of(ls.take(i as int))),
            timed@.len() == timed_of(ls.take(i as int)).len(),
            views(plain@) == without_times(plain_of(ls.take(i as int))),
    {
        let ghost pre = ls.take(i as int);
        proof {
            assert(ls.take(i + 1).drop_last() =~= pre);
            assert(ls.take(i + 1).last() == ls[i as int]);
        }
        let t = trim_chars(&lines[i]);
        let s = string_of(&t);
        match try_timed(s.as_str()) {
            Some(ll) => {
                insert_timed(&mut timed, ll);
                proof {
                    lemma_sort_len(timed_of(pre));
                    lemma_insert_len(sort_by_time(timed_of(pre)), timed_entry(ls[i as int]));
                    assert(timed_of(pre).push(timed_entry(ls[i as int])).drop_last() =~= timed_of(
                        pre,
                    ));
                }
            },
            None => {
                if !(t.len() > 0 && t[0] == '[') && t.len() > 0 {
                    let ghost p0 = plain@;
                    plain.push(LyricLine { time_ms: None, text: s });
                    proof {
                        assert(t@ == ls[i as int]);
                        assert(is_plain(ls[i as int]));
                        assert(plain_of(ls.take(i + 1)) == plain_of(pre).push(ls[i as int]));
                        assert(plain@ == p0.push(LyricLine { time_ms: None, text: s }));
                        assert forall|k: int| 0 <= k < plain@.len() implies #[trigger] views(
                            plain@,
                        )[k] == without_times(plain_of(ls.take(i + 1)))[k] by {
                            assert(views(p0).len() == p0.len());
                            assert(without_times(plain_of(pre)).len() == plain_of(pre).len());
                            if k < p0.len() {
                                assert(views(p0)[k] == without_times(plain_of(pre))[k]);
                            } else {
                                assert(k == plain_of(pre).len());
                                assert(plain@[k]@ == (None::<u64>, s@));
                                assert(s@ == ls[i as int]);
                                assert(plain_of(ls.take(i + 1))[k] == ls[i as int]);
                            }
                        }
                        assert(views(p0).len() == p0.len());
                        assert(without_times(plain_of(pre)).len() == plain_of(pre).len());
                        assert(views(plain@).len() == plain@.len());
                        assert(views(plain@).len() == without_times(
                            plain_of(ls.take(i + 1)),
                        ).len());
                        assert(views(plain@) =~= without_times(plain_of(ls.take(i + 1))));
                    }
                } else {
                    proof {
                        assert(plain_of(ls.take(i + 1)) == plain_of(pre));
                    }
                }
            },
        }
    }
    proof {
        assert(ls.take(n as int) =~= ls);
        lemma_sort_len(timed_of(ls));
    }
    if timed.len() > 0 {
        proof {
            assert(views(timed@) =~= with_times(sort_by_time(timed_of(ls))));
        }
        timed
    } else {
        plain
    }
}

proof fn lemma_insert_sorted(s: Seq<(u64, Seq<char>)>, e: (u64, Seq<char>))
    requires
        time_sorted(s),
    ensures
        time_sorted(insert_by_time(s, e)),
        insert_by_time(s, e).to_multiset() == s.to_multiset().insert(e),
        forall|i: int|
            0 <= i < insert_by_time(s, e).len() ==> (#[trigger] insert_by_time(s, e)[i] == e
                || s.contains(insert_by_time(s, e)[i])),
    decreases s.len(),
{
    broadcast use vstd::seq_lib::group_seq_properties;
    broadcast use vstd::multiset::group_multiset_axioms;
    if s.len() > 0 {
        let d = s.drop_last();
        assert(s =~= d.push(s.last()));
        if s.last().0 > e.0 {
            lemma_insert_sorted(d, e);
            let t = insert_by_time(d, e);
            assert forall|i: int| 0 <= i < t.len() implies #[trigger] t[i].0 <= s.last().0 by {
                if t[i] != e {
                    let k = choose|k: int| 0 <= k < d.len() && d[k] == t[i];
                    assert(s[k] == d[k]);
                }
            }
            assert forall|i: int, j: int|
                0 <= i <= j < t.push(s.last()).len() implies t.push(s.last())[i].0 <= t.push(
                s.last(),
            )[j].0 by {
                if j == t.len() {
                    assert(t.push(s.last())[i] == t[i] || i == j);
                }
            }
            assert forall|i: int| 0 <= i < t.push(s.last()).len() implies (#[trigger] t.push(
                s.last(),
            )[i] == e || s.contains(t.push(s.last())[i])) by {
                if i < t.len() && t[i] != e {
                    let k = choose|k: int| 0 <= k < d.len() && d[k] == t[i];
                    assert(s[k] == d[k]);
                } else if i == t.len() {
                    assert(s[s.len() - 1] == s.last());
                }
            }
        } else {
            assert forall|i: int| 0 <= i < s.push(e).len() implies (#[trigger] s.push(e)[i] == e
                || s.contains(s.push(e)[i])) by {
                if i < s.len() {
                    assert(s[i] == s.push(e)[i]);
                }
            }
        }
    }
}

proof fn lemma_sort_sorted(s: Seq<(u64, Seq<char>)>)
    ensures
        time_sorted(sort_by_time(s)),
        sort_by_time(s).to_multiset() == s.to_multiset(),
    decreases s.len(),
{
    broadcast use vstd::seq_lib::group_seq_properties;
    broadcast use vstd::multiset::group_multiset_axioms;
    if s.len() > 0 {
        lemma_sort_sorted(s.drop_last());
        lemma_insert_sorted(sort_by_time(s.drop_last()), s.last());
        assert(s =~= s.drop_last().push(s.last()));
    }
}

proof fn lemma_close_at(tag: Seq<char>, rest: Seq<char>)
    requires
        !tag.contains(']'),
    ensures
        ({
            let line = seq!['['] + tag + seq![']'] + rest;
            &&& find_char(line, ']') == tag.len() + 1
            &&& line.subrange(1, tag.len() as int + 1) == tag
            &&& line.subrange(tag.len() as int + 2, line.len() as int) == rest
            &&& line[0] == '['
        }),
{
    let line = seq!['['] + tag + seq![']'] + rest;
    let k: int = tag.len() as int + 1;
    lemma_find_char(line, ']');
    assert(line[k] == ']');
    assert forall|i: int| 0 <= i < k implies line[i] != ']' by {
        if i > 0 {
            assert(line[i] == tag[i - 1]);
        }
    }
    assert(line.subrange(1, k) =~= tag);
    assert(line.subrange(k + 1, line.len() as int) =~= rest);
}

/// Whether a line is timed, and at what time, is decided by its `[...]`
/// tag alone: whatever follows the tag (nothing included), the line is
/// timed exactly when the bare tag is, at the same time, and its text is
/// what follows the tag, trimmed.
pub proof fn lemma_timed_by_tag(tag: Seq<char>, rest: Seq<char>)
    requires
        !tag.contains(']'),
    ensures
        ({
            let bare = seq!['['] + tag + seq![']'];
            let line = bare + rest;
            &&& try_timed_spec(line) is Some <==> try_timed_spec(bare) is Some
            &&& try_timed_spec(line) is Some ==> timed_entry(line).0 == timed_entry(bare).0
                && timed_entry(line).1 == trim(rest) && timed_entry(bare).1 == trim(
                Seq::<char>::empty(),
            )
        }),
{
    lemma_close_at(tag, rest);
    lemma_close_at(tag, Seq::<char>::empty());
    let bare = seq!['['] + tag + seq![']'];
    assert(bare + Seq::<char>::empty() =~= bare);
}

/// Timed lyrics come back in time order, and they are exactly the timed
/// lines of the input: none lost, none added, each as often as it occurs.
pub proof fn lemma_parse_lrc_timed(raw: Seq<char>)
    requires
        timed_of(trimmed_lines(raw)).len() > 0,
    ensures
        parse_lrc_spec(raw) == with_times(sort_by_time(timed_of(trimmed_lines(raw)))),
        time_sorted(sort_by_time(timed_of(trimmed_lines(raw)))),
        sort_by_time(timed_of(trimmed_lines(raw))).to_multiset() == timed_of(
            trimmed_lines(raw),
        ).to_multiset(),
{
    lemma_sort_sorted(timed_of(trimmed_lines(raw)));
}

/// Untimed lyrics come back as every non-empty line that is not a tag, in
/// input order, without times.
pub proof fn lemma_parse_lrc_plain(raw: Seq<char>)
    requires
        timed_of(trimmed_lines(raw)).len() == 0,
    ensures
        parse_lrc_spec(raw) == without_times(plain_of(trimmed_lines(raw))),
        forall|i: int|
            0 <= i < parse_lrc_spec(raw).len() ==> (#[trigger] parse_lrc_spec(raw)[i]).0 is None
                && is_plain(parse_lrc_spec(raw)[i].1),
{
    lemma_plain_of(trimmed_lines(raw));
}

proof fn lemma_plain_of(ls: Seq<Seq<char>>)
    ensures
        forall|i: int| 0 <= i < plain_of(ls).len() ==> is_plain(#[trigger] plain_of(ls)[i]),
    decreases ls.len(),
{
    if ls.len() > 0 {
        let t = plain_of(ls.drop_last());
        lemma_plain_of(ls.drop_last());
        assert forall|i: int| 0 <= i < plain_of(ls).len() implies is_plain(
            #[trigger] plain_of(ls)[i],
        ) by {
            if i < t.len() {
                assert(plain_of(ls)[i] == t[i]);
            }
        }
    }
}

proof fn lemma_insert_len(s: Seq<(u64, Seq<char>)>, e: (u64, Seq<char>))
    ensures
        insert_by_time(s, e).len() == s.len() + 1,
    decreases s.len(),
{
    if s.len() > 0 && s.last().0 > e.0 {
        lemma_insert_len(s.drop_last(), e);
    }
}

proof fn lemma_sort_len(s: Seq<(u64, Seq<char>)>)
    ensures
        sort_by_time(s).len() == s.len(),
    decreases s.len(),
{
    if s.len() > 0 {
        lemma_sort_len(s.drop_last());
        lemma_insert_len(sort_by_time(s.drop_last()), s.last());
    }
}

/// Index of the last line of `lines` timed at or before `e`.
pub open spec fn active_spec(lines: Seq<LyricLine>, e: u64) -> Option<int>
    decreases lines.len(),
{
    if lines.len() == 0 {
        None
    } else if is_reached(lines.last(), e) {
        Some(lines.len() - 1)
    } else {
        active_spec(lines.drop_last(), e)
    }
}

proof fn lemma_active_spec(lines: Seq<LyricLine>, e: u64)
    ensures
        match active_spec(lines, e) {
            Some(i) => 0 <= i < lines.len() && is_reached(lines[i], e) && forall|j: int|
                i < j < lines.len() ==> !is_reached(#[trigger] lines[j], e),
            None => forall|j: int| 0 <= j < lines.len() ==> !is_reached(#[trigger] lines[j], e),
        },
    decreases lines.len(),
{
    if lines.len() > 0 {
        lemma_active_spec(lines.drop_last(), e);
        assert forall|j: int| 0 <= j < lines.len() - 1 implies #[trigger] lines[j]
            == lines.drop_last()[j] by {}
    }
}

/// The active line never moves back while playback moves forward: if a line
/// is active at `e1`, the line active at any later `e2` is that one or one
/// after it.
pub proof fn lemma_active_monotone(lines: Seq<LyricLine>, e1: u64, e2: u64)
    requires
        e1 <= e2,
    ensures
        active_spec(lines, e1) matches Some(i) ==> active_spec(lines, e2) matches Some(j) && i
            <= j,
    decreases lines.len(),
{
    if lines.len() > 0 {
        lemma_active_monotone(lines.drop_last(), e1, e2);
        lemma_active_spec(lines.drop_last(), e1);
    }
}

/// Index of the last timed line whose timestamp is at or before
/// `elapsed_ms`.
pub fn active_idx(lines: &[LyricLine], elapsed_ms: u64) -> (r: Option<usize>)
    ensures
        match r {
            Some(i) => active_spec(lines@, elapsed_ms) == Some(i as int),
            None => active_spec(lines@, elapsed_ms) is None,
        },
        match r {
            Some(i) => i < lines@.len() && is_reached(lines@[i as int], elapsed_ms) && forall|
                j: int,
            |
                i < j < lines@.len() ==> !is_reached(#[trigger] lines@[j], elapsed_ms),
            None => forall|j: int|
                0 <= j < lines@.len() ==> !is_reached(#[trigger] lines@[j], elapsed_ms),
        },
{
    let mut i = lines.len();
    while i > 0
        invariant
            i <= lines@.len(),
            forall|j: int| i <= j < lines@.len() ==> !is_reached(#[trigger] lines@[j], elapsed_ms),
        decreases i,
    {
        let reached = match lines[i - 1].time_ms {
            Some(t) => t <= elapsed_ms,
            None => false,
        };
        if reached {
            proof {
                lemma_active_spec(lines@, elapsed_ms);
            }
            return Some(i - 1);
        }
        i = i - 1;
    }
    proof {
        lemma_active_spec(lines@, elapsed_ms);
    }
    None
}

/// `l` is timed at or before `elapsed_ms`.
pub open spec fn is_reached(l: LyricLine, elapsed_ms: u64) -> bool {
    l.time_ms matches Some(t) && t <= elapsed_ms
}

/// Some line of `lines` has a time.
pub open spec fn is_synced(lines: Seq<LyricLine>) -> bool {
    exists|j: int| 0 <= j < lines.len() && (#[trigger] lines[j]).time_ms is Some
}

/// The first line shown in a window of `visible` rows, and the line to
/// highlight: synced lyrics keep the active line centred, plain ones
/// scroll by hand from `manual`; either stops where the last line reaches
/// the bottom of the window.
pub fn lyrics_window(lines: &[LyricLine], elapsed_ms: u64, manual: usize, visible: usize) -> (r: (
    usize,
    Option<usize>,
))
    ensures
        match r.1 {
            Some(i) => is_synced(lines@) && active_spec(lines@, elapsed_ms) == Some(i as int),
            None => !is_synced(lines@) || active_spec(lines@, elapsed_ms) is None,
        },
        ({
            let want: int = if is_synced(lines@) {
                match active_spec(lines@, elapsed_ms) {
                    Some(c) => crate::layout::sat_sub(c, (visible / 2) as int),
                    None => 0,
                }
            } else {
                manual as int
            };
            let last: int = crate::layout::sat_sub(lines@.len() as int, visible as int);
            r.0 == if want <= last {
                want
            } else {
                last
            }
        }),
{
    let mut synced = false;
    let mut j: usize = 0;
    while j < lines.len()
        invariant
            j <= lines@.len(),
            synced == exists|k: int| 0 <= k < j && (#[trigger] lines@[k]).time_ms is Some,
        decreases lines@.len() - j,
    {
        if lines[j].time_ms.is_some() {
            synced = true;
        }
        j = j + 1;
    }
    let current = if synced {
        active_idx(lines, elapsed_ms)
    } else {
        None
    };
    let want: usize = if synced {
        match current {
            Some(c) => if c >= visible / 2 {
                c - visible / 2
            } else {
                0
            },
            None => 0,
        }
    } else {
        manual
    };
    let last: usize = if lines.len() >= visible {
        lines.len() - visible
    } else {
        0
    };
    (if want <= last {
        want
    } else {
        last
    }, current)
}

} // verus!
