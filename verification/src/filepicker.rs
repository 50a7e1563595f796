//! The file picker: which files count as audio, directory paths, and the
//! picker's listing and key handling.  Reading a directory is left to the
//! caller, which hands [`FilePicker::refresh`] what it read.
use vstd::prelude::*;

use crate::nav::{list_move, list_move_spec, KeyCode, PAGE};
use crate::text::{ascii_lower, chars_of, lowercase, slice_chars, string_of, to_ascii_lower, to_lowercase};

verus! {

// -- Audio extensions -------------------------------------------------------------

/// Number of extensions the bundled decoders can play.
pub const AUDIO_EXT_COUNT: usize = 14;

/// The extensions the bundled decoders can play.  Anything else is hidden
/// from the picker rather than offered and then rejected at import.
/// Deliberately absent: `opus` (no Opus decoder) and `wma` (no ASF demuxer).
pub open spec fn audio_ext_spec(i: int) -> Seq<char> {
    if i == 0 {
        "mp3"@
    } else if i == 1 {
        "mp2"@
    } else if i == 2 {
        "mp1"@
    } else if i == 3 {
        "flac"@
    } else if i == 4 {
        "ogg"@
    } else if i == 5 {
        "oga"@
    } else if i == 6 {
        "wav"@
    } else if i == 7 {
        "wave"@
    } else if i == 8 {
        "aac"@
    } else if i == 9 {
        "m4a"@
    } else if i == 10 {
        "m4b"@
    } else if i == 11 {
        "aiff"@
    } else if i == 12 {
        "aif"@
    } else {
        "aifc"@
    }
}

/// Audio extension `i`.
pub fn audio_ext(i: usize) -> (r: &'static str)
    requires
        i < AUDIO_EXT_COUNT,
    ensures
        r@ == audio_ext_spec(i as int),
{
    match i {
        0 => "mp3",
        1 => "mp2",
        2 => "mp1",
        3 => "flac",
        4 => "ogg",
        5 => "oga",
        6 => "wav",
        7 => "wave",
        8 => "aac",
        9 => "m4a",
        10 => "m4b",
        11 => "aiff",
        12 => "aif",
        _ => "aifc",
    }
}

/// `e` is one of the audio extensions.
pub open spec fn is_audio_ext(e: Seq<char>) -> bool {
    exists|i: int| 0 <= i < AUDIO_EXT_COUNT && #[trigger] audio_ext_spec(i) == e
}

// -- Paths ------------------------------------------------------------------------

/// `p` without trailing separators; a lone `/` stays.
pub open spec fn trim_slashes(p: Seq<char>) -> Seq<char>
    decreases p.len(),
{
    if p.len() > 1 && p.last() == '/' {
        trim_slashes(p.drop_last())
    } else {
        p
    }
}

/// Position of the last `c` in `s`, or -1 when there is none.
pub open spec fn rfind_char(s: Seq<char>, c: char) -> int
    decreases s.len(),
{
    if s.len() == 0 {
        -1
    } else if s.last() == c {
        s.len() - 1
    } else {
        rfind_char(s.drop_last(), c)
    }
}

/// The final component of `p` (`Path::file_name`), or `None` when `p` ends
/// in no name (`..`, `.`, a root or nothing).
pub open spec fn file_name_spec(p: Seq<char>) -> Option<Seq<char>> {
    let t = trim_slashes(p);
    let name = t.skip(rfind_char(t, '/') + 1);
    if name.len() == 0 || name == seq!['.'] || name == seq!['.', '.'] {
        None
    } else {
        Some(name)
    }
}

/// The extension of `p` (`Path::extension`): what follows the last `.` of
/// its file name, unless that dot starts the name.
pub open spec fn extension_spec(p: Seq<char>) -> Option<Seq<char>> {
    match file_name_spec(p) {
        None => None,
        Some(n) => if rfind_char(n, '.') <= 0 {
            None
        } else {
            Some(n.skip(rfind_char(n, '.') + 1))
        },
    }
}

/// `s` with ASCII letters lowered.
pub open spec fn ascii_lower_seq(s: Seq<char>) -> Seq<char> {
    Seq::new(s.len(), |i: int| ascii_lower(s[i]))
}

/// `p` names an audio file: its extension, ASCII-lowered, is an audio
/// extension.
pub open spec fn is_audio_spec(p: Seq<char>) -> bool {
    match extension_spec(p) {
        Some(e) => is_audio_ext(ascii_lower_seq(e)),
        None => false,
    }
}

/// The directory containing `p` (`Path::parent`), or `None` for a root or
/// an empty path.
pub open spec fn parent_spec(p: Seq<char>) -> Option<Seq<char>> {
    let t = trim_slashes(p);
    let k = rfind_char(t, '/');
    if t.len() == 0 || t == seq!['/'] {
        None
    } else if k < 0 {
        Some(Seq::empty())
    } else if k == 0 {
        Some(seq!['/'])
    } else {
        Some(trim_slashes(t.take(k)))
    }
}

proof fn lemma_rfind_char(s: Seq<char>, c: char)
    ensures
        -1 <= rfind_char(s, c) < s.len(),
        rfind_char(s, c) >= 0 ==> s[rfind_char(s, c)] == c,
        forall|i: int| rfind_char(s, c) < i < s.len() ==> s[i] != c,
    decreases s.len(),
{
    if s.len() > 0 && s.last() != c {
        lemma_rfind_char(s.drop_last(), c);
        assert forall|i: int| rfind_char(s, c) < i < s.len() implies s[i] != c by {
            if i < s.len() - 1 {
                assert(s[i] == s.drop_last()[i]);
            }
        }
    }
}

proof fn lemma_rfind_at(s: Seq<char>, c: char, k: int)
    requires
        0 <= k < s.len(),
        s[k] == c,
        forall|i: int| k < i < s.len() ==> s[i] != c,
    ensures
        rfind_char(s, c) == k,
{
    lemma_rfind_char(s, c);
}

/// A path made of a directory, a separator and a name `stem.ext`: the name
/// is its file name, the directory its parent and `ext` its extension, and
/// the path is offered as audio exactly when `ext`, ASCII-lowered, is an
/// extension the decoders play.
pub proof fn lemma_path_parts(dir: Seq<char>, stem: Seq<char>, ext: Seq<char>)
    requires
        dir.len() > 0,
        dir.last() != '/',
        stem.len() > 0,
        ext.len() > 0,
        !stem.contains('/'),
        !ext.contains('/'),
        !ext.contains('.'),
    ensures
        ({
            let name = stem + seq!['.'] + ext;
            let p = dir + seq!['/'] + name;
            &&& file_name_spec(p) == Some(name)
            &&& parent_spec(p) == Some(dir)
            &&& extension_spec(p) == Some(ext)
            &&& is_audio_spec(p) == is_audio_ext(ascii_lower_seq(ext))
        }),
{
    let name = stem + seq!['.'] + ext;
    let p = dir + seq!['/'] + name;
    let d = dir.len() as int;
    let sl = stem.len() as int;
    assert(p.last() == ext.last()) by {
        assert(p[p.len() - 1] == ext[ext.len() - 1]);
    }
    assert(ext.contains(ext.last())) by {
        assert(ext[ext.len() - 1] == ext.last());
    }
    assert(trim_slashes(p) == p);
    assert(p[d] == '/');
    assert forall|i: int| d < i < p.len() implies p[i] != '/' by {
        let j = i - d - 1;
        if j < sl {
            assert(p[i] == stem[j]);
            assert(stem.contains(stem[j]));
        } else if j > sl {
            assert(p[i] == ext[j - sl - 1]);
            assert(ext.contains(ext[j - sl - 1]));
        }
    }
    lemma_rfind_at(p, '/', d);
    assert(p.skip(d + 1) =~= name);
    assert(p.take(d) =~= dir);
    assert(dir.len() > 1 || dir != seq!['/']);
    assert(trim_slashes(dir) == dir);
    assert(name[sl] == '.');
    assert forall|i: int| sl < i < name.len() implies name[i] != '.' by {
        assert(name[i] == ext[i - sl - 1]);
        assert(ext.contains(ext[i - sl - 1]));
    }
    lemma_rfind_at(name, '.', sl);
    assert(name.skip(sl + 1) =~= ext);
    assert(name != seq!['.']);
    assert(name != seq!['.', '.']) by {
        assert(name.len() >= 3);
    }
}

/// `v` without trailing separators; a lone `/` stays.
fn trim_slashes_chars(v: &Vec<char>) -> (r: Vec<char>)
    ensures
        r@ == trim_slashes(v@),
{
    let mut n = v.len();
    proof {
        assert(v@.take(n as int) =~= v@);
    }
    while n > 1 && v[n - 1] == '/'
        invariant
            n <= v.len(),
            trim_slashes(v@) == trim_slashes(v@.take(n as int)),
        decreases n,
    {
        proof {
            assert(v@.take(n as int).drop_last() =~= v@.take(n - 1));
        }
        n = n - 1;
    }
    proof {
        assert(v@.take(n as int).len() == n);
    }
    slice_chars(v, 0, n)
}

/// Position of the last `c` in `v`, or `v.len()` when there is none.
fn rfind_char_in(v: &Vec<char>, c: char) -> (r: usize)
    ensures
        r == (if rfind_char(v@, c) < 0 {
            v@.len() as int
        } else {
            rfind_char(v@, c)
        }),
{
    let mut n = v.len();
    proof {
        assert(v@.take(n as int) =~= v@);
    }
    while n > 0 && v[n - 1] != c
        invariant
            n <= v.len(),
            rfind_char(v@, c) == rfind_char(v@.take(n as int), c),
        decreases n,
    {
        proof {
            assert(v@.take(n as int).drop_last() =~= v@.take(n - 1));
        }
        n = n - 1;
    }
    if n == 0 {
        v.len()
    } else {
        n - 1
    }
}

/// Whether `a` and `b` hold the same characters.
fn chars_eq(a: &Vec<char>, b: &str) -> (r: bool)
    ensures
        r == (a@ == b@),
{
    let bv = chars_of(b);
    if a.len() != bv.len() {
        return false;
    }
    let mut i: usize = 0;
    while i < a.len()
        invariant
            bv@ == b@,
            a@.len() == bv@.len(),
            i <= a.len(),
            forall|j: int| 0 <= j < i ==> a@[j] == bv@[j],
        decreases a.len() - i,
    {
        if a[i] != bv[i] {
            proof {
                assert(a@[i as int] != bv@[i as int]);
            }
            return false;
        }
        i = i + 1;
    }
    proof {
        assert(a@ =~= bv@);
    }
    true
}

/// The file name of the path `p`, as [`file_name_spec`] describes.
fn file_name_chars(p: &Vec<char>) -> (r: Option<Vec<char>>)
    ensures
        match r {
            Some(n) => file_name_spec(p@) == Some(n@),
            None => file_name_spec(p@) is None,
        },
{
    let t = trim_slashes_chars(p);
    let sep = rfind_char_in(&t, '/');
    proof {
        lemma_rfind_char(t@, '/');
    }
    let start = if sep < t.len() {
        sep + 1
    } else {
        0
    };
    let name = slice_chars(&t, start, t.len());
    proof {
        assert(name@ =~= t@.skip(rfind_char(t@, '/') + 1));
        reveal_strlit(".");
        reveal_strlit("..");
        assert("."@ =~= seq!['.']);
        assert(".."@ =~= seq!['.', '.']);
    }
    if name.len() == 0 || chars_eq(&name, ".") || chars_eq(&name, "..") {
        return None;
    }
    Some(name)
}

/// The final component of `path` (`Path::file_name`).
pub fn file_name_of(path: &str) -> (r: Option<String>)
    ensures
        match r {
            Some(n) => file_name_spec(path@) == Some(n@),
            None => file_name_spec(path@) is None,
        },
{
    match file_name_chars(&chars_of(path)) {
        Some(n) => Some(string_of(&n)),
        None => None,
    }
}

/// The file name of `p` without its extension (`Path::file_stem`).
pub open spec fn file_stem_spec(p: Seq<char>) -> Option<Seq<char>> {
    match file_name_spec(p) {
        None => None,
        Some(n) => Some(
            if rfind_char(n, '.') <= 0 {
                n
            } else {
                n.take(rfind_char(n, '.'))
            },
        ),
    }
}

/// The file name of `path` without its extension (`Path::file_stem`).
pub fn file_stem_of(path: &str) -> (r: Option<String>)
    ensures
        match r {
            Some(n) => file_stem_spec(path@) == Some(n@),
            None => file_stem_spec(path@) is None,
        },
{
    match file_name_chars(&chars_of(path)) {
        Some(n) => {
            let dot = rfind_char_in(&n, '.');
            proof {
                lemma_rfind_char(n@, '.');
            }
            if dot >= n.len() || dot == 0 {
                Some(string_of(&n))
            } else {
                let stem = slice_chars(&n, 0, dot);
                proof {
                    assert(stem@ =~= n@.take(dot as int));
                }
                Some(string_of(&stem))
            }
        },
        None => None,
    }
}

/// Whether `path` names an audio file, by its extension.
pub fn is_audio(path: &str) -> (r: bool)
    ensures
        r == is_audio_spec(path@),
{
    let p = chars_of(path);
    let name = match file_name_chars(&p) {
        Some(n) => n,
        None => {
            return false;
        },
    };
    let dot = rfind_char_in(&name, '.');
    proof {
        lemma_rfind_char(name@, '.');
    }
    if dot >= name.len() || dot == 0 {
        return false;
    }
    let ext = slice_chars(&name, dot + 1, name.len());
    let mut lower: Vec<char> = Vec::new();
    for i in 0..ext.len()
        invariant
            lower@ == ascii_lower_seq(ext@.take(i as int)),
    {
        lower.push(to_ascii_lower(ext[i]));
        proof {
            assert(lower@ =~= ascii_lower_seq(ext@.take(i + 1)));
        }
    }
    proof {
        assert(ext@.take(ext.len() as int) =~= ext@);
        assert(ext@ =~= name@.skip(rfind_char(name@, '.') + 1));
    }
    let mut k: usize = 0;
    while k < AUDIO_EXT_COUNT
        invariant
            k <= AUDIO_EXT_COUNT,
            lower@ == ascii_lower_seq(extension_spec(path@)->0),
            extension_spec(path@) is Some,
            forall|j: int| 0 <= j < k ==> audio_ext_spec(j) != lower@,
        decreases AUDIO_EXT_COUNT - k,
    {
        if chars_eq(&lower, audio_ext(k)) {
            return true;
        }
        k = k + 1;
    }
    false
}

/// The directory containing `path`, or `None` for a root or an empty path.
pub fn parent_of(path: &str) -> (r: Option<String>)
    ensures
        match r {
            Some(s) => parent_spec(path@) == Some(s@),
            None => parent_spec(path@) is None,
        },
{
    let p = chars_of(path);
    let t = trim_slashes_chars(&p);
    proof {
        lemma_rfind_char(t@, '/');
    }
    if t.len() == 0 || (t.len() == 1 && t[0] == '/') {
        proof {
            if t.len() == 1 {
                assert(t@ =~= seq!['/']);
            }
        }
        return None;
    }
    proof {
        assert(t@ != seq!['/']);
    }
    let k = rfind_char_in(&t, '/');
    if k >= t.len() {
        Some(String::new())
    } else if k == 0 {
        let mut s = String::new();
        crate::text::push_char(&mut s, '/');
        proof {
            assert(s@ =~= seq!['/']);
        }
        Some(s)
    } else {
        let head = slice_chars(&t, 0, k);
        proof {
            assert(head@ =~= t@.take(k as int));
        }
        Some(string_of(&trim_slashes_chars(&head)))
    }
}

// -- Entries ----------------------------------------------------------------------

/// One row of the picker: a directory or an audio file.
#[derive(Debug, Clone)]
pub struct DirEntry {
    pub name: String,
    pub path: String,
    pub is_dir: bool,
}

impl View for DirEntry {
    type V = (Seq<char>, Seq<char>, bool);

    open spec fn view(&self) -> (Seq<char>, Seq<char>, bool) {
        (self.name@, self.path@, self.is_dir)
    }
}

/// The views of `es`.
pub open spec fn entry_views(es: Seq<DirEntry>) -> Seq<(Seq<char>, Seq<char>, bool)> {
    Seq::new(es.len(), |i: int| es[i]@)
}

/// `a` sorts at or before `b`: `String`'s order, character by character.
pub open spec fn lex_le(a: Seq<char>, b: Seq<char>) -> bool
    decreases a.len(),
{
    if a.len() == 0 {
        true
    } else if b.len() == 0 {
        false
    } else if a[0] != b[0] {
        (a[0] as u32) < (b[0] as u32)
    } else {
        lex_le(a.drop_first(), b.drop_first())
    }
}

/// Whether `a` sorts at or before `b`.
pub fn lex_le_chars(a: &Vec<char>, b: &Vec<char>) -> (r: bool)
    ensures
        r == lex_le(a@, b@),
{
    let mut i: usize = 0;
    proof {
        assert(a@.skip(0) =~= a@);
        assert(b@.skip(0) =~= b@);
    }
    while i < a.len() && i < b.len() && a[i] == b[i]
        invariant
            i <= a.len(),
            i <= b.len(),
            lex_le(a@, b@) == lex_le(a@.skip(i as int), b@.skip(i as int)),
        decreases a.len() - i,
    {
        proof {
            assert(a@.skip(i as int).drop_first() =~= a@.skip(i + 1));
            assert(b@.skip(i as int).drop_first() =~= b@.skip(i + 1));
        }
        i = i + 1;
    }
    if i == a.len() {
        true
    } else if i == b.len() {
        false
    } else {
        (a[i] as u32) < (b[i] as u32)
    }
}

/// `s` with `e` inserted after the last entry whose key sorts at or before
/// `e`'s.
pub open spec fn insert_by_key(
    s: Seq<(Seq<char>, (Seq<char>, Seq<char>, bool))>,
    e: (Seq<char>, (Seq<char>, Seq<char>, bool)),
) -> Seq<(Seq<char>, (Seq<char>, Seq<char>, bool))>
    decreases s.len(),
{
    if s.len() == 0 {
        seq![e]
    } else if lex_le(s.last().0, e.0) {
        s.push(e)
    } else {
        insert_by_key(s.drop_last(), e).push(s.last())
    }
}

/// `s` stably sorted by key.
pub open spec fn sort_by_key_spec(s: Seq<(Seq<char>, (Seq<char>, Seq<char>, bool))>) -> Seq<
    (Seq<char>, (Seq<char>, Seq<char>, bool)),
>
    decreases s.len(),
{
    if s.len() == 0 {
        Seq::empty()
    } else {
        insert_by_key(sort_by_key_spec(s.drop_last()), s.last())
    }
}

/// Entries paired with their keys.
pub open spec fn keyed(es: Seq<DirEntry>, keys: Seq<Seq<char>>) -> Seq<
    (Seq<char>, (Seq<char>, Seq<char>, bool)),
> {
    Seq::new(es.len(), |i: int| (keys[i], es[i]@))
}

/// The entries of a keyed sequence.
pub open spec fn unkeyed(s: Seq<(Seq<char>, (Seq<char>, Seq<char>, bool))>) -> Seq<
    (Seq<char>, Seq<char>, bool),
> {
    Seq::new(s.len(), |i: int| s[i].1)
}

proof fn lemma_insert_by_key_scan(
    s: Seq<(Seq<char>, (Seq<char>, Seq<char>, bool))>,
    e: (Seq<char>, (Seq<char>, Seq<char>, bool)),
    j: int,
)
    requires
        0 < j <= s.len(),
        !lex_le(s[j - 1].0, e.0),
    ensures
        insert_by_key(s.take(j), e) == insert_by_key(s.take(j - 1), e).push(s[j - 1]),
{
    assert(s.take(j).drop_last() =~= s.take(j - 1));
}

/// `entries` stably sorted by `keys` (one key per entry).
pub fn sort_by_keys(entries: Vec<DirEntry>, keys: Vec<String>) -> (r: Vec<DirEntry>)
    requires
        keys@.len() == entries@.len(),
    ensures
        entry_views(r@) == unkeyed(
            sort_by_key_spec(
                keyed(entries@, Seq::new(keys@.len(), |i: int| keys@[i]@)),
            ),
        ),
{
    let ghost ks = Seq::new(keys@.len(), |i: int| keys@[i]@);
    let ghost all = keyed(entries@, ks);
    let mut out: Vec<DirEntry> = Vec::new();
    let mut out_keys: Vec<Vec<char>> = Vec::new();
    let n = entries.len();
    for i in 0..n
        invariant
            n == entries@.len(),
            n == keys@.len(),
            ks == Seq::new(keys@.len(), |i: int| keys@[i]@),
            all == keyed(entries@, ks),
            out@.len() == out_keys@.len(),
            keyed(out@, Seq::new(out_keys@.len(), |k: int| out_keys@[k]@)) == sort_by_key_spec(
                all.take(i as int),
            ),
    {
        let ghost s = keyed(out@, Seq::new(out_keys@.len(), |k: int| out_keys@[k]@));
        let ghost ev = all[i as int];
        let key = chars_of(keys[i].as_str());
        proof {
            assert(all.take(i + 1).drop_last() =~= all.take(i as int));
            assert(all.take(i + 1).last() == ev);
            assert(key@ == ev.0);
        }
        let mut j = out.len();
        proof {
            assert(s.take(j as int) =~= s);
            assert(insert_by_key(s, ev) =~= insert_by_key(s.take(j as int), ev) + s.skip(
                j as int,
            ));
        }
        while j > 0 && !lex_le_chars(&out_keys[j - 1], &key)
            invariant
                j <= out@.len(),
                out@.len() == out_keys@.len(),
                s == keyed(out@, Seq::new(out_keys@.len(), |k: int| out_keys@[k]@)),
                key@ == ev.0,
                insert_by_key(s, ev) == insert_by_key(s.take(j as int), ev) + s.skip(j as int),
            decreases j,
        {
            proof {
                assert(s[j - 1].0 == out_keys@[j - 1]@);
                lemma_insert_by_key_scan(s, ev, j as int);
                assert(s.skip(j - 1) =~= seq![s[j - 1]] + s.skip(j as int));
                assert(insert_by_key(s.take(j - 1), ev).push(s[j - 1]) + s.skip(j as int)
                    =~= insert_by_key(s.take(j - 1), ev) + s.skip(j - 1));
            }
            j = j - 1;
        }
        proof {
            if j > 0 {
                assert(s.take(j as int).last() == s[j - 1]);
                assert(s[j - 1].0 == out_keys@[j - 1]@);
            } else {
                assert(s.take(0) =~= Seq::<(Seq<char>, (Seq<char>, Seq<char>, bool))>::empty());
            }
        }
        let e = DirEntry {
            name: entries[i].name.clone(),
            path: entries[i].path.clone(),
            is_dir: entries[i].is_dir,
        };
        out.insert(j, e);
        out_keys.insert(j, key);
        proof {
            assert(keyed(out@, Seq::new(out_keys@.len(), |k: int| out_keys@[k]@)) =~= s.take(
                j as int,
            ).push(ev) + s.skip(j as int));
            assert(insert_by_key(s, ev) =~= s.take(j as int).push(ev) + s.skip(j as int));
        }
    }
    proof {
        assert(all.take(n as int) =~= all);
        assert(entry_views(out@) =~= unkeyed(sort_by_key_spec(all)));
    }
    out
}


// -- Listing ----------------------------------------------------------------------

/// The directories of a listing, in listing order.
pub open spec fn dirs_of(l: Seq<(Seq<char>, Seq<char>, bool)>) -> Seq<(Seq<char>, Seq<char>, bool)>
    decreases l.len(),
{
    if l.len() == 0 {
        Seq::empty()
    } else if l.last().2 {
        dirs_of(l.drop_last()).push(l.last())
    } else {
        dirs_of(l.drop_last())
    }
}

/// The audio files of a listing, in listing order; other files are hidden.
pub open spec fn audio_files_of(l: Seq<(Seq<char>, Seq<char>, bool)>) -> Seq<
    (Seq<char>, Seq<char>, bool),
>
    decreases l.len(),
{
    if l.len() == 0 {
        Seq::empty()
    } else if !l.last().2 && is_audio_spec(l.last().1) {
        audio_files_of(l.drop_last()).push(l.last())
    } else {
        audio_files_of(l.drop_last())
    }
}

/// Entries keyed by their lowercased names.
pub open spec fn by_lower_name(l: Seq<(Seq<char>, Seq<char>, bool)>) -> Seq<
    (Seq<char>, (Seq<char>, Seq<char>, bool)),
> {
    Seq::new(l.len(), |i: int| (lowercase(l[i].0), l[i]))
}

/// Entries sorted by lowercased name, ties in listing order.
pub open spec fn sorted_by_name(l: Seq<(Seq<char>, Seq<char>, bool)>) -> Seq<
    (Seq<char>, Seq<char>, bool),
> {
    unkeyed(sort_by_key_spec(by_lower_name(l)))
}

/// The `..` row leading to the parent of `dir`, when it has one.
pub open spec fn parent_row(dir: Seq<char>) -> Seq<(Seq<char>, Seq<char>, bool)> {
    match parent_spec(dir) {
        Some(p) => seq![(seq!['.', '.'], p, true)],
        None => Seq::empty(),
    }
}

/// What the picker lists for `dir` given what reading it returned (`None`
/// when it could not be read): the `..` row, then the directories, then the
/// audio files, each group sorted by lowercased name.
pub open spec fn listing_spec(dir: Seq<char>, read: Option<Seq<(Seq<char>, Seq<char>, bool)>>) -> Seq<
    (Seq<char>, Seq<char>, bool),
> {
    match read {
        None => parent_row(dir),
        Some(l) => parent_row(dir) + sorted_by_name(dirs_of(l)) + sorted_by_name(
            audio_files_of(l),
        ),
    }
}

/// The directory browser used to import tracks.
pub struct FilePicker {
    pub current_dir: String,
    pub entries: Vec<DirEntry>,
    pub cursor: usize,
}

/// What a key press in the picker amounts to.
pub enum FilePickerOutcome {
    Continue,
    /// The picker moved into a directory; list it and hand the listing to
    /// [`FilePicker::refresh`].
    Entered,
    Selected(String),
    Dismissed,
}

/// A copy of `e`.
fn copy_entry(e: &DirEntry) -> (r: DirEntry)
    ensures
        r@ == e@,
{
    DirEntry { name: e.name.clone(), path: e.path.clone(), is_dir: e.is_dir }
}

impl FilePicker {
    /// The cursor is on an entry, or at 0 when there are none.
    pub open spec fn wf(&self) -> bool {
        self.cursor < self.entries@.len() || self.cursor == 0
    }

    /// A picker at `start_dir`, not listed yet.
    pub fn new(start_dir: &str) -> (r: Self)
        ensures
            r.current_dir@ == start_dir@,
            r.entries@.len() == 0,
            r.cursor == 0,
            r.wf(),
    {
        FilePicker { current_dir: start_dir.to_owned(), entries: Vec::new(), cursor: 0 }
    }

    /// Lists the current directory from `read`, what reading it returned
    /// (`None` when it could not be read), and puts the cursor on top.
    pub fn refresh(&mut self, read: Option<Vec<DirEntry>>)
        ensures
            final(self).current_dir == old(self).current_dir,
            final(self).cursor == 0,
            final(self).wf(),
            entry_views(final(self).entries@) == listing_spec(
                old(self).current_dir@,
                match read {
                    Some(l) => Some(entry_views(l@)),
                    None => None,
                },
            ),
    {
        self.entries = Vec::new();
        self.cursor = 0;
        match parent_of(self.current_dir.as_str()) {
            Some(parent) => {
                let mut dots = String::new();
                crate::text::push_char(&mut dots, '.');
                crate::text::push_char(&mut dots, '.');
                self.entries.push(DirEntry { name: dots, path: parent, is_dir: true });
                proof {
                    assert(dots@ =~= seq!['.', '.']);
                    assert(entry_views(self.entries@) =~= parent_row(self.current_dir@));
                }
            },
            None => {
                proof {
                    assert(entry_views(self.entries@) =~= parent_row(self.current_dir@));
                }
            },
        }
        let read = match read {
            Some(r) => r,
            None => {
                return ;
            },
        };
        let ghost lv = entry_views(read@);
        let mut dirs: Vec<DirEntry> = Vec::new();
        let mut dir_keys: Vec<String> = Vec::new();
        let mut files: Vec<DirEntry> = Vec::new();
        let mut file_keys: Vec<String> = Vec::new();
        for i in 0..read.len()
            invariant
                lv == entry_views(read@),
                entry_views(dirs@) == dirs_of(lv.take(i as int)),
                entry_views(files@) == audio_files_of(lv.take(i as int)),
                dir_keys@.len() == dirs@.len(),
                file_keys@.len() == files@.len(),
                forall|k: int| 0 <= k < dirs@.len() ==> #[trigger] dir_keys@[k]@ == lowercase(dirs@[k].name@),
                forall|k: int| 0 <= k < files@.len() ==> #[trigger] file_keys@[k]@ == lowercase(files@[k].name@),
        {
            proof {
                assert(lv.take(i + 1).drop_last() =~= lv.take(i as int));
                assert(lv.take(i + 1).last() == read@[i as int]@);
            }
            let e = copy_entry(&read[i]);
            if e.is_dir {
                let ghost d0 = dirs@;
                dir_keys.push(to_lowercase(e.name.as_str()));
                dirs.push(e);
                proof {
                    assert(entry_views(dirs@) =~= entry_views(d0).push(read@[i as int]@));
                }
            } else if is_audio(e.path.as_str()) {
                let ghost f0 = files@;
                file_keys.push(to_lowercase(e.name.as_str()));
                files.push(e);
                proof {
                    assert(entry_views(files@) =~= entry_views(f0).push(read@[i as int]@));
                }
            }
        }
        proof {
            assert(lv.take(read@.len() as int) =~= lv);
            assert(keyed(dirs@, Seq::new(dir_keys@.len(), |k: int| dir_keys@[k]@)) =~= by_lower_name(
                entry_views(dirs@),
            ));
            assert(keyed(files@, Seq::new(file_keys@.len(), |k: int| file_keys@[k]@))
                =~= by_lower_name(entry_views(files@)));
        }
        let ghost head = entry_views(self.entries@);
        let mut dirs = sort_by_keys(dirs, dir_keys);
        let mut files = sort_by_keys(files, file_keys);
        let ghost ds = entry_views(dirs@);
        let ghost fs = entry_views(files@);
        self.entries.append(&mut dirs);
        self.entries.append(&mut files);
        proof {
            assert(entry_views(self.entries@) =~= head + ds + fs);
        }
    }

    /// The entry under the cursor.
    pub fn selected(&self) -> (r: Option<&DirEntry>)
        ensures
            match r {
                Some(e) => self.cursor < self.entries@.len() && *e == self.entries@[self.cursor as int],
                None => self.cursor >= self.entries@.len(),
            },
    {
        if self.cursor < self.entries.len() {
            Some(&self.entries[self.cursor])
        } else {
            None
        }
    }

    /// Moves into the directory under the cursor, if it is one; the caller
    /// then lists it with [`FilePicker::refresh`].
    pub fn enter_dir(&mut self) -> (r: bool)
        ensures
            r == (old(self).cursor < old(self).entries@.len() && old(self).entries@[old(
                self,
            ).cursor as int].is_dir),
            r ==> final(self).current_dir@ == old(self).entries@[old(self).cursor as int].path@
                && final(self).entries == old(self).entries && final(self).cursor == old(
                self,
            ).cursor,
            !r ==> *final(self) == *old(self),
    {
        if self.cursor < self.entries.len() && self.entries[self.cursor].is_dir {
            self.current_dir = self.entries[self.cursor].path.clone();
            return true;
        }
        false
    }

    /// Answers a key: navigation keys move the cursor, Enter opens a
    /// directory or selects a file, Esc and `q` close.
    pub fn handle_key(&mut self, code: KeyCode) -> (r: FilePickerOutcome)
        requires
            old(self).wf(),
            old(self).cursor + PAGE <= usize::MAX,
        ensures
            final(self).wf(),
            picker_key_rel(*old(self), *final(self), code, r),
    {
        match list_move(code, self.cursor, self.entries.len()) {
            Some(n) => {
                self.cursor = n;
                FilePickerOutcome::Continue
            },
            None => match code {
                KeyCode::Enter => {
                    if self.cursor < self.entries.len() {
                        if self.entries[self.cursor].is_dir {
                            self.enter_dir();
                            FilePickerOutcome::Entered
                        } else {
                            FilePickerOutcome::Selected(self.entries[self.cursor].path.clone())
                        }
                    } else {
                        FilePickerOutcome::Continue
                    }
                },
                KeyCode::Esc | KeyCode::Char('q') => FilePickerOutcome::Dismissed,
                _ => FilePickerOutcome::Continue,
            },
        }
    }
}


/// What a key does to the picker `pre`, leaving `post` and answering `r`:
/// navigation keys move the cursor, Enter opens a directory or selects a
/// file, Esc and `q` close.
pub open spec fn picker_key_rel(pre: FilePicker, post: FilePicker, code: KeyCode, r: FilePickerOutcome) -> bool {
    &&& post.entries == pre.entries
    &&& match list_move_spec(code, pre.cursor as int, pre.entries@.len() as int) {
        Some(t) => post.cursor == t && post.current_dir == pre.current_dir && r is Continue,
        None => post.cursor == pre.cursor && if code == KeyCode::Enter
            && pre.cursor < pre.entries@.len() {
            let e = pre.entries@[pre.cursor as int];
            if e.is_dir {
                post.current_dir@ == e.path@ && r is Entered
            } else {
                post.current_dir == pre.current_dir && (r matches FilePickerOutcome::Selected(
                    p,
                ) && p@ == e.path@)
            }
        } else {
            post.current_dir == pre.current_dir && if code
                == KeyCode::Esc || code == KeyCode::Char('q') {
                r is Dismissed
            } else {
                r is Continue
            }
        },
    }
}

/// Keys in the file picker: Enter on a directory opens it, Enter on a file
/// picks that file's path, Esc and `q` close the picker, and `j` / `k`
/// move one row; the listing itself never changes.
pub proof fn lemma_picker_keys(pre: FilePicker, post: FilePicker, code: KeyCode, r: FilePickerOutcome)
    requires
        picker_key_rel(pre, post, code, r),
    ensures
        post.entries == pre.entries,
        code == KeyCode::Enter && pre.cursor < pre.entries@.len() && pre.entries@[pre.cursor as int].is_dir
            ==> post.current_dir@ == pre.entries@[pre.cursor as int].path@ && r is Entered,
        code == KeyCode::Enter && pre.cursor < pre.entries@.len() && !pre.entries@[pre.cursor as int].is_dir
            ==> post.current_dir == pre.current_dir && r is Selected && r->Selected_0@
            == pre.entries@[pre.cursor as int].path@,
        code == KeyCode::Esc || code == KeyCode::Char('q') ==> r is Dismissed && post.cursor == pre.cursor,
        code == KeyCode::Char('j') && pre.cursor + 1 < pre.entries@.len() ==> post.cursor == pre.cursor + 1,
        code == KeyCode::Char('k') && pre.cursor >= 1 ==> post.cursor == pre.cursor - 1,
{
}

} // verus!
