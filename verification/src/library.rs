//! The library: registered tracks, user playlists, and the on-disk index
//! that lists them by filename.
//!
//! Reading and writing files (the index, the audio files' tags, the music
//! directory) is the caller's: the library computes what to write and takes
//! what was read.
use vstd::prelude::*;

use rustc_hash::{FxHashMap, FxHashSet};

use crate::filepicker::{file_name_of, file_name_spec, file_stem_of, file_stem_spec, lex_le, lex_le_chars};
use crate::text::{chars_of, push_char, string_of};

verus! {

/// The hasher behind the id index.
#[verifier::external_type_specification]
#[verifier::external_body]
pub struct ExFxBuildHasher(rustc_hash::FxBuildHasher);

/// `HashMap::insert` on the id index: afterwards `k` maps to `v` and every
/// other key is as before.
#[verifier::external_body]
fn index_insert(m: &mut FxHashMap<u64, usize>, k: u64, v: usize)
    ensures
        final(m)@ == old(m)@.insert(k, v),
{
    m.insert(k, v);
}

/// `HashMap::get` on the id index: the value `k` maps to, if any.
#[verifier::external_body]
fn index_get(m: &FxHashMap<u64, usize>, k: u64) -> (r: Option<usize>)
    ensures
        match r {
            Some(v) => m@.contains_key(k) && m@[k] == v,
            None => !m@.contains_key(k),
        },
{
    m.get(&k).copied()
}

/// `HashSet::insert` on a set of ids: afterwards `k` is in the set and
/// nothing else changed; the result says whether `k` was not there before.
#[verifier::external_body]
fn id_set_insert(s: &mut FxHashSet<u64>, k: u64) -> (r: bool)
    ensures
        final(s)@ == old(s)@.insert(k),
        r == !old(s)@.contains(k),
{
    s.insert(k)
}

/// The names a set of names holds, each by its characters (two `String`s
/// are equal exactly when their characters are).
pub uninterp spec fn name_set(s: FxHashSet<String>) -> Set<Seq<char>>;

/// A new, empty `FxHashSet` of names.
#[verifier::external_body]
fn name_set_new() -> (r: FxHashSet<String>)
    ensures
        name_set(r) == Set::<Seq<char>>::empty(),
{
    FxHashSet::default()
}

/// `HashSet::insert` on a set of names: afterwards `k` is in the set and
/// nothing else changed; the result says whether `k` was not there before.
#[verifier::external_body]
fn name_set_insert(s: &mut FxHashSet<String>, k: String) -> (r: bool)
    ensures
        name_set(*final(s)) == name_set(*old(s)).insert(k@),
        r == !name_set(*old(s)).contains(k@),
{
    s.insert(k)
}

/// `HashSet::contains` on a set of names.
#[verifier::external_body]
fn name_set_contains(s: &FxHashSet<String>, k: &String) -> (r: bool)
    ensures
        r == name_set(*s).contains(k@),
{
    s.contains(k)
}

/// The ids a map from names to ids holds, each name by its characters.
pub uninterp spec fn name_ids(m: FxHashMap<String, u64>) -> Map<Seq<char>, u64>;

/// A new, empty `FxHashMap` from names to ids.
#[verifier::external_body]
fn name_ids_new() -> (r: FxHashMap<String, u64>)
    ensures
        name_ids(r).dom() == Set::<Seq<char>>::empty(),
{
    FxHashMap::default()
}

/// `HashMap::insert` on a map from names to ids: afterwards `k` maps to
/// `v` and every other name is as before.
#[verifier::external_body]
fn name_ids_insert(m: &mut FxHashMap<String, u64>, k: String, v: u64)
    ensures
        name_ids(*final(m)) == name_ids(*old(m)).insert(k@, v),
{
    m.insert(k, v);
}

/// `HashMap::get` on a map from names to ids: the id `k` maps to, if any.
#[verifier::external_body]
fn name_ids_get(m: &FxHashMap<String, u64>, k: &String) -> (r: Option<u64>)
    ensures
        match r {
            Some(v) => name_ids(*m).contains_key(k@) && name_ids(*m)[k@] == v,
            None => !name_ids(*m).contains_key(k@),
        },
{
    m.get(k).copied()
}

/// The paths a map from names to paths holds, names and paths by their
/// characters.
pub uninterp spec fn name_paths(m: FxHashMap<String, String>) -> Map<Seq<char>, Seq<char>>;

/// A new, empty `FxHashMap` from names to paths.
#[verifier::external_body]
fn name_paths_new() -> (r: FxHashMap<String, String>)
    ensures
        name_paths(r).dom() == Set::<Seq<char>>::empty(),
{
    FxHashMap::default()
}

/// `HashMap::insert` on a map from names to paths: afterwards `k` maps to
/// `v` and every other name is as before.
#[verifier::external_body]
fn name_paths_insert(m: &mut FxHashMap<String, String>, k: String, v: String)
    ensures
        name_paths(*final(m)) == name_paths(*old(m)).insert(k@, v@),
{
    m.insert(k, v);
}

/// `HashMap::contains_key` on a map from names to paths.
#[verifier::external_body]
fn name_paths_contains(m: &FxHashMap<String, String>, k: &String) -> (r: bool)
    ensures
        r == name_paths(*m).dom().contains(k@),
{
    m.contains_key(k)
}

/// `HashMap::get` on a map from names to paths: a copy of the path `k`
/// maps to, if any.
#[verifier::external_body]
fn name_paths_get(m: &FxHashMap<String, String>, k: &String) -> (r: Option<String>)
    ensures
        match r {
            Some(v) => name_paths(*m).dom().contains(k@) && v@ == name_paths(*m)[k@],
            None => !name_paths(*m).dom().contains(k@),
        },
{
    m.get(k).cloned()
}

// -- Track ------------------------------------------------------------------

/// A single audio file registered in the library.
///
/// On disk a track is just its filename; the `id` is an in-memory handle
/// assigned at load, and the metadata comes from the file's own tags.
#[derive(Debug, Clone)]
pub struct Track {
    pub id: u64,
    /// Path to the audio file, inside the music directory.
    pub path: String,
    /// Display name: title tag if present, otherwise the filename stem.
    pub name: String,
    pub artist: Option<String>,
    pub album: Option<String>,
    /// Raw LRC text or plain lyrics.
    pub lyrics: Option<String>,
    /// Track length in seconds, from the file's headers.
    pub duration_secs: Option<u64>,
}

/// What a file's tags hold, as read from it.
#[derive(Debug, Clone)]
pub struct FileTags {
    pub title: Option<String>,
    pub artist: Option<String>,
    pub album: Option<String>,
    pub lyrics: Option<String>,
    pub duration_secs: Option<u64>,
}

/// A copy of `o`.
pub fn clone_opt(o: &Option<String>) -> (r: Option<String>)
    ensures
        r == *o,
{
    match o {
        Some(s) => Some(s.clone()),
        None => None,
    }
}

/// The display name a file's tags give it: the title, else the filename
/// stem, else `Unknown`.
pub open spec fn tagged_name(path: Seq<char>, tags: Option<FileTags>) -> Seq<char> {
    match tags {
        Some(t) if t.title is Some => t.title->0@,
        _ => match file_stem_spec(path) {
            Some(s) => s,
            None => "Unknown"@,
        },
    }
}

/// What the tags say, or nothing at all when they could not be read.
pub open spec fn or_blank(tags: Option<FileTags>) -> FileTags {
    match tags {
        Some(t) => t,
        None => FileTags { title: None, artist: None, album: None, lyrics: None, duration_secs: None },
    }
}

/// `s` when it is set and not empty.
pub open spec fn nonempty_artist(a: Option<String>) -> Option<Seq<char>> {
    match a {
        Some(s) if s@.len() > 0 => Some(s@),
        _ => None,
    }
}

impl Track {
    /// A track known only by id and path; its metadata is empty until its
    /// tags are applied.
    pub fn at(id: u64, path: String) -> (r: Self)
        ensures
            r.id == id,
            r.path == path,
            r.name@ == Seq::<char>::empty(),
            r.artist is None,
            r.album is None,
            r.lyrics is None,
            r.duration_secs is None,
    {
        Track {
            id,
            path,
            name: String::new(),
            artist: None,
            album: None,
            lyrics: None,
            duration_secs: None,
        }
    }

    /// Replaces the metadata fields from the file's tags (`None` when they
    /// could not be read), falling back to the filename stem for the name.
    pub fn apply_tags(&mut self, tags: &Option<FileTags>)
        ensures
            final(self).id == old(self).id,
            final(self).path == old(self).path,
            final(self).name@ == tagged_name(old(self).path@, *tags),
            final(self).artist == (match *tags {
                Some(t) => t.artist,
                None => None,
            }),
            final(self).album == (match *tags {
                Some(t) => t.album,
                None => None,
            }),
            final(self).lyrics == (match *tags {
                Some(t) => t.lyrics,
                None => None,
            }),
            final(self).duration_secs == (match *tags {
                Some(t) => t.duration_secs,
                None => None,
            }),
    {
        let title = match tags {
            Some(t) => clone_opt(&t.title),
            None => None,
        };
        self.name = match title {
            Some(n) => n,
            None => match file_stem_of(self.path.as_str()) {
                Some(s) => s,
                None => {
                    proof {
                        reveal_strlit("Unknown");
                    }
                    "Unknown".to_owned()
                },
            },
        };
        match tags {
            Some(t) => {
                self.artist = clone_opt(&t.artist);
                self.album = clone_opt(&t.album);
                self.lyrics = clone_opt(&t.lyrics);
                self.duration_secs = t.duration_secs;
            },
            None => {
                self.artist = None;
                self.album = None;
                self.lyrics = None;
                self.duration_secs = None;
            },
        }
    }

    /// The track's on-disk identity: its filename within the music directory.
    pub open spec fn filename_spec(&self) -> Seq<char> {
        match file_name_spec(self.path@) {
            Some(n) => n,
            None => self.path@,
        }
    }

    /// The track's on-disk identity: its filename within the music directory.
    pub fn filename(&self) -> (r: String)
        ensures
            r@ == self.filename_spec(),
    {
        match file_name_of(self.path.as_str()) {
            Some(n) => n,
            None => self.path.clone(),
        }
    }

    /// `"{artist} - {name}"` when an artist is set, otherwise the name.
    pub open spec fn display_spec(&self) -> Seq<char> {
        match nonempty_artist(self.artist) {
            Some(a) => a + " - "@ + self.name@,
            None => self.name@,
        }
    }

    /// Returns `"{artist} - {name}"` when an artist is set, otherwise `"{name}"`.
    pub fn display(&self) -> (r: String)
        ensures
            r@ == self.display_spec(),
    {
        match &self.artist {
            Some(a) => {
                let av = chars_of(a.as_str());
                if av.len() > 0 {
                    let mut out = a.clone();
                    push_char(&mut out, ' ');
                    push_char(&mut out, '-');
                    push_char(&mut out, ' ');
                    let nv = chars_of(self.name.as_str());
                    let ghost mid = out@;
                    for i in 0..nv.len()
                        invariant
                            out@ == mid + nv@.take(i as int),
                    {
                        push_char(&mut out, nv[i]);
                        proof {
                            assert(mid + nv@.take(i + 1) =~= (mid + nv@.take(i as int)).push(
                                nv@[i as int],
                            ));
                        }
                    }
                    proof {
                        reveal_strlit(" - ");
                        assert(nv@.take(nv.len() as int) =~= nv@);
                        assert(out@ =~= a@ + " - "@ + self.name@);
                    }
                    out
                } else {
                    self.name.clone()
                }
            },
            None => self.name.clone(),
        }
    }
}

/// A copy of `t`.
pub fn copy_track(t: &Track) -> (r: Track)
    ensures
        r == *t,
{
    Track {
        id: t.id,
        path: t.path.clone(),
        name: t.name.clone(),
        artist: clone_opt(&t.artist),
        album: clone_opt(&t.album),
        lyrics: clone_opt(&t.lyrics),
        duration_secs: t.duration_secs,
    }
}

// -- Moving items ----------------------------------------------------------------

/// The index one step from `index` in the given direction, or `None` at the
/// end: a refused move must leave the cursor where it is, not clamp to itself.
pub open spec fn neighbour_spec(index: int, down: bool, len: int) -> Option<int> {
    if down {
        if index + 1 < len {
            Some(index + 1)
        } else {
            None
        }
    } else if index >= 1 {
        Some(index - 1)
    } else {
        None
    }
}

/// The index one step from `index` in the given direction, or `None` at the
/// end.
pub fn neighbour(index: usize, down: bool, len: usize) -> (r: Option<usize>)
    ensures
        match r {
            Some(t) => neighbour_spec(index as int, down, len as int) == Some(t as int),
            None => neighbour_spec(index as int, down, len as int) is None,
        },
{
    if down {
        if index < usize::MAX && index + 1 < len {
            Some(index + 1)
        } else {
            None
        }
    } else if index >= 1 {
        Some(index - 1)
    } else {
        None
    }
}

/// A move of the item at `index` stays inside the list: the list's own swap
/// would panic otherwise.
pub open spec fn move_ok(index: int, down: bool, len: int) -> bool {
    down || index == 0 || index < len
}

/// `s` with the items at `i` and `j` exchanged.
pub open spec fn swapped<A>(s: Seq<A>, i: int, j: int) -> Seq<A> {
    s.update(i, s[j]).update(j, s[i])
}

/// Moving an item one step and then back one step restores the list and
/// returns to where it started.
pub proof fn lemma_move_round_trip<A>(s: Seq<A>, index: int, down: bool)
    requires
        0 <= index < s.len(),
        neighbour_spec(index, down, s.len() as int) is Some,
    ensures
        neighbour_spec(neighbour_spec(index, down, s.len() as int)->0, !down, s.len() as int)
            == Some(index),
        swapped(
            swapped(s, index, neighbour_spec(index, down, s.len() as int)->0),
            neighbour_spec(index, down, s.len() as int)->0,
            index,
        ) == s,
{
    let t = neighbour_spec(index, down, s.len() as int)->0;
    assert(swapped(swapped(s, index, t), t, index) =~= s);
}

/// Moving the item at `index` down puts it one place further down and the
/// item that was there one place up, leaving every other item in place;
/// moving up does the same the other way.  The last item cannot move down
/// and the first cannot move up.
pub proof fn lemma_move_one_place<A>(s: Seq<A>, index: int)
    requires
        0 <= index < s.len(),
    ensures
        index + 1 < s.len() ==> neighbour_spec(index, true, s.len() as int) == Some(index + 1) && ({
            let t = swapped(s, index, index + 1);
            &&& t.len() == s.len()
            &&& t[index + 1] == s[index]
            &&& t[index] == s[index + 1]
            &&& forall|k: int| 0 <= k < s.len() && k != index && k != index + 1 ==> #[trigger] t[k] == s[k]
        }),
        index >= 1 ==> neighbour_spec(index, false, s.len() as int) == Some(index - 1) && ({
            let t = swapped(s, index, index - 1);
            &&& t.len() == s.len()
            &&& t[index - 1] == s[index]
            &&& t[index] == s[index - 1]
            &&& forall|k: int| 0 <= k < s.len() && k != index && k != index - 1 ==> #[trigger] t[k] == s[k]
        }),
        index == s.len() - 1 ==> neighbour_spec(index, true, s.len() as int) is None,
        index == 0 ==> neighbour_spec(index, false, s.len() as int) is None,
{
}

// -- Playlist ---------------------------------------------------------------

/// A user-created, named, ordered collection of tracks.
#[derive(Debug, Clone)]
pub struct Playlist {
    pub id: u64,
    pub name: String,
    /// Ordered track ids.
    pub tracks: Vec<u64>,
}

impl Playlist {
    /// An empty playlist.
    pub fn new(id: u64, name: String) -> (r: Self)
        ensures
            r.id == id,
            r.name == name,
            r.tracks@.len() == 0,
    {
        Playlist { id, name, tracks: Vec::new() }
    }
}

/// No id occurs twice in `s`.
pub open spec fn no_dups(s: Seq<u64>) -> bool {
    forall|i: int, j: int| 0 <= i < j < s.len() ==> s[i] != s[j]
}

/// `s` without any `x`.
pub open spec fn without(s: Seq<u64>, x: u64) -> Seq<u64>
    decreases s.len(),
{
    if s.len() == 0 {
        Seq::empty()
    } else if s.last() == x {
        without(s.drop_last(), x)
    } else {
        without(s.drop_last(), x).push(s.last())
    }
}

proof fn lemma_without_absent(s: Seq<u64>, x: u64)
    requires
        !s.contains(x),
    ensures
        without(s, x) == s,
    decreases s.len(),
{
    if s.len() > 0 {
        let d = s.drop_last();
        assert(!d.contains(x)) by {
            if d.contains(x) {
                let k = choose|k: int| 0 <= k < d.len() && d[k] == x;
                assert(s[k] == x);
            }
        }
        assert(s.last() != x) by {
            assert(s[s.len() - 1] == s.last());
        }
        lemma_without_absent(d, x);
        assert(d.push(s.last()) =~= s);
    }
}

/// Taking a track out of a playlist, where it stands once at position `k`,
/// removes exactly that entry: the entries before it keep their places and
/// the ones after it move up one, in the same order.
pub proof fn lemma_without_entry(s: Seq<u64>, x: u64, k: int)
    requires
        no_dups(s),
        0 <= k < s.len(),
        s[k] == x,
    ensures
        without(s, x) == s.remove(k),
    decreases s.len(),
{
    let d = s.drop_last();
    if k == s.len() - 1 {
        assert(!d.contains(x)) by {
            if d.contains(x) {
                let j = choose|j: int| 0 <= j < d.len() && d[j] == x;
                assert(s[j] == s[k]);
            }
        }
        lemma_without_absent(d, x);
        assert(s.remove(k) =~= d);
    } else {
        assert(no_dups(d)) by {
            assert forall|a: int, b: int| 0 <= a < b < d.len() implies d[a] != d[b] by {
                assert(s[a] != s[b]);
            }
        }
        assert(d[k] == x);
        lemma_without_entry(d, x, k);
        assert(s.last() != x) by {
            assert(s[s.len() - 1] != s[k]);
        }
        assert(s.remove(k) =~= d.remove(k).push(s.last()));
    }
}

proof fn lemma_without(s: Seq<u64>, x: u64)
    ensures
        !without(s, x).contains(x),
        forall|y: u64| y != x ==> (without(s, x).contains(y) <==> s.contains(y)),
        no_dups(s) ==> no_dups(without(s, x)),
        without(s, x).len() <= s.len(),
        !s.contains(x) ==> without(s, x) == s,
    decreases s.len(),
{
    broadcast use vstd::seq_lib::group_seq_properties;
    if s.len() > 0 {
        let d = s.drop_last();
        lemma_without(d, x);
        assert(s =~= d.push(s.last()));
        assert forall|y: u64| y != x implies (without(s, x).contains(y) <==> s.contains(y)) by {
            assert(s.contains(y) <==> (d.contains(y) || s.last() == y));
            if s.last() != x {
                let w = without(d, x);
                assert(w.push(s.last()).contains(y) <==> (w.contains(y) || s.last() == y));
            }
        }
        if no_dups(s) {
            assert(no_dups(d));
            if s.last() != x {
                assert(!d.contains(s.last()));
                assert(!without(d, x).contains(s.last()));
            }
        }
        if !s.contains(x) {
            assert(!d.contains(x)) by {
                if d.contains(x) {
                    let k = choose|k: int| 0 <= k < d.len() && d[k] == x;
                    assert(s[k] == x);
                }
            }
            assert(s.last() != x) by {
                assert(s[s.len() - 1] == s.last());
            }
        }
        if without(s, x).contains(x) {
            let k = choose|k: int| 0 <= k < without(s, x).len() && without(s, x)[k] == x;
            if s.last() != x && k < without(d, x).len() {
                assert(without(d, x)[k] == x);
            }
        }
    }
}

/// `v` without any `x`.
fn remove_all(v: &Vec<u64>, x: u64) -> (r: Vec<u64>)
    ensures
        r@ == without(v@, x),
{
    let mut r: Vec<u64> = Vec::new();
    for i in 0..v.len()
        invariant
            r@ == without(v@.take(i as int), x),
    {
        proof {
            assert(v@.take(i + 1).drop_last() =~= v@.take(i as int));
            assert(v@.take(i + 1).last() == v@[i as int]);
        }
        if v[i] != x {
            r.push(v[i]);
        }
    }
    proof {
        assert(v@.take(v.len() as int) =~= v@);
    }
    r
}


// -- Lookups ---------------------------------------------------------------------

/// First position of `id` in `ids`, or `ids.len()` when it is absent.
pub open spec fn first_pos(ids: Seq<u64>, id: u64) -> int
    decreases ids.len(),
{
    if ids.len() == 0 {
        0
    } else if ids[0] == id {
        0
    } else {
        1 + first_pos(ids.drop_first(), id)
    }
}

pub proof fn lemma_first_pos(ids: Seq<u64>, id: u64)
    ensures
        0 <= first_pos(ids, id) <= ids.len(),
        first_pos(ids, id) < ids.len() ==> ids[first_pos(ids, id)] == id,
        forall|i: int| 0 <= i < first_pos(ids, id) ==> ids[i] != id,
        first_pos(ids, id) < ids.len() <==> ids.contains(id),
    decreases ids.len(),
{
    if ids.len() > 0 && ids[0] != id {
        lemma_first_pos(ids.drop_first(), id);
        assert forall|i: int| 0 <= i < first_pos(ids, id) implies ids[i] != id by {
            if i > 0 {
                assert(ids[i] == ids.drop_first()[i - 1]);
            }
        }
        if ids.contains(id) {
            let k = choose|k: int| 0 <= k < ids.len() && ids[k] == id;
            assert(ids.drop_first()[k - 1] == id);
        }
        if first_pos(ids, id) < ids.len() {
            assert(ids[first_pos(ids, id)] == ids.drop_first()[first_pos(ids.drop_first(), id)]);
        }
    }
}

/// When ids are distinct, the position holding `id` is its first.
pub proof fn lemma_first_pos_unique(ids: Seq<u64>, id: u64, i: int)
    requires
        no_dups(ids),
        0 <= i < ids.len(),
        ids[i] == id,
    ensures
        first_pos(ids, id) == i,
{
    lemma_first_pos(ids, id);
    assert(ids.contains(id));
}

/// The ids of `ts`, in order.
pub open spec fn track_ids(ts: Seq<Track>) -> Seq<u64> {
    Seq::new(ts.len(), |i: int| ts[i].id)
}

/// The ids of `ps`, in order.
pub open spec fn playlist_ids(ps: Seq<Playlist>) -> Seq<u64> {
    Seq::new(ps.len(), |i: int| ps[i].id)
}

/// Position of the first track with `id` in `v`, or `v.len()`.
fn track_position(v: &Vec<Track>, id: u64) -> (r: usize)
    ensures
        r == first_pos(track_ids(v@), id),
{
    let mut i: usize = 0;
    while i < v.len() && v[i].id != id
        invariant
            i <= v.len(),
            forall|j: int| 0 <= j < i ==> v@[j].id != id,
        decreases v.len() - i,
    {
        i = i + 1;
    }
    proof {
        let ids = track_ids(v@);
        lemma_first_pos(ids, id);
        let f = first_pos(ids, id);
        if f < i {
            assert(ids[f] == v@[f].id);
        }
        if i < f {
            assert(ids[i as int] == v@[i as int].id);
        }
    }
    i
}

/// Position of the first playlist with `id` in `v`, or `v.len()`.
fn playlist_position(v: &Vec<Playlist>, id: u64) -> (r: usize)
    ensures
        r == first_pos(playlist_ids(v@), id),
{
    let mut i: usize = 0;
    while i < v.len() && v[i].id != id
        invariant
            i <= v.len(),
            forall|j: int| 0 <= j < i ==> v@[j].id != id,
        decreases v.len() - i,
    {
        i = i + 1;
    }
    proof {
        let ids = playlist_ids(v@);
        lemma_first_pos(ids, id);
        let f = first_pos(ids, id);
        if f < i {
            assert(ids[f] == v@[f].id);
        }
        if i < f {
            assert(ids[i as int] == v@[i as int].id);
        }
    }
    i
}

/// Whether `v` holds `x`.
fn contains_id(v: &Vec<u64>, x: u64) -> (r: bool)
    ensures
        r == v@.contains(x),
{
    let mut i: usize = 0;
    while i < v.len()
        invariant
            i <= v.len(),
            forall|j: int| 0 <= j < i ==> v@[j] != x,
        decreases v.len() - i,
    {
        if v[i] == x {
            proof {
                assert(v@[i as int] == x);
            }
            return true;
        }
        i = i + 1;
    }
    false
}

// -- Library ----------------------------------------------------------------------

/// Top-level state: a registry of tracks plus the user's playlists.
///
/// Invariants: track ids are distinct and below the next id to hand out,
/// likewise playlist ids; no playlist lists a track twice; and the id index
/// maps every track's id to its position.  `tracks` is public for iteration
/// only: adding or removing goes through this type's methods.
pub struct Library {
    /// All registered tracks, in display order.
    pub tracks: Vec<Track>,
    /// All user-created playlists, in sidebar order.
    pub playlists: Vec<Playlist>,
    /// The id the next registered track gets; ids are never reused.
    pub next_track_id: u64,
    /// The id the next created playlist gets; ids are never reused.
    pub next_playlist_id: u64,
    /// Track id -> position in `tracks`, kept in step by this type's methods.
    pub by_id: FxHashMap<u64, usize>,
}

/// `ps` without the playlists whose id is `id`.
pub open spec fn without_playlist(ps: Seq<Playlist>, id: u64) -> Seq<Playlist>
    decreases ps.len(),
{
    if ps.len() == 0 {
        Seq::empty()
    } else if ps.last().id == id {
        without_playlist(ps.drop_last(), id)
    } else {
        without_playlist(ps.drop_last(), id).push(ps.last())
    }
}

impl Library {
    /// The invariants listed on the type.
    pub open spec fn wf(&self) -> bool {
        &&& no_dups(track_ids(self.tracks@))
        &&& forall|i: int| 0 <= i < self.tracks@.len() ==> #[trigger] self.tracks@[i].id < self.next_track_id
        &&& no_dups(playlist_ids(self.playlists@))
        &&& forall|i: int| 0 <= i < self.playlists@.len() ==> #[trigger] self.playlists@[i].id < self.next_playlist_id
        &&& forall|i: int| 0 <= i < self.playlists@.len() ==> no_dups(#[trigger] self.playlists@[i].tracks@)
        &&& self.index_ok()
    }

    /// The id index maps exactly the tracks' ids to their positions.
    pub open spec fn index_ok(&self) -> bool {
        &&& forall|i: int| 0 <= i < self.tracks@.len() ==> #[trigger] self.by_id@.contains_key(self.tracks@[i].id) && self.by_id@[self.tracks@[i].id] == i
        &&& forall|k: u64| #[trigger] self.by_id@.contains_key(k) ==> self.by_id@[k] < self.tracks@.len() && self.tracks@[self.by_id@[k] as int].id == k
    }

    /// The library holds a track with `id`.
    pub open spec fn has_track(&self, id: u64) -> bool {
        track_ids(self.tracks@).contains(id)
    }

    /// Every id listed by a playlist names a track of the library.
    pub open spec fn members_known(&self) -> bool {
        forall|i: int, j: int|
            0 <= i < self.playlists@.len() && 0 <= j < self.playlists@[i].tracks@.len() ==> self.has_track(
                #[trigger] self.playlists@[i].tracks@[j],
            )
    }

    /// Ids are left for another track.
    pub open spec fn track_room(&self) -> bool {
        self.next_track_id < u64::MAX
    }

    /// Ids are left for another playlist.
    pub open spec fn playlist_room(&self) -> bool {
        self.next_playlist_id < u64::MAX
    }

    /// Whether another track can be given an id.
    pub fn has_track_room(&self) -> (r: bool)
        ensures
            r == self.track_room(),
    {
        self.next_track_id < u64::MAX
    }

    /// Whether another playlist can be given an id.
    pub fn has_playlist_room(&self) -> (r: bool)
        ensures
            r == self.playlist_room(),
    {
        self.next_playlist_id < u64::MAX
    }

    /// An empty library.
    pub fn new() -> (r: Self)
        ensures
            r.wf(),
            r.tracks@.len() == 0,
            r.playlists@.len() == 0,
            r.track_room(),
            r.playlist_room(),
    {
        Library {
            tracks: Vec::new(),
            playlists: Vec::new(),
            next_track_id: 0,
            next_playlist_id: 0,
            by_id: FxHashMap::default(),
        }
    }

    /// Rebuilds the id index. Call after anything reorders `tracks` or
    /// changes its length.
    #[verifier::spinoff_prover]
    fn reindex(&mut self)
        requires
            no_dups(track_ids(old(self).tracks@)),
        ensures
            final(self).tracks == old(self).tracks,
            final(self).playlists == old(self).playlists,
            final(self).next_track_id == old(self).next_track_id,
            final(self).next_playlist_id == old(self).next_playlist_id,
            final(self).index_ok(),
    {
        let mut m: FxHashMap<u64, usize> = FxHashMap::default();
        let n = self.tracks.len();
        let mut i: usize = 0;
        while i < n
            invariant
                i <= n,
                n == self.tracks@.len(),
                no_dups(track_ids(self.tracks@)),
                forall|j: int| 0 <= j < i ==> #[trigger] m@.contains_key(self.tracks@[j].id),
                forall|j: int| 0 <= j < i ==> m@[#[trigger] self.tracks@[j].id] == j,
                forall|k: u64| #[trigger] m@.contains_key(k) ==> m@[k] < i && self.tracks@[m@[k] as int].id == k,
            decreases n - i,
        {
            let id = self.tracks[i].id;
            let ghost m0 = m@;
            proof {
                assert forall|j: int| 0 <= j < i implies self.tracks@[j].id != id by {
                    assert(track_ids(self.tracks@)[j] == self.tracks@[j].id);
                    assert(track_ids(self.tracks@)[i as int] == id);
                    assert(track_ids(self.tracks@)[j] != track_ids(self.tracks@)[i as int]);
                }
            }
            index_insert(&mut m, id, i);
            proof {
                assert(m@ == m0.insert(id, i));
                assert forall|j: int| 0 <= j < i + 1 implies #[trigger] m@.contains_key(
                    self.tracks@[j].id,
                ) by {
                    if j < i {
                        assert(m0.contains_key(self.tracks@[j].id));
                    }
                }
                assert forall|j: int| 0 <= j < i + 1 implies m@[#[trigger] self.tracks@[j].id]
                    == j by {
                    if j < i {
                        assert(m0.contains_key(self.tracks@[j].id));
                        assert(m0[self.tracks@[j].id] == j);
                        assert(self.tracks@[j].id != id);
                    }
                }
            }
            i = i + 1;
        }
        self.by_id = m;
        proof {
            assert forall|j: int| 0 <= j < self.tracks@.len() implies #[trigger] self.by_id@.contains_key(
                self.tracks@[j].id,
            ) && self.by_id@[self.tracks@[j].id] == j by {
                assert(m@.contains_key(self.tracks@[j].id));
                assert(m@[self.tracks@[j].id] == j);
            }
        }
    }

    /// The track with `id`, if the library holds one.
    pub fn track(&self, id: u64) -> (r: Option<&Track>)
        requires
            self.wf(),
        ensures
            match r {
                Some(t) => self.has_track(id) && *t == self.tracks@[first_pos(
                    track_ids(self.tracks@),
                    id,
                )],
                None => !self.has_track(id),
            },
    {
        match index_get(&self.by_id, id) {
            Some(i) => {
                proof {
                    assert(track_ids(self.tracks@)[i as int] == id);
                    lemma_first_pos_unique(track_ids(self.tracks@), id, i as int);
                }
                Some(&self.tracks[i])
            },
            None => {
                proof {
                    if self.has_track(id) {
                        let k = choose|k: int|
                            0 <= k < self.tracks@.len() && track_ids(self.tracks@)[k] == id;
                        assert(self.by_id@.contains_key(self.tracks@[k].id));
                    }
                }
                None
            },
        }
    }
}


proof fn lemma_without_playlist(ps: Seq<Playlist>, id: u64)
    ensures
        playlist_ids(without_playlist(ps, id)) == without(playlist_ids(ps), id),
        forall|i: int|
            0 <= i < without_playlist(ps, id).len() ==> exists|j: int|
                0 <= j < ps.len() && #[trigger] without_playlist(ps, id)[i] == ps[j],
    decreases ps.len(),
{
    if ps.len() > 0 {
        let d = ps.drop_last();
        lemma_without_playlist(d, id);
        assert(playlist_ids(ps).drop_last() =~= playlist_ids(d));
        assert(playlist_ids(ps).last() == ps.last().id);
        if ps.last().id != id {
            assert(playlist_ids(without_playlist(ps, id)) =~= playlist_ids(without_playlist(d, id)).push(
                ps.last().id,
            ));
        }
        assert forall|i: int| 0 <= i < without_playlist(ps, id).len() implies exists|j: int|
            0 <= j < ps.len() && #[trigger] without_playlist(ps, id)[i] == ps[j] by {
            if i < without_playlist(d, id).len() {
                let j = choose|j: int| 0 <= j < d.len() && without_playlist(d, id)[i] == d[j];
                assert(ps[j] == d[j]);
            } else {
                assert(without_playlist(ps, id)[i] == ps[ps.len() - 1]);
            }
        }
    }
}

/// Swapping two entries keeps a list free of repeats.
proof fn lemma_swap_no_dups(s: Seq<u64>, i: int, j: int)
    requires
        no_dups(s),
        0 <= i < s.len(),
        0 <= j < s.len(),
    ensures
        no_dups(swapped(s, i, j)),
{
    let t = swapped(s, i, j);
    assert forall|a: int, b: int| 0 <= a < b < t.len() implies t[a] != t[b] by {
        let pa = if a == j {
            i
        } else if a == i {
            j
        } else {
            a
        };
        let pb = if b == j {
            i
        } else if b == i {
            j
        } else {
            b
        };
        assert(s.update(i, s[j])[a] == (if a == i { s[j] } else { s[a] }));
        assert(s.update(i, s[j])[b] == (if b == i { s[j] } else { s[b] }));
        assert(t[a] == s[pa]);
        assert(t[b] == s[pb]);
        assert(pa != pb);
    }
}

impl Library {
    /// Creates a new user playlist and returns its id, one never handed out
    /// before.
    pub fn create_playlist(&mut self, name: String) -> (id: u64)
        requires
            old(self).wf(),
            old(self).playlist_room(),
        ensures
            final(self).wf(),
            id == old(self).next_playlist_id,
            final(self).next_playlist_id == old(self).next_playlist_id + 1,
            final(self).next_track_id == old(self).next_track_id,
            !playlist_ids(old(self).playlists@).contains(id),
            final(self).tracks == old(self).tracks,
            final(self).playlists@.len() == old(self).playlists@.len() + 1,
            final(self).playlists@.drop_last() == old(self).playlists@,
            final(self).playlists@.last().id == id,
            final(self).playlists@.last().name == name,
            final(self).playlists@.last().tracks@.len() == 0,
            old(self).members_known() ==> final(self).members_known(),
    {
        let id = self.next_playlist_id;
        self.next_playlist_id = self.next_playlist_id + 1;
        let ghost ps0 = self.playlists@;
        self.playlists.push(Playlist::new(id, name));
        proof {
            assert(self.playlists@.drop_last() =~= ps0);
            assert(!playlist_ids(ps0).contains(id)) by {
                if playlist_ids(ps0).contains(id) {
                    let k = choose|k: int| 0 <= k < ps0.len() && playlist_ids(ps0)[k] == id;
                    assert(ps0[k].id < id);
                }
            }
            assert forall|a: int, b: int|
                0 <= a < b < self.playlists@.len() implies playlist_ids(self.playlists@)[a]
                != playlist_ids(self.playlists@)[b] by {
                if b < ps0.len() {
                    assert(playlist_ids(ps0)[a] != playlist_ids(ps0)[b]);
                } else {
                    assert(ps0[a].id < id);
                }
            }
            assert forall|i: int| 0 <= i < self.playlists@.len() implies no_dups(
                #[trigger] self.playlists@[i].tracks@,
            ) by {
                if i < ps0.len() {
                    assert(self.playlists@[i] == ps0[i]);
                }
            }
            assert forall|i: int, j: int|
                0 <= i < self.playlists@.len() && 0 <= j < self.playlists@[i].tracks@.len()
                    && old(self).members_known() implies self.has_track(
                #[trigger] self.playlists@[i].tracks@[j],
            ) by {
                assert(i < ps0.len());
                assert(self.playlists@[i] == ps0[i]);
            }
        }
        id
    }

    /// Deletes a user playlist; says whether there was one to delete.
    #[verifier::spinoff_prover]
    pub fn delete_playlist(&mut self, id: u64) -> (r: bool)
        requires
            old(self).wf(),
        ensures
            final(self).wf(),
            r == playlist_ids(old(self).playlists@).contains(id),
            final(self).playlists@ == without_playlist(old(self).playlists@, id),
            final(self).tracks == old(self).tracks,
            final(self).next_track_id == old(self).next_track_id,
            final(self).next_playlist_id == old(self).next_playlist_id,
            old(self).members_known() ==> final(self).members_known(),
    {
        broadcast use vstd::seq_lib::group_seq_properties;
        let mut ps: Vec<Playlist> = Vec::new();
        core::mem::swap(&mut ps, &mut self.playlists);
        let ghost orig = ps@;
        let n0 = ps.len();
        let mut out: Vec<Playlist> = Vec::new();
        let mut k: usize = 0;
        let mut found = false;
        while ps.len() > 0
            invariant
                k + ps@.len() == orig.len(),
                orig.len() == n0,
                ps@ == orig.skip(k as int),
                out@ == without_playlist(orig.take(k as int), id),
                found == playlist_ids(orig.take(k as int)).contains(id),
            decreases ps@.len(),
        {
            proof {
                assert(orig.take(k + 1).drop_last() =~= orig.take(k as int));
                assert(orig.take(k + 1).last() == orig[k as int]);
                assert(ps@[0] == orig[k as int]);
                assert(playlist_ids(orig.take(k + 1)) =~= playlist_ids(orig.take(k as int)).push(
                    orig[k as int].id,
                ));
                let a = playlist_ids(orig.take(k as int));
                let x = orig[k as int].id;
                assert(a.push(x).contains(id) <==> (a.contains(id) || x == id)) by {
                    if a.push(x).contains(id) {
                        let j = choose|j: int| 0 <= j < a.push(x).len() && a.push(x)[j] == id;
                        if j < a.len() {
                            assert(a[j] == a.push(x)[j]);
                        }
                    }
                    if a.contains(id) {
                        let j = choose|j: int| 0 <= j < a.len() && a[j] == id;
                        assert(a.push(x)[j] == a[j]);
                    }
                    if x == id {
                        assert(a.push(x)[a.len() as int] == x);
                    }
                }
            }
            let p = ps.remove(0);
            if p.id != id {
                out.push(p);
            } else {
                found = true;
            }
            k = k + 1;
            proof {
                assert(ps@ =~= orig.skip(k as int));
            }
        }
        proof {
            assert(orig.take(k as int) =~= orig);
        }
        self.playlists = out;
        proof {
            lemma_without_playlist(orig, id);
            lemma_without(playlist_ids(orig), id);
            assert forall|i: int| 0 <= i < self.playlists@.len() implies #[trigger] self.playlists@[i].id
                < self.next_playlist_id && no_dups(self.playlists@[i].tracks@) by {
                let j = choose|j: int| 0 <= j < orig.len() && self.playlists@[i] == orig[j];
                assert(orig[j].id < self.next_playlist_id);
                assert(no_dups(orig[j].tracks@));
            }
            assert forall|i: int, j: int|
                0 <= i < self.playlists@.len() && 0 <= j < self.playlists@[i].tracks@.len()
                    && old(self).members_known() implies self.has_track(
                #[trigger] self.playlists@[i].tracks@[j],
            ) by {
                let q = choose|q: int| 0 <= q < orig.len() && self.playlists@[i] == orig[q];
                assert(orig[q].tracks@[j] == self.playlists@[i].tracks@[j]);
            }
        }
        found
    }
}


/// Replacing one playlist by another with the same id and no repeats keeps
/// the library's invariants.
proof fn lemma_replace_playlist(a: Library, b: Library, p: int, q: Playlist)
    requires
        a.wf(),
        b.tracks == a.tracks,
        b.by_id == a.by_id,
        b.next_track_id == a.next_track_id,
        b.next_playlist_id == a.next_playlist_id,
        0 <= p < a.playlists@.len(),
        b.playlists@ == a.playlists@.update(p, q),
        q.id == a.playlists@[p].id,
        no_dups(q.tracks@),
    ensures
        b.wf(),
        playlist_ids(b.playlists@) == playlist_ids(a.playlists@),
{
    assert(playlist_ids(b.playlists@) =~= playlist_ids(a.playlists@));
    assert forall|i: int| 0 <= i < b.playlists@.len() implies #[trigger] b.playlists@[i].id
        < b.next_playlist_id && no_dups(b.playlists@[i].tracks@) by {
        if i != p {
            assert(b.playlists@[i] == a.playlists@[i]);
        }
    }
}

impl Library {
    /// Renames the first playlist with `id`; says whether there was one.
    pub fn rename_playlist(&mut self, id: u64, name: String) -> (r: bool)
        requires
            old(self).wf(),
        ensures
            final(self).wf(),
            final(self).tracks == old(self).tracks,
            final(self).next_track_id == old(self).next_track_id,
            final(self).next_playlist_id == old(self).next_playlist_id,
            r == playlist_ids(old(self).playlists@).contains(id),
            ({
                let p = first_pos(playlist_ids(old(self).playlists@), id);
                if r {
                    &&& final(self).playlists@.len() == old(self).playlists@.len()
                    &&& forall|i: int|
                        0 <= i < old(self).playlists@.len() && i != p ==> #[trigger] final(self).playlists@[i] == old(self).playlists@[i]
                    &&& final(self).playlists@[p].id == id
                    &&& final(self).playlists@[p].name == name
                    &&& final(self).playlists@[p].tracks == old(self).playlists@[p].tracks
                } else {
                    final(self).playlists == old(self).playlists
                }
            }),
            old(self).members_known() ==> final(self).members_known(),
    {
        let p = playlist_position(&self.playlists, id);
        proof {
            lemma_first_pos(playlist_ids(self.playlists@), id);
        }
        if p < self.playlists.len() {
            let ghost before = *self;
            let mut pl = self.playlists.remove(p);
            pl.name = name;
            self.playlists.insert(p, pl);
            proof {
                assert(self.playlists@ =~= before.playlists@.update(p as int, pl));
                assert(playlist_ids(before.playlists@)[p as int] == id);
                lemma_replace_playlist(before, *self, p as int, pl);
                assert forall|i: int, j: int|
                    0 <= i < self.playlists@.len() && 0 <= j < self.playlists@[i].tracks@.len()
                        && before.members_known() implies self.has_track(
                    #[trigger] self.playlists@[i].tracks@[j],
                ) by {
                    assert(before.playlists@[i].tracks@[j] == self.playlists@[i].tracks@[j]);
                }
            }
            true
        } else {
            false
        }
    }

    /// Adds a track to the first playlist with `playlist_id`, unless it is
    /// already there; says whether the playlist changed.
    pub fn playlist_add_track(&mut self, playlist_id: u64, track_id: u64) -> (r: bool)
        requires
            old(self).wf(),
        ensures
            final(self).wf(),
            final(self).tracks == old(self).tracks,
            final(self).next_track_id == old(self).next_track_id,
            final(self).next_playlist_id == old(self).next_playlist_id,
            ({
                let p = first_pos(playlist_ids(old(self).playlists@), playlist_id);
                &&& r == (p < old(self).playlists@.len()
                    && !old(self).playlists@[p].tracks@.contains(track_id))
                &&& if r {
                    &&& final(self).playlists@.len() == old(self).playlists@.len()
                    &&& forall|i: int|
                        0 <= i < old(self).playlists@.len() && i != p ==> #[trigger] final(self).playlists@[i] == old(self).playlists@[i]
                    &&& final(self).playlists@[p].id == old(self).playlists@[p].id
                    &&& final(self).playlists@[p].name == old(self).playlists@[p].name
                    &&& final(self).playlists@[p].tracks@ == old(self).playlists@[p].tracks@.push(
                        track_id,
                    )
                } else {
                    final(self).playlists == old(self).playlists
                }
            }),
            old(self).members_known() && old(self).has_track(track_id) ==> final(self).members_known(),
    {
        let p = playlist_position(&self.playlists, playlist_id);
        proof {
            lemma_first_pos(playlist_ids(self.playlists@), playlist_id);
        }
        if p < self.playlists.len() && !contains_id(&self.playlists[p].tracks, track_id) {
            let ghost before = *self;
            let mut pl = self.playlists.remove(p);
            let ghost t0 = pl.tracks@;
            pl.tracks.push(track_id);
            self.playlists.insert(p, pl);
            proof {
                assert(self.playlists@ =~= before.playlists@.update(p as int, pl));
                assert(playlist_ids(before.playlists@)[p as int] == playlist_id);
                assert(no_dups(t0));
                assert forall|a: int, b: int| 0 <= a < b < pl.tracks@.len() implies pl.tracks@[a]
                    != pl.tracks@[b] by {
                    if b == t0.len() {
                        assert(t0[a] == pl.tracks@[a]);
                    }
                }
                lemma_replace_playlist(before, *self, p as int, pl);
                assert forall|i: int, j: int|
                    0 <= i < self.playlists@.len() && 0 <= j < self.playlists@[i].tracks@.len()
                        && before.members_known() && before.has_track(
                        track_id,
                    ) implies self.has_track(#[trigger] self.playlists@[i].tracks@[j]) by {
                    if i != p || j < t0.len() {
                        assert(before.playlists@[i].tracks@[j] == self.playlists@[i].tracks@[j]);
                    }
                }
            }
            true
        } else {
            false
        }
    }

    /// Drops a track from the first playlist with `playlist_id`; the track
    /// itself stays in the library.  Says whether there was such a playlist.
    pub fn playlist_remove_track(&mut self, playlist_id: u64, track_id: u64) -> (r: bool)
        requires
            old(self).wf(),
        ensures
            final(self).wf(),
            final(self).tracks == old(self).tracks,
            final(self).next_track_id == old(self).next_track_id,
            final(self).next_playlist_id == old(self).next_playlist_id,
            r == playlist_ids(old(self).playlists@).contains(playlist_id),
            ({
                let p = first_pos(playlist_ids(old(self).playlists@), playlist_id);
                if r {
                    &&& final(self).playlists@.len() == old(self).playlists@.len()
                    &&& forall|i: int|
                        0 <= i < old(self).playlists@.len() && i != p ==> #[trigger] final(self).playlists@[i] == old(self).playlists@[i]
                    &&& final(self).playlists@[p].id == old(self).playlists@[p].id
                    &&& final(self).playlists@[p].name == old(self).playlists@[p].name
                    &&& final(self).playlists@[p].tracks@ == without(
                        old(self).playlists@[p].tracks@,
                        track_id,
                    )
                } else {
                    final(self).playlists == old(self).playlists
                }
            }),
            old(self).members_known() ==> final(self).members_known(),
    {
        let p = playlist_position(&self.playlists, playlist_id);
        proof {
            lemma_first_pos(playlist_ids(self.playlists@), playlist_id);
        }
        if p < self.playlists.len() {
            let ghost before = *self;
            let mut pl = self.playlists.remove(p);
            let ghost t0 = pl.tracks@;
            pl.tracks = remove_all(&pl.tracks, track_id);
            self.playlists.insert(p, pl);
            proof {
                assert(self.playlists@ =~= before.playlists@.update(p as int, pl));
                assert(playlist_ids(before.playlists@)[p as int] == playlist_id);
                lemma_without(t0, track_id);
                lemma_replace_playlist(before, *self, p as int, pl);
                assert forall|i: int, j: int|
                    0 <= i < self.playlists@.len() && 0 <= j < self.playlists@[i].tracks@.len()
                        && before.members_known() implies self.has_track(
                    #[trigger] self.playlists@[i].tracks@[j],
                ) by {
                    if i != p {
                        assert(before.playlists@[i].tracks@[j] == self.playlists@[i].tracks@[j]);
                    } else {
                        let y = self.playlists@[i].tracks@[j];
                        assert(self.playlists@[i].tracks@ == without(t0, track_id));
                        assert(without(t0, track_id)[j] == y);
                        assert(without(t0, track_id).contains(y));
                        assert(y != track_id);
                        assert(t0.contains(y));
                        assert(t0 == before.playlists@[i].tracks@);
                        let k = choose|k: int| 0 <= k < t0.len() && t0[k] == y;
                        assert(before.playlists@[i].tracks@[k] == y);
                    }
                }
            }
            true
        } else {
            false
        }
    }

    /// Moves the track at `index` one place towards the start or end of the
    /// first playlist with `playlist_id`, and reports where it ended up;
    /// `None` when the move would run off either end (or there is no such
    /// playlist), leaving everything as it was.
    pub fn playlist_move_track(&mut self, playlist_id: u64, index: usize, down: bool) -> (r:
        Option<usize>)
        requires
            old(self).wf(),
            ({
                let p = first_pos(playlist_ids(old(self).playlists@), playlist_id);
                p < old(self).playlists@.len() ==> move_ok(
                    index as int,
                    down,
                    old(self).playlists@[p].tracks@.len() as int,
                )
            }),
        ensures
            final(self).wf(),
            final(self).tracks == old(self).tracks,
            final(self).next_track_id == old(self).next_track_id,
            final(self).next_playlist_id == old(self).next_playlist_id,
            ({
                let p = first_pos(playlist_ids(old(self).playlists@), playlist_id);
                let len = old(self).playlists@[p].tracks@.len() as int;
                if p < old(self).playlists@.len() && neighbour_spec(index as int, down, len) is Some {
                    &&& r == Some(neighbour_spec(index as int, down, len)->0 as usize)
                    &&& final(self).playlists@.len() == old(self).playlists@.len()
                    &&& forall|i: int|
                        0 <= i < old(self).playlists@.len() && i != p ==> #[trigger] final(self).playlists@[i] == old(self).playlists@[i]
                    &&& final(self).playlists@[p].id == old(self).playlists@[p].id
                    &&& final(self).playlists@[p].name == old(self).playlists@[p].name
                    &&& final(self).playlists@[p].tracks@ == swapped(
                        old(self).playlists@[p].tracks@,
                        index as int,
                        neighbour_spec(index as int, down, len)->0,
                    )
                } else {
                    r is None && final(self).playlists == old(self).playlists
                }
            }),
            old(self).members_known() ==> final(self).members_known(),
    {
        let p = playlist_position(&self.playlists, playlist_id);
        proof {
            lemma_first_pos(playlist_ids(self.playlists@), playlist_id);
        }
        if p >= self.playlists.len() {
            return None;
        }
        let target = match neighbour(index, down, self.playlists[p].tracks.len()) {
            Some(t) => t,
            None => {
                return None;
            },
        };
        let ghost before = *self;
        let mut pl = self.playlists.remove(p);
        let ghost t0 = pl.tracks@;
        let a = pl.tracks[index];
        let b = pl.tracks[target];
        pl.tracks.set(index, b);
        pl.tracks.set(target, a);
        self.playlists.insert(p, pl);
        proof {
            assert(pl.tracks@ =~= swapped(t0, index as int, target as int));
            assert(self.playlists@ =~= before.playlists@.update(p as int, pl));
            assert(playlist_ids(before.playlists@)[p as int] == playlist_id);
            lemma_swap_no_dups(t0, index as int, target as int);
            lemma_replace_playlist(before, *self, p as int, pl);
            assert forall|i: int, j: int|
                0 <= i < self.playlists@.len() && 0 <= j < self.playlists@[i].tracks@.len()
                    && before.members_known() implies self.has_track(
                #[trigger] self.playlists@[i].tracks@[j],
            ) by {
                if i != p {
                    assert(before.playlists@[i].tracks@[j] == self.playlists@[i].tracks@[j]);
                } else {
                    let k = if j == index {
                        target as int
                    } else if j == target {
                        index as int
                    } else {
                        j
                    };
                    assert(before.playlists@[i].tracks@[k] == self.playlists@[i].tracks@[j]);
                }
            }
        }
        Some(target)
    }
}


/// Swapping two entries keeps their ids free of repeats.
proof fn lemma_swap_track_ids(s: Seq<Track>, i: int, j: int)
    requires
        no_dups(track_ids(s)),
        0 <= i < s.len(),
        0 <= j < s.len(),
    ensures
        no_dups(track_ids(swapped(s, i, j))),
        track_ids(swapped(s, i, j)) == swapped(track_ids(s), i, j),
{
    assert(track_ids(swapped(s, i, j)) =~= swapped(track_ids(s), i, j));
    lemma_swap_no_dups(track_ids(s), i, j);
}

/// Swapping two playlists keeps their ids free of repeats.
proof fn lemma_swap_playlist_ids(s: Seq<Playlist>, i: int, j: int)
    requires
        no_dups(playlist_ids(s)),
        0 <= i < s.len(),
        0 <= j < s.len(),
    ensures
        no_dups(playlist_ids(swapped(s, i, j))),
{
    assert(playlist_ids(swapped(s, i, j)) =~= swapped(playlist_ids(s), i, j));
    lemma_swap_no_dups(playlist_ids(s), i, j);
}

/// `v` with the adjacent entries at `i` and `j` exchanged.
fn swap_adjacent<T>(v: &mut Vec<T>, i: usize, j: usize)
    requires
        i < old(v)@.len(),
        j < old(v)@.len(),
        i + 1 == j || j + 1 == i,
    ensures
        final(v)@ == swapped(old(v)@, i as int, j as int),
{
    let (lo, hi) = if i < j {
        (i, j)
    } else {
        (j, i)
    };
    let x = v.remove(hi);
    v.insert(lo, x);
    proof {
        assert(final(v)@ =~= swapped(old(v)@, i as int, j as int)) by {
            assert(v@ =~= swapped(old(v)@, i as int, j as int));
        }
    }
}

/// Positions in `tracks` of the tracks of `ids` the library holds, in
/// order.
pub open spec fn resolve_ids(tracks: Seq<Track>, ids: Seq<u64>) -> Seq<Track>
    decreases ids.len(),
{
    if ids.len() == 0 {
        Seq::empty()
    } else {
        let r = resolve_ids(tracks, ids.drop_last());
        let p = first_pos(track_ids(tracks), ids.last());
        if p < tracks.len() {
            r.push(tracks[p])
        } else {
            r
        }
    }
}

/// Every track `resolve_ids` gives back is one of `tracks`.
pub proof fn lemma_resolve_ids_known(tracks: Seq<Track>, ids: Seq<u64>)
    ensures
        forall|k: int|
            0 <= k < resolve_ids(tracks, ids).len() ==> track_ids(tracks).contains(
                #[trigger] resolve_ids(tracks, ids)[k].id,
            ),
    decreases ids.len(),
{
    if ids.len() > 0 {
        lemma_resolve_ids_known(tracks, ids.drop_last());
        let r = resolve_ids(tracks, ids.drop_last());
        let p = first_pos(track_ids(tracks), ids.last());
        lemma_first_pos(track_ids(tracks), ids.last());
        if p < tracks.len() {
            assert forall|k: int| 0 <= k < r.push(tracks[p]).len() implies track_ids(tracks).contains(
                #[trigger] r.push(tracks[p])[k].id,
            ) by {
                if k < r.len() {
                    assert(r.push(tracks[p])[k] == r[k]);
                } else {
                    assert(track_ids(tracks)[p] == tracks[p].id);
                }
            }
        }
    }
}

/// The tracks of the first playlist with `id`, in order, skipping ids the
/// library does not hold; empty when there is no such playlist.
pub open spec fn playlist_tracks_spec(lib: Library, id: u64) -> Seq<Track> {
    let p = first_pos(playlist_ids(lib.playlists@), id);
    if p < lib.playlists@.len() {
        resolve_ids(lib.tracks@, lib.playlists@[p].tracks@)
    } else {
        Seq::empty()
    }
}

/// First position of a track whose filename is `name`, or `ts.len()`.
pub open spec fn filename_pos(ts: Seq<Track>, name: Seq<char>) -> int
    decreases ts.len(),
{
    if ts.len() == 0 {
        0
    } else if ts[0].filename_spec() == name {
        0
    } else {
        1 + filename_pos(ts.drop_first(), name)
    }
}

proof fn lemma_filename_pos(ts: Seq<Track>, name: Seq<char>)
    ensures
        0 <= filename_pos(ts, name) <= ts.len(),
        filename_pos(ts, name) < ts.len() ==> ts[filename_pos(ts, name)].filename_spec() == name,
        forall|i: int| 0 <= i < filename_pos(ts, name) ==> ts[i].filename_spec() != name,
    decreases ts.len(),
{
    if ts.len() > 0 && ts[0].filename_spec() != name {
        lemma_filename_pos(ts.drop_first(), name);
        assert forall|i: int| 0 <= i < filename_pos(ts, name) implies ts[i].filename_spec() != name by {
            if i > 0 {
                assert(ts[i] == ts.drop_first()[i - 1]);
            }
        }
    }
}

/// Whether `a` holds the characters of `b`.
fn same_chars(a: &String, b: &str) -> (r: bool)
    ensures
        r == (a@ == b@),
{
    let av = chars_of(a.as_str());
    let bv = chars_of(b);
    if av.len() != bv.len() {
        return false;
    }
    let mut i: usize = 0;
    while i < av.len()
        invariant
            av@ == a@,
            bv@ == b@,
            av@.len() == bv@.len(),
            i <= av.len(),
            forall|j: int| 0 <= j < i ==> av@[j] == bv@[j],
        decreases av.len() - i,
    {
        if av[i] != bv[i] {
            proof {
                assert(av@[i as int] != bv@[i as int]);
            }
            return false;
        }
        i = i + 1;
    }
    proof {
        assert(av@ =~= bv@);
    }
    true
}

impl Library {
    /// Moves the track at `index` one place up or down the library's order
    /// and reports where it ended up; `None` when the move would run off
    /// either end.  Playlists refer to tracks by id, so only display order
    /// changes.
    pub fn move_track(&mut self, index: usize, down: bool) -> (r: Option<usize>)
        requires
            old(self).wf(),
            move_ok(index as int, down, old(self).tracks@.len() as int),
        ensures
            final(self).wf(),
            final(self).playlists == old(self).playlists,
            final(self).next_track_id == old(self).next_track_id,
            final(self).next_playlist_id == old(self).next_playlist_id,
            match neighbour_spec(index as int, down, old(self).tracks@.len() as int) {
                Some(t) => r == Some(t as usize) && final(self).tracks@ == swapped(
                    old(self).tracks@,
                    index as int,
                    t,
                ),
                None => r is None && final(self).tracks == old(self).tracks,
            },
            old(self).members_known() ==> final(self).members_known(),
    {
        let target = match neighbour(index, down, self.tracks.len()) {
            Some(t) => t,
            None => {
                return None;
            },
        };
        let ghost t0 = self.tracks@;
        swap_adjacent(&mut self.tracks, index, target);
        proof {
            lemma_swap_track_ids(t0, index as int, target as int);
            assert forall|i: int| 0 <= i < self.tracks@.len() implies #[trigger] self.tracks@[i].id
                < self.next_track_id by {
                let k = if i == index {
                    target as int
                } else if i == target {
                    index as int
                } else {
                    i
                };
                assert(self.tracks@[i] == t0[k]);
            }
            assert forall|y: u64| track_ids(t0).contains(y) implies track_ids(self.tracks@).contains(y) by {
                let k = choose|k: int| 0 <= k < t0.len() && track_ids(t0)[k] == y;
                let m = if k == index {
                    target as int
                } else if k == target {
                    index as int
                } else {
                    k
                };
                assert(track_ids(self.tracks@)[m] == y);
            }
        }
        self.reindex();
        Some(target)
    }

    /// Moves the playlist at `index` one place up or down the sidebar and
    /// reports where it ended up; `None` when the move would run off either
    /// end.
    pub fn move_playlist(&mut self, index: usize, down: bool) -> (r: Option<usize>)
        requires
            old(self).wf(),
            move_ok(index as int, down, old(self).playlists@.len() as int),
        ensures
            final(self).wf(),
            final(self).tracks == old(self).tracks,
            final(self).next_track_id == old(self).next_track_id,
            final(self).next_playlist_id == old(self).next_playlist_id,
            match neighbour_spec(index as int, down, old(self).playlists@.len() as int) {
                Some(t) => r == Some(t as usize) && final(self).playlists@ == swapped(
                    old(self).playlists@,
                    index as int,
                    t,
                ),
                None => r is None && final(self).playlists == old(self).playlists,
            },
            old(self).members_known() ==> final(self).members_known(),
    {
        let target = match neighbour(index, down, self.playlists.len()) {
            Some(t) => t,
            None => {
                return None;
            },
        };
        let ghost p0 = self.playlists@;
        swap_adjacent(&mut self.playlists, index, target);
        proof {
            lemma_swap_playlist_ids(p0, index as int, target as int);
            assert forall|i: int| 0 <= i < self.playlists@.len() implies #[trigger] self.playlists@[i].id
                < self.next_playlist_id && no_dups(self.playlists@[i].tracks@) by {
                let k = if i == index {
                    target as int
                } else if i == target {
                    index as int
                } else {
                    i
                };
                assert(self.playlists@[i] == p0[k]);
            }
            assert forall|i: int, j: int|
                0 <= i < self.playlists@.len() && 0 <= j < self.playlists@[i].tracks@.len()
                    && old(self).members_known() implies self.has_track(
                #[trigger] self.playlists@[i].tracks@[j],
            ) by {
                let k = if i == index {
                    target as int
                } else if i == target {
                    index as int
                } else {
                    i
                };
                assert(self.playlists@[i] == p0[k]);
            }
        }
        Some(target)
    }

    /// The first playlist with `id`, if any.
    pub fn playlist(&self, id: u64) -> (r: Option<&Playlist>)
        ensures
            match r {
                Some(p) => first_pos(playlist_ids(self.playlists@), id) < self.playlists@.len()
                    && *p == self.playlists@[first_pos(playlist_ids(self.playlists@), id)],
                None => !playlist_ids(self.playlists@).contains(id),
            },
    {
        let p = playlist_position(&self.playlists, id);
        proof {
            lemma_first_pos(playlist_ids(self.playlists@), id);
        }
        if p < self.playlists.len() {
            Some(&self.playlists[p])
        } else {
            None
        }
    }

    /// The tracks of a playlist, in order; ids the library does not hold are
    /// skipped.
    pub fn playlist_tracks(&self, playlist_id: u64) -> (r: Vec<&Track>)
        requires
            self.wf(),
        ensures
            r@.len() == playlist_tracks_spec(*self, playlist_id).len(),
            forall|i: int| 0 <= i < r@.len() ==> *r@[i] == playlist_tracks_spec(*self, playlist_id)[i],
    {
        let mut out: Vec<&Track> = Vec::new();
        proof {
            lemma_first_pos(playlist_ids(self.playlists@), playlist_id);
        }
        match self.playlist(playlist_id) {
            Some(pl) => {
                let ghost ids = pl.tracks@;
                for i in 0..pl.tracks.len()
                    invariant
                        self.wf(),
                        ids == pl.tracks@,
                        out@.len() == resolve_ids(self.tracks@, ids.take(i as int)).len(),
                        forall|k: int| 0 <= k < out@.len() ==> *out@[k] == resolve_ids(self.tracks@, ids.take(i as int))[k],
                {
                    proof {
                        assert(ids.take(i + 1).drop_last() =~= ids.take(i as int));
                        assert(ids.take(i + 1).last() == ids[i as int]);
                        lemma_first_pos(track_ids(self.tracks@), ids[i as int]);
                    }
                    match self.track(pl.tracks[i]) {
                        Some(t) => {
                            out.push(t);
                        },
                        None => {},
                    }
                }
                proof {
                    assert(ids.take(pl.tracks@.len() as int) =~= ids);
                }
            },
            None => {},
        }
        out
    }

    /// The first track whose filename is `filename`, if any.
    pub fn track_by_filename(&self, filename: &str) -> (r: Option<&Track>)
        ensures
            match r {
                Some(t) => filename_pos(self.tracks@, filename@) < self.tracks@.len() && *t
                    == self.tracks@[filename_pos(self.tracks@, filename@)],
                None => filename_pos(self.tracks@, filename@) == self.tracks@.len(),
            },
    {
        proof {
            lemma_filename_pos(self.tracks@, filename@);
        }
        let mut i: usize = 0;
        while i < self.tracks.len()
            invariant
                i <= self.tracks@.len(),
                forall|j: int| 0 <= j < i ==> self.tracks@[j].filename_spec() != filename@,
            decreases self.tracks@.len() - i,
        {
            let n = self.tracks[i].filename();
            if same_chars(&n, filename) {
                proof {
                    lemma_filename_pos(self.tracks@, filename@);
                    let f = filename_pos(self.tracks@, filename@);
                    if f < i {
                        assert(self.tracks@[f].filename_spec() == filename@);
                    }
                    if i < f {
                        assert(self.tracks@[i as int].filename_spec() != filename@);
                    }
                }
                return Some(&self.tracks[i]);
            }
            i = i + 1;
        }
        proof {
            let f = filename_pos(self.tracks@, filename@);
            if f < i {
                assert(self.tracks@[f].filename_spec() == filename@);
            }
        }
        None
    }
}


/// Replacing a track by one with the same id keeps the library's
/// invariants.
proof fn lemma_replace_track(a: Library, b: Library, p: int, t: Track)
    requires
        a.wf(),
        b.playlists == a.playlists,
        b.by_id == a.by_id,
        b.next_track_id == a.next_track_id,
        b.next_playlist_id == a.next_playlist_id,
        0 <= p < a.tracks@.len(),
        b.tracks@ == a.tracks@.update(p, t),
        t.id == a.tracks@[p].id,
    ensures
        b.wf(),
        track_ids(b.tracks@) == track_ids(a.tracks@),
        a.members_known() ==> b.members_known(),
{
    assert(track_ids(b.tracks@) =~= track_ids(a.tracks@));
    assert forall|i: int| 0 <= i < b.tracks@.len() implies #[trigger] b.tracks@[i].id
        < b.next_track_id by {
        if i != p {
            assert(b.tracks@[i] == a.tracks@[i]);
        }
    }
    assert forall|i: int| 0 <= i < b.tracks@.len() implies #[trigger] b.by_id@.contains_key(
        b.tracks@[i].id,
    ) && b.by_id@[b.tracks@[i].id] == i by {
        assert(b.tracks@[i].id == a.tracks@[i].id);
    }
    assert forall|k: u64| #[trigger] b.by_id@.contains_key(k) implies b.by_id@[k] < b.tracks@.len()
        && b.tracks@[b.by_id@[k] as int].id == k by {
        assert(b.tracks@[b.by_id@[k] as int].id == a.tracks@[a.by_id@[k] as int].id);
    }
    assert forall|y: u64| a.has_track(y) implies b.has_track(y) by {
        assert(track_ids(b.tracks@) == track_ids(a.tracks@));
    }
}

impl Library {
    /// Removes a track from the library and from every playlist, and
    /// returns the path of its file (which the caller deletes); `None`, and
    /// nothing changes, when the library holds no such track.
    #[verifier::spinoff_prover]
    pub fn remove_track(&mut self, id: u64) -> (r: Option<String>)
        requires
            old(self).wf(),
        ensures
            final(self).wf(),
            r is Some == old(self).has_track(id),
            final(self).next_track_id == old(self).next_track_id,
            final(self).next_playlist_id == old(self).next_playlist_id,
            !final(self).has_track(id),
            ({
                let p = first_pos(track_ids(old(self).tracks@), id);
                if r is Some {
                    &&& r->0 == old(self).tracks@[p].path
                    &&& final(self).tracks@ == old(self).tracks@.remove(p)
                    &&& final(self).playlists@.len() == old(self).playlists@.len()
                    &&& forall|i: int|
                        0 <= i < old(self).playlists@.len() ==> #[trigger] final(self).playlists@[i].id
                            == old(self).playlists@[i].id && final(self).playlists@[i].name == old(
                            self).playlists@[i].name && final(self).playlists@[i].tracks@ == without(
                            old(self).playlists@[i].tracks@,
                            id,
                        )
                } else {
                    final(self).tracks == old(self).tracks && final(self).playlists == old(
                        self).playlists
                }
            }),
            old(self).members_known() ==> final(self).members_known(),
    {
        let p = track_position(&self.tracks, id);
        proof {
            lemma_first_pos(track_ids(self.tracks@), id);
        }
        if p >= self.tracks.len() {
            return None;
        }
        let ghost t0 = self.tracks@;
        let ghost ids0 = track_ids(t0);
        let t = self.tracks.remove(p);
        let ghost t1 = self.tracks@;
        proof {
            assert(t1 == t0.remove(p as int));
            assert(track_ids(self.tracks@) =~= ids0.remove(p as int));
            assert forall|a: int, b: int| 0 <= a < b < self.tracks@.len() implies track_ids(
                self.tracks@,
            )[a] != track_ids(self.tracks@)[b] by {
                let pa = if a < p {
                    a
                } else {
                    a + 1
                };
                let pb = if b < p {
                    b
                } else {
                    b + 1
                };
                assert(ids0[pa] != ids0[pb]);
            }
        }
        self.reindex();
        let ghost p0 = self.playlists@;
        let ghost lib1 = *self;
        let n = self.playlists.len();
        let mut i: usize = 0;
        while i < n
            invariant
                i <= n,
                self.tracks == lib1.tracks,
                self.by_id == lib1.by_id,
                self.next_track_id == lib1.next_track_id,
                self.next_playlist_id == lib1.next_playlist_id,
                n == self.playlists@.len(),
                n == p0.len(),
                forall|j: int| 0 <= j < i ==> (#[trigger] self.playlists@[j]).id == p0[j].id,
                forall|j: int| 0 <= j < i ==> (#[trigger] self.playlists@[j]).name == p0[j].name,
                forall|j: int|
                    0 <= j < i ==> (#[trigger] self.playlists@[j]).tracks@ == without(p0[j].tracks@, id),
                forall|j: int| i <= j < n ==> #[trigger] self.playlists@[j] == p0[j],
            decreases n - i,
        {
            let ghost before = self.playlists@;
            proof {
                assert(before[i as int] == p0[i as int]);
            }
            let mut pl = self.playlists.remove(i);
            let ghost pl0 = pl;
            pl.tracks = remove_all(&pl.tracks, id);
            self.playlists.insert(i, pl);
            proof {
                assert(pl0 == p0[i as int]);
                assert(self.playlists@ =~= before.update(i as int, pl));
                assert forall|j: int| 0 <= j < i + 1 implies (#[trigger] self.playlists@[j]).tracks@
                    == without(p0[j].tracks@, id) by {
                    if j < i {
                        assert(self.playlists@[j] == before[j]);
                    }
                }
                assert forall|j: int| 0 <= j < i + 1 implies (#[trigger] self.playlists@[j]).id
                    == p0[j].id && self.playlists@[j].name == p0[j].name by {
                    if j < i {
                        assert(self.playlists@[j] == before[j]);
                    }
                }
            }
            i = i + 1;
        }
        proof {
            assert(playlist_ids(self.playlists@) =~= playlist_ids(p0));
            assert(self.tracks@ == t1);
            assert(p0 == old(self).playlists@);
            assert forall|i: int| 0 <= i < self.playlists@.len() implies #[trigger] self.playlists@[i].id
                < self.next_playlist_id && no_dups(self.playlists@[i].tracks@) by {
                lemma_without(p0[i].tracks@, id);
                assert(p0[i] == old(self).playlists@[i]);
                assert(no_dups(old(self).playlists@[i].tracks@));
                assert(old(self).playlists@[i].id < old(self).next_playlist_id);
                assert(self.playlists@[i].tracks@ == without(p0[i].tracks@, id));
            }
            assert forall|i: int| 0 <= i < self.tracks@.len() implies #[trigger] self.tracks@[i].id
                < self.next_track_id by {
                let k = if i < p {
                    i
                } else {
                    i + 1
                };
                assert(self.tracks@[i] == t0[k]);
            }
            assert(!self.has_track(id)) by {
                if self.has_track(id) {
                    let k = choose|k: int| 0 <= k < self.tracks@.len() && track_ids(self.tracks@)[k] == id;
                    let q = if k < p {
                        k
                    } else {
                        k + 1
                    };
                    assert(ids0[q] == id);
                    assert(ids0[p as int] == id);
                }
            }
            assert forall|i: int, j: int|
                0 <= i < self.playlists@.len() && 0 <= j < self.playlists@[i].tracks@.len()
                    && old(self).members_known() implies self.has_track(
                #[trigger] self.playlists@[i].tracks@[j],
            ) by {
                let y = self.playlists@[i].tracks@[j];
                let w = without(p0[i].tracks@, id);
                lemma_without(p0[i].tracks@, id);
                assert(w[j] == y);
                assert(w.contains(y));
                assert(y != id);
                assert(p0[i].tracks@.contains(y));
                assert(p0[i] == old(self).playlists@[i]);
                let q = choose|q: int| 0 <= q < p0[i].tracks@.len() && p0[i].tracks@[q] == y;
                assert(old(self).playlists@[i].tracks@[q] == y);
                assert(old(self).has_track(y));
                let k = choose|k: int| 0 <= k < t0.len() && ids0[k] == y;
                assert(k != p);
                let m = if k < p {
                    k
                } else {
                    k - 1
                };
                assert(track_ids(self.tracks@)[m] == y);
            }
        }
        Some(t.path)
    }

    /// Replaces a track's editable metadata; says whether the library holds
    /// the track.
    pub fn update_track_metadata(
        &mut self,
        id: u64,
        name: String,
        artist: Option<String>,
        album: Option<String>,
    ) -> (r: bool)
        requires
            old(self).wf(),
        ensures
            final(self).wf(),
            r == old(self).has_track(id),
            final(self).playlists == old(self).playlists,
            final(self).next_track_id == old(self).next_track_id,
            final(self).next_playlist_id == old(self).next_playlist_id,
            track_ids(final(self).tracks@) == track_ids(old(self).tracks@),
            ({
                let p = first_pos(track_ids(old(self).tracks@), id);
                if r {
                    final(self).tracks@ == old(self).tracks@.update(
                        p,
                        Track { name: name, artist: artist, album: album, ..old(self).tracks@[p] },
                    )
                } else {
                    final(self).tracks == old(self).tracks
                }
            }),
            old(self).members_known() ==> final(self).members_known(),
    {
        let p = track_position(&self.tracks, id);
        proof {
            lemma_first_pos(track_ids(self.tracks@), id);
        }
        if p >= self.tracks.len() {
            return false;
        }
        let ghost before = *self;
        let mut t = self.tracks.remove(p);
        t.name = name;
        t.artist = artist;
        t.album = album;
        self.tracks.insert(p, t);
        proof {
            assert(self.tracks@ =~= before.tracks@.update(p as int, t));
            assert(track_ids(before.tracks@)[p as int] == id);
            lemma_replace_track(before, *self, p as int, t);
        }
        true
    }

    /// Replaces (or clears) a track's raw lyrics; says whether the library
    /// holds the track.
    pub fn set_track_lyrics(&mut self, id: u64, lyrics: Option<String>) -> (r: bool)
        requires
            old(self).wf(),
        ensures
            final(self).wf(),
            r == old(self).has_track(id),
            final(self).playlists == old(self).playlists,
            final(self).next_track_id == old(self).next_track_id,
            final(self).next_playlist_id == old(self).next_playlist_id,
            track_ids(final(self).tracks@) == track_ids(old(self).tracks@),
            ({
                let p = first_pos(track_ids(old(self).tracks@), id);
                if r {
                    final(self).tracks@ == old(self).tracks@.update(
                        p,
                        Track { lyrics: lyrics, ..old(self).tracks@[p] },
                    )
                } else {
                    final(self).tracks == old(self).tracks
                }
            }),
            old(self).members_known() ==> final(self).members_known(),
    {
        let p = track_position(&self.tracks, id);
        proof {
            lemma_first_pos(track_ids(self.tracks@), id);
        }
        if p >= self.tracks.len() {
            return false;
        }
        let ghost before = *self;
        let mut t = self.tracks.remove(p);
        t.lyrics = lyrics;
        self.tracks.insert(p, t);
        proof {
            assert(self.tracks@ =~= before.tracks@.update(p as int, t));
            assert(track_ids(before.tracks@)[p as int] == id);
            lemma_replace_track(before, *self, p as int, t);
        }
        true
    }

    /// Registers the file at `path` (already in the music directory) under
    /// a fresh id, with the metadata its tags give, and returns the track.
    pub fn add_track(&mut self, path: String, tags: &Option<FileTags>) -> (t: Track)
        requires
            old(self).wf(),
            old(self).track_room(),
        ensures
            final(self).wf(),
            t.id == old(self).next_track_id,
            !old(self).has_track(t.id),
            t.path == path,
            t.name@ == tagged_name(path@, *tags),
            t.artist == or_blank(*tags).artist,
            t.album == or_blank(*tags).album,
            t.lyrics == or_blank(*tags).lyrics,
            t.duration_secs == or_blank(*tags).duration_secs,
            final(self).tracks@ == old(self).tracks@.push(t),
            final(self).playlists == old(self).playlists,
            final(self).next_track_id == old(self).next_track_id + 1,
            final(self).next_playlist_id == old(self).next_playlist_id,
            old(self).members_known() ==> final(self).members_known(),
    {
        let id = self.next_track_id;
        self.next_track_id = self.next_track_id + 1;
        let mut track = Track::at(id, path);
        track.apply_tags(tags);
        let ghost t0 = self.tracks@;
        let ghost m0 = self.by_id@;
        let len = self.tracks.len();
        let copy = copy_track(&track);
        self.tracks.push(track);
        proof {
            assert(!track_ids(t0).contains(id)) by {
                if track_ids(t0).contains(id) {
                    let k = choose|k: int| 0 <= k < t0.len() && track_ids(t0)[k] == id;
                    assert(t0[k].id < id);
                }
            }
            assert(track_ids(self.tracks@) =~= track_ids(t0).push(id));
            assert forall|a: int, b: int| 0 <= a < b < self.tracks@.len() implies track_ids(
                self.tracks@,
            )[a] != track_ids(self.tracks@)[b] by {
                if b == t0.len() {
                    assert(track_ids(t0)[a] == track_ids(self.tracks@)[a]);
                    assert(t0[a].id < id);
                }
            }
        }
        index_insert(&mut self.by_id, id, len);
        proof {
            assert forall|i: int| 0 <= i < self.tracks@.len() implies #[trigger] self.by_id@.contains_key(
                self.tracks@[i].id,
            ) && self.by_id@[self.tracks@[i].id] == i by {
                if i < t0.len() {
                    assert(self.tracks@[i] == t0[i]);
                    assert(t0[i].id < id);
                    assert(m0.contains_key(t0[i].id));
                }
            }
            assert forall|k: u64| #[trigger] self.by_id@.contains_key(k) implies self.by_id@[k]
                < self.tracks@.len() && self.tracks@[self.by_id@[k] as int].id == k by {
                if k != id {
                    assert(m0.contains_key(k));
                    assert(self.tracks@[m0[k] as int] == t0[m0[k] as int]);
                }
            }
            assert forall|i: int| 0 <= i < self.tracks@.len() implies #[trigger] self.tracks@[i].id
                < self.next_track_id by {
                if i < t0.len() {
                    assert(self.tracks@[i] == t0[i]);
                }
            }
            assert forall|y: u64| old(self).has_track(y) implies self.has_track(y) by {
                let k = choose|k: int| 0 <= k < t0.len() && track_ids(t0)[k] == y;
                assert(track_ids(self.tracks@)[k] == y);
            }
        }
        copy
    }
}


// -- The on-disk index ------------------------------------------------------------

/// On-disk schema version of the index.  A foreign version is set aside and
/// the music directory re-scanned: there is no migration path.
pub const FORMAT_VERSION: u32 = 1;

/// A playlist on disk: a name and an ordered list of track filenames.
#[derive(Debug, Clone)]
pub struct PlaylistRepr {
    pub name: String,
    pub tracks: Vec<String>,
}

/// The on-disk index: version, the ordered track filenames, and each
/// playlist as a name and an ordered list of filenames.  No ids: everything
/// is keyed by the filename.
#[derive(Debug, Clone)]
pub struct IndexFile {
    pub version: u32,
    pub tracks: Vec<String>,
    pub playlists: Vec<PlaylistRepr>,
}

impl IndexFile {
    /// An empty index of the current version.
    pub fn empty() -> (r: Self)
        ensures
            r.version == FORMAT_VERSION,
            r.tracks@.len() == 0,
            r.playlists@.len() == 0,
    {
        IndexFile { version: FORMAT_VERSION, tracks: Vec::new(), playlists: Vec::new() }
    }
}

/// What was read of the index when it existed: the parsed file, or `None`
/// when it did not parse.  A file of the current version is kept; anything
/// else is replaced by an empty index, and the flag says that the caller has
/// to set the old file aside and write a new one.
pub fn index_or_reset(parsed: Option<IndexFile>) -> (r: (IndexFile, bool))
    ensures
        match parsed {
            Some(f) if f.version == FORMAT_VERSION => r.0 == f && !r.1,
            _ => r.0.version == FORMAT_VERSION && r.0.tracks@.len() == 0 && r.0.playlists@.len()
                == 0 && r.1,
        },
{
    match parsed {
        Some(f) => {
            if f.version == FORMAT_VERSION {
                (f, false)
            } else {
                (IndexFile::empty(), true)
            }
        },
        None => (IndexFile::empty(), true),
    }
}

/// The views of `v`.
pub open spec fn str_views(v: Seq<String>) -> Seq<Seq<char>> {
    Seq::new(v.len(), |i: int| v[i]@)
}

/// First position of `n` in `ns`, or `ns.len()`.
pub open spec fn name_pos(ns: Seq<Seq<char>>, n: Seq<char>) -> int
    decreases ns.len(),
{
    if ns.len() == 0 {
        0
    } else if ns[0] == n {
        0
    } else {
        1 + name_pos(ns.drop_first(), n)
    }
}

proof fn lemma_name_pos(ns: Seq<Seq<char>>, n: Seq<char>)
    ensures
        0 <= name_pos(ns, n) <= ns.len(),
        name_pos(ns, n) < ns.len() ==> ns[name_pos(ns, n)] == n,
        forall|i: int| 0 <= i < name_pos(ns, n) ==> ns[i] != n,
        name_pos(ns, n) < ns.len() <==> ns.contains(n),
    decreases ns.len(),
{
    if ns.len() > 0 && ns[0] != n {
        lemma_name_pos(ns.drop_first(), n);
        assert forall|i: int| 0 <= i < name_pos(ns, n) implies ns[i] != n by {
            if i > 0 {
                assert(ns[i] == ns.drop_first()[i - 1]);
            }
        }
        if ns.contains(n) {
            let k = choose|k: int| 0 <= k < ns.len() && ns[k] == n;
            assert(ns.drop_first()[k - 1] == n);
        }
        if name_pos(ns, n) < ns.len() {
            assert(ns[name_pos(ns, n)] == ns.drop_first()[name_pos(ns.drop_first(), n)]);
        }
    }
}

proof fn lemma_name_pos_unique(ns: Seq<Seq<char>>, i: int)
    requires
        ns.no_duplicates(),
        0 <= i < ns.len(),
    ensures
        name_pos(ns, ns[i]) == i,
{
    lemma_name_pos(ns, ns[i]);
    assert(ns.contains(ns[i]));
}

/// The listed names that are present, each once, in listed order.
pub open spec fn kept_names(listed: Seq<Seq<char>>, present: Seq<Seq<char>>) -> Seq<Seq<char>>
    decreases listed.len(),
{
    if listed.len() == 0 {
        Seq::empty()
    } else {
        let k = kept_names(listed.drop_last(), present);
        let n = listed.last();
        if present.contains(n) && !k.contains(n) {
            k.push(n)
        } else {
            k
        }
    }
}

/// The present names not among `kept`, in present order.
pub open spec fn extra_names(present: Seq<Seq<char>>, kept: Seq<Seq<char>>) -> Seq<Seq<char>>
    decreases present.len(),
{
    if present.len() == 0 {
        Seq::empty()
    } else {
        let e = extra_names(present.drop_last(), kept);
        if kept.contains(present.last()) {
            e
        } else {
            e.push(present.last())
        }
    }
}

/// `s` with `n` inserted after the last name that sorts at or before it.
pub open spec fn insert_name(s: Seq<Seq<char>>, n: Seq<char>) -> Seq<Seq<char>>
    decreases s.len(),
{
    if s.len() == 0 {
        seq![n]
    } else if lex_le(s.last(), n) {
        s.push(n)
    } else {
        insert_name(s.drop_last(), n).push(s.last())
    }
}

/// `s` sorted by `String`'s order (stably, though present names are
/// distinct).
pub open spec fn sort_names(s: Seq<Seq<char>>) -> Seq<Seq<char>>
    decreases s.len(),
{
    if s.len() == 0 {
        Seq::empty()
    } else {
        insert_name(sort_names(s.drop_last()), s.last())
    }
}

/// The library's order of filenames: what the index lists that still
/// exists, then every other present file in sorted order.
pub open spec fn track_order(listed: Seq<Seq<char>>, present: Seq<Seq<char>>) -> Seq<Seq<char>> {
    let kept = kept_names(listed, present);
    kept + sort_names(extra_names(present, kept))
}

/// A playlist's filenames resolved to the ids of `order` (position + 1),
/// dropping names not in `order` and repeats.
pub open spec fn resolve_names(names: Seq<Seq<char>>, order: Seq<Seq<char>>) -> Seq<u64>
    decreases names.len(),
{
    if names.len() == 0 {
        Seq::empty()
    } else {
        let r = resolve_names(names.drop_last(), order);
        let k = name_pos(order, names.last());
        if k < order.len() && !r.contains((k + 1) as u64) {
            r.push((k + 1) as u64)
        } else {
            r
        }
    }
}

/// The names of a directory listing of `(name, path)` pairs.
pub open spec fn present_names(present: Seq<(String, String)>) -> Seq<Seq<char>> {
    Seq::new(present.len(), |i: int| present[i].0@)
}

/// Whether loading `file` from a listing whose names are `names` changes
/// what the index says: the index was reset, a listed file is gone or listed
/// twice, a file is not listed, or a playlist lost an entry.
pub open spec fn load_changes(file: IndexFile, reset: bool, names: Seq<Seq<char>>) -> bool {
    let listed = str_views(file.tracks@);
    let kept = kept_names(listed, names);
    let order = track_order(listed, names);
    ||| reset
    ||| kept.len() != listed.len()
    ||| extra_names(names, kept).len() > 0
    ||| exists|j: int|
        0 <= j < file.playlists@.len() && #[trigger] resolve_names(
            str_views(file.playlists@[j].tracks@),
            order,
        ).len() != file.playlists@[j].tracks@.len()
}


proof fn lemma_insert_name(s: Seq<Seq<char>>, n: Seq<char>)
    ensures
        insert_name(s, n).len() == s.len() + 1,
        forall|x: Seq<char>| insert_name(s, n).contains(x) <==> (s.contains(x) || x == n),
        s.no_duplicates() && !s.contains(n) ==> insert_name(s, n).no_duplicates(),
    decreases s.len(),
{
    broadcast use vstd::seq_lib::group_seq_properties;
    if s.len() > 0 {
        let d = s.drop_last();
        assert(s =~= d.push(s.last()));
        if !lex_le(s.last(), n) {
            lemma_insert_name(d, n);
            let t = insert_name(d, n);
            assert forall|x: Seq<char>| insert_name(s, n).contains(x) <==> (s.contains(x) || x == n) by {
                assert(t.push(s.last()).contains(x) <==> (t.contains(x) || x == s.last()));
                assert(s.contains(x) <==> (d.contains(x) || x == s.last()));
            }
            if s.no_duplicates() && !s.contains(n) {
                assert(d.no_duplicates());
                assert(!d.contains(n));
                assert(!d.contains(s.last())) by {
                    if d.contains(s.last()) {
                        let k = choose|k: int| 0 <= k < d.len() && d[k] == s.last();
                        assert(s[k] == s[s.len() - 1]);
                    }
                }
                assert(!t.contains(s.last()));
                assert forall|a: int, b: int|
                    0 <= a < t.push(s.last()).len() && 0 <= b < t.push(s.last()).len() && a != b implies t.push(
                    s.last(),
                )[a] != t.push(s.last())[b] by {
                    if a == t.len() {
                        assert(t.contains(t[b]));
                    } else if b == t.len() {
                        assert(t.contains(t[a]));
                    }
                }
            }
        } else {
            if s.no_duplicates() && !s.contains(n) {
                assert forall|a: int, b: int|
                    0 <= a < s.push(n).len() && 0 <= b < s.push(n).len() && a != b implies s.push(n)[a]
                    != s.push(n)[b] by {
                    if a == s.len() {
                        assert(s.contains(s[b]));
                    } else if b == s.len() {
                        assert(s.contains(s[a]));
                    }
                }
            }
        }
    }
}

proof fn lemma_sort_names(s: Seq<Seq<char>>)
    ensures
        sort_names(s).len() == s.len(),
        forall|x: Seq<char>| sort_names(s).contains(x) <==> s.contains(x),
        s.no_duplicates() ==> sort_names(s).no_duplicates(),
    decreases s.len(),
{
    broadcast use vstd::seq_lib::group_seq_properties;
    if s.len() > 0 {
        let d = s.drop_last();
        lemma_sort_names(d);
        lemma_insert_name(sort_names(d), s.last());
        assert(s =~= d.push(s.last()));
        if s.no_duplicates() {
            assert(d.no_duplicates());
            assert(!d.contains(s.last())) by {
                if d.contains(s.last()) {
                    let k = choose|k: int| 0 <= k < d.len() && d[k] == s.last();
                    assert(s[k] == s[s.len() - 1]);
                }
            }
        }
    }
}

proof fn lemma_kept_names(listed: Seq<Seq<char>>, present: Seq<Seq<char>>)
    ensures
        kept_names(listed, present).no_duplicates(),
        kept_names(listed, present).len() <= listed.len(),
        forall|x: Seq<char>|
            kept_names(listed, present).contains(x) <==> (listed.contains(x) && present.contains(x)),
    decreases listed.len(),
{
    broadcast use vstd::seq_lib::group_seq_properties;
    if listed.len() > 0 {
        let d = listed.drop_last();
        lemma_kept_names(d, present);
        assert(listed =~= d.push(listed.last()));
        let k = kept_names(d, present);
        let n = listed.last();
        if present.contains(n) && !k.contains(n) {
            assert forall|a: int, b: int|
                0 <= a < k.push(n).len() && 0 <= b < k.push(n).len() && a != b implies k.push(n)[a]
                != k.push(n)[b] by {
                if a == k.len() {
                    assert(k.contains(k[b]));
                } else if b == k.len() {
                    assert(k.contains(k[a]));
                }
            }
        }
    }
}

proof fn lemma_extra_names(present: Seq<Seq<char>>, kept: Seq<Seq<char>>)
    ensures
        present.no_duplicates() ==> extra_names(present, kept).no_duplicates(),
        forall|x: Seq<char>|
            extra_names(present, kept).contains(x) <==> (present.contains(x) && !kept.contains(x)),
    decreases present.len(),
{
    broadcast use vstd::seq_lib::group_seq_properties;
    if present.len() > 0 {
        let d = present.drop_last();
        lemma_extra_names(d, kept);
        assert(present =~= d.push(present.last()));
        let e = extra_names(d, kept);
        let n = present.last();
        if present.no_duplicates() && !kept.contains(n) {
            assert(d.no_duplicates());
            assert(!d.contains(n)) by {
                if d.contains(n) {
                    let k = choose|k: int| 0 <= k < d.len() && d[k] == n;
                    assert(present[k] == present[present.len() - 1]);
                }
            }
            assert(!e.contains(n));
            assert forall|a: int, b: int|
                0 <= a < e.push(n).len() && 0 <= b < e.push(n).len() && a != b implies e.push(n)[a]
                != e.push(n)[b] by {
                if a == e.len() {
                    assert(e.contains(e[b]));
                } else if b == e.len() {
                    assert(e.contains(e[a]));
                }
            }
        }
    }
}

/// The library's order never repeats a name and only holds present names,
/// so it is no longer than the listing.
proof fn lemma_track_order(listed: Seq<Seq<char>>, present: Seq<Seq<char>>)
    requires
        present.no_duplicates(),
    ensures
        track_order(listed, present).no_duplicates(),
        forall|x: Seq<char>| track_order(listed, present).contains(x) <==> present.contains(x),
        track_order(listed, present).len() <= present.len(),
{
    broadcast use vstd::seq_lib::group_seq_properties;
    let kept = kept_names(listed, present);
    let extra = extra_names(present, kept);
    let sorted = sort_names(extra);
    let order = track_order(listed, present);
    lemma_kept_names(listed, present);
    lemma_extra_names(present, kept);
    lemma_sort_names(extra);
    assert forall|x: Seq<char>| order.contains(x) <==> present.contains(x) by {
        assert(order.contains(x) <==> (kept.contains(x) || sorted.contains(x)));
    }
    assert forall|a: int, b: int| 0 <= a < order.len() && 0 <= b < order.len() && a != b implies order[a]
        != order[b] by {
        if a < kept.len() && b >= kept.len() {
            assert(sorted.contains(order[b]));
            assert(kept.contains(order[a]));
        } else if b < kept.len() && a >= kept.len() {
            assert(sorted.contains(order[a]));
            assert(kept.contains(order[b]));
        } else if a >= kept.len() {
            assert(order[a] == sorted[a - kept.len()]);
            assert(order[b] == sorted[b - kept.len()]);
        }
    }
    order.unique_seq_to_set();
    present.unique_seq_to_set();
    assert(order.to_set().subset_of(present.to_set()));
    vstd::set_lib::lemma_len_subset(order.to_set(), present.to_set());
}

proof fn lemma_resolve_names(names: Seq<Seq<char>>, order: Seq<Seq<char>>)
    requires
        order.len() < u64::MAX,
    ensures
        no_dups(resolve_names(names, order)),
        resolve_names(names, order).len() <= names.len(),
        forall|i: int|
            0 <= i < resolve_names(names, order).len() ==> 1 <= #[trigger] resolve_names(names, order)[i]
                <= order.len(),
    decreases names.len(),
{
    broadcast use vstd::seq_lib::group_seq_properties;
    if names.len() > 0 {
        let d = names.drop_last();
        lemma_resolve_names(d, order);
        lemma_name_pos(order, names.last());
        let r = resolve_names(d, order);
        let k = name_pos(order, names.last());
        if k < order.len() && !r.contains((k + 1) as u64) {
            let rp = r.push((k + 1) as u64);
            assert forall|i: int| 0 <= i < rp.len() implies 1 <= #[trigger] rp[i] <= order.len() by {
                if i < r.len() {
                    assert(rp[i] == r[i]);
                }
            }
            assert forall|a: int, b: int| 0 <= a < b < rp.len() implies #[trigger] rp[a] != #[trigger] rp[b] by {
                if b == r.len() {
                    assert(rp[a] == r[a]);
                    assert(r.contains(r[a]));
                }
            }
        }
    }
}

proof fn lemma_insert_name_scan(s: Seq<Seq<char>>, e: Seq<char>, j: int)
    requires
        0 < j <= s.len(),
        !lex_le(s[j - 1], e),
    ensures
        insert_name(s.take(j), e) == insert_name(s.take(j - 1), e).push(s[j - 1]),
{
    assert(s.take(j).drop_last() =~= s.take(j - 1));
}

/// `v` sorted by `String`'s order.
fn sort_strings(v: Vec<String>) -> (r: Vec<String>)
    ensures
        str_views(r@) == sort_names(str_views(v@)),
{
    let ghost all = str_views(v@);
    let mut out: Vec<String> = Vec::new();
    let mut out_chars: Vec<Vec<char>> = Vec::new();
    let n = v.len();
    for i in 0..n
        invariant
            n == v@.len(),
            all == str_views(v@),
            out@.len() == out_chars@.len(),
            forall|k: int| 0 <= k < out@.len() ==> #[trigger] out_chars@[k]@ == out@[k]@,
            str_views(out@) == sort_names(all.take(i as int)),
    {
        let ghost s = str_views(out@);
        let ghost ev = all[i as int];
        let key = chars_of(v[i].as_str());
        proof {
            assert(all.take(i + 1).drop_last() =~= all.take(i as int));
            assert(all.take(i + 1).last() == ev);
        }
        let mut j = out.len();
        proof {
            assert(s.take(j as int) =~= s);
            assert(insert_name(s, ev) =~= insert_name(s.take(j as int), ev) + s.skip(j as int));
        }
        while j > 0 && !lex_le_chars(&out_chars[j - 1], &key)
            invariant
                j <= out@.len(),
                out@.len() == out_chars@.len(),
                forall|k: int| 0 <= k < out@.len() ==> #[trigger] out_chars@[k]@ == out@[k]@,
                s == str_views(out@),
                key@ == ev,
                insert_name(s, ev) == insert_name(s.take(j as int), ev) + s.skip(j as int),
            decreases j,
        {
            proof {
                assert(s[j - 1] == out_chars@[j - 1]@);
                lemma_insert_name_scan(s, ev, j as int);
                assert(s.skip(j - 1) =~= seq![s[j - 1]] + s.skip(j as int));
                assert(insert_name(s.take(j - 1), ev).push(s[j - 1]) + s.skip(j as int)
                    =~= insert_name(s.take(j - 1), ev) + s.skip(j - 1));
            }
            j = j - 1;
        }
        proof {
            if j > 0 {
                assert(s.take(j as int).last() == s[j - 1]);
                assert(s[j - 1] == out_chars@[j - 1]@);
            } else {
                assert(s.take(0) =~= Seq::<Seq<char>>::empty());
            }
        }
        let ghost oc0 = out_chars@;
        let ghost o0 = out@;
        out.insert(j, v[i].clone());
        out_chars.insert(j, key);
        proof {
            assert(str_views(out@) =~= s.take(j as int).push(ev) + s.skip(j as int));
            assert(insert_name(s, ev) =~= s.take(j as int).push(ev) + s.skip(j as int));
            assert forall|k: int| 0 <= k < out@.len() implies #[trigger] out_chars@[k]@ == out@[k]@ by {
                if k < j {
                    assert(out_chars@[k] == oc0[k]);
                    assert(out@[k] == o0[k]);
                } else if k > j {
                    assert(out_chars@[k] == oc0[k - 1]);
                    assert(out@[k] == o0[k - 1]);
                }
            }
        }
    }
    proof {
        assert(all.take(n as int) =~= all);
    }
    out
}


/// Path of the first entry of `present` named `n`.
pub open spec fn path_for(present: Seq<(String, String)>, n: Seq<char>) -> Seq<char> {
    present[name_pos(present_names(present), n)].1@
}

/// The names of a directory listing.
fn listing_names(present: &Vec<(String, String)>) -> (names: Vec<String>)
    ensures
        str_views(names@) == present_names(present@),
{
    let ghost pn = present_names(present@);
    let mut names: Vec<String> = Vec::new();
    let n = present.len();
    let mut i: usize = 0;
    while i < n
        invariant
            i <= n,
            n == present@.len(),
            pn == present_names(present@),
            names@.len() == i,
            forall|k: int| 0 <= k < i ==> (#[trigger] names@[k])@ == pn[k],
        decreases n - i,
    {
        let ghost n0 = names@;
        let s = present[i].0.clone();
        proof {
            assert(s@ == present@[i as int].0@);
        }
        names.push(s);
        proof {
            assert forall|k: int| 0 <= k < i + 1 implies (#[trigger] names@[k])@ == pn[k] by {
                if k < i {
                    assert(names@[k] == n0[k]);
                }
            }
        }
        i = i + 1;
    }
    proof {
        assert(str_views(names@) =~= pn);
    }
    names
}

/// The listing as a map from each name to its path.
fn present_map(present: &Vec<(String, String)>) -> (m: FxHashMap<String, String>)
    requires
        present_names(present@).no_duplicates(),
    ensures
        forall|x: Seq<char>| name_paths(m).dom().contains(x) <==> present_names(present@).contains(x),
        forall|x: Seq<char>|
            #[trigger] present_names(present@).contains(x) ==> name_paths(m)[x] == path_for(present@, x),
{
    let ghost pn = present_names(present@);
    let mut m = name_paths_new();
    for i in 0..present.len()
        invariant
            pn == present_names(present@),
            pn.no_duplicates(),
            forall|x: Seq<char>| name_paths(m).dom().contains(x) <==> pn.take(i as int).contains(x),
            forall|x: Seq<char>| pn.take(i as int).contains(x) ==> name_paths(m)[x] == path_for(present@, x),
    {
        name_paths_insert(&mut m, present[i].0.clone(), present[i].1.clone());
        proof {
            lemma_name_pos_unique(pn, i as int);
            let a = pn.take(i as int);
            let b = pn.take(i + 1);
            assert(pn[i as int] == present@[i as int].0@);
            assert forall|x: Seq<char>| name_paths(m).dom().contains(x) <==> b.contains(x) by {
                if x == pn[i as int] {
                    assert(b[i as int] == x);
                } else if a.contains(x) {
                    let k = choose|k: int| 0 <= k < a.len() && #[trigger] a[k] == x;
                    assert(b[k] == x);
                } else if b.contains(x) {
                    let k = choose|k: int| 0 <= k < b.len() && #[trigger] b[k] == x;
                    assert(a[k] == x);
                }
            }
            assert forall|x: Seq<char>| b.contains(x) implies name_paths(m)[x] == path_for(present@, x) by {
                if x != pn[i as int] {
                    let k = choose|k: int| 0 <= k < b.len() && #[trigger] b[k] == x;
                    assert(a[k] == x);
                }
            }
        }
    }
    proof {
        assert(pn.take(present@.len() as int) =~= pn);
    }
    m
}

/// The listed names that are present, each once, whether any listed name
/// was dropped, and the set of names kept.
fn kept_listed(listed: &Vec<String>, present: &FxHashMap<String, String>, Ghost(pn): Ghost<Seq<Seq<char>>>) -> (r: (
    Vec<String>,
    bool,
    FxHashSet<String>,
))
    requires
        forall|x: Seq<char>| name_paths(*present).dom().contains(x) <==> pn.contains(x),
    ensures
        str_views(r.0@) == kept_names(str_views(listed@), pn),
        r.1 == (kept_names(str_views(listed@), pn).len() != listed@.len()),
        forall|x: Seq<char>| name_set(r.2).contains(x) <==> str_views(r.0@).contains(x),
{
    let ghost l = str_views(listed@);
    let mut order: Vec<String> = Vec::new();
    let mut seen = name_set_new();
    let mut dropped = false;
    for i in 0..listed.len()
        invariant
            l == str_views(listed@),
            forall|x: Seq<char>| name_paths(*present).dom().contains(x) <==> pn.contains(x),
            str_views(order@) == kept_names(l.take(i as int), pn),
            dropped == (kept_names(l.take(i as int), pn).len() != i),
            forall|x: Seq<char>| name_set(seen).contains(x) <==> str_views(order@).contains(x),
    {
        proof {
            assert(l.take(i + 1).drop_last() =~= l.take(i as int));
            assert(l.take(i + 1).last() == listed@[i as int]@);
            lemma_kept_names(l.take(i as int), pn);
        }
        let n = &listed[i];
        if name_paths_contains(present, n) && name_set_insert(&mut seen, n.clone()) {
            let ghost o0 = order@;
            order.push(n.clone());
            proof {
                assert(str_views(order@) =~= str_views(o0).push(n@));
                assert forall|x: Seq<char>| name_set(seen).contains(x) <==> str_views(order@).contains(x) by {
                    if x == n@ {
                        assert(str_views(order@)[o0.len() as int] == n@);
                    } else if str_views(o0).contains(x) {
                        let k = choose|k: int| 0 <= k < o0.len() && str_views(o0)[k] == x;
                        assert(str_views(order@)[k] == x);
                    } else if str_views(order@).contains(x) {
                        let k = choose|k: int| 0 <= k < order@.len() && str_views(order@)[k] == x;
                        assert(str_views(o0)[k] == x);
                    }
                }
            }
        } else {
            dropped = true;
        }
    }
    proof {
        assert(l.take(listed@.len() as int) =~= l);
    }
    (order, dropped, seen)
}

/// The names not in `seen` (which holds the names of `kept`), sorted.
fn sorted_extras(names: &Vec<String>, seen: &FxHashSet<String>, Ghost(k): Ghost<Seq<Seq<char>>>) -> (r: Vec<
    String,
>)
    requires
        forall|x: Seq<char>| name_set(*seen).contains(x) <==> k.contains(x),
    ensures
        str_views(r@) == sort_names(extra_names(str_views(names@), k)),
{
    let ghost pn = str_views(names@);
    let mut extra: Vec<String> = Vec::new();
    for i in 0..names.len()
        invariant
            pn == str_views(names@),
            forall|x: Seq<char>| name_set(*seen).contains(x) <==> k.contains(x),
            str_views(extra@) == extra_names(pn.take(i as int), k),
    {
        proof {
            assert(pn.take(i + 1).drop_last() =~= pn.take(i as int));
            assert(pn.take(i + 1).last() == names@[i as int]@);
        }
        if !name_set_contains(seen, &names[i]) {
            let ghost e0 = extra@;
            extra.push(names[i].clone());
            proof {
                assert(str_views(extra@) =~= str_views(e0).push(names@[i as int]@));
            }
        }
    }
    proof {
        assert(pn.take(names@.len() as int) =~= pn);
    }
    sort_strings(extra)
}

/// Tracks for the names of `order`, with ids from 1 and the paths the
/// listing gives, and the map from each name to its track's id.
fn fresh_tracks(
    order: &Vec<String>,
    paths: &FxHashMap<String, String>,
    listing: Ghost<Seq<(String, String)>>,
) -> (r: (Vec<Track>, FxHashMap<String, u64>))
    requires
        forall|x: Seq<char>|
            #[trigger] present_names(listing@).contains(x) ==> name_paths(*paths).dom().contains(x) && name_paths(
                *paths,
            )[x] == path_for(listing@, x),
        str_views(order@).no_duplicates(),
        order@.len() < u64::MAX,
        forall|x: Seq<char>| str_views(order@).contains(x) ==> present_names(listing@).contains(x),
    ensures
        r.0@.len() == order@.len(),
        forall|k: int|
            0 <= k < order@.len() ==> (#[trigger] r.0@[k]).id == k + 1 && r.0@[k].path@ == path_for(
                listing@,
                order@[k]@,
            ) && r.0@[k].name@.len() == 0 && r.0@[k].artist is None && r.0@[k].album is None
                && r.0@[k].lyrics is None && r.0@[k].duration_secs is None,
        forall|x: Seq<char>| name_ids(r.1).contains_key(x) <==> str_views(order@).contains(x),
        forall|x: Seq<char>|
            str_views(order@).contains(x) ==> name_ids(r.1)[x] == name_pos(str_views(order@), x) + 1,
{
    let ghost ord = str_views(order@);
    let ghost pn = present_names(listing@);
    let mut tracks: Vec<Track> = Vec::new();
    let mut by_name = name_ids_new();
    let n = order.len();
    let mut i: usize = 0;
    while i < n
        invariant
            i <= n,
            n == order@.len(),
            ord == str_views(order@),
            pn == present_names(listing@),
            forall|x: Seq<char>|
                #[trigger] present_names(listing@).contains(x) ==> name_paths(*paths).dom().contains(x)
                    && name_paths(*paths)[x] == path_for(listing@, x),
            forall|x: Seq<char>| ord.contains(x) ==> pn.contains(x),
            ord.no_duplicates(),
            n < u64::MAX,
            forall|x: Seq<char>| name_ids(by_name).contains_key(x) <==> ord.take(i as int).contains(x),
            forall|x: Seq<char>|
                ord.take(i as int).contains(x) ==> name_ids(by_name)[x] == name_pos(ord, x) + 1,
            tracks@.len() == i,
            forall|k: int|
                0 <= k < i ==> (#[trigger] tracks@[k]).id == k + 1 && tracks@[k].path@ == path_for(
                    listing@,
                    order@[k]@,
                ) && tracks@[k].name@.len() == 0 && tracks@[k].artist is None
                    && tracks@[k].album is None && tracks@[k].lyrics is None
                    && tracks@[k].duration_secs is None,
        decreases n - i,
    {
        proof {
            assert(ord[i as int] == order@[i as int]@);
            assert(ord.contains(ord[i as int]));
        }
        let path = name_paths_get(paths, &order[i]).unwrap();
        let t = Track::at((i as u64) + 1, path);
        let ghost t0 = tracks@;
        tracks.push(t);
        let ghost b0 = name_ids(by_name);
        name_ids_insert(&mut by_name, order[i].clone(), (i as u64) + 1);
        proof {
            lemma_name_pos_unique(ord, i as int);
            let a = ord.take(i as int);
            let b = ord.take(i + 1);
            assert forall|x: Seq<char>| name_ids(by_name).contains_key(x) <==> b.contains(x) by {
                if x == ord[i as int] {
                    assert(b[i as int] == x);
                } else if a.contains(x) {
                    let k = choose|k: int| 0 <= k < a.len() && #[trigger] a[k] == x;
                    assert(b[k] == x);
                } else if b.contains(x) {
                    let k = choose|k: int| 0 <= k < b.len() && #[trigger] b[k] == x;
                    assert(a[k] == x);
                }
            }
            assert forall|x: Seq<char>| b.contains(x) implies name_ids(by_name)[x] == name_pos(ord, x) + 1 by {
                if x != ord[i as int] {
                    let k = choose|k: int| 0 <= k < b.len() && #[trigger] b[k] == x;
                    assert(a[k] == x);
                }
            }
        }
        i = i + 1;
    }
    proof {
        assert(ord.take(n as int) =~= ord);
    }
    (tracks, by_name)
}

/// A playlist's filenames resolved, through `by_name`, to ids of the
/// names `ord`.
fn resolve_repr(names: &Vec<String>, by_name: &FxHashMap<String, u64>, Ghost(ord): Ghost<Seq<Seq<char>>>) -> (r: Vec<u64>)
    requires
        ord.len() < u64::MAX,
        forall|x: Seq<char>| name_ids(*by_name).contains_key(x) <==> ord.contains(x),
        forall|x: Seq<char>| ord.contains(x) ==> name_ids(*by_name)[x] == name_pos(ord, x) + 1,
    ensures
        r@ == resolve_names(str_views(names@), ord),
{
    let ghost rn = str_views(names@);
    let mut ids: Vec<u64> = Vec::new();
    let mut seen: FxHashSet<u64> = FxHashSet::default();
    for q in 0..names.len()
        invariant
            rn == str_views(names@),
            ord.len() < u64::MAX,
            forall|x: Seq<char>| name_ids(*by_name).contains_key(x) <==> ord.contains(x),
            forall|x: Seq<char>| ord.contains(x) ==> name_ids(*by_name)[x] == name_pos(ord, x) + 1,
            ids@ == resolve_names(rn.take(q as int), ord),
            forall|x: u64| seen@.contains(x) <==> ids@.contains(x),
    {
        proof {
            assert(rn.take(q + 1).drop_last() =~= rn.take(q as int));
            assert(rn.take(q + 1).last() == names@[q as int]@);
        }
        proof {
            lemma_name_pos(ord, rn[q as int]);
        }
        if let Some(id) = name_ids_get(by_name, &names[q]) {
            if id_set_insert(&mut seen, id) {
                let ghost i0 = ids@;
                ids.push(id);
                proof {
                    assert forall|x: u64| seen@.contains(x) <==> ids@.contains(x) by {
                        if x == id {
                            assert(ids@[i0.len() as int] == id);
                        } else if i0.contains(x) {
                            let j = choose|j: int| 0 <= j < i0.len() && i0[j] == x;
                            assert(ids@[j] == x);
                        } else if ids@.contains(x) {
                            let j = choose|j: int| 0 <= j < ids@.len() && ids@[j] == x;
                            assert(i0[j] == x);
                        }
                    }
                }
            }
        }
    }
    proof {
        assert(rn.take(names@.len() as int) =~= rn);
    }
    ids
}

/// Some playlist of `reprs` loses an entry when resolved against `order`.
pub open spec fn some_playlist_shrinks(reprs: Seq<PlaylistRepr>, order: Seq<Seq<char>>) -> bool {
    exists|k: int|
        0 <= k < reprs.len() && #[trigger] resolve_names(str_views(reprs[k].tracks@), order).len()
            != reprs[k].tracks@.len()
}

/// The playlists of the index, with ids from 1, and whether one lost an
/// entry.
fn resolve_playlists(
    reprs: &Vec<PlaylistRepr>,
    by_name: &FxHashMap<String, u64>,
    Ghost(ord): Ghost<Seq<Seq<char>>>,
) -> (r: (Vec<Playlist>, bool))
    requires
        ord.len() < u64::MAX,
        forall|x: Seq<char>| name_ids(*by_name).contains_key(x) <==> ord.contains(x),
        forall|x: Seq<char>| ord.contains(x) ==> name_ids(*by_name)[x] == name_pos(ord, x) + 1,
        reprs@.len() < u64::MAX,
    ensures
        r.0@.len() == reprs@.len(),
        forall|k: int| 0 <= k < reprs@.len() ==> (#[trigger] r.0@[k]).id == k + 1,
        forall|k: int| 0 <= k < reprs@.len() ==> (#[trigger] r.0@[k]).name@ == reprs@[k].name@,
        forall|k: int|
            0 <= k < reprs@.len() ==> (#[trigger] r.0@[k]).tracks@ == resolve_names(
                str_views(reprs@[k].tracks@),
                ord,
            ),
        r.1 == some_playlist_shrinks(reprs@, ord),
{
    let mut playlists: Vec<Playlist> = Vec::new();
    let mut shrank = false;
    let np = reprs.len();
    let mut j: usize = 0;
    while j < np
        invariant
            j <= np,
            np == reprs@.len(),
            ord.len() < u64::MAX,
            forall|x: Seq<char>| name_ids(*by_name).contains_key(x) <==> ord.contains(x),
            forall|x: Seq<char>| ord.contains(x) ==> name_ids(*by_name)[x] == name_pos(ord, x) + 1,
            reprs@.len() < u64::MAX,
            playlists@.len() == j,
            forall|k: int| 0 <= k < j ==> (#[trigger] playlists@[k]).id == k + 1,
            forall|k: int| 0 <= k < j ==> (#[trigger] playlists@[k]).name@ == reprs@[k].name@,
            forall|k: int|
                0 <= k < j ==> (#[trigger] playlists@[k]).tracks@ == resolve_names(
                    str_views(reprs@[k].tracks@),
                    ord,
                ),
            shrank == some_playlist_shrinks(reprs@.take(j as int), ord),
        decreases np - j,
    {
        let repr = &reprs[j];
        let ids = resolve_repr(&repr.tracks, by_name, Ghost(ord));
        let ghost before = reprs@.take(j as int);
        let ghost after = reprs@.take(j + 1);
        proof {
            assert(after[j as int] == reprs@[j as int]);
            assert(some_playlist_shrinks(after, ord) == (some_playlist_shrinks(before, ord) || resolve_names(
                str_views(reprs@[j as int].tracks@),
                ord,
            ).len() != reprs@[j as int].tracks@.len())) by {
                if some_playlist_shrinks(after, ord) {
                    let k = choose|k: int|
                        0 <= k < after.len() && #[trigger] resolve_names(str_views(after[k].tracks@), ord).len()
                            != after[k].tracks@.len();
                    if k < j {
                        assert(before[k] == after[k]);
                    }
                }
                if some_playlist_shrinks(before, ord) {
                    let k = choose|k: int|
                        0 <= k < before.len() && #[trigger] resolve_names(str_views(before[k].tracks@), ord).len()
                            != before[k].tracks@.len();
                    assert(before[k] == after[k]);
                }
            }
        }
        if ids.len() != repr.tracks.len() {
            shrank = true;
        }
        let ghost p0 = playlists@;
        playlists.push(Playlist { id: (j as u64) + 1, name: repr.name.clone(), tracks: ids });
        proof {
            assert forall|k: int| 0 <= k < j + 1 implies (#[trigger] playlists@[k]).id == k + 1
                && playlists@[k].name@ == reprs@[k].name@ && playlists@[k].tracks@ == resolve_names(
                str_views(reprs@[k].tracks@),
                ord,
            ) by {
                if k < j {
                    assert(playlists@[k] == p0[k]);
                }
            }
        }
        j = j + 1;
    }
    proof {
        assert(reprs@.take(np as int) =~= reprs@);
    }
    (playlists, shrank)
}

impl Library {
    /// Builds the library from the index and what the music directory holds
    /// (`present`: each audio file's name and path), and says whether the
    /// index has to be rewritten.
    ///
    /// The order is what the index lists that still exists, then any present
    /// file the index does not mention, sorted by name.  Ids are handed out
    /// afresh from 1, and each playlist keeps the tracks it names that exist,
    /// each once.  Metadata stays empty until the files' tags are read.
    pub fn from_index(file: IndexFile, reset: bool, present: &Vec<(String, String)>) -> (r: (
        Library,
        bool,
    ))
        requires
            present_names(present@).no_duplicates(),
            present@.len() < u64::MAX,
            file.playlists@.len() < u64::MAX,
        ensures
            r.0.wf(),
            r.0.members_known(),
            r.1 == load_changes(file, reset, present_names(present@)),
            ({
                let order = track_order(str_views(file.tracks@), present_names(present@));
                &&& r.0.tracks@.len() == order.len()
                &&& forall|i: int|
                    0 <= i < order.len() ==> (#[trigger] r.0.tracks@[i]).id == i + 1
                        && r.0.tracks@[i].path@ == path_for(present@, order[i])
                        && r.0.tracks@[i].name@.len() == 0 && r.0.tracks@[i].artist is None
                        && r.0.tracks@[i].album is None && r.0.tracks@[i].lyrics is None
                        && r.0.tracks@[i].duration_secs is None
                &&& r.0.playlists@.len() == file.playlists@.len()
                &&& forall|j: int|
                    0 <= j < file.playlists@.len() ==> (#[trigger] r.0.playlists@[j]).id == j + 1
                        && r.0.playlists@[j].name@ == file.playlists@[j].name@
                        && r.0.playlists@[j].tracks@ == resolve_names(
                        str_views(file.playlists@[j].tracks@),
                        order,
                    )
                &&& r.0.next_track_id == order.len() + 1
                &&& r.0.next_playlist_id == file.playlists@.len() + 1
            }),
    {
        let ghost listed = str_views(file.tracks@);
        let ghost pn = present_names(present@);
        let names = listing_names(present);
        let paths = present_map(present);
        let (mut order, dropped, seen) = kept_listed(&file.tracks, &paths, Ghost(pn));
        let ghost kept = str_views(order@);
        let mut extra = sorted_extras(&names, &seen, Ghost(kept));
        proof {
            lemma_extra_names(pn, kept);
            lemma_sort_names(extra_names(pn, kept));
        }
        let any_extra = extra.len() > 0;
        order.append(&mut extra);
        let ghost ord = str_views(order@);
        proof {
            assert(ord =~= track_order(listed, pn));
            lemma_track_order(listed, pn);
        }
        let (tracks, by_name) = fresh_tracks(&order, &paths, Ghost(present@));
        let (playlists, shrank) = resolve_playlists(&file.playlists, &by_name, Ghost(ord));
        let n_tracks = order.len() as u64;
        let n_playlists = file.playlists.len() as u64;
        let mut lib = Library {
            tracks,
            playlists,
            next_track_id: n_tracks + 1,
            next_playlist_id: n_playlists + 1,
            by_id: FxHashMap::default(),
        };
        proof {
            assert forall|a: int, b: int| 0 <= a < b < lib.tracks@.len() implies track_ids(
                lib.tracks@,
            )[a] != track_ids(lib.tracks@)[b] by {
                assert(lib.tracks@[a].id == a + 1);
                assert(lib.tracks@[b].id == b + 1);
            }
        }
        lib.reindex();
        proof {
            assert forall|i: int| 0 <= i < lib.tracks@.len() implies #[trigger] lib.tracks@[i].id
                < lib.next_track_id by {
                assert(lib.tracks@[i].id == i + 1);
            }
            assert forall|a: int, b: int| 0 <= a < b < lib.playlists@.len() implies playlist_ids(
                lib.playlists@,
            )[a] != playlist_ids(lib.playlists@)[b] by {
                assert(lib.playlists@[a].id == a + 1);
                assert(lib.playlists@[b].id == b + 1);
            }
            assert forall|i: int| 0 <= i < lib.playlists@.len() implies #[trigger] lib.playlists@[i].id
                < lib.next_playlist_id && no_dups(lib.playlists@[i].tracks@) by {
                assert(lib.playlists@[i].id == i + 1);
                lemma_resolve_names(str_views(file.playlists@[i].tracks@), ord);
            }
            assert forall|i: int, j: int|
                0 <= i < lib.playlists@.len() && 0 <= j < lib.playlists@[i].tracks@.len() implies lib.has_track(
                #[trigger] lib.playlists@[i].tracks@[j],
            ) by {
                lemma_resolve_names(str_views(file.playlists@[i].tracks@), ord);
                let y = lib.playlists@[i].tracks@[j];
                assert(1 <= y <= ord.len());
                assert(lib.tracks@[y - 1].id == y);
                assert(track_ids(lib.tracks@)[y - 1] == y);
            }
            assert(some_playlist_shrinks(file.playlists@, ord) == (exists|k: int|
                0 <= k < file.playlists@.len() && #[trigger] resolve_names(
                    str_views(file.playlists@[k].tracks@),
                    ord,
                ).len() != file.playlists@[k].tracks@.len()));
        }
        (lib, reset || dropped || any_extra || shrank)
    }

    /// What the index on disk says of this library: every track by
    /// filename, in order, and each playlist as its name and the filenames
    /// of the tracks it lists that the library holds.
    pub fn to_index(&self) -> (r: IndexFile)
        requires
            self.wf(),
        ensures
            index_describes(r, *self),
    {
        let mut tracks: Vec<String> = Vec::new();
        let nt = self.tracks.len();
        let mut i: usize = 0;
        while i < nt
            invariant
                i <= nt,
                nt == self.tracks@.len(),
                tracks@.len() == i,
                forall|k: int| 0 <= k < i ==> (#[trigger] tracks@[k])@ == self.tracks@[k].filename_spec(),
            decreases nt - i,
        {
            let ghost t0 = tracks@;
            tracks.push(self.tracks[i].filename());
            proof {
                assert forall|k: int| 0 <= k < i + 1 implies (#[trigger] tracks@[k])@
                    == self.tracks@[k].filename_spec() by {
                    if k < i {
                        assert(tracks@[k] == t0[k]);
                    }
                }
            }
            i = i + 1;
        }
        proof {
            assert(str_views(tracks@) =~= Seq::new(self.tracks@.len(), |i: int| self.tracks@[i].filename_spec()));
        }
        let mut playlists: Vec<PlaylistRepr> = Vec::new();
        let np = self.playlists.len();
        let mut j: usize = 0;
        while j < np
            invariant
                j <= np,
                np == self.playlists@.len(),
                self.wf(),
                playlists@.len() == j,
                forall|k: int| 0 <= k < j ==> (#[trigger] playlists@[k]).name@ == self.playlists@[k].name@,
                forall|k: int|
                    0 <= k < j ==> str_views((#[trigger] playlists@[k]).tracks@) == filenames_of(
                        resolve_ids(self.tracks@, self.playlists@[k].tracks@),
                    ),
            decreases np - j,
        {
            let pl = &self.playlists[j];
            let ghost ids = pl.tracks@;
            let mut names: Vec<String> = Vec::new();
            for q in 0..pl.tracks.len()
                invariant
                    self.wf(),
                    ids == pl.tracks@,
                    str_views(names@) == filenames_of(resolve_ids(self.tracks@, ids.take(q as int))),
            {
                proof {
                    assert(ids.take(q + 1).drop_last() =~= ids.take(q as int));
                    assert(ids.take(q + 1).last() == ids[q as int]);
                    lemma_first_pos(track_ids(self.tracks@), ids[q as int]);
                }
                let ghost n0 = names@;
                match self.track(pl.tracks[q]) {
                    Some(t) => {
                        names.push(t.filename());
                        proof {
                            let want = filenames_of(resolve_ids(self.tracks@, ids.take(q + 1)));
                            assert(want =~= filenames_of(resolve_ids(self.tracks@, ids.take(q as int))).push(
                                t.filename_spec(),
                            ));
                            assert(str_views(names@) =~= str_views(n0).push(t.filename_spec()));
                        }
                    },
                    None => {},
                }
            }
            proof {
                assert(ids.take(pl.tracks@.len() as int) =~= ids);
            }
            let ghost p0 = playlists@;
            playlists.push(PlaylistRepr { name: pl.name.clone(), tracks: names });
            proof {
                assert forall|k: int| 0 <= k < j + 1 implies (#[trigger] playlists@[k]).name@
                    == self.playlists@[k].name@ && str_views(playlists@[k].tracks@) == filenames_of(
                    resolve_ids(self.tracks@, self.playlists@[k].tracks@),
                ) by {
                    if k < j {
                        assert(playlists@[k] == p0[k]);
                    }
                }
            }
            j = j + 1;
        }
        IndexFile { version: FORMAT_VERSION, tracks, playlists }
    }
}

/// The filenames of `ts`, in order.
pub open spec fn filenames_of(ts: Seq<Track>) -> Seq<Seq<char>> {
    Seq::new(ts.len(), |i: int| ts[i].filename_spec())
}

// -- Reading back what was written -------------------------------------------------

/// `file` is what [`Library::to_index`] writes for `lib`.
pub open spec fn index_describes(file: IndexFile, lib: Library) -> bool {
    &&& file.version == FORMAT_VERSION
    &&& str_views(file.tracks@) == filenames_of(lib.tracks@)
    &&& file.playlists@.len() == lib.playlists@.len()
    &&& forall|j: int|
        0 <= j < lib.playlists@.len() ==> #[trigger] file.playlists@[j].name@ == lib.playlists@[j].name@
            && str_views(file.playlists@[j].tracks@) == filenames_of(
            resolve_ids(lib.tracks@, lib.playlists@[j].tracks@),
        )
}

/// The ids a reload gives the tracks `ids` names: their positions in
/// `lib`'s track list, plus one.
pub open spec fn reload_ids(lib: Library, ids: Seq<u64>) -> Seq<u64> {
    Seq::new(ids.len(), |k: int| (first_pos(track_ids(lib.tracks@), ids[k]) + 1) as u64)
}

/// A list whose names are all present and distinct keeps every name, in
/// order.
proof fn lemma_kept_all(listed: Seq<Seq<char>>, present: Seq<Seq<char>>)
    requires
        listed.no_duplicates(),
        forall|x: Seq<char>| listed.contains(x) ==> present.contains(x),
    ensures
        kept_names(listed, present) == listed,
    decreases listed.len(),
{
    if listed.len() > 0 {
        let d = listed.drop_last();
        assert(d.no_duplicates());
        assert forall|x: Seq<char>| d.contains(x) implies present.contains(x) by {
            let k = choose|k: int| 0 <= k < d.len() && d[k] == x;
            assert(listed[k] == x);
        }
        lemma_kept_all(d, present);
        let n = listed.last();
        assert(listed.contains(n));
        assert(!d.contains(n)) by {
            if d.contains(n) {
                let k = choose|k: int| 0 <= k < d.len() && d[k] == n;
                assert(listed[k] == listed[listed.len() - 1]);
            }
        }
        assert(listed =~= d.push(n));
    }
}

/// No present name is left over when every one is kept.
proof fn lemma_no_extras(present: Seq<Seq<char>>, kept: Seq<Seq<char>>)
    requires
        forall|x: Seq<char>| present.contains(x) ==> kept.contains(x),
    ensures
        extra_names(present, kept).len() == 0,
    decreases present.len(),
{
    if present.len() > 0 {
        let d = present.drop_last();
        assert forall|x: Seq<char>| d.contains(x) implies kept.contains(x) by {
            let k = choose|k: int| 0 <= k < d.len() && d[k] == x;
            assert(present[k] == x);
        }
        lemma_no_extras(d, kept);
        assert(present.contains(present.last()));
    }
}

/// In a list without repeats, the position of the name at `p` is `p`.
proof fn lemma_name_at(ns: Seq<Seq<char>>, p: int)
    requires
        ns.no_duplicates(),
        0 <= p < ns.len(),
    ensures
        name_pos(ns, ns[p]) == p,
{
    lemma_name_pos(ns, ns[p]);
    assert(ns.contains(ns[p]));
    let q = name_pos(ns, ns[p]);
    if q != p {
        assert(ns[q] == ns[p]);
    }
}

/// A playlist's ids written as filenames and read back against the same
/// track order give each track its position plus one, every one kept.
proof fn lemma_resolve_back(lib: Library, ids: Seq<u64>)
    requires
        lib.wf(),
        no_dups(ids),
        forall|k: int| 0 <= k < ids.len() ==> lib.has_track(#[trigger] ids[k]),
        filenames_of(lib.tracks@).no_duplicates(),
        lib.tracks@.len() < u64::MAX,
    ensures
        resolve_ids(lib.tracks@, ids).len() == ids.len(),
        resolve_names(filenames_of(resolve_ids(lib.tracks@, ids)), filenames_of(lib.tracks@))
            == reload_ids(lib, ids),
    decreases ids.len(),
{
    if ids.len() > 0 {
        let t = lib.tracks@;
        let tids = track_ids(t);
        let f = filenames_of(t);
        let d = ids.drop_last();
        let x = ids.last();
        assert forall|k: int| 0 <= k < d.len() implies lib.has_track(#[trigger] d[k]) by {
            assert(d[k] == ids[k]);
        }
        lemma_resolve_back(lib, d);
        let p = first_pos(tids, x);
        lemma_first_pos(tids, x);
        assert(lib.has_track(ids[ids.len() - 1]));
        assert(p < t.len());
        let rd = resolve_ids(t, d);
        assert(ids.drop_last() == d);
        assert(resolve_ids(t, ids) == rd.push(t[p]));
        let names = filenames_of(rd.push(t[p]));
        assert(names =~= filenames_of(rd).push(t[p].filename_spec()));
        assert(names.drop_last() =~= filenames_of(rd));
        assert(f[p] == t[p].filename_spec());
        lemma_name_at(f, p);
        let r = resolve_names(filenames_of(rd), f);
        assert(r == reload_ids(lib, d));
        assert(!r.contains((p + 1) as u64)) by {
            if r.contains((p + 1) as u64) {
                let k = choose|k: int| 0 <= k < r.len() && r[k] == (p + 1) as u64;
                assert(r[k] == (first_pos(tids, d[k]) + 1) as u64);
                lemma_first_pos(tids, d[k]);
                assert(lib.has_track(d[k]));
                assert(first_pos(tids, d[k]) == p);
                assert(tids[p] == d[k]);
                assert(tids[p] == x);
                assert(ids[k] == ids[ids.len() - 1]);
            }
        }
        assert(resolve_names(names, f) == r.push((p + 1) as u64));
        assert(r.push((p + 1) as u64) =~= reload_ids(lib, ids));
    }
}

/// Reading back what was written: when the music directory holds exactly
/// the library's files (each track's filename, once), loading the index
/// `lib` wrote gives the tracks in the same order, each playlist the same
/// tracks in the same order, and asks for no rewrite of the index.
pub proof fn lemma_index_round_trip(lib: Library, file: IndexFile, names: Seq<Seq<char>>)
    requires
        lib.wf(),
        lib.members_known(),
        index_describes(file, lib),
        filenames_of(lib.tracks@).no_duplicates(),
        lib.tracks@.len() < u64::MAX,
        names.no_duplicates(),
        forall|n: Seq<char>| names.contains(n) <==> filenames_of(lib.tracks@).contains(n),
    ensures
        track_order(str_views(file.tracks@), names) == filenames_of(lib.tracks@),
        !load_changes(file, false, names),
        forall|j: int|
            0 <= j < lib.playlists@.len() ==> resolve_names(
                str_views(#[trigger] file.playlists@[j].tracks@),
                filenames_of(lib.tracks@),
            ) == reload_ids(lib, lib.playlists@[j].tracks@),
{
    let f = filenames_of(lib.tracks@);
    let listed = str_views(file.tracks@);
    assert(listed == f);
    lemma_kept_all(f, names);
    lemma_no_extras(names, f);
    assert(sort_names(extra_names(names, f)) =~= Seq::<Seq<char>>::empty()) by {
        lemma_sort_names(extra_names(names, f));
    }
    assert(track_order(listed, names) =~= f);
    assert forall|j: int| 0 <= j < lib.playlists@.len() implies resolve_names(
        str_views(#[trigger] file.playlists@[j].tracks@),
        f,
    ) == reload_ids(lib, lib.playlists@[j].tracks@) && resolve_names(
        str_views(file.playlists@[j].tracks@),
        f,
    ).len() == file.playlists@[j].tracks@.len() by {
        let ids = lib.playlists@[j].tracks@;
        assert(no_dups(ids));
        assert forall|k: int| 0 <= k < ids.len() implies lib.has_track(#[trigger] ids[k]) by {
            assert(lib.playlists@[j].tracks@[k] == ids[k]);
        }
        lemma_resolve_back(lib, ids);
        assert(file.playlists@[j].name@ == lib.playlists@[j].name@);
        assert(str_views(file.playlists@[j].tracks@) == filenames_of(resolve_ids(lib.tracks@, ids)));
        assert(str_views(file.playlists@[j].tracks@).len() == file.playlists@[j].tracks@.len());
    }
    assert(!load_changes(file, false, names));
}

} // verus!
