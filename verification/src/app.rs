//! The application state and every decision it makes on a key press or a
//! player event: the play queue, what is playing and for how long, the
//! panels and their cursors, the tracklist filter and the dialogs.
//!
//! Work outside the process (writing files, reading a directory, asking a
//! file for its length, drawing) is not done here: it is queued as
//! [`Effect`]s, and player commands in the player's outbox, for the caller
//! to carry out.  Times are milliseconds on a clock the caller supplies.
use vstd::prelude::*;

use rand::seq::SliceRandom;

use crate::filepicker::{FilePicker, FilePickerOutcome};
use crate::library::{copy_track, first_pos, track_ids, Library, Track};
use crate::lyrics::{parse_lrc, parse_lrc_spec, views, LyricLine};
use crate::layout::{
    console_theme_index, console_theme_name_spec, theme_index, theme_name_spec, CONSOLE_THEME_COUNT, THEME_COUNT,
};
use crate::modal::{Modal, ModalConfirm, ModalOutcome, RemoveTarget, SettingsState, TextInput};
use crate::nav::{KeyCode, KeyModifiers};
use crate::player::{PlayerCommand, PlayerEvent, PlayerHandle, SPEED_MAX, SPEED_MIN, SPEED_STEP};
use crate::settings::{ColorMode, Settings};
use crate::text::{chars_of, concat_chars, contains_chars, contains_seq, lowercase, string_of, to_lowercase};

verus! {

// -- LoopMode -------------------------------------------------------------------------

/// Playback loop mode, cycled with `l`.
#[derive(Debug, Clone, Copy, PartialEq, Eq, Structural)]
pub enum LoopMode {
    Off,
    /// Restart from the first queue entry when the last track finishes.
    Queue,
    /// Replay the current track indefinitely.
    Track,
}

impl Default for LoopMode {
    fn default() -> (r: LoopMode)
        ensures
            r == LoopMode::Off,
    {
        LoopMode::Off
    }
}

/// The mode after `m` in the cycle Off, Queue, Track.
pub open spec fn loop_cycle_spec(m: LoopMode) -> LoopMode {
    match m {
        LoopMode::Off => LoopMode::Queue,
        LoopMode::Queue => LoopMode::Track,
        LoopMode::Track => LoopMode::Off,
    }
}

impl LoopMode {
    /// The next mode: Off, Queue, Track, then Off again.
    pub fn cycle(self) -> (r: Self)
        ensures
            r == loop_cycle_spec(self),
    {
        match self {
            LoopMode::Off => LoopMode::Queue,
            LoopMode::Queue => LoopMode::Track,
            LoopMode::Track => LoopMode::Off,
        }
    }
}

/// Three presses of `l` bring the loop mode back, and no fewer do.
pub proof fn lemma_loop_cycle(m: LoopMode)
    ensures
        loop_cycle_spec(loop_cycle_spec(loop_cycle_spec(m))) == m,
        loop_cycle_spec(m) != m,
        loop_cycle_spec(loop_cycle_spec(m)) != m,
{
}

// -- Focus ----------------------------------------------------------------------------

/// Which panel owns keyboard focus.
#[derive(Debug, Clone, Copy, PartialEq, Eq, Structural)]
pub enum Focus {
    Sidebar,
    TrackList,
    Queue,
}

/// The panel after `f` in Tab order.
pub open spec fn focus_cycle_spec(f: Focus) -> Focus {
    match f {
        Focus::Sidebar => Focus::TrackList,
        Focus::TrackList => Focus::Queue,
        Focus::Queue => Focus::Sidebar,
    }
}

impl Focus {
    /// The next panel: sidebar, tracklist, queue, then the sidebar again.
    pub fn cycle(self) -> (r: Self)
        ensures
            r == focus_cycle_spec(self),
    {
        match self {
            Focus::Sidebar => Focus::TrackList,
            Focus::TrackList => Focus::Queue,
            Focus::Queue => Focus::Sidebar,
        }
    }
}

/// Three presses of Tab visit every panel once and come back.
pub proof fn lemma_focus_cycle(f: Focus)
    ensures
        focus_cycle_spec(focus_cycle_spec(focus_cycle_spec(f))) == f,
        focus_cycle_spec(f) != f,
        focus_cycle_spec(focus_cycle_spec(f)) != f,
{
}

// -- Outside work -----------------------------------------------------------------------

/// Work outside the process that a decision calls for.
#[derive(Debug, Clone)]
pub enum Effect {
    /// Write the library's index.
    SaveLibrary,
    /// Write the settings file.
    SaveSettings,
    /// Delete the library's copy of a removed track.
    DeleteFile(String),
    /// Write a track's metadata into its file's tags.
    WriteTags(u64),
    /// Ask the file now playing for its length and hand it to
    /// [`AppState::set_track_duration`].
    ResolveDuration(String),
    /// Copy a file into the library and hand the result to
    /// [`AppState::finish_import`].
    ImportFile(String),
    /// List the file picker's current directory and hand it to
    /// [`FilePicker::refresh`].
    ListPicker,
}

/// What became of a file import.
#[derive(Debug, Clone)]
pub enum ImportOutcome {
    /// The file was copied in and registered under this display name.
    Added(String),
    /// The file was already in the library under this display name.
    Existing(String),
    /// The import failed, for this reason.
    Failed(String),
}

/// `rand`'s shuffle: puts the tracks in a random order.  Only that the
/// result holds the same tracks, each as often, is claimed: which order
/// comes out is chance.
#[verifier::external_body]
pub(crate) fn shuffle_tracks(v: &mut Vec<Track>)
    ensures
        final(v)@.to_multiset() == old(v)@.to_multiset(),
{
    v.shuffle(&mut rand::rng());
}


// -- AppState -------------------------------------------------------------------------

/// Everything the app knows between two key presses.
pub struct AppState {
    pub library: Library,
    pub player: PlayerHandle,
    pub focus: Focus,
    /// The playlist shown in the tracklist, or `None` for the whole library.
    pub active_playlist: Option<u64>,
    /// Cursor inside the sidebar: row 0 is the whole library ("All tracks"),
    /// row `i + 1` is playlist `i`.
    pub sidebar_cursor: usize,
    /// Cursor inside the tracklist.
    pub tracklist_cursor: usize,
    /// Cursor inside the queue panel.
    pub queue_cursor: usize,
    /// Ordered list of tracks waiting to be played.
    pub queue: Vec<Track>,
    /// Index of the playing track inside `queue`, if any.
    pub now_playing: Option<usize>,
    /// When the current stretch of playback started, if it is running.
    pub track_start_ms: Option<u64>,
    /// Position reached before the current stretch.
    pub seek_offset_ms: u64,
    /// Length of the playing track, once known.
    pub track_duration_ms: Option<u64>,
    pub modal: Option<Modal>,
    pub file_picker: Option<FilePicker>,
    pub loop_mode: LoopMode,
    pub settings: Settings,
    /// What truecolor detection found at start-up.
    pub detected_truecolor: bool,
    /// The theme on screen, which a settings preview may change before it
    /// is saved.
    pub theme_name: String,
    pub console_theme_name: String,
    pub transparent: bool,
    pub color_mode: ColorMode,
    /// The directory the file picker opens at.
    pub home_dir: String,
    pub should_quit: bool,
    /// Filter applied to the tracklist.
    pub tracklist_filter: String,
    /// Whether the filter bar is taking typed characters.
    pub filter_active: bool,
    /// Whether the lyrics overlay is shown.
    pub show_lyrics: bool,
    /// Manual scroll offset for plain (unsynced) lyrics.
    pub lyrics_scroll: usize,
    /// The parsed lyrics of the playing track.
    pub lyrics_lines: Vec<LyricLine>,
    /// Ids of the tracklist's rows: the active view, filtered.
    pub filtered_ids: Vec<u64>,
    /// Outside work waiting to be done, oldest first.
    pub effects: Vec<Effect>,
}

/// The tracks of the view `active`: the whole library, or a playlist.
pub open spec fn view_tracks(lib: Library, active: Option<u64>) -> Seq<Track> {
    match active {
        None => lib.tracks@,
        Some(id) => crate::library::playlist_tracks_spec(lib, id),
    }
}

/// `t` matches the lowercased query `q` in its name, artist or album.
pub open spec fn track_matches(t: Track, q: Seq<char>) -> bool {
    ||| contains_seq(lowercase(t.name@), q)
    ||| (t.artist matches Some(a) && contains_seq(lowercase(a@), q))
    ||| (t.album matches Some(a) && contains_seq(lowercase(a@), q))
}

/// The ids of the tracks of `ts` that match `q`, in order.
pub open spec fn matching_ids(ts: Seq<Track>, q: Seq<char>) -> Seq<u64>
    decreases ts.len(),
{
    if ts.len() == 0 {
        Seq::empty()
    } else if track_matches(ts.last(), q) {
        matching_ids(ts.drop_last(), q).push(ts.last().id)
    } else {
        matching_ids(ts.drop_last(), q)
    }
}

proof fn lemma_matching_ids(ts: Seq<Track>, q: Seq<char>)
    ensures
        forall|t: Track| ts.contains(t) && track_matches(t, q) ==> matching_ids(ts, q).contains(t.id),
        forall|x: u64|
            matching_ids(ts, q).contains(x) ==> exists|t: Track|
                ts.contains(t) && t.id == x && #[trigger] track_matches(t, q),
    decreases ts.len(),
{
    if ts.len() > 0 {
        let d = ts.drop_last();
        lemma_matching_ids(d, q);
        let m = matching_ids(ts, q);
        let md = matching_ids(d, q);
        assert forall|t: Track| ts.contains(t) && track_matches(t, q) implies m.contains(t.id) by {
            let k = choose|k: int| 0 <= k < ts.len() && ts[k] == t;
            if k < ts.len() - 1 {
                assert(d[k] == t);
                assert(d.contains(t));
                let j = choose|j: int| 0 <= j < md.len() && md[j] == t.id;
                assert(m[j] == t.id);
            } else {
                assert(m[md.len() as int] == t.id);
            }
        }
        assert forall|x: u64| m.contains(x) implies exists|t: Track|
            ts.contains(t) && t.id == x && #[trigger] track_matches(t, q) by {
            let j = choose|j: int| 0 <= j < m.len() && m[j] == x;
            if j < md.len() {
                assert(md[j] == x);
                assert(md.contains(x));
                let t = choose|t: Track| d.contains(t) && t.id == x && #[trigger] track_matches(t, q);
                let k = choose|k: int| 0 <= k < d.len() && d[k] == t;
                assert(ts[k] == t);
                assert(ts.contains(t));
            } else {
                assert(ts[ts.len() - 1] == ts.last());
                assert(ts.contains(ts.last()));
                assert(track_matches(ts.last(), q));
            }
        }
    }
}

/// The tracklist filter: a non-empty filter keeps exactly the tracks of the
/// view whose name, artist or album, lowercased, contains the lowercased
/// filter; any one of the three is enough.
pub proof fn lemma_filter_rows(lib: Library, active: Option<u64>, filter: Seq<char>, t: Track)
    requires
        filter.len() > 0,
        view_tracks(lib, active).contains(t),
    ensures
        ({
            let q = lowercase(filter);
            contains_seq(lowercase(t.name@), q) || (t.artist matches Some(a) && contains_seq(
                lowercase(a@),
                q,
            )) || (t.album matches Some(a) && contains_seq(lowercase(a@), q))
        }) ==> filtered_spec(lib, active, filter).contains(t.id),
        forall|x: u64|
            filtered_spec(lib, active, filter).contains(x) ==> exists|u: Track|
                #[trigger] view_tracks(lib, active).contains(u) && u.id == x && (contains_seq(
                    lowercase(u.name@),
                    lowercase(filter),
                ) || (u.artist matches Some(a) && contains_seq(lowercase(a@), lowercase(filter))) || (
                u.album matches Some(a) && contains_seq(lowercase(a@), lowercase(filter)))),
{
    lemma_matching_ids(view_tracks(lib, active), lowercase(filter));
    assert forall|x: u64| filtered_spec(lib, active, filter).contains(x) implies exists|u: Track|
        #[trigger] view_tracks(lib, active).contains(u) && u.id == x && (contains_seq(
            lowercase(u.name@),
            lowercase(filter),
        ) || (u.artist matches Some(a) && contains_seq(lowercase(a@), lowercase(filter))) || (
        u.album matches Some(a) && contains_seq(lowercase(a@), lowercase(filter)))) by {
        let u = choose|u: Track|
            view_tracks(lib, active).contains(u) && u.id == x && #[trigger] track_matches(
                u,
                lowercase(filter),
            );
        assert(track_matches(u, lowercase(filter)));
    }
}

/// The tracklist's rows for the view `active` under `filter`: every track
/// when the filter is empty, else those matching it case-insensitively.
pub open spec fn filtered_spec(lib: Library, active: Option<u64>, filter: Seq<char>) -> Seq<u64> {
    if filter.len() == 0 {
        track_ids(view_tracks(lib, active))
    } else {
        matching_ids(view_tracks(lib, active), lowercase(filter))
    }
}

/// The lyrics shown for the queue entry `t`: its library copy's lyrics,
/// parsed, or none.
pub open spec fn lyrics_for(lib: Library, t: Track) -> Seq<(Option<u64>, Seq<char>)> {
    let p = first_pos(track_ids(lib.tracks@), t.id);
    if p < lib.tracks@.len() && lib.tracks@[p].lyrics is Some {
        parse_lrc_spec(lib.tracks@[p].lyrics->0@)
    } else {
        Seq::empty()
    }
}

/// The lyrics shown while `now_playing` plays.
pub open spec fn lyrics_now(lib: Library, queue: Seq<Track>, now_playing: Option<usize>) -> Seq<
    (Option<u64>, Seq<char>),
> {
    match now_playing {
        Some(i) if i < queue.len() => lyrics_for(lib, queue[i as int]),
        _ => Seq::empty(),
    }
}

/// `post` is `pre` apart from the fields playback changes.
pub open spec fn same_but_playback(pre: AppState, post: AppState) -> bool {
    &&& post.library == pre.library
    &&& post.focus == pre.focus
    &&& post.active_playlist == pre.active_playlist
    &&& post.sidebar_cursor == pre.sidebar_cursor
    &&& post.tracklist_cursor == pre.tracklist_cursor
    &&& post.queue_cursor == pre.queue_cursor
    &&& post.modal == pre.modal
    &&& post.file_picker == pre.file_picker
    &&& post.loop_mode == pre.loop_mode
    &&& post.settings == pre.settings
    &&& post.detected_truecolor == pre.detected_truecolor
    &&& post.theme_name == pre.theme_name
    &&& post.console_theme_name == pre.console_theme_name
    &&& post.transparent == pre.transparent
    &&& post.color_mode == pre.color_mode
    &&& post.home_dir == pre.home_dir
    &&& post.should_quit == pre.should_quit
    &&& post.tracklist_filter == pre.tracklist_filter
    &&& post.filter_active == pre.filter_active
    &&& post.show_lyrics == pre.show_lyrics
    &&& post.filtered_ids == pre.filtered_ids
    &&& post.player.volume == pre.player.volume
    &&& post.player.playback_speed == pre.player.playback_speed
}

/// `post` is `pre` with `queue[idx]` started at `now_ms`: the player told to
/// play it, the clock reset, its length asked for, and its lyrics loaded
/// when the overlay is open.
pub open spec fn started(pre: AppState, post: AppState, idx: int, now_ms: u64) -> bool {
    post.queue == pre.queue && started_in(pre, post, pre.queue@, idx, now_ms)
}

/// `post` is `pre` with the queue now `q` and `q[idx]` started at `now_ms`.
pub open spec fn started_in(pre: AppState, post: AppState, q: Seq<Track>, idx: int, now_ms: u64) -> bool {
    let path = q[idx].path;
    &&& 0 <= idx < q.len()
    &&& post.queue@ == q
    &&& same_but_playback(pre, post)
    &&& post.now_playing == Some(idx as usize)
    &&& post.track_start_ms == Some(now_ms)
    &&& post.seek_offset_ms == 0
    &&& post.track_duration_ms is None
    &&& !post.player.is_paused
    &&& post.player.outbox@ == pre.player.outbox@.push(
        PlayerCommand::Play { path: path, speed: pre.player.playback_speed },
    )
    &&& post.effects@ == pre.effects@.push(Effect::ResolveDuration(path))
    &&& if pre.show_lyrics {
        &&& post.lyrics_scroll == 0
        &&& views(post.lyrics_lines@) == lyrics_for(pre.library, q[idx])
    } else {
        &&& post.lyrics_scroll == pre.lyrics_scroll
        &&& post.lyrics_lines == pre.lyrics_lines
    }
}

/// `post` is `pre` with playback stopped and the clock idle.
pub open spec fn halted(pre: AppState, post: AppState) -> bool {
    &&& same_but_playback(pre, post)
    &&& post.queue == pre.queue
    &&& post.now_playing is None
    &&& post.track_start_ms is None
    &&& post.seek_offset_ms == 0
    &&& post.track_duration_ms is None
    &&& !post.player.is_paused
    &&& post.player.outbox@ == pre.player.outbox@.push(PlayerCommand::Stop)
    &&& post.effects == pre.effects
    &&& post.lyrics_scroll == pre.lyrics_scroll
    &&& post.lyrics_lines == pre.lyrics_lines
}

/// `post` is `pre`, untouched.
pub open spec fn unchanged(pre: AppState, post: AppState) -> bool {
    &&& same_but_playback(pre, post)
    &&& post.queue == pre.queue
    &&& post.now_playing == pre.now_playing
    &&& post.track_start_ms == pre.track_start_ms
    &&& post.seek_offset_ms == pre.seek_offset_ms
    &&& post.track_duration_ms == pre.track_duration_ms
    &&& post.player.is_paused == pre.player.is_paused
    &&& post.player.outbox == pre.player.outbox
    &&& post.effects == pre.effects
    &&& post.lyrics_scroll == pre.lyrics_scroll
    &&& post.lyrics_lines == pre.lyrics_lines
}

/// Where playback goes on "next": the queue index to start (an index past
/// the queue, as `Queue` gives for an empty one, leaves playback as it is),
/// or `None` to stop.  `Track` replays the current entry, `Queue` wraps to
/// the first, `Off` stops after the last.
pub open spec fn next_index(mode: LoopMode, now_playing: Option<usize>, len: int) -> Option<int> {
    match mode {
        LoopMode::Track => Some(
            match now_playing {
                Some(i) => i as int,
                None => 0,
            },
        ),
        LoopMode::Queue => {
            let next = match now_playing {
                Some(i) => i + 1,
                None => 0,
            };
            if next < len {
                Some(next)
            } else {
                Some(0)
            }
        },
        LoopMode::Off => {
            let next = match now_playing {
                Some(i) => i + 1,
                None => 0,
            };
            if next < len {
                Some(next)
            } else {
                None
            }
        },
    }
}

/// Where playback goes on "previous", or `None` to leave it be.  `Track`
/// replays the current entry, `Queue` wraps from the first to the last,
/// `Off` stops at the first.
pub open spec fn prev_index(mode: LoopMode, now_playing: Option<usize>, len: int) -> Option<int> {
    match mode {
        LoopMode::Track => Some(
            match now_playing {
                Some(i) => i as int,
                None => 0,
            },
        ),
        LoopMode::Queue => if len == 0 {
            None
        } else {
            match now_playing {
                None => Some(len - 1),
                Some(i) => if i == 0 {
                    Some(len - 1)
                } else {
                    Some(i - 1)
                },
            }
        },
        LoopMode::Off => match now_playing {
            Some(i) => if i > 0 {
                Some(i - 1)
            } else {
                None
            },
            None => None,
        },
    }
}

impl AppState {
    /// The invariants every state keeps: the library's own, and the playing
    /// index inside the queue.
    pub open spec fn wf(&self) -> bool {
        &&& self.library.wf()
        &&& self.now_playing matches Some(i) ==> i < self.queue@.len()
    }

    /// How far into the playing track playback is at `now_ms`: nothing when
    /// nothing plays, the position it stopped at while paused, else that
    /// position plus the time since, scaled by the speed (saturating at the
    /// largest `u64`).
    pub open spec fn elapsed_spec(&self, now_ms: u64) -> int {
        if self.now_playing is None {
            0
        } else if self.player.is_paused {
            self.seek_offset_ms as int
        } else {
            let wall: int = match self.track_start_ms {
                Some(s) => if now_ms >= s {
                    now_ms - s
                } else {
                    0
                },
                None => 0,
            };
            let total = self.seek_offset_ms + wall * self.player.playback_speed / 100;
            if total <= u64::MAX {
                total
            } else {
                u64::MAX as int
            }
        }
    }

    /// How far into the playing track playback is at `now_ms`.
    pub fn elapsed(&self, now_ms: u64) -> (r: u64)
        ensures
            r == self.elapsed_spec(now_ms),
    {
        if self.now_playing.is_none() {
            return 0;
        }
        if self.player.is_paused {
            return self.seek_offset_ms;
        }
        let wall: u64 = match self.track_start_ms {
            Some(s) => if now_ms >= s {
                now_ms - s
            } else {
                0
            },
            None => 0,
        };
        let w: u128 = wall as u128;
        let sp: u128 = self.player.playback_speed as u128;
        proof {
            assert(w * sp <= 0xffff_ffff_ffff_ffff * 0xffff_ffff) by (nonlinear_arith)
                requires
                    w <= 0xffff_ffff_ffff_ffff,
                    sp <= 0xffff_ffff,
            ;
        }
        let scaled: u128 = w * sp / 100;
        let total: u128 = (self.seek_offset_ms as u128) + scaled;
        if total <= 0xffff_ffff_ffff_ffff {
            total as u64
        } else {
            0xffff_ffff_ffff_ffff
        }
    }

    /// Appends `track` to the queue.
    pub fn enqueue(&mut self, track: Track)
        ensures
            final(self).queue@ == old(self).queue@.push(track),
            *final(self) == (AppState { queue: final(self).queue, ..*old(self) }),
    {
        self.queue.push(track);
    }

    /// Loads the lyrics of the playing entry into the overlay's cache.
    pub(crate) fn lyrics_cache(&self) -> (lines: Vec<LyricLine>)
        requires
            self.wf(),
        ensures
            views(lines@) == lyrics_now(self.library, self.queue@, self.now_playing),
    {
        let mut lines: Vec<LyricLine> = Vec::new();
        proof {
            assert(views(lines@) =~= Seq::<(Option<u64>, Seq<char>)>::empty());
        }
        match self.now_playing {
            Some(i) => {
                if i < self.queue.len() {
                    let id = self.queue[i].id;
                    match self.library.track(id) {
                        Some(t) => {
                            proof {
                                crate::library::lemma_first_pos(track_ids(self.library.tracks@), id);
                            }
                            match &t.lyrics {
                                Some(raw) => {
                                    lines = parse_lrc(raw.as_str());
                                },
                                None => {},
                            }
                        },
                        None => {
                            proof {
                                crate::library::lemma_first_pos(track_ids(self.library.tracks@), id);
                            }
                        },
                    }
                }
            },
            None => {},
        }
        proof {
            if views(lines@).len() == 0 {
                assert(views(lines@) =~= Seq::<(Option<u64>, Seq<char>)>::empty());
            }
        }
        lines
    }
}


impl AppState {
    /// Starts playing `queue[idx]` at `now_ms`; an index past the queue does
    /// nothing.  The track's length is asked of its file afterwards.
    pub fn play_queue_index(&mut self, idx: usize, now_ms: u64)
        requires
            old(self).wf(),
        ensures
            final(self).wf(),
            idx < old(self).queue@.len() ==> started(*old(self), *final(self), idx as int, now_ms),
            idx >= old(self).queue@.len() ==> unchanged(*old(self), *final(self)),
    {
        if idx >= self.queue.len() {
            return;
        }
        let path = self.queue[idx].path.clone();
        let p2 = path.clone();
        self.player.play(path);
        self.now_playing = Some(idx);
        self.track_start_ms = Some(now_ms);
        self.seek_offset_ms = 0;
        self.track_duration_ms = None;
        self.effects.push(Effect::ResolveDuration(p2));
        if self.show_lyrics {
            self.lyrics_scroll = 0;
            self.lyrics_lines = self.lyrics_cache();
        }
    }

    /// Stops playback and resets all progress state to idle, so the player
    /// bar shows a clean start.
    pub fn halt_playback(&mut self)
        requires
            old(self).library.wf(),
        ensures
            final(self).wf(),
            halted(*old(self), *final(self)),
    {
        self.now_playing = None;
        self.track_start_ms = None;
        self.seek_offset_ms = 0;
        self.track_duration_ms = None;
        self.player.stop();
    }

    /// Moves on to the next entry as the loop mode says, or stops after the
    /// last one.
    pub fn play_next(&mut self, now_ms: u64)
        requires
            old(self).wf(),
        ensures
            final(self).wf(),
            next_done(*old(self), *final(self), now_ms),
    {
        match self.loop_mode {
            LoopMode::Track => {
                let idx = match self.now_playing {
                    Some(i) => i,
                    None => 0,
                };
                self.play_queue_index(idx, now_ms);
            },
            LoopMode::Queue => {
                let qlen = self.queue.len();
                if qlen > 0 {
                    let next = match self.now_playing {
                        Some(i) => i + 1,
                        None => 0,
                    };
                    let idx = if next < qlen {
                        next
                    } else {
                        0
                    };
                    self.play_queue_index(idx, now_ms);
                }
            },
            LoopMode::Off => {
                let qlen = self.queue.len();
                let next = match self.now_playing {
                    Some(i) => i + 1,
                    None => 0,
                };
                if next < qlen {
                    self.play_queue_index(next, now_ms);
                } else {
                    self.halt_playback();
                }
            },
        }
    }

    /// Moves back to the previous entry as the loop mode says.
    pub fn play_prev(&mut self, now_ms: u64)
        requires
            old(self).wf(),
        ensures
            final(self).wf(),
            prev_done(*old(self), *final(self), now_ms),
    {
        match self.loop_mode {
            LoopMode::Track => {
                let idx = match self.now_playing {
                    Some(i) => i,
                    None => 0,
                };
                self.play_queue_index(idx, now_ms);
            },
            LoopMode::Queue => {
                if self.queue.len() > 0 {
                    let idx = match self.now_playing {
                        None => self.queue.len() - 1,
                        Some(i) => if i == 0 {
                            self.queue.len() - 1
                        } else {
                            i - 1
                        },
                    };
                    self.play_queue_index(idx, now_ms);
                }
            },
            LoopMode::Off => {
                match self.now_playing {
                    Some(cur) => {
                        if cur > 0 {
                            self.play_queue_index(cur - 1, now_ms);
                        }
                    },
                    None => {},
                }
            },
        }
    }

    /// Records the length the playing file reported, if it could say.
    pub fn set_track_duration(&mut self, duration_ms: Option<u64>)
        ensures
            final(self).track_duration_ms == duration_ms,
            final(self).now_playing == old(self).now_playing,
            final(self).queue == old(self).queue,
            final(self).library == old(self).library,
    {
        self.track_duration_ms = duration_ms;
    }
}

/// Off never wraps: "next" from the last entry stops, and "previous" from
/// the first stays put; Queue wraps both ways; Track stays on its entry.
pub proof fn lemma_loop_ends(len: int, i: usize)
    requires
        len > 0,
        i == len - 1,
    ensures
        next_index(LoopMode::Off, Some(i), len) is None,
        next_index(LoopMode::Queue, Some(i), len) == Some(0int),
        prev_index(LoopMode::Off, Some(0usize), len) is None,
        prev_index(LoopMode::Queue, Some(0usize), len) == Some(len - 1),
        next_index(LoopMode::Track, Some(i), len) == Some(i as int),
        prev_index(LoopMode::Track, Some(i), len) == Some(i as int),
{
}

/// "Next" from the playing entry `i`: with looping off it starts the entry
/// right after `i` while there is one, and stops after the last; with the
/// queue looping it does the same but goes from the last entry to the
/// first; with the track looping it starts `i` again.  The queue itself
/// never changes.
pub proof fn lemma_next_from(pre: AppState, post: AppState, now_ms: u64, i: usize)
    requires
        next_done(pre, post, now_ms),
        pre.now_playing == Some(i),
        i < pre.queue@.len(),
    ensures
        post.queue == pre.queue,
        pre.loop_mode == LoopMode::Off && i + 1 < pre.queue@.len() ==> post.now_playing == Some(
            (i + 1) as usize,
        ) && post.player.outbox@ == pre.player.outbox@.push(
            PlayerCommand::Play { path: pre.queue@[i + 1].path, speed: pre.player.playback_speed },
        ),
        pre.loop_mode == LoopMode::Off && i + 1 == pre.queue@.len() ==> post.now_playing is None
            && post.player.outbox@ == pre.player.outbox@.push(PlayerCommand::Stop),
        pre.loop_mode == LoopMode::Queue && i + 1 < pre.queue@.len() ==> post.now_playing == Some(
            (i + 1) as usize,
        ) && post.player.outbox@ == pre.player.outbox@.push(
            PlayerCommand::Play { path: pre.queue@[i + 1].path, speed: pre.player.playback_speed },
        ),
        pre.loop_mode == LoopMode::Queue && i + 1 == pre.queue@.len() ==> post.now_playing == Some(
            0usize,
        ) && post.player.outbox@ == pre.player.outbox@.push(
            PlayerCommand::Play { path: pre.queue@[0].path, speed: pre.player.playback_speed },
        ),
        pre.loop_mode == LoopMode::Track ==> post.now_playing == Some(i) && post.player.outbox@
            == pre.player.outbox@.push(
            PlayerCommand::Play { path: pre.queue@[i as int].path, speed: pre.player.playback_speed },
        ),
{
}

/// "Next" with nothing playing starts the first entry of a non-empty queue,
/// whatever the loop mode, and leaves an empty queue's playback as it is
/// unless looping is off, which stops.
pub proof fn lemma_next_from_idle(pre: AppState, post: AppState, now_ms: u64)
    requires
        next_done(pre, post, now_ms),
        pre.now_playing is None,
    ensures
        post.queue == pre.queue,
        pre.queue@.len() > 0 ==> post.now_playing == Some(0usize) && post.player.outbox@
            == pre.player.outbox@.push(
            PlayerCommand::Play { path: pre.queue@[0].path, speed: pre.player.playback_speed },
        ),
        pre.queue@.len() == 0 && pre.loop_mode != LoopMode::Off ==> post.now_playing is None
            && post.player.outbox == pre.player.outbox,
{
}

/// "Previous" from the playing entry `i`: the entry right before `i` when
/// there is one; from the first entry looping off stays put and the
/// looping queue goes to the last; the looping track starts `i` again.
/// The queue itself never changes.
pub proof fn lemma_prev_from(pre: AppState, post: AppState, now_ms: u64, i: usize)
    requires
        prev_done(pre, post, now_ms),
        pre.now_playing == Some(i),
        i < pre.queue@.len(),
    ensures
        post.queue == pre.queue,
        pre.loop_mode != LoopMode::Track && i > 0 ==> post.now_playing == Some((i - 1) as usize),
        pre.loop_mode == LoopMode::Off && i == 0 ==> post.now_playing == Some(0usize)
            && post.player.outbox == pre.player.outbox,
        pre.loop_mode == LoopMode::Queue && i == 0 ==> post.now_playing == Some(
            (pre.queue@.len() - 1) as usize,
        ),
        pre.loop_mode == LoopMode::Track ==> post.now_playing == Some(i),
{
}

/// Enter on a tracklist row while entry `i` plays puts the row right after
/// `i` and starts it there: the entries up to `i` keep their places, every
/// later one moves one step down, so what followed `i` now follows the new
/// entry.
pub proof fn lemma_enter_after_playing(pre: AppState, post: AppState, now_ms: u64, i: usize)
    requires
        entered(pre, post, now_ms),
        pre.focus == Focus::TrackList,
        pre.tracklist_cursor < rows_spec(pre).len(),
        pre.now_playing == Some(i),
        i < pre.queue@.len(),
    ensures
        post.queue@.len() == pre.queue@.len() + 1,
        post.queue@[i + 1] == rows_spec(pre)[pre.tracklist_cursor as int],
        post.now_playing == Some((i + 1) as usize),
        forall|k: int| 0 <= k <= i ==> #[trigger] post.queue@[k] == pre.queue@[k],
        forall|k: int| i < k < pre.queue@.len() ==> post.queue@[k + 1] == #[trigger] pre.queue@[k],
{
}

/// Enter on a tracklist row with nothing playing puts the row first and
/// starts it; the rest of the queue follows it in order.
pub proof fn lemma_enter_when_idle(pre: AppState, post: AppState, now_ms: u64)
    requires
        entered(pre, post, now_ms),
        pre.focus == Focus::TrackList,
        pre.tracklist_cursor < rows_spec(pre).len(),
        pre.now_playing is None,
    ensures
        post.queue@.len() == pre.queue@.len() + 1,
        post.queue@[0] == rows_spec(pre)[pre.tracklist_cursor as int],
        post.now_playing == Some(0usize),
        forall|k: int| 0 <= k < pre.queue@.len() ==> post.queue@[k + 1] == #[trigger] pre.queue@[k],
{
}

/// Enter on the queue starts the selected entry, the queue as it was.
pub proof fn lemma_enter_on_queue(pre: AppState, post: AppState, now_ms: u64)
    requires
        entered(pre, post, now_ms),
        pre.focus == Focus::Queue,
        pre.queue_cursor < pre.queue@.len(),
    ensures
        post.queue == pre.queue,
        post.now_playing == Some(pre.queue_cursor),
        post.player.outbox@ == pre.player.outbox@.push(
            PlayerCommand::Play {
                path: pre.queue@[pre.queue_cursor as int].path,
                speed: pre.player.playback_speed,
            },
        ),
{
}

/// `a` puts the selected tracklist row at the end of the queue, behind
/// every entry already there, and changes nothing else.
pub proof fn lemma_queue_appends(pre: AppState, post: AppState)
    requires
        queued_selection(pre, post),
        pre.tracklist_cursor < rows_spec(pre).len(),
    ensures
        post.queue@.len() == pre.queue@.len() + 1,
        post.queue@[pre.queue@.len() as int] == rows_spec(pre)[pre.tracklist_cursor as int],
        forall|k: int| 0 <= k < pre.queue@.len() ==> #[trigger] post.queue@[k] == pre.queue@[k],
        post.now_playing == pre.now_playing,
        post.player == pre.player,
{
}

/// Removing queue entry `idx`: the entries before it stay, the ones after
/// it move up one place, and whatever was playing keeps playing at its new
/// place; removing the playing entry stops playback.
pub proof fn lemma_queue_remove(pre: AppState, post: AppState, idx: int)
    requires
        queue_entry_removed(pre, post, idx),
        0 <= idx < pre.queue@.len(),
        pre.now_playing matches Some(np) ==> np < pre.queue@.len(),
    ensures
        post.queue@.len() == pre.queue@.len() - 1,
        forall|k: int| 0 <= k < idx ==> #[trigger] post.queue@[k] == pre.queue@[k],
        forall|k: int| idx < k < pre.queue@.len() ==> post.queue@[k - 1] == #[trigger] pre.queue@[k],
        (pre.now_playing is Some && pre.now_playing->0 == idx) ==> (post.now_playing is None
            && post.player.outbox@ == pre.player.outbox@.push(PlayerCommand::Stop)),
        (pre.now_playing matches Some(np) && np != idx) ==> (post.now_playing is Some
            && post.now_playing->0 < post.queue@.len() && post.queue@[post.now_playing->0 as int]
            == pre.queue@[pre.now_playing->0 as int] && post.player == pre.player),
        pre.now_playing is None ==> post.now_playing is None,
{
}

/// Space pauses a playing track and Space again resumes it where it was:
/// while paused the position stands still, and after resuming it goes on
/// from the position the pause kept.
pub proof fn lemma_pause_resume(pre: AppState, mid: AppState, post: AppState, t1: u64, t2: u64, t: u64)
    requires
        play_toggled(pre, mid, t1),
        play_toggled(mid, post, t2),
        pre.now_playing is Some,
        !pre.player.is_paused,
    ensures
        mid.player.is_paused,
        mid.player.outbox@ == pre.player.outbox@.push(PlayerCommand::Pause),
        mid.elapsed_spec(t) == pre.elapsed_spec(t1),
        !post.player.is_paused,
        post.player.outbox@ == mid.player.outbox@.push(PlayerCommand::Resume),
        post.now_playing == pre.now_playing,
        post.queue == pre.queue,
        post.elapsed_spec(t2) == pre.elapsed_spec(t1),
{
    let wall: int = match pre.track_start_ms {
        Some(s) => if t1 >= s {
            t1 - s
        } else {
            0
        },
        None => 0,
    };
    let sp = pre.player.playback_speed as int;
    assert(wall * sp >= 0) by (nonlinear_arith)
        requires
            wall >= 0,
            sp >= 0,
    ;
    assert(0 * (post.player.playback_speed as int) == 0);
}

/// A seek moves the position by whole steps from the current second, never
/// before the start nor, when the track's length is known, past its last
/// second.
pub proof fn lemma_seek_target(elapsed_ms: int, duration_ms: Option<u64>, step_secs: u64)
    requires
        elapsed_ms >= 0,
    ensures
        ({
            let c = elapsed_ms / 1000;
            let fwd = seek_target_secs(elapsed_ms, duration_ms, true, step_secs);
            let back = seek_target_secs(elapsed_ms, duration_ms, false, step_secs);
            let last: int = match duration_ms {
                Some(d) => if d >= 1000 { d / 1000 - 1 } else { 0 },
                None => i64::MAX as int,
            };
            &&& 0 <= fwd <= last
            &&& 0 <= back <= last
            &&& c + step_secs <= last ==> fwd == c + step_secs
            &&& c + step_secs > last ==> fwd == last
            &&& c <= last && c >= step_secs ==> back == c - step_secs
            &&& c < step_secs ==> back == 0
        }),
{
}

/// The loop mode goes Off, Queue, Track and back to Off; Tab goes from the
/// sidebar to the tracklist to the queue and back to the sidebar.
pub proof fn lemma_cycle_orders()
    ensures
        loop_cycle_spec(LoopMode::Off) == LoopMode::Queue,
        loop_cycle_spec(LoopMode::Queue) == LoopMode::Track,
        loop_cycle_spec(LoopMode::Track) == LoopMode::Off,
        focus_cycle_spec(Focus::Sidebar) == Focus::TrackList,
        focus_cycle_spec(Focus::TrackList) == Focus::Queue,
        focus_cycle_spec(Focus::Queue) == Focus::Sidebar,
{
}

/// One row down moves to the next row, stopping at the last; one row up
/// moves to the previous row, stopping at the first; inside the list a step
/// down is undone by a step up.
pub proof fn lemma_cursor_steps(c: int, len: int)
    requires
        0 <= c < len,
    ensures
        step_down(c, len) == if c + 1 < len { c + 1 } else { len - 1 },
        step_up(c) == if c >= 1 { c - 1 } else { 0 },
        c + 1 < len ==> step_up(step_down(c, len)) == c,
        c >= 1 ==> step_down(step_up(c), len) == c,
{
}

/// With the queue looping, "previous" undoes "next": from any entry of a
/// non-empty queue, going forward and then back returns to that entry.
pub proof fn lemma_queue_next_prev(len: int, i: usize)
    requires
        0 <= i < len <= usize::MAX,
    ensures
        ({
            let n = next_index(LoopMode::Queue, Some(i), len)->0;
            0 <= n < len && prev_index(LoopMode::Queue, Some(n as usize), len) == Some(i as int)
        }),
{
}


/// Whether `hay`, lowercased, contains the lowercased query `q`.
fn lower_contains(hay: &String, q: &Vec<char>) -> (r: bool)
    ensures
        r == contains_seq(lowercase(hay@), q@),
{
    let h = to_lowercase(hay.as_str());
    contains_chars(&chars_of(h.as_str()), q)
}

/// Whether `t` matches the lowercased query `q`.
fn matches_query(t: &Track, q: &Vec<char>) -> (r: bool)
    ensures
        r == track_matches(*t, q@),
{
    if lower_contains(&t.name, q) {
        return true;
    }
    let artist = match &t.artist {
        Some(a) => lower_contains(a, q),
        None => false,
    };
    if artist {
        return true;
    }
    match &t.album {
        Some(a) => lower_contains(a, q),
        None => false,
    }
}

impl AppState {
    /// The tracks of the active view, in order.
    pub fn view_tracks(&self) -> (r: Vec<&Track>)
        requires
            self.library.wf(),
        ensures
            r@.len() == view_tracks(self.library, self.active_playlist).len(),
            forall|i: int|
                0 <= i < r@.len() ==> *r@[i] == view_tracks(self.library, self.active_playlist)[i],
    {
        match self.active_playlist {
            Some(id) => self.library.playlist_tracks(id),
            None => {
                let mut out: Vec<&Track> = Vec::new();
                for i in 0..self.library.tracks.len()
                    invariant
                        out@.len() == i,
                        forall|k: int| 0 <= k < i ==> *out@[k] == self.library.tracks@[k],
                {
                    out.push(&self.library.tracks[i]);
                }
                out
            },
        }
    }

    /// The tracklist's rows: the ids of the active view's tracks, filtered.
    pub fn filter_cache(&self) -> (r: Vec<u64>)
        requires
            self.library.wf(),
        ensures
            r@ == filtered_spec(self.library, self.active_playlist, self.tracklist_filter@),
    {
        let all = self.view_tracks();
        let ghost vt = view_tracks(self.library, self.active_playlist);
        let mut ids: Vec<u64> = Vec::new();
        if self.tracklist_filter.as_str().is_empty() {
            for i in 0..all.len()
                invariant
                    all@.len() == vt.len(),
                    forall|k: int| 0 <= k < all@.len() ==> *all@[k] == vt[k],
                    ids@ == track_ids(vt.take(i as int)),
            {
                ids.push(all[i].id);
                proof {
                    assert(ids@ =~= track_ids(vt.take(i + 1)));
                }
            }
            proof {
                assert(vt.take(all@.len() as int) =~= vt);
                assert(self.tracklist_filter@.len() == 0);
            }
            return ids;
        }
        let q = chars_of(to_lowercase(self.tracklist_filter.as_str()).as_str());
        for i in 0..all.len()
            invariant
                all@.len() == vt.len(),
                forall|k: int| 0 <= k < all@.len() ==> *all@[k] == vt[k],
                ids@ == matching_ids(vt.take(i as int), q@),
        {
            proof {
                assert(vt.take(i + 1).drop_last() =~= vt.take(i as int));
                assert(vt.take(i + 1).last() == vt[i as int]);
            }
            if matches_query(all[i], &q) {
                ids.push(all[i].id);
            }
        }
        proof {
            assert(vt.take(all@.len() as int) =~= vt);
        }
        ids
    }

    /// Rebuilds the tracklist's rows after a change to the view, the filter
    /// or the library.
    pub fn rebuild_filter_cache(&mut self)
        requires
            old(self).library.wf(),
        ensures
            final(self).filtered_ids@ == filtered_spec(
                old(self).library,
                old(self).active_playlist,
                old(self).tracklist_filter@,
            ),
            *final(self) == (AppState { filtered_ids: final(self).filtered_ids, ..*old(self) }),
    {
        self.filtered_ids = self.filter_cache();
    }

    /// The tracklist's rows, as tracks.
    pub fn active_tracks(&self) -> (r: Vec<&Track>)
        requires
            self.library.wf(),
        ensures
            r@.len() == crate::library::resolve_ids(self.library.tracks@, self.filtered_ids@).len(),
            forall|i: int|
                0 <= i < r@.len() ==> *r@[i] == crate::library::resolve_ids(
                    self.library.tracks@,
                    self.filtered_ids@,
                )[i],
    {
        let mut out: Vec<&Track> = Vec::new();
        let ghost ids = self.filtered_ids@;
        for i in 0..self.filtered_ids.len()
            invariant
                self.library.wf(),
                ids == self.filtered_ids@,
                out@.len() == crate::library::resolve_ids(self.library.tracks@, ids.take(i as int)).len(),
                forall|k: int|
                    0 <= k < out@.len() ==> *out@[k] == crate::library::resolve_ids(
                        self.library.tracks@,
                        ids.take(i as int),
                    )[k],
        {
            proof {
                assert(ids.take(i + 1).drop_last() =~= ids.take(i as int));
                assert(ids.take(i + 1).last() == ids[i as int]);
                crate::library::lemma_first_pos(track_ids(self.library.tracks@), ids[i as int]);
            }
            match self.library.track(self.filtered_ids[i]) {
                Some(t) => {
                    out.push(t);
                },
                None => {},
            }
        }
        proof {
            assert(ids.take(self.filtered_ids@.len() as int) =~= ids);
        }
        out
    }

    /// A copy of the tracklist row under the cursor.
    pub fn selected_track(&self) -> (r: Option<Track>)
        requires
            self.library.wf(),
        ensures
            ({
                let rows = crate::library::resolve_ids(self.library.tracks@, self.filtered_ids@);
                match r {
                    Some(t) => self.tracklist_cursor < rows.len() && t == rows[self.tracklist_cursor as int],
                    None => self.tracklist_cursor >= rows.len(),
                }
            }),
    {
        let rows = self.active_tracks();
        if self.tracklist_cursor < rows.len() {
            Some(copy_track(rows[self.tracklist_cursor]))
        } else {
            None
        }
    }
}


/// `a`, then `b`, then `c`, as one string.
pub fn concat3(a: &str, b: &str, c: &str) -> (r: String)
    ensures
        r@ == a@ + b@ + c@,
{
    let mut out: Vec<char> = chars_of(a);
    let bv = chars_of(b);
    let cv = chars_of(c);
    out = concat_chars(&out, &bv);
    out = concat_chars(&out, &cv);
    string_of(&out)
}

/// `prefix`, then `name` in double quotes, then `suffix`.
pub open spec fn quoted(prefix: Seq<char>, name: Seq<char>, suffix: Seq<char>) -> Seq<char> {
    prefix + seq!['"'] + name + seq!['"'] + suffix
}

/// `prefix`, then `name` in double quotes, then `suffix`, as one string.
pub fn quote_in(prefix: &str, name: &str, suffix: &str) -> (r: String)
    ensures
        r@ == quoted(prefix@, name@, suffix@),
{
    let mut out: Vec<char> = chars_of(prefix);
    out.push('"');
    out = concat_chars(&out, &chars_of(name));
    out.push('"');
    out = concat_chars(&out, &chars_of(suffix));
    proof {
        assert(out@ =~= quoted(prefix@, name@, suffix@));
    }
    string_of(&out)
}

/// The row count of the sidebar: the whole library, then each playlist.
pub open spec fn sidebar_rows(s: AppState) -> int {
    s.library.playlists@.len() + 1int
}

/// The view the sidebar row `row` selects, or `None` past the last row.
pub open spec fn row_view(lib: Library, row: int) -> Option<Option<u64>> {
    if row == 0 {
        Some(None)
    } else if 1 <= row <= lib.playlists@.len() {
        Some(Some(lib.playlists@[row - 1].id))
    } else {
        None
    }
}

/// The tracklist's rows as tracks.
pub open spec fn rows_spec(s: AppState) -> Seq<Track> {
    crate::library::resolve_ids(s.library.tracks@, s.filtered_ids@)
}

/// One step down a list of `len` rows, stopping at the last.
pub open spec fn step_down(cursor: int, len: int) -> int {
    if len == 0 {
        cursor
    } else if cursor < len - 1 {
        cursor + 1
    } else {
        len - 1
    }
}

/// One step up, stopping at the first row.
pub open spec fn step_up(cursor: int) -> int {
    if cursor >= 1 {
        cursor - 1
    } else {
        0
    }
}

impl AppState {
    /// A fresh session over `library`, with nothing queued, focus on the
    /// sidebar and the whole library in the tracklist.
    pub fn new(
        library: Library,
        player: PlayerHandle,
        settings: Settings,
        detected_truecolor: bool,
        home_dir: String,
    ) -> (r: Self)
        requires
            library.wf(),
        ensures
            r.wf(),
            r.library == library,
            r.player == player,
            r.focus == Focus::Sidebar,
            r.active_playlist is None,
            r.sidebar_cursor == 0 && r.tracklist_cursor == 0 && r.queue_cursor == 0,
            r.queue@.len() == 0,
            r.now_playing is None,
            r.modal is None,
            r.file_picker is None,
            r.loop_mode == LoopMode::Off,
            r.theme_name == settings.theme_name,
            r.console_theme_name == settings.console_theme_name,
            r.transparent == settings.transparent,
            r.color_mode == settings.color_mode,
            r.settings == settings,
            r.detected_truecolor == detected_truecolor,
            r.home_dir == home_dir,
            !r.should_quit,
            r.tracklist_filter@.len() == 0,
            !r.filter_active,
            !r.show_lyrics,
            r.filtered_ids@ == filtered_spec(library, None, Seq::empty()),
            r.effects@.len() == 0,
    {
        let theme_name = settings.theme_name.clone();
        let console_theme_name = settings.console_theme_name.clone();
        let transparent = settings.transparent;
        let color_mode = settings.color_mode;
        let mut s = AppState {
            library,
            player,
            focus: Focus::Sidebar,
            active_playlist: None,
            sidebar_cursor: 0,
            tracklist_cursor: 0,
            queue_cursor: 0,
            queue: Vec::new(),
            now_playing: None,
            track_start_ms: None,
            seek_offset_ms: 0,
            track_duration_ms: None,
            modal: None,
            file_picker: None,
            loop_mode: LoopMode::Off,
            settings,
            detected_truecolor,
            theme_name,
            console_theme_name,
            transparent,
            color_mode,
            home_dir,
            should_quit: false,
            tracklist_filter: String::new(),
            filter_active: false,
            show_lyrics: false,
            lyrics_scroll: 0,
            lyrics_lines: Vec::new(),
            filtered_ids: Vec::new(),
            effects: Vec::new(),
        };
        s.rebuild_filter_cache();
        s
    }

    /// Takes an event from the audio thread: a finished track moves on, an
    /// error is shown.
    pub fn handle_player_event(&mut self, event: PlayerEvent, now_ms: u64)
        requires
            old(self).wf(),
        ensures
            final(self).wf(),
            match event {
                PlayerEvent::TrackFinished => match next_index(
                    old(self).loop_mode,
                    old(self).now_playing,
                    old(self).queue@.len() as int,
                ) {
                    Some(i) => if i < old(self).queue@.len() {
                        started(*old(self), *final(self), i, now_ms)
                    } else {
                        unchanged(*old(self), *final(self))
                    },
                    None => halted(*old(self), *final(self)),
                },
                PlayerEvent::Error(msg) => *final(self) == (AppState {
                    modal: Some(Modal::Notify { message: msg }),
                    ..*old(self)
                }),
            },
    {
        match event {
            PlayerEvent::TrackFinished => self.play_next(now_ms),
            PlayerEvent::Error(msg) => {
                self.modal = Some(Modal::Notify { message: msg });
            },
        }
    }

    /// Points the tracklist at the view under the sidebar cursor, with the
    /// filter cleared; past the last row nothing changes.
    pub fn sync_active_playlist(&mut self)
        requires
            old(self).wf(),
        ensures
            final(self).wf(),
            match row_view(old(self).library, old(self).sidebar_cursor as int) {
                Some(v) => {
                    &&& final(self).active_playlist == v
                    &&& final(self).tracklist_cursor == 0
                    &&& final(self).tracklist_filter@.len() == 0
                    &&& !final(self).filter_active
                    &&& final(self).filtered_ids@ == filtered_spec(old(self).library, v, Seq::empty())
                    &&& *final(self) == (AppState {
                        active_playlist: v,
                        tracklist_cursor: 0,
                        tracklist_filter: final(self).tracklist_filter,
                        filter_active: false,
                        filtered_ids: final(self).filtered_ids,
                        ..*old(self)
                    })
                },
                None => *final(self) == *old(self),
            },
    {
        let row = self.sidebar_cursor;
        let v = if row == 0 {
            None
        } else if row - 1 < self.library.playlists.len() {
            Some(self.library.playlists[row - 1].id)
        } else {
            return;
        };
        self.active_playlist = v;
        self.tracklist_cursor = 0;
        self.tracklist_filter = String::new();
        self.filter_active = false;
        self.rebuild_filter_cache();
    }

    /// `j` / Down: one row down in the focused panel.
    pub fn cursor_down(&mut self)
        requires
            old(self).wf(),
        ensures
            final(self).wf(),
            cursor_down_done(*old(self), *final(self)),
    {
        match self.focus {
            Focus::Sidebar => {
                let rows = self.library.playlists.len();
                self.sidebar_cursor = if self.sidebar_cursor < rows {
                    self.sidebar_cursor + 1
                } else {
                    rows
                };
                self.sync_active_playlist();
            },
            Focus::TrackList => {
                let len = self.active_tracks().len();
                if len > 0 {
                    self.tracklist_cursor = if self.tracklist_cursor < len - 1 {
                        self.tracklist_cursor + 1
                    } else {
                        len - 1
                    };
                }
            },
            Focus::Queue => {
                let len = self.queue.len();
                if len > 0 {
                    self.queue_cursor = if self.queue_cursor < len - 1 {
                        self.queue_cursor + 1
                    } else {
                        len - 1
                    };
                }
            },
        }
    }

    /// `k` / Up: one row up in the focused panel.
    pub fn cursor_up(&mut self)
        requires
            old(self).wf(),
        ensures
            final(self).wf(),
            cursor_up_done(*old(self), *final(self)),
    {
        match self.focus {
            Focus::Sidebar => {
                self.sidebar_cursor = if self.sidebar_cursor >= 1 {
                    self.sidebar_cursor - 1
                } else {
                    0
                };
                self.sync_active_playlist();
            },
            Focus::TrackList => {
                self.tracklist_cursor = if self.tracklist_cursor >= 1 {
                    self.tracklist_cursor - 1
                } else {
                    0
                };
            },
            Focus::Queue => {
                self.queue_cursor = if self.queue_cursor >= 1 {
                    self.queue_cursor - 1
                } else {
                    0
                };
            },
        }
    }

    /// The lyrics overlay takes `j`/`k` (scroll) and Esc/`y` (close) while
    /// it is shown and no dialog or picker is open; says whether it took the
    /// key.
    pub fn handle_lyrics_overlay_key(&mut self, code: KeyCode) -> (r: bool)
        ensures
            overlay_key_done(*old(self), *final(self), code, r),
    {
        if !self.show_lyrics || self.modal.is_some() || self.file_picker.is_some() {
            return false;
        }
        match code {
            KeyCode::Char('j') | KeyCode::Down => {
                self.lyrics_scroll = if self.lyrics_scroll < usize::MAX {
                    self.lyrics_scroll + 1
                } else {
                    usize::MAX
                };
                true
            },
            KeyCode::Char('k') | KeyCode::Up => {
                self.lyrics_scroll = if self.lyrics_scroll >= 1 {
                    self.lyrics_scroll - 1
                } else {
                    0
                };
                true
            },
            KeyCode::Esc | KeyCode::Char('y') => {
                self.show_lyrics = false;
                true
            },
            _ => false,
        }
    }
}


/// Where a seek of `step_secs` forward (or back) lands, in whole seconds:
/// clamped to the start and to the last second of the track when its length
/// is known.
pub open spec fn seek_target_secs(elapsed_ms: int, duration_ms: Option<u64>, forward: bool, step_secs: u64) -> int {
    let current = elapsed_ms / 1000;
    let max: int = match duration_ms {
        Some(d) => if d / 1000 >= 1 {
            d / 1000 - 1
        } else {
            0
        },
        None => i64::MAX as int,
    };
    let raw = if forward {
        current + step_secs
    } else {
        current - step_secs
    };
    if raw < 0 {
        0
    } else if raw > max {
        max
    } else {
        raw
    }
}

/// `secs` seconds in milliseconds, saturating at the largest `u64`.
pub open spec fn secs_to_ms(secs: int) -> u64 {
    if secs * 1000 <= u64::MAX {
        (secs * 1000) as u64
    } else {
        u64::MAX
    }
}

/// The speed one step up or down from `speed`, kept within the limits.
pub open spec fn stepped_speed(speed: u32, up: bool) -> u32 {
    if up {
        if speed + SPEED_STEP <= SPEED_MAX {
            (speed + SPEED_STEP) as u32
        } else {
            SPEED_MAX
        }
    } else {
        if speed >= SPEED_MIN + SPEED_STEP {
            (speed - SPEED_STEP) as u32
        } else {
            SPEED_MIN
        }
    }
}

/// A speed step changes the speed by one hundredth, never below 0.05x nor
/// above 3x; inside that range a step up is undone by a step down and the
/// other way round.
pub proof fn lemma_speed_steps(speed: u32)
    requires
        5 <= speed <= 300,
    ensures
        stepped_speed(speed, true) == if speed < 300 { speed + 1 } else { 300 },
        stepped_speed(speed, false) == if speed > 5 { speed - 1 } else { 5 },
        speed < 300 ==> stepped_speed(stepped_speed(speed, true), false) == speed,
        speed > 5 ==> stepped_speed(stepped_speed(speed, false), true) == speed,
{
}

impl AppState {
    /// Space: starts the queue when nothing plays, else pauses or resumes,
    /// keeping the clock in step.
    pub fn action_toggle_play(&mut self, now_ms: u64)
        requires
            old(self).wf(),
        ensures
            final(self).wf(),
            play_toggled(*old(self), *final(self), now_ms),
    {
        if self.now_playing.is_none() {
            if self.queue.len() > 0 {
                self.play_queue_index(0, now_ms);
            }
        } else if self.player.is_paused {
            self.track_start_ms = Some(now_ms);
            self.player.resume();
        } else {
            self.seek_offset_ms = self.elapsed(now_ms);
            self.track_start_ms = None;
            self.player.pause();
        }
    }

    /// Left / Right: seeks `step_secs` back or forward in the playing track,
    /// clamped to its start and its last second; nothing when nothing plays.
    pub fn action_seek(&mut self, forward: bool, step_secs: u64, now_ms: u64)
        requires
            old(self).wf(),
        ensures
            final(self).wf(),
            seeked(*old(self), *final(self), forward, step_secs, now_ms),
    {
        let idx = match self.now_playing {
            Some(i) => i,
            None => {
                return;
            },
        };
        let path = self.queue[idx].path.clone();
        let current: i128 = (self.elapsed(now_ms) / 1000) as i128;
        let max_secs: i128 = match self.track_duration_ms {
            Some(d) => if d / 1000 >= 1 {
                (d / 1000 - 1) as i128
            } else {
                0
            },
            None => 0x7fff_ffff_ffff_ffff,
        };
        let raw: i128 = if forward {
            current + step_secs as i128
        } else {
            current - step_secs as i128
        };
        let target_secs: i128 = if raw < 0 {
            0
        } else if raw > max_secs {
            max_secs
        } else {
            raw
        };
        let target: u64 = if target_secs <= 18_446_744_073_709_551 {
            (target_secs as u64) * 1000
        } else {
            0xffff_ffff_ffff_ffff
        };
        self.seek_offset_ms = target;
        self.track_start_ms = if self.player.is_paused {
            None
        } else {
            Some(now_ms)
        };
        let paused = self.player.is_paused;
        self.player.seek(path, target, paused);
    }

    /// Sets the playback speed to `new_speed` hundredths; the playing track is
    /// re-seeked to where it was so the change applies at once.
    pub fn change_speed(&mut self, new_speed: u32, now_ms: u64)
        requires
            old(self).wf(),
        ensures
            final(self).wf(),
            speed_changed(*old(self), *final(self), new_speed, now_ms),
    {
        if new_speed == self.player.playback_speed {
            return;
        }
        let current_pos = match self.now_playing {
            Some(_) => Some(self.elapsed(now_ms)),
            None => None,
        };
        self.player.playback_speed = new_speed;
        match (current_pos, self.now_playing) {
            (Some(pos), Some(np)) => {
                let path = self.queue[np].path.clone();
                let paused = self.player.is_paused;
                self.seek_offset_ms = pos;
                self.track_start_ms = if paused {
                    None
                } else {
                    Some(now_ms)
                };
                self.player.seek(path, pos, paused);
            },
            _ => {},
        }
    }

    /// `]` / `[`: one speed step up or down.
    pub fn action_speed(&mut self, up: bool, now_ms: u64)
        requires
            old(self).wf(),
        ensures
            final(self).wf(),
            speed_changed(*old(self), *final(self), stepped_speed(old(self).player.playback_speed, up), now_ms),
    {
        let s = self.player.playback_speed;
        let new = if up {
            if s < SPEED_MAX {
                s + SPEED_STEP
            } else {
                SPEED_MAX
            }
        } else {
            if s >= SPEED_MIN + SPEED_STEP {
                s - SPEED_STEP
            } else {
                SPEED_MIN
            }
        };
        self.change_speed(new, now_ms);
    }

    /// Enter: on the sidebar, opens the view under the cursor in the
    /// tracklist; on the tracklist, plays the selected track right away,
    /// inserted after the current entry; on the queue, plays the entry under
    /// the cursor.
    pub fn action_enter(&mut self, now_ms: u64)
        requires
            old(self).wf(),
        ensures
            final(self).wf(),
            entered(*old(self), *final(self), now_ms),
    {
        match self.focus {
            Focus::Sidebar => {
                self.sync_active_playlist();
                self.focus = Focus::TrackList;
            },
            Focus::TrackList => {
                match self.selected_track() {
                    Some(track) => {
                        let _qlen = self.queue.len();
                        let at = match self.now_playing {
                            Some(i) => i + 1,
                            None => 0,
                        };
                        self.queue.insert(at, track);
                        self.play_queue_index(at, now_ms);
                    },
                    None => {},
                }
            },
            Focus::Queue => {
                let idx = self.queue_cursor;
                self.play_queue_index(idx, now_ms);
            },
        }
    }
}


/// The playlists as the picker lists them: id and name.
pub open spec fn playlist_choices(lib: Library) -> Seq<(u64, String)> {
    Seq::new(lib.playlists@.len(), |i: int| (lib.playlists@[i].id, lib.playlists@[i].name))
}

/// The track the edit keys act on: the tracklist row or queue entry under
/// the cursor; none on the sidebar.
pub open spec fn track_for_edit(s: AppState) -> Option<Track> {
    match s.focus {
        Focus::TrackList => if s.tracklist_cursor < rows_spec(s).len() {
            Some(rows_spec(s)[s.tracklist_cursor as int])
        } else {
            None
        },
        Focus::Queue => if s.queue_cursor < s.queue@.len() {
            Some(s.queue@[s.queue_cursor as int])
        } else {
            None
        },
        Focus::Sidebar => None,
    }
}

/// The name of the active view: "All tracks", or the playlist's name.
pub open spec fn view_name_spec(lib: Library, active: Option<u64>) -> Seq<char> {
    match active {
        None => "All tracks"@,
        Some(id) => {
            let p = first_pos(crate::library::playlist_ids(lib.playlists@), id);
            if p < lib.playlists@.len() {
                lib.playlists@[p].name@
            } else {
                "All tracks"@
            }
        },
    }
}

impl AppState {
    /// `a`: appends the selected track to the queue.
    pub fn action_add_to_queue(&mut self)
        requires
            old(self).wf(),
        ensures
            final(self).wf(),
            queued_selection(*old(self), *final(self)),
    {
        match self.selected_track() {
            Some(t) => self.queue.push(t),
            None => {},
        }
    }

    /// `p`: asks which playlist the selected track should join.
    pub fn action_add_to_playlist(&mut self)
        requires
            old(self).wf(),
        ensures
            final(self).wf(),
            playlist_picker_opened(*old(self), *final(self)),
    {
        match self.selected_track() {
            Some(track) => {
                let mut choices: Vec<(u64, String)> = Vec::new();
                for i in 0..self.library.playlists.len()
                    invariant
                        choices@ == playlist_choices(self.library).take(i as int),
                {
                    let p = &self.library.playlists[i];
                    choices.push((p.id, p.name.clone()));
                    proof {
                        assert(choices@ =~= playlist_choices(self.library).take(i + 1));
                    }
                }
                proof {
                    assert(playlist_choices(self.library).take(self.library.playlists@.len() as int)
                        =~= playlist_choices(self.library));
                }
                self.modal = Some(
                    Modal::AddToPlaylist { track_id: track.id, track_name: track.name, choices, cursor: 0 },
                );
            },
            None => {},
        }
    }

    /// `d`: asks to confirm removing what the cursor is on: a playlist (not
    /// the whole library), a track from the library, or a queue entry.
    pub fn action_remove(&mut self)
        requires
            old(self).wf(),
        ensures
            final(self).wf(),
            removal_asked(*old(self), *final(self)),
    {
        match self.focus {
            Focus::Sidebar => {
                let c = self.sidebar_cursor;
                if c >= 1 && c - 1 < self.library.playlists.len() {
                    let pl = &self.library.playlists[c - 1];
                    let description = quote_in("Delete playlist ", pl.name.as_str(), "?");
                    let target = RemoveTarget::Playlist { playlist_id: pl.id };
                    self.modal = Some(Modal::ConfirmRemove { description, target });
                }
            },
            Focus::TrackList => {
                match self.selected_track() {
                    Some(track) => {
                        let description = quote_in("Remove ", track.name.as_str(), " from library?");
                        self.modal = Some(
                            Modal::ConfirmRemove {
                                description,
                                target: RemoveTarget::TrackFromLibrary { track_id: track.id },
                            },
                        );
                    },
                    None => {},
                }
            },
            Focus::Queue => {
                if self.queue_cursor < self.queue.len() {
                    self.modal = Some(
                        Modal::ConfirmRemove {
                            description: "Remove this track from the queue?".to_owned(),
                            target: RemoveTarget::TrackFromQueue { queue_idx: self.queue_cursor },
                        },
                    );
                }
            },
        }
    }

    /// `D`: asks to confirm clearing the queue, unless it is empty.
    pub fn action_clear_queue(&mut self)
        ensures
            clear_asked(*old(self), *final(self)),
    {
        if self.queue.len() == 0 {
            return;
        }
        self.modal = Some(
            Modal::ConfirmRemove {
                description: "Clear the entire queue?".to_owned(),
                target: RemoveTarget::Queue,
            },
        );
    }

    /// `c`: asks for the name of a new playlist.
    pub fn action_new_playlist(&mut self)
        ensures
            new_playlist_asked(*old(self), *final(self)),
    {
        self.modal = Some(Modal::NewPlaylist { input: TextInput::default(), add_track: None });
    }

    /// `f`: opens the file picker at the home directory; the directory is
    /// listed next.
    pub fn action_open_filepicker(&mut self)
        ensures
            picker_opened(*old(self), *final(self)),
    {
        self.file_picker = Some(FilePicker::new(self.home_dir.as_str()));
        self.effects.push(Effect::ListPicker);
    }

    /// `m`: opens the menu.
    pub fn action_open_menu(&mut self)
        ensures
            menu_opened(*old(self), *final(self)),
    {
        self.modal = Some(Modal::Menu { cursor: 0 });
    }

    /// Opens the settings dialog on the current settings and themes.
    pub fn open_settings(&mut self)
        ensures
            settings_opened(*old(self), *final(self)),
    {
        let t = theme_index(self.settings.theme_name.as_str());
        let c = console_theme_index(self.settings.console_theme_name.as_str());
        let v = self.settings.default_volume;
        self.modal = Some(
            Modal::Settings(
                SettingsState {
                    cursor: 0,
                    volume_pct: if v <= 100 {
                        v
                    } else {
                        100
                    },
                    seek_secs: self.settings.seek_step_secs,
                    preview_theme_idx: t,
                    transparent: self.settings.transparent,
                    preview_console_idx: c,
                    color_mode: self.settings.color_mode,
                    detected_truecolor: self.detected_truecolor,
                },
            ),
        );
    }

    /// Opens the about dialog.
    pub fn open_about(&mut self)
        ensures
            *final(self) == (AppState { modal: Some(Modal::About), ..*old(self) }),
    {
        self.modal = Some(Modal::About);
    }

    /// The name of the active view, for titles and prompts.
    pub fn active_view_name(&self) -> (r: String)
        ensures
            r@ == view_name_spec(self.library, self.active_playlist),
    {
        proof {
            reveal_strlit("All tracks");
        }
        match self.active_playlist {
            None => "All tracks".to_owned(),
            Some(id) => match self.library.playlist(id) {
                Some(p) => p.name.clone(),
                None => {
                    proof {
                        crate::library::lemma_first_pos(crate::library::playlist_ids(self.library.playlists@), id);
                    }
                    "All tracks".to_owned()
                },
            },
        }
    }

    /// `z`: asks to confirm shuffling the active view into the queue, unless
    /// the view is empty.
    pub fn action_shuffle_view(&mut self)
        requires
            old(self).wf(),
        ensures
            final(self).wf(),
            shuffle_asked(*old(self), *final(self)),
    {
        let n = self.view_tracks().len();
        if n == 0 {
            return;
        }
        let view_name = self.active_view_name();
        self.modal = Some(Modal::ShuffleView { view_name });
    }
}

/// The settings dialog open on `pre`'s settings: volume capped at 100, the
/// theme pickers on the saved themes (the first when a name is unknown).
pub open spec fn settings_opened(pre: AppState, post: AppState) -> bool {
    let theme = if exists|i: int| 0 <= i < THEME_COUNT && theme_name_spec(i) == pre.settings.theme_name@ {
        pre.settings.theme_name@
    } else {
        theme_name_spec(0)
    };
    let console = if exists|i: int|
        0 <= i < CONSOLE_THEME_COUNT && console_theme_name_spec(i) == pre.settings.console_theme_name@ {
        pre.settings.console_theme_name@
    } else {
        console_theme_name_spec(0)
    };
    &&& post == (AppState { modal: post.modal, ..pre })
    &&& post.modal matches Some(Modal::Settings(s))
    &&& s.cursor == 0
    &&& s.volume_pct == (if pre.settings.default_volume <= 100 {
        pre.settings.default_volume
    } else {
        100
    })
    &&& s.seek_secs == pre.settings.seek_step_secs
    &&& s.preview_theme_idx < THEME_COUNT
    &&& theme_name_spec(s.preview_theme_idx as int) == theme
    &&& s.preview_console_idx < CONSOLE_THEME_COUNT
    &&& console_theme_name_spec(s.preview_console_idx as int) == console
    &&& s.transparent == pre.settings.transparent
    &&& s.color_mode == pre.settings.color_mode
    &&& s.detected_truecolor == pre.detected_truecolor
}

/// `s`, or nothing when it is unset.
pub open spec fn or_empty(s: Option<String>) -> Seq<char> {
    match s {
        Some(v) => v@,
        None => Seq::empty(),
    }
}

/// `fields` hold `values`, each with its cursor at the end.
pub open spec fn fields_hold(fields: [TextInput; 5], values: Seq<Seq<char>>) -> bool {
    forall|k: int| 0 <= k < 5 ==> (#[trigger] fields@[k]).wf() && fields@[k].value@ == values[k]
        && fields@[k].cursor == crate::text::byte_len(values[k])
}

/// The lyrics the library holds for `id`, or nothing.
pub open spec fn raw_lyrics(lib: Library, id: u64) -> Seq<char> {
    let p = first_pos(track_ids(lib.tracks@), id);
    if p < lib.tracks@.len() {
        or_empty(lib.tracks@[p].lyrics)
    } else {
        Seq::empty()
    }
}

/// A copy of `s`, or an empty string.
fn text_or_empty(s: &Option<String>) -> (r: String)
    ensures
        r@ == or_empty(*s),
{
    match s {
        Some(v) => v.clone(),
        None => String::new(),
    }
}

impl AppState {
    /// `e` (and `r`): edits what the cursor is on: a playlist's name on the
    /// sidebar (not the whole library's), else the track's metadata.
    pub fn action_edit(&mut self)
        requires
            old(self).wf(),
        ensures
            final(self).wf(),
            edit_opened(*old(self), *final(self)),
    {
        let t = match self.focus {
            Focus::Sidebar => {
                let c = self.sidebar_cursor;
                if c >= 1 && c - 1 < self.library.playlists.len() {
                    let pl = &self.library.playlists[c - 1];
                    let input = TextInput::with_value(pl.name.as_str());
                    self.modal = Some(Modal::EditPlaylist { id: pl.id, input });
                }
                return ;
            },
            Focus::TrackList => self.selected_track(),
            Focus::Queue => if self.queue_cursor < self.queue.len() {
                Some(copy_track(&self.queue[self.queue_cursor]))
            } else {
                None
            },
        };
        match t {
            Some(t) => {
                let artist = text_or_empty(&t.artist);
                let album = text_or_empty(&t.album);
                let fields = [
                    TextInput::with_value(t.name.as_str()),
                    TextInput::with_value(artist.as_str()),
                    TextInput::with_value(album.as_str()),
                    TextInput::with_value(""),
                    TextInput::with_value(""),
                ];
                proof {
                    reveal_strlit("");
                    assert(""@ =~= Seq::<char>::empty());
                    let vals = seq![t.name@, or_empty(t.artist), or_empty(t.album), Seq::<char>::empty(), Seq::<char>::empty()];
                    assert forall|k: int| 0 <= k < 5 implies (#[trigger] fields@[k]).wf()
                        && fields@[k].value@ == vals[k] && fields@[k].cursor == crate::text::byte_len(vals[k]) by {
                        if k == 0 {
                        } else if k == 1 {
                        } else if k == 2 {
                        } else if k == 3 {
                        } else {
                        }
                    }
                }
                self.modal = Some(
                    Modal::EditMetadata { track_id: t.id, fields, active_field: 0, original_name: t.name },
                );
            },
            None => {},
        }
    }

    /// Opens the lyrics editor on the raw lyrics the library holds for
    /// `track_id`.
    pub fn action_edit_lyrics(&mut self, track_id: u64)
        requires
            old(self).wf(),
        ensures
            *final(self) == (AppState { modal: final(self).modal, ..*old(self) }),
            final(self).modal matches Some(Modal::EditLyrics { track_id: id, textarea }) && id == track_id
                && textarea.wf() && textarea.text() == crate::modal::editor_lines(
                raw_lyrics(old(self).library, track_id),
            ),
    {
        proof {
            crate::library::lemma_first_pos(track_ids(self.library.tracks@), track_id);
        }
        let raw = match self.library.track(track_id) {
            Some(t) => text_or_empty(&t.lyrics),
            None => {
                proof {
                    crate::library::lemma_first_pos(track_ids(self.library.tracks@), track_id);
                }
                String::new()
            },
        };
        self.modal = Some(
            Modal::EditLyrics { track_id, textarea: crate::modal::make_lyrics_textarea(raw.as_str()) },
        );
    }

    /// `y`: shows or hides the lyrics of the playing track; says why when
    /// there are none to show.
    pub fn action_toggle_lyrics(&mut self)
        requires
            old(self).wf(),
        ensures
            final(self).wf(),
            lyrics_toggled(*old(self), *final(self)),
    {
        match self.now_playing {
            Some(i) => {
                let id = self.queue[i].id;
                proof {
                    crate::library::lemma_first_pos(track_ids(self.library.tracks@), id);
                }
                let has_lyrics = match self.library.track(id) {
                    Some(t) => t.lyrics.is_some(),
                    None => {
                        proof {
                            crate::library::lemma_first_pos(track_ids(self.library.tracks@), id);
                        }
                        false
                    },
                };
                if has_lyrics {
                    self.show_lyrics = !self.show_lyrics;
                    if self.show_lyrics {
                        self.lyrics_scroll = 0;
                        self.lyrics_lines = self.lyrics_cache();
                    }
                } else {
                    self.show_lyrics = false;
                    self.modal = Some(
                        Modal::Notify {
                            message: "No lyrics for this track. Press e to edit metadata and add them.".to_owned(),
                        },
                    );
                }
            },
            None => {
                self.show_lyrics = false;
                self.modal = Some(Modal::Notify { message: "Nothing is playing.".to_owned() });
            },
        }
    }
}


/// The queue without the entries of track `id`, in order.
pub open spec fn queue_without(q: Seq<Track>, id: u64) -> Seq<Track>
    decreases q.len(),
{
    if q.len() == 0 {
        Seq::empty()
    } else if q.last().id == id {
        queue_without(q.drop_last(), id)
    } else {
        queue_without(q.drop_last(), id).push(q.last())
    }
}

/// How many entries of `q` are track `id`.
pub open spec fn count_id(q: Seq<Track>, id: u64) -> nat
    decreases q.len(),
{
    if q.len() == 0 {
        0
    } else {
        count_id(q.drop_last(), id) + if q.last().id == id {
            1nat
        } else {
            0nat
        }
    }
}

/// `c` kept inside a list of `len` rows (0 when it is empty).
pub open spec fn clamp_cursor(c: int, len: int) -> int {
    if len == 0 {
        0
    } else if c < len - 1 {
        c
    } else {
        len - 1
    }
}

/// `post` has the clock and the player of `pre`.
pub open spec fn same_playback(pre: AppState, post: AppState) -> bool {
    &&& post.track_start_ms == pre.track_start_ms
    &&& post.seek_offset_ms == pre.seek_offset_ms
    &&& post.track_duration_ms == pre.track_duration_ms
    &&& post.player == pre.player
}

/// `post` has stopped the player of `pre` and idled the clock.
pub open spec fn stopped(pre: AppState, post: AppState) -> bool {
    &&& post.now_playing is None
    &&& post.track_start_ms is None
    &&& post.seek_offset_ms == 0
    &&& post.track_duration_ms is None
    &&& !post.player.is_paused
    &&& post.player.volume == pre.player.volume
    &&& post.player.playback_speed == pre.player.playback_speed
    &&& post.player.outbox@ == pre.player.outbox@.push(PlayerCommand::Stop)
}

/// `post` is `pre` apart from the queue, its cursor and what plays.
pub open spec fn frame_queue(pre: AppState, post: AppState) -> bool {
    post == (AppState {
        queue: post.queue,
        queue_cursor: post.queue_cursor,
        now_playing: post.now_playing,
        track_start_ms: post.track_start_ms,
        seek_offset_ms: post.seek_offset_ms,
        track_duration_ms: post.track_duration_ms,
        player: post.player,
        ..pre
    })
}

/// Removing queue entry `idx`: later entries move up, the playing index
/// follows its track, and removing the playing entry stops playback.
pub open spec fn queue_entry_removed(pre: AppState, post: AppState, idx: int) -> bool {
    if idx >= pre.queue@.len() {
        post == pre
    } else {
        let q = pre.queue@.remove(idx);
        &&& frame_queue(pre, post)
        &&& post.queue@ == q
        &&& post.queue_cursor == clamp_cursor(pre.queue_cursor as int, q.len() as int)
        &&& match pre.now_playing {
            Some(np) => if idx == np {
                stopped(pre, post)
            } else if idx < np {
                post.now_playing == Some((np - 1) as usize) && same_playback(pre, post)
            } else {
                post.now_playing == pre.now_playing && same_playback(pre, post)
            },
            None => post.now_playing is None && same_playback(pre, post),
        }
    }
}

/// Clearing the queue: empty, cursor on top, playback stopped.
pub open spec fn queue_cleared(pre: AppState, post: AppState) -> bool {
    &&& frame_queue(pre, post)
    &&& post.queue@.len() == 0
    &&& post.queue_cursor == 0
    &&& stopped(pre, post)
}

proof fn lemma_queue_without(q: Seq<Track>, id: u64, k: int)
    requires
        0 <= k <= q.len(),
    ensures
        queue_without(q, id).len() == q.len() - count_id(q, id),
        count_id(q.take(k), id) <= k,
        forall|i: int| 0 <= i < queue_without(q, id).len() ==> (#[trigger] queue_without(q, id)[i]).id != id,
    decreases q.len(),
{
    if q.len() > 0 {
        lemma_queue_without(q.drop_last(), id, if k < q.len() { k } else { q.len() - 1 });
        if k == q.len() {
            assert(q.take(k) =~= q);
            assert(q.take(k).drop_last() =~= q.drop_last().take(k - 1));
            assert(q.drop_last().take(k - 1) =~= q.drop_last());
        } else {
            assert(q.take(k) =~= q.drop_last().take(k));
        }
        let w = queue_without(q.drop_last(), id);
        assert forall|i: int| 0 <= i < queue_without(q, id).len() implies (#[trigger] queue_without(
            q,
            id,
        )[i]).id != id by {
            if i < w.len() {
                assert(queue_without(q, id)[i] == w[i]);
            }
        }
    } else {
        assert(q.take(k) =~= q);
    }
}

/// Dropping the entries of track `id` from the queue: the rest keep their
/// order, the playing index follows its track, or playback stops when that
/// was the track.
pub open spec fn queue_purged(pre: AppState, post: AppState, id: u64) -> bool {
    let q = queue_without(pre.queue@, id);
    &&& frame_queue(pre, post)
    &&& post.queue@ == q
    &&& post.queue_cursor == clamp_cursor(pre.queue_cursor as int, q.len() as int)
    &&& match pre.now_playing {
        Some(np) => if pre.queue@[np as int].id == id {
            stopped(pre, post)
        } else {
            post.now_playing == Some((np - count_id(pre.queue@.take(np as int), id)) as usize)
                && same_playback(pre, post)
        },
        None => post.now_playing is None && same_playback(pre, post),
    }
}

/// Removing track `id` from the library: it leaves the library, every
/// playlist and the queue; the playing index follows its track, or playback
/// stops when that was the track; the file is deleted and the index saved.
pub open spec fn library_track_removed(pre: AppState, post: AppState, id: u64) -> bool {
    let q = queue_without(pre.queue@, id);
    &&& !post.library.has_track(id)
    &&& post.library.wf()
    &&& (pre.library.members_known() ==> post.library.members_known())
    &&& post.queue@ == q
    &&& post.queue_cursor == clamp_cursor(pre.queue_cursor as int, q.len() as int)
    &&& post.filtered_ids@ == filtered_spec(post.library, pre.active_playlist, pre.tracklist_filter@)
    &&& post.tracklist_cursor == clamp_cursor(
        pre.tracklist_cursor as int,
        crate::library::resolve_ids(post.library.tracks@, post.filtered_ids@).len() as int,
    )
    &&& match pre.now_playing {
        Some(np) => if pre.queue@[np as int].id == id {
            stopped(pre, post)
        } else {
            post.now_playing == Some((np - count_id(pre.queue@.take(np as int), id)) as usize)
                && same_playback(pre, post)
        },
        None => post.now_playing is None && same_playback(pre, post),
    }
    &&& if pre.library.has_track(id) {
        post.effects@ == pre.effects@.push(
            Effect::DeleteFile(pre.library.tracks@[first_pos(track_ids(pre.library.tracks@), id)].path),
        ).push(Effect::SaveLibrary)
    } else {
        post.effects == pre.effects
    }
    &&& post == (AppState {
        library: post.library,
        queue: post.queue,
        queue_cursor: post.queue_cursor,
        now_playing: post.now_playing,
        track_start_ms: post.track_start_ms,
        seek_offset_ms: post.seek_offset_ms,
        track_duration_ms: post.track_duration_ms,
        player: post.player,
        filtered_ids: post.filtered_ids,
        tracklist_cursor: post.tracklist_cursor,
        effects: post.effects,
        ..pre
    })
}

/// How many of the first `n` entries of `q` are track `id`.
fn count_before(q: &Vec<Track>, n: usize, id: u64) -> (r: usize)
    requires
        n <= q@.len(),
    ensures
        r == count_id(q@.take(n as int), id),
        r <= n,
{
    let mut c: usize = 0;
    let mut k: usize = 0;
    while k < n
        invariant
            k <= n,
            n <= q@.len(),
            c == count_id(q@.take(k as int), id),
            c <= k,
        decreases n - k,
    {
        proof {
            assert(q@.take(k + 1).drop_last() =~= q@.take(k as int));
            assert(q@.take(k + 1).last() == q@[k as int]);
        }
        if q[k].id == id {
            c = c + 1;
        }
        k = k + 1;
    }
    c
}

/// The entries of `q` that are not track `id`.
fn queue_filtered(q: &Vec<Track>, id: u64) -> (r: Vec<Track>)
    ensures
        r@ == queue_without(q@, id),
{
    let mut kept: Vec<Track> = Vec::new();
    for i in 0..q.len()
        invariant
            kept@ == queue_without(q@.take(i as int), id),
    {
        proof {
            assert(q@.take(i + 1).drop_last() =~= q@.take(i as int));
            assert(q@.take(i + 1).last() == q@[i as int]);
        }
        if q[i].id != id {
            kept.push(copy_track(&q[i]));
        }
    }
    proof {
        assert(q@.take(q@.len() as int) =~= q@);
    }
    kept
}

/// Where the playing index lands once the entries of track `id` leave the
/// queue, when the playing entry is not one of them.
proof fn lemma_playing_shift(q: Seq<Track>, id: u64, np: int)
    requires
        0 <= np < q.len(),
        q[np].id != id,
    ensures
        0 <= np - count_id(q.take(np), id) < queue_without(q, id).len(),
        queue_without(q, id)[np - count_id(q.take(np), id)] == q[np],
    decreases q.len(),
{
    lemma_queue_without(q.take(np), id, np);
    if np == q.len() - 1 {
        assert(q.drop_last() =~= q.take(np));
        assert(queue_without(q, id) == queue_without(q.take(np), id).push(q[np]));
    } else {
        lemma_playing_shift(q.drop_last(), id, np);
        assert(q.drop_last().take(np) =~= q.take(np));
        let w = queue_without(q.drop_last(), id);
        if q.last().id != id {
            assert(queue_without(q, id) == w.push(q.last()));
        }
    }
}

impl AppState {
    /// Removes queue entry `idx`, if there is one.
    pub fn remove_queue_entry(&mut self, idx: usize)
        requires
            old(self).wf(),
        ensures
            final(self).wf(),
            queue_entry_removed(*old(self), *final(self), idx as int),
    {
        if idx >= self.queue.len() {
            return;
        }
        self.queue.remove(idx);
        match self.now_playing {
            Some(np) => {
                if idx < np {
                    self.now_playing = Some(np - 1);
                } else if idx == np {
                    self.halt_playback();
                }
            },
            None => {},
        }
        let len = self.queue.len();
        self.queue_cursor = if len == 0 {
            0
        } else if self.queue_cursor < len - 1 {
            self.queue_cursor
        } else {
            len - 1
        };
    }

    /// Empties the queue and stops playback.
    pub fn clear_queue(&mut self)
        requires
            old(self).wf(),
        ensures
            final(self).wf(),
            queue_cleared(*old(self), *final(self)),
    {
        self.queue = Vec::new();
        self.queue_cursor = 0;
        self.halt_playback();
    }

    /// Drops every queue entry of track `id`; the playing index follows its
    /// track, or playback stops when that was the track.
    fn purge_queue(&mut self, id: u64)
        requires
            old(self).wf(),
        ensures
            final(self).wf(),
            queue_purged(*old(self), *final(self), id),
    {
        let ghost q0 = self.queue@;
        let (playing_removed, removed_before): (bool, usize) = match self.now_playing {
            Some(np) => (self.queue[np].id == id, count_before(&self.queue, np, id)),
            None => (false, 0),
        };
        let kept = queue_filtered(&self.queue, id);
        self.queue = kept;
        if playing_removed {
            self.halt_playback();
        } else if removed_before > 0 {
            match self.now_playing {
                Some(np) => {
                    self.now_playing = Some(np - removed_before);
                },
                None => {},
            }
        }
        proof {
            match old(self).now_playing {
                Some(np) => {
                    if q0[np as int].id != id {
                        lemma_playing_shift(q0, id, np as int);
                    }
                },
                None => {},
            }
        }
        let len = self.queue.len();
        self.queue_cursor = if len == 0 {
            0
        } else if self.queue_cursor < len - 1 {
            self.queue_cursor
        } else {
            len - 1
        };
    }

    /// Removes track `id` from the library, every playlist and the queue.
    pub fn remove_library_track(&mut self, id: u64)
        requires
            old(self).wf(),
        ensures
            final(self).wf(),
            library_track_removed(*old(self), *final(self), id),
    {
        match self.library.remove_track(id) {
            Some(path) => {
                self.effects.push(Effect::DeleteFile(path));
                self.effects.push(Effect::SaveLibrary);
            },
            None => {},
        }
        self.purge_queue(id);
        self.rebuild_filter_cache();
        let rows = self.active_tracks().len();
        self.tracklist_cursor = if rows == 0 {
            0
        } else if self.tracklist_cursor < rows - 1 {
            self.tracklist_cursor
        } else {
            rows - 1
        };
    }
}

// -- What each action does ------------------------------------------------------

/// Moving to the next entry: started, left alone, or stopped, as
/// [`next_index`] says.
pub open spec fn next_done(pre: AppState, post: AppState, now_ms: u64) -> bool {
    match next_index(pre.loop_mode, pre.now_playing, pre.queue@.len() as int) {
        Some(i) => if i < pre.queue@.len() {
            started(pre, post, i, now_ms)
        } else {
            unchanged(pre, post)
        },
        None => halted(pre, post),
    }
}

/// Moving to the previous entry as [`prev_index`] says.
pub open spec fn prev_done(pre: AppState, post: AppState, now_ms: u64) -> bool {
    match prev_index(pre.loop_mode, pre.now_playing, pre.queue@.len() as int) {
        Some(i) => if i < pre.queue@.len() {
            started(pre, post, i, now_ms)
        } else {
            unchanged(pre, post)
        },
        None => unchanged(pre, post),
    }
}

/// The sidebar cursor on row `c`, and the tracklist on that row's view,
/// unfiltered, when the row exists.
pub open spec fn sidebar_moved(pre: AppState, post: AppState, c: int) -> bool {
    match row_view(pre.library, c) {
        Some(v) => {
            &&& post.tracklist_filter@.len() == 0
            &&& post.filtered_ids@ == filtered_spec(pre.library, v, Seq::empty())
            &&& post == (AppState {
                sidebar_cursor: c as usize,
                active_playlist: v,
                tracklist_cursor: 0,
                tracklist_filter: post.tracklist_filter,
                filter_active: false,
                filtered_ids: post.filtered_ids,
                ..pre
            })
        },
        None => post == (AppState { sidebar_cursor: c as usize, ..pre }),
    }
}

/// One row down in the focused panel; on the sidebar the tracklist follows
/// the new row.
pub open spec fn cursor_down_done(pre: AppState, post: AppState) -> bool {
    match pre.focus {
        Focus::Sidebar => sidebar_moved(pre, post, step_down(pre.sidebar_cursor as int, sidebar_rows(pre))),
        Focus::TrackList => post == (AppState {
            tracklist_cursor: step_down(
                pre.tracklist_cursor as int,
                rows_spec(pre).len() as int,
            ) as usize,
            ..pre
        }),
        Focus::Queue => post == (AppState {
            queue_cursor: step_down(pre.queue_cursor as int, pre.queue@.len() as int) as usize,
            ..pre
        }),
    }
}

/// One row up in the focused panel; on the sidebar the tracklist follows
/// the new row.
pub open spec fn cursor_up_done(pre: AppState, post: AppState) -> bool {
    match pre.focus {
        Focus::Sidebar => sidebar_moved(pre, post, step_up(pre.sidebar_cursor as int)),
        Focus::TrackList => post == (AppState {
            tracklist_cursor: step_up(pre.tracklist_cursor as int) as usize,
            ..pre
        }),
        Focus::Queue => post == (AppState {
            queue_cursor: step_up(pre.queue_cursor as int) as usize,
            ..pre
        }),
    }
}

/// Space: the queue starts when nothing plays, else playback pauses or
/// resumes with the clock in step.
pub open spec fn play_toggled(pre: AppState, post: AppState, now_ms: u64) -> bool {
    if pre.now_playing is None {
        if pre.queue@.len() > 0 {
            started(pre, post, 0, now_ms)
        } else {
            unchanged(pre, post)
        }
    } else if pre.player.is_paused {
        &&& post == (AppState {
            track_start_ms: Some(now_ms),
            player: post.player,
            ..pre
        })
        &&& !post.player.is_paused
        &&& post.player.outbox@ == pre.player.outbox@.push(PlayerCommand::Resume)
        &&& post.player.volume == pre.player.volume
        &&& post.player.playback_speed == pre.player.playback_speed
    } else {
        &&& post == (AppState {
            seek_offset_ms: pre.elapsed_spec(now_ms) as u64,
            track_start_ms: None,
            player: post.player,
            ..pre
        })
        &&& post.player.is_paused
        &&& post.player.outbox@ == pre.player.outbox@.push(PlayerCommand::Pause)
        &&& post.player.volume == pre.player.volume
        &&& post.player.playback_speed == pre.player.playback_speed
    }
}

/// A seek of `step_secs` seconds, clamped to the track.
pub open spec fn seeked(pre: AppState, post: AppState, forward: bool, step_secs: u64, now_ms: u64) -> bool {
    match pre.now_playing {
        Some(i) => {
            let target = secs_to_ms(
                seek_target_secs(
                    pre.elapsed_spec(now_ms),
                    pre.track_duration_ms,
                    forward,
                    step_secs,
                ),
            );
            &&& post == (AppState {
                seek_offset_ms: target,
                track_start_ms: if pre.player.is_paused {
                    None
                } else {
                    Some(now_ms)
                },
                player: post.player,
                ..pre
            })
            &&& post.player.outbox@ == pre.player.outbox@.push(
                PlayerCommand::Seek {
                    path: pre.queue@[i as int].path,
                    position_ms: target,
                    paused: pre.player.is_paused,
                    speed: pre.player.playback_speed,
                },
            )
            &&& post.player.is_paused == pre.player.is_paused
            &&& post.player.volume == pre.player.volume
            &&& post.player.playback_speed == pre.player.playback_speed
        },
        None => post == pre,
    }
}

/// The speed set to `new_speed` hundredths, the playing track re-seeked to
/// where it was.
pub open spec fn speed_changed(pre: AppState, post: AppState, new_speed: u32, now_ms: u64) -> bool {
    &&& new_speed == pre.player.playback_speed ==> post == pre
    &&& new_speed != pre.player.playback_speed ==> match pre.now_playing {
        Some(i) => {
            let pos = pre.elapsed_spec(now_ms) as u64;
            &&& post == (AppState {
                seek_offset_ms: pos,
                track_start_ms: if pre.player.is_paused {
                    None
                } else {
                    Some(now_ms)
                },
                player: post.player,
                ..pre
            })
            &&& post.player.playback_speed == new_speed
            &&& post.player.outbox@ == pre.player.outbox@.push(
                PlayerCommand::Seek {
                    path: pre.queue@[i as int].path,
                    position_ms: pos,
                    paused: pre.player.is_paused,
                    speed: new_speed,
                },
            )
            &&& post.player.is_paused == pre.player.is_paused
            &&& post.player.volume == pre.player.volume
        },
        None => post == (AppState {
            player: PlayerHandle { playback_speed: new_speed, ..pre.player },
            ..pre
        }),
    }
}

/// Enter in the focused panel.
pub open spec fn entered(pre: AppState, post: AppState, now_ms: u64) -> bool {
    &&& pre.focus == Focus::TrackList ==> {
        let rows = rows_spec(pre);
        let at = match pre.now_playing {
            Some(i) => i + 1,
            None => 0,
        };
        if pre.tracklist_cursor < rows.len() {
            started_in(
                pre,
                post,
                pre.queue@.insert(at, rows[pre.tracklist_cursor as int]),
                at,
                now_ms,
            )
        } else {
            unchanged(pre, post)
        }
    }
    &&& pre.focus == Focus::Queue ==> if pre.queue_cursor < pre.queue@.len() {
        started(pre, post, pre.queue_cursor as int, now_ms)
    } else {
        unchanged(pre, post)
    }
    &&& pre.focus == Focus::Sidebar ==> sidebar_moved(
        AppState { focus: Focus::TrackList, ..pre },
        post,
        pre.sidebar_cursor as int,
    )
}

/// `a`: the selected tracklist row appended to the queue.
pub open spec fn queued_selection(pre: AppState, post: AppState) -> bool {
    &&& pre.tracklist_cursor < rows_spec(pre).len() ==> post == (AppState {
        queue: post.queue,
        ..pre
    }) && post.queue@ == pre.queue@.push(
        rows_spec(pre)[pre.tracklist_cursor as int],
    )
    &&& pre.tracklist_cursor >= rows_spec(pre).len() ==> post == pre
}

/// `p`: the playlist picker open for the selected track.
pub open spec fn playlist_picker_opened(pre: AppState, post: AppState) -> bool {
    &&& pre.tracklist_cursor < rows_spec(pre).len() ==> {
        let t = rows_spec(pre)[pre.tracklist_cursor as int];
        &&& post == (AppState { modal: post.modal, ..pre })
        &&& post.modal matches Some(Modal::AddToPlaylist { track_id, track_name, choices, cursor })
            && track_id == t.id && track_name == t.name && choices@ == playlist_choices(pre.library)
            && cursor == 0
    }
    &&& pre.tracklist_cursor >= rows_spec(pre).len() ==> post == pre
}

/// `d`: the confirmation for removing what the cursor is on.
pub open spec fn removal_asked(pre: AppState, post: AppState) -> bool {
    &&& post == (AppState { modal: post.modal, ..pre })
    &&& match pre.focus {
        Focus::Sidebar => if 1 <= pre.sidebar_cursor <= pre.library.playlists@.len() {
            let pl = pre.library.playlists@[pre.sidebar_cursor - 1];
            post.modal matches Some(Modal::ConfirmRemove { description, target })
                && description@ == quoted("Delete playlist "@, pl.name@, "?"@)
                && target == (RemoveTarget::Playlist { playlist_id: pl.id })
        } else {
            post.modal == pre.modal
        },
        Focus::TrackList => if pre.tracklist_cursor < rows_spec(pre).len() {
            let t = rows_spec(pre)[pre.tracklist_cursor as int];
            post.modal matches Some(Modal::ConfirmRemove { description, target })
                && description@ == quoted("Remove "@, t.name@, " from library?"@)
                && target == (RemoveTarget::TrackFromLibrary { track_id: t.id })
        } else {
            post.modal == pre.modal
        },
        Focus::Queue => if pre.queue_cursor < pre.queue@.len() {
            post.modal matches Some(Modal::ConfirmRemove { description, target })
                && description@ == "Remove this track from the queue?"@
                && target == (RemoveTarget::TrackFromQueue { queue_idx: pre.queue_cursor })
        } else {
            post.modal == pre.modal
        },
    }
}

/// `D`: the confirmation for clearing a non-empty queue.
pub open spec fn clear_asked(pre: AppState, post: AppState) -> bool {
    &&& pre.queue@.len() == 0 ==> post == pre
    &&& pre.queue@.len() > 0 ==> {
        &&& post == (AppState { modal: post.modal, ..pre })
        &&& post.modal matches Some(Modal::ConfirmRemove { description, target })
            && description@ == "Clear the entire queue?"@ && target == RemoveTarget::Queue
    }
}

/// `c`: the prompt for a new playlist's name, empty.
pub open spec fn new_playlist_asked(pre: AppState, post: AppState) -> bool {
    &&& post == (AppState { modal: post.modal, ..pre })
    &&& post.modal matches Some(Modal::NewPlaylist { input, add_track }) && input.wf()
        && input.value@.len() == 0 && input.cursor == 0 && add_track is None
}

/// `f`: the file picker open at the home directory, to be listed.
pub open spec fn picker_opened(pre: AppState, post: AppState) -> bool {
    &&& post == (AppState {
        file_picker: post.file_picker,
        effects: post.effects,
        ..pre
    })
    &&& post.file_picker matches Some(p) && p.current_dir@ == pre.home_dir@
        && p.entries@.len() == 0 && p.cursor == 0
    &&& post.effects@ == pre.effects@.push(Effect::ListPicker)
}

/// `m`: the menu open on its first entry.
pub open spec fn menu_opened(pre: AppState, post: AppState) -> bool {
    post == (AppState { modal: Some(Modal::Menu { cursor: 0 }), ..pre })
}

/// `z`: the confirmation for shuffling a non-empty view into the queue.
pub open spec fn shuffle_asked(pre: AppState, post: AppState) -> bool {
    &&& view_tracks(pre.library, pre.active_playlist).len() == 0 ==> post
        == pre
    &&& view_tracks(pre.library, pre.active_playlist).len() > 0 ==> {
        &&& post == (AppState { modal: post.modal, ..pre })
        &&& post.modal matches Some(Modal::ShuffleView { view_name }) && view_name@
            == view_name_spec(pre.library, pre.active_playlist)
    }
}

/// `e` / `r`: the editor for what the cursor is on.
pub open spec fn edit_opened(pre: AppState, post: AppState) -> bool {
    &&& post == (AppState { modal: post.modal, ..pre })
    &&& pre.focus == Focus::Sidebar ==> if 1 <= pre.sidebar_cursor
        <= pre.library.playlists@.len() {
        let pl = pre.library.playlists@[pre.sidebar_cursor - 1];
        post.modal matches Some(Modal::EditPlaylist { id, input }) && id == pl.id
            && input.wf() && input.value@ == pl.name@
    } else {
        post.modal == pre.modal
    }
    &&& pre.focus != Focus::Sidebar ==> match track_for_edit(pre) {
        Some(t) => post.modal matches Some(
            Modal::EditMetadata { track_id, fields, active_field, original_name },
        ) && track_id == t.id && active_field == 0 && original_name == t.name && fields_hold(
            fields,
            seq![t.name@, or_empty(t.artist), or_empty(t.album), Seq::empty(), Seq::empty()],
        ),
        None => post.modal == pre.modal,
    }
}

/// `y`: the lyrics overlay shown or hidden, or a notice why there is
/// nothing to show.
pub open spec fn lyrics_toggled(pre: AppState, post: AppState) -> bool {
    match pre.now_playing {
        Some(i) => {
            let t = pre.queue@[i as int];
            let p = first_pos(track_ids(pre.library.tracks@), t.id);
            if p < pre.library.tracks@.len() && pre.library.tracks@[p].lyrics is Some {
                if pre.show_lyrics {
                    post == (AppState { show_lyrics: false, ..pre })
                } else {
                    &&& post == (AppState {
                        show_lyrics: true,
                        lyrics_scroll: 0,
                        lyrics_lines: post.lyrics_lines,
                        ..pre
                    })
                    &&& views(post.lyrics_lines@) == lyrics_for(pre.library, t)
                }
            } else {
                &&& post == (AppState {
                    show_lyrics: false,
                    modal: post.modal,
                    ..pre
                })
                &&& post.modal matches Some(Modal::Notify { message }) && message@
                    == "No lyrics for this track. Press e to edit metadata and add them."@
            }
        },
        None => {
            &&& post == (AppState {
                show_lyrics: false,
                modal: post.modal,
                ..pre
            })
            &&& post.modal matches Some(Modal::Notify { message }) && message@
                == "Nothing is playing."@
        },
    }
}


/// The lyrics overlay, while shown with no dialog or picker over it, takes
/// `j`/`k` (scroll) and Esc/`y` (close); `r` says whether it took the key.
pub open spec fn overlay_key_done(pre: AppState, post: AppState, code: KeyCode, r: bool) -> bool {
    &&& !pre.show_lyrics || pre.modal is Some || pre.file_picker is Some ==> !r
        && post == pre
    &&& pre.show_lyrics && pre.modal is None && pre.file_picker is None ==> {
        if code == KeyCode::Char('j') || code == KeyCode::Down {
            r && post == (AppState {
                lyrics_scroll: if pre.lyrics_scroll < usize::MAX {
                    (pre.lyrics_scroll + 1) as usize
                } else {
                    usize::MAX
                },
                ..pre
            })
        } else if code == KeyCode::Char('k') || code == KeyCode::Up {
            r && post == (AppState {
                lyrics_scroll: step_up(pre.lyrics_scroll as int) as usize,
                ..pre
            })
        } else if code == KeyCode::Esc || code == KeyCode::Char('y') {
            r && post == (AppState { show_lyrics: false, ..pre })
        } else {
            !r && post == pre
        }
    }
}

} // verus!
