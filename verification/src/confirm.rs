//! What a confirmed dialog does to the application state: removals,
//! playlist edits, metadata and lyrics saves, settings, shuffling the view
//! into the queue, and the outcome of a file import.
use vstd::prelude::*;

use crate::app::{
    clamp_cursor, filtered_spec, library_track_removed, lyrics_for, lyrics_now, quote_in,
    quoted, queue_cleared, queue_entry_removed, row_view, settings_opened, shuffle_tracks, view_tracks,
    AppState, Effect, ImportOutcome,
};
use crate::library::{tagged_name, FileTags};
use crate::modal::{editor_lines, Modal, ModalConfirm};
use crate::player::PlayerCommand;
use crate::settings::ColorMode;
use crate::library::{
    clone_opt, copy_track, first_pos, playlist_ids, resolve_ids, track_ids, without, without_playlist,
    Library, Track,
};
use crate::lyrics::views;
use crate::modal::RemoveTarget;

verus! {

/// `post` is the library `pre` with `track_id` dropped from the first
/// playlist with `playlist_id`, when there is one.
pub open spec fn dropped_from_playlist(pre: Library, post: Library, playlist_id: u64, track_id: u64) -> bool {
    let p = first_pos(playlist_ids(pre.playlists@), playlist_id);
    &&& post.tracks == pre.tracks
    &&& post.next_track_id == pre.next_track_id
    &&& post.next_playlist_id == pre.next_playlist_id
    &&& if p < pre.playlists@.len() {
        &&& post.playlists@.len() == pre.playlists@.len()
        &&& forall|i: int|
            0 <= i < pre.playlists@.len() && i != p ==> #[trigger] post.playlists@[i] == pre.playlists@[i]
        &&& post.playlists@[p].id == pre.playlists@[p].id
        &&& post.playlists@[p].name == pre.playlists@[p].name
        &&& post.playlists@[p].tracks@ == without(pre.playlists@[p].tracks@, track_id)
    } else {
        post.playlists == pre.playlists
    }
}

/// Dropping a track from a playlist: the library as above, the index saved
/// when the playlist was found, the tracklist's rows rebuilt and its cursor
/// kept inside them.
pub open spec fn playlist_entry_removed(pre: AppState, post: AppState, playlist_id: u64, track_id: u64) -> bool {
    &&& dropped_from_playlist(pre.library, post.library, playlist_id, track_id)
    &&& post.library.wf()
    &&& (pre.library.members_known() ==> post.library.members_known())
    &&& post.effects@ == if playlist_ids(pre.library.playlists@).contains(playlist_id) {
        pre.effects@.push(Effect::SaveLibrary)
    } else {
        pre.effects@
    }
    &&& post.filtered_ids@ == filtered_spec(post.library, pre.active_playlist, pre.tracklist_filter@)
    &&& post.tracklist_cursor == clamp_cursor(
        pre.tracklist_cursor as int,
        resolve_ids(post.library.tracks@, post.filtered_ids@).len() as int,
    )
    &&& post == (AppState {
        library: post.library,
        effects: post.effects,
        filtered_ids: post.filtered_ids,
        tracklist_cursor: post.tracklist_cursor,
        ..pre
    })
}

/// Deleting a playlist: it leaves the library (the index is saved when it
/// was there), the sidebar cursor stays inside the rows, and the tracklist
/// shows the view under it, unfiltered.
pub open spec fn playlist_deleted(pre: AppState, post: AppState, playlist_id: u64) -> bool {
    let n = post.library.playlists@.len();
    let c: int = if pre.sidebar_cursor <= n {
        pre.sidebar_cursor as int
    } else {
        n as int
    };
    &&& post.library.playlists@ == without_playlist(pre.library.playlists@, playlist_id)
    &&& post.library.tracks == pre.library.tracks
    &&& post.library.next_track_id == pre.library.next_track_id
    &&& post.library.next_playlist_id == pre.library.next_playlist_id
    &&& post.library.wf()
    &&& (pre.library.members_known() ==> post.library.members_known())
    &&& post.effects@ == if playlist_ids(pre.library.playlists@).contains(playlist_id) {
        pre.effects@.push(Effect::SaveLibrary)
    } else {
        pre.effects@
    }
    &&& post.sidebar_cursor == c
    &&& Some(post.active_playlist) == row_view(post.library, c)
    &&& post.tracklist_cursor == 0
    &&& post.tracklist_filter@.len() == 0
    &&& !post.filter_active
    &&& post.filtered_ids@ == filtered_spec(post.library, post.active_playlist, Seq::empty())
    &&& post == (AppState {
        library: post.library,
        effects: post.effects,
        sidebar_cursor: post.sidebar_cursor,
        active_playlist: post.active_playlist,
        tracklist_cursor: post.tracklist_cursor,
        tracklist_filter: post.tracklist_filter,
        filter_active: post.filter_active,
        filtered_ids: post.filtered_ids,
        ..pre
    })
}

/// What confirming the removal of `target` does.
pub open spec fn removal_applied(pre: AppState, post: AppState, target: RemoveTarget) -> bool {
    match target {
        RemoveTarget::TrackFromQueue { queue_idx } => queue_entry_removed(pre, post, queue_idx as int),
        RemoveTarget::TrackFromLibrary { track_id } => library_track_removed(pre, post, track_id),
        RemoveTarget::TrackFromPlaylist { playlist_id, track_id } => playlist_entry_removed(
            pre,
            post,
            playlist_id,
            track_id,
        ),
        RemoveTarget::Playlist { playlist_id } => playlist_deleted(pre, post, playlist_id),
        RemoveTarget::Queue => queue_cleared(pre, post),
    }
}

impl AppState {
    /// Drops `track_id` from a playlist, keeping the tracklist in step.
    pub fn remove_from_playlist(&mut self, playlist_id: u64, track_id: u64)
        requires
            old(self).wf(),
        ensures
            final(self).wf(),
            playlist_entry_removed(*old(self), *final(self), playlist_id, track_id),
    {
        proof {
            crate::library::lemma_first_pos(playlist_ids(self.library.playlists@), playlist_id);
        }
        if self.library.playlist_remove_track(playlist_id, track_id) {
            self.effects.push(Effect::SaveLibrary);
        }
        self.rebuild_filter_cache();
        let rows = self.active_tracks().len();
        self.tracklist_cursor = if rows == 0 {
            0
        } else if self.tracklist_cursor < rows - 1 {
            self.tracklist_cursor
        } else {
            rows - 1
        };
    }

    /// Deletes a playlist and points the sidebar at a row that still exists.
    pub fn delete_playlist_view(&mut self, playlist_id: u64)
        requires
            old(self).wf(),
        ensures
            final(self).wf(),
            playlist_deleted(*old(self), *final(self), playlist_id),
    {
        if self.library.delete_playlist(playlist_id) {
            self.effects.push(Effect::SaveLibrary);
        }
        let n = self.library.playlists.len();
        if self.sidebar_cursor > n {
            self.sidebar_cursor = n;
        }
        self.sync_active_playlist();
    }

    /// Carries out a confirmed removal.
    pub fn apply_remove(&mut self, target: RemoveTarget)
        requires
            old(self).wf(),
        ensures
            final(self).wf(),
            removal_applied(*old(self), *final(self), target),
    {
        match target {
            RemoveTarget::TrackFromQueue { queue_idx } => self.remove_queue_entry(queue_idx),
            RemoveTarget::TrackFromLibrary { track_id } => self.remove_library_track(track_id),
            RemoveTarget::TrackFromPlaylist { playlist_id, track_id } => self.remove_from_playlist(
                playlist_id,
                track_id,
            ),
            RemoveTarget::Playlist { playlist_id } => self.delete_playlist_view(playlist_id),
            RemoveTarget::Queue => self.clear_queue(),
        }
    }
}

/// `q` with every entry of track `id` given a new name, artist and album.
pub open spec fn queue_renamed(
    q: Seq<Track>,
    id: u64,
    name: String,
    artist: Option<String>,
    album: Option<String>,
) -> Seq<Track> {
    Seq::new(
        q.len(),
        |i: int|
            if q[i].id == id {
                Track { name: name, artist: artist, album: album, ..q[i] }
            } else {
                q[i]
            },
    )
}

/// Saving a track's metadata: the library copy takes it (and the index and
/// the file's tags are written) when the library holds the track, every
/// queue entry of the track takes it too, and the tracklist's rows are
/// rebuilt.
pub open spec fn metadata_saved(
    pre: AppState,
    post: AppState,
    id: u64,
    name: String,
    artist: Option<String>,
    album: Option<String>,
) -> bool {
    let p = first_pos(track_ids(pre.library.tracks@), id);
    let found = pre.library.has_track(id);
    &&& post.library.wf()
    &&& (pre.library.members_known() ==> post.library.members_known())
    &&& post.library.playlists == pre.library.playlists
    &&& post.library.next_track_id == pre.library.next_track_id
    &&& post.library.next_playlist_id == pre.library.next_playlist_id
    &&& if found {
        &&& post.library.tracks@ == pre.library.tracks@.update(
            p,
            Track { name: name, artist: artist, album: album, ..pre.library.tracks@[p] },
        )
        &&& post.effects@ == pre.effects@.push(Effect::SaveLibrary).push(Effect::WriteTags(id))
    } else {
        &&& post.library.tracks == pre.library.tracks
        &&& post.effects == pre.effects
    }
    &&& post.queue@ == queue_renamed(pre.queue@, id, name, artist, album)
    &&& post.filtered_ids@ == filtered_spec(post.library, pre.active_playlist, pre.tracklist_filter@)
    &&& post == (AppState {
        library: post.library,
        effects: post.effects,
        queue: post.queue,
        filtered_ids: post.filtered_ids,
        ..pre
    })
}

/// Saving a track's lyrics: the library copy takes them (and the index and
/// the file's tags are written) when the library holds the track; an open
/// lyrics overlay shows the playing track's lyrics anew.
pub open spec fn lyrics_saved(pre: AppState, post: AppState, id: u64, lyrics: Option<String>) -> bool {
    let p = first_pos(track_ids(pre.library.tracks@), id);
    let found = pre.library.has_track(id);
    &&& post.library.wf()
    &&& (pre.library.members_known() ==> post.library.members_known())
    &&& post.library.playlists == pre.library.playlists
    &&& post.library.next_track_id == pre.library.next_track_id
    &&& post.library.next_playlist_id == pre.library.next_playlist_id
    &&& if found {
        &&& post.library.tracks@ == pre.library.tracks@.update(
            p,
            Track { lyrics: lyrics, ..pre.library.tracks@[p] },
        )
        &&& post.effects@ == pre.effects@.push(Effect::SaveLibrary).push(Effect::WriteTags(id))
    } else {
        &&& post.library.tracks == pre.library.tracks
        &&& post.effects == pre.effects
    }
    &&& if pre.show_lyrics {
        views(post.lyrics_lines@) == lyrics_now(post.library, pre.queue@, pre.now_playing)
    } else {
        post.lyrics_lines == pre.lyrics_lines
    }
    &&& post == (AppState {
        library: post.library,
        effects: post.effects,
        lyrics_lines: post.lyrics_lines,
        ..pre
    })
}

/// Renaming a playlist: the first with `id` takes the name, and the index
/// is saved, when there is one.
pub open spec fn playlist_renamed(pre: AppState, post: AppState, id: u64, name: String) -> bool {
    let p = first_pos(playlist_ids(pre.library.playlists@), id);
    let found = playlist_ids(pre.library.playlists@).contains(id);
    &&& post.library.wf()
    &&& (pre.library.members_known() ==> post.library.members_known())
    &&& post.library.tracks == pre.library.tracks
    &&& post.library.next_track_id == pre.library.next_track_id
    &&& post.library.next_playlist_id == pre.library.next_playlist_id
    &&& if found {
        &&& post.library.playlists@.len() == pre.library.playlists@.len()
        &&& forall|i: int|
            0 <= i < pre.library.playlists@.len() && i != p ==> #[trigger] post.library.playlists@[i]
                == pre.library.playlists@[i]
        &&& post.library.playlists@[p].id == id
        &&& post.library.playlists@[p].name == name
        &&& post.library.playlists@[p].tracks == pre.library.playlists@[p].tracks
        &&& post.effects@ == pre.effects@.push(Effect::SaveLibrary)
    } else {
        &&& post.library.playlists == pre.library.playlists
        &&& post.effects == pre.effects
    }
    &&& post == (AppState { library: post.library, effects: post.effects, ..pre })
}

/// Adding a track to a playlist: appended to the first with `playlist_id`
/// unless it is already there (the index is saved when it changed), and
/// the tracklist's rows rebuilt.
pub open spec fn added_to_playlist(pre: AppState, post: AppState, track_id: u64, playlist_id: u64) -> bool {
    let p = first_pos(playlist_ids(pre.library.playlists@), playlist_id);
    let added = p < pre.library.playlists@.len() && !pre.library.playlists@[p].tracks@.contains(track_id);
    &&& post.library.wf()
    &&& (pre.library.members_known() && pre.library.has_track(track_id) ==> post.library.members_known())
    &&& post.library.tracks == pre.library.tracks
    &&& post.library.next_track_id == pre.library.next_track_id
    &&& post.library.next_playlist_id == pre.library.next_playlist_id
    &&& if added {
        &&& post.library.playlists@.len() == pre.library.playlists@.len()
        &&& forall|i: int|
            0 <= i < pre.library.playlists@.len() && i != p ==> #[trigger] post.library.playlists@[i]
                == pre.library.playlists@[i]
        &&& post.library.playlists@[p].id == playlist_id
        &&& post.library.playlists@[p].name == pre.library.playlists@[p].name
        &&& post.library.playlists@[p].tracks@ == pre.library.playlists@[p].tracks@.push(track_id)
        &&& post.effects@ == pre.effects@.push(Effect::SaveLibrary)
    } else {
        &&& post.library.playlists == pre.library.playlists
        &&& post.effects == pre.effects
    }
    &&& post.filtered_ids@ == filtered_spec(post.library, pre.active_playlist, pre.tracklist_filter@)
    &&& post == (AppState {
        library: post.library,
        effects: post.effects,
        filtered_ids: post.filtered_ids,
        ..pre
    })
}

/// Creating a playlist: a new last playlist under a fresh id, holding
/// `add_track` when one is given; the index is saved after each change,
/// and the tracklist's rows rebuilt.
pub open spec fn playlist_created(pre: AppState, post: AppState, name: String, add_track: Option<u64>) -> bool {
    let id = pre.library.next_playlist_id;
    let last = post.library.playlists@.last();
    &&& post.library.wf()
    &&& (pre.library.members_known() && (add_track matches Some(t) ==> pre.library.has_track(t))
        ==> post.library.members_known())
    &&& post.library.tracks == pre.library.tracks
    &&& post.library.next_track_id == pre.library.next_track_id
    &&& post.library.next_playlist_id == id + 1
    &&& !playlist_ids(pre.library.playlists@).contains(id)
    &&& post.library.playlists@.len() == pre.library.playlists@.len() + 1
    &&& post.library.playlists@.drop_last() == pre.library.playlists@
    &&& last.id == id
    &&& last.name == name
    &&& match add_track {
        Some(t) => {
            &&& last.tracks@ == seq![t]
            &&& post.effects@ == pre.effects@.push(Effect::SaveLibrary).push(Effect::SaveLibrary)
        },
        None => {
            &&& last.tracks@.len() == 0
            &&& post.effects@ == pre.effects@.push(Effect::SaveLibrary)
        },
    }
    &&& post.filtered_ids@ == filtered_spec(post.library, pre.active_playlist, pre.tracklist_filter@)
    &&& post == (AppState {
        library: post.library,
        effects: post.effects,
        filtered_ids: post.filtered_ids,
        ..pre
    })
}

/// `q`'s entries of track `id` renamed, as one pass would leave them.
fn rename_in_queue(
    q: &Vec<Track>,
    id: u64,
    name: &String,
    artist: &Option<String>,
    album: &Option<String>,
) -> (r: Vec<Track>)
    ensures
        r@ == queue_renamed(q@, id, *name, *artist, *album),
{
    let mut out: Vec<Track> = Vec::new();
    for i in 0..q.len()
        invariant
            out@ == queue_renamed(q@, id, *name, *artist, *album).take(i as int),
    {
        let t = copy_track(&q[i]);
        if t.id == id {
            out.push(
                Track { name: name.clone(), artist: clone_opt(artist), album: clone_opt(album), ..t },
            );
        } else {
            out.push(t);
        }
        proof {
            assert(out@ =~= queue_renamed(q@, id, *name, *artist, *album).take(i + 1));
        }
    }
    proof {
        assert(queue_renamed(q@, id, *name, *artist, *album).take(q@.len() as int) =~= queue_renamed(
            q@,
            id,
            *name,
            *artist,
            *album,
        ));
    }
    out
}

impl AppState {
    /// Saves edited metadata to the library and into the live queue.
    pub fn save_metadata(&mut self, id: u64, name: String, artist: Option<String>, album: Option<String>)
        requires
            old(self).wf(),
        ensures
            final(self).wf(),
            metadata_saved(*old(self), *final(self), id, name, artist, album),
    {
        let q = rename_in_queue(&self.queue, id, &name, &artist, &album);
        if self.library.update_track_metadata(id, name, artist, album) {
            self.effects.push(Effect::SaveLibrary);
            self.effects.push(Effect::WriteTags(id));
        }
        self.queue = q;
        self.rebuild_filter_cache();
    }

    /// Saves (or clears) a track's lyrics, refreshing an open overlay.
    pub fn save_lyrics(&mut self, id: u64, lyrics: Option<String>)
        requires
            old(self).wf(),
        ensures
            final(self).wf(),
            lyrics_saved(*old(self), *final(self), id, lyrics),
    {
        if self.library.set_track_lyrics(id, lyrics) {
            self.effects.push(Effect::SaveLibrary);
            self.effects.push(Effect::WriteTags(id));
        }
        if self.show_lyrics {
            self.lyrics_lines = self.lyrics_cache();
        }
    }

    /// Renames a playlist.
    pub fn rename_playlist_view(&mut self, id: u64, name: String)
        requires
            old(self).wf(),
        ensures
            final(self).wf(),
            playlist_renamed(*old(self), *final(self), id, name),
    {
        proof {
            crate::library::lemma_first_pos(playlist_ids(self.library.playlists@), id);
        }
        if self.library.rename_playlist(id, name) {
            self.effects.push(Effect::SaveLibrary);
        }
    }

    /// Adds a track to a playlist.
    pub fn add_to_playlist(&mut self, track_id: u64, playlist_id: u64)
        requires
            old(self).wf(),
        ensures
            final(self).wf(),
            added_to_playlist(*old(self), *final(self), track_id, playlist_id),
    {
        proof {
            crate::library::lemma_first_pos(playlist_ids(self.library.playlists@), playlist_id);
        }
        if self.library.playlist_add_track(playlist_id, track_id) {
            self.effects.push(Effect::SaveLibrary);
        }
        self.rebuild_filter_cache();
    }

    /// Creates a playlist, holding `add_track` when one is given.
    pub fn create_playlist_view(&mut self, name: String, add_track: Option<u64>)
        requires
            old(self).wf(),
            old(self).library.playlist_room(),
        ensures
            final(self).wf(),
            playlist_created(*old(self), *final(self), name, add_track),
    {
        let id = self.library.create_playlist(name);
        self.effects.push(Effect::SaveLibrary);
        match add_track {
            Some(t) => {
                proof {
                    let ps = self.library.playlists@;
                    crate::library::lemma_first_pos(playlist_ids(ps), id);
                    assert(playlist_ids(ps)[ps.len() - 1] == id);
                    assert(ps.drop_last() == old(self).library.playlists@);
                    assert(!playlist_ids(ps.drop_last()).contains(id));
                    assert forall|i: int| 0 <= i < ps.len() - 1 implies playlist_ids(ps)[i] != id by {
                        assert(playlist_ids(ps.drop_last())[i] == playlist_ids(ps)[i]);
                    }
                    assert(first_pos(playlist_ids(ps), id) == ps.len() - 1);
                }
                if self.library.playlist_add_track(id, t) {
                    self.effects.push(Effect::SaveLibrary);
                }
                proof {
                    assert(self.library.playlists@.last().tracks@ =~= seq![t]);
                    assert(self.library.playlists@.drop_last() =~= old(self).library.playlists@);
                }
            },
            None => {},
        }
        self.rebuild_filter_cache();
    }
}

/// Saving the settings dialog: the settings take the values (volume capped
/// at 100, seek step kept within 1..=120 seconds), the screen takes the
/// themes at once, and the settings file is written.
pub open spec fn settings_saved(
    pre: AppState,
    post: AppState,
    volume_pct: u32,
    seek_secs: u64,
    theme_name: String,
    console_theme_name: String,
    transparent: bool,
    color_mode: ColorMode,
) -> bool {
    &&& post.settings.version == pre.settings.version
    &&& post.settings.resume_playback == pre.settings.resume_playback
    &&& post.settings.default_volume == (if volume_pct <= 100 {
        volume_pct
    } else {
        100
    })
    &&& post.settings.seek_step_secs == (if seek_secs < 1 {
        1
    } else if seek_secs > 120 {
        120
    } else {
        seek_secs
    })
    &&& post.settings.theme_name@ == theme_name@
    &&& post.settings.console_theme_name@ == console_theme_name@
    &&& post.settings.transparent == transparent
    &&& post.settings.color_mode == color_mode
    &&& post.theme_name@ == theme_name@
    &&& post.console_theme_name@ == console_theme_name@
    &&& post.transparent == transparent
    &&& post.color_mode == color_mode
    &&& post.effects@ == pre.effects@.push(Effect::SaveSettings)
    &&& post == (AppState {
        settings: post.settings,
        theme_name: post.theme_name,
        console_theme_name: post.console_theme_name,
        transparent: post.transparent,
        color_mode: post.color_mode,
        effects: post.effects,
        ..pre
    })
}

/// Shuffling the active view into the queue: nothing when the view is
/// empty; else the queue holds exactly the view's tracks, each as often, in
/// an order chance decides, and its first entry plays from the start after
/// whatever played was stopped.
pub open spec fn view_shuffled(pre: AppState, post: AppState, now_ms: u64) -> bool {
    let v = view_tracks(pre.library, pre.active_playlist);
    if v.len() == 0 {
        post == pre
    } else {
        let first = post.queue@[0];
        &&& post.queue@.to_multiset() == v.to_multiset()
        &&& post.queue@.len() == v.len()
        &&& post.queue_cursor == 0
        &&& post.now_playing == Some(0usize)
        &&& post.track_start_ms == Some(now_ms)
        &&& post.seek_offset_ms == 0
        &&& post.track_duration_ms is None
        &&& !post.player.is_paused
        &&& post.player.volume == pre.player.volume
        &&& post.player.playback_speed == pre.player.playback_speed
        &&& post.player.outbox@ == pre.player.outbox@.push(PlayerCommand::Stop).push(
            PlayerCommand::Play { path: first.path, speed: pre.player.playback_speed },
        )
        &&& post.effects@ == pre.effects@.push(Effect::ResolveDuration(first.path))
        &&& if pre.show_lyrics {
            &&& post.lyrics_scroll == 0
            &&& views(post.lyrics_lines@) == lyrics_for(pre.library, first)
        } else {
            &&& post.lyrics_scroll == pre.lyrics_scroll
            &&& post.lyrics_lines == pre.lyrics_lines
        }
        &&& post == (AppState {
            queue: post.queue,
            queue_cursor: post.queue_cursor,
            now_playing: post.now_playing,
            track_start_ms: post.track_start_ms,
            seek_offset_ms: post.seek_offset_ms,
            track_duration_ms: post.track_duration_ms,
            player: post.player,
            effects: post.effects,
            lyrics_scroll: post.lyrics_scroll,
            lyrics_lines: post.lyrics_lines,
            ..pre
        })
    }
}

/// The notice an import ends with: the file's name in quotes and whether
/// it was added or already there, or why the import failed.
pub open spec fn import_message(outcome: ImportOutcome) -> Seq<char> {
    match outcome {
        ImportOutcome::Added(name) => quoted(Seq::empty(), name@, " added to library."@),
        ImportOutcome::Existing(name) => quoted(Seq::empty(), name@, " is already in the library."@),
        ImportOutcome::Failed(why) => "Error importing file: "@ + why@,
    }
}

/// Ending an import: the notice shown, and the tracklist's rows rebuilt
/// unless the import failed.
pub open spec fn import_finished(pre: AppState, post: AppState, outcome: ImportOutcome) -> bool {
    &&& post.modal matches Some(Modal::Notify { message }) && message@ == import_message(outcome)
    &&& if outcome is Failed {
        post == (AppState { modal: post.modal, ..pre })
    } else {
        &&& post.filtered_ids@ == filtered_spec(pre.library, pre.active_playlist, pre.tracklist_filter@)
        &&& post == (AppState { modal: post.modal, filtered_ids: post.filtered_ids, ..pre })
    }
}

/// What confirming `confirm` does; `PreviewTheme` and `SaveSettings` take
/// their themes on screen at once.
pub open spec fn confirm_applied(pre: AppState, post: AppState, confirm: ModalConfirm, now_ms: u64) -> bool {
    match confirm {
        ModalConfirm::Remove(target) => removal_applied(pre, post, target),
        ModalConfirm::RenamePlaylist { id, new_name } => playlist_renamed(pre, post, id, new_name),
        ModalConfirm::NewPlaylist { name, add_track } => playlist_created(pre, post, name, add_track),
        ModalConfirm::AddToPlaylist { track_id, playlist_id } => added_to_playlist(
            pre,
            post,
            track_id,
            playlist_id,
        ),
        ModalConfirm::SaveSettings {
            volume_pct,
            seek_secs,
            theme_name,
            console_theme_name,
            transparent,
            color_mode,
        } => settings_saved(
            pre,
            post,
            volume_pct,
            seek_secs,
            theme_name,
            console_theme_name,
            transparent,
            color_mode,
        ),
        ModalConfirm::PreviewTheme { theme_name, console_theme_name, transparent, color_mode } => {
            &&& post.theme_name@ == theme_name@
            &&& post.console_theme_name@ == console_theme_name@
            &&& post == (AppState {
                theme_name: post.theme_name,
                console_theme_name: post.console_theme_name,
                transparent: transparent,
                color_mode: color_mode,
                ..pre
            })
        },
        ModalConfirm::ShuffleView => view_shuffled(pre, post, now_ms),
        ModalConfirm::OpenSettings => settings_opened(pre, post),
        ModalConfirm::OpenAbout => post == (AppState { modal: Some(Modal::About), ..pre }),
        ModalConfirm::Quit => post == (AppState { should_quit: true, ..pre }),
        ModalConfirm::SaveMetadata { track_id, name, artist, album, year: _, genre: _ } => metadata_saved(
            pre,
            post,
            track_id,
            name,
            artist,
            album,
        ),
        ModalConfirm::SaveLyrics { track_id, lyrics } => lyrics_saved(pre, post, track_id, lyrics),
        ModalConfirm::SaveMetadataAndEditLyrics { track_id, name, artist, album, year: _, genre: _ } => {
            &&& metadata_saved(pre, AppState { modal: pre.modal, ..post }, track_id, name, artist, album)
            &&& post.modal matches Some(Modal::EditLyrics { track_id: id, textarea }) && id == track_id
                && textarea.wf() && textarea.text() == editor_lines(
                crate::app::raw_lyrics(post.library, track_id),
            )
        },
    }
}

/// The notice an import ends with.
pub fn import_notice(outcome: &ImportOutcome) -> (r: String)
    ensures
        r@ == import_message(*outcome),
{
    proof {
        reveal_strlit("");
        reveal_strlit(" added to library.");
        reveal_strlit(" is already in the library.");
        reveal_strlit("Error importing file: ");
    }
    match outcome {
        ImportOutcome::Added(name) => quote_in("", name.as_str(), " added to library."),
        ImportOutcome::Existing(name) => quote_in("", name.as_str(), " is already in the library."),
        ImportOutcome::Failed(why) => crate::app::concat3("Error importing file: ", why.as_str(), ""),
    }
}

impl AppState {
    /// Saves the settings dialog's values and applies the themes live.
    pub fn apply_save_settings(
        &mut self,
        volume_pct: u32,
        seek_secs: u64,
        theme_name: String,
        console_theme_name: String,
        transparent: bool,
        color_mode: ColorMode,
    )
        ensures
            settings_saved(
                *old(self),
                *final(self),
                volume_pct,
                seek_secs,
                theme_name,
                console_theme_name,
                transparent,
                color_mode,
            ),
    {
        self.settings.set_default_volume(volume_pct);
        self.settings.set_seek_step_secs(seek_secs);
        self.settings.set_theme(theme_name.as_str());
        self.settings.set_console_theme(console_theme_name.as_str());
        self.settings.transparent = transparent;
        self.settings.color_mode = color_mode;
        self.theme_name = theme_name;
        self.console_theme_name = console_theme_name;
        self.transparent = transparent;
        self.color_mode = color_mode;
        self.effects.push(Effect::SaveSettings);
    }

    /// Replaces the queue with the active view's tracks in a random order
    /// and plays the first; an empty view changes nothing.
    pub fn apply_shuffle(&mut self, now_ms: u64)
        requires
            old(self).wf(),
        ensures
            final(self).wf(),
            view_shuffled(*old(self), *final(self), now_ms),
    {
        let view = self.view_tracks();
        let mut tracks: Vec<Track> = Vec::new();
        for i in 0..view.len()
            invariant
                view@.len() == view_tracks(self.library, self.active_playlist).len(),
                forall|k: int| 0 <= k < view@.len() ==> *view@[k] == view_tracks(self.library, self.active_playlist)[k],
                tracks@ == view_tracks(self.library, self.active_playlist).take(i as int),
        {
            tracks.push(copy_track(view[i]));
            proof {
                assert(tracks@ =~= view_tracks(self.library, self.active_playlist).take(i + 1));
            }
        }
        proof {
            let v = view_tracks(self.library, self.active_playlist);
            assert(v.take(view@.len() as int) =~= v);
        }
        if tracks.len() == 0 {
            return;
        }
        shuffle_tracks(&mut tracks);
        proof {
            tracks@.to_multiset_ensures();
            view_tracks(old(self).library, old(self).active_playlist).to_multiset_ensures();
        }
        self.halt_playback();
        self.queue = tracks;
        self.queue_cursor = 0;
        self.play_queue_index(0, now_ms);
    }

    /// Shows how an import ended, listing the tracklist anew unless it
    /// failed.
    pub fn finish_import(&mut self, outcome: ImportOutcome)
        requires
            old(self).wf(),
        ensures
            final(self).wf(),
            import_finished(*old(self), *final(self), outcome),
    {
        let message = import_notice(&outcome);
        match &outcome {
            ImportOutcome::Failed(_) => {},
            _ => self.rebuild_filter_cache(),
        }
        self.modal = Some(Modal::Notify { message });
    }

    /// Starts the session on `track`, the file the command line named:
    /// queued, played from the head of the queue, and announced as added or
    /// already there.
    pub fn open_with(&mut self, track: Track, is_new: bool, now_ms: u64)
        requires
            old(self).wf(),
        ensures
            final(self).wf(),
            crate::app::started_in(
                *old(self),
                AppState { modal: old(self).modal, ..*final(self) },
                old(self).queue@.push(track),
                0,
                now_ms,
            ),
            final(self).modal matches Some(Modal::Notify { message }) && message@ == import_message(
                if is_new {
                    ImportOutcome::Added(track.name)
                } else {
                    ImportOutcome::Existing(track.name)
                },
            ),
    {
        let name = track.name.clone();
        let outcome = if is_new {
            ImportOutcome::Added(name)
        } else {
            ImportOutcome::Existing(name)
        };
        self.enqueue(track);
        self.play_queue_index(0, now_ms);
        let message = import_notice(&outcome);
        self.modal = Some(Modal::Notify { message });
    }

    /// Registers an imported file under a fresh id, saves the index and
    /// says so.
    pub fn import_track(&mut self, path: String, tags: &Option<FileTags>) -> (t: Track)
        requires
            old(self).wf(),
            old(self).library.track_room(),
        ensures
            final(self).wf(),
            t.id == old(self).library.next_track_id,
            t.path == path,
            t.name@ == tagged_name(path@, *tags),
            t.artist == crate::library::or_blank(*tags).artist,
            t.album == crate::library::or_blank(*tags).album,
            t.lyrics == crate::library::or_blank(*tags).lyrics,
            t.duration_secs == crate::library::or_blank(*tags).duration_secs,
            final(self).library.tracks@ == old(self).library.tracks@.push(t),
            final(self).library.playlists == old(self).library.playlists,
            final(self).library.next_track_id == old(self).library.next_track_id + 1,
            final(self).library.next_playlist_id == old(self).library.next_playlist_id,
            old(self).library.members_known() ==> final(self).library.members_known(),
            final(self).effects@ == old(self).effects@.push(Effect::SaveLibrary),
            final(self).modal matches Some(Modal::Notify { message }) && message@ == import_message(
                ImportOutcome::Added(t.name),
            ),
            final(self).filtered_ids@ == filtered_spec(
                final(self).library,
                old(self).active_playlist,
                old(self).tracklist_filter@,
            ),
            *final(self) == (AppState {
                library: final(self).library,
                effects: final(self).effects,
                modal: final(self).modal,
                filtered_ids: final(self).filtered_ids,
                ..*old(self)
            }),
    {
        let t = self.library.add_track(path, tags);
        self.effects.push(Effect::SaveLibrary);
        self.finish_import(ImportOutcome::Added(t.name.clone()));
        t
    }

    /// Carries out a confirmed dialog.
    pub fn apply_modal_confirm(&mut self, confirm: ModalConfirm, now_ms: u64)
        requires
            old(self).wf(),
            old(self).library.playlist_room(),
        ensures
            final(self).wf(),
            confirm_applied(*old(self), *final(self), confirm, now_ms),
    {
        match confirm {
            ModalConfirm::Remove(target) => self.apply_remove(target),
            ModalConfirm::RenamePlaylist { id, new_name } => self.rename_playlist_view(id, new_name),
            ModalConfirm::NewPlaylist { name, add_track } => self.create_playlist_view(name, add_track),
            ModalConfirm::AddToPlaylist { track_id, playlist_id } => self.add_to_playlist(
                track_id,
                playlist_id,
            ),
            ModalConfirm::SaveSettings {
                volume_pct,
                seek_secs,
                theme_name,
                console_theme_name,
                transparent,
                color_mode,
            } => self.apply_save_settings(
                volume_pct,
                seek_secs,
                theme_name,
                console_theme_name,
                transparent,
                color_mode,
            ),
            ModalConfirm::PreviewTheme { theme_name, console_theme_name, transparent, color_mode } => {
                self.theme_name = theme_name;
                self.console_theme_name = console_theme_name;
                self.transparent = transparent;
                self.color_mode = color_mode;
            },
            ModalConfirm::ShuffleView => self.apply_shuffle(now_ms),
            ModalConfirm::OpenSettings => self.open_settings(),
            ModalConfirm::OpenAbout => self.open_about(),
            ModalConfirm::Quit => {
                self.should_quit = true;
            },
            ModalConfirm::SaveMetadata { track_id, name, artist, album, year: _, genre: _ } => {
                self.save_metadata(track_id, name, artist, album);
            },
            ModalConfirm::SaveLyrics { track_id, lyrics } => self.save_lyrics(track_id, lyrics),
            ModalConfirm::SaveMetadataAndEditLyrics { track_id, name, artist, album, year: _, genre: _ } => {
                self.save_metadata(track_id, name, artist, album);
                self.action_edit_lyrics(track_id);
            },
        }
    }
}

} // verus!
