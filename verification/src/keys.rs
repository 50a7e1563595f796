//! Key presses: which part of the screen takes a key (the quit shortcut,
//! the file picker, an open dialog, the lyrics overlay, the filter bar, then
//! the global bindings), and what each binding does.
use vstd::prelude::*;

use crate::app::{
    clear_asked, cursor_down_done, cursor_up_done, edit_opened, entered, filtered_spec, focus_cycle_spec,
    loop_cycle_spec, lyrics_toggled, menu_opened, new_playlist_asked, next_done, overlay_key_done,
    picker_opened, play_toggled, playlist_picker_opened, prev_done, queued_selection, removal_asked,
    seeked, shuffle_asked, speed_changed, stepped_speed, lemma_speed_steps, AppState, Effect, Focus, LoopMode,
};
use crate::player::{louder, quieter, volume_set, PlayerCommand};
use crate::confirm::confirm_applied;
use crate::filepicker::{picker_key_rel, FilePicker, FilePickerOutcome};
use crate::modal::{modal_key_rel, Modal, ModalConfirm, ModalOutcome};
use crate::nav::{KeyCode, KeyModifiers, PAGE};
use crate::text::{chars_of, push_char, string_of};

verus! {

impl AppState {
    /// The open dialog and the file picker each sit where their own keys
    /// can leave them.
    pub open spec fn dialogs_wf(&self) -> bool {
        &&& self.modal matches Some(m) ==> m.wf()
        &&& self.file_picker matches Some(p) ==> p.wf()
    }

    /// Every playlist lists only tracks the library holds, and a dialog
    /// that is to add a track to a playlist names one it holds.
    pub open spec fn members_ok(&self) -> bool {
        &&& self.library.members_known()
        &&& (self.modal matches Some(Modal::AddToPlaylist { track_id, .. }) ==> self.library.has_track(
            track_id,
        ))
        &&& (self.modal matches Some(Modal::NewPlaylist { add_track: Some(t), .. })
            ==> self.library.has_track(t))
    }

    /// Room for the key `code`: it takes no counter or text of the open
    /// dialog or the picker, and no id of the library, past its machine
    /// limit.
    pub open spec fn key_room(&self, code: KeyCode) -> bool {
        &&& self.modal matches Some(m) ==> m.room(code)
        &&& self.file_picker matches Some(p) ==> p.cursor + PAGE <= usize::MAX
        &&& self.library.playlist_room()
    }
}

/// Ctrl-C: asks to quit, and quits when asked already; the picker closes.
pub open spec fn quit_shortcut_done(pre: AppState, post: AppState) -> bool {
    if pre.modal matches Some(Modal::ConfirmQuit) {
        post == (AppState { modal: None, should_quit: true, ..pre })
    } else {
        post == (AppState { file_picker: None, modal: Some(Modal::ConfirmQuit), ..pre })
    }
}

/// The open file picker took `code`: a moved cursor stays open, an entered
/// directory is listed next, a chosen file is imported, Esc closes.
pub open spec fn picker_took_key(pre: AppState, post: AppState, code: KeyCode) -> bool {
    match pre.file_picker {
        None => post == pre,
        Some(p) => exists|p2: FilePicker, out: FilePickerOutcome|
            #[trigger] picker_key_rel(p, p2, code, out) && p2.wf() && match out {
                FilePickerOutcome::Continue => post == (AppState { file_picker: Some(p2), ..pre }),
                FilePickerOutcome::Entered => {
                    &&& post.effects@ == pre.effects@.push(Effect::ListPicker)
                    &&& post == (AppState { file_picker: Some(p2), effects: post.effects, ..pre })
                },
                FilePickerOutcome::Dismissed => post == (AppState { file_picker: None, ..pre }),
                FilePickerOutcome::Selected(path) => {
                    &&& post.effects@ == pre.effects@.push(Effect::ImportFile(path))
                    &&& post == (AppState { file_picker: None, effects: post.effects, ..pre })
                },
            },
    }
}

/// The open dialog took `code`: it edits itself, closes, or closes and its
/// decision is carried out (a theme preview keeps it open).
pub open spec fn modal_took_key(pre: AppState, post: AppState, code: KeyCode, now_ms: u64) -> bool {
    match pre.modal {
        None => post == pre,
        Some(m) => exists|m2: Modal, out: ModalOutcome|
            #[trigger] modal_key_rel(m, m2, code, out) && m2.wf() && match out {
                ModalOutcome::Consumed => post == (AppState { modal: Some(m2), ..pre }),
                ModalOutcome::Dismissed => post == (AppState { modal: None, ..pre }),
                ModalOutcome::Confirm(c) => confirm_applied(
                    AppState {
                        modal: if c is PreviewTheme {
                            Some(m2)
                        } else {
                            None
                        },
                        ..pre
                    },
                    post,
                    c,
                    now_ms,
                ),
            },
    }
}

/// The filter bar, while it takes typing: Esc clears and closes it,
/// Backspace drops the last character, a character is appended (each
/// re-listing the tracklist from its top), Enter closes it and is handled
/// on; it answers whether it took the key.
pub open spec fn filter_key_done(pre: AppState, post: AppState, code: KeyCode, r: bool) -> bool {
    if !pre.filter_active {
        !r && post == pre
    } else {
        match code {
            KeyCode::Esc => {
                &&& r
                &&& post.tracklist_filter@.len() == 0
                &&& post.filtered_ids@ == filtered_spec(pre.library, pre.active_playlist, Seq::empty())
                &&& post == (AppState {
                    tracklist_filter: post.tracklist_filter,
                    filter_active: false,
                    tracklist_cursor: 0,
                    filtered_ids: post.filtered_ids,
                    ..pre
                })
            },
            KeyCode::Backspace => {
                &&& r
                &&& post.tracklist_filter@ == if pre.tracklist_filter@.len() > 0 {
                    pre.tracklist_filter@.drop_last()
                } else {
                    pre.tracklist_filter@
                }
                &&& post.filtered_ids@ == filtered_spec(
                    pre.library,
                    pre.active_playlist,
                    post.tracklist_filter@,
                )
                &&& post == (AppState {
                    tracklist_filter: post.tracklist_filter,
                    tracklist_cursor: 0,
                    filtered_ids: post.filtered_ids,
                    ..pre
                })
            },
            KeyCode::Char(c) => {
                &&& r
                &&& post.tracklist_filter@ == pre.tracklist_filter@.push(c)
                &&& post.filtered_ids@ == filtered_spec(
                    pre.library,
                    pre.active_playlist,
                    post.tracklist_filter@,
                )
                &&& post == (AppState {
                    tracklist_filter: post.tracklist_filter,
                    tracklist_cursor: 0,
                    filtered_ids: post.filtered_ids,
                    ..pre
                })
            },
            KeyCode::Enter => !r && post == (AppState { filter_active: false, ..pre }),
            _ => !r && post == pre,
        }
    }
}

impl AppState {
    /// Whether there is room for the key `code` (see [`AppState::key_room`]).
    pub fn has_key_room(&self, code: KeyCode) -> (r: bool)
        ensures
            r == self.key_room(code),
    {
        let modal_ok = match &self.modal {
            Some(m) => m.has_room(code),
            None => true,
        };
        let picker_ok = match &self.file_picker {
            Some(p) => p.cursor <= usize::MAX - PAGE,
            None => true,
        };
        modal_ok && picker_ok && self.library.has_playlist_room()
    }

    /// Ctrl-C asks to quit, or quits when already asked; says whether the
    /// key was Ctrl-C.
    pub fn handle_quit_shortcut(&mut self, code: KeyCode, modifiers: KeyModifiers) -> (r: bool)
        ensures
            r == (code == KeyCode::Char('c') && modifiers.ctrl),
            r ==> quit_shortcut_done(*old(self), *final(self)),
            !r ==> *final(self) == *old(self),
    {
        if code != KeyCode::Char('c') || !modifiers.ctrl {
            return false;
        }
        let asked = match &self.modal {
            Some(Modal::ConfirmQuit) => true,
            _ => false,
        };
        if asked {
            self.modal = None;
            self.should_quit = true;
        } else {
            self.file_picker = None;
            self.modal = Some(Modal::ConfirmQuit);
        }
        true
    }

    /// An open file picker takes every key; says whether one was open.
    pub fn handle_file_picker_key(&mut self, code: KeyCode) -> (r: bool)
        requires
            old(self).file_picker matches Some(p) ==> p.wf() && p.cursor + PAGE <= usize::MAX,
        ensures
            r == old(self).file_picker is Some,
            old(self).dialogs_wf() ==> final(self).dialogs_wf(),
            picker_took_key(*old(self), *final(self), code),
    {
        let mut picker = match self.file_picker.take() {
            Some(p) => p,
            None => {
                return false;
            },
        };
        let ghost p0 = picker;
        let outcome = picker.handle_key(code);
        let ghost out = outcome;
        proof {
            assert(picker_key_rel(p0, picker, code, out));
        }
        match outcome {
            FilePickerOutcome::Continue => {
                self.file_picker = Some(picker);
            },
            FilePickerOutcome::Entered => {
                self.file_picker = Some(picker);
                self.effects.push(Effect::ListPicker);
            },
            FilePickerOutcome::Dismissed => {},
            FilePickerOutcome::Selected(path) => {
                self.effects.push(Effect::ImportFile(path));
            },
        }
        true
    }

    /// An open dialog takes every key; says whether one was open.
    pub fn handle_modal_key(&mut self, code: KeyCode, modifiers: KeyModifiers, now_ms: u64) -> (r: bool)
        requires
            old(self).wf(),
            old(self).library.playlist_room(),
            old(self).modal matches Some(m) ==> m.wf() && m.room(code),
        ensures
            final(self).wf(),
            r == old(self).modal is Some,
            old(self).dialogs_wf() ==> final(self).dialogs_wf(),
            old(self).members_ok() ==> final(self).members_ok(),
            modal_took_key(*old(self), *final(self), code, now_ms),
    {
        let mut modal = match self.modal.take() {
            Some(m) => m,
            None => {
                return false;
            },
        };
        let ghost m0 = modal;
        let outcome = modal.handle_key(code, modifiers);
        let ghost out = outcome;
        proof {
            assert(modal_key_rel(m0, modal, code, out));
        }
        match outcome {
            ModalOutcome::Consumed => {
                self.modal = Some(modal);
            },
            ModalOutcome::Dismissed => {},
            ModalOutcome::Confirm(c) => {
                let keep = match &c {
                    ModalConfirm::PreviewTheme { .. } => true,
                    _ => false,
                };
                if keep {
                    self.modal = Some(modal);
                }
                self.apply_modal_confirm(c, now_ms);
            },
        }
        true
    }

    /// The filter bar takes typing while it is active.
    pub fn handle_filter_key(&mut self, code: KeyCode) -> (r: bool)
        requires
            old(self).library.wf(),
        ensures
            filter_key_done(*old(self), *final(self), code, r),
    {
        if !self.filter_active {
            return false;
        }
        match code {
            KeyCode::Esc => {
                self.tracklist_filter = String::new();
                self.filter_active = false;
                self.tracklist_cursor = 0;
                self.rebuild_filter_cache();
                true
            },
            KeyCode::Backspace => {
                let mut cs = chars_of(self.tracklist_filter.as_str());
                if cs.len() > 0 {
                    cs.pop();
                    self.tracklist_filter = string_of(&cs);
                }
                self.tracklist_cursor = 0;
                self.rebuild_filter_cache();
                true
            },
            KeyCode::Char(c) => {
                push_char(&mut self.tracklist_filter, c);
                self.tracklist_cursor = 0;
                self.rebuild_filter_cache();
                true
            },
            KeyCode::Enter => {
                self.filter_active = false;
                false
            },
            _ => false,
        }
    }
}

/// Tab: focus moves to the next panel, and the filter is cleared and
/// closed with the tracklist back at its top.
pub open spec fn focus_cycled(pre: AppState, post: AppState) -> bool {
    &&& post.tracklist_filter@.len() == 0
    &&& post.filtered_ids@ == filtered_spec(pre.library, pre.active_playlist, Seq::empty())
    &&& post == (AppState {
        focus: focus_cycle_spec(pre.focus),
        filter_active: false,
        tracklist_filter: post.tracklist_filter,
        tracklist_cursor: 0,
        filtered_ids: post.filtered_ids,
        ..pre
    })
}

/// What a global binding does; a key with no binding changes nothing.
pub open spec fn global_key_done(pre: AppState, post: AppState, code: KeyCode, now_ms: u64) -> bool {
    match code {
        KeyCode::Char('q') => post == (AppState { modal: Some(Modal::ConfirmQuit), ..pre }),
        KeyCode::Char('?') => post == (AppState { modal: Some(Modal::Help), ..pre }),
        KeyCode::Char(' ') => play_toggled(pre, post, now_ms),
        KeyCode::Char('n') => next_done(pre, post, now_ms),
        KeyCode::Char('N') => prev_done(pre, post, now_ms),
        KeyCode::Left => seeked(pre, post, false, pre.settings.seek_step_secs, now_ms),
        KeyCode::Right => seeked(pre, post, true, pre.settings.seek_step_secs, now_ms),
        KeyCode::Char('+') | KeyCode::Char('=') => {
            &&& volume_set(pre.player, post.player, louder(pre.player.volume))
            &&& post == (AppState { player: post.player, ..pre })
        },
        KeyCode::Char('-') => {
            &&& volume_set(pre.player, post.player, quieter(pre.player.volume))
            &&& post == (AppState { player: post.player, ..pre })
        },
        KeyCode::Tab => focus_cycled(pre, post),
        KeyCode::Char('j') | KeyCode::Down => cursor_down_done(pre, post),
        KeyCode::Char('k') | KeyCode::Up => cursor_up_done(pre, post),
        KeyCode::Enter => entered(pre, post, now_ms),
        KeyCode::Char('a') => queued_selection(pre, post),
        KeyCode::Char('p') => playlist_picker_opened(pre, post),
        KeyCode::Char('d') => removal_asked(pre, post),
        KeyCode::Char('D') => clear_asked(pre, post),
        KeyCode::Char('e') | KeyCode::Char('r') => edit_opened(pre, post),
        KeyCode::Char('c') => new_playlist_asked(pre, post),
        KeyCode::Char('f') => picker_opened(pre, post),
        KeyCode::Char('m') => menu_opened(pre, post),
        KeyCode::Char('l') => post == (AppState { loop_mode: loop_cycle_spec(pre.loop_mode), ..pre }),
        KeyCode::Char('z') => shuffle_asked(pre, post),
        KeyCode::Char('[') => speed_changed(
            pre,
            post,
            stepped_speed(pre.player.playback_speed, false),
            now_ms,
        ),
        KeyCode::Char(']') => speed_changed(
            pre,
            post,
            stepped_speed(pre.player.playback_speed, true),
            now_ms,
        ),
        KeyCode::Char('y') => lyrics_toggled(pre, post),
        KeyCode::Char('/') => if pre.focus == Focus::TrackList {
            post == (AppState { filter_active: true, ..pre })
        } else {
            post == pre
        },
        _ => post == pre,
    }
}

/// Whether the shown lyrics overlay takes `code`.
pub open spec fn overlay_takes(pre: AppState, code: KeyCode) -> bool {
    &&& pre.show_lyrics
    &&& pre.modal is None
    &&& pre.file_picker is None
    &&& (code == KeyCode::Char('j') || code == KeyCode::Down || code == KeyCode::Char('k') || code
        == KeyCode::Up || code == KeyCode::Esc || code == KeyCode::Char('y'))
}

/// Whether the active filter bar takes `code` for itself.
pub open spec fn filter_takes(pre: AppState, code: KeyCode) -> bool {
    pre.filter_active && (code == KeyCode::Esc || code == KeyCode::Backspace || code is Char)
}

/// What a key press does: Ctrl-C first, then the file picker, an open
/// dialog, the lyrics overlay and the filter bar each take it when open,
/// and the global bindings get the rest (Enter closes the filter bar on its
/// way through).
pub open spec fn key_done(pre: AppState, post: AppState, code: KeyCode, modifiers: KeyModifiers, now_ms: u64) -> bool {
    if code == KeyCode::Char('c') && modifiers.ctrl {
        quit_shortcut_done(pre, post)
    } else if pre.file_picker is Some {
        picker_took_key(pre, post, code)
    } else if pre.modal is Some {
        modal_took_key(pre, post, code, now_ms)
    } else if overlay_takes(pre, code) {
        overlay_key_done(pre, post, code, true)
    } else if filter_takes(pre, code) {
        filter_key_done(pre, post, code, true)
    } else if pre.filter_active && code == KeyCode::Enter {
        global_key_done(AppState { filter_active: false, ..pre }, post, code, now_ms)
    } else {
        global_key_done(pre, post, code, now_ms)
    }
}

/// The key bindings, with no dialog, picker, lyrics overlay or filter bar
/// open: Space plays or pauses, `n` / `N` go to the next / previous entry,
/// Left / Right seek back / forward by the configured step, `+` / `=` and
/// `-` change the volume by one percent within 0..=100, `[` / `]` change
/// the speed by one hundredth within 0.05x..=3x, `l` goes Off, Queue,
/// Track, Tab goes sidebar, tracklist, queue, Enter plays the selection,
/// `a` queues it, and `j` / `k` move the cursor.
pub proof fn lemma_key_bindings(pre: AppState, post: AppState, code: KeyCode, now_ms: u64)
    requires
        key_done(pre, post, code, KeyModifiers { ctrl: false }, now_ms),
        pre.file_picker is None,
        pre.modal is None,
        !pre.show_lyrics,
        !pre.filter_active,
    ensures
        code == KeyCode::Char(' ') ==> play_toggled(pre, post, now_ms),
        code == KeyCode::Char('n') ==> next_done(pre, post, now_ms),
        code == KeyCode::Char('N') ==> prev_done(pre, post, now_ms),
        code == KeyCode::Left ==> seeked(pre, post, false, pre.settings.seek_step_secs, now_ms),
        code == KeyCode::Right ==> seeked(pre, post, true, pre.settings.seek_step_secs, now_ms),
        (code == KeyCode::Char('+') || code == KeyCode::Char('=')) && pre.player.volume <= 100
            ==> post.player.volume == (if pre.player.volume < 100 {
            pre.player.volume + 1
        } else {
            100
        }) && post.player.outbox@ == pre.player.outbox@.push(PlayerCommand::SetVolume(post.player.volume)),
        code == KeyCode::Char('-') && pre.player.volume <= 100 ==> post.player.volume == (
        if pre.player.volume >= 1 {
            pre.player.volume - 1
        } else {
            0
        }) && post.player.outbox@ == pre.player.outbox@.push(PlayerCommand::SetVolume(post.player.volume)),
        code == KeyCode::Char('[') && 5 <= pre.player.playback_speed <= 300 ==> speed_changed(
            pre,
            post,
            (if pre.player.playback_speed > 5 {
                pre.player.playback_speed - 1
            } else {
                5
            }) as u32,
            now_ms,
        ),
        code == KeyCode::Char(']') && 5 <= pre.player.playback_speed <= 300 ==> speed_changed(
            pre,
            post,
            (if pre.player.playback_speed < 300 {
                pre.player.playback_speed + 1
            } else {
                300
            }) as u32,
            now_ms,
        ),
        code == KeyCode::Char('l') ==> post.loop_mode == (match pre.loop_mode {
            LoopMode::Off => LoopMode::Queue,
            LoopMode::Queue => LoopMode::Track,
            LoopMode::Track => LoopMode::Off,
        }) && post.queue == pre.queue && post.now_playing == pre.now_playing,
        code == KeyCode::Tab ==> post.focus == (match pre.focus {
            Focus::Sidebar => Focus::TrackList,
            Focus::TrackList => Focus::Queue,
            Focus::Queue => Focus::Sidebar,
        }),
        code == KeyCode::Enter ==> entered(pre, post, now_ms),
        code == KeyCode::Char('a') ==> queued_selection(pre, post),
        code == KeyCode::Char('j') || code == KeyCode::Down ==> cursor_down_done(pre, post),
        code == KeyCode::Char('k') || code == KeyCode::Up ==> cursor_up_done(pre, post),
{
    if code == KeyCode::Char('+') || code == KeyCode::Char('=') || code == KeyCode::Char('-') {
        if pre.player.volume <= 100 {
            crate::player::lemma_volume_steps(pre.player.volume);
        }
    }
    if code == KeyCode::Char('[') || code == KeyCode::Char(']') {
        if 5 <= pre.player.playback_speed <= 300 {
            lemma_speed_steps(pre.player.playback_speed);
        }
    }
}

impl AppState {
    /// Tab: the next panel takes focus, and the filter is cleared.
    pub fn cycle_focus(&mut self)
        requires
            old(self).library.wf(),
        ensures
            focus_cycled(*old(self), *final(self)),
    {
        self.focus = self.focus.cycle();
        self.filter_active = false;
        self.tracklist_filter = String::new();
        self.tracklist_cursor = 0;
        self.rebuild_filter_cache();
    }

    /// The global key bindings.
    pub fn handle_global_key(&mut self, code: KeyCode, now_ms: u64)
        requires
            old(self).wf(),
        ensures
            final(self).wf(),
            old(self).dialogs_wf() ==> final(self).dialogs_wf(),
            old(self).members_ok() ==> final(self).members_ok(),
            global_key_done(*old(self), *final(self), code, now_ms),
    {
        match code {
            KeyCode::Char('q') => {
                self.modal = Some(Modal::ConfirmQuit);
            },
            KeyCode::Char('?') => {
                self.modal = Some(Modal::Help);
            },
            KeyCode::Char(' ') => self.action_toggle_play(now_ms),
            KeyCode::Char('n') => self.play_next(now_ms),
            KeyCode::Char('N') => self.play_prev(now_ms),
            KeyCode::Left => {
                let step = self.settings.seek_step_secs;
                self.action_seek(false, step, now_ms);
            },
            KeyCode::Right => {
                let step = self.settings.seek_step_secs;
                self.action_seek(true, step, now_ms);
            },
            KeyCode::Char('+') | KeyCode::Char('=') => self.player.volume_up(),
            KeyCode::Char('-') => self.player.volume_down(),
            KeyCode::Tab => self.cycle_focus(),
            KeyCode::Char('j') | KeyCode::Down => self.cursor_down(),
            KeyCode::Char('k') | KeyCode::Up => self.cursor_up(),
            KeyCode::Enter => self.action_enter(now_ms),
            KeyCode::Char('a') => self.action_add_to_queue(),
            KeyCode::Char('p') => {
                proof {
                    crate::library::lemma_resolve_ids_known(self.library.tracks@, self.filtered_ids@);
                }
                self.action_add_to_playlist();
            },
            KeyCode::Char('d') => self.action_remove(),
            KeyCode::Char('D') => self.action_clear_queue(),
            KeyCode::Char('e') | KeyCode::Char('r') => self.action_edit(),
            KeyCode::Char('c') => self.action_new_playlist(),
            KeyCode::Char('f') => self.action_open_filepicker(),
            KeyCode::Char('m') => self.action_open_menu(),
            KeyCode::Char('l') => {
                self.loop_mode = self.loop_mode.cycle();
            },
            KeyCode::Char('z') => self.action_shuffle_view(),
            KeyCode::Char('[') => self.action_speed(false, now_ms),
            KeyCode::Char(']') => self.action_speed(true, now_ms),
            KeyCode::Char('y') => self.action_toggle_lyrics(),
            KeyCode::Char('/') => {
                if self.focus == Focus::TrackList {
                    self.filter_active = true;
                }
            },
            _ => {},
        }
    }

    /// Answers a key press.
    pub fn handle_key(&mut self, code: KeyCode, modifiers: KeyModifiers, now_ms: u64)
        requires
            old(self).wf(),
            old(self).dialogs_wf(),
            old(self).key_room(code),
        ensures
            final(self).wf(),
            final(self).dialogs_wf(),
            old(self).members_ok() ==> final(self).members_ok(),
            key_done(*old(self), *final(self), code, modifiers, now_ms),
    {
        if self.handle_quit_shortcut(code, modifiers) {
            return;
        }
        if self.handle_file_picker_key(code) {
            return;
        }
        if self.handle_modal_key(code, modifiers, now_ms) {
            return;
        }
        if self.handle_lyrics_overlay_key(code) {
            return;
        }
        if self.handle_filter_key(code) {
            return;
        }
        self.handle_global_key(code, now_ms);
    }
}

} // verus!
