use audium::app::{AppState, Effect, Focus, ImportOutcome, LoopMode};
use audium::library::{FileTags, Library};
use audium::modal::Modal;
use audium::nav::{KeyCode, KeyModifiers};
use audium::player::{PlayerCommand, PlayerEvent, PlayerHandle};
use audium::settings::Settings;

const NONE: KeyModifiers = KeyModifiers { ctrl: false };
const CTRL: KeyModifiers = KeyModifiers { ctrl: true };

fn tagged(title: &str, artist: &str) -> Option<FileTags> {
    Some(FileTags {
        title: Some(title.to_string()),
        artist: Some(artist.to_string()),
        album: None,
        lyrics: None,
        duration_secs: Some(200),
    })
}

fn state() -> AppState {
    let mut lib = Library::new();
    lib.add_track("/music/a.mp3".to_string(), &tagged("Alpha", "Ann"));
    lib.add_track("/music/b.mp3".to_string(), &tagged("Beta", "Bob"));
    lib.add_track("/music/c.mp3".to_string(), &tagged("Gamma", "Cy"));
    AppState::new(lib, PlayerHandle::new(70), Settings::default(), true, "/home/u".to_string())
}

fn press(s: &mut AppState, code: KeyCode, now_ms: u64) {
    s.handle_key(code, NONE, now_ms);
}

fn queue_names(s: &AppState) -> Vec<String> {
    s.queue.iter().map(|t| t.name.clone()).collect()
}

fn last_command(s: &AppState) -> Option<&PlayerCommand> {
    s.player.outbox.last()
}

#[test]
fn a_fresh_session_lists_the_whole_library() {
    let s = state();
    assert_eq!(s.focus, Focus::Sidebar);
    assert_eq!(s.filtered_ids, vec![0, 1, 2]);
    assert!(s.queue.is_empty() && s.now_playing.is_none());
    assert_eq!(s.loop_mode, LoopMode::Off);
    assert_eq!(s.elapsed(1234), 0);
}

#[test]
fn enter_on_the_tracklist_plays_right_after_the_current_entry() {
    let mut s = state();
    press(&mut s, KeyCode::Tab, 0);
    assert_eq!(s.focus, Focus::TrackList);
    press(&mut s, KeyCode::Enter, 10);
    assert_eq!(queue_names(&s), vec!["Alpha"]);
    assert_eq!(s.now_playing, Some(0));
    assert!(matches!(last_command(&s), Some(PlayerCommand::Play { speed: 100, .. })));
    assert!(matches!(s.effects.last(), Some(Effect::ResolveDuration(p)) if p == "/music/a.mp3"));
    press(&mut s, KeyCode::Down, 20);
    press(&mut s, KeyCode::Down, 20);
    press(&mut s, KeyCode::Enter, 30);
    assert_eq!(queue_names(&s), vec!["Alpha", "Gamma"]);
    assert_eq!(s.now_playing, Some(1));
    press(&mut s, KeyCode::Up, 40);
    press(&mut s, KeyCode::Char('a'), 40);
    assert_eq!(queue_names(&s), vec!["Alpha", "Gamma", "Beta"]);
}

#[test]
fn the_clock_follows_play_pause_and_speed() {
    let mut s = state();
    press(&mut s, KeyCode::Tab, 0);
    press(&mut s, KeyCode::Enter, 1_000);
    assert_eq!(s.elapsed(3_500), 2_500);
    press(&mut s, KeyCode::Char(' '), 4_000);
    assert!(s.player.is_paused);
    assert_eq!(s.seek_offset_ms, 3_000);
    assert_eq!(s.elapsed(9_000), 3_000);
    press(&mut s, KeyCode::Char(' '), 10_000);
    assert!(!s.player.is_paused);
    assert_eq!(s.elapsed(11_000), 4_000);
    press(&mut s, KeyCode::Char(']'), 11_000);
    assert_eq!(s.player.playback_speed, 101);
    assert!(matches!(last_command(&s), Some(PlayerCommand::Seek { position_ms: 4_000, speed: 101, .. })));
    press(&mut s, KeyCode::Char('['), 11_000);
    press(&mut s, KeyCode::Char('['), 11_000);
    assert_eq!(s.player.playback_speed, 99);
}

#[test]
fn seeking_moves_by_the_step_and_stays_inside_the_track() {
    let mut s = state();
    s.settings.set_seek_step_secs(5);
    press(&mut s, KeyCode::Tab, 0);
    press(&mut s, KeyCode::Enter, 0);
    s.set_track_duration(Some(8_000));
    press(&mut s, KeyCode::Right, 2_400);
    assert!(matches!(last_command(&s), Some(PlayerCommand::Seek { position_ms: 7_000, .. })));
    press(&mut s, KeyCode::Right, 2_400);
    assert_eq!(s.seek_offset_ms, 7_000);
    press(&mut s, KeyCode::Left, 2_400);
    press(&mut s, KeyCode::Left, 2_400);
    assert_eq!(s.seek_offset_ms, 0);
}

#[test]
fn loop_modes_decide_what_comes_next() {
    let mut s = state();
    for t in s.library.tracks.clone() {
        s.enqueue(t);
    }
    s.play_queue_index(2, 0);
    press(&mut s, KeyCode::Char('n'), 1);
    assert_eq!(s.now_playing, None);
    assert!(matches!(last_command(&s), Some(PlayerCommand::Stop)));
    press(&mut s, KeyCode::Char('l'), 2);
    assert_eq!(s.loop_mode, LoopMode::Queue);
    s.play_queue_index(2, 3);
    press(&mut s, KeyCode::Char('n'), 4);
    assert_eq!(s.now_playing, Some(0));
    press(&mut s, KeyCode::Char('N'), 5);
    assert_eq!(s.now_playing, Some(2));
    press(&mut s, KeyCode::Char('l'), 6);
    assert_eq!(s.loop_mode, LoopMode::Track);
    s.handle_player_event(PlayerEvent::TrackFinished, 7);
    assert_eq!(s.now_playing, Some(2));
    press(&mut s, KeyCode::Char('l'), 8);
    assert_eq!(s.loop_mode, LoopMode::Off);
    s.handle_player_event(PlayerEvent::Error("no device".to_string()), 9);
    assert!(matches!(&s.modal, Some(Modal::Notify { message }) if message == "no device"));
}

#[test]
fn the_filter_matches_names_artists_and_albums_in_any_case() {
    let mut s = state();
    press(&mut s, KeyCode::Tab, 0);
    press(&mut s, KeyCode::Char('/'), 0);
    assert!(s.filter_active);
    for c in "BO".chars() {
        press(&mut s, KeyCode::Char(c), 0);
    }
    assert_eq!(s.tracklist_filter, "BO");
    assert_eq!(s.filtered_ids, vec![1]);
    press(&mut s, KeyCode::Backspace, 0);
    assert_eq!(s.filtered_ids, vec![1]);
    press(&mut s, KeyCode::Char('a'), 0);
    assert!(s.filtered_ids.is_empty());
    press(&mut s, KeyCode::Esc, 0);
    assert!(!s.filter_active && s.tracklist_filter.is_empty());
    assert_eq!(s.filtered_ids, vec![0, 1, 2]);
}

#[test]
fn enter_closes_the_filter_and_plays_the_row() {
    let mut s = state();
    press(&mut s, KeyCode::Tab, 0);
    press(&mut s, KeyCode::Char('/'), 0);
    press(&mut s, KeyCode::Char('g'), 0);
    press(&mut s, KeyCode::Enter, 5);
    assert!(!s.filter_active);
    assert_eq!(queue_names(&s), vec!["Gamma"]);
}

#[test]
fn removing_a_library_track_clears_it_from_the_queue() {
    let mut s = state();
    for t in s.library.tracks.clone() {
        s.enqueue(t);
    }
    let beta = s.library.tracks[1].clone();
    s.enqueue(beta);
    s.play_queue_index(2, 0);
    press(&mut s, KeyCode::Tab, 0);
    press(&mut s, KeyCode::Down, 0);
    press(&mut s, KeyCode::Char('d'), 0);
    assert!(matches!(&s.modal, Some(Modal::ConfirmRemove { description, .. }) if description == "Remove \"Beta\" from library?"));
    press(&mut s, KeyCode::Char('y'), 0);
    assert!(s.modal.is_none());
    assert!(s.library.track(1).is_none());
    assert_eq!(queue_names(&s), vec!["Alpha", "Gamma"]);
    assert_eq!(s.now_playing, Some(1));
    assert!(matches!(&s.effects[s.effects.len() - 2], Effect::DeleteFile(p) if p == "/music/b.mp3"));
    assert!(matches!(s.effects.last(), Some(Effect::SaveLibrary)));
    assert_eq!(s.filtered_ids, vec![0, 2]);
}

#[test]
fn removing_the_playing_entry_stops_playback() {
    let mut s = state();
    for t in s.library.tracks.clone() {
        s.enqueue(t);
    }
    s.play_queue_index(1, 0);
    s.focus = Focus::Queue;
    s.queue_cursor = 1;
    press(&mut s, KeyCode::Char('d'), 0);
    press(&mut s, KeyCode::Enter, 0);
    assert_eq!(queue_names(&s), vec!["Alpha", "Gamma"]);
    assert_eq!(s.now_playing, None);
    assert!(matches!(last_command(&s), Some(PlayerCommand::Stop)));
    press(&mut s, KeyCode::Char('D'), 0);
    press(&mut s, KeyCode::Char('y'), 0);
    assert!(s.queue.is_empty());
}

#[test]
fn shuffling_the_view_queues_every_track_once() {
    let mut s = state();
    press(&mut s, KeyCode::Char('z'), 0);
    assert!(matches!(&s.modal, Some(Modal::ShuffleView { view_name }) if view_name == "All tracks"));
    press(&mut s, KeyCode::Char('y'), 50);
    let mut names = queue_names(&s);
    names.sort();
    assert_eq!(names, vec!["Alpha", "Beta", "Gamma"]);
    assert_eq!(s.now_playing, Some(0));
    let n = s.player.outbox.len();
    assert!(matches!(s.player.outbox[n - 2], PlayerCommand::Stop));
    assert!(matches!(&s.player.outbox[n - 1], PlayerCommand::Play { path, .. } if *path == s.queue[0].path));
}

#[test]
fn playlists_are_created_filled_renamed_and_deleted() {
    let mut s = state();
    press(&mut s, KeyCode::Char('c'), 0);
    for c in "Mix".chars() {
        press(&mut s, KeyCode::Char(c), 0);
    }
    press(&mut s, KeyCode::Enter, 0);
    assert_eq!(s.library.playlists.len(), 1);
    assert_eq!(s.library.playlists[0].name, "Mix");
    assert!(matches!(s.effects.last(), Some(Effect::SaveLibrary)));
    press(&mut s, KeyCode::Tab, 0);
    press(&mut s, KeyCode::Char('p'), 0);
    assert!(matches!(&s.modal, Some(Modal::AddToPlaylist { track_name, .. }) if track_name == "Alpha"));
    press(&mut s, KeyCode::Enter, 0);
    assert_eq!(s.library.playlists[0].tracks, vec![0]);
    // Back to the sidebar: row 1 is the playlist.
    press(&mut s, KeyCode::Tab, 0);
    press(&mut s, KeyCode::Tab, 0);
    press(&mut s, KeyCode::Down, 0);
    assert_eq!(s.active_playlist, Some(0));
    assert_eq!(s.filtered_ids, vec![0]);
    press(&mut s, KeyCode::Char('r'), 0);
    press(&mut s, KeyCode::Char('!'), 0);
    press(&mut s, KeyCode::Enter, 0);
    assert_eq!(s.library.playlists[0].name, "Mix!");
    press(&mut s, KeyCode::Char('d'), 0);
    press(&mut s, KeyCode::Char('y'), 0);
    assert!(s.library.playlists.is_empty());
    assert_eq!(s.sidebar_cursor, 0);
    assert_eq!(s.active_playlist, None);
    assert_eq!(s.filtered_ids, vec![0, 1, 2]);
}

#[test]
fn metadata_edits_reach_the_library_and_the_queue() {
    let mut s = state();
    let alpha = s.library.tracks[0].clone();
    s.enqueue(alpha);
    press(&mut s, KeyCode::Tab, 0);
    press(&mut s, KeyCode::Char('e'), 0);
    assert!(matches!(&s.modal, Some(Modal::EditMetadata { track_id: 0, .. })));
    press(&mut s, KeyCode::Char('!'), 0);
    press(&mut s, KeyCode::Esc, 0);
    assert!(s.modal.is_none());
    assert_eq!(s.library.tracks[0].name, "Alpha!");
    assert_eq!(s.library.tracks[0].artist.as_deref(), Some("Ann"));
    assert_eq!(queue_names(&s), vec!["Alpha!"]);
    let n = s.effects.len();
    assert!(matches!(s.effects[n - 2], Effect::SaveLibrary));
    assert!(matches!(s.effects[n - 1], Effect::WriteTags(0)));
}

#[test]
fn lyrics_show_only_when_there_are_some() {
    let mut s = state();
    press(&mut s, KeyCode::Char('y'), 0);
    assert!(matches!(&s.modal, Some(Modal::Notify { message }) if message == "Nothing is playing."));
    press(&mut s, KeyCode::Esc, 0);
    press(&mut s, KeyCode::Tab, 0);
    press(&mut s, KeyCode::Enter, 0);
    press(&mut s, KeyCode::Char('y'), 0);
    assert!(matches!(&s.modal, Some(Modal::Notify { message })
        if message == "No lyrics for this track. Press e to edit metadata and add them."));
    press(&mut s, KeyCode::Esc, 0);
    s.save_lyrics(0, Some("[00:01.00]one\n[00:02.00]two".to_string()));
    press(&mut s, KeyCode::Char('y'), 0);
    assert!(s.show_lyrics);
    let texts: Vec<String> = s.lyrics_lines.iter().map(|l| l.text.clone()).collect();
    assert_eq!(texts, vec!["one", "two"]);
    press(&mut s, KeyCode::Down, 0);
    assert_eq!(s.lyrics_scroll, 1);
    press(&mut s, KeyCode::Esc, 0);
    assert!(!s.show_lyrics);
}

#[test]
fn ctrl_c_asks_then_quits() {
    let mut s = state();
    press(&mut s, KeyCode::Char('f'), 0);
    assert!(s.file_picker.is_some());
    assert!(matches!(s.effects.last(), Some(Effect::ListPicker)));
    s.handle_key(KeyCode::Char('c'), CTRL, 0);
    assert!(s.file_picker.is_none());
    assert!(matches!(s.modal, Some(Modal::ConfirmQuit)));
    assert!(!s.should_quit);
    s.handle_key(KeyCode::Char('c'), CTRL, 0);
    assert!(s.should_quit);
}

#[test]
fn volume_keys_step_by_one_percent() {
    let mut s = state();
    press(&mut s, KeyCode::Char('+'), 0);
    press(&mut s, KeyCode::Char('='), 0);
    assert_eq!(s.player.volume, 72);
    press(&mut s, KeyCode::Char('-'), 0);
    assert_eq!(s.player.volume, 71);
    assert!(matches!(last_command(&s), Some(PlayerCommand::SetVolume(71))));
}

#[test]
fn imports_end_with_a_notice() {
    let mut s = state();
    s.finish_import(ImportOutcome::Existing("Alpha".to_string()));
    assert!(matches!(&s.modal, Some(Modal::Notify { message }) if message == "\"Alpha\" is already in the library."));
    s.finish_import(ImportOutcome::Failed("bad file".to_string()));
    assert!(matches!(&s.modal, Some(Modal::Notify { message }) if message == "Error importing file: bad file"));
    let t = s.import_track("/music/d.mp3".to_string(), &tagged("Delta", "Di"));
    assert_eq!(t.id, 3);
    assert!(matches!(&s.modal, Some(Modal::Notify { message }) if message == "\"Delta\" added to library."));
    assert_eq!(s.filtered_ids, vec![0, 1, 2, 3]);
    assert!(matches!(s.effects.last(), Some(Effect::SaveLibrary)));
}

#[test]
fn the_command_line_file_plays_at_once() {
    let mut s = state();
    let t = s.library.tracks[2].clone();
    s.open_with(t, false, 0);
    assert_eq!(queue_names(&s), vec!["Gamma"]);
    assert_eq!(s.now_playing, Some(0));
    assert!(matches!(&s.modal, Some(Modal::Notify { message }) if message == "\"Gamma\" is already in the library."));
}

#[test]
fn picking_a_file_asks_for_its_import() {
    let mut s = state();
    press(&mut s, KeyCode::Char('f'), 0);
    s.file_picker.as_mut().unwrap().refresh(Some(vec![audium::filepicker::DirEntry {
        name: "x.mp3".to_string(),
        path: "/home/u/x.mp3".to_string(),
        is_dir: false,
    }]));
    press(&mut s, KeyCode::Down, 0);
    press(&mut s, KeyCode::Enter, 0);
    assert!(s.file_picker.is_none());
    assert!(matches!(s.effects.last(), Some(Effect::ImportFile(p)) if p == "/home/u/x.mp3"));
}

#[test]
fn settings_save_applies_the_theme_live() {
    let mut s = state();
    press(&mut s, KeyCode::Char('m'), 0);
    press(&mut s, KeyCode::Enter, 0);
    assert!(matches!(&s.modal, Some(Modal::Settings(st)) if st.volume_pct == 70 && st.seek_secs == 1));
    press(&mut s, KeyCode::Right, 0);
    press(&mut s, KeyCode::Esc, 0);
    assert_eq!(s.settings.default_volume, 71);
    assert!(matches!(s.effects.last(), Some(Effect::SaveSettings)));
    press(&mut s, KeyCode::Char('?'), 0);
    assert!(matches!(s.modal, Some(Modal::Help)));
}

#[test]
fn tab_visits_every_panel_and_comes_back() {
    let mut s = state();
    press(&mut s, KeyCode::Tab, 0);
    assert_eq!(s.focus, Focus::TrackList);
    press(&mut s, KeyCode::Tab, 0);
    assert_eq!(s.focus, Focus::Queue);
    press(&mut s, KeyCode::Tab, 0);
    assert_eq!(s.focus, Focus::Sidebar);
}

#[test]
fn the_loop_key_cycles_three_modes() {
    let mut s = state();
    let start = s.loop_mode;
    for _ in 0..3 {
        press(&mut s, KeyCode::Char('l'), 0);
        if s.loop_mode == start {
            break;
        }
    }
    assert_eq!(s.loop_mode, start);
    assert_eq!(LoopMode::Off.cycle(), LoopMode::Queue);
    assert_eq!(LoopMode::Track.cycle(), LoopMode::Off);
}

#[test]
fn next_on_an_empty_looping_queue_does_nothing() {
    let mut s = state();
    press(&mut s, KeyCode::Char('l'), 0);
    assert_eq!(s.loop_mode, LoopMode::Queue);
    let sent = s.player.outbox.len();
    press(&mut s, KeyCode::Char('n'), 1);
    assert_eq!(s.now_playing, None);
    assert_eq!(s.player.outbox.len(), sent);
}
