use audium::player::{PlayerCommand, PlayerHandle, SPEED_NORMAL};
use audium::settings::{ColorMode, Settings, SETTINGS_VERSION};
use audium::state::{PlaybackState, STATE_VERSION};
use audium::app::LoopMode;

#[test]
fn settings_defaults_and_clamps() {
    let mut s = Settings::default();
    assert_eq!(s.version, SETTINGS_VERSION);
    assert_eq!((s.default_volume, s.seek_step_secs), (70, 1));
    assert_eq!(s.theme_name, "dark");
    assert_eq!(s.console_theme_name, "native");
    s.set_default_volume(250);
    assert_eq!(s.default_volume, 100);
    s.set_seek_step_secs(0);
    assert_eq!(s.seek_step_secs, 1);
    s.set_seek_step_secs(500);
    assert_eq!(s.seek_step_secs, 120);
    s.set_seek_step_secs(15);
    assert_eq!(s.seek_step_secs, 15);
    s.set_theme("nord");
    s.set_console_theme("console_light");
    assert_eq!((s.theme_name.as_str(), s.console_theme_name.as_str()), ("nord", "console_light"));
}

#[test]
fn color_modes() {
    assert!(ColorMode::Auto.truecolor(true));
    assert!(!ColorMode::Auto.truecolor(false));
    assert!(ColorMode::Truecolor.truecolor(false));
    assert!(!ColorMode::Ansi16.truecolor(true));
    assert_eq!(ColorMode::override_for(true), ColorMode::Ansi16);
    assert_eq!(ColorMode::override_for(false), ColorMode::Truecolor);
    assert_eq!(ColorMode::Auto.toggle(true), ColorMode::Ansi16);
    assert_eq!(ColorMode::Ansi16.toggle(true), ColorMode::Auto);
    assert_eq!(ColorMode::Auto.label(), "auto");
}

#[test]
fn player_handle_queues_commands_in_order() {
    let mut p = PlayerHandle::new(98);
    assert_eq!(p.playback_speed, SPEED_NORMAL);
    p.volume_up();
    p.volume_up();
    p.volume_up();
    assert_eq!(p.volume, 100);
    p.volume_down();
    assert_eq!(p.volume, 99);
    p.play("/m/a.mp3".to_string());
    p.pause();
    assert!(p.is_paused);
    p.resume();
    p.seek("/m/a.mp3".to_string(), 1500, false);
    p.stop();
    let cmds = p.take_commands();
    assert!(p.outbox.is_empty());
    assert_eq!(cmds.len(), 9);
    assert!(matches!(cmds[0], PlayerCommand::SetVolume(99)));
    assert!(matches!(cmds[2], PlayerCommand::SetVolume(100)));
    assert!(matches!(cmds[4], PlayerCommand::Play { speed: 100, .. }));
    assert!(matches!(cmds[7], PlayerCommand::Seek { position_ms: 1500, paused: false, .. }));
    assert!(matches!(cmds[8], PlayerCommand::Stop));
}

#[test]
fn saved_state_of_another_shape_is_ignored() {
    let s = PlaybackState::new(vec!["a.mp3".to_string()], Some(0), 42, LoopMode::Queue, 125, 80);
    assert_eq!(s.version, STATE_VERSION);
    let kept = PlaybackState::accept(s.clone()).unwrap();
    assert_eq!(kept.queue, vec!["a.mp3"]);
    assert_eq!((kept.position_secs, kept.speed, kept.volume), (42, 125, 80));
    let mut other = s;
    other.version = STATE_VERSION + 1;
    assert!(PlaybackState::accept(other).is_none());
}
