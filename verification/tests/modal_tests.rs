use audium::modal::{
    danger_hint, hint, hint_height, hint_rows, make_lyrics_textarea, modal_inner_width, settings_row_description,
    Modal, ModalConfirm, SettingsState, SET_SEEK, SET_VOLUME, ModalOutcome, RemoveTarget, TextArea, TextInput,
};
use audium::nav::{KeyCode, KeyModifiers};
use audium::settings::ColorMode;

const NONE: KeyModifiers = KeyModifiers { ctrl: false };

#[test]
fn text_input_edits_at_the_cursor() {
    let mut t = TextInput::with_value("hé");
    assert_eq!(t.cursor, 3);
    t.push('x');
    assert_eq!((t.value.as_str(), t.cursor), ("héx", 4));
    t.move_left();
    assert_eq!(t.cursor, 3);
    t.move_left();
    assert_eq!(t.cursor, 1);
    t.backspace();
    assert_eq!((t.value.as_str(), t.cursor), ("éx", 0));
    t.backspace();
    assert_eq!((t.value.as_str(), t.cursor), ("éx", 0));
    t.move_right();
    assert_eq!(t.cursor, 2);
    t.move_right();
    t.move_right();
    assert_eq!(t.cursor, 3);
}

#[test]
fn text_area_edits_and_joins() {
    let mut a = TextArea::from_text("ab\r\ncd");
    assert_eq!(a.lines, vec!["ab", "cd"]);
    assert_eq!((a.cursor_row, a.cursor_col), (1, 2));
    a.insert_newline();
    a.insert_char('e');
    assert_eq!(a.as_string(), "ab\ncd\ne");
    a.move_line_start();
    a.delete_char();
    assert_eq!(a.as_string(), "ab\ncde");
    assert_eq!((a.cursor_row, a.cursor_col), (1, 2));
    a.move_up();
    assert_eq!(a.cursor_row, 0);
    a.move_line_end();
    a.delete_next_char();
    assert_eq!(a.as_string(), "abcde");
    a.move_down();
    assert_eq!(a.cursor_row, 0);
    let empty = make_lyrics_textarea("");
    assert_eq!(empty.lines, vec![""]);
    assert_eq!(TextArea::from_text("x\n").as_string(), "x");
}

#[test]
fn confirmations_answer_yes_no_or_nothing() {
    let mut m = Modal::ConfirmQuit;
    assert!(matches!(m.handle_key(KeyCode::Char('y'), NONE), ModalOutcome::Confirm(ModalConfirm::Quit)));
    assert!(matches!(m.handle_key(KeyCode::Esc, NONE), ModalOutcome::Dismissed));
    assert!(matches!(m.handle_key(KeyCode::Char('x'), NONE), ModalOutcome::Consumed));
    let mut r = Modal::ConfirmRemove {
        description: "Clear the entire queue?".to_string(),
        target: RemoveTarget::Queue,
    };
    assert!(matches!(
        r.handle_key(KeyCode::Enter, NONE),
        ModalOutcome::Confirm(ModalConfirm::Remove(RemoveTarget::Queue))
    ));
    let mut n = Modal::Notify { message: "hi".to_string() };
    assert!(matches!(n.handle_key(KeyCode::Char('a'), NONE), ModalOutcome::Dismissed));
}

#[test]
fn new_playlist_names_are_trimmed_and_never_blank() {
    let mut m = Modal::NewPlaylist { input: TextInput::default(), add_track: Some(4) };
    for c in "  Road ".chars() {
        assert!(matches!(m.handle_key(KeyCode::Char(c), NONE), ModalOutcome::Consumed));
    }
    match m.handle_key(KeyCode::Enter, NONE) {
        ModalOutcome::Confirm(ModalConfirm::NewPlaylist { name, add_track }) => {
            assert_eq!(name, "Road");
            assert_eq!(add_track, Some(4));
        }
        _ => panic!("expected a new playlist"),
    }
    let mut blank = Modal::NewPlaylist { input: TextInput::with_value("   "), add_track: None };
    assert!(matches!(blank.handle_key(KeyCode::Enter, NONE), ModalOutcome::Consumed));
}

#[test]
fn menu_moves_and_opens() {
    let mut m = Modal::Menu { cursor: 0 };
    assert!(matches!(m.handle_key(KeyCode::Enter, NONE), ModalOutcome::Confirm(ModalConfirm::OpenSettings)));
    m.handle_key(KeyCode::Down, NONE);
    assert!(matches!(m.handle_key(KeyCode::Enter, NONE), ModalOutcome::Confirm(ModalConfirm::OpenAbout)));
    m.handle_key(KeyCode::End, NONE);
    assert!(matches!(m.handle_key(KeyCode::Enter, NONE), ModalOutcome::Confirm(ModalConfirm::Quit)));
    assert!(matches!(m.handle_key(KeyCode::Char('q'), NONE), ModalOutcome::Dismissed));
}

#[test]
fn hint_footer_wraps_at_whole_pairs() {
    let hints = [hint("y", "yes"), danger_hint("d", "delete"), hint("Esc", "cancel")];
    assert!(!hints[0].danger && hints[1].danger);
    // Pairs are 7, 10 and 12 cells wide.
    assert_eq!(hint_rows(&hints, 40, 3), 1);
    assert_eq!(hint_rows(&hints, 20, 3), 2);
    assert_eq!(hint_rows(&hints, 5, 3), 3);
    assert_eq!(hint_height(&[], 10, 3), 0);
    assert_eq!(modal_inner_width(3), 0);
}

#[test]
fn settings_rows_describe_themselves() {
    assert_eq!(settings_row_description(0, true), "Volume applied each time audium starts.");
    assert_eq!(settings_row_description(1, false), "How far the seek keys jump, in seconds.");
}

#[test]
fn settings_room_is_only_needed_to_raise_a_full_value() {
    let st = SettingsState {
        cursor: SET_VOLUME,
        volume_pct: u32::MAX,
        seek_secs: 5,
        preview_theme_idx: 0,
        transparent: false,
        preview_console_idx: 0,
        color_mode: ColorMode::Auto,
        detected_truecolor: true,
    };
    let m = Modal::Settings(st);
    assert!(!m.has_room(KeyCode::Right));
    assert!(!m.has_room(KeyCode::Char('l')));
    assert!(m.has_room(KeyCode::Left));
    assert!(m.has_room(KeyCode::Down));
    let m = Modal::Settings(SettingsState { cursor: SET_SEEK, ..st });
    assert!(m.has_room(KeyCode::Right));
}

#[test]
fn typing_then_deleting_gives_the_text_back() {
    let mut t = TextInput::with_value("añb");
    t.move_left();
    let before = (t.value.clone(), t.cursor);
    t.push('é');
    t.backspace();
    assert_eq!((t.value.clone(), t.cursor), before);

    let mut a = TextArea::from_text("one\ntwó");
    a.move_left();
    let before = (a.lines.clone(), a.cursor_row, a.cursor_col);
    a.insert_char('z');
    a.delete_char();
    assert_eq!((a.lines.clone(), a.cursor_row, a.cursor_col), before);
    a.insert_newline();
    assert_eq!(a.lines.len(), 3);
    a.delete_char();
    assert_eq!((a.lines.clone(), a.cursor_row, a.cursor_col), before);

    for text in ["", "a", "line one\nline two", "x\n\ny"] {
        assert_eq!(TextArea::from_text(text).as_string(), text);
    }
}

#[test]
fn settings_keys_keep_values_in_range() {
    let st = SettingsState {
        cursor: SET_VOLUME,
        volume_pct: 100,
        seek_secs: 120,
        preview_theme_idx: 0,
        transparent: false,
        preview_console_idx: 0,
        color_mode: ColorMode::Ansi16,
        detected_truecolor: false,
    };
    let mut m = Modal::Settings(st);
    m.handle_key(KeyCode::Right, NONE);
    m.handle_key(KeyCode::Char('j'), NONE);
    m.handle_key(KeyCode::Char('l'), NONE);
    m.handle_key(KeyCode::Char('G'), NONE);
    match &m {
        Modal::Settings(s) => {
            assert_eq!((s.volume_pct, s.seek_secs), (100, 120));
            assert_eq!(s.cursor, 3);
        }
        _ => panic!("settings closed"),
    }
    m.handle_key(KeyCode::Char('g'), NONE);
    m.handle_key(KeyCode::Left, NONE);
    match &m {
        Modal::Settings(s) => assert_eq!((s.cursor, s.volume_pct), (0, 99)),
        _ => panic!("settings closed"),
    }
}
