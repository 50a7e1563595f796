use audium::filepicker::{file_name_of, file_stem_of, is_audio, parent_of, DirEntry, FilePicker, FilePickerOutcome};
use audium::nav::KeyCode;

fn e(name: &str, dir: &str, is_dir: bool) -> DirEntry {
    DirEntry { name: name.to_string(), path: format!("{dir}/{name}"), is_dir }
}

fn names(p: &FilePicker) -> Vec<String> {
    p.entries.iter().map(|e| e.name.clone()).collect()
}

#[test]
fn audio_files_are_known_by_extension() {
    assert!(is_audio("/m/song.MP3"));
    assert!(is_audio("a.flac"));
    assert!(is_audio("x.Aiff"));
    assert!(!is_audio("notes.txt"));
    assert!(!is_audio("flac"));
    assert!(!is_audio("/m/.ogg"));
}

#[test]
fn path_pieces() {
    assert_eq!(file_name_of("/home/u/a.mp3"), Some("a.mp3".to_string()));
    assert_eq!(file_name_of("/home/u/"), Some("u".to_string()));
    assert_eq!(file_name_of("/"), None);
    assert_eq!(file_stem_of("/x/track.tar.gz"), Some("track.tar".to_string()));
    assert_eq!(file_stem_of("/x/.hidden"), Some(".hidden".to_string()));
    assert_eq!(parent_of("/home/u/a.mp3"), Some("/home/u".to_string()));
    assert_eq!(parent_of("/home"), Some("/".to_string()));
    assert_eq!(parent_of("/"), None);
    assert_eq!(parent_of("a.mp3"), Some(String::new()));
}

#[test]
fn listing_puts_parent_then_dirs_then_audio_each_sorted() {
    let mut p = FilePicker::new("/home/u");
    assert!(p.entries.is_empty());
    p.refresh(Some(vec![
        e("b.mp3", "/home/u", false),
        e("Zed", "/home/u", true),
        e("notes.txt", "/home/u", false),
        e("A.flac", "/home/u", false),
        e("alpha", "/home/u", true),
    ]));
    assert_eq!(names(&p), vec!["..", "alpha", "Zed", "A.flac", "b.mp3"]);
    assert_eq!(p.entries[0].path, "/home");
    assert_eq!(p.cursor, 0);
    p.refresh(None);
    assert_eq!(names(&p), vec![".."]);
}

#[test]
fn keys_move_enter_select_and_close() {
    let mut p = FilePicker::new("/home/u");
    p.refresh(Some(vec![e("sub", "/home/u", true), e("a.mp3", "/home/u", false)]));
    assert!(matches!(p.handle_key(KeyCode::Down), FilePickerOutcome::Continue));
    assert_eq!(p.cursor, 1);
    assert!(matches!(p.handle_key(KeyCode::Enter), FilePickerOutcome::Entered));
    assert_eq!(p.current_dir, "/home/u/sub");
    p.refresh(Some(vec![e("x.ogg", "/home/u/sub", false)]));
    p.handle_key(KeyCode::End);
    match p.handle_key(KeyCode::Enter) {
        FilePickerOutcome::Selected(path) => assert_eq!(path, "/home/u/sub/x.ogg"),
        _ => panic!("expected a selection"),
    }
    assert!(matches!(p.handle_key(KeyCode::Esc), FilePickerOutcome::Dismissed));
    assert!(matches!(p.handle_key(KeyCode::Char('q')), FilePickerOutcome::Dismissed));
    assert!(matches!(p.handle_key(KeyCode::Char('x')), FilePickerOutcome::Continue));
}
