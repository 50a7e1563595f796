use audium::library::{
    index_or_reset, neighbour, FileTags, IndexFile, Library, PlaylistRepr, Track, FORMAT_VERSION,
};

fn tags(title: Option<&str>, artist: Option<&str>) -> Option<FileTags> {
    Some(FileTags {
        title: title.map(|s| s.to_string()),
        artist: artist.map(|s| s.to_string()),
        album: None,
        lyrics: None,
        duration_secs: Some(185),
    })
}

fn names(lib: &Library) -> Vec<String> {
    lib.tracks.iter().map(|t| t.name.clone()).collect()
}

fn three_tracks() -> Library {
    let mut lib = Library::new();
    lib.add_track("/music/a.mp3".to_string(), &tags(Some("Alpha"), Some("Ann")));
    lib.add_track("/music/b.flac".to_string(), &None);
    lib.add_track("/music/c.ogg".to_string(), &tags(None, None));
    lib
}

#[test]
fn added_tracks_take_fresh_ids_and_tagged_names() {
    let lib = three_tracks();
    let ids: Vec<u64> = lib.tracks.iter().map(|t| t.id).collect();
    assert_eq!(ids, vec![0, 1, 2]);
    assert_eq!(names(&lib), vec!["Alpha", "b", "c"]);
    assert_eq!(lib.tracks[0].artist.as_deref(), Some("Ann"));
    assert_eq!(lib.tracks[0].duration_secs, Some(185));
    assert_eq!(lib.next_track_id, 3);
    assert_eq!(lib.track(1).map(|t| t.name.clone()), Some("b".to_string()));
    assert!(lib.track(9).is_none());
}

#[test]
fn display_and_filename() {
    let lib = three_tracks();
    assert_eq!(lib.tracks[0].display(), "Ann - Alpha");
    assert_eq!(lib.tracks[1].display(), "b");
    assert_eq!(lib.tracks[1].filename(), "b.flac");
    let mut t = Track::at(7, "/music/x.wav".to_string());
    t.name = "X".to_string();
    t.artist = Some(String::new());
    assert_eq!(t.display(), "X");
    assert_eq!(lib.track_by_filename("c.ogg").map(|t| t.id), Some(2));
    assert!(lib.track_by_filename("d.ogg").is_none());
}

#[test]
fn playlists_keep_each_track_once() {
    let mut lib = three_tracks();
    let p = lib.create_playlist("Mix".to_string());
    assert_eq!(p, 0);
    assert!(lib.playlist_add_track(p, 2));
    assert!(lib.playlist_add_track(p, 0));
    assert!(!lib.playlist_add_track(p, 2));
    assert!(!lib.playlist_add_track(42, 0));
    assert_eq!(lib.playlist(p).unwrap().tracks, vec![2, 0]);
    let listed: Vec<u64> = lib.playlist_tracks(p).iter().map(|t| t.id).collect();
    assert_eq!(listed, vec![2, 0]);
    assert!(lib.rename_playlist(p, "Road".to_string()));
    assert_eq!(lib.playlist(p).unwrap().name, "Road");
    assert!(lib.playlist_remove_track(p, 2));
    assert_eq!(lib.playlist(p).unwrap().tracks, vec![0]);
    assert!(lib.delete_playlist(p));
    assert!(!lib.delete_playlist(p));
    assert!(lib.playlists.is_empty());
    // Ids are never handed out twice.
    assert_eq!(lib.create_playlist("Again".to_string()), 1);
}

#[test]
fn removing_a_track_drops_it_everywhere() {
    let mut lib = three_tracks();
    let p = lib.create_playlist("Mix".to_string());
    lib.playlist_add_track(p, 1);
    lib.playlist_add_track(p, 2);
    assert_eq!(lib.remove_track(1), Some("/music/b.flac".to_string()));
    assert_eq!(lib.remove_track(1), None);
    assert_eq!(names(&lib), vec!["Alpha", "c"]);
    assert_eq!(lib.playlist(p).unwrap().tracks, vec![2]);
    // The id index follows the shifted positions.
    assert_eq!(lib.track(2).map(|t| t.name.clone()), Some("c".to_string()));
    assert!(lib.track(1).is_none());
}

#[test]
fn metadata_and_lyrics_edits() {
    let mut lib = three_tracks();
    assert!(lib.update_track_metadata(1, "Bee".to_string(), Some("Bo".to_string()), None));
    assert!(!lib.update_track_metadata(8, "Nope".to_string(), None, None));
    assert_eq!(lib.tracks[1].display(), "Bo - Bee");
    assert!(lib.set_track_lyrics(1, Some("[00:01.00]hi".to_string())));
    assert_eq!(lib.tracks[1].lyrics.as_deref(), Some("[00:01.00]hi"));
    assert!(lib.set_track_lyrics(1, None));
    assert!(lib.tracks[1].lyrics.is_none());
}

#[test]
fn moving_and_moving_back_restores_the_order() {
    let mut lib = three_tracks();
    let before = names(&lib);
    assert_eq!(lib.move_track(0, true), Some(1));
    assert_eq!(names(&lib), vec!["b", "Alpha", "c"]);
    assert_eq!(lib.move_track(1, false), Some(0));
    assert_eq!(names(&lib), before);
    assert_eq!(lib.move_track(2, true), None);
    assert_eq!(lib.move_track(0, false), None);
    assert_eq!(lib.track(0).map(|t| t.name.clone()), Some("Alpha".to_string()));
}

#[test]
fn neighbour_refuses_the_ends() {
    assert_eq!(neighbour(0, true, 3), Some(1));
    assert_eq!(neighbour(2, true, 3), None);
    assert_eq!(neighbour(0, false, 3), None);
    assert_eq!(neighbour(2, false, 3), Some(1));
    assert_eq!(neighbour(usize::MAX, true, 3), None);
}

#[test]
fn playlist_track_moves() {
    let mut lib = three_tracks();
    let p = lib.create_playlist("Mix".to_string());
    lib.playlist_add_track(p, 0);
    lib.playlist_add_track(p, 1);
    assert_eq!(lib.playlist_move_track(p, 0, true), Some(1));
    assert_eq!(lib.playlist(p).unwrap().tracks, vec![1, 0]);
    assert_eq!(lib.playlist_move_track(p, 1, true), None);
    assert_eq!(lib.playlist_move_track(99, 0, true), None);
    let q = lib.create_playlist("Two".to_string());
    assert_eq!(lib.move_playlist(1, false), Some(0));
    assert_eq!(lib.playlists[0].id, q);
}

fn present(names: &[&str]) -> Vec<(String, String)> {
    names.iter().map(|n| (n.to_string(), format!("/music/{n}"))).collect()
}

#[test]
fn index_round_trip_gives_back_the_library() {
    let mut lib = three_tracks();
    let p = lib.create_playlist("Mix".to_string());
    lib.playlist_add_track(p, 2);
    lib.playlist_add_track(p, 0);
    let file = lib.to_index();
    assert_eq!(file.version, FORMAT_VERSION);
    assert_eq!(file.tracks, vec!["a.mp3", "b.flac", "c.ogg"]);
    assert_eq!(file.playlists[0].tracks, vec!["c.ogg", "a.mp3"]);
    let (back, changed) = Library::from_index(file, false, &present(&["c.ogg", "a.mp3", "b.flac"]));
    assert!(!changed);
    let files: Vec<String> = back.tracks.iter().map(|t| t.filename()).collect();
    assert_eq!(files, vec!["a.mp3", "b.flac", "c.ogg"]);
    assert_eq!(back.playlists[0].name, "Mix");
    assert_eq!(back.playlists[0].tracks, vec![3, 1]);
}

#[test]
fn loading_keeps_listed_order_then_sorted_newcomers() {
    let file = IndexFile {
        version: FORMAT_VERSION,
        tracks: vec!["z.mp3".to_string(), "gone.mp3".to_string(), "a.mp3".to_string()],
        playlists: vec![PlaylistRepr {
            name: "P".to_string(),
            tracks: vec!["a.mp3".to_string(), "gone.mp3".to_string(), "a.mp3".to_string()],
        }],
    };
    let (lib, changed) = Library::from_index(file, false, &present(&["n2.mp3", "a.mp3", "n1.mp3", "z.mp3"]));
    assert!(changed);
    let files: Vec<String> = lib.tracks.iter().map(|t| t.filename()).collect();
    assert_eq!(files, vec!["z.mp3", "a.mp3", "n1.mp3", "n2.mp3"]);
    assert_eq!(lib.tracks[0].path, "/music/z.mp3");
    assert_eq!(lib.playlists[0].tracks, vec![2]);
    assert_eq!(lib.next_track_id, 5);
    assert_eq!(lib.next_playlist_id, 2);
}

#[test]
fn foreign_index_versions_are_reset() {
    let old = IndexFile { version: 7, tracks: vec!["a.mp3".to_string()], playlists: vec![] };
    let (f, reset) = index_or_reset(Some(old));
    assert!(reset);
    assert_eq!(f.version, FORMAT_VERSION);
    assert!(f.tracks.is_empty());
    let (_, reset) = index_or_reset(None);
    assert!(reset);
    let ok = IndexFile { version: FORMAT_VERSION, tracks: vec!["a.mp3".to_string()], playlists: vec![] };
    let (f, reset) = index_or_reset(Some(ok));
    assert!(!reset);
    assert_eq!(f.tracks, vec!["a.mp3"]);
    let (lib, changed) = Library::from_index(IndexFile::empty(), true, &present(&[]));
    assert!(changed);
    assert!(lib.tracks.is_empty());
}

#[test]
fn loading_keeps_each_listed_name_once_with_the_listing_path() {
    let file = IndexFile {
        version: FORMAT_VERSION,
        tracks: vec!["b.mp3".to_string(), "b.mp3".to_string()],
        playlists: vec![PlaylistRepr {
            name: "Q".to_string(),
            tracks: vec!["a.mp3".to_string(), "b.mp3".to_string(), "a.mp3".to_string()],
        }],
    };
    let listing = vec![
        ("a.mp3".to_string(), "/x/real-a".to_string()),
        ("b.mp3".to_string(), "/x/real-b".to_string()),
    ];
    let (lib, changed) = Library::from_index(file, false, &listing);
    assert!(changed);
    let paths: Vec<&str> = lib.tracks.iter().map(|t| t.path.as_str()).collect();
    assert_eq!(paths, vec!["/x/real-b", "/x/real-a"]);
    assert_eq!(lib.playlists[0].tracks, vec![2, 1]);
}
