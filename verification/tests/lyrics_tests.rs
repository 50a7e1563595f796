use audium::lyrics::{active_idx, lyrics_window, parse_lrc, try_timed};

fn pairs(raw: &str) -> Vec<(Option<u64>, String)> {
    parse_lrc(raw).into_iter().map(|l| (l.time_ms, l.text)).collect()
}

#[test]
fn timed_lines_come_out_sorted_and_tags_are_skipped() {
    let got = pairs("[ti:Song]\n[00:12.34] b \n[00:01.5]a\n[01:00]c\nstray text\n");
    assert_eq!(
        got,
        vec![
            (Some(1500), "a".to_string()),
            (Some(12340), "b".to_string()),
            (Some(60000), "c".to_string()),
        ]
    );
}

#[test]
fn equal_times_keep_their_order() {
    let got = pairs("[00:02.00]x\n[00:01.00]y\n[00:02.00]z\n");
    assert_eq!(
        got,
        vec![(Some(1000), "y".to_string()), (Some(2000), "x".to_string()), (Some(2000), "z".to_string())]
    );
}

#[test]
fn plain_text_keeps_every_non_empty_line() {
    let got = pairs("one\n\n   two  \n[ar:Someone]\n");
    assert_eq!(got, vec![(None, "one".to_string()), (None, "two".to_string())]);
    assert!(parse_lrc("").is_empty());
}

#[test]
fn fractions_of_each_width() {
    assert_eq!(try_timed("[00:01.1]a").map(|l| l.time_ms), Some(Some(1100)));
    assert_eq!(try_timed("[00:01.12]a").map(|l| l.time_ms), Some(Some(1120)));
    assert_eq!(try_timed("[00:01.123]a").map(|l| l.time_ms), Some(Some(1123)));
    assert_eq!(try_timed("[02:03]a").map(|l| l.time_ms), Some(Some(123000)));
    assert!(try_timed("[ti:x]").is_none());
    assert!(try_timed("no tag").is_none());
    assert!(try_timed("[1x:00]a").is_none());
    assert_eq!(try_timed("[00:05]  spaced  ").map(|l| l.text), Some("spaced".to_string()));
}

#[test]
fn active_line_is_the_last_one_started() {
    let lines = parse_lrc("[00:01.00]a\n[00:03.00]b\n");
    assert_eq!(active_idx(&lines, 999), None);
    assert_eq!(active_idx(&lines, 1000), Some(0));
    assert_eq!(active_idx(&lines, 2999), Some(0));
    assert_eq!(active_idx(&lines, 3000), Some(1));
    assert_eq!(active_idx(&lines, u64::MAX), Some(1));
    let plain = parse_lrc("a\nb");
    assert_eq!(active_idx(&plain, 5000), None);
}

#[test]
fn later_moments_never_go_back_a_line() {
    let lines = parse_lrc("[00:01]a\n[00:02]b\n[00:04]c\n");
    let mut last = None;
    for ms in (0..6000).step_by(250) {
        let now = active_idx(&lines, ms);
        assert!(now >= last);
        last = now;
    }
}

#[test]
fn an_overflowing_timestamp_leaves_the_line_untimed() {
    assert!(try_timed("[999999999999999:00]x").is_none());
    assert!(parse_lrc("[999999999999999:00]x").is_empty());
    assert_eq!(pairs("[00:01]a\n[999999999999999:00]x\n"), vec![(Some(1000), "a".to_string())]);
}

#[test]
fn the_lyrics_window_centres_the_active_line() {
    let lines = parse_lrc("[00:01]a\n[00:02]b\n[00:03]c\n[00:04]d\n[00:05]e\n");
    assert_eq!(lyrics_window(&lines, 4500, 0, 2), (2, Some(3)));
    assert_eq!(lyrics_window(&lines, 5500, 0, 2), (3, Some(4)));
    assert_eq!(lyrics_window(&lines, 5500, 0, 4), (1, Some(4)));
    assert_eq!(lyrics_window(&lines, 0, 9, 2), (0, None));
    let plain = parse_lrc("a\nb\nc\n");
    assert_eq!(lyrics_window(&plain, 4500, 5, 2), (1, None));
    assert_eq!(lyrics_window(&plain, 4500, 0, 2), (0, None));
}
