use audium::layout::{
    centered_rect, console_theme_name, entry, eq_frame, format_duration, glyphs, h_window, h_window_start,
    pad, row_marker, first_visible, lyrics_box, theme_index, console_theme_index, scrubber_split, theme_name, truncate, volume_bar_cells, Columns, CONSOLE_THEME_COUNT,
    THEME_COUNT,
};
use audium::numeric::usize_to_u16_saturating;

#[test]
fn durations_read_as_minutes_and_seconds() {
    assert_eq!(format_duration(0), "0:00");
    assert_eq!(format_duration(65), "1:05");
    assert_eq!(format_duration(3600), "60:00");
}

#[test]
fn truncation_marks_the_cut() {
    assert_eq!(truncate("hello", 5), "hello");
    assert_eq!(truncate("hello", 4), "hel~");
    assert_eq!(truncate("hello", 0), "");
    assert_eq!(truncate("héllo wörld", 3), "hé~");
    assert_eq!(pad("ab", 4), "ab  ");
    assert_eq!(pad("abcdef", 4), "abc~");
}

#[test]
fn horizontal_window_keeps_the_cursor_in_view() {
    assert_eq!(h_window_start("abc", 3, 10), 0);
    assert_eq!(h_window_start("abcdefghij", 10, 5), 6);
    assert_eq!(h_window_start("abcdefghij", 2, 5), 0);
    assert_eq!(h_window_start("abcdefghij", 7, 5), 3);
    assert_eq!(h_window("abcdefghij", 3, 4), "defg");
    assert_eq!(h_window("abc", 2, 4), "c");
}

#[test]
fn columns_split_roughly_four_three_three() {
    let c = Columns::for_width(100);
    assert_eq!((c.title, c.artist, c.album, c.time), (34, 25, 25, 5));
    let narrow = Columns::for_width(10);
    assert_eq!((narrow.title, narrow.artist, narrow.album, narrow.time), (5, 0, 0, 0));
}

#[test]
fn theme_tables() {
    assert_eq!(THEME_COUNT, 15);
    assert_eq!(CONSOLE_THEME_COUNT, 2);
    assert_eq!(theme_name(0), "dark");
    assert_eq!(console_theme_name(0), "console_dark");
}

#[test]
fn player_bar_pieces() {
    assert_eq!(eq_frame(0), 0);
    assert_eq!(eq_frame(260), 1);
    assert_eq!(eq_frame(1000), 0);
    assert_eq!(volume_bar_cells(73), (7, 3));
    assert_eq!(volume_bar_cells(100), (10, 0));
    assert_eq!(usize_to_u16_saturating(70_000), u16::MAX);
    assert_eq!(usize_to_u16_saturating(12), 12);
    let (before, after) = scrubber_split(10, 4);
    assert_eq!(before + after + 1, 10);
}

#[test]
fn glyph_tables_and_row_markers() {
    let a = glyphs(true);
    assert_eq!(a.divider, "|");
    assert_eq!(a.eq_idle, "...");
    let u = glyphs(false);
    assert_eq!(u.divider, "\u{2502}");
    assert_eq!(row_marker(false, false, 0, &a), "");
    assert_eq!(row_marker(true, true, 999, &a), "...");
    assert_eq!(row_marker(true, false, 0, &a), ".oO");
    assert_eq!(row_marker(true, false, 600, &a), "O.o");
}

#[test]
fn sidebar_entries_and_centering() {
    assert_eq!(entry("Mix", 3, 20), format!("Mix{}3", " ".repeat(16)));
    let (x, y, w, h) = centered_rect(10, 4, 0, 0, 20, 10);
    assert_eq!((x, y, w, h), (5, 3, 10, 4));
}

#[test]
fn metadata_columns_go_before_the_title_is_squeezed() {
    let c = Columns::for_width(53);
    assert_eq!((c.title, c.artist, c.album, c.time), (24, 15, 0, 5));
    for w in 0..200 {
        let c = Columns::for_width(w);
        if c.artist > 0 {
            assert!(c.title >= audium::layout::MIN_TITLE, "width {w}");
        }
    }
}

#[test]
fn theme_lookup_falls_back_to_the_first() {
    assert_eq!(theme_index("nord"), 2);
    assert_eq!(theme_index("kanagawa"), 14);
    assert_eq!(theme_index("no such theme"), 0);
    assert_eq!(console_theme_index("console_light"), 1);
    assert_eq!(console_theme_index("dark"), 0);
}

#[test]
fn the_first_visible_row_keeps_the_cursor_on_screen() {
    assert_eq!(first_visible(0, 5), 0);
    assert_eq!(first_visible(4, 5), 0);
    assert_eq!(first_visible(7, 5), 3);
    assert_eq!(first_visible(3, 0), 3);
}

#[test]
fn lyrics_box_keeps_a_margin() {
    assert_eq!(lyrics_box(120, 40), (80, 20));
    assert_eq!(lyrics_box(30, 10), (26, 6));
    assert_eq!(lyrics_box(2, 2), (0, 0));
}
