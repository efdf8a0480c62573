use larrez_player::logging::{
    format_line, log, log_mpv, log_path_in, path, path_display, should_mirror, Sink,
};
use larrez_player::text::trim_line_end_of;

#[test]
fn levels_are_padded_for_readability() {
    assert_eq!(format_line("info", "hello"), "[info ] hello");
    assert_eq!(format_line("error", "boom"), "[error] boom");
}

#[test]
fn only_problems_mirror_to_stderr() {
    assert!(should_mirror("warn"));
    assert!(should_mirror("error"));
    assert!(should_mirror("fatal"));
    assert!(!should_mirror("info"));
}

#[test]
fn mpv_text_does_not_double_up_newlines() {
    assert_eq!(trim_line_end_of("hello\n"), "hello");
}

#[test]
fn long_levels_are_not_cut() {
    assert_eq!(format_line("debug", "x"), "[debug] x");
    assert_eq!(format_line("warning", "x"), "[warning] x");
    assert_eq!(format_line("", ""), "[     ] ");
}

#[test]
fn log_routes_lines() {
    let w = log("info", "hi", None);
    assert_eq!(w.line, "[info ] hi");
    assert!(!w.to_file && w.to_stderr);
    let quiet = Sink { has_file: true, verbose: false };
    let w = log("info", "hi", Some(quiet));
    assert!(w.to_file && !w.to_stderr);
    let w = log("error", "bad", Some(quiet));
    assert!(w.to_file && w.to_stderr);
    let loud = Sink { has_file: false, verbose: true };
    let w = log("debug", "x", Some(loud));
    assert!(!w.to_file && w.to_stderr);
}

#[test]
fn mpv_lines_lose_their_line_breaks() {
    let w = log_mpv("warn", "[vo] ", "failed\r\n\n", None);
    assert_eq!(w.line, "[warn ] [vo] failed");
    assert_eq!(trim_line_end_of("a\nb\r"), "a\nb");
    assert_eq!(trim_line_end_of("\n\r"), "");
}

#[test]
fn the_log_lives_in_the_config_folder() {
    let shown = path_display();
    match path() {
        Some(p) => {
            assert!(p.ends_with("larrez.log"));
            assert!(p.contains("LarrezPlayer"));
            assert_eq!(shown, p);
        }
        None => assert_eq!(shown, "(no config directory available)"),
    }
}

#[test]
fn the_log_file_sits_in_the_player_folder() {
    assert_eq!(log_path_in("/home/u/.config"), "/home/u/.config/LarrezPlayer/larrez.log");
    assert_eq!(log_path_in("/home/u/.config/"), "/home/u/.config/LarrezPlayer/larrez.log");
    assert_eq!(log_path_in(""), "LarrezPlayer/larrez.log");
}

#[test]
fn a_log_past_half_a_megabyte_starts_afresh() {
    assert!(!larrez_player::logging::too_long(512 * 1024));
    assert!(larrez_player::logging::too_long(512 * 1024 + 1));
    assert!(!larrez_player::logging::too_long(0));
}
