use larrez_player::playlist::{Entry, Playlist, Repeat};
use larrez_player::session::{
    added_notice, after_end_file, could_not_play_notice, failed_log_line, finished_log_line,
    signed_decimal_of, subtitles_notice, AfterFile, VoWatch,
};

#[test]
fn a_dead_video_output_is_reported_once() {
    let mut w = VoWatch::new();
    assert!(!w.on_log("[cplayer] hello"));
    assert!(w.on_log("Video output failed."));
    assert!(!w.on_log("Video output failed."));
    assert!(!w.on_tick(true));
    assert!(w.on_vo_configured(Some(true)));
    assert!(!w.on_vo_configured(Some(true)));
    assert!(!w.on_log("Video output failed."));
    w.on_vo_configured(Some(false));
    assert!(w.on_tick(true));
    assert!(!w.on_tick(true));
    let mut quiet = VoWatch::new();
    assert!(!quiet.on_tick(false));
    assert_eq!(quiet.on_vo_configured(None), false);
}

#[test]
fn what_follows_a_file() {
    let mut pl = Playlist::default();
    pl.items = vec![Entry::new("a.mkv".into()), Entry::new("b.mkv".into())];
    pl.current = Some(0);
    assert_eq!(after_end_file(0, &pl), AfterFile::Play(1));
    assert_eq!(after_end_file(4, &pl), AfterFile::Failed);
    pl.current = Some(1);
    assert_eq!(after_end_file(0, &pl), AfterFile::Stop);
    pl.repeat = Repeat::One;
    assert_eq!(after_end_file(2, &pl), AfterFile::Play(1));
}

#[test]
fn notices_read_as_before() {
    assert_eq!(could_not_play_notice("x.mkv"), "Could not play x.mkv \u{2014} press N for the next file");
    assert_eq!(finished_log_line("x.mkv", -1), "finished x.mkv (reason -1)");
    assert_eq!(failed_log_line("x", "boom", 4), "x: playback failed \u{2014} boom (reason 4)");
    assert_eq!(added_notice(12), "Added 12 file(s)");
    assert_eq!(subtitles_notice("a.srt"), "Subtitles: a.srt");
    assert_eq!(signed_decimal_of(i64::MIN), "-9223372036854775808");
    assert_eq!(signed_decimal_of(0), "0");
}
