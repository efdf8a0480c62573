use larrez_player::mpv::{
    event_kind, frame_summary, log_level, startup_options, Config, EventKind, OnRefusal,
    MPV_EVENT_END_FILE, MPV_EVENT_PROPERTY_CHANGE,
};

#[test]
fn video_summary_includes_dimensions() {
    assert_eq!(
        frame_summary("gpu-next", "d3d11va", "nv12", 1920, 1080),
        "vo=gpu-next hwdec=d3d11va format=nv12 1920x1080"
    );
}

#[test]
fn video_summary_notices_missing_video() {
    assert!(frame_summary("gpu-next", "no", "?", 0, 0).contains("no video track"));
    assert_eq!(frame_summary("gpu", "no", "?", 640, -1), "vo=gpu hwdec=no (no video track)");
}

#[test]
fn event_ids_are_classified() {
    assert_eq!(event_kind(0), EventKind::Nothing);
    assert_eq!(event_kind(1), EventKind::Shutdown);
    assert_eq!(event_kind(2), EventKind::LogMessage);
    assert_eq!(event_kind(MPV_EVENT_END_FILE), EventKind::EndFile);
    assert_eq!(event_kind(8), EventKind::FileLoaded);
    assert_eq!(event_kind(17), EventKind::VideoReconfig);
    assert_eq!(event_kind(MPV_EVENT_PROPERTY_CHANGE), EventKind::PropertyChange);
    assert_eq!(event_kind(99), EventKind::Other);
}

#[test]
fn startup_options_follow_the_mode() {
    let normal = startup_options(4242, Config { verbose: false, safe_mode: false });
    assert_eq!(normal[0].key, "wid");
    assert_eq!(normal[0].value, "4242");
    assert_eq!(
        normal[0].on_refusal,
        OnRefusal::Fail("could not embed the video output into our window")
    );
    assert_eq!(normal[1].key, "hwdec");
    assert_eq!(normal[1].value, "auto-safe");
    assert_eq!(normal[2].value, "gpu-next,gpu,");
    assert_eq!(normal[2].on_refusal, OnRefusal::Fallback("gpu,"));
    assert_eq!(normal[3].key, "terminal");
    assert_eq!(normal[3].value, "no");
    assert_eq!(normal.len(), 13);
    let safe = startup_options(-7, Config { verbose: true, safe_mode: true });
    assert_eq!(safe[0].value, "-7");
    assert_eq!(safe[1].value, "no");
    assert_eq!(safe[2].value, "gpu");
    assert_eq!(safe[3].key, "gpu-api");
    assert_eq!(safe[4].value, "yes");
    assert_eq!(safe.len(), 14);
    assert_eq!(safe.last().unwrap().key, "demuxer-readahead-secs");
    assert!(safe[1..].iter().all(|s| !matches!(s.on_refusal, OnRefusal::Fail(_))));
    assert_eq!(log_level(Config { verbose: true, safe_mode: false }), "v");
    assert_eq!(log_level(Config::default()), "info");
}
