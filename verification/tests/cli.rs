use larrez_player::cli::{
    checked_window_id, clock_text, key_command, name_of, parse_args_from, report_no_video_output,
    startup_failure_text, video_output_died, ArgsOutcome, Command, KeyName, KeyPress, HELP,
};

fn argv(v: &[&str]) -> Vec<String> {
    v.iter().map(|s| s.to_string()).collect()
}

#[test]
fn flags_are_parsed_and_files_kept() {
    let args = match parse_args_from(argv(&["--verbose", "ep1.mkv", "--safe-mode"])) {
        ArgsOutcome::Run(a) => a,
        other => panic!("unexpected {other:?}"),
    };
    assert!(args.verbose);
    assert!(args.safe_mode);
    assert_eq!(args.files, vec!["ep1.mkv".to_string()]);
}

#[test]
fn a_file_called_like_a_flag_is_still_a_file() {
    let args = match parse_args_from(argv(&["movie.mkv"])) {
        ArgsOutcome::Run(a) => a,
        other => panic!("unexpected {other:?}"),
    };
    assert!(!args.verbose);
    assert_eq!(args.files, vec!["movie.mkv".to_string()]);
}

#[test]
fn version_and_help_stop_reading() {
    assert_eq!(parse_args_from(argv(&["a.mkv", "-V", "--help"])), ArgsOutcome::ShowVersion);
    assert_eq!(parse_args_from(argv(&["/?", "--version"])), ArgsOutcome::ShowHelp);
    assert_eq!(parse_args_from(argv(&["-h"])), ArgsOutcome::ShowHelp);
    match parse_args_from(argv(&["-v", "--unknown", "x.mkv"])) {
        ArgsOutcome::Run(a) => {
            assert!(a.verbose && !a.safe_mode);
            assert_eq!(a.files, vec!["--unknown".to_string(), "x.mkv".to_string()]);
        }
        other => panic!("unexpected {other:?}"),
    }
    assert!(matches!(parse_args_from(vec![]), ArgsOutcome::Run(a) if a.files.is_empty()));
}

#[test]
fn fatal_video_output_messages_are_recognised() {
    assert!(video_output_died("[vo/gpu-next/win32] unable to create window!\n"));
    assert!(video_output_died("Video output failed.\n"));
    assert!(!video_output_died("[cplayer] Track switched\n"));
    assert!(!video_output_died("[vo/gpu-next] Using display sync\n"));
}

#[test]
fn every_fatal_message_is_caught_in_any_case() {
    assert!(video_output_died("COULD NOT INITIALIZE VIDEO OUTPUT"));
    assert!(video_output_died("x could not create video output y"));
    assert!(video_output_died("Failed to initialize a video output for this file"));
    assert!(video_output_died("Error opening/initializing the selected video_out (--vo) device."));
    assert!(!video_output_died("video output"));
    assert!(!video_output_died(""));
}

#[test]
fn time_formatting() {
    assert_eq!(clock_text(0), "0:00");
    assert_eq!(clock_text(75), "1:15");
    assert_eq!(clock_text(3725), "1:02:05");
}

#[test]
fn clock_edges() {
    assert_eq!(clock_text(59), "0:59");
    assert_eq!(clock_text(600), "10:00");
    assert_eq!(clock_text(3600), "1:00:00");
    assert_eq!(clock_text(360000), "100:00:00");
}

#[test]
fn the_no_video_report_names_the_log() {
    let r = report_no_video_output("Video output failed.\r\n", "C:\\x\\larrez.log");
    assert_eq!(r.log_message, "no video output: Video output failed.");
    assert_eq!(r.title, "Larrez Player \u{2014} no video output");
    assert!(r.text.starts_with("Larrez Player could not start its video output.\n\nmpv said: Video output failed.\n\n"));
    assert!(r.text.contains("Details were written to:\nC:\\x\\larrez.log\n\nWorth trying:"));
    assert!(r.text.ends_with("(software decoding, plain GPU path)"));
    assert_eq!(startup_failure_text("boom", "p"), "boom\n\nDetails were written to:\np");
}

#[test]
fn window_ids_must_be_positive() {
    assert_eq!(checked_window_id(0x1234), Ok(0x1234));
    assert_eq!(checked_window_id(0), Err("unusable window handle 0x0".to_string()));
    assert_eq!(
        checked_window_id(0x8000_0000_0000_0000usize.wrapping_add(0xAB)),
        Err("unusable window handle 0x80000000000000AB".to_string())
    );
}

#[test]
fn keys_map_to_commands() {
    assert_eq!(key_command(&KeyPress::Named(KeyName::Space)), Some(Command::TogglePause));
    assert_eq!(key_command(&KeyPress::Named(KeyName::ArrowLeft)), Some(Command::SeekBy(-5)));
    assert_eq!(key_command(&KeyPress::Named(KeyName::ArrowDown)), Some(Command::ChangeVolume(-5)));
    assert_eq!(key_command(&KeyPress::Named(KeyName::Tab)), Some(Command::TogglePlaylist));
    assert_eq!(key_command(&KeyPress::Character("K".into())), Some(Command::TogglePause));
    assert_eq!(key_command(&KeyPress::Character("l".into())), Some(Command::SeekBy(10)));
    assert_eq!(key_command(&KeyPress::Character("\\".into())), Some(Command::SpeedReset));
    assert_eq!(key_command(&KeyPress::Character("Q".into())), Some(Command::Quit));
    assert_eq!(key_command(&KeyPress::Character("x".into())), None);
    assert_eq!(key_command(&KeyPress::Character("kk".into())), None);
    assert_eq!(key_command(&KeyPress::Other), None);
}

#[test]
fn names_come_from_the_final_component() {
    assert_eq!(name_of("a/b/c.srt"), "c.srt");
    assert_eq!(name_of(".."), "");
    assert!(HELP.starts_with("Larrez Player\nSpace/K play-pause"));
    assert!(HELP.contains("\\ reset speed"));
}
