//! How the player reads its command line and its keyboard, and the texts it
//! shows the user.

use vstd::prelude::*;

use crate::playlist::{file_name, is_component_of, read_as_name, readable_name};
use crate::text::{
    ascii_lower, chars_of, concat, decimal, decimal_of, hex, hex_of, lower_chars, lower_seq, occurs, occurs_in,
    same_text, texts, trim_line_end, trim_line_end_of, two_digits, two_digits_of,
};

verus! {

/// The shortcuts, as the help overlay and `--help` show them.
pub const HELP: &'static str = "Larrez Player\nSpace/K play-pause   J/L -10s/+10s   arrows seek & volume\nF fullscreen   M mute   A audio track   V subtitles   B load subs\nN/P next-prev   S shuffle   R repeat   [ ] speed   \\ reset speed\nO open file   D open folder   C screenshot   I info   Q quit\nStart with --verbose to log everything, --safe-mode to avoid GPU paths";

/// What the command line asks for when the player is to run.
#[derive(Debug, Default, PartialEq)]
pub struct Args {
    pub files: Vec<String>,
    pub verbose: bool,
    pub safe_mode: bool,
}

/// What the command line asks for.
#[derive(Debug, PartialEq)]
pub enum ArgsOutcome {
    /// Run the player.
    Run(Args),
    /// Show the version and stop.
    ShowVersion,
    /// Show the shortcuts and stop.
    ShowHelp,
}

pub open spec fn is_verbose_flag(s: Seq<char>) -> bool {
    s == "--verbose"@ || s == "-v"@
}

pub open spec fn is_safe_mode_flag(s: Seq<char>) -> bool {
    s == "--safe-mode"@
}

pub open spec fn is_version_flag(s: Seq<char>) -> bool {
    s == "--version"@ || s == "-V"@
}

pub open spec fn is_help_flag(s: Seq<char>) -> bool {
    s == "--help"@ || s == "-h"@ || s == "/?"@
}

/// A flag that shows something and stops.
pub open spec fn is_exit_flag(s: Seq<char>) -> bool {
    is_version_flag(s) || is_help_flag(s)
}

/// Any flag the player knows; everything else is a file to play.
pub open spec fn is_flag(s: Seq<char>) -> bool {
    is_verbose_flag(s) || is_safe_mode_flag(s) || is_exit_flag(s)
}

/// The arguments that name files.
pub open spec fn file_args() -> spec_fn(Seq<char>) -> bool {
    |s: Seq<char>| !is_flag(s)
}

/// `argv` asks to show something and stop, and the first such flag is `flag`'s
/// kind at position `i`.
pub open spec fn first_exit_flag_at(argv: Seq<Seq<char>>, i: int) -> bool {
    &&& 0 <= i < argv.len()
    &&& is_exit_flag(argv[i])
    &&& forall|j: int| 0 <= j < i ==> !is_exit_flag(#[trigger] argv[j])
}

/// The flags are told apart by their texts: no text is two kinds of flag.
proof fn lemma_flag_kinds_exclusive(s: Seq<char>)
    ensures
        is_verbose_flag(s) ==> !is_safe_mode_flag(s) && !is_exit_flag(s),
        is_safe_mode_flag(s) ==> !is_exit_flag(s),
        is_version_flag(s) ==> !is_help_flag(s),
{
    reveal_strlit("--verbose");
    reveal_strlit("-v");
    reveal_strlit("--safe-mode");
    reveal_strlit("--version");
    reveal_strlit("-V");
    reveal_strlit("--help");
    reveal_strlit("-h");
    reveal_strlit("/?");
    let ls: Seq<nat> = seq![
        "--verbose"@.len(), "-v"@.len(), "--safe-mode"@.len(), "--version"@.len(),
        "-V"@.len(), "--help"@.len(), "-h"@.len(), "/?"@.len(),
    ];
    assert(ls =~= seq![9nat, 2, 11, 9, 2, 6, 2, 2]);
    assert("--verbose"@[5] != "--version"@[5]);
    assert("-v"@[1] != "-V"@[1]);
    assert("-v"@[1] != "-h"@[1]);
    assert("-v"@[0] != "/?"@[0]);
    assert("-V"@[1] != "-h"@[1]);
    assert("-V"@[0] != "/?"@[0]);
}

/// Reads the command line (without the program name). Flags switch on
/// verbose logging and safe mode; `--version` and `--help` (or their short
/// forms) end the reading and ask to show something instead; anything else
/// is a file to play, even when it looks like a flag nobody knows.
pub fn parse_args_from(argv: Vec<String>) -> (r: ArgsOutcome)
    ensures
        match r {
            ArgsOutcome::Run(a) => {
                &&& forall|i: int| 0 <= i < argv@.len() ==> !is_exit_flag(#[trigger] texts(argv@)[i])
                &&& a.verbose == exists|i: int| 0 <= i < argv@.len() && is_verbose_flag(#[trigger] texts(argv@)[i])
                &&& a.safe_mode == exists|i: int| 0 <= i < argv@.len() && is_safe_mode_flag(#[trigger] texts(argv@)[i])
                &&& texts(a.files@) == texts(argv@).filter(file_args())
            },
            ArgsOutcome::ShowVersion => exists|i: int|
                first_exit_flag_at(texts(argv@), i) && is_version_flag(#[trigger] texts(argv@)[i]),
            ArgsOutcome::ShowHelp => exists|i: int|
                first_exit_flag_at(texts(argv@), i) && is_help_flag(#[trigger] texts(argv@)[i]),
        },
{
    let ghost t = texts(argv@);
    let mut files: Vec<String> = Vec::new();
    let mut verbose = false;
    let mut safe_mode = false;
    let mut i: usize = 0;
    proof {
        reveal(Seq::filter);
        assert(t.take(0).filter(file_args()) =~= texts(files@));
    }
    while i < argv.len()
        invariant
            t == texts(argv@),
            i <= argv@.len(),
            forall|j: int| 0 <= j < i ==> !is_exit_flag(#[trigger] t[j]),
            verbose == exists|j: int| 0 <= j < i && is_verbose_flag(#[trigger] t[j]),
            safe_mode == exists|j: int| 0 <= j < i && is_safe_mode_flag(#[trigger] t[j]),
            texts(files@) == t.take(i as int).filter(file_args()),
        decreases argv@.len() - i,
    {
        let a = &argv[i];
        let ghost x = t[i as int];
        assert(x == a@);
        proof {
            reveal(Seq::filter);
            assert(t.take(i + 1).drop_last() =~= t.take(i as int));
            assert(t.take(i + 1).last() == x);
            lemma_flag_kinds_exclusive(x);
        }
        if same_text(a.as_str(), "--verbose") || same_text(a.as_str(), "-v") {
            verbose = true;
        } else if same_text(a.as_str(), "--safe-mode") {
            safe_mode = true;
        } else if same_text(a.as_str(), "--version") || same_text(a.as_str(), "-V") {
            return ArgsOutcome::ShowVersion;
        } else if same_text(a.as_str(), "--help") || same_text(a.as_str(), "-h") || same_text(a.as_str(), "/?") {
            return ArgsOutcome::ShowHelp;
        } else {
            let ghost before = texts(files@);
            files.push(a.clone());
            assert(texts(files@) =~= before.push(x));
        }
        i = i + 1;
    }
    assert(t.take(argv@.len() as int) =~= t);
    ArgsOutcome::Run(Args { files, verbose, safe_mode })
}

/// Messages from mpv, in lower case, that mean a picture is never coming.
pub open spec fn fatal_vo_messages() -> Seq<Seq<char>> {
    seq![
        "unable to create window"@,
        "video output failed"@,
        "could not initialize video output"@,
        "could not create video output"@,
        "failed to initialize a video output"@,
        "error opening/initializing the selected video_out"@,
    ]
}

/// Whether a message from mpv, read without regard to ASCII case, says that
/// there is never going to be a picture.
pub open spec fn is_fatal_vo_message(message: Seq<char>) -> bool {
    exists|i: int| 0 <= i < fatal_vo_messages().len() && occurs_in(#[trigger] fatal_vo_messages()[i], lower_seq(message))
}

/// Whether a message from mpv means there is never going to be a picture.
pub fn video_output_died(message: &str) -> (r: bool)
    ensures
        r == is_fatal_vo_message(message@),
{
    let m = lower_chars(&chars_of(message));
    let fatal: [&'static str; 6] = [
        "unable to create window",
        "video output failed",
        "could not initialize video output",
        "could not create video output",
        "failed to initialize a video output",
        "error opening/initializing the selected video_out",
    ];
    assert(fatal@.map_values(|f: &str| f@) =~= fatal_vo_messages());
    let mut i: usize = 0;
    while i < 6
        invariant
            i <= 6,
            m@ == lower_seq(message@),
            fatal@.map_values(|f: &str| f@) == fatal_vo_messages(),
            forall|k: int| 0 <= k < i ==> !occurs_in(#[trigger] fatal_vo_messages()[k], m@),
        decreases 6 - i,
    {
        let f = chars_of(fatal[i]);
        assert(f@ == fatal_vo_messages()[i as int]);
        if occurs(&f, &m) {
            return true;
        }
        i = i + 1;
    }
    false
}

/// What to tell the user, and the log, when the video output is not coming.
#[derive(Debug)]
pub struct Report {
    pub log_message: String,
    pub title: &'static str,
    pub text: String,
}

/// The log line and the dialog for a video output that never came: what mpv
/// said (without its line break), where the log is, and what is worth
/// trying.
pub fn report_no_video_output(detail: &str, log_path: &str) -> (r: Report)
    ensures
        r.log_message@ == "no video output: "@ + trim_line_end(detail@),
        r.title@ == "Larrez Player \u{2014} no video output"@,
        r.text@ == "Larrez Player could not start its video output.\n\nmpv said: "@ + trim_line_end(detail@)
            + "\n\nDetails were written to:\n"@ + log_path@
            + "\n\nWorth trying:\n\u{2022} update your graphics driver\n\u{2022} start the player with --safe-mode (software decoding, plain GPU path)"@,
{
    let d = trim_line_end_of(detail);
    let log_message = concat("no video output: ", d.as_str());
    let mut text = String::from_str("Larrez Player could not start its video output.\n\nmpv said: ");
    text.append(d.as_str());
    text.append("\n\nDetails were written to:\n");
    text.append(log_path);
    text.append(
        "\n\nWorth trying:\n\u{2022} update your graphics driver\n\u{2022} start the player with --safe-mode (software decoding, plain GPU path)",
    );
    Report { log_message, title: "Larrez Player \u{2014} no video output", text }
}

/// The dialog text when the player cannot start: the error, then where the
/// details were written.
pub fn startup_failure_text(error: &str, log_path: &str) -> (r: String)
    ensures
        r@ == error@ + "\n\nDetails were written to:\n"@ + log_path@,
{
    let mut r = String::from_str(error);
    r.append("\n\nDetails were written to:\n");
    r.append(log_path);
    r
}

/// The id mpv embeds its video into, from the window's handle. mpv reads an
/// id of zero or below as "make a window of your own", which would leave
/// ours blank forever, so a handle that does not read as a positive 64-bit
/// number is refused.
pub fn checked_window_id(handle: usize) -> (r: Result<i64, String>)
    ensures
        match r {
            Ok(id) => 0 < handle <= i64::MAX && id == handle,
            Err(e) => !(0 < handle <= i64::MAX) && e@ == "unusable window handle 0x"@ + hex(handle as nat),
        },
{
    let h: u64 = handle as u64;
    if h == 0 || h > 9223372036854775807u64 {
        Err(concat("unusable window handle 0x", hex_of(h).as_str()))
    } else {
        Ok(h as i64)
    }
}

/// A playing time as the player shows it: `m:ss`, or `h:mm:ss` from an hour
/// on.
pub open spec fn clock(t: nat) -> Seq<char> {
    let h = t / 3600;
    let m = (t / 60) % 60;
    let s = t % 60;
    if h > 0 {
        decimal(h) + ":"@ + two_digits(m) + ":"@ + two_digits(s)
    } else {
        decimal(m) + ":"@ + two_digits(s)
    }
}

/// Formats `t` whole seconds as `m:ss`, or `h:mm:ss` from an hour on.
pub fn clock_text(t: u64) -> (r: String)
    ensures
        r@ == clock(t as nat),
{
    let h = t / 3600;
    let m = (t / 60) % 60;
    let s = t % 60;
    let mut r = if h > 0 {
        let mut r = decimal_of(h);
        r.append(":");
        r.append(two_digits_of(m).as_str());
        r
    } else {
        decimal_of(m)
    };
    r.append(":");
    r.append(two_digits_of(s).as_str());
    r
}

/// The file name of `path`, or nothing.
pub fn name_of(path: &str) -> (r: String)
    ensures
        r@ == Seq::<char>::empty() || (r@.len() > 0 && is_component_of(r@, path@)),
        readable_name(path@) ==> read_as_name(path@, r@),
{
    match file_name(path) {
        Some(n) => n,
        None => String::new(),
    }
}

/// A key with a name rather than a character.
#[derive(Debug, Clone, Copy, PartialEq, Eq, Structural)]
pub enum KeyName {
    Space,
    ArrowLeft,
    ArrowRight,
    ArrowUp,
    ArrowDown,
    Tab,
    Escape,
}

/// A key press.
#[derive(Debug, Clone, PartialEq, Eq)]
pub enum KeyPress {
    Named(KeyName),
    /// The text the key produced.
    Character(String),
    /// Anything else.
    Other,
}

/// What a key press asks the player to do.
#[derive(Debug, Clone, Copy, PartialEq, Eq, Structural)]
pub enum Command {
    TogglePause,
    /// Seek by this many seconds.
    SeekBy(i32),
    /// Change the volume by this many points.
    ChangeVolume(i32),
    TogglePlaylist,
    LeaveFullscreen,
    ToggleMute,
    Screenshot,
    CycleAudio,
    CycleSubtitles,
    ToggleFullscreen,
    Next,
    /// Restart the track when well into it, else go back one.
    Previous,
    ToggleShuffle,
    CycleRepeat,
    SpeedDown,
    SpeedUp,
    SpeedReset,
    OpenFiles,
    OpenFolder,
    LoadSubtitles,
    ShowInfo,
    ShowHelp,
    Quit,
}

/// The command for a named key.
pub open spec fn named_command(k: KeyName) -> Command {
    match k {
        KeyName::Space => Command::TogglePause,
        KeyName::ArrowLeft => Command::SeekBy(-5i32),
        KeyName::ArrowRight => Command::SeekBy(5i32),
        KeyName::ArrowUp => Command::ChangeVolume(5i32),
        KeyName::ArrowDown => Command::ChangeVolume(-5i32),
        KeyName::Tab => Command::TogglePlaylist,
        KeyName::Escape => Command::LeaveFullscreen,
    }
}

/// The command for a character key, already in lower case.
pub open spec fn char_command(c: char) -> Option<Command> {
    if c == 'k' {
        Some(Command::TogglePause)
    } else if c == 'j' {
        Some(Command::SeekBy(-10i32))
    } else if c == 'l' {
        Some(Command::SeekBy(10i32))
    } else if c == 'm' {
        Some(Command::ToggleMute)
    } else if c == 'c' {
        Some(Command::Screenshot)
    } else if c == 'a' {
        Some(Command::CycleAudio)
    } else if c == 'v' {
        Some(Command::CycleSubtitles)
    } else if c == 'f' {
        Some(Command::ToggleFullscreen)
    } else if c == 'n' {
        Some(Command::Next)
    } else if c == 'p' {
        Some(Command::Previous)
    } else if c == 's' {
        Some(Command::ToggleShuffle)
    } else if c == 'r' {
        Some(Command::CycleRepeat)
    } else if c == '[' {
        Some(Command::SpeedDown)
    } else if c == ']' {
        Some(Command::SpeedUp)
    } else if c == '\\' {
        Some(Command::SpeedReset)
    } else if c == 'o' {
        Some(Command::OpenFiles)
    } else if c == 'd' {
        Some(Command::OpenFolder)
    } else if c == 'b' {
        Some(Command::LoadSubtitles)
    } else if c == 'i' {
        Some(Command::ShowInfo)
    } else if c == 'h' {
        Some(Command::ShowHelp)
    } else if c == 'q' {
        Some(Command::Quit)
    } else {
        None
    }
}

/// The command a key press stands for: named keys by name, character keys
/// by their single character without regard to ASCII case.
pub open spec fn key_command_of(key: KeyPress) -> Option<Command> {
    match key {
        KeyPress::Named(k) => Some(named_command(k)),
        KeyPress::Character(s) => {
            let l = lower_seq(s@);
            if l.len() == 1 {
                char_command(l[0])
            } else {
                None
            }
        },
        KeyPress::Other => None,
    }
}

/// How far a command seeks, in seconds; nothing for other commands.
pub open spec fn seek_of(c: Command) -> int {
    match c {
        Command::SeekBy(n) => n as int,
        _ => 0,
    }
}

/// How much a command changes the volume; nothing for other commands.
pub open spec fn volume_change_of(c: Command) -> int {
    match c {
        Command::ChangeVolume(n) => n as int,
        _ => 0,
    }
}

/// The seek and volume keys mirror each other: the right arrow seeks
/// forward five seconds and the left arrow back as far, L and J twice as far
/// each way; the up arrow raises the volume by as much as the down arrow
/// lowers it.
pub proof fn lemma_seek_and_volume_keys_mirror()
    ensures
        named_command(KeyName::ArrowRight) == Command::SeekBy(5),
        named_command(KeyName::ArrowLeft) is SeekBy,
        char_command('l') is Some && char_command('l')->0 is SeekBy,
        char_command('j') is Some && char_command('j')->0 is SeekBy,
        seek_of(named_command(KeyName::ArrowRight)) > 0,
        seek_of(named_command(KeyName::ArrowLeft)) == -seek_of(named_command(KeyName::ArrowRight)),
        seek_of(char_command('l')->0) == 2 * seek_of(named_command(KeyName::ArrowRight)),
        seek_of(char_command('j')->0) == -seek_of(char_command('l')->0),
        named_command(KeyName::ArrowUp) is ChangeVolume && named_command(KeyName::ArrowDown) is ChangeVolume,
        volume_change_of(named_command(KeyName::ArrowUp)) > 0,
        volume_change_of(named_command(KeyName::ArrowDown)) == -volume_change_of(named_command(KeyName::ArrowUp)),
{
}

/// Each key does what the keyboard table says: Space and K pause or resume,
/// Tab shows the playlist, Escape leaves fullscreen, and the letters M, C,
/// A, V, F, N, P, S, R, [, ], \\, O, D, B, I, H and Q mute, take a
/// screenshot, cycle the audio track and the subtitles, toggle fullscreen,
/// go to the next and the previous track, toggle shuffle, cycle repeat,
/// slow down, speed up and reset the speed, open files and a folder, load
/// subtitles, and show the position, the help and quit. No two keys of the
/// table share a command but Space and K.
pub proof fn lemma_keys_as_documented()
    ensures
        named_command(KeyName::Space) == Command::TogglePause,
        char_command('k') == Some(Command::TogglePause),
        named_command(KeyName::Tab) == Command::TogglePlaylist,
        named_command(KeyName::Escape) == Command::LeaveFullscreen,
        char_command('m') == Some(Command::ToggleMute),
        char_command('c') == Some(Command::Screenshot),
        char_command('a') == Some(Command::CycleAudio),
        char_command('v') == Some(Command::CycleSubtitles),
        char_command('f') == Some(Command::ToggleFullscreen),
        char_command('n') == Some(Command::Next),
        char_command('p') == Some(Command::Previous),
        char_command('s') == Some(Command::ToggleShuffle),
        char_command('r') == Some(Command::CycleRepeat),
        char_command('[') == Some(Command::SpeedDown),
        char_command(']') == Some(Command::SpeedUp),
        char_command('\\') == Some(Command::SpeedReset),
        char_command('o') == Some(Command::OpenFiles),
        char_command('d') == Some(Command::OpenFolder),
        char_command('b') == Some(Command::LoadSubtitles),
        char_command('i') == Some(Command::ShowInfo),
        char_command('h') == Some(Command::ShowHelp),
        char_command('q') == Some(Command::Quit),
        char_command('x') is None,
{
}

/// A letter key means the same in either case.
pub proof fn lemma_keys_ignore_case(s: String, t: String)
    requires
        s@.len() == 1,
        t@ == lower_seq(s@),
    ensures
        key_command_of(KeyPress::Character(s)) == key_command_of(KeyPress::Character(t)),
{
    let c = s@[0];
    assert(lower_seq(s@)[0] == ascii_lower(c));
    assert(lower_seq(t@)[0] == ascii_lower(ascii_lower(c)));
}

fn command_for_char(c: char) -> (r: Option<Command>)
    ensures
        r == char_command(c),
{
    match c {
        'k' => Some(Command::TogglePause),
        'j' => Some(Command::SeekBy(-10)),
        'l' => Some(Command::SeekBy(10)),
        'm' => Some(Command::ToggleMute),
        'c' => Some(Command::Screenshot),
        'a' => Some(Command::CycleAudio),
        'v' => Some(Command::CycleSubtitles),
        'f' => Some(Command::ToggleFullscreen),
        'n' => Some(Command::Next),
        'p' => Some(Command::Previous),
        's' => Some(Command::ToggleShuffle),
        'r' => Some(Command::CycleRepeat),
        '[' => Some(Command::SpeedDown),
        ']' => Some(Command::SpeedUp),
        '\\' => Some(Command::SpeedReset),
        'o' => Some(Command::OpenFiles),
        'd' => Some(Command::OpenFolder),
        'b' => Some(Command::LoadSubtitles),
        'i' => Some(Command::ShowInfo),
        'h' => Some(Command::ShowHelp),
        'q' => Some(Command::Quit),
        _ => None,
    }
}

/// What a key press asks the player to do, if anything.
pub fn key_command(key: &KeyPress) -> (r: Option<Command>)
    ensures
        r == key_command_of(*key),
{
    match key {
        KeyPress::Named(k) => Some(match k {
            KeyName::Space => Command::TogglePause,
            KeyName::ArrowLeft => Command::SeekBy(-5),
            KeyName::ArrowRight => Command::SeekBy(5),
            KeyName::ArrowUp => Command::ChangeVolume(5),
            KeyName::ArrowDown => Command::ChangeVolume(-5),
            KeyName::Tab => Command::TogglePlaylist,
            KeyName::Escape => Command::LeaveFullscreen,
        }),
        KeyPress::Character(s) => {
            let l = lower_chars(&chars_of(s.as_str()));
            if l.len() == 1 {
                command_for_char(l[0])
            } else {
                None
            }
        },
        KeyPress::Other => None,
    }
}

} // verus!
