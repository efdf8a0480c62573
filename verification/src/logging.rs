//! What goes into the log: `[level] message` lines, which of them are worth
//! showing on stderr too, and where the log file lives.

use vstd::prelude::*;

use crate::text::{
    chars_of, concat, ends_with, joined_under, plain_name, push_char, same_text, spaces, trim_line_end,
    trim_line_end_of,
};

verus! {

/// The name of the log file inside the player's configuration folder.
pub const FILE_NAME: &'static str = "larrez.log";

/// The folder, inside the user's configuration directory, that holds the
/// player's files.
pub const APP_DIR: &'static str = "LarrezPlayer";

/// The size past which the log is started afresh at the next run, rather
/// than growing forever.
pub const MAX_BYTES: u64 = 524288;

/// Whether a log of `len` bytes has outgrown `MAX_BYTES` and is to be
/// started afresh.
pub fn too_long(len: u64) -> (r: bool)
    ensures
        r == (len > MAX_BYTES),
{
    len > MAX_BYTES
}

/// Shown in place of the log's path when there is no configuration directory.
pub const NO_CONFIG_DIR: &'static str = "(no config directory available)";

/// `[level] message`, the level padded to five characters so the messages
/// line up when reading the file.
pub open spec fn line_of(level: Seq<char>, message: Seq<char>) -> Seq<char> {
    let pad = if level.len() < 5 { (5 - level.len()) as nat } else { 0 };
    seq!['['] + level + spaces(pad) + seq![']', ' '] + message
}

/// Levels that report a problem.
pub open spec fn is_problem(level: Seq<char>) -> bool {
    level == "warn"@ || level == "error"@ || level == "fatal"@
}

/// Lines line up: for every level of up to five characters, the line is
/// the level in brackets, padded so that the message always starts at the
/// ninth character.
pub proof fn lemma_lines_line_up(level: Seq<char>, message: Seq<char>)
    requires
        level.len() <= 5,
    ensures
        line_of(level, message).len() == 8 + message.len(),
        line_of(level, message)[0] == '[',
        line_of(level, message).subrange(1, 1 + level.len() as int) == level,
        line_of(level, message).subrange(6, 8) == seq![']', ' '],
        line_of(level, message).skip(8) == message,
{
    let l = line_of(level, message);
    let pad = (5 - level.len()) as nat;
    assert(l =~= seq!['['] + level + spaces(pad) + seq![']', ' '] + message);
    assert(l.subrange(1, 1 + level.len() as int) =~= level);
    assert(l.subrange(6, 8) =~= seq![']', ' ']);
    assert(l.skip(8) =~= message);
}

/// Formats one log line: `[level] message`, the level padded to five
/// characters.
pub fn format_line(level: &str, message: &str) -> (r: String)
    ensures
        r@ == line_of(level@, message@),
{
    let mut r = String::new();
    push_char(&mut r, '[');
    r.append(level);
    let lc = chars_of(level);
    let mut n: usize = lc.len();
    let ghost start = r@;
    while n < 5
        invariant
            lc@.len() <= n <= 5 || (n == lc@.len() && n >= 5),
            r@ == start + spaces((n - lc@.len()) as nat),
        decreases 5 - n,
    {
        push_char(&mut r, ' ');
        assert(spaces((n + 1 - lc@.len()) as nat) =~= spaces((n - lc@.len()) as nat).push(' '));
        n = n + 1;
    }
    push_char(&mut r, ']');
    push_char(&mut r, ' ');
    r.append(message);
    assert(r@ =~= line_of(level@, message@));
    r
}

/// Problems are worth showing on stderr as well as in the file.
pub fn should_mirror(level: &str) -> (r: bool)
    ensures
        r == is_problem(level@),
{
    same_text(level, "warn") || same_text(level, "error") || same_text(level, "fatal")
}

/// Where the log is written this run.
#[derive(Clone, Copy, Debug)]
pub struct Sink {
    /// The log file could be opened.
    pub has_file: bool,
    /// Everything goes to stderr as well, not only problems.
    pub verbose: bool,
}

/// One line to log, and where it goes.
#[derive(Debug)]
pub struct LogWrite {
    pub line: String,
    pub to_file: bool,
    pub to_stderr: bool,
}

/// Logs one line. Before the sink is set up (`sink` is `None`) stderr is all
/// there is; after, the line goes to the file when there is one, and to
/// stderr when it reports a problem or the run is verbose.
pub fn log(level: &str, message: &str, sink: Option<Sink>) -> (r: LogWrite)
    ensures
        r.line@ == line_of(level@, message@),
        match sink {
            Some(s) => r.to_file == s.has_file && r.to_stderr == (is_problem(level@) || s.verbose),
            None => !r.to_file && r.to_stderr,
        },
{
    let line = format_line(level, message);
    let mirror = should_mirror(level);
    match sink {
        Some(s) => LogWrite { line, to_file: s.has_file, to_stderr: mirror || s.verbose },
        None => LogWrite { line, to_file: false, to_stderr: true },
    }
}

/// Logs a message that came from mpv: its prefix, then its text without the
/// line break mpv ends it with.
pub fn log_mpv(level: &str, prefix: &str, text: &str, sink: Option<Sink>) -> (r: LogWrite)
    ensures
        r.line@ == line_of(level@, prefix@ + trim_line_end(text@)),
        match sink {
            Some(s) => r.to_file == s.has_file && r.to_stderr == (is_problem(level@) || s.verbose),
            None => !r.to_file && r.to_stderr,
        },
{
    let body = trim_line_end_of(text);
    let message = concat(prefix, body.as_str());
    log(level, message.as_str(), sink)
}

/// `dirs::config_dir`: the user's configuration directory, when the platform
/// has one (on Windows the roaming application-data folder). It depends on
/// the machine and the environment, so nothing is claimed about it.
#[verifier::external_body]
pub(crate) fn config_dir() -> Option<String> {
    match dirs::config_dir() {
        Some(d) => Some(d.to_string_lossy().into_owned()),
        None => None,
    }
}

/// `Path::join`: `child` added to `base` as one more component. For a plain
/// name `child` (never absolute) `base` is extended, so the result opens as
/// `base` does and ends with `child`; when `base` does not open with a
/// backslash (a Windows verbatim path, whose components are rebuilt), it is
/// `base` and `child` with the platform's separator between them where one
/// is needed (`joined_under`).
#[verifier::external_body]
pub(crate) fn join_path(base: &str, child: &str) -> (r: String)
    ensures
        plain_name(child@) ==> ends_with(r@, child@),
        plain_name(child@) && base@.len() > 0 ==> r@.len() > 0 && r@[0] == base@[0],
        plain_name(child@) && !(base@.len() > 0 && base@[0] == '\\') ==> joined_under(r@, base@, child@),
{
    std::path::Path::new(base).join(child).to_string_lossy().into_owned()
}

/// `p` is the log file in the player's folder: it ends with the folder's
/// name, a separator, and the file's name.
pub open spec fn in_player_folder(p: Seq<char>) -> bool {
    ||| ends_with(p, APP_DIR@ + seq!['/'] + FILE_NAME@)
    ||| ends_with(p, APP_DIR@ + seq!['\\'] + FILE_NAME@)
}

/// The log file inside the configuration directory `config`: `larrez.log`
/// in the player's folder there.
pub fn log_path_in(config: &str) -> (r: String)
    ensures
        ends_with(r@, FILE_NAME@),
        !(config@.len() > 0 && config@[0] == '\\') ==> in_player_folder(r@) && exists|app: Seq<char>|
            joined_under(app, config@, APP_DIR@) && #[trigger] joined_under(r@, app, FILE_NAME@),
        config@.len() > 0 && config@[0] == '\\' ==> r@.len() > 0 && r@[0] == '\\',
{
    proof {
        reveal_strlit("LarrezPlayer");
        reveal_strlit("larrez.log");
        assert(!APP_DIR@.contains('/') && !APP_DIR@.contains('\\') && !APP_DIR@.contains(':'));
        assert(!FILE_NAME@.contains('/') && !FILE_NAME@.contains('\\') && !FILE_NAME@.contains(':'));
        assert(APP_DIR@.len() == 12 && FILE_NAME@.len() == 10);
        assert(seq!['.'].len() == 1 && seq!['.', '.'].len() == 2);
    }
    let app = join_path(config, APP_DIR);
    let r = join_path(app.as_str(), FILE_NAME);
    proof {
        if !(config@.len() > 0 && config@[0] == '\\') {
            if config@.len() > 0 {
                assert(app@[0] == config@[0]);
            } else {
                assert(app@[0] == 'L');
            }
            // The folder's name ends the folder's path, so a separator goes
            // between it and the file's name.
            let x = app@.take(app@.len() - 12);
            assert(app@ =~= x + APP_DIR@);
            assert(app@.last() == 'r');
            let t = APP_DIR@ + seq!['/'] + FILE_NAME@;
            let b = APP_DIR@ + seq!['\\'] + FILE_NAME@;
            if r@ == app@ + seq!['/'] + FILE_NAME@ {
                assert(r@ =~= x + t);
                assert(r@.skip(r@.len() - t.len()) =~= t);
            } else {
                assert(r@ =~= x + b);
                assert(r@.skip(r@.len() - b.len()) =~= b);
            }
        }
    }
    r
}

/// Where the log lives: `larrez.log` in the player's folder inside the
/// configuration directory, when there is one. Only where that directory
/// opens with a backslash (a Windows verbatim path) is no more than the file
/// name claimed.
pub fn path() -> (r: Option<String>)
    ensures
        r matches Some(p) ==> ends_with(p@, FILE_NAME@) && (p@[0] == '\\' || in_player_folder(p@)),
{
    match config_dir() {
        Some(d) => Some(log_path_in(d.as_str())),
        None => None,
    }
}

/// The log's path as text, for telling users where to look.
pub fn path_display() -> (r: String)
    ensures
        r@ == NO_CONFIG_DIR@ || (ends_with(r@, FILE_NAME@) && (r@[0] == '\\' || in_player_folder(r@))),
{
    match path() {
        Some(p) => p,
        None => String::from_str(NO_CONFIG_DIR),
    }
}

} // verus!
