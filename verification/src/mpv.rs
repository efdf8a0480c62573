//! The parts of driving libmpv that are decisions rather than calls: which
//! event an id names, which options a run starts with, and how the video
//! path is summarised for the log.

use vstd::prelude::*;

use crate::session::{signed_decimal, signed_decimal_of};
use crate::text::decimal_of;

verus! {

/// The opaque handle libmpv hands out. Only ever seen behind a pointer.
pub struct MpvHandle {
    _private: [u8; 0],
}

/// `mpv_format` values the player uses.
pub const MPV_FORMAT_STRING: i32 = 1;
pub const MPV_FORMAT_FLAG: i32 = 3;
pub const MPV_FORMAT_INT64: i32 = 4;
pub const MPV_FORMAT_DOUBLE: i32 = 5;

/// `mpv_event_id` values the player acts on.
pub const MPV_EVENT_NONE: i32 = 0;
pub const MPV_EVENT_SHUTDOWN: i32 = 1;
pub const MPV_EVENT_LOG_MESSAGE: i32 = 2;
pub const MPV_EVENT_END_FILE: i32 = 7;
pub const MPV_EVENT_FILE_LOADED: i32 = 8;
pub const MPV_EVENT_VIDEO_RECONFIG: i32 = 17;
pub const MPV_EVENT_PROPERTY_CHANGE: i32 = 22;

/// The `mpv_end_file_reason` that means "this file did not play"
/// (0 = end of file, 2 = stopped, 3 = quit, 5 = redirect).
pub const MPV_END_FILE_REASON_ERROR: i32 = 4;

/// Things the player wants to change about how mpv runs.
#[derive(Debug, Clone, Copy, Default)]
pub struct Config {
    /// Ask mpv for verbose logs (they end up in the log file).
    pub verbose: bool,
    /// Give up on the hardware/GPU paths entirely: the escape hatch for
    /// machines where D3D11 or hardware decoding misbehaves.
    pub safe_mode: bool,
}

/// A message from mpv's log.
#[derive(Debug, Clone)]
pub struct LogMessage {
    pub level: String,
    pub prefix: String,
    pub text: String,
}

/// Which kind of event an `mpv_event_id` names.
#[derive(Debug, Clone, Copy, PartialEq, Eq, Structural)]
pub enum EventKind {
    /// The queue is empty.
    Nothing,
    Shutdown,
    LogMessage,
    EndFile,
    FileLoaded,
    VideoReconfig,
    PropertyChange,
    /// An event the player does not act on.
    Other,
}

/// The kind of event `id` names.
pub open spec fn kind_of(id: i32) -> EventKind {
    if id == MPV_EVENT_NONE {
        EventKind::Nothing
    } else if id == MPV_EVENT_SHUTDOWN {
        EventKind::Shutdown
    } else if id == MPV_EVENT_LOG_MESSAGE {
        EventKind::LogMessage
    } else if id == MPV_EVENT_END_FILE {
        EventKind::EndFile
    } else if id == MPV_EVENT_FILE_LOADED {
        EventKind::FileLoaded
    } else if id == MPV_EVENT_VIDEO_RECONFIG {
        EventKind::VideoReconfig
    } else if id == MPV_EVENT_PROPERTY_CHANGE {
        EventKind::PropertyChange
    } else {
        EventKind::Other
    }
}

/// Classifies an event id from `mpv_wait_event`.
pub fn event_kind(id: i32) -> (r: EventKind)
    ensures
        r == kind_of(id),
{
    if id == MPV_EVENT_NONE {
        EventKind::Nothing
    } else if id == MPV_EVENT_SHUTDOWN {
        EventKind::Shutdown
    } else if id == MPV_EVENT_LOG_MESSAGE {
        EventKind::LogMessage
    } else if id == MPV_EVENT_END_FILE {
        EventKind::EndFile
    } else if id == MPV_EVENT_FILE_LOADED {
        EventKind::FileLoaded
    } else if id == MPV_EVENT_VIDEO_RECONFIG {
        EventKind::VideoReconfig
    } else if id == MPV_EVENT_PROPERTY_CHANGE {
        EventKind::PropertyChange
    } else {
        EventKind::Other
    }
}

/// The one-line description of the video path that goes into the log.
pub open spec fn summary_of(vo: Seq<char>, hwdec: Seq<char>, format: Seq<char>, width: int, height: int) -> Seq<char> {
    if width > 0 && height > 0 {
        "vo="@ + vo + " hwdec="@ + hwdec + " format="@ + format + " "@ + crate::text::decimal(width as nat)
            + "x"@ + crate::text::decimal(height as nat)
    } else {
        "vo="@ + vo + " hwdec="@ + hwdec + " (no video track)"@
    }
}

/// Describes the video path for the log: output, decoder, pixel format and
/// size, or that there is no video track.
pub fn frame_summary(vo: &str, hwdec: &str, format: &str, width: i64, height: i64) -> (r: String)
    ensures
        r@ == summary_of(vo@, hwdec@, format@, width as int, height as int),
{
    let mut r = String::from_str("vo=");
    r.append(vo);
    r.append(" hwdec=");
    r.append(hwdec);
    if width > 0 && height > 0 {
        r.append(" format=");
        r.append(format);
        r.append(" ");
        r.append(decimal_of(width as u64).as_str());
        r.append("x");
        r.append(decimal_of(height as u64).as_str());
    } else {
        r.append(" (no video track)");
    }
    r
}

/// What to do when mpv refuses an option.
#[derive(Debug, Clone, Copy, PartialEq, Eq)]
pub enum OnRefusal {
    /// Carry on without it.
    Ignore,
    /// Carry on, and say so in the log.
    Warn,
    /// Say so in the log, then try this value instead (warning if that is
    /// refused too).
    Fallback(&'static str),
    /// Give up starting: the start fails with this message, followed by
    /// ": " and what mpv said.
    Fail(&'static str),
}

/// Why the start fails when mpv will not embed its output in our window.
pub const EMBED_FAILED: &'static str = "could not embed the video output into our window";

/// One option to hand mpv before it is initialised.
#[derive(Debug, Clone, PartialEq, Eq)]
pub struct OptionStep {
    pub key: &'static str,
    pub value: String,
    pub on_refusal: OnRefusal,
}

/// An option step as values: its key, its value and what a refusal means.
pub type StepView = (Seq<char>, Seq<char>, OnRefusal);

impl View for OptionStep {
    type V = StepView;

    open spec fn view(&self) -> StepView {
        (self.key@, self.value@, self.on_refusal)
    }
}

/// The steps in order, as values.
pub open spec fn step_views(steps: Seq<OptionStep>) -> Seq<StepView> {
    steps.map_values(|x: OptionStep| x@)
}

/// The options a run starts mpv with, in order.
///
/// First, before anything else, mpv is embedded in our window `wid`, given
/// in decimal; this is the one option insisted on, since without it the
/// video ends up in a window of mpv's own and ours stays blank, so a
/// refusal fails the start. Safe mode turns hardware decoding off and takes
/// the plain GPU path. Otherwise decoding is hardware-accelerated and the
/// video output is given as a list, so that if gpu-next cannot start mpv
/// falls through to gpu and then to anything else it finds; should even the
/// list be refused, plain gpu is tried. The rest keeps mpv quiet (unless
/// verbose), free of its own key bindings and on-screen controller, alive
/// between files, out of the resume business (the player keeps its own),
/// and on a modest cache.
pub open spec fn startup_plan(wid: int, config: Config) -> Seq<StepView> {
    let video = if config.safe_mode {
        seq![
            ("hwdec"@, "no"@, OnRefusal::Warn),
            ("vo"@, "gpu"@, OnRefusal::Warn),
            ("gpu-api"@, "auto"@, OnRefusal::Warn),
        ]
    } else {
        seq![("hwdec"@, "auto-safe"@, OnRefusal::Warn), ("vo"@, "gpu-next,gpu,"@, OnRefusal::Fallback("gpu,"))]
    };
    let terminal = if config.verbose { "yes"@ } else { "no"@ };
    seq![("wid"@, signed_decimal(wid), OnRefusal::Fail(EMBED_FAILED))] + video + seq![
        ("terminal"@, terminal, OnRefusal::Ignore),
        ("input-default-bindings"@, "no"@, OnRefusal::Ignore),
        ("input-vo-keyboard"@, "no"@, OnRefusal::Ignore),
        ("osc"@, "no"@, OnRefusal::Ignore),
        ("idle"@, "yes"@, OnRefusal::Ignore),
        ("force-window"@, "yes"@, OnRefusal::Ignore),
        ("save-position-on-quit"@, "no"@, OnRefusal::Ignore),
        ("cache"@, "yes"@, OnRefusal::Ignore),
        ("demuxer-max-bytes"@, "64MiB"@, OnRefusal::Ignore),
        ("demuxer-readahead-secs"@, "20"@, OnRefusal::Ignore),
    ]
}

/// Whatever the window and the settings, mpv stays alive between files, so
/// the playlist can go on: the plan sets "idle" to "yes", and no step sets
/// it to anything else.
pub proof fn lemma_mpv_stays_idle(wid: int, config: Config)
    ensures
        exists|k: int|
            0 <= k < startup_plan(wid, config).len() && #[trigger] startup_plan(wid, config)[k] == (
                "idle"@,
                "yes"@,
                OnRefusal::Ignore,
            ),
        forall|k: int|
            0 <= k < startup_plan(wid, config).len() && (#[trigger] startup_plan(wid, config)[k]).0 == "idle"@
                ==> startup_plan(wid, config)[k].1 == "yes"@,
{
    reveal_strlit("wid");
    reveal_strlit("hwdec");
    reveal_strlit("vo");
    reveal_strlit("gpu-api");
    reveal_strlit("terminal");
    reveal_strlit("input-default-bindings");
    reveal_strlit("input-vo-keyboard");
    reveal_strlit("osc");
    reveal_strlit("idle");
    reveal_strlit("force-window");
    reveal_strlit("save-position-on-quit");
    reveal_strlit("cache");
    reveal_strlit("demuxer-max-bytes");
    reveal_strlit("demuxer-readahead-secs");
    let p = startup_plan(wid, config);
    let k: int = if config.safe_mode { 8 } else { 7 };
    assert(p[k] == ("idle"@, "yes"@, OnRefusal::Ignore));
    // Of all the keys, only "idle" has four characters.
    assert forall|j: int| 0 <= j < p.len() && (#[trigger] p[j]).0 == "idle"@ implies p[j].1 == "yes"@ by {
        assert(p[j].0.len() == 4);
    }
}

/// The plan decodes in hardware unless in safe mode, which takes software
/// decoding and the plain GPU path; mpv talks on the terminal only when
/// verbose, and never takes keys or draws controls of its own.
pub proof fn lemma_mpv_modes(wid: int, config: Config)
    ensures
        startup_plan(wid, config)[1] == ("hwdec"@, (if config.safe_mode { "no"@ } else { "auto-safe"@ }), OnRefusal::Warn),
        config.safe_mode ==> startup_plan(wid, config)[2] == ("vo"@, "gpu"@, OnRefusal::Warn),
        !config.safe_mode ==> startup_plan(wid, config)[2].0 == "vo"@ && startup_plan(wid, config)[2].1
            == "gpu-next,gpu,"@,
        exists|k: int|
            0 <= k < startup_plan(wid, config).len() && #[trigger] startup_plan(wid, config)[k] == (
                "terminal"@,
                (if config.verbose { "yes"@ } else { "no"@ }),
                OnRefusal::Ignore,
            ),
        exists|k: int|
            0 <= k < startup_plan(wid, config).len() && #[trigger] startup_plan(wid, config)[k] == (
                "input-default-bindings"@,
                "no"@,
                OnRefusal::Ignore,
            ),
        exists|k: int|
            0 <= k < startup_plan(wid, config).len() && #[trigger] startup_plan(wid, config)[k] == (
                "osc"@,
                "no"@,
                OnRefusal::Ignore,
            ),
        forall|k: int|
            1 <= k < startup_plan(wid, config).len() ==> !((#[trigger] startup_plan(wid, config)[k]).2 is Fail),
{
    let p = startup_plan(wid, config);
    let b: int = if config.safe_mode { 4 } else { 3 };
    assert(p[b] == ("terminal"@, (if config.verbose { "yes"@ } else { "no"@ }), OnRefusal::Ignore));
    assert(p[b + 1] == ("input-default-bindings"@, "no"@, OnRefusal::Ignore));
    assert(p[b + 3] == ("osc"@, "no"@, OnRefusal::Ignore));
}

fn step(key: &'static str, value: &str, on_refusal: OnRefusal) -> (r: OptionStep)
    ensures
        r@ == (key@, value@, on_refusal),
{
    OptionStep { key, value: String::from_str(value), on_refusal }
}

/// The options to start mpv with, embedded in the window `wid`, under
/// `config`, in order. The first embeds mpv, and its refusal is fatal.
pub fn startup_options(wid: i64, config: Config) -> (r: Vec<OptionStep>)
    ensures
        step_views(r@) == startup_plan(wid as int, config),
        r@[0]@ == ("wid"@, signed_decimal(wid as int), OnRefusal::Fail(EMBED_FAILED)),
{
    let mut r: Vec<OptionStep> = Vec::new();
    r.push(OptionStep { key: "wid", value: signed_decimal_of(wid), on_refusal: OnRefusal::Fail(EMBED_FAILED) });
    if config.safe_mode {
        r.push(step("hwdec", "no", OnRefusal::Warn));
        r.push(step("vo", "gpu", OnRefusal::Warn));
        r.push(step("gpu-api", "auto", OnRefusal::Warn));
    } else {
        r.push(step("hwdec", "auto-safe", OnRefusal::Warn));
        r.push(step("vo", "gpu-next,gpu,", OnRefusal::Fallback("gpu,")));
    }
    let terminal = if config.verbose { "yes" } else { "no" };
    r.push(step("terminal", terminal, OnRefusal::Ignore));
    r.push(step("input-default-bindings", "no", OnRefusal::Ignore));
    r.push(step("input-vo-keyboard", "no", OnRefusal::Ignore));
    r.push(step("osc", "no", OnRefusal::Ignore));
    r.push(step("idle", "yes", OnRefusal::Ignore));
    r.push(step("force-window", "yes", OnRefusal::Ignore));
    r.push(step("save-position-on-quit", "no", OnRefusal::Ignore));
    r.push(step("cache", "yes", OnRefusal::Ignore));
    r.push(step("demuxer-max-bytes", "64MiB", OnRefusal::Ignore));
    r.push(step("demuxer-readahead-secs", "20", OnRefusal::Ignore));
    assert(step_views(r@) =~= startup_plan(wid as int, config));
    r
}

/// The level of mpv's log the player subscribes to: everything mpv says
/// about itself when verbose, its informational messages otherwise.
pub fn log_level(config: Config) -> (r: &'static str)
    ensures
        r@ == (if config.verbose { "v"@ } else { "info"@ }),
{
    if config.verbose {
        "v"
    } else {
        "info"
    }
}

} // verus!
