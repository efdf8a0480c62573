//! The decisions the player's event loop makes between talking to mpv:
//! noticing that the video output is never coming, what follows a finished
//! file, and the short notices shown over the video.

use vstd::prelude::*;

use crate::cli::{is_fatal_vo_message, video_output_died};
use crate::mpv::MPV_END_FILE_REASON_ERROR;
use crate::playlist::{Playlist, repeat_after, repeat_label};
use crate::text::{concat, decimal, decimal_of};

verus! {

/// Whether the video output has come up, and whether its failure has been
/// reported already: a failure is reported once, not on every message.
#[derive(Debug, Clone, Copy, PartialEq, Eq, Structural)]
pub struct VoWatch {
    pub ready: bool,
    pub reported: bool,
}

impl VoWatch {
    /// Nothing seen yet.
    pub fn new() -> (w: VoWatch)
        ensures
            !w.ready && !w.reported,
    {
        VoWatch { ready: false, reported: false }
    }

    /// A line of mpv's log arrived. If no picture has ever appeared and the
    /// line says one never will, report it, once.
    pub fn on_log(&mut self, text: &str) -> (report: bool)
        ensures
            report == (!old(self).ready && !old(self).reported && is_fatal_vo_message(text@)),
            final(self).ready == old(self).ready,
            final(self).reported == (old(self).reported || report),
    {
        if !self.ready && !self.reported && video_output_died(text) {
            self.reported = true;
            true
        } else {
            false
        }
    }

    /// mpv said whether a video output is configured (`None`: the property
    /// came without a value). Returns whether the output has just come up,
    /// which is worth a line in the log; coming up also allows a later
    /// failure to be reported again.
    pub fn on_vo_configured(&mut self, configured: Option<bool>) -> (came_up: bool)
        ensures
            came_up == (configured == Some(true) && !old(self).ready),
            configured == Some(true) ==> final(self).ready && final(self).reported == (old(self).reported
                && old(self).ready),
            configured == Some(false) ==> !final(self).ready && final(self).reported == old(self).reported,
            configured is None ==> *final(self) == *old(self),
    {
        match configured {
            Some(true) => {
                if !self.ready {
                    self.ready = true;
                    self.reported = false;
                    true
                } else {
                    false
                }
            },
            Some(false) => {
                self.ready = false;
                false
            },
            None => false,
        }
    }

    /// The tick. `loaded_too_long` says a file has been loaded for longer
    /// than the grace period. With still no picture, that is reported, once.
    pub fn on_tick(&mut self, loaded_too_long: bool) -> (report: bool)
        ensures
            report == (!old(self).ready && !old(self).reported && loaded_too_long),
            final(self).ready == old(self).ready,
            final(self).reported == (old(self).reported || report),
    {
        if !self.ready && !self.reported && loaded_too_long {
            self.reported = true;
            true
        } else {
            false
        }
    }
}

/// A failure is reported at most once until the output comes up: whatever
/// arrives next, a watch that has reported stays quiet.
pub proof fn lemma_report_once(w: VoWatch, text: Seq<char>, loaded_too_long: bool)
    requires
        w.reported,
    ensures
        !(!w.ready && !w.reported && is_fatal_vo_message(text)),
        !(!w.ready && !w.reported && loaded_too_long),
{
}

/// What follows a file that stopped playing.
#[derive(Debug, Clone, Copy, PartialEq, Eq, Structural)]
pub enum AfterFile {
    /// Play this entry next.
    Play(usize),
    /// The playlist is over.
    Stop,
    /// The file did not play. The player says which one and waits for the
    /// user, rather than racing through a playlist of broken files.
    Failed,
}

/// Decides what follows a file that stopped for `reason`: a failure stops
/// and waits; otherwise the playlist advances as a track that ended by
/// itself does.
pub fn after_end_file(reason: i32, pl: &Playlist) -> (r: AfterFile)
    ensures
        reason == MPV_END_FILE_REASON_ERROR <==> r == AfterFile::Failed,
        reason != MPV_END_FILE_REASON_ERROR ==> exists|seed: int|
            #![trigger pl.next_with_seed(true, seed)]
            match r {
                AfterFile::Play(n) => pl.next_with_seed(true, seed) == Some(n as int),
                AfterFile::Stop => pl.next_with_seed(true, seed) is None,
                AfterFile::Failed => false,
            },
{
    if reason == MPV_END_FILE_REASON_ERROR {
        return AfterFile::Failed;
    }
    match pl.next_index(true) {
        Some(n) => AfterFile::Play(n),
        None => AfterFile::Stop,
    }
}

/// `n` in decimal, with a minus sign when negative.
pub open spec fn signed_decimal(n: int) -> Seq<char> {
    if n < 0 {
        seq!['-'] + decimal((-n) as nat)
    } else {
        decimal(n as nat)
    }
}

/// Writes `n` in decimal, with a minus sign when negative.
pub fn signed_decimal_of(n: i64) -> (r: String)
    ensures
        r@ == signed_decimal(n as int),
{
    if n < 0 {
        let m: u64 = if n == i64::MIN { 9223372036854775808u64 } else { (-n) as u64 };
        let d = decimal_of(m);
        let mut r = String::new();
        crate::text::push_char(&mut r, '-');
        r.append(d.as_str());
        assert(r@ =~= seq!['-'] + d@);
        r
    } else {
        decimal_of(n as u64)
    }
}

/// The notice over the video when a file could not be played.
pub fn could_not_play_notice(name: &str) -> (r: String)
    ensures
        r@ == "Could not play "@ + name@ + " \u{2014} press N for the next file"@,
{
    let mut r = String::from_str("Could not play ");
    r.append(name);
    r.append(" \u{2014} press N for the next file");
    r
}

/// The log line for a file that ended: `finished <name> (reason <n>)`.
pub fn finished_log_line(name: &str, reason: i32) -> (r: String)
    ensures
        r@ == "finished "@ + name@ + " (reason "@ + signed_decimal(reason as int) + ")"@,
{
    let mut r = String::from_str("finished ");
    r.append(name);
    r.append(" (reason ");
    r.append(signed_decimal_of(reason as i64).as_str());
    r.append(")");
    r
}

/// The log line for a file that failed to play: its name, mpv's error text
/// and the end reason.
pub fn failed_log_line(name: &str, error: &str, reason: i32) -> (r: String)
    ensures
        r@ == name@ + ": playback failed \u{2014} "@ + error@ + " (reason "@ + signed_decimal(reason as int) + ")"@,
{
    let mut r = String::from_str(name);
    r.append(": playback failed \u{2014} ");
    r.append(error);
    r.append(" (reason ");
    r.append(signed_decimal_of(reason as i64).as_str());
    r.append(")");
    r
}

/// The notice after files were added: `Added <n> file(s)`.
pub fn added_notice(n: usize) -> (r: String)
    ensures
        r@ == "Added "@ + decimal(n as nat) + " file(s)"@,
{
    let mut r = String::from_str("Added ");
    r.append(decimal_of(n as u64).as_str());
    r.append(" file(s)");
    r
}

/// The notice after subtitles were loaded: `Subtitles: <name>`.
pub fn subtitles_notice(name: &str) -> (r: String)
    ensures
        r@ == "Subtitles: "@ + name@,
{
    concat("Subtitles: ", name)
}

impl Playlist {
    /// Turns shuffle on or off, and returns the notice to show:
    /// `Shuffle on` or `Shuffle off`.
    pub fn toggle_shuffle(&mut self) -> (notice: String)
        ensures
            final(self).shuffle == !old(self).shuffle,
            final(self).items == old(self).items,
            final(self).current == old(self).current,
            final(self).repeat == old(self).repeat,
            notice@ == "Shuffle "@ + (if final(self).shuffle { "on"@ } else { "off"@ }),
    {
        self.shuffle = !self.shuffle;
        if self.shuffle {
            concat("Shuffle ", "on")
        } else {
            concat("Shuffle ", "off")
        }
    }

    /// Moves repeat on to its next mode, and returns the notice to show:
    /// `Repeat: <label>`.
    pub fn cycle_repeat(&mut self) -> (notice: String)
        ensures
            final(self).repeat == repeat_after(old(self).repeat),
            final(self).items == old(self).items,
            final(self).current == old(self).current,
            final(self).shuffle == old(self).shuffle,
            notice@ == "Repeat: "@ + repeat_label(final(self).repeat),
    {
        self.repeat = self.repeat.next();
        concat("Repeat: ", self.repeat.label())
    }
}

} // verus!
