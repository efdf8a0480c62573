//! The playlist: which files count as playable, the entries in play order,
//! and where "next" and "previous" go under shuffle and repeat.

use vstd::prelude::*;

use vstd::arithmetic::div_mod::{lemma_mod_bound, lemma_small_mod};

use crate::clock::clock_seed;
use crate::natural::{sort_naturally, sorted_naturally, stable_rearrangement};
use crate::text::{chars_of, lower_chars, lower_seq, plain_name, same_chars, same_text, texts};

verus! {

/// Containers that libmpv/ffmpeg handles. If ffmpeg can demux it, it plays.
pub const VIDEO_EXTS: [&'static str; 25] = [
    "mp4", "m4v", "mkv", "webm", "avi", "mov", "wmv", "flv", "ts", "m2ts", "mts", "mpg", "mpeg",
    "vob", "ogv", "ogm", "rm", "rmvb", "asf", "3gp", "3g2", "divx", "f4v", "mxf", "y4m",
];

/// Subtitle formats that can be loaded beside a video.
pub const SUB_EXTS: [&'static str; 7] = ["srt", "ass", "ssa", "sub", "vtt", "idx", "sup"];

/// Index of the last '.' in `s`, or -1 when there is none.
pub open spec fn last_dot(s: Seq<char>) -> int
    decreases s.len(),
{
    if s.len() == 0 {
        -1
    } else if s.last() == '.' {
        s.len() - 1
    } else {
        last_dot(s.drop_last())
    }
}

/// The extension of a file name: what follows its final '.', unless there is
/// no '.' at all or the only one starts the name (".hidden").
pub open spec fn extension(name: Seq<char>) -> Option<Seq<char>> {
    let i = last_dot(name);
    if i <= 0 {
        None
    } else {
        Some(name.skip(i + 1))
    }
}

/// Whether `ext`, ignoring ASCII case, is one of `list`.
pub open spec fn listed(ext: Seq<char>, list: Seq<&str>) -> bool {
    exists|i: int| 0 <= i < list.len() && list[i]@ == lower_seq(ext)
}

/// Whether a file name carries one of the extensions in `list`.
pub open spec fn has_extension_in(name: Seq<char>, list: Seq<&str>) -> bool {
    match extension(name) {
        Some(e) => listed(e, list),
        None => false,
    }
}

/// The extension of the file name `name`, as `extension` describes it.
pub fn extension_of(name: &Vec<char>) -> (r: Option<Vec<char>>)
    ensures
        match r {
            Some(e) => extension(name@) == Some(e@),
            None => extension(name@) is None,
        },
{
    let mut i: usize = name.len();
    assert(name@.take(i as int) =~= name@);
    while i > 0 && name[i - 1] != '.'
        invariant
            i <= name@.len(),
            last_dot(name@) == last_dot(name@.take(i as int)),
        decreases i,
    {
        proof {
            assert(name@.take(i as int).drop_last() =~= name@.take(i - 1));
        }
        i = i - 1;
    }
    proof {
        if i > 0 {
            assert(name@.take(i as int).last() == '.');
        }
    }
    if i <= 1 {
        return None;
    }
    let mut e: Vec<char> = Vec::new();
    let mut k: usize = i;
    while k < name.len()
        invariant
            i <= k <= name@.len(),
            e@ == name@.subrange(i as int, k as int),
        decreases name@.len() - k,
    {
        e.push(name[k]);
        proof {
            assert(name@.subrange(i as int, k + 1) =~= name@.subrange(i as int, k as int).push(name@[k as int]));
        }
        k = k + 1;
    }
    assert(e@ =~= name@.skip(i as int));
    Some(e)
}

/// Whether `ext`, ignoring ASCII case, is one of `list`.
pub fn is_listed(ext: &Vec<char>, list: &[&str]) -> (r: bool)
    ensures
        r == listed(ext@, list@),
{
    let low = lower_chars(ext);
    let mut i: usize = 0;
    while i < list.len()
        invariant
            i <= list@.len(),
            low@ == lower_seq(ext@),
            forall|k: int| 0 <= k < i ==> list@[k]@ != lower_seq(ext@),
        decreases list@.len() - i,
    {
        let cand = chars_of(list[i]);
        if same_chars(&cand, &low) {
            return true;
        }
        i = i + 1;
    }
    false
}

/// Whether the file name `name` carries one of the extensions in `list`.
pub fn name_has_extension_in(name: &str, list: &[&str]) -> (r: bool)
    ensures
        r == has_extension_in(name@, list@),
{
    let cs = chars_of(name);
    match extension_of(&cs) {
        Some(e) => is_listed(&e, list),
        None => false,
    }
}

/// Whether `path` is a Windows verbatim path, opening with `\\?\`, in which
/// '/' is an ordinary character rather than a separator.
pub open spec fn verbatim(path: Seq<char>) -> bool {
    path.len() >= 4 && path[0] == '\\' && path[1] == '\\' && path[2] == '?' && path[3] == '\\'
}

/// Whether `n` is a stretch of `path` that can be one of its components: it
/// holds no '/', unless the path is verbatim.
pub open spec fn is_component_of(n: Seq<char>, path: Seq<char>) -> bool {
    &&& !verbatim(path) ==> !n.contains('/')
    &&& exists|i: int| 0 <= i && i + n.len() <= path.len() && #[trigger] path.subrange(i, i + n.len()) == n
}

/// Index of the last '/' in `s`, or -1 when there is none.
pub open spec fn last_slash(s: Seq<char>) -> int
    decreases s.len(),
{
    if s.len() == 0 {
        -1
    } else if s.last() == '/' {
        s.len() - 1
    } else {
        last_slash(s.drop_last())
    }
}

/// Index of the last separator, '/' or '\\', in `s`, or -1 when there is
/// none.
pub open spec fn last_separator(s: Seq<char>) -> int
    decreases s.len(),
{
    if s.len() == 0 {
        -1
    } else if s.last() == '/' || s.last() == '\\' {
        s.len() - 1
    } else {
        last_separator(s.drop_last())
    }
}

/// The file name of `path` where only '/' separates (as on Unix): the text
/// after its last '/'.
pub open spec fn name_after_slash(path: Seq<char>) -> Seq<char> {
    path.skip(last_slash(path) + 1)
}

/// The file name of `path` where '\\' separates too (as on Windows): the
/// text after its last '/' or '\\'.
pub open spec fn name_after_separator(path: Seq<char>) -> Seq<char> {
    path.skip(last_separator(path) + 1)
}

/// A separator on either platform: '/' or '\\'.
pub open spec fn is_separator(c: char) -> bool {
    c == '/' || c == '\\'
}

/// Index of the first separator in `s`, or -1 when there is none.
pub open spec fn first_separator(s: Seq<char>) -> int
    decreases s.len(),
{
    if s.len() == 0 {
        -1
    } else if is_separator(s[0]) {
        0
    } else if first_separator(s.skip(1)) < 0 {
        -1
    } else {
        first_separator(s.skip(1)) + 1
    }
}

/// `path` opens with two separators, as a network share or a device path
/// does on Windows.
pub open spec fn opens_with_two_separators(path: Seq<char>) -> bool {
    path.len() >= 2 && is_separator(path[0]) && is_separator(path[1])
}

/// `path` names something inside a network share: two separators, a
/// server's name, a separator, a share's name, and a separator after which
/// its last name stands (neither a verbatim `?` nor a device `.` path).
pub open spec fn share_with_name(path: Seq<char>) -> bool {
    &&& opens_with_two_separators(path)
    &&& path.len() >= 3 && path[2] != '?' && path[2] != '.'
    &&& {
        let i = first_separator(path.skip(2));
        let j = first_separator(path.skip(3 + i));
        &&& i >= 1
        &&& j >= 1
        &&& 3 + i + j <= last_separator(path)
    }
}

/// The separator rules of both platforms find a file name in `path`: it does
/// not open with two separators unless it names something inside a share,
/// and the text after its last separator is a plain name (so neither a
/// trailing separator, ".", "..", nor a drive's ':' is in the way).
pub open spec fn readable_name(path: Seq<char>) -> bool {
    &&& !opens_with_two_separators(path) || share_with_name(path)
    &&& plain_name(name_after_separator(path))
}

/// Index of the last ':' in `s`, or -1 when there is none.
pub open spec fn last_colon(s: Seq<char>) -> int
    decreases s.len(),
{
    if s.len() == 0 {
        -1
    } else if s.last() == ':' {
        s.len() - 1
    } else {
        last_colon(s.drop_last())
    }
}

/// Both platforms' rules find a file name in `path` with the same extension
/// as the text after its last separator: the path does not open with two
/// separators unless it names something inside a share, and that text has
/// a '.' after its last ':' and after the character that follows it (a
/// drive such as `C:` may be read off the front on Windows), and is not
/// ".." after that ':'.
pub open spec fn extension_settled(path: Seq<char>) -> bool {
    let w = name_after_separator(path);
    let c = last_colon(w);
    &&& !opens_with_two_separators(path) || share_with_name(path)
    &&& last_dot(w) > c + 1
    &&& w.skip(c + 1) != seq!['.', '.']
}

/// `n` is the file name of `path` by one of the two platforms' rules. The
/// two agree when the path holds no backslash.
pub open spec fn read_as_name(path: Seq<char>, n: Seq<char>) -> bool {
    n == name_after_slash(path) || n == name_after_separator(path)
}

/// `Path::file_name`: the final component of `path`, or nothing when the path
/// ends in `..` or has no components. Components are never empty, and which
/// characters separate them depends on the platform: '/' everywhere (but in
/// a Windows verbatim path), '\\' as well on Windows, where a path may also
/// open with a drive or a share. So what is claimed is that a name is a
/// non-empty stretch of the path without '/' (unless the path is verbatim),
/// and, where both platforms' rules find a name
/// (`readable_name`), that it is the text after the last separator by one
/// of them.
#[verifier::external_body]
pub(crate) fn file_name(path: &str) -> (r: Option<String>)
    ensures
        r matches Some(n) ==> n@.len() > 0 && is_component_of(n@, path@),
        readable_name(path@) ==> r is Some && read_as_name(path@, r.unwrap()@),
        extension_settled(path@) ==> r is Some && extension(r.unwrap()@) == extension(name_after_separator(path@)),
{
    match std::path::Path::new(path).file_name() {
        Some(n) => Some(n.to_string_lossy().into_owned()),
        None => None,
    }
}

/// What both platforms' rules say of whether `path` carries an extension
/// from `list`: where they find a name, the answer is one of the two
/// names' answers, and where they agree on its extension, the answer for
/// the name after the last separator.
pub open spec fn extension_verdict(path: Seq<char>, list: Seq<&str>, r: bool) -> bool {
    &&& readable_name(path) ==> (r == has_extension_in(name_after_slash(path), list) || r
        == has_extension_in(name_after_separator(path), list))
    &&& extension_settled(path) ==> r == has_extension_in(name_after_separator(path), list)
}

/// Whether the file name of `path` carries an extension from `list`.
fn file_has_extension_in(path: &str, list: &[&str]) -> (r: bool)
    ensures
        extension_verdict(path@, list@, r),
        r ==> exists|n: Seq<char>| is_component_of(n, path@) && has_extension_in(n, list@),
{
    match file_name(path) {
        Some(n) => name_has_extension_in(n.as_str(), list),
        None => false,
    }
}

/// Whether `path` names a video file that mpv can play, judged by the
/// extension of its file name, in any letter case.
pub fn is_video(path: &str) -> (r: bool)
    ensures
        extension_verdict(path@, VIDEO_EXTS@, r),
        r ==> exists|n: Seq<char>| is_component_of(n, path@) && has_extension_in(n, VIDEO_EXTS@),
{
    file_has_extension_in(path, VIDEO_EXTS.as_slice())
}

/// Whether `path` names a subtitle file, judged by the extension of its file
/// name, in any letter case.
pub fn is_subtitle(path: &str) -> (r: bool)
    ensures
        extension_verdict(path@, SUB_EXTS@, r),
        r ==> exists|n: Seq<char>| is_component_of(n, path@) && has_extension_in(n, SUB_EXTS@),
{
    file_has_extension_in(path, SUB_EXTS.as_slice())
}

/// One playlist row: the file, and the name shown for it.
#[derive(Debug, Clone)]
pub struct Entry {
    pub path: String,
    pub name: String,
}

impl Entry {
    /// An entry for `path`, shown under its file name, or under the whole
    /// path when it has none.
    pub fn new(path: String) -> (r: Entry)
        ensures
            r.path@ == path@,
            r.name@ == path@ || (r.name@.len() > 0 && is_component_of(r.name@, path@)),
            readable_name(path@) ==> read_as_name(path@, r.name@),
    {
        let name = match file_name(path.as_str()) {
            Some(n) => n,
            None => path.clone(),
        };
        Entry { path, name }
    }
}

/// The entry is shown under its file name: where both platforms' rules find
/// one, the text after the last separator by one of them; in any case the
/// path itself or a non-empty stretch of it.
pub open spec fn named_after_file(e: Entry) -> bool {
    &&& e.name@ == e.path@ || (e.name@.len() > 0 && is_component_of(e.name@, e.path@))
    &&& readable_name(e.path@) ==> read_as_name(e.path@, e.name@)
}

/// What happens when a track ends.
#[derive(Debug, Clone, Copy, PartialEq, Eq, Structural)]
pub enum Repeat {
    Off,
    All,
    One,
}

/// The label a repeat mode is shown and stored under.
pub open spec fn repeat_label(r: Repeat) -> Seq<char> {
    match r {
        Repeat::Off => "off"@,
        Repeat::All => "all"@,
        Repeat::One => "one"@,
    }
}

/// The mode after `r` in the cycle off, all, one.
pub open spec fn repeat_after(r: Repeat) -> Repeat {
    match r {
        Repeat::Off => Repeat::All,
        Repeat::All => Repeat::One,
        Repeat::One => Repeat::Off,
    }
}

/// The mode stored under `label`: "all" and "one" name theirs, anything else
/// means off.
pub open spec fn repeat_from_label(label: Seq<char>) -> Repeat {
    if label == "all"@ {
        Repeat::All
    } else if label == "one"@ {
        Repeat::One
    } else {
        Repeat::Off
    }
}

impl Default for Repeat {
    fn default() -> (r: Repeat)
        ensures
            r == Repeat::Off,
    {
        Repeat::Off
    }
}

impl Repeat {
    /// The next mode in the cycle off, all, one, off.
    pub fn next(self) -> (r: Repeat)
        ensures
            r == repeat_after(self),
    {
        match self {
            Repeat::Off => Repeat::All,
            Repeat::All => Repeat::One,
            Repeat::One => Repeat::Off,
        }
    }

    /// The mode's label: "off", "all" or "one".
    pub fn label(self) -> (r: &'static str)
        ensures
            r@ == repeat_label(self),
    {
        match self {
            Repeat::Off => "off",
            Repeat::All => "all",
            Repeat::One => "one",
        }
    }

    /// The mode a stored label stands for; an unknown label means off.
    pub fn from_label(label: &str) -> (r: Repeat)
        ensures
            r == repeat_from_label(label@),
    {
        if same_text(label, "all") {
            Repeat::All
        } else if same_text(label, "one") {
            Repeat::One
        } else {
            Repeat::Off
        }
    }
}

/// Cycling the repeat mode three times comes back to where it started.
pub proof fn lemma_repeat_cycle(r: Repeat)
    ensures
        repeat_after(repeat_after(repeat_after(r))) == r,
        repeat_after(r) != r,
{
}

/// A mode survives being stored under its label and read back.
pub proof fn lemma_repeat_label_round_trip(r: Repeat)
    ensures
        repeat_from_label(repeat_label(r)) == r,
{
    reveal_strlit("off");
    reveal_strlit("all");
    reveal_strlit("one");
    assert("off"@[0] != "all"@[0]);
    assert("off"@[1] != "one"@[1]);
    assert("all"@[0] != "one"@[0]);
}

/// The files queued for playing, which one is playing, and how the queue
/// advances.
pub struct Playlist {
    pub items: Vec<Entry>,
    pub current: Option<usize>,
    pub shuffle: bool,
    pub repeat: Repeat,
}

impl Default for Playlist {
    fn default() -> (r: Playlist)
        ensures
            r.items@.len() == 0,
            r.current is None,
            !r.shuffle,
            r.repeat == Repeat::Off,
    {
        Playlist { items: Vec::new(), current: None, shuffle: false, repeat: Repeat::Off }
    }
}

impl Playlist {
    /// The current index points into the list, if there is one.
    pub open spec fn well_formed(self) -> bool {
        self.current matches Some(i) ==> i < self.items@.len()
    }

    /// The position navigation starts from: the current one, else the first.
    pub open spec fn cursor(self) -> int {
        match self.current {
            Some(i) => i as int,
            None => 0,
        }
    }

    /// Where "next" goes, given the number `seed` that picks a shuffled
    /// track. `auto` means the track ended by itself rather than the user
    /// asking to skip it.
    pub open spec fn next_with_seed(self, auto: bool, seed: int) -> Option<int> {
        let len = self.items@.len() as int;
        let cur = self.cursor();
        if len == 0 {
            None
        } else if auto && self.repeat == Repeat::One {
            Some(cur)
        } else if self.shuffle && len > 1 {
            let n = seed % len;
            if n == cur {
                Some((n + 1) % len)
            } else {
                Some(n)
            }
        } else if cur + 1 >= len {
            if auto && self.repeat == Repeat::Off {
                None
            } else {
                Some(0)
            }
        } else {
            Some(cur + 1)
        }
    }

    /// Where "previous" goes: one back, wrapping from the first to the last.
    pub open spec fn prev_spec(self) -> Option<int> {
        let len = self.items@.len() as int;
        let cur = self.cursor();
        if len == 0 {
            None
        } else if cur == 0 {
            Some(len - 1)
        } else {
            Some(cur - 1)
        }
    }

    /// The entry being played, if the current index names one.
    pub fn current_entry(&self) -> (r: Option<&Entry>)
        ensures
            match self.current {
                Some(i) => if i < self.items@.len() {
                    r == Some(&self.items@[i as int])
                } else {
                    r is None
                },
                None => r is None,
            },
    {
        match self.current {
            Some(i) => if i < self.items.len() {
                Some(&self.items[i])
            } else {
                None
            },
            None => None,
        }
    }

    /// Where "next" goes when `seed` picks the shuffled track.
    pub fn next_index_seeded(&self, auto: bool, seed: usize) -> (r: Option<usize>)
        ensures
            match r {
                Some(n) => self.next_with_seed(auto, seed as int) == Some(n as int),
                None => self.next_with_seed(auto, seed as int) is None,
            },
    {
        let len = self.items.len();
        if len == 0 {
            return None;
        }
        let cur = match self.current {
            Some(i) => i,
            None => 0,
        };
        if auto && self.repeat == Repeat::One {
            return Some(cur);
        }
        if self.shuffle && len > 1 {
            let mut n = seed % len;
            if n == cur {
                n = (n + 1) % len;
            }
            return Some(n);
        }
        if cur >= len - 1 {
            if auto && self.repeat == Repeat::Off {
                return None;
            }
            return Some(0);
        }
        Some(cur + 1)
    }

    /// Index of the next track, honouring shuffle and repeat. `auto` tells a
    /// track that ended by itself from the user pressing next. A shuffled
    /// pick is seeded from the clock.
    pub fn next_index(&self, auto: bool) -> (r: Option<usize>)
        ensures
            exists|seed: int|
                #![trigger self.next_with_seed(auto, seed)]
                match r {
                    Some(n) => self.next_with_seed(auto, seed) == Some(n as int),
                    None => self.next_with_seed(auto, seed) is None,
                },
    {
        let seed = if self.shuffle && self.items.len() > 1 && !(auto && self.repeat == Repeat::One) {
            clock_seed()
        } else {
            0
        };
        let r = self.next_index_seeded(auto, seed);
        assert(match r {
            Some(n) => self.next_with_seed(auto, seed as int) == Some(n as int),
            None => self.next_with_seed(auto, seed as int) is None,
        });
        r
    }

    /// Index of the previous track, wrapping from the first to the last.
    pub fn prev_index(&self) -> (r: Option<usize>)
        ensures
            match r {
                Some(n) => self.prev_spec() == Some(n as int),
                None => self.prev_spec() is None,
            },
    {
        let len = self.items.len();
        if len == 0 {
            return None;
        }
        let cur = match self.current {
            Some(i) => i,
            None => 0,
        };
        Some(if cur == 0 { len - 1 } else { cur - 1 })
    }
}

/// In a well-formed playlist, "next" and "previous" always land on an entry.
pub proof fn lemma_navigation_stays_in_list(pl: Playlist, auto: bool, seed: int)
    requires
        pl.well_formed(),
    ensures
        pl.next_with_seed(auto, seed) matches Some(n) ==> 0 <= n < pl.items@.len(),
        pl.prev_spec() matches Some(n) ==> 0 <= n < pl.items@.len(),
{
}

/// Asking for the next track by hand never ends the playlist.
pub proof fn lemma_manual_next_always_moves(pl: Playlist, seed: int)
    requires
        pl.items@.len() > 0,
    ensures
        pl.next_with_seed(false, seed) is Some,
{
}

/// Shuffle never picks the track that is playing now, unless repeat-one
/// holds it for a track that ended by itself.
pub proof fn lemma_shuffle_moves_on(pl: Playlist, auto: bool, seed: int)
    requires
        pl.shuffle,
        pl.items@.len() > 1,
        !(auto && pl.repeat == Repeat::One),
        pl.well_formed(),
    ensures
        pl.next_with_seed(auto, seed) matches Some(n) && n != pl.cursor() && 0 <= n < pl.items@.len(),
{
    let len = pl.items@.len() as int;
    lemma_mod_bound(seed, len);
    let n = seed % len;
    if n + 1 < len {
        lemma_small_mod((n + 1) as nat, len as nat);
    } else {
        assert(len % len == 0) by {
            lemma_small_mod(0, len as nat);
            vstd::arithmetic::div_mod::lemma_mod_self_0(len);
        }
    }
}

/// With repeat-one, a track that ends is played again.
pub proof fn lemma_repeat_one_replays(pl: Playlist, seed: int)
    requires
        pl.items@.len() > 0,
        pl.repeat == Repeat::One,
    ensures
        pl.next_with_seed(true, seed) == Some(pl.cursor()),
{
}

/// At the end of an unshuffled playlist, a finished track stops playback
/// with repeat off and wraps to the first track with repeat all.
pub proof fn lemma_end_of_playlist(pl: Playlist, c: usize, seed: int)
    requires
        !pl.shuffle || pl.items@.len() == 1,
        pl.current == Some(c),
        c + 1 == pl.items@.len(),
    ensures
        pl.repeat == Repeat::Off ==> pl.next_with_seed(true, seed) is None,
        pl.repeat == Repeat::All ==> pl.next_with_seed(true, seed) == Some(0int),
{
}

/// Without shuffle, from any track but the last, "next" moves on one place,
/// by hand and when the track ended by itself, whatever the repeat mode,
/// but for repeat-one replaying a track that ended.
pub proof fn lemma_next_moves_on_by_one(pl: Playlist, auto: bool, seed: int)
    requires
        !pl.shuffle,
        pl.cursor() + 1 < pl.items@.len(),
        !(auto && pl.repeat == Repeat::One),
    ensures
        pl.next_with_seed(auto, seed) == Some(pl.cursor() + 1),
{
}

/// Asking for the next track by hand at the last one of an unshuffled
/// playlist goes round to the first, whatever the repeat mode.
pub proof fn lemma_manual_next_wraps(pl: Playlist, seed: int)
    requires
        !pl.shuffle || pl.items@.len() == 1,
        pl.items@.len() > 0,
        pl.cursor() + 1 == pl.items@.len(),
    ensures
        pl.next_with_seed(false, seed) == Some(0int),
{
}

/// "Previous" goes back one place, and from the first track round to the
/// last.
pub proof fn lemma_prev_goes_back_one(pl: Playlist)
    requires
        0 <= pl.cursor() < pl.items@.len(),
    ensures
        pl.cursor() > 0 ==> pl.prev_spec() == Some(pl.cursor() - 1),
        pl.cursor() == 0 ==> pl.prev_spec() == Some(pl.items@.len() - 1),
{
}

/// Shuffle can land on any track but the one playing: for every other
/// track, some seed leads there.
pub proof fn lemma_shuffle_reaches_every_other(pl: Playlist, auto: bool, j: int)
    requires
        pl.shuffle,
        pl.items@.len() > 1,
        !(auto && pl.repeat == Repeat::One),
        0 <= j < pl.items@.len(),
        j != pl.cursor(),
    ensures
        exists|seed: int| #[trigger] pl.next_with_seed(auto, seed) == Some(j),
{
    lemma_small_mod(j as nat, pl.items@.len());
    assert(pl.next_with_seed(auto, j) == Some(j));
}

/// An empty playlist has nowhere to go.
pub proof fn lemma_empty_playlist_goes_nowhere(pl: Playlist, auto: bool, seed: int)
    requires
        pl.items@.len() == 0,
    ensures
        pl.next_with_seed(auto, seed) is None,
        pl.prev_spec() is None,
{
}

/// Without shuffle, "previous" undoes "next" and "next" undoes "previous".
pub proof fn lemma_prev_undoes_next(pl: Playlist, c: usize, seed: int)
    requires
        !pl.shuffle,
        pl.items@.len() <= usize::MAX,
        pl.current == Some(c),
        c < pl.items@.len(),
    ensures
        ({
            let n = pl.next_with_seed(false, seed)->0;
            Playlist { current: Some(n as usize), ..pl }.prev_spec() == Some(c as int)
        }),
        ({
            let p = pl.prev_spec()->0;
            Playlist { current: Some(p as usize), ..pl }.next_with_seed(false, seed) == Some(c as int)
        }),
{
}

/// Something the user handed the player: a file, or a folder together with
/// the paths of everything it holds (empty when it could not be read).
pub enum Source {
    File(String),
    Folder(Vec<String>),
}

/// A path whose file name carries a video extension.
pub open spec fn video_path(p: Seq<char>) -> bool {
    exists|n: Seq<char>| is_component_of(n, p) && has_extension_in(n, VIDEO_EXTS@)
}

/// Whether `b` can be what `is_video` says of `p`: a path it accepts is a
/// video path, and where every platform reads the same file name off the
/// path, the answer is whether that name carries a video extension.
pub open spec fn video_verdict(p: Seq<char>, b: bool) -> bool {
    &&& b ==> video_path(p)
    &&& extension_verdict(p, VIDEO_EXTS@, b)
}

/// The texts of `s` whose place in `keep` is true, in their order.
pub open spec fn kept(s: Seq<Seq<char>>, keep: Seq<bool>) -> Seq<Seq<char>>
    decreases s.len(),
{
    if s.len() == 0 || keep.len() == 0 {
        Seq::empty()
    } else if keep.last() {
        kept(s.drop_last(), keep.drop_last()).push(s.last())
    } else {
        kept(s.drop_last(), keep.drop_last())
    }
}

/// What adding `src` contributes to the playlist: a file when it is a video;
/// for a folder, its entries that are videos, in natural order, those that
/// compare equal in the order the folder listed them.
pub open spec fn picked_from(src: Source, block: Seq<Seq<char>>) -> bool {
    match src {
        Source::File(p) => {
            ||| video_verdict(p@, true) && block == seq![p@]
            ||| video_verdict(p@, false) && block == Seq::<Seq<char>>::empty()
        },
        Source::Folder(es) => exists|keep: Seq<bool>, idx: Seq<int>|
            {
                &&& keep.len() == es@.len()
                &&& forall|i: int| 0 <= i < es@.len() ==> video_verdict(es@[i]@, #[trigger] keep[i])
                &&& sorted_naturally(block)
                &&& stable_rearrangement(kept(texts(es@), keep), block, idx)
            },
    }
}

/// The blocks, one after another.
pub open spec fn joined(blocks: Seq<Seq<Seq<char>>>) -> Seq<Seq<char>>
    decreases blocks.len(),
{
    if blocks.len() == 0 {
        Seq::empty()
    } else {
        joined(blocks.drop_last()) + blocks.last()
    }
}

/// The paths of the entries.
pub open spec fn entry_paths(items: Seq<Entry>) -> Seq<Seq<char>> {
    items.map_values(|e: Entry| e.path@)
}

/// The video paths among `paths`, in their order, and which places of
/// `paths` they came from.
fn videos_among(paths: &Vec<String>) -> (r: (Vec<String>, Ghost<Seq<bool>>))
    ensures
        r.1@.len() == paths@.len(),
        forall|i: int| 0 <= i < paths@.len() ==> video_verdict(paths@[i]@, #[trigger] r.1@[i]),
        texts(r.0@) == kept(texts(paths@), r.1@),
{
    let mut r: Vec<String> = Vec::new();
    let ghost mut keep: Seq<bool> = Seq::empty();
    let mut i: usize = 0;
    while i < paths.len()
        invariant
            i <= paths@.len(),
            keep.len() == i,
            forall|j: int| 0 <= j < i ==> video_verdict(paths@[j]@, #[trigger] keep[j]),
            texts(r@) == kept(texts(paths@.take(i as int)), keep),
        decreases paths@.len() - i,
    {
        let ghost before = texts(r@);
        let ghost old_keep = keep;
        let v = is_video(paths[i].as_str());
        if v {
            let p = paths[i].clone();
            r.push(p);
        }
        proof {
            keep = old_keep.push(v);
            let t = texts(paths@.take(i + 1));
            assert(t =~= texts(paths@.take(i as int)).push(paths@[i as int]@));
            assert(t.drop_last() =~= texts(paths@.take(i as int)));
            assert(keep.drop_last() =~= old_keep);
            if v {
                assert(texts(r@) =~= before.push(paths@[i as int]@));
            } else {
                assert(texts(r@) =~= before);
            }
        }
        i = i + 1;
    }
    assert(paths@.take(paths@.len() as int) =~= paths@);
    (r, Ghost(keep))
}

impl Playlist {
    /// Adds what the user handed over: each playable file as given, and each
    /// folder's playable files in natural order. Returns how many entries
    /// were added.
    pub fn add_paths(&mut self, sources: &[Source]) -> (n: usize)
        ensures
            final(self).current == old(self).current,
            final(self).shuffle == old(self).shuffle,
            final(self).repeat == old(self).repeat,
            final(self).items@.len() == old(self).items@.len() + n,
            final(self).items@.take(old(self).items@.len() as int) == old(self).items@,
            forall|k: int| old(self).items@.len() <= k < final(self).items@.len() ==> ({
                let e = #[trigger] final(self).items@[k];
                named_after_file(e)
            }),
            exists|blocks: Seq<Seq<Seq<char>>>|
                {
                    &&& blocks.len() == sources@.len()
                    &&& forall|i: int| 0 <= i < sources@.len() ==> picked_from(#[trigger] sources@[i], blocks[i])
                    &&& entry_paths(final(self).items@).skip(old(self).items@.len() as int) == joined(blocks)
                },
    {
        let start_len = self.items.len();
        let ghost start = self.items@.len();
        let ghost mut blocks: Seq<Seq<Seq<char>>> = Seq::empty();
        let mut i: usize = 0;
        assert(entry_paths(self.items@).skip(start as int) =~= joined(blocks));
        while i < sources.len()
            invariant
                i <= sources@.len(),
                self.current == old(self).current,
                self.shuffle == old(self).shuffle,
                self.repeat == old(self).repeat,
                start == old(self).items@.len(),
                start_len == start,
                start <= self.items@.len(),
                self.items@.take(start as int) == old(self).items@,
                forall|k: int| start <= k < self.items@.len() ==> ({
                    let e = #[trigger] self.items@[k];
                    named_after_file(e)
                }),
                blocks.len() == i,
                forall|j: int| 0 <= j < i ==> picked_from(#[trigger] sources@[j], blocks[j]),
                entry_paths(self.items@).skip(start as int) == joined(blocks),
            decreases sources@.len() - i,
        {
            let batch: Vec<String> = match &sources[i] {
                Source::File(p) => {
                    let mut b: Vec<String> = Vec::new();
                    if is_video(p.as_str()) {
                        b.push(p.clone());
                    }
                    assert(texts(b@) =~= Seq::<Seq<char>>::empty() || texts(b@) =~= seq![p@]);
                    b
                },
                Source::Folder(es) => {
                    let (found, Ghost(keep)) = videos_among(es);
                    let sorted = sort_naturally(found);
                    proof {
                        let idx = choose|idx: Seq<int>| stable_rearrangement(texts(found@), texts(sorted@), idx);
                        assert(stable_rearrangement(kept(texts(es@), keep), texts(sorted@), idx));
                    }
                    sorted
                },
            };
            let ghost block = texts(batch@);
            assert(picked_from(sources@[i as int], block));
            let ghost mid = self.items@;
            let mut k: usize = 0;
            while k < batch.len()
                invariant
                    k <= batch@.len(),
                    block == texts(batch@),
                    self.current == old(self).current,
                    self.shuffle == old(self).shuffle,
                    self.repeat == old(self).repeat,
                    self.items@.len() == mid.len() + k,
                    self.items@.take(mid.len() as int) == mid,
                    forall|q: int| start <= q < self.items@.len() ==> ({
                        let e = #[trigger] self.items@[q];
                        named_after_file(e)
                    }),
                    start <= mid.len(),
                    entry_paths(self.items@).skip(mid.len() as int) == block.take(k as int),
                decreases batch@.len() - k,
            {
                let ghost before = self.items@;
                let e = Entry::new(batch[k].clone());
                self.items.push(e);
                proof {
                    assert(self.items@ =~= before.push(e));
                    assert(self.items@.take(mid.len() as int) =~= before.take(mid.len() as int));
                    assert(block[k as int] == batch@[k as int]@);
                    assert(entry_paths(self.items@).skip(mid.len() as int) =~= entry_paths(before).skip(
                        mid.len() as int,
                    ).push(e.path@));
                    assert(block.take(k + 1) =~= block.take(k as int).push(block[k as int]));
                }
                k = k + 1;
            }
            proof {
                assert(block.take(k as int) =~= block);
                let ep = entry_paths(self.items@);
                assert(entry_paths(mid).skip(start as int) =~= ep.take(mid.len() as int).skip(start as int))
                    by {
                    assert(self.items@.take(mid.len() as int) == mid);
                    assert(entry_paths(mid) =~= ep.take(mid.len() as int));
                }
                assert(ep.skip(start as int) =~= ep.take(mid.len() as int).skip(start as int) + ep.skip(
                    mid.len() as int,
                ));
                let nb = blocks.push(block);
                assert(nb.drop_last() =~= blocks);
                assert(joined(nb) == joined(blocks) + block);
                assert(self.items@.take(start as int) =~= mid.take(start as int));
                assert forall|j: int| 0 <= j < i + 1 implies picked_from(#[trigger] sources@[j], nb[j]) by {
                    if j < i {
                        assert(nb[j] == blocks[j]);
                    }
                }
                blocks = nb;
            }
            i = i + 1;
        }
        self.items.len() - start_len
    }
}

/// The names of the entries.
pub open spec fn entry_names(items: Seq<Entry>) -> Seq<Seq<char>> {
    items.map_values(|e: Entry| e.name@)
}

impl Playlist {
    /// Makes entry `index` the current one and hands back its path, for the
    /// player to load; an index past the end changes nothing.
    pub fn select(&mut self, index: usize) -> (r: Option<String>)
        ensures
            final(self).items@ == old(self).items@,
            final(self).shuffle == old(self).shuffle,
            final(self).repeat == old(self).repeat,
            index < old(self).items@.len() ==> final(self).current == Some(index) && (r matches Some(p)
                && p@ == old(self).items@[index as int].path@),
            index >= old(self).items@.len() ==> final(self).current == old(self).current && r is None,
    {
        if index < self.items.len() {
            let p = self.items[index].path.clone();
            self.current = Some(index);
            Some(p)
        } else {
            None
        }
    }

    /// The names the panel lists, in play order.
    pub fn names(&self) -> (r: Vec<String>)
        ensures
            texts(r@) == entry_names(self.items@),
    {
        let mut r: Vec<String> = Vec::new();
        let mut i: usize = 0;
        while i < self.items.len()
            invariant
                i <= self.items@.len(),
                texts(r@) == entry_names(self.items@.take(i as int)),
            decreases self.items@.len() - i,
        {
            let ghost before = texts(r@);
            r.push(self.items[i].name.clone());
            assert(texts(r@) =~= before.push(self.items@[i as int].name@));
            assert(entry_names(self.items@.take(i + 1)) =~= entry_names(self.items@.take(i as int)).push(
                self.items@[i as int].name@,
            ));
            i = i + 1;
        }
        assert(self.items@.take(self.items@.len() as int) =~= self.items@);
        r
    }
}

/// Selecting an entry makes it the one being played, and keeps the playlist
/// well formed.
pub proof fn lemma_selected_is_current(pl: Playlist, i: usize)
    requires
        i < pl.items@.len(),
    ensures
        (Playlist { current: Some(i), ..pl }).well_formed(),
        (Playlist { current: Some(i), ..pl }).cursor() == i,
{
}

} // verus!
