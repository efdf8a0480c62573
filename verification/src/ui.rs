//! The on-screen interface as a model: a floating transport bar and a
//! playlist panel, their geometry, and the state machine behind showing,
//! fading and hiding them. The windows themselves, and the painting, belong
//! to the host: every decision here comes back as a list of effects for it
//! to carry out, in order.

use vstd::prelude::*;

verus! {

/// A Win32 COLORREF: 0x00BBGGRR.
pub open spec fn colorref(r: u8, g: u8, b: u8) -> int {
    r + g * 256 + b * 65536
}

/// Builds a COLORREF from red, green and blue, so nobody writes one
/// backwards.
pub fn rgb(r: u8, g: u8, b: u8) -> (c: u32)
    ensures
        c == colorref(r, g, b),
{
    let c = (r as u32) | ((g as u32) << 8u32) | ((b as u32) << 16u32);
    assert(c == (r as u32) + (g as u32) * 256 + (b as u32) * 65536) by (bit_vector)
        requires
            c == (r as u32) | ((g as u32) << 8u32) | ((b as u32) << 16u32),
    ;
    c
}

/// A point in window coordinates.
#[derive(Clone, Copy, Debug, Default, PartialEq, Eq, Structural)]
pub struct Point {
    pub x: i32,
    pub y: i32,
}

/// A rectangle, half open: it holds its left and top edges but not its right
/// and bottom ones.
#[derive(Clone, Copy, Debug, Default, PartialEq, Eq, Structural)]
pub struct Rect {
    pub l: i32,
    pub t: i32,
    pub r: i32,
    pub b: i32,
}

impl Rect {
    pub open spec fn holds(self, p: Point) -> bool {
        self.l <= p.x < self.r && self.t <= p.y < self.b
    }

    pub fn new(l: i32, t: i32, r: i32, b: i32) -> (rect: Rect)
        ensures
            rect == (Rect { l, t, r, b }),
    {
        Rect { l, t, r, b }
    }

    /// Whether `p` lies inside: left and top edges in, right and bottom out.
    pub fn contains(self, p: Point) -> (r: bool)
        ensures
            r == self.holds(p),
    {
        p.x >= self.l && p.x < self.r && p.y >= self.t && p.y < self.b
    }

    pub fn w(self) -> (r: i32)
        requires
            i32::MIN <= self.r - self.l <= i32::MAX,
        ensures
            r == self.r - self.l,
    {
        self.r - self.l
    }

    pub fn h(self) -> (r: i32)
        requires
            i32::MIN <= self.b - self.t <= i32::MAX,
        ensures
            r == self.b - self.t,
    {
        self.b - self.t
    }

    /// The horizontal centre, rounded toward zero.
    pub fn cx(self) -> (r: i32)
        requires
            i32::MIN <= self.l + self.r <= i32::MAX,
        ensures
            r as int == crate::ui::half(self.l + self.r),
    {
        (self.l + self.r) / 2
    }

    /// The vertical centre, rounded toward zero.
    pub fn cy(self) -> (r: i32)
        requires
            i32::MIN <= self.t + self.b <= i32::MAX,
        ensures
            r as int == crate::ui::half(self.t + self.b),
    {
        (self.t + self.b) / 2
    }
}

/// Half of `n`, rounded toward zero as integer division in Rust does.
pub open spec fn half(n: int) -> int {
    if n >= 0 {
        n / 2
    } else {
        -((-n) / 2)
    }
}

/// A 16-bit word read as a signed number.
pub open spec fn signed_word(w: int) -> int {
    if w >= 0x8000 {
        w - 0x10000
    } else {
        w
    }
}

/// `n` divided by `d`, rounded toward zero as integer division in Rust
/// does.
pub open spec fn div_toward_zero(n: int, d: int) -> int {
    if n >= 0 {
        n / d
    } else {
        -((-n) / d)
    }
}

/// The word `k` places up in `v`: bits `16k` to `16k + 15`.
fn word_of(v: usize, k: usize) -> (w: i32)
    requires
        k < 2,
    ensures
        w == (v >> (16 * k)) & 0xFFFF,
        0 <= w <= 0xFFFF,
{
    let shifted = v >> (16 * k);
    let m = shifted & 0xFFFF;
    assert(m <= 0xFFFF) by (bit_vector)
        requires
            m == shifted & 0xFFFF,
    ;
    m as i32
}

/// The pointer position a mouse message carries in its `lparam`: x in the
/// low word and y in the next one, each a signed 16-bit number.
pub fn point_of(lparam: isize) -> (p: Point)
    ensures
        p.x == signed_word(((lparam as usize) & 0xFFFF) as int),
        p.y == signed_word(((lparam as usize) >> 16usize & 0xFFFF) as int),
{
    let bits = lparam as usize;
    let lo = word_of(bits, 0);
    let hi = word_of(bits, 1);
    assert(bits >> 0usize == bits) by (bit_vector);
    Point {
        x: if lo >= 0x8000 { lo - 0x10000 } else { lo },
        y: if hi >= 0x8000 { hi - 0x10000 } else { hi },
    }
}

/// How many notches a wheel message turns by: its `wparam`'s high word is
/// the signed distance, in units of 120 to the notch, and a part of a notch
/// counts for nothing.
pub fn wheel_notches(wparam: usize) -> (n: i32)
    ensures
        n == div_toward_zero(signed_word((wparam >> 16usize & 0xFFFF) as int), 120),
{
    let w = word_of(wparam, 1);
    let delta: i32 = if w >= 0x8000 { w - 0x10000 } else { w };
    delta / 120
}

/// A control the pointer can be over. `Scrub` and `Volume` are dragged
/// rather than clicked; playlist rows are tracked separately because there
/// are many of them.
#[derive(Clone, Copy, Debug, PartialEq, Eq, Structural)]
pub enum Hit {
    Prev,
    Rewind,
    Play,
    Forward,
    Next,
    Scrub,
    Mute,
    Volume,
    Speed,
    List,
    Snap,
    Full,
    Open,
    Close,
}

impl Hit {
    pub open spec fn slider(self) -> bool {
        self == Hit::Scrub || self == Hit::Volume
    }

    /// Dragged rather than pressed.
    pub fn is_slider(self) -> (r: bool)
        ensures
            r == self.slider(),
    {
        match self {
            Hit::Scrub | Hit::Volume => true,
            _ => false,
        }
    }
}

/// What the user asked the player to do through the interface, apart from
/// seeking and setting the volume (whose values the host keeps). Drained
/// once per tick.
#[derive(Clone, Copy, Debug, Default, PartialEq, Eq, Structural)]
pub struct Requests {
    pub toggle_pause: bool,
    pub prev: bool,
    pub next: bool,
    pub toggle_mute: bool,
    pub cycle_speed: bool,
    pub toggle_fullscreen: bool,
    pub screenshot: bool,
    pub toggle_playlist: bool,
    pub play_row: Option<usize>,
    pub open_files: bool,
}

/// No request at all.
pub open spec fn no_requests() -> Requests {
    Requests {
        toggle_pause: false,
        prev: false,
        next: false,
        toggle_mute: false,
        cycle_speed: false,
        toggle_fullscreen: false,
        screenshot: false,
        toggle_playlist: false,
        play_row: None,
        open_files: false,
    }
}

impl Requests {
    pub open spec fn anything(self) -> bool {
        self.toggle_pause || self.prev || self.next || self.toggle_mute || self.cycle_speed
            || self.toggle_fullscreen || self.screenshot || self.toggle_playlist
            || self.play_row is Some || self.open_files
    }

    /// A set with nothing asked for.
    pub fn none() -> (r: Requests)
        ensures
            r == no_requests(),
    {
        Requests {
            toggle_pause: false,
            prev: false,
            next: false,
            toggle_mute: false,
            cycle_speed: false,
            toggle_fullscreen: false,
            screenshot: false,
            toggle_playlist: false,
            play_row: None,
            open_files: false,
        }
    }

    /// Whether anything at all was asked for, so a quiet tick can skip the
    /// whole apply path.
    pub fn any(&self) -> (r: bool)
        ensures
            r == self.anything(),
            r == (*self != no_requests()),
    {
        self.toggle_pause || self.prev || self.next || self.toggle_mute || self.cycle_speed
            || self.toggle_fullscreen || self.screenshot || self.toggle_playlist
            || self.play_row.is_some() || self.open_files
    }
}

/// How opaque the interface is when fully shown. Fully opaque is not
/// available to a colour-keyed window, and ~93% reads as glass.
pub const ALPHA_SOLID: u8 = 238;
/// How much the opacity moves per fade step.
pub const ALPHA_STEP: u8 = 60;
/// How long a still pointer keeps the interface up while playing.
pub const IDLE_MS: u32 = 2600;
/// The interval between fade steps.
pub const FADE_MS: u32 = 33;

/// One thing the host must do to the interface windows, in order.
#[derive(Clone, Copy, Debug, PartialEq, Eq, Structural)]
pub enum Effect {
    /// Re-derive both windows' bounds from the parent's client area, then
    /// clamp the panel's scroll to what its rows need.
    Place,
    /// Clamp the panel's scroll to what its rows need.
    ClampScroll,
    /// Put the panel and then the bar back on top of the video.
    Raise,
    ShowBar,
    ShowPanel,
    HideBar,
    HidePanel,
    /// Set both windows' opacity.
    ApplyAlpha(u8),
    SetIdleTimer,
    KillIdleTimer,
    SetFadeTimer,
    KillFadeTimer,
    RepaintBar,
    RepaintPanel,
    /// Ask to be told when the pointer leaves the window.
    TrackLeave,
    /// Capture the pointer for the window the press landed in.
    Capture,
    ReleaseCapture,
    /// The pointer dragged a slider: move its value to the pointer.
    Drag(Hit),
    /// Seek ten seconds back, not before the start.
    SeekBack,
    /// Seek ten seconds on, not past the end.
    SeekForward,
    /// The wheel turned this many notches over the bar: nudge the volume.
    WheelVolume(i32),
}

/// The interface's state: what the panel lists, whether things are shown,
/// where a fade stands, what the pointer is over, and what the user has
/// asked for since the last tick.
#[derive(Debug)]
pub struct Chrome {
    pub rows: Vec<String>,
    pub current: Option<usize>,
    /// Panel open or closed. It lives here so the panel can fade with the
    /// bar without a round trip through the player.
    pub list_open: bool,
    pub visible: bool,
    pub alpha: u8,
    pub fading_out: bool,
    /// A file is loaded and playing: the interface may fade away.
    pub playing: bool,
    pub dragging: bool,
    pub hover_armed: bool,
    pub hot: Option<Hit>,
    pub pressed: Option<Hit>,
    pub hot_row: Option<usize>,
    pub scroll: i32,
    pub requests: Requests,
}

/// Where a fade is heading: nothing when fading out, solid otherwise.
pub open spec fn alpha_target(fading_out: bool) -> int {
    if fading_out {
        0
    } else {
        ALPHA_SOLID as int
    }
}

/// One fade step from `cur` toward `target`.
pub open spec fn alpha_step(cur: int, target: int) -> int {
    if cur < target {
        if cur + ALPHA_STEP < target {
            cur + ALPHA_STEP
        } else {
            target
        }
    } else if cur > target {
        if cur - ALPHA_STEP > target {
            cur - ALPHA_STEP
        } else {
            target
        }
    } else {
        target
    }
}

impl Chrome {
    /// The interface before anything has happened: hidden, panel closed,
    /// nothing listed.
    pub fn new() -> (c: Chrome)
        ensures
            c.rows@.len() == 0,
            c.current is None,
            !c.list_open && !c.visible && !c.fading_out && !c.playing,
            !c.dragging && !c.hover_armed,
            c.alpha == 0,
            c.hot is None && c.pressed is None && c.hot_row is None,
            c.scroll == 0,
            c.requests == no_requests(),
    {
        Chrome {
            rows: Vec::new(),
            current: None,
            list_open: false,
            visible: false,
            alpha: 0,
            fading_out: false,
            playing: false,
            dragging: false,
            hover_armed: false,
            hot: None,
            pressed: None,
            hot_row: None,
            scroll: 0,
            requests: Requests::none(),
        }
    }

    /// The opacity never leaves the range a layered window can be given.
    pub open spec fn well_formed(self) -> bool {
        self.alpha <= ALPHA_SOLID && self.scroll >= 0
    }

    /// Moves the fade one step and, at the end of a fade-out, hides the
    /// interface. The only animated thing in it; at rest no timer runs.
    fn step_alpha(&mut self, fx: &mut Vec<Effect>)
        requires
            old(self).alpha <= ALPHA_SOLID,
        ensures
            final(self).alpha == alpha_step(old(self).alpha as int, alpha_target(old(self).fading_out)),
            final(self).alpha <= ALPHA_SOLID,
            ({
                let done = final(self).alpha == alpha_target(old(self).fading_out);
                &&& done && old(self).fading_out ==> {
                    &&& !final(self).fading_out && !final(self).visible
                    &&& final(self).hot is None && final(self).hot_row is None
                    &&& final(fx)@ == old(fx)@ + seq![
                        Effect::ApplyAlpha(final(self).alpha),
                        Effect::KillFadeTimer,
                        Effect::HideBar,
                        Effect::HidePanel,
                    ]
                }
                &&& !(done && old(self).fading_out) ==> {
                    &&& final(self).fading_out == old(self).fading_out
                    &&& final(self).visible == old(self).visible
                    &&& final(self).hot == old(self).hot
                    &&& final(self).hot_row == old(self).hot_row
                    &&& final(fx)@ == old(fx)@ + seq![
                        Effect::ApplyAlpha(final(self).alpha),
                        if done { Effect::KillFadeTimer } else { Effect::SetFadeTimer },
                    ]
                }
            }),
            final(self).rows == old(self).rows,
            final(self).current == old(self).current,
            final(self).list_open == old(self).list_open,
            final(self).playing == old(self).playing,
            final(self).dragging == old(self).dragging,
            final(self).hover_armed == old(self).hover_armed,
            final(self).pressed == old(self).pressed,
            final(self).scroll == old(self).scroll,
            final(self).requests == old(self).requests,
    {
        let target: u8 = if self.fading_out { 0 } else { ALPHA_SOLID };
        let cur = self.alpha;
        let next: u8 = if cur < target {
            if target - cur > ALPHA_STEP {
                cur + ALPHA_STEP
            } else {
                target
            }
        } else if cur > target {
            if cur - target > ALPHA_STEP {
                cur - ALPHA_STEP
            } else {
                target
            }
        } else {
            target
        };
        self.alpha = next;
        fx.push(Effect::ApplyAlpha(next));
        if next == target {
            fx.push(Effect::KillFadeTimer);
            if self.fading_out {
                self.fading_out = false;
                self.visible = false;
                self.hot = None;
                self.hot_row = None;
                fx.push(Effect::HideBar);
                fx.push(Effect::HidePanel);
            }
        } else {
            fx.push(Effect::SetFadeTimer);
        }
    }
}

/// Which of the two interface windows something happened in.
#[derive(Clone, Copy, Debug, PartialEq, Eq, Structural)]
pub enum Target {
    Bar,
    Panel,
}

/// The repaint that covers `t`.
pub open spec fn repaint_of(t: Target) -> Effect {
    match t {
        Target::Bar => Effect::RepaintBar,
        Target::Panel => Effect::RepaintPanel,
    }
}

fn repaint(t: Target) -> (e: Effect)
    ensures
        e == repaint_of(t),
{
    match t {
        Target::Bar => Effect::RepaintBar,
        Target::Panel => Effect::RepaintPanel,
    }
}

/// `a` and `b` agree on everything but the fade and what the pointer is over.
pub open spec fn same_content(a: Chrome, b: Chrome) -> bool {
    &&& a.rows == b.rows
    &&& a.current == b.current
    &&& a.list_open == b.list_open
    &&& a.playing == b.playing
    &&& a.dragging == b.dragging
    &&& a.hover_armed == b.hover_armed
    &&& a.pressed == b.pressed
    &&& a.scroll == b.scroll
    &&& a.requests == b.requests
}

/// `a` and `b` agree on everything.
pub open spec fn same_chrome(a: Chrome, b: Chrome) -> bool {
    &&& same_content(a, b)
    &&& a.visible == b.visible
    &&& a.alpha == b.alpha
    &&& a.fading_out == b.fading_out
    &&& a.hot == b.hot
    &&& a.hot_row == b.hot_row
}

/// The effects of showing a hidden interface: place it, show the bar (and
/// the panel if open), raise them, take the first fade-in step, and arm the
/// idle countdown if something is playing.
pub open spec fn show_effects(list_open: bool, playing: bool) -> Seq<Effect> {
    seq![Effect::Place, Effect::ShowBar] + (if list_open { seq![Effect::ShowPanel] } else { seq![] })
        + seq![Effect::Raise, Effect::ApplyAlpha(ALPHA_STEP), Effect::SetFadeTimer]
        + (if playing { seq![Effect::SetIdleTimer] } else { seq![] })
}

impl Chrome {
    /// Shows the hidden interface and starts fading it in.
    fn show(&mut self, fx: &mut Vec<Effect>)
        requires
            !old(self).visible,
        ensures
            same_content(*old(self), *final(self)),
            final(self).visible,
            !final(self).fading_out,
            final(self).alpha == ALPHA_STEP,
            final(self).hot == old(self).hot,
            final(self).hot_row == old(self).hot_row,
            final(fx)@ == old(fx)@ + show_effects(old(self).list_open, old(self).playing),
    {
        fx.push(Effect::Place);
        self.visible = true;
        self.alpha = 0;
        self.fading_out = false;
        fx.push(Effect::ShowBar);
        if self.list_open {
            fx.push(Effect::ShowPanel);
        }
        fx.push(Effect::Raise);
        self.step_alpha(fx);
        if self.playing {
            fx.push(Effect::SetIdleTimer);
        }
        assert(final(fx)@ =~= old(fx)@ + show_effects(old(self).list_open, old(self).playing));
    }

    /// Stops a fade-out and puts the interface back to solid.
    fn cancel_fade(&mut self, fx: &mut Vec<Effect>)
        ensures
            same_content(*old(self), *final(self)),
            final(self).visible == old(self).visible,
            final(self).hot == old(self).hot,
            final(self).hot_row == old(self).hot_row,
            !final(self).fading_out,
            old(self).fading_out ==> final(self).alpha == ALPHA_SOLID && final(fx)@ == old(fx)@ + seq![
                Effect::KillFadeTimer,
                Effect::ApplyAlpha(ALPHA_SOLID),
            ],
            !old(self).fading_out ==> final(self).alpha == old(self).alpha && final(fx)@ == old(fx)@,
    {
        if !self.fading_out {
            return;
        }
        self.fading_out = false;
        fx.push(Effect::KillFadeTimer);
        self.alpha = ALPHA_SOLID;
        fx.push(Effect::ApplyAlpha(ALPHA_SOLID));
    }

    /// Pointer movement over the video. Only the hidden-to-shown transition
    /// costs anything; while shown and playing it restarts the idle
    /// countdown.
    pub fn note_motion(&mut self, bar_live: bool) -> (fx: Vec<Effect>)
        requires
            old(self).well_formed(),
        ensures
            final(self).well_formed(),
            same_content(*old(self), *final(self)),
            !bar_live ==> same_chrome(*old(self), *final(self)) && fx@ == Seq::<Effect>::empty(),
            bar_live && !old(self).visible ==> {
                &&& final(self).visible && !final(self).fading_out
                &&& final(self).alpha == ALPHA_STEP
                &&& final(self).hot == old(self).hot && final(self).hot_row == old(self).hot_row
                &&& fx@ == show_effects(old(self).list_open, old(self).playing)
            },
            bar_live && old(self).visible ==> same_chrome(*old(self), *final(self)) && fx@ == (if old(
                self,
            ).playing && !old(self).fading_out {
                seq![Effect::SetIdleTimer]
            } else {
                Seq::<Effect>::empty()
            }),
    {
        let mut fx: Vec<Effect> = Vec::new();
        if !bar_live {
            return fx;
        }
        if !self.visible {
            self.show(&mut fx);
        } else if self.playing && !self.fading_out {
            fx.push(Effect::SetIdleTimer);
        }
        fx
    }

    /// A click on the picture means "get out of the way": a shown interface
    /// over something playing starts fading out, unless a slider is being
    /// dragged.
    pub fn note_video_click(&mut self) -> (fx: Vec<Effect>)
        requires
            old(self).well_formed(),
        ensures
            final(self).well_formed(),
            same_content(*old(self), *final(self)),
            final(self).visible == old(self).visible,
            final(self).alpha == old(self).alpha,
            final(self).hot == old(self).hot,
            final(self).hot_row == old(self).hot_row,
            old(self).visible && old(self).playing && !old(self).dragging ==> final(self).fading_out && fx@
                == seq![Effect::SetFadeTimer],
            !(old(self).visible && old(self).playing && !old(self).dragging) ==> final(self).fading_out
                == old(self).fading_out && fx@ == Seq::<Effect>::empty(),
    {
        let mut fx: Vec<Effect> = Vec::new();
        if self.visible && self.playing && !self.dragging {
            self.fading_out = true;
            fx.push(Effect::SetFadeTimer);
        }
        fx
    }

    /// Publishes playback state from the tick. `moved` says whether anything
    /// the bar draws changed. Only while the bar exists: it is re-placed, and
    /// while shown it is raised above the video (which mpv recreates as files
    /// change), repainted where needed, and held solid when nothing plays:
    /// a paused interface does not walk away.
    pub fn sync(&mut self, playing: bool, moved: bool, bar_live: bool) -> (fx: Vec<Effect>)
        requires
            old(self).well_formed(),
        ensures
            final(self).well_formed(),
            !bar_live ==> same_chrome(*old(self), *final(self)) && fx@ == Seq::<Effect>::empty(),
            bar_live ==> {
                &&& final(self).playing == playing
                &&& final(self).visible == old(self).visible
                &&& final(self).rows == old(self).rows && final(self).list_open == old(self).list_open
                &&& final(self).scroll == old(self).scroll && final(self).requests == old(self).requests
                &&& final(self).hot == old(self).hot && final(self).pressed == old(self).pressed
                &&& !old(self).visible ==> fx@ == seq![Effect::Place] && final(self).fading_out
                    == old(self).fading_out && final(self).alpha == old(self).alpha
                &&& old(self).visible ==> {
                    &&& fx@ == seq![Effect::Place, Effect::Raise] + (if moved {
                        seq![Effect::RepaintBar]
                    } else {
                        seq![]
                    }) + (if old(self).list_open {
                        seq![Effect::RepaintPanel]
                    } else {
                        seq![]
                    }) + (if !playing && old(self).fading_out {
                        seq![Effect::KillFadeTimer, Effect::ApplyAlpha(ALPHA_SOLID)]
                    } else {
                        seq![]
                    })
                    &&& !playing ==> !final(self).fading_out
                    &&& playing ==> final(self).fading_out == old(self).fading_out && final(self).alpha
                        == old(self).alpha
                }
            },
    {
        let mut fx: Vec<Effect> = Vec::new();
        if !bar_live {
            return fx;
        }
        self.playing = playing;
        fx.push(Effect::Place);
        if self.visible {
            fx.push(Effect::Raise);
            if moved {
                fx.push(Effect::RepaintBar);
            }
            if self.list_open {
                fx.push(Effect::RepaintPanel);
            }
            if !playing {
                self.cancel_fade(&mut fx);
            }
        }
        fx
    }

    /// After the parent resized: re-derive both windows' bounds, and raise
    /// them back above the video if shown.
    pub fn relayout(&self, bar_live: bool) -> (fx: Vec<Effect>)
        ensures
            fx@ == (if !bar_live {
                seq![]
            } else if self.visible {
                seq![Effect::Place, Effect::Raise]
            } else {
                seq![Effect::Place]
            }),
    {
        let mut fx: Vec<Effect> = Vec::new();
        if bar_live {
            fx.push(Effect::Place);
            if self.visible {
                fx.push(Effect::Raise);
            }
        }
        fx
    }

    /// Opens or closes the playlist panel, and tells the player it happened.
    /// Opening it while the interface is hidden brings the interface up.
    pub fn toggle_playlist(&mut self, panel_live: bool) -> (fx: Vec<Effect>)
        requires
            old(self).well_formed(),
        ensures
            final(self).well_formed(),
            final(self).list_open == !old(self).list_open,
            final(self).requests == (Requests { toggle_playlist: true, ..old(self).requests }),
            final(self).rows == old(self).rows,
            final(self).scroll == old(self).scroll,
            final(self).playing == old(self).playing,
            !panel_live ==> fx@ == Seq::<Effect>::empty() && final(self).visible == old(self).visible,
            panel_live && final(self).list_open && !old(self).visible ==> final(self).visible && fx@
                == show_effects(true, old(self).playing) + seq![Effect::RepaintPanel],
            panel_live && !(final(self).list_open && !old(self).visible) ==> final(self).visible
                == old(self).visible && final(self).alpha == old(self).alpha && fx@ == seq![
                Effect::RepaintPanel,
            ],
    {
        let mut fx: Vec<Effect> = Vec::new();
        self.list_open = !self.list_open;
        self.requests.toggle_playlist = true;
        if !panel_live {
            return fx;
        }
        if self.list_open && !self.visible {
            self.show(&mut fx);
        }
        fx.push(Effect::RepaintPanel);
        fx
    }

    /// Replaces what the panel lists and which row is current. With the
    /// panel in place its scroll is re-clamped, and an open, shown panel is
    /// repainted.
    pub fn set_playlist(&mut self, rows: Vec<String>, current: Option<usize>, panel_live: bool) -> (fx: Vec<Effect>)
        requires
            old(self).well_formed(),
        ensures
            final(self).well_formed(),
            final(self).rows@ == rows@,
            final(self).current == current,
            final(self).list_open == old(self).list_open,
            final(self).visible == old(self).visible,
            final(self).alpha == old(self).alpha,
            final(self).fading_out == old(self).fading_out,
            final(self).scroll == old(self).scroll,
            final(self).requests == old(self).requests,
            fx@ == (if !panel_live {
                seq![]
            } else if old(self).visible && old(self).list_open {
                seq![Effect::ClampScroll, Effect::RepaintPanel]
            } else {
                seq![Effect::ClampScroll]
            }),
    {
        let mut fx: Vec<Effect> = Vec::new();
        self.rows = rows;
        self.current = current;
        if panel_live {
            fx.push(Effect::ClampScroll);
            if self.visible && self.list_open {
                fx.push(Effect::RepaintPanel);
            }
        }
        fx
    }

    /// Keeps the panel from scrolling past its last row.
    pub fn clamp_scroll(&mut self, max: i32)
        requires
            old(self).well_formed(),
            max >= 0,
        ensures
            final(self).well_formed(),
            final(self).scroll == (if old(self).scroll > max { max } else { old(self).scroll }),
            final(self).rows == old(self).rows,
            final(self).list_open == old(self).list_open,
            final(self).visible == old(self).visible,
            final(self).requests == old(self).requests,
    {
        if self.scroll > max {
            self.scroll = max;
        }
    }

    /// Hands over what the user asked for since the last call, and forgets
    /// it: a request that outlived its tick would be carried out again and
    /// again.
    pub fn take_requests(&mut self) -> (r: Requests)
        ensures
            r == old(self).requests,
            final(self).requests == no_requests(),
            final(self).rows == old(self).rows,
            final(self).list_open == old(self).list_open,
            final(self).visible == old(self).visible,
            final(self).alpha == old(self).alpha,
            final(self).scroll == old(self).scroll,
    {
        let r = self.requests;
        self.requests = Requests::none();
        r
    }

    /// The interface windows are gone: it is no longer shown. Nothing else
    /// changes, so windows made again show the same list.
    pub fn dispose(&mut self)
        ensures
            *final(self) == (Chrome { visible: false, ..*old(self) }),
    {
        self.visible = false;
    }

    /// The interface windows have just been made, hidden and see-through:
    /// the interface is not shown and has no opacity yet. Nothing else
    /// changes.
    pub fn windows_created(&mut self)
        ensures
            *final(self) == (Chrome { visible: false, alpha: 0, ..*old(self) }),
    {
        self.visible = false;
        self.alpha = 0;
    }

    /// Pointer input and timers are acted on only while the interface is
    /// shown and its bar exists; a late message after the parent started
    /// closing, or while faded out, is left to the system.
    pub fn accepts_input(&self, bar_live: bool) -> (r: bool)
        ensures
            r == (self.visible && bar_live),
    {
        self.visible && bar_live
    }
}

/// Height of one playlist row, in logical pixels.
pub const ROW_H: i32 = 42;
/// Height of the panel's header, in logical pixels.
pub const HEAD_H: i32 = 44;

/// What touching the interface costs: the pointer being there holds it
/// open (restarting the idle countdown while playing, stopping a fade-out)
/// and arms the notification that lets it close again.
pub open spec fn touch_effects(c: Chrome) -> Seq<Effect> {
    (if c.playing { seq![Effect::SetIdleTimer] } else { seq![] })
        + (if c.fading_out { seq![Effect::KillFadeTimer, Effect::ApplyAlpha(ALPHA_SOLID)] } else { seq![] })
        + (if !c.hover_armed { seq![Effect::TrackLeave] } else { seq![] })
}

/// The interface after being touched.
pub open spec fn touched(a: Chrome, b: Chrome) -> bool {
    &&& b.rows == a.rows && b.current == a.current && b.list_open == a.list_open
    &&& b.playing == a.playing && b.visible == a.visible
    &&& b.hover_armed
    &&& !b.fading_out
    &&& b.alpha == (if a.fading_out { ALPHA_SOLID } else { a.alpha })
}

/// The requests after a click released on the bar over `over`.
pub open spec fn bar_click_requests(r: Requests, over: Option<Hit>) -> Requests {
    match over {
        Some(Hit::Play) => Requests { toggle_pause: true, ..r },
        Some(Hit::Prev) => Requests { prev: true, ..r },
        Some(Hit::Next) => Requests { next: true, ..r },
        Some(Hit::Mute) => Requests { toggle_mute: true, ..r },
        Some(Hit::Speed) => Requests { cycle_speed: true, ..r },
        Some(Hit::Snap) => Requests { screenshot: true, ..r },
        Some(Hit::Full) => Requests { toggle_fullscreen: true, ..r },
        Some(Hit::List) => Requests { toggle_playlist: true, ..r },
        _ => r,
    }
}

/// The effects of a click released on the bar over `over`, given whether
/// the panel is open afterwards.
pub open spec fn bar_click_effects(over: Option<Hit>, list_open_after: bool) -> Seq<Effect> {
    match over {
        Some(Hit::Rewind) => seq![Effect::SeekBack],
        Some(Hit::Forward) => seq![Effect::SeekForward],
        Some(Hit::List) => if list_open_after {
            seq![Effect::ShowPanel, Effect::RepaintPanel]
        } else {
            seq![Effect::HidePanel]
        },
        _ => seq![],
    }
}

/// A click on a bar button asks for that button's action and nothing else:
/// play pauses or resumes, previous goes back, next goes on, mute, the speed
/// chip, screenshot, fullscreen and playlist do what they show; whatever was
/// asked before stays asked. The sliders, the seek buttons (which seek at
/// once) and empty space ask for nothing.
pub proof fn lemma_each_button_asks_for_its_action(r: Requests)
    ensures
        bar_click_requests(r, Some(Hit::Play)) == (Requests { toggle_pause: true, ..r }),
        bar_click_requests(r, Some(Hit::Prev)) == (Requests { prev: true, ..r }),
        bar_click_requests(r, Some(Hit::Next)) == (Requests { next: true, ..r }),
        bar_click_requests(r, Some(Hit::Mute)) == (Requests { toggle_mute: true, ..r }),
        bar_click_requests(r, Some(Hit::Speed)) == (Requests { cycle_speed: true, ..r }),
        bar_click_requests(r, Some(Hit::Snap)) == (Requests { screenshot: true, ..r }),
        bar_click_requests(r, Some(Hit::Full)) == (Requests { toggle_fullscreen: true, ..r }),
        bar_click_requests(r, Some(Hit::List)) == (Requests { toggle_playlist: true, ..r }),
        bar_click_requests(r, Some(Hit::Rewind)) == r,
        bar_click_requests(r, Some(Hit::Forward)) == r,
        bar_click_requests(r, Some(Hit::Scrub)) == r,
        bar_click_requests(r, Some(Hit::Volume)) == r,
        bar_click_requests(r, None) == r,
        bar_click_effects(Some(Hit::Rewind), false) == seq![Effect::SeekBack],
        bar_click_effects(Some(Hit::Forward), false) == seq![Effect::SeekForward],
{
}

fn bar_click_requests_of(r: Requests, over: Option<Hit>) -> (q: Requests)
    ensures
        q == bar_click_requests(r, over),
{
    let mut q = r;
    match over {
        Some(Hit::Play) => q.toggle_pause = true,
        Some(Hit::Prev) => q.prev = true,
        Some(Hit::Next) => q.next = true,
        Some(Hit::Mute) => q.toggle_mute = true,
        Some(Hit::Speed) => q.cycle_speed = true,
        Some(Hit::Snap) => q.screenshot = true,
        Some(Hit::Full) => q.toggle_fullscreen = true,
        Some(Hit::List) => q.toggle_playlist = true,
        _ => {},
    }
    q
}

impl Chrome {
    fn touch(&mut self, fx: &mut Vec<Effect>)
        ensures
            touched(*old(self), *final(self)),
            final(self).dragging == old(self).dragging,
            final(self).pressed == old(self).pressed,
            final(self).hot == old(self).hot,
            final(self).hot_row == old(self).hot_row,
            final(self).scroll == old(self).scroll,
            final(self).requests == old(self).requests,
            final(fx)@ == old(fx)@ + touch_effects(*old(self)),
    {
        if self.playing {
            fx.push(Effect::SetIdleTimer);
        }
        self.cancel_fade(fx);
        if !self.hover_armed {
            self.hover_armed = true;
            fx.push(Effect::TrackLeave);
        }
        assert(final(fx)@ =~= old(fx)@ + touch_effects(*old(self)));
    }

    /// The pointer moved to `over` (a control of the bar, or the panel's
    /// Open or Close button) and, on the panel, `row`. What it is over is
    /// tracked for painting, and a drag in progress follows it.
    pub fn pointer_moved(&mut self, target: Target, over: Option<Hit>, row: Option<usize>) -> (fx: Vec<Effect>)
        requires
            old(self).well_formed(),
        ensures
            final(self).well_formed(),
            touched(*old(self), *final(self)),
            final(self).dragging == old(self).dragging,
            final(self).pressed == old(self).pressed,
            final(self).scroll == old(self).scroll,
            final(self).requests == old(self).requests,
            target == Target::Bar ==> {
                &&& final(self).hot == over && final(self).hot_row == old(self).hot_row
                &&& fx@ == touch_effects(*old(self)) + (if over != old(self).hot {
                    seq![Effect::RepaintBar]
                } else {
                    seq![]
                }) + (if old(self).dragging && over is Some {
                    seq![Effect::Drag(over->0)]
                } else {
                    seq![]
                })
            },
            target == Target::Panel ==> {
                &&& final(self).hot == over && final(self).hot_row == row
                &&& fx@ == touch_effects(*old(self)) + (if over != old(self).hot || row != old(
                    self,
                ).hot_row {
                    seq![Effect::RepaintPanel]
                } else {
                    seq![]
                })
            },
    {
        let mut fx: Vec<Effect> = Vec::new();
        self.touch(&mut fx);
        match target {
            Target::Panel => {
                if over != self.hot || row != self.hot_row {
                    self.hot = over;
                    self.hot_row = row;
                    fx.push(Effect::RepaintPanel);
                }
            },
            Target::Bar => {
                if over != self.hot {
                    self.hot = over;
                    fx.push(Effect::RepaintBar);
                }
                if self.dragging {
                    if let Some(what) = over {
                        fx.push(Effect::Drag(what));
                    }
                }
            },
        }
        fx
    }

    /// The left button went down over `over`. The pointer is captured; on the
    /// bar a control under it becomes pressed, and a slider starts dragging.
    pub fn pointer_pressed(&mut self, target: Target, over: Option<Hit>) -> (fx: Vec<Effect>)
        requires
            old(self).well_formed(),
        ensures
            final(self).well_formed(),
            touched(*old(self), *final(self)),
            final(self).hot == old(self).hot,
            final(self).hot_row == old(self).hot_row,
            final(self).scroll == old(self).scroll,
            final(self).requests == old(self).requests,
            target == Target::Panel ==> {
                &&& final(self).pressed == over && final(self).dragging == old(self).dragging
                &&& fx@ == touch_effects(*old(self)) + seq![Effect::Capture, Effect::RepaintPanel]
            },
            target == Target::Bar ==> match over {
                Some(w) => {
                    &&& final(self).pressed == Some(w)
                    &&& final(self).dragging == (old(self).dragging || w.slider())
                    &&& fx@ == touch_effects(*old(self)) + seq![Effect::Capture] + (if w.slider() {
                        seq![Effect::Drag(w)]
                    } else {
                        seq![]
                    }) + seq![Effect::RepaintBar]
                },
                None => {
                    &&& final(self).pressed == old(self).pressed && final(self).dragging == old(
                        self,
                    ).dragging
                    &&& fx@ == touch_effects(*old(self)) + seq![Effect::Capture, Effect::RepaintBar]
                },
            },
    {
        let mut fx: Vec<Effect> = Vec::new();
        self.touch(&mut fx);
        fx.push(Effect::Capture);
        match target {
            Target::Panel => {
                self.pressed = over;
                fx.push(Effect::RepaintPanel);
            },
            Target::Bar => {
                if let Some(what) = over {
                    self.pressed = Some(what);
                    if what.is_slider() {
                        self.dragging = true;
                        fx.push(Effect::Drag(what));
                    }
                }
                fx.push(Effect::RepaintBar);
            },
        }
        fx
    }

    /// The left button came up over `over` (and, on the panel, `row`): the
    /// click is turned into a request. On the bar, the list button also
    /// opens or closes the panel; on the panel, Open asks for files, Close
    /// shuts the panel, and a row asks for that row to play.
    pub fn pointer_released(&mut self, target: Target, over: Option<Hit>, row: Option<usize>) -> (fx: Vec<Effect>)
        requires
            old(self).well_formed(),
        ensures
            final(self).well_formed(),
            final(self).pressed is None,
            !final(self).dragging,
            final(self).hot == old(self).hot,
            final(self).hot_row == old(self).hot_row,
            final(self).scroll == old(self).scroll,
            final(self).hover_armed,
            !final(self).fading_out,
            final(self).visible == old(self).visible,
            final(self).rows == old(self).rows,
            target == Target::Bar ==> {
                let open_after = if over == Some(Hit::List) { !old(self).list_open } else { old(self).list_open };
                &&& final(self).list_open == open_after
                &&& final(self).requests == bar_click_requests(old(self).requests, over)
                &&& fx@ == touch_effects(*old(self)) + seq![Effect::ReleaseCapture] + bar_click_effects(
                    over,
                    open_after,
                ) + seq![Effect::RepaintBar]
            },
            target == Target::Panel ==> {
                if over == Some(Hit::Open) {
                    &&& final(self).list_open == old(self).list_open
                    &&& final(self).requests == (Requests { open_files: true, ..old(self).requests })
                    &&& fx@ == touch_effects(*old(self)) + seq![Effect::ReleaseCapture, Effect::RepaintPanel]
                } else if over == Some(Hit::Close) {
                    &&& !final(self).list_open
                    &&& final(self).requests == (Requests { toggle_playlist: true, ..old(self).requests })
                    &&& fx@ == touch_effects(*old(self)) + seq![
                        Effect::ReleaseCapture,
                        Effect::HidePanel,
                        Effect::RepaintPanel,
                    ]
                } else {
                    &&& final(self).list_open == old(self).list_open
                    &&& final(self).requests == (if row is Some {
                        Requests { play_row: row, ..old(self).requests }
                    } else {
                        old(self).requests
                    })
                    &&& fx@ == touch_effects(*old(self)) + seq![Effect::ReleaseCapture, Effect::RepaintPanel]
                }
            },
    {
        let mut fx: Vec<Effect> = Vec::new();
        self.touch(&mut fx);
        fx.push(Effect::ReleaseCapture);
        match target {
            Target::Panel => self.click_panel(over, row, &mut fx),
            Target::Bar => self.click_bar(over, &mut fx),
        }
        self.pressed = None;
        self.dragging = false;
        fx.push(repaint(target));
        fx
    }

    fn click_panel(&mut self, over: Option<Hit>, row: Option<usize>, fx: &mut Vec<Effect>)
        ensures
            final(self).rows == old(self).rows,
            final(self).visible == old(self).visible,
            final(self).alpha == old(self).alpha,
            final(self).fading_out == old(self).fading_out,
            final(self).hover_armed == old(self).hover_armed,
            final(self).hot == old(self).hot,
            final(self).hot_row == old(self).hot_row,
            final(self).scroll == old(self).scroll,
            if over == Some(Hit::Open) {
                &&& final(self).list_open == old(self).list_open
                &&& final(self).requests == (Requests { open_files: true, ..old(self).requests })
                &&& final(fx)@ == old(fx)@
            } else if over == Some(Hit::Close) {
                &&& !final(self).list_open
                &&& final(self).requests == (Requests { toggle_playlist: true, ..old(self).requests })
                &&& final(fx)@ == old(fx)@ + seq![Effect::HidePanel]
            } else {
                &&& final(self).list_open == old(self).list_open
                &&& final(self).requests == (if row is Some {
                    Requests { play_row: row, ..old(self).requests }
                } else {
                    old(self).requests
                })
                &&& final(fx)@ == old(fx)@
            },
    {
        if over == Some(Hit::Open) {
            self.requests.open_files = true;
        } else if over == Some(Hit::Close) {
            self.list_open = false;
            self.requests.toggle_playlist = true;
            fx.push(Effect::HidePanel);
        } else if let Some(r) = row {
            self.requests.play_row = Some(r);
        }
    }

    fn click_bar(&mut self, over: Option<Hit>, fx: &mut Vec<Effect>)
        ensures
            final(self).rows == old(self).rows,
            final(self).visible == old(self).visible,
            final(self).alpha == old(self).alpha,
            final(self).fading_out == old(self).fading_out,
            final(self).hover_armed == old(self).hover_armed,
            final(self).hot == old(self).hot,
            final(self).hot_row == old(self).hot_row,
            final(self).scroll == old(self).scroll,
            ({
                let open_after = if over == Some(Hit::List) { !old(self).list_open } else { old(self).list_open };
                &&& final(self).list_open == open_after
                &&& final(self).requests == bar_click_requests(old(self).requests, over)
                &&& final(fx)@ == old(fx)@ + bar_click_effects(over, open_after)
            }),
    {
        self.requests = bar_click_requests_of(self.requests, over);
        match over {
            Some(Hit::Rewind) => fx.push(Effect::SeekBack),
            Some(Hit::Forward) => fx.push(Effect::SeekForward),
            Some(Hit::List) => {
                self.list_open = !self.list_open;
                if self.list_open {
                    fx.push(Effect::ShowPanel);
                    fx.push(Effect::RepaintPanel);
                } else {
                    fx.push(Effect::HidePanel);
                }
            },
            _ => {},
        }
        assert(final(fx)@ =~= old(fx)@ + bar_click_effects(over, if over == Some(Hit::List) { !old(self).list_open } else { old(self).list_open }));
    }

    /// The wheel turned `notches` notches (positive away from the user). On
    /// the panel it scrolls by whole rows (`scale` is the DPI factor),
    /// within `0..=max_scroll`; on the bar it nudges the volume.
    pub fn wheel(&mut self, target: Target, notches: i32, scale: i32, max_scroll: i32) -> (fx: Vec<Effect>)
        requires
            old(self).well_formed(),
            -1000 <= notches <= 1000,
            1 <= scale <= 1000,
            max_scroll >= 0,
        ensures
            final(self).well_formed(),
            touched(*old(self), *final(self)),
            final(self).hot == old(self).hot,
            final(self).hot_row == old(self).hot_row,
            final(self).pressed == old(self).pressed,
            final(self).dragging == old(self).dragging,
            final(self).requests == old(self).requests,
            target == Target::Panel ==> {
                let want = old(self).scroll - notches * ROW_H * scale;
                let clamped = if want < 0 { 0 } else if want > max_scroll { max_scroll as int } else { want };
                &&& final(self).scroll == clamped
                &&& fx@ == touch_effects(*old(self)) + (if clamped != old(self).scroll {
                    seq![Effect::RepaintPanel]
                } else {
                    seq![]
                })
            },
            target == Target::Bar ==> {
                &&& final(self).scroll == old(self).scroll
                &&& fx@ == touch_effects(*old(self)) + seq![Effect::WheelVolume(notches), Effect::RepaintBar]
            },
    {
        let mut fx: Vec<Effect> = Vec::new();
        self.touch(&mut fx);
        match target {
            Target::Panel => {
                let before = self.scroll;
                assert(-42_000_000 <= (notches as int) * 42 * (scale as int) <= 42_000_000) by (nonlinear_arith)
                    requires
                        -1000 <= notches <= 1000,
                        1 <= scale <= 1000,
                ;
                let step: i64 = (notches as i64) * (ROW_H as i64) * (scale as i64);
                let want: i64 = (self.scroll as i64) - step;
                let clamped: i32 = if want < 0 {
                    0
                } else if want > max_scroll as i64 {
                    max_scroll
                } else {
                    want as i32
                };
                self.scroll = clamped;
                if before != self.scroll {
                    fx.push(Effect::RepaintPanel);
                }
            },
            Target::Bar => {
                fx.push(Effect::WheelVolume(notches));
                fx.push(Effect::RepaintBar);
            },
        }
        fx
    }

    /// The pointer left `target`: nothing is hot any more, the leave
    /// notification is spent, and while playing the idle countdown starts
    /// again.
    pub fn pointer_left(&mut self, target: Target) -> (fx: Vec<Effect>)
        requires
            old(self).well_formed(),
        ensures
            final(self).well_formed(),
            !final(self).hover_armed,
            final(self).hot is None && final(self).hot_row is None,
            final(self).visible == old(self).visible,
            final(self).fading_out == old(self).fading_out,
            final(self).alpha == old(self).alpha,
            final(self).list_open == old(self).list_open,
            final(self).requests == old(self).requests,
            final(self).scroll == old(self).scroll,
            fx@ == seq![repaint_of(target)] + (if old(self).playing { seq![Effect::SetIdleTimer] } else { seq![] }),
    {
        let mut fx: Vec<Effect> = Vec::new();
        self.hover_armed = false;
        self.hot = None;
        self.hot_row = None;
        fx.push(repaint(target));
        if self.playing {
            fx.push(Effect::SetIdleTimer);
        }
        fx
    }

    /// The idle countdown ran out: while playing, and not in the middle of a
    /// drag, the interface starts fading out.
    pub fn idle_elapsed(&mut self) -> (fx: Vec<Effect>)
        requires
            old(self).well_formed(),
        ensures
            final(self).well_formed(),
            same_content(*old(self), *final(self)),
            final(self).visible == old(self).visible,
            final(self).alpha == old(self).alpha,
            old(self).playing && !old(self).dragging ==> final(self).fading_out && fx@ == seq![
                Effect::KillIdleTimer,
                Effect::SetFadeTimer,
            ],
            !(old(self).playing && !old(self).dragging) ==> final(self).fading_out == old(self).fading_out
                && fx@ == seq![Effect::KillIdleTimer],
    {
        let mut fx: Vec<Effect> = Vec::new();
        fx.push(Effect::KillIdleTimer);
        if self.playing && !self.dragging {
            self.fading_out = true;
            fx.push(Effect::SetFadeTimer);
        }
        fx
    }

    /// One step of the fade: toward solid, or toward nothing when fading out,
    /// hiding the interface once a fade-out is complete.
    pub fn fade_tick(&mut self) -> (fx: Vec<Effect>)
        requires
            old(self).well_formed(),
        ensures
            final(self).well_formed(),
            same_content(*old(self), *final(self)),
            final(self).alpha == alpha_step(old(self).alpha as int, alpha_target(old(self).fading_out)),
            ({
                let done = final(self).alpha == alpha_target(old(self).fading_out);
                &&& done && old(self).fading_out ==> {
                    &&& !final(self).fading_out && !final(self).visible
                    &&& final(self).hot is None && final(self).hot_row is None
                    &&& fx@ == seq![
                        Effect::ApplyAlpha(final(self).alpha),
                        Effect::KillFadeTimer,
                        Effect::HideBar,
                        Effect::HidePanel,
                    ]
                }
                &&& !(done && old(self).fading_out) ==> {
                    &&& final(self).fading_out == old(self).fading_out
                    &&& final(self).visible == old(self).visible
                    &&& final(self).hot == old(self).hot
                    &&& final(self).hot_row == old(self).hot_row
                    &&& fx@ == seq![
                        Effect::ApplyAlpha(final(self).alpha),
                        if done { Effect::KillFadeTimer } else { Effect::SetFadeTimer },
                    ]
                }
            }),
    {
        let mut fx: Vec<Effect> = Vec::new();
        self.step_alpha(&mut fx);
        fx
    }
}

/// A fade moves toward its target by at most one step and never overshoots.
pub proof fn lemma_fade_step_bounded(cur: int, target: int)
    ensures
        cur <= target ==> cur <= alpha_step(cur, target) <= target,
        cur >= target ==> target <= alpha_step(cur, target) <= cur,
        alpha_step(cur, target) - cur <= ALPHA_STEP,
        cur - alpha_step(cur, target) <= ALPHA_STEP,
{
}

/// From any opacity, four fade steps reach the target: a fade-out always
/// ends with the interface hidden, and a fade-in always ends solid, within
/// four ticks.
pub proof fn lemma_fade_completes(a: int)
    requires
        0 <= a <= ALPHA_SOLID,
    ensures
        alpha_step(alpha_step(alpha_step(alpha_step(a, 0), 0), 0), 0) == 0,
        alpha_step(alpha_step(alpha_step(alpha_step(a, ALPHA_SOLID as int), ALPHA_SOLID as int), ALPHA_SOLID as int), ALPHA_SOLID as int) == ALPHA_SOLID,
{
}

/// Hands the panel what the playlist holds, in the order the user sees it,
/// and which row is playing.
pub fn publish_playlist(pl: &crate::playlist::Playlist, chrome: &mut Chrome, panel_live: bool) -> (fx: Vec<Effect>)
    requires
        old(chrome).well_formed(),
    ensures
        final(chrome).well_formed(),
        crate::text::texts(final(chrome).rows@) == crate::playlist::entry_names(pl.items@),
        final(chrome).current == pl.current,
        final(chrome).list_open == old(chrome).list_open,
        final(chrome).visible == old(chrome).visible,
        final(chrome).scroll == old(chrome).scroll,
        final(chrome).requests == old(chrome).requests,
        fx@ == (if !panel_live {
            seq![]
        } else if old(chrome).visible && old(chrome).list_open {
            seq![Effect::ClampScroll, Effect::RepaintPanel]
        } else {
            seq![Effect::ClampScroll]
        }),
{
    let names = pl.names();
    chrome.set_playlist(names, pl.current, panel_live)
}

} // verus!
