//! How the controls look in each state: which backdrop a button gets, which
//! tone its icon takes and which face it shows, the scrub head, and the
//! panel's title. The host holds the colours and does the drawing.

use vstd::prelude::*;

use crate::text::{decimal, decimal_of, push_char, spaces};
use crate::ui::{Chrome, Hit};

verus! {

/// The interface's palette, by role.
#[derive(Clone, Copy, Debug, PartialEq, Eq, Structural)]
pub enum Tone {
    /// Ordinary text and lit icons.
    Text,
    /// Quiet text and icons at rest.
    Muted,
    /// The accent: the play button, progress, what is on.
    Accent,
    /// Drawn on top of the accent.
    OnAccent,
    /// Behind what the pointer is over.
    Hover,
    /// Behind what is held down.
    Press,
}

/// How a bar button is drawn: the rounded backdrop behind it, if any, the
/// tone of its icon, and whether the icon shows its other face.
#[derive(Clone, Copy, Debug, PartialEq, Eq, Structural)]
pub struct ButtonLook {
    pub backdrop: Option<Tone>,
    pub icon: Tone,
    pub alt: bool,
}

/// The look of the bar button `what` while the pointer is over it (`hot`)
/// or holding it (`down`). Play always sits on the accent and shows pause
/// while playing; the others are lit when what they stand for is on (the
/// list open, the sound muted, the window fullscreen) or under the pointer,
/// and mute and fullscreen then show their other face.
pub open spec fn button_look_of(
    what: Hit,
    hot: bool,
    down: bool,
    list_open: bool,
    muted: bool,
    fullscreen: bool,
    playing: bool,
) -> ButtonLook {
    if what == Hit::Play {
        ButtonLook {
            backdrop: Some(if down { Tone::Press } else { Tone::Accent }),
            icon: if down { Tone::Accent } else { Tone::OnAccent },
            alt: !playing,
        }
    } else {
        let on = (what == Hit::Mute && muted) || (what == Hit::Full && fullscreen);
        let lit = on || (what == Hit::List && list_open);
        ButtonLook {
            backdrop: if down {
                Some(Tone::Press)
            } else if hot {
                Some(Tone::Hover)
            } else {
                None
            },
            icon: if lit || hot { Tone::Text } else { Tone::Muted },
            alt: on,
        }
    }
}

/// Every button but play is bare at rest, gets the hover backdrop under the
/// pointer and the press backdrop while held; play always sits on the
/// accent (pressed: the press tone) and shows pause while playing; mute
/// shows its other face exactly when muted, fullscreen exactly when
/// fullscreen, and no other button ever does.
pub proof fn lemma_button_looks(what: Hit, hot: bool, down: bool, list_open: bool, muted: bool, fullscreen: bool, playing: bool)
    ensures
        what != Hit::Play ==> button_look_of(what, false, false, list_open, muted, fullscreen, playing).backdrop is None,
        what != Hit::Play ==> button_look_of(what, true, false, list_open, muted, fullscreen, playing).backdrop == Some(
            Tone::Hover,
        ),
        what != Hit::Play ==> button_look_of(what, hot, true, list_open, muted, fullscreen, playing).backdrop == Some(
            Tone::Press,
        ),
        what == Hit::Play ==> button_look_of(what, hot, down, list_open, muted, fullscreen, playing).backdrop == Some(
            if down { Tone::Press } else { Tone::Accent },
        ),
        what == Hit::Play ==> button_look_of(what, hot, down, list_open, muted, fullscreen, playing).alt == !playing,
        what == Hit::Mute ==> button_look_of(what, hot, down, list_open, muted, fullscreen, playing).alt == muted,
        what == Hit::Full ==> button_look_of(what, hot, down, list_open, muted, fullscreen, playing).alt == fullscreen,
        what != Hit::Play && what != Hit::Mute && what != Hit::Full ==> !button_look_of(
            what,
            hot,
            down,
            list_open,
            muted,
            fullscreen,
            playing,
        ).alt,
{
}

/// The scrub head: larger and in the accent while it is grabbed (dragged,
/// held, or under the pointer); its radius in units of the interface scale.
pub open spec fn scrub_head_of(grabbed: bool) -> (i32, Tone) {
    if grabbed {
        (8, Tone::Accent)
    } else {
        (5, Tone::Text)
    }
}

/// The panel's title: "Playlist", and with rows the current one's number
/// (0 when none plays) over their count.
pub open spec fn panel_title_of(rows: nat, current: Option<nat>) -> Seq<char> {
    if rows == 0 {
        "Playlist"@
    } else {
        let cur: nat = match current {
            Some(i) => i + 1,
            None => 0,
        };
        "Playlist   "@ + decimal(cur) + " / "@ + decimal(rows)
    }
}

/// The number shown before a playlist row: its place counted from one,
/// right-aligned in two columns.
pub open spec fn row_number_of(index: nat) -> Seq<char> {
    let d = decimal(index + 1);
    if d.len() < 2 {
        spaces((2 - d.len()) as nat) + d
    } else {
        d
    }
}

/// The number shown before the playlist row at `index`.
pub fn row_number(index: usize) -> (r: String)
    requires
        index < usize::MAX,
    ensures
        r@ == row_number_of(index as nat),
{
    let d = decimal_of(index as u64 + 1);
    if d.unicode_len() < 2 {
        let mut r = String::new();
        push_char(&mut r, ' ');
        r.append(d.as_str());
        proof {
            assert(d@.len() == 1);
            assert(spaces(1) =~= seq![' ']);
            assert(r@ =~= spaces((2 - d@.len()) as nat) + d@);
        }
        r
    } else {
        d
    }
}

impl Chrome {
    /// Whether the pointer is over `what`.
    pub open spec fn is_hot(&self, what: Hit) -> bool {
        self.hot == Some(what)
    }

    /// Whether `what` is held down.
    pub open spec fn is_down(&self, what: Hit) -> bool {
        self.pressed == Some(what)
    }

    /// The look of the bar button `what` now, given what the player reports:
    /// sound muted, window fullscreen, playing.
    pub fn button_look(&self, what: Hit, muted: bool, fullscreen: bool, playing: bool) -> (r: ButtonLook)
        ensures
            r == button_look_of(
                what,
                self.is_hot(what),
                self.is_down(what),
                self.list_open,
                muted,
                fullscreen,
                playing,
            ),
    {
        let hot = self.hot == Some(what);
        let down = self.pressed == Some(what);
        if what == Hit::Play {
            ButtonLook {
                backdrop: Some(if down { Tone::Press } else { Tone::Accent }),
                icon: if down { Tone::Accent } else { Tone::OnAccent },
                alt: !playing,
            }
        } else {
            let on = (what == Hit::Mute && muted) || (what == Hit::Full && fullscreen);
            let lit = on || (what == Hit::List && self.list_open);
            let backdrop = if down {
                Some(Tone::Press)
            } else if hot {
                Some(Tone::Hover)
            } else {
                None
            };
            ButtonLook { backdrop, icon: if lit || hot { Tone::Text } else { Tone::Muted }, alt: on }
        }
    }

    /// The scrub head's radius, in units of the interface scale, and tone.
    pub fn scrub_head(&self) -> (r: (i32, Tone))
        ensures
            r == scrub_head_of(self.dragging || self.is_hot(Hit::Scrub) || self.is_down(Hit::Scrub)),
    {
        let grabbed = self.dragging || self.hot == Some(Hit::Scrub) || self.pressed == Some(Hit::Scrub);
        if grabbed {
            (8, Tone::Accent)
        } else {
            (5, Tone::Text)
        }
    }

    /// The panel's title for the rows it shows.
    pub fn panel_title(&self) -> (r: String)
        requires
            self.current matches Some(i) ==> i < usize::MAX,
        ensures
            r@ == panel_title_of(
                self.rows@.len(),
                match self.current {
                    Some(i) => Some(i as nat),
                    None => None,
                },
            ),
    {
        if self.rows.len() == 0 {
            return String::from_str("Playlist");
        }
        let cur: u64 = match self.current {
            Some(i) => i as u64 + 1,
            None => 0,
        };
        let mut r = String::from_str("Playlist   ");
        r.append(decimal_of(cur).as_str());
        r.append(" / ");
        r.append(decimal_of(self.rows.len() as u64).as_str());
        r
    }
}

} // verus!
