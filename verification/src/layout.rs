//! Where the interface's windows and controls go. Everything is laid out in
//! logical pixels and multiplied by the integer DPI scale, so a resize or a
//! 4K panel cannot leave a control where the pointer no longer agrees with
//! the pixels.

use vstd::prelude::*;

use crate::ui::{Hit, Point, Rect, HEAD_H, ROW_H};

verus! {

pub const MARGIN: i32 = 16;
pub const BAR_H: i32 = 82;
pub const SCRUB_BAND: i32 = 24;
pub const PAD: i32 = 13;
pub const GAP: i32 = 6;
pub const BTN: i32 = 40;
pub const BTN_PLAY: i32 = 46;
pub const TIME_W: i32 = 118;
pub const VOL_W: i32 = 86;
pub const CHIP_W: i32 = 56;
pub const PANEL_W: i32 = 312;
/// Below this width the read-out and the speed chip give the buttons room,
/// so every control stays reachable in a small window.
pub const COMPACT_W: i32 = 720;
/// Below this width the seek buttons give way as well (seeking stays on the
/// arrow keys), so that the bar of the smallest window still has room for
/// every control it shows.
pub const TIGHT_W: i32 = 526;

/// `s` is a scale (at least 1), and `k` logical pixels at that scale are
/// still a 32-bit coordinate.
pub open spec fn fits_scaled(s: int, k: int) -> bool {
    1 <= s && k * s <= i32::MAX
}

fn rect(l: i32, t: i32, r: i32, b: i32) -> (x: Rect)
    ensures
        x == (Rect { l, t, r, b }),
{
    Rect { l, t, r, b }
}

pub open spec fn rect_of(l: int, t: int, r: int, b: int) -> Rect {
    Rect { l: l as i32, t: t as i32, r: r as i32, b: b as i32 }
}

/// The integer scale for a window's DPI: how many times 96 it holds, or 1
/// where the DPI is unknown (reported as 0) or below 96.
pub fn scale_for_dpi(dpi: u32) -> (s: i32)
    ensures
        s == (if 96 <= dpi <= i32::MAX { dpi / 96 } else { 1 }),
        s >= 1,
{
    if dpi >= 96 && dpi <= 2147483647 {
        (dpi / 96) as i32
    } else {
        1
    }
}

/// Where the bar and the panel go in a parent of `pw` by `ph`: the bar
/// across the bottom inside the margin, the panel down the right side above
/// it (but never shorter than 80 pixels). Nothing when the parent has no
/// area.
pub open spec fn placement_of(pw: int, ph: int, s: int) -> Option<(Rect, Rect)> {
    if pw <= 0 || ph <= 0 {
        None
    } else {
        let m = MARGIN * s;
        let bar_t = ph - m - BAR_H * s;
        let bottom = if bar_t - m > m + 80 * s { bar_t - m } else { m + 80 * s };
        let left = if pw - m - PANEL_W * s > m { pw - m - PANEL_W * s } else { m };
        Some((rect_of(m, bar_t, pw - m, ph - m), rect_of(left, m, pw - m, bottom)))
    }
}

/// Where the bar and the panel go in the parent's client area.
pub fn placement(pw: i32, ph: i32, s: i32) -> (r: Option<(Rect, Rect)>)
    requires
        fits_scaled(s as int, 328),
    ensures
        r == placement_of(pw as int, ph as int, s as int),
{
    if pw <= 0 || ph <= 0 {
        return None;
    }
    let m = MARGIN * s;
    let bar = rect(m, ph - m - BAR_H * s, pw - m, ph - m);
    let wide = PANEL_W * s;
    let bottom = if bar.t - m > m + 80 * s { bar.t - m } else { m + 80 * s };
    let left = if pw - m - wide > m { pw - m - wide } else { m };
    let panel = rect(left, m, pw - m, bottom);
    Some((bar, panel))
}

/// How far the panel can scroll: what its rows and header need beyond its
/// height, or nothing when they fit.
pub open spec fn max_scroll_of(rows: int, s: int, panel_h: int) -> int {
    let need = rows * ROW_H * s + HEAD_H * s;
    if need - panel_h > 0 {
        need - panel_h
    } else {
        0
    }
}

/// How far a panel `panel_h` high, listing `rows` rows, can scroll.
pub fn max_scroll(rows: usize, s: i32, panel_h: i32) -> (r: i32)
    requires
        1 <= s,
        (rows as int) * ROW_H * s + HEAD_H * s <= i32::MAX,
        (rows as int) * ROW_H * s + HEAD_H * s - panel_h <= i32::MAX,
    ensures
        r == max_scroll_of(rows as int, s as int, panel_h as int),
        r >= 0,
{
    assert(0 <= (rows as int) * 42 <= (rows as int) * 42 * (s as int)) by (nonlinear_arith)
        requires
            1 <= s,
            rows >= 0,
    ;
    let n = rows as i64;
    let need: i64 = n * (ROW_H as i64) * (s as i64) + (HEAD_H as i64) * (s as i64);
    let over: i64 = need - (panel_h as i64);
    if over > 0 {
        over as i32
    } else {
        0
    }
}

/// Where the controls of a bar are.
#[derive(Debug, Clone, Default)]
pub struct Layout {
    /// The rounded card the controls sit on, below the scrub band.
    pub pill: Rect,
    /// The scrub track, in the band above the card.
    pub scrub: Rect,
    pub volume: Rect,
    /// The time read-out; empty when the bar is compact.
    pub time: Rect,
    /// Every clickable control with its rectangle, in hit-testing order.
    pub hits: Vec<(Hit, Rect)>,
    /// Too narrow for the time read-out.
    pub compact: bool,
    pub scale: i32,
}

/// A button of the bar's row, from `l` to `r` logical pixels, centred on
/// the card.
pub open spec fn button(what: Hit, l: int, r: int, s: int) -> (Hit, Rect) {
    (what, rect_of(l * s, 33 * s, r * s, 73 * s))
}

/// A button of the bar's row measured from the right edge `w`.
pub open spec fn button_from_right(what: Hit, l: int, r: int, w: int, s: int) -> (Hit, Rect) {
    (what, rect_of(w - l * s, 33 * s, w - r * s, 73 * s))
}

/// The controls of a bar `w` wide at scale `s`, in hit-testing order: the
/// scrub track in the band above the card; then across the card from left
/// to right previous, rewind, play (taller than the rest), forward and
/// next; and at the right mute, volume, the speed chip, playlist, screenshot
/// and fullscreen, packed against the right edge. A compact bar (narrower
/// than `COMPACT_W`) has no speed chip, and a tight one (narrower than
/// `TIGHT_W`) no rewind and forward either, play and next closing up.
pub open spec fn bar_hits(w: int, s: int) -> Seq<(Hit, Rect)> {
    let scrub = (Hit::Scrub, rect_of(13 * s, 6 * s, w - 13 * s, 18 * s));
    let prev = button(Hit::Prev, 13, 53, s);
    let list = button_from_right(Hit::List, 145, 105, w, s);
    let snap = button_from_right(Hit::Snap, 99, 59, w, s);
    let full = button_from_right(Hit::Full, 53, 13, w, s);
    if w < TIGHT_W * s {
        seq![
            scrub,
            prev,
            (Hit::Play, rect_of(59 * s, 30 * s, 105 * s, 76 * s)),
            button(Hit::Next, 111, 151, s),
            button_from_right(Hit::Mute, 283, 243, w, s),
            button_from_right(Hit::Volume, 237, 151, w, s),
            list,
            snap,
            full,
        ]
    } else {
        let left = seq![
            scrub,
            prev,
            button(Hit::Rewind, 59, 99, s),
            (Hit::Play, rect_of(105 * s, 30 * s, 151 * s, 76 * s)),
            button(Hit::Forward, 157, 197, s),
            button(Hit::Next, 203, 243, s),
        ];
        if w < COMPACT_W * s {
            left + seq![
                button_from_right(Hit::Mute, 283, 243, w, s),
                button_from_right(Hit::Volume, 237, 151, w, s),
                list,
                snap,
                full,
            ]
        } else {
            left + seq![
                button_from_right(Hit::Mute, 345, 305, w, s),
                button_from_right(Hit::Volume, 299, 213, w, s),
                button_from_right(Hit::Speed, 207, 151, w, s),
                list,
                snap,
                full,
            ]
        }
    }
}

/// Lays out a bar `w` wide at scale `s`. A bar with no width has no
/// controls.
pub fn bar_layout(w: i32, s: i32) -> (l: Layout)
    requires
        fits_scaled(s as int, 720),
    ensures
        l.scale == s,
        w <= 0 ==> l.hits@.len() == 0 && !l.compact,
        w > 0 ==> {
            &&& l.pill == rect_of(0, 24 * s, w as int, 82 * s)
            &&& l.scrub == rect_of(13 * s, 6 * s, w - 13 * s, 18 * s)
            &&& l.compact == (w < COMPACT_W * s)
            &&& l.time == (if l.compact { rect_of(0, 0, 0, 0) } else { rect_of(249 * s, 24 * s, 367 * s, 82 * s) })
            &&& l.volume == (if l.compact {
                rect_of(w - 237 * s, 33 * s, w - 151 * s, 73 * s)
            } else {
                rect_of(w - 299 * s, 33 * s, w - 213 * s, 73 * s)
            })
            &&& l.hits@ == bar_hits(w as int, s as int)
        },
{
    if w <= 0 {
        return Layout {
            pill: rect(0, 0, 0, 0),
            scrub: rect(0, 0, 0, 0),
            volume: rect(0, 0, 0, 0),
            time: rect(0, 0, 0, 0),
            hits: Vec::new(),
            compact: false,
            scale: s,
        };
    }
    let pill = rect(0, SCRUB_BAND * s, w, BAR_H * s);
    let mid = (pill.t + pill.b) / 2;
    assert(mid == 53 * s);
    let btn = BTN * s;
    let play = BTN_PLAY * s;
    let pad = PAD * s;
    let gap = GAP * s;
    let top = mid - btn / 2;
    let bottom = mid + btn / 2;
    let compact = w < COMPACT_W * s;
    let band = (SCRUB_BAND * s) / 2;
    let scrub = rect(pad, band - 6 * s, w - pad, band + 6 * s);

    let mut hits: Vec<(Hit, Rect)> = Vec::new();
    hits.push((Hit::Scrub, scrub));

    // The left group, from the left edge; the seek buttons only where there
    // is room for them.
    let tight = w < TIGHT_W * s;
    let mut x = pad;
    hits.push((Hit::Prev, rect(x, top, x + btn, bottom)));
    x = x + btn + gap;
    if !tight {
        hits.push((Hit::Rewind, rect(x, top, x + btn, bottom)));
        x = x + btn + gap;
    }
    hits.push((Hit::Play, rect(x, mid - play / 2, x + play, mid + play / 2)));
    x = x + play + gap;
    if !tight {
        hits.push((Hit::Forward, rect(x, top, x + btn, bottom)));
        x = x + btn + gap;
    }
    hits.push((Hit::Next, rect(x, top, x + btn, bottom)));
    x = x + btn + gap;
    let time = if !compact { rect(x, pill.t, x + TIME_W * s, pill.b) } else { rect(0, 0, 0, 0) };

    // The right group, from the right edge inwards.
    let full = rect(w - pad - btn, top, w - pad, bottom);
    let snap = rect(full.l - gap - btn, top, full.l - gap, bottom);
    let list = rect(snap.l - gap - btn, top, snap.l - gap, bottom);
    let speed = rect(list.l - gap - CHIP_W * s, top, list.l - gap, bottom);
    let beside = if compact { list.l } else { speed.l };
    let volume = rect(beside - gap - VOL_W * s, top, beside - gap, bottom);
    let mute = rect(volume.l - gap - btn, top, volume.l - gap, bottom);
    hits.push((Hit::Mute, mute));
    hits.push((Hit::Volume, volume));
    if !compact {
        hits.push((Hit::Speed, speed));
    }
    hits.push((Hit::List, list));
    hits.push((Hit::Snap, snap));
    hits.push((Hit::Full, full));
    assert(hits@ =~= bar_hits(w as int, s as int));
    Layout { pill, scrub, volume, time, hits, compact, scale: s }
}

/// The controls of a bar `w` wide at scale `s`, by name, in the order of
/// `bar_hits`: the scrub track, then the buttons from left to right.
pub open spec fn bar_order(w: int, s: int) -> Seq<Hit> {
    if w < TIGHT_W * s {
        seq![Hit::Scrub, Hit::Prev, Hit::Play, Hit::Next, Hit::Mute, Hit::Volume, Hit::List, Hit::Snap, Hit::Full]
    } else if w < COMPACT_W * s {
        seq![
            Hit::Scrub,
            Hit::Prev,
            Hit::Rewind,
            Hit::Play,
            Hit::Forward,
            Hit::Next,
            Hit::Mute,
            Hit::Volume,
            Hit::List,
            Hit::Snap,
            Hit::Full,
        ]
    } else {
        seq![
            Hit::Scrub,
            Hit::Prev,
            Hit::Rewind,
            Hit::Play,
            Hit::Forward,
            Hit::Next,
            Hit::Mute,
            Hit::Volume,
            Hit::Speed,
            Hit::List,
            Hit::Snap,
            Hit::Full,
        ]
    }
}

/// Whether two rectangles share a point.
pub open spec fn overlap(a: Rect, b: Rect) -> bool {
    a.l < b.r && b.l < a.r && a.t < b.b && b.t < a.b
}

/// No two controls share a point.
pub open spec fn apart(hits: Seq<(Hit, Rect)>) -> bool {
    forall|i: int, j: int| 0 <= i < j < hits.len() ==> !overlap(#[trigger] hits[i].1, #[trigger] hits[j].1)
}

/// Controls after the first run left to right, each starting where the one
/// before has ended, and all of them lie below the first.
proof fn lemma_row_apart(h: Seq<(Hit, Rect)>)
    requires
        forall|k: int| 1 <= k < h.len() ==> (#[trigger] h[k]).1.l <= h[k].1.r && h[0].1.b <= h[k].1.t,
        forall|k: int| 1 <= k < h.len() - 1 ==> (#[trigger] h[k]).1.r <= h[k + 1].1.l,
    ensures
        apart(h),
{
    assert forall|i: int, j: int| 0 <= i < j < h.len() implies !overlap(#[trigger] h[i].1, #[trigger] h[j].1) by {
        if i > 0 {
            lemma_row_order(h, i, j);
        }
    }
}

/// In such a row, a control ends where any later one has not yet begun.
proof fn lemma_row_order(h: Seq<(Hit, Rect)>, i: int, j: int)
    requires
        forall|k: int| 1 <= k < h.len() ==> (#[trigger] h[k]).1.l <= h[k].1.r && h[0].1.b <= h[k].1.t,
        forall|k: int| 1 <= k < h.len() - 1 ==> (#[trigger] h[k]).1.r <= h[k + 1].1.l,
        1 <= i < j < h.len(),
    ensures
        h[i].1.r <= h[j].1.l,
    decreases j - i,
{
    if j > i + 1 {
        lemma_row_order(h, i, j - 1);
        assert(h[j - 1].1.r <= h[j].1.l);
    }
}

/// Every control of a bar is a rectangle of its own: none is empty, and no
/// two share a point, so each is reached wherever it is drawn. This holds
/// for every bar from 448 logical pixels on, the bar of the smallest
/// window (480 pixels, less the margins). Below the scrub track the buttons
/// read from left to right in the order named by `bar_order`, fullscreen
/// last against the right edge.
pub proof fn lemma_bar_controls_apart(w: int, s: int)
    requires
        fits_scaled(s, 720),
        448 * s <= w <= i32::MAX,
    ensures
        apart(bar_hits(w, s)),
        bar_hits(w, s).map_values(|x: (Hit, Rect)| x.0) == bar_order(w, s),
        forall|k: int| 1 <= k < bar_hits(w, s).len() - 1 ==> (#[trigger] bar_hits(w, s)[k]).1.r <= bar_hits(w, s)[k + 1].1.l,
        bar_hits(w, s).last().1.r == w - 13 * s,
        forall|k: int| 0 <= k < bar_hits(w, s).len() ==> ({
            let r = (#[trigger] bar_hits(w, s)[k]).1;
            r.l < r.r && r.t < r.b
        }),
{
    let h = bar_hits(w, s);
    assert(forall|k: int| 0 <= k < h.len() ==> ({
        let r = (#[trigger] h[k]).1;
        r.l < r.r && r.t < r.b && (k >= 1 ==> h[0].1.b <= r.t)
    }));
    assert(forall|k: int| 1 <= k < h.len() - 1 ==> (#[trigger] h[k]).1.r <= h[k + 1].1.l);
    lemma_row_apart(h);
    assert(h.map_values(|x: (Hit, Rect)| x.0) =~= bar_order(w, s));
}

/// A point on the scrub track finds the track: it is the first control
/// tested, so pressing there starts a drag of it.
pub proof fn lemma_scrub_track_is_hit(w: int, s: int, p: Point)
    requires
        rect_of(13 * s, 6 * s, w - 13 * s, 18 * s).holds(p),
    ensures
        first_hit(bar_hits(w, s), p) == Some((Hit::Scrub, rect_of(13 * s, 6 * s, w - 13 * s, 18 * s))),
{
}

/// Where the controls are apart, the one found at a point is the one that
/// holds it.
pub proof fn lemma_first_hit_apart(hits: Seq<(Hit, Rect)>, i: int, p: Point)
    requires
        apart(hits),
        0 <= i < hits.len(),
        hits[i].1.holds(p),
    ensures
        first_hit(hits, p) == Some(hits[i]),
    decreases i,
{
    if i > 0 {
        assert(!hits[0].1.holds(p)) by {
            assert(!overlap(hits[0].1, hits[i].1));
        }
        let rest = hits.skip(1);
        assert forall|a: int, b: int| 0 <= a < b < rest.len() implies !overlap(#[trigger] rest[a].1, #[trigger] rest[b].1) by {
            assert(rest[a] == hits[a + 1] && rest[b] == hits[b + 1]);
        }
        lemma_first_hit_apart(rest, i - 1, p);
    }
}

/// The first control in `hits` whose rectangle holds `p`.
pub open spec fn first_hit(hits: Seq<(Hit, Rect)>, p: Point) -> Option<(Hit, Rect)>
    decreases hits.len(),
{
    if hits.len() == 0 {
        None
    } else if hits[0].1.holds(p) {
        Some(hits[0])
    } else {
        first_hit(hits.skip(1), p)
    }
}

impl Layout {
    /// The control under `p`, if any.
    pub fn at(&self, p: Point) -> (r: Option<(Hit, Rect)>)
        ensures
            r == first_hit(self.hits@, p),
    {
        let mut i: usize = 0;
        assert(self.hits@.skip(0) =~= self.hits@);
        while i < self.hits.len()
            invariant
                i <= self.hits@.len(),
                first_hit(self.hits@, p) == first_hit(self.hits@.skip(i as int), p),
            decreases self.hits@.len() - i,
        {
            let (h, r) = self.hits[i];
            if r.contains(p) {
                return Some((h, r));
            }
            assert(self.hits@.skip(i as int).skip(1) =~= self.hits@.skip(i + 1));
            i = i + 1;
        }
        None
    }
}

/// Where row `i` of a panel starts, scrolled by `scroll`, with rows
/// `row_h` high below the header ending at `body_top`.
pub open spec fn row_top(body_top: int, scroll: int, row_h: int, i: int) -> int {
    body_top - scroll + i * row_h
}

/// A point inside row `i` where it is drawn is found over row `i`: painting
/// and hit-testing agree.
pub proof fn lemma_drawn_row_is_hit(body_top: int, scroll: int, row_h: int, i: int, y: int)
    requires
        row_h > 0,
        row_top(body_top, scroll, row_h, i) <= y < row_top(body_top, scroll, row_h, i) + row_h,
    ensures
        (y + scroll - body_top) / row_h == i,
{
    vstd::arithmetic::div_mod::lemma_fundamental_div_mod_converse(
        y + scroll - body_top,
        row_h,
        i,
        y - row_top(body_top, scroll, row_h, i),
    );
}

/// The parts of the playlist panel.
#[derive(Debug, Clone, Copy)]
pub struct Panel {
    pub head: Rect,
    pub open: Rect,
    pub close: Rect,
    /// Where the rows start.
    pub body_top: i32,
    pub scale: i32,
}

/// Lays out a panel `w` by `h` at scale `s`: a header with the Open and
/// Close buttons at its right, and the rows below it.
pub fn panel_layout(w: i32, h: i32, s: i32) -> (p: Panel)
    requires
        fits_scaled(s as int, 124),
        w - 124 * s >= i32::MIN,
    ensures
        p.head == rect_of(0, 0, w as int, 44 * s),
        p.open == rect_of(w - 88 * s, 9 * s, w - 12 * s, 35 * s),
        p.close == rect_of(w - 124 * s, 9 * s, w - 96 * s, 35 * s),
        p.body_top == (if 44 * s < h { 44 * s } else { h as int }),
        p.scale == s,
{
    let head = rect(0, 0, w, HEAD_H * s);
    let open = rect(w - 88 * s, 9 * s, w - 12 * s, HEAD_H * s - 9 * s);
    let close = rect(w - 124 * s, 9 * s, w - 96 * s, HEAD_H * s - 9 * s);
    let body_top = if head.b < h { head.b } else { h };
    Panel { head, open, close, body_top, scale: s }
}

impl Panel {
    /// The header button under `p`: Open, then Close, else nothing.
    pub fn button_at(&self, p: Point) -> (r: Option<Hit>)
        ensures
            r == (if self.open.holds(p) {
                Some(Hit::Open)
            } else if self.close.holds(p) {
                Some(Hit::Close)
            } else {
                None
            }),
    {
        if self.open.contains(p) {
            Some(Hit::Open)
        } else if self.close.contains(p) {
            Some(Hit::Close)
        } else {
            None
        }
    }

    /// The rows a panel `height` high shows with `rows` rows scrolled by
    /// `scroll`, from the first that reaches below the top of the rows to the
    /// last that starts above the bottom edge, each with where it starts:
    /// row `i` one row height after row `i - 1`, so that a row is drawn
    /// where `row_at` finds it.
    pub fn visible_rows(&self, rows: usize, scroll: i32, height: i32) -> (r: Vec<(usize, i32)>)
        requires
            fits_scaled(self.scale as int, ROW_H as int),
            0 <= scroll,
            self.body_top - scroll >= i32::MIN,
            height + ROW_H * self.scale <= i32::MAX,
        ensures
            ({
                let row_h = ROW_H * self.scale;
                let first = scroll as int / row_h;
                &&& forall|k: int|
                    0 <= k < r@.len() ==> {
                        let top = row_top(self.body_top as int, scroll as int, row_h, first + k);
                        &&& #[trigger] r@[k] == ((first + k) as usize, top as i32)
                        &&& first + k < rows
                        &&& top < height
                    }
                &&& first + r@.len() >= rows || row_top(self.body_top as int, scroll as int, row_h, first + r@.len())
                    >= height
            }),
    {
        assert(ROW_H * self.scale >= 42 && ROW_H * self.scale <= i32::MAX) by (nonlinear_arith)
            requires
                ROW_H == 42,
                fits_scaled(self.scale as int, 42),
        ;
        let row_h = ROW_H * self.scale;
        let first = scroll / row_h;
        let ghost g_first = first as int;
        let skipped = scroll - scroll % row_h;
        assert(skipped == first * row_h) by {
            vstd::arithmetic::div_mod::lemma_fundamental_div_mod(scroll as int, row_h as int);
        }
        let mut y = self.body_top - scroll + skipped;
        let mut i: usize = first as usize;
        let mut r: Vec<(usize, i32)> = Vec::new();
        while y < height && i < rows
            invariant
                row_h == ROW_H * self.scale,
                row_h >= 42,
                height + row_h <= i32::MAX,
                i == g_first + r@.len(),
                y == row_top(self.body_top as int, scroll as int, row_h as int, i as int),
                g_first == scroll / row_h,
                forall|k: int|
                    0 <= k < r@.len() ==> {
                        let top = row_top(self.body_top as int, scroll as int, row_h as int, g_first + k);
                        &&& #[trigger] r@[k] == ((g_first + k) as usize, top as i32)
                        &&& g_first + k < rows
                        &&& top < height
                    },
            decreases rows - i,
        {
            r.push((i, y));
            proof {
                assert(row_top(self.body_top as int, scroll as int, row_h as int, i + 1) == y + row_h)
                    by (nonlinear_arith)
                    requires
                        y == row_top(self.body_top as int, scroll as int, row_h as int, i as int),
                ;
            }
            y = y + row_h;
            i = i + 1;
        }
        r
    }

    /// Which of `rows` rows the point `p` is over, with the panel scrolled by
    /// `scroll`; nothing over the header or below the last row.
    pub fn row_at(&self, p: Point, rows: usize, scroll: i32) -> (r: Option<usize>)
        requires
            fits_scaled(self.scale as int, ROW_H as int),
            0 <= scroll,
            p.y >= self.body_top ==> p.y + scroll <= i32::MAX && p.y + scroll - self.body_top <= i32::MAX,
        ensures
            r == (if p.y < self.body_top {
                None::<usize>
            } else {
                let idx = (p.y + scroll - self.body_top) / (ROW_H * self.scale);
                if idx < rows { Some(idx as usize) } else { None }
            }),
    {
        if p.y < self.body_top {
            return None;
        }
        assert(ROW_H * self.scale >= 42 && ROW_H * self.scale <= i32::MAX) by (nonlinear_arith)
            requires
                ROW_H == 42,
                fits_scaled(self.scale as int, 42),
        ;
        let row_h = ROW_H * self.scale;
        let along = p.y + scroll - self.body_top;
        assert(along >= 0);
        let idx = along / row_h;
        if idx < 0 {
            return None;
        }
        let n = idx as usize;
        if n < rows {
            Some(n)
        } else {
            None
        }
    }
}

} // verus!
