//! The bar's icons. They are drawn rather than taken from a font, so that
//! they scale with the bar: each is a few shapes laid out around the centre
//! of its button, measured in units of the interface scale. The host draws
//! the shapes in order, with a pen two units wide.

use vstd::prelude::*;

use crate::ui::{Hit, Point};

verus! {

/// Whether a shape's inside takes the icon's colour, or only its edge is
/// drawn.
#[derive(Clone, Copy, Debug, PartialEq, Eq, Structural)]
pub enum Ink {
    Filled,
    Outline,
}

/// What a shape is. A box (a rounded rectangle, whose corners are rounded
/// by the given size, a rectangle, or the ellipse inside a box) is given by
/// two points, its top-left and bottom-right corners; a polygon and a
/// polyline by their points in order.
#[derive(Clone, Copy, Debug, PartialEq, Eq, Structural)]
pub enum Figure {
    RoundRect(i32),
    Rectangle,
    Ellipse,
    Polygon,
    Polyline,
}

/// One shape of an icon.
#[derive(Debug)]
pub struct Shape {
    pub figure: Figure,
    pub points: Vec<Point>,
    pub ink: Ink,
}

/// A shape as a value: what it is, its points, and its ink.
pub type ShapeView = (Figure, Seq<Point>, Ink);

impl View for Shape {
    type V = ShapeView;

    open spec fn view(&self) -> ShapeView {
        (self.figure, self.points@, self.ink)
    }
}

/// The shapes in order, as values.
pub open spec fn views(s: Seq<Shape>) -> Seq<ShapeView> {
    s.map_values(|x: Shape| x@)
}

/// The point at (`x`, `y`).
pub open spec fn pt(x: int, y: int) -> Point {
    Point { x: x as i32, y: y as i32 }
}

/// A box from (`l`, `t`) to (`r`, `b`).
pub open spec fn boxed(figure: Figure, l: int, t: int, r: int, b: int, ink: Ink) -> ShapeView {
    (figure, seq![pt(l, t), pt(r, b)], ink)
}

/// A filled triangle.
pub open spec fn triangle(a: Point, b: Point, c: Point) -> ShapeView {
    (Figure::Polygon, seq![a, b, c], Ink::Filled)
}

/// A stroke through the given points.
pub open spec fn stroke(points: Seq<Point>) -> ShapeView {
    (Figure::Polyline, points, Ink::Outline)
}

/// Skip to the previous (`dir` -1) or next (`dir` 1) track: a bar behind a
/// triangle pointing the way.
pub open spec fn skip_icon(dir: int, cx: int, cy: int, u: int) -> Seq<ShapeView> {
    let bar = cx - dir * 7 * u;
    let other = bar + 2 * u;
    seq![
        boxed(
            Figure::Rectangle,
            if bar <= other { bar } else { other },
            cy - 7 * u,
            if bar <= other { other } else { bar },
            cy + 7 * u,
            Ink::Filled,
        ),
        triangle(pt(cx - dir * 2 * u, cy - 6 * u), pt(cx - dir * 2 * u, cy + 6 * u), pt(cx + dir * 5 * u, cy)),
    ]
}

/// One of the two arrowheads of the seek icons, the `k`-th from the centre.
pub open spec fn seek_head(dir: int, k: int, cx: int, cy: int, u: int) -> ShapeView {
    let back = cx + dir * (6 + k * 6) * u;
    triangle(pt(back, cy - 5 * u), pt(back, cy + 5 * u), pt(back - dir * 4 * u, cy))
}

/// Seek back (`dir` -1) or forward (`dir` 1): two arrowheads.
pub open spec fn seek_icon(dir: int, cx: int, cy: int, u: int) -> Seq<ShapeView> {
    seq![seek_head(dir, 0, cx, cy, u), seek_head(dir, 1, cx, cy, u)]
}

/// The `k`-th sound wave beside the speaker.
pub open spec fn wave(k: int, cx: int, cy: int, u: int) -> ShapeView {
    let x = cx + (4 + k * 3) * u;
    let bulge = (3 - k) * u;
    stroke(seq![pt(x, cy - 5 * u), pt(x + bulge, cy), pt(x, cy + 5 * u)])
}

/// The speaker, crossed out when muted (`alt`), else with two waves.
pub open spec fn mute_icon(cx: int, cy: int, alt: bool, u: int) -> Seq<ShapeView> {
    let body = (
        Figure::Polygon,
        seq![
            pt(cx - 8 * u, cy - 3 * u),
            pt(cx - 4 * u, cy - 3 * u),
            pt(cx, cy - 7 * u),
            pt(cx, cy + 7 * u),
            pt(cx - 4 * u, cy + 3 * u),
            pt(cx - 8 * u, cy + 3 * u),
        ],
        Ink::Filled,
    );
    if alt {
        seq![
            body,
            stroke(seq![pt(cx + 3 * u, cy - 4 * u), pt(cx + 8 * u, cy + 4 * u)]),
            stroke(seq![pt(cx + 8 * u, cy - 4 * u), pt(cx + 3 * u, cy + 4 * u)]),
        ]
    } else {
        seq![body, wave(0, cx, cy, u), wave(1, cx, cy, u)]
    }
}

/// The `k`-th line of the playlist icon; the last is shorter.
pub open spec fn list_line(k: int, cx: int, cy: int, u: int) -> ShapeView {
    let y = cy + (k - 1) * 5 * u;
    let right = if k == 2 { cx + 3 * u } else { cx + 9 * u };
    stroke(seq![pt(cx - 9 * u, y), pt(right, y)])
}

/// One corner mark of the fullscreen icon, in the corner (`sx`, `sy`).
pub open spec fn corner_mark(sx: int, sy: int, cx: int, cy: int, u: int) -> ShapeView {
    let x = cx + sx * 8 * u;
    let y = cy + sy * 8 * u;
    stroke(seq![pt(x, y - sy * 4 * u), pt(x, y), pt(x - sx * 4 * u, y)])
}

/// The icon of the button `what`, centred on (`cx`, `cy`), in units of `u`;
/// `alt` picks its other face (pause for play, muted, leave fullscreen).
/// The buttons that show text, and the sliders, have none.
pub open spec fn icon(what: Hit, cx: int, cy: int, alt: bool, u: int) -> Seq<ShapeView> {
    match what {
        Hit::Play => if alt {
            seq![
                boxed(Figure::RoundRect((2 * u) as i32), cx - 6 * u, cy - 7 * u, cx - u, cy + 7 * u, Ink::Filled),
                boxed(Figure::RoundRect((2 * u) as i32), cx + u, cy - 7 * u, cx + 6 * u, cy + 7 * u, Ink::Filled),
            ]
        } else {
            seq![triangle(pt(cx - 4 * u, cy - 7 * u), pt(cx + 6 * u, cy), pt(cx - 4 * u, cy + 7 * u))]
        },
        Hit::Prev => skip_icon(-1, cx, cy, u),
        Hit::Next => skip_icon(1, cx, cy, u),
        Hit::Rewind => seek_icon(-1, cx, cy, u),
        Hit::Forward => seek_icon(1, cx, cy, u),
        Hit::Mute => mute_icon(cx, cy, alt, u),
        Hit::List => seq![
            list_line(0, cx, cy, u),
            list_line(1, cx, cy, u),
            list_line(2, cx, cy, u),
            triangle(pt(cx + 4 * u, cy - 6 * u), pt(cx + 4 * u, cy + 6 * u), pt(cx + 10 * u, cy)),
        ],
        Hit::Snap => seq![
            boxed(Figure::RoundRect((4 * u) as i32), cx - 9 * u, cy - 5 * u, cx + 9 * u, cy + 7 * u, Ink::Outline),
            boxed(Figure::Rectangle, cx - 4 * u, cy - 8 * u, cx + u, cy - 5 * u, Ink::Outline),
            boxed(Figure::Ellipse, cx - 3 * u, cy - u, cx + 3 * u, cy + 4 * u, Ink::Outline),
        ],
        Hit::Full => if alt {
            seq![
                boxed(Figure::Rectangle, cx - 8 * u, cy - 6 * u, cx + 6 * u, cy + 8 * u, Ink::Outline),
                boxed(Figure::Rectangle, cx - 6 * u, cy - 8 * u, cx + 8 * u, cy + 6 * u, Ink::Outline),
            ]
        } else {
            seq![
                corner_mark(-1, -1, cx, cy, u),
                corner_mark(1, -1, cx, cy, u),
                corner_mark(-1, 1, cx, cy, u),
                corner_mark(1, 1, cx, cy, u),
            ]
        },
        Hit::Close => seq![
            stroke(seq![pt(cx - 4 * u, cy - 4 * u), pt(cx + 4 * u, cy + 4 * u)]),
            stroke(seq![pt(cx + 4 * u, cy - 4 * u), pt(cx - 4 * u, cy + 4 * u)]),
        ],
        Hit::Open | Hit::Speed | Hit::Scrub | Hit::Volume => Seq::empty(),
    }
}

/// Every point an icon reaches, `c` plus or minus twelve units, is a
/// 32-bit coordinate.
pub open spec fn reach_fits(c: int, u: int) -> bool {
    &&& i32::MIN <= c - 12 * u <= i32::MAX
    &&& i32::MIN <= c + 12 * u <= i32::MAX
}

fn boxed_shape(figure: Figure, l: i32, t: i32, r: i32, b: i32, ink: Ink) -> (s: Shape)
    ensures
        s@ == boxed(figure, l as int, t as int, r as int, b as int, ink),
{
    let mut points: Vec<Point> = Vec::new();
    points.push(Point { x: l, y: t });
    points.push(Point { x: r, y: b });
    assert(points@ =~= seq![pt(l as int, t as int), pt(r as int, b as int)]);
    Shape { figure, points, ink }
}

fn triangle_shape(a: Point, b: Point, c: Point) -> (s: Shape)
    ensures
        s@ == triangle(a, b, c),
{
    let mut points: Vec<Point> = Vec::new();
    points.push(a);
    points.push(b);
    points.push(c);
    assert(points@ =~= seq![a, b, c]);
    Shape { figure: Figure::Polygon, points, ink: Ink::Filled }
}

fn line_shape(a: Point, b: Point) -> (s: Shape)
    ensures
        s@ == stroke(seq![a, b]),
{
    let mut points: Vec<Point> = Vec::new();
    points.push(a);
    points.push(b);
    assert(points@ =~= seq![a, b]);
    Shape { figure: Figure::Polyline, points, ink: Ink::Outline }
}

fn bend_shape(a: Point, b: Point, c: Point) -> (s: Shape)
    ensures
        s@ == stroke(seq![a, b, c]),
{
    let mut points: Vec<Point> = Vec::new();
    points.push(a);
    points.push(b);
    points.push(c);
    assert(points@ =~= seq![a, b, c]);
    Shape { figure: Figure::Polyline, points, ink: Ink::Outline }
}

/// The shapes of the icon of `what` centred on (`cx`, `cy`) in units of
/// `u`, its other face when `alt`, in the order they are drawn.
pub fn glyph_shapes(what: Hit, cx: i32, cy: i32, alt: bool, u: i32) -> (r: Vec<Shape>)
    requires
        reach_fits(cx as int, u as int),
        reach_fits(cy as int, u as int),
    ensures
        views(r@) == icon(what, cx as int, cy as int, alt, u as int),
{
    assert(-178_956_970 <= u <= 178_956_970);
    let mut r: Vec<Shape> = Vec::new();
    match what {
        Hit::Play => {
            if alt {
                r.push(boxed_shape(Figure::RoundRect(2 * u), cx - 6 * u, cy - 7 * u, cx - u, cy + 7 * u, Ink::Filled));
                r.push(boxed_shape(Figure::RoundRect(2 * u), cx + u, cy - 7 * u, cx + 6 * u, cy + 7 * u, Ink::Filled));
            } else {
                r.push(triangle_shape(
                    Point { x: cx - 4 * u, y: cy - 7 * u },
                    Point { x: cx + 6 * u, y: cy },
                    Point { x: cx - 4 * u, y: cy + 7 * u },
                ));
            }
            assert(views(r@) =~= icon(what, cx as int, cy as int, alt, u as int));
        },
        Hit::Prev | Hit::Next => {
            // The offsets that point the way: `dir` times 2, 5 and 7 units.
            let (d2, d5, d7) = if what == Hit::Prev {
                (0 - 2 * u, 0 - 5 * u, 0 - 7 * u)
            } else {
                (2 * u, 5 * u, 7 * u)
            };
            let bar = cx - d7;
            let other = bar + 2 * u;
            let (lo, hi) = if bar <= other { (bar, other) } else { (other, bar) };
            r.push(boxed_shape(Figure::Rectangle, lo, cy - 7 * u, hi, cy + 7 * u, Ink::Filled));
            r.push(triangle_shape(
                Point { x: cx - d2, y: cy - 6 * u },
                Point { x: cx - d2, y: cy + 6 * u },
                Point { x: cx + d5, y: cy },
            ));
            proof {
                let dir: int = if what == Hit::Prev { -1 } else { 1 };
                assert(d2 == dir * 2 * u && d5 == dir * 5 * u && d7 == dir * 7 * u) by (nonlinear_arith)
                    requires
                        dir == -1 || dir == 1,
                        dir == -1 ==> d2 == -2 * u && d5 == -5 * u && d7 == -7 * u,
                        dir == 1 ==> d2 == 2 * u && d5 == 5 * u && d7 == 7 * u,
                ;
                assert(icon(what, cx as int, cy as int, alt, u as int) == skip_icon(dir, cx as int, cy as int, u as int));
            }
            assert(views(r@) =~= icon(what, cx as int, cy as int, alt, u as int));
        },
        Hit::Rewind | Hit::Forward => {
            // `dir` times 6, 12 and 4 units.
            let (d6, d12, d4) = if what == Hit::Rewind {
                (0 - 6 * u, 0 - 12 * u, 0 - 4 * u)
            } else {
                (6 * u, 12 * u, 4 * u)
            };
            r.push(triangle_shape(
                Point { x: cx + d6, y: cy - 5 * u },
                Point { x: cx + d6, y: cy + 5 * u },
                Point { x: cx + d6 - d4, y: cy },
            ));
            r.push(triangle_shape(
                Point { x: cx + d12, y: cy - 5 * u },
                Point { x: cx + d12, y: cy + 5 * u },
                Point { x: cx + d12 - d4, y: cy },
            ));
            proof {
                let dir: int = if what == Hit::Rewind { -1 } else { 1 };
                assert(d6 == dir * (6 + 0 * 6) * u && d12 == dir * (6 + 1 * 6) * u && d4 == dir * 4 * u)
                    by (nonlinear_arith)
                    requires
                        dir == -1 || dir == 1,
                        dir == -1 ==> d6 == -6 * u && d12 == -12 * u && d4 == -4 * u,
                        dir == 1 ==> d6 == 6 * u && d12 == 12 * u && d4 == 4 * u,
                ;
                assert(icon(what, cx as int, cy as int, alt, u as int) == seek_icon(dir, cx as int, cy as int, u as int));
            }
            assert(views(r@) =~= icon(what, cx as int, cy as int, alt, u as int));
        },
        Hit::Mute => {
            let mut body: Vec<Point> = Vec::new();
            body.push(Point { x: cx - 8 * u, y: cy - 3 * u });
            body.push(Point { x: cx - 4 * u, y: cy - 3 * u });
            body.push(Point { x: cx, y: cy - 7 * u });
            body.push(Point { x: cx, y: cy + 7 * u });
            body.push(Point { x: cx - 4 * u, y: cy + 3 * u });
            body.push(Point { x: cx - 8 * u, y: cy + 3 * u });
            assert(body@ =~= mute_icon(cx as int, cy as int, alt, u as int)[0].1);
            r.push(Shape { figure: Figure::Polygon, points: body, ink: Ink::Filled });
            if alt {
                r.push(line_shape(Point { x: cx + 3 * u, y: cy - 4 * u }, Point { x: cx + 8 * u, y: cy + 4 * u }));
                r.push(line_shape(Point { x: cx + 8 * u, y: cy - 4 * u }, Point { x: cx + 3 * u, y: cy + 4 * u }));
            } else {
                r.push(bend_shape(
                    Point { x: cx + 4 * u, y: cy - 5 * u },
                    Point { x: cx + 7 * u, y: cy },
                    Point { x: cx + 4 * u, y: cy + 5 * u },
                ));
                r.push(bend_shape(
                    Point { x: cx + 7 * u, y: cy - 5 * u },
                    Point { x: cx + 9 * u, y: cy },
                    Point { x: cx + 7 * u, y: cy + 5 * u },
                ));
                assert(wave(0, cx as int, cy as int, u as int) == r@[1]@);
                assert(wave(1, cx as int, cy as int, u as int) == r@[2]@);
            }
            assert(views(r@) =~= icon(what, cx as int, cy as int, alt, u as int));
        },
        Hit::List => {
            r.push(line_shape(Point { x: cx - 9 * u, y: cy - 5 * u }, Point { x: cx + 9 * u, y: cy - 5 * u }));
            r.push(line_shape(Point { x: cx - 9 * u, y: cy }, Point { x: cx + 9 * u, y: cy }));
            r.push(line_shape(Point { x: cx - 9 * u, y: cy + 5 * u }, Point { x: cx + 3 * u, y: cy + 5 * u }));
            r.push(triangle_shape(
                Point { x: cx + 4 * u, y: cy - 6 * u },
                Point { x: cx + 4 * u, y: cy + 6 * u },
                Point { x: cx + 10 * u, y: cy },
            ));
            assert((1 - 1) * 5 * (u as int) == 0) by (nonlinear_arith);
            assert(list_line(0, cx as int, cy as int, u as int) == r@[0]@);
            assert(list_line(1, cx as int, cy as int, u as int) == r@[1]@);
            assert(list_line(2, cx as int, cy as int, u as int) == r@[2]@);
            assert(views(r@) =~= icon(what, cx as int, cy as int, alt, u as int));
        },
        Hit::Snap => {
            r.push(boxed_shape(Figure::RoundRect(4 * u), cx - 9 * u, cy - 5 * u, cx + 9 * u, cy + 7 * u, Ink::Outline));
            r.push(boxed_shape(Figure::Rectangle, cx - 4 * u, cy - 8 * u, cx + u, cy - 5 * u, Ink::Outline));
            r.push(boxed_shape(Figure::Ellipse, cx - 3 * u, cy - u, cx + 3 * u, cy + 4 * u, Ink::Outline));
            assert(views(r@) =~= icon(what, cx as int, cy as int, alt, u as int));
        },
        Hit::Full => {
            if alt {
                r.push(boxed_shape(Figure::Rectangle, cx - 8 * u, cy - 6 * u, cx + 6 * u, cy + 8 * u, Ink::Outline));
                r.push(boxed_shape(Figure::Rectangle, cx - 6 * u, cy - 8 * u, cx + 8 * u, cy + 6 * u, Ink::Outline));
            } else {
                r.push(bend_shape(
                    Point { x: cx - 8 * u, y: cy - 4 * u },
                    Point { x: cx - 8 * u, y: cy - 8 * u },
                    Point { x: cx - 4 * u, y: cy - 8 * u },
                ));
                r.push(bend_shape(
                    Point { x: cx + 8 * u, y: cy - 4 * u },
                    Point { x: cx + 8 * u, y: cy - 8 * u },
                    Point { x: cx + 4 * u, y: cy - 8 * u },
                ));
                r.push(bend_shape(
                    Point { x: cx - 8 * u, y: cy + 4 * u },
                    Point { x: cx - 8 * u, y: cy + 8 * u },
                    Point { x: cx - 4 * u, y: cy + 8 * u },
                ));
                r.push(bend_shape(
                    Point { x: cx + 8 * u, y: cy + 4 * u },
                    Point { x: cx + 8 * u, y: cy + 8 * u },
                    Point { x: cx + 4 * u, y: cy + 8 * u },
                ));
            }
            assert(views(r@) =~= icon(what, cx as int, cy as int, alt, u as int));
        },
        Hit::Close => {
            r.push(line_shape(Point { x: cx - 4 * u, y: cy - 4 * u }, Point { x: cx + 4 * u, y: cy + 4 * u }));
            r.push(line_shape(Point { x: cx + 4 * u, y: cy - 4 * u }, Point { x: cx - 4 * u, y: cy + 4 * u }));
            assert(views(r@) =~= icon(what, cx as int, cy as int, alt, u as int));
        },
        Hit::Open | Hit::Speed | Hit::Scrub | Hit::Volume => {},
    }
    assert(views(r@) =~= icon(what, cx as int, cy as int, alt, u as int));
    r
}

} // verus!
