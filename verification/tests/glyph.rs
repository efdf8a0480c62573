use larrez_player::glyph::{glyph_shapes, Figure, Ink};
use larrez_player::ui::{Hit, Point};

fn pts(v: &[(i32, i32)]) -> Vec<Point> {
    v.iter().map(|&(x, y)| Point { x, y }).collect()
}

#[test]
fn close_is_a_cross() {
    let s = glyph_shapes(Hit::Close, 10, 20, false, 1);
    assert_eq!(s.len(), 2);
    assert_eq!(s[0].figure, Figure::Polyline);
    assert_eq!(s[0].points, pts(&[(6, 16), (14, 24)]));
    assert_eq!(s[1].points, pts(&[(14, 16), (6, 24)]));
}

#[test]
fn play_turns_into_pause() {
    let play = glyph_shapes(Hit::Play, 0, 0, false, 2);
    assert_eq!(play.len(), 1);
    assert_eq!(play[0].figure, Figure::Polygon);
    assert_eq!(play[0].ink, Ink::Filled);
    assert_eq!(play[0].points, pts(&[(-8, -14), (12, 0), (-8, 14)]));

    let pause = glyph_shapes(Hit::Play, 0, 0, true, 2);
    assert_eq!(pause.len(), 2);
    assert_eq!(pause[0].figure, Figure::RoundRect(4));
    assert_eq!(pause[0].points, pts(&[(-12, -14), (-2, 14)]));
    assert_eq!(pause[1].points, pts(&[(2, -14), (12, 14)]));
}

#[test]
fn skip_icons_point_the_way() {
    let prev = glyph_shapes(Hit::Prev, 100, 50, false, 1);
    assert_eq!(prev[0].figure, Figure::Rectangle);
    assert_eq!(prev[0].points, pts(&[(107, 43), (109, 57)]));
    assert_eq!(prev[1].points, pts(&[(102, 44), (102, 56), (95, 50)]));

    let next = glyph_shapes(Hit::Next, 100, 50, false, 1);
    assert_eq!(next[0].points, pts(&[(93, 43), (95, 57)]));
    assert_eq!(next[1].points, pts(&[(98, 44), (98, 56), (105, 50)]));
}

#[test]
fn seek_icons_have_two_heads() {
    let back = glyph_shapes(Hit::Rewind, 0, 0, false, 1);
    assert_eq!(back.len(), 2);
    assert_eq!(back[0].points, pts(&[(-6, -5), (-6, 5), (-2, 0)]));
    assert_eq!(back[1].points, pts(&[(-12, -5), (-12, 5), (-8, 0)]));
    let fwd = glyph_shapes(Hit::Forward, 0, 0, false, 1);
    assert_eq!(fwd[1].points, pts(&[(12, -5), (12, 5), (8, 0)]));
}

#[test]
fn mute_and_fullscreen_have_two_faces() {
    let loud = glyph_shapes(Hit::Mute, 0, 0, false, 1);
    let muted = glyph_shapes(Hit::Mute, 0, 0, true, 1);
    assert_eq!(loud[0].points.len(), 6);
    assert_eq!(loud[1].points, pts(&[(4, -5), (7, 0), (4, 5)]));
    assert_eq!(loud[2].points, pts(&[(7, -5), (9, 0), (7, 5)]));
    assert_eq!(muted[1].points, pts(&[(3, -4), (8, 4)]));

    let enter = glyph_shapes(Hit::Full, 0, 0, false, 1);
    assert_eq!(enter.len(), 4);
    assert_eq!(enter[0].points, pts(&[(-8, -4), (-8, -8), (-4, -8)]));
    assert_eq!(enter[3].points, pts(&[(8, 4), (8, 8), (4, 8)]));
    let leave = glyph_shapes(Hit::Full, 0, 0, true, 1);
    assert_eq!(leave[0].ink, Ink::Outline);
    assert_eq!(leave[0].points, pts(&[(-8, -6), (6, 8)]));
}

#[test]
fn list_and_snap_icons() {
    let list = glyph_shapes(Hit::List, 0, 0, false, 1);
    assert_eq!(list.len(), 4);
    assert_eq!(list[2].points, pts(&[(-9, 5), (3, 5)]));
    assert_eq!(list[3].ink, Ink::Filled);
    let snap = glyph_shapes(Hit::Snap, 0, 0, false, 1);
    assert_eq!(snap[0].figure, Figure::RoundRect(4));
    assert_eq!(snap[2].figure, Figure::Ellipse);
    assert!(glyph_shapes(Hit::Speed, 0, 0, false, 1).is_empty());
}
