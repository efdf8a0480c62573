use larrez_player::layout::{bar_layout, max_scroll, panel_layout, placement, scale_for_dpi};
use larrez_player::playlist::{Entry, Playlist};
use larrez_player::ui::{
    point_of, publish_playlist, rgb, wheel_notches, Chrome, Effect, Hit, Point, Rect, Target, ALPHA_SOLID,
};

#[test]
fn colorrefs_are_bgr() {
    assert_eq!(rgb(0x12, 0x34, 0x56), 0x0056_3412);
}

#[test]
fn rects_are_half_open_and_centred() {
    let r = Rect::new(10, 10, 20, 30);
    assert_eq!((r.w(), r.h()), (10, 20));
    assert_eq!((r.cx(), r.cy()), (15, 20));
    assert!(r.contains(Point { x: 10, y: 10 }));
    assert!(!r.contains(Point { x: 20, y: 10 }));
}

#[test]
fn a_zero_width_rect_contains_nothing() {
    let r = Rect::new(5, 0, 5, 10);
    assert!(!r.contains(Point { x: 5, y: 5 }));
    assert_eq!(Rect::new(-3, 0, 0, 1).cx(), -1);
}

#[test]
fn sliders_drag_and_buttons_click() {
    assert!(Hit::Scrub.is_slider());
    assert!(Hit::Volume.is_slider());
    assert!(!Hit::Play.is_slider());
    assert!(!Hit::List.is_slider());
}

fn shown_playing() -> Chrome {
    let mut c = Chrome::new();
    c.playing = true;
    let fx = c.note_motion(true);
    assert!(c.visible);
    assert_eq!(
        fx,
        vec![
            Effect::Place,
            Effect::ShowBar,
            Effect::Raise,
            Effect::ApplyAlpha(60),
            Effect::SetFadeTimer,
            Effect::SetIdleTimer
        ]
    );
    c
}

#[test]
fn the_interface_fades_in_and_out() {
    let mut c = shown_playing();
    for _ in 0..3 {
        c.fade_tick();
    }
    assert_eq!(c.alpha, ALPHA_SOLID);
    assert_eq!(c.fade_tick(), vec![Effect::ApplyAlpha(ALPHA_SOLID), Effect::KillFadeTimer]);
    assert_eq!(c.idle_elapsed(), vec![Effect::KillIdleTimer, Effect::SetFadeTimer]);
    assert!(c.fading_out);
    let mut ticks = 0;
    while c.visible {
        c.fade_tick();
        ticks += 1;
    }
    assert_eq!(ticks, 4);
    assert_eq!(c.alpha, 0);
    assert!(!c.fading_out);
}

#[test]
fn a_paused_interface_stays_put() {
    let mut c = shown_playing();
    c.note_video_click();
    assert!(c.fading_out);
    let fx = c.sync(false, true, true);
    assert!(!c.fading_out);
    assert_eq!(c.alpha, ALPHA_SOLID);
    assert_eq!(
        fx,
        vec![
            Effect::Place,
            Effect::Raise,
            Effect::RepaintBar,
            Effect::KillFadeTimer,
            Effect::ApplyAlpha(ALPHA_SOLID)
        ]
    );
    assert_eq!(c.idle_elapsed(), vec![Effect::KillIdleTimer]);
    assert!(!c.fading_out);
    assert!(c.sync(true, false, false).is_empty());
}

#[test]
fn clicks_become_requests_that_drain_once() {
    let mut c = shown_playing();
    c.pointer_pressed(Target::Bar, Some(Hit::Play));
    assert_eq!(c.pressed, Some(Hit::Play));
    let fx = c.pointer_released(Target::Bar, Some(Hit::Play), None);
    assert_eq!(fx.last(), Some(&Effect::RepaintBar));
    assert!(c.pressed.is_none());
    c.pointer_released(Target::Bar, Some(Hit::List), None);
    assert!(c.list_open);
    c.pointer_released(Target::Panel, None, Some(3));
    let r = c.take_requests();
    assert!(r.toggle_pause && r.toggle_playlist && !r.next);
    assert_eq!(r.play_row, Some(3));
    assert!(r.any());
    assert!(!c.take_requests().any());
    let fx = c.pointer_released(Target::Bar, Some(Hit::Rewind), None);
    assert!(fx.contains(&Effect::SeekBack));
    assert!(!c.take_requests().any());
}

#[test]
fn dragging_a_slider_follows_the_pointer() {
    let l = bar_layout(1000, 1);
    let over = |x: i32, y: i32| l.at(Point { x, y }).map(|(h, _)| h);
    let mut c = shown_playing();
    let fx = c.pointer_pressed(Target::Bar, over(750, 50));
    assert!(c.dragging);
    assert!(fx.contains(&Effect::Drag(Hit::Volume)));
    let fx = c.pointer_moved(Target::Bar, over(500, 12), None);
    assert!(fx.contains(&Effect::Drag(Hit::Scrub)));
    assert_eq!(c.hot, Some(Hit::Scrub));
    c.pointer_released(Target::Bar, None, None);
    assert!(!c.dragging);
}

#[test]
fn the_scrub_track_can_be_grabbed() {
    let l = bar_layout(1000, 1);
    let hit = l.at(Point { x: 400, y: 10 }).map(|(h, _)| h);
    assert_eq!(hit, Some(Hit::Scrub));
    let mut c = shown_playing();
    let fx = c.pointer_pressed(Target::Bar, hit);
    assert!(c.dragging);
    assert_eq!(c.pressed, Some(Hit::Scrub));
    assert!(fx.contains(&Effect::Drag(Hit::Scrub)));
}

#[test]
fn the_panel_toggles_and_scrolls() {
    let mut c = Chrome::new();
    let fx = c.toggle_playlist(true);
    assert!(c.list_open && c.visible);
    assert_eq!(fx.last(), Some(&Effect::RepaintPanel));
    assert!(fx.contains(&Effect::ShowPanel));
    c.toggle_playlist(true);
    assert!(!c.list_open);
    let fx = c.wheel(Target::Panel, -2, 1, 100);
    assert_eq!(c.scroll, 84);
    assert!(fx.contains(&Effect::RepaintPanel));
    c.wheel(Target::Panel, -10, 1, 100);
    assert_eq!(c.scroll, 100);
    c.wheel(Target::Panel, 10, 2, 100);
    assert_eq!(c.scroll, 0);
    c.clamp_scroll(50);
    assert_eq!(c.scroll, 0);
    let fx = c.wheel(Target::Bar, 1, 1, 0);
    assert!(fx.contains(&Effect::WheelVolume(1)));
    let fx = c.pointer_left(Target::Panel);
    assert_eq!(fx, vec![Effect::RepaintPanel]);
    assert!(c.hot.is_none());
}

#[test]
fn the_playlist_is_published_to_the_panel() {
    let mut pl = Playlist::default();
    pl.items = vec![Entry::new("x/a.mkv".into()), Entry::new("b.mkv".into())];
    pl.current = Some(1);
    let mut c = Chrome::new();
    let fx = publish_playlist(&pl, &mut c, true);
    assert_eq!(c.rows, vec!["a.mkv".to_string(), "b.mkv".to_string()]);
    assert_eq!(c.current, Some(1));
    assert_eq!(fx, vec![Effect::ClampScroll]);
    assert!(publish_playlist(&pl, &mut c, false).is_empty());
}

#[test]
fn the_bar_lays_out_its_controls() {
    let l = bar_layout(1000, 1);
    assert!(!l.compact);
    assert_eq!(l.hits.len(), 12);
    assert_eq!(l.at(Point { x: 830, y: 50 }).map(|(h, _)| h), Some(Hit::Speed));
    assert_eq!(l.at(Point { x: 120, y: 50 }).map(|(h, _)| h), Some(Hit::Play));
    assert_eq!(l.at(Point { x: 980, y: 50 }).map(|(h, _)| h), Some(Hit::Full));
    assert_eq!(l.at(Point { x: 500, y: 50 }), None);
    assert_eq!(l.volume, Rect::new(701, 33, 787, 73));
    assert_eq!(l.time, Rect::new(249, 24, 367, 82));
    let small = bar_layout(600, 1);
    assert!(small.compact);
    assert_eq!(small.hits.len(), 11);
    assert!(small.hits.iter().all(|(h, _)| *h != Hit::Speed));
    assert_eq!(small.volume, Rect::new(363, 33, 449, 73));
    assert_eq!(small.at(Point { x: 330, y: 50 }).map(|(h, _)| h), Some(Hit::Mute));
    assert_eq!(small.at(Point { x: 230, y: 50 }).map(|(h, _)| h), Some(Hit::Next));
    let tight = bar_layout(448, 1);
    assert_eq!(tight.hits.len(), 9);
    assert!(tight.hits.iter().all(|(h, _)| *h != Hit::Rewind && *h != Hit::Forward));
    assert_eq!(tight.at(Point { x: 130, y: 50 }).map(|(h, _)| h), Some(Hit::Next));
    assert_eq!(tight.at(Point { x: 170, y: 50 }).map(|(h, _)| h), Some(Hit::Mute));
    // Every control of a bar from 448 pixels on is apart from the others.
    for w in [448, 480, 525, 526, 550, 719, 720, 1000] {
        let b = bar_layout(w, 1);
        for (i, (_, a)) in b.hits.iter().enumerate() {
            for (_, r) in b.hits.iter().skip(i + 1) {
                assert!(!(a.l < r.r && r.l < a.r && a.t < r.b && r.t < a.b), "{w}");
            }
        }
    }
    let doubled = bar_layout(2000, 2);
    assert_eq!(doubled.pill, Rect::new(0, 48, 2000, 164));
    assert!(bar_layout(0, 1).hits.is_empty());
}

#[test]
fn windows_are_placed_inside_the_parent() {
    let (bar, panel) = placement(1280, 720, 1).unwrap();
    assert_eq!(bar, Rect::new(16, 622, 1264, 704));
    assert_eq!(panel, Rect::new(952, 16, 1264, 606));
    assert!(placement(0, 720, 1).is_none());
    let (_, narrow) = placement(200, 100, 1).unwrap();
    assert_eq!(narrow.l, 16);
    assert_eq!(narrow.b, 96);
    assert_eq!(scale_for_dpi(0), 1);
    assert_eq!(scale_for_dpi(192), 2);
    assert_eq!(max_scroll(10, 1, 300), 164);
    assert_eq!(max_scroll(1, 1, 300), 0);
}

#[test]
fn panel_rows_are_hit_by_height() {
    let p = panel_layout(312, 500, 1);
    assert_eq!(p.body_top, 44);
    assert_eq!(p.button_at(Point { x: 250, y: 20 }), Some(Hit::Open));
    assert_eq!(p.button_at(Point { x: 200, y: 20 }), Some(Hit::Close));
    assert_eq!(p.row_at(Point { x: 10, y: 30 }, 5, 0), None);
    assert_eq!(p.row_at(Point { x: 10, y: 44 }, 5, 0), Some(0));
    assert_eq!(p.row_at(Point { x: 10, y: 90 }, 5, 0), Some(1));
    assert_eq!(p.row_at(Point { x: 10, y: 90 }, 5, 42), Some(2));
    assert_eq!(p.row_at(Point { x: 10, y: 400 }, 5, 0), None);
}

#[test]
fn mouse_messages_carry_signed_words() {
    assert_eq!(point_of(0x0014_000A), Point { x: 10, y: 20 });
    assert_eq!(point_of(-1), Point { x: -1, y: -1 });
    assert_eq!(point_of(0x8000_7FFF), Point { x: 0x7FFF, y: -0x8000 });
    assert_eq!(wheel_notches(120 << 16), 1);
    assert_eq!(wheel_notches(0xFF88 << 16), -1);
    assert_eq!(wheel_notches(60 << 16), 0);
    assert_eq!(wheel_notches((0xFF10 << 16) | 0x1234), -2);
}

#[test]
fn made_and_gone_windows_keep_the_list() {
    let mut c = shown_playing();
    c.rows = vec!["a".to_string()];
    c.list_open = true;
    c.windows_created();
    assert!(!c.visible);
    assert_eq!(c.alpha, 0);
    assert!(c.list_open);
    assert_eq!(c.rows, vec!["a".to_string()]);
    c.visible = true;
    c.dispose();
    assert!(!c.visible && c.list_open && c.playing);
}

#[test]
fn rows_are_drawn_where_they_are_found() {
    let pl = panel_layout(312, 300, 1);
    let shown = pl.visible_rows(20, 100, 300);
    // 100 pixels down, the third row (index 2) is the first still in view.
    assert_eq!(shown[0], (2, 44 - 100 + 2 * 42));
    assert!(shown.windows(2).all(|p| p[1].0 == p[0].0 + 1 && p[1].1 == p[0].1 + 42));
    let (last, top) = *shown.last().unwrap();
    assert!(top < 300 && top + 42 >= 300);
    for (i, y) in shown {
        if y >= pl.body_top {
            assert_eq!(pl.row_at(Point { x: 50, y: y + 1 }, 20, 100), Some(i));
        }
    }
    assert_eq!(last, 8);
    assert!(pl.visible_rows(0, 0, 300).is_empty());
}
