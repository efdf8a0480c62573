use larrez_player::look::{row_number, ButtonLook, Tone};
use larrez_player::ui::{Chrome, Hit};

#[test]
fn play_sits_on_the_accent() {
    let mut c = Chrome::new();
    assert_eq!(
        c.button_look(Hit::Play, false, false, true),
        ButtonLook { backdrop: Some(Tone::Accent), icon: Tone::OnAccent, alt: false }
    );
    assert!(c.button_look(Hit::Play, false, false, false).alt);
    c.pressed = Some(Hit::Play);
    assert_eq!(
        c.button_look(Hit::Play, false, false, true),
        ButtonLook { backdrop: Some(Tone::Press), icon: Tone::Accent, alt: false }
    );
}

#[test]
fn buttons_light_up_when_on_or_hot() {
    let mut c = Chrome::new();
    assert_eq!(
        c.button_look(Hit::Snap, false, false, true),
        ButtonLook { backdrop: None, icon: Tone::Muted, alt: false }
    );
    assert_eq!(
        c.button_look(Hit::Mute, true, false, true),
        ButtonLook { backdrop: None, icon: Tone::Text, alt: true }
    );
    assert_eq!(
        c.button_look(Hit::Full, false, true, true),
        ButtonLook { backdrop: None, icon: Tone::Text, alt: true }
    );
    c.list_open = true;
    assert_eq!(
        c.button_look(Hit::List, false, false, true),
        ButtonLook { backdrop: None, icon: Tone::Text, alt: false }
    );
    c.hot = Some(Hit::Snap);
    assert_eq!(
        c.button_look(Hit::Snap, false, false, true),
        ButtonLook { backdrop: Some(Tone::Hover), icon: Tone::Text, alt: false }
    );
    c.pressed = Some(Hit::Snap);
    assert_eq!(c.button_look(Hit::Snap, false, false, true).backdrop, Some(Tone::Press));
}

#[test]
fn the_scrub_head_grows_when_grabbed() {
    let mut c = Chrome::new();
    assert_eq!(c.scrub_head(), (5, Tone::Text));
    c.hot = Some(Hit::Scrub);
    assert_eq!(c.scrub_head(), (8, Tone::Accent));
    c.hot = None;
    c.dragging = true;
    assert_eq!(c.scrub_head(), (8, Tone::Accent));
}

#[test]
fn the_panel_title_counts_rows() {
    let mut c = Chrome::new();
    assert_eq!(c.panel_title(), "Playlist");
    c.rows = vec!["a".to_string(), "b".to_string(), "c".to_string()];
    assert_eq!(c.panel_title(), "Playlist   0 / 3");
    c.current = Some(1);
    assert_eq!(c.panel_title(), "Playlist   2 / 3");
}

#[test]
fn row_numbers_count_from_one_in_two_columns() {
    assert_eq!(row_number(0), " 1");
    assert_eq!(row_number(8), " 9");
    assert_eq!(row_number(9), "10");
    assert_eq!(row_number(99), "100");
}
