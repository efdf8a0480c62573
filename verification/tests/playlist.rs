use larrez_player::natural::Order;
use larrez_player::playlist::{Entry, Playlist, Repeat, Source};
use larrez_player::{is_subtitle, is_video, natural_cmp, sort_naturally};
use std::cmp::Ordering;

fn playlist_of(names: &[&str]) -> Playlist {
    let mut pl = Playlist::default();
    pl.items = names.iter().map(|n| Entry::new(n.to_string())).collect();
    pl
}

#[test]
fn natural_sort_orders_episodes() {
    let mut v = vec!["ep10.mkv", "ep2.mkv", "ep1.mkv"];
    v.sort_by(|a, b| natural_cmp(a, b));
    assert_eq!(v, vec!["ep1.mkv", "ep2.mkv", "ep10.mkv"]);
}

#[test]
fn recognises_containers() {
    assert!(is_video("a.mkv"));
    assert!(is_video("A.AVI"));
    assert!(!is_video("a.txt"));
    assert!(is_subtitle("a.srt"));
}

#[test]
fn repeat_off_stops_at_end() {
    let mut pl = Playlist::default();
    pl.items = vec![Entry::new("a.mkv".into()), Entry::new("b.mkv".into())];
    pl.current = Some(1);
    assert_eq!(pl.next_index(true), None);
    pl.repeat = Repeat::All;
    assert_eq!(pl.next_index(true), Some(0));
}

#[test]
fn natural_cmp_ignores_case_and_reads_numbers() {
    assert_eq!(natural_cmp("Ep2", "ep10"), Ordering::Less);
    assert_eq!(natural_cmp("ep10", "ep2"), Ordering::Greater);
    assert_eq!(natural_cmp("EP1.MKV", "ep1.mkv"), Ordering::Equal);
    assert_eq!(natural_cmp("a01", "a1"), Ordering::Equal);
    assert_eq!(natural_cmp("", "a"), Ordering::Less);
    assert_eq!(natural_cmp("b", ""), Ordering::Greater);
    assert_eq!(natural_cmp("", ""), Ordering::Equal);
    assert_eq!(natural_cmp("1", "a"), Ordering::Less);
}

#[test]
fn natural_cmp_saturates_huge_numbers() {
    let a = "x99999999999999999999999";
    let b = "x99999999999999999999998";
    assert_eq!(natural_cmp(a, b), Ordering::Equal);
    assert_eq!(natural_cmp("x18446744073709551614", "x18446744073709551615"), Ordering::Less);
}

#[test]
fn natural_order_is_antisymmetric_on_examples() {
    let names = ["ep1", "Ep01", "ep10", "ep2b", "ep2a", "", "1", "z"];
    for a in names {
        for b in names {
            assert_eq!(natural_cmp(a, b), natural_cmp(b, a).reverse());
        }
        assert_eq!(natural_cmp(a, a), Ordering::Equal);
    }
}

#[test]
fn natural_order_of_chars() {
    let x: Vec<char> = "ep2".chars().collect();
    let y: Vec<char> = "ep10".chars().collect();
    assert_eq!(larrez_player::natural::natural_order_of(&x, &y), Order::Less);
}

#[test]
fn sort_naturally_is_stable_and_sorted() {
    let v: Vec<String> = ["ep10.mkv", "b", "EP2.mkv", "ep02.mkv", "ep1.mkv", "a"]
        .iter()
        .map(|s| s.to_string())
        .collect();
    let sorted = sort_naturally(v);
    assert_eq!(sorted, vec!["a", "b", "ep1.mkv", "EP2.mkv", "ep02.mkv", "ep10.mkv"]);
}

#[test]
fn extensions_follow_the_file_name() {
    assert!(is_video("dir/movie.MkV"));
    assert!(!is_video(".mkv"));
    assert!(!is_video("movie"));
    assert!(!is_video("movie.mkv.txt"));
    assert!(is_video("movie.txt.mp4"));
    assert!(!is_video("mkv"));
    assert!(is_subtitle("subs/film.ASS"));
    assert!(!is_subtitle("film.mkv"));
    assert!(!is_video("folder.mkv/.."));
}

#[test]
fn entries_are_named_after_their_file() {
    let e = Entry::new("some/dir/ep1.mkv".to_string());
    assert_eq!(e.path, "some/dir/ep1.mkv");
    assert_eq!(e.name, "ep1.mkv");
    let e = Entry::new("..".to_string());
    assert_eq!(e.name, "..");
    let e = Entry::new("/".to_string());
    assert_eq!(e.name, "/");
    let e = Entry::new("C:\\Videos\\ep2.mkv".to_string());
    assert!(e.name == "ep2.mkv" || e.name == "C:\\Videos\\ep2.mkv");
    assert_eq!(larrez_player::cli::name_of("D:\\subs\\a.srt").ends_with("a.srt"), true);
}

#[test]
fn windows_paths_are_judged_by_their_extension() {
    assert!(is_video("C:\\Users\\me\\Videos\\Film.MKV"));
    assert!(is_video("D:\\a\\b.m2ts"));
    assert!(!is_video("C:\\Videos\\notes.txt"));
    assert!(is_subtitle("C:\\Videos\\Film.SRT"));
    assert!(!is_subtitle("C:\\Videos\\Film.mkv"));
    assert!(!is_video("C:\\Videos\\a.mkv.txt"));
    assert!(is_video("\\\\server\\share\\Film.mkv"));
    assert!(is_subtitle("\\\\server\\share\\dir\\Film.srt"));
    assert!(is_video("C:Film.avi"));
    let e = Entry::new("\\\\server\\share\\ep3.mkv".to_string());
    assert!(e.name == "ep3.mkv" || e.name == "\\\\server\\share\\ep3.mkv");
}

#[test]
fn repeat_cycles_through_three_modes() {
    assert_eq!(Repeat::Off.next(), Repeat::All);
    assert_eq!(Repeat::All.next(), Repeat::One);
    assert_eq!(Repeat::One.next(), Repeat::Off);
    for r in [Repeat::Off, Repeat::All, Repeat::One] {
        assert_eq!(r.next().next().next(), r);
        assert_eq!(Repeat::from_label(r.label()), r);
    }
    assert_eq!(Repeat::Off.label(), "off");
    assert_eq!(Repeat::All.label(), "all");
    assert_eq!(Repeat::One.label(), "one");
    assert_eq!(Repeat::from_label("ONE"), Repeat::Off);
    assert_eq!(Repeat::from_label(""), Repeat::Off);
}

#[test]
fn navigation_wraps_and_stops() {
    let mut pl = playlist_of(&["a.mkv", "b.mkv", "c.mkv"]);
    assert_eq!(pl.next_index(false), Some(1));
    pl.current = Some(2);
    assert_eq!(pl.next_index(false), Some(0));
    assert_eq!(pl.next_index(true), None);
    assert_eq!(pl.prev_index(), Some(1));
    pl.current = Some(0);
    assert_eq!(pl.prev_index(), Some(2));
    pl.repeat = Repeat::One;
    assert_eq!(pl.next_index(true), Some(0));
    assert_eq!(pl.next_index(false), Some(1));
    let empty = Playlist::default();
    assert_eq!(empty.next_index(false), None);
    assert_eq!(empty.prev_index(), None);
}

#[test]
fn prev_undoes_next_without_shuffle() {
    let mut pl = playlist_of(&["a.mkv", "b.mkv", "c.mkv", "d.mkv"]);
    for c in 0..4 {
        pl.current = Some(c);
        let n = pl.next_index(false).unwrap();
        pl.current = Some(n);
        assert_eq!(pl.prev_index(), Some(c));
        pl.current = Some(c);
        let p = pl.prev_index().unwrap();
        pl.current = Some(p);
        assert_eq!(pl.next_index(false), Some(c));
    }
}

#[test]
fn shuffle_never_repeats_the_current_track() {
    let mut pl = playlist_of(&["a.mkv", "b.mkv", "c.mkv"]);
    pl.shuffle = true;
    for c in 0..3 {
        pl.current = Some(c);
        for _ in 0..50 {
            let n = pl.next_index(false).unwrap();
            assert!(n < 3);
            assert_ne!(n, c);
        }
    }
    for seed in 0..10 {
        pl.current = Some(1);
        let n = pl.next_index_seeded(true, seed).unwrap();
        assert_ne!(n, 1);
    }
    assert_eq!(pl.next_index_seeded(false, 4), Some(2));
    assert_eq!(pl.next_index_seeded(false, 3), Some(0));
}

#[test]
fn current_entry_and_select() {
    let mut pl = playlist_of(&["a.mkv", "b.mkv"]);
    assert!(pl.current_entry().is_none());
    assert_eq!(pl.select(1), Some("b.mkv".to_string()));
    assert_eq!(pl.current, Some(1));
    assert_eq!(pl.current_entry().unwrap().name, "b.mkv");
    assert_eq!(pl.select(5), None);
    assert_eq!(pl.current, Some(1));
    pl.current = Some(9);
    assert!(pl.current_entry().is_none());
    assert_eq!(pl.names(), vec!["a.mkv", "b.mkv"]);
}

#[test]
fn add_paths_filters_and_sorts_folders() {
    let mut pl = Playlist::default();
    let n = pl.add_paths(&[
        Source::File("intro.mp4".to_string()),
        Source::File("notes.txt".to_string()),
        Source::Folder(vec![
            "show/ep10.mkv".to_string(),
            "show/cover.jpg".to_string(),
            "show/ep2.mkv".to_string(),
            "show/ep1.MKV".to_string(),
        ]),
        Source::Folder(vec![]),
    ]);
    assert_eq!(n, 4);
    let paths: Vec<&str> = pl.items.iter().map(|e| e.path.as_str()).collect();
    assert_eq!(paths, vec!["intro.mp4", "show/ep1.MKV", "show/ep2.mkv", "show/ep10.mkv"]);
    assert_eq!(pl.items[1].name, "ep1.MKV");
    assert_eq!(pl.current, None);
    let m = pl.add_paths(&[Source::File("x.avi".to_string())]);
    assert_eq!(m, 1);
    assert_eq!(pl.items.len(), 5);
    assert_eq!(pl.items[4].path, "x.avi");
}

#[test]
fn shuffle_and_repeat_notices() {
    let mut pl = Playlist::default();
    assert_eq!(pl.toggle_shuffle(), "Shuffle on");
    assert!(pl.shuffle);
    assert_eq!(pl.toggle_shuffle(), "Shuffle off");
    assert_eq!(pl.cycle_repeat(), "Repeat: all");
    assert_eq!(pl.cycle_repeat(), "Repeat: one");
    assert_eq!(pl.cycle_repeat(), "Repeat: off");
}
