use larrez_player::resume::{ResumeTable, RESUME_CAP};

#[test]
fn a_remembered_position_comes_back() {
    let mut t = ResumeTable::new();
    let pos = 300.0f64.to_bits();
    t.remember("x.mkv".to_string(), Some(pos));
    assert_eq!(t.resume_for("x.mkv"), Some(pos));
    assert_eq!(f64::from_bits(t.resume_for("x.mkv").unwrap()), 300.0);
    t.remember("x.mkv".to_string(), Some(12));
    assert_eq!(t.resume_for("x.mkv"), Some(12));
    assert_eq!(t.len(), 1);
    t.remember("x.mkv".to_string(), None);
    assert_eq!(t.resume_for("x.mkv"), None);
    assert_eq!(t.len(), 0);
}

#[test]
fn the_table_stays_within_its_cap() {
    let mut t = ResumeTable::new();
    for i in 0..(RESUME_CAP + 20) {
        t.remember(format!("f{i}.mkv"), Some(i as u64));
        assert!(t.len() <= RESUME_CAP);
        assert_eq!(t.resume_for(&format!("f{i}.mkv")), Some(i as u64));
    }
    assert_eq!(t.len(), RESUME_CAP);
    assert_eq!(t.resume_for("f0.mkv"), None);
    assert_eq!(t.resume_for("f319.mkv"), Some(319));
}

#[test]
fn pairs_round_trip() {
    let t = ResumeTable::from_pairs(vec![
        ("a".to_string(), 1),
        ("b".to_string(), 2),
        ("a".to_string(), 3),
    ]);
    assert_eq!(t.len(), 2);
    assert_eq!(t.resume_for("a"), Some(3));
    let back = ResumeTable::from_pairs(t.to_pairs());
    assert_eq!(back.resume_for("b"), Some(2));
    assert_eq!(back.resume_for("a"), Some(3));
}

#[test]
fn a_full_table_gives_up_only_its_oldest_entry() {
    let mut t = ResumeTable::new();
    for i in 0..RESUME_CAP {
        t.remember(format!("f{i}.mkv"), Some(i as u64));
    }
    t.remember("new.mkv".to_string(), Some(7));
    assert_eq!(t.len(), RESUME_CAP);
    assert_eq!(t.resume_for("f0.mkv"), None);
    for i in 1..RESUME_CAP {
        assert_eq!(t.resume_for(&format!("f{i}.mkv")), Some(i as u64));
    }
    // Updating a path that is already there evicts nothing.
    t.remember("f5.mkv".to_string(), Some(55));
    assert_eq!(t.resume_for("f1.mkv"), Some(1));
    assert_eq!(t.len(), RESUME_CAP);
}
