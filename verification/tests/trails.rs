use inertia::trail::{OrbitTrail, Trail, TrailBook};

#[test]
fn trail_keeps_most_recent_points() {
    let mut trail: Trail<i32, [f32; 3]> = Trail::new(3, [1.0, 0.5, 0.5]);
    assert!(trail.enabled);
    for p in 1..=5 {
        trail.add_point(p);
    }
    assert_eq!(trail.positions, vec![3, 4, 5]);
    assert_eq!(trail.max_length, 3);
    assert_eq!(trail.color, [1.0, 0.5, 0.5]);
}

#[test]
fn trail_without_limit_keeps_everything() {
    let mut trail: Trail<i32, ()> = Trail::new(0, ());
    for p in 0..50 {
        trail.add_point(p);
    }
    assert_eq!(trail.positions.len(), 50);
    assert_eq!(trail.positions[0], 0);
    assert_eq!(trail.positions[49], 49);
}

#[test]
fn trail_over_limit_drops_only_one_point() {
    // A limit lowered below the current length drops one point per addition.
    let mut trail: Trail<i32, ()> = Trail::new(0, ());
    for p in 0..5 {
        trail.add_point(p);
    }
    trail.max_length = 2;
    trail.add_point(5);
    assert_eq!(trail.positions, vec![1, 2, 3, 4, 5]);
}

#[test]
fn trail_clear() {
    let mut trail: Trail<i32, ()> = Trail::new(4, ());
    trail.add_point(1);
    trail.add_point(2);
    trail.clear();
    assert!(trail.positions.is_empty());
    assert_eq!(trail.max_length, 4);
}

#[test]
fn orbit_trail_records_only_when_enabled() {
    let mut trail: OrbitTrail<i32, [f32; 3]> = OrbitTrail::new(100, [1.0, 1.0, 1.0]);
    assert!(!trail.enabled);
    trail.add_position(1);
    assert!(trail.positions().is_empty());
    trail.enabled = true;
    trail.add_position(2);
    trail.add_position(3);
    assert_eq!(trail.positions(), &[2, 3]);
}

#[test]
fn orbit_trail_limit() {
    let mut trail: OrbitTrail<i32, ()> = OrbitTrail::new(2, ());
    trail.enabled = true;
    for p in 0..6 {
        trail.add_position(p);
    }
    assert_eq!(trail.positions(), &[4, 5]);
    trail.clear();
    assert!(trail.positions().is_empty());
}

#[test]
fn orbit_trail_zero_limit_stays_empty() {
    let mut trail: OrbitTrail<i32, ()> = OrbitTrail::new(0, ());
    trail.enabled = true;
    trail.add_position(1);
    trail.add_position(2);
    assert!(trail.positions().is_empty());
}

#[test]
fn trail_book_insert_replace_remove() {
    let mut book: TrailBook<i32, ()> = TrailBook::new();
    let mut earth = OrbitTrail::new(10, ());
    earth.enabled = true;
    earth.add_position(1);
    book.insert("Earth".to_string(), earth);
    book.insert("Mars".to_string(), OrbitTrail::new(5, ()));
    assert_eq!(book.get_mut("Earth").unwrap().positions(), &[1]);
    assert_eq!(book.get_mut("Mars").unwrap().max_length, 5);
    assert!(book.get_mut("Venus").is_none());

    // Storing under an existing name replaces the trail.
    book.insert("Earth".to_string(), OrbitTrail::new(3, ()));
    assert!(book.get_mut("Earth").unwrap().positions().is_empty());
    assert_eq!(book.get_mut("Earth").unwrap().max_length, 3);

    let removed = book.remove("Earth").unwrap();
    assert_eq!(removed.max_length, 3);
    assert!(book.get_mut("Earth").is_none());
    assert!(book.remove("Earth").is_none());
    assert_eq!(book.get_mut("Mars").unwrap().max_length, 5);
}

#[test]
fn trail_book_bulk_changes() {
    let mut book: TrailBook<i32, ()> = TrailBook::new();
    for name in ["Sun", "Earth"] {
        let mut t = OrbitTrail::new(10, ());
        t.enabled = true;
        t.add_position(7);
        book.insert(name.to_string(), t);
    }
    book.set_max_length(42);
    assert_eq!(book.get_mut("Sun").unwrap().max_length, 42);
    assert_eq!(book.get_mut("Earth").unwrap().positions(), &[7]);
    book.clear_points();
    assert!(book.get_mut("Sun").unwrap().positions().is_empty());
    assert!(book.get_mut("Earth").unwrap().enabled);
    book.clear();
    assert!(book.get_mut("Sun").is_none());
}

#[test]
fn trail_book_set_enabled() {
    let mut book: TrailBook<i32, ()> = TrailBook::new();
    book.insert("Sun".to_string(), OrbitTrail::new(3, ()));
    book.insert("Earth".to_string(), OrbitTrail::new(3, ()));
    book.set_enabled("Earth", true);
    assert!(book.get_mut("Earth").unwrap().enabled);
    assert!(!book.get_mut("Sun").unwrap().enabled);
    book.set_enabled("Mars", true);
    assert!(book.get_mut("Mars").is_none());
}

#[test]
fn trail_book_records_positions_by_name() {
    let mut book: TrailBook<i32, ()> = TrailBook::new();
    book.insert("Sun".to_string(), OrbitTrail::new(2, ()));
    book.insert("Earth".to_string(), OrbitTrail::new(2, ()));
    book.set_enabled("Earth", true);
    let names = ["Sun".to_string(), "Earth".to_string(), "Comet".to_string()];
    book.record_positions(&names, &[1, 2, 3]);
    book.record_positions(&names, &[4, 5, 6]);
    book.record_positions(&names, &[7, 8, 9]);
    // Only the enabled trail records, and it keeps the two most recent points.
    assert_eq!(book.get_mut("Earth").unwrap().positions(), &[5, 8]);
    assert!(book.get_mut("Sun").unwrap().positions().is_empty());
    assert!(book.get_mut("Comet").is_none());
}
