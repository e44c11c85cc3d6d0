use inertia::registry::NamedObjects;

#[test]
fn add_then_get() {
    let mut objects: NamedObjects<u32> = NamedObjects::new();
    objects.add_object(10, "Sun".to_string());
    objects.add_object(20, "Earth".to_string());
    assert_eq!(objects.get_object("Sun"), Some(&10));
    assert_eq!(objects.get_object("Earth"), Some(&20));
    assert_eq!(objects.get_object("Mars"), None);
    assert_eq!(objects.get_objects(), &vec![10, 20]);
    assert_eq!(objects.get_object_names(), &["Sun".to_string(), "Earth".to_string()]);
    assert_eq!(objects.position("Earth"), Some(1));
}

#[test]
fn duplicate_name_finds_earliest() {
    let mut objects: NamedObjects<u32> = NamedObjects::new();
    objects.add_object(1, "Moon".to_string());
    objects.add_object(2, "Moon".to_string());
    assert_eq!(objects.get_object("Moon"), Some(&1));
    assert_eq!(objects.remove_object("Moon"), Some(1));
    assert_eq!(objects.get_object("Moon"), Some(&2));
}

#[test]
fn remove_after_add_restores() {
    let mut objects: NamedObjects<u32> = NamedObjects::new();
    objects.add_object(1, "A".to_string());
    objects.add_object(2, "B".to_string());
    assert_eq!(objects.remove_object("B"), Some(2));
    assert_eq!(objects.get_objects(), &vec![1]);
    assert_eq!(objects.get_object_names(), &["A".to_string()]);
    assert_eq!(objects.remove_object("B"), None);
    assert_eq!(objects.get_objects(), &vec![1]);
}

#[test]
fn remove_keeps_names_aligned() {
    let mut objects: NamedObjects<char> = NamedObjects::new();
    for (o, n) in [('a', "one"), ('b', "two"), ('c', "three")] {
        objects.add_object(o, n.to_string());
    }
    assert_eq!(objects.remove_object("two"), Some('b'));
    assert_eq!(objects.get_object("three"), Some(&'c'));
    assert_eq!(objects.get_object("one"), Some(&'a'));
}

#[test]
fn get_mut_changes_in_place() {
    let mut objects: NamedObjects<u32> = NamedObjects::new();
    objects.add_object(5, "X".to_string());
    *objects.get_object_mut("X").unwrap() += 1;
    assert_eq!(objects.get_object("X"), Some(&6));
    assert!(objects.get_object_mut("Y").is_none());
}

#[test]
fn clear_removes_everything() {
    let mut objects: NamedObjects<u32> = NamedObjects::new();
    objects.add_object(5, "X".to_string());
    objects.clear();
    assert!(objects.get_objects().is_empty());
    assert!(objects.get_object_names().is_empty());
    assert_eq!(objects.get_object("X"), None);
}

#[test]
fn names_are_compared_exactly() {
    let mut objects: NamedObjects<u32> = NamedObjects::new();
    objects.add_object(1, "Earth".to_string());
    assert_eq!(objects.get_object("earth"), None);
    assert_eq!(objects.get_object("Earth "), None);
    assert_eq!(objects.get_object(""), None);
}

#[test]
fn get_object_at_mut_changes_by_index() {
    let mut objects: NamedObjects<u32> = NamedObjects::new();
    objects.add_object(1, "Moon".to_string());
    objects.add_object(2, "Moon".to_string());
    *objects.get_object_at_mut(1) = 20;
    assert_eq!(objects.get_objects(), &vec![1, 20]);
    assert_eq!(objects.get_object("Moon"), Some(&1));
}
