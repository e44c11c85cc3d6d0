use inertia::galaxy::{GalaxySimulation, SceneMarks};
use inertia::widgets::VisualCommand;

type Galaxy = GalaxySimulation<&'static str, (i32, i32), [f32; 3]>;

fn white() -> [f32; 3] {
    [1.0, 1.0, 1.0]
}

fn galaxy_with(names: &[&'static str]) -> Galaxy {
    let mut g: Galaxy = GalaxySimulation::new(white());
    for n in names {
        g.add_object(n, n.to_string(), SceneMarks::new([0.5, 0.5, 0.5]));
    }
    g
}

#[test]
fn new_galaxy_is_empty_and_running() {
    let g: Galaxy = GalaxySimulation::new(white());
    assert!(g.get_objects().is_empty());
    assert!(g.get_object_names().is_empty());
    assert!(g.scene_marks.is_empty());
    assert!(!g.is_paused());
    assert!(g.show_velocity_vectors);
    assert!(g.show_force_vectors);
}

#[test]
fn added_body_gets_a_fresh_disabled_trail() {
    let mut g = galaxy_with(&["sun", "earth"]);
    assert_eq!(g.get_objects(), &vec!["sun", "earth"]);
    assert_eq!(g.get_object_names(), &["sun".to_string(), "earth".to_string()]);
    assert_eq!(g.get_object("earth"), Some(&"earth"));
    assert_eq!(g.scene_marks.len(), 2);
    let trail = g.object_trails.get_mut("earth").unwrap();
    assert!(!trail.enabled);
    assert_eq!(trail.max_length, 100);
    assert!(trail.positions().is_empty());
}

#[test]
fn remove_takes_the_body_and_its_trail() {
    let mut g = galaxy_with(&["sun", "earth"]);
    assert_eq!(g.remove_object("earth"), Some("earth"));
    assert_eq!(g.get_objects(), &vec!["sun"]);
    assert!(g.object_trails.get_mut("earth").is_none());
    assert!(g.object_trails.get_mut("sun").is_some());
    // The scene marks stay until the next step trims them.
    assert_eq!(g.scene_marks.len(), 2);
    assert_eq!(g.remove_object("moon"), None);
    assert_eq!(g.get_objects(), &vec!["sun"]);
}

#[test]
fn remove_after_add_restores_the_galaxy() {
    let mut g = galaxy_with(&["sun"]);
    g.add_object("comet", "comet".to_string(), SceneMarks::new(white()));
    assert_eq!(g.remove_object("comet"), Some("comet"));
    assert_eq!(g.get_objects(), &vec!["sun"]);
    assert_eq!(g.get_object_names(), &["sun".to_string()]);
    assert!(g.object_trails.get_mut("comet").is_none());
}

#[test]
fn enabled_trails_record_positions_and_disabled_ones_do_not() {
    let mut g = galaxy_with(&["sun", "earth"]);
    g.handle_visual_command(VisualCommand::ToggleOrbitTrail { object_name: "earth".to_string(), enabled: true });
    g.update_trails(&[(0, 0), (10, 0)]);
    g.update_trails(&[(0, 0), (0, 10)]);
    assert_eq!(g.object_trails.get_mut("earth").unwrap().positions(), &[(10, 0), (0, 10)]);
    assert!(g.object_trails.get_mut("sun").unwrap().positions().is_empty());
}

#[test]
fn bodies_sharing_a_name_feed_one_trail() {
    let mut g = galaxy_with(&["twin", "twin"]);
    g.handle_visual_command(VisualCommand::ToggleOrbitTrail { object_name: "twin".to_string(), enabled: true });
    g.update_trails(&[(1, 1), (2, 2)]);
    assert_eq!(g.object_trails.get_mut("twin").unwrap().positions(), &[(1, 1), (2, 2)]);
}

#[test]
fn trail_length_limit_applies_to_every_orbit_trail() {
    let mut g = galaxy_with(&["a", "b"]);
    g.handle_visual_command(VisualCommand::ToggleOrbitTrail { object_name: "a".to_string(), enabled: true });
    g.handle_visual_command(VisualCommand::SetTrailLength(2));
    for k in 0..4 {
        g.update_trails(&[(k, 0), (0, k)]);
    }
    assert_eq!(g.object_trails.get_mut("a").unwrap().positions(), &[(2, 0), (3, 0)]);
    assert_eq!(g.object_trails.get_mut("b").unwrap().max_length, 2);
}

#[test]
fn clear_all_trails_empties_orbit_and_scene_trails() {
    let mut g = galaxy_with(&["a"]);
    g.handle_visual_command(VisualCommand::ToggleOrbitTrail { object_name: "a".to_string(), enabled: true });
    g.update_trails(&[(1, 2)]);
    g.record_scene_positions(&[(1, 2)]);
    assert_eq!(g.scene_marks[0].trail.positions, vec![(1, 2)]);
    g.handle_visual_command(VisualCommand::ClearAllTrails);
    assert!(g.object_trails.get_mut("a").unwrap().positions().is_empty());
    assert!(g.scene_marks[0].trail.positions.is_empty());
    assert!(g.object_trails.get_mut("a").unwrap().enabled);
}

#[test]
fn clear_trails_empties_only_scene_trails() {
    let mut g = galaxy_with(&["a"]);
    g.handle_visual_command(VisualCommand::ToggleOrbitTrail { object_name: "a".to_string(), enabled: true });
    g.update_trails(&[(1, 2)]);
    g.record_scene_positions(&[(1, 2)]);
    g.handle_visual_command(VisualCommand::ClearTrails);
    assert!(g.scene_marks[0].trail.positions.is_empty());
    assert_eq!(g.object_trails.get_mut("a").unwrap().positions(), &[(1, 2)]);
}

#[test]
fn scene_toggles_reach_every_body() {
    let mut g = galaxy_with(&["a", "b"]);
    g.handle_visual_command(VisualCommand::ToggleTrails(false));
    g.handle_visual_command(VisualCommand::ToggleVelocityArrows(true));
    g.handle_visual_command(VisualCommand::ToggleAccelerationArrows(true));
    for m in &g.scene_marks {
        assert!(!m.trail.enabled);
        assert!(m.velocity_arrow);
        assert!(m.acceleration_arrow);
    }
    g.record_scene_positions(&[(1, 1), (2, 2)]);
    assert!(g.scene_marks[0].trail.positions.is_empty());
}

#[test]
fn vector_toggles_set_the_flags() {
    let mut g = galaxy_with(&[]);
    g.handle_visual_command(VisualCommand::ToggleVelocityVectors(false));
    g.handle_visual_command(VisualCommand::ToggleForceVectors(false));
    assert!(!g.show_velocity_vectors);
    assert!(!g.show_force_vectors);
    g.handle_visual_command(VisualCommand::ToggleForceVectors(true));
    assert!(g.show_force_vectors);
    assert!(!g.show_velocity_vectors);
}

#[test]
fn toggling_an_unknown_trail_changes_nothing() {
    let mut g = galaxy_with(&["a"]);
    g.handle_visual_command(VisualCommand::ToggleOrbitTrail { object_name: "zz".to_string(), enabled: true });
    assert!(!g.object_trails.get_mut("a").unwrap().enabled);
    assert!(g.object_trails.get_mut("zz").is_none());
}

#[test]
fn reset_removes_bodies_and_trails_and_resumes() {
    let mut g = galaxy_with(&["a", "b"]);
    g.set_paused(true);
    assert!(g.is_paused());
    g.reset();
    assert!(g.get_objects().is_empty());
    assert!(g.object_trails.get_mut("a").is_none());
    assert!(!g.is_paused());
    assert_eq!(g.scene_marks.len(), 2);
}

#[test]
fn get_object_mut_changes_the_body_in_place() {
    let mut g = galaxy_with(&["a", "b"]);
    *g.get_object_mut("b").unwrap() = "changed";
    assert_eq!(g.get_objects(), &vec!["a", "changed"]);
    assert!(g.get_object_mut("c").is_none());
}

#[test]
fn highlight_outlines_only_the_hovered_body() {
    let mut g = galaxy_with(&["a", "b", "c"]);
    g.highlight(Some(1));
    let outlined: Vec<bool> = g.scene_marks.iter().map(|m| m.outlined).collect();
    assert_eq!(outlined, vec![false, true, false]);
    g.highlight(None);
    assert!(g.scene_marks.iter().all(|m| !m.outlined));
    g.highlight(Some(7));
    assert!(g.scene_marks.iter().all(|m| !m.outlined));
}
