use inertia::widgets::{
    body_color_rgb, hovered_name, ControlBarButton, ControlBarWidget, ObjectSelection,
    OrbitVisualizerInput, OrbitVisualizerWidget, TrailsWidget, VisualCommand,
};

fn no_input() -> OrbitVisualizerInput {
    OrbitVisualizerInput {
        trails_toggled: false,
        velocity_arrows_toggled: false,
        acceleration_arrows_toggled: false,
        clear_pressed: false,
    }
}

#[test]
fn control_bar_starts_closed_and_toggles() {
    let mut bar = ControlBarWidget::new();
    assert!(!bar.show_object_creator && !bar.show_time_controller);
    assert!(!bar.show_force_manager && !bar.show_orbit_visualizer);
    bar.press(ControlBarButton::AddObject);
    assert!(bar.show_object_creator);
    assert!(!bar.show_time_controller && !bar.show_force_manager && !bar.show_orbit_visualizer);
    bar.press(ControlBarButton::OrbitTrails);
    assert!(bar.show_orbit_visualizer);
    bar.press(ControlBarButton::AddObject);
    assert!(!bar.show_object_creator);
    assert!(bar.show_orbit_visualizer);
}

#[test]
fn control_bar_press_twice_restores() {
    for button in [
        ControlBarButton::AddObject,
        ControlBarButton::TimeControl,
        ControlBarButton::ForceManager,
        ControlBarButton::OrbitTrails,
    ] {
        let mut bar = ControlBarWidget::new();
        bar.show_force_manager = true;
        bar.press(button);
        bar.press(button);
        assert!(!bar.show_object_creator && !bar.show_time_controller);
        assert!(bar.show_force_manager && !bar.show_orbit_visualizer);
    }
}

#[test]
fn orbit_visualizer_defaults() {
    let w = OrbitVisualizerWidget::new();
    assert!(!w.visible);
    assert!(w.trails_enabled);
    assert_eq!(w.max_trail_length, 1000);
    assert!(w.show_velocity_arrows);
    assert!(!w.show_acceleration_arrows);
}

#[test]
fn orbit_visualizer_commands() {
    let mut w = OrbitVisualizerWidget::new();
    let mut input = no_input();
    input.clear_pressed = true;
    // A closed window sends nothing.
    assert_eq!(w.command_for(input), None);
    w.visible = true;
    assert_eq!(w.command_for(no_input()), None);
    assert_eq!(w.command_for(input), Some(VisualCommand::ClearTrails));

    let mut input = no_input();
    input.trails_toggled = true;
    w.trails_enabled = false;
    assert_eq!(w.command_for(input), Some(VisualCommand::ToggleTrails(false)));
    input.velocity_arrows_toggled = true;
    assert_eq!(w.command_for(input), Some(VisualCommand::ToggleVelocityArrows(true)));
    input.acceleration_arrows_toggled = true;
    w.show_acceleration_arrows = true;
    assert_eq!(w.command_for(input), Some(VisualCommand::ToggleAccelerationArrows(true)));
    input.clear_pressed = true;
    assert_eq!(w.command_for(input), Some(VisualCommand::ClearTrails));
}

#[test]
fn trails_widget_defaults() {
    let w = TrailsWidget::new();
    assert!(w.enabled);
    assert_eq!(w.max_trail_length, 1000);
}

#[test]
fn object_selection_picks_first_when_empty() {
    let mut s = ObjectSelection::new();
    assert!(!s.has_selection());
    s.update_available_objects(vec![]);
    assert!(!s.has_selection());
    s.update_available_objects(vec!["Sun".to_string(), "Earth".to_string()]);
    assert_eq!(s.selected_object, "Sun");
    assert!(s.has_selection());
    s.update_available_objects(vec!["Earth".to_string(), "Mars".to_string()]);
    assert_eq!(s.selected_object, "Sun");
    assert_eq!(s.available_objects, vec!["Earth".to_string(), "Mars".to_string()]);
}

#[test]
fn hovered_name_lookup() {
    let names = vec!["Sun".to_string(), "Earth".to_string()];
    assert_eq!(hovered_name(Some(1), &names), Some(&"Earth".to_string()));
    assert_eq!(hovered_name(Some(2), &names), None);
    assert_eq!(hovered_name(None, &names), None);
}

#[test]
fn body_colors() {
    assert_eq!(body_color_rgb(0), (255, 255, 0));
    assert_eq!(body_color_rgb(1), (100, 200, 255));
    assert_eq!(body_color_rgb(2), (255, 120, 100));
    assert_eq!(body_color_rgb(3), (200, 180, 150));
    assert_eq!(body_color_rgb(usize::MAX), (200, 180, 150));
}
