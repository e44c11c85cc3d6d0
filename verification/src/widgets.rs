//! The state of the control widgets and the decisions they make: which
//! windows the control bar has opened, which command the orbit trail window
//! sends, which body the force manager targets, and what the hover shows.
use vstd::prelude::*;

verus! {

/// A change to how orbits are drawn.
#[derive(Debug, Clone, PartialEq, Eq)]
pub enum VisualCommand {
    ToggleOrbitTrail { object_name: String, enabled: bool },
    ToggleTrails(bool),
    ClearTrails,
    ClearAllTrails,
    SetTrailLength(usize),
    ToggleVelocityVectors(bool),
    ToggleVelocityArrows(bool),
    ToggleAccelerationArrows(bool),
    ToggleForceVectors(bool),
}

/// The bar at the bottom of the window, with a button for each control
/// window; each button opens or closes its window.
#[derive(Clone)]
pub struct ControlBarWidget {
    pub show_object_creator: bool,
    pub show_time_controller: bool,
    pub show_force_manager: bool,
    pub show_orbit_visualizer: bool,
}

/// A button of the control bar.
#[derive(Debug, Clone, Copy, PartialEq, Eq)]
pub enum ControlBarButton {
    AddObject,
    TimeControl,
    ForceManager,
    OrbitTrails,
}

impl ControlBarWidget {
    /// A bar with every control window closed.
    pub fn new() -> (r: ControlBarWidget)
        ensures
            !r.show_object_creator,
            !r.show_time_controller,
            !r.show_force_manager,
            !r.show_orbit_visualizer,
    {
        ControlBarWidget {
            show_object_creator: false,
            show_time_controller: false,
            show_force_manager: false,
            show_orbit_visualizer: false,
        }
    }

    /// A click on `button`: its window opens if it was closed and closes if
    /// it was open; the other windows stay as they are.
    pub fn press(&mut self, button: ControlBarButton)
        ensures
            final(self).show_object_creator == (old(self).show_object_creator != (button
                == ControlBarButton::AddObject)),
            final(self).show_time_controller == (old(self).show_time_controller != (button
                == ControlBarButton::TimeControl)),
            final(self).show_force_manager == (old(self).show_force_manager != (button
                == ControlBarButton::ForceManager)),
            final(self).show_orbit_visualizer == (old(self).show_orbit_visualizer != (button
                == ControlBarButton::OrbitTrails)),
    {
        match button {
            ControlBarButton::AddObject => {
                self.show_object_creator = !self.show_object_creator;
            },
            ControlBarButton::TimeControl => {
                self.show_time_controller = !self.show_time_controller;
            },
            ControlBarButton::ForceManager => {
                self.show_force_manager = !self.show_force_manager;
            },
            ControlBarButton::OrbitTrails => {
                self.show_orbit_visualizer = !self.show_orbit_visualizer;
            },
        }
    }
}

/// Pressing the same control bar button twice leaves the bar as it was.
pub proof fn lemma_press_twice(
    before: ControlBarWidget,
    middle: ControlBarWidget,
    after: ControlBarWidget,
    button: ControlBarButton,
)
    requires
        middle.show_object_creator == (before.show_object_creator != (button
            == ControlBarButton::AddObject)),
        middle.show_time_controller == (before.show_time_controller != (button
            == ControlBarButton::TimeControl)),
        middle.show_force_manager == (before.show_force_manager != (button
            == ControlBarButton::ForceManager)),
        middle.show_orbit_visualizer == (before.show_orbit_visualizer != (button
            == ControlBarButton::OrbitTrails)),
        after.show_object_creator == (middle.show_object_creator != (button
            == ControlBarButton::AddObject)),
        after.show_time_controller == (middle.show_time_controller != (button
            == ControlBarButton::TimeControl)),
        after.show_force_manager == (middle.show_force_manager != (button
            == ControlBarButton::ForceManager)),
        after.show_orbit_visualizer == (middle.show_orbit_visualizer != (button
            == ControlBarButton::OrbitTrails)),
    ensures
        after == before,
{
}

/// The window that controls orbit trails and the arrows drawn on bodies.
#[derive(Clone)]
pub struct OrbitVisualizerWidget {
    pub visible: bool,
    pub trails_enabled: bool,
    pub max_trail_length: usize,
    pub show_velocity_arrows: bool,
    pub show_acceleration_arrows: bool,
}

/// What the user did in the orbit trail window during one frame.
#[derive(Debug, Clone, Copy)]
pub struct OrbitVisualizerInput {
    /// The "Enable Trails" box was ticked or cleared.
    pub trails_toggled: bool,
    /// The "Velocity Arrows" box was ticked or cleared.
    pub velocity_arrows_toggled: bool,
    /// The "Acceleration Arrows" box was ticked or cleared.
    pub acceleration_arrows_toggled: bool,
    /// The "Clear All Trails" button was pressed.
    pub clear_pressed: bool,
}

/// The command that the orbit trail window sends for one frame's input,
/// given its state after the input: the last control in the window that was
/// used decides (trails box, velocity box, acceleration box, clear button).
pub open spec fn orbit_visualizer_command(
    widget: OrbitVisualizerWidget,
    input: OrbitVisualizerInput,
) -> Option<VisualCommand> {
    if !widget.visible {
        None
    } else if input.clear_pressed {
        Some(VisualCommand::ClearTrails)
    } else if input.acceleration_arrows_toggled {
        Some(VisualCommand::ToggleAccelerationArrows(widget.show_acceleration_arrows))
    } else if input.velocity_arrows_toggled {
        Some(VisualCommand::ToggleVelocityArrows(widget.show_velocity_arrows))
    } else if input.trails_toggled {
        Some(VisualCommand::ToggleTrails(widget.trails_enabled))
    } else {
        None
    }
}

/// Every command of the orbit trail window carries the state of the box it
/// comes from: a trails command the "Enable Trails" box, a velocity command
/// the "Velocity Arrows" box, an acceleration command the "Acceleration
/// Arrows" box. A command is sent only by an open window and only for a
/// control that was used, the clear button beating the boxes; the window
/// sends no other kind of command.
pub proof fn lemma_command_carries_its_box(
    widget: OrbitVisualizerWidget,
    input: OrbitVisualizerInput,
)
    ensures
        match orbit_visualizer_command(widget, input) {
            Some(VisualCommand::ToggleTrails(v)) => v == widget.trails_enabled
                && input.trails_toggled && !input.clear_pressed,
            Some(VisualCommand::ToggleVelocityArrows(v)) => v == widget.show_velocity_arrows
                && input.velocity_arrows_toggled && !input.clear_pressed,
            Some(VisualCommand::ToggleAccelerationArrows(v)) => v
                == widget.show_acceleration_arrows && input.acceleration_arrows_toggled
                && !input.clear_pressed,
            Some(VisualCommand::ClearTrails) => input.clear_pressed,
            Some(_) => false,
            None => !widget.visible || !(input.trails_toggled || input.velocity_arrows_toggled
                || input.acceleration_arrows_toggled || input.clear_pressed),
        },
        widget.visible && (input.trails_toggled || input.velocity_arrows_toggled
            || input.acceleration_arrows_toggled || input.clear_pressed)
            ==> orbit_visualizer_command(widget, input) is Some,
{
}

impl OrbitVisualizerWidget {
    /// A closed window, with trails on, velocity arrows on, acceleration
    /// arrows off, and trails of up to 1000 points.
    pub fn new() -> (r: OrbitVisualizerWidget)
        ensures
            !r.visible,
            r.trails_enabled,
            r.max_trail_length == 1000,
            r.show_velocity_arrows,
            !r.show_acceleration_arrows,
    {
        OrbitVisualizerWidget {
            visible: false,
            trails_enabled: true,
            max_trail_length: 1000,
            show_velocity_arrows: true,
            show_acceleration_arrows: false,
        }
    }

    /// The command that the window sends for `input` (`None`: no command).
    pub fn command_for(&self, input: OrbitVisualizerInput) -> (r: Option<VisualCommand>)
        ensures
            r == orbit_visualizer_command(*self, input),
    {
        if !self.visible {
            return None;
        }
        let mut response: Option<VisualCommand> = None;
        if input.trails_toggled {
            response = Some(VisualCommand::ToggleTrails(self.trails_enabled));
        }
        if input.velocity_arrows_toggled {
            response = Some(VisualCommand::ToggleVelocityArrows(self.show_velocity_arrows));
        }
        if input.acceleration_arrows_toggled {
            response = Some(VisualCommand::ToggleAccelerationArrows(self.show_acceleration_arrows));
        }
        if input.clear_pressed {
            response = Some(VisualCommand::ClearTrails);
        }
        response
    }
}

/// The panel that reports whether trails are drawn and how long they get.
#[derive(Clone)]
pub struct TrailsWidget {
    pub enabled: bool,
    pub max_trail_length: usize,
}

impl TrailsWidget {
    /// Trails on, of up to 1000 points.
    pub fn new() -> (r: TrailsWidget)
        ensures
            r.enabled,
            r.max_trail_length == 1000,
    {
        TrailsWidget { enabled: true, max_trail_length: 1000 }
    }
}

/// The body that the force manager applies forces to, chosen among the
/// bodies of the simulation.
#[derive(Clone)]
pub struct ObjectSelection {
    pub selected_object: String,
    pub available_objects: Vec<String>,
}

impl ObjectSelection {
    /// Nothing selected, nothing to choose from.
    pub fn new() -> (r: ObjectSelection)
        ensures
            r.selected_object@ == Seq::<char>::empty(),
            r.available_objects@.len() == 0,
    {
        ObjectSelection { selected_object: String::new(), available_objects: Vec::new() }
    }

    /// Replaces the bodies to choose from by `objects`; when nothing was
    /// selected yet, the first of them becomes the selection.
    pub fn update_available_objects(&mut self, objects: Vec<String>)
        ensures
            final(self).available_objects@ == objects@,
            final(self).selected_object@ == if old(self).selected_object@.len() == 0
                && objects@.len() > 0 {
                objects@[0]@
            } else {
                old(self).selected_object@
            },
    {
        self.available_objects = objects;
        if self.selected_object.as_str().is_empty() && self.available_objects.len() > 0 {
            self.selected_object = self.available_objects[0].clone();
        }
    }

    /// Whether a body is selected, so that a force can be applied to it.
    pub fn has_selection(&self) -> (r: bool)
        ensures
            r == (self.selected_object@.len() > 0),
    {
        !self.selected_object.as_str().is_empty()
    }
}

/// The name of the hovered body, if a body is hovered and has a name.
pub fn hovered_name<'a>(hovered_index: Option<usize>, names: &'a [String]) -> (r: Option<
    &'a String,
>)
    ensures
        match hovered_index {
            Some(i) => if i < names@.len() {
                r == Some(&names@[i as int])
            } else {
                r is None
            },
            None => r is None,
        },
{
    match hovered_index {
        Some(i) => if i < names.len() {
            Some(&names[i])
        } else {
            None
        },
        None => None,
    }
}

/// The colour `(red, green, blue)` that marks the body at `index` in the
/// lists: yellow, light blue and salmon for the first three, sand for the
/// rest.
pub fn body_color_rgb(index: usize) -> (r: (u8, u8, u8))
    ensures
        r == if index == 0 {
            (255u8, 255u8, 0u8)
        } else if index == 1 {
            (100u8, 200u8, 255u8)
        } else if index == 2 {
            (255u8, 120u8, 100u8)
        } else {
            (200u8, 180u8, 150u8)
        },
{
    match index {
        0 => (255, 255, 0),
        1 => (100, 200, 255),
        2 => (255, 120, 100),
        _ => (200, 180, 150),
    }
}

} // verus!
