//! The bookkeeping of an orbital simulation: its bodies under their names,
//! the orbit trail kept for each name, what the scene draws around each
//! body, and how a visual command changes them.
//!
//! Moving the bodies is floating-point work and happens outside; it hands
//! back the positions that the trails record.
use vstd::prelude::*;

use crate::registry::{index_of, NamedObjects};
use crate::trail::{recorded_positions, trail_as, OrbitTrail, Trail, TrailBook};
use crate::widgets::VisualCommand;

verus! {

/// What the scene draws around one body besides the body: the trail it
/// leaves, whether its velocity and acceleration arrows show, and whether it
/// is outlined as the body under the mouse.
pub struct SceneMarks<P, C> {
    pub trail: Trail<P, C>,
    pub velocity_arrow: bool,
    pub acceleration_arrow: bool,
    pub outlined: bool,
}

impl<P, C> SceneMarks<P, C> {
    /// An enabled trail of colour `color` without a length limit, no
    /// arrows and no outline.
    pub fn new(color: C) -> (r: SceneMarks<P, C>)
        ensures
            r.trail.positions@ == Seq::<P>::empty(),
            r.trail.color == color,
            r.trail.max_length == 0,
            r.trail.enabled,
            !r.velocity_arrow,
            !r.acceleration_arrow,
            !r.outlined,
    {
        SceneMarks {
            trail: Trail::new(0, color),
            velocity_arrow: false,
            acceleration_arrow: false,
            outlined: false,
        }
    }

    /// The body is now at `position`: its trail records it while enabled.
    pub fn record(&mut self, position: P)
        ensures
            final(self).trail.positions@ == if old(self).trail.enabled {
                crate::trail::trail_after_add(
                    old(self).trail.positions@,
                    position,
                    old(self).trail.max_length as nat,
                )
            } else {
                old(self).trail.positions@
            },
            final(self).trail.color == old(self).trail.color,
            final(self).trail.max_length == old(self).trail.max_length,
            final(self).trail.enabled == old(self).trail.enabled,
            final(self).velocity_arrow == old(self).velocity_arrow,
            final(self).acceleration_arrow == old(self).acceleration_arrow,
            final(self).outlined == old(self).outlined,
    {
        if self.trail.enabled {
            self.trail.add_point(position);
        }
    }
}

/// How the scene marks of one body change under `command`.
pub open spec fn marks_follow<P, C>(
    before: SceneMarks<P, C>,
    after: SceneMarks<P, C>,
    command: VisualCommand,
) -> bool {
    let positions = match command {
        VisualCommand::ClearTrails | VisualCommand::ClearAllTrails => Seq::<P>::empty(),
        _ => before.trail.positions@,
    };
    let trail_on = match command {
        VisualCommand::ToggleTrails(enabled) => enabled,
        _ => before.trail.enabled,
    };
    let velocity_arrow = match command {
        VisualCommand::ToggleVelocityArrows(enabled) => enabled,
        _ => before.velocity_arrow,
    };
    let acceleration_arrow = match command {
        VisualCommand::ToggleAccelerationArrows(enabled) => enabled,
        _ => before.acceleration_arrow,
    };
    &&& after.trail.positions@ == positions
    &&& after.trail.color == before.trail.color
    &&& after.trail.max_length == before.trail.max_length
    &&& after.trail.enabled == trail_on
    &&& after.velocity_arrow == velocity_arrow
    &&& after.acceleration_arrow == acceleration_arrow
    &&& after.outlined == before.outlined
}

/// What a visual command leaves of one body's scene marks, whatever they
/// held before: `ToggleTrails(b)` leaves its trail switched to `b`, the
/// arrow toggles leave that arrow at `b`, both clearing commands leave its
/// trail empty, and no command touches its outline, colour or limit.
pub proof fn lemma_marks_after_command<P, C>(
    before: SceneMarks<P, C>,
    after: SceneMarks<P, C>,
    command: VisualCommand,
)
    requires
        marks_follow(before, after, command),
    ensures
        command matches VisualCommand::ToggleTrails(b) ==> after.trail.enabled == b,
        command matches VisualCommand::ToggleVelocityArrows(b) ==> after.velocity_arrow == b,
        command matches VisualCommand::ToggleAccelerationArrows(b) ==> after.acceleration_arrow
            == b,
        (command is ClearTrails || command is ClearAllTrails) ==> after.trail.positions@.len()
            == 0,
        !(command is ToggleTrails) ==> after.trail.enabled == before.trail.enabled,
        !(command is ToggleVelocityArrows) ==> after.velocity_arrow == before.velocity_arrow,
        !(command is ToggleAccelerationArrows) ==> after.acceleration_arrow
            == before.acceleration_arrow,
        !(command is ClearTrails || command is ClearAllTrails) ==> after.trail.positions@
            == before.trail.positions@,
        after.outlined == before.outlined,
        after.trail.color == before.trail.color,
        after.trail.max_length == before.trail.max_length,
{
}

/// How the trail stored at index `i` of the book changes under `command`.
pub open spec fn book_trail_follows<P, C>(
    book_names: Seq<Seq<char>>,
    i: int,
    before: OrbitTrail<P, C>,
    after: OrbitTrail<P, C>,
    command: VisualCommand,
) -> bool {
    let positions = match command {
        VisualCommand::ClearAllTrails => Seq::<P>::empty(),
        _ => before.spec_positions(),
    };
    let max_length = match command {
        VisualCommand::SetTrailLength(length) => length,
        _ => before.spec_max_length(),
    };
    let enabled = match command {
        VisualCommand::ToggleOrbitTrail { object_name, enabled } => if index_of(
            book_names,
            object_name@,
        ) == Some(i) {
            enabled
        } else {
            before.spec_enabled()
        },
        _ => before.spec_enabled(),
    };
    &&& after.spec_positions() == positions
    &&& after.spec_color() == before.spec_color()
    &&& after.spec_max_length() == max_length
    &&& after.spec_enabled() == enabled
}

/// How the orbit trail stored under `name` changes under `command`: a
/// trail toggled by its own name is switched, every trail is emptied by
/// `ClearAllTrails` and given the new limit by `SetTrailLength`; nothing else
/// changes it.
pub open spec fn named_trail_follows<P, C>(
    name: Seq<char>,
    before: OrbitTrail<P, C>,
    after: OrbitTrail<P, C>,
    command: VisualCommand,
) -> bool {
    let positions = match command {
        VisualCommand::ClearAllTrails => Seq::<P>::empty(),
        _ => before.spec_positions(),
    };
    let max_length = match command {
        VisualCommand::SetTrailLength(length) => length,
        _ => before.spec_max_length(),
    };
    let enabled = match command {
        VisualCommand::ToggleOrbitTrail { object_name, enabled } => if object_name@ == name {
            enabled
        } else {
            before.spec_enabled()
        },
        _ => before.spec_enabled(),
    };
    trail_as(before, after, positions, max_length, enabled)
}

/// The bodies of an orbital simulation with their trails and scene marks.
pub struct GalaxySimulation<T, P, C> {
    /// The bodies under their names.
    pub bodies: NamedObjects<T>,
    /// The orbit trails under the bodies' names.
    pub object_trails: TrailBook<P, C>,
    /// What the scene draws around each body, in the order of the bodies.
    pub scene_marks: Vec<SceneMarks<P, C>>,
    /// The colour that each new orbit trail gets.
    pub trail_color: C,
    pub paused: bool,
    pub show_velocity_vectors: bool,
    pub show_force_vectors: bool,
}

impl<T, P, C> GalaxySimulation<T, P, C> {
    /// No bodies, running, with velocity and force vectors shown; new orbit
    /// trails get `trail_color`.
    pub fn new(trail_color: C) -> (r: GalaxySimulation<T, P, C>)
        ensures
            r.bodies.objects_view() == Seq::<T>::empty(),
            r.bodies.names_view() == Seq::<Seq<char>>::empty(),
            r.object_trails.names_view() == Seq::<Seq<char>>::empty(),
            r.object_trails.trails_view() == Seq::<OrbitTrail<P, C>>::empty(),
            r.scene_marks@ == Seq::<SceneMarks<P, C>>::empty(),
            r.trail_color == trail_color,
            !r.paused,
            r.show_velocity_vectors,
            r.show_force_vectors,
    {
        GalaxySimulation {
            bodies: NamedObjects::new(),
            object_trails: TrailBook::new(),
            scene_marks: Vec::new(),
            trail_color,
            paused: false,
            show_velocity_vectors: true,
            show_force_vectors: true,
        }
    }

    /// Adds `object` under `name` with the scene marks `marks`, and stores a
    /// fresh orbit trail under `name`: empty, disabled, of up to 100 points,
    /// replacing the trail that was stored under that name.
    pub fn add_object(&mut self, object: T, name: String, marks: SceneMarks<P, C>)
        where
            C: Copy,
        ensures
            final(self).bodies.objects_view() == old(self).bodies.objects_view().push(object),
            final(self).bodies.names_view() == old(self).bodies.names_view().push(name@),
            final(self).object_trails.trail_of(name@) matches Some(t) && {
                &&& t.spec_positions() == Seq::<P>::empty()
                &&& t.spec_color() == old(self).trail_color
                &&& t.spec_max_length() == 100
                &&& !t.spec_enabled()
            },
            forall|other: Seq<char>|
                other != name@ ==> #[trigger] final(self).object_trails.trail_of(other) == old(
                    self,
                ).object_trails.trail_of(other),
            final(self).scene_marks@ == old(self).scene_marks@.push(marks),
            final(self).trail_color == old(self).trail_color,
            final(self).paused == old(self).paused,
            final(self).show_velocity_vectors == old(self).show_velocity_vectors,
            final(self).show_force_vectors == old(self).show_force_vectors,
    {
        let trail_name = name.clone();
        self.bodies.add_object(object, name);
        self.scene_marks.push(marks);
        let color = self.trail_color;
        self.object_trails.insert(trail_name, OrbitTrail::new(100, color));
    }

    /// Removes the earliest body named `name` and returns it, and with it the
    /// trail stored under `name`; `None`, and no change, when no body has
    /// that name. The scene marks stay as they are.
    pub fn remove_object(&mut self, name: &str) -> (r: Option<T>)
        ensures
            match index_of(old(self).bodies.names_view(), name@) {
                Some(i) => {
                    &&& r == Some(old(self).bodies.objects_view()[i])
                    &&& final(self).bodies.objects_view() == old(
                        self,
                    ).bodies.objects_view().remove(i)
                    &&& final(self).bodies.names_view() == old(
                        self,
                    ).bodies.names_view().remove(i)
                    &&& final(self).object_trails.trail_of(name@) is None
                },
                None => {
                    &&& r is None
                    &&& final(self).bodies.objects_view() == old(self).bodies.objects_view()
                    &&& final(self).bodies.names_view() == old(self).bodies.names_view()
                    &&& final(self).object_trails.trail_of(name@) == old(self).object_trails.trail_of(
                        name@,
                    )
                },
            },
            forall|other: Seq<char>|
                other != name@ ==> #[trigger] final(self).object_trails.trail_of(other) == old(
                    self,
                ).object_trails.trail_of(other),
            final(self).scene_marks@ == old(self).scene_marks@,
            final(self).trail_color == old(self).trail_color,
            final(self).paused == old(self).paused,
            final(self).show_velocity_vectors == old(self).show_velocity_vectors,
            final(self).show_force_vectors == old(self).show_force_vectors,
    {
        match self.bodies.remove_object(name) {
            Some(object) => {
                let _ = self.object_trails.remove(name);
                Some(object)
            },
            None => None,
        }
    }

    /// The earliest body named `name`.
    pub fn get_object(&self, name: &str) -> (r: Option<&T>)
        ensures
            match self.bodies.lookup(name@) {
                Some(o) => r == Some(&o),
                None => r is None,
            },
    {
        self.bodies.get_object(name)
    }

    /// The earliest body named `name`, for changing it in place.
    pub fn get_object_mut(&mut self, name: &str) -> (r: Option<&mut T>)
        ensures
            match index_of(old(self).bodies.names_view(), name@) {
                Some(i) => r matches Some(o) && *o == old(self).bodies.objects_view()[i]
                    && final(self).bodies.objects_view() == old(
                    self,
                ).bodies.objects_view().update(i, *final(o)),
                None => r is None && final(self).bodies.objects_view() == old(
                    self,
                ).bodies.objects_view(),
            },
            final(self).bodies.names_view() == old(self).bodies.names_view(),
            final(self).object_trails == old(self).object_trails,
            final(self).scene_marks@ == old(self).scene_marks@,
            final(self).trail_color == old(self).trail_color,
            final(self).paused == old(self).paused,
            final(self).show_velocity_vectors == old(self).show_velocity_vectors,
            final(self).show_force_vectors == old(self).show_force_vectors,
    {
        self.bodies.get_object_mut(name)
    }

    /// All bodies, oldest first.
    pub fn get_objects(&self) -> (r: &Vec<T>)
        ensures
            r@ == self.bodies.objects_view(),
    {
        self.bodies.get_objects()
    }

    /// The body at `index`, for changing it in place; names, trails and
    /// scene marks stay.
    pub fn get_object_at_mut(&mut self, index: usize) -> (r: &mut T)
        requires
            index < old(self).bodies.objects_view().len(),
        ensures
            *r == old(self).bodies.objects_view()[index as int],
            final(self).bodies.objects_view() == old(self).bodies.objects_view().update(
                index as int,
                *final(r),
            ),
            final(self).bodies.names_view() == old(self).bodies.names_view(),
            final(self).object_trails == old(self).object_trails,
            final(self).scene_marks@ == old(self).scene_marks@,
            final(self).trail_color == old(self).trail_color,
            final(self).paused == old(self).paused,
            final(self).show_velocity_vectors == old(self).show_velocity_vectors,
            final(self).show_force_vectors == old(self).show_force_vectors,
    {
        self.bodies.get_object_at_mut(index)
    }

    /// The names of the bodies, in the order of the bodies.
    pub fn get_object_names(&self) -> (r: &[String])
        ensures
            crate::registry::names_view(r@) == self.bodies.names_view(),
    {
        self.bodies.get_object_names()
    }

    /// Whether the simulation is paused.
    pub fn is_paused(&self) -> (r: bool)
        ensures
            r == self.paused,
    {
        self.paused
    }

    /// Pauses or resumes the simulation.
    pub fn set_paused(&mut self, paused: bool)
        ensures
            final(self).paused == paused,
            final(self).bodies == old(self).bodies,
            final(self).object_trails == old(self).object_trails,
            final(self).scene_marks@ == old(self).scene_marks@,
            final(self).show_velocity_vectors == old(self).show_velocity_vectors,
            final(self).show_force_vectors == old(self).show_force_vectors,
    {
        self.paused = paused;
    }

    /// Removes every body and trail and resumes the simulation; the scene
    /// marks stay.
    pub fn reset(&mut self)
        ensures
            final(self).bodies.objects_view() == Seq::<T>::empty(),
            final(self).bodies.names_view() == Seq::<Seq<char>>::empty(),
            final(self).object_trails.names_view() == Seq::<Seq<char>>::empty(),
            final(self).object_trails.trails_view() == Seq::<OrbitTrail<P, C>>::empty(),
            !final(self).paused,
            final(self).scene_marks@ == old(self).scene_marks@,
            final(self).trail_color == old(self).trail_color,
            final(self).show_velocity_vectors == old(self).show_velocity_vectors,
            final(self).show_force_vectors == old(self).show_force_vectors,
    {
        self.bodies.clear();
        self.object_trails.clear();
        self.paused = false;
    }

    /// Hands each body's position to the orbit trail stored under its name:
    /// `positions[i]` is where the `i`-th body is now.
    pub fn update_trails(&mut self, positions: &[P])
        where
            P: Copy,
        requires
            positions@.len() == old(self).bodies.objects_view().len(),
        ensures
            final(self).bodies == old(self).bodies,
            final(self).object_trails.names_view() == old(self).object_trails.names_view(),
            final(self).object_trails.trails_view().len() == old(self).object_trails.trails_view().len(),
            forall|k: int|
                0 <= k < old(self).object_trails.trails_view().len() ==> {
                    let t = #[trigger] final(self).object_trails.trails_view()[k];
                    let u = old(self).object_trails.trails_view()[k];
                    &&& t.spec_positions() == recorded_positions(
                        u.spec_positions(),
                        u.spec_max_length() as nat,
                        u.spec_enabled(),
                        old(self).bodies.names_view(),
                        positions@,
                        old(self).object_trails.names_view()[k],
                        positions@.len() as int,
                    )
                    &&& t.spec_color() == u.spec_color()
                    &&& t.spec_max_length() == u.spec_max_length()
                    &&& t.spec_enabled() == u.spec_enabled()
                },
            forall|n: Seq<char>|
                #![trigger old(self).object_trails.trail_of(n)]
                #![trigger final(self).object_trails.trail_of(n)]
                match old(self).object_trails.trail_of(n) {
                    Some(u) => final(self).object_trails.trail_of(n) matches Some(t) && trail_as(
                        u,
                        t,
                        recorded_positions(
                            u.spec_positions(),
                            u.spec_max_length() as nat,
                            u.spec_enabled(),
                            old(self).bodies.names_view(),
                            positions@,
                            n,
                            positions@.len() as int,
                        ),
                        u.spec_max_length(),
                        u.spec_enabled(),
                    ),
                    None => final(self).object_trails.trail_of(n) is None,
                },
            final(self).scene_marks@ == old(self).scene_marks@,
            final(self).trail_color == old(self).trail_color,
            final(self).paused == old(self).paused,
            final(self).show_velocity_vectors == old(self).show_velocity_vectors,
            final(self).show_force_vectors == old(self).show_force_vectors,
    {
        self.object_trails.record_positions(self.bodies.get_object_names(), positions);
    }

    /// Hands each body's position to its scene marks: `positions[i]` is
    /// where the body of the `i`-th marks is now.
    pub fn record_scene_positions(&mut self, positions: &[P])
        where
            P: Copy,
        requires
            positions@.len() == old(self).scene_marks@.len(),
        ensures
            final(self).scene_marks@.len() == old(self).scene_marks@.len(),
            forall|i: int|
                0 <= i < old(self).scene_marks@.len() ==> {
                    let m = #[trigger] final(self).scene_marks@[i];
                    let n = old(self).scene_marks@[i];
                    &&& m.trail.positions@ == if n.trail.enabled {
                        crate::trail::trail_after_add(
                            n.trail.positions@,
                            positions@[i],
                            n.trail.max_length as nat,
                        )
                    } else {
                        n.trail.positions@
                    }
                    &&& m.trail.color == n.trail.color
                    &&& m.trail.max_length == n.trail.max_length
                    &&& m.trail.enabled == n.trail.enabled
                    &&& m.velocity_arrow == n.velocity_arrow
                    &&& m.acceleration_arrow == n.acceleration_arrow
                    &&& m.outlined == n.outlined
                },
            final(self).bodies == old(self).bodies,
            final(self).object_trails == old(self).object_trails,
            final(self).trail_color == old(self).trail_color,
            final(self).paused == old(self).paused,
            final(self).show_velocity_vectors == old(self).show_velocity_vectors,
            final(self).show_force_vectors == old(self).show_force_vectors,
    {
        let ghost before = self.scene_marks@;
        let mut i: usize = 0;
        while i < self.scene_marks.len()
            invariant
                positions@.len() == before.len(),
                self.scene_marks@.len() == before.len(),
                self.bodies == old(self).bodies,
                self.object_trails == old(self).object_trails,
                self.trail_color == old(self).trail_color,
                self.paused == old(self).paused,
                self.show_velocity_vectors == old(self).show_velocity_vectors,
                self.show_force_vectors == old(self).show_force_vectors,
                i <= before.len(),
                forall|j: int|
                    0 <= j < i ==> {
                        let m = #[trigger] self.scene_marks@[j];
                        let n = before[j];
                        &&& m.trail.positions@ == if n.trail.enabled {
                            crate::trail::trail_after_add(
                                n.trail.positions@,
                                positions@[j],
                                n.trail.max_length as nat,
                            )
                        } else {
                            n.trail.positions@
                        }
                        &&& m.trail.color == n.trail.color
                        &&& m.trail.max_length == n.trail.max_length
                        &&& m.trail.enabled == n.trail.enabled
                        &&& m.velocity_arrow == n.velocity_arrow
                        &&& m.acceleration_arrow == n.acceleration_arrow
                        &&& m.outlined == n.outlined
                    },
                forall|j: int| i <= j < before.len() ==> #[trigger] self.scene_marks@[j] == before[j],
            decreases before.len() - i,
        {
            let p = positions[i];
            self.scene_marks[i].record(p);
            i = i + 1;
        }
    }

    /// Outlines the body at `hovered`, if any, and no other.
    pub fn highlight(&mut self, hovered: Option<usize>)
        ensures
            final(self).scene_marks@.len() == old(self).scene_marks@.len(),
            forall|i: int|
                0 <= i < old(self).scene_marks@.len() ==> {
                    let m = #[trigger] final(self).scene_marks@[i];
                    let n = old(self).scene_marks@[i];
                    &&& m.outlined == (hovered == Some(i as usize))
                    &&& m.trail == n.trail
                    &&& m.velocity_arrow == n.velocity_arrow
                    &&& m.acceleration_arrow == n.acceleration_arrow
                },
            final(self).bodies == old(self).bodies,
            final(self).object_trails == old(self).object_trails,
            final(self).trail_color == old(self).trail_color,
            final(self).paused == old(self).paused,
            final(self).show_velocity_vectors == old(self).show_velocity_vectors,
            final(self).show_force_vectors == old(self).show_force_vectors,
    {
        let ghost before = self.scene_marks@;
        let mut i: usize = 0;
        while i < self.scene_marks.len()
            invariant
                self.scene_marks@.len() == before.len(),
                self.bodies == old(self).bodies,
                self.object_trails == old(self).object_trails,
                self.trail_color == old(self).trail_color,
                self.paused == old(self).paused,
                self.show_velocity_vectors == old(self).show_velocity_vectors,
                self.show_force_vectors == old(self).show_force_vectors,
                i <= before.len(),
                forall|j: int|
                    0 <= j < i ==> {
                        let m = #[trigger] self.scene_marks@[j];
                        let n = before[j];
                        &&& m.outlined == (hovered == Some(j as usize))
                        &&& m.trail == n.trail
                        &&& m.velocity_arrow == n.velocity_arrow
                        &&& m.acceleration_arrow == n.acceleration_arrow
                    },
                forall|j: int| i <= j < before.len() ==> #[trigger] self.scene_marks@[j] == before[j],
            decreases before.len() - i,
        {
            let selected = match hovered {
                Some(h) => h == i,
                None => false,
            };
            self.scene_marks[i].outlined = selected;
            i = i + 1;
        }
    }

    /// Applies a change to how orbits are drawn: a body's orbit trail on or
    /// off, every scene trail on or off or cleared, the orbit trails cleared
    /// or given a new length limit, arrows or vectors shown or hidden.
    pub fn handle_visual_command(&mut self, command: VisualCommand)
        ensures
            final(self).bodies == old(self).bodies,
            final(self).object_trails.names_view() == old(self).object_trails.names_view(),
            final(self).object_trails.trails_view().len() == old(self).object_trails.trails_view().len(),
            forall|k: int|
                0 <= k < old(self).object_trails.trails_view().len() ==> book_trail_follows(
                    old(self).object_trails.names_view(),
                    k,
                    old(self).object_trails.trails_view()[k],
                    #[trigger] final(self).object_trails.trails_view()[k],
                    command,
                ),
            final(self).scene_marks@.len() == old(self).scene_marks@.len(),
            forall|i: int|
                0 <= i < old(self).scene_marks@.len() ==> marks_follow(
                    old(self).scene_marks@[i],
                    #[trigger] final(self).scene_marks@[i],
                    command,
                ),
            final(self).show_velocity_vectors == match command {
                VisualCommand::ToggleVelocityVectors(enabled) => enabled,
                _ => old(self).show_velocity_vectors,
            },
            final(self).show_force_vectors == match command {
                VisualCommand::ToggleForceVectors(enabled) => enabled,
                _ => old(self).show_force_vectors,
            },
            final(self).trail_color == old(self).trail_color,
            forall|n: Seq<char>|
                #![trigger old(self).object_trails.trail_of(n)]
                #![trigger final(self).object_trails.trail_of(n)]
                match old(self).object_trails.trail_of(n) {
                    Some(u) => final(self).object_trails.trail_of(n) matches Some(t)
                        && named_trail_follows(n, u, t, command),
                    None => final(self).object_trails.trail_of(n) is None,
                },
            final(self).paused == old(self).paused,
    {
        self.apply_to_marks(&command);
        match command {
            VisualCommand::ToggleOrbitTrail { object_name, enabled } => {
                self.object_trails.set_enabled(object_name.as_str(), enabled);
            },
            VisualCommand::ClearAllTrails => {
                self.object_trails.clear_points();
            },
            VisualCommand::SetTrailLength(length) => {
                self.object_trails.set_max_length(length);
            },
            VisualCommand::ToggleVelocityVectors(enabled) => {
                self.show_velocity_vectors = enabled;
            },
            VisualCommand::ToggleForceVectors(enabled) => {
                self.show_force_vectors = enabled;
            },
            _ => {},
        }
    }

    /// Applies `command` to the scene marks of every body.
    fn apply_to_marks(&mut self, command: &VisualCommand)
        ensures
            final(self).scene_marks@.len() == old(self).scene_marks@.len(),
            forall|i: int|
                0 <= i < old(self).scene_marks@.len() ==> marks_follow(
                    old(self).scene_marks@[i],
                    #[trigger] final(self).scene_marks@[i],
                    *command,
                ),
            final(self).bodies == old(self).bodies,
            final(self).object_trails == old(self).object_trails,
            final(self).trail_color == old(self).trail_color,
            final(self).paused == old(self).paused,
            final(self).show_velocity_vectors == old(self).show_velocity_vectors,
            final(self).show_force_vectors == old(self).show_force_vectors,
    {
        let ghost before = self.scene_marks@;
        let mut i: usize = 0;
        while i < self.scene_marks.len()
            invariant
                self.scene_marks@.len() == before.len(),
                self.bodies == old(self).bodies,
                self.object_trails == old(self).object_trails,
                self.trail_color == old(self).trail_color,
                self.paused == old(self).paused,
                self.show_velocity_vectors == old(self).show_velocity_vectors,
                self.show_force_vectors == old(self).show_force_vectors,
                i <= before.len(),
                forall|j: int|
                    0 <= j < i ==> marks_follow(before[j], #[trigger] self.scene_marks@[j], *command),
                forall|j: int| i <= j < before.len() ==> #[trigger] self.scene_marks@[j] == before[j],
            decreases before.len() - i,
        {
            apply_to_one(&mut self.scene_marks[i], command);
            i = i + 1;
        }
    }
}

/// Removing a body right after it was added under a name that no body and
/// no trail carried gives the object back and leaves the bodies, their
/// names and every trail as they were before the two calls.
pub proof fn lemma_remove_undoes_add<T, P, C>(
    before: GalaxySimulation<T, P, C>,
    added: GalaxySimulation<T, P, C>,
    after: GalaxySimulation<T, P, C>,
    object: T,
    name: Seq<char>,
    removed: Option<T>,
)
    requires
        before.bodies.objects_view().len() == before.bodies.names_view().len(),
        index_of(before.bodies.names_view(), name) is None,
        before.object_trails.trail_of(name) is None,
        added.bodies.objects_view() == before.bodies.objects_view().push(object),
        added.bodies.names_view() == before.bodies.names_view().push(name),
        forall|other: Seq<char>|
            other != name ==> #[trigger] added.object_trails.trail_of(other)
                == before.object_trails.trail_of(other),
        match index_of(added.bodies.names_view(), name) {
            Some(i) => {
                &&& removed == Some(added.bodies.objects_view()[i])
                &&& after.bodies.objects_view() == added.bodies.objects_view().remove(i)
                &&& after.bodies.names_view() == added.bodies.names_view().remove(i)
                &&& after.object_trails.trail_of(name) is None
            },
            None => {
                &&& removed is None
                &&& after.bodies.objects_view() == added.bodies.objects_view()
                &&& after.bodies.names_view() == added.bodies.names_view()
                &&& after.object_trails.trail_of(name) == added.object_trails.trail_of(name)
            },
        },
        forall|other: Seq<char>|
            other != name ==> #[trigger] after.object_trails.trail_of(other)
                == added.object_trails.trail_of(other),
    ensures
        removed == Some(object),
        after.bodies.objects_view() == before.bodies.objects_view(),
        after.bodies.names_view() == before.bodies.names_view(),
        forall|other: Seq<char>|
            #[trigger] after.object_trails.trail_of(other) == before.object_trails.trail_of(other),
{
    crate::registry::lemma_remove_after_add(
        before.bodies.names_view(),
        before.bodies.objects_view(),
        name,
        object,
    );
    assert forall|other: Seq<char>|
        #[trigger] after.object_trails.trail_of(other) == before.object_trails.trail_of(
            other,
        ) by {
        if other != name {
            assert(added.object_trails.trail_of(other) == before.object_trails.trail_of(other));
        }
    }
}

/// Applies `command` to the scene marks of one body.
fn apply_to_one<P, C>(marks: &mut SceneMarks<P, C>, command: &VisualCommand)
    ensures
        marks_follow(*old(marks), *final(marks), *command),
{
    match command {
        VisualCommand::ToggleTrails(enabled) => {
            marks.trail.enabled = *enabled;
        },
        VisualCommand::ClearTrails | VisualCommand::ClearAllTrails => {
            marks.trail.clear();
        },
        VisualCommand::ToggleVelocityArrows(enabled) => {
            marks.velocity_arrow = *enabled;
        },
        VisualCommand::ToggleAccelerationArrows(enabled) => {
            marks.acceleration_arrow = *enabled;
        },
        _ => {},
    }
}

} // verus!
