//! Trails: the recent positions of a moving body, kept up to a length limit.
//!
//! The positions and colours are whatever the renderer uses for them; a
//! trail only decides which positions it keeps. A simulation stores the
//! orbit trails of its bodies by name, at most one trail under each name.
use vstd::prelude::*;

use crate::registry::{index_from, index_of, names_view};
use crate::text::str_equals;

verus! {

/// The history `history` after `point` is appended, where a limit of `max`
/// drops the oldest point once the history grows longer than `max`, and a
/// limit of `0` keeps everything.
pub open spec fn trail_after_add<P>(history: Seq<P>, point: P, max: nat) -> Seq<P> {
    let grown = history.push(point);
    if max > 0 && grown.len() > max {
        grown.drop_first()
    } else {
        grown
    }
}

/// The history that adding each of `points` in turn to `history` leaves.
pub open spec fn trail_after_adds<P>(history: Seq<P>, points: Seq<P>, max: nat) -> Seq<P>
    decreases points.len(),
{
    if points.len() == 0 {
        history
    } else {
        trail_after_add(trail_after_adds(history, points.drop_last(), max), points.last(), max)
    }
}

/// The `n` most recent points of `points` (all of them when there are fewer).
pub open spec fn most_recent<P>(points: Seq<P>, n: nat) -> Seq<P> {
    if points.len() > n {
        points.subrange(points.len() - n, points.len() as int)
    } else {
        points
    }
}

/// The history that an orbit trail keeps when `point` arrives: nothing
/// changes while the trail is disabled; otherwise the point is appended and
/// the oldest point dropped once there are more than `max`.
pub open spec fn orbit_trail_after_add<P>(
    history: Seq<P>,
    point: P,
    max: nat,
    enabled: bool,
) -> Seq<P> {
    if !enabled {
        history
    } else {
        let grown = history.push(point);
        if grown.len() > max {
            grown.drop_first()
        } else {
            grown
        }
    }
}

/// A trail drawn behind a body in the scene.
#[derive(Clone, Debug)]
pub struct Trail<P, C> {
    pub positions: Vec<P>,
    pub color: C,
    pub max_length: usize,
    pub enabled: bool,
}

impl<P, C> Trail<P, C> {
    /// An empty, enabled trail that keeps at most `max_length` points
    /// (`0`: no limit).
    pub fn new(max_length: usize, color: C) -> (r: Trail<P, C>)
        ensures
            r.positions@ == Seq::<P>::empty(),
            r.color == color,
            r.max_length == max_length,
            r.enabled,
    {
        Trail { positions: Vec::new(), color, max_length, enabled: true }
    }

    /// Appends `position`, dropping the oldest point when the trail grows
    /// past its limit.
    pub fn add_point(&mut self, position: P)
        ensures
            final(self).positions@ == trail_after_add(
                old(self).positions@,
                position,
                old(self).max_length as nat,
            ),
            final(self).color == old(self).color,
            final(self).max_length == old(self).max_length,
            final(self).enabled == old(self).enabled,
    {
        self.positions.push(position);
        if self.max_length > 0 && self.positions.len() > self.max_length {
            self.positions.remove(0);
            assert(self.positions@ =~= trail_after_add(
                old(self).positions@,
                position,
                old(self).max_length as nat,
            ));
        }
    }

    /// Forgets every point.
    pub fn clear(&mut self)
        ensures
            final(self).positions@ == Seq::<P>::empty(),
            final(self).color == old(self).color,
            final(self).max_length == old(self).max_length,
            final(self).enabled == old(self).enabled,
    {
        self.positions.clear();
    }
}

/// The path that a body traces in orbit, recorded while the trail is enabled.
#[derive(Clone)]
pub struct OrbitTrail<P, C> {
    /// The recorded points, oldest first.
    pub positions: Vec<P>,
    /// The most points the trail keeps.
    pub max_length: usize,
    pub color: C,
    /// Whether the trail records points.
    pub enabled: bool,
}

impl<P, C> OrbitTrail<P, C> {
    pub open spec fn spec_positions(&self) -> Seq<P> {
        self.positions@
    }

    pub open spec fn spec_color(&self) -> C {
        self.color
    }

    pub open spec fn spec_max_length(&self) -> usize {
        self.max_length
    }

    pub open spec fn spec_enabled(&self) -> bool {
        self.enabled
    }

    /// An empty, disabled trail that keeps at most `max_length` points.
    pub fn new(max_length: usize, color: C) -> (r: OrbitTrail<P, C>)
        ensures
            r.spec_positions() == Seq::<P>::empty(),
            r.spec_color() == color,
            r.spec_max_length() == max_length,
            !r.spec_enabled(),
    {
        OrbitTrail { positions: Vec::new(), max_length, color, enabled: false }
    }

    /// Records `position` if the trail is enabled, dropping the oldest point
    /// once there are more than `max_length`.
    pub fn add_position(&mut self, position: P)
        ensures
            final(self).spec_positions() == orbit_trail_after_add(
                old(self).spec_positions(),
                position,
                old(self).spec_max_length() as nat,
                old(self).spec_enabled(),
            ),
            final(self).spec_color() == old(self).spec_color(),
            final(self).spec_max_length() == old(self).spec_max_length(),
            final(self).spec_enabled() == old(self).spec_enabled(),
    {
        if !self.enabled {
            return;
        }
        self.positions.push(position);
        if self.positions.len() > self.max_length {
            self.positions.remove(0);
            assert(self.positions@ =~= orbit_trail_after_add(
                old(self).positions@,
                position,
                old(self).spec_max_length() as nat,
                old(self).enabled,
            ));
        }
    }

    /// Forgets every point.
    pub fn clear(&mut self)
        ensures
            final(self).spec_positions() == Seq::<P>::empty(),
            final(self).spec_color() == old(self).spec_color(),
            final(self).spec_max_length() == old(self).spec_max_length(),
            final(self).spec_enabled() == old(self).spec_enabled(),
    {
        self.positions.clear();
    }

    /// The recorded points, oldest first.
    pub fn positions(&self) -> (r: &[P])
        ensures
            r@ == self.spec_positions(),
    {
        self.positions.as_slice()
    }
}

/// A trail with a limit keeps exactly the most recent `max` of the points
/// added to it since it was empty, oldest first; a trail without a limit
/// keeps them all.
pub proof fn lemma_trail_keeps_most_recent<P>(points: Seq<P>, max: nat)
    ensures
        max > 0 ==> trail_after_adds(Seq::<P>::empty(), points, max) == most_recent(points, max),
        max == 0 ==> trail_after_adds(Seq::<P>::empty(), points, max) == points,
    decreases points.len(),
{
    if points.len() > 0 {
        let prev = points.drop_last();
        lemma_trail_keeps_most_recent(prev, max);
        let h = trail_after_adds(Seq::<P>::empty(), prev, max);
        if max > 0 {
            if prev.len() > max {
                assert(h.push(points.last()).drop_first() =~= most_recent(points, max));
            } else if prev.len() == max {
                assert(h.push(points.last()).drop_first() =~= most_recent(points, max));
            } else {
                assert(h.push(points.last()) =~= points);
            }
        } else {
            assert(h.push(points.last()) =~= points);
        }
    } else {
        assert(trail_after_adds(Seq::<P>::empty(), points, max) =~= points);
    }
}

/// Adding a point to a trail that is within its limit leaves it within its
/// limit, with the new point as its most recent one.
pub proof fn lemma_trail_add_within_limit<P>(history: Seq<P>, point: P, max: nat)
    requires
        max > 0,
        history.len() <= max,
    ensures
        trail_after_add(history, point, max).len() <= max,
        trail_after_add(history, point, max).last() == point,
{
}

/// An enabled orbit trail within its limit stays within it, and records the
/// new point as its most recent one, unless its limit is `0`, in which case
/// it stays empty.
pub proof fn lemma_orbit_trail_add_within_limit<P>(history: Seq<P>, point: P, max: nat)
    requires
        history.len() <= max,
    ensures
        orbit_trail_after_add(history, point, max, true).len() <= max,
        max > 0 ==> orbit_trail_after_add(history, point, max, true).last() == point,
        max == 0 ==> orbit_trail_after_add(history, point, max, true) == Seq::<P>::empty(),
{
    if max == 0 {
        assert(orbit_trail_after_add(history, point, max, true) =~= Seq::<P>::empty());
    }
}

/// The history that adding each of `points` in turn to an orbit trail that
/// held `history` leaves.
pub open spec fn orbit_trail_after_adds<P>(
    history: Seq<P>,
    points: Seq<P>,
    max: nat,
    enabled: bool,
) -> Seq<P>
    decreases points.len(),
{
    if points.len() == 0 {
        history
    } else {
        orbit_trail_after_add(
            orbit_trail_after_adds(history, points.drop_last(), max, enabled),
            points.last(),
            max,
            enabled,
        )
    }
}

/// An enabled orbit trail of limit `max` that starts empty holds, after the
/// points `points` arrive one by one, exactly the last `max` of them (all of
/// them while there are no more than `max`), oldest first: each overflow
/// drops the single oldest point. A disabled trail keeps what it held.
pub proof fn lemma_orbit_trail_keeps_most_recent<P>(history: Seq<P>, points: Seq<P>, max: nat)
    ensures
        orbit_trail_after_adds(Seq::<P>::empty(), points, max, true) == points.subrange(
            if points.len() > max {
                points.len() - max
            } else {
                0
            },
            points.len() as int,
        ),
        orbit_trail_after_adds(history, points, max, false) == history,
    decreases points.len(),
{
    if points.len() > 0 {
        let prev = points.drop_last();
        lemma_orbit_trail_keeps_most_recent(history, prev, max);
        let h = orbit_trail_after_adds(Seq::<P>::empty(), prev, max, true);
        let start: int = if points.len() > max {
            points.len() - max
        } else {
            0
        };
        if prev.len() >= max {
            assert(h.push(points.last()).drop_first() =~= points.subrange(start, points.len() as int));
        } else {
            assert(h.push(points.last()) =~= points.subrange(start, points.len() as int));
        }
    } else {
        assert(points.subrange(0, 0) =~= Seq::<P>::empty());
    }
}

// ---------------------------------------------------------------------------
// Trails stored by body name
// ---------------------------------------------------------------------------
/// `after` is `before` with the given points, length limit and switch, and
/// the same colour.
pub open spec fn trail_as<P, C>(
    before: OrbitTrail<P, C>,
    after: OrbitTrail<P, C>,
    positions: Seq<P>,
    max_length: usize,
    enabled: bool,
) -> bool {
    &&& after.spec_positions() == positions
    &&& after.spec_color() == before.spec_color()
    &&& after.spec_max_length() == max_length
    &&& after.spec_enabled() == enabled
}

/// No name occurs twice in `names`.
pub open spec fn distinct_names(names: Seq<Seq<char>>) -> bool {
    forall|i: int, j: int| 0 <= i < j < names.len() ==> names[i] != names[j]
}

/// Orbit trails stored by name.
pub struct TrailBook<P, C> {
    names: Vec<String>,
    trails: Vec<OrbitTrail<P, C>>,
}

impl<P, C> TrailBook<P, C> {
    /// One trail beside each name, and no name twice.
    #[verifier::type_invariant]
    closed spec fn well_formed(&self) -> bool {
        &&& self.names.len() == self.trails.len()
        &&& distinct_names(names_view(self.names@))
    }

    /// The names, in the order their trails were first stored.
    pub closed spec fn names_view(&self) -> Seq<Seq<char>> {
        names_view(self.names@)
    }

    /// The trails, in the same order as the names.
    pub closed spec fn trails_view(&self) -> Seq<OrbitTrail<P, C>> {
        self.trails@
    }

    /// The trail stored under `name`.
    pub open spec fn trail_of(&self, name: Seq<char>) -> Option<OrbitTrail<P, C>> {
        match index_of(self.names_view(), name) {
            Some(i) => Some(self.trails_view()[i]),
            None => None,
        }
    }

    /// No trails.
    pub fn new() -> (r: TrailBook<P, C>)
        ensures
            r.names_view() == Seq::<Seq<char>>::empty(),
            r.trails_view() == Seq::<OrbitTrail<P, C>>::empty(),
            forall|name: Seq<char>| r.trail_of(name) is None,
    {
        let r = TrailBook { names: Vec::new(), trails: Vec::new() };
        assert(r.names_view() =~= Seq::<Seq<char>>::empty());
        r
    }

    /// The index of `name`.
    fn position(&self, name: &str) -> (r: Option<usize>)
        ensures
            match r {
                Some(i) => index_of(self.names_view(), name@) == Some(i as int),
                None => index_of(self.names_view(), name@) is None,
            },
            r matches Some(i) ==> i < self.trails_view().len(),
            self.names_view().len() == self.trails_view().len(),
    {
        proof {
            use_type_invariant(self);
        }
        let mut i: usize = 0;
        while i < self.names.len()
            invariant
                i <= self.names@.len(),
                self.trails@.len() == self.names@.len(),
                index_of(self.names_view(), name@) == index_from(
                    self.names_view(),
                    name@,
                    i as int,
                ),
            decreases self.names@.len() - i,
        {
            if str_equals(self.names[i].as_str(), name) {
                return Some(i);
            }
            i = i + 1;
        }
        None
    }

    /// Moves the names and trails out, leaving no trails behind.
    fn take_parts(&mut self) -> (r: (Vec<String>, Vec<OrbitTrail<P, C>>))
        ensures
            names_view(r.0@) == old(self).names_view(),
            r.1@ == old(self).trails_view(),
            r.0@.len() == r.1@.len(),
            distinct_names(names_view(r.0@)),
    {
        let mut taken = TrailBook { names: Vec::new(), trails: Vec::new() };
        proof {
            assert(names_view(taken.names@) =~= Seq::<Seq<char>>::empty());
        }
        std::mem::swap(&mut taken, self);
        proof {
            use_type_invariant(&taken);
        }
        let TrailBook { names, trails } = taken;
        (names, trails)
    }

    /// Stores `trail` under `name`, replacing the trail that was there.
    pub fn insert(&mut self, name: String, trail: OrbitTrail<P, C>)
        ensures
            final(self).trail_of(name@) == Some(trail),
            forall|other: Seq<char>|
                other != name@ ==> #[trigger] final(self).trail_of(other) == old(self).trail_of(
                    other,
                ),
    {
        let found = self.position(name.as_str());
        let (mut names, mut trails) = self.take_parts();
        let ghost old_names = names_view(names@);
        let ghost old_trails = trails@;
        match found {
            Some(i) => {
                trails.set(i, trail);
                *self = TrailBook { names, trails };
                proof {
                    crate::registry::lemma_index_of_is_earliest(old_names, name@);
                    assert forall|other: Seq<char>| other != name@ implies #[trigger] self.trail_of(
                        other,
                    ) == old(self).trail_of(other) by {
                        crate::registry::lemma_index_of_is_earliest(old_names, other);
                    }
                }
            },
            None => {
                let ghost n = name@;
                names.push(name);
                trails.push(trail);
                proof {
                    assert(names_view(names@) =~= old_names.push(n));
                    crate::registry::lemma_index_of_is_earliest(old_names, n);
                }
                *self = TrailBook { names, trails };
                proof {
                    crate::registry::lemma_index_after_push(old_names, n, n);
                    assert forall|other: Seq<char>| other != n implies #[trigger] self.trail_of(
                        other,
                    ) == old(self).trail_of(other) by {
                        crate::registry::lemma_index_after_push(old_names, other, n);
                        crate::registry::lemma_index_of_is_earliest(old_names, other);
                    }
                }
            },
        }
    }

    /// Removes the trail stored under `name` and returns it.
    pub fn remove(&mut self, name: &str) -> (r: Option<OrbitTrail<P, C>>)
        ensures
            r == old(self).trail_of(name@),
            final(self).trail_of(name@) is None,
            forall|other: Seq<char>|
                other != name@ ==> #[trigger] final(self).trail_of(other) == old(self).trail_of(
                    other,
                ),
    {
        let found = self.position(name);
        match found {
            None => None,
            Some(i) => {
                let (mut names, mut trails) = self.take_parts();
                let ghost old_names = names_view(names@);
                let ghost old_trails = trails@;
                names.remove(i);
                let removed = trails.remove(i);
                proof {
                    assert(names_view(names@) =~= old_names.remove(i as int));
                    crate::registry::lemma_index_of_is_earliest(old_names, name@);
                    lemma_index_after_remove(old_names, i as int);
                }
                *self = TrailBook { names, trails };
                proof {
                    assert forall|other: Seq<char>| other != name@ implies #[trigger] self.trail_of(
                        other,
                    ) == old(self).trail_of(other) by {
                        crate::registry::lemma_index_of_is_earliest(old_names, other);
                    }
                }
                Some(removed)
            },
        }
    }

    /// The trail stored under `name`, for changing it in place.
    pub fn get_mut(&mut self, name: &str) -> (r: Option<&mut OrbitTrail<P, C>>)
        ensures
            match index_of(old(self).names_view(), name@) {
                Some(i) => {
                    &&& r matches Some(t) && *t == old(self).trails_view()[i]
                        && final(self).trails_view() == old(self).trails_view().update(
                        i,
                        *final(t),
                    )
                    &&& final(self).names_view() == old(self).names_view()
                },
                None => {
                    &&& r is None
                    &&& final(self).trails_view() == old(self).trails_view()
                    &&& final(self).names_view() == old(self).names_view()
                },
            },
    {
        proof {
            use_type_invariant(&*self);
        }
        match self.position(name) {
            Some(i) => Some(&mut self.trails[i]),
            None => None,
        }
    }

    /// Forgets the points of every trail.
    pub fn clear_points(&mut self)
        ensures
            final(self).names_view() == old(self).names_view(),
            final(self).trails_view().len() == old(self).trails_view().len(),
            forall|i: int|
                0 <= i < old(self).trails_view().len() ==> {
                    let t = #[trigger] final(self).trails_view()[i];
                    let u = old(self).trails_view()[i];
                    &&& t.spec_positions() == Seq::<P>::empty()
                    &&& t.spec_color() == u.spec_color()
                    &&& t.spec_max_length() == u.spec_max_length()
                    &&& t.spec_enabled() == u.spec_enabled()
                },
            forall|n: Seq<char>|
                #![trigger old(self).trail_of(n)]
                #![trigger final(self).trail_of(n)]
                match old(self).trail_of(n) {
                    Some(u) => final(self).trail_of(n) matches Some(t) && trail_as(
                        u,
                        t,
                        Seq::<P>::empty(),
                        u.spec_max_length(),
                        u.spec_enabled(),
                    ),
                    None => final(self).trail_of(n) is None,
                },
    {
        let (names, mut trails) = self.take_parts();
        let ghost before = trails@;
        let mut i: usize = 0;
        while i < trails.len()
            invariant
                trails@.len() == before.len(),
                i <= trails@.len(),
                forall|j: int|
                    0 <= j < i ==> {
                        let t = #[trigger] trails@[j];
                        let u = before[j];
                        &&& t.spec_positions() == Seq::<P>::empty()
                        &&& t.spec_color() == u.spec_color()
                        &&& t.spec_max_length() == u.spec_max_length()
                        &&& t.spec_enabled() == u.spec_enabled()
                    },
                forall|j: int| i <= j < trails@.len() ==> #[trigger] trails@[j] == before[j],
            decreases trails@.len() - i,
        {
            trails[i].clear();
            i = i + 1;
        }
        *self = TrailBook { names, trails };
        proof {
            assert forall|n: Seq<char>|
                #![trigger old(self).trail_of(n)]
                #![trigger self.trail_of(n)]
                index_of(self.names_view(), n) matches Some(i) ==> 0 <= i < self.names_view().len() by {
                crate::registry::lemma_index_of_is_earliest(self.names_view(), n);
            }
        }
    }

    /// Sets the length limit of every trail to `max_length`.
    pub fn set_max_length(&mut self, max_length: usize)
        ensures
            final(self).names_view() == old(self).names_view(),
            final(self).trails_view().len() == old(self).trails_view().len(),
            forall|i: int|
                0 <= i < old(self).trails_view().len() ==> {
                    let t = #[trigger] final(self).trails_view()[i];
                    let u = old(self).trails_view()[i];
                    &&& t.spec_positions() == u.spec_positions()
                    &&& t.spec_color() == u.spec_color()
                    &&& t.spec_max_length() == max_length
                    &&& t.spec_enabled() == u.spec_enabled()
                },
            forall|n: Seq<char>|
                #![trigger old(self).trail_of(n)]
                #![trigger final(self).trail_of(n)]
                match old(self).trail_of(n) {
                    Some(u) => final(self).trail_of(n) matches Some(t) && trail_as(
                        u,
                        t,
                        u.spec_positions(),
                        max_length,
                        u.spec_enabled(),
                    ),
                    None => final(self).trail_of(n) is None,
                },
    {
        let (names, mut trails) = self.take_parts();
        let ghost before = trails@;
        let mut i: usize = 0;
        while i < trails.len()
            invariant
                trails@.len() == before.len(),
                i <= trails@.len(),
                forall|j: int|
                    0 <= j < i ==> {
                        let t = #[trigger] trails@[j];
                        let u = before[j];
                        &&& t.spec_positions() == u.spec_positions()
                        &&& t.spec_color() == u.spec_color()
                        &&& t.spec_max_length() == max_length
                        &&& t.spec_enabled() == u.spec_enabled()
                    },
                forall|j: int| i <= j < trails@.len() ==> #[trigger] trails@[j] == before[j],
            decreases trails@.len() - i,
        {
            trails[i].max_length = max_length;
            i = i + 1;
        }
        *self = TrailBook { names, trails };
        proof {
            assert forall|n: Seq<char>|
                #![trigger old(self).trail_of(n)]
                #![trigger self.trail_of(n)]
                index_of(self.names_view(), n) matches Some(i) ==> 0 <= i < self.names_view().len() by {
                crate::registry::lemma_index_of_is_earliest(self.names_view(), n);
            }
        }
    }

    /// Removes every trail.
    pub fn clear(&mut self)
        ensures
            final(self).names_view() == Seq::<Seq<char>>::empty(),
            final(self).trails_view() == Seq::<OrbitTrail<P, C>>::empty(),
    {
        *self = TrailBook::new();
    }

    /// Turns the trail stored under `name` on or off; nothing changes when
    /// no trail is stored under it.
    pub fn set_enabled(&mut self, name: &str, enabled: bool)
        ensures
            final(self).names_view() == old(self).names_view(),
            match index_of(old(self).names_view(), name@) {
                Some(i) => final(self).trails_view() == old(self).trails_view().update(
                    i,
                    final(self).trails_view()[i],
                ) && {
                    let t = final(self).trails_view()[i];
                    let u = old(self).trails_view()[i];
                    &&& t.spec_positions() == u.spec_positions()
                    &&& t.spec_color() == u.spec_color()
                    &&& t.spec_max_length() == u.spec_max_length()
                    &&& t.spec_enabled() == enabled
                },
                None => final(self).trails_view() == old(self).trails_view(),
            },
            index_of(old(self).names_view(), name@) matches Some(i) ==> 0 <= i < old(
                self,
            ).trails_view().len(),
            forall|n: Seq<char>|
                #![trigger old(self).trail_of(n)]
                #![trigger final(self).trail_of(n)]
                match old(self).trail_of(n) {
                    Some(u) => final(self).trail_of(n) matches Some(t) && trail_as(
                        u,
                        t,
                        u.spec_positions(),
                        u.spec_max_length(),
                        if n == name@ {
                            enabled
                        } else {
                            u.spec_enabled()
                        },
                    ),
                    None => final(self).trail_of(n) is None,
                },
    {
        proof {
            use_type_invariant(&*self);
            crate::registry::lemma_index_of_is_earliest(self.names_view(), name@);
        }
        match self.get_mut(name) {
            Some(t) => {
                t.enabled = enabled;
            },
            None => {},
        }
        proof {
            assert forall|n: Seq<char>|
                #![trigger old(self).trail_of(n)]
                #![trigger self.trail_of(n)]
                match old(self).trail_of(n) {
                    Some(u) => self.trail_of(n) matches Some(t) && trail_as(
                        u,
                        t,
                        u.spec_positions(),
                        u.spec_max_length(),
                        if n == name@ {
                            enabled
                        } else {
                            u.spec_enabled()
                        },
                    ),
                    None => self.trail_of(n) is None,
                } by {
                crate::registry::lemma_index_of_is_earliest(self.names_view(), n);
                crate::registry::lemma_index_of_is_earliest(self.names_view(), name@);
            }
        }
    }

    /// Hands each body's position to the trail stored under the body's name:
    /// `positions[i]` is where the body named `names[i]` is now, and the
    /// bodies report in order.
    pub fn record_positions(&mut self, names: &[String], positions: &[P])
        where
            P: Copy,
        requires
            names@.len() == positions@.len(),
        ensures
            final(self).names_view() == old(self).names_view(),
            final(self).trails_view().len() == old(self).trails_view().len(),
            forall|k: int|
                0 <= k < old(self).trails_view().len() ==> {
                    let t = #[trigger] final(self).trails_view()[k];
                    let u = old(self).trails_view()[k];
                    &&& t.spec_positions() == recorded_positions(
                        u.spec_positions(),
                        u.spec_max_length() as nat,
                        u.spec_enabled(),
                        names_view(names@),
                        positions@,
                        old(self).names_view()[k],
                        names@.len() as int,
                    )
                    &&& t.spec_color() == u.spec_color()
                    &&& t.spec_max_length() == u.spec_max_length()
                    &&& t.spec_enabled() == u.spec_enabled()
                },
            forall|n: Seq<char>|
                #![trigger old(self).trail_of(n)]
                #![trigger final(self).trail_of(n)]
                match old(self).trail_of(n) {
                    Some(u) => final(self).trail_of(n) matches Some(t) && trail_as(
                        u,
                        t,
                        recorded_positions(
                            u.spec_positions(),
                            u.spec_max_length() as nat,
                            u.spec_enabled(),
                            names_view(names@),
                            positions@,
                            n,
                            names@.len() as int,
                        ),
                        u.spec_max_length(),
                        u.spec_enabled(),
                    ),
                    None => final(self).trail_of(n) is None,
                },
    {
        proof {
            use_type_invariant(&*self);
        }
        let ghost before = self.trails_view();
        let ghost book_names = self.names_view();
        let ghost body_names = names_view(names@);
        let mut i: usize = 0;
        while i < names.len()
            invariant
                names@.len() == positions@.len(),
                body_names == names_view(names@),
                i <= names@.len(),
                self.names_view() == book_names,
                self.trails_view().len() == before.len(),
                forall|k: int|
                    0 <= k < before.len() ==> {
                        let t = #[trigger] self.trails_view()[k];
                        let u = before[k];
                        &&& t.spec_positions() == recorded_positions(
                            u.spec_positions(),
                            u.spec_max_length() as nat,
                            u.spec_enabled(),
                            body_names,
                            positions@,
                            book_names[k],
                            i as int,
                        )
                        &&& t.spec_color() == u.spec_color()
                        &&& t.spec_max_length() == u.spec_max_length()
                        &&& t.spec_enabled() == u.spec_enabled()
                    },
            decreases names@.len() - i,
        {
            proof {
                use_type_invariant(&*self);
                crate::registry::lemma_index_of_is_earliest(book_names, names@[i as int]@);
            }
            let ghost mid = self.trails_view();
            let p = positions[i];
            match self.get_mut(names[i].as_str()) {
                Some(t) => {
                    t.add_position(p);
                },
                None => {},
            }
            proof {
                assert(body_names[i as int] == names@[i as int]@);
                assert forall|k: int| 0 <= k < before.len() implies {
                    let t = #[trigger] self.trails_view()[k];
                    let u = before[k];
                    &&& t.spec_positions() == recorded_positions(
                        u.spec_positions(),
                        u.spec_max_length() as nat,
                        u.spec_enabled(),
                        body_names,
                        positions@,
                        book_names[k],
                        i + 1,
                    )
                    &&& t.spec_color() == u.spec_color()
                    &&& t.spec_max_length() == u.spec_max_length()
                    &&& t.spec_enabled() == u.spec_enabled()
                } by {
                    assert(mid[k] == self.trails_view()[k] || index_of(book_names, names@[i as int]@)
                        == Some(k));
                }
            }
            i = i + 1;
        }
        proof {
            assert forall|n: Seq<char>|
                #![trigger old(self).trail_of(n)]
                #![trigger self.trail_of(n)]
                match old(self).trail_of(n) {
                    Some(u) => self.trail_of(n) matches Some(t) && trail_as(
                        u,
                        t,
                        recorded_positions(
                            u.spec_positions(),
                            u.spec_max_length() as nat,
                            u.spec_enabled(),
                            names_view(names@),
                            positions@,
                            n,
                            names@.len() as int,
                        ),
                        u.spec_max_length(),
                        u.spec_enabled(),
                    ),
                    None => self.trail_of(n) is None,
                } by {
                crate::registry::lemma_index_of_is_earliest(book_names, n);
            }
        }
    }
}

/// The points that an orbit trail of limit `max`, enabled or not, holds
/// after it held `history` and the first `n` bodies of `names` reported
/// `positions`: each body named `name` hands its position to the trail.
pub open spec fn recorded_positions<P>(
    history: Seq<P>,
    max: nat,
    enabled: bool,
    names: Seq<Seq<char>>,
    positions: Seq<P>,
    name: Seq<char>,
    n: int,
) -> Seq<P>
    decreases n,
{
    if n <= 0 {
        history
    } else {
        let before = recorded_positions(history, max, enabled, names, positions, name, n - 1);
        if names[n - 1] == name {
            orbit_trail_after_add(before, positions[n - 1], max, enabled)
        } else {
            before
        }
    }
}

/// A disabled orbit trail records nothing, whatever the bodies report.
pub proof fn lemma_disabled_trail_records_nothing<P>(
    history: Seq<P>,
    max: nat,
    names: Seq<Seq<char>>,
    positions: Seq<P>,
    name: Seq<char>,
    n: int,
)
    ensures
        recorded_positions(history, max, false, names, positions, name, n) == history,
    decreases n,
{
    if n > 0 {
        lemma_disabled_trail_records_nothing(history, max, names, positions, name, n - 1);
    }
}

/// An orbit trail within its limit stays within it, however many positions
/// the bodies report.
pub proof fn lemma_recorded_within_limit<P>(
    history: Seq<P>,
    max: nat,
    enabled: bool,
    names: Seq<Seq<char>>,
    positions: Seq<P>,
    name: Seq<char>,
    n: int,
)
    requires
        history.len() <= max,
    ensures
        recorded_positions(history, max, enabled, names, positions, name, n).len() <= max,
    decreases n,
{
    if n > 0 {
        lemma_recorded_within_limit(history, max, enabled, names, positions, name, n - 1);
        let before = recorded_positions(history, max, enabled, names, positions, name, n - 1);
        if enabled {
            lemma_orbit_trail_add_within_limit(before, positions[n - 1], max);
        }
    }
}

/// After the entry at `i` is removed from a list of distinct names, that name
/// is no longer found, and every other name is found at the same entry as
/// before, shifted past the gap.
proof fn lemma_index_after_remove(names: Seq<Seq<char>>, i: int)
    requires
        0 <= i < names.len(),
        distinct_names(names),
    ensures
        distinct_names(names.remove(i)),
        index_of(names.remove(i), names[i]) is None,
        forall|other: Seq<char>|
            other != names[i] ==> #[trigger] index_of(names.remove(i), other) == match index_of(
                names,
                other,
            ) {
                Some(k) => if k < i {
                    Some(k)
                } else {
                    Some(k - 1)
                },
                None => None,
            },
{
    let rest = names.remove(i);
    crate::registry::lemma_index_of_is_earliest(rest, names[i]);
    assert forall|other: Seq<char>| other != names[i] implies #[trigger] index_of(rest, other)
        == match index_of(names, other) {
        Some(k) => if k < i {
            Some(k)
        } else {
            Some(k - 1)
        },
        None => None,
    } by {
        crate::registry::lemma_index_of_is_earliest(rest, other);
        crate::registry::lemma_index_of_is_earliest(names, other);
        match index_of(names, other) {
            Some(k) => {
                if k < i {
                    assert(rest[k] == names[k]);
                } else {
                    assert(rest[k - 1] == names[k]);
                }
                match index_of(rest, other) {
                    Some(m) => {
                        if m < i {
                            assert(rest[m] == names[m]);
                        } else {
                            assert(rest[m] == names[m + 1]);
                        }
                    },
                    None => {},
                }
            },
            None => {
                match index_of(rest, other) {
                    Some(m) => {
                        if m < i {
                            assert(rest[m] == names[m]);
                        } else {
                            assert(rest[m] == names[m + 1]);
                        }
                    },
                    None => {},
                }
            },
        }
    }
}

} // verus!
