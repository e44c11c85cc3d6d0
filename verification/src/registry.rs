//! The bodies of a simulation, each under a name.
//!
//! A simulation keeps its objects in the order they were added, with a name
//! beside each. Names need not be distinct: a lookup by name finds the
//! earliest object that carries it.
use vstd::prelude::*;

use crate::text::str_equals;

verus! {

/// The first index at or after `i` at which `names` holds `name`.
pub open spec fn index_from(names: Seq<Seq<char>>, name: Seq<char>, i: int) -> Option<int>
    decreases names.len() - i,
{
    if i < 0 || i >= names.len() {
        None
    } else if names[i] == name {
        Some(i)
    } else {
        index_from(names, name, i + 1)
    }
}

/// The index of the earliest entry of `names` that is `name`.
pub open spec fn index_of(names: Seq<Seq<char>>, name: Seq<char>) -> Option<int> {
    index_from(names, name, 0)
}

/// The names of `names` as character sequences.
pub open spec fn names_view(names: Seq<String>) -> Seq<Seq<char>> {
    names.map_values(|s: String| s@)
}

/// Objects paired with names, in the order they were added.
pub struct NamedObjects<T> {
    objects: Vec<T>,
    names: Vec<String>,
}

impl<T> NamedObjects<T> {
    /// Each object has exactly one name beside it.
    #[verifier::type_invariant]
    closed spec fn aligned(&self) -> bool {
        self.objects.len() == self.names.len()
    }

    /// The objects, oldest first.
    pub closed spec fn objects_view(&self) -> Seq<T> {
        self.objects@
    }

    /// The names, in the same order as the objects.
    pub closed spec fn names_view(&self) -> Seq<Seq<char>> {
        names_view(self.names@)
    }

    /// The object that a lookup of `name` finds.
    pub open spec fn lookup(&self, name: Seq<char>) -> Option<T> {
        match index_of(self.names_view(), name) {
            Some(i) => Some(self.objects_view()[i]),
            None => None,
        }
    }

    /// No objects.
    pub fn new() -> (r: NamedObjects<T>)
        ensures
            r.objects_view() == Seq::<T>::empty(),
            r.names_view() == Seq::<Seq<char>>::empty(),
    {
        let r = NamedObjects { objects: Vec::new(), names: Vec::new() };
        assert(r.names_view() =~= Seq::<Seq<char>>::empty());
        r
    }

    /// Moves the objects and names out, leaving no objects behind.
    fn take_parts(&mut self) -> (r: (Vec<T>, Vec<String>))
        ensures
            r.0@ == old(self).objects_view(),
            names_view(r.1@) == old(self).names_view(),
            r.0@.len() == r.1@.len(),
            final(self).objects_view() == Seq::<T>::empty(),
    {
        let mut taken = NamedObjects { objects: Vec::new(), names: Vec::new() };
        std::mem::swap(&mut taken, self);
        proof {
            use_type_invariant(&taken);
        }
        let NamedObjects { objects, names } = taken;
        (objects, names)
    }

    /// Adds `object` under `name`, after all the others.
    pub fn add_object(&mut self, object: T, name: String)
        ensures
            final(self).objects_view() == old(self).objects_view().push(object),
            final(self).names_view() == old(self).names_view().push(name@),
    {
        let (mut objects, mut names) = self.take_parts();
        objects.push(object);
        names.push(name);
        proof {
            assert(names_view(names@) =~= names_view(old(self).names@).push(name@));
        }
        *self = NamedObjects { objects, names };
    }

    /// The index of the earliest object named `name`.
    pub fn position(&self, name: &str) -> (r: Option<usize>)
        ensures
            match r {
                Some(i) => index_of(self.names_view(), name@) == Some(i as int),
                None => index_of(self.names_view(), name@) is None,
            },
            r matches Some(i) ==> i < self.objects_view().len(),
    {
        proof {
            use_type_invariant(self);
        }
        let mut i: usize = 0;
        while i < self.names.len()
            invariant
                i <= self.names@.len(),
                self.objects@.len() == self.names@.len(),
                index_of(self.names_view(), name@) == index_from(
                    self.names_view(),
                    name@,
                    i as int,
                ),
            decreases self.names@.len() - i,
        {
            if str_equals(self.names[i].as_str(), name) {
                return Some(i);
            }
            i = i + 1;
        }
        None
    }

    /// Removes the earliest object named `name`, with its name, and returns
    /// it; `None`, and no change, when no object has that name.
    pub fn remove_object(&mut self, name: &str) -> (r: Option<T>)
        ensures
            match index_of(old(self).names_view(), name@) {
                Some(i) => {
                    &&& r == Some(old(self).objects_view()[i])
                    &&& final(self).objects_view() == old(self).objects_view().remove(i)
                    &&& final(self).names_view() == old(self).names_view().remove(i)
                },
                None => {
                    &&& r is None
                    &&& final(self).objects_view() == old(self).objects_view()
                    &&& final(self).names_view() == old(self).names_view()
                },
            },
    {
        proof {
            use_type_invariant(&*self);
        }
        match self.position(name) {
            None => None,
            Some(index) => {
                let (mut objects, mut names) = self.take_parts();
                let removed = objects.remove(index);
                names.remove(index);
                proof {
                    assert(names_view(names@) =~= names_view(old(self).names@).remove(
                        index as int,
                    ));
                }
                *self = NamedObjects { objects, names };
                Some(removed)
            },
        }
    }

    /// The earliest object named `name`.
    pub fn get_object(&self, name: &str) -> (r: Option<&T>)
        ensures
            match self.lookup(name@) {
                Some(o) => r == Some(&o),
                None => r is None,
            },
    {
        match self.position(name) {
            Some(index) => Some(&self.objects[index]),
            None => None,
        }
    }

    /// The earliest object named `name`, for changing it in place.
    pub fn get_object_mut(&mut self, name: &str) -> (r: Option<&mut T>)
        ensures
            match index_of(old(self).names_view(), name@) {
                Some(i) => {
                    &&& r matches Some(o) && *o == old(self).objects_view()[i]
                        && final(self).objects_view() == old(self).objects_view().update(
                        i,
                        *final(o),
                    )
                    &&& final(self).names_view() == old(self).names_view()
                },
                None => {
                    &&& r is None
                    &&& final(self).objects_view() == old(self).objects_view()
                    &&& final(self).names_view() == old(self).names_view()
                },
            },
    {
        proof {
            use_type_invariant(&*self);
        }
        match self.position(name) {
            Some(index) => Some(&mut self.objects[index]),
            None => None,
        }
    }

    /// All objects, oldest first.
    pub fn get_objects(&self) -> (r: &Vec<T>)
        ensures
            r@ == self.objects_view(),
    {
        &self.objects
    }

    /// The object at `index`, for changing it in place; the names stay.
    pub fn get_object_at_mut(&mut self, index: usize) -> (r: &mut T)
        requires
            index < old(self).objects_view().len(),
        ensures
            *r == old(self).objects_view()[index as int],
            final(self).objects_view() == old(self).objects_view().update(index as int, *final(r)),
            final(self).names_view() == old(self).names_view(),
    {
        proof {
            use_type_invariant(&*self);
        }
        &mut self.objects[index]
    }

    /// All names, in the order of the objects.
    pub fn get_object_names(&self) -> (r: &[String])
        ensures
            names_view(r@) == self.names_view(),
            r@.len() == self.objects_view().len(),
    {
        proof {
            use_type_invariant(self);
        }
        self.names.as_slice()
    }

    /// Removes every object and name.
    pub fn clear(&mut self)
        ensures
            final(self).objects_view() == Seq::<T>::empty(),
            final(self).names_view() == Seq::<Seq<char>>::empty(),
    {
        *self = NamedObjects::new();
    }
}

/// A name that occurs nowhere in `names` is found, after it is appended, at
/// the end; a name that occurs already is still found where it was.
pub proof fn lemma_index_after_push(names: Seq<Seq<char>>, name: Seq<char>, added: Seq<char>)
    ensures
        index_of(names.push(added), name) == match index_of(names, name) {
            Some(i) => Some(i),
            None => if added == name {
                Some(names.len() as int)
            } else {
                None
            },
        },
{
    lemma_index_from_after_push(names, name, added, 0);
}

proof fn lemma_index_from_after_push(
    names: Seq<Seq<char>>,
    name: Seq<char>,
    added: Seq<char>,
    i: int,
)
    requires
        0 <= i <= names.len(),
    ensures
        index_from(names.push(added), name, i) == match index_from(names, name, i) {
            Some(k) => Some(k),
            None => if added == name {
                Some(names.len() as int)
            } else {
                None
            },
        },
    decreases names.len() - i,
{
    if i < names.len() {
        assert(names.push(added)[i] == names[i]);
        lemma_index_from_after_push(names, name, added, i + 1);
    } else {
        assert(names.push(added)[i] == added);
        assert(index_from(names.push(added), name, i + 1) is None);
    }
}

/// The earliest entry found by `index_of` holds the name, and no earlier
/// entry does.
pub proof fn lemma_index_of_is_earliest(names: Seq<Seq<char>>, name: Seq<char>)
    ensures
        match index_of(names, name) {
            Some(i) => 0 <= i < names.len() && names[i] == name && forall|j: int|
                0 <= j < i ==> names[j] != name,
            None => forall|j: int| 0 <= j < names.len() ==> names[j] != name,
        },
{
    lemma_index_from_bounds(names, name, 0);
}

proof fn lemma_index_from_bounds(names: Seq<Seq<char>>, name: Seq<char>, i: int)
    requires
        0 <= i,
    ensures
        match index_from(names, name, i) {
            Some(k) => i <= k < names.len() && names[k] == name && forall|j: int|
                i <= j < k ==> names[j] != name,
            None => forall|j: int| i <= j < names.len() ==> names[j] != name,
        },
    decreases names.len() - i,
{
    if i < names.len() {
        lemma_index_from_bounds(names, name, i + 1);
    }
}

/// Looking up a name right after an object was added under it finds that
/// object, unless an earlier object already had the name; then it finds the
/// earlier one, as before.
pub proof fn lemma_lookup_after_add<T>(
    names: Seq<Seq<char>>,
    objects: Seq<T>,
    name: Seq<char>,
    object: T,
)
    requires
        names.len() == objects.len(),
    ensures
        ({
            let found = match index_of(names.push(name), name) {
                Some(i) => Some(objects.push(object)[i]),
                None => None,
            };
            match index_of(names, name) {
                Some(i) => found == Some(objects[i]),
                None => found == Some(object),
            }
        }),
{
    lemma_index_after_push(names, name, name);
    lemma_index_of_is_earliest(names, name);
}

/// Removing a name right after an object was added under a name that no
/// other object carries gives back that object and leaves the objects and
/// names as they were before.
pub proof fn lemma_remove_after_add<T>(
    names: Seq<Seq<char>>,
    objects: Seq<T>,
    name: Seq<char>,
    object: T,
)
    requires
        names.len() == objects.len(),
        index_of(names, name) is None,
    ensures
        index_of(names.push(name), name) == Some(names.len() as int),
        objects.push(object)[names.len() as int] == object,
        objects.push(object).remove(names.len() as int) == objects,
        names.push(name).remove(names.len() as int) == names,
{
    lemma_index_after_push(names, name, name);
    assert(objects.push(object).remove(names.len() as int) =~= objects);
    assert(names.push(name).remove(names.len() as int) =~= names);
}

} // verus!
