//! A scene of entities, each a name and a list of named components.

use vstd::prelude::*;
use vstd::string::*;
use crate::utf8_lines::bytes;

verus! {

broadcast use vstd::utf8::group_utf8_lib;

/// Behaviour attached to an entity, implemented by the users of the scene.
pub trait Component {
    /// The component's name, by which its entity finds it.
    fn name(&self) -> &'static str;

    /// Reacts to an event of the entity that holds it.
    fn event(&mut self, entity: &mut Entity<Self>) where Self: Sized;

    /// Advances the component by one update of the entity that holds it.
    fn update(&mut self, entity: &mut Entity<Self>) where Self: Sized;
}

/// `true` when the two texts are equal.
pub fn same_text(a: &str, b: &str) -> (r: bool)
    ensures
        r == (a@ == b@),
{
    let ab = a.as_bytes();
    let bb = b.as_bytes();
    if ab.len() != bb.len() {
        proof {
            if a@ == b@ {
                assert(ab@ == bb@);
            }
        }
        return false;
    }
    let mut i: usize = 0;
    while i < ab.len()
        invariant
            ab@ == bytes(a@),
            bb@ == bytes(b@),
            ab@.len() == bb@.len(),
            i <= ab@.len(),
            forall|k: int| 0 <= k < i ==> ab@[k] == bb@[k],
        decreases ab@.len() - i,
    {
        if ab[i] != bb[i] {
            proof {
                if a@ == b@ {
                    assert(ab@ == bb@);
                }
            }
            return false;
        }
        i = i + 1;
    }
    proof {
        assert(ab@ =~= bb@);
        vstd::utf8::encode_utf8_decode_utf8(a@);
        vstd::utf8::encode_utf8_decode_utf8(b@);
    }
    true
}

/// The index of the first of `names` equal to `name`.
pub fn first_named(names: &Vec<&'static str>, name: &str) -> (r: Option<usize>)
    ensures
        match r {
            Some(k) => k < names@.len() && names@[k as int]@ == name@ && forall|j: int|
                0 <= j < k ==> names@[j]@ != name@,
            None => forall|j: int| 0 <= j < names@.len() ==> names@[j]@ != name@,
        },
{
    let mut i: usize = 0;
    while i < names.len()
        invariant
            i <= names@.len(),
            forall|j: int| 0 <= j < i ==> names@[j]@ != name@,
        decreases names@.len() - i,
    {
        if same_text(names[i], name) {
            return Some(i);
        }
        i = i + 1;
    }
    None
}

/// `names` are names that the components could report, one for each in order:
/// each is a possible result of that component's `name()`.
pub open spec fn reported_names<C: Component>(components: Seq<Box<C>>, names: Seq<&'static str>) -> bool {
    &&& names.len() == components.len()
    &&& forall|j: int| 0 <= j < names.len() ==> call_ensures(C::name, (&*components[j],), #[trigger] names[j])
}

/// The name at index `k` of `names` is `name`, and no earlier one is.
pub open spec fn first_named_at(names: Seq<&'static str>, name: Seq<char>, k: int) -> bool {
    &&& 0 <= k < names.len()
    &&& names[k]@ == name
    &&& forall|j: int| 0 <= j < k ==> names[j]@ != name
}

/// No name of `names` is `name`.
pub open spec fn no_name_is(names: Seq<&'static str>, name: Seq<char>) -> bool {
    forall|j: int| 0 <= j < names.len() ==> names[j]@ != name
}

/// A thing in a scene: an optional name and its components.
pub struct Entity<C: Component> {
    name: Option<String>,
    components: Vec<Box<C>>,
}

impl<C: Component> Entity<C> {
    /// The entity's name.
    pub closed spec fn entity_name(&self) -> Option<Seq<char>> {
        match self.name {
            Some(n) => Some(n@),
            None => None,
        }
    }

    /// The entity's components, in the order they were added.
    pub closed spec fn components(&self) -> Seq<Box<C>> {
        self.components@
    }

    /// An entity without a name or components.
    pub fn new() -> (r: Self)
        ensures
            r.entity_name() is None,
            r.components().len() == 0,
    {
        Self { name: None, components: Vec::new() }
    }

    /// An entity with a name and no components.
    pub fn new_named(name: &str) -> (r: Self)
        ensures
            r.entity_name() == Some(name@),
            r.components().len() == 0,
    {
        Self { name: Some(name.to_owned()), components: Vec::new() }
    }

    /// The entity's name.
    pub fn name(&self) -> (r: Option<String>)
        ensures
            match r {
                Some(n) => self.entity_name() == Some(n@),
                None => self.entity_name() is None,
            },
    {
        match &self.name {
            Some(n) => Some(n.clone()),
            None => None,
        }
    }

    /// The first component whose `name()` is `name`, if any. The names are those
    /// that the components report; the search is `first_named`'s.
    pub fn get_component(&mut self, name: &str) -> (r: Option<&mut Box<C>>)
        ensures
            final(self).entity_name() == old(self).entity_name(),
            exists|names: Seq<&'static str>| #[trigger] reported_names(old(self).components(), names)
                && match r {
                Some(c) => exists|k: int| #[trigger] first_named_at(names, name@, k)
                    && *c == old(self).components()[k]
                    && final(self).components() == old(self).components().update(k, *final(c)),
                None => no_name_is(names, name@) && final(self).components() == old(self).components(),
            },
    {
        let mut names: Vec<&'static str> = Vec::new();
        let n = self.components.len();
        let mut i: usize = 0;
        while i < n
            invariant
                *self == *old(self),
                n == self.components@.len(),
                i <= n,
                names@.len() == i,
                forall|j: int| 0 <= j < i ==> call_ensures(C::name, (&*self.components@[j],), #[trigger] names@[j]),
            decreases n - i,
        {
            names.push(self.components[i].name());
            i = i + 1;
        }
        assert(reported_names(old(self).components(), names@));
        match first_named(&names, name) {
            Some(k) => {
                assert(first_named_at(names@, name@, k as int));
                Some(&mut self.components[k])
            },
            None => {
                assert(no_name_is(names@, name@));
                None
            },
        }
    }

    /// Adds a component after the entity's others.
    pub fn component(&mut self, component: Box<C>)
        ensures
            final(self).entity_name() == old(self).entity_name(),
            final(self).components() == old(self).components().push(component),
    {
        self.components.push(component);
    }
}

/// The entities of a scene, found by their index.
pub struct Scene<C: Component> {
    entities: Vec<Entity<C>>,
}

impl<C: Component> Scene<C> {
    /// The scene's entities in the order they were created.
    pub closed spec fn entities(&self) -> Seq<Entity<C>> {
        self.entities@
    }

    /// An empty scene.
    pub fn new() -> (r: Self)
        ensures
            r.entities().len() == 0,
    {
        Self { entities: Vec::new() }
    }

    /// Adds an entity without a name or components and returns its index.
    pub fn new_entity(&mut self) -> (id: usize)
        ensures
            id == old(self).entities().len(),
            final(self).entities().len() == old(self).entities().len() + 1,
            final(self).entities().subrange(0, id as int) == old(self).entities(),
            final(self).entities()[id as int].entity_name() is None,
            final(self).entities()[id as int].components().len() == 0,
    {
        self.entities.push(Entity::new());
        proof {
            assert(self.entities@.subrange(0, old(self).entities@.len() as int) =~= old(self).entities@);
        }
        self.entities.len() - 1
    }

    /// The entity with index `id`, if there is one.
    pub fn get_entity(&mut self, id: usize) -> (r: Option<&mut Entity<C>>)
        ensures
            r is None <==> id >= old(self).entities().len(),
            r matches Some(e) ==> *e == old(self).entities()[id as int]
                && final(self).entities() == old(self).entities().update(id as int, *final(e)),
            r is None ==> final(self).entities() == old(self).entities(),
    {
        if id < self.entities.len() {
            Some(&mut self.entities[id])
        } else {
            None
        }
    }

    /// Adds a component to the entity with index `id`; without such an entity
    /// nothing changes.
    pub fn push_component(&mut self, id: usize, component: Box<C>)
        ensures
            final(self).entities().len() == old(self).entities().len(),
            forall|i: int|
                0 <= i < old(self).entities().len() && i != id ==> #[trigger] final(self).entities()[i]
                    == old(self).entities()[i],
            id < old(self).entities().len() ==> final(self).entities()[id as int].components()
                == old(self).entities()[id as int].components().push(component),
            id < old(self).entities().len() ==> final(self).entities()[id as int].entity_name()
                == old(self).entities()[id as int].entity_name(),
    {
        if id < self.entities.len() {
            self.entities[id].component(component);
        }
    }

    /// Removing components is not supported yet: nothing changes.
    pub fn remove_component(&mut self, entity: usize, component: u32)
        ensures
            final(self).entities() == old(self).entities(),
    {
    }

    /// Adding images is not supported yet: nothing changes.
    pub fn add_image(&mut self)
        ensures
            final(self).entities() == old(self).entities(),
    {
    }
}

} // verus!
