//! The application state that commands and tools act on.
use crate::reflect::{lemma_view, Instance, InstanceView};
use crate::text::same_text;
use vstd::prelude::*;

verus! {

/// The shared, long-lived state: resources, each addressed by its type.
pub struct World {
    /// The resources. Where two are of one type, the first is the one in use.
    pub resources: Vec<Instance>,
}

impl View for World {
    type V = Seq<InstanceView>;

    open spec fn view(&self) -> Seq<InstanceView> {
        self.resources@.map_values(|r: Instance| r@)
    }
}

/// The position of the first resource at or after `from` whose type is `type_path`.
pub open spec fn find_resource(world: Seq<InstanceView>, type_path: Seq<char>, from: int) -> Option<
    int,
>
    decreases world.len() - from,
{
    if from < 0 || from >= world.len() {
        None
    } else if world[from].type_path == type_path {
        Some(from)
    } else {
        find_resource(world, type_path, from + 1)
    }
}

/// The resource of type `type_path`, if the world holds one.
pub open spec fn resource_of(world: Seq<InstanceView>, type_path: Seq<char>) -> Option<InstanceView> {
    match find_resource(world, type_path, 0) {
        Some(i) => Some(world[i]),
        None => None,
    }
}

/// The world with `value` as the resource of its type: in the place of the
/// one that was there, or added at the end.
pub open spec fn with_resource(world: Seq<InstanceView>, value: InstanceView) -> Seq<InstanceView> {
    match find_resource(world, value.type_path, 0) {
        Some(i) => world.update(i, value),
        None => world.push(value),
    }
}

/// `find_resource` returns a position inside the world, at or after `from`.
pub proof fn lemma_find_resource(world: Seq<InstanceView>, type_path: Seq<char>, from: int)
    requires
        0 <= from,
    ensures
        find_resource(world, type_path, from) matches Some(i) ==> from <= i < world.len()
            && world[i].type_path == type_path,
    decreases world.len() - from,
{
    if from < world.len() && world[from].type_path != type_path {
        lemma_find_resource(world, type_path, from + 1);
    }
}

impl World {
    /// A world without resources.
    pub fn new() -> (world: World)
        ensures
            world@ == Seq::<InstanceView>::empty(),
    {
        let world = World { resources: Vec::new() };
        assert(world@ =~= Seq::<InstanceView>::empty());
        world
    }

    /// The position of the resource of type `type_path`.
    pub fn position(&self, type_path: &str) -> (r: Option<usize>)
        ensures
            match r {
                Some(i) => find_resource(self@, type_path@, 0) == Some(i as int) && i
                    < self.resources.len(),
                None => find_resource(self@, type_path@, 0) is None,
            },
    {
        let mut i: usize = 0;
        while i < self.resources.len()
            invariant
                i <= self.resources.len(),
                find_resource(self@, type_path@, 0) == find_resource(self@, type_path@, i as int),
            decreases self.resources.len() - i,
        {
            proof {
                lemma_view(self.resources[i as int]);
            }
            if same_text(self.resources[i].type_path.as_str(), type_path) {
                return Some(i);
            }
            i += 1;
        }
        None
    }

    /// The resource of type `type_path`, or `None` if none was installed.
    pub fn get_resource(&self, type_path: &str) -> (r: Option<&Instance>)
        ensures
            match r {
                Some(resource) => resource_of(self@, type_path@) == Some(resource@),
                None => resource_of(self@, type_path@) is None,
            },
    {
        match self.position(type_path) {
            Some(i) => Some(&self.resources[i]),
            None => None,
        }
    }

    /// Installs `value` as the resource of its type, in place of the one
    /// that was there if there was one.
    pub fn insert_resource(&mut self, value: Instance)
        ensures
            final(self)@ == with_resource(old(self)@, value@),
    {
        proof {
            lemma_view(value);
        }
        match self.position(value.type_path.as_str()) {
            Some(i) => {
                self.resources[i] = value;
                assert(self@ =~= with_resource(old(self)@, value@));
            },
            None => {
                self.resources.push(value);
                assert(self@ =~= with_resource(old(self)@, value@));
            },
        }
    }
}

} // verus!
