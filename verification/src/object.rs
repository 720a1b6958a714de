//! Objects of the world and the prototypes that they are made from.

use vstd::prelude::*;
use std::sync::Arc;
use crate::graphics::mesh::Mesh;

verus! {

/// Hands out a second handle to what `this` points to, as `Arc::clone` does:
/// the new handle points to the same value.
#[verifier::external_body]
fn share<T>(this: &Arc<T>) -> (other: Arc<T>)
    ensures
        other == *this,
{
    Arc::clone(this)
}

/// The geometry that all objects of one kind share: a mesh for each level of
/// detail.
#[derive(Debug)]
pub struct ObjectPrototype {
    pub lod0: Mesh,
    pub lod1: Mesh,
}

impl ObjectPrototype {
    pub fn new(lod0: Mesh, lod1: Mesh) -> (prototype: ObjectPrototype)
        ensures
            prototype.lod0 == lod0,
            prototype.lod1 == lod1,
    {
        ObjectPrototype { lod0, lod1 }
    }
}

/// Why an object or a prototype could not be had.
#[derive(Debug)]
pub enum ObjectError {
    /// No prototype is registered under this name.
    PrototypeNotExisting(String),
}

/// One object of the world: a shared prototype and the object's own placement
/// `M`.
pub struct Object<M> {
    prototype: Arc<ObjectPrototype>,
    model: M,
}

impl<M> Object<M> {
    /// The prototype that the object was made from.
    pub closed spec fn spec_prototype(&self) -> ObjectPrototype {
        *self.prototype
    }

    /// The object's placement.
    pub closed spec fn spec_model(&self) -> M {
        self.model
    }

    pub fn get_prototype(&self) -> (prototype: &ObjectPrototype)
        ensures
            *prototype == self.spec_prototype(),
    {
        &*self.prototype
    }

    pub fn get_model(&self) -> (model: &M)
        ensures
            *model == self.spec_model(),
    {
        &self.model
    }

    /// Replaces the object's placement and leaves its prototype.
    pub fn set_model(&mut self, model: M)
        ensures
            final(self).spec_model() == model,
            final(self).spec_prototype() == old(self).spec_prototype(),
    {
        self.model = model;
    }
}

impl<M: Default> Object<M> {
    /// An object of the given prototype with the default placement.
    pub fn new(prototype: Arc<ObjectPrototype>) -> (object: Object<M>)
        ensures
            object.spec_prototype() == *prototype,
            M::default.ensures((), object.spec_model()),
    {
        Object { prototype: prototype, model: M::default() }
    }
}

/// The prototypes of a world, each under its name.
pub struct ObjectManager {
    names: Vec<String>,
    prototypes: Vec<Arc<ObjectPrototype>>,
}

impl ObjectManager {
    /// Each name has its prototype, and no name is registered twice.
    pub closed spec fn wf(&self) -> bool {
        &&& self.names@.len() == self.prototypes@.len()
        &&& forall|i: int, j: int|
            0 <= i < j < self.names@.len() ==> self.names@[i]@ != self.names@[j]@
    }

    spec fn registered_at(&self, name: Seq<char>, i: int) -> bool {
        0 <= i < self.names@.len() && self.names@[i]@ == name
    }

    /// The registered prototypes by name.
    pub closed spec fn view(&self) -> Map<Seq<char>, ObjectPrototype> {
        Map::new(
            |name: Seq<char>| exists|i: int| self.registered_at(name, i),
            |name: Seq<char>| *self.prototypes@[choose|i: int| self.registered_at(name, i)],
        )
    }

    fn find(&self, name: &str) -> (found: Option<usize>)
        requires
            self.wf(),
        ensures
            match found {
                Some(i) => self.registered_at(name@, i as int),
                None => !self@.contains_key(name@),
            },
    {
        let wanted = name.to_owned();
        let mut i: usize = 0;
        while i < self.names.len()
            invariant
                0 <= i <= self.names@.len(),
                wanted@ == name@,
                forall|j: int| 0 <= j < i ==> !self.registered_at(name@, j),
            decreases self.names@.len() - i,
        {
            if self.names[i] == wanted {
                return Some(i);
            }
            i += 1;
        }
        None
    }

    /// Whether a prototype is registered under `name`.
    pub fn has_prototype(&self, name: &str) -> (known: bool)
        requires
            self.wf(),
        ensures
            known == self@.contains_key(name@),
    {
        match self.find(name) {
            Some(i) => {
                assert(self.registered_at(name@, i as int));
                true
            },
            None => false,
        }
    }

    /// Registers `prototype` under `name`, which must be new. Every other
    /// name keeps its prototype.
    pub fn add_prototype(&mut self, name: &str, prototype: ObjectPrototype)
        requires
            old(self).wf(),
            !old(self)@.contains_key(name@),
        ensures
            final(self).wf(),
            final(self)@ == old(self)@.insert(name@, prototype),
    {
        let ghost before = *self;
        self.names.push(name.to_owned());
        self.prototypes.push(Arc::new(prototype));
        proof {
            let last = before.names@.len() as int;
            assert forall|i: int, j: int| 0 <= i < j < self.names@.len() implies self.names@[i]@
                != self.names@[j]@ by {
                if j == last {
                    assert(!before.registered_at(name@, i));
                }
            }
            assert(self.registered_at(name@, last));
            assert forall|other: Seq<char>| #[trigger]
                self@.contains_key(other) == before@.insert(name@, prototype).contains_key(
                    other,
                ) by {
                if other != name@ {
                    if self@.contains_key(other) {
                        let i = choose|i: int| self.registered_at(other, i);
                        assert(before.registered_at(other, i));
                    }
                    if before@.contains_key(other) {
                        let i = choose|i: int| before.registered_at(other, i);
                        assert(self.registered_at(other, i));
                    }
                }
            }
            assert forall|other: Seq<char>| self@.contains_key(other) implies
                #[trigger] self@[other] == before@.insert(name@, prototype)[other] by {
                let i = choose|i: int| self.registered_at(other, i);
                if other == name@ {
                    if i != last {
                        assert(before.registered_at(name@, i));
                    }
                } else {
                    assert(before.registered_at(other, i));
                    let k = choose|k: int| before.registered_at(other, k);
                    if k != i {
                        assert(self.names@[k]@ == self.names@[i]@);
                    }
                }
            }
            assert(self@ =~= before@.insert(name@, prototype));
        }
    }

    /// A new object of the prototype registered under `prototype_name`, or
    /// the error that names the missing prototype.
    pub fn create_object<M: Default>(&self, prototype_name: &str) -> (made: Result<
        Object<M>,
        ObjectError,
    >)
        requires
            self.wf(),
        ensures
            match made {
                Ok(object) => {
                    &&& self@.contains_key(prototype_name@)
                    &&& object.spec_prototype() == self@[prototype_name@]
                    &&& M::default.ensures((), object.spec_model())
                },
                Err(ObjectError::PrototypeNotExisting(name)) => {
                    &&& !self@.contains_key(prototype_name@)
                    &&& name@ == prototype_name@
                },
            },
    {
        match self.find(prototype_name) {
            Some(i) => {
                proof {
                    let k = choose|k: int| self.registered_at(prototype_name@, k);
                    assert(self.registered_at(prototype_name@, i as int));
                    if k != i {
                        assert(self.names@[k]@ == self.names@[i as int]@);
                    }
                }
                let obj = Object::new(share(&self.prototypes[i]));
                Ok(obj)
            },
            None => Err(ObjectError::PrototypeNotExisting(prototype_name.to_owned())),
        }
    }
}

impl Default for ObjectManager {
    /// A manager without prototypes.
    fn default() -> (manager: ObjectManager)
        ensures
            manager.wf(),
            manager@ == Map::<Seq<char>, ObjectPrototype>::empty(),
    {
        let manager = ObjectManager { names: Vec::new(), prototypes: Vec::new() };
        assert(manager@ =~= Map::<Seq<char>, ObjectPrototype>::empty());
        manager
    }
}

} // verus!
