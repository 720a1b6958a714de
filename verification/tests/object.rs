use std::sync::Arc;
use world_gen::graphics::mesh::{Mesh, VAO};
use world_gen::object::{Object, ObjectError, ObjectManager, ObjectPrototype};

#[derive(Debug, Default, PartialEq)]
struct Placement {
    translation: [f32; 3],
    scale: f32,
}

fn prototype(id: u32) -> ObjectPrototype {
    ObjectPrototype::new(Mesh::from_vao(VAO::new(id, 12)), Mesh::from_vao(VAO::new(id + 1, 6)))
}

#[test]
fn new_object_has_the_default_placement() {
    let object: Object<Placement> = Object::new(Arc::new(prototype(1)));
    assert_eq!(*object.get_model(), Placement::default());
    assert_eq!(object.get_prototype().lod0.get_vertex_count(), 12);
    assert_eq!(object.get_prototype().lod1.get_vertex_count(), 6);
}

#[test]
fn set_model_moves_the_object() {
    let mut object: Object<Placement> = Object::new(Arc::new(prototype(1)));
    object.set_model(Placement { translation: [1.0, 2.0, 3.0], scale: 2.0 });
    assert_eq!(object.get_model().translation, [1.0, 2.0, 3.0]);
    assert_eq!(object.get_prototype().lod0.get_vertex_count(), 12);
}

#[test]
fn create_object_of_a_registered_prototype() {
    let mut manager = ObjectManager::default();
    assert!(!manager.has_prototype("tree"));
    manager.add_prototype("tree", prototype(10));
    manager.add_prototype("rock", prototype(20));
    assert!(manager.has_prototype("tree"));
    assert!(manager.has_prototype("rock"));
    assert!(!manager.has_prototype("bush"));
    let tree: Object<Placement> = manager.create_object("tree").unwrap();
    assert_eq!(tree.get_prototype().lod0.render().unwrap().vao, 10);
    let rock: Object<Placement> = manager.create_object("rock").unwrap();
    assert_eq!(rock.get_prototype().lod0.render().unwrap().vao, 20);
    assert_eq!(rock.get_prototype().lod1.render().unwrap().vao, 21);
}

#[test]
fn create_object_of_an_unknown_prototype() {
    let mut manager = ObjectManager::default();
    manager.add_prototype("tree", prototype(10));
    match manager.create_object::<Placement>("bush") {
        Err(ObjectError::PrototypeNotExisting(name)) => assert_eq!(name, "bush"),
        _ => panic!("an unknown prototype gives PrototypeNotExisting"),
    }
    match manager.create_object::<Placement>("") {
        Err(ObjectError::PrototypeNotExisting(name)) => assert_eq!(name, ""),
        _ => panic!("an unknown prototype gives PrototypeNotExisting"),
    }
}

#[test]
fn objects_share_their_prototype() {
    let mut manager = ObjectManager::default();
    manager.add_prototype("tree", prototype(10));
    let first: Object<Placement> = manager.create_object("tree").unwrap();
    let second: Object<Placement> = manager.create_object("tree").unwrap();
    assert!(std::ptr::eq(first.get_prototype(), second.get_prototype()));
}
