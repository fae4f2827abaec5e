use gamezap::ecs::component::{
    ComponentDetails, ComponentSystem, UNPLACED_PHYSICS_COMPONENT_ID, UNPLACED_TEXT_COMPONENT_ID,
};
use gamezap::ecs::components::mesh_component::{check_obj_load, mesh_vertices, MeshComponentError};
use gamezap::ecs::components::physics_component::{Impulse, PhysicsComponent};
use gamezap::ecs::components::text_component::TextComponent;
use gamezap::ecs::concepts::{ConceptManager, ConceptMap};

#[test]
fn text_component_starts_unplaced() {
    let text = TextComponent::new("hello".to_string());
    assert_eq!(text.params(), "hello");
    assert_eq!(text.text_index(), usize::MAX);
    assert_eq!(text.parent_entity_id(), 0);
    assert_eq!(text.id(), UNPLACED_TEXT_COMPONENT_ID);
    assert!(text.is_enabled());
    assert!(!text.is_initialized());
    assert_eq!(text.rendering_order(), 0);
}

#[test]
fn text_component_initialize_appends_its_params() {
    let mut items = vec!["a".to_string(), "b".to_string()];
    let mut text = TextComponent::new("c".to_string());
    text.initialize_text(&mut items);
    assert_eq!(text.text_index(), 2);
    assert_eq!(items, vec!["a", "b", "c"]);
    assert!(text.is_initialized());
}

#[test]
fn text_component_state_setters() {
    let mut text = TextComponent::new(0u8);
    text.set_parent_entity(4);
    text.set_enabled_state(false);
    assert_eq!(text.parent_entity_id(), 4);
    assert!(!text.is_enabled());
}

#[test]
fn physics_component_registers_its_quantities() {
    let mut manager: ConceptManager<i32> = ConceptManager::default();
    let physics: PhysicsComponent<i32> = PhysicsComponent::new(&mut manager, 1, 2, 3, 4, 5);
    assert_eq!(physics.id(), UNPLACED_PHYSICS_COMPONENT_ID);
    assert_eq!(physics.parent(), u32::MAX);
    assert!(physics.impulses().is_empty());
    let mut names = physics.concept_ids().clone();
    names.sort();
    assert_eq!(names, vec!["angular_velocity", "mass", "net_force", "net_torque", "velocity"]);
    assert!(matches!(manager.get_concept(UNPLACED_PHYSICS_COMPONENT_ID, "velocity".to_string()), Ok(&1)));
    assert!(matches!(manager.get_concept(UNPLACED_PHYSICS_COMPONENT_ID, "net_force".to_string()), Ok(&2)));
    assert!(matches!(manager.get_concept(UNPLACED_PHYSICS_COMPONENT_ID, "mass".to_string()), Ok(&3)));
    assert!(matches!(manager.get_concept(UNPLACED_PHYSICS_COMPONENT_ID, "angular_velocity".to_string()), Ok(&4)));
    assert!(matches!(manager.get_concept(UNPLACED_PHYSICS_COMPONENT_ID, "net_torque".to_string()), Ok(&5)));
}

#[test]
fn component_types_keep_their_concepts_apart() {
    let text = TextComponent::new(0u8);
    let mut manager: ConceptManager<i32> = ConceptManager::default();
    let physics: PhysicsComponent<i32> = PhysicsComponent::new(&mut manager, 1, 2, 3, 4, 5);
    assert_ne!(text.id(), physics.id());
    let mut data = ConceptMap::new();
    data.insert("colour".to_string(), 7);
    manager.register_component_concepts(text.id(), data);
    assert!(matches!(manager.get_concept(physics.id(), "mass".to_string()), Ok(&3)));
    assert!(matches!(manager.get_concept(text.id(), "colour".to_string()), Ok(&7)));
}

#[test]
fn physics_component_register_component_replaces_concepts() {
    let mut manager: ConceptManager<i32> = ConceptManager::default();
    let mut physics: PhysicsComponent<i32> = PhysicsComponent::new(&mut manager, 1, 2, 3, 4, 5);
    let mut data = ConceptMap::new();
    data.insert("spin".to_string(), 9);
    physics.register_component(&mut manager, data);
    assert_eq!(physics.concept_ids(), &vec!["spin".to_string()]);
    assert!(manager.get_concept(UNPLACED_PHYSICS_COMPONENT_ID, "mass".to_string()).is_err());
}

#[test]
fn remove_impulses_keeps_exactly_the_expired_ones() {
    let mut manager: ConceptManager<i32> = ConceptManager::default();
    let mut physics: PhysicsComponent<&str> = PhysicsComponent::new(&mut manager, 0, 0, 0, 0, 0);
    physics.add_impulse("short", 100, 50);
    physics.add_impulse("long", 100, 1000);
    physics.add_impulse("exact", 200, 0);
    physics.remove_impulses(200);
    let forces: Vec<&str> = physics.impulses().iter().map(|i: &Impulse<&str>| i.force).collect();
    assert_eq!(forces, vec!["short", "exact"]);
    physics.remove_impulses(200);
    let forces: Vec<&str> = physics.impulses().iter().map(|i: &Impulse<&str>| i.force).collect();
    assert_eq!(forces, vec!["short", "exact"]);
}

#[test]
fn remove_impulses_does_not_overflow_at_the_end_of_time() {
    let mut manager: ConceptManager<i32> = ConceptManager::default();
    let mut physics: PhysicsComponent<u8> = PhysicsComponent::new(&mut manager, 0, 0, 0, 0, 0);
    physics.add_impulse(1, u64::MAX, u64::MAX);
    physics.remove_impulses(u64::MAX);
    assert!(physics.impulses().is_empty());
}

#[test]
fn add_impulse_records_start_and_duration() {
    let mut manager: ConceptManager<i32> = ConceptManager::default();
    let mut physics: PhysicsComponent<u8> = PhysicsComponent::new(&mut manager, 0, 0, 0, 0, 0);
    physics.add_impulse(7, 10, 20);
    let impulse = &physics.impulses()[0];
    assert_eq!((impulse.force, impulse.initialized_instant, impulse.duration), (7, 10, 20));
}

#[test]
fn obj_load_outcomes() {
    assert_eq!(check_obj_load(false, true, true), Err(MeshComponentError::FailedToLoadObj));
    assert_eq!(check_obj_load(false, false, false), Err(MeshComponentError::FailedToLoadObj));
    assert_eq!(check_obj_load(true, false, true), Err(MeshComponentError::FailedToLoadMtl));
    assert_eq!(check_obj_load(true, false, false), Ok(()));
    assert_eq!(check_obj_load(true, true, true), Ok(()));
}

#[test]
fn mesh_vertices_split_flat_arrays() {
    let positions: Vec<f32> = vec![0.0, 1.0, 2.0, 3.0, 4.0, 5.0, 6.0];
    let normals: Vec<f32> = vec![10.0, 11.0, 12.0, 13.0, 14.0, 15.0];
    let texcoords: Vec<f32> = vec![0.5, 0.25, 0.75, 0.125];
    let vertices = mesh_vertices(&positions, &normals, &texcoords);
    assert_eq!(vertices.len(), 2);
    assert_eq!(vertices[0].position, [0.0, 1.0, 2.0]);
    assert_eq!(vertices[1].position, [3.0, 4.0, 5.0]);
    assert_eq!(vertices[0].normal, [10.0, 11.0, 12.0]);
    assert_eq!(vertices[1].normal, [13.0, 14.0, 15.0]);
    assert_eq!(vertices[0].tex_coords, [0.5, 0.25]);
    assert_eq!(vertices[1].tex_coords, [0.75, 0.125]);
}

#[test]
fn mesh_vertices_of_empty_mesh() {
    let empty: Vec<u32> = Vec::new();
    assert!(mesh_vertices(&empty, &empty, &empty).is_empty());
}
