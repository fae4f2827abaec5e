use gamezap::ecs::actions::Action;
use gamezap::ecs::builtin_actions::{ComponentToggleAction, EntityToggleAction, WorkloadAction};
use gamezap::ecs::component::{
    ComponentDetails, ComponentId, ComponentSystem, UNPLACED_TEXT_COMPONENT_ID,
};
use gamezap::ecs::components::text_component::TextComponent;
use gamezap::ecs::entity::{Entity, EntityId};
use gamezap::ecs::scene::{MaterialRegistration, Scene};

struct Ordered {
    id: ComponentId,
    parent: EntityId,
    enabled: bool,
    order: i32,
}

impl ComponentDetails for Ordered {
    fn view_id(&self) -> ComponentId {
        self.id
    }
    fn view_initialized(&self) -> bool {
        false
    }
    fn view_parent(&self) -> EntityId {
        self.parent
    }
    fn view_enabled(&self) -> bool {
        self.enabled
    }
    fn view_rendering_order(&self) -> i32 {
        self.order
    }
    fn id(&self) -> ComponentId {
        self.id
    }
    fn is_initialized(&self) -> bool {
        false
    }
    fn parent_entity_id(&self) -> EntityId {
        self.parent
    }
    fn set_parent_entity(&mut self, parent_id: EntityId) {
        self.parent = parent_id;
    }
    fn is_enabled(&self) -> bool {
        self.enabled
    }
    fn set_enabled_state(&mut self, enabled_state: bool) {
        self.enabled = enabled_state;
    }
}

impl ComponentSystem for Ordered {
    fn rendering_order(&self) -> i32 {
        self.order
    }
}

fn ordered(id: ComponentId, order: i32) -> Ordered {
    Ordered { id, parent: 0, enabled: true, order }
}

fn ids(scene: &Scene<Ordered, u32>) -> Vec<ComponentId> {
    scene.components().iter().map(|c| c.id).collect()
}

fn parents(scene: &Scene<Ordered, u32>) -> Vec<EntityId> {
    scene.components().iter().map(|c| c.parent).collect()
}

#[test]
fn new_scene_is_empty() {
    let scene: Scene<Ordered, u32> = Scene::new();
    assert!(scene.components().is_empty());
    assert!(scene.get_entity(1).is_none());
}

#[test]
fn create_entity_hands_out_consecutive_ids() {
    let mut scene: Scene<Ordered, u32> = Scene::new();
    assert_eq!(scene.create_entity(None, Vec::new(), 0, true), 1);
    assert_eq!(scene.create_entity(Some(1), Vec::new(), 3, false), 2);
    let first: &Entity = scene.get_entity(1).unwrap();
    assert_eq!(first.id(), 1);
    assert_eq!(first.parent_id(), 0);
    assert!(first.is_enabled());
    assert_eq!(first.active_material(), 0);
    assert!(first.children_ids().is_empty());
    let second = scene.get_entity(2).unwrap();
    assert_eq!(second.parent_id(), 1);
    assert!(!second.is_enabled());
    assert_eq!(second.active_material(), 3);
    assert!(scene.get_entity(3).is_none());
}

#[test]
fn create_entity_orders_components() {
    let mut scene: Scene<Ordered, u32> = Scene::new();
    scene.create_entity(None, vec![ordered(1, 5), ordered(2, 1)], 0, true);
    let orders: Vec<i32> = scene.components().iter().map(|c| c.order).collect();
    assert_eq!(orders, vec![1, 5]);
    assert_eq!(ids(&scene), vec![2, 1]);
}

#[test]
fn equal_orders_put_the_newer_component_first() {
    let mut scene: Scene<Ordered, u32> = Scene::new();
    scene.create_entity(None, vec![ordered(1, 0)], 0, true);
    scene.create_entity(None, vec![ordered(2, 0)], 0, true);
    assert_eq!(ids(&scene), vec![2, 1]);
}

#[test]
fn create_entity_makes_its_components_children() {
    let mut scene: Scene<Ordered, u32> = Scene::new();
    scene.create_entity(None, vec![ordered(1, 9)], 0, true);
    let id = scene.create_entity(None, vec![ordered(2, 1)], 0, true);
    assert_eq!(id, 2);
    // the new component goes in front and belongs to the new entity; the old one keeps its parent
    assert_eq!(ids(&scene), vec![2, 1]);
    assert_eq!(parents(&scene), vec![2, 1]);
}

#[test]
fn equal_orders_keep_each_component_with_its_entity() {
    let mut scene: Scene<TextComponent<u8>, ()> = Scene::new();
    let first = scene.create_entity(None, vec![TextComponent::new(1)], 0, true);
    let second = scene.create_entity(None, vec![TextComponent::new(2)], 0, true);
    let parents: Vec<u32> = scene.components().iter().map(|c| c.parent_entity_id()).collect();
    let params: Vec<u8> = scene.components().iter().map(|c| *c.params()).collect();
    assert_eq!(params, vec![2, 1]);
    assert_eq!(parents, vec![second, first]);
}

#[test]
fn create_entity_keeps_old_components_and_adds_new_ones() {
    let mut scene: Scene<Ordered, u32> = Scene::new();
    scene.create_entity(None, vec![ordered(1, 4), ordered(2, 0)], 0, true);
    let id = scene.create_entity(None, vec![ordered(3, 2), ordered(4, 9), ordered(5, 0)], 0, true);
    assert_eq!(ids(&scene), vec![5, 2, 3, 1, 4]);
    assert_eq!(parents(&scene), vec![id, 1, id, 1, id]);
    let orders: Vec<i32> = scene.components().iter().map(|c| c.order).collect();
    assert_eq!(orders, vec![0, 0, 2, 4, 9]);
}

#[test]
fn create_material_numbers_materials_and_notes_new_pipelines() {
    let mut scene: Scene<Ordered, u32> = Scene::new();
    let a = scene.create_material("v.wgsl".to_string(), "f.wgsl".to_string());
    let b = scene.create_material("v.wgsl".to_string(), "f.wgsl".to_string());
    let c = scene.create_material("v.wgsl".to_string(), "g.wgsl".to_string());
    assert_eq!(a, MaterialRegistration { id: 0, new_pipeline: true });
    assert_eq!(b, MaterialRegistration { id: 1, new_pipeline: false });
    assert_eq!(c, MaterialRegistration { id: 2, new_pipeline: true });
}

#[test]
fn pipeline_materials_list_each_pipelines_materials() {
    let mut scene: Scene<Ordered, u32> = Scene::new();
    scene.create_material("v.wgsl".to_string(), "f.wgsl".to_string());
    scene.create_material("v.wgsl".to_string(), "g.wgsl".to_string());
    scene.create_material("v.wgsl".to_string(), "f.wgsl".to_string());
    let first = scene.get_pipeline_materials(&("v.wgsl".to_string(), "f.wgsl".to_string()));
    let second = scene.get_pipeline_materials(&("v.wgsl".to_string(), "g.wgsl".to_string()));
    let unknown = scene.get_pipeline_materials(&("x.wgsl".to_string(), "y.wgsl".to_string()));
    assert_eq!(first, vec![0, 2]);
    assert_eq!(second, vec![1]);
    assert!(unknown.is_empty());
}

#[test]
fn components_to_update_are_enabled_components_of_enabled_entities() {
    let mut scene: Scene<Ordered, u32> = Scene::new();
    let a = scene.create_entity(None, vec![ordered(1, 0), ordered(2, 1)], 0, true);
    let b = scene.create_entity(None, vec![ordered(3, 2)], 0, false);
    scene.create_entity(None, vec![ordered(4, 3)], 0, true);
    assert_eq!(scene.components_to_update(), vec![0, 1, 3]);
    scene.set_component_enabled_state(1, false);
    assert_eq!(scene.components_to_update(), vec![0, 3]);
    scene.toggle_entity_enabled_state(b);
    scene.set_entity_enabled_state(a, false);
    assert_eq!(scene.components_to_update(), vec![2, 3]);
}

#[test]
fn components_per_material_follow_the_parent_entity() {
    let mut scene: Scene<Ordered, u32> = Scene::new();
    scene.create_material("v".to_string(), "f".to_string());
    scene.create_material("v".to_string(), "f".to_string());
    scene.create_material("v".to_string(), "f".to_string());
    // entity 1 uses material 1, entity 2 uses material 0
    scene.create_entity(None, vec![ordered(10, 0)], 1, true);
    scene.create_entity(None, vec![ordered(20, 5)], 0, true);
    // components: [10 (parent 1), 20 (parent 2)]
    let per_material = scene.get_components_per_material();
    assert_eq!(per_material.len(), 3);
    assert_eq!(per_material[&0], vec![1]);
    assert_eq!(per_material[&1], vec![0]);
    assert_eq!(per_material[&2], Vec::<usize>::new());
}

#[test]
fn entity_toggle_action_sets_and_flips() {
    let mut scene: Scene<Ordered, u32> = Scene::new();
    scene.create_entity(None, Vec::new(), 0, true);
    EntityToggleAction(1, None).execute(&mut scene);
    assert!(!scene.get_entity(1).unwrap().is_enabled());
    EntityToggleAction(1, None).execute(&mut scene);
    assert!(scene.get_entity(1).unwrap().is_enabled());
    EntityToggleAction(1, Some(false)).execute(&mut scene);
    EntityToggleAction(1, Some(false)).execute(&mut scene);
    assert!(!scene.get_entity(1).unwrap().is_enabled());
}

#[test]
fn entity_toggle_action_ignores_unknown_entities() {
    let mut scene: Scene<Ordered, u32> = Scene::new();
    scene.create_entity(None, Vec::new(), 0, true);
    EntityToggleAction(9, Some(false)).execute(&mut scene);
    assert!(scene.get_entity(1).unwrap().is_enabled());
    assert!(scene.get_entity(9).is_none());
}

#[test]
fn component_toggle_action_sets_and_flips_the_first_match() {
    let mut scene: Scene<Ordered, u32> = Scene::new();
    scene.create_entity(None, vec![ordered(4, 0), ordered(4, 1)], 0, true);
    ComponentToggleAction(4, None).execute(&mut scene);
    let enabled: Vec<bool> = scene.components().iter().map(|c| c.enabled).collect();
    assert_eq!(enabled, vec![false, true]);
    ComponentToggleAction(4, None).execute(&mut scene);
    let enabled: Vec<bool> = scene.components().iter().map(|c| c.enabled).collect();
    assert_eq!(enabled, vec![true, true]);
    ComponentToggleAction(4, Some(false)).execute(&mut scene);
    let enabled: Vec<bool> = scene.components().iter().map(|c| c.enabled).collect();
    assert_eq!(enabled, vec![false, true]);
    ComponentToggleAction(99, Some(false)).execute(&mut scene);
    let enabled: Vec<bool> = scene.components().iter().map(|c| c.enabled).collect();
    assert_eq!(enabled, vec![false, true]);
}

#[test]
fn workload_action_attaches_the_workload() {
    let mut scene: Scene<Ordered, u32> = Scene::new();
    WorkloadAction(3, 42u32).execute(&mut scene);
    gamezap::ecs::builtin_actions::workload_action::WorkloadAction(5, 7u32).execute(&mut scene);
    WorkloadAction(3, 43u32).execute(&mut scene);
    let workloads = scene.workloads_mut();
    assert_eq!(workloads.len(), 2);
    assert_eq!(workloads[&3], 43);
    assert_eq!(workloads[&5], 7);
}

#[test]
fn scene_entity_state_setters_report_presence() {
    let mut scene: Scene<Ordered, u32> = Scene::new();
    scene.create_entity(None, Vec::new(), 0, true);
    assert!(scene.set_entity_enabled_state(1, false));
    assert!(!scene.set_entity_enabled_state(2, false));
    assert!(scene.toggle_entity_enabled_state(1));
    assert!(!scene.toggle_entity_enabled_state(3));
    assert!(scene.get_entity(1).unwrap().is_enabled());
}

#[test]
fn scene_holds_text_components() {
    let mut scene: Scene<TextComponent<u8>, ()> = Scene::new();
    let id = scene.create_entity(None, vec![TextComponent::new(1), TextComponent::new(2)], 0, true);
    assert_eq!(scene.components().len(), 2);
    assert_eq!(scene.components()[0].parent_entity_id(), id);
    assert_eq!(scene.components()[1].parent_entity_id(), id);
    assert_eq!(scene.component_index(UNPLACED_TEXT_COMPONENT_ID), Some(0));
    assert!(scene.component_is_enabled(0));
    scene.set_component_enabled_state(0, false);
    assert!(!scene.component_is_enabled(0));
    scene.initialize();
}

#[test]
fn components_that_render_later_all_become_children() {
    let mut scene: Scene<Ordered, u32> = Scene::new();
    scene.create_entity(None, vec![ordered(1, 0)], 0, true);
    let id = scene.create_entity(None, vec![ordered(2, 3), ordered(3, 7)], 0, true);
    assert_eq!(ids(&scene), vec![1, 2, 3]);
    assert_eq!(parents(&scene), vec![1, id, id]);
}
