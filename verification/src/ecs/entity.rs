use vstd::prelude::*;

use super::material::MaterialId;

verus! {

/// Numeric identifier of an entity, handed out by the scene.
pub type EntityId = u32;

/// What an entity holds, as plain values.
pub struct EntityView {
    pub id: EntityId,
    pub children_ids: Seq<EntityId>,
    pub parent_id: EntityId,
    pub is_enabled: bool,
    pub materials: Seq<MaterialId>,
    pub active_material: MaterialId,
}

/// A game object: the components that name it as parent belong to it.
pub struct Entity {
    id: EntityId,
    children_ids: Vec<EntityId>,
    parent_id: EntityId,
    is_enabled: bool,
    materials: Vec<MaterialId>,
    active_material: MaterialId,
}

impl View for Entity {
    type V = EntityView;

    closed spec fn view(&self) -> EntityView {
        EntityView {
            id: self.id,
            children_ids: self.children_ids@,
            parent_id: self.parent_id,
            is_enabled: self.is_enabled,
            materials: self.materials@,
            active_material: self.active_material,
        }
    }
}

impl Entity {
    /// An entity with the given identity, family and active material.
    pub fn new(
        id: EntityId,
        children_ids: Vec<EntityId>,
        parent_id: EntityId,
        is_enabled: bool,
        active_material: MaterialId,
    ) -> (r: Entity)
        ensures
            r@ == (EntityView {
                id,
                children_ids: children_ids@,
                parent_id,
                is_enabled,
                materials: Seq::empty(),
                active_material,
            }),
    {
        Entity { id, children_ids, parent_id, is_enabled, materials: Vec::new(), active_material }
    }

    pub fn id(&self) -> (r: EntityId)
        ensures
            r == self@.id,
    {
        self.id
    }

    pub fn parent_id(&self) -> (r: EntityId)
        ensures
            r == self@.parent_id,
    {
        self.parent_id
    }

    pub fn children_ids(&self) -> (r: &Vec<EntityId>)
        ensures
            r@ == self@.children_ids,
    {
        &self.children_ids
    }

    pub fn materials(&self) -> (r: &Vec<MaterialId>)
        ensures
            r@ == self@.materials,
    {
        &self.materials
    }

    pub fn active_material(&self) -> (r: MaterialId)
        ensures
            r == self@.active_material,
    {
        self.active_material
    }

    pub fn is_enabled(&self) -> (r: bool)
        ensures
            r == self@.is_enabled,
    {
        self.is_enabled
    }

    /// Enables or disables the entity; nothing else changes.
    pub fn set_enabled_state(&mut self, enabled_state: bool)
        ensures
            final(self)@ == (EntityView { is_enabled: enabled_state, ..old(self)@ }),
    {
        self.is_enabled = enabled_state;
    }

    /// Flips whether the entity is enabled; nothing else changes.
    pub fn toggle_enabled_state(&mut self)
        ensures
            final(self)@ == (EntityView { is_enabled: !old(self)@.is_enabled, ..old(self)@ }),
    {
        self.is_enabled = !self.is_enabled;
    }
}

} // verus!
