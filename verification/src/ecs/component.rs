use vstd::prelude::*;

use super::entity::EntityId;

verus! {

/// Numeric identifier of a component.
pub type ComponentId = u32;

/// The identifier a text component has until it is given its own.
pub const UNPLACED_TEXT_COMPONENT_ID: ComponentId = u32::MAX;

/// The identifier a physics component has until it is given its own.
pub const UNPLACED_PHYSICS_COMPONENT_ID: ComponentId = u32::MAX - 1;

/// The identifier a mesh component has until it is given its own.
pub const UNPLACED_MESH_COMPONENT_ID: ComponentId = u32::MAX - 2;

/// What the scene can see of a component.
pub struct ComponentState {
    pub id: ComponentId,
    pub initialized: bool,
    pub parent: EntityId,
    pub enabled: bool,
    pub rendering_order: i32,
}

/// The bookkeeping every component offers to the scene.
pub trait ComponentDetails {
    spec fn view_id(&self) -> ComponentId;

    spec fn view_initialized(&self) -> bool;

    spec fn view_parent(&self) -> EntityId;

    spec fn view_enabled(&self) -> bool;

    spec fn view_rendering_order(&self) -> i32;

    fn id(&self) -> (r: ComponentId)
        ensures
            r == self.view_id(),
    ;

    fn is_initialized(&self) -> (r: bool)
        ensures
            r == self.view_initialized(),
    ;

    fn parent_entity_id(&self) -> (r: EntityId)
        ensures
            r == self.view_parent(),
    ;

    /// Moves the component under `parent_id`; nothing else the scene sees changes.
    fn set_parent_entity(&mut self, parent_id: EntityId)
        ensures
            final(self).view_parent() == parent_id,
            final(self).view_id() == old(self).view_id(),
            final(self).view_initialized() == old(self).view_initialized(),
            final(self).view_enabled() == old(self).view_enabled(),
            final(self).view_rendering_order() == old(self).view_rendering_order(),
    ;

    fn is_enabled(&self) -> (r: bool)
        ensures
            r == self.view_enabled(),
    ;

    /// Enables or disables the component; nothing else the scene sees changes.
    fn set_enabled_state(&mut self, enabled_state: bool)
        ensures
            final(self).view_enabled() == enabled_state,
            final(self).view_id() == old(self).view_id(),
            final(self).view_initialized() == old(self).view_initialized(),
            final(self).view_parent() == old(self).view_parent(),
            final(self).view_rendering_order() == old(self).view_rendering_order(),
    ;
}

/// A component that the scene drives.
pub trait ComponentSystem: ComponentDetails {
    /// Called once, before the first update.
    fn initialize(&self) {
    }

    /// Lower order means it is rendered earlier.
    fn rendering_order(&self) -> (r: i32)
        ensures
            r == self.view_rendering_order(),
    ;
}

/// The state that the scene sees of `c`.
pub open spec fn component_state<C: ComponentDetails>(c: C) -> ComponentState {
    ComponentState {
        id: c.view_id(),
        initialized: c.view_initialized(),
        parent: c.view_parent(),
        enabled: c.view_enabled(),
        rendering_order: c.view_rendering_order(),
    }
}

/// The states of a sequence of components, in order.
pub open spec fn component_states<C: ComponentDetails>(s: Seq<C>) -> Seq<ComponentState> {
    s.map_values(|c: C| component_state(c))
}

} // verus!
