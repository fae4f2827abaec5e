use vstd::prelude::*;

use crate::ecs::component::{
    ComponentDetails, ComponentId, ComponentSystem, UNPLACED_TEXT_COMPONENT_ID,
};
use crate::ecs::entity::EntityId;

verus! {

/// A component that shows a piece of text, described by its parameters.
pub struct TextComponent<P> {
    params: P,
    text_index: usize,
    parent: EntityId,
    id: ComponentId,
    enabled: bool,
    initialized: bool,
}

impl<P> TextComponent<P> {
    pub closed spec fn view_params(&self) -> P {
        self.params
    }

    /// Where the component's text stands among the scene's text items.
    pub closed spec fn view_text_index(&self) -> usize {
        self.text_index
    }

    /// A text component that has no parent and no place among the text items yet.
    pub fn new(params: P) -> (r: Self)
        ensures
            r.view_params() == params,
            r.view_text_index() == usize::MAX,
            r.view_parent() == 0,
            r.view_id() == UNPLACED_TEXT_COMPONENT_ID,
            r.view_enabled(),
            !r.view_initialized(),
            r.view_rendering_order() == 0,
    {
        TextComponent {
            params,
            text_index: usize::MAX,
            parent: 0,
            id: UNPLACED_TEXT_COMPONENT_ID,
            enabled: true,
            initialized: false,
        }
    }

    /// The text parameters.
    pub fn params(&self) -> (r: &P)
        ensures
            *r == self.view_params(),
    {
        &self.params
    }

    /// Where the component's text stands among the scene's text items.
    pub fn text_index(&self) -> (r: usize)
        ensures
            r == self.view_text_index(),
    {
        self.text_index
    }
}

impl<P: Clone> TextComponent<P> {
    /// Appends a copy of the parameters to the scene's text items and
    /// remembers where it went.
    pub fn initialize_text(&mut self, text_items: &mut Vec<P>)
        ensures
            final(self).view_text_index() == old(text_items)@.len(),
            final(self).view_params() == old(self).view_params(),
            final(self).view_parent() == old(self).view_parent(),
            final(self).view_id() == old(self).view_id(),
            final(self).view_enabled() == old(self).view_enabled(),
            final(self).view_initialized(),
            final(text_items)@.len() == old(text_items)@.len() + 1,
            final(text_items)@.drop_last() == old(text_items)@,
            cloned(old(self).view_params(), final(text_items)@.last()),
    {
        self.text_index = text_items.len();
        text_items.push(self.params.clone());
        self.initialized = true;
        assert(text_items@.drop_last() =~= old(text_items)@);
    }
}

impl<P> ComponentDetails for TextComponent<P> {
    closed spec fn view_id(&self) -> ComponentId {
        self.id
    }

    closed spec fn view_initialized(&self) -> bool {
        self.initialized
    }

    closed spec fn view_parent(&self) -> EntityId {
        self.parent
    }

    closed spec fn view_enabled(&self) -> bool {
        self.enabled
    }

    closed spec fn view_rendering_order(&self) -> i32 {
        0
    }

    fn id(&self) -> (r: ComponentId) {
        self.id
    }

    fn is_initialized(&self) -> (r: bool) {
        self.initialized
    }

    fn parent_entity_id(&self) -> (r: EntityId) {
        self.parent
    }

    fn set_parent_entity(&mut self, parent_id: EntityId) {
        self.parent = parent_id;
    }

    fn is_enabled(&self) -> (r: bool) {
        self.enabled
    }

    fn set_enabled_state(&mut self, enabled_state: bool) {
        self.enabled = enabled_state;
    }
}

impl<P> ComponentSystem for TextComponent<P> {
    fn rendering_order(&self) -> (r: i32) {
        0
    }
}

} // verus!
