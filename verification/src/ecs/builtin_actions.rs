use vstd::prelude::*;

use super::actions::Action;
use super::component::{ComponentId, ComponentState, ComponentSystem};
use super::entity::{EntityId, EntityView};
use super::scene::{scene_wf, Scene, SceneView};

pub mod workload_action;

verus! {

/// The scene after the entity `id` was set to `desired`, or flipped where
/// `desired` is `None`; unchanged where there is no such entity.
pub open spec fn entity_toggled<W>(v: SceneView<W>, id: EntityId, desired: Option<bool>) -> SceneView<W> {
    if v.entities.contains_key(id) {
        SceneView {
            entities: v.entities.insert(
                id,
                EntityView {
                    is_enabled: match desired {
                        Some(b) => b,
                        None => !v.entities[id].is_enabled,
                    },
                    ..v.entities[id]
                },
            ),
            ..v
        }
    } else {
        v
    }
}

/// The position of the first component with identifier `id`; the length where none has it.
pub open spec fn first_component_with_id(s: Seq<ComponentState>, id: ComponentId) -> int
    decreases s.len(),
{
    if s.len() == 0 {
        0
    } else if s[0].id == id {
        0
    } else {
        1 + first_component_with_id(s.drop_first(), id)
    }
}

/// The scene after the first component with identifier `id` was set to
/// `desired`, or flipped where `desired` is `None`; unchanged where no
/// component has that identifier.
pub open spec fn component_toggled<W>(v: SceneView<W>, id: ComponentId, desired: Option<bool>) -> SceneView<W> {
    let i = first_component_with_id(v.components, id);
    if i < v.components.len() {
        SceneView {
            components: v.components.update(
                i,
                ComponentState {
                    enabled: match desired {
                        Some(b) => b,
                        None => !v.components[i].enabled,
                    },
                    ..v.components[i]
                },
            ),
            ..v
        }
    } else {
        v
    }
}

proof fn lemma_first_component_with_id(s: Seq<ComponentState>, id: ComponentId, i: int)
    requires
        0 <= i <= s.len(),
        forall|j: int| 0 <= j < i ==> (#[trigger] s[j]).id != id,
        i == s.len() || s[i].id == id,
    ensures
        first_component_with_id(s, id) == i,
    decreases i,
{
    if i > 0 {
        let t = s.drop_first();
        assert forall|j: int| 0 <= j < i - 1 implies (#[trigger] t[j]).id != id by {
            assert(t[j] == s[j + 1]);
        }
        if i - 1 < t.len() {
            assert(t[i - 1] == s[i]);
        }
        lemma_first_component_with_id(t, id, i - 1);
    }
}

/// Enables, disables (`Some`) or flips (`None`) an entity.
#[derive(Debug)]
pub struct EntityToggleAction(pub EntityId, pub Option<bool>);

impl<C: ComponentSystem, W> Action<C, W> for EntityToggleAction {
    fn execute(self, scene: &mut Scene<C, W>)
        ensures
            final(scene)@ == entity_toggled(old(scene)@, self.0, self.1),
            old(scene)@.entities.contains_key(self.0) ==> final(scene)@.entities[self.0].is_enabled
                == match self.1 {
                Some(b) => b,
                None => !old(scene)@.entities[self.0].is_enabled,
            },
    {
        proof {
            law_entity_toggle_sets_the_state(old(scene)@, self.0, self.1);
        }
        match self.1 {
            Some(desired_state) => {
                scene.set_entity_enabled_state(self.0, desired_state);
            },
            None => {
                scene.toggle_entity_enabled_state(self.0);
            },
        }
    }
}

/// Enables, disables (`Some`) or flips (`None`) a component.
#[derive(Debug)]
pub struct ComponentToggleAction(pub ComponentId, pub Option<bool>);

impl<C: ComponentSystem, W> Action<C, W> for ComponentToggleAction {
    fn execute(self, scene: &mut Scene<C, W>)
        ensures
            final(scene)@ == component_toggled(old(scene)@, self.0, self.1),
            forall|i: int|
                0 <= i < old(scene)@.components.len() && (#[trigger] old(scene)@.components[i]).id
                    == self.0 && (forall|j: int|
                    0 <= j < i ==> (#[trigger] old(scene)@.components[j]).id != self.0)
                    ==> final(scene)@.components[i].enabled == match self.1 {
                    Some(b) => b,
                    None => !old(scene)@.components[i].enabled,
                },
    {
        proof {
            law_component_toggle_sets_the_state(old(scene)@, self.0, self.1);
        }
        match scene.component_index(self.0) {
            Some(index) => {
                proof {
                    lemma_first_component_with_id(scene@.components, self.0, index as int);
                }
                let component_enabled = scene.component_is_enabled(index);
                match self.1 {
                    Some(desired_state) => scene.set_component_enabled_state(index, desired_state),
                    None => scene.set_component_enabled_state(index, !component_enabled),
                }
            },
            None => {
                proof {
                    lemma_first_component_with_id(
                        scene@.components,
                        self.0,
                        scene@.components.len() as int,
                    );
                }
            },
        }
    }
}

/// Hands a component's background work to the scene.
pub struct WorkloadAction<W>(pub ComponentId, pub W);

impl<C: ComponentSystem, W> Action<C, W> for WorkloadAction<W> {
    fn execute(self, scene: &mut Scene<C, W>)
        ensures
            final(scene)@ == (SceneView {
                workloads: old(scene)@.workloads.insert(self.0, self.1),
                ..old(scene)@
            }),
    {
        scene.attach_workload(self.0, self.1);
    }
}

/// Setting an existing entity gives it exactly the state asked for, and
/// flipping gives it the other state, whatever it was before; no other
/// entity and nothing else in the scene changes.
pub proof fn law_entity_toggle_sets_the_state<W>(v: SceneView<W>, id: EntityId, desired: Option<bool>)
    ensures
        v.entities.contains_key(id) ==> entity_toggled(v, id, desired).entities.contains_key(id)
            && entity_toggled(v, id, desired).entities[id].is_enabled == match desired {
            Some(b) => b,
            None => !v.entities[id].is_enabled,
        },
        forall|k: EntityId|
            k != id ==> (#[trigger] entity_toggled(v, id, desired).entities.contains_key(k)
                == v.entities.contains_key(k) && entity_toggled(v, id, desired).entities[k]
                == v.entities[k]),
        entity_toggled(v, id, desired).components == v.components,
        entity_toggled(v, id, desired).entities.dom() == v.entities.dom(),
{
    if v.entities.contains_key(id) {
        assert(entity_toggled(v, id, desired).entities.dom() =~= v.entities.dom());
    }
}

/// Setting the first component with identifier `id` gives it exactly the
/// state asked for, and flipping gives it the other state, whatever it was
/// before; every other component stays as it was.
pub proof fn law_component_toggle_sets_the_state<W>(
    v: SceneView<W>,
    id: ComponentId,
    desired: Option<bool>,
)
    ensures
        component_toggled(v, id, desired).components.len() == v.components.len(),
        component_toggled(v, id, desired).entities == v.entities,
        forall|i: int|
            0 <= i < v.components.len() && (#[trigger] v.components[i]).id == id && (forall|j: int|
                0 <= j < i ==> (#[trigger] v.components[j]).id != id) ==> {
                &&& component_toggled(v, id, desired).components[i].enabled == match desired {
                    Some(b) => b,
                    None => !v.components[i].enabled,
                }
                &&& forall|j: int|
                    0 <= j < v.components.len() && j != i ==> (
                    #[trigger] component_toggled(v, id, desired).components[j]) == v.components[j]
            },
        (forall|i: int| 0 <= i < v.components.len() ==> (#[trigger] v.components[i]).id != id)
            ==> component_toggled(v, id, desired) == v,
{
    lemma_first_component_with_id_bounds(v.components, id);
    assert forall|i: int|
        0 <= i < v.components.len() && (#[trigger] v.components[i]).id == id && (forall|j: int|
            0 <= j < i ==> (#[trigger] v.components[j]).id != id) implies first_component_with_id(
        v.components,
        id,
    ) == i by {
        lemma_first_component_with_id(v.components, id, i);
    }
    if forall|i: int| 0 <= i < v.components.len() ==> (#[trigger] v.components[i]).id != id {
        lemma_first_component_with_id(v.components, id, v.components.len() as int);
    }
}

/// Flipping an entity twice leaves the scene as it was.
pub proof fn law_entity_flip_twice<W>(v: SceneView<W>, id: EntityId)
    ensures
        entity_toggled(entity_toggled(v, id, None), id, None) == v,
{
    if v.entities.contains_key(id) {
        assert(entity_toggled(entity_toggled(v, id, None), id, None).entities =~= v.entities);
    }
}

/// Setting an entity's state twice is setting it once.
pub proof fn law_entity_set_idempotent<W>(v: SceneView<W>, id: EntityId, enabled: bool)
    ensures
        entity_toggled(entity_toggled(v, id, Some(enabled)), id, Some(enabled)) == entity_toggled(
            v,
            id,
            Some(enabled),
        ),
{
    if v.entities.contains_key(id) {
        assert(entity_toggled(entity_toggled(v, id, Some(enabled)), id, Some(enabled)).entities
            =~= entity_toggled(v, id, Some(enabled)).entities);
    }
}

proof fn lemma_first_component_with_id_bounds(s: Seq<ComponentState>, id: ComponentId)
    ensures
        0 <= first_component_with_id(s, id) <= s.len(),
        forall|j: int|
            0 <= j < first_component_with_id(s, id) ==> (#[trigger] s[j]).id != id,
        first_component_with_id(s, id) < s.len() ==> s[first_component_with_id(s, id)].id == id,
    decreases s.len(),
{
    if s.len() > 0 && s[0].id != id {
        let t = s.drop_first();
        lemma_first_component_with_id_bounds(t, id);
        assert forall|j: int| 0 <= j < first_component_with_id(s, id) implies (#[trigger] s[j]).id
            != id by {
            if j > 0 {
                assert(s[j] == t[j - 1]);
            }
        }
        if first_component_with_id(s, id) < s.len() {
            assert(s[first_component_with_id(s, id)] == t[first_component_with_id(t, id)]);
        }
    }
}

/// Flipping a component twice leaves the scene as it was.
pub proof fn law_component_flip_twice<W>(v: SceneView<W>, id: ComponentId)
    ensures
        component_toggled(component_toggled(v, id, None), id, None) == v,
{
    lemma_first_component_with_id_bounds(v.components, id);
    let i = first_component_with_id(v.components, id);
    if i < v.components.len() {
        let once = component_toggled(v, id, None);
        assert forall|j: int| 0 <= j < i implies (#[trigger] once.components[j]).id != id by {
            assert(once.components[j] == v.components[j]);
        }
        lemma_first_component_with_id(once.components, id, i);
        assert(component_toggled(once, id, None).components =~= v.components);
    }
}

/// Setting a component's state twice is setting it once.
pub proof fn law_component_set_idempotent<W>(v: SceneView<W>, id: ComponentId, enabled: bool)
    ensures
        component_toggled(component_toggled(v, id, Some(enabled)), id, Some(enabled))
            == component_toggled(v, id, Some(enabled)),
{
    lemma_first_component_with_id_bounds(v.components, id);
    let i = first_component_with_id(v.components, id);
    if i < v.components.len() {
        let once = component_toggled(v, id, Some(enabled));
        assert forall|j: int| 0 <= j < i implies (#[trigger] once.components[j]).id != id by {
            assert(once.components[j] == v.components[j]);
        }
        lemma_first_component_with_id(once.components, id, i);
        assert(component_toggled(once, id, Some(enabled)).components =~= once.components);
    }
}

/// Toggling an entity or a component keeps the scene's invariant.
pub proof fn law_toggles_keep_invariant<W>(
    v: SceneView<W>,
    entity: EntityId,
    component: ComponentId,
    desired: Option<bool>,
)
    requires
        scene_wf(v),
    ensures
        scene_wf(entity_toggled(v, entity, desired)),
        scene_wf(component_toggled(v, component, desired)),
{
    lemma_first_component_with_id_bounds(v.components, component);
    let t = component_toggled(v, component, desired);
    assert forall|i: int, j: int| 0 <= i < j < t.components.len() implies (
    #[trigger] t.components[i]).rendering_order <= (#[trigger] t.components[j]).rendering_order by {
        assert(t.components[i].rendering_order == v.components[i].rendering_order);
        assert(t.components[j].rendering_order == v.components[j].rendering_order);
    }
    let e = entity_toggled(v, entity, desired);
    assert forall|k: EntityId| #[trigger] e.entities.contains_key(k) implies e.entities[k].id == k by {
        if k != entity {
            assert(v.entities.contains_key(k));
        }
    }
}

} // verus!
